use resumec::model::resume::{
    Award, Basics, Certification, EducationEntry, LanguageSkill, Link, Project, Resume,
    SkillCategory, WorkExperience,
};
use resumec::model::theme::{
    SectionId, Theme, ThemeLayout, ThemePalette, ThemeSection, ThemeSpacing, ThemeTypography,
};
use resumec::output::docx::{docx_content, docx_document};
use resumec::render::document::{blank_line, render_lines, section_heading, DocumentLine, LineKind};
use resumec::render::locale::{is_portuguese_locale, localized_label};
use resumec::render::wrap::{
    estimate_text_width, layout_wrapped_lines, split_oversized_token, wrap_text,
};

fn s(text: &str) -> String {
    text.to_string()
}

fn example_resume() -> Resume {
    Resume {
        schema_version: 1,
        basics: Basics {
            name: s("Ana Souza"),
            headline: Some(s("Senior Software Engineer")),
            email: s("ana.souza@example.com"),
            phone: Some(s("+55 11 99999-0000")),
            location: Some(s("São Paulo, Brazil")),
            summary: Some(s("Engineer focused on mobile and web products.")),
            links: vec![Link { label: s("GitHub"), url: s("https://github.com/anasouza") }],
        },
        work: vec![WorkExperience {
            company: s("Acme"),
            position: s("Software Engineer"),
            start_date: Some(s("2021-01")),
            end_date: Some(s("Present")),
            location: Some(s("Remote")),
            summary: None,
            highlights: vec![s("Built the mobile app"), s("Led the API redesign")],
        }],
        education: vec![EducationEntry {
            institution: s("USP"),
            area: s("Computer Science"),
            study_type: Some(s("BSc")),
            start_date: Some(s("2014")),
            end_date: Some(s("2018")),
            location: None,
            score: None,
        }],
        skills: vec![SkillCategory {
            category: s("Languages"),
            items: vec![s("Rust"), s("TypeScript")],
        }],
        certifications: vec![Certification {
            name: s("AWS Developer"),
            issuer: Some(s("Amazon")),
            date: Some(s("2022")),
            summary: None,
        }],
        projects: vec![Project {
            name: s("resumec"),
            summary: Some(s("Resume compiler")),
            url: Some(s("https://example.com/resumec")),
            highlights: vec![],
        }],
        languages: vec![LanguageSkill { name: s("Portuguese"), fluency: Some(s("Native")) }],
        awards: vec![Award {
            title: s("Hackathon winner"),
            issuer: None,
            date: Some(s("2019")),
            summary: None,
        }],
        theme: None,
        locale: None,
        target_role: None,
    }
}

fn classic_theme() -> Theme {
    Theme {
        schema_version: 1,
        name: s("classic"),
        description: Some(s("Traditional single-column ATS-safe layout")),
        ats_safe: true,
        palette: ThemePalette {
            primary: s("#1F2933"),
            secondary: s("#3E4C59"),
            accent: s("#52606D"),
            text: s("#1F2933"),
            muted: s("#7B8794"),
        },
        typography: ThemeTypography {
            font_family: s("Helvetica"),
            base_size_cpt: 1100,
            heading_size_cpt: 1400,
        },
        spacing: ThemeSpacing { section_gap_cpt: 1200, item_gap_cpt: 600, page_margin_cpt: 3600 },
        layout: ThemeLayout { columns: 1 },
        sections: vec![],
    }
}


fn texts(lines: &[DocumentLine]) -> Vec<String> {
    lines.iter().map(|line| line.text.clone()).collect()
}

#[test]
fn wraps_long_lines_and_localizes_portuguese_labels() {
    assert_eq!(localized_label("work", Some("pt-BR")), "Experiência Profissional");
    assert_eq!(localized_label("work", Some("en-US")), "Work Experience");
    let wrapped = wrap_text(
        "• Desenvolvimento full stack end-to-end com React Native, Laravel e Node.js para produtos white-label em produção.",
        22000,
        1050,
        false,
    );
    assert!(wrapped.len() > 1);
    assert!(wrapped[0].starts_with('•'));
    assert!(wrapped[1].starts_with("  "));
}

#[test]
fn locale_detection_is_case_insensitive() {
    assert!(is_portuguese_locale(Some("pt")));
    assert!(is_portuguese_locale(Some("PT_br")));
    assert!(is_portuguese_locale(Some("Pt-PT")));
    assert!(!is_portuguese_locale(Some("ptx")));
    assert!(!is_portuguese_locale(Some("p")));
    assert!(!is_portuguese_locale(Some("en")));
    assert!(!is_portuguese_locale(None));
    assert_eq!(localized_label("awards", Some("pt")), "Realizações");
    assert_eq!(localized_label("awards", None), "Awards");
    assert_eq!(localized_label("unknown", Some("pt")), "Section");
}

#[test]
fn renders_every_section_in_the_default_order() {
    let lines = render_lines(&example_resume(), &classic_theme());
    let expected = vec![
        "Ana Souza",
        "Senior Software Engineer",
        "ana.souza@example.com | +55 11 99999-0000 | São Paulo, Brazil",
        "GitHub: https://github.com/anasouza",
        "",
        "Summary",
        "Engineer focused on mobile and web products.",
        "",
        "Work Experience",
        "Software Engineer — Acme (2021-01 – Present | Remote)",
        "• Built the mobile app",
        "• Led the API redesign",
        "",
        "Education",
        "BSc  — Computer Science | USP",
        "2014 – 2018",
        "",
        "Skills",
        "Languages: Rust, TypeScript",
        "",
        "Projects",
        "resumec | https://example.com/resumec",
        "Resume compiler",
        "",
        "Certifications",
        "AWS Developer | Amazon | 2022",
        "",
        "Languages",
        "Portuguese | Native",
        "",
        "Awards",
        "Hackathon winner | 2019",
    ];
    assert_eq!(texts(&lines), expected);
    assert_eq!(lines[0].kind, LineKind::Heading);
    assert_eq!(lines[1].kind, LineKind::Body);
    assert_eq!(lines[5].kind, LineKind::Heading);
}

#[test]
fn renders_only_visible_sections_with_portuguese_titles() {
    let mut resume = example_resume();
    resume.locale = Some(s("pt-BR"));
    let mut theme = classic_theme();
    theme.sections = vec![
        ThemeSection { id: SectionId::Skills, visible: true },
        ThemeSection { id: SectionId::Basics, visible: false },
        ThemeSection { id: SectionId::Education, visible: true },
    ];
    let lines = render_lines(&resume, &theme);
    assert_eq!(
        texts(&lines),
        vec!["Habilidades", "Languages: Rust, TypeScript", "", "Educação", "BSc  — Computer Science | USP", "2014 – 2018"]
    );
}

#[test]
fn skips_empty_sections_and_trailing_blank_lines() {
    let mut resume = example_resume();
    resume.basics.summary = None;
    resume.awards.clear();
    resume.basics.headline = None;
    resume.basics.links.clear();
    let mut theme = classic_theme();
    theme.sections = vec![
        ThemeSection { id: SectionId::Summary, visible: true },
        ThemeSection { id: SectionId::Awards, visible: true },
        ThemeSection { id: SectionId::Basics, visible: true },
    ];
    let lines = render_lines(&resume, &theme);
    assert_eq!(
        texts(&lines),
        vec!["Ana Souza", "ana.souza@example.com | +55 11 99999-0000 | São Paulo, Brazil"]
    );
}

#[test]
fn helper_lines_have_their_kind() {
    assert_eq!(blank_line().text, "");
    assert_eq!(blank_line().kind, LineKind::Body);
    let h = section_heading("Skills");
    assert_eq!(h.text, "Skills");
    assert_eq!(h.kind, LineKind::Heading);
}

#[test]
fn estimates_widths_from_the_character_table() {
    assert_eq!(estimate_text_width("", 1000, false), 0);
    assert_eq!(estimate_text_width("a", 1000, false), 50_000);
    assert_eq!(estimate_text_width("a", 1000, true), 55_000);
    assert_eq!(estimate_text_width("il W", 1000, false), (28 + 28 + 28 + 85) * 1000);
}

#[test]
fn short_and_empty_texts_are_kept_whole() {
    assert_eq!(wrap_text("", 100, 1000, false), vec![String::new()]);
    assert_eq!(wrap_text("short", 100_000, 1000, false), vec![s("short")]);
    assert_eq!(wrap_text("   ", 1, 1000, false), vec![s("   ")]);
}

#[test]
fn wraps_between_words() {
    // "aaaa" is 4 * 50 * 10 = 2000 ten-thousandths of a point at a 0.1pt font.
    let wrapped = wrap_text("aaaa bbbb cccc", 25, 10, false);
    assert_eq!(wrapped, vec![s("aaaa"), s("bbbb"), s("cccc")]);
    let wrapped = wrap_text("aa bb cc dd", 25, 10, false);
    assert_eq!(wrapped, vec![s("aa bb"), s("cc dd")]);
}

#[test]
fn cuts_words_that_do_not_fit_alone() {
    assert_eq!(split_oversized_token("aaaaaa", 10, 10, false), vec![s("aa"), s("aa"), s("aa")]);
    assert_eq!(split_oversized_token("", 10, 10, false), Vec::<String>::new());
    assert_eq!(split_oversized_token("ab", 0, 10, false), vec![s("a"), s("b")]);
    let wrapped = wrap_text("aaaaaa b", 10, 10, false);
    assert_eq!(wrapped, vec![s("aa"), s("aa"), s("aa"), s("b")]);
    for line in wrap_text("• a long bullet with averyveryverylongword inside", 20, 10, false) {
        assert!(estimate_text_width(&line, 10, false) <= 2000 || line.chars().count() == 1);
    }
}

#[test]
fn lays_out_each_line_at_its_size() {
    let lines = vec![
        DocumentLine { kind: LineKind::Heading, text: s("aaaa bbbb") },
        DocumentLine { kind: LineKind::Body, text: s("") },
        DocumentLine { kind: LineKind::Body, text: s("aaaa bbbb") },
    ];
    let laid = layout_wrapped_lines(&lines, 20, 10, 45);
    assert_eq!(texts(&laid), vec!["aaaa", "bbbb", "", "aaaa bbbb"]);
    assert_eq!(laid[0].kind, LineKind::Heading);
    assert_eq!(laid[1].kind, LineKind::Heading);
    assert_eq!(laid[3].kind, LineKind::Body);
}

#[test]
fn docx_holds_one_paragraph_per_line() {
    let resume = example_resume();
    let theme = classic_theme();
    let lines = render_lines(&resume, &theme);
    let document = docx_content(&theme, &lines);
    assert_eq!(document.document.children.len(), lines.len());
    let bytes = docx_document(&theme, &lines).expect("the document packs");
    assert!(bytes.len() > 4);
    assert_eq!(&bytes[0..2], b"PK");
    let name = b"Ana Souza";
    assert!(bytes.windows(name.len()).any(|w| w == name));
    assert!(bytes.windows(b"word/document.xml".len()).any(|w| w == b"word/document.xml"));
}

#[test]
fn titles_follow_the_section_order() {
    let resume = example_resume();
    let theme = classic_theme();
    let titles: Vec<String> = render_lines(&resume, &theme)
        .into_iter()
        .filter(|line| line.kind == LineKind::Heading)
        .map(|line| line.text)
        .collect();
    assert_eq!(titles[0], "Ana Souza");
    assert_eq!(titles[1], "Summary");
    assert_eq!(titles[2], "Work Experience");
}

#[test]
fn wrapping_keeps_every_visible_character() {
    let text = "• Designed and shipped a supercalifragilisticexpialidocious platform for everyone";
    let lines = wrap_text(text, 6000, 1000, false);
    let shown: String = lines.concat().chars().filter(|c| !c.is_whitespace()).collect();
    let expected: String = text.chars().filter(|c| !c.is_whitespace()).collect();
    assert_eq!(shown, expected);
    for line in &lines {
        assert!(estimate_text_width(line, 1000, false) <= 6000 * 100);
    }
}
