use resumec::error::{AppError, ValidationIssue};
use resumec::model::resume::{
    Award, Basics, Certification, EducationEntry, LanguageSkill, Link, Project, Resume,
    SkillCategory, WorkExperience,
};
use resumec::model::theme::{
    SectionId, Theme, ThemeLayout, ThemePalette, ThemeSection, ThemeSpacing, ThemeTypography,
};
use resumec::builder::validate_resume;
use resumec::theme_io::parse_theme_content;
use resumec::util::is_safe_file_stem;

fn s(text: &str) -> String {
    text.to_string()
}

fn example_resume() -> Resume {
    Resume {
        schema_version: 1,
        basics: Basics {
            name: s("Ana Souza"),
            headline: Some(s("Senior Software Engineer")),
            email: s("ana.souza@example.com"),
            phone: Some(s("+55 11 99999-0000")),
            location: Some(s("São Paulo, Brazil")),
            summary: Some(s("Engineer focused on mobile and web products.")),
            links: vec![Link { label: s("GitHub"), url: s("https://github.com/anasouza") }],
        },
        work: vec![WorkExperience {
            company: s("Acme"),
            position: s("Software Engineer"),
            start_date: Some(s("2021-01")),
            end_date: Some(s("Present")),
            location: Some(s("Remote")),
            summary: None,
            highlights: vec![s("Built the mobile app"), s("Led the API redesign")],
        }],
        education: vec![EducationEntry {
            institution: s("USP"),
            area: s("Computer Science"),
            study_type: Some(s("BSc")),
            start_date: Some(s("2014")),
            end_date: Some(s("2018")),
            location: None,
            score: None,
        }],
        skills: vec![SkillCategory {
            category: s("Languages"),
            items: vec![s("Rust"), s("TypeScript")],
        }],
        certifications: vec![Certification {
            name: s("AWS Developer"),
            issuer: Some(s("Amazon")),
            date: Some(s("2022")),
            summary: None,
        }],
        projects: vec![Project {
            name: s("resumec"),
            summary: Some(s("Resume compiler")),
            url: Some(s("https://example.com/resumec")),
            highlights: vec![],
        }],
        languages: vec![LanguageSkill { name: s("Portuguese"), fluency: Some(s("Native")) }],
        awards: vec![Award {
            title: s("Hackathon winner"),
            issuer: None,
            date: Some(s("2019")),
            summary: None,
        }],
        theme: None,
        locale: None,
        target_role: None,
    }
}

fn classic_theme() -> Theme {
    Theme {
        schema_version: 1,
        name: s("classic"),
        description: Some(s("Traditional single-column ATS-safe layout")),
        ats_safe: true,
        palette: ThemePalette {
            primary: s("#1F2933"),
            secondary: s("#3E4C59"),
            accent: s("#52606D"),
            text: s("#1F2933"),
            muted: s("#7B8794"),
        },
        typography: ThemeTypography {
            font_family: s("Helvetica"),
            base_size_cpt: 1100,
            heading_size_cpt: 1400,
        },
        spacing: ThemeSpacing { section_gap_cpt: 1200, item_gap_cpt: 600, page_margin_cpt: 3600 },
        layout: ThemeLayout { columns: 1 },
        sections: vec![],
    }
}

fn fields(issues: &[ValidationIssue]) -> Vec<String> {
    issues.iter().map(|issue| issue.field.clone()).collect()
}

#[test]
fn validates_resume_schema_version() {
    let mut resume = example_resume();
    resume.schema_version = 2;
    let issues = resume.validate();
    assert!(issues.iter().any(|issue| issue.field == "schema_version"));
}

#[test]
fn example_resume_is_valid() {
    assert!(example_resume().validate().is_empty());
    assert!(validate_resume(&example_resume()).is_ok());
}

#[test]
fn reports_every_resume_issue_in_order() {
    let mut resume = example_resume();
    resume.schema_version = 3;
    resume.basics.name = s("  \t");
    resume.basics.email = s("ana.example.com");
    resume.basics.links.push(Link { label: s(" "), url: s("not a url") });
    resume.work.push(WorkExperience {
        company: s(""),
        position: s("\u{3000}"),
        start_date: None,
        end_date: None,
        location: None,
        summary: None,
        highlights: vec![],
    });
    resume.education.clear();
    resume.skills.push(SkillCategory { category: s(""), items: vec![] });
    resume.projects.push(Project {
        name: s("x"),
        summary: None,
        url: Some(s("example.com/no-scheme")),
        highlights: vec![],
    });
    let issues = resume.validate();
    assert_eq!(
        fields(&issues),
        vec![
            "schema_version",
            "basics.name",
            "basics.email",
            "basics.links[1].label",
            "basics.links[1].url",
            "work[1].company",
            "work[1].position",
            "work[1].highlights",
            "education",
            "skills[1].category",
            "skills[1].items",
            "projects[1].url",
        ]
    );
    assert_eq!(issues[0].message, "expected schema_version 1");
    assert_eq!(issues[2].message, "email must contain @");
    assert_eq!(issues[4].message, "link must be a valid URL");
    assert_eq!(issues[11].message, "project URL must be valid");
}

#[test]
fn empty_work_list_is_reported() {
    let mut resume = example_resume();
    resume.work.clear();
    let issues = resume.validate();
    assert_eq!(fields(&issues), vec!["work"]);
    assert_eq!(issues[0].message, "at least one work entry is required");
}

#[test]
fn indexes_above_nine_are_written_in_decimal() {
    let mut resume = example_resume();
    for _ in 0..11 {
        resume.basics.links.push(Link { label: s("site"), url: s("https://example.com") });
    }
    resume.basics.links.push(Link { label: s(""), url: s("https://example.com") });
    let issues = resume.validate();
    assert_eq!(fields(&issues), vec!["basics.links[12].label"]);
}

#[test]
fn validation_failure_carries_the_issues() {
    let mut resume = example_resume();
    resume.education.clear();
    match validate_resume(&resume) {
        Err(AppError::Validation { issues }) => assert_eq!(fields(&issues), vec!["education"]),
        other => panic!("unexpected {other:?}"),
    }
}

#[test]
fn rejects_names_that_can_escape_their_destination() {
    for unsafe_name in ["", ".", "..", "../resume", "folder/resume", r"folder\resume"] {
        assert!(!is_safe_file_stem(unsafe_name), "{unsafe_name:?} is unsafe");
    }
    for safe_name in ["resume", "resume-2026", "resume_en"] {
        assert!(is_safe_file_stem(safe_name), "{safe_name:?} should be safe");
    }
}

#[test]
fn reports_semantically_invalid_themes_as_theme_errors() {
    let mut invalid = classic_theme();
    invalid.name = s("../outside");
    let error = parse_theme_content("unsafe", Ok(invalid)).expect_err("theme should be rejected");
    assert_eq!(error.exit_code(), 5);
    assert!(error.to_string().contains("theme name"));
}

#[test]
fn theme_issues_are_listed_in_order() {
    let mut theme = classic_theme();
    theme.schema_version = 2;
    theme.layout.columns = 3;
    theme.palette.accent = s("#12345");
    theme.palette.muted = s("1F2933");
    theme.typography.base_size_cpt = 799;
    theme.typography.heading_size_cpt = 700;
    let issues = theme.validate();
    assert_eq!(
        fields(&issues),
        vec![
            "schema_version",
            "layout.columns",
            "palette.accent",
            "typography.base_size_pt",
            "typography.heading_size_pt",
        ]
    );
    assert!(classic_theme().validate().is_empty());
}

#[test]
fn accepted_theme_is_returned_and_messages_are_joined() {
    let theme = parse_theme_content("classic", Ok(classic_theme())).expect("valid theme");
    assert_eq!(theme.name, "classic");
    let mut bad = classic_theme();
    bad.layout.columns = 0;
    bad.palette.text = s("red");
    match parse_theme_content("hint", Ok(bad)) {
        Err(AppError::InvalidTheme { name, message }) => {
            assert_eq!(name, "hint");
            assert_eq!(
                message,
                "layout.columns: theme layout columns must be 1 or 2; palette.text: color must be in #RRGGBB format"
            );
        }
        other => panic!("unexpected {other:?}"),
    }
    match parse_theme_content("hint", Err(s("bad yaml"))) {
        Err(AppError::InvalidTheme { name, message }) => {
            assert_eq!(name, "hint");
            assert_eq!(message, "bad yaml");
        }
        other => panic!("unexpected {other:?}"),
    }
}

#[test]
fn default_sections_are_used_when_none_is_visible() {
    let mut theme = classic_theme();
    assert_eq!(theme.visible_sections().len(), 9);
    assert_eq!(theme.visible_sections()[5], SectionId::Projects);
    theme.sections = vec![
        ThemeSection { id: SectionId::Work, visible: true },
        ThemeSection { id: SectionId::Summary, visible: false },
        ThemeSection { id: SectionId::Basics, visible: true },
    ];
    assert_eq!(theme.visible_sections(), vec![SectionId::Work, SectionId::Basics]);
    theme.sections = vec![ThemeSection { id: SectionId::Work, visible: false }];
    assert_eq!(theme.visible_sections().len(), 9);
}
