use resumec::builder::{
    build_warnings, check_output_name, choose_theme_name, output_file_name, output_formats,
    resolve_build_options,
};
use resumec::cli::{BuildArgs, ConfigArgs, ConfigCommand, InitFormat, McpArgs, McpCommand};
use resumec::commands::config::{handle_config, parse_output_format};
use resumec::commands::init::init_file_name;
use resumec::commands::theme::check_new_theme_name;
use resumec::error::{AppError, ValidationIssue};
use resumec::mcp::{handle_mcp, mcp_tools, plan_mcp_request, McpAction, McpArguments, McpRequest, ParameterKind};
use resumec::model::preferences::Preferences;
use resumec::model::results::OutputFormat;
use resumec::model::resume::{
    Award, Basics, Certification, EducationEntry, LanguageSkill, Link, Project, Resume,
    SkillCategory, WorkExperience,
};
use resumec::model::theme::{Theme, ThemeLayout, ThemePalette, ThemeSpacing, ThemeTypography};
use resumec::output::style::{docx_size_half_points, is_bold, line_color_hex};
use resumec::output::write::{answer_confirms, write_decision, WriteDecision};
use resumec::paths::AppPaths;
use resumec::render::document::LineKind;
use resumec::resume_io::{parse_resume_content, select_resume_reading, ParseAttempts};
use resumec::theme_io::{
    builtin_theme_source, builtin_theme_sources, default_theme_template, locate_theme,
    merge_theme_listing, ThemeDescriptor, ThemeOrigin, CLASSIC_THEME, MINIMAL_THEME, MODERN_THEME,
};
use resumec::util::{
    default_true, derive_output_name_from_path, format_date_range, is_hex_color, join_non_empty,
    looks_like_url, output_name_from_stem, sanitize_filename, strip_hash,
};

fn s(text: &str) -> String {
    text.to_string()
}

fn example_resume() -> Resume {
    Resume {
        schema_version: 1,
        basics: Basics {
            name: s("Ana Souza"),
            headline: Some(s("Senior Software Engineer")),
            email: s("ana.souza@example.com"),
            phone: Some(s("+55 11 99999-0000")),
            location: Some(s("São Paulo, Brazil")),
            summary: Some(s("Engineer focused on mobile and web products.")),
            links: vec![Link { label: s("GitHub"), url: s("https://github.com/anasouza") }],
        },
        work: vec![WorkExperience {
            company: s("Acme"),
            position: s("Software Engineer"),
            start_date: Some(s("2021-01")),
            end_date: Some(s("Present")),
            location: Some(s("Remote")),
            summary: None,
            highlights: vec![s("Built the mobile app"), s("Led the API redesign")],
        }],
        education: vec![EducationEntry {
            institution: s("USP"),
            area: s("Computer Science"),
            study_type: Some(s("BSc")),
            start_date: Some(s("2014")),
            end_date: Some(s("2018")),
            location: None,
            score: None,
        }],
        skills: vec![SkillCategory {
            category: s("Languages"),
            items: vec![s("Rust"), s("TypeScript")],
        }],
        certifications: vec![Certification {
            name: s("AWS Developer"),
            issuer: Some(s("Amazon")),
            date: Some(s("2022")),
            summary: None,
        }],
        projects: vec![Project {
            name: s("resumec"),
            summary: Some(s("Resume compiler")),
            url: Some(s("https://example.com/resumec")),
            highlights: vec![],
        }],
        languages: vec![LanguageSkill { name: s("Portuguese"), fluency: Some(s("Native")) }],
        awards: vec![Award {
            title: s("Hackathon winner"),
            issuer: None,
            date: Some(s("2019")),
            summary: None,
        }],
        theme: None,
        locale: None,
        target_role: None,
    }
}

fn classic_theme() -> Theme {
    Theme {
        schema_version: 1,
        name: s("classic"),
        description: Some(s("Traditional single-column ATS-safe layout")),
        ats_safe: true,
        palette: ThemePalette {
            primary: s("#1F2933"),
            secondary: s("#3E4C59"),
            accent: s("#52606D"),
            text: s("#1F2933"),
            muted: s("#7B8794"),
        },
        typography: ThemeTypography {
            font_family: s("Helvetica"),
            base_size_cpt: 1100,
            heading_size_cpt: 1400,
        },
        spacing: ThemeSpacing { section_gap_cpt: 1200, item_gap_cpt: 600, page_margin_cpt: 3600 },
        layout: ThemeLayout { columns: 1 },
        sections: vec![],
    }
}


fn no_arguments() -> McpArguments {
    McpArguments {
        input: None,
        format: None,
        theme: None,
        output_dir: None,
        output_name: None,
        overwrite: None,
    }
}

fn request(method: &str, tool: Option<&str>, arguments: McpArguments) -> McpRequest {
    McpRequest { method: s(method), tool: tool.map(s), arguments }
}

fn mcp_message(result: Result<McpAction, AppError>) -> String {
    match result {
        Err(AppError::Mcp(message)) => message,
        other => panic!("unexpected {other:?}"),
    }
}

#[test]
fn sanitizes_file_names() {
    assert_eq!(sanitize_filename("My Resume (2026).pdf"), "my-resume-2026-pdf");
    assert_eq!(sanitize_filename("--Ana__Souza--"), "ana-souza");
    assert_eq!(sanitize_filename("Çà!"), "");
    assert_eq!(sanitize_filename(""), "");
}

#[test]
fn derives_output_names_from_paths() {
    assert_eq!(derive_output_name_from_path("examples/resume.yaml"), "resume");
    assert_eq!(derive_output_name_from_path("/data/Ana Souza CV.json"), "ana-souza-cv");
    assert_eq!(derive_output_name_from_path("/data/%%%.yaml"), "resume");
    assert_eq!(derive_output_name_from_path(""), "resume");
    assert_eq!(output_name_from_stem(Some("Résumé")), "r-sum");
    assert_eq!(output_name_from_stem(None), "resume");
}

#[test]
fn joins_present_items() {
    assert_eq!(join_non_empty(&[Some(" a "), None, Some("  "), Some("b")]), "a | b");
    assert_eq!(join_non_empty(&[None, Some("")]), "");
    assert_eq!(format_date_range(Some("2020"), Some(" 2023 ")).as_deref(), Some("2020 – 2023"));
    assert_eq!(format_date_range(Some("2020"), None).as_deref(), Some("2020"));
    assert_eq!(format_date_range(Some("a | b"), None).as_deref(), Some("a – b"));
    assert_eq!(format_date_range(None, Some(" ")), None);
}

#[test]
fn reads_colors() {
    assert_eq!(strip_hash("#1F2933"), "1F2933");
    assert_eq!(strip_hash("##1"), "#1");
    assert_eq!(strip_hash("abc"), "abc");
    assert!(is_hex_color("#1f2933"));
    assert!(is_hex_color("ABCDEF"));
    assert!(!is_hex_color("#ABCDE"));
    assert!(!is_hex_color("#GGGGGG"));
    assert!(!is_hex_color("##ABCDEF"));
    assert!(default_true());
}

#[test]
fn recognizes_web_urls() {
    assert!(looks_like_url("https://example.com/theme.yml"));
    assert!(looks_like_url("HTTP://example.com"));
    assert!(!looks_like_url("ftp://example.com/theme.yml"));
    assert!(!looks_like_url("./my-theme"));
    assert!(!looks_like_url("example.com"));
}

#[test]
fn errors_have_exit_codes_messages_and_issues() {
    let cases: Vec<(AppError, i32, &str)> = vec![
        (AppError::Validation { issues: vec![] }, 1, "schema validation failed"),
        (AppError::ThemeNotFound { name: s("x") }, 2, "theme 'x' was not found"),
        (AppError::FileWrite { path: s("p"), message: s("m") }, 3, "failed to write file 'p': m"),
        (AppError::OverwriteRequired { path: s("p") }, 3, "overwrite required for existing file 'p'"),
        (AppError::Parse { path: s("p"), message: s("m") }, 4, "failed to parse p: m"),
        (AppError::FileRead { path: s("p"), message: s("m") }, 4, "failed to read file 'p': m"),
        (AppError::InvalidTheme { name: s("t"), message: s("m") }, 5, "invalid theme 't': m"),
        (AppError::Network(s("m")), 6, "network error: m"),
        (AppError::Config(s("m")), 7, "configuration error: m"),
        (AppError::Mcp(s("m")), 8, "mcp protocol error: m"),
    ];
    for (error, code, message) in cases {
        assert_eq!(error.exit_code(), code);
        assert_eq!(error.to_string(), message);
    }
    assert_eq!(
        AppError::ThemeNotFound { name: s("x") }.issues(),
        vec![ValidationIssue::new("theme", "theme 'x' was not found")]
    );
    assert_eq!(
        AppError::OverwriteRequired { path: s("out.pdf") }.issues(),
        vec![ValidationIssue::new("out.pdf", "destination file already exists")]
    );
    assert_eq!(AppError::Config(s("m")).issues(), vec![ValidationIssue::new("general", "m")]);
    let issues = vec![ValidationIssue::new("a", "b"), ValidationIssue::new("c", "d")];
    assert_eq!(AppError::Validation { issues: issues.clone() }.issues(), issues);
}

#[test]
fn picks_the_reading_the_extension_names() {
    let ok = || -> Result<Resume, String> { Ok(example_resume()) };
    let err = |m: &str| -> Result<Resume, String> { Err(s(m)) };
    let mut yaml_resume = example_resume();
    yaml_resume.basics.name = s("From YAML");
    let read = select_resume_reading(
        "resume.yml",
        Some("yml"),
        ParseAttempts { json: ok(), yaml: Ok(yaml_resume), toml: err("t") },
    )
    .expect("yaml reading");
    assert_eq!(read.basics.name, "From YAML");
    let read = select_resume_reading(
        "resume.toml",
        Some("toml"),
        ParseAttempts { json: err("j"), yaml: ok(), toml: err("t") },
    )
    .expect("falls back to yaml");
    assert_eq!(read.basics.name, "Ana Souza");
    match select_resume_reading(
        "resume.toml",
        Some("toml"),
        ParseAttempts { json: err("j"), yaml: err("y"), toml: err("t") },
    ) {
        Err(AppError::Parse { path, message }) => {
            assert_eq!(path, "resume.toml");
            assert_eq!(message, "t | j | y");
        }
        other => panic!("unexpected {other:?}"),
    }
    match parse_resume_content(
        "dir/resume.yaml",
        ParseAttempts { json: err("j"), yaml: err("y"), toml: err("t") },
    ) {
        Err(AppError::Parse { message, .. }) => assert_eq!(message, "y | j | t"),
        other => panic!("unexpected {other:?}"),
    }
    match parse_resume_content(
        "resume.txt",
        ParseAttempts { json: err("j"), yaml: err("y"), toml: err("t") },
    ) {
        Err(AppError::Parse { message, .. }) => assert_eq!(message, "j | y | t"),
        other => panic!("unexpected {other:?}"),
    }
}

#[test]
fn lists_themes_sorted_and_once() {
    let installed = vec![
        ThemeDescriptor { name: s("zeta"), source: s("/t/zeta/theme.yml") },
        ThemeDescriptor { name: s("classic"), source: s("/t/classic/theme.yml") },
        ThemeDescriptor { name: s("alpha"), source: s("/t/alpha/theme.yml") },
        ThemeDescriptor { name: s("alpha"), source: s("/other/alpha/theme.yml") },
    ];
    let listed = merge_theme_listing(&installed);
    let names: Vec<&str> = listed.iter().map(|d| d.name.as_str()).collect();
    assert_eq!(names, vec!["alpha", "classic", "minimal", "modern", "zeta"]);
    assert_eq!(listed[0].source, "/t/alpha/theme.yml");
    assert_eq!(listed[1].source, "built-in");
    assert_eq!(listed[4].source, "/t/zeta/theme.yml");
    assert_eq!(merge_theme_listing(&vec![]).len(), 3);
}

#[test]
fn finds_built_in_themes() {
    let sources = builtin_theme_sources();
    assert_eq!(sources.len(), 3);
    assert_eq!(sources[0].0, "classic");
    assert_eq!(builtin_theme_source("modern"), Some(MODERN_THEME));
    assert_eq!(builtin_theme_source("minimal"), Some(MINIMAL_THEME));
    assert_eq!(builtin_theme_source("nope"), None);
    assert!(CLASSIC_THEME.contains("name: classic"));
    assert_eq!(locate_theme("classic", true).expect("installed"), ThemeOrigin::Installed);
    assert_eq!(locate_theme("classic", false).expect("built-in"), ThemeOrigin::BuiltIn(CLASSIC_THEME));
    match locate_theme("missing", false) {
        Err(AppError::ThemeNotFound { name }) => assert_eq!(name, "missing"),
        other => panic!("unexpected {other:?}"),
    }
}

#[test]
fn writes_theme_templates() {
    let template = default_theme_template("my-theme");
    assert!(template.starts_with("schema_version: 1\nname: my-theme\ndescription: Custom resumec theme\n"));
    assert!(template.ends_with("  - id: skills\n    visible: true\n"));
    assert!(check_new_theme_name("my-theme").is_ok());
    assert_eq!(check_new_theme_name("../x").expect_err("unsafe").exit_code(), 7);
}

#[test]
fn config_sets_one_key() {
    let shown = handle_config(ConfigArgs { command: ConfigCommand::Show }, Preferences::default())
        .expect("show");
    assert!(!shown.save);
    assert_eq!(shown.preferences.default_theme.as_deref(), Some("classic"));
    let set = |key: &str, value: &str| {
        handle_config(
            ConfigArgs { command: ConfigCommand::SetKey { key: s(key), value: s(value) } },
            Preferences::default(),
        )
    };
    let outcome = set("format", "both").expect("format");
    assert!(outcome.save);
    assert_eq!(outcome.preferences.default_format, Some(OutputFormat::Both));
    assert_eq!(outcome.preferences.default_theme.as_deref(), Some("classic"));
    assert_eq!(set("theme", "modern").expect("theme").preferences.default_theme.as_deref(), Some("modern"));
    assert_eq!(set("locale", "pt-BR").expect("locale").preferences.locale.as_deref(), Some("pt-BR"));
    assert_eq!(set("output_dir", "dist").expect("dir").preferences.output_dir.as_deref(), Some("dist"));
    match set("format", "html") {
        Err(AppError::Config(m)) => assert_eq!(m, "format must be pdf, docx, or both"),
        other => panic!("unexpected {other:?}"),
    }
    match set("color", "red") {
        Err(AppError::Config(m)) => assert_eq!(m, "supported keys: theme, format, locale, output_dir"),
        other => panic!("unexpected {other:?}"),
    }
    assert_eq!(parse_output_format("docx"), Some(OutputFormat::Docx));
    assert_eq!(parse_output_format("PDF"), None);
}

#[test]
fn preferences_default_to_classic_pdf() {
    let p = Preferences::default();
    assert_eq!(p.default_theme.as_deref(), Some("classic"));
    assert_eq!(p.default_format, Some(OutputFormat::Pdf));
    assert!(p.locale.is_none());
    assert!(p.output_dir.is_none());
}

#[test]
fn plans_mcp_requests() {
    assert!(matches!(plan_mcp_request(&request("initialize", None, no_arguments())), Ok(McpAction::Initialize)));
    assert!(matches!(plan_mcp_request(&request("tools/list", None, no_arguments())), Ok(McpAction::ListTools)));
    assert_eq!(mcp_message(plan_mcp_request(&request("ping", None, no_arguments()))), "unsupported method: ping");
    assert_eq!(
        mcp_message(plan_mcp_request(&request("tools/call", None, no_arguments()))),
        "tools/call requires a tool name"
    );
    assert_eq!(
        mcp_message(plan_mcp_request(&request("tools/call", Some("validate_resume"), no_arguments()))),
        "validate_resume requires input"
    );
    assert_eq!(
        mcp_message(plan_mcp_request(&request("tools/call", Some("drop"), no_arguments()))),
        "unsupported tool: drop"
    );
    let mut arguments = no_arguments();
    arguments.input = Some(s("examples/resume.yaml"));
    match plan_mcp_request(&request("tools/call", Some("validate_resume"), arguments.clone())) {
        Ok(McpAction::ValidateResume { input }) => assert_eq!(input, "examples/resume.yaml"),
        other => panic!("unexpected {other:?}"),
    }
    match plan_mcp_request(&request("tools/call", Some("build_resume"), arguments.clone())) {
        Ok(McpAction::BuildResume { input, format, theme_name, output_dir, output_name, overwrite }) => {
            assert_eq!(input, "examples/resume.yaml");
            assert_eq!(format, OutputFormat::Pdf);
            assert_eq!(theme_name, "");
            assert_eq!(output_dir, None);
            assert_eq!(output_name, "resume");
            assert!(!overwrite);
        }
        other => panic!("unexpected {other:?}"),
    }
    arguments.format = Some(s("rtf"));
    assert_eq!(
        mcp_message(plan_mcp_request(&request("tools/call", Some("build_resume"), arguments.clone()))),
        "format must be pdf, docx, or both"
    );
    arguments.format = Some(s("both"));
    arguments.theme = Some(s("modern"));
    arguments.output_dir = Some(s("dist"));
    arguments.output_name = Some(s("cv"));
    arguments.overwrite = Some(true);
    match plan_mcp_request(&request("tools/call", Some("build_resume"), arguments)) {
        Ok(McpAction::BuildResume { format, theme_name, output_dir, output_name, overwrite, .. }) => {
            assert_eq!(format, OutputFormat::Both);
            assert_eq!(theme_name, "modern");
            assert_eq!(output_dir.as_deref(), Some("dist"));
            assert_eq!(output_name, "cv");
            assert!(overwrite);
        }
        other => panic!("unexpected {other:?}"),
    }
    assert!(matches!(
        plan_mcp_request(&request("tools/call", Some("list_themes"), no_arguments())),
        Ok(McpAction::ListThemes)
    ));
    assert!(matches!(
        plan_mcp_request(&request("tools/call", Some("get_preferences"), no_arguments())),
        Ok(McpAction::GetPreferences)
    ));
    assert_eq!(handle_mcp(&McpArgs { command: McpCommand::Serve }), McpCommand::Serve);
}

#[test]
fn resolves_build_options() {
    let args = BuildArgs {
        input: s("examples/Ana Resume.yaml"),
        format: None,
        theme: None,
        output_dir: None,
        output_name: None,
        json_output: true,
        quiet: false,
        verbose: false,
        overwrite: false,
        non_interactive: true,
    };
    let mut preferences = Preferences::default();
    preferences.default_format = None;
    let options = resolve_build_options(&args, &preferences, "/work");
    assert_eq!(options.format, OutputFormat::Pdf);
    assert_eq!(options.theme_name, "classic");
    assert_eq!(options.output_dir, "/work");
    assert_eq!(options.output_name, "ana-resume");
    assert!(options.json_output && options.non_interactive && !options.overwrite);
    let mut args2 = args.clone();
    args2.theme = Some(s("modern"));
    args2.format = Some(OutputFormat::Docx);
    args2.output_name = Some(s("cv"));
    preferences.output_dir = Some(s("dist"));
    preferences.default_theme = None;
    let options = resolve_build_options(&args2, &preferences, "/work");
    assert_eq!(options.format, OutputFormat::Docx);
    assert_eq!(options.theme_name, "modern");
    assert_eq!(options.output_dir, "dist");
    assert_eq!(options.output_name, "cv");
    let options = resolve_build_options(&args, &preferences, "/work");
    assert_eq!(options.theme_name, "");
}

#[test]
fn chooses_themes_and_outputs() {
    assert_eq!(choose_theme_name("minimal", &Some(s("modern")), &None), "minimal");
    assert_eq!(choose_theme_name("", &Some(s("modern")), &Some(s("minimal"))), "modern");
    assert_eq!(choose_theme_name("", &None, &Some(s("minimal"))), "minimal");
    assert_eq!(choose_theme_name("", &None, &None), "classic");
    assert_eq!(output_formats(OutputFormat::Both), vec![OutputFormat::Pdf, OutputFormat::Docx]);
    assert_eq!(output_formats(OutputFormat::Docx), vec![OutputFormat::Docx]);
    assert_eq!(output_file_name("resume-test", OutputFormat::Pdf), "resume-test.pdf");
    assert_eq!(output_file_name("resume-test", OutputFormat::Docx), "resume-test.docx");
    assert!(check_output_name("resume-test").is_ok());
    assert_eq!(check_output_name("../outside").expect_err("unsafe").exit_code(), 7);
}

#[test]
fn warns_about_two_columns() {
    let mut theme = classic_theme();
    assert!(build_warnings(&theme).is_empty());
    theme.layout.columns = 2;
    assert_eq!(build_warnings(&theme), vec![s("two-column themes may reduce ATS readability")]);
}

#[test]
fn decides_about_existing_files() {
    assert_eq!(write_decision(false, false, true, true, false, false), WriteDecision::Proceed);
    assert_eq!(write_decision(true, true, true, true, false, false), WriteDecision::Proceed);
    assert_eq!(write_decision(true, false, true, false, true, true), WriteDecision::Refuse);
    assert_eq!(write_decision(true, false, false, false, true, false), WriteDecision::Refuse);
    assert_eq!(write_decision(true, false, false, false, true, true), WriteDecision::Ask);
    assert!(answer_confirms(" Yes\n"));
    assert!(answer_confirms("y"));
    assert!(!answer_confirms("no"));
    assert!(!answer_confirms("yess"));
    assert!(!answer_confirms(""));
}

#[test]
fn styles_lines_by_kind() {
    let theme = classic_theme();
    assert_eq!(line_color_hex(&theme, LineKind::Heading), "#1F2933");
    assert_eq!(line_color_hex(&theme, LineKind::Body), theme.palette.text.as_str());
    assert!(is_bold(LineKind::Heading));
    assert!(!is_bold(LineKind::Body));
    assert_eq!(docx_size_half_points(&theme, LineKind::Heading), 28);
    assert_eq!(docx_size_half_points(&theme, LineKind::Body), 22);
    let mut odd = classic_theme();
    odd.typography.base_size_cpt = 1049;
    assert_eq!(docx_size_half_points(&odd, LineKind::Body), 20);
    odd.typography.base_size_cpt = -5;
    assert_eq!(docx_size_half_points(&odd, LineKind::Body), 0);
}

#[test]
fn names_init_files_and_config_paths() {
    assert_eq!(init_file_name(InitFormat::Yaml), "resume.yaml");
    assert_eq!(init_file_name(InitFormat::Json), "resume.json");
    assert_eq!(init_file_name(InitFormat::Toml), "resume.toml");
    let paths = AppPaths::from_config_dir("/home/ana/.config/resumec");
    assert_eq!(paths.config_dir, "/home/ana/.config/resumec");
    assert_eq!(paths.themes_dir, "/home/ana/.config/resumec/themes");
    assert_eq!(paths.preferences_path, "/home/ana/.config/resumec/preferences.json");
}

#[test]
fn lists_the_four_mcp_tools() {
    let tools = mcp_tools();
    let names: Vec<&str> = tools.iter().map(|tool| tool.name.as_str()).collect();
    assert_eq!(names, vec!["validate_resume", "build_resume", "list_themes", "get_preferences"]);
    assert_eq!(tools[0].required, vec!["input".to_string()]);
    assert_eq!(tools[1].parameters.len(), 6);
    match &tools[1].parameters[1].kind {
        ParameterKind::Choice(values) => assert_eq!(values, &vec!["pdf".to_string(), "docx".to_string(), "both".to_string()]),
        other => panic!("format should be a choice, got {other:?}"),
    }
    assert!(matches!(tools[1].parameters[5].kind, ParameterKind::Flag));
    assert!(tools[2].parameters.is_empty() && tools[3].required.is_empty());
}

#[test]
fn reads_extensions_and_stems_of_plain_paths() {
    assert_eq!(derive_output_name_from_path("cv.v2.json"), "cv-v2");
    assert_eq!(derive_output_name_from_path(".hidden"), "hidden");
    assert_eq!(derive_output_name_from_path("dir/My CV.yaml"), "my-cv");
}

#[test]
fn sanitizing_twice_changes_nothing() {
    for value in ["Ana Souza CV", "--weird__name--", "ÁÉ 2026 !!", "", "already-clean"] {
        let once = sanitize_filename(value);
        assert_eq!(sanitize_filename(&once), once);
        assert!(!once.starts_with('-') && !once.ends_with('-') && !once.contains("--"));
        assert!(once.chars().all(|c| c.is_ascii_lowercase() || c.is_ascii_digit() || c == '-'));
    }
}

#[test]
fn date_ranges_replace_only_whole_separators() {
    assert_eq!(format_date_range(Some("a |"), Some("b")), Some(s("a – | b")));
}

#[test]
fn builtin_lookup_is_exact() {
    assert_eq!(builtin_theme_source("classic"), Some(CLASSIC_THEME));
    assert_eq!(builtin_theme_source("Classic"), None);
    assert_eq!(builtin_theme_source(""), None);
    for (name, source) in builtin_theme_sources() {
        assert_eq!(builtin_theme_source(name), Some(*source));
    }
}

#[test]
fn config_paths_join_their_file_names() {
    let paths = AppPaths::from_config_dir("/home/ana/.config/resumec");
    assert_eq!(paths.themes_dir, "/home/ana/.config/resumec/themes");
    assert_eq!(paths.preferences_path, "/home/ana/.config/resumec/preferences.json");
}

#[test]
fn date_ranges_join_their_trimmed_ends() {
    assert_eq!(format_date_range(Some("2020"), Some(" 2023 ")), Some(s("2020 – 2023")));
    assert_eq!(format_date_range(None, Some("2023")), Some(s("2023")));
    assert_eq!(format_date_range(Some(" "), None), None);
}
