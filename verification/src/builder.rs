//! The decisions of a build: its options, the theme it uses, the files it
//! writes and the warnings it gives.

use vstd::prelude::*;

use crate::cli::BuildArgs;
use crate::error::{issue_views, AppError};
use crate::model::preferences::Preferences;
use crate::model::results::OutputFormat;
use crate::model::resume::{resume_issues, Resume};
use crate::model::theme::Theme;
use crate::text::{opt_string_view};
use crate::util::{derive_output_name_from_path, is_default_output_name, is_safe_file_stem, is_safe_stem};

verus! {

/// How a build runs.
#[derive(Debug, Clone)]
pub struct BuildOptions {
    pub format: OutputFormat,
    pub theme_name: String,
    pub output_dir: String,
    pub output_name: String,
    pub overwrite: bool,
    pub non_interactive: bool,
    pub json_output: bool,
}

/// Accepts a resume without issues; otherwise fails with all its issues.
pub fn validate_resume(resume: &Resume) -> (r: Result<(), AppError>)
    ensures
        match r {
            Ok(()) => resume_issues(*resume).len() == 0,
            Err(AppError::Validation { issues }) => resume_issues(*resume).len() > 0
                && issue_views(issues@) == resume_issues(*resume),
            Err(_) => false,
        },
{
    let issues = resume.validate();
    if issues.len() == 0 {
        Ok(())
    } else {
        Err(AppError::Validation { issues })
    }
}

/// The first of two optional texts that is given.
pub open spec fn first_given(a: Option<Seq<char>>, b: Option<Seq<char>>) -> Option<Seq<char>> {
    match a {
        Some(x) => Some(x),
        None => b,
    }
}

/// The options of `build` from its arguments and the preferences: each
/// argument given wins over the preference, which wins over the default
/// (no theme, the current directory, the input's file stem, PDF).
pub open spec fn resolved_options(
    o: BuildOptions,
    args: BuildArgs,
    p: Preferences,
    current_dir: Seq<char>,
) -> bool {
    &&& o.theme_name@ == match first_given(
        opt_string_view(args.theme),
        opt_string_view(p.default_theme),
    ) {
        Some(t) => t,
        None => Seq::empty(),
    }
    &&& o.output_dir@ == match first_given(
        opt_string_view(args.output_dir),
        opt_string_view(p.output_dir),
    ) {
        Some(d) => d,
        None => current_dir,
    }
    &&& match args.output_name {
        Some(n) => o.output_name@ == n@,
        None => is_default_output_name(o.output_name@, args.input@),
    }
    &&& o.format == match args.format {
        Some(f) => f,
        None => match p.default_format {
            Some(f) => f,
            None => OutputFormat::Pdf,
        },
    }
    &&& o.overwrite == args.overwrite
    &&& o.non_interactive == args.non_interactive
    &&& o.json_output == args.json_output
}

fn first_given_string(a: &Option<String>, b: &Option<String>) -> (r: Option<String>)
    ensures
        opt_string_view(r) == first_given(opt_string_view(*a), opt_string_view(*b)),
{
    match a {
        Some(x) => Some(x.clone()),
        None => match b {
            Some(y) => Some(y.clone()),
            None => None,
        },
    }
}

/// The options of a `build` command.
pub fn resolve_build_options(args: &BuildArgs, preferences: &Preferences, current_dir: &str) -> (r:
    BuildOptions)
    ensures
        resolved_options(r, *args, *preferences, current_dir@),
{
    let theme_name = match first_given_string(&args.theme, &preferences.default_theme) {
        Some(t) => t,
        None => String::new(),
    };
    let output_dir = match first_given_string(&args.output_dir, &preferences.output_dir) {
        Some(d) => d,
        None => String::from_str(current_dir),
    };
    let output_name = match &args.output_name {
        Some(n) => n.clone(),
        None => derive_output_name_from_path(args.input.as_str()),
    };
    let format = match args.format {
        Some(f) => f,
        None => match preferences.default_format {
            Some(f) => f,
            None => OutputFormat::Pdf,
        },
    };
    BuildOptions {
        format,
        theme_name,
        output_dir,
        output_name,
        overwrite: args.overwrite,
        non_interactive: args.non_interactive,
        json_output: args.json_output,
    }
}

/// The theme a build uses: the one asked for, else the resume's, else the
/// preferred one, else `classic`.
pub open spec fn chosen_theme(
    requested: Seq<char>,
    resume_theme: Option<Seq<char>>,
    preferred: Option<Seq<char>>,
) -> Seq<char> {
    if requested.len() > 0 {
        requested
    } else {
        match first_given(resume_theme, preferred) {
            Some(t) => t,
            None => "classic"@,
        }
    }
}

/// Chooses the theme of a build.
pub fn choose_theme_name(requested: &str, resume_theme: &Option<String>, preferred: &Option<String>) -> (r: String)
    ensures
        r@ == chosen_theme(requested@, opt_string_view(*resume_theme), opt_string_view(*preferred)),
{
    if requested.unicode_len() > 0 {
        return String::from_str(requested);
    }
    match first_given_string(resume_theme, preferred) {
        Some(t) => t,
        None => String::from_str("classic"),
    }
}

/// The message of a refused output name.
pub open spec fn unsafe_output_name_message() -> Seq<char> {
    "output name must contain only ASCII letters, numbers, '-' or '_'"@
}

/// Accepts an output name only when it is a safe file stem, so that the
/// files a build writes stay in the output directory.
pub fn check_output_name(name: &str) -> (r: Result<(), AppError>)
    ensures
        match r {
            Ok(()) => is_safe_stem(name@),
            Err(AppError::Config(m)) => !is_safe_stem(name@) && m@ == unsafe_output_name_message(),
            Err(_) => false,
        },
{
    if is_safe_file_stem(name) {
        Ok(())
    } else {
        Err(
            AppError::Config(
                String::from_str("output name must contain only ASCII letters, numbers, '-' or '_'"),
            ),
        )
    }
}

/// The documents a build writes, in order: the PDF before the DOCX.
pub open spec fn formats_written(format: OutputFormat) -> Seq<OutputFormat> {
    match format {
        OutputFormat::Pdf => seq![OutputFormat::Pdf],
        OutputFormat::Docx => seq![OutputFormat::Docx],
        OutputFormat::Both => seq![OutputFormat::Pdf, OutputFormat::Docx],
    }
}

/// The documents a build writes.
pub fn output_formats(format: OutputFormat) -> (r: Vec<OutputFormat>)
    ensures
        r@ == formats_written(format),
{
    let r = match format {
        OutputFormat::Pdf => vec![OutputFormat::Pdf],
        OutputFormat::Docx => vec![OutputFormat::Docx],
        OutputFormat::Both => vec![OutputFormat::Pdf, OutputFormat::Docx],
    };
    assert(r@ =~= formats_written(format));
    r
}

/// The file name of a document: the output name with `.pdf` or `.docx`.
pub open spec fn output_file(name: Seq<char>, format: OutputFormat) -> Seq<char> {
    match format {
        OutputFormat::Docx => name + ".docx"@,
        _ => name + ".pdf"@,
    }
}

/// The file name of the document in `format`.
pub fn output_file_name(name: &str, format: OutputFormat) -> (r: String)
    requires
        format != OutputFormat::Both,
    ensures
        r@ == output_file(name@, format),
{
    let mut r = String::from_str(name);
    match format {
        OutputFormat::Docx => r.append(".docx"),
        _ => r.append(".pdf"),
    }
    r
}

/// The warnings of a build: two-column layouts read poorly in applicant
/// tracking systems.
pub open spec fn warnings_for(theme: Theme) -> Seq<Seq<char>> {
    if theme.layout.columns == 2 {
        seq!["two-column themes may reduce ATS readability"@]
    } else {
        Seq::empty()
    }
}

/// The warnings of a build with `theme`.
pub fn build_warnings(theme: &Theme) -> (r: Vec<String>)
    ensures
        crate::text::views(r@) == warnings_for(*theme),
{
    if theme.layout.columns == 2 {
        let r = vec![String::from_str("two-column themes may reduce ATS readability")];
        assert(crate::text::views(r@) =~= warnings_for(*theme));
        r
    } else {
        let r: Vec<String> = Vec::new();
        assert(crate::text::views(r@) =~= warnings_for(*theme));
        r
    }
}

} // verus!
