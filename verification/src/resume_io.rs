//! Choosing the reading of a resume file among its JSON, YAML and TOML
//! readings.

use vstd::prelude::*;

use crate::error::AppError;
use crate::model::resume::Resume;
use crate::paths::{final_part, has_plain_file_name, is_extension_of, path_extension, plain_extension};
use crate::text::{join, join_strings, opt_str_view, opt_string_view, str_eq, views};

verus! {

/// The formats a resume may be written in.
#[derive(Debug, Clone, Copy, PartialEq, Eq, Structural)]
pub enum ResumeFormat {
    Json,
    Yaml,
    Toml,
}

/// The outcome of reading the content of a resume file in each format:
/// the resume, or the reader's error message.
#[derive(Debug)]
pub struct ParseAttempts {
    pub json: Result<Resume, String>,
    pub yaml: Result<Resume, String>,
    pub toml: Result<Resume, String>,
}

/// The order in which the formats are tried for a file extension: the
/// format the extension names first.
pub open spec fn parser_order(extension: Option<Seq<char>>) -> Seq<ResumeFormat> {
    match extension {
        Some(e) => if e == "json"@ {
            seq![ResumeFormat::Json, ResumeFormat::Yaml, ResumeFormat::Toml]
        } else if e == "yaml"@ || e == "yml"@ {
            seq![ResumeFormat::Yaml, ResumeFormat::Json, ResumeFormat::Toml]
        } else if e == "toml"@ {
            seq![ResumeFormat::Toml, ResumeFormat::Json, ResumeFormat::Yaml]
        } else {
            seq![ResumeFormat::Json, ResumeFormat::Yaml, ResumeFormat::Toml]
        },
        None => seq![ResumeFormat::Json, ResumeFormat::Yaml, ResumeFormat::Toml],
    }
}

/// The reading in format `f`.
pub open spec fn attempt(a: ParseAttempts, f: ResumeFormat) -> Result<Resume, String> {
    match f {
        ResumeFormat::Json => a.json,
        ResumeFormat::Yaml => a.yaml,
        ResumeFormat::Toml => a.toml,
    }
}

/// The readings in the given order.
pub open spec fn readings_in_order(a: ParseAttempts, order: Seq<ResumeFormat>) -> Seq<
    Result<Resume, String>,
> {
    order.map_values(|f: ResumeFormat| attempt(a, f))
}

/// The first successful reading.
pub open spec fn first_ok(rs: Seq<Result<Resume, String>>) -> Option<Resume>
    decreases rs.len(),
{
    if rs.len() == 0 {
        None
    } else {
        match rs[0] {
            Ok(r) => Some(r),
            Err(_) => first_ok(rs.drop_first()),
        }
    }
}

/// The error message of a failed reading.
pub open spec fn failure_message(r: Result<Resume, String>) -> Seq<char> {
    match r {
        Ok(_) => Seq::empty(),
        Err(m) => m@,
    }
}

/// The first successful reading, or a parse error of `path` that lists
/// every reader's message, in order, separated by ` | `.
pub open spec fn first_reading(r: Result<Resume, AppError>, path: Seq<char>, rs: Seq<Result<Resume, String>>) -> bool {
    match first_ok(rs) {
        Some(resume) => r == Ok::<Resume, AppError>(resume),
        None => match r {
            Err(AppError::Parse { path: p, message: m }) => p@ == path && m@ == join(
                rs.map_values(|x: Result<Resume, String>| failure_message(x)),
                " | "@,
            ),
            _ => false,
        },
    }
}

/// What reading the file `path` with extension `extension` gives: the
/// first successful reading in the order the extension sets, or a parse
/// error listing every reader's message in that order.
pub open spec fn selected_reading(
    r: Result<Resume, AppError>,
    path: Seq<char>,
    extension: Option<Seq<char>>,
    a: ParseAttempts,
) -> bool {
    first_reading(r, path, readings_in_order(a, parser_order(extension)))
}

/// Three readings in order.
pub open spec fn three(
    a: Result<Resume, String>,
    b: Result<Resume, String>,
    c: Result<Resume, String>,
) -> Seq<Result<Resume, String>> {
    seq![a, b, c]
}

/// The first successful reading of three, or the parse error listing the
/// three messages.
fn first_of_three(
    path: &str,
    a: Result<Resume, String>,
    b: Result<Resume, String>,
    c: Result<Resume, String>,
) -> (r: Result<Resume, AppError>)
    ensures
        first_reading(r, path@, three(a, b, c)),
{
    let ghost rs = three(a, b, c);
    assert(rs[0] == a && rs[1] == b && rs[2] == c);
    proof {
        reveal_with_fuel(first_ok, 4);
    }
    assert(rs.drop_first() =~= seq![b, c]);
    assert(rs.drop_first().drop_first() =~= seq![c]);
    assert(rs.drop_first().drop_first().drop_first() =~= Seq::<Result<Resume, String>>::empty());
    if a.is_ok() {
        assert(first_ok(rs) == Some(a->Ok_0));
        return Ok(a.unwrap());
    }
    if b.is_ok() {
        assert(first_ok(rs) == Some(b->Ok_0));
        return Ok(b.unwrap());
    }
    if c.is_ok() {
        assert(first_ok(rs) == Some(c->Ok_0));
        return Ok(c.unwrap());
    }
    let messages = vec![a.unwrap_err(), b.unwrap_err(), c.unwrap_err()];
    proof {
        let ms = rs.map_values(|x: Result<Resume, String>| failure_message(x));
        assert(views(messages@) =~= ms);
    }
    Err(AppError::Parse { path: String::from_str(path), message: join_strings(&messages, " | ") })
}

/// Picks the reading of the file `path` with extension `extension` from the
/// readings of its content in each format.
pub fn select_resume_reading(path: &str, extension: Option<&str>, attempts: ParseAttempts) -> (r:
    Result<Resume, AppError>)
    ensures
        selected_reading(r, path@, opt_str_view(extension), attempts),
{
    let ghost a = attempts;
    let ghost order = parser_order(opt_str_view(extension));
    let (first, second, third) = match extension {
        Some(e) => if str_eq(e, "json") {
            (ResumeFormat::Json, ResumeFormat::Yaml, ResumeFormat::Toml)
        } else if str_eq(e, "yaml") || str_eq(e, "yml") {
            (ResumeFormat::Yaml, ResumeFormat::Json, ResumeFormat::Toml)
        } else if str_eq(e, "toml") {
            (ResumeFormat::Toml, ResumeFormat::Json, ResumeFormat::Yaml)
        } else {
            (ResumeFormat::Json, ResumeFormat::Yaml, ResumeFormat::Toml)
        },
        None => (ResumeFormat::Json, ResumeFormat::Yaml, ResumeFormat::Toml),
    };
    assert(order =~= seq![first, second, third]);
    let ParseAttempts { json, yaml, toml } = attempts;
    let (x, y, z) = match first {
        ResumeFormat::Json => (json, yaml, toml),
        ResumeFormat::Yaml => (yaml, json, toml),
        ResumeFormat::Toml => (toml, json, yaml),
    };
    assert(readings_in_order(a, order) =~= three(x, y, z));
    first_of_three(path, x, y, z)
}

/// Reads the content of the resume file `path` from its readings in each
/// format, trying first the format its extension names.
pub fn parse_resume_content(path: &str, attempts: ParseAttempts) -> (r: Result<Resume, AppError>)
    ensures
        exists|extension: Option<Seq<char>>|
            is_extension_of(extension, path@) && selected_reading(r, path@, extension, attempts),
        has_plain_file_name(path@) ==> selected_reading(
            r,
            path@,
            plain_extension(final_part(path@)),
            attempts,
        ),
{
    let extension = path_extension(path);
    let r = match &extension {
        Some(e) => select_resume_reading(path, Some(e.as_str()), attempts),
        None => select_resume_reading(path, None, attempts),
    };
    proof {
        let ext = opt_string_view(extension);
        assert(is_extension_of(ext, path@));
        assert(selected_reading(r, path@, ext, attempts));
    }
    r
}

} // verus!
