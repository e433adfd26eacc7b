//! `config show` and `config set`.

use vstd::prelude::*;

use crate::cli::{ConfigArgs, ConfigCommand};
use crate::error::AppError;
use crate::model::preferences::Preferences;
use crate::model::results::OutputFormat;
use crate::text::str_eq;

verus! {

/// The output format a word names: `pdf`, `docx` or `both`.
pub open spec fn format_named(word: Seq<char>) -> Option<OutputFormat> {
    if word == "pdf"@ {
        Some(OutputFormat::Pdf)
    } else if word == "docx"@ {
        Some(OutputFormat::Docx)
    } else if word == "both"@ {
        Some(OutputFormat::Both)
    } else {
        None
    }
}

/// The output format `word` names, if any.
pub fn parse_output_format(word: &str) -> (r: Option<OutputFormat>)
    ensures
        r == format_named(word@),
{
    if str_eq(word, "pdf") {
        Some(OutputFormat::Pdf)
    } else if str_eq(word, "docx") {
        Some(OutputFormat::Docx)
    } else if str_eq(word, "both") {
        Some(OutputFormat::Both)
    } else {
        None
    }
}

/// What a `config` command leaves: the preferences to show, and whether
/// they are to be saved first.
#[derive(Debug)]
pub struct ConfigOutcome {
    pub preferences: Preferences,
    pub save: bool,
}

/// `r` is the outcome of setting `key` to `value` in `p`: the preferences
/// with that one key changed, to be saved; or a configuration error for an
/// unknown key or an unknown format.
pub open spec fn set_outcome(
    r: Result<ConfigOutcome, AppError>,
    p: Preferences,
    key: Seq<char>,
    value: String,
) -> bool {
    if key == "theme"@ {
        r == Ok::<ConfigOutcome, AppError>(
            ConfigOutcome { preferences: Preferences { default_theme: Some(value), ..p }, save: true },
        )
    } else if key == "format"@ {
        match format_named(value@) {
            Some(f) => r == Ok::<ConfigOutcome, AppError>(
                ConfigOutcome {
                    preferences: Preferences { default_format: Some(f), ..p },
                    save: true,
                },
            ),
            None => match r {
                Err(AppError::Config(m)) => m@ == "format must be pdf, docx, or both"@,
                _ => false,
            },
        }
    } else if key == "locale"@ {
        r == Ok::<ConfigOutcome, AppError>(
            ConfigOutcome { preferences: Preferences { locale: Some(value), ..p }, save: true },
        )
    } else if key == "output_dir"@ {
        r == Ok::<ConfigOutcome, AppError>(
            ConfigOutcome { preferences: Preferences { output_dir: Some(value), ..p }, save: true },
        )
    } else {
        match r {
            Err(AppError::Config(m)) => m@ == "supported keys: theme, format, locale, output_dir"@,
            _ => false,
        }
    }
}

/// Applies a `config` command to the stored preferences: `show` leaves
/// them as they are; `set` changes one key.
pub fn handle_config(args: ConfigArgs, preferences: Preferences) -> (r: Result<ConfigOutcome, AppError>)
    ensures
        match args.command {
            ConfigCommand::Show => r == Ok::<ConfigOutcome, AppError>(
                ConfigOutcome { preferences, save: false },
            ),
            ConfigCommand::SetKey { key, value } => set_outcome(r, preferences, key@, value),
        },
{
    match args.command {
        ConfigCommand::Show => Ok(ConfigOutcome { preferences, save: false }),
        ConfigCommand::SetKey { key, value } => {
            let mut p = preferences;
            if str_eq(key.as_str(), "theme") {
                p.default_theme = Some(value);
            } else if str_eq(key.as_str(), "format") {
                match parse_output_format(value.as_str()) {
                    Some(f) => p.default_format = Some(f),
                    None => {
                        return Err(
                            AppError::Config(String::from_str("format must be pdf, docx, or both")),
                        );
                    },
                }
            } else if str_eq(key.as_str(), "locale") {
                p.locale = Some(value);
            } else if str_eq(key.as_str(), "output_dir") {
                p.output_dir = Some(value);
            } else {
                return Err(
                    AppError::Config(
                        String::from_str("supported keys: theme, format, locale, output_dir"),
                    ),
                );
            }
            Ok(ConfigOutcome { preferences: p, save: true })
        },
    }
}

} // verus!
