//! The user's stored preferences.

use vstd::prelude::*;

use crate::model::results::OutputFormat;
use crate::text::opt_string_view;

verus! {

/// Defaults the user chose for builds.
#[derive(Debug, Clone)]
pub struct Preferences {
    pub default_theme: Option<String>,
    pub default_format: Option<OutputFormat>,
    pub locale: Option<String>,
    pub output_dir: Option<String>,
}

impl Default for Preferences {
    /// The classic theme, PDF output, and nothing else set.
    fn default() -> (r: Preferences)
        ensures
            opt_string_view(r.default_theme) == Some("classic"@),
            r.default_format == Some(OutputFormat::Pdf),
            r.locale is None,
            r.output_dir is None,
    {
        Preferences {
            default_theme: Some(String::from_str("classic")),
            default_format: Some(OutputFormat::Pdf),
            locale: None,
            output_dir: None,
        }
    }
}

} // verus!
