//! `theme new`: the name of a new theme.

use vstd::prelude::*;

use crate::error::AppError;
use crate::util::{is_safe_file_stem, is_safe_stem};

verus! {

/// Accepts the name of a new theme only when it is a safe file stem, since
/// it names the directory the theme is written to.
pub fn check_new_theme_name(name: &str) -> (r: Result<(), AppError>)
    ensures
        match r {
            Ok(()) => is_safe_stem(name@),
            Err(AppError::Config(m)) => !is_safe_stem(name@) && m@
                == "theme name must contain only ASCII letters, numbers, '-' or '_'"@,
            Err(_) => false,
        },
{
    if is_safe_file_stem(name) {
        Ok(())
    } else {
        Err(
            AppError::Config(
                String::from_str("theme name must contain only ASCII letters, numbers, '-' or '_'"),
            ),
        )
    }
}

} // verus!
