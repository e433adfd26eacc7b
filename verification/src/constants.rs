//! Versions and names fixed by the application.

use vstd::prelude::*;

verus! {

/// The resume schema version this release reads.
pub const RESUME_SCHEMA_VERSION: u32 = 1;

/// The theme schema version this release reads.
pub const THEME_SCHEMA_VERSION: u32 = 1;

/// The application's name, used for its configuration directory.
pub const APP_NAME: &'static str = "resumec";

} // verus!
