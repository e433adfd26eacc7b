//! The documents the application reads and the results it reports.

pub mod preferences;
pub mod results;
pub mod resume;
pub mod theme;
