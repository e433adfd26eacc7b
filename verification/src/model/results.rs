//! Output formats and the report of a build.

use vstd::prelude::*;

verus! {

/// Which documents a build writes.
#[derive(Debug, Clone, Copy, PartialEq, Eq, Structural)]
pub enum OutputFormat {
    Pdf,
    Docx,
    Both,
}

/// One file a build wrote.
#[derive(Debug, Clone)]
pub struct GeneratedOutput {
    pub format: OutputFormat,
    pub path: String,
    pub bytes: u64,
}

/// The report of a build.
#[derive(Debug, Clone)]
pub struct BuildResult {
    pub input_file: String,
    pub theme: String,
    pub outputs: Vec<GeneratedOutput>,
    pub warnings: Vec<String>,
}

} // verus!
