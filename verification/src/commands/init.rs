//! `init`: the example resume's file name.

use vstd::prelude::*;

use crate::cli::InitFormat;

verus! {

/// The file `init` writes for each format.
pub open spec fn init_file(format: InitFormat) -> Seq<char> {
    match format {
        InitFormat::Yaml => "resume.yaml"@,
        InitFormat::Json => "resume.json"@,
        InitFormat::Toml => "resume.toml"@,
    }
}

/// The name of the file `init` writes.
pub fn init_file_name(format: InitFormat) -> (r: &'static str)
    ensures
        r@ == init_file(format),
{
    match format {
        InitFormat::Yaml => "resume.yaml",
        InitFormat::Json => "resume.json",
        InitFormat::Toml => "resume.toml",
    }
}

} // verus!
