//! Rules for writing output files.

pub mod docx;
pub mod style;
pub mod write;
