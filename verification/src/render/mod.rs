//! Turning a resume into lines of text, and laying them out in a width.

pub mod document;
pub mod locale;
pub mod wrap;
