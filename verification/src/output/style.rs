//! How lines are styled in the output documents.

use vstd::prelude::*;

use crate::model::theme::Theme;
use crate::render::document::LineKind;

verus! {

/// The color of a line: the primary color for titles, the text color for
/// body text.
pub open spec fn line_color(theme: Theme, kind: LineKind) -> Seq<char> {
    match kind {
        LineKind::Heading => theme.palette.primary@,
        LineKind::Body => theme.palette.text@,
    }
}

/// The color of a line of kind `kind`.
pub fn line_color_hex(theme: &Theme, kind: LineKind) -> (r: &str)
    ensures
        r@ == line_color(*theme, kind),
{
    match kind {
        LineKind::Heading => theme.palette.primary.as_str(),
        LineKind::Body => theme.palette.text.as_str(),
    }
}

/// Whether a line is set in bold: titles are.
pub fn is_bold(kind: LineKind) -> (r: bool)
    ensures
        r == (kind == LineKind::Heading),
{
    match kind {
        LineKind::Heading => true,
        LineKind::Body => false,
    }
}

/// The type size of a line, in hundredths of a point: the heading size for
/// titles, the base size for body text.
pub open spec fn line_size(theme: Theme, kind: LineKind) -> i32 {
    match kind {
        LineKind::Heading => theme.typography.heading_size_cpt,
        LineKind::Body => theme.typography.base_size_cpt,
    }
}

/// A type size in hundredths of a point as the whole number of half points
/// word processing documents use, rounded down; negative sizes give zero.
pub open spec fn half_points(size_cpt: i32) -> int {
    if size_cpt <= 0 {
        0
    } else {
        size_cpt / 50
    }
}

/// The size of a line in half points, as DOCX documents give it.
pub fn docx_size_half_points(theme: &Theme, kind: LineKind) -> (r: usize)
    ensures
        r == half_points(line_size(*theme, kind)),
{
    let size = match kind {
        LineKind::Heading => theme.typography.heading_size_cpt,
        LineKind::Body => theme.typography.base_size_cpt,
    };
    if size <= 0 {
        0
    } else {
        (size / 50) as usize
    }
}

} // verus!
