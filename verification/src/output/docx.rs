//! The DOCX document of a rendered resume: one paragraph of one run per
//! line, built with `docx-rs`.

use vstd::prelude::*;

use crate::model::theme::Theme;
use crate::output::style::{docx_size_half_points, half_points, is_bold, line_color, line_color_hex, line_size};
use crate::render::document::{DocumentLine, LineKind};
use crate::util::{strip_hash, without_hash};

verus! {

#[verifier::external_type_specification]
#[verifier::external_body]
pub struct ExDocx(docx_rs::Docx);

/// A paragraph of one run as a document holds it: the run's text, its size
/// in half points, its color and whether it is bold.
pub type RunView = (Seq<char>, nat, Seq<char>, bool);

/// The paragraphs a `docx_rs::Docx` holds (`Docx.document.children`), each
/// read as its single run: the run's text, read unescaped (docx-rs stores it
/// with XML entities for `& < > " '`), its size in half points, its color and
/// whether it is bold.
pub uninterp spec fn docx_paragraphs(document: docx_rs::Docx) -> Seq<RunView>;

/// What a DOCX reader finds in the bytes of a package: for each paragraph
/// of `word/document.xml`, in order, its run's text with XML entities
/// decoded, its `w:sz` value, its `w:color` value and whether `w:b` is set.
pub uninterp spec fn package_runs(bytes: Seq<u8>) -> Seq<RunView>;

/// `text` as a run keeps it: `Run::add_text` drops line feeds, and the XML
/// escaping of `Text::new` drops carriage returns.
pub open spec fn run_text(text: Seq<char>) -> Seq<char> {
    text.filter(|c: char| c != '\n' && c != '\r')
}

/// The characters of the texts and colors of `runs`.
pub open spec fn run_chars(runs: Seq<RunView>) -> nat
    decreases runs.len(),
{
    if runs.len() == 0 {
        0
    } else {
        run_chars(runs.drop_last()) + runs.last().0.len() + runs.last().2.len()
    }
}

/// A document small enough for its `word/document.xml` to stay far below
/// the 4 GiB a ZIP entry may hold without the large-file option: at most a
/// million paragraphs and fifty million characters of text and color.
pub open spec fn fits_in_package(runs: Seq<RunView>) -> bool {
    runs.len() <= 1_000_000 && run_chars(runs) <= 50_000_000
}

/// An empty document (`Docx::new`).
/// Trusted: a new document holds no paragraph.
#[verifier::external_body]
fn docx_new() -> (r: docx_rs::Docx)
    ensures
        docx_paragraphs(r) == Seq::<RunView>::empty(),
{
    docx_rs::Docx::new()
}

/// Adds a paragraph of one plain run (`Paragraph::add_run` of
/// `Run::new().add_text(..).size(..).color(..)`, then `Docx::add_paragraph`).
/// Trusted: the paragraph comes after those already there. Left unsaid:
/// `Paragraph::new` panics once a thread has made 2^32 paragraphs.
#[verifier::external_body]
fn docx_add_plain_paragraph(document: docx_rs::Docx, text: &str, size: usize, color: &str) -> (r:
    docx_rs::Docx)
    ensures
        docx_paragraphs(r) == docx_paragraphs(document).push(
            (run_text(text@), size as nat, color@, false),
        ),
{
    let run = docx_rs::Run::new().add_text(text).size(size).color(color);
    document.add_paragraph(docx_rs::Paragraph::new().add_run(run))
}

/// Adds a paragraph of one bold run (as `docx_add_plain_paragraph`, with
/// `Run::bold`).
/// Trusted: the paragraph comes after those already there. Left unsaid:
/// `Paragraph::new` panics once a thread has made 2^32 paragraphs.
#[verifier::external_body]
fn docx_add_bold_paragraph(document: docx_rs::Docx, text: &str, size: usize, color: &str) -> (r:
    docx_rs::Docx)
    ensures
        docx_paragraphs(r) == docx_paragraphs(document).push(
            (run_text(text@), size as nat, color@, true),
        ),
{
    let run = docx_rs::Run::new().add_text(text).size(size).color(color).bold();
    document.add_paragraph(docx_rs::Paragraph::new().add_run(run))
}

/// Packs a document into the bytes of a DOCX file (`Docx::build` then
/// `XMLDocx::pack` into an in-memory cursor); `None` where packing fails.
/// Trusted: the package holds the document's paragraphs, as a reader finds
/// them. Writing to an in-memory cursor fails only where a ZIP entry would
/// outgrow 4 GiB, which a document within `fits_in_package` does not reach.
/// Left unsaid are the exact bytes: docx-rs numbers paragraphs from a
/// counter kept per thread, so the same document packs to other bytes after
/// other documents were made on the thread.
#[verifier::external_body]
fn docx_pack(document: docx_rs::Docx) -> (r: Option<Vec<u8>>)
    ensures
        fits_in_package(docx_paragraphs(document)) ==> r is Some,
        r matches Some(b) ==> package_runs(b@) == docx_paragraphs(document),
{
    let mut cursor = std::io::Cursor::new(Vec::new());
    document.build().pack(&mut cursor).ok().map(|_| cursor.into_inner())
}

/// The paragraph of a line: its text in the line's size and color, bold for
/// titles.
pub open spec fn line_run(theme: Theme, line: DocumentLine) -> RunView {
    (
        run_text(line.text@),
        half_points(line_size(theme, line.kind)) as nat,
        without_hash(line_color(theme, line.kind)),
        line.kind == LineKind::Heading,
    )
}

/// The paragraphs of the DOCX document of `lines`, one per line, in order.
pub open spec fn document_runs(theme: Theme, lines: Seq<DocumentLine>) -> Seq<RunView> {
    lines.map_values(|l: DocumentLine| line_run(theme, l))
}

/// The DOCX document of the rendered lines of a resume.
pub fn docx_content(theme: &Theme, lines: &[DocumentLine]) -> (r: docx_rs::Docx)
    ensures
        docx_paragraphs(r) == document_runs(*theme, lines@),
{
    let mut document = docx_new();
    let mut i: usize = 0;
    while i < lines.len()
        invariant
            i <= lines@.len(),
            docx_paragraphs(document) == document_runs(*theme, lines@.subrange(0, i as int)),
        decreases lines@.len() - i,
    {
        let line = &lines[i];
        let size = docx_size_half_points(theme, line.kind);
        let color = strip_hash(line_color_hex(theme, line.kind));
        let ghost before = docx_paragraphs(document);
        if is_bold(line.kind) {
            document = docx_add_bold_paragraph(document, line.text.as_str(), size, color);
        } else {
            document = docx_add_plain_paragraph(document, line.text.as_str(), size, color);
        }
        proof {
            assert(lines@.subrange(0, i + 1) =~= lines@.subrange(0, i as int).push(lines@[i as int]));
            assert(docx_paragraphs(document) == before.push(line_run(*theme, lines@[i as int])));
            assert(document_runs(*theme, lines@.subrange(0, i + 1)) =~= document_runs(
                *theme,
                lines@.subrange(0, i as int),
            ).push(line_run(*theme, lines@[i as int])));
        }
        i = i + 1;
    }
    assert(lines@.subrange(0, lines@.len() as int) =~= lines@);
    document
}

/// The bytes of the DOCX file of the rendered lines of a resume: one
/// paragraph per line, as `document_runs` gives them; `None` only for a
/// document too large for a ZIP entry.
pub fn docx_document(theme: &Theme, lines: &[DocumentLine]) -> (r: Option<Vec<u8>>)
    ensures
        fits_in_package(document_runs(*theme, lines@)) ==> r is Some,
        r matches Some(b) ==> package_runs(b@) == document_runs(*theme, lines@),
{
    docx_pack(docx_content(theme, lines))
}

/// The DOCX document has one paragraph per line, in order, holding the
/// line's text; a paragraph is bold exactly when its line is a title, and
/// is set in the heading size and primary color for titles, the base size
/// and text color for body lines.
pub proof fn lemma_document_runs_follow_lines(theme: Theme, lines: Seq<DocumentLine>)
    ensures
        document_runs(theme, lines).len() == lines.len(),
        forall|i: int|
            0 <= i < lines.len() ==> {
                let run = #[trigger] document_runs(theme, lines)[i];
                &&& run.0 == run_text(lines[i].text@)
                &&& run.3 <==> lines[i].kind == LineKind::Heading
                &&& lines[i].kind == LineKind::Heading ==> run.1 == half_points(
                    theme.typography.heading_size_cpt,
                ) && run.2 == without_hash(theme.palette.primary@)
                &&& lines[i].kind == LineKind::Body ==> run.1 == half_points(
                    theme.typography.base_size_cpt,
                ) && run.2 == without_hash(theme.palette.text@)
            },
{
}

} // verus!
