//! Laying lines of text out in a width.
//!
//! Widths are estimated from a fixed table of character widths, in
//! hundredths of the font size. Font sizes and line widths are given in
//! hundredths of a point; estimated widths are in ten-thousandths of a point.

use vstd::prelude::*;

use crate::render::document::{flat_map, line_views, DocumentLine, LineKind};
use crate::text::{all_chars, is_space, lemma_runs_from_chars, push_char, runs, runs_from, split_runs, views, Separator};

verus! {

/// The estimated width of a character, in hundredths of the font size.
pub open spec fn char_factor(c: char, bold: bool) -> nat {
    if c == 'i' || c == 'l' || c == 'I' || c == 'j' || c == 't' || c == 'f' || c == 'r' || c
        == '.' || c == ',' || c == ':' || c == ';' || c == '!' || c == '|' || c == '\'' || c
        == '•' {
        28
    } else if c == 'm' || c == 'w' || c == 'M' || c == 'W' {
        85
    } else if c == ' ' {
        28
    } else if bold {
        55
    } else {
        50
    }
}

fn char_width_factor(c: char, bold: bool) -> (r: u128)
    ensures
        r == char_factor(c, bold),
{
    if c == 'i' || c == 'l' || c == 'I' || c == 'j' || c == 't' || c == 'f' || c == 'r' || c
        == '.' || c == ',' || c == ':' || c == ';' || c == '!' || c == '|' || c == '\'' || c
        == '•' {
        28
    } else if c == 'm' || c == 'w' || c == 'M' || c == 'W' {
        85
    } else if c == ' ' {
        28
    } else if bold {
        55
    } else {
        50
    }
}

/// The estimated width of `s`, in ten-thousandths of a point, set in a font
/// of `size` hundredths of a point.
pub open spec fn text_width(s: Seq<char>, size: nat, bold: bool) -> nat
    decreases s.len(),
{
    if s.len() == 0 {
        0
    } else {
        text_width(s.drop_last(), size, bold) + char_factor(s.last(), bold) * size
    }
}

/// `s` fits in `max_width` hundredths of a point.
pub open spec fn fits(s: Seq<char>, max_width: nat, size: nat, bold: bool) -> bool {
    text_width(s, size, bold) <= max_width * 100
}

/// The estimated width of `text`, in ten-thousandths of a point, in a font
/// of `font_size_cpt` hundredths of a point.
pub fn estimate_text_width(text: &str, font_size_cpt: u32, bold: bool) -> (r: u128)
    ensures
        r == text_width(text@, font_size_cpt as nat, bold),
{
    let n = text.unicode_len();
    let mut total: u128 = 0;
    let mut i: usize = 0;
    while i < n
        invariant
            n == text@.len(),
            i <= n,
            total == text_width(text@.take(i as int), font_size_cpt as nat, bold),
            total <= i * 0x100_0000_0000u128,
        decreases n - i,
    {
        let c = text.get_char(i);
        let f = char_width_factor(c, bold);
        assert(f * font_size_cpt <= 0x100_0000_0000u128) by (nonlinear_arith)
            requires
                f <= 85,
                font_size_cpt <= 0xffff_ffffu32,
        ;
        proof {
            assert(text@.take(i + 1).drop_last() =~= text@.take(i as int));
            assert(text@.take(i + 1).last() == c);
        }
        total = total + f * (font_size_cpt as u128);
        i = i + 1;
    }
    assert(text@.take(n as int) =~= text@);
    total
}

/// Whether `text` fits in `max_width_cpt` hundredths of a point.
fn fits_width(text: &str, max_width_cpt: u64, font_size_cpt: u32, bold: bool) -> (r: bool)
    ensures
        r == fits(text@, max_width_cpt as nat, font_size_cpt as nat, bold),
{
    estimate_text_width(text, font_size_cpt, bold) <= (max_width_cpt as u128) * 100
}

/// The state of cutting a token into pieces: the pieces cut so far and the
/// piece being filled.
pub open spec fn chunk_fold(s: Seq<char>, max_width: nat, size: nat, bold: bool) -> (
    Seq<Seq<char>>,
    Seq<char>,
)
    decreases s.len(),
{
    if s.len() == 0 {
        (Seq::empty(), Seq::empty())
    } else {
        let (chunks, cur) = chunk_fold(s.drop_last(), max_width, size, bold);
        let c = s.last();
        let candidate = cur.push(c);
        if cur.len() > 0 && !fits(candidate, max_width, size, bold) {
            (chunks.push(cur), seq![c])
        } else {
            (chunks, candidate)
        }
    }
}

/// A token cut, character by character, into the longest pieces that fit;
/// a character wider than the line makes a piece of its own.
pub open spec fn chunks_of(s: Seq<char>, max_width: nat, size: nat, bold: bool) -> Seq<Seq<char>> {
    let (chunks, cur) = chunk_fold(s, max_width, size, bold);
    if cur.len() > 0 {
        chunks.push(cur)
    } else {
        chunks
    }
}

/// Cuts a token that does not fit into pieces that do.
pub fn split_oversized_token(token: &str, max_width_cpt: u64, font_size_cpt: u32, bold: bool) -> (r: Vec<String>)
    ensures
        views(r@) == chunks_of(token@, max_width_cpt as nat, font_size_cpt as nat, bold),
{
    let ghost mw = max_width_cpt as nat;
    let ghost sz = font_size_cpt as nat;
    let n = token.unicode_len();
    let mut chunks: Vec<String> = Vec::new();
    let mut current = String::new();
    let mut i: usize = 0;
    while i < n
        invariant
            n == token@.len(),
            i <= n,
            mw == max_width_cpt as nat,
            sz == font_size_cpt as nat,
            (views(chunks@), current@) == chunk_fold(token@.take(i as int), mw, sz, bold),
        decreases n - i,
    {
        let c = token.get_char(i);
        proof {
            assert(token@.take(i + 1).drop_last() =~= token@.take(i as int));
            assert(token@.take(i + 1).last() == c);
        }
        let mut candidate = current.clone();
        push_char(&mut candidate, c);
        if current.unicode_len() > 0 && !fits_width(candidate.as_str(), max_width_cpt, font_size_cpt, bold) {
            let ghost before = views(chunks@);
            chunks.push(current);
            let mut single = String::new();
            push_char(&mut single, c);
            current = single;
            assert(views(chunks@) =~= before.push(chunks@.last()@));
            assert(current@ =~= seq![c]);
        } else {
            current = candidate;
        }
        i = i + 1;
    }
    assert(token@.take(n as int) =~= token@);
    if current.unicode_len() > 0 {
        let ghost before = views(chunks@);
        let last = current;
        chunks.push(last);
        assert(views(chunks@) =~= before.push(last@));
    }
    chunks
}

/// One step of filling lines with words: the word joins the current line
/// when the result fits; otherwise the current line is closed and the word,
/// after the indent on continuation lines, starts a new one, cut into
/// pieces when it does not fit alone.
pub open spec fn wrap_step(
    state: (Seq<Seq<char>>, Seq<char>),
    word: Seq<char>,
    indent: Seq<char>,
    max_width: nat,
    size: nat,
    bold: bool,
) -> (Seq<Seq<char>>, Seq<char>) {
    let (lines, current) = state;
    let candidate = if current.len() == 0 {
        word
    } else {
        current + seq![' '] + word
    };
    if fits(candidate, max_width, size, bold) {
        (lines, candidate)
    } else {
        let closed = if current.len() > 0 {
            lines.push(current)
        } else {
            lines
        };
        let continuation = if closed.len() == 0 {
            word
        } else {
            indent + word
        };
        if fits(continuation, max_width, size, bold) {
            (closed, continuation)
        } else {
            let chunks = chunks_of(continuation, max_width, size, bold);
            if chunks.len() > 0 {
                (closed + chunks.drop_last(), chunks.last())
            } else {
                (closed, continuation)
            }
        }
    }
}

/// The lines closed and the line being filled after placing the words.
pub open spec fn wrap_fold(
    words: Seq<Seq<char>>,
    indent: Seq<char>,
    max_width: nat,
    size: nat,
    bold: bool,
) -> (Seq<Seq<char>>, Seq<char>)
    decreases words.len(),
{
    if words.len() == 0 {
        (Seq::empty(), Seq::empty())
    } else {
        wrap_step(
            wrap_fold(words.drop_last(), indent, max_width, size, bold),
            words.last(),
            indent,
            max_width,
            size,
            bold,
        )
    }
}

/// The indent of continuation lines: two spaces under a bulleted line.
pub open spec fn continuation_indent(text: Seq<char>) -> Seq<char> {
    if text.len() > 0 && text[0] == '•' {
        seq![' ', ' ']
    } else {
        Seq::empty()
    }
}

/// The lines `text` is laid out in within `max_width` hundredths of a point.
pub open spec fn wrapped(text: Seq<char>, max_width: nat, size: nat, bold: bool) -> Seq<Seq<char>> {
    if text.len() == 0 {
        seq![Seq::empty()]
    } else if fits(text, max_width, size, bold) {
        seq![text]
    } else {
        let (lines, current) = wrap_fold(
            runs(text, Separator::Space.holds()),
            continuation_indent(text),
            max_width,
            size,
            bold,
        );
        let all = if current.len() > 0 {
            lines.push(current)
        } else {
            lines
        };
        if all.len() == 0 {
            seq![text]
        } else {
            all
        }
    }
}


/// A copy of `a` followed by `b` and then `c`.
fn concat_str(a: &str, b: &str, c: &str) -> (r: String)
    ensures
        r@ == a@ + b@ + c@,
{
    let mut r = String::from_str(a);
    r.append(b);
    r.append(c);
    r
}

/// Lays `text` out in lines of at most `max_width_cpt` hundredths of a
/// point, breaking between words and cutting words that do not fit alone.
/// No line overflows the width, but for a single character wider than it,
/// or for a text without any word.
pub fn wrap_text(text: &str, max_width_cpt: u64, font_size_cpt: u32, bold: bool) -> (r: Vec<String>)
    ensures
        views(r@) == wrapped(text@, max_width_cpt as nat, font_size_cpt as nat, bold),
        forall|i: int|
            0 <= i < r@.len() ==> {
                let l = (#[trigger] r@[i])@;
                fits_or_single(l, max_width_cpt as nat, font_size_cpt as nat, bold) || (l
                    == text@ && runs(text@, Separator::Space.holds()).len() == 0)
            },
{
    let r = wrap_lines(text, max_width_cpt, font_size_cpt, bold);
    proof {
        lemma_wrapped_lines_fit(text@, max_width_cpt as nat, font_size_cpt as nat, bold);
        assert forall|i: int| 0 <= i < r@.len() implies {
            let l = (#[trigger] r@[i])@;
            fits_or_single(l, max_width_cpt as nat, font_size_cpt as nat, bold) || (l == text@
                && runs(text@, Separator::Space.holds()).len() == 0)
        } by {
            assert(views(r@)[i] == r@[i]@);
        }
    }
    r
}

fn wrap_lines(text: &str, max_width_cpt: u64, font_size_cpt: u32, bold: bool) -> (r: Vec<String>)
    ensures
        views(r@) == wrapped(text@, max_width_cpt as nat, font_size_cpt as nat, bold),
{
    let ghost mw = max_width_cpt as nat;
    let ghost sz = font_size_cpt as nat;
    let n = text.unicode_len();
    if n == 0 {
        let r = vec![String::new()];
        assert(views(r@) =~= seq![Seq::<char>::empty()]);
        return r;
    }
    if fits_width(text, max_width_cpt, font_size_cpt, bold) {
        let r = vec![String::from_str(text)];
        assert(views(r@) =~= seq![text@]);
        return r;
    }
    let indent: &str = if text.get_char(0) == '•' {
        "  "
    } else {
        ""
    };
    proof {
        reveal_strlit("  ");
        reveal_strlit("");
        assert(indent@ =~= continuation_indent(text@));
    }
    let words = split_runs(text, Separator::Space);
    let ghost all = views(words@);
    let mut lines: Vec<String> = Vec::new();
    let mut current = String::new();
    let mut i: usize = 0;
    proof {
        assert(all.take(0) =~= Seq::<Seq<char>>::empty());
        assert(views(lines@) =~= Seq::<Seq<char>>::empty());
    }
    while i < words.len()
        invariant
            i <= words.len(),
            all == views(words@),
            mw == max_width_cpt as nat,
            sz == font_size_cpt as nat,
            indent@ == continuation_indent(text@),
            (views(lines@), current@) == wrap_fold(all.take(i as int), indent@, mw, sz, bold),
        decreases words.len() - i,
    {
        proof {
            assert(all.take(i + 1).drop_last() =~= all.take(i as int));
            assert(all.take(i + 1).last() == words@[i as int]@);
        }
        let word = &words[i];
        let candidate = if current.unicode_len() == 0 {
            word.clone()
        } else {
            concat_str(current.as_str(), " ", word.as_str())
        };
        proof {
            reveal_strlit(" ");
            if current@.len() > 0 {
                assert(" "@ =~= seq![' ']);
            }
        }
        if fits_width(candidate.as_str(), max_width_cpt, font_size_cpt, bold) {
            current = candidate;
        } else {
            if current.unicode_len() > 0 {
                let ghost before = views(lines@);
                let closed_line = current;
                lines.push(closed_line);
                current = String::new();
                assert(views(lines@) =~= before.push(closed_line@));
            }
            let continuation = if lines.len() == 0 {
                word.clone()
            } else {
                let mut c = String::from_str(indent);
                c.append(word.as_str());
                c
            };
            proof {
                if lines@.len() > 0 {
                    assert(continuation@ =~= indent@ + word@);
                }
            }
            if fits_width(continuation.as_str(), max_width_cpt, font_size_cpt, bold) {
                current = continuation;
            } else {
                let chunks = split_oversized_token(
                    continuation.as_str(),
                    max_width_cpt,
                    font_size_cpt,
                    bold,
                );
                if chunks.len() > 0 {
                    let ghost closed = views(lines@);
                    let ghost cv = views(chunks@);
                    let last = chunks.len() - 1;
                    let mut k: usize = 0;
                    while k < last
                        invariant
                            k <= last,
                            last + 1 == chunks.len(),
                            cv == views(chunks@),
                            views(lines@) == closed + cv.take(k as int),
                        decreases last - k,
                    {
                        let ghost before = views(lines@);
                        lines.push(chunks[k].clone());
                        assert(views(lines@) =~= before.push(chunks@[k as int]@));
                        assert(cv.take(k + 1) =~= cv.take(k as int).push(cv[k as int]));
                        k = k + 1;
                    }
                    assert(cv.take(last as int) =~= cv.drop_last());
                    current = chunks[last].clone();
                } else {
                    current = continuation;
                }
            }
        }
        i = i + 1;
    }
    assert(all.take(words.len() as int) =~= all);
    if current.unicode_len() > 0 {
        let ghost before = views(lines@);
        let final_line = current;
        lines.push(final_line);
        assert(views(lines@) =~= before.push(final_line@));
    }
    if lines.len() == 0 {
        let r = vec![String::from_str(text)];
        assert(views(r@) =~= seq![text@]);
        r
    } else {
        lines
    }
}

/// The lines one document line is laid out in: an empty line stays as it
/// is; text is wrapped at the size of its kind, titles set in bold.
pub open spec fn layout_line(
    l: (LineKind, Seq<char>),
    heading_size: nat,
    body_size: nat,
    max_width: nat,
) -> Seq<(LineKind, Seq<char>)> {
    if l.1.len() == 0 {
        seq![l]
    } else {
        let size = match l.0 {
            LineKind::Heading => heading_size,
            LineKind::Body => body_size,
        };
        wrapped(l.1, max_width, size, l.0 == LineKind::Heading).map_values(
            |seg: Seq<char>| (l.0, seg),
        )
    }
}

pub open spec fn layout_fn(heading_size: nat, body_size: nat, max_width: nat) -> spec_fn(
    (LineKind, Seq<char>),
) -> Seq<(LineKind, Seq<char>)> {
    |l: (LineKind, Seq<char>)| layout_line(l, heading_size, body_size, max_width)
}

/// Lays every document line out in `max_width_cpt` hundredths of a point.
pub fn layout_wrapped_lines(
    lines: &[DocumentLine],
    heading_size_cpt: u32,
    body_size_cpt: u32,
    max_width_cpt: u64,
) -> (r: Vec<DocumentLine>)
    ensures
        line_views(r@) == flat_map(
            line_views(lines@),
            layout_fn(heading_size_cpt as nat, body_size_cpt as nat, max_width_cpt as nat),
        ),
{
    let ghost f = layout_fn(heading_size_cpt as nat, body_size_cpt as nat, max_width_cpt as nat);
    let ghost all = line_views(lines@);
    let mut out: Vec<DocumentLine> = Vec::new();
    let mut i: usize = 0;
    assert(line_views(out@) =~= Seq::<(LineKind, Seq<char>)>::empty());
    while i < lines.len()
        invariant
            i <= lines@.len(),
            all == line_views(lines@),
            f == layout_fn(heading_size_cpt as nat, body_size_cpt as nat, max_width_cpt as nat),
            line_views(out@) == flat_map(all.take(i as int), f),
        decreases lines.len() - i,
    {
        proof {
            assert(all.take(i + 1).drop_last() =~= all.take(i as int));
            assert(all.take(i + 1).last() == lines@[i as int]@);
        }
        let line = &lines[i];
        let ghost start = line_views(out@);
        if line.text.unicode_len() == 0 {
            out.push(DocumentLine { kind: line.kind, text: line.text.clone() });
            assert(line_views(out@) =~= start + seq![line@]);
        } else {
            let (size, bold) = match line.kind {
                LineKind::Heading => (heading_size_cpt, true),
                LineKind::Body => (body_size_cpt, false),
            };
            let segments = wrap_text(line.text.as_str(), max_width_cpt, size, bold);
            let ghost sv = views(segments@);
            let mut k: usize = 0;
            while k < segments.len()
                invariant
                    k <= segments.len(),
                    sv == views(segments@),
                    line_views(out@) == start + sv.take(k as int).map_values(
                        |seg: Seq<char>| (line.kind, seg),
                    ),
                decreases segments.len() - k,
            {
                let ghost before = line_views(out@);
                out.push(DocumentLine { kind: line.kind, text: segments[k].clone() });
                assert(line_views(out@) =~= before.push((line.kind, segments@[k as int]@)));
                assert(sv.take(k + 1).map_values(|seg: Seq<char>| (line.kind, seg)) =~= sv.take(
                    k as int,
                ).map_values(|seg: Seq<char>| (line.kind, seg)).push((line.kind, sv[k as int])));
                k = k + 1;
            }
            assert(sv.take(segments.len() as int) =~= sv);
        }
        i = i + 1;
    }
    assert(all.take(lines.len() as int) =~= all);
    out
}


/// A line that fits, or that holds a single character too wide to fit.
pub open spec fn fits_or_single(l: Seq<char>, max_width: nat, size: nat, bold: bool) -> bool {
    fits(l, max_width, size, bold) || l.len() == 1
}

/// Every line of `v` fits or is a single character.
pub open spec fn all_fit(v: Seq<Seq<char>>, max_width: nat, size: nat, bold: bool) -> bool {
    forall|i: int| 0 <= i < v.len() ==> fits_or_single(#[trigger] v[i], max_width, size, bold)
}

/// Every line of `v` holds at least one character.
pub open spec fn all_non_empty(v: Seq<Seq<char>>) -> bool {
    forall|i: int| 0 <= i < v.len() ==> (#[trigger] v[i]).len() > 0
}

proof fn lemma_all_fit_push(v: Seq<Seq<char>>, l: Seq<char>, max_width: nat, size: nat, bold: bool)
    requires
        all_fit(v, max_width, size, bold),
        fits_or_single(l, max_width, size, bold),
    ensures
        all_fit(v.push(l), max_width, size, bold),
{
    assert forall|i: int| 0 <= i < v.push(l).len() implies fits_or_single(
        #[trigger] v.push(l)[i],
        max_width,
        size,
        bold,
    ) by {
        if i < v.len() {
            assert(v.push(l)[i] == v[i]);
        }
    }
}

/// The pieces a token is cut into fit, and none is empty.
proof fn lemma_chunk_fold_fits(s: Seq<char>, max_width: nat, size: nat, bold: bool)
    ensures
        all_fit(chunk_fold(s, max_width, size, bold).0, max_width, size, bold),
        all_non_empty(chunk_fold(s, max_width, size, bold).0),
        chunk_fold(s, max_width, size, bold).1.len() == 0 || fits_or_single(
            chunk_fold(s, max_width, size, bold).1,
            max_width,
            size,
            bold,
        ),
        s.len() > 0 ==> chunk_fold(s, max_width, size, bold).1.len() > 0,
    decreases s.len(),
{
    if s.len() > 0 {
        lemma_chunk_fold_fits(s.drop_last(), max_width, size, bold);
        let (chunks, cur) = chunk_fold(s.drop_last(), max_width, size, bold);
        let c = s.last();
        let candidate = cur.push(c);
        if cur.len() > 0 && !fits(candidate, max_width, size, bold) {
            lemma_all_fit_push(chunks, cur, max_width, size, bold);
            assert forall|i: int| 0 <= i < chunks.push(cur).len() implies (#[trigger] chunks.push(
                cur,
            )[i]).len() > 0 by {
                if i < chunks.len() {
                    assert(chunks.push(cur)[i] == chunks[i]);
                }
            }
            assert(seq![c].len() == 1);
        } else {
            if cur.len() == 0 {
                assert(candidate.len() == 1);
            }
        }
    }
}

/// The pieces a token is cut into fit, and none is empty.
proof fn lemma_chunks_fit(s: Seq<char>, max_width: nat, size: nat, bold: bool)
    ensures
        all_fit(chunks_of(s, max_width, size, bold), max_width, size, bold),
        all_non_empty(chunks_of(s, max_width, size, bold)),
{
    lemma_chunk_fold_fits(s, max_width, size, bold);
    let (chunks, cur) = chunk_fold(s, max_width, size, bold);
    if cur.len() > 0 {
        lemma_all_fit_push(chunks, cur, max_width, size, bold);
        assert forall|i: int| 0 <= i < chunks.push(cur).len() implies (#[trigger] chunks.push(
            cur,
        )[i]).len() > 0 by {
            if i < chunks.len() {
                assert(chunks.push(cur)[i] == chunks[i]);
            }
        }
    }
}

/// Filling lines with words keeps every line within the width, except
/// single characters wider than it; once a word is placed, some line has
/// text.
proof fn lemma_wrap_fold_fits(
    words: Seq<Seq<char>>,
    indent: Seq<char>,
    max_width: nat,
    size: nat,
    bold: bool,
)
    requires
        all_non_empty(words),
    ensures
        all_fit(wrap_fold(words, indent, max_width, size, bold).0, max_width, size, bold),
        wrap_fold(words, indent, max_width, size, bold).1.len() == 0 || fits_or_single(
            wrap_fold(words, indent, max_width, size, bold).1,
            max_width,
            size,
            bold,
        ),
        words.len() > 0 ==> wrap_fold(words, indent, max_width, size, bold).0.len() > 0
            || wrap_fold(words, indent, max_width, size, bold).1.len() > 0,
    decreases words.len(),
{
    if words.len() > 0 {
        let init = words.drop_last();
        assert forall|i: int| 0 <= i < init.len() implies (#[trigger] init[i]).len() > 0 by {
            assert(init[i] == words[i]);
        }
        lemma_wrap_fold_fits(init, indent, max_width, size, bold);
        let (lines, current) = wrap_fold(init, indent, max_width, size, bold);
        let word = words.last();
        assert(word.len() > 0);
        let candidate = if current.len() == 0 {
            word
        } else {
            current + seq![' '] + word
        };
        if !fits(candidate, max_width, size, bold) {
            let closed = if current.len() > 0 {
                lines.push(current)
            } else {
                lines
            };
            if current.len() > 0 {
                lemma_all_fit_push(lines, current, max_width, size, bold);
            }
            let continuation = if closed.len() == 0 {
                word
            } else {
                indent + word
            };
            if !fits(continuation, max_width, size, bold) {
                let chunks = chunks_of(continuation, max_width, size, bold);
                lemma_chunks_fit(continuation, max_width, size, bold);
                if chunks.len() > 0 {
                    let w = closed + chunks.drop_last();
                    assert forall|i: int| 0 <= i < w.len() implies fits_or_single(
                        #[trigger] w[i],
                        max_width,
                        size,
                        bold,
                    ) by {
                        if i < closed.len() {
                            assert(w[i] == closed[i]);
                        } else {
                            assert(w[i] == chunks[i - closed.len()]);
                        }
                    }
                    assert(fits_or_single(chunks[chunks.len() - 1], max_width, size, bold));
                    assert(chunks.last().len() > 0);
                } else {
                    assert(continuation.len() > 0);
                }
            }
        }
    }
}

/// Pieces of a split hold at least one character each.
proof fn lemma_runs_from_non_empty(s: Seq<char>, is_sep: spec_fn(char) -> bool, cur: Seq<char>)
    ensures
        all_non_empty(runs_from(s, is_sep, cur)),
    decreases s.len(),
{
    if s.len() == 0 {
        if cur.len() > 0 {
            assert(runs_from(s, is_sep, cur) =~= seq![cur]);
        }
    } else if is_sep(s[0]) {
        lemma_runs_from_non_empty(s.drop_first(), is_sep, Seq::empty());
        let head: Seq<Seq<char>> = if cur.len() > 0 {
            seq![cur]
        } else {
            Seq::empty()
        };
        let tail = runs_from(s.drop_first(), is_sep, Seq::empty());
        assert(runs_from(s, is_sep, cur) == head + tail);
        assert forall|i: int| 0 <= i < (head + tail).len() implies (#[trigger] (head + tail)[i]).len()
            > 0 by {
            if i < head.len() {
                assert((head + tail)[i] == cur);
            } else {
                assert((head + tail)[i] == tail[i - head.len()]);
            }
        }
    } else {
        lemma_runs_from_non_empty(s.drop_first(), is_sep, cur.push(s[0]));
        assert(runs_from(s, is_sep, cur) == runs_from(s.drop_first(), is_sep, cur.push(s[0])));
    }
}

/// Wrapped text never overflows its width: every line fits, or is a single
/// character wider than the width, or is the whole text when the text holds
/// no word at all.
pub proof fn lemma_wrapped_lines_fit(text: Seq<char>, max_width: nat, size: nat, bold: bool)
    ensures
        forall|i: int|
            0 <= i < wrapped(text, max_width, size, bold).len() ==> {
                let l = #[trigger] wrapped(text, max_width, size, bold)[i];
                fits_or_single(l, max_width, size, bold) || (l == text && runs(
                    text,
                    Separator::Space.holds(),
                ).len() == 0)
            },
{
    if text.len() == 0 {
        assert(wrapped(text, max_width, size, bold) =~= seq![Seq::<char>::empty()]);
        assert(text_width(Seq::<char>::empty(), size, bold) == 0);
    } else if fits(text, max_width, size, bold) {
    } else {
        let words = runs(text, Separator::Space.holds());
        let indent = continuation_indent(text);
        lemma_runs_from_non_empty(text, Separator::Space.holds(), Seq::empty());
        lemma_wrap_fold_fits(words, indent, max_width, size, bold);
        let (lines, current) = wrap_fold(words, indent, max_width, size, bold);
        if current.len() > 0 {
            lemma_all_fit_push(lines, current, max_width, size, bold);
        }
    }
}

/// Every line of `v` holds only characters that meet `p`.
pub open spec fn lines_of_chars(v: Seq<Seq<char>>, p: spec_fn(char) -> bool) -> bool {
    forall|k: int| 0 <= k < v.len() ==> all_chars(#[trigger] v[k], p)
}

proof fn lemma_lines_of_chars_add(a: Seq<Seq<char>>, b: Seq<Seq<char>>, p: spec_fn(char) -> bool)
    requires
        lines_of_chars(a, p),
        lines_of_chars(b, p),
    ensures
        lines_of_chars(a + b, p),
{
    assert forall|k: int| 0 <= k < (a + b).len() implies all_chars(#[trigger] (a + b)[k], p) by {
        if k < a.len() {
            assert((a + b)[k] == a[k]);
        } else {
            assert((a + b)[k] == b[k - a.len()]);
        }
    }
}

proof fn lemma_concat_chars(a: Seq<char>, b: Seq<char>, p: spec_fn(char) -> bool)
    requires
        all_chars(a, p),
        all_chars(b, p),
    ensures
        all_chars(a + b, p),
{
    assert forall|i: int| 0 <= i < (a + b).len() implies #[trigger] p((a + b)[i]) by {
        if i < a.len() {
            assert((a + b)[i] == a[i]);
        } else {
            assert((a + b)[i] == b[i - a.len()]);
        }
    }
}

/// The pieces a token is cut into hold only characters of the token.
proof fn lemma_chunk_fold_chars(s: Seq<char>, max_width: nat, size: nat, bold: bool, p: spec_fn(char) -> bool)
    requires
        all_chars(s, p),
    ensures
        lines_of_chars(chunk_fold(s, max_width, size, bold).0, p),
        all_chars(chunk_fold(s, max_width, size, bold).1, p),
        lines_of_chars(chunks_of(s, max_width, size, bold), p),
    decreases s.len(),
{
    if s.len() > 0 {
        let init = s.drop_last();
        assert(all_chars(init, p)) by {
            assert forall|i: int| 0 <= i < init.len() implies #[trigger] p(init[i]) by {
                assert(init[i] == s[i]);
            }
        }
        lemma_chunk_fold_chars(init, max_width, size, bold, p);
        let (chunks, cur) = chunk_fold(init, max_width, size, bold);
        let c = s.last();
        assert(p(c));
        lemma_concat_chars(cur, seq![c], p);
        assert(cur.push(c) =~= cur + seq![c]);
        lemma_lines_of_chars_add(chunks, seq![cur], p);
        assert(chunks.push(cur) =~= chunks + seq![cur]);
    }
    let (chunks, cur) = chunk_fold(s, max_width, size, bold);
    lemma_lines_of_chars_add(chunks, seq![cur], p);
    assert(chunks.push(cur) =~= chunks + seq![cur]);
}

/// Filling lines with words puts in them only characters of the words, of
/// the indent, and spaces.
proof fn lemma_wrap_fold_chars(
    words: Seq<Seq<char>>,
    indent: Seq<char>,
    max_width: nat,
    size: nat,
    bold: bool,
    p: spec_fn(char) -> bool,
)
    requires
        lines_of_chars(words, p),
        all_chars(indent, p),
        p(' '),
    ensures
        lines_of_chars(wrap_fold(words, indent, max_width, size, bold).0, p),
        all_chars(wrap_fold(words, indent, max_width, size, bold).1, p),
    decreases words.len(),
{
    if words.len() > 0 {
        let init = words.drop_last();
        assert forall|k: int| 0 <= k < init.len() implies all_chars(#[trigger] init[k], p) by {
            assert(init[k] == words[k]);
        }
        lemma_wrap_fold_chars(init, indent, max_width, size, bold, p);
        let (lines, current) = wrap_fold(init, indent, max_width, size, bold);
        let word = words.last();
        assert(all_chars(word, p));
        assert(all_chars(seq![' '], p));
        lemma_concat_chars(current, seq![' '], p);
        lemma_concat_chars(current + seq![' '], word, p);
        lemma_concat_chars(indent, word, p);
        lemma_lines_of_chars_add(lines, seq![current], p);
        assert(lines.push(current) =~= lines + seq![current]);
        let closed = if current.len() > 0 { lines.push(current) } else { lines };
        let continuation = if closed.len() == 0 { word } else { indent + word };
        lemma_chunk_fold_chars(continuation, max_width, size, bold, p);
        let chunks = chunks_of(continuation, max_width, size, bold);
        if chunks.len() > 0 {
            assert forall|k: int| 0 <= k < chunks.drop_last().len() implies all_chars(
                #[trigger] chunks.drop_last()[k],
                p,
            ) by {
                assert(chunks.drop_last()[k] == chunks[k]);
            }
            lemma_lines_of_chars_add(closed, chunks.drop_last(), p);
            assert(all_chars(chunks[chunks.len() - 1], p));
        }
    }
}

/// A text with a character that is not white space has a word.
proof fn lemma_runs_from_has_word(s: Seq<char>, cur: Seq<char>, i: int)
    requires
        0 <= i < s.len(),
        !is_space(s[i]),
    ensures
        runs_from(s, Separator::Space.holds(), cur).len() > 0,
    decreases s.len(),
{
    let is_sep = Separator::Space.holds();
    if i == 0 {
        lemma_runs_from_non_empty_tail(s.drop_first(), cur.push(s[0]));
    } else if is_sep(s[0]) {
        lemma_runs_from_has_word(s.drop_first(), Seq::empty(), i - 1);
        let head: Seq<Seq<char>> = if cur.len() > 0 { seq![cur] } else { Seq::empty() };
        assert(runs_from(s, is_sep, cur) == head + runs_from(s.drop_first(), is_sep, Seq::empty()));
    } else {
        lemma_runs_from_has_word(s.drop_first(), cur.push(s[0]), i - 1);
    }
}

/// A run being gathered ends up among the pieces.
proof fn lemma_runs_from_non_empty_tail(s: Seq<char>, cur: Seq<char>)
    requires
        cur.len() > 0,
    ensures
        runs_from(s, Separator::Space.holds(), cur).len() > 0,
    decreases s.len(),
{
    let is_sep = Separator::Space.holds();
    if s.len() > 0 {
        if is_sep(s[0]) {
            assert(runs_from(s, is_sep, cur) == seq![cur] + runs_from(s.drop_first(), is_sep, Seq::empty()));
        } else {
            lemma_runs_from_non_empty_tail(s.drop_first(), cur.push(s[0]));
        }
    }
}

/// Where every character of a text that is not all white space fits the
/// width alone, every line it is wrapped into fits the width.
pub proof fn lemma_wrapped_lines_fit_when_chars_fit(text: Seq<char>, max_width: nat, size: nat, bold: bool)
    requires
        exists|i: int| 0 <= i < text.len() && !is_space(#[trigger] text[i]),
        forall|i: int| 0 <= i < text.len() ==> fits(seq![#[trigger] text[i]], max_width, size, bold),
    ensures
        wrapped(text, max_width, size, bold).len() > 0,
        forall|k: int|
            0 <= k < wrapped(text, max_width, size, bold).len() ==> fits(
                #[trigger] wrapped(text, max_width, size, bold)[k],
                max_width,
                size,
                bold,
            ),
{
    let i0 = choose|i: int| 0 <= i < text.len() && !is_space(#[trigger] text[i]);
    if !fits(text, max_width, size, bold) {
        let is_sep = Separator::Space.holds();
        let words = runs(text, is_sep);
        let indent = continuation_indent(text);
        let p = |c: char| c == ' ' || text.contains(c);
        assert(all_chars(text, p)) by {
            assert forall|i: int| 0 <= i < text.len() implies #[trigger] p(text[i]) by {
                assert(text.contains(text[i]));
            }
        }
        assert(all_chars(Seq::<char>::empty(), p));
        lemma_runs_from_chars(text, is_sep, Seq::empty(), p);
        assert(all_chars(indent, p));
        lemma_wrap_fold_chars(words, indent, max_width, size, bold, p);
        lemma_runs_from_has_word(text, Seq::empty(), i0);
        lemma_runs_from_non_empty(text, is_sep, Seq::empty());
        lemma_wrap_fold_fits(words, indent, max_width, size, bold);
        lemma_wrapped_lines_fit(text, max_width, size, bold);
        let (lines, current) = wrap_fold(words, indent, max_width, size, bold);
        let all = if current.len() > 0 { lines.push(current) } else { lines };
        lemma_lines_of_chars_add(lines, seq![current], p);
        assert(lines.push(current) =~= lines + seq![current]);
        assert(all.len() > 0);
        assert(wrapped(text, max_width, size, bold) == all);
        // a space is no wider than any character
        let c0 = text[i0];
        assert(fits(seq![c0], max_width, size, bold));
        assert(seq![c0].drop_last() =~= Seq::<char>::empty());
        assert(seq![' '].drop_last() =~= Seq::<char>::empty());
        assert(text_width(Seq::<char>::empty(), size, bold) == 0);
        assert(seq![c0].last() == c0);
        assert(seq![' '].last() == ' ');
        assert(text_width(seq![c0], size, bold) == char_factor(c0, bold) * size);
        assert(text_width(seq![' '], size, bold) == char_factor(' ', bold) * size);
        assert(char_factor(' ', bold) <= char_factor(c0, bold));
        assert(char_factor(' ', bold) * size <= char_factor(c0, bold) * size) by (nonlinear_arith)
            requires
                char_factor(' ', bold) <= char_factor(c0, bold),
        ;
        assert forall|k: int| 0 <= k < all.len() implies fits(#[trigger] all[k], max_width, size, bold) by {
            assert(fits_or_single(all[k], max_width, size, bold));
            if !fits(all[k], max_width, size, bold) {
                assert(all[k].len() == 1);
                let c = all[k][0];
                assert(all_chars(all[k], p));
                assert(p(c));
                assert(all[k] =~= seq![c]);
                if c != ' ' {
                    let j = choose|j: int| 0 <= j < text.len() && text[j] == c;
                    assert(fits(seq![text[j]], max_width, size, bold));
                }
            }
        }
    } else {
        assert(text.len() > 0);
    }
}

/// A character that shows on the page: any but white space.
pub open spec fn shows(c: char) -> bool {
    !is_space(c)
}

/// The characters of `s` that show, in order.
pub open spec fn visible(s: Seq<char>) -> Seq<char> {
    s.filter(|c: char| shows(c))
}

/// The lines of `v` one after the other.
pub open spec fn concat_lines(v: Seq<Seq<char>>) -> Seq<char>
    decreases v.len(),
{
    if v.len() == 0 {
        Seq::empty()
    } else {
        concat_lines(v.drop_last()) + v.last()
    }
}

proof fn lemma_visible_add(a: Seq<char>, b: Seq<char>)
    ensures
        visible(a + b) == visible(a) + visible(b),
{
    Seq::filter_distributes_over_add(a, b, |c: char| shows(c));
}

proof fn lemma_visible_empty()
    ensures
        visible(Seq::<char>::empty()) == Seq::<char>::empty(),
{
    reveal(Seq::filter);
}

proof fn lemma_visible_single(c: char)
    ensures
        visible(seq![c]) == (if shows(c) { seq![c] } else { Seq::<char>::empty() }),
{
    lemma_visible_empty();
    Seq::<char>::empty().lemma_filter_push(c, |c: char| shows(c));
    assert(Seq::<char>::empty().push(c) =~= seq![c]);
}

proof fn lemma_concat_lines_add(a: Seq<Seq<char>>, b: Seq<Seq<char>>)
    ensures
        concat_lines(a + b) == concat_lines(a) + concat_lines(b),
    decreases b.len(),
{
    if b.len() == 0 {
        assert(a + b =~= a);
        assert(concat_lines(a) + Seq::<char>::empty() =~= concat_lines(a));
    } else {
        lemma_concat_lines_add(a, b.drop_last());
        assert((a + b).drop_last() =~= a + b.drop_last());
        assert((a + b).last() == b.last());
        assert(concat_lines(a + b) =~= concat_lines(a) + concat_lines(b));
    }
}

proof fn lemma_concat_lines_push(a: Seq<Seq<char>>, l: Seq<char>)
    ensures
        concat_lines(a.push(l)) == concat_lines(a) + l,
{
    assert(a.push(l).drop_last() =~= a);
}

/// Splitting at white space keeps the characters that show, in order.
proof fn lemma_runs_from_visible(s: Seq<char>, cur: Seq<char>)
    ensures
        visible(concat_lines(runs_from(s, Separator::Space.holds(), cur))) == visible(cur + s),
    decreases s.len(),
{
    let is_sep = Separator::Space.holds();
    let head: Seq<Seq<char>> = if cur.len() > 0 { seq![cur] } else { Seq::empty() };
    lemma_concat_lines_push(Seq::empty(), cur);
    assert(Seq::<Seq<char>>::empty().push(cur) =~= seq![cur]);
    assert(Seq::<char>::empty() + cur =~= cur);
    lemma_visible_empty();
    assert(concat_lines(head) == cur) by {
        if cur.len() == 0 {
            assert(cur =~= Seq::<char>::empty());
        }
    }
    if s.len() == 0 {
        assert(cur + s =~= cur);
    } else {
        let t = s.drop_first();
        if is_sep(s[0]) {
            lemma_runs_from_visible(t, Seq::empty());
            assert(Seq::<char>::empty() + t =~= t);
            let tail = runs_from(t, is_sep, Seq::empty());
            assert(runs_from(s, is_sep, cur) == head + tail);
            lemma_concat_lines_add(head, tail);
            lemma_visible_add(cur, concat_lines(tail));
            assert(cur + s =~= cur + seq![s[0]] + t);
            lemma_visible_add(cur + seq![s[0]], t);
            lemma_visible_add(cur, seq![s[0]]);
            lemma_visible_single(s[0]);
            assert(!shows(s[0]));
            assert(visible(cur) + Seq::<char>::empty() =~= visible(cur));
        } else {
            lemma_runs_from_visible(t, cur.push(s[0]));
            assert(cur.push(s[0]) + t =~= cur + s);
        }
    }
}

/// Cutting a token into pieces loses and adds nothing.
proof fn lemma_chunk_fold_concat(s: Seq<char>, max_width: nat, size: nat, bold: bool)
    ensures
        concat_lines(chunk_fold(s, max_width, size, bold).0) + chunk_fold(s, max_width, size, bold).1
            == s,
        concat_lines(chunks_of(s, max_width, size, bold)) == s,
    decreases s.len(),
{
    if s.len() == 0 {
        assert(Seq::<char>::empty() + Seq::<char>::empty() =~= s);
    } else {
        let init = s.drop_last();
        lemma_chunk_fold_concat(init, max_width, size, bold);
        let (chunks, cur) = chunk_fold(init, max_width, size, bold);
        let c = s.last();
        lemma_concat_lines_push(chunks, cur);
        assert(init.push(c) =~= s);
        assert(concat_lines(chunks) + cur.push(c) =~= concat_lines(chunks) + cur + seq![c]);
        assert(concat_lines(chunks) + cur + seq![c] =~= s);
    }
    let (chunks, cur) = chunk_fold(s, max_width, size, bold);
    lemma_concat_lines_push(chunks, cur);
    if cur.len() == 0 {
        assert(concat_lines(chunks) + cur =~= concat_lines(chunks));
    }
}

/// Placing one word keeps the characters that show, in order.
#[verifier::spinoff_prover]
proof fn lemma_wrap_step_visible(
    lines: Seq<Seq<char>>,
    current: Seq<char>,
    word: Seq<char>,
    indent: Seq<char>,
    max_width: nat,
    size: nat,
    bold: bool,
)
    requires
        visible(indent) == Seq::<char>::empty(),
    ensures
        ({
            let (l2, c2) = wrap_step((lines, current), word, indent, max_width, size, bold);
            visible(concat_lines(l2) + c2) == visible(concat_lines(lines)) + visible(current)
                + visible(word)
        }),
{
    lemma_visible_empty();
    let before = concat_lines(lines);
    lemma_visible_single(' ');
    lemma_visible_add(current, seq![' ']);
    lemma_visible_add(current + seq![' '], word);
    assert(visible(current) + Seq::<char>::empty() =~= visible(current));
    lemma_visible_add(indent, word);
    assert(Seq::<char>::empty() + visible(word) =~= visible(word));
    let candidate = if current.len() == 0 { word } else { current + seq![' '] + word };
    if current.len() == 0 {
        assert(current =~= Seq::<char>::empty());
    }
    assert(visible(candidate) == visible(current) + visible(word));
    lemma_visible_add(before, candidate);
    let closed = if current.len() > 0 { lines.push(current) } else { lines };
    lemma_concat_lines_push(lines, current);
    assert(visible(concat_lines(closed)) == visible(before) + visible(current)) by {
        lemma_visible_add(before, current);
        if current.len() == 0 {
            assert(visible(before) + Seq::<char>::empty() =~= visible(before));
        }
    }
    let continuation = if closed.len() == 0 { word } else { indent + word };
    assert(visible(continuation) == visible(word));
    lemma_visible_add(concat_lines(closed), continuation);
    let chunks = chunks_of(continuation, max_width, size, bold);
    lemma_chunk_fold_concat(continuation, max_width, size, bold);
    if chunks.len() > 0 {
        lemma_concat_lines_add(closed, chunks.drop_last());
        assert(chunks =~= chunks.drop_last().push(chunks.last()));
        lemma_concat_lines_push(chunks.drop_last(), chunks.last());
        assert(concat_lines(closed + chunks.drop_last()) + chunks.last() =~= concat_lines(closed)
            + continuation);
    }
    assert(visible(before) + visible(current) + visible(word) =~= visible(before) + (visible(current)
        + visible(word)));
}

/// Filling lines with words keeps the characters that show, in order.
proof fn lemma_wrap_fold_visible(
    words: Seq<Seq<char>>,
    indent: Seq<char>,
    max_width: nat,
    size: nat,
    bold: bool,
)
    requires
        visible(indent) == Seq::<char>::empty(),
    ensures
        visible(
            concat_lines(wrap_fold(words, indent, max_width, size, bold).0) + wrap_fold(
                words,
                indent,
                max_width,
                size,
                bold,
            ).1,
        ) == visible(concat_lines(words)),
    decreases words.len(),
{
    lemma_visible_empty();
    if words.len() == 0 {
        assert(Seq::<char>::empty() + Seq::<char>::empty() =~= Seq::<char>::empty());
    } else {
        let init = words.drop_last();
        lemma_wrap_fold_visible(init, indent, max_width, size, bold);
        let (lines, current) = wrap_fold(init, indent, max_width, size, bold);
        let word = words.last();
        lemma_visible_add(concat_lines(lines), current);
        lemma_visible_add(concat_lines(init), word);
        lemma_wrap_step_visible(lines, current, word, indent, max_width, size, bold);
    }
}

/// Wrapping loses, adds and reorders none of the characters that show: the
/// lines, one after the other, show the characters of the text in order.
pub proof fn lemma_wrapped_keeps_visible(text: Seq<char>, max_width: nat, size: nat, bold: bool)
    ensures
        wrapped(text, max_width, size, bold).len() > 0,
        visible(concat_lines(wrapped(text, max_width, size, bold))) == visible(text),
{
    lemma_concat_lines_push(Seq::empty(), text);
    assert(Seq::<Seq<char>>::empty().push(text) =~= seq![text]);
    assert(Seq::<char>::empty() + text =~= text);
    if text.len() == 0 {
        assert(wrapped(text, max_width, size, bold) =~= seq![text]);
    } else if !fits(text, max_width, size, bold) {
        let words = runs(text, Separator::Space.holds());
        let indent = continuation_indent(text);
        assert(visible(indent) == Seq::<char>::empty()) by {
            lemma_visible_empty();
            if text[0] == '•' {
                lemma_visible_single(' ');
                assert(seq![' ', ' '] =~= seq![' '] + seq![' ']);
                lemma_visible_add(seq![' '], seq![' ']);
                assert(Seq::<char>::empty() + Seq::<char>::empty() =~= Seq::<char>::empty());
            }
        }
        lemma_wrap_fold_visible(words, indent, max_width, size, bold);
        lemma_runs_from_visible(text, Seq::empty());
        let (lines, current) = wrap_fold(words, indent, max_width, size, bold);
        lemma_concat_lines_push(lines, current);
        if current.len() == 0 {
            assert(concat_lines(lines) + current =~= concat_lines(lines));
        }
    }
}

} // verus!
