//! Small text rules shared by the models and the renderer: file names,
//! colors, joined details and URL recognition.

use vstd::prelude::*;

use crate::paths::{final_part, has_plain_file_name, is_stem_of, plain_stem};
use crate::text::{
    all_chars, ascii_lower, char_ascii_lower, lemma_join_chars, lemma_runs_from_chars, lemma_runs_from_pieces, lemma_runs_of_join, join, join_strings, push_char, replace_all, runs, split_runs,
    opt_str_view, opt_string_view, str_eq, str_replace, str_trim, trim, trim_end, trim_start, is_space, views, Separator,
};

verus! {

/// ASCII letters and digits.
pub open spec fn is_ascii_alnum(c: char) -> bool {
    ('a' <= c && c <= 'z') || ('A' <= c && c <= 'Z') || ('0' <= c && c <= '9')
}

fn char_is_ascii_alnum(c: char) -> (r: bool)
    ensures
        r == is_ascii_alnum(c),
{
    ('a' <= c && c <= 'z') || ('A' <= c && c <= 'Z') || ('0' <= c && c <= '9')
}

/// How `sanitize_filename` rewrites one character.
pub open spec fn filename_char(c: char) -> char {
    if is_ascii_alnum(c) {
        ascii_lower(c)
    } else {
        '-'
    }
}

/// The lower-cased ASCII letters and digits of `s`, every other character
/// read as a dash, with runs of dashes collapsed and dashes dropped at both
/// ends.
pub open spec fn sanitized(s: Seq<char>) -> Seq<char> {
    join(runs(s.map_values(|c: char| filename_char(c)), Separator::Char('-').holds()), seq!['-'])
}

/// Turns arbitrary text into a lower-case, dash-separated file name.
pub fn sanitize_filename(value: &str) -> (r: String)
    ensures
        r@ == sanitized(value@),
{
    let n = value.unicode_len();
    let mut mapped = String::new();
    let mut i: usize = 0;
    while i < n
        invariant
            n == value@.len(),
            i <= n,
            mapped@ == value@.take(i as int).map_values(|c: char| filename_char(c)),
        decreases n - i,
    {
        let c = value.get_char(i);
        let d = if char_is_ascii_alnum(c) {
            char_ascii_lower(c)
        } else {
            '-'
        };
        push_char(&mut mapped, d);
        proof {
            assert(value@.take(i + 1) =~= value@.take(i as int).push(c));
            assert(value@.take(i + 1).map_values(|c: char| filename_char(c)) =~= value@.take(
                i as int,
            ).map_values(|c: char| filename_char(c)).push(filename_char(c)));
        }
        i = i + 1;
    }
    assert(value@.take(n as int) =~= value@);
    let parts = split_runs(mapped.as_str(), Separator::Char('-'));
    proof {
        reveal_strlit("-");
        assert("-"@ =~= seq!['-']);
    }
    join_strings(&parts, "-")
}

/// The characters a portable file stem may hold.
pub open spec fn is_stem_char(c: char) -> bool {
    is_ascii_alnum(c) || c == '-' || c == '_'
}

/// A portable, single-component file stem: not empty, not `.` or `..`, and
/// made of ASCII letters, digits, `-` and `_` only.
pub open spec fn is_safe_stem(s: Seq<char>) -> bool {
    &&& s.len() > 0
    &&& s != seq!['.']
    &&& s != seq!['.', '.']
    &&& forall|i: int| 0 <= i < s.len() ==> #[trigger] is_stem_char(s[i])
}

/// Returns whether a value is a portable, single-component file stem.
///
/// Keeping generated output and theme names to this conservative character
/// set prevents path traversal and avoids platform-specific filename
/// surprises.
pub fn is_safe_file_stem(value: &str) -> (r: bool)
    ensures
        r == is_safe_stem(value@),
{
    let n = value.unicode_len();
    if n == 0 {
        return false;
    }
    let mut i: usize = 0;
    while i < n
        invariant
            n == value@.len(),
            i <= n,
            forall|k: int| 0 <= k < i ==> #[trigger] is_stem_char(value@[k]),
        decreases n - i,
    {
        let c = value.get_char(i);
        if !(char_is_ascii_alnum(c) || c == '-' || c == '_') {
            assert(!is_stem_char(value@[i as int]));
            return false;
        }
        i = i + 1;
    }
    proof {
        if value@ == seq!['.'] || value@ == seq!['.', '.'] {
            assert(is_stem_char(value@[0]));
        }
    }
    true
}

/// The trimmed text of an item, when it is present and not blank.
pub open spec fn present_part(item: Option<Seq<char>>) -> Seq<Seq<char>> {
    match item {
        Some(s) => if trim(s).len() > 0 {
            seq![trim(s)]
        } else {
            Seq::empty()
        },
        None => Seq::empty(),
    }
}

/// The trimmed texts of the items that are present and not blank, in order.
pub open spec fn present_parts(items: Seq<Option<Seq<char>>>) -> Seq<Seq<char>>
    decreases items.len(),
{
    if items.len() == 0 {
        Seq::empty()
    } else {
        present_parts(items.drop_last()) + present_part(items.last())
    }
}

/// The present, non-blank items, trimmed and joined with ` | `.
pub open spec fn joined_non_empty(items: Seq<Option<Seq<char>>>) -> Seq<char> {
    join(present_parts(items), " | "@)
}

/// Joins the present, non-blank items, each trimmed, with ` | `.
pub fn join_non_empty(items: &[Option<&str>]) -> (r: String)
    ensures
        r@ == joined_non_empty(items@.map_values(|o: Option<&str>| opt_str_view(o))),
{
    let ghost all = items@.map_values(|o: Option<&str>| opt_str_view(o));
    let mut parts: Vec<String> = Vec::new();
    let mut i: usize = 0;
    while i < items.len()
        invariant
            i <= items@.len(),
            all == items@.map_values(|o: Option<&str>| opt_str_view(o)),
            views(parts@) == present_parts(all.take(i as int)),
        decreases items.len() - i,
    {
        proof {
            assert(all.take(i + 1).drop_last() =~= all.take(i as int));
            assert(all.take(i + 1).last() == opt_str_view(items@[i as int]));
        }
        let ghost before = views(parts@);
        match items[i] {
            Some(item) => {
                let t = str_trim(item);
                if t.unicode_len() > 0 {
                    parts.push(String::from_str(t));
                    assert(views(parts@) =~= before + seq![t@]);
                } else {
                    assert(views(parts@) =~= before + Seq::<Seq<char>>::empty());
                }
            },
            None => {
                assert(views(parts@) =~= before + Seq::<Seq<char>>::empty());
            },
        }
        i = i + 1;
    }
    assert(all.take(items.len() as int) =~= all);
    join_strings(&parts, " | ")
}

/// The date range of an entry: the present, non-blank ends joined with an
/// en dash, or nothing when neither end is given.
pub open spec fn date_range(start: Option<Seq<char>>, end: Option<Seq<char>>) -> Option<Seq<char>> {
    let v = joined_non_empty(seq![start, end]);
    if v.len() == 0 {
        None
    } else {
        Some(replace_all(v, " | "@, " – "@))
    }
}

/// `o` is absent, or a text without `|`.
pub open spec fn without_bar(o: Option<Seq<char>>) -> bool {
    o matches Some(t) ==> !t.contains('|')
}

proof fn lemma_trim_keeps_no_bar(t: Seq<char>)
    requires
        !t.contains('|'),
    ensures
        !trim(t).contains('|'),
{
    lemma_trim_start_no_bar(t);
    lemma_trim_end_no_bar(trim_start(t));
}

proof fn lemma_trim_start_no_bar(t: Seq<char>)
    requires
        !t.contains('|'),
    ensures
        !trim_start(t).contains('|'),
    decreases t.len(),
{
    if t.len() > 0 && is_space(t[0]) {
        if t.drop_first().contains('|') {
            let i = choose|i: int| 0 <= i < t.drop_first().len() && t.drop_first()[i] == '|';
            assert(t[i + 1] == '|');
        }
        lemma_trim_start_no_bar(t.drop_first());
    }
}

proof fn lemma_trim_end_no_bar(t: Seq<char>)
    requires
        !t.contains('|'),
    ensures
        !trim_end(t).contains('|'),
    decreases t.len(),
{
    if t.len() > 0 && is_space(t.last()) {
        if t.drop_last().contains('|') {
            let i = choose|i: int| 0 <= i < t.drop_last().len() && t.drop_last()[i] == '|';
            assert(t[i] == '|');
        }
        lemma_trim_end_no_bar(t.drop_last());
    }
}

/// A text without `|` holds no ` | ` to replace.
proof fn lemma_replace_without_bar(x: Seq<char>)
    requires
        !x.contains('|'),
    ensures
        replace_all(x, " | "@, " – "@) == x,
    decreases x.len(),
{
    reveal_strlit(" | ");
    if x.len() > 0 {
        let pat = " | "@;
        if pat.len() <= x.len() && x.subrange(0, 3) == pat {
            assert(x.subrange(0, 3)[1] == '|');
            assert(x[1] == '|');
        }
        let t = x.drop_first();
        if t.contains('|') {
            let i = choose|i: int| 0 <= i < t.len() && t[i] == '|';
            assert(x[i + 1] == '|');
        }
        lemma_replace_without_bar(t);
        assert(seq![x[0]] + t =~= x);
    }
}

/// The one ` | ` between two texts without `|` is the one replaced.
proof fn lemma_replace_one_bar(a: Seq<char>, b: Seq<char>)
    requires
        !a.contains('|'),
        !b.contains('|'),
    ensures
        replace_all(a + " | "@ + b, " | "@, " – "@) == a + " – "@ + b,
    decreases a.len(),
{
    reveal_strlit(" | ");
    let pat = " | "@;
    let rep = " – "@;
    let s = a + pat + b;
    if a.len() == 0 {
        assert(s =~= pat + b);
        assert(s.subrange(0, 3) =~= pat);
        assert(s.subrange(3, s.len() as int) =~= b);
        lemma_replace_without_bar(b);
        assert(rep + b =~= a + rep + b);
    } else {
        if s.subrange(0, 3) == pat {
            assert(s.subrange(0, 3)[1] == '|');
            if a.len() >= 2 {
                assert(s[1] == a[1]);
            } else {
                assert(s[1] == pat[0]);
            }
        }
        let t = a.drop_first();
        if t.contains('|') {
            let i = choose|i: int| 0 <= i < t.len() && t[i] == '|';
            assert(a[i + 1] == '|');
        }
        lemma_replace_one_bar(t, b);
        assert(s.drop_first() =~= t + pat + b);
        assert(seq![a[0]] + (t + rep + b) =~= a + rep + b);
    }
}

/// Where neither end holds a `|`, the date range is the present, non-blank
/// ends, trimmed, joined with an en dash, or nothing when there is none.
pub proof fn lemma_date_range_joins_parts(start: Option<Seq<char>>, end: Option<Seq<char>>)
    requires
        without_bar(start),
        without_bar(end),
    ensures
        date_range(start, end) == ({
            let parts = present_parts(seq![start, end]);
            if parts.len() == 0 {
                None
            } else {
                Some(join(parts, " – "@))
            }
        }),
{
    reveal_strlit(" | ");
    let items = seq![start, end];
    assert(items.drop_last() =~= seq![start]);
    assert(items.drop_last().drop_last() =~= Seq::<Option<Seq<char>>>::empty());
    let p0 = present_part(start);
    let p1 = present_part(end);
    assert(seq![start].drop_last() =~= Seq::<Option<Seq<char>>>::empty());
    assert(seq![start].last() == start);
    assert(present_parts(Seq::<Option<Seq<char>>>::empty()) == Seq::<Seq<char>>::empty());
    assert(present_parts(seq![start]) =~= Seq::<Seq<char>>::empty() + p0);
    let parts = present_parts(items);
    assert(parts =~= p0 + p1);
    match start {
        Some(t) => lemma_trim_keeps_no_bar(t),
        None => {},
    }
    match end {
        Some(t) => lemma_trim_keeps_no_bar(t),
        None => {},
    }
    let v = join(parts, " | "@);
    if parts.len() == 1 {
        assert(v == parts[0]);
        assert(!parts[0].contains('|'));
        lemma_replace_without_bar(parts[0]);
        assert(join(parts, " – "@) == parts[0]);
    } else if parts.len() == 2 {
        assert(parts.drop_last() =~= seq![parts[0]]);
        assert(seq![parts[0]][0] == parts[0]);
        assert(join(parts.drop_last(), " | "@) == parts[0]);
        assert(join(parts.drop_last(), " – "@) == parts[0]);
        assert(parts.last() == parts[1]);
        assert(v == parts[0] + " | "@ + parts[1]);
        assert(join(parts, " – "@) == parts[0] + " – "@ + parts[1]);
        lemma_replace_one_bar(parts[0], parts[1]);
        assert(v.len() > 0);
    } else {
        assert(parts.len() == 0);
    }
}

/// Formats the start and end of a period as `start – end`.
pub fn format_date_range(start: Option<&str>, end: Option<&str>) -> (r: Option<String>)
    ensures
        opt_string_view(r) == date_range(opt_str_view(start), opt_str_view(end)),
{
    let items = [start, end];
    let value = join_non_empty(&items);
    assert(items@.map_values(|o: Option<&str>| opt_str_view(o)) =~= seq![opt_str_view(start), opt_str_view(end)]);
    if value.unicode_len() == 0 {
        None
    } else {
        proof {
            reveal_strlit(" | ");
        }
        Some(str_replace(value.as_str(), " | ", " – "))
    }
}

/// `color` without one leading `#`.
pub open spec fn without_hash(s: Seq<char>) -> Seq<char> {
    if s.len() > 0 && s[0] == '#' {
        s.drop_first()
    } else {
        s
    }
}

/// Removes one leading `#` from a color.
pub fn strip_hash(color: &str) -> (r: &str)
    ensures
        r@ == without_hash(color@),
{
    let n = color.unicode_len();
    if n > 0 && color.get_char(0) == '#' {
        let r = color.substring_char(1, n);
        assert(r@ =~= color@.drop_first());
        r
    } else {
        color
    }
}

/// Hexadecimal digits.
pub open spec fn is_hex_digit(c: char) -> bool {
    ('0' <= c && c <= '9') || ('a' <= c && c <= 'f') || ('A' <= c && c <= 'F')
}

/// A color written as `#RRGGBB` (the `#` may be left out).
pub open spec fn is_hex_color_spec(s: Seq<char>) -> bool {
    let t = without_hash(s);
    t.len() == 6 && forall|i: int| 0 <= i < t.len() ==> #[trigger] is_hex_digit(t[i])
}

/// Whether a color is six hexadecimal digits, with an optional leading `#`.
pub fn is_hex_color(color: &str) -> (r: bool)
    ensures
        r == is_hex_color_spec(color@),
{
    let t = strip_hash(color);
    let n = t.unicode_len();
    if n != 6 {
        return false;
    }
    let mut i: usize = 0;
    while i < n
        invariant
            n == t@.len(),
            t@ == without_hash(color@),
            i <= n,
            forall|k: int| 0 <= k < i ==> #[trigger] is_hex_digit(t@[k]),
        decreases n - i,
    {
        let c = t.get_char(i);
        if !(('0' <= c && c <= '9') || ('a' <= c && c <= 'f') || ('A' <= c && c <= 'F')) {
            assert(!is_hex_digit(t@[i as int]));
            return false;
        }
        i = i + 1;
    }
    true
}

/// The default of flags that are on unless a document turns them off.
pub fn default_true() -> (r: bool)
    ensures
        r,
{
    true
}


/// What `url::Url::parse` gives back on `input`, seen through the parsed
/// URL's scheme: `None` when the text is not an absolute URL, else the
/// scheme of the URL.
pub uninterp spec fn url_parse_scheme(input: Seq<char>) -> Option<Seq<char>>;

/// Parses `input` with `url::Url::parse` and hands back the scheme of the
/// URL it reads (`Url::scheme`), or `None` where the parser refuses the text.
/// Trusted: the parser itself is not verified here; its outcome on a given
/// text is named by `url_parse_scheme`.
#[verifier::external_body]
fn parse_url_scheme(input: &str) -> (r: Option<String>)
    ensures
        match r {
            Some(scheme) => url_parse_scheme(input@) == Some(scheme@),
            None => url_parse_scheme(input@) is None,
        },
{
    url::Url::parse(input).ok().map(|parsed| parsed.scheme().to_string())
}

/// `s` is an absolute URL that `url::Url::parse` accepts.
pub open spec fn is_valid_url(s: Seq<char>) -> bool {
    url_parse_scheme(s) is Some
}

/// Whether `value` parses as an absolute URL.
pub fn is_url(value: &str) -> (r: bool)
    ensures
        r == is_valid_url(value@),
{
    parse_url_scheme(value).is_some()
}

/// `s` is an absolute `http` or `https` URL.
pub open spec fn is_web_url(s: Seq<char>) -> bool {
    match url_parse_scheme(s) {
        Some(scheme) => scheme == "http"@ || scheme == "https"@,
        None => false,
    }
}

/// Whether `value` is an absolute URL with the `http` or `https` scheme.
pub fn looks_like_url(value: &str) -> (r: bool)
    ensures
        r == is_web_url(value@),
{
    match parse_url_scheme(value) {
        Some(scheme) => str_eq(scheme.as_str(), "http") || str_eq(scheme.as_str(), "https"),
        None => false,
    }
}

/// The output name made of a file stem: the stem, sanitized, or `resume`
/// where nothing of it is left.
pub open spec fn output_name_for_stem(stem: Option<Seq<char>>) -> Seq<char> {
    match stem {
        Some(s) => if sanitized(s).len() > 0 {
            sanitized(s)
        } else {
            "resume"@
        },
        None => "resume"@,
    }
}

/// The output name made of a file stem.
pub fn output_name_from_stem(stem: Option<&str>) -> (r: String)
    ensures
        r@ == output_name_for_stem(opt_str_view(stem)),
{
    match stem {
        Some(s) => {
            let name = sanitize_filename(s);
            if name.unicode_len() > 0 {
                name
            } else {
                String::from_str("resume")
            }
        },
        None => String::from_str("resume"),
    }
}

/// The file stem of `path` (`Path::file_stem`), when it has one.
/// Trusted: std takes the file name (the last normal component, split on the
/// platform's separators) and gives what comes before its last `.`, or the
/// whole name where the only dot opens it or there is none. A `/` separates
/// on every platform, `\\` and a drive prefix only on Windows, so the stem is
/// stated exactly only for paths without `\\`, `:` or a leading `//`; of
/// others only that it is a non-empty piece of the path.
#[verifier::external_body]
pub(crate) fn path_file_stem(path: &str) -> (r: Option<String>)
    ensures
        is_stem_of(opt_string_view(r), path@),
{
    std::path::Path::new(path).file_stem().and_then(|stem| stem.to_str()).map(|stem| stem.to_string())
}

/// `name` is the default output name of the input file `path`: the output
/// name made of what `Path::file_stem` gives for it, a safe file stem.
pub open spec fn is_default_output_name(name: Seq<char>, path: Seq<char>) -> bool {
    &&& exists|stem: Option<Seq<char>>| is_stem_of(stem, path) && name == output_name_for_stem(stem)
    &&& is_safe_stem(name)
}

/// The default output name of an input file: its file stem, sanitized, or
/// `resume` where nothing of it is left.
pub fn derive_output_name_from_path(path: &str) -> (r: String)
    ensures
        is_default_output_name(r@, path@),
        has_plain_file_name(path@) ==> r@ == output_name_for_stem(
            Some(plain_stem(final_part(path@))),
        ),
{
    let stem = path_file_stem(path);
    let r = match &stem {
        Some(s) => output_name_from_stem(Some(s.as_str())),
        None => output_name_from_stem(None),
    };
    proof {
        let st = opt_string_view(stem);
        assert(r@ == output_name_for_stem(st));
        assert(is_stem_of(st, path@));
        lemma_output_name_is_safe(st);
    }
    r
}

/// Every output name made of a file stem is a safe file stem.
pub proof fn lemma_output_name_is_safe(stem: Option<Seq<char>>)
    ensures
        is_safe_stem(output_name_for_stem(stem)),
{
    reveal_strlit("resume");
    let word = "resume"@;
    assert(word =~= seq!['r', 'e', 's', 'u', 'm', 'e']);
    assert(is_safe_stem(word)) by {
        assert(word[0] != '.');
    }
    match stem {
        Some(s) => {
            if sanitized(s).len() > 0 {
                lemma_sanitized_is_safe(s);
            }
        },
        None => {},
    }
}


/// A sanitized file name that is not empty is a safe file stem.
pub proof fn lemma_sanitized_is_safe(s: Seq<char>)
    requires
        sanitized(s).len() > 0,
    ensures
        is_safe_stem(sanitized(s)),
{
    let mapped = s.map_values(|c: char| filename_char(c));
    let p = |c: char| is_stem_char(c);
    assert(all_chars(mapped, p)) by {
        assert forall|i: int| 0 <= i < mapped.len() implies #[trigger] p(mapped[i]) by {
            assert(mapped[i] == filename_char(s[i]));
        }
    }
    assert(all_chars(Seq::<char>::empty(), p));
    let pieces = runs(mapped, Separator::Char('-').holds());
    lemma_runs_from_chars(mapped, Separator::Char('-').holds(), Seq::empty(), p);
    assert(all_chars(seq!['-'], p));
    lemma_join_chars(pieces, seq!['-'], p);
    let r = sanitized(s);
    assert forall|i: int| 0 <= i < r.len() implies #[trigger] is_stem_char(r[i]) by {
        assert(p(r[i]));
    }
    if r == seq!['.'] || r == seq!['.', '.'] {
        assert(is_stem_char(r[0]));
    }
}


/// Lower-case ASCII letters and digits.
pub open spec fn is_lower_alnum(c: char) -> bool {
    ('a' <= c && c <= 'z') || ('0' <= c && c <= '9')
}

/// `t` is made of lower-case ASCII letters, digits and dashes, where a dash
/// neither opens nor closes it nor follows another dash.
pub open spec fn is_dashed_name(t: Seq<char>) -> bool {
    &&& forall|i: int| 0 <= i < t.len() ==> is_lower_alnum(#[trigger] t[i]) || t[i] == '-'
    &&& forall|i: int|
        0 <= i < t.len() && #[trigger] t[i] == '-' ==> 0 < i && i + 1 < t.len() && t[i + 1] != '-'
}

proof fn lemma_join_dashed(parts: Seq<Seq<char>>)
    requires
        forall|k: int| 0 <= k < parts.len() ==> (#[trigger] parts[k]).len() > 0,
        forall|k: int, i: int|
            0 <= k < parts.len() && 0 <= i < parts[k].len() ==> is_lower_alnum(#[trigger] parts[k][i]),
    ensures
        is_dashed_name(join(parts, seq!['-'])),
        parts.len() > 0 ==> join(parts, seq!['-']).len() > 0,
    decreases parts.len(),
{
    if parts.len() == 0 {
    } else if parts.len() == 1 {
        let p0 = parts[0];
        assert forall|i: int| 0 <= i < p0.len() implies is_lower_alnum(#[trigger] p0[i]) by {
            assert(is_lower_alnum(parts[0][i]));
        }
    } else {
        let init = parts.drop_last();
        let l = parts.last();
        assert forall|k: int| 0 <= k < init.len() implies (#[trigger] init[k]).len() > 0 by {
            assert(init[k] == parts[k]);
        }
        assert forall|k: int, i: int| 0 <= k < init.len() && 0 <= i < init[k].len() implies is_lower_alnum(
            #[trigger] init[k][i],
        ) by {
            assert(init[k] == parts[k]);
        }
        lemma_join_dashed(init);
        let a = join(init, seq!['-']);
        let r = a + seq!['-'] + l;
        assert(join(parts, seq!['-']) == r);
        assert forall|i: int| 0 <= i < l.len() implies is_lower_alnum(#[trigger] l[i]) by {
            assert(is_lower_alnum(parts[parts.len() - 1][i]));
        }
        assert(l.len() > 0);
        assert forall|i: int| 0 <= i < r.len() implies is_lower_alnum(#[trigger] r[i]) || r[i] == '-' by {
            if i < a.len() {
                assert(r[i] == a[i]);
            } else if i > a.len() {
                assert(r[i] == l[i - a.len() - 1]);
            }
        }
        assert forall|i: int| 0 <= i < r.len() && #[trigger] r[i] == '-' implies 0 < i && i + 1 < r.len()
            && r[i + 1] != '-' by {
            if i < a.len() {
                assert(r[i] == a[i]);
                assert(r[i + 1] == a[i + 1]);
            } else if i == a.len() {
                assert(r[i + 1] == l[0]);
                assert(is_lower_alnum(l[0]));
            } else {
                assert(r[i] == l[i - a.len() - 1]);
                assert(is_lower_alnum(l[i - a.len() - 1]));
            }
        }
    }
}

/// The pieces `sanitized` joins: not empty, and of lower-case letters and
/// digits only.
proof fn lemma_sanitized_pieces(s: Seq<char>)
    ensures
        ({
            let pieces = runs(s.map_values(|c: char| filename_char(c)), Separator::Char('-').holds());
            &&& sanitized(s) == join(pieces, seq!['-'])
            &&& forall|k: int| 0 <= k < pieces.len() ==> (#[trigger] pieces[k]).len() > 0
            &&& forall|k: int, i: int|
                0 <= k < pieces.len() && 0 <= i < pieces[k].len() ==> is_lower_alnum(
                    #[trigger] pieces[k][i],
                ) && pieces[k][i] != '-'
        }),
{
    let mapped = s.map_values(|c: char| filename_char(c));
    let is_sep = Separator::Char('-').holds();
    let p = |c: char| is_lower_alnum(c);
    assert forall|i: int| 0 <= i < mapped.len() implies is_sep(#[trigger] mapped[i]) || p(mapped[i]) by {
        assert(mapped[i] == filename_char(s[i]));
    }
    lemma_runs_from_pieces(mapped, is_sep, Seq::empty(), p);
}

/// Sanitizing keeps only lower-case ASCII letters, digits and single dashes
/// between them, and a sanitized name is left as it is by sanitizing again.
pub proof fn lemma_sanitize_idempotent(s: Seq<char>)
    ensures
        is_dashed_name(sanitized(s)),
        sanitized(sanitized(s)) == sanitized(s),
{
    lemma_sanitized_pieces(s);
    let pieces = runs(s.map_values(|c: char| filename_char(c)), Separator::Char('-').holds());
    lemma_join_dashed(pieces);
    let t = sanitized(s);
    let mapped = t.map_values(|c: char| filename_char(c));
    assert(mapped =~= t) by {
        assert forall|i: int| 0 <= i < t.len() implies mapped[i] == t[i] by {
            assert(is_lower_alnum(t[i]) || t[i] == '-');
        }
    }
    lemma_runs_of_join(pieces, '-');
    assert(Separator::Char('-').holds() =~= (|c: char| c == '-'));
    assert(runs(t, Separator::Char('-').holds()) == pieces);
}

/// A safe file stem names one entry of the directory it is joined to: it
/// holds no path separator and no dot, so it is neither `.`, `..` nor a
/// path into another directory.
pub proof fn lemma_safe_stem_stays_in_place(s: Seq<char>)
    requires
        is_safe_stem(s),
    ensures
        !s.contains('/'),
        !s.contains('\\'),
        !s.contains('.'),
        s.len() > 0,
{
    if s.contains('/') {
        let i = choose|i: int| 0 <= i < s.len() && s[i] == '/';
        assert(is_stem_char(s[i]));
    }
    if s.contains('\\') {
        let i = choose|i: int| 0 <= i < s.len() && s[i] == '\\';
        assert(is_stem_char(s[i]));
    }
    if s.contains('.') {
        let i = choose|i: int| 0 <= i < s.len() && s[i] == '.';
        assert(is_stem_char(s[i]));
    }
}

} // verus!
