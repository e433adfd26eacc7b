//! Character and string helpers with their mathematical meaning.

use vstd::prelude::*;

verus! {

/// The Unicode `White_Space` property, which `char::is_whitespace` and
/// `str::trim` follow.
pub open spec fn is_space(c: char) -> bool {
    ||| ('\u{9}' <= c && c <= '\u{d}')
    ||| c == ' '
    ||| c == '\u{85}'
    ||| c == '\u{a0}'
    ||| c == '\u{1680}'
    ||| ('\u{2000}' <= c && c <= '\u{200a}')
    ||| c == '\u{2028}'
    ||| c == '\u{2029}'
    ||| c == '\u{202f}'
    ||| c == '\u{205f}'
    ||| c == '\u{3000}'
}

/// Whether `c` is white space.
pub fn char_is_space(c: char) -> (r: bool)
    ensures
        r == is_space(c),
{
    ('\u{9}' <= c && c <= '\u{d}') || c == ' ' || c == '\u{85}' || c == '\u{a0}' || c
        == '\u{1680}' || ('\u{2000}' <= c && c <= '\u{200a}') || c == '\u{2028}' || c == '\u{2029}'
        || c == '\u{202f}' || c == '\u{205f}' || c == '\u{3000}'
}

/// ASCII upper-case letters mapped to lower case, every other character kept.
pub open spec fn ascii_lower(c: char) -> char {
    if 'A' <= c && c <= 'Z' {
        ((c as u32) + 32) as char
    } else {
        c
    }
}

pub fn char_ascii_lower(c: char) -> (r: char)
    ensures
        r == ascii_lower(c),
{
    if 'A' <= c && c <= 'Z' {
        let b: u8 = (c as u8) + 32;
        b as char
    } else {
        c
    }
}

/// Appends one character to a string (`String::push`).
#[verifier::external_body]
pub(crate) fn push_char(s: &mut String, c: char)
    ensures
        final(s)@ == old(s)@.push(c),
{
    s.push(c)
}


/// `s` holds only white space (the empty string included).
pub open spec fn is_blank(s: Seq<char>) -> bool {
    forall|i: int| 0 <= i < s.len() ==> #[trigger] is_space(s[i])
}

/// `s` with its leading white space removed.
pub open spec fn trim_start(s: Seq<char>) -> Seq<char>
    decreases s.len(),
{
    if s.len() > 0 && is_space(s[0]) {
        trim_start(s.drop_first())
    } else {
        s
    }
}

/// `s` with its trailing white space removed.
pub open spec fn trim_end(s: Seq<char>) -> Seq<char>
    decreases s.len(),
{
    if s.len() > 0 && is_space(s.last()) {
        trim_end(s.drop_last())
    } else {
        s
    }
}

/// `s` with white space removed at both ends (`str::trim`).
pub open spec fn trim(s: Seq<char>) -> Seq<char> {
    trim_end(trim_start(s))
}

proof fn lemma_trim_start_at(s: Seq<char>, i: int)
    requires
        0 <= i <= s.len(),
        forall|k: int| 0 <= k < i ==> #[trigger] is_space(s[k]),
        i == s.len() || !is_space(s[i]),
    ensures
        trim_start(s) == s.subrange(i, s.len() as int),
    decreases i,
{
    if i == 0 {
        assert(s.subrange(0, s.len() as int) =~= s);
    } else {
        let t = s.drop_first();
        assert forall|k: int| 0 <= k < i - 1 implies #[trigger] is_space(t[k]) by {
            assert(t[k] == s[k + 1]);
        }
        lemma_trim_start_at(t, i - 1);
        assert(t.subrange(i - 1, t.len() as int) =~= s.subrange(i, s.len() as int));
    }
}

proof fn lemma_trim_end_at(s: Seq<char>, j: int)
    requires
        0 <= j <= s.len(),
        forall|k: int| j <= k < s.len() ==> #[trigger] is_space(s[k]),
        j == 0 || !is_space(s[j - 1]),
    ensures
        trim_end(s) == s.subrange(0, j),
    decreases s.len() - j,
{
    if j == s.len() {
        assert(s.subrange(0, j) =~= s);
    } else {
        let t = s.drop_last();
        assert forall|k: int| j <= k < t.len() implies #[trigger] is_space(t[k]) by {
            assert(t[k] == s[k]);
        }
        lemma_trim_end_at(t, j);
        assert(t.subrange(0, j) =~= s.subrange(0, j));
    }
}

/// Whether `s` holds only white space.
pub fn str_is_blank(s: &str) -> (r: bool)
    ensures
        r == is_blank(s@),
{
    let n = s.unicode_len();
    let mut i: usize = 0;
    while i < n
        invariant
            n == s@.len(),
            i <= n,
            forall|k: int| 0 <= k < i ==> #[trigger] is_space(s@[k]),
        decreases n - i,
    {
        if !char_is_space(s.get_char(i)) {
            return false;
        }
        i = i + 1;
    }
    true
}

/// Whether `c` occurs in `s`.
pub fn str_contains_char(s: &str, c: char) -> (r: bool)
    ensures
        r == s@.contains(c),
{
    let n = s.unicode_len();
    let mut i: usize = 0;
    while i < n
        invariant
            n == s@.len(),
            i <= n,
            forall|k: int| 0 <= k < i ==> s@[k] != c,
        decreases n - i,
    {
        if s.get_char(i) == c {
            assert(s@[i as int] == c);
            return true;
        }
        i = i + 1;
    }
    false
}

/// Whether the two strings hold the same characters.
pub fn str_eq(a: &str, b: &str) -> (r: bool)
    ensures
        r == (a@ == b@),
{
    let n = a.unicode_len();
    if n != b.unicode_len() {
        return false;
    }
    let mut i: usize = 0;
    while i < n
        invariant
            n == a@.len(),
            n == b@.len(),
            i <= n,
            forall|k: int| 0 <= k < i ==> a@[k] == b@[k],
        decreases n - i,
    {
        if a.get_char(i) != b.get_char(i) {
            return false;
        }
        i = i + 1;
    }
    assert(a@ =~= b@);
    true
}

/// `s` with white space removed at both ends.
pub fn str_trim(s: &str) -> (r: &str)
    ensures
        r@ == trim(s@),
{
    let n = s.unicode_len();
    let mut i: usize = 0;
    while i < n && char_is_space(s.get_char(i))
        invariant
            n == s@.len(),
            i <= n,
            forall|k: int| 0 <= k < i ==> #[trigger] is_space(s@[k]),
        decreases n - i,
    {
        i = i + 1;
    }
    proof {
        lemma_trim_start_at(s@, i as int);
    }
    let mut j: usize = n;
    while j > i && char_is_space(s.get_char(j - 1))
        invariant
            n == s@.len(),
            i <= j <= n,
            forall|k: int| j <= k < n ==> #[trigger] is_space(s@[k]),
        decreases j,
    {
        j = j - 1;
    }
    proof {
        let t = s@.subrange(i as int, n as int);
        assert forall|k: int| j - i <= k < t.len() implies #[trigger] is_space(t[k]) by {
            assert(t[k] == s@[k + i]);
        }
        if j > i {
            assert(t[j - i - 1] == s@[j - 1]);
        }
        lemma_trim_end_at(t, j - i);
        assert(t.subrange(0, j - i) =~= s@.subrange(i as int, j as int));
    }
    s.substring_char(i, j)
}


/// The character of decimal digit `d`.
pub open spec fn digit_char(d: nat) -> char {
    (48 + d) as char
}

/// The decimal numeral of `n`, without leading zeros.
pub open spec fn decimal(n: nat) -> Seq<char>
    decreases n,
{
    if n < 10 {
        seq![digit_char(n)]
    } else {
        decimal(n / 10).push(digit_char(n % 10))
    }
}

/// Appends the decimal numeral of `n` to `s`.
pub fn push_decimal(s: &mut String, n: usize)
    ensures
        final(s)@ == old(s)@ + decimal(n as nat),
    decreases n,
{
    if n >= 10 {
        push_decimal(s, n / 10);
    }
    let d: u8 = (n % 10) as u8;
    let c: char = (48u8 + d) as char;
    push_char(s, c);
    proof {
        if n >= 10 {
            assert(decimal(n as nat) == decimal((n / 10) as nat).push(digit_char((n % 10) as nat)));
        } else {
            assert(decimal(n as nat) =~= seq![digit_char(n as nat)]);
        }
    }
}

/// The views of a sequence of strings.
pub open spec fn views(v: Seq<String>) -> Seq<Seq<char>> {
    v.map_values(|s: String| s@)
}

/// The parts joined with `sep` between each two of them.
pub open spec fn join(parts: Seq<Seq<char>>, sep: Seq<char>) -> Seq<char>
    decreases parts.len(),
{
    if parts.len() == 0 {
        Seq::empty()
    } else if parts.len() == 1 {
        parts[0]
    } else {
        join(parts.drop_last(), sep) + sep + parts.last()
    }
}

/// The strings of `parts` joined with `sep` between each two of them.
pub fn join_strings(parts: &Vec<String>, sep: &str) -> (r: String)
    ensures
        r@ == join(views(parts@), sep@),
{
    let mut r = String::new();
    let ghost all = views(parts@);
    let mut i: usize = 0;
    while i < parts.len()
        invariant
            i <= parts.len(),
            all == views(parts@),
            r@ == join(all.take(i as int), sep@),
        decreases parts.len() - i,
    {
        proof {
            assert(all.take(i + 1).drop_last() =~= all.take(i as int));
        }
        if i == 0 {
            assert(all.take(1) =~= seq![parts@[0]@]);
        } else {
            r.append(sep);
        }
        r.append(parts[i].as_str());
        i = i + 1;
    }
    assert(all.take(parts.len() as int) =~= all);
    r
}

/// The maximal runs of characters of `s` that are not separators, where
/// `cur` is a run already begun.
pub open spec fn runs_from(s: Seq<char>, is_sep: spec_fn(char) -> bool, cur: Seq<char>) -> Seq<Seq<char>>
    decreases s.len(),
{
    if s.len() == 0 {
        if cur.len() > 0 { seq![cur] } else { Seq::empty() }
    } else if is_sep(s[0]) {
        (if cur.len() > 0 { seq![cur] } else { Seq::empty() }) + runs_from(s.drop_first(), is_sep, Seq::empty())
    } else {
        runs_from(s.drop_first(), is_sep, cur.push(s[0]))
    }
}

/// The maximal runs of characters of `s` that are not separators
/// (`str::split` followed by dropping the empty pieces).
pub open spec fn runs(s: Seq<char>, is_sep: spec_fn(char) -> bool) -> Seq<Seq<char>> {
    runs_from(s, is_sep, Seq::empty())
}

/// What separates the pieces of a string.
pub enum Separator {
    /// Any white space character.
    Space,
    /// The given character.
    Char(char),
}

impl Separator {
    pub open spec fn holds(self) -> spec_fn(char) -> bool {
        match self {
            Separator::Space => |c: char| is_space(c),
            Separator::Char(d) => |c: char| c == d,
        }
    }

    fn is_sep(&self, c: char) -> (r: bool)
        ensures
            r == (self.holds())(c),
    {
        match self {
            Separator::Space => char_is_space(c),
            Separator::Char(d) => c == *d,
        }
    }
}

/// The non-empty pieces of `s` between separators; with `Separator::Space`
/// this is `str::split_whitespace`.
pub fn split_runs(s: &str, sep: Separator) -> (r: Vec<String>)
    ensures
        views(r@) == runs(s@, sep.holds()),
{
    let n = s.unicode_len();
    let mut out: Vec<String> = Vec::new();
    let mut cur = String::new();
    let mut i: usize = 0;
    let ghost f = sep.holds();
    proof {
        assert(s@.subrange(0, n as int) =~= s@);
        assert(views(out@) =~= Seq::<Seq<char>>::empty());
        assert(views(out@) + runs(s@, f) =~= runs(s@, f));
    }
    while i < n
        invariant
            n == s@.len(),
            i <= n,
            f == sep.holds(),
            runs(s@, f) == views(out@) + runs_from(s@.subrange(i as int, n as int), f, cur@),
        decreases n - i,
    {
        let c = s.get_char(i);
        let ghost rest = s@.subrange(i as int, n as int);
        proof {
            assert(rest.drop_first() =~= s@.subrange(i + 1, n as int));
            assert(rest[0] == c);
        }
        let ghost next = rest.drop_first();
        if sep.is_sep(c) {
            if cur.unicode_len() > 0 {
                let ghost before = views(out@);
                assert(runs_from(rest, f, cur@) == seq![cur@] + runs_from(next, f, Seq::empty()));
                let piece = cur;
                out.push(piece);
                cur = String::new();
                proof {
                    assert(views(out@) =~= before + seq![piece@]);
                    assert(views(out@) + runs_from(next, f, cur@) =~= before + (seq![piece@]
                        + runs_from(next, f, Seq::empty())));
                }
            } else {
                assert(runs_from(rest, f, cur@) == Seq::<Seq<char>>::empty() + runs_from(
                    next,
                    f,
                    Seq::empty(),
                ));
                assert(cur@ =~= Seq::<char>::empty());
                assert(Seq::<Seq<char>>::empty() + runs_from(next, f, Seq::empty()) =~= runs_from(
                    next,
                    f,
                    Seq::empty(),
                ));
            }
        } else {
            assert(runs_from(rest, f, cur@) == runs_from(next, f, cur@.push(c)));
            push_char(&mut cur, c);
        }
        i = i + 1;
    }
    if cur.unicode_len() > 0 {
        let ghost before = views(out@);
        let piece = cur;
        out.push(piece);
        proof {
            assert(views(out@) =~= before + seq![piece@]);
        }
    } else {
        assert(views(out@) =~= views(out@) + Seq::<Seq<char>>::empty());
    }
    out
}

/// `s` with each occurrence of `pat`, scanned from the left without
/// overlap, put in place by `rep` (`str::replace`).
pub open spec fn replace_all(s: Seq<char>, pat: Seq<char>, rep: Seq<char>) -> Seq<char>
    recommends
        pat.len() > 0,
    decreases s.len(),
{
    if s.len() == 0 || pat.len() == 0 {
        s
    } else if pat.len() <= s.len() && s.subrange(0, pat.len() as int) == pat {
        rep + replace_all(s.subrange(pat.len() as int, s.len() as int), pat, rep)
    } else {
        seq![s[0]] + replace_all(s.drop_first(), pat, rep)
    }
}


/// Whether `pat` occurs in `s` starting at character `i`.
fn occurs_at(s: &str, n: usize, i: usize, pat: &str, m: usize) -> (r: bool)
    requires
        n == s@.len(),
        m == pat@.len(),
        i <= n,
    ensures
        r == (m <= n - i && s@.subrange(i as int, i + m) == pat@),
{
    if m > n - i {
        return false;
    }
    let mut k: usize = 0;
    while k < m
        invariant
            n == s@.len(),
            m == pat@.len(),
            i + m <= n,
            k <= m,
            forall|j: int| 0 <= j < k ==> s@[i + j] == pat@[j],
        decreases m - k,
    {
        if s.get_char(i + k) != pat.get_char(k) {
            assert(s@.subrange(i as int, i + m)[k as int] != pat@[k as int]);
            return false;
        }
        k = k + 1;
    }
    assert(s@.subrange(i as int, i + m) =~= pat@);
    true
}

/// `s` with every occurrence of `pat` replaced by `rep`.
pub fn str_replace(s: &str, pat: &str, rep: &str) -> (r: String)
    requires
        pat@.len() > 0,
    ensures
        r@ == replace_all(s@, pat@, rep@),
{
    let n = s.unicode_len();
    let m = pat.unicode_len();
    let mut out = String::new();
    let mut i: usize = 0;
    proof {
        assert(s@.subrange(0, n as int) =~= s@);
    }
    while i < n
        invariant
            n == s@.len(),
            m == pat@.len(),
            m > 0,
            i <= n,
            replace_all(s@, pat@, rep@) == out@ + replace_all(
                s@.subrange(i as int, n as int),
                pat@,
                rep@,
            ),
        decreases n - i,
    {
        let ghost rest = s@.subrange(i as int, n as int);
        let ghost before = out@;
        if occurs_at(s, n, i, pat, m) {
            proof {
                assert(rest.subrange(0, m as int) =~= s@.subrange(i as int, i + m));
                assert(rest.subrange(m as int, rest.len() as int) =~= s@.subrange(
                    i + m,
                    n as int,
                ));
            }
            out.append(rep);
            i = i + m;
            proof {
                assert(before + (rep@ + replace_all(s@.subrange(i as int, n as int), pat@, rep@))
                    =~= out@ + replace_all(s@.subrange(i as int, n as int), pat@, rep@));
            }
        } else {
            let c = s.get_char(i);
            proof {
                if m <= rest.len() {
                    assert(rest.subrange(0, m as int) =~= s@.subrange(i as int, i + m));
                }
                assert(rest.drop_first() =~= s@.subrange(i + 1, n as int));
                assert(rest[0] == c);
            }
            push_char(&mut out, c);
            i = i + 1;
            proof {
                assert(before + (seq![c] + replace_all(s@.subrange(i as int, n as int), pat@, rep@))
                    =~= out@ + replace_all(s@.subrange(i as int, n as int), pat@, rep@));
            }
        }
    }
    proof {
        assert(s@.subrange(n as int, n as int) =~= Seq::<char>::empty());
        assert(out@ + Seq::<char>::empty() =~= out@);
    }
    out
}


/// Every character of `s` has property `p`.
pub open spec fn all_chars(s: Seq<char>, p: spec_fn(char) -> bool) -> bool {
    forall|i: int| 0 <= i < s.len() ==> #[trigger] p(s[i])
}

/// The pieces of a split hold only characters of the text split.
pub proof fn lemma_runs_from_chars(
    s: Seq<char>,
    is_sep: spec_fn(char) -> bool,
    cur: Seq<char>,
    p: spec_fn(char) -> bool,
)
    requires
        all_chars(s, p),
        all_chars(cur, p),
    ensures
        forall|k: int|
            0 <= k < runs_from(s, is_sep, cur).len() ==> all_chars(
                #[trigger] runs_from(s, is_sep, cur)[k],
                p,
            ),
    decreases s.len(),
{
    if s.len() == 0 {
        if cur.len() > 0 {
            assert(runs_from(s, is_sep, cur) =~= seq![cur]);
            assert(runs_from(s, is_sep, cur)[0] == cur);
        } else {
            assert(runs_from(s, is_sep, cur).len() == 0);
        }
    } else {
        let t = s.drop_first();
        assert(all_chars(t, p)) by {
            assert forall|i: int| 0 <= i < t.len() implies #[trigger] p(t[i]) by {
                assert(t[i] == s[i + 1]);
            }
        }
        if is_sep(s[0]) {
            lemma_runs_from_chars(t, is_sep, Seq::empty(), p);
            let head: Seq<Seq<char>> = if cur.len() > 0 { seq![cur] } else { Seq::empty() };
            let tail = runs_from(t, is_sep, Seq::empty());
            assert(runs_from(s, is_sep, cur) == head + tail);
            assert forall|k: int| 0 <= k < (head + tail).len() implies all_chars(
                #[trigger] (head + tail)[k],
                p,
            ) by {
                if k < head.len() {
                    assert((head + tail)[k] == cur);
                } else {
                    assert((head + tail)[k] == tail[k - head.len()]);
                }
            }
        } else {
            let c2 = cur.push(s[0]);
            assert(all_chars(c2, p)) by {
                assert forall|i: int| 0 <= i < c2.len() implies #[trigger] p(c2[i]) by {
                    if i < cur.len() {
                        assert(c2[i] == cur[i]);
                    }
                }
            }
            lemma_runs_from_chars(t, is_sep, c2, p);
            assert(runs_from(s, is_sep, cur) == runs_from(t, is_sep, c2));
        }
    }
}

/// Joined parts hold only characters of the parts and of the separator.
pub proof fn lemma_join_chars(parts: Seq<Seq<char>>, sep: Seq<char>, p: spec_fn(char) -> bool)
    requires
        forall|k: int| 0 <= k < parts.len() ==> all_chars(#[trigger] parts[k], p),
        all_chars(sep, p),
    ensures
        all_chars(join(parts, sep), p),
    decreases parts.len(),
{
    if parts.len() == 0 {
    } else if parts.len() == 1 {
        assert(all_chars(parts[0], p));
    } else {
        let init = parts.drop_last();
        assert forall|k: int| 0 <= k < init.len() implies all_chars(#[trigger] init[k], p) by {
            assert(init[k] == parts[k]);
        }
        lemma_join_chars(init, sep, p);
        let a = join(init, sep);
        let l = parts.last();
        assert(all_chars(l, p));
        assert forall|i: int| 0 <= i < (a + sep + l).len() implies #[trigger] p((a + sep + l)[i]) by {
            if i < a.len() {
                assert((a + sep + l)[i] == a[i]);
            } else if i < a.len() + sep.len() {
                assert((a + sep + l)[i] == sep[i - a.len()]);
            } else {
                assert((a + sep + l)[i] == l[i - a.len() - sep.len()]);
            }
        }
    }
}


/// The text of an optional string.
pub open spec fn opt_string_view(o: Option<String>) -> Option<Seq<char>> {
    match o {
        Some(s) => Some(s@),
        None => None,
    }
}

/// The text of an optional string slice.
pub open spec fn opt_str_view(o: Option<&str>) -> Option<Seq<char>> {
    match o {
        Some(s) => Some(s@),
        None => None,
    }
}

/// Borrows the text of an optional string (`Option::as_deref`).
pub fn as_opt_str(o: &Option<String>) -> (r: Option<&str>)
    ensures
        opt_str_view(r) == opt_string_view(*o),
{
    match o {
        Some(s) => Some(s.as_str()),
        None => None,
    }
}


/// `a` comes before `b` in the lexicographic order of code points, which is
/// the order of `str`'s comparison.
pub open spec fn text_lt(a: Seq<char>, b: Seq<char>) -> bool
    decreases a.len(),
{
    if a.len() == 0 {
        b.len() > 0
    } else if b.len() == 0 {
        false
    } else if a[0] != b[0] {
        a[0] < b[0]
    } else {
        text_lt(a.drop_first(), b.drop_first())
    }
}

/// No text comes before itself.
pub proof fn lemma_text_lt_irreflexive(a: Seq<char>)
    ensures
        !text_lt(a, a),
    decreases a.len(),
{
    if a.len() > 0 {
        lemma_text_lt_irreflexive(a.drop_first());
    }
}

/// Of two different texts, one comes before the other.
pub proof fn lemma_text_lt_total(a: Seq<char>, b: Seq<char>)
    requires
        a != b,
    ensures
        text_lt(a, b) || text_lt(b, a),
    decreases a.len(),
{
    if a.len() == 0 {
        if b.len() == 0 {
            assert(a =~= b);
        }
    } else if b.len() == 0 {
    } else if a[0] != b[0] {
    } else {
        if a.drop_first() == b.drop_first() {
            assert(a =~= seq![a[0]] + a.drop_first());
            assert(b =~= seq![b[0]] + b.drop_first());
        }
        lemma_text_lt_total(a.drop_first(), b.drop_first());
    }
}

/// The order of texts is transitive.
pub proof fn lemma_text_lt_transitive(a: Seq<char>, b: Seq<char>, c: Seq<char>)
    requires
        text_lt(a, b),
        text_lt(b, c),
    ensures
        text_lt(a, c),
    decreases a.len(),
{
    if a.len() > 0 && b.len() > 0 && c.len() > 0 && a[0] == b[0] && b[0] == c[0] {
        lemma_text_lt_transitive(a.drop_first(), b.drop_first(), c.drop_first());
    }
}

/// Whether `a` comes before `b` in the order of code points.
pub fn str_lt(a: &str, b: &str) -> (r: bool)
    ensures
        r == text_lt(a@, b@),
{
    let n = a.unicode_len();
    let m = b.unicode_len();
    let mut i: usize = 0;
    assert(a@.skip(0) =~= a@);
    assert(b@.skip(0) =~= b@);
    while i < n && i < m
        invariant
            n == a@.len(),
            m == b@.len(),
            i <= n,
            i <= m,
            text_lt(a@, b@) == text_lt(a@.skip(i as int), b@.skip(i as int)),
        decreases n - i,
    {
        let x = a.get_char(i);
        let y = b.get_char(i);
        assert(a@.skip(i as int)[0] == x);
        assert(b@.skip(i as int)[0] == y);
        if x != y {
            return x < y;
        }
        assert(a@.skip(i as int).drop_first() =~= a@.skip(i + 1));
        assert(b@.skip(i as int).drop_first() =~= b@.skip(i + 1));
        i = i + 1;
    }
    i == n && i < m
}

/// The pieces of a split are not empty and hold no separator; where every
/// character of the text is a separator or meets `p`, every character of a
/// piece meets `p`.
pub proof fn lemma_runs_from_pieces(
    s: Seq<char>,
    is_sep: spec_fn(char) -> bool,
    cur: Seq<char>,
    p: spec_fn(char) -> bool,
)
    requires
        forall|i: int| 0 <= i < s.len() ==> is_sep(#[trigger] s[i]) || p(s[i]),
        forall|i: int| 0 <= i < cur.len() ==> !is_sep(#[trigger] cur[i]) && p(cur[i]),
    ensures
        forall|k: int|
            0 <= k < runs_from(s, is_sep, cur).len() ==> (#[trigger] runs_from(s, is_sep, cur)[k]).len()
                > 0,
        forall|k: int, i: int|
            0 <= k < runs_from(s, is_sep, cur).len() && 0 <= i < runs_from(s, is_sep, cur)[k].len()
                ==> !is_sep(#[trigger] runs_from(s, is_sep, cur)[k][i]) && p(
                runs_from(s, is_sep, cur)[k][i],
            ),
    decreases s.len(),
{
    let head: Seq<Seq<char>> = if cur.len() > 0 { seq![cur] } else { Seq::empty() };
    if s.len() == 0 {
        assert(runs_from(s, is_sep, cur) == head);
    } else {
        let t = s.drop_first();
        assert forall|i: int| 0 <= i < t.len() implies is_sep(#[trigger] t[i]) || p(t[i]) by {
            assert(t[i] == s[i + 1]);
        }
        if is_sep(s[0]) {
            lemma_runs_from_pieces(t, is_sep, Seq::empty(), p);
            let tail = runs_from(t, is_sep, Seq::empty());
            assert(runs_from(s, is_sep, cur) == head + tail);
            assert forall|k: int| 0 <= k < (head + tail).len() implies (#[trigger] (head + tail)[k]).len() > 0 by {
                if k >= head.len() {
                    assert((head + tail)[k] == tail[k - head.len()]);
                }
            }
            assert forall|k: int, i: int|
                0 <= k < (head + tail).len() && 0 <= i < (head + tail)[k].len() implies !is_sep(
                #[trigger] (head + tail)[k][i],
            ) && p((head + tail)[k][i]) by {
                if k < head.len() {
                    assert((head + tail)[k] == cur);
                } else {
                    assert((head + tail)[k] == tail[k - head.len()]);
                }
            }
        } else {
            let c2 = cur.push(s[0]);
            assert forall|i: int| 0 <= i < c2.len() implies !is_sep(#[trigger] c2[i]) && p(c2[i]) by {
                if i < cur.len() {
                    assert(c2[i] == cur[i]);
                }
            }
            lemma_runs_from_pieces(t, is_sep, c2, p);
            assert(runs_from(s, is_sep, cur) == runs_from(t, is_sep, c2));
        }
    }
}

/// A run of non-separators is gathered whole.
proof fn lemma_runs_from_plain(x: Seq<char>, is_sep: spec_fn(char) -> bool, cur: Seq<char>)
    requires
        forall|i: int| 0 <= i < x.len() ==> !is_sep(#[trigger] x[i]),
    ensures
        runs_from(x, is_sep, cur) == (if (cur + x).len() > 0 {
            seq![cur + x]
        } else {
            Seq::<Seq<char>>::empty()
        }),
    decreases x.len(),
{
    if x.len() == 0 {
        assert(cur + x =~= cur);
    } else {
        let t = x.drop_first();
        assert forall|i: int| 0 <= i < t.len() implies !is_sep(#[trigger] t[i]) by {
            assert(t[i] == x[i + 1]);
        }
        lemma_runs_from_plain(t, is_sep, cur.push(x[0]));
        assert(cur.push(x[0]) + t =~= cur + x);
    }
}

/// A separator ends the run before it: splitting `x`, a separator, then
/// `y` gives the pieces of `x` followed by those of `y`.
proof fn lemma_runs_from_split(
    x: Seq<char>,
    d: char,
    y: Seq<char>,
    is_sep: spec_fn(char) -> bool,
    cur: Seq<char>,
)
    requires
        is_sep(d),
    ensures
        runs_from(x + seq![d] + y, is_sep, cur) == runs_from(x, is_sep, cur) + runs_from(
            y,
            is_sep,
            Seq::empty(),
        ),
    decreases x.len(),
{
    let whole = x + seq![d] + y;
    let head: Seq<Seq<char>> = if cur.len() > 0 { seq![cur] } else { Seq::empty() };
    if x.len() == 0 {
        assert(whole[0] == d);
        assert(whole.drop_first() =~= y);
        assert(runs_from(x, is_sep, cur) == head);
    } else {
        let t = x.drop_first();
        assert(whole[0] == x[0]);
        assert(whole.drop_first() =~= t + seq![d] + y);
        if is_sep(x[0]) {
            lemma_runs_from_split(t, d, y, is_sep, Seq::empty());
            assert(head + (runs_from(t, is_sep, Seq::empty()) + runs_from(y, is_sep, Seq::empty()))
                =~= (head + runs_from(t, is_sep, Seq::empty())) + runs_from(y, is_sep, Seq::empty()));
        } else {
            lemma_runs_from_split(t, d, y, is_sep, cur.push(x[0]));
        }
    }
}

/// Splitting at `d` the join with `d` of non-empty pieces free of `d`
/// gives the pieces back.
pub proof fn lemma_runs_of_join(parts: Seq<Seq<char>>, d: char)
    requires
        forall|k: int| 0 <= k < parts.len() ==> (#[trigger] parts[k]).len() > 0,
        forall|k: int, i: int| 0 <= k < parts.len() && 0 <= i < parts[k].len() ==> #[trigger] parts[k][i] != d,
    ensures
        runs(join(parts, seq![d]), |c: char| c == d) == parts,
    decreases parts.len(),
{
    let is_sep = |c: char| c == d;
    if parts.len() == 0 {
        assert(runs(join(parts, seq![d]), is_sep) =~= parts);
    } else if parts.len() == 1 {
        let p0 = parts[0];
        assert forall|i: int| 0 <= i < p0.len() implies !is_sep(#[trigger] p0[i]) by {
            assert(parts[0][i] != d);
        }
        lemma_runs_from_plain(p0, is_sep, Seq::empty());
        assert(Seq::<char>::empty() + p0 =~= p0);
        assert(runs(join(parts, seq![d]), is_sep) =~= parts);
    } else {
        let init = parts.drop_last();
        let l = parts.last();
        assert forall|k: int| 0 <= k < init.len() implies (#[trigger] init[k]).len() > 0 by {
            assert(init[k] == parts[k]);
        }
        assert forall|k: int, i: int| 0 <= k < init.len() && 0 <= i < init[k].len() implies #[trigger] init[k][i] != d by {
            assert(init[k] == parts[k]);
        }
        lemma_runs_of_join(init, d);
        assert(is_sep(d));
        lemma_runs_from_split(join(init, seq![d]), d, l, is_sep, Seq::empty());
        assert(join(parts, seq![d]) == join(init, seq![d]) + seq![d] + l);
        assert forall|i: int| 0 <= i < l.len() implies !is_sep(#[trigger] l[i]) by {
            assert(parts[parts.len() - 1][i] != d);
        }
        lemma_runs_from_plain(l, is_sep, Seq::empty());
        assert(Seq::<char>::empty() + l =~= l);
        assert(runs(join(parts, seq![d]), is_sep) =~= init + seq![l]);
        assert(init + seq![l] =~= parts);
    }
}

} // verus!
