//! The built-in themes, reading and checking a theme document, and the
//! list of available themes.

use vstd::prelude::*;

use crate::error::{issue_views, AppError};
use crate::model::theme::{theme_issues, Theme, MIN_BASE_SIZE_CPT};
use crate::util::{is_hex_color_spec, is_safe_stem};
use crate::text::{
    join, join_strings, lemma_text_lt_irreflexive, lemma_text_lt_total, lemma_text_lt_transitive,
    str_eq, str_lt, text_lt, views,
};

verus! {

/// The built-in `classic` theme: a traditional single-column layout.
pub const CLASSIC_THEME: &'static str = "schema_version: 1\nname: classic\ndescription: Traditional single-column ATS-safe layout\nats_safe: true\npalette:\n  primary: \"#1F2933\"\n  secondary: \"#3E4C59\"\n  accent: \"#52606D\"\n  text: \"#1F2933\"\n  muted: \"#7B8794\"\ntypography:\n  font_family: Helvetica\n  base_size_pt: 11.0\n  heading_size_pt: 14.0\nspacing:\n  section_gap_pt: 12.0\n  item_gap_pt: 6.0\n  page_margin_pt: 36.0\nlayout:\n  columns: 1\nsections:\n  - id: basics\n    visible: true\n  - id: summary\n    visible: true\n  - id: work\n    visible: true\n  - id: education\n    visible: true\n  - id: skills\n    visible: true\n  - id: projects\n    visible: true\n  - id: certifications\n    visible: true\n  - id: languages\n    visible: true\n  - id: awards\n    visible: true\n";

/// The built-in `modern` theme: an accent color hierarchy.
pub const MODERN_THEME: &'static str = "schema_version: 1\nname: modern\ndescription: Accent color hierarchy with ATS-safe ordering\nats_safe: true\npalette:\n  primary: \"#0B3C5D\"\n  secondary: \"#1D2731\"\n  accent: \"#328CC1\"\n  text: \"#1D2731\"\n  muted: \"#6C7A89\"\ntypography:\n  font_family: Helvetica\n  base_size_pt: 10.5\n  heading_size_pt: 16.0\nspacing:\n  section_gap_pt: 14.0\n  item_gap_pt: 6.0\n  page_margin_pt: 36.0\nlayout:\n  columns: 1\nsections:\n  - id: basics\n    visible: true\n  - id: summary\n    visible: true\n  - id: work\n    visible: true\n  - id: education\n    visible: true\n  - id: skills\n    visible: true\n  - id: projects\n    visible: true\n  - id: certifications\n    visible: true\n  - id: languages\n    visible: true\n  - id: awards\n    visible: true\n";

/// The built-in `minimal` theme: compact, with reduced spacing.
pub const MINIMAL_THEME: &'static str = "schema_version: 1\nname: minimal\ndescription: Compact presentation with reduced spacing\nats_safe: true\npalette:\n  primary: \"#222222\"\n  secondary: \"#444444\"\n  accent: \"#666666\"\n  text: \"#222222\"\n  muted: \"#888888\"\ntypography:\n  font_family: Helvetica\n  base_size_pt: 10.0\n  heading_size_pt: 12.0\nspacing:\n  section_gap_pt: 8.0\n  item_gap_pt: 4.0\n  page_margin_pt: 36.0\nlayout:\n  columns: 1\nsections:\n  - id: basics\n    visible: true\n  - id: summary\n    visible: true\n  - id: work\n    visible: true\n  - id: education\n    visible: true\n  - id: skills\n    visible: true\n  - id: projects\n    visible: true\n  - id: certifications\n    visible: true\n  - id: languages\n    visible: true\n  - id: awards\n    visible: true\n";

/// The names of the built-in themes with their documents.
pub open spec fn builtin_themes() -> Seq<(Seq<char>, Seq<char>)> {
    seq![("classic"@, CLASSIC_THEME@), ("modern"@, MODERN_THEME@), ("minimal"@, MINIMAL_THEME@)]
}

/// The names and documents of the built-in themes.
pub fn builtin_theme_sources() -> (r: &'static [(&'static str, &'static str)])
    ensures
        r@.len() == 3,
        forall|i: int| 0 <= i < 3 ==> (#[trigger] r@[i].0@, r@[i].1@) == builtin_themes()[i],
{
    let r: &'static [(&'static str, &'static str)] = &[
        ("classic", CLASSIC_THEME),
        ("modern", MODERN_THEME),
        ("minimal", MINIMAL_THEME),
    ];
    r
}

/// The document of the built-in theme called `name`.
pub open spec fn builtin_source_for(name: Seq<char>) -> Option<Seq<char>> {
    if name == "classic"@ {
        Some(CLASSIC_THEME@)
    } else if name == "modern"@ {
        Some(MODERN_THEME@)
    } else if name == "minimal"@ {
        Some(MINIMAL_THEME@)
    } else {
        None
    }
}

/// The document of the built-in theme called `name`, if there is one.
pub fn builtin_theme_source(name: &str) -> (r: Option<&'static str>)
    ensures
        match r {
            Some(source) => builtin_source_for(name@) == Some(source@),
            None => builtin_source_for(name@) is None,
        },
{
    if str_eq(name, "classic") {
        Some(CLASSIC_THEME)
    } else if str_eq(name, "modern") {
        Some(MODERN_THEME)
    } else if str_eq(name, "minimal") {
        Some(MINIMAL_THEME)
    } else {
        None
    }
}

/// Looking a built-in theme up by name finds exactly the entry of the list
/// of built-in themes with that name, compared exactly (case included).
pub proof fn lemma_builtin_source_is_listed(name: Seq<char>)
    ensures
        builtin_source_for(name) is Some <==> exists|i: int|
            0 <= i < 3 && (#[trigger] builtin_themes()[i]).0 == name,
        forall|i: int|
            0 <= i < 3 && (#[trigger] builtin_themes()[i]).0 == name ==> builtin_source_for(name)
                == Some(builtin_themes()[i].1),
{
    reveal_strlit("classic");
    reveal_strlit("modern");
    reveal_strlit("minimal");
    assert("classic"@[0] != "modern"@[0]);
    assert("classic"@[0] != "minimal"@[0]);
    assert("modern"@[1] != "minimal"@[1]);
    let b = builtin_themes();
    assert(b[0].0 == "classic"@ && b[1].0 == "modern"@ && b[2].0 == "minimal"@);
}

/// The document of a new theme called `name`, ready to be edited.
pub open spec fn theme_template(name: Seq<char>) -> Seq<char> {
    "schema_version: 1\nname: "@ + name + "\ndescription: Custom resumec theme\nats_safe: true\npalette:\n  primary: \"#1F2933\"\n  secondary: \"#334E68\"\n  accent: \"#486581\"\n  text: \"#102A43\"\n  muted: \"#627D98\"\ntypography:\n  font_family: Helvetica\n  base_size_pt: 11.0\n  heading_size_pt: 14.0\nspacing:\n  section_gap_pt: 12.0\n  item_gap_pt: 6.0\nlayout:\n  columns: 1\nsections:\n  - id: basics\n    visible: true\n  - id: summary\n    visible: true\n  - id: work\n    visible: true\n  - id: education\n    visible: true\n  - id: skills\n    visible: true\n"@
}

/// The document of a new theme called `name`.
pub fn default_theme_template(name: &str) -> (r: String)
    ensures
        r@ == theme_template(name@),
{
    let mut r = String::from_str("schema_version: 1\nname: ");
    r.append(name);
    r.append("\ndescription: Custom resumec theme\nats_safe: true\npalette:\n  primary: \"#1F2933\"\n  secondary: \"#334E68\"\n  accent: \"#486581\"\n  text: \"#102A43\"\n  muted: \"#627D98\"\ntypography:\n  font_family: Helvetica\n  base_size_pt: 11.0\n  heading_size_pt: 14.0\nspacing:\n  section_gap_pt: 12.0\n  item_gap_pt: 6.0\nlayout:\n  columns: 1\nsections:\n  - id: basics\n    visible: true\n  - id: summary\n    visible: true\n  - id: work\n    visible: true\n  - id: education\n    visible: true\n  - id: skills\n    visible: true\n");
    r
}


/// An issue as one line of text: `field: message`.
pub open spec fn issue_line(i: (Seq<char>, Seq<char>)) -> Seq<char> {
    i.0 + ": "@ + i.1
}

/// What checking a theme document gives: the theme when the document was
/// read and the theme has no issue; otherwise an invalid-theme error named
/// `name_hint` with the reader's message, or with the theme's issues as
/// `field: message` separated by `; `.
pub open spec fn checked_theme(
    r: Result<Theme, AppError>,
    name_hint: Seq<char>,
    parsed: Result<Theme, String>,
) -> bool {
    match parsed {
        Err(m) => match r {
            Err(AppError::InvalidTheme { name, message }) => name@ == name_hint && message@ == m@,
            _ => false,
        },
        Ok(t) => if theme_issues(t).len() == 0 {
            r == Ok::<Theme, AppError>(t)
        } else {
            match r {
                Err(AppError::InvalidTheme { name, message }) => name@ == name_hint && message@
                    == join(theme_issues(t).map_values(|i: (Seq<char>, Seq<char>)| issue_line(i)), "; "@),
                _ => false,
            }
        },
    }
}

/// Checks a theme document named `name_hint` from its reading: the theme,
/// or the reader's error message.
pub fn parse_theme_content(name_hint: &str, parsed: Result<Theme, String>) -> (r: Result<Theme, AppError>)
    ensures
        checked_theme(r, name_hint@, parsed),
{
    match parsed {
        Err(message) => Err(AppError::InvalidTheme { name: String::from_str(name_hint), message }),
        Ok(theme) => {
            let issues = theme.validate();
            if issues.len() == 0 {
                return Ok(theme);
            }
            let ghost iv = issue_views(issues@);
            let mut lines: Vec<String> = Vec::new();
            let mut i: usize = 0;
            while i < issues.len()
                invariant
                    i <= issues.len(),
                    iv == issue_views(issues@),
                    views(lines@) == iv.take(i as int).map_values(
                        |x: (Seq<char>, Seq<char>)| issue_line(x),
                    ),
                decreases issues.len() - i,
            {
                let mut line = issues[i].field.clone();
                line.append(": ");
                line.append(issues[i].message.as_str());
                let ghost before = views(lines@);
                lines.push(line);
                proof {
                    assert(views(lines@) =~= before.push(line@));
                    assert(iv.take(i + 1).map_values(|x: (Seq<char>, Seq<char>)| issue_line(x))
                        =~= iv.take(i as int).map_values(
                        |x: (Seq<char>, Seq<char>)| issue_line(x),
                    ).push(issue_line(iv[i as int])));
                }
                i = i + 1;
            }
            assert(iv.take(issues.len() as int) =~= iv);
            Err(
                AppError::InvalidTheme {
                    name: String::from_str(name_hint),
                    message: join_strings(&lines, "; "),
                },
            )
        },
    }
}

/// Where the theme called `name` is read from.
#[derive(Debug, Clone, Copy, PartialEq, Eq)]
pub enum ThemeOrigin {
    /// The theme installed in the user's themes directory.
    Installed,
    /// The built-in theme with this document.
    BuiltIn(&'static str),
}

/// Where the theme called `name` is read from: the installed theme when
/// there is one, else the built-in theme of that name, else nowhere.
pub open spec fn theme_origin(
    r: Result<ThemeOrigin, AppError>,
    name: Seq<char>,
    installed: bool,
) -> bool {
    if installed {
        r == Ok::<ThemeOrigin, AppError>(ThemeOrigin::Installed)
    } else {
        match builtin_source_for(name) {
            Some(source) => match r {
                Ok(ThemeOrigin::BuiltIn(s)) => s@ == source,
                _ => false,
            },
            None => match r {
                Err(AppError::ThemeNotFound { name: n }) => n@ == name,
                _ => false,
            },
        }
    }
}

/// Finds where the theme called `name` is read from, given whether the
/// user's themes directory holds a theme of that name.
pub fn locate_theme(name: &str, installed: bool) -> (r: Result<ThemeOrigin, AppError>)
    ensures
        theme_origin(r, name@, installed),
{
    if installed {
        return Ok(ThemeOrigin::Installed);
    }
    match builtin_theme_source(name) {
        Some(source) => Ok(ThemeOrigin::BuiltIn(source)),
        None => Err(AppError::ThemeNotFound { name: String::from_str(name) }),
    }
}


/// A theme that can be chosen, and where it comes from: `built-in` or the
/// path of its installed document.
#[derive(Debug, Clone)]
pub struct ThemeDescriptor {
    pub name: String,
    pub source: String,
}

impl View for ThemeDescriptor {
    type V = (Seq<char>, Seq<char>);

    open spec fn view(&self) -> (Seq<char>, Seq<char>) {
        (self.name@, self.source@)
    }
}

/// The names and sources of the descriptors, in order.
pub open spec fn descriptor_views(v: Seq<ThemeDescriptor>) -> Seq<(Seq<char>, Seq<char>)> {
    v.map_values(|d: ThemeDescriptor| d@)
}

/// The built-in themes, each with source `built-in`.
pub open spec fn builtin_listing() -> Map<Seq<char>, Seq<char>> {
    Map::<Seq<char>, Seq<char>>::empty().insert("classic"@, "built-in"@).insert(
        "modern"@,
        "built-in"@,
    ).insert("minimal"@, "built-in"@)
}

/// The available themes by name: the built-in ones, then each installed
/// theme whose name is not taken yet, with the source it was found at.
pub open spec fn theme_listing(installed: Seq<(Seq<char>, Seq<char>)>) -> Map<Seq<char>, Seq<char>>
    decreases installed.len(),
{
    if installed.len() == 0 {
        builtin_listing()
    } else {
        let m = theme_listing(installed.drop_last());
        let (name, source) = installed.last();
        if m.dom().contains(name) {
            m
        } else {
            m.insert(name, source)
        }
    }
}

/// The names strictly increase along `v`.
pub open spec fn sorted_by_name(v: Seq<(Seq<char>, Seq<char>)>) -> bool {
    forall|i: int, j: int| 0 <= i < j < v.len() ==> text_lt(#[trigger] v[i].0, #[trigger] v[j].0)
}

/// `v` lists the themes of `m`, once each, in the order of their names.
pub open spec fn lists(v: Seq<(Seq<char>, Seq<char>)>, m: Map<Seq<char>, Seq<char>>) -> bool {
    &&& sorted_by_name(v)
    &&& forall|i: int|
        0 <= i < v.len() ==> m.dom().contains(#[trigger] v[i].0) && m[v[i].0] == v[i].1
    &&& forall|n: Seq<char>|
        #[trigger] m.dom().contains(n) ==> exists|i: int| 0 <= i < v.len() && v[i].0 == n
}

/// Adds a theme to a sorted listing, unless its name is taken.
fn insert_listing(out: &mut Vec<ThemeDescriptor>, d: ThemeDescriptor, Ghost(m): Ghost<Map<Seq<char>, Seq<char>>>)
    requires
        lists(descriptor_views(old(out)@), m),
    ensures
        lists(
            descriptor_views(final(out)@),
            if m.dom().contains(d.name@) {
                m
            } else {
                m.insert(d.name@, d.source@)
            },
        ),
{
    let ghost v = descriptor_views(out@);
    let ghost n = d.name@;
    let mut p: usize = 0;
    while p < out.len() && str_lt(out[p].name.as_str(), d.name.as_str())
        invariant
            p <= out.len(),
            v == descriptor_views(out@),
            n == d.name@,
            forall|i: int| 0 <= i < p ==> text_lt(#[trigger] v[i].0, n),
        decreases out.len() - p,
    {
        p = p + 1;
    }
    if p < out.len() && str_eq(out[p].name.as_str(), d.name.as_str()) {
        assert(v[p as int].0 == n);
        assert(m.dom().contains(n));
        return;
    }
    proof {
        if m.dom().contains(n) {
            let i = choose|i: int| 0 <= i < v.len() && v[i].0 == n;
            if i < p {
                lemma_text_lt_irreflexive(n);
            } else if i > p {
                assert(text_lt(v[p as int].0, v[i].0));
            }
        }
        if p < v.len() {
            lemma_text_lt_total(v[p as int].0, n);
        }
    }
    let ghost dv = d@;
    out.insert(p, d);
    proof {
        let w = descriptor_views(out@);
        let m2 = m.insert(n, dv.1);
        assert(w =~= v.insert(p as int, dv));
        assert forall|i: int, j: int| 0 <= i < j < w.len() implies text_lt(
            #[trigger] w[i].0,
            #[trigger] w[j].0,
        ) by {
            if j < p {
                assert(w[i] == v[i] && w[j] == v[j]);
            } else if j == p {
                assert(w[i] == v[i]);
            } else if i == p {
                assert(w[j] == v[j - 1]);
                if j - 1 > p {
                    assert(text_lt(v[p as int].0, v[j - 1].0));
                    lemma_text_lt_transitive(n, v[p as int].0, v[j - 1].0);
                }
            } else if i < p {
                assert(w[i] == v[i] && w[j] == v[j - 1]);
            } else {
                assert(w[i] == v[i - 1] && w[j] == v[j - 1]);
            }
        }
        assert forall|i: int| 0 <= i < w.len() implies m2.dom().contains(#[trigger] w[i].0)
            && m2[w[i].0] == w[i].1 by {
            if i < p {
                assert(w[i] == v[i]);
                lemma_text_lt_irreflexive(n);
            } else if i > p {
                assert(w[i] == v[i - 1]);
                if v[i - 1].0 == n {
                    assert(m.dom().contains(n));
                }
            }
        }
        assert forall|k: Seq<char>| #[trigger] m2.dom().contains(k) implies exists|i: int|
            0 <= i < w.len() && w[i].0 == k by {
            if k == n {
                assert(w[p as int].0 == n);
            } else {
                assert(m.dom().contains(k));
                let i = choose|i: int| 0 <= i < v.len() && v[i].0 == k;
                if i < p {
                    assert(w[i] == v[i]);
                } else {
                    assert(w[i + 1] == v[i]);
                }
            }
        }
    }
}

/// A descriptor of a built-in theme.
fn builtin_descriptor(name: &str) -> (r: ThemeDescriptor)
    ensures
        r@ == (name@, "built-in"@),
{
    ThemeDescriptor { name: String::from_str(name), source: String::from_str("built-in") }
}

/// The available themes, sorted by name: the built-in ones, and each
/// installed theme whose name is not taken yet.
pub fn merge_theme_listing(installed: &Vec<ThemeDescriptor>) -> (r: Vec<ThemeDescriptor>)
    ensures
        lists(descriptor_views(r@), theme_listing(descriptor_views(installed@))),
{
    let mut out: Vec<ThemeDescriptor> = Vec::new();
    proof {
        reveal_strlit("classic");
        reveal_strlit("modern");
        reveal_strlit("minimal");
        assert("classic"@ != "modern"@ && "classic"@ != "minimal"@ && "modern"@ != "minimal"@) by {
            assert("classic"@[0] != "modern"@[0]);
            assert("classic"@[0] != "minimal"@[0]);
            assert("modern"@[1] != "minimal"@[1]);
        }
        assert(descriptor_views(out@) =~= Seq::<(Seq<char>, Seq<char>)>::empty());
    }
    let ghost m0 = Map::<Seq<char>, Seq<char>>::empty();
    insert_listing(&mut out, builtin_descriptor("classic"), Ghost(m0));
    let ghost m1 = m0.insert("classic"@, "built-in"@);
    insert_listing(&mut out, builtin_descriptor("modern"), Ghost(m1));
    let ghost m2 = m1.insert("modern"@, "built-in"@);
    insert_listing(&mut out, builtin_descriptor("minimal"), Ghost(m2));
    let ghost all = descriptor_views(installed@);
    assert(theme_listing(all.take(0)) == builtin_listing());
    let mut i: usize = 0;
    while i < installed.len()
        invariant
            i <= installed.len(),
            all == descriptor_views(installed@),
            lists(descriptor_views(out@), theme_listing(all.take(i as int))),
        decreases installed.len() - i,
    {
        proof {
            assert(all.take(i + 1).drop_last() =~= all.take(i as int));
            assert(all.take(i + 1).last() == installed@[i as int]@);
        }
        insert_listing(
            &mut out,
            ThemeDescriptor { name: installed[i].name.clone(), source: installed[i].source.clone() },
            Ghost(theme_listing(all.take(i as int))),
        );
        i = i + 1;
    }
    assert(all.take(installed.len() as int) =~= all);
    out
}


/// A theme document that is accepted holds a valid theme: its name is a
/// safe file stem, it has one or two columns, its colors are `#RRGGBB`, its
/// base size is at least eight points and its titles are no smaller.
pub proof fn lemma_accepted_theme_is_valid(
    r: Result<Theme, AppError>,
    name_hint: Seq<char>,
    parsed: Result<Theme, String>,
)
    requires
        checked_theme(r, name_hint, parsed),
        r is Ok,
    ensures
        parsed is Ok,
        r->Ok_0 == parsed->Ok_0,
        theme_issues(r->Ok_0).len() == 0,
        is_safe_stem(r->Ok_0.name@),
        1 <= r->Ok_0.layout.columns <= 2,
        is_hex_color_spec(r->Ok_0.palette.primary@),
        is_hex_color_spec(r->Ok_0.palette.secondary@),
        is_hex_color_spec(r->Ok_0.palette.accent@),
        is_hex_color_spec(r->Ok_0.palette.text@),
        is_hex_color_spec(r->Ok_0.palette.muted@),
        r->Ok_0.typography.base_size_cpt >= MIN_BASE_SIZE_CPT,
        r->Ok_0.typography.heading_size_cpt >= r->Ok_0.typography.base_size_cpt,
{
}

/// A theme that meets every rule is accepted as it was read: schema
/// version 1, a safe name, one or two columns, `#RRGGBB` colors, a base
/// size of at least 8pt and titles no smaller than body text. Two-column
/// themes are among them; a build only warns about them.
pub proof fn lemma_valid_theme_is_accepted(
    r: Result<Theme, AppError>,
    name_hint: Seq<char>,
    t: Theme,
)
    requires
        checked_theme(r, name_hint, Ok(t)),
        t.schema_version == 1,
        is_safe_stem(t.name@),
        1 <= t.layout.columns <= 2,
        is_hex_color_spec(t.palette.primary@),
        is_hex_color_spec(t.palette.secondary@),
        is_hex_color_spec(t.palette.accent@),
        is_hex_color_spec(t.palette.text@),
        is_hex_color_spec(t.palette.muted@),
        t.typography.base_size_cpt >= 800,
        t.typography.heading_size_cpt >= t.typography.base_size_cpt,
    ensures
        theme_issues(t).len() == 0,
        r == Ok::<Theme, AppError>(t),
{
    assert(theme_issues(t) =~= Seq::<(Seq<char>, Seq<char>)>::empty());
}

/// The built-in themes are always listed, as built-in, whatever is
/// installed.
pub proof fn lemma_builtins_always_listed(installed: Seq<(Seq<char>, Seq<char>)>)
    ensures
        theme_listing(installed).dom().contains("classic"@),
        theme_listing(installed).dom().contains("modern"@),
        theme_listing(installed).dom().contains("minimal"@),
        theme_listing(installed)["classic"@] == "built-in"@,
        theme_listing(installed)["modern"@] == "built-in"@,
        theme_listing(installed)["minimal"@] == "built-in"@,
    decreases installed.len(),
{
    if installed.len() == 0 {
        reveal_strlit("classic");
        reveal_strlit("modern");
        reveal_strlit("minimal");
        assert("classic"@[0] != "modern"@[0]);
        assert("classic"@[0] != "minimal"@[0]);
        assert("modern"@[1] != "minimal"@[1]);
    } else {
        lemma_builtins_always_listed(installed.drop_last());
    }
}

/// The names of the built-in themes.
pub open spec fn is_builtin_name(n: Seq<char>) -> bool {
    n == "classic"@ || n == "modern"@ || n == "minimal"@
}

/// The available themes are the built-in ones and the installed ones, and
/// a theme that is not built-in is listed with the source of an installed
/// theme of that name.
pub proof fn lemma_theme_listing_names(installed: Seq<(Seq<char>, Seq<char>)>)
    ensures
        forall|n: Seq<char>|
            #[trigger] theme_listing(installed).dom().contains(n) <==> (is_builtin_name(n) || exists|i: int|
                0 <= i < installed.len() && (#[trigger] installed[i]).0 == n),
        forall|n: Seq<char>|
            #[trigger] theme_listing(installed).dom().contains(n) && !is_builtin_name(n) ==> exists|i: int|
                0 <= i < installed.len() && #[trigger] installed[i] == (n, theme_listing(installed)[n]),
    decreases installed.len(),
{
    let m2 = theme_listing(installed);
    if installed.len() == 0 {
        assert forall|n: Seq<char>| #[trigger] m2.dom().contains(n) <==> (is_builtin_name(n) || exists|i: int|
            0 <= i < installed.len() && (#[trigger] installed[i]).0 == n) by {}
    } else {
        let init = installed.drop_last();
        lemma_theme_listing_names(init);
        let m = theme_listing(init);
        let (name, source) = installed.last();
        let last = installed.len() - 1;
        assert(installed[last] == (name, source));
        assert forall|n: Seq<char>| #[trigger] m2.dom().contains(n) <==> (is_builtin_name(n) || exists|i: int|
            0 <= i < installed.len() && (#[trigger] installed[i]).0 == n) by {
            if m2.dom().contains(n) && !is_builtin_name(n) {
                if m.dom().contains(n) {
                    let i = choose|i: int| 0 <= i < init.len() && (#[trigger] init[i]).0 == n;
                    assert(installed[i] == init[i]);
                } else {
                    assert(n == name);
                }
            }
            if exists|i: int| 0 <= i < installed.len() && (#[trigger] installed[i]).0 == n {
                let i = choose|i: int| 0 <= i < installed.len() && (#[trigger] installed[i]).0 == n;
                if i < last {
                    assert(init[i] == installed[i]);
                }
            }
        }
        assert forall|n: Seq<char>| #[trigger] m2.dom().contains(n) && !is_builtin_name(n) implies exists|i: int|
            0 <= i < installed.len() && #[trigger] installed[i] == (n, m2[n]) by {
            if m.dom().contains(n) {
                let i = choose|i: int| 0 <= i < init.len() && #[trigger] init[i] == (n, m[n]);
                assert(installed[i] == init[i]);
                assert(m2[n] == m[n]);
            } else {
                assert(n == name);
                assert(m2[n] == source);
            }
        }
    }
}

} // verus!
