//! Where the application keeps its preferences and installed themes.

use vstd::prelude::*;

verus! {

/// `base` opens with two path separators and a `?`, the form of a verbatim
/// Windows path, which `Path::join` rebuilds component by component.
pub open spec fn is_verbatim_like(base: Seq<char>) -> bool {
    &&& base.len() >= 3
    &&& (base[0] == '/' || base[0] == '\\')
    &&& (base[1] == '/' || base[1] == '\\')
    &&& base[2] == '?'
}

/// `path` is `base` followed by `segment`, with nothing, a `/` or a `\`
/// between them.
pub open spec fn is_joined(path: Seq<char>, base: Seq<char>, segment: Seq<char>) -> bool {
    ||| path == base + segment
    ||| path == base + seq!['/'] + segment
    ||| path == base + seq!['\\'] + segment
}

/// Extends `base` by the relative path `segment` (`Path::join`, which
/// pushes the segment onto a copy of `base`).
/// Trusted: `PathBuf::push` appends a relative segment to a path that is not
/// verbatim, putting the platform's main separator (`/` on Unix, `\` on
/// Windows) in between unless `base` is empty, already ends with a separator
/// or is a bare drive (`C:`). Of a verbatim base (`\\?\...`), which std
/// normalises, nothing is stated.
#[verifier::external_body]
pub(crate) fn path_join(base: &str, segment: &str) -> (r: String)
    requires
        forall|i: int|
            0 <= i < segment@.len() ==> {
                let c = #[trigger] segment@[i];
                ('a' <= c && c <= 'z') || c == '.' || c == '_'
            },
        segment@.len() > 0,
        segment@ != "."@,
        segment@ != ".."@,
    ensures
        !is_verbatim_like(base@) ==> is_joined(r@, base@, segment@),
{
    std::path::Path::new(base).join(segment).to_string_lossy().into_owned()
}

/// The index of the last `c` in `p`, or -1 where `p` holds none.
pub open spec fn last_index_of(p: Seq<char>, c: char) -> int
    decreases p.len(),
{
    if p.len() == 0 {
        -1
    } else if p.last() == c {
        p.len() - 1
    } else {
        last_index_of(p.drop_last(), c)
    }
}

/// What follows the last `/` of `p` (all of `p` where it has none).
pub open spec fn final_part(p: Seq<char>) -> Seq<char> {
    p.subrange(last_index_of(p, '/') + 1, p.len() as int)
}

/// `p` names a file the same way on every platform: it holds no `\\` and no
/// `:` (so no drive or verbatim prefix), does not open with `//`, and what
/// follows its last `/` is a file name, neither empty nor `.` nor `..`.
pub open spec fn has_plain_file_name(p: Seq<char>) -> bool {
    let f = final_part(p);
    &&& forall|i: int| 0 <= i < p.len() ==> #[trigger] p[i] != '\\' && p[i] != ':'
    &&& !(p.len() >= 2 && p[0] == '/' && p[1] == '/')
    &&& f.len() > 0
    &&& !(f.len() == 1 && f[0] == '.')
    &&& !(f.len() == 2 && f[0] == '.' && f[1] == '.')
}

/// The stem of the file name `f`: what comes before its last `.`, unless
/// that dot opens the name or there is none, where it is the whole name.
pub open spec fn plain_stem(f: Seq<char>) -> Seq<char> {
    if last_index_of(f, '.') > 0 {
        f.subrange(0, last_index_of(f, '.'))
    } else {
        f
    }
}

/// The extension of the file name `f`: what follows its last `.`, unless
/// that dot opens the name or there is none.
pub open spec fn plain_extension(f: Seq<char>) -> Option<Seq<char>> {
    if last_index_of(f, '.') > 0 {
        Some(f.subrange(last_index_of(f, '.') + 1, f.len() as int))
    } else {
        None
    }
}

/// `s` stands in `p` as a run of consecutive characters.
pub open spec fn is_substring(s: Seq<char>, p: Seq<char>) -> bool {
    exists|i: int| 0 <= i && i + s.len() <= p.len() && #[trigger] p.subrange(i, i + s.len()) == s
}

/// What `Path::extension` may give for `path`: a piece of the path; for a
/// path whose file name reads the same on every platform, the extension of
/// that name.
pub open spec fn is_extension_of(extension: Option<Seq<char>>, path: Seq<char>) -> bool {
    &&& extension matches Some(e) ==> is_substring(e, path)
    &&& has_plain_file_name(path) ==> extension == plain_extension(final_part(path))
}

/// What `Path::file_stem` may give for `path`: a non-empty piece of the
/// path; for a path whose file name reads the same on every platform, the
/// stem of that name.
pub open spec fn is_stem_of(stem: Option<Seq<char>>, path: Seq<char>) -> bool {
    &&& stem matches Some(s) ==> s.len() > 0 && is_substring(s, path)
    &&& has_plain_file_name(path) ==> stem == Some(plain_stem(final_part(path)))
}

/// The extension of the file `path` names (`Path::extension`), when it has
/// one.
/// Trusted: std takes the file name (the last normal component, split on the
/// platform's separators) and gives what follows its last `.`, unless that
/// dot opens the name or there is none. A `/` separates on every platform,
/// `\\` and a drive prefix only on Windows, so the extension is stated
/// exactly only for paths without `\\`, `:` or a leading `//`; of others only
/// that it is a piece of the path.
#[verifier::external_body]
pub(crate) fn path_extension(path: &str) -> (r: Option<String>)
    ensures
        is_extension_of(crate::text::opt_string_view(r), path@),
{
    std::path::Path::new(path).extension().and_then(|ext| ext.to_str()).map(|ext| ext.to_string())
}

/// The configuration directory, the preferences file and the themes
/// directory of the application.
#[derive(Debug, Clone)]
pub struct AppPaths {
    pub config_dir: String,
    pub preferences_path: String,
    pub themes_dir: String,
}

impl AppPaths {
    /// The paths under the configuration directory `config_dir`:
    /// `preferences.json` and `themes/`.
    pub fn from_config_dir(config_dir: &str) -> (r: AppPaths)
        ensures
            r.config_dir@ == config_dir@,
            !is_verbatim_like(config_dir@) ==> is_joined(r.themes_dir@, config_dir@, "themes"@),
            !is_verbatim_like(config_dir@) ==> is_joined(
                r.preferences_path@,
                config_dir@,
                "preferences.json"@,
            ),
    {
        proof {
            reveal_strlit("themes");
            reveal_strlit("preferences.json");
            reveal_strlit(".");
            reveal_strlit("..");
        }
        let themes_dir = path_join(config_dir, "themes");
        let preferences_path = path_join(config_dir, "preferences.json");
        AppPaths { config_dir: String::from_str(config_dir), preferences_path, themes_dir }
    }
}

} // verus!
