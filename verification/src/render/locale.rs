//! Section titles in English and Portuguese.

use vstd::prelude::*;

use crate::text::{ascii_lower, char_ascii_lower, opt_str_view, str_eq};

verus! {

/// A locale tag that names Portuguese: `pt`, or `pt-` or `pt_` followed by
/// a region, in any ASCII case.
pub open spec fn is_portuguese(tag: Seq<char>) -> bool {
    let l = tag.map_values(|c: char| ascii_lower(c));
    ||| l == seq!['p', 't']
    ||| (l.len() >= 3 && l[0] == 'p' && l[1] == 't' && (l[2] == '-' || l[2] == '_'))
}

/// Whether a locale is given and names Portuguese.
pub open spec fn is_portuguese_opt(locale: Option<Seq<char>>) -> bool {
    match locale {
        Some(tag) => is_portuguese(tag),
        None => false,
    }
}

/// Whether the locale names Portuguese.
pub fn is_portuguese_locale(locale: Option<&str>) -> (r: bool)
    ensures
        r == is_portuguese_opt(opt_str_view(locale)),
{
    match locale {
        None => false,
        Some(tag) => {
            let ghost l = tag@.map_values(|c: char| ascii_lower(c));
            let n = tag.unicode_len();
            if n < 2 {
                assert(l.len() == n);
                return false;
            }
            let c0 = char_ascii_lower(tag.get_char(0));
            let c1 = char_ascii_lower(tag.get_char(1));
            assert(l[0] == c0 && l[1] == c1);
            if c0 != 'p' || c1 != 't' {
                return false;
            }
            if n == 2 {
                assert(l =~= seq!['p', 't']);
                return true;
            }
            let c2 = char_ascii_lower(tag.get_char(2));
            assert(l[2] == c2);
            c2 == '-' || c2 == '_'
        },
    }
}

/// The title of section `key` in Portuguese or in English.
pub open spec fn label_text(key: Seq<char>, portuguese: bool) -> Seq<char> {
    if key == "summary"@ {
        if portuguese { "Resumo"@ } else { "Summary"@ }
    } else if key == "work"@ {
        if portuguese { "Experiência Profissional"@ } else { "Work Experience"@ }
    } else if key == "education"@ {
        if portuguese { "Educação"@ } else { "Education"@ }
    } else if key == "skills"@ {
        if portuguese { "Habilidades"@ } else { "Skills"@ }
    } else if key == "certifications"@ {
        if portuguese { "Certificações"@ } else { "Certifications"@ }
    } else if key == "projects"@ {
        if portuguese { "Projetos"@ } else { "Projects"@ }
    } else if key == "languages"@ {
        if portuguese { "Idiomas"@ } else { "Languages"@ }
    } else if key == "awards"@ {
        if portuguese { "Realizações"@ } else { "Awards"@ }
    } else {
        "Section"@
    }
}

/// The title of section `key` in the language of `locale`.
pub fn localized_label(key: &str, locale: Option<&str>) -> (r: &'static str)
    ensures
        r@ == label_text(key@, is_portuguese_opt(opt_str_view(locale))),
{
    let portuguese = is_portuguese_locale(locale);
    if str_eq(key, "summary") {
        if portuguese { "Resumo" } else { "Summary" }
    } else if str_eq(key, "work") {
        if portuguese { "Experiência Profissional" } else { "Work Experience" }
    } else if str_eq(key, "education") {
        if portuguese { "Educação" } else { "Education" }
    } else if str_eq(key, "skills") {
        if portuguese { "Habilidades" } else { "Skills" }
    } else if str_eq(key, "certifications") {
        if portuguese { "Certificações" } else { "Certifications" }
    } else if str_eq(key, "projects") {
        if portuguese { "Projetos" } else { "Projects" }
    } else if str_eq(key, "languages") {
        if portuguese { "Idiomas" } else { "Languages" }
    } else if str_eq(key, "awards") {
        if portuguese { "Realizações" } else { "Awards" }
    } else {
        "Section"
    }
}

/// Every section title has text.
pub proof fn lemma_label_text_non_empty(key: Seq<char>, portuguese: bool)
    ensures
        label_text(key, portuguese).len() > 0,
{
    reveal_strlit("Resumo");
    reveal_strlit("Summary");
    reveal_strlit("Experiência Profissional");
    reveal_strlit("Work Experience");
    reveal_strlit("Educação");
    reveal_strlit("Education");
    reveal_strlit("Habilidades");
    reveal_strlit("Skills");
    reveal_strlit("Certificações");
    reveal_strlit("Certifications");
    reveal_strlit("Projetos");
    reveal_strlit("Projects");
    reveal_strlit("Idiomas");
    reveal_strlit("Languages");
    reveal_strlit("Realizações");
    reveal_strlit("Awards");
    reveal_strlit("Section");
}

} // verus!
