//! The lines of text of a resume, in the order its theme shows them.

use vstd::prelude::*;

use crate::model::resume::{
    Award, Certification, EducationEntry, LanguageSkill, Link, Project, Resume, SkillCategory,
    WorkExperience,
};
use crate::model::theme::{visible_section_ids, SectionId, Theme};
use crate::render::locale::{is_portuguese_opt, label_text, lemma_label_text_non_empty, localized_label};
use crate::text::{
    as_opt_str, join, join_strings, opt_str_view, opt_string_view, views,
};
use crate::util::{date_range, format_date_range, join_non_empty, joined_non_empty};

verus! {

/// Whether a line is a title or body text.
#[derive(Debug, Clone, Copy, PartialEq, Eq, Structural)]
pub enum LineKind {
    Heading,
    Body,
}

/// One line of a rendered resume.
#[derive(Debug, Clone)]
pub struct DocumentLine {
    pub kind: LineKind,
    pub text: String,
}

impl View for DocumentLine {
    type V = (LineKind, Seq<char>);

    open spec fn view(&self) -> (LineKind, Seq<char>) {
        (self.kind, self.text@)
    }
}

/// The kind and text of each line, in order.
pub open spec fn line_views(v: Seq<DocumentLine>) -> Seq<(LineKind, Seq<char>)> {
    v.map_values(|l: DocumentLine| l@)
}

/// A body line of text `t`.
pub open spec fn body(t: Seq<char>) -> (LineKind, Seq<char>) {
    (LineKind::Body, t)
}

/// A title line of text `t`.
pub open spec fn heading(t: Seq<char>) -> (LineKind, Seq<char>) {
    (LineKind::Heading, t)
}

/// The empty body line that separates entries and sections.
pub open spec fn blank() -> (LineKind, Seq<char>) {
    body(Seq::empty())
}

/// A body line with the text, when there is one.
pub open spec fn optional_body(o: Option<String>) -> Seq<(LineKind, Seq<char>)> {
    match o {
        Some(s) => seq![body(s@)],
        None => Seq::empty(),
    }
}

/// One bulleted body line per highlight.
pub open spec fn bullets(highlights: Seq<String>) -> Seq<(LineKind, Seq<char>)>
    decreases highlights.len(),
{
    if highlights.len() == 0 {
        Seq::empty()
    } else {
        bullets(highlights.drop_last()) + seq![body("• "@ + highlights.last()@)]
    }
}

/// The lines of each item, one after the other.
pub open spec fn flat_map<T>(items: Seq<T>, f: spec_fn(T) -> Seq<(LineKind, Seq<char>)>) -> Seq<
    (LineKind, Seq<char>),
>
    decreases items.len(),
{
    if items.len() == 0 {
        Seq::empty()
    } else {
        flat_map(items.drop_last(), f) + f(items.last())
    }
}

/// The present, non-blank texts of three optional fields joined with ` | `.
pub open spec fn joined3(a: Option<Seq<char>>, b: Option<Seq<char>>, c: Option<Seq<char>>) -> Seq<
    char,
> {
    joined_non_empty(seq![a, b, c])
}

/// `label: url` for a link.
pub open spec fn link_text(l: Link) -> Seq<char> {
    l.label@ + ": "@ + l.url@
}

/// The texts of the links, in order.
pub open spec fn link_texts(links: Seq<Link>) -> Seq<Seq<char>> {
    links.map_values(|l: Link| link_text(l))
}

/// The lines of the basics section: name, headline, contacts, links.
pub open spec fn basics_lines(r: Resume) -> Seq<(LineKind, Seq<char>)> {
    seq![heading(r.basics.name@)] + optional_body(r.basics.headline) + seq![
        body(
            joined3(
                Some(r.basics.email@),
                opt_string_view(r.basics.phone),
                opt_string_view(r.basics.location),
            ),
        ),
    ] + (if r.basics.links@.len() > 0 {
        seq![body(join(link_texts(r.basics.links@), " | "@))]
    } else {
        Seq::empty()
    }) + seq![blank()]
}

/// The lines of the summary section.
pub open spec fn summary_lines(r: Resume, pt: bool) -> Seq<(LineKind, Seq<char>)> {
    match r.basics.summary {
        Some(s) => seq![heading(label_text("summary"@, pt)), body(s@), blank()],
        None => Seq::empty(),
    }
}

/// The lines of one work entry.
pub open spec fn work_entry_lines(e: WorkExperience) -> Seq<(LineKind, Seq<char>)> {
    seq![
        body(
            e.position@ + " — "@ + e.company@ + " ("@ + joined3(
                date_range(opt_string_view(e.start_date), opt_string_view(e.end_date)),
                opt_string_view(e.location),
                None,
            ) + ")"@,
        ),
    ] + optional_body(e.summary) + bullets(e.highlights@) + seq![blank()]
}

pub open spec fn work_entry_fn() -> spec_fn(WorkExperience) -> Seq<(LineKind, Seq<char>)> {
    |e: WorkExperience| work_entry_lines(e)
}

/// A titled section: nothing when there are no entries, else the title and
/// the entries' lines.
pub open spec fn titled<T>(
    key: Seq<char>,
    pt: bool,
    items: Seq<T>,
    f: spec_fn(T) -> Seq<(LineKind, Seq<char>)>,
    closing: Seq<(LineKind, Seq<char>)>,
) -> Seq<(LineKind, Seq<char>)> {
    if items.len() == 0 {
        Seq::empty()
    } else {
        seq![heading(label_text(key, pt))] + flat_map(items, f) + closing
    }
}

/// The headline of an education entry: study type, area and institution.
pub open spec fn education_headline(e: EducationEntry) -> Seq<char> {
    let study: Seq<char> = match e.study_type {
        Some(s) => s@ + " "@,
        None => Seq::empty(),
    };
    let institution: Seq<char> = if e.institution@.len() == 0 {
        Seq::empty()
    } else {
        " | "@ + e.institution@
    };
    study + " — "@ + e.area@ + institution
}

/// The lines of one education entry.
pub open spec fn education_entry_lines(e: EducationEntry) -> Seq<(LineKind, Seq<char>)> {
    let details = joined3(
        date_range(opt_string_view(e.start_date), opt_string_view(e.end_date)),
        opt_string_view(e.location),
        opt_string_view(e.score),
    );
    seq![body(education_headline(e))] + (if details.len() > 0 {
        seq![body(details)]
    } else {
        Seq::empty()
    }) + seq![blank()]
}

pub open spec fn education_entry_fn() -> spec_fn(EducationEntry) -> Seq<(LineKind, Seq<char>)> {
    |e: EducationEntry| education_entry_lines(e)
}

/// The line of one skill group: its category and its items.
pub open spec fn skill_line(e: SkillCategory) -> Seq<(LineKind, Seq<char>)> {
    seq![body(e.category@ + ": "@ + join(views(e.items@), ", "@))]
}

pub open spec fn skill_fn() -> spec_fn(SkillCategory) -> Seq<(LineKind, Seq<char>)> {
    |e: SkillCategory| skill_line(e)
}

/// The lines of one certification.
pub open spec fn certification_lines(e: Certification) -> Seq<(LineKind, Seq<char>)> {
    seq![
        body(joined3(Some(e.name@), opt_string_view(e.issuer), opt_string_view(e.date))),
    ] + optional_body(e.summary)
}

pub open spec fn certification_fn() -> spec_fn(Certification) -> Seq<(LineKind, Seq<char>)> {
    |e: Certification| certification_lines(e)
}

/// The lines of one project.
pub open spec fn project_lines(e: Project) -> Seq<(LineKind, Seq<char>)> {
    seq![body(joined3(Some(e.name@), opt_string_view(e.url), None))] + optional_body(e.summary)
        + bullets(e.highlights@) + seq![blank()]
}

pub open spec fn project_fn() -> spec_fn(Project) -> Seq<(LineKind, Seq<char>)> {
    |e: Project| project_lines(e)
}

/// The line of one language.
pub open spec fn language_line(e: LanguageSkill) -> Seq<(LineKind, Seq<char>)> {
    seq![body(joined3(Some(e.name@), opt_string_view(e.fluency), None))]
}

pub open spec fn language_fn() -> spec_fn(LanguageSkill) -> Seq<(LineKind, Seq<char>)> {
    |e: LanguageSkill| language_line(e)
}

/// The lines of one award.
pub open spec fn award_lines(e: Award) -> Seq<(LineKind, Seq<char>)> {
    seq![
        body(joined3(Some(e.title@), opt_string_view(e.issuer), opt_string_view(e.date))),
    ] + optional_body(e.summary)
}

pub open spec fn award_fn() -> spec_fn(Award) -> Seq<(LineKind, Seq<char>)> {
    |e: Award| award_lines(e)
}

/// The lines of one section of the resume.
pub open spec fn section_lines(r: Resume, id: SectionId, pt: bool) -> Seq<(LineKind, Seq<char>)> {
    match id {
        SectionId::Basics => basics_lines(r),
        SectionId::Summary => summary_lines(r, pt),
        SectionId::Work => titled("work"@, pt, r.work@, work_entry_fn(), Seq::empty()),
        SectionId::Education => titled(
            "education"@,
            pt,
            r.education@,
            education_entry_fn(),
            Seq::empty(),
        ),
        SectionId::Skills => titled("skills"@, pt, r.skills@, skill_fn(), seq![blank()]),
        SectionId::Certifications => titled(
            "certifications"@,
            pt,
            r.certifications@,
            certification_fn(),
            seq![blank()],
        ),
        SectionId::Projects => titled("projects"@, pt, r.projects@, project_fn(), Seq::empty()),
        SectionId::Languages => titled(
            "languages"@,
            pt,
            r.languages@,
            language_fn(),
            seq![blank()],
        ),
        SectionId::Awards => titled("awards"@, pt, r.awards@, award_fn(), seq![blank()]),
    }
}

pub open spec fn section_fn(r: Resume, pt: bool) -> spec_fn(SectionId) -> Seq<(LineKind, Seq<char>)> {
    |id: SectionId| section_lines(r, id, pt)
}

/// The lines without the empty lines at their end.
pub open spec fn drop_trailing_blanks(s: Seq<(LineKind, Seq<char>)>) -> Seq<(LineKind, Seq<char>)>
    decreases s.len(),
{
    if s.len() > 0 && s.last().1.len() == 0 {
        drop_trailing_blanks(s.drop_last())
    } else {
        s
    }
}

/// The lines of a resume under a theme: each section the theme shows, in
/// its order, titles in the resume's language, with no empty line at the end.
pub open spec fn rendered(r: Resume, t: Theme) -> Seq<(LineKind, Seq<char>)> {
    drop_trailing_blanks(
        flat_map(
            visible_section_ids(t),
            section_fn(r, is_portuguese_opt(opt_string_view(r.locale))),
        ),
    )
}

/// The empty body line.
pub fn blank_line() -> (r: DocumentLine)
    ensures
        r@ == blank(),
{
    DocumentLine { kind: LineKind::Body, text: String::new() }
}

/// A title line.
pub fn section_heading(title: &str) -> (r: DocumentLine)
    ensures
        r@ == heading(title@),
{
    DocumentLine { kind: LineKind::Heading, text: String::from_str(title) }
}

fn push_line(lines: &mut Vec<DocumentLine>, line: DocumentLine)
    ensures
        line_views(final(lines)@) == line_views(old(lines)@) + seq![line@],
{
    let ghost before = line_views(lines@);
    lines.push(line);
    assert(line_views(lines@) =~= before + seq![line@]);
}

fn push_body(lines: &mut Vec<DocumentLine>, text: String)
    ensures
        line_views(final(lines)@) == line_views(old(lines)@) + seq![body(text@)],
{
    push_line(lines, DocumentLine { kind: LineKind::Body, text });
}

fn push_optional_body(lines: &mut Vec<DocumentLine>, o: &Option<String>)
    ensures
        line_views(final(lines)@) == line_views(old(lines)@) + optional_body(*o),
{
    match o {
        Some(s) => push_body(lines, s.clone()),
        None => {
            assert(line_views(lines@) =~= line_views(lines@) + Seq::<(LineKind, Seq<char>)>::empty());
        },
    }
}

fn push_bullets(lines: &mut Vec<DocumentLine>, highlights: &Vec<String>)
    ensures
        line_views(final(lines)@) == line_views(old(lines)@) + bullets(highlights@),
{
    let ghost start = line_views(lines@);
    let mut i: usize = 0;
    while i < highlights.len()
        invariant
            i <= highlights.len(),
            line_views(lines@) == start + bullets(highlights@.take(i as int)),
        decreases highlights.len() - i,
    {
        proof {
            assert(highlights@.take(i + 1).drop_last() =~= highlights@.take(i as int));
        }
        let mut t = String::from_str("• ");
        t.append(highlights[i].as_str());
        push_body(lines, t);
        proof {
            assert(line_views(lines@) =~= start + bullets(highlights@.take(i + 1)));
        }
        i = i + 1;
    }
    assert(highlights@.take(highlights.len() as int) =~= highlights@);
}

/// The present, non-blank texts of three optional fields joined with ` | `.
fn join3(a: Option<&str>, b: Option<&str>, c: Option<&str>) -> (r: String)
    ensures
        r@ == joined3(opt_str_view(a), opt_str_view(b), opt_str_view(c)),
{
    let items = [a, b, c];
    assert(items@.map_values(|o: Option<&str>| opt_str_view(o)) =~= seq![
        opt_str_view(a),
        opt_str_view(b),
        opt_str_view(c),
    ]);
    join_non_empty(&items)
}

fn push_basics(lines: &mut Vec<DocumentLine>, r: &Resume)
    ensures
        line_views(final(lines)@) == line_views(old(lines)@) + basics_lines(*r),
{
    let ghost start = line_views(lines@);
    let b = &r.basics;
    push_line(lines, section_heading(b.name.as_str()));
    push_optional_body(lines, &b.headline);
    push_body(lines, join3(Some(b.email.as_str()), as_opt_str(&b.phone), as_opt_str(&b.location)));
    let ghost mid = line_views(lines@);
    if b.links.len() > 0 {
        let mut texts: Vec<String> = Vec::new();
        let mut i: usize = 0;
        while i < b.links.len()
            invariant
                i <= b.links.len(),
                views(texts@) == link_texts(b.links@).take(i as int),
            decreases b.links.len() - i,
        {
            let mut t = String::from_str(b.links[i].label.as_str());
            t.append(": ");
            t.append(b.links[i].url.as_str());
            let ghost before = views(texts@);
            texts.push(t);
            proof {
                assert(views(texts@) =~= before.push(t@));
                assert(link_texts(b.links@).take(i + 1) =~= link_texts(b.links@).take(
                    i as int,
                ).push(link_text(b.links@[i as int])));
            }
            i = i + 1;
        }
        assert(link_texts(b.links@).take(b.links.len() as int) =~= link_texts(b.links@));
        push_body(lines, join_strings(&texts, " | "));
    } else {
        assert(line_views(lines@) =~= mid + Seq::<(LineKind, Seq<char>)>::empty());
    }
    push_line(lines, blank_line());
    assert(line_views(lines@) =~= start + basics_lines(*r));
}

fn push_summary(lines: &mut Vec<DocumentLine>, r: &Resume)
    ensures
        line_views(final(lines)@) == line_views(old(lines)@) + summary_lines(
            *r,
            is_portuguese_opt(opt_string_view(r.locale)),
        ),
{
    let ghost start = line_views(lines@);
    match &r.basics.summary {
        Some(s) => {
            push_line(lines, section_heading(localized_label("summary", as_opt_str(&r.locale))));
            push_body(lines, s.clone());
            push_line(lines, blank_line());
            assert(line_views(lines@) =~= start + summary_lines(
                *r,
                is_portuguese_opt(opt_string_view(r.locale)),
            ));
        },
        None => {
            assert(line_views(lines@) =~= start + Seq::<(LineKind, Seq<char>)>::empty());
        },
    }
}

fn push_work_entry(lines: &mut Vec<DocumentLine>, e: &WorkExperience)
    ensures
        line_views(final(lines)@) == line_views(old(lines)@) + work_entry_lines(*e),
{
    let ghost start = line_views(lines@);
    let range = format_date_range(as_opt_str(&e.start_date), as_opt_str(&e.end_date));
    let details = join3(as_opt_str(&range), as_opt_str(&e.location), None);
    let mut t = String::from_str(e.position.as_str());
    t.append(" — ");
    t.append(e.company.as_str());
    t.append(" (");
    t.append(details.as_str());
    t.append(")");
    push_body(lines, t);
    push_optional_body(lines, &e.summary);
    push_bullets(lines, &e.highlights);
    push_line(lines, blank_line());
    assert(line_views(lines@) =~= start + work_entry_lines(*e));
}

fn push_education_entry(lines: &mut Vec<DocumentLine>, e: &EducationEntry)
    ensures
        line_views(final(lines)@) == line_views(old(lines)@) + education_entry_lines(*e),
{
    let ghost start = line_views(lines@);
    let mut t = String::new();
    match &e.study_type {
        Some(s) => {
            t.append(s.as_str());
            t.append(" ");
        },
        None => {},
    }
    t.append(" — ");
    t.append(e.area.as_str());
    if e.institution.unicode_len() > 0 {
        t.append(" | ");
        t.append(e.institution.as_str());
    }
    assert(t@ =~= education_headline(*e));
    push_body(lines, t);
    let range = format_date_range(as_opt_str(&e.start_date), as_opt_str(&e.end_date));
    let details = join3(as_opt_str(&range), as_opt_str(&e.location), as_opt_str(&e.score));
    let ghost mid = line_views(lines@);
    if details.unicode_len() > 0 {
        push_body(lines, details);
    } else {
        assert(line_views(lines@) =~= mid + Seq::<(LineKind, Seq<char>)>::empty());
    }
    push_line(lines, blank_line());
    assert(line_views(lines@) =~= start + education_entry_lines(*e));
}

fn push_skill(lines: &mut Vec<DocumentLine>, e: &SkillCategory)
    ensures
        line_views(final(lines)@) == line_views(old(lines)@) + skill_line(*e),
{
    let mut t = String::from_str(e.category.as_str());
    t.append(": ");
    let items = join_strings(&e.items, ", ");
    t.append(items.as_str());
    push_body(lines, t);
}

fn push_certification(lines: &mut Vec<DocumentLine>, e: &Certification)
    ensures
        line_views(final(lines)@) == line_views(old(lines)@) + certification_lines(*e),
{
    let ghost start = line_views(lines@);
    push_body(lines, join3(Some(e.name.as_str()), as_opt_str(&e.issuer), as_opt_str(&e.date)));
    push_optional_body(lines, &e.summary);
    assert(line_views(lines@) =~= start + certification_lines(*e));
}

fn push_project(lines: &mut Vec<DocumentLine>, e: &Project)
    ensures
        line_views(final(lines)@) == line_views(old(lines)@) + project_lines(*e),
{
    let ghost start = line_views(lines@);
    push_body(lines, join3(Some(e.name.as_str()), as_opt_str(&e.url), None));
    push_optional_body(lines, &e.summary);
    push_bullets(lines, &e.highlights);
    push_line(lines, blank_line());
    assert(line_views(lines@) =~= start + project_lines(*e));
}

fn push_language(lines: &mut Vec<DocumentLine>, e: &LanguageSkill)
    ensures
        line_views(final(lines)@) == line_views(old(lines)@) + language_line(*e),
{
    push_body(lines, join3(Some(e.name.as_str()), as_opt_str(&e.fluency), None));
}

fn push_award(lines: &mut Vec<DocumentLine>, e: &Award)
    ensures
        line_views(final(lines)@) == line_views(old(lines)@) + award_lines(*e),
{
    let ghost start = line_views(lines@);
    push_body(lines, join3(Some(e.title.as_str()), as_opt_str(&e.issuer), as_opt_str(&e.date)));
    push_optional_body(lines, &e.summary);
    assert(line_views(lines@) =~= start + award_lines(*e));
}


fn push_work_section(lines: &mut Vec<DocumentLine>, r: &Resume)
    ensures
        line_views(final(lines)@) == line_views(old(lines)@) + section_lines(
            *r,
            SectionId::Work,
            is_portuguese_opt(opt_string_view(r.locale)),
        ),
{
    let ghost start = line_views(lines@);
    let items = &r.work;
    if items.len() == 0 {
        assert(line_views(lines@) =~= start + Seq::<(LineKind, Seq<char>)>::empty());
        return;
    }
    push_line(lines, section_heading(localized_label("work", as_opt_str(&r.locale))));
    let ghost head = line_views(lines@);
    let mut i: usize = 0;
    while i < items.len()
        invariant
            i <= items.len(),
            line_views(lines@) == head + flat_map(items@.take(i as int), work_entry_fn()),
        decreases items.len() - i,
    {
        proof {
            assert(items@.take(i + 1).drop_last() =~= items@.take(i as int));
        }
        push_work_entry(lines, &items[i]);
        proof {
            assert(line_views(lines@) =~= head + flat_map(items@.take(i + 1), work_entry_fn()));
        }
        i = i + 1;
    }
    assert(items@.take(items.len() as int) =~= items@);
    assert(line_views(lines@) =~= line_views(lines@) + Seq::<(LineKind, Seq<char>)>::empty());
    assert(line_views(lines@) =~= start + section_lines(
        *r,
        SectionId::Work,
        is_portuguese_opt(opt_string_view(r.locale)),
    ));
}

fn push_education_section(lines: &mut Vec<DocumentLine>, r: &Resume)
    ensures
        line_views(final(lines)@) == line_views(old(lines)@) + section_lines(
            *r,
            SectionId::Education,
            is_portuguese_opt(opt_string_view(r.locale)),
        ),
{
    let ghost start = line_views(lines@);
    let items = &r.education;
    if items.len() == 0 {
        assert(line_views(lines@) =~= start + Seq::<(LineKind, Seq<char>)>::empty());
        return;
    }
    push_line(lines, section_heading(localized_label("education", as_opt_str(&r.locale))));
    let ghost head = line_views(lines@);
    let mut i: usize = 0;
    while i < items.len()
        invariant
            i <= items.len(),
            line_views(lines@) == head + flat_map(items@.take(i as int), education_entry_fn()),
        decreases items.len() - i,
    {
        proof {
            assert(items@.take(i + 1).drop_last() =~= items@.take(i as int));
        }
        push_education_entry(lines, &items[i]);
        proof {
            assert(line_views(lines@) =~= head + flat_map(items@.take(i + 1), education_entry_fn()));
        }
        i = i + 1;
    }
    assert(items@.take(items.len() as int) =~= items@);
    assert(line_views(lines@) =~= line_views(lines@) + Seq::<(LineKind, Seq<char>)>::empty());
    assert(line_views(lines@) =~= start + section_lines(
        *r,
        SectionId::Education,
        is_portuguese_opt(opt_string_view(r.locale)),
    ));
}

fn push_skills_section(lines: &mut Vec<DocumentLine>, r: &Resume)
    ensures
        line_views(final(lines)@) == line_views(old(lines)@) + section_lines(
            *r,
            SectionId::Skills,
            is_portuguese_opt(opt_string_view(r.locale)),
        ),
{
    let ghost start = line_views(lines@);
    let items = &r.skills;
    if items.len() == 0 {
        assert(line_views(lines@) =~= start + Seq::<(LineKind, Seq<char>)>::empty());
        return;
    }
    push_line(lines, section_heading(localized_label("skills", as_opt_str(&r.locale))));
    let ghost head = line_views(lines@);
    let mut i: usize = 0;
    while i < items.len()
        invariant
            i <= items.len(),
            line_views(lines@) == head + flat_map(items@.take(i as int), skill_fn()),
        decreases items.len() - i,
    {
        proof {
            assert(items@.take(i + 1).drop_last() =~= items@.take(i as int));
        }
        push_skill(lines, &items[i]);
        proof {
            assert(line_views(lines@) =~= head + flat_map(items@.take(i + 1), skill_fn()));
        }
        i = i + 1;
    }
    assert(items@.take(items.len() as int) =~= items@);
    push_line(lines, blank_line());
    assert(line_views(lines@) =~= start + section_lines(
        *r,
        SectionId::Skills,
        is_portuguese_opt(opt_string_view(r.locale)),
    ));
}

fn push_certifications_section(lines: &mut Vec<DocumentLine>, r: &Resume)
    ensures
        line_views(final(lines)@) == line_views(old(lines)@) + section_lines(
            *r,
            SectionId::Certifications,
            is_portuguese_opt(opt_string_view(r.locale)),
        ),
{
    let ghost start = line_views(lines@);
    let items = &r.certifications;
    if items.len() == 0 {
        assert(line_views(lines@) =~= start + Seq::<(LineKind, Seq<char>)>::empty());
        return;
    }
    push_line(lines, section_heading(localized_label("certifications", as_opt_str(&r.locale))));
    let ghost head = line_views(lines@);
    let mut i: usize = 0;
    while i < items.len()
        invariant
            i <= items.len(),
            line_views(lines@) == head + flat_map(items@.take(i as int), certification_fn()),
        decreases items.len() - i,
    {
        proof {
            assert(items@.take(i + 1).drop_last() =~= items@.take(i as int));
        }
        push_certification(lines, &items[i]);
        proof {
            assert(line_views(lines@) =~= head + flat_map(items@.take(i + 1), certification_fn()));
        }
        i = i + 1;
    }
    assert(items@.take(items.len() as int) =~= items@);
    push_line(lines, blank_line());
    assert(line_views(lines@) =~= start + section_lines(
        *r,
        SectionId::Certifications,
        is_portuguese_opt(opt_string_view(r.locale)),
    ));
}

fn push_projects_section(lines: &mut Vec<DocumentLine>, r: &Resume)
    ensures
        line_views(final(lines)@) == line_views(old(lines)@) + section_lines(
            *r,
            SectionId::Projects,
            is_portuguese_opt(opt_string_view(r.locale)),
        ),
{
    let ghost start = line_views(lines@);
    let items = &r.projects;
    if items.len() == 0 {
        assert(line_views(lines@) =~= start + Seq::<(LineKind, Seq<char>)>::empty());
        return;
    }
    push_line(lines, section_heading(localized_label("projects", as_opt_str(&r.locale))));
    let ghost head = line_views(lines@);
    let mut i: usize = 0;
    while i < items.len()
        invariant
            i <= items.len(),
            line_views(lines@) == head + flat_map(items@.take(i as int), project_fn()),
        decreases items.len() - i,
    {
        proof {
            assert(items@.take(i + 1).drop_last() =~= items@.take(i as int));
        }
        push_project(lines, &items[i]);
        proof {
            assert(line_views(lines@) =~= head + flat_map(items@.take(i + 1), project_fn()));
        }
        i = i + 1;
    }
    assert(items@.take(items.len() as int) =~= items@);
    assert(line_views(lines@) =~= line_views(lines@) + Seq::<(LineKind, Seq<char>)>::empty());
    assert(line_views(lines@) =~= start + section_lines(
        *r,
        SectionId::Projects,
        is_portuguese_opt(opt_string_view(r.locale)),
    ));
}

fn push_languages_section(lines: &mut Vec<DocumentLine>, r: &Resume)
    ensures
        line_views(final(lines)@) == line_views(old(lines)@) + section_lines(
            *r,
            SectionId::Languages,
            is_portuguese_opt(opt_string_view(r.locale)),
        ),
{
    let ghost start = line_views(lines@);
    let items = &r.languages;
    if items.len() == 0 {
        assert(line_views(lines@) =~= start + Seq::<(LineKind, Seq<char>)>::empty());
        return;
    }
    push_line(lines, section_heading(localized_label("languages", as_opt_str(&r.locale))));
    let ghost head = line_views(lines@);
    let mut i: usize = 0;
    while i < items.len()
        invariant
            i <= items.len(),
            line_views(lines@) == head + flat_map(items@.take(i as int), language_fn()),
        decreases items.len() - i,
    {
        proof {
            assert(items@.take(i + 1).drop_last() =~= items@.take(i as int));
        }
        push_language(lines, &items[i]);
        proof {
            assert(line_views(lines@) =~= head + flat_map(items@.take(i + 1), language_fn()));
        }
        i = i + 1;
    }
    assert(items@.take(items.len() as int) =~= items@);
    push_line(lines, blank_line());
    assert(line_views(lines@) =~= start + section_lines(
        *r,
        SectionId::Languages,
        is_portuguese_opt(opt_string_view(r.locale)),
    ));
}

fn push_awards_section(lines: &mut Vec<DocumentLine>, r: &Resume)
    ensures
        line_views(final(lines)@) == line_views(old(lines)@) + section_lines(
            *r,
            SectionId::Awards,
            is_portuguese_opt(opt_string_view(r.locale)),
        ),
{
    let ghost start = line_views(lines@);
    let items = &r.awards;
    if items.len() == 0 {
        assert(line_views(lines@) =~= start + Seq::<(LineKind, Seq<char>)>::empty());
        return;
    }
    push_line(lines, section_heading(localized_label("awards", as_opt_str(&r.locale))));
    let ghost head = line_views(lines@);
    let mut i: usize = 0;
    while i < items.len()
        invariant
            i <= items.len(),
            line_views(lines@) == head + flat_map(items@.take(i as int), award_fn()),
        decreases items.len() - i,
    {
        proof {
            assert(items@.take(i + 1).drop_last() =~= items@.take(i as int));
        }
        push_award(lines, &items[i]);
        proof {
            assert(line_views(lines@) =~= head + flat_map(items@.take(i + 1), award_fn()));
        }
        i = i + 1;
    }
    assert(items@.take(items.len() as int) =~= items@);
    push_line(lines, blank_line());
    assert(line_views(lines@) =~= start + section_lines(
        *r,
        SectionId::Awards,
        is_portuguese_opt(opt_string_view(r.locale)),
    ));
}

fn push_section(lines: &mut Vec<DocumentLine>, r: &Resume, id: SectionId)
    ensures
        line_views(final(lines)@) == line_views(old(lines)@) + section_lines(
            *r,
            id,
            is_portuguese_opt(opt_string_view(r.locale)),
        ),
{
    match id {
        SectionId::Basics => push_basics(lines, r),
        SectionId::Summary => push_summary(lines, r),
        SectionId::Work => push_work_section(lines, r),
        SectionId::Education => push_education_section(lines, r),
        SectionId::Skills => push_skills_section(lines, r),
        SectionId::Certifications => push_certifications_section(lines, r),
        SectionId::Projects => push_projects_section(lines, r),
        SectionId::Languages => push_languages_section(lines, r),
        SectionId::Awards => push_awards_section(lines, r),
    }
}

/// The lines of a resume under a theme.
pub fn render_lines(resume: &Resume, theme: &Theme) -> (r: Vec<DocumentLine>)
    ensures
        line_views(r@) == rendered(*resume, *theme),
{
    let ghost pt = is_portuguese_opt(opt_string_view(resume.locale));
    let sections = theme.visible_sections();
    let mut lines: Vec<DocumentLine> = Vec::new();
    let mut i: usize = 0;
    assert(line_views(lines@) =~= Seq::<(LineKind, Seq<char>)>::empty());
    while i < sections.len()
        invariant
            i <= sections.len(),
            pt == is_portuguese_opt(opt_string_view(resume.locale)),
            line_views(lines@) == flat_map(sections@.take(i as int), section_fn(*resume, pt)),
        decreases sections.len() - i,
    {
        proof {
            assert(sections@.take(i + 1).drop_last() =~= sections@.take(i as int));
        }
        push_section(&mut lines, resume, sections[i]);
        i = i + 1;
    }
    assert(sections@.take(sections.len() as int) =~= sections@);
    while lines.len() > 0 && lines[lines.len() - 1].text.unicode_len() == 0
        invariant
            drop_trailing_blanks(line_views(lines@)) == rendered(*resume, *theme),
        decreases lines.len(),
    {
        let ghost before = line_views(lines@);
        lines.pop();
        assert(line_views(lines@) =~= before.drop_last());
    }
    lines
}


/// Dropping the empty lines at the end leaves a prefix whose last line, if
/// any, has text.
pub proof fn lemma_drop_trailing_blanks(s: Seq<(LineKind, Seq<char>)>)
    ensures
        drop_trailing_blanks(s).len() <= s.len(),
        drop_trailing_blanks(s) == s.take(drop_trailing_blanks(s).len() as int),
        drop_trailing_blanks(s).len() > 0 ==> drop_trailing_blanks(s).last().1.len() > 0,
    decreases s.len(),
{
    if s.len() > 0 && s.last().1.len() == 0 {
        lemma_drop_trailing_blanks(s.drop_last());
        let d = drop_trailing_blanks(s.drop_last());
        assert(s.drop_last().take(d.len() as int) =~= s.take(d.len() as int));
    } else {
        assert(s.take(s.len() as int) =~= s);
    }
}

/// A rendered resume never ends with an empty line.
pub proof fn lemma_rendered_ends_with_text(r: Resume, t: Theme)
    ensures
        rendered(r, t).len() > 0 ==> rendered(r, t).last().1.len() > 0,
{
    lemma_drop_trailing_blanks(
        flat_map(
            visible_section_ids(t),
            section_fn(r, is_portuguese_opt(opt_string_view(r.locale))),
        ),
    );
}

/// The texts of the title lines among `s`, in order.
pub open spec fn heading_texts(s: Seq<(LineKind, Seq<char>)>) -> Seq<Seq<char>>
    decreases s.len(),
{
    if s.len() == 0 {
        Seq::empty()
    } else {
        heading_texts(s.drop_last()) + (if s.last().0 == LineKind::Heading {
            seq![s.last().1]
        } else {
            Seq::empty()
        })
    }
}

/// The titles a section shows: the name for the basics, the localized
/// title of any other section that has content, nothing for an empty one.
pub open spec fn section_titles(r: Resume, id: SectionId, pt: bool) -> Seq<Seq<char>> {
    let titled_if = |present: bool, key: Seq<char>|
        if present {
            seq![label_text(key, pt)]
        } else {
            Seq::<Seq<char>>::empty()
        };
    match id {
        SectionId::Basics => seq![r.basics.name@],
        SectionId::Summary => titled_if(r.basics.summary is Some, "summary"@),
        SectionId::Work => titled_if(r.work@.len() > 0, "work"@),
        SectionId::Education => titled_if(r.education@.len() > 0, "education"@),
        SectionId::Skills => titled_if(r.skills@.len() > 0, "skills"@),
        SectionId::Certifications => titled_if(r.certifications@.len() > 0, "certifications"@),
        SectionId::Projects => titled_if(r.projects@.len() > 0, "projects"@),
        SectionId::Languages => titled_if(r.languages@.len() > 0, "languages"@),
        SectionId::Awards => titled_if(r.awards@.len() > 0, "awards"@),
    }
}

/// The titles of the sections `ids`, one section after the other.
pub open spec fn titles_of(ids: Seq<SectionId>, r: Resume, pt: bool) -> Seq<Seq<char>>
    decreases ids.len(),
{
    if ids.len() == 0 {
        Seq::empty()
    } else {
        titles_of(ids.drop_last(), r, pt) + section_titles(r, ids.last(), pt)
    }
}

/// Every line of `s` is body text.
pub open spec fn only_body(s: Seq<(LineKind, Seq<char>)>) -> bool {
    forall|i: int| 0 <= i < s.len() ==> (#[trigger] s[i]).0 == LineKind::Body
}

/// Every title line of `s` has text.
pub open spec fn titles_named(s: Seq<(LineKind, Seq<char>)>) -> bool {
    forall|i: int| 0 <= i < s.len() && (#[trigger] s[i]).0 == LineKind::Heading ==> s[i].1.len() > 0
}

proof fn lemma_heading_texts_add(a: Seq<(LineKind, Seq<char>)>, b: Seq<(LineKind, Seq<char>)>)
    ensures
        heading_texts(a + b) == heading_texts(a) + heading_texts(b),
    decreases b.len(),
{
    if b.len() == 0 {
        assert(a + b =~= a);
        assert(heading_texts(a) + Seq::<Seq<char>>::empty() =~= heading_texts(a));
    } else {
        lemma_heading_texts_add(a, b.drop_last());
        assert((a + b).drop_last() =~= a + b.drop_last());
        assert((a + b).last() == b.last());
        let tail: Seq<Seq<char>> = if b.last().0 == LineKind::Heading {
            seq![b.last().1]
        } else {
            Seq::empty()
        };
        assert(heading_texts(a) + heading_texts(b.drop_last()) + tail =~= heading_texts(a) + (
        heading_texts(b.drop_last()) + tail));
    }
}

proof fn lemma_heading_texts_one(l: (LineKind, Seq<char>))
    ensures
        heading_texts(seq![l]) == (if l.0 == LineKind::Heading {
            seq![l.1]
        } else {
            Seq::<Seq<char>>::empty()
        }),
{
    let s = seq![l];
    assert(s.drop_last() =~= Seq::<(LineKind, Seq<char>)>::empty());
    assert(heading_texts(s.drop_last()) == Seq::<Seq<char>>::empty());
    assert(s.last() == l);
    assert(Seq::<Seq<char>>::empty() + seq![l.1] =~= seq![l.1]);
    assert(Seq::<Seq<char>>::empty() + Seq::<Seq<char>>::empty() =~= Seq::<Seq<char>>::empty());
}

proof fn lemma_only_body_add(a: Seq<(LineKind, Seq<char>)>, b: Seq<(LineKind, Seq<char>)>)
    requires
        only_body(a),
        only_body(b),
    ensures
        only_body(a + b),
{
    assert forall|i: int| 0 <= i < (a + b).len() implies (#[trigger] (a + b)[i]).0 == LineKind::Body by {
        if i < a.len() {
            assert((a + b)[i] == a[i]);
        } else {
            assert((a + b)[i] == b[i - a.len()]);
        }
    }
}

proof fn lemma_named_add(a: Seq<(LineKind, Seq<char>)>, b: Seq<(LineKind, Seq<char>)>)
    requires
        titles_named(a),
        titles_named(b),
    ensures
        titles_named(a + b),
{
    assert forall|i: int| 0 <= i < (a + b).len() && (#[trigger] (a + b)[i]).0 == LineKind::Heading
        implies (a + b)[i].1.len() > 0 by {
        if i < a.len() {
            assert((a + b)[i] == a[i]);
        } else {
            assert((a + b)[i] == b[i - a.len()]);
        }
    }
}

proof fn lemma_only_body_no_titles(s: Seq<(LineKind, Seq<char>)>)
    requires
        only_body(s),
    ensures
        heading_texts(s) == Seq::<Seq<char>>::empty(),
        titles_named(s),
    decreases s.len(),
{
    if s.len() > 0 {
        assert forall|i: int| 0 <= i < s.drop_last().len() implies (#[trigger] s.drop_last()[i]).0
            == LineKind::Body by {
            assert(s.drop_last()[i] == s[i]);
        }
        lemma_only_body_no_titles(s.drop_last());
        assert(s[s.len() - 1].0 == LineKind::Body);
    }
}

proof fn lemma_bullets_only_body(h: Seq<String>)
    ensures
        only_body(bullets(h)),
    decreases h.len(),
{
    if h.len() > 0 {
        lemma_bullets_only_body(h.drop_last());
        lemma_only_body_add(bullets(h.drop_last()), seq![body("• "@ + h.last()@)]);
    }
}

proof fn lemma_flat_map_only_body<T>(items: Seq<T>, f: spec_fn(T) -> Seq<(LineKind, Seq<char>)>)
    requires
        forall|i: int| 0 <= i < items.len() ==> only_body(#[trigger] f(items[i])),
    ensures
        only_body(flat_map(items, f)),
    decreases items.len(),
{
    if items.len() > 0 {
        assert forall|i: int| 0 <= i < items.drop_last().len() implies only_body(
            #[trigger] f(items.drop_last()[i]),
        ) by {
            assert(items.drop_last()[i] == items[i]);
        }
        lemma_flat_map_only_body(items.drop_last(), f);
        assert(only_body(f(items[items.len() - 1])));
        lemma_only_body_add(flat_map(items.drop_last(), f), f(items.last()));
    }
}

proof fn lemma_optional_body(o: Option<String>)
    ensures
        only_body(optional_body(o)),
{
}

/// A titled section shows its title when it has entries of body text.
proof fn lemma_titled<T>(
    key: Seq<char>,
    pt: bool,
    items: Seq<T>,
    f: spec_fn(T) -> Seq<(LineKind, Seq<char>)>,
    closing: Seq<(LineKind, Seq<char>)>,
)
    requires
        forall|i: int| 0 <= i < items.len() ==> only_body(#[trigger] f(items[i])),
        only_body(closing),
    ensures
        heading_texts(titled(key, pt, items, f, closing)) == (if items.len() > 0 {
            seq![label_text(key, pt)]
        } else {
            Seq::<Seq<char>>::empty()
        }),
        titles_named(titled(key, pt, items, f, closing)),
{
    lemma_label_text_non_empty(key, pt);
    if items.len() > 0 {
        lemma_flat_map_only_body(items, f);
        lemma_only_body_add(flat_map(items, f), closing);
        let rest = flat_map(items, f) + closing;
        lemma_only_body_no_titles(rest);
        let h = seq![heading(label_text(key, pt))];
        lemma_heading_texts_one(heading(label_text(key, pt)));
        lemma_heading_texts_add(h, rest);
        assert(h + flat_map(items, f) + closing =~= h + rest);
        assert(seq![label_text(key, pt)] + Seq::<Seq<char>>::empty() =~= seq![label_text(key, pt)]);
        assert(titles_named(h));
        lemma_named_add(h, rest);
    }
}

/// The titles of one section, all with text when the name has text.
proof fn lemma_section_titles(r: Resume, id: SectionId, pt: bool)
    requires
        r.basics.name@.len() > 0,
    ensures
        heading_texts(section_lines(r, id, pt)) == section_titles(r, id, pt),
        titles_named(section_lines(r, id, pt)),
{
    lemma_label_text_non_empty("summary"@, pt);
    assert forall|e: WorkExperience| only_body(#[trigger] work_entry_lines(e)) by {
        lemma_bullets_only_body(e.highlights@);
        lemma_only_body_add(seq![body(Seq::empty())], optional_body(e.summary));
        let head = seq![
            body(
                e.position@ + " — "@ + e.company@ + " ("@ + joined3(
                    date_range(opt_string_view(e.start_date), opt_string_view(e.end_date)),
                    opt_string_view(e.location),
                    None,
                ) + ")"@,
            ),
        ];
        lemma_only_body_add(head, optional_body(e.summary));
        lemma_only_body_add(head + optional_body(e.summary), bullets(e.highlights@));
        lemma_only_body_add(head + optional_body(e.summary) + bullets(e.highlights@), seq![blank()]);
    }
    assert forall|e: EducationEntry| only_body(#[trigger] education_entry_lines(e)) by {
        let details = joined3(
            date_range(opt_string_view(e.start_date), opt_string_view(e.end_date)),
            opt_string_view(e.location),
            opt_string_view(e.score),
        );
        let mid: Seq<(LineKind, Seq<char>)> = if details.len() > 0 {
            seq![body(details)]
        } else {
            Seq::empty()
        };
        lemma_only_body_add(seq![body(education_headline(e))], mid);
        lemma_only_body_add(seq![body(education_headline(e))] + mid, seq![blank()]);
    }
    assert forall|e: Certification| only_body(#[trigger] certification_lines(e)) by {
        lemma_only_body_add(
            seq![body(joined3(Some(e.name@), opt_string_view(e.issuer), opt_string_view(e.date)))],
            optional_body(e.summary),
        );
    }
    assert forall|e: Project| only_body(#[trigger] project_lines(e)) by {
        lemma_bullets_only_body(e.highlights@);
        let head = seq![body(joined3(Some(e.name@), opt_string_view(e.url), None))];
        lemma_only_body_add(head, optional_body(e.summary));
        lemma_only_body_add(head + optional_body(e.summary), bullets(e.highlights@));
        lemma_only_body_add(head + optional_body(e.summary) + bullets(e.highlights@), seq![blank()]);
    }
    assert forall|e: Award| only_body(#[trigger] award_lines(e)) by {
        lemma_only_body_add(
            seq![body(joined3(Some(e.title@), opt_string_view(e.issuer), opt_string_view(e.date)))],
            optional_body(e.summary),
        );
    }
    assert(only_body(seq![blank()]));
    assert(only_body(Seq::<(LineKind, Seq<char>)>::empty()));
    match id {
        SectionId::Basics => {
            let h = seq![heading(r.basics.name@)];
            let links: Seq<(LineKind, Seq<char>)> = if r.basics.links@.len() > 0 {
                seq![body(join(link_texts(r.basics.links@), " | "@))]
            } else {
                Seq::empty()
            };
            let contacts = seq![
                body(
                    joined3(
                        Some(r.basics.email@),
                        opt_string_view(r.basics.phone),
                        opt_string_view(r.basics.location),
                    ),
                ),
            ];
            lemma_only_body_add(optional_body(r.basics.headline), contacts);
            lemma_only_body_add(optional_body(r.basics.headline) + contacts, links);
            lemma_only_body_add(optional_body(r.basics.headline) + contacts + links, seq![blank()]);
            let rest = optional_body(r.basics.headline) + contacts + links + seq![blank()];
            lemma_only_body_no_titles(rest);
            lemma_heading_texts_one(heading(r.basics.name@));
            lemma_heading_texts_add(h, rest);
            assert(basics_lines(r) =~= h + rest);
            assert(seq![r.basics.name@] + Seq::<Seq<char>>::empty() =~= seq![r.basics.name@]);
            assert(titles_named(h));
            lemma_named_add(h, rest);
        },
        SectionId::Summary => {
            match r.basics.summary {
                Some(text) => {
                    let a = heading(label_text("summary"@, pt));
                    let s = summary_lines(r, pt);
                    lemma_heading_texts_one(a);
                    lemma_only_body_no_titles(seq![body(text@), blank()]);
                    lemma_heading_texts_add(seq![a], seq![body(text@), blank()]);
                    assert(s =~= seq![a] + seq![body(text@), blank()]);
                    assert(seq![label_text("summary"@, pt)] + Seq::<Seq<char>>::empty() =~= seq![
                        label_text("summary"@, pt),
                    ]);
                },
                None => {},
            }
        },
        SectionId::Work => lemma_titled("work"@, pt, r.work@, work_entry_fn(), Seq::empty()),
        SectionId::Education => lemma_titled("education"@, pt, r.education@, education_entry_fn(), Seq::empty()),
        SectionId::Skills => lemma_titled("skills"@, pt, r.skills@, skill_fn(), seq![blank()]),
        SectionId::Certifications => lemma_titled(
            "certifications"@,
            pt,
            r.certifications@,
            certification_fn(),
            seq![blank()],
        ),
        SectionId::Projects => lemma_titled("projects"@, pt, r.projects@, project_fn(), Seq::empty()),
        SectionId::Languages => lemma_titled("languages"@, pt, r.languages@, language_fn(), seq![blank()]),
        SectionId::Awards => lemma_titled("awards"@, pt, r.awards@, award_fn(), seq![blank()]),
    }
}

proof fn lemma_sections_titles(ids: Seq<SectionId>, r: Resume, pt: bool)
    requires
        r.basics.name@.len() > 0,
    ensures
        heading_texts(flat_map(ids, section_fn(r, pt))) == titles_of(ids, r, pt),
        titles_named(flat_map(ids, section_fn(r, pt))),
    decreases ids.len(),
{
    if ids.len() > 0 {
        lemma_sections_titles(ids.drop_last(), r, pt);
        lemma_section_titles(r, ids.last(), pt);
        lemma_heading_texts_add(flat_map(ids.drop_last(), section_fn(r, pt)), section_lines(r, ids.last(), pt));
        lemma_named_add(flat_map(ids.drop_last(), section_fn(r, pt)), section_lines(r, ids.last(), pt));
    }
}

proof fn lemma_drop_trailing_keeps_titles(s: Seq<(LineKind, Seq<char>)>)
    requires
        titles_named(s),
    ensures
        heading_texts(drop_trailing_blanks(s)) == heading_texts(s),
    decreases s.len(),
{
    if s.len() > 0 && s.last().1.len() == 0 {
        assert forall|i: int| 0 <= i < s.drop_last().len() && (#[trigger] s.drop_last()[i]).0
            == LineKind::Heading implies s.drop_last()[i].1.len() > 0 by {
            assert(s.drop_last()[i] == s[i]);
        }
        lemma_drop_trailing_keeps_titles(s.drop_last());
        assert(s[s.len() - 1].0 != LineKind::Heading);
        assert(heading_texts(s.drop_last()) + Seq::<Seq<char>>::empty() =~= heading_texts(s.drop_last()));
    }
}

/// The titles of a rendered resume are, in order, the name and the titles
/// of the sections the theme shows that have content, in the resume's
/// language (where the name has text: an empty name at the very end of the
/// text would be dropped with the empty lines).
pub proof fn lemma_rendered_titles(r: Resume, t: Theme)
    requires
        r.basics.name@.len() > 0,
    ensures
        heading_texts(rendered(r, t)) == titles_of(
            visible_section_ids(t),
            r,
            is_portuguese_opt(opt_string_view(r.locale)),
        ),
{
    let pt = is_portuguese_opt(opt_string_view(r.locale));
    lemma_sections_titles(visible_section_ids(t), r, pt);
    lemma_drop_trailing_keeps_titles(flat_map(visible_section_ids(t), section_fn(r, pt)));
}

/// The title line of a work entry: `position — company (dates | place)`.
pub open spec fn work_title(e: WorkExperience) -> Seq<char> {
    e.position@ + " — "@ + e.company@ + " ("@ + joined3(
        date_range(opt_string_view(e.start_date), opt_string_view(e.end_date)),
        opt_string_view(e.location),
        None,
    ) + ")"@
}

/// `small` stands in `big` from index `off` on.
pub open spec fn is_slice_at<T>(big: Seq<T>, small: Seq<T>, off: int) -> bool {
    &&& 0 <= off
    &&& off + small.len() <= big.len()
    &&& forall|k: int| 0 <= k < small.len() ==> big[off + k] == #[trigger] small[k]
}

proof fn lemma_slice_trans<T>(big: Seq<T>, mid: Seq<T>, small: Seq<T>, o1: int, o2: int)
    requires
        is_slice_at(big, mid, o1),
        is_slice_at(mid, small, o2),
    ensures
        is_slice_at(big, small, o1 + o2),
{
    assert forall|k: int| 0 <= k < small.len() implies big[o1 + o2 + k] == #[trigger] small[k] by {
        assert(mid[o2 + k] == small[k]);
        assert(big[o1 + (o2 + k)] == mid[o2 + k]);
    }
}

proof fn lemma_slice_of_sum<T>(a: Seq<T>, b: Seq<T>, c: Seq<T>)
    ensures
        is_slice_at(a + b + c, b, a.len() as int),
        is_slice_at(a + b, a, 0),
        is_slice_at(a + b, b, a.len() as int),
{
    assert forall|k: int| 0 <= k < b.len() implies (a + b + c)[a.len() + k] == #[trigger] b[k] by {
        assert((a + b + c)[a.len() + k] == (a + b)[a.len() + k]);
    }
    assert forall|k: int| 0 <= k < a.len() implies (a + b)[0 + k] == #[trigger] a[k] by {}
}

/// The lines of each item stand, in order, among the lines of all items.
proof fn lemma_flat_map_slice<T>(items: Seq<T>, f: spec_fn(T) -> Seq<(LineKind, Seq<char>)>, j: int)
    requires
        0 <= j < items.len(),
    ensures
        exists|off: int| #[trigger] is_slice_at(flat_map(items, f), f(items[j]), off),
    decreases items.len(),
{
    let init = items.drop_last();
    let all = flat_map(items, f);
    lemma_slice_of_sum(flat_map(init, f), f(items.last()), Seq::empty());
    if j == items.len() - 1 {
        assert(is_slice_at(all, f(items[j]), flat_map(init, f).len() as int));
    } else {
        lemma_flat_map_slice(init, f, j);
        assert(init[j] == items[j]);
        let off = choose|off: int| #[trigger] is_slice_at(flat_map(init, f), f(init[j]), off);
        lemma_slice_trans(all, flat_map(init, f), f(items[j]), 0, off);
    }
}

/// A line with text is never dropped with the empty lines at the end.
proof fn lemma_drop_trailing_keeps_text(s: Seq<(LineKind, Seq<char>)>, q: int)
    requires
        0 <= q < s.len(),
        s[q].1.len() > 0,
    ensures
        q < drop_trailing_blanks(s).len(),
        is_slice_at(drop_trailing_blanks(s), s.take(q + 1), 0),
    decreases s.len(),
{
    lemma_drop_trailing_blanks(s);
    if s.len() > 0 && s.last().1.len() == 0 {
        assert(q < s.len() - 1);
        assert(s.drop_last()[q] == s[q]);
        lemma_drop_trailing_keeps_text(s.drop_last(), q);
    }
    let d = drop_trailing_blanks(s);
    assert forall|k: int| 0 <= k < s.take(q + 1).len() implies d[0 + k] == #[trigger] s.take(q + 1)[k] by {
        assert(d == s.take(d.len() as int));
    }
}

/// Each work entry shown keeps its summary: in a resume whose theme shows
/// the work section, the line after a work entry's title line is the
/// entry's summary, where it has one with text.
pub proof fn lemma_work_summary_follows_title(r: Resume, t: Theme, j: int)
    requires
        visible_section_ids(t).contains(SectionId::Work),
        0 <= j < r.work@.len(),
        r.work@[j].summary is Some,
        r.work@[j].summary->0@.len() > 0,
    ensures
        exists|i: int|
            0 <= i && i + 1 < rendered(r, t).len() && #[trigger] rendered(r, t)[i] == (
                LineKind::Body,
                work_title(r.work@[j]),
            ) && rendered(r, t)[i + 1] == (LineKind::Body, r.work@[j].summary->0@),
{
    let pt = is_portuguese_opt(opt_string_view(r.locale));
    let ids = visible_section_ids(t);
    let e = r.work@[j];
    let s = e.summary->0@;
    let k = choose|k: int| 0 <= k < ids.len() && ids[k] == SectionId::Work;
    let all = flat_map(ids, section_fn(r, pt));
    // the work section among all sections
    lemma_flat_map_slice(ids, section_fn(r, pt), k);
    let o1 = choose|off: int| #[trigger] is_slice_at(all, section_fn(r, pt)(ids[k]), off);
    let section = section_lines(r, SectionId::Work, pt);
    assert(section_fn(r, pt)(ids[k]) == section);
    let entries = flat_map(r.work@, work_entry_fn());
    let h = seq![heading(label_text("work"@, pt))];
    assert(section == h + entries + Seq::<(LineKind, Seq<char>)>::empty());
    lemma_slice_of_sum(h, entries, Seq::empty());
    lemma_slice_trans(all, section, entries, o1, 1);
    // the entry among the entries
    lemma_flat_map_slice(r.work@, work_entry_fn(), j);
    let o2 = choose|off: int| #[trigger] is_slice_at(entries, work_entry_fn()(r.work@[j]), off);
    let lines = work_entry_lines(e);
    assert(work_entry_fn()(r.work@[j]) == lines);
    lemma_slice_trans(all, entries, lines, o1 + 1, o2);
    let p = o1 + 1 + o2;
    // the entry's first two lines
    let head = seq![body(work_title(e))];
    let rest = optional_body(e.summary) + bullets(e.highlights@) + seq![blank()];
    assert(lines =~= head + optional_body(e.summary) + bullets(e.highlights@) + seq![blank()]);
    assert(optional_body(e.summary) == seq![body(s)]);
    assert(lines[0] == body(work_title(e)));
    assert(lines[1] == body(s));
    assert(all[p] == lines[0]);
    assert(all[p + 1] == lines[1]);
    // both lines have text, so neither is dropped at the end
    lemma_drop_trailing_keeps_text(all, p + 1);
    let d = drop_trailing_blanks(all);
    assert(d[p] == all.take(p + 2)[p]);
    assert(d[p + 1] == all.take(p + 2)[p + 1]);
    assert(rendered(r, t)[p] == (LineKind::Body, work_title(e)));
}

} // verus!
