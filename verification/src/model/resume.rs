//! The resume document and its validation rules.

use vstd::prelude::*;

use crate::constants::RESUME_SCHEMA_VERSION;
use crate::error::{issue_views, ValidationIssue};
use crate::text::{decimal, push_decimal, str_contains_char, str_is_blank, is_blank};
use crate::util::{is_url, is_valid_url};

verus! {

/// A resume in the canonical schema.
#[derive(Debug, Clone)]
pub struct Resume {
    pub schema_version: u32,
    pub basics: Basics,
    pub work: Vec<WorkExperience>,
    pub education: Vec<EducationEntry>,
    pub skills: Vec<SkillCategory>,
    pub certifications: Vec<Certification>,
    pub projects: Vec<Project>,
    pub languages: Vec<LanguageSkill>,
    pub awards: Vec<Award>,
    pub theme: Option<String>,
    pub locale: Option<String>,
    pub target_role: Option<String>,
}

/// Who the resume is about.
#[derive(Debug, Clone)]
pub struct Basics {
    pub name: String,
    pub headline: Option<String>,
    pub email: String,
    pub phone: Option<String>,
    pub location: Option<String>,
    pub summary: Option<String>,
    pub links: Vec<Link>,
}

/// A labelled link.
#[derive(Debug, Clone)]
pub struct Link {
    pub label: String,
    pub url: String,
}

/// A position held.
#[derive(Debug, Clone)]
pub struct WorkExperience {
    pub company: String,
    pub position: String,
    pub start_date: Option<String>,
    pub end_date: Option<String>,
    pub location: Option<String>,
    pub summary: Option<String>,
    pub highlights: Vec<String>,
}

/// A course of study.
#[derive(Debug, Clone)]
pub struct EducationEntry {
    pub institution: String,
    pub area: String,
    pub study_type: Option<String>,
    pub start_date: Option<String>,
    pub end_date: Option<String>,
    pub location: Option<String>,
    pub score: Option<String>,
}

/// A group of skills.
#[derive(Debug, Clone)]
pub struct SkillCategory {
    pub category: String,
    pub items: Vec<String>,
}

/// A certification held.
#[derive(Debug, Clone)]
pub struct Certification {
    pub name: String,
    pub issuer: Option<String>,
    pub date: Option<String>,
    pub summary: Option<String>,
}

/// A project.
#[derive(Debug, Clone)]
pub struct Project {
    pub name: String,
    pub summary: Option<String>,
    pub url: Option<String>,
    pub highlights: Vec<String>,
}

/// A language spoken.
#[derive(Debug, Clone)]
pub struct LanguageSkill {
    pub name: String,
    pub fluency: Option<String>,
}

/// An award received.
#[derive(Debug, Clone)]
pub struct Award {
    pub title: String,
    pub issuer: Option<String>,
    pub date: Option<String>,
    pub summary: Option<String>,
}

/// The name of field `suffix` of entry `index` of list `prefix`, as in
/// `work[2].company`.
pub open spec fn indexed_field(prefix: Seq<char>, index: nat, suffix: Seq<char>) -> Seq<char> {
    prefix + decimal(index) + suffix
}

/// One issue when `cond` holds, none otherwise.
pub open spec fn issue_if(cond: bool, field: Seq<char>, message: Seq<char>) -> Seq<(Seq<char>, Seq<char>)> {
    if cond {
        seq![(field, message)]
    } else {
        Seq::empty()
    }
}

/// The issues of link `i`: a blank label, a URL that does not parse.
pub open spec fn link_issues(link: Link, i: nat) -> Seq<(Seq<char>, Seq<char>)> {
    issue_if(
        is_blank(link.label@),
        indexed_field("basics.links["@, i, "].label"@),
        "link label is required"@,
    ) + issue_if(
        !is_valid_url(link.url@),
        indexed_field("basics.links["@, i, "].url"@),
        "link must be a valid URL"@,
    )
}

/// The issues of all links, in order.
pub open spec fn links_issues(links: Seq<Link>) -> Seq<(Seq<char>, Seq<char>)>
    decreases links.len(),
{
    if links.len() == 0 {
        Seq::empty()
    } else {
        links_issues(links.drop_last()) + link_issues(links.last(), (links.len() - 1) as nat)
    }
}

/// The issues of work entry `i`: a blank company or position, no highlight.
pub open spec fn work_issues(work: WorkExperience, i: nat) -> Seq<(Seq<char>, Seq<char>)> {
    issue_if(
        is_blank(work.company@),
        indexed_field("work["@, i, "].company"@),
        "company is required"@,
    ) + issue_if(
        is_blank(work.position@),
        indexed_field("work["@, i, "].position"@),
        "position is required"@,
    ) + issue_if(
        work.highlights@.len() == 0,
        indexed_field("work["@, i, "].highlights"@),
        "at least one highlight is required"@,
    )
}

/// The issues of all work entries, in order.
pub open spec fn works_issues(works: Seq<WorkExperience>) -> Seq<(Seq<char>, Seq<char>)>
    decreases works.len(),
{
    if works.len() == 0 {
        Seq::empty()
    } else {
        works_issues(works.drop_last()) + work_issues(works.last(), (works.len() - 1) as nat)
    }
}

/// The issues of skill group `i`: a blank category, no item.
pub open spec fn skill_issues(skill: SkillCategory, i: nat) -> Seq<(Seq<char>, Seq<char>)> {
    issue_if(
        is_blank(skill.category@),
        indexed_field("skills["@, i, "].category"@),
        "skill category is required"@,
    ) + issue_if(
        skill.items@.len() == 0,
        indexed_field("skills["@, i, "].items"@),
        "at least one skill item is required"@,
    )
}

/// The issues of all skill groups, in order.
pub open spec fn skills_issues(skills: Seq<SkillCategory>) -> Seq<(Seq<char>, Seq<char>)>
    decreases skills.len(),
{
    if skills.len() == 0 {
        Seq::empty()
    } else {
        skills_issues(skills.drop_last()) + skill_issues(skills.last(), (skills.len() - 1) as nat)
    }
}

/// The issues of project `i`: a URL that is given and does not parse.
pub open spec fn project_issues(project: Project, i: nat) -> Seq<(Seq<char>, Seq<char>)> {
    match project.url {
        Some(url) => issue_if(
            !is_valid_url(url@),
            indexed_field("projects["@, i, "].url"@),
            "project URL must be valid"@,
        ),
        None => Seq::empty(),
    }
}

/// The issues of all projects, in order.
pub open spec fn projects_issues(projects: Seq<Project>) -> Seq<(Seq<char>, Seq<char>)>
    decreases projects.len(),
{
    if projects.len() == 0 {
        Seq::empty()
    } else {
        projects_issues(projects.drop_last()) + project_issues(
            projects.last(),
            (projects.len() - 1) as nat,
        )
    }
}

/// Every issue of a resume, in the order the checks are made.
pub open spec fn resume_issues(r: Resume) -> Seq<(Seq<char>, Seq<char>)> {
    issue_if(
        r.schema_version != RESUME_SCHEMA_VERSION,
        "schema_version"@,
        "expected schema_version 1"@,
    ) + issue_if(is_blank(r.basics.name@), "basics.name"@, "name is required"@) + issue_if(
        !r.basics.email@.contains('@'),
        "basics.email"@,
        "email must contain @"@,
    ) + links_issues(r.basics.links@) + issue_if(
        r.work@.len() == 0,
        "work"@,
        "at least one work entry is required"@,
    ) + works_issues(r.work@) + issue_if(
        r.education@.len() == 0,
        "education"@,
        "at least one education entry is required"@,
    ) + skills_issues(r.skills@) + projects_issues(r.projects@)
}

/// `prefix`, the decimal numeral of `index`, then `suffix`.
fn indexed_field_name(prefix: &str, index: usize, suffix: &str) -> (r: String)
    ensures
        r@ == indexed_field(prefix@, index as nat, suffix@),
{
    let mut r = String::from_str(prefix);
    push_decimal(&mut r, index);
    r.append(suffix);
    r
}

/// Adds an issue to `issues` when `cond` holds.
fn push_issue_if(issues: &mut Vec<ValidationIssue>, cond: bool, field: &str, message: &str)
    ensures
        issue_views(final(issues)@) == issue_views(old(issues)@) + issue_if(cond, field@, message@),
{
    let ghost before = issue_views(issues@);
    if cond {
        issues.push(ValidationIssue::new(field, message));
        assert(issue_views(issues@) =~= before + seq![(field@, message@)]);
    } else {
        assert(issue_views(issues@) =~= before + Seq::<(Seq<char>, Seq<char>)>::empty());
    }
}

/// Adds an issue of field `prefix[index]suffix` when `cond` holds.
fn push_indexed_issue_if(
    issues: &mut Vec<ValidationIssue>,
    cond: bool,
    prefix: &str,
    index: usize,
    suffix: &str,
    message: &str,
)
    ensures
        issue_views(final(issues)@) == issue_views(old(issues)@) + issue_if(
            cond,
            indexed_field(prefix@, index as nat, suffix@),
            message@,
        ),
{
    let ghost before = issue_views(issues@);
    if cond {
        let field = indexed_field_name(prefix, index, suffix);
        issues.push(ValidationIssue::new(field.as_str(), message));
        assert(issue_views(issues@) =~= before + seq![(field@, message@)]);
    } else {
        assert(issue_views(issues@) =~= before + Seq::<(Seq<char>, Seq<char>)>::empty());
    }
}

impl Resume {
    /// Every problem of the resume, in the order the checks are made.
    pub fn validate(&self) -> (r: Vec<ValidationIssue>)
        ensures
            issue_views(r@) == resume_issues(*self),
    {
        let mut issues: Vec<ValidationIssue> = Vec::new();
        push_issue_if(
            &mut issues,
            self.schema_version != RESUME_SCHEMA_VERSION,
            "schema_version",
            "expected schema_version 1",
        );
        push_issue_if(
            &mut issues,
            str_is_blank(self.basics.name.as_str()),
            "basics.name",
            "name is required",
        );
        push_issue_if(
            &mut issues,
            !str_contains_char(self.basics.email.as_str(), '@'),
            "basics.email",
            "email must contain @",
        );
        let ghost head = issue_views(issues@);
        let links = &self.basics.links;
        let mut i: usize = 0;
        while i < links.len()
            invariant
                i <= links.len(),
                issue_views(issues@) == head + links_issues(links@.take(i as int)),
            decreases links.len() - i,
        {
            proof {
                assert(links@.take(i + 1).drop_last() =~= links@.take(i as int));
            }
            let link = &links[i];
            push_indexed_issue_if(
                &mut issues,
                str_is_blank(link.label.as_str()),
                "basics.links[",
                i,
                "].label",
                "link label is required",
            );
            push_indexed_issue_if(
                &mut issues,
                !is_url(link.url.as_str()),
                "basics.links[",
                i,
                "].url",
                "link must be a valid URL",
            );
            proof {
                assert(issue_views(issues@) =~= head + links_issues(links@.take(i + 1)));
            }
            i = i + 1;
        }
        assert(links@.take(links.len() as int) =~= links@);
        push_issue_if(
            &mut issues,
            self.work.len() == 0,
            "work",
            "at least one work entry is required",
        );
        let ghost head = issue_views(issues@);
        let works = &self.work;
        let mut i: usize = 0;
        while i < works.len()
            invariant
                i <= works.len(),
                issue_views(issues@) == head + works_issues(works@.take(i as int)),
            decreases works.len() - i,
        {
            proof {
                assert(works@.take(i + 1).drop_last() =~= works@.take(i as int));
            }
            let work = &works[i];
            push_indexed_issue_if(
                &mut issues,
                str_is_blank(work.company.as_str()),
                "work[",
                i,
                "].company",
                "company is required",
            );
            push_indexed_issue_if(
                &mut issues,
                str_is_blank(work.position.as_str()),
                "work[",
                i,
                "].position",
                "position is required",
            );
            push_indexed_issue_if(
                &mut issues,
                work.highlights.len() == 0,
                "work[",
                i,
                "].highlights",
                "at least one highlight is required",
            );
            proof {
                assert(issue_views(issues@) =~= head + works_issues(works@.take(i + 1)));
            }
            i = i + 1;
        }
        assert(works@.take(works.len() as int) =~= works@);
        push_issue_if(
            &mut issues,
            self.education.len() == 0,
            "education",
            "at least one education entry is required",
        );
        let ghost head = issue_views(issues@);
        let skills = &self.skills;
        let mut i: usize = 0;
        while i < skills.len()
            invariant
                i <= skills.len(),
                issue_views(issues@) == head + skills_issues(skills@.take(i as int)),
            decreases skills.len() - i,
        {
            proof {
                assert(skills@.take(i + 1).drop_last() =~= skills@.take(i as int));
            }
            let skill = &skills[i];
            push_indexed_issue_if(
                &mut issues,
                str_is_blank(skill.category.as_str()),
                "skills[",
                i,
                "].category",
                "skill category is required",
            );
            push_indexed_issue_if(
                &mut issues,
                skill.items.len() == 0,
                "skills[",
                i,
                "].items",
                "at least one skill item is required",
            );
            proof {
                assert(issue_views(issues@) =~= head + skills_issues(skills@.take(i + 1)));
            }
            i = i + 1;
        }
        assert(skills@.take(skills.len() as int) =~= skills@);
        let ghost head = issue_views(issues@);
        let projects = &self.projects;
        let mut i: usize = 0;
        while i < projects.len()
            invariant
                i <= projects.len(),
                issue_views(issues@) == head + projects_issues(projects@.take(i as int)),
            decreases projects.len() - i,
        {
            proof {
                assert(projects@.take(i + 1).drop_last() =~= projects@.take(i as int));
            }
            let project = &projects[i];
            match &project.url {
                Some(url) => {
                    push_indexed_issue_if(
                        &mut issues,
                        !is_url(url.as_str()),
                        "projects[",
                        i,
                        "].url",
                        "project URL must be valid",
                    );
                },
                None => {
                    assert(project_issues(*project, i as nat) =~= Seq::empty());
                },
            }
            proof {
                assert(issue_views(issues@) =~= head + projects_issues(projects@.take(i + 1)));
            }
            i = i + 1;
        }
        assert(projects@.take(projects.len() as int) =~= projects@);
        issues
    }
}

proof fn lemma_contains_in_sum<T>(a: Seq<T>, b: Seq<T>, x: T)
    requires
        a.contains(x) || b.contains(x),
    ensures
        (a + b).contains(x),
{
    if a.contains(x) {
        let i = choose|i: int| 0 <= i < a.len() && a[i] == x;
        assert((a + b)[i] == x);
    } else {
        let i = choose|i: int| 0 <= i < b.len() && b[i] == x;
        assert((a + b)[a.len() + i] == x);
    }
}

/// The issues of every work entry are among the issues of all entries.
proof fn lemma_works_issues_contain(works: Seq<WorkExperience>, i: int, x: (Seq<char>, Seq<char>))
    requires
        0 <= i < works.len(),
        work_issues(works[i], i as nat).contains(x),
    ensures
        works_issues(works).contains(x),
    decreases works.len(),
{
    let init = works.drop_last();
    if i == works.len() - 1 {
        lemma_contains_in_sum(works_issues(init), work_issues(works.last(), i as nat), x);
    } else {
        assert(init[i] == works[i]);
        lemma_works_issues_contain(init, i, x);
        lemma_contains_in_sum(works_issues(init), work_issues(works.last(), (works.len() - 1) as nat), x);
    }
}

/// Every work entry is checked, the first one included: an entry `i`
/// without highlights, or with a blank company or position, is reported
/// under `work[i].highlights`, `work[i].company` or `work[i].position`.
pub proof fn lemma_every_work_entry_checked(r: Resume, i: int)
    requires
        0 <= i < r.work@.len(),
    ensures
        r.work@[i].highlights@.len() == 0 ==> resume_issues(r).contains(
            ("work["@ + decimal(i as nat) + "].highlights"@, "at least one highlight is required"@),
        ),
        is_blank(r.work@[i].company@) ==> resume_issues(r).contains(
            ("work["@ + decimal(i as nat) + "].company"@, "company is required"@),
        ),
        is_blank(r.work@[i].position@) ==> resume_issues(r).contains(
            ("work["@ + decimal(i as nat) + "].position"@, "position is required"@),
        ),
{
    let w = r.work@[i];
    let n = i as nat;
    let a = issue_if(is_blank(w.company@), indexed_field("work["@, n, "].company"@), "company is required"@);
    let b = issue_if(is_blank(w.position@), indexed_field("work["@, n, "].position"@), "position is required"@);
    let c = issue_if(
        w.highlights@.len() == 0,
        indexed_field("work["@, n, "].highlights"@),
        "at least one highlight is required"@,
    );
    let head = issue_if(
        r.schema_version != RESUME_SCHEMA_VERSION,
        "schema_version"@,
        "expected schema_version 1"@,
    ) + issue_if(is_blank(r.basics.name@), "basics.name"@, "name is required"@) + issue_if(
        !r.basics.email@.contains('@'),
        "basics.email"@,
        "email must contain @"@,
    ) + links_issues(r.basics.links@) + issue_if(
        r.work@.len() == 0,
        "work"@,
        "at least one work entry is required"@,
    );
    let tail = issue_if(
        r.education@.len() == 0,
        "education"@,
        "at least one education entry is required"@,
    ) + skills_issues(r.skills@) + projects_issues(r.projects@);
    assert(resume_issues(r) =~= head + works_issues(r.work@) + tail);
    let xs = seq![
        (indexed_field("work["@, n, "].highlights"@), "at least one highlight is required"@),
        (indexed_field("work["@, n, "].company"@), "company is required"@),
        (indexed_field("work["@, n, "].position"@), "position is required"@),
    ];
    assert forall|m: int| 0 <= m < 3 && ((m == 0 && w.highlights@.len() == 0) || (m == 1 && is_blank(w.company@))
        || (m == 2 && is_blank(w.position@))) implies resume_issues(r).contains(#[trigger] xs[m]) by {
        let x = xs[m];
        if m == 0 {
            assert(c[0] == x);
            lemma_contains_in_sum(a + b, c, x);
        } else if m == 1 {
            assert(a[0] == x);
            lemma_contains_in_sum(a, b, x);
            lemma_contains_in_sum(a + b, c, x);
        } else {
            assert(b[0] == x);
            lemma_contains_in_sum(a, b, x);
            lemma_contains_in_sum(a + b, c, x);
        }
        assert(work_issues(w, n) == a + b + c);
        lemma_works_issues_contain(r.work@, i, x);
        lemma_contains_in_sum(head, works_issues(r.work@), x);
        lemma_contains_in_sum(head + works_issues(r.work@), tail, x);
    }
    assert(xs[0] == xs[0]);
    assert(xs[1] == xs[1]);
    assert(xs[2] == xs[2]);
}

} // verus!
