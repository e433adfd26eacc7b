//! Themes: colors, type sizes and the order of the resume's sections.
//!
//! Type sizes and spacings are held in hundredths of a point.

use vstd::prelude::*;

use crate::constants::THEME_SCHEMA_VERSION;
use crate::error::{issue_views, ValidationIssue};
use crate::model::resume::issue_if;
use crate::util::{is_hex_color, is_hex_color_spec, is_safe_file_stem, is_safe_stem};

verus! {

/// A theme for rendering resumes.
#[derive(Debug, Clone)]
pub struct Theme {
    pub schema_version: u32,
    pub name: String,
    pub description: Option<String>,
    pub ats_safe: bool,
    pub palette: ThemePalette,
    pub typography: ThemeTypography,
    pub spacing: ThemeSpacing,
    pub layout: ThemeLayout,
    pub sections: Vec<ThemeSection>,
}

/// The theme's colors, each written `#RRGGBB`.
#[derive(Debug, Clone)]
pub struct ThemePalette {
    pub primary: String,
    pub secondary: String,
    pub accent: String,
    pub text: String,
    pub muted: String,
}

/// The theme's font and type sizes, in hundredths of a point.
#[derive(Debug, Clone)]
pub struct ThemeTypography {
    pub font_family: String,
    pub base_size_cpt: i32,
    pub heading_size_cpt: i32,
}

/// The theme's spacings, in hundredths of a point.
#[derive(Debug, Clone)]
pub struct ThemeSpacing {
    pub section_gap_cpt: i32,
    pub item_gap_cpt: i32,
    pub page_margin_cpt: i32,
}

/// How many columns the theme lays the page out in.
#[derive(Debug, Clone)]
pub struct ThemeLayout {
    pub columns: u8,
}

/// One section of the resume and whether the theme shows it.
#[derive(Debug, Clone, Copy)]
pub struct ThemeSection {
    pub id: SectionId,
    pub visible: bool,
}

/// The sections of a resume.
#[derive(Debug, Clone, Copy, PartialEq, Eq, Structural)]
pub enum SectionId {
    Basics,
    Summary,
    Work,
    Education,
    Skills,
    Certifications,
    Projects,
    Languages,
    Awards,
}

/// The smallest base type size a theme may have: eight points.
pub const MIN_BASE_SIZE_CPT: i32 = 800;

/// Every issue of a theme, in the order the checks are made.
pub open spec fn theme_issues(t: Theme) -> Seq<(Seq<char>, Seq<char>)> {
    issue_if(
        t.schema_version != THEME_SCHEMA_VERSION,
        "schema_version"@,
        "expected schema_version 1"@,
    ) + issue_if(
        !is_safe_stem(t.name@),
        "name"@,
        "theme name must contain only ASCII letters, numbers, '-' or '_'"@,
    ) + issue_if(
        !(1 <= t.layout.columns && t.layout.columns <= 2),
        "layout.columns"@,
        "theme layout columns must be 1 or 2"@,
    ) + issue_if(
        !is_hex_color_spec(t.palette.primary@),
        "palette.primary"@,
        "color must be in #RRGGBB format"@,
    ) + issue_if(
        !is_hex_color_spec(t.palette.secondary@),
        "palette.secondary"@,
        "color must be in #RRGGBB format"@,
    ) + issue_if(
        !is_hex_color_spec(t.palette.accent@),
        "palette.accent"@,
        "color must be in #RRGGBB format"@,
    ) + issue_if(
        !is_hex_color_spec(t.palette.text@),
        "palette.text"@,
        "color must be in #RRGGBB format"@,
    ) + issue_if(
        !is_hex_color_spec(t.palette.muted@),
        "palette.muted"@,
        "color must be in #RRGGBB format"@,
    ) + issue_if(
        t.typography.base_size_cpt < MIN_BASE_SIZE_CPT,
        "typography.base_size_pt"@,
        "base font size must be at least 8pt"@,
    ) + issue_if(
        t.typography.heading_size_cpt < t.typography.base_size_cpt,
        "typography.heading_size_pt"@,
        "heading size must be greater than or equal to base size"@,
    )
}

/// The sections marked visible, in the theme's order.
pub open spec fn marked_visible(sections: Seq<ThemeSection>) -> Seq<SectionId>
    decreases sections.len(),
{
    if sections.len() == 0 {
        Seq::empty()
    } else {
        marked_visible(sections.drop_last()) + if sections.last().visible {
            seq![sections.last().id]
        } else {
            Seq::empty()
        }
    }
}

/// The order of sections used when a theme shows none.
pub open spec fn default_section_order() -> Seq<SectionId> {
    seq![
        SectionId::Basics,
        SectionId::Summary,
        SectionId::Work,
        SectionId::Education,
        SectionId::Skills,
        SectionId::Projects,
        SectionId::Certifications,
        SectionId::Languages,
        SectionId::Awards,
    ]
}

/// The sections a theme shows, in order.
pub open spec fn visible_section_ids(t: Theme) -> Seq<SectionId> {
    if marked_visible(t.sections@).len() == 0 {
        default_section_order()
    } else {
        marked_visible(t.sections@)
    }
}

fn push_theme_issue_if(issues: &mut Vec<ValidationIssue>, cond: bool, field: &str, message: &str)
    ensures
        issue_views(final(issues)@) == issue_views(old(issues)@) + issue_if(cond, field@, message@),
{
    let ghost before = issue_views(issues@);
    if cond {
        issues.push(ValidationIssue::new(field, message));
        assert(issue_views(issues@) =~= before + seq![(field@, message@)]);
    } else {
        assert(issue_views(issues@) =~= before + Seq::<(Seq<char>, Seq<char>)>::empty());
    }
}

impl Theme {
    /// Every problem of the theme, in the order the checks are made.
    pub fn validate(&self) -> (r: Vec<ValidationIssue>)
        ensures
            issue_views(r@) == theme_issues(*self),
    {
        let mut issues: Vec<ValidationIssue> = Vec::new();
        push_theme_issue_if(
            &mut issues,
            self.schema_version != THEME_SCHEMA_VERSION,
            "schema_version",
            "expected schema_version 1",
        );
        push_theme_issue_if(
            &mut issues,
            !is_safe_file_stem(self.name.as_str()),
            "name",
            "theme name must contain only ASCII letters, numbers, '-' or '_'",
        );
        push_theme_issue_if(
            &mut issues,
            !(1 <= self.layout.columns && self.layout.columns <= 2),
            "layout.columns",
            "theme layout columns must be 1 or 2",
        );
        push_theme_issue_if(
            &mut issues,
            !is_hex_color(self.palette.primary.as_str()),
            "palette.primary",
            "color must be in #RRGGBB format",
        );
        push_theme_issue_if(
            &mut issues,
            !is_hex_color(self.palette.secondary.as_str()),
            "palette.secondary",
            "color must be in #RRGGBB format",
        );
        push_theme_issue_if(
            &mut issues,
            !is_hex_color(self.palette.accent.as_str()),
            "palette.accent",
            "color must be in #RRGGBB format",
        );
        push_theme_issue_if(
            &mut issues,
            !is_hex_color(self.palette.text.as_str()),
            "palette.text",
            "color must be in #RRGGBB format",
        );
        push_theme_issue_if(
            &mut issues,
            !is_hex_color(self.palette.muted.as_str()),
            "palette.muted",
            "color must be in #RRGGBB format",
        );
        push_theme_issue_if(
            &mut issues,
            self.typography.base_size_cpt < MIN_BASE_SIZE_CPT,
            "typography.base_size_pt",
            "base font size must be at least 8pt",
        );
        push_theme_issue_if(
            &mut issues,
            self.typography.heading_size_cpt < self.typography.base_size_cpt,
            "typography.heading_size_pt",
            "heading size must be greater than or equal to base size",
        );
        issues
    }

    /// The sections the theme shows, in order; all of them, in the default
    /// order, when it marks none visible.
    pub fn visible_sections(&self) -> (r: Vec<SectionId>)
        ensures
            r@ == visible_section_ids(*self),
    {
        let mut out: Vec<SectionId> = Vec::new();
        let sections = &self.sections;
        let mut i: usize = 0;
        while i < sections.len()
            invariant
                i <= sections.len(),
                out@ == marked_visible(sections@.take(i as int)),
            decreases sections.len() - i,
        {
            proof {
                assert(sections@.take(i + 1).drop_last() =~= sections@.take(i as int));
            }
            let ghost before = out@;
            if sections[i].visible {
                out.push(sections[i].id);
                assert(out@ =~= before + seq![sections@[i as int].id]);
            } else {
                assert(out@ =~= before + Seq::<SectionId>::empty());
            }
            i = i + 1;
        }
        assert(sections@.take(sections.len() as int) =~= sections@);
        if out.len() == 0 {
            let d = vec![
                SectionId::Basics,
                SectionId::Summary,
                SectionId::Work,
                SectionId::Education,
                SectionId::Skills,
                SectionId::Projects,
                SectionId::Certifications,
                SectionId::Languages,
                SectionId::Awards,
            ];
            assert(d@ =~= default_section_order());
            d
        } else {
            out
        }
    }
}

} // verus!
