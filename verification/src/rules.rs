//! The rule tables: disallowed phrase lists, required markers, and the
//! line-count ceilings, as named values rather than scattered literals.

use vstd::prelude::*;
use crate::text::chars_vec;

verus! {

/// The views of a list of string slices.
pub open spec fn str_views(l: Seq<&str>) -> Seq<Seq<char>> {
    l.map_values(|s: &str| s@)
}

/// Sequential-instruction phrases disallowed in the top-level document.
pub open spec fn workflow_verbs() -> Seq<Seq<char>> {
    seq![
        "must then"@,
        "next,"@,
        "step 1"@,
        "step 2"@,
        "first,"@,
        "second,"@,
        "finally,"@,
        "afterward"@,
        "subsequently"@,
    ]
}

/// The workflow-verb table, for scanning.
pub fn workflow_verb_list() -> (l: Vec<&'static str>)
    ensures
        str_views(l@) == workflow_verbs(),
{
    let l: Vec<&'static str> = vec![
        "must then",
        "next,",
        "step 1",
        "step 2",
        "first,",
        "second,",
        "finally,",
        "afterward",
        "subsequently",
    ];
    proof {
        assert(str_views(l@) =~= workflow_verbs());
    }
    l
}

/// Procedural-section headings disallowed in agent documents.
pub open spec fn procedural_markers() -> Seq<Seq<char>> {
    seq!["## procedure"@, "## workflow"@, "## steps"@]
}

/// The procedural-section table, for scanning.
pub fn procedural_marker_list() -> (l: Vec<&'static str>)
    ensures
        str_views(l@) == procedural_markers(),
{
    let l: Vec<&'static str> = vec!["## procedure", "## workflow", "## steps"];
    proof {
        assert(str_views(l@) =~= procedural_markers());
    }
    l
}

/// Mandate-language phrases disallowed in skill documents.
pub open spec fn success_terms() -> Seq<Seq<char>> {
    seq![
        "success criteria"@,
        "must ensure"@,
        "must verify"@,
        "requirement:"@,
        "requirements:"@,
        "you must"@,
    ]
}

/// The success-criteria table, for scanning.
pub fn success_term_list() -> (l: Vec<&'static str>)
    ensures
        str_views(l@) == success_terms(),
{
    let l: Vec<&'static str> = vec![
        "success criteria",
        "must ensure",
        "must verify",
        "requirement:",
        "requirements:",
        "you must",
    ];
    proof {
        assert(str_views(l@) =~= success_terms());
    }
    l
}

/// The fenced-code-block marker.
pub open spec fn fence_marker() -> Seq<char> {
    "```"@
}

/// The fence marker, for scanning.
pub fn fence_pat() -> (v: Vec<char>)
    ensures
        v@ == fence_marker(),
{
    chars_vec("```")
}

/// The opening frontmatter delimiter: a line of three hyphens that must
/// stand first in a document, its newline included.
pub open spec fn frontmatter_marker() -> Seq<char> {
    "---\n"@
}

/// The frontmatter delimiter, for scanning.
pub fn frontmatter_pat() -> (v: Vec<char>)
    ensures
        v@ == frontmatter_marker(),
{
    chars_vec("---\n")
}

/// The capability heading a skill document must contain, surrounding
/// newlines included.
pub open spec fn capability_marker() -> Seq<char> {
    "\n## Capability\n"@
}

/// The capability heading, for scanning.
pub fn capability_pat() -> (v: Vec<char>)
    ensures
        v@ == capability_marker(),
{
    chars_vec("\n## Capability\n")
}

/// The references heading a skill document must contain when reference
/// documents accompany it.
pub open spec fn references_marker() -> Seq<char> {
    "\n## References\n"@
}

/// The references heading, for scanning.
pub fn references_pat() -> (v: Vec<char>)
    ensures
        v@ == references_marker(),
{
    chars_vec("\n## References\n")
}

/// The word a reference document must state near its top.
pub open spec fn optional_marker() -> Seq<char> {
    "optional"@
}

/// The optional marker, for scanning.
pub fn optional_pat() -> (v: Vec<char>)
    ensures
        v@ == optional_marker(),
{
    chars_vec("optional")
}

} // verus!
