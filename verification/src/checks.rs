//! The four checkers. Each works on a snapshot of what the filesystem
//! held — paths, directory listings and read outcomes as plain values —
//! and appends its findings, in traversal order, to one shared report.

use vstd::prelude::*;
use crate::lowercase::{lower_of, lowercase_chars};
use crate::report::{error_views, lemma_error_views_push, ErrorView, LintError, PhraseKind};
use crate::rules::{
    capability_marker, capability_pat, fence_marker, fence_pat, frontmatter_marker,
    frontmatter_pat, optional_marker, optional_pat, procedural_markers, procedural_marker_list,
    references_marker, references_pat, str_views, success_terms, success_term_list,
    workflow_verbs, workflow_verb_list,
};
use crate::text::{
    chars_vec, contains_pat, count_lines, head_chars, head_lines, is_match_at, is_md_name,
    spec_is_md, spec_line_count, starts_with_pat, text_contains,
};

verus! {

/// The ceiling on agent document lines.
pub const AGENT_MAX_LINES: usize = 120;

/// The ceiling on skill document lines.
pub const SKILL_MAX_LINES: usize = 500;

/// How many leading lines of a reference document are searched for the
/// optional marker.
pub const REFERENCE_HEAD_LINES: usize = 15;

/// The outcome of looking for and reading one required document.
pub enum DocState {
    /// No such file.
    Missing,
    /// The file exists but could not be read as text.
    Unreadable,
    /// The file's full text.
    Content(String),
}

/// The mathematical shape of a read outcome.
pub enum DocStateView {
    Missing,
    Unreadable,
    Content(Seq<char>),
}

impl View for DocState {
    type V = DocStateView;

    open spec fn view(&self) -> DocStateView {
        match self {
            DocState::Missing => DocStateView::Missing,
            DocState::Unreadable => DocStateView::Unreadable,
            DocState::Content(s) => DocStateView::Content(s@),
        }
    }
}

/// One direct entry of a listed directory: its display path, its bare
/// file name, and its text if it was a readable file.
pub struct FileEntry {
    pub path: String,
    pub name: String,
    pub content: Option<String>,
}

/// The mathematical shape of a directory entry.
pub struct FileEntryView {
    pub path: Seq<char>,
    pub name: Seq<char>,
    pub content: Option<Seq<char>>,
}

impl View for FileEntry {
    type V = FileEntryView;

    open spec fn view(&self) -> FileEntryView {
        FileEntryView {
            path: self.path@,
            name: self.name@,
            content: match self.content {
                Option::Some(s) => Option::Some(s@),
                Option::None => Option::None,
            },
        }
    }
}

/// One direct entry of the skills directory.
pub struct SkillEntry {
    /// The entry's display path.
    pub path: String,
    /// Whether the entry is itself a directory; anything else is ignored.
    pub is_dir: bool,
    /// The display path of the required document inside it.
    pub skill_md_path: String,
    /// The outcome of reading that document.
    pub skill_md: DocState,
    /// Whether the skill holds a references subdirectory.
    pub has_references_dir: bool,
    /// The entries of that subdirectory, when it exists and could be
    /// listed.
    pub references: Vec<FileEntry>,
}

/// The mathematical shape of a skill entry.
pub struct SkillEntryView {
    pub path: Seq<char>,
    pub is_dir: bool,
    pub skill_md_path: Seq<char>,
    pub skill_md: DocStateView,
    pub has_references_dir: bool,
    pub references: Seq<FileEntryView>,
}

/// The views of a list of directory entries.
pub open spec fn entry_views(s: Seq<FileEntry>) -> Seq<FileEntryView> {
    s.map_values(|e: FileEntry| e@)
}

impl View for SkillEntry {
    type V = SkillEntryView;

    open spec fn view(&self) -> SkillEntryView {
        SkillEntryView {
            path: self.path@,
            is_dir: self.is_dir,
            skill_md_path: self.skill_md_path@,
            skill_md: self.skill_md@,
            has_references_dir: self.has_references_dir,
            references: entry_views(self.references@),
        }
    }
}

/// The views of a list of skill entries.
pub open spec fn skill_views(s: Seq<SkillEntry>) -> Seq<SkillEntryView> {
    s.map_values(|e: SkillEntry| e@)
}

/// A snapshot of the workspace tree: the top-level document and the two
/// optional directory listings. An absent or unlistable directory is an
/// empty listing; both yield no findings.
pub struct Workspace {
    /// The display path of the required top-level document.
    pub claude_md_path: String,
    /// The outcome of reading it.
    pub claude_md: DocState,
    /// The direct entries of the agents directory.
    pub agents: Vec<FileEntry>,
    /// The direct entries of the skills directory.
    pub skills: Vec<SkillEntry>,
}

/// The mathematical shape of a workspace snapshot.
pub struct WorkspaceView {
    pub claude_md_path: Seq<char>,
    pub claude_md: DocStateView,
    pub agents: Seq<FileEntryView>,
    pub skills: Seq<SkillEntryView>,
}

impl View for Workspace {
    type V = WorkspaceView;

    open spec fn view(&self) -> WorkspaceView {
        WorkspaceView {
            claude_md_path: self.claude_md_path@,
            claude_md: self.claude_md@,
            agents: entry_views(self.agents@),
            skills: skill_views(self.skills@),
        }
    }
}

/// The document opens with the frontmatter delimiter line.
pub open spec fn has_frontmatter(text: Seq<char>) -> bool {
    is_match_at(text, frontmatter_marker(), 0)
}

/// The finding for a missing frontmatter delimiter, if due.
pub open spec fn frontmatter_errors(path: Seq<char>, text: Seq<char>) -> Seq<ErrorView> {
    if !has_frontmatter(text) {
        seq![ErrorView::MissingFrontmatter { path }]
    } else {
        Seq::empty()
    }
}

/// The finding for a document over its line ceiling, if due.
pub open spec fn too_long_errors(path: Seq<char>, text: Seq<char>, max_lines: nat) -> Seq<
    ErrorView,
> {
    if spec_line_count(text) > max_lines {
        seq![ErrorView::TooLong { path, lines: spec_line_count(text), max_lines }]
    } else {
        Seq::empty()
    }
}

/// The finding for a fenced code block, if due: one finding however
/// many fences the document holds.
pub open spec fn fence_errors(path: Seq<char>, text: Seq<char>) -> Seq<ErrorView> {
    if text_contains(text, fence_marker()) {
        seq![ErrorView::Fence { path }]
    } else {
        Seq::empty()
    }
}

/// The findings of scanning the lowered text for each phrase of a
/// table, in table order: one finding per phrase present, however often
/// it occurs.
pub open spec fn phrase_errors(
    kind: PhraseKind,
    path: Seq<char>,
    lower: Seq<char>,
    phrases: Seq<Seq<char>>,
) -> Seq<ErrorView>
    decreases phrases.len(),
{
    if phrases.len() == 0 {
        Seq::empty()
    } else {
        phrase_errors(kind, path, lower, phrases.drop_last()) + if text_contains(
            lower,
            phrases.last(),
        ) {
            seq![ErrorView::Phrase { kind, path, phrase: phrases.last() }]
        } else {
            Seq::empty()
        }
    }
}

/// The finding for a missing capability heading, if due.
pub open spec fn capability_errors(path: Seq<char>, text: Seq<char>) -> Seq<ErrorView> {
    if !text_contains(text, capability_marker()) {
        seq![ErrorView::MissingCapability { path }]
    } else {
        Seq::empty()
    }
}

/// The finding for a missing references heading, if due.
pub open spec fn refs_section_errors(path: Seq<char>, text: Seq<char>) -> Seq<ErrorView> {
    if !text_contains(text, references_marker()) {
        seq![ErrorView::MissingReferencesSection { path }]
    } else {
        Seq::empty()
    }
}

/// The findings for the top-level document: its absence or
/// unreadability is itself reported; its text must carry no workflow
/// verb and no fence.
pub open spec fn claude_md_errors(path: Seq<char>, doc: DocStateView) -> Seq<ErrorView> {
    match doc {
        DocStateView::Missing => seq![ErrorView::MissingClaudeMd { path }],
        DocStateView::Unreadable => seq![ErrorView::CannotRead { path }],
        DocStateView::Content(text) => phrase_errors(
            PhraseKind::WorkflowVerb,
            path,
            lower_of(text),
            workflow_verbs(),
        ) + fence_errors(path, text),
    }
}

/// The findings for one agents-directory entry. Only readable entries
/// named `*.md` are checked; everything else is passed over silently.
pub open spec fn agent_entry_errors(e: FileEntryView) -> Seq<ErrorView> {
    if !spec_is_md(e.name) {
        Seq::empty()
    } else {
        match e.content {
            Option::None => Seq::empty(),
            Option::Some(text) => frontmatter_errors(e.path, text) + too_long_errors(
                e.path,
                text,
                AGENT_MAX_LINES as nat,
            ) + fence_errors(e.path, text) + phrase_errors(
                PhraseKind::ProceduralSection,
                e.path,
                lower_of(text),
                procedural_markers(),
            ),
        }
    }
}

/// The findings over an agents listing, in listing order.
pub open spec fn agents_errors(entries: Seq<FileEntryView>) -> Seq<ErrorView>
    decreases entries.len(),
{
    if entries.len() == 0 {
        Seq::empty()
    } else {
        agents_errors(entries.drop_last()) + agent_entry_errors(entries.last())
    }
}

/// The findings for one references-directory entry: a readable `*.md`
/// document must state the optional marker within its leading lines.
pub open spec fn reference_entry_errors(e: FileEntryView) -> Seq<ErrorView> {
    if !spec_is_md(e.name) {
        Seq::empty()
    } else {
        match e.content {
            Option::None => Seq::empty(),
            Option::Some(text) => if !text_contains(
                lower_of(head_chars(text, REFERENCE_HEAD_LINES as nat)),
                optional_marker(),
            ) {
                seq![ErrorView::MissingOptional { path: e.path }]
            } else {
                Seq::empty()
            },
        }
    }
}

/// The findings over a references listing, in listing order.
pub open spec fn references_errors(entries: Seq<FileEntryView>) -> Seq<ErrorView>
    decreases entries.len(),
{
    if entries.len() == 0 {
        Seq::empty()
    } else {
        references_errors(entries.drop_last()) + reference_entry_errors(entries.last())
    }
}

/// The findings for one skills-directory entry. A missing required
/// document is the skill's only finding; an unreadable one silently
/// ends the skill's checks; otherwise the document's own rules apply,
/// and the references subdirectory is descended into when present.
pub open spec fn skill_entry_errors(s: SkillEntryView) -> Seq<ErrorView> {
    if !s.is_dir {
        Seq::empty()
    } else {
        match s.skill_md {
            DocStateView::Missing => seq![ErrorView::MissingSkillMd { path: s.path }],
            DocStateView::Unreadable => Seq::empty(),
            DocStateView::Content(text) => frontmatter_errors(s.skill_md_path, text)
                + capability_errors(s.skill_md_path, text) + too_long_errors(
                s.skill_md_path,
                text,
                SKILL_MAX_LINES as nat,
            ) + fence_errors(s.skill_md_path, text) + phrase_errors(
                PhraseKind::SuccessCriteria,
                s.skill_md_path,
                lower_of(text),
                success_terms(),
            ) + if s.has_references_dir {
                refs_section_errors(s.skill_md_path, text) + references_errors(s.references)
            } else {
                Seq::empty()
            },
        }
    }
}

/// The findings over a skills listing, in listing order.
pub open spec fn skills_errors(entries: Seq<SkillEntryView>) -> Seq<ErrorView>
    decreases entries.len(),
{
    if entries.len() == 0 {
        Seq::empty()
    } else {
        skills_errors(entries.drop_last()) + skill_entry_errors(entries.last())
    }
}

/// Every finding of a workspace snapshot, in traversal order: the
/// top-level document first, then the agents, then the skills.
pub open spec fn workspace_errors(w: WorkspaceView) -> Seq<ErrorView> {
    claude_md_errors(w.claude_md_path, w.claude_md) + agents_errors(w.agents) + skills_errors(
        w.skills,
    )
}

/// Appends the finding for a missing frontmatter delimiter, if due.
fn check_frontmatter(path: &str, text: &Vec<char>, errors: &mut Vec<LintError>)
    ensures
        error_views(final(errors)@) == error_views(old(errors)@) + frontmatter_errors(path@, text@),
{
    let marker = frontmatter_pat();
    if !starts_with_pat(text, &marker) {
        let e = LintError::MissingFrontmatter { path: String::from_str(path) };
        proof {
            lemma_error_views_push(errors@, e);
        }
        errors.push(e);
        proof {
            assert(error_views(errors@) =~= error_views(old(errors)@) + frontmatter_errors(
                path@,
                text@,
            ));
        }
    } else {
        proof {
            assert(error_views(errors@) =~= error_views(old(errors)@) + frontmatter_errors(
                path@,
                text@,
            ));
        }
    }
}

/// Appends the finding for a document over its line ceiling, if due.
fn check_too_long(path: &str, text: &str, max_lines: usize, errors: &mut Vec<LintError>)
    ensures
        error_views(final(errors)@) == error_views(old(errors)@) + too_long_errors(
            path@,
            text@,
            max_lines as nat,
        ),
{
    let lines = count_lines(text);
    if lines > max_lines {
        let e = LintError::TooLong { path: String::from_str(path), lines, max_lines };
        proof {
            lemma_error_views_push(errors@, e);
        }
        errors.push(e);
        proof {
            assert(error_views(errors@) =~= error_views(old(errors)@) + too_long_errors(
                path@,
                text@,
                max_lines as nat,
            ));
        }
    } else {
        proof {
            assert(error_views(errors@) =~= error_views(old(errors)@) + too_long_errors(
                path@,
                text@,
                max_lines as nat,
            ));
        }
    }
}

/// Appends the finding for a fenced code block, if due.
fn check_fence(path: &str, text: &Vec<char>, errors: &mut Vec<LintError>)
    ensures
        error_views(final(errors)@) == error_views(old(errors)@) + fence_errors(path@, text@),
{
    let fence = fence_pat();
    if contains_pat(text, &fence) {
        let e = LintError::Fence { path: String::from_str(path) };
        proof {
            lemma_error_views_push(errors@, e);
        }
        errors.push(e);
        proof {
            assert(error_views(errors@) =~= error_views(old(errors)@) + fence_errors(
                path@,
                text@,
            ));
        }
    } else {
        proof {
            assert(error_views(errors@) =~= error_views(old(errors)@) + fence_errors(
                path@,
                text@,
            ));
        }
    }
}

/// Scans the lowered text for each phrase of a table, appending one
/// finding per phrase present.
fn scan_phrases(
    kind: PhraseKind,
    path: &str,
    lower: &Vec<char>,
    phrases: &Vec<&'static str>,
    errors: &mut Vec<LintError>,
)
    ensures
        error_views(final(errors)@) == error_views(old(errors)@) + phrase_errors(
            kind,
            path@,
            lower@,
            str_views(phrases@),
        ),
{
    let n = phrases.len();
    let mut j: usize = 0;
    proof {
        assert(str_views(phrases@).take(0) =~= Seq::<Seq<char>>::empty());
        assert(error_views(errors@) =~= error_views(errors@) + phrase_errors(
            kind,
            path@,
            lower@,
            str_views(phrases@).take(0),
        ));
    }
    while j < n
        invariant
            n == phrases@.len(),
            j <= n,
            error_views(errors@) == error_views(old(errors)@) + phrase_errors(
                kind,
                path@,
                lower@,
                str_views(phrases@).take(j as int),
            ),
        decreases n - j,
    {
        let ghost table = str_views(phrases@);
        proof {
            assert(table.take(j + 1 as int).drop_last() =~= table.take(j as int));
            assert(table.take(j + 1 as int).last() == phrases@[j as int]@);
        }
        let p: &'static str = phrases[j];
        let pv = chars_vec(p);
        if contains_pat(lower, &pv) {
            let e = LintError::Phrase {
                kind,
                path: String::from_str(path),
                phrase: String::from_str(p),
            };
            proof {
                lemma_error_views_push(errors@, e);
            }
            errors.push(e);
        }
        proof {
            assert(error_views(errors@) =~= error_views(old(errors)@) + phrase_errors(
                kind,
                path@,
                lower@,
                table.take(j + 1 as int),
            ));
        }
        j = j + 1;
    }
    proof {
        assert(str_views(phrases@).take(n as int) =~= str_views(phrases@));
    }
}

/// Checks the required top-level document: it must exist and be
/// readable, carry no workflow verb, and hold no fenced code block.
pub fn check_claude_md(path: &str, doc: &DocState, errors: &mut Vec<LintError>)
    ensures
        error_views(final(errors)@) == error_views(old(errors)@) + claude_md_errors(path@, doc@),
{
    match doc {
        DocState::Missing => {
            let e = LintError::MissingClaudeMd { path: String::from_str(path) };
            proof {
                lemma_error_views_push(errors@, e);
            }
            errors.push(e);
            proof {
                assert(error_views(errors@) =~= error_views(old(errors)@) + claude_md_errors(
                    path@,
                    doc@,
                ));
            }
        },
        DocState::Unreadable => {
            let e = LintError::CannotRead { path: String::from_str(path) };
            proof {
                lemma_error_views_push(errors@, e);
            }
            errors.push(e);
            proof {
                assert(error_views(errors@) =~= error_views(old(errors)@) + claude_md_errors(
                    path@,
                    doc@,
                ));
            }
        },
        DocState::Content(text) => {
            let ghost at_entry = error_views(errors@);
            let text_v = chars_vec(text.as_str());
            let lower_v = lowercase_chars(&text_v);
            let verbs = workflow_verb_list();
            scan_phrases(PhraseKind::WorkflowVerb, path, &lower_v, &verbs, errors);
            check_fence(path, &text_v, errors);
            proof {
                assert(error_views(errors@) =~= at_entry + claude_md_errors(path@, doc@));
            }
        },
    }
}

/// Checks one agents-directory entry.
fn check_agent_entry(e: &FileEntry, errors: &mut Vec<LintError>)
    ensures
        error_views(final(errors)@) == error_views(old(errors)@) + agent_entry_errors(e@),
{
    if !is_md_name(e.name.as_str()) {
        proof {
            assert(error_views(errors@) =~= error_views(errors@) + agent_entry_errors(e@));
        }
        return ;
    }
    match &e.content {
        Option::None => {
            proof {
                assert(error_views(errors@) =~= error_views(errors@) + agent_entry_errors(e@));
            }
        },
        Option::Some(text) => {
            let ghost at_entry = error_views(errors@);
            let path = e.path.as_str();
            let text_v = chars_vec(text.as_str());
            check_frontmatter(path, &text_v, errors);
            check_too_long(path, text.as_str(), AGENT_MAX_LINES, errors);
            check_fence(path, &text_v, errors);
            let lower_v = lowercase_chars(&text_v);
            let markers = procedural_marker_list();
            scan_phrases(PhraseKind::ProceduralSection, path, &lower_v, &markers, errors);
            proof {
                assert(error_views(errors@) =~= at_entry + agent_entry_errors(e@));
            }
        },
    }
}

/// Checks every entry of the agents listing, in order. The directory is
/// optional: an empty listing yields no findings.
pub fn check_agents(entries: &Vec<FileEntry>, errors: &mut Vec<LintError>)
    ensures
        error_views(final(errors)@) == error_views(old(errors)@) + agents_errors(entry_views(entries@)),
{
    let n = entries.len();
    let mut i: usize = 0;
    proof {
        assert(entry_views(entries@).take(0) =~= Seq::<FileEntryView>::empty());
        assert(error_views(errors@) =~= error_views(errors@) + agents_errors(
            entry_views(entries@).take(0),
        ));
    }
    while i < n
        invariant
            n == entries@.len(),
            i <= n,
            error_views(errors@) == error_views(old(errors)@) + agents_errors(
                entry_views(entries@).take(i as int),
            ),
        decreases n - i,
    {
        let ghost listing = entry_views(entries@);
        proof {
            assert(listing.take(i + 1 as int).drop_last() =~= listing.take(i as int));
            assert(listing.take(i + 1 as int).last() == entries@[i as int]@);
        }
        check_agent_entry(&entries[i], errors);
        proof {
            assert(error_views(errors@) =~= error_views(old(errors)@) + agents_errors(
                listing.take(i + 1 as int),
            ));
        }
        i = i + 1;
    }
    proof {
        assert(entry_views(entries@).take(n as int) =~= entry_views(entries@));
    }
}

/// Checks one references-directory entry.
fn check_reference_entry(e: &FileEntry, errors: &mut Vec<LintError>)
    ensures
        error_views(final(errors)@) == error_views(old(errors)@) + reference_entry_errors(e@),
{
    if !is_md_name(e.name.as_str()) {
        proof {
            assert(error_views(errors@) =~= error_views(errors@) + reference_entry_errors(e@));
        }
        return ;
    }
    match &e.content {
        Option::None => {
            proof {
                assert(error_views(errors@) =~= error_views(errors@) + reference_entry_errors(
                    e@,
                ));
            }
        },
        Option::Some(text) => {
            let text_v = chars_vec(text.as_str());
            let head = head_lines(&text_v, REFERENCE_HEAD_LINES);
            let lower_head = lowercase_chars(&head);
            let marker = optional_pat();
            if !contains_pat(&lower_head, &marker) {
                let e2 = LintError::MissingOptional { path: String::from_str(e.path.as_str()) };
                proof {
                    lemma_error_views_push(errors@, e2);
                }
                errors.push(e2);
                proof {
                    assert(error_views(errors@) =~= error_views(old(errors)@)
                        + reference_entry_errors(e@));
                }
            } else {
                proof {
                    assert(error_views(errors@) =~= error_views(errors@) + reference_entry_errors(
                        e@,
                    ));
                }
            }
        },
    }
}

/// Checks every entry of a references listing, in order.
pub fn check_references(entries: &Vec<FileEntry>, errors: &mut Vec<LintError>)
    ensures
        error_views(final(errors)@) == error_views(old(errors)@) + references_errors(
            entry_views(entries@),
        ),
{
    let n = entries.len();
    let mut i: usize = 0;
    proof {
        assert(entry_views(entries@).take(0) =~= Seq::<FileEntryView>::empty());
        assert(error_views(errors@) =~= error_views(errors@) + references_errors(
            entry_views(entries@).take(0),
        ));
    }
    while i < n
        invariant
            n == entries@.len(),
            i <= n,
            error_views(errors@) == error_views(old(errors)@) + references_errors(
                entry_views(entries@).take(i as int),
            ),
        decreases n - i,
    {
        let ghost listing = entry_views(entries@);
        proof {
            assert(listing.take(i + 1 as int).drop_last() =~= listing.take(i as int));
            assert(listing.take(i + 1 as int).last() == entries@[i as int]@);
        }
        check_reference_entry(&entries[i], errors);
        proof {
            assert(error_views(errors@) =~= error_views(old(errors)@) + references_errors(
                listing.take(i + 1 as int),
            ));
        }
        i = i + 1;
    }
    proof {
        assert(entry_views(entries@).take(n as int) =~= entry_views(entries@));
    }
}

/// Appends the finding for a missing capability heading, if due.
fn check_capability(path: &str, text: &Vec<char>, errors: &mut Vec<LintError>)
    ensures
        error_views(final(errors)@) == error_views(old(errors)@) + capability_errors(
            path@,
            text@,
        ),
{
    let capability = capability_pat();
    if !contains_pat(text, &capability) {
        let e = LintError::MissingCapability { path: String::from_str(path) };
        proof {
            lemma_error_views_push(errors@, e);
        }
        errors.push(e);
    }
    proof {
        assert(error_views(errors@) =~= error_views(old(errors)@) + capability_errors(
            path@,
            text@,
        ));
    }
}

/// Appends the finding for a missing references heading, if due.
fn check_refs_section(path: &str, text: &Vec<char>, errors: &mut Vec<LintError>)
    ensures
        error_views(final(errors)@) == error_views(old(errors)@) + refs_section_errors(
            path@,
            text@,
        ),
{
    let references = references_pat();
    if !contains_pat(text, &references) {
        let e = LintError::MissingReferencesSection { path: String::from_str(path) };
        proof {
            lemma_error_views_push(errors@, e);
        }
        errors.push(e);
    }
    proof {
        assert(error_views(errors@) =~= error_views(old(errors)@) + refs_section_errors(
            path@,
            text@,
        ));
    }
}

/// Checks one skills-directory entry.
fn check_skill_entry(s: &SkillEntry, errors: &mut Vec<LintError>)
    ensures
        error_views(final(errors)@) == error_views(old(errors)@) + skill_entry_errors(s@),
{
    if !s.is_dir {
        proof {
            assert(error_views(errors@) =~= error_views(errors@) + skill_entry_errors(s@));
        }
        return ;
    }
    match &s.skill_md {
        DocState::Missing => {
            let e = LintError::MissingSkillMd { path: String::from_str(s.path.as_str()) };
            proof {
                lemma_error_views_push(errors@, e);
            }
            errors.push(e);
            proof {
                assert(error_views(errors@) =~= error_views(old(errors)@) + skill_entry_errors(
                    s@,
                ));
            }
        },
        DocState::Unreadable => {
            proof {
                assert(error_views(errors@) =~= error_views(errors@) + skill_entry_errors(s@));
            }
        },
        DocState::Content(text) => {
            let ghost at_entry = error_views(errors@);
            let ghost pathv = s.skill_md_path@;
            let ghost textv = text@;
            let ghost fm = frontmatter_errors(pathv, textv);
            let ghost ca = capability_errors(pathv, textv);
            let ghost tl = too_long_errors(pathv, textv, SKILL_MAX_LINES as nat);
            let ghost fe = fence_errors(pathv, textv);
            let ghost ph = phrase_errors(
                PhraseKind::SuccessCriteria,
                pathv,
                lower_of(textv),
                success_terms(),
            );
            let path = s.skill_md_path.as_str();
            let text_v = chars_vec(text.as_str());
            check_frontmatter(path, &text_v, errors);
            check_capability(path, &text_v, errors);
            check_too_long(path, text.as_str(), SKILL_MAX_LINES, errors);
            check_fence(path, &text_v, errors);
            let lower_v = lowercase_chars(&text_v);
            let terms = success_term_list();
            scan_phrases(PhraseKind::SuccessCriteria, path, &lower_v, &terms, errors);
            proof {
                assert(error_views(errors@) =~= at_entry + (fm + ca + tl + fe + ph));
            }
            if s.has_references_dir {
                check_refs_section(path, &text_v, errors);
                check_references(&s.references, errors);
                proof {
                    assert(error_views(errors@) =~= at_entry + (fm + ca + tl + fe + ph + (
                    refs_section_errors(pathv, textv) + references_errors(
                        entry_views(s.references@),
                    ))));
                }
            }
            proof {
                assert(skill_entry_errors(s@) == fm + ca + tl + fe + ph + if s.has_references_dir {
                    refs_section_errors(pathv, textv) + references_errors(
                        entry_views(s.references@),
                    )
                } else {
                    Seq::<ErrorView>::empty()
                });
                assert(error_views(errors@) =~= at_entry + skill_entry_errors(s@));
            }
        },
    }
}

/// Checks every entry of the skills listing, in order. The directory is
/// optional: an empty listing yields no findings.
pub fn check_skills(entries: &Vec<SkillEntry>, errors: &mut Vec<LintError>)
    ensures
        error_views(final(errors)@) == error_views(old(errors)@) + skills_errors(skill_views(entries@)),
{
    let n = entries.len();
    let mut i: usize = 0;
    proof {
        assert(skill_views(entries@).take(0) =~= Seq::<SkillEntryView>::empty());
        assert(error_views(errors@) =~= error_views(errors@) + skills_errors(
            skill_views(entries@).take(0),
        ));
    }
    while i < n
        invariant
            n == entries@.len(),
            i <= n,
            error_views(errors@) == error_views(old(errors)@) + skills_errors(
                skill_views(entries@).take(i as int),
            ),
        decreases n - i,
    {
        let ghost listing = skill_views(entries@);
        proof {
            assert(listing.take(i + 1 as int).drop_last() =~= listing.take(i as int));
            assert(listing.take(i + 1 as int).last() == entries@[i as int]@);
        }
        check_skill_entry(&entries[i], errors);
        proof {
            assert(error_views(errors@) =~= error_views(old(errors)@) + skills_errors(
                listing.take(i + 1 as int),
            ));
        }
        i = i + 1;
    }
    proof {
        assert(skill_views(entries@).take(n as int) =~= skill_views(entries@));
    }
}

/// Runs every checker over a workspace snapshot and returns the full
/// report, in traversal order.
pub fn run_checks(w: &Workspace) -> (errors: Vec<LintError>)
    ensures
        error_views(errors@) == workspace_errors(w@),
{
    let mut errors: Vec<LintError> = Vec::new();
    proof {
        assert(error_views(errors@) =~= Seq::<ErrorView>::empty());
    }
    check_claude_md(w.claude_md_path.as_str(), &w.claude_md, &mut errors);
    check_agents(&w.agents, &mut errors);
    check_skills(&w.skills, &mut errors);
    proof {
        assert(error_views(errors@) =~= workspace_errors(w@));
    }
    errors
}

} // verus!
