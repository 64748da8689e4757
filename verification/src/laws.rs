//! Laws of the rule set, stated over the checkers' own spec functions
//! and proved once for all inputs: how many findings of a given shape a
//! document can provoke, and that phrase findings are deduplicated.

use vstd::prelude::*;
use crate::checks::{
    agent_entry_errors, capability_errors, claude_md_errors, fence_errors, frontmatter_errors,
    has_frontmatter, phrase_errors, reference_entry_errors, references_errors,
    refs_section_errors, skill_entry_errors, too_long_errors, DocStateView, FileEntryView,
    SkillEntryView, AGENT_MAX_LINES, SKILL_MAX_LINES,
};
use crate::lowercase::lower_of;
use crate::report::{ErrorView, PhraseKind};
use crate::rules::{
    capability_marker, fence_marker, optional_marker, procedural_markers, references_marker,
    success_terms, workflow_verbs,
};
use crate::text::{head_chars, spec_is_md, spec_line_count, text_contains};

verus! {

/// How many findings in `s` satisfy `p`.
pub open spec fn count_errors(s: Seq<ErrorView>, p: spec_fn(ErrorView) -> bool) -> nat
    decreases s.len(),
{
    if s.len() == 0 {
        0
    } else {
        count_errors(s.drop_last(), p) + if p(s.last()) {
            1nat
        } else {
            0nat
        }
    }
}

pub proof fn lemma_count_errors_add(a: Seq<ErrorView>, b: Seq<ErrorView>, p: spec_fn(ErrorView) -> bool)
    ensures
        count_errors(a + b, p) == count_errors(a, p) + count_errors(b, p),
    decreases b.len(),
{
    if b.len() == 0 {
        assert(a + b =~= a);
    } else {
        lemma_count_errors_add(a, b.drop_last(), p);
        assert((a + b).drop_last() =~= a + b.drop_last());
        assert((a + b).last() == b.last());
    }
}

pub proof fn lemma_count_errors_singleton(e: ErrorView, p: spec_fn(ErrorView) -> bool)
    ensures
        count_errors(seq![e], p) == if p(e) {
            1nat
        } else {
            0nat
        },
{
    assert(seq![e].drop_last() =~= Seq::<ErrorView>::empty());
    assert(seq![e].last() == e);
    assert(count_errors(Seq::<ErrorView>::empty(), p) == 0);
    assert(seq![e].len() == 1);
}

/// A phrase scan only ever reports phrase findings.
pub proof fn lemma_phrase_errors_none(
    kind: PhraseKind,
    path: Seq<char>,
    lower: Seq<char>,
    phrases: Seq<Seq<char>>,
    p: spec_fn(ErrorView) -> bool,
)
    requires
        forall|ph: Seq<char>| !p((ErrorView::Phrase { kind, path, phrase: ph })),
    ensures
        count_errors(phrase_errors(kind, path, lower, phrases), p) == 0,
    decreases phrases.len(),
{
    if phrases.len() > 0 {
        lemma_phrase_errors_none(kind, path, lower, phrases.drop_last(), p);
        let tail = if text_contains(lower, phrases.last()) {
            seq![ErrorView::Phrase { kind, path, phrase: phrases.last() }]
        } else {
            Seq::<ErrorView>::empty()
        };
        lemma_count_errors_add(phrase_errors(kind, path, lower, phrases.drop_last()), tail, p);
        if text_contains(lower, phrases.last()) {
            lemma_count_errors_singleton(
                ErrorView::Phrase { kind, path, phrase: phrases.last() },
                p,
            );
        }
    }
}

/// A references listing only ever reports missing-optional findings.
pub proof fn lemma_references_errors_none(
    entries: Seq<FileEntryView>,
    p: spec_fn(ErrorView) -> bool,
)
    requires
        forall|pa: Seq<char>| !p((ErrorView::MissingOptional { path: pa })),
    ensures
        count_errors(references_errors(entries), p) == 0,
    decreases entries.len(),
{
    if entries.len() > 0 {
        lemma_references_errors_none(entries.drop_last(), p);
        lemma_count_errors_add(
            references_errors(entries.drop_last()),
            reference_entry_errors(entries.last()),
            p,
        );
        let e = entries.last();
        if spec_is_md(e.name) && e.content is Some {
            let text = e.content->0;
            if !text_contains(lower_of(head_chars(text, 15)), optional_marker()) {
                lemma_count_errors_singleton(ErrorView::MissingOptional { path: e.path }, p);
            }
        }
    }
}

/// The findings of a checked agent document split into the four rules'
/// own findings.
proof fn lemma_agent_parts(e: FileEntryView, text: Seq<char>, p: spec_fn(ErrorView) -> bool)
    requires
        spec_is_md(e.name),
        e.content == Option::<Seq<char>>::Some(text),
    ensures
        count_errors(agent_entry_errors(e), p) == count_errors(frontmatter_errors(e.path, text), p)
            + count_errors(too_long_errors(e.path, text, AGENT_MAX_LINES as nat), p)
            + count_errors(fence_errors(e.path, text), p) + count_errors(
            phrase_errors(
                PhraseKind::ProceduralSection,
                e.path,
                lower_of(text),
                procedural_markers(),
            ),
            p,
        ),
{
    let fm = frontmatter_errors(e.path, text);
    let tl = too_long_errors(e.path, text, AGENT_MAX_LINES as nat);
    let fe = fence_errors(e.path, text);
    let ph = phrase_errors(
        PhraseKind::ProceduralSection,
        e.path,
        lower_of(text),
        procedural_markers(),
    );
    assert(agent_entry_errors(e) == fm + tl + fe + ph);
    lemma_count_errors_add(fm + tl + fe, ph, p);
    lemma_count_errors_add(fm + tl, fe, p);
    lemma_count_errors_add(fm, tl, p);
}

/// The findings of a checked skill document split into the rules' own
/// findings.
proof fn lemma_skill_parts(s: SkillEntryView, text: Seq<char>, p: spec_fn(ErrorView) -> bool)
    requires
        s.is_dir,
        s.skill_md == DocStateView::Content(text),
    ensures
        count_errors(skill_entry_errors(s), p) == count_errors(
            frontmatter_errors(s.skill_md_path, text),
            p,
        ) + count_errors(capability_errors(s.skill_md_path, text), p) + count_errors(
            too_long_errors(s.skill_md_path, text, SKILL_MAX_LINES as nat),
            p,
        ) + count_errors(fence_errors(s.skill_md_path, text), p) + count_errors(
            phrase_errors(
                PhraseKind::SuccessCriteria,
                s.skill_md_path,
                lower_of(text),
                success_terms(),
            ),
            p,
        ) + if s.has_references_dir {
            count_errors(refs_section_errors(s.skill_md_path, text), p) + count_errors(
                references_errors(s.references),
                p,
            )
        } else {
            0
        },
{
    let fm = frontmatter_errors(s.skill_md_path, text);
    let ca = capability_errors(s.skill_md_path, text);
    let tl = too_long_errors(s.skill_md_path, text, SKILL_MAX_LINES as nat);
    let fe = fence_errors(s.skill_md_path, text);
    let ph = phrase_errors(
        PhraseKind::SuccessCriteria,
        s.skill_md_path,
        lower_of(text),
        success_terms(),
    );
    let re = if s.has_references_dir {
        refs_section_errors(s.skill_md_path, text) + references_errors(s.references)
    } else {
        Seq::<ErrorView>::empty()
    };
    assert(skill_entry_errors(s) == fm + ca + tl + fe + ph + re);
    lemma_count_errors_add(fm + ca + tl + fe + ph, re, p);
    lemma_count_errors_add(fm + ca + tl + fe, ph, p);
    lemma_count_errors_add(fm + ca + tl, fe, p);
    lemma_count_errors_add(fm + ca, tl, p);
    lemma_count_errors_add(fm, ca, p);
    if s.has_references_dir {
        lemma_count_errors_add(
            refs_section_errors(s.skill_md_path, text),
            references_errors(s.references),
            p,
        );
    }
}

/// Law: a checked agent document without the leading frontmatter
/// delimiter provokes exactly one missing-frontmatter finding, whatever
/// else it contains; with the delimiter, none.
pub proof fn lemma_agent_frontmatter(e: FileEntryView, text: Seq<char>)
    requires
        spec_is_md(e.name),
        e.content == Option::<Seq<char>>::Some(text),
    ensures
        count_errors(agent_entry_errors(e), |er: ErrorView| er is MissingFrontmatter) == if !has_frontmatter(text) {
            1nat
        } else {
            0nat
        },
{
    let p = |er: ErrorView| er is MissingFrontmatter;
    lemma_agent_parts(e, text, p);
    if !has_frontmatter(text) {
        lemma_count_errors_singleton(ErrorView::MissingFrontmatter { path: e.path }, p);
    }
    if spec_line_count(text) > AGENT_MAX_LINES as nat {
        lemma_count_errors_singleton(
            ErrorView::TooLong {
                path: e.path,
                lines: spec_line_count(text),
                max_lines: AGENT_MAX_LINES as nat,
            },
            p,
        );
    }
    if text_contains(text, fence_marker()) {
        lemma_count_errors_singleton(ErrorView::Fence { path: e.path }, p);
    }
    lemma_phrase_errors_none(
        PhraseKind::ProceduralSection,
        e.path,
        lower_of(text),
        procedural_markers(),
        p,
    );
}

/// Law: a checked skill document without the leading frontmatter
/// delimiter provokes exactly one missing-frontmatter finding, whatever
/// else it contains; with the delimiter, none.
pub proof fn lemma_skill_frontmatter(s: SkillEntryView, text: Seq<char>)
    requires
        s.is_dir,
        s.skill_md == DocStateView::Content(text),
    ensures
        count_errors(skill_entry_errors(s), |er: ErrorView| er is MissingFrontmatter) == if !has_frontmatter(text) {
            1nat
        } else {
            0nat
        },
{
    let p = |er: ErrorView| er is MissingFrontmatter;
    lemma_skill_parts(s, text, p);
    if !has_frontmatter(text) {
        lemma_count_errors_singleton(ErrorView::MissingFrontmatter { path: s.skill_md_path }, p);
    }
    if !text_contains(text, capability_marker()) {
        lemma_count_errors_singleton(ErrorView::MissingCapability { path: s.skill_md_path }, p);
    }
    if spec_line_count(text) > SKILL_MAX_LINES as nat {
        lemma_count_errors_singleton(
            ErrorView::TooLong {
                path: s.skill_md_path,
                lines: spec_line_count(text),
                max_lines: SKILL_MAX_LINES as nat,
            },
            p,
        );
    }
    if text_contains(text, fence_marker()) {
        lemma_count_errors_singleton(ErrorView::Fence { path: s.skill_md_path }, p);
    }
    lemma_phrase_errors_none(
        PhraseKind::SuccessCriteria,
        s.skill_md_path,
        lower_of(text),
        success_terms(),
        p,
    );
    if s.has_references_dir {
        if !text_contains(text, references_marker()) {
            lemma_count_errors_singleton(
                ErrorView::MissingReferencesSection { path: s.skill_md_path },
                p,
            );
        }
        lemma_references_errors_none(s.references, p);
    }
}

/// Law: a checked agent document over the line ceiling provokes exactly
/// one too-long finding, and that finding reports the document's true
/// line count; at or under the ceiling, none.
pub proof fn lemma_agent_too_long(e: FileEntryView, text: Seq<char>)
    requires
        spec_is_md(e.name),
        e.content == Option::<Seq<char>>::Some(text),
    ensures
        count_errors(agent_entry_errors(e), |er: ErrorView| er is TooLong) == if spec_line_count(
            text,
        ) > AGENT_MAX_LINES as nat {
            1nat
        } else {
            0nat
        },
        spec_line_count(text) > AGENT_MAX_LINES as nat ==> agent_entry_errors(e).contains(
            (ErrorView::TooLong {
                path: e.path,
                lines: spec_line_count(text),
                max_lines: AGENT_MAX_LINES as nat,
            }),
        ),
{
    let p = |er: ErrorView| er is TooLong;
    lemma_agent_parts(e, text, p);
    if !has_frontmatter(text) {
        lemma_count_errors_singleton(ErrorView::MissingFrontmatter { path: e.path }, p);
    }
    if text_contains(text, fence_marker()) {
        lemma_count_errors_singleton(ErrorView::Fence { path: e.path }, p);
    }
    lemma_phrase_errors_none(
        PhraseKind::ProceduralSection,
        e.path,
        lower_of(text),
        procedural_markers(),
        p,
    );
    if spec_line_count(text) > AGENT_MAX_LINES as nat {
        let terr = ErrorView::TooLong {
            path: e.path,
            lines: spec_line_count(text),
            max_lines: AGENT_MAX_LINES as nat,
        };
        lemma_count_errors_singleton(terr, p);
        let fm = frontmatter_errors(e.path, text);
        let tl = too_long_errors(e.path, text, AGENT_MAX_LINES as nat);
        let fe = fence_errors(e.path, text);
        let ph = phrase_errors(
            PhraseKind::ProceduralSection,
            e.path,
            lower_of(text),
            procedural_markers(),
        );
        let s = fm + tl + fe + ph;
        assert(agent_entry_errors(e) == s);
        let k = fm.len() as int;
        assert(s[k] == terr) by {
            assert((fm + tl)[k] == tl[0]);
            assert(((fm + tl) + fe)[k] == (fm + tl)[k]);
            assert((((fm + tl) + fe) + ph)[k] == ((fm + tl) + fe)[k]);
        };
        assert(s.contains(terr));
    }
}

/// Law: a checked skill document over the line ceiling provokes exactly
/// one too-long finding, and that finding reports the document's true
/// line count; at or under the ceiling, none.
pub proof fn lemma_skill_too_long(s: SkillEntryView, text: Seq<char>)
    requires
        s.is_dir,
        s.skill_md == DocStateView::Content(text),
    ensures
        count_errors(skill_entry_errors(s), |er: ErrorView| er is TooLong) == if spec_line_count(
            text,
        ) > SKILL_MAX_LINES as nat {
            1nat
        } else {
            0nat
        },
        spec_line_count(text) > SKILL_MAX_LINES as nat ==> skill_entry_errors(s).contains(
            (ErrorView::TooLong {
                path: s.skill_md_path,
                lines: spec_line_count(text),
                max_lines: SKILL_MAX_LINES as nat,
            }),
        ),
{
    let p = |er: ErrorView| er is TooLong;
    lemma_skill_parts(s, text, p);
    if spec_line_count(text) > SKILL_MAX_LINES as nat {
        let terr = ErrorView::TooLong {
            path: s.skill_md_path,
            lines: spec_line_count(text),
            max_lines: SKILL_MAX_LINES as nat,
        };
        let fm = frontmatter_errors(s.skill_md_path, text);
        let ca = capability_errors(s.skill_md_path, text);
        let tl = too_long_errors(s.skill_md_path, text, SKILL_MAX_LINES as nat);
        let fe = fence_errors(s.skill_md_path, text);
        let ph = phrase_errors(
            PhraseKind::SuccessCriteria,
            s.skill_md_path,
            lower_of(text),
            success_terms(),
        );
        let re = if s.has_references_dir {
            refs_section_errors(s.skill_md_path, text) + references_errors(s.references)
        } else {
            Seq::<ErrorView>::empty()
        };
        let full = fm + ca + tl + fe + ph + re;
        assert(skill_entry_errors(s) == full);
        let k = (fm.len() + ca.len()) as int;
        assert(full[k] == terr) by {
            assert(((fm + ca) + tl)[k] == tl[0]);
            assert((((fm + ca) + tl) + fe)[k] == ((fm + ca) + tl)[k]);
            assert(((((fm + ca) + tl) + fe) + ph)[k] == (((fm + ca) + tl) + fe)[k]);
            assert((((((fm + ca) + tl) + fe) + ph) + re)[k] == ((((fm + ca) + tl) + fe) + ph)[k]);
        }
        assert(full.contains(terr));
    }
    if !has_frontmatter(text) {
        lemma_count_errors_singleton(ErrorView::MissingFrontmatter { path: s.skill_md_path }, p);
    }
    if !text_contains(text, capability_marker()) {
        lemma_count_errors_singleton(ErrorView::MissingCapability { path: s.skill_md_path }, p);
    }
    if spec_line_count(text) > SKILL_MAX_LINES as nat {
        lemma_count_errors_singleton(
            ErrorView::TooLong {
                path: s.skill_md_path,
                lines: spec_line_count(text),
                max_lines: SKILL_MAX_LINES as nat,
            },
            p,
        );
    }
    if text_contains(text, fence_marker()) {
        lemma_count_errors_singleton(ErrorView::Fence { path: s.skill_md_path }, p);
    }
    lemma_phrase_errors_none(
        PhraseKind::SuccessCriteria,
        s.skill_md_path,
        lower_of(text),
        success_terms(),
        p,
    );
    if s.has_references_dir {
        if !text_contains(text, references_marker()) {
            lemma_count_errors_singleton(
                ErrorView::MissingReferencesSection { path: s.skill_md_path },
                p,
            );
        }
        lemma_references_errors_none(s.references, p);
    }
}

/// Law: fence findings go by presence alone. A document with any
/// number of fence markers provokes exactly one fence finding, and one
/// without any provokes none — here for the top-level document.
pub proof fn lemma_claude_fence(path: Seq<char>, text: Seq<char>)
    ensures
        count_errors(
            claude_md_errors(path, DocStateView::Content(text)),
            |er: ErrorView| er is Fence,
        ) == if text_contains(text, fence_marker()) {
            1nat
        } else {
            0nat
        },
{
    let p = |er: ErrorView| er is Fence;
    let ph = phrase_errors(PhraseKind::WorkflowVerb, path, lower_of(text), workflow_verbs());
    let fe = fence_errors(path, text);
    assert(claude_md_errors(path, DocStateView::Content(text)) == ph + fe);
    lemma_count_errors_add(ph, fe, p);
    lemma_phrase_errors_none(PhraseKind::WorkflowVerb, path, lower_of(text), workflow_verbs(), p);
    if text_contains(text, fence_marker()) {
        lemma_count_errors_singleton(ErrorView::Fence { path }, p);
    }
}

/// Law: fence findings go by presence alone — here for a checked agent
/// document.
pub proof fn lemma_agent_fence(e: FileEntryView, text: Seq<char>)
    requires
        spec_is_md(e.name),
        e.content == Option::<Seq<char>>::Some(text),
    ensures
        count_errors(agent_entry_errors(e), |er: ErrorView| er is Fence) == if text_contains(
            text,
            fence_marker(),
        ) {
            1nat
        } else {
            0nat
        },
{
    let p = |er: ErrorView| er is Fence;
    lemma_agent_parts(e, text, p);
    if !has_frontmatter(text) {
        lemma_count_errors_singleton(ErrorView::MissingFrontmatter { path: e.path }, p);
    }
    if spec_line_count(text) > AGENT_MAX_LINES as nat {
        lemma_count_errors_singleton(
            ErrorView::TooLong {
                path: e.path,
                lines: spec_line_count(text),
                max_lines: AGENT_MAX_LINES as nat,
            },
            p,
        );
    }
    if text_contains(text, fence_marker()) {
        lemma_count_errors_singleton(ErrorView::Fence { path: e.path }, p);
    }
    lemma_phrase_errors_none(
        PhraseKind::ProceduralSection,
        e.path,
        lower_of(text),
        procedural_markers(),
        p,
    );
}

/// Law: fence findings go by presence alone — here for a checked skill
/// document.
pub proof fn lemma_skill_fence(s: SkillEntryView, text: Seq<char>)
    requires
        s.is_dir,
        s.skill_md == DocStateView::Content(text),
    ensures
        count_errors(skill_entry_errors(s), |er: ErrorView| er is Fence) == if text_contains(
            text,
            fence_marker(),
        ) {
            1nat
        } else {
            0nat
        },
{
    let p = |er: ErrorView| er is Fence;
    lemma_skill_parts(s, text, p);
    if !has_frontmatter(text) {
        lemma_count_errors_singleton(ErrorView::MissingFrontmatter { path: s.skill_md_path }, p);
    }
    if !text_contains(text, capability_marker()) {
        lemma_count_errors_singleton(ErrorView::MissingCapability { path: s.skill_md_path }, p);
    }
    if spec_line_count(text) > SKILL_MAX_LINES as nat {
        lemma_count_errors_singleton(
            ErrorView::TooLong {
                path: s.skill_md_path,
                lines: spec_line_count(text),
                max_lines: SKILL_MAX_LINES as nat,
            },
            p,
        );
    }
    if text_contains(text, fence_marker()) {
        lemma_count_errors_singleton(ErrorView::Fence { path: s.skill_md_path }, p);
    }
    lemma_phrase_errors_none(
        PhraseKind::SuccessCriteria,
        s.skill_md_path,
        lower_of(text),
        success_terms(),
        p,
    );
    if s.has_references_dir {
        if !text_contains(text, references_marker()) {
            lemma_count_errors_singleton(
                ErrorView::MissingReferencesSection { path: s.skill_md_path },
                p,
            );
        }
        lemma_references_errors_none(s.references, p);
    }
}

/// Law: a skill with reference documents but no references heading in
/// its checked document provokes exactly one corresponding finding,
/// however many reference documents exist; with the heading, none.
pub proof fn lemma_skill_references_section(s: SkillEntryView, text: Seq<char>)
    requires
        s.is_dir,
        s.skill_md == DocStateView::Content(text),
        s.has_references_dir,
    ensures
        count_errors(
            skill_entry_errors(s),
            |er: ErrorView| er is MissingReferencesSection,
        ) == if !text_contains(text, references_marker()) {
            1nat
        } else {
            0nat
        },
{
    let p = |er: ErrorView| er is MissingReferencesSection;
    lemma_skill_parts(s, text, p);
    if !has_frontmatter(text) {
        lemma_count_errors_singleton(ErrorView::MissingFrontmatter { path: s.skill_md_path }, p);
    }
    if !text_contains(text, capability_marker()) {
        lemma_count_errors_singleton(ErrorView::MissingCapability { path: s.skill_md_path }, p);
    }
    if spec_line_count(text) > SKILL_MAX_LINES as nat {
        lemma_count_errors_singleton(
            ErrorView::TooLong {
                path: s.skill_md_path,
                lines: spec_line_count(text),
                max_lines: SKILL_MAX_LINES as nat,
            },
            p,
        );
    }
    if text_contains(text, fence_marker()) {
        lemma_count_errors_singleton(ErrorView::Fence { path: s.skill_md_path }, p);
    }
    lemma_phrase_errors_none(
        PhraseKind::SuccessCriteria,
        s.skill_md_path,
        lower_of(text),
        success_terms(),
        p,
    );
    if !text_contains(text, references_marker()) {
        lemma_count_errors_singleton(
            ErrorView::MissingReferencesSection { path: s.skill_md_path },
            p,
        );
    }
    lemma_references_errors_none(s.references, p);
}

/// Law: scanning a duplicate-free phrase table reports a phrase exactly
/// once when the lowered text contains it, however many times it
/// occurs, and never otherwise.
pub proof fn lemma_phrase_dedup(
    kind: PhraseKind,
    path: Seq<char>,
    lower: Seq<char>,
    phrases: Seq<Seq<char>>,
    target: Seq<char>,
)
    requires
        forall|i: int, j: int| 0 <= i < j < phrases.len() ==> phrases[i] != phrases[j],
    ensures
        count_errors(
            phrase_errors(kind, path, lower, phrases),
            |er: ErrorView| er == (ErrorView::Phrase { kind, path, phrase: target }),
        ) == if phrases.contains(target) && text_contains(lower, target) {
            1nat
        } else {
            0nat
        },
    decreases phrases.len(),
{
    let p = |er: ErrorView| er == (ErrorView::Phrase { kind, path, phrase: target });
    if phrases.len() == 0 {
        assert(!phrases.contains(target));
    } else {
        let pre = phrases.drop_last();
        let last = phrases.last();
        assert(forall|i: int, j: int| 0 <= i < j < pre.len() ==> pre[i] != pre[j]) by {
            assert(forall|i: int| 0 <= i < pre.len() ==> pre[i] == phrases[i]);
        }
        lemma_phrase_dedup(kind, path, lower, pre, target);
        let tail = if text_contains(lower, last) {
            seq![ErrorView::Phrase { kind, path, phrase: last }]
        } else {
            Seq::<ErrorView>::empty()
        };
        lemma_count_errors_add(phrase_errors(kind, path, lower, pre), tail, p);
        if text_contains(lower, last) {
            lemma_count_errors_singleton(ErrorView::Phrase { kind, path, phrase: last }, p);
        }
        if target == last {
            assert(!pre.contains(target)) by {
                if pre.contains(target) {
                    let i = choose|i: int| 0 <= i < pre.len() && pre[i] == target;
                    assert(phrases[i] == target);
                    assert(phrases[phrases.len() - 1] == target);
                }
            }
            assert(phrases[phrases.len() - 1] == target);
            assert(phrases.contains(target));
        } else {
            assert(phrases.contains(target) == pre.contains(target)) by {
                if phrases.contains(target) {
                    let i = choose|i: int| 0 <= i < phrases.len() && phrases[i] == target;
                    assert(i < pre.len());
                    assert(pre[i] == target);
                }
                if pre.contains(target) {
                    let i = choose|i: int| 0 <= i < pre.len() && pre[i] == target;
                    assert(phrases[i] == target);
                }
            }
        }
    }
}

/// The workflow-verb table holds no duplicate phrase.
pub proof fn lemma_workflow_verbs_distinct()
    ensures
        forall|i: int, j: int|
            0 <= i < j < workflow_verbs().len() ==> workflow_verbs()[i] != workflow_verbs()[j],
{
    reveal_strlit("must then");
    reveal_strlit("next,");
    reveal_strlit("step 1");
    reveal_strlit("step 2");
    reveal_strlit("first,");
    reveal_strlit("second,");
    reveal_strlit("finally,");
    reveal_strlit("afterward");
    reveal_strlit("subsequently");
    assert(workflow_verbs()[0][0] != workflow_verbs()[7][0]);
    assert(workflow_verbs()[2][5] != workflow_verbs()[3][5]);
    assert(workflow_verbs()[2][0] != workflow_verbs()[4][0]);
    assert(workflow_verbs()[3][0] != workflow_verbs()[4][0]);
    assert forall|i: int, j: int|
        0 <= i < j < workflow_verbs().len() implies workflow_verbs()[i] != workflow_verbs()[j] by {
        assert(workflow_verbs()[0].len() == 9);
        assert(workflow_verbs()[1].len() == 5);
        assert(workflow_verbs()[2].len() == 6);
        assert(workflow_verbs()[3].len() == 6);
        assert(workflow_verbs()[4].len() == 6);
        assert(workflow_verbs()[5].len() == 7);
        assert(workflow_verbs()[6].len() == 8);
        assert(workflow_verbs()[7].len() == 9);
        assert(workflow_verbs()[8].len() == 12);
    }
}

/// The procedural-section table holds no duplicate phrase.
pub proof fn lemma_procedural_markers_distinct()
    ensures
        forall|i: int, j: int|
            0 <= i < j < procedural_markers().len() ==> procedural_markers()[i]
                != procedural_markers()[j],
{
    reveal_strlit("## procedure");
    reveal_strlit("## workflow");
    reveal_strlit("## steps");
    assert forall|i: int, j: int|
        0 <= i < j < procedural_markers().len() implies procedural_markers()[i]
        != procedural_markers()[j] by {
        assert(procedural_markers()[0].len() == 12);
        assert(procedural_markers()[1].len() == 11);
        assert(procedural_markers()[2].len() == 8);
    }
}

/// The success-criteria table holds no duplicate phrase.
pub proof fn lemma_success_terms_distinct()
    ensures
        forall|i: int, j: int|
            0 <= i < j < success_terms().len() ==> success_terms()[i] != success_terms()[j],
{
    reveal_strlit("success criteria");
    reveal_strlit("must ensure");
    reveal_strlit("must verify");
    reveal_strlit("requirement:");
    reveal_strlit("requirements:");
    reveal_strlit("you must");
    assert(success_terms()[1][5] != success_terms()[2][5]);
    assert forall|i: int, j: int|
        0 <= i < j < success_terms().len() implies success_terms()[i] != success_terms()[j] by {
        assert(success_terms()[0].len() == 16);
        assert(success_terms()[1].len() == 11);
        assert(success_terms()[2].len() == 11);
        assert(success_terms()[3].len() == 12);
        assert(success_terms()[4].len() == 13);
        assert(success_terms()[5].len() == 8);
    }
}

/// Law: the top-level document provokes at most one finding per
/// workflow verb — exactly one when the lowered text contains the verb,
/// however often it occurs, and none otherwise.
pub proof fn lemma_claude_phrase_dedup(path: Seq<char>, text: Seq<char>, verb: Seq<char>)
    ensures
        count_errors(
            claude_md_errors(path, DocStateView::Content(text)),
            |er: ErrorView| er == (ErrorView::Phrase {
                kind: PhraseKind::WorkflowVerb,
                path,
                phrase: verb,
            }),
        ) == if workflow_verbs().contains(verb) && text_contains(lower_of(text), verb) {
            1nat
        } else {
            0nat
        },
{
    let p = |er: ErrorView| er == (ErrorView::Phrase {
        kind: PhraseKind::WorkflowVerb,
        path,
        phrase: verb,
    });
    let ph = phrase_errors(PhraseKind::WorkflowVerb, path, lower_of(text), workflow_verbs());
    let fe = fence_errors(path, text);
    assert(claude_md_errors(path, DocStateView::Content(text)) == ph + fe);
    lemma_count_errors_add(ph, fe, p);
    lemma_workflow_verbs_distinct();
    lemma_phrase_dedup(PhraseKind::WorkflowVerb, path, lower_of(text), workflow_verbs(), verb);
    if text_contains(text, fence_marker()) {
        lemma_count_errors_singleton(ErrorView::Fence { path }, p);
    }
}

/// Law: a checked agent document provokes at most one finding per
/// procedural-section marker — exactly one when the lowered text
/// contains the marker, however often it occurs, and none otherwise.
pub proof fn lemma_agent_phrase_dedup(e: FileEntryView, text: Seq<char>, marker: Seq<char>)
    requires
        spec_is_md(e.name),
        e.content == Option::<Seq<char>>::Some(text),
    ensures
        count_errors(
            agent_entry_errors(e),
            |er: ErrorView| er == (ErrorView::Phrase {
                kind: PhraseKind::ProceduralSection,
                path: e.path,
                phrase: marker,
            }),
        ) == if procedural_markers().contains(marker) && text_contains(lower_of(text), marker) {
            1nat
        } else {
            0nat
        },
{
    let p = |er: ErrorView| er == (ErrorView::Phrase {
        kind: PhraseKind::ProceduralSection,
        path: e.path,
        phrase: marker,
    });
    lemma_agent_parts(e, text, p);
    if !has_frontmatter(text) {
        lemma_count_errors_singleton(ErrorView::MissingFrontmatter { path: e.path }, p);
    }
    if spec_line_count(text) > AGENT_MAX_LINES as nat {
        lemma_count_errors_singleton(
            ErrorView::TooLong {
                path: e.path,
                lines: spec_line_count(text),
                max_lines: AGENT_MAX_LINES as nat,
            },
            p,
        );
    }
    if text_contains(text, fence_marker()) {
        lemma_count_errors_singleton(ErrorView::Fence { path: e.path }, p);
    }
    lemma_procedural_markers_distinct();
    lemma_phrase_dedup(
        PhraseKind::ProceduralSection,
        e.path,
        lower_of(text),
        procedural_markers(),
        marker,
    );
}

/// Law: a checked skill document provokes at most one finding per
/// success-criteria term — exactly one when the lowered text contains
/// the term, however often it occurs, and none otherwise.
pub proof fn lemma_skill_phrase_dedup(s: SkillEntryView, text: Seq<char>, term: Seq<char>)
    requires
        s.is_dir,
        s.skill_md == DocStateView::Content(text),
    ensures
        count_errors(
            skill_entry_errors(s),
            |er: ErrorView| er == (ErrorView::Phrase {
                kind: PhraseKind::SuccessCriteria,
                path: s.skill_md_path,
                phrase: term,
            }),
        ) == if success_terms().contains(term) && text_contains(lower_of(text), term) {
            1nat
        } else {
            0nat
        },
{
    let p = |er: ErrorView| er == (ErrorView::Phrase {
        kind: PhraseKind::SuccessCriteria,
        path: s.skill_md_path,
        phrase: term,
    });
    lemma_skill_parts(s, text, p);
    if !has_frontmatter(text) {
        lemma_count_errors_singleton(ErrorView::MissingFrontmatter { path: s.skill_md_path }, p);
    }
    if !text_contains(text, capability_marker()) {
        lemma_count_errors_singleton(ErrorView::MissingCapability { path: s.skill_md_path }, p);
    }
    if spec_line_count(text) > SKILL_MAX_LINES as nat {
        lemma_count_errors_singleton(
            ErrorView::TooLong {
                path: s.skill_md_path,
                lines: spec_line_count(text),
                max_lines: SKILL_MAX_LINES as nat,
            },
            p,
        );
    }
    if text_contains(text, fence_marker()) {
        lemma_count_errors_singleton(ErrorView::Fence { path: s.skill_md_path }, p);
    }
    lemma_success_terms_distinct();
    lemma_phrase_dedup(
        PhraseKind::SuccessCriteria,
        s.skill_md_path,
        lower_of(text),
        success_terms(),
        term,
    );
    if s.has_references_dir {
        if !text_contains(text, references_marker()) {
            lemma_count_errors_singleton(
                ErrorView::MissingReferencesSection { path: s.skill_md_path },
                p,
            );
        }
        lemma_references_errors_none(s.references, p);
    }
}

} // verus!
