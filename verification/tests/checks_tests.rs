use claude_lint::checks::{
    check_agents, check_claude_md, check_references, check_skills, DocState, FileEntry,
    SkillEntry,
};
use claude_lint::report::{render_error, LintError, PhraseKind};

fn entry(path: &str, name: &str, content: Option<&str>) -> FileEntry {
    FileEntry {
        path: path.to_string(),
        name: name.to_string(),
        content: content.map(|s| s.to_string()),
    }
}

fn skill(path: &str, skill_md: DocState, has_refs: bool, refs: Vec<FileEntry>) -> SkillEntry {
    SkillEntry {
        path: path.to_string(),
        is_dir: true,
        skill_md_path: format!("{}/SKILL.md", path),
        skill_md,
        has_references_dir: has_refs,
        references: refs,
    }
}

fn agent_errors(content: &str) -> Vec<LintError> {
    let mut errors = Vec::new();
    let entries = vec![entry("agents/a.md", "a.md", Some(content))];
    check_agents(&entries, &mut errors);
    errors
}

#[test]
fn claude_md_missing_is_one_error() {
    let mut errors = Vec::new();
    check_claude_md("ws/root.md", &DocState::Missing, &mut errors);
    assert_eq!(errors, vec![LintError::MissingClaudeMd { path: "ws/root.md".to_string() }]);
}

#[test]
fn claude_md_unreadable_is_one_error() {
    let mut errors = Vec::new();
    check_claude_md("ws/root.md", &DocState::Unreadable, &mut errors);
    assert_eq!(errors, vec![LintError::CannotRead { path: "ws/root.md".to_string() }]);
}

#[test]
fn claude_md_clean_content_passes() {
    let mut errors = Vec::new();
    let doc = DocState::Content("# Context\nBackground notes only.\n".to_string());
    check_claude_md("c.md", &doc, &mut errors);
    assert_eq!(errors, Vec::new());
}

#[test]
fn workflow_verb_scan_is_case_insensitive_and_deduplicated() {
    let mut errors = Vec::new();
    let doc = DocState::Content("Do STEP 1 now, then do Step 1 once more.\n".to_string());
    check_claude_md("c.md", &doc, &mut errors);
    assert_eq!(
        errors,
        vec![LintError::Phrase {
            kind: PhraseKind::WorkflowVerb,
            path: "c.md".to_string(),
            phrase: "step 1".to_string(),
        }]
    );
}

#[test]
fn each_distinct_workflow_verb_is_reported_in_table_order() {
    let mut errors = Vec::new();
    let doc = DocState::Content("Subsequently we act. First, we wait.\n".to_string());
    check_claude_md("c.md", &doc, &mut errors);
    let msgs: Vec<String> = errors.iter().map(render_error).collect();
    assert_eq!(
        msgs,
        vec![
            "c.md: contains workflow verb 'first,'".to_string(),
            "c.md: contains workflow verb 'subsequently'".to_string(),
        ]
    );
}

#[test]
fn fence_in_claude_md_is_reported_once_regardless_of_count() {
    for text in ["```\ncode\n```\n", "```a``` ```b``` ```c```"] {
        let mut errors = Vec::new();
        check_claude_md("c.md", &DocState::Content(text.to_string()), &mut errors);
        assert_eq!(errors, vec![LintError::Fence { path: "c.md".to_string() }]);
    }
}

#[test]
fn agent_without_frontmatter_is_one_error() {
    let errors = agent_errors("just notes\n");
    assert_eq!(
        errors,
        vec![LintError::MissingFrontmatter { path: "agents/a.md".to_string() }]
    );
}

#[test]
fn agent_frontmatter_must_open_the_file() {
    let errors = agent_errors("\n---\nlate delimiter\n");
    assert_eq!(
        errors,
        vec![LintError::MissingFrontmatter { path: "agents/a.md".to_string() }]
    );
}

#[test]
fn agent_at_line_ceiling_passes() {
    let text = format!("---\n{}", "x\n".repeat(119));
    assert_eq!(agent_errors(&text), Vec::new());
}

#[test]
fn agent_over_line_ceiling_is_one_error_with_true_count() {
    let text = format!("---\n{}", "x\n".repeat(120));
    assert_eq!(
        agent_errors(&text),
        vec![LintError::TooLong {
            path: "agents/a.md".to_string(),
            lines: 121,
            max_lines: 120,
        }]
    );
}

#[test]
fn agent_fence_is_reported_once_regardless_of_count() {
    let one = agent_errors("---\n```\n");
    let five = agent_errors("---\n``` ``` ``` ``` ```\n");
    let expected = vec![LintError::Fence { path: "agents/a.md".to_string() }];
    assert_eq!(one, expected);
    assert_eq!(five, expected);
}

#[test]
fn agent_procedural_sections_are_scanned_case_insensitively() {
    let errors = agent_errors("---\n## Steps\nfirst do this\n## STEPS\n");
    assert_eq!(
        errors,
        vec![LintError::Phrase {
            kind: PhraseKind::ProceduralSection,
            path: "agents/a.md".to_string(),
            phrase: "## steps".to_string(),
        }]
    );
}

#[test]
fn agent_listing_skips_other_extensions_and_unreadable_entries() {
    let mut errors = Vec::new();
    let entries = vec![
        entry("agents/readme.txt", "readme.txt", Some("no frontmatter")),
        entry("agents/broken.md", "broken.md", None),
        entry("agents/sub.MD", "sub.MD", Some("no frontmatter")),
    ];
    check_agents(&entries, &mut errors);
    assert_eq!(errors, Vec::new());
}

#[test]
fn skill_without_directory_flag_is_ignored() {
    let mut errors = Vec::new();
    let entries = vec![SkillEntry {
        path: "skills/loose-file".to_string(),
        is_dir: false,
        skill_md_path: "skills/loose-file/SKILL.md".to_string(),
        skill_md: DocState::Missing,
        has_references_dir: false,
        references: Vec::new(),
    }];
    check_skills(&entries, &mut errors);
    assert_eq!(errors, Vec::new());
}

#[test]
fn skill_missing_document_is_the_only_finding() {
    let mut errors = Vec::new();
    let entries = vec![skill("skills/foo", DocState::Missing, true, Vec::new())];
    check_skills(&entries, &mut errors);
    assert_eq!(errors, vec![LintError::MissingSkillMd { path: "skills/foo".to_string() }]);
}

#[test]
fn skill_unreadable_document_is_silently_skipped() {
    let mut errors = Vec::new();
    let entries = vec![skill("skills/foo", DocState::Unreadable, true, Vec::new())];
    check_skills(&entries, &mut errors);
    assert_eq!(errors, Vec::new());
}

#[test]
fn skill_capability_heading_is_exact_case() {
    let mut errors = Vec::new();
    let text = "---\nname: foo\n\n## capability\nlowered heading\n";
    let entries = vec![skill("skills/foo", DocState::Content(text.to_string()), false, Vec::new())];
    check_skills(&entries, &mut errors);
    assert_eq!(
        errors,
        vec![LintError::MissingCapability { path: "skills/foo/SKILL.md".to_string() }]
    );
}

#[test]
fn skill_success_terms_are_reported_per_phrase() {
    let mut errors = Vec::new();
    let text = "---\n\n## Capability\nYou MUST verify this. Requirement: none. You must.\n";
    let entries = vec![skill("skills/foo", DocState::Content(text.to_string()), false, Vec::new())];
    check_skills(&entries, &mut errors);
    let msgs: Vec<String> = errors.iter().map(render_error).collect();
    assert_eq!(
        msgs,
        vec![
            "skills/foo/SKILL.md: contains success criteria term 'must verify'".to_string(),
            "skills/foo/SKILL.md: contains success criteria term 'requirement:'".to_string(),
            "skills/foo/SKILL.md: contains success criteria term 'you must'".to_string(),
        ]
    );
}

#[test]
fn references_dir_without_heading_is_one_error_however_many_references() {
    let text = "---\n\n## Capability\ndoes things\n";
    for n in [0usize, 3] {
        let mut refs = Vec::new();
        for k in 0..n {
            refs.push(entry(
                &format!("skills/foo/references/r{}.md", k),
                &format!("r{}.md", k),
                Some("This file is optional reading.\n"),
            ));
        }
        let mut errors = Vec::new();
        let entries = vec![skill("skills/foo", DocState::Content(text.to_string()), true, refs)];
        check_skills(&entries, &mut errors);
        assert_eq!(
            errors,
            vec![LintError::MissingReferencesSection {
                path: "skills/foo/SKILL.md".to_string(),
            }]
        );
    }
}

#[test]
fn references_are_not_checked_when_skill_md_is_missing() {
    let refs = vec![entry("skills/foo/references/r.md", "r.md", Some("nothing here\n"))];
    let mut errors = Vec::new();
    let entries = vec![skill("skills/foo", DocState::Missing, true, refs)];
    check_skills(&entries, &mut errors);
    assert_eq!(errors, vec![LintError::MissingSkillMd { path: "skills/foo".to_string() }]);
}

#[test]
fn reference_with_optional_in_head_passes() {
    let mut errors = Vec::new();
    let refs = vec![entry("r.md", "r.md", Some("This document is OPTIONAL.\nMore text.\n"))];
    check_references(&refs, &mut errors);
    assert_eq!(errors, Vec::new());
}

#[test]
fn reference_optional_on_line_sixteen_is_still_reported() {
    let text = format!("{}optional\n", "filler\n".repeat(15));
    let mut errors = Vec::new();
    let refs = vec![entry("r.md", "r.md", Some(&text))];
    check_references(&refs, &mut errors);
    assert_eq!(errors, vec![LintError::MissingOptional { path: "r.md".to_string() }]);
}

#[test]
fn reference_optional_on_line_fifteen_passes() {
    let text = format!("{}optional\nmore\n", "filler\n".repeat(14));
    let mut errors = Vec::new();
    let refs = vec![entry("r.md", "r.md", Some(&text))];
    check_references(&refs, &mut errors);
    assert_eq!(errors, Vec::new());
}

#[test]
fn reference_listing_skips_other_extensions_and_unreadable_entries() {
    let mut errors = Vec::new();
    let refs = vec![
        entry("r.txt", "r.txt", Some("nothing\n")),
        entry("r.md", "r.md", None),
    ];
    check_references(&refs, &mut errors);
    assert_eq!(errors, Vec::new());
}

#[test]
fn empty_agent_document_lacks_only_frontmatter() {
    assert_eq!(
        agent_errors(""),
        vec![LintError::MissingFrontmatter { path: "agents/a.md".to_string() }]
    );
}

#[test]
fn empty_top_level_document_passes() {
    let mut errors = Vec::new();
    check_claude_md("c.md", &DocState::Content(String::new()), &mut errors);
    assert_eq!(errors, Vec::new());
}

#[test]
fn skill_with_heading_and_lacking_reference_reports_only_the_reference() {
    let text = "---\n\n## Capability\ndoes things\n\n## References\nsee below\n";
    let refs = vec![
        entry("skills/foo/references/good.md", "good.md", Some("An optional aid.\n")),
        entry("skills/foo/references/bad.md", "bad.md", Some("No marker here.\n")),
    ];
    let mut errors = Vec::new();
    let entries = vec![skill("skills/foo", DocState::Content(text.to_string()), true, refs)];
    check_skills(&entries, &mut errors);
    assert_eq!(
        errors,
        vec![LintError::MissingOptional {
            path: "skills/foo/references/bad.md".to_string(),
        }]
    );
}
