use claude_lint::report::{
    error_line, not_directory_line, render_error, success_line, summary_line, LintError,
    PhraseKind,
};

#[test]
fn renders_missing_claude_md() {
    let e = LintError::MissingClaudeMd { path: "ws/root.md".to_string() };
    assert_eq!(render_error(&e), "missing ws/root.md");
}

#[test]
fn renders_cannot_read() {
    let e = LintError::CannotRead { path: "ws/root.md".to_string() };
    assert_eq!(render_error(&e), "cannot read ws/root.md");
}

#[test]
fn renders_missing_frontmatter() {
    let e = LintError::MissingFrontmatter { path: "a/x.md".to_string() };
    assert_eq!(render_error(&e), "a/x.md: missing YAML frontmatter");
}

#[test]
fn renders_too_long_with_counts() {
    let e = LintError::TooLong { path: "a/x.md".to_string(), lines: 121, max_lines: 120 };
    assert_eq!(render_error(&e), "a/x.md: too long (121 lines, max 120)");
    let e = LintError::TooLong { path: "s/SKILL.md".to_string(), lines: 600, max_lines: 500 };
    assert_eq!(render_error(&e), "s/SKILL.md: too long (600 lines, max 500)");
}

#[test]
fn renders_fence() {
    let e = LintError::Fence { path: "a/x.md".to_string() };
    assert_eq!(render_error(&e), "a/x.md: contains fenced code block");
}

#[test]
fn renders_each_phrase_kind() {
    let e = LintError::Phrase {
        kind: PhraseKind::WorkflowVerb,
        path: "c.md".to_string(),
        phrase: "step 1".to_string(),
    };
    assert_eq!(render_error(&e), "c.md: contains workflow verb 'step 1'");
    let e = LintError::Phrase {
        kind: PhraseKind::ProceduralSection,
        path: "a.md".to_string(),
        phrase: "## steps".to_string(),
    };
    assert_eq!(render_error(&e), "a.md: contains procedural section '## steps'");
    let e = LintError::Phrase {
        kind: PhraseKind::SuccessCriteria,
        path: "s.md".to_string(),
        phrase: "you must".to_string(),
    };
    assert_eq!(render_error(&e), "s.md: contains success criteria term 'you must'");
}

#[test]
fn renders_missing_skill_md() {
    let e = LintError::MissingSkillMd { path: "skills/foo".to_string() };
    assert_eq!(render_error(&e), "skills/foo: missing SKILL.md");
}

#[test]
fn renders_missing_capability() {
    let e = LintError::MissingCapability { path: "skills/foo/SKILL.md".to_string() };
    assert_eq!(render_error(&e), "skills/foo/SKILL.md: missing '## Capability' section");
}

#[test]
fn renders_missing_references_section() {
    let e = LintError::MissingReferencesSection { path: "skills/foo/SKILL.md".to_string() };
    assert_eq!(
        render_error(&e),
        "skills/foo/SKILL.md: has references/ but no '## References' section"
    );
}

#[test]
fn renders_missing_optional() {
    let e = LintError::MissingOptional { path: "skills/foo/references/r.md".to_string() };
    assert_eq!(
        render_error(&e),
        "skills/foo/references/r.md: should state 'optional' near the top"
    );
}

#[test]
fn renders_summary_and_frame_lines() {
    assert_eq!(summary_line(1), "1 error(s)");
    assert_eq!(summary_line(12), "12 error(s)");
    assert_eq!(summary_line(0), "0 error(s)");
    assert_eq!(summary_line(305), "305 error(s)");
    assert_eq!(error_line(&"missing x".to_string()), "error: missing x");
    assert_eq!(not_directory_line("/tmp/plain.txt"), "error: /tmp/plain.txt is not a directory");
    assert_eq!(success_line("ws"), "ok: ws passes all checks");
}
