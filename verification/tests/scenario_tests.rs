use claude_lint::checks::{run_checks, DocState, SkillEntry, Workspace};
use claude_lint::report::{
    error_line, not_directory_line, render_report, success_line, summary_line,
};

fn workspace(claude_md: DocState) -> Workspace {
    Workspace {
        claude_md_path: "ws/root.md".to_string(),
        claude_md,
        agents: Vec::new(),
        skills: Vec::new(),
    }
}

#[test]
fn valid_root_without_optional_directories_passes() {
    let w = workspace(DocState::Content(
        "# Project context\nBackground that agents should know.\n".to_string(),
    ));
    let errors = run_checks(&w);
    assert_eq!(errors.len(), 0);
    assert_eq!(success_line("ws"), "ok: ws passes all checks");
}

#[test]
fn missing_claude_md_yields_one_error_and_its_count_line() {
    let w = workspace(DocState::Missing);
    let errors = run_checks(&w);
    let msgs = render_report(&errors);
    assert_eq!(msgs, vec!["missing ws/root.md".to_string()]);
    assert_eq!(error_line(&msgs[0]), "error: missing ws/root.md");
    assert_eq!(summary_line(msgs.len()), "1 error(s)");
}

#[test]
fn oversized_fenced_skill_yields_exactly_two_errors() {
    let text = format!("---\n\n## Capability\n```\n{}", "x\n".repeat(596));
    let mut w = workspace(DocState::Content("# Fine.\n".to_string()));
    w.skills = vec![SkillEntry {
        path: "ws/skills/foo".to_string(),
        is_dir: true,
        skill_md_path: "ws/skills/foo/SKILL.md".to_string(),
        skill_md: DocState::Content(text),
        has_references_dir: false,
        references: Vec::new(),
    }];
    let errors = run_checks(&w);
    let msgs = render_report(&errors);
    assert_eq!(
        msgs,
        vec![
            "ws/skills/foo/SKILL.md: too long (600 lines, max 500)".to_string(),
            "ws/skills/foo/SKILL.md: contains fenced code block".to_string(),
        ]
    );
}

#[test]
fn non_directory_root_has_its_own_message() {
    assert_eq!(
        not_directory_line("Cargo.toml"),
        "error: Cargo.toml is not a directory"
    );
}

#[test]
fn traversal_order_is_claude_md_then_agents_then_skills() {
    let mut w = workspace(DocState::Content("contains ```\n".to_string()));
    w.agents = vec![claude_lint::checks::FileEntry {
        path: "ws/agents/a.md".to_string(),
        name: "a.md".to_string(),
        content: Some("no delimiter\n".to_string()),
    }];
    w.skills = vec![SkillEntry {
        path: "ws/skills/s".to_string(),
        is_dir: true,
        skill_md_path: "ws/skills/s/SKILL.md".to_string(),
        skill_md: DocState::Missing,
        has_references_dir: false,
        references: Vec::new(),
    }];
    let msgs = render_report(&run_checks(&w));
    assert_eq!(
        msgs,
        vec![
            "ws/root.md: contains fenced code block".to_string(),
            "ws/agents/a.md: missing YAML frontmatter".to_string(),
            "ws/skills/s: missing SKILL.md".to_string(),
        ]
    );
}
