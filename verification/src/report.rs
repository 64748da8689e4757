//! The validation report: structured findings and their rendering into
//! the human-readable message lines the tool prints.

use vstd::prelude::*;

verus! {

/// Which phrase table a disallowed phrase was found in.
#[derive(Clone, Copy, Debug, PartialEq, Eq)]
pub enum PhraseKind {
    /// A workflow verb in the top-level document.
    WorkflowVerb,
    /// A procedural-section heading in an agent document.
    ProceduralSection,
    /// A success-criteria term in a skill document.
    SuccessCriteria,
}

/// One finding. Every variant carries the display path of the document
/// or directory it concerns.
#[derive(Debug, PartialEq, Eq)]
pub enum LintError {
    /// The required top-level document is absent.
    MissingClaudeMd { path: String },
    /// The required top-level document exists but cannot be read.
    CannotRead { path: String },
    /// A document does not open with the frontmatter delimiter.
    MissingFrontmatter { path: String },
    /// A document exceeds its line ceiling.
    TooLong { path: String, lines: usize, max_lines: usize },
    /// A document contains a fenced code block.
    Fence { path: String },
    /// A document contains a phrase from a disallowed table.
    Phrase { kind: PhraseKind, path: String, phrase: String },
    /// A skill directory lacks its required document.
    MissingSkillMd { path: String },
    /// A skill document lacks the capability heading.
    MissingCapability { path: String },
    /// A skill has reference documents but no references heading.
    MissingReferencesSection { path: String },
    /// A reference document does not state `optional` near its top.
    MissingOptional { path: String },
}

/// The mathematical shape of a finding.
pub enum ErrorView {
    MissingClaudeMd { path: Seq<char> },
    CannotRead { path: Seq<char> },
    MissingFrontmatter { path: Seq<char> },
    TooLong { path: Seq<char>, lines: nat, max_lines: nat },
    Fence { path: Seq<char> },
    Phrase { kind: PhraseKind, path: Seq<char>, phrase: Seq<char> },
    MissingSkillMd { path: Seq<char> },
    MissingCapability { path: Seq<char> },
    MissingReferencesSection { path: Seq<char> },
    MissingOptional { path: Seq<char> },
}

impl View for LintError {
    type V = ErrorView;

    open spec fn view(&self) -> ErrorView {
        match self {
            LintError::MissingClaudeMd { path } => ErrorView::MissingClaudeMd { path: path@ },
            LintError::CannotRead { path } => ErrorView::CannotRead { path: path@ },
            LintError::MissingFrontmatter { path } => ErrorView::MissingFrontmatter {
                path: path@,
            },
            LintError::TooLong { path, lines, max_lines } => ErrorView::TooLong {
                path: path@,
                lines: *lines as nat,
                max_lines: *max_lines as nat,
            },
            LintError::Fence { path } => ErrorView::Fence { path: path@ },
            LintError::Phrase { kind, path, phrase } => ErrorView::Phrase {
                kind: *kind,
                path: path@,
                phrase: phrase@,
            },
            LintError::MissingSkillMd { path } => ErrorView::MissingSkillMd { path: path@ },
            LintError::MissingCapability { path } => ErrorView::MissingCapability { path: path@ },
            LintError::MissingReferencesSection { path } => ErrorView::MissingReferencesSection {
                path: path@,
            },
            LintError::MissingOptional { path } => ErrorView::MissingOptional { path: path@ },
        }
    }
}

/// The views of a list of findings.
pub open spec fn error_views(s: Seq<LintError>) -> Seq<ErrorView> {
    s.map_values(|e: LintError| e@)
}

pub proof fn lemma_error_views_push(s: Seq<LintError>, e: LintError)
    ensures
        error_views(s.push(e)) == error_views(s).push(e@),
{
    assert(error_views(s.push(e)) =~= error_views(s).push(e@));
}

/// The decimal digit `d` as a character.
pub open spec fn digit_char(d: nat) -> char {
    if d == 0 {
        '0'
    } else if d == 1 {
        '1'
    } else if d == 2 {
        '2'
    } else if d == 3 {
        '3'
    } else if d == 4 {
        '4'
    } else if d == 5 {
        '5'
    } else if d == 6 {
        '6'
    } else if d == 7 {
        '7'
    } else if d == 8 {
        '8'
    } else {
        '9'
    }
}

/// The decimal rendering of `n`, without leading zeros.
pub open spec fn spec_dec(n: nat) -> Seq<char>
    decreases n,
{
    if n < 10 {
        seq![digit_char(n)]
    } else {
        spec_dec(n / 10) + seq![digit_char(n % 10)]
    }
}

fn digit_str(d: usize) -> (r: &'static str)
    requires
        d < 10,
    ensures
        r@ == seq![digit_char(d as nat)],
{
    let r: &'static str = if d == 0 {
        "0"
    } else if d == 1 {
        "1"
    } else if d == 2 {
        "2"
    } else if d == 3 {
        "3"
    } else if d == 4 {
        "4"
    } else if d == 5 {
        "5"
    } else if d == 6 {
        "6"
    } else if d == 7 {
        "7"
    } else if d == 8 {
        "8"
    } else {
        "9"
    };
    proof {
        reveal_strlit("0");
        reveal_strlit("1");
        reveal_strlit("2");
        reveal_strlit("3");
        reveal_strlit("4");
        reveal_strlit("5");
        reveal_strlit("6");
        reveal_strlit("7");
        reveal_strlit("8");
        reveal_strlit("9");
    }
    r
}

/// Appends the decimal rendering of `n`.
fn push_dec(s: &mut String, n: usize)
    ensures
        final(s)@ == old(s)@ + spec_dec(n as nat),
    decreases n,
{
    let ghost at_entry = s@;
    if n >= 10 {
        push_dec(s, n / 10);
        let d = digit_str(n % 10);
        s.append(d);
        proof {
            assert(s@ =~= at_entry + spec_dec(n as nat));
        }
    } else {
        let d = digit_str(n);
        s.append(d);
        proof {
            assert(s@ =~= at_entry + spec_dec(n as nat));
        }
    }
}

/// The message introducing a phrase finding of the given table.
pub open spec fn spec_phrase_prefix(kind: PhraseKind) -> Seq<char> {
    match kind {
        PhraseKind::WorkflowVerb => ": contains workflow verb '"@,
        PhraseKind::ProceduralSection => ": contains procedural section '"@,
        PhraseKind::SuccessCriteria => ": contains success criteria term '"@,
    }
}

fn phrase_prefix_str(kind: PhraseKind) -> (r: &'static str)
    ensures
        r@ == spec_phrase_prefix(kind),
{
    match kind {
        PhraseKind::WorkflowVerb => ": contains workflow verb '",
        PhraseKind::ProceduralSection => ": contains procedural section '",
        PhraseKind::SuccessCriteria => ": contains success criteria term '",
    }
}

/// The message line for a finding.
pub open spec fn spec_render(e: ErrorView) -> Seq<char> {
    match e {
        ErrorView::MissingClaudeMd { path } => "missing "@ + path,
        ErrorView::CannotRead { path } => "cannot read "@ + path,
        ErrorView::MissingFrontmatter { path } => path + ": missing YAML frontmatter"@,
        ErrorView::TooLong { path, lines, max_lines } => path + ": too long ("@ + spec_dec(lines)
            + " lines, max "@ + spec_dec(max_lines) + ")"@,
        ErrorView::Fence { path } => path + ": contains fenced code block"@,
        ErrorView::Phrase { kind, path, phrase } => path + spec_phrase_prefix(kind) + phrase
            + "'"@,
        ErrorView::MissingSkillMd { path } => path + ": missing SKILL.md"@,
        ErrorView::MissingCapability { path } => path + ": missing '## Capability' section"@,
        ErrorView::MissingReferencesSection { path } => path
            + ": has references/ but no '## References' section"@,
        ErrorView::MissingOptional { path } => path + ": should state 'optional' near the top"@,
    }
}

/// Renders one finding as its message line.
pub fn render_error(e: &LintError) -> (m: String)
    ensures
        m@ == spec_render(e@),
{
    match e {
        LintError::MissingClaudeMd { path } => {
            let mut m = String::from_str("missing ");
            m.append(path.as_str());
            m
        },
        LintError::CannotRead { path } => {
            let mut m = String::from_str("cannot read ");
            m.append(path.as_str());
            m
        },
        LintError::MissingFrontmatter { path } => {
            let mut m = String::from_str(path.as_str());
            m.append(": missing YAML frontmatter");
            m
        },
        LintError::TooLong { path, lines, max_lines } => {
            let mut m = String::from_str(path.as_str());
            m.append(": too long (");
            push_dec(&mut m, *lines);
            m.append(" lines, max ");
            push_dec(&mut m, *max_lines);
            m.append(")");
            proof {
                assert(m@ =~= spec_render(e@));
            }
            m
        },
        LintError::Fence { path } => {
            let mut m = String::from_str(path.as_str());
            m.append(": contains fenced code block");
            m
        },
        LintError::Phrase { kind, path, phrase } => {
            let mut m = String::from_str(path.as_str());
            m.append(phrase_prefix_str(*kind));
            m.append(phrase.as_str());
            m.append("'");
            proof {
                assert(m@ =~= spec_render(e@));
            }
            m
        },
        LintError::MissingSkillMd { path } => {
            let mut m = String::from_str(path.as_str());
            m.append(": missing SKILL.md");
            m
        },
        LintError::MissingCapability { path } => {
            let mut m = String::from_str(path.as_str());
            m.append(": missing '## Capability' section");
            m
        },
        LintError::MissingReferencesSection { path } => {
            let mut m = String::from_str(path.as_str());
            m.append(": has references/ but no '## References' section");
            m
        },
        LintError::MissingOptional { path } => {
            let mut m = String::from_str(path.as_str());
            m.append(": should state 'optional' near the top");
            m
        },
    }
}

/// Renders every finding, in order.
pub fn render_report(errors: &Vec<LintError>) -> (msgs: Vec<String>)
    ensures
        msgs@.len() == errors@.len(),
        forall|i: int| 0 <= i < errors@.len() ==> msgs@[i]@ == spec_render(errors@[i]@),
{
    let mut msgs: Vec<String> = Vec::new();
    let mut i: usize = 0;
    let n = errors.len();
    while i < n
        invariant
            n == errors@.len(),
            i <= n,
            msgs@.len() == i,
            forall|j: int| 0 <= j < i ==> msgs@[j]@ == spec_render(errors@[j]@),
        decreases n - i,
    {
        msgs.push(render_error(&errors[i]));
        i = i + 1;
    }
    msgs
}

/// The line printed for a message on the error stream.
pub fn error_line(msg: &String) -> (r: String)
    ensures
        r@ == "error: "@ + msg@,
{
    let mut r = String::from_str("error: ");
    r.append(msg.as_str());
    r
}

/// The closing count line, `N error(s)`.
pub fn summary_line(count: usize) -> (r: String)
    ensures
        r@ == spec_dec(count as nat) + " error(s)"@,
{
    let mut r = String::new();
    push_dec(&mut r, count);
    r.append(" error(s)");
    proof {
        assert(r@ =~= spec_dec(count as nat) + " error(s)"@);
    }
    r
}

/// The line printed when the root path is not a directory.
pub fn not_directory_line(path: &str) -> (r: String)
    ensures
        r@ == "error: "@ + path@ + " is not a directory"@,
{
    let mut r = String::from_str("error: ");
    r.append(path);
    r.append(" is not a directory");
    proof {
        assert(r@ =~= "error: "@ + path@ + " is not a directory"@);
    }
    r
}

/// The line printed when the workspace passes every check.
pub fn success_line(path: &str) -> (r: String)
    ensures
        r@ == "ok: "@ + path@ + " passes all checks"@,
{
    let mut r = String::from_str("ok: ");
    r.append(path);
    r.append(" passes all checks");
    proof {
        assert(r@ =~= "ok: "@ + path@ + " passes all checks"@);
    }
    r
}

} // verus!
