use claude_lint::text::{chars_vec, count_lines, head_lines, is_md_name};

fn chars(s: &str) -> Vec<char> {
    s.chars().collect()
}

#[test]
fn count_lines_empty() {
    assert_eq!(count_lines(""), 0);
}

#[test]
fn count_lines_single_unterminated() {
    assert_eq!(count_lines("a"), 1);
}

#[test]
fn count_lines_trailing_newline_does_not_add_a_line() {
    assert_eq!(count_lines("a\n"), 1);
    assert_eq!(count_lines("a\nb\n"), 2);
}

#[test]
fn count_lines_unterminated_last_line_counts() {
    assert_eq!(count_lines("a\nb"), 2);
    assert_eq!(count_lines("a\n\n"), 2);
    assert_eq!(count_lines("\n"), 1);
}

#[test]
fn md_extension_is_exact_and_case_sensitive() {
    assert!(is_md_name("a.md"));
    assert!(is_md_name("notes.v2.md"));
    assert!(!is_md_name(".md"));
    assert!(!is_md_name("a.MD"));
    assert!(!is_md_name("amd"));
    assert!(!is_md_name("a.md.txt"));
    assert!(!is_md_name("a.m"));
    assert!(!is_md_name(""));
}

#[test]
fn head_window_takes_first_lines_only() {
    let text = chars("one\ntwo\nthree\nfour");
    let head = head_lines(&text, 2);
    assert_eq!(head, chars("one\ntwo"));
}

#[test]
fn head_window_of_short_text_is_whole_text_without_final_terminator() {
    let text = chars("one\ntwo\n");
    let head = head_lines(&text, 15);
    assert_eq!(head, chars("one\ntwo"));
}

#[test]
fn head_window_normalizes_crlf_terminators() {
    let text = chars("one\r\ntwo\r\nthree");
    let head = head_lines(&text, 15);
    assert_eq!(head, chars("one\ntwo\nthree"));
}

#[test]
fn head_window_keeps_a_bare_carriage_return() {
    let text = chars("one\rstill one\ntwo");
    let head = head_lines(&text, 15);
    assert_eq!(head, chars("one\rstill one\ntwo"));
}

#[test]
fn chars_vec_round_trip() {
    let v = chars_vec("abc\u{00e9}");
    assert_eq!(v, chars("abc\u{00e9}"));
}
