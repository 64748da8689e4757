//! Character-level text primitives: substring search, line counting,
//! a first-lines window, and file-name extension testing.

use vstd::prelude::*;

verus! {

/// The characters of `s`, collected into a vector.
pub fn chars_vec(s: &str) -> (v: Vec<char>)
    ensures
        v@ == s@,
{
    let n: usize = s.unicode_len();
    let mut v: Vec<char> = Vec::new();
    let mut i: usize = 0;
    while i < n
        invariant
            n == s@.len(),
            i <= n,
            v@ == s@.take(i as int),
        decreases n - i,
    {
        v.push(s.get_char(i));
        proof {
            assert(v@ =~= s@.take(i + 1 as int));
        }
        i = i + 1;
    }
    proof {
        assert(v@ =~= s@);
    }
    v
}

/// `pat` occurs in `text` starting at position `i`.
pub open spec fn is_match_at(text: Seq<char>, pat: Seq<char>, i: int) -> bool {
    0 <= i && i + pat.len() <= text.len() && text.subrange(i, i + pat.len()) == pat
}

/// `pat` occurs somewhere in `text` as a contiguous run of characters.
pub open spec fn text_contains(text: Seq<char>, pat: Seq<char>) -> bool {
    exists|i: int| is_match_at(text, pat, i)
}

/// Whether `pat` occurs in `text` at position `i`.
fn match_at(text: &Vec<char>, pat: &Vec<char>, i: usize) -> (b: bool)
    requires
        i + pat@.len() <= text@.len(),
    ensures
        b == is_match_at(text@, pat@, i as int),
{
    let n: usize = text.len();
    let m: usize = pat.len();
    let mut j: usize = 0;
    while j < m
        invariant
            n == text@.len(),
            m == pat@.len(),
            i + m <= n,
            j <= m,
            forall|k: int| 0 <= k < j ==> text@[i + k] == pat@[k],
        decreases m - j,
    {
        if text[i + j] != pat[j] {
            proof {
                assert(text@.subrange(i as int, i + m) != pat@) by {
                    assert(text@.subrange(i as int, i + m)[j as int] == text@[i + j]);
                }
            }
            return false;
        }
        j = j + 1;
    }
    proof {
        assert(text@.subrange(i as int, i + m) =~= pat@);
    }
    true
}

/// Whether `pat` occurs anywhere in `text`.
pub fn contains_pat(text: &Vec<char>, pat: &Vec<char>) -> (b: bool)
    ensures
        b == text_contains(text@, pat@),
{
    let n: usize = text.len();
    let m: usize = pat.len();
    if m > n {
        proof {
            assert(forall|k: int| !is_match_at(text@, pat@, k));
        }
        return false;
    }
    if m == 0 {
        proof {
            assert(is_match_at(text@, pat@, 0)) by {
                assert(text@.subrange(0, 0) =~= pat@);
            }
        }
        return true;
    }
    let mut i: usize = 0;
    while i <= n - m
        invariant
            0 < m <= n,
            n == text@.len(),
            m == pat@.len(),
            i <= n - m + 1,
            forall|k: int| 0 <= k < i ==> !is_match_at(text@, pat@, k),
        decreases n - i,
    {
        if match_at(text, pat, i) {
            return true;
        }
        i = i + 1;
    }
    proof {
        assert forall|k: int| !is_match_at(text@, pat@, k) by {
            if 0 <= k && k + pat@.len() <= text@.len() {
                assert(k < i);
            }
        }
    }
    false
}

/// Whether `text` starts with `pat`.
pub fn starts_with_pat(text: &Vec<char>, pat: &Vec<char>) -> (b: bool)
    ensures
        b == is_match_at(text@, pat@, 0),
{
    if pat.len() <= text.len() {
        match_at(text, pat, 0)
    } else {
        false
    }
}

/// How many times `c` occurs in `s`.
pub open spec fn count_char(s: Seq<char>, c: char) -> nat
    decreases s.len(),
{
    if s.len() == 0 {
        0
    } else {
        count_char(s.drop_last(), c) + if s.last() == c {
            1nat
        } else {
            0nat
        }
    }
}

pub proof fn lemma_count_char_le_len(s: Seq<char>, c: char)
    ensures
        count_char(s, c) <= s.len(),
    decreases s.len(),
{
    if s.len() > 0 {
        lemma_count_char_le_len(s.drop_last(), c);
    }
}

/// The number of lines in `s`: newline-terminated lines plus a final
/// unterminated line if the text does not end with a newline.
pub open spec fn spec_line_count(s: Seq<char>) -> nat {
    count_char(s, '\n') + if s.len() > 0 && s.last() != '\n' {
        1nat
    } else {
        0nat
    }
}

/// Counts the lines of `s`, as a text editor would: a trailing newline
/// does not open a further empty line.
pub fn count_lines(s: &str) -> (n: usize)
    ensures
        n == spec_line_count(s@),
{
    let v = chars_vec(s);
    let len: usize = v.len();
    let mut count: usize = 0;
    let mut i: usize = 0;
    while i < len
        invariant
            len == v@.len(),
            v@ == s@,
            i <= len,
            count == count_char(s@.take(i as int), '\n'),
            count <= i,
        decreases len - i,
    {
        proof {
            assert(s@.take(i + 1 as int).drop_last() =~= s@.take(i as int));
            assert(s@.take(i + 1 as int).last() == s@[i as int]);
        }
        if v[i] == '\n' {
            count = count + 1;
        }
        i = i + 1;
    }
    proof {
        assert(s@.take(len as int) =~= s@);
    }
    if len > 0 && v[len - 1] != '\n' {
        proof {
            assert(s@.last() != '\n');
            lemma_count_char_le_len(s@.drop_last(), '\n');
        }
        count + 1
    } else {
        count
    }
}

/// The first `budget` lines of `s`, joined back together with single
/// newlines: line terminators (`\n` or `\r\n`) inside the window become
/// `\n` separators, and no terminator follows the last line taken.
pub open spec fn head_chars(s: Seq<char>, budget: nat) -> Seq<char>
    decreases s.len(),
{
    if s.len() == 0 || budget == 0 {
        Seq::empty()
    } else if s[0] == '\n' {
        if budget == 1 || s.len() == 1 {
            Seq::empty()
        } else {
            seq!['\n'] + head_chars(s.skip(1), (budget - 1) as nat)
        }
    } else if s[0] == '\r' && s.len() >= 2 && s[1] == '\n' {
        if budget == 1 || s.len() == 2 {
            Seq::empty()
        } else {
            seq!['\n'] + head_chars(s.skip(2), (budget - 1) as nat)
        }
    } else {
        seq![s[0]] + head_chars(s.skip(1), budget)
    }
}

/// Extracts the window of the first `max_lines` lines of `text`.
pub fn head_lines(text: &Vec<char>, max_lines: usize) -> (h: Vec<char>)
    ensures
        h@ == head_chars(text@, max_lines as nat),
{
    let n: usize = text.len();
    let mut h: Vec<char> = Vec::new();
    let mut i: usize = 0;
    let mut budget: usize = max_lines;
    proof {
        assert(text@.skip(0) =~= text@);
        assert(h@ + head_chars(text@, max_lines as nat) =~= head_chars(text@, max_lines as nat));
    }
    while i < n && budget > 0
        invariant
            n == text@.len(),
            i <= n,
            head_chars(text@, max_lines as nat) == h@ + head_chars(
                text@.skip(i as int),
                budget as nat,
            ),
        decreases n - i, budget,
    {
        let ghost prev = h@;
        let ghost suffix = text@.skip(i as int);
        proof {
            assert(suffix[0] == text@[i as int]);
        }
        let c = text[i];
        if c == '\n' {
            if budget == 1 || i + 1 == n {
                budget = 0;
            } else {
                h.push('\n');
                proof {
                    assert(suffix.skip(1) =~= text@.skip(i + 1 as int));
                    assert(h@ + head_chars(text@.skip(i + 1 as int), (budget - 1) as nat) =~= prev
                        + head_chars(suffix, budget as nat));
                }
                i = i + 1;
                budget = budget - 1;
            }
        } else if c == '\r' && i + 1 < n && text[i + 1] == '\n' {
            proof {
                assert(suffix[1] == text@[i + 1 as int]);
            }
            if budget == 1 || i + 2 == n {
                budget = 0;
            } else {
                h.push('\n');
                proof {
                    assert(suffix.skip(2) =~= text@.skip(i + 2 as int));
                    assert(h@ + head_chars(text@.skip(i + 2 as int), (budget - 1) as nat) =~= prev
                        + head_chars(suffix, budget as nat));
                }
                i = i + 2;
                budget = budget - 1;
            }
        } else {
            h.push(c);
            proof {
                assert(suffix.skip(1) =~= text@.skip(i + 1 as int));
                assert(h@ + head_chars(text@.skip(i + 1 as int), budget as nat) =~= prev
                    + head_chars(suffix, budget as nat));
            }
            i = i + 1;
        }
    }
    proof {
        if i == n {
            assert(text@.skip(i as int) =~= Seq::<char>::empty());
        }
        assert(head_chars(text@.skip(i as int), budget as nat) =~= Seq::<char>::empty());
        assert(h@ =~= head_chars(text@, max_lines as nat));
    }
    h
}

/// The name has extension `md`: it ends in `.md` with at least one
/// character before the dot, so that a bare `.md` does not count.
pub open spec fn spec_is_md(name: Seq<char>) -> bool {
    name.len() >= 4 && name.subrange(name.len() - 3, name.len() as int) == ".md"@
}

/// Whether a directory-entry name has extension `md`.
pub fn is_md_name(name: &str) -> (b: bool)
    ensures
        b == spec_is_md(name@),
{
    let v = chars_vec(name);
    let suffix = chars_vec(".md");
    proof {
        reveal_strlit(".md");
    }
    if v.len() < 4 {
        return false;
    }
    let b = match_at(&v, &suffix, v.len() - 3);
    proof {
        assert(name@.subrange(name@.len() - 3, name@.len() as int) == ".md"@ <==> is_match_at(
            name@,
            ".md"@,
            name@.len() - 3,
        ));
    }
    b
}

} // verus!
