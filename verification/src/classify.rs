//! The lexical probe that tells row-producing statements from mutating ones.

use vstd::prelude::*;
use crate::text::{
    chars_of, has_at, is_space, is_whitespace, scan_spaces, skip_spaces, starts_with_at, string_of,
};

verus! {

/// The lower-case form of an ASCII capital; every other character unchanged.
pub open spec fn lower_char(c: char) -> char {
    if 'A' <= c <= 'Z' {
        ((c as u8 + 32) as u8) as char
    } else {
        c
    }
}

/// A word with its ASCII capitals in lower case.
pub open spec fn lower(word: Seq<char>) -> Seq<char> {
    Seq::new(word.len(), |k: int| lower_char(word[k]))
}

/// The first position at or after `i` that holds a line feed, or the length.
pub open spec fn line_end(s: Seq<char>, i: int) -> int
    decreases s.len() - i,
{
    if 0 <= i < s.len() && s[i] != '\n' {
        line_end(s, i + 1)
    } else {
        i
    }
}

/// The first position at or after `i` where `*/` stands, or the length.
pub open spec fn comment_end(s: Seq<char>, i: int) -> int
    decreases s.len() - i,
{
    if 0 <= i < s.len() && !has_at(s, i, "*/"@) {
        comment_end(s, i + 1)
    } else {
        i
    }
}

/// The first position at or after `i` that holds white space, or the length.
pub open spec fn word_end(s: Seq<char>, i: int) -> int
    decreases s.len() - i,
{
    if 0 <= i < s.len() && !is_space(s[i]) {
        word_end(s, i + 1)
    } else {
        i
    }
}

/// Each scan ends between its start and the end of the text, and a comment's
/// end that lies inside the text holds the closing mark.
pub proof fn lemma_scan_bounds(s: Seq<char>, i: int)
    requires
        0 <= i <= s.len(),
    ensures
        i <= skip_spaces(s, i) <= s.len(),
        i <= line_end(s, i) <= s.len(),
        i <= comment_end(s, i) <= s.len(),
        i <= word_end(s, i) <= s.len(),
        comment_end(s, i) < s.len() ==> has_at(s, comment_end(s, i), "*/"@),
    decreases s.len() - i,
{
    if i < s.len() {
        lemma_scan_bounds(s, i + 1);
    }
}

/// Where the first word of a script starts, looking from position `i`:
/// white space, `--` comments up to the line's end and `/* */` comments are
/// passed over. A block comment ends at the first `*/` after its opening
/// mark. `None` where no word follows or a comment never ends.
pub open spec fn keyword_start(s: Seq<char>, i: int) -> Option<int>
    decreases s.len() - i,
    via keyword_start_decreases
{
    if i < 0 || i > s.len() {
        None
    } else {
        let j = skip_spaces(s, i);
        if has_at(s, j, "--"@) {
            let e = line_end(s, j);
            if e >= s.len() {
                None
            } else {
                keyword_start(s, e + 1)
            }
        } else if has_at(s, j, "/*"@) {
            let e = comment_end(s, j + 2);
            if e >= s.len() {
                None
            } else {
                keyword_start(s, e + 2)
            }
        } else if j >= s.len() {
            None
        } else {
            Some(j)
        }
    }
}

#[via_fn]
proof fn keyword_start_decreases(s: Seq<char>, i: int) {
    if 0 <= i <= s.len() {
        reveal_strlit("*/");
        reveal_strlit("/*");
        lemma_scan_bounds(s, i);
        let j = skip_spaces(s, i);
        lemma_scan_bounds(s, j);
        if has_at(s, j, "/*"@) {
            lemma_scan_bounds(s, j + 2);
        }
    }
}

/// The first word of a script after its leading comments, in lower case.
pub open spec fn keyword_of(s: Seq<char>) -> Option<Seq<char>> {
    match keyword_start(s, 0) {
        None => None,
        Some(j) => Some(lower(s.subrange(j, word_end(s, j)))),
    }
}

/// Whether a keyword starts a statement that hands rows back.
pub open spec fn is_row_keyword(word: Seq<char>) -> bool {
    ||| word == "select"@
    ||| word == "with"@
    ||| word == "pragma"@
    ||| word == "show"@
    ||| word == "describe"@
    ||| word == "explain"@
}

/// Whether a script is run as a query (rows come back) rather than as a
/// mutating statement.
pub open spec fn returns_rows(s: Seq<char>) -> bool {
    match keyword_of(s) {
        None => false,
        Some(word) => is_row_keyword(word),
    }
}

/// The view of an optional string.
pub open spec fn opt_text(word: Option<String>) -> Option<Seq<char>> {
    match word {
        None => None,
        Some(w) => Some(w@),
    }
}

/// The lower-case form of a character, for ASCII capitals.
pub fn to_lower(c: char) -> (low: char)
    ensures
        low == lower_char(c),
{
    if 'A' <= c && c <= 'Z' {
        let b: u8 = c as u8;
        (b + 32) as char
    } else {
        c
    }
}

fn scan_line(s: &Vec<char>, from: usize) -> (at: usize)
    requires
        from <= s.len(),
    ensures
        at == line_end(s@, from as int),
        from <= at <= s.len(),
{
    let mut i: usize = from;
    while i < s.len() && s[i] != '\n'
        invariant
            from <= i <= s.len(),
            line_end(s@, i as int) == line_end(s@, from as int),
        decreases s.len() - i,
    {
        i += 1;
    }
    i
}

fn scan_comment(s: &Vec<char>, from: usize) -> (at: usize)
    requires
        from <= s.len(),
    ensures
        at == comment_end(s@, from as int),
        from <= at <= s.len(),
{
    let mut i: usize = from;
    while i < s.len() && !starts_with_at(s, i, "*/")
        invariant
            from <= i <= s.len(),
            comment_end(s@, i as int) == comment_end(s@, from as int),
        decreases s.len() - i,
    {
        i += 1;
    }
    i
}

fn scan_word(s: &Vec<char>, from: usize) -> (at: usize)
    requires
        from <= s.len(),
    ensures
        at == word_end(s@, from as int),
        from <= at <= s.len(),
{
    let mut i: usize = from;
    while i < s.len() && !is_whitespace(s[i])
        invariant
            from <= i <= s.len(),
            word_end(s@, i as int) == word_end(s@, from as int),
        decreases s.len() - i,
    {
        i += 1;
    }
    i
}

/// The first word of a script, in lower case, after leading white space and
/// comments; `None` where there is none or a comment is not closed.
pub fn first_keyword(script: &str) -> (word: Option<String>)
    ensures
        opt_text(word) == keyword_of(script@),
{
    let s = chars_of(script);
    let n = s.len();
    let mut i: usize = 0;
    loop
        invariant
            i <= n,
            n == s.len(),
            s@ == script@,
            keyword_start(s@, i as int) == keyword_start(s@, 0),
        decreases n - i,
    {
        proof {
            reveal_strlit("--");
            reveal_strlit("/*");
            reveal_strlit("*/");
        }
        let j = scan_spaces(&s, i);
        if starts_with_at(&s, j, "--") {
            let e = scan_line(&s, j);
            if e >= n {
                return None;
            }
            i = e + 1;
        } else if starts_with_at(&s, j, "/*") {
            let e = scan_comment(&s, j + 2);
            if e >= n {
                return None;
            }
            proof {
                lemma_scan_bounds(s@, j + 2);
            }
            i = e + 2;
        } else if j >= n {
            return None;
        } else {
            let e = scan_word(&s, j);
            let mut word: Vec<char> = Vec::new();
            let mut k: usize = j;
            assert(word@ =~= lower(s@.subrange(j as int, j as int)));
            while k < e
                invariant
                    j <= k <= e <= s.len(),
                    word@ == lower(s@.subrange(j as int, k as int)),
                decreases e - k,
            {
                word.push(to_lower(s[k]));
                assert(lower(s@.subrange(j as int, k as int)).push(lower_char(s@[k as int]))
                    =~= lower(s@.subrange(j as int, k + 1)));
                k += 1;
            }
            return Some(string_of(&word));
        }
    }
}

/// Whether a script is run as a query: its first word, in any case, is one
/// of `select`, `with`, `pragma`, `show`, `describe`, `explain`.
pub fn script_returns_rows(script: &str) -> (rows: bool)
    ensures
        rows == returns_rows(script@),
{
    match first_keyword(script) {
        None => false,
        Some(word) => {
            let w = chars_of(word.as_str());
            proof {
                reveal_strlit("select");
                reveal_strlit("with");
                reveal_strlit("pragma");
                reveal_strlit("show");
                reveal_strlit("describe");
                reveal_strlit("explain");
            }
            is_word(&w, "select") || is_word(&w, "with") || is_word(&w, "pragma") || is_word(
                &w,
                "show",
            ) || is_word(&w, "describe") || is_word(&w, "explain")
        },
    }
}

/// Whether `w` is exactly the word `lit`.
fn is_word(w: &Vec<char>, lit: &str) -> (same: bool)
    ensures
        same == (w@ == lit@),
{
    let l = lit.unicode_len();
    let same = w.len() == l && starts_with_at(w, 0, lit);
    proof {
        if w@.len() == lit@.len() {
            assert(w@.subrange(0, w@.len() as int) == w@);
        }
    }
    same
}

} // verus!
