//! Whitespace, and the comments that count as whitespace.
use vstd::prelude::*;

use crate::charsets::{
    eol_end, lemma_run_end, run_end, scan_eol, scan_run, scan_ws_char, ws_char_end, CharClass,
};
use crate::text::{as_int, chars_of, stream_took, take_matched};
use crate::ParseError;

verus! {

/// The end of a comment at `i`: `#`, printable characters, then a line end.
pub open spec fn comment_end(s: Seq<char>, i: int) -> Option<int> {
    if 0 <= i < s.len() && s[i] == '#' {
        eol_end(s, run_end(s, i + 1, CharClass::AnyPrint))
    } else {
        None
    }
}

/// Where a sequence of back-to-back comments starting at `i` stops.
pub open spec fn comments_from(s: Seq<char>, i: int) -> int
    decreases s.len() - i,
{
    if comment_end(s, i) is Some && i < comment_end(s, i)->0 <= s.len() {
        comments_from(s, comment_end(s, i)->0)
    } else {
        i
    }
}

/// The end of one or more back-to-back comments at `i`.
pub open spec fn comments_end(s: Seq<char>, i: int) -> Option<int> {
    if comment_end(s, i) is Some {
        Some(comments_from(s, i))
    } else {
        None
    }
}

/// Where a run of whitespace characters starting at `i` stops.
pub open spec fn ws_chars_from(s: Seq<char>, i: int) -> int
    decreases s.len() - i,
{
    if ws_char_end(s, i) is Some && i < ws_char_end(s, i)->0 <= s.len() {
        ws_chars_from(s, ws_char_end(s, i)->0)
    } else {
        i
    }
}

/// The end of one or more whitespace characters at `i` followed by comments.
pub open spec fn tokenized_comments_end(s: Seq<char>, i: int) -> Option<int> {
    let w = ws_chars_from(s, i);
    if w > i {
        comments_end(s, w)
    } else {
        None
    }
}

/// Where whitespace that began at `start` and has reached `j` stops: it takes
/// whitespace characters, and comments wherever something was taken before.
pub open spec fn ws_from(s: Seq<char>, start: int, j: int) -> int
    decreases s.len() - j,
{
    if ws_char_end(s, j) is Some && j < ws_char_end(s, j)->0 <= s.len() {
        ws_from(s, start, ws_char_end(s, j)->0)
    } else if start < j && comment_end(s, j) is Some && j < comment_end(s, j)->0 <= s.len() {
        ws_from(s, start, comment_end(s, j)->0)
    } else {
        j
    }
}

/// The end of whitespace at `i`: at least one character, and comments.
pub open spec fn whitespace_end(s: Seq<char>, i: int) -> Option<int> {
    if ws_from(s, i, i) > i {
        Some(ws_from(s, i, i))
    } else {
        None
    }
}

pub fn scan_comment(s: &[char], i: usize) -> (r: Option<usize>)
    requires
        i <= s@.len(),
    ensures
        as_int(r) == comment_end(s@, i as int),
        r is Some ==> i < r->0 <= s@.len(),
{
    if i < s.len() && s[i] == '#' {
        let b = scan_run(s, i + 1, CharClass::AnyPrint);
        proof {
            lemma_run_end(s@, i + 1, CharClass::AnyPrint);
        }
        scan_eol(s, b)
    } else {
        None
    }
}

pub fn scan_comments(s: &[char], i: usize) -> (r: Option<usize>)
    requires
        i <= s@.len(),
    ensures
        as_int(r) == comments_end(s@, i as int),
        r is Some ==> i < r->0 <= s@.len(),
{
    match scan_comment(s, i) {
        None => None,
        Some(first) => {
            let mut j: usize = first;
            loop
                invariant
                    i < j <= s@.len(),
                    comments_from(s@, j as int) == comments_from(s@, i as int),
                ensures
                    i < j <= s@.len(),
                    comments_from(s@, j as int) == comments_from(s@, i as int),
                    comments_from(s@, j as int) == j,
                decreases s@.len() - j,
            {
                match scan_comment(s, j) {
                    Some(e) => {
                        j = e;
                    },
                    None => {
                        break;
                    },
                }
            }
            Some(j)
        },
    }
}

pub fn scan_ws_chars(s: &[char], i: usize) -> (r: usize)
    requires
        i <= s@.len(),
    ensures
        r == ws_chars_from(s@, i as int),
        i <= r <= s@.len(),
{
    let mut j: usize = i;
    loop
        invariant
            i <= j <= s@.len(),
            ws_chars_from(s@, j as int) == ws_chars_from(s@, i as int),
        ensures
            i <= j <= s@.len(),
            ws_chars_from(s@, j as int) == ws_chars_from(s@, i as int),
            ws_chars_from(s@, j as int) == j,
        decreases s@.len() - j,
    {
        match scan_ws_char(s, j) {
            Some(e) => {
                j = e;
            },
            None => {
                break;
            },
        }
    }
    j
}

pub fn scan_tokenized_comments(s: &[char], i: usize) -> (r: Option<usize>)
    requires
        i <= s@.len(),
    ensures
        as_int(r) == tokenized_comments_end(s@, i as int),
        r is Some ==> i < r->0 <= s@.len(),
{
    let w = scan_ws_chars(s, i);
    if w > i {
        scan_comments(s, w)
    } else {
        None
    }
}

pub fn scan_whitespace(s: &[char], i: usize) -> (r: Option<usize>)
    requires
        i <= s@.len(),
    ensures
        as_int(r) == whitespace_end(s@, i as int),
        r is Some ==> i < r->0 <= s@.len(),
{
    let mut j: usize = i;
    loop
        invariant
            i <= j <= s@.len(),
            ws_from(s@, i as int, j as int) == ws_from(s@, i as int, i as int),
        ensures
            i <= j <= s@.len(),
            ws_from(s@, i as int, j as int) == ws_from(s@, i as int, i as int),
            ws_from(s@, i as int, j as int) == j,
        decreases s@.len() - j,
    {
        match scan_ws_char(s, j) {
            Some(e) => {
                j = e;
            },
            None => {
                if i < j {
                    match scan_comment(s, j) {
                        Some(e) => {
                            j = e;
                        },
                        None => {
                            break;
                        },
                    }
                } else {
                    break;
                }
            },
        }
    }
    if j > i {
        Some(j)
    } else {
        None
    }
}

/// One comment.
pub fn comment<'s>(input: &mut &'s str) -> (r: Result<&'s str, ParseError>)
    ensures
        stream_took(old(input)@, final(input)@, r, comment_end(old(input)@, 0)),
{
    let s = chars_of(*input);
    let e = scan_comment(&s, 0);
    take_matched(input, s.len(), e)
}

/// One or more comments, back to back.
pub fn comments<'s>(input: &mut &'s str) -> (r: Result<&'s str, ParseError>)
    ensures
        stream_took(old(input)@, final(input)@, r, comments_end(old(input)@, 0)),
{
    let s = chars_of(*input);
    let e = scan_comments(&s, 0);
    take_matched(input, s.len(), e)
}

/// One or more whitespace characters, then one or more comments.
pub fn tokenized_comments<'s>(input: &mut &'s str) -> (r: Result<&'s str, ParseError>)
    ensures
        stream_took(old(input)@, final(input)@, r, tokenized_comments_end(old(input)@, 0)),
{
    let s = chars_of(*input);
    let e = scan_tokenized_comments(&s, 0);
    take_matched(input, s.len(), e)
}

/// A separator: whitespace characters and comments, at least one character,
/// where each comment follows something already taken.
pub fn whitespace<'s>(input: &mut &'s str) -> (r: Result<&'s str, ParseError>)
    ensures
        stream_took(old(input)@, final(input)@, r, whitespace_end(old(input)@, 0)),
{
    let s = chars_of(*input);
    let e = scan_whitespace(&s, 0);
    take_matched(input, s.len(), e)
}

/// Where whitespace skipping from `i` stops (at `i` where there is none).
pub open spec fn skip_end(s: Seq<char>, i: int) -> int {
    match whitespace_end(s, i) {
        Some(e) => e,
        None => i,
    }
}

proof fn lemma_ws_from_start(s: Seq<char>, a: int, b: int, k: int)
    requires
        a < k,
        b < k,
    ensures
        ws_from(s, a, k) == ws_from(s, b, k),
    decreases s.len() - k,
{
    if ws_char_end(s, k) is Some && k < ws_char_end(s, k)->0 <= s.len() {
        lemma_ws_from_start(s, a, b, ws_char_end(s, k)->0);
    } else if comment_end(s, k) is Some && k < comment_end(s, k)->0 <= s.len() {
        lemma_ws_from_start(s, a, b, comment_end(s, k)->0);
    }
}

proof fn lemma_ws_from_ge(s: Seq<char>, a: int, k: int)
    ensures
        ws_from(s, a, k) >= k,
    decreases s.len() - k,
{
    if ws_char_end(s, k) is Some && k < ws_char_end(s, k)->0 <= s.len() {
        lemma_ws_from_ge(s, a, ws_char_end(s, k)->0);
    } else if a < k && comment_end(s, k) is Some && k < comment_end(s, k)->0 <= s.len() {
        lemma_ws_from_ge(s, a, comment_end(s, k)->0);
    }
}

proof fn lemma_ws_from_blanks(s: Seq<char>, i: int, j: int)
    requires
        0 <= i <= j <= s.len(),
        forall|k: int| i <= k < j ==> (s[k] == ' ' || s[k] == '\t'),
    ensures
        ws_from(s, i, i) == ws_from(s, i, j),
    decreases j - i,
{
    if i < j {
        lemma_ws_from_blanks_step(s, i, i, j);
    }
}

proof fn lemma_ws_from_blanks_step(s: Seq<char>, start: int, k: int, j: int)
    requires
        0 <= start <= k <= j <= s.len(),
        forall|m: int| start <= m < j ==> (s[m] == ' ' || s[m] == '\t'),
    ensures
        ws_from(s, start, k) == ws_from(s, start, j),
    decreases j - k,
{
    if k < j {
        assert(ws_char_end(s, k) == Some(k + 1));
        lemma_ws_from_blanks_step(s, start, k + 1, j);
    }
}

/// Skipping whitespace is idempotent: skipping from `i`, or from `j` after
/// blanks `s[i..j]` were stripped by hand, stops at the same place, as long as
/// no comment opens right at `j` (a comment must follow whitespace).
pub proof fn lemma_skip_idempotent(s: Seq<char>, i: int, j: int)
    requires
        0 <= i <= j <= s.len(),
        forall|k: int| i <= k < j ==> (s[k] == ' ' || s[k] == '\t'),
        j < s.len() ==> s[j] != '#',
    ensures
        skip_end(s, i) == skip_end(s, j),
{
    lemma_ws_from_blanks(s, i, j);
    if i < j {
        if ws_char_end(s, j) is Some && j < ws_char_end(s, j)->0 <= s.len() {
            lemma_ws_from_start(s, i, j, ws_char_end(s, j)->0);
            lemma_ws_from_ge(s, i, ws_char_end(s, j)->0);
        }
    }
}

} // verus!
