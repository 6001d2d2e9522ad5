//! The reserved words, matched without regard to ASCII case.
use vstd::prelude::*;

use crate::text::{as_int, chars_of, stream_took, take_matched};
use crate::ParseError;

verus! {

#[derive(Clone, Copy, Debug, PartialEq, Eq, Structural)]
pub enum Keyword {
    Data,
    Loop,
    Global,
    Save,
    Stop,
}

/// The keyword as written in upper case.
pub open spec fn keyword_text(k: Keyword) -> Seq<char> {
    match k {
        Keyword::Data => seq!['D', 'A', 'T', 'A', '_'],
        Keyword::Loop => seq!['L', 'O', 'O', 'P', '_'],
        Keyword::Global => seq!['G', 'L', 'O', 'B', 'A', 'L', '_'],
        Keyword::Save => seq!['S', 'A', 'V', 'E', '_'],
        Keyword::Stop => seq!['S', 'T', 'O', 'P', '_'],
    }
}

/// The code of `c` with ASCII lower-case letters mapped to upper case.
pub open spec fn upper_code(c: char) -> u32 {
    let n = c as u32;
    if 0x61 <= n <= 0x7a {
        (n - 32) as u32
    } else {
        n
    }
}

/// The end of keyword `k` at `i`, in any mix of ASCII case.
pub open spec fn keyword_end(s: Seq<char>, i: int, k: Keyword) -> Option<int> {
    let w = keyword_text(k);
    if 0 <= i && i + w.len() <= s.len() && forall|j: int|
        0 <= j < w.len() ==> upper_code(#[trigger] s[i + j]) == w[j] as u32 {
        Some(i + w.len())
    } else {
        None
    }
}

fn keyword_chars(k: Keyword) -> (r: Vec<char>)
    ensures
        r@ == keyword_text(k),
{
    let r = match k {
        Keyword::Data => vec!['D', 'A', 'T', 'A', '_'],
        Keyword::Loop => vec!['L', 'O', 'O', 'P', '_'],
        Keyword::Global => vec!['G', 'L', 'O', 'B', 'A', 'L', '_'],
        Keyword::Save => vec!['S', 'A', 'V', 'E', '_'],
        Keyword::Stop => vec!['S', 'T', 'O', 'P', '_'],
    };
    assert(r@ =~= keyword_text(k));
    r
}

fn upper(c: char) -> (r: u32)
    ensures
        r == upper_code(c),
{
    let n = c as u32;
    if 0x61 <= n && n <= 0x7a {
        n - 32
    } else {
        n
    }
}

pub fn scan_keyword(s: &[char], i: usize, k: Keyword) -> (r: Option<usize>)
    requires
        i <= s@.len(),
    ensures
        as_int(r) == keyword_end(s@, i as int, k),
{
    let w = keyword_chars(k);
    if w.len() > s.len() - i {
        return None;
    }
    let mut j: usize = 0;
    while j < w.len()
        invariant
            i + w@.len() <= s@.len(),
            s@.len() == s.len(),
            w@ == keyword_text(k),
            0 <= j <= w@.len(),
            forall|m: int| 0 <= m < j ==> upper_code(#[trigger] s@[i + m]) == w@[m] as u32,
        decreases w@.len() - j,
    {
        if upper(s[i + j]) != w[j] as u32 {
            return None;
        }
        j = j + 1;
    }
    Some(i + w.len())
}

fn keyword<'s>(input: &mut &'s str, k: Keyword) -> (r: Result<&'s str, ParseError>)
    ensures
        stream_took(old(input)@, final(input)@, r, keyword_end(old(input)@, 0, k)),
{
    let s = chars_of(*input);
    let e = scan_keyword(&s, 0, k);
    take_matched(input, s.len(), e)
}

/// `DATA_`, in any case.
pub fn data_<'s>(input: &mut &'s str) -> (r: Result<&'s str, ParseError>)
    ensures
        stream_took(old(input)@, final(input)@, r, keyword_end(old(input)@, 0, Keyword::Data)),
{
    keyword(input, Keyword::Data)
}

/// `LOOP_`, in any case.
pub fn loop_<'s>(input: &mut &'s str) -> (r: Result<&'s str, ParseError>)
    ensures
        stream_took(old(input)@, final(input)@, r, keyword_end(old(input)@, 0, Keyword::Loop)),
{
    keyword(input, Keyword::Loop)
}

/// `GLOBAL_`, in any case.
pub fn global_<'s>(input: &mut &'s str) -> (r: Result<&'s str, ParseError>)
    ensures
        stream_took(old(input)@, final(input)@, r, keyword_end(old(input)@, 0, Keyword::Global)),
{
    keyword(input, Keyword::Global)
}

/// `SAVE_`, in any case.
pub fn save_<'s>(input: &mut &'s str) -> (r: Result<&'s str, ParseError>)
    ensures
        stream_took(old(input)@, final(input)@, r, keyword_end(old(input)@, 0, Keyword::Save)),
{
    keyword(input, Keyword::Save)
}

/// `STOP_`, in any case.
pub fn stop_<'s>(input: &mut &'s str) -> (r: Result<&'s str, ParseError>)
    ensures
        stream_took(old(input)@, final(input)@, r, keyword_end(old(input)@, 0, Keyword::Stop)),
{
    keyword(input, Keyword::Stop)
}

} // verus!
