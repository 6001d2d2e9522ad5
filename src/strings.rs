//! String tokens: unquoted, quoted, and multi-line text fields. Which forms
//! are open depends on whether the token starts a line.
use vstd::prelude::*;

use crate::charsets::{
    eol_end, is_any_print, is_in, is_ordinary, is_separator, is_text_lead, lemma_run_end, run_end,
    scan_eol, scan_run, separator_at, CharClass,
};
use crate::text::{advance, chars_of, rest_after, slice_of};
use crate::ParseError;

verus! {

/// Where the continuation lines of a text field, starting at `j`, stop: each
/// line is empty or opens with a character other than `;`, and ends at a line
/// end.
pub open spec fn text_lines_from(s: Seq<char>, j: int) -> int
    decreases s.len() - j,
{
    let a = if 0 <= j < s.len() && is_text_lead(s[j]) {
        run_end(s, j + 1, CharClass::AnyPrint)
    } else {
        j
    };
    match eol_end(s, a) {
        Some(k) => if j < k <= s.len() {
            text_lines_from(s, k)
        } else {
            j
        },
        None => j,
    }
}

/// A text field at `i`: `;`, the rest of that line, continuation lines, and a
/// `;` that opens a line. Gives where its content ends (the content starts
/// just past the first `;`); the field ends just past the closing `;`.
pub open spec fn text_field_at(s: Seq<char>, i: int) -> Option<int> {
    if 0 <= i < s.len() && s[i] == ';' {
        match eol_end(s, run_end(s, i + 1, CharClass::AnyPrint)) {
            Some(e) => {
                let m = text_lines_from(s, e);
                if 0 <= m < s.len() && s[m] == ';' {
                    Some(m)
                } else {
                    None
                }
            },
            None => None,
        }
    } else {
        None
    }
}

/// The closing quote `q` of a quoted string whose content runs from `j`: the
/// first `q` followed by a separator, with only printable characters before
/// it.
pub open spec fn quote_close(s: Seq<char>, j: int, q: char) -> Option<int>
    decreases s.len() - j,
{
    if j < 0 || j >= s.len() {
        None
    } else if s[j] == q && separator_at(s, j + 1) {
        Some(j)
    } else if is_any_print(s[j]) {
        quote_close(s, j + 1, q)
    } else {
        None
    }
}

/// The closing quote of a string quoted with `q` at `i`.
pub open spec fn quoted_at(s: Seq<char>, i: int, q: char) -> Option<int> {
    if 0 <= i < s.len() && s[i] == q {
        quote_close(s, i + 1, q)
    } else {
        None
    }
}

/// The end of an unquoted string at `i`: a character that may open one, then
/// non-blank characters. At the start of a line `;` may not open one.
pub open spec fn unquoted_end(s: Seq<char>, i: int, line_start: bool) -> Option<int> {
    if 0 <= i < s.len() && (is_ordinary(s[i]) || (!line_start && s[i] == ';')) {
        Some(run_end(s, i + 1, CharClass::NonBlank))
    } else {
        None
    }
}

/// A delimited string at `i`: a text field (only at the start of a line),
/// or a single- or double-quoted string. Gives the start and end of its
/// content and its own end.
pub open spec fn delimited_at(s: Seq<char>, i: int, line_start: bool) -> Option<(int, int, int)> {
    if line_start && text_field_at(s, i) is Some {
        Some((i + 1, text_field_at(s, i)->0, text_field_at(s, i)->0 + 1))
    } else if quoted_at(s, i, '\'') is Some {
        Some((i + 1, quoted_at(s, i, '\'')->0, quoted_at(s, i, '\'')->0 + 1))
    } else if quoted_at(s, i, '"') is Some {
        Some((i + 1, quoted_at(s, i, '"')->0, quoted_at(s, i, '"')->0 + 1))
    } else {
        None
    }
}

/// A string token at `i`: unquoted, else delimited. Gives the start and end of
/// its content and its own end.
pub open spec fn string_at(s: Seq<char>, i: int, line_start: bool) -> Option<(int, int, int)> {
    match unquoted_end(s, i, line_start) {
        Some(e) => Some((i, e, e)),
        None => delimited_at(s, i, line_start),
    }
}

pub fn scan_text_field(s: &[char], i: usize) -> (r: Option<usize>)
    requires
        i <= s@.len(),
    ensures
        r matches Some(m) ==> text_field_at(s@, i as int) == Some(m as int) && i < m < s@.len(),
        r is None ==> text_field_at(s@, i as int) is None,
{
    if !(i < s.len() && s[i] == ';') {
        return None;
    }
    let b = scan_run(s, i + 1, CharClass::AnyPrint);
    proof {
        lemma_run_end(s@, i + 1, CharClass::AnyPrint);
    }
    let e = match scan_eol(s, b) {
        Some(e) => e,
        None => {
            return None;
        },
    };
    let mut j: usize = e;
    loop
        invariant
            i < j <= s@.len(),
            text_lines_from(s@, j as int) == text_lines_from(s@, e as int),
        ensures
            i < j <= s@.len(),
            text_lines_from(s@, j as int) == text_lines_from(s@, e as int),
            text_lines_from(s@, j as int) == j,
        decreases s@.len() - j,
    {
        let a = if j < s.len() && is_in(CharClass::TextLead, s[j]) {
            let a = scan_run(s, j + 1, CharClass::AnyPrint);
            proof {
                lemma_run_end(s@, j + 1, CharClass::AnyPrint);
            }
            a
        } else {
            j
        };
        match scan_eol(s, a) {
            Some(k) => {
                if j < k {
                    j = k;
                } else {
                    break;
                }
            },
            None => {
                break;
            },
        }
    }
    if j < s.len() && s[j] == ';' {
        Some(j)
    } else {
        None
    }
}

pub fn scan_quoted(s: &[char], i: usize, q: char) -> (r: Option<usize>)
    requires
        i <= s@.len(),
    ensures
        r matches Some(c) ==> quoted_at(s@, i as int, q) == Some(c as int) && i < c < s@.len(),
        r is None ==> quoted_at(s@, i as int, q) is None,
{
    if !(i < s.len() && s[i] == q) {
        return None;
    }
    assert(quoted_at(s@, i as int, q) == quote_close(s@, i + 1, q));
    let mut j: usize = i + 1;
    while j < s.len()
        invariant
            i < j <= s@.len(),
            quote_close(s@, j as int, q) == quote_close(s@, i + 1, q),
            quoted_at(s@, i as int, q) == quote_close(s@, i + 1, q),
        decreases s@.len() - j,
    {
        if s[j] == q && is_separator(s, j + 1) {
            assert(quote_close(s@, j as int, q) == Some(j as int));
            return Some(j);
        }
        if !is_in(CharClass::AnyPrint, s[j]) {
            return None;
        }
        j = j + 1;
    }
    None
}

pub fn scan_unquoted(s: &[char], i: usize, line_start: bool) -> (r: Option<usize>)
    requires
        i <= s@.len(),
    ensures
        r matches Some(e) ==> unquoted_end(s@, i as int, line_start) == Some(e as int) && i < e
            <= s@.len(),
        r is None ==> unquoted_end(s@, i as int, line_start) is None,
{
    if i < s.len() && (is_in(CharClass::Ordinary, s[i]) || (!line_start && s[i] == ';')) {
        proof {
            lemma_run_end(s@, i + 1, CharClass::NonBlank);
        }
        Some(scan_run(s, i + 1, CharClass::NonBlank))
    } else {
        None
    }
}

pub fn scan_delimited(s: &[char], i: usize, line_start: bool) -> (r: Option<(usize, usize, usize)>)
    requires
        i <= s@.len(),
    ensures
        r matches Some((a, b, e)) ==> delimited_at(s@, i as int, line_start) == Some(
            (a as int, b as int, e as int),
        ) && a <= b < e <= s@.len() && i < e,
        r is None ==> delimited_at(s@, i as int, line_start) is None,
{
    assert(s@.len() == s.len());
    if line_start {
        if let Some(m) = scan_text_field(s, i) {
            return Some((i + 1, m, m + 1));
        }
    }
    if let Some(c) = scan_quoted(s, i, '\'') {
        return Some((i + 1, c, c + 1));
    }
    if let Some(c) = scan_quoted(s, i, '"') {
        return Some((i + 1, c, c + 1));
    }
    None
}

pub fn scan_string(s: &[char], i: usize, line_start: bool) -> (r: Option<(usize, usize, usize)>)
    requires
        i <= s@.len(),
    ensures
        r matches Some((a, b, e)) ==> string_at(s@, i as int, line_start) == Some(
            (a as int, b as int, e as int),
        ) && a <= b <= e <= s@.len() && i < e,
        r is None ==> string_at(s@, i as int, line_start) is None,
{
    match scan_unquoted(s, i, line_start) {
        Some(e) => Some((i, e, e)),
        None => scan_delimited(s, i, line_start),
    }
}

/// What a production that found content `s[a..b]` and ended at `e` (or failed,
/// at `None`) does to a stream.
pub open spec fn stream_took_content(
    before: Seq<char>,
    after: Seq<char>,
    r: Result<&str, ParseError>,
    m: Option<(int, int, int)>,
) -> bool {
    match m {
        Some((a, b, e)) => r is Ok && r->Ok_0@ == before.subrange(a, b) && after == rest_after(
            before,
            e,
        ),
        None => r is Err && after == before,
    }
}

fn take_content<'s>(input: &mut &'s str, s: &Vec<char>, m: Option<(usize, usize, usize)>) -> (r:
    Result<&'s str, ParseError>)
    requires
        s@ == old(input)@,
        m matches Some((a, b, e)) ==> a <= b <= s@.len() && e <= s@.len(),
    ensures
        stream_took_content(
            old(input)@,
            final(input)@,
            r,
            match m {
                Some((a, b, e)) => Some((a as int, b as int, e as int)),
                None => None,
            },
        ),
{
    match m {
        Some((a, b, e)) => {
            let cur: &'s str = *input;
            let content = slice_of(cur, a, b);
            advance(input, e, s.len());
            Ok(content)
        },
        None => Err(ParseError { offset: 0 }),
    }
}

/// A text field; hands back its content, line ends included.
pub fn eol_text_field<'s>(input: &mut &'s str) -> (r: Result<&'s str, ParseError>)
    ensures
        stream_took_content(
            old(input)@,
            final(input)@,
            r,
            match text_field_at(old(input)@, 0) {
                Some(m) => Some((1, m, m + 1)),
                None => None,
            },
        ),
{
    let s = chars_of(*input);
    assert(s@.len() == s.len());
    let m = match scan_text_field(&s, 0) {
        Some(m) => Some((1, m, m + 1)),
        None => None,
    };
    take_content(input, &s, m)
}

/// A string in double quotes; hands back what is between them.
pub fn double_quoted_string<'s>(input: &mut &'s str) -> (r: Result<&'s str, ParseError>)
    ensures
        stream_took_content(
            old(input)@,
            final(input)@,
            r,
            match quoted_at(old(input)@, 0, '"') {
                Some(c) => Some((1, c, c + 1)),
                None => None,
            },
        ),
{
    let s = chars_of(*input);
    assert(s@.len() == s.len());
    let m = match scan_quoted(&s, 0, '"') {
        Some(c) => Some((1, c, c + 1)),
        None => None,
    };
    take_content(input, &s, m)
}

/// A string in single quotes; hands back what is between them.
pub fn single_quoted_string<'s>(input: &mut &'s str) -> (r: Result<&'s str, ParseError>)
    ensures
        stream_took_content(
            old(input)@,
            final(input)@,
            r,
            match quoted_at(old(input)@, 0, '\'') {
                Some(c) => Some((1, c, c + 1)),
                None => None,
            },
        ),
{
    let s = chars_of(*input);
    assert(s@.len() == s.len());
    let m = match scan_quoted(&s, 0, '\'') {
        Some(c) => Some((1, c, c + 1)),
        None => None,
    };
    take_content(input, &s, m)
}

fn unquoted<'s>(input: &mut &'s str, line_start: bool) -> (r: Result<&'s str, ParseError>)
    ensures
        stream_took_content(
            old(input)@,
            final(input)@,
            r,
            match unquoted_end(old(input)@, 0, line_start) {
                Some(e) => Some((0, e, e)),
                None => None,
            },
        ),
{
    let s = chars_of(*input);
    let m = match scan_unquoted(&s, 0, line_start) {
        Some(e) => Some((0, e, e)),
        None => None,
    };
    take_content(input, &s, m)
}

/// An unquoted string at the start of a line.
pub fn eol_unquoted_string<'s>(input: &mut &'s str) -> (r: Result<&'s str, ParseError>)
    ensures
        stream_took_content(
            old(input)@,
            final(input)@,
            r,
            match unquoted_end(old(input)@, 0, true) {
                Some(e) => Some((0, e, e)),
                None => None,
            },
        ),
{
    unquoted(input, true)
}

/// An unquoted string after a character other than a line end.
pub fn noteol_unquoted_string<'s>(input: &mut &'s str) -> (r: Result<&'s str, ParseError>)
    ensures
        stream_took_content(
            old(input)@,
            final(input)@,
            r,
            match unquoted_end(old(input)@, 0, false) {
                Some(e) => Some((0, e, e)),
                None => None,
            },
        ),
{
    unquoted(input, false)
}

/// A string token at the start of a line.
pub fn eol_string<'s>(input: &mut &'s str) -> (r: Result<&'s str, ParseError>)
    ensures
        stream_took_content(old(input)@, final(input)@, r, string_at(old(input)@, 0, true)),
{
    let s = chars_of(*input);
    let m = scan_string(&s, 0, true);
    take_content(input, &s, m)
}

/// A string token after a character other than a line end.
pub fn noteol_string<'s>(input: &mut &'s str) -> (r: Result<&'s str, ParseError>)
    ensures
        stream_took_content(old(input)@, final(input)@, r, string_at(old(input)@, 0, false)),
{
    let s = chars_of(*input);
    let m = scan_string(&s, 0, false);
    take_content(input, &s, m)
}

} // verus!
