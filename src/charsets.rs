//! Character classes of the CIF repertoire, and runs of them.
use vstd::prelude::*;

use crate::text::{advance, as_int, chars_of, stream_took, take_matched};
use crate::ParseError;

verus! {

/// The character classes that the grammar is written in.
#[derive(Clone, Copy, Debug, PartialEq, Eq, Structural)]
pub enum CharClass {
    /// Printable ASCII but for `"`, `#`, `$`, `'`, `_`, `;`, `[`, `]`.
    Ordinary,
    /// `!` through `~`.
    NonBlank,
    /// Tab, space and `!` through `~`, but for `;`.
    TextLead,
    /// Tab, space and `!` through `~`.
    AnyPrint,
    /// `0` through `9`.
    Digit,
}

pub open spec fn is_ordinary(c: char) -> bool {
    let n = c as u32;
    n == 0x21 || (0x25 <= n <= 0x26) || (0x28 <= n <= 0x3a) || (0x3c <= n <= 0x5a) || n == 0x5c
        || n == 0x5e || (0x60 <= n <= 0x7e)
}

pub open spec fn is_nonblank(c: char) -> bool {
    0x21 <= c as u32 <= 0x7e
}

pub open spec fn is_text_lead(c: char) -> bool {
    c == '\t' || c == ' ' || (is_nonblank(c) && c != ';')
}

pub open spec fn is_any_print(c: char) -> bool {
    c == '\t' || c == ' ' || is_nonblank(c)
}

pub open spec fn is_digit(c: char) -> bool {
    0x30 <= c as u32 <= 0x39
}

pub open spec fn in_class(k: CharClass, c: char) -> bool {
    match k {
        CharClass::Ordinary => is_ordinary(c),
        CharClass::NonBlank => is_nonblank(c),
        CharClass::TextLead => is_text_lead(c),
        CharClass::AnyPrint => is_any_print(c),
        CharClass::Digit => is_digit(c),
    }
}

/// Whether `c` belongs to class `k`.
pub fn is_in(k: CharClass, c: char) -> (r: bool)
    ensures
        r == in_class(k, c),
{
    let n = c as u32;
    match k {
        CharClass::Ordinary => n == 0x21 || (0x25 <= n && n <= 0x26) || (0x28 <= n && n <= 0x3a)
            || (0x3c <= n && n <= 0x5a) || n == 0x5c || n == 0x5e || (0x60 <= n && n <= 0x7e),
        CharClass::NonBlank => 0x21 <= n && n <= 0x7e,
        CharClass::TextLead => c == '\t' || c == ' ' || (0x21 <= n && n <= 0x7e && c != ';'),
        CharClass::AnyPrint => c == '\t' || c == ' ' || (0x21 <= n && n <= 0x7e),
        CharClass::Digit => 0x30 <= n && n <= 0x39,
    }
}

/// The end of the longest run of class `k` that starts at `i`.
pub open spec fn run_end(s: Seq<char>, i: int, k: CharClass) -> int
    decreases s.len() - i,
{
    if 0 <= i < s.len() && in_class(k, s[i]) {
        run_end(s, i + 1, k)
    } else {
        i
    }
}

/// The run is maximal: every character in it is of the class, and the one
/// after it, if any, is not.
pub proof fn lemma_run_end(s: Seq<char>, i: int, k: CharClass)
    requires
        0 <= i <= s.len(),
    ensures
        i <= run_end(s, i, k) <= s.len(),
        forall|j: int| i <= j < run_end(s, i, k) ==> in_class(k, #[trigger] s[j]),
        run_end(s, i, k) < s.len() ==> !in_class(k, s[run_end(s, i, k)]),
    decreases s.len() - i,
{
    if i < s.len() && in_class(k, s[i]) {
        lemma_run_end(s, i + 1, k);
    }
}

/// Scans the run of class `k` that starts at `i`.
pub fn scan_run(s: &[char], i: usize, k: CharClass) -> (r: usize)
    requires
        i <= s@.len(),
    ensures
        r == run_end(s@, i as int, k),
{
    let mut j: usize = i;
    while j < s.len() && is_in(k, s[j])
        invariant
            i <= j <= s@.len(),
            run_end(s@, j as int, k) == run_end(s@, i as int, k),
        decreases s@.len() - j,
    {
        j = j + 1;
    }
    j
}

/// The end of a line terminator (`\n` or `\r\n`) at `i`, or `i` itself at the
/// end of the input.
pub open spec fn eol_end(s: Seq<char>, i: int) -> Option<int> {
    if i == s.len() {
        Some(i)
    } else if 0 <= i < s.len() && s[i] == '\n' {
        Some(i + 1)
    } else if 0 <= i && i + 1 < s.len() && s[i] == '\r' && s[i + 1] == '\n' {
        Some(i + 2)
    } else {
        None
    }
}

/// The end of one whitespace character at `i`: space, tab or a line
/// terminator. The end of the input is not one.
pub open spec fn ws_char_end(s: Seq<char>, i: int) -> Option<int> {
    if 0 <= i < s.len() && (s[i] == ' ' || s[i] == '\t') {
        Some(i + 1)
    } else if i < s.len() {
        eol_end(s, i)
    } else {
        None
    }
}

/// Whether a separator (whitespace or the end of the input) stands at `i`.
pub open spec fn separator_at(s: Seq<char>, i: int) -> bool {
    i == s.len() || ws_char_end(s, i) is Some
}

pub fn scan_eol(s: &[char], i: usize) -> (r: Option<usize>)
    requires
        i <= s@.len(),
    ensures
        as_int(r) == eol_end(s@, i as int),
{
    if i == s.len() {
        Some(i)
    } else if s[i] == '\n' {
        Some(i + 1)
    } else if i + 1 < s.len() && s[i] == '\r' && s[i + 1] == '\n' {
        Some(i + 2)
    } else {
        None
    }
}

pub fn scan_ws_char(s: &[char], i: usize) -> (r: Option<usize>)
    requires
        i <= s@.len(),
    ensures
        as_int(r) == ws_char_end(s@, i as int),
{
    if i < s.len() && (s[i] == ' ' || s[i] == '\t') {
        Some(i + 1)
    } else if i < s.len() {
        scan_eol(s, i)
    } else {
        None
    }
}

pub fn is_separator(s: &[char], i: usize) -> (r: bool)
    requires
        i <= s@.len(),
    ensures
        r == separator_at(s@, i as int),
{
    i == s.len() || scan_ws_char(s, i).is_some()
}

/// What a one-character production of class `k` does to a stream.
pub open spec fn took_char(
    k: CharClass,
    before: Seq<char>,
    after: Seq<char>,
    r: Result<char, ParseError>,
) -> bool {
    if before.len() > 0 && in_class(k, before[0]) {
        r == Ok::<char, ParseError>(before[0]) && after == before.drop_first()
    } else {
        r is Err && after == before
    }
}

fn one_of_class<'s>(input: &mut &'s str, k: CharClass) -> (r: Result<char, ParseError>)
    ensures
        took_char(k, old(input)@, final(input)@, r),
{
    let len = input.unicode_len();
    if len == 0 {
        return Err(ParseError { offset: 0 });
    }
    let c = input.get_char(0);
    if is_in(k, c) {
        advance(input, 1, len);
        proof {
            assert(final(input)@ =~= old(input)@.drop_first());
        }
        Ok(c)
    } else {
        Err(ParseError { offset: 0 })
    }
}

/// The end of a run of class `k` at `i`, which must be non-empty where
/// `nonempty` is set.
pub open spec fn run_match(s: Seq<char>, i: int, k: CharClass, nonempty: bool) -> Option<int> {
    if nonempty && run_end(s, i, k) == i {
        None
    } else {
        Some(run_end(s, i, k))
    }
}

fn run_of_class<'s>(input: &mut &'s str, k: CharClass, nonempty: bool) -> (r: Result<
    &'s str,
    ParseError,
>)
    ensures
        stream_took(old(input)@, final(input)@, r, run_match(old(input)@, 0, k, nonempty)),
{
    let s = chars_of(*input);
    let e = scan_run(&s, 0, k);
    proof {
        lemma_run_end(s@, 0, k);
    }
    if nonempty && e == 0 {
        take_matched(input, s.len(), None)
    } else {
        take_matched(input, s.len(), Some(e))
    }
}

pub fn ordinary_char(input: &mut &str) -> (r: Result<char, ParseError>)
    ensures
        took_char(CharClass::Ordinary, old(input)@, final(input)@, r),
{
    one_of_class(input, CharClass::Ordinary)
}

pub fn nonblank_char(input: &mut &str) -> (r: Result<char, ParseError>)
    ensures
        took_char(CharClass::NonBlank, old(input)@, final(input)@, r),
{
    one_of_class(input, CharClass::NonBlank)
}

pub fn text_lead_char(input: &mut &str) -> (r: Result<char, ParseError>)
    ensures
        took_char(CharClass::TextLead, old(input)@, final(input)@, r),
{
    one_of_class(input, CharClass::TextLead)
}

pub fn any_print_char(input: &mut &str) -> (r: Result<char, ParseError>)
    ensures
        took_char(CharClass::AnyPrint, old(input)@, final(input)@, r),
{
    one_of_class(input, CharClass::AnyPrint)
}

/// Zero or more printable characters.
pub fn printchar0<'s>(input: &mut &'s str) -> (r: Result<&'s str, ParseError>)
    ensures
        stream_took(
            old(input)@,
            final(input)@,
            r,
            run_match(old(input)@, 0, CharClass::AnyPrint, false),
        ),
{
    run_of_class(input, CharClass::AnyPrint, false)
}

/// One or more printable characters.
pub fn printchar1<'s>(input: &mut &'s str) -> (r: Result<&'s str, ParseError>)
    ensures
        stream_took(
            old(input)@,
            final(input)@,
            r,
            run_match(old(input)@, 0, CharClass::AnyPrint, true),
        ),
{
    run_of_class(input, CharClass::AnyPrint, true)
}

/// Zero or more non-blank characters.
pub fn nonblank0<'s>(input: &mut &'s str) -> (r: Result<&'s str, ParseError>)
    ensures
        stream_took(
            old(input)@,
            final(input)@,
            r,
            run_match(old(input)@, 0, CharClass::NonBlank, false),
        ),
{
    run_of_class(input, CharClass::NonBlank, false)
}

/// One or more non-blank characters.
pub fn nonblank1<'s>(input: &mut &'s str) -> (r: Result<&'s str, ParseError>)
    ensures
        stream_took(
            old(input)@,
            final(input)@,
            r,
            run_match(old(input)@, 0, CharClass::NonBlank, true),
        ),
{
    run_of_class(input, CharClass::NonBlank, true)
}

/// A line terminator, or the end of the input (which matches empty text).
pub fn eol<'s>(input: &mut &'s str) -> (r: Result<&'s str, ParseError>)
    ensures
        stream_took(old(input)@, final(input)@, r, eol_end(old(input)@, 0)),
{
    let s = chars_of(*input);
    let e = scan_eol(&s, 0);
    take_matched(input, s.len(), e)
}

/// The end of one whitespace character at `i`, where the end of the input
/// counts as a (empty) line end.
pub open spec fn ws_or_end(s: Seq<char>, i: int) -> Option<int> {
    if i == s.len() {
        Some(i)
    } else {
        ws_char_end(s, i)
    }
}

/// One space, tab or line terminator, or the end of the input.
pub fn whitespace<'s>(input: &mut &'s str) -> (r: Result<&'s str, ParseError>)
    ensures
        stream_took(old(input)@, final(input)@, r, ws_or_end(old(input)@, 0)),
{
    let s = chars_of(*input);
    let e = if s.len() == 0 {
        Some(0)
    } else {
        scan_ws_char(&s, 0)
    };
    take_matched(input, s.len(), e)
}

/// How the classes nest: a non-blank character is an ordinary one or one of
/// `" # $ ' _ ; [ ]`; a text-lead character is an ordinary one, one of
/// `" # $ ' _ [ ]`, space or tab; a printable one is a text-lead one or `;`.
pub proof fn lemma_class_relations(c: char)
    ensures
        is_nonblank(c) <==> (is_ordinary(c) || c == '"' || c == '#' || c == '$' || c == '\''
            || c == '_' || c == ';' || c == '[' || c == ']'),
        is_text_lead(c) <==> (is_ordinary(c) || c == '"' || c == '#' || c == '$' || c == '\''
            || c == '_' || c == '[' || c == ']' || c == ' ' || c == '\t'),
        is_any_print(c) <==> (is_text_lead(c) || c == ';'),
        is_ordinary(c) ==> is_nonblank(c),
{
}

} // verus!
