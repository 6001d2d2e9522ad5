//! Values: strings, numbers and the two null markers; tags.
use vstd::prelude::*;

use crate::charsets::{lemma_run_end, run_end, scan_run, CharClass};
use crate::numeric::{numeric_at, scan_numeric, Numeric, NumericModel};
use crate::strings::{delimited_at, scan_delimited, scan_unquoted, unquoted_end};
use crate::text::{advance, as_int, chars_of, rest_after, slice_of, stream_took, take_matched};
use crate::whitespace_and_comments::{scan_whitespace, whitespace_end};
use crate::ParseError;

verus! {

pub enum ValueModel {
    Numeric(NumericModel),
    Text(Seq<char>),
    Inapplicable,
    Unknown,
}

/// A value. Strings are the text of the input, as written.
#[derive(Clone, Copy, Debug, PartialEq)]
pub enum Value<'s> {
    Numeric(Numeric<'s>),
    String(&'s str),
    Inapplicable,
    Unknown,
}

impl<'s> View for Value<'s> {
    type V = ValueModel;

    open spec fn view(&self) -> ValueModel {
        match self {
            Value::Numeric(n) => ValueModel::Numeric(n@),
            Value::String(t) => ValueModel::Text(t@),
            Value::Inapplicable => ValueModel::Inapplicable,
            Value::Unknown => ValueModel::Unknown,
        }
    }
}

/// What the unquoted token `s[i..e]` stands for: `.` is inapplicable, `?` is
/// unknown, a token that is all one numeric literal is that number, and any
/// other is a string.
pub open spec fn token_value(s: Seq<char>, i: int, e: int) -> ValueModel {
    if e == i + 1 && s[i] == '.' {
        ValueModel::Inapplicable
    } else if e == i + 1 && s[i] == '?' {
        ValueModel::Unknown
    } else {
        match numeric_at(s, i) {
            Some((n, f)) => if f == e {
                ValueModel::Numeric(n)
            } else {
                ValueModel::Text(s.subrange(i, e))
            },
            None => ValueModel::Text(s.subrange(i, e)),
        }
    }
}

/// A value at `i`, and its end: an unquoted token, or a delimited string.
pub open spec fn value_at(s: Seq<char>, i: int, line_start: bool) -> Option<(ValueModel, int)> {
    match unquoted_end(s, i, line_start) {
        Some(e) => Some((token_value(s, i, e), e)),
        None => match delimited_at(s, i, line_start) {
            Some((a, b, e)) => Some((ValueModel::Text(s.subrange(a, b)), e)),
            None => None,
        },
    }
}

/// Whitespace at `i` then a value, read as at the start of a line where the
/// whitespace ended with `\n`. Gives where the value starts, the value and
/// its end.
pub open spec fn ws_value_at(s: Seq<char>, i: int) -> Option<(int, ValueModel, int)> {
    match whitespace_end(s, i) {
        Some(w) => match value_at(s, w, s[w - 1] == '\n') {
            Some((v, e)) => Some((w, v, e)),
            None => None,
        },
        None => None,
    }
}

/// The end of a tag at `i`: `_` then one or more non-blank characters.
pub open spec fn tag_end(s: Seq<char>, i: int) -> Option<int> {
    if 0 <= i < s.len() && s[i] == '_' && run_end(s, i + 1, CharClass::NonBlank) > i + 1 {
        Some(run_end(s, i + 1, CharClass::NonBlank))
    } else {
        None
    }
}

pub fn scan_value<'s>(input: &'s str, s: &[char], i: usize, line_start: bool) -> (r: Option<
    (Value<'s>, usize),
>)
    requires
        s@ == input@,
        i <= s@.len(),
    ensures
        match r {
            Some((v, e)) => value_at(s@, i as int, line_start) == Some((v@, e as int)),
            None => value_at(s@, i as int, line_start) is None,
        },
        r matches Some((_, e)) ==> i < e <= s@.len(),
{
    match scan_unquoted(s, i, line_start) {
        Some(e) => {
            let v = if e == i + 1 && s[i] == '.' {
                Value::Inapplicable
            } else if e == i + 1 && s[i] == '?' {
                Value::Unknown
            } else {
                match scan_numeric(input, s, i) {
                    Some((n, f)) => if f == e {
                        Value::Numeric(n)
                    } else {
                        Value::String(slice_of(input, i, e))
                    },
                    None => Value::String(slice_of(input, i, e)),
                }
            };
            Some((v, e))
        },
        None => match scan_delimited(s, i, line_start) {
            Some((a, b, e)) => Some((Value::String(slice_of(input, a, b)), e)),
            None => None,
        },
    }
}

pub fn scan_ws_value<'s>(input: &'s str, s: &[char], i: usize) -> (r: Option<
    (usize, Value<'s>, usize),
>)
    requires
        s@ == input@,
        i <= s@.len(),
    ensures
        match r {
            Some((w, v, e)) => ws_value_at(s@, i as int) == Some((w as int, v@, e as int)),
            None => ws_value_at(s@, i as int) is None,
        },
        r matches Some((w, _, e)) ==> i < w < e <= s@.len(),
{
    match scan_whitespace(s, i) {
        Some(w) => match scan_value(input, s, w, s[w - 1] == '\n') {
            Some((v, e)) => Some((w, v, e)),
            None => None,
        },
        None => None,
    }
}

pub fn scan_tag(s: &[char], i: usize) -> (r: Option<usize>)
    requires
        i <= s@.len(),
    ensures
        as_int(r) == tag_end(s@, i as int),
        r matches Some(e) ==> i + 1 < e <= s@.len(),
{
    if i < s.len() && s[i] == '_' {
        let e = scan_run(s, i + 1, CharClass::NonBlank);
        proof {
            lemma_run_end(s@, i + 1, CharClass::NonBlank);
        }
        if e > i + 1 {
            return Some(e);
        }
    }
    None
}

/// What a value production does to a stream.
pub open spec fn stream_took_value(
    before: Seq<char>,
    after: Seq<char>,
    r: Result<Value, ParseError>,
    m: Option<(ValueModel, int)>,
) -> bool {
    match m {
        Some((v, e)) => r matches Ok(x) && x@ == v && after == rest_after(before, e),
        None => r is Err && after == before,
    }
}

fn value<'s>(input: &mut &'s str, line_start: bool) -> (r: Result<Value<'s>, ParseError>)
    ensures
        stream_took_value(old(input)@, final(input)@, r, value_at(old(input)@, 0, line_start)),
{
    let s = chars_of(*input);
    let cur: &'s str = *input;
    match scan_value(cur, &s, 0, line_start) {
        Some((v, e)) => {
            advance(input, e, s.len());
            Ok(v)
        },
        None => Err(ParseError { offset: 0 }),
    }
}

/// A value at the start of a line.
pub fn eol_value<'s>(input: &mut &'s str) -> (r: Result<Value<'s>, ParseError>)
    ensures
        stream_took_value(old(input)@, final(input)@, r, value_at(old(input)@, 0, true)),
{
    value(input, true)
}

/// A value after a character other than a line end.
pub fn noteol_value<'s>(input: &mut &'s str) -> (r: Result<Value<'s>, ParseError>)
    ensures
        stream_took_value(old(input)@, final(input)@, r, value_at(old(input)@, 0, false)),
{
    value(input, false)
}

/// Whitespace, then a value; hands back both.
pub fn whitespace_value<'s>(input: &mut &'s str) -> (r: Result<(&'s str, Value<'s>), ParseError>)
    ensures
        match ws_value_at(old(input)@, 0) {
            Some((w, v, e)) => r matches Ok((t, x)) && t@ == old(input)@.subrange(0, w) && x@ == v
                && final(input)@ == rest_after(old(input)@, e),
            None => r is Err && final(input)@ == old(input)@,
        },
{
    let s = chars_of(*input);
    let cur: &'s str = *input;
    match scan_ws_value(cur, &s, 0) {
        Some((w, v, e)) => {
            let t = slice_of(cur, 0, w);
            advance(input, e, s.len());
            Ok((t, v))
        },
        None => Err(ParseError { offset: 0 }),
    }
}

/// A tag: `_` then one or more non-blank characters.
pub fn tag<'s>(input: &mut &'s str) -> (r: Result<&'s str, ParseError>)
    ensures
        stream_took(old(input)@, final(input)@, r, tag_end(old(input)@, 0)),
{
    let s = chars_of(*input);
    let e = scan_tag(&s, 0);
    take_matched(input, s.len(), e)
}

} // verus!
