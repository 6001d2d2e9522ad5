//! Numeric literals: integers, floats, and an optional parenthesised
//! estimated standard deviation.
use vstd::prelude::*;

use crate::charsets::{in_class, lemma_run_end, run_end, scan_run, CharClass};
use crate::text::{advance, as_int, chars_of, rest_after, slice_of, stream_took, take_matched};
use crate::ParseError;

verus! {

/// The decimal value of the digits `s[a..b]`.
pub open spec fn digits_value(s: Seq<char>, a: int, b: int) -> int
    decreases b - a,
{
    if b <= a {
        0
    } else {
        digits_value(s, a, b - 1) * 10 + (s[b - 1] as u32 - 0x30)
    }
}

/// An unsigned integer at `i`: one or more digits whose value fits in `u32`;
/// its value and end.
pub open spec fn unsigned_integer_at(s: Seq<char>, i: int) -> Option<(int, int)> {
    let e = run_end(s, i, CharClass::Digit);
    if e > i && digits_value(s, i, e) <= u32::MAX {
        Some((digits_value(s, i, e), e))
    } else {
        None
    }
}

/// Past an optional sign at `i`.
pub open spec fn sign_end(s: Seq<char>, i: int) -> int {
    if 0 <= i < s.len() && (s[i] == '+' || s[i] == '-') {
        i + 1
    } else {
        i
    }
}

/// A signed integer at `i`: an optional sign, then an unsigned integer, whose
/// signed value fits in `i32`; its value and end.
pub open spec fn integer_at(s: Seq<char>, i: int) -> Option<(int, int)> {
    let d = sign_end(s, i);
    match unsigned_integer_at(s, d) {
        Some((v, e)) => {
            let sv = if d > i && s[i] == '-' {
                -v
            } else {
                v
            };
            if i32::MIN <= sv <= i32::MAX {
                Some((sv, e))
            } else {
                None
            }
        },
        None => None,
    }
}

/// The end of an exponent at `i`: `e` or `E`, then an integer.
pub open spec fn exponent_end(s: Seq<char>, i: int) -> Option<int> {
    if 0 <= i < s.len() && (s[i] == 'e' || s[i] == 'E') {
        match integer_at(s, i + 1) {
            Some((_, e)) => Some(e),
            None => None,
        }
    } else {
        None
    }
}

/// The end of the decimal-point part of a float at `d` (just past any sign):
/// digits, a point and at least one digit; or at least one digit and a point.
pub open spec fn mantissa_end(s: Seq<char>, d: int) -> Option<int> {
    let a = run_end(s, d, CharClass::Digit);
    if 0 <= a < s.len() && s[a] == '.' && run_end(s, a + 1, CharClass::Digit) > a + 1 {
        Some(run_end(s, a + 1, CharClass::Digit))
    } else if d < a < s.len() && s[a] == '.' {
        Some(a + 1)
    } else {
        None
    }
}

/// The end of a float at `i`: an integer with an exponent, or an optional sign
/// and a decimal-point part with an optional exponent.
pub open spec fn float_end(s: Seq<char>, i: int) -> Option<int> {
    match integer_at(s, i) {
        Some((_, e)) if exponent_end(s, e) is Some => exponent_end(s, e),
        _ => match mantissa_end(s, sign_end(s, i)) {
            Some(m) => match exponent_end(s, m) {
                Some(x) => Some(x),
                None => Some(m),
            },
            None => None,
        },
    }
}

pub enum NumberModel {
    Int(int),
    Float(Seq<char>),
}

pub struct NumericModel {
    pub value: NumberModel,
    pub esd: Option<int>,
}

/// A number at `i`: a float where one stands there (it is the longer match),
/// else an integer.
pub open spec fn number_at(s: Seq<char>, i: int) -> Option<(NumberModel, int)> {
    match float_end(s, i) {
        Some(e) => Some((NumberModel::Float(s.subrange(i, e)), e)),
        None => match integer_at(s, i) {
            Some((v, e)) => Some((NumberModel::Int(v), e)),
            None => None,
        },
    }
}

/// A numeric value at `i`: a number, with the estimated standard deviation
/// where `(`, an unsigned integer and `)` follow it.
pub open spec fn numeric_at(s: Seq<char>, i: int) -> Option<(NumericModel, int)> {
    match number_at(s, i) {
        Some((n, e)) => {
            let esd = if 0 <= e < s.len() && s[e] == '(' {
                unsigned_integer_at(s, e + 1)
            } else {
                None
            };
            match esd {
                Some((u, f)) if 0 <= f < s.len() && s[f] == ')' => Some(
                    (NumericModel { value: n, esd: Some(u) }, f + 1),
                ),
                _ => Some((NumericModel { value: n, esd: None }, e)),
            }
        },
        None => None,
    }
}

/// A number: an integer, or a float kept as the text of its literal.
#[derive(Clone, Copy, Debug, PartialEq)]
pub enum Number<'s> {
    Int(i32),
    Float(&'s str),
}

impl<'s> View for Number<'s> {
    type V = NumberModel;

    open spec fn view(&self) -> NumberModel {
        match self {
            Number::Int(v) => NumberModel::Int(*v as int),
            Number::Float(t) => NumberModel::Float(t@),
        }
    }
}

/// A numeric value with its optional estimated standard deviation, kept as
/// written (not scaled).
#[derive(Clone, Copy, Debug, PartialEq)]
pub struct Numeric<'s> {
    pub value: Number<'s>,
    pub esd: Option<u32>,
}

impl<'s> View for Numeric<'s> {
    type V = NumericModel;

    open spec fn view(&self) -> NumericModel {
        NumericModel {
            value: self.value@,
            esd: match self.esd {
                Some(u) => Some(u as int),
                None => None,
            },
        }
    }
}

proof fn lemma_digits_grow(s: Seq<char>, a: int, b: int, c: int)
    requires
        a <= b <= c <= s.len(),
        0 <= a,
        forall|j: int| a <= j < c ==> in_class(CharClass::Digit, #[trigger] s[j]),
    ensures
        0 <= digits_value(s, a, b) <= digits_value(s, a, c),
    decreases c - a,
{
    if c > a {
        if b < c {
            lemma_digits_grow(s, a, b, c - 1);
        } else {
            lemma_digits_grow(s, a, b - 1, c - 1);
        }
    }
}

/// The digits at `i`, as a `u32` where they fit.
pub fn scan_unsigned_integer(s: &[char], i: usize) -> (r: Option<(u32, usize)>)
    requires
        i <= s@.len(),
    ensures
        match r {
            Some((v, e)) => unsigned_integer_at(s@, i as int) == Some((v as int, e as int)),
            None => unsigned_integer_at(s@, i as int) is None,
        },
        r matches Some((_, e)) ==> i < e <= s@.len(),
{
    let e = scan_run(s, i, CharClass::Digit);
    proof {
        lemma_run_end(s@, i as int, CharClass::Digit);
    }
    if e == i {
        return None;
    }
    let mut v: u64 = 0;
    let mut j: usize = i;
    while j < e
        invariant
            i <= j <= e <= s@.len(),
            e == run_end(s@, i as int, CharClass::Digit),
            forall|m: int| i <= m < e ==> in_class(CharClass::Digit, #[trigger] s@[m]),
            v as int == digits_value(s@, i as int, j as int),
            v <= u32::MAX,
        decreases e - j,
    {
        let d = (s[j] as u32 - 0x30) as u64;
        let next = v * 10 + d;
        assert(next as int == digits_value(s@, i as int, j + 1));
        if next > u32::MAX as u64 {
            proof {
                lemma_digits_grow(s@, i as int, j + 1, e as int);
            }
            return None;
        }
        v = next;
        j = j + 1;
    }
    Some((v as u32, e))
}

pub fn scan_sign(s: &[char], i: usize) -> (r: usize)
    requires
        i <= s@.len(),
    ensures
        r == sign_end(s@, i as int),
{
    if i < s.len() && (s[i] == '+' || s[i] == '-') {
        i + 1
    } else {
        i
    }
}

pub fn scan_integer(s: &[char], i: usize) -> (r: Option<(i32, usize)>)
    requires
        i <= s@.len(),
    ensures
        match r {
            Some((v, e)) => integer_at(s@, i as int) == Some((v as int, e as int)),
            None => integer_at(s@, i as int) is None,
        },
        r matches Some((_, e)) ==> i < e <= s@.len(),
{
    let d = scan_sign(s, i);
    match scan_unsigned_integer(s, d) {
        Some((v, e)) => {
            let sv: i64 = if d > i && s[i] == '-' {
                -(v as i64)
            } else {
                v as i64
            };
            if i32::MIN as i64 <= sv && sv <= i32::MAX as i64 {
                Some((sv as i32, e))
            } else {
                None
            }
        },
        None => None,
    }
}

pub fn scan_exponent(s: &[char], i: usize) -> (r: Option<usize>)
    requires
        i <= s@.len(),
    ensures
        as_int(r) == exponent_end(s@, i as int),
        r is Some ==> i < r->0 <= s@.len(),
{
    if i < s.len() && (s[i] == 'e' || s[i] == 'E') {
        match scan_integer(s, i + 1) {
            Some((_, e)) => Some(e),
            None => None,
        }
    } else {
        None
    }
}

pub fn scan_mantissa(s: &[char], d: usize) -> (r: Option<usize>)
    requires
        d <= s@.len(),
    ensures
        as_int(r) == mantissa_end(s@, d as int),
        r is Some ==> d < r->0 <= s@.len(),
{
    let a = scan_run(s, d, CharClass::Digit);
    proof {
        lemma_run_end(s@, d as int, CharClass::Digit);
    }
    if a < s.len() && s[a] == '.' {
        let b = scan_run(s, a + 1, CharClass::Digit);
        proof {
            lemma_run_end(s@, a + 1, CharClass::Digit);
        }
        if b > a + 1 {
            return Some(b);
        }
        if d < a {
            return Some(a + 1);
        }
    }
    None
}

pub fn scan_float(s: &[char], i: usize) -> (r: Option<usize>)
    requires
        i <= s@.len(),
    ensures
        as_int(r) == float_end(s@, i as int),
        r is Some ==> i < r->0 <= s@.len(),
{
    if let Some((_, e)) = scan_integer(s, i) {
        if let Some(x) = scan_exponent(s, e) {
            return Some(x);
        }
    }
    let d = scan_sign(s, i);
    match scan_mantissa(s, d) {
        Some(m) => match scan_exponent(s, m) {
            Some(x) => Some(x),
            None => Some(m),
        },
        None => None,
    }
}

pub fn scan_number<'s>(input: &'s str, s: &[char], i: usize) -> (r: Option<(Number<'s>, usize)>)
    requires
        s@ == input@,
        i <= s@.len(),
    ensures
        match r {
            Some((n, e)) => number_at(s@, i as int) == Some((n@, e as int)),
            None => number_at(s@, i as int) is None,
        },
        r matches Some((_, e)) ==> i < e <= s@.len(),
{
    match scan_float(s, i) {
        Some(e) => Some((Number::Float(slice_of(input, i, e)), e)),
        None => match scan_integer(s, i) {
            Some((v, e)) => Some((Number::Int(v), e)),
            None => None,
        },
    }
}

pub fn scan_numeric<'s>(input: &'s str, s: &[char], i: usize) -> (r: Option<(Numeric<'s>, usize)>)
    requires
        s@ == input@,
        i <= s@.len(),
    ensures
        match r {
            Some((n, e)) => numeric_at(s@, i as int) == Some((n@, e as int)),
            None => numeric_at(s@, i as int) is None,
        },
        r matches Some((_, e)) ==> i < e <= s@.len(),
{
    match scan_number(input, s, i) {
        Some((n, e)) => {
            if e < s.len() && s[e] == '(' {
                if let Some((u, f)) = scan_unsigned_integer(s, e + 1) {
                    if f < s.len() && s[f] == ')' {
                        return Some((Numeric { value: n, esd: Some(u) }, f + 1));
                    }
                }
            }
            Some((Numeric { value: n, esd: None }, e))
        },
        None => None,
    }
}

/// One or more digits, read as a `u32`.
pub fn unsigned_integer(input: &mut &str) -> (r: Result<u32, ParseError>)
    ensures
        match unsigned_integer_at(old(input)@, 0) {
            Some((v, e)) => r == Ok::<u32, ParseError>(v as u32) && final(input)@ == rest_after(
                old(input)@,
                e,
            ),
            None => r is Err && final(input)@ == old(input)@,
        },
{
    let s = chars_of(*input);
    match scan_unsigned_integer(&s, 0) {
        Some((v, e)) => {
            advance(input, e, s.len());
            Ok(v)
        },
        None => Err(ParseError { offset: 0 }),
    }
}

/// An optional sign and one or more digits, read as an `i32`.
pub fn integer(input: &mut &str) -> (r: Result<i32, ParseError>)
    ensures
        match integer_at(old(input)@, 0) {
            Some((v, e)) => r == Ok::<i32, ParseError>(v as i32) && final(input)@ == rest_after(
                old(input)@,
                e,
            ),
            None => r is Err && final(input)@ == old(input)@,
        },
{
    let s = chars_of(*input);
    match scan_integer(&s, 0) {
        Some((v, e)) => {
            advance(input, e, s.len());
            Ok(v)
        },
        None => Err(ParseError { offset: 0 }),
    }
}

/// `e` or `E` and an integer; hands back the text.
pub fn exponent<'s>(input: &mut &'s str) -> (r: Result<&'s str, ParseError>)
    ensures
        stream_took(old(input)@, final(input)@, r, exponent_end(old(input)@, 0)),
{
    let s = chars_of(*input);
    let e = scan_exponent(&s, 0);
    take_matched(input, s.len(), e)
}

/// A float literal; hands back its text.
pub fn float<'s>(input: &mut &'s str) -> (r: Result<&'s str, ParseError>)
    ensures
        stream_took(old(input)@, final(input)@, r, float_end(old(input)@, 0)),
{
    let s = chars_of(*input);
    let e = scan_float(&s, 0);
    take_matched(input, s.len(), e)
}

/// A number: a float where one stands, else an integer.
pub fn number<'s>(input: &mut &'s str) -> (r: Result<Number<'s>, ParseError>)
    ensures
        match number_at(old(input)@, 0) {
            Some((n, e)) => r matches Ok(v) && v@ == n && final(input)@ == rest_after(
                old(input)@,
                e,
            ),
            None => r is Err && final(input)@ == old(input)@,
        },
{
    let s = chars_of(*input);
    let cur: &'s str = *input;
    match scan_number(cur, &s, 0) {
        Some((n, e)) => {
            advance(input, e, s.len());
            Ok(n)
        },
        None => Err(ParseError { offset: 0 }),
    }
}

impl<'s> Numeric<'s> {
    /// A number, with its estimated standard deviation where one follows.
    pub fn parser(input: &mut &'s str) -> (r: Result<Numeric<'s>, ParseError>)
        ensures
            match numeric_at(old(input)@, 0) {
                Some((n, e)) => r matches Ok(v) && v@ == n && final(input)@ == rest_after(
                    old(input)@,
                    e,
                ),
                None => r is Err && final(input)@ == old(input)@,
            },
    {
        let s = chars_of(*input);
        let cur: &'s str = *input;
        match scan_numeric(cur, &s, 0) {
            Some((n, e)) => {
                advance(input, e, s.len());
                Ok(n)
            },
            None => Err(ParseError { offset: 0 }),
        }
    }
}

} // verus!
