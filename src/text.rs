//! Moving between `&str` streams and character buffers.
use vstd::prelude::*;
use vstd::std_specs::iter::IteratorSpec;

use crate::ParseError;

verus! {

/// The characters of `input`, in order.
pub fn chars_of(input: &str) -> (r: Vec<char>)
    ensures
        r@ == input@,
{
    broadcast use vstd::string::group_string_axioms;
    let mut it = input.chars();
    let mut out: Vec<char> = Vec::new();
    loop
        invariant
            out@ + it.remaining() == input@,
            it.decrease() is Some,
        ensures
            out@ == input@,
        decreases it.decrease()->0,
    {
        match it.next() {
            Some(c) => {
                out.push(c);
            },
            None => {
                assert(out@ =~= input@);
                break;
            },
        }
    }
    out
}

/// The text of `input` from character `from` up to character `to`.
pub fn slice_of<'s>(input: &'s str, from: usize, to: usize) -> (r: &'s str)
    requires
        from <= to <= input@.len(),
    ensures
        r@ == input@.subrange(from as int, to as int),
{
    input.substring_char(from, to)
}

/// Drops the first `n` characters of the stream `input`, whose length is `len`.
pub fn advance<'s>(input: &mut &'s str, n: usize, len: usize)
    requires
        len == old(input)@.len(),
        n <= len,
    ensures
        final(input)@ == old(input)@.subrange(n as int, len as int),
{
    let cur: &'s str = *input;
    *input = cur.substring_char(n, len);
}

pub open spec fn as_int(o: Option<usize>) -> Option<int> {
    match o {
        Some(e) => Some(e as int),
        None => None,
    }
}

/// What a production that matched the first `end` characters of a stream
/// (or failed, at `None`) does: on a match it hands back that text and the
/// stream moves past it; on a failure the stream is left as it was.
pub open spec fn stream_took(
    before: Seq<char>,
    after: Seq<char>,
    r: Result<&str, ParseError>,
    end: Option<int>,
) -> bool {
    match end {
        Some(e) => r is Ok && r->Ok_0@ == before.subrange(0, e) && after == before.subrange(
            e,
            before.len() as int,
        ),
        None => r is Err && after == before,
    }
}

/// What is left of `before` past its first `e` characters.
pub open spec fn rest_after(before: Seq<char>, e: int) -> Seq<char> {
    before.subrange(e, before.len() as int)
}

/// Takes the first `end` characters off the stream, or fails where `end` is
/// `None`.
pub fn take_matched<'s>(input: &mut &'s str, len: usize, end: Option<usize>) -> (r: Result<
    &'s str,
    ParseError,
>)
    requires
        len == old(input)@.len(),
        end is Some ==> end->0 <= len,
    ensures
        stream_took(old(input)@, final(input)@, r, as_int(end)),
{
    match end {
        Some(e) => {
            let cur: &'s str = *input;
            let matched = slice_of(cur, 0, e);
            advance(input, e, len);
            Ok(matched)
        },
        None => Err(ParseError { offset: 0 }),
    }
}

} // verus!
