//! A parser for the Crystallographic Information File (CIF) text format.
use vstd::prelude::*;

pub mod charsets;
pub mod numeric;
pub mod reserved;
pub mod strings;
pub mod structure;
pub mod text;
pub mod values;
pub mod whitespace_and_comments;

pub use numeric::{Number, Numeric};
pub use structure::{cif, DataBlock, DataBlockItem, DataItems};
pub use values::Value;

verus! {

/// Failure of a production: `offset` is the character position, counted from
/// the start of the stream handed to the parser, at which parsing stopped.
#[derive(Clone, Copy, Debug, PartialEq, Eq, Structural)]
pub struct ParseError {
    pub offset: usize,
}

} // verus!
