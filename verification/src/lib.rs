//! Decoders for two binary formats of a real-time-strategy game: a map
//! placement file holding a singly-linked chain of typed entity records, and a
//! creature definition library holding variable-length records keyed by id.
//!
//! Both decoders work over an in-memory byte cursor; opening files and
//! presenting results are the caller's concern.
use vstd::prelude::*;

pub mod cursor;
pub mod cplc;
pub mod creature_library;

verus! {

/// A typed decoding failure. Every parse aborts on the first failure; no
/// partial result is ever returned.
#[derive(Clone, Copy, Debug, PartialEq, Eq, Structural)]
pub enum DecodeError {
    /// A file, entry, or bitmap signature did not match the expected value.
    /// `offset` is the position of the first byte of the mismatched field.
    BadMagic { expected: u32, found: u32, offset: usize },
    /// A read ran past the end of the byte source.
    TruncatedInput,
    /// A seek moved before the start or past the end of the byte source.
    OutOfBounds,
    /// A length-prefixed string held invalid text.
    BadEncoding,
    /// An entity pointer resolved outside the valid range, or any cursor
    /// fault occurred while traversing the entity chain.
    CorruptChain,
}

} // verus!
