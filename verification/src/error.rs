//! The error taxonomy of the decoder. Every fallible operation returns one of
//! these kinds; a decode aborts on the first error it meets.

use vstd::prelude::*;

use crate::constant_pool::Tag;

verus! {

/// A decode or lookup failure. Each variant carries the datum that makes the
/// failure diagnosable: the offending byte, index or offset.
#[derive(Debug, Clone, Copy, PartialEq, Eq, Structural)]
pub enum Error {
    /// A constant-pool tag byte matches none of the known record kinds.
    CPTag(u8),
    /// A constant-pool index is at or beyond the declared pool count.
    Index(usize),
    /// A resolved record's tag differs from what the caller required.
    WrongTag(Tag),
    /// A method handle's reference-kind byte lies outside 1..=9.
    WrongKind(u8),
    /// A constant-pool index refers to slot 0 or to the dead second slot of
    /// an 8-byte constant.
    EmptyCPInfo(u16),
    /// A read, peek or skip would pass the end of the buffer; carries the
    /// offset that was attempted.
    OutOfBounds(usize),
    /// A record that had to be a Utf8 constant is of some other kind.
    NotUtf8,
    /// A Utf8 constant's payload is not a valid UTF-8 byte sequence.
    InvalidUtf8,
    /// No method has the entry-point name and descriptor.
    MainNotFound,
}

} // verus!
