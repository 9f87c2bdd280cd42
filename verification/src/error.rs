//! The errors the codec state machines report.

use vstd::prelude::*;

verus! {

/// An error produced by the codec state machines.
///
/// Every variant but `InvalidInput` is fatal: the machine that reported it
/// must not be driven further. `InvalidInput` leaves the sink idle, and only
/// the offending submission fails.
#[derive(Debug, Copy, Clone, PartialEq, Eq, Structural)]
pub enum CodecError {
    /// The underlying sink accepted zero bytes while bytes remained to write.
    WriteZero,
    /// The underlying source reported end of input before a header field or a
    /// packet body was fully read.
    UnexpectedEof,
    /// A flags byte read off the wire carries the unused type value.
    InvalidData,
    /// A submitted payload is longer than the four length bytes can describe.
    InvalidInput,
}

} // verus!
