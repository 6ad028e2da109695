//! Errors reported by the buffer decode operations.

use vstd::prelude::*;

verus! {

/// Failure of a buffer decode operation.
///
/// Encode operations never fail: the codec's encoded size never exceeds
/// the bound it reports, so the whole error space belongs to decoding.
#[derive(Debug, Clone, Copy, PartialEq, Eq, Structural)]
pub enum Error {
    /// The element width handed to an index decode is not 2 or 4 bytes,
    /// the only index widths the codec supports. No codec call is made.
    Memory,
    /// The codec reported a non-zero decode status. The code is kept
    /// verbatim; its meaning is the codec's private status space.
    Native(i32),
}

} // verus!
