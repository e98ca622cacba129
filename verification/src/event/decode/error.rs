//! What can go wrong when an event is read.

use crate::varint::DecodeError;
use vstd::prelude::*;

verus! {

#[derive(Debug, Clone, Copy, PartialEq, Eq, Structural)]
pub enum Error {
    /// The input ends inside a digest.
    OutBufferTooSmall,
    /// The input is empty.
    DecodeInputIsLengthZero,
    /// The size of a root is no varu64.
    DecodeRootSizeFromVaru64 { source: DecodeError },
    /// The sequence number of a child is no non-zero varu64.
    DecodeSequenceNumberFromVaru64 { source: DecodeError },
    /// The size of a child is no varu64.
    DecodeDeltaSizeFromVaru64 { source: DecodeError },
    /// The skip size of a child is no varu64.
    DecodeSkipDeltaSizeFromVaru64 { source: DecodeError },
    /// The sequence number of a child is below two.
    DecodedSequenceNumberForChildWasNotLargerThanOne,
}

} // verus!
