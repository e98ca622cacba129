//! What can go wrong when an event is written.

use vstd::prelude::*;

verus! {

#[derive(Debug, Clone, Copy, PartialEq, Eq, Structural)]
pub enum Error {
    /// The buffer is shorter than the encoding of the event.
    OutBufferTooSmall,
}

} // verus!
