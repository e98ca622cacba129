//! Replication core for magma: an append-only, hash-linked log of events, the
//! canonical wire form of those events, and the checks a client runs on what a
//! server sends back.

use vstd::prelude::*;

pub mod digest;
pub mod event;
pub mod replication;
pub mod semigroup;
pub mod varint;

pub use crate::digest::{Blake2b, Digest, FixedOutput, Output};
pub use crate::event::Event;
pub use crate::semigroup::Semigroup;

verus! {

/// A byte form for values, such that equal values are written alike and a
/// value that was written is read back as it was.
pub trait CanonicalEncoding: Sized {
    type Error;

    /// The canonical encoding of the value.
    spec fn spec_encoding(&self) -> Seq<u8>;

    /// What reading from the front of `buffer` gives: a value and the count
    /// of bytes that it took, or nothing where no value stands there.
    spec fn spec_decoding(buffer: Seq<u8>) -> Option<(Self, nat)>;

    /// Reading takes no more bytes than there are.
    proof fn lemma_decoding_length(buffer: Seq<u8>)
        ensures
            Self::spec_decoding(buffer) matches Some((_, read)) ==> read <= buffer.len(),
    ;

    /// Reading the encoding of a value gives the value, and takes all of it.
    proof fn lemma_decoding_of_encoding(&self)
        ensures
            Self::spec_decoding(self.spec_encoding()) == Some((*self, self.spec_encoding().len())),
    ;

    /// Writes the encoding to the front of `buffer` and returns its length.
    /// It fails where `buffer` is shorter than the encoding, and only there.
    fn encode(&self, buffer: &mut [u8]) -> (r: Result<usize, Self::Error>)
        ensures
            old(buffer)@.len() < self.spec_encoding().len() ==> r is Err,
            old(buffer)@.len() >= self.spec_encoding().len() ==> {
                &&& r matches Ok(written)
                &&& written == self.spec_encoding().len()
                &&& final(buffer)@ == self.spec_encoding() + old(buffer)@.skip(written as int)
            },
    ;

    /// Reads a value from the front of `buffer` and returns it with the bytes
    /// that follow it.
    fn decode(buffer: &[u8]) -> (r: Result<(Self, &[u8]), Self::Error>)
        ensures
            match r {
                Ok((value, rest)) => {
                    &&& Self::spec_decoding(buffer@) matches Some((v, read))
                    &&& v == value
                    &&& rest@ == buffer@.skip(read as int)
                },
                Err(_) => Self::spec_decoding(buffer@) is None,
            },
    ;

    /// Number of bytes that `encode` writes.
    fn encoding_length(&self) -> (len: usize)
        ensures
            len == self.spec_encoding().len(),
    ;
}

} // verus!
