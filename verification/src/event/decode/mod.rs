//! Reading an event from its canonical encoding.

pub mod error;

use crate::digest::{FixedOutput, Output};
use crate::event::decode::error::Error;
use crate::event::{Event, EventView, SequenceNumber};
use crate::varint;
use vstd::prelude::*;
use vstd::slice::slice_subrange;

verus! {

/// What reading a root gives from the bytes that follow its zero byte: the
/// digest, then the size. What follows the size is not looked at.
pub open spec fn decoding_root(bytes: Seq<u8>, size: nat) -> Result<EventView, Error> {
    if bytes.len() < size {
        Err(Error::OutBufferTooSmall)
    } else {
        match varint::decoding(bytes.skip(size as int)) {
            Err(source) => Err(Error::DecodeRootSizeFromVaru64 { source }),
            Ok((delta_size, _)) => Ok(
                EventView::Root { delta_digest: bytes.take(size as int), delta_size },
            ),
        }
    }
}

/// What reading a skip block gives: skip link, skip digest and skip size.
pub open spec fn decoding_skip_block(bytes: Seq<u8>, size: nat) -> Result<
    (Seq<u8>, Seq<u8>, u64),
    Error,
> {
    if bytes.len() < 2 * size {
        Err(Error::OutBufferTooSmall)
    } else {
        match varint::decoding(bytes.skip((2 * size) as int)) {
            Err(source) => Err(Error::DecodeSkipDeltaSizeFromVaru64 { source }),
            Ok((skip_delta_size, _)) => Ok(
                (bytes.take(size as int), bytes.subrange(size as int, (2 * size) as int), skip_delta_size),
            ),
        }
    }
}

/// What reading a child gives: sequence number, predecessor link, digest and
/// size. Where nothing follows the size, the skip fields repeat predecessor
/// link, digest and size; else a skip block is read.
pub open spec fn decoding_child(bytes: Seq<u8>, size: nat) -> Result<EventView, Error> {
    match varint::decoding_non_zero(bytes) {
        Err(source) => Err(Error::DecodeSequenceNumberFromVaru64 { source }),
        Ok((sequence_number, read)) => {
            let bytes = bytes.skip(read as int);
            if sequence_number < 2 {
                Err(Error::DecodedSequenceNumberForChildWasNotLargerThanOne)
            } else if bytes.len() < 2 * size {
                Err(Error::OutBufferTooSmall)
            } else {
                let predecessor_event_link = bytes.take(size as int);
                let delta_digest = bytes.subrange(size as int, (2 * size) as int);
                match varint::decoding(bytes.skip((2 * size) as int)) {
                    Err(source) => Err(Error::DecodeDeltaSizeFromVaru64 { source }),
                    Ok((delta_size, read)) => {
                        let bytes = bytes.skip((2 * size + read) as int);
                        if bytes.len() == 0 {
                            Ok(
                                EventView::Child {
                                    sequence_number,
                                    predecessor_event_link,
                                    delta_digest,
                                    delta_size,
                                    skip_event_link: predecessor_event_link,
                                    skip_delta_digest: delta_digest,
                                    skip_delta_size: delta_size,
                                },
                            )
                        } else {
                            match decoding_skip_block(bytes, size) {
                                Err(e) => Err(e),
                                Ok((skip_event_link, skip_delta_digest, skip_delta_size)) => Ok(
                                    EventView::Child {
                                        sequence_number,
                                        predecessor_event_link,
                                        delta_digest,
                                        delta_size,
                                        skip_event_link,
                                        skip_delta_digest,
                                        skip_delta_size,
                                    },
                                ),
                            }
                        }
                    },
                }
            }
        },
    }
}

/// What reading an event from `bytes` gives, where digests have `size` bytes:
/// a root where the first byte is zero, else a child.
pub open spec fn decoding(bytes: Seq<u8>, size: nat) -> Result<EventView, Error> {
    if bytes.len() == 0 {
        Err(Error::DecodeInputIsLengthZero)
    } else if bytes[0] == 0 {
        decoding_root(bytes.skip(1), size)
    } else {
        decoding_child(bytes, size)
    }
}

impl<D: FixedOutput> Event<D> {
    /// Reads an event from `bytes`. Every input gives an event or an error.
    /// An event that comes out has digests of the family's size, and a child
    /// among them a sequence number of two or more.
    pub fn decode(bytes: &[u8]) -> (r: Result<Self, Error>)
        ensures
            match r {
                Ok(event) => decoding(bytes@, D::spec_output_size()) == Ok::<EventView, Error>(
                    event@,
                ),
                Err(e) => decoding(bytes@, D::spec_output_size()) == Err::<EventView, Error>(e),
            },
            r matches Ok(event) ==> event@.wf(D::spec_output_size()),
    {
        if bytes.is_empty() {
            return Err(Error::DecodeInputIsLengthZero);
        }
        let digest_size = D::output_size();

        // Is a Root
        if bytes[0] == 0 {
            // The first byte is just whether or not it's a Root.
            let bytes = slice_subrange(bytes, 1, bytes.len());

            let (delta_digest, bytes) = Self::decode_digest(bytes, digest_size)?;

            match varint::decode(bytes) {
                Err(source) => Err(Error::DecodeRootSizeFromVaru64 { source }),
                Ok((size, _)) => Ok(Self::Root { delta_digest, delta_size: size }),
            }
        } else {
            let (sequence_number, bytes) = match varint::decode_non_zero_u64(bytes) {
                Err(source) => {
                    return Err(Error::DecodeSequenceNumberFromVaru64 { source });
                },
                Ok(read) => read,
            };

            // Sequence number for a child must be larger >= 2
            if sequence_number < 2 {
                return Err(Error::DecodedSequenceNumberForChildWasNotLargerThanOne);
            }
            let sequence_number = match SequenceNumber::new(sequence_number) {
                Some(number) => number,
                None => {
                    return Err(Error::DecodedSequenceNumberForChildWasNotLargerThanOne);
                },
            };
            let ghost links = bytes@;

            let (predecessor_event_link, bytes) = Self::decode_digest(bytes, digest_size)?;
            let (delta_digest, bytes) = Self::decode_digest(bytes, digest_size)?;
            assert(bytes@ == links.skip(2 * digest_size));
            assert(delta_digest@ == links.subrange(digest_size as int, 2 * digest_size));

            let ghost sizes = bytes@;
            let (delta_size, bytes) = match varint::decode(bytes) {
                Err(source) => {
                    return Err(Error::DecodeDeltaSizeFromVaru64 { source });
                },
                Ok(read) => read,
            };
            proof {
                let read = varint::decoding(sizes).unwrap().1;
                varint::lemma_decoding_is_canonical(sizes);
                assert(bytes@ == links.skip((2 * digest_size + read) as int));
            }

            // If there are still bytes left then there must be skip link etc.
            // Otherwise the skip fields repeat the event's own.
            if bytes.len() == 0 {
                let skip_event_link = predecessor_event_link.clone();
                let skip_delta_digest = delta_digest.clone();
                Ok(
                    Event::Child {
                        sequence_number,
                        predecessor_event_link,
                        delta_digest,
                        delta_size,
                        skip_event_link,
                        skip_delta_digest,
                        skip_delta_size: delta_size,
                    },
                )
            } else {
                let ghost block = bytes@;
                let (skip_event_link, bytes) = Self::decode_digest(bytes, digest_size)?;
                let (skip_delta_digest, bytes) = Self::decode_digest(bytes, digest_size)?;
                assert(bytes@ == block.skip(2 * digest_size));
                assert(skip_delta_digest@ == block.subrange(digest_size as int, 2 * digest_size));
                match varint::decode(bytes) {
                    Err(source) => Err(Error::DecodeSkipDeltaSizeFromVaru64 { source }),
                    Ok((skip_delta_size, _)) => Ok(
                        Event::Child {
                            sequence_number,
                            predecessor_event_link,
                            delta_digest,
                            delta_size,
                            skip_event_link,
                            skip_delta_digest,
                            skip_delta_size,
                        },
                    ),
                }
            }
        }
    }

    /// Takes one digest from the front of `bytes` and returns it with the
    /// bytes that follow.
    fn decode_digest(bytes: &[u8], digest_size: usize) -> (r: Result<(Output<D>, &[u8]), Error>)
        requires
            digest_size == D::spec_output_size(),
        ensures
            match r {
                Ok((digest, rest)) => {
                    &&& bytes@.len() >= digest_size
                    &&& digest@ == bytes@.take(digest_size as int)
                    &&& rest@ == bytes@.skip(digest_size as int)
                },
                Err(e) => e == Error::OutBufferTooSmall && bytes@.len() < digest_size,
            },
    {
        if bytes.len() < digest_size {
            return Err(Error::OutBufferTooSmall);
        }
        let delta_digest = Output::clone_from_slice(slice_subrange(bytes, 0, digest_size));
        let bytes = slice_subrange(bytes, digest_size, bytes.len());
        Ok((delta_digest, bytes))
    }
}

} // verus!
