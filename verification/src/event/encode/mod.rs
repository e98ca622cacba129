//! Writing an event in its canonical encoding.

pub mod error;

use crate::digest::FixedOutput;
use crate::event::encode::error::Error;
use crate::event::Event;
use crate::varint;
use vstd::prelude::*;

verus! {

/// Copies `src` into `out` from position `at` on and returns the position
/// after the copy.
fn write_bytes(out: &mut [u8], at: usize, src: &[u8]) -> (next: usize)
    requires
        at + src@.len() <= old(out)@.len(),
    ensures
        next == at + src@.len(),
        final(out)@ == old(out)@.subrange(0, at as int) + src@ + old(out)@.skip(next as int),
{
    let total = out.len();
    let mut i: usize = 0;
    while i < src.len()
        invariant
            i <= src@.len(),
            at + src@.len() <= total,
            out@.len() == total,
            total == old(out)@.len(),
            out@ == old(out)@.subrange(0, at as int) + src@.subrange(0, i as int) + old(out)@.skip(
                at + i,
            ),
        decreases src@.len() - i,
    {
        out[at + i] = src[i];
        i += 1;
    }
    assert(src@.subrange(0, i as int) == src@);
    at + i
}

/// One more piece behind what is written: where a buffer held `written`
/// before the rest of `initial`, and `piece` then went in behind `written`,
/// it holds `written + piece` before the rest of `initial`.
proof fn lemma_piece_written(
    initial: Seq<u8>,
    before: Seq<u8>,
    written: Seq<u8>,
    piece: Seq<u8>,
    after: Seq<u8>,
)
    requires
        written.len() + piece.len() <= initial.len(),
        before == written + initial.skip(written.len() as int),
        after == before.subrange(0, written.len() as int) + piece + before.skip(
            (written.len() + piece.len()) as int,
        ),
    ensures
        after == (written + piece) + initial.skip((written.len() + piece.len()) as int),
{
    assert(after =~= (written + piece) + initial.skip((written.len() + piece.len()) as int));
}

impl<D: FixedOutput> Event<D> {
    /// Number of bytes in the canonical encoding of the event.
    pub fn encoding_length(&self) -> (len: usize)
        ensures
            len == self@.encoding().len(),
    {
        match self {
            Self::Root { delta_digest: digest, delta_size: size } => {
                proof {
                    varint::lemma_encoding_shape(*size);
                }
                1 + digest.len() + varint::encoding_length_u64(*size)
            },
            Self::Child {
                delta_digest,
                delta_size,
                sequence_number,
                predecessor_event_link,
                skip_event_link,
                skip_delta_size,
                skip_delta_digest,
            } => {
                let number = sequence_number.get();
                proof {
                    varint::lemma_encoding_shape(*delta_size);
                    varint::lemma_encoding_shape(*skip_delta_size);
                    varint::lemma_encoding_shape((number - 1) as u64);
                }
                let len = varint::encoding_length_non_zero_u64(number)
                    + predecessor_event_link.len() + delta_digest.len() + varint::encoding_length_u64(
                    *delta_size,
                );
                if skip_event_link != predecessor_event_link {
                    len + skip_event_link.len() + skip_delta_digest.len()
                        + varint::encoding_length_u64(*skip_delta_size)
                } else {
                    len
                }
            },
        }
    }

    /// Writes the canonical encoding of the event to the front of `out` and
    /// returns its length. Where `out` is shorter than the encoding, nothing is
    /// written.
    pub fn encode(&self, out: &mut [u8]) -> (r: Result<usize, Error>)
        ensures
            old(out)@.len() < self@.encoding().len() ==> r == Err::<usize, Error>(
                Error::OutBufferTooSmall,
            ) && final(out)@ == old(out)@,
            old(out)@.len() >= self@.encoding().len() ==> r == Ok::<usize, Error>(
                self@.encoding().len() as usize,
            ) && final(out)@ == self@.encoding() + old(out)@.skip(self@.encoding().len() as int),
    {
        if out.len() < self.encoding_length() {
            return Err(Error::OutBufferTooSmall);
        }
        let ghost initial = out@;
        match self {
            Self::Root { delta_digest, delta_size } => {
                proof {
                    varint::lemma_encoding_shape(*delta_size);
                }
                // A root starts with a zero byte
                out[0] = 0;
                let mut next_byte_num: usize = 1;
                let ghost mut written = seq![0u8];
                assert(out@ =~= written + initial.skip(1));

                // Followed by the delta digest
                let ghost before = out@;
                next_byte_num = write_bytes(out, next_byte_num, delta_digest.as_slice());
                proof {
                    lemma_piece_written(initial, before, written, delta_digest@, out@);
                    written = written + delta_digest@;
                }

                // Followed by the delta size
                let ghost before = out@;
                next_byte_num += varint::encode_at(*delta_size, out, next_byte_num);
                proof {
                    let piece = varint::encoding(*delta_size);
                    lemma_piece_written(initial, before, written, piece, out@);
                    written = written + piece;
                }
                Ok(next_byte_num)
            },
            Self::Child {
                delta_digest,
                delta_size,
                sequence_number,
                predecessor_event_link,
                skip_event_link,
                skip_delta_digest,
                skip_delta_size,
            } => {
                let number = sequence_number.get();
                proof {
                    varint::lemma_encoding_shape(*delta_size);
                    varint::lemma_encoding_shape(*skip_delta_size);
                    varint::lemma_encoding_shape((number - 1) as u64);
                }
                let mut next_byte_num: usize = 0;
                let ghost mut written = Seq::<u8>::empty();
                assert(out@ =~= written + initial.skip(0));

                // Sequence number
                let ghost before = out@;
                next_byte_num += varint::encode_non_zero_u64_at(number, out, next_byte_num);
                proof {
                    let piece = varint::encoding_non_zero(number);
                    lemma_piece_written(initial, before, written, piece, out@);
                    written = written + piece;
                    assert(written =~= piece);
                }

                // Followed by predecessor_event_link
                let ghost before = out@;
                next_byte_num = write_bytes(out, next_byte_num, predecessor_event_link.as_slice());
                proof {
                    lemma_piece_written(initial, before, written, predecessor_event_link@, out@);
                    written = written + predecessor_event_link@;
                }

                // Followed by the delta digest
                let ghost before = out@;
                next_byte_num = write_bytes(out, next_byte_num, delta_digest.as_slice());
                proof {
                    lemma_piece_written(initial, before, written, delta_digest@, out@);
                    written = written + delta_digest@;
                }

                // Followed by the delta size
                let ghost before = out@;
                next_byte_num += varint::encode_at(*delta_size, out, next_byte_num);
                proof {
                    let piece = varint::encoding(*delta_size);
                    lemma_piece_written(initial, before, written, piece, out@);
                    written = written + piece;
                }
                let ghost head = written;

                if skip_event_link != predecessor_event_link {
                    // Followed by skip_event_link
                    let ghost before = out@;
                    next_byte_num = write_bytes(out, next_byte_num, skip_event_link.as_slice());
                    proof {
                        lemma_piece_written(initial, before, written, skip_event_link@, out@);
                        written = written + skip_event_link@;
                    }

                    // Followed by the skip_delta digest
                    let ghost before = out@;
                    next_byte_num = write_bytes(out, next_byte_num, skip_delta_digest.as_slice());
                    proof {
                        lemma_piece_written(initial, before, written, skip_delta_digest@, out@);
                        written = written + skip_delta_digest@;
                    }

                    // Followed by the skip_delta size
                    let ghost before = out@;
                    next_byte_num += varint::encode_at(*skip_delta_size, out, next_byte_num);
                    proof {
                        let piece = varint::encoding(*skip_delta_size);
                        lemma_piece_written(initial, before, written, piece, out@);
                        written = written + piece;
                    }
                }
                assert(written =~= head + self@.skip_block());
                Ok(next_byte_num)
            },
        }
    }
}

} // verus!
