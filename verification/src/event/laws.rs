//! What holds of the canonical encoding of events.

use crate::event::decode::error::Error;
use crate::event::decode::{decoding, decoding_child, decoding_root, decoding_skip_block};
use crate::event::EventView;
use crate::varint;
use vstd::prelude::*;

verus! {

/// Length of the encoding of a child up to and including its delta size.
pub open spec fn child_head_length(event: EventView) -> nat
    recommends
        event is Child,
{
    match event {
        EventView::Root { .. } => 0,
        EventView::Child {
            sequence_number,
            predecessor_event_link,
            delta_digest,
            delta_size,
            ..
        } => varint::encoding_length_non_zero(sequence_number) + predecessor_event_link.len()
            + delta_digest.len() + varint::encoding_length(delta_size),
    }
}

/// Decoding what was encoded gives the event back: for every event of a log
/// with digests of `size` bytes that is in canonical form, read from exactly
/// the bytes of its encoding.
pub proof fn lemma_decoding_of_encoding(event: EventView, size: nat)
    requires
        event.wf(size),
        event.is_canonical(),
    ensures
        decoding(event.encoding(), size) == Ok::<EventView, Error>(event),
{
    let bytes = event.encoding();
    match event {
        EventView::Root { delta_digest, delta_size } => {
            let sizes = varint::encoding(delta_size);
            varint::lemma_encoding_shape(delta_size);
            varint::lemma_decoding_of_encoding(delta_size, Seq::empty());
            assert(sizes + Seq::<u8>::empty() =~= sizes);
            assert(bytes[0] == 0);
            let rest = bytes.skip(1);
            assert(rest =~= delta_digest + sizes);
            assert(rest.take(size as int) =~= delta_digest);
            assert(rest.skip(size as int) =~= sizes);
            assert(decoding_root(rest, size) == Ok::<EventView, Error>(event));
        },
        EventView::Child {
            sequence_number,
            predecessor_event_link,
            delta_digest,
            delta_size,
            skip_event_link,
            skip_delta_digest,
            skip_delta_size,
        } => {
            let stored = (sequence_number - 1) as u64;
            let number = varint::encoding(stored);
            let sizes = varint::encoding(delta_size);
            let block = event.skip_block();
            varint::lemma_encoding_shape(stored);
            varint::lemma_encoding_shape(delta_size);
            varint::lemma_encoding_shape(skip_delta_size);

            let links = predecessor_event_link + delta_digest + sizes + block;
            assert(bytes =~= number + links);
            varint::lemma_decoding_of_encoding(stored, links);
            assert(bytes[0] == number[0]);
            assert(varint::decoding_non_zero(bytes) == Ok::<(u64, nat), varint::DecodeError>(
                (sequence_number, number.len()),
            ));
            let rest = bytes.skip(number.len() as int);
            assert(rest =~= links);
            assert(rest.take(size as int) =~= predecessor_event_link);
            assert(rest.subrange(size as int, (2 * size) as int) =~= delta_digest);
            assert(rest.skip((2 * size) as int) =~= sizes + block);
            varint::lemma_decoding_of_encoding(delta_size, block);
            let tail = rest.skip((2 * size + sizes.len()) as int);
            assert(tail =~= block);
            if event.has_independent_skip() {
                let skip_sizes = varint::encoding(skip_delta_size);
                varint::lemma_decoding_of_encoding(skip_delta_size, Seq::empty());
                assert(skip_sizes + Seq::<u8>::empty() =~= skip_sizes);
                assert(tail.take(size as int) =~= skip_event_link);
                assert(tail.subrange(size as int, (2 * size) as int) =~= skip_delta_digest);
                assert(tail.skip((2 * size) as int) =~= skip_sizes);
                assert(decoding_skip_block(tail, size) == Ok::<(Seq<u8>, Seq<u8>, u64), Error>(
                    (skip_event_link, skip_delta_digest, skip_delta_size),
                ));
            }
            assert(decoding_child(bytes, size) == Ok::<EventView, Error>(event));
        },
    }
}

/// Encoding what was decoded gives the bytes back that it was decoded from:
/// the encoding of the event is the front of the input.
pub proof fn lemma_encoding_of_decoding(bytes: Seq<u8>, size: nat)
    ensures
        decoding(bytes, size) matches Ok(event) ==> {
            &&& event.encoding().len() <= bytes.len()
            &&& bytes.subrange(0, event.encoding().len() as int) == event.encoding()
        },
{
    if let Ok(event) = decoding(bytes, size) {
        if bytes[0] == 0 {
            let rest = bytes.skip(1);
            let sizes = rest.skip(size as int);
            varint::lemma_decoding_is_canonical(sizes);
            let (delta_size, read) = varint::decoding(sizes).unwrap();
            assert(sizes.subrange(0, read as int) == varint::encoding(delta_size));
            assert(bytes.subrange(0, (1 + size + read) as int) =~= seq![0u8] + rest.take(
                size as int,
            ) + sizes.subrange(0, read as int));
        } else {
            varint::lemma_decoding_is_canonical(bytes);
            let (stored, read_number) = varint::decoding(bytes).unwrap();
            let number = bytes.subrange(0, read_number as int);
            assert(number == varint::encoding(stored));
            let rest = bytes.skip(read_number as int);
            let predecessor_event_link = rest.take(size as int);
            let delta_digest = rest.subrange(size as int, (2 * size) as int);
            let sizes = rest.skip((2 * size) as int);
            varint::lemma_decoding_is_canonical(sizes);
            let (delta_size, read_size) = varint::decoding(sizes).unwrap();
            assert(sizes.subrange(0, read_size as int) == varint::encoding(delta_size));
            let head = number + predecessor_event_link + delta_digest + sizes.subrange(
                0,
                read_size as int,
            );
            let head_length = read_number + 2 * size + read_size;
            assert(bytes.subrange(0, head_length as int) =~= head);
            let tail = rest.skip((2 * size + read_size) as int);
            if tail.len() == 0 {
                assert(!event.has_independent_skip());
                assert(event.encoding() =~= head);
            } else {
                let skip_sizes = tail.skip((2 * size) as int);
                varint::lemma_decoding_is_canonical(skip_sizes);
                let (skip_delta_size, read_skip) = varint::decoding(skip_sizes).unwrap();
                assert(skip_sizes.subrange(0, read_skip as int) == varint::encoding(
                    skip_delta_size,
                ));
                if event.has_independent_skip() {
                    let block = tail.take(size as int) + tail.subrange(
                        size as int,
                        (2 * size) as int,
                    ) + skip_sizes.subrange(0, read_skip as int);
                    assert(event.skip_block() == block);
                    assert(bytes.subrange(0, (head_length + 2 * size + read_skip) as int) =~= head
                        + block);
                    assert(event.encoding() =~= head + block);
                } else {
                    assert(event.encoding() =~= head);
                }
            }
        }
    }
}

/// The first byte tells roots from children: it is zero in the encoding of a
/// root, and not zero in that of a child whose sequence number is two or more.
pub proof fn lemma_first_byte(event: EventView)
    ensures
        event.encoding().len() >= 1,
        event is Root ==> event.encoding()[0] == 0,
        event is Child && event.sequence_number() >= 2 ==> event.encoding()[0] >= 1,
{
    match event {
        EventView::Root { .. } => {},
        EventView::Child { sequence_number, .. } => {
            varint::lemma_encoding_shape((sequence_number - 1) as u64);
        },
    }
}

/// In the encoding of a root the digest stands behind the first byte.
pub proof fn lemma_root_digest_placement(event: EventView, size: nat)
    requires
        event is Root,
        event.has_digest_size(size),
    ensures
        1 + size <= event.encoding().len(),
        event.encoding().subrange(1, (1 + size) as int) == event.delta_digest(),
{
    assert(event.encoding().subrange(1, (1 + size) as int) =~= event.delta_digest());
}

/// In the encoding of a root the size stands behind the digest, as a varu64
/// that takes the rest of the encoding.
pub proof fn lemma_root_size_placement(event: EventView, size: nat)
    requires
        event is Root,
        event.has_digest_size(size),
    ensures
        event.encoding().len() == 1 + size + varint::encoding_length(event.size()),
        varint::decoding(event.encoding().skip((1 + size) as int)) == Ok::<(u64, nat), varint::DecodeError>(
            (event.size(), varint::encoding_length(event.size())),
        ),
{
    let sizes = varint::encoding(event.size());
    varint::lemma_encoding_shape(event.size());
    varint::lemma_decoding_of_encoding(event.size(), Seq::empty());
    assert(sizes + Seq::<u8>::empty() =~= sizes);
    assert(event.encoding().skip((1 + size) as int) =~= sizes);
}

/// A child without a skip link of its own, whose skip fields repeat its
/// digest and size, is encoded without a skip block, and decoding gives the
/// same child back.
pub proof fn lemma_child_without_skip(event: EventView, size: nat)
    requires
        event is Child,
        event.wf(size),
        event.is_canonical(),
        !event.has_independent_skip(),
    ensures
        event.skip_block() == Seq::<u8>::empty(),
        event.encoding().len() == child_head_length(event),
        decoding(event.encoding(), size) == Ok::<EventView, Error>(event),
{
    lemma_decoding_of_encoding(event, size);
    match event {
        EventView::Root { .. } => {},
        EventView::Child { sequence_number, delta_size, .. } => {
            varint::lemma_encoding_shape((sequence_number - 1) as u64);
            varint::lemma_encoding_shape(delta_size);
        },
    }
}

/// A child with a skip link of its own is encoded with its skip block:
/// skip link, skip digest and skip size follow the delta size.
pub proof fn lemma_child_with_skip(event: EventView, size: nat)
    requires
        event is Child,
        event.wf(size),
        event.has_independent_skip(),
    ensures
        event.encoding().len() > child_head_length(event) + 2 * size,
        decoding(event.encoding(), size) == Ok::<EventView, Error>(event),
{
    lemma_decoding_of_encoding(event, size);
    match event {
        EventView::Root { .. } => {},
        EventView::Child { sequence_number, delta_size, skip_delta_size, .. } => {
            varint::lemma_encoding_shape((sequence_number - 1) as u64);
            varint::lemma_encoding_shape(delta_size);
            varint::lemma_encoding_shape(skip_delta_size);
        },
    }
}

/// A child that comes out of decoding has a sequence number of two or more,
/// and no input is refused for a smaller one: the first byte of a child is not
/// zero, and the non-zero varu64 that starts with such a byte is two or more.
pub proof fn lemma_decoded_sequence_number(bytes: Seq<u8>, size: nat)
    ensures
        decoding(bytes, size) matches Ok(event) ==> (event is Child
            ==> event.sequence_number() >= 2),
        decoding(bytes, size) != Err::<EventView, Error>(
            Error::DecodedSequenceNumberForChildWasNotLargerThanOne,
        ),
{
    if bytes.len() > 0 && bytes[0] != 0 {
        if let Ok((stored, read)) = varint::decoding(bytes) {
            varint::lemma_decoding_is_canonical(bytes);
            varint::lemma_encoding_shape(stored);
            assert(bytes.subrange(0, read as int)[0] == bytes[0]);
        }
    }
}

} // verus!
