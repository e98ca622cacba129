//! Semigroups: values with an associative way to combine two of them.

use crate::varint::{
    be_bytes, be_value, lemma_be_bytes_len, lemma_be_value_bound, lemma_be_value_of_bytes,
    lemma_pow256_values,
};
use crate::CanonicalEncoding;
use vstd::prelude::*;

verus! {

/// A type whose values combine associatively.
pub trait Semigroup: Sized {
    /// The combination of two values.
    spec fn spec_combine(&self, other: &Self) -> Self;

    /// Combining is associative.
    proof fn lemma_combine_associative(a: &Self, b: &Self, c: &Self)
        ensures
            a.spec_combine(b).spec_combine(c) == a.spec_combine(&b.spec_combine(c)),
    ;

    /// Combines two values.
    fn combine(&self, other: &Self) -> (combined: Self)
        ensures
            combined == self.spec_combine(other),
    ;
}

/// The values of a sequence combined from the left: `((v0 v1) v2) ..`.
pub open spec fn combine_left<S: Semigroup>(values: Seq<S>) -> S
    recommends
        values.len() > 0,
    decreases values.len(),
{
    if values.len() <= 1 {
        values[0]
    } else {
        combine_left(values.drop_last()).spec_combine(&values.last())
    }
}

/// The values of a sequence combined from the right: `v0 (v1 (v2 ..))`.
pub open spec fn combine_right<S: Semigroup>(values: Seq<S>) -> S
    recommends
        values.len() > 0,
    decreases values.len(),
{
    if values.len() <= 1 {
        values[0]
    } else {
        values[0].spec_combine(&combine_right(values.skip(1)))
    }
}

/// One more value on the right of a combination from the right.
proof fn lemma_combine_right_push<S: Semigroup>(values: Seq<S>, last: S)
    requires
        values.len() > 0,
    ensures
        combine_right(values.push(last)) == combine_right(values).spec_combine(&last),
    decreases values.len(),
{
    let all = values.push(last);
    if values.len() == 1 {
        assert(all.skip(1) =~= seq![last]);
        assert(combine_right(all.skip(1)) == last);
        assert(all[0] == values[0]);
    } else {
        let rest = values.skip(1);
        lemma_combine_right_push(rest, last);
        assert(all.skip(1) =~= rest.push(last));
        S::lemma_combine_associative(&values[0], &combine_right(rest), &last);
    }
}

/// Combining from the left and combining from the right give the same
/// value, as combining is associative.
pub proof fn lemma_combine_left_is_right<S: Semigroup>(values: Seq<S>)
    requires
        values.len() > 0,
    ensures
        combine_left(values) == combine_right(values),
    decreases values.len(),
{
    if values.len() > 1 {
        let front = values.drop_last();
        lemma_combine_left_is_right(front);
        lemma_combine_right_push(front, values.last());
        assert(front.push(values.last()) =~= values);
    }
}

/// Combines the values of `xs` from the left, starting with a clone of the
/// first. Nothing comes of no values.
pub fn combine_all_option<S: Semigroup + Clone>(xs: &[S]) -> (total: Option<S>)
    ensures
        xs@.len() == 0 ==> total is None,
        xs@.len() > 0 ==> exists|head: S|
            cloned(xs@[0], head) && total == Some(combine_left(xs@.update(0, head))),
{
    if xs.len() == 0 {
        return None;
    }
    let mut total = xs[0].clone();
    let ghost head = total;
    let ghost values = xs@.update(0, head);
    let mut i: usize = 1;
    assert(values.subrange(0, 1) =~= seq![head]);
    while i < xs.len()
        invariant
            1 <= i <= xs@.len(),
            values == xs@.update(0, head),
            total == combine_left(values.subrange(0, i as int)),
        decreases xs@.len() - i,
    {
        assert(values.subrange(0, i + 1).drop_last() =~= values.subrange(0, i as int));
        total = total.combine(&xs[i]);
        i += 1;
    }
    assert(values.subrange(0, i as int) =~= values);
    assert(cloned(xs@[0], head) && total == combine_left(xs@.update(0, head)));
    Some(total)
}

/// `Semigroup::combine` of the `frunk` crate, for `u32`: the sum of the two.
/// It overflows where the sum does not fit, which `requires` leaves out.
#[verifier::external_body]
fn combine_u32(a: u32, b: u32) -> (sum: u32)
    requires
        a + b <= u32::MAX,
    ensures
        sum == a + b,
{
    frunk::Semigroup::combine(&a, &b)
}

/// `BufMut::put_u32` of the `bytes` crate, on a byte slice: it writes `n` to
/// the first four bytes, most significant byte first. It panics on a slice of
/// fewer than four bytes, which `requires` leaves out.
#[verifier::external_body]
fn put_u32(buffer: &mut [u8], n: u32)
    requires
        old(buffer)@.len() >= 4,
    ensures
        final(buffer)@ == be_bytes(n as nat, 4) + old(buffer)@.skip(4),
{
    let mut cursor = buffer;
    bytes::BufMut::put_u32(&mut cursor, n);
}

/// `Buf::get_u32` of the `bytes` crate, on a byte slice: the number that the
/// first four bytes hold, most significant byte first, and the bytes that
/// follow them. It panics on a slice of fewer than four bytes, which
/// `requires` leaves out.
#[verifier::external_body]
fn get_u32(buffer: &[u8]) -> (r: (u32, &[u8]))
    requires
        buffer@.len() >= 4,
    ensures
        r.0 == be_value(buffer@.take(4)),
        r.1@ == buffer@.skip(4),
{
    let mut cursor = buffer;
    let n = bytes::Buf::get_u32(&mut cursor);
    (n, cursor)
}

/// The 32-bit unsigned integers under addition modulo 2^32, encoded as four
/// bytes, most significant byte first.
#[derive(Debug, Clone, Copy, PartialEq, Eq, Structural)]
pub struct U32Semigroup(pub u32);

/// What can go wrong when a `U32Semigroup` is written or read.
#[derive(Debug, Clone, Copy, PartialEq, Eq, Structural)]
pub enum CanonicalEncodingU32Error {
    /// The buffer has fewer than four bytes.
    BufferTooSmall,
}

/// The sum of two 32-bit integers modulo 2^32.
pub open spec fn wrapping_sum(a: u32, b: u32) -> u32 {
    if a + b <= u32::MAX {
        (a + b) as u32
    } else {
        (a + b - 0x1_0000_0000) as u32
    }
}

impl Semigroup for U32Semigroup {
    open spec fn spec_combine(&self, other: &Self) -> Self {
        U32Semigroup(wrapping_sum(self.0, other.0))
    }

    proof fn lemma_combine_associative(a: &Self, b: &Self, c: &Self) {
    }

    fn combine(&self, other: &Self) -> (combined: Self) {
        if self.0 <= u32::MAX - other.0 {
            U32Semigroup(combine_u32(self.0, other.0))
        } else {
            U32Semigroup(self.0 - (u32::MAX - other.0) - 1)
        }
    }
}

impl CanonicalEncoding for U32Semigroup {
    type Error = CanonicalEncodingU32Error;

    open spec fn spec_encoding(&self) -> Seq<u8> {
        be_bytes(self.0 as nat, 4)
    }

    open spec fn spec_decoding(buffer: Seq<u8>) -> Option<(Self, nat)> {
        if buffer.len() < 4 {
            None
        } else {
            Some((U32Semigroup(be_value(buffer.take(4)) as u32), 4))
        }
    }

    proof fn lemma_decoding_length(buffer: Seq<u8>) {
    }

    proof fn lemma_decoding_of_encoding(&self) {
        let bytes = self.spec_encoding();
        lemma_be_bytes_len(self.0 as nat, 4);
        lemma_pow256_values();
        lemma_be_value_of_bytes(self.0 as nat, 4);
        assert(bytes.take(4) =~= bytes);
    }

    fn encode(&self, buffer: &mut [u8]) -> (r: Result<usize, Self::Error>)
        ensures
            r is Err ==> r == Err::<usize, CanonicalEncodingU32Error>(
                CanonicalEncodingU32Error::BufferTooSmall,
            ) && final(buffer)@ == old(buffer)@,
    {
        proof {
            lemma_be_bytes_len(self.0 as nat, 4);
        }
        if buffer.len() < 4 {
            return Err(CanonicalEncodingU32Error::BufferTooSmall);
        }
        put_u32(buffer, self.0);
        Ok(4)
    }

    fn decode(buffer: &[u8]) -> (r: Result<(Self, &[u8]), Self::Error>) {
        if buffer.len() < 4 {
            return Err(CanonicalEncodingU32Error::BufferTooSmall);
        }
        proof {
            lemma_be_value_bound(buffer@.take(4));
            lemma_pow256_values();
        }
        let (result, buffer) = get_u32(buffer);
        Ok((U32Semigroup(result), buffer))
    }

    fn encoding_length(&self) -> (len: usize) {
        proof {
            lemma_be_bytes_len(self.0 as nat, 4);
        }
        4
    }
}

} // verus!
