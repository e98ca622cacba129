//! The varu64 format: a canonical variable-length encoding of unsigned 64-bit
//! integers, and the variant for non-zero integers that stores `n - 1`.
//!
//! The format is stated here as spec functions. Reading and writing is done by
//! the `varu64` crate; the functions at the end of this file hand its results
//! over together with what the format says of them.

use core::num::NonZeroU64;
use vstd::prelude::*;

verus! {

/// Everything that can go wrong when reading a varu64.
#[derive(Debug, Clone, Copy, PartialEq, Eq, Structural)]
pub enum DecodeError {
    /// The encoding is longer than the shortest one for the number it holds.
    NonCanonical { encoded_number: u64 },
    /// The input ends before the encoding does.
    UnexpectedEndOfInput,
    /// A non-zero integer was expected and zero was read.
    ExpectedANonZeroU64,
    /// The stored value plus one does not fit in 64 bits.
    EncodedNonZeroValueOverflowed,
}

/// Number of bytes in the encoding of `n`.
pub open spec fn encoding_length(n: u64) -> nat {
    if n < 248 {
        1
    } else if n < 0x100 {
        2
    } else if n < 0x1_0000 {
        3
    } else if n < 0x100_0000 {
        4
    } else if n < 0x1_0000_0000 {
        5
    } else if n < 0x100_0000_0000 {
        6
    } else if n < 0x1_0000_0000_0000 {
        7
    } else if n < 0x100_0000_0000_0000 {
        8
    } else {
        9
    }
}

/// 256 to the power `k`.
pub open spec fn pow256(k: nat) -> nat
    decreases k,
{
    if k == 0 {
        1
    } else {
        256 * pow256((k - 1) as nat)
    }
}

/// The `k` least significant bytes of `n`, most significant first.
pub open spec fn be_bytes(n: nat, k: nat) -> Seq<u8>
    decreases k,
{
    if k == 0 {
        Seq::empty()
    } else {
        be_bytes(n / 256, (k - 1) as nat).push((n % 256) as u8)
    }
}

/// The number whose big-endian digits are the bytes of `s`.
pub open spec fn be_value(s: Seq<u8>) -> nat
    decreases s.len(),
{
    if s.len() == 0 {
        0
    } else {
        be_value(s.drop_last()) * 256 + s.last() as nat
    }
}

/// The encoding of `n`: the number itself below 248, else a byte that gives
/// the count of bytes that follow, then those bytes, big-endian, as few as hold
/// `n`.
#[verifier::opaque]
pub open spec fn encoding(n: u64) -> Seq<u8> {
    if n < 248 {
        seq![n as u8]
    } else {
        seq![(246 + encoding_length(n)) as u8] + be_bytes(
            n as nat,
            (encoding_length(n) - 1) as nat,
        )
    }
}

/// What reading a varu64 from the front of `input` gives: the number and the
/// count of bytes read, or the reason why there is none.
#[verifier::opaque]
pub open spec fn decoding(input: Seq<u8>) -> Result<(u64, nat), DecodeError> {
    if input.len() == 0 {
        Err(DecodeError::UnexpectedEndOfInput)
    } else if input[0] < 248 {
        Ok((input[0] as u64, 1))
    } else {
        let length = (input[0] - 246) as nat;
        if input.len() < length {
            Err(DecodeError::UnexpectedEndOfInput)
        } else {
            let value = be_value(input.subrange(1, length as int)) as u64;
            if length > encoding_length(value) {
                Err(DecodeError::NonCanonical { encoded_number: value })
            } else {
                Ok((value, length))
            }
        }
    }
}

/// The encoding of a non-zero `n`: that of `n - 1`.
pub open spec fn encoding_non_zero(n: u64) -> Seq<u8>
    recommends
        n != 0,
{
    encoding((n - 1) as u64)
}

/// Number of bytes in the encoding of a non-zero `n`.
pub open spec fn encoding_length_non_zero(n: u64) -> nat
    recommends
        n != 0,
{
    encoding_length((n - 1) as u64)
}

/// What reading a non-zero integer from the front of `input` gives: one more
/// than the varu64 that stands there.
pub open spec fn decoding_non_zero(input: Seq<u8>) -> Result<(u64, nat), DecodeError> {
    match decoding(input) {
        Ok((n, length)) => if n == u64::MAX {
            Err(DecodeError::EncodedNonZeroValueOverflowed)
        } else {
            Ok(((n + 1) as u64, length))
        },
        Err(e) => Err(e),
    }
}

pub proof fn lemma_pow256_values()
    ensures
        pow256(0) == 1,
        pow256(1) == 0x100,
        pow256(2) == 0x1_0000,
        pow256(3) == 0x100_0000,
        pow256(4) == 0x1_0000_0000,
        pow256(5) == 0x100_0000_0000,
        pow256(6) == 0x1_0000_0000_0000,
        pow256(7) == 0x100_0000_0000_0000,
        pow256(8) == 0x1_0000_0000_0000_0000,
{
    reveal_with_fuel(pow256, 9);
}

pub proof fn lemma_be_bytes_len(n: nat, k: nat)
    ensures
        be_bytes(n, k).len() == k,
    decreases k,
{
    if k > 0 {
        lemma_be_bytes_len(n / 256, (k - 1) as nat);
    }
}

pub proof fn lemma_be_value_bound(s: Seq<u8>)
    ensures
        be_value(s) < pow256(s.len()),
    decreases s.len(),
{
    if s.len() > 0 {
        lemma_be_value_bound(s.drop_last());
    }
}

/// Digits of a number that fits in `k` bytes give the number back.
pub proof fn lemma_be_value_of_bytes(n: nat, k: nat)
    requires
        n < pow256(k),
    ensures
        be_value(be_bytes(n, k)) == n,
    decreases k,
{
    if k > 0 {
        let rest = be_bytes(n / 256, (k - 1) as nat);
        lemma_be_value_of_bytes(n / 256, (k - 1) as nat);
        assert(be_bytes(n, k).drop_last() =~= rest);
    }
}

/// The digits of the value of `s` are `s`.
pub proof fn lemma_be_bytes_of_value(s: Seq<u8>)
    ensures
        be_bytes(be_value(s), s.len()) == s,
    decreases s.len(),
{
    if s.len() > 0 {
        lemma_be_bytes_of_value(s.drop_last());
        let v = be_value(s);
        assert(v / 256 == be_value(s.drop_last()));
        assert(v % 256 == s.last() as nat);
        assert(be_bytes(v, s.len()) =~= s);
    } else {
        assert(be_bytes(be_value(s), s.len()) =~= s);
    }
}

/// An encoding has the length that `encoding_length` gives, between one and
/// nine bytes, and starts with a zero byte only for zero.
pub proof fn lemma_encoding_shape(n: u64)
    ensures
        encoding(n).len() == encoding_length(n),
        1 <= encoding_length(n) <= 9,
        (encoding(n)[0] == 0) <==> n == 0,
{
    reveal(encoding);
    if n >= 248 {
        lemma_be_bytes_len(n as nat, (encoding_length(n) - 1) as nat);
    }
}

/// Reading what was written gives the number back, whatever follows it.
pub proof fn lemma_decoding_of_encoding(n: u64, tail: Seq<u8>)
    ensures
        decoding(encoding(n) + tail) == Ok::<(u64, nat), DecodeError>((n, encoding_length(n))),
{
    reveal(encoding);
    reveal(decoding);
    let input = encoding(n) + tail;
    lemma_encoding_shape(n);
    if n >= 248 {
        let length = encoding_length(n);
        let k = (length - 1) as nat;
        lemma_be_bytes_len(n as nat, k);
        lemma_pow256_values();
        assert(input[0] == (246 + length) as u8);
        assert(input.subrange(1, length as int) =~= be_bytes(n as nat, k));
        lemma_be_value_of_bytes(n as nat, k);
    } else {
        assert(input[0] == n as u8);
    }
}

/// The format is canonical: whatever decodes to `n` starts with the encoding
/// of `n`, and that much was read.
pub proof fn lemma_decoding_is_canonical(input: Seq<u8>)
    ensures
        decoding(input) matches Ok((n, length)) ==> {
            &&& length == encoding_length(n)
            &&& length <= input.len()
            &&& input.subrange(0, length as int) == encoding(n)
        },
{
    reveal(encoding);
    reveal(decoding);
    if let Ok((n, length)) = decoding(input) {
        if input[0] < 248 {
            assert(input.subrange(0, 1) =~= seq![input[0]]);
        } else {
            let s = input.subrange(1, length as int);
            lemma_be_value_bound(s);
            lemma_pow256_values();
            lemma_be_bytes_of_value(s);
            assert(be_value(s) == n);
            assert(encoding_length(n) == length);
            assert(input.subrange(0, length as int) =~= seq![input[0]] + s);
        }
    }
}

/// `varu64::encoding_length`: the count of bytes that the encoding of `n`
/// takes.
#[verifier::external_body]
pub(crate) fn encoding_length_u64(n: u64) -> (len: usize)
    ensures
        len == encoding_length(n),
{
    varu64::encoding_length(n)
}

/// `varu64::encoding_length_non_zero_u64`: the count of bytes that the
/// encoding of a non-zero `n` takes, which is that of `n - 1`.
#[verifier::external_body]
pub(crate) fn encoding_length_non_zero_u64(n: u64) -> (len: usize)
    requires
        n != 0,
    ensures
        len == encoding_length_non_zero(n),
{
    varu64::encoding_length_non_zero_u64(NonZeroU64::new(n).unwrap())
}

/// `varu64::encode`, on the part of `out` that starts at `at`: it writes the
/// encoding of `n` there, touches no other byte and returns the count of bytes
/// written. It panics where the encoding does not fit, which `requires` leaves
/// out.
#[verifier::external_body]
pub(crate) fn encode_at(n: u64, out: &mut [u8], at: usize) -> (written: usize)
    requires
        at + encoding_length(n) <= old(out)@.len(),
    ensures
        written == encoding_length(n),
        final(out)@ == old(out)@.subrange(0, at as int) + encoding(n) + old(out)@.skip(
            at + written,
        ),
{
    varu64::encode(n, &mut out[at..])
}

/// `varu64::encode_non_zero_u64`, on the part of `out` that starts at `at`: as
/// `encode_at`, with the encoding of `n - 1`.
#[verifier::external_body]
pub(crate) fn encode_non_zero_u64_at(n: u64, out: &mut [u8], at: usize) -> (written: usize)
    requires
        n != 0,
        at + encoding_length_non_zero(n) <= old(out)@.len(),
    ensures
        written == encoding_length_non_zero(n),
        final(out)@ == old(out)@.subrange(0, at as int) + encoding_non_zero(n) + old(out)@.skip(
            at + written,
        ),
{
    varu64::encode_non_zero_u64(NonZeroU64::new(n).unwrap(), &mut out[at..])
}

/// `varu64::decode`: it reads one varu64 from the front of `input` and returns
/// the number with the bytes that follow it, or the error that the format
/// gives for this input. The bytes that the crate returns beside an error are
/// dropped.
#[verifier::external_body]
pub(crate) fn decode(input: &[u8]) -> (r: Result<(u64, &[u8]), DecodeError>)
    ensures
        match r {
            Ok((n, rest)) => decoding(input@) matches Ok((m, length)) && m == n && rest@
                == input@.skip(length as int),
            Err(e) => decoding(input@) == Err::<(u64, nat), DecodeError>(e),
        },
{
    match varu64::decode(input) {
        Ok((n, rest)) => Ok((n, rest)),
        Err((varu64::DecodeError::NonCanonical { encoded_number }, _)) => Err(
            DecodeError::NonCanonical { encoded_number },
        ),
        Err((varu64::DecodeError::UnexpectedEndOfInput, _)) => Err(
            DecodeError::UnexpectedEndOfInput,
        ),
        Err((varu64::DecodeError::ExpectedANonZeroU64, _)) => Err(DecodeError::ExpectedANonZeroU64),
        Err((varu64::DecodeError::EncodedNonZeroValueOverflowed, _)) => Err(
            DecodeError::EncodedNonZeroValueOverflowed,
        ),
    }
}

/// `varu64::decode_non_zero_u64`: it reads one varu64 from the front of
/// `input` and returns one more than it with the bytes that follow, or the
/// error that the format gives; where one more does not fit in 64 bits, that is
/// `EncodedNonZeroValueOverflowed`.
#[verifier::external_body]
pub(crate) fn decode_non_zero_u64(input: &[u8]) -> (r: Result<(u64, &[u8]), DecodeError>)
    ensures
        match r {
            Ok((n, rest)) => decoding_non_zero(input@) matches Ok((m, length)) && m == n && rest@
                == input@.skip(length as int),
            Err(e) => decoding_non_zero(input@) == Err::<(u64, nat), DecodeError>(e),
        },
{
    match varu64::decode_non_zero_u64(input) {
        Ok((n, rest)) => Ok((n.get(), rest)),
        Err((varu64::DecodeError::NonCanonical { encoded_number }, _)) => Err(
            DecodeError::NonCanonical { encoded_number },
        ),
        Err((varu64::DecodeError::UnexpectedEndOfInput, _)) => Err(
            DecodeError::UnexpectedEndOfInput,
        ),
        Err((varu64::DecodeError::ExpectedANonZeroU64, _)) => Err(DecodeError::ExpectedANonZeroU64),
        Err((varu64::DecodeError::EncodedNonZeroValueOverflowed, _)) => Err(
            DecodeError::EncodedNonZeroValueOverflowed,
        ),
    }
}

} // verus!
