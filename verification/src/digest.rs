//! Digest families: a hash function with an output of fixed size, and the
//! type of its outputs.

use core::marker::PhantomData;
use vstd::prelude::*;
use vstd::slice::slice_to_vec;

verus! {

/// The largest output size that a family may have. With it the length of an
/// encoded event fits in `usize` on every platform.
pub const MAX_OUTPUT_SIZE: usize = 0x0fff_ffff;

/// A family of byte strings that all have the same size.
pub trait FixedOutput: Sized {
    /// Size of an output, in bytes.
    spec fn spec_output_size() -> nat;

    /// No family has outputs above `MAX_OUTPUT_SIZE`.
    proof fn lemma_output_size_bound()
        ensures
            Self::spec_output_size() <= MAX_OUTPUT_SIZE,
    ;

    /// Size of an output, in bytes.
    fn output_size() -> (size: usize)
        ensures
            size == Self::spec_output_size(),
    ;
}

/// A hash function whose outputs all have the same size.
pub trait Digest: FixedOutput {
    /// The hash function, on byte strings.
    spec fn spec_digest(data: Seq<u8>) -> Seq<u8>;

    /// Hashes `data`.
    fn digest(data: &[u8]) -> (out: Output<Self>)
        ensures
            out@ == Self::spec_digest(data@),
    ;
}

/// An output of the digest family `D`: a byte string of `D`'s output size.
#[derive(Debug)]
pub struct Output<D: FixedOutput> {
    bytes: Vec<u8>,
    family: PhantomData<D>,
}

impl<D: FixedOutput> View for Output<D> {
    type V = Seq<u8>;

    closed spec fn view(&self) -> Seq<u8> {
        self.bytes@
    }
}

impl<D: FixedOutput> Output<D> {
    #[verifier::type_invariant]
    spec fn has_output_size(&self) -> bool {
        self.bytes@.len() == D::spec_output_size()
    }

    /// The output that holds the bytes of `bytes`.
    pub(crate) fn clone_from_slice(bytes: &[u8]) -> (out: Self)
        requires
            bytes@.len() == D::spec_output_size(),
        ensures
            out@ == bytes@,
    {
        Output { bytes: slice_to_vec(bytes), family: PhantomData }
    }

    /// The output that holds the bytes of `bytes`, where there are as many as
    /// the family asks for.
    pub fn try_from_slice(bytes: &[u8]) -> (out: Option<Self>)
        ensures
            bytes@.len() == D::spec_output_size() ==> (out matches Some(o) && o@ == bytes@),
            bytes@.len() != D::spec_output_size() ==> out is None,
    {
        if bytes.len() == D::output_size() {
            Some(Self::clone_from_slice(bytes))
        } else {
            None
        }
    }

    /// The bytes of this output.
    pub fn as_slice(&self) -> (bytes: &[u8])
        ensures
            bytes@ == self@,
            bytes@.len() == D::spec_output_size(),
    {
        proof {
            use_type_invariant(self);
        }
        self.bytes.as_slice()
    }

    /// Number of bytes, which is the family's output size.
    pub fn len(&self) -> (len: usize)
        ensures
            len == self@.len(),
            len == D::spec_output_size(),
            len <= MAX_OUTPUT_SIZE,
    {
        proof {
            use_type_invariant(self);
            D::lemma_output_size_bound();
        }
        self.bytes.len()
    }
}

impl<D: FixedOutput> Clone for Output<D> {
    fn clone(&self) -> (out: Self)
        ensures
            out@ == self@,
    {
        proof {
            use_type_invariant(self);
        }
        Output { bytes: self.bytes.clone(), family: PhantomData }
    }
}

/// Whether two byte strings are the same.
pub fn bytes_eq(a: &[u8], b: &[u8]) -> (same: bool)
    ensures
        same == (a@ == b@),
{
    if a.len() != b.len() {
        return false;
    }
    let mut i: usize = 0;
    while i < a.len()
        invariant
            a@.len() == b@.len(),
            i <= a@.len(),
            a@.subrange(0, i as int) == b@.subrange(0, i as int),
        decreases a@.len() - i,
    {
        if a[i] != b[i] {
            return false;
        }
        assert(a@.subrange(0, i + 1) == a@.subrange(0, i as int).push(a@[i as int]));
        assert(b@.subrange(0, i + 1) == b@.subrange(0, i as int).push(b@[i as int]));
        i += 1;
    }
    assert(a@ == a@.subrange(0, i as int));
    assert(b@ == b@.subrange(0, i as int));
    true
}

impl<D: FixedOutput> PartialEq for Output<D> {
    fn eq(&self, other: &Self) -> (same: bool) {
        bytes_eq(self.bytes.as_slice(), other.bytes.as_slice())
    }
}

impl<D: FixedOutput> vstd::std_specs::cmp::PartialEqSpecImpl for Output<D> {
    open spec fn obeys_eq_spec() -> bool {
        true
    }

    open spec fn eq_spec(&self, other: &Self) -> bool {
        self@ == other@
    }
}

/// The Blake2b hash of `data`, with an output of 64 bytes.
pub uninterp spec fn blake2b_512(data: Seq<u8>) -> Seq<u8>;

/// `Digest::digest` of the `digest` crate, for `blake2::Blake2b`: the
/// Blake2b hash of `data`, which has 64 bytes.
#[verifier::external_body]
fn blake2b_digest(data: &[u8]) -> (out: Vec<u8>)
    ensures
        out@ == blake2b_512(data@),
        out@.len() == 64,
{
    <::blake2::Blake2b as ::digest::Digest>::digest(data).to_vec()
}

/// `Digest::output_size` of the `digest` crate, for `blake2::Blake2b`: 64.
#[verifier::external_body]
fn blake2b_output_size() -> (size: usize)
    ensures
        size == 64,
{
    <::blake2::Blake2b as ::digest::Digest>::output_size()
}

/// Blake2b with an output of 512 bits.
#[derive(Debug, Clone, Copy)]
pub struct Blake2b;

impl FixedOutput for Blake2b {
    open spec fn spec_output_size() -> nat {
        64
    }

    proof fn lemma_output_size_bound() {
    }

    fn output_size() -> (size: usize) {
        blake2b_output_size()
    }
}

impl Digest for Blake2b {
    open spec fn spec_digest(data: Seq<u8>) -> Seq<u8> {
        blake2b_512(data)
    }

    fn digest(data: &[u8]) -> (out: Output<Self>) {
        let bytes = blake2b_digest(data);
        Output::clone_from_slice(bytes.as_slice())
    }
}

} // verus!
