//! The request as it travels: digests as plain byte strings.

use crate::digest::{FixedOutput, Output};
use crate::replication::request::{Order, PathLength, RequestView};
use core::convert::TryFrom;
use vstd::prelude::*;
use vstd::slice::slice_to_vec;

verus! {

/// A Data Transfer Object representation of a request.
#[derive(Debug)]
pub struct Request {
    pub new: Vec<u8>,
    pub old: Option<Vec<u8>>,
    pub ordering: Order,
    pub path_length: PathLength,
    pub include_values: bool,
}

impl View for Request {
    type V = RequestView;

    open spec fn view(&self) -> RequestView {
        RequestView {
            new: self.new@,
            old: match self.old {
                Some(old) => Some(old@),
                None => None,
            },
            ordering: self.ordering,
            path_length: self.path_length,
            include_values: self.include_values,
        }
    }
}

impl Request {
    /// The transfer form of `request`: the same fields, digests as bytes.
    pub fn from_request<D: FixedOutput>(request: &super::Request<D>) -> (dto: Self)
        ensures
            dto@ == request@,
    {
        let new = slice_to_vec(request.new.as_slice());
        let old = match &request.old {
            Some(old) => Some(slice_to_vec(old.as_slice())),
            None => None,
        };
        Request {
            new,
            old,
            ordering: request.ordering,
            path_length: request.path_length,
            include_values: request.include_values,
        }
    }
}

/// Why a transfer form is no request.
#[derive(Debug, Clone, Copy, PartialEq, Eq, Structural)]
pub enum Error {
    /// `new` has not the size of a digest.
    NewWasIncorrectLength,
    /// `old` is there and has not the size of a digest.
    OldWasIncorrectLength,
}

/// What converting a transfer form gives, where digests have `size` bytes:
/// the same fields, or the first field that has not the size of a digest.
pub open spec fn conversion(dto: RequestView, size: nat) -> Result<RequestView, Error> {
    if dto.new.len() != size {
        Err(Error::NewWasIncorrectLength)
    } else if dto.old matches Some(old) && old.len() != size {
        Err(Error::OldWasIncorrectLength)
    } else {
        Ok(dto)
    }
}

impl<D: FixedOutput> TryFrom<Request> for super::Request<D> {
    type Error = Error;

    /// Checks that `new`, and `old` where it is there, have the size of a
    /// digest of `D`.
    fn try_from(value: Request) -> (r: Result<Self, Error>)
        ensures
            match r {
                Ok(request) => conversion(value@, D::spec_output_size()) == Ok::<
                    RequestView,
                    Error,
                >(request@),
                Err(e) => conversion(value@, D::spec_output_size()) == Err::<RequestView, Error>(
                    e,
                ),
            },
    {
        let new = match Output::try_from_slice(value.new.as_slice()) {
            Some(new) => new,
            None => {
                return Err(Error::NewWasIncorrectLength);
            },
        };
        let old = match &value.old {
            Some(old) => match Output::try_from_slice(old.as_slice()) {
                Some(old) => Some(old),
                None => {
                    return Err(Error::OldWasIncorrectLength);
                },
            },
            None => None,
        };
        Ok(
            super::Request {
                new,
                old,
                ordering: value.ordering,
                path_length: value.path_length,
                include_values: value.include_values,
            },
        )
    }
}

/// The contract of `try_from` is its own `ensures`, over views: the general
/// one compares values, and a digest that holds the same bytes as another
/// need not be the same value.
impl<D: FixedOutput> vstd::std_specs::convert::TryFromSpecImpl<Request> for super::Request<D> {
    open spec fn obeys_try_from_spec() -> bool {
        false
    }

    open spec fn try_from_spec(v: Request) -> Result<Self, Error> {
        arbitrary()
    }
}

/// Nothing is lost on the way: the transfer form of a request whose digests
/// have `size` bytes converts to that request.
pub proof fn lemma_conversion_of_transfer_form(request: RequestView, size: nat)
    requires
        request.new.len() == size,
        request.old matches Some(old) ==> old.len() == size,
    ensures
        conversion(request, size) == Ok::<RequestView, Error>(request),
{
}

impl<D: FixedOutput> From<super::Request<D>> for Request {
    /// The transfer form of `value`: the same fields, digests as bytes.
    fn from(value: super::Request<D>) -> (dto: Self)
        ensures
            dto@ == value@,
    {
        Request::from_request(&value)
    }
}

/// The contract of `from` is its own `ensures`, over views: the general one
/// compares values, and a vector that holds the same bytes as another need
/// not be the same value.
impl<D: FixedOutput> vstd::std_specs::convert::FromSpecImpl<super::Request<D>> for Request {
    open spec fn obeys_from_spec() -> bool {
        false
    }

    open spec fn from_spec(v: super::Request<D>) -> Self {
        arbitrary()
    }
}

} // verus!
