//! Replication: what a client asks of a server, what comes back, and the
//! checks that make a reply trusted.

pub mod request;
pub mod response;

use crate::digest::{FixedOutput, Output};
use crate::replication::request::{Order, PathLength, Request, RequestView};
use core::convert::TryFrom;
use vstd::prelude::*;

verus! {

/// Which values a client wants, and in which order, folded into one of
/// five modes. A request says the same with an order, a path length and
/// whether it wants values.
#[derive(Debug, Clone, Copy, PartialEq, Eq, Structural)]
pub enum Mode {
    /// no semigroup values at all
    NoValues,
    /// the labels along the shortest path from new to old, in order of ascending depth
    Ascending,
    /// the labels along the shortest path from new to old, in order of descending depth
    Descending,
    /// the labels along the longest path from new to old, in order of ascending depth
    AllAscending,
    /// the labels along the longest path from new to old, in order of descending depth
    AllDescending,
}

impl Mode {
    /// The order in which a request of this mode wants its items. Without
    /// values, events come by descending depth.
    pub open spec fn spec_ordering(self) -> Order {
        match self {
            Mode::Ascending | Mode::AllAscending => Order::Ascending,
            Mode::NoValues | Mode::Descending | Mode::AllDescending => Order::Descending,
        }
    }

    /// The path that a request of this mode wants.
    pub open spec fn spec_path_length(self) -> PathLength {
        match self {
            Mode::AllAscending | Mode::AllDescending => PathLength::LongestPath,
            Mode::NoValues | Mode::Ascending | Mode::Descending => PathLength::ShortestPath,
        }
    }

    /// Whether a request of this mode wants values.
    pub open spec fn spec_include_values(self) -> bool {
        self != Mode::NoValues
    }

    /// The order in which a request of this mode wants its items.
    pub fn ordering(self) -> (ordering: Order)
        ensures
            ordering == self.spec_ordering(),
    {
        match self {
            Mode::Ascending | Mode::AllAscending => Order::Ascending,
            Mode::NoValues | Mode::Descending | Mode::AllDescending => Order::Descending,
        }
    }

    /// The path that a request of this mode wants.
    pub fn path_length(self) -> (path_length: PathLength)
        ensures
            path_length == self.spec_path_length(),
    {
        match self {
            Mode::AllAscending | Mode::AllDescending => PathLength::LongestPath,
            Mode::NoValues | Mode::Ascending | Mode::Descending => PathLength::ShortestPath,
        }
    }

    /// Whether a request of this mode wants values.
    pub fn include_values(self) -> (include_values: bool)
        ensures
            include_values == self.spec_include_values(),
    {
        match self {
            Mode::NoValues => false,
            _ => true,
        }
    }
}

/// The compact transfer form of a request: both events are named, the mode
/// stands for order, path and values, and two offsets ask to resume an answer
/// that was cut off.
#[derive(Debug, Clone, Copy)]
pub struct RequestDTO<'a> {
    pub new: &'a [u8],
    pub old: &'a [u8],
    pub mode: Mode,
    pub offset_event: u8,
    pub offset_value: Option<u8>,
}

/// Why a compact transfer form is no request.
#[derive(Debug, Clone, Copy, PartialEq, Eq, Structural)]
pub enum RequestDtoError {
    /// `new` has not the size of a digest.
    NewWasIncorrectLength,
    /// `old` has not the size of a digest.
    OldWasIncorrectLength,
    /// The form asks to resume an answer, which no request can say.
    ResumingIsNotSupported,
}

/// A compact transfer form as a mathematical value.
pub struct RequestDTOView {
    pub new: Seq<u8>,
    pub old: Seq<u8>,
    pub mode: Mode,
    pub offset_event: u8,
    pub offset_value: Option<u8>,
}

impl<'a> View for RequestDTO<'a> {
    type V = RequestDTOView;

    open spec fn view(&self) -> RequestDTOView {
        RequestDTOView {
            new: self.new@,
            old: self.old@,
            mode: self.mode,
            offset_event: self.offset_event,
            offset_value: self.offset_value,
        }
    }
}

/// What converting a compact transfer form gives, where digests have `size`
/// bytes: the request that asks the same, or the first thing that stands
/// against it. A form with an offset is refused, not read without it.
pub open spec fn conversion(dto: RequestDTOView, size: nat) -> Result<
    RequestView,
    RequestDtoError,
> {
    if dto.new.len() != size {
        Err(RequestDtoError::NewWasIncorrectLength)
    } else if dto.old.len() != size {
        Err(RequestDtoError::OldWasIncorrectLength)
    } else if dto.offset_event != 0 || dto.offset_value is Some {
        Err(RequestDtoError::ResumingIsNotSupported)
    } else {
        Ok(
            RequestView {
                new: dto.new,
                old: Some(dto.old),
                ordering: dto.mode.spec_ordering(),
                path_length: dto.mode.spec_path_length(),
                include_values: dto.mode.spec_include_values(),
            },
        )
    }
}

impl<'a, D: FixedOutput> TryFrom<RequestDTO<'a>> for Request<D> {
    type Error = RequestDtoError;

    /// Checks that both events have the size of a digest of `D` and that no
    /// offset is set, and unfolds the mode.
    fn try_from(value: RequestDTO<'a>) -> (r: Result<Self, RequestDtoError>)
        ensures
            match r {
                Ok(request) => conversion(value@, D::spec_output_size()) == Ok::<
                    RequestView,
                    RequestDtoError,
                >(request@),
                Err(e) => conversion(value@, D::spec_output_size()) == Err::<
                    RequestView,
                    RequestDtoError,
                >(e),
            },
    {
        let new = match Output::try_from_slice(value.new) {
            Some(new) => new,
            None => {
                return Err(RequestDtoError::NewWasIncorrectLength);
            },
        };
        let old = match Output::try_from_slice(value.old) {
            Some(old) => old,
            None => {
                return Err(RequestDtoError::OldWasIncorrectLength);
            },
        };
        if value.offset_event != 0 || value.offset_value.is_some() {
            return Err(RequestDtoError::ResumingIsNotSupported);
        }
        Ok(
            Request {
                new,
                old: Some(old),
                ordering: value.mode.ordering(),
                path_length: value.mode.path_length(),
                include_values: value.mode.include_values(),
            },
        )
    }
}

/// The contract of `try_from` is its own `ensures`, over views: the general
/// one compares values, and a digest that holds the same bytes as another
/// need not be the same value.
impl<'a, D: FixedOutput> vstd::std_specs::convert::TryFromSpecImpl<RequestDTO<'a>> for Request<D> {
    open spec fn obeys_try_from_spec() -> bool {
        false
    }

    open spec fn try_from_spec(v: RequestDTO<'a>) -> Result<Self, RequestDtoError> {
        arbitrary()
    }
}

} // verus!
