//! Events as they stand in a transfer form: digests as plain byte strings
//! of any length, sequence numbers as plain integers.

use crate::digest::{FixedOutput, Output};
use crate::event::{Event as ValidEvent, EventView, SequenceNumber};
use core::convert::TryFrom;
use vstd::prelude::*;

verus! {

/// A Data Transfer Object representation of an event.
#[derive(Clone, Copy, Debug)]
pub enum Event<'a> {
    Root { delta_digest: &'a [u8], delta_size: u64 },
    Child {
        sequence_number: u64,
        predecessor_event_link: &'a [u8],
        delta_digest: &'a [u8],
        delta_size: u64,
        skip_event_link: &'a [u8],
        skip_delta_digest: &'a [u8],
        skip_delta_size: u64,
    },
}

/// Why a transfer form is no event.
#[derive(Debug, Clone, Copy, PartialEq, Eq, Structural)]
pub enum Error {
    /// A child has a sequence number below two.
    InvalidSequenceNumber,
    /// A digest has not the size of the family.
    InvalidDigestLength { expected_length: usize, actual_length: usize },
}

impl<'a> View for Event<'a> {
    type V = EventView;

    open spec fn view(&self) -> EventView {
        match self {
            Event::Root { delta_digest, delta_size } => EventView::Root {
                delta_digest: delta_digest@,
                delta_size: *delta_size,
            },
            Event::Child {
                sequence_number,
                predecessor_event_link,
                delta_digest,
                delta_size,
                skip_event_link,
                skip_delta_digest,
                skip_delta_size,
            } => EventView::Child {
                sequence_number: *sequence_number,
                predecessor_event_link: predecessor_event_link@,
                delta_digest: delta_digest@,
                delta_size: *delta_size,
                skip_event_link: skip_event_link@,
                skip_delta_digest: skip_delta_digest@,
                skip_delta_size: *skip_delta_size,
            },
        }
    }
}

/// What holding one digest against the size of the family gives.
pub open spec fn digest_conversion(digest: Seq<u8>, size: nat) -> Result<(), Error> {
    if digest.len() == size {
        Ok(())
    } else {
        Err(
            Error::InvalidDigestLength {
                expected_length: size as usize,
                actual_length: digest.len() as usize,
            },
        )
    }
}

/// What converting a transfer form gives, where digests have `size` bytes:
/// the same event, or the first thing that is wrong with it. In a child the
/// sequence number is looked at first, then predecessor link, digest, skip
/// link and skip digest.
pub open spec fn conversion(event: EventView, size: nat) -> Result<EventView, Error> {
    match event {
        EventView::Root { delta_digest, .. } => match digest_conversion(delta_digest, size) {
            Err(e) => Err(e),
            Ok(_) => Ok(event),
        },
        EventView::Child {
            sequence_number,
            predecessor_event_link,
            delta_digest,
            skip_event_link,
            skip_delta_digest,
            ..
        } => {
            if sequence_number < 2 {
                Err(Error::InvalidSequenceNumber)
            } else if digest_conversion(predecessor_event_link, size) is Err {
                Err(digest_conversion(predecessor_event_link, size)->Err_0)
            } else if digest_conversion(delta_digest, size) is Err {
                Err(digest_conversion(delta_digest, size)->Err_0)
            } else if digest_conversion(skip_event_link, size) is Err {
                Err(digest_conversion(skip_event_link, size)->Err_0)
            } else if digest_conversion(skip_delta_digest, size) is Err {
                Err(digest_conversion(skip_delta_digest, size)->Err_0)
            } else {
                Ok(event)
            }
        },
    }
}

impl<'a, D: FixedOutput> TryFrom<Event<'a>> for ValidEvent<D> {
    type Error = Error;

    /// Checks that every digest has the size of the family and that a child
    /// has a sequence number of two or more.
    fn try_from(value: Event<'a>) -> (r: Result<Self, Error>)
        ensures
            match r {
                Ok(event) => conversion(value@, D::spec_output_size()) == Ok::<EventView, Error>(
                    event@,
                ),
                Err(e) => conversion(value@, D::spec_output_size()) == Err::<EventView, Error>(e),
            },
            r matches Ok(event) ==> event@.wf(D::spec_output_size()),
    {
        match value {
            Event::Root { delta_digest, delta_size } => {
                let digest = try_convert_slice_to_digest(delta_digest)?;

                let evt = ValidEvent::Root { delta_digest: digest, delta_size };
                Ok(evt)
            },
            Event::Child {
                sequence_number,
                predecessor_event_link,
                delta_digest,
                delta_size,
                skip_event_link,
                skip_delta_digest,
                skip_delta_size,
            } => {
                if sequence_number < 2 {
                    return Err(Error::InvalidSequenceNumber);
                }
                let sequence_number = match SequenceNumber::new(sequence_number) {
                    Some(number) => number,
                    None => {
                        return Err(Error::InvalidSequenceNumber);
                    },
                };
                let predecessor_event_link = try_convert_slice_to_digest(predecessor_event_link)?;
                let delta_digest = try_convert_slice_to_digest(delta_digest)?;
                let skip_event_link = try_convert_slice_to_digest(skip_event_link)?;
                let skip_delta_digest = try_convert_slice_to_digest(skip_delta_digest)?;
                Ok(
                    ValidEvent::Child {
                        sequence_number,
                        predecessor_event_link,
                        delta_digest,
                        delta_size,
                        skip_event_link,
                        skip_delta_digest,
                        skip_delta_size,
                    },
                )
            },
        }
    }
}

/// The contract of `try_from` is its own `ensures`, over views: the general
/// one compares values, and a digest that holds the same bytes as another
/// need not be the same value.
impl<'a, D: FixedOutput> vstd::std_specs::convert::TryFromSpecImpl<Event<'a>> for ValidEvent<D> {
    open spec fn obeys_try_from_spec() -> bool {
        false
    }

    open spec fn try_from_spec(v: Event<'a>) -> Result<Self, Error> {
        arbitrary()
    }
}

/// The digest that holds the bytes of `delta_digest`, where there are as
/// many as the family asks for.
fn try_convert_slice_to_digest<D: FixedOutput>(delta_digest: &[u8]) -> (r: Result<
    Output<D>,
    Error,
>)
    ensures
        match r {
            Ok(digest) => digest@ == delta_digest@ && digest_conversion(
                delta_digest@,
                D::spec_output_size(),
            ) is Ok,
            Err(e) => digest_conversion(delta_digest@, D::spec_output_size()) == Err::<(), Error>(
                e,
            ),
        },
{
    let actual_length = delta_digest.len();
    let expected_length = D::output_size();
    if actual_length != expected_length {
        return Err(Error::InvalidDigestLength { expected_length, actual_length });
    }
    let digest = Output::clone_from_slice(delta_digest);
    Ok(digest)
}

} // verus!
