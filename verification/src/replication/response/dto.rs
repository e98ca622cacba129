//! The answer as it travels: events and values as plain byte strings.

use crate::digest::FixedOutput;
use crate::event::decode::decoding;
use crate::event::Event;
use crate::replication::response::{
    encode_event, encode_value, pairs_view, EventPayloadPairView, ResponseView,
};
use crate::semigroup::Semigroup;
use crate::CanonicalEncoding;
use core::convert::TryFrom;
use vstd::prelude::*;

verus! {

/// An encoded event and, where there is one, the encoded value that belongs
/// to it.
#[derive(Debug)]
pub struct EventPayloadPair {
    pub event: Vec<u8>,
    pub payload: Option<Vec<u8>>,
}

/// A Data Transfer Object representation of a response.
#[derive(Debug)]
pub enum Response {
    UnknownEvent,
    Data(Vec<EventPayloadPair>),
}

/// Why a transfer form is no response.
#[derive(Debug)]
#[allow(inconsistent_fields)]
pub enum Error<E> {
    /// The bytes of an event are no event.
    DecodeEvent { source: crate::event::decode::error::Error },
    /// The bytes of a value are no value.
    DecodePayload { source: E },
}

/// An encoded pair as a mathematical value.
pub struct EncodedPairView {
    pub event: Seq<u8>,
    pub payload: Option<Seq<u8>>,
}

/// A transfer form as a mathematical value.
pub enum EncodedResponseView {
    UnknownEvent,
    Data(Seq<EncodedPairView>),
}

/// An error without what the codec of the values says of it.
pub enum ErrorView {
    DecodeEvent { source: crate::event::decode::error::Error },
    DecodePayload,
}

impl View for EventPayloadPair {
    type V = EncodedPairView;

    open spec fn view(&self) -> EncodedPairView {
        EncodedPairView {
            event: self.event@,
            payload: match self.payload {
                Some(payload) => Some(payload@),
                None => None,
            },
        }
    }
}

/// The encoded pairs of a vector as mathematical values.
pub open spec fn encoded_pairs_view(pairs: Seq<EventPayloadPair>) -> Seq<EncodedPairView> {
    Seq::new(pairs.len(), |i: int| pairs[i]@)
}

impl View for Response {
    type V = EncodedResponseView;

    open spec fn view(&self) -> EncodedResponseView {
        match self {
            Response::UnknownEvent => EncodedResponseView::UnknownEvent,
            Response::Data(pairs) => EncodedResponseView::Data(encoded_pairs_view(pairs@)),
        }
    }
}

impl<E> View for Error<E> {
    type V = ErrorView;

    open spec fn view(&self) -> ErrorView {
        match self {
            Error::DecodeEvent { source } => ErrorView::DecodeEvent { source: *source },
            Error::DecodePayload { .. } => ErrorView::DecodePayload,
        }
    }
}

/// What decoding one pair gives, where digests have `size` bytes: the event
/// and the value, or the error of the event, or that of the value where the
/// event is one. Bytes that follow a value are not looked at.
pub open spec fn decoded_pair<S: CanonicalEncoding>(pair: EncodedPairView, size: nat) -> Result<
    EventPayloadPairView<S>,
    ErrorView,
> {
    match decoding(pair.event, size) {
        Err(source) => Err(ErrorView::DecodeEvent { source }),
        Ok(event) => match pair.payload {
            None => Ok(EventPayloadPairView { event, payload: None }),
            Some(bytes) => match S::spec_decoding(bytes) {
                None => Err(ErrorView::DecodePayload),
                Some((value, _)) => Ok(EventPayloadPairView { event, payload: Some(value) }),
            },
        },
    }
}

/// What decoding pair after pair gives: all of them, or the error of the
/// first that fails.
pub open spec fn decoded_pairs<S: CanonicalEncoding>(pairs: Seq<EncodedPairView>, size: nat)
    -> Result<Seq<EventPayloadPairView<S>>, ErrorView>
    decreases pairs.len(),
{
    if pairs.len() == 0 {
        Ok(Seq::empty())
    } else {
        match decoded_pair::<S>(pairs[0], size) {
            Err(e) => Err(e),
            Ok(first) => match decoded_pairs::<S>(pairs.skip(1), size) {
                Err(e) => Err(e),
                Ok(rest) => Ok(seq![first] + rest),
            },
        }
    }
}

/// What decoding a transfer form gives.
pub open spec fn decoded<S: CanonicalEncoding>(response: EncodedResponseView, size: nat) -> Result<
    ResponseView<S>,
    ErrorView,
> {
    match response {
        EncodedResponseView::UnknownEvent => Ok(ResponseView::UnknownEvent),
        EncodedResponseView::Data(pairs) => match decoded_pairs::<S>(pairs, size) {
            Err(e) => Err(e),
            Ok(pairs) => Ok(ResponseView::Data(pairs)),
        },
    }
}

/// The transfer form of a pair: the canonical encodings of event and value.
pub open spec fn encoded_pair<S: CanonicalEncoding>(
    pair: EventPayloadPairView<S>,
) -> EncodedPairView {
    EncodedPairView {
        event: pair.event.encoding(),
        payload: match pair.payload {
            Some(value) => Some(value.spec_encoding()),
            None => None,
        },
    }
}

/// The transfer form of a response.
pub open spec fn encoded<S: CanonicalEncoding>(response: ResponseView<S>) -> EncodedResponseView {
    match response {
        ResponseView::UnknownEvent => EncodedResponseView::UnknownEvent,
        ResponseView::Data(pairs) => EncodedResponseView::Data(
            Seq::new(pairs.len(), |i: int| encoded_pair(pairs[i])),
        ),
    }
}

/// Decodes one pair.
fn decode_pair<D: FixedOutput, S: Semigroup + CanonicalEncoding>(pair: &EventPayloadPair) -> (r:
    Result<super::EventPayloadPair<D, S>, Error<S::Error>>)
    ensures
        match r {
            Ok(decoded) => decoded_pair::<S>(pair@, D::spec_output_size()) == Ok::<
                EventPayloadPairView<S>,
                ErrorView,
            >(decoded@),
            Err(e) => decoded_pair::<S>(pair@, D::spec_output_size()) == Err::<
                EventPayloadPairView<S>,
                ErrorView,
            >(e@),
        },
{
    let event = match Event::decode(pair.event.as_slice()) {
        Ok(event) => event,
        Err(source) => {
            return Err(Error::DecodeEvent { source });
        },
    };
    let payload = match &pair.payload {
        Some(payload) => match S::decode(payload.as_slice()) {
            Ok((res, _)) => Some(res),
            Err(source) => {
                return Err(Error::DecodePayload { source });
            },
        },
        None => None,
    };
    Ok(super::EventPayloadPair { event, payload })
}

impl<D: FixedOutput, S: Semigroup + CanonicalEncoding> TryFrom<Response> for super::UnvalidatedResponse<D, S> {
    type Error = Error<S::Error>;

    /// Decodes every event and every value of a transfer form. The error is
    /// that of the first pair that is no pair.
    fn try_from(response: Response) -> (r: Result<Self, Self::Error>)
        ensures
            match r {
                Ok(unvalidated) => decoded::<S>(response@, D::spec_output_size()) == Ok::<
                    ResponseView<S>,
                    ErrorView,
                >(unvalidated@),
                Err(e) => decoded::<S>(response@, D::spec_output_size()) == Err::<
                    ResponseView<S>,
                    ErrorView,
                >(e@),
            },
    {
        match response {
            Response::UnknownEvent => Ok(Self::UnknownEvent),
            Response::Data(pairs) => {
                let ghost size = D::spec_output_size();
                let ghost encoded = encoded_pairs_view(pairs@);
                let mut new_pairs: Vec<super::EventPayloadPair<D, S>> = Vec::new();
                let mut i: usize = 0;
                assert(encoded.skip(0) =~= encoded);
                while i < pairs.len()
                    invariant
                        i <= pairs@.len(),
                        size == D::spec_output_size(),
                        encoded == encoded_pairs_view(pairs@),
                        response@ == EncodedResponseView::Data(encoded),
                        new_pairs@.len() == i,
                        decoded_pairs::<S>(encoded, size) == match decoded_pairs::<S>(
                            encoded.skip(i as int),
                            size,
                        ) {
                            Err(e) => Err::<Seq<EventPayloadPairView<S>>, ErrorView>(e),
                            Ok(rest) => Ok(pairs_view(new_pairs@) + rest),
                        },
                    decreases pairs@.len() - i,
                {
                    let ghost before = pairs_view(new_pairs@);
                    assert(encoded.skip(i as int)[0] == pairs@[i as int]@);
                    assert(encoded.skip(i as int).skip(1) =~= encoded.skip(i + 1));
                    match decode_pair::<D, S>(&pairs[i]) {
                        Ok(pair) => {
                            new_pairs.push(pair);
                            proof {
                                let first = pair@;
                                assert(pairs_view(new_pairs@) =~= before + seq![first]);
                                assert forall|rest: Seq<EventPayloadPairView<S>>|
                                    before + (seq![first] + rest) == (before + seq![first])
                                        + rest by {
                                    assert(before + (seq![first] + rest) =~= (before + seq![
                                        first,
                                    ]) + rest);
                                }
                            }
                        },
                        Err(e) => {
                            assert(encoded.skip(i as int).len() > 0);
                            assert(decoded_pairs::<S>(encoded.skip(i as int), size) == Err::<
                                Seq<EventPayloadPairView<S>>,
                                ErrorView,
                            >(e@));
                            return Err(e);
                        },
                    }
                    i += 1;
                }
                assert(pairs_view(new_pairs@) + Seq::empty() =~= pairs_view(new_pairs@));
                Ok(Self::Data(new_pairs))
            },
        }
    }
}

/// The contract of `try_from` is its own `ensures`, over views: the general
/// one compares values, and an event that holds the same bytes as another
/// need not be the same value.
impl<D: FixedOutput, S: Semigroup + CanonicalEncoding> vstd::std_specs::convert::TryFromSpecImpl<Response> for super::UnvalidatedResponse<D, S> {
    open spec fn obeys_try_from_spec() -> bool {
        false
    }

    open spec fn try_from_spec(v: Response) -> Result<Self, Error<S::Error>> {
        arbitrary()
    }
}

impl<D: FixedOutput, S: Semigroup + CanonicalEncoding> From<super::Response<D, S>> for Response {
    /// Encodes every event and every value, each into a buffer of the length
    /// of its encoding.
    fn from(response: super::Response<D, S>) -> (dto: Self)
        ensures
            dto@ == encoded(response@),
    {
        match response {
            super::Response::UnknownEvent => Self::UnknownEvent,
            super::Response::Data(pairs) => {
                let mut new_pairs: Vec<EventPayloadPair> = Vec::new();
                let mut i: usize = 0;
                while i < pairs.len()
                    invariant
                        i <= pairs@.len(),
                        new_pairs@.len() == i,
                        forall|j: int|
                            0 <= j < i ==> (#[trigger] new_pairs@[j])@ == encoded_pair(
                                pairs@[j]@,
                            ),
                    decreases pairs@.len() - i,
                {
                    let pair = &pairs[i];
                    let event = encode_event(&pair.event);
                    let payload = match &pair.payload {
                        Some(payload) => Some(encode_value(payload)),
                        None => None,
                    };
                    new_pairs.push(EventPayloadPair { event, payload });
                    i += 1;
                }
                let dto = Self::Data(new_pairs);
                assert(dto@ =~= encoded(response@)) by {
                    assert(encoded_pairs_view(new_pairs@) =~= Seq::new(
                        pairs@.len(),
                        |i: int| encoded_pair(pairs_view(pairs@)[i]),
                    ));
                }
                dto
            },
        }
    }
}

/// The contract of `from` is its own `ensures`, over views: the general one
/// compares values, and a vector that holds the same bytes as another need
/// not be the same value.
impl<D: FixedOutput, S: Semigroup + CanonicalEncoding> vstd::std_specs::convert::FromSpecImpl<super::Response<D, S>> for Response {
    open spec fn obeys_from_spec() -> bool {
        false
    }

    open spec fn from_spec(v: super::Response<D, S>) -> Self {
        arbitrary()
    }
}

} // verus!
