//! The reply of a server, and the checks that make it trusted.

pub mod dto;
pub mod laws;

use crate::digest::{Digest, FixedOutput, Output};
use crate::event::{Event, EventView};
use crate::replication::request::{Order, PathLength, Request, RequestView};
use crate::semigroup::{combine_left, Semigroup};
use crate::CanonicalEncoding;
use vstd::prelude::*;

verus! {

/// An event and, where the server sent it, the value that belongs to it.
#[derive(Debug)]
pub struct EventPayloadPair<D: FixedOutput, S: Semigroup> {
    pub event: Event<D>,
    pub payload: Option<S>,
}

/// What a server answers.
#[derive(Debug)]
pub enum Response<D: FixedOutput, S: Semigroup + CanonicalEncoding> {
    /// The server does not know the event that was asked for.
    UnknownEvent,
    /// The events between the two that the request names, in the order that
    /// the request asks for.
    Data(Vec<EventPayloadPair<D, S>>),
}

/// An answer as it arrived: nothing in it has been checked.
#[derive(Debug)]
pub enum UnvalidatedResponse<D: FixedOutput, S: Semigroup + CanonicalEncoding> {
    UnknownEvent,
    Data(Vec<EventPayloadPair<D, S>>),
}

/// An answer that has passed every check against its request.
#[derive(Debug)]
pub struct ValidResponse<D: FixedOutput, S: Semigroup> {
    events: Vec<Event<D>>,
    values: Vec<Option<S>>,
}

/// Why an answer was not accepted.
#[derive(Debug, Clone, Copy, PartialEq, Eq, Structural)]
pub enum ResponseValidationError {
    /// The server did not know the event.
    UnknownEvent,
    /// The answer holds no event.
    ExpectedAtLeastOneEventInEvents,
    /// The newest event of the answer is not the one that was asked for.
    FirstEventHashDidNotMatchHashOfRequestNew,
    /// The events do not come in the order of depth that was asked for.
    OrderingViolation,
    /// An event has no link that a request for this path length accepts and
    /// that is the hash of the event after it.
    LinkMismatch,
    /// A child has a sequence number below two, or the sequence numbers of two
    /// neighbours do not differ as the link between them asks.
    SequenceNumberMismatch,
    /// The oldest event of the answer neither is nor links to the event that
    /// the client has.
    OldEventNotReached,
    /// A value has not the length that its event gives.
    PayloadLengthMismatch,
    /// A value has not the hash that its event gives.
    PayloadHashMismatch,
}

/// A pair as a mathematical value.
pub struct EventPayloadPairView<S> {
    pub event: EventView,
    pub payload: Option<S>,
}

/// An answer as a mathematical value.
pub enum ResponseView<S> {
    UnknownEvent,
    Data(Seq<EventPayloadPairView<S>>),
}

impl<D: FixedOutput, S: Semigroup> View for EventPayloadPair<D, S> {
    type V = EventPayloadPairView<S>;

    open spec fn view(&self) -> EventPayloadPairView<S> {
        EventPayloadPairView { event: self.event@, payload: self.payload }
    }
}

/// The pairs of a vector as mathematical values.
pub open spec fn pairs_view<D: FixedOutput, S: Semigroup>(
    pairs: Seq<EventPayloadPair<D, S>>,
) -> Seq<EventPayloadPairView<S>> {
    Seq::new(pairs.len(), |i: int| pairs[i]@)
}

impl<D: FixedOutput, S: Semigroup + CanonicalEncoding> View for Response<D, S> {
    type V = ResponseView<S>;

    open spec fn view(&self) -> ResponseView<S> {
        match self {
            Response::UnknownEvent => ResponseView::UnknownEvent,
            Response::Data(pairs) => ResponseView::Data(pairs_view(pairs@)),
        }
    }
}

impl<D: FixedOutput, S: Semigroup + CanonicalEncoding> View for UnvalidatedResponse<D, S> {
    type V = ResponseView<S>;

    open spec fn view(&self) -> ResponseView<S> {
        match self {
            UnvalidatedResponse::UnknownEvent => ResponseView::UnknownEvent,
            UnvalidatedResponse::Data(pairs) => ResponseView::Data(pairs_view(pairs@)),
        }
    }
}

/// The identity of an event: the hash of its canonical encoding.
pub open spec fn event_hash<D: Digest>(event: EventView) -> Seq<u8> {
    D::spec_digest(event.encoding())
}

/// Where the `i`-th of `count` items by descending depth stands in a list
/// that was transmitted in the given order.
pub open spec fn position(i: int, count: int, ordering: Order) -> int {
    match ordering {
        Order::Descending => i,
        Order::Ascending => count - 1 - i,
    }
}

/// The events of an answer by descending depth: newest first.
pub open spec fn chain<S>(pairs: Seq<EventPayloadPairView<S>>, ordering: Order) -> Seq<EventView> {
    Seq::new(pairs.len(), |i: int| pairs[position(i, pairs.len() as int, ordering)].event)
}

/// The newest event is the one that was asked for.
pub open spec fn starts_at<D: Digest>(chain: Seq<EventView>, new: Seq<u8>) -> bool {
    event_hash::<D>(chain[0]) == new
}

/// From each event to the next the depth goes down.
pub open spec fn depth_descends(chain: Seq<EventView>) -> bool {
    forall|i: int|
        0 <= i < chain.len() - 1 ==> (#[trigger] chain[i]).sequence_number() > chain[i
            + 1].sequence_number()
}

/// `event` has a link to `target` that a request for `path_length` accepts:
/// its predecessor link, or along the shortest path its skip link.
pub open spec fn links_to(event: EventView, target: Seq<u8>, path_length: PathLength) -> bool {
    match event {
        EventView::Root { .. } => false,
        EventView::Child { predecessor_event_link, skip_event_link, .. } => {
            ||| predecessor_event_link == target
            ||| path_length == PathLength::ShortestPath && skip_event_link == target
        },
    }
}

/// Each event links to the one after it.
pub open spec fn links_are_consistent<D: Digest>(
    chain: Seq<EventView>,
    path_length: PathLength,
) -> bool {
    forall|i: int|
        0 <= i < chain.len() - 1 ==> links_to(
            #[trigger] chain[i],
            event_hash::<D>(chain[i + 1]),
            path_length,
        )
}

/// The sequence numbers of `event` and of `next`, whose hash is `target`,
/// differ as the link between them asks: by one along a predecessor link, by
/// more along a skip link.
pub open spec fn step_matches_link(event: EventView, next: EventView, target: Seq<u8>) -> bool {
    match event {
        EventView::Root { .. } => false,
        EventView::Child { sequence_number, predecessor_event_link, .. } => {
            if predecessor_event_link == target {
                sequence_number == next.sequence_number() + 1
            } else {
                sequence_number > next.sequence_number() + 1
            }
        },
    }
}

/// Every child comes after the root, and the sequence numbers of neighbours
/// differ as the link between them asks.
pub open spec fn sequence_numbers_are_consistent<D: Digest>(chain: Seq<EventView>) -> bool {
    &&& forall|i: int|
        0 <= i < chain.len() ==> ((#[trigger] chain[i]) is Child ==> chain[i].sequence_number()
            >= 2)
    &&& forall|i: int|
        0 <= i < chain.len() - 1 ==> step_matches_link(
            #[trigger] chain[i],
            chain[i + 1],
            event_hash::<D>(chain[i + 1]),
        )
}

/// `event` is `old` or has a link to it.
pub open spec fn reaches<D: Digest>(event: EventView, old: Seq<u8>) -> bool {
    ||| event_hash::<D>(event) == old
    ||| event matches EventView::Child { predecessor_event_link, skip_event_link, .. } && (
    predecessor_event_link == old || skip_event_link == old)
}

/// Where the client named an event that it has, the oldest event of the
/// answer is that event or links to it.
pub open spec fn ends_at<D: Digest>(chain: Seq<EventView>, old: Option<Seq<u8>>) -> bool {
    old matches Some(old) ==> reaches::<D>(chain.last(), old)
}

/// Every value has the length that its event gives.
pub open spec fn payload_lengths_match<S: CanonicalEncoding>(
    pairs: Seq<EventPayloadPairView<S>>,
) -> bool {
    forall|i: int|
        0 <= i < pairs.len() ==> ((#[trigger] pairs[i]).payload matches Some(value)
            ==> value.spec_encoding().len() == pairs[i].event.size())
}

/// Every value has the hash that its event gives.
pub open spec fn payload_hashes_match<D: Digest, S: CanonicalEncoding>(
    pairs: Seq<EventPayloadPairView<S>>,
) -> bool {
    forall|i: int|
        0 <= i < pairs.len() ==> ((#[trigger] pairs[i]).payload matches Some(value)
            ==> D::spec_digest(value.spec_encoding()) == pairs[i].event.delta_digest())
}

/// What the checks say of an answer to `request`: nothing where they all
/// pass, else the first that fails, in the order in which they stand here.
pub open spec fn validation<D: Digest, S: CanonicalEncoding>(
    response: ResponseView<S>,
    request: RequestView,
) -> Result<(), ResponseValidationError> {
    match response {
        ResponseView::UnknownEvent => Err(ResponseValidationError::UnknownEvent),
        ResponseView::Data(pairs) => {
            let chain = chain(pairs, request.ordering);
            if pairs.len() == 0 {
                Err(ResponseValidationError::ExpectedAtLeastOneEventInEvents)
            } else if !starts_at::<D>(chain, request.new) {
                Err(ResponseValidationError::FirstEventHashDidNotMatchHashOfRequestNew)
            } else if !depth_descends(chain) {
                Err(ResponseValidationError::OrderingViolation)
            } else if !links_are_consistent::<D>(chain, request.path_length) {
                Err(ResponseValidationError::LinkMismatch)
            } else if !sequence_numbers_are_consistent::<D>(chain) {
                Err(ResponseValidationError::SequenceNumberMismatch)
            } else if !ends_at::<D>(chain, request.old) {
                Err(ResponseValidationError::OldEventNotReached)
            } else if !payload_lengths_match(pairs) {
                Err(ResponseValidationError::PayloadLengthMismatch)
            } else if !payload_hashes_match::<D, S>(pairs) {
                Err(ResponseValidationError::PayloadHashMismatch)
            } else {
                Ok(())
            }
        },
    }
}

impl<D: FixedOutput, S: Semigroup> View for ValidResponse<D, S> {
    type V = Seq<EventPayloadPairView<S>>;

    closed spec fn view(&self) -> Seq<EventPayloadPairView<S>> {
        Seq::new(
            self.events@.len(),
            |i: int| EventPayloadPairView { event: self.events@[i]@, payload: self.values@[i] },
        )
    }
}

impl<D: FixedOutput, S: Semigroup> ValidResponse<D, S> {
    #[verifier::type_invariant]
    spec fn is_aligned(&self) -> bool {
        self.events@.len() == self.values@.len()
    }

    /// The events, in the order in which they arrived.
    pub fn events(&self) -> (events: &Vec<Event<D>>)
        ensures
            events@.len() == self@.len(),
            forall|i: int| 0 <= i < events@.len() ==> (#[trigger] events@[i])@ == self@[i].event,
    {
        &self.events
    }

    /// The values, each at the place of its event.
    pub fn values(&self) -> (values: &Vec<Option<S>>)
        ensures
            values@.len() == self@.len(),
            forall|i: int| 0 <= i < values@.len() ==> #[trigger] values@[i] == self@[i].payload,
    {
        proof {
            use_type_invariant(self);
        }
        &self.values
    }
}

/// The values that are there, in the order of their events.
pub open spec fn present_values<S>(pairs: Seq<EventPayloadPairView<S>>) -> Seq<S>
    decreases pairs.len(),
{
    if pairs.len() == 0 {
        Seq::empty()
    } else {
        let front = present_values(pairs.drop_last());
        match pairs.last().payload {
            Some(value) => front.push(value),
            None => front,
        }
    }
}

impl<D: FixedOutput, S: Semigroup + Clone> ValidResponse<D, S> {
    /// Combines the values that are there, from the first to the last,
    /// starting with a clone of the first. Nothing comes of no values.
    pub fn combine_values(&self) -> (total: Option<S>)
        ensures
            present_values(self@).len() == 0 ==> total is None,
            present_values(self@).len() > 0 ==> exists|head: S|
                cloned(present_values(self@)[0], head) && total == Some(
                    combine_left(present_values(self@).update(0, head)),
                ),
    {
        proof {
            use_type_invariant(self);
        }
        let ghost pairs = self@;
        let ghost mut head: S = arbitrary();
        let mut total: Option<S> = None;
        let mut i: usize = 0;
        assert(pairs.take(0) =~= Seq::empty());
        while i < self.values.len()
            invariant
                i <= self.values@.len(),
                pairs == self@,
                pairs.len() == self.values@.len(),
                forall|j: int|
                    0 <= j < pairs.len() ==> (#[trigger] pairs[j]).payload == self.values@[j],
                (present_values(pairs.take(i as int)).len() == 0) <==> total is None,
                total matches Some(sum) ==> cloned(present_values(pairs.take(i as int))[0], head)
                    && sum == combine_left(present_values(pairs.take(i as int)).update(0, head)),
            decreases self.values@.len() - i,
        {
            let ghost before = present_values(pairs.take(i as int));
            assert(pairs.take(i + 1).drop_last() =~= pairs.take(i as int));
            assert(pairs.take(i + 1).last() == pairs[i as int]);
            match &self.values[i] {
                Some(value) => {
                    let ghost after = before.push(*value);
                    assert(present_values(pairs.take(i + 1)) == after);
                    total = match total {
                        None => {
                            let first = value.clone();
                            proof {
                                head = first;
                                assert(after.update(0, head) =~= seq![head]);
                            }
                            Some(first)
                        },
                        Some(sum) => {
                            proof {
                                assert(after.update(0, head).drop_last() =~= before.update(
                                    0,
                                    head,
                                ));
                                assert(after.update(0, head).last() == *value);
                            }
                            Some(sum.combine(value))
                        },
                    };
                },
                None => {},
            }
            i += 1;
        }
        assert(pairs.take(i as int) =~= pairs);
        total
    }
}

/// The canonical encoding of `event`, in a buffer of its own.
pub(crate) fn encode_event<D: FixedOutput>(event: &Event<D>) -> (bytes: Vec<u8>)
    ensures
        bytes@ == event@.encoding(),
{
    let mut buffer = vec![0u8; event.encoding_length()];
    // The buffer has the length of the encoding, so this does not fail.
    let _ = event.encode(buffer.as_mut_slice());
    assert(buffer@ =~= event@.encoding());
    buffer
}

/// The canonical encoding of `value`, in a buffer of its own.
pub(crate) fn encode_value<S: CanonicalEncoding>(value: &S) -> (bytes: Vec<u8>)
    ensures
        bytes@ == value.spec_encoding(),
{
    let mut buffer = vec![0u8; value.encoding_length()];
    // The buffer has the length of the encoding, so this does not fail.
    let _ = value.encode(buffer.as_mut_slice());
    assert(buffer@ =~= value.spec_encoding());
    buffer
}

/// The hash of the canonical encoding of `event`.
fn hash_event<D: Digest>(event: &Event<D>) -> (hash: Output<D>)
    ensures
        hash@ == event_hash::<D>(event@),
{
    D::digest(encode_event(event).as_slice())
}

/// The hash of the canonical encoding of `value`.
fn hash_value<D: Digest, S: CanonicalEncoding>(value: &S) -> (hash: Output<D>)
    ensures
        hash@ == D::spec_digest(value.spec_encoding()),
{
    D::digest(encode_value(value).as_slice())
}

/// The hashes of the events of `pairs`, each at the place of its event.
fn hash_events<D: Digest, S: Semigroup>(pairs: &Vec<EventPayloadPair<D, S>>) -> (hashes: Vec<
    Output<D>,
>)
    ensures
        hashes@.len() == pairs@.len(),
        forall|i: int|
            0 <= i < pairs@.len() ==> (#[trigger] hashes@[i])@ == event_hash::<D>(
                pairs@[i].event@,
            ),
{
    let mut hashes: Vec<Output<D>> = Vec::new();
    let mut i: usize = 0;
    while i < pairs.len()
        invariant
            i <= pairs@.len(),
            hashes@.len() == i,
            forall|j: int|
                0 <= j < i ==> (#[trigger] hashes@[j])@ == event_hash::<D>(pairs@[j].event@),
        decreases pairs@.len() - i,
    {
        hashes.push(hash_event(&pairs[i].event));
        i += 1;
    }
    hashes
}

/// Where the `i`-th of `count` items by descending depth stands in a list
/// that was transmitted in the given order.
fn position_of(i: usize, count: usize, ordering: Order) -> (p: usize)
    requires
        i < count,
    ensures
        p == position(i as int, count as int, ordering),
        p < count,
{
    match ordering {
        Order::Descending => i,
        Order::Ascending => count - 1 - i,
    }
}

/// Whether `event` has a link to `target` that a request for `path_length`
/// accepts.
fn event_links_to<D: FixedOutput>(
    event: &Event<D>,
    target: &Output<D>,
    path_length: PathLength,
) -> (linked: bool)
    ensures
        linked == links_to(event@, target@, path_length),
{
    match event {
        Event::Root { .. } => false,
        Event::Child { predecessor_event_link, skip_event_link, .. } => {
            if predecessor_event_link == target {
                true
            } else {
                match path_length {
                    PathLength::ShortestPath => skip_event_link == target,
                    PathLength::LongestPath => false,
                }
            }
        },
    }
}

/// Whether the sequence numbers of `event` and `next`, whose hash is
/// `target`, differ as the link between them asks.
fn event_step_matches_link<D: FixedOutput>(
    event: &Event<D>,
    next: &Event<D>,
    target: &Output<D>,
) -> (matches: bool)
    ensures
        matches == step_matches_link(event@, next@, target@),
{
    match event {
        Event::Root { .. } => false,
        Event::Child { sequence_number, predecessor_event_link, .. } => {
            let number = sequence_number.get();
            let next_number = next.sequence_number();
            if predecessor_event_link == target {
                number - 1 == next_number
            } else {
                number - 1 > next_number
            }
        },
    }
}

/// Whether `event`, whose hash is `hash`, is `old` or has a link to it.
fn event_reaches<D: Digest>(event: &Event<D>, hash: &Output<D>, old: &Output<D>) -> (reached: bool)
    requires
        hash@ == event_hash::<D>(event@),
    ensures
        reached == reaches::<D>(event@, old@),
{
    if hash == old {
        return true;
    }
    match event {
        Event::Root { .. } => false,
        Event::Child { predecessor_event_link, skip_event_link, .. } => predecessor_event_link
            == old || skip_event_link == old,
    }
}

/// What holds of the neighbours of an answer, for the three checks that look
/// at two events at a time.
struct Steps {
    depth_descends: bool,
    links_are_consistent: bool,
    sequence_numbers_are_consistent: bool,
}

/// Goes along the events by descending depth and looks at each with the one
/// after it.
fn check_steps<D: Digest, S: Semigroup>(
    pairs: &Vec<EventPayloadPair<D, S>>,
    hashes: &Vec<Output<D>>,
    ordering: Order,
    path_length: PathLength,
) -> (steps: Steps)
    requires
        pairs@.len() > 0,
        hashes@.len() == pairs@.len(),
        forall|i: int|
            0 <= i < pairs@.len() ==> (#[trigger] hashes@[i])@ == event_hash::<D>(
                pairs@[i].event@,
            ),
    ensures
        steps.depth_descends == depth_descends(chain(pairs_view(pairs@), ordering)),
        steps.links_are_consistent == links_are_consistent::<D>(
            chain(pairs_view(pairs@), ordering),
            path_length,
        ),
        steps.sequence_numbers_are_consistent == sequence_numbers_are_consistent::<D>(
            chain(pairs_view(pairs@), ordering),
        ),
{
    let count = pairs.len();
    let ghost chain = chain(pairs_view(pairs@), ordering);
    let mut depth = true;
    let mut links = true;
    let mut numbers = true;
    let mut children = true;
    let mut i: usize = 0;
    while i < count
        invariant
            i <= count,
            count == pairs@.len(),
            count == hashes@.len(),
            chain == crate::replication::response::chain(pairs_view(pairs@), ordering),
            forall|j: int|
                0 <= j < pairs@.len() ==> (#[trigger] hashes@[j])@ == event_hash::<D>(
                    pairs@[j].event@,
                ),
            depth == (forall|j: int|
                0 <= j < i && j < count - 1 ==> (#[trigger] chain[j]).sequence_number() > chain[j
                    + 1].sequence_number()),
            links == (forall|j: int|
                0 <= j < i && j < count - 1 ==> links_to(
                    #[trigger] chain[j],
                    event_hash::<D>(chain[j + 1]),
                    path_length,
                )),
            numbers == (forall|j: int|
                0 <= j < i && j < count - 1 ==> step_matches_link(
                    #[trigger] chain[j],
                    chain[j + 1],
                    event_hash::<D>(chain[j + 1]),
                )),
            children == (forall|j: int|
                0 <= j < i ==> ((#[trigger] chain[j]) is Child ==> chain[j].sequence_number()
                    >= 2)),
        decreases count - i,
    {
        let here = position_of(i, count, ordering);
        let event = &pairs[here].event;
        assert(event@ == chain[i as int]);
        let is_child = match event {
            Event::Root { .. } => false,
            Event::Child { .. } => true,
        };
        if is_child && event.sequence_number() < 2 {
            children = false;
        }
        if i + 1 < count {
            let there = position_of(i + 1, count, ordering);
            let next = &pairs[there].event;
            let target = &hashes[there];
            assert(next@ == chain[i + 1]);
            assert(target@ == event_hash::<D>(chain[i + 1]));
            if event.sequence_number() <= next.sequence_number() {
                depth = false;
            }
            if !event_links_to(event, target, path_length) {
                links = false;
            }
            if !event_step_matches_link(event, next, target) {
                numbers = false;
            }
        }
        i += 1;
    }
    Steps {
        depth_descends: depth,
        links_are_consistent: links,
        sequence_numbers_are_consistent: children && numbers,
    }
}

/// What holds of the values of an answer.
struct Payloads {
    lengths_match: bool,
    hashes_match: bool,
}

/// Holds each value against the size and the digest that its event gives.
fn check_payloads<D: Digest, S: Semigroup + CanonicalEncoding>(
    pairs: &Vec<EventPayloadPair<D, S>>,
) -> (payloads: Payloads)
    ensures
        payloads.lengths_match == payload_lengths_match(pairs_view(pairs@)),
        payloads.hashes_match == payload_hashes_match::<D, S>(pairs_view(pairs@)),
{
    let ghost views = pairs_view(pairs@);
    let mut lengths = true;
    let mut hashes = true;
    let mut i: usize = 0;
    while i < pairs.len()
        invariant
            i <= pairs@.len(),
            views == pairs_view(pairs@),
            lengths == (forall|j: int|
                0 <= j < i ==> ((#[trigger] views[j]).payload matches Some(value)
                    ==> value.spec_encoding().len() == views[j].event.size())),
            hashes == (forall|j: int|
                0 <= j < i ==> ((#[trigger] views[j]).payload matches Some(value)
                    ==> D::spec_digest(value.spec_encoding()) == views[j].event.delta_digest())),
        decreases pairs@.len() - i,
    {
        let pair = &pairs[i];
        assert(pair@ == views[i as int]);
        match &pair.payload {
            Some(value) => {
                if value.encoding_length() as u64 != pair.event.size() {
                    lengths = false;
                }
                let hash = hash_value::<D, S>(value);
                if &hash != pair.event.delta_digest() {
                    hashes = false;
                }
            },
            None => {},
        }
        i += 1;
    }
    Payloads { lengths_match: lengths, hashes_match: hashes }
}

/// Parts the pairs into events and values, each in the order of the pairs.
fn unzip<D: FixedOutput, S: Semigroup>(pairs: Vec<EventPayloadPair<D, S>>) -> (parts: (
    Vec<Event<D>>,
    Vec<Option<S>>,
))
    ensures
        parts.0@.len() == pairs@.len(),
        parts.1@.len() == pairs@.len(),
        forall|i: int| 0 <= i < pairs@.len() ==> #[trigger] parts.0@[i] == pairs@[i].event,
        forall|i: int| 0 <= i < pairs@.len() ==> #[trigger] parts.1@[i] == pairs@[i].payload,
{
    let mut pairs = pairs;
    let ghost all = pairs@;
    // taken from the back, the pairs come out in reverse; taken from the back
    // again, they come out as they were
    let mut reversed: Vec<EventPayloadPair<D, S>> = Vec::new();
    while pairs.len() > 0
        invariant
            pairs@.len() <= all.len(),
            pairs@ == all.subrange(0, pairs@.len() as int),
            reversed@.len() == all.len() - pairs@.len(),
            forall|j: int|
                0 <= j < reversed@.len() ==> #[trigger] reversed@[j] == all[all.len() - 1 - j],
        decreases pairs@.len(),
    {
        match pairs.pop() {
            Some(pair) => {
                reversed.push(pair);
            },
            None => {},
        }
    }
    let ghost back = reversed@;
    let mut events: Vec<Event<D>> = Vec::new();
    let mut values: Vec<Option<S>> = Vec::new();
    while reversed.len() > 0
        invariant
            back.len() == all.len(),
            forall|j: int| 0 <= j < back.len() ==> #[trigger] back[j] == all[all.len() - 1 - j],
            reversed@.len() <= back.len(),
            reversed@ == back.subrange(0, reversed@.len() as int),
            events@.len() == back.len() - reversed@.len(),
            values@.len() == events@.len(),
            forall|j: int| 0 <= j < events@.len() ==> #[trigger] events@[j] == all[j].event,
            forall|j: int| 0 <= j < values@.len() ==> #[trigger] values@[j] == all[j].payload,
        decreases reversed@.len(),
    {
        match reversed.pop() {
            Some(pair) => {
                events.push(pair.event);
                values.push(pair.payload);
            },
            None => {},
        }
    }
    (events, values)
}

impl<D: Digest, S: Semigroup + CanonicalEncoding> UnvalidatedResponse<D, S> {
    /// Checks the answer against the request that it answers and, where every
    /// check passes, hands its events and values over as a valid response.
    /// Where one fails, the error is that of the first that fails.
    pub fn try_into_valid_response(self, request: Request<D>) -> (r: Result<
        ValidResponse<D, S>,
        ResponseValidationError,
    >)
        ensures
            match r {
                Ok(valid) => validation::<D, S>(self@, request@) == Ok::<
                    (),
                    ResponseValidationError,
                >(()) && self@ == ResponseView::Data(valid@),
                Err(e) => validation::<D, S>(self@, request@) == Err::<
                    (),
                    ResponseValidationError,
                >(e),
            },
    {
        match self {
            Self::UnknownEvent => Err(ResponseValidationError::UnknownEvent),
            Self::Data(pairs) => {
                let count = pairs.len();
                if count == 0 {
                    return Err(ResponseValidationError::ExpectedAtLeastOneEventInEvents);
                }
                let ghost views = pairs_view(pairs@);
                let ghost chain = chain(views, request.ordering);
                let hashes = hash_events(&pairs);

                let newest = position_of(0, count, request.ordering);
                assert(pairs@[newest as int].event@ == chain[0]);
                if hashes[newest] != request.new {
                    return Err(ResponseValidationError::FirstEventHashDidNotMatchHashOfRequestNew);
                }
                let steps = check_steps(&pairs, &hashes, request.ordering, request.path_length);
                if !steps.depth_descends {
                    return Err(ResponseValidationError::OrderingViolation);
                }
                if !steps.links_are_consistent {
                    return Err(ResponseValidationError::LinkMismatch);
                }
                if !steps.sequence_numbers_are_consistent {
                    return Err(ResponseValidationError::SequenceNumberMismatch);
                }
                match &request.old {
                    Some(old) => {
                        let oldest = position_of(count - 1, count, request.ordering);
                        assert(pairs@[oldest as int].event@ == chain.last());
                        if !event_reaches(&pairs[oldest].event, &hashes[oldest], old) {
                            return Err(ResponseValidationError::OldEventNotReached);
                        }
                    },
                    None => {},
                }
                let payloads = check_payloads::<D, S>(&pairs);
                if !payloads.lengths_match {
                    return Err(ResponseValidationError::PayloadLengthMismatch);
                }
                if !payloads.hashes_match {
                    return Err(ResponseValidationError::PayloadHashMismatch);
                }
                let (events, values) = unzip(pairs);
                let valid = ValidResponse { events, values };
                assert(valid@ =~= views);
                Ok(valid)
            },
        }
    }
}

} // verus!
