//! What holds of the checks on an answer, and of its transfer form.

use crate::digest::Digest;
use crate::event::laws::lemma_decoding_of_encoding;
use crate::event::EventView;
use crate::replication::request::{Order, RequestView};
use crate::replication::response::dto::{
    decoded, decoded_pair, decoded_pairs, encoded, encoded_pair, ErrorView,
};
use crate::replication::response::{
    chain, depth_descends, ends_at, event_hash, links_are_consistent, payload_hashes_match,
    payload_lengths_match, position, present_values, sequence_numbers_are_consistent, starts_at,
    validation, EventPayloadPairView, ResponseView,
};
use crate::semigroup::{combine_left, combine_right, lemma_combine_left_is_right, Semigroup};
use crate::CanonicalEncoding;
use vstd::prelude::*;

verus! {

/// Every check on an answer to `request` passes.
pub open spec fn meets_obligations<D: Digest, S: CanonicalEncoding>(
    response: ResponseView<S>,
    request: RequestView,
) -> bool {
    &&& response matches ResponseView::Data(pairs)
    &&& pairs.len() > 0
    &&& starts_at::<D>(chain(pairs, request.ordering), request.new)
    &&& depth_descends(chain(pairs, request.ordering))
    &&& links_are_consistent::<D>(chain(pairs, request.ordering), request.path_length)
    &&& sequence_numbers_are_consistent::<D>(chain(pairs, request.ordering))
    &&& ends_at::<D>(chain(pairs, request.ordering), request.old)
    &&& payload_lengths_match(pairs)
    &&& payload_hashes_match::<D, S>(pairs)
}

/// An answer is accepted where it meets every obligation, and only there.
pub proof fn lemma_accepted_iff_obligations_met<D: Digest, S: CanonicalEncoding>(
    response: ResponseView<S>,
    request: RequestView,
)
    ensures
        validation::<D, S>(response, request) is Ok <==> meets_obligations::<D, S>(
            response,
            request,
        ),
{
}

/// A log as one honest writer builds it: a root, then children that each
/// count one more than the event before and link to its hash, and no value
/// but the one that its event names.
pub open spec fn is_honest_log<D: Digest, S: CanonicalEncoding>(
    log: Seq<EventPayloadPairView<S>>,
) -> bool {
    &&& log.len() > 0
    &&& log[0].event is Root
    &&& forall|k: int|
        1 <= k < log.len() ==> ((#[trigger] log[k]).event matches EventView::Child {
            sequence_number,
            predecessor_event_link,
            ..
        } && sequence_number == k + 1 && predecessor_event_link == event_hash::<D>(
            log[k - 1].event,
        ))
    &&& payload_lengths_match(log)
    &&& payload_hashes_match::<D, S>(log)
}

/// The events of `log` from position `newest` back to position `oldest`, in
/// the order that `ordering` names.
pub open spec fn honest_answer<S>(
    log: Seq<EventPayloadPairView<S>>,
    oldest: int,
    newest: int,
    ordering: Order,
) -> Seq<EventPayloadPairView<S>> {
    Seq::new(
        (newest - oldest + 1) as nat,
        |p: int| log[newest - position(p, newest - oldest + 1, ordering)],
    )
}

/// The answer of an honest server is accepted: the events of an honest log
/// from the one that was asked for back to the one that the client has, to
/// the one after it, or, where the client named none, to any event.
pub proof fn lemma_honest_answer_is_accepted<D: Digest, S: CanonicalEncoding>(
    log: Seq<EventPayloadPairView<S>>,
    oldest: int,
    newest: int,
    request: RequestView,
)
    requires
        is_honest_log::<D, S>(log),
        0 <= oldest <= newest < log.len(),
        request.new == event_hash::<D>(log[newest].event),
        request.old matches Some(old) ==> old == event_hash::<D>(log[oldest].event) || (oldest
            >= 1 && old == event_hash::<D>(log[oldest - 1].event)),
    ensures
        validation::<D, S>(
            ResponseView::Data(honest_answer(log, oldest, newest, request.ordering)),
            request,
        ) is Ok,
{
    let count = newest - oldest + 1;
    let pairs = honest_answer(log, oldest, newest, request.ordering);
    let events = chain(pairs, request.ordering);
    assert forall|i: int| 0 <= i < count implies #[trigger] events[i] == log[newest - i].event by {
        let p = position(i, count, request.ordering);
        assert(position(p, count, request.ordering) == i);
        assert(pairs[p] == log[newest - i]);
    }
    assert(events.last() == events[count - 1]);
    assert forall|p: int| 0 <= p < count implies ((#[trigger] pairs[p]).payload matches Some(value)
        ==> value.spec_encoding().len() == pairs[p].event.size() && D::spec_digest(
        value.spec_encoding(),
    ) == pairs[p].event.delta_digest()) by {
        let k = newest - position(p, count, request.ordering);
        assert(pairs[p] == log[k]);
    }
    assert forall|i: int| 0 <= i < count && (#[trigger] events[i]) is Child implies events[i].sequence_number()
        >= 2 by {
        assert(events[i] == log[newest - i].event);
    }
    lemma_accepted_iff_obligations_met::<D, S>(ResponseView::Data(pairs), request);
}

/// The values of a valid response combine to the same value from the left
/// and from the right.
pub proof fn lemma_combined_values_from_either_side<S: Semigroup>(
    pairs: Seq<EventPayloadPairView<S>>,
)
    requires
        present_values(pairs).len() > 0,
    ensures
        combine_left(present_values(pairs)) == combine_right(present_values(pairs)),
{
    lemma_combine_left_is_right(present_values(pairs));
}

/// Every event of the pairs is one of a log with digests of `size` bytes, in
/// canonical form.
pub open spec fn holds_canonical_events<S>(pairs: Seq<EventPayloadPairView<S>>, size: nat) -> bool {
    forall|i: int|
        0 <= i < pairs.len() ==> (#[trigger] pairs[i]).event.wf(size)
            && pairs[i].event.is_canonical()
}

/// Decoding the transfer form of a pair gives the pair back.
pub proof fn lemma_decoded_pair_of_encoded<S: CanonicalEncoding>(
    pair: EventPayloadPairView<S>,
    size: nat,
)
    requires
        pair.event.wf(size),
        pair.event.is_canonical(),
    ensures
        decoded_pair::<S>(encoded_pair(pair), size) == Ok::<EventPayloadPairView<S>, ErrorView>(
            pair,
        ),
{
    lemma_decoding_of_encoding(pair.event, size);
    if let Some(value) = pair.payload {
        value.lemma_decoding_of_encoding();
    }
}

/// Decoding the transfer forms of pairs gives the pairs back.
pub proof fn lemma_decoded_pairs_of_encoded<S: CanonicalEncoding>(
    pairs: Seq<EventPayloadPairView<S>>,
    size: nat,
)
    requires
        holds_canonical_events(pairs, size),
    ensures
        decoded_pairs::<S>(Seq::new(pairs.len(), |i: int| encoded_pair(pairs[i])), size) == Ok::<
            Seq<EventPayloadPairView<S>>,
            ErrorView,
        >(pairs),
    decreases pairs.len(),
{
    let all = Seq::new(pairs.len(), |i: int| encoded_pair(pairs[i]));
    if pairs.len() > 0 {
        let rest = pairs.skip(1);
        assert forall|i: int| 0 <= i < rest.len() implies (#[trigger] rest[i]).event.wf(size)
            && rest[i].event.is_canonical() by {
            assert(rest[i] == pairs[i + 1]);
        }
        lemma_decoded_pairs_of_encoded(rest, size);
        lemma_decoded_pair_of_encoded(pairs[0], size);
        assert(all.skip(1) =~= Seq::new(rest.len(), |i: int| encoded_pair(rest[i])));
        assert(seq![pairs[0]] + rest =~= pairs);
    } else {
        assert(pairs =~= Seq::empty());
    }
}

/// Decoding the transfer form of a response gives the response back, where
/// its events are in canonical form.
pub proof fn lemma_decoded_of_encoded<S: CanonicalEncoding>(response: ResponseView<S>, size: nat)
    requires
        response matches ResponseView::Data(pairs) ==> holds_canonical_events(pairs, size),
    ensures
        decoded::<S>(encoded(response), size) == Ok::<ResponseView<S>, ErrorView>(response),
{
    if let ResponseView::Data(pairs) = response {
        lemma_decoded_pairs_of_encoded(pairs, size);
    }
}

} // verus!
