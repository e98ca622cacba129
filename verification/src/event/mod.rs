//! Events: the nodes of the hash-linked log.

pub mod decode;
pub mod dto;
pub mod encode;
pub mod laws;

use crate::digest::{FixedOutput, Output};
use crate::varint;
use vstd::prelude::*;

verus! {

/// A position in the log: an integer that is not zero.
#[derive(Debug, Clone, Copy)]
pub struct SequenceNumber {
    value: u64,
}

impl View for SequenceNumber {
    type V = u64;

    closed spec fn view(&self) -> u64 {
        self.value
    }
}

impl SequenceNumber {
    #[verifier::type_invariant]
    spec fn is_not_zero(&self) -> bool {
        self.value != 0
    }

    /// The sequence number `value`, unless `value` is zero.
    pub fn new(value: u64) -> (number: Option<Self>)
        ensures
            value == 0 ==> number is None,
            value != 0 ==> (number matches Some(n) && n@ == value),
    {
        if value == 0 {
            None
        } else {
            Some(SequenceNumber { value })
        }
    }

    /// The integer that this sequence number holds.
    pub fn get(&self) -> (value: u64)
        ensures
            value == self@,
            value != 0,
    {
        proof {
            use_type_invariant(self);
        }
        self.value
    }
}

/// A node of the log. The root has sequence number 1 and no links; every
/// other node is a child.
#[derive(Debug)]
pub enum Event<D: FixedOutput> {
    Root {
        /// Hash of the encoded value of this event.
        delta_digest: Output<D>,
        /// Length in bytes of that encoded value.
        delta_size: u64,
    },
    Child {
        /// Position in the log. The first child has sequence number 2.
        sequence_number: SequenceNumber,
        /// Hash of the encoded predecessor.
        predecessor_event_link: Output<D>,
        /// Hash of the encoded value of this event.
        delta_digest: Output<D>,
        /// Length in bytes of that encoded value.
        delta_size: u64,
        /// Hash of an encoded ancestor further back; the predecessor's where
        /// the event has no skip link of its own.
        skip_event_link: Output<D>,
        /// Hash of the encoded value that combines what lies between the skip
        /// ancestor and this event.
        skip_delta_digest: Output<D>,
        /// Length in bytes of that encoded value.
        skip_delta_size: u64,
    },
}

/// An event as a mathematical value: its digests are byte strings.
pub enum EventView {
    Root { delta_digest: Seq<u8>, delta_size: u64 },
    Child {
        sequence_number: u64,
        predecessor_event_link: Seq<u8>,
        delta_digest: Seq<u8>,
        delta_size: u64,
        skip_event_link: Seq<u8>,
        skip_delta_digest: Seq<u8>,
        skip_delta_size: u64,
    },
}

impl EventView {
    /// Every digest of the event has `size` bytes.
    pub open spec fn has_digest_size(self, size: nat) -> bool {
        match self {
            EventView::Root { delta_digest, .. } => delta_digest.len() == size,
            EventView::Child {
                predecessor_event_link,
                delta_digest,
                skip_event_link,
                skip_delta_digest,
                ..
            } => {
                &&& predecessor_event_link.len() == size
                &&& delta_digest.len() == size
                &&& skip_event_link.len() == size
                &&& skip_delta_digest.len() == size
            },
        }
    }

    /// The sequence number of the event: 1 for the root.
    pub open spec fn sequence_number(self) -> u64 {
        match self {
            EventView::Root { .. } => 1,
            EventView::Child { sequence_number, .. } => sequence_number,
        }
    }

    /// The event is one of a log whose digests have `size` bytes: its digests
    /// have that size, and a child comes after the root.
    pub open spec fn wf(self, size: nat) -> bool {
        &&& self.has_digest_size(size)
        &&& self is Child ==> self.sequence_number() >= 2
    }

    /// A child has a skip link of its own: one that differs from its
    /// predecessor link.
    pub open spec fn has_independent_skip(self) -> bool {
        match self {
            EventView::Root { .. } => false,
            EventView::Child { predecessor_event_link, skip_event_link, .. } => skip_event_link
                != predecessor_event_link,
        }
    }

    /// A child without a skip link of its own repeats its own digest and size
    /// in the skip fields.
    pub open spec fn is_canonical(self) -> bool {
        match self {
            EventView::Root { .. } => true,
            EventView::Child {
                predecessor_event_link,
                delta_digest,
                delta_size,
                skip_event_link,
                skip_delta_digest,
                skip_delta_size,
                ..
            } => skip_event_link == predecessor_event_link ==> skip_delta_digest == delta_digest
                && skip_delta_size == delta_size,
        }
    }

    /// Hash of the event's own value.
    pub open spec fn delta_digest(self) -> Seq<u8> {
        match self {
            EventView::Root { delta_digest, .. } => delta_digest,
            EventView::Child { delta_digest, .. } => delta_digest,
        }
    }

    /// Length in bytes of the event's own value.
    pub open spec fn size(self) -> u64 {
        match self {
            EventView::Root { delta_size, .. } => delta_size,
            EventView::Child { delta_size, .. } => delta_size,
        }
    }

    /// The bytes of a child that follow its delta size: nothing where it has
    /// no skip link of its own, else skip link, skip digest and skip size.
    pub open spec fn skip_block(self) -> Seq<u8> {
        match self {
            EventView::Root { .. } => Seq::empty(),
            EventView::Child { skip_event_link, skip_delta_digest, skip_delta_size, .. } => {
                if self.has_independent_skip() {
                    skip_event_link + skip_delta_digest + varint::encoding(skip_delta_size)
                } else {
                    Seq::empty()
                }
            },
        }
    }

    /// The canonical encoding of the event.
    ///
    /// A root is a zero byte, its digest and its size. A child is its sequence
    /// number, its predecessor link, its digest, its size and its skip block.
    /// Sizes are varu64s; the sequence number is a non-zero varu64.
    pub open spec fn encoding(self) -> Seq<u8> {
        match self {
            EventView::Root { delta_digest, delta_size } => seq![0u8] + delta_digest
                + varint::encoding(delta_size),
            EventView::Child {
                sequence_number,
                predecessor_event_link,
                delta_digest,
                delta_size,
                ..
            } => varint::encoding_non_zero(sequence_number) + predecessor_event_link + delta_digest
                + varint::encoding(delta_size) + self.skip_block(),
        }
    }
}

impl<D: FixedOutput> View for Event<D> {
    type V = EventView;

    open spec fn view(&self) -> EventView {
        match self {
            Event::Root { delta_digest, delta_size } => EventView::Root {
                delta_digest: delta_digest@,
                delta_size: *delta_size,
            },
            Event::Child {
                sequence_number,
                predecessor_event_link,
                delta_digest,
                delta_size,
                skip_event_link,
                skip_delta_digest,
                skip_delta_size,
            } => EventView::Child {
                sequence_number: sequence_number@,
                predecessor_event_link: predecessor_event_link@,
                delta_digest: delta_digest@,
                delta_size: *delta_size,
                skip_event_link: skip_event_link@,
                skip_delta_digest: skip_delta_digest@,
                skip_delta_size: *skip_delta_size,
            },
        }
    }
}

impl<D: FixedOutput> Event<D> {
    /// Hash of the event's own value, whatever the variant.
    pub fn delta_digest(&self) -> (digest: &Output<D>)
        ensures
            digest@ == self@.delta_digest(),
    {
        match self {
            Self::Root { delta_digest: digest, .. } => digest,
            Self::Child { delta_digest: digest, .. } => digest,
        }
    }

    /// Length in bytes of the event's own value, whatever the variant.
    pub fn size(&self) -> (size: u64)
        ensures
            size == self@.size(),
    {
        match self {
            Self::Root { delta_size: size, .. } => *size,
            Self::Child { delta_size: size, .. } => *size,
        }
    }

    /// The sequence number of the event: 1 for the root.
    pub fn sequence_number(&self) -> (number: u64)
        ensures
            number == self@.sequence_number(),
            number != 0,
    {
        match self {
            Self::Root { .. } => 1,
            Self::Child { sequence_number, .. } => sequence_number.get(),
        }
    }
}

impl<D: FixedOutput> Clone for Event<D> {
    fn clone(&self) -> (out: Self)
        ensures
            out@ == self@,
    {
        match self {
            Self::Root { delta_digest, delta_size } => Self::Root {
                delta_digest: delta_digest.clone(),
                delta_size: *delta_size,
            },
            Self::Child {
                sequence_number,
                predecessor_event_link,
                delta_digest,
                delta_size,
                skip_event_link,
                skip_delta_digest,
                skip_delta_size,
            } => Self::Child {
                sequence_number: *sequence_number,
                predecessor_event_link: predecessor_event_link.clone(),
                delta_digest: delta_digest.clone(),
                delta_size: *delta_size,
                skip_event_link: skip_event_link.clone(),
                skip_delta_digest: skip_delta_digest.clone(),
                skip_delta_size: *skip_delta_size,
            },
        }
    }
}

impl<D: FixedOutput> PartialEq for Event<D> {
    /// Two events are equal where they are of the same variant and agree
    /// field by field.
    fn eq(&self, other: &Self) -> (same: bool) {
        match (self, other) {
            (
                Self::Root { delta_digest: l_delta_digest, delta_size: l_delta_size },
                Self::Root { delta_digest: r_delta_digest, delta_size: r_delta_size },
            ) => l_delta_digest == r_delta_digest && l_delta_size == r_delta_size,
            (
                Self::Child {
                    sequence_number: l_sequence_number,
                    delta_digest: l_delta_digest,
                    delta_size: l_delta_size,
                    predecessor_event_link: l_predecessor_event_link,
                    skip_event_link: l_skip_event_link,
                    skip_delta_digest: l_skip_delta_digest,
                    skip_delta_size: l_skip_delta_size,
                },
                Self::Child {
                    sequence_number: r_sequence_number,
                    delta_digest: r_delta_digest,
                    delta_size: r_delta_size,
                    predecessor_event_link: r_predecessor_event_link,
                    skip_event_link: r_skip_event_link,
                    skip_delta_digest: r_skip_delta_digest,
                    skip_delta_size: r_skip_delta_size,
                },
            ) => {
                l_sequence_number.get() == r_sequence_number.get() && l_delta_digest == r_delta_digest
                    && l_delta_size == r_delta_size && l_predecessor_event_link
                    == r_predecessor_event_link && l_skip_event_link == r_skip_event_link
                    && l_skip_delta_digest == r_skip_delta_digest && l_skip_delta_size
                    == r_skip_delta_size
            },
            _ => false,
        }
    }
}

impl<D: FixedOutput> vstd::std_specs::cmp::PartialEqSpecImpl for Event<D> {
    open spec fn obeys_eq_spec() -> bool {
        true
    }

    open spec fn eq_spec(&self, other: &Self) -> bool {
        self@ == other@
    }
}

} // verus!
