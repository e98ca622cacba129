//! The request of a client.

pub mod dto;

use crate::digest::{FixedOutput, Output};
use vstd::prelude::*;

verus! {

/// The order in which events and values are transmitted.
#[derive(Debug, Clone, Copy, PartialEq, Eq, Structural)]
pub enum Order {
    /// the items in order of ascending depth
    Ascending,
    /// the items in order of descending depth
    Descending,
}

/// Specifies which items are of interest to the client
#[derive(Debug, Clone, Copy, PartialEq, Eq, Structural)]
pub enum PathLength {
    /// the items along the shortest path
    ShortestPath,
    /// the items along the longest path
    LongestPath,
}

/// Describes which data the client wants from the server.
#[derive(Debug)]
pub struct Request<D: FixedOutput> {
    /// The hash of the magma event for which the client wants to obtain the accumulated value.
    pub new: Output<D>,
    /// The hash of the latest magma event for which the client already knows the accumulated value if available.
    pub old: Option<Output<D>>,
    /// Specifies in which order events and values should be transmitted.
    pub ordering: Order,
    /// Specifies whether to only return the shortest path or the longest path between `new` and
    /// `old`
    pub path_length: PathLength,
    /// Should the response include the values
    pub include_values: bool,
}

/// A request as a mathematical value: its digests are byte strings.
pub struct RequestView {
    pub new: Seq<u8>,
    pub old: Option<Seq<u8>>,
    pub ordering: Order,
    pub path_length: PathLength,
    pub include_values: bool,
}

impl<D: FixedOutput> View for Request<D> {
    type V = RequestView;

    open spec fn view(&self) -> RequestView {
        RequestView {
            new: self.new@,
            old: match self.old {
                Some(old) => Some(old@),
                None => None,
            },
            ordering: self.ordering,
            path_length: self.path_length,
            include_values: self.include_values,
        }
    }
}

} // verus!
