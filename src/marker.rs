//! Markers (reaction tokens attached to a message) and the events that an
//! actor produces by adding or removing them.

use vstd::prelude::*;

verus! {

/// A token that can be attached to a message: a plain unicode symbol, or a
/// custom emoji known by its numeric id.
#[derive(Clone, Copy, Debug, PartialEq, Eq, Structural)]
pub enum Marker {
    Unicode(char),
    Custom(u64),
}

/// The affirm marker (a white check mark on a green square).
pub open spec fn affirm_spec() -> Marker {
    Marker::Unicode('\u{2705}')
}

/// The deny marker (a red cross).
pub open spec fn deny_spec() -> Marker {
    Marker::Unicode('\u{274C}')
}

pub fn affirm_marker() -> (m: Marker)
    ensures
        m == affirm_spec(),
{
    Marker::Unicode('\u{2705}')
}

pub fn deny_marker() -> (m: Marker)
    ensures
        m == deny_spec(),
{
    Marker::Unicode('\u{274C}')
}

/// Whether a marker was attached or taken away.
#[derive(Clone, Copy, Debug, PartialEq, Eq, Structural)]
pub enum EventKind {
    Add,
    Remove,
}

/// One observed add or remove of a marker by an actor, at a time given in
/// seconds.
#[derive(Clone, Copy, Debug, PartialEq, Eq, Structural)]
pub struct ReactionEvent {
    pub marker: Marker,
    pub kind: EventKind,
    pub actor: u64,
    pub timestamp: u64,
}

impl ReactionEvent {
    pub fn new(marker: Marker, kind: EventKind, actor: u64, timestamp: u64) -> (r: Self)
        ensures
            r == (ReactionEvent { marker, kind, actor, timestamp }),
    {
        ReactionEvent { marker, kind, actor, timestamp }
    }
}

} // verus!
