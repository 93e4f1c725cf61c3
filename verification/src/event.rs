//! Events and the delivery acknowledgments derived from them.

use vstd::prelude::*;

verus! {

/// One unit of delivery: a batch of structured values plus metadata.
///
/// The sink never looks inside a value; values are opaque to it and only the
/// codec interprets them. `ingest_ns` is the ingest timestamp handed to the
/// postprocessors, and `id` identifies the event in acknowledgments.
pub struct Event<V> {
    pub id: u64,
    pub ingest_ns: u64,
    pub values: Vec<V>,
}

/// A delivery signal routed back upstream: positive for an acknowledged
/// event, negative for a failed one.
#[derive(Clone, Copy, Debug, PartialEq, Eq, Structural)]
pub struct Insight {
    pub id: u64,
    pub positive: bool,
}

/// A reply the sink hands back to the pipeline after handling a call.
#[derive(Clone, Copy, Debug, PartialEq, Eq, Structural)]
pub enum Reply {
    Insight(Insight),
}

/// The positive acknowledgment derived from an event.
pub open spec fn ack_of<V>(event: Event<V>) -> Insight {
    Insight { id: event.id, positive: true }
}

impl<V> Event<V> {
    /// Derive the acknowledgment-of-delivery signal for this event.
    pub fn insight_ack(&self) -> (r: Insight)
        ensures
            r == ack_of(*self),
    {
        Insight { id: self.id, positive: true }
    }
}

} // verus!
