//! One scheduled firing: at frame `start_at` of the cycle, the emitter
//! with id `thread_id` fires.
use vstd::prelude::*;

verus! {

/// A frame-indexed fire event for one emitter.
#[derive(Debug, Clone, Copy, PartialEq, Eq, Structural)]
pub struct Event {
    pub thread_id: u32,
    pub start_at: u32,
    pub end_at: u32,
}

impl Event {
    /// Builds an event record.
    pub fn new(thread_id: u32, start_at: u32, end_at: u32) -> (e: Event)
        ensures
            e.thread_id == thread_id,
            e.start_at == start_at,
            e.end_at == end_at,
    {
        Event { thread_id, start_at, end_at }
    }
}

} // verus!
