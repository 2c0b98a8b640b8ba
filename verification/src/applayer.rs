//! Common types shared by the per-protocol state machines: the result code
//! a parsing entry point hands back to the host engine, the opaque
//! detection-state slot a transaction carries, and the per-transaction
//! decoder event list.

use vstd::prelude::*;

verus! {

/// Result of one call to a parsing entry point. `status == 0` means the
/// record was consumed; a nonzero status means insufficient or malformed
/// input for this call, which is not necessarily fatal to the session.
#[derive(Clone, Copy, Debug, PartialEq, Eq, Structural)]
pub struct AppLayerResult {
    pub status: i8,
}

impl AppLayerResult {
    pub fn ok() -> (r: AppLayerResult)
        ensures
            r.status == 0,
    {
        AppLayerResult { status: 0 }
    }

    pub fn err() -> (r: AppLayerResult)
        ensures
            r.status == -1,
    {
        AppLayerResult { status: -1 }
    }

    pub fn is_ok(&self) -> (r: bool)
        ensures
            r == (self.status == 0),
    {
        self.status == 0
    }
}

/// Whether an anomaly event attaches to a single transaction or to the
/// whole flow.
#[derive(Clone, Copy, Debug, PartialEq, Eq, Structural)]
pub enum AppLayerEventType {
    Packet,
    Transaction,
}

/// Opaque handle the detection engine may attach to a transaction. The
/// transaction owns the slot; it is released on transaction destruction.
#[derive(Clone, Copy, Debug, PartialEq, Eq, Structural)]
pub struct DetectEngineState {
    pub token: u64,
}

/// Ordered collection of anomaly event codes attached to a transaction or a
/// state during parsing.
#[derive(Clone, Debug)]
pub struct AppLayerDecoderEvents {
    pub events: Vec<u8>,
}

impl AppLayerDecoderEvents {
    pub fn new() -> (r: AppLayerDecoderEvents)
        ensures
            r.events@ =~= Seq::<u8>::empty(),
    {
        AppLayerDecoderEvents { events: Vec::new() }
    }

    /// Append an event code; earlier events keep their position.
    pub fn set_event_raw(&mut self, event: u8)
        ensures
            final(self).events@ =~= old(self).events@.push(event),
    {
        self.events.push(event);
    }

    pub fn len(&self) -> (n: usize)
        ensures
            n == self.events@.len(),
    {
        self.events.len()
    }
}

} // verus!
