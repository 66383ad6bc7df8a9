//! The receiver: batches come in from the transport, go to ingest, and are
//! acknowledged only when ingest is through with them.

use crate::sync::compressed::{decode, CompressedCRDTOperations};
use crate::sync::ingest::IngestVerdict;
use crate::sync::operation::{ops_view, CRDTOperation};
use vstd::prelude::*;

verus! {

/// Where the receiver stands.
#[derive(Debug, Clone, Copy, PartialEq, Eq, Structural)]
pub enum ReceiverState {
    /// It waits for the transport.
    Waiting,
    /// It has handed a batch to ingest and waits for ingest to finish.
    Ingesting,
    /// Ingest hit a fatal error: nothing more is received.
    Halted,
}

/// What comes back from ingest, or from the transport in place of a batch.
#[derive(Debug, Clone, Copy, PartialEq, Eq, Structural)]
pub enum ReceiverEvent {
    /// What the transport delivered could not be decoded.
    Undecodable,
    /// Ingest has gone through the batch, with this verdict at its end.
    Ingested(IngestVerdict),
}

/// What the receiver does next.
#[derive(Debug, PartialEq, Eq)]
pub enum ReceiverAction {
    /// Nothing.
    Nothing,
    /// Hand these operations to ingest, in this order, and wake it.
    Forward(Vec<CRDTOperation>),
    /// Acknowledge the batch to the transport.
    Acknowledge,
    /// Drop the batch unacknowledged; it has to be asked for again.
    Discard,
    /// Leave the batch unacknowledged, so that the transport delivers it
    /// again.
    AwaitRedelivery,
    /// Stop and tell the host.
    Halt,
}

/// The receiver's state after an event.
pub open spec fn receiver_after(state: ReceiverState, event: ReceiverEvent) -> ReceiverState {
    match (state, event) {
        (ReceiverState::Ingesting, ReceiverEvent::Ingested(IngestVerdict::Halt)) => {
            ReceiverState::Halted
        },
        (ReceiverState::Ingesting, ReceiverEvent::Ingested(_)) => ReceiverState::Waiting,
        _ => state,
    }
}

impl ReceiverState {
    /// Takes in a batch from the transport. A waiting receiver decodes it
    /// and forwards its operations, in the batch's order, to ingest; one
    /// that is busy or halted leaves the batch alone.
    pub fn accept(self, batch: CompressedCRDTOperations) -> (next: (ReceiverState, ReceiverAction))
        ensures
            self == ReceiverState::Waiting ==> next.0 == ReceiverState::Ingesting && (
            next.1 matches ReceiverAction::Forward(ops) && ops_view(ops@) == decode(batch@)),
            self == ReceiverState::Ingesting ==> next.0 == ReceiverState::Ingesting && next.1
                == ReceiverAction::AwaitRedelivery,
            self == ReceiverState::Halted ==> next.0 == ReceiverState::Halted && next.1
                == ReceiverAction::Halt,
    {
        match self {
            ReceiverState::Waiting => (
                ReceiverState::Ingesting,
                ReceiverAction::Forward(batch.into_ops()),
            ),
            ReceiverState::Ingesting => (ReceiverState::Ingesting, ReceiverAction::AwaitRedelivery),
            ReceiverState::Halted => (ReceiverState::Halted, ReceiverAction::Halt),
        }
    }

    /// Takes one step on an event. A batch is acknowledged only once ingest
    /// has gone through all of it; after a failure that may pass it is left
    /// for redelivery; a fatal one halts the receiver. What could not be
    /// decoded is discarded.
    pub fn on(self, event: ReceiverEvent) -> (next: (ReceiverState, ReceiverAction))
        ensures
            next.0 == receiver_after(self, event),
            next.1 == match (self, event) {
                (ReceiverState::Halted, _) => ReceiverAction::Halt,
                (_, ReceiverEvent::Undecodable) => ReceiverAction::Discard,
                (ReceiverState::Ingesting, ReceiverEvent::Ingested(IngestVerdict::Continue)) => {
                    ReceiverAction::Acknowledge
                },
                (ReceiverState::Ingesting, ReceiverEvent::Ingested(IngestVerdict::Retry)) => {
                    ReceiverAction::AwaitRedelivery
                },
                (ReceiverState::Ingesting, ReceiverEvent::Ingested(IngestVerdict::Halt)) => {
                    ReceiverAction::Halt
                },
                (ReceiverState::Waiting, ReceiverEvent::Ingested(_)) => ReceiverAction::Nothing,
            },
    {
        match (self, event) {
            (ReceiverState::Halted, _) => (ReceiverState::Halted, ReceiverAction::Halt),
            (_, ReceiverEvent::Undecodable) => (self, ReceiverAction::Discard),
            (ReceiverState::Ingesting, ReceiverEvent::Ingested(IngestVerdict::Continue)) => (
                ReceiverState::Waiting,
                ReceiverAction::Acknowledge,
            ),
            (ReceiverState::Ingesting, ReceiverEvent::Ingested(IngestVerdict::Retry)) => (
                ReceiverState::Waiting,
                ReceiverAction::AwaitRedelivery,
            ),
            (ReceiverState::Ingesting, ReceiverEvent::Ingested(IngestVerdict::Halt)) => (
                ReceiverState::Halted,
                ReceiverAction::Halt,
            ),
            (ReceiverState::Waiting, ReceiverEvent::Ingested(_)) => (
                ReceiverState::Waiting,
                ReceiverAction::Nothing,
            ),
        }
    }
}

} // verus!
