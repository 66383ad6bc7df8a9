//! The sender: what it has yet to send, and how its marker moves.

use crate::sync::compressed::{encode, CompressedCRDTOperations};
use crate::ident::same_id;
use crate::sync::ingest::{highest, lemma_highest_bounds};
use crate::sync::log::{made_after, since, OperationLog};
use crate::sync::operation::{ops_view, CRDTOperation, OperationView};
use crate::sync::timestamp::NTP64;
use uuid::Uuid;
use vstd::prelude::*;

verus! {

/// The marker as a number: -1 while nothing was acknowledged.
pub open spec fn marker_value(marker: Option<NTP64>) -> int {
    match marker {
        Some(stamp) => stamp@ as int,
        None => -1,
    }
}

/// The mathematical value of a sender.
pub struct SenderView {
    /// The instance whose operations it sends.
    pub instance: Uuid,
    /// The highest timestamp whose receipt was acknowledged, or -1.
    pub marker: int,
    /// The highest timestamp of the batch that is on its way, or -1 where
    /// none is.
    pub in_flight: int,
}

/// What the sender does when it wakes.
#[derive(Debug, PartialEq, Eq)]
pub enum SendAction {
    /// Nothing is unsent: go back to waiting.
    Wait,
    /// Hand this batch to the transport.
    Transmit(CompressedCRDTOperations),
}

/// The sender of one instance.
pub struct Sender {
    instance: Uuid,
    last_sent: Option<NTP64>,
    in_flight: Option<NTP64>,
}

impl View for Sender {
    type V = SenderView;

    closed spec fn view(&self) -> SenderView {
        SenderView {
            instance: self.instance,
            marker: marker_value(self.last_sent),
            in_flight: marker_value(self.in_flight),
        }
    }
}

impl Sender {
    /// A sender for `instance` that picks up after `last_sent`, the last
    /// timestamp that was acknowledged, if any.
    pub fn new(instance: Uuid, last_sent: Option<NTP64>) -> (sender: Sender)
        ensures
            sender@ == (SenderView { instance, marker: marker_value(last_sent), in_flight: -1 }),
    {
        Sender { instance, last_sent, in_flight: None }
    }

    /// The last timestamp whose receipt was acknowledged.
    pub fn last_sent(&self) -> (marker: Option<NTP64>)
        ensures
            marker_value(marker) == self@.marker,
    {
        self.last_sent
    }

    /// The operations of the sender's instance that the log holds beyond
    /// the marker, in the order of the log.
    pub fn pending(&self, log: &OperationLog) -> (batch: Vec<CRDTOperation>)
        ensures
            ops_view(batch@) == since(log@.ops, self@.instance, self@.marker),
    {
        let ops = log.operations();
        let mut batch: Vec<CRDTOperation> = Vec::new();
        let ghost all = ops_view(ops@);
        let ghost test = made_after(self.instance, marker_value(self.last_sent));
        proof {
            reveal(Seq::filter);
            assert(all.take(0) =~= Seq::empty());
            assert(ops_view(batch@) =~= Seq::empty());
        }
        let mut i: usize = 0;
        while i < ops.len()
            invariant
                0 <= i <= ops.len(),
                all == ops_view(ops@),
                test == made_after(self.instance, marker_value(self.last_sent)),
                ops_view(batch@) == all.take(i as int).filter(test),
            decreases ops.len() - i,
        {
            let op = &ops[i];
            let ghost found = ops_view(batch@);
            proof {
                reveal(Seq::filter);
                assert(all.take(i + 1).drop_last() =~= all.take(i as int));
                assert(all.take(i + 1).last() == op@);
            }
            let later = match self.last_sent {
                Some(marker) => op.timestamp.is_after(&marker),
                None => true,
            };
            if same_id(&op.instance, &self.instance) && later {
                batch.push(op.clone());
                proof {
                    assert(ops_view(batch@) =~= found.push(op@));
                }
            }
            i = i + 1;
        }
        proof {
            assert(all.take(ops.len() as int) =~= all);
        }
        batch
    }

    /// Wakes the sender, on its timer or on word of a new local operation.
    /// Where the log holds operations beyond the marker they are encoded,
    /// in their order, into one batch for the transport, and the sender
    /// notes the highest timestamp among them; else it goes back to
    /// waiting. The log is only read.
    pub fn wake(&mut self, log: &OperationLog) -> (action: SendAction)
        ensures
            final(self)@.instance == old(self)@.instance,
            final(self)@.marker == old(self)@.marker,
            ({
                let batch = since(log@.ops, old(self)@.instance, old(self)@.marker);
                if batch.len() == 0 {
                    action == SendAction::Wait && final(self)@.in_flight == -1
                } else {
                    &&& action matches SendAction::Transmit(sent)
                    &&& sent@ == encode(batch)
                    &&& final(self)@.in_flight == highest(batch, old(self)@.instance)
                }
            }),
    {
        let batch = self.pending(log);
        if batch.len() == 0 {
            self.in_flight = None;
            return SendAction::Wait;
        }
        let top = latest(&batch, &self.instance);
        self.in_flight = top;
        SendAction::Transmit(CompressedCRDTOperations::new(batch))
    }

    /// The transport has acknowledged the batch that was on its way: the
    /// marker moves up to the highest timestamp that the batch held.
    pub fn acknowledged(&mut self)
        ensures
            final(self)@.instance == old(self)@.instance,
            final(self)@.in_flight == -1,
            final(self)@.marker == if old(self)@.in_flight > old(self)@.marker {
                old(self)@.in_flight
            } else {
                old(self)@.marker
            },
    {
        match (self.in_flight, self.last_sent) {
            (Some(sent), Some(marker)) => {
                if sent.is_after(&marker) {
                    self.last_sent = Some(sent);
                }
            },
            (Some(sent), None) => {
                self.last_sent = Some(sent);
            },
            _ => {},
        }
        self.in_flight = None;
    }

    /// The transport has failed to deliver the batch that was on its way:
    /// the marker stays where it is, so that the next wake sends the same
    /// operations again, with any that were made since.
    pub fn failed(&mut self)
        ensures
            final(self)@.instance == old(self)@.instance,
            final(self)@.in_flight == -1,
            final(self)@.marker == old(self)@.marker,
    {
        self.in_flight = None;
    }
}

/// The highest timestamp that `instance` has in a run of operations.
pub fn latest(ops: &Vec<CRDTOperation>, instance: &Uuid) -> (top: Option<NTP64>)
    ensures
        marker_value(top) == highest(ops_view(ops@), *instance),
{
    let mut top: Option<NTP64> = None;
    let ghost all = ops_view(ops@);
    proof {
        assert(all.take(0) =~= Seq::empty());
    }
    let mut i: usize = 0;
    while i < ops.len()
        invariant
            0 <= i <= ops.len(),
            all == ops_view(ops@),
            marker_value(top) == highest(all.take(i as int), *instance),
        decreases ops.len() - i,
    {
        let op = &ops[i];
        proof {
            assert(all.take(i + 1).drop_last() =~= all.take(i as int));
            assert(all.take(i + 1).last() == op@);
        }
        if same_id(&op.instance, instance) {
            let higher = match top {
                Some(best) => op.timestamp.is_after(&best),
                None => true,
            };
            if higher {
                top = Some(op.timestamp);
            }
        }
        i = i + 1;
    }
    proof {
        assert(all.take(ops.len() as int) =~= all);
    }
    top
}

/// At-least-once delivery, when a send fails: with the marker unmoved, what
/// is unsent after more operations were logged is what was unsent before,
/// followed by the new ones.
pub proof fn lemma_retry_resends(
    ops: Seq<OperationView>,
    more: Seq<OperationView>,
    instance: Uuid,
    marker: int,
)
    ensures
        since(ops + more, instance, marker) == since(ops, instance, marker) + since(
            more,
            instance,
            marker,
        ),
{
    Seq::filter_distributes_over_add(ops, more, made_after(instance, marker));
}

/// Once a batch was acknowledged and the marker moved to its highest
/// timestamp, nothing of what the log held is unsent.
pub proof fn lemma_acknowledged_is_sent(ops: Seq<OperationView>, instance: Uuid, marker: int)
    requires
        since(ops, instance, marker).len() > 0,
    ensures
        since(ops, instance, highest(since(ops, instance, marker), instance)).len() == 0,
{
    let batch = since(ops, instance, marker);
    let top = highest(batch, instance);
    let left = since(ops, instance, top);
    if left.len() > 0 {
        let op = left[0];
        ops.lemma_filter_pred(made_after(instance, top), 0);
        assert(left.contains(op));
        ops.lemma_filter_contains_rev(made_after(instance, top), op);
        let k = choose|k: int| 0 <= k < ops.len() && ops[k] == op;
        lemma_highest_bounds(batch, 0);
        ops.lemma_filter_pred(made_after(instance, marker), 0);
        assert(made_after(instance, marker)(batch[0]));
        assert(top > marker);
        assert(made_after(instance, marker)(ops[k]));
        ops.lemma_filter_contains(made_after(instance, marker), k);
        let at = choose|at: int| 0 <= at < batch.len() && batch[at] == op;
        lemma_highest_bounds(batch, at);
    }
}

} // verus!
