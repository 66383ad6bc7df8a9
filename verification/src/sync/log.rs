//! The operation log of one instance: the operations that it made and those
//! that it took in from others, in the order in which it came by them.

use crate::sync::clock::{is_new_in, mark_in, marks_of, observed, ticked, Clock};
use crate::ident::same_id;
use crate::sync::operation::{ops_view, CRDTOperation, CRDTOperationData, OperationView};
use crate::sync::timestamp::NTP64;
use serde_json::Value;
use uuid::Uuid;
use vstd::prelude::*;

verus! {

/// The mathematical value of a log.
pub struct LogView {
    /// The instance that owns the log.
    pub instance: Uuid,
    /// The high-water mark of every known instance.
    pub marks: Map<Uuid, u64>,
    /// The operations, oldest first.
    pub ops: Seq<OperationView>,
}

/// The test by which an operation belongs to what `instance` made after
/// `after`, a timestamp or -1 for the beginning.
pub open spec fn made_after(instance: Uuid, after: int) -> spec_fn(OperationView) -> bool {
    |op: OperationView| op.instance == instance && op.timestamp > after
}

/// The operations of `instance` that are stamped after `after`, a timestamp
/// or -1 for the beginning, in the order of the log.
pub open spec fn since(ops: Seq<OperationView>, instance: Uuid, after: int) -> Seq<OperationView> {
    ops.filter(made_after(instance, after))
}

/// The timestamps of each instance's operations rise strictly along the
/// log.
pub open spec fn rising(ops: Seq<OperationView>) -> bool {
    forall|i: int, j: int|
        0 <= i < j < ops.len() && ops[i].instance == ops[j].instance ==> ops[i].timestamp
            < ops[j].timestamp
}

/// No operation of the log is stamped beyond the mark of its instance.
pub open spec fn covered(marks: Map<Uuid, u64>, ops: Seq<OperationView>) -> bool {
    forall|i: int| 0 <= i < ops.len() ==> (#[trigger] ops[i]).timestamp <= mark_in(
        marks,
        ops[i].instance,
    )
}

/// The operation that the owner of a log makes.
pub open spec fn local_operation(
    instance: Uuid,
    timestamp: u64,
    id: Uuid,
    model: Seq<char>,
    record_id: Value,
    data: CRDTOperationData,
) -> OperationView {
    OperationView { instance, timestamp, id, model, record_id, data: data@ }
}

/// The operation log of one instance, with the clock that stamps it.
pub struct OperationLog {
    instance: Uuid,
    clock: Clock,
    ops: Vec<CRDTOperation>,
}

impl View for OperationLog {
    type V = LogView;

    closed spec fn view(&self) -> LogView {
        LogView { instance: self.instance, marks: self.clock@, ops: ops_view(self.ops@) }
    }
}

impl OperationLog {
    #[verifier::type_invariant]
    spec fn ordered(self) -> bool {
        &&& rising(ops_view(self.ops@))
        &&& covered(self.clock@, ops_view(self.ops@))
    }

    /// An empty log owned by `instance`, its clock seeded with the last
    /// timestamp recorded for each known instance.
    pub fn new(instance: Uuid, seed: Vec<(Uuid, NTP64)>) -> (log: Self)
        ensures
            log@ == (LogView {
                instance,
                marks: marks_of(seed@),
                ops: Seq::empty(),
            }),
    {
        let log = OperationLog { instance, clock: Clock::seeded(seed), ops: Vec::new() };
        proof {
            assert(ops_view(log.ops@) =~= Seq::empty());
        }
        log
    }

    /// The instance that owns the log.
    pub fn instance(&self) -> (instance: Uuid)
        ensures
            instance == self@.instance,
    {
        self.instance
    }

    /// The clock state.
    pub fn clock(&self) -> (clock: &Clock)
        ensures
            clock@ == self@.marks,
    {
        &self.clock
    }

    /// The operations of the log, oldest first. Along them the timestamps of
    /// each instance rise strictly, and none lies beyond its instance's
    /// mark.
    pub fn operations(&self) -> (ops: &Vec<CRDTOperation>)
        ensures
            ops_view(ops@) == self@.ops,
            rising(self@.ops),
            covered(self@.marks, self@.ops),
    {
        proof {
            use_type_invariant(self);
        }
        &self.ops
    }

    /// Whether `timestamp` would advance the mark of `instance`.
    pub fn is_new(&self, instance: &Uuid, timestamp: NTP64) -> (new: bool)
        ensures
            new == is_new_in(self@.marks, *instance, timestamp@),
    {
        self.clock.is_new(instance, timestamp)
    }

    /// Makes the owner's next operation: ticks the clock for the owner when
    /// the wall clock reads `now_ms`, stamps the change with the result, and
    /// appends the operation to the log. `None`, with the log unchanged,
    /// when the clock has no timestamp left to give.
    pub fn append_local(
        &mut self,
        model: String,
        record_id: Value,
        data: CRDTOperationData,
        id: Uuid,
        now_ms: u64,
    ) -> (made: Option<CRDTOperation>)
        ensures
            final(self)@.instance == old(self)@.instance,
            match ticked(old(self)@.marks, old(self)@.instance, now_ms) {
                Some(timestamp) => {
                    &&& made.is_some()
                    &&& made.unwrap()@ == local_operation(
                        old(self)@.instance,
                        timestamp,
                        id,
                        model@,
                        record_id,
                        data,
                    )
                    &&& final(self)@.ops == old(self)@.ops.push(made.unwrap()@)
                    &&& final(self)@.marks == old(self)@.marks.insert(
                        old(self)@.instance,
                        timestamp,
                    )
                    &&& timestamp > mark_in(old(self)@.marks, old(self)@.instance)
                },
                None => made.is_none() && final(self)@ == old(self)@,
            },
    {
        proof {
            use_type_invariant(&*self);
        }
        let mut taken = OperationLog { instance: self.instance, clock: Clock::new(), ops: Vec::new() };
        proof {
            assert(ops_view(taken.ops@) =~= Seq::empty());
        }
        std::mem::swap(self, &mut taken);
        let OperationLog { instance, mut clock, mut ops } = taken;
        let ghost before = ops_view(ops@);
        let ghost marks = clock@;
        match clock.tick(&instance, now_ms) {
            Some(timestamp) => {
                let made = CRDTOperation { instance, timestamp, id, model, record_id, data };
                let kept = made.clone();
                ops.push(kept);
                proof {
                    assert(ops_view(ops@) =~= before.push(made@));
                    lemma_push_keeps_order(marks, before, made@);
                }
                *self = OperationLog { instance, clock, ops };
                Some(made)
            },
            None => {
                *self = OperationLog { instance, clock, ops };
                None
            },
        }
    }

    /// Takes in an operation that another instance made, once it has been
    /// applied to storage: where it is new, it is appended to the log and
    /// the mark of its instance rises to its timestamp. An operation that is
    /// not new changes nothing. Says whether the operation was new.
    pub fn receive(&mut self, op: CRDTOperation) -> (new: bool)
        ensures
            new == is_new_in(old(self)@.marks, op@.instance, op@.timestamp),
            final(self)@.instance == old(self)@.instance,
            final(self)@.marks == observed(old(self)@.marks, op@.instance, op@.timestamp),
            final(self)@.ops == if new {
                old(self)@.ops.push(op@)
            } else {
                old(self)@.ops
            },
    {
        proof {
            use_type_invariant(&*self);
        }
        if !self.clock.is_new(&op.instance, op.timestamp) {
            return false;
        }
        let mut taken = OperationLog { instance: self.instance, clock: Clock::new(), ops: Vec::new() };
        proof {
            assert(ops_view(taken.ops@) =~= Seq::empty());
        }
        std::mem::swap(self, &mut taken);
        let OperationLog { instance, mut clock, mut ops } = taken;
        let ghost before = ops_view(ops@);
        let ghost marks = clock@;
        clock.observe(&op.instance, op.timestamp);
        proof {
            lemma_push_keeps_order(marks, before, op@);
            assert(ops_view(ops@.push(op)) =~= before.push(op@));
        }
        ops.push(op);
        *self = OperationLog { instance, clock, ops };
        true
    }

    /// The operations that `instance` made after `timestamp`, in the order
    /// of the log: what a sender has yet to send when `timestamp` is the
    /// last that was acknowledged.
    pub fn operations_since(&self, instance: &Uuid, timestamp: NTP64) -> (later: Vec<CRDTOperation>)
        ensures
            ops_view(later@) == since(self@.ops, *instance, timestamp@ as int),
    {
        let mut later: Vec<CRDTOperation> = Vec::new();
        let ghost all = ops_view(self.ops@);
        let ghost test = made_after(*instance, timestamp@ as int);
        proof {
            reveal(Seq::filter);
            assert(all.take(0) =~= Seq::empty());
            assert(ops_view(later@) =~= Seq::empty());
        }
        let mut i: usize = 0;
        while i < self.ops.len()
            invariant
                0 <= i <= self.ops.len(),
                all == ops_view(self.ops@),
                test == made_after(*instance, timestamp@ as int),
                ops_view(later@) == all.take(i as int).filter(test),
            decreases self.ops.len() - i,
        {
            let op = &self.ops[i];
            let ghost found = ops_view(later@);
            proof {
                reveal(Seq::filter);
                assert(all.take(i + 1).drop_last() =~= all.take(i as int));
                assert(all.take(i + 1).last() == op@);
            }
            if same_id(&op.instance, instance) && op.timestamp.is_after(&timestamp) {
                later.push(op.clone());
                proof {
                    assert(ops_view(later@) =~= found.push(op@));
                }
            }
            i = i + 1;
        }
        proof {
            assert(all.take(self.ops.len() as int) =~= all);
        }
        later
    }
}

/// An operation that is new to the marks keeps a log in order when it is
/// appended and its instance's mark is raised to its timestamp.
pub proof fn lemma_push_keeps_order(marks: Map<Uuid, u64>, ops: Seq<OperationView>, op: OperationView)
    requires
        rising(ops),
        covered(marks, ops),
        is_new_in(marks, op.instance, op.timestamp),
    ensures
        rising(ops.push(op)),
        covered(marks.insert(op.instance, op.timestamp), ops.push(op)),
{
    let pushed = ops.push(op);
    assert forall|i: int, j: int|
        0 <= i < j < pushed.len() && pushed[i].instance == pushed[j].instance implies pushed[i].timestamp
        < pushed[j].timestamp by {
        if j == ops.len() {
            assert(ops[i].timestamp <= mark_in(marks, ops[i].instance));
        } else {
            assert(ops[i].instance == ops[j].instance);
        }
    }
    assert forall|i: int| 0 <= i < pushed.len() implies (#[trigger] pushed[i]).timestamp <= mark_in(
        marks.insert(op.instance, op.timestamp),
        pushed[i].instance,
    ) by {
        if i < ops.len() {
            assert(ops[i].timestamp <= mark_in(marks, ops[i].instance));
        }
    }
}

} // verus!
