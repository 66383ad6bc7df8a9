//! Ingest: taking in operations that other instances made. Every operation
//! is judged by itself against the clock; one that is not new is skipped,
//! so that redelivery and late batches do no harm.

use crate::sync::clock::{is_new_in, mark_in, observed, Clock};
use crate::json::clone_value;
use crate::sync::log::{LogView, OperationLog};
use crate::sync::timestamp::NTP64;
use crate::sync::operation::{
    clone_fields, fields_view, ops_view, CRDTOperation, CRDTOperationData, DataView, OperationView,
};
use serde_json::Value;
use uuid::Uuid;
use vstd::prelude::*;

verus! {

/// The marks after a run of operations was taken in, one after the other.
pub open spec fn marks_after(marks: Map<Uuid, u64>, ops: Seq<OperationView>) -> Map<Uuid, u64>
    decreases ops.len(),
{
    if ops.len() == 0 {
        marks
    } else {
        observed(marks_after(marks, ops.drop_last()), ops.last().instance, ops.last().timestamp)
    }
}

/// The operations of a run that are applied when the run is taken in: each
/// one that is new to the marks as they stand when its turn comes.
pub open spec fn admitted(marks: Map<Uuid, u64>, ops: Seq<OperationView>) -> Seq<OperationView>
    decreases ops.len(),
{
    if ops.len() == 0 {
        Seq::empty()
    } else if is_new_in(
        marks_after(marks, ops.drop_last()),
        ops.last().instance,
        ops.last().timestamp,
    ) {
        admitted(marks, ops.drop_last()).push(ops.last())
    } else {
        admitted(marks, ops.drop_last())
    }
}

/// The log after a run of operations was taken in.
pub open spec fn taken_in(log: LogView, ops: Seq<OperationView>) -> LogView {
    LogView {
        instance: log.instance,
        marks: marks_after(log.marks, ops),
        ops: log.ops + admitted(log.marks, ops),
    }
}

/// The highest timestamp that `instance` has in a run of operations, or -1
/// where it has none.
pub open spec fn highest(ops: Seq<OperationView>, instance: Uuid) -> int
    decreases ops.len(),
{
    if ops.len() == 0 {
        -1
    } else {
        let before = highest(ops.drop_last(), instance);
        if ops.last().instance == instance && ops.last().timestamp > before {
            ops.last().timestamp as int
        } else {
            before
        }
    }
}

/// The call on storage that applies an operation.
#[derive(Debug, PartialEq, Eq)]
pub enum StorageCall {
    /// Insert the record with these fields.
    Create { model: String, record_id: Value, fields: Vec<(String, Value)> },
    /// Set one field of the record.
    Update { model: String, record_id: Value, field: String, value: Value },
    /// Remove the record.
    Delete { model: String, record_id: Value },
}

/// The mathematical value of a call on storage.
pub enum StorageCallView {
    Create { model: Seq<char>, record_id: Value, fields: Seq<(Seq<char>, Value)> },
    Update { model: Seq<char>, record_id: Value, field: Seq<char>, value: Value },
    Delete { model: Seq<char>, record_id: Value },
}

impl View for StorageCall {
    type V = StorageCallView;

    open spec fn view(&self) -> StorageCallView {
        match self {
            StorageCall::Create { model, record_id, fields } => StorageCallView::Create {
                model: model@,
                record_id: *record_id,
                fields: fields_view(fields@),
            },
            StorageCall::Update { model, record_id, field, value } => StorageCallView::Update {
                model: model@,
                record_id: *record_id,
                field: field@,
                value: *value,
            },
            StorageCall::Delete { model, record_id } => StorageCallView::Delete {
                model: model@,
                record_id: *record_id,
            },
        }
    }
}

/// The call that applies `op`: by the kind of its payload, on the record
/// that it names.
pub open spec fn call_for(op: OperationView) -> StorageCallView {
    match op.data {
        DataView::Create(fields) => StorageCallView::Create {
            model: op.model,
            record_id: op.record_id,
            fields,
        },
        DataView::Update { field, value } => StorageCallView::Update {
            model: op.model,
            record_id: op.record_id,
            field,
            value,
        },
        DataView::Delete => StorageCallView::Delete { model: op.model, record_id: op.record_id },
    }
}

/// What is to be done with an incoming operation.
#[derive(Debug, PartialEq, Eq)]
pub enum IngestStep {
    /// It is a duplicate or stale: storage is not touched.
    Skip,
    /// It is new: make this call on storage.
    Apply(StorageCall),
}

/// What storage said of a call.
#[derive(Debug, Clone, Copy, PartialEq, Eq, Structural)]
pub enum StorageOutcome {
    /// The call was carried out.
    Applied,
    /// The call failed in a way that may pass.
    Transient,
    /// The call broke the schema or the integrity of the data.
    Fatal,
}

/// How ingest goes on after a call on storage.
#[derive(Debug, Clone, Copy, PartialEq, Eq, Structural)]
pub enum IngestVerdict {
    /// Go on with the next operation.
    Continue,
    /// Give the batch up unacknowledged, so that it is delivered again.
    Retry,
    /// Stop synchronising this library and tell the host.
    Halt,
}

/// The rule by which storage settles two writes to one place. It is kept
/// apart from the actors, so that it can change without them.
#[derive(Debug, Clone, Copy, PartialEq, Eq, Structural)]
pub enum ConflictPolicy {
    /// The write with the later timestamp stays.
    LastWriteWins,
}

impl ConflictPolicy {
    /// Whether an incoming write, stamped `incoming`, replaces what storage
    /// holds, stamped `held`. Under last-write-wins it does where storage
    /// holds nothing or something strictly older; against equal or newer
    /// data it is a no-op.
    pub fn prevails(self, incoming: NTP64, held: Option<NTP64>) -> (wins: bool)
        ensures
            wins == match held {
                Some(held) => incoming@ > held@,
                None => true,
            },
    {
        match self {
            ConflictPolicy::LastWriteWins => match held {
                Some(held) => incoming.is_after(&held),
                None => true,
            },
        }
    }
}

/// The call on storage that applies `op`.
pub fn storage_call(op: &CRDTOperation) -> (call: StorageCall)
    ensures
        call@ == call_for(op@),
{
    match &op.data {
        CRDTOperationData::Create(fields) => StorageCall::Create {
            model: op.model.clone(),
            record_id: clone_value(&op.record_id),
            fields: clone_fields(fields),
        },
        CRDTOperationData::Update { field, value } => StorageCall::Update {
            model: op.model.clone(),
            record_id: clone_value(&op.record_id),
            field: field.clone(),
            value: clone_value(value),
        },
        CRDTOperationData::Delete => StorageCall::Delete {
            model: op.model.clone(),
            record_id: clone_value(&op.record_id),
        },
    }
}

/// Decides what to do with an incoming operation: apply it where it is new
/// to the log's clock, skip it otherwise.
pub fn next_step(log: &OperationLog, op: &CRDTOperation) -> (step: IngestStep)
    ensures
        is_new_in(log@.marks, op@.instance, op@.timestamp) ==> (step matches IngestStep::Apply(call)
            && call@ == call_for(op@)),
        !is_new_in(log@.marks, op@.instance, op@.timestamp) ==> step == IngestStep::Skip,
{
    if log.is_new(&op.instance, op.timestamp) {
        IngestStep::Apply(storage_call(op))
    } else {
        IngestStep::Skip
    }
}

/// Settles an operation once storage has answered the call that applies it.
/// Only when the call was carried out is the operation taken into the log
/// and its instance's mark raised; a failure leaves the log as it was, so
/// that the operation is judged new again when it comes back.
pub fn settle(log: &mut OperationLog, op: CRDTOperation, outcome: StorageOutcome) -> (verdict:
    IngestVerdict)
    ensures
        verdict == match outcome {
            StorageOutcome::Applied => IngestVerdict::Continue,
            StorageOutcome::Transient => IngestVerdict::Retry,
            StorageOutcome::Fatal => IngestVerdict::Halt,
        },
        final(log)@ == if outcome == StorageOutcome::Applied {
            taken_in(old(log)@, seq![op@])
        } else {
            old(log)@
        },
{
    match outcome {
        StorageOutcome::Applied => {
            proof {
                let one = seq![op@];
                assert(one.drop_last() =~= Seq::empty());
                assert(marks_after(old(log)@.marks, one.drop_last()) == old(log)@.marks);
                assert(admitted(old(log)@.marks, one.drop_last()) =~= Seq::empty());
                assert(old(log)@.ops + Seq::<OperationView>::empty().push(op@) =~= old(log)@.ops.push(
                    op@,
                ));
                assert(old(log)@.ops + Seq::<OperationView>::empty() =~= old(log)@.ops);
            }
            log.receive(op);
            IngestVerdict::Continue
        },
        StorageOutcome::Transient => IngestVerdict::Retry,
        StorageOutcome::Fatal => IngestVerdict::Halt,
    }
}

/// Picks from a batch the operations that ingest will apply, in their
/// order, if every call on storage is carried out.
pub fn plan(log: &OperationLog, ops: &Vec<CRDTOperation>) -> (chosen: Vec<CRDTOperation>)
    ensures
        ops_view(chosen@) == admitted(log@.marks, ops_view(ops@)),
{
    let mut clock: Clock = log.clock().clone();
    let mut chosen: Vec<CRDTOperation> = Vec::new();
    let ghost all = ops_view(ops@);
    let ghost marks = log@.marks;
    proof {
        assert(all.take(0) =~= Seq::empty());
        assert(ops_view(chosen@) =~= Seq::empty());
    }
    let mut i: usize = 0;
    while i < ops.len()
        invariant
            0 <= i <= ops.len(),
            all == ops_view(ops@),
            clock@ == marks_after(marks, all.take(i as int)),
            ops_view(chosen@) == admitted(marks, all.take(i as int)),
        decreases ops.len() - i,
    {
        let op = &ops[i];
        let ghost found = ops_view(chosen@);
        proof {
            assert(all.take(i + 1).drop_last() =~= all.take(i as int));
            assert(all.take(i + 1).last() == op@);
        }
        if clock.is_new(&op.instance, op.timestamp) {
            clock.observe(&op.instance, op.timestamp);
            chosen.push(op.clone());
            proof {
                assert(ops_view(chosen@) =~= found.push(op@));
            }
        }
        i = i + 1;
    }
    proof {
        assert(all.take(ops.len() as int) =~= all);
    }
    chosen
}

/// The place of the first operation, from `from` on, that is new to the
/// marks; the number of operations where none is.
pub open spec fn next_new(marks: Map<Uuid, u64>, ops: Seq<OperationView>, from: int) -> int
    decreases ops.len() - from,
{
    if from < 0 || from >= ops.len() {
        ops.len() as int
    } else if is_new_in(marks, ops[from].instance, ops[from].timestamp) {
        from
    } else {
        next_new(marks, ops, from + 1)
    }
}

/// The verdict that follows from what storage said of a call.
pub open spec fn verdict_of(outcome: StorageOutcome) -> IngestVerdict {
    match outcome {
        StorageOutcome::Applied => IngestVerdict::Continue,
        StorageOutcome::Transient => IngestVerdict::Retry,
        StorageOutcome::Fatal => IngestVerdict::Halt,
    }
}

/// What ingest does next with a batch.
#[derive(Debug, PartialEq, Eq)]
pub enum IngestAction {
    /// Make this call on storage, and report what storage said.
    Apply(StorageCall),
    /// The batch has ended, with this verdict. `notify` says whether the
    /// notification that a batch was ingested is to be raised now.
    Finish { verdict: IngestVerdict, notify: bool },
}

/// The mathematical value of a batch under way.
pub struct RunView {
    /// The operations of the batch.
    pub ops: Seq<OperationView>,
    /// How many of them have been dealt with.
    pub at: int,
    /// The verdict with which the batch has ended, if it has.
    pub ended: Option<IngestVerdict>,
}

/// One batch on its way through ingest: the operations are taken one by
/// one, in their order, and the batch ends when all are dealt with or when
/// storage fails.
pub struct IngestRun {
    ops: Vec<CRDTOperation>,
    at: usize,
    ended: Option<IngestVerdict>,
}

impl View for IngestRun {
    type V = RunView;

    closed spec fn view(&self) -> RunView {
        RunView { ops: ops_view(self.ops@), at: self.at as int, ended: self.ended }
    }
}

impl IngestRun {
    #[verifier::type_invariant]
    spec fn within(self) -> bool {
        self.at <= self.ops@.len()
    }

    /// A batch of which nothing has been dealt with yet.
    pub fn begin(ops: Vec<CRDTOperation>) -> (run: IngestRun)
        ensures
            run@ == (RunView { ops: ops_view(ops@), at: 0, ended: None }),
    {
        IngestRun { ops, at: 0, ended: None }
    }

    /// Says what to do next. Operations that are not new to the log's clock
    /// are passed over without a call on storage. The first that is new is
    /// to be applied. When none is left the batch ends well, and the
    /// notification is to be raised: this once, and not when the question
    /// is asked again. A batch that has ended on a failure stays ended.
    #[verifier::loop_isolation(false)]
    pub fn next(&mut self, log: &OperationLog) -> (action: IngestAction)
        ensures
            final(self)@.ops == old(self)@.ops,
            match old(self)@.ended {
                Some(verdict) => final(self)@ == old(self)@ && action == (IngestAction::Finish {
                    verdict,
                    notify: false,
                }),
                None => {
                    let at = next_new(log@.marks, old(self)@.ops, old(self)@.at);
                    &&& old(self)@.at <= at <= old(self)@.ops.len()
                    &&& final(self)@.at == at
                    &&& if at < old(self)@.ops.len() {
                        &&& final(self)@.ended.is_none()
                        &&& action matches IngestAction::Apply(call)
                        &&& call@ == call_for(old(self)@.ops[at])
                    } else {
                        &&& final(self)@.ended == Some(IngestVerdict::Continue)
                        &&& action == (IngestAction::Finish {
                            verdict: IngestVerdict::Continue,
                            notify: true,
                        })
                    }
                },
            },
    {
        proof {
            use_type_invariant(&*self);
        }
        if let Some(verdict) = self.ended {
            return IngestAction::Finish { verdict, notify: false };
        }
        let ghost all = ops_view(self.ops@);
        let ghost start = self.at as int;
        let ghost given = self.ops;
        let mut at = self.at;
        while at < self.ops.len()
            invariant
                start <= at <= self.ops.len(),
                self.ops == given,
                self.ended.is_none(),
                all == ops_view(self.ops@),
                next_new(log@.marks, all, start) == next_new(log@.marks, all, at as int),
            decreases self.ops.len() - at,
        {
            let op = &self.ops[at];
            proof {
                assert(all[at as int] == op@);
            }
            if log.is_new(&op.instance, op.timestamp) {
                let call = storage_call(op);
                self.at = at;
                return IngestAction::Apply(call);
            }
            at = at + 1;
        }
        self.at = at;
        self.ended = Some(IngestVerdict::Continue);
        IngestAction::Finish { verdict: IngestVerdict::Continue, notify: true }
    }

    /// Takes what storage said of the call for the operation that is next.
    /// Only where the call was carried out is the operation taken into the
    /// log and its instance's mark raised, and the batch goes on with the
    /// operation after it. A failure leaves the log as it was and ends the
    /// batch: one that may pass for redelivery, one that breaks the data for
    /// good. Where the batch has ended or no operation is left, nothing
    /// changes.
    pub fn stored(&mut self, log: &mut OperationLog, outcome: StorageOutcome)
        ensures
            final(self)@.ops == old(self)@.ops,
            if old(self)@.ended.is_none() && old(self)@.at < old(self)@.ops.len() {
                if outcome == StorageOutcome::Applied {
                    &&& final(log)@ == taken_in(old(log)@, seq![old(self)@.ops[old(self)@.at]])
                    &&& final(self)@.at == old(self)@.at + 1
                    &&& final(self)@.ended.is_none()
                } else {
                    &&& final(log)@ == old(log)@
                    &&& final(self)@.at == old(self)@.at
                    &&& final(self)@.ended == Some(verdict_of(outcome))
                }
            } else {
                final(log)@ == old(log)@ && final(self)@ == old(self)@
            },
    {
        proof {
            use_type_invariant(&*self);
        }
        if self.ended.is_some() || self.at >= self.ops.len() {
            return;
        }
        let op = self.ops[self.at].clone();
        match settle(log, op, outcome) {
            IngestVerdict::Continue => {
                self.at = self.at + 1;
            },
            verdict => {
                self.ended = Some(verdict);
            },
        }
    }

    /// The operation that is next, where the batch has not ended and one is
    /// left.
    pub fn current(&self) -> (op: Option<&CRDTOperation>)
        ensures
            op.is_some() == (self@.ended.is_none() && self@.at < self@.ops.len()),
            op.is_some() ==> op.unwrap()@ == self@.ops[self@.at],
    {
        proof {
            use_type_invariant(self);
        }
        if self.ended.is_none() && self.at < self.ops.len() {
            Some(&self.ops[self.at])
        } else {
            None
        }
    }
}

/// The next new operation is new, and lies at or after the place from
/// which it was looked for.
pub proof fn lemma_next_new(marks: Map<Uuid, u64>, ops: Seq<OperationView>, from: int)
    requires
        0 <= from <= ops.len(),
    ensures
        from <= next_new(marks, ops, from) <= ops.len(),
        next_new(marks, ops, from) < ops.len() ==> is_new_in(
            marks,
            ops[next_new(marks, ops, from)].instance,
            ops[next_new(marks, ops, from)].timestamp,
        ),
    decreases ops.len() - from,
{
    if from < ops.len() && !is_new_in(marks, ops[from].instance, ops[from].timestamp) {
        lemma_next_new(marks, ops, from + 1);
    }
}

/// Passing over operations that are not new changes neither what was taken
/// in nor what was applied.
pub proof fn lemma_passing_over(marks: Map<Uuid, u64>, ops: Seq<OperationView>, from: int)
    requires
        0 <= from <= ops.len(),
    ensures
        from <= next_new(marks_after(marks, ops.take(from)), ops, from) <= ops.len(),
        marks_after(marks, ops.take(next_new(marks_after(marks, ops.take(from)), ops, from)))
            == marks_after(marks, ops.take(from)),
        admitted(marks, ops.take(next_new(marks_after(marks, ops.take(from)), ops, from)))
            == admitted(marks, ops.take(from)),
    decreases ops.len() - from,
{
    let held = marks_after(marks, ops.take(from));
    if from < ops.len() && !is_new_in(held, ops[from].instance, ops[from].timestamp) {
        assert(ops.take(from + 1).drop_last() =~= ops.take(from));
        assert(ops.take(from + 1).last() == ops[from]);
        assert(marks_after(marks, ops.take(from + 1)) == held);
        lemma_passing_over(marks, ops, from + 1);
    }
}

/// Takes a whole batch into the log, as ingest does when every call on
/// storage is carried out, and gives back the operations that were applied,
/// in their order.
pub fn ingest(log: &mut OperationLog, ops: Vec<CRDTOperation>) -> (applied: Vec<CRDTOperation>)
    ensures
        final(log)@ == taken_in(old(log)@, ops_view(ops@)),
        ops_view(applied@) == admitted(old(log)@.marks, ops_view(ops@)),
{
    let mut applied: Vec<CRDTOperation> = Vec::new();
    let ghost all = ops_view(ops@);
    let ghost start = log@;
    proof {
        assert(all.take(0) =~= Seq::empty());
        assert(ops_view(applied@) =~= Seq::empty());
        assert(start.ops + Seq::<OperationView>::empty() =~= start.ops);
    }
    let mut run = IngestRun::begin(ops);
    loop
        invariant_except_break
            run@.ops == all,
            run@.ended.is_none(),
            0 <= run@.at <= all.len(),
            log@ == taken_in(start, all.take(run@.at)),
            ops_view(applied@) == admitted(start.marks, all.take(run@.at)),
        ensures
            log@ == taken_in(start, all),
            ops_view(applied@) == admitted(start.marks, all),
        decreases all.len() - run@.at,
    {
        let ghost before = run@.at;
        let ghost held = log@;
        let ghost found = ops_view(applied@);
        proof {
            lemma_passing_over(start.marks, all, before);
            lemma_next_new(held.marks, all, before);
        }
        let _ = run.next(log);
        let ghost at = run@.at;
        let kept = match run.current() {
            Some(op) => op.clone(),
            None => {
                proof {
                    assert(all.take(all.len() as int) =~= all);
                }
                break ;
            },
        };
        proof {
            let one = seq![all[at]];
            lemma_taken_in_parts(start.marks, all.take(at), one);
            assert(all.take(at) + one =~= all.take(at + 1));
            assert(one.drop_last() =~= Seq::<OperationView>::empty());
            assert(one.last() == all[at]);
            assert(at == next_new(held.marks, all, before));
            assert(is_new_in(held.marks, all[at].instance, all[at].timestamp));
            assert(admitted(held.marks, one.drop_last()) =~= Seq::<OperationView>::empty());
            assert(admitted(held.marks, one) =~= one);
            assert(found + one =~= found.push(all[at]));
        }
        run.stored(log, StorageOutcome::Applied);
        applied.push(kept);
        proof {
            assert(ops_view(applied@) =~= found.push(kept@));
            assert(log@.ops =~= start.ops + admitted(start.marks, all.take(at + 1)));
        }
    }
    applied
}

/// The larger of two marks.
pub open spec fn higher(a: int, b: int) -> int {
    if a >= b {
        a
    } else {
        b
    }
}

/// No operation of a run is stamped beyond the highest timestamp of its
/// instance in that run.
pub proof fn lemma_highest_bounds(ops: Seq<OperationView>, at: int)
    requires
        0 <= at < ops.len(),
    ensures
        ops[at].timestamp <= highest(ops, ops[at].instance),
    decreases ops.len(),
{
    if at < ops.len() - 1 {
        lemma_highest_bounds(ops.drop_last(), at);
    }
}

/// The highest timestamp of an instance in a run is -1 or a timestamp.
pub proof fn lemma_highest_floor(ops: Seq<OperationView>, instance: Uuid)
    ensures
        highest(ops, instance) >= -1,
    decreases ops.len(),
{
    if ops.len() > 0 {
        lemma_highest_floor(ops.drop_last(), instance);
    }
}

/// The highest timestamp of a run made of two runs is the higher of theirs.
pub proof fn lemma_highest_of_joined(a: Seq<OperationView>, b: Seq<OperationView>, instance: Uuid)
    ensures
        highest(a + b, instance) == higher(highest(a, instance), highest(b, instance)),
    decreases b.len(),
{
    if b.len() == 0 {
        assert(a + b =~= a);
        lemma_highest_floor(a, instance);
    } else {
        lemma_highest_of_joined(a, b.drop_last(), instance);
        assert((a + b).drop_last() =~= a + b.drop_last());
        assert((a + b).last() == b.last());
    }
}

/// After a run was taken in, the mark of each instance is the higher of
/// what it was and the highest timestamp that the run holds of the
/// instance, in whatever order the run came.
pub proof fn lemma_mark_after(marks: Map<Uuid, u64>, ops: Seq<OperationView>, instance: Uuid)
    ensures
        mark_in(marks_after(marks, ops), instance) == higher(
            mark_in(marks, instance),
            highest(ops, instance),
        ),
    decreases ops.len(),
{
    if ops.len() > 0 {
        lemma_mark_after(marks, ops.drop_last(), instance);
    }
}

/// Two clock states that give every instance the same mark are the same.
pub proof fn lemma_same_marks(a: Map<Uuid, u64>, b: Map<Uuid, u64>)
    requires
        forall|instance: Uuid| mark_in(a, instance) == mark_in(b, instance),
    ensures
        a == b,
{
    assert forall|instance: Uuid| a.contains_key(instance) == b.contains_key(instance) by {
        assert(mark_in(a, instance) == mark_in(b, instance));
    }
    assert forall|instance: Uuid| a.contains_key(instance) implies a[instance] == b[instance] by {
        assert(mark_in(a, instance) == mark_in(b, instance));
    }
    assert(a =~= b);
}

/// Out-of-order delivery: whichever of two batches is taken in first, the
/// clock ends in the same state.
pub proof fn lemma_batch_order_is_free(
    marks: Map<Uuid, u64>,
    first: Seq<OperationView>,
    second: Seq<OperationView>,
)
    ensures
        marks_after(marks, first + second) == marks_after(marks, second + first),
{
    assert forall|instance: Uuid|
        mark_in(marks_after(marks, first + second), instance) == mark_in(
            marks_after(marks, second + first),
            instance,
        ) by {
        lemma_mark_after(marks, first + second, instance);
        lemma_mark_after(marks, second + first, instance);
        lemma_highest_of_joined(first, second, instance);
        lemma_highest_of_joined(second, first, instance);
    }
    lemma_same_marks(marks_after(marks, first + second), marks_after(marks, second + first));
}

/// A run in which no operation is stamped beyond the mark of its instance
/// changes nothing when it is taken in: no mark moves and nothing is
/// applied.
pub proof fn lemma_stale_run_is_idle(marks: Map<Uuid, u64>, ops: Seq<OperationView>)
    requires
        forall|i: int| 0 <= i < ops.len() ==> (#[trigger] ops[i]).timestamp <= mark_in(
            marks,
            ops[i].instance,
        ),
    ensures
        marks_after(marks, ops) == marks,
        admitted(marks, ops) == Seq::<OperationView>::empty(),
    decreases ops.len(),
{
    if ops.len() > 0 {
        let before = ops.drop_last();
        assert forall|i: int| 0 <= i < before.len() implies (#[trigger] before[i]).timestamp
            <= mark_in(marks, before[i].instance) by {
            assert(before[i] == ops[i]);
        }
        lemma_stale_run_is_idle(marks, before);
        assert(ops.last() == ops[ops.len() - 1]);
    }
}

/// A run that was taken in is stale from then on: taken in again, it
/// moves no mark and none of it is applied.
pub proof fn lemma_taken_in_is_stale(marks: Map<Uuid, u64>, ops: Seq<OperationView>)
    ensures
        admitted(marks_after(marks, ops), ops) == Seq::<OperationView>::empty(),
        marks_after(marks_after(marks, ops), ops) == marks_after(marks, ops),
{
    let once = marks_after(marks, ops);
    assert forall|i: int| 0 <= i < ops.len() implies (#[trigger] ops[i]).timestamp <= mark_in(
        once,
        ops[i].instance,
    ) by {
        lemma_highest_bounds(ops, i);
        lemma_mark_after(marks, ops, ops[i].instance);
    }
    lemma_stale_run_is_idle(once, ops);
}

/// Idempotent ingest: a batch that is delivered again, right after it was
/// taken in, leaves the log and the clock as they are, and none of its
/// operations is applied a second time.
pub proof fn lemma_redelivery_is_idle(log: LogView, ops: Seq<OperationView>)
    ensures
        admitted(taken_in(log, ops).marks, ops) == Seq::<OperationView>::empty(),
        taken_in(taken_in(log, ops), ops) == taken_in(log, ops),
{
    lemma_taken_in_is_stale(log.marks, ops);
    let once = taken_in(log, ops);
    assert(once.ops + Seq::<OperationView>::empty() =~= once.ops);
}

/// Idempotent ingest of one operation: applied once and delivered again,
/// it is skipped, and log and clock are as after the first delivery.
pub proof fn lemma_second_delivery_is_skipped(log: LogView, op: OperationView)
    ensures
        !is_new_in(taken_in(log, seq![op]).marks, op.instance, op.timestamp),
        taken_in(taken_in(log, seq![op]), seq![op]) == taken_in(log, seq![op]),
{
    let one = seq![op];
    lemma_redelivery_is_idle(log, one);
    lemma_highest_bounds(one, 0);
    lemma_mark_after(log.marks, one, op.instance);
}

/// Taking in two runs one after the other is taking in the run that they
/// make together.
pub proof fn lemma_taken_in_parts(
    marks: Map<Uuid, u64>,
    first: Seq<OperationView>,
    second: Seq<OperationView>,
)
    ensures
        marks_after(marks, first + second) == marks_after(marks_after(marks, first), second),
        admitted(marks, first + second) == admitted(marks, first) + admitted(
            marks_after(marks, first),
            second,
        ),
    decreases second.len(),
{
    if second.len() == 0 {
        assert(first + second =~= first);
        assert(admitted(marks, first) + Seq::<OperationView>::empty() =~= admitted(marks, first));
    } else {
        lemma_taken_in_parts(marks, first, second.drop_last());
        assert((first + second).drop_last() =~= first + second.drop_last());
        assert((first + second).last() == second.last());
        let middle = marks_after(marks, first);
        assert(admitted(marks, first) + admitted(middle, second.drop_last()).push(second.last())
            =~= (admitted(marks, first) + admitted(middle, second.drop_last())).push(
            second.last(),
        ));
    }
}

/// Partial application is safe. When ingest stops after `done` operations
/// of a batch and the whole batch is delivered again, what was applied
/// before the stop followed by what is applied on redelivery is what would
/// have been applied without the stop, and the clock ends in the same
/// state.
pub proof fn lemma_resume_after_stop(marks: Map<Uuid, u64>, ops: Seq<OperationView>, done: int)
    requires
        0 <= done <= ops.len(),
    ensures
        admitted(marks, ops) == admitted(marks, ops.take(done)) + admitted(
            marks_after(marks, ops.take(done)),
            ops,
        ),
        marks_after(marks, ops) == marks_after(marks_after(marks, ops.take(done)), ops),
{
    let before = ops.take(done);
    let after = ops.skip(done);
    let stopped = marks_after(marks, before);
    assert(before + after =~= ops);
    lemma_taken_in_parts(marks, before, after);
    lemma_taken_in_parts(stopped, before, after);
    lemma_taken_in_is_stale(marks, before);
    assert(Seq::<OperationView>::empty() + admitted(stopped, after) =~= admitted(stopped, after));
}

} // verus!
