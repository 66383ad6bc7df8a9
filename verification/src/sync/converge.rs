//! Convergence: what two instances hold after each has sent the other what
//! it made.

use crate::sync::clock::{is_new_in, mark_in};
use crate::sync::ingest::{
    admitted, highest, lemma_highest_bounds, lemma_highest_floor, lemma_mark_after,
    lemma_same_marks, marks_after, taken_in,
};
use crate::sync::log::{made_after, rising, since, LogView};
use crate::sync::operation::OperationView;
use serde_json::Value;
use uuid::Uuid;
use vstd::prelude::*;

verus! {

/// A log that holds nothing but what its owner made, and whose clock knows
/// nobody else: the log of an instance that has written and not yet
/// received.
pub open spec fn own_only(log: LogView) -> bool {
    &&& forall|i: int| 0 <= i < log.ops.len() ==> (#[trigger] log.ops[i]).instance == log.instance
    &&& rising(log.ops)
    &&& forall|instance: Uuid|
        mark_in(log.marks, instance) == if instance == log.instance {
            highest(log.ops, instance)
        } else {
            -1
        }
}

/// The test by which an operation is one on the record `record_id` of
/// `model`.
pub open spec fn on_record(model: Seq<char>, record_id: Value) -> spec_fn(OperationView) -> bool {
    |op: OperationView| op.model == model && op.record_id == record_id
}

/// The operations that a log holds on one record, in the order of the log:
/// what storage has applied to that record.
pub open spec fn record_history(
    ops: Seq<OperationView>,
    model: Seq<char>,
    record_id: Value,
) -> Seq<OperationView> {
    ops.filter(on_record(model, record_id))
}

/// No record is written by both runs of operations.
pub open spec fn disjoint_records(first: Seq<OperationView>, second: Seq<OperationView>) -> bool {
    forall|i: int, j: int|
        0 <= i < first.len() && 0 <= j < second.len() ==> !((#[trigger] first[i]).model == (
        #[trigger] second[j]).model && first[i].record_id == second[j].record_id)
}

/// A filter lets a run through whole where every operation passes.
pub proof fn lemma_filter_keeps_all(ops: Seq<OperationView>, test: spec_fn(OperationView) -> bool)
    requires
        forall|i: int| 0 <= i < ops.len() ==> test(#[trigger] ops[i]),
    ensures
        ops.filter(test) == ops,
    decreases ops.len(),
{
    reveal(Seq::filter);
    if ops.len() > 0 {
        let before = ops.drop_last();
        assert forall|i: int| 0 <= i < before.len() implies test(#[trigger] before[i]) by {
            assert(before[i] == ops[i]);
        }
        lemma_filter_keeps_all(before, test);
        assert(test(ops[ops.len() - 1]));
        assert(before.push(ops.last()) =~= ops);
    }
}

/// A filter lets nothing of a run through where no operation passes.
pub proof fn lemma_filter_keeps_none(ops: Seq<OperationView>, test: spec_fn(OperationView) -> bool)
    requires
        forall|i: int| 0 <= i < ops.len() ==> !test(#[trigger] ops[i]),
    ensures
        ops.filter(test) == Seq::<OperationView>::empty(),
    decreases ops.len(),
{
    reveal(Seq::filter);
    if ops.len() > 0 {
        let before = ops.drop_last();
        assert forall|i: int| 0 <= i < before.len() implies !test(#[trigger] before[i]) by {
            assert(before[i] == ops[i]);
        }
        lemma_filter_keeps_none(before, test);
        assert(!test(ops[ops.len() - 1]));
    }
}

/// In a run of one instance with rising timestamps, the highest timestamp
/// before any place lies below the timestamp at that place.
pub proof fn lemma_rising_highest(ops: Seq<OperationView>, instance: Uuid, upto: int)
    requires
        rising(ops),
        forall|i: int| 0 <= i < ops.len() ==> (#[trigger] ops[i]).instance == instance,
        0 <= upto < ops.len(),
    ensures
        highest(ops.take(upto), instance) < ops[upto].timestamp,
    decreases upto,
{
    if upto > 0 {
        lemma_rising_highest(ops, instance, upto - 1);
        assert(ops.take(upto).drop_last() =~= ops.take(upto - 1));
        assert(ops.take(upto).last() == ops[upto - 1]);
        assert(ops[upto - 1].instance == ops[upto].instance);
    } else {
        assert(ops.take(0).len() == 0);
    }
}

/// A receiver that knows nothing of an instance applies every operation of
/// a run that the instance made with rising timestamps.
pub proof fn lemma_unknown_sender_is_admitted(
    marks: Map<Uuid, u64>,
    ops: Seq<OperationView>,
    instance: Uuid,
    upto: int,
)
    requires
        rising(ops),
        forall|i: int| 0 <= i < ops.len() ==> (#[trigger] ops[i]).instance == instance,
        mark_in(marks, instance) == -1,
        0 <= upto <= ops.len(),
    ensures
        admitted(marks, ops.take(upto)) == ops.take(upto),
    decreases upto,
{
    if upto == 0 {
        assert(ops.take(0) =~= Seq::empty());
    } else {
        lemma_unknown_sender_is_admitted(marks, ops, instance, upto - 1);
        let run = ops.take(upto);
        assert(run.drop_last() =~= ops.take(upto - 1));
        assert(run.last() == ops[upto - 1]);
        lemma_mark_after(marks, ops.take(upto - 1), instance);
        lemma_rising_highest(ops, instance, upto - 1);
        lemma_highest_floor(ops.take(upto - 1), instance);
        assert(is_new_in(marks_after(marks, run.drop_last()), run.last().instance, run.last().timestamp));
        assert(run.drop_last().push(run.last()) =~= run);
    }
}

/// An instance has no timestamp in a run that another instance made.
pub proof fn lemma_highest_of_stranger(ops: Seq<OperationView>, owner: Uuid, stranger: Uuid)
    requires
        forall|i: int| 0 <= i < ops.len() ==> (#[trigger] ops[i]).instance == owner,
        owner != stranger,
    ensures
        highest(ops, stranger) == -1,
    decreases ops.len(),
{
    if ops.len() > 0 {
        let before = ops.drop_last();
        assert forall|i: int| 0 <= i < before.len() implies (#[trigger] before[i]).instance
            == owner by {
            assert(before[i] == ops[i]);
        }
        lemma_highest_of_stranger(before, owner, stranger);
        assert(ops.last() == ops[ops.len() - 1]);
    }
}

/// End-to-end convergence. Two instances have each written to records of
/// their own and received nothing yet. Each sends the other all that it
/// made, and each ingests what it is sent. Then every operation was sent
/// and every one applied: each log holds its own operations followed by the
/// other's; the two clocks are the same; and every record has the same
/// history on both sides, so that storage, which applies to each record the
/// operations of its history in their order, ends in the same state on
/// both.
pub proof fn lemma_exchange_converges(
    one: LogView,
    other: LogView,
    model: Seq<char>,
    record_id: Value,
)
    requires
        own_only(one),
        own_only(other),
        one.instance != other.instance,
        disjoint_records(one.ops, other.ops),
    ensures
        since(one.ops, one.instance, -1) == one.ops,
        since(other.ops, other.instance, -1) == other.ops,
        taken_in(one, other.ops).ops == one.ops + other.ops,
        taken_in(other, one.ops).ops == other.ops + one.ops,
        taken_in(one, other.ops).marks == taken_in(other, one.ops).marks,
        record_history(taken_in(one, other.ops).ops, model, record_id) == record_history(
            taken_in(other, one.ops).ops,
            model,
            record_id,
        ),
{
    lemma_filter_keeps_all(one.ops, made_after(one.instance, -1));
    lemma_filter_keeps_all(other.ops, made_after(other.instance, -1));

    assert(mark_in(one.marks, other.instance) == -1);
    assert(mark_in(other.marks, one.instance) == -1);
    lemma_unknown_sender_is_admitted(one.marks, other.ops, other.instance, other.ops.len() as int);
    lemma_unknown_sender_is_admitted(other.marks, one.ops, one.instance, one.ops.len() as int);
    assert(other.ops.take(other.ops.len() as int) =~= other.ops);
    assert(one.ops.take(one.ops.len() as int) =~= one.ops);

    let here = taken_in(one, other.ops).marks;
    let there = taken_in(other, one.ops).marks;
    assert forall|instance: Uuid| mark_in(here, instance) == mark_in(there, instance) by {
        lemma_mark_after(one.marks, other.ops, instance);
        lemma_mark_after(other.marks, one.ops, instance);
        lemma_highest_floor(one.ops, instance);
        lemma_highest_floor(other.ops, instance);
        if instance == one.instance {
            lemma_highest_of_stranger(other.ops, other.instance, instance);
        } else if instance == other.instance {
            lemma_highest_of_stranger(one.ops, one.instance, instance);
        } else {
            lemma_highest_of_stranger(other.ops, other.instance, instance);
            lemma_highest_of_stranger(one.ops, one.instance, instance);
        }
    }
    lemma_same_marks(here, there);

    let test = on_record(model, record_id);
    Seq::filter_distributes_over_add(one.ops, other.ops, test);
    Seq::filter_distributes_over_add(other.ops, one.ops, test);
    if exists|i: int| 0 <= i < one.ops.len() && test(one.ops[i]) {
        let i = choose|i: int| 0 <= i < one.ops.len() && test(one.ops[i]);
        assert forall|j: int| 0 <= j < other.ops.len() implies !test(
            #[trigger] other.ops[j],
        ) by {
            assert(!(one.ops[i].model == other.ops[j].model && one.ops[i].record_id
                == other.ops[j].record_id));
        }
        lemma_filter_keeps_none(other.ops, test);
        assert(one.ops.filter(test) + Seq::<OperationView>::empty() =~= Seq::<
            OperationView,
        >::empty() + one.ops.filter(test));
    } else {
        lemma_filter_keeps_none(one.ops, test);
        assert(other.ops.filter(test) + Seq::<OperationView>::empty() =~= Seq::<
            OperationView,
        >::empty() + other.ops.filter(test));
    }
}

/// A log that holds only what its owner made stays such a log when the
/// owner makes another operation, stamped beyond its mark.
pub proof fn lemma_local_append_keeps_own_only(log: LogView, op: OperationView)
    requires
        own_only(log),
        op.instance == log.instance,
        op.timestamp > mark_in(log.marks, log.instance),
    ensures
        own_only(
            LogView {
                instance: log.instance,
                marks: log.marks.insert(log.instance, op.timestamp),
                ops: log.ops.push(op),
            },
        ),
{
    let after = LogView {
        instance: log.instance,
        marks: log.marks.insert(log.instance, op.timestamp),
        ops: log.ops.push(op),
    };
    assert(after.ops.drop_last() =~= log.ops);
    assert forall|i: int, j: int|
        0 <= i < j < after.ops.len() && after.ops[i].instance
            == after.ops[j].instance implies after.ops[i].timestamp < after.ops[j].timestamp by {
        if j == log.ops.len() {
            lemma_highest_bounds(log.ops, i);
            assert(mark_in(log.marks, log.instance) == highest(log.ops, log.instance));
        } else {
            assert(log.ops[i].instance == log.ops[j].instance);
        }
    }
    assert forall|instance: Uuid|
        mark_in(after.marks, instance) == if instance == after.instance {
            highest(after.ops, instance)
        } else {
            -1
        } by {
        assert(mark_in(log.marks, instance) == if instance == log.instance {
            highest(log.ops, instance)
        } else {
            -1
        });
    }
}

} // verus!
