//! The form of encoded batches: that every encoded batch has it, and that
//! encoding and decoding are inverse to each other between runs of
//! operations and batches of that form.

use crate::sync::compressed::{
    absorb, absorb_model, absorb_record, canonical, compress, decode, encode, expand,
    lemma_decode_encode, lemma_decode_push, lemma_models_ops_push,
    lemma_records_ops_push, models_canonical, models_ops, record_ops, records_canonical,
    records_ops, InstanceGroup, ModelGroup, RecordGroup,
};
use crate::sync::operation::OperationView;
use uuid::Uuid;
use vstd::prelude::*;

verus! {

/// Absorbing an operation keeps record groups in form.
pub proof fn lemma_absorb_record_canonical(records: Seq<RecordGroup>, op: OperationView)
    requires
        records_canonical(records),
    ensures
        records_canonical(absorb_record(records, op)),
        absorb_record(records, op).len() > 0,
        absorb_record(records, op).last().record_id == op.record_id,
{
    let after = absorb_record(records, op);
    assert forall|i: int| 0 <= i < after.len() implies (#[trigger] after[i]).ops.len() > 0 by {
        if i < records.len() - 1 {
            assert(after[i] == records[i]);
        } else if i == records.len() - 1 && i < after.len() - 1 {
            assert(after[i] == records[i]);
        }
    }
    assert forall|i: int| 0 < i < after.len() implies after[i - 1].record_id != (
    #[trigger] after[i]).record_id by {
        if i < after.len() - 1 {
            assert(after[i] == records[i]);
            assert(after[i - 1] == records[i - 1]);
        } else if records.len() > 0 && records.last().record_id == op.record_id {
            assert(after[i - 1] == records[i - 1]);
            assert(records[i].record_id == op.record_id);
        } else {
            assert(after[i - 1] == records[i - 1]);
        }
    }
}

/// Absorbing an operation keeps model groups in form.
pub proof fn lemma_absorb_model_canonical(models: Seq<ModelGroup>, op: OperationView)
    requires
        models_canonical(models),
    ensures
        models_canonical(absorb_model(models, op)),
        absorb_model(models, op).len() > 0,
        absorb_model(models, op).last().model == op.model,
{
    let after = absorb_model(models, op);
    if models.len() > 0 && models.last().model == op.model {
        assert(records_canonical(models[models.len() - 1].records));
        lemma_absorb_record_canonical(models.last().records, op);
    } else {
        lemma_absorb_record_canonical(Seq::empty(), op);
    }
    assert forall|i: int| 0 <= i < after.len() implies (#[trigger] after[i]).records.len() > 0
        && records_canonical(after[i].records) by {
        if i < after.len() - 1 {
            assert(after[i] == models[i]);
        }
    }
    assert forall|i: int| 0 < i < after.len() implies after[i - 1].model != (
    #[trigger] after[i]).model by {
        if i < after.len() - 1 {
            assert(after[i] == models[i]);
            assert(after[i - 1] == models[i - 1]);
        } else if models.len() > 0 && models.last().model == op.model {
            assert(after[i - 1] == models[i - 1]);
            assert(models[i].model == op.model);
        } else {
            assert(after[i - 1] == models[i - 1]);
        }
    }
}

/// Absorbing an operation keeps a batch in form.
pub proof fn lemma_absorb_canonical(batch: Seq<InstanceGroup>, op: OperationView)
    requires
        canonical(batch),
    ensures
        canonical(absorb(batch, op)),
{
    let after = absorb(batch, op);
    if batch.len() > 0 && batch.last().instance == op.instance {
        assert(models_canonical(batch[batch.len() - 1].models));
        lemma_absorb_model_canonical(batch.last().models, op);
    } else {
        lemma_absorb_model_canonical(Seq::empty(), op);
    }
    assert forall|i: int| 0 <= i < after.len() implies (#[trigger] after[i]).models.len() > 0
        && models_canonical(after[i].models) by {
        if i < after.len() - 1 {
            assert(after[i] == batch[i]);
        }
    }
    assert forall|i: int| 0 < i < after.len() implies after[i - 1].instance != (
    #[trigger] after[i]).instance by {
        if i < after.len() - 1 {
            assert(after[i] == batch[i]);
            assert(after[i - 1] == batch[i - 1]);
        } else if batch.len() > 0 && batch.last().instance == op.instance {
            assert(after[i - 1] == batch[i - 1]);
            assert(batch[i].instance == op.instance);
        } else {
            assert(after[i - 1] == batch[i - 1]);
        }
    }
}

/// Every encoded batch is in form: no group of it is empty, and no two
/// neighbouring groups carry the same key, so that a key that comes back
/// after another starts a group of its own.
pub proof fn lemma_encode_canonical(ops: Seq<OperationView>)
    ensures
        canonical(encode(ops)),
    decreases ops.len(),
{
    if ops.len() > 0 {
        lemma_encode_canonical(ops.drop_last());
        lemma_absorb_canonical(encode(ops.drop_last()), ops.last());
    }
}

/// The record groups without the last operation of the last group.
pub open spec fn records_without_last(records: Seq<RecordGroup>) -> Seq<RecordGroup> {
    let group = records.last();
    if group.ops.len() > 1 {
        records.drop_last().push(
            RecordGroup { record_id: group.record_id, ops: group.ops.drop_last() },
        )
    } else {
        records.drop_last()
    }
}

/// The model groups without the last operation of the last group.
pub open spec fn models_without_last(models: Seq<ModelGroup>) -> Seq<ModelGroup> {
    let group = models.last();
    let rest = records_without_last(group.records);
    if rest.len() > 0 {
        models.drop_last().push(ModelGroup { model: group.model, records: rest })
    } else {
        models.drop_last()
    }
}

/// The batch without its last operation.
pub open spec fn without_last(batch: Seq<InstanceGroup>) -> Seq<InstanceGroup> {
    let group = batch.last();
    let rest = models_without_last(group.models);
    if rest.len() > 0 {
        batch.drop_last().push(InstanceGroup { instance: group.instance, models: rest })
    } else {
        batch.drop_last()
    }
}

/// The last operation of a batch.
pub open spec fn last_op(batch: Seq<InstanceGroup>) -> OperationView {
    let instance = batch.last();
    let model = instance.models.last();
    let record = model.records.last();
    expand(instance.instance, model.model, record.record_id, record.ops.last())
}

/// Record groups in form are what absorbing their last operation into the
/// rest gives.
pub proof fn lemma_records_peel(instance: Uuid, model: Seq<char>, records: Seq<RecordGroup>)
    requires
        records_canonical(records),
        records.len() > 0,
    ensures
        records_canonical(records_without_last(records)),
        absorb_record(
            records_without_last(records),
            expand(instance, model, records.last().record_id, records.last().ops.last()),
        ) == records,
        records_ops(instance, model, records) == records_ops(
            instance,
            model,
            records_without_last(records),
        ).push(expand(instance, model, records.last().record_id, records.last().ops.last())),
{
    let group = records.last();
    let op = expand(instance, model, group.record_id, group.ops.last());
    let rest = records_without_last(records);
    assert(records[records.len() - 1].ops.len() > 0);
    assert(records.drop_last().push(group) =~= records);
    assert(compress(op) == group.ops.last());
    if group.ops.len() > 1 {
        let shorter = RecordGroup { record_id: group.record_id, ops: group.ops.drop_last() };
        assert(rest.last() == shorter);
        assert(rest.drop_last() =~= records.drop_last());
        assert(shorter.ops.push(compress(op)) =~= group.ops);
        assert(absorb_record(rest, op) =~= records);
        assert forall|i: int| 0 <= i < rest.len() implies (#[trigger] rest[i]).ops.len() > 0 by {
            if i < rest.len() - 1 {
                assert(rest[i] == records[i]);
            }
        }
        assert forall|i: int| 0 < i < rest.len() implies rest[i - 1].record_id != (
        #[trigger] rest[i]).record_id by {
            assert(rest[i - 1] == records[i - 1]);
            assert(rest[i].record_id == records[i].record_id);
        }
        lemma_records_ops_push(instance, model, records.drop_last(), shorter);
        lemma_records_ops_push(instance, model, records.drop_last(), group);
        assert(record_ops(instance, model, group) =~= record_ops(instance, model, shorter).push(op));
        assert(records_ops(instance, model, records) =~= records_ops(instance, model, rest).push(
            op,
        ));
    } else {
        assert(group.ops =~= seq![compress(op)]);
        if rest.len() > 0 {
            assert(rest.last() == records[records.len() - 2]);
            assert(records[records.len() - 2].record_id != records[records.len() - 1].record_id);
        }
        assert(absorb_record(rest, op) =~= records);
        assert forall|i: int| 0 <= i < rest.len() implies (#[trigger] rest[i]).ops.len() > 0 by {
            assert(rest[i] == records[i]);
        }
        assert forall|i: int| 0 < i < rest.len() implies rest[i - 1].record_id != (
        #[trigger] rest[i]).record_id by {
            assert(rest[i - 1] == records[i - 1]);
            assert(rest[i] == records[i]);
        }
        lemma_records_ops_push(instance, model, rest, group);
        assert(record_ops(instance, model, group) =~= seq![op]);
        assert(records_ops(instance, model, records) =~= records_ops(instance, model, rest).push(
            op,
        ));
    }
}

/// Model groups in form are what absorbing their last operation into the
/// rest gives.
pub proof fn lemma_models_peel(instance: Uuid, models: Seq<ModelGroup>)
    requires
        models_canonical(models),
        models.len() > 0,
    ensures
        models_canonical(models_without_last(models)),
        absorb_model(
            models_without_last(models),
            expand(
                instance,
                models.last().model,
                models.last().records.last().record_id,
                models.last().records.last().ops.last(),
            ),
        ) == models,
        models_ops(instance, models) == models_ops(instance, models_without_last(models)).push(
            expand(
                instance,
                models.last().model,
                models.last().records.last().record_id,
                models.last().records.last().ops.last(),
            ),
        ),
{
    let group = models.last();
    let record = group.records.last();
    let op = expand(instance, group.model, record.record_id, record.ops.last());
    let fewer = records_without_last(group.records);
    let rest = models_without_last(models);
    assert(models[models.len() - 1].records.len() > 0);
    assert(records_canonical(models[models.len() - 1].records));
    lemma_records_peel(instance, group.model, group.records);
    assert(models.drop_last().push(group) =~= models);
    if fewer.len() > 0 {
        let shorter = ModelGroup { model: group.model, records: fewer };
        assert(rest.last() == shorter);
        assert(rest.drop_last() =~= models.drop_last());
        assert(absorb_model(rest, op) =~= models);
        assert forall|i: int| 0 <= i < rest.len() implies (#[trigger] rest[i]).records.len() > 0
            && records_canonical(rest[i].records) by {
            if i < rest.len() - 1 {
                assert(rest[i] == models[i]);
            }
        }
        assert forall|i: int| 0 < i < rest.len() implies rest[i - 1].model != (
        #[trigger] rest[i]).model by {
            assert(rest[i - 1] == models[i - 1]);
            assert(rest[i].model == models[i].model);
        }
        lemma_models_ops_push(instance, models.drop_last(), shorter);
        lemma_models_ops_push(instance, models.drop_last(), group);
        assert(models_ops(instance, models) =~= models_ops(instance, rest).push(op));
    } else {
        assert(absorb_record(Seq::empty(), op) =~= group.records);
        if rest.len() > 0 {
            assert(rest.last() == models[models.len() - 2]);
            assert(models[models.len() - 2].model != models[models.len() - 1].model);
        }
        assert(absorb_model(rest, op) =~= models);
        assert forall|i: int| 0 <= i < rest.len() implies (#[trigger] rest[i]).records.len() > 0
            && records_canonical(rest[i].records) by {
            assert(rest[i] == models[i]);
        }
        assert forall|i: int| 0 < i < rest.len() implies rest[i - 1].model != (
        #[trigger] rest[i]).model by {
            assert(rest[i - 1] == models[i - 1]);
            assert(rest[i] == models[i]);
        }
        lemma_models_ops_push(instance, rest, group);
        assert(records_ops(instance, group.model, fewer) =~= Seq::empty());
        assert(models_ops(instance, models) =~= models_ops(instance, rest).push(op));
    }
}

/// A batch in form is what absorbing its last operation into the rest
/// gives.
pub proof fn lemma_batch_peel(batch: Seq<InstanceGroup>)
    requires
        canonical(batch),
        batch.len() > 0,
    ensures
        canonical(without_last(batch)),
        absorb(without_last(batch), last_op(batch)) == batch,
        decode(batch) == decode(without_last(batch)).push(last_op(batch)),
{
    let group = batch.last();
    let op = last_op(batch);
    let fewer = models_without_last(group.models);
    let rest = without_last(batch);
    assert(batch[batch.len() - 1].models.len() > 0);
    assert(models_canonical(batch[batch.len() - 1].models));
    lemma_models_peel(group.instance, group.models);
    assert(batch.drop_last().push(group) =~= batch);
    if fewer.len() > 0 {
        let shorter = InstanceGroup { instance: group.instance, models: fewer };
        assert(rest.last() == shorter);
        assert(rest.drop_last() =~= batch.drop_last());
        assert(absorb(rest, op) =~= batch);
        assert forall|i: int| 0 <= i < rest.len() implies (#[trigger] rest[i]).models.len() > 0
            && models_canonical(rest[i].models) by {
            if i < rest.len() - 1 {
                assert(rest[i] == batch[i]);
            }
        }
        assert forall|i: int| 0 < i < rest.len() implies rest[i - 1].instance != (
        #[trigger] rest[i]).instance by {
            assert(rest[i - 1] == batch[i - 1]);
            assert(rest[i].instance == batch[i].instance);
        }
        lemma_decode_push(batch.drop_last(), shorter);
        lemma_decode_push(batch.drop_last(), group);
        assert(decode(batch) =~= decode(rest).push(op));
    } else {
        assert(absorb_model(Seq::empty(), op) =~= group.models);
        if rest.len() > 0 {
            assert(rest.last() == batch[batch.len() - 2]);
            assert(batch[batch.len() - 2].instance != batch[batch.len() - 1].instance);
        }
        assert(absorb(rest, op) =~= batch);
        assert forall|i: int| 0 <= i < rest.len() implies (#[trigger] rest[i]).models.len() > 0
            && models_canonical(rest[i].models) by {
            assert(rest[i] == batch[i]);
        }
        assert forall|i: int| 0 < i < rest.len() implies rest[i - 1].instance != (
        #[trigger] rest[i]).instance by {
            assert(rest[i - 1] == batch[i - 1]);
            assert(rest[i] == batch[i]);
        }
        lemma_decode_push(rest, group);
        assert(models_ops(group.instance, fewer) =~= Seq::empty());
        assert(decode(batch) =~= decode(rest).push(op));
    }
}

/// Encoding undoes decoding on batches in form: the codec is a bijection
/// between runs of operations and such batches.
pub proof fn lemma_encode_decode(batch: Seq<InstanceGroup>)
    requires
        canonical(batch),
    ensures
        encode(decode(batch)) == batch,
    decreases decode(batch).len(),
{
    if batch.len() == 0 {
        assert(encode(decode(batch)) =~= batch);
    } else {
        lemma_batch_peel(batch);
        let rest = without_last(batch);
        let op = last_op(batch);
        assert(decode(batch).drop_last() =~= decode(rest));
        assert(decode(batch).last() == op);
        lemma_encode_decode(rest);
    }
}

/// Two runs of operations with the same encoding are the same run.
pub proof fn lemma_encode_injective(first: Seq<OperationView>, second: Seq<OperationView>)
    requires
        encode(first) == encode(second),
    ensures
        first == second,
{
    lemma_decode_encode(first);
    lemma_decode_encode(second);
}

} // verus!
