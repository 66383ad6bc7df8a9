//! The batch codec: a flat run of operations regrouped by instance, then by
//! model, then by record, and back again.

use crate::ident::same_id;
use crate::json::{clone_value, same_value};
use crate::sync::operation::{
    ops_view, CRDTOperation, CRDTOperationData, DataView, OperationView,
};
use crate::sync::timestamp::NTP64;
use serde_json::Value;
use uuid::Uuid;
use vstd::prelude::*;

verus! {

/// What is left of an operation once its instance, model and record are
/// written on the group that holds it.
#[derive(Debug, PartialEq, Eq)]
pub struct CompressedCRDTOperation {
    pub timestamp: NTP64,
    pub id: Uuid,
    pub data: CRDTOperationData,
}

/// The mathematical value of a compressed operation.
pub struct CompressedView {
    pub timestamp: u64,
    pub id: Uuid,
    pub data: DataView,
}

impl View for CompressedCRDTOperation {
    type V = CompressedView;

    open spec fn view(&self) -> CompressedView {
        CompressedView { timestamp: self.timestamp@, id: self.id, data: self.data@ }
    }
}

/// The operations of one record, in order.
pub struct RecordGroup {
    pub record_id: Value,
    pub ops: Seq<CompressedView>,
}

/// The record groups of one model, in order.
pub struct ModelGroup {
    pub model: Seq<char>,
    pub records: Seq<RecordGroup>,
}

/// The model groups of one instance, in order.
pub struct InstanceGroup {
    pub instance: Uuid,
    pub models: Seq<ModelGroup>,
}

/// An operation without the three keys of its group.
pub open spec fn compress(op: OperationView) -> CompressedView {
    CompressedView { timestamp: op.timestamp, id: op.id, data: op.data }
}

/// A compressed operation with the three keys of its group put back.
pub open spec fn expand(
    instance: Uuid,
    model: Seq<char>,
    record_id: Value,
    op: CompressedView,
) -> OperationView {
    OperationView {
        instance,
        timestamp: op.timestamp,
        id: op.id,
        model,
        record_id,
        data: op.data,
    }
}

/// The record groups after one more operation: it joins the last group where
/// that is of its record, else it starts a group.
pub open spec fn absorb_record(records: Seq<RecordGroup>, op: OperationView) -> Seq<RecordGroup> {
    if records.len() > 0 && records.last().record_id == op.record_id {
        records.drop_last().push(
            RecordGroup { record_id: op.record_id, ops: records.last().ops.push(compress(op)) },
        )
    } else {
        records.push(RecordGroup { record_id: op.record_id, ops: seq![compress(op)] })
    }
}

/// The model groups after one more operation: it joins the last group where
/// that is of its model, else it starts a group.
pub open spec fn absorb_model(models: Seq<ModelGroup>, op: OperationView) -> Seq<ModelGroup> {
    if models.len() > 0 && models.last().model == op.model {
        models.drop_last().push(
            ModelGroup { model: op.model, records: absorb_record(models.last().records, op) },
        )
    } else {
        models.push(ModelGroup { model: op.model, records: absorb_record(Seq::empty(), op) })
    }
}

/// The batch after one more operation: it joins the last group where that is
/// of its instance, else it starts a group.
pub open spec fn absorb(batch: Seq<InstanceGroup>, op: OperationView) -> Seq<InstanceGroup> {
    if batch.len() > 0 && batch.last().instance == op.instance {
        batch.drop_last().push(
            InstanceGroup { instance: op.instance, models: absorb_model(batch.last().models, op) },
        )
    } else {
        batch.push(
            InstanceGroup { instance: op.instance, models: absorb_model(Seq::empty(), op) },
        )
    }
}

/// The batch that a run of operations is encoded as: the operations taken
/// in order, each joining the open group or starting a new one.
pub open spec fn encode(ops: Seq<OperationView>) -> Seq<InstanceGroup>
    decreases ops.len(),
{
    if ops.len() == 0 {
        Seq::empty()
    } else {
        absorb(encode(ops.drop_last()), ops.last())
    }
}

/// The operations of one record group.
pub open spec fn record_ops(instance: Uuid, model: Seq<char>, group: RecordGroup) -> Seq<
    OperationView,
> {
    Seq::new(group.ops.len(), |i: int| expand(instance, model, group.record_id, group.ops[i]))
}

/// The operations of a run of record groups.
pub open spec fn records_ops(instance: Uuid, model: Seq<char>, records: Seq<RecordGroup>) -> Seq<
    OperationView,
>
    decreases records.len(),
{
    if records.len() == 0 {
        Seq::empty()
    } else {
        records_ops(instance, model, records.drop_last()) + record_ops(
            instance,
            model,
            records.last(),
        )
    }
}

/// The operations of a run of model groups.
pub open spec fn models_ops(instance: Uuid, models: Seq<ModelGroup>) -> Seq<OperationView>
    decreases models.len(),
{
    if models.len() == 0 {
        Seq::empty()
    } else {
        models_ops(instance, models.drop_last()) + records_ops(
            instance,
            models.last().model,
            models.last().records,
        )
    }
}

/// The run of operations that a batch is decoded as: group after group,
/// each operation with the keys of the groups around it.
pub open spec fn decode(batch: Seq<InstanceGroup>) -> Seq<OperationView>
    decreases batch.len(),
{
    if batch.len() == 0 {
        Seq::empty()
    } else {
        decode(batch.drop_last()) + models_ops(batch.last().instance, batch.last().models)
    }
}

/// No record group is empty, and no two neighbours are of one record.
pub open spec fn records_canonical(records: Seq<RecordGroup>) -> bool {
    &&& forall|i: int| 0 <= i < records.len() ==> (#[trigger] records[i]).ops.len() > 0
    &&& forall|i: int|
        0 < i < records.len() ==> records[i - 1].record_id != (#[trigger] records[i]).record_id
}

/// No model group is empty, none holds a record group out of form, and no
/// two neighbours are of one model.
pub open spec fn models_canonical(models: Seq<ModelGroup>) -> bool {
    &&& forall|i: int|
        0 <= i < models.len() ==> (#[trigger] models[i]).records.len() > 0 && records_canonical(
            models[i].records,
        )
    &&& forall|i: int| 0 < i < models.len() ==> models[i - 1].model != (#[trigger] models[i]).model
}

/// The form that every encoded batch has: no group is empty at any level,
/// and no two neighbouring groups carry the same key.
pub open spec fn canonical(batch: Seq<InstanceGroup>) -> bool {
    &&& forall|i: int|
        0 <= i < batch.len() ==> (#[trigger] batch[i]).models.len() > 0 && models_canonical(
            batch[i].models,
        )
    &&& forall|i: int|
        0 < i < batch.len() ==> batch[i - 1].instance != (#[trigger] batch[i]).instance
}

pub proof fn lemma_records_ops_push(
    instance: Uuid,
    model: Seq<char>,
    records: Seq<RecordGroup>,
    group: RecordGroup,
)
    ensures
        records_ops(instance, model, records.push(group)) == records_ops(instance, model, records)
            + record_ops(instance, model, group),
{
    assert(records.push(group).drop_last() == records);
}

pub proof fn lemma_models_ops_push(instance: Uuid, models: Seq<ModelGroup>, group: ModelGroup)
    ensures
        models_ops(instance, models.push(group)) == models_ops(instance, models) + records_ops(
            instance,
            group.model,
            group.records,
        ),
{
    assert(models.push(group).drop_last() == models);
}

pub proof fn lemma_decode_push(batch: Seq<InstanceGroup>, group: InstanceGroup)
    ensures
        decode(batch.push(group)) == decode(batch) + models_ops(group.instance, group.models),
{
    assert(batch.push(group).drop_last() == batch);
}

/// Absorbing an operation into the record groups of its model adds it at
/// the end of their operations.
pub proof fn lemma_absorb_record_ops(records: Seq<RecordGroup>, op: OperationView)
    ensures
        records_ops(op.instance, op.model, absorb_record(records, op)) == records_ops(
            op.instance,
            op.model,
            records,
        ).push(op),
{
    let c = compress(op);
    if records.len() > 0 && records.last().record_id == op.record_id {
        let joined = RecordGroup { record_id: op.record_id, ops: records.last().ops.push(c) };
        lemma_records_ops_push(op.instance, op.model, records.drop_last(), joined);
        assert(record_ops(op.instance, op.model, joined) =~= record_ops(
            op.instance,
            op.model,
            records.last(),
        ).push(op));
        assert(records_ops(op.instance, op.model, absorb_record(records, op)) =~= records_ops(
            op.instance,
            op.model,
            records,
        ).push(op));
    } else {
        let started = RecordGroup { record_id: op.record_id, ops: seq![c] };
        lemma_records_ops_push(op.instance, op.model, records, started);
        assert(record_ops(op.instance, op.model, started) =~= seq![op]);
        assert(records_ops(op.instance, op.model, absorb_record(records, op)) =~= records_ops(
            op.instance,
            op.model,
            records,
        ).push(op));
    }
}

/// Absorbing an operation into the model groups of its instance adds it at
/// the end of their operations.
pub proof fn lemma_absorb_model_ops(models: Seq<ModelGroup>, op: OperationView)
    ensures
        models_ops(op.instance, absorb_model(models, op)) == models_ops(op.instance, models).push(
            op,
        ),
{
    if models.len() > 0 && models.last().model == op.model {
        let joined = ModelGroup {
            model: op.model,
            records: absorb_record(models.last().records, op),
        };
        lemma_models_ops_push(op.instance, models.drop_last(), joined);
        lemma_absorb_record_ops(models.last().records, op);
        assert(models_ops(op.instance, absorb_model(models, op)) =~= models_ops(
            op.instance,
            models,
        ).push(op));
    } else {
        let started = ModelGroup { model: op.model, records: absorb_record(Seq::empty(), op) };
        lemma_models_ops_push(op.instance, models, started);
        lemma_absorb_record_ops(Seq::empty(), op);
        assert(records_ops(op.instance, op.model, Seq::<RecordGroup>::empty()) =~= Seq::empty());
        assert(models_ops(op.instance, absorb_model(models, op)) =~= models_ops(
            op.instance,
            models,
        ).push(op));
    }
}

/// Absorbing an operation into a batch adds it at the end of the batch's
/// operations.
pub proof fn lemma_absorb_ops(batch: Seq<InstanceGroup>, op: OperationView)
    ensures
        decode(absorb(batch, op)) == decode(batch).push(op),
{
    if batch.len() > 0 && batch.last().instance == op.instance {
        let joined = InstanceGroup {
            instance: op.instance,
            models: absorb_model(batch.last().models, op),
        };
        lemma_decode_push(batch.drop_last(), joined);
        lemma_absorb_model_ops(batch.last().models, op);
        assert(decode(absorb(batch, op)) =~= decode(batch).push(op));
    } else {
        let started = InstanceGroup {
            instance: op.instance,
            models: absorb_model(Seq::empty(), op),
        };
        lemma_decode_push(batch, started);
        lemma_absorb_model_ops(Seq::empty(), op);
        assert(models_ops(op.instance, Seq::<ModelGroup>::empty()) =~= Seq::empty());
        assert(decode(absorb(batch, op)) =~= decode(batch).push(op));
    }
}

/// The codec's round trip: decoding the encoding of any run of operations
/// gives back that run, in its order.
pub proof fn lemma_decode_encode(ops: Seq<OperationView>)
    ensures
        decode(encode(ops)) == ops,
    decreases ops.len(),
{
    if ops.len() == 0 {
        assert(decode(encode(ops)) =~= ops);
    } else {
        lemma_decode_encode(ops.drop_last());
        lemma_absorb_ops(encode(ops.drop_last()), ops.last());
        assert(ops.drop_last().push(ops.last()) =~= ops);
    }
}

/// The record groups of one model as they are held: each record identifier
/// with its operations.
pub type CompressedCRDTOperationsForModel = Vec<(Value, Vec<CompressedCRDTOperation>)>;

/// A compressed batch: for each instance its models, for each model its
/// records, for each record its operations.
#[derive(Debug, PartialEq, Eq)]
pub struct CompressedCRDTOperations(
    pub Vec<(Uuid, Vec<(String, CompressedCRDTOperationsForModel)>)>,
);

/// The values of a run of compressed operations.
pub open spec fn compressed_view(ops: Seq<CompressedCRDTOperation>) -> Seq<CompressedView> {
    Seq::new(ops.len(), |i: int| ops[i]@)
}

/// The record groups that a model's held records stand for.
pub open spec fn records_view(records: Seq<(Value, Vec<CompressedCRDTOperation>)>) -> Seq<
    RecordGroup,
> {
    Seq::new(
        records.len(),
        |i: int| RecordGroup { record_id: records[i].0, ops: compressed_view(records[i].1@) },
    )
}

/// The model groups that an instance's held models stand for.
pub open spec fn models_view(
    models: Seq<(String, Vec<(Value, Vec<CompressedCRDTOperation>)>)>,
) -> Seq<ModelGroup> {
    Seq::new(
        models.len(),
        |i: int| ModelGroup { model: models[i].0@, records: records_view(models[i].1@) },
    )
}

/// The instance groups that a held batch stands for.
pub open spec fn instances_view(
    instances: Seq<(Uuid, Vec<(String, Vec<(Value, Vec<CompressedCRDTOperation>)>)>)>,
) -> Seq<InstanceGroup> {
    Seq::new(
        instances.len(),
        |i: int| InstanceGroup { instance: instances[i].0, models: models_view(instances[i].1@) },
    )
}

impl View for CompressedCRDTOperations {
    type V = Seq<InstanceGroup>;

    open spec fn view(&self) -> Seq<InstanceGroup> {
        instances_view(self.0@)
    }
}

impl From<CRDTOperation> for CompressedCRDTOperation {
    fn from(value: CRDTOperation) -> (compressed: Self)
        ensures
            compressed@ == compress(value@),
    {
        Self { timestamp: value.timestamp, id: value.id, data: value.data }
    }
}

impl vstd::std_specs::convert::FromSpecImpl<CRDTOperation> for CompressedCRDTOperation {
    open spec fn obeys_from_spec() -> bool {
        true
    }

    open spec fn from_spec(value: CRDTOperation) -> Self {
        CompressedCRDTOperation { timestamp: value.timestamp, id: value.id, data: value.data }
    }
}

/// A batch under construction: the closed instance groups, then the open
/// instance group with its closed model groups, then the open model group
/// with its closed record groups, then the open record group.
pub open spec fn open_batch(
    closed: Seq<InstanceGroup>,
    instance: Uuid,
    models: Seq<ModelGroup>,
    model: Seq<char>,
    records: Seq<RecordGroup>,
    record_id: Value,
    ops: Seq<CompressedView>,
) -> Seq<InstanceGroup> {
    closed.push(
        InstanceGroup {
            instance,
            models: models.push(
                ModelGroup { model, records: records.push(RecordGroup { record_id, ops }) },
            ),
        },
    )
}

proof fn lemma_records_view_push(
    records: Seq<(Value, Vec<CompressedCRDTOperation>)>,
    group: (Value, Vec<CompressedCRDTOperation>),
)
    ensures
        records_view(records.push(group)) == records_view(records).push(
            RecordGroup { record_id: group.0, ops: compressed_view(group.1@) },
        ),
{
    assert(records_view(records.push(group)) =~= records_view(records).push(
        RecordGroup { record_id: group.0, ops: compressed_view(group.1@) },
    ));
}

proof fn lemma_models_view_push(
    models: Seq<(String, Vec<(Value, Vec<CompressedCRDTOperation>)>)>,
    group: (String, Vec<(Value, Vec<CompressedCRDTOperation>)>),
)
    ensures
        models_view(models.push(group)) == models_view(models).push(
            ModelGroup { model: group.0@, records: records_view(group.1@) },
        ),
{
    assert(models_view(models.push(group)) =~= models_view(models).push(
        ModelGroup { model: group.0@, records: records_view(group.1@) },
    ));
}

proof fn lemma_instances_view_push(
    instances: Seq<(Uuid, Vec<(String, Vec<(Value, Vec<CompressedCRDTOperation>)>)>)>,
    group: (Uuid, Vec<(String, Vec<(Value, Vec<CompressedCRDTOperation>)>)>),
)
    ensures
        instances_view(instances.push(group)) == instances_view(instances).push(
            InstanceGroup { instance: group.0, models: models_view(group.1@) },
        ),
{
    assert(instances_view(instances.push(group)) =~= instances_view(instances).push(
        InstanceGroup { instance: group.0, models: models_view(group.1@) },
    ));
}

/// Closes the open record group: it goes, under its record, to the end of
/// the model's record groups, and a new one is opened, empty.
fn close_record(
    model: &mut CompressedCRDTOperationsForModel,
    record: &mut Vec<CompressedCRDTOperation>,
    record_id: Value,
)
    ensures
        records_view(final(model)@) == records_view(old(model)@).push(
            RecordGroup { record_id, ops: compressed_view(old(record)@) },
        ),
        compressed_view(final(record)@) == Seq::<CompressedView>::empty(),
{
    let mut closed: Vec<CompressedCRDTOperation> = Vec::new();
    std::mem::swap(&mut closed, record);
    proof {
        assert(records_view(model@.push((record_id, closed))) =~= records_view(model@).push(
            RecordGroup { record_id, ops: compressed_view(closed@) },
        ));
        assert(compressed_view(record@) =~= Seq::empty());
    }
    model.push((record_id, closed));
}

/// Closes the open model group: it goes, under its model, to the end of
/// the instance's model groups, and a new one is opened, empty.
fn close_model(
    instance: &mut Vec<(String, CompressedCRDTOperationsForModel)>,
    model: &mut CompressedCRDTOperationsForModel,
    model_str: String,
)
    ensures
        models_view(final(instance)@) == models_view(old(instance)@).push(
            ModelGroup { model: model_str@, records: records_view(old(model)@) },
        ),
        records_view(final(model)@) == Seq::<RecordGroup>::empty(),
{
    let mut closed: CompressedCRDTOperationsForModel = Vec::new();
    std::mem::swap(&mut closed, model);
    proof {
        assert(models_view(instance@.push((model_str, closed))) =~= models_view(instance@).push(
            ModelGroup { model: model_str@, records: records_view(closed@) },
        ));
        assert(records_view(model@) =~= Seq::empty());
    }
    instance.push((model_str, closed));
}

/// Closes the open instance group: it goes, under its instance, to the end
/// of the batch, and a new one is opened, empty.
fn close_instance(
    compressed: &mut Vec<(Uuid, Vec<(String, CompressedCRDTOperationsForModel)>)>,
    instance: &mut Vec<(String, CompressedCRDTOperationsForModel)>,
    instance_id: Uuid,
)
    ensures
        instances_view(final(compressed)@) == instances_view(old(compressed)@).push(
            InstanceGroup { instance: instance_id, models: models_view(old(instance)@) },
        ),
        models_view(final(instance)@) == Seq::<ModelGroup>::empty(),
{
    let mut closed: Vec<(String, CompressedCRDTOperationsForModel)> = Vec::new();
    std::mem::swap(&mut closed, instance);
    proof {
        assert(instances_view(compressed@.push((instance_id, closed))) =~= instances_view(
            compressed@,
        ).push(InstanceGroup { instance: instance_id, models: models_view(closed@) }));
        assert(models_view(instance@) =~= Seq::empty());
    }
    compressed.push((instance_id, closed));
}

/// What absorbing an operation does to a batch under construction, by the
/// first of the three keys that changes.
proof fn lemma_absorb_open(
    closed: Seq<InstanceGroup>,
    instance: Uuid,
    models: Seq<ModelGroup>,
    model: Seq<char>,
    records: Seq<RecordGroup>,
    record_id: Value,
    ops: Seq<CompressedView>,
    op: OperationView,
)
    ensures
        absorb(open_batch(closed, instance, models, model, records, record_id, ops), op) == if instance
            != op.instance {
            open_batch(
                open_batch(closed, instance, models, model, records, record_id, ops),
                op.instance,
                Seq::empty(),
                op.model,
                Seq::empty(),
                op.record_id,
                seq![compress(op)],
            )
        } else if model != op.model {
            open_batch(
                closed,
                instance,
                models.push(
                    ModelGroup { model, records: records.push(RecordGroup { record_id, ops }) },
                ),
                op.model,
                Seq::empty(),
                op.record_id,
                seq![compress(op)],
            )
        } else if record_id != op.record_id {
            open_batch(
                closed,
                instance,
                models,
                model,
                records.push(RecordGroup { record_id, ops }),
                op.record_id,
                seq![compress(op)],
            )
        } else {
            open_batch(closed, instance, models, model, records, record_id, ops.push(compress(op)))
        },
{
    let open_record = RecordGroup { record_id, ops };
    let open_model = ModelGroup { model, records: records.push(open_record) };
    let open_instance = InstanceGroup { instance, models: models.push(open_model) };
    let batch = closed.push(open_instance);
    assert(batch.last() == open_instance);
    assert(batch.drop_last() =~= closed);
    assert(open_instance.models.last() == open_model);
    assert(open_instance.models.drop_last() =~= models);
    assert(open_model.records.last() == open_record);
    assert(open_model.records.drop_last() =~= records);
    assert(Seq::<RecordGroup>::empty().push(
        RecordGroup { record_id: op.record_id, ops: seq![compress(op)] },
    ) =~= absorb_record(Seq::empty(), op));
    assert(Seq::<ModelGroup>::empty().push(
        ModelGroup { model: op.model, records: absorb_record(Seq::empty(), op) },
    ) =~= absorb_model(Seq::empty(), op));
}

impl CompressedCRDTOperations {
    /// Encodes a run of operations in a single pass. An operation joins the
    /// open groups while instance, model and record stay the same; a change
    /// of instance closes all three open groups, a change of model the model
    /// and record groups, a change of record the record group alone. Nothing
    /// is reordered and nothing dropped.
    pub fn new(ops: Vec<CRDTOperation>) -> (batch: Self)
        ensures
            batch@ == encode(ops_view(ops@)),
            canonical(batch@),
            decode(batch@) == ops_view(ops@),
    {
        let mut compressed: Vec<(Uuid, Vec<(String, CompressedCRDTOperationsForModel)>)> =
            Vec::new();
        let mut instance: Vec<(String, CompressedCRDTOperationsForModel)> = Vec::new();
        let mut model: CompressedCRDTOperationsForModel = Vec::new();
        let mut record: Vec<CompressedCRDTOperation> = Vec::new();
        let mut keys: Option<(Uuid, String, Value)> = None;

        let ghost all = ops_view(ops@);
        let ghost given = ops@;

        for op in it: ops
            invariant
                it.seq() == given,
                all == ops_view(given),
                match keys {
                    None => it.index() == 0,
                    Some((instance_id, model_str, record_id)) => {
                        &&& it.index() > 0
                        &&& encode(all.take(it.index() as int)) == open_batch(
                            instances_view(compressed@),
                            instance_id,
                            models_view(instance@),
                            model_str@,
                            records_view(model@),
                            record_id,
                            compressed_view(record@),
                        )
                    },
                },
                keys.is_none() ==> compressed@.len() == 0 && instance@.len() == 0 && model@.len()
                    == 0 && record@.len() == 0,
        {
            let ghost at = it.index() as int;
            proof {
                assert(all.take(at + 1).drop_last() =~= all.take(at));
                assert(all.take(at + 1).last() == op@);
            }
            let next_keys = match keys {
                None => {
                    proof {
                        assert(all.take(0) =~= Seq::empty());
                        assert(instances_view(compressed@) =~= Seq::empty());
                        assert(models_view(instance@) =~= Seq::empty());
                        assert(records_view(model@) =~= Seq::empty());
                        assert(compressed_view(record@) =~= Seq::empty());
                        assert(absorb(Seq::empty(), op@) =~= open_batch(
                            Seq::empty(),
                            op.instance,
                            Seq::empty(),
                            op.model@,
                            Seq::empty(),
                            op.record_id,
                            seq![compress(op@)],
                        ));
                    }
                    (op.instance, op.model.clone(), clone_value(&op.record_id))
                },
                Some((instance_id, model_str, record_id)) => {
                    proof {
                        lemma_absorb_open(
                            instances_view(compressed@),
                            instance_id,
                            models_view(instance@),
                            model_str@,
                            records_view(model@),
                            record_id,
                            compressed_view(record@),
                            op@,
                        );
                    }
                    if !same_id(&instance_id, &op.instance) {
                        close_record(&mut model, &mut record, record_id);
                        close_model(&mut instance, &mut model, model_str);
                        close_instance(&mut compressed, &mut instance, instance_id);
                        (op.instance, op.model.clone(), clone_value(&op.record_id))
                    } else if !(model_str == op.model) {
                        close_record(&mut model, &mut record, record_id);
                        close_model(&mut instance, &mut model, model_str);
                        (instance_id, op.model.clone(), clone_value(&op.record_id))
                    } else if !same_value(&record_id, &op.record_id) {
                        close_record(&mut model, &mut record, record_id);
                        (instance_id, model_str, clone_value(&op.record_id))
                    } else {
                        (instance_id, model_str, record_id)
                    }
                },
            };
            let ghost held = compressed_view(record@);
            let ghost joining = compress(op@);
            record.push(CompressedCRDTOperation::from(op));
            proof {
                assert(compressed_view(record@) =~= held.push(joining));
                assert(held.len() == 0 ==> held.push(joining) =~= seq![joining]);
            }
            keys = Some(next_keys);
            proof {
                assert(encode(all.take(at + 1)) == absorb(encode(all.take(at)), op@));
                assert(encode(all.take(at + 1)) == open_batch(
                    instances_view(compressed@),
                    next_keys.0,
                    models_view(instance@),
                    next_keys.1@,
                    records_view(model@),
                    next_keys.2,
                    compressed_view(record@),
                ));
            }
        }

        proof {
            crate::sync::canonical::lemma_encode_canonical(all);
            lemma_decode_encode(all);
        }
        match keys {
            None => {
                proof {
                    assert(all =~= Seq::empty());
                    assert(instances_view(compressed@) =~= Seq::empty());
                }
                Self(compressed)
            },
            Some((instance_id, model_str, record_id)) => {
                proof {
                    assert(all.take(all.len() as int) =~= all);
                }
                close_record(&mut model, &mut record, record_id);
                close_model(&mut instance, &mut model, model_str);
                close_instance(&mut compressed, &mut instance, instance_id);
                Self(compressed)
            },
        }
    }

    /// Decodes the batch: the groups in their order, each operation with the
    /// instance, model and record of the groups that hold it. Any batch
    /// decodes, whether or not an encoder made it.
    pub fn into_ops(self) -> (ops: Vec<CRDTOperation>)
        ensures
            ops_view(ops@) == decode(self@),
    {
        let mut ops: Vec<CRDTOperation> = Vec::new();
        let ghost instances = self.0@;

        for instance_group in instance_it: self.0
            invariant
                instance_it.seq() == instances,
                ops_view(ops@) == decode(instances_view(instances.take(instance_it.index() as int))),
        {
            let ghost instance_at = instance_it.index() as int;
            let ghost decoded = ops_view(ops@);
            let (instance_id, instance) = instance_group;
            let ghost models = instance@;

            for model_group in model_it: instance
                invariant
                    model_it.seq() == models,
                    ops_view(ops@) == decoded + models_ops(
                        instance_id,
                        models_view(models.take(model_it.index() as int)),
                    ),
            {
                let ghost model_at = model_it.index() as int;
                let ghost decoded_models = ops_view(ops@);
                let (model_str, model) = model_group;
                let ghost records = model@;

                for record_group in record_it: model
                    invariant
                        record_it.seq() == records,
                        ops_view(ops@) == decoded_models + records_ops(
                            instance_id,
                            model_str@,
                            records_view(records.take(record_it.index() as int)),
                        ),
                {
                    let ghost record_at = record_it.index() as int;
                    let ghost decoded_records = ops_view(ops@);
                    let (record_id, record) = record_group;
                    let ghost held = record@;
                    let ghost group = RecordGroup {
                        record_id,
                        ops: compressed_view(held),
                    };

                    for op in op_it: record
                        invariant
                            op_it.seq() == held,
                            group == (RecordGroup { record_id, ops: compressed_view(held) }),
                            ops_view(ops@) == decoded_records + record_ops(
                                instance_id,
                                model_str@,
                                group,
                            ).take(op_it.index() as int),
                    {
                        let ghost before = ops_view(ops@);
                        let ghost at = op_it.index() as int;
                        ops.push(
                            CRDTOperation {
                                instance: instance_id,
                                model: model_str.clone(),
                                record_id: clone_value(&record_id),
                                timestamp: op.timestamp,
                                id: op.id,
                                data: op.data,
                            },
                        );
                        proof {
                            let expanded = record_ops(instance_id, model_str@, group);
                            assert(ops_view(ops@) =~= before.push(expanded[at]));
                            assert(expanded.take(at + 1) =~= expanded.take(at).push(expanded[at]));
                            assert(ops_view(ops@) =~= decoded_records + expanded.take(at + 1));
                        }
                    }
                    proof {
                        let expanded = record_ops(instance_id, model_str@, group);
                        assert(expanded.take(held.len() as int) =~= expanded);
                        assert(records.take(record_at + 1) =~= records.take(record_at).push(
                            records[record_at],
                        ));
                        lemma_records_view_push(records.take(record_at), records[record_at]);
                        lemma_records_ops_push(
                            instance_id,
                            model_str@,
                            records_view(records.take(record_at)),
                            group,
                        );
                        assert(ops_view(ops@) =~= decoded_models + records_ops(
                            instance_id,
                            model_str@,
                            records_view(records.take(record_at + 1)),
                        ));
                    }
                }
                proof {
                    assert(records.take(records.len() as int) =~= records);
                    assert(models.take(model_at + 1) =~= models.take(model_at).push(
                        models[model_at],
                    ));
                    lemma_models_view_push(models.take(model_at), models[model_at]);
                    lemma_models_ops_push(
                        instance_id,
                        models_view(models.take(model_at)),
                        ModelGroup { model: model_str@, records: records_view(records) },
                    );
                    assert(ops_view(ops@) =~= decoded + models_ops(
                        instance_id,
                        models_view(models.take(model_at + 1)),
                    ));
                }
            }
            proof {
                assert(models.take(models.len() as int) =~= models);
                assert(instances.take(instance_at + 1) =~= instances.take(instance_at).push(
                    instances[instance_at],
                ));
                lemma_instances_view_push(instances.take(instance_at), instances[instance_at]);
                lemma_decode_push(
                    instances_view(instances.take(instance_at)),
                    InstanceGroup { instance: instance_id, models: models_view(models) },
                );
            }
        }
        proof {
            assert(instances.take(instances.len() as int) =~= instances);
        }
        ops
    }
}

} // verus!
