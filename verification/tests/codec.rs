use sd_core::sync::compressed::{CompressedCRDTOperation, CompressedCRDTOperations};
use sd_core::sync::operation::{CRDTOperation, CRDTOperationData};
use sd_core::sync::timestamp::NTP64;
use serde_json::Value;
use uuid::Uuid;

fn op(instance: u128, model: &str, record: i64, timestamp: u64) -> CRDTOperation {
    CRDTOperation {
        instance: Uuid::from_u128(instance),
        timestamp: NTP64(timestamp),
        id: Uuid::from_u128(1000 + timestamp as u128),
        model: model.to_string(),
        record_id: Value::from(record),
        data: CRDTOperationData::Update {
            field: "name".to_string(),
            value: Value::from(timestamp),
        },
    }
}

fn round_trip(ops: Vec<CRDTOperation>) {
    let decoded = CompressedCRDTOperations::new(ops.clone()).into_ops();
    assert_eq!(decoded, ops);
}

#[test]
fn empty_run_encodes_to_empty_batch() {
    let batch = CompressedCRDTOperations::new(vec![]);
    assert!(batch.0.is_empty());
    assert!(batch.into_ops().is_empty());
}

#[test]
fn singleton_round_trips() {
    let batch = CompressedCRDTOperations::new(vec![op(1, "tag", 7, 3)]);
    assert_eq!(batch.0.len(), 1);
    assert_eq!(batch.0[0].0, Uuid::from_u128(1));
    assert_eq!(batch.0[0].1.len(), 1);
    assert_eq!(batch.0[0].1[0].0, "tag");
    assert_eq!(batch.0[0].1[0].1.len(), 1);
    assert_eq!(batch.0[0].1[0].1[0].0, Value::from(7));
    assert_eq!(batch.0[0].1[0].1[0].1.len(), 1);
    assert_eq!(batch.into_ops(), vec![op(1, "tag", 7, 3)]);
}

#[test]
fn grouping_is_stable_when_a_model_comes_back() {
    let ops = vec![op(1, "M", 5, 1), op(1, "M", 5, 2), op(1, "N", 5, 3), op(1, "M", 5, 4)];
    let batch = CompressedCRDTOperations::new(ops.clone());
    assert_eq!(batch.0.len(), 1);
    let models = &batch.0[0].1;
    assert_eq!(models.len(), 3);
    assert_eq!(models[0].0, "M");
    assert_eq!(models[1].0, "N");
    assert_eq!(models[2].0, "M");
    assert_eq!(models[0].1.len(), 1);
    assert_eq!(models[0].1[0].1.len(), 2);
    assert_eq!(models[1].1[0].1.len(), 1);
    assert_eq!(models[2].1[0].1.len(), 1);
    assert_eq!(batch.into_ops(), ops);
}

#[test]
fn instance_change_closes_every_open_group() {
    let ops = vec![op(1, "M", 5, 1), op(2, "M", 5, 2), op(1, "M", 5, 3)];
    let batch = CompressedCRDTOperations::new(ops.clone());
    assert_eq!(batch.0.len(), 3);
    assert_eq!(batch.0[0].0, Uuid::from_u128(1));
    assert_eq!(batch.0[1].0, Uuid::from_u128(2));
    assert_eq!(batch.0[2].0, Uuid::from_u128(1));
    assert_eq!(batch.into_ops(), ops);
}

#[test]
fn record_change_closes_only_the_record_group() {
    let ops = vec![op(1, "M", 5, 1), op(1, "M", 6, 2), op(1, "M", 6, 3), op(1, "M", 5, 4)];
    let batch = CompressedCRDTOperations::new(ops.clone());
    assert_eq!(batch.0.len(), 1);
    assert_eq!(batch.0[0].1.len(), 1);
    let records = &batch.0[0].1[0].1;
    assert_eq!(records.len(), 3);
    assert_eq!(records[0].0, Value::from(5));
    assert_eq!(records[1].0, Value::from(6));
    assert_eq!(records[2].0, Value::from(5));
    assert_eq!(records[1].1.len(), 2);
    assert_eq!(batch.into_ops(), ops);
}

#[test]
fn compressed_operation_keeps_timestamp_id_and_data() {
    let full = op(1, "M", 5, 42);
    let compressed = CompressedCRDTOperation::from(full.clone());
    assert_eq!(compressed.timestamp, NTP64(42));
    assert_eq!(compressed.id, full.id);
    assert_eq!(compressed.data, full.data);
}

#[test]
fn interleaved_runs_round_trip() {
    let mut ops = Vec::new();
    let mut seed: u64 = 12345;
    for timestamp in 0..200u64 {
        seed = seed.wrapping_mul(6364136223846793005).wrapping_add(1442695040888963407);
        let instance = (seed >> 60) as u128 % 3;
        let model = if (seed >> 50) % 2 == 0 { "object" } else { "tag" };
        let record = ((seed >> 40) % 3) as i64;
        ops.push(op(instance, model, record, timestamp));
    }
    round_trip(ops);
}

#[test]
fn repeats_round_trip() {
    round_trip(vec![op(1, "M", 5, 1), op(1, "M", 5, 1), op(1, "M", 5, 1)]);
}

#[test]
fn hand_made_batch_with_repeated_keys_decodes_in_order() {
    let leaf = |timestamp: u64| CompressedCRDTOperation {
        timestamp: NTP64(timestamp),
        id: Uuid::from_u128(1000 + timestamp as u128),
        data: CRDTOperationData::Update { field: "name".to_string(), value: Value::from(timestamp) },
    };
    let batch = CompressedCRDTOperations(vec![(
        Uuid::from_u128(1),
        vec![
            ("M".to_string(), vec![(Value::from(5), vec![leaf(1)]), (Value::from(5), vec![leaf(2)])]),
            ("M".to_string(), vec![(Value::from(6), vec![])]),
        ],
    )]);
    assert_eq!(batch.into_ops(), vec![op(1, "M", 5, 1), op(1, "M", 5, 2)]);
}
