use sd_core::sync::ingest::{
    next_step, settle, storage_call, IngestStep, IngestVerdict, StorageCall, StorageOutcome,
};
use sd_core::sync::log::OperationLog;
use sd_core::sync::operation::{CRDTOperation, CRDTOperationData};
use sd_core::sync::receive::{ReceiverAction, ReceiverEvent, ReceiverState};
use sd_core::sync::send::{SendAction, Sender};
use sd_core::sync::timestamp::NTP64;
use serde_json::Value;
use std::collections::BTreeMap;
use uuid::Uuid;

struct Storage {
    records: BTreeMap<(String, String), BTreeMap<String, Value>>,
    writes: usize,
}

impl Storage {
    fn new() -> Self {
        Storage { records: BTreeMap::new(), writes: 0 }
    }

    fn apply(&mut self, call: StorageCall) -> StorageOutcome {
        self.writes += 1;
        match call {
            StorageCall::Create { model, record_id, fields } => {
                self.records
                    .entry((model, record_id.to_string()))
                    .or_insert_with(|| fields.into_iter().collect());
            }
            StorageCall::Update { model, record_id, field, value } => {
                self.records
                    .entry((model, record_id.to_string()))
                    .or_default()
                    .insert(field, value);
            }
            StorageCall::Delete { model, record_id } => {
                self.records.remove(&(model, record_id.to_string()));
            }
        }
        StorageOutcome::Applied
    }

    fn bytes(&self) -> Vec<u8> {
        let mut out = Vec::new();
        for ((model, record), fields) in &self.records {
            out.extend_from_slice(model.as_bytes());
            out.push(0);
            out.extend_from_slice(record.as_bytes());
            out.push(0);
            for (field, value) in fields {
                out.extend_from_slice(field.as_bytes());
                out.push(1);
                out.extend_from_slice(value.to_string().as_bytes());
                out.push(1);
            }
            out.push(2);
        }
        out
    }
}

struct Replica {
    log: OperationLog,
    storage: Storage,
    sender: Sender,
    receiver: ReceiverState,
}

impl Replica {
    fn new(instance: Uuid) -> Self {
        Replica {
            log: OperationLog::new(instance, vec![]),
            storage: Storage::new(),
            sender: Sender::new(instance, None),
            receiver: ReceiverState::Waiting,
        }
    }

    fn write(&mut self, record: u64, data: CRDTOperationData, id: u128, now_ms: u64) {
        let made = self
            .log
            .append_local("object".to_string(), Value::from(record), data, Uuid::from_u128(id), now_ms)
            .unwrap();
        self.storage.apply(storage_call(&made));
    }

    fn produce(&mut self, first_record: u64) {
        for turn in 0..100u64 {
            let record = first_record + turn % 40;
            let data = match turn % 5 {
                0 => CRDTOperationData::Create(vec![
                    ("name".to_string(), Value::from(format!("record {record}"))),
                    ("size".to_string(), Value::from(turn)),
                ]),
                4 if turn % 20 == 4 => CRDTOperationData::Delete,
                _ => CRDTOperationData::Update {
                    field: if turn % 2 == 0 { "size" } else { "note" }.to_string(),
                    value: Value::from(turn),
                },
            };
            self.write(record, data, first_record as u128 * 1000 + turn as u128, turn / 3);
        }
    }

    fn ingest(&mut self, ops: Vec<CRDTOperation>) -> (IngestVerdict, usize) {
        let mut applied = 0;
        for op in ops {
            match next_step(&self.log, &op) {
                IngestStep::Skip => {}
                IngestStep::Apply(call) => {
                    let outcome = self.storage.apply(call);
                    match settle(&mut self.log, op, outcome) {
                        IngestVerdict::Continue => applied += 1,
                        verdict => return (verdict, applied),
                    }
                }
            }
        }
        (IngestVerdict::Continue, applied)
    }
}

fn cycle(from: &mut Replica, to: &mut Replica) -> usize {
    let batch = match from.sender.wake(&from.log) {
        SendAction::Transmit(batch) => batch,
        SendAction::Wait => return 0,
    };
    let (state, action) = to.receiver.accept(batch);
    let ops = match action {
        ReceiverAction::Forward(ops) => ops,
        other => panic!("a waiting receiver forwards, not {other:?}"),
    };
    let (verdict, applied) = to.ingest(ops);
    let (state, action) = state.on(ReceiverEvent::Ingested(verdict));
    to.receiver = state;
    assert_eq!(action, ReceiverAction::Acknowledge);
    from.sender.acknowledged();
    applied
}

#[test]
fn two_instances_converge_after_one_cycle_each_way() {
    let mut one = Replica::new(Uuid::from_u128(1));
    let mut two = Replica::new(Uuid::from_u128(2));
    one.produce(0);
    two.produce(1000);
    assert_ne!(one.storage.bytes(), two.storage.bytes());

    assert_eq!(cycle(&mut one, &mut two), 100);
    assert_eq!(cycle(&mut two, &mut one), 100);

    assert_eq!(one.storage.bytes(), two.storage.bytes());
    assert!(!one.storage.records.is_empty());
    assert_eq!(one.log.operations().len(), 200);
    assert_eq!(two.log.operations().len(), 200);
    assert_eq!(
        one.log.clock().get(&Uuid::from_u128(2)),
        two.log.clock().get(&Uuid::from_u128(2))
    );
    assert_eq!(
        one.log.clock().get(&Uuid::from_u128(1)),
        two.log.clock().get(&Uuid::from_u128(1))
    );

    assert_eq!(cycle(&mut one, &mut two), 0);
    assert_eq!(cycle(&mut two, &mut one), 0);
}

#[test]
fn second_delivery_writes_nothing_to_storage() {
    let mut one = Replica::new(Uuid::from_u128(1));
    let mut two = Replica::new(Uuid::from_u128(2));
    one.write(
        7,
        CRDTOperationData::Create(vec![("name".to_string(), Value::from("a"))]),
        1,
        5,
    );
    let op = one.log.operations()[0].clone();
    assert_eq!(two.ingest(vec![op.clone()]), (IngestVerdict::Continue, 1));
    let writes = two.storage.writes;
    let state = two.storage.bytes();
    assert_eq!(two.ingest(vec![op]), (IngestVerdict::Continue, 0));
    assert_eq!(two.storage.writes, writes);
    assert_eq!(two.storage.bytes(), state);
}

#[test]
fn later_batch_before_earlier_batch_leaves_the_latest_state() {
    let remote = Uuid::from_u128(9);
    let op = |timestamp: u64| CRDTOperation {
        instance: remote,
        timestamp: NTP64(timestamp),
        id: Uuid::from_u128(timestamp as u128),
        model: "object".to_string(),
        record_id: Value::from(1),
        data: CRDTOperationData::Update { field: "size".to_string(), value: Value::from(timestamp) },
    };
    let mut replica = Replica::new(Uuid::from_u128(1));
    assert_eq!(replica.ingest(vec![op(15), op(25)]), (IngestVerdict::Continue, 2));
    assert_eq!(replica.ingest(vec![op(10), op(20)]), (IngestVerdict::Continue, 0));
    assert_eq!(replica.log.clock().get(&remote), Some(NTP64(25)));
    let record = &replica.storage.records[&("object".to_string(), "1".to_string())];
    assert_eq!(record["size"], Value::from(25u64));
    assert_eq!(replica.storage.writes, 2);
}

#[test]
fn failed_storage_call_leaves_the_batch_for_redelivery() {
    let remote = Uuid::from_u128(9);
    let op = CRDTOperation {
        instance: remote,
        timestamp: NTP64(3),
        id: Uuid::from_u128(3),
        model: "object".to_string(),
        record_id: Value::from(1),
        data: CRDTOperationData::Delete,
    };
    let mut log = OperationLog::new(Uuid::from_u128(1), vec![]);
    assert!(matches!(next_step(&log, &op), IngestStep::Apply(_)));
    assert_eq!(settle(&mut log, op.clone(), StorageOutcome::Transient), IngestVerdict::Retry);
    assert_eq!(
        ReceiverState::Ingesting.on(ReceiverEvent::Ingested(IngestVerdict::Retry)),
        (ReceiverState::Waiting, ReceiverAction::AwaitRedelivery)
    );
    assert!(matches!(next_step(&log, &op), IngestStep::Apply(_)));
    assert_eq!(settle(&mut log, op.clone(), StorageOutcome::Applied), IngestVerdict::Continue);
    assert_eq!(next_step(&log, &op), IngestStep::Skip);
}
