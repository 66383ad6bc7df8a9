use sd_core::sync::actors::{declare_actors, ActorCommand, ActorEvent, ActorState, Actors};
use sd_core::sync::compressed::CompressedCRDTOperations;
use sd_core::sync::ingest::IngestVerdict;
use sd_core::sync::log::OperationLog;
use sd_core::sync::operation::{CRDTOperation, CRDTOperationData};
use sd_core::sync::receive::{ReceiverAction, ReceiverEvent, ReceiverState};
use sd_core::sync::send::{latest, SendAction, Sender};
use sd_core::sync::timestamp::NTP64;
use serde_json::Value;
use uuid::Uuid;

fn instance(n: u128) -> Uuid {
    Uuid::from_u128(n)
}

fn name(text: &str) -> String {
    text.to_string()
}

fn local(log: &mut OperationLog, record: i64, now_ms: u64) -> CRDTOperation {
    log.append_local(
        "tag".to_string(),
        Value::from(record),
        CRDTOperationData::Delete,
        Uuid::from_u128(9),
        now_ms,
    )
    .unwrap()
}

#[test]
fn actor_state_machine_steps() {
    assert_eq!(ActorState::Idle.on(ActorEvent::Start), (ActorState::Running, ActorCommand::Spawn));
    assert_eq!(ActorState::Idle.on(ActorEvent::Stop), (ActorState::Idle, ActorCommand::Nothing));
    assert_eq!(
        ActorState::Running.on(ActorEvent::Start),
        (ActorState::Running, ActorCommand::Nothing)
    );
    assert_eq!(ActorState::Running.on(ActorEvent::Stop), (ActorState::Idle, ActorCommand::Abort));
    assert_eq!(
        ActorState::Running.on(ActorEvent::CycleDone),
        (ActorState::Running, ActorCommand::Nothing)
    );
    assert_eq!(
        ActorState::Running.on(ActorEvent::FatalError),
        (ActorState::Idle, ActorCommand::Nothing)
    );
    assert_eq!(
        ActorState::Idle.on(ActorEvent::FatalError),
        (ActorState::Idle, ActorCommand::Nothing)
    );
    assert!(ActorState::Running.is_running());
    assert!(!ActorState::Idle.is_running());
}

#[test]
fn three_actors_are_declared_idle_without_autorun() {
    let mut actors = Actors::new();
    let commands = declare_actors(&mut actors, false);
    assert_eq!(commands, [ActorCommand::Nothing; 3]);
    assert_eq!(
        actors.get_state(),
        vec![
            (name("Cloud Sync Sender"), false),
            (name("Cloud Sync Receiver"), false),
            (name("Cloud Sync Ingest"), false),
        ]
    );
}

#[test]
fn three_actors_are_declared_running_with_autorun() {
    let mut actors = Actors::new();
    let commands = declare_actors(&mut actors, true);
    assert_eq!(commands, [ActorCommand::Spawn; 3]);
    assert_eq!(actors.state_of(&name("Cloud Sync Ingest")), Some(ActorState::Running));
    assert_eq!(actors.get_state().iter().filter(|state| state.1).count(), 3);
}

#[test]
fn actors_start_and_stop_by_name() {
    let mut actors = Actors::new();
    declare_actors(&mut actors, false);
    assert_eq!(actors.start(&name("Cloud Sync Sender")), ActorCommand::Spawn);
    assert_eq!(actors.start(&name("Cloud Sync Sender")), ActorCommand::Nothing);
    assert_eq!(actors.state_of(&name("Cloud Sync Sender")), Some(ActorState::Running));
    assert_eq!(actors.state_of(&name("Cloud Sync Receiver")), Some(ActorState::Idle));
    assert_eq!(actors.stop(&name("Cloud Sync Sender")), ActorCommand::Abort);
    assert_eq!(actors.stop(&name("Cloud Sync Sender")), ActorCommand::Nothing);
    assert_eq!(actors.state_of(&name("Cloud Sync Sender")), Some(ActorState::Idle));
    assert_eq!(actors.start(&name("nobody")), ActorCommand::Nothing);
    assert_eq!(actors.state_of(&name("nobody")), None);
    assert_eq!(actors.get_state().len(), 3);
}

#[test]
fn fatal_error_makes_a_running_actor_idle() {
    let mut actors = Actors::new();
    assert_eq!(actors.declare(&name("worker"), true), ActorCommand::Spawn);
    assert_eq!(actors.handle(&name("worker"), ActorEvent::CycleDone), ActorCommand::Nothing);
    assert_eq!(actors.state_of(&name("worker")), Some(ActorState::Running));
    assert_eq!(actors.handle(&name("worker"), ActorEvent::FatalError), ActorCommand::Nothing);
    assert_eq!(actors.state_of(&name("worker")), Some(ActorState::Idle));
}

#[test]
fn declaring_a_name_again_replaces_the_actor() {
    let mut actors = Actors::new();
    actors.declare(&name("worker"), true);
    actors.declare(&name("worker"), false);
    assert_eq!(actors.get_state(), vec![(name("worker"), false)]);
}

#[test]
fn sender_waits_when_nothing_is_unsent() {
    let log = OperationLog::new(instance(1), vec![]);
    let mut sender = Sender::new(instance(1), None);
    assert_eq!(sender.wake(&log), SendAction::Wait);
    assert_eq!(sender.last_sent(), None);
}

#[test]
fn sender_transmits_local_operations_and_moves_its_marker_on_ack() {
    let mut log = OperationLog::new(instance(1), vec![]);
    let first = local(&mut log, 1, 1);
    let second = local(&mut log, 2, 1);
    assert!(log.receive(CRDTOperation {
        instance: instance(2),
        timestamp: NTP64(1 << 50),
        id: Uuid::from_u128(3),
        model: "tag".to_string(),
        record_id: Value::from(9),
        data: CRDTOperationData::Delete,
    }));
    let mut sender = Sender::new(instance(1), None);
    assert_eq!(sender.pending(&log), vec![first.clone(), second.clone()]);
    match sender.wake(&log) {
        SendAction::Transmit(batch) => {
            assert_eq!(batch.into_ops(), vec![first.clone(), second.clone()])
        }
        SendAction::Wait => panic!("two operations are unsent"),
    }
    assert_eq!(sender.last_sent(), None);
    sender.acknowledged();
    assert_eq!(sender.last_sent(), Some(second.timestamp));
    assert_eq!(sender.wake(&log), SendAction::Wait);
    let third = local(&mut log, 3, 1);
    assert_eq!(sender.pending(&log), vec![third]);
}

#[test]
fn sender_keeps_its_marker_when_the_transport_fails() {
    let mut log = OperationLog::new(instance(1), vec![]);
    let first = local(&mut log, 1, 1);
    let mut sender = Sender::new(instance(1), Some(NTP64(0)));
    assert!(matches!(sender.wake(&log), SendAction::Transmit(_)));
    sender.failed();
    assert_eq!(sender.last_sent(), Some(NTP64(0)));
    let second = local(&mut log, 2, 1);
    match sender.wake(&log) {
        SendAction::Transmit(batch) => assert_eq!(batch.into_ops(), vec![first, second]),
        SendAction::Wait => panic!("the failed batch is sent again"),
    }
}

#[test]
fn acknowledgement_without_a_batch_changes_nothing() {
    let mut sender = Sender::new(instance(1), Some(NTP64(7)));
    sender.acknowledged();
    assert_eq!(sender.last_sent(), Some(NTP64(7)));
}

#[test]
fn latest_is_the_highest_timestamp_of_the_instance() {
    let op = |from: u128, timestamp: u64| CRDTOperation {
        instance: instance(from),
        timestamp: NTP64(timestamp),
        id: Uuid::from_u128(3),
        model: "tag".to_string(),
        record_id: Value::from(9),
        data: CRDTOperationData::Delete,
    };
    let ops = vec![op(1, 4), op(2, 50), op(1, 9), op(1, 6)];
    assert_eq!(latest(&ops, &instance(1)), Some(NTP64(9)));
    assert_eq!(latest(&ops, &instance(2)), Some(NTP64(50)));
    assert_eq!(latest(&ops, &instance(3)), None);
}

#[test]
fn receiver_acknowledges_only_after_ingest() {
    let mut log = OperationLog::new(instance(1), vec![]);
    let op = local(&mut log, 1, 1);
    let batch = CompressedCRDTOperations::new(vec![op.clone()]);
    let (state, action) = ReceiverState::Waiting.accept(batch);
    assert_eq!(state, ReceiverState::Ingesting);
    assert_eq!(action, ReceiverAction::Forward(vec![op]));
    let (state, action) = state.on(ReceiverEvent::Ingested(IngestVerdict::Continue));
    assert_eq!((state, action), (ReceiverState::Waiting, ReceiverAction::Acknowledge));
}

#[test]
fn receiver_leaves_a_failed_batch_for_redelivery_and_halts_on_fatal() {
    assert_eq!(
        ReceiverState::Ingesting.on(ReceiverEvent::Ingested(IngestVerdict::Retry)),
        (ReceiverState::Waiting, ReceiverAction::AwaitRedelivery)
    );
    assert_eq!(
        ReceiverState::Ingesting.on(ReceiverEvent::Ingested(IngestVerdict::Halt)),
        (ReceiverState::Halted, ReceiverAction::Halt)
    );
    assert_eq!(
        ReceiverState::Halted.on(ReceiverEvent::Undecodable),
        (ReceiverState::Halted, ReceiverAction::Halt)
    );
    assert_eq!(
        ReceiverState::Waiting.on(ReceiverEvent::Undecodable),
        (ReceiverState::Waiting, ReceiverAction::Discard)
    );
    assert_eq!(
        ReceiverState::Waiting.on(ReceiverEvent::Ingested(IngestVerdict::Continue)),
        (ReceiverState::Waiting, ReceiverAction::Nothing)
    );
    let busy = ReceiverState::Ingesting.accept(CompressedCRDTOperations(vec![]));
    assert_eq!(busy, (ReceiverState::Ingesting, ReceiverAction::AwaitRedelivery));
    let halted = ReceiverState::Halted.accept(CompressedCRDTOperations(vec![]));
    assert_eq!(halted, (ReceiverState::Halted, ReceiverAction::Halt));
}

#[test]
fn last_error_of_a_failed_actor_can_be_asked_for() {
    let mut actors = Actors::new();
    declare_actors(&mut actors, true);
    assert_eq!(actors.last_error(&name("Cloud Sync Sender")), None);
    actors.fail(&name("Cloud Sync Sender"), name("relay unreachable"));
    assert_eq!(actors.state_of(&name("Cloud Sync Sender")), Some(ActorState::Idle));
    assert_eq!(actors.state_of(&name("Cloud Sync Ingest")), Some(ActorState::Running));
    assert_eq!(actors.last_error(&name("Cloud Sync Sender")), Some(name("relay unreachable")));
    assert_eq!(actors.start(&name("Cloud Sync Sender")), ActorCommand::Spawn);
    actors.fail(&name("Cloud Sync Sender"), name("rejected"));
    assert_eq!(actors.last_error(&name("Cloud Sync Sender")), Some(name("rejected")));
    actors.fail(&name("nobody"), name("lost"));
    assert_eq!(actors.last_error(&name("nobody")), None);
    assert_eq!(actors.get_state().len(), 3);
}
