use apalis_surrealdb::ack::{check_ack, first_error, require_refreshed, require_task_id, require_updated};
use apalis_surrealdb::claim::{claim_limit, split_claimed};
use apalis_surrealdb::errors::SurrealError;
use apalis_surrealdb::fetcher::{
    LiveAction, LiveEvent, LiveMachine, LiveOutcome, PollAction, PollMachine, SurrealFetcher,
};
use apalis_surrealdb::ids::{parse_task_id, push_task_id, task_id_text};
use apalis_surrealdb::push::push_fields;
use apalis_surrealdb::row::{row_counters, running_worker, task_id_from_key, task_id_of, RecordKey, WorkerRecord};
use apalis_surrealdb::shared::{shared_fetch_limit, wake_chunk, QueueRegistry, SharedSurrealError};
use apalis_surrealdb::sink::{FlushAction, SinkBuffer};
use apalis_surrealdb::status::TaskStatus;
use apalis_surrealdb::wait::{decode_result_head, WaitAction, WaitTracker};
use apalis_surrealdb::{JOBS_TABLE, WORKERS_TABLE};

#[test]
fn table_names() {
    assert_eq!(JOBS_TABLE, "jobs");
    assert_eq!(WORKERS_TABLE, "workers");
    let _fetcher = SurrealFetcher;
}

#[test]
fn ack_needs_id_worker_and_result() {
    assert!(matches!(check_ack::<u32, u32>(None, Some("w".into()), Ok(1)), Err(SurrealError::MissingTaskId)));
    assert!(matches!(check_ack::<u32, u32>(Some(1), None, Ok(1)), Err(SurrealError::MissingWorkerContext)));
    match check_ack::<u32, u32>(Some(1), Some("w".into()), Err("bad json".into())) {
        Err(SurrealError::Decode(m)) => assert_eq!(m, "bad json"),
        other => panic!("unexpected {other:?}"),
    }
    match check_ack::<u32, u32>(Some(1), Some("w".into()), Ok(9)) {
        Ok((1, w, 9)) => assert_eq!(w, "w"),
        other => panic!("unexpected {other:?}"),
    }
    assert!(matches!(require_task_id::<u8>(None), Err(SurrealError::MissingTaskId)));
    assert!(matches!(require_task_id(Some(3u8)), Ok(3)));
}

#[test]
fn untouched_rows_are_errors() {
    match require_updated(0, "01ABC".into()) {
        Err(SurrealError::TaskNotFound(id)) => assert_eq!(id, "01ABC"),
        other => panic!("unexpected {other:?}"),
    }
    assert!(require_updated(1, "x".into()).is_ok());
    match require_refreshed(0, "worker-1", "abc") {
        Err(SurrealError::WorkerNotFound(m)) => assert_eq!(m, "worker-1 (instance abc)"),
        other => panic!("unexpected {other:?}"),
    }
    assert!(require_refreshed(2, "w", "i").is_ok());
    assert!(first_error(Vec::new()).is_ok());
    match first_error(vec![surrealdb::Error::thrown("nope".into())]) {
        Err(SurrealError::Database(e)) => assert_eq!(e.message(), "nope"),
        other => panic!("unexpected {other:?}"),
    }
}

#[test]
fn error_messages() {
    assert_eq!(SurrealError::TaskNotFound("t1".into()).describe(), "Task not found: t1");
    assert_eq!(SurrealError::WorkerAlreadyExists("w".into()).describe(), "Worker already exists: w");
    assert_eq!(SurrealError::WorkerNotFound("w".into()).describe(), "Worker not found: w");
    assert_eq!(SurrealError::Decode("x".into()).describe(), "Failed to decode task: x");
    assert_eq!(SurrealError::MissingTaskId.describe(), "Task is missing a record id");
    assert_eq!(SurrealError::MissingWorkerContext.describe(), "Task is missing its worker context");
    assert_eq!(SurrealError::Database(surrealdb::Error::thrown("db".into())).describe(), "db");
    let row = apalis_sql::from_row::FromRowError::ColumnNotFound("priority".into());
    assert_eq!(SurrealError::Row(row).describe(), "Column not found: priority");
    assert_eq!(SharedSurrealError::NamespaceExists("q".into()).describe(), "Namespace q already exists");
    assert_eq!(SharedSurrealError::RegistryLocked.describe(), "Could not acquire registry lock");
}

#[test]
fn task_ids_are_ulids() {
    let text = task_id_text(0);
    assert_eq!(text, "00000000000000000000000000");
    let v = 0x0123_4567_89ab_cdef_0123_4567_89ab_cdefu128;
    let t = task_id_text(v);
    assert_eq!(t, "014D2PF2DBSQQG28T5CY4TQKFF");
    assert_eq!(task_id_text(u128::MAX), "7ZZZZZZZZZZZZZZZZZZZZZZZZZ");
    assert_eq!(parse_task_id(&t).unwrap(), v);
    assert_eq!(push_task_id(Some(v)), t);
    let fresh = push_task_id(None);
    assert_eq!(fresh.len(), 26);
    assert!(parse_task_id(&fresh).is_ok());
    match parse_task_id("short") {
        Err(SurrealError::Decode(m)) => assert_eq!(m, "could not decode task_id: `invalid length`"),
        other => panic!("unexpected {other:?}"),
    }
}

#[test]
fn result_rows_decode_id_then_status() {
    let id = task_id_text(42);
    assert!(matches!(decode_result_head(&id, "Done"), Ok((42, TaskStatus::Done))));
    match decode_result_head(&id, "Finished") {
        Err(SurrealError::Decode(m)) => assert_eq!(m, "Unknown state: Finished"),
        other => panic!("unexpected {other:?}"),
    }
    match decode_result_head("!", "Finished") {
        Err(SurrealError::Decode(m)) => assert!(m.starts_with("could not decode task_id")),
        other => panic!("unexpected {other:?}"),
    }
}

#[test]
fn waiting_ends_when_all_reported() {
    let mut w = WaitTracker::new(vec!["a".into(), "b".into(), "a".into()]);
    assert!(!w.is_finished());
    assert_eq!(w.awaited().len(), 2);
    assert_eq!(w.settle(&Vec::new()), WaitAction::Sleep);
    assert_eq!(w.awaited().len(), 2);
    assert_eq!(w.settle(&vec!["b".into(), "zzz".into()]), WaitAction::Report);
    assert_eq!(w.awaited(), vec!["a".to_string()]);
    assert_eq!(w.settle(&vec!["a".into()]), WaitAction::Report);
    assert!(w.is_finished());
    let mut w2 = WaitTracker::new(vec!["x".into()]);
    w2.abandon();
    assert!(w2.is_finished());
}

#[test]
fn poll_fetcher_hands_out_batch_in_order() {
    let mut m: PollMachine<u32> = PollMachine::new();
    assert!(matches!(m.advance(), PollAction::StartFetch));
    assert!(matches!(m.advance(), PollAction::AwaitFetch));
    assert!(m.fetched(Ok(vec![1, 2, 3])).is_none());
    assert_eq!(m.prev_count(), 3);
    assert!(matches!(m.advance(), PollAction::Yield(1)));
    assert!(matches!(m.advance(), PollAction::Yield(2)));
    assert!(matches!(m.advance(), PollAction::Yield(3)));
    assert!(matches!(m.advance(), PollAction::StartFetch));
    assert!(m.fetched(Ok(Vec::new())).is_none());
    assert_eq!(m.prev_count(), 0);
    assert!(matches!(m.advance(), PollAction::AwaitTick));
    m.ticked(true);
    assert!(matches!(m.advance(), PollAction::StartFetch));
    assert!(matches!(m.fetched(Err(SurrealError::MissingTaskId)), Some(SurrealError::MissingTaskId)));
    assert!(matches!(m.advance(), PollAction::End));
    assert!(matches!(m.advance(), PollAction::End));
}

#[test]
fn poll_fetcher_drains_pending_and_ends_with_strategy() {
    let mut m: PollMachine<u32> = PollMachine::new();
    m.advance();
    m.fetched(Ok(vec![7, 8]));
    assert!(matches!(m.advance(), PollAction::Yield(7)));
    assert_eq!(m.take_pending(), vec![8]);
    assert!(m.take_pending().is_empty());
    assert!(matches!(m.advance(), PollAction::StartFetch));
    m.fetched(Ok(Vec::new()));
    m.advance();
    m.ticked(false);
    assert!(matches!(m.advance(), PollAction::End));
}

#[test]
fn live_fetcher_wakes_on_creation() {
    let mut l = LiveMachine::new();
    assert_eq!(l.advance(), LiveAction::Subscribe);
    assert_eq!(l.advance(), LiveAction::AwaitSubscription);
    assert_eq!(l.on_event(LiveEvent::Subscribed), LiveOutcome::Continue);
    assert_eq!(l.advance(), LiveAction::AwaitNotification);
    assert_eq!(l.on_event(LiveEvent::OtherChange), LiveOutcome::Continue);
    assert_eq!(l.on_event(LiveEvent::NotificationError), LiveOutcome::Continue);
    assert_eq!(l.on_event(LiveEvent::Created), LiveOutcome::Wake);
    assert_eq!(l.on_event(LiveEvent::Closed), LiveOutcome::Continue);
    assert_eq!(l.advance(), LiveAction::Subscribe);
    assert_eq!(l.on_event(LiveEvent::SubscribeFailed), LiveOutcome::End);
}

#[test]
fn registry_refuses_duplicates_and_routes() {
    let mut r = QueueRegistry::new();
    assert!(matches!(r.register("emails"), Ok(0)));
    assert!(matches!(r.register("reports"), Ok(1)));
    match r.register("emails") {
        Err(SharedSurrealError::NamespaceExists(n)) => assert_eq!(n, "emails"),
        other => panic!("unexpected {other:?}"),
    }
    assert_eq!(r.queues(), vec!["emails".to_string(), "reports".to_string()]);
    assert_eq!(r.route(&Some("reports".into())), Some(1));
    assert_eq!(r.route(&Some("gone".into())), None);
    assert_eq!(r.route(&None), None);
    assert_eq!(shared_fetch_limit(0), 10);
    assert_eq!(shared_fetch_limit(3), 10);
    assert_eq!(shared_fetch_limit(25), 25);
    assert_eq!(wake_chunk(Some(0)), 1);
    assert_eq!(wake_chunk(Some(4)), 4);
    assert_eq!(wake_chunk(None), 1);
}

#[test]
fn sink_flushes_everything_once_in_order() {
    let mut s: SinkBuffer<u32> = SinkBuffer::new();
    assert!(matches!(s.next_flush(), FlushAction::Done));
    s.send(1);
    s.send(2);
    assert_eq!(s.buffered(), 2);
    match s.next_flush() {
        FlushAction::Push(batch) => assert_eq!(batch, vec![1, 2]),
        other => panic!("unexpected {other:?}"),
    }
    assert!(matches!(s.next_flush(), FlushAction::AwaitPush));
    s.send(3);
    s.push_finished();
    match s.next_flush() {
        FlushAction::Push(batch) => assert_eq!(batch, vec![3]),
        other => panic!("unexpected {other:?}"),
    }
    s.push_finished();
    assert!(matches!(s.next_flush(), FlushAction::Done));
}

#[test]
fn claimed_rows_split_in_order() {
    let rows: Vec<(u8, Result<u32, String>)> =
        vec![(1, Ok(10)), (2, Err("bad".into())), (3, Ok(30)), (4, Err("worse".into()))];
    let (tasks, parked) = split_claimed(rows);
    assert_eq!(tasks, vec![10, 30]);
    assert_eq!(parked, vec![(2, "bad".to_string()), (4, "worse".to_string())]);
    assert_eq!(claim_limit(10), 10);
}

#[test]
fn rows_carry_ids_and_counters() {
    assert_eq!(task_id_from_key(RecordKey::Text("abc".into())).unwrap(), "abc");
    assert!(matches!(task_id_from_key(RecordKey::Number(4)), Err(SurrealError::MissingTaskId)));
    assert_eq!(task_id_of(surrealdb::types::RecordIdKey::String("k".into())).unwrap(), "k");
    assert!(matches!(task_id_of(surrealdb::types::RecordIdKey::Number(1)), Err(SurrealError::MissingTaskId)));
    assert_eq!(row_counters(2, Some(25), 5), (2, Some(25), Some(5)));
    assert_eq!(row_counters(-1, None, 0), (usize::MAX, None, Some(0)));
    let w = running_worker(WorkerRecord {
        name: "w".into(),
        queue: "q".into(),
        storage_name: "SurrealStorage".into(),
        layers: None,
        started_at: 10,
        last_seen: 20,
    });
    assert_eq!((w.id.as_str(), w.queue.as_str(), w.backend.as_str()), ("w", "q", "SurrealStorage"));
    assert_eq!((w.started_at, w.last_heartbeat, w.layers.as_str()), (10, 20, ""));
}

#[test]
fn task_id_texts_decode_as_ulid_reads_them() {
    let v = 0x0123_4567_89ab_cdef_0123_4567_89ab_cdefu128;
    assert_eq!(parse_task_id("014d2pf2dbsqqg28t5cy4tqkff").unwrap(), v);
    assert_eq!(parse_task_id("80000000000000000000000000").unwrap(), 0);
    match parse_task_id("0000000000000000000000000I") {
        Err(SurrealError::Decode(m)) => assert_eq!(m, "could not decode task_id: `invalid character`"),
        other => panic!("unexpected {other:?}"),
    }
    match parse_task_id(&"é".repeat(13)) {
        Err(SurrealError::Decode(m)) => assert_eq!(m, "could not decode task_id: `invalid character`"),
        other => panic!("unexpected {other:?}"),
    }
    match parse_task_id(&"0".repeat(26 * 2)) {
        Err(SurrealError::Decode(m)) => assert_eq!(m, "could not decode task_id: `invalid length`"),
        other => panic!("unexpected {other:?}"),
    }
}

#[test]
fn pushed_rows_carry_their_fields() {
    let f = push_fields("emails", Some(42), 1_700_000_000, 3, -2);
    assert_eq!(f.id, task_id_text(42));
    assert_eq!(f.queue, "emails");
    assert_eq!((f.max_attempts, f.priority), (3, -2));
    assert_eq!(f.run_at.timestamp(), 1_700_000_000);
    let g = push_fields("q", None, u64::MAX, 0, 0);
    assert_eq!(g.id.len(), 26);
    assert_eq!(g.run_at.timestamp(), -1);
    let before = surrealdb::types::Datetime::now().timestamp();
    let h = push_fields("q", None, i64::MAX as u64, 0, 0);
    let after = surrealdb::types::Datetime::now().timestamp();
    assert!(before <= h.run_at.timestamp() && h.run_at.timestamp() <= after);
}
