use apalis_surrealdb::errors::SurrealError;
use apalis_surrealdb::tx::{
    classify_slots, classify_tx_errors, classify_with_kinds, error_kind, kind_of_error,
    push_outcome, push_outcome_with_kinds, QueryDetail,
    TxAttempts, TxErrorKind, TxOutcome, TxStep, TxVerdict, MAX_TX_RETRIES,
};
use std::collections::HashMap;
use surrealdb::types::QueryError;

fn conflict(msg: &str) -> surrealdb::Error {
    surrealdb::Error::query(msg.to_owned(), QueryError::TransactionConflict)
}

fn skipped(msg: &str) -> surrealdb::Error {
    surrealdb::Error::query(msg.to_owned(), QueryError::NotExecuted)
}

fn failure(msg: &str) -> surrealdb::Error {
    surrealdb::Error::thrown(msg.to_owned())
}

#[test]
fn kind_follows_detail_then_message() {
    assert_eq!(error_kind(QueryDetail::TransactionConflict, "boom"), TxErrorKind::Conflict);
    assert_eq!(error_kind(QueryDetail::Absent, "a Transaction conflict occurred"), TxErrorKind::Conflict);
    assert_eq!(error_kind(QueryDetail::NotExecuted, "skipped"), TxErrorKind::NotExecuted);
    assert_eq!(error_kind(QueryDetail::TimedOut, "slow"), TxErrorKind::Other);
    assert_eq!(error_kind(QueryDetail::Absent, "transaction conflict"), TxErrorKind::Other);
}

#[test]
fn kind_of_real_database_errors() {
    assert_eq!(kind_of_error(&conflict("x")), TxErrorKind::Conflict);
    assert_eq!(kind_of_error(&skipped("x")), TxErrorKind::NotExecuted);
    assert_eq!(kind_of_error(&failure("x")), TxErrorKind::Other);
    assert_eq!(kind_of_error(&failure("Transaction conflict: retry")), TxErrorKind::Conflict);
}

#[test]
fn lowest_real_failure_wins() {
    let slots = vec![
        (4, TxErrorKind::Other),
        (1, TxErrorKind::Conflict),
        (2, TxErrorKind::Other),
        (0, TxErrorKind::NotExecuted),
    ];
    assert_eq!(classify_slots(&slots), Some((TxVerdict::Fail, 2)));
}

#[test]
fn conflict_retries_when_no_real_failure() {
    let slots = vec![(3, TxErrorKind::Conflict), (1, TxErrorKind::NotExecuted), (2, TxErrorKind::Conflict)];
    assert_eq!(classify_slots(&slots), Some((TxVerdict::Retry, 2)));
}

#[test]
fn only_skipped_statements_fail() {
    let slots = vec![(5, TxErrorKind::NotExecuted), (3, TxErrorKind::NotExecuted)];
    assert_eq!(classify_slots(&slots), Some((TxVerdict::Fail, 1)));
    assert_eq!(classify_slots(&Vec::new()), None);
}

#[test]
fn verdict_ignores_order() {
    let a = vec![(1, TxErrorKind::Conflict), (7, TxErrorKind::Other), (4, TxErrorKind::Other)];
    let b = vec![(4, TxErrorKind::Other), (1, TxErrorKind::Conflict), (7, TxErrorKind::Other)];
    let (va, pa) = classify_slots(&a).unwrap();
    let (vb, pb) = classify_slots(&b).unwrap();
    assert_eq!(va, vb);
    assert_eq!(a[pa].0, b[pb].0);
    assert_eq!(a[pa].0, 4);
}

#[test]
fn classify_hands_back_the_deciding_error() {
    let errors = vec![(2, conflict("c2")), (1, failure("boom")), (0, skipped("s"))];
    match classify_tx_errors(errors.into_iter().collect()) {
        Some(TxOutcome::Fail(e)) => assert_eq!(e.message(), "boom"),
        other => panic!("unexpected {other:?}"),
    }
    let errors = vec![(3, conflict("late")), (1, conflict("early")), (0, skipped("s"))];
    match classify_tx_errors(errors.into_iter().collect()) {
        Some(TxOutcome::Retry(e)) => assert_eq!(e.message(), "early"),
        other => panic!("unexpected {other:?}"),
    }
    assert!(classify_tx_errors(HashMap::new()).is_none());
}

#[test]
fn push_retries_on_first_conflict_in_given_order() {
    let errors = vec![failure("a"), conflict("b"), conflict("c")];
    match push_outcome(errors) {
        Some(TxOutcome::Retry(e)) => assert_eq!(e.message(), "b"),
        other => panic!("unexpected {other:?}"),
    }
}

#[test]
fn push_fails_on_a_lone_real_failure() {
    match push_outcome(vec![failure("bad")]) {
        Some(TxOutcome::Fail(e)) => assert_eq!(e.message(), "bad"),
        other => panic!("unexpected {other:?}"),
    }
    let mut tx = TxAttempts::new();
    match tx.record(push_outcome(vec![skipped("s"), failure("real")])) {
        TxStep::Fail(SurrealError::Database(e)) => assert_eq!(e.message(), "real"),
        other => panic!("unexpected {other:?}"),
    }
}

#[test]
fn push_fails_on_skipped_statements_alone() {
    match push_outcome(vec![skipped("s1"), skipped("s2")]) {
        Some(TxOutcome::Fail(e)) => assert_eq!(e.message(), "s1"),
        other => panic!("unexpected {other:?}"),
    }
    assert!(push_outcome(Vec::new()).is_none());
}

#[test]
fn conflicts_exhaust_after_max_retries() {
    let mut tx = TxAttempts::new();
    let mut attempts = 0;
    while tx.may_attempt() {
        attempts += 1;
        let step = tx.record(Some(TxOutcome::Retry(conflict(&format!("conflict {attempts}")))));
        assert!(matches!(step, TxStep::Retry));
    }
    assert_eq!(attempts, MAX_TX_RETRIES);
    match tx.exhausted() {
        SurrealError::Database(e) => assert_eq!(e.message(), "conflict 5"),
        other => panic!("unexpected {other:?}"),
    }
}

#[test]
fn failure_is_reported_at_once() {
    let mut tx = TxAttempts::new();
    assert!(matches!(tx.record(Some(TxOutcome::Retry(conflict("c")))), TxStep::Retry));
    match tx.record(Some(TxOutcome::Fail(failure("bad")))) {
        TxStep::Fail(SurrealError::Database(e)) => assert_eq!(e.message(), "bad"),
        other => panic!("unexpected {other:?}"),
    }
    assert!(tx.may_attempt());
    assert!(matches!(tx.record(None), TxStep::Proceed));
}

#[test]
fn exhausted_without_conflict_builds_one() {
    let tx = TxAttempts::new();
    match tx.exhausted() {
        SurrealError::Database(e) => {
            assert_eq!(e.message(), "Transaction conflict retries exhausted");
            assert_eq!(e.query_details(), Some(&QueryError::TransactionConflict));
        }
        other => panic!("unexpected {other:?}"),
    }
}

#[test]
fn classify_with_given_kinds() {
    let errors = vec![(0, failure("a")), (5, failure("b")), (2, failure("c"))];
    let kinds = vec![TxErrorKind::NotExecuted, TxErrorKind::Conflict, TxErrorKind::Conflict];
    match classify_with_kinds(errors, &kinds) {
        Some(TxOutcome::Retry(e)) => assert_eq!(e.message(), "c"),
        other => panic!("unexpected {other:?}"),
    }
    let errors = vec![(1, failure("x"))];
    match classify_with_kinds(errors, &vec![TxErrorKind::NotExecuted]) {
        Some(TxOutcome::Fail(e)) => assert_eq!(e.message(), "x"),
        other => panic!("unexpected {other:?}"),
    }
    let errors = vec![failure("p"), failure("q"), failure("r")];
    let kinds = vec![TxErrorKind::Other, TxErrorKind::Conflict, TxErrorKind::Conflict];
    match push_outcome_with_kinds(errors, &kinds) {
        Some(TxOutcome::Retry(e)) => assert_eq!(e.message(), "q"),
        other => panic!("unexpected {other:?}"),
    }
    let errors = vec![failure("p"), failure("q"), failure("r")];
    let kinds = vec![TxErrorKind::NotExecuted, TxErrorKind::Other, TxErrorKind::Other];
    match push_outcome_with_kinds(errors, &kinds) {
        Some(TxOutcome::Fail(e)) => assert_eq!(e.message(), "q"),
        other => panic!("unexpected {other:?}"),
    }
}

#[test]
fn outcome_ignores_listing_order() {
    let a = vec![(3, conflict("c3")), (7, failure("f7")), (4, failure("f4")), (0, skipped("s0"))];
    let b = vec![(0, skipped("s0")), (4, failure("f4")), (3, conflict("c3")), (7, failure("f7"))];
    match (classify_tx_errors(a.into_iter().collect()), classify_tx_errors(b.into_iter().collect())) {
        (Some(TxOutcome::Fail(x)), Some(TxOutcome::Fail(y))) => {
            assert_eq!(x.message(), "f4");
            assert_eq!(y.message(), "f4");
        }
        other => panic!("unexpected {other:?}"),
    }
}

#[test]
fn clean_attempt_after_conflicts_goes_through() {
    let mut tx = TxAttempts::new();
    assert!(matches!(tx.record(classify_tx_errors(HashMap::from([(0, conflict("c1"))]))), TxStep::Retry));
    assert!(matches!(tx.record(classify_tx_errors(HashMap::from([(1, conflict("c2"))]))), TxStep::Retry));
    assert!(tx.may_attempt());
    assert!(matches!(tx.record(classify_tx_errors(HashMap::new())), TxStep::Proceed));
}
