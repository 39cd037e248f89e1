use neo4j_bridge::txn::Transaction;
use neo4j_bridge::txn::TxState;

#[test]
fn execute_then_commit_then_state_error() {
    // Begin, one successful execute, commit; a later execute is refused
    // with the finished state and the state stays put.
    let mut tx: Transaction<u32> = Transaction::begin(7);
    assert_eq!(tx.state_of(), TxState::Active);

    let h = tx.begin_operation().unwrap();
    assert_eq!(h, 7);
    assert!(tx.in_flight());
    let rollback = tx.finish_execute(h, false);
    assert!(rollback.is_none());
    assert_eq!(tx.state_of(), TxState::Active);

    let h = tx.commit().unwrap();
    assert_eq!(h, 7);
    assert_eq!(tx.state_of(), TxState::Committed);

    let err = tx.begin_operation().unwrap_err();
    assert_eq!(err.found, TxState::Committed);
    assert_eq!(tx.state_of(), TxState::Committed);
}

#[test]
fn failed_execute_rolls_back_and_nothing_succeeds_after() {
    let mut tx: Transaction<u32> = Transaction::begin(1);
    let h = tx.begin_operation().unwrap();
    let rollback = tx.finish_execute(h, true);
    assert_eq!(rollback, Some(1));
    assert_eq!(tx.state_of(), TxState::RolledBack);

    let err = tx.begin_operation().unwrap_err();
    assert_eq!(err.found, TxState::RolledBack);
    let err = tx.commit().unwrap_err();
    assert_eq!(err.found, TxState::RolledBack);
    assert!(tx.close().is_none());
    assert_eq!(tx.state_of(), TxState::RolledBack);
}

#[test]
fn commit_on_committed_is_an_explicit_error_not_a_no_op() {
    let mut tx: Transaction<u32> = Transaction::begin(3);
    tx.commit().unwrap();
    let err = tx.commit().unwrap_err();
    assert_eq!(err.found, TxState::Committed);
    assert_eq!(tx.state_of(), TxState::Committed);
}

#[test]
fn close_releases_without_commit() {
    let mut tx: Transaction<u32> = Transaction::begin(9);
    let released = tx.close();
    assert_eq!(released, Some(9));
    assert_eq!(tx.state_of(), TxState::Consumed);

    let err = tx.begin_operation().unwrap_err();
    assert_eq!(err.found, TxState::Consumed);
    assert!(tx.close().is_none());
    assert_eq!(tx.state_of(), TxState::Consumed);
}
