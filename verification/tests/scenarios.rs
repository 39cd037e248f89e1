//! End-to-end flows through the library's pieces, with the engine's side of
//! each exchange played by the test: the library decides, the test performs.

use neo4j_bridge::dispatch::Completion;
use neo4j_bridge::dispatch::Dispatcher;
use neo4j_bridge::dispatch::Outcome;
use neo4j_bridge::errors::BridgeError;
use neo4j_bridge::host::HostKey;
use neo4j_bridge::host::HostNumber;
use neo4j_bridge::host::HostValue;
use neo4j_bridge::mapper::rows_to_host;
use neo4j_bridge::options::parse_connect_options;
use neo4j_bridge::query::new_query;
use neo4j_bridge::txn::Transaction;
use neo4j_bridge::txn::TxState;
use neo4j_bridge::value::Row;
use neo4j_bridge::value::Value;

fn skey(k: &str) -> HostKey {
    HostKey::Str(k.to_string())
}

#[test]
fn create_and_observe_a_node_property() {
    // Connect options as the host writes them, a parameterized create, and
    // the returned node observed with its property intact.
    let opts = HostValue::Table(vec![(skey("database"), HostValue::Str("neo4j".to_string()))]);
    let parsed = parse_connect_options(&opts).unwrap();
    assert_eq!(parsed.database.as_deref(), Some("neo4j"));

    let params = vec![(skey("x"), HostValue::Num(HostNumber::Whole(5)))];
    let q = new_query("CREATE (n:Test {x:$x}) RETURN n".to_string(), Some(&params)).unwrap();
    assert_eq!(q.params(), &vec![("x".to_string(), Value::Int(5))]);

    // The engine answers with one row holding the created node.
    let row = Row {
        cols: vec![(
            "n".to_string(),
            Value::Node(vec![("x".to_string(), Value::Int(5))]),
        )],
    };
    let host_rows = rows_to_host(&vec![row]);
    assert_eq!(host_rows.len(), 1);
    let expected = HostValue::Table(vec![(
        skey("n"),
        HostValue::Table(vec![(skey("x"), HostValue::Num(HostNumber::Whole(5)))]),
    )]);
    assert_eq!(host_rows[0], expected);
}

#[test]
fn transaction_flow_with_callbacks() {
    // Begin, execute (the engine succeeds), commit; a later execute on the
    // same transaction is refused, and every callback fires exactly once
    // with rows or an error, in order.
    let mut dispatcher = Dispatcher::new();
    let mut tx: Transaction<u32> = Transaction::begin(11);
    let q = new_query("MATCH (n) RETURN n LIMIT 1".to_string(), None).unwrap();

    // Execute: take the handle, run the query, give the handle back.
    let outcome = match tx.begin_operation() {
        Err(e) => Outcome::Failure(BridgeError::State(e)),
        Ok(h) => {
            assert_eq!(q.text().as_str(), "MATCH (n) RETURN n LIMIT 1");
            let engine_rows = vec![Row { cols: vec![("n".to_string(), Value::Null)] }];
            let rollback = tx.finish_execute(h, false);
            assert!(rollback.is_none());
            Outcome::Rows(engine_rows)
        }
    };
    dispatcher.enqueue(Completion { callback: 1, outcome });
    assert_eq!(tx.state_of(), TxState::Active);

    // Commit: the handle is surrendered; the engine commit succeeds.
    let outcome = match tx.commit() {
        Err(e) => Outcome::Failure(BridgeError::State(e)),
        Ok(_handle) => Outcome::Rows(vec![]),
    };
    dispatcher.enqueue(Completion { callback: 2, outcome });
    assert_eq!(tx.state_of(), TxState::Committed);

    // A further execute is refused without touching any handle.
    let outcome = match tx.begin_operation() {
        Err(e) => Outcome::Failure(BridgeError::State(e)),
        Ok(_) => panic!("a finished transaction must not hand out its handle"),
    };
    dispatcher.enqueue(Completion { callback: 3, outcome });
    assert_eq!(tx.state_of(), TxState::Committed);

    // The host's tick: each callback fires exactly once, in order.
    let first = dispatcher.drain_next().unwrap();
    assert_eq!(first.callback, 1);
    match first.outcome {
        Outcome::Rows(rows) => assert_eq!(rows.len(), 1),
        Outcome::Failure(_) => panic!("the execute succeeded"),
    }
    let second = dispatcher.drain_next().unwrap();
    assert_eq!(second.callback, 2);
    let third = dispatcher.drain_next().unwrap();
    assert_eq!(third.callback, 3);
    match third.outcome {
        Outcome::Failure(BridgeError::State(e)) => assert_eq!(e.found, TxState::Committed),
        other => panic!("expected the state error, got {:?}", other),
    }
    assert!(dispatcher.drain_next().is_none());
}

#[test]
fn failed_execute_contains_the_failure() {
    // An execute that fails mid-result-set: the library rolls the
    // transaction back, hands the handle out for the engine rollback, and
    // nothing on this transaction succeeds afterwards.
    let mut dispatcher = Dispatcher::new();
    let mut tx: Transaction<u32> = Transaction::begin(21);

    let h = tx.begin_operation().unwrap();
    let rollback = tx.finish_execute(h, true);
    assert_eq!(rollback, Some(21));
    dispatcher.enqueue(Completion {
        callback: 7,
        outcome: Outcome::Failure(BridgeError::Execution("row decode failed".to_string())),
    });
    assert_eq!(tx.state_of(), TxState::RolledBack);

    let err = tx.commit().unwrap_err();
    assert_eq!(err.found, TxState::RolledBack);
    let err = tx.begin_operation().unwrap_err();
    assert_eq!(err.found, TxState::RolledBack);

    let only = dispatcher.drain_next().unwrap();
    assert_eq!(only.callback, 7);
    match only.outcome {
        Outcome::Failure(BridgeError::Execution(msg)) => assert_eq!(msg, "row decode failed"),
        other => panic!("expected the execution error, got {:?}", other),
    }
}
