use neo4j_bridge::dispatch::Completion;
use neo4j_bridge::dispatch::Dispatcher;
use neo4j_bridge::dispatch::Outcome;
use neo4j_bridge::errors::BridgeError;
use neo4j_bridge::value::Row;
use neo4j_bridge::value::Value;

fn row_completion(callback: u64, n: i64) -> Completion {
    Completion {
        callback,
        outcome: Outcome::Rows(vec![Row { cols: vec![("n".to_string(), Value::Int(n))] }]),
    }
}

#[test]
fn completions_drain_exactly_once_in_order() {
    let mut d = Dispatcher::new();
    d.enqueue(row_completion(1, 10));
    d.enqueue(Completion {
        callback: 2,
        outcome: Outcome::Failure(BridgeError::Execution("boom".to_string())),
    });
    d.enqueue(row_completion(3, 30));
    assert_eq!(d.pending_count(), 3);

    let first = d.drain_next().unwrap();
    assert_eq!(first.callback, 1);
    let second = d.drain_next().unwrap();
    assert_eq!(second.callback, 2);
    let third = d.drain_next().unwrap();
    assert_eq!(third.callback, 3);

    assert!(d.drain_next().is_none());
    assert_eq!(d.pending_count(), 0);
}

#[test]
fn an_outcome_is_rows_or_error_never_both() {
    let ok = row_completion(4, 1).outcome;
    match ok {
        Outcome::Rows(rows) => assert_eq!(rows.len(), 1),
        Outcome::Failure(_) => panic!("a success carries no error"),
    }
    let failed = Outcome::Failure(BridgeError::Execution("engine said no".to_string()));
    match failed {
        Outcome::Rows(_) => panic!("a failure carries no rows"),
        Outcome::Failure(e) => assert_eq!(e, BridgeError::Execution("engine said no".to_string())),
    }
}

#[test]
fn draining_an_empty_dispatcher_changes_nothing() {
    let mut d = Dispatcher::new();
    assert!(d.drain_next().is_none());
    d.enqueue(row_completion(9, 0));
    assert_eq!(d.drain_next().unwrap().callback, 9);
    assert!(d.drain_next().is_none());
}
