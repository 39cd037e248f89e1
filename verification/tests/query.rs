use neo4j_bridge::errors::BridgeError;
use neo4j_bridge::errors::ConversionFault;
use neo4j_bridge::errors::PathSeg;
use neo4j_bridge::host::HostKey;
use neo4j_bridge::host::HostNumber;
use neo4j_bridge::host::HostValue;
use neo4j_bridge::options::ConnectOptions;
use neo4j_bridge::options::parse_connect_options;
use neo4j_bridge::query::Query;
use neo4j_bridge::query::new_query;
use neo4j_bridge::query::validation_query;
use neo4j_bridge::value::Value;

fn skey(k: &str) -> HostKey {
    HostKey::Str(k.to_string())
}

#[test]
fn query_with_integer_parameter() {
    // The parameter table {x: 5} yields the single parameter x = 5.
    let params = vec![(skey("x"), HostValue::Num(HostNumber::Whole(5)))];
    let q = new_query("CREATE (n:Test {x:$x}) RETURN n".to_string(), Some(&params)).unwrap();
    assert_eq!(q.text().as_str(), "CREATE (n:Test {x:$x}) RETURN n");
    assert_eq!(q.params(), &vec![("x".to_string(), Value::Int(5))]);
}

#[test]
fn query_without_parameters() {
    let q = new_query("MATCH (n) RETURN n LIMIT 1".to_string(), None).unwrap();
    assert_eq!(q.text().as_str(), "MATCH (n) RETURN n LIMIT 1");
    assert!(q.params().is_empty());
}

#[test]
fn unsupported_parameter_aborts_and_names_the_type() {
    // No query exists when a parameter cannot be converted; the error names
    // the offending type and where it sits.
    let params = vec![(skey("p"), HostValue::Unsupported("function".to_string()))];
    let err = new_query("RETURN $p".to_string(), Some(&params)).unwrap_err();
    assert_eq!(err.fault, ConversionFault::UnsupportedValue("function".to_string()));
    assert_eq!(err.path, vec![PathSeg::Key("p".to_string())]);
}

#[test]
fn builder_adds_parameters_in_order() {
    let q = Query::new("RETURN $a + $b".to_string());
    let q = q.param("a".to_string(), &HostValue::Num(HostNumber::Whole(1))).unwrap();
    let q = q.param("b".to_string(), &HostValue::Str("two".to_string())).unwrap();
    assert_eq!(
        q.params(),
        &vec![
            ("a".to_string(), Value::Int(1)),
            ("b".to_string(), Value::Str("two".to_string())),
        ]
    );
}

#[test]
fn builder_rejects_a_bad_parameter() {
    let q = Query::new("RETURN $bad".to_string());
    let err = q.param("bad".to_string(), &HostValue::Unsupported("thread".to_string())).unwrap_err();
    assert_eq!(err.fault, ConversionFault::UnsupportedValue("thread".to_string()));
    assert_eq!(err.path, vec![PathSeg::Key("bad".to_string())]);
}

#[test]
fn a_duplicated_query_is_identical() {
    let params = vec![
        (skey("x"), HostValue::Num(HostNumber::Whole(5))),
        (skey("s"), HostValue::Str("v".to_string())),
    ];
    let q = new_query("RETURN $x, $s".to_string(), Some(&params)).unwrap();
    let copy = q.duplicate();
    assert_eq!(copy.text(), q.text());
    assert_eq!(copy.params(), q.params());
}

#[test]
fn the_validation_query_is_trivial() {
    let q = validation_query();
    assert_eq!(q.text().as_str(), "RETURN 1");
    assert!(q.params().is_empty());
}

#[test]
fn connect_options_parse_recognized_keys() {
    let opts = HostValue::Table(vec![
        (skey("database"), HostValue::Str("neo4j".to_string())),
        (skey("fetchSize"), HostValue::Num(HostNumber::Whole(100))),
        (skey("maxConnections"), HostValue::Num(HostNumber::Whole(10))),
    ]);
    let parsed = parse_connect_options(&opts).unwrap();
    assert_eq!(
        parsed,
        ConnectOptions {
            database: Some("neo4j".to_string()),
            fetch_size: Some(100),
            max_connections: Some(10),
        }
    );
}

#[test]
fn connect_options_ignore_what_they_do_not_know() {
    let opts = HostValue::Table(vec![
        (skey("database"), HostValue::Str("movies".to_string())),
        (skey("color"), HostValue::Str("green".to_string())),
        (skey("fetchSize"), HostValue::Str("not a number".to_string())),
        (skey("maxConnections"), HostValue::Num(HostNumber::Whole(-1))),
    ]);
    let parsed = parse_connect_options(&opts).unwrap();
    assert_eq!(
        parsed,
        ConnectOptions { database: Some("movies".to_string()), fetch_size: None, max_connections: None }
    );
}

#[test]
fn absent_options_mean_defaults() {
    let parsed = parse_connect_options(&HostValue::Nil).unwrap();
    assert_eq!(
        parsed,
        ConnectOptions { database: None, fetch_size: None, max_connections: None }
    );
}

#[test]
fn non_table_options_are_a_configuration_error() {
    let err = parse_connect_options(&HostValue::Bool(true)).unwrap_err();
    match err {
        BridgeError::Configuration(msg) => {
            assert_eq!(msg, "connect options must be a table");
        }
        other => panic!("expected a configuration error, got {:?}", other),
    }
}
