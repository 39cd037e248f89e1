use neo4j_bridge::bridge::BridgeConfig;
use neo4j_bridge::bridge::TaskRegistry;
use neo4j_bridge::bridge::resolve_config;
use neo4j_bridge::errors::BridgeError;

#[test]
fn config_defaults_when_nothing_is_set() {
    let c = resolve_config(None, None);
    assert_eq!(c, BridgeConfig { worker_threads: 1, shutdown_timeout_secs: 20 });
}

#[test]
fn config_takes_usable_values() {
    let c = resolve_config(Some(4), Some(0));
    assert_eq!(c.worker_threads, 4);
    assert_eq!(c.shutdown_timeout_secs, 0);
}

#[test]
fn config_rejects_unusable_values() {
    assert_eq!(resolve_config(Some(0), None).worker_threads, 1);
    assert_eq!(resolve_config(Some(-2), None).worker_threads, 1);
    assert_eq!(resolve_config(Some(70000), None).worker_threads, 1);
    assert_eq!(resolve_config(None, Some(-5)).shutdown_timeout_secs, 20);
    assert_eq!(resolve_config(None, Some(1_i64 << 40)).shutdown_timeout_secs, 20);
}

#[test]
fn registry_tracks_and_strikes_off() {
    let mut reg = TaskRegistry::new();
    let a = reg.register().unwrap();
    let b = reg.register().unwrap();
    assert_ne!(a, b);
    assert_eq!(reg.active_count(), 2);

    assert!(reg.finish(a));
    assert!(!reg.finish(a));
    assert_eq!(reg.active_count(), 1);
    assert!(reg.finish(b));
    assert_eq!(reg.active_count(), 0);
}

#[test]
fn closed_registry_refuses_submissions() {
    let mut reg = TaskRegistry::new();
    let a = reg.register().unwrap();
    reg.close();
    assert!(reg.register().is_none());
    // The straggler keeps running and is reported, not killed.
    assert_eq!(reg.shutdown_report(), Some(BridgeError::ShutdownTimeout));
    assert!(reg.finish(a));
    assert_eq!(reg.shutdown_report(), None);
}
