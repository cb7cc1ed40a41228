use lighty_launcher::events::instance_exited_event;
use lighty_launcher::instance::{GameInstance, InstanceError, InstanceManager};

fn inst(pid: u32, name: &str) -> GameInstance {
    GameInstance {
        pid,
        instance_name: name.to_string(),
        version: "1.21.1-".to_string(),
        username: "Steve".to_string(),
        game_dir: "/g".to_string(),
        started_at: 0,
    }
}

#[test]
fn registered_instances_are_found_by_name() {
    let mut m = InstanceManager::new();
    assert_eq!(m.get_pid("a"), None);
    m.register_instance(inst(10, "a"));
    m.register_instance(inst(11, "b"));
    m.register_instance(inst(12, "a"));
    let mut pids = m.get_pids("a");
    pids.sort();
    assert_eq!(pids, vec![10, 12]);
    assert_eq!(m.get_pids("b"), vec![11]);
    assert!(m.get_pids("c").is_empty());
    let p = m.get_pid("a").unwrap();
    assert!(p == 10 || p == 12);
}

#[test]
fn unregistered_instances_are_gone() {
    let mut m = InstanceManager::new();
    m.register_instance(inst(10, "a"));
    m.unregister_instance(10);
    assert!(m.get_pids("a").is_empty());
    m.unregister_instance(99);
    assert_eq!(m.get_pid("a"), None);
}

#[test]
fn closing_unknown_instance_is_refused() {
    let mut m = InstanceManager::new();
    m.register_instance(inst(5, "x"));
    assert!(m.close_instance(5).is_ok());
    assert!(m.get_pids("x").is_empty());
    match m.close_instance(5) {
        Err(InstanceError::NotFound { pid }) => assert_eq!(pid, 5),
        other => panic!("unexpected {:?}", other),
    }
}

#[test]
fn exit_event_without_crash() {
    let e = instance_exited_event(1, "a".to_string(), Some(0), 9, Some(vec!["ERROR x".to_string()]));
    assert_eq!(e.exit_code, Some(0));
    assert!(e.log_excerpt.is_none());
    assert!(e.error_lines.is_none());
}

#[test]
fn exit_event_after_crash() {
    let logs = vec!["[main/INFO] ok".to_string(), "[main/ERROR] boom".to_string(), "at a.B(B.java:1)".to_string()];
    let e = instance_exited_event(1, "a".to_string(), Some(1), 9, Some(logs.clone()));
    assert_eq!(e.log_excerpt, Some(logs));
    assert_eq!(
        e.error_lines,
        Some(vec!["[main/ERROR] boom".to_string(), "at a.B(B.java:1)".to_string()])
    );
    let quiet = instance_exited_event(1, "a".to_string(), None, 9, Some(vec!["fine".to_string()]));
    assert!(quiet.log_excerpt.is_some());
    assert!(quiet.error_lines.is_none());
    let empty = instance_exited_event(1, "a".to_string(), Some(2), 9, Some(vec![]));
    assert!(empty.log_excerpt.is_none());
    let missing = instance_exited_event(1, "a".to_string(), Some(2), 9, None);
    assert!(missing.log_excerpt.is_none());
}
