use command_executor::{ProcessInfo, ProcessRegistry};

fn record(name: &str) -> ProcessInfo {
    ProcessInfo {
        pid: 0,
        name: name.to_string(),
        command: format!("{} ", name),
        start_time: "2024-01-01T00:00:00+00:00".to_string(),
    }
}

#[test]
fn new_registry_is_empty() {
    let registry = ProcessRegistry::new();
    assert_eq!(registry.len(), 0);
    assert!(registry.snapshot().is_empty());
}

#[test]
fn register_then_snapshot_shows_record() {
    let mut registry = ProcessRegistry::new();
    registry.register("a".to_string(), record("ls"));
    registry.register("b".to_string(), record("pwd"));
    assert_eq!(registry.len(), 2);
    assert!(registry.contains(&"a".to_string()));
    let mut names: Vec<String> = registry.snapshot().into_iter().map(|p| p.name).collect();
    names.sort();
    assert_eq!(names, vec!["ls".to_string(), "pwd".to_string()]);
}

#[test]
fn register_same_id_replaces_record() {
    let mut registry = ProcessRegistry::new();
    registry.register("a".to_string(), record("ls"));
    registry.register("a".to_string(), record("pwd"));
    assert_eq!(registry.len(), 1);
    assert_eq!(registry.snapshot()[0].name, "pwd");
}

#[test]
fn cancel_unknown_id_returns_false() {
    let mut registry = ProcessRegistry::new();
    registry.register("a".to_string(), record("ls"));
    assert!(!registry.deregister(&"zzz".to_string()));
    assert_eq!(registry.len(), 1);
}

#[test]
fn cancel_registered_id_removes_it() {
    let mut registry = ProcessRegistry::new();
    registry.register("a".to_string(), record("ls"));
    registry.register("b".to_string(), record("pwd"));
    assert!(registry.deregister(&"a".to_string()));
    assert!(!registry.contains(&"a".to_string()));
    let snapshot = registry.snapshot();
    assert_eq!(snapshot.len(), 1);
    assert_eq!(snapshot[0].name, "pwd");
    assert!(!registry.deregister(&"a".to_string()));
}

#[test]
fn record_clone_keeps_fields() {
    let first = record("ls");
    let copy = first.clone();
    assert_eq!(copy.pid, first.pid);
    assert_eq!(copy.name, first.name);
    assert_eq!(copy.command, first.command);
    assert_eq!(copy.start_time, first.start_time);
}
