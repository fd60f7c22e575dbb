use file_upload::TaskRegistry;
use file_upload::TaskStatus;
use file_upload::terminal_status;

fn entry(reg: &mut TaskRegistry, id: &str, name: &str) -> bool {
    reg.insert_fresh(id.to_string(), name.to_string(), format!("uploads/{}", name))
}

#[test]
fn fresh_insert_reads_processing() {
    let mut reg = TaskRegistry::new();
    assert!(entry(&mut reg, "id-1", "a.txt"));
    let id = "id-1".to_string();
    assert!(matches!(reg.get_status(&id), Some(TaskStatus::Processing)));
    assert_eq!(reg.len(), 1);
}

#[test]
fn colliding_insert_is_refused_and_changes_nothing() {
    let mut reg = TaskRegistry::new();
    assert!(entry(&mut reg, "id-1", "a.txt"));
    assert!(!entry(&mut reg, "id-1", "b.txt"));
    assert_eq!(reg.len(), 1);
    let id = "id-1".to_string();
    assert!(matches!(reg.get_status(&id), Some(TaskStatus::Processing)));
}

#[test]
fn unknown_id_reads_not_found_never_processing() {
    let reg = TaskRegistry::new();
    let id = "never-issued".to_string();
    assert!(reg.get_status(&id).is_none());
}

#[test]
fn unknown_id_still_not_found_after_updates() {
    let mut reg = TaskRegistry::new();
    assert!(entry(&mut reg, "id-1", "a.txt"));
    let issued = "id-1".to_string();
    reg.set_status(&issued, TaskStatus::Completed);
    let unknown = "never-issued".to_string();
    assert!(reg.get_status(&unknown).is_none());
}

#[test]
fn set_status_overwrites_the_entry() {
    let mut reg = TaskRegistry::new();
    assert!(entry(&mut reg, "id-1", "a.txt"));
    let id = "id-1".to_string();
    reg.set_status(&id, TaskStatus::Completed);
    assert!(matches!(reg.get_status(&id), Some(TaskStatus::Completed)));
    reg.set_status(&id, TaskStatus::Failed("disk full".to_string()));
    match reg.get_status(&id) {
        Some(TaskStatus::Failed(reason)) => assert_eq!(reason, "disk full"),
        other => panic!("unexpected status {:?}", other.map(|s| s.label())),
    }
}

#[test]
fn set_status_on_unknown_id_is_silent() {
    let mut reg = TaskRegistry::new();
    assert!(entry(&mut reg, "id-1", "a.txt"));
    let unknown = "id-2".to_string();
    reg.set_status(&unknown, TaskStatus::Completed);
    assert_eq!(reg.len(), 1);
    assert!(reg.get_status(&unknown).is_none());
    let id = "id-1".to_string();
    assert!(matches!(reg.get_status(&id), Some(TaskStatus::Processing)));
}

#[test]
fn create_issues_distinct_ids() {
    let mut reg = TaskRegistry::new();
    let a = reg
        .create("a.txt".to_string(), "uploads/a.txt".to_string())
        .expect("a random id collided in an empty registry");
    let b = reg
        .create("b.txt".to_string(), "uploads/b.txt".to_string())
        .expect("a random id collided in a registry of one");
    assert_ne!(a, b);
    assert_eq!(reg.len(), 2);
    assert!(matches!(reg.get_status(&a), Some(TaskStatus::Processing)));
    assert!(matches!(reg.get_status(&b), Some(TaskStatus::Processing)));
}

#[test]
fn terminal_status_of_success_is_completed() {
    assert!(matches!(terminal_status(None), TaskStatus::Completed));
}

#[test]
fn terminal_status_keeps_the_reason() {
    match terminal_status(Some("permission denied".to_string())) {
        TaskStatus::Failed(reason) => assert_eq!(reason, "permission denied"),
        other => panic!("unexpected status {}", other.label()),
    }
}

#[test]
fn terminal_status_never_leaves_an_empty_reason() {
    match terminal_status(Some(String::new())) {
        TaskStatus::Failed(reason) => assert!(!reason.is_empty()),
        other => panic!("unexpected status {}", other.label()),
    }
}

#[test]
fn status_labels() {
    assert_eq!(TaskStatus::Processing.label(), "processing");
    assert_eq!(TaskStatus::Completed.label(), "completed");
    assert_eq!(TaskStatus::Failed("x".to_string()).label(), "failed");
}

#[test]
fn dup_copies_the_status() {
    let failed = TaskStatus::Failed("disk full".to_string());
    match failed.dup() {
        TaskStatus::Failed(reason) => assert_eq!(reason, "disk full"),
        other => panic!("unexpected status {}", other.label()),
    }
    assert!(matches!(TaskStatus::Processing.dup(), TaskStatus::Processing));
}
