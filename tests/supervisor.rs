use log_ingest::supervisor::{task_id, Supervisor};

#[test]
fn task_ids_name_both_ports() {
    assert_eq!(task_id(514), "syslog:514:514");
    assert_eq!(task_id(0), "syslog:0:0");
    assert_eq!(task_id(65535), "syslog:65535:65535");
    assert_eq!(task_id(10), "syslog:10:10");
}

#[test]
fn start_registers_in_order() {
    let mut s: Supervisor<u32> = Supervisor::new();
    assert!(s.list().is_empty());
    assert_eq!(s.start(514, 1).ok(), Some("syslog:514:514".to_string()));
    assert_eq!(s.start(1514, 2).ok(), Some("syslog:1514:1514".to_string()));
    assert_eq!(s.list(), vec!["syslog:514:514".to_string(), "syslog:1514:1514".to_string()]);
    assert!(s.is_running(514));
    assert!(!s.is_running(515));
}

#[test]
fn duplicate_start_keeps_first_handle() {
    let mut s: Supervisor<u32> = Supervisor::new();
    assert!(s.start(514, 1).is_ok());
    assert_eq!(s.start(514, 2), Err(2));
    assert_eq!(s.list(), vec!["syslog:514:514".to_string()]);
    let plan = s.stop_all();
    assert_eq!(plan.tasks.len(), 1);
    assert_eq!(plan.tasks[0].handle, 1);
}

#[test]
fn start_then_stop_all_empties_registry() {
    let mut s: Supervisor<u32> = Supervisor::new();
    assert!(s.start(514, 7).is_ok());
    let plan = s.stop_all();
    assert!(plan.broadcast);
    assert_eq!(plan.tasks.len(), 1);
    assert_eq!(plan.tasks[0].port, 514);
    assert_eq!(plan.tasks[0].handle, 7);
    assert!(s.list().is_empty());
    let again = s.stop_all();
    assert!(!again.broadcast);
    assert!(again.tasks.is_empty());
}

#[test]
fn abort_all_hands_back_every_task() {
    let mut s: Supervisor<u32> = Supervisor::new();
    assert!(s.start(1, 10).is_ok());
    assert!(s.start(2, 20).is_ok());
    let tasks = s.abort_all();
    let handles: Vec<u32> = tasks.iter().map(|t| t.handle).collect();
    assert_eq!(handles, vec![10, 20]);
    assert!(s.list().is_empty());
}

#[test]
fn finished_task_leaves_registry() {
    let mut s: Supervisor<u32> = Supervisor::new();
    assert!(s.start(1, 10).is_ok());
    assert!(s.start(2, 20).is_ok());
    assert!(s.start(3, 30).is_ok());
    assert_eq!(s.finished(2), Some(20));
    assert_eq!(s.finished(2), None);
    assert_eq!(s.list(), vec!["syslog:1:1".to_string(), "syslog:3:3".to_string()]);
    assert!(s.start(2, 21).is_ok());
}
