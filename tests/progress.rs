use ai_report_generator::progress::{ProgressData, ProgressTracker};

#[test]
fn start_gives_a_starting_snapshot() {
    let mut t = ProgressTracker::new();
    t.start_progress("s1");
    let p = t.get_progress("s1").unwrap();
    assert_eq!(p.status, "starting");
    assert_eq!(p.current_step, 0);
    assert_eq!(p.total_steps, 9);
    assert_eq!(p.step_name, "Initializing");
    assert!(!p.completed);
}

#[test]
fn complete_sets_report_id() {
    let mut t = ProgressTracker::new();
    t.start_progress("s1");
    t.complete_progress("s1", Some(7));
    let p = t.get_progress("s1").unwrap();
    assert!(p.completed);
    assert_eq!(p.report_id, Some(7));
    assert_eq!(p.status, "completed");
    assert_eq!(p.step_name, "Done");
}

#[test]
fn missing_session_is_not_found() {
    let t = ProgressTracker::new();
    assert!(t.get_progress("missing").is_none());
}

#[test]
fn update_is_a_no_op_for_unknown_sessions() {
    let mut t = ProgressTracker::new();
    t.update_step("ghost", 3, "Research", "working");
    assert_eq!(t.len(), 0);
    assert!(t.get_progress("ghost").is_none());
}

#[test]
fn update_records_the_step() {
    let mut t = ProgressTracker::new();
    t.start_progress("a");
    t.update_step("a", 3, "Research", "working");
    let p = t.get_progress("a").unwrap();
    assert_eq!(p.current_step, 3);
    assert_eq!(p.step_name, "Research");
    assert_eq!(p.details, "working");
    assert_eq!(p.status, "in_progress");
}

#[test]
fn completed_entry_ignores_updates() {
    let mut t = ProgressTracker::new();
    t.start_progress("a");
    t.error_progress("a", "boom");
    t.update_step("a", 5, "Later", "x");
    let p = t.get_progress("a").unwrap();
    assert_eq!(p.status, "error");
    assert_eq!(p.error, Some("boom".to_string()));
    assert_eq!(p.current_step, 0);
}

#[test]
fn last_terminal_transition_wins() {
    let mut t = ProgressTracker::new();
    t.start_progress("a");
    t.error_progress("a", "boom");
    t.complete_progress("a", Some(3));
    let p = t.get_progress("a").unwrap();
    assert_eq!(p.status, "completed");
    assert_eq!(p.report_id, Some(3));
}

#[test]
fn cleanup_evicts_oldest_completed_only() {
    let mut t = ProgressTracker::new();
    for id in ["a", "b", "c", "d"] {
        t.start_progress(id);
    }
    t.complete_progress("a", None);
    t.complete_progress("c", None);
    t.complete_progress("d", None);
    t.cleanup_old_sessions(2);
    assert_eq!(t.len(), 2);
    assert!(t.get_progress("a").is_none());
    assert!(t.get_progress("b").is_some());
    assert!(t.get_progress("c").is_none());
    assert!(t.get_progress("d").is_some());
}

#[test]
fn cleanup_never_evicts_running_sessions() {
    let mut t = ProgressTracker::new();
    for id in ["a", "b", "c"] {
        t.start_progress(id);
    }
    t.complete_progress("b", None);
    t.cleanup_old_sessions(0);
    assert_eq!(t.len(), 2);
    assert!(t.get_progress("a").is_some());
    assert!(t.get_progress("c").is_some());
}

#[test]
fn cleanup_under_the_cap_keeps_all() {
    let mut t = ProgressTracker::new();
    t.start_progress("a");
    t.complete_progress("a", None);
    t.cleanup_old_sessions(1);
    assert_eq!(t.len(), 1);
}

#[test]
fn restart_gives_a_fresh_snapshot() {
    let mut t = ProgressTracker::new();
    t.start_progress("a");
    t.complete_progress("a", Some(1));
    t.start_progress("a");
    assert_eq!(t.len(), 1);
    let p = t.get_progress("a").unwrap();
    assert!(!p.completed);
    assert_eq!(p.report_id, None);
}

#[test]
fn new_snapshot_fields() {
    let p = ProgressData::new("x");
    assert_eq!(p.session_id, "x");
    assert_eq!(p.details, "");
    assert_eq!(p.error, None);
}

#[test]
fn default_registry_is_empty() {
    let t = ProgressTracker::default();
    assert_eq!(t.len(), 0);
}
