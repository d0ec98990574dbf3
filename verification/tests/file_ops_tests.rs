use filesync::file_ops::ProgressState;

#[test]
fn fresh_progress() {
    let p = ProgressState::for_files(4);
    assert_eq!(p.files_total, 4);
    assert_eq!(p.files_done, 0);
    assert!(!p.finished);
    let d = ProgressState::default();
    assert_eq!(d.files_total, 0);
    assert!(d.error.is_none());
}

#[test]
fn recording_entries() {
    let mut p = ProgressState::for_files(2);
    p.record_entry(false, Ok(()));
    assert_eq!(p.files_done, 1);
    assert!(!p.finished);
    p.record_entry(false, Err("broken pipe".to_string()));
    assert!(p.finished);
    assert!(!p.cancelled);
    assert_eq!(p.error.as_deref(), Some("broken pipe"));
}

#[test]
fn failure_after_cancel_counts_as_cancel() {
    let mut p = ProgressState::for_files(2);
    p.record_entry(true, Err("cancelled".to_string()));
    assert!(p.finished);
    assert!(p.cancelled);
    assert!(p.error.is_none());
    let mut q = ProgressState::for_files(1);
    q.cancel_before_entry();
    assert!(q.finished && q.cancelled);
}

#[test]
fn transfer_steps() {
    let mut p = ProgressState::for_files(2);
    p.set_total(100);
    assert_eq!(p.bytes_total, 100);
    assert!(p.before_entry(false));
    assert!(!p.finished);
    p.start_file("a".to_string());
    p.add_bytes(60);
    p.add_bytes(40);
    assert_eq!(p.bytes_done, 100);
    assert_eq!(p.current_file, "a");
    assert!(p.record_entry(false, Ok(())));
    assert!(!p.record_entry(false, Err("disk full".to_string())));
    assert_eq!(p.error.as_deref(), Some("disk full"));
    let mut q = ProgressState::for_files(1);
    assert!(!q.before_entry(true));
    assert!(q.cancelled && q.finished);
    let mut r = ProgressState::for_files(1);
    r.complete();
    assert!(r.finished && !r.cancelled && r.error.is_none());
}
