use backend_supervisor::supervisor::Supervisor;

#[test]
fn start_from_idle_stores_one_handle() {
    let mut s: Supervisor<u64> = Supervisor::new();
    assert!(!s.is_running());
    assert_eq!(s.start_begin(), None);
    let r = s.start_finish(Ok(7));
    assert_eq!(r, Ok("Backend started".to_string()));
    assert!(s.is_running());
}

#[test]
fn start_twice_is_a_noop_success() {
    let mut s: Supervisor<u64> = Supervisor::new();
    assert_eq!(s.start_begin(), None);
    s.start_finish(Ok(1)).unwrap();
    assert_eq!(s.start_begin(), Some("Backend already running".to_string()));
    // the stored handle is untouched: stop hands back the original one
    let (msg, handle) = s.stop();
    assert_eq!(msg, "Backend stopped");
    assert_eq!(handle, Some(1));
}

#[test]
fn stop_clears_then_reports_not_running() {
    let mut s: Supervisor<u64> = Supervisor::new();
    assert_eq!(s.start_begin(), None);
    s.start_finish(Ok(9)).unwrap();
    let (first, cancelled) = s.stop();
    assert_eq!(first, "Backend stopped");
    assert_eq!(cancelled, Some(9));
    assert!(!s.is_running());
    let (second, none_left) = s.stop();
    assert_eq!(second, "Backend not running");
    assert_eq!(none_left, None);
}

#[test]
fn stop_on_a_fresh_supervisor_is_a_success() {
    let mut s: Supervisor<u64> = Supervisor::new();
    let (msg, handle) = s.stop();
    assert_eq!(msg, "Backend not running");
    assert_eq!(handle, None);
}

#[test]
fn failed_spawn_reports_the_error_verbatim() {
    let mut s: Supervisor<u64> = Supervisor::new();
    assert_eq!(s.start_begin(), None);
    let r = s.start_finish(Err("sidecar executable not found".to_string()));
    assert_eq!(r, Err("sidecar executable not found".to_string()));
    assert!(!s.is_running());
}

#[test]
fn restart_after_stop_stores_the_new_handle() {
    let mut s: Supervisor<u64> = Supervisor::new();
    assert_eq!(s.start_begin(), None);
    s.start_finish(Ok(3)).unwrap();
    s.stop();
    assert_eq!(s.start_begin(), None);
    s.start_finish(Ok(4)).unwrap();
    let (msg, handle) = s.stop();
    assert_eq!(msg, "Backend stopped");
    assert_eq!(handle, Some(4));
}
