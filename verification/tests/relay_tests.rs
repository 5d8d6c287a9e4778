use backend_supervisor::relay::{
    relay_step, run_relay, BackendEvent, LogEntry, Notification, RelayState,
};

#[test]
fn terminated_emits_one_notification_and_ends_the_run() {
    let events = vec![
        BackendEvent::StdoutLine(b"ready".to_vec()),
        BackendEvent::Terminated(3),
        BackendEvent::Error("delivered after the end".to_string()),
    ];
    let out = run_relay(&events);
    assert_eq!(out.processed, 2);
    assert_eq!(out.notifications, vec![Notification::BackendTerminated(3)]);
    assert_eq!(
        out.logs,
        vec![
            LogEntry::StdoutLine("ready".to_string()),
            LogEntry::Terminated(3),
        ]
    );
}

#[test]
fn terminated_step_moves_to_done() {
    let out = relay_step(&BackendEvent::Terminated(0));
    assert_eq!(out.next, RelayState::Done);
    assert_eq!(out.notification, Some(Notification::BackendTerminated(0)));
    assert_eq!(out.log, LogEntry::Terminated(0));
}

#[test]
fn error_is_relayed_verbatim_and_keeps_listening() {
    let out = relay_step(&BackendEvent::Error("backend panicked".to_string()));
    assert_eq!(out.next, RelayState::Listening);
    assert_eq!(
        out.notification,
        Some(Notification::BackendError("backend panicked".to_string()))
    );
    assert_eq!(out.log, LogEntry::Error("backend panicked".to_string()));
}

#[test]
fn error_does_not_end_the_run() {
    let events = vec![
        BackendEvent::Error("backend panicked".to_string()),
        BackendEvent::StdoutLine(b"still here".to_vec()),
    ];
    let out = run_relay(&events);
    assert_eq!(out.processed, 2);
    assert_eq!(
        out.notifications,
        vec![Notification::BackendError("backend panicked".to_string())]
    );
    assert_eq!(
        out.logs,
        vec![
            LogEntry::Error("backend panicked".to_string()),
            LogEntry::StdoutLine("still here".to_string()),
        ]
    );
}

#[test]
fn malformed_stdout_bytes_are_decoded_lossily() {
    let out = relay_step(&BackendEvent::StdoutLine(vec![0xff, b'h', b'i']));
    assert_eq!(out.next, RelayState::Listening);
    assert_eq!(out.notification, None);
    assert_eq!(out.log, LogEntry::StdoutLine("\u{fffd}hi".to_string()));
}

#[test]
fn malformed_stderr_bytes_are_decoded_lossily() {
    let out = relay_step(&BackendEvent::StderrLine(vec![b'o', b'k', 0xc3]));
    assert_eq!(out.next, RelayState::Listening);
    assert_eq!(out.notification, None);
    assert_eq!(out.log, LogEntry::StderrLine("ok\u{fffd}".to_string()));
}

#[test]
fn valid_lines_are_logged_unchanged_and_earn_no_notification() {
    let events = vec![
        BackendEvent::StdoutLine(b"line one".to_vec()),
        BackendEvent::StderrLine(b"line two".to_vec()),
    ];
    let out = run_relay(&events);
    assert_eq!(out.processed, 2);
    assert_eq!(out.notifications, vec![]);
    assert_eq!(
        out.logs,
        vec![
            LogEntry::StdoutLine("line one".to_string()),
            LogEntry::StderrLine("line two".to_string()),
        ]
    );
}

#[test]
fn a_closed_stream_ends_the_run_quietly() {
    let events: Vec<BackendEvent> = vec![];
    let out = run_relay(&events);
    assert_eq!(out.processed, 0);
    assert!(out.logs.is_empty());
    assert!(out.notifications.is_empty());
}

#[test]
fn termination_alone_notifies_its_status() {
    let events = vec![BackendEvent::Terminated(-9)];
    let out = run_relay(&events);
    assert_eq!(out.processed, 1);
    assert_eq!(out.notifications, vec![Notification::BackendTerminated(-9)]);
    assert_eq!(out.logs, vec![LogEntry::Terminated(-9)]);
}
