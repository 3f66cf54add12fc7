use input_lock::diagnostic::{Diagnostic, DIAGNOSTIC_LINES};
use input_lock::supervisor::{GRACE_PERIOD_SECS, GRAB_FLAG};
use input_lock::{CommandError, Device, LockedDevice, SupervisorState, Verdict};

fn keyboard() -> Device {
    Device { event_path: "/dev/input/event5".to_string(), name: "Builtin Keyboard".to_string() }
}

fn locked(process: u32) -> LockedDevice {
    keyboard().lock(Ok(process)).unwrap()
}

fn no_such_tool() -> std::io::Error {
    std::io::Error::new(std::io::ErrorKind::NotFound, "evtest: No such file or directory")
}

#[test]
fn lock_holds_the_spawned_process() {
    let lock = locked(4711);
    assert_eq!(lock.event_path(), "/dev/input/event5");
    assert_eq!(lock.process(), Some(4711));
    assert!(!lock.is_stopping());
    assert!(!lock.has_failed());
    assert_eq!(lock.state(0), SupervisorState::Starting);
}

#[test]
fn lock_fails_when_the_process_cannot_be_spawned() {
    match keyboard().lock(Err(no_such_tool())) {
        Err(CommandError::Io(error)) => {
            assert_eq!(error.kind(), std::io::ErrorKind::NotFound);
            assert_eq!(error.to_string(), "evtest: No such file or directory");
        }
        other => panic!("expected the spawn failure, got {:?}", other),
    }
}

#[test]
fn startup_rejection_is_fatal_and_never_retried() {
    let mut lock = locked(100);
    match lock.stream_ended(1, "Permission denied".to_string()) {
        Verdict::Abort(CommandError::Failed { stderr }) => assert_eq!(stderr, "Permission denied"),
        other => panic!("expected an abort, got {:?}", other),
    }
    assert!(lock.has_failed());
    assert!(!lock.is_stopping());
    assert_eq!(lock.process(), None);
    assert_eq!(lock.state(1), SupervisorState::Stopped);
    assert_eq!(lock.state(60), SupervisorState::Stopped);
    assert!(matches!(lock.stream_ended(60, String::new()), Verdict::Exit));
    assert!(matches!(lock.respawned(Ok(101)), Verdict::Discard));
    assert_eq!(lock.process(), None);
    assert!(matches!(lock.respawned(Err(no_such_tool())), Verdict::Exit));
}

#[test]
fn transient_loss_is_recovered_by_respawning() {
    let mut lock = locked(100);
    assert_eq!(lock.state(29), SupervisorState::Held);
    assert!(matches!(lock.stream_ended(30, String::new()), Verdict::Respawn));
    assert_eq!(lock.state(30), SupervisorState::Relocking);
    assert_eq!(lock.process(), None);
    assert_eq!(lock.event_path(), "/dev/input/event5");
    assert!(matches!(lock.respawned(Ok(101)), Verdict::Watch));
    assert_eq!(lock.process(), Some(101));
    assert_eq!(lock.event_path(), "/dev/input/event5");
    assert_eq!(lock.state(30), SupervisorState::Held);
    assert!(!lock.is_stopping());
    assert!(!lock.has_failed());
    assert_eq!(lock.unlock(), Some(101));
}

#[test]
fn transient_loss_is_recovered_again_and_again() {
    let mut lock = locked(1);
    for process in 2..50u32 {
        assert!(matches!(lock.stream_ended(30, "gone".to_string()), Verdict::Respawn));
        assert!(matches!(lock.respawned(Ok(process)), Verdict::Watch));
        assert_eq!(lock.process(), Some(process));
    }
}

#[test]
fn normal_release_kills_the_process_and_ends_the_task() {
    let mut lock = locked(100);
    assert_eq!(lock.unlock(), Some(100));
    assert!(lock.is_stopping());
    assert_eq!(lock.process(), None);
    assert_eq!(lock.state(12), SupervisorState::Stopped);
    assert!(matches!(lock.stream_ended(12, String::new()), Verdict::Exit));
    assert!(matches!(lock.stream_ended(3600, String::new()), Verdict::Exit));
    assert_eq!(lock.process(), None);
    assert!(lock.is_stopping());
    assert!(!lock.has_failed());
}

#[test]
fn release_within_the_grace_period_is_no_failure() {
    let mut lock = locked(100);
    assert_eq!(lock.unlock(), Some(100));
    assert!(matches!(lock.stream_ended(0, "killed".to_string()), Verdict::Exit));
    assert!(!lock.has_failed());
}

#[test]
fn release_twice_kills_once() {
    let mut lock = locked(100);
    assert_eq!(lock.unlock(), Some(100));
    assert_eq!(lock.unlock(), None);
    assert!(lock.is_stopping());
    assert_eq!(lock.process(), None);
}

#[test]
fn release_while_relocking_discards_the_new_process() {
    let mut lock = locked(100);
    assert!(matches!(lock.stream_ended(30, String::new()), Verdict::Respawn));
    assert_eq!(lock.unlock(), None);
    assert!(matches!(lock.respawned(Ok(101)), Verdict::Discard));
    assert_eq!(lock.process(), None);
    assert!(lock.is_stopping());
    assert!(matches!(lock.stream_ended(31, String::new()), Verdict::Exit));
}

#[test]
fn release_while_relocking_ignores_a_failed_spawn() {
    let mut lock = locked(100);
    assert!(matches!(lock.stream_ended(30, String::new()), Verdict::Respawn));
    assert_eq!(lock.unlock(), None);
    assert!(matches!(lock.respawned(Err(no_such_tool())), Verdict::Exit));
    assert!(!lock.has_failed());
}

#[test]
fn release_after_a_failure_sets_the_stop_signal() {
    let mut lock = locked(100);
    assert!(matches!(lock.stream_ended(2, "busy".to_string()), Verdict::Abort(_)));
    assert_eq!(lock.unlock(), None);
    assert!(lock.is_stopping());
    assert!(lock.has_failed());
}

#[test]
fn respawn_that_cannot_be_spawned_is_fatal() {
    let mut lock = locked(100);
    assert!(matches!(lock.stream_ended(30, String::new()), Verdict::Respawn));
    match lock.respawned(Err(no_such_tool())) {
        Verdict::Abort(CommandError::Io(error)) => {
            assert_eq!(error.kind(), std::io::ErrorKind::NotFound)
        }
        other => panic!("expected an abort, got {:?}", other),
    }
    assert!(lock.has_failed());
    assert_eq!(lock.process(), None);
    assert!(matches!(lock.stream_ended(31, String::new()), Verdict::Exit));
}

#[test]
fn stream_end_while_relocking_asks_for_the_respawn_again() {
    let mut lock = locked(100);
    assert!(matches!(lock.stream_ended(30, String::new()), Verdict::Respawn));
    assert!(matches!(lock.stream_ended(2, String::new()), Verdict::Respawn));
    assert!(!lock.has_failed());
    assert!(matches!(lock.respawned(Ok(7)), Verdict::Watch));
}

#[test]
fn grace_period_ends_after_five_full_seconds() {
    assert_eq!(GRACE_PERIOD_SECS, 5);
    for elapsed in 0..5u64 {
        let mut lock = locked(100);
        assert_eq!(lock.state(elapsed), SupervisorState::Starting);
        assert!(matches!(lock.stream_ended(elapsed, String::new()), Verdict::Abort(_)));
    }
    for elapsed in [5u64, 6, 30, u64::MAX] {
        let mut lock = locked(100);
        assert_eq!(lock.state(elapsed), SupervisorState::Held);
        assert!(matches!(lock.stream_ended(elapsed, String::new()), Verdict::Respawn));
    }
}

#[test]
fn grace_period_counts_from_the_first_lock() {
    let mut lock = locked(100);
    assert!(matches!(lock.stream_ended(30, String::new()), Verdict::Respawn));
    assert!(matches!(lock.respawned(Ok(101)), Verdict::Watch));
    assert!(matches!(lock.stream_ended(30, "Device busy".to_string()), Verdict::Respawn));
}

#[test]
fn grab_flag() {
    assert_eq!(GRAB_FLAG, "--grab");
}

#[test]
fn diagnostic_of_nothing_is_empty() {
    let diagnostic = Diagnostic::new();
    assert_eq!(diagnostic.text(), "");
}

#[test]
fn diagnostic_joins_the_lines() {
    let mut diagnostic = Diagnostic::new();
    assert!(diagnostic.accept(Ok("evtest: Permission denied".to_string())));
    assert_eq!(diagnostic.text(), "evtest: Permission denied");
    assert!(diagnostic.accept(Ok("".to_string())));
    assert!(diagnostic.accept(Ok("try sudo".to_string())));
    assert_eq!(diagnostic.text(), "evtest: Permission denied\n\ntry sudo");
}

#[test]
fn diagnostic_keeps_the_first_five_lines() {
    assert_eq!(DIAGNOSTIC_LINES, 5);
    let mut diagnostic = Diagnostic::new();
    for (i, line) in ["1", "2", "3", "4", "5", "6", "7"].iter().enumerate() {
        assert_eq!(diagnostic.accept(Ok(line.to_string())), i < 4);
    }
    assert_eq!(diagnostic.text(), "1\n2\n3\n4\n5");
}

#[test]
fn diagnostic_ends_at_an_unreadable_line() {
    let mut diagnostic = Diagnostic::new();
    assert!(diagnostic.accept(Ok("first".to_string())));
    let unreadable = std::io::Error::new(std::io::ErrorKind::InvalidData, "not UTF-8");
    assert!(!diagnostic.accept(Err(unreadable)));
    assert!(!diagnostic.accept(Ok("late".to_string())));
    assert_eq!(diagnostic.text(), "first");
}

#[test]
fn diagnostic_feeds_the_verdict() {
    let mut diagnostic = Diagnostic::new();
    diagnostic.accept(Ok("evtest: cannot grab".to_string()));
    diagnostic.accept(Ok("Device or resource busy".to_string()));
    let mut lock = locked(9);
    match lock.stream_ended(0, diagnostic.text()) {
        Verdict::Abort(CommandError::Failed { stderr }) => {
            assert_eq!(stderr, "evtest: cannot grab\nDevice or resource busy")
        }
        other => panic!("expected an abort, got {:?}", other),
    }
}
