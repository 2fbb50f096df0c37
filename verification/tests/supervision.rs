use server_keeper::errors::{SendError, StartError, StopError};
use server_keeper::registry::{ProcessHandle, ProcessRegistry};
use server_keeper::supervisor::{
    delete_retry_decision, stop_poll, ProcessSupervisor, RetryAction, StopAction,
};

#[test]
fn registry_register_lookup_remove() {
    let mut r = ProcessRegistry::new();
    assert!(r.register("alpha".to_string(), ProcessHandle { pid: 7, has_input: true }).is_ok());
    let h = r.lookup("alpha").unwrap();
    assert_eq!(h.pid, 7);
    assert!(h.has_input);
    assert!(r.lookup("beta").is_none());
    let removed = r.remove("alpha").unwrap();
    assert_eq!(removed.pid, 7);
    assert!(r.remove("alpha").is_none());
}

#[test]
fn registry_refuses_double_register() {
    let mut r = ProcessRegistry::new();
    assert!(r.register("srv".to_string(), ProcessHandle { pid: 1, has_input: true }).is_ok());
    let second = r.register("srv".to_string(), ProcessHandle { pid: 2, has_input: true });
    assert!(matches!(second, Err(StartError::AlreadyRunning)));
    // the first registration is untouched
    assert_eq!(r.lookup("srv").unwrap().pid, 1);
}

#[test]
fn registry_probe_heals_dead_entry() {
    let mut r = ProcessRegistry::new();
    r.register("srv".to_string(), ProcessHandle { pid: 1, has_input: false }).unwrap();
    assert!(r.note_probe("srv", true));
    assert!(!r.note_probe("srv", false));
    // the entry is gone after an observed exit
    assert!(r.lookup("srv").is_none());
    assert!(!r.note_probe("srv", true));
}

#[test]
fn start_twice_is_refused_until_stopped() {
    let mut s = ProcessSupervisor::new();
    assert!(s.start_precheck("srv", false).is_ok());
    assert!(s.complete_start("srv", 11, true).is_ok());
    // a second start against a live process is refused
    assert!(matches!(s.start_precheck("srv", true), Err(StartError::AlreadyRunning)));
    assert!(matches!(s.complete_start("srv", 12, true), Err(StartError::AlreadyRunning)));
    // after a stop the name is free again
    assert!(s.begin_stop("srv").is_ok());
    assert!(s.start_precheck("srv", false).is_ok());
    assert!(s.complete_start("srv", 12, true).is_ok());
}

#[test]
fn send_command_on_unknown_name_is_not_running() {
    let s = ProcessSupervisor::new();
    assert!(matches!(s.prepare_command("ghost", "list"), Err(SendError::NotRunning)));
}

#[test]
fn send_command_without_pipe_is_no_input_channel() {
    let mut s = ProcessSupervisor::new();
    s.start_precheck("srv", false).unwrap();
    s.complete_start("srv", 3, false).unwrap();
    assert!(matches!(s.prepare_command("srv", "list"), Err(SendError::NoInputChannel)));
}

#[test]
fn send_command_builds_line_and_echo() {
    let mut s = ProcessSupervisor::new();
    s.start_precheck("srv", false).unwrap();
    s.complete_start("srv", 3, true).unwrap();
    let line = s.prepare_command("srv", "say hi").unwrap();
    assert_eq!(line, "say hi\n");
    s.record_command("srv", "say hi");
    assert_eq!(s.snapshot_logs("srv").unwrap(), vec!["> say hi".to_string()]);
}

#[test]
fn stop_is_idempotent() {
    let mut s = ProcessSupervisor::new();
    s.start_precheck("srv", false).unwrap();
    s.complete_start("srv", 5, true).unwrap();
    let ticket = s.begin_stop("srv").unwrap();
    assert_eq!(ticket.pid, 5);
    assert!(ticket.send_stop);
    // the second stop observes that the entry is already gone
    assert!(matches!(s.begin_stop("srv"), Err(StopError::NotFound)));
}

#[test]
fn stop_poll_decisions() {
    assert_eq!(stop_poll(true, 0, 10_000), StopAction::Done);
    assert_eq!(stop_poll(false, 500, 10_000), StopAction::Wait);
    assert_eq!(stop_poll(false, 10_000, 10_000), StopAction::Wait);
    assert_eq!(stop_poll(false, 10_001, 10_000), StopAction::Kill);
    assert_eq!(stop_poll(true, 20_000, 10_000), StopAction::Done);
}

#[test]
fn capture_tags_error_stream() {
    let mut s = ProcessSupervisor::new();
    s.start_precheck("srv", false).unwrap();
    s.complete_start("srv", 5, true).unwrap();
    s.on_output_line("srv", "hello", false);
    s.on_output_line("srv", "boom", true);
    assert_eq!(
        s.snapshot_logs("srv").unwrap(),
        vec!["hello".to_string(), "[ERROR] boom".to_string()]
    );
}

#[test]
fn output_for_unknown_name_is_dropped() {
    let mut s = ProcessSupervisor::new();
    s.on_output_line("ghost", "hello", false);
    assert!(s.snapshot_logs("ghost").is_none());
}

#[test]
fn fresh_start_replaces_old_buffer() {
    let mut s = ProcessSupervisor::new();
    s.start_precheck("srv", false).unwrap();
    s.complete_start("srv", 5, true).unwrap();
    s.on_output_line("srv", "old output", false);
    s.begin_stop("srv").unwrap();
    s.start_precheck("srv", false).unwrap();
    s.complete_start("srv", 6, true).unwrap();
    assert_eq!(s.snapshot_logs("srv").unwrap(), Vec::<String>::new());
}

#[test]
fn clear_logs_drops_buffer_but_keeps_process() {
    let mut s = ProcessSupervisor::new();
    s.start_precheck("srv", false).unwrap();
    s.complete_start("srv", 5, true).unwrap();
    s.on_output_line("srv", "kept", false);
    s.clear_logs("srv");
    assert!(s.snapshot_logs("srv").is_none());
    assert!(s.prepare_command("srv", "list").is_ok());
}

#[test]
fn crash_detection_through_supervisor() {
    let mut s = ProcessSupervisor::new();
    s.start_precheck("srv", false).unwrap();
    s.complete_start("srv", 5, true).unwrap();
    assert!(!s.detect_crash("srv"));
    s.on_output_line("srv", "java.lang.OutOfMemoryError: heap", false);
    assert!(s.detect_crash("srv"));
    assert!(!s.detect_crash("other"));
}

#[test]
fn restart_policy_bookkeeping() {
    let mut s = ProcessSupervisor::new();
    assert!(s.restart_policy("srv").is_none());
    s.set_auto_restart("srv", true);
    let p = s.restart_policy("srv").unwrap();
    assert!(p.auto_restart);
    assert_eq!(p.crash_count, 0);
    s.note_crash("srv");
    s.note_crash("srv");
    let p = s.restart_policy("srv").unwrap();
    assert!(p.auto_restart);
    assert_eq!(p.crash_count, 2);
    s.set_auto_restart("srv", false);
    assert_eq!(s.restart_policy("srv").unwrap().crash_count, 2);
}

#[test]
fn delete_retry_budget() {
    assert_eq!(delete_retry_decision(1, true), RetryAction::Done);
    assert_eq!(delete_retry_decision(1, false), RetryAction::Retry);
    assert_eq!(delete_retry_decision(4, false), RetryAction::Retry);
    assert_eq!(delete_retry_decision(5, false), RetryAction::GiveUp);
}

#[test]
fn hello_process_lifecycle() {
    // start a process, see one line of output, then observe its natural
    // exit: the snapshot holds the line and liveness turns false with no
    // explicit stop
    let mut s = ProcessSupervisor::new();
    s.start_precheck("hello", false).unwrap();
    s.complete_start("hello", 99, true).unwrap();
    s.on_output_line("hello", "Hello", false);
    assert_eq!(s.snapshot_logs("hello").unwrap(), vec!["Hello".to_string()]);
    // the process wrote its line and exited; a probe observes that
    assert!(!s.note_probe("hello", false));
    assert!(matches!(s.begin_stop("hello"), Err(StopError::NotFound)));
    assert_eq!(s.snapshot_logs("hello").unwrap(), vec!["Hello".to_string()]);
}
