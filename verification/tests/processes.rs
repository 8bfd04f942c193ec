use bifrost::active_runs::{
    after_child_signal, after_group_signal, kill_all_active_runs, needs_force_kill,
    terminate_process, ActiveRuns, ProcessSignalOutcome, SignalReply, SignalStep,
};
use bifrost::runs::taskkill_message_indicates_missing_process;

#[test]
fn terminate_process_rejects_pid_zero() {
    let error = terminate_process(0).unwrap_err();

    assert_eq!(error, "refusing to terminate pid 0");
}

#[test]
fn taskkill_missing_process_messages_are_idempotent() {
    assert!(taskkill_message_indicates_missing_process(
        &b"ERROR: The process \"999999999\" not found.".to_vec(),
        &b"".to_vec()
    ));
    assert!(taskkill_message_indicates_missing_process(
        &b"".to_vec(),
        &b"ERROR: The process with PID 999999999 could not be terminated.\r\nReason: There is no running instance of the task.\r\n".to_vec()
    ));
    assert!(!taskkill_message_indicates_missing_process(
        &b"".to_vec(),
        &b"ERROR: The process with PID 999999999 could not be terminated.\r\nReason: Access is denied.\r\n".to_vec()
    ));
}

#[test]
fn request_run_stop_treats_missing_active_pid_as_stopped() {
    let mut active = ActiveRuns::new();
    let run_id = "missing-active-pid-stop";
    active.register_process(run_id, 999_999_999);

    assert_eq!(active.take_process(run_id), Some(999_999_999));
    active.remove_active_sessions_for_run(run_id);

    assert_eq!(
        active.take_process(run_id),
        None,
        "missing active pid should still be removed after a stop request"
    );
}

#[test]
fn external_cli_runtime_stops_active_run_by_session_key() {
    let mut active = ActiveRuns::new();
    assert_eq!(active.claim_session("im:provider-a:user-a", "run-1"), None);
    active.register_process("run-1", 4711);

    assert_eq!(
        active.run_to_stop(" im:provider-a:user-a "),
        Ok("run-1".to_string())
    );
    assert_eq!(
        active.claim_session("im:provider-a:user-a", "run-2"),
        Some("run-1".to_string())
    );
    active.finish_run("run-1");
    assert_eq!(
        active.session_run("im:provider-a:user-a"),
        Some("run-2".to_string())
    );
    active.finish_run("run-2");
    assert_eq!(
        active.run_to_stop("im:provider-a:user-a"),
        Err("no active external cli run for session 'im:provider-a:user-a'".to_string())
    );
    assert_eq!(
        active.run_to_stop("  "),
        Err("session_key cannot be empty".to_string())
    );
}

#[test]
fn no_run_outlives_the_gateway() {
    let mut active = ActiveRuns::new();
    active.register_process("run-1", 11);
    active.register_process("run-2", 12);
    active.register_process("run-3", 0);
    active.claim_session("s", "run-1");
    let mut ended = kill_all_active_runs(&mut active);
    ended.sort();
    assert_eq!(
        ended,
        vec![("run-1".to_string(), 11), ("run-2".to_string(), 12)]
    );
    assert_eq!(active.take_process("run-1"), None);
    assert_eq!(active.session_run("s"), None);
}

#[test]
fn signal_process_group_reports_not_found_after_child_exits() {
    assert_eq!(
        after_group_signal(SignalReply::NoSuchProcess),
        SignalStep::Done(ProcessSignalOutcome::NotFound)
    );
    assert!(!needs_force_kill(ProcessSignalOutcome::NotFound));
    assert!(needs_force_kill(ProcessSignalOutcome::Signaled));
    assert_eq!(
        after_group_signal(SignalReply::NotPermitted),
        SignalStep::SignalChild
    );
    assert_eq!(
        after_child_signal(SignalReply::NotPermitted),
        SignalStep::Fail
    );
    assert_eq!(terminate_process(4711), Ok(-4711));
    assert_eq!(
        terminate_process(u32::MAX),
        Err("pid 4294967295 is too large to terminate".to_string())
    );
}
