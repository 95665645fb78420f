use coomi::processes::{
    append_limited, combine_output, exit_report, limit_violation, parse_action,
    process_memory_bytes, read_delta, running_report, shell_arguments, still_running_report,
    terminated_report, tool_error, tool_success, uses_runtime_backend, wrote_report, yield_time_ms,
    failure_report, host_shell_program, shell_candidate, exec_step, wait_step, ExecStep, ProcessProbe, WaitStep, ProcessAction, ProcessFailure, ProcessLimits,
};
use coomi::runtime::RuntimeBackendKind;

#[test]
fn default_limits() {
    let limits = ProcessLimits::default_limits();
    assert_eq!(limits.runtime_limit_secs, 1_800);
    assert_eq!(limits.output_limit, 16 * 1024 * 1024);
    assert_eq!(limits.memory_limit, 512 * 1024 * 1024);
}

#[test]
fn actions_default_to_exec() {
    assert_eq!(parse_action(None), Ok(ProcessAction::Exec));
    assert_eq!(parse_action(Some("write")), Ok(ProcessAction::Write));
    assert_eq!(parse_action(Some("wait")), Ok(ProcessAction::Wait));
    assert_eq!(parse_action(Some("terminate")), Ok(ProcessAction::Terminate));
    assert_eq!(
        parse_action(Some("kill")),
        Err("action must be exec, write, wait, or terminate".to_string())
    );
}

#[test]
fn waits_are_capped() {
    assert_eq!(yield_time_ms(None), 10_000);
    assert_eq!(yield_time_ms(Some(0)), 0);
    assert_eq!(yield_time_ms(Some(90_000)), 60_000);
    assert_eq!(shell_arguments("ls -la"), vec!["-lc".to_string(), "ls -la".to_string()]);
}

#[test]
fn output_is_capped_at_the_limit() {
    let mut buffer = b"abc".to_vec();
    assert_eq!(append_limited(&mut buffer, b"de", 8), None);
    assert_eq!(buffer, b"abcde");
    let error = append_limited(&mut buffer, b"fghij", 8);
    assert_eq!(buffer, b"abcdefgh");
    assert_eq!(error.as_deref(), Some("process output exceeded 8 bytes"));
    let error = append_limited(&mut buffer, b"z", 8);
    assert_eq!(buffer.len(), 8);
    assert!(error.is_some());
    let mut empty = Vec::new();
    assert!(append_limited(&mut empty, b"", 0).is_none());
}

#[test]
fn reads_return_only_new_output() {
    let stdout = b"hello\nworld\n".to_vec();
    let stderr = b"".to_vec();
    let (text, out_offset, err_offset) = read_delta(&stdout, 6, &stderr, 0);
    assert_eq!(text, "world\n");
    assert_eq!(out_offset, 12);
    assert_eq!(err_offset, 0);
    let (text, _, _) = read_delta(&stdout, 99, &stderr, 0);
    assert_eq!(text, "");
    let (text, _, _) = read_delta(&b"ok".to_vec(), 0, &b"warn".to_vec(), 0);
    assert_eq!(text, "ok\n[stderr]\nwarn");
    let (text, _, _) = read_delta(&b"  \n".to_vec(), 0, &b"bad".to_vec(), 0);
    assert_eq!(text, "[stderr]\nbad");
    let (text, _, _) = read_delta(&vec![b'a', 0xff], 0, &Vec::new(), 0);
    assert_eq!(text, "a\u{fffd}");
    assert_eq!(combine_output(" ", "\n"), "");
}

#[test]
fn limits_are_checked_in_order() {
    assert_eq!(
        limit_violation(Some("process output exceeded 8 bytes".into()), u128::MAX, 1, 0, Some(u64::MAX), 1).as_deref(),
        Some("process output exceeded 8 bytes")
    );
    assert_eq!(
        limit_violation(None, 2_000_000_001, 2, 0, Some(u64::MAX), 1).as_deref(),
        Some("process runtime exceeded 2 seconds")
    );
    assert_eq!(limit_violation(None, 2_000_000_000, 2, 0, None, 1), None);
    assert_eq!(
        limit_violation(None, 0, 2, 0, Some(2048), 1024).as_deref(),
        Some("process memory exceeded 1024 bytes (observed 2048)")
    );
    assert_eq!(limit_violation(None, 0, 2, 0, Some(1024), 1024), None);
}

#[test]
fn replies_of_the_shell_tool() {
    let r = exit_report("out", "exit status: 0", true);
    assert!(r.success);
    assert_eq!(r.output, "out\nexit: exit status: 0");
    assert!(!exit_report("", "exit status: 1", false).success);
    assert_eq!(running_report("id-1").output, "process running\nsession_id: id-1");
    assert!(still_running_report("  ", false).is_none());
    let r = still_running_report("  ", true).expect("deadline passed");
    assert_eq!(r.output, "  \nprocess still running");
    assert!(still_running_report("x", false).is_some());
    assert_eq!(wrote_report("héllo").output, "wrote 6 bytes");
    assert_eq!(terminated_report("s").output, "terminated s");
    let u = failure_report(ProcessFailure::UnknownSession("s".into()));
    assert!(!u.success);
    assert_eq!(u.output, "unknown process session: s");
    assert_eq!(failure_report(ProcessFailure::MissingArgument("command".into())).output, "missing string argument: command");
    assert_eq!(failure_report(ProcessFailure::StdinClosed).output, "process stdin is closed");
    assert_eq!(failure_report(ProcessFailure::WriteStdin("broken pipe".into())).output, "failed to write stdin: broken pipe");
    assert_eq!(failure_report(ProcessFailure::StartShell("denied".into())).output, "failed to start shell: denied");
    assert_eq!(failure_report(ProcessFailure::QueryProcess("gone".into())).output, "failed to query process: gone");
    assert_eq!(
        failure_report(ProcessFailure::PrepareRuntimeShell("PRoot host is not installed".into())).output,
        "failed to prepare runtime shell: PRoot host is not installed"
    );
    assert!(tool_success("a".into()).success);
    assert!(!tool_error("b".into()).success);
}

#[test]
fn only_proot_runs_the_shell_tool() {
    assert!(uses_runtime_backend(RuntimeBackendKind::ProotLinux));
    assert!(!uses_runtime_backend(RuntimeBackendKind::LegacyTermux));
}

#[test]
fn resident_memory_is_read_from_proc_status() {
    let status = "Name:\tbash\nVmPeak:\t  9000 kB\nVmRSS:\t  1234 kB\nVmRSS:\t 1 kB\n";
    assert_eq!(process_memory_bytes(status), Some(1234 * 1024));
    assert_eq!(process_memory_bytes("Name:\tx\n"), None);
    assert_eq!(process_memory_bytes("VmRSS:\tlots kB\n"), None);
    assert_eq!(process_memory_bytes("VmRSS:"), None);
    assert_eq!(process_memory_bytes("XVmRSS: 5 kB\nVmRSS: 7 kB"), Some(7 * 1024));
    assert_eq!(process_memory_bytes("VmRSS: +3 kB"), Some(3 * 1024));
    assert_eq!(process_memory_bytes("VmRSS: 18446744073709551615 kB"), Some(u64::MAX));
    assert_eq!(process_memory_bytes("VmRSS: 18446744073709551616 kB"), None);
}

#[test]
fn host_shell_prefers_the_configured_one() {
    assert_eq!(shell_candidate(Some("/x/zsh".into()), Some("/p".into())).as_deref(), Some("/x/zsh"));
    assert_eq!(shell_candidate(None, Some("/data/usr".into())).as_deref(), Some("/data/usr/bin/bash"));
    assert_eq!(shell_candidate(None, None), None);
    assert_eq!(host_shell_program(Some("/x/zsh".into()), true), "/x/zsh");
    assert_eq!(host_shell_program(Some("/x/zsh".into()), false), "/bin/bash");
    assert_eq!(host_shell_program(None, true), "/bin/bash");
}

#[test]
fn polling_decides_limits_first_then_the_process_state() {
    let exited = || ProcessProbe::Exited("exit status: 0".into(), true);
    assert!(matches!(exec_step(Some("process runtime exceeded 2 seconds".into()), exited(), false),
        ExecStep::Reply(r) if !r.success && r.output == "process runtime exceeded 2 seconds"));
    assert!(matches!(exec_step(None, exited(), true), ExecStep::Exited(s, true) if s == "exit status: 0"));
    assert!(matches!(exec_step(None, ProcessProbe::Running, false), ExecStep::Continue));
    assert!(matches!(exec_step(None, ProcessProbe::Running, true), ExecStep::Detach));
    assert!(matches!(exec_step(None, ProcessProbe::QueryFailed("gone".into()), false),
        ExecStep::Reply(r) if r.output == "failed to query process: gone"));
    assert!(matches!(wait_step(Some("x".into()), ProcessProbe::Running), WaitStep::Killed(r) if r.output == "x"));
    assert!(matches!(wait_step(None, ProcessProbe::Exited("exit status: 1".into(), false)), WaitStep::Exited(_, false)));
    assert!(matches!(wait_step(None, ProcessProbe::Running), WaitStep::Running));
    assert!(matches!(wait_step(None, ProcessProbe::QueryFailed("e".into())), WaitStep::Reply(r) if !r.success));
}
