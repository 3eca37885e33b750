use enclave_proxy::supervisor::{
    build_user_env, classify_workload, health_report_payload, resolve_user_command,
    split_command_words, start_log_message, supervisor_step, unknown_workload_message,
    SupervisorAction, SupervisorEvent, WorkloadKind,
};

fn s(v: &str) -> String {
    v.to_string()
}

#[test]
fn explicit_command_wins() {
    let r = resolve_user_command(Some(s("/bin/true")), Some(s("python")), Some(s("app.py")));
    assert_eq!(r, Some(s("/bin/true")));
}

#[test]
fn entrypoint_and_args_are_joined() {
    assert_eq!(
        resolve_user_command(None, Some(s("python")), Some(s("app.py -v"))),
        Some(s("python app.py -v"))
    );
    assert_eq!(resolve_user_command(Some(s("")), Some(s("python")), None), Some(s("python")));
    assert_eq!(resolve_user_command(None, None, Some(s("app.py"))), Some(s("app.py")));
    assert_eq!(resolve_user_command(None, Some(s("")), Some(s(""))), None);
    assert_eq!(resolve_user_command(None, None, None), None);
}

#[test]
fn command_words_split_on_whitespace() {
    assert_eq!(split_command_words("/bin/echo hi   there"), vec![
        s("/bin/echo"),
        s("hi"),
        s("there"),
    ]);
    assert_eq!(split_command_words("  padded \t tabs\n"), vec![s("padded"), s("tabs")]);
    assert_eq!(split_command_words(""), Vec::<String>::new());
    assert_eq!(split_command_words("   "), Vec::<String>::new());
}

#[test]
fn child_env_is_forced() {
    let base = vec![(s("PATH"), s("/usr/bin")), (s("HTTP_PROXY"), s("http://old:1"))];
    let env = build_user_env(base);
    assert!(env.contains(&(s("PATH"), s("/usr/bin"))));
    assert!(env.contains(&(s("HTTP_PROXY"), s("http://127.0.0.1:3128"))));
    assert!(env.contains(&(s("HTTPS_PROXY"), s("http://127.0.0.1:3128"))));
    assert!(env.contains(&(s("http_proxy"), s("http://127.0.0.1:3128"))));
    assert!(env.contains(&(s("https_proxy"), s("http://127.0.0.1:3128"))));
    assert!(env.contains(&(s("TREZA_KMS_ENDPOINT"), s("http://127.0.0.1:8000"))));
    assert!(env.contains(&(s("NO_PROXY"), s("127.0.0.1,localhost"))));
    assert!(env.contains(&(s("no_proxy"), s("127.0.0.1,localhost"))));
    assert!(!env.contains(&(s("HTTP_PROXY"), s("http://old:1"))));
    assert_eq!(env[0], (s("PATH"), s("/usr/bin")), "existing entries keep their place");
}

#[test]
fn workload_classification() {
    assert_eq!(classify_workload(&s("batch")), (WorkloadKind::Batch, false));
    assert_eq!(classify_workload(&s("service")), (WorkloadKind::Service, false));
    assert_eq!(classify_workload(&s("daemon")), (WorkloadKind::Service, false));
    assert_eq!(classify_workload(&s("other")), (WorkloadKind::Batch, true));
    assert_eq!(
        unknown_workload_message(&s("other")),
        "Unknown workload type 'other', treating as batch"
    );
}

#[test]
fn start_message_names_the_command() {
    assert_eq!(start_log_message(&s("/bin/true")), "Starting user application: /bin/true");
}

#[test]
fn health_report_payloads_are_exact() {
    assert_eq!(
        health_report_payload("completed", Some(0), "batch"),
        "{\"exit_code\":0,\"status\":\"completed\",\"workload_type\":\"batch\"}"
    );
    assert_eq!(
        health_report_payload("crashed", Some(7), "service"),
        "{\"exit_code\":7,\"status\":\"crashed\",\"workload_type\":\"service\"}"
    );
    assert_eq!(
        health_report_payload("completed", Some(-1), "batch"),
        "{\"exit_code\":-1,\"status\":\"completed\",\"workload_type\":\"batch\"}"
    );
    assert_eq!(
        health_report_payload("running", None, "service"),
        "{\"status\":\"running\",\"workload_type\":\"service\"}"
    );
}

#[test]
fn batch_completion_logs_reports_and_flushes() {
    let r = supervisor_step(
        WorkloadKind::Batch,
        &SupervisorEvent::ChildExited { code: Some(0) },
    );
    assert!(r.done);
    assert_eq!(r.actions.len(), 3);
    match &r.actions[0] {
        SupervisorAction::SendLog { level, message } => {
            assert_eq!(level, "info");
            assert_eq!(message, "Application exited with code 0");
        }
        _ => panic!("first a log"),
    }
    match &r.actions[1] {
        SupervisorAction::SendHealthReport { payload } => {
            assert_eq!(
                payload,
                "{\"exit_code\":0,\"status\":\"completed\",\"workload_type\":\"batch\"}"
            );
        }
        _ => panic!("then the health report"),
    }
    assert!(matches!(r.actions[2], SupervisorAction::SleepSecs { secs: 5 }));
}

#[test]
fn service_crash_reports_and_returns() {
    let r = supervisor_step(
        WorkloadKind::Service,
        &SupervisorEvent::TickChildGone { code: Some(7) },
    );
    assert!(r.done);
    assert_eq!(r.actions.len(), 2);
    match &r.actions[0] {
        SupervisorAction::SendLog { level, message } => {
            assert_eq!(level, "error");
            assert_eq!(message, "Service exited unexpectedly with code 7");
        }
        _ => panic!("first a log"),
    }
    match &r.actions[1] {
        SupervisorAction::SendHealthReport { payload } => {
            assert_eq!(
                payload,
                "{\"exit_code\":7,\"status\":\"crashed\",\"workload_type\":\"service\"}"
            );
        }
        _ => panic!("then the crash report"),
    }
}

#[test]
fn service_tick_reports_running() {
    let r = supervisor_step(WorkloadKind::Service, &SupervisorEvent::TickAlive);
    assert!(!r.done);
    assert_eq!(r.actions.len(), 1);
    match &r.actions[0] {
        SupervisorAction::SendHealthReport { payload } => {
            assert_eq!(payload, "{\"status\":\"running\",\"workload_type\":\"service\"}");
        }
        _ => panic!("a running report"),
    }
}

#[test]
fn shutdown_kills_the_child() {
    let r = supervisor_step(WorkloadKind::Batch, &SupervisorEvent::Shutdown);
    assert!(r.done);
    assert_eq!(r.actions.len(), 2);
    match &r.actions[0] {
        SupervisorAction::SendLog { level, message } => {
            assert_eq!(level, "info");
            assert_eq!(message, "Shutdown signal received, terminating process");
        }
        _ => panic!("first a log"),
    }
    assert!(matches!(r.actions[1], SupervisorAction::KillChild));
    let rs = supervisor_step(WorkloadKind::Service, &SupervisorEvent::Shutdown);
    assert!(rs.done);
    assert!(matches!(rs.actions[1], SupervisorAction::KillChild));
}

#[test]
fn killed_child_reports_minus_one() {
    let r = supervisor_step(
        WorkloadKind::Batch,
        &SupervisorEvent::ChildExited { code: None },
    );
    match &r.actions[1] {
        SupervisorAction::SendHealthReport { payload } => {
            assert_eq!(
                payload,
                "{\"exit_code\":-1,\"status\":\"completed\",\"workload_type\":\"batch\"}"
            );
        }
        _ => panic!("a completion report"),
    }
}

#[test]
fn wait_and_probe_failures_are_logged() {
    let r = supervisor_step(
        WorkloadKind::Batch,
        &SupervisorEvent::WaitFailed { detail: s("gone") },
    );
    assert!(r.done);
    match &r.actions[0] {
        SupervisorAction::SendLog { level, message } => {
            assert_eq!(level, "error");
            assert_eq!(message, "Failed to wait for process: gone");
        }
        _ => panic!("a log"),
    }
    let r2 = supervisor_step(
        WorkloadKind::Service,
        &SupervisorEvent::TickProbeFailed { detail: s("eperm") },
    );
    assert!(!r2.done);
    match &r2.actions[0] {
        SupervisorAction::SendLog { level, message } => {
            assert_eq!(level, "error");
            assert_eq!(message, "Failed to check process: eperm");
        }
        _ => panic!("a log"),
    }
}
