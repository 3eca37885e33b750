//! The user-workload supervisor's decisions.
//!
//! The supervisor resolves the user command from the environment, prepares
//! the child's environment, and enforces the workload lifecycle policy:
//! a batch workload is waited for once, a service workload is probed on a
//! health interval. All decisions — what to log, what health reports to
//! send, when to kill the child and stop — are made here as pure
//! transitions; the runtime performs the resulting actions.

use vstd::prelude::*;

verus! {

use vstd::string::{StringExecFns, StrSliceExecFns};
use crate::json::{json_escaped, json_escape};
use crate::text::{chars_of, i64_to_dec, int_dec_seq};

/// The whitespace that separates command words.
pub open spec fn is_space(c: char) -> bool {
    c == ' ' || c == '\t' || c == '\n' || c == '\r'
}

/// Whether a character separates command words.
pub fn is_space_char(c: char) -> (r: bool)
    ensures
        r == is_space(c),
{
    c == ' ' || c == '\t' || c == '\n' || c == '\r'
}

/// The word at the head of the text: its longest space-free prefix.
pub open spec fn head_token(s: Seq<char>) -> Seq<char>
    decreases s.len(),
{
    if s.len() == 0 || is_space(s[0]) {
        Seq::empty()
    } else {
        seq![s[0]] + head_token(s.drop_first())
    }
}

/// The head token of a non-space-led, non-empty text is non-empty and no
/// longer than the text.
pub proof fn lemma_head_token_len(s: Seq<char>)
    ensures
        head_token(s).len() <= s.len(),
        s.len() > 0 && !is_space(s[0]) ==> head_token(s).len() >= 1,
    decreases s.len(),
{
    if s.len() > 0 && !is_space(s[0]) {
        lemma_head_token_len(s.drop_first());
    }
}

/// The command's words: maximal runs of non-space characters, in order.
pub open spec fn command_words(s: Seq<char>) -> Seq<Seq<char>>
    decreases s.len(),
    via command_words_decreases
{
    if s.len() == 0 {
        Seq::empty()
    } else if is_space(s[0]) {
        command_words(s.drop_first())
    } else {
        seq![head_token(s)] + command_words(s.skip(head_token(s).len() as int))
    }
}

#[via_fn]
proof fn command_words_decreases(s: Seq<char>) {
    if s.len() > 0 && !is_space(s[0]) {
        lemma_head_token_len(s);
    }
}

/// The head token is exactly the scan up to the first space.
proof fn lemma_head_token_scan(s: Seq<char>, m: int)
    requires
        0 <= m <= s.len(),
        forall|k: int| 0 <= k < m ==> !is_space(#[trigger] s[k]),
        m == s.len() || is_space(s[m]),
    ensures
        head_token(s) == s.take(m),
    decreases m,
{
    if m == 0 {
        assert(s.take(0) =~= Seq::<char>::empty());
    } else {
        let t = s.drop_first();
        assert(!is_space(s[0]));
        assert forall|k: int| 0 <= k < m - 1 implies !is_space(#[trigger] t[k]) by {
            assert(t[k] == s[k + 1]);
        }
        if m - 1 < t.len() {
            assert(t[m - 1] == s[m]);
        }
        lemma_head_token_scan(t, m - 1);
        assert(seq![s[0]] + t.take(m - 1) =~= s.take(m));
    }
}

/// Split a command line into its whitespace-separated words, for direct
/// execution when no shell is available.
pub fn split_command_words(cmd: &str) -> (r: Vec<String>)
    ensures
        r.deep_view() == command_words(cmd@),
{
    let cs = chars_of(cmd);
    let n = cs.len();
    let mut out: Vec<String> = Vec::new();
    let mut i: usize = 0;
    proof {
        assert(out.deep_view() =~= Seq::<Seq<char>>::empty());
        assert(cmd@.skip(0) =~= cmd@);
        assert(out.deep_view() + command_words(cmd@) =~= command_words(cmd@));
    }
    while i < n
        invariant
            cs@ == cmd@,
            n == cmd@.len(),
            i <= n,
            out.deep_view() + command_words(cmd@.skip(i as int)) == command_words(cmd@),
        decreases n - i,
    {
        if is_space_char(cs[i]) {
            proof {
                assert(cmd@.skip(i as int).drop_first() =~= cmd@.skip(i + 1));
            }
            i = i + 1;
        } else {
            let start = i;
            let mut j = i;
            while j < n && !is_space_char(cs[j])
                invariant
                    cs@ == cmd@,
                    n == cmd@.len(),
                    i <= j <= n,
                    forall|k: int| i <= k < j ==> !is_space(#[trigger] cmd@[k]),
                decreases n - j,
            {
                j = j + 1;
            }
            proof {
                if j == i {
                    assert(is_space(cmd@[i as int]));
                    assert(false);
                }
            }
            let word = cmd.substring_char(start, j).to_owned();
            let ghost pre_out = out.deep_view();
            out.push(word);
            proof {
                let u = cmd@.skip(i as int);
                assert forall|k: int| 0 <= k < j - i implies !is_space(#[trigger] u[k]) by {
                    assert(u[k] == cmd@[k + i]);
                }
                if j - i < u.len() {
                    assert(u[j - i] == cmd@[j as int]);
                }
                lemma_head_token_scan(u, j - i);
                assert(head_token(u) =~= cmd@.subrange(i as int, j as int));
                assert(u.skip(j - i) =~= cmd@.skip(j as int));
                assert(out.deep_view() =~= pre_out.push(cmd@.subrange(i as int, j as int)));
                assert(command_words(u) == seq![head_token(u)] + command_words(
                    u.skip(head_token(u).len() as int),
                ));
                assert(out.deep_view() + command_words(cmd@.skip(j as int)) =~= pre_out
                    + command_words(u));
            }
            i = j;
        }
    }
    proof {
        assert(cmd@.skip(n as int) =~= Seq::<char>::empty());
        assert(out.deep_view() + command_words(cmd@.skip(n as int)) =~= out.deep_view());
    }
    out
}

/// What the user command resolves to from the environment: an explicit
/// command line wins; otherwise entrypoint and arguments are joined with a
/// space, either side allowed to be empty; nothing configured means no
/// command.
pub open spec fn resolved_command(
    cmd: Option<Seq<char>>,
    entrypoint: Option<Seq<char>>,
    args: Option<Seq<char>>,
) -> Option<Seq<char>> {
    let c = match cmd {
        Some(s) => s,
        None => Seq::empty(),
    };
    if c.len() > 0 {
        Some(c)
    } else {
        let ep = match entrypoint {
            Some(s) => s,
            None => Seq::empty(),
        };
        let ar = match args {
            Some(s) => s,
            None => Seq::empty(),
        };
        if ep.len() > 0 && ar.len() > 0 {
            Some(ep + " "@ + ar)
        } else if ep.len() > 0 {
            Some(ep)
        } else if ar.len() > 0 {
            Some(ar)
        } else {
            None
        }
    }
}

/// Determine the user command from the environment's values.
pub fn resolve_user_command(
    cmd: Option<String>,
    entrypoint: Option<String>,
    args: Option<String>,
) -> (r: Option<String>)
    ensures
        (r matches Some(s) ==> resolved_command(
            match cmd {
                Some(ref c) => Some(c@),
                None => None,
            },
            match entrypoint {
                Some(ref e) => Some(e@),
                None => None,
            },
            match args {
                Some(ref a) => Some(a@),
                None => None,
            },
        ) == Some(s@)),
        (r is None ==> resolved_command(
            match cmd {
                Some(ref c) => Some(c@),
                None => None,
            },
            match entrypoint {
                Some(ref e) => Some(e@),
                None => None,
            },
            match args {
                Some(ref a) => Some(a@),
                None => None,
            },
        ) is None),
{
    if let Some(c) = cmd {
        if c.as_str().unicode_len() > 0 {
            return Some(c);
        }
    }
    let ep = match entrypoint {
        Some(e) => e,
        None => String::new(),
    };
    let ar = match args {
        Some(a) => a,
        None => String::new(),
    };
    let ep_len = ep.as_str().unicode_len();
    let ar_len = ar.as_str().unicode_len();
    if ep_len > 0 && ar_len > 0 {
        let mut joined = ep;
        joined.append(" ");
        joined.append(ar.as_str());
        proof {
            reveal_strlit(" ");
        }
        Some(joined)
    } else if ep_len > 0 {
        Some(ep)
    } else if ar_len > 0 {
        Some(ar)
    } else {
        None
    }
}

/// How one environment entry is forced: the first entry with this name gets
/// the value, a missing name is appended.
pub open spec fn override_env(
    env: Seq<(Seq<char>, Seq<char>)>,
    k: Seq<char>,
    v: Seq<char>,
) -> Seq<(Seq<char>, Seq<char>)>
    decreases env.len(),
{
    if env.len() == 0 {
        seq![(k, v)]
    } else if env[0].0 == k {
        seq![(env[0].0, v)] + env.drop_first()
    } else {
        seq![env[0]] + override_env(env.drop_first(), k, v)
    }
}

proof fn lemma_override_found(env: Seq<(Seq<char>, Seq<char>)>, k: Seq<char>, v: Seq<char>, i: int)
    requires
        0 <= i < env.len(),
        forall|j: int| 0 <= j < i ==> (#[trigger] env[j]).0 != k,
        env[i].0 == k,
    ensures
        override_env(env, k, v) == env.update(i, (env[i].0, v)),
    decreases i,
{
    if i == 0 {
        assert(override_env(env, k, v) =~= env.update(0, (env[0].0, v)));
    } else {
        let t = env.drop_first();
        assert(env[0].0 != k);
        assert forall|j: int| 0 <= j < i - 1 implies (#[trigger] t[j]).0 != k by {
            assert(t[j] == env[j + 1]);
        }
        assert(t[i - 1] == env[i]);
        lemma_override_found(t, k, v, i - 1);
        assert(seq![env[0]] + t.update(i - 1, (t[i - 1].0, v)) =~= env.update(i, (env[i].0, v)));
    }
}

proof fn lemma_override_absent(env: Seq<(Seq<char>, Seq<char>)>, k: Seq<char>, v: Seq<char>)
    requires
        forall|j: int| 0 <= j < env.len() ==> (#[trigger] env[j]).0 != k,
    ensures
        override_env(env, k, v) == env.push((k, v)),
    decreases env.len(),
{
    if env.len() == 0 {
        assert(override_env(env, k, v) =~= env.push((k, v)));
    } else {
        let t = env.drop_first();
        assert forall|j: int| 0 <= j < t.len() implies (#[trigger] t[j]).0 != k by {
            assert(t[j] == env[j + 1]);
        }
        lemma_override_absent(t, k, v);
        assert(seq![env[0]] + t.push((k, v)) =~= env.push((k, v)));
    }
}

/// Force one variable in the child environment: replace the first entry
/// with this name, or append it.
pub fn set_env_override(env: &mut Vec<(String, String)>, key: &String, value: &String)
    ensures
        final(env).deep_view() == override_env(old(env).deep_view(), key@, value@),
{
    let mut i: usize = 0;
    while i < env.len()
        invariant
            *env == *old(env),
            i <= env.deep_view().len(),
            env.deep_view().len() == env@.len(),
            forall|j: int| 0 <= j < i ==> (#[trigger] old(env).deep_view()[j]).0 != key@,
        decreases env@.len() - i,
    {
        proof {
            assert(env.deep_view()[i as int] == (env@[i as int].0@, env@[i as int].1@));
        }
        if env[i].0.eq(key) {
            env[i].1 = value.clone();
            proof {
                lemma_override_found(old(env).deep_view(), key@, value@, i as int);
                assert(env.deep_view() =~= old(env).deep_view().update(
                    i as int,
                    (old(env).deep_view()[i as int].0, value@),
                ));
            }
            return ;
        }
        i = i + 1;
    }
    env.push((key.clone(), value.clone()));
    proof {
        lemma_override_absent(old(env).deep_view(), key@, value@);
        assert(env.deep_view() =~= old(env).deep_view().push((key@, value@)));
    }
}

/// The forced child environment: the agent's environment with the proxy
/// endpoints and exclusions set, in this order.
pub open spec fn user_env(env: Seq<(Seq<char>, Seq<char>)>) -> Seq<(Seq<char>, Seq<char>)> {
    let proxy = "http://127.0.0.1:3128"@;
    let kms = "http://127.0.0.1:8000"@;
    let no_proxy = "127.0.0.1,localhost"@;
    override_env(
        override_env(
            override_env(
                override_env(
                    override_env(
                        override_env(
                            override_env(env, "HTTP_PROXY"@, proxy),
                            "HTTPS_PROXY"@,
                            proxy,
                        ),
                        "http_proxy"@,
                        proxy,
                    ),
                    "https_proxy"@,
                    proxy,
                ),
                "TREZA_KMS_ENDPOINT"@,
                kms,
            ),
            "NO_PROXY"@,
            no_proxy,
        ),
        "no_proxy"@,
        no_proxy,
    )
}

/// Build the child's environment from the agent's: proxy variables, the
/// KMS endpoint and the proxy exclusions are created or replaced.
pub fn build_user_env(env: Vec<(String, String)>) -> (r: Vec<(String, String)>)
    ensures
        r.deep_view() == user_env(env.deep_view()),
{
    let proxy = String::from_str("http://127.0.0.1:3128");
    let kms = String::from_str("http://127.0.0.1:8000");
    let no_proxy = String::from_str("127.0.0.1,localhost");
    let mut r = env;
    set_env_override(&mut r, &String::from_str("HTTP_PROXY"), &proxy);
    set_env_override(&mut r, &String::from_str("HTTPS_PROXY"), &proxy);
    set_env_override(&mut r, &String::from_str("http_proxy"), &proxy);
    set_env_override(&mut r, &String::from_str("https_proxy"), &proxy);
    set_env_override(&mut r, &String::from_str("TREZA_KMS_ENDPOINT"), &kms);
    set_env_override(&mut r, &String::from_str("NO_PROXY"), &no_proxy);
    set_env_override(&mut r, &String::from_str("no_proxy"), &no_proxy);
    r
}

/// The two lifecycle policies.
#[derive(Debug, PartialEq, Eq, Structural, Clone, Copy)]
pub enum WorkloadKind {
    /// Wait for the child once; its exit completes the run.
    Batch,
    /// Probe the child on a health interval; its exit is a crash.
    Service,
}

/// Classify the configured workload type: `batch` and `service`/`daemon`
/// select their policies; anything else is batch, with a warning.
pub fn classify_workload(workload_type: &String) -> (r: (WorkloadKind, bool))
    ensures
        workload_type@ == "batch"@ ==> r == (WorkloadKind::Batch, false),
        workload_type@ == "service"@ || workload_type@ == "daemon"@ ==> r == (
            WorkloadKind::Service,
            false,
        ),
        workload_type@ != "batch"@ && workload_type@ != "service"@ && workload_type@ != "daemon"@
            ==> r == (WorkloadKind::Batch, true),
{
    proof {
        reveal_strlit("batch");
        reveal_strlit("service");
        reveal_strlit("daemon");
        assert("batch"@.len() == 5);
        assert("service"@.len() == 7);
        assert("daemon"@.len() == 6);
    }
    if workload_type.eq(&String::from_str("batch")) {
        (WorkloadKind::Batch, false)
    } else if workload_type.eq(&String::from_str("service")) || workload_type.eq(
        &String::from_str("daemon"),
    ) {
        (WorkloadKind::Service, false)
    } else {
        (WorkloadKind::Batch, true)
    }
}

/// The warning sent for an unrecognized workload type.
pub fn unknown_workload_message(workload_type: &String) -> (r: String)
    ensures
        r@ == "Unknown workload type '"@ + workload_type@ + "', treating as batch"@,
{
    let mut out = String::from_str("Unknown workload type '");
    out.append(workload_type.as_str());
    out.append("', treating as batch");
    proof {
        assert(out@ =~= "Unknown workload type '"@ + workload_type@ + "', treating as batch"@);
    }
    out
}

/// The log line announcing the user application's start.
pub fn start_log_message(cmd: &String) -> (r: String)
    ensures
        r@ == "Starting user application: "@ + cmd@,
{
    let mut out = String::from_str("Starting user application: ");
    out.append(cmd.as_str());
    out
}

/// The payload of a `health_report` message: the status, the exit code
/// when there is one, and the workload type.
pub open spec fn health_report_text(
    status: Seq<char>,
    exit_code: Option<int>,
    workload_type: Seq<char>,
) -> Seq<char> {
    match exit_code {
        Some(c) => "{\"exit_code\":"@ + int_dec_seq(c) + ",\"status\":"@ + json_escaped(status)
            + ",\"workload_type\":"@ + json_escaped(workload_type) + "}"@,
        None => "{\"status\":"@ + json_escaped(status) + ",\"workload_type\":"@ + json_escaped(
            workload_type,
        ) + "}"@,
    }
}

/// Build a `health_report` payload.
pub fn health_report_payload(status: &str, exit_code: Option<i32>, workload_type: &str) -> (r:
    String)
    ensures
        r@ == health_report_text(
            status@,
            match exit_code {
                Some(c) => Some(c as int),
                None => None,
            },
            workload_type@,
        ),
{
    let mut out: String;
    match exit_code {
        Some(c) => {
            out = String::from_str("{\"exit_code\":");
            out.append(i64_to_dec(c as i64).as_str());
            out.append(",\"status\":");
        },
        None => {
            out = String::from_str("{\"status\":");
        },
    }
    out.append(json_escape(status).as_str());
    out.append(",\"workload_type\":");
    out.append(json_escape(workload_type).as_str());
    out.append("}");
    proof {
        assert(out@ =~= health_report_text(
            status@,
            match exit_code {
                Some(c) => Some(c as int),
                None => None,
            },
            workload_type@,
        ));
    }
    out
}

/// What the runtime tells the supervisor.
pub enum SupervisorEvent {
    /// The batch wait finished: the child's exit code, when it exited by
    /// itself.
    ChildExited { code: Option<i32> },
    /// The batch wait itself failed; the detail is the error's text.
    WaitFailed { detail: String },
    /// A service health tick found the child gone, with its exit code.
    TickChildGone { code: Option<i32> },
    /// A service health tick found the child alive.
    TickAlive,
    /// A service health tick could not probe the child.
    TickProbeFailed { detail: String },
    /// The shutdown latch flipped.
    Shutdown,
}

/// What the supervisor asks the runtime to do, in order.
pub enum SupervisorAction {
    /// Send a fire-and-forget log message.
    SendLog { level: String, message: String },
    /// Send a fire-and-forget `health_report` with this payload.
    SendHealthReport { payload: String },
    /// Sleep this many seconds, to let log frames flush.
    SleepSecs { secs: u64 },
    /// Kill the child process.
    KillChild,
}

/// The ghost shape of an action.
pub enum ActionSpec {
    Log { level: Seq<char>, message: Seq<char> },
    HealthReport { payload: Seq<char> },
    Sleep { secs: nat },
    Kill,
}

/// The ghost shape of one action.
pub open spec fn action_view(a: SupervisorAction) -> ActionSpec {
    match a {
        SupervisorAction::SendLog { level, message } => ActionSpec::Log {
            level: level@,
            message: message@,
        },
        SupervisorAction::SendHealthReport { payload } => ActionSpec::HealthReport {
            payload: payload@,
        },
        SupervisorAction::SleepSecs { secs } => ActionSpec::Sleep { secs: secs as nat },
        SupervisorAction::KillChild => ActionSpec::Kill,
    }
}

/// One supervisor decision: the actions to perform, in order, and whether
/// the policy is finished.
pub struct StepOutcome {
    pub actions: Vec<SupervisorAction>,
    pub done: bool,
}

impl StepOutcome {
    /// The ghost shape of the decided actions.
    pub open spec fn actions_view(self) -> Seq<ActionSpec> {
        self.actions@.map_values(|a: SupervisorAction| action_view(a))
    }
}

/// The exit code reported for a child: its own, or -1 when it was ended by
/// a signal.
pub open spec fn reported_code(code: Option<i32>) -> int {
    match code {
        Some(c) => c as int,
        None => -1,
    }
}

/// Decide the supervisor's response to one event under one policy.
///
/// Batch: the child's exit is logged and reported as `completed`, with five
/// seconds left for the log frames to flush. Service: a tick that finds the
/// child gone logs and reports `crashed` and finishes; a live child gets a
/// `running` report. Either policy kills the child and stops on shutdown.
/// Events that a policy cannot receive decide nothing.
pub fn supervisor_step(kind: WorkloadKind, event: &SupervisorEvent) -> (r: StepOutcome)
    ensures
        kind == WorkloadKind::Batch ==> (match *event {
            SupervisorEvent::ChildExited { code } => r.done && r.actions_view() =~= seq![
                ActionSpec::Log {
                    level: "info"@,
                    message: "Application exited with code "@ + int_dec_seq(reported_code(code)),
                },
                ActionSpec::HealthReport {
                    payload: health_report_text(
                        "completed"@,
                        Some(reported_code(code)),
                        "batch"@,
                    ),
                },
                ActionSpec::Sleep { secs: 5 },
            ],
            SupervisorEvent::WaitFailed { ref detail } => r.done && r.actions_view() =~= seq![
                ActionSpec::Log {
                    level: "error"@,
                    message: "Failed to wait for process: "@ + detail@,
                },
            ],
            SupervisorEvent::Shutdown => r.done && r.actions_view() =~= seq![
                ActionSpec::Log {
                    level: "info"@,
                    message: "Shutdown signal received, terminating process"@,
                },
                ActionSpec::Kill,
            ],
            _ => !r.done && r.actions_view() =~= Seq::<ActionSpec>::empty(),
        }),
        kind == WorkloadKind::Service ==> (match *event {
            SupervisorEvent::TickChildGone { code } => r.done && r.actions_view() =~= seq![
                ActionSpec::Log {
                    level: "error"@,
                    message: "Service exited unexpectedly with code "@ + int_dec_seq(
                        reported_code(code),
                    ),
                },
                ActionSpec::HealthReport {
                    payload: health_report_text(
                        "crashed"@,
                        Some(reported_code(code)),
                        "service"@,
                    ),
                },
            ],
            SupervisorEvent::TickAlive => !r.done && r.actions_view() =~= seq![
                ActionSpec::HealthReport {
                    payload: health_report_text("running"@, None, "service"@),
                },
            ],
            SupervisorEvent::TickProbeFailed { ref detail } => !r.done && r.actions_view()
                =~= seq![
                ActionSpec::Log {
                    level: "error"@,
                    message: "Failed to check process: "@ + detail@,
                },
            ],
            SupervisorEvent::Shutdown => r.done && r.actions_view() =~= seq![
                ActionSpec::Log {
                    level: "info"@,
                    message: "Shutdown signal received, terminating service"@,
                },
                ActionSpec::Kill,
            ],
            _ => !r.done && r.actions_view() =~= Seq::<ActionSpec>::empty(),
        }),
{
    let mut actions: Vec<SupervisorAction> = Vec::new();
    match kind {
        WorkloadKind::Batch => match event {
            SupervisorEvent::ChildExited { code } => {
                let c = exit_code_value(*code);
                let mut msg = String::from_str("Application exited with code ");
                msg.append(i64_to_dec(c as i64).as_str());
                actions.push(
                    SupervisorAction::SendLog { level: String::from_str("info"), message: msg },
                );
                actions.push(
                    SupervisorAction::SendHealthReport {
                        payload: health_report_payload("completed", Some(c), "batch"),
                    },
                );
                actions.push(SupervisorAction::SleepSecs { secs: 5 });
                StepOutcome { actions, done: true }
            },
            SupervisorEvent::WaitFailed { detail } => {
                let mut msg = String::from_str("Failed to wait for process: ");
                msg.append(detail.as_str());
                actions.push(
                    SupervisorAction::SendLog { level: String::from_str("error"), message: msg },
                );
                StepOutcome { actions, done: true }
            },
            SupervisorEvent::Shutdown => {
                actions.push(
                    SupervisorAction::SendLog {
                        level: String::from_str("info"),
                        message: String::from_str("Shutdown signal received, terminating process"),
                    },
                );
                actions.push(SupervisorAction::KillChild);
                StepOutcome { actions, done: true }
            },
            _ => StepOutcome { actions, done: false },
        },
        WorkloadKind::Service => match event {
            SupervisorEvent::TickChildGone { code } => {
                let c = exit_code_value(*code);
                let mut msg = String::from_str("Service exited unexpectedly with code ");
                msg.append(i64_to_dec(c as i64).as_str());
                actions.push(
                    SupervisorAction::SendLog { level: String::from_str("error"), message: msg },
                );
                actions.push(
                    SupervisorAction::SendHealthReport {
                        payload: health_report_payload("crashed", Some(c), "service"),
                    },
                );
                StepOutcome { actions, done: true }
            },
            SupervisorEvent::TickAlive => {
                actions.push(
                    SupervisorAction::SendHealthReport {
                        payload: health_report_payload("running", None, "service"),
                    },
                );
                StepOutcome { actions, done: false }
            },
            SupervisorEvent::TickProbeFailed { detail } => {
                let mut msg = String::from_str("Failed to check process: ");
                msg.append(detail.as_str());
                actions.push(
                    SupervisorAction::SendLog { level: String::from_str("error"), message: msg },
                );
                StepOutcome { actions, done: false }
            },
            SupervisorEvent::Shutdown => {
                actions.push(
                    SupervisorAction::SendLog {
                        level: String::from_str("info"),
                        message: String::from_str("Shutdown signal received, terminating service"),
                    },
                );
                actions.push(SupervisorAction::KillChild);
                StepOutcome { actions, done: true }
            },
            _ => StepOutcome { actions, done: false },
        },
    }
}

/// The exit code a child is reported with: its own, or -1 when a signal
/// ended it.
pub fn exit_code_value(code: Option<i32>) -> (r: i32)
    ensures
        r as int == reported_code(code),
{
    match code {
        Some(c) => c,
        None => -1,
    }
}

} // verus!
