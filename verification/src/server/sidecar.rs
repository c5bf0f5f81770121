//! The sidecar: how it is launched, the boot sequence over stdio JSON-RPC (ping, pong, HTTP
//! callback), and how its log lines are levelled. A failed step is only warned about: the
//! main process keeps serving and does not retry.

use vstd::prelude::*;
use vstd::string::*;
use crate::ipc::IpcHealthRequest;
use crate::text::{decimal, decimal_text, str_eq};

verus! {

broadcast use vstd::string::group_string_axioms;

/// The id of the boot ping (the pong is matched by it).
pub const BOOT_PING_ID: &'static str = "boot-1";

/// The bound of the whole boot sequence, in seconds.
pub const BOOT_CHAIN_TIMEOUT_SECS: u64 = 5;

/// The bound of the wait for the callback, in seconds.
pub const CALLBACK_TIMEOUT_SECS: u64 = 2;

/// How the sidecar process is started (the working directory is the repository root).
#[derive(Debug, Clone)]
pub struct SidecarLaunch {
    pub program: &'static str,
    pub args: Vec<&'static str>,
    /// Environment variables passed to it.
    pub env: Vec<(&'static str, String)>,
}

/// The launch of the sidecar: `bun run sidecar/src/index.ts`, told the API port and token.
pub fn sidecar_launch(port: u16, token: &str) -> (l: SidecarLaunch)
    ensures
        l.program@ == "bun"@,
        l.args.len() == 2 && l.args[0]@ == "run"@ && l.args[1]@ == "sidecar/src/index.ts"@,
        l.env.len() == 2,
        l.env[0].0@ == "JOTLINE_API_PORT"@ && l.env[0].1@ == decimal(port as nat),
        l.env[1].0@ == "JOTLINE_DEV_TOKEN"@ && l.env[1].1@ == token@,
{
    let mut args: Vec<&'static str> = Vec::new();
    args.push("run");
    args.push("sidecar/src/index.ts");
    let mut env: Vec<(&'static str, String)> = Vec::new();
    env.push(("JOTLINE_API_PORT", decimal_text(port as u64)));
    env.push(("JOTLINE_DEV_TOKEN", token.to_owned()));
    SidecarLaunch { program: "bun", args, env }
}

/// Where the boot sequence stands.
#[derive(Debug, Clone, Copy, PartialEq, Eq, Structural)]
pub enum BootState {
    /// The ping is to be written.
    SendingPing,
    /// Waiting for the pong.
    AwaitingPong,
    /// Waiting for the sidecar's HTTP callback.
    AwaitingCallback,
    /// Finished.
    Done,
}

/// What happened.
#[derive(Debug, PartialEq)]
pub enum BootEvent {
    /// The sidecar's stdin is not available.
    StdinMissing,
    /// Writing the ping failed.
    PingWriteFailed,
    /// The ping was written.
    PingSent,
    /// A response with this id arrived on stdout.
    Response(String),
    /// The sidecar's stdout closed.
    StdoutClosed,
    /// The callback was observed (possibly before the wait began).
    CallbackSeen,
    /// The callback did not come in time.
    CallbackTimedOut,
}

/// What to do next.
#[derive(Debug, PartialEq)]
pub enum BootAction {
    /// Write this ping as one line.
    SendPing(IpcHealthRequest),
    /// Wait for the next response.
    AwaitResponse,
    /// Report the pong, then wait for the callback.
    AwaitCallback,
    /// Stop: verified, or the failed step.
    Finish(Result<(), &'static str>),
}

/// The failed steps.
pub open spec fn stdin_missing_text() -> Seq<char> { "stdin 不可用"@ }
pub open spec fn ping_failed_text() -> Seq<char> { "ping 写入失败"@ }
pub open spec fn stdout_closed_text() -> Seq<char> { "sidecar stdout 已关闭（进程退出？）"@ }
pub open spec fn callback_timeout_text() -> Seq<char> { "回调观测超时（sidecar 未回调 /api/projects）"@ }

/// The start of the boot sequence: send the ping `boot-1`.
pub fn boot_start() -> (r: (BootState, BootAction))
    ensures
        r.0 == BootState::SendingPing,
        r.1 matches BootAction::SendPing(p) && p.id@ == BOOT_PING_ID@ && p.method@ == "health.ping"@
            && p.jsonrpc@ == "2.0"@,
{
    (BootState::SendingPing, BootAction::SendPing(IpcHealthRequest::new(BOOT_PING_ID)))
}

/// Whether an event can happen in a state.
pub open spec fn boot_event_fits(state: BootState, event: BootEvent) -> bool {
    match (state, event) {
        (BootState::SendingPing, BootEvent::StdinMissing) => true,
        (BootState::SendingPing, BootEvent::PingWriteFailed) => true,
        (BootState::SendingPing, BootEvent::PingSent) => true,
        (BootState::AwaitingPong, BootEvent::Response(_)) => true,
        (BootState::AwaitingPong, BootEvent::StdoutClosed) => true,
        (BootState::AwaitingCallback, BootEvent::CallbackSeen) => true,
        (BootState::AwaitingCallback, BootEvent::CallbackTimedOut) => true,
        _ => false,
    }
}

/// Whether an event can happen in a state (see [`boot_event_fits`]).
pub fn boot_event_allowed(state: BootState, event: &BootEvent) -> (r: bool)
    ensures
        r == boot_event_fits(state, *event),
{
    match (state, event) {
        (BootState::SendingPing, BootEvent::StdinMissing) => true,
        (BootState::SendingPing, BootEvent::PingWriteFailed) => true,
        (BootState::SendingPing, BootEvent::PingSent) => true,
        (BootState::AwaitingPong, BootEvent::Response(_)) => true,
        (BootState::AwaitingPong, BootEvent::StdoutClosed) => true,
        (BootState::AwaitingCallback, BootEvent::CallbackSeen) => true,
        (BootState::AwaitingCallback, BootEvent::CallbackTimedOut) => true,
        _ => false,
    }
}

/// The next state and action of the boot sequence.
pub open spec fn boot_next(state: BootState, event: BootEvent) -> (BootState, BootAction) {
    match (state, event) {
        (BootState::SendingPing, BootEvent::StdinMissing) => (
            BootState::Done,
            BootAction::Finish(Err("stdin 不可用")),
        ),
        (BootState::SendingPing, BootEvent::PingWriteFailed) => (
            BootState::Done,
            BootAction::Finish(Err("ping 写入失败")),
        ),
        (BootState::SendingPing, BootEvent::PingSent) => (BootState::AwaitingPong, BootAction::AwaitResponse),
        (BootState::AwaitingPong, BootEvent::Response(id)) => if id@ == BOOT_PING_ID@ {
            (BootState::AwaitingCallback, BootAction::AwaitCallback)
        } else {
            (BootState::AwaitingPong, BootAction::AwaitResponse)
        },
        (BootState::AwaitingPong, BootEvent::StdoutClosed) => (
            BootState::Done,
            BootAction::Finish(Err("sidecar stdout 已关闭（进程退出？）")),
        ),
        (BootState::AwaitingCallback, BootEvent::CallbackSeen) => (BootState::Done, BootAction::Finish(Ok(()))),
        _ => (BootState::Done, BootAction::Finish(Err("回调观测超时（sidecar 未回调 /api/projects）"))),
    }
}

/// One step of the boot sequence: the pong is the response whose id is the ping's (others
/// are skipped); the sequence is verified only once the callback is seen after the pong.
pub fn boot_step(state: BootState, event: BootEvent) -> (r: (BootState, BootAction))
    requires
        boot_event_fits(state, event),
    ensures
        r == boot_next(state, event),
{
    match (state, event) {
        (BootState::SendingPing, BootEvent::StdinMissing) => (
            BootState::Done,
            BootAction::Finish(Err("stdin 不可用")),
        ),
        (BootState::SendingPing, BootEvent::PingWriteFailed) => (
            BootState::Done,
            BootAction::Finish(Err("ping 写入失败")),
        ),
        (BootState::SendingPing, BootEvent::PingSent) => (BootState::AwaitingPong, BootAction::AwaitResponse),
        (BootState::AwaitingPong, BootEvent::Response(id)) => {
            if str_eq(id.as_str(), BOOT_PING_ID) {
                (BootState::AwaitingCallback, BootAction::AwaitCallback)
            } else {
                (BootState::AwaitingPong, BootAction::AwaitResponse)
            }
        },
        (BootState::AwaitingPong, BootEvent::StdoutClosed) => (
            BootState::Done,
            BootAction::Finish(Err("sidecar stdout 已关闭（进程退出？）")),
        ),
        (BootState::AwaitingCallback, BootEvent::CallbackSeen) => (BootState::Done, BootAction::Finish(Ok(()))),
        (_, _) => (BootState::Done, BootAction::Finish(Err("回调观测超时（sidecar 未回调 /api/projects）"))),
    }
}

/// The actions of the boot sequence from a state, for a sequence of events (up to the first
/// that does not fit, or the end).
pub open spec fn boot_run(state: BootState, events: Seq<BootEvent>) -> Seq<BootAction>
    decreases events.len(),
{
    if events.len() == 0 || state == BootState::Done || !boot_event_fits(state, events[0]) {
        Seq::empty()
    } else {
        seq![boot_next(state, events[0]).1] + boot_run(boot_next(state, events[0]).0, events.drop_first())
    }
}

/// The boot sequence is verified only if a response carrying the ping's id arrived (after
/// the ping was sent) and then the callback was seen.
pub proof fn law_verified_needs_pong_and_callback(state: BootState, events: Seq<BootEvent>)
    requires
        state == BootState::SendingPing || state == BootState::AwaitingPong,
        boot_run(state, events).contains(BootAction::Finish(Ok(()))),
    ensures
        exists|i: int, j: int|
            0 <= i < j < events.len() && (#[trigger] events[i] matches BootEvent::Response(id)
                && id@ == BOOT_PING_ID@) && #[trigger] events[j] == BootEvent::CallbackSeen,
    decreases events.len(),
{
    let r = boot_run(state, events);
    assert(events.len() > 0);
    let (s1, a1) = boot_next(state, events[0]);
    let rest = events.drop_first();
    assert(r =~= seq![a1] + boot_run(s1, rest));
    if a1 == BootAction::Finish(Ok(())) {
        assert(false);
    }
    assert(boot_run(s1, rest).contains(BootAction::Finish(Ok(())))) by {
        let k = choose|k: int| 0 <= k < r.len() && r[k] == BootAction::Finish(Ok(()));
        assert(boot_run(s1, rest)[k - 1] == r[k]);
    }
    if s1 == BootState::AwaitingCallback {
        // The first event was the pong; the callback comes next.
        assert(rest.len() > 0);
        let (s2, a2) = boot_next(s1, rest[0]);
        assert(boot_run(s1, rest) =~= seq![a2] + boot_run(s2, rest.drop_first()));
        assert(s2 == BootState::Done);
        assert(boot_run(s2, rest.drop_first()) == Seq::<BootAction>::empty());
        assert(rest[0] == BootEvent::CallbackSeen);
        assert(events[1] == rest[0]);
        assert(events[0] matches BootEvent::Response(id) && id@ == BOOT_PING_ID@);
    } else {
        law_verified_needs_pong_and_callback(s1, rest);
        let (i, j) = choose|i: int, j: int|
            0 <= i < j < rest.len() && (#[trigger] rest[i] matches BootEvent::Response(id)
                && id@ == BOOT_PING_ID@) && #[trigger] rest[j] == BootEvent::CallbackSeen;
        assert(events[i + 1] == rest[i]);
        assert(events[j + 1] == rest[j]);
    }
}

/// The level of a sidecar log line.
#[derive(Debug, Clone, Copy, PartialEq, Eq, Structural)]
pub enum LogLevel {
    Info,
    Warn,
    Error,
}

/// The level a sidecar log line is forwarded at: `warn`, `error`, and info for anything else.
pub fn log_level(level: &str) -> (l: LogLevel)
    ensures
        l == (if level@ == "warn"@ {
            LogLevel::Warn
        } else if level@ == "error"@ {
            LogLevel::Error
        } else {
            LogLevel::Info
        }),
{
    if str_eq(level, "warn") {
        LogLevel::Warn
    } else if str_eq(level, "error") {
        LogLevel::Error
    } else {
        LogLevel::Info
    }
}

} // verus!
