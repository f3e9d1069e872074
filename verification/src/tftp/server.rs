//! Admission of requests that arrive on the server's main socket.

use vstd::prelude::*;

use crate::tftp::protocol::packet::ErrorCode;
use crate::tftp::text::str_eq;

verus! {

broadcast use vstd::string::group_string_axioms;

/// What a datagram on the main socket asks for.
#[derive(Debug, Clone, Copy, PartialEq, Eq, Structural)]
pub enum RequestKind {
    Read,
    Write,
    /// Any other packet: not allowed on the main socket.
    Other,
}

/// What happens to a request.
#[derive(Debug, Clone, PartialEq, Eq)]
pub enum Admission {
    /// Start a session.
    Spawn,
    /// Drop it silently.
    Drop,
    /// Answer with an ERROR packet.
    Reject { code: ErrorCode, message: String },
}

pub enum AdmissionView {
    Spawn,
    Drop,
    Reject { code: ErrorCode, message: Seq<char> },
}

impl View for Admission {
    type V = AdmissionView;

    open spec fn view(&self) -> AdmissionView {
        match self {
            Admission::Spawn => AdmissionView::Spawn,
            Admission::Drop => AdmissionView::Drop,
            Admission::Reject { code, message } => AdmissionView::Reject {
                code: *code,
                message: message@,
            },
        }
    }
}

/// The server's checks, in order. A write must be allowed at all; then the
/// client's rate limit (an over-limit read is answered with an error only
/// when the configured action is "error", an over-limit write is always
/// dropped), the ACL, the client's session count and the server's session
/// count. Anything other than a read or write request is refused.
pub open spec fn spec_admission(
    kind: RequestKind,
    allow_write: bool,
    rate_ok: bool,
    rate_limit_action: Seq<char>,
    acl_ok: bool,
    ip_sessions: usize,
    per_ip_max_sessions: usize,
    sessions: usize,
    max_sessions: usize,
) -> AdmissionView {
    match kind {
        RequestKind::Other => AdmissionView::Reject {
            code: ErrorCode::IllegalOperation,
            message: "Illegal operation on main socket"@,
        },
        _ => if kind == RequestKind::Write && !allow_write {
            AdmissionView::Reject { code: ErrorCode::AccessViolation, message: "Write not allowed"@ }
        } else if !rate_ok {
            if kind == RequestKind::Read && rate_limit_action == "error"@ {
                AdmissionView::Reject { code: ErrorCode::NotDefined, message: "Rate limit exceeded"@ }
            } else {
                AdmissionView::Drop
            }
        } else if !acl_ok {
            AdmissionView::Reject { code: ErrorCode::AccessViolation, message: "Access denied"@ }
        } else if ip_sessions >= per_ip_max_sessions {
            AdmissionView::Reject { code: ErrorCode::NotDefined, message: "Too many sessions"@ }
        } else if sessions >= max_sessions {
            AdmissionView::Reject { code: ErrorCode::NotDefined, message: "Server busy"@ }
        } else {
            AdmissionView::Spawn
        },
    }
}

/// A request is served exactly when it is a read, or a write while writing
/// is allowed, and it passes the rate limit, the ACL and both session
/// limits; a write while writing is disabled is always refused as an access
/// violation, and only an over-limit request is ever dropped without answer.
#[allow(clippy::too_many_arguments)]
pub proof fn lemma_admission_checks(
    kind: RequestKind,
    allow_write: bool,
    rate_ok: bool,
    rate_limit_action: Seq<char>,
    acl_ok: bool,
    ip_sessions: usize,
    per_ip_max_sessions: usize,
    sessions: usize,
    max_sessions: usize,
)
    ensures
        ({
            let a = spec_admission(
                kind,
                allow_write,
                rate_ok,
                rate_limit_action,
                acl_ok,
                ip_sessions,
                per_ip_max_sessions,
                sessions,
                max_sessions,
            );
            &&& (a is Spawn <==> (kind != RequestKind::Other && (kind == RequestKind::Read
                || allow_write) && rate_ok && acl_ok && ip_sessions < per_ip_max_sessions
                && sessions < max_sessions))
            &&& (kind == RequestKind::Write && !allow_write ==> (a matches AdmissionView::Reject {
                code,
                ..
            } && code == ErrorCode::AccessViolation))
            &&& (a is Drop ==> !rate_ok)
        }),
{
}

/// Whether the rate limiter is consulted for a request (it counts the
/// request): for reads, and for writes when writing is allowed.
pub fn consults_rate_limit(kind: RequestKind, allow_write: bool) -> (r: bool)
    ensures
        r == (kind == RequestKind::Read || (kind == RequestKind::Write && allow_write)),
{
    match kind {
        RequestKind::Read => true,
        RequestKind::Write => allow_write,
        RequestKind::Other => false,
    }
}

/// Decide a request; `rate_ok` is only read when `consults_rate_limit` holds.
#[allow(clippy::too_many_arguments)]
pub fn admit_request(
    kind: RequestKind,
    allow_write: bool,
    rate_ok: bool,
    rate_limit_action: &str,
    acl_ok: bool,
    ip_sessions: usize,
    per_ip_max_sessions: usize,
    sessions: usize,
    max_sessions: usize,
) -> (r: Admission)
    ensures
        r@ == spec_admission(
            kind,
            allow_write,
            rate_ok,
            rate_limit_action@,
            acl_ok,
            ip_sessions,
            per_ip_max_sessions,
            sessions,
            max_sessions,
        ),
{
    match kind {
        RequestKind::Other => {
            return Admission::Reject {
                code: ErrorCode::IllegalOperation,
                message: "Illegal operation on main socket".to_string(),
            };
        },
        _ => {},
    }
    if kind == RequestKind::Write && !allow_write {
        return Admission::Reject {
            code: ErrorCode::AccessViolation,
            message: "Write not allowed".to_string(),
        };
    }
    if !rate_ok {
        if kind == RequestKind::Read && str_eq(rate_limit_action, "error") {
            return Admission::Reject {
                code: ErrorCode::NotDefined,
                message: "Rate limit exceeded".to_string(),
            };
        }
        return Admission::Drop;
    }
    if !acl_ok {
        return Admission::Reject {
            code: ErrorCode::AccessViolation,
            message: "Access denied".to_string(),
        };
    }
    if ip_sessions >= per_ip_max_sessions {
        return Admission::Reject {
            code: ErrorCode::NotDefined,
            message: "Too many sessions".to_string(),
        };
    }
    if sessions >= max_sessions {
        return Admission::Reject { code: ErrorCode::NotDefined, message: "Server busy".to_string() };
    }
    Admission::Spawn
}

/// A client's rate-limit window: when it started (milliseconds on the
/// server's clock) and how many requests it has counted.
#[derive(Debug, Clone, Copy, PartialEq, Eq, Structural)]
pub struct RateWindow {
    pub start_ms: u64,
    pub count: u32,
}

/// Whether a window that started at `start_ms` is over at `now_ms`: at least
/// `window_ms` milliseconds have passed (a clock reading before the start
/// counts as no time passed).
pub open spec fn spec_window_expired(start_ms: u64, now_ms: u64, window_ms: u64) -> bool {
    now_ms >= start_ms && now_ms - start_ms >= window_ms
}

/// Whether the window that started at `start_ms` is over at `now_ms`.
pub fn window_expired(start_ms: u64, now_ms: u64, window_ms: u64) -> (r: bool)
    ensures
        r == spec_window_expired(start_ms, now_ms, window_ms),
{
    now_ms >= start_ms && now_ms - start_ms >= window_ms
}

/// The window a request counts in and whether it passes: a client with no
/// window, or whose window is over, starts a new one at `now_ms`; the request
/// is then counted (the count saturates) and passes while the count is at
/// most `limit`.
pub fn count_request(entry: Option<RateWindow>, now_ms: u64, window_ms: u64, limit: u32) -> (r: (
    RateWindow,
    bool,
))
    ensures
        ({
            let fresh = match entry {
                None => true,
                Some(w) => spec_window_expired(w.start_ms, now_ms, window_ms),
            };
            let before = if fresh {
                0
            } else {
                entry->0.count
            };
            &&& r.0.start_ms == (if fresh {
                now_ms
            } else {
                entry->0.start_ms
            })
            &&& r.0.count == (if before == u32::MAX {
                u32::MAX as int
            } else {
                before + 1
            })
            &&& r.1 == (r.0.count <= limit)
        }),
{
    let w = match entry {
        Some(w) => if window_expired(w.start_ms, now_ms, window_ms) {
            RateWindow { start_ms: now_ms, count: 0 }
        } else {
            w
        },
        None => RateWindow { start_ms: now_ms, count: 0 },
    };
    let count = w.count.saturating_add(1);
    let next = RateWindow { start_ms: w.start_ms, count };
    (next, count <= limit)
}

/// What the server does while it stops and sessions are still running.
#[derive(Debug, Clone, Copy, PartialEq, Eq, Structural)]
pub enum ShutdownStep {
    /// Wait a little and look again.
    Wait,
    /// No session is left: stop.
    Done,
    /// The grace period is over: stop, abandoning the sessions left.
    ForceStop,
}

/// One look at a stopping server, `elapsed_ms` milliseconds after it began
/// to stop with a grace period of `grace_secs` seconds: stop once no session
/// is active, else give up on them once the grace period has passed.
pub fn shutdown_step(active_sessions: usize, elapsed_ms: u64, grace_secs: u64) -> (r: ShutdownStep)
    ensures
        r == (if active_sessions == 0 {
            ShutdownStep::Done
        } else if elapsed_ms >= grace_secs * 1000 {
            ShutdownStep::ForceStop
        } else {
            ShutdownStep::Wait
        }),
{
    if active_sessions == 0 {
        return ShutdownStep::Done;
    }
    match grace_secs.checked_mul(1000) {
        Some(grace_ms) => if elapsed_ms >= grace_ms {
            ShutdownStep::ForceStop
        } else {
            ShutdownStep::Wait
        },
        None => ShutdownStep::Wait,
    }
}

/// Where the server stands.
#[derive(Debug, Clone, Copy, PartialEq, Eq, Structural)]
pub enum ServerState {
    Stopped,
    Starting,
    Running,
    Stopping,
    Error,
}

impl ServerState {
    /// The state's name, as the status lines show it.
    pub fn name(&self) -> (r: &'static str)
        ensures
            r@ == match self {
                ServerState::Stopped => "Stopped"@,
                ServerState::Starting => "Starting"@,
                ServerState::Running => "Running"@,
                ServerState::Stopping => "Stopping"@,
                ServerState::Error => "Error"@,
            },
    {
        match self {
            ServerState::Stopped => "Stopped",
            ServerState::Starting => "Starting",
            ServerState::Running => "Running",
            ServerState::Stopping => "Stopping",
            ServerState::Error => "Error",
        }
    }
}

} // verus!
