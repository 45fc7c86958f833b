//! Tool permissions, sandbox levels, rate limiting, and the results tools produce.

use vstd::prelude::*;
use std::time::Instant;
use crate::stdlib::string::{join_seq, string_views};
use crate::stdlib::text::{decimal, owned, push_decimal, push_str};

verus! {

broadcast use vstd::string::group_string_axioms;

/// Permissions that a tool can request.
#[derive(Debug, Clone, Copy, PartialEq, Eq, Hash, Structural)]
pub enum Permission {
    /// Access network resources
    Network,
    /// Read files from the filesystem
    FileRead,
    /// Write files to the filesystem
    FileWrite,
    /// Execute external processes
    Execute,
    /// Access environment variables
    Environment,
}

impl Permission {
    /// The snake-case name of the permission.
    pub open spec fn label(self) -> Seq<char> {
        match self {
            Permission::Network => "network"@,
            Permission::FileRead => "file_read"@,
            Permission::FileWrite => "file_write"@,
            Permission::Execute => "execute"@,
            Permission::Environment => "environment"@,
        }
    }

    /// The snake-case name of the permission ("network", "file_read", ...).
    pub fn to_string(&self) -> (r: String)
        ensures
            r@ == self.label(),
    {
        match self {
            Permission::Network => owned("network"),
            Permission::FileRead => owned("file_read"),
            Permission::FileWrite => owned("file_write"),
            Permission::Execute => owned("execute"),
            Permission::Environment => owned("environment"),
        }
    }
}

/// Sandbox level for tool execution.
#[derive(Debug, Clone, Copy, PartialEq, Eq, Structural)]
pub enum SandboxLevel {
    /// No restrictions
    Unrestricted,
    /// Light sandboxing: log actions, enforce rate limits
    Light,
    /// Strict sandboxing: permission checks, resource limits
    Strict,
}

/// The monotonic clock reading type of `std::time`.
#[verifier::external_type_specification]
#[verifier::external_body]
pub struct ExInstant(Instant);

/// Reads the monotonic clock; nothing is promised of the value.
#[verifier::external_body]
fn clock_now() -> Instant {
    Instant::now()
}

/// The time from `start` to `now` (`Instant::duration_since`, zero when `start`
/// is later); the value depends on the clock and is not stated.
#[verifier::external_body]
fn duration_between(now: &Instant, start: &Instant) -> std::time::Duration {
    now.duration_since(*start)
}

/// Whole seconds from `start` to `now`.
fn whole_secs_between(now: &Instant, start: &Instant) -> u64 {
    let d = duration_between(now, start);
    d.as_secs()
}

/// Rate limiter: at most `max_calls` calls per window of `window_secs` seconds.
#[derive(Debug, Clone)]
pub struct RateLimiter {
    /// Maximum calls per window
    max_calls: usize,
    /// Current window call count
    current_calls: usize,
    /// Window start time
    window_start: Option<Instant>,
    /// Window duration in seconds
    window_secs: u64,
}

impl RateLimiter {
    /// Maximum calls per window.
    pub closed spec fn limit(self) -> usize {
        self.max_calls
    }

    /// Calls made in the current window.
    pub closed spec fn calls(self) -> usize {
        self.current_calls
    }

    /// When the current window started, if one has.
    pub closed spec fn started(self) -> Option<Instant> {
        self.window_start
    }

    /// Length of a window in seconds.
    pub closed spec fn window(self) -> u64 {
        self.window_secs
    }

    /// A limiter allowing `max_calls_per_minute` calls per 60-second window.
    pub fn new(max_calls_per_minute: usize) -> (r: Self)
        ensures
            r.limit() == max_calls_per_minute,
            r.calls() == 0,
            r.started() is None,
            r.window() == 60,
    {
        RateLimiter {
            max_calls: max_calls_per_minute,
            current_calls: 0,
            window_start: None,
            window_secs: 60,
        }
    }

    /// A limiter with no practical limit (`usize::MAX` calls per window).
    pub fn unlimited() -> (r: Self)
        ensures
            r.limit() == usize::MAX,
            r.calls() == 0,
            r.started() is None,
            r.window() == 60,
    {
        RateLimiter { max_calls: usize::MAX, current_calls: 0, window_start: None, window_secs: 60 }
    }

    /// Check if a call is allowed and count it. The decision, given the clock, is
    /// `acquire_at`: whatever the clock reads, either the current window goes on (the
    /// call is allowed when fewer than the limit were made, and then counted) or a
    /// new window starts (the call is allowed when the limit is positive, and is then
    /// its only call).
    pub fn try_acquire(&mut self) -> (r: bool)
        ensures
            final(self).limit() == old(self).limit(),
            final(self).window() == old(self).window(),
            final(self).started() is Some,
            ({
                &&& r == (old(self).calls() < old(self).limit())
                &&& final(self).calls() == if r {
                    old(self).calls() + 1
                } else {
                    old(self).calls() as int
                }
            }) || ({
                &&& r == (0 < old(self).limit())
                &&& final(self).calls() == if r {
                    1int
                } else {
                    0int
                }
            }),
            r ==> final(self).calls() <= final(self).limit(),
    {
        let now = clock_now();
        let elapsed = match &self.window_start {
            Some(start) => Some(whole_secs_between(&now, start)),
            None => None,
        };
        self.acquire_at(now, elapsed)
    }

    /// The rate-limiting decision at time `now`, where `elapsed_secs` is the whole
    /// seconds since the window started (`None` before the first call). A first call
    /// starts the window; an expired window starts anew at `now` with no calls counted;
    /// then the call is allowed and counted if fewer than the limit were made.
    pub fn acquire_at(&mut self, now: Instant, elapsed_secs: Option<u64>) -> (r: bool)
        requires
            elapsed_secs is Some <==> old(self).started() is Some,
        ensures
            acquired(*old(self), *final(self), now, elapsed_secs, r),
    {
        match elapsed_secs {
            Some(e) => {
                if e >= self.window_secs {
                    self.current_calls = 0;
                    self.window_start = Some(now);
                }
            },
            None => {
                self.window_start = Some(now);
            },
        }
        if self.current_calls < self.max_calls {
            self.current_calls += 1;
            true
        } else {
            false
        }
    }
}

/// `new` and `r` are what `acquire_at` leaves and gives from `old` at time `now`,
/// `elapsed_secs` being the whole seconds since the window started (`None`
/// before the first call): an expired window starts anew with no calls counted;
/// the call is allowed when fewer than the limit were made, and then counted; a
/// first call or an expired window starts the window at `now`.
pub open spec fn acquired(old: RateLimiter, new: RateLimiter, now: Instant, elapsed_secs: Option<u64>, r: bool) -> bool {
    let expired = match elapsed_secs {
        Some(e) => e >= old.window(),
        None => false,
    };
    let before = if expired { 0 } else { old.calls() as int };
    &&& r == (before < old.limit())
    &&& new.calls() == if r { before + 1 } else { before }
    &&& new.started() == if expired || elapsed_secs is None {
        Some(now)
    } else {
        old.started()
    }
    &&& new.limit() == old.limit()
    &&& new.window() == old.window()
}

/// The smaller of two numbers.
pub open spec fn min_nat(a: nat, b: nat) -> nat {
    if a <= b { a } else { b }
}

/// Within one window the limiter grants exactly the first `limit` calls: starting
/// from a limiter with no window and no calls (as `RateLimiter::new(n)` and
/// `RateLimiter::unlimited()` make it), a run of `acquire_at` calls, each after
/// the first made less than a window's length after the window started, allows
/// call `i` (counting from 0) exactly when `i < limit`, and after `k` calls
/// `min(k, limit)` are counted. No call is refused while fewer than the limit
/// were granted, and no more than the limit are granted.
pub proof fn lemma_window_grants_first_calls(
    states: Seq<RateLimiter>,
    nows: Seq<Instant>,
    elapsed: Seq<Option<u64>>,
    results: Seq<bool>,
)
    requires
        states.len() == results.len() + 1,
        nows.len() == results.len(),
        elapsed.len() == results.len(),
        states[0].calls() == 0,
        states[0].started() is None,
        forall|i: int|
            0 <= i < results.len() ==> (elapsed[i] is Some <==> states[i].started() is Some),
        forall|i: int|
            0 <= i < results.len() ==> #[trigger] acquired(states[i], states[i + 1], nows[i], elapsed[i], results[i]),
        forall|i: int|
            0 < i < results.len() ==> match #[trigger] elapsed[i] {
                Some(e) => e < states[i].window(),
                None => true,
            },
    ensures
        forall|i: int| 0 <= i < results.len() ==> #[trigger] results[i] == (i < states[0].limit()),
        forall|k: int| 0 <= k < states.len() ==> #[trigger] states[k].calls() == min_nat(k as nat, states[0].limit() as nat),
{
    lemma_window_run(states, nows, elapsed, results, results.len() as int);
    assert forall|i: int| 0 <= i < results.len() implies #[trigger] results[i] == (i < states[0].limit()) by {
        lemma_window_run(states, nows, elapsed, results, i);
        assert(acquired(states[i], states[i + 1], nows[i], elapsed[i], results[i]));
    }
    assert forall|k: int| 0 <= k < states.len() implies #[trigger] states[k].calls() == min_nat(
        k as nat,
        states[0].limit() as nat,
    ) by {
        lemma_window_run(states, nows, elapsed, results, k);
    }
}

/// After the first `k` calls of such a run: `min(k, limit)` calls are counted, the
/// limit and the window are those of the start, and a window has started once a
/// call was made.
proof fn lemma_window_run(
    states: Seq<RateLimiter>,
    nows: Seq<Instant>,
    elapsed: Seq<Option<u64>>,
    results: Seq<bool>,
    k: int,
)
    requires
        0 <= k <= results.len(),
        states.len() == results.len() + 1,
        nows.len() == results.len(),
        elapsed.len() == results.len(),
        states[0].calls() == 0,
        states[0].started() is None,
        forall|i: int|
            0 <= i < results.len() ==> (elapsed[i] is Some <==> states[i].started() is Some),
        forall|i: int|
            0 <= i < results.len() ==> #[trigger] acquired(states[i], states[i + 1], nows[i], elapsed[i], results[i]),
        forall|i: int|
            0 < i < results.len() ==> match #[trigger] elapsed[i] {
                Some(e) => e < states[i].window(),
                None => true,
            },
    ensures
        states[k].calls() == min_nat(k as nat, states[0].limit() as nat),
        states[k].limit() == states[0].limit(),
        states[k].window() == states[0].window(),
        k > 0 ==> states[k].started() is Some,
    decreases k,
{
    if k > 0 {
        let i = k - 1;
        lemma_window_run(states, nows, elapsed, results, i);
        assert(acquired(states[i], states[i + 1], nows[i], elapsed[i], results[i]));
        if i > 0 {
            assert(elapsed[i] is Some);
            let _ = elapsed[i];
        } else {
            assert(elapsed[i] is None);
        }
    }
}

/// Result from a tool execution.
#[derive(Debug, Clone)]
pub struct ToolResult {
    /// Name of the tool that produced this result
    pub tool_name: String,
    /// Whether the tool succeeded
    pub success: bool,
    /// Output data
    pub output: String,
    /// Error message if failed
    pub error: Option<String>,
}

/// The first of the `required` permissions that is not among the `granted` ones.
pub open spec fn first_missing(required: Seq<Permission>, granted: Seq<Permission>) -> Option<Permission>
    decreases required.len(),
{
    if required.len() == 0 {
        None
    } else if !granted.contains(required[0]) {
        Some(required[0])
    } else {
        first_missing(required.drop_first(), granted)
    }
}

/// The first required permission that has not been granted, if any.
pub fn first_missing_permission(required: &[Permission], granted: &[Permission]) -> (r: Option<
    Permission,
>)
    ensures
        r == first_missing(required@, granted@),
{
    let mut i: usize = 0;
    assert(required@.skip(0) =~= required@);
    while i < required.len()
        invariant
            i <= required.len(),
            first_missing(required@.skip(i as int), granted@) == first_missing(required@, granted@),
        decreases required.len() - i,
    {
        let p = required[i];
        let mut found = false;
        let mut j: usize = 0;
        while j < granted.len()
            invariant
                j <= granted.len(),
                found == granted@.take(j as int).contains(p),
            decreases granted.len() - j,
        {
            proof {
                assert(granted@.take(j + 1) =~= granted@.take(j as int).push(granted@[j as int]));
                let t = granted@.take(j + 1);
                if t.contains(p) && granted@[j as int] != p {
                    let k = choose|k: int| 0 <= k < t.len() && t[k] == p;
                    assert(granted@.take(j as int)[k] == p);
                }
                if granted@[j as int] == p {
                    assert(t[j as int] == p);
                }
            }
            if granted[j] == p {
                found = true;
            }
            j += 1;
        }
        assert(granted@.take(granted.len() as int) =~= granted@);
        assert(required@.skip(i as int)[0] == p);
        if !found {
            return Some(p);
        }
        assert(required@.skip(i as int).drop_first() =~= required@.skip(i + 1));
        i += 1;
    }
    None
}

/// The message of a refused call: `Permission '<perm>' not granted for tool '<tool>'`.
pub open spec fn denial_message(perm: Permission, tool: Seq<char>) -> Seq<char> {
    "Permission '"@ + perm.label() + "' not granted for tool '"@ + tool + "'"@
}

/// The failed result of a call refused for a missing permission.
pub fn permission_denied(tool_name: &str, perm: Permission) -> (r: ToolResult)
    ensures
        r.tool_name@ == tool_name@,
        !r.success,
        r.output@.len() == 0,
        r.error matches Some(e) && e@ == denial_message(perm, tool_name@),
{
    let mut msg = owned("Permission '");
    let p = perm.to_string();
    push_str(&mut msg, p.as_str());
    push_str(&mut msg, "' not granted for tool '");
    push_str(&mut msg, tool_name);
    push_str(&mut msg, "'");
    assert(msg@ =~= denial_message(perm, tool_name@));
    ToolResult { tool_name: owned(tool_name), success: false, output: String::new(), error: Some(msg) }
}

/// The result of calling a user-defined tool, which the runtime resolves by name:
/// output `[user_tool:<function>]`.
pub fn user_tool_result(tool_name: &str, function_name: &str) -> (r: ToolResult)
    ensures
        r.tool_name@ == tool_name@,
        r.success,
        r.output@ == "[user_tool:"@ + function_name@ + "]"@,
        r.error is None,
{
    let mut out = owned("[user_tool:");
    push_str(&mut out, function_name);
    push_str(&mut out, "]");
    ToolResult { tool_name: owned(tool_name), success: true, output: out, error: None }
}

/// The echo tool: its arguments joined by single spaces.
pub fn builtin_echo(args: &[String]) -> (r: ToolResult)
    ensures
        r.tool_name@ == "echo"@,
        r.success,
        r.output@ == join_seq(string_views(args@), " "@),
        r.error is None,
{
    let out = crate::stdlib::string::join(args, " ");
    ToolResult { tool_name: owned("echo"), success: true, output: out, error: None }
}

/// The clock tool: the current Unix time in seconds, in decimal.
pub fn builtin_clock(args: &[String]) -> (r: ToolResult)
    ensures
        r.tool_name@ == "clock"@,
        r.success,
        r.error is None,
        exists|t: u64| r.output@ == decimal(t as nat),
{
    let t = crate::stdlib::os::timestamp();
    let mut out = String::new();
    push_decimal(&mut out, t);
    assert(out@ =~= decimal(t as nat));
    ToolResult { tool_name: owned("clock"), success: true, output: out, error: None }
}

} // verus!
