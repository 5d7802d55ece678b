//! The retry policy of the resilient request executor.
//!
//! One logical HTTP call is attempted up to [`ATTEMPT_LIMIT`] times.  The
//! policy is a small state machine: the surrounding binary performs the
//! network call, the sleep and the logging, and feeds the observed outcome
//! of each attempt back into [`step`] and [`wake`].  A whole scripted
//! exchange can be replayed with [`run`], which pins down exactly how many
//! attempts are spent and how many delays are served.

use vstd::prelude::*;

verus! {

/// Most attempts a single logical call may spend.
pub const ATTEMPT_LIMIT: u8 = 15;

/// Delay served after a failed HTTP response, before the next attempt.
pub const RETRY_DELAY_MILLIS: u64 = 1500;

/// Network timeout of one attempt.
pub const REQUEST_TIMEOUT_MILLIS: u64 = 5000;

/// The HTTP methods a caller may name; only `Get` and `Post` are accepted
/// by the executor.
#[derive(Clone, Copy, Debug, PartialEq, Eq, Structural)]
pub enum HttpMethod {
    Get,
    Post,
    Put,
    Delete,
    Head,
    Patch,
    Options,
}

/// Whether the executor accepts the method at all; anything but GET and
/// POST is rejected immediately, with no attempt spent.
pub open spec fn spec_method_supported(m: HttpMethod) -> bool {
    m is Get || m is Post
}

/// The conventional upper-case name of the method.
pub open spec fn spec_method_name(m: HttpMethod) -> Seq<char> {
    match m {
        HttpMethod::Get => "GET"@,
        HttpMethod::Post => "POST"@,
        HttpMethod::Put => "PUT"@,
        HttpMethod::Delete => "DELETE"@,
        HttpMethod::Head => "HEAD"@,
        HttpMethod::Patch => "PATCH"@,
        HttpMethod::Options => "OPTIONS"@,
    }
}

impl HttpMethod {
    /// The conventional upper-case name of the method.
    pub fn name(&self) -> (r: &str)
        ensures
            r@ == spec_method_name(*self),
    {
        match *self {
            HttpMethod::Get => "GET",
            HttpMethod::Post => "POST",
            HttpMethod::Put => "PUT",
            HttpMethod::Delete => "DELETE",
            HttpMethod::Head => "HEAD",
            HttpMethod::Patch => "PATCH",
            HttpMethod::Options => "OPTIONS",
        }
    }
}

/// Executable form of [`spec_method_supported`].
pub fn method_supported(m: HttpMethod) -> (r: bool)
    ensures
        r == spec_method_supported(m),
{
    match m {
        HttpMethod::Get => true,
        HttpMethod::Post => true,
        _ => false,
    }
}

/// What one attempt observed: an HTTP response with its status code, or a
/// transport-level failure (connection error or timeout) with no response.
#[derive(Clone, Copy, Debug, PartialEq, Eq, Structural)]
pub enum ResponseEvent {
    Status(u16),
    TransportFailure,
}

/// How a status code is classified.  The two transient classes differ only
/// in the log level the caller should use (error for 404/429, warning for
/// any other unexpected status); both are retried after the delay.
#[derive(Clone, Copy, Debug, PartialEq, Eq, Structural)]
pub enum ResponseClass {
    Success,
    TransientExpected,
    TransientUnexpected,
    Fatal,
}

/// Classification of a status code: 200 succeeds, 504 aborts at once, 404
/// and 429 are transient, and every other status is deliberately treated
/// as transient too.
pub open spec fn spec_classify(status: u16) -> ResponseClass {
    if status == 200 {
        ResponseClass::Success
    } else if status == 404 || status == 429 {
        ResponseClass::TransientExpected
    } else if status == 504 {
        ResponseClass::Fatal
    } else {
        ResponseClass::TransientUnexpected
    }
}

/// Executable form of [`spec_classify`].
pub fn classify(status: u16) -> (r: ResponseClass)
    ensures
        r == spec_classify(status),
{
    if status == 200 {
        ResponseClass::Success
    } else if status == 404 || status == 429 {
        ResponseClass::TransientExpected
    } else if status == 504 {
        ResponseClass::Fatal
    } else {
        ResponseClass::TransientUnexpected
    }
}

/// The executor's state between attempts.
///
/// `Attempting { attempt }` asks the caller to send the request (the
/// `attempt`-th try); `Sleeping { attempt }` asks the caller to serve the
/// inter-attempt delay after the failed `attempt`-th try; the remaining
/// states are terminal.
#[derive(Clone, Copy, Debug, PartialEq, Eq, Structural)]
pub enum RetryState {
    Attempting { attempt: u8 },
    Sleeping { attempt: u8 },
    Succeeded { attempt: u8 },
    FailedFatal { status: u16 },
    FailedExhausted,
}

/// Attempt counters stay within `1..=ATTEMPT_LIMIT`.
pub open spec fn spec_state_wf(s: RetryState) -> bool {
    match s {
        RetryState::Attempting { attempt } => 1 <= attempt <= ATTEMPT_LIMIT,
        RetryState::Sleeping { attempt } => 1 <= attempt <= ATTEMPT_LIMIT,
        _ => true,
    }
}

/// State in which a fresh logical call starts.
pub open spec fn spec_initial_state() -> RetryState {
    RetryState::Attempting { attempt: 1 }
}

/// Executable form of [`spec_initial_state`].
pub fn initial_state() -> (s: RetryState)
    ensures
        s == spec_initial_state(),
        spec_state_wf(s),
{
    RetryState::Attempting { attempt: 1 }
}

/// The transition taken after the `attempt`-th try observed `event`.
///
/// A 200 succeeds; a 504 fails fatally; any other status enters the
/// sleeping state (the delay is served even when the budget is already
/// spent); a transport failure retries immediately — without the delay —
/// or exhausts the budget.
pub open spec fn spec_step(s: RetryState, event: ResponseEvent) -> RetryState
    recommends
        s is Attempting,
{
    let attempt = s->Attempting_attempt;
    match event {
        ResponseEvent::Status(status) => match spec_classify(status) {
            ResponseClass::Success => RetryState::Succeeded { attempt },
            ResponseClass::Fatal => RetryState::FailedFatal { status },
            _ => RetryState::Sleeping { attempt },
        },
        ResponseEvent::TransportFailure => if attempt < ATTEMPT_LIMIT {
            RetryState::Attempting { attempt: (attempt + 1) as u8 }
        } else {
            RetryState::FailedExhausted
        },
    }
}

/// Executable form of [`spec_step`].
pub fn step(s: RetryState, event: ResponseEvent) -> (r: RetryState)
    requires
        s is Attempting,
        spec_state_wf(s),
    ensures
        r == spec_step(s, event),
        spec_state_wf(r),
{
    let attempt = match s {
        RetryState::Attempting { attempt } => attempt,
        _ => 1,
    };
    match event {
        ResponseEvent::Status(status) => match classify(status) {
            ResponseClass::Success => RetryState::Succeeded { attempt },
            ResponseClass::Fatal => RetryState::FailedFatal { status },
            _ => RetryState::Sleeping { attempt },
        },
        ResponseEvent::TransportFailure => if attempt < ATTEMPT_LIMIT {
            RetryState::Attempting { attempt: attempt + 1 }
        } else {
            RetryState::FailedExhausted
        },
    }
}

/// The transition taken when the inter-attempt delay has been served:
/// either the next attempt begins, or the budget is exhausted.
pub open spec fn spec_wake(s: RetryState) -> RetryState
    recommends
        s is Sleeping,
{
    let attempt = s->Sleeping_attempt;
    if attempt < ATTEMPT_LIMIT {
        RetryState::Attempting { attempt: (attempt + 1) as u8 }
    } else {
        RetryState::FailedExhausted
    }
}

/// Executable form of [`spec_wake`].
pub fn wake(s: RetryState) -> (r: RetryState)
    requires
        s is Sleeping,
        spec_state_wf(s),
    ensures
        r == spec_wake(s),
        spec_state_wf(r),
{
    let attempt = match s {
        RetryState::Sleeping { attempt } => attempt,
        _ => 1,
    };
    if attempt < ATTEMPT_LIMIT {
        RetryState::Attempting { attempt: attempt + 1 }
    } else {
        RetryState::FailedExhausted
    }
}

/// How a whole scripted exchange ends.
#[derive(Clone, Copy, Debug, PartialEq, Eq, Structural)]
pub enum RunOutcome {
    /// Some attempt returned 200; its response body is the result.
    Success,
    /// A 504 aborted the call at once.
    FatalFailure { status: u16 },
    /// All attempts were spent without a 200.
    AttemptsExhausted,
    /// The script ended while the executor still wanted to send a request.
    OutOfEvents,
}

/// What replaying a script of attempt outcomes costs: the final outcome,
/// the number of requests actually sent, and the number of delays served.
/// On success, the event consumed last — index `attempts - 1` of the
/// script — is the attempt whose body the executor returns.
#[derive(Clone, Copy, Debug, PartialEq, Eq, Structural)]
pub struct RunSummary {
    pub outcome: RunOutcome,
    pub attempts: usize,
    pub sleeps: usize,
}

/// Rank used to show that replaying a script terminates: waking from a
/// sleep consumes no event but strictly lowers the rank.
pub open spec fn spec_state_rank(s: RetryState) -> nat {
    if s is Sleeping {
        1nat
    } else {
        0nat
    }
}

/// The summary of replaying `events` from state `s`, having already sent
/// `consumed` requests and served `sleeps` delays.
pub open spec fn spec_run_from(
    s: RetryState,
    events: Seq<ResponseEvent>,
    consumed: nat,
    sleeps: nat,
) -> RunSummary
    decreases events.len(), spec_state_rank(s),
{
    match s {
        RetryState::Succeeded { .. } => RunSummary {
            outcome: RunOutcome::Success,
            attempts: consumed as usize,
            sleeps: sleeps as usize,
        },
        RetryState::FailedFatal { status } => RunSummary {
            outcome: RunOutcome::FatalFailure { status },
            attempts: consumed as usize,
            sleeps: sleeps as usize,
        },
        RetryState::FailedExhausted => RunSummary {
            outcome: RunOutcome::AttemptsExhausted,
            attempts: consumed as usize,
            sleeps: sleeps as usize,
        },
        RetryState::Sleeping { .. } => spec_run_from(spec_wake(s), events, consumed, sleeps + 1),
        RetryState::Attempting { .. } => if events.len() == 0 {
            RunSummary {
                outcome: RunOutcome::OutOfEvents,
                attempts: consumed as usize,
                sleeps: sleeps as usize,
            }
        } else {
            spec_run_from(spec_step(s, events[0]), events.drop_first(), consumed + 1, sleeps)
        },
    }
}

/// The summary of a whole logical call whose attempts observe `events` in
/// order.
pub open spec fn spec_run(events: Seq<ResponseEvent>) -> RunSummary {
    spec_run_from(spec_initial_state(), events, 0, 0)
}

/// Replays a script of attempt outcomes through the state machine.
///
/// Never sends more than [`ATTEMPT_LIMIT`] requests, and never serves more
/// delays than it sends requests.
pub fn run(events: &Vec<ResponseEvent>) -> (r: RunSummary)
    ensures
        r == spec_run(events@),
        r.attempts <= ATTEMPT_LIMIT,
        r.sleeps <= r.attempts,
{
    let mut state = initial_state();
    let mut consumed: usize = 0;
    let mut sleeps: usize = 0;
    proof {
        assert(events@.skip(0) =~= events@);
    }
    loop
        invariant
            spec_state_wf(state),
            consumed <= events@.len(),
            sleeps <= consumed,
            state is Sleeping ==> sleeps < consumed,
            state is Attempting ==> state->Attempting_attempt == consumed + 1,
            state is Sleeping ==> state->Sleeping_attempt == consumed,
            consumed <= ATTEMPT_LIMIT,
            spec_run(events@) == spec_run_from(
                state,
                events@.skip(consumed as int),
                consumed as nat,
                sleeps as nat,
            ),
        decreases events@.len() - consumed, spec_state_rank(state),
    {
        match state {
            RetryState::Succeeded { .. } => {
                return RunSummary { outcome: RunOutcome::Success, attempts: consumed, sleeps };
            },
            RetryState::FailedFatal { status } => {
                return RunSummary {
                    outcome: RunOutcome::FatalFailure { status },
                    attempts: consumed,
                    sleeps,
                };
            },
            RetryState::FailedExhausted => {
                return RunSummary {
                    outcome: RunOutcome::AttemptsExhausted,
                    attempts: consumed,
                    sleeps,
                };
            },
            RetryState::Sleeping { .. } => {
                state = wake(state);
                sleeps = sleeps + 1;
            },
            RetryState::Attempting { .. } => {
                if consumed == events.len() {
                    return RunSummary {
                        outcome: RunOutcome::OutOfEvents,
                        attempts: consumed,
                        sleeps,
                    };
                }
                let event = events[consumed];
                proof {
                    assert(events@.skip(consumed as int)[0] == events@[consumed as int]);
                    assert(events@.skip(consumed as int).drop_first() =~= events@.skip(
                        consumed as int + 1,
                    ));
                }
                state = step(state, event);
                consumed = consumed + 1;
            },
        }
    }
}

} // verus!
