//! Service lifecycle: idle policy and the startup / readiness / idling /
//! shutdown state machine that the platform drives a service through.

use vstd::prelude::*;

verus! {

/// Number of seconds of silence after which a service idles by default.
pub const DEFAULT_IDLE_SECONDS: u32 = 30;

/// Declarative rule for whether and when an inactive service may be
/// suspended: either idle after a positive number of seconds without
/// inbound activity, or never idle at all.
#[derive(Clone, Copy, Debug, PartialEq, Eq, Structural)]
pub enum Idle {
    DoIdle(u32),
    AlwaysOn,
}

impl Idle {
    /// A policy is well formed when its idle threshold is positive.
    pub open spec fn wf(&self) -> bool {
        match *self {
            Idle::DoIdle(n) => n > 0,
            Idle::AlwaysOn => true,
        }
    }

    /// The default policy: idle after thirty seconds of silence.
    pub fn default_policy() -> (p: Idle)
        ensures
            p == Idle::DoIdle(DEFAULT_IDLE_SECONDS),
            p.wf(),
    {
        Idle::DoIdle(DEFAULT_IDLE_SECONDS)
    }

    /// True when `quiet_seconds` of silence is enough for this policy to
    /// suspend the service.
    pub open spec fn spec_idles_after(&self, quiet_seconds: u32) -> bool {
        match *self {
            Idle::DoIdle(n) => quiet_seconds >= n,
            Idle::AlwaysOn => false,
        }
    }

    /// Decides whether the given span of silence triggers idling.
    pub fn idles_after(&self, quiet_seconds: u32) -> (r: bool)
        ensures
            r == self.spec_idles_after(quiet_seconds),
    {
        match *self {
            Idle::DoIdle(n) => quiet_seconds >= n,
            Idle::AlwaysOn => false,
        }
    }
}

/// The lifecycle states a service moves through, from creation to
/// termination.
#[derive(Clone, Copy, Debug, PartialEq, Eq, Structural)]
pub enum State {
    Created,
    Bound,
    HealthChecking,
    Ready,
    Failed,
    Idle,
    Active,
    ShuttingDown,
    Terminated,
}

/// The observations and platform commands that drive the state machine.
/// Outcomes of the asynchronous entry points (`bind`, the health check,
/// `shutdown`) arrive as events; so do inbound requests and spans of
/// silence.
#[derive(Clone, Copy, Debug, PartialEq, Eq, Structural)]
pub enum Event {
    /// `bind(addr)` returned successfully.
    BindSucceeded,
    /// `bind(addr)` failed: fatal startup error.
    BindFailed,
    /// The platform started the post-bind health check.
    HealthCheckStarted,
    /// The health check reported success.
    HealthCheckPassed,
    /// The health check reported failure.
    HealthCheckFailed,
    /// An inbound request was observed.
    InboundRequest,
    /// This many seconds passed with no inbound activity.
    QuietFor(u32),
    /// The platform asked the service to shut down.
    ShutdownRequested,
    /// `shutdown()` returned.
    ShutdownComplete,
}

/// The transition function of the lifecycle state machine. `Terminated`
/// absorbs every event; a shutdown request is honoured from every other
/// state; all remaining transitions fire only from the state they are
/// defined on, and every other pairing leaves the state unchanged.
pub open spec fn spec_step(policy: Idle, s: State, e: Event) -> State {
    if s == State::Terminated {
        State::Terminated
    } else {
        match e {
            Event::ShutdownRequested => State::ShuttingDown,
            Event::ShutdownComplete => if s == State::ShuttingDown {
                State::Terminated
            } else {
                s
            },
            Event::BindSucceeded => if s == State::Created {
                State::Bound
            } else {
                s
            },
            Event::BindFailed => if s == State::Created {
                State::Failed
            } else {
                s
            },
            Event::HealthCheckStarted => if s == State::Bound {
                State::HealthChecking
            } else {
                s
            },
            Event::HealthCheckPassed => if s == State::HealthChecking {
                State::Ready
            } else {
                s
            },
            Event::HealthCheckFailed => if s == State::HealthChecking {
                State::Failed
            } else {
                s
            },
            Event::InboundRequest => if s == State::Ready || s == State::Active || s
                == State::Idle {
                State::Active
            } else {
                s
            },
            Event::QuietFor(secs) => if (s == State::Ready || s == State::Active)
                && policy.spec_idles_after(secs) {
                State::Idle
            } else {
                s
            },
        }
    }
}

/// Executes one transition of the lifecycle state machine.
pub fn step(policy: &Idle, s: State, e: Event) -> (t: State)
    ensures
        t == spec_step(*policy, s, e),
{
    match s {
        State::Terminated => State::Terminated,
        _ => match e {
            Event::ShutdownRequested => State::ShuttingDown,
            Event::ShutdownComplete => match s {
                State::ShuttingDown => State::Terminated,
                _ => s,
            },
            Event::BindSucceeded => match s {
                State::Created => State::Bound,
                _ => s,
            },
            Event::BindFailed => match s {
                State::Created => State::Failed,
                _ => s,
            },
            Event::HealthCheckStarted => match s {
                State::Bound => State::HealthChecking,
                _ => s,
            },
            Event::HealthCheckPassed => match s {
                State::HealthChecking => State::Ready,
                _ => s,
            },
            Event::HealthCheckFailed => match s {
                State::HealthChecking => State::Failed,
                _ => s,
            },
            Event::InboundRequest => match s {
                State::Ready | State::Active | State::Idle => State::Active,
                _ => s,
            },
            Event::QuietFor(secs) => match s {
                State::Ready | State::Active => {
                    if policy.idles_after(secs) {
                        State::Idle
                    } else {
                        s
                    }
                },
                _ => s,
            },
        },
    }
}

/// The state reached by feeding a sequence of events through the state
/// machine, in order.
pub open spec fn spec_run(policy: Idle, s: State, evs: Seq<Event>) -> State
    decreases evs.len(),
{
    if evs.len() == 0 {
        s
    } else {
        spec_run(policy, spec_step(policy, s, evs[0]), evs.drop_first())
    }
}

/// Appending one event to a run is one more transition at its end.
proof fn lemma_run_snoc(policy: Idle, s: State, evs: Seq<Event>, e: Event)
    ensures
        spec_run(policy, s, evs.push(e)) == spec_step(policy, spec_run(policy, s, evs), e),
    decreases evs.len(),
{
    let t = evs.push(e);
    if evs.len() == 0 {
        assert(spec_run(policy, s, evs) == s);
        assert(t[0] == e);
        assert(t.drop_first() =~= Seq::<Event>::empty());
        assert(spec_run(policy, spec_step(policy, s, e), t.drop_first()) == spec_step(
            policy,
            s,
            e,
        ));
    } else {
        assert(t[0] == evs[0]);
        assert(t.drop_first() =~= evs.drop_first().push(e));
        lemma_run_snoc(policy, spec_step(policy, s, evs[0]), evs.drop_first(), e);
        assert(spec_run(policy, s, evs) == spec_run(
            policy,
            spec_step(policy, s, evs[0]),
            evs.drop_first(),
        ));
    }
}

/// Drives the state machine over a recorded sequence of events, in
/// order.
pub fn run_events(policy: &Idle, start: State, events: &Vec<Event>) -> (t: State)
    ensures
        t == spec_run(*policy, start, events@),
{
    let mut s = start;
    let n = events.len();
    let mut i: usize = 0;
    while i < n
        invariant
            n == events@.len(),
            0 <= i <= n,
            s == spec_run(*policy, start, events@.take(i as int)),
        decreases n - i,
    {
        proof {
            assert(events@.take(i as int).push(events@[i as int]) =~= events@.take(i + 1));
            lemma_run_snoc(*policy, start, events@.take(i as int), events@[i as int]);
        }
        s = step(policy, s, events[i]);
        i += 1;
    }
    proof {
        assert(events@.take(n as int) =~= events@);
    }
    s
}

/// Idle policy, suspending half: under `DoIdle(n)`, a span of `n` or
/// more seconds with no inbound activity takes a ready or active service
/// to `Idle`.
pub proof fn lemma_do_idle_suspends(n: u32, s: State, quiet: u32)
    requires
        s == State::Ready || s == State::Active,
        quiet >= n,
    ensures
        spec_step(Idle::DoIdle(n), s, Event::QuietFor(quiet)) == State::Idle,
{
}

/// Idle policy, patience half: a span of silence shorter than the
/// threshold changes no state at all.
pub proof fn lemma_do_idle_waits(n: u32, s: State, quiet: u32)
    requires
        quiet < n,
    ensures
        spec_step(Idle::DoIdle(n), s, Event::QuietFor(quiet)) == s,
{
}

/// Idle policy, resumption half: whatever the policy, the next inbound
/// request while idle makes the service active again.
pub proof fn lemma_idle_wakes(policy: Idle)
    ensures
        spec_step(policy, State::Idle, Event::InboundRequest) == State::Active,
{
}

/// Idle policy, always-on half: under `AlwaysOn`, no sequence of events —
/// however long the silences in it — ever takes a service that is not
/// idle into the `Idle` state.
pub proof fn lemma_always_on_never_idles(s: State, evs: Seq<Event>)
    requires
        s != State::Idle,
    ensures
        spec_run(Idle::AlwaysOn, s, evs) != State::Idle,
    decreases evs.len(),
{
    if evs.len() > 0 {
        assert(spec_step(Idle::AlwaysOn, s, evs[0]) != State::Idle);
        lemma_always_on_never_idles(spec_step(Idle::AlwaysOn, s, evs[0]), evs.drop_first());
    }
}

} // verus!
