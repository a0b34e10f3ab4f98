//! Readiness verification: the default health check probes a fixed
//! well-known path on the bound address over plain HTTP and treats any
//! 2xx status as healthy. The probe itself is network work done by the
//! surrounding platform glue; this module owns the decisions — the probe
//! target, the classification of what the probe observed, and the
//! lifecycle event that follows from it.

use vstd::prelude::*;

use crate::error::Error;
use crate::lifecycle::{Event, Idle, State, spec_step};

verus! {

/// The fixed well-known path the default health check probes.
pub fn health_path() -> (p: &'static str)
    ensures
        p@ == "/_shuttle/healthz"@,
{
    "/_shuttle/healthz"
}

/// The full probe target for a bound address rendered as `host:port`:
/// plain HTTP on the well-known health path.
pub fn health_url(addr: &str) -> (r: String)
    ensures
        r@ == "http://"@ + addr@ + "/_shuttle/healthz"@,
{
    let mut url = String::from_str("http://");
    url.append(addr);
    url.append("/_shuttle/healthz");
    url
}

/// What one health probe of the bound address observed: an HTTP status
/// from the service, or a transport failure with its description.
pub enum ProbeOutcome {
    Status(u16),
    Unreachable(String),
}

/// A status counts as healthy exactly when it is 2xx.
pub open spec fn spec_success_status(status: u16) -> bool {
    200 <= status < 300
}

/// A probe passes exactly when it observed a 2xx status.
pub open spec fn spec_probe_passes(outcome: ProbeOutcome) -> bool {
    match outcome {
        ProbeOutcome::Status(s) => spec_success_status(s),
        ProbeOutcome::Unreachable(_) => false,
    }
}

/// Classifies what the probe observed: success on any 2xx status, and
/// otherwise a `HealthCheckFailed` error carrying the transport failure's
/// description, or a fixed reason for a non-2xx status.
pub fn classify_probe(outcome: ProbeOutcome) -> (r: Result<(), Error>)
    ensures
        r is Ok <==> spec_probe_passes(outcome),
        r matches Err(e) ==> e.is_health_check_failed(),
        outcome matches ProbeOutcome::Unreachable(reason) ==> r == Err::<(), Error>(
            Error::HealthCheckFailed(reason),
        ),
        (outcome matches ProbeOutcome::Status(s) && !spec_success_status(s)) ==> (r matches Err(e)
            && e matches Error::HealthCheckFailed(m) && m@ == "Health check unsuccessful"@),
    {
    match outcome {
        ProbeOutcome::Status(s) => {
            if 200 <= s && s < 300 {
                Ok(())
            } else {
                Err(Error::HealthCheckFailed(String::from_str("Health check unsuccessful")))
            }
        },
        ProbeOutcome::Unreachable(reason) => Err(Error::HealthCheckFailed(reason)),
    }
}

/// The lifecycle event a finished health check feeds to the state
/// machine.
pub fn health_event(checked: &Result<(), Error>) -> (e: Event)
    ensures
        e == (if checked is Ok {
            Event::HealthCheckPassed
        } else {
            Event::HealthCheckFailed
        }),
{
    match checked {
        Ok(_) => Event::HealthCheckPassed,
        Err(_) => Event::HealthCheckFailed,
    }
}

/// Health check default, end to end: a service under health checking
/// becomes Ready exactly when the probe observed a 2xx status; any other
/// status, or an unreachable endpoint, takes it to Failed — whatever the
/// idle policy.
pub proof fn lemma_health_check_default(policy: Idle, outcome: ProbeOutcome)
    ensures
        spec_probe_passes(outcome) ==> spec_step(
            policy,
            State::HealthChecking,
            Event::HealthCheckPassed,
        ) == State::Ready,
        !spec_probe_passes(outcome) ==> spec_step(
            policy,
            State::HealthChecking,
            Event::HealthCheckFailed,
        ) == State::Failed,
{
}

} // verus!
