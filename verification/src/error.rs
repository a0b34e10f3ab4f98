//! Error kinds surfaced by the deployment and lifecycle contract.

use vstd::prelude::*;

verus! {

/// An opaque, user-supplied failure wrapped with a human-readable context
/// message.
#[derive(Debug)]
pub struct CustomError {
    pub message: String,
}

/// Every failure that this contract can surface to the platform.
#[derive(Debug)]
pub enum Error {
    /// Factory-side failure while allocating a managed resource or
    /// fetching secrets (capacity, quota, auth, transport).
    Provisioning(String),
    /// Read or write failure against the cache store.
    Cache(String),
    /// The health check saw a non-success status or could not reach the
    /// endpoint; carries a human-readable reason.
    HealthCheckFailed(String),
    /// Socket setup failed during startup.
    BindFailed(String),
    /// Opaque user-supplied failure.
    Custom(CustomError),
}

impl Error {
    /// True exactly when this error reports a failed health check.
    pub open spec fn is_health_check_failed(&self) -> bool {
        self matches Error::HealthCheckFailed(_)
    }
}

} // verus!
