//! Core contract between a deployable service and a deployment platform:
//! a resource provisioning protocol that memoizes expensive provisioning
//! work across deployments, and a service lifecycle state machine covering
//! startup, readiness, idling and shutdown.

#![allow(unused_imports)]

use vstd::prelude::*;

pub mod cache;
pub mod error;
pub mod health;
pub mod lifecycle;
pub mod metadata;
pub mod resource;

pub use error::Error;
pub use lifecycle::Idle;
