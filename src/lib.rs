//! Challenge instance orchestration and judging for a security-challenge platform.
//!
//! The library holds the decisions of the platform's core: how a challenge's
//! declared containers become per-team cluster objects, how a team-unique flag
//! is derived, the lifecycle of each instance and its lease, the reclamation of
//! expired or orphaned objects, and how a submission is judged.  The cluster,
//! the database and the HTTP surface are driven from the outside and feed the
//! results of their calls back in as plain values.

pub mod text;
pub mod crypto;

pub use crypto::{generate_salt, random_string, random_string_lower, salt_password, sha512};
pub mod error;

pub use error::{CoreError, ErrorResponse};
pub mod model;
pub mod planner;
pub mod flag;
pub mod lifecycle;
pub mod judge;
pub mod auth;
pub mod sweeper;
