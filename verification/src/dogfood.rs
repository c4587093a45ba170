//! Read-only projection of the native audit log into the frozen
//! `schema_version: 1` evidence event. It never writes to the audit log
//! and makes no device-level enforcement claim.

use vstd::prelude::*;

pub mod adapter;
pub mod audit;
pub mod canon;
pub mod event;
pub mod rfc3339;

verus! {

/// The operator-facing qualification of observe-mode semantics: they are
/// available on the development branch, not in a shipped build.
pub const BRANCH_QUALIFICATION_NOTICE: &'static str = "Observe-mode authorization semantics are available on the MVP 2.0 development branch (next/mvp-2.0), not in a shipped main build.";

} // verus!
