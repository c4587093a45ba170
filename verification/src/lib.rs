//! Local-first compute authorization: observed workload identity,
//! evidence-backed policy, scoped expiring leases, trusted sessions,
//! remembered approvals, bounded delegation and risk classification.
#![allow(unused_imports)]

pub mod time;
pub mod text;
pub mod resource;
pub mod identity;
pub mod decimal;
pub mod envelope;
pub mod policy;
pub mod provenance;
pub mod lease;
pub mod peer;
pub mod session;
pub mod digest;
pub mod approval;
pub mod delegation;
pub mod risk;
pub mod collector;
pub mod dogfood;
