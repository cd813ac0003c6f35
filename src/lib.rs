//! Per-person activity-time report: identity normalisation, per-person
//! aggregation of activity memberships, and the report table built from it.

pub mod aggregate;
pub mod identity;
pub mod pipeline;
pub mod report;
pub mod transcode;
pub mod user;
