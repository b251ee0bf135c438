//! A load generator's engine: it issues a fixed number of HTTP requests to
//! one target with a bound on how many are in flight at once, classifies
//! each outcome, and sums the outcomes up into status counts and latency
//! statistics.
//!
//! - `args`: the description of a run and its checks.
//! - `executor`: what the transport returned for one request, and the
//!   outcome it resolves to.
//! - `failure`: whether a transport failure means the host ran out of file
//!   descriptors.
//! - `driver`: the batch driver that admits requests and collects outcomes.
//! - `result`: outcomes and their summary.

pub mod args;
pub mod driver;
pub mod executor;
pub mod failure;
pub mod result;
