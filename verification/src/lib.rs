//! Deterministic daily scheduling and override control for named outputs.
//!
//! The crate models a small environmental-control unit: each named output is
//! driven through a pin according to a set of daily time windows, a network
//! caller may layer temporary overrides above that schedule, and a fail-safe
//! action can force every output to a de-energized state at any moment.

pub mod adapters;
pub mod concurrent;
pub mod domain;
pub mod errors;
pub mod http;
pub mod outputs;
pub mod sensors;
