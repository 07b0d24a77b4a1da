//! The release domain: lifecycle states, metric-gate policies, releases and
//! the errors their rules produce.
pub mod errors;
pub mod models;
pub mod policy;
pub mod states;
