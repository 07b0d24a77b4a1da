//! Release control plane: lifecycle rules, metric-gate policies and the
//! decisions of the release service.
pub mod text;
pub mod json;
pub mod domain;
pub mod config;
pub mod orchestration;
pub mod repository;
pub mod application;
pub mod api;
