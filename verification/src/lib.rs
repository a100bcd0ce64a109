//! Verified core of the edge analytics Kafka tools: configuration parsing,
//! topic naming, message routing and sampling plans.

pub mod config;
pub mod edge;
pub mod producer;
pub mod text;
pub mod toml_model;
