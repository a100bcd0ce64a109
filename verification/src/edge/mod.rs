//! The edge producer: reads messages from a Kafka IN topic, samples them and
//! sends them on to one or more Kafka OUT topics, as its TOML configuration
//! says.

pub mod args;
pub mod config;
pub mod constants;
pub mod csv_producer;
pub mod geospatial;
pub mod message;
pub mod routing;
pub mod sampling;
pub mod strategies;
pub mod subcommands;
pub mod topics;
