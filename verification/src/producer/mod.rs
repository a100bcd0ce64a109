//! The CSV producer: reads records from a CSV file and sends them, chunk by
//! chunk, to a Kafka topic, as its TOML configuration says.

pub mod args;
pub mod config;
pub mod messages;
pub mod schedule;
pub mod subcommands;
