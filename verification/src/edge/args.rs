//! The edge producer's subcommands and their arguments.

use vstd::prelude::*;

verus! {

/// The subcommands.
pub enum Commands {
    /// Manage topics.
    Topic(Topic),
    /// Create or edit the configuration.
    EditConfig(EditConfig),
}

/// The `topic` subcommand.
pub struct Topic {
    pub subcommands: TopicCommands,
}

/// What to do with a topic.
pub enum TopicCommands {
    Create(TopicCreateArgs),
    Delete(TopicDeleteArgs),
}

/// The `config` subcommand.
pub struct EditConfig {
    pub subcommands: EditConfigCommands,
}

/// The arguments of `topic create`.
pub struct TopicCreateArgs {
    /// The topic to create (`out` only is supported).
    pub topic: String,
    /// The topic's replication factor (the command line refuses zero).
    pub replication_factor: u32,
    /// The number of partitions of the topic.
    pub partitions: String,
    /// Whether to create one topic per neighborhood, for the
    /// `NeighborhoodWise` strategy.
    pub for_neighborhoodwise_strategy: bool,
    /// The GeoJSON file of the neighborhoods, in place of the one the
    /// configuration names.
    pub neighborhood_file: Option<String>,
}

/// The arguments of `topic delete`.
pub struct TopicDeleteArgs {
    /// The topic to delete (`out` only is supported).
    pub topic: String,
}

/// What to do with the configuration.
pub enum EditConfigCommands {
    /// Creates a default configuration file, or overwrites an existing one.
    Create(CreateConfig),
    /// Replaces the configuration file with another one.
    Replace(ReplaceConfig),
    /// Shows the current configuration, if any.
    Show,
}

/// The arguments of `config replace`.
pub struct ReplaceConfig {
    /// The file that replaces the current configuration.
    pub file: String,
}

/// The arguments of `config create`.
pub struct CreateConfig {
    pub source_topic: Option<String>,
    pub target_topic: Option<String>,
}

} // verus!
