//! The producer's subcommands and their arguments.

use vstd::prelude::*;

verus! {

/// The command line: a subcommand, or none to run the producer.
pub struct CliArgs {
    pub subcommands: Option<Commands>,
}

/// The subcommands.
pub enum Commands {
    /// Delete the topic of the configuration file, if it exists.
    DeleteTopic,
    /// Edit the configuration.
    EditConfig(EditConfig),
}

/// The `edit_config` subcommand.
pub struct EditConfig {
    pub subcommands: EditConfigCommands,
}

/// What to do with the configuration.
pub enum EditConfigCommands {
    /// Creates a default configuration file, or overwrites an existing one.
    Create,
    /// Replaces the configuration file with another one.
    Replace(ReplaceConfig),
}

/// The arguments of `edit_config replace`.
pub struct ReplaceConfig {
    /// The file that replaces the current configuration.
    pub file: String,
}

} // verus!
