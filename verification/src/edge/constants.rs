//! The edge producer's configuration template and defaults.

use vstd::prelude::*;

verus! {

/// The template of the configuration file that `config create` writes.
pub const TOML_CONFIG_TEMPLATE: &'static str = "[kafka]\nzookeeper = [ \"localhost:2181\" ]\nbrokers = [ \"localhost:9092\" ]\n\n[data_in]\nsource_topic = \"{SOURCE_TOPIC}\"\npartition_to_read = {PARTITION_TO_READ}\n\n[data_out]\ntarget_topic = \"{TARGET_TOPIC}\"\nsend_every_ms = {SEND_EVERY_MS}\nsend_strategy = \"{SEND_STRATEGY}\"\nsampling_strategy = \"{SAMPLING_STRATEGY}\"\n";

/// The name of the configuration file, placed next to the executable.
pub const TOML_FILE_NAME: &'static str = "producer_config.toml";

/// The topic the messages are read from, unless another is given.
pub const DEFAULT_SOURCE_TOPIC: &'static str = "datain";

/// The partition of the source topic that is read, unless another is given.
pub const DEFAULT_PARTITION_TO_READ: i32 = 0;

/// The topic the messages are sent to, unless another is given.
pub const DEFAULT_TARGET_TOPIC: &'static str = "dataout";

/// How often, in milliseconds, the gathered messages are sampled and sent.
pub const DEFAULT_SEND_EVERY_MS: u64 = 1000;

/// The send strategy written in a new configuration file.
pub const DEFAULT_SEND_STRATEGY: &'static str = "RoundRobin";

/// The sampling strategy written in a new configuration file.
pub const DEFAULT_SAMPLING_STRATEGY: &'static str = "Stratified";

} // verus!
