//! How messages are sampled and to which partitions and topics they are sent.

use vstd::prelude::*;

use crate::text;

verus! {

/// The possible strategies to send messages to Kafka partitions.
#[derive(Debug, Clone, Copy, PartialEq, Eq, Structural)]
pub enum SendStrategy {
    /// Send messages to a random partition.
    Random,
    /// Send messages to partitions in a round-robin fashion.
    RoundRobin,
    /// Send each message to the topic assigned to its neighborhood: one
    /// topic per neighborhood read from the neighborhoods file, named by
    /// the `target_topic` of the configuration followed by the
    /// neighborhood's number, counting from 1 (`dataout-1`, `dataout-2`,
    /// ... for `target_topic = "dataout-"`). Each topic only receives the
    /// messages of its neighborhood: those that fall in no neighborhood are
    /// not sent.
    NeighborhoodWise,
}

/// The possible strategies to sample messages.
#[derive(Debug, Clone, Copy, PartialEq, Eq, Structural)]
pub enum SamplingStrategy {
    /// Sample messages randomly.
    Random,
    /// Sample messages using stratified sampling, by geohash.
    Stratified,
}

/// The send strategy that a lowercase name designates.
pub open spec fn send_strategy_named(name: Seq<char>) -> Option<SendStrategy> {
    if name == "random"@ {
        Some(SendStrategy::Random)
    } else if name == "roundrobin"@ {
        Some(SendStrategy::RoundRobin)
    } else if name == "neighborhoodwise"@ {
        Some(SendStrategy::NeighborhoodWise)
    } else {
        None
    }
}

/// The sampling strategy that a lowercase name designates.
pub open spec fn sampling_strategy_named(name: Seq<char>) -> Option<SamplingStrategy> {
    if name == "random"@ {
        Some(SamplingStrategy::Random)
    } else if name == "stratified"@ {
        Some(SamplingStrategy::Stratified)
    } else {
        None
    }
}

impl SendStrategy {
    /// The strategy that an already lowercased name designates.
    pub fn from_lowercase_name(name: &str) -> (r: Option<SendStrategy>)
        ensures
            r == send_strategy_named(name@),
    {
        if text::same_text(name, "random") {
            Some(SendStrategy::Random)
        } else if text::same_text(name, "roundrobin") {
            Some(SendStrategy::RoundRobin)
        } else if text::same_text(name, "neighborhoodwise") {
            Some(SendStrategy::NeighborhoodWise)
        } else {
            None
        }
    }

    /// Tries to parse the given strategy name, in any case, to a `SendStrategy`.
    pub fn parse_send_strategy(strategy: &str) -> (r: Option<SendStrategy>)
        ensures
            r == send_strategy_named(text::lowercase(strategy@)),
    {
        let name = text::to_lowercase(strategy);
        SendStrategy::from_lowercase_name(name.as_str())
    }
}

impl SamplingStrategy {
    /// The strategy that an already lowercased name designates.
    pub fn from_lowercase_name(name: &str) -> (r: Option<SamplingStrategy>)
        ensures
            r == sampling_strategy_named(name@),
    {
        if text::same_text(name, "random") {
            Some(SamplingStrategy::Random)
        } else if text::same_text(name, "stratified") {
            Some(SamplingStrategy::Stratified)
        } else {
            None
        }
    }

    /// Tries to parse the given strategy name, in any case, to a `SamplingStrategy`.
    pub fn _parse_sampling_strategy(strategy: &str) -> (r: Option<SamplingStrategy>)
        ensures
            r == sampling_strategy_named(text::lowercase(strategy@)),
    {
        let name = text::to_lowercase(strategy);
        SamplingStrategy::from_lowercase_name(name.as_str())
    }
}

} // verus!
