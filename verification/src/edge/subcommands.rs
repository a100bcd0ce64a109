//! What the edge producer's subcommands compute: the configuration
//! template, the topics to create, and the commands that create them.

use vstd::prelude::*;

use crate::config::utils::string_views;
use crate::edge::args::{CreateConfig, TopicCreateArgs};
use crate::edge::config::Config;
use crate::edge::topics::{get_topics_names_for_neigborhood_wise_strategy, neighborhood_wise_topics};
use crate::edge::constants::{
    DEFAULT_PARTITION_TO_READ, DEFAULT_SAMPLING_STRATEGY, DEFAULT_SEND_EVERY_MS, DEFAULT_SEND_STRATEGY, DEFAULT_SOURCE_TOPIC,
    DEFAULT_TARGET_TOPIC, TOML_CONFIG_TEMPLATE,
};
use crate::text::{self, decimal, joined, lowercase, replaced};

verus! {

/// The value of an optional argument, or its default.
pub open spec fn or_default(arg: Option<String>, default: Seq<char>) -> Seq<char> {
    match arg {
        Some(s) => s@,
        None => default,
    }
}

/// The configuration template filled in with the given topics and the
/// defaults, placeholder after placeholder: a configuration reset to the
/// default settings.
pub open spec fn filled_template(source_topic: Seq<char>, target_topic: Seq<char>) -> Seq<char> {
    replaced(
        replaced(
            replaced(
                replaced(
                    replaced(
                        replaced(TOML_CONFIG_TEMPLATE@, "{SOURCE_TOPIC}"@, source_topic),
                        "{PARTITION_TO_READ}"@,
                        decimal(DEFAULT_PARTITION_TO_READ as nat),
                    ),
                    "{TARGET_TOPIC}"@,
                    target_topic,
                ),
                "{SEND_EVERY_MS}"@,
                decimal(DEFAULT_SEND_EVERY_MS as nat),
            ),
            "{SEND_STRATEGY}"@,
            DEFAULT_SEND_STRATEGY@,
        ),
        "{SAMPLING_STRATEGY}"@,
        DEFAULT_SAMPLING_STRATEGY@,
    )
}

fn value_or(arg: &Option<String>, default: &str) -> (r: String)
    ensures
        r@ == or_default(*arg, default@),
{
    match arg {
        Some(s) => s.clone(),
        None => text::owned(default),
    }
}

/// The text of the configuration file that `config create` writes: the
/// template with the given (or default) topics and the default settings.
pub fn config_template(args: &CreateConfig) -> (r: String)
    ensures
        r@ == filled_template(
            or_default(args.source_topic, DEFAULT_SOURCE_TOPIC@),
            or_default(args.target_topic, DEFAULT_TARGET_TOPIC@),
        ),
{
    let source_topic = value_or(&args.source_topic, DEFAULT_SOURCE_TOPIC);
    let target_topic = value_or(&args.target_topic, DEFAULT_TARGET_TOPIC);
    let send_every_ms = text::decimal_string(DEFAULT_SEND_EVERY_MS);
    proof {
        reveal_strlit("{SOURCE_TOPIC}");
        reveal_strlit("{PARTITION_TO_READ}");
        reveal_strlit("{TARGET_TOPIC}");
        reveal_strlit("{SEND_EVERY_MS}");
        reveal_strlit("{SEND_STRATEGY}");
        reveal_strlit("{SAMPLING_STRATEGY}");
    }
    let partition = text::decimal_string(DEFAULT_PARTITION_TO_READ as u64);
    let t = text::replace_all(TOML_CONFIG_TEMPLATE, "{SOURCE_TOPIC}", source_topic.as_str());
    let t = text::replace_all(t.as_str(), "{PARTITION_TO_READ}", partition.as_str());
    let t = text::replace_all(t.as_str(), "{TARGET_TOPIC}", target_topic.as_str());
    let t = text::replace_all(t.as_str(), "{SEND_EVERY_MS}", send_every_ms.as_str());
    let t = text::replace_all(t.as_str(), "{SEND_STRATEGY}", DEFAULT_SEND_STRATEGY);
    text::replace_all(t.as_str(), "{SAMPLING_STRATEGY}", DEFAULT_SAMPLING_STRATEGY)
}

/// The hosts, separated by commas.
pub fn join_by_comma(hosts: &Vec<String>) -> (r: String)
    ensures
        r@ == joined(string_views(hosts@), ","@),
{
    text::join(hosts, ",")
}

/// Whether `topic` is among the topic names `names`.
pub fn topic_exists(names: &Vec<String>, topic: &String) -> (r: bool)
    ensures
        r == string_views(names@).contains(topic@),
{
    let ghost views = string_views(names@);
    for i in 0..names.len()
        invariant
            views == string_views(names@),
            forall|k: int| 0 <= k < i ==> views[k] != topic@,
    {
        if names[i] == *topic {
            assert(views[i as int] == topic@);
            return true;
        }
    }
    false
}

/// The topic that `topic create` is asked to create: the configured target
/// topic for `out` (in any case); any other name is not supported.
pub fn topic_to_create(config: &Config, args: &TopicCreateArgs) -> (r: Result<String, String>)
    ensures
        lowercase(args.topic@) == "out"@ ==> (r matches Ok(t) && t@ == config.data_out.target_topic@),
        lowercase(args.topic@) != "out"@ ==> (r matches Err(m) && m@ == "unsupported"@),
{
    let name = text::to_lowercase(args.topic.as_str());
    if text::same_text(name.as_str(), "out") {
        Ok(config.data_out.target_topic.clone())
    } else {
        Err(text::owned("unsupported"))
    }
}

/// Checks that the topics for the `NeighborhoodWise` strategy are asked for
/// the `out` topic (in any case).
pub fn check_neighborhood_wise_topic(args: &TopicCreateArgs) -> (r: Result<(), String>)
    ensures
        r is Ok <==> lowercase(args.topic@) == "out"@,
        r matches Err(m) ==> m@ == "Option --for-nbw-strat unsupported for non out topic."@,
{
    let name = text::to_lowercase(args.topic.as_str());
    if text::same_text(name.as_str(), "out") {
        Ok(())
    } else {
        Err(text::owned("Option --for-nbw-strat unsupported for non out topic."))
    }
}

/// The topics that `topic create` creates, or why it creates none: for
/// `out` (in any case) with `--for-nbw-strat`, one topic per neighborhood
/// for the `NeighborhoodWise` strategy; for `out` without it, the target
/// topic unless it exists already. Any other topic is not supported.
pub open spec fn topics_to_create(
    target_topic: Seq<char>,
    topic: Seq<char>,
    for_neighborhoodwise_strategy: bool,
    existing_topics: Seq<Seq<char>>,
    neighborhood_count: nat,
) -> Result<Seq<Seq<char>>, Seq<char>> {
    if lowercase(topic) != "out"@ {
        if for_neighborhoodwise_strategy {
            Err("Option --for-nbw-strat unsupported for non out topic."@)
        } else {
            Err("unsupported"@)
        }
    } else if for_neighborhoodwise_strategy {
        Ok(neighborhood_wise_topics(target_topic, neighborhood_count))
    } else if existing_topics.contains(target_topic) {
        Ok(Seq::empty())
    } else {
        Ok(seq![target_topic])
    }
}

/// The topics that `topic create` creates, given the topics that exist
/// already and the number of neighborhoods of the neighborhoods file.
pub fn topic_create_plan(
    config: &Config,
    args: &TopicCreateArgs,
    existing_topics: &Vec<String>,
    neighborhood_count: usize,
) -> (r: Result<Vec<String>, String>)
    requires
        neighborhood_count < usize::MAX,
    ensures
        match r {
            Ok(v) => topics_to_create(
                config.data_out.target_topic@,
                args.topic@,
                args.for_neighborhoodwise_strategy,
                string_views(existing_topics@),
                neighborhood_count as nat,
            ) == Ok::<Seq<Seq<char>>, Seq<char>>(string_views(v@)),
            Err(m) => topics_to_create(
                config.data_out.target_topic@,
                args.topic@,
                args.for_neighborhoodwise_strategy,
                string_views(existing_topics@),
                neighborhood_count as nat,
            ) == Err::<Seq<Seq<char>>, Seq<char>>(m@),
        },
{
    if args.for_neighborhoodwise_strategy {
        check_neighborhood_wise_topic(args)?;
        let names = get_topics_names_for_neigborhood_wise_strategy(config, neighborhood_count);
        assert(string_views(names@) =~= names@.map_values(|s: String| s@));
        Ok(names)
    } else {
        let topic = topic_to_create(config, args)?;
        let mut r: Vec<String> = Vec::new();
        if !topic_exists(existing_topics, &topic) {
            r.push(topic);
        }
        assert(string_views(r@) =~= if string_views(existing_topics@).contains(
            config.data_out.target_topic@,
        ) {
            Seq::<Seq<char>>::empty()
        } else {
            seq![config.data_out.target_topic@]
        });
        Ok(r)
    }
}

/// The neighborhoods file to read: the one given on the command line, or
/// else the one that the configuration, if there is one, names.
pub fn neighborhoods_file_choice(given: &Option<String>, config: Option<&Config>) -> (r: Option<
    String,
>)
    ensures
        given is Some ==> (r matches Some(f) && f@ == given.unwrap()@),
        given is None && config is Some ==> {
            &&& r is Some <==> config.unwrap().data_out.neighborhoods_file is Some
            &&& r matches Some(f) ==> f@ == config.unwrap().data_out.neighborhoods_file.unwrap()@
        },
        given is None && config is None ==> r is None,
{
    match given {
        Some(f) => Some(f.clone()),
        None => match config {
            Some(c) => match &c.data_out.neighborhoods_file {
                Some(f) => Some(f.clone()),
                None => None,
            },
            None => None,
        },
    }
}

/// The arguments of `kafka-topics.sh` that create `topic` on the brokers
/// `brokers` (given as one string) with the given partitions and
/// replication factor.
pub fn create_topic_args(topic: &str, brokers: &str, partitions: &str, replication_factor: u32) -> (r:
    Vec<String>)
    ensures
        string_views(r@) == seq![
            "--create"@,
            "--topic"@,
            topic@,
            "--bootstrap-server"@,
            brokers@,
            "--partitions"@,
            partitions@,
            "--replication-factor"@,
            decimal(replication_factor as nat),
        ],
{
    let mut r: Vec<String> = Vec::new();
    r.push(text::owned("--create"));
    r.push(text::owned("--topic"));
    r.push(text::owned(topic));
    r.push(text::owned("--bootstrap-server"));
    r.push(text::owned(brokers));
    r.push(text::owned("--partitions"));
    r.push(text::owned(partitions));
    r.push(text::owned("--replication-factor"));
    r.push(text::decimal_string(replication_factor as u64));
    assert(string_views(r@) =~= seq![
        "--create"@,
        "--topic"@,
        topic@,
        "--bootstrap-server"@,
        brokers@,
        "--partitions"@,
        partitions@,
        "--replication-factor"@,
        decimal(replication_factor as nat),
    ]);
    r
}

} // verus!
