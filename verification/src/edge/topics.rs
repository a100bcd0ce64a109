//! The names of the topics that messages are sent to.

use vstd::prelude::*;

use crate::edge::config::Config;
use crate::edge::strategies::SendStrategy;
use crate::text::{self, decimal, lemma_decimal_injective, without_chars};

verus! {

/// Whether `c` is dropped from a neighborhood name to make a topic name.
pub open spec fn is_dropped_char(c: char) -> bool {
    c == ' ' || c == '"'
}

/// The topic name for a neighborhood: the target topic, an underscore, and
/// the neighborhood's name without spaces and double quotes.
pub open spec fn topic_name(target_topic: Seq<char>, neighborhood: Seq<char>) -> Seq<char> {
    target_topic + "_"@ + without_chars(neighborhood, |c: char| is_dropped_char(c))
}

/// The topic names of the `NeighborhoodWise` strategy for `count`
/// neighborhoods: one per neighborhood, the target topic followed by the
/// neighborhood's number, counting from 1.
pub open spec fn neighborhood_wise_topics(target_topic: Seq<char>, count: nat) -> Seq<Seq<char>> {
    Seq::new(count, |i: int| target_topic + decimal((i + 1) as nat))
}

/// The topic name for the neighborhood `neighborhood`.
pub fn get_topic_name_from_neighborhood_name(config: &Config, neighborhood: &str) -> (r: String)
    ensures
        r@ == topic_name(config.data_out.target_topic@, neighborhood@),
{
    let name = text::without_spaces_and_quotes(neighborhood);
    let r = text::concat(config.data_out.target_topic.as_str(), "_");
    let r = text::concat(r.as_str(), name.as_str());
    assert((|c: char| c == ' ' || c == '"') == (|c: char| is_dropped_char(c)));
    r
}

/// The topic names to use with the `NeighborhoodWise` strategy, for
/// `neighborhood_count` neighborhoods (the features of the neighborhoods
/// file): the target topic followed by 1, 2, and so on.
pub fn get_topics_names_for_neigborhood_wise_strategy(
    config: &Config,
    neighborhood_count: usize,
) -> (r: Vec<String>)
    requires
        neighborhood_count < usize::MAX,
    ensures
        r@.map_values(|s: String| s@) == neighborhood_wise_topics(
            config.data_out.target_topic@,
            neighborhood_count as nat,
        ),
{
    let ghost target = config.data_out.target_topic@;
    let mut res: Vec<String> = Vec::new();
    for i in 0..neighborhood_count
        invariant
            target == config.data_out.target_topic@,
            neighborhood_count < usize::MAX,
            res@.map_values(|s: String| s@) == neighborhood_wise_topics(target, i as nat),
    {
        let number = text::decimal_string((i + 1) as u64);
        let name = text::concat(config.data_out.target_topic.as_str(), number.as_str());
        let ghost before = res@;
        res.push(name);
        assert(res@.map_values(|s: String| s@) =~= before.map_values(|s: String| s@).push(
            target + decimal((i + 1) as nat),
        ));
        assert(res@.map_values(|s: String| s@) =~= neighborhood_wise_topics(target, (i + 1) as nat));
    }
    res
}

/// The topics to send to, one per neighborhood: the `NeighborhoodWise`
/// names, or else the target topic for each neighborhood.
pub fn get_topics_names(config: &Config, neighborhood_count: usize, strategy: SendStrategy) -> (r:
    Vec<String>)
    requires
        neighborhood_count < usize::MAX,
    ensures
        strategy == SendStrategy::NeighborhoodWise ==> r@.map_values(|s: String| s@)
            == neighborhood_wise_topics(config.data_out.target_topic@, neighborhood_count as nat),
        strategy != SendStrategy::NeighborhoodWise ==> r@.map_values(|s: String| s@) == Seq::new(
            neighborhood_count as nat,
            |i: int| config.data_out.target_topic@,
        ),
{
    match strategy {
        SendStrategy::NeighborhoodWise => {
            get_topics_names_for_neigborhood_wise_strategy(config, neighborhood_count)
        },
        _ => {
            let mut res: Vec<String> = Vec::new();
            for i in 0..neighborhood_count
                invariant
                    res@.map_values(|s: String| s@) == Seq::new(
                        i as nat,
                        |k: int| config.data_out.target_topic@,
                    ),
            {
                let ghost before = res@;
                res.push(config.data_out.target_topic.clone());
                assert(res@.map_values(|s: String| s@) =~= before.map_values(|s: String| s@).push(
                    config.data_out.target_topic@,
                ));
                assert(res@.map_values(|s: String| s@) =~= Seq::new(
                    (i + 1) as nat,
                    |k: int| config.data_out.target_topic@,
                ));
            }
            res
        },
    }
}

/// The send strategy to use: the one the command line names, if any (which
/// may name none), else the configured one.
pub fn send_strategy_to_use(override_send_strategy: &Option<String>, config: &Config) -> (r:
    Option<SendStrategy>)
    ensures
        match override_send_strategy {
            Some(s) => r == crate::edge::strategies::send_strategy_named(text::lowercase(s@)),
            None => r == Some(config.data_out.send_strategy),
        },
{
    match override_send_strategy {
        Some(strategy) => SendStrategy::parse_send_strategy(strategy.as_str()),
        None => Some(config.data_out.send_strategy),
    }
}

/// The `NeighborhoodWise` strategy gives each neighborhood a topic of its
/// own: for `count` neighborhoods there are `count` topic names, all
/// different, each made of the target topic and a number.
pub proof fn lemma_neighborhood_wise_topics_distinct(target_topic: Seq<char>, count: nat)
    ensures
        neighborhood_wise_topics(target_topic, count).len() == count,
        forall|i: int|
            0 <= i < count ==> #[trigger] neighborhood_wise_topics(target_topic, count)[i].take(
                target_topic.len() as int,
            ) == target_topic,
        forall|i: int, j: int|
            0 <= i < j < count ==> neighborhood_wise_topics(target_topic, count)[i]
                != neighborhood_wise_topics(target_topic, count)[j],
{
    let topics = neighborhood_wise_topics(target_topic, count);
    assert forall|i: int| 0 <= i < count implies #[trigger] topics[i].take(
        target_topic.len() as int,
    ) == target_topic by {
        assert(topics[i].take(target_topic.len() as int) =~= target_topic);
    }
    assert forall|i: int, j: int| 0 <= i < j < count implies topics[i] != topics[j] by {
        if topics[i] == topics[j] {
            assert(decimal((i + 1) as nat) == topics[i].skip(target_topic.len() as int));
            assert(decimal((j + 1) as nat) == topics[j].skip(target_topic.len() as int));
            lemma_decimal_injective((i + 1) as nat, (j + 1) as nat);
        }
    }
}

} // verus!
