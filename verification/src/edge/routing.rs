//! Where each message goes: the topic and, for the strategies that pick
//! one, the partition.

use rand::Rng;
use vstd::prelude::*;

use crate::edge::strategies::SendStrategy;
use crate::edge::topics::neighborhood_wise_topics;
use crate::text::decimal;
use crate::config::utils::string_views;

verus! {

/// The destination of one message: a topic and, unless the topic's
/// partitioner is to decide, a partition.
#[derive(Debug, Clone)]
pub struct Route {
    pub topic: String,
    pub partition: Option<i32>,
}

/// The topic assigned to `key` in `pairs`: the first pair with that key.
pub open spec fn assigned(pairs: Seq<(Seq<char>, Seq<char>)>, key: Seq<char>) -> Option<Seq<char>>
    decreases pairs.len(),
{
    if pairs.len() == 0 {
        None
    } else if pairs[0].0 == key {
        Some(pairs[0].1)
    } else {
        assigned(pairs.drop_first(), key)
    }
}

/// The contents of a list of pairs of strings.
pub open spec fn pair_views(pairs: Seq<(String, String)>) -> Seq<(Seq<char>, Seq<char>)> {
    pairs.map_values(|p: (String, String)| (p.0@, p.1@))
}

/// The contents of a list of optional strings.
pub open spec fn option_views(v: Seq<Option<String>>) -> Seq<Option<Seq<char>>> {
    v.map_values(|o: Option<String>| match o {
        Some(s) => Some(s@),
        None => None,
    })
}

/// The `NeighborhoodWise` topic of a message: the one assigned to its
/// neighborhood. A message of no neighborhood has none: each topic only
/// receives the messages of its own neighborhood.
pub open spec fn neighborhood_topic(
    neighborhood: Option<Seq<char>>,
    pairs: Seq<(Seq<char>, Seq<char>)>,
) -> Option<Seq<char>> {
    match neighborhood {
        Some(n) => assigned(pairs, n),
        None => None,
    }
}

/// The round-robin partition of the message at `index`.
pub open spec fn round_robin_partition(index: int, partitions: i32) -> i32 {
    ((index as usize) % (partitions as usize)) as i32
}

/// Whether the messages can be routed: `NeighborhoodWise` needs a topic for
/// the neighborhood of every message that has one; the other strategies
/// need a first topic and, when there are messages, partitions to pick
/// from.
pub open spec fn routable(
    strategy: SendStrategy,
    neighborhoods: Seq<Option<Seq<char>>>,
    topics: Seq<Seq<char>>,
    partitions: i32,
    pairs: Seq<(Seq<char>, Seq<char>)>,
) -> bool {
    match strategy {
        SendStrategy::NeighborhoodWise => forall|i: int|
            0 <= i < neighborhoods.len() && neighborhoods[i] is Some ==> #[trigger] neighborhood_topic(
                neighborhoods[i],
                pairs,
            ) is Some,
        SendStrategy::RoundRobin => topics.len() > 0 && (neighborhoods.len() > 0 ==> partitions
            != 0),
        SendStrategy::Random => topics.len() > 0 && (neighborhoods.len() > 0 ==> partitions > 0),
    }
}

/// Whether `route` is where `strategy` sends the message at `index`, `None`
/// for a message that is not sent: under `NeighborhoodWise`, a message of
/// no neighborhood.
pub open spec fn routed(
    strategy: SendStrategy,
    index: int,
    neighborhood: Option<Seq<char>>,
    topics: Seq<Seq<char>>,
    partitions: i32,
    pairs: Seq<(Seq<char>, Seq<char>)>,
    route: Option<Route>,
) -> bool {
    match strategy {
        SendStrategy::NeighborhoodWise => match neighborhood_topic(neighborhood, pairs) {
            Some(t) => route matches Some(rt) && rt.topic@ == t && rt.partition is None,
            None => route is None,
        },
        SendStrategy::RoundRobin => {
            &&& route matches Some(rt) && rt.topic@ == topics[0]
                && rt.partition == Some(round_robin_partition(index, partitions))
        },
        SendStrategy::Random => {
            &&& route matches Some(rt) && rt.topic@ == topics[0] && (rt.partition matches Some(p)
                && 0 <= p < partitions)
        },
    }
}

/// Whether `route` is where `strategy` sends the message at `index`, when
/// `draws` holds the partition drawn for each message under `Random`:
/// that message goes to the first topic and its drawn partition.
pub open spec fn routed_with_draws(
    strategy: SendStrategy,
    index: int,
    neighborhood: Option<Seq<char>>,
    topics: Seq<Seq<char>>,
    partitions: i32,
    pairs: Seq<(Seq<char>, Seq<char>)>,
    draws: Seq<i32>,
    route: Option<Route>,
) -> bool {
    match strategy {
        SendStrategy::Random => route matches Some(rt) && rt.topic@ == topics[0] && rt.partition
            == Some(draws[index]),
        _ => routed(strategy, index, neighborhood, topics, partitions, pairs, route),
    }
}

/// A partition picked at random among `0..partitions` with
/// `rand::thread_rng().gen_range`: the contract claims only that it lies in
/// that range.
#[verifier::external_body]
fn random_partition(partitions: i32) -> (r: i32)
    requires
        partitions > 0,
    ensures
        0 <= r < partitions,
{
    rand::thread_rng().gen_range(0..partitions)
}

/// Pairs each neighborhood name with the topic at the same position, as far
/// as both lists go.
pub fn neighborhood_topics(names: &Vec<String>, topics: &Vec<String>) -> (r: Vec<(String, String)>)
    ensures
        r.len() == if names.len() <= topics.len() {
            names.len()
        } else {
            topics.len()
        },
        forall|i: int| 0 <= i < r.len() ==> #[trigger] r[i].0@ == names[i]@ && r[i].1@ == topics[i]@,
{
    let mut r: Vec<(String, String)> = Vec::new();
    let mut i: usize = 0;
    while i < names.len() && i < topics.len()
        invariant
            i <= names.len(),
            i <= topics.len(),
            r.len() == i,
            forall|k: int| 0 <= k < r.len() ==> #[trigger] r[k].0@ == names[k]@ && r[k].1@ == topics[k]@,
        decreases names.len() - i,
    {
        r.push((names[i].clone(), topics[i].clone()));
        i = i + 1;
    }
    r
}

/// The topic assigned to `key` in `pairs`.
pub fn assigned_topic<'a>(pairs: &'a Vec<(String, String)>, key: &String) -> (r: Option<&'a String>)
    ensures
        match r {
            Some(t) => assigned(pair_views(pairs@), key@) == Some(t@),
            None => assigned(pair_views(pairs@), key@) is None,
        },
{
    let ghost ps = pair_views(pairs@);
    assert(ps.skip(0) =~= ps);
    let mut i: usize = 0;
    while i < pairs.len()
        invariant
            i <= pairs.len(),
            ps == pair_views(pairs@),
            assigned(ps, key@) == assigned(ps.skip(i as int), key@),
        decreases pairs.len() - i,
    {
        let ghost rest = ps.skip(i as int);
        assert(rest[0] == (pairs[i as int].0@, pairs[i as int].1@));
        if pairs[i].0 == *key {
            return Some(&pairs[i].1);
        }
        assert(rest.drop_first() =~= ps.skip(i + 1));
        i = i + 1;
    }
    None
}

/// With a positive number of partitions, round-robin sends the message at
/// `index` to partition `index % partitions`, which is one of the topic's.
pub proof fn lemma_round_robin_partition(index: int, partitions: i32)
    requires
        0 <= index <= usize::MAX,
        partitions > 0,
    ensures
        round_robin_partition(index, partitions) == index % (partitions as int),
        0 <= round_robin_partition(index, partitions) < partitions,
{
    assert((index as usize) as int == index);
    assert((partitions as usize) as int == partitions as int);
}

/// Among pairs whose keys are all different, the topic assigned to the key
/// at position `i` is the topic at that position.
pub proof fn lemma_assigned_at(pairs: Seq<(Seq<char>, Seq<char>)>, i: int)
    requires
        0 <= i < pairs.len(),
        forall|a: int, b: int|
            #![trigger pairs[a], pairs[b]]
            0 <= a < b < pairs.len() ==> pairs[a].0 != pairs[b].0,
    ensures
        assigned(pairs, pairs[i].0) == Some(pairs[i].1),
    decreases i,
{
    if i > 0 {
        let rest = pairs.drop_first();
        assert(pairs[0].0 != pairs[i].0);
        assert(rest[i - 1] == pairs[i]);
        assert forall|a: int, b: int|
            #![trigger rest[a], rest[b]]
            0 <= a < b < rest.len() implies rest[a].0 != rest[b].0 by {
            assert(rest[a] == pairs[a + 1]);
            assert(rest[b] == pairs[b + 1]);
        }
        lemma_assigned_at(rest, i - 1);
    }
}

/// The `NeighborhoodWise` strategy sends the messages of each neighborhood
/// to a topic of its own: with the topics for `count` neighborhoods paired,
/// in order, with the names of at most `count` different neighborhoods, the
/// messages of the neighborhood at position `i` go to the target topic
/// followed by `i + 1`.
pub proof fn lemma_neighborhood_wise_routes(
    target_topic: Seq<char>,
    count: nat,
    names: Seq<Seq<char>>,
    pairs: Seq<(Seq<char>, Seq<char>)>,
)
    requires
        names.len() <= count,
        forall|a: int, b: int|
            #![trigger names[a], names[b]]
            0 <= a < b < names.len() ==> names[a] != names[b],
        pairs.len() == names.len(),
        forall|k: int|
            0 <= k < pairs.len() ==> #[trigger] pairs[k] == (
                names[k],
                neighborhood_wise_topics(target_topic, count)[k],
            ),
    ensures
        forall|i: int|
            0 <= i < names.len() ==> #[trigger] neighborhood_topic(Some(names[i]), pairs) == Some(
                target_topic + decimal((i + 1) as nat),
            ),
{
    let topics = neighborhood_wise_topics(target_topic, count);
    assert forall|a: int, b: int|
        #![trigger pairs[a], pairs[b]]
        0 <= a < b < pairs.len() implies pairs[a].0 != pairs[b].0 by {
        assert(pairs[a].0 == names[a]);
        assert(pairs[b].0 == names[b]);
    }
    assert forall|i: int| 0 <= i < names.len() implies #[trigger] neighborhood_topic(
        Some(names[i]),
        pairs,
    ) == Some(target_topic + decimal((i + 1) as nat)) by {
        lemma_assigned_at(pairs, i);
        assert(pairs[i] == (names[i], topics[i]));
    }
}

impl SendStrategy {
    /// Where each message is sent, given the neighborhood of each message,
    /// the topics to choose among, the number of partitions of the first
    /// topic and, for the `Random` strategy, the partition drawn for each
    /// message; `None` for a message that is not sent.
    pub fn routes_for_draws(
        self,
        neighborhoods: &Vec<Option<String>>,
        topics: &Vec<String>,
        partitions: i32,
        neighborhood_topics: &Vec<(String, String)>,
        draws: &Vec<i32>,
    ) -> (r: Vec<Option<Route>>)
        requires
            routable(
                self,
                option_views(neighborhoods@),
                string_views(topics@),
                partitions,
                pair_views(neighborhood_topics@),
            ),
            self == SendStrategy::Random ==> draws.len() == neighborhoods.len(),
        ensures
            r.len() == neighborhoods.len(),
            forall|i: int|
                0 <= i < r.len() ==> #[trigger] routed_with_draws(
                    self,
                    i,
                    option_views(neighborhoods@)[i],
                    string_views(topics@),
                    partitions,
                    pair_views(neighborhood_topics@),
                    draws@,
                    r[i],
                ),
    {
        let ghost ns = option_views(neighborhoods@);
        let ghost ts = string_views(topics@);
        let ghost ps = pair_views(neighborhood_topics@);
        let mut r: Vec<Option<Route>> = Vec::new();
        for i in 0..neighborhoods.len()
            invariant
                ns == option_views(neighborhoods@),
                ts == string_views(topics@),
                ps == pair_views(neighborhood_topics@),
                routable(self, ns, ts, partitions, ps),
                self == SendStrategy::Random ==> draws.len() == neighborhoods.len(),
                r.len() == i,
                forall|k: int|
                    0 <= k < i ==> #[trigger] routed_with_draws(
                        self,
                        k,
                        ns[k],
                        ts,
                        partitions,
                        ps,
                        draws@,
                        r[k],
                    ),
        {
            let route = match self {
                SendStrategy::NeighborhoodWise => {
                    match &neighborhoods[i] {
                        Some(n) => {
                            assert(neighborhood_topic(ns[i as int], ps) is Some);
                            let topic = assigned_topic(neighborhood_topics, n).unwrap().clone();
                            Some(Route { topic, partition: None })
                        },
                        None => None,
                    }
                },
                SendStrategy::RoundRobin => {
                    assert(partitions as usize != 0) by (bit_vector)
                        requires
                            partitions != 0,
                    ;
                    let partition = (i % (partitions as usize)) as i32;
                    Some(Route { topic: topics[0].clone(), partition: Some(partition) })
                },
                SendStrategy::Random => {
                    Some(Route { topic: topics[0].clone(), partition: Some(draws[i]) })
                },
            };
            r.push(route);
        }
        r
    }

    /// Where each message is sent, given the neighborhood of each message,
    /// the topics to choose among and the number of partitions of the first
    /// topic; `None` for a message that is not sent. Only the first topic is
    /// used by all strategies but `NeighborhoodWise`, which ignores the
    /// partitions and sends a message only to the topic of its
    /// neighborhood, if it has one. For `Random`, a partition is drawn for
    /// each message in turn.
    pub fn plan_sends(
        self,
        neighborhoods: &Vec<Option<String>>,
        topics: &Vec<String>,
        partitions: i32,
        neighborhood_topics: &Vec<(String, String)>,
    ) -> (r: Vec<Option<Route>>)
        requires
            routable(
                self,
                option_views(neighborhoods@),
                string_views(topics@),
                partitions,
                pair_views(neighborhood_topics@),
            ),
        ensures
            r.len() == neighborhoods.len(),
            forall|i: int|
                0 <= i < r.len() ==> #[trigger] routed(
                    self,
                    i,
                    option_views(neighborhoods@)[i],
                    string_views(topics@),
                    partitions,
                    pair_views(neighborhood_topics@),
                    r[i],
                ),
    {
        let mut draws: Vec<i32> = Vec::new();
        if self == SendStrategy::Random {
            for i in 0..neighborhoods.len()
                invariant
                    neighborhoods.len() > 0 ==> partitions > 0,
                    draws.len() == i,
                    forall|k: int| 0 <= k < i ==> 0 <= #[trigger] draws[k] < partitions,
            {
                draws.push(random_partition(partitions));
            }
        }
        let r = self.routes_for_draws(neighborhoods, topics, partitions, neighborhood_topics, &draws);
        assert forall|i: int| 0 <= i < r.len() implies #[trigger] routed(
            self,
            i,
            option_views(neighborhoods@)[i],
            string_views(topics@),
            partitions,
            pair_views(neighborhood_topics@),
            r[i],
        ) by {
            assert(routed_with_draws(
                self,
                i,
                option_views(neighborhoods@)[i],
                string_views(topics@),
                partitions,
                pair_views(neighborhood_topics@),
                draws@,
                r[i],
            ));
            if self == SendStrategy::Random {
                assert(0 <= draws[i] < partitions);
            }
        }
        r
    }
}

} // verus!
