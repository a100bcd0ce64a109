use edge_approximate::edge::config::{Config, DataIn, DataOut, Kafka};
use edge_approximate::edge::geospatial::{children, CoveringSearch, BASE_32};
use edge_approximate::edge::routing::neighborhood_topics;
use edge_approximate::edge::strategies::{SamplingStrategy, SendStrategy};
use edge_approximate::edge::subcommands::{
    check_neighborhood_wise_topic, create_topic_args, join_by_comma, neighborhoods_file_choice,
    topic_create_plan, topic_exists,
    topic_to_create,
};
use edge_approximate::edge::args::TopicCreateArgs;
use edge_approximate::edge::topics::{
    get_topic_name_from_neighborhood_name, get_topics_names,
    get_topics_names_for_neigborhood_wise_strategy, send_strategy_to_use,
};
use edge_approximate::text::{decimal_string, join, replace_all, without_spaces_and_quotes};

fn config(target: &str) -> Config {
    Config {
        kafka: Kafka {
            zookeeper: vec!["zk:2181".to_string()],
            brokers: vec!["b1:9092".to_string(), "b2:9092".to_string()],
        },
        data_in: DataIn {
            source_topic: "datain".to_string(),
            partition_to_read: 0,
        },
        data_out: DataOut {
            target_topic: target.to_string(),
            send_every_ms: 1000,
            send_strategy: SendStrategy::RoundRobin,
            sampling_strategy: SamplingStrategy::Stratified,
            neighborhoods_file: None,
        },
    }
}

fn create_args(topic: &str) -> TopicCreateArgs {
    TopicCreateArgs {
        topic: topic.to_string(),
        replication_factor: 3,
        partitions: "8".to_string(),
        for_neighborhoodwise_strategy: false,
        neighborhood_file: None,
    }
}

#[test]
fn decimal_rendering_matches_to_string() {
    for n in [0u64, 7, 10, 99, 100, 1234567890, u64::MAX] {
        assert_eq!(decimal_string(n), n.to_string());
    }
}

#[test]
fn replacement_is_left_to_right_and_non_overlapping() {
    assert_eq!(replace_all("aaaa", "aa", "b"), "bb");
    assert_eq!(replace_all("aaa", "aa", "b"), "ba");
    assert_eq!(replace_all("x{A}y{A}", "{A}", "zz"), "xzzyzz");
    assert_eq!(replace_all("nothing here", "{A}", "zz"), "nothing here");
    assert_eq!(replace_all("ééé", "é", "e"), "eee");
}

#[test]
fn spaces_and_quotes_are_removed() {
    assert_eq!(without_spaces_and_quotes(" \"Old Town\" "), "OldTown");
    assert_eq!(join(&vec!["a".to_string(), "b".to_string()], ", "), "a, b");
}

#[test]
fn topic_names_for_neighborhoods() {
    let c = config("dataout");
    assert_eq!(
        get_topic_name_from_neighborhood_name(&c, "Old \"Town\""),
        "dataout_OldTown"
    );
    let c = config("dataout-");
    assert_eq!(
        get_topics_names_for_neigborhood_wise_strategy(&c, 3),
        vec!["dataout-1", "dataout-2", "dataout-3"]
    );
    assert_eq!(
        get_topics_names_for_neigborhood_wise_strategy(&c, 0),
        Vec::<String>::new()
    );
    let names = get_topics_names_for_neigborhood_wise_strategy(&c, 12);
    let mut sorted = names.clone();
    sorted.sort();
    sorted.dedup();
    assert_eq!(sorted.len(), 12);
    assert_eq!(names[11], "dataout-12");
    assert_eq!(
        get_topics_names(&c, 2, SendStrategy::Random),
        vec!["dataout-", "dataout-"]
    );
    assert_eq!(get_topics_names(&c, 1, SendStrategy::NeighborhoodWise), vec!["dataout-1"]);
}

#[test]
fn send_strategy_override() {
    let c = config("t");
    assert_eq!(send_strategy_to_use(&None, &c), Some(SendStrategy::RoundRobin));
    assert_eq!(
        send_strategy_to_use(&Some("NeighborhoodWise".to_string()), &c),
        Some(SendStrategy::NeighborhoodWise)
    );
    assert_eq!(send_strategy_to_use(&Some("fastest".to_string()), &c), None);
    assert_eq!(SendStrategy::parse_send_strategy("RANDOM"), Some(SendStrategy::Random));
    assert_eq!(SendStrategy::parse_send_strategy("roundRobin"), Some(SendStrategy::RoundRobin));
    assert_eq!(
        SamplingStrategy::_parse_sampling_strategy("Stratified"),
        Some(SamplingStrategy::Stratified)
    );
    assert_eq!(SamplingStrategy::_parse_sampling_strategy("none"), None);
}

#[test]
fn geohash_children() {
    let kids = children(&"u4".to_string());
    assert_eq!(kids.len(), 32);
    assert_eq!(kids[0], "u40");
    assert_eq!(kids[10], "u4b");
    assert_eq!(kids[31], "u4z");
    for (kid, c) in kids.iter().zip(BASE_32.iter()) {
        assert_eq!(*kid, format!("u4{}", c));
    }
}

#[test]
fn covering_search_keeps_cells_of_the_level() {
    // a geometry that meets every cell whose name starts with "u"
    let mut search = CoveringSearch::new(2);
    let mut tested = 0;
    while let Some(cell) = search.next_cell() {
        tested += 1;
        let hits = cell.is_empty() || cell.starts_with('u');
        search.report(cell, hits);
    }
    let found = search.into_found();
    assert_eq!(tested, 1 + 32 + 32);
    assert_eq!(found.len(), 32);
    assert!(found.iter().all(|c| c.len() == 2 && c.starts_with('u')));
    let mut distinct = found.clone();
    distinct.sort();
    distinct.dedup();
    assert_eq!(distinct.len(), found.len());
    let mut search = CoveringSearch::new(0);
    let cell = search.next_cell().unwrap();
    search.report(cell, true);
    assert!(search.next_cell().is_none());
    assert_eq!(search.into_found(), vec![String::new()]);
}

#[test]
fn covering_search_tests_the_last_child_first() {
    let mut search = CoveringSearch::new(1);
    assert_eq!(search.next_cell(), Some(String::new()));
    search.report(String::new(), true);
    assert_eq!(search.next_cell(), Some("z".to_string()));
    search.report("z".to_string(), true);
    assert_eq!(search.next_cell(), Some("y".to_string()));
    search.report("y".to_string(), false);
    assert_eq!(search.into_found(), vec!["z".to_string()]);
}

#[test]
fn topic_subcommand_helpers() {
    let c = config("dataout");
    assert_eq!(topic_to_create(&c, &create_args("OUT")), Ok("dataout".to_string()));
    assert_eq!(topic_to_create(&c, &create_args("in")), Err("unsupported".to_string()));
    assert!(check_neighborhood_wise_topic(&create_args("out")).is_ok());
    assert_eq!(
        check_neighborhood_wise_topic(&create_args("in")),
        Err("Option --for-nbw-strat unsupported for non out topic.".to_string())
    );
    assert_eq!(join_by_comma(&c.kafka.brokers), "b1:9092,b2:9092");
    assert_eq!(
        create_topic_args("dataout", "b1:9092", "8", 3),
        vec![
            "--create",
            "--topic",
            "dataout",
            "--bootstrap-server",
            "b1:9092",
            "--partitions",
            "8",
            "--replication-factor",
            "3"
        ]
    );
    let names = vec!["a".to_string(), "dataout".to_string()];
    assert!(topic_exists(&names, &"dataout".to_string()));
    assert!(!topic_exists(&names, &"datain".to_string()));
}

#[test]
fn neighborhood_wise_gives_each_neighborhood_its_topic() {
    let c = config("out");
    let topics = get_topics_names(&c, 3, SendStrategy::NeighborhoodWise);
    let names: Vec<String> = vec!["\"North\"".to_string(), "\"South\"".to_string()];
    let pairs = neighborhood_topics(&names, &topics);
    let neighborhoods = vec![
        Some(names[1].clone()),
        None,
        Some(names[0].clone()),
    ];
    let routes = SendStrategy::NeighborhoodWise.plan_sends(&neighborhoods, &topics, 0, &pairs);
    let routed: Vec<Option<&str>> = routes.iter().map(|r| r.as_ref().map(|r| r.topic.as_str())).collect();
    assert_eq!(routed, vec![Some("out2"), None, Some("out1")]);
}

#[test]
fn topic_create_plans_the_topics() {
    let c = config("dataout-");
    let existing = vec!["datain".to_string()];
    assert_eq!(
        topic_create_plan(&c, &create_args("out"), &existing, 0),
        Ok(vec!["dataout-".to_string()])
    );
    let existing = vec!["dataout-".to_string()];
    assert_eq!(topic_create_plan(&c, &create_args("Out"), &existing, 0), Ok(vec![]));
    assert_eq!(
        topic_create_plan(&c, &create_args("in"), &existing, 0),
        Err("unsupported".to_string())
    );
    let mut nbw = create_args("out");
    nbw.for_neighborhoodwise_strategy = true;
    assert_eq!(
        topic_create_plan(&c, &nbw, &existing, 3),
        Ok(vec![
            "dataout-1".to_string(),
            "dataout-2".to_string(),
            "dataout-3".to_string()
        ])
    );
    let mut nbw_in = create_args("in");
    nbw_in.for_neighborhoodwise_strategy = true;
    assert_eq!(
        topic_create_plan(&c, &nbw_in, &existing, 3),
        Err("Option --for-nbw-strat unsupported for non out topic.".to_string())
    );
}

#[test]
fn neighborhoods_file_is_given_or_configured() {
    let mut c = config("out");
    let given = Some("given.geojson".to_string());
    assert_eq!(neighborhoods_file_choice(&given, Some(&c)), given);
    assert_eq!(neighborhoods_file_choice(&None, Some(&c)), None);
    c.data_out.neighborhoods_file = Some("configured.geojson".to_string());
    assert_eq!(
        neighborhoods_file_choice(&None, Some(&c)),
        Some("configured.geojson".to_string())
    );
    assert_eq!(neighborhoods_file_choice(&given, Some(&c)), given);
    assert_eq!(neighborhoods_file_choice(&None, None), None);
}
