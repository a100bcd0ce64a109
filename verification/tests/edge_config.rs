use edge_approximate::config::file::ConfigFile;
use edge_approximate::edge::args::CreateConfig;
use edge_approximate::edge::config::{load_config, load_config_from, Config};
use edge_approximate::edge::strategies::{SamplingStrategy, SendStrategy};
use edge_approximate::edge::subcommands::config_template;

const GOOD: &str = "[kafka]\n\
zookeeper = [ \"localhost:2181\" ]\n\
brokers = [ \"localhost:9092\" ]\n\
\n\
[data_in]\n\
source_topic = \"datain\"\n\
partition_to_read = 2\n\
\n\
[data_out]\n\
target_topic = \"dataout\"\n\
send_every_ms = 1000\n\
send_strategy = \"RoundRobin\"\n\
sampling_strategy = \"Stratified\"\n";

fn message_of(r: Result<Config, edge_approximate::config::errors::ConfigurationError>) -> String {
    match r {
        Ok(_) => panic!("expected an error"),
        Err(e) => e.message(),
    }
}

#[test]
fn loads_a_complete_edge_configuration() {
    let config = load_config_from(GOOD).unwrap();
    assert_eq!(config.kafka.zookeeper, vec!["localhost:2181".to_string()]);
    assert_eq!(config.kafka.brokers, vec!["localhost:9092".to_string()]);
    assert_eq!(config.data_in.source_topic, "datain");
    assert_eq!(config.data_in.partition_to_read, 2);
    assert_eq!(config.data_out.target_topic, "dataout");
    assert_eq!(config.data_out.send_every_ms, 1000);
    assert_eq!(config.data_out.send_strategy, SendStrategy::RoundRobin);
    assert_eq!(config.data_out.sampling_strategy, SamplingStrategy::Stratified);
}

#[test]
fn strategies_are_read_in_any_case() {
    let text = GOOD
        .replace("\"RoundRobin\"", "\"RANDOM\"")
        .replace("\"Stratified\"", "\"rAnDoM\"");
    let config = load_config_from(&text).unwrap();
    assert_eq!(config.data_out.send_strategy, SendStrategy::Random);
    assert_eq!(config.data_out.sampling_strategy, SamplingStrategy::Random);
}

#[test]
fn neighborhood_wise_can_be_configured() {
    let text = GOOD.replace("\"RoundRobin\"", "\"NeighborhoodWise\"");
    let config = load_config_from(&text).unwrap();
    assert_eq!(config.data_out.send_strategy, SendStrategy::NeighborhoodWise);
    assert_eq!(config.data_out.neighborhoods_file, None);
    let text = GOOD.replace("\"RoundRobin\"", "\"everywhere\"");
    assert_eq!(
        message_of(load_config_from(&text)),
        "Invalid value `everywhere` for key 'send_strategy'."
    );
    let text = GOOD.replace("\"Stratified\"", "\"cluster\"");
    assert_eq!(
        message_of(load_config_from(&text)),
        "Invalid value `cluster` for key 'sampling_strategy'."
    );
}

#[test]
fn neighborhoods_file_may_be_configured() {
    let text = format!("{}neighborhoods_file = \"n.geojson\"\n", GOOD);
    let config = load_config_from(&text).unwrap();
    assert_eq!(config.data_out.neighborhoods_file, Some("n.geojson".to_string()));
    let text = format!("{}neighborhoods_file = 3\n", GOOD);
    assert_eq!(
        message_of(load_config_from(&text)),
        "No key 'neighborhoods_file' found in table 'data_out'."
    );
}

#[test]
fn negative_period_counts_as_zero() {
    let text = GOOD.replace("send_every_ms = 1000", "send_every_ms = -5");
    assert_eq!(load_config_from(&text).unwrap().data_out.send_every_ms, 0);
}

#[test]
fn partition_too_big_is_refused_by_load_config() {
    let text = GOOD.replace("partition_to_read = 2", "partition_to_read = 3000000000");
    assert!(load_config(ConfigFile::Contents(text)).is_none());
    let text = GOOD.replace("partition_to_read = 2", "partition_to_read = -2147483648");
    let config = load_config(ConfigFile::Contents(text)).unwrap().unwrap();
    assert_eq!(config.data_in.partition_to_read, i32::MIN);
}

#[test]
fn partition_too_big_after_a_kafka_error_is_that_error() {
    let text = GOOD
        .replace("partition_to_read = 2", "partition_to_read = 3000000000")
        .replace("[kafka]", "[kafka_]");
    let r = load_config(ConfigFile::Contents(text)).unwrap();
    assert_eq!(message_of(r), "No table 'kafka' found.");
}

#[test]
fn load_config_messages_for_missing_files() {
    assert_eq!(
        message_of(load_config(ConfigFile::PathUnavailable).unwrap()),
        "Unexpected error."
    );
    assert_eq!(
        message_of(load_config(ConfigFile::Missing).unwrap()),
        "Configuration file does not exists!"
    );
    assert_eq!(
        message_of(load_config(ConfigFile::Unreadable).unwrap()),
        "Configuration file not found."
    );
}

#[test]
fn created_template_fills_the_placeholders() {
    let text = config_template(&CreateConfig {
        source_topic: Some("in".to_string()),
        target_topic: None,
    });
    assert!(text.contains("source_topic = \"in\""));
    assert!(text.contains("partition_to_read = 0\n"));
    assert!(text.contains("target_topic = \"dataout\""));
    assert!(text.contains("send_every_ms = 1000\n"));
    assert!(text.contains("send_strategy = \"RoundRobin\""));
    assert!(text.contains("sampling_strategy = \"Stratified\""));
    let defaults = config_template(&CreateConfig {
        source_topic: None,
        target_topic: None,
    });
    assert!(defaults.contains("source_topic = \"datain\""));
}

#[test]
fn created_template_loads_with_the_defaults() {
    let text = config_template(&CreateConfig {
        source_topic: None,
        target_topic: Some("out".to_string()),
    });
    let config = load_config_from(&text).unwrap();
    assert_eq!(config.data_in.source_topic, "datain");
    assert_eq!(config.data_in.partition_to_read, 0);
    assert_eq!(config.data_out.target_topic, "out");
    assert_eq!(config.data_out.send_every_ms, 1000);
    assert_eq!(config.data_out.send_strategy, SendStrategy::RoundRobin);
    assert_eq!(config.data_out.sampling_strategy, SamplingStrategy::Stratified);
}
