use edge_approximate::config::errors::{ConfigurationError, ErrorType};
use edge_approximate::config::file::ConfigFile;
use edge_approximate::config::utils::{
    check_value_not_empty_or_has_empty_strings, from_i64_to_u64, from_u64_to_nonzerou64,
    vec_empty_or_has_empty_strings,
};
use edge_approximate::producer::config::{load_config, load_config_from};
use edge_approximate::producer::subcommands::{config_template, TOML_CONFIG_TEMPLATE};

const GOOD: &str = "[kafka]\n\
zookeeper = [ \"localhost:2181\" ]\n\
brokers = [ \"localhost:9092\", \"other:9092\" ]\n\
topic = \"datain\"\n\
partitions = 4\n\
\n\
[data]\n\
source = \"/home/me/data.csv\"\n\
msg_sleep_in_ms = 1\n\
chunk_size = 300000\n\
chunk_sleep_in_ms = 300000 # 5 minutes\n";

fn message_of(r: Result<edge_approximate::producer::config::Config, ConfigurationError>) -> String {
    match r {
        Ok(_) => panic!("expected an error"),
        Err(e) => e.message(),
    }
}

#[test]
fn loads_a_complete_configuration() {
    let config = load_config_from(GOOD).unwrap();
    assert_eq!(config.kafka.zookeeper, vec!["localhost:2181".to_string()]);
    assert_eq!(
        config.kafka.brokers,
        vec!["localhost:9092".to_string(), "other:9092".to_string()]
    );
    assert_eq!(config.kafka.topic, "datain");
    assert_eq!(config.kafka.partitions.get(), 4);
    assert_eq!(config.data.source, "/home/me/data.csv");
    assert_eq!(config.data.msg_sleep_in_ms, 1);
    assert_eq!(config.data.chunk_size.get(), 300000);
    assert_eq!(config.data.chunk_sleep_in_ms, 300000);
}

#[test]
fn template_for_a_user_loads() {
    let text = config_template("alice");
    assert!(text.contains("source = \"/home/alice/data.csv\""));
    assert!(!text.contains("{data_source}"));
    let config = load_config_from(&text).unwrap();
    assert_eq!(config.data.source, "/home/alice/data.csv");
    assert_eq!(config.kafka.partitions.get(), 4);
    assert_eq!(config.data.chunk_size.get(), 300000);
    assert_eq!(
        text,
        TOML_CONFIG_TEMPLATE.replace("{data_source}", "/home/alice/data.csv")
    );
}

#[test]
fn missing_table_is_reported() {
    let text = GOOD.replace("[data]", "[other]");
    assert_eq!(message_of(load_config_from(&text)), "No table 'data' found.");
    let text = GOOD.replace("[kafka]", "[other]");
    assert_eq!(message_of(load_config_from(&text)), "No table 'kafka' found.");
}

#[test]
fn value_that_is_not_a_table_is_reported_as_kafka() {
    let text = format!("data = 3\n{}", GOOD.replace("[data]", "[other]"));
    assert_eq!(message_of(load_config_from(&text)), "No table 'kafka' found.");
}

#[test]
fn missing_key_is_reported_with_its_table() {
    let text = GOOD.replace("chunk_size = 300000\n", "");
    assert_eq!(
        message_of(load_config_from(&text)),
        "No key 'chunk_size' found in table 'data'."
    );
}

#[test]
fn key_of_wrong_type_is_reported_as_missing() {
    let text = GOOD.replace("topic = \"datain\"", "topic = 3");
    assert_eq!(
        message_of(load_config_from(&text)),
        "No key 'topic' found in table 'kafka'."
    );
}

#[test]
fn empty_host_is_invalid() {
    let text = GOOD.replace("\"localhost:2181\"", "\"\"");
    assert_eq!(
        message_of(load_config_from(&text)),
        "Invalid value `` for key 'zookeeper'."
    );
    let text = GOOD.replace("[ \"localhost:9092\", \"other:9092\" ]", "[]");
    assert_eq!(
        message_of(load_config_from(&text)),
        "Invalid value `` for key 'brokers'."
    );
}

#[test]
fn non_string_host_counts_as_empty() {
    let text = GOOD.replace("\"localhost:2181\"", "12");
    assert_eq!(
        message_of(load_config_from(&text)),
        "Invalid value `` for key 'zookeeper'."
    );
}

#[test]
fn zero_partitions_and_negative_sleep_are_errors() {
    let text = GOOD.replace("partitions = 4", "partitions = 0");
    assert_eq!(
        message_of(load_config_from(&text)),
        "out of range integral type conversion attempted"
    );
    let text = GOOD.replace("msg_sleep_in_ms = 1", "msg_sleep_in_ms = -1");
    assert_eq!(
        message_of(load_config_from(&text)),
        "out of range integral type conversion attempted"
    );
}

#[test]
fn syntax_error_gives_the_parser_message() {
    let r = load_config_from("[kafka\n");
    assert!(matches!(r, Err(ConfigurationError::Error(_))));
}

#[test]
fn load_config_reports_a_missing_file() {
    for file in [
        ConfigFile::PathUnavailable,
        ConfigFile::Missing,
        ConfigFile::Unreadable,
    ] {
        assert_eq!(message_of(load_config(file)), "Configuration file not found.");
    }
    assert!(load_config(ConfigFile::Contents(GOOD.to_string())).is_ok());
}

#[test]
fn errors_are_built_by_type() {
    let e = ConfigurationError::new("v".to_string(), ErrorType::InvalidValueForKey("k".to_string()));
    assert_eq!(e.message(), "Invalid value `v` for key 'k'.");
    let e = ConfigurationError::new("k".to_string(), ErrorType::KeyNotFoundForTable("t".to_string()));
    assert_eq!(e.message(), "No key 'k' found in table 't'.");
    let e = ConfigurationError::new("t".to_string(), ErrorType::TableNotFound);
    assert_eq!(e.message(), "No table 't' found.");
    let e = ConfigurationError::new("boom".to_string(), ErrorType::Error);
    assert_eq!(e.message(), "boom");
    let e = ConfigurationError::new_key_not_found_err("key".to_string(), "table".to_string());
    assert_eq!(e.message(), "No key 'key' found in table 'table'.");
}

#[test]
fn host_lists_are_checked() {
    assert!(vec_empty_or_has_empty_strings(&[]));
    assert!(vec_empty_or_has_empty_strings(&["a".to_string(), "".to_string()]));
    assert!(!vec_empty_or_has_empty_strings(&["a".to_string()]));
    assert!(check_value_not_empty_or_has_empty_strings(&["a".to_string()], "hosts").is_ok());
    match check_value_not_empty_or_has_empty_strings(&[], "hosts") {
        Err(e) => assert_eq!(e.message(), "Invalid value `` for key 'hosts'."),
        Ok(()) => panic!("expected an error"),
    }
}

#[test]
fn integer_conversions() {
    assert_eq!(from_i64_to_u64(7).unwrap(), 7);
    assert!(from_i64_to_u64(-7).is_err());
    assert_eq!(from_u64_to_nonzerou64(9).unwrap().get(), 9);
    assert!(from_u64_to_nonzerou64(0).is_err());
}
