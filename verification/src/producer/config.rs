//! The producer's configuration: its structure, and how it is read from the
//! TOML file.

use vstd::prelude::*;

use crate::config::errors::{ConfigError, ConfigurationError};
use crate::config::file::ConfigFile;
use crate::config::utils::{
    from_i64_to_u64, from_u64_to_nonzerou64, get_table, holds_integer, holds_string,
    holds_strings, hosts_of, integer_of, lemma_hosts_are_the_array, table_at,
    nonzero_from_u64_error, read_array_of_hosts, read_integer_key_from_table,
    read_string_key_from_table, string_of, string_views, table_of, texts_of, u64_from_i64_error,
    PositiveU64,
};
use crate::text;
use crate::producer::subcommands::{config_text_for, data_source_for};
use crate::toml_model::{
    entry_value, parse_toml, parsed_toml, table_data, toml_data, TomlData, TomlValue,
};

verus! {

/// The `kafka` table: where to send and on which topic.
#[derive(Debug, Clone)]
pub struct Kafka {
    pub zookeeper: Vec<String>,
    pub brokers: Vec<String>,
    pub topic: String,
    pub partitions: PositiveU64,
}

/// The `data` table: what to send and at which pace.
#[derive(Debug, Clone)]
pub struct Data {
    /// Path of the CSV file to read.
    pub source: String,
    pub msg_sleep_in_ms: u64,
    pub chunk_size: PositiveU64,
    pub chunk_sleep_in_ms: u64,
}

/// The producer's whole configuration.
#[derive(Debug, Clone)]
pub struct Config {
    pub kafka: Kafka,
    pub data: Data,
}

/// The content of a [`Kafka`] table.
pub struct KafkaView {
    pub zookeeper: Seq<Seq<char>>,
    pub brokers: Seq<Seq<char>>,
    pub topic: Seq<char>,
    pub partitions: u64,
}

/// The content of a [`Data`] table.
pub struct DataView {
    pub source: Seq<char>,
    pub msg_sleep_in_ms: u64,
    pub chunk_size: u64,
    pub chunk_sleep_in_ms: u64,
}

/// The content of a [`Config`].
pub struct ConfigView {
    pub kafka: KafkaView,
    pub data: DataView,
}

impl View for Kafka {
    type V = KafkaView;

    open spec fn view(&self) -> KafkaView {
        KafkaView {
            zookeeper: string_views(self.zookeeper@),
            brokers: string_views(self.brokers@),
            topic: self.topic@,
            partitions: self.partitions@,
        }
    }
}

impl View for Data {
    type V = DataView;

    open spec fn view(&self) -> DataView {
        DataView {
            source: self.source@,
            msg_sleep_in_ms: self.msg_sleep_in_ms,
            chunk_size: self.chunk_size@,
            chunk_sleep_in_ms: self.chunk_sleep_in_ms,
        }
    }
}

impl View for Config {
    type V = ConfigView;

    open spec fn view(&self) -> ConfigView {
        ConfigView { kafka: self.kafka@, data: self.data@ }
    }
}

/// An integer setting that must not be negative.
pub open spec fn natural_of(v: i64) -> Result<u64, ConfigError> {
    if v < 0 {
        Err(ConfigError::Error(u64_from_i64_error(v)))
    } else {
        Ok(v as u64)
    }
}

/// An integer setting that must be positive.
pub open spec fn positive_of(v: i64) -> Result<u64, ConfigError> {
    if v < 0 {
        Err(ConfigError::Error(u64_from_i64_error(v)))
    } else if v == 0 {
        Err(ConfigError::Error(nonzero_from_u64_error(0)))
    } else {
        Ok(v as u64)
    }
}

/// An integer key of a table that must hold a positive number.
pub open spec fn positive_key_of(
    table: Seq<char>,
    key: Seq<char>,
    data: Seq<(Seq<char>, TomlData)>,
) -> Result<u64, ConfigError> {
    match integer_of(table, key, data) {
        Err(e) => Err(e),
        Ok(i) => positive_of(i),
    }
}

/// An integer key of a table that must hold a number that is not negative.
pub open spec fn natural_key_of(
    table: Seq<char>,
    key: Seq<char>,
    data: Seq<(Seq<char>, TomlData)>,
) -> Result<u64, ConfigError> {
    match integer_of(table, key, data) {
        Err(e) => Err(e),
        Ok(i) => natural_of(i),
    }
}

/// The `kafka` table of a document, or the first error found in it
/// (checked in the order: table, `zookeeper`, `brokers`, `topic`,
/// `partitions`).
pub open spec fn kafka_of(root: TomlData) -> Result<KafkaView, ConfigError> {
    match table_of(root, "kafka"@) {
        Err(e) => Err(e),
        Ok(t) => match hosts_of("kafka"@, "zookeeper"@, t) {
            Err(e) => Err(e),
            Ok(zookeeper) => match hosts_of("kafka"@, "brokers"@, t) {
                Err(e) => Err(e),
                Ok(brokers) => match string_of("kafka"@, "topic"@, t) {
                    Err(e) => Err(e),
                    Ok(topic) => match positive_key_of("kafka"@, "partitions"@, t) {
                        Err(e) => Err(e),
                        Ok(partitions) => Ok(KafkaView { zookeeper, brokers, topic, partitions }),
                    },
                },
            },
        },
    }
}

/// The `data` table of a document, or the first error found in it
/// (checked in the order: table, `source`, `msg_sleep_in_ms`, `chunk_size`,
/// `chunk_sleep_in_ms`).
pub open spec fn data_of(root: TomlData) -> Result<DataView, ConfigError> {
    match table_of(root, "data"@) {
        Err(e) => Err(e),
        Ok(t) => match string_of("data"@, "source"@, t) {
            Err(e) => Err(e),
            Ok(source) => match natural_key_of("data"@, "msg_sleep_in_ms"@, t) {
                Err(e) => Err(e),
                Ok(msg_sleep_in_ms) => match positive_key_of("data"@, "chunk_size"@, t) {
                    Err(e) => Err(e),
                    Ok(chunk_size) => match natural_key_of("data"@, "chunk_sleep_in_ms"@, t) {
                        Err(e) => Err(e),
                        Ok(chunk_sleep_in_ms) => Ok(
                            DataView { source, msg_sleep_in_ms, chunk_size, chunk_sleep_in_ms },
                        ),
                    },
                },
            },
        },
    }
}

/// The configuration that a parsed document describes: its `kafka` table,
/// then its `data` table.
pub open spec fn config_of(root: TomlData) -> Result<ConfigView, ConfigError> {
    match kafka_of(root) {
        Err(e) => Err(e),
        Ok(kafka) => match data_of(root) {
            Err(e) => Err(e),
            Ok(data) => Ok(ConfigView { kafka, data }),
        },
    }
}

/// The configuration that the text of a configuration file describes.
pub open spec fn config_of_text(contents: Seq<char>) -> Result<ConfigView, ConfigError> {
    match parsed_toml(contents) {
        Err(m) => Err(ConfigError::Error(m)),
        Ok(root) => config_of(root),
    }
}

/// The message given when the configuration file cannot be had.
pub open spec fn file_not_found() -> ConfigError {
    ConfigError::Error("Configuration file not found."@)
}

/// The configuration that the search for the file found.
pub open spec fn config_of_file(file: ConfigFile) -> Result<ConfigView, ConfigError> {
    match file {
        ConfigFile::Contents(c) => config_of_text(c@),
        _ => Err(file_not_found()),
    }
}

fn read_positive_key(table: &str, key: &str, data: &crate::toml_model::TomlTable) -> (r: Result<
    PositiveU64,
    ConfigurationError,
>)
    ensures
        match r {
            Ok(p) => positive_key_of(table@, key@, table_data(*data)) == Ok::<u64, ConfigError>(p@),
            Err(e) => positive_key_of(table@, key@, table_data(*data)) == Err::<u64, ConfigError>(e@),
        },
{
    let i = read_integer_key_from_table(table, key, data)?;
    let u = from_i64_to_u64(i)?;
    from_u64_to_nonzerou64(u)
}

fn read_natural_key(table: &str, key: &str, data: &crate::toml_model::TomlTable) -> (r: Result<
    u64,
    ConfigurationError,
>)
    ensures
        match r {
            Ok(u) => natural_key_of(table@, key@, table_data(*data)) == Ok::<u64, ConfigError>(u),
            Err(e) => natural_key_of(table@, key@, table_data(*data)) == Err::<u64, ConfigError>(e@),
        },
{
    let i = read_integer_key_from_table(table, key, data)?;
    from_i64_to_u64(i)
}

/// Parses the `kafka` table of the configuration.
pub fn parse_kafka_table(config: &TomlValue) -> (r: Result<Kafka, ConfigurationError>)
    ensures
        match r {
            Ok(k) => kafka_of(toml_data(*config)) == Ok::<KafkaView, ConfigError>(k@),
            Err(e) => kafka_of(toml_data(*config)) == Err::<KafkaView, ConfigError>(e@),
        },
{
    let kafka = get_table("kafka", config)?;
    let zookeeper = read_array_of_hosts("kafka", "zookeeper", kafka)?;
    let brokers = read_array_of_hosts("kafka", "brokers", kafka)?;
    let topic = read_string_key_from_table("kafka", "topic", kafka)?;
    let partitions = read_positive_key("kafka", "partitions", kafka)?;
    Ok(Kafka { zookeeper, brokers, topic, partitions })
}

/// Parses the `data` table of the configuration.
pub fn parse_data_table(config: &TomlValue) -> (r: Result<Data, ConfigurationError>)
    ensures
        match r {
            Ok(d) => data_of(toml_data(*config)) == Ok::<DataView, ConfigError>(d@),
            Err(e) => data_of(toml_data(*config)) == Err::<DataView, ConfigError>(e@),
        },
{
    let data = get_table("data", config)?;
    let source = read_string_key_from_table("data", "source", data)?;
    let msg_sleep_in_ms = read_natural_key("data", "msg_sleep_in_ms", data)?;
    let chunk_size = read_positive_key("data", "chunk_size", data)?;
    let chunk_sleep_in_ms = read_natural_key("data", "chunk_sleep_in_ms", data)?;
    Ok(Data { source, msg_sleep_in_ms, chunk_size, chunk_sleep_in_ms })
}

/// Reads the configuration from the text of a configuration file.
pub fn load_config_from(contents: &str) -> (r: Result<Config, ConfigurationError>)
    ensures
        match r {
            Ok(c) => config_of_text(contents@) == Ok::<ConfigView, ConfigError>(c@),
            Err(e) => config_of_text(contents@) == Err::<ConfigView, ConfigError>(e@),
        },
{
    let config = match parse_toml(contents) {
        Ok(v) => v,
        Err(m) => {
            return Err(ConfigurationError::Error(m));
        },
    };
    let kafka = parse_kafka_table(&config)?;
    let data = parse_data_table(&config)?;
    Ok(Config { kafka, data })
}

/// Loads the configuration from what the search for the configuration file
/// (next to the executable) found.
pub fn load_config(file: ConfigFile) -> (r: Result<Config, ConfigurationError>)
    ensures
        match r {
            Ok(c) => config_of_file(file) == Ok::<ConfigView, ConfigError>(c@),
            Err(e) => config_of_file(file) == Err::<ConfigView, ConfigError>(e@),
        },
{
    match file {
        ConfigFile::Contents(c) => load_config_from(c.as_str()),
        _ => Err(ConfigurationError::Error(text::owned("Configuration file not found."))),
    }
}

/// A configuration read from a document holds what the document's tables
/// hold under the keys named after its fields: the `kafka` table's host
/// arrays whole and in order, its topic and partitions; the `data` table's
/// source and its three numbers, each from its own key.
pub proof fn lemma_config_fields(root: TomlData)
    ensures
        kafka_of(root) matches Ok(k) ==> match table_at(root, "kafka"@) {
            Some(t) => {
                &&& holds_strings(t, "zookeeper"@, k.zookeeper)
                &&& holds_strings(t, "brokers"@, k.brokers)
                &&& holds_string(t, "topic"@, k.topic)
                &&& holds_integer(t, "partitions"@, k.partitions as int)
                &&& k.partitions > 0
            },
            None => false,
        },
        data_of(root) matches Ok(d) ==> match table_at(root, "data"@) {
            Some(t) => {
                &&& holds_string(t, "source"@, d.source)
                &&& holds_integer(t, "msg_sleep_in_ms"@, d.msg_sleep_in_ms as int)
                &&& holds_integer(t, "chunk_size"@, d.chunk_size as int)
                &&& holds_integer(t, "chunk_sleep_in_ms"@, d.chunk_sleep_in_ms as int)
                &&& d.chunk_size > 0
            },
            None => false,
        },
        config_of(root) matches Ok(c) ==> kafka_of(root) == Ok::<KafkaView, ConfigError>(c.kafka)
            && data_of(root) == Ok::<DataView, ConfigError>(c.data),
{
    if let Ok(k) = kafka_of(root) {
        let t = table_at(root, "kafka"@).unwrap();
        lemma_hosts_are_the_array("kafka"@, "zookeeper"@, t);
        lemma_hosts_are_the_array("kafka"@, "brokers"@, t);
    }
}

/// The value under `key` in a table is that of the first entry with that
/// key.
proof fn lemma_entry_at(entries: Seq<(Seq<char>, TomlData)>, key: Seq<char>, i: int)
    requires
        0 <= i < entries.len(),
        entries[i].0 == key,
        forall|j: int| 0 <= j < i ==> (#[trigger] entries[j]).0.len() != key.len(),
    ensures
        entry_value(entries, key) == Some(entries[i].1),
    decreases i,
{
    if i > 0 {
        let rest = entries.drop_first();
        assert(entries[0].0 != key);
        assert forall|j: int| 0 <= j < i - 1 implies (#[trigger] rest[j]).0.len() != key.len() by {
            assert(rest[j] == entries[j + 1]);
        }
        lemma_entry_at(rest, key, i - 1);
    }
}

/// The document that the configuration template for the user `username`
/// holds, its keys in the order the `toml` crate keeps them (sorted).
pub open spec fn template_data(username: Seq<char>) -> TomlData {
    TomlData::Table(
        seq![
            (
                "data"@,
                TomlData::Table(
                    seq![
                        ("chunk_size"@, TomlData::Integer(300000)),
                        ("chunk_sleep_in_ms"@, TomlData::Integer(300000)),
                        ("msg_sleep_in_ms"@, TomlData::Integer(1)),
                        ("source"@, TomlData::String(data_source_for(username))),
                    ],
                ),
            ),
            (
                "kafka"@,
                TomlData::Table(
                    seq![
                        ("brokers"@, TomlData::Array(seq![TomlData::String("localhost:9092"@)])),
                        ("partitions"@, TomlData::Integer(4)),
                        ("topic"@, TomlData::String("datain"@)),
                        ("zookeeper"@, TomlData::Array(seq![TomlData::String("localhost:2181"@)])),
                    ],
                ),
            ),
        ],
    )
}

/// The default configuration for the user `username`.
pub open spec fn default_config(username: Seq<char>) -> ConfigView {
    ConfigView {
        kafka: KafkaView {
            zookeeper: seq!["localhost:2181"@],
            brokers: seq!["localhost:9092"@],
            topic: "datain"@,
            partitions: 4,
        },
        data: DataView {
            source: data_source_for(username),
            msg_sleep_in_ms: 1,
            chunk_size: 300000,
            chunk_sleep_in_ms: 300000,
        },
    }
}

/// The configuration that `edit_config create` writes reads back as the
/// defaults: the document of the template gives the default
/// configuration, and so does the template's text, whenever the `toml`
/// crate parses it into that document.
pub proof fn lemma_template_gives_defaults(username: Seq<char>)
    ensures
        config_of(template_data(username)) == Ok::<ConfigView, ConfigError>(
            default_config(username),
        ),
        parsed_toml(config_text_for(username)) == Ok::<TomlData, Seq<char>>(template_data(username))
            ==> config_of_text(config_text_for(username)) == Ok::<ConfigView, ConfigError>(
            default_config(username),
        ),
{
    reveal_strlit("data");
    reveal_strlit("kafka");
    reveal_strlit("chunk_size");
    reveal_strlit("chunk_sleep_in_ms");
    reveal_strlit("msg_sleep_in_ms");
    reveal_strlit("source");
    reveal_strlit("brokers");
    reveal_strlit("partitions");
    reveal_strlit("topic");
    reveal_strlit("zookeeper");
    reveal_strlit("localhost:9092");
    reveal_strlit("localhost:2181");
    let root = template_data(username);
    let hosts9092 = seq![TomlData::String("localhost:9092"@)];
    let hosts2181 = seq![TomlData::String("localhost:2181"@)];
    assert(texts_of(hosts9092) =~= seq!["localhost:9092"@]);
    assert(texts_of(hosts2181) =~= seq!["localhost:2181"@]);
    assert("localhost:9092"@.len() == 14);
    assert("localhost:2181"@.len() == 14);
    assert(!seq!["localhost:9092"@].contains(Seq::<char>::empty())) by {
        assert(seq!["localhost:9092"@][0] == "localhost:9092"@);
    }
    assert(!seq!["localhost:2181"@].contains(Seq::<char>::empty())) by {
        assert(seq!["localhost:2181"@][0] == "localhost:2181"@);
    }
    let dt = seq![
        ("chunk_size"@, TomlData::Integer(300000)),
        ("chunk_sleep_in_ms"@, TomlData::Integer(300000)),
        ("msg_sleep_in_ms"@, TomlData::Integer(1)),
        ("source"@, TomlData::String(data_source_for(username))),
    ];
    let kt = seq![
        ("brokers"@, TomlData::Array(hosts9092)),
        ("partitions"@, TomlData::Integer(4)),
        ("topic"@, TomlData::String("datain"@)),
        ("zookeeper"@, TomlData::Array(hosts2181)),
    ];
    let rt = seq![("data"@, TomlData::Table(dt)), ("kafka"@, TomlData::Table(kt))];
    assert(root == TomlData::Table(rt));
    lemma_entry_at(rt, "data"@, 0);
    lemma_entry_at(rt, "kafka"@, 1);
    lemma_entry_at(kt, "brokers"@, 0);
    lemma_entry_at(kt, "partitions"@, 1);
    lemma_entry_at(kt, "topic"@, 2);
    lemma_entry_at(kt, "zookeeper"@, 3);
    lemma_entry_at(dt, "chunk_size"@, 0);
    lemma_entry_at(dt, "chunk_sleep_in_ms"@, 1);
    lemma_entry_at(dt, "msg_sleep_in_ms"@, 2);
    lemma_entry_at(dt, "source"@, 3);
    assert(kafka_of(root) == Ok::<KafkaView, ConfigError>(default_config(username).kafka));
    assert(data_of(root) == Ok::<DataView, ConfigError>(default_config(username).data));
}

} // verus!
