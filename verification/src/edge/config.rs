//! The edge producer's configuration: its structure, its default values, and
//! how it is read from the TOML file.

use vstd::prelude::*;

use crate::config::errors::{ConfigError, ConfigurationError, ErrorType};
use crate::config::file::ConfigFile;
use crate::config::utils::{
    get_table, holds_integer, holds_string, holds_strings, hosts_of, integer_of,
    lemma_hosts_are_the_array, table_at, optional_string_of, read_array_of_hosts,
    read_integer_key_from_table, read_optional_string_key_from_table, read_string_key_from_table,
    string_of, string_views, table_of,
};
use crate::edge::strategies::{
    SamplingStrategy, SendStrategy, sampling_strategy_named, send_strategy_named,
};
use crate::text;
use crate::toml_model::{
    entry_value, parse_toml, parsed_toml, table_data, toml_data, TomlData, TomlValue,
};

verus! {

/// The `kafka` table: the hosts to connect to.
#[derive(Debug, Clone)]
pub struct Kafka {
    pub zookeeper: Vec<String>,
    pub brokers: Vec<String>,
}

/// The `data_in` table: where the messages come from.
#[derive(Debug, Clone)]
pub struct DataIn {
    pub source_topic: String,
    pub partition_to_read: i32,
}

/// The `data_out` table: where and how the messages are sent.
#[derive(Debug, Clone)]
pub struct DataOut {
    pub target_topic: String,
    pub send_every_ms: u64,
    pub send_strategy: SendStrategy,
    pub sampling_strategy: SamplingStrategy,
    /// The GeoJSON file of the neighborhoods, if the configuration names one.
    pub neighborhoods_file: Option<String>,
}

/// The edge producer's whole configuration.
#[derive(Debug, Clone)]
pub struct Config {
    pub kafka: Kafka,
    pub data_in: DataIn,
    pub data_out: DataOut,
}

/// The content of a [`Kafka`] table.
pub struct KafkaView {
    pub zookeeper: Seq<Seq<char>>,
    pub brokers: Seq<Seq<char>>,
}

/// The content of a [`DataIn`] table.
pub struct DataInView {
    pub source_topic: Seq<char>,
    pub partition_to_read: i32,
}

/// The content of a [`DataOut`] table.
pub struct DataOutView {
    pub target_topic: Seq<char>,
    pub send_every_ms: u64,
    pub send_strategy: SendStrategy,
    pub sampling_strategy: SamplingStrategy,
    pub neighborhoods_file: Option<Seq<char>>,
}

/// The content of a [`Config`].
pub struct ConfigView {
    pub kafka: KafkaView,
    pub data_in: DataInView,
    pub data_out: DataOutView,
}

impl View for Kafka {
    type V = KafkaView;

    open spec fn view(&self) -> KafkaView {
        KafkaView { zookeeper: string_views(self.zookeeper@), brokers: string_views(self.brokers@) }
    }
}

impl View for DataIn {
    type V = DataInView;

    open spec fn view(&self) -> DataInView {
        DataInView { source_topic: self.source_topic@, partition_to_read: self.partition_to_read }
    }
}

impl View for DataOut {
    type V = DataOutView;

    open spec fn view(&self) -> DataOutView {
        DataOutView {
            target_topic: self.target_topic@,
            send_every_ms: self.send_every_ms,
            send_strategy: self.send_strategy,
            sampling_strategy: self.sampling_strategy,
            neighborhoods_file: match self.neighborhoods_file {
                Some(f) => Some(f@),
                None => None,
            },
        }
    }
}

impl View for Config {
    type V = ConfigView;

    open spec fn view(&self) -> ConfigView {
        ConfigView { kafka: self.kafka@, data_in: self.data_in@, data_out: self.data_out@ }
    }
}

/// The `kafka` table of a document, or the first error found in it.
pub open spec fn kafka_of(root: TomlData) -> Result<KafkaView, ConfigError> {
    match table_of(root, "kafka"@) {
        Err(e) => Err(e),
        Ok(t) => match hosts_of("kafka"@, "zookeeper"@, t) {
            Err(e) => Err(e),
            Ok(zookeeper) => match hosts_of("kafka"@, "brokers"@, t) {
                Err(e) => Err(e),
                Ok(brokers) => Ok(KafkaView { zookeeper, brokers }),
            },
        },
    }
}

/// Whether the `data_in` table of a document gets as far as a
/// `partition_to_read` integer that does not fit an `i32`, a configuration
/// that the loader refuses to read (the program stops there with
/// "Partition number too big!").
pub open spec fn partition_overflows(root: TomlData) -> bool {
    match table_of(root, "data_in"@) {
        Err(_) => false,
        Ok(t) => match string_of("data_in"@, "source_topic"@, t) {
            Err(_) => false,
            Ok(_) => match integer_of("data_in"@, "partition_to_read"@, t) {
                Err(_) => false,
                Ok(p) => !(i32::MIN <= p <= i32::MAX),
            },
        },
    }
}

/// The `data_in` table of a document whose partition fits an `i32`, or the
/// first error found in it.
pub open spec fn data_in_of(root: TomlData) -> Result<DataInView, ConfigError> {
    match table_of(root, "data_in"@) {
        Err(e) => Err(e),
        Ok(t) => match string_of("data_in"@, "source_topic"@, t) {
            Err(e) => Err(e),
            Ok(source_topic) => match integer_of("data_in"@, "partition_to_read"@, t) {
                Err(e) => Err(e),
                Ok(p) => Ok(DataInView { source_topic, partition_to_read: p as i32 }),
            },
        },
    }
}

/// The `data_out` table of a document, or the first error found in it
/// (checked in the order: table, `send_every_ms`, `target_topic`,
/// `send_strategy`, `sampling_strategy`, `neighborhoods_file`, which may be
/// left out). A negative `send_every_ms` counts
/// as zero; the strategies are named in any case.
pub open spec fn data_out_of(root: TomlData) -> Result<DataOutView, ConfigError> {
    match table_of(root, "data_out"@) {
        Err(e) => Err(e),
        Ok(t) => match integer_of("data_out"@, "send_every_ms"@, t) {
            Err(e) => Err(e),
            Ok(ms) => match string_of("data_out"@, "target_topic"@, t) {
                Err(e) => Err(e),
                Ok(target_topic) => match string_of("data_out"@, "send_strategy"@, t) {
                    Err(e) => Err(e),
                    Ok(send) => match send_strategy_named(text::lowercase(send)) {
                        None => Err(ConfigError::InvalidValue("send_strategy"@, send)),
                        Some(send_strategy) => match string_of(
                            "data_out"@,
                            "sampling_strategy"@,
                            t,
                        ) {
                            Err(e) => Err(e),
                            Ok(sampling) => match sampling_strategy_named(
                                text::lowercase(sampling),
                            ) {
                                None => Err(
                                    ConfigError::InvalidValue("sampling_strategy"@, sampling),
                                ),
                                Some(sampling_strategy) => match optional_string_of(
                                    "data_out"@,
                                    "neighborhoods_file"@,
                                    t,
                                ) {
                                    Err(e) => Err(e),
                                    Ok(neighborhoods_file) => Ok(
                                        DataOutView {
                                            target_topic,
                                            send_every_ms: if ms < 0 {
                                                0
                                            } else {
                                                ms as u64
                                            },
                                            send_strategy,
                                            sampling_strategy,
                                            neighborhoods_file,
                                        },
                                    ),
                                },
                            },
                        },
                    },
                },
            },
        },
    }
}

/// Whether reading a parsed document would stop on a partition number that
/// does not fit an `i32`: the `kafka` table is read without error first.
pub open spec fn config_overflows(root: TomlData) -> bool {
    kafka_of(root) is Ok && partition_overflows(root)
}

/// The configuration that a parsed document describes.
pub open spec fn config_of(root: TomlData) -> Result<ConfigView, ConfigError> {
    match kafka_of(root) {
        Err(e) => Err(e),
        Ok(kafka) => match data_in_of(root) {
            Err(e) => Err(e),
            Ok(data_in) => match data_out_of(root) {
                Err(e) => Err(e),
                Ok(data_out) => Ok(ConfigView { kafka, data_in, data_out }),
            },
        },
    }
}

/// Whether reading the text of a configuration file would stop on a
/// partition number that does not fit an `i32`.
pub open spec fn text_overflows(contents: Seq<char>) -> bool {
    match parsed_toml(contents) {
        Err(_) => false,
        Ok(root) => config_overflows(root),
    }
}

/// The configuration that the text of a configuration file describes.
pub open spec fn config_of_text(contents: Seq<char>) -> Result<ConfigView, ConfigError> {
    match parsed_toml(contents) {
        Err(m) => Err(ConfigError::Error(m)),
        Ok(root) => config_of(root),
    }
}

/// The configuration that the search for the file found; `None` where the
/// file's partition number does not fit an `i32`.
pub open spec fn config_of_file(file: ConfigFile) -> Option<Result<ConfigView, ConfigError>> {
    match file {
        ConfigFile::PathUnavailable => Some(Err(ConfigError::Error("Unexpected error."@))),
        ConfigFile::Missing => Some(
            Err(ConfigError::Error("Configuration file does not exists!"@)),
        ),
        ConfigFile::Unreadable => Some(Err(ConfigError::Error("Configuration file not found."@))),
        ConfigFile::Contents(c) => if text_overflows(c@) {
            None
        } else {
            Some(config_of_text(c@))
        },
    }
}

/// A configuration read from a document holds what the document's tables
/// hold under the keys named after its fields: the `kafka` table's host
/// arrays whole and in order; the `data_in` table's source topic and
/// partition; the `data_out` table's target topic, its period (zero for a
/// negative one), the strategies its texts name in any case, and its
/// neighborhoods file when it names one.
pub proof fn lemma_config_fields(root: TomlData)
    ensures
        kafka_of(root) matches Ok(k) ==> match table_at(root, "kafka"@) {
            Some(t) => holds_strings(t, "zookeeper"@, k.zookeeper) && holds_strings(
                t,
                "brokers"@,
                k.brokers,
            ),
            None => false,
        },
        data_in_of(root) matches Ok(d) ==> match table_at(root, "data_in"@) {
            Some(t) => holds_string(t, "source_topic"@, d.source_topic) && (
            !partition_overflows(root) ==> holds_integer(
                t,
                "partition_to_read"@,
                d.partition_to_read as int,
            )),
            None => false,
        },
        data_out_of(root) matches Ok(d) ==> match table_at(root, "data_out"@) {
            Some(t) => {
                &&& holds_string(t, "target_topic"@, d.target_topic)
                &&& match entry_value(t, "send_every_ms"@) {
                    Some(TomlData::Integer(ms)) => d.send_every_ms == if ms < 0 {
                        0
                    } else {
                        ms as int
                    },
                    _ => false,
                }
                &&& match entry_value(t, "send_strategy"@) {
                    Some(TomlData::String(n)) => send_strategy_named(text::lowercase(n)) == Some(
                        d.send_strategy,
                    ),
                    _ => false,
                }
                &&& match entry_value(t, "sampling_strategy"@) {
                    Some(TomlData::String(n)) => sampling_strategy_named(text::lowercase(n))
                        == Some(d.sampling_strategy),
                    _ => false,
                }
                &&& match d.neighborhoods_file {
                    Some(f) => holds_string(t, "neighborhoods_file"@, f),
                    None => entry_value(t, "neighborhoods_file"@) is None,
                }
            },
            None => false,
        },
        config_of(root) matches Ok(c) ==> kafka_of(root) == Ok::<KafkaView, ConfigError>(c.kafka)
            && data_in_of(root) == Ok::<DataInView, ConfigError>(c.data_in) && data_out_of(root)
            == Ok::<DataOutView, ConfigError>(c.data_out),
{
    if let Ok(k) = kafka_of(root) {
        let t = table_at(root, "kafka"@).unwrap();
        lemma_hosts_are_the_array("kafka"@, "zookeeper"@, t);
        lemma_hosts_are_the_array("kafka"@, "brokers"@, t);
    }
}

/// Parses the `kafka` table of the configuration.
pub fn parse_kafka_table(config: &TomlValue) -> (r: Result<Kafka, ConfigurationError>)
    ensures
        match r {
            Ok(k) => kafka_of(toml_data(*config)) == Ok::<KafkaView, ConfigError>(k@),
            Err(e) => kafka_of(toml_data(*config)) == Err::<KafkaView, ConfigError>(e@),
        },
{
    let kafka = get_table("kafka", config)?;
    let zookeeper = read_array_of_hosts("kafka", "zookeeper", kafka)?;
    let brokers = read_array_of_hosts("kafka", "brokers", kafka)?;
    Ok(Kafka { zookeeper, brokers })
}

/// Whether the partition number of the `data_in` table fits an `i32`, as
/// far as the table is read.
pub fn partition_fits(config: &TomlValue) -> (r: bool)
    ensures
        r == !partition_overflows(toml_data(*config)),
{
    let data = match get_table("data_in", config) {
        Ok(d) => d,
        Err(_) => {
            return true;
        },
    };
    if read_string_key_from_table("data_in", "source_topic", data).is_err() {
        return true;
    }
    match read_integer_key_from_table("data_in", "partition_to_read", data) {
        Ok(p) => i32::MIN as i64 <= p && p <= i32::MAX as i64,
        Err(_) => true,
    }
}

/// Parses the `data_in` table of the configuration.
pub fn parse_data_in_table(config: &TomlValue) -> (r: Result<DataIn, ConfigurationError>)
    requires
        !partition_overflows(toml_data(*config)),
    ensures
        match r {
            Ok(d) => data_in_of(toml_data(*config)) == Ok::<DataInView, ConfigError>(d@),
            Err(e) => data_in_of(toml_data(*config)) == Err::<DataInView, ConfigError>(e@),
        },
{
    let data = get_table("data_in", config)?;
    let source_topic = read_string_key_from_table("data_in", "source_topic", data)?;
    let partition = read_integer_key_from_table("data_in", "partition_to_read", data)?;
    let partition_to_read = partition as i32;
    Ok(DataIn { source_topic, partition_to_read })
}

/// The strategy named by the `send_strategy` value `value`.
fn configured_send(value: String) -> (r: Result<SendStrategy, ConfigurationError>)
    ensures
        match r {
            Ok(s) => send_strategy_named(text::lowercase(value@)) == Some(s),
            Err(e) => send_strategy_named(text::lowercase(value@)) is None
                && e@ == ConfigError::InvalidValue("send_strategy"@, value@),
        },
{
    let name = text::to_lowercase(value.as_str());
    match SendStrategy::from_lowercase_name(name.as_str()) {
        Some(s) => Ok(s),
        None => Err(
            ConfigurationError::new(
                value,
                ErrorType::InvalidValueForKey(text::owned("send_strategy")),
            ),
        ),
    }
}

/// The strategy named by the `sampling_strategy` value `value`.
fn configured_sampling(value: String) -> (r: Result<SamplingStrategy, ConfigurationError>)
    ensures
        match r {
            Ok(s) => sampling_strategy_named(text::lowercase(value@)) == Some(s),
            Err(e) => sampling_strategy_named(text::lowercase(value@)) is None
                && e@ == ConfigError::InvalidValue("sampling_strategy"@, value@),
        },
{
    let name = text::to_lowercase(value.as_str());
    match SamplingStrategy::from_lowercase_name(name.as_str()) {
        Some(s) => Ok(s),
        None => Err(
            ConfigurationError::new(
                value,
                ErrorType::InvalidValueForKey(text::owned("sampling_strategy")),
            ),
        ),
    }
}

/// Parses the `data_out` table of the configuration.
pub fn parse_data_out_table(config: &TomlValue) -> (r: Result<DataOut, ConfigurationError>)
    ensures
        match r {
            Ok(d) => data_out_of(toml_data(*config)) == Ok::<DataOutView, ConfigError>(d@),
            Err(e) => data_out_of(toml_data(*config)) == Err::<DataOutView, ConfigError>(e@),
        },
{
    let data = get_table("data_out", config)?;
    let ms = read_integer_key_from_table("data_out", "send_every_ms", data)?;
    let send_every_ms: u64 = if ms < 0 {
        0
    } else {
        ms as u64
    };
    let target_topic = read_string_key_from_table("data_out", "target_topic", data)?;
    let send = read_string_key_from_table("data_out", "send_strategy", data)?;
    let send_strategy = configured_send(send)?;
    let sampling = read_string_key_from_table("data_out", "sampling_strategy", data)?;
    let sampling_strategy = configured_sampling(sampling)?;
    let neighborhoods_file = read_optional_string_key_from_table(
        "data_out",
        "neighborhoods_file",
        data,
    )?;
    Ok(DataOut { target_topic, send_every_ms, send_strategy, sampling_strategy, neighborhoods_file })
}

/// Reads the configuration from the text of a configuration file.
pub fn load_config_from(contents: &str) -> (r: Result<Config, ConfigurationError>)
    requires
        !text_overflows(contents@),
    ensures
        match r {
            Ok(c) => config_of_text(contents@) == Ok::<ConfigView, ConfigError>(c@),
            Err(e) => config_of_text(contents@) == Err::<ConfigView, ConfigError>(e@),
        },
{
    let config = match parse_toml(contents) {
        Ok(v) => v,
        Err(m) => {
            return Err(ConfigurationError::Error(m));
        },
    };
    let kafka = parse_kafka_table(&config)?;
    let data_in = parse_data_in_table(&config)?;
    let data_out = parse_data_out_table(&config)?;
    Ok(Config { kafka, data_in, data_out })
}

/// Loads the configuration from what the search for the configuration file
/// (next to the executable) found. `None` where the file's partition number
/// does not fit an `i32`: such a configuration is not read, and the program
/// stops on it.
pub fn load_config(file: ConfigFile) -> (r: Option<Result<Config, ConfigurationError>>)
    ensures
        match r {
            None => config_of_file(file) is None,
            Some(Ok(c)) => config_of_file(file) == Some(Ok::<ConfigView, ConfigError>(c@)),
            Some(Err(e)) => config_of_file(file) == Some(Err::<ConfigView, ConfigError>(e@)),
        },
{
    match file {
        ConfigFile::PathUnavailable => Some(
            Err(ConfigurationError::Error(text::owned("Unexpected error."))),
        ),
        ConfigFile::Missing => Some(
            Err(ConfigurationError::Error(text::owned("Configuration file does not exists!"))),
        ),
        ConfigFile::Unreadable => Some(
            Err(ConfigurationError::Error(text::owned("Configuration file not found."))),
        ),
        ConfigFile::Contents(c) => {
            let fits = match parse_toml(c.as_str()) {
                Ok(v) => parse_kafka_table(&v).is_err() || partition_fits(&v),
                Err(_) => true,
            };
            if fits {
                Some(load_config_from(c.as_str()))
            } else {
                None
            }
        },
    }
}

} // verus!
