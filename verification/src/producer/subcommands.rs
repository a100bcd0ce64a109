//! What the producer's subcommands compute: the configuration template, the
//! command that deletes the topic, and their errors.

use vstd::prelude::*;

use crate::config::utils::string_views;
use crate::text::{self, joined, lemma_joined_len, lemma_split_joined, replaced, split_on, total_len};

verus! {

/// The template of the configuration file that `edit_config create` writes.
pub const TOML_CONFIG_TEMPLATE: &'static str = "[kafka]\nzookeeper = [ \"localhost:2181\" ]\nbrokers = [ \"localhost:9092\" ]\ntopic = \"datain\"\npartitions = 4\n\n[data]\nsource = \"{data_source}\"\nmsg_sleep_in_ms = 1\nchunk_size = 300000\nchunk_sleep_in_ms = 300000 # 5 minutes\n";

/// The name of the configuration file, placed next to the executable.
pub const TOML_FILE_NAME: &'static str = "producer_config.toml";

/// The error of a subcommand.
#[derive(Debug, Clone)]
pub struct SubcommandError {
    message: String,
}

impl View for SubcommandError {
    type V = Seq<char>;

    closed spec fn view(&self) -> Seq<char> {
        self.message@
    }
}

impl SubcommandError {
    /// A subcommand error described by `message`.
    pub fn new(message: String) -> (r: Self)
        ensures
            r@ == message@,
    {
        SubcommandError { message }
    }

    /// The text that describes the error to the user: `Error: ` and the
    /// error's message.
    pub fn to_message(&self) -> (r: String)
        ensures
            r@ == "Error: "@ + self@,
    {
        text::concat("Error: ", self.message.as_str())
    }
}

/// The zookeeper hosts, separated by commas.
pub fn get_zookeeper_string(zookeeper: &Vec<String>) -> (r: String)
    ensures
        r@ == joined(string_views(zookeeper@), ","@),
{
    text::join(zookeeper, ",")
}

/// The zookeeper string gives the hosts back when split at the commas, if
/// there is at least one and none holds a comma; it is as long as the
/// hosts together and a comma between each two.
pub proof fn lemma_zookeeper_string_splits(hosts: Seq<Seq<char>>)
    requires
        hosts.len() > 0,
        forall|i: int| 0 <= i < hosts.len() ==> !(#[trigger] hosts[i]).contains(','),
    ensures
        split_on(joined(hosts, ","@), ',') == hosts,
        joined(hosts, ","@).len() == total_len(hosts) + hosts.len() - 1,
{
    reveal_strlit(",");
    assert(","@ =~= seq![',']);
    lemma_split_joined(hosts, ',');
    lemma_joined_len(hosts, ","@);
}

/// The path of the data file proposed to the user `username`.
pub open spec fn data_source_for(username: Seq<char>) -> Seq<char> {
    "/home/"@ + username + "/data.csv"@
}

/// The text of the configuration template for the user `username`.
pub open spec fn config_text_for(username: Seq<char>) -> Seq<char> {
    replaced(TOML_CONFIG_TEMPLATE@, "{data_source}"@, data_source_for(username))
}

/// The configuration template, with the data file of the user `username`.
pub fn config_template(username: &str) -> (r: String)
    ensures
        r@ == config_text_for(username@),
{
    let source = text::concat("/home/", username);
    let source = text::concat(source.as_str(), "/data.csv");
    proof {
        reveal_strlit("{data_source}");
    }
    text::replace_all(TOML_CONFIG_TEMPLATE, "{data_source}", source.as_str())
}

/// The arguments of `kafka-topics.sh` that delete `topic` through the
/// zookeeper hosts `zookeeper` (given as one string).
pub fn delete_topic_args(zookeeper: &str, topic: &str) -> (r: Vec<String>)
    ensures
        string_views(r@) == seq!["--zookeeper"@, zookeeper@, "--delete"@, "--topic"@, topic@],
{
    let mut r: Vec<String> = Vec::new();
    r.push(text::owned("--zookeeper"));
    r.push(text::owned(zookeeper));
    r.push(text::owned("--delete"));
    r.push(text::owned("--topic"));
    r.push(text::owned(topic));
    assert(string_views(r@) =~= seq!["--zookeeper"@, zookeeper@, "--delete"@, "--topic"@, topic@]);
    r
}

} // verus!
