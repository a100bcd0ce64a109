//! The kinds of messages the producer sends, and the errors of sending.

use vstd::prelude::*;

use crate::text;

verus! {

/// How the records of the CSV file are read and keyed.
#[derive(Debug, Clone, Copy, PartialEq, Eq, Structural)]
pub enum MessageType {
    /// Records with the fields of a message, keyed by their id.
    Message,
    /// Arbitrary JSON values, keyed by the configured key.
    Value,
}

/// The message type a name designates: `value` names [`MessageType::Value`],
/// any other name [`MessageType::Message`].
pub open spec fn message_type_named(name: Seq<char>) -> MessageType {
    if name == "value"@ {
        MessageType::Value
    } else {
        MessageType::Message
    }
}

impl Default for MessageType {
    fn default() -> (r: Self)
        ensures
            r == MessageType::Message,
    {
        MessageType::Message
    }
}

impl<'a> From<&'a str> for MessageType {
    fn from(value: &'a str) -> (r: Self) {
        if text::same_text(value, "value") {
            MessageType::Value
        } else {
            MessageType::Message
        }
    }
}

impl<'a> vstd::std_specs::convert::FromSpecImpl<&'a str> for MessageType {
    open spec fn obeys_from_spec() -> bool {
        true
    }

    open spec fn from_spec(value: &'a str) -> MessageType {
        message_type_named(value@)
    }
}

/// The errors of sending records to Kafka.
#[derive(Debug, PartialEq)]
pub enum KafkaSendError {
    /// The producer could not be created from the given hosts.
    ProducerCreationError(String),
    /// A record could not be sent to the given topic.
    UnknownError(String),
}

/// The text that describes a sending error to the user.
pub open spec fn send_error_message(e: KafkaSendError) -> Seq<char> {
    match e {
        KafkaSendError::UnknownError(topic) => "Error sending message to Kafka topic '"@ + topic@
            + "'."@,
        KafkaSendError::ProducerCreationError(hosts) => "Error creating the producer from hosts '"@
            + hosts@ + "'"@,
    }
}

impl KafkaSendError {
    /// The error of a record that could not be sent to the topic `message`.
    pub fn new_unknown_error(message: String) -> (r: KafkaSendError)
        ensures
            r == KafkaSendError::UnknownError(message),
    {
        KafkaSendError::UnknownError(message)
    }

    /// The text that describes the error to the user.
    pub fn message(&self) -> (r: String)
        ensures
            r@ == send_error_message(*self),
    {
        match self {
            KafkaSendError::UnknownError(topic) => {
                let r = text::concat("Error sending message to Kafka topic '", topic.as_str());
                text::concat(r.as_str(), "'.")
            },
            KafkaSendError::ProducerCreationError(hosts) => {
                let r = text::concat("Error creating the producer from hosts '", hosts.as_str());
                text::concat(r.as_str(), "'")
            },
        }
    }
}

} // verus!
