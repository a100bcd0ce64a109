use edge_approximate::producer::messages::{KafkaSendError, MessageType};
use edge_approximate::producer::schedule::{ChunkEvent, ChunkSchedule};
use edge_approximate::producer::subcommands::{delete_topic_args, SubcommandError};

#[test]
fn chunks_go_to_partitions_in_turn() {
    let mut schedule = ChunkSchedule::new(2, 3);
    let mut events = vec![];
    for _ in 0..9 {
        events.push(schedule.record_read());
    }
    assert_eq!(
        events,
        vec![
            ChunkEvent::Gather,
            ChunkEvent::Send { partition: 0 },
            ChunkEvent::Gather,
            ChunkEvent::Send { partition: 1 },
            ChunkEvent::Gather,
            ChunkEvent::Send { partition: 2 },
            ChunkEvent::Gather,
            ChunkEvent::Send { partition: 0 },
            ChunkEvent::Gather,
        ]
    );
}

#[test]
fn chunk_of_one_sends_every_record() {
    let mut schedule = ChunkSchedule::new(1, 1);
    assert_eq!(schedule.record_read(), ChunkEvent::Send { partition: 0 });
    assert_eq!(schedule.record_read(), ChunkEvent::Send { partition: 0 });
}

#[test]
fn message_types_by_name() {
    assert_eq!(MessageType::from("value"), MessageType::Value);
    assert_eq!(MessageType::from("message"), MessageType::Message);
    assert_eq!(MessageType::from("Value"), MessageType::Message);
    assert_eq!(MessageType::default(), MessageType::Message);
}

#[test]
fn error_messages() {
    assert_eq!(
        KafkaSendError::new_unknown_error("datain".to_string()).message(),
        "Error sending message to Kafka topic 'datain'."
    );
    assert_eq!(
        KafkaSendError::ProducerCreationError("h:9092".to_string()).message(),
        "Error creating the producer from hosts 'h:9092'"
    );
    assert_eq!(
        SubcommandError::new("Unable to delete topic.".to_string()).to_message(),
        "Error: Unable to delete topic."
    );
    assert_eq!(
        delete_topic_args("zk1:2181,zk2:2181", "datain"),
        vec!["--zookeeper", "zk1:2181,zk2:2181", "--delete", "--topic", "datain"]
    );
}
