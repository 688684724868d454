use log2click::source::Kafka;
use log2click::{CObject, LogMessage, Section, SyncError};

fn text(value: &str) -> CObject {
    CObject::String(value.to_string())
}

fn number(value: f64) -> CObject {
    CObject::Number(value.to_bits())
}

fn queue(size: f64, timeout: f64) -> Section {
    let mut queue = Section::new();
    queue.insert("server".to_string(), text("broker:9092"));
    queue.insert("topic".to_string(), text("logs"));
    queue.insert("group_id".to_string(), text("bridge"));
    queue.insert("username".to_string(), text("reader"));
    queue.insert("password".to_string(), text("secret"));
    queue.insert("size".to_string(), number(size));
    queue.insert("timeout".to_string(), number(timeout));
    queue
}

fn conf(queue: Section) -> Section {
    let mut receive = Section::new();
    receive.insert("kafka".to_string(), CObject::Object(queue));
    let mut conf = Section::new();
    conf.insert("receive".to_string(), CObject::Object(receive));
    conf
}

fn source(size: f64) -> Kafka {
    Kafka::create(&conf(queue(size, 5000.0))).unwrap()
}

fn message(offset: i64) -> LogMessage {
    LogMessage::new("logs", Some(Ok("{}")), 0, offset)
}

fn offsets(batch: &[LogMessage]) -> Vec<i64> {
    batch.iter().map(|record| record.offset).collect()
}

/// One pull: each wait gathers from what arrives during it, and the first
/// wait that gathered anything ends the pull.
fn pull(source: &Kafka, waits: &[Vec<i64>]) -> Option<Vec<i64>> {
    for arrivals in waits {
        let mut batch = Vec::new();
        for offset in arrivals {
            if source.kafka_recv(&mut batch, message(*offset)) {
                break;
            }
        }
        if let Some(out) = source.deliver(batch) {
            return Some(offsets(&out));
        }
    }
    None
}

#[test]
fn source_is_made_from_its_settings() {
    let source = Kafka::create(&conf(queue(100.0, 5000.0))).unwrap();
    assert_eq!(source.server(), "broker:9092");
    assert_eq!(source.topic(), "logs");
    assert_eq!(source.group_id(), "bridge");
    assert_eq!(source.size(), 100);
    assert_eq!(source.timeout(), 5000);
}

#[test]
fn size_and_timeout_are_read_as_whole_numbers() {
    let source = Kafka::create(&conf(queue(2.9, 0.5))).unwrap();
    assert_eq!(source.size(), 2);
    assert_eq!(source.timeout(), 0);
    let source = Kafka::create(&conf(queue(-3.0, f64::NAN))).unwrap();
    assert_eq!(source.size(), 0);
    assert_eq!(source.timeout(), 0);
    let source = Kafka::create(&conf(queue(f64::INFINITY, 1e30))).unwrap();
    assert_eq!(source.size(), usize::MAX);
    assert_eq!(source.timeout(), u64::MAX);
}

#[test]
fn settings_of_another_kind_read_as_empty_or_zero() {
    let mut queue = queue(1.0, 1.0);
    queue.insert("size".to_string(), text("100"));
    queue.insert("server".to_string(), CObject::Number(1));
    let source = Kafka::create(&conf(queue)).unwrap();
    assert_eq!(source.size(), 0);
    assert_eq!(source.server(), "");
}

#[test]
fn source_without_its_section_is_refused() {
    assert!(matches!(Kafka::create(&Section::new()), Err(SyncError::Option)));
    let mut top = Section::new();
    top.insert("receive".to_string(), text("x"));
    assert!(matches!(Kafka::create(&top), Err(SyncError::Option)));
    let mut top = Section::new();
    top.insert("receive".to_string(), CObject::Object(Section::new()));
    assert!(matches!(Kafka::create(&top), Err(SyncError::Option)));
    let mut receive = Section::new();
    receive.insert("kafka".to_string(), CObject::Null);
    let mut top = Section::new();
    top.insert("receive".to_string(), CObject::Object(receive));
    assert!(matches!(Kafka::create(&top), Err(SyncError::Option)));
}

#[test]
fn source_names_the_first_setting_that_is_missing() {
    let names = ["server", "topic", "group_id", "username", "password", "size", "timeout"];
    for left_out in names {
        let full = queue(1.0, 1.0);
        let mut partial = Section::new();
        for index in 0..full.len() {
            if full.key(index) != left_out {
                partial.insert(full.key(index).clone(), text("x"));
            }
        }
        match Kafka::create(&conf(partial)) {
            Err(SyncError::MissingParams(message)) => assert_eq!(
                message,
                format!("Environment variable 'receive.kafka.{}' could not be found.", left_out)
            ),
            other => panic!("unexpected {:?}", other),
        }
    }
    match Kafka::create(&conf(Section::new())) {
        Err(SyncError::MissingParams(message)) => {
            assert_eq!(message, "Environment variable 'receive.kafka.server' could not be found.")
        },
        other => panic!("unexpected {:?}", other),
    }
}

#[test]
fn client_options_are_fixed_but_for_the_settings() {
    let options = source(10.0).options();
    let expected = [
        ("group.id", "bridge"),
        ("bootstrap.servers", "broker:9092"),
        ("auto.offset.reset", "earliest"),
        ("enable.auto.commit", "false"),
        ("sasl.mechanisms", "PLAIN"),
        ("security.protocol", "SASL_PLAINTEXT"),
        ("sasl.username", "reader"),
        ("sasl.password", "secret"),
    ];
    assert_eq!(options.len(), expected.len());
    for (found, wanted) in options.iter().zip(expected.iter()) {
        assert_eq!((found.0.as_str(), found.1.as_str()), *wanted);
    }
}

#[test]
fn message_goes_to_the_end_of_the_batch() {
    let source = source(3.0);
    let mut batch = Vec::new();
    assert!(!source.kafka_recv(&mut batch, message(10)));
    assert!(!source.kafka_recv(&mut batch, message(11)));
    assert_eq!(offsets(&batch), vec![10, 11]);
    assert!(source.kafka_recv(&mut batch, message(12)));
    assert_eq!(offsets(&batch), vec![10, 11, 12]);
    assert!(source.kafka_recv(&mut batch, message(13)));
    assert_eq!(offsets(&batch), vec![10, 11, 12, 13]);
}

#[test]
fn batch_of_size_one_is_full_at_once() {
    let mut batch = Vec::new();
    assert!(source(1.0).kafka_recv(&mut batch, message(1)));
    let mut batch = Vec::new();
    assert!(source(0.0).kafka_recv(&mut batch, message(1)));
    assert_eq!(batch.len(), 1);
}

#[test]
fn empty_batch_is_not_delivered() {
    assert!(source(3.0).deliver(Vec::new()).is_none());
    let out = source(3.0).deliver(vec![message(4)]).unwrap();
    assert_eq!(offsets(&out), vec![4]);
}

#[test]
fn pull_is_never_empty_nor_larger_than_the_size() {
    for size in 1..6usize {
        let source = source(size as f64);
        for arriving in 0..9i64 {
            let arrivals: Vec<i64> = (0..arriving).collect();
            match pull(&source, &[Vec::new(), arrivals.clone(), vec![100, 101]]) {
                Some(batch) => {
                    assert!(!batch.is_empty());
                    assert!(batch.len() <= size);
                    let expected: Vec<i64> = if arriving == 0 {
                        vec![100, 101].into_iter().take(size).collect()
                    } else {
                        arrivals.into_iter().take(size).collect()
                    };
                    assert_eq!(batch, expected);
                },
                None => panic!("a message arrived"),
            }
        }
    }
}

#[test]
fn pull_yields_all_that_arrived_within_a_short_wait() {
    let source = source(5.0);
    assert_eq!(pull(&source, &[vec![7, 8, 9]]), Some(vec![7, 8, 9]));
    assert_eq!(pull(&source, &[Vec::new(), Vec::new(), vec![3]]), Some(vec![3]));
    assert_eq!(pull(&source, &[vec![1, 2, 3, 4]]), Some(vec![1, 2, 3, 4]));
    assert_eq!(pull(&source, &[vec![1, 2, 3, 4, 5, 6, 7]]), Some(vec![1, 2, 3, 4, 5]));
}

#[test]
fn pull_goes_on_while_nothing_arrives() {
    assert_eq!(pull(&source(5.0), &[Vec::new(), Vec::new()]), None);
    assert_eq!(pull(&source(5.0), &[]), None);
}

#[test]
fn pull_with_size_zero_yields_one_message() {
    assert_eq!(pull(&source(0.0), &[vec![1, 2, 3]]), Some(vec![1]));
}

#[test]
fn record_of_a_message_holds_its_payload_as_the_body() {
    let record = LogMessage::new("topic-a", Some(Ok("{\"log\":\"x\"}")), 3, 99);
    assert_eq!(record.topic, "topic-a");
    assert_eq!(record.body, "{\"log\":\"x\"}");
    assert_eq!(record.partition, 3);
    assert_eq!(record.offset, 99);
    assert!(record.log.is_none());
    assert!(record.map.is_none());
}

#[test]
fn record_of_a_message_without_text_has_an_empty_body() {
    let record = LogMessage::new("t", None, -1, -1);
    assert_eq!(record.body, "");
    assert_eq!(record.partition, -1);
    assert_eq!(record.offset, -1);
    let broken = [0xffu8, 0xfe];
    let record = LogMessage::new("t", Some(std::str::from_utf8(&broken)), 0, 0);
    assert_eq!(record.body, "");
    let fine = "héllo".as_bytes();
    let record = LogMessage::new("t", Some(std::str::from_utf8(fine)), 0, 0);
    assert_eq!(record.body, "héllo");
}
