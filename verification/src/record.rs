//! The record that flows through the pipeline.

use crate::json::fields;
use vstd::prelude::*;

verus! {

/// `core::str::Utf8Error`: why bytes are no text. It is never read.
#[verifier::external_type_specification]
#[verifier::external_body]
pub struct ExUtf8Error(core::str::Utf8Error);

/// One message of the queue: where it came from, its raw payload, and what
/// the filters have made of it so far.
#[derive(Debug, Clone)]
pub struct LogMessage {
    pub topic: String,
    /// The raw payload.
    pub body: String,
    pub partition: i32,
    pub offset: i64,
    /// The log line proper, once a parsing filter has extracted it.
    pub log: Option<String>,
    /// The attributes, once a parsing filter has decoded them.
    pub map: Option<serde_json::Map<String, serde_json::Value>>,
}

/// A [`LogMessage`] as contracts see it.
pub struct Record {
    pub topic: Seq<char>,
    pub body: Seq<char>,
    pub partition: int,
    pub offset: int,
    pub log: Option<Seq<char>>,
    pub map: Option<Map<Seq<char>, Option<Seq<char>>>>,
}

impl View for LogMessage {
    type V = Record;

    open spec fn view(&self) -> Record {
        Record {
            topic: self.topic@,
            body: self.body@,
            partition: self.partition as int,
            offset: self.offset as int,
            log: match self.log {
                Some(text) => Some(text@),
                None => None,
            },
            map: match self.map {
                Some(object) => Some(fields(object)),
                None => None,
            },
        }
    }
}

/// Each message of `batch` as a record.
pub open spec fn records(batch: Seq<LogMessage>) -> Seq<Record> {
    Seq::new(batch.len(), |i: int| batch[i]@)
}

impl LogMessage {
    /// The record for a message read from `topic`: its body is the payload
    /// where there is one and it is text, and empty otherwise; nothing is
    /// extracted yet.
    pub fn new(
        topic: &str,
        payload: Option<Result<&str, core::str::Utf8Error>>,
        partition: i32,
        offset: i64,
    ) -> (r: LogMessage)
        ensures
            r@ == (Record {
                topic: topic@,
                body: match payload {
                    Some(Ok(text)) => text@,
                    _ => Seq::<char>::empty(),
                },
                partition: partition as int,
                offset: offset as int,
                log: None,
                map: None,
            }),
    {
        let body = match payload {
            Some(Ok(text)) => String::from_str(text),
            _ => String::new(),
        };
        LogMessage { topic: String::from_str(topic), body, partition, offset, log: None, map: None }
    }
}

} // verus!
