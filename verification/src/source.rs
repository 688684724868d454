//! The queue source: its settings, and the rule by which messages become a
//! batch.

use crate::config::{number_at, object_at, text_at, CObject, Section};
use crate::error::{Fault, SyncError};
use crate::number::{count, to_u64, to_usize, whole};
use crate::record::{records, LogMessage, Record};
use vstd::prelude::*;

verus! {

/// The source for a Kafka topic: where the queue is, what to read, and how
/// large and how late a batch may get.
#[derive(Debug, Clone)]
pub struct Kafka {
    server: String,
    topic: String,
    group_id: String,
    username: String,
    password: String,
    size: usize,
    timeout: u64,
}

/// A [`Kafka`] as contracts see it.
pub struct Source {
    pub server: Seq<char>,
    pub topic: Seq<char>,
    pub group_id: Seq<char>,
    pub username: Seq<char>,
    pub password: Seq<char>,
    /// The number of messages at which a batch is full.
    pub size: int,
    /// The longest wait for a batch, in milliseconds.
    pub timeout: int,
}

/// The failure for the first setting of the source that `conf` lacks.
pub open spec fn receive_missing(conf: Seq<(Seq<char>, CObject)>) -> Option<Fault> {
    if object_at(conf, "receive"@) is None {
        Some(Fault::Option)
    } else if object_at(object_at(conf, "receive"@)->0@, "kafka"@) is None {
        Some(Fault::Option)
    } else {
        let queue = object_at(object_at(conf, "receive"@)->0@, "kafka"@)->0@;
        if text_at(queue, "server"@) is None {
            Some(
                Fault::MissingParams(
                    "Environment variable 'receive.kafka.server' could not be found."@,
                ),
            )
        } else if text_at(queue, "topic"@) is None {
            Some(
                Fault::MissingParams(
                    "Environment variable 'receive.kafka.topic' could not be found."@,
                ),
            )
        } else if text_at(queue, "group_id"@) is None {
            Some(
                Fault::MissingParams(
                    "Environment variable 'receive.kafka.group_id' could not be found."@,
                ),
            )
        } else if text_at(queue, "username"@) is None {
            Some(
                Fault::MissingParams(
                    "Environment variable 'receive.kafka.username' could not be found."@,
                ),
            )
        } else if text_at(queue, "password"@) is None {
            Some(
                Fault::MissingParams(
                    "Environment variable 'receive.kafka.password' could not be found."@,
                ),
            )
        } else if number_at(queue, "size"@) is None {
            Some(
                Fault::MissingParams(
                    "Environment variable 'receive.kafka.size' could not be found."@,
                ),
            )
        } else if number_at(queue, "timeout"@) is None {
            Some(
                Fault::MissingParams(
                    "Environment variable 'receive.kafka.timeout' could not be found."@,
                ),
            )
        } else {
            None
        }
    }
}

/// The source that `conf` describes, where it lacks no setting.
pub open spec fn receive_settings(conf: Seq<(Seq<char>, CObject)>) -> Source {
    let queue = object_at(object_at(conf, "receive"@)->0@, "kafka"@)->0@;
    Source {
        server: text_at(queue, "server"@)->0,
        topic: text_at(queue, "topic"@)->0,
        group_id: text_at(queue, "group_id"@)->0,
        username: text_at(queue, "username"@)->0,
        password: text_at(queue, "password"@)->0,
        size: count(number_at(queue, "size"@)->0),
        timeout: whole(number_at(queue, "timeout"@)->0),
    }
}

/// The options with which a client of the queue is made for `source`: it
/// joins the group, starts at the earliest offset that the group has not
/// confirmed, confirms nothing by itself, and signs in with a plain password.
pub open spec fn client_options(source: Source) -> Seq<(Seq<char>, Seq<char>)> {
    seq![
        ("group.id"@, source.group_id),
        ("bootstrap.servers"@, source.server),
        ("auto.offset.reset"@, "earliest"@),
        ("enable.auto.commit"@, "false"@),
        ("sasl.mechanisms"@, "PLAIN"@),
        ("security.protocol"@, "SASL_PLAINTEXT"@),
        ("sasl.username"@, source.username),
        ("sasl.password"@, source.password),
    ]
}

/// A batch after one more message, and whether it is full then.
pub open spec fn received(size: int, batch: Seq<Record>, message: Record) -> (Seq<Record>, bool) {
    (batch.push(message), batch.len() + 1 >= size)
}

/// The batch that one wait gathers from the messages that arrive during it:
/// each is taken in turn, and none after the batch is full.
pub open spec fn gathered(size: int, batch: Seq<Record>, arrivals: Seq<Record>) -> Seq<Record>
    decreases arrivals.len(),
{
    if arrivals.len() == 0 {
        batch
    } else {
        let (next, full) = received(size, batch, arrivals[0]);
        if full {
            next
        } else {
            gathered(size, next, arrivals.drop_first())
        }
    }
}

/// What a wait that has ended yields: the batch it gathered, unless that is
/// empty.
pub open spec fn delivered(batch: Seq<Record>) -> Option<Seq<Record>> {
    if batch.len() > 0 {
        Some(batch)
    } else {
        None
    }
}

/// What a pull yields over the waits that it takes, given the messages that
/// arrive during each: the batch of the first wait that gathers any. `None`
/// while every wait so far has ended empty.
pub open spec fn pulled(size: int, waits: Seq<Seq<Record>>) -> Option<Seq<Record>>
    decreases waits.len(),
{
    if waits.len() == 0 {
        None
    } else {
        match delivered(gathered(size, Seq::empty(), waits[0])) {
            Some(batch) => Some(batch),
            None => pulled(size, waits.drop_first()),
        }
    }
}

impl View for Kafka {
    type V = Source;

    closed spec fn view(&self) -> Source {
        Source {
            server: self.server@,
            topic: self.topic@,
            group_id: self.group_id@,
            username: self.username@,
            password: self.password@,
            size: self.size as int,
            timeout: self.timeout as int,
        }
    }
}

impl Kafka {
    /// The source that `conf` describes under `receive.kafka`. Fails where a
    /// setting is missing.
    pub fn create(conf: &Section) -> (r: Result<Kafka, SyncError>)
        ensures
            match receive_missing(conf@) {
                Some(fault) => r matches Err(error) && error@ == fault,
                None => r matches Ok(source) && source@ == receive_settings(conf@),
            },
    {
        let receive = match conf.object("receive") {
            Some(section) => section,
            None => {
                return Err(SyncError::Option);
            },
        };
        let queue = match receive.object("kafka") {
            Some(section) => section,
            None => {
                return Err(SyncError::Option);
            },
        };
        let server = match queue.string("server") {
            Some(text) => text,
            None => {
                return Err(
                    SyncError::MissingParams(
                        "Environment variable 'receive.kafka.server' could not be found.",
                    ),
                );
            },
        };
        let topic = match queue.string("topic") {
            Some(text) => text,
            None => {
                return Err(
                    SyncError::MissingParams(
                        "Environment variable 'receive.kafka.topic' could not be found.",
                    ),
                );
            },
        };
        let group_id = match queue.string("group_id") {
            Some(text) => text,
            None => {
                return Err(
                    SyncError::MissingParams(
                        "Environment variable 'receive.kafka.group_id' could not be found.",
                    ),
                );
            },
        };
        let username = match queue.string("username") {
            Some(text) => text,
            None => {
                return Err(
                    SyncError::MissingParams(
                        "Environment variable 'receive.kafka.username' could not be found.",
                    ),
                );
            },
        };
        let password = match queue.string("password") {
            Some(text) => text,
            None => {
                return Err(
                    SyncError::MissingParams(
                        "Environment variable 'receive.kafka.password' could not be found.",
                    ),
                );
            },
        };
        let size = match queue.number("size") {
            Some(bits) => to_usize(bits),
            None => {
                return Err(
                    SyncError::MissingParams(
                        "Environment variable 'receive.kafka.size' could not be found.",
                    ),
                );
            },
        };
        let timeout = match queue.number("timeout") {
            Some(bits) => to_u64(bits),
            None => {
                return Err(
                    SyncError::MissingParams(
                        "Environment variable 'receive.kafka.timeout' could not be found.",
                    ),
                );
            },
        };
        Ok(Kafka { server, topic, group_id, username, password, size, timeout })
    }

    /// The address of the queue.
    pub fn server(&self) -> (r: &str)
        ensures
            r@ == self@.server,
    {
        self.server.as_str()
    }

    /// The topic to read.
    pub fn topic(&self) -> (r: &str)
        ensures
            r@ == self@.topic,
    {
        self.topic.as_str()
    }

    /// The group of consumers to read as.
    pub fn group_id(&self) -> (r: &str)
        ensures
            r@ == self@.group_id,
    {
        self.group_id.as_str()
    }

    /// The number of messages at which a batch is full.
    pub fn size(&self) -> (r: usize)
        ensures
            r == self@.size,
    {
        self.size
    }

    /// The longest wait for a batch, in milliseconds.
    pub fn timeout(&self) -> (r: u64)
        ensures
            r == self@.timeout,
    {
        self.timeout
    }

    /// The options with which to make the client of the queue.
    pub fn options(&self) -> (r: Vec<(String, String)>)
        ensures
            r@.len() == client_options(self@).len(),
            forall|i: int|
                0 <= i < r@.len() ==> ((#[trigger] r@[i]).0@, r@[i].1@) == client_options(self@)[i],
    {
        let mut out: Vec<(String, String)> = Vec::new();
        out.push((String::from_str("group.id"), self.group_id.clone()));
        out.push((String::from_str("bootstrap.servers"), self.server.clone()));
        out.push((String::from_str("auto.offset.reset"), String::from_str("earliest")));
        out.push((String::from_str("enable.auto.commit"), String::from_str("false")));
        out.push((String::from_str("sasl.mechanisms"), String::from_str("PLAIN")));
        out.push((String::from_str("security.protocol"), String::from_str("SASL_PLAINTEXT")));
        out.push((String::from_str("sasl.username"), self.username.clone()));
        out.push((String::from_str("sasl.password"), self.password.clone()));
        out
    }

    /// Takes one more message into the batch, and says whether the batch is
    /// full with it.
    pub fn kafka_recv(&self, message_vec: &mut Vec<LogMessage>, message: LogMessage) -> (full: bool)
        ensures
            (records(final(message_vec)@), full) == received(
                self@.size,
                records(old(message_vec)@),
                message@,
            ),
    {
        message_vec.push(message);
        assert(records(message_vec@) =~= records(old(message_vec)@).push(message@));
        message_vec.len() >= self.size
    }

    /// Ends a wait: the batch that it gathered is handed on, unless it is
    /// empty; then the pull starts over.
    pub fn deliver(&self, batch: Vec<LogMessage>) -> (r: Option<Vec<LogMessage>>)
        ensures
            match r {
                Some(out) => out == batch && delivered(records(batch@)) == Some(records(out@)),
                None => delivered(records(batch@)) is None,
            },
    {
        if batch.len() > 0 {
            Some(batch)
        } else {
            None
        }
    }
}

/// The number of messages that fills a batch: the configured size, and one
/// where the size is less, since a batch is looked at only after a message
/// went into it.
pub open spec fn capacity(size: int) -> int {
    if size < 1 {
        1
    } else {
        size
    }
}

/// Gathering into a batch that is not full takes the arrivals in order until
/// the batch is full, and no more.
pub proof fn lemma_gathered(size: int, batch: Seq<Record>, arrivals: Seq<Record>)
    requires
        batch.len() < capacity(size),
    ensures
        gathered(size, batch, arrivals) == batch + arrivals.take(
            if arrivals.len() < capacity(size) - batch.len() {
                arrivals.len() as int
            } else {
                capacity(size) - batch.len()
            },
        ),
    decreases arrivals.len(),
{
    let room = capacity(size) - batch.len();
    if arrivals.len() == 0 {
        assert(batch + arrivals.take(0) =~= batch);
    } else {
        let next = batch.push(arrivals[0]);
        let rest = arrivals.drop_first();
        if next.len() >= size {
            assert(room == 1);
            assert(batch + arrivals.take(1) =~= next);
        } else {
            lemma_gathered(size, next, rest);
            let taken = if rest.len() < room - 1 {
                rest.len() as int
            } else {
                room - 1
            };
            assert(next + rest.take(taken) =~= batch + arrivals.take(taken + 1));
        }
    }
}

/// A pull never yields an empty batch, nor a batch of more messages than the
/// configured size, whatever arrives and however long it takes.
pub proof fn law_batch_within_size(size: int, waits: Seq<Seq<Record>>)
    requires
        size >= 1,
    ensures
        pulled(size, waits) matches Some(batch) ==> 1 <= batch.len() <= size,
    decreases waits.len(),
{
    if waits.len() > 0 {
        lemma_gathered(size, Seq::empty(), waits[0]);
        law_batch_within_size(size, waits.drop_first());
    }
}

/// Whatever the configured size, the batch that a pull yields is made of the
/// first messages of the first wait during which any arrived, in their order.
pub proof fn law_batch_is_what_arrived(size: int, waits: Seq<Seq<Record>>) -> (at: int)
    requires
        pulled(size, waits) is Some,
    ensures
        0 <= at < waits.len(),
        forall|i: int| 0 <= i < at ==> (#[trigger] waits[i]).len() == 0,
        pulled(size, waits)->0.len() >= 1,
        pulled(size, waits)->0 == waits[at].take(pulled(size, waits)->0.len() as int),
    decreases waits.len(),
{
    lemma_gathered(size, Seq::empty(), waits[0]);
    let first = gathered(size, Seq::empty(), waits[0]);
    if first.len() > 0 {
        assert(first =~= waits[0].take(first.len() as int));
        0
    } else {
        let rest = waits.drop_first();
        let at = law_batch_is_what_arrived(size, rest);
        assert forall|i: int| 0 <= i < at + 1 implies (#[trigger] waits[i]).len() == 0 by {
            if i > 0 {
                assert(rest[i - 1].len() == 0);
            }
        }
        at + 1
    }
}

/// If fewer messages than the configured size arrive during a wait, and at
/// least one, and none arrived during the waits before it, the pull yields
/// exactly the messages that arrived during that wait.
pub proof fn law_short_wait_yields_all(size: int, waits: Seq<Seq<Record>>, at: int)
    requires
        0 <= at < waits.len(),
        forall|i: int| 0 <= i < at ==> (#[trigger] waits[i]).len() == 0,
        1 <= waits[at].len() < size,
    ensures
        pulled(size, waits) == Some(waits[at]),
    decreases at,
{
    lemma_gathered(size, Seq::empty(), waits[0]);
    if at == 0 {
        assert(Seq::<Record>::empty() + waits[0].take(waits[0].len() as int) =~= waits[0]);
    } else {
        assert(waits[0].len() == 0);
        let rest = waits.drop_first();
        assert forall|i: int| 0 <= i < at - 1 implies (#[trigger] rest[i]).len() == 0 by {
            assert(waits[i + 1].len() == 0);
        }
        law_short_wait_yields_all(size, rest, at - 1);
    }
}

} // verus!
