//! The Kafka producer client: a lazily created native producer that sends
//! records with an empty key.
use crate::kafka::{
    config_entries, config_new, config_set, create_native_producer, free_of_nul,
    kafka_error_text, poll_native_producer, send_native_producer, NativeProducer, OfferedRecord,
};
use crate::text::{has_nul, has_prefix, prefixed};
use rdkafka::config::ClientConfig;
use vstd::prelude::*;

verus! {

/// Start of the message when the native producer cannot be created.
pub const PRODUCER_CREATE_FAILED: &'static str = "Failed to create producer: ";

/// Start of the message when a record is refused.
pub const SEND_FAILED: &'static str = "Failed to send message: ";

/// The message when a producer that was never connected is used.
pub const PRODUCER_NOT_INITIALIZED: &'static str = "Producer not initialized";

/// How many times `produce` serves delivery callbacks after a send.
pub const SEND_POLL_ROUNDS: u64 = 5;

/// How long, in milliseconds, each of those rounds waits.
pub const SEND_POLL_MILLIS: u64 = 50;

/// The longest wait, in milliseconds, that a producer poll can hand on.
pub const MAX_POLL_MILLIS: u64 = 2147483647;

/// The error when a topic to send to holds a NUL, which Kafka topic names
/// cannot.
pub const TOPIC_HAS_NUL: &'static str = "Failed to send message: topic contains a NUL character";

/// The waits, in milliseconds, of the polls that follow a send.
pub open spec fn send_poll_waits() -> Seq<u64> {
    Seq::new(SEND_POLL_ROUNDS as nat, |i: int| SEND_POLL_MILLIS)
}

/// What a producer client is: where it connects, and its native producer if
/// it was created.
pub struct ProducerView {
    pub bootstrap_servers: Seq<char>,
    pub native: Option<NativeProducer>,
}

impl ProducerView {
    /// Whether the native producer exists.
    pub open spec fn connected(self) -> bool {
        self.native is Some
    }

    /// `native` is what the client works with once connected: the native
    /// producer it has, or else one just created from `producer_settings`,
    /// offered nothing yet.
    pub open spec fn connected_native(self, native: NativeProducer) -> bool {
        match self.native {
            Some(n) => native == n,
            None => {
                &&& native.settings() == producer_settings(self.bootstrap_servers)
                &&& native.offered() == Seq::<OfferedRecord>::empty()
                &&& native.accepted() == Seq::<OfferedRecord>::empty()
                &&& native.polls() == Seq::<u64>::empty()
            },
        }
    }
}

/// The parameters with which the native producer is created.
pub open spec fn producer_settings(bootstrap: Seq<char>) -> Map<Seq<char>, Seq<char>> {
    map!["bootstrap.servers"@ => bootstrap, "allow.auto.create.topics"@ => "true"@]
}

/// The record `produce` hands over for `topic` and `payload`: the key is empty.
pub open spec fn produced_record(topic: Seq<char>, payload: Seq<u8>) -> OfferedRecord {
    OfferedRecord { topic, payload, key: Seq::empty() }
}

/// A send of `payload` to `topic` through the client `before` left it as
/// `after` and answered `r`.
pub open spec fn produced(
    before: ProducerView,
    after: ProducerView,
    topic: Seq<char>,
    payload: Seq<u8>,
    r: Result<(), String>,
) -> bool {
    match r {
        Ok(_) => !topic.contains('\0') && exists|base: NativeProducer| #[trigger]
            before.connected_native(base) && after == (ProducerView {
                native: Some(
                    base.after_send(produced_record(topic, payload), true).after_polls(
                        send_poll_waits(),
                    ),
                ),
                ..before
            }),
        Err(m) => {
            ||| after == before && !before.connected() && has_prefix(
                m@,
                PRODUCER_CREATE_FAILED@,
            )
            ||| topic.contains('\0') && m@ == TOPIC_HAS_NUL@ && exists|
                base: NativeProducer,
            | #[trigger]
                before.connected_native(base) && after == (ProducerView {
                    native: Some(base),
                    ..before
                })
            ||| !topic.contains('\0') && has_prefix(m@, SEND_FAILED@) && exists|
                base: NativeProducer,
            | #[trigger]
                before.connected_native(base) && after == (ProducerView {
                    native: Some(base.after_send(produced_record(topic, payload), false)),
                    ..before
                })
        },
    }
}

/// A Kafka producer client.
pub struct KafkaProducerClient {
    bootstrap_servers: String,
    producer: Option<NativeProducer>,
}

impl View for KafkaProducerClient {
    type V = ProducerView;

    closed spec fn view(&self) -> ProducerView {
        ProducerView { bootstrap_servers: self.bootstrap_servers@, native: self.producer }
    }
}

impl KafkaProducerClient {
    /// A client that has not created its native producer yet.
    pub fn new(bootstrap_servers: String) -> (client: Self)
        ensures
            client@ == (ProducerView { bootstrap_servers: bootstrap_servers@, native: None }),
    {
        KafkaProducerClient { bootstrap_servers, producer: None }
    }

    /// The configuration of the native producer.
    pub fn producer_config(&self) -> (config: ClientConfig)
        ensures
            config_entries(config) == producer_settings(self@.bootstrap_servers),
    {
        let mut config = config_new();
        config_set(&mut config, "bootstrap.servers", self.bootstrap_servers.as_str());
        config_set(&mut config, "allow.auto.create.topics", "true");
        assert(config_entries(config) =~= producer_settings(self@.bootstrap_servers));
        config
    }

    /// Creates the native producer from `producer_config`, unless it exists.
    pub fn connect(&mut self) -> (r: Result<(), String>)
        ensures
            old(self)@.connected() ==> r is Ok && final(self)@ == old(self)@,
            !old(self)@.connected() ==> match r {
                Ok(_) => {
                    &&& final(self)@.bootstrap_servers == old(self)@.bootstrap_servers
                    &&& final(self)@.native is Some
                    &&& old(self)@.connected_native(final(self)@.native->0)
                    &&& free_of_nul(producer_settings(old(self)@.bootstrap_servers))
                },
                Err(m) => final(self)@ == old(self)@ && has_prefix(m@, PRODUCER_CREATE_FAILED@),
            },
    {
        if self.producer.is_some() {
            return Ok(());
        }
        let config = self.producer_config();
        match create_native_producer(&config) {
            Ok(producer) => {
                self.producer = Some(producer);
                Ok(())
            },
            Err(e) => {
                let detail = kafka_error_text(&e);
                Err(prefixed(PRODUCER_CREATE_FAILED, detail.as_str()))
            },
        }
    }

    /// Sends `payload` to `topic` with an empty key, connecting first where
    /// needed, then serves delivery callbacks for a while. A topic with a NUL
    /// is refused just before the send.
    pub fn produce(&mut self, topic: &str, payload: &[u8]) -> (r: Result<(), String>)
        ensures
            produced(old(self)@, final(self)@, topic@, payload@, r),
    {
        if self.producer.is_none() {
            match self.connect() {
                Ok(_) => {},
                Err(m) => {
                    return Err(m);
                },
            }
        }
        let mut producer = match self.producer.take() {
            Some(producer) => producer,
            None => {
                return Err(PRODUCER_NOT_INITIALIZED.to_owned());
            },
        };
        let ghost base = producer;
        if has_nul(topic) {
            self.producer = Some(producer);
            assert(old(self)@.connected_native(base));
            return Err(TOPIC_HAS_NUL.to_owned());
        }
        let key = "";
        proof {
            reveal_strlit("");
        }
        assert(key@ =~= Seq::<char>::empty());
        let sent = send_native_producer(&mut producer, topic, payload, key);
        proof {
            base.lemma_after_send(produced_record(topic@, payload@), sent is Ok);
        }
        let outcome = match sent {
            Ok(_) => {
                let ghost sent_native = producer;
                proof {
                    sent_native.lemma_after_polls(Seq::empty(), SEND_POLL_MILLIS);
                    assert(Seq::new(0, |i: int| SEND_POLL_MILLIS) =~= Seq::<u64>::empty());
                }
                let mut round: u64 = 0;
                while round < SEND_POLL_ROUNDS
                    invariant
                        round <= SEND_POLL_ROUNDS,
                        producer == sent_native.after_polls(
                            Seq::new(round as nat, |i: int| SEND_POLL_MILLIS),
                        ),
                    decreases SEND_POLL_ROUNDS - round,
                {
                    let ghost waits = Seq::new(round as nat, |i: int| SEND_POLL_MILLIS);
                    poll_native_producer(&mut producer, SEND_POLL_MILLIS);
                    proof {
                        sent_native.lemma_after_polls(waits, SEND_POLL_MILLIS);
                        assert(waits.push(SEND_POLL_MILLIS) =~= Seq::new(
                            (round + 1) as nat,
                            |i: int| SEND_POLL_MILLIS,
                        ));
                    }
                    round = round + 1;
                }
                Ok(())
            },
            Err(e) => {
                let detail = kafka_error_text(&e);
                Err(prefixed(SEND_FAILED, detail.as_str()))
            },
        };
        self.producer = Some(producer);
        assert(old(self)@.connected_native(base));
        outcome
    }

    /// Serves delivery callbacks for up to `timeout_ms` milliseconds.
    pub fn poll(&mut self, timeout_ms: u64) -> (r: Result<(), String>)
        requires
            old(self)@.connected() ==> timeout_ms <= MAX_POLL_MILLIS,
        ensures
            old(self)@.connected() ==> r is Ok && final(self)@ == (ProducerView {
                native: Some(old(self)@.native->0.after_polls(seq![timeout_ms])),
                ..old(self)@
            }),
            !old(self)@.connected() ==> r is Err && r->Err_0@ == PRODUCER_NOT_INITIALIZED@
                && final(self)@ == old(self)@,
    {
        match self.producer.take() {
            None => Err(PRODUCER_NOT_INITIALIZED.to_owned()),
            Some(mut producer) => {
                poll_native_producer(&mut producer, timeout_ms);
                self.producer = Some(producer);
                Ok(())
            },
        }
    }
}

} // verus!
