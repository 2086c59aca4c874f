//! The boundary with the `rdkafka` client library.
//!
//! Each `external_body` function here forwards to `rdkafka`; its contract
//! states what rdkafka's source shows of that call. The native clients carry
//! ghost records of what was handed to them: the settings they were created
//! with, the subscriptions requested, the records offered, the waits polled.
use rdkafka::config::ClientConfig;
use rdkafka::consumer::{BaseConsumer, Consumer};
use rdkafka::error::KafkaError;
use rdkafka::producer::{BaseProducer, BaseRecord};
use rdkafka::Message;
use std::time::Duration;
use vstd::prelude::*;

verus! {

/// `rdkafka::config::ClientConfig`, a map from parameter names to values.
#[verifier::external_type_specification]
#[verifier::external_body]
pub struct ExClientConfig(ClientConfig);

/// An `rdkafka::consumer::BaseConsumer`, a handle on a native consumer,
/// held opaque: `BaseConsumer`'s parameter is bound by an rdkafka trait.
#[verifier::external_body]
pub struct ConsumerHandle {
    inner: BaseConsumer,
}

/// An `rdkafka::producer::BaseProducer`, a handle on a native producer,
/// held opaque: `BaseProducer`'s parameters are bound by rdkafka traits.
#[verifier::external_body]
pub struct ProducerHandle {
    inner: BaseProducer,
}

/// `rdkafka::error::KafkaError`, the error of every fallible client call.
#[verifier::external_type_specification]
#[verifier::external_body]
pub struct ExKafkaError(KafkaError);

/// The parameters that a `ClientConfig` holds: its private `conf_map`,
/// which only `ClientConfig::set` (an insert) fills.
pub uninterp spec fn config_entries(config: ClientConfig) -> Map<Seq<char>, Seq<char>>;

/// No parameter name or value holds a NUL character.
pub open spec fn free_of_nul(settings: Map<Seq<char>, Seq<char>>) -> bool {
    forall|k: Seq<char>| #[trigger]
        settings.contains_key(k) ==> !k.contains('\0') && !settings[k].contains('\0')
}

/// A record offered to a producer: topic, payload and key.
pub struct OfferedRecord {
    pub topic: Seq<char>,
    pub payload: Seq<u8>,
    pub key: Seq<char>,
}

/// What a poll of a native consumer delivered.
pub enum Delivery {
    /// No message in time.
    Timeout,
    /// A message, with its payload where it has one.
    Message(Option<Seq<u8>>),
    /// An error.
    Failure,
}

/// What the native poll's result `r` delivered.
pub open spec fn delivery_of(r: Option<Result<Option<Vec<u8>>, KafkaError>>) -> Delivery {
    match r {
        None => Delivery::Timeout,
        Some(Ok(Some(payload))) => Delivery::Message(Some(payload@)),
        Some(Ok(None)) => Delivery::Message(None),
        Some(Err(_)) => Delivery::Failure,
    }
}

/// A native consumer, with a ghost record of the settings it was created
/// with, of every topic it was asked to subscribe to, of the topic of the
/// last subscription it accepted, and of every wait it was polled for and
/// what each poll delivered.
pub struct NativeConsumer {
    handle: ConsumerHandle,
    settings: Ghost<Map<Seq<char>, Seq<char>>>,
    requests: Ghost<Seq<Seq<char>>>,
    subscription: Ghost<Option<Seq<char>>>,
    polls: Ghost<Seq<Duration>>,
    deliveries: Ghost<Seq<Delivery>>,
}

impl NativeConsumer {
    /// The settings the native consumer was created with.
    pub closed spec fn settings(&self) -> Map<Seq<char>, Seq<char>> {
        self.settings@
    }

    /// Every topic it was asked to subscribe to, in order.
    pub closed spec fn requests(&self) -> Seq<Seq<char>> {
        self.requests@
    }

    /// The topic of the last subscription it accepted.
    pub closed spec fn subscription(&self) -> Option<Seq<char>> {
        self.subscription@
    }

    /// Every wait it was polled for, in order.
    pub closed spec fn polls(&self) -> Seq<Duration> {
        self.polls@
    }

    /// What each poll delivered, in order.
    pub closed spec fn deliveries(&self) -> Seq<Delivery> {
        self.deliveries@
    }

    /// The same native consumer after a subscription request for `topic`
    /// that it accepted or not.
    pub closed spec fn after_subscribe(self, topic: Seq<char>, accepted: bool) -> NativeConsumer {
        NativeConsumer {
            requests: Ghost(self.requests@.push(topic)),
            subscription: if accepted {
                Ghost(Some(topic))
            } else {
                self.subscription
            },
            ..self
        }
    }

    /// The same native consumer after a poll that waited up to `timeout`
    /// and delivered `delivery`.
    pub closed spec fn after_poll(self, timeout: Duration, delivery: Delivery) -> NativeConsumer {
        NativeConsumer {
            polls: Ghost(self.polls@.push(timeout)),
            deliveries: Ghost(self.deliveries@.push(delivery)),
            ..self
        }
    }

    /// What `after_subscribe` changes.
    pub proof fn lemma_after_subscribe(self, topic: Seq<char>, accepted: bool)
        ensures
            self.after_subscribe(topic, accepted).settings() == self.settings(),
            self.after_subscribe(topic, accepted).requests() == self.requests().push(topic),
            self.after_subscribe(topic, accepted).subscription() == (if accepted {
                Some(topic)
            } else {
                self.subscription()
            }),
            self.after_subscribe(topic, accepted).polls() == self.polls(),
            self.after_subscribe(topic, accepted).deliveries() == self.deliveries(),
    {
    }

    /// What `after_poll` changes.
    pub proof fn lemma_after_poll(self, timeout: Duration, delivery: Delivery)
        ensures
            self.after_poll(timeout, delivery).settings() == self.settings(),
            self.after_poll(timeout, delivery).requests() == self.requests(),
            self.after_poll(timeout, delivery).subscription() == self.subscription(),
            self.after_poll(timeout, delivery).polls() == self.polls().push(timeout),
            self.after_poll(timeout, delivery).deliveries() == self.deliveries().push(delivery),
    {
    }
}

/// A native producer, with a ghost record of the settings it was created
/// with, of every record it was offered, of the records it accepted, and of
/// every wait, in milliseconds, it was polled for.
pub struct NativeProducer {
    handle: ProducerHandle,
    settings: Ghost<Map<Seq<char>, Seq<char>>>,
    offered: Ghost<Seq<OfferedRecord>>,
    accepted: Ghost<Seq<OfferedRecord>>,
    polls: Ghost<Seq<u64>>,
}

impl NativeProducer {
    /// The settings the native producer was created with.
    pub closed spec fn settings(&self) -> Map<Seq<char>, Seq<char>> {
        self.settings@
    }

    /// Every record offered to it, in order.
    pub closed spec fn offered(&self) -> Seq<OfferedRecord> {
        self.offered@
    }

    /// The records it took into its queue, in order.
    pub closed spec fn accepted(&self) -> Seq<OfferedRecord> {
        self.accepted@
    }

    /// Every wait, in milliseconds, it was polled for, in order.
    pub closed spec fn polls(&self) -> Seq<u64> {
        self.polls@
    }

    /// The same native producer after `record` was offered and taken or not.
    pub closed spec fn after_send(self, record: OfferedRecord, taken: bool) -> NativeProducer {
        NativeProducer {
            offered: Ghost(self.offered@.push(record)),
            accepted: if taken {
                Ghost(self.accepted@.push(record))
            } else {
                self.accepted
            },
            ..self
        }
    }

    /// The same native producer after polls that waited `waits`, in order.
    pub closed spec fn after_polls(self, waits: Seq<u64>) -> NativeProducer {
        NativeProducer { polls: Ghost(self.polls@ + waits), ..self }
    }

    /// What `after_send` changes.
    pub proof fn lemma_after_send(self, record: OfferedRecord, taken: bool)
        ensures
            self.after_send(record, taken).settings() == self.settings(),
            self.after_send(record, taken).offered() == self.offered().push(record),
            self.after_send(record, taken).accepted() == (if taken {
                self.accepted().push(record)
            } else {
                self.accepted()
            }),
            self.after_send(record, taken).polls() == self.polls(),
    {
    }

    /// What `after_polls` changes; no waits change nothing, and one more
    /// wait extends the waits.
    pub proof fn lemma_after_polls(self, waits: Seq<u64>, ms: u64)
        ensures
            self.after_polls(waits).settings() == self.settings(),
            self.after_polls(waits).offered() == self.offered(),
            self.after_polls(waits).accepted() == self.accepted(),
            self.after_polls(waits).polls() == self.polls() + waits,
            self.after_polls(Seq::empty()) == self,
            self.after_polls(waits).after_polls(seq![ms]) == self.after_polls(waits.push(ms)),
    {
        assert(self.polls@ + Seq::<u64>::empty() =~= self.polls@);
        assert(self.polls@ + waits + seq![ms] =~= self.polls@ + waits.push(ms));
    }
}

/// `ClientConfig::new`: the map of parameters starts empty.
#[verifier::external_body]
pub(crate) fn config_new() -> (fresh: ClientConfig)
    ensures
        config_entries(fresh) =~= Map::empty(),
{
    ClientConfig::new()
}

/// `ClientConfig::set`: inserts `value` under `key`, replacing an earlier value.
#[verifier::external_body]
pub(crate) fn config_set(config: &mut ClientConfig, key: &str, value: &str)
    ensures
        config_entries(*final(config)) == config_entries(*old(config)).insert(key@, value@),
{
    config.set(key, value);
}

/// `ClientConfig::create::<BaseConsumer>`: builds a native consumer from the
/// parameters of `config`. Whether it succeeds depends on librdkafka and the
/// machine; it fails where a name or value holds a NUL (`CString::new`).
#[verifier::external_body]
pub(crate) fn create_native_consumer(config: &ClientConfig) -> (r: Result<NativeConsumer, KafkaError>)
    ensures
        r is Ok ==> r->Ok_0.settings() == config_entries(*config) && r->Ok_0.requests()
            == Seq::<Seq<char>>::empty() && r->Ok_0.subscription() is None && r->Ok_0.polls()
            == Seq::<Duration>::empty() && r->Ok_0.deliveries() == Seq::<Delivery>::empty(),
        r is Ok ==> free_of_nul(config_entries(*config)),
{
    match config.create::<BaseConsumer>() {
        Ok(inner) => Ok(NativeConsumer {
            handle: ConsumerHandle { inner },
            settings: Ghost(config_entries(*config)),
            requests: Ghost(Seq::empty()),
            subscription: Ghost(None),
            polls: Ghost(Seq::empty()),
            deliveries: Ghost(Seq::empty()),
        }),
        Err(e) => Err(e),
    }
}

/// `Consumer::subscribe` with the one topic `topic`, which replaces the
/// subscription. The request is recorded whatever the outcome, which depends
/// on librdkafka. A topic with a NUL panics in rdkafka, so it is excluded.
#[verifier::external_body]
pub(crate) fn subscribe_native_consumer(consumer: &mut NativeConsumer, topic: &str) -> (r: Result<
    (),
    KafkaError,
>)
    requires
        !topic@.contains('\0'),
    ensures
        *final(consumer) == old(consumer).after_subscribe(topic@, r is Ok),
{
    consumer.handle.inner.subscribe(&[topic])
}

/// `BaseConsumer::poll`: waits up to `timeout` for an event; a received message
/// is handed back as a copy of its payload. The wait and what was delivered
/// are recorded; what arrives depends on the brokers.
#[verifier::external_body]
pub(crate) fn poll_native_consumer(consumer: &mut NativeConsumer, timeout: Duration) -> (r: Option<
    Result<Option<Vec<u8>>, KafkaError>,
>)
    ensures
        *final(consumer) == old(consumer).after_poll(timeout, delivery_of(r)),
{
    consumer.handle.inner.poll(timeout).map(|r| r.map(|m| m.payload().map(|p| p.to_vec())))
}

/// `ClientConfig::create::<BaseProducer>`: builds a native producer from the
/// parameters of `config`. Whether it succeeds depends on librdkafka and the
/// machine; it fails where a name or value holds a NUL (`CString::new`).
#[verifier::external_body]
pub(crate) fn create_native_producer(config: &ClientConfig) -> (r: Result<NativeProducer, KafkaError>)
    ensures
        r is Ok ==> r->Ok_0.settings() == config_entries(*config) && r->Ok_0.offered()
            == Seq::<OfferedRecord>::empty() && r->Ok_0.accepted() == Seq::<OfferedRecord>::empty()
            && r->Ok_0.polls() == Seq::<u64>::empty(),
        r is Ok ==> free_of_nul(config_entries(*config)),
{
    match config.create::<BaseProducer>() {
        Ok(inner) => Ok(NativeProducer {
            handle: ProducerHandle { inner },
            settings: Ghost(config_entries(*config)),
            offered: Ghost(Seq::empty()),
            accepted: Ghost(Seq::empty()),
            polls: Ghost(Seq::empty()),
        }),
        Err(e) => Err(e),
    }
}

/// `BaseProducer::send` of the record `BaseRecord::to(topic).payload(payload).key(key)`;
/// the record handed back with an error is dropped. The offer is recorded,
/// and on success the record is taken into the queue; which outcome depends
/// on librdkafka. A topic with a NUL panics in rdkafka, so it is excluded.
#[verifier::external_body]
pub(crate) fn send_native_producer(
    producer: &mut NativeProducer,
    topic: &str,
    payload: &[u8],
    key: &str,
) -> (r: Result<(), KafkaError>)
    requires
        !topic@.contains('\0'),
    ensures
        *final(producer) == old(producer).after_send(
            OfferedRecord { topic: topic@, payload: payload@, key: key@ },
            r is Ok,
        ),
{
    producer.handle.inner.send(BaseRecord::to(topic).payload(payload).key(key)).map_err(|(e, _)| e)
}

/// `BaseProducer::poll`: serves delivery callbacks for up to `timeout_ms`
/// milliseconds; the wait is recorded. rdkafka hands librdkafka the
/// milliseconds as an `i32`, where a longer wait wraps, to a wait without
/// end among others, so it is excluded.
#[verifier::external_body]
pub(crate) fn poll_native_producer(producer: &mut NativeProducer, timeout_ms: u64)
    requires
        timeout_ms <= i32::MAX,
    ensures
        *final(producer) == old(producer).after_polls(seq![timeout_ms]),
{
    producer.handle.inner.poll(Duration::from_millis(timeout_ms))
}

/// The `Display` text of a `KafkaError`. Nothing is stated of the text: it is
/// written by rdkafka and librdkafka from the error's fields.
#[verifier::external_body]
pub(crate) fn kafka_error_text(error: &KafkaError) -> (text: String) {
    format!("{}", error)
}

} // verus!
