//! The Kafka consumer client: a lazily created native consumer that is
//! subscribed to at most one topic at a time.
use crate::kafka::{
    config_entries, config_new, config_set, create_native_consumer, delivery_of, free_of_nul,
    Delivery,
    kafka_error_text, poll_native_consumer, subscribe_native_consumer, NativeConsumer,
};
use crate::text::{has_prefix, prefixed};
use rdkafka::config::ClientConfig;
use std::time::Duration;
use vstd::prelude::*;

verus! {

/// Start of the message when the native consumer cannot be created.
pub const CONSUMER_CREATE_FAILED: &'static str = "Failed to create consumer: ";

/// Start of the message when the subscription is refused.
pub const SUBSCRIBE_FAILED: &'static str = "Failed to subscribe: ";

/// Start of the message when a poll reports an error.
pub const RECEIVE_FAILED: &'static str = "Error receiving message: ";

/// The message when a consumer that was never connected is polled.
pub const CONSUMER_NOT_INITIALIZED: &'static str = "Consumer not initialized";

/// What a consumer client is: where it connects, in which group, its native
/// consumer if it was created, and the topic it is subscribed to.
pub struct ConsumerView {
    pub bootstrap_servers: Seq<char>,
    pub group_id: Seq<char>,
    pub native: Option<NativeConsumer>,
    pub subscribed_topic: Option<Seq<char>>,
}

impl ConsumerView {
    /// Whether the native consumer exists.
    pub open spec fn connected(self) -> bool {
        self.native is Some
    }

    /// A subscribed topic is the one the native consumer last accepted.
    pub open spec fn wf(self) -> bool {
        self.subscribed_topic is Some ==> self.native is Some && self.native->0.subscription()
            == self.subscribed_topic
    }

    /// `native` is what the client works with once connected: the native
    /// consumer it has, or else one just created from `consumer_settings`,
    /// asked nothing yet.
    pub open spec fn connected_native(self, native: NativeConsumer) -> bool {
        match self.native {
            Some(n) => native == n,
            None => {
                &&& native.settings() == consumer_settings(self.bootstrap_servers, self.group_id)
                &&& native.requests() == Seq::<Seq<char>>::empty()
                &&& native.subscription() is None
                &&& native.polls() == Seq::<Duration>::empty()
                &&& native.deliveries() == Seq::<Delivery>::empty()
            },
        }
    }
}

/// The parameters with which a consumer of group `group` is created.
pub open spec fn consumer_settings(bootstrap: Seq<char>, group: Seq<char>) -> Map<
    Seq<char>,
    Seq<char>,
> {
    map![
        "bootstrap.servers"@ => bootstrap,
        "group.id"@ => group,
        "session.timeout.ms"@ => "6000"@,
        "auto.offset.reset"@ => "latest"@,
    ]
}

/// What a poll answers for what the native consumer delivered: nothing on a
/// timeout or an empty message, the payload of a message, or an error
/// message after `RECEIVE_FAILED`.
pub open spec fn poll_answer(delivery: Delivery, r: Result<Option<Vec<u8>>, String>) -> bool {
    match delivery {
        Delivery::Timeout => r == Ok::<Option<Vec<u8>>, String>(None),
        Delivery::Message(None) => r == Ok::<Option<Vec<u8>>, String>(None),
        Delivery::Message(Some(payload)) => r is Ok && r->Ok_0 is Some && r->Ok_0->0@ == payload,
        Delivery::Failure => r is Err && has_prefix(r->Err_0@, RECEIVE_FAILED@),
    }
}

/// A poll of the client `before`, waiting up to `timeout`, left it as
/// `after` and answered `r`.
pub open spec fn consumer_polled(
    before: ConsumerView,
    after: ConsumerView,
    timeout: Duration,
    r: Result<Option<Vec<u8>>, String>,
) -> bool {
    if before.connected() {
        exists|delivery: Delivery|
            after == (ConsumerView {
                native: Some(#[trigger] before.native->0.after_poll(timeout, delivery)),
                ..before
            }) && poll_answer(delivery, r)
    } else {
        after == before && r is Err && r->Err_0@ == CONSUMER_NOT_INITIALIZED@
    }
}

/// A Kafka consumer client for one consumer group.
pub struct KafkaConsumerClient {
    bootstrap_servers: String,
    group_id: String,
    consumer: Option<NativeConsumer>,
    subscribed_topic: Option<String>,
}

impl View for KafkaConsumerClient {
    type V = ConsumerView;

    closed spec fn view(&self) -> ConsumerView {
        ConsumerView {
            bootstrap_servers: self.bootstrap_servers@,
            group_id: self.group_id@,
            native: self.consumer,
            subscribed_topic: match self.subscribed_topic {
                Some(t) => Some(t@),
                None => None,
            },
        }
    }
}

impl KafkaConsumerClient {
    /// A client that has not created its native consumer yet.
    pub fn new(bootstrap_servers: String, group_id: String) -> (client: Self)
        ensures
            client@ == (ConsumerView {
                bootstrap_servers: bootstrap_servers@,
                group_id: group_id@,
                native: None,
                subscribed_topic: None,
            }),
            client@.wf(),
    {
        KafkaConsumerClient { bootstrap_servers, group_id, consumer: None, subscribed_topic: None }
    }

    /// The configuration of the native consumer.
    pub fn consumer_config(&self) -> (config: ClientConfig)
        ensures
            config_entries(config) == consumer_settings(self@.bootstrap_servers, self@.group_id),
    {
        let mut config = config_new();
        config_set(&mut config, "bootstrap.servers", self.bootstrap_servers.as_str());
        config_set(&mut config, "group.id", self.group_id.as_str());
        config_set(&mut config, "session.timeout.ms", "6000");
        config_set(&mut config, "auto.offset.reset", "latest");
        assert(config_entries(config) =~= consumer_settings(self@.bootstrap_servers, self@.group_id));
        config
    }

    /// Creates the native consumer from `consumer_config`, unless it exists.
    pub fn connect(&mut self) -> (r: Result<(), String>)
        ensures
            old(self)@.connected() ==> r is Ok && final(self)@ == old(self)@,
            !old(self)@.connected() ==> match r {
                Ok(_) => {
                    &&& final(self)@ == (ConsumerView { native: final(self)@.native, ..old(self)@ })
                    &&& final(self)@.native is Some
                    &&& old(self)@.connected_native(final(self)@.native->0)
                    &&& free_of_nul(consumer_settings(old(self)@.bootstrap_servers, old(self)@.group_id))
                },
                Err(m) => final(self)@ == old(self)@ && has_prefix(m@, CONSUMER_CREATE_FAILED@),
            },
            old(self)@.wf() ==> final(self)@.wf(),
    {
        if self.consumer.is_some() {
            return Ok(());
        }
        let config = self.consumer_config();
        match create_native_consumer(&config) {
            Ok(consumer) => {
                self.consumer = Some(consumer);
                Ok(())
            },
            Err(e) => {
                let detail = kafka_error_text(&e);
                Err(prefixed(CONSUMER_CREATE_FAILED, detail.as_str()))
            },
        }
    }

    /// Subscribes to `topic`, connecting first where needed; a subscription to
    /// the topic already subscribed to is not requested again.
    pub fn subscribe(&mut self, topic: &str) -> (r: Result<(), String>)
        requires
            old(self)@.wf(),
            old(self)@.subscribed_topic != Some(topic@) ==> !topic@.contains('\0'),
        ensures
            final(self)@.wf(),
            old(self)@.subscribed_topic == Some(topic@) ==> r is Ok && final(self)@ == old(self)@,
            old(self)@.subscribed_topic != Some(topic@) ==> match r {
                Ok(_) => exists|base: NativeConsumer| #[trigger]
                    old(self)@.connected_native(base) && final(self)@ == (ConsumerView {
                        native: Some(base.after_subscribe(topic@, true)),
                        subscribed_topic: Some(topic@),
                        ..old(self)@
                    }),
                Err(m) => {
                    ||| final(self)@ == old(self)@ && !old(self)@.connected() && has_prefix(
                        m@,
                        CONSUMER_CREATE_FAILED@,
                    )
                    ||| has_prefix(m@, SUBSCRIBE_FAILED@) && exists|base: NativeConsumer| #[trigger]
                        old(self)@.connected_native(base) && final(self)@ == (ConsumerView {
                            native: Some(base.after_subscribe(topic@, false)),
                            ..old(self)@
                        })
                },
            },
    {
        if self.consumer.is_none() {
            match self.connect() {
                Ok(_) => {},
                Err(m) => {
                    return Err(m);
                },
            }
        }
        let ghost connected = self@;
        let wanted = topic.to_owned();
        let already = match &self.subscribed_topic {
            Some(current) => *current == wanted,
            None => false,
        };
        if already {
            return Ok(());
        }
        let mut consumer = match self.consumer.take() {
            Some(consumer) => consumer,
            None => {
                return Err(CONSUMER_NOT_INITIALIZED.to_owned());
            },
        };
        let ghost base = consumer;
        let outcome = subscribe_native_consumer(&mut consumer, topic);
        proof {
            base.lemma_after_subscribe(topic@, outcome is Ok);
        }
        self.consumer = Some(consumer);
        match outcome {
            Ok(_) => {
                self.subscribed_topic = Some(wanted);
                assert(old(self)@.connected_native(base));
                Ok(())
            },
            Err(e) => {
                assert(old(self)@.connected_native(base));
                let detail = kafka_error_text(&e);
                Err(prefixed(SUBSCRIBE_FAILED, detail.as_str()))
            },
        }
    }

    /// Waits up to `timeout` for a message and hands back its payload.
    pub fn poll(&mut self, timeout: Duration) -> (r: Result<Option<Vec<u8>>, String>)
        ensures
            consumer_polled(old(self)@, final(self)@, timeout, r),
            old(self)@.connected() ==> r is Ok || has_prefix(r->Err_0@, RECEIVE_FAILED@),
            old(self)@.wf() ==> final(self)@.wf(),
    {
        match self.consumer.take() {
            None => Err(CONSUMER_NOT_INITIALIZED.to_owned()),
            Some(mut consumer) => {
                let ghost before = consumer;
                let polled = poll_native_consumer(&mut consumer, timeout);
                let ghost delivery = delivery_of(polled);
                proof {
                    before.lemma_after_poll(timeout, delivery);
                }
                self.consumer = Some(consumer);
                let plain = match polled {
                    None => None,
                    Some(Ok(payload)) => Some(Ok(payload)),
                    Some(Err(e)) => Some(Err(kafka_error_text(&e))),
                };
                let r = receive_outcome(plain);
                assert(poll_answer(delivery, r));
                r
            },
        }
    }
}

/// What a poll hands back for what the native consumer delivered: nothing
/// on a timeout, the payload of a message (absent for an empty message), or
/// the error text after `RECEIVE_FAILED`.
pub fn receive_outcome(delivery: Option<Result<Option<Vec<u8>>, String>>) -> (r: Result<
    Option<Vec<u8>>,
    String,
>)
    ensures
        match delivery {
            None => r == Ok::<Option<Vec<u8>>, String>(None),
            Some(Ok(payload)) => r == Ok::<Option<Vec<u8>>, String>(payload),
            Some(Err(text)) => r is Err && r->Err_0@ == RECEIVE_FAILED@ + text@,
        },
        r is Err ==> has_prefix(r->Err_0@, RECEIVE_FAILED@),
{
    match delivery {
        None => Ok(None),
        Some(Ok(payload)) => Ok(payload),
        Some(Err(text)) => Err(prefixed(RECEIVE_FAILED, text.as_str())),
    }
}

} // verus!
