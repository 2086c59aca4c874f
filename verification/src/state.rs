//! The registry behind the C interface: where the brokers are, the one
//! producer, the consumers by id, the last message each consumer received
//! and the last error.
use crate::consumer::{
    consumer_settings, poll_answer, ConsumerView, KafkaConsumerClient, CONSUMER_CREATE_FAILED, RECEIVE_FAILED,
    SUBSCRIBE_FAILED,
};
use crate::kafka::{Delivery, NativeConsumer, NativeProducer};
use crate::counters::TopicCounters;
use crate::producer::{
    produced_record, send_poll_waits, KafkaProducerClient, ProducerView, MAX_POLL_MILLIS,
    PRODUCER_CREATE_FAILED, PRODUCER_NOT_INITIALIZED, SEND_FAILED, TOPIC_HAS_NUL,
};
use crate::text::{
    decode_lossy, group_id_for, group_name, has_prefix, lemma_group_name_injective,
    lemma_group_name_nul, utf8_lossy,
};
use std::collections::HashMap;
use std::time::Duration;
use vstd::prelude::*;
use vstd::utf8::encode_utf8;

verus! {

broadcast use vstd::std_specs::hash::group_hash_axioms;

/// Status of a request that succeeded.
pub const STATUS_OK: u64 = 200;

/// Status of a poll that received nothing in time.
pub const STATUS_NO_MESSAGE: u64 = 0;

/// Status of a request about a consumer id that is not registered.
pub const STATUS_NOT_FOUND: u64 = 404;

/// Status of a request that failed.
pub const STATUS_FAILED: u64 = 500;

/// The consumer id that reports a failed creation.
pub const NO_CONSUMER: u64 = 0;

/// The error when no bootstrap servers were set.
pub const BOOTSTRAP_NOT_SET: &'static str = "bootstrap.servers not set";

/// The error when a consumer id is not registered.
pub const CONSUMER_NOT_FOUND: &'static str = "Consumer not found";

/// A registered consumer: its group and its client.
pub struct ConsumerEntryView {
    pub group_id: Seq<char>,
    pub client: ConsumerView,
}

/// What the registry holds.
pub struct ProxyView {
    pub bootstrap_servers: Option<Seq<char>>,
    pub producer: Option<ProducerView>,
    pub consumers: Map<u64, ConsumerEntryView>,
    pub next_client_id: u64,
    pub topic_counters: Map<Seq<char>, u64>,
    pub last_messages: Map<u64, Seq<u8>>,
    pub last_error: Option<Seq<char>>,
}

impl ProxyView {
    /// The registry as it starts.
    pub open spec fn initial() -> ProxyView {
        ProxyView {
            bootstrap_servers: None,
            producer: None,
            consumers: Map::empty(),
            next_client_id: 1,
            topic_counters: Map::empty(),
            last_messages: Map::empty(),
            last_error: None,
        }
    }

    /// The registry with `message` as the last error.
    pub open spec fn with_error(self, message: Seq<char>) -> ProxyView {
        ProxyView { last_error: Some(message), ..self }
    }

    /// How many consumers were requested for `topic` so far.
    pub open spec fn count_of(self, topic: Seq<char>) -> nat {
        if self.topic_counters.contains_key(topic) {
            self.topic_counters[topic] as nat
        } else {
            0
        }
    }

    /// Whether a consumer creation for `topic` can still count the topic and
    /// take an id.
    pub open spec fn can_create(self, topic: Seq<char>) -> bool {
        &&& self.next_client_id < u64::MAX
        &&& self.count_of(topic) < u64::MAX
    }

    /// A registered consumer is connected, subscribed to a topic, and its
    /// group is one of the groups handed out for that topic so far.
    pub open spec fn registered(self, entry: ConsumerEntryView) -> bool {
        &&& entry.client.connected()
        &&& entry.client.group_id == entry.group_id
        &&& entry.client.subscribed_topic is Some
        &&& exists|n: nat|
            1 <= n <= self.count_of(entry.client.subscribed_topic->0) && entry.group_id
                == #[trigger] group_name(entry.client.subscribed_topic->0, n)
    }

    /// The registry's invariant.
    pub open spec fn wf(self) -> bool {
        &&& self.next_client_id >= 1
        &&& forall|id: u64| #[trigger]
            self.consumers.contains_key(id) ==> 1 <= id < self.next_client_id
        &&& forall|id: u64| #[trigger]
            self.last_messages.contains_key(id) ==> self.consumers.contains_key(id)
        &&& forall|id: u64| #[trigger]
            self.consumers.contains_key(id) ==> self.registered(self.consumers[id])
        &&& forall|a: u64, b: u64|
            self.consumers.contains_key(a) && self.consumers.contains_key(b) && a != b
                ==> #[trigger] self.consumers[a].group_id != #[trigger] self.consumers[b].group_id
    }

    /// `entry` is that of a consumer just started for `topic`, with serial
    /// number `n`, against `bootstrap`: its native consumer was created with
    /// `consumer_settings` for its group, asked to subscribe to `topic` once,
    /// and accepted.
    pub open spec fn started_entry(
        entry: ConsumerEntryView,
        bootstrap: Seq<char>,
        topic: Seq<char>,
        n: nat,
    ) -> bool {
        let group = group_name(topic, n);
        &&& entry.group_id == group
        &&& entry.client.bootstrap_servers == bootstrap
        &&& entry.client.group_id == group
        &&& entry.client.subscribed_topic == Some(topic)
        &&& entry.client.native is Some
        &&& entry.client.native->0.settings() == consumer_settings(bootstrap, group)
        &&& entry.client.native->0.requests() == seq![topic]
        &&& entry.client.native->0.subscription() == Some(topic)
    }
}

/// What the registry becomes, and the status answered, when bootstrap
/// servers are set from `input`.
pub open spec fn after_set_bootstrap(s: ProxyView, input: Option<Seq<u8>>) -> (ProxyView, u64) {
    match input {
        Some(bytes) => if bytes.len() > 0 {
            (ProxyView { bootstrap_servers: Some(utf8_lossy(bytes)), ..s }, STATUS_OK)
        } else {
            (s, STATUS_FAILED)
        },
        None => (s, STATUS_FAILED),
    }
}

/// What the registry becomes when consumer `id` is destroyed.
pub open spec fn after_destroy(s: ProxyView, id: u64) -> ProxyView {
    ProxyView {
        consumers: s.consumers.remove(id),
        last_messages: s.last_messages.remove(id),
        ..s
    }
}

/// What the registry becomes when the last message of `id` is cleared.
pub open spec fn after_clear_message(s: ProxyView, id: u64) -> ProxyView {
    ProxyView { last_messages: s.last_messages.remove(id), ..s }
}

/// What the registry becomes when the last error is cleared.
pub open spec fn after_clear_error(s: ProxyView) -> ProxyView {
    ProxyView { last_error: None, ..s }
}

/// What the registry becomes, and the status answered, when a poll of
/// consumer `id` handed back `polled`.
pub open spec fn after_record_poll(
    s: ProxyView,
    id: u64,
    polled: Result<Option<Seq<u8>>, Seq<char>>,
) -> (ProxyView, u64) {
    match polled {
        Ok(Some(payload)) => (
            ProxyView { last_messages: s.last_messages.insert(id, payload), ..s },
            STATUS_OK,
        ),
        Ok(None) => (s, STATUS_NO_MESSAGE),
        Err(m) => (s.with_error(m), STATUS_FAILED),
    }
}

/// The consumer group of consumer `id`, if it is registered.
pub open spec fn group_of(s: ProxyView, id: u64) -> Option<Seq<char>> {
    if s.consumers.contains_key(id) {
        Some(s.consumers[id].group_id)
    } else {
        None
    }
}

/// The last message kept for consumer `id`.
pub open spec fn message_of(s: ProxyView, id: u64) -> Option<Seq<u8>> {
    if s.last_messages.contains_key(id) {
        Some(s.last_messages[id])
    } else {
        None
    }
}

/// The UTF-8 bytes of the last error.
pub open spec fn error_bytes(s: ProxyView) -> Option<Seq<u8>> {
    match s.last_error {
        Some(m) => Some(encode_utf8(m)),
        None => None,
    }
}

/// The view of the bytes a C caller handed over.
pub open spec fn bytes_view(input: Option<&[u8]>) -> Option<Seq<u8>> {
    match input {
        Some(bytes) => Some(bytes@),
        None => None,
    }
}

/// The view of what a poll handed back.
pub open spec fn polled_view(polled: Result<Option<Vec<u8>>, String>) -> Result<
    Option<Seq<u8>>,
    Seq<char>,
> {
    match polled {
        Ok(Some(payload)) => Ok(Some(payload@)),
        Ok(None) => Ok(None),
        Err(m) => Err(m@),
    }
}

/// A registered consumer.
pub struct ConsumerEntry {
    group_id: String,
    client: KafkaConsumerClient,
}

impl View for ConsumerEntry {
    type V = ConsumerEntryView;

    closed spec fn view(&self) -> ConsumerEntryView {
        ConsumerEntryView { group_id: self.group_id@, client: self.client@ }
    }
}

/// The registry behind the C interface.
pub struct GlobalState {
    bootstrap_servers: Option<String>,
    producer: Option<KafkaProducerClient>,
    consumers: HashMap<u64, ConsumerEntry>,
    next_client_id: u64,
    topic_counters: TopicCounters,
    last_messages: HashMap<u64, Vec<u8>>,
    last_error: Option<String>,
}

impl View for GlobalState {
    type V = ProxyView;

    closed spec fn view(&self) -> ProxyView {
        ProxyView {
            bootstrap_servers: match self.bootstrap_servers {
                Some(b) => Some(b@),
                None => None,
            },
            producer: match self.producer {
                Some(p) => Some(p@),
                None => None,
            },
            consumers: self.consumers@.map_values(|e: ConsumerEntry| e@),
            next_client_id: self.next_client_id,
            topic_counters: self.topic_counters@,
            last_messages: self.last_messages@.map_values(|m: Vec<u8>| m@),
            last_error: match self.last_error {
                Some(e) => Some(e@),
                None => None,
            },
        }
    }
}

impl GlobalState {
    /// The registry's invariant, on the registry and on its counters.
    pub closed spec fn wf(&self) -> bool {
        &&& self.topic_counters.wf()
        &&& self@.wf()
    }

    /// The registry's invariant holds of its view.
    pub proof fn lemma_view_wf(&self)
        requires
            self.wf(),
        ensures
            self@.wf(),
    {
    }

    /// A registry with nothing set and nothing registered.
    pub fn new() -> (gs: Self)
        ensures
            gs.wf(),
            gs@ == ProxyView::initial(),
    {
        let gs = GlobalState {
            bootstrap_servers: None,
            producer: None,
            consumers: HashMap::new(),
            next_client_id: 1,
            topic_counters: TopicCounters::new(),
            last_messages: HashMap::new(),
            last_error: None,
        };
        assert(gs@.consumers =~= Map::empty());
        assert(gs@.last_messages =~= Map::empty());
        gs
    }

    /// Records `message` as the last error.
    pub fn set_error(&mut self, message: String)
        requires
            old(self).wf(),
        ensures
            final(self).wf(),
            final(self)@ == old(self)@.with_error(message@),
    {
        self.last_error = Some(message);
    }

    /// Whether a consumer creation for `topic` can still count the topic and
    /// take an id.
    pub fn can_create(&self, topic: &String) -> (r: bool)
        requires
            self.wf(),
        ensures
            r == self@.can_create(topic@),
            r == (self@.next_client_id < u64::MAX && self@.count_of(topic@) < u64::MAX),
    {
        let count = self.topic_counters.count_of(topic);
        assert(self@.topic_counters == self.topic_counters@);
        self.next_client_id < u64::MAX && count < u64::MAX
    }
}

/// Stores the bootstrap servers, given as bytes (decoded lossily as UTF-8);
/// absent or empty input is refused.
pub fn set_bootstrap_servers(gs: &mut GlobalState, input: Option<&[u8]>) -> (r: u64)
    requires
        old(gs).wf(),
    ensures
        final(gs).wf(),
        (final(gs)@, r) == after_set_bootstrap(old(gs)@, bytes_view(input)),
        input is Some && input->0@.len() > 0 ==> r == STATUS_OK && final(gs)@.bootstrap_servers
            == Some(utf8_lossy(input->0@)),
        final(gs)@.next_client_id == old(gs)@.next_client_id,
        final(gs)@.consumers == old(gs)@.consumers,
{
    let bytes = match input {
        Some(bytes) => bytes,
        None => {
            return STATUS_FAILED;
        },
    };
    if bytes.len() == 0 {
        return STATUS_FAILED;
    }
    let servers = decode_lossy(bytes);
    let ghost before = gs@;
    let ghost text = servers@;
    gs.bootstrap_servers = Some(servers);
    assert(gs@ == (ProxyView { bootstrap_servers: Some(text), ..before }));
    STATUS_OK
}

/// The bootstrap servers, or the error that they were never set.
pub fn get_bootstrap(gs: &GlobalState) -> (r: Result<String, String>)
    ensures
        match gs@.bootstrap_servers {
            Some(b) => r is Ok && r->Ok_0@ == b,
            None => r is Err && r->Err_0@ == BOOTSTRAP_NOT_SET@,
        },
{
    match &gs.bootstrap_servers {
        Some(b) => Ok(b.clone()),
        None => Err(BOOTSTRAP_NOT_SET.to_owned()),
    }
}

/// Unregisters consumer `client_id` and drops its last message.
pub fn destroy_consumer(gs: &mut GlobalState, client_id: u64)
    requires
        old(gs).wf(),
    ensures
        final(gs).wf(),
        final(gs)@ == after_destroy(old(gs)@, client_id),
        final(gs)@.next_client_id == old(gs)@.next_client_id,
        !final(gs)@.consumers.contains_key(client_id),
        message_of(final(gs)@, client_id) is None,
{
    let ghost before = gs@;
    gs.consumers.remove(&client_id);
    gs.last_messages.remove(&client_id);
    assert(gs@.consumers =~= before.consumers.remove(client_id));
    assert(gs@.last_messages =~= before.last_messages.remove(client_id));
}

/// The consumer group of consumer `client_id`.
pub fn consumer_group_id(gs: &GlobalState, client_id: u64) -> (r: Option<&String>)
    ensures
        r is Some == group_of(gs@, client_id) is Some,
        r is Some ==> r->0@ == group_of(gs@, client_id)->0,
{
    match gs.consumers.get(&client_id) {
        Some(entry) => Some(&entry.group_id),
        None => None,
    }
}

/// The length in bytes of the UTF-8 form of the consumer group of consumer
/// `client_id`; 0 for an unknown consumer.
pub fn consumer_group_id_len(gs: &GlobalState, client_id: u64) -> (r: u64)
    ensures
        r == (match group_of(gs@, client_id) {
            Some(g) => encode_utf8(g).len(),
            None => 0,
        }),
{
    match gs.consumers.get(&client_id) {
        Some(entry) => entry.group_id.as_str().as_bytes().len() as u64,
        None => 0,
    }
}

/// The last message that consumer `client_id` received and that is kept.
pub fn last_message(gs: &GlobalState, client_id: u64) -> (r: Option<&[u8]>)
    ensures
        r is Some == message_of(gs@, client_id) is Some,
        r is Some ==> r->0@ == message_of(gs@, client_id)->0,
{
    match gs.last_messages.get(&client_id) {
        Some(message) => Some(message.as_slice()),
        None => None,
    }
}

/// The length of that message; 0 where none is kept.
pub fn last_message_len(gs: &GlobalState, client_id: u64) -> (r: u64)
    ensures
        r == (match message_of(gs@, client_id) {
            Some(m) => m.len(),
            None => 0,
        }),
{
    match gs.last_messages.get(&client_id) {
        Some(message) => message.len() as u64,
        None => 0,
    }
}

/// Drops the last message of consumer `client_id`.
pub fn clear_last_message(gs: &mut GlobalState, client_id: u64)
    requires
        old(gs).wf(),
    ensures
        final(gs).wf(),
        final(gs)@ == after_clear_message(old(gs)@, client_id),
{
    let ghost before = gs@;
    gs.last_messages.remove(&client_id);
    assert(gs@.last_messages =~= before.last_messages.remove(client_id));
}

/// The UTF-8 bytes of the last error.
pub fn last_error(gs: &GlobalState) -> (r: Option<&[u8]>)
    ensures
        r is Some == error_bytes(gs@) is Some,
        r is Some ==> r->0@ == error_bytes(gs@)->0,
{
    match &gs.last_error {
        Some(message) => Some(message.as_str().as_bytes()),
        None => None,
    }
}

/// The length in bytes of the last error; 0 where there is none.
pub fn last_error_len(gs: &GlobalState) -> (r: u64)
    ensures
        r == (match error_bytes(gs@) {
            Some(m) => m.len(),
            None => 0,
        }),
{
    match &gs.last_error {
        Some(message) => message.as_str().as_bytes().len() as u64,
        None => 0,
    }
}

/// Forgets the last error.
pub fn clear_last_error(gs: &mut GlobalState)
    requires
        old(gs).wf(),
    ensures
        final(gs).wf(),
        final(gs)@ == after_clear_error(old(gs)@),
{
    gs.last_error = None;
}

/// Keeps what a poll of consumer `client_id` handed back: a payload becomes
/// the consumer's last message, an error the last error.
pub fn record_poll(
    gs: &mut GlobalState,
    client_id: u64,
    polled: Result<Option<Vec<u8>>, String>,
) -> (r: u64)
    requires
        old(gs).wf(),
        old(gs)@.consumers.contains_key(client_id),
    ensures
        final(gs).wf(),
        (final(gs)@, r) == after_record_poll(old(gs)@, client_id, polled_view(polled)),
{
    match polled {
        Ok(Some(payload)) => {
            let ghost before = gs@;
            let ghost p = payload@;
            gs.last_messages.insert(client_id, payload);
            assert(gs@.last_messages =~= before.last_messages.insert(client_id, p));
            STATUS_OK
        },
        Ok(None) => STATUS_NO_MESSAGE,
        Err(m) => {
            gs.set_error(m);
            STATUS_FAILED
        },
    }
}

/// The registry after consumer `id`'s native consumer waited up to
/// `timeout` in a poll that delivered `delivery`.
pub open spec fn polled_state(s: ProxyView, id: u64, timeout: Duration, delivery: Delivery) -> ProxyView {
    let e = s.consumers[id];
    ProxyView {
        consumers: s.consumers.insert(
            id,
            ConsumerEntryView {
                client: ConsumerView {
                    native: Some(e.client.native->0.after_poll(timeout, delivery)),
                    ..e.client
                },
                ..e
            },
        ),
        ..s
    }
}

/// A poll of a registered consumer keeps the invariant.
proof fn lemma_polled_state_wf(s: ProxyView, id: u64, timeout: Duration, delivery: Delivery)
    requires
        s.wf(),
        s.consumers.contains_key(id),
    ensures
        polled_state(s, id, timeout, delivery).wf(),
        polled_state(s, id, timeout, delivery).consumers.dom() == s.consumers.dom(),
{
    let t = polled_state(s, id, timeout, delivery);
    assert(t.consumers.dom() =~= s.consumers.dom());
    assert forall|k: u64| #[trigger] t.consumers.contains_key(k) implies t.registered(
        t.consumers[k],
    ) by {
        assert(s.registered(s.consumers[k]));
    }
    assert forall|a: u64, b: u64|
        t.consumers.contains_key(a) && t.consumers.contains_key(b) && a
            != b implies #[trigger] t.consumers[a].group_id != #[trigger] t.consumers[b].group_id by {
        assert(s.consumers[a].group_id != s.consumers[b].group_id);
    }
}

/// A poll of consumer `id`, waiting up to `timeout`, took the registry from
/// `before` to `after` and answered `r`: 404 for an unknown consumer; else,
/// for what the native consumer delivered, 200 keeping the payload of a
/// message, 0 for a timeout or an empty message, 500 recording the error.
pub open spec fn message_polled(
    before: ProxyView,
    after: ProxyView,
    id: u64,
    timeout: Duration,
    r: u64,
) -> bool {
    if !before.consumers.contains_key(id) {
        r == STATUS_NOT_FOUND && after == before.with_error(CONSUMER_NOT_FOUND@)
    } else {
        exists|delivery: Delivery| #[trigger]
            polled_outcome(polled_state(before, id, timeout, delivery), after, id, delivery, r)
    }
}

/// How the registry `polled`, after the native poll delivered `delivery`,
/// becomes `after` with the answer `r`.
pub open spec fn polled_outcome(
    polled: ProxyView,
    after: ProxyView,
    id: u64,
    delivery: Delivery,
    r: u64,
) -> bool {
    match delivery {
        Delivery::Message(Some(payload)) => r == STATUS_OK && after == (ProxyView {
            last_messages: polled.last_messages.insert(id, payload),
            ..polled
        }),
        Delivery::Message(None) => r == STATUS_NO_MESSAGE && after == polled,
        Delivery::Timeout => r == STATUS_NO_MESSAGE && after == polled,
        Delivery::Failure => r == STATUS_FAILED && after.last_error is Some && after
            == polled.with_error(after.last_error->0) && has_prefix(
            after.last_error->0,
            RECEIVE_FAILED@,
        ),
    }
}

/// Polls consumer `client_id` for up to `timeout` and keeps what arrives.
pub fn poll_message(gs: &mut GlobalState, client_id: u64, timeout: Duration) -> (r: u64)
    requires
        old(gs).wf(),
    ensures
        final(gs).wf(),
        message_polled(old(gs)@, final(gs)@, client_id, timeout, r),
{
    let ghost before = gs@;
    let mut entry = match gs.consumers.remove(&client_id) {
        Some(entry) => entry,
        None => {
            assert(gs@.consumers =~= before.consumers);
            assert(gs@ == before);
            gs.set_error(CONSUMER_NOT_FOUND.to_owned());
            return STATUS_NOT_FOUND;
        },
    };
    assert(before.consumers.contains_key(client_id));
    assert(entry@ == before.consumers[client_id]);
    assert(before.wf());
    assert(before.registered(before.consumers[client_id]));
    let ghost client_before = entry.client@;
    let polled = entry.client.poll(timeout);
    let ghost client_after = entry.client@;
    let ghost delivery = choose|delivery: Delivery|
        client_after == (ConsumerView {
            native: Some(#[trigger] client_before.native->0.after_poll(timeout, delivery)),
            ..client_before
        }) && poll_answer(delivery, polled);
    let ghost polled_entry = entry@;
    gs.consumers.insert(client_id, entry);
    proof {
        let e = before.consumers[client_id];
        assert(polled_entry == (ConsumerEntryView {
            client: ConsumerView {
                native: Some(e.client.native->0.after_poll(timeout, delivery)),
                ..e.client
            },
            ..e
        }));
        assert(gs@.consumers =~= polled_state(before, client_id, timeout, delivery).consumers);
        assert(gs@ == polled_state(before, client_id, timeout, delivery));
        lemma_polled_state_wf(before, client_id, timeout, delivery);
    }
    let ghost mid = gs@;
    let r = record_poll(gs, client_id, polled);
    proof {
        match delivery {
            Delivery::Message(Some(payload)) => {
                assert(polled_view(polled) == Ok::<Option<Seq<u8>>, Seq<char>>(Some(payload)));
            },
            _ => {},
        }
        assert(polled_outcome(mid, gs@, client_id, delivery, r));
    }
    r
}

/// Creates and connects the producer unless there is one.
pub fn ensure_producer(gs: &mut GlobalState) -> (r: u64)
    requires
        old(gs).wf(),
    ensures
        final(gs).wf(),
        old(gs)@.producer is Some ==> r == STATUS_OK && final(gs)@ == old(gs)@,
        old(gs)@.producer is None && old(gs)@.bootstrap_servers is None ==> r == STATUS_FAILED
            && final(gs)@ == old(gs)@.with_error(BOOTSTRAP_NOT_SET@),
        old(gs)@.producer is None && old(gs)@.bootstrap_servers is Some ==> {
            let fresh = ProducerView {
                bootstrap_servers: old(gs)@.bootstrap_servers->0,
                native: None,
            };
            ||| r == STATUS_OK && final(gs)@ == (ProxyView { producer: final(gs)@.producer, ..old(gs)@ })
                && final(gs)@.producer is Some && final(gs)@.producer->0.bootstrap_servers
                == fresh.bootstrap_servers && final(gs)@.producer->0.native is Some
                && fresh.connected_native(final(gs)@.producer->0.native->0)
            ||| r == STATUS_FAILED && final(gs)@.last_error is Some && final(gs)@ == old(gs)@.with_error(final(gs)@.last_error->0) && has_prefix(
                final(gs)@.last_error->0,
                PRODUCER_CREATE_FAILED@,
            )
        },
{
    if gs.producer.is_some() {
        return STATUS_OK;
    }
    let bootstrap = match get_bootstrap(gs) {
        Ok(b) => b,
        Err(e) => {
            gs.set_error(e);
            return STATUS_FAILED;
        },
    };
    let mut producer = KafkaProducerClient::new(bootstrap);
    match producer.connect() {
        Ok(_) => {
            gs.producer = Some(producer);
            STATUS_OK
        },
        Err(e) => {
            gs.set_error(e);
            STATUS_FAILED
        },
    }
}

/// The producer a send goes through: the one there is, or else a new,
/// unconnected one against the bootstrap servers.
pub open spec fn sending_producer(s: ProxyView) -> ProducerView {
    match s.producer {
        Some(p) => p,
        None => ProducerView { bootstrap_servers: s.bootstrap_servers->0, native: None },
    }
}

/// Whether C-side input is present and not empty.
pub open spec fn given(input: Option<&[u8]>) -> bool {
    input is Some && input->0@.len() > 0
}

/// A send of `payload` to `topic`, both given as C-side bytes, took the
/// registry from `before` to `after` and answered `r`.
pub open spec fn message_produced(
    before: ProxyView,
    after: ProxyView,
    topic: Option<&[u8]>,
    payload: Option<&[u8]>,
    r: u64,
) -> bool {
    &&& !(given(topic) && given(payload)) ==> r == STATUS_FAILED && after == before
    &&& given(topic) && given(payload) && before.producer is None
            && before.bootstrap_servers is None ==> r == STATUS_FAILED && after == before.with_error(BOOTSTRAP_NOT_SET@)
    &&& given(topic) && given(payload) && (before.producer is Some
            || before.bootstrap_servers is Some) ==> {
            let p = sending_producer(before);
            let t = utf8_lossy(topic->0@);
            let record = produced_record(t, payload->0@);
            ||| r == STATUS_OK && !t.contains('\0') && exists|base: NativeProducer| #[trigger]
                p.connected_native(base) && after == (ProxyView {
                    producer: Some(
                        ProducerView {
                            native: Some(
                                base.after_send(record, true).after_polls(send_poll_waits()),
                            ),
                            ..p
                        },
                    ),
                    ..before
                })
            ||| r == STATUS_FAILED && after.last_error is Some && !p.connected() && after
                == (ProxyView { producer: Some(p), ..before }).with_error(
                after.last_error->0,
            ) && has_prefix(after.last_error->0, PRODUCER_CREATE_FAILED@)
            ||| r == STATUS_FAILED && t.contains('\0') && exists|base: NativeProducer| #[trigger]
                p.connected_native(base) && after == (ProxyView {
                    producer: Some(ProducerView { native: Some(base), ..p }),
                    ..before
                }).with_error(TOPIC_HAS_NUL@)
            ||| r == STATUS_FAILED && !t.contains('\0') && after.last_error is Some
                && has_prefix(after.last_error->0, SEND_FAILED@) && exists|
                base: NativeProducer,
            | #[trigger]
                p.connected_native(base) && after == (ProxyView {
                    producer: Some(
                        ProducerView { native: Some(base.after_send(record, false)), ..p },
                    ),
                    ..before
                }).with_error(after.last_error->0)
        }
}

/// Sends `payload` to `topic` (bytes decoded lossily as UTF-8) through the
/// producer, creating it where needed; absent or empty input is refused.
pub fn produce_message(gs: &mut GlobalState, topic: Option<&[u8]>, payload: Option<&[u8]>) -> (r:
    u64)
    requires
        old(gs).wf(),
    ensures
        final(gs).wf(),
        message_produced(old(gs)@, final(gs)@, topic, payload, r),
{
    let (topic_bytes, payload) = match (topic, payload) {
        (Some(t), Some(p)) => (t, p),
        _ => {
            return STATUS_FAILED;
        },
    };
    if topic_bytes.len() == 0 || payload.len() == 0 {
        return STATUS_FAILED;
    }
    let topic = decode_lossy(topic_bytes);
    let mut producer = match gs.producer.take() {
        Some(p) => p,
        None => match get_bootstrap(gs) {
            Ok(b) => KafkaProducerClient::new(b),
            Err(e) => {
                gs.set_error(e);
                return STATUS_FAILED;
            },
        },
    };
    let sent = producer.produce(topic.as_str(), payload);
    gs.producer = Some(producer);
    match sent {
        Ok(_) => STATUS_OK,
        Err(e) => {
            gs.set_error(e);
            STATUS_FAILED
        },
    }
}

/// The wait a producer poll hands on for `timeout_ms`: at most `MAX_POLL_MILLIS`.
pub open spec fn capped_wait(timeout_ms: u64) -> u64 {
    if timeout_ms > MAX_POLL_MILLIS {
        MAX_POLL_MILLIS
    } else {
        timeout_ms
    }
}

/// Serves the producer's delivery callbacks for up to `timeout_ms`
/// milliseconds; a longer wait than `MAX_POLL_MILLIS` is cut to it.
pub fn producer_poll(gs: &mut GlobalState, timeout_ms: u64) -> (r: u64)
    requires
        old(gs).wf(),
    ensures
        final(gs).wf(),
        match old(gs)@.producer {
            Some(p) => if p.connected() {
                r == STATUS_OK && final(gs)@ == (ProxyView {
                    producer: Some(
                        ProducerView {
                            native: Some(p.native->0.after_polls(seq![capped_wait(timeout_ms)])),
                            ..p
                        },
                    ),
                    ..old(gs)@
                })
            } else {
                r == STATUS_FAILED && final(gs)@ == old(gs)@.with_error(PRODUCER_NOT_INITIALIZED@)
            },
            None => r == STATUS_FAILED && final(gs)@ == old(gs)@.with_error(
                PRODUCER_NOT_INITIALIZED@,
            ),
        },
{
    let wait = if timeout_ms > MAX_POLL_MILLIS {
        MAX_POLL_MILLIS
    } else {
        timeout_ms
    };
    let mut producer = match gs.producer.take() {
        Some(p) => p,
        None => {
            gs.set_error(PRODUCER_NOT_INITIALIZED.to_owned());
            return STATUS_FAILED;
        },
    };
    let polled = producer.poll(wait);
    gs.producer = Some(producer);
    match polled {
        Ok(_) => STATUS_OK,
        Err(e) => {
            gs.set_error(e);
            STATUS_FAILED
        },
    }
}

/// Counting more consumers for some topics keeps the invariant.
proof fn lemma_counts_grow(before: ProxyView, after: ProxyView)
    requires
        before.wf(),
        after == (ProxyView { topic_counters: after.topic_counters, ..before }),
        forall|t: Seq<char>| after.count_of(t) >= #[trigger] before.count_of(t),
    ensures
        after.wf(),
{
    assert forall|id: u64| #[trigger] after.consumers.contains_key(id) implies after.registered(
        after.consumers[id],
    ) by {
        let e = before.consumers[id];
        assert(before.registered(e));
        let t = e.client.subscribed_topic->0;
        let n = choose|n: nat| 1 <= n <= before.count_of(t) && e.group_id == #[trigger] group_name(t, n);
        assert(after.count_of(t) >= before.count_of(t));
        assert(1 <= n <= after.count_of(t) && e.group_id == group_name(t, n));
    }
}

/// The group of the next consumer of `topic` is used by no registered consumer.
pub proof fn lemma_next_group_is_fresh(s: ProxyView, topic: Seq<char>)
    requires
        s.wf(),
    ensures
        forall|id: u64| #[trigger]
            s.consumers.contains_key(id) ==> s.consumers[id].group_id != group_name(
                topic,
                s.count_of(topic) + 1,
            ),
{
    assert forall|id: u64| #[trigger] s.consumers.contains_key(id) implies s.consumers[id].group_id
        != group_name(topic, s.count_of(topic) + 1) by {
        let e = s.consumers[id];
        assert(s.registered(e));
        let t = e.client.subscribed_topic->0;
        let n = choose|n: nat| 1 <= n <= s.count_of(t) && e.group_id == #[trigger] group_name(t, n);
        if e.group_id == group_name(topic, s.count_of(topic) + 1) {
            lemma_group_name_injective(t, n, topic, s.count_of(topic) + 1);
        }
    }
}

/// Registers `client`, which `joined` reports connected and subscribed,
/// under the next consumer id; where `joined` is an error, records it instead.
pub fn register_consumer(
    gs: &mut GlobalState,
    group_id: String,
    client: KafkaConsumerClient,
    joined: Result<(), String>,
) -> (r: u64)
    requires
        old(gs).wf(),
        old(gs)@.next_client_id < u64::MAX,
        joined is Ok ==> {
            &&& client@.connected()
            &&& client@.group_id == group_id@
            &&& client@.subscribed_topic is Some
            &&& old(gs)@.count_of(client@.subscribed_topic->0) >= 1
            &&& group_id@ == group_name(
                client@.subscribed_topic->0,
                old(gs)@.count_of(client@.subscribed_topic->0),
            )
            &&& forall|id: u64| #[trigger]
                old(gs)@.consumers.contains_key(id) ==> old(gs)@.consumers[id].group_id
                    != group_id@
        },
    ensures
        final(gs).wf(),
        match joined {
            Ok(_) => r == old(gs)@.next_client_id && final(gs)@ == (ProxyView {
                consumers: old(gs)@.consumers.insert(
                    r,
                    ConsumerEntryView { group_id: group_id@, client: client@ },
                ),
                next_client_id: (r + 1) as u64,
                ..old(gs)@
            }),
            Err(m) => r == NO_CONSUMER && final(gs)@ == old(gs)@.with_error(m@),
        },
{
    match joined {
        Err(m) => {
            gs.set_error(m);
            NO_CONSUMER
        },
        Ok(_) => {
            let ghost before = gs@;
            let entry = ConsumerEntry { group_id, client };
            let ghost ev = entry@;
            let id = gs.next_client_id;
            gs.next_client_id = id + 1;
            gs.consumers.insert(id, entry);
            assert(gs@.consumers =~= before.consumers.insert(id, ev));
            let ghost after = gs@;
            proof {
                let t = ev.client.subscribed_topic->0;
                assert(after.registered(ev)) by {
                    assert(ev.group_id == group_name(t, after.count_of(t)));
                }
                assert forall|a: u64, b: u64|
                    after.consumers.contains_key(a) && after.consumers.contains_key(b) && a
                        != b implies #[trigger] after.consumers[a].group_id
                    != #[trigger] after.consumers[b].group_id by {
                    if a != id && b != id {
                        assert(before.consumers.contains_key(a));
                        assert(before.consumers.contains_key(b));
                    } else if a == id {
                        assert(before.consumers.contains_key(b));
                    } else {
                        assert(before.consumers.contains_key(a));
                    }
                }
                assert forall|k: u64| #[trigger] after.consumers.contains_key(k) implies after.registered(
                    after.consumers[k],
                ) by {
                    if k != id {
                        assert(before.consumers.contains_key(k));
                        assert(before.registered(before.consumers[k]));
                    }
                }
            }
            id
        },
    }
}

/// What `create_consumer` makes of the registry `before`, giving `after`
/// and the answer `r`, for the C-side `topic`.
pub open spec fn created_consumer(
    before: ProxyView,
    after: ProxyView,
    topic: Option<&[u8]>,
    r: u64,
) -> bool {
    &&& !given(topic) ==> r == NO_CONSUMER && after == before
    &&& given(topic) && before.bootstrap_servers is None ==> r == NO_CONSUMER && after
        == before.with_error(BOOTSTRAP_NOT_SET@)
    &&& given(topic) && before.bootstrap_servers is Some ==> {
        let t = utf8_lossy(topic->0@);
        let n = before.count_of(t) + 1;
        let counted = ProxyView {
            topic_counters: before.topic_counters.insert(t, n as u64),
            ..before
        };
        ||| r == NO_CONSUMER && after.last_error is Some && after == counted.with_error(
            after.last_error->0,
        ) && (has_prefix(after.last_error->0, CONSUMER_CREATE_FAILED@) || has_prefix(
            after.last_error->0,
            SUBSCRIBE_FAILED@,
        ))
        ||| r == before.next_client_id && after.consumers.contains_key(r)
            && ProxyView::started_entry(after.consumers[r], before.bootstrap_servers->0, t, n)
            && after == (ProxyView {
            consumers: counted.consumers.insert(r, after.consumers[r]),
            next_client_id: (r + 1) as u64,
            ..counted
        })
    }
}

/// Creates a consumer of `topic` (bytes decoded lossily as UTF-8) in a group
/// of its own, `{topic}-group-{n}` for the `n`-th consumer requested for the
/// topic, and registers it under a fresh id; 0 reports a failure.
pub fn create_consumer(gs: &mut GlobalState, topic: Option<&[u8]>) -> (r: u64)
    requires
        old(gs).wf(),
        given(topic) && old(gs)@.bootstrap_servers is Some ==> old(gs)@.can_create(
            utf8_lossy(topic->0@),
        ),
    ensures
        final(gs).wf(),
        created_consumer(old(gs)@, final(gs)@, topic, r),
{
    let bytes = match topic {
        Some(bytes) => bytes,
        None => {
            return NO_CONSUMER;
        },
    };
    if bytes.len() == 0 {
        return NO_CONSUMER;
    }
    let topic = decode_lossy(bytes);
    let bootstrap = match get_bootstrap(gs) {
        Ok(b) => b,
        Err(e) => {
            gs.set_error(e);
            return NO_CONSUMER;
        },
    };
    let ghost before = gs@;
    proof {
        lemma_next_group_is_fresh(before, topic@);
    }
    let counter = gs.topic_counters.increment(&topic);
    proof {
        lemma_counts_grow(before, gs@);
    }
    let group_id = group_id_for(topic.as_str(), counter);
    let mut client = KafkaConsumerClient::new(bootstrap, group_id.clone());
    let ghost fresh = client@;
    let joined = match client.connect() {
        Ok(_) => {
            proof {
                let settings = consumer_settings(fresh.bootstrap_servers, fresh.group_id);
                reveal_strlit("group.id");
                reveal_strlit("session.timeout.ms");
                reveal_strlit("auto.offset.reset");
                assert("group.id"@.len() == 8);
                assert("session.timeout.ms"@.len() == 18);
                assert("auto.offset.reset"@.len() == 17);
                assert("group.id"@ != "session.timeout.ms"@);
                assert("group.id"@ != "auto.offset.reset"@);
                assert(settings.contains_key("group.id"@));
                assert(settings["group.id"@] == fresh.group_id);
                assert(!settings["group.id"@].contains('\0'));
                assert(fresh.group_id == group_name(topic@, counter as nat));
                lemma_group_name_nul(topic@, counter as nat);
                assert(!topic@.contains('\0'));
            }
            client.subscribe(topic.as_str())
        },
        Err(e) => Err(e),
    };
    proof {
        if joined is Ok {
            let base = choose|base: NativeConsumer| #[trigger] fresh.connected_native(base)
                && client@ == (ConsumerView {
                    native: Some(base.after_subscribe(topic@, true)),
                    subscribed_topic: Some(topic@),
                    ..fresh
                });
            base.lemma_after_subscribe(topic@, true);
            assert(Seq::<Seq<char>>::empty().push(topic@) =~= seq![topic@]);
        }
    }
    let id = register_consumer(gs, group_id, client, joined);
    id
}

/// Creates a consumer as `create_consumer` does, where the topic's count and
/// the consumer ids have room left; `None`, with nothing changed, where one
/// of them is exhausted.
pub fn try_create_consumer(gs: &mut GlobalState, topic: Option<&[u8]>) -> (r: Option<u64>)
    requires
        old(gs).wf(),
    ensures
        final(gs).wf(),
        r is None <==> given(topic) && old(gs)@.bootstrap_servers is Some && !old(gs)@.can_create(utf8_lossy(topic->0@)),
        r is None ==> final(gs)@ == old(gs)@,
        r is Some ==> created_consumer(old(gs)@, final(gs)@, topic, r->0),
{
    if let Some(bytes) = topic {
        if bytes.len() > 0 && gs.bootstrap_servers.is_some() {
            let decoded = decode_lossy(bytes);
            if !gs.can_create(&decoded) {
                return None;
            }
        }
    }
    Some(create_consumer(gs, topic))
}

} // verus!
