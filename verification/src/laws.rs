//! What holds of the registry across its operations.
use crate::consumer::{consumer_polled, ConsumerView};
use crate::kafka::{delivery_of, Delivery, NativeConsumer, NativeProducer, OfferedRecord};
use rdkafka::error::KafkaError;
use crate::producer::{produced, ProducerView};
use crate::state::{
    after_clear_error, after_clear_message, after_destroy, after_record_poll, after_set_bootstrap,
    created_consumer, error_bytes, given, group_of, message_of, message_polled, message_produced,
    polled_outcome, polled_state, ProxyView, NO_CONSUMER, STATUS_FAILED, STATUS_NO_MESSAGE,
    STATUS_OK,
};
use std::time::Duration;
use crate::text::{group_name, lemma_group_name_injective, utf8_lossy};
use vstd::prelude::*;
use vstd::utf8::encode_utf8;

verus! {

/// A payload that a poll of consumer `id` hands back is answered with 200 and
/// is then what the consumer's last message reads; no other consumer's last
/// message changes, and the last error stays as it was.
pub proof fn law_poll_then_read(s: ProxyView, id: u64, payload: Seq<u8>)
    ensures
        after_record_poll(s, id, Ok(Some(payload))).1 == STATUS_OK,
        message_of(after_record_poll(s, id, Ok(Some(payload))).0, id) == Some(payload),
        forall|other: u64|
            other != id ==> message_of(after_record_poll(s, id, Ok(Some(payload))).0, other)
                == message_of(s, other),
        after_record_poll(s, id, Ok(Some(payload))).0.last_error == s.last_error,
{
}

/// A poll that received nothing is answered with 0 and changes nothing.
pub proof fn law_empty_poll_changes_nothing(s: ProxyView, id: u64)
    ensures
        after_record_poll(s, id, Ok(None)) == (s, STATUS_NO_MESSAGE),
{
}

/// A failed poll is answered with 500, its message becomes the last error,
/// and the kept messages stay as they were.
pub proof fn law_failed_poll_is_reported(s: ProxyView, id: u64, message: Seq<char>)
    ensures
        after_record_poll(s, id, Err(message)).1 == STATUS_FAILED,
        error_bytes(after_record_poll(s, id, Err(message)).0) == Some(encode_utf8(message)),
        after_record_poll(s, id, Err(message)).0.last_messages == s.last_messages,
{
}

/// After its last message is cleared, a consumer has none; the others keep theirs.
pub proof fn law_clear_then_read(s: ProxyView, id: u64)
    ensures
        message_of(after_clear_message(s, id), id) is None,
        forall|other: u64|
            other != id ==> message_of(after_clear_message(s, id), other) == message_of(s, other),
{
}

/// A destroyed consumer has neither a group nor a last message; the other
/// consumers are untouched, and the invariant holds on.
pub proof fn law_destroy_forgets(s: ProxyView, id: u64)
    ensures
        group_of(after_destroy(s, id), id) is None,
        message_of(after_destroy(s, id), id) is None,
        forall|other: u64|
            other != id ==> group_of(after_destroy(s, id), other) == group_of(s, other)
                && message_of(after_destroy(s, id), other) == message_of(s, other),
        s.wf() ==> after_destroy(s, id).wf(),
{
    if s.wf() {
        let t = after_destroy(s, id);
        assert forall|k: u64| #[trigger] t.consumers.contains_key(k) implies t.registered(
            t.consumers[k],
        ) by {
            assert(s.consumers.contains_key(k));
            assert(s.registered(s.consumers[k]));
        }
        assert forall|a: u64, b: u64|
            t.consumers.contains_key(a) && t.consumers.contains_key(b) && a
                != b implies #[trigger] t.consumers[a].group_id
            != #[trigger] t.consumers[b].group_id by {
            assert(s.consumers.contains_key(a) && s.consumers.contains_key(b));
        }
    }
}

/// The last error reads back as the UTF-8 bytes of the message recorded;
/// once cleared, there is none.
pub proof fn law_error_round_trip(s: ProxyView, message: Seq<char>)
    ensures
        error_bytes(s.with_error(message)) == Some(encode_utf8(message)),
        error_bytes(after_clear_error(s)) is None,
{
}

/// Absent or empty bootstrap input is refused with 500 and changes nothing;
/// setting the same input twice is setting it once.
pub proof fn law_bootstrap_setting(s: ProxyView, input: Option<Seq<u8>>)
    ensures
        after_set_bootstrap(s, None) == (s, STATUS_FAILED),
        after_set_bootstrap(s, Some(Seq::<u8>::empty())) == (s, STATUS_FAILED),
        after_set_bootstrap(after_set_bootstrap(s, input).0, input) == after_set_bootstrap(
            s,
            input,
        ),
{
}

/// Consumer ids: every registered id lies below the next id, so the next id
/// is fresh, and no registered id is the failure answer 0.
pub proof fn law_next_id_is_fresh(s: ProxyView)
    requires
        s.wf(),
    ensures
        !s.consumers.contains_key(s.next_client_id),
        !s.consumers.contains_key(NO_CONSUMER),
        s.next_client_id != NO_CONSUMER,
        forall|id: u64| #[trigger] s.consumers.contains_key(id) ==> id < s.next_client_id,
{
}

/// No two registered consumers share a consumer group.
pub proof fn law_group_ids_distinct(s: ProxyView, a: u64, b: u64)
    requires
        s.wf(),
        s.consumers.contains_key(a),
        s.consumers.contains_key(b),
        a != b,
    ensures
        group_of(s, a) != group_of(s, b),
{
    assert(s.consumers[a].group_id != s.consumers[b].group_id);
}

/// The registry as it starts keeps the invariant.
pub proof fn law_initial_state_is_valid()
    ensures
        ProxyView::initial().wf(),
{
}

/// Once cleared, the last error stays cleared through every answer that is
/// not a failure: setting bootstrap servers, destroying a consumer, clearing
/// a message, and a poll that did not fail.
pub proof fn law_error_stays_cleared(
    s: ProxyView,
    id: u64,
    input: Option<Seq<u8>>,
    polled: Result<Option<Seq<u8>>, Seq<char>>,
)
    ensures
        error_bytes(after_set_bootstrap(after_clear_error(s), input).0) is None,
        error_bytes(after_destroy(after_clear_error(s), id)) is None,
        error_bytes(after_clear_message(after_clear_error(s), id)) is None,
        after_record_poll(after_clear_error(s), id, polled).1 != STATUS_FAILED ==> error_bytes(
            after_record_poll(after_clear_error(s), id, polled).0,
        ) is None,
{
}

/// A consumer creation that succeeds leaves the last error as it was.
pub proof fn law_created_consumer_keeps_error(
    before: ProxyView,
    after: ProxyView,
    topic: Option<&[u8]>,
    r: u64,
)
    requires
        before.wf(),
        created_consumer(before, after, topic, r),
        r != NO_CONSUMER,
    ensures
        after.last_error == before.last_error,
{
}

/// Two successful creations in a row for one topic get consecutive ids and
/// consecutive serial numbers in their group names, so never one group.
pub proof fn law_consecutive_creations(
    s0: ProxyView,
    s1: ProxyView,
    s2: ProxyView,
    topic: Option<&[u8]>,
    r1: u64,
    r2: u64,
)
    requires
        s0.wf(),
        created_consumer(s0, s1, topic, r1),
        created_consumer(s1, s2, topic, r2),
        r1 != NO_CONSUMER,
        r2 != NO_CONSUMER,
        s0.can_create(utf8_lossy(topic->0@)),
        s1.can_create(utf8_lossy(topic->0@)),
    ensures
        r2 == r1 + 1,
        s1.consumers[r1].group_id == group_name(
            utf8_lossy(topic->0@),
            s0.count_of(utf8_lossy(topic->0@)) + 1,
        ),
        s2.consumers[r2].group_id == group_name(
            utf8_lossy(topic->0@),
            s0.count_of(utf8_lossy(topic->0@)) + 2,
        ),
        s2.consumers[r1].group_id != s2.consumers[r2].group_id,
{
    let t = utf8_lossy(topic->0@);
    let k = s0.count_of(t) + 1;
    assert(given(topic));
    assert(s0.bootstrap_servers is Some);
    assert(r1 == s0.next_client_id);
    assert(s1.topic_counters == s0.topic_counters.insert(t, k as u64));
    assert(s1.count_of(t) == k);
    assert(s1.bootstrap_servers is Some);
    assert(r2 == s1.next_client_id);
    assert(s1.next_client_id == r1 + 1);
    assert(s1.consumers.contains_key(r1));
    assert(s2.consumers[r1] == s1.consumers[r1]);
    if group_name(t, k) == group_name(t, k + 1) {
        lemma_group_name_injective(t, k, t, k + 1);
    }
}

/// When the native consumer delivers a message with payload `payload`, the
/// client's poll answers `Ok(Some(payload))`; a timeout is answered
/// `Ok(None)`; and the poll is recorded once.
pub proof fn law_delivered_message_is_returned(
    c0: ConsumerView,
    c1: ConsumerView,
    timeout: Duration,
    r: Result<Option<Vec<u8>>, String>,
)
    requires
        consumer_polled(c0, c1, timeout, r),
        c0.connected(),
    ensures
        c1.native is Some,
        c1.native->0.deliveries().len() == c0.native->0.deliveries().len() + 1,
        c1.native->0.polls() == c0.native->0.polls().push(timeout),
        forall|payload: Seq<u8>|
            c1.native->0.deliveries().last() == Delivery::Message(Some(payload)) ==> r is Ok
                && r->Ok_0 is Some && r->Ok_0->0@ == payload,
        c1.native->0.deliveries().last() == Delivery::Timeout ==> r == Ok::<
            Option<Vec<u8>>,
            String,
        >(None),
{
    let d = choose|d: Delivery|
        c1 == (ConsumerView {
            native: Some(#[trigger] c0.native->0.after_poll(timeout, d)),
            ..c0
        }) && crate::consumer::poll_answer(d, r);
    c0.native->0.lemma_after_poll(timeout, d);
}

/// A native poll that returned a message with payload `payload` is recorded
/// as the delivery of that payload, and the client answers it with
/// `Ok(Some(payload))`; a native poll that returned nothing is a timeout,
/// answered `Ok(None)`.
pub proof fn law_received_payload_is_answered(
    payload: Vec<u8>,
    r: Result<Option<Vec<u8>>, String>,
)
    ensures
        delivery_of(Some(Ok::<Option<Vec<u8>>, KafkaError>(Some(payload))))
            == Delivery::Message(Some(payload@)),
        delivery_of(None::<Result<Option<Vec<u8>>, KafkaError>>) == Delivery::Timeout,
        crate::consumer::poll_answer(
            delivery_of(Some(Ok::<Option<Vec<u8>>, KafkaError>(Some(payload)))),
            r,
        ) ==> r is Ok && r->Ok_0 is Some && r->Ok_0->0@ == payload@,
        crate::consumer::poll_answer(delivery_of(None::<Result<Option<Vec<u8>>, KafkaError>>), r)
            ==> r == Ok::<Option<Vec<u8>>, String>(None),
{
}

/// When the native consumer of a registered consumer delivers a message with
/// payload `payload`, the poll answers 200 and that payload is then the
/// consumer's last message.
pub proof fn law_delivered_message_is_kept(
    s0: ProxyView,
    s1: ProxyView,
    id: u64,
    timeout: Duration,
    r: u64,
    payload: Seq<u8>,
)
    requires
        message_polled(s0, s1, id, timeout, r),
        s0.consumers.contains_key(id),
        s1.consumers[id].client.native->0.deliveries().last() == Delivery::Message(Some(payload)),
    ensures
        r == STATUS_OK,
        message_of(s1, id) == Some(payload),
        s1.last_error == s0.last_error,
{
    let d = choose|d: Delivery| #[trigger]
        polled_outcome(polled_state(s0, id, timeout, d), s1, id, d, r);
    let polled = polled_state(s0, id, timeout, d);
    s0.consumers[id].client.native->0.lemma_after_poll(timeout, d);
    assert(s1.consumers == polled.consumers);
    assert(polled.consumers[id].client.native->0 == s0.consumers[id].client.native->0.after_poll(
        timeout,
        d,
    ));
    assert(d == Delivery::Message(Some(payload)));
}

/// Non-empty bootstrap input is answered with 200 and kept whole: the
/// servers become the lossy decoding of all of it; nothing else changes.
pub proof fn law_bootstrap_keeps_whole_input(s: ProxyView, bytes: Seq<u8>)
    requires
        bytes.len() > 0,
    ensures
        after_set_bootstrap(s, Some(bytes)).1 == STATUS_OK,
        after_set_bootstrap(s, Some(bytes)).0.bootstrap_servers == Some(utf8_lossy(bytes)),
        after_set_bootstrap(s, Some(bytes)).0.consumers == s.consumers,
        after_set_bootstrap(s, Some(bytes)).0.producer == s.producer,
        after_set_bootstrap(s, Some(bytes)).0.next_client_id == s.next_client_id,
        after_set_bootstrap(s, Some(bytes)).0.last_error == s.last_error,
{
}

/// A send that succeeds offers, and the native producer accepts, exactly
/// the record of `topic`, all of `payload` and an empty key, once.
pub proof fn law_produce_offers_the_record(
    c0: ProducerView,
    c1: ProducerView,
    topic: Seq<char>,
    payload: Seq<u8>,
    r: Result<(), String>,
)
    requires
        produced(c0, c1, topic, payload, r),
        r is Ok,
    ensures
        c1.native is Some,
        c1.native->0.accepted().len() > 0,
        c1.native->0.accepted().last() == (OfferedRecord { topic, payload, key: Seq::empty() }),
        c1.native->0.offered().last() == (OfferedRecord { topic, payload, key: Seq::empty() }),
        c0.connected() ==> c1.native->0.accepted() == c0.native->0.accepted().push(
            OfferedRecord { topic, payload, key: Seq::empty() },
        ),
{
    let base = choose|base: NativeProducer| #[trigger]
        c0.connected_native(base) && c1 == (ProducerView {
            native: Some(
                base.after_send(crate::producer::produced_record(topic, payload), true).after_polls(
                    crate::producer::send_poll_waits(),
                ),
            ),
            ..c0
        });
    let record = OfferedRecord { topic, payload, key: Seq::empty() };
    base.lemma_after_send(record, true);
    base.after_send(record, true).lemma_after_polls(crate::producer::send_poll_waits(), 0);
}

/// A C-side send answered with 200 had the stored producer accept exactly
/// the record of the decoded topic, all of the payload bytes and an empty key.
pub proof fn law_produced_message_is_the_input(
    s0: ProxyView,
    s1: ProxyView,
    topic: Option<&[u8]>,
    payload: Option<&[u8]>,
)
    requires
        message_produced(s0, s1, topic, payload, STATUS_OK),
    ensures
        given(topic) && given(payload),
        s1.producer is Some && s1.producer->0.native is Some,
        s1.producer->0.native->0.accepted().len() > 0,
        s1.producer->0.native->0.accepted().last() == (OfferedRecord {
            topic: utf8_lossy(topic->0@),
            payload: payload->0@,
            key: Seq::empty(),
        }),
        s1.last_error == s0.last_error,
        s1.consumers == s0.consumers,
{
    let p = crate::state::sending_producer(s0);
    let record = OfferedRecord {
        topic: utf8_lossy(topic->0@),
        payload: payload->0@,
        key: Seq::empty(),
    };
    let base = choose|base: NativeProducer| #[trigger]
        p.connected_native(base) && s1 == (ProxyView {
            producer: Some(
                ProducerView {
                    native: Some(
                        base.after_send(
                            crate::producer::produced_record(utf8_lossy(topic->0@), payload->0@),
                            true,
                        ).after_polls(crate::producer::send_poll_waits()),
                    ),
                    ..p
                },
            ),
            ..s0
        });
    base.lemma_after_send(record, true);
    base.after_send(record, true).lemma_after_polls(crate::producer::send_poll_waits(), 0);
}

/// Destroying a consumer leaves the next id as it was, so every id handed
/// out afterwards is greater than the destroyed one and than every id still
/// registered.
pub proof fn law_destroy_keeps_next_id(s: ProxyView, id: u64)
    requires
        s.wf(),
    ensures
        after_destroy(s, id).next_client_id == s.next_client_id,
        s.consumers.contains_key(id) ==> id < after_destroy(s, id).next_client_id,
        forall|k: u64| #[trigger]
            after_destroy(s, id).consumers.contains_key(k) ==> k < after_destroy(
                s,
                id,
            ).next_client_id,
{
}

/// A consumer created after another was destroyed gets a greater id than
/// the destroyed one.
pub proof fn law_ids_after_destroy_are_new(
    s0: ProxyView,
    id: u64,
    s2: ProxyView,
    topic: Option<&[u8]>,
    r: u64,
)
    requires
        s0.wf(),
        s0.consumers.contains_key(id),
        created_consumer(after_destroy(s0, id), s2, topic, r),
        r != NO_CONSUMER,
    ensures
        r > id,
        r == s0.next_client_id,
{
}

/// A consumer creation for topic `t` can go ahead exactly when neither the
/// topic's count nor the next id is at `u64::MAX`: there is no other limit.
pub proof fn law_can_create_unless_overflow(s: ProxyView, t: Seq<char>)
    ensures
        s.can_create(t) <==> (s.next_client_id < u64::MAX && s.count_of(t) < u64::MAX),
{
}

} // verus!
