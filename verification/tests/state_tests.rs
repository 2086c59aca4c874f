use kafka_proxy::counters::TopicCounters;
use kafka_proxy::state::{
    clear_last_error, clear_last_message, consumer_group_id, consumer_group_id_len,
    create_consumer, destroy_consumer, ensure_producer, get_bootstrap, last_error, last_error_len,
    last_message, last_message_len, poll_message, produce_message, producer_poll, record_poll,
    set_bootstrap_servers, try_create_consumer, GlobalState,
};
use std::time::Duration;

fn error_text(gs: &GlobalState) -> Option<String> {
    last_error(gs).map(|b| String::from_utf8(b.to_vec()).unwrap())
}

#[test]
fn counters_count_each_topic() {
    let mut counters = TopicCounters::new();
    let orders = "orders".to_string();
    let audit = "audit".to_string();
    assert_eq!(counters.count_of(&orders), 0);
    assert_eq!(counters.increment(&orders), 1);
    assert_eq!(counters.increment(&orders), 2);
    assert_eq!(counters.increment(&audit), 1);
    assert_eq!(counters.count_of(&orders), 2);
    assert_eq!(counters.count_of(&audit), 1);
}

#[test]
fn bootstrap_refuses_absent_or_empty_input() {
    let mut gs = GlobalState::new();
    assert_eq!(set_bootstrap_servers(&mut gs, None), 500);
    assert_eq!(set_bootstrap_servers(&mut gs, Some(b"")), 500);
    assert_eq!(get_bootstrap(&gs), Err("bootstrap.servers not set".to_string()));
    assert!(last_error(&gs).is_none());
}

#[test]
fn bootstrap_is_stored_decoded() {
    let mut gs = GlobalState::new();
    assert_eq!(set_bootstrap_servers(&mut gs, Some(b"localhost:9092")), 200);
    assert_eq!(get_bootstrap(&gs), Ok("localhost:9092".to_string()));
    // setting the same servers again changes nothing
    assert_eq!(set_bootstrap_servers(&mut gs, Some(b"localhost:9092")), 200);
    assert_eq!(get_bootstrap(&gs), Ok("localhost:9092".to_string()));
    // invalid UTF-8 is replaced, not refused
    assert_eq!(set_bootstrap_servers(&mut gs, Some(b"k\xffa")), 200);
    assert_eq!(get_bootstrap(&gs), Ok("k\u{FFFD}a".to_string()));
}

#[test]
fn create_consumer_without_bootstrap_reports_error() {
    let mut gs = GlobalState::new();
    assert_eq!(create_consumer(&mut gs, Some(b"orders")), 0);
    assert_eq!(error_text(&gs), Some("bootstrap.servers not set".to_string()));
    assert_eq!(last_error_len(&gs), 25);
    clear_last_error(&mut gs);
    assert!(last_error(&gs).is_none());
    assert_eq!(last_error_len(&gs), 0);
}

#[test]
fn create_consumer_refuses_absent_or_empty_topic() {
    let mut gs = GlobalState::new();
    assert_eq!(set_bootstrap_servers(&mut gs, Some(b"localhost:9092")), 200);
    assert_eq!(create_consumer(&mut gs, None), 0);
    assert_eq!(create_consumer(&mut gs, Some(b"")), 0);
    assert!(last_error(&gs).is_none());
}

#[test]
fn poll_of_unknown_consumer_is_not_found() {
    let mut gs = GlobalState::new();
    assert_eq!(poll_message(&mut gs, 7, Duration::from_millis(10)), 404);
    assert_eq!(error_text(&gs), Some("Consumer not found".to_string()));
    assert!(last_message(&gs, 7).is_none());
    assert_eq!(last_message_len(&gs, 7), 0);
    assert!(consumer_group_id(&gs, 7).is_none());
    assert_eq!(consumer_group_id_len(&gs, 7), 0);
}

#[test]
fn consumers_get_fresh_ids_and_own_groups() {
    let mut gs = GlobalState::new();
    assert_eq!(set_bootstrap_servers(&mut gs, Some(b"localhost:9092")), 200);
    assert_eq!(create_consumer(&mut gs, Some(b"orders")), 1);
    assert_eq!(create_consumer(&mut gs, Some(b"orders")), 2);
    assert_eq!(create_consumer(&mut gs, Some(b"audit")), 3);
    assert_eq!(consumer_group_id(&gs, 1).map(|g| g.as_str()), Some("orders-group-1"));
    assert_eq!(consumer_group_id(&gs, 2).map(|g| g.as_str()), Some("orders-group-2"));
    assert_eq!(consumer_group_id(&gs, 3).map(|g| g.as_str()), Some("audit-group-1"));
    assert_eq!(consumer_group_id_len(&gs, 1), 14);
    destroy_consumer(&mut gs, 2);
    assert!(consumer_group_id(&gs, 2).is_none());
    // a destroyed id is not handed out again, and the topic count goes on
    assert_eq!(create_consumer(&mut gs, Some(b"orders")), 4);
    assert_eq!(consumer_group_id(&gs, 4).map(|g| g.as_str()), Some("orders-group-3"));
    destroy_consumer(&mut gs, 1);
    destroy_consumer(&mut gs, 3);
    destroy_consumer(&mut gs, 4);
}

#[test]
fn recorded_poll_results_read_back() {
    let mut gs = GlobalState::new();
    assert_eq!(set_bootstrap_servers(&mut gs, Some(b"localhost:9092")), 200);
    let id = create_consumer(&mut gs, Some(b"events"));
    assert_eq!(id, 1);
    assert_eq!(record_poll(&mut gs, id, Ok(Some(b"hello".to_vec()))), 200);
    assert_eq!(last_message(&gs, id), Some(&b"hello"[..]));
    assert_eq!(last_message_len(&gs, id), 5);
    assert_eq!(record_poll(&mut gs, id, Ok(None)), 0);
    assert_eq!(last_message(&gs, id), Some(&b"hello"[..]));
    assert_eq!(record_poll(&mut gs, id, Err("boom".to_string())), 500);
    assert_eq!(error_text(&gs), Some("boom".to_string()));
    assert_eq!(last_message(&gs, id), Some(&b"hello"[..]));
    clear_last_message(&mut gs, id);
    assert!(last_message(&gs, id).is_none());
    assert_eq!(record_poll(&mut gs, id, Ok(Some(b"again".to_vec()))), 200);
    destroy_consumer(&mut gs, id);
    assert!(last_message(&gs, id).is_none());
    assert_eq!(poll_message(&mut gs, id, Duration::from_millis(10)), 404);
}

#[test]
fn poll_of_registered_consumer_answers_known_status() {
    let mut gs = GlobalState::new();
    assert_eq!(set_bootstrap_servers(&mut gs, Some(b"localhost:9092")), 200);
    let id = create_consumer(&mut gs, Some(b"events"));
    assert_eq!(id, 1);
    let status = poll_message(&mut gs, id, Duration::from_millis(100));
    assert!(status == 200 || status == 0 || status == 500, "status {}", status);
    if status == 500 {
        assert!(error_text(&gs).unwrap().starts_with("Error receiving message: "));
    }
    destroy_consumer(&mut gs, id);
}

#[test]
fn producer_needs_bootstrap() {
    let mut gs = GlobalState::new();
    assert_eq!(ensure_producer(&mut gs), 500);
    assert_eq!(error_text(&gs), Some("bootstrap.servers not set".to_string()));
    assert_eq!(producer_poll(&mut gs, 10), 500);
    assert_eq!(error_text(&gs), Some("Producer not initialized".to_string()));
    assert_eq!(produce_message(&mut gs, Some(b"t"), Some(b"p")), 500);
    assert_eq!(error_text(&gs), Some("bootstrap.servers not set".to_string()));
}

#[test]
fn produce_refuses_absent_or_empty_input() {
    let mut gs = GlobalState::new();
    assert_eq!(set_bootstrap_servers(&mut gs, Some(b"localhost:9092")), 200);
    assert_eq!(produce_message(&mut gs, None, Some(b"p")), 500);
    assert_eq!(produce_message(&mut gs, Some(b"t"), None), 500);
    assert_eq!(produce_message(&mut gs, Some(b""), Some(b"p")), 500);
    assert_eq!(produce_message(&mut gs, Some(b"t"), Some(b"")), 500);
    assert!(last_error(&gs).is_none());
    // nothing was created on the way
    assert_eq!(producer_poll(&mut gs, 10), 500);
}

#[test]
fn test_producer_send_message() {
    let bootstrap = "localhost:9092".to_string();
    let topic = "topic0".to_string();
    let mut gs = GlobalState::new();

    assert_eq!(set_bootstrap_servers(&mut gs, Some(bootstrap.as_bytes())), 200);

    let status = ensure_producer(&mut gs);
    assert_eq!(status, 200, "ensure_producer failed: {:?}", error_text(&gs));
    // a second call finds the producer
    assert_eq!(ensure_producer(&mut gs), 200);

    let status = produce_message(&mut gs, Some(topic.as_bytes()), Some(b"test-message"));
    assert_eq!(status, 200, "produce_message failed: {:?}", error_text(&gs));

    assert_eq!(
        producer_poll(&mut gs, 200),
        200,
        "producer_poll failed: {:?}",
        error_text(&gs)
    );
}

#[test]
fn produce_refuses_a_topic_with_nul() {
    let mut gs = GlobalState::new();
    assert_eq!(set_bootstrap_servers(&mut gs, Some(b"localhost:9092")), 200);
    assert_eq!(produce_message(&mut gs, Some(b"a\0b"), Some(b"p")), 500);
    assert_eq!(
        error_text(&gs),
        Some("Failed to send message: topic contains a NUL character".to_string())
    );
    // the producer was created and kept on the way
    assert_eq!(producer_poll(&mut gs, 10), 200);
}

#[test]
fn produce_with_nul_topic_and_no_servers_reports_servers() {
    let mut gs = GlobalState::new();
    assert_eq!(produce_message(&mut gs, Some(b"a\0b"), Some(b"p")), 500);
    assert_eq!(error_text(&gs), Some("bootstrap.servers not set".to_string()));
}

#[test]
fn create_consumer_with_nul_topic_fails_cleanly() {
    let mut gs = GlobalState::new();
    assert_eq!(set_bootstrap_servers(&mut gs, Some(b"localhost:9092")), 200);
    assert_eq!(create_consumer(&mut gs, Some(b"a\0b")), 0);
    assert!(error_text(&gs).unwrap().starts_with("Failed to create consumer: "));
    // the topic was still counted: the next consumer of a clean topic is fine
    assert_eq!(create_consumer(&mut gs, Some(b"clean")), 1);
    destroy_consumer(&mut gs, 1);
}

#[test]
fn try_create_consumer_creates_when_there_is_room() {
    let mut gs = GlobalState::new();
    assert_eq!(try_create_consumer(&mut gs, Some(b"orders")), Some(0));
    assert_eq!(error_text(&gs), Some("bootstrap.servers not set".to_string()));
    assert_eq!(set_bootstrap_servers(&mut gs, Some(b"localhost:9092")), 200);
    assert_eq!(try_create_consumer(&mut gs, None), Some(0));
    assert_eq!(try_create_consumer(&mut gs, Some(b"orders")), Some(1));
    assert_eq!(consumer_group_id(&gs, 1).map(|g| g.as_str()), Some("orders-group-1"));
    destroy_consumer(&mut gs, 1);
}

#[test]
fn cleared_error_stays_cleared_through_successes() {
    let mut gs = GlobalState::new();
    assert_eq!(create_consumer(&mut gs, Some(b"orders")), 0);
    assert!(last_error(&gs).is_some());
    clear_last_error(&mut gs);
    assert_eq!(set_bootstrap_servers(&mut gs, Some(b"localhost:9092")), 200);
    let id = create_consumer(&mut gs, Some(b"orders"));
    assert_eq!(id, 1);
    assert_eq!(record_poll(&mut gs, id, Ok(Some(b"m".to_vec()))), 200);
    assert_eq!(record_poll(&mut gs, id, Ok(None)), 0);
    clear_last_message(&mut gs, id);
    destroy_consumer(&mut gs, id);
    assert!(last_error(&gs).is_none());
    assert_eq!(last_error_len(&gs), 0);
}
