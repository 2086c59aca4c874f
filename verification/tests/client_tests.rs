use kafka_proxy::consumer::{receive_outcome, KafkaConsumerClient};
use kafka_proxy::producer::KafkaProducerClient;
use std::time::{Duration, SystemTime, UNIX_EPOCH};

fn unique_suffix() -> u128 {
    SystemTime::now().duration_since(UNIX_EPOCH).unwrap().as_millis()
}

#[test]
fn consumer_config_holds_the_settings() {
    let client = KafkaConsumerClient::new("broker:9092".to_string(), "t-group-1".to_string());
    let config = client.consumer_config();
    assert_eq!(config.get("bootstrap.servers"), Some("broker:9092"));
    assert_eq!(config.get("group.id"), Some("t-group-1"));
    assert_eq!(config.get("session.timeout.ms"), Some("6000"));
    assert_eq!(config.get("auto.offset.reset"), Some("latest"));
    assert_eq!(config.config_map().len(), 4);
}

#[test]
fn producer_config_holds_the_settings() {
    let client = KafkaProducerClient::new("broker:9092".to_string());
    let config = client.producer_config();
    assert_eq!(config.get("bootstrap.servers"), Some("broker:9092"));
    assert_eq!(config.get("allow.auto.create.topics"), Some("true"));
    assert_eq!(config.config_map().len(), 2);
}

#[test]
fn unconnected_clients_refuse_to_poll() {
    let mut consumer = KafkaConsumerClient::new("localhost:9092".to_string(), "g".to_string());
    assert_eq!(
        consumer.poll(Duration::from_millis(10)),
        Err("Consumer not initialized".to_string())
    );
    let mut producer = KafkaProducerClient::new("localhost:9092".to_string());
    assert_eq!(
        producer.poll(10),
        Err("Producer not initialized".to_string())
    );
}

#[test]
fn receive_outcome_maps_deliveries() {
    assert_eq!(receive_outcome(None), Ok(None));
    assert_eq!(receive_outcome(Some(Ok(None))), Ok(None));
    assert_eq!(receive_outcome(Some(Ok(Some(vec![1, 2, 3])))), Ok(Some(vec![1, 2, 3])));
    assert_eq!(
        receive_outcome(Some(Err("Subscription error: gone".to_string()))),
        Err("Error receiving message: Subscription error: gone".to_string())
    );
}

#[test]
fn consumer_connects_once_and_subscribes_once() {
    let mut client =
        KafkaConsumerClient::new("localhost:9092".to_string(), format!("g-{}", unique_suffix()));
    assert_eq!(client.connect(), Ok(()));
    assert_eq!(client.connect(), Ok(()));
    assert_eq!(client.subscribe("topic0"), Ok(()));
    assert_eq!(client.subscribe("topic0"), Ok(()));
    let polled = client.poll(Duration::from_millis(100));
    if let Err(m) = &polled {
        assert!(m.starts_with("Error receiving message: "), "{}", m);
    }
}

#[test]
fn test_producer_send() {
    let bootstrap = "localhost:9092".to_string();
    let topic = "test0".to_string();

    let mut producer = KafkaProducerClient::new(bootstrap);
    producer.connect().expect("connect failed");

    let payload = format!("producer-test-{}", unique_suffix()).into_bytes();
    producer.produce(&topic, &payload).expect("produce failed");

    producer.poll(200).expect("poll failed");
}

#[test]
fn producer_sends_and_polls_after_connecting() {
    let mut producer = KafkaProducerClient::new("localhost:9092".to_string());
    assert_eq!(producer.poll(0), Err("Producer not initialized".to_string()));
    assert_eq!(producer.produce("events", b"one"), Ok(()));
    assert_eq!(producer.connect(), Ok(()));
    assert_eq!(producer.poll(0), Ok(()));
}

#[test]
fn producer_refuses_a_topic_with_nul_after_connecting() {
    let mut producer = KafkaProducerClient::new("localhost:9092".to_string());
    assert_eq!(
        producer.produce("a\0b", b"p"),
        Err("Failed to send message: topic contains a NUL character".to_string())
    );
    // the producer was connected on the way
    assert_eq!(producer.poll(0), Ok(()));
}
