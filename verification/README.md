# kafka_proxy

The Rust side of an HTTP-to-Kafka bridge for Envoy: Kafka producer and
consumer clients, and a registry of consumers, received messages and errors
that a C filter drives through numeric statuses.

- `src/` is verified with Verus.
  - `kafka.rs`: the trusted boundary with `rdkafka` (configurations, native
    consumers and producers, errors).
  - `text.rs`: UTF-8 decoding, decimal numbers, consumer group names, messages.
  - `consumer.rs`, `producer.rs`: the two clients.
  - `counters.rs`: per-topic counts of requested consumers.
  - `state.rs`: the registry and every operation of the C interface.
  - `laws.rs`: what holds across those operations.
- `app/` holds the C interface itself: the global registry behind a lock, raw
  pointers in and out, and buffer release.
- `tests/` exercise the library; they need no running broker.
