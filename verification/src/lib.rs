//! The decisions of an HTTP-to-Kafka bridge: the Kafka producer and consumer
//! clients, and the registry of consumers, buffers and errors behind the C
//! interface.
pub mod kafka;
pub mod text;
pub mod consumer;
pub mod producer;
pub mod counters;
pub mod state;
pub mod laws;
