//! The decisions of a warehouse inventory service: what an event means, which
//! stock movements it leads to, and what becomes of the message it came in.
pub mod avro;
pub mod cassandra;
pub mod config;
pub mod consumer;
pub mod dead_letter;
pub mod events;
pub mod handlers;
pub mod http;
pub mod json;
pub mod laws;
pub mod outcomes;
pub mod payload;
pub mod processing;
pub mod producer;
pub mod retry;
pub mod run;
pub mod schema_registry;
pub mod store;
pub mod tables;
pub mod text;
pub mod time;
pub mod wire;
