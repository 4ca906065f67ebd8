//! Ingestion core of a chat logger: protocol-line parsing, shard planning,
//! the per-shard connection state machine and adaptive batching.

pub mod batching;
pub mod config;
pub mod connection;
pub mod event;
pub mod msg;
pub mod number;
pub mod pattern;
pub mod planner;
pub mod sink;
pub mod tag_map;
pub mod tags;
pub mod text;
pub mod wire;
