//! Verified core of a market-data streaming pipeline.
//!
//! The library ingests newline-delimited JSON events, classifies and decodes
//! them into typed stream events, normalizes their timestamps, converts them
//! into binary-ready wire frames, and hands them through a bounded FIFO relay.
//! Network transport and socket publication live outside the library.

pub mod classify;
pub mod codec;
pub mod config;
pub mod json;
pub mod lines;
pub mod models;
pub mod pipeline;
pub mod relay;
pub mod timestamp;
