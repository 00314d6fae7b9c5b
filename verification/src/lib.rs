//! Client-side logic for a local model server that speaks HTTP with
//! newline-delimited JSON bodies: reassembling records from raw chunks,
//! decoding them into typed events, aggregating chat events, dispatching
//! tool calls and preparing outgoing messages.

pub mod catalog;
pub mod chat;
pub mod client;
pub mod decode;
pub mod json;
pub mod lines;
pub mod model;
pub mod request;
