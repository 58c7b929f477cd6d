//! An in-memory key-value store with a line-oriented command protocol and
//! topic-based publish/subscribe, as a verified core.

pub mod addr;
pub mod broker;
pub mod client;
pub mod handler;
pub mod parser;
pub mod redis;
pub mod server;
pub mod tlv;
pub mod vec_map;
