//! A DNS wire-format codec: queries are composed into bytes and responses are
//! decomposed into typed records, with every function carrying a contract.
//!
//! `message::encode_query` and `message::decode` are the two ends; `name`,
//! `header`, `record` and `dns_types` hold the parts they are made of, and
//! the modules that end in `_laws` state what holds across them.

pub mod error;
pub mod wire;
pub mod bits;
pub mod dns_types;
pub mod name;
pub mod name_laws;
pub mod header;
pub mod record;
pub mod record_laws;
pub mod message;
pub mod message_laws;
pub mod input;
