//! Message handling core of an MQTT-driven device database: topic
//! rewriting, request decoding, SQL statement construction, callback
//! routing and the per-request protocol sessions.

pub mod text;
pub mod json;
pub mod common;
pub mod register;
pub mod sql;
pub mod protocol;
pub mod guid;
pub mod deals;
