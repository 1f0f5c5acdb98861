//! The request handlers, each a session that asks for database operations
//! one at a time and ends with the reply to publish.

pub mod realtime;
pub mod removal;
pub mod model;
pub mod device;
pub mod version;
pub mod insertion;
