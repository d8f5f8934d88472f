//! The protocol server: the wire format of requests and responses, and what
//! a session does with each message it reads.

pub mod websocket;
pub mod wire;
