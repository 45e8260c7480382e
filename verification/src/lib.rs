//! Verified core of a framed client/server message endpoint: the length-prefixed
//! wire codec, response and error headers, message routing decisions, and the
//! configuration and logging rules of the server.

pub mod buffers;
pub mod cfg;
pub mod client;
pub mod codec;
pub mod errors;
pub mod handlers;
pub mod header;
pub mod naming;
pub mod protocol;
pub mod text;
pub mod trace;
