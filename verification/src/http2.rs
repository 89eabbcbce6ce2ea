//! What is particular to HTTP/2: its failures and its keep-alive.

pub mod error;
pub mod keepalive;
