//! What is particular to HTTP/3: its bodies, its early data, its failures and
//! the two halves of a request.

pub mod body;
pub mod early;
pub mod error;
pub mod staged;
