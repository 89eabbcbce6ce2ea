//! The decisions of a native HTTP client transport: where a connection goes,
//! which of them is used again, what is believed of an origin and for how
//! long, and what each failure says.
//!
//! Everything here computes. What waits, sends and receives is told what to do
//! by the machines in [`race`], [`connect`], [`proxy`], [`run`],
//! [`http2::keepalive`] and [`http3`], and tells them what happened.

pub mod altsvc;
pub mod bounds;
pub mod caps;
pub mod connect;
pub mod discovery;
pub mod error;
pub mod http2;
pub mod http3;
pub mod hyperio;
pub mod idle;
pub mod native;
pub mod net;
pub mod poll;
pub mod pool;
pub mod proxy;
pub mod race;
pub mod run;
pub mod table;
pub mod text;
pub mod time;
pub mod uri;

pub use altsvc::{AltSvcCache, Alternative, FieldValue, Origin};
pub use caps::Capabilities;
pub use connect::Conn;
pub use discovery::{Discovered, Prepared};
pub use error::{Error, ErrorKind};
pub use http2::keepalive::H2KeepAlive;
pub use hyperio::HyperIo;
pub use idle::IdleTimeout;
pub use native::Native;
pub use pool::{PoolConfig, Reaper};
pub use time::Duration;
