//! Verified core of an asynchronous runtime and HTTP/TCP surface for a
//! component guest: the decisions of the runtime, stream adapters, HTTP body
//! engine, client and server are stated and proved here, while the host
//! calls that drive them live in the companion application crate.

pub mod body;
pub mod client;
pub mod decimal;
pub mod frames;
pub mod headers;
pub mod io;
pub mod message;
pub mod net;
pub mod runtime;
pub mod server;
pub mod time;
