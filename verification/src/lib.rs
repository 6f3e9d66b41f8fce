//! The core of an HTTPS client: requests, responses, and the decisions of
//! the connection that carries them.
//!
//! - [`request`] builds requests and puts them on the wire.
//! - [`headers`] parses response headers.
//! - [`response`] holds responses and the incremental decoder that reads
//!   them from bytes arriving in any fragmentation; [`response::model`]
//!   says what the decoder does, and [`response::laws`] what follows from
//!   it.
//! - [`conn`] decides what the connection actor does next: one request in
//!   flight at a time, results in the order of the mailbox.
//! - [`stream`] decides what the TLS stream adapter does next: the
//!   handshake loop, and reads, writes and flushes of the stream.
//! - [`tls_client`] names the server to connect to.
//! - [`scan`], [`number`] and [`text`] are the byte-level primitives below
//!   the parsers.
//!
//! Nothing here touches a socket, a channel or a clock: the actor and the
//! adapter are functions from what happened outside to what to do next, and
//! whoever runs them does it.

pub mod conn;
pub mod headers;
pub mod number;
pub mod request;
pub mod response;
pub mod scan;
pub mod stream;
pub mod text;
pub mod tls_client;
