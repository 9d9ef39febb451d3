//! Core of a reverse-forwarding HTTP proxy.
//!
//! An inbound path `/{host}/{path}` names an origin; the engine builds the
//! outbound request (query pairs, filtered headers, body), tries HTTPS first
//! and falls back to plain HTTP once, then adapts the origin's reply either
//! by streaming its bytes through untouched or by buffering the body and
//! rewriting absolute URL prefixes to route back through the proxy.
//!
//! Everything here is pure computation over plain values; the server loop,
//! the outbound HTTP client and all I/O live outside the library and drive
//! these functions with the values they read off the wire.

pub mod adapt;
pub mod forward;
pub mod headers;
pub mod replace;
pub mod resolver;
pub mod response;
pub mod rewrite;
pub mod text;
