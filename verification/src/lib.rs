//! Core of an authenticating reverse proxy: bearer-token authentication,
//! hop-by-hop and CORS header filtering, upstream URL construction, CORS
//! preflight answers, and an order-preserving bounded relay for streamed
//! response bodies. The surrounding HTTP server, TLS bootstrap and network
//! I/O live outside this crate and call into these verified functions.

pub mod auth;
pub mod cors;
pub mod headers;
pub mod laws;
pub mod pipeline;
pub mod relay;
pub mod text;
