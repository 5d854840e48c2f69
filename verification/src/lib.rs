//! Verified core of an MCP routing gateway.
//!
//! The library holds the logic of the gateway: the JSON-RPC envelope,
//! the namespaced resource-URI codec, the bearer gate, the subscription
//! store with its quota arithmetic and write-through cache, the upstream
//! registry, and the router's dispatch, aggregation and tool-call rules.
//! Transports, the admin HTTP surface and process wiring live outside,
//! in an unverified shell that calls into these functions.

pub mod auth;
pub mod config;
pub mod crypto;
pub mod json;
pub mod router;
pub mod sse;
pub mod jsonrpc;
pub mod subs;
pub mod upstream;
pub mod util;

pub use json::Json;
