//! Threat-feed ingestion and inter-vault replication: the rules, parsers, protocols and decisions of
//! the service, verified.

pub mod api;
pub mod bootstrap;
pub mod client;
pub mod config;
pub mod crypto;
pub mod db;
pub mod entities;
pub mod error;
pub mod extract;
pub mod ids;
pub mod jobs;
pub mod json;
pub mod master;
pub mod middleware;
pub mod migration;
pub mod net;
pub mod parsers;
pub mod proxies;
pub mod replay;
pub mod retention;
pub mod retry;
pub mod scheduler;
pub mod state;
pub mod text;
pub mod time;

use vstd::prelude::*;

verus! {

/// Maximum accepted request body size in bytes, from the value of `MAX_BODY_SIZE_MIB`. The router
/// and the buffer for signed bodies both use it, so that the two never drift apart.
pub fn max_request_body_bytes(value: Option<&str>) -> (bytes: usize)
    ensures
        bytes == config::body_limit(text::optional(value)),
        bytes >= 1_048_576,
{
    config::max_body_bytes(value)
}

} // verus!
