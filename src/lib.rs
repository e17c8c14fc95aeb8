//! Request routing and ensemble execution over a pool of language-model
//! backends: validation, per-tenant rate limiting, response caching,
//! backend selection with circuit breaking, hedged racing, and the voting,
//! weighted, consensus and judge strategies. Waiting on backends and clocks
//! is left to the caller, which feeds outcomes to the state machines here.
use vstd::prelude::*;

pub mod errors;
pub mod config;
pub mod text;
pub mod ensemble;
pub mod providers;
pub mod judge;
pub mod breaker;
pub mod ratelimit;
pub mod hedge;
pub mod cache;
pub mod orchestrator;
pub mod wire;

verus! {

} // verus!
