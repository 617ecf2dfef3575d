//! Remote session and protocol control for applications that expose a
//! JSON-RPC/HTTP endpoint: the request/response envelope logic, the
//! Server-Sent-Events decoder, readiness polling, port probing, and the
//! bookkeeping behind managed and detached target sessions.
use vstd::prelude::*;

pub mod client;
pub mod commands;
pub mod detached;
pub mod json;
pub mod managed;
pub mod poll;
pub mod port;
pub mod rpc;
pub mod sse;
pub mod text;

verus! {

/// Default port for remote control connections.
pub const DEFAULT_REMOTE_PORT: u16 = 15702;

/// Name of the command-line binary; session files derive their prefix from it.
pub const BIN_NAME: &'static str = "brp";

} // verus!
