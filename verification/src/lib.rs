//! In-enclave proxy agent core: framed message transport, request/response
//! multiplexing by correlation ID, local gateway translation, and workload
//! supervision policies.
//!
//! The agent brokers all outbound I/O of an enclave workload to a parent-host
//! proxy over a single bidirectional byte stream. This crate holds the
//! protocol and policy logic; the surrounding process (socket bring-up, the
//! async runtime, the local HTTP listeners) feeds it plain values.
//!
//! - [`frame`]: the length-prefixed framing of the wire.
//! - [`message`]: the message object, its JSON encoding, and the
//!   dispatcher's read step.
//! - [`mux`]: correlation IDs and the pending-waiter table.
//! - [`http_gateway`], [`kms_gateway`], [`health`]: what the three local
//!   listeners forward and answer.
//! - [`supervisor`]: the workload lifecycle decisions.
//! - [`config`]: startup configuration from the environment's values.
//! - [`json`]: the trusted window onto serde_json.
//! - [`text`]: decimal rendering and character helpers.

pub mod config;
pub mod frame;
pub mod health;
pub mod http_gateway;
pub mod json;
pub mod kms_gateway;
pub mod message;
pub mod mux;
pub mod supervisor;
pub mod text;
