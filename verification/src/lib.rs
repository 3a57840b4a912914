//! Core of a command-line activator for a distributed actor runtime.
//!
//! The library builds a single typed invocation message, serialises it to a
//! stable binary wire format (a length-prefixed, tag-value scheme with fixed
//! field tags), derives the publish/subscribe topic that routes it, and
//! decides between fire-and-forget and request-reply dispatch.  The transport
//! itself (the connection to the message bus) lives outside the library; the
//! library hands it a finished topic and byte sequence and interprets what
//! came back.

pub mod actor_deactivation_strategy;
pub mod actor_invocation;
pub mod actor_invocation_response;
pub mod actor_snapshot_strategy;
pub mod broadcast_payload;
pub mod decode;
pub mod dispatch;
pub mod encode;
pub mod errors;
pub mod invocation_request;
pub mod invocation_response;
pub mod laws;
pub mod model;
pub mod protocol;
pub mod topic;
pub mod wire;
pub mod workflow;
