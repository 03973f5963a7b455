//! Client bridge for a remote trading terminal.
//!
//! A caller builds a fixed-schema [`command::Command`], the codec serializes
//! it to a canonical JSON object, and the transport client sends it over a
//! request/reply socket, then waits for the acknowledgement and for the
//! JSON-encoded payload on a separate pull socket.

pub mod client;
pub mod codec;
pub mod command;
pub mod errors;
