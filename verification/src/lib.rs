//! The decisions of the QuantumLink lab: the Model Context Protocol (MCP) server that bridges a
//! model client to a paired device, the framing that carries QuantumLink traffic over TCP, and
//! the FIDO U2F exercise that is driven over USB HID.
//!
//! Sockets, HID devices, clocks and tasks stay outside. This library is handed plain values and
//! hands plain values back, and every function says exactly which ones.

pub mod auto_reply;
pub mod bytes;
pub mod companion;
pub mod crypto;
pub mod ctaphid;
pub mod event;
pub mod fido;
pub mod json;
pub mod manifest;
pub mod mcp;
pub mod pairing;
pub mod rpc;
pub mod session;
pub mod session_id;
pub mod text;
pub mod transport;
pub mod u2f;
