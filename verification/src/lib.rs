//! A verified codec for CoAP (Constrained Application Protocol) messages.
//!
//! The codec turns a byte buffer into a structured [`packet::Packet`] and
//! back, under strict size bounds: every buffer access is bounds-checked,
//! every capacity is a fixed build-time constant, and the wire format is
//! specified mathematically in [`wire`], against which both directions of
//! the codec are proved.

use vstd::prelude::*;

pub mod error;
pub mod packet;
pub mod request;
pub mod response;
pub mod wire;

verus! {

/// Largest wire size, in bytes, that `to_bytes` will produce.
pub const PACKET_MAX_SIZE: usize = 3000;

/// Largest payload carried by a packet built for transmission.
pub const PACKET_PAYLOAD_MAX_SIZE: usize = 2000;

/// Fixed capacity of a packet's option list.
pub const MAX_OPTIONS: usize = 32;

/// Fixed capacity, in bytes, of the path returned by `get_path`.
pub const PATH_MAX_SIZE: usize = 100;

} // verus!
