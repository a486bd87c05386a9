//! The CoAP response view: a stateless, read-only projection over an
//! already-decoded packet — its status.

use vstd::prelude::*;

use crate::packet::{MessageClass, Packet, ResponseType};

verus! {

/// The CoAP response: a decoded packet read as a response.
#[derive(Debug, Clone, PartialEq)]
pub struct CoapResponse<'a> {
    pub message: &'a Packet<'a>,
}

/// The response status that a message class stands for: the status of a
/// response class, and `UnKnown` for every other class.
pub open spec fn status_of_class(c: MessageClass) -> ResponseType {
    match c {
        MessageClass::Response(rt) => rt,
        _ => ResponseType::UnKnown,
    }
}

impl<'a> CoapResponse<'a> {
    /// Wraps a decoded packet as a response.
    pub fn from_packet<'b>(packet: &'b Packet<'b>) -> (r: CoapResponse<'b>)
        ensures
            r.message == packet,
    {
        CoapResponse { message: packet }
    }

    /// The response status of the message, or `UnKnown` when its code is
    /// not a response class.
    pub fn get_status(&self) -> (r: ResponseType)
        ensures
            r == status_of_class(self.message@.code),
    {
        match self.message.get_code() {
            MessageClass::Response(rt) => rt,
            _ => ResponseType::UnKnown,
        }
    }
}

} // verus!
