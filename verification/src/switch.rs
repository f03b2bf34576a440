//! The protocol-switch handshake: the first exchange on a fresh
//! connection. The connecting peer declares the sub-protocol it wants;
//! the acceptor acknowledges and re-interprets the same byte stream
//! under that sub-protocol's framing. The acceptor consumes exactly one
//! frame, so no bytes are lost across the hand-off.

use vstd::prelude::*;

use crate::codec::{
    decode_register_client_req, decode_register_result, encode_register_client_req,
    encode_register_result, spec_decode_register_client_req, spec_decode_register_result,
    spec_encode_register_client_req, spec_encode_register_result,
};
use crate::frame::{
    be32_prefix, spec_frame, spec_frame_payload, spec_frame_ready, spec_frame_rest, FrameBuffer,
};
use crate::messages::{ClientType, RegisterClientReq, RegisterResult, RegisterResultV};

verus! {

/// The acceptor's view of the handshake after examining its buffer.
#[derive(Clone, Copy, PartialEq, Eq, Structural, Debug)]
pub enum SwitchStep {
    /// The declaration's frame has not fully arrived yet.
    NeedMoreData,
    /// The peer declared this sub-protocol; hand the stream over.
    Dispatched(ClientType),
    /// The first frame was not a protocol-switch declaration: fatal,
    /// the connection is dropped.
    Violation,
}

/// The connecting peer's view of the acceptor's reply.
#[derive(Clone, PartialEq, Eq, Debug)]
pub enum SwitchReplyStep {
    /// The reply's frame has not fully arrived yet.
    NeedMoreData,
    /// The acceptor acknowledged the switch.
    Accepted,
    /// The acceptor rejected the switch, with an optional reason.
    Rejected(Option<Vec<u8>>),
    /// The reply was not a well-formed acknowledgement: fatal.
    Violation,
}

/// Acceptor side: reads exactly one frame from the buffer and decides.
/// While the frame is incomplete nothing is consumed; once it arrives,
/// only that frame is consumed, and any bytes behind it stay buffered
/// for the sub-protocol.
pub fn accept_switch(buf: &mut FrameBuffer) -> (r: SwitchStep)
    ensures
        !spec_frame_ready(old(buf)@) ==> r == SwitchStep::NeedMoreData && final(buf)@ == old(
            buf,
        )@,
        spec_frame_ready(old(buf)@) ==> {
            &&& final(buf)@ == spec_frame_rest(old(buf)@)
            &&& match spec_decode_register_client_req(spec_frame_payload(old(buf)@)) {
                Some(RegisterClientReq::SwitchProtocol(t)) => r == SwitchStep::Dispatched(t),
                None => r == SwitchStep::Violation,
            }
        },
{
    match buf.next_frame() {
        None => SwitchStep::NeedMoreData,
        Some(payload) => match decode_register_client_req(&payload) {
            Some(RegisterClientReq::SwitchProtocol(t)) => SwitchStep::Dispatched(t),
            None => SwitchStep::Violation,
        },
    }
}

/// Acceptor side: the framed acknowledgement sent after a successful
/// switch.
pub fn switch_accept_reply_frame() -> (r: Vec<u8>)
    ensures
        r@ == spec_frame(spec_encode_register_result(RegisterResultV::Accepted)),
{
    let reply = RegisterResult::Accepted;
    let payload = encode_register_result(&reply);
    let mut out = be32_prefix(payload.len() as u32);
    crate::codec::push_all(&mut out, &payload);
    out
}

/// Connecting side: the framed declaration of the wanted sub-protocol.
pub fn switch_request_frame(t: ClientType) -> (r: Vec<u8>)
    ensures
        r@ == spec_frame(
            spec_encode_register_client_req(RegisterClientReq::SwitchProtocol(t)),
        ),
{
    let req = RegisterClientReq::SwitchProtocol(t);
    let payload = encode_register_client_req(&req);
    let mut out = be32_prefix(payload.len() as u32);
    crate::codec::push_all(&mut out, &payload);
    out
}

/// Connecting side: reads the acceptor's reply frame and decides.
/// A rejection carries the acceptor's optional reason; a reply that is
/// not a well-formed acknowledgement is fatal.
pub fn client_read_switch_reply(buf: &mut FrameBuffer) -> (r: SwitchReplyStep)
    ensures
        !spec_frame_ready(old(buf)@) ==> r == SwitchReplyStep::NeedMoreData && final(buf)@
            == old(buf)@,
        spec_frame_ready(old(buf)@) ==> {
            &&& final(buf)@ == spec_frame_rest(old(buf)@)
            &&& match spec_decode_register_result(spec_frame_payload(old(buf)@)) {
                Some(RegisterResultV::Accepted) => r == SwitchReplyStep::Accepted,
                Some(RegisterResultV::Rejected(reason)) => (r matches SwitchReplyStep::Rejected(
                    got,
                ) && got.deep_view() == reason),
                None => r == SwitchReplyStep::Violation,
            }
        },
{
    match buf.next_frame() {
        None => SwitchReplyStep::NeedMoreData,
        Some(payload) => match decode_register_result(&payload) {
            Some(RegisterResult::Accepted) => SwitchReplyStep::Accepted,
            Some(RegisterResult::Rejected(reason)) => SwitchReplyStep::Rejected(reason),
            None => SwitchReplyStep::Violation,
        },
    }
}

} // verus!
