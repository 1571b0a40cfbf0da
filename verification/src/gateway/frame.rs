//! WebSocket frames as values.

use vstd::prelude::*;

use super::diagnostics::OpCode;

verus! {

/// A frame with its unmasked payload.
pub struct Frame {
    pub fin: bool,
    pub opcode: OpCode,
    pub payload: Vec<u8>,
}

pub struct FrameModel {
    pub fin: bool,
    pub opcode: OpCode,
    pub payload: Seq<u8>,
}

impl View for Frame {
    type V = FrameModel;

    open spec fn view(&self) -> FrameModel {
        FrameModel { fin: self.fin, opcode: self.opcode, payload: self.payload@ }
    }
}

/// The frame that closes a connection: a status code and a reason.
pub open spec fn close_frame_model(code: u16, reason: Seq<u8>) -> FrameModel {
    FrameModel {
        fin: true,
        opcode: OpCode::Close,
        payload: seq![(code / 256) as u8, (code % 256) as u8] + reason,
    }
}

/// `fastwebsockets::Frame::close`: a final close frame whose payload is the code in network byte
/// order and then the reason. Only the payload is taken from it.
#[verifier::external_body]
fn close_payload(code: u16, reason: &[u8]) -> (r: Vec<u8>)
    ensures
        r@ == close_frame_model(code, reason@).payload,
{
    fastwebsockets::Frame::close(code, reason).payload.into()
}

pub fn close_frame(code: u16, reason: &[u8]) -> (r: Frame)
    ensures
        r@ == close_frame_model(code, reason@),
{
    Frame { fin: true, opcode: OpCode::Close, payload: close_payload(code, reason) }
}

/// The text of `fastwebsockets::WebSocketError::ConnectionClosed`.
#[verifier::external_body]
pub(crate) fn connection_closed_text() -> (r: String)
    ensures
        r@ == "Connection is closed"@,
{
    fastwebsockets::WebSocketError::ConnectionClosed.to_string()
}

/// A close frame is final and carries its code, high byte first, and then its reason.
pub proof fn law_close_frames_carry_code_and_reason(code: u16, reason: Seq<u8>)
    ensures
        ({
            let frame = close_frame_model(code, reason);
            &&& frame.fin
            &&& frame.opcode is Close
            &&& frame.payload.len() == reason.len() + 2
            &&& frame.payload[0] * 256 + frame.payload[1] == code
            &&& frame.payload.skip(2) == reason
        }),
{
    let frame = close_frame_model(code, reason);
    assert(frame.payload.skip(2) =~= reason);
}

} // verus!
