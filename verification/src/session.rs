//! The upload session state machine: the sub-protocol's handshake
//! (exactly one `Register` first), then a streaming phase driven by
//! inbound events and the cancellation signal. The machine decides;
//! the surrounding service performs the returned actions in order.

use vstd::prelude::*;

use crate::codec::{
    decode_upload_request, encode_upload_response, spec_decode_upload_request,
    spec_encode_upload_response,
};
use crate::frame::{
    be32_prefix, spec_frame, spec_frame_payload, spec_frame_ready, spec_frame_rest, FrameBuffer,
};
use crate::messages::{UploadRequest, UploadRequestV, UploadResponse};

verus! {

/// Phases of an upload session; the last three are terminal.
#[derive(Clone, Copy, PartialEq, Eq, Structural, Debug)]
pub enum SessionPhase {
    Handshaking,
    Streaming,
    Completed,
    Killed,
    Errored,
}

/// True for the phases a session never leaves.
pub open spec fn is_terminal(p: SessionPhase) -> bool {
    p == SessionPhase::Completed || p == SessionPhase::Killed || p == SessionPhase::Errored
}

/// What the session's driver observed: a decoded inbound message, a
/// clean end of stream, a read or decode failure, or the cancellation
/// signal delivered by a preempting registration.
#[derive(Clone, PartialEq, Eq, Debug)]
pub enum SessionEvent {
    Frame(UploadRequest),
    StreamEnd,
    ReadError,
    Cancelled,
}

/// What the driver must perform, in order, after a transition.
#[derive(Clone, PartialEq, Eq, Debug)]
pub enum SessionAction {
    /// Remove any pre-existing destination file, so stale content from
    /// an earlier transfer cannot leak into this one.
    TruncateFile,
    /// Reply `RegisterResult` with the given result over the channel.
    SendAck(bool),
    /// Append the chunk to the destination file.
    AppendFile(Vec<u8>),
    /// Send the relinquish confirmation to the preemptor's rendezvous.
    ConfirmRelinquish,
    /// Remove this session's registry entry, guarded by its handle.
    Unregister,
}

/// Reads the next inbound event from the session's channel: `None`
/// while the head frame is incomplete; otherwise the decoded message,
/// or a read failure when the frame does not spell one. End of stream
/// and the cancellation signal are observed by the driver itself, not
/// by the buffer.
pub fn next_session_event(buf: &mut FrameBuffer) -> (r: Option<SessionEvent>)
    ensures
        !spec_frame_ready(old(buf)@) ==> r is None && final(buf)@ == old(buf)@,
        spec_frame_ready(old(buf)@) ==> {
            &&& final(buf)@ == spec_frame_rest(old(buf)@)
            &&& (r matches Some(ev) && match spec_decode_upload_request(
                spec_frame_payload(old(buf)@),
            ) {
                Some(mv) => (ev matches SessionEvent::Frame(m) && m@ == mv),
                None => ev == SessionEvent::ReadError,
            })
        },
{
    match buf.next_frame() {
        None => None,
        Some(payload) => match decode_upload_request(&payload) {
            Some(m) => Some(SessionEvent::Frame(m)),
            None => Some(SessionEvent::ReadError),
        },
    }
}

/// The framed handshake result the server sends back.
pub fn register_result_frame(accepted: bool) -> (r: Vec<u8>)
    ensures
        r@ == spec_frame(spec_encode_upload_response(UploadResponse::RegisterResult(accepted))),
{
    let reply = UploadResponse::RegisterResult(accepted);
    let payload = encode_upload_response(&reply);
    let mut out = be32_prefix(payload.len() as u32);
    crate::codec::push_all(&mut out, &payload);
    out
}

/// One upload session: its phase and its destination path, which is
/// fixed for the session's lifetime once the handshake accepts.
pub struct SessionCore {
    pub phase: SessionPhase,
    pub path: Vec<u8>,
}

impl SessionCore {
    /// A fresh session, ready to run the handshake.
    pub fn begin() -> (r: SessionCore)
        ensures
            r.phase == SessionPhase::Handshaking,
            r.path@ == Seq::<u8>::empty(),
    {
        SessionCore { phase: SessionPhase::Handshaking, path: Vec::new() }
    }

    /// Runs the handshake on the first event. Exactly a `Register`
    /// message is accepted: the session takes its path, the stale
    /// destination file is removed, and the acknowledgement is sent.
    /// Anything else is a protocol violation: the session fails with no
    /// acknowledgement and no file touched.
    pub fn handshake(&mut self, first: SessionEvent) -> (acts: Vec<SessionAction>)
        requires
            old(self).phase == SessionPhase::Handshaking,
        ensures
            first matches SessionEvent::Frame(UploadRequest::Register(p)) ==> {
                &&& final(self).phase == SessionPhase::Streaming
                &&& final(self).path@ == p@
                &&& acts@ == seq![SessionAction::TruncateFile, SessionAction::SendAck(true)]
            },
            !(first matches SessionEvent::Frame(UploadRequest::Register(p))) ==> {
                &&& final(self).phase == SessionPhase::Errored
                &&& acts@ == Seq::<SessionAction>::empty()
            },
    {
        match first {
            SessionEvent::Frame(UploadRequest::Register(p)) => {
                self.phase = SessionPhase::Streaming;
                self.path = p;
                let mut acts: Vec<SessionAction> = Vec::new();
                acts.push(SessionAction::TruncateFile);
                acts.push(SessionAction::SendAck(true));
                proof {
                    assert(acts@ =~= seq![
                        SessionAction::TruncateFile,
                        SessionAction::SendAck(true),
                    ]);
                }
                acts
            },
            _ => {
                self.phase = SessionPhase::Errored;
                Vec::new()
            },
        }
    }

    /// One streaming-phase transition. Chunks are appended in arrival
    /// order; a stray `Register` is ignored; end of stream, a read
    /// failure and the cancellation signal are terminal, and every
    /// terminal transition unregisters. A terminal session is absorbing
    /// and silent: no event changes it and no action is emitted, so in
    /// particular a killed session never writes again.
    pub fn step(&mut self, event: SessionEvent) -> (acts: Vec<SessionAction>)
        ensures
            final(self).path == old(self).path,
            is_terminal(old(self).phase) ==> *final(self) == *old(self) && acts@
                == Seq::<SessionAction>::empty(),
            old(self).phase == SessionPhase::Handshaking ==> *final(self) == *old(self) && acts@
                == Seq::<SessionAction>::empty(),
            old(self).phase == SessionPhase::Streaming ==> {
                &&& (event matches SessionEvent::Frame(UploadRequest::Upload(d)) ==> {
                    &&& final(self).phase == SessionPhase::Streaming
                    &&& acts@.len() == 1
                    &&& (acts@[0] matches SessionAction::AppendFile(b) && b@ == d@)
                })
                &&& (event matches SessionEvent::Frame(UploadRequest::Register(p)) ==> {
                    &&& *final(self) == *old(self)
                    &&& acts@ == Seq::<SessionAction>::empty()
                })
                &&& (event == SessionEvent::StreamEnd ==> {
                    &&& final(self).phase == SessionPhase::Completed
                    &&& acts@ == seq![SessionAction::Unregister]
                })
                &&& (event == SessionEvent::ReadError ==> {
                    &&& final(self).phase == SessionPhase::Errored
                    &&& acts@ == seq![SessionAction::Unregister]
                })
                &&& (event == SessionEvent::Cancelled ==> {
                    &&& final(self).phase == SessionPhase::Killed
                    &&& acts@ == seq![
                        SessionAction::ConfirmRelinquish,
                        SessionAction::Unregister,
                    ]
                })
            },
    {
        if !matches!(self.phase, SessionPhase::Streaming) {
            return Vec::new();
        }
        match event {
            SessionEvent::Frame(UploadRequest::Upload(d)) => {
                let mut acts: Vec<SessionAction> = Vec::new();
                acts.push(SessionAction::AppendFile(d));
                acts
            },
            SessionEvent::Frame(UploadRequest::Register(_)) => {
                // A protocol violation, but a harmless one: it does not
                // corrupt the file, so it is ignored and the session
                // continues.
                Vec::new()
            },
            SessionEvent::StreamEnd => {
                self.phase = SessionPhase::Completed;
                let mut acts: Vec<SessionAction> = Vec::new();
                acts.push(SessionAction::Unregister);
                proof {
                    assert(acts@ =~= seq![SessionAction::Unregister]);
                }
                acts
            },
            SessionEvent::ReadError => {
                self.phase = SessionPhase::Errored;
                let mut acts: Vec<SessionAction> = Vec::new();
                acts.push(SessionAction::Unregister);
                proof {
                    assert(acts@ =~= seq![SessionAction::Unregister]);
                }
                acts
            },
            SessionEvent::Cancelled => {
                self.phase = SessionPhase::Killed;
                let mut acts: Vec<SessionAction> = Vec::new();
                acts.push(SessionAction::ConfirmRelinquish);
                acts.push(SessionAction::Unregister);
                proof {
                    assert(acts@ =~= seq![
                        SessionAction::ConfirmRelinquish,
                        SessionAction::Unregister,
                    ]);
                }
                acts
            },
        }
    }
}

} // verus!
