//! Client-side upload decisions: the frames the uploading peer sends,
//! how it reads the server's handshake result, and the progress
//! events it reports to its caller.

use vstd::prelude::*;

use crate::codec::{decode_upload_response, encode_upload_request, spec_decode_upload_response,
    spec_encode_upload_request};
use crate::frame::{frame_payload, spec_frame, spec_frame_payload, spec_frame_ready,
    spec_frame_rest, FrameBuffer};
use crate::messages::{UploadRequest, UploadRequestV, UploadResponse};
use crate::text::{spec_ascii_chars, spec_dec_u64, u64_to_string};

verus! {

/// The uploading peer's view of the server's handshake reply.
#[derive(Clone, Copy, PartialEq, Eq, Structural, Debug)]
pub enum RegisterReplyStep {
    /// The reply's frame has not fully arrived yet.
    NeedMoreData,
    /// The server accepted the registration; streaming may begin.
    Accepted,
    /// The server refused the registration.
    Refused,
    /// The bytes did not spell a reply: fatal.
    Violation,
}

/// The framed registration declaring the destination path; `None`
/// exactly when the encoded message is too long for a frame.
pub fn register_request_frame(path: Vec<u8>) -> (r: Option<Vec<u8>>)
    ensures
        spec_encode_upload_request(UploadRequestV::Register(path@)).len() <= u32::MAX ==> (
        r matches Some(f) && f@ == spec_frame(
            spec_encode_upload_request(UploadRequestV::Register(path@)),
        )),
        spec_encode_upload_request(UploadRequestV::Register(path@)).len() > u32::MAX ==> r
            is None,
{
    let msg = UploadRequest::Register(path);
    let payload = encode_upload_request(&msg);
    frame_payload(&payload)
}

/// One framed chunk of file content; `None` exactly when the encoded
/// message is too long for a frame.
pub fn chunk_frame(data: Vec<u8>) -> (r: Option<Vec<u8>>)
    ensures
        spec_encode_upload_request(UploadRequestV::Upload(data@)).len() <= u32::MAX ==> (
        r matches Some(f) && f@ == spec_frame(
            spec_encode_upload_request(UploadRequestV::Upload(data@)),
        )),
        spec_encode_upload_request(UploadRequestV::Upload(data@)).len() > u32::MAX ==> r
            is None,
{
    let msg = UploadRequest::Upload(data);
    let payload = encode_upload_request(&msg);
    frame_payload(&payload)
}

/// Reads the server's handshake result frame and decides.
pub fn client_read_register_reply(buf: &mut FrameBuffer) -> (r: RegisterReplyStep)
    ensures
        !spec_frame_ready(old(buf)@) ==> r == RegisterReplyStep::NeedMoreData && final(buf)@
            == old(buf)@,
        spec_frame_ready(old(buf)@) ==> {
            &&& final(buf)@ == spec_frame_rest(old(buf)@)
            &&& match spec_decode_upload_response(spec_frame_payload(old(buf)@)) {
                Some(UploadResponse::RegisterResult(true)) => r == RegisterReplyStep::Accepted,
                Some(UploadResponse::RegisterResult(false)) => r == RegisterReplyStep::Refused,
                None => r == RegisterReplyStep::Violation,
            }
        },
{
    match buf.next_frame() {
        None => RegisterReplyStep::NeedMoreData,
        Some(payload) => match decode_upload_response(&payload) {
            Some(UploadResponse::RegisterResult(true)) => RegisterReplyStep::Accepted,
            Some(UploadResponse::RegisterResult(false)) => RegisterReplyStep::Refused,
            None => RegisterReplyStep::Violation,
        },
    }
}

/// A progress report handed to the caller per chunk and at completion:
/// how far the transfer is, and whether it is done. Delivery is
/// fire-and-forget.
#[derive(Clone, Debug)]
pub struct UploadEvent {
    percent: String,
    is_done: bool,
}

impl UploadEvent {
    /// What the event's percent field reads.
    pub closed spec fn percent_spec(&self) -> Seq<char> {
        self.percent@
    }

    /// Whether the event marks completion.
    pub closed spec fn is_done_spec(&self) -> bool {
        self.is_done
    }

    /// An in-flight progress event.
    pub fn progress(percent: String) -> (r: UploadEvent)
        ensures
            r.percent_spec() == percent@,
            !r.is_done_spec(),
    {
        UploadEvent { percent, is_done: false }
    }

    /// The final event: the transfer is done.
    pub fn completed() -> (r: UploadEvent)
        ensures
            r.percent_spec() == "100"@,
            r.is_done_spec(),
    {
        UploadEvent { percent: String::from_str("100"), is_done: true }
    }

    /// The percent text, for the caller's event sink.
    pub fn percent(&self) -> (r: &String)
        ensures
            r@ == self.percent_spec(),
    {
        &self.percent
    }

    /// Whether the event marks completion, for the caller's event sink.
    pub fn is_done(&self) -> (r: bool)
        ensures
            r == self.is_done_spec(),
    {
        self.is_done
    }
}

/// The event key a new upload task publishes its progress under: the
/// fixed prefix followed by the task's number.
pub fn next_event_key(id: u32) -> (s: String)
    ensures
        s@ == "upload-progress-"@ + spec_ascii_chars(spec_dec_u64(id as u64)),
{
    let digits = u64_to_string(id as u64);
    String::from_str("upload-progress-").concat(digits.as_str())
}

} // verus!
