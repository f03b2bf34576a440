//! The protocol-switch handshake, and the whole exchange from the
//! switch request to bytes landing in the destination file.

use upload_transport::frame::{frame_payload, FrameBuffer};
use upload_transport::messages::ClientType;
use upload_transport::session::{
    next_session_event, register_result_frame, SessionAction, SessionCore, SessionEvent,
    SessionPhase,
};
use upload_transport::switch::{
    accept_switch, client_read_switch_reply, switch_accept_reply_frame, switch_request_frame,
    SwitchReplyStep, SwitchStep,
};
use upload_transport::upload_client::{
    chunk_frame, client_read_register_reply, register_request_frame, RegisterReplyStep,
};

#[test]
fn switch_needs_whole_frame() {
    let request = switch_request_frame(ClientType::Upload);
    let mut server = FrameBuffer::new();
    server.feed(&request[..5].to_vec());
    assert_eq!(accept_switch(&mut server), SwitchStep::NeedMoreData);
    server.feed(&request[5..].to_vec());
    assert_eq!(accept_switch(&mut server), SwitchStep::Dispatched(ClientType::Upload));
}

#[test]
fn switch_violation_on_foreign_first_frame() {
    let mut server = FrameBuffer::new();
    let foreign = frame_payload(&b"{\"Register\":\"/p\"}".to_vec()).unwrap();
    server.feed(&foreign);
    assert_eq!(accept_switch(&mut server), SwitchStep::Violation);
}

#[test]
fn client_reads_switch_acknowledgement() {
    let mut client = FrameBuffer::new();
    assert_eq!(client_read_switch_reply(&mut client), SwitchReplyStep::NeedMoreData);
    client.feed(&switch_accept_reply_frame());
    assert_eq!(client_read_switch_reply(&mut client), SwitchReplyStep::Accepted);
}

#[test]
fn client_reads_switch_rejection() {
    let mut client = FrameBuffer::new();
    let reply = frame_payload(&b"{\"Err\":\"busy\"}".to_vec()).unwrap();
    client.feed(&reply);
    assert_eq!(
        client_read_switch_reply(&mut client),
        SwitchReplyStep::Rejected(Some(b"busy".to_vec()))
    );
}

#[test]
fn switch_handshake_end_to_end() {
    // Client declares the upload sub-protocol; the server accepts and
    // re-wraps the same stream; the client registers "/a/b.txt", the
    // server acknowledges; the client sends bytes [1,2,3] and closes;
    // the destination file holds exactly [1,2,3].
    let mut wire_to_server = FrameBuffer::new();
    let mut wire_to_client = FrameBuffer::new();
    let mut file: Option<Vec<u8>> = Some(b"stale".to_vec());

    // Client -> server: switch request.
    wire_to_server.feed(&switch_request_frame(ClientType::Upload));
    let step = accept_switch(&mut wire_to_server);
    assert_eq!(step, SwitchStep::Dispatched(ClientType::Upload));

    // Server -> client: acknowledgement; client checks it.
    wire_to_client.feed(&switch_accept_reply_frame());
    assert_eq!(client_read_switch_reply(&mut wire_to_client), SwitchReplyStep::Accepted);

    // Client -> server: upload-protocol registration over the same
    // stream.
    wire_to_server.feed(&register_request_frame(b"/a/b.txt".to_vec()).unwrap());
    let first = next_session_event(&mut wire_to_server).unwrap();
    let mut session = SessionCore::begin();
    let acts = session.handshake(first);
    assert_eq!(session.phase, SessionPhase::Streaming);
    assert_eq!(session.path, b"/a/b.txt".to_vec());
    for act in &acts {
        match act {
            SessionAction::TruncateFile => file = None,
            SessionAction::SendAck(accepted) => {
                wire_to_client.feed(&register_result_frame(*accepted));
            }
            _ => {}
        }
    }
    assert_eq!(client_read_register_reply(&mut wire_to_client), RegisterReplyStep::Accepted);

    // Client -> server: one chunk, then the stream closes.
    wire_to_server.feed(&chunk_frame(vec![1, 2, 3]).unwrap());
    let event = next_session_event(&mut wire_to_server).unwrap();
    let acts = session.step(event);
    for act in acts {
        if let SessionAction::AppendFile(bytes) = act {
            match &mut file {
                Some(content) => content.extend_from_slice(&bytes),
                None => file = Some(bytes),
            }
        }
    }
    let acts = session.step(SessionEvent::StreamEnd);
    assert_eq!(acts, vec![SessionAction::Unregister]);
    assert_eq!(session.phase, SessionPhase::Completed);
    assert_eq!(file, Some(vec![1, 2, 3]));
}

#[test]
fn session_event_reader_flags_undecodable_frames() {
    let mut server = FrameBuffer::new();
    server.feed(&frame_payload(&b"garbage".to_vec()).unwrap());
    assert_eq!(next_session_event(&mut server), Some(SessionEvent::ReadError));
}

#[test]
fn register_refusal_reaches_the_client() {
    let mut client = FrameBuffer::new();
    client.feed(&register_result_frame(false));
    assert_eq!(client_read_register_reply(&mut client), RegisterReplyStep::Refused);
}
