//! The upload session state machine and the admission registry,
//! driven through the spec's scenarios with a simulated destination
//! file.

use upload_transport::messages::UploadRequest;
use upload_transport::registry::Registry;
use upload_transport::session::{SessionAction, SessionCore, SessionEvent, SessionPhase};

/// Applies a session's actions to a simulated destination file.
fn apply_actions(file: &mut Option<Vec<u8>>, acts: &[SessionAction]) {
    for act in acts {
        match act {
            SessionAction::TruncateFile => {
                *file = None;
            }
            SessionAction::AppendFile(bytes) => match file {
                Some(content) => content.extend_from_slice(bytes),
                None => *file = Some(bytes.clone()),
            },
            SessionAction::SendAck(_)
            | SessionAction::ConfirmRelinquish
            | SessionAction::Unregister => {}
        }
    }
}

#[test]
fn handshake_accepts_register_and_clears_stale_file() {
    let mut session = SessionCore::begin();
    let acts = session.handshake(SessionEvent::Frame(UploadRequest::Register(
        b"/dst/file.bin".to_vec(),
    )));
    assert_eq!(session.phase, SessionPhase::Streaming);
    assert_eq!(session.path, b"/dst/file.bin".to_vec());
    assert_eq!(
        acts,
        vec![SessionAction::TruncateFile, SessionAction::SendAck(true)]
    );
}

#[test]
fn handshake_rejects_non_register_first_message() {
    // A non-Register first message terminates the session with no
    // acknowledgement and no file created or truncated.
    let mut file = Some(b"PRECIOUS".to_vec());
    let mut session = SessionCore::begin();
    let acts = session.handshake(SessionEvent::Frame(UploadRequest::Upload(vec![1, 2])));
    assert_eq!(session.phase, SessionPhase::Errored);
    assert!(acts.is_empty());
    apply_actions(&mut file, &acts);
    assert_eq!(file, Some(b"PRECIOUS".to_vec()));
}

#[test]
fn handshake_rejects_closed_stream() {
    let mut session = SessionCore::begin();
    let acts = session.handshake(SessionEvent::StreamEnd);
    assert_eq!(session.phase, SessionPhase::Errored);
    assert!(acts.is_empty());
}

#[test]
fn stale_file_clearing() {
    // Pre-existing content "OLD"; the client registers, sends "AB"
    // then "CD"; the file ends as exactly "ABCD".
    let mut file = Some(b"OLD".to_vec());
    let mut session = SessionCore::begin();
    let acts = session.handshake(SessionEvent::Frame(UploadRequest::Register(
        b"/p".to_vec(),
    )));
    apply_actions(&mut file, &acts);
    let acts = session.step(SessionEvent::Frame(UploadRequest::Upload(b"AB".to_vec())));
    apply_actions(&mut file, &acts);
    let acts = session.step(SessionEvent::Frame(UploadRequest::Upload(b"CD".to_vec())));
    apply_actions(&mut file, &acts);
    let acts = session.step(SessionEvent::StreamEnd);
    apply_actions(&mut file, &acts);
    assert_eq!(session.phase, SessionPhase::Completed);
    assert_eq!(file, Some(b"ABCD".to_vec()));
}

#[test]
fn stray_register_during_streaming_is_ignored() {
    let mut session = SessionCore::begin();
    session.handshake(SessionEvent::Frame(UploadRequest::Register(b"/p".to_vec())));
    let acts = session.step(SessionEvent::Frame(UploadRequest::Register(
        b"/other".to_vec(),
    )));
    assert!(acts.is_empty());
    assert_eq!(session.phase, SessionPhase::Streaming);
    assert_eq!(session.path, b"/p".to_vec());
}

#[test]
fn read_error_is_terminal() {
    let mut session = SessionCore::begin();
    session.handshake(SessionEvent::Frame(UploadRequest::Register(b"/p".to_vec())));
    let acts = session.step(SessionEvent::ReadError);
    assert_eq!(session.phase, SessionPhase::Errored);
    assert_eq!(acts, vec![SessionAction::Unregister]);
}

#[test]
fn cancellation_confirms_then_unregisters() {
    let mut session = SessionCore::begin();
    session.handshake(SessionEvent::Frame(UploadRequest::Register(b"/p".to_vec())));
    let acts = session.step(SessionEvent::Cancelled);
    assert_eq!(session.phase, SessionPhase::Killed);
    assert_eq!(
        acts,
        vec![
            SessionAction::ConfirmRelinquish,
            SessionAction::Unregister
        ]
    );
}

#[test]
fn terminal_sessions_are_absorbing_and_silent() {
    let mut session = SessionCore::begin();
    session.handshake(SessionEvent::Frame(UploadRequest::Register(b"/p".to_vec())));
    session.step(SessionEvent::Cancelled);
    // A killed session never writes again, whatever arrives.
    let acts = session.step(SessionEvent::Frame(UploadRequest::Upload(vec![9])));
    assert!(acts.is_empty());
    assert_eq!(session.phase, SessionPhase::Killed);
    let acts = session.step(SessionEvent::StreamEnd);
    assert!(acts.is_empty());
    assert_eq!(session.phase, SessionPhase::Killed);
}

#[test]
fn registry_admits_and_looks_up() {
    let mut reg = Registry::new();
    assert_eq!(reg.lookup(&b"/p".to_vec()), None);
    assert_eq!(reg.register(b"/p".to_vec(), 1), None);
    assert_eq!(reg.lookup(&b"/p".to_vec()), Some(1));
    assert_eq!(reg.lookup(&b"/q".to_vec()), None);
}

#[test]
fn registry_register_preempts_previous_occupant() {
    let mut reg = Registry::new();
    assert_eq!(reg.register(b"/p".to_vec(), 1), None);
    assert_eq!(reg.register(b"/p".to_vec(), 2), Some(1));
    assert_eq!(reg.lookup(&b"/p".to_vec()), Some(2));
}

#[test]
fn registry_preempt_removes_and_returns_handle() {
    let mut reg = Registry::new();
    reg.register(b"/p".to_vec(), 7);
    assert_eq!(reg.preempt(&b"/p".to_vec()), Some(7));
    assert_eq!(reg.lookup(&b"/p".to_vec()), None);
    assert_eq!(reg.preempt(&b"/p".to_vec()), None);
}

#[test]
fn registry_unregister_is_guarded_by_handle() {
    let mut reg = Registry::new();
    reg.register(b"/p".to_vec(), 1);
    reg.register(b"/p".to_vec(), 2);
    // The preempted session's own cleanup must not remove the newer
    // session's entry.
    assert!(!reg.unregister(&b"/p".to_vec(), 1));
    assert_eq!(reg.lookup(&b"/p".to_vec()), Some(2));
    assert!(reg.unregister(&b"/p".to_vec(), 2));
    assert_eq!(reg.lookup(&b"/p".to_vec()), None);
}

#[test]
fn registry_paths_are_independent() {
    let mut reg = Registry::new();
    reg.register(b"/a".to_vec(), 1);
    reg.register(b"/b".to_vec(), 2);
    assert_eq!(reg.register(b"/a".to_vec(), 3), Some(1));
    assert_eq!(reg.lookup(&b"/b".to_vec()), Some(2));
}

#[test]
fn preemption_scenario() {
    // Session A registers path P; session B registers the same P
    // before A closes; A is signalled, confirms relinquishing, and B's
    // chunks land in P.
    let path = b"/p".to_vec();
    let mut file: Option<Vec<u8>> = None;
    let mut reg = Registry::new();

    let mut a = SessionCore::begin();
    let acts = a.handshake(SessionEvent::Frame(UploadRequest::Register(path.clone())));
    apply_actions(&mut file, &acts);
    assert_eq!(reg.register(path.clone(), 1), None);
    let acts = a.step(SessionEvent::Frame(UploadRequest::Upload(b"from A".to_vec())));
    apply_actions(&mut file, &acts);

    let mut b = SessionCore::begin();
    let acts = b.handshake(SessionEvent::Frame(UploadRequest::Register(path.clone())));
    let preempted = reg.register(path.clone(), 2);
    assert_eq!(preempted, Some(1));
    // The service signals A and waits for its confirmation before B
    // proceeds.
    let a_acts = a.step(SessionEvent::Cancelled);
    assert_eq!(a_acts[0], SessionAction::ConfirmRelinquish);
    assert_eq!(a.phase, SessionPhase::Killed);
    assert!(!reg.unregister(&path, 1));
    // Only now does B's registration return and B start writing.
    apply_actions(&mut file, &acts);
    let acts = b.step(SessionEvent::Frame(UploadRequest::Upload(b"from B".to_vec())));
    apply_actions(&mut file, &acts);
    // A, already killed, cannot write even if bytes were in flight.
    let acts = a.step(SessionEvent::Frame(UploadRequest::Upload(b"late A".to_vec())));
    assert!(acts.is_empty());
    apply_actions(&mut file, &acts);

    assert_eq!(file, Some(b"from B".to_vec()));
    assert_eq!(reg.lookup(&path), Some(2));
}
