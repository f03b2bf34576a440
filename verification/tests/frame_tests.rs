//! Framing: the four-byte big-endian length prefix, and the buffer
//! that yields a payload only once its frame is complete.

use upload_transport::frame::{frame_payload, FrameBuffer};

fn frame(payload: &[u8]) -> Vec<u8> {
    frame_payload(&payload.to_vec()).expect("payload fits a frame")
}

#[test]
fn frame_layout_is_length_prefix_then_payload() {
    let f = frame(b"abc");
    assert_eq!(f, vec![0, 0, 0, 3, b'a', b'b', b'c']);
}

#[test]
fn whole_frame_in_one_delivery() {
    let mut buf = FrameBuffer::new();
    buf.feed(&frame(b"hello"));
    assert_eq!(buf.next_frame(), Some(b"hello".to_vec()));
    assert_eq!(buf.next_frame(), None);
}

#[test]
fn partial_frame_buffering_matches_single_delivery() {
    // The length prefix in one write, the payload split across two
    // more: exactly one message comes out, identical to the
    // all-at-once delivery.
    let f = frame(b"split me");
    let mut split = FrameBuffer::new();
    split.feed(&f[..4].to_vec());
    assert_eq!(split.next_frame(), None);
    split.feed(&f[4..7].to_vec());
    assert_eq!(split.next_frame(), None);
    split.feed(&f[7..].to_vec());

    let mut whole = FrameBuffer::new();
    whole.feed(&f);

    assert_eq!(split.next_frame(), whole.next_frame());
    assert_eq!(split.next_frame(), None);
    assert_eq!(whole.next_frame(), None);
}

#[test]
fn split_inside_length_prefix() {
    let f = frame(b"x");
    let mut buf = FrameBuffer::new();
    buf.feed(&f[..2].to_vec());
    assert_eq!(buf.next_frame(), None);
    buf.feed(&f[2..].to_vec());
    assert_eq!(buf.next_frame(), Some(b"x".to_vec()));
}

#[test]
fn two_frames_in_one_delivery_come_out_in_order() {
    let mut both = frame(b"first");
    both.extend_from_slice(&frame(b"second"));
    let mut buf = FrameBuffer::new();
    buf.feed(&both);
    assert_eq!(buf.next_frame(), Some(b"first".to_vec()));
    assert_eq!(buf.next_frame(), Some(b"second".to_vec()));
    assert_eq!(buf.next_frame(), None);
}

#[test]
fn empty_payload_frames() {
    let f = frame(b"");
    assert_eq!(f, vec![0, 0, 0, 0]);
    let mut buf = FrameBuffer::new();
    buf.feed(&f);
    assert_eq!(buf.next_frame(), Some(Vec::new()));
}

#[test]
fn trailing_bytes_stay_for_the_next_protocol() {
    // The generic handshake reader must not consume past its single
    // frame: bytes behind it survive the hand-off.
    let mut delivery = frame(b"handshake");
    delivery.extend_from_slice(&[9, 9, 9]);
    let mut buf = FrameBuffer::new();
    buf.feed(&delivery);
    assert_eq!(buf.next_frame(), Some(b"handshake".to_vec()));
    assert_eq!(buf.len(), 3);
}
