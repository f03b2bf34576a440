//! Length-delimited framing: each frame is a four-byte big-endian
//! length prefix followed by exactly that many payload bytes. A
//! [`FrameBuffer`] accumulates arriving bytes and yields a payload only
//! once its frame is complete, however the bytes were split across
//! deliveries.

use vstd::prelude::*;

verus! {

/// Big-endian bytes of a 32-bit length.
pub open spec fn spec_be32(n: u32) -> Seq<u8> {
    seq![(n >> 24) as u8, (n >> 16) as u8, (n >> 8) as u8, n as u8]
}

/// The 32-bit value spelled by four big-endian bytes.
pub open spec fn spec_be32_value(b0: u8, b1: u8, b2: u8, b3: u8) -> u32 {
    ((b0 as u32) << 24) | ((b1 as u32) << 16) | ((b2 as u32) << 8) | (b3 as u32)
}

/// Reading the big-endian bytes of a length gives the length back.
pub proof fn lemma_be32_round_trip(n: u32)
    ensures
        spec_be32_value((n >> 24) as u8, (n >> 16) as u8, (n >> 8) as u8, n as u8) == n,
{
    assert((((n >> 24) as u8 as u32) << 24) | (((n >> 16) as u8 as u32) << 16) | (((n
        >> 8) as u8 as u32) << 8) | (n as u8 as u32) == n) by (bit_vector);
}

/// A complete frame: length prefix, then the payload.
pub open spec fn spec_frame(payload: Seq<u8>) -> Seq<u8>
    recommends
        payload.len() <= u32::MAX,
{
    spec_be32(payload.len() as u32) + payload
}

/// Length announced by the prefix at the head of a byte stream.
pub open spec fn spec_frame_len(b: Seq<u8>) -> int
    recommends
        b.len() >= 4,
{
    spec_be32_value(b[0], b[1], b[2], b[3]) as int
}

/// True once the head frame has fully arrived.
pub open spec fn spec_frame_ready(b: Seq<u8>) -> bool {
    b.len() >= 4 && b.len() >= 4 + spec_frame_len(b)
}

/// Payload of the completed head frame.
pub open spec fn spec_frame_payload(b: Seq<u8>) -> Seq<u8>
    recommends
        spec_frame_ready(b),
{
    b.subrange(4, 4 + spec_frame_len(b))
}

/// Bytes left after removing the completed head frame.
pub open spec fn spec_frame_rest(b: Seq<u8>) -> Seq<u8>
    recommends
        spec_frame_ready(b),
{
    b.skip(4 + spec_frame_len(b))
}

/// Owns the receiving half's buffered bytes; a frame's payload is
/// yielded only once the whole frame has arrived.
pub struct FrameBuffer {
    data: Vec<u8>,
}

impl View for FrameBuffer {
    type V = Seq<u8>;

    closed spec fn view(&self) -> Seq<u8> {
        self.data@
    }
}

impl FrameBuffer {
    /// An empty buffer.
    pub fn new() -> (r: FrameBuffer)
        ensures
            r@ == Seq::<u8>::empty(),
    {
        FrameBuffer { data: Vec::new() }
    }

    /// Takes delivery of arrived bytes; the buffer holds exactly the
    /// concatenation of everything delivered and not yet consumed.
    pub fn feed(&mut self, bytes: &Vec<u8>)
        ensures
            final(self)@ == old(self)@ + bytes@,
    {
        crate::codec::push_all(&mut self.data, bytes);
    }

    /// Number of buffered bytes.
    pub fn len(&self) -> (r: usize)
        ensures
            r == self@.len(),
    {
        self.data.len()
    }

    /// Removes and returns the head frame's payload once it is
    /// complete; `None`, leaving the buffer unchanged, while bytes are
    /// still missing.
    pub fn next_frame(&mut self) -> (r: Option<Vec<u8>>)
        ensures
            spec_frame_ready(old(self)@) ==> (r matches Some(p) && p@ == spec_frame_payload(
                old(self)@,
            ) && final(self)@ == spec_frame_rest(old(self)@)),
            !spec_frame_ready(old(self)@) ==> r is None && final(self)@ == old(self)@,
    {
        if self.data.len() < 4 {
            return None;
        }
        let b0 = self.data[0];
        let b1 = self.data[1];
        let b2 = self.data[2];
        let b3 = self.data[3];
        let len32: u32 = ((b0 as u32) << 24) | ((b1 as u32) << 16) | ((b2 as u32) << 8) | (
        b3 as u32);
        let len = len32 as usize;
        if self.data.len() - 4 < len {
            return None;
        }
        let total = 4 + len;
        let payload = crate::codec::subvec(&self.data, 4, total);
        let rest = crate::codec::subvec(&self.data, total, self.data.len());
        self.data = rest;
        proof {
            assert(old(self)@.skip(4 + spec_frame_len(old(self)@)) =~= old(self)@.subrange(
                total as int,
                old(self)@.len() as int,
            ));
        }
        Some(payload)
    }
}

/// Encodes the length prefix of a payload.
pub fn be32_prefix(len: u32) -> (r: Vec<u8>)
    ensures
        r@ == spec_be32(len),
{
    let mut r: Vec<u8> = Vec::new();
    r.push((len >> 24) as u8);
    r.push((len >> 16) as u8);
    r.push((len >> 8) as u8);
    r.push(len as u8);
    proof {
        assert(r@ =~= spec_be32(len));
    }
    r
}

/// Frames a payload: the length prefix followed by the payload.
/// `None` exactly when the payload is too long for the prefix.
pub fn frame_payload(payload: &Vec<u8>) -> (r: Option<Vec<u8>>)
    ensures
        payload@.len() <= u32::MAX ==> (r matches Some(f) && f@ == spec_frame(payload@)),
        payload@.len() > u32::MAX ==> r is None,
{
    if payload.len() > 0xffff_ffff_usize {
        return None;
    }
    let mut out = be32_prefix(payload.len() as u32);
    crate::codec::push_all(&mut out, payload);
    Some(out)
}

/// A framed payload is complete on arrival, yields the payload back,
/// and leaves exactly the trailing bytes behind.
pub proof fn lemma_frame_round_trip(payload: Seq<u8>, trailing: Seq<u8>)
    requires
        payload.len() <= u32::MAX,
    ensures
        spec_frame_ready(spec_frame(payload) + trailing),
        spec_frame_payload(spec_frame(payload) + trailing) == payload,
        spec_frame_rest(spec_frame(payload) + trailing) == trailing,
{
    let n = payload.len() as u32;
    let b = spec_frame(payload) + trailing;
    lemma_be32_round_trip(n);
    assert(b[0] == (n >> 24) as u8 && b[1] == (n >> 16) as u8 && b[2] == (n >> 8) as u8 && b[3]
        == n as u8);
    assert(spec_frame_len(b) == n);
    assert(b.subrange(4, 4 + n as int) =~= payload);
    assert(b.skip(4 + n as int) =~= trailing);
}

/// Bytes delivered in two parts leave the buffer exactly as the same
/// bytes delivered at once: buffered contents are the concatenation of
/// deliveries, and frame extraction reads only those contents.
pub proof fn lemma_partial_delivery(base: Seq<u8>, first: Seq<u8>, second: Seq<u8>)
    ensures
        (base + first) + second == base + (first + second),
{
    assert((base + first) + second =~= base + (first + second));
}

} // verus!
