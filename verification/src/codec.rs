//! The payload codec: each typed message is written as a tagged,
//! self-describing text and read back. Every decoder is pinned to a
//! spec-level grammar function, and encoding then decoding any message
//! is proved to give the message back.

use vstd::prelude::*;

use crate::json::{
    lemma_unescape_escape, spec_dec_u8, spec_escape, spec_unescape, escape_bytes, unescape_bytes,
    is_digit, prepend_bytes,
};
use crate::messages::{
    ClientType, RegisterClientReq, RegisterResult, RegisterResultV, UploadRequest, UploadRequestV,
    UploadResponse,
};

verus! {
/// Bytes of `{"SwitchProtocol":"Upload"}`: the protocol-switch request naming the upload sub-protocol.
pub open spec fn bytes_switch_upload() -> Seq<u8> {
    seq![0x7b, 0x22, 0x53, 0x77, 0x69, 0x74, 0x63, 0x68, 0x50, 0x72, 0x6f, 0x74, 0x6f, 0x63, 0x6f, 0x6c, 0x22, 0x3a, 0x22, 0x55, 0x70, 0x6c, 0x6f, 0x61, 0x64, 0x22, 0x7d]
}

fn vec_switch_upload() -> (v: Vec<u8>)
    ensures
        v@ == bytes_switch_upload(),
{
    let mut v: Vec<u8> = Vec::new();
    v.push(0x7b);
    v.push(0x22);
    v.push(0x53);
    v.push(0x77);
    v.push(0x69);
    v.push(0x74);
    v.push(0x63);
    v.push(0x68);
    v.push(0x50);
    v.push(0x72);
    v.push(0x6f);
    v.push(0x74);
    v.push(0x6f);
    v.push(0x63);
    v.push(0x6f);
    v.push(0x6c);
    v.push(0x22);
    v.push(0x3a);
    v.push(0x22);
    v.push(0x55);
    v.push(0x70);
    v.push(0x6c);
    v.push(0x6f);
    v.push(0x61);
    v.push(0x64);
    v.push(0x22);
    v.push(0x7d);
    proof {
        assert(v@ =~= bytes_switch_upload());
    }
    v
}

/// Bytes of `"Ok"`: the successful switch acknowledgement.
pub open spec fn bytes_result_ok() -> Seq<u8> {
    seq![0x22, 0x4f, 0x6b, 0x22]
}

fn vec_result_ok() -> (v: Vec<u8>)
    ensures
        v@ == bytes_result_ok(),
{
    let mut v: Vec<u8> = Vec::new();
    v.push(0x22);
    v.push(0x4f);
    v.push(0x6b);
    v.push(0x22);
    proof {
        assert(v@ =~= bytes_result_ok());
    }
    v
}

/// Bytes of `{"Err":null}`: a rejection without a reason.
pub open spec fn bytes_result_err_null() -> Seq<u8> {
    seq![0x7b, 0x22, 0x45, 0x72, 0x72, 0x22, 0x3a, 0x6e, 0x75, 0x6c, 0x6c, 0x7d]
}

fn vec_result_err_null() -> (v: Vec<u8>)
    ensures
        v@ == bytes_result_err_null(),
{
    let mut v: Vec<u8> = Vec::new();
    v.push(0x7b);
    v.push(0x22);
    v.push(0x45);
    v.push(0x72);
    v.push(0x72);
    v.push(0x22);
    v.push(0x3a);
    v.push(0x6e);
    v.push(0x75);
    v.push(0x6c);
    v.push(0x6c);
    v.push(0x7d);
    proof {
        assert(v@ =~= bytes_result_err_null());
    }
    v
}

/// Bytes of `{"Err":"`: the head of a rejection carrying a reason.
pub open spec fn bytes_err_reason_prefix() -> Seq<u8> {
    seq![0x7b, 0x22, 0x45, 0x72, 0x72, 0x22, 0x3a, 0x22]
}

fn vec_err_reason_prefix() -> (v: Vec<u8>)
    ensures
        v@ == bytes_err_reason_prefix(),
{
    let mut v: Vec<u8> = Vec::new();
    v.push(0x7b);
    v.push(0x22);
    v.push(0x45);
    v.push(0x72);
    v.push(0x72);
    v.push(0x22);
    v.push(0x3a);
    v.push(0x22);
    proof {
        assert(v@ =~= bytes_err_reason_prefix());
    }
    v
}

/// Bytes of `{"Register":"`: the head of an upload registration.
pub open spec fn bytes_register_prefix() -> Seq<u8> {
    seq![0x7b, 0x22, 0x52, 0x65, 0x67, 0x69, 0x73, 0x74, 0x65, 0x72, 0x22, 0x3a, 0x22]
}

fn vec_register_prefix() -> (v: Vec<u8>)
    ensures
        v@ == bytes_register_prefix(),
{
    let mut v: Vec<u8> = Vec::new();
    v.push(0x7b);
    v.push(0x22);
    v.push(0x52);
    v.push(0x65);
    v.push(0x67);
    v.push(0x69);
    v.push(0x73);
    v.push(0x74);
    v.push(0x65);
    v.push(0x72);
    v.push(0x22);
    v.push(0x3a);
    v.push(0x22);
    proof {
        assert(v@ =~= bytes_register_prefix());
    }
    v
}

/// Bytes of `{"Upload":[`: the head of a chunk message.
pub open spec fn bytes_upload_prefix() -> Seq<u8> {
    seq![0x7b, 0x22, 0x55, 0x70, 0x6c, 0x6f, 0x61, 0x64, 0x22, 0x3a, 0x5b]
}

fn vec_upload_prefix() -> (v: Vec<u8>)
    ensures
        v@ == bytes_upload_prefix(),
{
    let mut v: Vec<u8> = Vec::new();
    v.push(0x7b);
    v.push(0x22);
    v.push(0x55);
    v.push(0x70);
    v.push(0x6c);
    v.push(0x6f);
    v.push(0x61);
    v.push(0x64);
    v.push(0x22);
    v.push(0x3a);
    v.push(0x5b);
    proof {
        assert(v@ =~= bytes_upload_prefix());
    }
    v
}

/// Bytes of `"}`: the tail closing a quoted field.
pub open spec fn bytes_quote_brace() -> Seq<u8> {
    seq![0x22, 0x7d]
}


/// Bytes of `]}`: the tail closing a byte-array field.
pub open spec fn bytes_bracket_brace() -> Seq<u8> {
    seq![0x5d, 0x7d]
}


/// Bytes of `{"RegisterResult":true}`: the accepting upload-handshake reply.
pub open spec fn bytes_resp_true() -> Seq<u8> {
    seq![0x7b, 0x22, 0x52, 0x65, 0x67, 0x69, 0x73, 0x74, 0x65, 0x72, 0x52, 0x65, 0x73, 0x75, 0x6c, 0x74, 0x22, 0x3a, 0x74, 0x72, 0x75, 0x65, 0x7d]
}

fn vec_resp_true() -> (v: Vec<u8>)
    ensures
        v@ == bytes_resp_true(),
{
    let mut v: Vec<u8> = Vec::new();
    v.push(0x7b);
    v.push(0x22);
    v.push(0x52);
    v.push(0x65);
    v.push(0x67);
    v.push(0x69);
    v.push(0x73);
    v.push(0x74);
    v.push(0x65);
    v.push(0x72);
    v.push(0x52);
    v.push(0x65);
    v.push(0x73);
    v.push(0x75);
    v.push(0x6c);
    v.push(0x74);
    v.push(0x22);
    v.push(0x3a);
    v.push(0x74);
    v.push(0x72);
    v.push(0x75);
    v.push(0x65);
    v.push(0x7d);
    proof {
        assert(v@ =~= bytes_resp_true());
    }
    v
}

/// Bytes of `{"RegisterResult":false}`: the refusing upload-handshake reply.
pub open spec fn bytes_resp_false() -> Seq<u8> {
    seq![0x7b, 0x22, 0x52, 0x65, 0x67, 0x69, 0x73, 0x74, 0x65, 0x72, 0x52, 0x65, 0x73, 0x75, 0x6c, 0x74, 0x22, 0x3a, 0x66, 0x61, 0x6c, 0x73, 0x65, 0x7d]
}

fn vec_resp_false() -> (v: Vec<u8>)
    ensures
        v@ == bytes_resp_false(),
{
    let mut v: Vec<u8> = Vec::new();
    v.push(0x7b);
    v.push(0x22);
    v.push(0x52);
    v.push(0x65);
    v.push(0x67);
    v.push(0x69);
    v.push(0x73);
    v.push(0x74);
    v.push(0x65);
    v.push(0x72);
    v.push(0x52);
    v.push(0x65);
    v.push(0x73);
    v.push(0x75);
    v.push(0x6c);
    v.push(0x74);
    v.push(0x22);
    v.push(0x3a);
    v.push(0x66);
    v.push(0x61);
    v.push(0x6c);
    v.push(0x73);
    v.push(0x65);
    v.push(0x7d);
    proof {
        assert(v@ =~= bytes_resp_false());
    }
    v
}

/// Appends one byte vector to another.
pub fn push_all(out: &mut Vec<u8>, src: &Vec<u8>)
    ensures
        final(out)@ == old(out)@ + src@,
{
    let n = src.len();
    let mut i: usize = 0;
    while i < n
        invariant
            n == src.len(),
            i <= n,
            out@ == old(out)@ + src@.take(i as int),
        decreases n - i,
    {
        out.push(src[i]);
        proof {
            assert(out@ =~= old(out)@ + src@.take(i as int + 1));
        }
        i = i + 1;
    }
    proof {
        assert(out@ =~= old(out)@ + src@);
    }
}

/// Copies the bytes of a half-open index range.
pub fn subvec(b: &Vec<u8>, from: usize, to: usize) -> (r: Vec<u8>)
    requires
        from <= to <= b@.len(),
    ensures
        r@ == b@.subrange(from as int, to as int),
{
    let mut r: Vec<u8> = Vec::new();
    let mut i: usize = from;
    while i < to
        invariant
            from <= i <= to <= b@.len(),
            r@ == b@.subrange(from as int, i as int),
        decreases to - i,
    {
        r.push(b[i]);
        proof {
            assert(r@ =~= b@.subrange(from as int, i as int + 1));
        }
        i = i + 1;
    }
    r
}

/// True when `b` begins with `p`.
pub fn starts_with(b: &Vec<u8>, p: &Vec<u8>) -> (r: bool)
    ensures
        r == (b@.len() >= p@.len() && b@.take(p@.len() as int) == p@),
{
    if b.len() < p.len() {
        return false;
    }
    let n = p.len();
    let mut i: usize = 0;
    while i < n
        invariant
            n == p.len() <= b.len(),
            i <= n,
            forall|j: int| 0 <= j < i ==> b@[j] == p@[j],
        decreases n - i,
    {
        if b[i] != p[i] {
            assert(b@.take(n as int)[i as int] != p@[i as int]);
            return false;
        }
        i = i + 1;
    }
    proof {
        assert(b@.take(n as int) =~= p@);
    }
    true
}

/// Grammar of the protocol-switch request schema.
pub open spec fn spec_decode_register_client_req(b: Seq<u8>) -> Option<RegisterClientReq> {
    if b == bytes_switch_upload() {
        Some(RegisterClientReq::SwitchProtocol(ClientType::Upload))
    } else {
        None
    }
}

/// Wire form of a protocol-switch request.
pub open spec fn spec_encode_register_client_req(m: RegisterClientReq) -> Seq<u8> {
    bytes_switch_upload()
}

/// Serializes a protocol-switch request.
pub fn encode_register_client_req(m: &RegisterClientReq) -> (r: Vec<u8>)
    ensures
        r@ == spec_encode_register_client_req(*m),
{
    vec_switch_upload()
}

/// Parses a protocol-switch request; `None` exactly when the bytes do
/// not spell one.
pub fn decode_register_client_req(b: &Vec<u8>) -> (r: Option<RegisterClientReq>)
    ensures
        r matches Some(m) ==> spec_decode_register_client_req(b@) == Some(m),
        r is None ==> spec_decode_register_client_req(b@) is None,
{
    let c = vec_switch_upload();
    if crate::bytes_eq(b, &c) {
        Some(RegisterClientReq::SwitchProtocol(ClientType::Upload))
    } else {
        None
    }
}

/// Serializing then parsing returns any protocol-switch request
/// unchanged.
pub proof fn lemma_register_client_req_round_trip(m: RegisterClientReq)
    ensures
        spec_decode_register_client_req(spec_encode_register_client_req(m)) == Some(m),
{
}

/// Grammar of the upload-handshake reply schema.
pub open spec fn spec_decode_upload_response(b: Seq<u8>) -> Option<UploadResponse> {
    if b == bytes_resp_true() {
        Some(UploadResponse::RegisterResult(true))
    } else if b == bytes_resp_false() {
        Some(UploadResponse::RegisterResult(false))
    } else {
        None
    }
}

/// Wire form of an upload-handshake reply.
pub open spec fn spec_encode_upload_response(m: UploadResponse) -> Seq<u8> {
    match m {
        UploadResponse::RegisterResult(true) => bytes_resp_true(),
        UploadResponse::RegisterResult(false) => bytes_resp_false(),
    }
}

/// Serializes an upload-handshake reply.
pub fn encode_upload_response(m: &UploadResponse) -> (r: Vec<u8>)
    ensures
        r@ == spec_encode_upload_response(*m),
{
    match m {
        UploadResponse::RegisterResult(true) => vec_resp_true(),
        UploadResponse::RegisterResult(false) => vec_resp_false(),
    }
}

/// Parses an upload-handshake reply; `None` exactly when the bytes do
/// not spell one.
pub fn decode_upload_response(b: &Vec<u8>) -> (r: Option<UploadResponse>)
    ensures
        r matches Some(m) ==> spec_decode_upload_response(b@) == Some(m),
        r is None ==> spec_decode_upload_response(b@) is None,
{
    let t = vec_resp_true();
    if crate::bytes_eq(b, &t) {
        return Some(UploadResponse::RegisterResult(true));
    }
    let f = vec_resp_false();
    if crate::bytes_eq(b, &f) {
        return Some(UploadResponse::RegisterResult(false));
    }
    None
}

/// Serializing then parsing returns any upload-handshake reply
/// unchanged.
pub proof fn lemma_upload_response_round_trip(m: UploadResponse)
    ensures
        spec_decode_upload_response(spec_encode_upload_response(m)) == Some(m),
{
    assert(bytes_resp_true().len() != bytes_resp_false().len());
}

/// Grammar of the protocol-switch reply schema.
pub open spec fn spec_decode_register_result(b: Seq<u8>) -> Option<RegisterResultV> {
    if b == bytes_result_ok() {
        Some(RegisterResultV::Accepted)
    } else if b == bytes_result_err_null() {
        Some(RegisterResultV::Rejected(None))
    } else if b.len() >= 10 && b.take(8) == bytes_err_reason_prefix() && b[b.len() - 2] == 0x22
        && b[b.len() - 1] == 0x7d {
        match spec_unescape(b.subrange(8, b.len() - 2)) {
            Some(s) => Some(RegisterResultV::Rejected(Some(s))),
            None => None,
        }
    } else {
        None
    }
}

/// Wire form of a protocol-switch reply.
pub open spec fn spec_encode_register_result(m: RegisterResultV) -> Seq<u8> {
    match m {
        RegisterResultV::Accepted => bytes_result_ok(),
        RegisterResultV::Rejected(None) => bytes_result_err_null(),
        RegisterResultV::Rejected(Some(s)) => bytes_err_reason_prefix() + spec_escape(s)
            + bytes_quote_brace(),
    }
}

/// Serializes a protocol-switch reply.
pub fn encode_register_result(m: &RegisterResult) -> (r: Vec<u8>)
    ensures
        r@ == spec_encode_register_result(m@),
{
    match m {
        RegisterResult::Accepted => vec_result_ok(),
        RegisterResult::Rejected(None) => vec_result_err_null(),
        RegisterResult::Rejected(Some(reason)) => {
            let mut out = vec_err_reason_prefix();
            let esc = escape_bytes(reason);
            push_all(&mut out, &esc);
            out.push(0x22);
            out.push(0x7d);
            proof {
                assert(out@ =~= spec_encode_register_result(m@));
            }
            out
        },
    }
}

/// Parses a protocol-switch reply; `None` exactly when the bytes do not
/// spell one.
pub fn decode_register_result(b: &Vec<u8>) -> (r: Option<RegisterResult>)
    ensures
        r matches Some(m) ==> spec_decode_register_result(b@) == Some(m@),
        r is None ==> spec_decode_register_result(b@) is None,
{
    let ok_c = vec_result_ok();
    if crate::bytes_eq(b, &ok_c) {
        return Some(RegisterResult::Accepted);
    }
    let null_c = vec_result_err_null();
    if crate::bytes_eq(b, &null_c) {
        return Some(RegisterResult::Rejected(None));
    }
    let pre = vec_err_reason_prefix();
    if b.len() < 10 {
        return None;
    }
    if !starts_with(b, &pre) {
        return None;
    }
    let n = b.len();
    if b[n - 2] != 0x22 || b[n - 1] != 0x7d {
        return None;
    }
    let mid = subvec(b, 8, n - 2);
    match unescape_bytes(&mid) {
        Some(s) => Some(RegisterResult::Rejected(Some(s))),
        None => None,
    }
}

/// Serializing then parsing returns any protocol-switch reply
/// unchanged.
pub proof fn lemma_register_result_round_trip(m: RegisterResultV)
    ensures
        spec_decode_register_result(spec_encode_register_result(m)) == Some(m),
{
    match m {
        RegisterResultV::Accepted => {},
        RegisterResultV::Rejected(None) => {
            assert(bytes_result_err_null().len() != bytes_result_ok().len());
        },
        RegisterResultV::Rejected(Some(s)) => {
            let e = spec_encode_register_result(m);
            let esc = spec_escape(s);
            assert(e.len() == 10 + esc.len());
            assert(e != bytes_result_ok());
            assert(e[7] == 0x22);
            assert(bytes_result_err_null()[7] == 0x6e);
            assert(e != bytes_result_err_null());
            assert(e.take(8) =~= bytes_err_reason_prefix());
            assert(e[e.len() - 2] == 0x22 && e[e.len() - 1] == 0x7d);
            assert(e.subrange(8, e.len() - 2) =~= esc);
            lemma_unescape_escape(s);
        },
    }
}

/// Numeric value of the first `k` digit bytes.
pub open spec fn spec_num_value(b: Seq<u8>, k: int) -> int
    recommends
        1 <= k <= b.len(),
{
    if k == 1 {
        b[0] - 0x30
    } else if k == 2 {
        (b[0] - 0x30) * 10 + (b[1] - 0x30)
    } else {
        (b[0] - 0x30) * 100 + (b[1] - 0x30) * 10 + (b[2] - 0x30)
    }
}

/// Comma-separated decimal byte values, read back; values are written
/// without leading zeros and must fit in a byte.
pub open spec fn spec_parse_nums(b: Seq<u8>) -> Option<Seq<u8>>
    decreases b.len(),
{
    if b.len() == 0 {
        None
    } else if !is_digit(b[0]) {
        None
    } else {
        let k: int = if b.len() >= 2 && is_digit(b[1]) {
            if b.len() >= 3 && is_digit(b[2]) {
                3
            } else {
                2
            }
        } else {
            1
        };
        if b[0] == 0x30 && k != 1 {
            None
        } else if spec_num_value(b, k) > 255 {
            None
        } else {
            let v = spec_num_value(b, k) as u8;
            if b.len() == k {
                Some(seq![v])
            } else if b[k] == 0x2c {
                match spec_parse_nums(b.skip(k + 1)) {
                    Some(r) => Some(seq![v] + r),
                    None => None,
                }
            } else {
                None
            }
        }
    }
}

/// A byte array's body: empty, or comma-separated decimal values.
pub open spec fn spec_parse_dec_list(b: Seq<u8>) -> Option<Seq<u8>> {
    if b.len() == 0 {
        Some(Seq::<u8>::empty())
    } else {
        spec_parse_nums(b)
    }
}

/// Wire form of a byte array's body.
pub open spec fn spec_dec_list(s: Seq<u8>) -> Seq<u8>
    decreases s.len(),
{
    if s.len() == 0 {
        Seq::<u8>::empty()
    } else if s.len() == 1 {
        spec_dec_u8(s[0])
    } else {
        spec_dec_u8(s[0]) + seq![0x2cu8] + spec_dec_list(s.skip(1))
    }
}

/// The decimal rendering of a byte is one to three digit bytes without
/// a leading zero, and reads back as that byte.
pub proof fn lemma_dec_u8_props(n: u8)
    ensures
        1 <= spec_dec_u8(n).len() <= 3,
        forall|j: int| 0 <= j < spec_dec_u8(n).len() ==> is_digit(spec_dec_u8(n)[j]),
        spec_dec_u8(n).len() > 1 ==> spec_dec_u8(n)[0] != 0x30,
        spec_num_value(spec_dec_u8(n), spec_dec_u8(n).len() as int) == n,
{
}

/// Appending one more value to a byte array's body.
pub proof fn lemma_dec_list_append(s: Seq<u8>, v: u8)
    ensures
        spec_dec_list(s.push(v)) == if s.len() == 0 {
            spec_dec_u8(v)
        } else {
            spec_dec_list(s) + seq![0x2cu8] + spec_dec_u8(v)
        },
    decreases s.len(),
{
    if s.len() == 0 {
        assert(s.push(v).len() == 1);
        assert(s.push(v)[0] == v);
    } else if s.len() == 1 {
        assert(s.push(v).skip(1) =~= seq![v]);
        assert(spec_dec_list(seq![v]) == spec_dec_u8(v));
        assert(spec_dec_list(s.push(v)) =~= spec_dec_list(s) + seq![0x2cu8] + spec_dec_u8(v));
    } else {
        assert(s.push(v).skip(1) =~= s.skip(1).push(v));
        lemma_dec_list_append(s.skip(1), v);
        assert(spec_dec_list(s.push(v)) =~= spec_dec_list(s) + seq![0x2cu8] + spec_dec_u8(v));
    }
}

/// Reading the rendered body of a non-empty byte array gives the array
/// back.
proof fn lemma_parse_nums_round(d: Seq<u8>)
    requires
        d.len() >= 1,
    ensures
        spec_parse_nums(spec_dec_list(d)) == Some(d),
    decreases d.len(),
{
    let b = spec_dec_list(d);
    lemma_dec_u8_props(d[0]);
    let dd = spec_dec_u8(d[0]);
    let len0 = dd.len() as int;
    if d.len() == 1 {
        assert(b == dd);
        assert(spec_parse_nums(b) == Some(seq![d[0]]));
        assert(seq![d[0]] =~= d);
    } else {
        let rest = spec_dec_list(d.skip(1));
        assert(b == dd + seq![0x2cu8] + rest);
        assert(forall|j: int| 0 <= j < len0 ==> b[j] == dd[j]);
        assert(b[len0] == 0x2c);
        assert(!is_digit(0x2c));
        assert(b.len() > len0);
        lemma_parse_nums_round(d.skip(1));
        assert(b.skip(len0 + 1) =~= rest);
        assert(spec_num_value(b, len0) == spec_num_value(dd, len0));
        assert(spec_parse_nums(b) == Some(seq![d[0]] + d.skip(1)));
        assert(seq![d[0]] + d.skip(1) =~= d);
    }
}

/// Reading the rendered body of any byte array gives the array back.
pub proof fn lemma_parse_dec_list_round_trip(d: Seq<u8>)
    ensures
        spec_parse_dec_list(spec_dec_list(d)) == Some(d),
{
    if d.len() == 0 {
        assert(spec_dec_list(d).len() == 0);
        assert(Seq::<u8>::empty() =~= d);
    } else {
        lemma_dec_u8_props(d[0]);
        assert(spec_dec_list(d).len() >= 1);
        lemma_parse_nums_round(d);
    }
}

/// Appends the decimal rendering of a byte value.
pub fn push_dec_u8(out: &mut Vec<u8>, n: u8)
    ensures
        final(out)@ == old(out)@ + spec_dec_u8(n),
{
    if n < 10 {
        out.push(0x30 + n);
    } else if n < 100 {
        out.push(0x30 + n / 10);
        out.push(0x30 + n % 10);
    } else {
        out.push(0x30 + n / 100);
        out.push(0x30 + (n / 10) % 10);
        out.push(0x30 + n % 10);
    }
    proof {
        assert(out@ =~= old(out)@ + spec_dec_u8(n));
    }
}

/// Reads a byte array's body back; `None` exactly when it is not well
/// formed.
pub fn parse_dec_list(src: &Vec<u8>) -> (out: Option<Vec<u8>>)
    ensures
        out matches Some(v) ==> spec_parse_dec_list(src@) == Some(v@),
        out is None ==> spec_parse_dec_list(src@) is None,
{
    let n = src.len();
    if n == 0 {
        let empty: Vec<u8> = Vec::new();
        return Some(empty);
    }
    let mut acc: Vec<u8> = Vec::new();
    let mut i: usize = 0;
    proof {
        assert(src@.skip(0) =~= src@);
        crate::json::lemma_prepend_empty(spec_parse_nums(src@));
    }
    while i < n
        invariant
            n == src.len(),
            0 < n,
            i <= n,
            spec_parse_nums(src@) == prepend_bytes(acc@, spec_parse_nums(src@.skip(i as int))),
        decreases n - i,
    {
        let ghost tail = src@.skip(i as int);
        let remaining = n - i;
        let d0 = src[i];
        proof {
            assert(tail.len() == n - i);
            assert(tail[0] == src@[i as int]);
        }
        if !(0x30 <= d0 && d0 <= 0x39) {
            proof {
                assert(spec_parse_nums(tail) is None);
            }
            return None;
        }
        let has2 = remaining >= 2 && 0x30 <= src[i + 1] && src[i + 1] <= 0x39;
        let has3 = has2 && remaining >= 3 && 0x30 <= src[i + 2] && src[i + 2] <= 0x39;
        let k: usize = if has3 {
            3
        } else if has2 {
            2
        } else {
            1
        };
        proof {
            if remaining >= 2 {
                assert(tail[1] == src@[i as int + 1]);
            }
            if remaining >= 3 {
                assert(tail[2] == src@[i as int + 2]);
            }
        }
        if d0 == 0x30 && k != 1 {
            proof {
                assert(spec_parse_nums(tail) is None);
            }
            return None;
        }
        let v32: u32 = if k == 1 {
            (d0 - 0x30) as u32
        } else if k == 2 {
            (d0 - 0x30) as u32 * 10 + (src[i + 1] - 0x30) as u32
        } else {
            (d0 - 0x30) as u32 * 100 + (src[i + 1] - 0x30) as u32 * 10 + (src[i + 2]
                - 0x30) as u32
        };
        proof {
            assert(v32 == spec_num_value(tail, k as int));
        }
        if v32 > 255 {
            proof {
                assert(spec_parse_nums(tail) is None);
            }
            return None;
        }
        let v: u8 = v32 as u8;
        if k == remaining {
            proof {
                assert(tail.len() == k);
                assert(spec_parse_nums(tail) == Some(seq![v]));
                assert(acc@ + seq![v] =~= acc@.push(v));
            }
            acc.push(v);
            return Some(acc);
        }
        if src[i + k] != 0x2c {
            proof {
                assert(tail[k as int] == src@[i as int + k]);
                assert(spec_parse_nums(tail) is None);
            }
            return None;
        }
        proof {
            assert(tail[k as int] == 0x2c);
            assert(tail.skip(k as int + 1) =~= src@.skip(i as int + k + 1));
            assert(spec_parse_nums(tail) == prepend_bytes(
                seq![v],
                spec_parse_nums(src@.skip(i as int + k + 1)),
            ));
            crate::json::lemma_prepend_push(acc@, v, spec_parse_nums(src@.skip(i as int + k + 1)));
        }
        acc.push(v);
        i = i + k + 1;
    }
    proof {
        assert(src@.skip(n as int).len() == 0);
        assert(spec_parse_nums(src@.skip(n as int)) is None);
    }
    None
}

/// Grammar of the upload request schema.
pub open spec fn spec_decode_upload_request(b: Seq<u8>) -> Option<UploadRequestV> {
    if b.len() >= 15 && b.take(13) == bytes_register_prefix() && b[b.len() - 2] == 0x22 && b[b.len()
        - 1] == 0x7d {
        match spec_unescape(b.subrange(13, b.len() - 2)) {
            Some(p) => Some(UploadRequestV::Register(p)),
            None => None,
        }
    } else if b.len() >= 13 && b.take(11) == bytes_upload_prefix() && b[b.len() - 2] == 0x5d
        && b[b.len() - 1] == 0x7d {
        match spec_parse_dec_list(b.subrange(11, b.len() - 2)) {
            Some(d) => Some(UploadRequestV::Upload(d)),
            None => None,
        }
    } else {
        None
    }
}

/// Wire form of an upload request.
pub open spec fn spec_encode_upload_request(m: UploadRequestV) -> Seq<u8> {
    match m {
        UploadRequestV::Register(p) => bytes_register_prefix() + spec_escape(p)
            + bytes_quote_brace(),
        UploadRequestV::Upload(d) => bytes_upload_prefix() + spec_dec_list(d)
            + bytes_bracket_brace(),
    }
}

/// Serializes an upload request.
pub fn encode_upload_request(m: &UploadRequest) -> (r: Vec<u8>)
    ensures
        r@ == spec_encode_upload_request(m@),
{
    match m {
        UploadRequest::Register(path) => {
            let mut out = vec_register_prefix();
            let esc = escape_bytes(path);
            push_all(&mut out, &esc);
            out.push(0x22);
            out.push(0x7d);
            proof {
                assert(out@ =~= spec_encode_upload_request(m@));
            }
            out
        },
        UploadRequest::Upload(data) => {
            let mut out = vec_upload_prefix();
            let n = data.len();
            let mut i: usize = 0;
            proof {
                assert(out@ =~= bytes_upload_prefix() + spec_dec_list(data@.take(0)));
            }
            while i < n
                invariant
                    n == data.len(),
                    i <= n,
                    out@ == bytes_upload_prefix() + spec_dec_list(data@.take(i as int)),
                decreases n - i,
            {
                proof {
                    assert(data@.take(i as int + 1) =~= data@.take(i as int).push(
                        data@[i as int],
                    ));
                    lemma_dec_list_append(data@.take(i as int), data@[i as int]);
                }
                if i > 0 {
                    out.push(0x2c);
                }
                push_dec_u8(&mut out, data[i]);
                proof {
                    assert(out@ =~= bytes_upload_prefix() + spec_dec_list(
                        data@.take(i as int + 1),
                    ));
                }
                i = i + 1;
            }
            out.push(0x5d);
            out.push(0x7d);
            proof {
                assert(data@.take(n as int) =~= data@);
                assert(out@ =~= spec_encode_upload_request(m@));
            }
            out
        },
    }
}

/// Parses an upload request; `None` exactly when the bytes do not
/// spell one.
pub fn decode_upload_request(b: &Vec<u8>) -> (r: Option<UploadRequest>)
    ensures
        r matches Some(m) ==> spec_decode_upload_request(b@) == Some(m@),
        r is None ==> spec_decode_upload_request(b@) is None,
{
    let n = b.len();
    let reg_pre = vec_register_prefix();
    if n >= 15 && starts_with(b, &reg_pre) && b[n - 2] == 0x22 && b[n - 1] == 0x7d {
        let mid = subvec(b, 13, n - 2);
        return match unescape_bytes(&mid) {
            Some(p) => Some(UploadRequest::Register(p)),
            None => None,
        };
    }
    let up_pre = vec_upload_prefix();
    if n >= 13 && starts_with(b, &up_pre) && b[n - 2] == 0x5d && b[n - 1] == 0x7d {
        let mid = subvec(b, 11, n - 2);
        return match parse_dec_list(&mid) {
            Some(d) => Some(UploadRequest::Upload(d)),
            None => None,
        };
    }
    None
}

/// Serializing then parsing returns any upload request unchanged.
pub proof fn lemma_upload_request_round_trip(m: UploadRequestV)
    ensures
        spec_decode_upload_request(spec_encode_upload_request(m)) == Some(m),
{
    match m {
        UploadRequestV::Register(p) => {
            let e = spec_encode_upload_request(m);
            let esc = spec_escape(p);
            assert(e.len() == 15 + esc.len());
            assert(e.take(13) =~= bytes_register_prefix());
            assert(e[e.len() - 2] == 0x22 && e[e.len() - 1] == 0x7d);
            assert(e.subrange(13, e.len() - 2) =~= esc);
            lemma_unescape_escape(p);
        },
        UploadRequestV::Upload(d) => {
            let e = spec_encode_upload_request(m);
            let body = spec_dec_list(d);
            assert(e.len() == 13 + body.len());
            assert(e[2] == 0x55);
            assert(bytes_register_prefix()[2] == 0x52);
            if e.len() >= 15 {
                assert(e.take(13)[2] == 0x55);
                assert(e.take(13) != bytes_register_prefix());
            }
            assert(e.take(11) =~= bytes_upload_prefix());
            assert(e[e.len() - 2] == 0x5d && e[e.len() - 1] == 0x7d);
            assert(e.subrange(11, e.len() - 2) =~= body);
            lemma_parse_dec_list_round_trip(d);
        },
    }
}

/// No two distinct protocol-switch replies share a wire form.
pub proof fn lemma_register_result_encoding_injective(m1: RegisterResultV, m2: RegisterResultV)
    requires
        spec_encode_register_result(m1) == spec_encode_register_result(m2),
    ensures
        m1 == m2,
{
    lemma_register_result_round_trip(m1);
    lemma_register_result_round_trip(m2);
}

/// No two distinct upload requests share a wire form.
pub proof fn lemma_upload_request_encoding_injective(m1: UploadRequestV, m2: UploadRequestV)
    requires
        spec_encode_upload_request(m1) == spec_encode_upload_request(m2),
    ensures
        m1 == m2,
{
    lemma_upload_request_round_trip(m1);
    lemma_upload_request_round_trip(m2);
}

} // verus!
