//! The payload codec against concrete wire bytes, including a
//! reference serializer producing the same self-describing format.

use upload_transport::codec::{
    decode_register_client_req, decode_register_result, decode_upload_request,
    decode_upload_response, encode_register_client_req, encode_register_result,
    encode_upload_request, encode_upload_response,
};
use upload_transport::messages::{
    ClientType, RegisterClientReq, RegisterResult, UploadRequest, UploadResponse,
};

#[test]
fn switch_request_exact_bytes() {
    let m = RegisterClientReq::SwitchProtocol(ClientType::Upload);
    let bytes = encode_register_client_req(&m);
    assert_eq!(bytes, b"{\"SwitchProtocol\":\"Upload\"}".to_vec());
    assert_eq!(decode_register_client_req(&bytes), Some(m));
}

#[test]
fn switch_request_rejects_noise() {
    assert_eq!(decode_register_client_req(&b"{\"SwitchProtocol\":\"Download\"}".to_vec()), None);
    assert_eq!(decode_register_client_req(&Vec::new()), None);
}

#[test]
fn register_result_exact_bytes() {
    assert_eq!(encode_register_result(&RegisterResult::Accepted), b"\"Ok\"".to_vec());
    assert_eq!(
        encode_register_result(&RegisterResult::Rejected(None)),
        b"{\"Err\":null}".to_vec()
    );
    assert_eq!(
        encode_register_result(&RegisterResult::Rejected(Some(b"busy".to_vec()))),
        b"{\"Err\":\"busy\"}".to_vec()
    );
}

#[test]
fn register_result_round_trips() {
    for m in [
        RegisterResult::Accepted,
        RegisterResult::Rejected(None),
        RegisterResult::Rejected(Some(b"no capacity".to_vec())),
        RegisterResult::Rejected(Some(Vec::new())),
    ] {
        let bytes = encode_register_result(&m);
        assert_eq!(decode_register_result(&bytes), Some(m));
    }
}

#[test]
fn upload_request_register_exact_bytes() {
    let m = UploadRequest::Register(b"/a/b.txt".to_vec());
    let bytes = encode_upload_request(&m);
    assert_eq!(bytes, b"{\"Register\":\"/a/b.txt\"}".to_vec());
    assert_eq!(decode_upload_request(&bytes), Some(m));
}

#[test]
fn upload_request_chunk_exact_bytes() {
    let m = UploadRequest::Upload(vec![0, 1, 9, 10, 99, 100, 255]);
    let bytes = encode_upload_request(&m);
    assert_eq!(bytes, b"{\"Upload\":[0,1,9,10,99,100,255]}".to_vec());
    assert_eq!(decode_upload_request(&bytes), Some(m));
}

#[test]
fn upload_request_empty_chunk() {
    let m = UploadRequest::Upload(Vec::new());
    let bytes = encode_upload_request(&m);
    assert_eq!(bytes, b"{\"Upload\":[]}".to_vec());
    assert_eq!(decode_upload_request(&bytes), Some(m));
}

#[test]
fn upload_request_escaped_path_round_trips() {
    let path = b"/dir with \"quotes\"\\back\nnewline\ttab\x01ctl".to_vec();
    let m = UploadRequest::Register(path);
    let bytes = encode_upload_request(&m);
    assert_eq!(decode_upload_request(&bytes), Some(m));
}

#[test]
fn upload_request_matches_reference_serializer() {
    // The reference serializer must produce byte-identical output for
    // the same tagged value, escapes included.
    let path = "/music/a \"b\"\\c\nd.txt";
    let mut obj = serde_json::Map::new();
    obj.insert(
        "Register".to_string(),
        serde_json::Value::String(path.to_string()),
    );
    let expected = serde_json::to_vec(&serde_json::Value::Object(obj)).unwrap();
    let ours = encode_upload_request(&UploadRequest::Register(path.as_bytes().to_vec()));
    assert_eq!(ours, expected);
}

#[test]
fn upload_chunk_matches_reference_serializer() {
    let data: Vec<u8> = vec![0, 7, 42, 128, 255];
    let nums: Vec<serde_json::Value> = data
        .iter()
        .map(|b| serde_json::Value::Number(serde_json::Number::from(*b)))
        .collect();
    let mut obj = serde_json::Map::new();
    obj.insert("Upload".to_string(), serde_json::Value::Array(nums));
    let expected = serde_json::to_vec(&serde_json::Value::Object(obj)).unwrap();
    let ours = encode_upload_request(&UploadRequest::Upload(data));
    assert_eq!(ours, expected);
}

#[test]
fn register_result_matches_reference_serializer() {
    let expected = serde_json::to_vec(&serde_json::Value::String("Ok".to_string())).unwrap();
    assert_eq!(encode_register_result(&RegisterResult::Accepted), expected);

    let mut obj = serde_json::Map::new();
    obj.insert("Err".to_string(), serde_json::Value::Null);
    let expected = serde_json::to_vec(&serde_json::Value::Object(obj)).unwrap();
    assert_eq!(encode_register_result(&RegisterResult::Rejected(None)), expected);
}

#[test]
fn upload_response_exact_bytes_and_round_trip() {
    let t = UploadResponse::RegisterResult(true);
    let f = UploadResponse::RegisterResult(false);
    assert_eq!(encode_upload_response(&t), b"{\"RegisterResult\":true}".to_vec());
    assert_eq!(encode_upload_response(&f), b"{\"RegisterResult\":false}".to_vec());
    assert_eq!(decode_upload_response(&encode_upload_response(&t)), Some(t));
    assert_eq!(decode_upload_response(&encode_upload_response(&f)), Some(f));
    assert_eq!(decode_upload_response(&b"{\"RegisterResult\":tru}".to_vec()), None);
}

#[test]
fn upload_request_rejects_malformed() {
    // Missing closing quote.
    assert_eq!(decode_upload_request(&b"{\"Register\":\"/a}".to_vec()), None);
    // Leading zero in a byte value.
    assert_eq!(decode_upload_request(&b"{\"Upload\":[01]}".to_vec()), None);
    // A value beyond one byte.
    assert_eq!(decode_upload_request(&b"{\"Upload\":[256]}".to_vec()), None);
    // Trailing comma.
    assert_eq!(decode_upload_request(&b"{\"Upload\":[1,]}".to_vec()), None);
    // A stray control byte inside the string.
    assert_eq!(decode_upload_request(&b"{\"Register\":\"a\x01b\"}".to_vec()), None);
}

#[test]
fn decoder_accepts_solidus_and_unicode_escapes() {
    // Escaped solidus and \u00XX control escapes are read, as a
    // conforming writer may produce them.
    assert_eq!(
        decode_register_result(&b"{\"Err\":\"a\\/b\"}".to_vec()),
        Some(RegisterResult::Rejected(Some(b"a/b".to_vec())))
    );
    assert_eq!(
        decode_upload_request(&b"{\"Register\":\"a\\u0001b\"}".to_vec()),
        Some(UploadRequest::Register(b"a\x01b".to_vec()))
    );
}

#[test]
fn decoder_rejects_malformed_escapes() {
    // Trailing backslash, unknown escape, upper-case hex, and an
    // out-of-range \u00XX value.
    assert_eq!(decode_register_result(&b"{\"Err\":\"a\\\"}".to_vec()), None);
    assert_eq!(decode_register_result(&b"{\"Err\":\"a\\qb\"}".to_vec()), None);
    assert_eq!(decode_register_result(&b"{\"Err\":\"a\\u000Ab\"}".to_vec()), None);
    assert_eq!(decode_register_result(&b"{\"Err\":\"a\\u0041b\"}".to_vec()), None);
}
