use rpc_toy::decode_response_header;
use rpc_toy::decode_response_payload;
use rpc_toy::encode_call;
use rpc_toy::encode_response;
use rpc_toy::u32_from_be;
use rpc_toy::u32_to_be;
use rpc_toy::Error;
use rpc_toy::ResponseHeader;
use serde_json::Value;

#[test]
fn length_field_round_trip() {
    let b = u32_to_be(0x0102_0304);
    assert_eq!(b, vec![1u8, 2, 3, 4]);
    assert_eq!(u32_from_be(&b), 0x0102_0304);
    assert_eq!(u32_to_be(0), vec![0u8, 0, 0, 0]);
    assert_eq!(u32_from_be(&vec![0xff, 0xff, 0xff, 0xff]), u32::MAX);
}

#[test]
fn encode_call_add_exact_bytes() {
    let args = vec![Value::from(1i64), Value::from(2i64)];
    let bytes = encode_call("Add", &args).unwrap();
    let mut expected: Vec<u8> = Vec::new();
    expected.extend_from_slice(&[0, 0, 0, 3]);
    expected.extend_from_slice(b"Add");
    expected.extend_from_slice(&[0, 0, 0, 1]);
    expected.extend_from_slice(b"1");
    expected.extend_from_slice(&[0, 0, 0, 1]);
    expected.extend_from_slice(b"2");
    expected.extend_from_slice(&[0, 0, 0, 0]);
    assert_eq!(bytes, expected);
}

#[test]
fn encode_call_no_args_is_name_and_terminator() {
    let bytes = encode_call("hello", &[]).unwrap();
    let mut expected: Vec<u8> = Vec::new();
    expected.extend_from_slice(&[0, 0, 0, 5]);
    expected.extend_from_slice(b"hello");
    expected.extend_from_slice(&[0, 0, 0, 0]);
    assert_eq!(bytes, expected);
}

#[test]
fn encode_response_void_is_four_zero_bytes() {
    let bytes = encode_response(&None).unwrap();
    assert_eq!(bytes, vec![0u8, 0, 0, 0]);
}

#[test]
fn encode_response_value_exact_bytes() {
    let bytes = encode_response(&Some(Value::String("world".to_string()))).unwrap();
    let mut expected: Vec<u8> = Vec::new();
    expected.extend_from_slice(&[0, 0, 0, 7]);
    expected.extend_from_slice(b"\"world\"");
    assert_eq!(bytes, expected);
}

#[test]
fn response_header_zero_means_void() {
    assert_eq!(
        decode_response_header(&vec![0u8, 0, 0, 0]),
        ResponseHeader::Void
    );
    assert_eq!(
        decode_response_header(&vec![0u8, 0, 0, 7]),
        ResponseHeader::Payload(7)
    );
}

#[test]
fn response_round_trip_value() {
    let v = Value::Array(vec![
        Value::from(42i64),
        Value::String("answer".to_string()),
        Value::Null,
        Value::Bool(true),
    ]);
    let bytes = encode_response(&Some(v.clone())).unwrap();
    let header = bytes[0..4].to_vec();
    match decode_response_header(&header) {
        ResponseHeader::Void => panic!("a present value decoded as void"),
        ResponseHeader::Payload(n) => {
            assert_eq!(bytes.len(), 4 + n as usize);
            let payload = bytes[4..].to_vec();
            let back = decode_response_payload(&payload).unwrap();
            assert_eq!(back, v);
        }
    }
}

#[test]
fn response_round_trip_void_consumes_nothing_more() {
    let bytes = encode_response(&None).unwrap();
    assert_eq!(bytes.len(), 4);
    assert_eq!(decode_response_header(&bytes), ResponseHeader::Void);
}

#[test]
fn response_payload_that_does_not_parse_is_decode_error() {
    let garbage = b"{not json".to_vec();
    assert_eq!(decode_response_payload(&garbage), Err(Error::DecodeError));
}

#[test]
fn response_payload_with_trailing_garbage_is_decode_error() {
    let garbage = b"3 3".to_vec();
    assert_eq!(decode_response_payload(&garbage), Err(Error::DecodeError));
}
