use ddts_server::handlers::stats_with;
use ddts_server::state::State;
use ddts_server::protocol::{Action, Response, ResponseCode, ResponseData};
use ddts_server::wire::{decode_request, encode_response};

#[test]
fn decode_full_request() {
    let bytes = [8u8, 2, 16, 42, 26, 3, b'd', b'm', b'1', 34, 1, b'x'];
    let r = decode_request(&bytes).expect("readable");
    assert_eq!(r.action, 2);
    assert_eq!(Action::from_number(r.action), Some(Action::Start));
    assert_eq!(r.id, 42);
    assert_eq!(r.map_name, "dm1");
    assert_eq!(r.origin, "x");
}

#[test]
fn decode_empty_request_gives_defaults() {
    let r = decode_request(&[]).expect("readable");
    assert_eq!(r.action, 0);
    assert_eq!(r.id, 0);
    assert_eq!(r.map_name, "");
    assert_eq!(r.origin, "");
}

#[test]
fn decode_skips_unknown_fields_and_keeps_last_value() {
    // field 5 varint, field 6 length-delimited, then field 2 twice
    let bytes = [0x28u8, 7, 0x32, 2, 1, 2, 16, 1, 16, 9];
    let r = decode_request(&bytes).expect("readable");
    assert_eq!(r.id, 9);
}

#[test]
fn decode_refuses_unclosed_group() {
    assert!(decode_request(&[0x0b]).is_none());
    assert!(decode_request(&[16, 3, 0x0b]).is_none());
    assert!(decode_request(&[8, 1, 0x0b]).is_none());
    assert!(decode_request(&[0x2b, 8, 1]).is_none());
}

#[test]
fn decode_reads_long_varints() {
    // id 300 as a two-byte varint; action -1 as a ten-byte varint
    let r = decode_request(&[16, 0xac, 0x02]).expect("readable");
    assert_eq!(r.id, 300);
    let r = decode_request(&[8, 0xff, 0xff, 0xff, 0xff, 0xff, 0xff, 0xff, 0xff, 0xff, 0x01]).expect("readable");
    assert_eq!(r.action, -1);
    // a value beyond the range of i32
    assert!(decode_request(&[8, 0x80, 0x80, 0x80, 0x80, 0x08]).is_none());
    // an eleventh varint byte is refused
    assert!(decode_request(&[16, 0xff, 0xff, 0xff, 0xff, 0xff, 0xff, 0xff, 0xff, 0xff, 0x02]).is_none());
}

#[test]
fn decode_skips_groups() {
    // field 5 group holding a varint, closed by its end tag, then field 2
    let r = decode_request(&[0x2b, 8, 1, 0x2c, 16, 6]).expect("readable");
    assert_eq!(r.id, 6);
}

#[test]
fn decode_refuses_bad_input() {
    assert!(decode_request(&[0x0f, 1]).is_none()); // wire type 7
    assert!(decode_request(&[0x00]).is_none()); // field number 0
    assert!(decode_request(&[26, 5, b'a']).is_none()); // truncated string
    assert!(decode_request(&[16]).is_none()); // missing value
    assert!(decode_request(&[26, 2, 0xff, 0xfe]).is_none()); // not UTF-8
}

#[test]
fn action_numbers() {
    assert_eq!(Action::from_number(0), Some(Action::Unknown));
    assert_eq!(Action::from_number(1), Some(Action::Info));
    assert_eq!(Action::from_number(3), Some(Action::Shutdown));
    assert_eq!(Action::from_number(4), Some(Action::Stats));
    assert_eq!(Action::from_number(5), None);
    assert_eq!(Action::from_number(-1), None);
}

#[test]
fn encode_info_response() {
    let r = Response { code: ResponseCode::Success, data: Some(ResponseData::Info { used: 2, max: 5 }) };
    assert_eq!(encode_response(&r, "o", 0), vec![0x32, 1, b'o', 0x12, 4, 8, 2, 0x10, 5]);
    let r = Response { code: ResponseCode::Success, data: Some(ResponseData::Info { used: 0, max: 5 }) };
    assert_eq!(encode_response(&r, "", 0), vec![0x12, 2, 0x10, 5]);
}

#[test]
fn encode_failure_response() {
    let r = Response { code: ResponseCode::WhoopsieDaisy, data: None };
    assert_eq!(encode_response(&r, "", 0), vec![8, 1]);
}

#[test]
fn encode_start_and_shutdown() {
    let r = Response {
        code: ResponseCode::Success,
        data: Some(ResponseData::Start { password: "ab".to_string(), port: 300 }),
    };
    assert_eq!(encode_response(&r, "", 0), vec![0x1a, 7, 0x0a, 2, b'a', b'b', 0x10, 0xac, 0x02]);
    let r = Response { code: ResponseCode::Success, data: Some(ResponseData::Shutdown { id: 7 }) };
    assert_eq!(encode_response(&r, "", 0), vec![0x22, 2, 8, 7]);
    let r = Response { code: ResponseCode::Success, data: Some(ResponseData::Shutdown { id: 0 }) };
    assert_eq!(encode_response(&r, "", 0), vec![0x22, 0]);
}

#[test]
fn encode_stats_carries_load_as_double() {
    let mut s = State::new(1);
    s.add_server(0, 1, 2001, 3, "p".to_string(), "m".to_string());
    let r = stats_with(&s, 10, 4);
    let bytes = encode_response(&r, "", 1.5f64.to_bits());
    let mut expected_system = vec![8u8, 10, 0x11];
    expected_system.extend_from_slice(&1.5f64.to_le_bytes());
    expected_system.extend_from_slice(&[0x18, 4]);
    let happening = vec![8u8, 0xd1, 0x0f, 0x10, 3, 0x1a, 1, b'm', 0x22, 1, b'p'];
    let mut stats_body = vec![0x0a, expected_system.len() as u8];
    stats_body.extend_from_slice(&expected_system);
    stats_body.push(0x12);
    stats_body.push(happening.len() as u8);
    stats_body.extend_from_slice(&happening);
    let mut expected = vec![0x2a, stats_body.len() as u8];
    expected.extend_from_slice(&stats_body);
    assert_eq!(bytes, expected);
    // a zero load, plus or minus, is left out
    let bytes = encode_response(&r, "", (-0.0f64).to_bits());
    let mut stats_body = vec![0x0a, 4, 8, 10, 0x18, 4, 0x12, happening.len() as u8];
    stats_body.extend_from_slice(&happening);
    let mut expected = vec![0x2a, stats_body.len() as u8];
    expected.extend_from_slice(&stats_body);
    assert_eq!(bytes, expected);
}
