use dotcodeschool_cli::codec::{
    decode_bool, decode_i64, decode_metadata, decode_record, decode_str_vec, decode_string,
    decode_u32, decode_vstate, encode_bool, encode_i64, encode_metadata, encode_record,
    encode_str_vec, encode_string, encode_u32, encode_vstate,
};
use dotcodeschool_cli::model::{CourseMetaData, PathLink, TestState, ValidationState};

#[test]
fn u32_round_trip() {
    let mut out: Vec<u8> = Vec::new();
    encode_u32(&mut out, 0);
    encode_u32(&mut out, 1);
    encode_u32(&mut out, 0xdead_beef);
    encode_u32(&mut out, u32::MAX);
    assert_eq!(out.len(), 16);
    let (a, p) = decode_u32(&out, 0).unwrap();
    let (b, p) = decode_u32(&out, p).unwrap();
    let (c, p) = decode_u32(&out, p).unwrap();
    let (d, p) = decode_u32(&out, p).unwrap();
    assert_eq!((a, b, c, d), (0, 1, 0xdead_beef, u32::MAX));
    assert_eq!(p, 16);
    assert!(decode_u32(&out, 13).is_none());
}

#[test]
fn u32_little_endian_layout() {
    let mut out: Vec<u8> = Vec::new();
    encode_u32(&mut out, 0x0403_0201);
    assert_eq!(out, vec![1, 2, 3, 4]);
}

#[test]
fn i64_round_trip() {
    let mut out: Vec<u8> = Vec::new();
    encode_i64(&mut out, -1);
    encode_i64(&mut out, 1_700_000_000);
    encode_i64(&mut out, i64::MIN);
    let (a, p) = decode_i64(&out, 0).unwrap();
    let (b, p) = decode_i64(&out, p).unwrap();
    let (c, _) = decode_i64(&out, p).unwrap();
    assert_eq!((a, b, c), (-1, 1_700_000_000, i64::MIN));
}

#[test]
fn bool_round_trip_and_rejects_junk() {
    let mut out: Vec<u8> = Vec::new();
    encode_bool(&mut out, true);
    encode_bool(&mut out, false);
    assert_eq!(out, vec![1, 0]);
    assert_eq!(decode_bool(&out, 0).unwrap().0, true);
    assert_eq!(decode_bool(&out, 1).unwrap().0, false);
    assert!(decode_bool(&vec![2u8], 0).is_none());
    assert!(decode_bool(&Vec::new(), 0).is_none());
}

#[test]
fn vstate_round_trip() {
    for st in [
        ValidationState::Unknown,
        ValidationState::Pass,
        ValidationState::Fail,
    ] {
        let mut out: Vec<u8> = Vec::new();
        encode_vstate(&mut out, st);
        let (back, end) = decode_vstate(&out, 0).unwrap();
        assert_eq!(end, 1);
        assert_eq!(back, st);
    }
    assert!(decode_vstate(&vec![3u8], 0).is_none());
}

#[test]
fn string_round_trip_ascii() {
    let mut out: Vec<u8> = Vec::new();
    encode_string(&mut out, "hello world");
    let (s, end) = decode_string(&out, 0).unwrap();
    assert_eq!(s, "hello world");
    assert_eq!(end, out.len());
}

#[test]
fn string_round_trip_unicode() {
    let mut out: Vec<u8> = Vec::new();
    encode_string(&mut out, "café 🧪 ñ");
    let (s, end) = decode_string(&out, 0).unwrap();
    assert_eq!(s, "café 🧪 ñ");
    assert_eq!(end, out.len());
}

#[test]
fn string_decode_rejects_surrogate_code_point() {
    // a length of one, then the code point 0xD800, which no character has
    let mut out: Vec<u8> = Vec::new();
    encode_u32(&mut out, 1);
    encode_u32(&mut out, 0xD800);
    assert!(decode_string(&out, 0).is_none());
}

#[test]
fn string_decode_rejects_truncation() {
    let mut out: Vec<u8> = Vec::new();
    encode_string(&mut out, "abc");
    out.pop();
    assert!(decode_string(&out, 0).is_none());
}

#[test]
fn str_vec_round_trip() {
    let xs = vec![
        "one".to_string(),
        "".to_string(),
        "three³".to_string(),
    ];
    let mut out: Vec<u8> = Vec::new();
    encode_str_vec(&mut out, &xs);
    let (back, end) = decode_str_vec(&out, 0).unwrap();
    assert_eq!(back, xs);
    assert_eq!(end, out.len());
}

#[test]
fn record_round_trip() {
    let t = TestState {
        name: "Test One".to_string(),
        slug: "0xabcd".to_string(),
        message_on_success: "well done ✅".to_string(),
        message_on_fail: "try again".to_string(),
        cmd: vec!["cargo".to_string(), "test".to_string()],
        path: vec![
            PathLink::Link("Section".to_string()),
            PathLink::Link("Lesson".to_string()),
            PathLink::LinkOptional("Test One".to_string()),
            PathLink::Link("Test One".to_string()),
        ],
        passed: ValidationState::Pass,
        optional: true,
    };
    let mut out: Vec<u8> = Vec::new();
    encode_record(&mut out, &t);
    let (back, end) = decode_record(&out, 0).unwrap();
    assert_eq!(end, out.len());
    assert_eq!(back.name, t.name);
    assert_eq!(back.slug, t.slug);
    assert_eq!(back.message_on_success, t.message_on_success);
    assert_eq!(back.message_on_fail, t.message_on_fail);
    assert_eq!(back.cmd, t.cmd);
    assert_eq!(back.optional, t.optional);
    assert_eq!(back.passed, ValidationState::Pass);
    assert!(matches!(&back.path[2], PathLink::LinkOptional(n) if n == "Test One"));
    assert!(matches!(&back.path[3], PathLink::Link(n) if n == "Test One"));
}

#[test]
fn record_decode_rejects_garbage() {
    assert!(decode_record(&vec![0xffu8; 6], 0).is_none());
    assert!(decode_record(&Vec::new(), 0).is_none());
}

#[test]
fn metadata_round_trip() {
    let m = CourseMetaData {
        logstream_url: "https://example.test/logs".to_string(),
        logstream_id: "stream-17".to_string(),
        ws_url: "wss://example.test/ws".to_string(),
        tester_url: "https://example.test/tester".to_string(),
    };
    let mut out: Vec<u8> = Vec::new();
    encode_metadata(&mut out, &m);
    let (back, end) = decode_metadata(&out, 0).unwrap();
    assert_eq!(end, out.len());
    assert_eq!(back.logstream_url, m.logstream_url);
    assert_eq!(back.logstream_id, m.logstream_id);
    assert_eq!(back.ws_url, m.ws_url);
    assert_eq!(back.tester_url, m.tester_url);
}
