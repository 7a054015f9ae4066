use ibx::protocol::ns::{is_ns_text, ns_build, ns_parse, ns_payload_len, ns_recv, NS_MAGIC};
use ibx::protocol::wire::FrameError;

#[test]
fn ns_build_structure() {
    let msg = ns_build(50, 521, &["user", "1234"], "");
    assert_eq!(&msg[..4], NS_MAGIC);
    let len = u32::from_be_bytes([msg[4], msg[5], msg[6], msg[7]]) as usize;
    assert_eq!(msg.len(), 8 + len);
    let payload = std::str::from_utf8(&msg[8..]).unwrap();
    assert!(payload.starts_with("50;521;"));
}

#[test]
fn build_with_prefix() {
    let msg = ns_build(38, 528, &[], "MISC");
    let payload = std::str::from_utf8(&msg[8..]).unwrap();
    assert!(payload.starts_with("MISC38;528;"));
}

#[test]
fn parse_roundtrip() {
    let msg = ns_build(50, 521, &["user", "1234", "info"], "");
    let payload = &msg[8..];
    let (version, msg_type, fields) = ns_parse(payload).unwrap();
    assert_eq!(version, 50);
    assert_eq!(msg_type, 521);
    assert_eq!(fields, vec!["user", "1234", "info"]);
}

#[test]
fn parse_misc_prefix() {
    let msg = ns_build(38, 529, &["key=val"], "MISC");
    let payload = &msg[8..];
    let (version, msg_type, fields) = ns_parse(payload).unwrap();
    assert_eq!(version, 38);
    assert_eq!(msg_type, 529);
    assert_eq!(fields, vec!["key=val"]);
}

#[test]
fn recv_roundtrip() {
    let msg = ns_build(50, 534, &["data"], "");
    let (payload, total) = ns_recv(&msg).unwrap();
    assert_eq!(total, msg.len());
    let (version, msg_type, _) = ns_parse(&payload).unwrap();
    assert_eq!(version, 50);
    assert_eq!(msg_type, 534);
}

#[test]
fn is_ns_text_checks() {
    assert!(is_ns_text(b"50;521;user;"));
    assert!(!is_ns_text(b"\x00\x00\x00\x17"));
    assert!(!is_ns_text(b""));
}

#[test]
fn payload_text_is_exact() {
    let msg = ns_build(50, 521, &["user", "1234"], "");
    assert_eq!(&msg[8..], b"50;521;user;1234;");
}

#[test]
fn wrong_magic_is_refused() {
    let mut msg = ns_build(50, 534, &["data"], "");
    msg[0] = b'!';
    assert!(matches!(ns_recv(&msg), Err(FrameError::BadMagic)));
    let mut header = [0u8; 8];
    header.copy_from_slice(&msg[..8]);
    assert!(matches!(ns_payload_len(&header), Err(FrameError::BadMagic)));
}

#[test]
fn short_input_is_refused() {
    let msg = ns_build(50, 534, &["data"], "");
    assert!(ns_recv(&msg[..msg.len() - 1]).is_err());
    assert!(ns_recv(&msg[..5]).is_err());
}

#[test]
fn payload_that_is_not_a_message_is_not_parsed() {
    assert!(ns_parse(b"").is_none());
    assert!(ns_parse(b"50").is_none());
    assert!(ns_parse(b"x;521;a;").is_none());
    assert!(ns_parse(&[0xff, 0xfe]).is_none());
}

#[test]
fn empty_fields_do_not_come_back() {
    let msg = ns_build(50, 521, &["a", "", "b", ""], "");
    assert_eq!(&msg[8..], b"50;521;a;;b;;");
    assert_eq!(ns_parse(&msg[8..]), Some((50, 521, vec!["a".to_string(), "b".to_string()])));
}
