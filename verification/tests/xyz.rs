use ibx::protocol::ns::NS_MAGIC;
use ibx::protocol::xyz::{
    xyz_build, xyz_build_soft_token, xyz_build_srp_v20, xyz_parse_response, xyz_wrap,
    xyz_write_string, XYZ_MSG_SOFT_TOKEN, XYZ_MSG_SRP,
};

#[test]
fn build_parse_roundtrip() {
    let payload = xyz_build(777, 1, "user", &["field1", "field2"]);
    let (msg_id, sub_id, state, fields) = xyz_parse_response(&payload).unwrap();
    assert_eq!(msg_id, 777);
    assert_eq!(sub_id, 1);
    assert_eq!(state, 1);
    assert_eq!(fields[0], "user");
    assert_eq!(fields[1], "field1");
    assert_eq!(fields[2], "field2");
}

#[test]
fn wrap_envelope() {
    let payload = xyz_build(772, 1, "", &[]);
    let wrapped = xyz_wrap(&payload);
    assert_eq!(&wrapped[..4], NS_MAGIC);
    let len = u32::from_be_bytes([wrapped[4], wrapped[5], wrapped[6], wrapped[7]]) as usize;
    assert_eq!(len, payload.len());
    assert_eq!(&wrapped[8..], &payload[..]);
}

#[test]
fn string_alignment() {
    let mut buf = Vec::new();
    xyz_write_string(&mut buf, "abc");
    assert_eq!(buf.len(), 4 + 4);
    xyz_write_string(&mut buf, "abcd");
    assert_eq!(buf.len(), 8 + 4 + 4);
}

#[test]
fn empty_string() {
    let mut buf = Vec::new();
    xyz_write_string(&mut buf, "");
    assert_eq!(buf.len(), 4);
    assert_eq!(u32::from_be_bytes([buf[0], buf[1], buf[2], buf[3]]), 0);
}

#[test]
fn srp_v20_fields() {
    let payload = xyz_build_srp_v20(3, &[("L", "deadbeef")]);
    let (msg_id, _, state, fields) = xyz_parse_response(&payload).unwrap();
    assert_eq!(msg_id, XYZ_MSG_SRP);
    assert_eq!(state, 3);
    assert_eq!(fields[5], "deadbeef");
}

#[test]
fn soft_token_fields() {
    let payload = xyz_build_soft_token(3, "", "response_hex", "");
    let (msg_id, _, state, fields) = xyz_parse_response(&payload).unwrap();
    assert_eq!(msg_id, XYZ_MSG_SOFT_TOKEN);
    assert_eq!(state, 3);
    assert_eq!(fields[2], "response_hex");
}

#[test]
fn short_response_is_not_parsed() {
    assert!(xyz_parse_response(&[0; 15]).is_none());
    assert!(xyz_parse_response(&[0; 16]).is_some());
}

#[test]
fn a_string_that_runs_over_the_end_is_empty() {
    let mut payload = xyz_build(777, 1, "user", &[]);
    let n = payload.len();
    payload.truncate(n - 2);
    let (_, _, _, fields) = xyz_parse_response(&payload).unwrap();
    assert_eq!(fields, vec![""]);
}

#[test]
fn written_bytes_are_exact() {
    let mut buf = Vec::new();
    xyz_write_string(&mut buf, "abc");
    assert_eq!(buf, [0, 0, 0, 3, b'a', b'b', b'c', 0]);
}
