use ibx::protocol::fix::{fix_build, fix_parse, Fields, SOH};
use ibx::protocol::fixcomp::{
    fixcomp_build, fixcomp_decompress, fixcomp_length, split_messages, try_split_messages,
    FixcompError,
};
use std::io::Read as _;

fn message(pairs: &[(u32, &str)], seq: u32) -> Vec<u8> {
    let mut fields = Fields::new();
    for (tag, value) in pairs {
        fields.put_str(*tag, value);
    }
    fix_build(&fields, seq)
}

#[test]
fn fixcomp_build_structure() {
    let inner = message(&[(35, "0")], 1);
    let comp = fixcomp_build(&inner);
    assert!(comp.starts_with(b"8=FIXCOMP"));
    assert!(comp.windows(3).any(|w| w == b"95="));
    assert!(comp.windows(3).any(|w| w == b"96="));
}

#[test]
fn roundtrip() {
    let inner = message(&[(35, "D"), (55, "MSFT"), (54, "2")], 7);
    let comp = fixcomp_build(&inner);
    let messages = fixcomp_decompress(&comp).unwrap();
    assert_eq!(messages.len(), 1);
    let parsed = fix_parse(&messages[0]);
    assert_eq!(parsed[&35], "D");
    assert_eq!(parsed[&55], "MSFT");
}

#[test]
fn length_complete() {
    let inner = message(&[(35, "0")], 1);
    let comp = fixcomp_build(&inner);
    assert_eq!(fixcomp_length(&comp), Some(comp.len()));
}

#[test]
fn length_incomplete() {
    let inner = message(&[(35, "0")], 1);
    let comp = fixcomp_build(&inner);
    assert_eq!(fixcomp_length(&comp[..10]), None);
}

#[test]
fn roundtrip_large_message() {
    let long_value = "X".repeat(1000);
    let inner = message(&[(35, "B"), (58, &long_value)], 1);
    assert!(inner.len() > 1000);

    let comp = fixcomp_build(&inner);
    let messages = fixcomp_decompress(&comp).unwrap();
    assert_eq!(messages.len(), 1);
    let parsed = fix_parse(&messages[0]);
    assert_eq!(parsed[&35], "B");
    assert_eq!(parsed[&58], long_value);
}

#[test]
fn decompress_multiple_inner_fix_messages() {
    let msg1 = message(&[(35, "0")], 1);
    let msg2 = message(&[(35, "D"), (55, "GOOG")], 2);
    let mut combined = msg1.clone();
    combined.extend_from_slice(&msg2);

    let comp = fixcomp_build(&combined);
    let messages = fixcomp_decompress(&comp).unwrap();
    assert_eq!(messages.len(), 2, "expected 2 inner messages");

    let parsed1 = fix_parse(&messages[0]);
    assert_eq!(parsed1[&35], "0");

    let parsed2 = fix_parse(&messages[1]);
    assert_eq!(parsed2[&35], "D");
    assert_eq!(parsed2[&55], "GOOG");
}

#[test]
fn fixcomp_length_missing_tag9() {
    let data = b"8=FIXCOMP\x0195=5\x01";
    assert_eq!(fixcomp_length(data), None);
}

#[test]
fn fixcomp_length_body_shorter_than_declared() {
    let inner = message(&[(35, "0")], 1);
    let comp = fixcomp_build(&inner);
    let expected_total = fixcomp_length(&comp).unwrap();

    let half = comp.len() / 2;
    assert!(half < expected_total);
    assert_eq!(fixcomp_length(&comp[..half]), None);
}

#[test]
fn fixcomp_build_produces_valid_zlib() {
    let inner = message(&[(35, "A"), (108, "30")], 1);
    let comp = fixcomp_build(&inner);

    let tag96_pos = comp
        .windows(3)
        .position(|w| w == b"96=")
        .expect("tag 96 not found");
    let zlib_start = tag96_pos + 3;

    let tag95_pos = comp
        .windows(3)
        .position(|w| w == b"95=")
        .expect("tag 95 not found");
    let soh_after_95 = comp[tag95_pos + 3..]
        .iter()
        .position(|&b| b == SOH)
        .unwrap()
        + tag95_pos
        + 3;
    let zlib_len: usize = std::str::from_utf8(&comp[tag95_pos + 3..soh_after_95])
        .unwrap()
        .parse()
        .unwrap();

    let zlib_data = &comp[zlib_start..zlib_start + zlib_len];

    let mut decoder = flate2::read::ZlibDecoder::new(zlib_data);
    let mut decompressed = Vec::new();
    decoder
        .read_to_end(&mut decompressed)
        .expect("zlib decompression failed");

    assert_eq!(decompressed, inner);
}

#[test]
fn truncated_and_corrupt_frames_are_refused() {
    let inner = message(&[(35, "D"), (55, "MSFT")], 1);
    let comp = fixcomp_build(&inner);
    assert!(matches!(
        fixcomp_decompress(&comp[..comp.len() - 20]),
        Err(FixcompError::Truncated)
    ));
    let mut broken = comp.clone();
    let at = broken.windows(3).position(|w| w == b"96=").unwrap() + 3;
    broken[at] = 0;
    assert!(matches!(fixcomp_decompress(&broken), Err(FixcompError::Corrupt)));
}

#[test]
fn messages_are_split_apart() {
    let msg1 = message(&[(35, "0")], 1);
    let msg2 = message(&[(35, "D")], 2);
    let mut both = msg1.clone();
    both.extend_from_slice(&msg2);
    assert_eq!(split_messages(&both), vec![msg1.clone(), msg2.clone()]);
    assert_eq!(try_split_messages(&both), Some(vec![msg1, msg2]));
    assert_eq!(try_split_messages(b""), Some(Vec::new()));
}

#[test]
fn binary_messages_are_split_by_their_length() {
    let body = b"35=P\x018=FIX.junk8=O\x01\x0110=1\x01";
    let mut binary = format!("8=O\x019={}\x01", body.len()).into_bytes();
    binary.extend_from_slice(body);
    let empty = b"8=O\x019=0\x01".to_vec();
    let field = message(&[(35, "0")], 1);
    let all = vec![binary.clone(), field.clone(), empty, binary, field];
    assert_eq!(split_messages(&all.concat()), all);
    assert_eq!(fixcomp_decompress(&fixcomp_build(&all.concat())), Ok(all));
}
