use ibx::calendar::{
    days_to_ymd, fix_utc_to_unix_secs, unix_to_ib_datetime, unix_to_ib_utc_dash, ymd_to_days,
};
use ibx::protocol::fix::{fix_build, fix_checksum, fix_parse, try_frame, Fields};
use ibx::protocol::tick_decoder::{
    decode_bar_ticks, decode_ticks_35p, try_decode_ticks_35p, O_BID_SIZE,
};
use ibx::text::{
    eq_ignore_ascii_case, format_fixed, format_hex, format_int, format_padded, parse_i64,
    parse_u32, split_text,
};
use ibx::types::{format_qty, parse_qty, QTY_SCALE};

#[test]
fn a_message_is_framed_and_summed() {
    let mut fields = Fields::new();
    fields.put_str(35, "0");
    fields.put_str(58, "x");
    let msg = fix_build(&fields, 7);
    let text = String::from_utf8(msg.clone()).unwrap();
    assert!(text.starts_with("8=FIX.4.1\x019=0020\x0135=0\x0134=000007\x0158=x\x0110="));
    let body = &msg[..msg.len() - 7];
    assert!(text.ends_with(&format!("10={:03}\x01", fix_checksum(body))));
    let parsed = fix_parse(&msg);
    assert_eq!(parsed[&34], "000007");
    assert_eq!(parsed[&58], "x");
}

#[test]
fn a_frame_is_found_at_the_start() {
    let mut fields = Fields::new();
    fields.put_str(35, "0");
    let msg = fix_build(&fields, 1);
    let mut two = msg.clone();
    two.extend_from_slice(&msg);
    assert_eq!(try_frame(&two), Some((msg.clone(), msg.len())));
    assert_eq!(try_frame(&msg[..msg.len() - 1]), None);
}

#[test]
fn times_go_there_and_back() {
    assert_eq!(unix_to_ib_utc_dash(1_790_798_400), "20260930-20:00:00");
    assert_eq!(unix_to_ib_datetime(1_790_798_400), "20260930 20:00:00");
    assert_eq!(fix_utc_to_unix_secs("20260930-20:00:00"), Some(1_790_798_400));
    assert_eq!(ymd_to_days(1970, 1, 1), 0);
    assert_eq!(ymd_to_days(2000, 3, 1), 11017);
    assert_eq!(fix_utc_to_unix_secs("20261330-20:00:00"), None);
    assert_eq!(fix_utc_to_unix_secs("20260930-24:00:00"), None);
}

#[test]
fn days_follow_each_other() {
    assert_eq!(days_to_ymd(19_722), (2023, 12, 31));
    assert_eq!(days_to_ymd(19_723), (2024, 1, 1));
    assert_eq!(ymd_to_days(2025, 1, 1) - ymd_to_days(2024, 1, 1), 366);
    assert_eq!(ymd_to_days(2024, 1, 1) - ymd_to_days(2023, 1, 1), 365);
    for day in [0, 59, 10_957, 19_782, 20_517] {
        let (y, m, d) = days_to_ymd(day);
        assert_eq!(ymd_to_days(y as i64, m as i64, d as i64), day as i64);
    }
}

#[test]
fn quantities_are_read_and_written() {
    assert_eq!(parse_qty("1.5"), Some(3 * QTY_SCALE / 2));
    assert_eq!(parse_qty("-10"), Some(-10 * QTY_SCALE));
    assert_eq!(parse_qty("abc"), None);
    assert_eq!(format_qty(3 * QTY_SCALE / 2), "1.5");
    for q in [0, 1, 9_999, 10_000, 123_456_789, -10_000, -15_001, -1, -5_000, i64::MAX, -i64::MAX] {
        assert_eq!(parse_qty(&format_qty(q)), Some(q));
    }
    assert_eq!(format_qty(-5_000), "-0.5");
}

#[test]
fn numbers_are_read_and_written() {
    assert_eq!(format_int(-7), "-7");
    assert_eq!(format_fixed(7, 3), "007");
    assert_eq!(format_padded(7, 3), "007");
    assert_eq!(format_padded(12345, 3), "12345");
    assert_eq!(format_hex(255), "ff");
    assert_eq!(parse_u32("4294967295"), Some(u32::MAX));
    assert_eq!(parse_u32("4294967296"), None);
    assert_eq!(parse_i64("-9223372036854775808"), Some(i64::MIN));
    assert_eq!(parse_i64(""), None);
    assert_eq!(split_text("a,,b", ','), vec!["a", "", "b"]);
    assert!(eq_ignore_ascii_case("AbC", "aBc"));
    assert!(!eq_ignore_ascii_case("abc", "abd"));
}

#[test]
fn ticks_are_unpacked() {
    let body = [0x00, 0x30, 0x00, 0x00, 0x00, 0x64, 0x20, 0x32];
    let ticks = decode_ticks_35p(&body);
    assert_eq!(ticks.len(), 1);
    assert_eq!(ticks[0].server_tag, 100);
    assert_eq!(ticks[0].tick_type, O_BID_SIZE);
    assert_eq!(ticks[0].magnitude, 50);
    assert!(try_decode_ticks_35p(&body[..7]).is_none());
}

#[test]
fn an_empty_bar_is_flat() {
    let bar = decode_bar_ticks(&[0, 0, 0, 0, 0, 0, 0, 0, 0, 0, 0, 0]);
    assert_eq!((bar.open_delta, bar.high_delta, bar.close_delta), (0, 0, 0));
}
