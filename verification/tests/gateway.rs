use ibx::calendar::days_to_ymd;
use ibx::gateway::{
    asks_soft_token, build_ccp_logon, build_farm_encrypted_logon, build_farm_logon,
    build_mktdata_subscribe, build_mktdata_unsubscribe, chrono_free_timestamp,
    connect_request_text, digest_short_form, display_name_of, farm_frame_kind, farm_keys,
    find_account, init_fields, open_post_auth, secure_message, read_farm_logon, read_post_auth,
    read_server_hello, routing_request_fields, strip_leading_zeros, text_or, token_short_hash,
    try_frame_farm_msg, wrap_encrypted_text, FarmFrame, FarmLogonStep, GatewayConfig,
    LogonProgress, LogonState, PostAuthFrame, PostAuthStep, ServerHello, IB_BUILD, IB_VERSION,
    INIT_MESSAGES, NS_VERSION_MIN,
};
use ibx::protocol::fix::{fix_build, fix_parse, Fields};
use num_bigint::BigUint;

fn message(pairs: &[(u32, &str)], seq: u32) -> Vec<u8> {
    let mut fields = Fields::new();
    for (tag, value) in pairs {
        fields.put_str(*tag, value);
    }
    fix_build(&fields, seq)
}

#[test]
fn token_short_hash_deterministic() {
    let token = BigUint::from(123456789u64);
    let h1 = token_short_hash(&token);
    let h2 = token_short_hash(&token);
    assert_eq!(h1, h2);
    assert!(h1.chars().all(|c| c.is_ascii_hexdigit()));
}

#[test]
fn token_short_hash_different_tokens() {
    let t1 = BigUint::from(111u64);
    let t2 = BigUint::from(222u64);
    assert_ne!(token_short_hash(&t1), token_short_hash(&t2));
}

#[test]
fn build_ccp_logon_structure() {
    let msg = build_ccp_logon("abc123|00:00:00:00:00:00", "17.0.10.0.101/W/fr/G", 10, 1);
    let fields = fix_parse(&msg);
    assert_eq!(fields[&35], "A");
    assert_eq!(fields[&98], "0");
    assert_eq!(fields[&108], "10");
    assert_eq!(fields[&141], "Y");
    assert_eq!(fields[&6034], IB_BUILD);
    assert_eq!(fields[&6968], IB_VERSION);
    assert_eq!(fields[&6490], "dark");
    assert_eq!(fields[&6397], "1");
    assert_eq!(fields[&8361], "(rolling)");
    assert_eq!(fields[&8098], "0");
    assert!(fields[&6351].contains("abc123"));
}

#[test]
fn build_farm_logon_has_required_tags() {
    let token = BigUint::from(999u64);
    let hash = token_short_hash(&token);
    assert!(!hash.is_empty());
}

#[test]
fn build_mktdata_subscribe_structure() {
    let msg = build_mktdata_subscribe(265598, "SMART", "CS", "REQ1", 5);
    let fields = fix_parse(&msg);
    assert_eq!(fields[&35], "V");
    assert_eq!(fields[&262], "REQ1");
    assert_eq!(fields[&263], "1");
    assert_eq!(fields[&6008], "265598");
    assert_eq!(fields[&207], "BEST");
    assert_eq!(fields[&167], "CS");
}

#[test]
fn build_mktdata_unsubscribe_structure() {
    let msg = build_mktdata_unsubscribe("REQ1", 6);
    let fields = fix_parse(&msg);
    assert_eq!(fields[&35], "V");
    assert_eq!(fields[&262], "REQ1");
    assert_eq!(fields[&263], "2");
}

#[test]
fn chrono_free_timestamp_format() {
    let ts = chrono_free_timestamp();
    assert_eq!(ts.len(), 17);
    assert_eq!(ts.as_bytes()[8], b'-');
    assert_eq!(ts.as_bytes()[11], b':');
    assert_eq!(ts.as_bytes()[14], b':');
}

#[test]
fn days_to_ymd_epoch() {
    let (y, m, d) = days_to_ymd(0);
    assert_eq!((y, m, d), (1970, 1, 1));
}

#[test]
fn days_to_ymd_known_date() {
    let (y, m, d) = days_to_ymd(20517);
    assert_eq!((y, m, d), (2026, 3, 5));
}

#[test]
fn try_frame_farm_msg_incomplete() {
    assert!(try_frame_farm_msg(b"8=FIX").is_none());
    assert!(try_frame_farm_msg(b"").is_none());
}

#[test]
fn try_frame_farm_msg_complete() {
    let msg = message(&[(35, "A"), (108, "30")], 1);
    let (extracted, consumed) = try_frame_farm_msg(&msg).unwrap();
    assert_eq!(extracted, msg);
    assert_eq!(consumed, msg.len());
}

#[test]
fn try_frame_farm_msg_with_trailing() {
    let msg1 = message(&[(35, "A")], 1);
    let msg2 = message(&[(35, "0")], 2);
    let mut buf = msg1.clone();
    buf.extend_from_slice(&msg2);
    let (extracted, consumed) = try_frame_farm_msg(&buf).unwrap();
    assert_eq!(extracted, msg1);
    assert_eq!(consumed, msg1.len());
}

#[test]
fn build_mktdata_subscribe_exchange_passthrough() {
    let msg = build_mktdata_subscribe(265598, "ARCA", "CS", "REQ2", 3);
    let fields = fix_parse(&msg);
    assert_eq!(fields[&207], "ARCA");
}

#[test]
fn build_mktdata_subscribe_has_correct_tags() {
    let msg = build_mktdata_subscribe(756733, "SMART", "ETF", "REQ5", 10);
    let fields = fix_parse(&msg);
    assert_eq!(fields[&35], "V");
    assert_eq!(fields[&6008], "756733");
    assert_eq!(fields[&207], "BEST");
    assert_eq!(fields[&167], "ETF");
    assert_eq!(fields[&263], "1");
    assert_eq!(fields[&146], "1");
}

#[test]
fn days_to_ymd_leap_year() {
    let (y, m, d) = days_to_ymd(19782);
    assert_eq!((y, m, d), (2024, 2, 29));
}

#[test]
fn days_to_ymd_end_of_year() {
    let (y, m, d) = days_to_ymd(20453);
    assert_eq!((y, m, d), (2025, 12, 31));
}

#[test]
fn days_to_ymd_start_of_2000() {
    let (y, m, d) = days_to_ymd(10957);
    assert_eq!((y, m, d), (2000, 1, 1));
}

#[test]
fn try_frame_farm_msg_garbage_prefix() {
    let mut buf = vec![0xDE, 0xAD, 0xBE, 0xEF, 0x00, 0x00, 0x00, 0x00, 0x00, 0x00];
    let msg = message(&[(35, "A")], 1);
    buf.extend_from_slice(&msg);
    let (extracted, consumed) = try_frame_farm_msg(&buf).unwrap();
    if extracted.is_empty() {
        let rest = &buf[consumed..];
        let (msg2, _) = try_frame_farm_msg(rest).unwrap();
        assert!(!msg2.is_empty());
    }
}

#[test]
fn try_frame_farm_msg_multiple_sequential() {
    let msg1 = message(&[(35, "S")], 1);
    let msg2 = message(&[(35, "A"), (108, "30")], 2);
    let mut buf = msg1.clone();
    buf.extend_from_slice(&msg2);
    let (extracted, consumed) = try_frame_farm_msg(&buf).unwrap();
    assert_eq!(extracted, msg1);
    assert_eq!(consumed, msg1.len());
    let (extracted2, consumed2) = try_frame_farm_msg(&buf[consumed..]).unwrap();
    assert_eq!(extracted2, msg2);
    assert_eq!(consumed2, msg2.len());
}

#[test]
fn token_short_hash_nonzero_output() {
    let token = BigUint::from(1u64);
    let hash = token_short_hash(&token);
    assert!(!hash.is_empty());
    assert!(hash.chars().all(|c| c.is_ascii_hexdigit()));
}

#[test]
fn token_short_hash_large_token() {
    let token = BigUint::from(u64::MAX);
    let hash = token_short_hash(&token);
    assert!(!hash.is_empty());
    assert!(hash.len() <= 8);
}

#[test]
fn chrono_free_timestamp_not_empty() {
    let ts = chrono_free_timestamp();
    assert!(!ts.is_empty());
    assert!(ts.starts_with("20"));
}

#[test]
fn gateway_config_fields() {
    let config = GatewayConfig {
        username: "user".to_string(),
        password: "pass".to_string(),
        host: "cdc1.ibllc.com".to_string(),
        paper: true,
    };
    assert_eq!(config.username, "user");
    assert!(config.paper);
}

#[test]
fn token_hash_is_the_end_of_the_digest() {
    // SHA-1 of the single byte 1 is bf8b4530d8d246dd74ac53a13471bba17941dff7.
    let hash = token_short_hash(&BigUint::from(1u64));
    assert_eq!(hash, "7941dff7");
}

#[test]
fn short_form_reads_the_last_four_bytes() {
    let mut digest = [0u8; 20];
    digest[16] = 0x00;
    digest[17] = 0x01;
    digest[18] = 0x02;
    digest[19] = 0x03;
    assert_eq!(digest_short_form(&digest), "10203");
}

#[test]
fn leading_zeros_are_stripped() {
    assert_eq!(strip_leading_zeros(&[0, 0, 5, 0]), vec![5, 0]);
    assert_eq!(strip_leading_zeros(&[7]), vec![7]);
}

#[test]
fn farm_logon_carries_the_token_hash() {
    let token = BigUint::from(999u64);
    let msg = build_farm_logon("user", true, "usfarm", "sess", &token, "hw|mac", "enc");
    let text = String::from_utf8_lossy(&msg).into_owned();
    assert!(text.contains(&token_short_hash(&token)));
    let fields = fix_parse(&msg);
    assert_eq!(fields[&35], "A");
    assert_eq!(fields[&108], "30");
}

#[test]
fn paper_users_have_a_display_name_of_their_own() {
    assert_ne!(display_name_of("user", true), display_name_of("user", false));
}

#[test]
fn encrypted_logon_wraps_base64_text() {
    let msg = build_farm_encrypted_logon(b"abc");
    let text = String::from_utf8_lossy(&msg).into_owned();
    assert!(text.contains("YWJj"));
    assert_eq!(wrap_encrypted_text("YWJj"), msg);
}

#[test]
fn server_hello_kinds() {
    assert!(matches!(read_server_hello(b"50;533;a;b;"), ServerHello::Start(_)));
    assert!(matches!(read_server_hello(b"50;535;no;"), ServerHello::Error(_)));
    assert!(matches!(read_server_hello(b"50;521;x;"), ServerHello::Unexpected(521)));
}

#[test]
fn connect_request_names_the_user() {
    let config = GatewayConfig {
        username: "user".to_string(),
        password: "pass".to_string(),
        host: "h".to_string(),
        paper: true,
    };
    let text = connect_request_text(&config, 7, 1, "hw", "sess", "enc");
    assert!(text.starts_with(&format!("{};521;", NS_VERSION_MIN)));
    assert!(text.contains("user"));
}

#[test]
fn post_auth_frames() {
    assert!(matches!(open_post_auth(b"50;535;bad;"), PostAuthFrame::Error(_)));
    match open_post_auth(b"50;534;YWJj;") {
        PostAuthFrame::Encrypted(bytes) => assert_eq!(bytes, b"abc"),
        _ => panic!("expected an encrypted message"),
    }
    assert!(matches!(open_post_auth(b"50;534;!!;"), PostAuthFrame::BadEncoding));
    assert!(matches!(open_post_auth(b"50;525;"), PostAuthFrame::Plain));
}

#[test]
fn post_auth_steps() {
    assert!(matches!(read_post_auth(b"50;525;"), PostAuthStep::FixStart));
    assert!(matches!(read_post_auth(b"50;519;no;"), PostAuthStep::Error(_)));
    assert!(matches!(read_post_auth(b"50;999;"), PostAuthStep::Ignore));
}

#[test]
fn logon_answers_are_taken_in() {
    let mut state = LogonState::new();
    assert_eq!(state.heartbeat_interval, 10);
    let first = message(&[(35, "S"), (108, "15"), (8035, "S1")], 1);
    assert!(matches!(state.absorb(&first), LogonProgress::More));
    assert_eq!(state.heartbeat_interval, 15);
    assert_eq!(state.server_session_id, "S1");
    let done = message(&[(35, "A"), (1, "DU1"), (6386, "tok")], 2);
    assert!(matches!(state.absorb(&done), LogonProgress::Done));
    assert_eq!(state.account_id, "DU1");
    assert_eq!(state.ccp_token, "tok");
    state.absorb(&message(&[(35, "A"), (1, "DU2"), (6386, "new"), (8035, "S2")], 3));
    assert_eq!(state.account_id, "DU1");
    assert_eq!(state.ccp_token, "tok");
    assert_eq!(state.server_session_id, "S1");
}

#[test]
fn refused_logon_gives_its_reason() {
    let mut state = LogonState::new();
    match state.absorb(&message(&[(35, "3"), (58, "bad password")], 1)) {
        LogonProgress::Rejected(reason) => assert_eq!(reason, "bad password"),
        _ => panic!("expected a rejection"),
    }
    match state.absorb(&message(&[(35, "5")], 1)) {
        LogonProgress::Rejected(reason) => assert_eq!(reason, "unknown"),
        _ => panic!("expected a rejection"),
    }
}

#[test]
fn init_messages_are_requests() {
    for i in 0..INIT_MESSAGES - 1 {
        let fields = init_fields("DU1", "20260101-00:00:00", i);
        assert_eq!(fields.items[0], (35, "U".to_string()));
    }
    let last = init_fields("DU1", "20260101-00:00:00", INIT_MESSAGES - 1);
    assert_eq!(last.items[0], (35, "H".to_string()));
    let today = init_fields("DU1", "20260101-12:30:00", 4);
    assert!(today.items.contains(&(6536, "20260101-00:00:00".to_string())));
}

#[test]
fn account_is_found_in_the_init_data() {
    let data = message(&[(35, "U"), (1, "DU777")], 1);
    assert_eq!(find_account(&data, "DU1", "user"), "DU1");
    assert_eq!(text_or("", "other"), "other");
    assert_eq!(text_or("a", "other"), "a");
}

#[test]
fn farm_answers() {
    let accepted = message(&[(35, "A"), (108, "30")], 1);
    assert!(matches!(farm_frame_kind(&accepted), FarmFrame::Fix { signed: false }));
    assert!(matches!(read_farm_logon(&accepted), FarmLogonStep::Accepted));
    match read_farm_logon(&message(&[(35, "3"), (58, "no")], 1)) {
        FarmLogonStep::Rejected(reason) => assert_eq!(reason, "no"),
        _ => panic!("expected a rejection"),
    }
    assert!(!asks_soft_token(b"nothing"));
}

#[test]
fn routing_request_depends_on_the_farm() {
    let hist = routing_request_fields("t", "ushmds");
    let data = routing_request_fields("t", "usfarm");
    assert_eq!(hist.items.last().unwrap().1, "2");
    assert_eq!(data.items.last().unwrap().1, "1");
}

#[test]
fn key_block_is_cut_into_keys() {
    let block: Vec<u8> = (0..120).collect();
    let keys = farm_keys(&block);
    assert!(!keys.sign_mac_key.is_empty());
    assert_ne!(keys.sign_mac_key, keys.read_mac_key);
}

#[test]
fn secure_messages_are_opened_again() {
    let msg = secure_message(b"abc");
    assert_eq!(&msg[8..], b"50;534;YWJj;");
    for secret in [&b""[..], b"a", b"\x00\xff;", b"a longer message; with signs = and more"] {
        match open_post_auth(&secure_message(secret)[8..]) {
            PostAuthFrame::Encrypted(v) => assert_eq!(v, secret),
            PostAuthFrame::NoText => assert!(secret.is_empty()),
            _ => panic!("expected a secure message"),
        }
    }
}
