//! The steps of a session: authentication replies, logon messages and subscriptions.
//!
//! Reading from and writing to the connections is left to the caller: these functions build
//! what is sent and decide what follows from what was received.
use base64::engine::general_purpose::STANDARD;
use base64::Engine;
use num_bigint::BigUint;
use sha1::{Digest, Sha1};
use std::collections::HashMap;
use vstd::prelude::*;

use crate::calendar::{time_text, unix_now, unix_to_ib_utc_dash};
use crate::protocol::fix::{
    field_bytes, field_is, fix_build, fix_message, fix_parse, fix_values, frame, framed, get_field,
    lookup, map_texts, push_ascii, Fields, SOH, TAG_ENCRYPT_METHOD, TAG_HEARTBEAT_INT,
    TAG_IB_BUILD, TAG_IB_VERSION, TAG_MSG_TYPE, TAG_RESET_SEQ_NUM, TAG_SENDING_TIME,
};
use crate::protocol::ns::{
    ns_build, ns_text, NS_CONNECT_REQUEST, NS_CONNECT_RESPONSE, NS_ERROR_RESPONSE, NS_FIX_START,
    NS_NEWCOMMPORTTYPE, NS_SECURE_CONNECTION_START, NS_SECURE_ERROR, NS_SECURE_MESSAGE,
};
use crate::protocol::wire::{be32_at, enveloped, read_be32};
use crate::text::{
    append_bytes, bytes_at, chars_of, dec, find_bytes, find_from, format_hex, format_uint,
    from_utf8_lossy, hex, join, occurs_at, parse_u32, parse_u64, parsed_int, read_text, join_from,
    joined, slice_vec, split, split_text, starts_with, string_texts, strings_from_index, text_eq,
    texts,
};

verus! {

/// The build number that a logon states.
pub const IB_BUILD: &'static str = "10401";

/// The version that a logon states.
pub const IB_VERSION: &'static str = "c";

/// The oldest protocol version that is spoken.
pub const NS_VERSION_MIN: u32 = 38;

/// The newest protocol version that is spoken.
pub const NS_VERSION: u32 = 50;

/// Seconds between the heartbeats of a data farm.
pub const FARM_HEARTBEAT: u64 = 30;

/// Seconds between the heartbeats of the order connection, unless its logon says otherwise.
pub const CCP_HEARTBEAT: u64 = 10;

// ---------------------------------------------------------------------------------------
// Outside computations
// ---------------------------------------------------------------------------------------

/// `num_bigint::BigUint`, an unsigned number of any size.
#[verifier::external_type_specification]
#[verifier::external_body]
pub struct ExBigUint(num_bigint::BigUint);

/// The bytes that a number holds, most significant first, as `BigUint::to_bytes_be` gives them.
pub uninterp spec fn biguint_bytes(n: BigUint) -> Seq<u8>;

/// `num_bigint::BigUint::to_bytes_be`: the bytes of a number, most significant first.
pub assume_specification[ num_bigint::BigUint::to_bytes_be ](n: &BigUint) -> (r: Vec<u8>)
    ensures
        r@ == biguint_bytes(*n),
;

/// The SHA-1 digest of a byte string, as `sha1` computes it.
pub uninterp spec fn sha1_digest(data: Seq<u8>) -> Seq<u8>;

/// `sha1::Sha1::digest`: the SHA-1 digest of a byte string, 20 bytes.
#[verifier::external_body]
fn sha1(data: &[u8]) -> (r: [u8; 20])
    ensures
        r@ == sha1_digest(data@),
{
    Sha1::digest(data).into()
}

/// The base64 text of a byte string, with the standard alphabet and padding.
pub uninterp spec fn base64_text(data: Seq<u8>) -> Seq<char>;

/// The byte string that a base64 text stands for, or `None` when it is not base64 text with
/// the standard alphabet and padding.
pub uninterp spec fn base64_bytes(text: Seq<char>) -> Option<Seq<u8>>;

/// `base64`'s `Engine::encode` with the standard engine: the base64 text of a byte string,
/// which stands for that byte string again. The text's length fits in memory.
#[verifier::external_body]
fn base64_encode(data: &[u8]) -> (r: String)
    requires
        (data@.len() + 2) / 3 * 4 <= usize::MAX,
    ensures
        r@ == base64_text(data@),
        base64_bytes(r@) == Some(data@),
{
    STANDARD.encode(data)
}

/// `base64`'s `Engine::decode` with the standard engine: the byte string that a text stands
/// for, or `None` when it reports an error.
#[verifier::external_body]
fn base64_decode(text: &str) -> (r: Option<Vec<u8>>)
    ensures
        match r {
            Some(v) => base64_bytes(text@) == Some(v@),
            None => base64_bytes(text@) is None,
        },
{
    match STANDARD.decode(text) {
        Ok(v) => Some(v),
        Err(_) => None,
    }
}

// ---------------------------------------------------------------------------------------
// Time
// ---------------------------------------------------------------------------------------

/// The present time as `YYYYMMDD-HH:MM:SS`.
pub fn chrono_free_timestamp() -> (r: String)
    ensures
        exists|secs: u64| r@ == time_text(secs as nat, '-'),
{
    let secs = unix_now();
    let r = unix_to_ib_utc_dash(secs);
    proof {
        assert(r@ == time_text(secs as nat, '-'));
    }
    r
}

// ---------------------------------------------------------------------------------------
// Tokens
// ---------------------------------------------------------------------------------------

/// A byte string without its leading zeros.
pub open spec fn stripped(s: Seq<u8>) -> Seq<u8>
    decreases s.len(),
{
    if s.len() > 0 && s[0] == 0 {
        stripped(s.skip(1))
    } else {
        s
    }
}

/// A byte string without its leading zeros.
pub fn strip_leading_zeros(s: &[u8]) -> (r: Vec<u8>)
    ensures
        r@ == stripped(s@),
{
    let mut i: usize = 0;
    proof {
        assert(s@.skip(0) =~= s@);
    }
    while i < s.len() && s[i] == 0
        invariant
            i <= s.len(),
            stripped(s@.skip(i as int)) == stripped(s@),
        decreases s.len() - i,
    {
        proof {
            assert(s@.skip(i as int).skip(1) =~= s@.skip(i + 1));
        }
        i = i + 1;
    }
    let r = slice_vec(s, i, s.len());
    proof {
        assert(r@ =~= s@.skip(i as int));
    }
    r
}

/// The short form of a digest: its last four bytes as a hexadecimal number.
pub open spec fn short_form(digest: Seq<u8>) -> Seq<char> {
    hex(be32_at(digest, 16) as nat)
}

/// The short form of a digest: its last four bytes as a hexadecimal number.
pub fn digest_short_form(digest: &[u8; 20]) -> (r: String)
    ensures
        r@ == short_form(digest@),
{
    format_hex(read_be32(digest, 16) as u64)
}

/// The short hash of a session token, which a farm logon carries: the short form of the SHA-1
/// digest of the token's bytes without leading zeros.
pub fn token_short_hash(session_token: &BigUint) -> (r: String)
    ensures
        r@ == short_form(sha1_digest(stripped(biguint_bytes(*session_token)))),
{
    let bytes = session_token.to_bytes_be();
    let token = strip_leading_zeros(bytes.as_slice());
    let digest = sha1(token.as_slice());
    digest_short_form(&digest)
}

// ---------------------------------------------------------------------------------------
// Logon messages
// ---------------------------------------------------------------------------------------

/// The hardware field of a logon: the hardware id and the loopback address.
pub open spec fn hardware_field(hw_info: Seq<char>) -> Seq<char> {
    seq!['<'] + hw_info + "|127.0.0.1>"@
}

fn hardware_text(hw_info: &str) -> (r: String)
    ensures
        r@ == hardware_field(hw_info@),
{
    let mut out = String::new();
    out.push('<');
    proof {
        assert(out@ =~= seq!['<']);
    }
    out.append(hw_info);
    out.append("|127.0.0.1>");
    out
}

/// The fields of the order connection's logon.
pub open spec fn ccp_logon(
    now: Seq<char>,
    hw_info: Seq<char>,
    encoded: Seq<char>,
    heartbeat: u64,
) -> Seq<(u32, Seq<char>)> {
    seq![
        (TAG_MSG_TYPE, "A"@),
        (TAG_SENDING_TIME, now),
        (TAG_ENCRYPT_METHOD, "0"@),
        (TAG_HEARTBEAT_INT, dec(heartbeat as nat)),
        (TAG_RESET_SEQ_NUM, "Y"@),
        (TAG_IB_BUILD, IB_BUILD@),
        (TAG_IB_VERSION, IB_VERSION@),
        (6490u32, "dark"@),
        (6266u32, encoded),
        (6351u32, hardware_field(hw_info)),
        (6397u32, "1"@),
        (6947u32, "UTC"@),
        (8361u32, "(rolling)"@),
        (8098u32, "0"@),
    ]
}

/// The fields of the order connection's logon at a given time.
pub fn ccp_logon_fields(now: &str, hw_info: &str, encoded: &str, heartbeat: u64) -> (r: Fields)
    ensures
        r@ == ccp_logon(now@, hw_info@, encoded@, heartbeat),
{
    let mut f = Fields::new();
    f.put_str(TAG_MSG_TYPE, "A");
    f.put_str(TAG_SENDING_TIME, now);
    f.put_str(TAG_ENCRYPT_METHOD, "0");
    f.put_uint(TAG_HEARTBEAT_INT, heartbeat);
    f.put_str(TAG_RESET_SEQ_NUM, "Y");
    f.put_str(TAG_IB_BUILD, IB_BUILD);
    f.put_str(TAG_IB_VERSION, IB_VERSION);
    f.put_str(6490, "dark");
    f.put_str(6266, encoded);
    f.put(6351, hardware_text(hw_info));
    f.put_str(6397, "1");
    f.put_str(6947, "UTC");
    f.put_str(8361, "(rolling)");
    f.put_str(8098, "0");
    f
}

/// Builds the order connection's logon message.
pub fn build_ccp_logon(hw_info: &str, encoded: &str, heartbeat: u64, seq: u32) -> (r: Vec<u8>)
    ensures
        exists|secs: u64|
            r@ == fix_message(
                ccp_logon(#[trigger] time_text(secs as nat, '-'), hw_info@, encoded@, heartbeat),
                seq,
            ),
{
    let now = chrono_free_timestamp();
    let ghost secs = choose|secs: u64| now@ == time_text(secs as nat, '-');
    let fields = ccp_logon_fields(now.as_str(), hw_info, encoded, heartbeat);
    let r = fix_build(&fields, seq);
    proof {
        assert(r@ == fix_message(
            ccp_logon(time_text(secs as nat, '-'), hw_info@, encoded@, heartbeat),
            seq,
        ));
    }
    r
}

/// The name that a session is opened under: that of a paper account has an `S` before it.
pub open spec fn display_name(username: Seq<char>, paper: bool) -> Seq<char> {
    if paper {
        seq!['S'] + username
    } else {
        username
    }
}

/// The name that a session is opened under.
pub fn display_name_of(username: &str, paper: bool) -> (r: String)
    ensures
        r@ == display_name(username@, paper),
{
    if paper {
        let mut out = String::new();
        out.push('S');
        proof {
            assert(out@ =~= seq!['S']);
        }
        out.append(username);
        out
    } else {
        username.to_owned()
    }
}

/// The slot of a farm.
pub open spec fn farm_slot(farm_name: Seq<char>) -> nat {
    if farm_name == "ushmds"@ || farm_name == "cashhmds"@ {
        18
    } else if farm_name == "secdefil"@ {
        19
    } else {
        17
    }
}

/// The identity that a farm logon states: name, slot and farm.
pub open spec fn farm_identity(
    username: Seq<char>,
    paper: bool,
    farm_name: Seq<char>,
) -> Seq<char> {
    display_name(username, paper).push('/') + dec(farm_slot(farm_name)).push('/') + farm_name
}

fn farm_identity_text(username: &str, paper: bool, farm_name: &str) -> (r: String)
    ensures
        r@ == farm_identity(username@, paper, farm_name@),
{
    let slot: u64 = if text_eq(farm_name, "ushmds") || text_eq(farm_name, "cashhmds") {
        18
    } else if text_eq(farm_name, "secdefil") {
        19
    } else {
        17
    };
    let mut out = display_name_of(username, paper);
    out.push('/');
    let mut slot_text = format_uint(slot);
    slot_text.push('/');
    out.append(slot_text.as_str());
    out.append(farm_name);
    out
}

/// The fields of a farm logon, before it is encrypted.
pub open spec fn farm_logon(
    now: Seq<char>,
    identity: Seq<char>,
    session_id: Seq<char>,
    token_hash: Seq<char>,
    hw_info: Seq<char>,
    encoded: Seq<char>,
) -> Seq<(u32, Seq<char>)> {
    seq![
        (TAG_MSG_TYPE, "A"@),
        (TAG_SENDING_TIME, now),
        (TAG_ENCRYPT_METHOD, "0"@),
        (TAG_HEARTBEAT_INT, dec(FARM_HEARTBEAT as nat)),
        (95u32, dec(vstd::utf8::encode_utf8(identity).len())),
        (96u32, identity),
        (TAG_IB_BUILD, IB_BUILD@),
        (TAG_IB_VERSION, IB_VERSION@),
        (6351u32, hardware_field(hw_info)),
        (6266u32, encoded),
        (6903u32, "1"@),
        (8035u32, session_id),
        (8285u32, dec(NS_VERSION_MIN as nat) + ".."@ + dec(NS_VERSION as nat)),
        (8483u32, token_hash),
    ]
}

/// The fields of a farm logon at a given time, before it is encrypted.
pub fn farm_logon_fields(
    now: &str,
    username: &str,
    paper: bool,
    farm_name: &str,
    session_id: &str,
    token_hash: &str,
    hw_info: &str,
    encoded: &str,
) -> (r: Fields)
    ensures
        r@ == farm_logon(
            now@,
            farm_identity(username@, paper, farm_name@),
            session_id@,
            token_hash@,
            hw_info@,
            encoded@,
        ),
{
    let identity = farm_identity_text(username, paper, farm_name);
    let mut range = format_uint(NS_VERSION_MIN as u64);
    range.append("..");
    range.append(format_uint(NS_VERSION as u64).as_str());
    let identity_len: usize = identity.as_str().as_bytes().len();
    let mut f = Fields::new();
    f.put_str(TAG_MSG_TYPE, "A");
    f.put_str(TAG_SENDING_TIME, now);
    f.put_str(TAG_ENCRYPT_METHOD, "0");
    f.put_uint(TAG_HEARTBEAT_INT, FARM_HEARTBEAT);
    f.put_uint(95, identity_len as u64);
    f.put(96, identity);
    f.put_str(TAG_IB_BUILD, IB_BUILD);
    f.put_str(TAG_IB_VERSION, IB_VERSION);
    f.put(6351, hardware_text(hw_info));
    f.put_str(6266, encoded);
    f.put_str(6903, "1");
    f.put_str(8035, session_id);
    f.put(8285, range);
    f.put_str(8483, token_hash);
    f
}

/// Builds the plain farm logon message, which carries the short hash of the session token and
/// is to be encrypted.
pub fn build_farm_logon(
    username: &str,
    paper: bool,
    farm_name: &str,
    session_id: &str,
    session_token: &BigUint,
    hw_info: &str,
    encoded: &str,
) -> (r: Vec<u8>)
    ensures
        exists|secs: u64|
            r@ == fix_message(
                farm_logon(
                    #[trigger] time_text(secs as nat, '-'),
                    farm_identity(username@, paper, farm_name@),
                    session_id@,
                    short_form(sha1_digest(stripped(biguint_bytes(*session_token)))),
                    hw_info@,
                    encoded@,
                ),
                0,
            ),
{
    let token_hash = token_short_hash(session_token);
    let now = chrono_free_timestamp();
    let ghost secs = choose|secs: u64| now@ == time_text(secs as nat, '-');
    let fields = farm_logon_fields(
        now.as_str(),
        username,
        paper,
        farm_name,
        session_id,
        token_hash.as_str(),
        hw_info,
        encoded,
    );
    let r = fix_build(&fields, 0);
    proof {
        assert(r@ == fix_message(
            farm_logon(
                time_text(secs as nat, '-'),
                farm_identity(username@, paper, farm_name@),
                session_id@,
                token_hash@,
                hw_info@,
                encoded@,
            ),
            0,
        ));
    }
    r
}

/// The message that carries an encrypted one, given as base64 text: its length under tag 90,
/// the text under tag 91.
pub open spec fn encrypted_wrapper(text: Seq<char>) -> Seq<u8> {
    let bytes = vstd::utf8::encode_utf8(text);
    framed(
        field_bytes(90, crate::text::ascii(dec(bytes.len()))) + field_bytes(91, bytes),
    )
}

/// Wraps a base64 text as an encrypted message.
pub fn wrap_encrypted_text(text: &str) -> (r: Vec<u8>)
    ensures
        r@ == encrypted_wrapper(text@),
{
    let bytes = text.as_bytes();
    let mut body: Vec<u8> = Vec::new();
    proof {
        crate::text::lemma_dec_value(90);
        crate::text::lemma_dec_value(91);
        crate::text::lemma_dec_value(bytes@.len());
    }
    push_ascii(&mut body, format_uint(90).as_str());
    body.push(61);
    push_ascii(&mut body, format_uint(bytes.len() as u64).as_str());
    body.push(SOH);
    push_ascii(&mut body, format_uint(91).as_str());
    body.push(61);
    append_bytes(&mut body, bytes);
    body.push(SOH);
    proof {
        assert(body@ =~= field_bytes(90, crate::text::ascii(dec(bytes@.len()))) + field_bytes(
            91,
            bytes@,
        ));
    }
    frame(body.as_slice())
}

/// Wraps the encrypted form of a farm logon message for sending.
pub fn build_farm_encrypted_logon(encrypted: &[u8]) -> (r: Vec<u8>)
    requires
        (encrypted@.len() + 2) / 3 * 4 <= usize::MAX,
    ensures
        r@ == encrypted_wrapper(base64_text(encrypted@)),
{
    let text = base64_encode(encrypted);
    wrap_encrypted_text(text.as_str())
}

// ---------------------------------------------------------------------------------------
// Subscriptions
// ---------------------------------------------------------------------------------------

/// The exchange that a subscription names: `BEST` for the smart router.
pub open spec fn feed_exchange(exchange: Seq<char>) -> Seq<char> {
    if exchange == "SMART"@ {
        "BEST"@
    } else {
        exchange
    }
}

/// The fields of a market data subscription.
pub open spec fn mktdata_subscribe(
    con_id: u32,
    exchange: Seq<char>,
    sec_type: Seq<char>,
    md_req_id: Seq<char>,
) -> Seq<(u32, Seq<char>)> {
    seq![
        (TAG_MSG_TYPE, "V"@),
        (262u32, md_req_id),
        (263u32, "1"@),
        (146u32, "1"@),
        (6008u32, dec(con_id as nat)),
        (207u32, feed_exchange(exchange)),
        (167u32, sec_type),
        (264u32, "442"@),
        (9830u32, "1"@),
    ]
}

/// Builds a market data subscription request.
pub fn build_mktdata_subscribe(
    con_id: u32,
    exchange: &str,
    sec_type: &str,
    md_req_id: &str,
    seq: u32,
) -> (r: Vec<u8>)
    ensures
        r@ == fix_message(mktdata_subscribe(con_id, exchange@, sec_type@, md_req_id@), seq),
{
    let exchange_name = if text_eq(exchange, "SMART") {
        "BEST"
    } else {
        exchange
    };
    let mut f = Fields::new();
    f.put_str(TAG_MSG_TYPE, "V");
    f.put_str(262, md_req_id);
    f.put_str(263, "1");
    f.put_str(146, "1");
    f.put_uint(6008, con_id as u64);
    f.put_str(207, exchange_name);
    f.put_str(167, sec_type);
    f.put_str(264, "442");
    f.put_str(9830, "1");
    proof {
        assert(f@ =~= mktdata_subscribe(con_id, exchange@, sec_type@, md_req_id@));
    }
    fix_build(&f, seq)
}

/// The fields of a market data unsubscription.
pub open spec fn mktdata_unsubscribe(md_req_id: Seq<char>) -> Seq<(u32, Seq<char>)> {
    seq![(TAG_MSG_TYPE, "V"@), (262u32, md_req_id), (263u32, "2"@)]
}

/// Builds a market data unsubscription request.
pub fn build_mktdata_unsubscribe(md_req_id: &str, seq: u32) -> (r: Vec<u8>)
    ensures
        r@ == fix_message(mktdata_unsubscribe(md_req_id@), seq),
{
    let mut f = Fields::new();
    f.put_str(TAG_MSG_TYPE, "V");
    f.put_str(262, md_req_id);
    f.put_str(263, "2");
    proof {
        assert(f@ =~= mktdata_unsubscribe(md_req_id@));
    }
    fix_build(&f, seq)
}

// ---------------------------------------------------------------------------------------
// Opening the session
// ---------------------------------------------------------------------------------------

/// Who connects, and where to.
pub struct GatewayConfig {
    pub username: String,
    pub password: String,
    pub host: String,
    pub paper: bool,
}

/// The parts of a text message.
pub open spec fn message_parts(payload: Seq<u8>) -> Seq<Seq<char>> {
    split(read_text(payload), ';')
}

/// The type of a text message: its second part as a number, 0 when it has none.
pub open spec fn message_type(parts: Seq<Seq<char>>) -> u32 {
    if parts.len() > 1 {
        match parsed_int(parts[1], 0, u32::MAX as int) {
            Some(v) => v as u32,
            None => 0,
        }
    } else {
        0
    }
}

/// The parts of a text message and its type.
fn read_message(payload: &[u8]) -> (r: (Vec<String>, u32))
    ensures
        string_texts(r.0@) == message_parts(payload@),
        r.1 == message_type(message_parts(payload@)),
        r.1 != 0 ==> r.0@.len() > 1,
{
    let text = from_utf8_lossy(payload);
    let parts = split_text(text.as_str(), ';');
    let msg_type: u32 = if parts.len() > 1 {
        proof {
            assert(string_texts(parts@)[1] == parts@[1]@);
        }
        match parse_u32(parts[1].as_str()) {
            Some(v) => v,
            None => 0,
        }
    } else {
        0
    };
    (parts, msg_type)
}

/// What the server answers to a request for a secure connection.
pub enum ServerHello {
    /// The connection starts, with the server's parameters.
    Start(Vec<String>),
    /// The server refuses, with its reason.
    Error(String),
    /// Another message, of the given type.
    Unexpected(u32),
}

/// Reads the server's answer to a request for a secure connection.
pub fn read_server_hello(payload: &[u8]) -> (r: ServerHello)
    ensures
        ({
            let parts = message_parts(payload@);
            let t = message_type(parts);
            match r {
                ServerHello::Start(p) => t == NS_SECURE_CONNECTION_START && string_texts(p@)
                    == parts.skip(2),
                ServerHello::Error(e) => t == NS_SECURE_ERROR && e@ == joined(parts.skip(2), ';'),
                ServerHello::Unexpected(u) => u == t && t != NS_SECURE_CONNECTION_START && t
                    != NS_SECURE_ERROR,
            }
        }),
{
    let (parts, t) = read_message(payload);
    if t == NS_SECURE_ERROR {
        ServerHello::Error(join_from(&parts, 2, ';'))
    } else if t != NS_SECURE_CONNECTION_START {
        ServerHello::Unexpected(t)
    } else {
        ServerHello::Start(strings_from_index(&parts, 2))
    }
}

/// The text of a connect request.
pub open spec fn connect_request(
    username: Seq<char>,
    paper: bool,
    flags: u32,
    hw_info: Seq<char>,
    session_id: Seq<char>,
    encoded: Seq<char>,
) -> Seq<char> {
    crate::text::terminated(
        seq![
            dec(NS_VERSION_MIN as nat),
            dec(NS_CONNECT_REQUEST as nat),
            display_name(username, paper),
            dec(flags as nat),
            dec(NS_VERSION as nat),
            "27"@,
            hw_info,
            session_id,
            encoded,
        ],
        ';',
    )
}

/// Adds a part and its separator.
fn add_part(out: &mut String, part: &str, Ghost(done): Ghost<Seq<Seq<char>>>)
    requires
        old(out)@ == crate::text::terminated(done, ';'),
    ensures
        final(out)@ == crate::text::terminated(done.push(part@), ';'),
{
    out.append(part);
    out.push(';');
    proof {
        assert(done.push(part@).drop_last() =~= done);
    }
}

/// The text of a request to connect, sent over the secure connection. `flags` are the
/// connection flags of a live account, to which a paper account adds `paper_flag`.
pub fn connect_request_text(
    config: &GatewayConfig,
    flags: u32,
    paper_flag: u32,
    hw_info: &str,
    session_id: &str,
    encoded: &str,
) -> (r: String)
    ensures
        r@ == connect_request(
            config.username@,
            config.paper,
            if config.paper {
                flags | paper_flag
            } else {
                flags
            },
            hw_info@,
            session_id@,
            encoded@,
        ),
{
    let all: u32 = if config.paper {
        flags | paper_flag
    } else {
        flags
    };
    let name = display_name_of(config.username.as_str(), config.paper);
    let mut out = String::new();
    let ghost mut done: Seq<Seq<char>> = Seq::empty();
    proof {
        assert(out@ =~= crate::text::terminated(done, ';'));
    }
    let p1 = format_uint(NS_VERSION_MIN as u64);
    add_part(&mut out, p1.as_str(), Ghost(done));
    let p2 = format_uint(NS_CONNECT_REQUEST as u64);
    proof {
        done = done.push(p1@);
    }
    add_part(&mut out, p2.as_str(), Ghost(done));
    proof {
        done = done.push(p2@);
    }
    add_part(&mut out, name.as_str(), Ghost(done));
    proof {
        done = done.push(name@);
    }
    let p4 = format_uint(all as u64);
    add_part(&mut out, p4.as_str(), Ghost(done));
    proof {
        done = done.push(p4@);
    }
    let p5 = format_uint(NS_VERSION as u64);
    add_part(&mut out, p5.as_str(), Ghost(done));
    proof {
        done = done.push(p5@);
    }
    add_part(&mut out, "27", Ghost(done));
    proof {
        done = done.push("27"@);
    }
    add_part(&mut out, hw_info, Ghost(done));
    proof {
        done = done.push(hw_info@);
    }
    add_part(&mut out, session_id, Ghost(done));
    proof {
        done = done.push(session_id@);
    }
    add_part(&mut out, encoded, Ghost(done));
    proof {
        done = done.push(encoded@);
        assert(done =~= seq![p1@, p2@, name@, p4@, p5@, "27"@, hw_info@, session_id@, encoded@]);
    }
    out
}

/// Wraps the encrypted form of a message of the session for sending: its base64 text in an
/// envelope.
pub fn secure_message(encrypted: &[u8]) -> (r: Vec<u8>)
    requires
        (encrypted@.len() + 2) / 3 * 4 <= usize::MAX,
    ensures
        r@ == enveloped(
            vstd::utf8::encode_utf8(
                ns_text(
                    NS_VERSION,
                    NS_SECURE_MESSAGE,
                    seq![base64_text(encrypted@)],
                    Seq::empty(),
                ),
            ),
        ),
{
    let text = base64_encode(encrypted);
    let fields: [&str; 1] = [text.as_str()];
    proof {
        reveal_strlit("");
        assert(""@ =~= Seq::<char>::empty());
        assert(texts(fields@) =~= seq![text@]);
    }
    ns_build(NS_VERSION, NS_SECURE_MESSAGE, &fields, "")
}

/// What a message that follows authentication is wrapped in.
pub enum PostAuthFrame {
    /// An encrypted message, taken out of its base64 text.
    Encrypted(Vec<u8>),
    /// An encrypted message whose text is not base64.
    BadEncoding,
    /// An encrypted message without its text.
    NoText,
    /// The server reports an error.
    Error(String),
    /// A plain message.
    Plain,
}

/// Opens a message that follows authentication.
pub fn open_post_auth(payload: &[u8]) -> (r: PostAuthFrame)
    ensures
        ({
            let parts = message_parts(payload@);
            let t = message_type(parts);
            match r {
                PostAuthFrame::Encrypted(v) => t == NS_SECURE_MESSAGE && parts.len() > 2
                    && base64_bytes(parts[2]) == Some(v@),
                PostAuthFrame::BadEncoding => t == NS_SECURE_MESSAGE && parts.len() > 2
                    && base64_bytes(parts[2]) is None,
                PostAuthFrame::NoText => t == NS_SECURE_MESSAGE && parts.len() <= 2,
                PostAuthFrame::Error(e) => t == NS_SECURE_ERROR && e@ == joined(parts.skip(2), ';'),
                PostAuthFrame::Plain => t != NS_SECURE_MESSAGE && t != NS_SECURE_ERROR,
            }
        }),
{
    let (parts, t) = read_message(payload);
    if t == NS_SECURE_MESSAGE {
        if parts.len() <= 2 {
            return PostAuthFrame::NoText;
        }
        proof {
            assert(string_texts(parts@)[2] == parts@[2]@);
        }
        match base64_decode(parts[2].as_str()) {
            Some(v) => PostAuthFrame::Encrypted(v),
            None => PostAuthFrame::BadEncoding,
        }
    } else if t == NS_SECURE_ERROR {
        PostAuthFrame::Error(join_from(&parts, 2, ';'))
    } else {
        PostAuthFrame::Plain
    }
}

/// What a message that follows authentication asks for.
pub enum PostAuthStep {
    /// Send this text.
    Reply(String),
    /// The session changes over to field messages.
    FixStart,
    /// The server reports an error.
    Error(String),
    /// Nothing.
    Ignore,
}

/// The reply to a connect response.
pub open spec fn new_comm_port() -> Seq<char> {
    dec(NS_VERSION_MIN as nat).push(';') + dec(NS_NEWCOMMPORTTYPE as nat).push(';') + "0;;2;0;"@
}

/// What the opened message `inner` asks for.
pub open spec fn post_auth_step(inner: Seq<u8>, r: PostAuthStep) -> bool {
    let parts = message_parts(inner);
    let t = message_type(parts);
    match r {
        PostAuthStep::Reply(s) => t == NS_CONNECT_RESPONSE && s@ == new_comm_port(),
        PostAuthStep::FixStart => t == NS_FIX_START,
        PostAuthStep::Error(e) => t == NS_ERROR_RESPONSE && e@ == joined(parts.skip(2), ';'),
        PostAuthStep::Ignore => t != NS_CONNECT_RESPONSE && t != NS_FIX_START && t
            != NS_ERROR_RESPONSE,
    }
}

/// Decides what a message that follows authentication asks for.
pub fn read_post_auth(inner: &[u8]) -> (r: PostAuthStep)
    ensures
        post_auth_step(inner@, r),
{
    let (parts, t) = read_message(inner);
    if t == NS_CONNECT_RESPONSE {
        let mut out = format_uint(NS_VERSION_MIN as u64);
        out.push(';');
        let mut kind = format_uint(NS_NEWCOMMPORTTYPE as u64);
        kind.push(';');
        out.append(kind.as_str());
        out.append("0;;2;0;");
        PostAuthStep::Reply(out)
    } else if t == NS_FIX_START {
        PostAuthStep::FixStart
    } else if t == NS_ERROR_RESPONSE {
        PostAuthStep::Error(join_from(&parts, 2, ';'))
    } else {
        PostAuthStep::Ignore
    }
}

/// How many messages may follow authentication before the session changes over.
pub const MAX_POST_AUTH: u32 = 10;

/// How many messages are read in answer to a logon.
pub const MAX_LOGON_REPLIES: u32 = 5;

/// How many messages are read in answer to a farm logon.
pub const MAX_FARM_REPLIES: u32 = 20;

// ---------------------------------------------------------------------------------------
// The order connection's logon
// ---------------------------------------------------------------------------------------

/// What the answers to a logon say.
pub struct LogonState {
    pub account_id: String,
    pub heartbeat_interval: u64,
    pub server_session_id: String,
    pub ccp_token: String,
}

/// How a logon goes on.
pub enum LogonProgress {
    /// The logon is refused, with the reason.
    Rejected(String),
    /// More answers are to be read.
    More,
    /// The logon is done.
    Done,
}

/// A text that is kept once it is set.
pub open spec fn kept_or(current: Seq<char>, new: Option<Seq<char>>) -> Seq<char> {
    if current.len() == 0 && new is Some {
        new->0
    } else {
        current
    }
}

/// The session id in an answer: the value under tag 8035, or what stands behind the first
/// `8035=` that follows an SOH.
pub open spec fn session_id_in(response: Seq<u8>) -> Option<Seq<char>> {
    let marker = seq![SOH, 56u8, 48, 51, 53, 61];
    match lookup(fix_values(response), 8035) {
        Some(v) => Some(v),
        None => match find_from(response, marker, 0) {
            None => None,
            Some(at) => match find_from(response, seq![SOH], at + 6) {
                None => None,
                Some(end) => Some(read_text(response.subrange(at + 6, end))),
            },
        },
    }
}

/// Finds the session id in an answer.
fn find_session_id(response: &[u8], fields: &HashMap<u32, String>) -> (r: Option<String>)
    requires
        map_texts(fields@) == fix_values(response@),
    ensures
        match r {
            Some(s) => session_id_in(response@) == Some(s@),
            None => session_id_in(response@) is None,
        },
{
    if let Some(v) = get_field(fields, 8035) {
        return Some(v.clone());
    }
    let marker: [u8; 6] = [SOH, 56, 48, 51, 53, 61];
    let soh: [u8; 1] = [SOH];
    proof {
        assert(marker@ =~= seq![SOH, 56u8, 48, 51, 53, 61]);
        assert(soh@ =~= seq![SOH]);
        crate::text::lemma_find_from(response@, marker@, 0);
    }
    let at = match find_bytes(response, &marker, 0) {
        None => return None,
        Some(i) => i,
    };
    let n: usize = response.len();
    proof {
        assert(occurs_at(response@, marker@, at as int));
        crate::text::lemma_find_from(response@, soh@, at + 6);
    }
    match find_bytes(response, &soh, at + 6) {
        None => None,
        Some(end) => {
            proof {
                assert(occurs_at(response@, soh@, end as int));
            }
            let value = slice_vec(response, at + 6, end);
            Some(from_utf8_lossy(value.as_slice()))
        },
    }
}

impl LogonState {
    /// The state before any answer.
    pub fn new() -> (r: Self)
        ensures
            r.account_id@.len() == 0,
            r.server_session_id@.len() == 0,
            r.ccp_token@.len() == 0,
            r.heartbeat_interval == CCP_HEARTBEAT,
    {
        LogonState {
            account_id: String::new(),
            heartbeat_interval: CCP_HEARTBEAT,
            server_session_id: String::new(),
            ccp_token: String::new(),
        }
    }

    /// The state after an answer that does not refuse the logon.
    pub open spec fn absorbed(self, response: Seq<u8>, after: LogonState) -> bool {
        let v = fix_values(response);
        &&& after.account_id@ == kept_or(self.account_id@, lookup(v, 1))
        &&& after.ccp_token@ == kept_or(self.ccp_token@, lookup(v, 6386))
        &&& after.server_session_id@ == kept_or(self.server_session_id@, session_id_in(response))
        &&& after.heartbeat_interval == (match lookup(v, 108) {
            Some(t) => match parsed_int(t, 0, u64::MAX as int) {
                Some(hb) => hb as u64,
                None => self.heartbeat_interval,
            },
            None => self.heartbeat_interval,
        })
    }

    /// Takes in one answer to the logon. A reject or logout refuses it, with the reason under
    /// tag 58; a logon or a server configuration ends it.
    pub fn absorb(&mut self, response: &[u8]) -> (r: LogonProgress)
        ensures
            ({
                let v = fix_values(response@);
                let t = lookup(v, 35);
                let refused = t == Some("3"@) || t == Some("5"@);
                let done = t == Some("A"@) || t == Some("U"@);
                match r {
                    LogonProgress::Rejected(reason) => refused && *final(self) == *old(self)
                        && reason@ == (match lookup(v, 58) {
                        Some(text) => text,
                        None => "unknown"@,
                    }),
                    LogonProgress::More => !refused && !done && old(self).absorbed(
                        response@,
                        *final(self),
                    ),
                    LogonProgress::Done => !refused && done && old(self).absorbed(
                        response@,
                        *final(self),
                    ),
                }
            }),
    {
        let fields = fix_parse(response);
        if field_is(&fields, 35, "3") || field_is(&fields, 35, "5") {
            return LogonProgress::Rejected(
                match get_field(&fields, 58) {
                    Some(text) => text.clone(),
                    None => "unknown".to_owned(),
                },
            );
        }
        if self.account_id.as_str().is_empty() {
            if let Some(v) = get_field(&fields, 1) {
                self.account_id = v.clone();
            }
        }
        if let Some(v) = get_field(&fields, 108) {
            if let Some(hb) = parse_u64(v.as_str()) {
                self.heartbeat_interval = hb;
            }
        }
        if self.ccp_token.as_str().is_empty() {
            if let Some(v) = get_field(&fields, 6386) {
                self.ccp_token = v.clone();
            }
        }
        if self.server_session_id.as_str().is_empty() {
            if let Some(v) = find_session_id(response, &fields) {
                self.server_session_id = v;
            }
        }
        if field_is(&fields, 35, "A") || field_is(&fields, 35, "U") {
            LogonProgress::Done
        } else {
            LogonProgress::More
        }
    }
}

/// What the first answers give is kept: later ones change neither the account, nor the token,
/// nor the session, once they are known.
pub proof fn law_first_answers_are_kept(before: LogonState, response: Seq<u8>, after: LogonState)
    requires
        before.absorbed(response, after),
    ensures
        before.account_id@.len() > 0 ==> after.account_id@ == before.account_id@,
        before.ccp_token@.len() > 0 ==> after.ccp_token@ == before.ccp_token@,
        before.server_session_id@.len() > 0 ==> after.server_session_id@
            == before.server_session_id@,
{
}

// ---------------------------------------------------------------------------------------
// What is asked for after the logon
// ---------------------------------------------------------------------------------------

/// A server request of the given kind: its first fields.
pub open spec fn request_head(now: Seq<char>, kind: Seq<char>) -> Seq<(u32, Seq<char>)> {
    seq![(35u32, "U"@), (52u32, now), (6040u32, kind)]
}

fn request_fields(now: &str, kind: &str) -> (r: Fields)
    ensures
        r@ == request_head(now@, kind@),
{
    let mut f = Fields::new();
    f.put_str(35, "U");
    f.put_str(52, now);
    f.put_str(6040, kind);
    proof {
        assert(f@ =~= request_head(now@, kind@));
    }
    f
}

/// The number of messages that follow a logon.
pub const INIT_MESSAGES: usize = 101;

/// The fields of the `i`-th message that follows a logon.
pub open spec fn init_message(account: Seq<char>, now: Seq<char>, i: int) -> Seq<(
    u32,
    Seq<char>,
)> {
    if i == 0 {
        request_head(now, "91"@) + seq![(1u32, account), (6556u32, "DR.1"@), (6712u32, "1"@)]
    } else if i == 1 {
        request_head(now, "193"@) + seq![(6556u32, "OPR.2"@), (8166u32, "L"@), (8176u32, "1"@)]
    } else if i == 2 {
        request_head(now, "101"@)
    } else if i == 3 {
        request_head(now, "209"@) + seq![(1u32, account), (6556u32, "AcctConfig3"@)]
    } else if i == 4 {
        request_head(now, "72"@) + seq![
            (6536u32, now.take(8) + "-00:00:00"@),
            (6537u32, now),
            (6556u32, "today4"@),
        ]
    } else if i == 5 {
        request_head(now, "74"@) + seq![(1u32, ""@), (6544u32, "2"@)]
    } else if i == 6 {
        request_head(now, "76"@) + seq![(1u32, ""@), (6565u32, "1"@)]
    } else if i == 7 {
        request_head(now, "6"@) + seq![(6036u32, "1"@), (6095u32, account), (6529u32, "AR.3"@)]
    } else if i < 100 {
        request_head(now, "80"@)
    } else {
        seq![(35u32, "H"@), (52u32, now), (11u32, "*"@), (54u32, "*"@), (55u32, "*"@)]
    }
}

/// The fields of the `i`-th message that follows a logon. They are sent in order, the first
/// under sequence number 2.
pub fn init_fields(account: &str, now: &str, i: usize) -> (r: Fields)
    requires
        i < INIT_MESSAGES,
        now@.len() >= 8,
        now.is_ascii(),
    ensures
        r@ == init_message(account@, now@, i as int),
{
    if i == 0 {
        let mut f = request_fields(now, "91");
        f.put_str(1, account);
        f.put_str(6556, "DR.1");
        f.put_str(6712, "1");
        proof {
            assert(f@ =~= init_message(account@, now@, 0));
        }
        f
    } else if i == 1 {
        let mut f = request_fields(now, "193");
        f.put_str(6556, "OPR.2");
        f.put_str(8166, "L");
        f.put_str(8176, "1");
        proof {
            assert(f@ =~= init_message(account@, now@, 1));
        }
        f
    } else if i == 2 {
        request_fields(now, "101")
    } else if i == 3 {
        let mut f = request_fields(now, "209");
        f.put_str(1, account);
        f.put_str(6556, "AcctConfig3");
        proof {
            assert(f@ =~= init_message(account@, now@, 3));
        }
        f
    } else if i == 4 {
        let today = now.substring_ascii(0, 8);
        let mut f = request_fields(now, "72");
        proof {
            assert(today@ =~= now@.take(8));
        }
        f.put(6536, join(today, "-00:00:00"));
        f.put_str(6537, now);
        f.put_str(6556, "today4");
        proof {
            assert(f@ =~= init_message(account@, now@, 4));
        }
        f
    } else if i == 5 {
        let mut f = request_fields(now, "74");
        f.put_str(1, "");
        f.put_str(6544, "2");
        proof {
            assert(f@ =~= init_message(account@, now@, 5));
        }
        f
    } else if i == 6 {
        let mut f = request_fields(now, "76");
        f.put_str(1, "");
        f.put_str(6565, "1");
        proof {
            assert(f@ =~= init_message(account@, now@, 6));
        }
        f
    } else if i == 7 {
        let mut f = request_fields(now, "6");
        f.put_str(6036, "1");
        f.put_str(6095, account);
        f.put_str(6529, "AR.3");
        proof {
            assert(f@ =~= init_message(account@, now@, 7));
        }
        f
    } else if i < 100 {
        request_fields(now, "80")
    } else {
        let mut f = Fields::new();
        f.put_str(35, "H");
        f.put_str(52, now);
        f.put_str(11, "*");
        f.put_str(54, "*");
        f.put_str(55, "*");
        proof {
            assert(f@ =~= init_message(account@, now@, 100));
        }
        f
    }
}

/// Whether a value looks like an account id.
pub open spec fn is_account(value: Seq<char>) -> bool {
    starts_with(value, seq!['D', 'U']) || starts_with(value, seq!['D', 'F']) || starts_with(
        value,
        seq!['U'],
    )
}

/// The account id after reading some of the parts of the data that follows the logon: an
/// account id under tag 1 takes the place of an empty one or of the user name.
pub open spec fn account_after(
    parts: Seq<Seq<char>>,
    account: Seq<char>,
    username: Seq<char>,
) -> Seq<char>
    decreases parts.len(),
{
    if parts.len() == 0 {
        account
    } else {
        let before = account_after(parts.drop_last(), account, username);
        let part = parts.last();
        if starts_with(part, seq!['1', '=']) && is_account(part.skip(2)) && (before.len() == 0
            || before == username) {
            part.skip(2)
        } else {
            before
        }
    }
}

/// Looks for the account id in the data that follows the logon.
pub fn find_account(init_data: &[u8], account_id: &str, username: &str) -> (r: String)
    ensures
        r@ == account_after(split(read_text(init_data@), '\x01'), account_id@, username@),
{
    let text = from_utf8_lossy(init_data);
    let parts = split_text(text.as_str(), '\x01');
    let ghost p = string_texts(parts@);
    let mut account = account_id.to_owned();
    let mut i: usize = 0;
    while i < parts.len()
        invariant
            i <= parts.len(),
            p == string_texts(parts@),
            account@ == account_after(p.take(i as int), account_id@, username@),
        decreases parts.len() - i,
    {
        let chars = chars_of(parts[i].as_str());
        proof {
            assert(p.take(i + 1).drop_last() =~= p.take(i as int));
            assert(p[i as int] == parts@[i as int]@);
            reveal_strlit("1=");
            reveal_strlit("DU");
            reveal_strlit("DF");
            reveal_strlit("U");
            assert("1="@ =~= seq!['1', '=']);
            assert("DU"@ =~= seq!['D', 'U']);
            assert("DF"@ =~= seq!['D', 'F']);
            assert("U"@ =~= seq!['U']);
        }
        if let Some(value) = crate::text::strip_prefix(chars.as_slice(), "1=") {
            let named = crate::text::strip_prefix(value.as_slice(), "DU").is_some()
                || crate::text::strip_prefix(value.as_slice(), "DF").is_some()
                || crate::text::strip_prefix(value.as_slice(), "U").is_some();
            if named && (account.as_str().is_empty() || text_eq(account.as_str(), username)) {
                account = crate::text::text_of(value.as_slice());
            }
        }
        i = i + 1;
    }
    proof {
        assert(p.take(i as int) =~= p);
    }
    account
}

/// A text, or another one in its place when it is empty.
pub fn text_or(text: &str, other: &str) -> (r: String)
    ensures
        r@ == (if text@.len() == 0 {
            other@
        } else {
            text@
        }),
{
    if text.is_empty() {
        other.to_owned()
    } else {
        text.to_owned()
    }
}

// ---------------------------------------------------------------------------------------
// A farm's logon
// ---------------------------------------------------------------------------------------

/// Whether `needle` stands anywhere in `s`.
pub open spec fn holds(s: Seq<u8>, needle: Seq<u8>) -> bool {
    find_from(s, needle, 0) is Some
}

/// The kinds of message that answer a farm logon.
#[derive(Debug, Clone, Copy, PartialEq, Eq, Structural)]
pub enum FarmFrame {
    /// A field message, to be checked and stripped of its signature first when it has one.
    Fix { signed: bool },
    /// The answer to a soft token, and whether it passed.
    SoftToken { passed: bool },
    /// Anything else.
    Other,
}

/// `8=FIX.4.1` and SOH.
pub open spec fn fix_41() -> Seq<u8> {
    seq![56u8, 61, 70, 73, 88, 46, 52, 46, 49, 1]
}

/// The kind of a message that answers a farm logon.
pub open spec fn farm_frame(msg: Seq<u8>) -> FarmFrame {
    if starts_with(msg, fix_41()) {
        FarmFrame::Fix { signed: holds(msg, seq![56u8, 51, 52, 57, 61]) }
    } else if starts_with(msg, seq![56u8, 61, 49, 1]) {
        FarmFrame::SoftToken { passed: holds(msg, seq![80u8, 65, 83, 83, 69, 68]) }
    } else {
        FarmFrame::Other
    }
}

/// Whether `s` starts with `prefix`.
fn has_prefix(s: &[u8], prefix: &[u8]) -> (r: bool)
    ensures
        r == starts_with(s@, prefix@),
{
    proof {
        if prefix@.len() <= s@.len() {
            assert(s@.subrange(0, prefix@.len() as int) =~= s@.take(prefix@.len() as int));
        }
    }
    bytes_at(s, prefix, 0)
}

/// Tells the kind of a message that answers a farm logon.
pub fn farm_frame_kind(msg: &[u8]) -> (r: FarmFrame)
    ensures
        r == farm_frame(msg@),
{
    let fix: [u8; 10] = [56, 61, 70, 73, 88, 46, 52, 46, 49, 1];
    let soft: [u8; 4] = [56, 61, 49, 1];
    let sig: [u8; 5] = [56, 51, 52, 57, 61];
    let passed: [u8; 6] = [80, 65, 83, 83, 69, 68];
    proof {
        assert(fix@ =~= fix_41());
        assert(soft@ =~= seq![56u8, 61, 49, 1]);
        assert(sig@ =~= seq![56u8, 51, 52, 57, 61]);
        assert(passed@ =~= seq![80u8, 65, 83, 83, 69, 68]);
    }
    if has_prefix(msg, &fix) {
        FarmFrame::Fix { signed: find_bytes(msg, &sig, 0).is_some() }
    } else if has_prefix(msg, &soft) {
        FarmFrame::SoftToken { passed: find_bytes(msg, &passed, 0).is_some() }
    } else {
        FarmFrame::Other
    }
}

/// What a field message that answers a farm logon asks for.
pub enum FarmLogonStep {
    /// Decrypt these bytes, and answer with a soft token if they ask for it.
    Decrypt(Vec<u8>),
    /// The encrypted content is not base64 text: the logon fails.
    BadEncoding,
    /// The logon is accepted.
    Accepted,
    /// The logon is refused, with the reason.
    Rejected(String),
    /// Nothing: read on.
    Ignore,
}

/// The encrypted content of a message: under tag 91, or else under tag 96.
pub open spec fn encrypted_content(v: Map<u32, Seq<char>>) -> Option<Seq<char>> {
    match lookup(v, 91) {
        Some(t) => Some(t),
        None => lookup(v, 96),
    }
}

/// What a field message with the values `v` asks for.
pub open spec fn farm_logon_step(v: Map<u32, Seq<char>>, r: FarmLogonStep) -> bool {
    match encrypted_content(v) {
        Some(text) => match base64_bytes(text) {
            Some(bytes) => r matches FarmLogonStep::Decrypt(b) && b@ == bytes,
            None => r is BadEncoding,
        },
        None => if lookup(v, 35) == Some("A"@) {
            r is Accepted
        } else if lookup(v, 35) == Some("3"@) {
            r matches FarmLogonStep::Rejected(reason) && reason@ == (match lookup(v, 58) {
                Some(text) => text,
                None => "unknown"@,
            })
        } else {
            r is Ignore
        },
    }
}

/// Decides what a field message that answers a farm logon, without its signature, asks for.
pub fn read_farm_logon(msg: &[u8]) -> (r: FarmLogonStep)
    ensures
        farm_logon_step(fix_values(msg@), r),
{
    let fields = fix_parse(msg);
    let content = match get_field(&fields, 91) {
        Some(t) => Some(t),
        None => get_field(&fields, 96),
    };
    if let Some(text) = content {
        return match base64_decode(text.as_str()) {
            Some(bytes) => FarmLogonStep::Decrypt(bytes),
            None => FarmLogonStep::BadEncoding,
        };
    }
    if field_is(&fields, 35, "A") {
        FarmLogonStep::Accepted
    } else if field_is(&fields, 35, "3") {
        FarmLogonStep::Rejected(
            match get_field(&fields, 58) {
                Some(text) => text.clone(),
                None => "unknown".to_owned(),
            },
        )
    } else {
        FarmLogonStep::Ignore
    }
}

/// Whether a decrypted message asks for a soft token: it holds `35=S` and SOH.
pub fn asks_soft_token(decrypted: &[u8]) -> (r: bool)
    ensures
        r == holds(decrypted@, seq![51u8, 53, 61, 83, 1]),
{
    let ask: [u8; 5] = [51, 53, 61, 83, 1];
    proof {
        assert(ask@ =~= seq![51u8, 53, 61, 83, 1]);
    }
    find_bytes(decrypted, &ask, 0).is_some()
}

/// Extracts one complete message from a farm's bytes: the message and the number of bytes it
/// takes, or `None` when it is not complete. Bytes that do not start with `8=` give an empty
/// message, and the number of bytes to skip.
pub fn try_frame_farm_msg(buf: &[u8]) -> (r: Option<(Vec<u8>, usize)>)
    ensures
        match r {
            Some((msg, n)) => crate::protocol::fix::first_frame(buf@) == Some((msg@, n as int)) && n
                <= buf@.len(),
            None => crate::protocol::fix::first_frame(buf@) is None,
        },
{
    crate::protocol::fix::try_frame(buf)
}

/// The fields of the request for a farm's routing table.
pub open spec fn routing_request(now: Seq<char>, farm_name: Seq<char>) -> Seq<(u32, Seq<char>)> {
    request_head(now, "112"@).push(
        (
            6556u32,
            if farm_name == "ushmds"@ {
                "2"@
            } else {
                "1"@
            },
        ),
    )
}

/// The fields of the request for a farm's routing table, which follows its logon.
pub fn routing_request_fields(now: &str, farm_name: &str) -> (r: Fields)
    ensures
        r@ == routing_request(now@, farm_name@),
{
    let mut f = request_fields(now, "112");
    f.put_str(
        6556,
        if text_eq(farm_name, "ushmds") {
            "2"
        } else {
            "1"
        },
    );
    f
}

/// The parts of a key block that sign and check a farm's messages.
pub struct FarmKeys {
    pub read_iv: Vec<u8>,
    pub sign_mac_key: Vec<u8>,
    pub read_mac_key: Vec<u8>,
}

/// Cuts a key block of at least 104 bytes into the initial read vector, the signing key and
/// the checking key.
pub fn farm_keys(key_block: &[u8]) -> (r: FarmKeys)
    requires
        key_block@.len() >= 104,
    ensures
        r.read_iv@ == key_block@.subrange(48, 64),
        r.sign_mac_key@ == key_block@.subrange(64, 84),
        r.read_mac_key@ == key_block@.subrange(84, 104),
{
    FarmKeys {
        read_iv: slice_vec(key_block, 48, 64),
        sign_mac_key: slice_vec(key_block, 64, 84),
        read_mac_key: slice_vec(key_block, 84, 104),
    }
}

} // verus!
