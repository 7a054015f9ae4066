//! Text handshake messages: semicolon-delimited fields in a `#%#%` envelope.
//!
//! They open a session, before it changes over to field messages.
use vstd::prelude::*;

use crate::protocol::wire::{
    be32_at, enveloped, envelope, read_be32, unwrapped, FrameError,
};
use crate::text::{
    bytes_eq, chars_of, dec, format_uint, from_utf8, is_digit, lemma_dec_value,
    lemma_int_text_parses, lemma_split_terminated, parse_u32, parsed_int, slice_vec, split,
    split_chars, string_texts, terminated, text_of, texts, views,
};

verus! {

/// The first four bytes of an enveloped message: `#%#%`.
pub const NS_MAGIC: [u8; 4] = [35, 37, 35, 37];

pub const NS_ERROR_RESPONSE: u32 = 519;
pub const NS_AUTH_START: u32 = 520;
pub const NS_CONNECT_REQUEST: u32 = 521;
pub const NS_CONNECT_RESPONSE: u32 = 523;
pub const NS_REDIRECT: u32 = 524;
pub const NS_FIX_START: u32 = 525;
pub const NS_NEWCOMMPORTTYPE: u32 = 526;
pub const NS_BACKUP_HOST: u32 = 527;
pub const NS_MISC_URLS_REQUEST: u32 = 528;
pub const NS_MISC_URLS_RESPONSE: u32 = 529;
pub const NS_SECURE_CONNECT: u32 = 532;
pub const NS_SECURE_CONNECTION_START: u32 = 533;
pub const NS_SECURE_MESSAGE: u32 = 534;
pub const NS_SECURE_ERROR: u32 = 535;

/// The payload of a message: prefix, version, message type and fields.
pub open spec fn ns_text(
    version: u32,
    msg_type: u32,
    fields: Seq<Seq<char>>,
    prefix: Seq<char>,
) -> Seq<char> {
    (prefix + dec(version as nat)).push(';') + dec(msg_type as nat).push(';') + terminated(fields, ';')
}

/// Builds a message in its envelope.
///
/// The payload is `[prefix]{version};{msg_type};{field1};{field2};...;`.
pub fn ns_build(version: u32, msg_type: u32, fields: &[&str], prefix: &str) -> (r: Vec<u8>)
    ensures
        r@ == enveloped(
            vstd::utf8::encode_utf8(ns_text(version, msg_type, texts(fields@), prefix@)),
        ),
{
    let mut payload = prefix.to_owned();
    payload.append(format_uint(version as u64).as_str());
    payload.push(';');
    let mut kind = format_uint(msg_type as u64);
    kind.push(';');
    payload.append(kind.as_str());
    let ghost head = payload@;
    let mut i: usize = 0;
    proof {
        assert(head + terminated(texts(fields@.take(0)), ';') =~= head);
    }
    while i < fields.len()
        invariant
            i <= fields.len(),
            payload@ == head + terminated(texts(fields@.take(i as int)), ';'),
        decreases fields.len() - i,
    {
        payload.append(fields[i]);
        payload.push(';');
        i = i + 1;
        proof {
            let now = texts(fields@.take(i as int));
            assert(now.drop_last() =~= texts(fields@.take(i - 1)));
            assert(payload@ =~= head + terminated(now, ';'));
        }
    }
    proof {
        assert(fields@.take(i as int) =~= fields@);
    }
    envelope(payload.as_str().as_bytes())
}

/// Whether the text starts with `MISC`, in any case.
pub open spec fn has_misc_prefix(t: Seq<char>) -> bool {
    &&& t.len() >= 4
    &&& (t[0] == 'M' || t[0] == 'm')
    &&& (t[1] == 'I' || t[1] == 'i')
    &&& (t[2] == 'S' || t[2] == 's')
    &&& (t[3] == 'C' || t[3] == 'c')
}

/// Whether the text starts with a spelling of `MISC` in which the dotless i (U+0131) and the
/// long s (U+017F) stand side by side, so that the prefix has no end at its fourth byte.
pub open spec fn has_unsplittable_prefix(t: Seq<char>) -> bool {
    &&& t.len() >= 4
    &&& (t[0] == 'M' || t[0] == 'm')
    &&& t[1] as int == 0x131
    &&& t[2] as int == 0x17f
    &&& (t[3] == 'C' || t[3] == 'c')
}

/// The version, message type and fields that a payload's text holds. Empty fields are left
/// out.
pub open spec fn ns_parsed(t: Seq<char>) -> Option<(u32, u32, Seq<Seq<char>>)> {
    let parts = split(if has_misc_prefix(t) { t.skip(4) } else { t }, ';');
    let version = parsed_int(parts[0], 0, u32::MAX as int);
    let msg_type = parsed_int(parts[1], 0, u32::MAX as int);
    if parts.len() < 2 || version is None || msg_type is None {
        None
    } else {
        Some(
            (
                version->0 as u32,
                msg_type->0 as u32,
                parts.skip(2).filter(|p: Seq<char>| p.len() > 0),
            ),
        )
    }
}

/// Parses a payload into its version, message type and remaining fields.
///
/// `None` when the payload is not UTF-8 text, or does not start with two numbers.
pub fn ns_parse(payload: &[u8]) -> (r: Option<(u32, u32, Vec<String>)>)
    requires
        vstd::utf8::valid_utf8(payload@) ==> !has_unsplittable_prefix(
            vstd::utf8::decode_utf8(payload@),
        ),
    ensures
        r is Some <==> vstd::utf8::valid_utf8(payload@) && ns_parsed(
            vstd::utf8::decode_utf8(payload@),
        ) is Some,
        r matches Some((version, msg_type, fields)) ==> ns_parsed(
            vstd::utf8::decode_utf8(payload@),
        ) == Some((version, msg_type, string_texts(fields@))),
{
    let text = match from_utf8(payload) {
        Some(t) => t,
        None => return None,
    };
    let ghost t = text@;
    let mut chars = chars_of(text.as_str());
    if chars.len() >= 4 && (chars[0] == 'M' || chars[0] == 'm') && (chars[1] == 'I' || chars[1]
        == 'i') && (chars[2] == 'S' || chars[2] == 's') && (chars[3] == 'C' || chars[3] == 'c') {
        let rest = chars.split_off(4);
        chars = rest;
        proof {
            assert(chars@ =~= t.skip(4));
        }
    }
    let parts = split_chars(chars.as_slice(), ';');
    let ghost p = views(parts@);
    if parts.len() < 2 {
        return None;
    }
    proof {
        assert(p[0] == parts@[0]@ && p[1] == parts@[1]@);
    }
    let version = match parse_u32(text_of(parts[0].as_slice()).as_str()) {
        Some(v) => v,
        None => return None,
    };
    let msg_type = match parse_u32(text_of(parts[1].as_slice()).as_str()) {
        Some(v) => v,
        None => return None,
    };
    let ghost keep = |q: Seq<char>| q.len() > 0;
    let mut fields: Vec<String> = Vec::new();
    let mut i: usize = 2;
    proof {
        reveal(Seq::filter);
        assert(string_texts(fields@) =~= p.subrange(2, 2).filter(keep));
    }
    while i < parts.len()
        invariant
            2 <= i <= parts.len(),
            p == views(parts@),
            keep == (|q: Seq<char>| q.len() > 0),
            string_texts(fields@) == p.subrange(2, i as int).filter(keep),
        decreases parts.len() - i,
    {
        let ghost before = fields@;
        proof {
            reveal(Seq::filter);
            assert(p.subrange(2, i + 1).drop_last() =~= p.subrange(2, i as int));
            assert(p[i as int] == parts@[i as int]@);
        }
        if parts[i].len() > 0 {
            fields.push(text_of(parts[i].as_slice()));
            proof {
                assert(string_texts(fields@) =~= string_texts(before).push(p[i as int]));
            }
        }
        i = i + 1;
    }
    proof {
        assert(p.subrange(2, i as int) =~= p.skip(2));
    }
    Some((version, msg_type, fields))
}

/// The payload length that an envelope's eight header bytes state.
pub fn ns_payload_len(header: &[u8; 8]) -> (r: Result<u32, FrameError>)
    ensures
        r == (if header@.take(4) == NS_MAGIC@ {
            Ok::<u32, FrameError>(be32_at(header@, 4))
        } else {
            Err(FrameError::BadMagic)
        }),
{
    let magic: [u8; 4] = [header[0], header[1], header[2], header[3]];
    proof {
        assert(magic@ =~= header@.take(4));
    }
    if bytes_eq(&magic, &NS_MAGIC) {
        Ok(read_be32(header, 4))
    } else {
        Err(FrameError::BadMagic)
    }
}

/// Receives the enveloped message at the start of `input`: its payload and the number of
/// bytes that the whole message takes.
pub fn ns_recv(input: &[u8]) -> (r: Result<(Vec<u8>, usize), FrameError>)
    ensures
        match r {
            Ok((payload, total)) => unwrapped(input@) == Ok::<Seq<u8>, FrameError>(payload@)
                && total == payload@.len() + 8,
            Err(e) => unwrapped(input@) == Err::<Seq<u8>, FrameError>(e),
        },
{
    if input.len() < 8 {
        return Err(FrameError::UnexpectedEnd);
    }
    let header: [u8; 8] = [
        input[0],
        input[1],
        input[2],
        input[3],
        input[4],
        input[5],
        input[6],
        input[7],
    ];
    proof {
        assert(header@.take(4) =~= input@.take(4));
    }
    match ns_payload_len(&header) {
        Err(e) => Err(e),
        Ok(n) => {
            if input.len() - 8 < n as usize {
                return Err(FrameError::UnexpectedEnd);
            }
            let end: usize = 8 + n as usize;
            Ok((slice_vec(input, 8, end), end))
        },
    }
}

/// Classifies an enveloped payload: text messages start with an ASCII digit, binary ones do
/// not.
pub fn is_ns_text(payload: &[u8]) -> (r: bool)
    ensures
        r == (payload@.len() > 0 && 48 <= payload@[0] <= 57),
{
    payload.len() > 0 && payload[0] >= 48 && payload[0] <= 57
}

// ---------------------------------------------------------------------------------------
// Round trip
// ---------------------------------------------------------------------------------------

proof fn lemma_number_not_separator(n: nat)
    ensures
        forall|i: int| 0 <= i < dec(n).len() ==> is_digit(#[trigger] dec(n)[i]),
        dec(n).len() > 0,
{
    lemma_dec_value(n);
}

/// Parsing gives back what a message was built from: the version, the message type and those of
/// the fields that are not empty, for fields that hold no semicolon, with no prefix or `MISC`.
pub proof fn law_ns_round_trip(
    version: u32,
    msg_type: u32,
    fields: Seq<Seq<char>>,
    prefix: Seq<char>,
)
    requires
        prefix.len() == 0 || (prefix.len() == 4 && has_misc_prefix(prefix)),
        forall|i: int, j: int|
            0 <= i < fields.len() && 0 <= j < fields[i].len() ==> #[trigger] fields[i][j] != ';',
    ensures
        ns_parsed(ns_text(version, msg_type, fields, prefix)) == Some(
            (version, msg_type, fields.filter(|q: Seq<char>| q.len() > 0)),
        ),
{
    let t = ns_text(version, msg_type, fields, prefix);
    let v = dec(version as nat);
    let k = dec(msg_type as nat);
    lemma_number_not_separator(version as nat);
    lemma_number_not_separator(msg_type as nat);
    let body = v.push(';') + k.push(';') + terminated(fields, ';');
    if prefix.len() == 0 {
        assert(is_digit(v[0]));
        assert(t =~= body);
        assert(t[0] == v[0]);
        assert(!has_misc_prefix(t));
    } else {
        assert(has_misc_prefix(t));
        assert(t.skip(4) =~= body);
    }
    let empty = Seq::<char>::empty();
    let all = seq![v, k] + fields;
    assert forall|i: int, j: int| 0 <= i < all.len() && 0 <= j < all[i].len() implies
        #[trigger] all[i][j] != ';' by {
        if i == 0 {
            assert(is_digit(v[j]));
        } else if i == 1 {
            assert(is_digit(k[j]));
        } else {
            assert(fields[i - 2][j] != ';');
        }
    }
    lemma_terminated_pair(v, k, fields);
    lemma_split_terminated(all, ';');
    let parts = split(body, ';');
    assert(parts =~= seq![v, k] + fields.push(empty));
    lemma_int_text_parses(version as int, 0, u32::MAX as int);
    lemma_int_text_parses(msg_type as int, 0, u32::MAX as int);
    assert(parts.skip(2) =~= fields.push(empty));
    reveal(Seq::filter);
    assert(fields.push(empty).drop_last() =~= fields);
}

proof fn lemma_terminated_pair(v: Seq<char>, k: Seq<char>, fields: Seq<Seq<char>>)
    ensures
        terminated(seq![v, k] + fields, ';') == v.push(';') + k.push(';') + terminated(
            fields,
            ';',
        ),
    decreases fields.len(),
{
    if fields.len() == 0 {
        let one = seq![v];
        let two = seq![v, k];
        assert(two + fields =~= two);
        assert(two.drop_last() =~= one);
        assert(one.drop_last() =~= Seq::<Seq<char>>::empty());
        reveal_with_fuel(terminated, 3);
        assert(terminated(two, ';') =~= v.push(';') + k.push(';') + terminated(fields, ';'));
    } else {
        let all = seq![v, k] + fields;
        lemma_terminated_pair(v, k, fields.drop_last());
        assert(all.drop_last() =~= seq![v, k] + fields.drop_last());
        assert(terminated(all, ';') =~= v.push(';') + k.push(';') + terminated(fields, ';'));
    }
}

} // verus!
