//! Binary authentication messages: a 16-byte header and length-prefixed strings.
//!
//! The header is the version, the message id, a constant 1 and the state, four bytes each.
//! A string is its length in four bytes and its bytes, padded with zeros to a multiple of
//! four.
use vstd::prelude::*;

use crate::protocol::wire::{
    be32, be32_at, enveloped, envelope, lemma_be32, lemma_be32_in, push_be32, read_be32,
    stated_len,
};
use crate::text::{
    append_bytes, from_utf8_lossy, lemma_read_text, read_text, slice_vec, string_texts, text_eq,
    texts,
};

verus! {

pub const XYZ_PROTOCOL_VERSION: u32 = 23;

pub const XYZ_MSG_SRP: u32 = 777;
pub const XYZ_MSG_TOKEN_AUTH: u32 = 771;
pub const XYZ_MSG_SOFT_TOKEN: u32 = 772;

/// `n` zero bytes.
pub open spec fn zeros(n: int) -> Seq<u8> {
    Seq::new(n as nat, |i: int| 0u8)
}

/// The number of zero bytes after a string of `n` bytes.
pub open spec fn padding(n: int) -> int {
    if n % 4 == 0 {
        0
    } else {
        4 - n % 4
    }
}

/// A string's bytes on the wire.
pub open spec fn string_bytes(data: Seq<u8>) -> Seq<u8> {
    be32(stated_len(data)) + data + zeros(padding(data.len() as int))
}

/// The strings of a message on the wire.
pub open spec fn strings_bytes(fields: Seq<Seq<u8>>) -> Seq<u8>
    decreases fields.len(),
{
    if fields.len() == 0 {
        Seq::empty()
    } else {
        strings_bytes(fields.drop_last()) + string_bytes(fields.last())
    }
}

/// The UTF-8 bytes of each text.
pub open spec fn encoded(fields: Seq<Seq<char>>) -> Seq<Seq<u8>> {
    fields.map_values(|f: Seq<char>| vstd::utf8::encode_utf8(f))
}

/// The header of a message.
pub open spec fn xyz_header(version: u32, msg_id: u32, state: u32) -> Seq<u8> {
    be32(version) + be32(msg_id) + be32(1) + be32(state)
}

/// Builds the header of a message.
fn header(version: u32, msg_id: u32, state: u32) -> (r: Vec<u8>)
    ensures
        r@ == xyz_header(version, msg_id, state),
{
    let mut buf: Vec<u8> = Vec::new();
    push_be32(&mut buf, version);
    push_be32(&mut buf, msg_id);
    push_be32(&mut buf, 1);
    push_be32(&mut buf, state);
    proof {
        assert(buf@ =~= xyz_header(version, msg_id, state));
    }
    buf
}

/// Writes a length-prefixed string, padded to a multiple of four bytes.
pub fn xyz_write_string(buf: &mut Vec<u8>, s: &str)
    ensures
        final(buf)@ == old(buf)@ + string_bytes(vstd::utf8::encode_utf8(s@)),
{
    let data = s.as_bytes();
    let n: u64 = data.len() as u64;
    push_be32(buf, (n % 0x1_0000_0000) as u32);
    append_bytes(buf, data);
    let ghost before = buf@;
    let rem: usize = data.len() % 4;
    if rem > 0 {
        let mut k: usize = 0;
        while k < 4 - rem
            invariant
                0 < rem < 4,
                k <= 4 - rem,
                buf@ == before + zeros(k as int),
            decreases 4 - k,
        {
            buf.push(0);
            k = k + 1;
            proof {
                assert(buf@ =~= before + zeros(k as int));
            }
        }
    }
    proof {
        assert(buf@ =~= old(buf)@ + string_bytes(data@));
    }
}

/// Builds a binary message with a user name and fields.
pub fn xyz_build(msg_id: u32, state: u32, username: &str, fields: &[&str]) -> (r: Vec<u8>)
    ensures
        r@ == xyz_header(XYZ_PROTOCOL_VERSION, msg_id, state) + strings_bytes(
            encoded(seq![username@] + texts(fields@)),
        ),
{
    let mut buf = header(XYZ_PROTOCOL_VERSION, msg_id, state);
    let ghost head = buf@;
    xyz_write_string(&mut buf, username);
    let mut i: usize = 0;
    proof {
        lemma_strings_one(username@);
        assert(seq![username@] + texts(fields@.take(0)) =~= seq![username@]);
    }
    while i < fields.len()
        invariant
            i <= fields.len(),
            buf@ == head + strings_bytes(encoded(seq![username@] + texts(fields@.take(i as int)))),
        decreases fields.len() - i,
    {
        let ghost done = seq![username@] + texts(fields@.take(i as int));
        xyz_write_string(&mut buf, fields[i]);
        i = i + 1;
        proof {
            lemma_strings_push(done, fields@[i - 1]@);
            assert(seq![username@] + texts(fields@.take(i as int)) =~= done.push(fields@[i - 1]@));
            assert(buf@ =~= head + strings_bytes(encoded(done.push(fields@[i - 1]@))));
        }
    }
    proof {
        assert(fields@.take(i as int) =~= fields@);
    }
    buf
}

proof fn lemma_strings_push(done: Seq<Seq<char>>, f: Seq<char>)
    ensures
        strings_bytes(encoded(done.push(f))) == strings_bytes(encoded(done)) + string_bytes(
            vstd::utf8::encode_utf8(f),
        ),
{
    assert(encoded(done.push(f)).drop_last() =~= encoded(done));
}

proof fn lemma_strings_one(f: Seq<char>)
    ensures
        strings_bytes(encoded(seq![f])) == string_bytes(vstd::utf8::encode_utf8(f)),
{
    let none = Seq::<Seq<char>>::empty();
    lemma_strings_push(none, f);
    assert(none.push(f) =~= seq![f]);
    assert(strings_bytes(encoded(none)) =~= Seq::<u8>::empty());
    assert(Seq::<u8>::empty() + string_bytes(vstd::utf8::encode_utf8(f)) =~= string_bytes(
        vstd::utf8::encode_utf8(f),
    ));
}

/// Wraps a binary payload in the `#%#%` envelope.
pub fn xyz_wrap(payload: &[u8]) -> (r: Vec<u8>)
    ensures
        r@ == enveloped(payload@),
{
    envelope(payload)
}

/// The strings in `s`, from position `i` on. A string whose bytes are not all there reads as
/// empty, and is the last.
pub open spec fn strings_from(s: Seq<u8>, i: int) -> Seq<Seq<char>>
    decreases (if i > s.len() { 0 } else { s.len() - i }),
{
    if i < 0 || i + 4 > s.len() {
        Seq::empty()
    } else {
        let n = be32_at(s, i) as int;
        let end = i + 4 + n;
        let text = if 0 < n && end <= s.len() {
            read_text(s.subrange(i + 4, end))
        } else {
            Seq::empty()
        };
        seq![text] + strings_from(s, end + padding(n))
    }
}

/// Parses a binary response into its message id, constant, state and strings. `None` when it
/// is shorter than the header.
pub fn xyz_parse_response(payload: &[u8]) -> (r: Option<(u32, u32, u32, Vec<String>)>)
    ensures
        r is None <==> payload@.len() < 16,
        r matches Some((msg_id, sub_id, state, fields)) ==> {
            &&& msg_id == be32_at(payload@, 4)
            &&& sub_id == be32_at(payload@, 8)
            &&& state == be32_at(payload@, 12)
            &&& string_texts(fields@) == strings_from(payload@, 16)
        },
{
    if payload.len() < 16 {
        return None;
    }
    let msg_id = read_be32(payload, 4);
    let sub_id = read_be32(payload, 8);
    let state = read_be32(payload, 12);
    let mut fields: Vec<String> = Vec::new();
    let mut offset: usize = 16;
    let mut done: bool = false;
    proof {
        assert(string_texts(fields@) + strings_from(payload@, 16) =~= strings_from(payload@, 16));
    }
    while !done && payload.len() - offset >= 4
        invariant
            offset <= payload.len(),
            !done ==> string_texts(fields@) + strings_from(payload@, offset as int)
                == strings_from(payload@, 16),
            done ==> string_texts(fields@) == strings_from(payload@, 16),
        decreases (if done { 0 } else { 1 + payload.len() - offset }),
    {
        let ghost before = fields@;
        let ghost start = offset as int;
        let slen: usize = read_be32(payload, offset) as usize;
        let ghost n = be32_at(payload@, start) as int;
        offset = offset + 4;
        if slen > payload.len() - offset {
            fields.push(String::new());
            done = true;
            proof {
                assert(strings_from(payload@, start + 4 + n + padding(n)) =~= Seq::empty());
                assert(string_texts(fields@) =~= string_texts(before) + strings_from(
                    payload@,
                    start,
                ));
            }
        } else {
            if slen > 0 {
                let piece = slice_vec(payload, offset, offset + slen);
                fields.push(from_utf8_lossy(piece.as_slice()));
            } else {
                fields.push(String::new());
            }
            offset = offset + slen;
            let rem: usize = slen % 4;
            let pad: usize = if rem > 0 { 4 - rem } else { 0 };
            let ghost next = start + 4 + n + padding(n);
            proof {
                assert(next == offset + pad);
                assert(string_texts(fields@) + strings_from(payload@, next) =~= string_texts(before)
                    + strings_from(payload@, start));
            }
            if pad > payload.len() - offset {
                done = true;
                proof {
                    assert(strings_from(payload@, next) =~= Seq::empty());
                    assert(string_texts(fields@) =~= string_texts(fields@) + strings_from(
                        payload@,
                        next,
                    ));
                }
            } else {
                offset = offset + pad;
            }
        }
    }
    proof {
        if !done {
            assert(strings_from(payload@, offset as int) =~= Seq::empty());
            assert(string_texts(fields@) + Seq::empty() =~= string_texts(fields@));
        }
    }
    Some((msg_id, sub_id, state, fields))
}

/// The names of the authentication fields, in the order in which they are sent.
pub open spec fn srp_names() -> Seq<Seq<char>> {
    seq![
        seq!['H'],
        seq!['I'],
        seq!['J'],
        seq!['K'],
        seq!['L'],
        seq!['M'],
        seq!['N'],
        seq!['O'],
        seq!['P'],
    ]
}

/// The value of the first pair whose name is `name`, or the empty text.
pub open spec fn named_value(pairs: Seq<(&str, &str)>, name: Seq<char>) -> Seq<char>
    decreases pairs.len(),
{
    if pairs.len() == 0 {
        Seq::empty()
    } else if pairs[0].0@ == name {
        pairs[0].1@
    } else {
        named_value(pairs.skip(1), name)
    }
}

/// The fields of an authentication message: an empty user name and the named values.
pub open spec fn srp_fields(pairs: Seq<(&str, &str)>) -> Seq<Seq<char>> {
    seq![Seq::<char>::empty()] + srp_names().map_values(|n: Seq<char>| named_value(pairs, n))
}

/// Appends the value of the first pair whose name is the one character `name`.
fn write_named(buf: &mut Vec<u8>, named_fields: &[(&str, &str)], name: &str)
    ensures
        final(buf)@ == old(buf)@ + string_bytes(
            vstd::utf8::encode_utf8(named_value(named_fields@, name@)),
        ),
{
    let mut i: usize = 0;
    proof {
        assert(named_fields@.skip(0) =~= named_fields@);
    }
    while i < named_fields.len()
        invariant
            i <= named_fields.len(),
            buf@ == old(buf)@,
            named_value(named_fields@.skip(i as int), name@) == named_value(named_fields@, name@),
        decreases named_fields.len() - i,
    {
        if text_eq(named_fields[i].0, name) {
            xyz_write_string(buf, named_fields[i].1);
            return ;
        }
        proof {
            assert(named_fields@.skip(i as int).skip(1) =~= named_fields@.skip(i + 1));
        }
        i = i + 1;
    }
    proof {
        reveal_strlit("");
        assert(""@ =~= named_value(named_fields@, name@));
    }
    xyz_write_string(buf, "");
}

/// Builds a password-authentication message in the version 20 format, which carries the named
/// fields H to P.
pub fn xyz_build_srp_v20(state: u32, named_fields: &[(&str, &str)]) -> (r: Vec<u8>)
    ensures
        r@ == xyz_header(20, XYZ_MSG_SRP, state) + strings_bytes(
            encoded(srp_fields(named_fields@)),
        ),
{
    let mut buf = header(20, XYZ_MSG_SRP, state);
    let ghost head = buf@;
    xyz_write_string(&mut buf, "");
    let names: [&str; 9] = ["H", "I", "J", "K", "L", "M", "N", "O", "P"];
    let ghost all = srp_fields(named_fields@);
    proof {
        reveal_strlit("");
        reveal_strlit("H");
        reveal_strlit("I");
        reveal_strlit("J");
        reveal_strlit("K");
        reveal_strlit("L");
        reveal_strlit("M");
        reveal_strlit("N");
        reveal_strlit("O");
        reveal_strlit("P");
        assert(""@ =~= Seq::<char>::empty());
        assert(names@[0]@ =~= srp_names()[0]);
        assert(names@[1]@ =~= srp_names()[1]);
        assert(names@[2]@ =~= srp_names()[2]);
        assert(names@[3]@ =~= srp_names()[3]);
        assert(names@[4]@ =~= srp_names()[4]);
        assert(names@[5]@ =~= srp_names()[5]);
        assert(names@[6]@ =~= srp_names()[6]);
        assert(names@[7]@ =~= srp_names()[7]);
        assert(names@[8]@ =~= srp_names()[8]);
        assert forall|i: int| 0 <= i < 9 implies #[trigger] names@[i]@ == srp_names()[i] by {}
        lemma_strings_one(Seq::empty());
        assert(all.take(1) =~= seq![Seq::<char>::empty()]);
    }
    let mut k: usize = 0;
    while k < 9
        invariant
            k <= 9,
            names@.len() == 9,
            all == srp_fields(named_fields@),
            all.len() == 10,
            forall|i: int| 0 <= i < 9 ==> #[trigger] names@[i]@ == srp_names()[i],
            buf@ == head + strings_bytes(encoded(all.take(k + 1))),
        decreases 9 - k,
    {
        write_named(&mut buf, named_fields, names[k]);
        proof {
            lemma_strings_push(all.take(k + 1), all[k + 1]);
            assert(all.take(k + 2) =~= all.take(k + 1).push(all[k + 1]));
            assert(names@[k as int]@ == srp_names()[k as int]);
            assert(all[k + 1] == named_value(named_fields@, names@[k as int]@));
            assert(buf@ =~= head + strings_bytes(encoded(all.take(k + 2))));
        }
        k = k + 1;
    }
    proof {
        assert(all.take(10) =~= all);
    }
    buf
}

/// Builds a soft-token message.
pub fn xyz_build_soft_token(state: u32, x: &str, y: &str, z: &str) -> (r: Vec<u8>)
    ensures
        r@ == xyz_header(XYZ_PROTOCOL_VERSION, XYZ_MSG_SOFT_TOKEN, state) + strings_bytes(
            encoded(seq![Seq::<char>::empty(), x@, y@, z@]),
        ),
{
    let fields: [&str; 3] = [x, y, z];
    proof {
        reveal_strlit("");
        assert(""@ =~= Seq::<char>::empty());
        assert(seq![""@] + texts(fields@) =~= seq![Seq::<char>::empty(), x@, y@, z@]);
    }
    xyz_build(XYZ_MSG_SOFT_TOKEN, state, "", &fields)
}

// ---------------------------------------------------------------------------------------
// Round trip
// ---------------------------------------------------------------------------------------

/// Strings written one after the other read back as they were, each shorter than 2^32 bytes.
pub proof fn law_strings_round_trip(head: Seq<u8>, fields: Seq<Seq<char>>)
    requires
        forall|i: int|
            0 <= i < fields.len() ==> vstd::utf8::encode_utf8(#[trigger] fields[i]).len()
                < 0x1_0000_0000,
    ensures
        strings_from(head + strings_bytes(encoded(fields)), head.len() as int) == fields,
    decreases fields.len(),
{
    let s = head + strings_bytes(encoded(fields));
    let h = head.len() as int;
    if fields.len() == 0 {
        assert(strings_from(s, h) =~= fields);
    } else {
        let first = vstd::utf8::encode_utf8(fields[0]);
        let n = first.len() as int;
        let rest = fields.skip(1);
        lemma_strings_first(encoded(fields));
        assert(encoded(fields).skip(1) =~= encoded(rest));
        let one = string_bytes(first);
        let head2 = head + one;
        assert(s =~= head2 + strings_bytes(encoded(rest)));
        lemma_be32(stated_len(first));
        assert(s.subrange(h, h + 4) =~= be32(stated_len(first)));
        lemma_be32_in(s, h, stated_len(first));
        assert(be32_at(s, h) == n);
        assert(s.subrange(h + 4, h + 4 + n) =~= first);
        law_strings_round_trip(head2, rest);
        assert(head2.len() == h + 4 + n + padding(n));
        lemma_read_text(fields[0]);
        vstd::utf8::encode_utf8_decode_utf8(fields[0]);
        if n == 0 {
            assert(first =~= Seq::<u8>::empty());
            assert(fields[0] =~= Seq::<char>::empty());
        }
        assert(strings_from(s, h) =~= fields);
    }
}

proof fn lemma_strings_first(fields: Seq<Seq<u8>>)
    requires
        fields.len() > 0,
    ensures
        strings_bytes(fields) == string_bytes(fields[0]) + strings_bytes(fields.skip(1)),
    decreases fields.len(),
{
    let rest = fields.skip(1);
    if fields.len() == 1 {
        assert(strings_bytes(fields.drop_last()) =~= Seq::empty());
        assert(strings_bytes(rest) =~= Seq::empty());
        assert(strings_bytes(fields) =~= string_bytes(fields[0]));
        assert(string_bytes(fields[0]) + strings_bytes(rest) =~= string_bytes(fields[0]));
    } else {
        lemma_strings_first(fields.drop_last());
        assert(fields.drop_last().skip(1) =~= rest.drop_last());
        assert(strings_bytes(fields) =~= string_bytes(fields[0]) + strings_bytes(rest));
    }
}

/// Parsing gives back what a message was built from: the message id, the state, and the user
/// name and fields, for texts of less than 2^32 bytes.
pub proof fn law_xyz_round_trip(version: u32, msg_id: u32, state: u32, fields: Seq<Seq<char>>)
    requires
        forall|i: int|
            0 <= i < fields.len() ==> vstd::utf8::encode_utf8(#[trigger] fields[i]).len()
                < 0x1_0000_0000,
    ensures
        ({
            let m = xyz_header(version, msg_id, state) + strings_bytes(encoded(fields));
            &&& m.len() >= 16
            &&& be32_at(m, 4) == msg_id
            &&& be32_at(m, 8) == 1
            &&& be32_at(m, 12) == state
            &&& strings_from(m, 16) == fields
        }),
{
    let head = xyz_header(version, msg_id, state);
    let m = head + strings_bytes(encoded(fields));
    lemma_be32(version);
    lemma_be32(msg_id);
    lemma_be32(1);
    lemma_be32(state);
    assert(head.len() == 16);
    assert(m.subrange(4, 8) =~= be32(msg_id));
    assert(m.subrange(8, 12) =~= be32(1));
    assert(m.subrange(12, 16) =~= be32(state));
    lemma_be32_in(m, 4, msg_id);
    lemma_be32_in(m, 8, 1);
    lemma_be32_in(m, 12, state);
    law_strings_round_trip(head, fields);
}

} // verus!
