//! What a built message looks like on the wire.
use vstd::prelude::*;

use crate::protocol::fix::{
    byte_sum, fields_bytes, fix_message, header_bytes, numbered, trailer_bytes,
};
use crate::protocol::ns::{ns_text, NS_MAGIC};
use crate::protocol::wire::{be32, enveloped, stated_len};
use crate::protocol::xyz::{string_bytes, xyz_header};
use crate::text::{
    ascii, dec, dec_fixed, dec_padded, is_digit, lemma_fixed_digits, lemma_padded_digits,
    lemma_padded_value, terminated, value_of,
};

verus! {

// ---------------------------------------------------------------------------------------
// Envelopes
// ---------------------------------------------------------------------------------------

/// A number stands in four bytes with the most significant one first.
pub proof fn law_bytes_are_most_significant_first(n: u32)
    ensures
        be32(n).len() == 4,
        be32(n)[0] * 16777216 + be32(n)[1] * 65536 + be32(n)[2] * 256 + be32(n)[3] == n,
{
    assert(((n >> 24) & 0xff) as u8 == n / 16777216) by (bit_vector);
    assert(((n >> 16) & 0xff) as u8 == (n / 65536) % 256) by (bit_vector);
    assert(((n >> 8) & 0xff) as u8 == (n / 256) % 256) by (bit_vector);
    assert((n & 0xff) as u8 == n % 256) by (bit_vector);
}

/// A payload travels behind `#%#%` and its length in four bytes.
pub proof fn law_envelope_states_the_length(payload: Seq<u8>)
    requires
        payload.len() < 0x1_0000_0000,
    ensures
        ({
            let m = enveloped(payload);
            &&& m.len() == payload.len() + 8
            &&& m.take(4) == seq![35u8, 37, 35, 37]
            &&& m[4] * 16777216 + m[5] * 65536 + m[6] * 256 + m[7] == payload.len()
            &&& m.skip(8) == payload
        }),
{
    let m = enveloped(payload);
    let n = stated_len(payload);
    law_bytes_are_most_significant_first(n);
    assert(NS_MAGIC@.len() == 4);
    assert(NS_MAGIC@ =~= seq![35u8, 37, 35, 37]);
    assert(m.take(4) =~= seq![35u8, 37, 35, 37]);
    assert(m[4] == be32(n)[0] && m[5] == be32(n)[1] && m[6] == be32(n)[2] && m[7] == be32(n)[3]);
    assert(m.skip(8) =~= payload);
}

/// A handshake message is its prefix, its version, its type and its fields, each with a semicolon
/// behind it.
pub proof fn law_handshake_text(version: u32, kind: u32, a: Seq<char>, b: Seq<char>, prefix: Seq<char>)
    ensures
        ns_text(version, kind, seq![a, b], prefix) == prefix + dec(version as nat) + ";"@ + dec(
            kind as nat,
        ) + ";"@ + a + ";"@ + b + ";"@,
        ns_text(version, kind, Seq::empty(), prefix) == prefix + dec(version as nat) + ";"@ + dec(
            kind as nat,
        ) + ";"@,
{
    reveal_strlit(";");
    assert(";"@ =~= seq![';']);
    reveal_with_fuel(terminated, 3);
    let none = Seq::<Seq<char>>::empty();
    assert(seq![a, b].drop_last() =~= seq![a]);
    assert(seq![a].drop_last() =~= none);
    assert(terminated(none, ';') =~= Seq::<char>::empty());
    assert(terminated(seq![a], ';') =~= a + ";"@);
    assert(terminated(seq![a, b], ';') =~= a + ";"@ + b + ";"@);
    assert(ns_text(version, kind, seq![a, b], prefix) =~= prefix + dec(version as nat) + ";"@ + dec(
        kind as nat,
    ) + ";"@ + a + ";"@ + b + ";"@);
    assert(ns_text(version, kind, none, prefix) =~= prefix + dec(version as nat) + ";"@ + dec(
        kind as nat,
    ) + ";"@);
}

/// A string of an authentication message is its length in four bytes, its bytes, and zeros up to
/// a multiple of four bytes.
pub proof fn law_string_is_padded(data: Seq<u8>)
    requires
        data.len() < 0x1_0000_0000,
    ensures
        ({
            let m = string_bytes(data);
            let n = data.len() as int;
            &&& m[0] * 16777216 + m[1] * 65536 + m[2] * 256 + m[3] == n
            &&& m.subrange(4, 4 + n) == data
            &&& m.len() % 4 == 0
            &&& m.len() < n + 8
            &&& forall|i: int| 4 + n <= i < m.len() ==> #[trigger] m[i] == 0
        }),
{
    let m = string_bytes(data);
    let len = stated_len(data);
    law_bytes_are_most_significant_first(len);
    assert(m[0] == be32(len)[0] && m[1] == be32(len)[1] && m[2] == be32(len)[2] && m[3] == be32(
        len,
    )[3]);
    assert(m.subrange(4, 4 + data.len() as int) =~= data);
}

/// The header of an authentication message is its version, its id, a 1 and its state, in four
/// bytes each.
pub proof fn law_header_layout(version: u32, msg_id: u32, state: u32)
    ensures
        ({
            let m = xyz_header(version, msg_id, state);
            &&& m.len() == 16
            &&& m[0] * 16777216 + m[1] * 65536 + m[2] * 256 + m[3] == version
            &&& m[4] * 16777216 + m[5] * 65536 + m[6] * 256 + m[7] == msg_id
            &&& m[8] == 0 && m[9] == 0 && m[10] == 0 && m[11] == 1
            &&& m[12] * 16777216 + m[13] * 65536 + m[14] * 256 + m[15] == state
        }),
{
    law_bytes_are_most_significant_first(version);
    law_bytes_are_most_significant_first(msg_id);
    law_bytes_are_most_significant_first(1);
    law_bytes_are_most_significant_first(state);
    let m = xyz_header(version, msg_id, state);
    let one = be32(1);
    assert(m[8] == one[0] && m[9] == one[1] && m[10] == one[2] && m[11] == one[3]);
}

// ---------------------------------------------------------------------------------------
// Field messages
// ---------------------------------------------------------------------------------------

/// The sum of bytes.
pub open spec fn byte_total(s: Seq<u8>) -> int
    decreases s.len(),
{
    if s.len() == 0 {
        0
    } else {
        s[0] + byte_total(s.skip(1))
    }
}

proof fn lemma_total_push(s: Seq<u8>, b: u8)
    ensures
        byte_total(s.push(b)) == byte_total(s) + b,
    decreases s.len(),
{
    reveal_with_fuel(byte_total, 2);
    if s.len() > 0 {
        lemma_total_push(s.skip(1), b);
        assert(s.push(b).skip(1) =~= s.skip(1).push(b));
    } else {
        assert(s.push(b).skip(1) =~= s);
    }
}

proof fn lemma_sum_is_total(s: Seq<u8>)
    ensures
        byte_sum(s) == byte_total(s) % 256,
    decreases s.len(),
{
    if s.len() > 0 {
        lemma_sum_is_total(s.drop_last());
        lemma_total_push(s.drop_last(), s.last());
        assert(s.drop_last().push(s.last()) =~= s);
        assert((byte_total(s.drop_last()) % 256 + s.last()) % 256 == (byte_total(s.drop_last())
            + s.last()) % 256);
    }
}

proof fn lemma_three_digits(n: nat)
    requires
        n < 1000,
    ensures
        dec_fixed(n, 3).len() == 3,
        ascii(dec_fixed(n, 3)).len() == 3,
        (ascii(dec_fixed(n, 3))[0] - 48) * 100 + (ascii(dec_fixed(n, 3))[1] - 48) * 10 + (ascii(
            dec_fixed(n, 3),
        )[2] - 48) == n,
{
    lemma_fixed_digits(n, 3);
    reveal_with_fuel(dec_fixed, 4);
    let t = dec_fixed(n, 3);
    assert(t[2] == crate::text::digit((n % 10) as int));
    assert(t[1] == crate::text::digit(((n / 10) % 10) as int));
    assert(t[0] == crate::text::digit(((n / 10 / 10) % 10) as int));
    assert(is_digit(t[0]) && is_digit(t[1]) && is_digit(t[2]));
    assert(n / 10 / 10 < 10);
}

/// A built message starts with `8=FIX.4.1`; then stand the length of its body in four digits or
/// more, and its body; it ends with the sum of all bytes before the last field, modulo 256, in
/// three digits behind `10=`.
pub proof fn law_message_states_its_length_and_sum(fields: Seq<(u32, Seq<char>)>, seq: u32)
    ensures
        ({
            let m = fix_message(fields, seq);
            let body = fields_bytes(numbered(fields, seq));
            let digits = dec_padded(body.len(), 4);
            let n = m.len();
            let k = 13 + digits.len();
            &&& n == k + body.len() + 7
            &&& m.subrange(0, 12) == seq![56u8, 61, 70, 73, 88, 46, 52, 46, 49, 1, 57, 61]
            &&& m.subrange(12, k - 1) == ascii(digits)
            &&& value_of(digits) == body.len()
            &&& digits.len() >= 4
            &&& m[k - 1] == 1
            &&& m.subrange(k as int, n - 7) == body
            &&& m.subrange(n - 7, n - 4) == seq![49u8, 48, 61]
            &&& (m[n - 4] - 48) * 100 + (m[n - 3] - 48) * 10 + (m[n - 2] - 48) == byte_total(
                m.take(n - 7),
            ) % 256
            &&& m[n - 1] == 1
        }),
{
    let m = fix_message(fields, seq);
    let body = fields_bytes(numbered(fields, seq));
    let digits = dec_padded(body.len(), 4);
    let head = header_bytes(body.len()) + body;
    let n = m.len() as int;
    let k = 13 + digits.len();
    lemma_padded_digits(body.len(), 4);
    lemma_padded_value(body.len(), 4);
    assert(header_bytes(body.len()).len() == k);
    lemma_sum_is_total(head);
    let sum = byte_sum(head);
    lemma_three_digits(sum as nat);
    let t = trailer_bytes(head);
    assert(t.len() == 7);
    assert(m == head + t);
    assert(m.take(n - 7) =~= head);
    assert(m.subrange(0, 12) =~= seq![56u8, 61, 70, 73, 88, 46, 52, 46, 49, 1, 57, 61]);
    assert(m.subrange(12, k - 1) =~= ascii(digits));
    assert(m.subrange(k as int, n - 7) =~= body);
    assert(m.subrange(n - 7, n - 4) =~= seq![49u8, 48, 61]);
    let d = ascii(dec_fixed(sum as nat, 3));
    assert(m[n - 4] == d[0] && m[n - 3] == d[1] && m[n - 2] == d[2]);
}

/// The body of a message holds its first field, then the sequence number in six digits or more
/// under tag 34, then the other fields in order.
pub proof fn law_body_holds_the_sequence_number(fields: Seq<(u32, Seq<char>)>, seq: u32)
    requires
        fields.len() > 0,
    ensures
        ({
            let all = numbered(fields, seq);
            &&& all.len() == fields.len() + 1
            &&& all[0] == fields[0]
            &&& all[1].0 == 34
            &&& value_of(all[1].1) == seq
            &&& all[1].1.len() >= 6
            &&& forall|i: int| 1 <= i < fields.len() ==> #[trigger] all[i + 1] == fields[i]
        }),
{
    lemma_padded_digits(seq as nat, 6);
    lemma_padded_value(seq as nat, 6);
}

} // verus!
