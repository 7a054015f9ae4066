//! What a session says and hears while it is set up.
use vstd::prelude::*;

use crate::engine::hot_loop::exec_ids::{hex_number, hex_value, is_hex};
use crate::engine::hot_loop::placing_laws::{lemma_one_field, says};
use crate::gateway::{
    account_after, connect_request, farm_frame, init_message, is_account, message_parts,
    message_type, new_comm_port, post_auth_step, routing_request, short_form, stripped, FarmFrame,
    PostAuthStep,
};
use crate::protocol::wire::{be32_at, from_be32};
use crate::protocol::xyz::{named_value, srp_fields};
use crate::text::{
    dec, find_from, hex, lemma_dec_value, lemma_int_text_parses, lemma_read_text,
    lemma_split_append_piece, lemma_split_nonempty, split, starts_with, terminated,
};

verus! {

// ---------------------------------------------------------------------------------------
// The handshake
// ---------------------------------------------------------------------------------------

proof fn lemma_terminated_push(pieces: Seq<Seq<char>>, last: Seq<char>)
    ensures
        terminated(pieces.push(last), ';') == terminated(pieces, ';') + last + seq![';'],
{
    assert(pieces.push(last).drop_last() =~= pieces);
    assert(terminated(pieces.push(last), ';') =~= terminated(pieces, ';') + last + seq![';']);
}

/// A request to connect states the versions that are spoken, its type 521, the name of the user
/// with an `S` before that of a paper account, the flags, the hardware and the session, each with
/// a semicolon behind it.
pub proof fn law_connect_request_text(
    username: Seq<char>,
    paper: bool,
    flags: u32,
    hw: Seq<char>,
    session: Seq<char>,
    encoded: Seq<char>,
)
    ensures
        connect_request(username, paper, flags, hw, session, encoded) == dec(38) + seq![';'] + dec(
            521,
        ) + seq![';'] + (if paper {
            seq!['S'] + username
        } else {
            username
        }) + seq![';'] + dec(flags as nat) + seq![';'] + dec(50) + seq![';'] + "27"@ + seq![';'] + hw
            + seq![';'] + session + seq![';'] + encoded + seq![';'],
{
    let name = if paper {
        seq!['S'] + username
    } else {
        username
    };
    let p0 = Seq::<Seq<char>>::empty();
    let p1 = p0.push(dec(38));
    let p2 = p1.push(dec(521));
    let p3 = p2.push(name);
    let p4 = p3.push(dec(flags as nat));
    let p5 = p4.push(dec(50));
    let p6 = p5.push("27"@);
    let p7 = p6.push(hw);
    let p8 = p7.push(session);
    let p9 = p8.push(encoded);
    lemma_terminated_push(p0, dec(38));
    lemma_terminated_push(p1, dec(521));
    lemma_terminated_push(p2, name);
    lemma_terminated_push(p3, dec(flags as nat));
    lemma_terminated_push(p4, dec(50));
    lemma_terminated_push(p5, "27"@);
    lemma_terminated_push(p6, hw);
    lemma_terminated_push(p7, session);
    lemma_terminated_push(p8, encoded);
    assert(p9 =~= seq![
        dec(38),
        dec(521),
        name,
        dec(flags as nat),
        dec(50),
        "27"@,
        hw,
        session,
        encoded,
    ]);
    let none = Seq::<char>::empty();
    assert(terminated(p0, ';') =~= none);
    assert(none + dec(38) =~= dec(38));
}

proof fn lemma_split_head(a: Seq<char>, b: Seq<char>, i: int)
    requires
        0 <= i < split(a, ';').len() - 1,
    ensures
        split(a + b, ';').len() >= split(a, ';').len(),
        split(a + b, ';')[i] == split(a, ';')[i],
    decreases b.len(),
{
    if b.len() == 0 {
        assert(a + b =~= a);
    } else {
        let c = b.drop_last();
        lemma_split_head(a, c, i);
        lemma_split_nonempty(a + c, ';');
        assert((a + b).drop_last() =~= a + c);
        assert((a + b).last() == b.last());
    }
}

/// The type of a handshake message is the number between its first two semicolons, whatever
/// follows.
pub proof fn law_message_type_is_read(version: u32, kind: u32, rest: Seq<char>)
    ensures
        message_type(
            message_parts(
                vstd::utf8::encode_utf8(
                    dec(version as nat) + seq![';'] + dec(kind as nat) + seq![';'] + rest,
                ),
            ),
        ) == kind,
{
    let a = dec(version as nat);
    let b = dec(kind as nat);
    let none = Seq::<char>::empty();
    lemma_dec_value(version as nat);
    lemma_dec_value(kind as nat);
    assert forall|i: int| 0 <= i < a.len() implies #[trigger] a[i] != ';' by {
        assert(crate::text::is_digit(a[i]));
    }
    assert forall|i: int| 0 <= i < b.len() implies #[trigger] b[i] != ';' by {
        assert(crate::text::is_digit(b[i]));
    }
    lemma_split_append_piece(none, a, ';');
    assert(none + a =~= a);
    assert(split(none, ';') =~= seq![none]);
    assert(split(a, ';') =~= seq![a]);
    let s1 = a + seq![';'];
    assert(s1.drop_last() =~= a);
    assert(split(s1, ';') =~= seq![a, none]);
    lemma_split_append_piece(s1, b, ';');
    assert(none + b =~= b);
    assert(split(s1 + b, ';') =~= seq![a, b]);
    let s2 = s1 + b + seq![';'];
    assert(s2.drop_last() =~= s1 + b);
    assert(split(s2, ';') =~= seq![a, b, none]);
    lemma_split_head(s2, rest, 1);
    lemma_read_text(s2 + rest);
    lemma_int_text_parses(kind as int, 0, u32::MAX as int);
}

/// After the connect response a new port type is sent; the start of field messages ends the
/// handshake; an error response is an error; anything else is passed over.
pub proof fn law_handshake_step(inner: Seq<u8>, r: PostAuthStep)
    requires
        post_auth_step(inner, r),
    ensures
        ({
            let t = message_type(message_parts(inner));
            &&& t == 523 ==> r is Reply && r->Reply_0@ == dec(38) + seq![';'] + dec(526) + seq![';']
                + "0;;2;0;"@
            &&& t == 525 ==> r is FixStart
            &&& t == 519 ==> r is Error
            &&& t != 523 && t != 525 && t != 519 ==> r is Ignore
        }),
{
    assert(new_comm_port() =~= dec(38) + seq![';'] + dec(526) + seq![';'] + "0;;2;0;"@);
}

/// The account is the first id that follows the logon under tag 1, when the logon gave none but
/// the name of the user.
pub proof fn law_first_account_is_taken(
    parts: Seq<Seq<char>>,
    account: Seq<char>,
    username: Seq<char>,
    id: Seq<char>,
    i: int,
)
    requires
        account.len() == 0 || account == username,
        0 <= i < parts.len(),
        parts[i] == seq!['1', '='] + id,
        starts_with(id, seq!['D', 'U']) || starts_with(id, seq!['D', 'F']) || starts_with(
            id,
            seq!['U'],
        ),
        id != username,
        forall|j: int|
            0 <= j < i ==> !starts_with(#[trigger] parts[j], seq!['1', '=']) || !is_account(
                parts[j].skip(2),
            ),
    ensures
        account_after(parts, account, username) == id,
    decreases parts.len(),
{
    let shorter = parts.drop_last();
    if i < parts.len() - 1 {
        assert forall|j: int| 0 <= j < i implies !starts_with(#[trigger] shorter[j], seq!['1', '='])
            || !is_account(shorter[j].skip(2)) by {
            assert(shorter[j] == parts[j]);
        }
        law_first_account_is_taken(shorter, account, username, id, i);
        assert(id.len() > 0);
    } else {
        assert forall|j: int| 0 <= j < shorter.len() implies !starts_with(
            #[trigger] shorter[j],
            seq!['1', '='],
        ) || !is_account(shorter[j].skip(2)) by {
            assert(shorter[j] == parts[j]);
        }
        lemma_no_account(shorter, account, username);
        let part = parts.last();
        assert(part.take(2) =~= seq!['1', '=']);
        assert(part.skip(2) =~= id);
    }
}

proof fn lemma_no_account(parts: Seq<Seq<char>>, account: Seq<char>, username: Seq<char>)
    requires
        forall|j: int|
            0 <= j < parts.len() ==> !starts_with(#[trigger] parts[j], seq!['1', '=']) || !is_account(
                parts[j].skip(2),
            ),
    ensures
        account_after(parts, account, username) == account,
    decreases parts.len(),
{
    if parts.len() > 0 {
        let shorter = parts.drop_last();
        assert forall|j: int| 0 <= j < shorter.len() implies !starts_with(
            #[trigger] shorter[j],
            seq!['1', '='],
        ) || !is_account(shorter[j].skip(2)) by {
            assert(shorter[j] == parts[j]);
        }
        lemma_no_account(shorter, account, username);
        assert(parts.last() == parts[parts.len() - 1]);
    }
}

/// An account that the logon gave stays, whatever follows.
pub proof fn law_known_account_stays(
    parts: Seq<Seq<char>>,
    account: Seq<char>,
    username: Seq<char>,
)
    requires
        account.len() > 0,
        account != username,
    ensures
        account_after(parts, account, username) == account,
    decreases parts.len(),
{
    if parts.len() > 0 {
        law_known_account_stays(parts.drop_last(), account, username);
    }
}

/// The requests that follow the logon: for the values of the account, for its settings, for its
/// positions, and for the status of all orders.
pub proof fn law_first_requests_name_the_account(account: Seq<char>, now: Seq<char>)
    ensures
        says(init_message(account, now, 0), 6040, "91"@),
        says(init_message(account, now, 0), 1, account),
        says(init_message(account, now, 3), 6040, "209"@),
        says(init_message(account, now, 3), 1, account),
        says(init_message(account, now, 7), 6040, "6"@),
        says(init_message(account, now, 7), 6095, account),
        says(init_message(account, now, 100), 35, "H"@),
        says(init_message(account, now, 100), 11, "*"@),
{
    let a = init_message(account, now, 0);
    lemma_one_field(a, 2, 6040, "91"@);
    lemma_one_field(a, 3, 1, account);
    let b = init_message(account, now, 3);
    lemma_one_field(b, 2, 6040, "209"@);
    lemma_one_field(b, 3, 1, account);
    let c = init_message(account, now, 7);
    lemma_one_field(c, 2, 6040, "6"@);
    lemma_one_field(c, 4, 6095, account);
    let d = init_message(account, now, 100);
    lemma_one_field(d, 0, 35, "H"@);
    lemma_one_field(d, 2, 11, "*"@);
}

/// The request for a farm's routing table tells the farm for historical data from the others.
pub proof fn law_routing_request_names_the_farm(now: Seq<char>, farm: Seq<char>)
    ensures
        says(routing_request(now, farm), 6040, "112"@),
        says(
            routing_request(now, farm),
            6556,
            if farm == "ushmds"@ {
                "2"@
            } else {
                "1"@
            },
        ),
{
    let m = routing_request(now, farm);
    lemma_one_field(m, 2, 6040, "112"@);
    lemma_one_field(
        m,
        3,
        6556,
        if farm == "ushmds"@ {
            "2"@
        } else {
            "1"@
        },
    );
}

/// An answer to a farm logon that starts with `8=FIX.4.1` is a field message, signed when it holds
/// `8349=`; one that starts with `8=1` is about a token, passed when it holds `PASSED`.
pub proof fn law_farm_answer_is_told_apart(rest: Seq<u8>)
    ensures
        ({
            let m = seq![56u8, 61, 70, 73, 88, 46, 52, 46, 49, 1] + rest;
            farm_frame(m) == (FarmFrame::Fix {
                signed: find_from(m, seq![56u8, 51, 52, 57, 61], 0) is Some,
            })
        }),
        ({
            let m = seq![56u8, 61, 49, 1] + rest;
            farm_frame(m) == (FarmFrame::SoftToken {
                passed: find_from(m, seq![80u8, 65, 83, 83, 69, 68], 0) is Some,
            })
        }),
{
    let fix = seq![56u8, 61, 70, 73, 88, 46, 52, 46, 49, 1];
    let a = fix + rest;
    assert(crate::gateway::fix_41() =~= fix);
    assert(a.take(10) =~= fix);
    let soft = seq![56u8, 61, 49, 1];
    let b = soft + rest;
    assert(b.take(4) =~= soft);
    if starts_with(b, fix) {
        assert(b.take(10)[2] == fix[2]);
        assert(b[2] == 49);
    }
}

// ---------------------------------------------------------------------------------------
// Tokens
// ---------------------------------------------------------------------------------------

/// A byte string without its leading zeros starts with another byte, and only zeros were left
/// out.
pub proof fn law_only_leading_zeros_are_stripped(s: Seq<u8>)
    ensures
        ({
            let t = stripped(s);
            &&& t.len() <= s.len()
            &&& t == s.skip(s.len() - t.len())
            &&& t.len() > 0 ==> t[0] != 0
            &&& forall|i: int| 0 <= i < s.len() - t.len() ==> #[trigger] s[i] == 0
        }),
    decreases s.len(),
{
    if s.len() > 0 && s[0] == 0 {
        let r = s.skip(1);
        law_only_leading_zeros_are_stripped(r);
        let t = stripped(s);
        assert(r.skip(r.len() - t.len()) =~= s.skip(s.len() - t.len()));
        assert forall|i: int| 0 <= i < s.len() - t.len() implies #[trigger] s[i] == 0 by {
            if i > 0 {
                assert(r[i - 1] == s[i]);
            }
        }
    } else {
        assert(s.skip(0) =~= s);
    }
}

proof fn lemma_hex_reads_back(n: nat)
    ensures
        is_hex(hex(n)),
        hex_number(hex(n)) == n,
        hex(n).len() > 0,
    decreases n,
{
    let t = hex(n);
    let d = crate::text::hex_digit((n % 16) as int);
    assert(hex_value(d) == Some((n % 16) as int));
    if n < 16 {
        assert(t =~= seq![d]);
        assert(t.drop_last() =~= Seq::<char>::empty());
        assert(hex_number(t.drop_last()) == 0);
    } else {
        lemma_hex_reads_back(n / 16);
        assert(t.drop_last() =~= hex(n / 16));
        assert forall|i: int| 0 <= i < t.len() implies hex_value(#[trigger] t[i]) is Some by {
            if i < t.len() - 1 {
                assert(t[i] == hex(n / 16)[i]);
            }
        }
    }
}

/// The short form of a digest is the number in its last four bytes, most significant first, in
/// hexadecimal digits.
pub proof fn law_short_form_is_the_end_of_the_digest(digest: Seq<u8>)
    requires
        digest.len() == 20,
    ensures
        is_hex(short_form(digest)),
        hex_number(short_form(digest)) == digest[16] * 16777216 + digest[17] * 65536 + digest[18]
            * 256 + digest[19],
{
    let n = be32_at(digest, 16);
    lemma_hex_reads_back(n as nat);
    let (a, b, c, d) = (digest[16], digest[17], digest[18], digest[19]);
    assert(((a as u32) << 24) | ((b as u32) << 16) | ((c as u32) << 8) | (d as u32) == a * 16777216
        + b * 65536 + c * 256 + d) by (bit_vector);
    assert(n == from_be32(a, b, c, d));
}

/// The fields of an authentication message are an empty name and the values of `H` to `P`, in
/// alphabetical order: of each letter the first value that is given for it.
pub proof fn law_authentication_fields_in_order(pairs: Seq<(&str, &str)>, k: int, j: int)
    requires
        0 <= k < 9,
        0 <= j < pairs.len(),
        pairs[j].0@ == seq![(72 + k) as char],
        forall|i: int| 0 <= i < j ==> (#[trigger] pairs[i]).0@ != seq![(72 + k) as char],
    ensures
        srp_fields(pairs).len() == 10,
        srp_fields(pairs)[0].len() == 0,
        srp_fields(pairs)[k + 1] == pairs[j].1@,
{
    let name = seq![(72 + k) as char];
    lemma_named(pairs, name, j);
    let names = crate::protocol::xyz::srp_names();
    assert('H' as int == 72 && 'I' as int == 73 && 'J' as int == 74 && 'K' as int == 75 && 'L' as int
        == 76 && 'M' as int == 77 && 'N' as int == 78 && 'O' as int == 79 && 'P' as int == 80);
    assert(names[k] =~= name);
}

proof fn lemma_named(pairs: Seq<(&str, &str)>, name: Seq<char>, j: int)
    requires
        0 <= j < pairs.len(),
        pairs[j].0@ == name,
        forall|i: int| 0 <= i < j ==> (#[trigger] pairs[i]).0@ != name,
    ensures
        named_value(pairs, name) == pairs[j].1@,
    decreases j,
{
    if j > 0 {
        let rest = pairs.skip(1);
        assert(pairs[0].0@ != name);
        assert forall|i: int| 0 <= i < j - 1 implies (#[trigger] rest[i]).0@ != name by {
            assert(rest[i] == pairs[i + 1]);
        }
        assert(rest[j - 1] == pairs[j]);
        lemma_named(rest, name, j - 1);
    }
}

} // verus!
