//! What the messages of the data connections are read as.
use vstd::prelude::*;

use crate::engine::hot_loop::account_laws::{lemma_after_other_prefix, lemma_after_own_prefix};
use crate::engine::hot_loop::farm::{
    ack_marker, ack_of, body_after, listed_values, setup_marker, setup_of, signature_mark,
    unsigned_text,
};
use crate::engine::hot_loop::history::{bar_of, signature_bytes, unsigned_bytes};
use crate::engine::hot_loop::portfolio::{exchanges_from, DepthView};
use crate::protocol::wire::{be32, be32_at};
use crate::text::{
    ascii, dec, find_from, int_text, is_digit, is_space, lemma_ascii_encoding, lemma_dec_value,
    lemma_find_first, lemma_find_from, lemma_int_text_parses, lemma_read_text, occurs_at, read_text,
    split, trimmed_end, trimmed_start,
};

verus! {

/// Whether a text is a plain number with or without a sign and a point.
pub open spec fn is_plain_number(s: Seq<char>) -> bool {
    &&& s.len() > 0
    &&& forall|i: int|
        0 <= i < s.len() ==> is_digit(#[trigger] s[i]) || s[i] == '.' || s[i] == '-'
}

/// Three values with commas between them.
pub open spec fn three_values(a: Seq<char>, b: Seq<char>, c: Seq<char>) -> Seq<char> {
    a + seq![','] + b + seq![','] + c
}

proof fn lemma_three_pieces(a: Seq<char>, b: Seq<char>, c: Seq<char>)
    requires
        is_plain_number(a),
        is_plain_number(b),
        is_plain_number(c),
    ensures
        split(three_values(a, b, c), ',') == seq![a, b, c],
{
    let none = Seq::<char>::empty();
    assert forall|i: int| 0 <= i < a.len() implies #[trigger] a[i] != ',' by {
        assert(is_digit(a[i]) || a[i] == '.' || a[i] == '-');
    }
    assert forall|i: int| 0 <= i < b.len() implies #[trigger] b[i] != ',' by {
        assert(is_digit(b[i]) || b[i] == '.' || b[i] == '-');
    }
    assert forall|i: int| 0 <= i < c.len() implies #[trigger] c[i] != ',' by {
        assert(is_digit(c[i]) || c[i] == '.' || c[i] == '-');
    }
    crate::text::lemma_split_append_piece(none, a, ',');
    assert(none + a =~= a);
    assert(split(none, ',') =~= seq![none]);
    assert(split(a, ',') =~= seq![a]);
    let s1 = a + seq![','];
    assert(s1.drop_last() =~= a);
    assert(split(s1, ',') =~= seq![a, none]);
    crate::text::lemma_split_append_piece(s1, b, ',');
    assert(none + b =~= b);
    assert(split(s1 + b, ',') =~= seq![a, b]);
    let s2 = s1 + b + seq![','];
    assert(s2.drop_last() =~= s1 + b);
    assert(split(s2, ',') =~= seq![a, b, none]);
    crate::text::lemma_split_append_piece(s2, c, ',');
    assert(none + c =~= c);
    assert(split(s2 + c, ',') =~= seq![a, b, c]);
    assert(s2 + c =~= three_values(a, b, c));
}

proof fn lemma_listed(marker: Seq<u8>, a: Seq<char>, b: Seq<char>, c: Seq<char>)
    requires
        marker.len() == 5,
        is_plain_number(a),
        is_plain_number(b),
        is_plain_number(c),
    ensures
        listed_values(marker + ascii(three_values(a, b, c)), marker) == Some(seq![a, b, c]),
{
    let t = three_values(a, b, c);
    let msg = marker + ascii(t);
    assert forall|i: int| 0 <= i < t.len() implies is_digit(#[trigger] t[i]) || t[i] == '.' || t[i]
        == '-' || t[i] == ',' by {
        let n = a.len() as int;
        let m = b.len() as int;
        if i < n {
            assert(t[i] == a[i]);
        } else if i == n {
        } else if i < n + 1 + m {
            assert(t[i] == b[i - n - 1]);
        } else if i == n + 1 + m {
        } else {
            assert(t[i] == c[i - n - m - 2]);
        }
    }
    assert(msg.subrange(0, 5) =~= marker);
    assert(occurs_at(msg, marker, 0));
    lemma_find_first(msg, marker, 0, 0);
    assert(msg.skip(5) =~= ascii(t));
    assert(body_after(msg, marker) == Some(ascii(t)));
    lemma_ascii_encoding(t);
    lemma_read_text(t);
    assert(read_text(ascii(t)) == t);
    lemma_find_from(t, signature_mark(), 0);
    if find_from(t, signature_mark(), 0) is Some {
        let i = find_from(t, signature_mark(), 0)->0;
        assert(t.subrange(i, i + 6)[0] == '\x01');
        assert(t[i] == '\x01');
    }
    assert(unsigned_text(t) == t);
    assert(t[0] == a[0]);
    assert(t.last() == c.last());
    assert(!is_space(t[0]) && !is_space(t.last()));
    assert(trimmed_start(t) == t);
    assert(trimmed_end(t) == t);
    lemma_three_pieces(a, b, c);
}

proof fn lemma_dec_is_plain(n: nat)
    ensures
        is_plain_number(dec(n)),
{
    lemma_dec_value(n);
}

/// An acknowledgement of a subscription is read as the tag of the coming ticks, the request that
/// it answers and the price step, in the order in which they stand behind `35=Q`.
pub proof fn law_acknowledgement_is_read(tag: u32, req_id: u32, step: Seq<char>)
    requires
        is_plain_number(step),
    ensures
        ack_of(
            seq![51u8, 53, 61, 81, 1] + ascii(
                three_values(dec(tag as nat), dec(req_id as nat), step),
            ),
        ) == Some((tag, req_id, step)),
{
    lemma_dec_is_plain(tag as nat);
    lemma_dec_is_plain(req_id as nat);
    assert(ack_marker() =~= seq![51u8, 53, 61, 81, 1]);
    lemma_listed(ack_marker(), dec(tag as nat), dec(req_id as nat), step);
    lemma_int_text_parses(tag as int, 0, u32::MAX as int);
    lemma_int_text_parses(req_id as int, 0, u32::MAX as int);
}

/// The setup of a ticker is read as the contract, the price step and the tag of the coming
/// ticks, in the order in which they stand behind `35=L`.
pub proof fn law_setup_is_read(con_id: i64, step: Seq<char>, tag: u32)
    requires
        is_plain_number(step),
    ensures
        setup_of(
            seq![51u8, 53, 61, 76, 1] + ascii(
                three_values(int_text(con_id as int), step, dec(tag as nat)),
            ),
        ) == Some((con_id, step, tag)),
{
    lemma_dec_is_plain(tag as nat);
    lemma_dec_is_plain(
        if con_id < 0 {
            (-con_id) as nat
        } else {
            con_id as nat
        },
    );
    let id = int_text(con_id as int);
    assert(is_plain_number(id)) by {
        let d = dec(
            if con_id < 0 {
                (-con_id) as nat
            } else {
                con_id as nat
            },
        );
        assert forall|i: int| 0 <= i < id.len() implies is_digit(#[trigger] id[i]) || id[i] == '.'
            || id[i] == '-' by {
            if con_id < 0 {
                if i > 0 {
                    assert(id[i] == d[i - 1]);
                }
            } else {
                assert(id[i] == d[i]);
            }
        }
    }
    assert(setup_marker() =~= seq![51u8, 53, 61, 76, 1]);
    lemma_listed(setup_marker(), id, step, dec(tag as nat));
    lemma_int_text_parses(con_id as int, i64::MIN as int, i64::MAX as int);
    lemma_int_text_parses(tag as int, 0, u32::MAX as int);
}

/// A message with a bar is read as its ticker, its time and the packed bar: behind `35=G` stand
/// two bytes, the ticker, the time, the length of the bar, and the bar.
pub proof fn law_bar_message_is_read(a: u8, b: u8, ticker: u32, time: u32, bar: Seq<u8>)
    requires
        bar.len() <= 255,
        find_from(
            seq![a, b] + be32(ticker) + be32(time) + seq![bar.len() as u8] + bar,
            seq![1u8, 56, 51, 52, 57, 61],
            0,
        ) is None,
    ensures
        bar_of(
            seq![51u8, 53, 61, 71, 1] + (seq![a, b] + be32(ticker) + be32(time) + seq![
                bar.len() as u8,
            ] + bar),
        ) == Some((ticker, time, bar)),
{
    let marker = seq![51u8, 53, 61, 71, 1];
    let body = seq![a, b] + be32(ticker) + be32(time) + seq![bar.len() as u8] + bar;
    let msg = marker + body;
    assert(crate::engine::hot_loop::history::bar_marker() =~= marker);
    assert(signature_bytes() =~= seq![1u8, 56, 51, 52, 57, 61]);
    assert(msg.subrange(0, 5) =~= marker);
    assert(occurs_at(msg, marker, 0));
    lemma_find_first(msg, marker, 0, 0);
    assert(msg.skip(5) =~= body);
    assert(body_after(msg, marker) == Some(body));
    assert(unsigned_bytes(body) == body);
    crate::protocol::wire::lemma_be32(ticker);
    crate::protocol::wire::lemma_be32(time);
    let t = be32(ticker);
    let u = be32(time);
    assert(body[2] == t[0] && body[3] == t[1] && body[4] == t[2] && body[5] == t[3]);
    assert(body[6] == u[0] && body[7] == u[1] && body[8] == u[2] && body[9] == u[3]);
    assert(be32_at(body, 2) == be32_at(t, 0));
    assert(be32_at(body, 6) == be32_at(u, 0));
    assert(body[10] == bar.len());
    assert(body.subrange(11, 11 + body[10]) =~= bar);
}

/// An exchange of an exchange list is read with its name, under the kind of the group that it
/// stands in: stocks behind a part with tag 8128, futures behind one with 8129.
pub proof fn law_exchange_is_read(group: i32, exchange: Seq<char>, name: Seq<char>, stocks: bool)
    ensures
        exchanges_from(
            seq![
                (if stocks {
                    "8128="@
                } else {
                    "8129="@
                }) + int_text(group as int),
                "100="@ + exchange,
                "6813="@ + name,
            ],
            0,
            Seq::empty(),
            0,
        ) == seq![
            DepthView {
                exchange,
                sec_type: if stocks {
                    "STK"@
                } else {
                    "FUT"@
                },
                listing_exch: name,
                service_data_type: "L1"@,
                agg_group: group,
            },
        ],
{
    reveal_strlit("8128=");
    reveal_strlit("8129=");
    reveal_strlit("100=");
    reveal_strlit("6813=");
    assert("8128="@[3] == '8' && "8129="@[3] == '9' && "100="@[0] == '1' && "8128="@[0] == '8'
        && "8129="@[0] == '8');
    let g = int_text(group as int);
    lemma_int_text_parses(group as int, i32::MIN as int, i32::MAX as int);
    lemma_after_own_prefix("8128="@, g);
    lemma_after_own_prefix("8129="@, g);
    lemma_after_own_prefix("100="@, exchange);
    lemma_after_own_prefix("6813="@, name);
    lemma_after_other_prefix("8129="@, g, "8128="@, 3);
    lemma_after_other_prefix("100="@, exchange, "8128="@, 0);
    lemma_after_other_prefix("100="@, exchange, "8129="@, 0);
    let kind = if stocks {
        "STK"@
    } else {
        "FUT"@
    };
    let parts = seq![
        (if stocks {
            "8128="@
        } else {
            "8129="@
        }) + g,
        "100="@ + exchange,
        "6813="@ + name,
    ];
    let none = Seq::<DepthView>::empty();
    assert(exchanges_from(parts, 3, kind, group) == none);
    let one = exchanges_from(parts, 1, kind, group);
    assert(one =~= seq![
        DepthView {
            exchange,
            sec_type: kind,
            listing_exch: name,
            service_data_type: "L1"@,
            agg_group: group,
        },
    ]);
    assert(exchanges_from(parts, 0, Seq::empty(), 0) == one);
}

} // verus!
