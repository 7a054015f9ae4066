//! What the messages of plain orders say, and how the orders are tracked.
use vstd::prelude::*;

use crate::calendar::time_text;
use crate::engine::context::{
    find_order, law_put_then_find, lemma_put_distinct, put_order, ContextView,
};
use crate::engine::hot_loop::order_fields::{
    add_if, condition_texts, conditions_texts, lemma_conditions_len, FieldSeq,
};
use crate::engine::hot_loop::placing_laws::{
    lemma_one_field, lemma_says_concat, lemma_says_parts, says, silent, tif_char,
};
use crate::engine::hot_loop::plain_orders::{
    limit_form, market_form, pair_fields, plain_algo_tail, plain_attrs, plain_child_tail,
    plain_condition_block, plain_condition_tags, plain_conditions, plain_effect, plain_forms, plain_message,
    plain_messages, plain_step, stop_form, with_plain_orders, PlainView,
};
use crate::engine::hot_loop::special_laws::{
    ends_with, lemma_tells_added, says_more, tells, value_after,
};
use crate::engine::order::{
    AlgoParams, Order, OrderAttrs, OrderCondition, OrderRequest, OrderStatus, Side,
};
use crate::text::{dec, int_text};
use crate::types::{price_text, InstrumentId, OrderId, Price};

verus! {

/// What a request for one order asks for in its plain form: the order, its side, its quantity,
/// the code of its type, its limit and its stop, its time in force, whether it goes to an
/// exchange of its own, and the prices that are tracked.
pub ghost struct PlainAsked {
    pub order_id: OrderId,
    pub instrument: InstrumentId,
    pub side: Side,
    pub qty: u32,
    pub code: Seq<char>,
    pub limit: Option<Price>,
    pub stop: Option<Price>,
    pub tif: u8,
    pub alone: bool,
    pub price: Price,
    pub stop_price: Price,
}

/// What a request for one order asks for in its plain form.
pub open spec fn plain_asked(req: OrderRequest) -> Option<PlainAsked> {
    match req {
        OrderRequest::SubmitLimit { order_id, instrument, side, qty, price } => Some(
            PlainAsked {
                order_id,
                instrument,
                side,
                qty,
                code: "2"@,
                limit: Some(price),
                stop: None,
                tif: 48,
                alone: false,
                price: price,
                stop_price: 0,
            },
        ),
        OrderRequest::SubmitLimitGtc { order_id, instrument, side, qty, price, .. } => Some(
            PlainAsked {
                order_id,
                instrument,
                side,
                qty,
                code: "2"@,
                limit: Some(price),
                stop: None,
                tif: 49,
                alone: false,
                price: price,
                stop_price: 0,
            },
        ),
        OrderRequest::SubmitLimitEx { order_id, instrument, side, qty, price, tif, .. } => Some(
            PlainAsked {
                order_id,
                instrument,
                side,
                qty,
                code: "2"@,
                limit: Some(price),
                stop: None,
                tif: tif,
                alone: false,
                price: price,
                stop_price: 0,
            },
        ),
        OrderRequest::SubmitLimitIoc { order_id, instrument, side, qty, price } => Some(
            PlainAsked {
                order_id,
                instrument,
                side,
                qty,
                code: "2"@,
                limit: Some(price),
                stop: None,
                tif: 51,
                alone: false,
                price: price,
                stop_price: 0,
            },
        ),
        OrderRequest::SubmitLimitFok { order_id, instrument, side, qty, price } => Some(
            PlainAsked {
                order_id,
                instrument,
                side,
                qty,
                code: "2"@,
                limit: Some(price),
                stop: None,
                tif: 52,
                alone: false,
                price: price,
                stop_price: 0,
            },
        ),
        OrderRequest::SubmitLimitOpg { order_id, instrument, side, qty, price } => Some(
            PlainAsked {
                order_id,
                instrument,
                side,
                qty,
                code: "2"@,
                limit: Some(price),
                stop: None,
                tif: 50,
                alone: false,
                price: price,
                stop_price: 0,
            },
        ),
        OrderRequest::SubmitLoc { order_id, instrument, side, qty, price } => Some(
            PlainAsked {
                order_id,
                instrument,
                side,
                qty,
                code: "B"@,
                limit: Some(price),
                stop: None,
                tif: 48,
                alone: false,
                price: price,
                stop_price: 0,
            },
        ),
        OrderRequest::SubmitAdaptive { order_id, instrument, side, qty, price, .. } => Some(
            PlainAsked {
                order_id,
                instrument,
                side,
                qty,
                code: "2"@,
                limit: Some(price),
                stop: None,
                tif: 48,
                alone: false,
                price: price,
                stop_price: 0,
            },
        ),
        OrderRequest::SubmitAlgo { order_id, instrument, side, qty, price, .. } => Some(
            PlainAsked {
                order_id,
                instrument,
                side,
                qty,
                code: "2"@,
                limit: Some(price),
                stop: None,
                tif: 48,
                alone: false,
                price: price,
                stop_price: 0,
            },
        ),
        OrderRequest::SubmitStop { order_id, instrument, side, qty, stop_price } => Some(
            PlainAsked {
                order_id,
                instrument,
                side,
                qty,
                code: "3"@,
                limit: None,
                stop: Some(stop_price),
                tif: 48,
                alone: false,
                price: stop_price,
                stop_price: stop_price,
            },
        ),
        OrderRequest::SubmitStopLimit { order_id, instrument, side, qty, price, stop_price } => Some(
            PlainAsked {
                order_id,
                instrument,
                side,
                qty,
                code: "4"@,
                limit: Some(price),
                stop: Some(stop_price),
                tif: 48,
                alone: false,
                price: price,
                stop_price: stop_price,
            },
        ),
        OrderRequest::SubmitStopGtc { order_id, instrument, side, qty, stop_price, .. } => Some(
            PlainAsked {
                order_id,
                instrument,
                side,
                qty,
                code: "3"@,
                limit: None,
                stop: Some(stop_price),
                tif: 49,
                alone: false,
                price: stop_price,
                stop_price: stop_price,
            },
        ),
        OrderRequest::SubmitStopLimitGtc { order_id, instrument, side, qty, price, stop_price, .. } => Some(
            PlainAsked {
                order_id,
                instrument,
                side,
                qty,
                code: "4"@,
                limit: Some(price),
                stop: Some(stop_price),
                tif: 49,
                alone: false,
                price: price,
                stop_price: stop_price,
            },
        ),
        OrderRequest::SubmitTrailingStop { order_id, instrument, side, qty, trail_amt, .. } => Some(
            PlainAsked {
                order_id,
                instrument,
                side,
                qty,
                code: "P"@,
                limit: None,
                stop: Some(trail_amt),
                tif: 48,
                alone: false,
                price: 0,
                stop_price: 0,
            },
        ),
        OrderRequest::SubmitTrailingStopLimit { order_id, instrument, side, qty, lmt_offset, trail_amt, .. } => Some(
            PlainAsked {
                order_id,
                instrument,
                side,
                qty,
                code: "P"@,
                limit: Some(lmt_offset),
                stop: Some(trail_amt),
                tif: 48,
                alone: false,
                price: lmt_offset,
                stop_price: 0,
            },
        ),
        OrderRequest::SubmitTrailingStopPct { order_id, instrument, side, qty, .. } => Some(
            PlainAsked {
                order_id,
                instrument,
                side,
                qty,
                code: "P"@,
                limit: None,
                stop: None,
                tif: 48,
                alone: false,
                price: 0,
                stop_price: 0,
            },
        ),
        OrderRequest::SubmitMit { order_id, instrument, side, qty, stop_price } => Some(
            PlainAsked {
                order_id,
                instrument,
                side,
                qty,
                code: "J"@,
                limit: None,
                stop: Some(stop_price),
                tif: 48,
                alone: false,
                price: stop_price,
                stop_price: stop_price,
            },
        ),
        OrderRequest::SubmitLit { order_id, instrument, side, qty, price, stop_price } => Some(
            PlainAsked {
                order_id,
                instrument,
                side,
                qty,
                code: "K"@,
                limit: Some(price),
                stop: Some(stop_price),
                tif: 48,
                alone: false,
                price: price,
                stop_price: stop_price,
            },
        ),
        OrderRequest::SubmitStpPrt { order_id, instrument, side, qty, stop_price } => Some(
            PlainAsked {
                order_id,
                instrument,
                side,
                qty,
                code: "SP"@,
                limit: None,
                stop: Some(stop_price),
                tif: 48,
                alone: false,
                price: 0,
                stop_price: stop_price,
            },
        ),
        OrderRequest::SubmitMarket { order_id, instrument, side, qty } => Some(
            PlainAsked {
                order_id,
                instrument,
                side,
                qty,
                code: "1"@,
                limit: None,
                stop: None,
                tif: 48,
                alone: false,
                price: 0,
                stop_price: 0,
            },
        ),
        OrderRequest::SubmitMoc { order_id, instrument, side, qty } => Some(
            PlainAsked {
                order_id,
                instrument,
                side,
                qty,
                code: "5"@,
                limit: None,
                stop: None,
                tif: 48,
                alone: false,
                price: 0,
                stop_price: 0,
            },
        ),
        OrderRequest::SubmitMtl { order_id, instrument, side, qty } => Some(
            PlainAsked {
                order_id,
                instrument,
                side,
                qty,
                code: "K"@,
                limit: None,
                stop: None,
                tif: 48,
                alone: false,
                price: 0,
                stop_price: 0,
            },
        ),
        OrderRequest::SubmitMktPrt { order_id, instrument, side, qty } => Some(
            PlainAsked {
                order_id,
                instrument,
                side,
                qty,
                code: "U"@,
                limit: None,
                stop: None,
                tif: 48,
                alone: false,
                price: 0,
                stop_price: 0,
            },
        ),
        OrderRequest::SubmitRel { order_id, instrument, side, qty, offset } => Some(
            PlainAsked {
                order_id,
                instrument,
                side,
                qty,
                code: "R"@,
                limit: None,
                stop: Some(offset),
                tif: 48,
                alone: false,
                price: 0,
                stop_price: offset,
            },
        ),
        OrderRequest::SubmitMidPrice { order_id, instrument, side, qty, price_cap } => Some(
            PlainAsked {
                order_id,
                instrument,
                side,
                qty,
                code: "MIDPX"@,
                limit: if price_cap > 0 {
                    Some(price_cap)
                } else {
                    None
                },
                stop: None,
                tif: 48,
                alone: true,
                price: price_cap,
                stop_price: 0,
            },
        ),
        OrderRequest::SubmitSnapMkt { order_id, instrument, side, qty } => Some(
            PlainAsked {
                order_id,
                instrument,
                side,
                qty,
                code: "SMKT"@,
                limit: None,
                stop: None,
                tif: 48,
                alone: true,
                price: 0,
                stop_price: 0,
            },
        ),
        OrderRequest::SubmitSnapMid { order_id, instrument, side, qty } => Some(
            PlainAsked {
                order_id,
                instrument,
                side,
                qty,
                code: "SMID"@,
                limit: None,
                stop: None,
                tif: 48,
                alone: true,
                price: 0,
                stop_price: 0,
            },
        ),
        OrderRequest::SubmitSnapPri { order_id, instrument, side, qty } => Some(
            PlainAsked {
                order_id,
                instrument,
                side,
                qty,
                code: "SREL"@,
                limit: None,
                stop: None,
                tif: 48,
                alone: true,
                price: 0,
                stop_price: 0,
            },
        ),
        OrderRequest::SubmitPegMkt { order_id, instrument, side, qty, offset } => Some(
            PlainAsked {
                order_id,
                instrument,
                side,
                qty,
                code: "E"@,
                limit: None,
                stop: None,
                tif: 48,
                alone: true,
                price: 0,
                stop_price: offset,
            },
        ),
        OrderRequest::SubmitPegMid { order_id, instrument, side, qty, offset } => Some(
            PlainAsked {
                order_id,
                instrument,
                side,
                qty,
                code: "E"@,
                limit: None,
                stop: None,
                tif: 48,
                alone: true,
                price: 0,
                stop_price: offset,
            },
        ),
        _ => None,
    }
}

/// Whether a message says a price under a tag, if there is one.
pub open spec fn says_price(m: FieldSeq, tag: u32, price: Option<Price>) -> bool {
    match price {
        Some(p) => says(m, tag, price_text(p as int)),
        None => silent(m, tag),
    }
}

/// What a plain message says of the order that was asked for.
#[verifier::opaque]
pub open spec fn says_plain(
    m: FieldSeq,
    c: ContextView,
    now: Seq<char>,
    account: Seq<char>,
    a: PlainAsked,
) -> bool {
    &&& says(m, 35, "D"@)
    &&& says(m, 52, now)
    &&& says(m, 60, now)
    &&& says(m, 11, dec(a.order_id as nat))
    &&& says(m, 1, account)
    &&& says(m, 21, "2"@)
    &&& says(m, 55, c.market.symbols[a.instrument as int])
    &&& a.side == Side::Buy ==> says(m, 54, "1"@)
    &&& a.side == Side::Sell ==> says(m, 54, "2"@)
    &&& a.side == Side::ShortSell ==> says(m, 54, "5"@)
    &&& says(m, 38, dec(a.qty as nat))
    &&& says(m, 40, a.code)
    &&& says_price(m, 44, a.limit)
    &&& says_price(m, 99, a.stop)
    &&& says(m, 59, seq![tif_char(a.tif)])
    &&& says(m, 167, "STK"@)
    &&& says(
        m,
        100,
        if a.alone {
            "ISLAND"@
        } else {
            "SMART"@
        },
    )
    &&& says(m, 15, "USD"@)
    &&& says(m, 204, "0"@)
}

/// Whether an order is tracked as it was asked for: new, with nothing filled.
pub open spec fn tracks_plain(o: Order, a: PlainAsked) -> bool {
    &&& o.order_id == a.order_id
    &&& o.instrument == a.instrument
    &&& o.side == a.side
    &&& o.qty_fixed == a.qty * 10_000
    &&& o.filled_fixed == 0
    &&& o.status == OrderStatus::PendingSubmit
    &&& o.tif == a.tif
    &&& o.price == a.price
    &&& o.stop_price == a.stop_price
}

/// Whether a tag is one of those that every plain message has.
pub open spec fn is_plain_tag(tag: u32) -> bool {
    tag == 35 || tag == 52 || tag == 11 || tag == 1 || tag == 21 || tag == 55 || tag == 54 || tag
        == 38 || tag == 40 || tag == 59 || tag == 60 || tag == 167 || tag == 100 || tag == 15 || tag
        == 204
}

pub(crate) proof fn lemma_plain_head(
    now: Seq<char>,
    account: Seq<char>,
    symbol: Seq<char>,
    p: PlainView,
) -> (parts: (FieldSeq, FieldSeq))
    ensures
        plain_message(now, account, symbol, p) == parts.0 + p.prices + parts.1 + p.tail,
        says(parts.0, 35, "D"@),
        says(parts.0, 52, now),
        says(parts.0, 11, dec(p.order.order_id as nat)),
        says(parts.0, 1, account),
        says(parts.0, 21, "2"@),
        says(parts.0, 55, symbol),
        p.order.side == Side::Buy ==> says(parts.0, 54, "1"@),
        p.order.side == Side::Sell ==> says(parts.0, 54, "2"@),
        p.order.side == Side::ShortSell ==> says(parts.0, 54, "5"@),
        says(parts.0, 38, dec(p.qty as nat)),
        says(parts.0, 40, p.code),
        says(parts.1, 59, p.tif),
        says(parts.1, 60, now),
        says(parts.1, 167, "STK"@),
        says(
            parts.1,
            100,
            if p.directed {
                "ISLAND"@
            } else {
                "SMART"@
            },
        ),
        says(parts.1, 15, "USD"@),
        says(parts.1, 204, "0"@),
        forall|i: int|
            0 <= i < parts.0.len() ==> ({
                let t = (#[trigger] parts.0[i]).0;
                is_plain_tag(t) && t != 59 && t != 60 && t != 167 && t != 100 && t != 15 && t != 204
            }),
        forall|i: int|
            0 <= i < parts.1.len() ==> ({
                let t = (#[trigger] parts.1[i]).0;
                t == 59 || t == 60 || t == 167 || t == 100 || t == 15 || t == 204
            }),
{
    let side = crate::engine::hot_loop::order_fields::side_code(p.order.side);
    let where_to = if p.directed {
        "ISLAND"@
    } else {
        "SMART"@
    };
    let h = seq![
        (35u32, "D"@),
        (52u32, now),
        (11u32, dec(p.order.order_id as nat)),
        (1u32, account),
        (21u32, "2"@),
        (55u32, symbol),
        (54u32, side),
        (38u32, dec(p.qty as nat)),
        (40u32, p.code),
    ];
    let m = seq![
        (59u32, p.tif),
        (60u32, now),
        (167u32, "STK"@),
        (100u32, where_to),
        (15u32, "USD"@),
        (204u32, "0"@),
    ];
    assert(h.len() == 9 && m.len() == 6);
    assert(h[0].0 == 35 && h[1].0 == 52 && h[2].0 == 11 && h[3].0 == 1 && h[4].0 == 21 && h[5].0
        == 55 && h[6].0 == 54 && h[7].0 == 38 && h[8].0 == 40);
    assert(m[0].0 == 59 && m[1].0 == 60 && m[2].0 == 167 && m[3].0 == 100 && m[4].0 == 15 && m[5].0
        == 204);
    lemma_one_field(h, 0, 35, "D"@);
    lemma_one_field(h, 1, 52, now);
    lemma_one_field(h, 2, 11, dec(p.order.order_id as nat));
    lemma_one_field(h, 3, 1, account);
    lemma_one_field(h, 4, 21, "2"@);
    lemma_one_field(h, 5, 55, symbol);
    lemma_one_field(h, 6, 54, side);
    lemma_one_field(h, 7, 38, dec(p.qty as nat));
    lemma_one_field(h, 8, 40, p.code);
    lemma_one_field(m, 0, 59, p.tif);
    lemma_one_field(m, 1, 60, now);
    lemma_one_field(m, 2, 167, "STK"@);
    lemma_one_field(m, 3, 100, where_to);
    lemma_one_field(m, 4, 15, "USD"@);
    lemma_one_field(m, 5, 204, "0"@);
    (h, m)
}

/// Whether a list of fields has none that every plain message has.
pub open spec fn no_plain_tags(s: FieldSeq) -> bool {
    forall|i: int| 0 <= i < s.len() ==> !is_plain_tag((#[trigger] s[i]).0)
}

/// Whether the plain form of an order is what was asked for.
pub open spec fn form_is_right(p: PlainView, a: PlainAsked) -> bool {
    &&& no_plain_tags(p.prices)
    &&& no_plain_tags(p.tail)
    &&& says_price(p.prices + p.tail, 44, a.limit)
    &&& says_price(p.prices + p.tail, 99, a.stop)
    &&& p.qty == a.qty
    &&& p.code == a.code
    &&& p.tif == seq![tif_char(a.tif)]
    &&& p.directed == a.alone
    &&& tracks_plain(p.order, a)
}

/// What the form of an order says, its message says.
proof fn lemma_plain_says(
    c: ContextView,
    now: Seq<char>,
    account: Seq<char>,
    p: PlainView,
    a: PlainAsked,
)
    requires
        form_is_right(p, a),
    ensures
        says_plain(
            plain_message(now, account, c.market.symbols[a.instrument as int], p),
            c,
            now,
            account,
            a,
        ),
{
    reveal(says_plain);
    let symbol = c.market.symbols[a.instrument as int];
    let (h, m) = lemma_plain_head(now, account, symbol, p);
    lemma_says_parts(h, p.prices, m, p.tail, 35);
    lemma_says_parts(h, p.prices, m, p.tail, 52);
    lemma_says_parts(h, p.prices, m, p.tail, 11);
    lemma_says_parts(h, p.prices, m, p.tail, 1);
    lemma_says_parts(h, p.prices, m, p.tail, 21);
    lemma_says_parts(h, p.prices, m, p.tail, 55);
    lemma_says_parts(h, p.prices, m, p.tail, 54);
    lemma_says_parts(h, p.prices, m, p.tail, 38);
    lemma_says_parts(h, p.prices, m, p.tail, 40);
    lemma_says_parts(h, p.prices, m, p.tail, 59);
    lemma_says_parts(h, p.prices, m, p.tail, 60);
    lemma_says_parts(h, p.prices, m, p.tail, 167);
    lemma_says_parts(h, p.prices, m, p.tail, 100);
    lemma_says_parts(h, p.prices, m, p.tail, 15);
    lemma_says_parts(h, p.prices, m, p.tail, 204);
    lemma_says_parts(h, p.prices, m, p.tail, 44);
    lemma_says_parts(h, p.prices, m, p.tail, 99);
}

/// What the form of an order says under a tag that not every message has, its message says.
proof fn lemma_plain_own(
    now: Seq<char>,
    account: Seq<char>,
    symbol: Seq<char>,
    p: PlainView,
    tag: u32,
)
    requires
        !is_plain_tag(tag),
    ensures
        silent(p.prices + p.tail, tag) ==> silent(plain_message(now, account, symbol, p), tag),
        forall|v: Seq<char>|
            #![trigger says(p.prices + p.tail, tag, v)]
            says(p.prices + p.tail, tag, v) ==> says(
                plain_message(now, account, symbol, p),
                tag,
                v,
            ),
{
    let (h, m) = lemma_plain_head(now, account, symbol, p);
    lemma_says_parts(h, p.prices, m, p.tail, tag);
}

/// Whether a list of fields says nothing that every plain message says, and no price.
pub open spec fn says_no_price(s: FieldSeq) -> bool {
    no_plain_tags(s) && silent(s, 44) && silent(s, 99)
}

/// The prices of a form are a limit, a stop, both or neither.
proof fn lemma_form_prices(p: PlainView, a: PlainAsked)
    requires
        says_no_price(p.tail),
        match (a.limit, a.stop) {
            (Some(l), Some(s)) => p.prices == seq![
                (44u32, price_text(l as int)),
                (99u32, price_text(s as int)),
            ],
            (Some(l), None) => p.prices == seq![(44u32, price_text(l as int))],
            (None, Some(s)) => p.prices == seq![(99u32, price_text(s as int))],
            (None, None) => says_no_price(p.prices),
        },
        p.qty == a.qty,
        p.code == a.code,
        p.tif == seq![tif_char(a.tif)],
        p.directed == a.alone,
        tracks_plain(p.order, a),
    ensures
        form_is_right(p, a),
{
    let s = p.prices;
    match (a.limit, a.stop) {
        (Some(l), Some(t)) => {
            assert(s[0] == (44u32, price_text(l as int)) && s[1] == (99u32, price_text(t as int)));
            assert(s.len() == 2);
            lemma_one_field(s, 0, 44, price_text(l as int));
            lemma_one_field(s, 1, 99, price_text(t as int));
        },
        (Some(l), None) => {
            assert(s[0] == (44u32, price_text(l as int)) && s.len() == 1);
            lemma_one_field(s, 0, 44, price_text(l as int));
        },
        (None, Some(t)) => {
            assert(s[0] == (99u32, price_text(t as int)) && s.len() == 1);
            lemma_one_field(s, 0, 99, price_text(t as int));
        },
        (None, None) => {},
    }
    lemma_says_concat(s, p.tail, 44);
    lemma_says_concat(s, p.tail, 99);
}

proof fn lemma_capped_form(p: PlainView, a: PlainAsked, cap: Price)
    requires
        p.prices == Seq::<(u32, Seq<char>)>::empty(),
        p.tail == add_if(Seq::empty(), cap > 0, 44, price_text(cap as int)),
        a.limit == (if cap > 0 {
            Some(cap)
        } else {
            None
        }),
        a.stop is None,
        p.qty == a.qty,
        p.code == a.code,
        p.tif == seq![tif_char(a.tif)],
        p.directed == a.alone,
        tracks_plain(p.order, a),
    ensures
        form_is_right(p, a),
{
    assert(p.prices + p.tail =~= p.tail);
    if cap > 0 {
        assert(p.tail[0] == (44u32, price_text(cap as int)) && p.tail.len() == 1);
        lemma_one_field(p.tail, 0, 44, price_text(cap as int));
    }
}

/// What the attributes of a plain order say under a tag.
pub open spec fn plain_attr_value(a: OrderAttrs, t: u32) -> Option<Seq<char>> {
    if t == 111 && a.display_size > 0 {
        Some(dec(a.display_size as nat))
    } else if t == 110 && a.min_qty > 0 {
        Some(dec(a.min_qty as nat))
    } else if t == 6433 && a.outside_rth {
        Some("1"@)
    } else if t == 6135 && a.hidden {
        Some("1"@)
    } else if t == 168 && a.good_after > 0 {
        Some(time_text(a.good_after as nat, ' '))
    } else if t == 126 && a.good_till > 0 {
        Some(time_text(a.good_till as nat, ' '))
    } else if t == 583 && a.oca_group > 0 {
        Some("OCA_"@ + dec(a.oca_group as nat))
    } else if t == 6209 && a.oca_group > 0 {
        Some("CancelOnFillWBlock"@)
    } else if t == 9813 && a.discretionary_amt > 0 {
        Some(price_text(a.discretionary_amt as int))
    } else if t == 6102 && a.sweep_to_fill {
        Some("1"@)
    } else if t == 18 && a.all_or_none {
        Some("G"@)
    } else if t == 6115 && a.trigger_method > 0 {
        Some(dec(a.trigger_method as nat))
    } else {
        None
    }
}

/// The attributes of a plain order say what is set, under its tag.
proof fn lemma_plain_attrs_tell(a: OrderAttrs, t: u32)
    ensures
        tells(plain_attrs(a), t, plain_attr_value(a, t)),
{
    let after = time_text(a.good_after as nat, ' ');
    let till = time_text(a.good_till as nat, ' ');
    let grouped = a.oca_group > 0;
    let group = "OCA_"@ + dec(a.oca_group as nat);
    let extra = price_text(a.discretionary_amt as int);
    let s0 = Seq::<(u32, Seq<char>)>::empty();
    let s1 = add_if(s0, a.display_size > 0, 111, dec(a.display_size as nat));
    let s2 = add_if(s1, a.min_qty > 0, 110, dec(a.min_qty as nat));
    let s3 = add_if(s2, a.outside_rth, 6433, "1"@);
    let s4 = add_if(s3, a.hidden, 6135, "1"@);
    let s5 = add_if(s4, a.good_after > 0, 168, after);
    let s6 = add_if(s5, a.good_till > 0, 126, till);
    let g1 = add_if(s6, grouped, 583, group);
    let s7 = add_if(g1, grouped, 6209, "CancelOnFillWBlock"@);
    let s8 = add_if(s7, a.discretionary_amt > 0, 9813, extra);
    let s9 = add_if(s8, a.sweep_to_fill, 6102, "1"@);
    let s10 = add_if(s9, a.all_or_none, 18, "G"@);
    let v0: Option<Seq<char>> = None;
    let v1 = value_after(v0, a.display_size > 0, 111, dec(a.display_size as nat), t);
    let v2 = value_after(v1, a.min_qty > 0, 110, dec(a.min_qty as nat), t);
    let v3 = value_after(v2, a.outside_rth, 6433, "1"@, t);
    let v4 = value_after(v3, a.hidden, 6135, "1"@, t);
    let v5 = value_after(v4, a.good_after > 0, 168, after, t);
    let v6 = value_after(v5, a.good_till > 0, 126, till, t);
    let w1 = value_after(v6, grouped, 583, group, t);
    let v7 = value_after(w1, grouped, 6209, "CancelOnFillWBlock"@, t);
    let v8 = value_after(v7, a.discretionary_amt > 0, 9813, extra, t);
    let v9 = value_after(v8, a.sweep_to_fill, 6102, "1"@, t);
    let v10 = value_after(v9, a.all_or_none, 18, "G"@, t);
    lemma_tells_added(s0, a.display_size > 0, 111, dec(a.display_size as nat), t, v0);
    lemma_tells_added(s1, a.min_qty > 0, 110, dec(a.min_qty as nat), t, v1);
    lemma_tells_added(s2, a.outside_rth, 6433, "1"@, t, v2);
    lemma_tells_added(s3, a.hidden, 6135, "1"@, t, v3);
    lemma_tells_added(s4, a.good_after > 0, 168, after, t, v4);
    lemma_tells_added(s5, a.good_till > 0, 126, till, t, v5);
    lemma_tells_added(s6, grouped, 583, group, t, v6);
    lemma_tells_added(g1, grouped, 6209, "CancelOnFillWBlock"@, t, w1);
    lemma_tells_added(s7, a.discretionary_amt > 0, 9813, extra, t, v7);
    lemma_tells_added(s8, a.sweep_to_fill, 6102, "1"@, t, v8);
    lemma_tells_added(s9, a.all_or_none, 18, "G"@, t, v9);
    lemma_tells_added(s10, a.trigger_method > 0, 6115, dec(a.trigger_method as nat), t, v10);
}

proof fn lemma_plain_attr_tags(a: OrderAttrs)
    ensures
        says_no_price(plain_attrs(a)),
{
    let s = plain_attrs(a);
    assert forall|i: int| 0 <= i < s.len() implies !is_plain_tag((#[trigger] s[i]).0) && s[i].0
        != 44 && s[i].0 != 99 by {
        let t = s[i].0;
        lemma_plain_attrs_tell(a, t);
        if is_plain_tag(t) || t == 44 || t == 99 {
            assert(silent(s, t));
        }
    }
}

proof fn lemma_plain_block_tags(a: OrderAttrs)
    ensures
        says_no_price(plain_condition_block(a)),
{
    let n = a.conditions@.len();
    if n > 0 {
        let s0 = seq![(6136u32, dec(n))];
        let s1 = add_if(s0, a.conditions_cancel_order, 6128, "1"@);
        let s2 = add_if(s1, a.conditions_ignore_rth, 6151, "1"@);
        let t = plain_condition_tags();
        assert(t[0] == 6222 && t[1] == 6137 && t[2] == 6126 && t[3] == 6123 && t[4] == 6124 && t[5]
            == 6127 && t[6] == 6125 && t[7] == 6223 && t[8] == 6245 && t[9] == 6263 && t[10]
            == 6246);
        assert(s0[0].0 == 6136);
        assert(says_no_price(s1));
        assert(says_no_price(s2));
        let b = plain_condition_block(a);
        assert forall|i: int| 0 <= i < b.len() implies !is_plain_tag((#[trigger] b[i]).0) && b[i].0
            != 44 && b[i].0 != 99 by {
            if i >= s2.len() {
                let j = i - s2.len();
                assert(b[i].0 == t[j % 11]);
                assert(0 <= j % 11 < 11);
                let k = j % 11;
                assert(k == 0 || k == 1 || k == 2 || k == 3 || k == 4 || k == 5 || k == 6 || k == 7
                    || k == 8 || k == 9 || k == 10);
            } else {
                assert(b[i] == s2[i]);
            }
        }
    }
}

proof fn lemma_plain_pairs(params: Seq<Seq<char>>, k: nat)
    ensures
        says_no_price(pair_fields(params, k)),
    decreases k,
{
    if k > 0 {
        lemma_plain_pairs(params, (k - 1) as nat);
    }
}

proof fn lemma_plain_algo_tags(algo: AlgoParams)
    ensures
        says_no_price(plain_algo_tail(algo)),
{
    let params = crate::engine::hot_loop::order_fields::algo_params(algo);
    lemma_plain_pairs(params, params.len() / 2);
}

#[verifier::rlimit(40)]
proof fn lemma_limit_form_is_right(req: OrderRequest, p: PlainView, a: PlainAsked)
    requires
        limit_form(req) == Some(p),
        plain_asked(req) == Some(a),
    ensures
        form_is_right(p, a),
{
    reveal(limit_form);
    match req {
        OrderRequest::SubmitLimit { .. } => {
            lemma_form_prices(p, a);
        },
        OrderRequest::SubmitLimitGtc { .. } => {
            lemma_form_prices(p, a);
        },
        OrderRequest::SubmitLimitEx { attrs, .. } => {
            lemma_plain_attr_tags(attrs);
            lemma_plain_block_tags(attrs);
            lemma_form_prices(p, a);
        },
        OrderRequest::SubmitLimitIoc { .. } => {
            lemma_form_prices(p, a);
        },
        OrderRequest::SubmitLimitFok { .. } => {
            lemma_form_prices(p, a);
        },
        OrderRequest::SubmitLimitOpg { .. } => {
            lemma_form_prices(p, a);
        },
        OrderRequest::SubmitLoc { .. } => {
            lemma_form_prices(p, a);
        },
        OrderRequest::SubmitAdaptive { .. } => {
            lemma_form_prices(p, a);
        },
        OrderRequest::SubmitAlgo { algo, .. } => {
            lemma_plain_algo_tags(algo);
            lemma_form_prices(p, a);
        },
        _ => {},
    }
}

#[verifier::rlimit(40)]
proof fn lemma_stop_form_is_right(req: OrderRequest, p: PlainView, a: PlainAsked)
    requires
        stop_form(req) == Some(p),
        plain_asked(req) == Some(a),
    ensures
        form_is_right(p, a),
{
    reveal(stop_form);
    match req {
        OrderRequest::SubmitStop { .. } => {
            lemma_form_prices(p, a);
        },
        OrderRequest::SubmitStopLimit { .. } => {
            lemma_form_prices(p, a);
        },
        OrderRequest::SubmitStopGtc { .. } => {
            lemma_form_prices(p, a);
        },
        OrderRequest::SubmitStopLimitGtc { .. } => {
            lemma_form_prices(p, a);
        },
        OrderRequest::SubmitTrailingStop { .. } => {
            lemma_form_prices(p, a);
        },
        OrderRequest::SubmitTrailingStopLimit { .. } => {
            lemma_form_prices(p, a);
        },
        OrderRequest::SubmitTrailingStopPct { .. } => {
            lemma_form_prices(p, a);
        },
        OrderRequest::SubmitMit { .. } => {
            lemma_form_prices(p, a);
        },
        OrderRequest::SubmitLit { .. } => {
            lemma_form_prices(p, a);
        },
        OrderRequest::SubmitStpPrt { .. } => {
            lemma_form_prices(p, a);
        },
        _ => {},
    }
}

#[verifier::rlimit(40)]
proof fn lemma_market_form_is_right(req: OrderRequest, p: PlainView, a: PlainAsked)
    requires
        market_form(req) == Some(p),
        plain_asked(req) == Some(a),
    ensures
        form_is_right(p, a),
{
    reveal(market_form);
    match req {
        OrderRequest::SubmitMarket { .. } => {
            lemma_form_prices(p, a);
        },
        OrderRequest::SubmitMoc { .. } => {
            lemma_form_prices(p, a);
        },
        OrderRequest::SubmitMtl { .. } => {
            lemma_form_prices(p, a);
        },
        OrderRequest::SubmitMktPrt { .. } => {
            lemma_form_prices(p, a);
        },
        OrderRequest::SubmitRel { .. } => {
            lemma_form_prices(p, a);
        },
        OrderRequest::SubmitMidPrice { price_cap, .. } => {
            lemma_capped_form(p, a, price_cap);
        },
        OrderRequest::SubmitSnapMkt { .. } => {
            lemma_form_prices(p, a);
        },
        OrderRequest::SubmitSnapMid { .. } => {
            lemma_form_prices(p, a);
        },
        OrderRequest::SubmitSnapPri { .. } => {
            lemma_form_prices(p, a);
        },
        OrderRequest::SubmitPegMkt { .. } => {
            lemma_form_prices(p, a);
        },
        OrderRequest::SubmitPegMid { .. } => {
            lemma_form_prices(p, a);
        },
        _ => {},
    }
}

/// Which form an order has.
proof fn lemma_one_form(req: OrderRequest, a: PlainAsked) -> (p: PlainView)
    requires
        plain_asked(req) == Some(a),
    ensures
        plain_forms(req) == seq![p],
        form_is_right(p, a),
        !(req is Cancel) && !(req is CancelAll) && !(req is Modify),
{
    lemma_has_form(req);
    if limit_form(req) is Some {
        let p = limit_form(req)->0;
        lemma_limit_form_is_right(req, p, a);
        p
    } else if stop_form(req) is Some {
        let p = stop_form(req)->0;
        lemma_stop_form_is_right(req, p, a);
        p
    } else {
        let p = market_form(req)->0;
        lemma_market_form_is_right(req, p, a);
        p
    }
}

proof fn lemma_has_form(req: OrderRequest)
    requires
        plain_asked(req) is Some,
    ensures
        limit_form(req) is Some || stop_form(req) is Some || market_form(req) is Some,
        !(req is Cancel) && !(req is CancelAll) && !(req is Modify),
{
    reveal(limit_form);
    reveal(stop_form);
    reveal(market_form);
}

pub(crate) proof fn lemma_one_plain(c: ContextView, now: Seq<char>, account: Seq<char>, p: PlainView)
    requires
        c.wf(),
    ensures
        plain_messages(c, now, account, seq![p]) == seq![
            plain_message(now, account, c.market.symbols[p.order.instrument as int], p),
        ],
        with_plain_orders(c, seq![p]) == c.with_order(p.order),
        c.with_order(p.order).order(p.order.order_id) == Some(p.order),
        forall|other: OrderId|
            other != p.order.order_id ==> #[trigger] c.with_order(p.order).order(other) == c.order(
                other,
            ),
{
    assert(plain_messages(c, now, account, seq![p]) =~= seq![
        plain_message(now, account, c.market.symbols[p.order.instrument as int], p),
    ]);
    assert(seq![p].drop_last() =~= Seq::<PlainView>::empty());
    reveal_with_fuel(with_plain_orders, 2);
    law_put_then_find(c.orders, p.order, p.order.order_id);
    assert forall|other: OrderId| other != p.order.order_id implies #[trigger] c.with_order(
        p.order,
    ).order(other) == c.order(other) by {
        law_put_then_find(c.orders, p.order, other);
    }
}

/// A request for one order gives, in its plain form, one message. It says what was asked for:
/// which order, for which account, of what, on which side, how much, of which type, at which
/// prices, and for how long. The order is tracked as it was asked for, and no other changes.
pub proof fn law_plain_order_is_placed_as_asked(
    c: ContextView,
    now: Seq<char>,
    account: Seq<char>,
    req: OrderRequest,
    a: PlainAsked,
)
    requires
        c.wf(),
        plain_asked(req) == Some(a),
    ensures
        ({
            let m = plain_step(c, now, account, req);
            let after = plain_effect(c, req);
            &&& m.len() == 1
            &&& says_plain(m[0], c, now, account, a)
            &&& after.order(a.order_id) is Some
            &&& tracks_plain(after.order(a.order_id)->0, a)
            &&& forall|other: OrderId|
                other != a.order_id ==> #[trigger] after.order(other) == c.order(other)
        }),
{
    let p = lemma_one_form(req, a);
    lemma_plain_says(c, now, account, p, a);
    lemma_one_plain(c, now, account, p);
}

/// What a plain message says of an order's conditions in front of them.
pub open spec fn plain_block_value(a: OrderAttrs, t: u32) -> Option<Seq<char>> {
    if a.conditions@.len() == 0 {
        None
    } else if t == 6136 {
        Some(dec(a.conditions@.len()))
    } else if t == 6128 && a.conditions_cancel_order {
        Some("1"@)
    } else if t == 6151 && a.conditions_ignore_rth {
        Some("1"@)
    } else {
        None
    }
}

/// Whether a tag is one of those of a single condition.
pub open spec fn is_single_condition_tag(t: u32) -> bool {
    t == 6222 || t == 6137 || t == 6126 || t == 6123 || t == 6124 || t == 6127 || t == 6125 || t
        == 6223 || t == 6245 || t == 6263 || t == 6246
}

proof fn lemma_plain_block_tells(a: OrderAttrs, t: u32)
    requires
        !is_single_condition_tag(t),
    ensures
        tells(plain_condition_block(a), t, plain_block_value(a, t)),
{
    let n = a.conditions@.len();
    if n > 0 {
        let e = Seq::<(u32, Seq<char>)>::empty();
        let s0 = add_if(e, true, 6136, dec(n));
        assert(s0 =~= seq![(6136u32, dec(n))]);
        let s1 = add_if(s0, a.conditions_cancel_order, 6128, "1"@);
        let s2 = add_if(s1, a.conditions_ignore_rth, 6151, "1"@);
        let v0: Option<Seq<char>> = None;
        let v1 = value_after(v0, true, 6136, dec(n), t);
        let v2 = value_after(v1, a.conditions_cancel_order, 6128, "1"@, t);
        let v3 = value_after(v2, a.conditions_ignore_rth, 6151, "1"@, t);
        lemma_tells_added(e, true, 6136, dec(n), t, v0);
        lemma_tells_added(s0, a.conditions_cancel_order, 6128, "1"@, t, v1);
        lemma_tells_added(s1, a.conditions_ignore_rth, 6151, "1"@, t, v2);
        let texts = conditions_texts(a.conditions@, n, false);
        let f = plain_conditions(texts, n);
        let tags = plain_condition_tags();
        assert(tags[0] == 6222 && tags[1] == 6137 && tags[2] == 6126 && tags[3] == 6123 && tags[4]
            == 6124 && tags[5] == 6127 && tags[6] == 6125 && tags[7] == 6223 && tags[8] == 6245
            && tags[9] == 6263 && tags[10] == 6246);
        assert forall|i: int| 0 <= i < f.len() implies (#[trigger] f[i]).0 != t by {
            let k = i % 11;
            assert(f[i].0 == tags[k]);
            assert(k == 0 || k == 1 || k == 2 || k == 3 || k == 4 || k == 5 || k == 6 || k == 7 || k
                == 8 || k == 9 || k == 10);
        }
        assert(silent(f, t));
        lemma_says_concat(s2, f, t);
        match v3 {
            Some(v) => {
                assert(says(s2, t, v));
                assert(says(s2 + f, t, v));
            },
            None => {
                assert(silent(s2 + f, t));
            },
        }
    }
}

/// The message of a plain limit order with attributes says each that is set, and nothing of the
/// others; how many conditions there are, and what they do; and it ends with the values of the
/// conditions, eleven for each.
pub proof fn law_plain_attributes_are_said(
    c: ContextView,
    now: Seq<char>,
    account: Seq<char>,
    order_id: OrderId,
    instrument: InstrumentId,
    side: Side,
    qty: u32,
    price: Price,
    tif: u8,
    attrs: OrderAttrs,
    tag: u32,
)
    requires
        c.wf(),
        !is_plain_tag(tag) && tag != 44 && !is_single_condition_tag(tag),
    ensures
        ({
            let req = OrderRequest::SubmitLimitEx {
                order_id,
                instrument,
                side,
                qty,
                price,
                tif,
                attrs,
            };
            let m = plain_step(c, now, account, req);
            let n = attrs.conditions@.len();
            &&& m.len() == 1
            &&& tells(
                m[0],
                tag,
                if plain_attr_value(attrs, tag) is Some {
                    plain_attr_value(attrs, tag)
                } else {
                    plain_block_value(attrs, tag)
                },
            )
            &&& ends_with(
                m[0],
                plain_conditions(conditions_texts(attrs.conditions@, n, false), n),
            )
        }),
{
    let req = OrderRequest::SubmitLimitEx { order_id, instrument, side, qty, price, tif, attrs };
    let a = plain_asked(req)->0;
    let p = lemma_one_form(req, a);
    lemma_one_plain(c, now, account, p);
    let symbol = c.market.symbols[instrument as int];
    let n = attrs.conditions@.len();
    let conds = plain_conditions(conditions_texts(attrs.conditions@, n, false), n);
    let x = plain_attrs(attrs);
    let y = plain_condition_block(attrs);
    assert(p.prices == seq![(44u32, price_text(price as int))] && p.tail == x + y) by {
        reveal(limit_form);
    }
    lemma_plain_attrs_tell(attrs, tag);
    lemma_plain_block_tells(attrs, tag);
    lemma_says_concat(x, y, tag);
    let v = if plain_attr_value(attrs, tag) is Some {
        plain_attr_value(attrs, tag)
    } else {
        plain_block_value(attrs, tag)
    };
    assert(tells(x + y, tag, v));
    assert(p.prices.len() == 1 && p.prices[0].0 == 44);
    assert(silent(p.prices, tag));
    lemma_says_concat(p.prices, p.tail, tag);
    lemma_plain_own(now, account, symbol, p, tag);
    let msg = plain_message(now, account, symbol, p);
    match v {
        Some(w) => {
            assert(says(p.tail, tag, w));
            assert(says(p.prices + p.tail, tag, w));
            assert(says(msg, tag, w));
        },
        None => {
            assert(silent(p.prices + p.tail, tag));
        },
    }
    let k = msg.len() - conds.len();
    assert(msg.skip(k) =~= conds) by {
        let (h, m) = lemma_plain_head(now, account, symbol, p);
        if n == 0 {
            assert(conds.len() == 0);
        }
    }
}

/// The conditions of a plain order are said one behind the other, with eleven values each: the
/// type, whether another follows, whether it asks for more or for less, and its own values. The
/// exchange is said as it is.
pub proof fn law_plain_conditions_are_said(conds: Seq<OrderCondition>, i: int)
    requires
        0 <= i < conds.len(),
    ensures
        ({
            let n = conds.len();
            let all = plain_conditions(conditions_texts(conds, n, false), n);
            let m = all.subrange(11 * i, 11 * i + 11);
            &&& all.len() == 11 * n
            &&& says(
                m,
                6137,
                if i == n - 1 {
                    "n"@
                } else {
                    "a"@
                },
            )
            &&& match conds[i] {
                OrderCondition::Price { con_id, exchange, price, is_more, trigger_method } => {
                    &&& says(m, 6222, "1"@)
                    &&& says_more(m, is_more)
                    &&& says(m, 6123, int_text(con_id as int))
                    &&& says(m, 6124, exchange@)
                    &&& says(m, 6127, dec(trigger_method as nat))
                    &&& says(m, 6125, price_text(price as int))
                },
                OrderCondition::Time { time, is_more } => says(m, 6222, "3"@) && says_more(
                    m,
                    is_more,
                ) && says(m, 6223, time@),
                OrderCondition::Margin { percent, is_more } => says(m, 6222, "4"@) && says_more(
                    m,
                    is_more,
                ) && says(m, 6245, dec(percent as nat)),
                OrderCondition::Execution { .. } => says(m, 6222, "5"@),
                OrderCondition::Volume { con_id, exchange, volume, is_more } => says(m, 6222, "6"@)
                    && says_more(m, is_more) && says(m, 6123, int_text(con_id as int)) && says(
                    m,
                    6124,
                    exchange@,
                ) && says(m, 6263, int_text(volume as int)),
                OrderCondition::PercentChange { con_id, exchange, percent, is_more } => says(
                    m,
                    6222,
                    "7"@,
                ) && says_more(m, is_more) && says(m, 6123, int_text(con_id as int)) && says(
                    m,
                    6124,
                    exchange@,
                ) && says(m, 6245, percent@),
            }
        }),
{
    let n = conds.len();
    let texts = conditions_texts(conds, n, false);
    let all = plain_conditions(texts, n);
    let m = all.subrange(11 * i, 11 * i + 11);
    let v = condition_texts(conds[i], i == n - 1, false);
    lemma_plain_texts(conds, n, i);
    let t = plain_condition_tags();
    assert(t[0] == 6222 && t[1] == 6137 && t[2] == 6126 && t[3] == 6123 && t[4] == 6124 && t[5]
        == 6127 && t[6] == 6125 && t[7] == 6223 && t[8] == 6245 && t[9] == 6263 && t[10] == 6246);
    assert forall|j: int| 0 <= j < 11 implies #[trigger] m[j] == (t[j], v[j]) by {
        assert((11 * i + j) % 11 == j);
        assert(all[11 * i + j] == (t[j], texts[11 * i + j]));
        assert(texts.subrange(11 * i, 11 * i + 11)[j] == texts[11 * i + j]);
    }
    assert(m[0] == (6222u32, v[0]) && m[1] == (6137u32, v[1]) && m[2] == (6126u32, v[2]));
    assert(m[3] == (6123u32, v[3]) && m[4] == (6124u32, v[4]) && m[5] == (6127u32, v[5]));
    assert(m[6] == (6125u32, v[6]) && m[7] == (6223u32, v[7]) && m[8] == (6245u32, v[8]));
    assert(m[9] == (6263u32, v[9]) && m[10] == (6246u32, v[10]));
    lemma_one_field(m, 0, 6222, v[0]);
    lemma_one_field(m, 1, 6137, v[1]);
    lemma_one_field(m, 2, 6126, v[2]);
    lemma_one_field(m, 3, 6123, v[3]);
    lemma_one_field(m, 4, 6124, v[4]);
    lemma_one_field(m, 5, 6127, v[5]);
    lemma_one_field(m, 6, 6125, v[6]);
    lemma_one_field(m, 7, 6223, v[7]);
    lemma_one_field(m, 8, 6245, v[8]);
    lemma_one_field(m, 9, 6263, v[9]);
}

proof fn lemma_plain_texts(conds: Seq<OrderCondition>, k: nat, i: int)
    requires
        k <= conds.len(),
        0 <= i < k,
    ensures
        conditions_texts(conds, k, false).len() == 11 * k,
        conditions_texts(conds, k, false).subrange(11 * i, 11 * i + 11) == condition_texts(
            conds[i],
            i == conds.len() - 1,
            false,
        ),
    decreases k,
{
    lemma_conditions_len(conds, k, false);
    lemma_conditions_len(conds, (k - 1) as nat, false);
    let before = conditions_texts(conds, (k - 1) as nat, false);
    let f = conditions_texts(conds, k, false);
    if i < k - 1 {
        lemma_plain_texts(conds, (k - 1) as nat, i);
        assert(f.subrange(11 * i, 11 * i + 11) =~= before.subrange(11 * i, 11 * i + 11));
    } else {
        assert(f.subrange(11 * i, 11 * i + 11) =~= condition_texts(
            conds[i],
            k == conds.len(),
            false,
        ));
    }
}

/// A bracket in its plain form is three orders. The entry is a limit order on the side that was
/// asked for, good for the day. The second order takes the profit, with a limit at that price;
/// the third stops the loss, with a stop at that price. Both are on the other side, for the same
/// quantity, good until cancelled; they name the entry as their parent and share a group.
pub proof fn law_plain_bracket_exits_at_its_prices(
    c: ContextView,
    now: Seq<char>,
    account: Seq<char>,
    parent_id: OrderId,
    tp_id: OrderId,
    sl_id: OrderId,
    instrument: InstrumentId,
    side: Side,
    qty: u32,
    entry_price: Price,
    take_profit: Price,
    stop_loss: Price,
)
    requires
        c.wf(),
        parent_id != tp_id && parent_id != sl_id && tp_id != sl_id,
    ensures
        ({
            let req = OrderRequest::SubmitBracket {
                parent_id,
                tp_id,
                sl_id,
                instrument,
                side,
                qty,
                entry_price,
                take_profit,
                stop_loss,
            };
            let exit = if side == Side::Buy {
                Side::Sell
            } else {
                Side::Buy
            };
            let m = plain_step(c, now, account, req);
            let after = plain_effect(c, req);
            let entry = PlainAsked {
                order_id: parent_id,
                instrument,
                side,
                qty,
                code: "2"@,
                limit: Some(entry_price),
                stop: None,
                tif: 48,
                alone: false,
                price: entry_price,
                stop_price: 0,
            };
            let target = PlainAsked {
                order_id: tp_id,
                side: exit,
                limit: Some(take_profit),
                tif: 49,
                price: take_profit,
                ..entry
            };
            let loss = PlainAsked {
                order_id: sl_id,
                side: exit,
                code: "3"@,
                limit: None,
                stop: Some(stop_loss),
                tif: 49,
                price: stop_loss,
                stop_price: stop_loss,
                ..entry
            };
            &&& m.len() == 3
            &&& says_plain(m[0], c, now, account, entry)
            &&& silent(m[0], 6107) && silent(m[0], 583)
            &&& says_plain(m[1], c, now, account, target)
            &&& says_plain(m[2], c, now, account, loss)
            &&& says(m[1], 6107, dec(parent_id as nat)) && says(m[2], 6107, dec(parent_id as nat))
            &&& says(m[1], 583, "OCA_"@ + dec(parent_id as nat))
            &&& says(m[2], 583, "OCA_"@ + dec(parent_id as nat))
            &&& says(m[1], 6209, "CancelOnFillWBlock"@)
            &&& says(m[2], 6209, "CancelOnFillWBlock"@)
            &&& after.order(parent_id) is Some && tracks_plain(after.order(parent_id)->0, entry)
            &&& after.order(tp_id) is Some && tracks_plain(after.order(tp_id)->0, target)
            &&& after.order(sl_id) is Some && tracks_plain(after.order(sl_id)->0, loss)
            &&& forall|other: OrderId|
                other != parent_id && other != tp_id && other != sl_id ==> #[trigger] after.order(
                    other,
                ) == c.order(other)
        }),
{
    let req = OrderRequest::SubmitBracket {
        parent_id,
        tp_id,
        sl_id,
        instrument,
        side,
        qty,
        entry_price,
        take_profit,
        stop_loss,
    };
    let exit = if side == Side::Buy {
        Side::Sell
    } else {
        Side::Buy
    };
    let entry = PlainAsked {
        order_id: parent_id,
        instrument,
        side,
        qty,
        code: "2"@,
        limit: Some(entry_price),
        stop: None,
        tif: 48,
        alone: false,
        price: entry_price,
        stop_price: 0,
    };
    let target = PlainAsked {
        order_id: tp_id,
        side: exit,
        limit: Some(take_profit),
        tif: 49,
        price: take_profit,
        ..entry
    };
    let loss = PlainAsked {
        order_id: sl_id,
        side: exit,
        code: "3"@,
        limit: None,
        stop: Some(stop_loss),
        tif: 49,
        price: stop_loss,
        stop_price: stop_loss,
        ..entry
    };
    lemma_bracket_forms(req);
    let f = plain_forms(req);
    let t = plain_child_tail(parent_id);
    assert(t.len() == 3);
    assert(t[0] == (6107u32, dec(parent_id as nat)));
    assert(t[1] == (583u32, "OCA_"@ + dec(parent_id as nat)));
    assert(t[2] == (6209u32, "CancelOnFillWBlock"@));
    lemma_one_field(t, 0, 6107, dec(parent_id as nat));
    lemma_one_field(t, 1, 583, "OCA_"@ + dec(parent_id as nat));
    lemma_one_field(t, 2, 6209, "CancelOnFillWBlock"@);
    lemma_form_prices(f[0], entry);
    lemma_form_prices(f[1], target);
    lemma_form_prices(f[2], loss);
    lemma_plain_says(c, now, account, f[0], entry);
    lemma_plain_says(c, now, account, f[1], target);
    lemma_plain_says(c, now, account, f[2], loss);
    let symbol = c.market.symbols[instrument as int];
    lemma_child_says(now, account, symbol, f[1], parent_id);
    lemma_child_says(now, account, symbol, f[2], parent_id);
    assert(silent(f[0].prices + f[0].tail, 6107) && silent(f[0].prices + f[0].tail, 583));
    lemma_plain_own(now, account, symbol, f[0], 6107);
    lemma_plain_own(now, account, symbol, f[0], 583);
    lemma_three_plain(c, now, account, f[0], f[1], f[2]);
    assert(f =~= seq![f[0], f[1], f[2]]);
}

proof fn lemma_child_says(
    now: Seq<char>,
    account: Seq<char>,
    symbol: Seq<char>,
    p: PlainView,
    parent_id: OrderId,
)
    requires
        p.tail == plain_child_tail(parent_id),
        p.prices.len() == 1,
        p.prices[0].0 == 44 || p.prices[0].0 == 99,
        says(p.tail, 6107, dec(parent_id as nat)),
        says(p.tail, 583, "OCA_"@ + dec(parent_id as nat)),
        says(p.tail, 6209, "CancelOnFillWBlock"@),
    ensures
        says(plain_message(now, account, symbol, p), 6107, dec(parent_id as nat)),
        says(plain_message(now, account, symbol, p), 583, "OCA_"@ + dec(parent_id as nat)),
        says(plain_message(now, account, symbol, p), 6209, "CancelOnFillWBlock"@),
{
    lemma_says_concat(p.prices, p.tail, 6107);
    lemma_says_concat(p.prices, p.tail, 583);
    lemma_says_concat(p.prices, p.tail, 6209);
    lemma_plain_own(now, account, symbol, p, 6107);
    lemma_plain_own(now, account, symbol, p, 583);
    lemma_plain_own(now, account, symbol, p, 6209);
    assert(says(p.prices + p.tail, 6107, dec(parent_id as nat)));
    assert(says(p.prices + p.tail, 583, "OCA_"@ + dec(parent_id as nat)));
    assert(says(p.prices + p.tail, 6209, "CancelOnFillWBlock"@));
}

proof fn lemma_bracket_forms(req: OrderRequest)
    requires
        req is SubmitBracket,
    ensures
        limit_form(req) is None && stop_form(req) is None && market_form(req) is None,
{
    reveal(limit_form);
    reveal(stop_form);
    reveal(market_form);
}

proof fn lemma_three_plain(
    c: ContextView,
    now: Seq<char>,
    account: Seq<char>,
    p0: PlainView,
    p1: PlainView,
    p2: PlainView,
)
    requires
        c.wf(),
        p0.order.order_id != p1.order.order_id,
        p0.order.order_id != p2.order.order_id,
        p1.order.order_id != p2.order.order_id,
    ensures
        ({
            let m = plain_messages(c, now, account, seq![p0, p1, p2]);
            let after = with_plain_orders(c, seq![p0, p1, p2]);
            &&& m == seq![
                plain_message(now, account, c.market.symbols[p0.order.instrument as int], p0),
                plain_message(now, account, c.market.symbols[p1.order.instrument as int], p1),
                plain_message(now, account, c.market.symbols[p2.order.instrument as int], p2),
            ]
            &&& after.order(p0.order.order_id) == Some(p0.order)
            &&& after.order(p1.order.order_id) == Some(p1.order)
            &&& after.order(p2.order.order_id) == Some(p2.order)
            &&& forall|other: OrderId|
                other != p0.order.order_id && other != p1.order.order_id && other
                    != p2.order.order_id ==> #[trigger] after.order(other) == c.order(other)
        }),
{
    let all = seq![p0, p1, p2];
    let two = seq![p0, p1];
    let one = seq![p0];
    assert(plain_messages(c, now, account, all) =~= seq![
        plain_message(now, account, c.market.symbols[p0.order.instrument as int], p0),
        plain_message(now, account, c.market.symbols[p1.order.instrument as int], p1),
        plain_message(now, account, c.market.symbols[p2.order.instrument as int], p2),
    ]);
    assert(all.drop_last() =~= two);
    assert(two.drop_last() =~= one);
    assert(one.drop_last() =~= Seq::<PlainView>::empty());
    reveal_with_fuel(with_plain_orders, 4);
    let o0 = put_order(c.orders, p0.order);
    let o1 = put_order(o0, p1.order);
    lemma_put_distinct(c.orders, p0.order);
    lemma_put_distinct(o0, p1.order);
    assert forall|other: OrderId|
        #![trigger find_order(put_order(o1, p2.order), other)]
        find_order(put_order(o1, p2.order), other) == (if other == p2.order.order_id {
            Some(p2.order)
        } else if other == p1.order.order_id {
            Some(p1.order)
        } else if other == p0.order.order_id {
            Some(p0.order)
        } else {
            find_order(c.orders, other)
        }) by {
        law_put_then_find(c.orders, p0.order, other);
        law_put_then_find(o0, p1.order, other);
        law_put_then_find(o1, p2.order, other);
    }
}

} // verus!
