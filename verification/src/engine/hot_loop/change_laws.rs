//! What the messages say that cancel and replace orders, and what follows.
use vstd::prelude::*;

use crate::calendar::time_text;
use crate::engine::context::{open_orders, ContextView};
use crate::engine::hot_loop::order_builder::{
    cancel_message, replace_companions, replace_head, replace_message, replace_prices,
    replace_target, request_effect, request_step, ReplaceTargetView,
};
use crate::engine::hot_loop::order_fields::{add_if, percent_text, with_expiry, FieldSeq};
use crate::engine::hot_loop::placing_laws::{
    lemma_one_field, lemma_says_concat, says, silent, tif_char,
};
use crate::engine::hot_loop::plain_orders::{plain_cancel, plain_effect, plain_replace, plain_step};
use crate::engine::hot_loop::special_laws::{lemma_tells_added, tells, value_after};
use crate::engine::order::{
    is_final, Order, OrderAttrs, OrderKind, OrderRequest, OrderStatus, Side,
};
use crate::text::{dec, dec_padded, int_text};
use crate::types::{price_text, InstrumentId, OrderId, Price};

verus! {

// ---------------------------------------------------------------------------------------
// Cancels
// ---------------------------------------------------------------------------------------

/// What a request to cancel an order says: that it is one, when, under the number of the order
/// behind a `C`, and under which id the server knows the order.
pub open spec fn says_cancel(m: FieldSeq, now: Seq<char>, id: OrderId, known_as: Seq<char>) -> bool {
    &&& says(m, 35, "F"@)
    &&& says(m, 52, now)
    &&& says(m, 60, now)
    &&& says(m, 11, seq!['C'] + dec(id as nat))
    &&& says(m, 41, known_as)
}

proof fn lemma_cancel_says(m: FieldSeq, now: Seq<char>, id: OrderId, known_as: Seq<char>)
    requires
        m == seq![
            (35u32, "F"@),
            (52u32, now),
            (11u32, seq!['C'] + dec(id as nat)),
            (41u32, known_as),
            (60u32, now),
        ],
    ensures
        says_cancel(m, now, id, known_as),
{
    assert(m.len() == 5);
    assert(m[0].0 == 35 && m[1].0 == 52 && m[2].0 == 11 && m[3].0 == 41 && m[4].0 == 60);
    lemma_one_field(m, 0, 35, "F"@);
    lemma_one_field(m, 1, 52, now);
    lemma_one_field(m, 2, 11, seq!['C'] + dec(id as nat));
    lemma_one_field(m, 3, 41, known_as);
    lemma_one_field(m, 4, 60, now);
}

/// A tracked order whose cancel is not pending is cancelled by one message, which names it as
/// the server knows it: by the client order id that the server last reported, or else by its
/// number and how often it was replaced. An order whose cancel is pending, or that has ended, is
/// refused with one code, and an order that is not known with another; then nothing is sent.
pub proof fn law_cancel_is_sent_or_refused(
    c: ContextView,
    account: Seq<char>,
    now: Seq<char>,
    id: OrderId,
)
    ensures
        ({
            let req = OrderRequest::Cancel { order_id: id };
            let step = request_step(c, account, now, req);
            let known_as = if c.clords.contains_key(id) {
                c.clords[id]
            } else if c.versions.contains_key(id) {
                dec(id as nat).push('.') + dec(c.versions[id] as nat)
            } else {
                dec(id as nat).push('.') + dec(0)
            };
            &&& c.order(id) is Some && c.order(id)->0.status != OrderStatus::PendingCancel ==> {
                &&& step is Cancel
                &&& step->Cancel_messages.len() == 1
                &&& step->Cancel_messages[0].0 == id
                &&& says_cancel(step->Cancel_messages[0].1, now, id, known_as)
            }
            &&& c.order(id) is Some && c.order(id)->0.status == OrderStatus::PendingCancel ==> step
                is Refused && step->Refused_code == 10148 && step->Refused_order_id == id
            &&& c.order(id) is None && c.finished.contains_key(id) ==> step is Refused
                && step->Refused_code == 10148 && step->Refused_order_id == id
            &&& c.order(id) is None && !c.finished.contains_key(id) ==> step is Refused
                && step->Refused_code == 10147 && step->Refused_order_id == id
            &&& request_effect(c, req) == c
        }),
{
    if c.order(id) is Some {
        lemma_cancel_says(cancel_message(c, now, id), now, id, c.server_clord(id));
    }
}

/// Whether an order is tracked for an instrument and has not ended.
pub open spec fn is_open_order(c: ContextView, instrument: InstrumentId, id: OrderId) -> bool {
    exists|k: int|
        0 <= k < c.orders.len() && (#[trigger] c.orders[k]).order_id == id && c.orders[k].instrument
            == instrument && c.orders[k].status != OrderStatus::Filled && c.orders[k].status
            != OrderStatus::Cancelled && c.orders[k].status != OrderStatus::Rejected
}

/// Whether one of a list of messages cancels an order.
pub open spec fn is_cancelled(
    m: Seq<(OrderId, FieldSeq)>,
    now: Seq<char>,
    id: OrderId,
    known_as: Seq<char>,
) -> bool {
    exists|i: int|
        0 <= i < m.len() && (#[trigger] m[i]).0 == id && says_cancel(m[i].1, now, id, known_as)
}

/// A request to cancel all orders of an instrument gives a message for each order that is tracked
/// for it and has not ended, and none for any other.
pub proof fn law_cancel_all_reaches_each_open_order(
    c: ContextView,
    account: Seq<char>,
    now: Seq<char>,
    instrument: InstrumentId,
)
    ensures
        ({
            let step = request_step(c, account, now, OrderRequest::CancelAll { instrument });
            let m = step->Cancel_messages;
            &&& step is Cancel
            &&& forall|i: int|
                0 <= i < m.len() ==> is_open_order(c, instrument, (#[trigger] m[i]).0)
            &&& forall|id: OrderId| #[trigger]
                is_open_order(c, instrument, id) ==> is_cancelled(m, now, id, c.server_clord(id))
            &&& request_effect(c, OrderRequest::CancelAll { instrument }) == c
        }),
{
    let step = request_step(c, account, now, OrderRequest::CancelAll { instrument });
    let open = open_orders(c.orders, instrument);
    let keep = |o: Order| o.instrument == instrument && !is_final(o.status);
    let m = step->Cancel_messages;
    lemma_filter_members(c.orders, keep);
    assert forall|i: int| 0 <= i < m.len() implies is_open_order(
        c,
        instrument,
        (#[trigger] m[i]).0,
    ) by {
        assert(open.contains(open[i]));
        assert(c.orders.contains(open[i]));
        let k = choose|k: int| 0 <= k < c.orders.len() && c.orders[k] == open[i];
        assert(c.orders[k].order_id == m[i].0);
    }
    assert forall|id: OrderId| #[trigger] is_open_order(c, instrument, id) implies is_cancelled(
        m,
        now,
        id,
        c.server_clord(id),
    ) by {
        let k = choose|k: int|
            0 <= k < c.orders.len() && (#[trigger] c.orders[k]).order_id == id
                && c.orders[k].instrument == instrument && c.orders[k].status
                != OrderStatus::Filled && c.orders[k].status != OrderStatus::Cancelled
                && c.orders[k].status != OrderStatus::Rejected;
        let o = c.orders[k];
        assert(c.orders.contains(o));
        assert(open.contains(o));
        let i = choose|i: int| 0 <= i < open.len() && open[i] == o;
        lemma_cancel_says(m[i].1, now, id, c.server_clord(id));
        assert(m[i].0 == id);
    }
}

proof fn lemma_filter_members(s: Seq<Order>, keep: spec_fn(Order) -> bool)
    ensures
        forall|o: Order| #[trigger] s.filter(keep).contains(o) <==> s.contains(o) && keep(o),
    decreases s.len(),
{
    reveal(Seq::filter);
    if s.len() > 0 {
        let init = s.drop_last();
        let f = s.filter(keep);
        let g = init.filter(keep);
        lemma_filter_members(init, keep);
        assert forall|o: Order| #[trigger] f.contains(o) <==> s.contains(o) && keep(o) by {
            if f.contains(o) {
                let i = choose|i: int| 0 <= i < f.len() && f[i] == o;
                if i < g.len() {
                    assert(g[i] == o);
                    assert(g.contains(o));
                    let j = choose|j: int| 0 <= j < init.len() && init[j] == o;
                    assert(s[j] == o);
                } else {
                    assert(s[s.len() - 1] == o);
                }
            }
            if s.contains(o) && keep(o) {
                let j = choose|j: int| 0 <= j < s.len() && s[j] == o;
                if j < init.len() {
                    assert(init[j] == o);
                    assert(g.contains(o));
                    let i = choose|i: int| 0 <= i < g.len() && g[i] == o;
                    assert(f[i] == o);
                } else {
                    assert(f[g.len() as int] == o);
                }
            }
        }
    }
}

/// A plain request to cancel an order names it by its number.
pub proof fn law_plain_cancel_names_the_order(
    c: ContextView,
    now: Seq<char>,
    account: Seq<char>,
    id: OrderId,
)
    ensures
        ({
            let m = plain_step(c, now, account, OrderRequest::Cancel { order_id: id });
            &&& m.len() == 1
            &&& says_cancel(m[0], now, id, dec(id as nat))
        }),
{
    reveal_strlit("C");
    assert("C"@ =~= seq!['C']);
    lemma_cancel_says(plain_cancel(now, id), now, id, dec(id as nat));
}

// ---------------------------------------------------------------------------------------
// Replaces
// ---------------------------------------------------------------------------------------

pub(crate) proof fn lemma_tells_concat(
    a: FieldSeq,
    b: FieldSeq,
    t: u32,
    va: Option<Seq<char>>,
    vb: Option<Seq<char>>,
)
    requires
        tells(a, t, va),
        tells(b, t, vb),
        va is None || vb is None,
    ensures
        tells(
            a + b,
            t,
            if va is Some {
                va
            } else {
                vb
            },
        ),
{
    lemma_says_concat(a, b, t);
    match (va, vb) {
        (Some(v), _) => {
            assert(says(a, t, v));
            assert(says(a + b, t, v));
        },
        (None, Some(v)) => {
            assert(says(b, t, v));
            assert(says(a + b, t, v));
        },
        (None, None) => {
            assert(silent(a + b, t));
        },
    }
}

/// A price, if it is set.
pub open spec fn set_price(price: Price) -> Option<Seq<char>> {
    if price > 0 {
        Some(price_text(price as int))
    } else {
        None
    }
}

/// What a replace request says of the new type of an order under a tag: the limit (44), the stop
/// or the trail (99 and 211), the instruction (18), and the marks of a midpoint peg.
pub open spec fn replaced_kind_value(kind: OrderKind, t: u32) -> Option<Seq<char>> {
    if t == 44 {
        match kind {
            OrderKind::Limit { price } => Some(price_text(price as int)),
            OrderKind::Loc { price } => Some(price_text(price as int)),
            OrderKind::StopLimit { price, .. } => Some(price_text(price as int)),
            OrderKind::Lit { price, .. } => Some(price_text(price as int)),
            OrderKind::MidPrice { price_cap } => set_price(price_cap),
            _ => None,
        }
    } else if t == 99 {
        match kind {
            OrderKind::Stop { stop_price } => Some(price_text(stop_price as int)),
            OrderKind::Mit { stop_price } => Some(price_text(stop_price as int)),
            OrderKind::StpPrt { stop_price } => Some(price_text(stop_price as int)),
            OrderKind::AdjustableStop { stop_price, .. } => Some(price_text(stop_price as int)),
            OrderKind::StopLimit { stop_price, .. } => Some(price_text(stop_price as int)),
            OrderKind::Lit { stop_price, .. } => Some(price_text(stop_price as int)),
            OrderKind::TrailingStop { trail_amt, .. } => Some(price_text(trail_amt as int)),
            OrderKind::TrailingStopLimit { trail_amt, .. } => Some(price_text(trail_amt as int)),
            OrderKind::TrailPct { trail_pct, .. } => Some(percent_text(trail_pct)),
            _ => None,
        }
    } else if t == 211 {
        match kind {
            OrderKind::TrailingStop { trail_amt, .. } => Some(price_text(trail_amt as int)),
            OrderKind::TrailingStopLimit { trail_amt, .. } => Some(price_text(trail_amt as int)),
            OrderKind::TrailPct { trail_pct, .. } => Some(percent_text(trail_pct)),
            OrderKind::PegMkt { offset } => set_price(offset),
            OrderKind::PegMid { offset } => set_price(offset),
            OrderKind::Rel { offset } => Some(price_text(offset as int)),
            _ => None,
        }
    } else if t == 18 {
        match kind {
            OrderKind::TrailingStop { .. } => Some("a"@),
            OrderKind::TrailPct { .. } => Some("a"@),
            OrderKind::Rel { .. } => Some("R"@),
            _ => None,
        }
    } else if t == 8403 || t == 8404 {
        if kind is PegMid {
            Some("0.0"@)
        } else {
            None
        }
    } else {
        None
    }
}

/// What a replace request says of a trail's limit and unit, and of the stop that it restates.
pub open spec fn replaced_rest_value(kind: OrderKind, t: u32) -> Option<Seq<char>> {
    if t == 6117 {
        match kind {
            OrderKind::Stop { stop_price } => Some(price_text(stop_price as int)),
            OrderKind::StopLimit { stop_price, .. } => Some(price_text(stop_price as int)),
            OrderKind::AdjustableStop { stop_price, .. } => Some(price_text(stop_price as int)),
            _ => None,
        }
    } else if t == 6370 {
        match kind {
            OrderKind::TrailingStopLimit { lmt_offset, .. } => Some(price_text(lmt_offset as int)),
            _ => None,
        }
    } else if t == 6268 {
        match kind {
            OrderKind::TrailingStop { .. } => Some("0"@),
            OrderKind::TrailingStopLimit { .. } => Some("0"@),
            OrderKind::TrailPct { .. } => Some("100"@),
            _ => None,
        }
    } else {
        None
    }
}

/// The code of an order type.
pub open spec fn code_of(kind: OrderKind) -> Seq<char> {
    match kind {
        OrderKind::Market => "1"@,
        OrderKind::Limit { .. } => "2"@,
        OrderKind::Stop { .. } => "3"@,
        OrderKind::AdjustableStop { .. } => "3"@,
        OrderKind::StopLimit { .. } => "4"@,
        OrderKind::TrailingStop { .. } => "P"@,
        OrderKind::TrailPct { .. } => "P"@,
        OrderKind::Rel { .. } => "P"@,
        OrderKind::TrailingStopLimit { .. } => "TSL"@,
        OrderKind::Moc => "5"@,
        OrderKind::Loc { .. } => "B"@,
        OrderKind::Mit { .. } => "J"@,
        OrderKind::Lit { .. } => "LT"@,
        OrderKind::Mtl => "K"@,
        OrderKind::MktPrt => "U"@,
        OrderKind::StpPrt { .. } => "SP"@,
        OrderKind::MidPrice { .. } => "MIDPX"@,
        OrderKind::SnapMkt => "SMKT"@,
        OrderKind::SnapMid => "SMID"@,
        OrderKind::SnapPri => "SREL"@,
        OrderKind::PegMkt { .. } => "E"@,
        OrderKind::PegMid { .. } => "E"@,
    }
}

proof fn lemma_prices_tell(kind: OrderKind, t: u32)
    ensures
        tells(
            replace_prices(kind),
            t,
            if t == 44 || t == 99 {
                replaced_kind_value(kind, t)
            } else {
                None
            },
        ),
{
    let s = replace_prices(kind);
    let e = Seq::<(u32, Seq<char>)>::empty();
    match kind {
        OrderKind::StopLimit { price, stop_price } => {
            assert(s.len() == 2 && s[0] == (44u32, price_text(price as int)) && s[1] == (
                99u32,
                price_text(stop_price as int),
            ));
        },
        OrderKind::Lit { price, stop_price } => {
            assert(s.len() == 2 && s[0] == (44u32, price_text(price as int)) && s[1] == (
                99u32,
                price_text(stop_price as int),
            ));
        },
        OrderKind::MidPrice { price_cap } => {
            if price_cap > 0 {
                assert(s.len() == 1 && s[0] == (44u32, price_text(price_cap as int)));
            }
        },
        _ => {
            if s.len() > 0 {
                assert(s.len() == 1);
                assert(s[0] == s[0]);
            }
        },
    }
}

proof fn lemma_companions_tell(kind: OrderKind, t: u32)
    ensures
        tells(
            replace_companions(kind),
            t,
            if t == 211 || t == 18 || t == 8403 || t == 8404 {
                replaced_kind_value(kind, t)
            } else {
                None
            },
        ),
{
    let s = replace_companions(kind);
    match kind {
        OrderKind::TrailingStop { trail_amt, .. } => {
            assert(s.len() == 2 && s[0] == (211u32, price_text(trail_amt as int)) && s[1] == (
                18u32,
                "a"@,
            ));
        },
        OrderKind::TrailPct { trail_pct, .. } => {
            assert(s.len() == 2 && s[0] == (211u32, percent_text(trail_pct)) && s[1] == (
                18u32,
                "a"@,
            ));
        },
        OrderKind::TrailingStopLimit { trail_amt, .. } => {
            assert(s.len() == 1 && s[0] == (211u32, price_text(trail_amt as int)));
        },
        OrderKind::PegMkt { offset } => {
            if offset > 0 {
                assert(s.len() == 1 && s[0] == (211u32, price_text(offset as int)));
            }
        },
        OrderKind::PegMid { offset } => {
            assert(s[0] == (8403u32, "0.0"@) && s[1] == (8404u32, "0.0"@));
            if offset > 0 {
                assert(s.len() == 3 && s[2] == (211u32, price_text(offset as int)));
            } else {
                assert(s.len() == 2);
            }
        },
        OrderKind::Rel { offset } => {
            assert(s.len() == 2 && s[0] == (211u32, price_text(offset as int)) && s[1] == (
                18u32,
                "R"@,
            ));
        },
        _ => {},
    }
}

/// What a replace request says under a tag, of the order that it names, for a new quantity, type
/// and time in force.
pub open spec fn replaced_value(
    now: Seq<char>,
    account: Seq<char>,
    target: ReplaceTargetView,
    qty: u32,
    kind: OrderKind,
    tif: u8,
    attrs: OrderAttrs,
    t: u32,
) -> Option<Seq<char>> {
    if t == 35 {
        Some("G"@)
    } else if t == 52 {
        Some(now)
    } else if t == 11 {
        Some(target.clord)
    } else if t == 41 {
        Some(target.orig_clord)
    } else if t == 1 {
        Some(account)
    } else if t == 432 {
        if attrs.good_till_date_ymd > 0 {
            Some(dec_padded(attrs.good_till_date_ymd as nat, 8))
        } else {
            None
        }
    } else if t == 126 {
        if attrs.good_till_date_ymd == 0 && attrs.good_till > 0 {
            Some(time_text(attrs.good_till as nat, '-'))
        } else {
            None
        }
    } else if t == 6122 {
        Some("c"@)
    } else if t == 6433 {
        if attrs.outside_rth {
            Some("1"@)
        } else {
            None
        }
    } else if t == 38 {
        Some(dec(qty as nat))
    } else if t == 54 {
        Some(target.side)
    } else if t == 40 {
        Some(code_of(kind))
    } else if t == 55 || t == 6035 {
        Some(target.symbol)
    } else if t == 167 {
        Some(target.sec_type)
    } else if t == 59 {
        Some(seq![tif_char(tif)])
    } else if t == 6008 {
        Some(target.con_id)
    } else if t == 6088 {
        Some("Socket"@)
    } else if t == 6211 || t == 6238 {
        Some(Seq::<char>::empty())
    } else if t == 6117 || t == 6370 || t == 6268 {
        replaced_rest_value(kind, t)
    } else {
        replaced_kind_value(kind, t)
    }
}

/// The fields of a replace request up to the expiry.
pub open spec fn replace_start(
    now: Seq<char>,
    account: Seq<char>,
    target: ReplaceTargetView,
    kind: OrderKind,
    attrs: OrderAttrs,
) -> FieldSeq {
    with_expiry(
        (seq![
            (35u32, "G"@),
            (52u32, now),
            (11u32, target.clord),
            (41u32, target.orig_clord),
        ] + replace_prices(kind)).push((1u32, account)),
        attrs,
    )
}

/// What a replace request says up to the expiry.
pub open spec fn start_value(
    now: Seq<char>,
    account: Seq<char>,
    target: ReplaceTargetView,
    kind: OrderKind,
    attrs: OrderAttrs,
    t: u32,
) -> Option<Seq<char>> {
    if t == 35 {
        Some("G"@)
    } else if t == 52 {
        Some(now)
    } else if t == 11 {
        Some(target.clord)
    } else if t == 41 {
        Some(target.orig_clord)
    } else if t == 1 {
        Some(account)
    } else if t == 44 || t == 99 {
        replaced_kind_value(kind, t)
    } else if t == 432 && attrs.good_till_date_ymd > 0 {
        Some(dec_padded(attrs.good_till_date_ymd as nat, 8))
    } else if t == 126 && attrs.good_till_date_ymd == 0 && attrs.good_till > 0 {
        Some(time_text(attrs.good_till as nat, '-'))
    } else {
        None
    }
}

proof fn lemma_start_tells(
    now: Seq<char>,
    account: Seq<char>,
    target: ReplaceTargetView,
    kind: OrderKind,
    attrs: OrderAttrs,
    t: u32,
)
    ensures
        tells(
            replace_start(now, account, target, kind, attrs),
            t,
            start_value(now, account, target, kind, attrs, t),
        ),
{
    let e = Seq::<(u32, Seq<char>)>::empty();
    let a1 = add_if(e, true, 35, "G"@);
    let a2 = add_if(a1, true, 52, now);
    let a3 = add_if(a2, true, 11, target.clord);
    let a4 = add_if(a3, true, 41, target.orig_clord);
    assert(a4 =~= seq![
        (35u32, "G"@),
        (52u32, now),
        (11u32, target.clord),
        (41u32, target.orig_clord),
    ]);
    let v0: Option<Seq<char>> = None;
    let v1 = value_after(v0, true, 35, "G"@, t);
    let v2 = value_after(v1, true, 52, now, t);
    let v3 = value_after(v2, true, 11, target.clord, t);
    let v4 = value_after(v3, true, 41, target.orig_clord, t);
    lemma_tells_added(e, true, 35, "G"@, t, v0);
    lemma_tells_added(a1, true, 52, now, t, v1);
    lemma_tells_added(a2, true, 11, target.clord, t, v2);
    lemma_tells_added(a3, true, 41, target.orig_clord, t, v3);
    let prices = replace_prices(kind);
    let vp = if t == 44 || t == 99 {
        replaced_kind_value(kind, t)
    } else {
        None
    };
    lemma_prices_tell(kind, t);
    lemma_tells_concat(a4, prices, t, v4, vp);
    let b0 = a4 + prices;
    let w0 = if v4 is Some {
        v4
    } else {
        vp
    };
    let dated = attrs.good_till_date_ymd > 0;
    let timed = !dated && attrs.good_till > 0;
    let date = dec_padded(attrs.good_till_date_ymd as nat, 8);
    let time = time_text(attrs.good_till as nat, '-');
    let b1 = add_if(b0, true, 1, account);
    let b2 = add_if(b1, dated, 432, date);
    let b3 = add_if(b2, timed, 126, time);
    assert(b3 == with_expiry(b1, attrs));
    let w1 = value_after(w0, true, 1, account, t);
    let w2 = value_after(w1, dated, 432, date, t);
    lemma_tells_added(b0, true, 1, account, t, w0);
    lemma_tells_added(b1, dated, 432, date, t, w1);
    lemma_tells_added(b2, timed, 126, time, t, w2);
}

/// What the first fields of a replace request say under a tag.
proof fn lemma_replace_head_tells(
    now: Seq<char>,
    account: Seq<char>,
    target: ReplaceTargetView,
    kind: OrderKind,
    attrs: OrderAttrs,
    t: u32,
) -> (v: Option<Seq<char>>)
    ensures
        tells(replace_head(now, account, target, kind, attrs), t, v),
        v == (if t == 6122 {
            Some("c"@)
        } else if t == 6433 {
            if attrs.outside_rth {
                Some("1"@)
            } else {
                None
            }
        } else if t == 6117 || t == 6370 || t == 6268 {
            replaced_rest_value(kind, t)
        } else {
            start_value(now, account, target, kind, attrs, t)
        }),
{
    let b3 = replace_start(now, account, target, kind, attrs);
    let w3 = start_value(now, account, target, kind, attrs, t);
    lemma_start_tells(now, account, target, kind, attrs, t);
    let stop = replaced_rest_value(kind, 6117);
    let offset = replaced_rest_value(kind, 6370);
    let unit = replaced_rest_value(kind, 6268);
    let b4 = add_if(b3, stop is Some, 6117, stop->0);
    let b5 = add_if(b4, offset is Some, 6370, offset->0);
    let b6 = add_if(b5, true, 6122, "c"@);
    let b7 = add_if(b6, attrs.outside_rth, 6433, "1"@);
    let b8 = add_if(b7, unit is Some, 6268, unit->0);
    let w4 = value_after(w3, stop is Some, 6117, stop->0, t);
    let w5 = value_after(w4, offset is Some, 6370, offset->0, t);
    let w6 = value_after(w5, true, 6122, "c"@, t);
    let w7 = value_after(w6, attrs.outside_rth, 6433, "1"@, t);
    let w8 = value_after(w7, unit is Some, 6268, unit->0, t);
    lemma_tells_added(b3, stop is Some, 6117, stop->0, t, w3);
    lemma_tells_added(b4, offset is Some, 6370, offset->0, t, w4);
    lemma_tells_added(b5, true, 6122, "c"@, t, w5);
    lemma_tells_added(b6, attrs.outside_rth, 6433, "1"@, t, w6);
    lemma_tells_added(b7, unit is Some, 6268, unit->0, t, w7);
    assert(b8 == replace_head(now, account, target, kind, attrs));
    w8
}

/// What a replace request says under a tag.
proof fn lemma_replace_tells(
    now: Seq<char>,
    account: Seq<char>,
    target: ReplaceTargetView,
    qty: u32,
    kind: OrderKind,
    tif: u8,
    attrs: OrderAttrs,
    t: u32,
)
    ensures
        tells(
            replace_message(now, account, target, qty, kind, tif, attrs),
            t,
            replaced_value(now, account, target, qty, kind, tif, attrs, t),
        ),
{
    let none = Seq::<char>::empty();
    let h = replace_head(now, account, target, kind, attrs);
    let v0 = lemma_replace_head_tells(now, account, target, kind, attrs, t);
    let code = crate::engine::hot_loop::order_fields::type_code(kind);
    assert(code == code_of(kind));
    let tt = crate::engine::hot_loop::order_fields::tif_text(tif);
    assert(tt == seq![tif_char(tif)]);
    let h1 = add_if(h, true, 38, dec(qty as nat));
    let h2 = add_if(h1, true, 54, target.side);
    let h3 = add_if(h2, true, 40, code);
    let v1 = value_after(v0, true, 38, dec(qty as nat), t);
    let v2 = value_after(v1, true, 54, target.side, t);
    let v3 = value_after(v2, true, 40, code, t);
    lemma_tells_added(h, true, 38, dec(qty as nat), t, v0);
    lemma_tells_added(h1, true, 54, target.side, t, v1);
    lemma_tells_added(h2, true, 40, code, t, v2);
    let comp = replace_companions(kind);
    let vc = if t == 211 || t == 18 || t == 8403 || t == 8404 {
        replaced_kind_value(kind, t)
    } else {
        None
    };
    lemma_companions_tell(kind, t);
    lemma_tells_concat(h3, comp, t, v3, vc);
    let s0 = h3 + comp;
    let w0 = if v3 is Some {
        v3
    } else {
        vc
    };
    let s1 = add_if(s0, true, 55, target.symbol);
    let s2 = add_if(s1, true, 167, target.sec_type);
    let s3 = add_if(s2, true, 6035, target.symbol);
    let s4 = add_if(s3, true, 59, tt);
    let s5 = add_if(s4, true, 6008, target.con_id);
    let s6 = add_if(s5, true, 6088, "Socket"@);
    let s7 = add_if(s6, true, 6211, none);
    let w1 = value_after(w0, true, 55, target.symbol, t);
    let w2 = value_after(w1, true, 167, target.sec_type, t);
    let w3 = value_after(w2, true, 6035, target.symbol, t);
    let w4 = value_after(w3, true, 59, tt, t);
    let w5 = value_after(w4, true, 6008, target.con_id, t);
    let w6 = value_after(w5, true, 6088, "Socket"@, t);
    let w7 = value_after(w6, true, 6211, none, t);
    lemma_tells_added(s0, true, 55, target.symbol, t, w0);
    lemma_tells_added(s1, true, 167, target.sec_type, t, w1);
    lemma_tells_added(s2, true, 6035, target.symbol, t, w2);
    lemma_tells_added(s3, true, 59, tt, t, w3);
    lemma_tells_added(s4, true, 6008, target.con_id, t, w4);
    lemma_tells_added(s5, true, 6088, "Socket"@, t, w5);
    lemma_tells_added(s6, true, 6211, none, t, w6);
    lemma_tells_added(s7, true, 6238, none, t, w7);
}

/// A request to replace a tracked order whose cancel is not pending gives one message. Under each
/// tag it says what was asked for: the order under its next version, as the server knows it, for
/// the account, on the order's own side, with the new quantity, type, prices and time in force.
/// The order has its next version from then on, by which the server will know it.
pub proof fn law_replace_says_what_was_asked(
    c: ContextView,
    account: Seq<char>,
    now: Seq<char>,
    new_order_id: OrderId,
    order_id: OrderId,
    qty: u32,
    kind: OrderKind,
    tif: u8,
    attrs: OrderAttrs,
    o: Order,
    t: u32,
)
    requires
        c.wf(),
        c.order(order_id) == Some(o),
        o.status != OrderStatus::PendingCancel,
        c.version(order_id) < u32::MAX,
    ensures
        ({
            let req = OrderRequest::Modify { new_order_id, order_id, qty, kind, tif, attrs };
            let step = request_step(c, account, now, req);
            let after = request_effect(c, req);
            let target = ReplaceTargetView {
                clord: dec(order_id as nat).push('.') + dec((c.version(order_id) + 1) as nat),
                orig_clord: c.server_clord(order_id),
                side: match o.side {
                    Side::Buy => "1"@,
                    Side::Sell => "2"@,
                    Side::ShortSell => "5"@,
                },
                symbol: c.market.symbols[o.instrument as int],
                sec_type: c.market.routes[o.instrument as int].0,
                con_id: match c.market.con_id_of(o.instrument) {
                    Some(con_id) => int_text(con_id as int),
                    None => Seq::empty(),
                },
            };
            &&& step is Replace
            &&& tells(
                step->Replace_message,
                t,
                replaced_value(now, account, target, qty, kind, tif, attrs, t),
            )
            &&& after.version(order_id) == c.version(order_id) + 1
            &&& after.server_clord(order_id) == target.clord
            &&& after.orders == c.orders
            &&& after.positions == c.positions
            &&& forall|other: OrderId|
                #![trigger after.version(other)]
                other != order_id ==> after.version(other) == c.version(other)
        }),
{
    assert(o.order_id == order_id);
    let target = replace_target(c, o);
    lemma_replace_tells(now, account, target, qty, kind, tif, attrs, t);
}

/// A request to replace an order that is not tracked, or whose cancel is pending, is refused.
pub proof fn law_replace_of_finished_order_is_refused(
    c: ContextView,
    account: Seq<char>,
    now: Seq<char>,
    req: OrderRequest,
)
    requires
        req is Modify,
        ({
            let id = req->Modify_order_id;
            c.order(id) is None || c.order(id)->0.status == OrderStatus::PendingCancel
        }),
    ensures
        request_step(c, account, now, req) is Refused,
        request_step(c, account, now, req)->Refused_code == 104,
        request_effect(c, req) == c,
{
}

/// A plain replace names the order that it replaces and the number that it gives it, and says the
/// new quantity and price; all else is as the order is tracked. The order is tracked under its
/// new number too, with the new quantity and price.
pub proof fn law_plain_replace_says_what_was_asked(
    c: ContextView,
    now: Seq<char>,
    account: Seq<char>,
    new_order_id: OrderId,
    order_id: OrderId,
    qty: u32,
    price: Price,
    tif: u8,
    attrs: OrderAttrs,
    o: Order,
)
    requires
        c.wf(),
        c.order(order_id) == Some(o),
    ensures
        ({
            let req = OrderRequest::Modify {
                new_order_id,
                order_id,
                qty,
                kind: OrderKind::Limit { price },
                tif,
                attrs,
            };
            let m = plain_step(c, now, account, req);
            let after = plain_effect(c, req);
            &&& m.len() == 1
            &&& says(m[0], 35, "G"@)
            &&& says(m[0], 11, dec(new_order_id as nat))
            &&& says(m[0], 41, dec(order_id as nat))
            &&& says(m[0], 1, account)
            &&& says(m[0], 55, c.market.symbols[o.instrument as int])
            &&& o.side == Side::Buy ==> says(m[0], 54, "1"@)
            &&& o.side == Side::Sell ==> says(m[0], 54, "2"@)
            &&& o.side == Side::ShortSell ==> says(m[0], 54, "5"@)
            &&& says(m[0], 38, dec(qty as nat))
            &&& says(m[0], 44, price_text(price as int))
            &&& o.ord_type < 128 ==> says(m[0], 40, seq![o.ord_type as char])
            &&& says(m[0], 59, seq![tif_char(o.tif)])
            &&& o.stop_price != 0 ==> says(m[0], 99, price_text(o.stop_price as int))
            &&& o.stop_price == 0 ==> silent(m[0], 99)
            &&& after.order(new_order_id) matches Some(n) && n.price == price && n.qty_fixed == qty
                * 10_000 && n.side == o.side && n.instrument == o.instrument && n.filled_fixed == 0
                && n.ord_type == o.ord_type && n.tif == o.tif && n.stop_price == o.stop_price
                && n.status == OrderStatus::PendingSubmit
            &&& forall|other: OrderId|
                other != new_order_id ==> #[trigger] after.order(other) == c.order(other)
        }),
{
    let m = plain_replace(c, now, account, new_order_id, order_id, price, qty);
    assert(m[0].0 == 35 && m[1].0 == 52 && m[2].0 == 11 && m[3].0 == 41 && m[4].0 == 1 && m[5].0
        == 21 && m[6].0 == 55 && m[7].0 == 54 && m[8].0 == 38);
    assert(m[9].0 == 40 && m[10].0 == 44 && m[11].0 == 59 && m[12].0 == 60 && m[13].0 == 167
        && m[14].0 == 100 && m[15].0 == 15 && m[16].0 == 204);
    if o.stop_price != 0 {
        assert(m.len() == 18);
        assert(m[17] == (99u32, price_text(o.stop_price as int)));
        lemma_one_field(m, 17, 99, price_text(o.stop_price as int));
    } else {
        assert(m.len() == 17);
    }
    lemma_one_field(m, 0, 35, "G"@);
    lemma_one_field(m, 2, 11, dec(new_order_id as nat));
    lemma_one_field(m, 3, 41, dec(order_id as nat));
    lemma_one_field(m, 4, 1, account);
    lemma_one_field(m, 6, 55, c.market.symbols[o.instrument as int]);
    lemma_one_field(m, 7, 54, m[7].1);
    lemma_one_field(m, 8, 38, dec(qty as nat));
    lemma_one_field(m, 9, 40, m[9].1);
    lemma_one_field(m, 10, 44, price_text(price as int));
    lemma_one_field(m, 11, 59, m[11].1);
    assert(o.order_id == order_id);
    let n = crate::engine::order::new_order(
        new_order_id,
        o.instrument,
        o.side,
        qty,
        price,
        o.ord_type,
        o.tif,
        o.stop_price,
    );
    crate::engine::context::law_put_then_find(c.orders, n, new_order_id);
    let req = OrderRequest::Modify {
        new_order_id,
        order_id,
        qty,
        kind: OrderKind::Limit { price },
        tif,
        attrs,
    };
    assert forall|other: OrderId| other != new_order_id implies #[trigger] plain_effect(
        c,
        req,
    ).order(other) == c.order(other) by {
        crate::engine::context::law_put_then_find(c.orders, n, other);
    }
}

} // verus!
