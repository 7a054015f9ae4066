//! What the orders of a bracket say, and how they are tracked.
use vstd::prelude::*;

use crate::engine::context::{
    find_order, law_put_then_find, lemma_put_distinct, put_order, ContextView,
};
use crate::engine::hot_loop::order_builder::{
    on_grid, order_message, plan_messages, request_effect, request_step, with_plans,
};
use crate::engine::hot_loop::order_fields::{kind_fields, kind_tail, FieldSeq};
use crate::engine::hot_loop::order_plans::{
    bracket_plan, child_tail, kind_plan, plans, PlanView,
};
use crate::engine::hot_loop::placing_laws::{
    is_attr_tag, is_common_tag, is_kind_tag, lemma_kind_fields, lemma_kind_plus,
    lemma_message_carries, lemma_message_kind, lemma_order_message, lemma_says_concat,
    only_attr_tags, says, says_common, says_kind, silent, tif_char, tracks, Asked,
};
use crate::engine::order::{snapped_price, OrderKind, OrderRequest, Side};
use crate::text::dec;
use crate::types::{price_text, InstrumentId, OrderId, Price, MAX_INSTRUMENTS};

verus! {

// ---------------------------------------------------------------------------------------
// Brackets
// ---------------------------------------------------------------------------------------

proof fn lemma_child_tail(parent_id: OrderId)
    ensures
        says(child_tail(parent_id), 6107, dec(parent_id as nat)),
        says(child_tail(parent_id), 583, "OCA_"@ + dec(parent_id as nat)),
        says(child_tail(parent_id), 6209, "ReduceOnFillNonBlock"@),
        only_attr_tags(child_tail(parent_id)),
        silent(child_tail(parent_id), 18),
{
    let t = child_tail(parent_id);
    assert(t[0] == (6107u32, dec(parent_id as nat)));
    assert(t[1] == (583u32, "OCA_"@ + dec(parent_id as nat)));
    assert(t[2] == (6209u32, "ReduceOnFillNonBlock"@));
    assert(t.len() == 3);
}

/// What an order of a bracket says, and how it is tracked.
proof fn lemma_bracket_order(
    c: ContextView,
    account: Seq<char>,
    now: Seq<char>,
    a: Asked,
    tail: FieldSeq,
)
    requires
        only_attr_tags(tail),
        silent(tail, 18),
        a.kind is Limit || a.kind is Stop,
    ensures
        ({
            let p = bracket_plan(
                c,
                a.order_id,
                a.instrument,
                a.side,
                a.qty,
                a.kind,
                a.tif,
                tail,
            );
            let msg = order_message(c.market, account, now, p);
            &&& says_common(
                msg,
                c.market,
                account,
                now,
                dec(a.order_id as nat),
                a.instrument,
                a.side,
                dec(a.qty as nat),
                tif_char(a.tif),
                false,
            )
            &&& says_kind(msg, a.kind)
            &&& tracks(p.order, a)
            &&& forall|tag: u32, v: Seq<char>|
                #![trigger says(tail, tag, v)]
                says(tail, tag, v) ==> says(msg, tag, v)
            &&& silent(tail, 6107) ==> silent(msg, 6107)
            &&& silent(tail, 583) ==> silent(msg, 583)
        }),
{
    reveal(kind_plan);
    reveal(kind_tail);
    let k = a.kind;
    let p = bracket_plan(c, a.order_id, a.instrument, a.side, a.qty, k, a.tif, tail);
    let own = p.kind + p.tail;
    let msg = order_message(c.market, account, now, p);
    assert(own =~= kind_fields(k) + kind_tail(k) + tail);
    let base = kind_fields(k) + kind_tail(k);
    lemma_kind_fields(k);
    assert forall|i: int| 0 <= i < tail.len() implies !is_kind_tag((#[trigger] tail[i]).0) by {
        assert(is_attr_tag(tail[i].0));
    }
    lemma_kind_plus(k, tail);
    assert forall|i: int| 0 <= i < own.len() implies !is_common_tag((#[trigger] own[i]).0) by {
        if i < base.len() {
            assert(own[i] == base[i]);
        } else {
            assert(own[i] == tail[i - base.len()]);
        }
    }
    lemma_order_message(c.market, account, now, p, tif_char(a.tif));
    lemma_message_kind(c.market, account, now, p, k);
    lemma_message_carries(c.market, account, now, p);
    assert forall|tag: u32, v: Seq<char>|
        #![trigger says(tail, tag, v)]
        says(tail, tag, v) implies says(msg, tag, v) by {
        let i = choose|i: int| 0 <= i < tail.len() && #[trigger] tail[i] == (tag, v);
        assert(is_attr_tag(tag) && tag != 18);
        assert(silent(base, tag));
        lemma_says_concat(base, tail, tag);
        assert(says(own, tag, v));
    }
    lemma_says_concat(base, tail, 6107);
    lemma_says_concat(base, tail, 583);
    assert(silent(base, 6107) && silent(base, 583));
}

/// A bracket is three orders. The entry is a limit order on the side that was asked for, good
/// for the day. The second order takes the profit: a limit order at the price to take it at. The
/// third stops the loss: a stop order at the price to stop at. Both close what the entry opens,
/// so they are on the other side and for the same quantity, good until cancelled; they name the
/// entry as their parent, and share a group, of which one ends the other. Each order is tracked
/// with its own price.
pub proof fn law_bracket_exits_at_its_prices(
    c: ContextView,
    account: Seq<char>,
    now: Seq<char>,
    parent_id: OrderId,
    tp_id: OrderId,
    sl_id: OrderId,
    instrument: InstrumentId,
    side: Side,
    qty: u32,
    entry_price: Price,
    take_profit: Price,
    stop_loss: Price,
)
    requires
        c.wf(),
        instrument < MAX_INSTRUMENTS,
        parent_id != tp_id && parent_id != sl_id && tp_id != sl_id,
    ensures
        ({
            let req = OrderRequest::SubmitBracket {
                parent_id,
                tp_id,
                sl_id,
                instrument,
                side,
                qty,
                entry_price,
                take_profit,
                stop_loss,
            };
            let tick = c.market.min_ticks[instrument as int];
            let entry = snapped_price(entry_price, tick);
            let target = snapped_price(take_profit, tick);
            let stop = snapped_price(stop_loss, tick);
            let exit = if side == Side::Buy {
                Side::Sell
            } else {
                Side::Buy
            };
            let step = request_step(c, account, now, req);
            let m = step->Place_messages;
            let after = request_effect(c, req);
            &&& step is Place
            &&& m.len() == 3
            &&& says_common(
                m[0],
                c.market,
                account,
                now,
                dec(parent_id as nat),
                instrument,
                side,
                dec(qty as nat),
                '0',
                false,
            )
            &&& says(m[0], 40, "2"@) && says(m[0], 44, price_text(entry as int)) && silent(m[0], 99)
            &&& silent(m[0], 6107) && silent(m[0], 583)
            &&& says_common(
                m[1],
                c.market,
                account,
                now,
                dec(tp_id as nat),
                instrument,
                exit,
                dec(qty as nat),
                '1',
                false,
            )
            &&& says(m[1], 40, "2"@) && says(m[1], 44, price_text(target as int)) && silent(m[1], 99)
            &&& says_common(
                m[2],
                c.market,
                account,
                now,
                dec(sl_id as nat),
                instrument,
                exit,
                dec(qty as nat),
                '1',
                false,
            )
            &&& says(m[2], 40, "3"@) && says(m[2], 99, price_text(stop as int)) && silent(m[2], 44)
            &&& says(m[1], 6107, dec(parent_id as nat)) && says(m[2], 6107, dec(parent_id as nat))
            &&& says(m[1], 583, "OCA_"@ + dec(parent_id as nat))
            &&& says(m[2], 583, "OCA_"@ + dec(parent_id as nat))
            &&& says(m[1], 6209, "ReduceOnFillNonBlock"@)
            &&& says(m[2], 6209, "ReduceOnFillNonBlock"@)
            &&& after.order(parent_id) matches Some(o) && o.price == entry && o.stop_price == 0
                && o.side == side && o.qty_fixed == qty * 10_000 && o.instrument == instrument
            &&& after.order(tp_id) matches Some(o) && o.price == target && o.stop_price == 0
                && o.side == exit && o.qty_fixed == qty * 10_000 && o.instrument == instrument
            &&& after.order(sl_id) matches Some(o) && o.stop_price == stop && o.side == exit
                && o.qty_fixed == qty * 10_000 && o.instrument == instrument
            &&& forall|other: OrderId|
                other != parent_id && other != tp_id && other != sl_id ==> #[trigger] after.order(
                    other,
                ) == c.order(other)
        }),
{
    let req = OrderRequest::SubmitBracket {
        parent_id,
        tp_id,
        sl_id,
        instrument,
        side,
        qty,
        entry_price,
        take_profit,
        stop_loss,
    };
    let tick = c.market.min_ticks[instrument as int];
    let entry = snapped_price(entry_price, tick);
    let target = snapped_price(take_profit, tick);
    let stop = snapped_price(stop_loss, tick);
    let exit = if side == Side::Buy {
        Side::Sell
    } else {
        Side::Buy
    };
    let child = child_tail(parent_id);
    let none = Seq::<(u32, Seq<char>)>::empty();
    let a0 = Asked {
        order_id: parent_id,
        instrument,
        side,
        qty,
        kind: OrderKind::Limit { price: entry },
        tif: 48,
    };
    let a1 = Asked {
        order_id: tp_id,
        instrument,
        side: exit,
        qty,
        kind: OrderKind::Limit { price: target },
        tif: 49,
    };
    let a2 = Asked {
        order_id: sl_id,
        instrument,
        side: exit,
        qty,
        kind: OrderKind::Stop { stop_price: stop },
        tif: 49,
    };
    lemma_child_tail(parent_id);
    lemma_bracket_order(c, account, now, a0, none);
    lemma_bracket_order(c, account, now, a1, child);
    lemma_bracket_order(c, account, now, a2, child);
    let p0 = bracket_plan(c, parent_id, instrument, side, qty, a0.kind, 48, none);
    let p1 = bracket_plan(c, tp_id, instrument, exit, qty, a1.kind, 49, child);
    let p2 = bracket_plan(c, sl_id, instrument, exit, qty, a2.kind, 49, child);
    lemma_bracket_plans(c, req);
    lemma_three_plans(c, account, now, p0, p1, p2);
    assert(tif_char(48) == '0' && tif_char(49) == '1');
}

proof fn lemma_bracket_plans(c: ContextView, req: OrderRequest)
    requires
        req is SubmitBracket,
    ensures
        match req {
            OrderRequest::SubmitBracket {
                parent_id,
                tp_id,
                sl_id,
                instrument,
                side,
                qty,
                entry_price,
                take_profit,
                stop_loss,
            } => {
                let tick = c.market.min_ticks[instrument as int];
                let exit = if side == Side::Buy {
                    Side::Sell
                } else {
                    Side::Buy
                };
                plans(c, on_grid(c, req)) == seq![
                    bracket_plan(
                        c,
                        parent_id,
                        instrument,
                        side,
                        qty,
                        OrderKind::Limit { price: snapped_price(entry_price, tick) },
                        48,
                        Seq::empty(),
                    ),
                    bracket_plan(
                        c,
                        tp_id,
                        instrument,
                        exit,
                        qty,
                        OrderKind::Limit { price: snapped_price(take_profit, tick) },
                        49,
                        child_tail(parent_id),
                    ),
                    bracket_plan(
                        c,
                        sl_id,
                        instrument,
                        exit,
                        qty,
                        OrderKind::Stop { stop_price: snapped_price(stop_loss, tick) },
                        49,
                        child_tail(parent_id),
                    ),
                ]
            },
            _ => true,
        },
{
}

/// Three plans for different orders give three messages, and the orders are tracked.
proof fn lemma_three_plans(
    c: ContextView,
    account: Seq<char>,
    now: Seq<char>,
    p0: PlanView,
    p1: PlanView,
    p2: PlanView,
)
    requires
        c.wf(),
        p0.order.order_id != p1.order.order_id,
        p0.order.order_id != p2.order.order_id,
        p1.order.order_id != p2.order.order_id,
    ensures
        ({
            let m = plan_messages(c.market, account, now, seq![p0, p1, p2]);
            let after = with_plans(c, seq![p0, p1, p2]);
            &&& m == seq![
                order_message(c.market, account, now, p0),
                order_message(c.market, account, now, p1),
                order_message(c.market, account, now, p2),
            ]
            &&& after.order(p0.order.order_id) == Some(p0.order)
            &&& after.order(p1.order.order_id) == Some(p1.order)
            &&& after.order(p2.order.order_id) == Some(p2.order)
            &&& forall|other: OrderId|
                other != p0.order.order_id && other != p1.order.order_id && other
                    != p2.order.order_id ==> #[trigger] after.order(other) == c.order(other)
        }),
{
    let all = seq![p0, p1, p2];
    let two = seq![p0, p1];
    let one = seq![p0];
    assert(plan_messages(c.market, account, now, all) =~= seq![
        order_message(c.market, account, now, p0),
        order_message(c.market, account, now, p1),
        order_message(c.market, account, now, p2),
    ]);
    assert(all.drop_last() =~= two);
    assert(two.drop_last() =~= one);
    assert(one.drop_last() =~= Seq::<PlanView>::empty());
    reveal_with_fuel(with_plans, 4);
    let o0 = put_order(c.orders, p0.order);
    let o1 = put_order(o0, p1.order);
    lemma_put_distinct(c.orders, p0.order);
    lemma_put_distinct(o0, p1.order);
    assert forall|other: OrderId|
        #![trigger find_order(put_order(o1, p2.order), other)]
        find_order(put_order(o1, p2.order), other) == (if other == p2.order.order_id {
            Some(p2.order)
        } else if other == p1.order.order_id {
            Some(p1.order)
        } else if other == p0.order.order_id {
            Some(p0.order)
        } else {
            find_order(c.orders, other)
        }) by {
        law_put_then_find(c.orders, p0.order, other);
        law_put_then_find(o0, p1.order, other);
        law_put_then_find(o1, p2.order, other);
    }
}

} // verus!
