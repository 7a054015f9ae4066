//! What holds of all order messages.
use vstd::prelude::*;

use crate::calendar::time_text;
use crate::engine::context::{versioned, ContextView};
use crate::engine::hot_loop::order_builder::{
    cancel_message, cancel_pends, cancel_refused, next_version, order_head, order_message,
    order_middle, replace_head, replace_message, replace_target, request_effect, request_step,
    unrouted_message, with_contract, ReplaceTargetView,
};
use crate::engine::hot_loop::order_fields::{
    add_if, condition_fields, condition_tags, conditions_fields, flag_text, kind_fields, kind_tail,
    oca_name, oca_type_name, takes_exec_inst, with_attrs, with_conditions, with_display_attrs,
    with_link_attrs, FieldSeq,
};
use crate::engine::hot_loop::order_plans::{extended_plan, kind_plan, PlanView};
use crate::engine::order::{
    request_order, Order, OrderAttrs, OrderCondition, OrderKind, OrderRequest, OrderStatus, Side,
};
use crate::text::{dec, dec_padded, int_text};
use crate::types::{price_text, InstrumentId, OrderId};

verus! {

// ---------------------------------------------------------------------------------------
// Laws
// ---------------------------------------------------------------------------------------

/// Whether the contract id stands behind each secondary routing field.
pub open spec fn contract_follows_routing(s: FieldSeq, con_id: i64) -> bool {
    forall|i: int|
        0 <= i < s.len() && (#[trigger] s[i]).0 == 6210 ==> i + 1 < s.len() && s[i + 1] == (
            6008u32,
            int_text(con_id as int),
        )
}

proof fn lemma_with_contract(s: FieldSeq, con_id: i64)
    ensures
        contract_follows_routing(with_contract(s, con_id), con_id),
    decreases s.len(),
{
    if s.len() > 0 {
        let before = with_contract(s.drop_last(), con_id);
        lemma_with_contract(s.drop_last(), con_id);
        let t = with_contract(s, con_id);
        assert forall|i: int| 0 <= i < t.len() && (#[trigger] t[i]).0 == 6210 implies i + 1
            < t.len() && t[i + 1] == (6008u32, int_text(con_id as int)) by {
            if i < before.len() {
                assert(before[i] == t[i]);
                assert(t[i + 1] == before[i + 1]);
            }
        }
    }
}

/// Every message that places an order carries the contract id right behind each secondary
/// routing field, for an instrument that has a positive contract id.
pub proof fn law_contract_id_follows_routing(
    c: ContextView,
    account: Seq<char>,
    now: Seq<char>,
    p: PlanView,
    con_id: i64,
)
    requires
        c.market.con_id_of(p.order.instrument) == Some(con_id),
        con_id > 0,
    ensures
        contract_follows_routing(order_message(c.market, account, now, p), con_id),
{
    lemma_with_contract(unrouted_message(c.market, account, now, p), con_id);
}

/// A request that is refused changes nothing that the engine knows.
pub proof fn law_refusal_changes_nothing(
    c: ContextView,
    account: Seq<char>,
    now: Seq<char>,
    req: OrderRequest,
)
    requires
        request_step(c, account, now, req) is Refused,
    ensures
        request_effect(c, req) == c,
{
}

/// A request to cancel an order that follows a replace request names the version that the
/// replace request gave the order, even before the server has answered.
pub proof fn law_cancel_names_last_replace(
    c: ContextView,
    account: Seq<char>,
    now: Seq<char>,
    req: OrderRequest,
    later: Seq<char>,
)
    requires
        req is Modify,
        request_step(c, account, now, req) is Replace,
    ensures
        ({
            let id = request_order(req);
            let message = request_step(c, account, now, req)->Replace_message;
            &&& message[2] == (11u32, versioned(id, next_version(c, id)))
            &&& cancel_message(request_effect(c, req), later, id)[3] == (
                41u32,
                versioned(id, next_version(c, id)),
            )
        }),
{
    match req {
        OrderRequest::Modify { order_id, qty, kind, tif, attrs, .. } => {
            let o = c.order(order_id)->0;
            let t = replace_target(c, o);
            assert(o.order_id == order_id);
            lemma_replace_starts(now, account, t, qty, kind, tif, attrs);
        },
        _ => {},
    }
}

proof fn lemma_replace_starts(
    now: Seq<char>,
    account: Seq<char>,
    t: ReplaceTargetView,
    qty: u32,
    kind: OrderKind,
    tif: u8,
    attrs: OrderAttrs,
)
    ensures
        replace_message(now, account, t, qty, kind, tif, attrs).len() > 4,
        replace_message(now, account, t, qty, kind, tif, attrs)[2] == (11u32, t.clord),
        replace_message(now, account, t, qty, kind, tif, attrs)[3] == (41u32, t.orig_clord),
{
    let head = replace_head(now, account, t, kind, attrs);
    assert(head.len() > 4);
    assert(head[2] == (11u32, t.clord));
    assert(head[3] == (41u32, t.orig_clord));
}

/// When a request to cancel a working order has gone out, a second one is refused, with the
/// pending state.
pub proof fn law_second_cancel_refused(c: ContextView, id: OrderId)
    requires
        c.wf(),
        cancel_pends(c, id),
    ensures
        cancel_refused(c, id) is None,
        ({
            let after = c.after_status(id, OrderStatus::PendingCancel);
            cancel_refused(after, id) == Some(
                (
                    10148i64,
                    "OrderId "@ + dec(id as nat)
                        + " that needs to be cancelled can not be cancelled, state: "@
                        + "PendingCancel"@ + "."@,
                ),
            )
        }),
{
    let o = c.order(id)->0;
    crate::engine::context::law_put_then_find(
        c.orders,
        Order { status: OrderStatus::PendingCancel, ..o },
        id,
    );
}

/// How many fields have a tag.
pub open spec fn tag_count(s: FieldSeq, tag: u32) -> nat
    decreases s.len(),
{
    if s.len() == 0 {
        0
    } else {
        tag_count(s.drop_last(), tag) + (if s.last().0 == tag {
            1nat
        } else {
            0
        })
    }
}

proof fn lemma_count_push(s: FieldSeq, f: (u32, Seq<char>), tag: u32)
    ensures
        tag_count(s.push(f), tag) == tag_count(s, tag) + (if f.0 == tag {
            1nat
        } else {
            0
        }),
{
    assert(s.push(f).drop_last() =~= s);
}

proof fn lemma_count_concat(a: FieldSeq, b: FieldSeq, tag: u32)
    ensures
        tag_count(a + b, tag) == tag_count(a, tag) + tag_count(b, tag),
    decreases b.len(),
{
    if b.len() == 0 {
        assert(a + b =~= a);
    } else {
        lemma_count_concat(a, b.drop_last(), tag);
        assert((a + b).drop_last() =~= a + b.drop_last());
    }
}

proof fn lemma_count_none(s: FieldSeq, tag: u32)
    requires
        forall|i: int| 0 <= i < s.len() ==> (#[trigger] s[i]).0 != tag,
    ensures
        tag_count(s, tag) == 0,
    decreases s.len(),
{
    if s.len() > 0 {
        assert forall|i: int| 0 <= i < s.drop_last().len() implies (#[trigger] s.drop_last()[i]).0
            != tag by {
            assert(s[i].0 != tag);
        }
        lemma_count_none(s.drop_last(), tag);
    }
}

proof fn lemma_count_conditions(conds: Seq<OrderCondition>, k: nat, tag: u32)
    requires
        tag < 6000,
        k <= conds.len(),
    ensures
        tag_count(conditions_fields(conds, k), tag) == 0,
    decreases k,
{
    if k > 0 {
        lemma_count_conditions(conds, (k - 1) as nat, tag);
        let f = condition_fields(conds[k - 1], k == conds.len());
        assert forall|i: int| 0 <= i < f.len() implies (#[trigger] f[i]).0 != tag by {
            if i < 11 {
                assert(condition_tags()[i] >= 6000);
            }
        }
        lemma_count_none(f, tag);
        lemma_count_concat(conditions_fields(conds, (k - 1) as nat), f, tag);
    }
}

proof fn lemma_count_add_if(s: FieldSeq, on: bool, added: u32, value: Seq<char>, tag: u32)
    ensures
        tag_count(add_if(s, on, added, value), tag) == tag_count(s, tag) + (if on && added == tag {
            1nat
        } else {
            0
        }),
{
    lemma_count_push(s, (added, value), tag);
}

proof fn lemma_count_display(s: FieldSeq, a: OrderAttrs, tag: u32)
    requires
        tag == 18 || tag == 432 || tag == 126,
    ensures
        tag_count(with_display_attrs(s, a), tag) == tag_count(s, tag) + (if (tag == 432
            && a.good_till_date_ymd > 0) || (tag == 126 && a.good_till_date_ymd == 0 && a.good_till
            > 0) {
            1nat
        } else {
            0
        }),
{
    let d1 = add_if(s, a.display_size > 0, 111, dec(a.display_size as nat));
    let d2 = add_if(d1, a.min_qty > 0, 110, dec(a.min_qty as nat));
    let d3 = add_if(d2, a.outside_rth, 6433, "1"@);
    let d4 = add_if(d3, a.hidden, 6135, "1"@);
    let d5 = add_if(d4, a.good_after > 0, 168, time_text(a.good_after as nat, ' '));
    lemma_count_add_if(s, a.display_size > 0, 111, dec(a.display_size as nat), tag);
    lemma_count_add_if(d1, a.min_qty > 0, 110, dec(a.min_qty as nat), tag);
    lemma_count_add_if(d2, a.outside_rth, 6433, "1"@, tag);
    lemma_count_add_if(d3, a.hidden, 6135, "1"@, tag);
    lemma_count_add_if(d4, a.good_after > 0, 168, time_text(a.good_after as nat, ' '), tag);
    lemma_count_push(d5, (432u32, dec_padded(a.good_till_date_ymd as nat, 8)), tag);
    lemma_count_push(d5, (126u32, time_text(a.good_till as nat, '-')), tag);
}

proof fn lemma_count_link(s: FieldSeq, a: OrderAttrs, base: bool, tag: u32)
    requires
        tag == 18 || tag == 432 || tag == 126,
    ensures
        tag_count(with_link_attrs(s, a, base), tag) == tag_count(s, tag) + (if tag == 18
            && a.all_or_none && !base {
            1nat
        } else {
            0
        }),
{
    let grouped = oca_name(a).len() > 0;
    let parent = dec(a.parent_id as nat) + ".0"@;
    let s1 = add_if(s, grouped, 583, oca_name(a));
    let s2 = add_if(s1, grouped, 6209, oca_type_name(a.oca_type));
    let s3 = add_if(s2, a.parent_id > 0, 6107, parent);
    let s4 = add_if(s3, a.discretionary_amt > 0, 9813, price_text(a.discretionary_amt as int));
    let s5 = add_if(s4, a.sweep_to_fill, 6102, "1"@);
    let s6 = add_if(s5, a.all_or_none && !base, 18, "G"@);
    let s7 = add_if(s6, a.trigger_method > 0, 6115, dec(a.trigger_method as nat));
    lemma_count_add_if(s, grouped, 583, oca_name(a), tag);
    lemma_count_add_if(s1, grouped, 6209, oca_type_name(a.oca_type), tag);
    lemma_count_add_if(s2, a.parent_id > 0, 6107, parent, tag);
    lemma_count_add_if(
        s3,
        a.discretionary_amt > 0,
        9813,
        price_text(a.discretionary_amt as int),
        tag,
    );
    lemma_count_add_if(s4, a.sweep_to_fill, 6102, "1"@, tag);
    lemma_count_add_if(s5, a.all_or_none && !base, 18, "G"@, tag);
    lemma_count_add_if(s6, a.trigger_method > 0, 6115, dec(a.trigger_method as nat), tag);
    lemma_count_add_if(s7, a.cash_qty > 0, 5920, price_text(a.cash_qty as int), tag);
}

proof fn lemma_count_with_conditions(s: FieldSeq, a: OrderAttrs, tag: u32)
    requires
        tag == 18 || tag == 432 || tag == 126,
    ensures
        tag_count(with_conditions(s, a), tag) == tag_count(s, tag),
{
    let n = a.conditions@.len();
    let c1 = s.push((6128u32, flag_text(a.conditions_ignore_rth)));
    let c2 = c1.push((6151u32, flag_text(a.conditions_cancel_order)));
    let c3 = c2.push((6136u32, dec(n)));
    lemma_count_push(s, (6128u32, flag_text(a.conditions_ignore_rth)), tag);
    lemma_count_push(c1, (6151u32, flag_text(a.conditions_cancel_order)), tag);
    lemma_count_push(c2, (6136u32, dec(n)), tag);
    lemma_count_conditions(a.conditions@, n, tag);
    lemma_count_concat(c3, conditions_fields(a.conditions@, n), tag);
}

/// How the attributes change the number of fields of some tags: all-or-none adds one
/// instruction field unless the order type has it, and at most one expiry is added.
proof fn lemma_count_attrs(s: FieldSeq, a: OrderAttrs, base: bool)
    ensures
        tag_count(with_attrs(s, a, base), 18) == tag_count(s, 18) + (if a.all_or_none && !base {
            1nat
        } else {
            0
        }),
        tag_count(with_attrs(s, a, base), 432) + tag_count(with_attrs(s, a, base), 126)
            <= tag_count(s, 432) + tag_count(s, 126) + 1,
{
    reveal(with_attrs);
    let d = with_display_attrs(s, a);
    let l = with_link_attrs(d, a, base);
    lemma_count_display(s, a, 18);
    lemma_count_link(d, a, base, 18);
    lemma_count_with_conditions(l, a, 18);
    lemma_count_display(s, a, 432);
    lemma_count_link(d, a, base, 432);
    lemma_count_with_conditions(l, a, 432);
    lemma_count_display(s, a, 126);
    lemma_count_link(d, a, base, 126);
    lemma_count_with_conditions(l, a, 126);
}

proof fn lemma_count_kind_tail(kind: OrderKind)
    ensures
        tag_count(kind_tail(kind), 18) == 0,
        tag_count(kind_tail(kind), 432) == 0,
        tag_count(kind_tail(kind), 126) == 0,
{
    reveal(kind_tail);
    let t = kind_tail(kind);
    assert forall|i: int| 0 <= i < t.len() implies (#[trigger] t[i]).0 > 6000 by {}
    lemma_count_none(t, 18);
    lemma_count_none(t, 432);
    lemma_count_none(t, 126);
}

proof fn lemma_count_kind_expiry(kind: OrderKind)
    ensures
        tag_count(kind_fields(kind), 432) == 0,
        tag_count(kind_fields(kind), 126) == 0,
{
    reveal(kind_fields);
    let f = kind_fields(kind);
    assert forall|i: int| 0 <= i < f.len() implies (#[trigger] f[i]).0 != 432 && f[i].0 != 126 by {}
    lemma_count_none(f, 432);
    lemma_count_none(f, 126);
}

#[verifier::rlimit(40)]
proof fn lemma_count_kind_inst(kind: OrderKind)
    ensures
        tag_count(kind_fields(kind), 18) == (if takes_exec_inst(kind) {
            1nat
        } else {
            0
        }),
{
    reveal(kind_fields);
    let f = kind_fields(kind);
    if takes_exec_inst(kind) {
        match kind {
            OrderKind::Rel { offset } => {
                let s = f.drop_last();
                assert(f.last() == (18u32, "R"@));
                assert forall|i: int| 0 <= i < s.len() implies (#[trigger] s[i]).0 != 18 by {}
                lemma_count_none(s, 18);
            },
            _ => {
                let s = f.take(3);
                let rest = f.skip(4);
                assert(f[3] == (18u32, "a"@));
                assert(f =~= s.push(f[3]) + rest);
                assert forall|i: int| 0 <= i < s.len() implies (#[trigger] s[i]).0 != 18 by {}
                assert forall|i: int| 0 <= i < rest.len() implies (#[trigger] rest[i]).0 != 18 by {}
                lemma_count_none(s, 18);
                lemma_count_none(rest, 18);
                lemma_count_push(s, f[3], 18);
                lemma_count_concat(s.push(f[3]), rest, 18);
            },
        }
    } else {
        assert forall|i: int| 0 <= i < f.len() implies (#[trigger] f[i]).0 != 18 by {}
        lemma_count_none(f, 18);
    }
}

/// An order with attributes carries at most one instruction field (tag 18), and at most one
/// expiry: a date (tag 432) or a time (tag 126), never both.
pub proof fn law_one_instruction_one_expiry(
    c: ContextView,
    account: Seq<char>,
    now: Seq<char>,
    order_id: OrderId,
    instrument: InstrumentId,
    side: Side,
    qty: u32,
    kind: OrderKind,
    tif: u8,
    attrs: OrderAttrs,
)
    ensures
        ({
            let p = extended_plan(c, order_id, instrument, side, qty, kind, tif, attrs);
            let m = unrouted_message(c.market, account, now, p);
            &&& tag_count(m, 18) <= 1
            &&& tag_count(m, 432) + tag_count(m, 126) <= 1
        }),
{
    reveal(kind_plan);
    let p = extended_plan(c, order_id, instrument, side, qty, kind, tif, attrs);
    let head = order_head(now, account, c.market.symbols[p.order.instrument as int], p);
    let middle = order_middle(now, c.market.order_route(p.order.instrument), p);
    lemma_count_kind_tail(kind);
    lemma_count_kind_expiry(kind);
    lemma_count_kind_inst(kind);
    lemma_count_attrs(kind_tail(kind), attrs, takes_exec_inst(kind));
    assert forall|tag: u32| #![trigger tag_count(p.kind, tag)] tag == 18 || tag == 432 || tag
        == 126 implies tag_count(unrouted_message(c.market, account, now, p), tag) == tag_count(
        p.kind,
        tag,
    ) + tag_count(p.tail, tag) by {
        lemma_count_none(head, tag);
        lemma_count_none(middle, tag);
        lemma_count_concat(head, p.kind, tag);
        lemma_count_concat(head + p.kind, middle, tag);
        lemma_count_concat(head + p.kind + middle, p.tail, tag);
    }
    assert(tag_count(p.kind, 18) <= 1);
    assert(tag_count(p.kind, 432) == 0);
    assert(tag_count(p.kind, 126) == 0);
}

} // verus!
