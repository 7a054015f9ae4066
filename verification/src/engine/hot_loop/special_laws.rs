//! What the messages of orders say that carry attributes, conditions or an algorithm, or that
//! are placed in a way of their own.
use vstd::prelude::*;

use crate::calendar::time_text;
use crate::engine::context::ContextView;
use crate::engine::hot_loop::order_builder::{
    on_grid, order_head, order_message, order_middle, request_step, unrouted_message, with_contract,
};
use crate::engine::hot_loop::order_fields::{
    add_if, condition_fields, condition_tags, conditions_fields, kind_fields, kind_tail, oca_name,
    oca_type_name, takes_exec_inst, with_attrs, with_conditions, with_display_attrs, with_expiry,
    with_link_attrs, FieldSeq,
};
use crate::engine::hot_loop::order_plans::{extended_plan, kind_plan, plans, PlanView};
use crate::engine::hot_loop::placing_laws::{
    is_attr_tag, is_common_tag, is_kind_tag, lemma_attr_tags, lemma_attrs_append, lemma_kind_fields,
    lemma_message_carries, lemma_one_field, lemma_one_plan, lemma_order_message, lemma_says_concat,
    only_attr_tags, only_kind_tags, says, says_common, says_if, silent, tif_char,
};
use crate::engine::market_state::MarketView;
use crate::engine::order::{OrderAttrs, OrderCondition, OrderKind, OrderRequest, Side};
use crate::text::{dec, dec_padded, int_text};
use crate::types::{price_text, InstrumentId, OrderId, Price};

verus! {

// ---------------------------------------------------------------------------------------
// Attributes
// ---------------------------------------------------------------------------------------

/// What a message says of an order's attributes: each one that is set, under its tag, and
/// nothing of the others. `alone` says that the order type leaves the instruction field free.
#[verifier::opaque]
pub open spec fn says_attrs(m: FieldSeq, a: OrderAttrs, alone: bool) -> bool {
    let group = if a.oca_group_str@.len() > 0 {
        a.oca_group_str@
    } else {
        "OCA_"@ + dec(a.oca_group as nat)
    };
    let grouped = a.oca_group_str@.len() > 0 || a.oca_group > 0;
    let n = a.conditions@.len();
    &&& says_if(m, a.display_size > 0, 111, dec(a.display_size as nat))
    &&& says_if(m, a.min_qty > 0, 110, dec(a.min_qty as nat))
    &&& says_if(m, a.outside_rth, 6433, "1"@)
    &&& says_if(m, a.hidden, 6135, "1"@)
    &&& says_if(m, a.good_after > 0, 168, time_text(a.good_after as nat, ' '))
    &&& says_if(m, a.good_till_date_ymd > 0, 432, dec_padded(a.good_till_date_ymd as nat, 8))
    &&& says_if(
        m,
        a.good_till_date_ymd == 0 && a.good_till > 0,
        126,
        time_text(a.good_till as nat, '-'),
    )
    &&& says_if(m, grouped, 583, group)
    &&& grouped && a.oca_type == 1 ==> says(m, 6209, "CancelOnFillWBlock"@)
    &&& grouped && a.oca_type == 2 ==> says(m, 6209, "ReduceOnFillWBlock"@)
    &&& grouped && (a.oca_type == 0 || a.oca_type == 3) ==> says(m, 6209, "ReduceOnFillNonBlock"@)
    &&& !grouped ==> silent(m, 6209)
    &&& says_if(m, a.parent_id > 0, 6107, dec(a.parent_id as nat) + ".0"@)
    &&& says_if(m, a.discretionary_amt > 0, 9813, price_text(a.discretionary_amt as int))
    &&& says_if(m, a.sweep_to_fill, 6102, "1"@)
    &&& alone ==> says_if(m, a.all_or_none, 18, "G"@)
    &&& says_if(m, a.trigger_method > 0, 6115, dec(a.trigger_method as nat))
    &&& says_if(m, a.cash_qty > 0, 5920, price_text(a.cash_qty as int))
    &&& says_if(m, n > 0, 6136, dec(n))
    &&& says_if(
        m,
        n > 0,
        6128,
        if a.conditions_ignore_rth {
            "1"@
        } else {
            "0"@
        },
    )
    &&& says_if(
        m,
        n > 0,
        6151,
        if a.conditions_cancel_order {
            "1"@
        } else {
            "0"@
        },
    )
}

/// A field that is added to a list that has none under its tag is said; all else stays.
pub(crate) proof fn lemma_added(s: FieldSeq, on: bool, tag: u32, v: Seq<char>, other: u32)
    ensures
        silent(s, tag) ==> says_if(add_if(s, on, tag, v), on, tag, v),
        other != tag && silent(s, other) ==> silent(add_if(s, on, tag, v), other),
        forall|w: Seq<char>|
            #![trigger says(s, other, w)]
            other != tag && says(s, other, w) ==> says(add_if(s, on, tag, v), other, w),
{
    let t = add_if(s, on, tag, v);
    if on {
        assert(t[s.len() as int] == (tag, v));
        assert forall|w: Seq<char>|
            #![trigger says(s, other, w)]
            other != tag && says(s, other, w) implies says(t, other, w) by {
            let i = choose|i: int| 0 <= i < s.len() && #[trigger] s[i] == (other, w);
            assert(t[i] == (other, w));
        }
    }
}

/// What is said under a tag by a list with one more field.
pub open spec fn value_after(was: Option<Seq<char>>, on: bool, tag: u32, v: Seq<char>, t: u32) -> Option<
    Seq<char>,
> {
    if on && t == tag {
        Some(v)
    } else {
        was
    }
}

/// Whether a list says something under a tag, or nothing.
pub open spec fn tells(s: FieldSeq, t: u32, value: Option<Seq<char>>) -> bool {
    match value {
        Some(v) => says(s, t, v),
        None => silent(s, t),
    }
}

pub(crate) proof fn lemma_tells_added(
    s: FieldSeq,
    on: bool,
    tag: u32,
    v: Seq<char>,
    t: u32,
    was: Option<Seq<char>>,
)
    requires
        tells(s, t, was),
        t == tag ==> was is None,
    ensures
        tells(add_if(s, on, tag, v), t, value_after(was, on, tag, v, t)),
{
    lemma_added(s, on, tag, v, t);
}

/// What the attributes up to the expiry say under a tag.
pub open spec fn display_value(a: OrderAttrs, t: u32) -> Option<Seq<char>> {
    if t == 111 && a.display_size > 0 {
        Some(dec(a.display_size as nat))
    } else if t == 110 && a.min_qty > 0 {
        Some(dec(a.min_qty as nat))
    } else if t == 6433 && a.outside_rth {
        Some("1"@)
    } else if t == 6135 && a.hidden {
        Some("1"@)
    } else if t == 168 && a.good_after > 0 {
        Some(time_text(a.good_after as nat, ' '))
    } else if t == 432 && a.good_till_date_ymd > 0 {
        Some(dec_padded(a.good_till_date_ymd as nat, 8))
    } else if t == 126 && a.good_till_date_ymd == 0 && a.good_till > 0 {
        Some(time_text(a.good_till as nat, '-'))
    } else {
        None
    }
}

pub(crate) proof fn lemma_display_tells(a: OrderAttrs, t: u32)
    ensures
        tells(with_display_attrs(Seq::empty(), a), t, display_value(a, t)),
{
    let e = Seq::<(u32, Seq<char>)>::empty();
    let after = time_text(a.good_after as nat, ' ');
    let dated = a.good_till_date_ymd > 0;
    let timed = !dated && a.good_till > 0;
    let date = dec_padded(a.good_till_date_ymd as nat, 8);
    let time = time_text(a.good_till as nat, '-');
    let t1 = add_if(e, a.display_size > 0, 111, dec(a.display_size as nat));
    let t2 = add_if(t1, a.min_qty > 0, 110, dec(a.min_qty as nat));
    let t3 = add_if(t2, a.outside_rth, 6433, "1"@);
    let t4 = add_if(t3, a.hidden, 6135, "1"@);
    let t5 = add_if(t4, a.good_after > 0, 168, after);
    let t6 = add_if(t5, dated, 432, date);
    let t7 = add_if(t6, timed, 126, time);
    let v0: Option<Seq<char>> = None;
    let v1 = value_after(v0, a.display_size > 0, 111, dec(a.display_size as nat), t);
    let v2 = value_after(v1, a.min_qty > 0, 110, dec(a.min_qty as nat), t);
    let v3 = value_after(v2, a.outside_rth, 6433, "1"@, t);
    let v4 = value_after(v3, a.hidden, 6135, "1"@, t);
    let v5 = value_after(v4, a.good_after > 0, 168, after, t);
    let v6 = value_after(v5, dated, 432, date, t);
    lemma_tells_added(e, a.display_size > 0, 111, dec(a.display_size as nat), t, v0);
    lemma_tells_added(t1, a.min_qty > 0, 110, dec(a.min_qty as nat), t, v1);
    lemma_tells_added(t2, a.outside_rth, 6433, "1"@, t, v2);
    lemma_tells_added(t3, a.hidden, 6135, "1"@, t, v3);
    lemma_tells_added(t4, a.good_after > 0, 168, after, t, v4);
    lemma_tells_added(t5, dated, 432, date, t, v5);
    lemma_tells_added(t6, timed, 126, time, t, v6);
    assert(t7 == with_expiry(t5, a));
}

/// What the group, the parent and the instructions of an order say under a tag.
pub open spec fn link_value(a: OrderAttrs, alone: bool, t: u32) -> Option<Seq<char>> {
    let grouped = a.oca_group_str@.len() > 0 || a.oca_group > 0;
    if t == 583 && grouped {
        Some(
            if a.oca_group_str@.len() > 0 {
                a.oca_group_str@
            } else {
                "OCA_"@ + dec(a.oca_group as nat)
            },
        )
    } else if t == 6209 && grouped {
        Some(oca_type_name(a.oca_type))
    } else if t == 6107 && a.parent_id > 0 {
        Some(dec(a.parent_id as nat) + ".0"@)
    } else if t == 9813 && a.discretionary_amt > 0 {
        Some(price_text(a.discretionary_amt as int))
    } else if t == 6102 && a.sweep_to_fill {
        Some("1"@)
    } else if t == 18 && a.all_or_none && alone {
        Some("G"@)
    } else if t == 6115 && a.trigger_method > 0 {
        Some(dec(a.trigger_method as nat))
    } else if t == 5920 && a.cash_qty > 0 {
        Some(price_text(a.cash_qty as int))
    } else {
        None
    }
}

pub(crate) proof fn lemma_link_tells(d: FieldSeq, a: OrderAttrs, base: bool, t: u32, v0: Option<Seq<char>>)
    requires
        tells(d, t, v0),
        v0 is None || link_value(a, !base, t) is None,
        t == 583 || t == 6209 || t == 6107 || t == 9813 || t == 6102 || t == 18 || t == 6115 || t
            == 5920 ==> v0 is None,
    ensures
        tells(
            with_link_attrs(d, a, base),
            t,
            if link_value(a, !base, t) is Some {
                link_value(a, !base, t)
            } else {
                v0
            },
        ),
{
    let grouped = oca_name(a).len() > 0;
    let plain = a.all_or_none && !base;
    let parent = dec(a.parent_id as nat) + ".0"@;
    let extra = price_text(a.discretionary_amt as int);
    let cash = price_text(a.cash_qty as int);
    let t1 = add_if(d, grouped, 583, oca_name(a));
    let t2 = add_if(t1, grouped, 6209, oca_type_name(a.oca_type));
    let t3 = add_if(t2, a.parent_id > 0, 6107, parent);
    let t4 = add_if(t3, a.discretionary_amt > 0, 9813, extra);
    let t5 = add_if(t4, a.sweep_to_fill, 6102, "1"@);
    let t6 = add_if(t5, plain, 18, "G"@);
    let t7 = add_if(t6, a.trigger_method > 0, 6115, dec(a.trigger_method as nat));
    let v1 = value_after(v0, grouped, 583, oca_name(a), t);
    let v2 = value_after(v1, grouped, 6209, oca_type_name(a.oca_type), t);
    let v3 = value_after(v2, a.parent_id > 0, 6107, parent, t);
    let v4 = value_after(v3, a.discretionary_amt > 0, 9813, extra, t);
    let v5 = value_after(v4, a.sweep_to_fill, 6102, "1"@, t);
    let v6 = value_after(v5, plain, 18, "G"@, t);
    let v7 = value_after(v6, a.trigger_method > 0, 6115, dec(a.trigger_method as nat), t);
    lemma_tells_added(d, grouped, 583, oca_name(a), t, v0);
    lemma_tells_added(t1, grouped, 6209, oca_type_name(a.oca_type), t, v1);
    lemma_tells_added(t2, a.parent_id > 0, 6107, parent, t, v2);
    lemma_tells_added(t3, a.discretionary_amt > 0, 9813, extra, t, v3);
    lemma_tells_added(t4, a.sweep_to_fill, 6102, "1"@, t, v4);
    lemma_tells_added(t5, plain, 18, "G"@, t, v5);
    lemma_tells_added(t6, a.trigger_method > 0, 6115, dec(a.trigger_method as nat), t, v6);
    lemma_tells_added(t7, a.cash_qty > 0, 5920, cash, t, v7);
    lemma_group(a);
}

pub(crate) proof fn lemma_group(a: OrderAttrs)
    ensures
        (oca_name(a).len() > 0) == (a.oca_group_str@.len() > 0 || a.oca_group > 0),
        a.oca_group_str@.len() > 0 ==> oca_name(a) == a.oca_group_str@,
        a.oca_group_str@.len() == 0 && a.oca_group > 0 ==> oca_name(a) == "OCA_"@ + dec(
            a.oca_group as nat,
        ),
{
    crate::text::lemma_dec_value(a.oca_group as nat);
}

/// What the conditions of an order say in front of them.
pub open spec fn condition_value(a: OrderAttrs, t: u32) -> Option<Seq<char>> {
    if a.conditions@.len() == 0 {
        None
    } else if t == 6128 {
        Some(
            if a.conditions_ignore_rth {
                "1"@
            } else {
                "0"@
            },
        )
    } else if t == 6151 {
        Some(
            if a.conditions_cancel_order {
                "1"@
            } else {
                "0"@
            },
        )
    } else if t == 6136 {
        Some(dec(a.conditions@.len()))
    } else {
        None
    }
}

/// Whether a tag is one of those of a single condition.
pub open spec fn is_condition_tag(t: u32) -> bool {
    t == 6222 || t == 6137 || t == 6126 || t == 6123 || t == 6124 || t == 6127 || t == 6125 || t
        == 6223 || t == 6245 || t == 6263 || t == 6246 || t == 6947
}

pub(crate) proof fn lemma_condition_fields_tags(conds: Seq<OrderCondition>, k: nat)
    requires
        k <= conds.len(),
    ensures
        forall|i: int|
            0 <= i < conditions_fields(conds, k).len() ==> is_condition_tag(
                (#[trigger] conditions_fields(conds, k)[i]).0,
            ),
        conditions_fields(conds, k).len() == 12 * k,
    decreases k,
{
    if k > 0 {
        lemma_condition_fields_tags(conds, (k - 1) as nat);
        let f = condition_fields(conds[k - 1], k == conds.len());
        assert(f.len() == 12);
        assert forall|i: int| 0 <= i < f.len() implies is_condition_tag((#[trigger] f[i]).0) by {
            if i < 11 {
                assert(f[i].0 == condition_tags()[i]);
                if i == 0 {
                } else if i == 1 {
                } else if i == 2 {
                } else if i == 3 {
                } else if i == 4 {
                } else if i == 5 {
                } else if i == 6 {
                } else if i == 7 {
                } else if i == 8 {
                } else if i == 9 {
                }
            }
        }
    }
}

pub(crate) proof fn lemma_conditions_tell(l: FieldSeq, a: OrderAttrs, t: u32, v0: Option<Seq<char>>)
    requires
        tells(l, t, v0),
        t == 6128 || t == 6151 || t == 6136 ==> v0 is None,
        !is_condition_tag(t),
    ensures
        tells(
            with_conditions(l, a),
            t,
            if condition_value(a, t) is Some {
                condition_value(a, t)
            } else {
                v0
            },
        ),
{
    let n = a.conditions@.len();
    if n > 0 {
        let ignore = crate::engine::hot_loop::order_fields::flag_text(a.conditions_ignore_rth);
        let cancel = crate::engine::hot_loop::order_fields::flag_text(a.conditions_cancel_order);
        let c1 = add_if(l, true, 6128, ignore);
        let c2 = add_if(c1, true, 6151, cancel);
        let c3 = add_if(c2, true, 6136, dec(n));
        let v1 = value_after(v0, true, 6128, ignore, t);
        let v2 = value_after(v1, true, 6151, cancel, t);
        let v3 = value_after(v2, true, 6136, dec(n), t);
        lemma_tells_added(l, true, 6128, ignore, t, v0);
        lemma_tells_added(c1, true, 6151, cancel, t, v1);
        lemma_tells_added(c2, true, 6136, dec(n), t, v2);
        lemma_condition_fields_tags(a.conditions@, n);
        let f = conditions_fields(a.conditions@, n);
        assert(silent(f, t));
        lemma_says_concat(c3, f, t);
        assert(tells(c3, t, v3));
        assert(with_conditions(l, a) == c3 + f);
        match v3 {
            Some(v) => {
                assert(says(c3, t, v));
                assert(says(c3 + f, t, v));
            },
            None => {
                assert(silent(c3 + f, t));
            },
        }
    }
}

/// What the attributes of an order say under a tag.
pub(crate) proof fn lemma_attrs_tell(a: OrderAttrs, base: bool, t: u32)
    requires
        !is_condition_tag(t),
    ensures
        tells(
            with_attrs(Seq::empty(), a, base),
            t,
            if display_value(a, t) is Some {
                display_value(a, t)
            } else if link_value(a, !base, t) is Some {
                link_value(a, !base, t)
            } else {
                condition_value(a, t)
            },
        ),
{
    reveal(with_attrs);
    let d = with_display_attrs(Seq::empty(), a);
    let v1 = display_value(a, t);
    lemma_display_tells(a, t);
    lemma_link_tells(d, a, base, t, v1);
    let v2 = if link_value(a, !base, t) is Some {
        link_value(a, !base, t)
    } else {
        v1
    };
    lemma_conditions_tell(with_link_attrs(d, a, base), a, t, v2);
}

/// The attributes of an order are said.
pub(crate) proof fn lemma_attrs_said(a: OrderAttrs, base: bool)
    ensures
        says_attrs(with_attrs(Seq::empty(), a, base), a, !base),
{
    reveal(says_attrs);
    lemma_attrs_tell(a, base, 111);
    lemma_attrs_tell(a, base, 110);
    lemma_attrs_tell(a, base, 6433);
    lemma_attrs_tell(a, base, 6135);
    lemma_attrs_tell(a, base, 168);
    lemma_attrs_tell(a, base, 432);
    lemma_attrs_tell(a, base, 126);
    lemma_attrs_tell(a, base, 583);
    lemma_attrs_tell(a, base, 6209);
    lemma_attrs_tell(a, base, 6107);
    lemma_attrs_tell(a, base, 9813);
    lemma_attrs_tell(a, base, 6102);
    lemma_attrs_tell(a, base, 18);
    lemma_attrs_tell(a, base, 6115);
    lemma_attrs_tell(a, base, 5920);
    lemma_attrs_tell(a, base, 6136);
    lemma_attrs_tell(a, base, 6128);
    lemma_attrs_tell(a, base, 6151);
}

// ---------------------------------------------------------------------------------------
// Messages in parts
// ---------------------------------------------------------------------------------------

/// Whether a tag is one of those of an algorithm, a preview or a benchmark.
pub open spec fn is_extra_tag(tag: u32) -> bool {
    tag == 847 || tag == 849 || tag == 5957 || tag == 5958 || tag == 5960 || tag == 6091 || tag
        == 6941 || tag == 6938 || tag == 6939 || tag == 6942
}

/// Whether all fields of a list are of an algorithm, a preview or a benchmark.
pub open spec fn only_extra_tags(s: FieldSeq) -> bool {
    forall|i: int| 0 <= i < s.len() ==> is_extra_tag((#[trigger] s[i]).0)
}

/// Whether a message says all that a list says under some tags, and no more.
pub open spec fn carries(s: FieldSeq, msg: FieldSeq, tag: u32) -> bool {
    &&& silent(s, tag) ==> silent(msg, tag)
    &&& forall|v: Seq<char>| #![trigger says(s, tag, v)] says(s, tag, v) ==> says(msg, tag, v)
}

/// What the parts of an order's own fields say, its message says: the type, the attributes and
/// what is particular to it.
pub(crate) proof fn lemma_parts_carry(
    m: MarketView,
    account: Seq<char>,
    now: Seq<char>,
    p: PlanView,
    k: FieldSeq,
    a: FieldSeq,
    x: FieldSeq,
    tif: char,
)
    requires
        p.kind + p.tail == k + a + x,
        only_kind_tags(k),
        only_attr_tags(a),
        only_extra_tags(x),
        p.tif == seq![tif],
    ensures
        ({
            let msg = order_message(m, account, now, p);
            &&& says_common(
                msg,
                m,
                account,
                now,
                p.clord,
                p.order.instrument,
                p.order.side,
                p.qty,
                tif,
                p.directed,
            )
            &&& forall|tag: u32|
                #![trigger carries(k, msg, tag)]
                is_kind_tag(tag) || (tag == 18 && silent(a, 18)) ==> carries(k, msg, tag)
            &&& forall|tag: u32|
                #![trigger carries(a, msg, tag)]
                is_attr_tag(tag) && (tag != 18 || silent(k, 18)) ==> carries(a, msg, tag)
            &&& forall|tag: u32|
                #![trigger carries(x, msg, tag)]
                is_extra_tag(tag) ==> carries(x, msg, tag)
        }),
{
    let own = p.kind + p.tail;
    let msg = order_message(m, account, now, p);
    assert forall|i: int| 0 <= i < own.len() implies !is_common_tag((#[trigger] own[i]).0) by {
        if i < k.len() {
            assert(own[i] == k[i]);
        } else if i < k.len() + a.len() {
            assert(own[i] == a[i - k.len()]);
        } else {
            assert(own[i] == x[i - k.len() - a.len()]);
        }
    }
    lemma_order_message(m, account, now, p, tif);
    lemma_message_carries(m, account, now, p);
    assert forall|tag: u32|
        #![trigger carries(k, msg, tag)]
        is_kind_tag(tag) || (tag == 18 && silent(a, 18)) implies carries(k, msg, tag) by {
        assert(silent(a, tag) && silent(x, tag));
        lemma_carry(k, a, x, msg, own, tag);
    }
    assert forall|tag: u32|
        #![trigger carries(a, msg, tag)]
        is_attr_tag(tag) && (tag != 18 || silent(k, 18)) implies carries(a, msg, tag) by {
        assert(silent(k, tag) && silent(x, tag));
        lemma_carry(k, a, x, msg, own, tag);
    }
    assert forall|tag: u32|
        #![trigger carries(x, msg, tag)]
        is_extra_tag(tag) implies carries(x, msg, tag) by {
        assert(silent(k, tag) && silent(a, tag));
        lemma_carry(k, a, x, msg, own, tag);
    }
}

pub(crate) proof fn lemma_carry(
    k: FieldSeq,
    a: FieldSeq,
    x: FieldSeq,
    msg: FieldSeq,
    own: FieldSeq,
    tag: u32,
)
    requires
        own == k + a + x,
        !is_common_tag(tag),
        forall|t: u32|
            #![trigger silent(own, t)]
            !is_common_tag(t) && silent(own, t) ==> silent(msg, t),
        forall|t: u32, v: Seq<char>|
            #![trigger says(own, t, v)]
            !is_common_tag(t) && says(own, t, v) ==> says(msg, t, v),
    ensures
        silent(a, tag) && silent(x, tag) ==> carries(k, msg, tag),
        silent(k, tag) && silent(x, tag) ==> carries(a, msg, tag),
        silent(k, tag) && silent(a, tag) ==> carries(x, msg, tag),
{
    lemma_says_concat(k, a, tag);
    lemma_says_concat(k + a, x, tag);
    if silent(a, tag) && silent(x, tag) {
        assert forall|v: Seq<char>| #![trigger says(k, tag, v)] says(k, tag, v) implies says(
            msg,
            tag,
            v,
        ) by {
            assert(says(k + a, tag, v));
            assert(says(own, tag, v));
        }
        if silent(k, tag) {
            assert(silent(own, tag));
        }
    }
    if silent(k, tag) && silent(x, tag) {
        assert forall|v: Seq<char>| #![trigger says(a, tag, v)] says(a, tag, v) implies says(
            msg,
            tag,
            v,
        ) by {
            assert(says(k + a, tag, v));
            assert(says(own, tag, v));
        }
        if silent(a, tag) {
            assert(silent(own, tag));
        }
    }
    if silent(k, tag) && silent(a, tag) {
        assert(silent(k + a, tag));
        assert forall|v: Seq<char>| #![trigger says(x, tag, v)] says(x, tag, v) implies says(
            msg,
            tag,
            v,
        ) by {
            assert(says(own, tag, v));
        }
        if silent(x, tag) {
            assert(silent(own, tag));
        }
    }
}

/// A message that carries the attributes says them.
pub(crate) proof fn lemma_attrs_carried(s: FieldSeq, msg: FieldSeq, a: OrderAttrs, alone: bool)
    requires
        says_attrs(s, a, alone),
        forall|tag: u32|
            #![trigger carries(s, msg, tag)]
            is_attr_tag(tag) && (tag != 18 || alone) ==> carries(s, msg, tag),
    ensures
        says_attrs(msg, a, alone),
{
    reveal(says_attrs);
    assert(carries(s, msg, 111) && carries(s, msg, 110) && carries(s, msg, 6433));
    assert(carries(s, msg, 6135) && carries(s, msg, 168) && carries(s, msg, 432));
    assert(carries(s, msg, 126) && carries(s, msg, 583) && carries(s, msg, 6209));
    assert(carries(s, msg, 6107) && carries(s, msg, 9813) && carries(s, msg, 6102));
    assert(carries(s, msg, 6115) && carries(s, msg, 5920) && carries(s, msg, 6136));
    assert(carries(s, msg, 6128) && carries(s, msg, 6151));
    assert(alone ==> carries(s, msg, 18));
}

/// The contract id leaves fields as they are among which there is no secondary routing field.
pub(crate) proof fn lemma_contract_suffix(a: FieldSeq, b: FieldSeq, con_id: i64)
    requires
        silent(b, 6210),
    ensures
        with_contract(a + b, con_id) == with_contract(a, con_id) + b,
    decreases b.len(),
{
    if b.len() == 0 {
        assert(a + b =~= a);
        assert(with_contract(a, con_id) + b =~= with_contract(a, con_id));
    } else {
        let init = b.drop_last();
        assert forall|i: int| 0 <= i < init.len() implies (#[trigger] init[i]).0 != 6210 by {
            assert(b[i].0 != 6210);
        }
        assert(b[b.len() - 1].0 != 6210);
        lemma_contract_suffix(a, init, con_id);
        assert((a + b).drop_last() =~= a + init);
        assert(with_contract(a + b, con_id) =~= with_contract(a, con_id) + b);
    }
}

/// Whether a message ends with a list of fields.
pub open spec fn ends_with(msg: FieldSeq, s: FieldSeq) -> bool {
    s.len() <= msg.len() && msg.skip(msg.len() - s.len()) == s
}

/// An order's message ends with what its plan puts last.
pub(crate) proof fn lemma_message_ends(
    m: MarketView,
    account: Seq<char>,
    now: Seq<char>,
    p: PlanView,
    first: FieldSeq,
    last: FieldSeq,
)
    requires
        p.tail == first + last,
        silent(last, 6210),
    ensures
        ends_with(order_message(m, account, now, p), last),
{
    let instrument = p.order.instrument;
    let head = order_head(now, account, m.symbols[instrument as int], p);
    let middle = order_middle(now, m.order_route(instrument), p);
    let u = unrouted_message(m, account, now, p);
    let before = head + p.kind + middle + first;
    assert(u =~= before + last);
    if let Some(con_id) = m.con_id_of(instrument) {
        if con_id > 0 {
            lemma_contract_suffix(before, last, con_id);
            let w = with_contract(before, con_id);
            assert((w + last).skip(w.len() as int) =~= last);
        }
    }
    assert((before + last).skip(before.len() as int) =~= last);
}

// ---------------------------------------------------------------------------------------
// Orders with attributes
// ---------------------------------------------------------------------------------------

/// The attributes of a request that carries some besides its type.
pub open spec fn attributes_of(req: OrderRequest) -> Option<(OrderAttrs, bool)> {
    match req {
        OrderRequest::SubmitLimitEx { attrs, .. } => Some((attrs, true)),
        OrderRequest::SubmitEx { kind, attrs, .. } => Some(
            (attrs, !(kind is TrailingStop || kind is TrailPct || kind is Rel)),
        ),
        OrderRequest::SubmitTrailingStopPctEx { attrs, .. } => Some((attrs, false)),
        _ => None,
    }
}

/// The message of an order with attributes says each that is set, and ends with its conditions,
/// in order.
pub proof fn law_attributes_are_said(
    c: ContextView,
    account: Seq<char>,
    now: Seq<char>,
    req: OrderRequest,
    attrs: OrderAttrs,
    alone: bool,
)
    requires
        c.wf(),
        attributes_of(req) == Some((attrs, alone)),
    ensures
        ({
            let step = request_step(c, account, now, req);
            &&& step is Place
            &&& step->Place_messages.len() == 1
            &&& says_attrs(step->Place_messages[0], attrs, alone)
            &&& ends_with(
                step->Place_messages[0],
                conditions_fields(attrs.conditions@, attrs.conditions@.len()),
            )
        }),
{
    let r = on_grid(c, req);
    match r {
        OrderRequest::SubmitLimitEx { order_id, instrument, side, qty, price, tif, attrs } => {
            let k = OrderKind::Limit { price };
            lemma_extended_says(c, account, now, order_id, instrument, side, qty, k, tif, attrs);
            let p = extended_plan(c, order_id, instrument, side, qty, k, tif, attrs);
            assert(plans(c, r) == seq![p]);
            lemma_one_plan(c, account, now, p);
        },
        OrderRequest::SubmitEx { order_id, instrument, side, qty, kind, tif, attrs } => {
            lemma_extended_says(c, account, now, order_id, instrument, side, qty, kind, tif, attrs);
            let p = extended_plan(c, order_id, instrument, side, qty, kind, tif, attrs);
            assert(plans(c, r) == seq![p]);
            lemma_one_plan(c, account, now, p);
        },
        OrderRequest::SubmitTrailingStopPctEx {
            order_id,
            instrument,
            side,
            qty,
            trail_pct,
            tif,
            attrs,
            trail_stop_price,
        } => {
            let k = OrderKind::TrailPct { trail_pct, trail_stop_price };
            lemma_extended_says(c, account, now, order_id, instrument, side, qty, k, tif, attrs);
            let p = extended_plan(c, order_id, instrument, side, qty, k, tif, attrs);
            assert(plans(c, r) == seq![p]);
            lemma_one_plan(c, account, now, p);
        },
        _ => {},
    }
}

/// Where the conditions stand among the attributes.
pub(crate) proof fn lemma_conditions_last(a: OrderAttrs, base: bool) -> (first: FieldSeq)
    ensures
        with_attrs(Seq::empty(), a, base) == first + conditions_fields(
            a.conditions@,
            a.conditions@.len(),
        ),
        silent(conditions_fields(a.conditions@, a.conditions@.len()), 6210),
{
    reveal(with_attrs);
    let n = a.conditions@.len();
    let f = conditions_fields(a.conditions@, n);
    lemma_condition_fields_tags(a.conditions@, n);
    let l = with_link_attrs(with_display_attrs(Seq::empty(), a), a, base);
    if n == 0 {
        assert(l + f =~= l);
        l
    } else {
        let ignore = crate::engine::hot_loop::order_fields::flag_text(a.conditions_ignore_rth);
        let cancel = crate::engine::hot_loop::order_fields::flag_text(a.conditions_cancel_order);
        l.push((6128u32, ignore)).push((6151u32, cancel)).push((6136u32, dec(n)))
    }
}

pub(crate) proof fn lemma_extended_says(
    c: ContextView,
    account: Seq<char>,
    now: Seq<char>,
    order_id: OrderId,
    instrument: InstrumentId,
    side: Side,
    qty: u32,
    kind: OrderKind,
    tif: u8,
    attrs: OrderAttrs,
)
    ensures
        ({
            let p = extended_plan(c, order_id, instrument, side, qty, kind, tif, attrs);
            let msg = order_message(c.market, account, now, p);
            &&& says_attrs(msg, attrs, !takes_exec_inst(kind))
            &&& ends_with(msg, conditions_fields(attrs.conditions@, attrs.conditions@.len()))
        }),
{
    reveal(kind_plan);
    let takes = takes_exec_inst(kind);
    let p = extended_plan(c, order_id, instrument, side, qty, kind, tif, attrs);
    let k = kind_fields(kind) + kind_tail(kind);
    let a = with_attrs(Seq::empty(), attrs, takes);
    let none = Seq::<(u32, Seq<char>)>::empty();
    lemma_attrs_append(kind_tail(kind), attrs, takes);
    lemma_attr_tags(attrs, takes);
    lemma_attrs_said(attrs, takes);
    lemma_kind_fields(kind);
    assert(p.kind + p.tail =~= k + a + none);
    lemma_parts_carry(c.market, account, now, p, k, a, none, tif_char(tif));
    lemma_attrs_carried(a, order_message(c.market, account, now, p), attrs, !takes);
    let first = lemma_conditions_last(attrs, takes);
    let last = conditions_fields(attrs.conditions@, attrs.conditions@.len());
    assert(p.tail =~= (kind_tail(kind) + first) + last);
    lemma_message_ends(c.market, account, now, p, kind_tail(kind) + first, last);
}

// ---------------------------------------------------------------------------------------
// Conditions
// ---------------------------------------------------------------------------------------

/// What the fields of a condition say: its type, whether another follows, whether it asks for
/// more or for less, and its values, each under the tag of that value.
pub open spec fn says_condition(m: FieldSeq, cond: OrderCondition, last: bool) -> bool {
    &&& says(
        m,
        6137,
        if last {
            "n"@
        } else {
            "a"@
        },
    )
    &&& match cond {
        OrderCondition::Price { con_id, exchange, price, is_more, trigger_method } => {
            &&& says(m, 6222, "1"@)
            &&& says_more(m, is_more)
            &&& says(m, 6123, int_text(con_id as int))
            &&& says(m, 6127, dec(trigger_method as nat))
            &&& says(m, 6125, price_text(price as int))
            &&& exchange@ == "SMART"@ ==> says(m, 6124, "BEST"@)
            &&& !crate::text::eq_ignoring_ascii_case(exchange@, "SMART"@) ==> says(
                m,
                6124,
                exchange@,
            )
        },
        OrderCondition::Time { time, is_more } => says(m, 6222, "3"@) && says_more(m, is_more)
            && says(m, 6223, time@),
        OrderCondition::Margin { percent, is_more } => says(m, 6222, "4"@) && says_more(m, is_more)
            && says(m, 6245, dec(percent as nat)),
        OrderCondition::Execution { symbol, exchange, sec_type } => says(m, 6222, "5"@) && says(
            m,
            6246,
            "symbol="@ + symbol@ + ";exchange="@ + (if exchange@ == "SMART"@ {
                "*"@
            } else {
                exchange@
            }) + ";securityType="@ + sec_type@ + ";"@,
        ),
        OrderCondition::Volume { con_id, exchange, volume, is_more } => says(m, 6222, "6"@)
            && says_more(m, is_more) && says(m, 6123, int_text(con_id as int)) && says(
            m,
            6124,
            exchange@,
        ) && says(m, 6263, int_text(volume as int)),
        OrderCondition::PercentChange { con_id, exchange, percent, is_more } => says(m, 6222, "7"@)
            && says_more(m, is_more) && says(m, 6123, int_text(con_id as int)) && says(
            m,
            6124,
            exchange@,
        ) && says(m, 6245, percent@),
    }
}

/// Whether the fields of a condition ask for more or for less.
pub open spec fn says_more(m: FieldSeq, is_more: bool) -> bool {
    says(
        m,
        6126,
        if is_more {
            ">="@
        } else {
            "<="@
        },
    )
}

pub(crate) proof fn lemma_condition_said(cond: OrderCondition, last: bool)
    ensures
        says_condition(condition_fields(cond, last), cond, last),
        condition_fields(cond, last).len() == 12,
{
    let m = condition_fields(cond, last);
    let v = crate::engine::hot_loop::order_fields::condition_texts(cond, last, true);
    let t = condition_tags();
    assert(t[0] == 6222 && t[1] == 6137 && t[2] == 6126 && t[3] == 6123 && t[4] == 6124 && t[5]
        == 6127 && t[6] == 6125 && t[7] == 6223 && t[8] == 6245 && t[9] == 6263 && t[10] == 6246);
    assert(m.len() == 12);
    assert(m[0] == (6222u32, v[0]) && m[1] == (6137u32, v[1]) && m[2] == (6126u32, v[2]));
    assert(m[3] == (6123u32, v[3]) && m[4] == (6124u32, v[4]) && m[5] == (6127u32, v[5]));
    assert(m[6] == (6125u32, v[6]) && m[7] == (6223u32, v[7]) && m[8] == (6245u32, v[8]));
    assert(m[9] == (6263u32, v[9]) && m[10] == (6246u32, v[10]) && m[11].0 == 6947);
    lemma_one_field(m, 0, 6222, v[0]);
    lemma_one_field(m, 1, 6137, v[1]);
    lemma_one_field(m, 2, 6126, v[2]);
    lemma_one_field(m, 3, 6123, v[3]);
    lemma_one_field(m, 4, 6124, v[4]);
    lemma_one_field(m, 5, 6127, v[5]);
    lemma_one_field(m, 6, 6125, v[6]);
    lemma_one_field(m, 7, 6223, v[7]);
    lemma_one_field(m, 8, 6245, v[8]);
    lemma_one_field(m, 9, 6263, v[9]);
    lemma_one_field(m, 10, 6246, v[10]);
    lemma_smart();
}

pub(crate) proof fn lemma_smart()
    ensures
        crate::text::eq_ignoring_ascii_case("SMART"@, "SMART"@),
{
}

/// The conditions of an order are said one behind the other, twelve fields each: the fields of
/// each say what it is, and each but the last says that another follows.
pub proof fn law_conditions_are_said(conds: Seq<OrderCondition>, i: int)
    requires
        0 <= i < conds.len(),
    ensures
        conditions_fields(conds, conds.len()).len() == 12 * conds.len(),
        says_condition(
            conditions_fields(conds, conds.len()).subrange(12 * i, 12 * i + 12),
            conds[i],
            i == conds.len() - 1,
        ),
{
    lemma_condition_fields_tags(conds, conds.len());
    lemma_condition_block(conds, conds.len(), i);
    lemma_condition_said(conds[i], i == conds.len() - 1);
}

pub(crate) proof fn lemma_condition_block(conds: Seq<OrderCondition>, k: nat, i: int)
    requires
        k <= conds.len(),
        0 <= i < k,
    ensures
        conditions_fields(conds, k).len() == 12 * k,
        conditions_fields(conds, k).subrange(12 * i, 12 * i + 12) == condition_fields(
            conds[i],
            i == conds.len() - 1,
        ),
    decreases k,
{
    lemma_condition_fields_tags(conds, k);
    lemma_condition_fields_tags(conds, (k - 1) as nat);
    let before = conditions_fields(conds, (k - 1) as nat);
    let f = conditions_fields(conds, k);
    if i < k - 1 {
        lemma_condition_block(conds, (k - 1) as nat, i);
        assert(f.subrange(12 * i, 12 * i + 12) =~= before.subrange(12 * i, 12 * i + 12));
    } else {
        assert(f.subrange(12 * i, 12 * i + 12) =~= condition_fields(conds[i], k == conds.len()));
    }
}

} // verus!
