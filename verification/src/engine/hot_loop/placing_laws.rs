//! What the messages that place orders say, and what is tracked of the orders.
use vstd::prelude::*;

use crate::engine::context::{law_put_then_find, versioned, ContextView};
use crate::engine::hot_loop::order_builder::{
    on_grid, order_head, order_message, order_middle, plan_messages, request_effect, request_step,
    unrouted_message, with_contract, with_plans,
};
use crate::engine::hot_loop::order_fields::{
    add_if, adjustable_fields, condition_fields, condition_tags, conditions_fields, kind_fields,
    kind_tail, oca_name, oca_type_name, percent_text, takes_exec_inst, with_attrs, with_conditions,
    with_display_attrs, with_expiry, with_link_attrs, FieldSeq,
};
use crate::engine::hot_loop::order_plans::{
    extended_plan, kind_plan, one_if, parts_plan, peg_mid_tail, plain_parts, plans, PartsView,
    PlanView,
};
use crate::engine::market_state::MarketView;
use crate::engine::order::{
    request_instrument, snapped, snapped_kind, snapped_price, AdjustedOrderType, Order, OrderAttrs,
    OrderCondition, OrderKind, OrderRequest, OrderStatus, Side,
};
use crate::text::{dec, int_text};
use crate::types::{price_text, InstrumentId, OrderId, Price, MAX_INSTRUMENTS};

verus! {

// ---------------------------------------------------------------------------------------
// What a message says
// ---------------------------------------------------------------------------------------

/// Whether a message says something under a tag: it has such a field, and each of its fields
/// under that tag has that value.
pub open spec fn says(m: FieldSeq, tag: u32, value: Seq<char>) -> bool {
    &&& exists|i: int| 0 <= i < m.len() && #[trigger] m[i] == (tag, value)
    &&& forall|i: int| 0 <= i < m.len() && (#[trigger] m[i]).0 == tag ==> m[i].1 == value
}

/// Whether a message has no field under a tag.
pub open spec fn silent(m: FieldSeq, tag: u32) -> bool {
    forall|i: int| 0 <= i < m.len() ==> (#[trigger] m[i]).0 != tag
}

/// Whether a message says something under a tag when a condition holds, and nothing otherwise.
pub open spec fn says_if(m: FieldSeq, on: bool, tag: u32, value: Seq<char>) -> bool {
    if on {
        says(m, tag, value)
    } else {
        silent(m, tag)
    }
}

pub(crate) proof fn lemma_says_concat(a: FieldSeq, b: FieldSeq, tag: u32)
    ensures
        silent(a, tag) && silent(b, tag) ==> silent(a + b, tag),
        forall|v: Seq<char>|
            #![trigger says(a, tag, v)]
            says(a, tag, v) && silent(b, tag) ==> says(a + b, tag, v),
        forall|v: Seq<char>|
            #![trigger says(b, tag, v)]
            silent(a, tag) && says(b, tag, v) ==> says(a + b, tag, v),
{
    let s = a + b;
    assert forall|i: int| 0 <= i < s.len() implies (#[trigger] s[i]) == (if i < a.len() {
        a[i]
    } else {
        b[i - a.len()]
    }) by {}
    assert forall|v: Seq<char>|
        #![trigger says(a, tag, v)]
        says(a, tag, v) && silent(b, tag) implies says(s, tag, v) by {
        let i = choose|i: int| 0 <= i < a.len() && #[trigger] a[i] == (tag, v);
        assert(s[i] == (tag, v));
    }
    assert forall|v: Seq<char>|
        #![trigger says(b, tag, v)]
        silent(a, tag) && says(b, tag, v) implies says(s, tag, v) by {
        let i = choose|i: int| 0 <= i < b.len() && #[trigger] b[i] == (tag, v);
        assert(s[a.len() + i] == (tag, v));
    }
}

/// The contract id changes nothing that a message says under another tag.
pub(crate) proof fn lemma_contract_keeps(s: FieldSeq, con_id: i64, tag: u32)
    requires
        tag != 6008,
    ensures
        silent(s, tag) ==> silent(with_contract(s, con_id), tag),
        forall|v: Seq<char>|
            #![trigger says(s, tag, v)]
            says(s, tag, v) ==> says(with_contract(s, con_id), tag, v),
{
    lemma_contract_fields(s, con_id);
    let t = with_contract(s, con_id);
    let id = (6008u32, int_text(con_id as int));
    assert forall|v: Seq<char>|
        #![trigger says(s, tag, v)]
        says(s, tag, v) implies says(t, tag, v) by {
        let i = choose|i: int| 0 <= i < s.len() && #[trigger] s[i] == (tag, v);
        assert(s.contains(s[i]));
        assert(t.contains((tag, v)));
        let j = choose|j: int| 0 <= j < t.len() && t[j] == (tag, v);
        assert(t[j] == (tag, v));
        assert forall|k: int| 0 <= k < t.len() && (#[trigger] t[k]).0 == tag implies t[k].1 == v by {
            assert(t.contains(t[k]));
            assert(s.contains(t[k]));
        }
    }
    if silent(s, tag) {
        assert forall|k: int| 0 <= k < t.len() implies (#[trigger] t[k]).0 != tag by {
            assert(t.contains(t[k]));
            if t[k] != id {
                assert(s.contains(t[k]));
            }
        }
    }
}

/// The fields of a message with the contract id are its own and the contract id.
pub(crate) proof fn lemma_contract_fields(s: FieldSeq, con_id: i64)
    ensures
        forall|f: (u32, Seq<char>)| #[trigger]
            s.contains(f) ==> with_contract(s, con_id).contains(f),
        forall|f: (u32, Seq<char>)| #[trigger]
            with_contract(s, con_id).contains(f) ==> f == (6008u32, int_text(con_id as int))
                || s.contains(f),
    decreases s.len(),
{
    let t = with_contract(s, con_id);
    let id = (6008u32, int_text(con_id as int));
    if s.len() > 0 {
        let init = s.drop_last();
        let before = with_contract(init, con_id);
        lemma_contract_fields(init, con_id);
        assert forall|f: (u32, Seq<char>)| #[trigger] s.contains(f) implies t.contains(f) by {
            let i = choose|i: int| 0 <= i < s.len() && s[i] == f;
            if i < init.len() {
                assert(init[i] == f);
                assert(init.contains(f));
                assert(before.contains(f));
                let j = choose|j: int| 0 <= j < before.len() && before[j] == f;
                assert(t[j] == f);
            } else {
                assert(t[before.len() as int] == f);
            }
        }
        assert forall|f: (u32, Seq<char>)| #[trigger] t.contains(f) implies f == id || s.contains(
            f,
        ) by {
            let j = choose|j: int| 0 <= j < t.len() && t[j] == f;
            if j < before.len() {
                assert(before[j] == f);
                assert(before.contains(f));
                if f != id {
                    let i = choose|i: int| 0 <= i < init.len() && init[i] == f;
                    assert(s[i] == f);
                }
            } else if j == before.len() {
                assert(s[s.len() - 1] == f);
            }
        }
    }
}

/// Whether a tag is one of those that every order message has.
pub open spec fn is_common_tag(tag: u32) -> bool {
    tag == 35 || tag == 52 || tag == 11 || tag == 1 || tag == 21 || tag == 55 || tag == 54 || tag
        == 38 || tag == 59 || tag == 60 || tag == 167 || tag == 100 || tag == 6210 || tag == 15
        || tag == 204 || tag == 6008
}

/// Whether a list of fields has none under a tag that every order message has.
pub open spec fn no_common_tags(s: FieldSeq) -> bool {
    forall|i: int| 0 <= i < s.len() ==> !is_common_tag((#[trigger] s[i]).0)
}

/// What every message that places an order says: that it does, when, under which number, for
/// which account, of what, on which side, how much, for how long, and where to.
#[verifier::opaque]
pub open spec fn says_common(
    msg: FieldSeq,
    m: MarketView,
    account: Seq<char>,
    now: Seq<char>,
    clord: Seq<char>,
    instrument: InstrumentId,
    side: Side,
    qty: Seq<char>,
    tif: char,
    directed: bool,
) -> bool {
    let destination = if directed {
        "ISLAND"@
    } else if m.routes[instrument as int].1 == "SMART"@ {
        "BEST"@
    } else {
        m.routes[instrument as int].1
    };
    &&& says(msg, 35, "D"@)
    &&& says(msg, 52, now)
    &&& says(msg, 60, now)
    &&& says(msg, 11, clord)
    &&& says(msg, 1, account)
    &&& says(msg, 21, "2"@)
    &&& says(msg, 55, m.symbols[instrument as int])
    &&& side == Side::Buy ==> says(msg, 54, "1"@)
    &&& side == Side::Sell ==> says(msg, 54, "2"@)
    &&& side == Side::ShortSell ==> says(msg, 54, "5"@)
    &&& says(msg, 38, qty)
    &&& says(msg, 59, seq![tif])
    &&& says(msg, 167, m.routes[instrument as int].0)
    &&& says(msg, 100, destination)
    &&& says(msg, 6210, destination)
    &&& says(msg, 15, "USD"@)
    &&& says(msg, 204, "0"@)
    &&& m.con_id_of(instrument) is Some && m.con_id_of(instrument)->0 > 0 ==> says(
        msg,
        6008,
        int_text(m.con_id_of(instrument)->0 as int),
    )
}

pub(crate) proof fn lemma_one_field(s: FieldSeq, i: int, tag: u32, v: Seq<char>)
    requires
        0 <= i < s.len(),
        s[i] == (tag, v),
        forall|k: int| 0 <= k < s.len() && k != i ==> (#[trigger] s[k]).0 != tag,
    ensures
        says(s, tag, v),
{
}

pub(crate) proof fn lemma_head_says(now: Seq<char>, account: Seq<char>, symbol: Seq<char>, p: PlanView)
    ensures
        ({
            let head = order_head(now, account, symbol, p);
            &&& says(head, 35, "D"@)
            &&& says(head, 52, now)
            &&& says(head, 11, p.clord)
            &&& says(head, 1, account)
            &&& says(head, 21, "2"@)
            &&& says(head, 55, symbol)
            &&& p.order.side == Side::Buy ==> says(head, 54, "1"@)
            &&& p.order.side == Side::Sell ==> says(head, 54, "2"@)
            &&& p.order.side == Side::ShortSell ==> says(head, 54, "5"@)
            &&& says(head, 38, p.qty)
            &&& forall|i: int|
                0 <= i < head.len() ==> ({
                    let t = (#[trigger] head[i]).0;
                    t == 35 || t == 52 || t == 11 || t == 1 || t == 21 || t == 55 || t == 54 || t
                        == 38
                })
        }),
{
    let head = order_head(now, account, symbol, p);
    assert(head.len() == 8);
    assert(head[0].0 == 35 && head[1].0 == 52 && head[2].0 == 11 && head[3].0 == 1 && head[4].0
        == 21 && head[5].0 == 55 && head[6].0 == 54 && head[7].0 == 38);
    lemma_one_field(head, 0, 35, "D"@);
    lemma_one_field(head, 1, 52, now);
    lemma_one_field(head, 2, 11, p.clord);
    lemma_one_field(head, 3, 1, account);
    lemma_one_field(head, 4, 21, "2"@);
    lemma_one_field(head, 5, 55, symbol);
    lemma_one_field(head, 6, 54, head[6].1);
    lemma_one_field(head, 7, 38, p.qty);
}

pub(crate) proof fn lemma_middle_says(now: Seq<char>, route: (Seq<char>, Seq<char>), p: PlanView)
    ensures
        ({
            let middle = order_middle(now, route, p);
            let destination = if p.directed {
                "ISLAND"@
            } else {
                route.1
            };
            &&& says(middle, 59, p.tif)
            &&& says(middle, 60, now)
            &&& says(middle, 167, route.0)
            &&& says(middle, 100, destination)
            &&& says(middle, 6210, destination)
            &&& says(middle, 15, "USD"@)
            &&& says(middle, 204, "0"@)
            &&& forall|i: int|
                0 <= i < middle.len() ==> ({
                    let t = (#[trigger] middle[i]).0;
                    t == 59 || t == 60 || t == 167 || t == 100 || t == 6210 || t == 15 || t == 204
                })
        }),
{
    let middle = order_middle(now, route, p);
    assert(middle.len() == 7);
    assert(middle[0].0 == 59 && middle[1].0 == 60 && middle[2].0 == 167 && middle[3].0 == 100
        && middle[4].0 == 6210 && middle[5].0 == 15 && middle[6].0 == 204);
    lemma_one_field(middle, 0, 59, p.tif);
    lemma_one_field(middle, 1, 60, now);
    lemma_one_field(middle, 2, 167, middle[2].1);
    lemma_one_field(middle, 3, 100, middle[3].1);
    lemma_one_field(middle, 4, 6210, middle[4].1);
    lemma_one_field(middle, 5, 15, "USD"@);
    lemma_one_field(middle, 6, 204, "0"@);
}

/// What four lists of fields say together, when only one of them says something under a tag.
pub(crate) proof fn lemma_says_parts(a: FieldSeq, b: FieldSeq, c: FieldSeq, d: FieldSeq, tag: u32)
    ensures
        forall|v: Seq<char>|
            #![trigger says(a, tag, v)]
            says(a, tag, v) && silent(b, tag) && silent(c, tag) && silent(d, tag) ==> says(
                a + b + c + d,
                tag,
                v,
            ),
        forall|v: Seq<char>|
            #![trigger says(c, tag, v)]
            silent(a, tag) && silent(b, tag) && says(c, tag, v) && silent(d, tag) ==> says(
                a + b + c + d,
                tag,
                v,
            ),
        forall|v: Seq<char>|
            #![trigger says(b + d, tag, v)]
            silent(a, tag) && silent(c, tag) && says(b + d, tag, v) ==> says(
                a + b + c + d,
                tag,
                v,
            ),
        silent(a, tag) && silent(c, tag) && silent(b + d, tag) ==> silent(a + b + c + d, tag),
{
    let s = a + b + c + d;
    let own = b + d;
    lemma_says_concat(a, b, tag);
    lemma_says_concat(a + b, c, tag);
    lemma_says_concat(a + b + c, d, tag);
    assert forall|v: Seq<char>|
        #![trigger says(a, tag, v)]
        says(a, tag, v) && silent(b, tag) && silent(c, tag) && silent(d, tag) implies says(
        s,
        tag,
        v,
    ) by {
        assert(says(a + b, tag, v));
        assert(says(a + b + c, tag, v));
    }
    assert forall|v: Seq<char>|
        #![trigger says(c, tag, v)]
        silent(a, tag) && silent(b, tag) && says(c, tag, v) && silent(d, tag) implies says(
        s,
        tag,
        v,
    ) by {
        assert(says(a + b + c, tag, v));
    }
    let k = a.len() as int;
    let l = b.len() as int;
    let n = c.len() as int;
    if silent(a, tag) && silent(c, tag) {
        assert forall|i: int| 0 <= i < s.len() && (#[trigger] s[i]).0 == tag implies (k <= i < k + l
            && s[i] == own[i - k]) || (k + l + n <= i && s[i] == own[i - k - n]) by {
            if i < k {
                assert(s[i] == a[i]);
            } else if k + l <= i < k + l + n {
                assert(s[i] == c[i - k - l]);
            }
        }
        assert forall|v: Seq<char>|
            #![trigger says(own, tag, v)]
            says(own, tag, v) implies says(s, tag, v) by {
            let i = choose|i: int| 0 <= i < own.len() && #[trigger] own[i] == (tag, v);
            if i < l {
                assert(s[k + i] == (tag, v));
            } else {
                assert(s[k + n + i] == (tag, v));
            }
        }
    }
}

pub(crate) proof fn lemma_common_silent(own: FieldSeq, kind: FieldSeq, tail: FieldSeq, tag: u32)
    requires
        own == kind + tail,
        no_common_tags(own),
        is_common_tag(tag),
    ensures
        silent(kind, tag),
        silent(tail, tag),
{
    assert forall|i: int| 0 <= i < kind.len() implies (#[trigger] kind[i]).0 != tag by {
        assert(own[i] == kind[i]);
    }
    assert forall|i: int| 0 <= i < tail.len() implies (#[trigger] tail[i]).0 != tag by {
        assert(own[kind.len() + i] == tail[i]);
    }
}

/// What an order's fields say without its contract id.
pub(crate) proof fn lemma_unrouted_message(m: MarketView, account: Seq<char>, now: Seq<char>, p: PlanView)
    requires
        no_common_tags(p.kind + p.tail),
    ensures
        ({
            let u = unrouted_message(m, account, now, p);
            let route = m.order_route(p.order.instrument);
            let destination = if p.directed {
                "ISLAND"@
            } else {
                route.1
            };
            &&& says(u, 35, "D"@)
            &&& says(u, 52, now)
            &&& says(u, 60, now)
            &&& says(u, 11, p.clord)
            &&& says(u, 1, account)
            &&& says(u, 21, "2"@)
            &&& says(u, 55, m.symbols[p.order.instrument as int])
            &&& p.order.side == Side::Buy ==> says(u, 54, "1"@)
            &&& p.order.side == Side::Sell ==> says(u, 54, "2"@)
            &&& p.order.side == Side::ShortSell ==> says(u, 54, "5"@)
            &&& says(u, 38, p.qty)
            &&& says(u, 59, p.tif)
            &&& says(u, 167, route.0)
            &&& says(u, 100, destination)
            &&& says(u, 6210, destination)
            &&& says(u, 15, "USD"@)
            &&& says(u, 204, "0"@)
            &&& silent(u, 6008)
        }),
{
    let instrument = p.order.instrument;
    let head = order_head(now, account, m.symbols[instrument as int], p);
    let middle = order_middle(now, m.order_route(instrument), p);
    let own = p.kind + p.tail;
    lemma_head_says(now, account, m.symbols[instrument as int], p);
    lemma_middle_says(now, m.order_route(instrument), p);
    assert forall|tag: u32| #[trigger] is_common_tag(tag) implies silent(p.kind, tag) && silent(
        p.tail,
        tag,
    ) by {
        lemma_common_silent(own, p.kind, p.tail, tag);
    }
    assert(is_common_tag(35) && is_common_tag(52) && is_common_tag(11) && is_common_tag(1));
    assert(is_common_tag(21) && is_common_tag(55) && is_common_tag(54) && is_common_tag(38));
    assert(is_common_tag(59) && is_common_tag(60) && is_common_tag(167) && is_common_tag(100));
    assert(is_common_tag(6210) && is_common_tag(15) && is_common_tag(204) && is_common_tag(6008));
    lemma_says_parts(head, p.kind, middle, p.tail, 35);
    lemma_says_parts(head, p.kind, middle, p.tail, 52);
    lemma_says_parts(head, p.kind, middle, p.tail, 11);
    lemma_says_parts(head, p.kind, middle, p.tail, 1);
    lemma_says_parts(head, p.kind, middle, p.tail, 21);
    lemma_says_parts(head, p.kind, middle, p.tail, 55);
    lemma_says_parts(head, p.kind, middle, p.tail, 54);
    lemma_says_parts(head, p.kind, middle, p.tail, 38);
    lemma_says_parts(head, p.kind, middle, p.tail, 59);
    lemma_says_parts(head, p.kind, middle, p.tail, 60);
    lemma_says_parts(head, p.kind, middle, p.tail, 167);
    lemma_says_parts(head, p.kind, middle, p.tail, 100);
    lemma_says_parts(head, p.kind, middle, p.tail, 6210);
    lemma_says_parts(head, p.kind, middle, p.tail, 15);
    lemma_says_parts(head, p.kind, middle, p.tail, 204);
    lemma_says_parts(head, p.kind, middle, p.tail, 6008);
    assert(silent(own, 6008));
}

/// What an order's own fields say, its message says.
pub(crate) proof fn lemma_own_fields(
    m: MarketView,
    account: Seq<char>,
    now: Seq<char>,
    p: PlanView,
    tag: u32,
)
    requires
        !is_common_tag(tag),
    ensures
        silent(p.kind + p.tail, tag) ==> silent(order_message(m, account, now, p), tag),
        forall|v: Seq<char>|
            #![trigger says(p.kind + p.tail, tag, v)]
            says(p.kind + p.tail, tag, v) ==> says(order_message(m, account, now, p), tag, v),
{
    let instrument = p.order.instrument;
    let head = order_head(now, account, m.symbols[instrument as int], p);
    let middle = order_middle(now, m.order_route(instrument), p);
    let u = unrouted_message(m, account, now, p);
    let own = p.kind + p.tail;
    lemma_head_says(now, account, m.symbols[instrument as int], p);
    lemma_middle_says(now, m.order_route(instrument), p);
    lemma_says_parts(head, p.kind, middle, p.tail, tag);
    if let Some(con_id) = m.con_id_of(instrument) {
        if con_id > 0 {
            lemma_contract_keeps(u, con_id, tag);
            assert forall|v: Seq<char>|
                #![trigger says(own, tag, v)]
                says(own, tag, v) implies says(order_message(m, account, now, p), tag, v) by {
                assert(says(u, tag, v));
            }
        }
    }
}

/// What every order's message says.
pub(crate) proof fn lemma_order_message(
    m: MarketView,
    account: Seq<char>,
    now: Seq<char>,
    p: PlanView,
    tif: char,
)
    requires
        no_common_tags(p.kind + p.tail),
        p.tif == seq![tif],
    ensures
        says_common(
            order_message(m, account, now, p),
            m,
            account,
            now,
            p.clord,
            p.order.instrument,
            p.order.side,
            p.qty,
            tif,
            p.directed,
        ),
{
    reveal(says_common);
    let u = unrouted_message(m, account, now, p);
    lemma_unrouted_message(m, account, now, p);
    if let Some(con_id) = m.con_id_of(p.order.instrument) {
        if con_id > 0 {
            lemma_contract_keeps(u, con_id, 35);
            lemma_contract_keeps(u, con_id, 52);
            lemma_contract_keeps(u, con_id, 60);
            lemma_contract_keeps(u, con_id, 11);
            lemma_contract_keeps(u, con_id, 1);
            lemma_contract_keeps(u, con_id, 21);
            lemma_contract_keeps(u, con_id, 55);
            lemma_contract_keeps(u, con_id, 54);
            lemma_contract_keeps(u, con_id, 38);
            lemma_contract_keeps(u, con_id, 59);
            lemma_contract_keeps(u, con_id, 167);
            lemma_contract_keeps(u, con_id, 100);
            lemma_contract_keeps(u, con_id, 6210);
            lemma_contract_keeps(u, con_id, 15);
            lemma_contract_keeps(u, con_id, 204);
            lemma_contract_said(u, con_id);
        }
    }
}

/// A message with a secondary routing field and without a contract id of its own says the
/// contract id that is added.
pub(crate) proof fn lemma_contract_said(s: FieldSeq, con_id: i64)
    requires
        silent(s, 6008),
    ensures
        (exists|i: int| 0 <= i < s.len() && (#[trigger] s[i]).0 == 6210) ==> says(
            with_contract(s, con_id),
            6008,
            int_text(con_id as int),
        ),
        forall|i: int|
            0 <= i < with_contract(s, con_id).len() && (#[trigger] with_contract(s, con_id)[i]).0
                == 6008 ==> with_contract(s, con_id)[i].1 == int_text(con_id as int),
    decreases s.len(),
{
    let t = with_contract(s, con_id);
    let v = int_text(con_id as int);
    if s.len() > 0 {
        let init = s.drop_last();
        let before = with_contract(init, con_id);
        assert forall|i: int| 0 <= i < init.len() implies (#[trigger] init[i]).0 != 6008 by {
            assert(s[i].0 != 6008);
        }
        lemma_contract_said(init, con_id);
        assert(s[s.len() - 1].0 != 6008);
        assert forall|i: int| 0 <= i < t.len() && (#[trigger] t[i]).0 == 6008 implies t[i].1
            == v by {
            if i < before.len() {
                assert(before[i] == t[i]);
            }
        }
        if exists|i: int| 0 <= i < s.len() && (#[trigger] s[i]).0 == 6210 {
            if s.last().0 == 6210 {
                assert(t[before.len() as int + 1] == (6008u32, v));
            } else {
                let i = choose|i: int| 0 <= i < s.len() && (#[trigger] s[i]).0 == 6210;
                assert(init[i].0 == 6210);
                let j = choose|j: int| 0 <= j < before.len() && #[trigger] before[j] == (6008u32, v);
                assert(t[j] == (6008u32, v));
            }
        }
    }
}

// ---------------------------------------------------------------------------------------
// Order types
// ---------------------------------------------------------------------------------------

/// What a message says of an order's type: its code, and each of its prices under the tag of
/// that price. An order type without a limit says no limit, one without a stop no stop.
pub open spec fn says_kind(m: FieldSeq, kind: OrderKind) -> bool {
    match kind {
        OrderKind::Market => says(m, 40, "1"@) && silent(m, 44) && silent(m, 99),
        OrderKind::Limit { price } => says(m, 40, "2"@) && says(m, 44, price_text(price as int))
            && silent(m, 99),
        OrderKind::Stop { stop_price } => says(m, 40, "3"@) && silent(m, 44) && says(
            m,
            99,
            price_text(stop_price as int),
        ),
        OrderKind::StopLimit { price, stop_price } => says(m, 40, "4"@) && says(
            m,
            44,
            price_text(price as int),
        ) && says(m, 99, price_text(stop_price as int)),
        OrderKind::TrailingStop { trail_amt, trail_stop_price } => says(m, 40, "P"@) && says(
            m,
            99,
            price_text(trail_amt as int),
        ) && says(m, 211, price_text(trail_amt as int)) && says(m, 18, "a"@) && says_if(
            m,
            trail_stop_price > 0,
            6117,
            price_text(trail_stop_price as int),
        ) && silent(m, 44),
        OrderKind::TrailingStopLimit { lmt_offset, trail_amt, trail_stop_price } => says(
            m,
            40,
            "TSL"@,
        ) && says(m, 99, price_text(trail_amt as int)) && says(m, 211, price_text(trail_amt as int))
            && says(m, 6370, price_text(lmt_offset as int)) && says_if(
            m,
            trail_stop_price > 0,
            6117,
            price_text(trail_stop_price as int),
        ) && silent(m, 44),
        OrderKind::TrailPct { trail_pct, trail_stop_price } => says(m, 40, "P"@) && says(
            m,
            99,
            percent_text(trail_pct),
        ) && says(m, 211, percent_text(trail_pct)) && says(m, 18, "a"@) && says(m, 6268, "100"@)
            && says_if(
            m,
            trail_stop_price > 0,
            6117,
            price_text(trail_stop_price as int),
        ) && silent(m, 44),
        OrderKind::Moc => says(m, 40, "5"@) && silent(m, 44) && silent(m, 99),
        OrderKind::Loc { price } => says(m, 40, "B"@) && says(m, 44, price_text(price as int))
            && silent(m, 99),
        OrderKind::Mit { stop_price } => says(m, 40, "J"@) && silent(m, 44) && says(
            m,
            99,
            price_text(stop_price as int),
        ),
        OrderKind::Lit { price, stop_price } => says(m, 40, "LT"@) && says(
            m,
            44,
            price_text(price as int),
        ) && says(m, 99, price_text(stop_price as int)),
        OrderKind::Mtl => says(m, 40, "K"@) && silent(m, 44) && silent(m, 99),
        OrderKind::MktPrt => says(m, 40, "U"@) && silent(m, 44) && silent(m, 99),
        OrderKind::StpPrt { stop_price } => says(m, 40, "SP"@) && silent(m, 44) && says(
            m,
            99,
            price_text(stop_price as int),
        ),
        OrderKind::MidPrice { price_cap } => says(m, 40, "MIDPX"@) && says_if(
            m,
            price_cap > 0,
            44,
            price_text(price_cap as int),
        ) && silent(m, 99),
        OrderKind::SnapMkt => says(m, 40, "SMKT"@) && silent(m, 44) && silent(m, 99),
        OrderKind::SnapMid => says(m, 40, "SMID"@) && silent(m, 44) && silent(m, 99),
        OrderKind::SnapPri => says(m, 40, "SREL"@) && silent(m, 44) && silent(m, 99),
        OrderKind::PegMkt { offset } => says(m, 40, "E"@) && says_if(
            m,
            offset > 0,
            211,
            price_text(offset as int),
        ) && silent(m, 8403) && silent(m, 8404) && silent(m, 44) && silent(m, 99),
        OrderKind::PegMid { offset } => says(m, 40, "E"@) && says_if(
            m,
            offset > 0,
            211,
            price_text(offset as int),
        ) && says(m, 8403, "0.0"@) && says(m, 8404, "0.0"@) && silent(m, 44) && silent(m, 99),
        OrderKind::Rel { offset } => says(m, 40, "P"@) && says(m, 211, price_text(offset as int))
            && says(m, 18, "R"@) && silent(m, 44) && silent(m, 99),
        OrderKind::AdjustableStop {
            stop_price,
            trigger_price,
            adjusted_order_type,
            adjusted_stop_price,
            adjusted_stop_limit_price,
            adjusted_trailing_amount,
            adjustable_trailing_unit,
        } => {
            let trails = adjusted_order_type == AdjustedOrderType::Trail || adjusted_order_type
                == AdjustedOrderType::TrailLimit;
            &&& says(m, 40, "3"@)
            &&& silent(m, 44)
            &&& says(m, 99, price_text(stop_price as int))
            &&& says(m, 6257, "1"@)
            &&& adjusted_order_type == AdjustedOrderType::Stop ==> says(m, 6261, "3"@)
            &&& adjusted_order_type == AdjustedOrderType::StopLimit ==> says(m, 6261, "4"@)
            &&& adjusted_order_type == AdjustedOrderType::Trail ==> says(m, 6261, "T"@)
            &&& adjusted_order_type == AdjustedOrderType::TrailLimit ==> says(m, 6261, "TL"@)
            &&& says(m, 6258, price_text(trigger_price as int))
            &&& says(m, 6259, price_text(adjusted_stop_price as int))
            &&& says_if(
                m,
                adjusted_stop_limit_price > 0,
                6262,
                price_text(adjusted_stop_limit_price as int),
            )
            &&& says_if(m, trails, 6260, price_text(adjusted_trailing_amount as int))
            &&& says_if(m, trails, 6269, int_text(adjustable_trailing_unit as int))
        },
    }
}

/// Whether an order is tracked as one of a type: with its prices, as far as they are kept.
pub open spec fn tracks_kind(o: Order, kind: OrderKind) -> bool {
    match kind {
        OrderKind::Limit { price } => o.price == price && o.stop_price == 0,
        OrderKind::Loc { price } => o.price == price && o.stop_price == 0,
        OrderKind::Stop { stop_price } => o.stop_price == stop_price,
        OrderKind::Mit { stop_price } => o.stop_price == stop_price,
        OrderKind::StpPrt { stop_price } => o.stop_price == stop_price,
        OrderKind::AdjustableStop { stop_price, .. } => o.stop_price == stop_price,
        OrderKind::StopLimit { price, stop_price } => o.price == price && o.stop_price
            == stop_price,
        OrderKind::Lit { price, stop_price } => o.price == price && o.stop_price == stop_price,
        OrderKind::MidPrice { price_cap } => o.price == price_cap && o.stop_price == 0,
        OrderKind::PegMkt { offset } => o.price == 0 && o.stop_price == offset,
        OrderKind::PegMid { offset } => o.price == 0 && o.stop_price == offset,
        OrderKind::Rel { offset } => o.price == 0 && o.stop_price == offset,
        OrderKind::TrailingStopLimit { lmt_offset, .. } => o.price == lmt_offset && o.stop_price
            == 0,
        _ => o.price == 0 && o.stop_price == 0,
    }
}

/// Whether a tag says something of an order's type.
pub open spec fn is_kind_tag(tag: u32) -> bool {
    tag == 40 || tag == 44 || tag == 99 || tag == 211 || tag == 6117 || tag == 6370 || tag == 6268
        || tag == 8403 || tag == 8404 || tag == 6257 || tag == 6258 || tag == 6259 || tag == 6260
        || tag == 6261 || tag == 6262 || tag == 6269
}

/// Whether all fields of a list say something of an order's type, or give its instruction.
pub open spec fn only_kind_tags(s: FieldSeq) -> bool {
    forall|i: int| 0 <= i < s.len() ==> is_kind_tag((#[trigger] s[i]).0) || s[i].0 == 18
}

pub(crate) proof fn lemma_limit_loc_fields(kind: OrderKind)
    requires
        kind is Limit || kind is Loc,
    ensures
        says_kind(kind_fields(kind) + kind_tail(kind), kind),
        only_kind_tags(kind_fields(kind) + kind_tail(kind)),
        !takes_exec_inst(kind) ==> silent(kind_fields(kind) + kind_tail(kind), 18),
{
    reveal(kind_fields);
    reveal(kind_tail);
    let s = kind_fields(kind);
    assert(s + kind_tail(kind) =~= s);
    match kind {
        OrderKind::Limit { price } => {
            assert(s[0].0 == 40);
            assert(s[1] == (44u32, price_text(price as int)));
            assert(s.len() == 2);
        },
        OrderKind::Loc { price } => {
            assert(s[0].0 == 40);
            assert(s[1] == (44u32, price_text(price as int)));
            assert(s.len() == 2);
        },
        _ => {},
    }
}

pub(crate) proof fn lemma_stop_mit_stpprt_fields(kind: OrderKind)
    requires
        kind is Stop || kind is Mit || kind is StpPrt,
    ensures
        says_kind(kind_fields(kind) + kind_tail(kind), kind),
        only_kind_tags(kind_fields(kind) + kind_tail(kind)),
        !takes_exec_inst(kind) ==> silent(kind_fields(kind) + kind_tail(kind), 18),
{
    reveal(kind_fields);
    reveal(kind_tail);
    let s = kind_fields(kind);
    assert(s + kind_tail(kind) =~= s);
    match kind {
        OrderKind::Stop { stop_price } => {
            assert(s[0].0 == 40);
            assert(s[1] == (99u32, price_text(stop_price as int)));
            assert(s.len() == 2);
        },
        OrderKind::Mit { stop_price } => {
            assert(s[0].0 == 40);
            assert(s[1] == (99u32, price_text(stop_price as int)));
            assert(s.len() == 2);
        },
        OrderKind::StpPrt { stop_price } => {
            assert(s[0].0 == 40);
            assert(s[1] == (99u32, price_text(stop_price as int)));
            assert(s.len() == 2);
        },
        _ => {},
    }
}

pub(crate) proof fn lemma_stoplimit_lit_fields(kind: OrderKind)
    requires
        kind is StopLimit || kind is Lit,
    ensures
        says_kind(kind_fields(kind) + kind_tail(kind), kind),
        only_kind_tags(kind_fields(kind) + kind_tail(kind)),
        !takes_exec_inst(kind) ==> silent(kind_fields(kind) + kind_tail(kind), 18),
{
    reveal(kind_fields);
    reveal(kind_tail);
    let s = kind_fields(kind);
    assert(s + kind_tail(kind) =~= s);
    match kind {
        OrderKind::StopLimit { price, stop_price } => {
            assert(s[0].0 == 40);
            assert(s[1] == (44u32, price_text(price as int)));
            assert(s[2] == (99u32, price_text(stop_price as int)));
            assert(s.len() == 3);
        },
        OrderKind::Lit { price, stop_price } => {
            assert(s[0].0 == 40);
            assert(s[1] == (44u32, price_text(price as int)));
            assert(s[2] == (99u32, price_text(stop_price as int)));
            assert(s.len() == 3);
        },
        _ => {},
    }
}

pub(crate) proof fn lemma_trailingstop_fields(kind: OrderKind)
    requires
        kind is TrailingStop,
    ensures
        says_kind(kind_fields(kind) + kind_tail(kind), kind),
        only_kind_tags(kind_fields(kind) + kind_tail(kind)),
        !takes_exec_inst(kind) ==> silent(kind_fields(kind) + kind_tail(kind), 18),
{
    reveal(kind_fields);
    reveal(kind_tail);
    let s = kind_fields(kind);
    assert(s + kind_tail(kind) =~= s);
    match kind {
        OrderKind::TrailingStop { trail_amt, trail_stop_price } => {
            assert(s[0].0 == 40);
            assert(s[1] == (99u32, price_text(trail_amt as int)));
            assert(s[2] == (211u32, price_text(trail_amt as int)));
            assert(s[3] == (18u32, "a"@));
            if trail_stop_price > 0 {
                assert(s[4] == (6117u32, price_text(trail_stop_price as int)));
                assert(s.len() == 5);
            } else {
                assert(s.len() == 4);
            }
        },
        _ => {},
    }
}

pub(crate) proof fn lemma_trailingstoplimit_fields(kind: OrderKind)
    requires
        kind is TrailingStopLimit,
    ensures
        says_kind(kind_fields(kind) + kind_tail(kind), kind),
        only_kind_tags(kind_fields(kind) + kind_tail(kind)),
        !takes_exec_inst(kind) ==> silent(kind_fields(kind) + kind_tail(kind), 18),
{
    reveal(kind_fields);
    reveal(kind_tail);
    let s = kind_fields(kind);
    assert(s + kind_tail(kind) =~= s);
    match kind {
        OrderKind::TrailingStopLimit { lmt_offset, trail_amt, trail_stop_price } => {
            assert(s[0].0 == 40);
            assert(s[1] == (99u32, price_text(trail_amt as int)));
            assert(s[2] == (6370u32, price_text(lmt_offset as int)));
            assert(s[3] == (211u32, price_text(trail_amt as int)));
            if trail_stop_price > 0 {
                assert(s[4] == (6117u32, price_text(trail_stop_price as int)));
                assert(s.len() == 5);
            } else {
                assert(s.len() == 4);
            }
        },
        _ => {},
    }
}

pub(crate) proof fn lemma_trailpct_fields(kind: OrderKind)
    requires
        kind is TrailPct,
    ensures
        says_kind(kind_fields(kind) + kind_tail(kind), kind),
        only_kind_tags(kind_fields(kind) + kind_tail(kind)),
        !takes_exec_inst(kind) ==> silent(kind_fields(kind) + kind_tail(kind), 18),
{
    reveal(kind_fields);
    reveal(kind_tail);
    let s = kind_fields(kind);
    assert(s + kind_tail(kind) =~= s);
    match kind {
        OrderKind::TrailPct { trail_pct, trail_stop_price } => {
            assert(s[0].0 == 40);
            assert(s[1] == (99u32, percent_text(trail_pct)));
            assert(s[2] == (211u32, percent_text(trail_pct)));
            assert(s[3] == (18u32, "a"@));
            assert(s[4] == (6268u32, "100"@));
            if trail_stop_price > 0 {
                assert(s[5] == (6117u32, price_text(trail_stop_price as int)));
                assert(s.len() == 6);
            } else {
                assert(s.len() == 5);
            }
        },
        _ => {},
    }
}

pub(crate) proof fn lemma_midprice_pegmkt_fields(kind: OrderKind)
    requires
        kind is MidPrice || kind is PegMkt,
    ensures
        says_kind(kind_fields(kind) + kind_tail(kind), kind),
        only_kind_tags(kind_fields(kind) + kind_tail(kind)),
        !takes_exec_inst(kind) ==> silent(kind_fields(kind) + kind_tail(kind), 18),
{
    reveal(kind_fields);
    reveal(kind_tail);
    let s = kind_fields(kind);
    assert(s + kind_tail(kind) =~= s);
    match kind {
        OrderKind::MidPrice { price_cap } => {
            assert(s[0].0 == 40);
            if price_cap > 0 {
                assert(s[1] == (44u32, price_text(price_cap as int)));
                assert(s.len() == 2);
            } else {
                assert(s.len() == 1);
            }
        },
        OrderKind::PegMkt { offset } => {
            assert(s[0].0 == 40);
            if offset > 0 {
                assert(s[1] == (211u32, price_text(offset as int)));
                assert(s.len() == 2);
            } else {
                assert(s.len() == 1);
            }
        },
        _ => {},
    }
}

pub(crate) proof fn lemma_pegmid_rel_fields(kind: OrderKind)
    requires
        kind is PegMid || kind is Rel,
    ensures
        says_kind(kind_fields(kind) + kind_tail(kind), kind),
        only_kind_tags(kind_fields(kind) + kind_tail(kind)),
        !takes_exec_inst(kind) ==> silent(kind_fields(kind) + kind_tail(kind), 18),
{
    reveal(kind_fields);
    reveal(kind_tail);
    let s = kind_fields(kind);
    assert(s + kind_tail(kind) =~= s);
    match kind {
        OrderKind::PegMid { offset } => {
            assert(s[0].0 == 40);
            assert(s[1] == (8403u32, "0.0"@));
            assert(s[2] == (8404u32, "0.0"@));
            if offset > 0 {
                assert(s[3] == (211u32, price_text(offset as int)));
                assert(s.len() == 4);
            } else {
                assert(s.len() == 3);
            }
        },
        OrderKind::Rel { offset } => {
            assert(s[0].0 == 40);
            assert(s[1] == (211u32, price_text(offset as int)));
            assert(s[2] == (18u32, "R"@));
            assert(s.len() == 3);
        },
        _ => {},
    }
}

pub(crate) proof fn lemma_unpriced_fields(kind: OrderKind)
    requires
        kind is Market || kind is Moc || kind is Mtl || kind is MktPrt || kind is SnapMkt || kind is SnapMid
            || kind is SnapPri,
    ensures
        says_kind(kind_fields(kind) + kind_tail(kind), kind),
        only_kind_tags(kind_fields(kind) + kind_tail(kind)),
        !takes_exec_inst(kind) ==> silent(kind_fields(kind) + kind_tail(kind), 18),
{
    reveal(kind_fields);
    reveal(kind_tail);
    let s = kind_fields(kind);
    assert(s + kind_tail(kind) =~= s);
    assert(s[0].0 == 40);
    assert(s.len() == 1);
}

pub(crate) proof fn lemma_adjustable_kind(kind: OrderKind)
    requires
        kind is AdjustableStop,
    ensures
        says_kind(kind_fields(kind) + kind_tail(kind), kind),
        only_kind_tags(kind_fields(kind) + kind_tail(kind)),
        !takes_exec_inst(kind) ==> silent(kind_fields(kind) + kind_tail(kind), 18),
{
    reveal(kind_fields);
    reveal(kind_tail);
    let f = kind_fields(kind);
    let t = kind_tail(kind);
    match kind {
        OrderKind::AdjustableStop {
            stop_price,
            trigger_price,
            adjusted_order_type,
            adjusted_stop_price,
            adjusted_stop_limit_price,
            adjusted_trailing_amount,
            adjustable_trailing_unit,
        } => {
            lemma_adjustable_fields(
                trigger_price,
                adjusted_order_type,
                adjusted_stop_price,
                adjusted_stop_limit_price,
                adjusted_trailing_amount,
                adjustable_trailing_unit,
            );
            assert(f[0] == (40u32, "3"@));
            assert(f[1] == (99u32, price_text(stop_price as int)));
            assert(f.len() == 2);
            assert(says(f, 40, "3"@));
            assert(says(f, 99, price_text(stop_price as int)));
            lemma_says_concat(f, t, 40);
            lemma_says_concat(f, t, 44);
            lemma_says_concat(f, t, 99);
            lemma_says_concat(f, t, 18);
            lemma_says_concat(f, t, 6257);
            lemma_says_concat(f, t, 6258);
            lemma_says_concat(f, t, 6259);
            lemma_says_concat(f, t, 6260);
            lemma_says_concat(f, t, 6261);
            lemma_says_concat(f, t, 6262);
            lemma_says_concat(f, t, 6269);
            let s = f + t;
            assert forall|i: int| 0 <= i < s.len() implies is_kind_tag((#[trigger] s[i]).0) by {
                if i >= 2 {
                    assert(s[i] == t[i - 2]);
                }
            }
        },
        _ => {},
    }
}

/// The fields of an order type say that type, and no other.
pub(crate) proof fn lemma_kind_fields(kind: OrderKind)
    ensures
        says_kind(kind_fields(kind) + kind_tail(kind), kind),
        only_kind_tags(kind_fields(kind) + kind_tail(kind)),
        !takes_exec_inst(kind) ==> silent(kind_fields(kind) + kind_tail(kind), 18),
{
    match kind {
        OrderKind::Limit { .. } => {
            lemma_limit_loc_fields(kind);
        },
        OrderKind::Loc { .. } => {
            lemma_limit_loc_fields(kind);
        },
        OrderKind::Stop { .. } => {
            lemma_stop_mit_stpprt_fields(kind);
        },
        OrderKind::Mit { .. } => {
            lemma_stop_mit_stpprt_fields(kind);
        },
        OrderKind::StpPrt { .. } => {
            lemma_stop_mit_stpprt_fields(kind);
        },
        OrderKind::StopLimit { .. } => {
            lemma_stoplimit_lit_fields(kind);
        },
        OrderKind::Lit { .. } => {
            lemma_stoplimit_lit_fields(kind);
        },
        OrderKind::TrailingStop { .. } => {
            lemma_trailingstop_fields(kind);
        },
        OrderKind::TrailingStopLimit { .. } => {
            lemma_trailingstoplimit_fields(kind);
        },
        OrderKind::TrailPct { .. } => {
            lemma_trailpct_fields(kind);
        },
        OrderKind::MidPrice { .. } => {
            lemma_midprice_pegmkt_fields(kind);
        },
        OrderKind::PegMkt { .. } => {
            lemma_midprice_pegmkt_fields(kind);
        },
        OrderKind::PegMid { .. } => {
            lemma_pegmid_rel_fields(kind);
        },
        OrderKind::Rel { .. } => {
            lemma_pegmid_rel_fields(kind);
        },
        OrderKind::AdjustableStop { .. } => {
            lemma_adjustable_kind(kind);
        },
        _ => {
            lemma_unpriced_fields(kind);
        },
    }
}

pub(crate) proof fn lemma_adjustable_fields(
    trigger_price: Price,
    adjusted_order_type: AdjustedOrderType,
    adjusted_stop_price: Price,
    adjusted_stop_limit_price: Price,
    adjusted_trailing_amount: Price,
    adjustable_trailing_unit: i32,
)
    ensures
        ({
            let m = adjustable_fields(
                trigger_price,
                adjusted_order_type,
                adjusted_stop_price,
                adjusted_stop_limit_price,
                adjusted_trailing_amount,
                adjustable_trailing_unit,
            );
            let trails = adjusted_order_type == AdjustedOrderType::Trail || adjusted_order_type
                == AdjustedOrderType::TrailLimit;
            &&& says(m, 6257, "1"@)
            &&& adjusted_order_type == AdjustedOrderType::Stop ==> says(m, 6261, "3"@)
            &&& adjusted_order_type == AdjustedOrderType::StopLimit ==> says(m, 6261, "4"@)
            &&& adjusted_order_type == AdjustedOrderType::Trail ==> says(m, 6261, "T"@)
            &&& adjusted_order_type == AdjustedOrderType::TrailLimit ==> says(m, 6261, "TL"@)
            &&& says(m, 6258, price_text(trigger_price as int))
            &&& says(m, 6259, price_text(adjusted_stop_price as int))
            &&& says_if(
                m,
                adjusted_stop_limit_price > 0,
                6262,
                price_text(adjusted_stop_limit_price as int),
            )
            &&& says_if(m, trails, 6260, price_text(adjusted_trailing_amount as int))
            &&& says_if(m, trails, 6269, int_text(adjustable_trailing_unit as int))
            &&& forall|i: int|
                0 <= i < m.len() ==> 6257 <= (#[trigger] m[i]).0 <= 6262 || m[i].0 == 6269
        }),
{
    let m = adjustable_fields(
        trigger_price,
        adjusted_order_type,
        adjusted_stop_price,
        adjusted_stop_limit_price,
        adjusted_trailing_amount,
        adjustable_trailing_unit,
    );
    let trails = adjusted_order_type == AdjustedOrderType::Trail || adjusted_order_type
        == AdjustedOrderType::TrailLimit;
    assert(m[0] == (6257u32, "1"@));
    assert(m[1].0 == 6261);
    assert(m[2] == (6258u32, price_text(trigger_price as int)));
    assert(m[3] == (6259u32, price_text(adjusted_stop_price as int)));
    let k: int = if adjusted_stop_limit_price > 0 {
        assert(m[4] == (6262u32, price_text(adjusted_stop_limit_price as int)));
        5
    } else {
        4
    };
    if trails {
        assert(m[k] == (6260u32, price_text(adjusted_trailing_amount as int)));
        assert(m[k + 1] == (6269u32, int_text(adjustable_trailing_unit as int)));
    }
}

// ---------------------------------------------------------------------------------------
// The price grid
// ---------------------------------------------------------------------------------------

/// A price on a grid: the asked price when there is no grid, and otherwise a multiple of the
/// grid's step that is as near to the asked price as any; a price so close to the largest that
/// no multiple fits is left as it is.
pub open spec fn is_on_grid(price: Price, asked: Price, tick: Price) -> bool {
    if tick <= 0 {
        price == asked
    } else {
        ||| price as int % tick as int == 0 && 2 * (price - asked) <= tick && 2 * (asked - price)
            <= tick
        ||| price == asked && (asked > i64::MAX - tick || asked < tick - i64::MAX)
    }
}

/// Prices are snapped to the nearest step of the grid, and a price on the grid stays.
pub proof fn law_price_is_snapped_to_the_grid(asked: Price, tick: Price)
    ensures
        is_on_grid(snapped_price(asked, tick), asked, tick),
        tick > 0 && asked as int % tick as int == 0 ==> snapped_price(asked, tick) == asked,
        asked > 0 ==> snapped_price(asked, tick) >= 0,
        asked < 0 ==> snapped_price(asked, tick) <= 0,
{
    if tick > 0 {
        let t = tick as int;
        let a = if asked >= 0 {
            asked as int
        } else {
            -(asked as int)
        };
        let sum = a + t / 2;
        let q = sum / t;
        let m = q * t;
        assert(m <= sum < m + t && m >= 0) by (nonlinear_arith)
            requires
                q == sum / t,
                m == q * t,
                t > 0,
                sum >= 0,
        ;
        vstd::arithmetic::div_mod::lemma_mod_multiples_basic(q, t);
        vstd::arithmetic::div_mod::lemma_mod_multiples_basic(-q, t);
        assert((-q) * t == -m) by (nonlinear_arith)
            requires
                m == q * t,
        ;
        if asked as int % t == 0 {
            let k = asked as int / t;
            assert(asked == k * t) by (nonlinear_arith)
                requires
                    k == asked as int / t,
                    asked as int % t == 0,
                    t > 0,
            ;
            let n = if asked >= 0 {
                k
            } else {
                -k
            };
            assert(a == n * t) by (nonlinear_arith)
                requires
                    asked == k * t,
                    a == (if asked >= 0 {
                        asked as int
                    } else {
                        -(asked as int)
                    }),
                    n == (if asked >= 0 {
                        k
                    } else {
                        -k
                    }),
            ;
            assert(q == n) by (nonlinear_arith)
                requires
                    q == (n * t + t / 2) / t,
                    t > 0,
            ;
        }
    }
}

/// Each price of an order type is snapped by itself; amounts and offsets are no prices, and are
/// left as they are.
pub proof fn law_each_price_of_a_type_is_snapped(kind: OrderKind, tick: Price)
    ensures
        match kind {
            OrderKind::Limit { price } => snapped_kind(kind, tick) == (OrderKind::Limit {
                price: snapped_price(price, tick),
            }),
            OrderKind::Loc { price } => snapped_kind(kind, tick) == (OrderKind::Loc {
                price: snapped_price(price, tick),
            }),
            OrderKind::Stop { stop_price } => snapped_kind(kind, tick) == (OrderKind::Stop {
                stop_price: snapped_price(stop_price, tick),
            }),
            OrderKind::Mit { stop_price } => snapped_kind(kind, tick) == (OrderKind::Mit {
                stop_price: snapped_price(stop_price, tick),
            }),
            OrderKind::StpPrt { stop_price } => snapped_kind(kind, tick) == (OrderKind::StpPrt {
                stop_price: snapped_price(stop_price, tick),
            }),
            OrderKind::StopLimit { price, stop_price } => snapped_kind(kind, tick)
                == (OrderKind::StopLimit {
                price: snapped_price(price, tick),
                stop_price: snapped_price(stop_price, tick),
            }),
            OrderKind::Lit { price, stop_price } => snapped_kind(kind, tick) == (OrderKind::Lit {
                price: snapped_price(price, tick),
                stop_price: snapped_price(stop_price, tick),
            }),
            OrderKind::MidPrice { price_cap } => snapped_kind(kind, tick) == (OrderKind::MidPrice {
                price_cap: snapped_price(price_cap, tick),
            }),
            OrderKind::TrailingStop { trail_amt, trail_stop_price } => snapped_kind(kind, tick)
                == (OrderKind::TrailingStop {
                trail_amt,
                trail_stop_price: snapped_price(trail_stop_price, tick),
            }),
            OrderKind::TrailingStopLimit { lmt_offset, trail_amt, trail_stop_price } => snapped_kind(
                kind,
                tick,
            ) == (OrderKind::TrailingStopLimit {
                lmt_offset,
                trail_amt,
                trail_stop_price: snapped_price(trail_stop_price, tick),
            }),
            OrderKind::TrailPct { trail_pct, trail_stop_price } => snapped_kind(kind, tick)
                == (OrderKind::TrailPct {
                trail_pct,
                trail_stop_price: snapped_price(trail_stop_price, tick),
            }),
            OrderKind::AdjustableStop {
                stop_price,
                trigger_price,
                adjusted_order_type,
                adjusted_stop_price,
                adjusted_stop_limit_price,
                adjusted_trailing_amount,
                adjustable_trailing_unit,
            } => snapped_kind(kind, tick) == (OrderKind::AdjustableStop {
                stop_price: snapped_price(stop_price, tick),
                trigger_price: snapped_price(trigger_price, tick),
                adjusted_order_type,
                adjusted_stop_price: snapped_price(adjusted_stop_price, tick),
                adjusted_stop_limit_price: snapped_price(adjusted_stop_limit_price, tick),
                adjusted_trailing_amount,
                adjustable_trailing_unit,
            }),
            _ => snapped_kind(kind, tick) == kind,
        },
{
}

// ---------------------------------------------------------------------------------------
// Attributes
// ---------------------------------------------------------------------------------------

/// Whether a tag is that of an attribute.
pub open spec fn is_attr_tag(tag: u32) -> bool {
    tag == 111 || tag == 110 || tag == 6433 || tag == 6135 || tag == 168 || tag == 432 || tag == 126
        || tag == 583 || tag == 6209 || tag == 6107 || tag == 9813 || tag == 6102 || tag == 18 || tag
        == 6115 || tag == 5920 || tag == 6128 || tag == 6151 || tag == 6136 || tag == 6222 || tag
        == 6137 || tag == 6126 || tag == 6123 || tag == 6124 || tag == 6127 || tag == 6125 || tag
        == 6223 || tag == 6245 || tag == 6263 || tag == 6246 || tag == 6947
}

/// Whether all fields of a list are attributes.
pub open spec fn only_attr_tags(s: FieldSeq) -> bool {
    forall|i: int| 0 <= i < s.len() ==> is_attr_tag((#[trigger] s[i]).0)
}

pub(crate) proof fn lemma_add_if_append(s: FieldSeq, on: bool, tag: u32, v: Seq<char>, t: FieldSeq)
    ensures
        add_if(s + t, on, tag, v) == s + add_if(t, on, tag, v),
{
    assert(add_if(s + t, on, tag, v) =~= s + add_if(t, on, tag, v));
}

pub(crate) proof fn lemma_display_append(s: FieldSeq, a: OrderAttrs)
    ensures
        with_display_attrs(s, a) == s + with_display_attrs(Seq::empty(), a),
{
    let e = Seq::<(u32, Seq<char>)>::empty();
    assert(s + e =~= s);
    let t1 = add_if(e, a.display_size > 0, 111, dec(a.display_size as nat));
    let t2 = add_if(t1, a.min_qty > 0, 110, dec(a.min_qty as nat));
    let t3 = add_if(t2, a.outside_rth, 6433, "1"@);
    let t4 = add_if(t3, a.hidden, 6135, "1"@);
    let after = crate::calendar::time_text(a.good_after as nat, ' ');
    let t5 = add_if(t4, a.good_after > 0, 168, after);
    lemma_add_if_append(s, a.display_size > 0, 111, dec(a.display_size as nat), e);
    lemma_add_if_append(s, a.min_qty > 0, 110, dec(a.min_qty as nat), t1);
    lemma_add_if_append(s, a.outside_rth, 6433, "1"@, t2);
    lemma_add_if_append(s, a.hidden, 6135, "1"@, t3);
    lemma_add_if_append(s, a.good_after > 0, 168, after, t4);
    assert(with_expiry(s + t5, a) =~= s + with_expiry(t5, a));
}

pub(crate) proof fn lemma_link_append(s: FieldSeq, d: FieldSeq, a: OrderAttrs, base: bool)
    ensures
        with_link_attrs(s + d, a, base) == s + with_link_attrs(d, a, base),
{
    let grouped = oca_name(a).len() > 0;
    let plain = a.all_or_none && !base;
    let parent = dec(a.parent_id as nat) + ".0"@;
    let t1 = add_if(d, grouped, 583, oca_name(a));
    let t2 = add_if(t1, grouped, 6209, oca_type_name(a.oca_type));
    let t3 = add_if(t2, a.parent_id > 0, 6107, parent);
    let t4 = add_if(t3, a.discretionary_amt > 0, 9813, price_text(a.discretionary_amt as int));
    let t5 = add_if(t4, a.sweep_to_fill, 6102, "1"@);
    let t6 = add_if(t5, plain, 18, "G"@);
    let t7 = add_if(t6, a.trigger_method > 0, 6115, dec(a.trigger_method as nat));
    lemma_add_if_append(s, grouped, 583, oca_name(a), d);
    lemma_add_if_append(s, grouped, 6209, oca_type_name(a.oca_type), t1);
    lemma_add_if_append(s, a.parent_id > 0, 6107, parent, t2);
    lemma_add_if_append(
        s,
        a.discretionary_amt > 0,
        9813,
        price_text(a.discretionary_amt as int),
        t3,
    );
    lemma_add_if_append(s, a.sweep_to_fill, 6102, "1"@, t4);
    lemma_add_if_append(s, plain, 18, "G"@, t5);
    lemma_add_if_append(s, a.trigger_method > 0, 6115, dec(a.trigger_method as nat), t6);
    lemma_add_if_append(s, a.cash_qty > 0, 5920, price_text(a.cash_qty as int), t7);
}

/// Attributes are added behind what is there.
pub(crate) proof fn lemma_attrs_append(s: FieldSeq, a: OrderAttrs, base: bool)
    ensures
        with_attrs(s, a, base) == s + with_attrs(Seq::empty(), a, base),
{
    reveal(with_attrs);
    let d = with_display_attrs(Seq::empty(), a);
    let l = with_link_attrs(d, a, base);
    lemma_display_append(s, a);
    lemma_link_append(s, d, a, base);
    assert(with_conditions(s + l, a) =~= s + with_conditions(l, a));
}

pub(crate) proof fn lemma_condition_tags(conds: Seq<OrderCondition>, k: nat)
    requires
        k <= conds.len(),
    ensures
        only_attr_tags(conditions_fields(conds, k)),
        silent(conditions_fields(conds, k), 18),
    decreases k,
{
    if k > 0 {
        lemma_condition_tags(conds, (k - 1) as nat);
        let f = condition_fields(conds[k - 1], k == conds.len());
        assert forall|i: int| 0 <= i < f.len() implies is_attr_tag((#[trigger] f[i]).0) && f[i].0
            != 18 by {
            if i < 11 {
                assert(f[i].0 == condition_tags()[i]);
                if i == 0 {
                } else if i == 1 {
                } else if i == 2 {
                } else if i == 3 {
                } else if i == 4 {
                } else if i == 5 {
                } else if i == 6 {
                } else if i == 7 {
                } else if i == 8 {
                } else if i == 9 {
                }
            }
        }
    }
}

pub(crate) proof fn lemma_attr_added(s: FieldSeq, on: bool, tag: u32, v: Seq<char>)
    requires
        only_attr_tags(s),
        is_attr_tag(tag),
    ensures
        only_attr_tags(add_if(s, on, tag, v)),
        silent(s, 18) && (tag != 18 || !on) ==> silent(add_if(s, on, tag, v), 18),
{
}

pub(crate) proof fn lemma_display_tags(a: OrderAttrs)
    ensures
        only_attr_tags(with_display_attrs(Seq::empty(), a)),
        silent(with_display_attrs(Seq::empty(), a), 18),
{
    let e = Seq::<(u32, Seq<char>)>::empty();
    let t1 = add_if(e, a.display_size > 0, 111, dec(a.display_size as nat));
    let t2 = add_if(t1, a.min_qty > 0, 110, dec(a.min_qty as nat));
    let t3 = add_if(t2, a.outside_rth, 6433, "1"@);
    let t4 = add_if(t3, a.hidden, 6135, "1"@);
    let after = crate::calendar::time_text(a.good_after as nat, ' ');
    let t5 = add_if(t4, a.good_after > 0, 168, after);
    lemma_attr_added(e, a.display_size > 0, 111, dec(a.display_size as nat));
    lemma_attr_added(t1, a.min_qty > 0, 110, dec(a.min_qty as nat));
    lemma_attr_added(t2, a.outside_rth, 6433, "1"@);
    lemma_attr_added(t3, a.hidden, 6135, "1"@);
    lemma_attr_added(t4, a.good_after > 0, 168, after);
    assert(only_attr_tags(with_expiry(t5, a)) && silent(with_expiry(t5, a), 18));
}

pub(crate) proof fn lemma_link_tags(d: FieldSeq, a: OrderAttrs, base: bool)
    requires
        only_attr_tags(d),
        silent(d, 18),
    ensures
        only_attr_tags(with_link_attrs(d, a, base)),
        base ==> silent(with_link_attrs(d, a, base), 18),
{
    let grouped = oca_name(a).len() > 0;
    let plain = a.all_or_none && !base;
    let parent = dec(a.parent_id as nat) + ".0"@;
    let t1 = add_if(d, grouped, 583, oca_name(a));
    let t2 = add_if(t1, grouped, 6209, oca_type_name(a.oca_type));
    let t3 = add_if(t2, a.parent_id > 0, 6107, parent);
    let t4 = add_if(t3, a.discretionary_amt > 0, 9813, price_text(a.discretionary_amt as int));
    let t5 = add_if(t4, a.sweep_to_fill, 6102, "1"@);
    let t6 = add_if(t5, plain, 18, "G"@);
    let t7 = add_if(t6, a.trigger_method > 0, 6115, dec(a.trigger_method as nat));
    lemma_attr_added(d, grouped, 583, oca_name(a));
    lemma_attr_added(t1, grouped, 6209, oca_type_name(a.oca_type));
    lemma_attr_added(t2, a.parent_id > 0, 6107, parent);
    lemma_attr_added(t3, a.discretionary_amt > 0, 9813, price_text(a.discretionary_amt as int));
    lemma_attr_added(t4, a.sweep_to_fill, 6102, "1"@);
    lemma_attr_added(t5, plain, 18, "G"@);
    lemma_attr_added(t6, a.trigger_method > 0, 6115, dec(a.trigger_method as nat));
    lemma_attr_added(t7, a.cash_qty > 0, 5920, price_text(a.cash_qty as int));
}

pub(crate) proof fn lemma_attr_tags(a: OrderAttrs, base: bool)
    ensures
        only_attr_tags(with_attrs(Seq::empty(), a, base)),
        base ==> silent(with_attrs(Seq::empty(), a, base), 18),
{
    reveal(with_attrs);
    let d = with_display_attrs(Seq::empty(), a);
    let l = with_link_attrs(d, a, base);
    lemma_display_tags(a);
    lemma_link_tags(d, a, base);
    lemma_condition_tags(a.conditions@, a.conditions@.len());
    let r = with_conditions(l, a);
    assert(only_attr_tags(r) && (base ==> silent(r, 18)));
}

// ---------------------------------------------------------------------------------------
// Single orders
// ---------------------------------------------------------------------------------------

/// What a request for one order asks for, with its prices on the grid.
pub ghost struct Asked {
    pub order_id: OrderId,
    pub instrument: InstrumentId,
    pub side: Side,
    pub qty: u32,
    pub kind: OrderKind,
    pub tif: u8,
}

/// What a request for one order asks for. The times in force are those of the exchange: 0 for
/// the day, 1 until cancelled, 2 at the opening, 3 immediately, 4 all or nothing, 8 in the
/// auction.
pub open spec fn asked_by(req: OrderRequest, tick: Price) -> Option<Asked> {
    match req {
        OrderRequest::SubmitLimit { order_id, instrument, side, qty, price } => Some(
            Asked { order_id, instrument, side, qty, kind: OrderKind::Limit { price: snapped_price(price, tick) }, tif: 48 },
        ),
        OrderRequest::SubmitLimitGtc { order_id, instrument, side, qty, price, .. } => Some(
            Asked { order_id, instrument, side, qty, kind: OrderKind::Limit { price: snapped_price(price, tick) }, tif: 49 },
        ),
        OrderRequest::SubmitLimitIoc { order_id, instrument, side, qty, price } => Some(
            Asked { order_id, instrument, side, qty, kind: OrderKind::Limit { price: snapped_price(price, tick) }, tif: 51 },
        ),
        OrderRequest::SubmitLimitFok { order_id, instrument, side, qty, price } => Some(
            Asked { order_id, instrument, side, qty, kind: OrderKind::Limit { price: snapped_price(price, tick) }, tif: 52 },
        ),
        OrderRequest::SubmitLimitOpg { order_id, instrument, side, qty, price } => Some(
            Asked { order_id, instrument, side, qty, kind: OrderKind::Limit { price: snapped_price(price, tick) }, tif: 50 },
        ),
        OrderRequest::SubmitLimitAuc { order_id, instrument, side, qty, price } => Some(
            Asked { order_id, instrument, side, qty, kind: OrderKind::Limit { price: snapped_price(price, tick) }, tif: 56 },
        ),
        OrderRequest::SubmitLoc { order_id, instrument, side, qty, price } => Some(
            Asked { order_id, instrument, side, qty, kind: OrderKind::Loc { price: snapped_price(price, tick) }, tif: 48 },
        ),
        OrderRequest::SubmitStop { order_id, instrument, side, qty, stop_price } => Some(
            Asked { order_id, instrument, side, qty, kind: OrderKind::Stop { stop_price: snapped_price(stop_price, tick) }, tif: 48 },
        ),
        OrderRequest::SubmitStopGtc { order_id, instrument, side, qty, stop_price, .. } => Some(
            Asked { order_id, instrument, side, qty, kind: OrderKind::Stop { stop_price: snapped_price(stop_price, tick) }, tif: 49 },
        ),
        OrderRequest::SubmitStopLimit { order_id, instrument, side, qty, price, stop_price } => Some(
            Asked { order_id, instrument, side, qty, kind: OrderKind::StopLimit { price: snapped_price(price, tick), stop_price: snapped_price(stop_price, tick) }, tif: 48 },
        ),
        OrderRequest::SubmitStopLimitGtc { order_id, instrument, side, qty, price, stop_price, .. } => Some(
            Asked { order_id, instrument, side, qty, kind: OrderKind::StopLimit { price: snapped_price(price, tick), stop_price: snapped_price(stop_price, tick) }, tif: 49 },
        ),
        OrderRequest::SubmitMit { order_id, instrument, side, qty, stop_price } => Some(
            Asked { order_id, instrument, side, qty, kind: OrderKind::Mit { stop_price: snapped_price(stop_price, tick) }, tif: 48 },
        ),
        OrderRequest::SubmitLit { order_id, instrument, side, qty, price, stop_price } => Some(
            Asked { order_id, instrument, side, qty, kind: OrderKind::Lit { price: snapped_price(price, tick), stop_price: snapped_price(stop_price, tick) }, tif: 48 },
        ),
        OrderRequest::SubmitStpPrt { order_id, instrument, side, qty, stop_price } => Some(
            Asked { order_id, instrument, side, qty, kind: OrderKind::StpPrt { stop_price: snapped_price(stop_price, tick) }, tif: 48 },
        ),
        OrderRequest::SubmitMarket { order_id, instrument, side, qty } => Some(
            Asked { order_id, instrument, side, qty, kind: OrderKind::Market, tif: 48 },
        ),
        OrderRequest::SubmitMoc { order_id, instrument, side, qty } => Some(
            Asked { order_id, instrument, side, qty, kind: OrderKind::Moc, tif: 48 },
        ),
        OrderRequest::SubmitMtl { order_id, instrument, side, qty } => Some(
            Asked { order_id, instrument, side, qty, kind: OrderKind::Mtl, tif: 48 },
        ),
        OrderRequest::SubmitMtlAuc { order_id, instrument, side, qty } => Some(
            Asked { order_id, instrument, side, qty, kind: OrderKind::Mtl, tif: 56 },
        ),
        OrderRequest::SubmitMktPrt { order_id, instrument, side, qty } => Some(
            Asked { order_id, instrument, side, qty, kind: OrderKind::MktPrt, tif: 48 },
        ),
        OrderRequest::SubmitSnapMkt { order_id, instrument, side, qty } => Some(
            Asked { order_id, instrument, side, qty, kind: OrderKind::SnapMkt, tif: 48 },
        ),
        OrderRequest::SubmitSnapMid { order_id, instrument, side, qty } => Some(
            Asked { order_id, instrument, side, qty, kind: OrderKind::SnapMid, tif: 48 },
        ),
        OrderRequest::SubmitSnapPri { order_id, instrument, side, qty } => Some(
            Asked { order_id, instrument, side, qty, kind: OrderKind::SnapPri, tif: 48 },
        ),
        OrderRequest::SubmitRel { order_id, instrument, side, qty, offset } => Some(
            Asked { order_id, instrument, side, qty, kind: OrderKind::Rel { offset }, tif: 48 },
        ),
        OrderRequest::SubmitTrailingStop { order_id, instrument, side, qty, trail_amt, trail_stop_price } => Some(
            Asked { order_id, instrument, side, qty, kind: OrderKind::TrailingStop { trail_amt, trail_stop_price: snapped_price(trail_stop_price, tick) }, tif: 48 },
        ),
        OrderRequest::SubmitTrailingStopLimit { order_id, instrument, side, qty, lmt_offset, trail_amt, trail_stop_price } => Some(
            Asked { order_id, instrument, side, qty, kind: OrderKind::TrailingStopLimit { lmt_offset, trail_amt, trail_stop_price: snapped_price(trail_stop_price, tick) }, tif: 48 },
        ),
        OrderRequest::SubmitTrailingStopPct { order_id, instrument, side, qty, trail_pct, trail_stop_price } => Some(
            Asked { order_id, instrument, side, qty, kind: OrderKind::TrailPct { trail_pct, trail_stop_price: snapped_price(trail_stop_price, tick) }, tif: 48 },
        ),
        OrderRequest::SubmitMidPrice { order_id, instrument, side, qty, price_cap } => Some(
            Asked { order_id, instrument, side, qty, kind: OrderKind::MidPrice { price_cap: snapped_price(price_cap, tick) }, tif: 48 },
        ),
        OrderRequest::SubmitPegMkt { order_id, instrument, side, qty, offset } => Some(
            Asked { order_id, instrument, side, qty, kind: OrderKind::PegMkt { offset }, tif: 48 },
        ),
        OrderRequest::SubmitPegMid { order_id, instrument, side, qty, offset } => Some(
            Asked { order_id, instrument, side, qty, kind: OrderKind::PegMid { offset }, tif: 48 },
        ),
        OrderRequest::SubmitLimitEx { order_id, instrument, side, qty, price, tif, .. } => Some(
            Asked { order_id, instrument, side, qty, kind: OrderKind::Limit { price: snapped_price(price, tick) }, tif: tif },
        ),
        OrderRequest::SubmitEx { order_id, instrument, side, qty, kind, tif, .. } => Some(
            Asked { order_id, instrument, side, qty, kind: snapped_kind(kind, tick), tif: tif },
        ),
        OrderRequest::SubmitTrailingStopPctEx { order_id, instrument, side, qty, trail_pct, trail_stop_price, tif, .. } => Some(
            Asked { order_id, instrument, side, qty, kind: OrderKind::TrailPct { trail_pct, trail_stop_price: snapped_price(trail_stop_price, tick) }, tif: tif },
        ),
        OrderRequest::SubmitAdjustableStop { order_id, instrument, side, qty, stop_price, trigger_price, adjusted_order_type, adjusted_stop_price, adjusted_stop_limit_price, adjusted_trailing_amount, adjustable_trailing_unit } => Some(
            Asked { order_id, instrument, side, qty, kind: OrderKind::AdjustableStop { stop_price: snapped_price(stop_price, tick), trigger_price: snapped_price(trigger_price, tick), adjusted_order_type, adjusted_stop_price: snapped_price(adjusted_stop_price, tick), adjusted_stop_limit_price: snapped_price(adjusted_stop_limit_price, tick), adjusted_trailing_amount, adjustable_trailing_unit }, tif: 48 },
        ),
        _ => None,
    }
}

/// Whether an order is tracked as it was asked for: new, with nothing filled.
pub open spec fn tracks(o: Order, a: Asked) -> bool {
    &&& o.order_id == a.order_id
    &&& o.instrument == a.instrument
    &&& o.side == a.side
    &&& o.qty_fixed == a.qty * 10_000
    &&& o.filled_fixed == 0
    &&& o.status == OrderStatus::PendingSubmit
    &&& o.tif == a.tif
    &&& tracks_kind(o, a.kind)
}

/// The character of a time in force.
pub open spec fn tif_char(tif: u8) -> char {
    if tif < 128 {
        tif as char
    } else {
        '0'
    }
}

/// Whether orders of a type go to an exchange of their own.
pub open spec fn goes_alone(kind: OrderKind) -> bool {
    match kind {
        OrderKind::MidPrice { .. } => true,
        OrderKind::SnapMkt => true,
        OrderKind::SnapMid => true,
        OrderKind::SnapPri => true,
        OrderKind::PegMkt { .. } => true,
        OrderKind::PegMid { .. } => true,
        _ => false,
    }
}

/// Fields that say nothing of the type leave what the others say of it.
pub(crate) proof fn lemma_kind_plus(kind: OrderKind, extra: FieldSeq)
    requires
        forall|i: int| 0 <= i < extra.len() ==> !is_kind_tag((#[trigger] extra[i]).0),
        takes_exec_inst(kind) ==> silent(extra, 18),
    ensures
        says_kind(kind_fields(kind) + kind_tail(kind) + extra, kind),
{
    let own = kind_fields(kind) + kind_tail(kind);
    lemma_kind_fields(kind);
    lemma_says_concat(own, extra, 40);
    lemma_says_concat(own, extra, 44);
    lemma_says_concat(own, extra, 99);
    lemma_says_concat(own, extra, 211);
    lemma_says_concat(own, extra, 18);
    lemma_says_concat(own, extra, 6117);
    lemma_says_concat(own, extra, 6370);
    lemma_says_concat(own, extra, 6268);
    lemma_says_concat(own, extra, 8403);
    lemma_says_concat(own, extra, 8404);
    lemma_says_concat(own, extra, 6257);
    lemma_says_concat(own, extra, 6258);
    lemma_says_concat(own, extra, 6259);
    lemma_says_concat(own, extra, 6260);
    lemma_says_concat(own, extra, 6261);
    lemma_says_concat(own, extra, 6262);
    lemma_says_concat(own, extra, 6269);
}

/// A message that says all that a list of fields says, says the same of the type.
pub(crate) proof fn lemma_kind_carries(own: FieldSeq, msg: FieldSeq, kind: OrderKind)
    requires
        says_kind(own, kind),
        forall|tag: u32|
            #![trigger silent(own, tag)]
            !is_common_tag(tag) && silent(own, tag) ==> silent(msg, tag),
        forall|tag: u32, v: Seq<char>|
            #![trigger says(own, tag, v)]
            !is_common_tag(tag) && says(own, tag, v) ==> says(msg, tag, v),
    ensures
        says_kind(msg, kind),
{
}

/// What an order's own fields say of its type, its message says.
pub(crate) proof fn lemma_message_kind(
    m: MarketView,
    account: Seq<char>,
    now: Seq<char>,
    p: PlanView,
    kind: OrderKind,
)
    requires
        says_kind(p.kind + p.tail, kind),
    ensures
        says_kind(order_message(m, account, now, p), kind),
{
    let own = p.kind + p.tail;
    let msg = order_message(m, account, now, p);
    lemma_message_carries(m, account, now, p);
    lemma_kind_carries(own, msg, kind);
}

/// What an order's own fields say, its message says.
pub(crate) proof fn lemma_message_carries(m: MarketView, account: Seq<char>, now: Seq<char>, p: PlanView)
    ensures
        forall|tag: u32|
            #![trigger silent(p.kind + p.tail, tag)]
            !is_common_tag(tag) && silent(p.kind + p.tail, tag) ==> silent(
                order_message(m, account, now, p),
                tag,
            ),
        forall|tag: u32, v: Seq<char>|
            #![trigger says(p.kind + p.tail, tag, v)]
            !is_common_tag(tag) && says(p.kind + p.tail, tag, v) ==> says(
                order_message(m, account, now, p),
                tag,
                v,
            ),
{
    let own = p.kind + p.tail;
    let msg = order_message(m, account, now, p);
    assert forall|tag: u32|
        #![trigger silent(own, tag)]
        !is_common_tag(tag) && silent(own, tag) implies silent(msg, tag) by {
        lemma_own_fields(m, account, now, p, tag);
    }
    assert forall|tag: u32, v: Seq<char>|
        #![trigger says(own, tag, v)]
        !is_common_tag(tag) && says(own, tag, v) implies says(msg, tag, v) by {
        lemma_own_fields(m, account, now, p, tag);
    }
}

/// The plan of an order of a type, whose own fields are those of the type and others that say
/// nothing of it.
pub(crate) proof fn lemma_plan_is_right(
    c: ContextView,
    account: Seq<char>,
    now: Seq<char>,
    a: Asked,
    shown: OrderKind,
    tail: FieldSeq,
    extra: FieldSeq,
)
    requires
        kind_fields(shown) + tail == kind_fields(a.kind) + kind_tail(a.kind) + extra,
        only_attr_tags(extra),
        takes_exec_inst(a.kind) ==> silent(extra, 18),
    ensures
        ({
            let p = kind_plan(
                c,
                a.order_id,
                a.instrument,
                a.side,
                a.qty,
                a.kind,
                shown,
                a.tif,
                tail,
            );
            let msg = order_message(c.market, account, now, p);
            &&& says_common(
                msg,
                c.market,
                account,
                now,
                versioned(a.order_id, c.version(a.order_id)),
                a.instrument,
                a.side,
                dec(a.qty as nat),
                tif_char(a.tif),
                goes_alone(a.kind),
            )
            &&& says_kind(msg, a.kind)
            &&& tracks(p.order, a)
        }),
{
    reveal(kind_plan);
    let p = kind_plan(c, a.order_id, a.instrument, a.side, a.qty, a.kind, shown, a.tif, tail);
    let own = p.kind + p.tail;
    assert forall|i: int| 0 <= i < extra.len() implies !is_kind_tag((#[trigger] extra[i]).0) by {
        assert(is_attr_tag(extra[i].0));
    }
    lemma_kind_fields(a.kind);
    lemma_kind_plus(a.kind, extra);
    let base = kind_fields(a.kind) + kind_tail(a.kind);
    assert forall|i: int| 0 <= i < own.len() implies !is_common_tag((#[trigger] own[i]).0) by {
        if i < base.len() {
            assert(own[i] == base[i]);
        } else {
            assert(own[i] == extra[i - base.len()]);
        }
    }
    lemma_order_message(c.market, account, now, p, tif_char(a.tif));
    lemma_message_kind(c.market, account, now, p, a.kind);
}

/// Whether the fields of a plain order are those of its type, and others that say nothing of it.
pub open spec fn adds_only(p: PartsView, extra: FieldSeq) -> bool {
    &&& kind_fields(p.shown) + p.tail == kind_fields(p.kind) + kind_tail(p.kind) + extra
    &&& only_attr_tags(extra)
    &&& silent(extra, 18)
}

pub(crate) proof fn lemma_untouched_fields(p: PartsView)
    requires
        p.shown == p.kind,
        !(p.kind is AdjustableStop),
        only_attr_tags(p.tail),
        silent(p.tail, 18),
    ensures
        adds_only(p, p.tail),
{
    reveal(kind_tail);
    assert(kind_fields(p.shown) + p.tail =~= kind_fields(p.kind) + kind_tail(p.kind) + p.tail);
}

pub(crate) proof fn lemma_trail_fields(p: PartsView)
    requires
        match p.kind {
            OrderKind::TrailingStop { trail_amt, trail_stop_price } => p.shown == (
            OrderKind::TrailingStop { trail_amt, trail_stop_price: 0 }) && p.tail == one_if(
                trail_stop_price > 0,
                6117,
                price_text(trail_stop_price as int),
            ),
            OrderKind::TrailingStopLimit { lmt_offset, trail_amt, trail_stop_price } => p.shown == (
            OrderKind::TrailingStopLimit { lmt_offset, trail_amt, trail_stop_price: 0 }) && p.tail
                == one_if(trail_stop_price > 0, 6117, price_text(trail_stop_price as int)),
            OrderKind::TrailPct { trail_pct, trail_stop_price } => p.shown == (
            OrderKind::TrailPct { trail_pct, trail_stop_price: 0 }) && p.tail == one_if(
                trail_stop_price > 0,
                6117,
                price_text(trail_stop_price as int),
            ),
            _ => false,
        },
    ensures
        adds_only(p, Seq::empty()),
{
    reveal(kind_fields);
    reveal(kind_tail);
    let none = Seq::<(u32, Seq<char>)>::empty();
    assert(kind_fields(p.shown) + p.tail =~= kind_fields(p.kind) + kind_tail(p.kind) + none);
}

pub(crate) proof fn lemma_peg_fields(p: PartsView)
    requires
        match p.kind {
            OrderKind::MidPrice { price_cap } => p.shown == (OrderKind::MidPrice { price_cap: 0 })
                && p.tail == one_if(price_cap > 0, 44, price_text(price_cap as int)),
            OrderKind::PegMkt { offset } => p.shown == (OrderKind::PegMkt { offset: 0 }) && p.tail
                == one_if(offset > 0, 211, price_text(offset as int)),
            OrderKind::PegMid { offset } => p.shown == (OrderKind::PegMkt { offset: 0 }) && p.tail
                == peg_mid_tail(offset),
            _ => false,
        },
    ensures
        adds_only(p, Seq::empty()),
{
    reveal(kind_fields);
    reveal(kind_tail);
    let none = Seq::<(u32, Seq<char>)>::empty();
    assert(kind_fields(p.shown) + p.tail =~= kind_fields(p.kind) + kind_tail(p.kind) + none);
}

/// The fields of a plain order are those of its type, and at most one attribute more.
pub(crate) proof fn lemma_plain_fields(req: OrderRequest) -> (extra: FieldSeq)
    requires
        plain_parts(req) is Some,
    ensures
        adds_only(plain_parts(req)->0, extra),
{
    let p = plain_parts(req)->0;
    match req {
        OrderRequest::SubmitTrailingStop { .. } => {
            lemma_trail_fields(p);
            Seq::empty()
        },
        OrderRequest::SubmitTrailingStopLimit { .. } => {
            lemma_trail_fields(p);
            Seq::empty()
        },
        OrderRequest::SubmitTrailingStopPct { .. } => {
            lemma_trail_fields(p);
            Seq::empty()
        },
        OrderRequest::SubmitMidPrice { .. } => {
            lemma_peg_fields(p);
            Seq::empty()
        },
        OrderRequest::SubmitPegMkt { .. } => {
            lemma_peg_fields(p);
            Seq::empty()
        },
        OrderRequest::SubmitPegMid { .. } => {
            lemma_peg_fields(p);
            Seq::empty()
        },
        _ => {
            lemma_untouched_fields(p);
            p.tail
        },
    }
}

/// Whether the parts of a plain order are what was asked for.
#[verifier::opaque]
pub open spec fn parts_are_asked(req: OrderRequest, tick: Price) -> bool {
    &&& asked_by(req, tick) is Some ==> request_instrument(req) == Some(
        asked_by(req, tick)->0.instrument,
    )
    &&& plain_parts(snapped(req, tick)) is Some ==> ({
        let p = plain_parts(snapped(req, tick))->0;
        asked_by(req, tick) == Some(
            Asked {
                order_id: p.order_id,
                instrument: p.instrument,
                side: p.side,
                qty: p.qty,
                kind: p.kind,
                tif: p.tif,
            },
        )
    })
    &&& asked_by(req, tick) is Some && plain_parts(snapped(req, tick)) is None ==> req
        is SubmitLimitEx || req is SubmitEx || req is SubmitTrailingStopPctEx
        || req is SubmitAdjustableStop
    &&& asked_by(req, tick) is Some ==> !(req is Cancel) && !(req is CancelAll) && !(req is Modify)
}

/// The parts of a plain order are what was asked for.
#[verifier::rlimit(60)]
pub(crate) proof fn lemma_parts_are_asked(req: OrderRequest, tick: Price)
    requires
        asked_by(req, tick) is Some,
    ensures
        parts_are_asked(req, tick),
{
    match req {
        OrderRequest::SubmitLimit { .. } => {
            assert(parts_are_asked(req, tick)) by {
                reveal(parts_are_asked);
            }
        },
        OrderRequest::SubmitLimitGtc { .. } => {
            assert(parts_are_asked(req, tick)) by {
                reveal(parts_are_asked);
            }
        },
        OrderRequest::SubmitLimitIoc { .. } => {
            assert(parts_are_asked(req, tick)) by {
                reveal(parts_are_asked);
            }
        },
        OrderRequest::SubmitLimitFok { .. } => {
            assert(parts_are_asked(req, tick)) by {
                reveal(parts_are_asked);
            }
        },
        OrderRequest::SubmitLimitOpg { .. } => {
            assert(parts_are_asked(req, tick)) by {
                reveal(parts_are_asked);
            }
        },
        OrderRequest::SubmitLimitAuc { .. } => {
            assert(parts_are_asked(req, tick)) by {
                reveal(parts_are_asked);
            }
        },
        OrderRequest::SubmitLoc { .. } => {
            assert(parts_are_asked(req, tick)) by {
                reveal(parts_are_asked);
            }
        },
        OrderRequest::SubmitStop { .. } => {
            assert(parts_are_asked(req, tick)) by {
                reveal(parts_are_asked);
            }
        },
        OrderRequest::SubmitStopGtc { .. } => {
            assert(parts_are_asked(req, tick)) by {
                reveal(parts_are_asked);
            }
        },
        OrderRequest::SubmitStopLimit { .. } => {
            assert(parts_are_asked(req, tick)) by {
                reveal(parts_are_asked);
            }
        },
        OrderRequest::SubmitStopLimitGtc { .. } => {
            assert(parts_are_asked(req, tick)) by {
                reveal(parts_are_asked);
            }
        },
        OrderRequest::SubmitMit { .. } => {
            assert(parts_are_asked(req, tick)) by {
                reveal(parts_are_asked);
            }
        },
        OrderRequest::SubmitLit { .. } => {
            assert(parts_are_asked(req, tick)) by {
                reveal(parts_are_asked);
            }
        },
        OrderRequest::SubmitStpPrt { .. } => {
            assert(parts_are_asked(req, tick)) by {
                reveal(parts_are_asked);
            }
        },
        OrderRequest::SubmitMarket { .. } => {
            assert(parts_are_asked(req, tick)) by {
                reveal(parts_are_asked);
            }
        },
        OrderRequest::SubmitMoc { .. } => {
            assert(parts_are_asked(req, tick)) by {
                reveal(parts_are_asked);
            }
        },
        OrderRequest::SubmitMtl { .. } => {
            assert(parts_are_asked(req, tick)) by {
                reveal(parts_are_asked);
            }
        },
        OrderRequest::SubmitMtlAuc { .. } => {
            assert(parts_are_asked(req, tick)) by {
                reveal(parts_are_asked);
            }
        },
        OrderRequest::SubmitMktPrt { .. } => {
            assert(parts_are_asked(req, tick)) by {
                reveal(parts_are_asked);
            }
        },
        OrderRequest::SubmitSnapMkt { .. } => {
            assert(parts_are_asked(req, tick)) by {
                reveal(parts_are_asked);
            }
        },
        OrderRequest::SubmitSnapMid { .. } => {
            assert(parts_are_asked(req, tick)) by {
                reveal(parts_are_asked);
            }
        },
        OrderRequest::SubmitSnapPri { .. } => {
            assert(parts_are_asked(req, tick)) by {
                reveal(parts_are_asked);
            }
        },
        OrderRequest::SubmitRel { .. } => {
            assert(parts_are_asked(req, tick)) by {
                reveal(parts_are_asked);
            }
        },
        OrderRequest::SubmitTrailingStop { .. } => {
            assert(parts_are_asked(req, tick)) by {
                reveal(parts_are_asked);
            }
        },
        OrderRequest::SubmitTrailingStopLimit { .. } => {
            assert(parts_are_asked(req, tick)) by {
                reveal(parts_are_asked);
            }
        },
        OrderRequest::SubmitTrailingStopPct { .. } => {
            assert(parts_are_asked(req, tick)) by {
                reveal(parts_are_asked);
            }
        },
        OrderRequest::SubmitMidPrice { .. } => {
            assert(parts_are_asked(req, tick)) by {
                reveal(parts_are_asked);
            }
        },
        OrderRequest::SubmitPegMkt { .. } => {
            assert(parts_are_asked(req, tick)) by {
                reveal(parts_are_asked);
            }
        },
        OrderRequest::SubmitPegMid { .. } => {
            assert(parts_are_asked(req, tick)) by {
                reveal(parts_are_asked);
            }
        },
        OrderRequest::SubmitLimitEx { .. } => {
            assert(parts_are_asked(req, tick)) by {
                reveal(parts_are_asked);
            }
        },
        OrderRequest::SubmitEx { .. } => {
            assert(parts_are_asked(req, tick)) by {
                reveal(parts_are_asked);
            }
        },
        OrderRequest::SubmitTrailingStopPctEx { .. } => {
            assert(parts_are_asked(req, tick)) by {
                reveal(parts_are_asked);
            }
        },
        OrderRequest::SubmitAdjustableStop { .. } => {
            assert(parts_are_asked(req, tick)) by {
                reveal(parts_are_asked);
            }
        },
        _ => {},
    }
}

/// A request for one order gives one message. It says what was asked for: which order, for which
/// account, of what, on which side, how much, of which type, at which prices, and for how long.
/// The order is tracked as it was asked for, and no other order changes.
pub proof fn law_order_is_placed_as_asked(
    c: ContextView,
    account: Seq<char>,
    now: Seq<char>,
    req: OrderRequest,
    a: Asked,
)
    requires
        c.wf(),
        a.instrument < MAX_INSTRUMENTS,
        asked_by(req, c.market.min_ticks[a.instrument as int]) == Some(a),
    ensures
        ({
            let step = request_step(c, account, now, req);
            let after = request_effect(c, req);
            &&& step is Place
            &&& step->Place_messages.len() == 1
            &&& says_common(
                step->Place_messages[0],
                c.market,
                account,
                now,
                versioned(a.order_id, c.version(a.order_id)),
                a.instrument,
                a.side,
                dec(a.qty as nat),
                tif_char(a.tif),
                goes_alone(a.kind),
            )
            &&& says_kind(step->Place_messages[0], a.kind)
            &&& after.order(a.order_id) is Some
            &&& tracks(after.order(a.order_id)->0, a)
            &&& forall|other: OrderId|
                other != a.order_id ==> #[trigger] after.order(other) == c.order(other)
            &&& after == (ContextView { orders: after.orders, ..c })
        }),
{
    let tick = c.market.min_ticks[a.instrument as int];
    lemma_parts_are_asked(req, tick);
    reveal(parts_are_asked);
    let r = snapped(req, tick);
    assert(on_grid(c, req) == r);
    match plain_parts(r) {
        Some(parts) => {
            let extra = lemma_plain_fields(r);
            lemma_plan_is_right(c, account, now, a, parts.shown, parts.tail, extra);
            lemma_planned(c, account, now, req, a, parts_plan(c, parts));
        },
        None => {
            lemma_special_is_right(c, account, now, req, a);
        },
    }
    reveal(placed_as_asked);
}

/// One plan gives one message, and its order is tracked.
pub(crate) proof fn lemma_one_plan(c: ContextView, account: Seq<char>, now: Seq<char>, p: PlanView)
    requires
        c.wf(),
    ensures
        plan_messages(c.market, account, now, seq![p]) == seq![
            order_message(c.market, account, now, p),
        ],
        with_plans(c, seq![p]) == c.with_order(p.order),
        c.with_order(p.order).order(p.order.order_id) == Some(p.order),
        forall|other: OrderId|
            other != p.order.order_id ==> #[trigger] c.with_order(p.order).order(other) == c.order(
                other,
            ),
{
    assert(plan_messages(c.market, account, now, seq![p]) =~= seq![
        order_message(c.market, account, now, p),
    ]);
    assert(seq![p].drop_last() =~= Seq::<PlanView>::empty());
    reveal_with_fuel(with_plans, 2);
    law_put_then_find(c.orders, p.order, p.order.order_id);
    assert forall|other: OrderId| other != p.order.order_id implies #[trigger] c.with_order(
        p.order,
    ).order(other) == c.order(other) by {
        law_put_then_find(c.orders, p.order, other);
    }
}

/// Whether a request gives one message that says what was asked for, and its order is tracked so.
#[verifier::opaque]
pub open spec fn placed_as_asked(
    c: ContextView,
    account: Seq<char>,
    now: Seq<char>,
    req: OrderRequest,
    a: Asked,
) -> bool {
    let step = request_step(c, account, now, req);
    let after = request_effect(c, req);
    &&& step is Place
    &&& step->Place_messages.len() == 1
    &&& says_common(
        step->Place_messages[0],
        c.market,
        account,
        now,
        versioned(a.order_id, c.version(a.order_id)),
        a.instrument,
        a.side,
        dec(a.qty as nat),
        tif_char(a.tif),
        goes_alone(a.kind),
    )
    &&& says_kind(step->Place_messages[0], a.kind)
    &&& after.order(a.order_id) is Some
    &&& tracks(after.order(a.order_id)->0, a)
    &&& forall|other: OrderId|
        other != a.order_id ==> #[trigger] after.order(other) == c.order(other)
    &&& after == (ContextView { orders: after.orders, ..c })
}

pub(crate) proof fn lemma_special_is_right(
    c: ContextView,
    account: Seq<char>,
    now: Seq<char>,
    req: OrderRequest,
    a: Asked,
)
    requires
        c.wf(),
        a.instrument < MAX_INSTRUMENTS,
        asked_by(req, c.market.min_ticks[a.instrument as int]) == Some(a),
        req is SubmitLimitEx || req is SubmitEx || req is SubmitTrailingStopPctEx
            || req is SubmitAdjustableStop,
    ensures
        placed_as_asked(c, account, now, req, a),
{
    let tick = c.market.min_ticks[a.instrument as int];
    let r = snapped(req, tick);
    let k = a.kind;
    match req {
        OrderRequest::SubmitAdjustableStop { .. } => {
            let none = Seq::<(u32, Seq<char>)>::empty();
            assert(kind_fields(k) + kind_tail(k) =~= kind_fields(k) + kind_tail(k) + none);
            lemma_plan_is_right(c, account, now, a, k, kind_tail(k), none);
            let p = kind_plan(c, a.order_id, a.instrument, a.side, a.qty, k, k, a.tif, kind_tail(k));
            assert(plans(c, r) == seq![p]);
            lemma_planned(c, account, now, req, a, p);
        },
        OrderRequest::SubmitLimitEx { attrs, .. } => {
            lemma_extended_plan(c, account, now, a, attrs);
            let p = extended_plan(c, a.order_id, a.instrument, a.side, a.qty, k, a.tif, attrs);
            assert(plans(c, r) == seq![p]);
            lemma_planned(c, account, now, req, a, p);
        },
        OrderRequest::SubmitEx { attrs, .. } => {
            lemma_extended_plan(c, account, now, a, attrs);
            let p = extended_plan(c, a.order_id, a.instrument, a.side, a.qty, k, a.tif, attrs);
            assert(plans(c, r) == seq![p]);
            lemma_planned(c, account, now, req, a, p);
        },
        OrderRequest::SubmitTrailingStopPctEx { attrs, .. } => {
            lemma_extended_plan(c, account, now, a, attrs);
            let p = extended_plan(c, a.order_id, a.instrument, a.side, a.qty, k, a.tif, attrs);
            assert(plans(c, r) == seq![p]);
            lemma_planned(c, account, now, req, a, p);
        },
        _ => {},
    }
}

/// A request whose one plan is right is placed as asked.
pub(crate) proof fn lemma_planned(
    c: ContextView,
    account: Seq<char>,
    now: Seq<char>,
    req: OrderRequest,
    a: Asked,
    p: PlanView,
)
    requires
        c.wf(),
        !(req is Cancel) && !(req is CancelAll) && !(req is Modify),
        plans(c, on_grid(c, req)) == seq![p],
        says_common(
            order_message(c.market, account, now, p),
            c.market,
            account,
            now,
            versioned(a.order_id, c.version(a.order_id)),
            a.instrument,
            a.side,
            dec(a.qty as nat),
            tif_char(a.tif),
            goes_alone(a.kind),
        ),
        says_kind(order_message(c.market, account, now, p), a.kind),
        tracks(p.order, a),
    ensures
        placed_as_asked(c, account, now, req, a),
{
    reveal(placed_as_asked);
    lemma_one_plan(c, account, now, p);
}

pub(crate) proof fn lemma_extended_plan(
    c: ContextView,
    account: Seq<char>,
    now: Seq<char>,
    a: Asked,
    attrs: OrderAttrs,
)
    ensures
        ({
            let p = extended_plan(
                c,
                a.order_id,
                a.instrument,
                a.side,
                a.qty,
                a.kind,
                a.tif,
                attrs,
            );
            let msg = order_message(c.market, account, now, p);
            &&& says_common(
                msg,
                c.market,
                account,
                now,
                versioned(a.order_id, c.version(a.order_id)),
                a.instrument,
                a.side,
                dec(a.qty as nat),
                tif_char(a.tif),
                goes_alone(a.kind),
            )
            &&& says_kind(msg, a.kind)
            &&& tracks(p.order, a)
        }),
{
    let k = a.kind;
    let takes = takes_exec_inst(k);
    let extra = with_attrs(Seq::empty(), attrs, takes);
    lemma_attrs_append(kind_tail(k), attrs, takes);
    lemma_attr_tags(attrs, takes);
    let tail = with_attrs(kind_tail(k), attrs, takes);
    assert(kind_fields(k) + tail =~= kind_fields(k) + kind_tail(k) + extra);
    lemma_plan_is_right(c, account, now, a, k, tail, extra);
}

} // verus!
