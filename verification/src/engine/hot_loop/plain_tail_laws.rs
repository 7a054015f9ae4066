//! What the messages of plain orders say beyond what every order says.
use vstd::prelude::*;

use crate::engine::context::ContextView;
use crate::engine::hot_loop::algo_laws::{lemma_param_list, parameters_of};
use crate::engine::hot_loop::order_fields::{add_if, algo_params, max_pct_vol_of, FieldSeq};
use crate::engine::hot_loop::placing_laws::{
    lemma_one_field, lemma_says_concat, lemma_says_parts, says, says_if, silent,
};
use crate::engine::hot_loop::plain_laws::{is_plain_tag, lemma_one_plain, lemma_plain_head};
use crate::engine::hot_loop::plain_orders::{
    both_fields, limit_field, limit_form, market_form, midpoint_tail, no_fields, outside_field,
    pair_fields, plain_adaptive_tail, plain_algo_tail, plain_forms, plain_step, price_if_set,
    stop_field, stop_form, trail_pct_field, PlainView,
};
use crate::engine::hot_loop::special_laws::{
    ends_with, lemma_tells_added, tells, value_after,
};
use crate::engine::order::{AdaptivePriority, AlgoParams, OrderRequest};
use crate::text::dec;
use crate::types::price_text;

verus! {

proof fn lemma_said_beyond(
    c: ContextView,
    now: Seq<char>,
    account: Seq<char>,
    req: OrderRequest,
    p: PlainView,
    tag: u32,
    value: Option<Seq<char>>,
)
    requires
        c.wf(),
        plain_forms(req) == seq![p],
        !(req is Cancel) && !(req is CancelAll) && !(req is Modify),
        !is_plain_tag(tag),
        tells(p.prices + p.tail, tag, value),
    ensures
        plain_step(c, now, account, req).len() == 1,
        tells(plain_step(c, now, account, req)[0], tag, value),
{
    lemma_one_plain(c, now, account, p);
    let symbol = c.market.symbols[p.order.instrument as int];
    let (h, m) = lemma_plain_head(now, account, symbol, p);
    assert(silent(h, tag));
    assert(silent(m, tag));
    lemma_says_parts(h, p.prices, m, p.tail, tag);
}

/// The form of a request for one order that says something beyond what every order says.
proof fn lemma_form(req: OrderRequest) -> (p: PlainView)
    requires
        req is SubmitLimitGtc || req is SubmitStopGtc || req is SubmitStopLimitGtc
            || req is SubmitLimit || req is SubmitStop || req is SubmitTrailingStopPct
            || req is SubmitPegMkt || req is SubmitPegMid || req is SubmitAdaptive
            || req is SubmitAlgo,
    ensures
        plain_forms(req) == seq![p],
        match req {
            OrderRequest::SubmitLimitGtc { price, outside_rth, .. } => p.prices == limit_field(
                price,
            ) && p.tail == outside_field(outside_rth),
            OrderRequest::SubmitStopGtc { stop_price, outside_rth, .. } => p.prices == stop_field(
                stop_price,
            ) && p.tail == outside_field(outside_rth),
            OrderRequest::SubmitStopLimitGtc { price, stop_price, outside_rth, .. } => p.prices
                == both_fields(price, stop_price) && p.tail == outside_field(outside_rth),
            OrderRequest::SubmitLimit { price, .. } => p.prices == limit_field(price) && p.tail
                == no_fields(),
            OrderRequest::SubmitStop { stop_price, .. } => p.prices == stop_field(stop_price)
                && p.tail == no_fields(),
            OrderRequest::SubmitTrailingStopPct { trail_pct, .. } => p.prices == trail_pct_field(
                trail_pct,
            ) && p.tail == no_fields(),
            OrderRequest::SubmitPegMkt { offset, .. } => p.prices == no_fields() && p.tail
                == price_if_set(211, offset),
            OrderRequest::SubmitPegMid { offset, .. } => p.prices == no_fields() && p.tail
                == midpoint_tail(offset),
            OrderRequest::SubmitAdaptive { price, priority, .. } => p.prices == limit_field(price)
                && p.tail == plain_adaptive_tail(priority_text(priority)),
            OrderRequest::SubmitAlgo { price, algo, .. } => p.prices == limit_field(price) && p.tail
                == plain_algo_tail(algo),
            _ => true,
        },
{
    reveal(limit_form);
    reveal(stop_form);
    reveal(market_form);
    if limit_form(req) is Some {
        limit_form(req)->0
    } else if stop_form(req) is Some {
        stop_form(req)->0
    } else {
        market_form(req)->0
    }
}

/// How eagerly an adaptive order seeks its fill, in words.
pub open spec fn priority_text(p: AdaptivePriority) -> Seq<char> {
    match p {
        AdaptivePriority::Patient => "Patient"@,
        AdaptivePriority::Normal => "Normal"@,
        AdaptivePriority::Urgent => "Urgent"@,
    }
}

/// An order that may be filled outside regular hours says so; one that trails by a percentage
/// gives it; one that is pegged gives its offset, if it has one; an adaptive one gives its
/// priority. One that none of this was asked for does not say it.
pub proof fn law_plain_order_says_the_rest(
    c: ContextView,
    now: Seq<char>,
    account: Seq<char>,
    req: OrderRequest,
)
    requires
        c.wf(),
    ensures
        ({
            let m = plain_step(c, now, account, req);
            match req {
                OrderRequest::SubmitLimitGtc { outside_rth, .. } => m.len() == 1 && says_if(
                    m[0],
                    outside_rth,
                    6433,
                    "1"@,
                ),
                OrderRequest::SubmitStopGtc { outside_rth, .. } => m.len() == 1 && says_if(
                    m[0],
                    outside_rth,
                    6433,
                    "1"@,
                ),
                OrderRequest::SubmitStopLimitGtc { outside_rth, .. } => m.len() == 1 && says_if(
                    m[0],
                    outside_rth,
                    6433,
                    "1"@,
                ),
                OrderRequest::SubmitLimit { .. } => m.len() == 1 && silent(m[0], 6433),
                OrderRequest::SubmitStop { .. } => m.len() == 1 && silent(m[0], 6433),
                OrderRequest::SubmitTrailingStopPct { trail_pct, .. } => m.len() == 1 && says(
                    m[0],
                    6268,
                    dec(trail_pct as nat),
                ),
                OrderRequest::SubmitPegMkt { offset, .. } => m.len() == 1 && says_if(
                    m[0],
                    offset > 0,
                    211,
                    price_text(offset as int),
                ) && silent(m[0], 8403) && silent(m[0], 8404),
                OrderRequest::SubmitPegMid { offset, .. } => m.len() == 1 && says_if(
                    m[0],
                    offset > 0,
                    211,
                    price_text(offset as int),
                ) && says(m[0], 8403, "0.0"@) && says(m[0], 8404, "0.0"@),
                OrderRequest::SubmitAdaptive { priority, .. } => m.len() == 1 && says(
                    m[0],
                    847,
                    "Adaptive"@,
                ) && says(m[0], 5957, "1"@) && says(m[0], 5958, "adaptivePriority"@) && says(
                    m[0],
                    5960,
                    priority_text(priority),
                ),
                _ => true,
            }
        }),
{
    let yes = "1"@;
    match req {
        OrderRequest::SubmitLimitGtc { outside_rth, .. } => {
            let p = lemma_form(req);
            lemma_outside(p, outside_rth);
            lemma_said_beyond(
                c,
                now,
                account,
                req,
                p,
                6433,
                if outside_rth {
                    Some(yes)
                } else {
                    None
                },
            );
        },
        OrderRequest::SubmitStopGtc { outside_rth, .. } => {
            let p = lemma_form(req);
            lemma_outside(p, outside_rth);
            lemma_said_beyond(
                c,
                now,
                account,
                req,
                p,
                6433,
                if outside_rth {
                    Some(yes)
                } else {
                    None
                },
            );
        },
        OrderRequest::SubmitStopLimitGtc { outside_rth, .. } => {
            let p = lemma_form(req);
            lemma_outside(p, outside_rth);
            lemma_said_beyond(
                c,
                now,
                account,
                req,
                p,
                6433,
                if outside_rth {
                    Some(yes)
                } else {
                    None
                },
            );
        },
        OrderRequest::SubmitLimit { .. } => {
            let p = lemma_form(req);
            assert(silent(p.prices + p.tail, 6433));
            lemma_said_beyond(c, now, account, req, p, 6433, None);
        },
        OrderRequest::SubmitStop { .. } => {
            let p = lemma_form(req);
            assert(silent(p.prices + p.tail, 6433));
            lemma_said_beyond(c, now, account, req, p, 6433, None);
        },
        OrderRequest::SubmitTrailingStopPct { trail_pct, .. } => {
            let p = lemma_form(req);
            lemma_one_field(p.prices + p.tail, 0, 6268, dec(trail_pct as nat));
            lemma_said_beyond(c, now, account, req, p, 6268, Some(dec(trail_pct as nat)));
        },
        OrderRequest::SubmitPegMkt { offset, .. } => {
            let p = lemma_form(req);
            let own = p.prices + p.tail;
            let text = price_text(offset as int);
            if offset > 0 {
                lemma_one_field(own, 0, 211, text);
                lemma_said_beyond(c, now, account, req, p, 211, Some(text));
            } else {
                assert(silent(own, 211));
                lemma_said_beyond(c, now, account, req, p, 211, None);
            }
            assert(silent(own, 8403));
            assert(silent(own, 8404));
            lemma_said_beyond(c, now, account, req, p, 8403, None);
            lemma_said_beyond(c, now, account, req, p, 8404, None);
        },
        OrderRequest::SubmitPegMid { offset, .. } => {
            let p = lemma_form(req);
            let own = p.prices + p.tail;
            let text = price_text(offset as int);
            lemma_one_field(own, 0, 8403, "0.0"@);
            lemma_one_field(own, 1, 8404, "0.0"@);
            if offset > 0 {
                lemma_one_field(own, 2, 211, text);
                lemma_said_beyond(c, now, account, req, p, 211, Some(text));
            } else {
                assert(silent(own, 211));
                lemma_said_beyond(c, now, account, req, p, 211, None);
            }
            lemma_said_beyond(c, now, account, req, p, 8403, Some("0.0"@));
            lemma_said_beyond(c, now, account, req, p, 8404, Some("0.0"@));
        },
        OrderRequest::SubmitAdaptive { priority, .. } => {
            let p = lemma_form(req);
            let own = p.prices + p.tail;
            let text = priority_text(priority);
            lemma_one_field(own, 1, 847, "Adaptive"@);
            lemma_one_field(own, 2, 5957, "1"@);
            lemma_one_field(own, 3, 5958, "adaptivePriority"@);
            lemma_one_field(own, 4, 5960, text);
            lemma_said_beyond(c, now, account, req, p, 847, Some("Adaptive"@));
            lemma_said_beyond(c, now, account, req, p, 5957, Some("1"@));
            lemma_said_beyond(c, now, account, req, p, 5958, Some("adaptivePriority"@));
            lemma_said_beyond(c, now, account, req, p, 5960, Some(text));
        },
        _ => {},
    }
}

proof fn lemma_outside(p: PlainView, on: bool)
    requires
        p.tail == outside_field(on),
        forall|i: int| 0 <= i < p.prices.len() ==> (#[trigger] p.prices[i]).0 != 6433,
    ensures
        tells(
            p.prices + p.tail,
            6433,
            if on {
                Some("1"@)
            } else {
                None
            },
        ),
{
    let own = p.prices + p.tail;
    if on {
        lemma_one_field(own, p.prices.len() as int, 6433, "1"@);
    } else {
        assert(silent(own, 6433));
    }
}

/// Pairs of names and values, as fields.
pub open spec fn all_pairs(list: Seq<(Seq<char>, Seq<char>)>) -> FieldSeq
    decreases list.len(),
{
    if list.len() == 0 {
        Seq::empty()
    } else {
        all_pairs(list.drop_last()).push((5958u32, list.last().0)).push((5960u32, list.last().1))
    }
}

proof fn lemma_all_pairs(params: Seq<Seq<char>>, list: Seq<(Seq<char>, Seq<char>)>)
    requires
        params.len() >= 2 * list.len(),
        forall|i: int|
            0 <= i < list.len() ==> params[2 * i] == (#[trigger] list[i]).0 && params[2 * i + 1]
                == list[i].1,
    ensures
        pair_fields(params, list.len()) == all_pairs(list),
        forall|i: int|
            0 <= i < all_pairs(list).len() ==> (#[trigger] all_pairs(list)[i]).0 == 5958
                || all_pairs(list)[i].0 == 5960,
    decreases list.len(),
{
    if list.len() > 0 {
        let shorter = list.drop_last();
        assert forall|i: int| 0 <= i < shorter.len() implies params[2 * i] == (
        #[trigger] shorter[i]).0 && params[2 * i + 1] == shorter[i].1 by {
            assert(shorter[i] == list[i]);
        }
        lemma_all_pairs(params, shorter);
        let k = list.len() - 1;
        assert(list[k] == list.last());
    }
}

/// An order that follows an algorithm names it, gives the share of the volume that it may take if
/// one is set, and ends with all parameters of the algorithm and their number.
pub proof fn law_plain_algo_order_names_its_parameters(
    c: ContextView,
    now: Seq<char>,
    account: Seq<char>,
    req: OrderRequest,
    algo: AlgoParams,
)
    requires
        c.wf(),
        req is SubmitAlgo,
        req->SubmitAlgo_algo == algo,
    ensures
        ({
            let m = plain_step(c, now, account, req);
            let list = parameters_of(algo);
            &&& m.len() == 1
            &&& match algo {
                AlgoParams::Vwap { max_pct_vol, .. } => says(m[0], 847, "Vwap"@) && says_if(
                    m[0],
                    max_pct_vol@.len() > 0,
                    849,
                    max_pct_vol@,
                ),
                AlgoParams::Twap { .. } => says(m[0], 847, "Twap"@) && silent(m[0], 849),
                AlgoParams::ArrivalPx { max_pct_vol, .. } => says(m[0], 847, "ArrivalPx"@)
                    && says_if(m[0], max_pct_vol@.len() > 0, 849, max_pct_vol@),
                AlgoParams::ClosePx { max_pct_vol, .. } => says(m[0], 847, "ClosePx"@) && says_if(
                    m[0],
                    max_pct_vol@.len() > 0,
                    849,
                    max_pct_vol@,
                ),
                AlgoParams::DarkIce { .. } => says(m[0], 847, "DarkIce"@) && silent(m[0], 849),
                AlgoParams::PctVol { .. } => says(m[0], 847, "PctVol"@) && silent(m[0], 849),
            }
            &&& says(m[0], 5957, dec(list.len()))
            &&& ends_with(m[0], all_pairs(list))
        }),
{
    let p = lemma_form(req);
    let list = parameters_of(algo);
    let params = algo_params(algo);
    let price = seq![(44u32, p.prices[0].1)];
    lemma_param_list(algo);
    lemma_all_pairs(params, list);
    let pairs = all_pairs(list);
    let name = crate::engine::hot_loop::order_fields::algo_name(algo);
    let share = max_pct_vol_of(algo);
    let on = share is Some && share->0.len() > 0;
    let v = if on {
        share->0
    } else {
        Seq::empty()
    };
    let count = dec(list.len());
    let s0 = p.prices;
    assert(s0 =~= price);
    let s1 = add_if(s0, true, 847, name);
    let s2 = add_if(s1, on, 849, v);
    let s3 = add_if(s2, true, 5957, count);
    let own = s0 + p.tail;
    assert(p.tail == plain_algo_tail(algo));
    assert(params.len() / 2 == list.len());
    assert(own =~= s3 + pairs);
    assert(silent(s0, 847) && silent(s0, 849) && silent(s0, 5957));
    lemma_algo_tag(s0, name, on, v, count, pairs, 847);
    lemma_algo_tag(s0, name, on, v, count, pairs, 849);
    lemma_algo_tag(s0, name, on, v, count, pairs, 5957);
    lemma_said_beyond(c, now, account, req, p, 847, Some(name));
    lemma_said_beyond(
        c,
        now,
        account,
        req,
        p,
        849,
        if on {
            Some(v)
        } else {
            None
        },
    );
    lemma_said_beyond(c, now, account, req, p, 5957, Some(count));
    lemma_one_plain(c, now, account, p);
    let symbol = c.market.symbols[p.order.instrument as int];
    let (h, mid) = lemma_plain_head(now, account, symbol, p);
    let m = plain_step(c, now, account, req)[0];
    assert(m == h + p.prices + mid + p.tail);
    let front = p.tail.take(p.tail.len() - pairs.len());
    assert(p.tail =~= front + pairs);
    assert(m.skip(m.len() - pairs.len()) =~= pairs);
}

proof fn lemma_algo_tag(
    s0: FieldSeq,
    name: Seq<char>,
    on: bool,
    v: Seq<char>,
    count: Seq<char>,
    pairs: FieldSeq,
    t: u32,
)
    requires
        silent(s0, t),
        t == 847 || t == 849 || t == 5957,
        forall|i: int|
            0 <= i < pairs.len() ==> (#[trigger] pairs[i]).0 == 5958 || pairs[i].0 == 5960,
    ensures
        ({
            let s1 = add_if(s0, true, 847, name);
            let s2 = add_if(s1, on, 849, v);
            let s3 = add_if(s2, true, 5957, count);
            tells(
                s3 + pairs,
                t,
                if t == 847 {
                    Some(name)
                } else if t == 5957 {
                    Some(count)
                } else if on {
                    Some(v)
                } else {
                    None
                },
            )
        }),
{
    let none = None::<Seq<char>>;
    let s1 = add_if(s0, true, 847, name);
    let v1 = value_after(none, true, 847, name, t);
    lemma_tells_added(s0, true, 847, name, t, none);
    let s2 = add_if(s1, on, 849, v);
    let v2 = value_after(v1, on, 849, v, t);
    lemma_tells_added(s1, on, 849, v, t, v1);
    let s3 = add_if(s2, true, 5957, count);
    lemma_tells_added(s2, true, 5957, count, t, v2);
    assert(silent(pairs, t));
    lemma_says_concat(s3, pairs, t);
}

} // verus!
