//! What the messages say of orders that are placed in a way of their own: those that an algorithm
//! works, previews, and orders that follow a benchmark.
use vstd::prelude::*;

use crate::engine::context::{versioned, ContextView};
use crate::engine::hot_loop::order_builder::{on_grid, order_message, request_effect, request_step};
use crate::engine::hot_loop::order_fields::{
    add_if, algo_params, kind_fields, param_fields, set_params, with_algo, with_attrs, FieldSeq,
};
use crate::engine::hot_loop::order_plans::{
    adaptive_plan, adaptive_tail, algo_plan, benchmark_plan, benchmark_tail, fractional_plan,
    kind_plan, plans, what_if_plan, PlanView,
};
use crate::engine::hot_loop::placing_laws::{
    is_attr_tag, is_common_tag, lemma_attr_tags, lemma_attrs_append, lemma_message_carries,
    lemma_one_field, lemma_one_plan, lemma_order_message, lemma_says_concat, says, says_common,
    silent, tif_char,
};
use crate::engine::hot_loop::special_laws::{
    carries, ends_with, is_extra_tag, lemma_added, lemma_attrs_carried, lemma_attrs_said,
    lemma_carry, lemma_message_ends, lemma_parts_carry, only_extra_tags, says_attrs,
};
use crate::engine::market_state::MarketView;
use crate::engine::order::{
    snapped_price, AdaptivePriority, AlgoParams, Order, OrderAttrs, OrderKind, OrderRequest,
    OrderStatus, RiskAversion, Side,
};
use crate::text::dec;
use crate::types::{price_text, qty_text, InstrumentId, OrderId, Price, Qty, MAX_INSTRUMENTS};

verus! {

// ---------------------------------------------------------------------------------------
// Orders that are placed in a way of their own
// ---------------------------------------------------------------------------------------

/// How a limit order is tracked.
pub open spec fn tracks_limit(
    o: Order,
    order_id: OrderId,
    instrument: InstrumentId,
    side: Side,
    qty: Qty,
    price: Price,
    tif: u8,
) -> bool {
    &&& o.order_id == order_id
    &&& o.instrument == instrument
    &&& o.side == side
    &&& o.qty_fixed == qty
    &&& o.filled_fixed == 0
    &&& o.status == OrderStatus::PendingSubmit
    &&& o.price == price
    &&& o.stop_price == 0
    &&& o.tif == tif
}

/// The names and values of an algorithm's parameters.
pub open spec fn parameters_of(algo: AlgoParams) -> Seq<(Seq<char>, Seq<char>)> {
    match algo {
        AlgoParams::Vwap { no_take_liq, allow_past_end_time, start_time, end_time, .. } => seq![
            ("noTakeLiq"@, yes_or_no(no_take_liq)),
            ("allowPastEndTime"@, yes_or_no(allow_past_end_time)),
            ("startTime"@, start_time@),
            ("endTime"@, end_time@),
        ],
        AlgoParams::Twap { allow_past_end_time, start_time, end_time } => seq![
            ("allowPastEndTime"@, yes_or_no(allow_past_end_time)),
            ("startTime"@, start_time@),
            ("endTime"@, end_time@),
        ],
        AlgoParams::ArrivalPx {
            risk_aversion,
            allow_past_end_time,
            force_completion,
            start_time,
            end_time,
            ..
        } => seq![
            ("riskAversion"@, risk_text(risk_aversion)),
            ("allowPastEndTime"@, yes_or_no(allow_past_end_time)),
            ("forceCompletion"@, yes_or_no(force_completion)),
            ("startTime"@, start_time@),
            ("endTime"@, end_time@),
        ],
        AlgoParams::ClosePx { risk_aversion, force_completion, start_time, .. } => seq![
            ("riskAversion"@, risk_text(risk_aversion)),
            ("forceCompletion"@, yes_or_no(force_completion)),
            ("startTime"@, start_time@),
        ],
        AlgoParams::DarkIce { allow_past_end_time, display_size, start_time, end_time } => seq![
            ("allowPastEndTime"@, yes_or_no(allow_past_end_time)),
            ("displaySize"@, dec(display_size as nat)),
            ("startTime"@, start_time@),
            ("endTime"@, end_time@),
        ],
        AlgoParams::PctVol { pct_vol, no_take_liq, start_time, end_time } => seq![
            ("noTakeLiq"@, yes_or_no(no_take_liq)),
            ("pctVol"@, pct_vol@),
            ("startTime"@, start_time@),
            ("endTime"@, end_time@),
        ],
    }
}

/// `1` for yes, `0` for no.
pub open spec fn yes_or_no(on: bool) -> Seq<char> {
    if on {
        "1"@
    } else {
        "0"@
    }
}

/// The name of a risk aversion.
pub open spec fn risk_text(r: RiskAversion) -> Seq<char> {
    match r {
        RiskAversion::GetDone => "Get Done"@,
        RiskAversion::Aggressive => "Aggressive"@,
        RiskAversion::Neutral => "Neutral"@,
        RiskAversion::Passive => "Passive"@,
    }
}

/// Names and values as fields, one behind the other, without those that have no value.
pub open spec fn pairs_of(list: Seq<(Seq<char>, Seq<char>)>) -> FieldSeq
    decreases list.len(),
{
    if list.len() == 0 {
        Seq::empty()
    } else {
        let before = pairs_of(list.drop_last());
        if list.last().1.len() > 0 {
            before.push((5958u32, list.last().0)).push((5960u32, list.last().1))
        } else {
            before
        }
    }
}

/// What a message says of an algorithm: its name, its share of the volume if it has one, and how
/// many of its parameters are set; and it ends with those.
pub open spec fn says_algo(m: FieldSeq, algo: AlgoParams) -> bool {
    &&& match algo {
        AlgoParams::Vwap { max_pct_vol, .. } => says(m, 847, "Vwap"@) && says(m, 849, max_pct_vol@),
        AlgoParams::Twap { .. } => says(m, 847, "Twap"@) && silent(m, 849),
        AlgoParams::ArrivalPx { max_pct_vol, .. } => says(m, 847, "ArrivalPx"@) && says(
            m,
            849,
            max_pct_vol@,
        ),
        AlgoParams::ClosePx { max_pct_vol, .. } => says(m, 847, "ClosePx"@) && says(
            m,
            849,
            max_pct_vol@,
        ),
        AlgoParams::DarkIce { .. } => says(m, 847, "DarkIce"@) && silent(m, 849),
        AlgoParams::PctVol { .. } => says(m, 847, "PctVol"@) && silent(m, 849),
    }
    &&& says(m, 5957, dec((pairs_of(parameters_of(algo)).len() / 2) as nat))
    &&& ends_with(m, pairs_of(parameters_of(algo)))
}

proof fn lemma_params(params: Seq<Seq<char>>, list: Seq<(Seq<char>, Seq<char>)>, k: nat)
    requires
        2 * k <= params.len(),
        k <= list.len(),
        forall|i: int|
            0 <= i < k ==> params[2 * i] == (#[trigger] list[i]).0 && params[2 * i + 1]
                == list[i].1,
    ensures
        param_fields(params, k) == pairs_of(list.take(k as int)),
        set_params(params, k) == pairs_of(list.take(k as int)).len() / 2,
        pairs_of(list.take(k as int)).len() % 2 == 0,
        forall|i: int|
            0 <= i < param_fields(params, k).len() ==> (#[trigger] param_fields(params, k)[i]).0
                == 5958 || param_fields(params, k)[i].0 == 5960,
    decreases k,
{
    if k > 0 {
        lemma_params(params, list, (k - 1) as nat);
        assert(list.take(k as int).drop_last() =~= list.take(k - 1));
        assert(list.take(k as int).last() == list[k - 1]);
    }
}

proof fn lemma_algo_said(algo: AlgoParams) -> (first: FieldSeq)
    ensures
        ({
            let x = with_algo(Seq::empty(), algo);
            &&& says_algo(x, algo)
            &&& only_extra_tags(x)
            &&& x == first + pairs_of(parameters_of(algo))
            &&& silent(pairs_of(parameters_of(algo)), 6210)
            &&& silent(pairs_of(parameters_of(algo)), 847)
        }),
{
    reveal(with_algo);
    let e = Seq::<(u32, Seq<char>)>::empty();
    let params = algo_params(algo);
    let list = parameters_of(algo);
    let n = (params.len() / 2) as nat;
    lemma_param_list(algo);
    lemma_params(params, list, n);
    assert(list.take(n as int) =~= list);
    let pairs = param_fields(params, n);
    let name = crate::engine::hot_loop::order_fields::algo_name(algo);
    let share = crate::engine::hot_loop::order_fields::max_pct_vol_of(algo);
    let count = dec(set_params(params, n));
    let s1 = add_if(e, true, 847, name);
    let s2 = match share {
        Some(v) => add_if(s1, true, 849, v),
        None => s1,
    };
    let s3 = add_if(s2, true, 5957, count);
    let x = with_algo(e, algo);
    assert(x == s3 + pairs);
    assert(s1[0] == (847u32, name));
    assert(says(s1, 847, name));
    match share {
        Some(v) => {
            lemma_added(s1, true, 849, v, 847);
            lemma_added(s2, true, 5957, count, 849);
            assert(says(s2, 849, v));
        },
        None => {
            lemma_added(s2, true, 5957, count, 849);
            assert(silent(s2, 849));
        },
    }
    assert(says(s2, 847, name));
    assert(silent(s2, 5957));
    lemma_added(s2, true, 5957, count, 847);
    lemma_added(s2, true, 5957, count, 5957);
    lemma_says_concat(s3, pairs, 847);
    lemma_says_concat(s3, pairs, 849);
    lemma_says_concat(s3, pairs, 5957);
    assert(says(s3, 847, name));
    assert(says(s3, 5957, count));
    assert(x.skip(s3.len() as int) =~= pairs);
    s3
}

pub(crate) proof fn lemma_param_list(algo: AlgoParams)
    ensures
        algo_params(algo).len() == 2 * parameters_of(algo).len(),
        forall|i: int|
            0 <= i < parameters_of(algo).len() ==> algo_params(algo)[2 * i] == (
            #[trigger] parameters_of(algo)[i]).0 && algo_params(algo)[2 * i + 1]
                == parameters_of(algo)[i].1,
{
    let l = parameters_of(algo);
    assert(l.len() <= 5);
    assert forall|i: int| 0 <= i < l.len() implies algo_params(algo)[2 * i] == (#[trigger] l[i]).0
        && algo_params(algo)[2 * i + 1] == l[i].1 by {
        if i == 0 {
        } else if i == 1 {
        } else if i == 2 {
        } else if i == 3 {
        } else {
            assert(i == 4);
        }
    }
}

proof fn lemma_algo_appended(s: FieldSeq, algo: AlgoParams)
    ensures
        with_algo(s, algo) == s + with_algo(Seq::empty(), algo),
{
    reveal(with_algo);
    assert(with_algo(s, algo) =~= s + with_algo(Seq::empty(), algo));
}

proof fn lemma_limit_fields(price: Price)
    ensures
        kind_fields(OrderKind::Limit { price }) == seq![
            (40u32, "2"@),
            (44u32, price_text(price as int)),
        ],
{
    reveal(kind_fields);
    assert(kind_fields(OrderKind::Limit { price }) =~= seq![
        (40u32, "2"@),
        (44u32, price_text(price as int)),
    ]);
}

proof fn lemma_algo_plans(c: ContextView, req: OrderRequest)
    requires
        req is SubmitAlgo,
    ensures
        match req {
            OrderRequest::SubmitAlgo { order_id, instrument, side, qty, price, algo, tif, attrs } => {
                let limit = snapped_price(price, c.market.min_ticks[instrument as int]);
                plans(c, on_grid(c, req)) == seq![algo_plan(c, order_id, instrument, side, qty, limit, algo, tif, attrs)]
            },
            _ => true,
        },
{
}

proof fn lemma_adaptive_plans(c: ContextView, req: OrderRequest)
    requires
        req is SubmitAdaptive,
    ensures
        match req {
            OrderRequest::SubmitAdaptive { order_id, instrument, side, qty, price, priority, tif, attrs } => {
                let limit = snapped_price(price, c.market.min_ticks[instrument as int]);
                plans(c, on_grid(c, req)) == seq![adaptive_plan(c, order_id, instrument, side, qty, limit, priority, tif, attrs)]
            },
            _ => true,
        },
{
}

proof fn lemma_what_if_plans(c: ContextView, req: OrderRequest)
    requires
        req is SubmitWhatIf,
    ensures
        match req {
            OrderRequest::SubmitWhatIf { order_id, instrument, side, qty, price, tif, attrs } => {
                let limit = snapped_price(price, c.market.min_ticks[instrument as int]);
                plans(c, on_grid(c, req)) == seq![what_if_plan(c, order_id, instrument, side, qty, limit, tif, attrs)]
            },
            _ => true,
        },
{
}

proof fn lemma_fractional_plans(c: ContextView, req: OrderRequest)
    requires
        req is SubmitLimitFractional,
    ensures
        match req {
            OrderRequest::SubmitLimitFractional { order_id, instrument, side, qty, price } => {
                let limit = snapped_price(price, c.market.min_ticks[instrument as int]);
                plans(c, on_grid(c, req)) == seq![fractional_plan(c, order_id, instrument, side, qty, limit)]
            },
            _ => true,
        },
{
}

proof fn lemma_benchmark_plans(c: ContextView, req: OrderRequest)
    requires
        req is SubmitPegBench,
    ensures
        match req {
            OrderRequest::SubmitPegBench { order_id, instrument, side, qty, price, ref_con_id, is_peg_decrease, pegged_change_amount, ref_change_amount } => {
                let limit = snapped_price(price, c.market.min_ticks[instrument as int]);
                plans(c, on_grid(c, req)) == seq![benchmark_plan(c, order_id, instrument, side, qty, limit, benchmark_tail(ref_con_id, is_peg_decrease, pegged_change_amount, ref_change_amount))]
            },
            _ => true,
        },
{
}

/// The message of an order that an algorithm works says that it is a limit order with the
/// algorithm's instruction, at the price that was asked for, and says the attributes and the
/// algorithm with its parameters. The order is tracked as a limit order.
pub proof fn law_algo_order_is_placed(
    c: ContextView,
    account: Seq<char>,
    now: Seq<char>,
    order_id: OrderId,
    instrument: InstrumentId,
    side: Side,
    qty: u32,
    price: Price,
    algo: AlgoParams,
    tif: u8,
    attrs: OrderAttrs,
)
    requires
        c.wf(),
        instrument < MAX_INSTRUMENTS,
    ensures
        ({
            let req = OrderRequest::SubmitAlgo {
                order_id,
                instrument,
                side,
                qty,
                price,
                algo,
                tif,
                attrs,
            };
            let limit = snapped_price(price, c.market.min_ticks[instrument as int]);
            let step = request_step(c, account, now, req);
            let m = step->Place_messages[0];
            let after = request_effect(c, req);
            &&& step is Place
            &&& step->Place_messages.len() == 1
            &&& says_common(
                m,
                c.market,
                account,
                now,
                versioned(order_id, c.version(order_id)),
                instrument,
                side,
                dec(qty as nat),
                tif_char(tif),
                false,
            )
            &&& says(m, 40, "2"@) && says(m, 44, price_text(limit as int)) && silent(m, 99)
            &&& says(m, 18, "e"@)
            &&& says_attrs(m, attrs, false)
            &&& says_algo(m, algo)
            &&& after.order(order_id) matches Some(o) && tracks_limit(
                o,
                order_id,
                instrument,
                side,
                (qty * 10_000) as i64,
                limit,
                tif,
            )
            &&& forall|other: OrderId|
                other != order_id ==> #[trigger] after.order(other) == c.order(other)
        }),
{
    let req = OrderRequest::SubmitAlgo {
        order_id,
        instrument,
        side,
        qty,
        price,
        algo,
        tif,
        attrs,
    };
    let limit = snapped_price(price, c.market.min_ticks[instrument as int]);
    let p = algo_plan(c, order_id, instrument, side, qty, limit, algo, tif, attrs);
    lemma_algo_plans(c, req);
    lemma_one_plan(c, account, now, p);
    let x = with_algo(Seq::empty(), algo);
    let a = with_attrs(Seq::empty(), attrs, true);
    let first = lemma_algo_said(algo);
    lemma_algo_appended(a, algo);
    reveal(kind_plan);
    assert(p.tail == a + x);
    lemma_worked_order(c.market, account, now, p, limit, attrs, x, tif_char(tif));
    let pairs = pairs_of(parameters_of(algo));
    assert(p.tail =~= (a + first) + pairs);
    lemma_message_ends(c.market, account, now, p, a + first, pairs);
    let msg = order_message(c.market, account, now, p);
    assert(carries(x, msg, 847) && carries(x, msg, 849) && carries(x, msg, 5957));
}

/// What a limit order with the algorithm's instruction says.
proof fn lemma_worked_order(
    m: MarketView,
    account: Seq<char>,
    now: Seq<char>,
    p: PlanView,
    limit: Price,
    attrs: OrderAttrs,
    x: FieldSeq,
    tif: char,
)
    requires
        p.kind == kind_fields(OrderKind::Limit { price: limit }).push((18u32, "e"@)),
        p.tail == with_attrs(Seq::empty(), attrs, true) + x,
        only_extra_tags(x),
        p.tif == seq![tif],
    ensures
        ({
            let msg = order_message(m, account, now, p);
            &&& says_common(
                msg,
                m,
                account,
                now,
                p.clord,
                p.order.instrument,
                p.order.side,
                p.qty,
                tif,
                p.directed,
            )
            &&& says(msg, 40, "2"@) && says(msg, 44, price_text(limit as int)) && silent(msg, 99)
            &&& says(msg, 18, "e"@)
            &&& says_attrs(msg, attrs, false)
            &&& forall|tag: u32|
                #![trigger carries(x, msg, tag)]
                is_extra_tag(tag) ==> carries(x, msg, tag)
        }),
{
    let k = p.kind;
    let a = with_attrs(Seq::empty(), attrs, true);
    let msg = order_message(m, account, now, p);
    lemma_limit_fields(limit);
    assert(k.len() == 3);
    assert(k[0] == (40u32, "2"@));
    assert(k[1] == (44u32, price_text(limit as int)));
    assert(k[2] == (18u32, "e"@));
    lemma_one_field(k, 0, 40, "2"@);
    lemma_one_field(k, 1, 44, price_text(limit as int));
    lemma_one_field(k, 2, 18, "e"@);
    lemma_attr_tags(attrs, true);
    lemma_attrs_said(attrs, true);
    assert(p.kind + p.tail =~= k + a + x);
    lemma_parts_carry(m, account, now, p, k, a, x, tif);
    assert(carries(k, msg, 40) && carries(k, msg, 44) && carries(k, msg, 99) && carries(
        k,
        msg,
        18,
    ));
    assert(silent(k, 99));
    lemma_attrs_carried(a, msg, attrs, false);
}

/// The message of an adaptive order says that it is a limit order with the algorithm's
/// instruction, at the price that was asked for, and says the attributes and how eager it is.
/// The order is tracked as a limit order.
pub proof fn law_adaptive_order_is_placed(
    c: ContextView,
    account: Seq<char>,
    now: Seq<char>,
    order_id: OrderId,
    instrument: InstrumentId,
    side: Side,
    qty: u32,
    price: Price,
    priority: AdaptivePriority,
    tif: u8,
    attrs: OrderAttrs,
)
    requires
        c.wf(),
        instrument < MAX_INSTRUMENTS,
    ensures
        ({
            let req = OrderRequest::SubmitAdaptive {
                order_id,
                instrument,
                side,
                qty,
                price,
                priority,
                tif,
                attrs,
            };
            let limit = snapped_price(price, c.market.min_ticks[instrument as int]);
            let step = request_step(c, account, now, req);
            let m = step->Place_messages[0];
            let after = request_effect(c, req);
            &&& step is Place
            &&& step->Place_messages.len() == 1
            &&& says_common(
                m,
                c.market,
                account,
                now,
                versioned(order_id, c.version(order_id)),
                instrument,
                side,
                dec(qty as nat),
                tif_char(tif),
                false,
            )
            &&& says(m, 40, "2"@) && says(m, 44, price_text(limit as int)) && silent(m, 99)
            &&& says(m, 18, "e"@)
            &&& says_attrs(m, attrs, false)
            &&& says(m, 847, "Adaptive"@)
            &&& says(m, 5957, "1"@)
            &&& says(m, 5958, "adaptivePriority"@)
            &&& priority == AdaptivePriority::Patient ==> says(m, 5960, "Patient"@)
            &&& priority == AdaptivePriority::Normal ==> says(m, 5960, "Normal"@)
            &&& priority == AdaptivePriority::Urgent ==> says(m, 5960, "Urgent"@)
            &&& after.order(order_id) matches Some(o) && tracks_limit(
                o,
                order_id,
                instrument,
                side,
                (qty * 10_000) as i64,
                limit,
                tif,
            )
            &&& forall|other: OrderId|
                other != order_id ==> #[trigger] after.order(other) == c.order(other)
        }),
{
    let req = OrderRequest::SubmitAdaptive {
        order_id,
        instrument,
        side,
        qty,
        price,
        priority,
        tif,
        attrs,
    };
    let limit = snapped_price(price, c.market.min_ticks[instrument as int]);
    let p = adaptive_plan(c, order_id, instrument, side, qty, limit, priority, tif, attrs);
    lemma_adaptive_plans(c, req);
    lemma_one_plan(c, account, now, p);
    reveal(kind_plan);
    lemma_adaptive_message(c, account, now, p, limit, priority, tif, attrs);
}

proof fn lemma_adaptive_message(
    c: ContextView,
    account: Seq<char>,
    now: Seq<char>,
    p: PlanView,
    limit: Price,
    priority: AdaptivePriority,
    tif: u8,
    attrs: OrderAttrs,
)
    requires
        p.kind == kind_fields(OrderKind::Limit { price: limit }).push((18u32, "e"@)),
        p.tail == adaptive_tail(attrs, priority),
        p.tif == seq![tif_char(tif)],
    ensures
        ({
            let msg = order_message(c.market, account, now, p);
            &&& says_common(
                msg,
                c.market,
                account,
                now,
                p.clord,
                p.order.instrument,
                p.order.side,
                p.qty,
                tif_char(tif),
                p.directed,
            )
            &&& says(msg, 40, "2"@) && says(msg, 44, price_text(limit as int)) && silent(msg, 99)
            &&& says(msg, 18, "e"@)
            &&& says_attrs(msg, attrs, false)
            &&& says(msg, 847, "Adaptive"@)
            &&& says(msg, 5957, "1"@)
            &&& says(msg, 5958, "adaptivePriority"@)
            &&& says(msg, 5960, crate::engine::order::priority_name(priority))
        }),
{
    let name = crate::engine::order::priority_name(priority);
    let x = seq![
        (847u32, "Adaptive"@),
        (5957u32, "1"@),
        (5958u32, "adaptivePriority"@),
        (5960u32, name),
    ];
    let a = with_attrs(Seq::empty(), attrs, true);
    assert(p.tail =~= a + x);
    assert(x.len() == 4);
    assert(x[0].0 == 847 && x[1].0 == 5957 && x[2].0 == 5958 && x[3].0 == 5960);
    lemma_one_field(x, 0, 847, "Adaptive"@);
    lemma_one_field(x, 1, 5957, "1"@);
    lemma_one_field(x, 2, 5958, "adaptivePriority"@);
    lemma_one_field(x, 3, 5960, name);
    lemma_worked_order(c.market, account, now, p, limit, attrs, x, tif_char(tif));
    let msg = order_message(c.market, account, now, p);
    assert(carries(x, msg, 847));
    assert(carries(x, msg, 5957));
    assert(carries(x, msg, 5958));
    assert(carries(x, msg, 5960));
}

/// The message of an order pegged to a benchmark says the price, the contract it follows, in
/// which direction, and by how much for how much. The order is tracked at its price.
pub proof fn law_benchmark_order_is_placed(
    c: ContextView,
    account: Seq<char>,
    now: Seq<char>,
    order_id: OrderId,
    instrument: InstrumentId,
    side: Side,
    qty: u32,
    price: Price,
    ref_con_id: u32,
    is_peg_decrease: bool,
    pegged_change_amount: Price,
    ref_change_amount: Price,
)
    requires
        c.wf(),
        instrument < MAX_INSTRUMENTS,
    ensures
        ({
            let req = OrderRequest::SubmitPegBench {
                order_id,
                instrument,
                side,
                qty,
                price,
                ref_con_id,
                is_peg_decrease,
                pegged_change_amount,
                ref_change_amount,
            };
            let limit = snapped_price(price, c.market.min_ticks[instrument as int]);
            let step = request_step(c, account, now, req);
            let m = step->Place_messages[0];
            let after = request_effect(c, req);
            &&& step is Place
            &&& step->Place_messages.len() == 1
            &&& says_common(
                m,
                c.market,
                account,
                now,
                versioned(order_id, c.version(order_id)),
                instrument,
                side,
                dec(qty as nat),
                '0',
                false,
            )
            &&& says(m, 40, "PB"@) && says(m, 44, price_text(limit as int)) && silent(m, 99)
            &&& says(m, 6941, dec(ref_con_id as nat))
            &&& says(m, 6938, yes_or_no(is_peg_decrease))
            &&& says(m, 6939, price_text(pegged_change_amount as int))
            &&& says(m, 6942, price_text(ref_change_amount as int))
            &&& after.order(order_id) matches Some(o) && tracks_limit(
                o,
                order_id,
                instrument,
                side,
                (qty * 10_000) as i64,
                limit,
                48,
            )
            &&& forall|other: OrderId|
                other != order_id ==> #[trigger] after.order(other) == c.order(other)
        }),
{
    let req = OrderRequest::SubmitPegBench {
        order_id,
        instrument,
        side,
        qty,
        price,
        ref_con_id,
        is_peg_decrease,
        pegged_change_amount,
        ref_change_amount,
    };
    let limit = snapped_price(price, c.market.min_ticks[instrument as int]);
    let x = benchmark_tail(ref_con_id, is_peg_decrease, pegged_change_amount, ref_change_amount);
    let p = benchmark_plan(c, order_id, instrument, side, qty, limit, x);
    lemma_benchmark_plans(c, req);
    lemma_one_plan(c, account, now, p);
    reveal(kind_plan);
    lemma_benchmark_message(
        c,
        account,
        now,
        p,
        limit,
        ref_con_id,
        is_peg_decrease,
        pegged_change_amount,
        ref_change_amount,
    );
}

proof fn lemma_benchmark_message(
    c: ContextView,
    account: Seq<char>,
    now: Seq<char>,
    p: PlanView,
    limit: Price,
    ref_con_id: u32,
    is_peg_decrease: bool,
    pegged_change_amount: Price,
    ref_change_amount: Price,
)
    requires
        p.kind == seq![(40u32, "PB"@), (44u32, price_text(limit as int))],
        p.tail == benchmark_tail(
            ref_con_id,
            is_peg_decrease,
            pegged_change_amount,
            ref_change_amount,
        ),
        p.tif == seq!['0'],
    ensures
        ({
            let msg = order_message(c.market, account, now, p);
            &&& says_common(
                msg,
                c.market,
                account,
                now,
                p.clord,
                p.order.instrument,
                p.order.side,
                p.qty,
                '0',
                p.directed,
            )
            &&& says(msg, 40, "PB"@) && says(msg, 44, price_text(limit as int)) && silent(msg, 99)
            &&& says(msg, 6941, dec(ref_con_id as nat))
            &&& says(msg, 6938, yes_or_no(is_peg_decrease))
            &&& says(msg, 6939, price_text(pegged_change_amount as int))
            &&& says(msg, 6942, price_text(ref_change_amount as int))
        }),
{
    let x = p.tail;
    let k = p.kind;
    let none = Seq::<(u32, Seq<char>)>::empty();
    assert(k[0] == (40u32, "PB"@) && k[1] == (44u32, price_text(limit as int)) && k.len() == 2);
    lemma_one_field(k, 0, 40, "PB"@);
    lemma_one_field(k, 1, 44, price_text(limit as int));
    assert(x.len() == 4);
    assert(x[0].0 == 6941 && x[1].0 == 6938 && x[2].0 == 6939 && x[3].0 == 6942);
    lemma_one_field(x, 0, 6941, x[0].1);
    lemma_one_field(x, 1, 6938, x[1].1);
    lemma_one_field(x, 2, 6939, x[2].1);
    lemma_one_field(x, 3, 6942, x[3].1);
    assert(p.kind + p.tail =~= k + none + x);
    lemma_parts_carry(c.market, account, now, p, k, none, x, '0');
    let msg = order_message(c.market, account, now, p);
    assert(carries(k, msg, 40) && carries(k, msg, 44) && carries(k, msg, 99));
    assert(silent(k, 99));
    assert(carries(x, msg, 6941) && carries(x, msg, 6938) && carries(x, msg, 6939) && carries(
        x,
        msg,
        6942,
    ));
}

/// The message of a preview says the limit order that it previews, with its attributes, and that
/// it is a preview. The order is tracked at its price.
pub proof fn law_preview_is_asked_for(
    c: ContextView,
    account: Seq<char>,
    now: Seq<char>,
    order_id: OrderId,
    instrument: InstrumentId,
    side: Side,
    qty: u32,
    price: Price,
    tif: u8,
    attrs: OrderAttrs,
)
    requires
        c.wf(),
        instrument < MAX_INSTRUMENTS,
    ensures
        ({
            let req = OrderRequest::SubmitWhatIf {
                order_id,
                instrument,
                side,
                qty,
                price,
                tif,
                attrs,
            };
            let limit = snapped_price(price, c.market.min_ticks[instrument as int]);
            let step = request_step(c, account, now, req);
            let m = step->Place_messages[0];
            let after = request_effect(c, req);
            &&& step is Place
            &&& step->Place_messages.len() == 1
            &&& says_common(
                m,
                c.market,
                account,
                now,
                versioned(order_id, c.version(order_id)),
                instrument,
                side,
                dec(qty as nat),
                tif_char(tif),
                false,
            )
            &&& says(m, 40, "2"@) && says(m, 44, price_text(limit as int)) && silent(m, 99)
            &&& says(m, 6091, "1"@)
            &&& says_attrs(m, attrs, true)
            &&& after.order(order_id) matches Some(o) && tracks_limit(
                o,
                order_id,
                instrument,
                side,
                (qty * 10_000) as i64,
                limit,
                tif,
            )
            &&& forall|other: OrderId|
                other != order_id ==> #[trigger] after.order(other) == c.order(other)
        }),
{
    let req = OrderRequest::SubmitWhatIf { order_id, instrument, side, qty, price, tif, attrs };
    let limit = snapped_price(price, c.market.min_ticks[instrument as int]);
    let p = what_if_plan(c, order_id, instrument, side, qty, limit, tif, attrs);
    lemma_what_if_plans(c, req);
    lemma_one_plan(c, account, now, p);
    reveal(kind_plan);
    lemma_preview_message(c, account, now, p, limit, tif, attrs);
}

proof fn lemma_preview_message(
    c: ContextView,
    account: Seq<char>,
    now: Seq<char>,
    p: PlanView,
    limit: Price,
    tif: u8,
    attrs: OrderAttrs,
)
    requires
        p.kind == kind_fields(OrderKind::Limit { price: limit }),
        p.tail == with_attrs(
            Seq::<(u32, Seq<char>)>::empty().push((6091u32, "1"@)),
            attrs,
            false,
        ),
        p.tif == seq![tif_char(tif)],
    ensures
        ({
            let msg = order_message(c.market, account, now, p);
            &&& says_common(
                msg,
                c.market,
                account,
                now,
                p.clord,
                p.order.instrument,
                p.order.side,
                p.qty,
                tif_char(tif),
                p.directed,
            )
            &&& says(msg, 40, "2"@) && says(msg, 44, price_text(limit as int)) && silent(msg, 99)
            &&& says(msg, 6091, "1"@)
            &&& says_attrs(msg, attrs, true)
        }),
{
    let k = p.kind;
    let mark = Seq::<(u32, Seq<char>)>::empty().push((6091u32, "1"@));
    let a = with_attrs(Seq::empty(), attrs, false);
    lemma_attrs_append(mark, attrs, false);
    lemma_limit_fields(limit);
    assert(k[0] == (40u32, "2"@) && k[1] == (44u32, price_text(limit as int)) && k.len() == 2);
    lemma_one_field(k, 0, 40, "2"@);
    lemma_one_field(k, 1, 44, price_text(limit as int));
    lemma_attr_tags(attrs, false);
    lemma_attrs_said(attrs, false);
    let msg = order_message(c.market, account, now, p);
    let own = p.kind + p.tail;
    assert(own =~= k + mark + a);
    assert(mark[0] == (6091u32, "1"@));
    lemma_one_field(mark, 0, 6091, "1"@);
    assert forall|i: int| 0 <= i < own.len() implies !is_common_tag((#[trigger] own[i]).0) by {
        if i < 2 {
            assert(own[i] == k[i]);
        } else if i == 2 {
            assert(own[i] == mark[0]);
        } else {
            assert(own[i] == a[i - 3]);
        }
    }
    lemma_order_message(c.market, account, now, p, tif_char(tif));
    lemma_message_carries(c.market, account, now, p);
    assert forall|tag: u32| #![trigger carries(a, msg, tag)] is_attr_tag(tag) implies carries(
        a,
        msg,
        tag,
    ) by {
        assert(silent(k, tag) && silent(mark, tag));
        lemma_carry(k, mark, a, msg, own, tag);
    }
    assert(silent(a, 40) && silent(a, 44) && silent(a, 99) && silent(a, 6091));
    lemma_carry(k, mark, a, msg, own, 40);
    lemma_carry(k, mark, a, msg, own, 44);
    lemma_carry(k, mark, a, msg, own, 99);
    lemma_carry(k, mark, a, msg, own, 6091);
    assert(silent(k, 99) && silent(k, 6091));
    lemma_attrs_carried(a, msg, attrs, true);
}

/// The message of an order for a quantity that need not be whole says that quantity, in decimal
/// notation, and the price. The order is tracked with that quantity.
pub proof fn law_fractional_order_is_placed(
    c: ContextView,
    account: Seq<char>,
    now: Seq<char>,
    order_id: OrderId,
    instrument: InstrumentId,
    side: Side,
    qty: Qty,
    price: Price,
)
    requires
        c.wf(),
        instrument < MAX_INSTRUMENTS,
    ensures
        ({
            let req = OrderRequest::SubmitLimitFractional {
                order_id,
                instrument,
                side,
                qty,
                price,
            };
            let limit = snapped_price(price, c.market.min_ticks[instrument as int]);
            let step = request_step(c, account, now, req);
            let m = step->Place_messages[0];
            let after = request_effect(c, req);
            &&& step is Place
            &&& step->Place_messages.len() == 1
            &&& says_common(
                m,
                c.market,
                account,
                now,
                versioned(order_id, c.version(order_id)),
                instrument,
                side,
                qty_text(qty as int),
                '0',
                false,
            )
            &&& says(m, 40, "2"@) && says(m, 44, price_text(limit as int)) && silent(m, 99)
            &&& after.order(order_id) matches Some(o) && tracks_limit(
                o,
                order_id,
                instrument,
                side,
                qty,
                limit,
                48,
            )
            &&& forall|other: OrderId|
                other != order_id ==> #[trigger] after.order(other) == c.order(other)
        }),
{
    let req = OrderRequest::SubmitLimitFractional { order_id, instrument, side, qty, price };
    let limit = snapped_price(price, c.market.min_ticks[instrument as int]);
    let p = fractional_plan(c, order_id, instrument, side, qty, limit);
    lemma_fractional_plans(c, req);
    lemma_one_plan(c, account, now, p);
    reveal(kind_plan);
    lemma_limit_message(c, account, now, p, limit);
}

proof fn lemma_limit_message(
    c: ContextView,
    account: Seq<char>,
    now: Seq<char>,
    p: PlanView,
    limit: Price,
)
    requires
        p.kind == kind_fields(OrderKind::Limit { price: limit }),
        p.tail == Seq::<(u32, Seq<char>)>::empty(),
        p.tif == seq!['0'],
    ensures
        ({
            let msg = order_message(c.market, account, now, p);
            &&& says_common(
                msg,
                c.market,
                account,
                now,
                p.clord,
                p.order.instrument,
                p.order.side,
                p.qty,
                '0',
                p.directed,
            )
            &&& says(msg, 40, "2"@) && says(msg, 44, price_text(limit as int)) && silent(msg, 99)
        }),
{
    let k = p.kind;
    let none = Seq::<(u32, Seq<char>)>::empty();
    lemma_limit_fields(limit);
    assert(k[0] == (40u32, "2"@) && k[1] == (44u32, price_text(limit as int)) && k.len() == 2);
    lemma_one_field(k, 0, 40, "2"@);
    lemma_one_field(k, 1, 44, price_text(limit as int));
    assert(p.kind + p.tail =~= k + none + none);
    lemma_parts_carry(c.market, account, now, p, k, none, none, '0');
    let msg = order_message(c.market, account, now, p);
    assert(carries(k, msg, 40) && carries(k, msg, 44) && carries(k, msg, 99));
    assert(silent(k, 99));
}

} // verus!
