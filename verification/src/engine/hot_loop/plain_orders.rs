//! Plain orders: the short form of an order's messages, for stocks at the smart router, without
//! a contract's number and without versions.
use vstd::prelude::*;

use crate::calendar::{time_text, unix_to_ib_datetime};
use crate::engine::context::{law_put_then_find, open_orders, Context, ContextView};
use crate::engine::hot_loop::order_builder::field_lists;
use crate::engine::hot_loop::order_fields::{
    add_if, algo_name, algo_params, build_algo_tags, condition_strings, conditions_texts,
    exit_side, fix_side, max_pct_vol_of, record_of, side_code, tif_str, tif_text, tracked_as,
    FieldSeq,
};
use crate::engine::hot_loop::order_plans::{field_if, one_if};
use crate::engine::order::{
    new_order, priority_name, AlgoParams, Order, OrderAttrs, OrderRequest, Side,
};
use crate::protocol::fix::{Fields, TAG_MSG_TYPE, TAG_SENDING_TIME};
use crate::text::{dec, format_uint, join, string_texts};
use crate::types::{
    format_price, price_text, InstrumentId, OrderId, Price, MAX_INSTRUMENTS, ORD_MIDPX,
    ORD_PEG_BENCH, ORD_PEG_MID, ORD_PEG_MKT, ORD_SNAP_MID, ORD_SNAP_MKT, ORD_SNAP_PRI, ORD_STP_PRT,
    ORD_WHAT_IF,
};

verus! {

// ---------------------------------------------------------------------------------------
// New orders
// ---------------------------------------------------------------------------------------

/// An order in its plain form: what is remembered of it, its quantity, its type, its prices,
/// its time in force, whether it goes to a named exchange, and what else is said of it.
pub struct PlainOrder {
    pub order: Order,
    pub qty: u32,
    pub code: String,
    pub prices: Fields,
    pub tif: String,
    pub directed: bool,
    pub tail: Fields,
}

/// What a [`PlainOrder`] holds.
pub ghost struct PlainView {
    pub order: Order,
    pub qty: u32,
    pub code: Seq<char>,
    pub prices: FieldSeq,
    pub tif: Seq<char>,
    pub directed: bool,
    pub tail: FieldSeq,
}

impl View for PlainOrder {
    type V = PlainView;

    open spec fn view(&self) -> PlainView {
        PlainView {
            order: self.order,
            qty: self.qty,
            code: self.code@,
            prices: self.prices@,
            tif: self.tif@,
            directed: self.directed,
            tail: self.tail@,
        }
    }
}

/// What the plain orders of a list hold.
pub open spec fn plain_views(v: Seq<PlainOrder>) -> Seq<PlainView> {
    v.map_values(|p: PlainOrder| p@)
}

/// No fields.
pub open spec fn no_fields() -> FieldSeq {
    Seq::empty()
}

/// A limit price.
pub open spec fn limit_field(price: Price) -> FieldSeq {
    seq![(44u32, price_text(price as int))]
}

/// A stop price, or an amount that stands in its place.
pub open spec fn stop_field(price: Price) -> FieldSeq {
    seq![(99u32, price_text(price as int))]
}

/// A limit price and a stop price.
pub open spec fn both_fields(price: Price, stop: Price) -> FieldSeq {
    seq![(44u32, price_text(price as int)), (99u32, price_text(stop as int))]
}

fn limit_fields(price: Price) -> (r: Fields)
    ensures
        r@ == limit_field(price),
{
    let mut f = Fields::new();
    f.put(44, format_price(price));
    proof {
        assert(f@ =~= limit_field(price));
    }
    f
}

fn stop_fields(price: Price) -> (r: Fields)
    ensures
        r@ == stop_field(price),
{
    let mut f = Fields::new();
    f.put(99, format_price(price));
    proof {
        assert(f@ =~= stop_field(price));
    }
    f
}

fn limit_stop_fields(price: Price, stop: Price) -> (r: Fields)
    ensures
        r@ == both_fields(price, stop),
{
    let mut f = Fields::new();
    f.put(44, format_price(price));
    f.put(99, format_price(stop));
    proof {
        assert(f@ =~= both_fields(price, stop));
    }
    f
}

/// A trailing percentage, in hundredths of a percent.
pub open spec fn trail_pct_field(pct: u32) -> FieldSeq {
    seq![(6268u32, dec(pct as nat))]
}

fn trail_pct_fields(pct: u32) -> (r: Fields)
    ensures
        r@ == trail_pct_field(pct),
{
    let mut f = Fields::new();
    f.put_uint(6268, pct as u64);
    proof {
        assert(f@ =~= trail_pct_field(pct));
    }
    f
}

/// That an order may be filled outside regular hours.
pub open spec fn outside_field(on: bool) -> FieldSeq {
    one_if(on, 6433, "1"@)
}

/// A price under a tag, if it is positive.
pub open spec fn price_if_set(tag: u32, price: Price) -> FieldSeq {
    one_if(price > 0, tag, price_text(price as int))
}

fn price_fields_if_set(tag: u32, price: Price) -> (r: Fields)
    ensures
        r@ == price_if_set(tag, price),
{
    if price > 0 {
        field_if(true, tag, format_price(price).as_str())
    } else {
        Fields::new()
    }
}

/// What marks an order as pegged to the midpoint, and its offset.
pub open spec fn midpoint_tail(offset: Price) -> FieldSeq {
    seq![(8403u32, "0.0"@), (8404u32, "0.0"@)] + price_if_set(211, offset)
}

fn midpoint_fields(offset: Price) -> (r: Fields)
    ensures
        r@ == midpoint_tail(offset),
{
    let mut f = Fields::new();
    f.put_str(8403, "0.0");
    f.put_str(8404, "0.0");
    let rest = price_fields_if_set(211, offset);
    f.put_all(&rest);
    proof {
        assert(f@ =~= midpoint_tail(offset));
    }
    f
}

/// What makes an order adaptive.
pub open spec fn plain_adaptive_tail(priority: Seq<char>) -> FieldSeq {
    seq![
        (847u32, "Adaptive"@),
        (5957u32, "1"@),
        (5958u32, "adaptivePriority"@),
        (5960u32, priority),
    ]
}

fn plain_adaptive_fields(priority: &str) -> (r: Fields)
    ensures
        r@ == plain_adaptive_tail(priority@),
{
    let mut f = Fields::new();
    f.put_str(847, "Adaptive");
    f.put_str(5957, "1");
    f.put_str(5958, "adaptivePriority");
    f.put_str(5960, priority);
    proof {
        assert(f@ =~= plain_adaptive_tail(priority@));
    }
    f
}

/// The first `k` pairs of names and values of a list.
pub open spec fn pair_fields(params: Seq<Seq<char>>, k: nat) -> FieldSeq
    decreases k,
{
    if k == 0 {
        Seq::empty()
    } else {
        pair_fields(params, (k - 1) as nat).push((5958u32, params[2 * (k - 1)])).push(
            (5960u32, params[2 * (k - 1) + 1]),
        )
    }
}

/// What makes an order follow an algorithm: its name, the share of the volume, and all its
/// parameters.
pub open spec fn plain_algo_tail(algo: AlgoParams) -> FieldSeq {
    let params = algo_params(algo);
    let named = seq![(847u32, algo_name(algo))];
    let limited = match max_pct_vol_of(algo) {
        Some(v) => add_if(named, v.len() > 0, 849, v),
        None => named,
    };
    limited.push((5957u32, dec(params.len() / 2))) + pair_fields(params, params.len() / 2)
}

fn plain_algo_fields(algo: &AlgoParams) -> (r: Fields)
    ensures
        r@ == plain_algo_tail(*algo),
{
    let (name, params) = build_algo_tags(algo);
    let ghost p = algo_params(*algo);
    let mut f = Fields::new();
    f.put_str(847, name);
    proof {
        assert(f@ =~= seq![(847u32, algo_name(*algo))]);
        assert(p.len() == params@.len());
    }
    match algo {
        AlgoParams::Vwap { max_pct_vol, .. } => {
            if !max_pct_vol.as_str().is_empty() {
                f.put_str(849, max_pct_vol.as_str());
            }
        },
        AlgoParams::ArrivalPx { max_pct_vol, .. } => {
            if !max_pct_vol.as_str().is_empty() {
                f.put_str(849, max_pct_vol.as_str());
            }
        },
        AlgoParams::ClosePx { max_pct_vol, .. } => {
            if !max_pct_vol.as_str().is_empty() {
                f.put_str(849, max_pct_vol.as_str());
            }
        },
        _ => {},
    }
    let total: usize = params.len();
    let n: usize = total / 2;
    f.put_uint(5957, n as u64);
    let ghost start = f@;
    let mut i: usize = 0;
    proof {
        assert(f@ =~= start + pair_fields(p, 0));
    }
    while i < n
        invariant
            i <= n,
            2 * n <= total,
            total == params@.len(),
            p == string_texts(params@),
            f@ == start + pair_fields(p, i as nat),
        decreases n - i,
    {
        proof {
            assert(p[2 * i] == params@[2 * i]@);
            assert(p[2 * i + 1] == params@[2 * i + 1]@);
        }
        f.put_str(5958, params[2 * i].as_str());
        f.put_str(5960, params[2 * i + 1].as_str());
        i = i + 1;
        proof {
            assert(f@ =~= start + pair_fields(p, i as nat));
        }
    }
    f
}

/// The tags of one condition.
pub open spec fn plain_condition_tags() -> Seq<u32> {
    seq![6222u32, 6137, 6126, 6123, 6124, 6127, 6125, 6223, 6245, 6263, 6246]
}

/// The fields of the first `k` conditions of a list of texts, with eleven texts each.
pub open spec fn plain_conditions(texts: Seq<Seq<char>>, k: nat) -> FieldSeq {
    Seq::new(11 * k, |j: int| (plain_condition_tags()[j % 11], texts[j]))
}

/// The attributes of an order.
pub open spec fn plain_attrs(a: OrderAttrs) -> FieldSeq {
    let s0 = Seq::empty();
    let s1 = add_if(s0, a.display_size > 0, 111, dec(a.display_size as nat));
    let s2 = add_if(s1, a.min_qty > 0, 110, dec(a.min_qty as nat));
    let s3 = add_if(s2, a.outside_rth, 6433, "1"@);
    let s4 = add_if(s3, a.hidden, 6135, "1"@);
    let s5 = add_if(s4, a.good_after > 0, 168, time_text(a.good_after as nat, ' '));
    let s6 = add_if(s5, a.good_till > 0, 126, time_text(a.good_till as nat, ' '));
    let s7 = if a.oca_group > 0 {
        s6.push((583u32, "OCA_"@ + dec(a.oca_group as nat))).push(
            (6209u32, "CancelOnFillWBlock"@),
        )
    } else {
        s6
    };
    let s8 = add_if(s7, a.discretionary_amt > 0, 9813, price_text(a.discretionary_amt as int));
    let s9 = add_if(s8, a.sweep_to_fill, 6102, "1"@);
    let s10 = add_if(s9, a.all_or_none, 18, "G"@);
    add_if(s10, a.trigger_method > 0, 6115, dec(a.trigger_method as nat))
}

/// The conditions of an order: how many there are, what they do, and each of them, with its
/// exchange as it is.
pub open spec fn plain_condition_block(a: OrderAttrs) -> FieldSeq {
    let n = a.conditions@.len();
    if n == 0 {
        Seq::empty()
    } else {
        let s0 = seq![(6136u32, dec(n))];
        let s1 = add_if(s0, a.conditions_cancel_order, 6128, "1"@);
        let s2 = add_if(s1, a.conditions_ignore_rth, 6151, "1"@);
        s2 + plain_conditions(conditions_texts(a.conditions@, n, false), n)
    }
}

fn put_plain_attrs(f: &mut Fields, a: &OrderAttrs)
    requires
        old(f)@ == Seq::<(u32, Seq<char>)>::empty(),
    ensures
        final(f)@ == plain_attrs(*a),
{
    if a.display_size > 0 {
        f.put_uint(111, a.display_size as u64);
    }
    if a.min_qty > 0 {
        f.put_uint(110, a.min_qty as u64);
    }
    if a.outside_rth {
        f.put_str(6433, "1");
    }
    if a.hidden {
        f.put_str(6135, "1");
    }
    if a.good_after > 0 {
        f.put(168, unix_to_ib_datetime(a.good_after as u64));
    }
    if a.good_till > 0 {
        f.put(126, unix_to_ib_datetime(a.good_till as u64));
    }
    if a.oca_group > 0 {
        f.put(583, join("OCA_", format_uint(a.oca_group).as_str()));
        f.put_str(6209, "CancelOnFillWBlock");
    }
    if a.discretionary_amt > 0 {
        f.put(9813, format_price(a.discretionary_amt));
    }
    if a.sweep_to_fill {
        f.put_str(6102, "1");
    }
    if a.all_or_none {
        f.put_str(18, "G");
    }
    if a.trigger_method > 0 {
        f.put_uint(6115, a.trigger_method as u64);
    }
}

fn plain_tag(k: usize) -> (r: u32)
    requires
        k < 11,
    ensures
        r == plain_condition_tags()[k as int],
{
    let tags: [u32; 11] = [6222, 6137, 6126, 6123, 6124, 6127, 6125, 6223, 6245, 6263, 6246];
    proof {
        assert(tags@ =~= plain_condition_tags());
    }
    tags[k]
}

fn plain_condition_fields(a: &OrderAttrs) -> (r: Fields)
    ensures
        r@ == plain_condition_block(*a),
{
    let mut f = Fields::new();
    let n: usize = a.conditions.len();
    if n == 0 {
        return f;
    }
    let strings = condition_strings(a.conditions.as_slice(), false);
    let ghost texts = conditions_texts(a.conditions@, n as nat, false);
    let ghost all = string_texts(strings@);
    proof {
        crate::engine::hot_loop::order_fields::lemma_conditions_len(
            a.conditions@,
            n as nat,
            false,
        );
        assert(all == seq![dec(n as nat)] + texts);
        assert(all.len() == strings@.len());
        assert(all[0] == strings@[0]@);
    }
    f.put_str(6136, strings[0].as_str());
    if a.conditions_cancel_order {
        f.put_str(6128, "1");
    }
    if a.conditions_ignore_rth {
        f.put_str(6151, "1");
    }
    let ghost start = f@;
    let total: usize = strings.len() - 1;
    let mut j: usize = 0;
    let mut k: usize = 0;
    proof {
        assert(f@ =~= start + plain_conditions(texts, 0));
    }
    while j < total
        invariant
            j <= total,
            k == j % 11,
            total == 11 * n,
            total + 1 == strings@.len(),
            texts.len() == total,
            all == string_texts(strings@),
            all == seq![dec(n as nat)] + texts,
            f@ == start + plain_conditions(texts, n as nat).take(j as int),
        decreases total - j,
    {
        proof {
            assert(all[j + 1] == strings@[j + 1]@);
            assert(all[j + 1] == texts[j as int]);
        }
        f.put_str(plain_tag(k), strings[j + 1].as_str());
        proof {
            let want = plain_conditions(texts, n as nat);
            assert(want[j as int] == (plain_condition_tags()[j as int % 11], texts[j as int]));
            assert(f@ =~= start + want.take(j + 1));
            assert((j + 1) % 11 == (if k == 10 {
                0int
            } else {
                k + 1
            }));
        }
        j = j + 1;
        k = if k == 10 {
            0
        } else {
            k + 1
        };
    }
    proof {
        let want = plain_conditions(texts, n as nat);
        assert(want.take(j as int) =~= want);
        let s0 = seq![(6136u32, dec(n as nat))];
        assert(Seq::<(u32, Seq<char>)>::empty().push((6136u32, dec(n as nat))) =~= s0);
    }
    f
}

fn plain_attr_fields(a: &OrderAttrs) -> (r: Fields)
    ensures
        r@ == plain_attrs(*a) + plain_condition_block(*a),
{
    let mut f = Fields::new();
    put_plain_attrs(&mut f, a);
    let rest = plain_condition_fields(a);
    f.put_all(&rest);
    f
}

/// Puts a plain order together.
fn plain(
    order: Order,
    qty: u32,
    code: &str,
    prices: Fields,
    directed: bool,
    tail: Fields,
) -> (r: PlainOrder)
    ensures
        r@ == (PlainView {
            order,
            qty,
            code: code@,
            prices: prices@,
            tif: tif_text(order.tif),
            directed,
            tail: tail@,
        }),
{
    PlainOrder { order, qty, code: code.to_owned(), prices, tif: tif_str(order.tif), directed, tail }
}

/// The plain form of the orders with a limit price alone.
#[verifier::opaque]
pub open spec fn limit_form(req: OrderRequest) -> Option<PlainView> {
    match req {
        OrderRequest::SubmitLimit { order_id, instrument, side, qty, price } => Some(
            PlainView {
                order: new_order(order_id, instrument, side, qty, price, 50, 48, 0),
                qty,
                code: "2"@,
                prices: limit_field(price),
                tif: tif_text(48),
                directed: false,
                tail: no_fields(),
            },
        ),
        OrderRequest::SubmitLimitGtc { order_id, instrument, side, qty, price, outside_rth } => Some(
            PlainView {
                order: new_order(order_id, instrument, side, qty, price, 50, 49, 0),
                qty,
                code: "2"@,
                prices: limit_field(price),
                tif: tif_text(49),
                directed: false,
                tail: outside_field(outside_rth),
            },
        ),
        OrderRequest::SubmitLimitEx { order_id, instrument, side, qty, price, tif, attrs } => Some(
            PlainView {
                order: new_order(order_id, instrument, side, qty, price, 50, tif, 0),
                qty,
                code: "2"@,
                prices: limit_field(price),
                tif: tif_text(tif),
                directed: false,
                tail: plain_attrs(attrs) + plain_condition_block(attrs),
            },
        ),
        OrderRequest::SubmitLimitIoc { order_id, instrument, side, qty, price } => Some(
            PlainView {
                order: new_order(order_id, instrument, side, qty, price, 50, 51, 0),
                qty,
                code: "2"@,
                prices: limit_field(price),
                tif: tif_text(51),
                directed: false,
                tail: no_fields(),
            },
        ),
        OrderRequest::SubmitLimitFok { order_id, instrument, side, qty, price } => Some(
            PlainView {
                order: new_order(order_id, instrument, side, qty, price, 50, 52, 0),
                qty,
                code: "2"@,
                prices: limit_field(price),
                tif: tif_text(52),
                directed: false,
                tail: no_fields(),
            },
        ),
        OrderRequest::SubmitLimitOpg { order_id, instrument, side, qty, price } => Some(
            PlainView {
                order: new_order(order_id, instrument, side, qty, price, 50, 50, 0),
                qty,
                code: "2"@,
                prices: limit_field(price),
                tif: tif_text(50),
                directed: false,
                tail: no_fields(),
            },
        ),
        OrderRequest::SubmitLoc { order_id, instrument, side, qty, price } => Some(
            PlainView {
                order: new_order(order_id, instrument, side, qty, price, 66, 48, 0),
                qty,
                code: "B"@,
                prices: limit_field(price),
                tif: tif_text(48),
                directed: false,
                tail: no_fields(),
            },
        ),
        OrderRequest::SubmitAdaptive { order_id, instrument, side, qty, price, priority, .. } => Some(
            PlainView {
                order: new_order(order_id, instrument, side, qty, price, 50, 48, 0),
                qty,
                code: "2"@,
                prices: limit_field(price),
                tif: tif_text(48),
                directed: false,
                tail: plain_adaptive_tail(priority_name(priority)),
            },
        ),
        OrderRequest::SubmitAlgo { order_id, instrument, side, qty, price, algo, .. } => Some(
            PlainView {
                order: new_order(order_id, instrument, side, qty, price, 50, 48, 0),
                qty,
                code: "2"@,
                prices: limit_field(price),
                tif: tif_text(48),
                directed: false,
                tail: plain_algo_tail(algo),
            },
        ),
        _ => None,
    }
}

fn make_limit_form(req: &OrderRequest) -> (r: Option<PlainOrder>)
    ensures
        match r {
            Some(p) => limit_form(*req) == Some(p@),
            None => limit_form(*req) is None,
        },
{
    proof {
        reveal(limit_form);
    }
    match req {
        OrderRequest::SubmitLimit { order_id, instrument, side, qty, price } => Some(
            plain(
                Order::new(*order_id, *instrument, *side, *qty, *price, 50, 48, 0),
                *qty,
                "2",
                limit_fields(*price),
                false,
                Fields::new(),
            ),
        ),
        OrderRequest::SubmitLimitGtc { order_id, instrument, side, qty, price, outside_rth } => Some(
            plain(
                Order::new(*order_id, *instrument, *side, *qty, *price, 50, 49, 0),
                *qty,
                "2",
                limit_fields(*price),
                false,
                field_if(*outside_rth, 6433, "1"),
            ),
        ),
        OrderRequest::SubmitLimitEx { order_id, instrument, side, qty, price, tif, attrs } => Some(
            plain(
                Order::new(*order_id, *instrument, *side, *qty, *price, 50, *tif, 0),
                *qty,
                "2",
                limit_fields(*price),
                false,
                plain_attr_fields(attrs),
            ),
        ),
        OrderRequest::SubmitLimitIoc { order_id, instrument, side, qty, price } => Some(
            plain(
                Order::new(*order_id, *instrument, *side, *qty, *price, 50, 51, 0),
                *qty,
                "2",
                limit_fields(*price),
                false,
                Fields::new(),
            ),
        ),
        OrderRequest::SubmitLimitFok { order_id, instrument, side, qty, price } => Some(
            plain(
                Order::new(*order_id, *instrument, *side, *qty, *price, 50, 52, 0),
                *qty,
                "2",
                limit_fields(*price),
                false,
                Fields::new(),
            ),
        ),
        OrderRequest::SubmitLimitOpg { order_id, instrument, side, qty, price } => Some(
            plain(
                Order::new(*order_id, *instrument, *side, *qty, *price, 50, 50, 0),
                *qty,
                "2",
                limit_fields(*price),
                false,
                Fields::new(),
            ),
        ),
        OrderRequest::SubmitLoc { order_id, instrument, side, qty, price } => Some(
            plain(
                Order::new(*order_id, *instrument, *side, *qty, *price, 66, 48, 0),
                *qty,
                "B",
                limit_fields(*price),
                false,
                Fields::new(),
            ),
        ),
        OrderRequest::SubmitAdaptive { order_id, instrument, side, qty, price, priority, .. } => Some(
            plain(
                Order::new(*order_id, *instrument, *side, *qty, *price, 50, 48, 0),
                *qty,
                "2",
                limit_fields(*price),
                false,
                plain_adaptive_fields(priority.as_str()),
            ),
        ),
        OrderRequest::SubmitAlgo { order_id, instrument, side, qty, price, algo, .. } => Some(
            plain(
                Order::new(*order_id, *instrument, *side, *qty, *price, 50, 48, 0),
                *qty,
                "2",
                limit_fields(*price),
                false,
                plain_algo_fields(algo),
            ),
        ),
        _ => None,
    }
}

/// The plain form of the orders with a price that triggers them.
#[verifier::opaque]
pub open spec fn stop_form(req: OrderRequest) -> Option<PlainView> {
    match req {
        OrderRequest::SubmitStop { order_id, instrument, side, qty, stop_price } => Some(
            PlainView {
                order: new_order(order_id, instrument, side, qty, stop_price, 51, 48, stop_price),
                qty,
                code: "3"@,
                prices: stop_field(stop_price),
                tif: tif_text(48),
                directed: false,
                tail: no_fields(),
            },
        ),
        OrderRequest::SubmitStopLimit { order_id, instrument, side, qty, price, stop_price } => Some(
            PlainView {
                order: new_order(order_id, instrument, side, qty, price, 52, 48, stop_price),
                qty,
                code: "4"@,
                prices: both_fields(price, stop_price),
                tif: tif_text(48),
                directed: false,
                tail: no_fields(),
            },
        ),
        OrderRequest::SubmitStopGtc { order_id, instrument, side, qty, stop_price, outside_rth } => Some(
            PlainView {
                order: new_order(order_id, instrument, side, qty, stop_price, 51, 49, stop_price),
                qty,
                code: "3"@,
                prices: stop_field(stop_price),
                tif: tif_text(49),
                directed: false,
                tail: outside_field(outside_rth),
            },
        ),
        OrderRequest::SubmitStopLimitGtc { order_id, instrument, side, qty, price, stop_price, outside_rth } => Some(
            PlainView {
                order: new_order(order_id, instrument, side, qty, price, 52, 49, stop_price),
                qty,
                code: "4"@,
                prices: both_fields(price, stop_price),
                tif: tif_text(49),
                directed: false,
                tail: outside_field(outside_rth),
            },
        ),
        OrderRequest::SubmitTrailingStop { order_id, instrument, side, qty, trail_amt, .. } => Some(
            PlainView {
                order: new_order(order_id, instrument, side, qty, 0, 80, 48, 0),
                qty,
                code: "P"@,
                prices: stop_field(trail_amt),
                tif: tif_text(48),
                directed: false,
                tail: no_fields(),
            },
        ),
        OrderRequest::SubmitTrailingStopLimit { order_id, instrument, side, qty, lmt_offset, trail_amt, .. } => Some(
            PlainView {
                order: new_order(order_id, instrument, side, qty, lmt_offset, 80, 48, 0),
                qty,
                code: "P"@,
                prices: both_fields(lmt_offset, trail_amt),
                tif: tif_text(48),
                directed: false,
                tail: no_fields(),
            },
        ),
        OrderRequest::SubmitTrailingStopPct { order_id, instrument, side, qty, trail_pct, .. } => Some(
            PlainView {
                order: new_order(order_id, instrument, side, qty, 0, 80, 48, 0),
                qty,
                code: "P"@,
                prices: trail_pct_field(trail_pct),
                tif: tif_text(48),
                directed: false,
                tail: no_fields(),
            },
        ),
        OrderRequest::SubmitMit { order_id, instrument, side, qty, stop_price } => Some(
            PlainView {
                order: new_order(order_id, instrument, side, qty, stop_price, 74, 48, stop_price),
                qty,
                code: "J"@,
                prices: stop_field(stop_price),
                tif: tif_text(48),
                directed: false,
                tail: no_fields(),
            },
        ),
        OrderRequest::SubmitLit { order_id, instrument, side, qty, price, stop_price } => Some(
            PlainView {
                order: new_order(order_id, instrument, side, qty, price, 75, 48, stop_price),
                qty,
                code: "K"@,
                prices: both_fields(price, stop_price),
                tif: tif_text(48),
                directed: false,
                tail: no_fields(),
            },
        ),
        OrderRequest::SubmitStpPrt { order_id, instrument, side, qty, stop_price } => Some(
            PlainView {
                order: new_order(order_id, instrument, side, qty, 0, ORD_STP_PRT, 48, stop_price),
                qty,
                code: "SP"@,
                prices: stop_field(stop_price),
                tif: tif_text(48),
                directed: false,
                tail: no_fields(),
            },
        ),
        _ => None,
    }
}

fn make_stop_form(req: &OrderRequest) -> (r: Option<PlainOrder>)
    ensures
        match r {
            Some(p) => stop_form(*req) == Some(p@),
            None => stop_form(*req) is None,
        },
{
    proof {
        reveal(stop_form);
    }
    match req {
        OrderRequest::SubmitStop { order_id, instrument, side, qty, stop_price } => Some(
            plain(
                Order::new(*order_id, *instrument, *side, *qty, *stop_price, 51, 48, *stop_price),
                *qty,
                "3",
                stop_fields(*stop_price),
                false,
                Fields::new(),
            ),
        ),
        OrderRequest::SubmitStopLimit { order_id, instrument, side, qty, price, stop_price } => Some(
            plain(
                Order::new(*order_id, *instrument, *side, *qty, *price, 52, 48, *stop_price),
                *qty,
                "4",
                limit_stop_fields(*price, *stop_price),
                false,
                Fields::new(),
            ),
        ),
        OrderRequest::SubmitStopGtc { order_id, instrument, side, qty, stop_price, outside_rth } => Some(
            plain(
                Order::new(*order_id, *instrument, *side, *qty, *stop_price, 51, 49, *stop_price),
                *qty,
                "3",
                stop_fields(*stop_price),
                false,
                field_if(*outside_rth, 6433, "1"),
            ),
        ),
        OrderRequest::SubmitStopLimitGtc { order_id, instrument, side, qty, price, stop_price, outside_rth } => Some(
            plain(
                Order::new(*order_id, *instrument, *side, *qty, *price, 52, 49, *stop_price),
                *qty,
                "4",
                limit_stop_fields(*price, *stop_price),
                false,
                field_if(*outside_rth, 6433, "1"),
            ),
        ),
        OrderRequest::SubmitTrailingStop { order_id, instrument, side, qty, trail_amt, .. } => Some(
            plain(
                Order::new(*order_id, *instrument, *side, *qty, 0, 80, 48, 0),
                *qty,
                "P",
                stop_fields(*trail_amt),
                false,
                Fields::new(),
            ),
        ),
        OrderRequest::SubmitTrailingStopLimit { order_id, instrument, side, qty, lmt_offset, trail_amt, .. } => Some(
            plain(
                Order::new(*order_id, *instrument, *side, *qty, *lmt_offset, 80, 48, 0),
                *qty,
                "P",
                limit_stop_fields(*lmt_offset, *trail_amt),
                false,
                Fields::new(),
            ),
        ),
        OrderRequest::SubmitTrailingStopPct { order_id, instrument, side, qty, trail_pct, .. } => Some(
            plain(
                Order::new(*order_id, *instrument, *side, *qty, 0, 80, 48, 0),
                *qty,
                "P",
                trail_pct_fields(*trail_pct),
                false,
                Fields::new(),
            ),
        ),
        OrderRequest::SubmitMit { order_id, instrument, side, qty, stop_price } => Some(
            plain(
                Order::new(*order_id, *instrument, *side, *qty, *stop_price, 74, 48, *stop_price),
                *qty,
                "J",
                stop_fields(*stop_price),
                false,
                Fields::new(),
            ),
        ),
        OrderRequest::SubmitLit { order_id, instrument, side, qty, price, stop_price } => Some(
            plain(
                Order::new(*order_id, *instrument, *side, *qty, *price, 75, 48, *stop_price),
                *qty,
                "K",
                limit_stop_fields(*price, *stop_price),
                false,
                Fields::new(),
            ),
        ),
        OrderRequest::SubmitStpPrt { order_id, instrument, side, qty, stop_price } => Some(
            plain(
                Order::new(*order_id, *instrument, *side, *qty, 0, ORD_STP_PRT, 48, *stop_price),
                *qty,
                "SP",
                stop_fields(*stop_price),
                false,
                Fields::new(),
            ),
        ),
        _ => None,
    }
}

/// The plain form of the orders with no limit price.
#[verifier::opaque]
pub open spec fn market_form(req: OrderRequest) -> Option<PlainView> {
    match req {
        OrderRequest::SubmitMarket { order_id, instrument, side, qty } => Some(
            PlainView {
                order: new_order(order_id, instrument, side, qty, 0, 49, 48, 0),
                qty,
                code: "1"@,
                prices: no_fields(),
                tif: tif_text(48),
                directed: false,
                tail: no_fields(),
            },
        ),
        OrderRequest::SubmitMoc { order_id, instrument, side, qty } => Some(
            PlainView {
                order: new_order(order_id, instrument, side, qty, 0, 53, 48, 0),
                qty,
                code: "5"@,
                prices: no_fields(),
                tif: tif_text(48),
                directed: false,
                tail: no_fields(),
            },
        ),
        OrderRequest::SubmitMtl { order_id, instrument, side, qty } => Some(
            PlainView {
                order: new_order(order_id, instrument, side, qty, 0, 75, 48, 0),
                qty,
                code: "K"@,
                prices: no_fields(),
                tif: tif_text(48),
                directed: false,
                tail: no_fields(),
            },
        ),
        OrderRequest::SubmitMktPrt { order_id, instrument, side, qty } => Some(
            PlainView {
                order: new_order(order_id, instrument, side, qty, 0, 85, 48, 0),
                qty,
                code: "U"@,
                prices: no_fields(),
                tif: tif_text(48),
                directed: false,
                tail: no_fields(),
            },
        ),
        OrderRequest::SubmitRel { order_id, instrument, side, qty, offset } => Some(
            PlainView {
                order: new_order(order_id, instrument, side, qty, 0, 82, 48, offset),
                qty,
                code: "R"@,
                prices: stop_field(offset),
                tif: tif_text(48),
                directed: false,
                tail: no_fields(),
            },
        ),
        OrderRequest::SubmitMidPrice { order_id, instrument, side, qty, price_cap } => Some(
            PlainView {
                order: new_order(order_id, instrument, side, qty, price_cap, ORD_MIDPX, 48, 0),
                qty,
                code: "MIDPX"@,
                prices: no_fields(),
                tif: tif_text(48),
                directed: true,
                tail: price_if_set(44, price_cap),
            },
        ),
        OrderRequest::SubmitSnapMkt { order_id, instrument, side, qty } => Some(
            PlainView {
                order: new_order(order_id, instrument, side, qty, 0, ORD_SNAP_MKT, 48, 0),
                qty,
                code: "SMKT"@,
                prices: no_fields(),
                tif: tif_text(48),
                directed: true,
                tail: no_fields(),
            },
        ),
        OrderRequest::SubmitSnapMid { order_id, instrument, side, qty } => Some(
            PlainView {
                order: new_order(order_id, instrument, side, qty, 0, ORD_SNAP_MID, 48, 0),
                qty,
                code: "SMID"@,
                prices: no_fields(),
                tif: tif_text(48),
                directed: true,
                tail: no_fields(),
            },
        ),
        OrderRequest::SubmitSnapPri { order_id, instrument, side, qty } => Some(
            PlainView {
                order: new_order(order_id, instrument, side, qty, 0, ORD_SNAP_PRI, 48, 0),
                qty,
                code: "SREL"@,
                prices: no_fields(),
                tif: tif_text(48),
                directed: true,
                tail: no_fields(),
            },
        ),
        OrderRequest::SubmitPegMkt { order_id, instrument, side, qty, offset } => Some(
            PlainView {
                order: new_order(order_id, instrument, side, qty, 0, ORD_PEG_MKT, 48, offset),
                qty,
                code: "E"@,
                prices: no_fields(),
                tif: tif_text(48),
                directed: true,
                tail: price_if_set(211, offset),
            },
        ),
        OrderRequest::SubmitPegMid { order_id, instrument, side, qty, offset } => Some(
            PlainView {
                order: new_order(order_id, instrument, side, qty, 0, ORD_PEG_MID, 48, offset),
                qty,
                code: "E"@,
                prices: no_fields(),
                tif: tif_text(48),
                directed: true,
                tail: midpoint_tail(offset),
            },
        ),
        _ => None,
    }
}

fn make_market_form(req: &OrderRequest) -> (r: Option<PlainOrder>)
    ensures
        match r {
            Some(p) => market_form(*req) == Some(p@),
            None => market_form(*req) is None,
        },
{
    proof {
        reveal(market_form);
    }
    match req {
        OrderRequest::SubmitMarket { order_id, instrument, side, qty } => Some(
            plain(
                Order::new(*order_id, *instrument, *side, *qty, 0, 49, 48, 0),
                *qty,
                "1",
                Fields::new(),
                false,
                Fields::new(),
            ),
        ),
        OrderRequest::SubmitMoc { order_id, instrument, side, qty } => Some(
            plain(
                Order::new(*order_id, *instrument, *side, *qty, 0, 53, 48, 0),
                *qty,
                "5",
                Fields::new(),
                false,
                Fields::new(),
            ),
        ),
        OrderRequest::SubmitMtl { order_id, instrument, side, qty } => Some(
            plain(
                Order::new(*order_id, *instrument, *side, *qty, 0, 75, 48, 0),
                *qty,
                "K",
                Fields::new(),
                false,
                Fields::new(),
            ),
        ),
        OrderRequest::SubmitMktPrt { order_id, instrument, side, qty } => Some(
            plain(
                Order::new(*order_id, *instrument, *side, *qty, 0, 85, 48, 0),
                *qty,
                "U",
                Fields::new(),
                false,
                Fields::new(),
            ),
        ),
        OrderRequest::SubmitRel { order_id, instrument, side, qty, offset } => Some(
            plain(
                Order::new(*order_id, *instrument, *side, *qty, 0, 82, 48, *offset),
                *qty,
                "R",
                stop_fields(*offset),
                false,
                Fields::new(),
            ),
        ),
        OrderRequest::SubmitMidPrice { order_id, instrument, side, qty, price_cap } => Some(
            plain(
                Order::new(*order_id, *instrument, *side, *qty, *price_cap, ORD_MIDPX, 48, 0),
                *qty,
                "MIDPX",
                Fields::new(),
                true,
                price_fields_if_set(44, *price_cap),
            ),
        ),
        OrderRequest::SubmitSnapMkt { order_id, instrument, side, qty } => Some(
            plain(
                Order::new(*order_id, *instrument, *side, *qty, 0, ORD_SNAP_MKT, 48, 0),
                *qty,
                "SMKT",
                Fields::new(),
                true,
                Fields::new(),
            ),
        ),
        OrderRequest::SubmitSnapMid { order_id, instrument, side, qty } => Some(
            plain(
                Order::new(*order_id, *instrument, *side, *qty, 0, ORD_SNAP_MID, 48, 0),
                *qty,
                "SMID",
                Fields::new(),
                true,
                Fields::new(),
            ),
        ),
        OrderRequest::SubmitSnapPri { order_id, instrument, side, qty } => Some(
            plain(
                Order::new(*order_id, *instrument, *side, *qty, 0, ORD_SNAP_PRI, 48, 0),
                *qty,
                "SREL",
                Fields::new(),
                true,
                Fields::new(),
            ),
        ),
        OrderRequest::SubmitPegMkt { order_id, instrument, side, qty, offset } => Some(
            plain(
                Order::new(*order_id, *instrument, *side, *qty, 0, ORD_PEG_MKT, 48, *offset),
                *qty,
                "E",
                Fields::new(),
                true,
                price_fields_if_set(211, *offset),
            ),
        ),
        OrderRequest::SubmitPegMid { order_id, instrument, side, qty, offset } => Some(
            plain(
                Order::new(*order_id, *instrument, *side, *qty, 0, ORD_PEG_MID, 48, *offset),
                *qty,
                "E",
                Fields::new(),
                true,
                midpoint_fields(*offset),
            ),
        ),
        _ => None,
    }
}

/// What links the exits of a bracket to its entry, and to each other.
pub open spec fn plain_child_tail(parent_id: OrderId) -> FieldSeq {
    seq![
        (6107u32, dec(parent_id as nat)),
        (583u32, "OCA_"@ + dec(parent_id as nat)),
        (6209u32, "CancelOnFillWBlock"@),
    ]
}

fn plain_child_fields(parent_id: OrderId) -> (r: Fields)
    ensures
        r@ == plain_child_tail(parent_id),
{
    let mut f = Fields::new();
    f.put_uint(6107, parent_id);
    f.put(583, join("OCA_", format_uint(parent_id).as_str()));
    f.put_str(6209, "CancelOnFillWBlock");
    proof {
        assert(f@ =~= plain_child_tail(parent_id));
    }
    f
}

/// The plain forms of the orders that a request places: one, or the three of a bracket. None
/// when the request places no order, or has no plain form.
pub open spec fn plain_forms(req: OrderRequest) -> Seq<PlainView> {
    if let Some(p) = limit_form(req) {
        seq![p]
    } else if let Some(p) = stop_form(req) {
        seq![p]
    } else if let Some(p) = market_form(req) {
        seq![p]
    } else {
        match req {
            OrderRequest::SubmitBracket {
                parent_id,
                tp_id,
                sl_id,
                instrument,
                side,
                qty,
                entry_price,
                take_profit,
                stop_loss,
            } => {
                let exit = exit_side(side);
                seq![
                    PlainView {
                        order: new_order(parent_id, instrument, side, qty, entry_price, 50, 48, 0),
                        qty,
                        code: "2"@,
                        prices: limit_field(entry_price),
                        tif: tif_text(48),
                        directed: false,
                        tail: no_fields(),
                    },
                    PlainView {
                        order: new_order(tp_id, instrument, exit, qty, take_profit, 50, 49, 0),
                        qty,
                        code: "2"@,
                        prices: limit_field(take_profit),
                        tif: tif_text(49),
                        directed: false,
                        tail: plain_child_tail(parent_id),
                    },
                    PlainView {
                        order: new_order(
                            sl_id,
                            instrument,
                            exit,
                            qty,
                            stop_loss,
                            51,
                            49,
                            stop_loss,
                        ),
                        qty,
                        code: "3"@,
                        prices: stop_field(stop_loss),
                        tif: tif_text(49),
                        directed: false,
                        tail: plain_child_tail(parent_id),
                    },
                ]
            },
            _ => Seq::empty(),
        }
    }
}

/// The plain forms of the orders that a request places.
pub fn plain_orders(req: &OrderRequest) -> (r: Vec<PlainOrder>)
    ensures
        plain_views(r@) == plain_forms(*req),
{
    let mut out: Vec<PlainOrder> = Vec::new();
    if let Some(p) = make_limit_form(req) {
        let ghost view = p@;
        out.push(p);
        proof {
            assert(plain_views(out@) =~= seq![view]);
        }
        return out;
    }
    if let Some(p) = make_stop_form(req) {
        let ghost view = p@;
        out.push(p);
        proof {
            assert(plain_views(out@) =~= seq![view]);
        }
        return out;
    }
    if let Some(p) = make_market_form(req) {
        let ghost view = p@;
        out.push(p);
        proof {
            assert(plain_views(out@) =~= seq![view]);
        }
        return out;
    }
    if let OrderRequest::SubmitBracket {
        parent_id,
        tp_id,
        sl_id,
        instrument,
        side,
        qty,
        entry_price,
        take_profit,
        stop_loss,
    } = req {
        let exit = match side {
            Side::Buy => Side::Sell,
            Side::Sell | Side::ShortSell => Side::Buy,
        };
        out.push(
            plain(
                Order::new(*parent_id, *instrument, *side, *qty, *entry_price, 50, 48, 0),
                *qty,
                "2",
                limit_fields(*entry_price),
                false,
                Fields::new(),
            ),
        );
        out.push(
            plain(
                Order::new(*tp_id, *instrument, exit, *qty, *take_profit, 50, 49, 0),
                *qty,
                "2",
                limit_fields(*take_profit),
                false,
                plain_child_fields(*parent_id),
            ),
        );
        out.push(
            plain(
                Order::new(*sl_id, *instrument, exit, *qty, *stop_loss, 51, 49, *stop_loss),
                *qty,
                "3",
                stop_fields(*stop_loss),
                false,
                plain_child_fields(*parent_id),
            ),
        );
    }
    proof {
        assert(plain_views(out@) =~= plain_forms(*req));
    }
    out
}

/// The message that places an order.
pub open spec fn plain_message(
    now: Seq<char>,
    account: Seq<char>,
    symbol: Seq<char>,
    p: PlainView,
) -> FieldSeq {
    seq![
        (TAG_MSG_TYPE, "D"@),
        (TAG_SENDING_TIME, now),
        (11u32, dec(p.order.order_id as nat)),
        (1u32, account),
        (21u32, "2"@),
        (55u32, symbol),
        (54u32, side_code(p.order.side)),
        (38u32, dec(p.qty as nat)),
        (40u32, p.code),
    ] + p.prices + seq![
        (59u32, p.tif),
        (60u32, now),
        (167u32, "STK"@),
        (
            100u32,
            if p.directed {
                "ISLAND"@
            } else {
                "SMART"@
            },
        ),
        (15u32, "USD"@),
        (204u32, "0"@),
    ] + p.tail
}

fn plain_fields(now: &str, account: &str, symbol: &str, p: &PlainOrder) -> (r: Fields)
    ensures
        r@ == plain_message(now@, account@, symbol@, p@),
{
    let mut f = Fields::new();
    f.put_str(TAG_MSG_TYPE, "D");
    f.put_str(TAG_SENDING_TIME, now);
    f.put_uint(11, p.order.order_id);
    f.put_str(1, account);
    f.put_str(21, "2");
    f.put_str(55, symbol);
    f.put_str(54, fix_side(p.order.side));
    f.put_uint(38, p.qty as u64);
    f.put_str(40, p.code.as_str());
    f.put_all(&p.prices);
    f.put_str(59, p.tif.as_str());
    f.put_str(60, now);
    f.put_str(167, "STK");
    f.put_str(
        100,
        if p.directed {
            "ISLAND"
        } else {
            "SMART"
        },
    );
    f.put_str(15, "USD");
    f.put_str(204, "0");
    f.put_all(&p.tail);
    proof {
        assert(f@ =~= plain_message(now@, account@, symbol@, p@));
    }
    f
}

// ---------------------------------------------------------------------------------------
// Cancels and replaces
// ---------------------------------------------------------------------------------------

/// The message that cancels an order.
pub open spec fn plain_cancel(now: Seq<char>, id: OrderId) -> FieldSeq {
    seq![
        (TAG_MSG_TYPE, "F"@),
        (TAG_SENDING_TIME, now),
        (11u32, "C"@ + dec(id as nat)),
        (41u32, dec(id as nat)),
        (60u32, now),
    ]
}

fn plain_cancel_fields(now: &str, id: OrderId) -> (r: Fields)
    ensures
        r@ == plain_cancel(now@, id),
{
    let mut f = Fields::new();
    f.put_str(TAG_MSG_TYPE, "F");
    f.put_str(TAG_SENDING_TIME, now);
    f.put(11, join("C", format_uint(id).as_str()));
    f.put_uint(41, id);
    f.put_str(60, now);
    proof {
        assert(f@ =~= plain_cancel(now@, id));
    }
    f
}

/// The messages that cancel a list of orders.
pub open spec fn plain_cancels(now: Seq<char>, orders: Seq<Order>) -> Seq<FieldSeq> {
    orders.map_values(|o: Order| plain_cancel(now, o.order_id))
}

/// The code of a remembered type of order.
pub open spec fn type_text(ord_type: u8) -> Seq<char> {
    if ord_type == ORD_STP_PRT {
        "SP"@
    } else if ord_type == ORD_MIDPX {
        "MIDPX"@
    } else if ord_type == ORD_SNAP_MKT {
        "SMKT"@
    } else if ord_type == ORD_SNAP_MID {
        "SMID"@
    } else if ord_type == ORD_SNAP_PRI {
        "SREL"@
    } else if ord_type == ORD_PEG_MKT || ord_type == ORD_PEG_MID {
        "E"@
    } else if ord_type == ORD_PEG_BENCH {
        "PB"@
    } else if ord_type == ORD_WHAT_IF {
        "2"@
    } else {
        tif_text(ord_type)
    }
}

fn type_str(ord_type: u8) -> (r: String)
    ensures
        r@ == type_text(ord_type),
{
    if ord_type == ORD_STP_PRT {
        "SP".to_owned()
    } else if ord_type == ORD_MIDPX {
        "MIDPX".to_owned()
    } else if ord_type == ORD_SNAP_MKT {
        "SMKT".to_owned()
    } else if ord_type == ORD_SNAP_MID {
        "SMID".to_owned()
    } else if ord_type == ORD_SNAP_PRI {
        "SREL".to_owned()
    } else if ord_type == ORD_PEG_MKT || ord_type == ORD_PEG_MID {
        "E".to_owned()
    } else if ord_type == ORD_PEG_BENCH {
        "PB".to_owned()
    } else if ord_type == ORD_WHAT_IF {
        "2".to_owned()
    } else {
        tif_str(ord_type)
    }
}

/// What a replace says of the order that it replaces: its side, its symbol, its type, its time
/// in force and its stop price. Of one that is not tracked it says that it is a limit order to
/// buy, good for the day.
pub open spec fn replaced_side(orig: Option<Order>) -> Side {
    match orig {
        Some(o) => o.side,
        None => Side::Buy,
    }
}

/// The message that replaces an order.
pub open spec fn plain_replace(
    c: ContextView,
    now: Seq<char>,
    account: Seq<char>,
    new_id: OrderId,
    id: OrderId,
    price: Price,
    qty: u32,
) -> FieldSeq {
    let orig = c.order(id);
    let (symbol, code, tif, stop) = match orig {
        Some(o) => (
            c.market.symbols[o.instrument as int],
            type_text(o.ord_type),
            tif_text(o.tif),
            o.stop_price,
        ),
        None => (Seq::empty(), "2"@, "0"@, 0i64),
    };
    add_if(
        seq![
            (TAG_MSG_TYPE, "G"@),
            (TAG_SENDING_TIME, now),
            (11u32, dec(new_id as nat)),
            (41u32, dec(id as nat)),
            (1u32, account),
            (21u32, "2"@),
            (55u32, symbol),
            (54u32, side_code(replaced_side(orig))),
            (38u32, dec(qty as nat)),
            (40u32, code),
            (44u32, price_text(price as int)),
            (59u32, tif),
            (60u32, now),
            (167u32, "STK"@),
            (100u32, "SMART"@),
            (15u32, "USD"@),
            (204u32, "0"@),
        ],
        stop != 0,
        99,
        price_text(stop as int),
    )
}

fn plain_replace_fields(
    context: &Context,
    now: &str,
    account: &str,
    new_id: OrderId,
    id: OrderId,
    price: Price,
    qty: u32,
) -> (r: Fields)
    requires
        context@.wf(),
    ensures
        r@ == plain_replace(context@, now@, account@, new_id, id, price, qty),
{
    let orig = context.order(id);
    let (symbol, side, code, tif, stop) = match orig {
        Some(o) => (
            context.market.symbol(o.instrument).to_owned(),
            o.side,
            type_str(o.ord_type),
            tif_str(o.tif),
            o.stop_price,
        ),
        None => (String::new(), Side::Buy, "2".to_owned(), "0".to_owned(), 0i64),
    };
    let mut f = Fields::new();
    f.put_str(TAG_MSG_TYPE, "G");
    f.put_str(TAG_SENDING_TIME, now);
    f.put_uint(11, new_id);
    f.put_uint(41, id);
    f.put_str(1, account);
    f.put_str(21, "2");
    f.put_str(55, symbol.as_str());
    f.put_str(54, fix_side(side));
    f.put_uint(38, qty as u64);
    f.put_str(40, code.as_str());
    f.put(44, format_price(price));
    f.put_str(59, tif.as_str());
    f.put_str(60, now);
    f.put_str(167, "STK");
    f.put_str(100, "SMART");
    f.put_str(15, "USD");
    f.put_str(204, "0");
    if stop != 0 {
        f.put(99, format_price(stop));
    }
    proof {
        assert(f@ =~= plain_replace(context@, now@, account@, new_id, id, price, qty));
    }
    f
}

/// The context after a replace: the order is tracked under its new id too.
pub open spec fn after_plain_replace(
    c: ContextView,
    new_id: OrderId,
    id: OrderId,
    price: Price,
    qty: u32,
) -> ContextView {
    match c.order(id) {
        Some(o) => c.with_order(
            new_order(
                new_id,
                o.instrument,
                o.side,
                qty,
                price,
                o.ord_type,
                o.tif,
                o.stop_price,
            ),
        ),
        None => c,
    }
}

// ---------------------------------------------------------------------------------------
// Requests
// ---------------------------------------------------------------------------------------

/// The context in which a list of orders is tracked too.
pub open spec fn with_plain_orders(c: ContextView, p: Seq<PlainView>) -> ContextView
    decreases p.len(),
{
    if p.len() == 0 {
        c
    } else {
        with_plain_orders(c, p.drop_last()).with_order(p.last().order)
    }
}

/// The messages that place a list of orders.
pub open spec fn plain_messages(
    c: ContextView,
    now: Seq<char>,
    account: Seq<char>,
    p: Seq<PlainView>,
) -> Seq<FieldSeq> {
    p.map_values(
        |v: PlainView|
            plain_message(now, account, c.market.symbols[v.order.instrument as int], v),
    )
}

/// The context after a request in its plain form.
pub open spec fn plain_effect(c: ContextView, req: OrderRequest) -> ContextView {
    match req {
        OrderRequest::Modify { new_order_id, order_id, qty, kind, .. } => after_plain_replace(
            c,
            new_order_id,
            order_id,
            record_of(kind).1,
            qty,
        ),
        _ => with_plain_orders(c, plain_forms(req)),
    }
}

/// The messages of a request in its plain form.
pub open spec fn plain_step(
    c: ContextView,
    now: Seq<char>,
    account: Seq<char>,
    req: OrderRequest,
) -> Seq<FieldSeq> {
    match req {
        OrderRequest::Cancel { order_id } => seq![plain_cancel(now, order_id)],
        OrderRequest::CancelAll { instrument } => plain_cancels(
            now,
            open_orders(c.orders, instrument),
        ),
        OrderRequest::Modify { new_order_id, order_id, qty, kind, .. } => seq![
            plain_replace(
                c,
                now,
                account,
                new_order_id,
                order_id,
                record_of(kind).1,
                qty,
            ),
        ],
        _ => plain_messages(c, now, account, plain_forms(req)),
    }
}

/// Whether the orders that a request places are for instruments of the market.
pub open spec fn plain_admissible(req: OrderRequest) -> bool {
    forall|i: int|
        0 <= i < plain_forms(req).len() ==> (#[trigger] plain_forms(req)[i]).order.instrument
            < MAX_INSTRUMENTS
}

/// Takes up a request in its plain form: the orders that it places are tracked, and the
/// messages that it takes are given. A request that has no plain form takes none.
pub fn send_plain(context: &mut Context, account_id: &str, now: &str, req: &OrderRequest) -> (r: Vec<
    Fields,
>)
    requires
        old(context)@.wf(),
        plain_admissible(*req),
    ensures
        final(context)@.wf(),
        final(context)@ == plain_effect(old(context)@, *req),
        field_lists(r@) == plain_step(old(context)@, now@, account_id@, *req),
{
    let mut out: Vec<Fields> = Vec::new();
    match req {
        OrderRequest::Cancel { order_id } => {
            out.push(plain_cancel_fields(now, *order_id));
            proof {
                lemma_no_forms(*req);
                assert(field_lists(out@) =~= seq![plain_cancel(now@, *order_id)]);
            }
        },
        OrderRequest::CancelAll { instrument } => {
            let open = context.open_orders_for(*instrument);
            let mut i: usize = 0;
            while i < open.len()
                invariant
                    i <= open.len(),
                    out@.len() == i,
                    forall|k: int|
                        0 <= k < i ==> (#[trigger] out@[k])@ == plain_cancel(
                            now@,
                            open@[k].order_id,
                        ),
                decreases open.len() - i,
            {
                out.push(plain_cancel_fields(now, open[i].order_id));
                i = i + 1;
            }
            proof {
                lemma_no_forms(*req);
                assert(field_lists(out@) =~= plain_cancels(now@, open@));
            }
        },
        OrderRequest::Modify { new_order_id, order_id, qty, kind, .. } => {
            let price = tracked_as(*kind).1;
            let f = plain_replace_fields(
                context,
                now,
                account_id,
                *new_order_id,
                *order_id,
                price,
                *qty,
            );
            let ghost view = f@;
            out.push(f);
            if let Some(o) = context.order(*order_id) {
                context.insert_order(
                    Order::new(
                        *new_order_id,
                        o.instrument,
                        o.side,
                        *qty,
                        price,
                        o.ord_type,
                        o.tif,
                        o.stop_price,
                    ),
                );
            }
            proof {
                assert(field_lists(out@) =~= seq![view]);
            }
        },
        _ => {
            let orders = plain_orders(req);
            let ghost forms = plain_forms(*req);
            let ghost market = context@.market;
            let mut i: usize = 0;
            proof {
                assert(forms.take(0) =~= Seq::empty());
            }
            while i < orders.len()
                invariant
                    i <= orders.len(),
                    forms == plain_forms(*req),
                    forms == plain_views(orders@),
                    plain_admissible(*req),
                    context@.wf(),
                    context@.market == market,
                    market == old(context)@.market,
                    context@ == with_plain_orders(old(context)@, forms.take(i as int)),
                    out@.len() == i,
                    forall|k: int|
                        0 <= k < i ==> (#[trigger] out@[k])@ == plain_messages(
                            old(context)@,
                            now@,
                            account_id@,
                            forms,
                        )[k],
                decreases orders.len() - i,
            {
                proof {
                    assert(forms.take(i + 1).drop_last() =~= forms.take(i as int));
                    assert(forms[i as int] == orders@[i as int]@);
                    assert(forms[i as int].order.instrument < MAX_INSTRUMENTS);
                }
                let id = orders[i].order.instrument;
                out.push(plain_fields(now, account_id, context.market.symbol(id), &orders[i]));
                context.insert_order(orders[i].order);
                i = i + 1;
            }
            proof {
                assert(forms.len() == orders@.len());
                assert(forms.take(i as int) =~= forms);
                assert(field_lists(out@) =~= plain_messages(
                    old(context)@,
                    now@,
                    account_id@,
                    forms,
                ));
            }
        },
    }
    out
}

proof fn lemma_no_forms(req: OrderRequest)
    requires
        req is Cancel || req is CancelAll,
    ensures
        plain_forms(req) == Seq::<PlainView>::empty(),
{
    reveal(limit_form);
    reveal(stop_form);
    reveal(market_form);
}

// ---------------------------------------------------------------------------------------
// Laws
// ---------------------------------------------------------------------------------------

/// A request that places one order leaves it tracked, as it was placed.
pub proof fn law_placed_order_is_tracked(c: ContextView, req: OrderRequest)
    requires
        c.wf(),
        plain_forms(req).len() == 1,
    ensures
        plain_effect(c, req).order(plain_forms(req)[0].order.order_id) == Some(
            plain_forms(req)[0].order,
        ),
{
    reveal(limit_form);
    reveal(stop_form);
    reveal(market_form);
    let p = plain_forms(req);
    assert(!(req is Modify));
    assert(p.drop_last() =~= Seq::empty());
    assert(with_plain_orders(c, p.drop_last()) == c);
    law_put_then_find(c.orders, p[0].order, 0);
}

/// Cancels change nothing of what is tracked: an order is done when the server says so.
pub proof fn law_plain_cancel_changes_nothing(c: ContextView, id: OrderId, instrument: InstrumentId)
    ensures
        plain_effect(c, OrderRequest::Cancel { order_id: id }) == c,
        plain_effect(c, OrderRequest::CancelAll { instrument }) == c,
{
    lemma_no_forms(OrderRequest::Cancel { order_id: id });
    lemma_no_forms(OrderRequest::CancelAll { instrument });
}

} // verus!
