//! New orders: what is remembered of the orders that a request places, and what their messages
//! say.
use vstd::prelude::*;

use crate::engine::context::{versioned, versioned_text, Context, ContextView};
use crate::engine::hot_loop::order_fields::{
    add_if, build_kind_fields, build_kind_tail, directed, exit_side, flag, flag_text, is_directed,
    kind_fields, kind_tail, push_extended_attrs, put_algo, record_of, takes_exec_inst, tif_str,
    tif_text, tracked_as, with_algo, with_attrs, FieldSeq,
};
use crate::engine::order::{
    new_order, priority_name, AlgoParams, Order, OrderAttrs, OrderKind, OrderRequest, Side,
};
use crate::protocol::fix::Fields;
use crate::text::{dec, format_uint, join};
use crate::types::{
    format_price, format_qty, price_text, qty_text, InstrumentId, OrderId, Price, ORD_PEG_BENCH,
    ORD_WHAT_IF,
};

verus! {

// ---------------------------------------------------------------------------------------
// New orders
// ---------------------------------------------------------------------------------------

/// A new order as it will be tracked and sent.
pub ghost struct PlanView {
    /// The order as it is tracked.
    pub order: Order,
    pub clord: Seq<char>,
    pub qty: Seq<char>,
    /// The fields of its type.
    pub kind: FieldSeq,
    pub tif: Seq<char>,
    /// Whether it goes to an exchange of its own.
    pub directed: bool,
    /// The fields behind the common ones.
    pub tail: FieldSeq,
}

/// A new order as it will be tracked and sent.
pub struct Plan {
    pub order: Order,
    pub clord: String,
    pub qty: String,
    pub kind: Fields,
    pub tif: String,
    pub directed: bool,
    pub tail: Fields,
}

impl View for Plan {
    type V = PlanView;

    open spec fn view(&self) -> PlanView {
        PlanView {
            order: self.order,
            clord: self.clord@,
            qty: self.qty@,
            kind: self.kind@,
            tif: self.tif@,
            directed: self.directed,
            tail: self.tail@,
        }
    }
}

/// An order of a type with a time in force, tracked as its type says.
pub open spec fn kind_order(
    order_id: OrderId,
    instrument: InstrumentId,
    side: Side,
    qty: u32,
    kind: OrderKind,
    tif: u8,
) -> Order {
    let (ord_type, price, stop_price) = record_of(kind);
    new_order(order_id, instrument, side, qty, price, ord_type, tif, stop_price)
}

/// The plan for an order of a type. `shown` is the type as its fields show it.
#[verifier::opaque]
pub open spec fn kind_plan(
    c: ContextView,
    order_id: OrderId,
    instrument: InstrumentId,
    side: Side,
    qty: u32,
    kind: OrderKind,
    shown: OrderKind,
    tif: u8,
    tail: FieldSeq,
) -> PlanView {
    PlanView {
        order: kind_order(order_id, instrument, side, qty, kind, tif),
        clord: versioned(order_id, c.version(order_id)),
        qty: dec(qty as nat),
        kind: kind_fields(shown),
        tif: tif_text(tif),
        directed: is_directed(kind),
        tail,
    }
}

fn make_plan(
    context: &Context,
    order_id: OrderId,
    instrument: InstrumentId,
    side: Side,
    qty: u32,
    kind: OrderKind,
    shown: OrderKind,
    tif: u8,
    tail: Fields,
) -> (r: Plan)
    ensures
        r@ == kind_plan(
            context@,
            order_id,
            instrument,
            side,
            qty,
            kind,
            shown,
            tif,
            tail@,
        ),
{
    proof {
        reveal(kind_plan);
    }
    let (ord_type, price, stop_price) = tracked_as(kind);
    Plan {
        order: Order::new(order_id, instrument, side, qty, price, ord_type, tif, stop_price),
        clord: versioned_text(order_id, context.version(order_id)),
        qty: format_uint(qty as u64),
        kind: build_kind_fields(shown),
        tif: tif_str(tif),
        directed: directed(kind),
        tail,
    }
}

/// The plan for an order with attributes.
pub open spec fn extended_plan(
    c: ContextView,
    order_id: OrderId,
    instrument: InstrumentId,
    side: Side,
    qty: u32,
    kind: OrderKind,
    tif: u8,
    attrs: OrderAttrs,
) -> PlanView {
    kind_plan(
        c,
        order_id,
        instrument,
        side,
        qty,
        kind,
        kind,
        tif,
        with_attrs(kind_tail(kind), attrs, takes_exec_inst(kind)),
    )
}

/// The plan for an order with attributes.
pub fn send_order_ex(
    context: &Context,
    order_id: OrderId,
    instrument: InstrumentId,
    side: Side,
    qty: u32,
    kind: OrderKind,
    tif: u8,
    attrs: &OrderAttrs,
) -> (r: Plan)
    ensures
        r@ == extended_plan(context@, order_id, instrument, side, qty, kind, tif, *attrs),
{
    let mut tail = build_kind_tail(kind);
    let takes = match kind {
        OrderKind::TrailingStop { .. } => true,
        OrderKind::TrailPct { .. } => true,
        OrderKind::Rel { .. } => true,
        _ => false,
    };
    push_extended_attrs(&mut tail, attrs, takes);
    make_plan(context, order_id, instrument, side, qty, kind, kind, tif, tail)
}

/// One field, when `on` holds.
pub open spec fn one_if(on: bool, tag: u32, value: Seq<char>) -> FieldSeq {
    add_if(Seq::empty(), on, tag, value)
}

pub(crate) fn field_if(on: bool, tag: u32, value: &str) -> (r: Fields)
    ensures
        r@ == one_if(on, tag, value@),
{
    let mut f = Fields::new();
    if on {
        f.put_str(tag, value);
    }
    f
}

/// The type fields of an order that an algorithm works: a limit with the algorithm's
/// instruction.
pub open spec fn algo_kind_fields(price: Price) -> FieldSeq {
    kind_fields(OrderKind::Limit { price }).push((18u32, "e"@))
}

fn build_algo_kind_fields(price: Price) -> (r: Fields)
    ensures
        r@ == algo_kind_fields(price),
{
    let mut f = build_kind_fields(OrderKind::Limit { price });
    f.put_str(18, "e");
    f
}

/// What follows the common fields of an adaptive order.
pub open spec fn adaptive_tail(
    attrs: OrderAttrs,
    priority: crate::engine::order::AdaptivePriority,
) -> FieldSeq {
    with_attrs(Seq::empty(), attrs, true).push((847u32, "Adaptive"@)).push((5957u32, "1"@)).push(
        (5958u32, "adaptivePriority"@),
    ).push((5960u32, priority_name(priority)))
}

/// What a child of a bracket carries: its parent, its group and the group's type.
pub open spec fn child_tail(parent_id: OrderId) -> FieldSeq {
    seq![
        (6107u32, dec(parent_id as nat)),
        (583u32, "OCA_"@ + dec(parent_id as nat)),
        (6209u32, "ReduceOnFillNonBlock"@),
    ]
}

fn build_child_tail(parent_id: OrderId) -> (r: Fields)
    ensures
        r@ == child_tail(parent_id),
{
    let mut f = Fields::new();
    f.put_uint(6107, parent_id);
    f.put(583, join("OCA_", format_uint(parent_id).as_str()));
    f.put_str(6209, "ReduceOnFillNonBlock");
    proof {
        assert(f@ =~= child_tail(parent_id));
    }
    f
}

/// An order of a bracket: its client order id is its order id.
pub open spec fn bracket_plan(
    c: ContextView,
    order_id: OrderId,
    instrument: InstrumentId,
    side: Side,
    qty: u32,
    kind: OrderKind,
    tif: u8,
    tail: FieldSeq,
) -> PlanView {
    PlanView {
        clord: dec(order_id as nat),
        ..kind_plan(c, order_id, instrument, side, qty, kind, kind, tif, tail)
    }
}

fn make_bracket_plan(
    context: &Context,
    order_id: OrderId,
    instrument: InstrumentId,
    side: Side,
    qty: u32,
    kind: OrderKind,
    tif: u8,
    tail: Fields,
) -> (r: Plan)
    ensures
        r@ == bracket_plan(context@, order_id, instrument, side, qty, kind, tif, tail@),
{
    let mut p = make_plan(context, order_id, instrument, side, qty, kind, kind, tif, tail);
    p.clord = format_uint(order_id);
    p
}

/// What a benchmark peg carries: the reference contract, the direction and the two steps.
pub open spec fn benchmark_tail(
    ref_con_id: u32,
    is_peg_decrease: bool,
    pegged_change_amount: Price,
    ref_change_amount: Price,
) -> FieldSeq {
    seq![
        (6941u32, dec(ref_con_id as nat)),
        (6938u32, flag_text(is_peg_decrease)),
        (6939u32, price_text(pegged_change_amount as int)),
        (6942u32, price_text(ref_change_amount as int)),
    ]
}

/// The parts from which a plain order is planned.
pub ghost struct PartsView {
    pub order_id: OrderId,
    pub instrument: InstrumentId,
    pub side: Side,
    pub qty: u32,
    pub kind: OrderKind,
    /// The type as its fields show it.
    pub shown: OrderKind,
    pub tif: u8,
    pub tail: FieldSeq,
}

/// The parts from which a plain order is planned.
struct Parts {
    order_id: OrderId,
    instrument: InstrumentId,
    side: Side,
    qty: u32,
    kind: OrderKind,
    shown: OrderKind,
    tif: u8,
    tail: Fields,
}

impl View for Parts {
    type V = PartsView;

    closed spec fn view(&self) -> PartsView {
        PartsView {
            order_id: self.order_id,
            instrument: self.instrument,
            side: self.side,
            qty: self.qty,
            kind: self.kind,
            shown: self.shown,
            tif: self.tif,
            tail: self.tail@,
        }
    }
}

spec fn parts_view(r: Option<Parts>) -> Option<PartsView> {
    match r {
        Some(p) => Some(p@),
        None => None,
    }
}

/// The plan for a plain order.
pub open spec fn parts_plan(c: ContextView, p: PartsView) -> PlanView {
    kind_plan(c, p.order_id, p.instrument, p.side, p.qty, p.kind, p.shown, p.tif, p.tail)
}

/// The parts of an order at a limit.
pub open spec fn limit_parts(req: OrderRequest) -> Option<PartsView> {
    match req {
        OrderRequest::SubmitLimit { order_id, instrument, side, qty, price } => Some(
            PartsView {
                order_id,
                instrument,
                side,
                qty,
                kind: OrderKind::Limit { price },
                shown: OrderKind::Limit { price },
                tif: 48,
                tail: Seq::empty(),
            },
        ),
        OrderRequest::SubmitLimitGtc { order_id, instrument, side, qty, price, outside_rth } => Some(
            PartsView {
                order_id,
                instrument,
                side,
                qty,
                kind: OrderKind::Limit { price },
                shown: OrderKind::Limit { price },
                tif: 49,
                tail: one_if(outside_rth, 6433, "1"@),
            },
        ),
        OrderRequest::SubmitLimitIoc { order_id, instrument, side, qty, price } => Some(
            PartsView {
                order_id,
                instrument,
                side,
                qty,
                kind: OrderKind::Limit { price },
                shown: OrderKind::Limit { price },
                tif: 51,
                tail: Seq::empty(),
            },
        ),
        OrderRequest::SubmitLimitFok { order_id, instrument, side, qty, price } => Some(
            PartsView {
                order_id,
                instrument,
                side,
                qty,
                kind: OrderKind::Limit { price },
                shown: OrderKind::Limit { price },
                tif: 52,
                tail: Seq::empty(),
            },
        ),
        OrderRequest::SubmitLimitOpg { order_id, instrument, side, qty, price } => Some(
            PartsView {
                order_id,
                instrument,
                side,
                qty,
                kind: OrderKind::Limit { price },
                shown: OrderKind::Limit { price },
                tif: 50,
                tail: Seq::empty(),
            },
        ),
        OrderRequest::SubmitLimitAuc { order_id, instrument, side, qty, price } => Some(
            PartsView {
                order_id,
                instrument,
                side,
                qty,
                kind: OrderKind::Limit { price },
                shown: OrderKind::Limit { price },
                tif: 56,
                tail: Seq::empty(),
            },
        ),
        OrderRequest::SubmitLoc { order_id, instrument, side, qty, price } => Some(
            PartsView {
                order_id,
                instrument,
                side,
                qty,
                kind: OrderKind::Loc { price },
                shown: OrderKind::Loc { price },
                tif: 48,
                tail: Seq::empty(),
            },
        ),
        _ => None,
    }
}

fn build_limit_parts(req: &OrderRequest) -> (r: Option<Parts>)
    ensures
        parts_view(r) == limit_parts(*req),
{
    match req {
        OrderRequest::SubmitLimit { order_id, instrument, side, qty, price } => Some(
            Parts {
                order_id: *order_id,
                instrument: *instrument,
                side: *side,
                qty: *qty,
                kind: OrderKind::Limit { price: *price },
                shown: OrderKind::Limit { price: *price },
                tif: 48,
                tail: Fields::new(),
            },
        ),
        OrderRequest::SubmitLimitGtc { order_id, instrument, side, qty, price, outside_rth } => Some(
            Parts {
                order_id: *order_id,
                instrument: *instrument,
                side: *side,
                qty: *qty,
                kind: OrderKind::Limit { price: *price },
                shown: OrderKind::Limit { price: *price },
                tif: 49,
                tail: field_if(*outside_rth, 6433, "1"),
            },
        ),
        OrderRequest::SubmitLimitIoc { order_id, instrument, side, qty, price } => Some(
            Parts {
                order_id: *order_id,
                instrument: *instrument,
                side: *side,
                qty: *qty,
                kind: OrderKind::Limit { price: *price },
                shown: OrderKind::Limit { price: *price },
                tif: 51,
                tail: Fields::new(),
            },
        ),
        OrderRequest::SubmitLimitFok { order_id, instrument, side, qty, price } => Some(
            Parts {
                order_id: *order_id,
                instrument: *instrument,
                side: *side,
                qty: *qty,
                kind: OrderKind::Limit { price: *price },
                shown: OrderKind::Limit { price: *price },
                tif: 52,
                tail: Fields::new(),
            },
        ),
        OrderRequest::SubmitLimitOpg { order_id, instrument, side, qty, price } => Some(
            Parts {
                order_id: *order_id,
                instrument: *instrument,
                side: *side,
                qty: *qty,
                kind: OrderKind::Limit { price: *price },
                shown: OrderKind::Limit { price: *price },
                tif: 50,
                tail: Fields::new(),
            },
        ),
        OrderRequest::SubmitLimitAuc { order_id, instrument, side, qty, price } => Some(
            Parts {
                order_id: *order_id,
                instrument: *instrument,
                side: *side,
                qty: *qty,
                kind: OrderKind::Limit { price: *price },
                shown: OrderKind::Limit { price: *price },
                tif: 56,
                tail: Fields::new(),
            },
        ),
        OrderRequest::SubmitLoc { order_id, instrument, side, qty, price } => Some(
            Parts {
                order_id: *order_id,
                instrument: *instrument,
                side: *side,
                qty: *qty,
                kind: OrderKind::Loc { price: *price },
                shown: OrderKind::Loc { price: *price },
                tif: 48,
                tail: Fields::new(),
            },
        ),
        _ => None,
    }
}

/// The parts of an order with a stop or trigger price.
pub open spec fn stop_parts(req: OrderRequest) -> Option<PartsView> {
    match req {
        OrderRequest::SubmitStopLimit { order_id, instrument, side, qty, price, stop_price } => Some(
            PartsView {
                order_id,
                instrument,
                side,
                qty,
                kind: OrderKind::StopLimit { price, stop_price },
                shown: OrderKind::StopLimit { price, stop_price },
                tif: 48,
                tail: Seq::empty(),
            },
        ),
        OrderRequest::SubmitStopLimitGtc { order_id, instrument, side, qty, price, stop_price, outside_rth } => Some(
            PartsView {
                order_id,
                instrument,
                side,
                qty,
                kind: OrderKind::StopLimit { price, stop_price },
                shown: OrderKind::StopLimit { price, stop_price },
                tif: 49,
                tail: one_if(outside_rth, 6433, "1"@),
            },
        ),
        OrderRequest::SubmitStop { order_id, instrument, side, qty, stop_price } => Some(
            PartsView {
                order_id,
                instrument,
                side,
                qty,
                kind: OrderKind::Stop { stop_price },
                shown: OrderKind::Stop { stop_price },
                tif: 48,
                tail: Seq::empty(),
            },
        ),
        OrderRequest::SubmitStopGtc { order_id, instrument, side, qty, stop_price, outside_rth } => Some(
            PartsView {
                order_id,
                instrument,
                side,
                qty,
                kind: OrderKind::Stop { stop_price },
                shown: OrderKind::Stop { stop_price },
                tif: 49,
                tail: one_if(outside_rth, 6433, "1"@),
            },
        ),
        OrderRequest::SubmitMit { order_id, instrument, side, qty, stop_price } => Some(
            PartsView {
                order_id,
                instrument,
                side,
                qty,
                kind: OrderKind::Mit { stop_price },
                shown: OrderKind::Mit { stop_price },
                tif: 48,
                tail: Seq::empty(),
            },
        ),
        OrderRequest::SubmitLit { order_id, instrument, side, qty, price, stop_price } => Some(
            PartsView {
                order_id,
                instrument,
                side,
                qty,
                kind: OrderKind::Lit { price, stop_price },
                shown: OrderKind::Lit { price, stop_price },
                tif: 48,
                tail: Seq::empty(),
            },
        ),
        OrderRequest::SubmitStpPrt { order_id, instrument, side, qty, stop_price } => Some(
            PartsView {
                order_id,
                instrument,
                side,
                qty,
                kind: OrderKind::StpPrt { stop_price },
                shown: OrderKind::StpPrt { stop_price },
                tif: 48,
                tail: Seq::empty(),
            },
        ),
        _ => None,
    }
}

fn build_stop_parts(req: &OrderRequest) -> (r: Option<Parts>)
    ensures
        parts_view(r) == stop_parts(*req),
{
    match req {
        OrderRequest::SubmitStopLimit { order_id, instrument, side, qty, price, stop_price } => Some(
            Parts {
                order_id: *order_id,
                instrument: *instrument,
                side: *side,
                qty: *qty,
                kind: OrderKind::StopLimit { price: *price, stop_price: *stop_price },
                shown: OrderKind::StopLimit { price: *price, stop_price: *stop_price },
                tif: 48,
                tail: Fields::new(),
            },
        ),
        OrderRequest::SubmitStopLimitGtc { order_id, instrument, side, qty, price, stop_price, outside_rth } => Some(
            Parts {
                order_id: *order_id,
                instrument: *instrument,
                side: *side,
                qty: *qty,
                kind: OrderKind::StopLimit { price: *price, stop_price: *stop_price },
                shown: OrderKind::StopLimit { price: *price, stop_price: *stop_price },
                tif: 49,
                tail: field_if(*outside_rth, 6433, "1"),
            },
        ),
        OrderRequest::SubmitStop { order_id, instrument, side, qty, stop_price } => Some(
            Parts {
                order_id: *order_id,
                instrument: *instrument,
                side: *side,
                qty: *qty,
                kind: OrderKind::Stop { stop_price: *stop_price },
                shown: OrderKind::Stop { stop_price: *stop_price },
                tif: 48,
                tail: Fields::new(),
            },
        ),
        OrderRequest::SubmitStopGtc { order_id, instrument, side, qty, stop_price, outside_rth } => Some(
            Parts {
                order_id: *order_id,
                instrument: *instrument,
                side: *side,
                qty: *qty,
                kind: OrderKind::Stop { stop_price: *stop_price },
                shown: OrderKind::Stop { stop_price: *stop_price },
                tif: 49,
                tail: field_if(*outside_rth, 6433, "1"),
            },
        ),
        OrderRequest::SubmitMit { order_id, instrument, side, qty, stop_price } => Some(
            Parts {
                order_id: *order_id,
                instrument: *instrument,
                side: *side,
                qty: *qty,
                kind: OrderKind::Mit { stop_price: *stop_price },
                shown: OrderKind::Mit { stop_price: *stop_price },
                tif: 48,
                tail: Fields::new(),
            },
        ),
        OrderRequest::SubmitLit { order_id, instrument, side, qty, price, stop_price } => Some(
            Parts {
                order_id: *order_id,
                instrument: *instrument,
                side: *side,
                qty: *qty,
                kind: OrderKind::Lit { price: *price, stop_price: *stop_price },
                shown: OrderKind::Lit { price: *price, stop_price: *stop_price },
                tif: 48,
                tail: Fields::new(),
            },
        ),
        OrderRequest::SubmitStpPrt { order_id, instrument, side, qty, stop_price } => Some(
            Parts {
                order_id: *order_id,
                instrument: *instrument,
                side: *side,
                qty: *qty,
                kind: OrderKind::StpPrt { stop_price: *stop_price },
                shown: OrderKind::StpPrt { stop_price: *stop_price },
                tif: 48,
                tail: Fields::new(),
            },
        ),
        _ => None,
    }
}

/// The parts of an order without a price.
pub open spec fn market_parts(req: OrderRequest) -> Option<PartsView> {
    match req {
        OrderRequest::SubmitMarket { order_id, instrument, side, qty } => Some(
            PartsView {
                order_id,
                instrument,
                side,
                qty,
                kind: OrderKind::Market,
                shown: OrderKind::Market,
                tif: 48,
                tail: Seq::empty(),
            },
        ),
        OrderRequest::SubmitMoc { order_id, instrument, side, qty } => Some(
            PartsView {
                order_id,
                instrument,
                side,
                qty,
                kind: OrderKind::Moc,
                shown: OrderKind::Moc,
                tif: 48,
                tail: Seq::empty(),
            },
        ),
        OrderRequest::SubmitMtl { order_id, instrument, side, qty } => Some(
            PartsView {
                order_id,
                instrument,
                side,
                qty,
                kind: OrderKind::Mtl,
                shown: OrderKind::Mtl,
                tif: 48,
                tail: Seq::empty(),
            },
        ),
        OrderRequest::SubmitMtlAuc { order_id, instrument, side, qty } => Some(
            PartsView {
                order_id,
                instrument,
                side,
                qty,
                kind: OrderKind::Mtl,
                shown: OrderKind::Mtl,
                tif: 56,
                tail: Seq::empty(),
            },
        ),
        OrderRequest::SubmitMktPrt { order_id, instrument, side, qty } => Some(
            PartsView {
                order_id,
                instrument,
                side,
                qty,
                kind: OrderKind::MktPrt,
                shown: OrderKind::MktPrt,
                tif: 48,
                tail: Seq::empty(),
            },
        ),
        OrderRequest::SubmitSnapMkt { order_id, instrument, side, qty } => Some(
            PartsView {
                order_id,
                instrument,
                side,
                qty,
                kind: OrderKind::SnapMkt,
                shown: OrderKind::SnapMkt,
                tif: 48,
                tail: Seq::empty(),
            },
        ),
        OrderRequest::SubmitSnapMid { order_id, instrument, side, qty } => Some(
            PartsView {
                order_id,
                instrument,
                side,
                qty,
                kind: OrderKind::SnapMid,
                shown: OrderKind::SnapMid,
                tif: 48,
                tail: Seq::empty(),
            },
        ),
        OrderRequest::SubmitSnapPri { order_id, instrument, side, qty } => Some(
            PartsView {
                order_id,
                instrument,
                side,
                qty,
                kind: OrderKind::SnapPri,
                shown: OrderKind::SnapPri,
                tif: 48,
                tail: Seq::empty(),
            },
        ),
        _ => None,
    }
}

fn build_market_parts(req: &OrderRequest) -> (r: Option<Parts>)
    ensures
        parts_view(r) == market_parts(*req),
{
    match req {
        OrderRequest::SubmitMarket { order_id, instrument, side, qty } => Some(
            Parts {
                order_id: *order_id,
                instrument: *instrument,
                side: *side,
                qty: *qty,
                kind: OrderKind::Market,
                shown: OrderKind::Market,
                tif: 48,
                tail: Fields::new(),
            },
        ),
        OrderRequest::SubmitMoc { order_id, instrument, side, qty } => Some(
            Parts {
                order_id: *order_id,
                instrument: *instrument,
                side: *side,
                qty: *qty,
                kind: OrderKind::Moc,
                shown: OrderKind::Moc,
                tif: 48,
                tail: Fields::new(),
            },
        ),
        OrderRequest::SubmitMtl { order_id, instrument, side, qty } => Some(
            Parts {
                order_id: *order_id,
                instrument: *instrument,
                side: *side,
                qty: *qty,
                kind: OrderKind::Mtl,
                shown: OrderKind::Mtl,
                tif: 48,
                tail: Fields::new(),
            },
        ),
        OrderRequest::SubmitMtlAuc { order_id, instrument, side, qty } => Some(
            Parts {
                order_id: *order_id,
                instrument: *instrument,
                side: *side,
                qty: *qty,
                kind: OrderKind::Mtl,
                shown: OrderKind::Mtl,
                tif: 56,
                tail: Fields::new(),
            },
        ),
        OrderRequest::SubmitMktPrt { order_id, instrument, side, qty } => Some(
            Parts {
                order_id: *order_id,
                instrument: *instrument,
                side: *side,
                qty: *qty,
                kind: OrderKind::MktPrt,
                shown: OrderKind::MktPrt,
                tif: 48,
                tail: Fields::new(),
            },
        ),
        OrderRequest::SubmitSnapMkt { order_id, instrument, side, qty } => Some(
            Parts {
                order_id: *order_id,
                instrument: *instrument,
                side: *side,
                qty: *qty,
                kind: OrderKind::SnapMkt,
                shown: OrderKind::SnapMkt,
                tif: 48,
                tail: Fields::new(),
            },
        ),
        OrderRequest::SubmitSnapMid { order_id, instrument, side, qty } => Some(
            Parts {
                order_id: *order_id,
                instrument: *instrument,
                side: *side,
                qty: *qty,
                kind: OrderKind::SnapMid,
                shown: OrderKind::SnapMid,
                tif: 48,
                tail: Fields::new(),
            },
        ),
        OrderRequest::SubmitSnapPri { order_id, instrument, side, qty } => Some(
            Parts {
                order_id: *order_id,
                instrument: *instrument,
                side: *side,
                qty: *qty,
                kind: OrderKind::SnapPri,
                shown: OrderKind::SnapPri,
                tif: 48,
                tail: Fields::new(),
            },
        ),
        _ => None,
    }
}

/// What follows the common fields of a midpoint peg: the two marks that tell it from a market
/// peg, and its offset when it is set.
pub open spec fn peg_mid_tail(offset: Price) -> FieldSeq {
    add_if(
        Seq::empty().push((8403u32, "0.0"@)).push((8404u32, "0.0"@)),
        offset > 0,
        211,
        price_text(offset as int),
    )
}

pub(crate) fn build_peg_mid_tail(offset: Price) -> (r: Fields)
    ensures
        r@ == peg_mid_tail(offset),
{
    let mut tail = Fields::new();
    tail.put_str(8403, "0.0");
    tail.put_str(8404, "0.0");
    if offset > 0 {
        tail.put(211, format_price(offset));
    }
    tail
}

/// The parts of a trailing or pegged order. An initial stop, a price cap and a peg's offset
/// follow the common fields, when they are set.
pub open spec fn peg_parts(req: OrderRequest) -> Option<PartsView> {
    match req {
        OrderRequest::SubmitRel { order_id, instrument, side, qty, offset } => Some(
            PartsView {
                order_id,
                instrument,
                side,
                qty,
                kind: OrderKind::Rel { offset },
                shown: OrderKind::Rel { offset },
                tif: 48,
                tail: Seq::empty(),
            },
        ),
        OrderRequest::SubmitTrailingStop { order_id, instrument, side, qty, trail_amt, trail_stop_price } => Some(
            PartsView {
                order_id,
                instrument,
                side,
                qty,
                kind: OrderKind::TrailingStop { trail_amt, trail_stop_price },
                shown: OrderKind::TrailingStop { trail_amt, trail_stop_price: 0 },
                tif: 48,
                tail: one_if(trail_stop_price > 0, 6117, price_text(trail_stop_price as int)),
            },
        ),
        OrderRequest::SubmitTrailingStopLimit { order_id, instrument, side, qty, lmt_offset, trail_amt, trail_stop_price } => Some(
            PartsView {
                order_id,
                instrument,
                side,
                qty,
                kind: OrderKind::TrailingStopLimit { lmt_offset, trail_amt, trail_stop_price },
                shown: OrderKind::TrailingStopLimit { lmt_offset, trail_amt, trail_stop_price: 0 },
                tif: 48,
                tail: one_if(trail_stop_price > 0, 6117, price_text(trail_stop_price as int)),
            },
        ),
        OrderRequest::SubmitTrailingStopPct { order_id, instrument, side, qty, trail_pct, trail_stop_price } => Some(
            PartsView {
                order_id,
                instrument,
                side,
                qty,
                kind: OrderKind::TrailPct { trail_pct, trail_stop_price },
                shown: OrderKind::TrailPct { trail_pct, trail_stop_price: 0 },
                tif: 48,
                tail: one_if(trail_stop_price > 0, 6117, price_text(trail_stop_price as int)),
            },
        ),
        OrderRequest::SubmitMidPrice { order_id, instrument, side, qty, price_cap } => Some(
            PartsView {
                order_id,
                instrument,
                side,
                qty,
                kind: OrderKind::MidPrice { price_cap },
                shown: OrderKind::MidPrice { price_cap: 0 },
                tif: 48,
                tail: one_if(price_cap > 0, 44, price_text(price_cap as int)),
            },
        ),
        OrderRequest::SubmitPegMkt { order_id, instrument, side, qty, offset } => Some(
            PartsView {
                order_id,
                instrument,
                side,
                qty,
                kind: OrderKind::PegMkt { offset },
                shown: OrderKind::PegMkt { offset: 0 },
                tif: 48,
                tail: one_if(offset > 0, 211, price_text(offset as int)),
            },
        ),
        OrderRequest::SubmitPegMid { order_id, instrument, side, qty, offset } => Some(
            PartsView {
                order_id,
                instrument,
                side,
                qty,
                kind: OrderKind::PegMid { offset },
                shown: OrderKind::PegMkt { offset: 0 },
                tif: 48,
                tail: peg_mid_tail(offset),
            },
        ),
        _ => None,
    }
}

fn build_peg_parts(req: &OrderRequest) -> (r: Option<Parts>)
    ensures
        parts_view(r) == peg_parts(*req),
{
    match req {
        OrderRequest::SubmitRel { order_id, instrument, side, qty, offset } => Some(
            Parts {
                order_id: *order_id,
                instrument: *instrument,
                side: *side,
                qty: *qty,
                kind: OrderKind::Rel { offset: *offset },
                shown: OrderKind::Rel { offset: *offset },
                tif: 48,
                tail: Fields::new(),
            },
        ),
        OrderRequest::SubmitTrailingStop { order_id, instrument, side, qty, trail_amt, trail_stop_price } => Some(
            Parts {
                order_id: *order_id,
                instrument: *instrument,
                side: *side,
                qty: *qty,
                kind: OrderKind::TrailingStop { trail_amt: *trail_amt, trail_stop_price: *trail_stop_price },
                shown: OrderKind::TrailingStop { trail_amt: *trail_amt, trail_stop_price: 0 },
                tif: 48,
                tail: field_if(*trail_stop_price > 0, 6117, format_price(*trail_stop_price).as_str()),
            },
        ),
        OrderRequest::SubmitTrailingStopLimit { order_id, instrument, side, qty, lmt_offset, trail_amt, trail_stop_price } => Some(
            Parts {
                order_id: *order_id,
                instrument: *instrument,
                side: *side,
                qty: *qty,
                kind: OrderKind::TrailingStopLimit { lmt_offset: *lmt_offset, trail_amt: *trail_amt, trail_stop_price: *trail_stop_price },
                shown: OrderKind::TrailingStopLimit { lmt_offset: *lmt_offset, trail_amt: *trail_amt, trail_stop_price: 0 },
                tif: 48,
                tail: field_if(*trail_stop_price > 0, 6117, format_price(*trail_stop_price).as_str()),
            },
        ),
        OrderRequest::SubmitTrailingStopPct { order_id, instrument, side, qty, trail_pct, trail_stop_price } => Some(
            Parts {
                order_id: *order_id,
                instrument: *instrument,
                side: *side,
                qty: *qty,
                kind: OrderKind::TrailPct { trail_pct: *trail_pct, trail_stop_price: *trail_stop_price },
                shown: OrderKind::TrailPct { trail_pct: *trail_pct, trail_stop_price: 0 },
                tif: 48,
                tail: field_if(*trail_stop_price > 0, 6117, format_price(*trail_stop_price).as_str()),
            },
        ),
        OrderRequest::SubmitMidPrice { order_id, instrument, side, qty, price_cap } => Some(
            Parts {
                order_id: *order_id,
                instrument: *instrument,
                side: *side,
                qty: *qty,
                kind: OrderKind::MidPrice { price_cap: *price_cap },
                shown: OrderKind::MidPrice { price_cap: 0 },
                tif: 48,
                tail: field_if(*price_cap > 0, 44, format_price(*price_cap).as_str()),
            },
        ),
        OrderRequest::SubmitPegMkt { order_id, instrument, side, qty, offset } => Some(
            Parts {
                order_id: *order_id,
                instrument: *instrument,
                side: *side,
                qty: *qty,
                kind: OrderKind::PegMkt { offset: *offset },
                shown: OrderKind::PegMkt { offset: 0 },
                tif: 48,
                tail: field_if(*offset > 0, 211, format_price(*offset).as_str()),
            },
        ),
        OrderRequest::SubmitPegMid { order_id, instrument, side, qty, offset } => Some(
            Parts {
                order_id: *order_id,
                instrument: *instrument,
                side: *side,
                qty: *qty,
                kind: OrderKind::PegMid { offset: *offset },
                shown: OrderKind::PegMkt { offset: 0 },
                tif: 48,
                tail: build_peg_mid_tail(*offset),
            },
        ),
        _ => None,
    }
}

/// The parts of a plain order.
pub open spec fn plain_parts(req: OrderRequest) -> Option<PartsView> {
    if limit_parts(req) is Some {
        limit_parts(req)
    } else if stop_parts(req) is Some {
        stop_parts(req)
    } else if market_parts(req) is Some {
        market_parts(req)
    } else {
        peg_parts(req)
    }
}

fn build_plain_parts(req: &OrderRequest) -> (r: Option<Parts>)
    ensures
        parts_view(r) == plain_parts(*req),
{
    let a = build_limit_parts(req);
    if a.is_some() {
        return a;
    }
    let b = build_stop_parts(req);
    if b.is_some() {
        return b;
    }
    let c = build_market_parts(req);
    if c.is_some() {
        return c;
    }
    build_peg_parts(req)
}

/// The plan for an adaptive order.
pub open spec fn adaptive_plan(
    c: ContextView,
    order_id: OrderId,
    instrument: InstrumentId,
    side: Side,
    qty: u32,
    price: Price,
    priority: crate::engine::order::AdaptivePriority,
    tif: u8,
    attrs: OrderAttrs,
) -> PlanView {
    let k = OrderKind::Limit { price };
    PlanView {
        kind: algo_kind_fields(price),
        ..kind_plan(
            c,
            order_id,
            instrument,
            side,
            qty,
            k,
            k,
            tif,
            adaptive_tail(attrs, priority),
        )
    }
}

fn make_adaptive_plan(
    context: &Context,
    order_id: OrderId,
    instrument: InstrumentId,
    side: Side,
    qty: u32,
    price: Price,
    priority: crate::engine::order::AdaptivePriority,
    tif: u8,
    attrs: &OrderAttrs,
) -> (r: Plan)
    ensures
        r@ == adaptive_plan(
            context@,
            order_id,
            instrument,
            side,
            qty,
            price,
            priority,
            tif,
            *attrs,
        ),
{
    let mut tail = Fields::new();
    push_extended_attrs(&mut tail, attrs, true);
    tail.put_str(847, "Adaptive");
    tail.put_str(5957, "1");
    tail.put_str(5958, "adaptivePriority");
    tail.put_str(5960, priority.as_str());
    let k = OrderKind::Limit { price };
    let mut p = make_plan(context, order_id, instrument, side, qty, k, k, tif, tail);
    p.kind = build_algo_kind_fields(price);
    p
}

/// The plan for an order that an algorithm works.
pub open spec fn algo_plan(
    c: ContextView,
    order_id: OrderId,
    instrument: InstrumentId,
    side: Side,
    qty: u32,
    price: Price,
    algo: AlgoParams,
    tif: u8,
    attrs: OrderAttrs,
) -> PlanView {
    let k = OrderKind::Limit { price };
    PlanView {
        kind: algo_kind_fields(price),
        ..kind_plan(
            c,
            order_id,
            instrument,
            side,
            qty,
            k,
            k,
            tif,
            with_algo(with_attrs(Seq::empty(), attrs, true), algo),
        )
    }
}

fn make_algo_plan(
    context: &Context,
    order_id: OrderId,
    instrument: InstrumentId,
    side: Side,
    qty: u32,
    price: Price,
    algo: &AlgoParams,
    tif: u8,
    attrs: &OrderAttrs,
) -> (r: Plan)
    ensures
        r@ == algo_plan(context@, order_id, instrument, side, qty, price, *algo, tif, *attrs),
{
    let mut tail = Fields::new();
    push_extended_attrs(&mut tail, attrs, true);
    put_algo(&mut tail, algo);
    let k = OrderKind::Limit { price };
    let mut p = make_plan(context, order_id, instrument, side, qty, k, k, tif, tail);
    p.kind = build_algo_kind_fields(price);
    p
}

/// The plan for an order pegged to a benchmark, whose tail is given.
pub open spec fn benchmark_plan(
    c: ContextView,
    order_id: OrderId,
    instrument: InstrumentId,
    side: Side,
    qty: u32,
    price: Price,
    tail: FieldSeq,
) -> PlanView {
    let k = OrderKind::Limit { price };
    let p = kind_plan(c, order_id, instrument, side, qty, k, k, 48, tail);
    PlanView {
        order: Order { ord_type: ORD_PEG_BENCH, ..p.order },
        kind: seq![(40u32, "PB"@), (44u32, price_text(price as int))],
        ..p
    }
}

fn build_benchmark_tail(
    ref_con_id: u32,
    is_peg_decrease: bool,
    pegged_change_amount: Price,
    ref_change_amount: Price,
) -> (r: Fields)
    ensures
        r@ == benchmark_tail(ref_con_id, is_peg_decrease, pegged_change_amount, ref_change_amount),
{
    let mut tail = Fields::new();
    tail.put_uint(6941, ref_con_id as u64);
    tail.put_str(6938, flag(is_peg_decrease));
    tail.put(6939, format_price(pegged_change_amount));
    tail.put(6942, format_price(ref_change_amount));
    proof {
        assert(tail@ =~= benchmark_tail(
            ref_con_id,
            is_peg_decrease,
            pegged_change_amount,
            ref_change_amount,
        ));
    }
    tail
}

fn make_benchmark_plan(
    context: &Context,
    order_id: OrderId,
    instrument: InstrumentId,
    side: Side,
    qty: u32,
    price: Price,
    tail: Fields,
) -> (r: Plan)
    ensures
        r@ == benchmark_plan(context@, order_id, instrument, side, qty, price, tail@),
{
    let k = OrderKind::Limit { price };
    let mut p = make_plan(context, order_id, instrument, side, qty, k, k, 48, tail);
    let mut kind = Fields::new();
    kind.put_str(40, "PB");
    kind.put(44, format_price(price));
    proof {
        assert(kind@ =~= seq![(40u32, "PB"@), (44u32, price_text(price as int))]);
    }
    p.kind = kind;
    p.order = Order { ord_type: ORD_PEG_BENCH, ..p.order };
    p
}

/// The plan for a preview of an order.
pub open spec fn what_if_plan(
    c: ContextView,
    order_id: OrderId,
    instrument: InstrumentId,
    side: Side,
    qty: u32,
    price: Price,
    tif: u8,
    attrs: OrderAttrs,
) -> PlanView {
    let k = OrderKind::Limit { price };
    let p = kind_plan(
        c,
        order_id,
        instrument,
        side,
        qty,
        k,
        k,
        tif,
        with_attrs(Seq::empty().push((6091u32, "1"@)), attrs, false),
    );
    PlanView { order: Order { ord_type: ORD_WHAT_IF, ..p.order }, ..p }
}

fn make_what_if_plan(
    context: &Context,
    order_id: OrderId,
    instrument: InstrumentId,
    side: Side,
    qty: u32,
    price: Price,
    tif: u8,
    attrs: &OrderAttrs,
) -> (r: Plan)
    ensures
        r@ == what_if_plan(context@, order_id, instrument, side, qty, price, tif, *attrs),
{
    let mut tail = Fields::new();
    tail.put_str(6091, "1");
    push_extended_attrs(&mut tail, attrs, false);
    let k = OrderKind::Limit { price };
    let mut p = make_plan(context, order_id, instrument, side, qty, k, k, tif, tail);
    p.order = Order { ord_type: ORD_WHAT_IF, ..p.order };
    p
}

/// The plan for a limit order of a quantity that need not be whole.
pub open spec fn fractional_plan(
    c: ContextView,
    order_id: OrderId,
    instrument: InstrumentId,
    side: Side,
    qty: crate::types::Qty,
    price: Price,
) -> PlanView {
    let k = OrderKind::Limit { price };
    let p = kind_plan(c, order_id, instrument, side, 0, k, k, 48, Seq::empty());
    PlanView { order: Order { qty_fixed: qty, ..p.order }, qty: qty_text(qty as int), ..p }
}

fn make_fractional_plan(
    context: &Context,
    order_id: OrderId,
    instrument: InstrumentId,
    side: Side,
    qty: crate::types::Qty,
    price: Price,
) -> (r: Plan)
    ensures
        r@ == fractional_plan(context@, order_id, instrument, side, qty, price),
{
    let k = OrderKind::Limit { price };
    let mut p = make_plan(context, order_id, instrument, side, 0, k, k, 48, Fields::new());
    p.order = Order { qty_fixed: qty, ..p.order };
    p.qty = format_qty(qty);
    p
}

/// The plans for a bracket: the entry, and the two children that take the profit and stop the
/// loss.
pub open spec fn bracket_plans(
    c: ContextView,
    parent_id: OrderId,
    tp_id: OrderId,
    sl_id: OrderId,
    instrument: InstrumentId,
    side: Side,
    qty: u32,
    entry_price: Price,
    take_profit: Price,
    stop_loss: Price,
) -> Seq<PlanView> {
    let child = child_tail(parent_id);
    let exit = exit_side(side);
    let target = OrderKind::Limit { price: take_profit };
    let stop = OrderKind::Stop { stop_price: stop_loss };
    seq![
        bracket_plan(
            c,
            parent_id,
            instrument,
            side,
            qty,
            OrderKind::Limit { price: entry_price },
            48,
            Seq::empty(),
        ),
        bracket_plan(c, tp_id, instrument, exit, qty, target, 49, child),
        bracket_plan(c, sl_id, instrument, exit, qty, stop, 49, child),
    ]
}

fn make_bracket_plans(
    context: &Context,
    parent_id: OrderId,
    tp_id: OrderId,
    sl_id: OrderId,
    instrument: InstrumentId,
    side: Side,
    qty: u32,
    entry_price: Price,
    take_profit: Price,
    stop_loss: Price,
) -> (r: Vec<Plan>)
    ensures
        plan_views(r@) == bracket_plans(
            context@,
            parent_id,
            tp_id,
            sl_id,
            instrument,
            side,
            qty,
            entry_price,
            take_profit,
            stop_loss,
        ),
{
    let exit = match side {
        Side::Buy => Side::Sell,
        _ => Side::Buy,
    };
    let entry = make_bracket_plan(
        context,
        parent_id,
        instrument,
        side,
        qty,
        OrderKind::Limit { price: entry_price },
        48,
        Fields::new(),
    );
    let target = make_bracket_plan(
        context,
        tp_id,
        instrument,
        exit,
        qty,
        OrderKind::Limit { price: take_profit },
        49,
        build_child_tail(parent_id),
    );
    let stop = make_bracket_plan(
        context,
        sl_id,
        instrument,
        exit,
        qty,
        OrderKind::Stop { stop_price: stop_loss },
        49,
        build_child_tail(parent_id),
    );
    let ghost views = seq![entry@, target@, stop@];
    let mut v: Vec<Plan> = Vec::new();
    v.push(entry);
    v.push(target);
    v.push(stop);
    proof {
        assert(plan_views(v@) =~= views);
    }
    v
}

/// The orders that a request places, in the order in which they are sent.
pub open spec fn plans(c: ContextView, req: OrderRequest) -> Seq<PlanView> {
    match plain_parts(req) {
        Some(p) => seq![parts_plan(c, p)],
        None => special_plans(c, req),
    }
}

/// The orders that a request other than a plain one places.
pub open spec fn special_plans(c: ContextView, req: OrderRequest) -> Seq<PlanView> {
    match req {
        OrderRequest::SubmitAdjustableStop {
            order_id,
            instrument,
            side,
            qty,
            stop_price,
            trigger_price,
            adjusted_order_type,
            adjusted_stop_price,
            adjusted_stop_limit_price,
            adjusted_trailing_amount,
            adjustable_trailing_unit,
        } => {
            let k = OrderKind::AdjustableStop {
                stop_price,
                trigger_price,
                adjusted_order_type,
                adjusted_stop_price,
                adjusted_stop_limit_price,
                adjusted_trailing_amount,
                adjustable_trailing_unit,
            };
            seq![kind_plan(c, order_id, instrument, side, qty, k, k, 48, kind_tail(k))]
        },
        OrderRequest::SubmitLimitEx { order_id, instrument, side, qty, price, tif, attrs } => {
            let k = OrderKind::Limit { price };
            seq![extended_plan(c, order_id, instrument, side, qty, k, tif, attrs)]
        },
        OrderRequest::SubmitEx { order_id, instrument, side, qty, kind, tif, attrs } => seq![
            extended_plan(c, order_id, instrument, side, qty, kind, tif, attrs),
        ],
        OrderRequest::SubmitTrailingStopPctEx {
            order_id,
            instrument,
            side,
            qty,
            trail_pct,
            tif,
            attrs,
            trail_stop_price,
        } => {
            let k = OrderKind::TrailPct { trail_pct, trail_stop_price };
            seq![extended_plan(c, order_id, instrument, side, qty, k, tif, attrs)]
        },
        OrderRequest::SubmitAdaptive {
            order_id,
            instrument,
            side,
            qty,
            price,
            priority,
            tif,
            attrs,
        } => seq![
            adaptive_plan(c, order_id, instrument, side, qty, price, priority, tif, attrs),
        ],
        OrderRequest::SubmitAlgo { order_id, instrument, side, qty, price, algo, tif, attrs } => seq![
            algo_plan(c, order_id, instrument, side, qty, price, algo, tif, attrs),
        ],
        OrderRequest::SubmitPegBench {
            order_id,
            instrument,
            side,
            qty,
            price,
            ref_con_id,
            is_peg_decrease,
            pegged_change_amount,
            ref_change_amount,
        } => {
            let tail = benchmark_tail(
                ref_con_id,
                is_peg_decrease,
                pegged_change_amount,
                ref_change_amount,
            );
            seq![benchmark_plan(c, order_id, instrument, side, qty, price, tail)]
        },
        OrderRequest::SubmitWhatIf { order_id, instrument, side, qty, price, tif, attrs } => seq![
            what_if_plan(c, order_id, instrument, side, qty, price, tif, attrs),
        ],
        OrderRequest::SubmitLimitFractional { order_id, instrument, side, qty, price } => seq![
            fractional_plan(c, order_id, instrument, side, qty, price),
        ],
        OrderRequest::SubmitBracket {
            parent_id,
            tp_id,
            sl_id,
            instrument,
            side,
            qty,
            entry_price,
            take_profit,
            stop_loss,
        } => bracket_plans(
            c,
            parent_id,
            tp_id,
            sl_id,
            instrument,
            side,
            qty,
            entry_price,
            take_profit,
            stop_loss,
        ),
        _ => Seq::empty(),
    }
}

/// The views of a list of plans.
pub open spec fn plan_views(v: Seq<Plan>) -> Seq<PlanView> {
    v.map_values(|p: Plan| p@)
}

fn one_plan(p: Plan) -> (r: Vec<Plan>)
    ensures
        plan_views(r@) == seq![p@],
{
    let ghost view = p@;
    let mut v: Vec<Plan> = Vec::new();
    v.push(p);
    proof {
        assert(plan_views(v@) =~= seq![view]);
    }
    v
}

fn plan_special(context: &Context, req: &OrderRequest) -> (r: Vec<Plan>)
    ensures
        plan_views(r@) == special_plans(context@, *req),
{
    match req {
        OrderRequest::SubmitAdjustableStop {
            order_id,
            instrument,
            side,
            qty,
            stop_price,
            trigger_price,
            adjusted_order_type,
            adjusted_stop_price,
            adjusted_stop_limit_price,
            adjusted_trailing_amount,
            adjustable_trailing_unit,
        } => {
            let k = OrderKind::AdjustableStop {
                stop_price: *stop_price,
                trigger_price: *trigger_price,
                adjusted_order_type: *adjusted_order_type,
                adjusted_stop_price: *adjusted_stop_price,
                adjusted_stop_limit_price: *adjusted_stop_limit_price,
                adjusted_trailing_amount: *adjusted_trailing_amount,
                adjustable_trailing_unit: *adjustable_trailing_unit,
            };
            let tail = build_kind_tail(k);
            one_plan(make_plan(context, *order_id, *instrument, *side, *qty, k, k, 48, tail))
        },
        OrderRequest::SubmitLimitEx { order_id, instrument, side, qty, price, tif, attrs } => {
            let k = OrderKind::Limit { price: *price };
            one_plan(send_order_ex(context, *order_id, *instrument, *side, *qty, k, *tif, attrs))
        },
        OrderRequest::SubmitEx { order_id, instrument, side, qty, kind, tif, attrs } => one_plan(
            send_order_ex(context, *order_id, *instrument, *side, *qty, *kind, *tif, attrs),
        ),
        OrderRequest::SubmitTrailingStopPctEx {
            order_id,
            instrument,
            side,
            qty,
            trail_pct,
            tif,
            attrs,
            trail_stop_price,
        } => {
            let k = OrderKind::TrailPct {
                trail_pct: *trail_pct,
                trail_stop_price: *trail_stop_price,
            };
            one_plan(send_order_ex(context, *order_id, *instrument, *side, *qty, k, *tif, attrs))
        },
        OrderRequest::SubmitAdaptive {
            order_id,
            instrument,
            side,
            qty,
            price,
            priority,
            tif,
            attrs,
        } => one_plan(
            make_adaptive_plan(
                context,
                *order_id,
                *instrument,
                *side,
                *qty,
                *price,
                *priority,
                *tif,
                attrs,
            ),
        ),
        OrderRequest::SubmitAlgo { order_id, instrument, side, qty, price, algo, tif, attrs } =>
            one_plan(
            make_algo_plan(
                context,
                *order_id,
                *instrument,
                *side,
                *qty,
                *price,
                algo,
                *tif,
                attrs,
            ),
        ),
        OrderRequest::SubmitPegBench {
            order_id,
            instrument,
            side,
            qty,
            price,
            ref_con_id,
            is_peg_decrease,
            pegged_change_amount,
            ref_change_amount,
        } => {
            let tail = build_benchmark_tail(
                *ref_con_id,
                *is_peg_decrease,
                *pegged_change_amount,
                *ref_change_amount,
            );
            one_plan(
                make_benchmark_plan(context, *order_id, *instrument, *side, *qty, *price, tail),
            )
        },
        OrderRequest::SubmitWhatIf { order_id, instrument, side, qty, price, tif, attrs } =>
            one_plan(
            make_what_if_plan(
                context,
                *order_id,
                *instrument,
                *side,
                *qty,
                *price,
                *tif,
                attrs,
            ),
        ),
        OrderRequest::SubmitLimitFractional { order_id, instrument, side, qty, price } => one_plan(
            make_fractional_plan(context, *order_id, *instrument, *side, *qty, *price),
        ),
        OrderRequest::SubmitBracket {
            parent_id,
            tp_id,
            sl_id,
            instrument,
            side,
            qty,
            entry_price,
            take_profit,
            stop_loss,
        } => make_bracket_plans(
            context,
            *parent_id,
            *tp_id,
            *sl_id,
            *instrument,
            *side,
            *qty,
            *entry_price,
            *take_profit,
            *stop_loss,
        ),
        _ => {
            let v: Vec<Plan> = Vec::new();
            proof {
                assert(plan_views(v@) =~= Seq::empty());
            }
            v
        },
    }
}

/// Plans the orders that a request places.
pub fn plan_orders(context: &Context, req: &OrderRequest) -> (r: Vec<Plan>)
    ensures
        plan_views(r@) == plans(context@, *req),
{
    match build_plain_parts(req) {
        Some(p) => one_plan(
            make_plan(
                context,
                p.order_id,
                p.instrument,
                p.side,
                p.qty,
                p.kind,
                p.shown,
                p.tif,
                p.tail,
            ),
        ),
        None => plan_special(context, req),
    }
}

} // verus!
