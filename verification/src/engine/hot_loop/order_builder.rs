//! Order messages: what is sent to place, replace and cancel orders, and what is refused.
use vstd::prelude::*;

use crate::bridge::{OrderReports, OrderReportsView, OrderUpdate};
use crate::engine::context::{
    clamp, clamped, open_orders, status_change, versioned, versioned_text, Context, ContextView,
    StatusChange,
};
use crate::engine::hot_loop::order_fields::{
    add_if, directed, fix_side, percent_str, percent_text, put_expiry, side_code, tif_str,
    tif_text, type_code, type_code_of, with_expiry, FieldSeq,
};
use crate::engine::hot_loop::order_plans::{
    build_peg_mid_tail, kind_plan, peg_mid_tail, plain_parts, plan_orders, plan_views, plans,
    special_plans, Plan, PlanView,
};
use crate::engine::market_state::MarketView;
use crate::engine::order::{
    order_status_str, request_instrument, snapped, status_name, Order, OrderAttrs, OrderKind,
    OrderRequest, OrderStatus,
};
use crate::protocol::fix::{Fields, TAG_MSG_TYPE, TAG_SENDING_TIME};
use crate::text::{dec, format_int, format_uint, int_text};
use crate::types::{format_price, price_text, InstrumentId, OrderId, Price, MAX_INSTRUMENTS};

verus! {

// ---------------------------------------------------------------------------------------
// Messages
// ---------------------------------------------------------------------------------------

/// The fields before a new order's type.
pub open spec fn order_head(
    now: Seq<char>,
    account: Seq<char>,
    symbol: Seq<char>,
    p: PlanView,
) -> FieldSeq {
    seq![
        (TAG_MSG_TYPE, "D"@),
        (TAG_SENDING_TIME, now),
        (11u32, p.clord),
        (1u32, account),
        (21u32, "2"@),
        (55u32, symbol),
        (54u32, side_code(p.order.side)),
        (38u32, p.qty),
    ]
}

/// The fields between a new order's type and what follows: its time in force, the time, the
/// security type, where it goes, the currency and the customer.
pub open spec fn order_middle(
    now: Seq<char>,
    route: (Seq<char>, Seq<char>),
    p: PlanView,
) -> FieldSeq {
    let destination = if p.directed {
        "ISLAND"@
    } else {
        route.1
    };
    seq![
        (59u32, p.tif),
        (60u32, now),
        (167u32, route.0),
        (100u32, destination),
        (6210u32, destination),
        (15u32, "USD"@),
        (204u32, "0"@),
    ]
}

/// `s` with the contract id behind each secondary routing field (tag 6210).
pub open spec fn with_contract(s: FieldSeq, con_id: i64) -> FieldSeq
    decreases s.len(),
{
    if s.len() == 0 {
        s
    } else {
        let init = with_contract(s.drop_last(), con_id).push(s.last());
        if s.last().0 == 6210 {
            init.push((6008u32, int_text(con_id as int)))
        } else {
            init
        }
    }
}

/// The fields of a new order, without its contract id.
pub open spec fn unrouted_message(
    m: MarketView,
    account: Seq<char>,
    now: Seq<char>,
    p: PlanView,
) -> FieldSeq {
    order_head(now, account, m.symbols[p.order.instrument as int], p) + p.kind + order_middle(
        now,
        m.order_route(p.order.instrument),
        p,
    ) + p.tail
}

/// The fields of a new order. The contract id follows the secondary routing field, for an
/// instrument that has one.
pub open spec fn order_message(
    m: MarketView,
    account: Seq<char>,
    now: Seq<char>,
    p: PlanView,
) -> FieldSeq {
    match m.con_id_of(p.order.instrument) {
        Some(con_id) if con_id > 0 => with_contract(unrouted_message(m, account, now, p), con_id),
        _ => unrouted_message(m, account, now, p),
    }
}

/// The fields of a new order with the contract id behind the secondary routing field, for an
/// instrument that has a positive one.
pub fn send_new_order(context: &Context, instrument: InstrumentId, fields: Fields) -> (r: Fields)
    ensures
        r@ == (match context@.market.con_id_of(instrument) {
            Some(con_id) if con_id > 0 => with_contract(fields@, con_id),
            _ => fields@,
        }),
{
    let con_id: i64 = match context.market.con_id(instrument) {
        Some(c) => c,
        None => 0,
    };
    if con_id <= 0 {
        return fields;
    }
    let mut out = Fields::new();
    let mut i: usize = 0;
    proof {
        assert(out@ =~= with_contract(fields@.take(0), con_id));
    }
    while i < fields.items.len()
        invariant
            i <= fields.items.len(),
            out@ == with_contract(fields@.take(i as int), con_id),
        decreases fields.items.len() - i,
    {
        let tag: u32 = fields.items[i].0;
        proof {
            assert(fields@.take(i + 1).drop_last() =~= fields@.take(i as int));
            assert(fields@[i as int] == (fields.items@[i as int].0, fields.items@[i as int].1@));
        }
        out.put_str(tag, fields.items[i].1.as_str());
        if tag == 6210 {
            out.put(6008, format_int(con_id));
        }
        i = i + 1;
    }
    proof {
        assert(fields@.take(i as int) =~= fields@);
    }
    out
}

/// Builds the fields of a new order.
fn build_order_message(context: &Context, account_id: &str, now: &str, plan: &Plan) -> (r: Fields)
    requires
        context@.wf(),
        plan@.order.instrument < MAX_INSTRUMENTS,
    ensures
        r@ == order_message(context@.market, account_id@, now@, plan@),
{
    let instrument = plan.order.instrument;
    let (sec_type, route) = context.market.order_routing(instrument);
    let destination = if plan.directed {
        "ISLAND".to_owned()
    } else {
        route
    };
    let mut f = Fields::new();
    f.put_str(TAG_MSG_TYPE, "D");
    f.put_str(TAG_SENDING_TIME, now);
    f.put_str(11, plan.clord.as_str());
    f.put_str(1, account_id);
    f.put_str(21, "2");
    f.put_str(55, context.market.symbol(instrument));
    f.put_str(54, fix_side(plan.order.side));
    f.put_str(38, plan.qty.as_str());
    proof {
        assert(f@ =~= order_head(
            now@,
            account_id@,
            context@.market.symbols[instrument as int],
            plan@,
        ));
    }
    f.put_all(&plan.kind);
    let mut middle = Fields::new();
    middle.put_str(59, plan.tif.as_str());
    middle.put_str(60, now);
    middle.put(167, sec_type);
    middle.put_str(100, destination.as_str());
    middle.put_str(6210, destination.as_str());
    middle.put_str(15, "USD");
    middle.put_str(204, "0");
    proof {
        assert(middle@ =~= order_middle(now@, context@.market.order_route(instrument), plan@));
    }
    f.put_all(&middle);
    f.put_all(&plan.tail);
    send_new_order(context, instrument, f)
}

/// The context after the orders of a list of plans are tracked.
pub open spec fn with_plans(c: ContextView, p: Seq<PlanView>) -> ContextView
    decreases p.len(),
{
    if p.len() == 0 {
        c
    } else {
        with_plans(c, p.drop_last()).with_order(p.last().order)
    }
}

/// The messages of a list of plans.
pub open spec fn plan_messages(
    m: MarketView,
    account: Seq<char>,
    now: Seq<char>,
    p: Seq<PlanView>,
) -> Seq<FieldSeq> {
    p.map_values(|x: PlanView| order_message(m, account, now, x))
}

/// The fields of each message of a list.
pub open spec fn field_lists(v: Seq<Fields>) -> Seq<FieldSeq> {
    v.map_values(|f: Fields| f@)
}

/// Tracks the orders of a list of plans, and builds their messages.
fn place(context: &mut Context, account_id: &str, now: &str, list: &Vec<Plan>) -> (r: Vec<Fields>)
    requires
        old(context)@.wf(),
        forall|i: int|
            0 <= i < list@.len() ==> (#[trigger] list@[i]).order.instrument < MAX_INSTRUMENTS,
    ensures
        final(context)@.wf(),
        final(context)@ == with_plans(old(context)@, plan_views(list@)),
        field_lists(r@) == plan_messages(
            old(context)@.market,
            account_id@,
            now@,
            plan_views(list@),
        ),
{
    let ghost views = plan_views(list@);
    let ghost m = context@.market;
    let mut out: Vec<Fields> = Vec::new();
    let mut i: usize = 0;
    proof {
        assert(views.take(0) =~= Seq::empty());
        assert(field_lists(out@) =~= plan_messages(m, account_id@, now@, views.take(0)));
    }
    while i < list.len()
        invariant
            i <= list.len(),
            views == plan_views(list@),
            m == old(context)@.market,
            context@.wf(),
            context@.market == m,
            forall|k: int|
                0 <= k < list@.len() ==> (#[trigger] list@[k]).order.instrument < MAX_INSTRUMENTS,
            context@ == with_plans(old(context)@, views.take(i as int)),
            field_lists(out@) == plan_messages(m, account_id@, now@, views.take(i as int)),
        decreases list.len() - i,
    {
        let ghost before = out@;
        assert(list@[i as int].order.instrument < MAX_INSTRUMENTS);
        let msg = build_order_message(context, account_id, now, &list[i]);
        context.insert_order(list[i].order);
        let ghost text = msg@;
        out.push(msg);
        i = i + 1;
        proof {
            assert(views.take(i as int).drop_last() =~= views.take(i - 1));
            assert(views[i - 1] == list@[i - 1]@);
            assert(field_lists(out@) =~= field_lists(before).push(text));
            assert(field_lists(out@) =~= plan_messages(
                m,
                account_id@,
                now@,
                views.take(i as int),
            ));
        }
    }
    proof {
        assert(views.take(i as int) =~= views);
    }
    out
}

// ---------------------------------------------------------------------------------------
// Cancelling
// ---------------------------------------------------------------------------------------

/// The fields of a request to cancel an order.
pub open spec fn cancel_message(c: ContextView, now: Seq<char>, id: OrderId) -> FieldSeq {
    seq![
        (TAG_MSG_TYPE, "F"@),
        (TAG_SENDING_TIME, now),
        (11u32, seq!['C'] + dec(id as nat)),
        (41u32, c.server_clord(id)),
        (60u32, now),
    ]
}

fn build_cancel_message(context: &Context, now: &str, id: OrderId) -> (r: Fields)
    ensures
        r@ == cancel_message(context@, now@, id),
{
    let mut clord = String::new();
    clord.push('C');
    proof {
        assert(clord@ =~= seq!['C']);
    }
    clord.append(format_uint(id).as_str());
    let mut f = Fields::new();
    f.put_str(TAG_MSG_TYPE, "F");
    f.put_str(TAG_SENDING_TIME, now);
    f.put(11, clord);
    f.put(41, context.server_clord(id));
    f.put_str(60, now);
    proof {
        assert(f@ =~= cancel_message(context@, now@, id));
    }
    f
}

/// Why a request to cancel an order is refused: the order is not known (10147), or it is
/// finished or has a cancel pending (10148). `None` when the request goes out.
pub open spec fn cancel_refused(c: ContextView, id: OrderId) -> Option<(i64, Seq<char>)> {
    let state = match c.order(id) {
        Some(o) => if o.status == OrderStatus::PendingCancel {
            Some(OrderStatus::PendingCancel)
        } else {
            None
        },
        None => if c.finished.contains_key(id) {
            Some(c.finished[id])
        } else {
            None
        },
    };
    match state {
        Some(status) => Some(
            (
                10148,
                "OrderId "@ + dec(id as nat)
                    + " that needs to be cancelled can not be cancelled, state: "@ + status_name(
                    status,
                ) + "."@,
            ),
        ),
        None => if c.order(id) is Some {
            None
        } else {
            Some(
                (
                    10147,
                    "OrderId "@ + dec(id as nat) + " that needs to be cancelled is not found."@,
                ),
            )
        },
    }
}

/// The refusal's code and text.
pub open spec fn refusal_view(r: Option<(i64, String)>) -> Option<(i64, Seq<char>)> {
    match r {
        Some((code, message)) => Some((code, message@)),
        None => None,
    }
}

/// Why a request to cancel an order is refused. `None` when the request goes out.
pub fn cancel_refusal(context: &Context, order_id: OrderId) -> (r: Option<(i64, String)>)
    requires
        context@.wf(),
    ensures
        refusal_view(r) == cancel_refused(context@, order_id),
{
    let state = match context.order(order_id) {
        Some(o) => {
            if o.status == OrderStatus::PendingCancel {
                OrderStatus::PendingCancel
            } else {
                return None;
            }
        },
        None => match context.finished_status(order_id) {
            Some(s) => s,
            None => {
                let mut message = "OrderId ".to_owned();
                message.append(format_uint(order_id).as_str());
                message.append(" that needs to be cancelled is not found.");
                return Some((10147, message));
            },
        },
    };
    let mut message = "OrderId ".to_owned();
    message.append(format_uint(order_id).as_str());
    message.append(" that needs to be cancelled can not be cancelled, state: ");
    message.append(order_status_str(state));
    message.append(".");
    Some((10148, message))
}

/// What is reported when a request to cancel an order has gone out.
pub open spec fn pending_cancel_update(c: ContextView, o: Order) -> OrderUpdate {
    OrderUpdate {
        order_id: o.order_id,
        instrument: o.instrument,
        status: OrderStatus::PendingCancel,
        filled_qty_fixed: o.filled_fixed,
        remaining_qty_fixed: clamped(o.qty_fixed - o.filled_fixed),
        avg_fill_price: 0,
        perm_id: 0,
        parent_id: 0,
        timestamp_ns: c.now_ns,
    }
}

/// Whether an order changes to the pending-cancel state when a request to cancel it has gone
/// out: it is tracked, not finished, and not in that state already.
pub open spec fn cancel_pends(c: ContextView, id: OrderId) -> bool {
    status_change(c.status(id), OrderStatus::PendingCancel) == StatusChange::Changed
}

/// Notes that a request to cancel an order has gone out: the order's state changes to pending
/// cancel, which the server does not report, and the change is reported.
pub fn synthesize_pending_cancel(
    context: &mut Context,
    reports: &mut OrderReports,
    order_id: OrderId,
)
    requires
        old(context)@.wf(),
    ensures
        final(context)@.wf(),
        final(context)@ == old(context)@.after_status(order_id, OrderStatus::PendingCancel),
        final(reports)@ == (if cancel_pends(old(context)@, order_id) {
            OrderReportsView {
                updates: old(reports)@.updates.push(
                    pending_cancel_update(old(context)@, old(context)@.order(order_id)->0),
                ),
                ..old(reports)@
            }
        } else {
            old(reports)@
        }),
{
    let before = context.order(order_id);
    if !context.update_order_status(order_id, OrderStatus::PendingCancel) {
        return ;
    }
    if let Some(order) = before {
        reports.push_order_update(
            OrderUpdate {
                order_id,
                instrument: order.instrument,
                status: OrderStatus::PendingCancel,
                filled_qty_fixed: order.filled_fixed,
                remaining_qty_fixed: clamp(order.qty_fixed as i128 - order.filled_fixed as i128),
                avg_fill_price: 0,
                perm_id: 0,
                parent_id: 0,
                timestamp_ns: context.now_ns,
            },
        );
    }
}

// ---------------------------------------------------------------------------------------
// Replacing
// ---------------------------------------------------------------------------------------

/// The prices of an order type that stand before the account in a replace request.
pub open spec fn replace_prices(kind: OrderKind) -> FieldSeq {
    let none = Seq::<(u32, Seq<char>)>::empty();
    match kind {
        OrderKind::Limit { price } => none.push((44u32, price_text(price as int))),
        OrderKind::Loc { price } => none.push((44u32, price_text(price as int))),
        OrderKind::Stop { stop_price } => none.push((99u32, price_text(stop_price as int))),
        OrderKind::Mit { stop_price } => none.push((99u32, price_text(stop_price as int))),
        OrderKind::StpPrt { stop_price } => none.push((99u32, price_text(stop_price as int))),
        OrderKind::AdjustableStop { stop_price, .. } => none.push(
            (99u32, price_text(stop_price as int)),
        ),
        OrderKind::StopLimit { price, stop_price } => none.push(
            (44u32, price_text(price as int)),
        ).push((99u32, price_text(stop_price as int))),
        OrderKind::Lit { price, stop_price } => none.push((44u32, price_text(price as int))).push(
            (99u32, price_text(stop_price as int)),
        ),
        OrderKind::TrailingStop { trail_amt, .. } => none.push(
            (99u32, price_text(trail_amt as int)),
        ),
        OrderKind::TrailingStopLimit { trail_amt, .. } => none.push(
            (99u32, price_text(trail_amt as int)),
        ),
        OrderKind::TrailPct { trail_pct, .. } => none.push((99u32, percent_text(trail_pct))),
        OrderKind::MidPrice { price_cap } => add_if(
            none,
            price_cap > 0,
            44,
            price_text(price_cap as int),
        ),
        _ => none,
    }
}

fn build_replace_prices(kind: OrderKind) -> (f: Fields)
    ensures
        f@ == replace_prices(kind),
{
    let mut f = Fields::new();
    match kind {
        OrderKind::Limit { price } => {
            f.put(44, format_price(price));
        },
        OrderKind::Loc { price } => {
            f.put(44, format_price(price));
        },
        OrderKind::Stop { stop_price } => {
            f.put(99, format_price(stop_price));
        },
        OrderKind::Mit { stop_price } => {
            f.put(99, format_price(stop_price));
        },
        OrderKind::StpPrt { stop_price } => {
            f.put(99, format_price(stop_price));
        },
        OrderKind::AdjustableStop { stop_price, .. } => {
            f.put(99, format_price(stop_price));
        },
        OrderKind::StopLimit { price, stop_price } => {
            f.put(44, format_price(price));
            f.put(99, format_price(stop_price));
        },
        OrderKind::Lit { price, stop_price } => {
            f.put(44, format_price(price));
            f.put(99, format_price(stop_price));
        },
        OrderKind::TrailingStop { trail_amt, .. } => {
            f.put(99, format_price(trail_amt));
        },
        OrderKind::TrailingStopLimit { trail_amt, .. } => {
            f.put(99, format_price(trail_amt));
        },
        OrderKind::TrailPct { trail_pct, .. } => {
            f.put(99, percent_str(trail_pct));
        },
        OrderKind::MidPrice { price_cap } => {
            if price_cap > 0 {
                f.put(44, format_price(price_cap));
            }
        },
        _ => {},
    }
    f
}

/// The fields of an order type that stand behind it in a replace request.
pub open spec fn replace_companions(kind: OrderKind) -> FieldSeq {
    let none = Seq::<(u32, Seq<char>)>::empty();
    match kind {
        OrderKind::TrailingStop { trail_amt, .. } => none.push(
            (211u32, price_text(trail_amt as int)),
        ).push((18u32, "a"@)),
        OrderKind::TrailPct { trail_pct, .. } => none.push((211u32, percent_text(trail_pct))).push(
            (18u32, "a"@),
        ),
        OrderKind::TrailingStopLimit { trail_amt, .. } => none.push(
            (211u32, price_text(trail_amt as int)),
        ),
        OrderKind::PegMkt { offset } => add_if(none, offset > 0, 211, price_text(offset as int)),
        OrderKind::PegMid { offset } => peg_mid_tail(offset),
        OrderKind::Rel { offset } => none.push((211u32, price_text(offset as int))).push(
            (18u32, "R"@),
        ),
        _ => none,
    }
}

fn build_replace_companions(kind: OrderKind) -> (r: Fields)
    ensures
        r@ == replace_companions(kind),
{
    match kind {
        OrderKind::TrailingStop { trail_amt, .. } => {
            let mut f = Fields::new();
            f.put(211, format_price(trail_amt));
            f.put_str(18, "a");
            f
        },
        OrderKind::TrailPct { trail_pct, .. } => {
            let mut f = Fields::new();
            f.put(211, percent_str(trail_pct));
            f.put_str(18, "a");
            f
        },
        OrderKind::TrailingStopLimit { trail_amt, .. } => {
            let mut f = Fields::new();
            f.put(211, format_price(trail_amt));
            f
        },
        OrderKind::PegMkt { offset } => {
            let mut f = Fields::new();
            if offset > 0 {
                f.put(211, format_price(offset));
            }
            f
        },
        OrderKind::PegMid { offset } => build_peg_mid_tail(offset),
        OrderKind::Rel { offset } => {
            let mut f = Fields::new();
            f.put(211, format_price(offset));
            f.put_str(18, "R");
            f
        },
        _ => Fields::new(),
    }
}

/// The stop price that a replace request restates.
pub open spec fn restated_stop(kind: OrderKind) -> Option<Price> {
    match kind {
        OrderKind::Stop { stop_price } => Some(stop_price),
        OrderKind::StopLimit { stop_price, .. } => Some(stop_price),
        OrderKind::AdjustableStop { stop_price, .. } => Some(stop_price),
        _ => None,
    }
}

/// The unit of a trail: 0 for an amount, 100 for percent.
pub open spec fn trail_unit(kind: OrderKind) -> Option<Seq<char>> {
    match kind {
        OrderKind::TrailingStop { .. } => Some("0"@),
        OrderKind::TrailingStopLimit { .. } => Some("0"@),
        OrderKind::TrailPct { .. } => Some("100"@),
        _ => None,
    }
}

/// What identifies an order in a replace request.
pub struct ReplaceTarget {
    pub clord: String,
    pub orig_clord: String,
    pub side: String,
    pub symbol: String,
    pub sec_type: String,
    pub con_id: String,
}

/// What identifies an order in a replace request.
pub ghost struct ReplaceTargetView {
    pub clord: Seq<char>,
    pub orig_clord: Seq<char>,
    pub side: Seq<char>,
    pub symbol: Seq<char>,
    pub sec_type: Seq<char>,
    pub con_id: Seq<char>,
}

impl View for ReplaceTarget {
    type V = ReplaceTargetView;

    open spec fn view(&self) -> ReplaceTargetView {
        ReplaceTargetView {
            clord: self.clord@,
            orig_clord: self.orig_clord@,
            side: self.side@,
            symbol: self.symbol@,
            sec_type: self.sec_type@,
            con_id: self.con_id@,
        }
    }
}

/// The fields of a replace request up to the quantity: the ids, the prices, the account, the
/// expiry, the stop, the limit offset of a trail, whether it works outside regular hours, and
/// a trail's unit.
pub open spec fn replace_head(
    now: Seq<char>,
    account: Seq<char>,
    t: ReplaceTargetView,
    kind: OrderKind,
    attrs: OrderAttrs,
) -> FieldSeq {
    let s1 = seq![
        (TAG_MSG_TYPE, "G"@),
        (TAG_SENDING_TIME, now),
        (11u32, t.clord),
        (41u32, t.orig_clord),
    ] + replace_prices(kind);
    let s2 = with_expiry(s1.push((1u32, account)), attrs);
    let s3 = match restated_stop(kind) {
        Some(p) => s2.push((6117u32, price_text(p as int))),
        None => s2,
    };
    let s4 = match kind {
        OrderKind::TrailingStopLimit { lmt_offset, .. } => s3.push(
            (6370u32, price_text(lmt_offset as int)),
        ),
        _ => s3,
    };
    let s5 = add_if(s4.push((6122u32, "c"@)), attrs.outside_rth, 6433, "1"@);
    match trail_unit(kind) {
        Some(u) => s5.push((6268u32, u)),
        None => s5,
    }
}

/// The fields of a request to replace an order. It restates the order's type, prices and time
/// in force; it leaves out where the order goes, and its group and parent, which the server
/// keeps.
pub open spec fn replace_message(
    now: Seq<char>,
    account: Seq<char>,
    t: ReplaceTargetView,
    qty: u32,
    kind: OrderKind,
    tif: u8,
    attrs: OrderAttrs,
) -> FieldSeq {
    let s = replace_head(now, account, t, kind, attrs).push((38u32, dec(qty as nat))).push(
        (54u32, t.side),
    ).push((40u32, type_code(kind))) + replace_companions(kind);
    s.push((55u32, t.symbol)).push((167u32, t.sec_type)).push((6035u32, t.symbol)).push(
        (59u32, tif_text(tif)),
    ).push((6008u32, t.con_id)).push((6088u32, "Socket"@)).push(
        (6211u32, Seq::<char>::empty()),
    ).push((6238u32, Seq::<char>::empty()))
}

fn build_replace_head(
    now: &str,
    account_id: &str,
    target: &ReplaceTarget,
    kind: OrderKind,
    attrs: &OrderAttrs,
) -> (f: Fields)
    ensures
        f@ == replace_head(now@, account_id@, target@, kind, *attrs),
{
    let mut f = Fields::new();
    f.put_str(TAG_MSG_TYPE, "G");
    f.put_str(TAG_SENDING_TIME, now);
    f.put_str(11, target.clord.as_str());
    f.put_str(41, target.orig_clord.as_str());
    proof {
        assert(f@ =~= seq![
            (TAG_MSG_TYPE, "G"@),
            (TAG_SENDING_TIME, now@),
            (11u32, target@.clord),
            (41u32, target@.orig_clord),
        ]);
    }
    let prices = build_replace_prices(kind);
    f.put_all(&prices);
    f.put_str(1, account_id);
    put_expiry(&mut f, attrs);
    match kind {
        OrderKind::Stop { stop_price } => {
            f.put(6117, format_price(stop_price));
        },
        OrderKind::StopLimit { stop_price, .. } => {
            f.put(6117, format_price(stop_price));
        },
        OrderKind::AdjustableStop { stop_price, .. } => {
            f.put(6117, format_price(stop_price));
        },
        OrderKind::TrailingStopLimit { lmt_offset, .. } => {
            f.put(6370, format_price(lmt_offset));
        },
        _ => {},
    }
    f.put_str(6122, "c");
    if attrs.outside_rth {
        f.put_str(6433, "1");
    }
    match kind {
        OrderKind::TrailingStop { .. } => {
            f.put_str(6268, "0");
        },
        OrderKind::TrailingStopLimit { .. } => {
            f.put_str(6268, "0");
        },
        OrderKind::TrailPct { .. } => {
            f.put_str(6268, "100");
        },
        _ => {},
    }
    f
}

/// The fields of a request to replace an order.
pub fn modify_fields(
    now: &str,
    account_id: &str,
    target: &ReplaceTarget,
    qty: u32,
    kind: OrderKind,
    tif: u8,
    attrs: &OrderAttrs,
) -> (r: Fields)
    ensures
        r@ == replace_message(now@, account_id@, target@, qty, kind, tif, *attrs),
{
    let mut f = build_replace_head(now, account_id, target, kind, attrs);
    f.put_uint(38, qty as u64);
    f.put_str(54, target.side.as_str());
    f.put_str(40, type_code_of(kind));
    let companions = build_replace_companions(kind);
    f.put_all(&companions);
    f.put_str(55, target.symbol.as_str());
    f.put_str(167, target.sec_type.as_str());
    f.put_str(6035, target.symbol.as_str());
    f.put(59, tif_str(tif));
    f.put_str(6008, target.con_id.as_str());
    f.put_str(6088, "Socket");
    f.put(6211, String::new());
    f.put(6238, String::new());
    f
}

/// The version that a replace request gives an order.
pub open spec fn next_version(c: ContextView, id: OrderId) -> u32 {
    (c.version(id) + 1) as u32
}

/// What identifies a tracked order in a replace request.
pub open spec fn replace_target(c: ContextView, o: Order) -> ReplaceTargetView {
    ReplaceTargetView {
        clord: versioned(o.order_id, next_version(c, o.order_id)),
        orig_clord: c.server_clord(o.order_id),
        side: side_code(o.side),
        symbol: c.market.symbols[o.instrument as int],
        sec_type: c.market.order_route(o.instrument).0,
        con_id: match c.market.con_id_of(o.instrument) {
            Some(con_id) => int_text(con_id as int),
            None => Seq::empty(),
        },
    }
}

/// The context after a replace request for an order: its next version is the one that the
/// server will know.
pub open spec fn after_replace(c: ContextView, id: OrderId) -> ContextView {
    ContextView {
        versions: c.versions.insert(id, next_version(c, id)),
        clords: c.clords.insert(id, versioned(id, next_version(c, id))),
        ..c
    }
}

/// Builds a replace request for a tracked order, and counts it.
fn replace(
    context: &mut Context,
    account_id: &str,
    now: &str,
    order: Order,
    qty: u32,
    kind: OrderKind,
    tif: u8,
    attrs: &OrderAttrs,
) -> (r: Fields)
    requires
        old(context)@.wf(),
        old(context)@.order(order.order_id) == Some(order),
        order.instrument < MAX_INSTRUMENTS,
        old(context)@.version(order.order_id) < u32::MAX,
    ensures
        final(context)@.wf(),
        final(context)@ == after_replace(old(context)@, order.order_id),
        r@ == replace_message(
            now@,
            account_id@,
            replace_target(old(context)@, order),
            qty,
            kind,
            tif,
            *attrs,
        ),
{
    let id = order.order_id;
    let version: u32 = context.version(id) + 1;
    let orig_clord = context.server_clord(id);
    let (sec_type, route) = context.market.order_routing(order.instrument);
    let target = ReplaceTarget {
        clord: versioned_text(id, version),
        orig_clord,
        side: fix_side(order.side).to_owned(),
        symbol: context.market.symbol(order.instrument).to_owned(),
        sec_type,
        con_id: match context.market.con_id(order.instrument) {
            Some(con_id) => format_int(con_id),
            None => String::new(),
        },
    };
    proof {
        assert(target@.con_id =~= replace_target(context@, order).con_id);
    }
    context.modify_versions.insert(id, version);
    context.set_clord(id, versioned_text(id, version));
    modify_fields(now, account_id, &target, qty, kind, tif, attrs)
}

// ---------------------------------------------------------------------------------------
// Requests
// ---------------------------------------------------------------------------------------

/// What comes of a request.
#[allow(inconsistent_fields)]
pub enum OrderStep {
    /// It is refused, and nothing is sent.
    Refused { order_id: OrderId, code: i64, message: String },
    /// These messages place orders. They are to be sent in order; the last one's fate is the
    /// request's.
    Place { messages: Vec<Fields> },
    /// These messages cancel orders. When one has gone out, the order's cancel is pending.
    Cancel { messages: Vec<(OrderId, Fields)> },
    /// This message replaces an order.
    Replace { message: Fields },
}

/// What comes of a request.
#[allow(inconsistent_fields)]
pub ghost enum OrderStepView {
    Refused { order_id: OrderId, code: i64, message: Seq<char> },
    Place { messages: Seq<FieldSeq> },
    Cancel { messages: Seq<(OrderId, FieldSeq)> },
    Replace { message: FieldSeq },
}

impl View for OrderStep {
    type V = OrderStepView;

    open spec fn view(&self) -> OrderStepView {
        match *self {
            OrderStep::Refused { order_id, code, message } => OrderStepView::Refused {
                order_id,
                code,
                message: message@,
            },
            OrderStep::Place { messages } => OrderStepView::Place {
                messages: field_lists(messages@),
            },
            OrderStep::Cancel { messages } => OrderStepView::Cancel {
                messages: messages@.map_values(|m: (OrderId, Fields)| (m.0, m.1@)),
            },
            OrderStep::Replace { message } => OrderStepView::Replace { message: message@ },
        }
    }
}

/// The refusal of a replace request.
pub const MODIFY_OF_FINISHED_ORDER: (i64, &'static str) = (104, "Cannot modify a filled order.");

/// A request with its prices snapped to its instrument's grid.
pub open spec fn on_grid(c: ContextView, req: OrderRequest) -> OrderRequest {
    match request_instrument(req) {
        Some(id) => snapped(req, c.market.min_ticks[id as int]),
        None => req,
    }
}

/// What comes of a request. A replace request for an order that is not tracked, or whose cancel
/// is pending, is refused, and so is a request to cancel an order that cannot be cancelled.
pub open spec fn request_step(
    c: ContextView,
    account: Seq<char>,
    now: Seq<char>,
    req: OrderRequest,
) -> OrderStepView {
    match req {
        OrderRequest::Cancel { order_id } => match cancel_refused(c, order_id) {
            Some((code, message)) => OrderStepView::Refused { order_id, code, message },
            None => OrderStepView::Cancel {
                messages: seq![(order_id, cancel_message(c, now, order_id))],
            },
        },
        OrderRequest::CancelAll { instrument } => OrderStepView::Cancel {
            messages: open_orders(c.orders, instrument).map_values(
                |o: Order| (o.order_id, cancel_message(c, now, o.order_id)),
            ),
        },
        OrderRequest::Modify { order_id, qty, kind, tif, attrs, .. } => match c.order(order_id) {
            Some(o) if o.status != OrderStatus::PendingCancel => OrderStepView::Replace {
                message: replace_message(now, account, replace_target(c, o), qty, kind, tif, attrs),
            },
            _ => OrderStepView::Refused {
                order_id,
                code: 104,
                message: "Cannot modify a filled order."@,
            },
        },
        _ => OrderStepView::Place {
            messages: plan_messages(c.market, account, now, plans(c, on_grid(c, req))),
        },
    }
}

/// The context after a request is taken up: new orders are tracked, and a replaced order has
/// its next version.
pub open spec fn request_effect(c: ContextView, req: OrderRequest) -> ContextView {
    match req {
        OrderRequest::Cancel { .. } => c,
        OrderRequest::CancelAll { .. } => c,
        OrderRequest::Modify { order_id, .. } => match c.order(order_id) {
            Some(o) if o.status != OrderStatus::PendingCancel => after_replace(c, order_id),
            _ => c,
        },
        _ => with_plans(c, plans(c, on_grid(c, req))),
    }
}

/// Whether a request names an instrument that there is a slot for, and does not replace an
/// order more often than can be counted.
pub open spec fn admissible(c: ContextView, req: OrderRequest) -> bool {
    &&& request_instrument(req) matches Some(id) ==> id < MAX_INSTRUMENTS
    &&& req matches OrderRequest::Modify { order_id, .. } ==> c.version(order_id) < u32::MAX
}

/// The cancel messages for a list of orders.
fn cancel_messages(context: &Context, now: &str, orders: &Vec<Order>) -> (r: Vec<(OrderId, Fields)>)
    ensures
        r@.map_values(|m: (OrderId, Fields)| (m.0, m.1@)) == orders@.map_values(
            |o: Order| (o.order_id, cancel_message(context@, now@, o.order_id)),
        ),
{
    let mut out: Vec<(OrderId, Fields)> = Vec::new();
    let mut i: usize = 0;
    let ghost want = orders@.map_values(
        |o: Order| (o.order_id, cancel_message(context@, now@, o.order_id)),
    );
    while i < orders.len()
        invariant
            i <= orders.len(),
            out@.len() == i,
            want == orders@.map_values(
                |o: Order| (o.order_id, cancel_message(context@, now@, o.order_id)),
            ),
            forall|k: int|
                0 <= k < i ==> ((#[trigger] out@[k]).0, out@[k].1@) == want[k],
        decreases orders.len() - i,
    {
        let id = orders[i].order_id;
        out.push((id, build_cancel_message(context, now, id)));
        i = i + 1;
    }
    proof {
        assert(out@.map_values(|m: (OrderId, Fields)| (m.0, m.1@)) =~= want);
    }
    out
}

/// Snapping prices leaves the instrument of a request.
proof fn lemma_snapped_instrument(req: OrderRequest, tick: Price)
    ensures
        request_instrument(snapped(req, tick)) == request_instrument(req),
{
}

proof fn lemma_parts_instrument(req: OrderRequest)
    ensures
        plain_parts(req) matches Some(p) ==> request_instrument(req) == Some(p.instrument),
{
}

/// The orders that a request places are for the instrument that it names.
proof fn lemma_plan_instruments(c: ContextView, req: OrderRequest)
    ensures
        forall|i: int|
            0 <= i < plans(c, req).len() ==> request_instrument(req) == Some(
                (#[trigger] plans(c, req)[i]).order.instrument,
            ),
{
    reveal(kind_plan);
    lemma_parts_instrument(req);
    if plain_parts(req) is None {
        lemma_special_instruments(c, req);
    }
}

proof fn lemma_special_instruments(c: ContextView, req: OrderRequest)
    ensures
        forall|i: int|
            0 <= i < special_plans(c, req).len() ==> request_instrument(req) == Some(
                (#[trigger] special_plans(c, req)[i]).order.instrument,
            ),
{
    reveal(kind_plan);
}

/// Takes up a request: says what is to be sent, or why nothing is, and tracks what it places.
pub fn take_up(context: &mut Context, account_id: &str, now: &str, req: OrderRequest) -> (r:
    OrderStep)
    requires
        old(context)@.wf(),
        admissible(old(context)@, req),
    ensures
        final(context)@.wf(),
        final(context)@ == request_effect(old(context)@, req),
        r@ == request_step(old(context)@, account_id@, now@, req),
{
    match &req {
        OrderRequest::Cancel { order_id } => {
            match cancel_refusal(context, *order_id) {
                Some((code, message)) => {
                    return OrderStep::Refused { order_id: *order_id, code, message };
                },
                None => {},
            }
            let mut messages: Vec<(OrderId, Fields)> = Vec::new();
            messages.push((*order_id, build_cancel_message(context, now, *order_id)));
            let step = OrderStep::Cancel { messages };
            proof {
                assert(step@->Cancel_messages =~= seq![
                    (*order_id, cancel_message(context@, now@, *order_id)),
                ]);
            }
            return step;
        },
        OrderRequest::CancelAll { instrument } => {
            let open = context.open_orders_for(*instrument);
            return OrderStep::Cancel { messages: cancel_messages(context, now, &open) };
        },
        OrderRequest::Modify { order_id, qty, kind, tif, attrs, .. } => {
            let order = match context.order(*order_id) {
                Some(o) => o,
                None => {
                    return OrderStep::Refused {
                        order_id: *order_id,
                        code: 104,
                        message: "Cannot modify a filled order.".to_owned(),
                    };
                },
            };
            if order.status == OrderStatus::PendingCancel {
                return OrderStep::Refused {
                    order_id: *order_id,
                    code: 104,
                    message: "Cannot modify a filled order.".to_owned(),
                };
            }
            return OrderStep::Replace {
                message: replace(context, account_id, now, order, *qty, *kind, *tif, attrs),
            };
        },
        _ => {},
    }
    let ghost c = context@;
    let ghost asked = req;
    let on_grid_req = match req.instrument() {
        Some(id) => {
            let tick = context.market.min_tick(id);
            proof {
                lemma_snapped_instrument(asked, tick);
            }
            req.snap_prices(tick)
        },
        None => req,
    };
    proof {
        assert(on_grid_req == on_grid(c, asked));
        lemma_plan_instruments(c, on_grid_req);
    }
    let list = plan_orders(context, &on_grid_req);
    proof {
        assert forall|i: int| 0 <= i < list@.len() implies (#[trigger] list@[i]).order.instrument
            < MAX_INSTRUMENTS by {
            assert(plan_views(list@)[i] == list@[i]@);
            assert(plans(c, on_grid_req)[i].order.instrument == list@[i].order.instrument);
        }
    }
    OrderStep::Place { messages: place(context, account_id, now, &list) }
}

/// Takes the requests that are to be taken up. While the connection is known to be lost they
/// stay where they are; without a connection they are dropped.
pub fn drain_and_send_orders(context: &mut Context, disconnected: bool, connected: bool) -> (r: Vec<
    OrderRequest,
>)
    ensures
        disconnected ==> final(context)@ == old(context)@ && r@.len() == 0,
        !disconnected ==> final(context)@ == (ContextView {
            pending: Seq::empty(),
            ..old(context)@
        }),
        !disconnected && connected ==> r@ == old(context)@.pending,
        !disconnected && !connected ==> r@.len() == 0,
{
    if disconnected {
        return Vec::new();
    }
    let orders = context.drain_pending_orders();
    if connected {
        orders
    } else {
        Vec::new()
    }
}

/// What is reported about an order whose message could not be sent.
pub open spec fn unsent_update(id: OrderId) -> OrderUpdate {
    OrderUpdate {
        order_id: id,
        instrument: 0,
        status: OrderStatus::Rejected,
        filled_qty_fixed: 0,
        remaining_qty_fixed: 0,
        avg_fill_price: 0,
        perm_id: 0,
        parent_id: 0,
        timestamp_ns: 0,
    }
}

/// Notes that the message of a request could not be sent: the order that the request is about,
/// if it is about one, is tracked no longer, and it is reported as rejected.
pub fn send_failed(context: &mut Context, reports: &mut OrderReports, order_id: OrderId)
    requires
        old(context)@.wf(),
    ensures
        final(context)@.wf(),
        order_id == 0 ==> final(context)@ == old(context)@ && final(reports)@ == old(reports)@,
        order_id != 0 ==> final(context)@ == old(context)@.without_order(order_id),
        order_id != 0 ==> final(reports)@ == (OrderReportsView {
            updates: old(reports)@.updates.push(unsent_update(order_id)),
            ..old(reports)@
        }),
{
    if order_id != 0 {
        context.remove_order(order_id);
        reports.push_order_update(
            OrderUpdate {
                order_id,
                instrument: 0,
                status: OrderStatus::Rejected,
                filled_qty_fixed: 0,
                remaining_qty_fixed: 0,
                avg_fill_price: 0,
                perm_id: 0,
                parent_id: 0,
                timestamp_ns: 0,
            },
        );
    }
}

} // verus!
