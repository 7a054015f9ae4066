//! Execution reports: what a report on an order says, and what follows from it.
use std::collections::HashMap;
use vstd::prelude::*;

use crate::bridge::{
    blank_contract, CompletedOrder, Contract, ContractCache, ContractView, Execution,
    ExecutionView, Fill, FillExec, FillExecView, Number, OrderInfo, OrderInfoView, OrderReports,
    OrderReportsView, OrderState, OrderStateView, OrderUpdate, Portfolio, PortfolioView,
    RichOrderInfo, RichOrderInfoView, WhatIfResponse,
};
use crate::calendar::{fix_utc_to_unix_secs, unix_of_utc};
use crate::engine::context::{status_change, Context, ContextView, StatusChange};
use crate::engine::hot_loop::exec_ids::{
    perm_id, perm_id_from_fix_order_id, seen, window_ok, ExecIdWindow,
};
use crate::engine::market_state::MarketView;
use crate::engine::order::{
    is_final, order_status_str, status_name, Order, OrderStatus, Side,
};
use crate::protocol::fix::{
    field_is, field_or_empty, get_field, lookup, lookup_or_empty, map_texts,
};
use crate::text::{
    chars_of, join, parse_i64, parse_u64, parsed_int, split, split_chars, text_eq, text_of, views,
};
use crate::types::{
    parse_qty, parsed_qty, InstrumentId, OrderId, Price, Qty, MAX_INSTRUMENTS,
};

verus! {

/// The values of a report, by tag.
pub type Values = Map<u32, Seq<char>>;

/// The numbers that the fields of a report stand for, by tag, for those that read as decimal
/// numbers.
pub type Numbers = Map<u32, Number>;

// ---------------------------------------------------------------------------------------
// Fields
// ---------------------------------------------------------------------------------------

/// The order that a client order id names: the number before the first dot, behind a `C` that
/// marks a request to cancel.
pub open spec fn clord_order(clord: Seq<char>) -> Option<int> {
    let s = if clord.len() > 0 && clord[0] == 'C' {
        clord.skip(1)
    } else {
        clord
    };
    parsed_int(split(s, '.')[0], 0, u64::MAX as int)
}

/// The order that a client order id names.
pub fn parse_clord(clord: &str) -> (r: Option<u64>)
    ensures
        r is Some == clord_order(clord@) is Some,
        r is Some ==> r->0 == clord_order(clord@)->0,
{
    let mut chars = chars_of(clord);
    if chars.len() > 0 && chars[0] == 'C' {
        chars.remove(0);
        proof {
            assert(chars@ =~= clord@.skip(1));
        }
    }
    let parts = split_chars(chars.as_slice(), '.');
    proof {
        crate::text::lemma_split_nonempty(chars@, '.');
        assert(views(parts@)[0] == parts@[0]@);
    }
    parse_u64(text_of(parts[0].as_slice()).as_str())
}

/// The whole number under a tag, or a default.
pub open spec fn int_field(v: Values, tag: u32, lo: int, hi: int, default: int) -> int {
    match lookup(v, tag) {
        Some(t) => match parsed_int(t, lo, hi) {
            Some(n) => n,
            None => default,
        },
        None => default,
    }
}

/// The quantity under a tag, or a default.
pub open spec fn qty_field(v: Values, tag: u32, default: int) -> int {
    match lookup(v, tag) {
        Some(t) => match parsed_qty(t) {
            Some(q) => q,
            None => default,
        },
        None => default,
    }
}

/// The price under a tag, or 0.
pub open spec fn price_field(n: Numbers, tag: u32) -> Price {
    if n.contains_key(tag) {
        n[tag].scaled
    } else {
        0
    }
}

/// The price under a tag rounded to the nearest, or 0.
pub open spec fn rounded_field(n: Numbers, tag: u32) -> Price {
    if n.contains_key(tag) {
        n[tag].rounded
    } else {
        0
    }
}

/// The value under a tag, if it is not empty.
pub open spec fn set_field(v: Values, tag: u32) -> Option<Seq<char>> {
    match lookup(v, tag) {
        Some(t) => if t.len() > 0 {
            Some(t)
        } else {
            None
        },
        None => None,
    }
}

fn i64_field(m: &HashMap<u32, String>, tag: u32, default: i64) -> (r: i64)
    ensures
        r == int_field(map_texts(m@), tag, i64::MIN as int, i64::MAX as int, default as int),
{
    match get_field(m, tag) {
        Some(s) => match parse_i64(s.as_str()) {
            Some(v) => v,
            None => default,
        },
        None => default,
    }
}

/// Reads an `i32` under a tag.
pub fn i32_field(m: &HashMap<u32, String>, tag: u32, default: i32) -> (r: i32)
    ensures
        r == int_field(map_texts(m@), tag, i32::MIN as int, i32::MAX as int, default as int),
{
    match get_field(m, tag) {
        Some(s) => match parse_i64(s.as_str()) {
            Some(v) => if v < -0x8000_0000 || v > 0x7fff_ffff {
                default
            } else {
                v as i32
            },
            None => default,
        },
        None => default,
    }
}

fn qty_of(m: &HashMap<u32, String>, tag: u32, default: Qty) -> (r: Qty)
    ensures
        r == qty_field(map_texts(m@), tag, default as int),
{
    match get_field(m, tag) {
        Some(s) => match parse_qty(s.as_str()) {
            Some(q) => q,
            None => default,
        },
        None => default,
    }
}

fn price_of(n: &HashMap<u32, Number>, tag: u32) -> (r: Price)
    ensures
        r == price_field(n@, tag),
{
    match n.get(&tag) {
        Some(x) => x.scaled,
        None => 0,
    }
}

fn rounded_of(n: &HashMap<u32, Number>, tag: u32) -> (r: Price)
    ensures
        r == rounded_field(n@, tag),
{
    match n.get(&tag) {
        Some(x) => x.rounded,
        None => 0,
    }
}

fn get_set<'a>(m: &'a HashMap<u32, String>, tag: u32) -> (r: Option<&'a String>)
    ensures
        match r {
            Some(s) => set_field(map_texts(m@), tag) == Some(s@),
            None => set_field(map_texts(m@), tag) is None,
        },
{
    match get_field(m, tag) {
        Some(s) => if s.as_str().is_empty() {
            None
        } else {
            Some(s)
        },
        None => None,
    }
}

// ---------------------------------------------------------------------------------------
// Which order a report is about
// ---------------------------------------------------------------------------------------

/// Whether a report acknowledges an order as new.
pub open spec fn is_new_ack(v: Values) -> bool {
    lookup(v, 150) == Some("0"@) && lookup(v, 39) == Some("0"@)
}

/// The order that a report is about. A report that lists an order of an earlier session may
/// carry its id under tag 6121; otherwise the client order id names it. 0 for none.
pub open spec fn report_order(v: Values) -> u64 {
    let listed = if is_new_ack(v) && v.contains_key(6121) {
        parsed_int(v[6121], 0, u64::MAX as int)
    } else {
        None
    };
    match listed {
        Some(id) => id as u64,
        None => match lookup(v, 11) {
            Some(clord) => match clord_order(clord) {
                Some(id) => id as u64,
                None => 0,
            },
            None => 0,
        },
    }
}

fn new_ack(m: &HashMap<u32, String>) -> (r: bool)
    ensures
        r == is_new_ack(map_texts(m@)),
{
    field_is(m, 150, "0") && field_is(m, 39, "0")
}

/// The order that a report is about; 0 for none.
pub fn report_order_id(m: &HashMap<u32, String>) -> (r: u64)
    ensures
        r == report_order(map_texts(m@)),
{
    if new_ack(m) {
        if let Some(s) = get_field(m, 6121) {
            if let Some(id) = parse_u64(s.as_str()) {
                return id;
            }
        }
    }
    match get_field(m, 11) {
        Some(s) => match parse_clord(s.as_str()) {
            Some(id) => id,
            None => 0,
        },
        None => 0,
    }
}

// ---------------------------------------------------------------------------------------
// Orders of earlier sessions
// ---------------------------------------------------------------------------------------

/// The side of a listed order.
pub open spec fn listed_side(v: Values) -> Side {
    if lookup(v, 54) == Some("1"@) {
        Side::Buy
    } else if lookup(v, 54) == Some("5"@) {
        Side::ShortSell
    } else {
        Side::Sell
    }
}

/// The first byte under a tag, or a default.
pub open spec fn byte_field(v: Values, tag: u32, default: u8) -> u8 {
    match lookup(v, tag) {
        Some(t) => if t.len() > 0 {
            vstd::utf8::encode_utf8(t)[0]
        } else {
            default
        },
        None => default,
    }
}

fn byte_of(m: &HashMap<u32, String>, tag: u32, default: u8) -> (r: u8)
    ensures
        r == byte_field(map_texts(m@), tag, default),
{
    match get_field(m, tag) {
        Some(s) => {
            let b = s.as_str().as_bytes();
            proof {
                vstd::utf8::encode_utf8_decode_utf8(s@);
                if s@.len() > 0 && b@.len() == 0 {
                    assert(b@ =~= Seq::<u8>::empty());
                    assert(vstd::utf8::decode_utf8(b@).len() == 0);
                }
                if s@.len() == 0 {
                    assert(s@ =~= Seq::<char>::empty());
                    assert(b@.len() == 0);
                }
            }
            if b.len() > 0 {
                b[0]
            } else {
                default
            }
        },
        None => default,
    }
}

/// An order as a report lists it.
pub open spec fn listed_order(v: Values, n: Numbers, id: OrderId, instrument: InstrumentId) -> Order {
    Order {
        order_id: id,
        instrument,
        side: listed_side(v),
        price: price_field(n, 44),
        qty_fixed: qty_field(v, 38, 0) as i64,
        filled_fixed: 0,
        status: OrderStatus::Submitted,
        ord_type: byte_field(v, 40, 50),
        tif: byte_field(v, 59, 49),
        stop_price: price_field(n, 99),
    }
}

/// The contract id in a report; 0 for none.
pub open spec fn report_con_id(v: Values) -> i64 {
    int_field(v, 6008, i64::MIN as int, i64::MAX as int, 0) as i64
}

/// Whether a report lists an order that is not tracked yet and can be: it names a contract and
/// a quantity, and there is a slot for the contract.
pub open spec fn lists_order(c: ContextView, v: Values, id: OrderId) -> bool {
    &&& is_new_ack(v)
    &&& c.order(id) is None
    &&& report_con_id(v) != 0
    &&& qty_field(v, 38, 0) > 0
    &&& c.market.con_ids.contains(report_con_id(v)) || c.market.con_ids.len() < MAX_INSTRUMENTS
}

/// The market state with a contract registered, and its symbol when the report gives one.
pub open spec fn listed_market(m: MarketView, v: Values) -> MarketView {
    let after = m.registered(report_con_id(v));
    let id = after.instrument_of(report_con_id(v))->0;
    match lookup(v, 55) {
        Some(symbol) => MarketView { symbols: after.symbols.update(id as int, symbol), ..after },
        None => after,
    }
}

/// The context after a report that may list an order of an earlier session.
pub open spec fn after_listing(c: ContextView, v: Values, n: Numbers, id: OrderId) -> ContextView {
    if lists_order(c, v, id) {
        let market = listed_market(c.market, v);
        let instrument = market.instrument_of(report_con_id(v))->0;
        ContextView { market, ..c }.with_order(listed_order(v, n, id, instrument))
    } else {
        c
    }
}

/// Tracks the order of an earlier session that a report lists. The number of instruments that
/// clients see follows.
fn take_listing(
    m: &HashMap<u32, String>,
    n: &HashMap<u32, Number>,
    context: &mut Context,
    instrument_count: &mut u32,
    id: OrderId,
)
    requires
        old(context)@.wf(),
    ensures
        final(context)@.wf(),
        final(context)@ == after_listing(old(context)@, map_texts(m@), n@, id),
        *final(instrument_count) == (if lists_order(old(context)@, map_texts(m@), id) {
            final(context)@.market.con_ids.len() as u32
        } else {
            *old(instrument_count)
        }),
{
    let ghost v = map_texts(m@);
    if !new_ack(m) || context.order(id).is_some() {
        return ;
    }
    let con_id = i64_field(m, 6008, 0);
    let qty = qty_of(m, 38, 0);
    if con_id == 0 || qty <= 0 {
        return ;
    }
    let instrument = match context.market.try_register(con_id) {
        Some(i) => i,
        None => return ,
    };
    *instrument_count = context.market.count();
    if let Some(symbol) = get_field(m, 55) {
        context.set_symbol(instrument, symbol.clone());
    }
    let side = if field_is(m, 54, "1") {
        Side::Buy
    } else if field_is(m, 54, "5") {
        Side::ShortSell
    } else {
        Side::Sell
    };
    context.insert_order(
        Order {
            order_id: id,
            instrument,
            side,
            price: price_of(n, 44),
            qty_fixed: qty,
            filled_fixed: 0,
            status: OrderStatus::Submitted,
            ord_type: byte_of(m, 40, 50),
            tif: byte_of(m, 59, 49),
            stop_price: price_of(n, 99),
        },
    );
}

/// The context after a report's client order id is kept. That of a request to cancel, and the
/// mark that ends a listing, are no ids of orders.
pub open spec fn after_clord(c: ContextView, v: Values, id: OrderId) -> ContextView {
    match lookup(v, 11) {
        Some(clord) => if !(clord.len() > 0 && clord[0] == 'C') && clord != "*"@ {
            ContextView { clords: c.clords.insert(id, clord), ..c }
        } else {
            c
        },
        None => c,
    }
}

/// Whether a text starts with a `C`.
fn starts_with_c(s: &str) -> (r: bool)
    ensures
        r == (s@.len() > 0 && s@[0] == 'C'),
{
    let chars = chars_of(s);
    chars.len() > 0 && chars[0] == 'C'
}

fn keep_clord(m: &HashMap<u32, String>, context: &mut Context, id: OrderId)
    requires
        old(context)@.wf(),
    ensures
        final(context)@.wf(),
        final(context)@ == after_clord(old(context)@, map_texts(m@), id),
{
    if let Some(clord) = get_field(m, 11) {
        if !starts_with_c(clord.as_str()) && !text_eq(clord.as_str(), "*") {
            context.set_clord(id, clord.clone());
        }
    }
}

// ---------------------------------------------------------------------------------------
// Previews
// ---------------------------------------------------------------------------------------

/// Whether the number under a tag is finite.
pub open spec fn finite_field(n: Numbers, tag: u32) -> bool {
    n.contains_key(tag) && n[tag].finite
}

/// Whether a preview holds its numbers: one of the six margin fields is a finite number. A
/// preview that is not ready yet holds none.
pub open spec fn is_preview_data(n: Numbers) -> bool {
    finite_field(n, 6826) || finite_field(n, 6827) || finite_field(n, 6828) || finite_field(n, 6092)
        || finite_field(n, 6093) || finite_field(n, 6094)
}

fn finite(n: &HashMap<u32, Number>, tag: u32) -> (r: bool)
    ensures
        r == finite_field(n@, tag),
{
    match n.get(&tag) {
        Some(x) => x.finite,
        None => false,
    }
}

/// What a preview says an order would do to the account.
pub open spec fn preview(n: Numbers, id: OrderId, instrument: InstrumentId) -> WhatIfResponse {
    WhatIfResponse {
        order_id: id,
        instrument,
        init_margin_before: price_field(n, 6826),
        maint_margin_before: price_field(n, 6827),
        equity_with_loan_before: price_field(n, 6828),
        init_margin_after: price_field(n, 6092),
        maint_margin_after: price_field(n, 6093),
        equity_with_loan_after: price_field(n, 6094),
        commission: price_field(n, 6378),
    }
}

/// Takes in a preview: it is reported once it holds its numbers, and its order is tracked no
/// longer.
fn take_preview(
    n: &HashMap<u32, Number>,
    context: &mut Context,
    orders: &mut OrderReports,
    id: OrderId,
)
    requires
        old(context)@.wf(),
    ensures
        final(context)@.wf(),
        ({
            let o = old(context)@.order(id);
            let delivered = is_preview_data(n@) && o is Some;
            &&& final(context)@ == (if delivered {
                old(context)@.without_order(id)
            } else {
                old(context)@
            })
            &&& final(orders)@ == (if delivered {
                OrderReportsView {
                    what_ifs: old(orders)@.what_ifs.push(preview(n@, id, o->0.instrument)),
                    ..old(orders)@
                }
            } else {
                old(orders)@
            })
        }),
{
    let data = finite(n, 6826) || finite(n, 6827) || finite(n, 6828) || finite(n, 6092) || finite(
        n,
        6093,
    ) || finite(n, 6094);
    if !data {
        return ;
    }
    if let Some(order) = context.order(id) {
        let response = WhatIfResponse {
            order_id: id,
            instrument: order.instrument,
            init_margin_before: price_of(n, 6826),
            maint_margin_before: price_of(n, 6827),
            equity_with_loan_before: price_of(n, 6828),
            init_margin_after: price_of(n, 6092),
            maint_margin_after: price_of(n, 6093),
            equity_with_loan_after: price_of(n, 6094),
            commission: price_of(n, 6378),
        };
        context.remove_order(id);
        orders.push_what_if(response);
    }
}

// ---------------------------------------------------------------------------------------
// Status
// ---------------------------------------------------------------------------------------

/// The status of a working order: submitted when the report says where it was routed to, under
/// tag 100 or tag 198, and before that presubmitted.
pub open spec fn working_status(v: Values) -> OrderStatus {
    if set_field(v, 100) is Some || (set_field(v, 198) is Some && set_field(v, 198) != Some(
        "NONE"@,
    )) {
        OrderStatus::Submitted
    } else {
        OrderStatus::PreSubmitted
    }
}

/// Whether a report answers a request to cancel.
pub open spec fn answers_cancel(v: Values) -> bool {
    lookup(v, 11) matches Some(s) && s.len() > 0 && s[0] == 'C'
}

/// The status that a report gives an order with a given one. `None` when it gives none: its
/// code is not known, or it says nothing about an order that is not tracked.
pub open spec fn reported_status(v: Values, current: Option<OrderStatus>) -> Option<OrderStatus> {
    let code = lookup_or_empty(v, 39);
    if code == "0"@ || code == "5"@ {
        Some(working_status(v))
    } else if code == "A"@ {
        Some(OrderStatus::PreSubmitted)
    } else if code == "E"@ || code == "I"@ {
        current
    } else if code == "6"@ {
        if answers_cancel(v) {
            Some(OrderStatus::PendingCancel)
        } else if current is Some {
            current
        } else {
            Some(OrderStatus::PendingReplace)
        }
    } else if code == "1"@ {
        Some(OrderStatus::PartiallyFilled)
    } else if code == "2"@ {
        Some(OrderStatus::Filled)
    } else if code == "4"@ || code == "C"@ {
        Some(OrderStatus::Cancelled)
    } else if code == "D"@ {
        Some(OrderStatus::PendingCancel)
    } else if code == "8"@ {
        Some(OrderStatus::Rejected)
    } else {
        None
    }
}

/// Whether a status code is one that is not reported on.
pub open spec fn silent_code(v: Values) -> bool {
    lookup_or_empty(v, 39) == "E"@ || lookup_or_empty(v, 39) == "I"@
}

fn working(m: &HashMap<u32, String>) -> (r: OrderStatus)
    ensures
        r == working_status(map_texts(m@)),
{
    let routed = match get_set(m, 100) {
        Some(_) => true,
        None => match get_set(m, 198) {
            Some(s) => !text_eq(s.as_str(), "NONE"),
            None => false,
        },
    };
    if routed {
        OrderStatus::Submitted
    } else {
        OrderStatus::PreSubmitted
    }
}

fn status_of(m: &HashMap<u32, String>, code: &str, current: Option<OrderStatus>) -> (r: Option<
    OrderStatus,
>)
    requires
        code@ == lookup_or_empty(map_texts(m@), 39),
    ensures
        r == reported_status(map_texts(m@), current),
{
    if text_eq(code, "0") || text_eq(code, "5") {
        Some(working(m))
    } else if text_eq(code, "A") {
        Some(OrderStatus::PreSubmitted)
    } else if text_eq(code, "E") || text_eq(code, "I") {
        current
    } else if text_eq(code, "6") {
        let cancel = match get_field(m, 11) {
            Some(s) => starts_with_c(s.as_str()),
            None => false,
        };
        if cancel {
            Some(OrderStatus::PendingCancel)
        } else if current.is_some() {
            current
        } else {
            Some(OrderStatus::PendingReplace)
        }
    } else if text_eq(code, "1") {
        Some(OrderStatus::PartiallyFilled)
    } else if text_eq(code, "2") {
        Some(OrderStatus::Filled)
    } else if text_eq(code, "4") || text_eq(code, "C") {
        Some(OrderStatus::Cancelled)
    } else if text_eq(code, "D") {
        Some(OrderStatus::PendingCancel)
    } else if text_eq(code, "8") {
        Some(OrderStatus::Rejected)
    } else {
        None
    }
}

// ---------------------------------------------------------------------------------------
// Fills and updates
// ---------------------------------------------------------------------------------------

/// Whether a report carries a fill: its type says so, and it fills more than nothing.
pub open spec fn carries_fill(v: Values) -> bool {
    let t = lookup_or_empty(v, 150);
    (t == "F"@ || t == "1"@ || t == "2"@) && qty_field(v, 32, 0) > 0
}

/// The fill that a report on an order carries.
pub open spec fn fill_of(v: Values, n: Numbers, o: Order, now_ns: u64) -> Fill {
    Fill {
        instrument: o.instrument,
        order_id: o.order_id,
        side: o.side,
        price: price_field(n, 31),
        qty_fixed: qty_field(v, 32, 0) as i64,
        remaining_fixed: qty_field(v, 151, 0) as i64,
        cum_qty_fixed: qty_field(v, 14, 0) as i64,
        avg_price: rounded_field(n, 6),
        commission: price_field(n, 12),
        timestamp_ns: now_ns,
    }
}

/// The change of position that a fill on a side brings.
pub open spec fn fill_delta(side: Side, shares: int) -> int {
    if side == Side::Buy {
        shares
    } else {
        -shares
    }
}

/// The first of three values that is set.
pub open spec fn first_set(v: Values, a: u32, b: u32, c: u32) -> Option<Seq<char>> {
    if set_field(v, a) is Some {
        set_field(v, a)
    } else if set_field(v, b) is Some {
        set_field(v, b)
    } else {
        set_field(v, c)
    }
}

/// The value under a tag or else under another, or the empty text.
pub open spec fn set_or(v: Values, a: u32, b: u32) -> Seq<char> {
    match set_field(v, a) {
        Some(t) => t,
        None => lookup_or_empty(v, b),
    }
}

/// What a report says of the execution: its time under tag 6699, or else 60, or else 52; its
/// exchange under tag 100, or else 207.
pub open spec fn fill_exec(v: Values) -> FillExecView {
    FillExecView {
        exec_id: lookup_or_empty(v, 17),
        time_secs: match first_set(v, 6699, 60, 52) {
            Some(t) => match unix_of_utc(vstd::utf8::encode_utf8(t)) {
                Some(s) => Some(s as i64),
                None => None,
            },
            None => None,
        },
        exchange: set_or(v, 100, 207),
        client_id: int_field(v, 6119, i64::MIN as int, i64::MAX as int, 0) as i64,
        model_code: lookup_or_empty(v, 6700),
        order_ref: lookup_or_empty(v, 6010),
    }
}

fn build_fill_exec(m: &HashMap<u32, String>) -> (r: FillExec)
    ensures
        r@ == fill_exec(map_texts(m@)),
{
    let stamp = match get_set(m, 6699) {
        Some(s) => Some(s),
        None => match get_set(m, 60) {
            Some(s) => Some(s),
            None => get_set(m, 52),
        },
    };
    let time_secs = match stamp {
        Some(s) => fix_utc_to_unix_secs(s.as_str()),
        None => None,
    };
    let exchange = match get_set(m, 100) {
        Some(s) => s.clone(),
        None => field_or_empty(m, 207),
    };
    FillExec {
        exec_id: field_or_empty(m, 17),
        time_secs,
        exchange,
        client_id: i64_field(m, 6119, 0),
        model_code: field_or_empty(m, 6700),
        order_ref: field_or_empty(m, 6010),
    }
}

/// The permanent id under a tag; 0 for none.
pub open spec fn perm_field(v: Values, tag: u32) -> i64 {
    match lookup(v, tag) {
        Some(t) => perm_id(t),
        None => 0,
    }
}

fn perm_of(m: &HashMap<u32, String>, tag: u32) -> (r: i64)
    ensures
        r == perm_field(map_texts(m@), tag),
{
    match get_field(m, tag) {
        Some(s) => perm_id_from_fix_order_id(s.as_str()),
        None => 0,
    }
}

/// The update that a report on an order gives: its status, and how much the server counts as
/// filled.
pub open spec fn update_of(v: Values, n: Numbers, o: Order, now_ns: u64) -> OrderUpdate {
    OrderUpdate {
        order_id: o.order_id,
        instrument: o.instrument,
        status: o.status,
        filled_qty_fixed: qty_field(v, 14, o.filled_fixed as int) as i64,
        remaining_qty_fixed: qty_field(v, 151, 0) as i64,
        avg_fill_price: rounded_field(n, 6),
        perm_id: perm_field(v, 37),
        parent_id: perm_field(v, 583),
        timestamp_ns: now_ns,
    }
}

// ---------------------------------------------------------------------------------------
// What a report says of an order
// ---------------------------------------------------------------------------------------

/// The name of a security type.
pub open spec fn sec_type_name(code: Seq<char>) -> Seq<char> {
    if code == "CS"@ || code == "COMMON"@ {
        "STK"@
    } else if code == "FOR"@ {
        "CASH"@
    } else {
        code
    }
}

fn sec_type_str(code: String) -> (r: String)
    ensures
        r@ == sec_type_name(code@),
{
    if text_eq(code.as_str(), "CS") || text_eq(code.as_str(), "COMMON") {
        "STK".to_owned()
    } else if text_eq(code.as_str(), "FOR") {
        "CASH".to_owned()
    } else {
        code
    }
}

/// The name of an order type.
pub open spec fn order_type_name(code: Seq<char>) -> Seq<char> {
    if code == "1"@ {
        "MKT"@
    } else if code == "2"@ {
        "LMT"@
    } else if code == "3"@ {
        "STP"@
    } else if code == "4"@ {
        "STP LMT"@
    } else if code == "P"@ {
        "TRAIL"@
    } else if code == "5"@ {
        "MOC"@
    } else if code == "B"@ {
        "LOC"@
    } else if code == "J"@ {
        "MIT"@
    } else if code == "K"@ {
        "MTL"@
    } else if code == "R"@ {
        "REL"@
    } else {
        code
    }
}

fn order_type_str(code: String) -> (r: String)
    ensures
        r@ == order_type_name(code@),
{
    if text_eq(code.as_str(), "1") {
        "MKT".to_owned()
    } else if text_eq(code.as_str(), "2") {
        "LMT".to_owned()
    } else if text_eq(code.as_str(), "3") {
        "STP".to_owned()
    } else if text_eq(code.as_str(), "4") {
        "STP LMT".to_owned()
    } else if text_eq(code.as_str(), "P") {
        "TRAIL".to_owned()
    } else if text_eq(code.as_str(), "5") {
        "MOC".to_owned()
    } else if text_eq(code.as_str(), "B") {
        "LOC".to_owned()
    } else if text_eq(code.as_str(), "J") {
        "MIT".to_owned()
    } else if text_eq(code.as_str(), "K") {
        "MTL".to_owned()
    } else if text_eq(code.as_str(), "R") {
        "REL".to_owned()
    } else {
        code
    }
}

/// The name of a time in force; `DAY` for a code that is not known.
pub open spec fn tif_name(code: Seq<char>) -> Seq<char> {
    if code == "1"@ {
        "GTC"@
    } else if code == "3"@ {
        "IOC"@
    } else if code == "4"@ {
        "FOK"@
    } else if code == "2"@ {
        "OPG"@
    } else if code == "6"@ {
        "GTD"@
    } else if code == "8"@ {
        "AUC"@
    } else {
        "DAY"@
    }
}

fn tif_name_of(code: &str) -> (r: &'static str)
    ensures
        r@ == tif_name(code@),
{
    if text_eq(code, "1") {
        "GTC"
    } else if text_eq(code, "3") {
        "IOC"
    } else if text_eq(code, "4") {
        "FOK"
    } else if text_eq(code, "2") {
        "OPG"
    } else if text_eq(code, "6") {
        "GTD"
    } else if text_eq(code, "8") {
        "AUC"
    } else {
        "DAY"
    }
}

/// The name of the time in force that a byte stands for; empty for a byte that stands for none.
pub open spec fn decoded_tif(tif: u8) -> Seq<char> {
    if tif == 48 {
        "DAY"@
    } else if tif == 49 {
        "GTC"@
    } else if tif == 50 {
        "OPG"@
    } else if tif == 51 {
        "IOC"@
    } else if tif == 52 {
        "FOK"@
    } else if tif == 54 {
        "GTD"@
    } else if tif == 56 {
        "AUC"@
    } else {
        Seq::empty()
    }
}

/// The name of the time in force that a byte stands for; empty for a byte that stands for none.
pub fn decode_tif(tif: u8) -> (r: &'static str)
    ensures
        r@ == decoded_tif(tif),
{
    proof {
        reveal_strlit("");
        assert(""@ =~= Seq::<char>::empty());
    }
    if tif == 48 {
        "DAY"
    } else if tif == 49 {
        "GTC"
    } else if tif == 50 {
        "OPG"
    } else if tif == 51 {
        "IOC"
    } else if tif == 52 {
        "FOK"
    } else if tif == 54 {
        "GTD"
    } else if tif == 56 {
        "AUC"
    } else {
        ""
    }
}

/// The byte that stands for a time in force; that of `DAY` for a name that is not known. `DTC`
/// shares the byte of `GTD`.
pub open spec fn encoded_tif(name: Seq<char>) -> u8 {
    if name == "GTC"@ {
        49
    } else if name == "OPG"@ {
        50
    } else if name == "IOC"@ {
        51
    } else if name == "FOK"@ {
        52
    } else if name == "GTD"@ || name == "DTC"@ {
        54
    } else if name == "AUC"@ {
        56
    } else {
        48
    }
}

/// The byte that stands for a time in force; that of `DAY` for a name that is not known.
pub fn tif_byte(name: &str) -> (r: u8)
    ensures
        r == encoded_tif(name@),
{
    if text_eq(name, "GTC") {
        49
    } else if text_eq(name, "OPG") {
        50
    } else if text_eq(name, "IOC") {
        51
    } else if text_eq(name, "FOK") {
        52
    } else if text_eq(name, "GTD") || text_eq(name, "DTC") {
        54
    } else if text_eq(name, "AUC") {
        56
    } else {
        48
    }
}

/// Reading the byte of a time in force gives back its name, for each name but `DTC`, which
/// shares the byte of `GTD`.
pub proof fn law_tif_round_trip(name: Seq<char>)
    requires
        name == "DAY"@ || name == "GTC"@ || name == "OPG"@ || name == "IOC"@ || name == "FOK"@
            || name == "GTD"@ || name == "AUC"@,
    ensures
        decoded_tif(encoded_tif(name)) == name,
        decoded_tif(encoded_tif("DTC"@)) == "GTD"@,
{
    reveal_strlit("DAY");
    reveal_strlit("GTC");
    reveal_strlit("OPG");
    reveal_strlit("IOC");
    reveal_strlit("FOK");
    reveal_strlit("GTD");
    reveal_strlit("DTC");
    reveal_strlit("AUC");
    assert("DAY"@[0] == 'D' && "DTC"@[0] == 'D' && "GTC"@[0] == 'G' && "GTD"@[0] == 'G');
    assert("DAY"@[1] == 'A' && "DTC"@[1] == 'T' && "GTC"@[2] == 'C' && "GTD"@[2] == 'D');
    assert("OPG"@[0] == 'O' && "IOC"@[0] == 'I' && "FOK"@[0] == 'F' && "AUC"@[0] == 'A');
}

/// The action of an order on a side.
pub open spec fn side_action(side: Side) -> Seq<char> {
    match side {
        Side::Buy => "BUY"@,
        Side::Sell => "SELL"@,
        Side::ShortSell => "SSHORT"@,
    }
}

/// The action of the order that a report is about: as the report says, or else as the order is
/// tracked; empty when neither is known.
pub open spec fn action_name(v: Values, o: Option<Order>) -> Seq<char> {
    if lookup(v, 54) == Some("1"@) {
        "BUY"@
    } else if lookup(v, 54) == Some("2"@) {
        "SELL"@
    } else if lookup(v, 54) == Some("5"@) {
        "SSHORT"@
    } else {
        match o {
            Some(order) => side_action(order.side),
            None => Seq::empty(),
        }
    }
}

fn action_str(m: &HashMap<u32, String>, o: Option<Order>) -> (r: &'static str)
    ensures
        r@ == action_name(map_texts(m@), o),
{
    proof {
        reveal_strlit("");
        assert(""@ =~= Seq::<char>::empty());
    }
    if field_is(m, 54, "1") {
        "BUY"
    } else if field_is(m, 54, "2") {
        "SELL"
    } else if field_is(m, 54, "5") {
        "SSHORT"
    } else {
        match o {
            Some(order) => match order.side {
                Side::Buy => "BUY",
                Side::Sell => "SELL",
                Side::ShortSell => "SSHORT",
            },
            None => "",
        }
    }
}

/// The order type of a tracked order, for the common types.
pub open spec fn tracked_type_name(o: Option<Order>) -> Seq<char> {
    match o {
        Some(order) => if order.ord_type == 49 {
            "MKT"@
        } else if order.ord_type == 50 {
            "LMT"@
        } else if order.ord_type == 51 {
            "STP"@
        } else if order.ord_type == 52 {
            "STP LMT"@
        } else if order.ord_type == 80 {
            "TRAIL"@
        } else {
            Seq::empty()
        },
        None => Seq::empty(),
    }
}

fn tracked_type_str(o: Option<Order>) -> (r: &'static str)
    ensures
        r@ == tracked_type_name(o),
{
    proof {
        reveal_strlit("");
        assert(""@ =~= Seq::<char>::empty());
    }
    match o {
        Some(order) => if order.ord_type == 49 {
            "MKT"
        } else if order.ord_type == 50 {
            "LMT"
        } else if order.ord_type == 51 {
            "STP"
        } else if order.ord_type == 52 {
            "STP LMT"
        } else if order.ord_type == 80 {
            "TRAIL"
        } else {
            ""
        },
        None => "",
    }
}

/// A text, or another in its place when it is empty.
pub open spec fn or_else_text(a: Seq<char>, b: Seq<char>) -> Seq<char> {
    if a.len() == 0 {
        b
    } else {
        a
    }
}

fn or_else(a: String, b: &str) -> (r: String)
    ensures
        r@ == or_else_text(a@, b@),
{
    if a.as_str().is_empty() {
        b.to_owned()
    } else {
        a
    }
}

/// The code of the group type that a report names; 3 when it names none.
pub open spec fn reported_oca_type(v: Values) -> i32 {
    if lookup(v, 6209) == Some("CancelOnFillWBlock"@) {
        1
    } else if lookup(v, 6209) == Some("ReduceOnFillWBlock"@) {
        2
    } else if lookup(v, 6209) == Some("ReduceOnFillWBlockFromTotal"@) {
        4
    } else {
        3
    }
}

/// What a report says of an order.
pub open spec fn order_info(v: Values, o: Option<Order>, id: OrderId, account: Seq<char>) -> OrderInfoView {
    OrderInfoView {
        order_id: id,
        action: action_name(v, o),
        total_quantity: lookup_or_empty(v, 38),
        order_type: or_else_text(
            order_type_name(lookup_or_empty(v, 40)),
            tracked_type_name(o),
        ),
        lmt_price: lookup_or_empty(v, 44),
        aux_price: lookup_or_empty(v, 99),
        tif: tif_name(lookup_or_empty(v, 59)),
        account: or_else_text(lookup_or_empty(v, 1), account),
        perm_id: perm_field(v, 37),
        filled_quantity: lookup_or_empty(v, 14),
        outside_rth: lookup(v, 6433) == Some("1"@),
        clearing_intent: lookup_or_empty(v, 6419),
        auto_cancel_date: lookup_or_empty(v, 6596),
        submitter: account,
        oca_type: reported_oca_type(v),
        use_price_mgmt_algo: if lookup(v, 847) == Some("Adaptive"@) {
            1
        } else {
            0
        },
        trail_stop_price: lookup_or_empty(v, 6117),
        algo_strategy: lookup_or_empty(v, 847),
    }
}

fn build_order_info(m: &HashMap<u32, String>, o: Option<Order>, id: OrderId, account_id: &str) -> (r:
    OrderInfo)
    ensures
        r@ == order_info(map_texts(m@), o, id, account_id@),
{
    let oca_type: i32 = if field_is(m, 6209, "CancelOnFillWBlock") {
        1
    } else if field_is(m, 6209, "ReduceOnFillWBlock") {
        2
    } else if field_is(m, 6209, "ReduceOnFillWBlockFromTotal") {
        4
    } else {
        3
    };
    let tif = field_or_empty(m, 59);
    OrderInfo {
        order_id: id,
        action: action_str(m, o).to_owned(),
        total_quantity: field_or_empty(m, 38),
        order_type: or_else(order_type_str(field_or_empty(m, 40)), tracked_type_str(o)),
        lmt_price: field_or_empty(m, 44),
        aux_price: field_or_empty(m, 99),
        tif: tif_name_of(tif.as_str()).to_owned(),
        account: or_else(field_or_empty(m, 1), account_id),
        perm_id: perm_of(m, 37),
        filled_quantity: field_or_empty(m, 14),
        outside_rth: field_is(m, 6433, "1"),
        clearing_intent: field_or_empty(m, 6419),
        auto_cancel_date: field_or_empty(m, 6596),
        submitter: account_id.to_owned(),
        oca_type,
        use_price_mgmt_algo: if field_is(m, 847, "Adaptive") {
            1
        } else {
            0
        },
        trail_stop_price: field_or_empty(m, 6117),
        algo_strategy: field_or_empty(m, 847),
    }
}

/// What a report says of an order's state. An ended order has the time and the manner of its
/// end.
pub open spec fn order_state(v: Values, status: OrderStatus) -> OrderStateView {
    OrderStateView {
        status: status_name(status),
        commission_and_fees: lookup_or_empty(v, 12),
        completed_time: if is_final(status) {
            lookup_or_empty(v, 52)
        } else {
            Seq::empty()
        },
        completed_status: match status {
            OrderStatus::Filled => "Filled"@,
            OrderStatus::Cancelled => "Cancelled"@,
            OrderStatus::Rejected => match lookup(v, 58) {
                Some(t) => t,
                None => "Rejected"@,
            },
            _ => Seq::empty(),
        },
    }
}

fn build_order_state(m: &HashMap<u32, String>, status: OrderStatus) -> (r: OrderState)
    ensures
        r@ == order_state(map_texts(m@), status),
{
    let ended = status == OrderStatus::Filled || status == OrderStatus::Cancelled || status
        == OrderStatus::Rejected;
    OrderState {
        status: order_status_str(status).to_owned(),
        commission_and_fees: field_or_empty(m, 12),
        completed_time: if ended {
            field_or_empty(m, 52)
        } else {
            String::new()
        },
        completed_status: match status {
            OrderStatus::Filled => "Filled".to_owned(),
            OrderStatus::Cancelled => "Cancelled".to_owned(),
            OrderStatus::Rejected => match get_field(m, 58) {
                Some(t) => t.clone(),
                None => "Rejected".to_owned(),
            },
            _ => String::new(),
        },
    }
}

/// What a report says of an order's last execution.
pub open spec fn last_execution(v: Values, o: Option<Order>, id: OrderId) -> ExecutionView {
    ExecutionView {
        exec_id: lookup_or_empty(v, 17),
        time: lookup_or_empty(v, 60),
        acct_number: lookup_or_empty(v, 1),
        exchange: lookup_or_empty(v, 30),
        side: match o {
            Some(order) => if order.side == Side::Buy {
                "BOT"@
            } else {
                "SLD"@
            },
            None => Seq::empty(),
        },
        shares: qty_field(v, 32, 0) as i64,
        price: lookup_or_empty(v, 31),
        order_id: id,
        cum_qty: lookup_or_empty(v, 14),
        avg_price: lookup_or_empty(v, 6),
        last_liquidity: int_field(v, 851, i32::MIN as int, i32::MAX as int, 0) as i32,
    }
}

fn build_last_execution(m: &HashMap<u32, String>, o: Option<Order>, id: OrderId) -> (r: Execution)
    ensures
        r@ == last_execution(map_texts(m@), o, id),
{
    Execution {
        exec_id: field_or_empty(m, 17),
        time: field_or_empty(m, 60),
        acct_number: field_or_empty(m, 1),
        exchange: field_or_empty(m, 30),
        side: match o {
            Some(order) => if order.side == Side::Buy {
                "BOT".to_owned()
            } else {
                "SLD".to_owned()
            },
            None => String::new(),
        },
        shares: qty_of(m, 32, 0),
        price: field_or_empty(m, 31),
        order_id: id,
        cum_qty: field_or_empty(m, 14),
        avg_price: field_or_empty(m, 6),
        last_liquidity: i32_field(m, 851, 0),
    }
}

/// The contract that a report is about: the one it names, or else that of the tracked order.
pub open spec fn resolved_con_id(c: ContextView, v: Values, o: Option<Order>) -> i64 {
    if report_con_id(v) != 0 {
        report_con_id(v)
    } else {
        match o {
            Some(order) => match c.market.con_id_of(order.instrument) {
                Some(con_id) => con_id,
                None => 0,
            },
            None => 0,
        }
    }
}

/// The contract of a report: what is known of it, with what the report says in its place.
pub open spec fn report_contract(
    known: Map<i64, ContractView>,
    v: Values,
    con_id: i64,
) -> ContractView {
    let base = if con_id != 0 && known.contains_key(con_id) {
        known[con_id]
    } else {
        ContractView { con_id, ..blank_contract() }
    };
    ContractView {
        symbol: or_else_text(lookup_or_empty(v, 55), base.symbol),
        sec_type: or_else_text(sec_type_name(lookup_or_empty(v, 167)), base.sec_type),
        exchange: or_else_text(lookup_or_empty(v, 207), base.exchange),
        currency: or_else_text(lookup_or_empty(v, 15), base.currency),
        local_symbol: or_else_text(lookup_or_empty(v, 6035), base.local_symbol),
        ..base
    }
}

fn build_report_contract(m: &HashMap<u32, String>, contracts: &ContractCache, con_id: i64) -> (r:
    Contract)
    ensures
        r@ == report_contract(contracts@, map_texts(m@), con_id),
{
    let base = if con_id != 0 {
        match contracts.get_contract(con_id) {
            Some(known) => known,
            None => {
                let blank = Contract::default();
                Contract { con_id, ..blank }
            },
        }
    } else {
        Contract::default()
    };
    Contract {
        con_id: base.con_id,
        symbol: or_else(field_or_empty(m, 55), base.symbol.as_str()),
        sec_type: or_else(sec_type_str(field_or_empty(m, 167)), base.sec_type.as_str()),
        exchange: or_else(field_or_empty(m, 207), base.exchange.as_str()),
        currency: or_else(field_or_empty(m, 15), base.currency.as_str()),
        local_symbol: or_else(field_or_empty(m, 6035), base.local_symbol.as_str()),
        primary_exchange: base.primary_exchange,
        trading_class: base.trading_class,
        multiplier: base.multiplier,
    }
}

/// All that a report says.
pub open spec fn rich_info(
    c: ContextView,
    known: Map<i64, ContractView>,
    v: Values,
    id: OrderId,
    status: OrderStatus,
    account: Seq<char>,
) -> RichOrderInfoView {
    let o = c.order(id);
    RichOrderInfoView {
        contract: report_contract(known, v, resolved_con_id(c, v, o)),
        order: order_info(v, o, id, account),
        order_state: order_state(v, status),
        last_exec: last_execution(v, o, id),
    }
}

/// The known contracts after a report: the one that it names is known.
pub open spec fn contracts_after(
    c: ContextView,
    known: Map<i64, ContractView>,
    v: Values,
    id: OrderId,
) -> Map<i64, ContractView> {
    if report_con_id(v) != 0 {
        known.insert(report_con_id(v), report_contract(known, v, report_con_id(v)))
    } else {
        known
    }
}

/// Keeps all that a report says.
fn keep_info(
    m: &HashMap<u32, String>,
    context: &Context,
    orders: &mut OrderReports,
    contracts: &mut ContractCache,
    id: OrderId,
    status: OrderStatus,
    account_id: &str,
)
    requires
        context@.wf(),
    ensures
        final(orders)@ == (OrderReportsView {
            infos: old(orders)@.infos.insert(
                id,
                rich_info(context@, old(contracts)@, map_texts(m@), id, status, account_id@),
            ),
            ..old(orders)@
        }),
        final(contracts)@ == contracts_after(context@, old(contracts)@, map_texts(m@), id),
{
    let o = context.order(id);
    let con_id = i64_field(m, 6008, 0);
    let resolved: i64 = if con_id != 0 {
        con_id
    } else {
        match o {
            Some(order) => match context.market.con_id(order.instrument) {
                Some(c) => c,
                None => 0,
            },
            None => 0,
        }
    };
    let contract = build_report_contract(m, contracts, resolved);
    let info = RichOrderInfo {
        contract,
        order: build_order_info(m, o, id, account_id),
        order_state: build_order_state(m, status),
        last_exec: build_last_execution(m, o, id),
    };
    if con_id != 0 {
        contracts.cache_contract(con_id, crate::bridge::copy_contract(&info.contract));
    }
    orders.push_order_info(id, info);
}

// ---------------------------------------------------------------------------------------
// Reports
// ---------------------------------------------------------------------------------------

/// What execution reports change: the remembered execution ids, the context, what is to be
/// reported about orders, the positions, the known contracts, and the number of instruments
/// that clients see.
pub ghost struct ReportState {
    pub ids: Seq<Seq<char>>,
    pub c: ContextView,
    pub orders: OrderReportsView,
    pub portfolio: PortfolioView,
    pub contracts: Map<i64, ContractView>,
    pub instrument_count: u32,
}

impl ReportState {
    pub open spec fn wf(self) -> bool {
        self.c.wf() && window_ok(self.ids)
    }
}

/// With an error for an order that the server rejects.
pub open spec fn with_reject(s: ReportState, v: Values, id: OrderId) -> ReportState {
    ReportState {
        orders: OrderReportsView {
            errors: s.orders.errors.push(
                (id, 201i64, "Order rejected - reason:"@ + lookup_or_empty(v, 58)),
            ),
            ..s.orders
        },
        ..s
    }
}

/// After a new status is applied, and an error reported for a rejection that is news.
pub open spec fn status_applied(s: ReportState, v: Values, id: OrderId, status: OrderStatus) -> ReportState {
    let after = ReportState { c: s.c.after_status(id, status), ..s };
    if status == OrderStatus::Rejected && status_change(s.c.status(id), status)
        == StatusChange::Changed {
        with_reject(after, v, id)
    } else {
        after
    }
}

/// Whether a report repeats a fill that was counted.
pub open spec fn repeats_fill(s: ReportState, v: Values) -> bool {
    carries_fill(v) && lookup_or_empty(v, 17).len() > 0 && s.ids.contains(lookup_or_empty(v, 17))
}

/// After a fill is counted: its id is remembered, and for a tracked order its filled quantity
/// and the position change.
pub open spec fn fill_counted(s: ReportState, v: Values, id: OrderId) -> ReportState {
    let ids = if lookup_or_empty(v, 17).len() > 0 {
        seen(s.ids, lookup_or_empty(v, 17))
    } else {
        s.ids
    };
    match s.c.order(id) {
        Some(o) => {
            let shares = qty_field(v, 32, 0);
            let c = s.c.with_fill(id, shares as i64).with_position(
                o.instrument,
                fill_delta(o.side, shares),
            );
            ReportState {
                ids,
                c,
                portfolio: s.portfolio.with_position(
                    o.instrument,
                    c.positions[o.instrument as int],
                ),
                ..s
            }
        },
        None => ReportState { ids, ..s },
    }
}

/// With all that a report says kept.
pub open spec fn info_kept(
    s: ReportState,
    v: Values,
    id: OrderId,
    status: OrderStatus,
    account: Seq<char>,
) -> ReportState {
    ReportState {
        orders: OrderReportsView {
            infos: s.orders.infos.insert(
                id,
                rich_info(s.c, s.contracts, v, id, status, account),
            ),
            ..s.orders
        },
        contracts: contracts_after(s.c, s.contracts, v, id),
        ..s
    }
}

/// With a fill reported.
pub open spec fn with_fill_report(s: ReportState, fill: Fill, exec: FillExecView) -> ReportState {
    ReportState {
        orders: OrderReportsView { fills: s.orders.fills.push((fill, exec)), ..s.orders },
        ..s
    }
}

/// With an update reported.
pub open spec fn with_update_report(s: ReportState, update: OrderUpdate) -> ReportState {
    ReportState {
        orders: OrderReportsView { updates: s.orders.updates.push(update), ..s.orders },
        ..s
    }
}

/// After an order has ended: it is reported as completed, and tracked no longer.
pub open spec fn order_ended(s: ReportState, id: OrderId, status: OrderStatus) -> ReportState {
    let orders = match s.c.order(id) {
        Some(o) => OrderReportsView {
            completed: s.orders.completed.push(
                CompletedOrder {
                    order_id: id,
                    instrument: o.instrument,
                    status,
                    filled_qty_fixed: o.filled_fixed,
                    timestamp_ns: s.c.now_ns,
                },
            ),
            ..s.orders
        },
        None => s.orders,
    };
    ReportState { orders, c: s.c.without_order(id), ..s }
}

/// After a report gives an order a status. A fill that was counted before is not counted again,
/// and such a report says no more. A fill takes the place of the update; a report that is stale
/// or silent gives none.
pub open spec fn status_reported(
    s: ReportState,
    v: Values,
    n: Numbers,
    id: OrderId,
    status: OrderStatus,
    account: Seq<char>,
) -> ReportState {
    let change = status_change(s.c.status(id), status);
    let s1 = status_applied(s, v, id, status);
    if repeats_fill(s1, v) {
        s1
    } else {
        let filled = s1.c.order(id);
        let had_fill = carries_fill(v) && filled is Some;
        let s2 = if carries_fill(v) {
            fill_counted(s1, v, id)
        } else {
            s1
        };
        let s3 = info_kept(s2, v, id, status, account);
        let s4 = if had_fill {
            with_fill_report(s3, fill_of(v, n, filled->0, s.c.now_ns), fill_exec(v))
        } else if (change == StatusChange::Changed || change == StatusChange::Same)
            && !silent_code(v) && s2.c.order(id) is Some {
            with_update_report(s3, update_of(v, n, s2.c.order(id)->0, s.c.now_ns))
        } else {
            s3
        };
        if is_final(status) {
            order_ended(s4, id, status)
        } else {
            s4
        }
    }
}

/// After an execution report. One that is about no order says no more than that it may list
/// one; a preview is reported as such.
#[verifier::opaque]
pub open spec fn exec_report(s: ReportState, v: Values, n: Numbers, account: Seq<char>) -> ReportState {
    let id = report_order(v);
    let s1 = ReportState {
        c: after_listing(s.c, v, n, id),
        instrument_count: if lists_order(s.c, v, id) {
            after_listing(s.c, v, n, id).market.con_ids.len() as u32
        } else {
            s.instrument_count
        },
        ..s
    };
    let s2 = ReportState { c: after_clord(s1.c, v, id), ..s1 };
    if id == 0 {
        s1
    } else if lookup(v, 6091) == Some("1"@) {
        match s2.c.order(id) {
            Some(o) if is_preview_data(n) => ReportState {
                c: s2.c.without_order(id),
                orders: OrderReportsView {
                    what_ifs: s2.orders.what_ifs.push(preview(n, id, o.instrument)),
                    ..s2.orders
                },
                ..s2
            },
            _ => s2,
        }
    } else {
        match reported_status(v, s2.c.status(id)) {
            Some(status) => status_reported(s2, v, n, id, status, account),
            None => s2,
        }
    }
}

/// Takes in an execution report. `n` holds what those of its fields that read as decimal
/// numbers stand for.
pub fn handle_exec_report(
    m: &HashMap<u32, String>,
    n: &HashMap<u32, Number>,
    ids: &mut ExecIdWindow,
    context: &mut Context,
    orders: &mut OrderReports,
    portfolio: &mut Portfolio,
    contracts: &mut ContractCache,
    instrument_count: &mut u32,
    account_id: &str,
)
    requires
        old(context)@.wf(),
        window_ok(old(ids)@),
    ensures
        final(context)@.wf(),
        window_ok(final(ids)@),
        (ReportState {
            ids: final(ids)@,
            c: final(context)@,
            orders: final(orders)@,
            portfolio: final(portfolio)@,
            contracts: final(contracts)@,
            instrument_count: *final(instrument_count),
        }) == exec_report(
            ReportState {
                ids: old(ids)@,
                c: old(context)@,
                orders: old(orders)@,
                portfolio: old(portfolio)@,
                contracts: old(contracts)@,
                instrument_count: *old(instrument_count),
            },
            map_texts(m@),
            n@,
            account_id@,
        ),
{
    proof {
        reveal(exec_report);
    }
    let id = report_order_id(m);
    take_listing(m, n, context, instrument_count, id);
    if id == 0 {
        return ;
    }
    keep_clord(m, context, id);
    if field_is(m, 6091, "1") {
        take_preview(n, context, orders, id);
        return ;
    }
    let current = match context.order(id) {
        Some(o) => Some(o.status),
        None => None,
    };
    let code = field_or_empty(m, 39);
    let status = match status_of(m, code.as_str(), current) {
        Some(s) => s,
        None => return ,
    };
    take_status(
        m,
        n,
        ids,
        context,
        orders,
        portfolio,
        contracts,
        *instrument_count,
        account_id,
        id,
        status,
    );
}

/// Takes in what a report that gives an order a status says.
fn take_status(
    m: &HashMap<u32, String>,
    n: &HashMap<u32, Number>,
    ids: &mut ExecIdWindow,
    context: &mut Context,
    orders: &mut OrderReports,
    portfolio: &mut Portfolio,
    contracts: &mut ContractCache,
    instrument_count: u32,
    account_id: &str,
    id: OrderId,
    status: OrderStatus,
)
    requires
        old(context)@.wf(),
        window_ok(old(ids)@),
    ensures
        final(context)@.wf(),
        window_ok(final(ids)@),
        (ReportState {
            ids: final(ids)@,
            c: final(context)@,
            orders: final(orders)@,
            portfolio: final(portfolio)@,
            contracts: final(contracts)@,
            instrument_count,
        }) == status_reported(
            ReportState {
                ids: old(ids)@,
                c: old(context)@,
                orders: old(orders)@,
                portfolio: old(portfolio)@,
                contracts: old(contracts)@,
                instrument_count,
            },
            map_texts(m@),
            n@,
            id,
            status,
            account_id@,
        ),
{
    let ghost v = map_texts(m@);
    let now_ns = context.now_ns;
    let change = context.apply_order_status(id, status);
    if status == OrderStatus::Rejected && change == StatusChange::Changed {
        let reason = field_or_empty(m, 58);
        orders.push_order_error(id, 201, join("Order rejected - reason:", reason.as_str()));
    }
    let exec_type = field_or_empty(m, 150);
    let exec_id = field_or_empty(m, 17);
    let shares = qty_of(m, 32, 0);
    let is_fill = (text_eq(exec_type.as_str(), "F") || text_eq(exec_type.as_str(), "1") || text_eq(
        exec_type.as_str(),
        "2",
    )) && shares > 0;
    let filled = context.order(id);
    if is_fill {
        if !exec_id.as_str().is_empty() {
            if !ids.record(exec_id.as_str()) {
                return ;
            }
        }
        if let Some(order) = filled {
            context.update_order_filled_fixed(id, shares);
            let delta: i64 = if order.side == Side::Buy {
                shares
            } else {
                -shares
            };
            context.update_position_fixed(order.instrument, delta);
            portfolio.set_position_fixed(
                order.instrument,
                context.position_fixed(order.instrument),
            );
        }
    }
    keep_info(m, context, orders, contracts, id, status, account_id);
    let code = field_or_empty(m, 39);
    let silent = text_eq(code.as_str(), "E") || text_eq(code.as_str(), "I");
    if is_fill && filled.is_some() {
        if let Some(order) = filled {
            let fill = Fill {
                instrument: order.instrument,
                order_id: order.order_id,
                side: order.side,
                price: price_of(n, 31),
                qty_fixed: shares,
                remaining_fixed: qty_of(m, 151, 0),
                cum_qty_fixed: qty_of(m, 14, 0),
                avg_price: rounded_of(n, 6),
                commission: price_of(n, 12),
                timestamp_ns: now_ns,
            };
            orders.push_fill_with_exec(fill, build_fill_exec(m));
        }
    } else if (change == StatusChange::Changed || change == StatusChange::Same) && !silent {
        if let Some(order) = context.order(id) {
            let update = OrderUpdate {
                order_id: order.order_id,
                instrument: order.instrument,
                status: order.status,
                filled_qty_fixed: qty_of(m, 14, order.filled_fixed),
                remaining_qty_fixed: qty_of(m, 151, 0),
                avg_fill_price: rounded_of(n, 6),
                perm_id: perm_of(m, 37),
                parent_id: perm_of(m, 583),
                timestamp_ns: now_ns,
            };
            orders.push_order_update(update);
        }
    }
    if status == OrderStatus::Filled || status == OrderStatus::Cancelled || status
        == OrderStatus::Rejected {
        if let Some(order) = context.order(id) {
            orders.push_completed_order(
                CompletedOrder {
                    order_id: id,
                    instrument: order.instrument,
                    status,
                    filled_qty_fixed: order.filled_fixed,
                    timestamp_ns: now_ns,
                },
            );
        }
        context.remove_order(id);
    }
}

// ---------------------------------------------------------------------------------------
// Laws
// ---------------------------------------------------------------------------------------

/// A fill counts once: the same report again, as a server sends it after a reconnect, changes
/// no position and reports no second fill.
pub proof fn law_fill_counts_once(s: ReportState, v: Values, n: Numbers, account: Seq<char>)
    requires
        s.wf(),
        carries_fill(v),
        lookup_or_empty(v, 17).len() > 0,
    ensures
        ({
            let once = exec_report(s, v, n, account);
            let twice = exec_report(once, v, n, account);
            &&& twice.c.positions == once.c.positions
            &&& twice.orders.fills == once.orders.fills
        }),
{
    let id = report_order(v);
    let exec_id = lookup_or_empty(v, 17);
    reveal_strlit("0");
    reveal_strlit("F");
    reveal_strlit("1");
    reveal_strlit("2");
    assert(!is_new_ack(v)) by {
        assert("0"@[0] == '0' && "F"@[0] == 'F' && "1"@[0] == '1' && "2"@[0] == '2');
    }
    reveal(exec_report);
    let once = exec_report(s, v, n, account);
    crate::engine::hot_loop::exec_ids::lemma_seen_ok(s.ids, exec_id);
    let s2 = ReportState { c: after_clord(s.c, v, id), ..s };
    if id != 0 && lookup(v, 6091) != Some("1"@) && reported_status(v, s2.c.status(id)) is Some {
        assert(once.ids.contains(exec_id));
    }
}

/// A new fill of a tracked order moves the position by its quantity, up for a buy and down
/// otherwise, and is reported.
pub proof fn law_fill_moves_position(s: ReportState, v: Values, id: OrderId)
    requires
        s.wf(),
        carries_fill(v),
        s.c.order(id) is Some,
        ({
            let o = s.c.order(id)->0;
            i64::MIN <= s.c.positions[o.instrument as int] + fill_delta(
                o.side,
                qty_field(v, 32, 0),
            ) <= i64::MAX
        }),
    ensures
        ({
            let o = s.c.order(id)->0;
            let after = fill_counted(s, v, id);
            &&& after.c.positions[o.instrument as int] == s.c.positions[o.instrument as int]
                + fill_delta(o.side, qty_field(v, 32, 0))
            &&& after.portfolio.positions[o.instrument] == after.c.positions[o.instrument as int]
            &&& forall|i: int|
                0 <= i < MAX_INSTRUMENTS && i != o.instrument ==> #[trigger] after.c.positions[i]
                    == s.c.positions[i]
        }),
{
    let o = s.c.order(id)->0;
    let k = crate::engine::context::order_index(s.c.orders, id);
    assert(s.c.orders[k].instrument < MAX_INSTRUMENTS);
}

/// An order that a report ends is tracked no longer.
pub proof fn law_ended_order_leaves(
    s: ReportState,
    v: Values,
    n: Numbers,
    id: OrderId,
    status: OrderStatus,
    account: Seq<char>,
)
    requires
        s.wf(),
        is_final(status),
        !repeats_fill(status_applied(s, v, id, status), v),
    ensures
        status_reported(s, v, n, id, status, account).c.order(id) is None,
{
    let s1 = status_applied(s, v, id, status);
    lemma_after_status_wf(s.c, id, status);
    if carries_fill(v) {
        lemma_fill_wf(s1, v, id);
    }
    let s2 = if carries_fill(v) {
        fill_counted(s1, v, id)
    } else {
        s1
    };
    crate::engine::context::law_drop_then_find(s2.c.orders, id, id);
}

proof fn lemma_after_status_wf(c: ContextView, id: OrderId, status: OrderStatus)
    requires
        c.wf(),
    ensures
        crate::engine::context::distinct_orders(c.after_status(id, status).orders),
{
    if let Some(o) = c.order(id) {
        crate::engine::context::lemma_put_distinct(c.orders, Order { status, ..o });
    }
}

proof fn lemma_fill_wf(s: ReportState, v: Values, id: OrderId)
    requires
        crate::engine::context::distinct_orders(s.c.orders),
    ensures
        crate::engine::context::distinct_orders(fill_counted(s, v, id).c.orders),
{
    if let Some(o) = s.c.order(id) {
        let shares = qty_field(v, 32, 0) as i64;
        crate::engine::context::lemma_put_distinct(
            s.c.orders,
            Order {
                filled_fixed: crate::engine::context::clamped(o.filled_fixed + shares),
                ..o
            },
        );
    }
}

/// The rejection of an order is reported as an error once: only when the order is tracked and
/// was not finished.
pub proof fn law_reject_reported_once(
    s: ReportState,
    v: Values,
    n: Numbers,
    id: OrderId,
    account: Seq<char>,
)
    requires
        s.wf(),
    ensures
        ({
            let after = status_reported(s, v, n, id, OrderStatus::Rejected, account);
            match s.c.status(id) {
                Some(status) if !is_final(status) => after.orders.errors == s.orders.errors.push(
                    (id, 201i64, "Order rejected - reason:"@ + lookup_or_empty(v, 58)),
                ),
                _ => after.orders.errors == s.orders.errors,
            }
        }),
{
}

} // verus!
