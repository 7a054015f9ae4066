//! Plain reports: what a strategy that runs in the engine is told of its orders. Status changes
//! are told once, and quantities are whole.
use std::collections::HashMap;
use vstd::prelude::*;

use crate::bridge::{CancelReject, Fill, Number, OrderUpdate};
use crate::engine::context::{clamp, clamped, AccountState, Context, ContextView};
use crate::engine::hot_loop::ccp::{ccp_kind, message_kind, CcpKind};
use crate::engine::hot_loop::exec_report::{
    fill_delta, i32_field, int_field, price_field, Numbers, Values,
};
use crate::engine::hot_loop::numbers::{field_numbers, price_of, NumberTable};
use crate::engine::hot_loop::portfolio::{
    account_entries, account_scan, pair_texts, row_con_id, text_parts,
};
use crate::engine::hot_loop::server_reports::{still_working, test_reply, test_reply_fields};
use crate::engine::order::{Order, OrderStatus, Side};
use crate::protocol::fix::{
    field_or_empty, fix_parse, fix_values, get_field, lookup, lookup_or_empty, map_texts, Fields,
};
use crate::text::{chars_of, parse_i64, parse_u64, parsed_int, string_texts, text_eq, text_of};
use crate::types::{InstrumentId, OrderId, Price, Qty, QTY_SCALE};

verus! {

broadcast use vstd::std_specs::hash::group_hash_axioms;

/// What a strategy is told.
#[derive(Debug, Clone, Copy, PartialEq, Eq, Structural)]
pub enum StrategyEvent {
    /// The quote of an instrument has changed.
    Tick(InstrumentId),
    Fill(Fill),
    Update(OrderUpdate),
    Rejected(CancelReject),
    /// A connection is lost, or the engine stops.
    Disconnected,
}

/// What plain reports change: the context, the execution ids that were seen, and what the
/// strategy is told.
pub ghost struct PlainReportView {
    pub c: ContextView,
    pub seen: Seq<Seq<char>>,
    pub events: Seq<StrategyEvent>,
}

/// The order that a report is about: a number, behind a `C` in the answer to a cancel; 0 for
/// none.
pub open spec fn plain_order_id(v: Values) -> OrderId {
    match lookup(v, 11) {
        Some(t) => {
            let number = if t.len() > 0 && t[0] == 'C' {
                t.skip(1)
            } else {
                t
            };
            match parsed_int(number, 0, u64::MAX as int) {
                Some(n) => n as u64,
                None => 0,
            }
        },
        None => 0,
    }
}

fn read_plain_order_id(m: &HashMap<u32, String>) -> (r: OrderId)
    ensures
        r == plain_order_id(map_texts(m@)),
{
    match get_field(m, 11) {
        Some(t) => {
            let chars = chars_of(t.as_str());
            let number = if chars.len() > 0 && chars[0] == 'C' {
                let rest = text_of(vstd::slice::slice_subrange(chars.as_slice(), 1, chars.len()));
                proof {
                    assert(rest@ =~= t@.skip(1));
                }
                rest
            } else {
                t.clone()
            };
            match parse_u64(number.as_str()) {
                Some(n) => n,
                None => 0,
            }
        },
        None => 0,
    }
}

/// The status that a report gives, if it gives one.
pub open spec fn plain_status(v: Values) -> Option<OrderStatus> {
    let code = lookup_or_empty(v, 39);
    if code == "0"@ || code == "A"@ || code == "E"@ || code == "5"@ {
        Some(OrderStatus::Submitted)
    } else if code == "1"@ {
        Some(OrderStatus::PartiallyFilled)
    } else if code == "2"@ {
        Some(OrderStatus::Filled)
    } else if code == "4"@ || code == "C"@ {
        Some(OrderStatus::Cancelled)
    } else if code == "8"@ {
        Some(OrderStatus::Rejected)
    } else {
        None
    }
}

fn read_plain_status(m: &HashMap<u32, String>) -> (r: Option<OrderStatus>)
    ensures
        r == plain_status(map_texts(m@)),
{
    let code = field_or_empty(m, 39);
    let c = code.as_str();
    if text_eq(c, "0") || text_eq(c, "A") || text_eq(c, "E") || text_eq(c, "5") {
        Some(OrderStatus::Submitted)
    } else if text_eq(c, "1") {
        Some(OrderStatus::PartiallyFilled)
    } else if text_eq(c, "2") {
        Some(OrderStatus::Filled)
    } else if text_eq(c, "4") || text_eq(c, "C") {
        Some(OrderStatus::Cancelled)
    } else if text_eq(c, "8") {
        Some(OrderStatus::Rejected)
    } else {
        None
    }
}

/// A whole number in a field; 0 when it is none.
pub open spec fn whole_field(v: Values, tag: u32) -> int {
    int_field(v, tag, i64::MIN as int, i64::MAX as int, 0)
}

fn whole(m: &HashMap<u32, String>, tag: u32) -> (r: i64)
    ensures
        r == whole_field(map_texts(m@), tag),
{
    match get_field(m, tag) {
        Some(t) => match parse_i64(t.as_str()) {
            Some(n) => n,
            None => 0,
        },
        None => 0,
    }
}

/// A whole number of shares, as far as a quantity can hold it.
pub open spec fn shares_qty(shares: int) -> Qty {
    clamped(shares * QTY_SCALE)
}

fn qty_of_shares(shares: i64) -> (r: Qty)
    ensures
        r == shares_qty(shares as int),
{
    clamp(shares as i128 * QTY_SCALE as i128)
}

/// Whether a report carries a fill.
pub open spec fn carries_plain_fill(v: Values) -> bool {
    let t = lookup_or_empty(v, 150);
    (t == "F"@ || t == "1"@ || t == "2"@) && whole_field(v, 32) > 0
}

/// Whether a report repeats a fill that was seen.
pub open spec fn repeats_plain_fill(s: PlainReportView, v: Values) -> bool {
    carries_plain_fill(v) && lookup_or_empty(v, 17).len() > 0 && s.seen.contains(
        lookup_or_empty(v, 17),
    )
}

/// The fill that a report carries.
pub open spec fn plain_fill(v: Values, n: Numbers, o: Order, now_ns: u64) -> Fill {
    Fill {
        instrument: o.instrument,
        order_id: o.order_id,
        side: o.side,
        price: price_field(n, 31),
        qty_fixed: shares_qty(whole_field(v, 32)),
        remaining_fixed: shares_qty(whole_field(v, 151)),
        cum_qty_fixed: 0,
        avg_price: 0,
        commission: price_field(n, 12),
        timestamp_ns: now_ns,
    }
}

/// After the fill of a report: it is remembered, and when its order is tracked, the order and
/// the position move by it and the strategy is told.
pub open spec fn plain_filled(s: PlainReportView, v: Values, n: Numbers, id: OrderId) -> PlainReportView {
    let exec_id = lookup_or_empty(v, 17);
    let shares = whole_field(v, 32);
    let t = PlainReportView {
        seen: if exec_id.len() > 0 {
            s.seen.push(exec_id)
        } else {
            s.seen
        },
        ..s
    };
    match t.c.order(id) {
        Some(o) => PlainReportView {
            c: t.c.with_fill(id, shares_qty(shares % 0x1_0000_0000)).with_position(
                o.instrument,
                fill_delta(o.side, shares) * QTY_SCALE,
            ),
            events: t.events.push(StrategyEvent::Fill(plain_fill(v, n, o, t.c.now_ns))),
            ..t
        },
        None => t,
    }
}

/// What a strategy is told of a change of status.
pub open spec fn plain_update(v: Values, o: Order, status: OrderStatus, now_ns: u64) -> OrderUpdate {
    OrderUpdate {
        order_id: o.order_id,
        instrument: o.instrument,
        status,
        filled_qty_fixed: o.filled_fixed,
        remaining_qty_fixed: shares_qty(whole_field(v, 151)),
        avg_fill_price: 0,
        perm_id: 0,
        parent_id: 0,
        timestamp_ns: now_ns,
    }
}

/// Whether an order with a status is done.
pub open spec fn is_done(status: OrderStatus) -> bool {
    status == OrderStatus::Filled || status == OrderStatus::Cancelled || status
        == OrderStatus::Rejected
}

/// After a report: the order has its status; a fill that was not seen counts; a change of
/// status is told; and an order that is done is no longer tracked.
pub open spec fn plain_report(s: PlainReportView, v: Values, n: Numbers) -> PlainReportView {
    let id = plain_order_id(v);
    match plain_status(v) {
        None => s,
        Some(status) => {
            let changed = s.c.status(id) != Some(status);
            let s1 = PlainReportView { c: s.c.with_status(id, status), ..s };
            if repeats_plain_fill(s, v) {
                s1
            } else {
                let s2 = if carries_plain_fill(v) {
                    plain_filled(s1, v, n, id)
                } else {
                    s1
                };
                let s3 = match s2.c.order(id) {
                    Some(o) => if changed {
                        PlainReportView {
                            events: s2.events.push(
                                StrategyEvent::Update(plain_update(v, o, status, s2.c.now_ns)),
                            ),
                            ..s2
                        }
                    } else {
                        s2
                    },
                    None => s2,
                };
                if is_done(status) {
                    PlainReportView { c: s3.c.without_order(id), ..s3 }
                } else {
                    s3
                }
            }
        },
    }
}

/// What a strategy is to be told, and the execution ids that were seen.
pub struct PlainReports {
    pub seen_exec_ids: Vec<String>,
    pub events: Vec<StrategyEvent>,
}

/// What is to be told, with one thing more when `on`.
pub open spec fn told_if(events: Seq<StrategyEvent>, on: bool, event: StrategyEvent) -> Seq<
    StrategyEvent,
> {
    if on {
        events.push(event)
    } else {
        events
    }
}

/// The state as plain reports see it.
pub open spec fn plain_view(r: PlainReports, c: ContextView) -> PlainReportView {
    PlainReportView { c, seen: string_texts(r.seen_exec_ids@), events: r.events@ }
}

impl PlainReports {
    /// Whether these are the reports `before`, with one more thing to be told.
    pub open spec fn told(self, before: PlainReports, event: StrategyEvent) -> bool {
        &&& self.events@ == before.events@.push(event)
        &&& self.seen_exec_ids == before.seen_exec_ids
    }

    /// Nothing was seen, and nothing is to be told.
    pub fn new() -> (r: Self)
        ensures
            string_texts(r.seen_exec_ids@) == Seq::<Seq<char>>::empty(),
            r.events@ == Seq::<StrategyEvent>::empty(),
    {
        let r = PlainReports { seen_exec_ids: Vec::new(), events: Vec::new() };
        proof {
            assert(string_texts(r.seen_exec_ids@) =~= Seq::empty());
        }
        r
    }

    /// Leaves something to be told.
    pub fn tell(&mut self, event: StrategyEvent)
        ensures
            final(self).told(*old(self), event),
    {
        self.events.push(event);
    }

    fn was_seen(&self, id: &str) -> (r: bool)
        ensures
            r == string_texts(self.seen_exec_ids@).contains(id@),
    {
        let ghost t = string_texts(self.seen_exec_ids@);
        let mut i: usize = 0;
        while i < self.seen_exec_ids.len()
            invariant
                i <= self.seen_exec_ids.len(),
                t == string_texts(self.seen_exec_ids@),
                forall|k: int| 0 <= k < i ==> t[k] != id@,
            decreases self.seen_exec_ids.len() - i,
        {
            proof {
                assert(t[i as int] == self.seen_exec_ids@[i as int]@);
            }
            if text_eq(self.seen_exec_ids[i].as_str(), id) {
                return true;
            }
            i = i + 1;
        }
        proof {
            assert(t.len() == self.seen_exec_ids@.len());
        }
        false
    }

    fn take_fill(
        &mut self,
        m: &HashMap<u32, String>,
        n: &HashMap<u32, Number>,
        context: &mut Context,
        id: OrderId,
        exec_id: String,
    )
        requires
            old(context)@.wf(),
            exec_id@ == lookup_or_empty(map_texts(m@), 17),
            whole_field(map_texts(m@), 32) > 0,
        ensures
            final(context)@.wf(),
            plain_view(*final(self), final(context)@) == plain_filled(
                plain_view(*old(self), old(context)@),
                map_texts(m@),
                n@,
                id,
            ),
    {
        let ghost text = exec_id@;
        let ghost seen = string_texts(self.seen_exec_ids@);
        if !exec_id.as_str().is_empty() {
            self.seen_exec_ids.push(exec_id);
            proof {
                assert(string_texts(self.seen_exec_ids@) =~= seen.push(text));
            }
        }
        if let Some(o) = context.order(id) {
            let shares: i64 = whole(m, 32);
            let low: i64 = shares % 0x1_0000_0000;
            let delta: i64 = match o.side {
                Side::Buy => shares,
                Side::Sell | Side::ShortSell => -shares,
            };
            let fill = Fill {
                instrument: o.instrument,
                order_id: o.order_id,
                side: o.side,
                price: price_at(n, 31),
                qty_fixed: qty_of_shares(shares),
                remaining_fixed: qty_of_shares(whole(m, 151)),
                cum_qty_fixed: 0,
                avg_price: 0,
                commission: price_at(n, 12),
                timestamp_ns: context.now_ns,
            };
            context.update_order_filled_fixed(id, qty_of_shares(low));
            context.update_position(o.instrument, delta);
            self.events.push(StrategyEvent::Fill(fill));
        }
    }

    /// Takes in a report. `n` holds what those of its fields that read as decimal numbers
    /// stand for.
    pub fn handle_exec_report(
        &mut self,
        m: &HashMap<u32, String>,
        n: &HashMap<u32, Number>,
        context: &mut Context,
    )
        requires
            old(context)@.wf(),
        ensures
            final(context)@.wf(),
            plain_view(*final(self), final(context)@) == plain_report(
                plain_view(*old(self), old(context)@),
                map_texts(m@),
                n@,
            ),
    {
        let id = read_plain_order_id(m);
        let status = match read_plain_status(m) {
            Some(s) => s,
            None => return ,
        };
        let before: Option<OrderStatus> = match context.order(id) {
            Some(o) => Some(o.status),
            None => None,
        };
        let changed = match before {
            Some(s) => s != status,
            None => true,
        };
        context.set_order_status_forced(id, status);
        let exec_type = field_or_empty(m, 150);
        let t = exec_type.as_str();
        let shares = whole(m, 32);
        if (text_eq(t, "F") || text_eq(t, "1") || text_eq(t, "2")) && shares > 0 {
            let exec_id = field_or_empty(m, 17);
            if !exec_id.as_str().is_empty() && self.was_seen(exec_id.as_str()) {
                return ;
            }
            self.take_fill(m, n, context, id, exec_id);
        }
        if changed {
            if let Some(o) = context.order(id) {
                self.events.push(
                    StrategyEvent::Update(
                        OrderUpdate {
                            order_id: o.order_id,
                            instrument: o.instrument,
                            status,
                            filled_qty_fixed: o.filled_fixed,
                            remaining_qty_fixed: qty_of_shares(whole(m, 151)),
                            avg_fill_price: 0,
                            perm_id: 0,
                            parent_id: 0,
                            timestamp_ns: context.now_ns,
                        },
                    ),
                );
            }
        }
        if status == OrderStatus::Filled || status == OrderStatus::Cancelled || status
            == OrderStatus::Rejected {
            context.remove_order(id);
        }
    }

    /// Takes in the refusal of a cancel or replace request: an order that is tracked works on,
    /// and the strategy is told.
    pub fn handle_cancel_reject(&mut self, m: &HashMap<u32, String>, context: &mut Context)
        requires
            old(context)@.wf(),
        ensures
            final(context)@.wf(),
            plain_view(*final(self), final(context)@) == plain_refusal(
                plain_view(*old(self), old(context)@),
                map_texts(m@),
            ),
    {
        let id = match get_field(m, 41) {
            Some(t) => match parse_u64(t.as_str()) {
                Some(id) => id,
                None => return ,
            },
            None => return ,
        };
        let reject_type: u8 = match get_field(m, 434) {
            Some(s) => match crate::text::parse_unsigned(s.as_str(), 255) {
                Some(t) => t as u8,
                None => 1,
            },
            None => 1,
        };
        let reason_code = i32_field(m, 102, -1);
        if let Some(o) = context.order(id) {
            context.set_order_status_forced(
                id,
                if o.filled_fixed > 0 {
                    OrderStatus::PartiallyFilled
                } else {
                    OrderStatus::Submitted
                },
            );
            self.events.push(
                StrategyEvent::Rejected(
                    CancelReject {
                        order_id: id,
                        instrument: o.instrument,
                        reject_type,
                        reason_code,
                        timestamp_ns: context.now_ns,
                    },
                ),
            );
        }
    }
}

// ---------------------------------------------------------------------------------------
// Account and positions
// ---------------------------------------------------------------------------------------

/// The account with one of the values that a strategy sees set. Any other name sets nothing.
pub open spec fn with_plain_value(a: AccountState, key: Seq<char>, p: Price) -> AccountState {
    if key == "NetLiquidation"@ {
        AccountState { net_liquidation: p, ..a }
    } else if key == "BuyingPower"@ {
        AccountState { buying_power: p, ..a }
    } else if key == "MaintMarginReq"@ {
        AccountState { margin_used: p, ..a }
    } else if key == "UnrealizedPnL"@ {
        AccountState { unrealized_pnl: p, ..a }
    } else if key == "RealizedPnL"@ {
        AccountState { realized_pnl: p, ..a }
    } else {
        a
    }
}

fn set_plain_value(a: AccountState, key: &str, p: Price) -> (r: AccountState)
    ensures
        r == with_plain_value(a, key@, p),
{
    if text_eq(key, "NetLiquidation") {
        AccountState { net_liquidation: p, ..a }
    } else if text_eq(key, "BuyingPower") {
        AccountState { buying_power: p, ..a }
    } else if text_eq(key, "MaintMarginReq") {
        AccountState { margin_used: p, ..a }
    } else if text_eq(key, "UnrealizedPnL") {
        AccountState { unrealized_pnl: p, ..a }
    } else if text_eq(key, "RealizedPnL") {
        AccountState { realized_pnl: p, ..a }
    } else {
        a
    }
}

/// The account with a list of values set, in order. `table` tells what the values stand for
/// that read as decimal numbers; one that does not sets nothing.
pub open spec fn with_plain_values(
    a: AccountState,
    entries: Seq<(Seq<char>, Seq<char>)>,
    table: Seq<(Seq<char>, Number)>,
) -> AccountState
    decreases entries.len(),
{
    if entries.len() == 0 {
        a
    } else {
        let before = with_plain_values(a, entries.drop_last(), table);
        let (key, value) = entries.last();
        match price_of(table, value) {
            Some(p) => with_plain_value(before, key, p),
            None => before,
        }
    }
}

/// The account after an update of its values. One that is not text changes nothing.
pub open spec fn plain_account(
    a: AccountState,
    msg: Seq<u8>,
    table: Seq<(Seq<char>, Number)>,
) -> AccountState {
    if vstd::utf8::valid_utf8(msg) {
        with_plain_values(a, account_scan(text_parts(msg)).entries, table)
    } else {
        a
    }
}

/// Takes in an update of the account's values.
pub fn handle_account_update(msg: &[u8], table: &NumberTable, context: &mut Context)
    ensures
        final(context)@ == (ContextView {
            account: plain_account(old(context)@.account, msg@, table@),
            ..old(context)@
        }),
{
    let entries = match account_entries(msg) {
        Some(e) => e,
        None => return ,
    };
    let ghost e = pair_texts(entries@);
    let mut a = context.account;
    let mut i: usize = 0;
    proof {
        assert(e.take(0) =~= Seq::empty());
    }
    while i < entries.len()
        invariant
            i <= entries.len(),
            e == pair_texts(entries@),
            a == with_plain_values(context@.account, e.take(i as int), table@),
        decreases entries.len() - i,
    {
        proof {
            assert(e.take(i + 1).drop_last() =~= e.take(i as int));
            assert(e.take(i + 1).last() == (entries@[i as int].0@, entries@[i as int].1@));
        }
        if let Some(p) = table.price(entries[i].1.as_str()) {
            a = set_plain_value(a, entries[i].0.as_str(), p);
        }
        i = i + 1;
    }
    proof {
        assert(e.take(i as int) =~= e);
    }
    context.account = a;
}

/// The account after a summary: the net liquidation value, if it is a number.
pub open spec fn plain_summary(a: AccountState, n: Numbers) -> AccountState {
    if n.contains_key(9806) {
        AccountState { net_liquidation: n[9806].scaled, ..a }
    } else {
        a
    }
}

/// Takes in a summary of the account.
fn handle_account_summary(n: &HashMap<u32, Number>, context: &mut Context)
    ensures
        final(context)@ == (ContextView {
            account: plain_summary(old(context)@.account, n@),
            ..old(context)@
        }),
{
    if let Some(x) = n.get(&9806) {
        context.account.net_liquidation = x.scaled;
    }
}

/// After a message with a position: the position in the contract, if it is registered, is the
/// one that the message gives, in whole shares; none when it gives no number.
pub open spec fn plain_position(c: ContextView, v: Values, n: Numbers) -> ContextView {
    match row_con_id(v) {
        Some(con_id) => match c.market.instrument_of(con_id) {
            Some(instrument) => {
                let shares = if n.contains_key(6064) {
                    n[6064].whole as int
                } else {
                    0
                };
                ContextView {
                    positions: c.positions.update(instrument as int, shares_qty(shares)),
                    ..c
                }
            },
            None => c,
        },
        None => c,
    }
}

/// Takes in a message with a position. `n` holds what those of its fields that read as decimal
/// numbers stand for.
pub fn handle_position_update(
    m: &HashMap<u32, String>,
    n: &HashMap<u32, Number>,
    context: &mut Context,
)
    requires
        old(context)@.wf(),
    ensures
        final(context)@.wf(),
        final(context)@ == plain_position(old(context)@, map_texts(m@), n@),
{
    let con_id = match get_field(m, 6008) {
        Some(s) => match parse_i64(s.as_str()) {
            Some(v) => v,
            None => return ,
        },
        None => return ,
    };
    let shares: i64 = match n.get(&6064) {
        Some(x) => x.whole,
        None => 0,
    };
    if let Some(instrument) = context.market.instrument_by_con_id(con_id) {
        context.positions[instrument as usize] = qty_of_shares(shares);
    }
}

// ---------------------------------------------------------------------------------------
// Messages
// ---------------------------------------------------------------------------------------

/// After a message over the order connection. `table` tells what its texts stand for that read
/// as decimal numbers.
pub open spec fn plain_processed(
    s: PlainReportView,
    msg: Seq<u8>,
    table: Seq<(Seq<char>, Number)>,
) -> PlainReportView {
    let v = fix_values(msg);
    let n = field_numbers(v, table);
    match ccp_kind(v) {
        CcpKind::ExecReport => plain_report(s, v, n),
        CcpKind::CancelReject => plain_refusal(s, v),
        CcpKind::AccountSummary => PlainReportView {
            c: ContextView { account: plain_summary(s.c.account, n), ..s.c },
            ..s
        },
        CcpKind::AccountUpdate => PlainReportView {
            c: ContextView { account: plain_account(s.c.account, msg, table), ..s.c },
            ..s
        },
        CcpKind::Portfolio => PlainReportView { c: plain_position(s.c, v, n), ..s },
        _ => s,
    }
}

/// The message that answers one over the order connection, if one does: only a test request is
/// answered.
pub open spec fn plain_answer(msg: Seq<u8>, stamp: Seq<char>) -> Option<Seq<(u32, Seq<char>)>> {
    let v = fix_values(msg);
    if ccp_kind(v) == CcpKind::TestRequest {
        Some(test_reply(stamp, lookup_or_empty(v, 112)))
    } else {
        None
    }
}

impl PlainReports {
    /// Takes in a message over the order connection. `table` tells what its texts stand for
    /// that read as decimal numbers. Gives the message that answers it, if one does.
    pub fn process_message(
        &mut self,
        msg: &[u8],
        table: &NumberTable,
        context: &mut Context,
        stamp: &str,
    ) -> (r: Option<Fields>)
        requires
            old(context)@.wf(),
        ensures
            final(context)@.wf(),
            plain_view(*final(self), final(context)@) == plain_processed(
                plain_view(*old(self), old(context)@),
                msg@,
                table@,
            ),
            match r {
                Some(f) => plain_answer(msg@, stamp@) == Some(f@),
                None => plain_answer(msg@, stamp@) is None,
            },
    {
        let m = fix_parse(msg);
        match message_kind(&m) {
            CcpKind::ExecReport => {
                let n = table.of_fields(&m);
                self.handle_exec_report(&m, &n, context);
                None
            },
            CcpKind::CancelReject => {
                self.handle_cancel_reject(&m, context);
                None
            },
            CcpKind::TestRequest => {
                let id = field_or_empty(&m, 112);
                Some(test_reply_fields(stamp, id.as_str()))
            },
            CcpKind::AccountSummary => {
                let n = table.of_fields(&m);
                handle_account_summary(&n, context);
                None
            },
            CcpKind::AccountUpdate => {
                handle_account_update(msg, table, context);
                None
            },
            CcpKind::Portfolio => {
                let n = table.of_fields(&m);
                handle_position_update(&m, &n, context);
                None
            },
            _ => None,
        }
    }
}

/// After the refusal of a cancel or replace request.
pub open spec fn plain_refusal(s: PlainReportView, v: Values) -> PlainReportView {
    match lookup(v, 41) {
        Some(t) => match parsed_int(t, 0, u64::MAX as int) {
            Some(id) => match s.c.order(id as u64) {
                Some(o) => PlainReportView {
                    c: still_working(s.c, id as u64),
                    events: s.events.push(
                        StrategyEvent::Rejected(
                            CancelReject {
                                order_id: id as u64,
                                instrument: o.instrument,
                                reject_type: int_field(v, 434, 0, 255, 1) as u8,
                                reason_code: int_field(
                                    v,
                                    102,
                                    i32::MIN as int,
                                    i32::MAX as int,
                                    -1,
                                ) as i32,
                                timestamp_ns: s.c.now_ns,
                            },
                        ),
                    ),
                    ..s
                },
                None => s,
            },
            None => s,
        },
        None => s,
    }
}

fn price_at(n: &HashMap<u32, Number>, tag: u32) -> (r: Price)
    ensures
        r == price_field(n@, tag),
{
    match n.get(&tag) {
        Some(x) => x.scaled,
        None => 0,
    }
}

// ---------------------------------------------------------------------------------------
// Laws
// ---------------------------------------------------------------------------------------

/// A fill counts once: a report that is repeated tells no fill and moves no position.
pub proof fn law_plain_fill_counts_once(s: PlainReportView, v: Values, n: Numbers)
    requires
        plain_status(v) is Some,
        carries_plain_fill(v),
        lookup_or_empty(v, 17).len() > 0,
    ensures
        ({
            let once = plain_report(s, v, n);
            let twice = plain_report(once, v, n);
            &&& twice.c.positions == once.c.positions
            &&& twice.events == once.events
        }),
{
    let id = plain_order_id(v);
    let once = plain_report(s, v, n);
    let exec_id = lookup_or_empty(v, 17);
    assert(once.seen.contains(exec_id)) by {
        if !repeats_plain_fill(s, v) {
            assert(once.seen == s.seen.push(exec_id));
            assert(once.seen[s.seen.len() as int] == exec_id);
        }
    }
}

/// A status is told once: a report without a fill that restates the status of an order tells
/// nothing.
pub proof fn law_restated_status_is_not_told(s: PlainReportView, v: Values, n: Numbers)
    requires
        plain_status(v) is Some,
        s.c.status(plain_order_id(v)) == plain_status(v),
        !carries_plain_fill(v),
    ensures
        plain_report(s, v, n).events == s.events,
{
}

/// A position that is reported is the position, whatever it was before: reporting it again
/// changes nothing, and what was there before does not count.
pub proof fn law_reported_position_is_absolute(c: ContextView, v: Values, n: Numbers, before: Qty)
    requires
        c.wf(),
        row_con_id(v) is Some,
        c.market.instrument_of(row_con_id(v)->0) is Some,
    ensures
        ({
            let i = c.market.instrument_of(row_con_id(v)->0)->0 as int;
            let other = ContextView { positions: c.positions.update(i, before), ..c };
            &&& plain_position(plain_position(c, v, n), v, n) == plain_position(c, v, n)
            &&& plain_position(other, v, n) == plain_position(c, v, n)
        }),
{
    let i = c.market.instrument_of(row_con_id(v)->0)->0 as int;
    let other = ContextView { positions: c.positions.update(i, before), ..c };
    let once = plain_position(c, v, n);
    assert(plain_position(once, v, n).positions =~= once.positions);
    assert(plain_position(other, v, n).positions =~= once.positions);
}

} // verus!
