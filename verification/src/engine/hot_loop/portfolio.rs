//! Account values, positions and exchanges, as the server reports them.
use std::collections::HashMap;
use vstd::prelude::*;

use crate::bridge::{
    MidnightSeed, MidnightSeedView, Number, Portfolio, PortfolioView, PositionInfo,
    PositionInfoView,
};
use crate::engine::context::{AccountState, Context, ContextView};
use crate::engine::hot_loop::exec_report::{price_field, qty_field, Numbers, Values};
use crate::engine::hot_loop::numbers::{field_numbers, price_of, NumberTable};
use crate::protocol::fix::{
    field_of, field_or_empty, get_field, lookup, lookup_or_empty, map_texts, parse_field, SOH,
};
use crate::text::{
    chars_of, from_utf8, from_utf8_lossy, parse_i64, parsed_int, read_text, split, split_bytes,
    split_text, starts_with, string_texts, strip_prefix, text_eq, text_of, trim_end, trimmed_end,
    views,
};
use crate::types::{parse_qty, parsed_qty, InstrumentId, Price, Qty};

verus! {

broadcast use vstd::std_specs::hash::group_hash_axioms;

/// The value of a part that starts with a prefix.
pub open spec fn after_prefix(part: Seq<char>, prefix: Seq<char>) -> Option<Seq<char>> {
    if starts_with(part, prefix) {
        Some(part.skip(prefix.len() as int))
    } else {
        None
    }
}

/// The value of a part that starts with a prefix.
fn value_after(part: &str, prefix: &str) -> (r: Option<String>)
    ensures
        match r {
            Some(s) => after_prefix(part@, prefix@) == Some(s@),
            None => after_prefix(part@, prefix@) is None,
        },
{
    let chars = chars_of(part);
    match strip_prefix(chars.as_slice(), prefix) {
        Some(rest) => Some(text_of(rest.as_slice())),
        None => None,
    }
}

/// The parts of a message that is text; none of one that is not.
pub open spec fn text_parts(msg: Seq<u8>) -> Seq<Seq<char>> {
    if vstd::utf8::valid_utf8(msg) {
        split(vstd::utf8::decode_utf8(msg), '\x01')
    } else {
        Seq::empty()
    }
}

/// The parts of a message that is text; `None` for one that is not.
fn read_parts(msg: &[u8]) -> (r: Option<Vec<String>>)
    ensures
        r is Some <==> vstd::utf8::valid_utf8(msg@),
        r is Some ==> string_texts(r->0@) == text_parts(msg@),
{
    match from_utf8(msg) {
        Some(text) => Some(split_text(text.as_str(), '\x01')),
        None => None,
    }
}

// ---------------------------------------------------------------------------------------
// Account values
// ---------------------------------------------------------------------------------------

/// What has been read of an account update: the values so far, and the name of the next one.
pub ghost struct AccountScan {
    pub entries: Seq<(Seq<char>, Seq<char>)>,
    pub key: Option<Seq<char>>,
}

/// Reading an account update: a name under tag 8001, then its value under tag 8004.
pub open spec fn account_scan(parts: Seq<Seq<char>>) -> AccountScan
    decreases parts.len(),
{
    if parts.len() == 0 {
        AccountScan { entries: Seq::empty(), key: None }
    } else {
        let s = account_scan(parts.drop_last());
        let part = parts.last();
        match after_prefix(part, "8001="@) {
            Some(key) => AccountScan { key: Some(key), ..s },
            None => match (after_prefix(part, "8004="@), s.key) {
                (Some(value), Some(key)) => AccountScan {
                    entries: s.entries.push((key, value)),
                    key: None,
                },
                _ => s,
            },
        }
    }
}

/// The names and values in a list of pairs.
pub open spec fn pair_texts(v: Seq<(String, String)>) -> Seq<(Seq<char>, Seq<char>)> {
    v.map_values(|p: (String, String)| (p.0@, p.1@))
}

/// The names and values in an account update, in order. `None` when it is not text.
pub fn account_entries(msg: &[u8]) -> (r: Option<Vec<(String, String)>>)
    ensures
        r is Some <==> vstd::utf8::valid_utf8(msg@),
        r is Some ==> pair_texts(r->0@) == account_scan(text_parts(msg@)).entries,
{
    let parts = match read_parts(msg) {
        Some(p) => p,
        None => return None,
    };
    let ghost t = string_texts(parts@);
    let mut entries: Vec<(String, String)> = Vec::new();
    let mut key: Option<String> = None;
    let mut i: usize = 0;
    proof {
        assert(t.take(0) =~= Seq::empty());
        assert(pair_texts(entries@) =~= Seq::empty());
    }
    while i < parts.len()
        invariant
            i <= parts.len(),
            t == string_texts(parts@),
            pair_texts(entries@) == account_scan(t.take(i as int)).entries,
            crate::bridge::text_of_option(key) == account_scan(t.take(i as int)).key,
        decreases parts.len() - i,
    {
        proof {
            assert(t.take(i + 1).drop_last() =~= t.take(i as int));
            assert(t[i as int] == parts@[i as int]@);
        }
        match value_after(parts[i].as_str(), "8001=") {
            Some(k) => {
                key = Some(k);
            },
            None => {
                if let Some(value) = value_after(parts[i].as_str(), "8004=") {
                    if let Some(k) = key {
                        let ghost before = entries@;
                        let ghost pair = (k@, value@);
                        entries.push((k, value));
                        proof {
                            assert(pair_texts(entries@) =~= pair_texts(before).push(pair));
                        }
                    }
                    key = None;
                }
            },
        }
        i = i + 1;
    }
    proof {
        assert(t.take(i as int) =~= t);
    }
    Some(entries)
}

/// The account with a value set. `number` is the value in price units, if it is a number; the
/// number of day trades that remain is a plain one. A name that is not known sets nothing.
pub open spec fn with_account_value(
    a: AccountState,
    key: Seq<char>,
    value: Seq<char>,
    number: Option<Price>,
) -> AccountState {
    if key == "DayTradesRemaining"@ {
        match parsed_int(value, i64::MIN as int, i64::MAX as int) {
            Some(n) => AccountState { day_trades_remaining: n as i64, ..a },
            None => a,
        }
    } else {
        match number {
            None => a,
            Some(p) => if key == "NetLiquidation"@ {
                AccountState { net_liquidation: p, ..a }
            } else if key == "BuyingPower"@ {
                AccountState { buying_power: p, ..a }
            } else if key == "MaintMarginReq"@ {
                AccountState { margin_used: p, ..a }
            } else if key == "UnrealizedPnL"@ {
                AccountState { unrealized_pnl: p, ..a }
            } else if key == "RealizedPnL"@ {
                AccountState { realized_pnl: p, ..a }
            } else if key == "TotalCashValue"@ {
                AccountState { total_cash_value: p, ..a }
            } else if key == "SettledCash"@ {
                AccountState { settled_cash: p, ..a }
            } else if key == "AccruedCash"@ {
                AccountState { accrued_cash: p, ..a }
            } else if key == "EquityWithLoanValue"@ {
                AccountState { equity_with_loan: p, ..a }
            } else if key == "GrossPositionValue"@ {
                AccountState { gross_position_value: p, ..a }
            } else if key == "InitMarginReq"@ || key == "FullInitMarginReq"@ {
                AccountState { init_margin_req: p, ..a }
            } else if key == "FullMaintMarginReq"@ {
                AccountState { maint_margin_req: p, ..a }
            } else if key == "AvailableFunds"@ || key == "FullAvailableFunds"@ {
                AccountState { available_funds: p, ..a }
            } else if key == "ExcessLiquidity"@ || key == "FullExcessLiquidity"@ {
                AccountState { excess_liquidity: p, ..a }
            } else if key == "Cushion"@ {
                AccountState { cushion: p, ..a }
            } else if key == "SMA"@ {
                AccountState { sma: p, ..a }
            } else if key == "Leverage-S"@ || key == "Leverage"@ {
                AccountState { leverage: p, ..a }
            } else if key == "DailyPnL"@ {
                AccountState { daily_pnl: p, ..a }
            } else {
                a
            },
        }
    }
}

/// Sets a value of the account.
pub fn set_account_value(a: AccountState, key: &str, value: &str, number: Option<Price>) -> (r:
    AccountState)
    ensures
        r == with_account_value(a, key@, value@, number),
{
    if text_eq(key, "DayTradesRemaining") {
        return match parse_i64(value) {
            Some(n) => AccountState { day_trades_remaining: n, ..a },
            None => a,
        };
    }
    let p = match number {
        None => return a,
        Some(p) => p,
    };
    if text_eq(key, "NetLiquidation") {
        AccountState { net_liquidation: p, ..a }
    } else if text_eq(key, "BuyingPower") {
        AccountState { buying_power: p, ..a }
    } else if text_eq(key, "MaintMarginReq") {
        AccountState { margin_used: p, ..a }
    } else if text_eq(key, "UnrealizedPnL") {
        AccountState { unrealized_pnl: p, ..a }
    } else if text_eq(key, "RealizedPnL") {
        AccountState { realized_pnl: p, ..a }
    } else if text_eq(key, "TotalCashValue") {
        AccountState { total_cash_value: p, ..a }
    } else if text_eq(key, "SettledCash") {
        AccountState { settled_cash: p, ..a }
    } else if text_eq(key, "AccruedCash") {
        AccountState { accrued_cash: p, ..a }
    } else if text_eq(key, "EquityWithLoanValue") {
        AccountState { equity_with_loan: p, ..a }
    } else if text_eq(key, "GrossPositionValue") {
        AccountState { gross_position_value: p, ..a }
    } else if text_eq(key, "InitMarginReq") || text_eq(key, "FullInitMarginReq") {
        AccountState { init_margin_req: p, ..a }
    } else if text_eq(key, "FullMaintMarginReq") {
        AccountState { maint_margin_req: p, ..a }
    } else if text_eq(key, "AvailableFunds") || text_eq(key, "FullAvailableFunds") {
        AccountState { available_funds: p, ..a }
    } else if text_eq(key, "ExcessLiquidity") || text_eq(key, "FullExcessLiquidity") {
        AccountState { excess_liquidity: p, ..a }
    } else if text_eq(key, "Cushion") {
        AccountState { cushion: p, ..a }
    } else if text_eq(key, "SMA") {
        AccountState { sma: p, ..a }
    } else if text_eq(key, "Leverage-S") || text_eq(key, "Leverage") {
        AccountState { leverage: p, ..a }
    } else if text_eq(key, "DailyPnL") {
        AccountState { daily_pnl: p, ..a }
    } else {
        a
    }
}

/// The account with a list of values set, in order. `table` tells what the values stand for
/// that read as decimal numbers.
pub open spec fn with_account_values(
    a: AccountState,
    entries: Seq<(Seq<char>, Seq<char>)>,
    table: Seq<(Seq<char>, Number)>,
) -> AccountState
    decreases entries.len(),
{
    if entries.len() == 0 {
        a
    } else {
        let (key, value) = entries.last();
        with_account_value(
            with_account_values(a, entries.drop_last(), table),
            key,
            value,
            price_of(table, value),
        )
    }
}

/// Takes in an account update. `table` tells what its values stand for that read as decimal
/// numbers. An update that is not text changes nothing.
pub fn handle_account_update(
    msg: &[u8],
    table: &NumberTable,
    context: &mut Context,
    portfolio: &mut Portfolio,
)
    ensures
        vstd::utf8::valid_utf8(msg@) ==> final(context)@ == (ContextView {
            account: with_account_values(
                old(context)@.account,
                account_scan(text_parts(msg@)).entries,
                table@,
            ),
            ..old(context)@
        }) && final(portfolio)@ == (PortfolioView {
            account: final(context)@.account,
            ..old(portfolio)@
        }),
        !vstd::utf8::valid_utf8(msg@) ==> final(context)@ == old(context)@ && final(portfolio)@
            == old(portfolio)@,
{
    let entries = match account_entries(msg) {
        Some(e) => e,
        None => return ,
    };
    let ghost e = pair_texts(entries@);
    let mut a = context.account;
    let mut i: usize = 0;
    proof {
        assert(e.take(0) =~= Seq::empty());
    }
    while i < entries.len()
        invariant
            i <= entries.len(),
            e == pair_texts(entries@),
            a == with_account_values(context@.account, e.take(i as int), table@),
        decreases entries.len() - i,
    {
        proof {
            assert(e.take(i + 1).drop_last() =~= e.take(i as int));
            assert(e.take(i + 1).last() == (entries@[i as int].0@, entries@[i as int].1@));
        }
        let value = entries[i].1.as_str();
        a = set_account_value(a, entries[i].0.as_str(), value, table.price(value));
        i = i + 1;
    }
    proof {
        assert(e.take(i as int) =~= e);
    }
    context.account = a;
    portfolio.set_account(a);
}

/// Takes in an account summary: the net liquidation value under tag 9806, if it is a number.
pub fn handle_account_summary(
    n: &HashMap<u32, Number>,
    context: &mut Context,
    portfolio: &mut Portfolio,
)
    ensures
        final(context)@ == (ContextView {
            account: if n@.contains_key(9806) {
                AccountState { net_liquidation: n@[9806].scaled, ..old(context)@.account }
            } else {
                old(context)@.account
            },
            ..old(context)@
        }),
        final(portfolio)@ == (PortfolioView {
            account: final(context)@.account,
            ..old(portfolio)@
        }),
{
    if let Some(x) = n.get(&9806) {
        context.account = AccountState { net_liquidation: x.scaled, ..context.account };
    }
    portfolio.set_account(context.account);
}

// ---------------------------------------------------------------------------------------
// Repeating groups
// ---------------------------------------------------------------------------------------

/// A row of a message that repeats fields for each contract: the contract, a quantity, and two
/// values.
pub ghost struct RowView {
    pub con_id: i64,
    pub qty: Qty,
    pub a: Seq<char>,
    pub b: Seq<char>,
}

/// A row of a message that repeats fields for each contract.
pub struct Row {
    pub con_id: i64,
    pub qty: Qty,
    pub a: String,
    pub b: String,
}

impl View for Row {
    type V = RowView;

    open spec fn view(&self) -> RowView {
        RowView { con_id: self.con_id, qty: self.qty, a: self.a@, b: self.b@ }
    }
}

/// A row of which nothing has been read.
pub open spec fn blank_row(con_id: i64) -> RowView {
    RowView { con_id, qty: 0, a: Seq::empty(), b: Seq::empty() }
}

/// What has been read of a message: the rows that are complete, and the one that is being read.
pub ghost struct RowScan {
    pub rows: Seq<RowView>,
    pub current: RowView,
}

/// The complete rows, with the one that is being read if it names a contract.
pub open spec fn flushed(s: RowScan) -> Seq<RowView> {
    if s.current.con_id != 0 {
        s.rows.push(s.current)
    } else {
        s.rows
    }
}

/// Reading the rows of a message: a row starts with its contract under tag 6008; its quantity
/// stands under tag 6064, and its values under the tags `a` and `b`.
pub open spec fn row_scan(parts: Seq<Seq<char>>, a: Seq<char>, b: Seq<char>) -> RowScan
    decreases parts.len(),
{
    if parts.len() == 0 {
        RowScan { rows: Seq::empty(), current: blank_row(0) }
    } else {
        let s = row_scan(parts.drop_last(), a, b);
        let part = parts.last();
        if let Some(id) = after_prefix(part, "6008="@) {
            RowScan {
                rows: flushed(s),
                current: blank_row(
                    match parsed_int(id, i64::MIN as int, i64::MAX as int) {
                        Some(n) => n as i64,
                        None => 0,
                    },
                ),
            }
        } else if let Some(q) = after_prefix(part, "6064="@) {
            RowScan {
                current: RowView {
                    qty: match parsed_qty(q) {
                        Some(n) => n as i64,
                        None => 0,
                    },
                    ..s.current
                },
                ..s
            }
        } else if let Some(x) = after_prefix(part, a) {
            RowScan { current: RowView { a: x, ..s.current }, ..s }
        } else if let Some(x) = after_prefix(part, b) {
            RowScan { current: RowView { b: x, ..s.current }, ..s }
        } else {
            s
        }
    }
}

/// The views of a list of rows.
pub open spec fn row_views(v: Seq<Row>) -> Seq<RowView> {
    v.map_values(|r: Row| r@)
}

fn push_row(rows: &mut Vec<Row>, row: Row)
    ensures
        row_views(final(rows)@) == (if row@.con_id != 0 {
            row_views(old(rows)@).push(row@)
        } else {
            row_views(old(rows)@)
        }),
{
    if row.con_id != 0 {
        let ghost view = row@;
        rows.push(row);
        proof {
            assert(row_views(rows@) =~= row_views(old(rows)@).push(view));
        }
    }
}

fn new_row(con_id: i64) -> (r: Row)
    ensures
        r@ == blank_row(con_id),
{
    Row { con_id, qty: 0, a: String::new(), b: String::new() }
}

/// The rows of a message. `None` when it is not text.
fn read_rows(msg: &[u8], a: &str, b: &str) -> (r: Option<Vec<Row>>)
    ensures
        r is Some <==> vstd::utf8::valid_utf8(msg@),
        r is Some ==> row_views(r->0@) == flushed(row_scan(text_parts(msg@), a@, b@)),
{
    let parts = match read_parts(msg) {
        Some(p) => p,
        None => return None,
    };
    let ghost t = string_texts(parts@);
    let mut rows: Vec<Row> = Vec::new();
    let mut current = new_row(0);
    let mut i: usize = 0;
    proof {
        assert(t.take(0) =~= Seq::empty());
        assert(row_views(rows@) =~= Seq::empty());
    }
    while i < parts.len()
        invariant
            i <= parts.len(),
            t == string_texts(parts@),
            row_views(rows@) == row_scan(t.take(i as int), a@, b@).rows,
            current@ == row_scan(t.take(i as int), a@, b@).current,
        decreases parts.len() - i,
    {
        proof {
            assert(t.take(i + 1).drop_last() =~= t.take(i as int));
            assert(t[i as int] == parts@[i as int]@);
        }
        let part = parts[i].as_str();
        if let Some(id) = value_after(part, "6008=") {
            let con_id: i64 = match parse_i64(id.as_str()) {
                Some(n) => n,
                None => 0,
            };
            push_row(&mut rows, current);
            current = new_row(con_id);
        } else if let Some(q) = value_after(part, "6064=") {
            current.qty = match parse_qty(q.as_str()) {
                Some(n) => n,
                None => 0,
            };
        } else if let Some(x) = value_after(part, a) {
            current.a = x;
        } else if let Some(x) = value_after(part, b) {
            current.b = x;
        }
        i = i + 1;
    }
    proof {
        assert(t.take(i as int) =~= t);
    }
    push_row(&mut rows, current);
    Some(rows)
}

/// The positions at midnight in a response: for each contract its quantity, the money traded
/// since (tag 6822) and the realized profit (tag 6099).
pub open spec fn midnight_seeds(msg: Seq<u8>) -> Seq<MidnightSeedView> {
    flushed(row_scan(text_parts(msg), "6822="@, "6099="@)).map_values(
        |r: RowView|
            MidnightSeedView {
                con_id: r.con_id,
                qty_midnight_fixed: r.qty,
                money_traded: r.a,
                realized_pnl: r.b,
            },
    )
}

/// Takes in a response with the positions at midnight. One that is not text changes nothing.
pub fn handle_pnl_response(msg: &[u8], portfolio: &mut Portfolio)
    ensures
        final(portfolio)@ == (if vstd::utf8::valid_utf8(msg@) {
            PortfolioView { seeds: midnight_seeds(msg@), ..old(portfolio)@ }
        } else {
            old(portfolio)@
        }),
{
    let rows = match read_rows(msg, "6822=", "6099=") {
        Some(r) => r,
        None => return ,
    };
    let ghost want = midnight_seeds(msg@);
    let mut seeds: Vec<MidnightSeed> = Vec::new();
    let mut i: usize = 0;
    while i < rows.len()
        invariant
            i <= rows.len(),
            seeds@.len() == i,
            row_views(rows@) == flushed(row_scan(text_parts(msg@), "6822="@, "6099="@)),
            want == midnight_seeds(msg@),
            forall|k: int| 0 <= k < i ==> (#[trigger] seeds@[k])@ == want[k],
        decreases rows.len() - i,
    {
        proof {
            assert(row_views(rows@)[i as int] == rows@[i as int]@);
        }
        seeds.push(
            MidnightSeed {
                con_id: rows[i].con_id,
                qty_midnight_fixed: rows[i].qty,
                money_traded: rows[i].a.clone(),
                realized_pnl: rows[i].b.clone(),
            },
        );
        i = i + 1;
    }
    proof {
        assert(seeds@.map_values(|s: MidnightSeed| s@) =~= want);
    }
    portfolio.set_midnight_seeds(seeds);
}

/// The positions in a position feed: for each contract its quantity, and the average cost (tag
/// 6101) as the server wrote it.
pub open spec fn feed_rows(msg: Seq<u8>) -> Seq<RowView> {
    flushed(row_scan(text_parts(msg), "6101="@, "6101="@))
}

/// The positions in a position feed. `None` when it is not text.
pub fn position_feed_rows(msg: &[u8]) -> (r: Option<Vec<Row>>)
    ensures
        r is Some <==> vstd::utf8::valid_utf8(msg@),
        r is Some ==> row_views(r->0@) == feed_rows(msg@),
{
    read_rows(msg, "6101=", "6101=")
}

/// A position that is to be announced.
#[derive(Debug, Clone, Copy, PartialEq, Eq, Structural)]
pub struct PositionUpdate {
    pub instrument: InstrumentId,
    pub con_id: i64,
    pub position_fixed: Qty,
    pub avg_cost: Price,
}

/// What a position feed says of a position.
pub open spec fn feed_info(con_id: i64, qty: Qty, avg_cost: Price) -> PositionInfoView {
    PositionInfoView {
        con_id,
        position_fixed: qty,
        avg_cost,
        symbol: Seq::empty(),
        sec_type: Seq::empty(),
        currency: Seq::empty(),
        multiplier: Seq::empty(),
        market_price: 0,
        market_value: 0,
        unrealized_pnl: 0,
        realized_pnl: 0,
    }
}

/// After one position of a position feed. That of a registered contract is announced.
pub open spec fn after_feed_row(
    s: HoldingsView,
    con_id: i64,
    qty: Qty,
    avg_cost: Price,
) -> HoldingsView {
    let portfolio = s.portfolio.with_info(feed_info(con_id, qty, avg_cost));
    match s.c.market.instrument_of(con_id) {
        Some(instrument) => HoldingsView {
            portfolio: portfolio.with_position(instrument, qty),
            positions: s.positions.push(
                PositionUpdate { instrument, con_id, position_fixed: qty, avg_cost },
            ),
            ..s
        },
        None => HoldingsView { portfolio, ..s },
    }
}

/// Takes in one position of a position feed.
pub fn handle_feed_row(
    con_id: i64,
    qty: Qty,
    avg_cost: Price,
    context: &Context,
    portfolio: &mut Portfolio,
    positions: &mut Vec<PositionUpdate>,
)
    requires
        context@.wf(),
    ensures
        (HoldingsView {
            c: context@,
            portfolio: final(portfolio)@,
            positions: final(positions)@,
        }) == after_feed_row(
            HoldingsView {
                c: context@,
                portfolio: old(portfolio)@,
                positions: old(positions)@,
            },
            con_id,
            qty,
            avg_cost,
        ),
{
    portfolio.set_position_info(
        PositionInfo {
            con_id,
            position_fixed: qty,
            avg_cost,
            symbol: String::new(),
            sec_type: String::new(),
            currency: String::new(),
            multiplier: String::new(),
            market_price: 0,
            market_value: 0,
            unrealized_pnl: 0,
            realized_pnl: 0,
        },
    );
    if let Some(instrument) = context.market.instrument_by_con_id(con_id) {
        portfolio.set_position_fixed(instrument, qty);
        positions.push(PositionUpdate { instrument, con_id, position_fixed: qty, avg_cost });
    }
}

// ---------------------------------------------------------------------------------------
// Portfolio reports
// ---------------------------------------------------------------------------------------

/// What has been read of a message with rows: the fields before the first row, and the rows.
pub ghost struct GroupScan {
    pub header: Values,
    pub rows: Seq<Values>,
}

/// Reading a message with rows: each row starts with the field under the tag `first`.
pub open spec fn group_scan(pieces: Seq<Seq<u8>>, first: u32) -> GroupScan
    decreases pieces.len(),
{
    if pieces.len() == 0 {
        GroupScan { header: Map::empty(), rows: Seq::empty() }
    } else {
        let s = group_scan(pieces.drop_last(), first);
        match field_of(pieces.last()) {
            None => s,
            Some((tag, value)) => if tag == first {
                GroupScan { rows: s.rows.push(Map::empty().insert(tag, value)), ..s }
            } else if s.rows.len() > 0 {
                GroupScan {
                    rows: s.rows.drop_last().push(s.rows.last().insert(tag, value)),
                    ..s
                }
            } else {
                GroupScan { header: s.header.insert(tag, value), ..s }
            },
        }
    }
}

/// The values of each row of a list.
pub open spec fn row_values(v: Seq<HashMap<u32, String>>) -> Seq<Values> {
    v.map_values(|m: HashMap<u32, String>| map_texts(m@))
}

/// Splits a message into the fields before the first row, and the rows.
pub fn read_groups(msg: &[u8], first: u32) -> (r: (
    HashMap<u32, String>,
    Vec<HashMap<u32, String>>,
))
    ensures
        map_texts(r.0@) == group_scan(split(msg@, SOH), first).header,
        row_values(r.1@) == group_scan(split(msg@, SOH), first).rows,
{
    let pieces = split_bytes(msg, SOH);
    let ghost p = views(pieces@);
    let mut header: HashMap<u32, String> = HashMap::new();
    let mut rows: Vec<HashMap<u32, String>> = Vec::new();
    let mut i: usize = 0;
    proof {
        assert(p.take(0) =~= Seq::empty());
        assert(map_texts(header@) =~= Map::empty());
        assert(row_values(rows@) =~= Seq::empty());
    }
    while i < pieces.len()
        invariant
            i <= pieces.len(),
            p == views(pieces@),
            map_texts(header@) == group_scan(p.take(i as int), first).header,
            row_values(rows@) == group_scan(p.take(i as int), first).rows,
        decreases pieces.len() - i,
    {
        proof {
            assert(p.take(i + 1).drop_last() =~= p.take(i as int));
            assert(p[i as int] == pieces@[i as int]@);
        }
        if let Some((tag, value)) = parse_field(pieces[i].as_slice()) {
            let ghost text = value@;
            let ghost before = rows@;
            if tag == first {
                let mut row: HashMap<u32, String> = HashMap::new();
                row.insert(tag, value);
                let ghost view = map_texts(row@);
                rows.push(row);
                proof {
                    assert(view =~= Map::<u32, Seq<char>>::empty().insert(tag, text));
                    assert(row_values(rows@) =~= row_values(before).push(view));
                }
            } else {
                match rows.pop() {
                    Some(last) => {
                        let ghost old_view = map_texts(last@);
                        let mut row = last;
                        row.insert(tag, value);
                        let ghost view = map_texts(row@);
                        rows.push(row);
                        proof {
                            assert(view =~= old_view.insert(tag, text));
                            assert(row_values(before).last() == old_view);
                            assert(row_values(rows@) =~= row_values(before).drop_last().push(view));
                        }
                    },
                    None => {
                        let ghost old_header = map_texts(header@);
                        header.insert(tag, value);
                        proof {
                            assert(map_texts(header@) =~= old_header.insert(tag, text));
                            assert(row_values(rows@) =~= row_values(before));
                        }
                    },
                }
            }
        }
        i = i + 1;
    }
    proof {
        assert(p.take(i as int) =~= p);
    }
    (header, rows)
}

/// The rows of a portfolio report: each starts with the symbol, under tag 6068. A report
/// without a symbol is one row.
pub open spec fn portfolio_rows(msg: Seq<u8>) -> Seq<Values> {
    let s = group_scan(split(msg, SOH), 6068);
    if s.rows.len() == 0 {
        seq![s.header]
    } else {
        s.rows
    }
}

/// Splits a portfolio report into its rows, one for each position.
pub fn read_portfolio_rows(msg: &[u8]) -> (r: Vec<HashMap<u32, String>>)
    ensures
        row_values(r@) == portfolio_rows(msg@),
{
    let (header, mut rows) = read_groups(msg, 6068);
    proof {
        assert(row_values(rows@).len() == rows@.len());
    }
    if rows.len() == 0 {
        let ghost view = map_texts(header@);
        rows.push(header);
        proof {
            assert(row_values(rows@) =~= seq![view]);
        }
    }
    rows
}

/// The multiplier in the key of a row: the third of four parts.
pub open spec fn row_multiplier(v: Values) -> Seq<char> {
    match lookup(v, 8002) {
        Some(key) => {
            let parts = split(key, '/');
            if parts.len() == 4 {
                parts[2]
            } else {
                Seq::empty()
            }
        },
        None => Seq::empty(),
    }
}

fn multiplier_of(m: &HashMap<u32, String>) -> (r: String)
    ensures
        r@ == row_multiplier(map_texts(m@)),
{
    match get_field(m, 8002) {
        Some(key) => {
            let parts = split_text(key.as_str(), '/');
            if parts.len() == 4 {
                proof {
                    assert(string_texts(parts@)[2] == parts@[2]@);
                }
                parts[2].clone()
            } else {
                String::new()
            }
        },
        None => String::new(),
    }
}

/// The contract of a row, if it names one.
pub open spec fn row_con_id(v: Values) -> Option<i64> {
    match lookup(v, 6008) {
        Some(t) => match parsed_int(t, i64::MIN as int, i64::MAX as int) {
            Some(n) => Some(n as i64),
            None => None,
        },
        None => None,
    }
}

/// What a row says of a position. The symbol comes padded with spaces.
pub open spec fn row_info(v: Values, n: Numbers, con_id: i64) -> PositionInfoView {
    PositionInfoView {
        con_id,
        position_fixed: qty_field(v, 6064, 0) as i64,
        avg_cost: price_field(n, 6101),
        symbol: trimmed_end(lookup_or_empty(v, 6068)),
        sec_type: lookup_or_empty(v, 167),
        currency: lookup_or_empty(v, 15),
        multiplier: row_multiplier(v),
        market_price: 0,
        market_value: 0,
        unrealized_pnl: 0,
        realized_pnl: 0,
    }
}

/// The portfolio after a row: the position is known, with its marks.
pub open spec fn portfolio_after_row(
    p: PortfolioView,
    v: Values,
    n: Numbers,
    con_id: i64,
) -> PortfolioView {
    p.with_info(row_info(v, n, con_id)).with_marks(
        con_id,
        price_field(n, 6065),
        price_field(n, 6067),
        price_field(n, 6100),
        price_field(n, 6099),
    )
}

fn price_at(n: &HashMap<u32, Number>, tag: u32) -> (r: Price)
    ensures
        r == price_field(n@, tag),
{
    match n.get(&tag) {
        Some(x) => x.scaled,
        None => 0,
    }
}

/// What positions change: the context, the portfolio, and the positions to announce.
pub ghost struct HoldingsView {
    pub c: ContextView,
    pub portfolio: PortfolioView,
    pub positions: Seq<PositionUpdate>,
}

/// After one row of a portfolio report. A row that names no contract changes nothing; the
/// position in a registered one is the row's, and is announced.
pub open spec fn after_portfolio_row(s: HoldingsView, v: Values, n: Numbers) -> HoldingsView {
    match row_con_id(v) {
        None => s,
        Some(con_id) => {
            let portfolio = portfolio_after_row(s.portfolio, v, n, con_id);
            let qty = qty_field(v, 6064, 0) as i64;
            match s.c.market.instrument_of(con_id) {
                None => HoldingsView { portfolio, ..s },
                Some(instrument) => HoldingsView {
                    c: ContextView {
                        positions: s.c.positions.update(instrument as int, qty),
                        ..s.c
                    },
                    portfolio: portfolio.with_position(instrument, qty),
                    positions: s.positions.push(
                        PositionUpdate {
                            instrument,
                            con_id,
                            position_fixed: qty,
                            avg_cost: price_field(n, 6101),
                        },
                    ),
                },
            }
        },
    }
}

/// Takes in one row of a portfolio report. `n` holds what those of its fields that read as
/// decimal numbers stand for.
pub fn handle_position_update(
    m: &HashMap<u32, String>,
    n: &HashMap<u32, Number>,
    context: &mut Context,
    portfolio: &mut Portfolio,
    positions: &mut Vec<PositionUpdate>,
)
    requires
        old(context)@.wf(),
    ensures
        final(context)@.wf(),
        (HoldingsView {
            c: final(context)@,
            portfolio: final(portfolio)@,
            positions: final(positions)@,
        }) == after_portfolio_row(
            HoldingsView {
                c: old(context)@,
                portfolio: old(portfolio)@,
                positions: old(positions)@,
            },
            map_texts(m@),
            n@,
        ),
{
    let con_id = match get_field(m, 6008) {
        Some(s) => match parse_i64(s.as_str()) {
            Some(v) => v,
            None => return ,
        },
        None => return ,
    };
    let position: Qty = match get_field(m, 6064) {
        Some(s) => match parse_qty(s.as_str()) {
            Some(q) => q,
            None => 0,
        },
        None => 0,
    };
    let padded = field_or_empty(m, 6068);
    let symbol = text_of(trim_end(chars_of(padded.as_str())).as_slice());
    let avg_cost = price_at(n, 6101);
    portfolio.set_position_info(
        PositionInfo {
            con_id,
            position_fixed: position,
            avg_cost,
            symbol,
            sec_type: field_or_empty(m, 167),
            currency: field_or_empty(m, 15),
            multiplier: multiplier_of(m),
            market_price: 0,
            market_value: 0,
            unrealized_pnl: 0,
            realized_pnl: 0,
        },
    );
    portfolio.set_position_marks(
        con_id,
        price_at(n, 6065),
        price_at(n, 6067),
        price_at(n, 6100),
        price_at(n, 6099),
    );
    match context.market.instrument_by_con_id(con_id) {
        None => {},
        Some(instrument) => {
            context.positions[instrument as usize] = position;
            portfolio.set_position_fixed(instrument, position);
            positions.push(
                PositionUpdate { instrument, con_id, position_fixed: position, avg_cost },
            );
        },
    }
}

/// After the first `n` rows of a portfolio report.
pub open spec fn after_portfolio_rows(
    s: HoldingsView,
    rows: Seq<Values>,
    table: Seq<(Seq<char>, Number)>,
    n: int,
) -> HoldingsView
    decreases n,
{
    if n <= 0 {
        s
    } else {
        after_portfolio_row(
            after_portfolio_rows(s, rows, table, n - 1),
            rows[n - 1],
            field_numbers(rows[n - 1], table),
        )
    }
}

/// After a portfolio report: each of its rows counts.
pub open spec fn after_portfolio_message(
    s: HoldingsView,
    msg: Seq<u8>,
    table: Seq<(Seq<char>, Number)>,
) -> HoldingsView {
    let rows = portfolio_rows(msg);
    after_portfolio_rows(s, rows, table, rows.len() as int)
}

/// Takes in a portfolio report. `table` tells what its texts stand for that read as decimal
/// numbers.
pub fn handle_portfolio_message(
    msg: &[u8],
    table: &NumberTable,
    context: &mut Context,
    portfolio: &mut Portfolio,
    positions: &mut Vec<PositionUpdate>,
)
    requires
        old(context)@.wf(),
    ensures
        final(context)@.wf(),
        (HoldingsView {
            c: final(context)@,
            portfolio: final(portfolio)@,
            positions: final(positions)@,
        }) == after_portfolio_message(
            HoldingsView {
                c: old(context)@,
                portfolio: old(portfolio)@,
                positions: old(positions)@,
            },
            msg@,
            table@,
        ),
{
    let rows = read_portfolio_rows(msg);
    let ghost start = HoldingsView {
        c: context@,
        portfolio: portfolio@,
        positions: positions@,
    };
    let mut i: usize = 0;
    while i < rows.len()
        invariant
            i <= rows.len(),
            context@.wf(),
            row_values(rows@) == portfolio_rows(msg@),
            (HoldingsView { c: context@, portfolio: portfolio@, positions: positions@ })
                == after_portfolio_rows(start, portfolio_rows(msg@), table@, i as int),
        decreases rows.len() - i,
    {
        proof {
            assert(row_values(rows@)[i as int] == map_texts(rows@[i as int]@));
        }
        let n = table.of_fields(&rows[i]);
        handle_position_update(&rows[i], &n, context, portfolio, positions);
        i = i + 1;
    }
    proof {
        assert(row_values(rows@).len() == rows@.len());
    }
}

// ---------------------------------------------------------------------------------------
// Exchanges
// ---------------------------------------------------------------------------------------

/// An exchange that market depth can be had from.
pub struct DepthMktDataDescription {
    pub exchange: String,
    pub sec_type: String,
    pub listing_exch: String,
    pub service_data_type: String,
    pub agg_group: i32,
}

/// An exchange that market depth can be had from.
pub ghost struct DepthView {
    pub exchange: Seq<char>,
    pub sec_type: Seq<char>,
    pub listing_exch: Seq<char>,
    pub service_data_type: Seq<char>,
    pub agg_group: i32,
}

impl View for DepthMktDataDescription {
    type V = DepthView;

    open spec fn view(&self) -> DepthView {
        DepthView {
            exchange: self.exchange@,
            sec_type: self.sec_type@,
            listing_exch: self.listing_exch@,
            service_data_type: self.service_data_type@,
            agg_group: self.agg_group,
        }
    }
}

/// The number of a group, 0 when it is none.
pub open spec fn group_number(t: Seq<char>) -> i32 {
    match parsed_int(t, i32::MIN as int, i32::MAX as int) {
        Some(n) => n as i32,
        None => 0,
    }
}

fn group_of(t: &str) -> (r: i32)
    ensures
        r == group_number(t@),
{
    match parse_i64(t) {
        Some(v) => if v < -0x8000_0000 || v > 0x7fff_ffff {
            0
        } else {
            v as i32
        },
        None => 0,
    }
}

/// The exchanges in the parts of an exchange list from `i` on. An exchange stands under tag
/// 100, its name under tag 6813 in the part that follows. Tag 8128 starts a group of stock
/// exchanges, tag 8129 one of futures exchanges.
pub open spec fn exchanges_from(
    parts: Seq<Seq<char>>,
    i: int,
    sec_type: Seq<char>,
    group: i32,
) -> Seq<DepthView>
    decreases parts.len() + 1 - i,
{
    if i < 0 || i >= parts.len() {
        Seq::empty()
    } else if let Some(g) = after_prefix(parts[i], "8128="@) {
        exchanges_from(parts, i + 1, "STK"@, group_number(g))
    } else if let Some(g) = after_prefix(parts[i], "8129="@) {
        exchanges_from(parts, i + 1, "FUT"@, group_number(g))
    } else if let Some(exchange) = after_prefix(parts[i], "100="@) {
        let name = if i + 1 < parts.len() {
            match after_prefix(parts[i + 1], "6813="@) {
                Some(n) => n,
                None => Seq::empty(),
            }
        } else {
            Seq::empty()
        };
        seq![
            DepthView {
                exchange,
                sec_type,
                listing_exch: name,
                service_data_type: "L1"@,
                agg_group: group,
            },
        ] + exchanges_from(parts, i + 2, sec_type, group)
    } else {
        exchanges_from(parts, i + 1, sec_type, group)
    }
}

/// The views of a list of exchanges.
pub open spec fn depth_views(v: Seq<DepthMktDataDescription>) -> Seq<DepthView> {
    v.map_values(|d: DepthMktDataDescription| d@)
}

/// Reads an exchange list.
pub fn handle_exchange_list(msg: &[u8]) -> (r: Vec<DepthMktDataDescription>)
    ensures
        depth_views(r@) == exchanges_from(split(read_text(msg@), '\x01'), 0, "STK"@, 0),
{
    let text = from_utf8_lossy(msg);
    let parts = split_text(text.as_str(), '\x01');
    let ghost t = string_texts(parts@);
    let ghost whole = exchanges_from(t, 0, "STK"@, 0);
    let mut out: Vec<DepthMktDataDescription> = Vec::new();
    let mut sec_type: &'static str = "STK";
    let mut group: i32 = 0;
    let mut i: usize = 0;
    proof {
        assert(depth_views(out@) + whole =~= whole);
    }
    while i < parts.len()
        invariant
            i <= parts.len() + 1,
            t == string_texts(parts@),
            depth_views(out@) + exchanges_from(t, i as int, sec_type@, group) == whole,
        decreases parts.len() + 1 - i,
    {
        let ghost before = out@;
        let ghost rest = exchanges_from(t, i as int, sec_type@, group);
        proof {
            assert(t[i as int] == parts@[i as int]@);
        }
        if let Some(g) = value_after(parts[i].as_str(), "8128=") {
            sec_type = "STK";
            group = group_of(g.as_str());
            i = i + 1;
        } else if let Some(g) = value_after(parts[i].as_str(), "8129=") {
            sec_type = "FUT";
            group = group_of(g.as_str());
            i = i + 1;
        } else if let Some(exchange) = value_after(parts[i].as_str(), "100=") {
            let name = if i + 1 < parts.len() {
                proof {
                    assert(t[i + 1] == parts@[i + 1]@);
                }
                match value_after(parts[i + 1].as_str(), "6813=") {
                    Some(n) => n,
                    None => String::new(),
                }
            } else {
                String::new()
            };
            let d = DepthMktDataDescription {
                exchange,
                sec_type: sec_type.to_owned(),
                listing_exch: name,
                service_data_type: "L1".to_owned(),
                agg_group: group,
            };
            let ghost view = d@;
            out.push(d);
            proof {
                let after = exchanges_from(t, i + 2, sec_type@, group);
                assert(rest == seq![view] + after);
                assert(depth_views(out@) =~= depth_views(before).push(view));
                assert(depth_views(out@) + after =~= depth_views(before) + rest);
            }
            if i + 1 < parts.len() {
                i = i + 2;
            } else {
                i = i + 1;
            }
        } else {
            i = i + 1;
        }
    }
    proof {
        assert(depth_views(out@) + Seq::<DepthView>::empty() =~= depth_views(out@));
    }
    out
}

} // verus!
