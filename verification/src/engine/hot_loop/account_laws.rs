//! What messages about the account, its positions and its costs mean.
use vstd::prelude::*;

use crate::bridge::Number;
use crate::engine::context::{
    law_drop_then_find, law_put_then_find, versioned, AccountState, ContextView,
};
use crate::engine::hot_loop::exec_report::{
    after_clord, exec_report, report_order, Numbers, ReportState, Values,
};
use crate::engine::hot_loop::numbers::price_of;
use crate::engine::hot_loop::plain_reports::{
    plain_position, plain_refusal, with_plain_value, PlainReportView, StrategyEvent,
};
use crate::engine::hot_loop::portfolio::{
    account_scan, after_feed_row, after_portfolio_row, after_prefix, flushed, row_scan,
    with_account_value, with_account_values, HoldingsView, RowView,
};
use crate::engine::hot_loop::report_laws::law_client_order_id_names_its_order;
use crate::engine::hot_loop::server_reports::{
    cancel_reject_of, commission_of, is_commission, refused_order, still_working,
};
use crate::engine::order::{Order, OrderStatus};
use crate::text::{
    dec, int_text, lemma_int_text_parses, parsed_int, starts_with, trimmed_end,
};
use crate::types::{parsed_qty, OrderId, Price, Qty};

verus! {

// ---------------------------------------------------------------------------------------
// Account values
// ---------------------------------------------------------------------------------------

/// The amounts that are kept of an account.
pub enum AccountField {
    NetLiquidation,
    BuyingPower,
    MarginUsed,
    UnrealizedPnl,
    RealizedPnl,
    TotalCashValue,
    SettledCash,
    AccruedCash,
    EquityWithLoan,
    GrossPositionValue,
    InitMarginReq,
    MaintMarginReq,
    AvailableFunds,
    ExcessLiquidity,
    Cushion,
    Sma,
    Leverage,
    DailyPnl,
}

/// Whether an amount is sent under a name.
pub open spec fn is_named(field: AccountField, key: Seq<char>) -> bool {
    ||| field == AccountField::NetLiquidation && (key == "NetLiquidation"@)
    ||| field == AccountField::BuyingPower && (key == "BuyingPower"@)
    ||| field == AccountField::MarginUsed && (key == "MaintMarginReq"@)
    ||| field == AccountField::UnrealizedPnl && (key == "UnrealizedPnL"@)
    ||| field == AccountField::RealizedPnl && (key == "RealizedPnL"@)
    ||| field == AccountField::TotalCashValue && (key == "TotalCashValue"@)
    ||| field == AccountField::SettledCash && (key == "SettledCash"@)
    ||| field == AccountField::AccruedCash && (key == "AccruedCash"@)
    ||| field == AccountField::EquityWithLoan && (key == "EquityWithLoanValue"@)
    ||| field == AccountField::GrossPositionValue && (key == "GrossPositionValue"@)
    ||| field == AccountField::InitMarginReq && (key == "InitMarginReq"@ || key == "FullInitMarginReq"@)
    ||| field == AccountField::MaintMarginReq && (key == "FullMaintMarginReq"@)
    ||| field == AccountField::AvailableFunds && (key == "AvailableFunds"@ || key == "FullAvailableFunds"@)
    ||| field == AccountField::ExcessLiquidity && (key == "ExcessLiquidity"@ || key == "FullExcessLiquidity"@)
    ||| field == AccountField::Cushion && (key == "Cushion"@)
    ||| field == AccountField::Sma && (key == "SMA"@)
    ||| field == AccountField::Leverage && (key == "Leverage-S"@ || key == "Leverage"@)
    ||| field == AccountField::DailyPnl && (key == "DailyPnL"@)
}

/// An amount of an account.
pub open spec fn amount(a: AccountState, field: AccountField) -> Price {
    match field {
        AccountField::NetLiquidation => a.net_liquidation,
        AccountField::BuyingPower => a.buying_power,
        AccountField::MarginUsed => a.margin_used,
        AccountField::UnrealizedPnl => a.unrealized_pnl,
        AccountField::RealizedPnl => a.realized_pnl,
        AccountField::TotalCashValue => a.total_cash_value,
        AccountField::SettledCash => a.settled_cash,
        AccountField::AccruedCash => a.accrued_cash,
        AccountField::EquityWithLoan => a.equity_with_loan,
        AccountField::GrossPositionValue => a.gross_position_value,
        AccountField::InitMarginReq => a.init_margin_req,
        AccountField::MaintMarginReq => a.maint_margin_req,
        AccountField::AvailableFunds => a.available_funds,
        AccountField::ExcessLiquidity => a.excess_liquidity,
        AccountField::Cushion => a.cushion,
        AccountField::Sma => a.sma,
        AccountField::Leverage => a.leverage,
        AccountField::DailyPnl => a.daily_pnl,
    }
}

proof fn lemma_names_differ(key: Seq<char>)
    ensures
        forall|x: AccountField, y: AccountField|
            #[trigger] is_named(x, key) && #[trigger] is_named(y, key) ==> x == y,
        forall|x: AccountField| #[trigger] is_named(x, key) ==> key != "DayTradesRemaining"@,
{
    reveal_strlit("DayTradesRemaining");
    reveal_strlit("NetLiquidation");
    reveal_strlit("BuyingPower");
    reveal_strlit("MaintMarginReq");
    reveal_strlit("UnrealizedPnL");
    reveal_strlit("RealizedPnL");
    reveal_strlit("TotalCashValue");
    reveal_strlit("SettledCash");
    reveal_strlit("AccruedCash");
    reveal_strlit("EquityWithLoanValue");
    reveal_strlit("GrossPositionValue");
    reveal_strlit("InitMarginReq");
    reveal_strlit("FullInitMarginReq");
    reveal_strlit("FullMaintMarginReq");
    reveal_strlit("AvailableFunds");
    reveal_strlit("FullAvailableFunds");
    reveal_strlit("ExcessLiquidity");
    reveal_strlit("FullExcessLiquidity");
    reveal_strlit("Cushion");
    reveal_strlit("SMA");
    reveal_strlit("Leverage-S");
    reveal_strlit("Leverage");
    reveal_strlit("DailyPnL");
    assert("DayTradesRemaining"@.len() == 18 && "DayTradesRemaining"@[0] == 'D');
    assert("NetLiquidation"@.len() == 14 && "NetLiquidation"@[0] == 'N');
    assert("BuyingPower"@.len() == 11 && "BuyingPower"@[0] == 'B');
    assert("MaintMarginReq"@.len() == 14 && "MaintMarginReq"@[0] == 'M');
    assert("UnrealizedPnL"@.len() == 13 && "UnrealizedPnL"@[0] == 'U');
    assert("RealizedPnL"@.len() == 11 && "RealizedPnL"@[0] == 'R');
    assert("TotalCashValue"@.len() == 14 && "TotalCashValue"@[0] == 'T');
    assert("SettledCash"@.len() == 11 && "SettledCash"@[0] == 'S');
    assert("AccruedCash"@.len() == 11 && "AccruedCash"@[0] == 'A');
    assert("EquityWithLoanValue"@.len() == 19 && "EquityWithLoanValue"@[0] == 'E');
    assert("GrossPositionValue"@.len() == 18 && "GrossPositionValue"@[0] == 'G');
    assert("InitMarginReq"@.len() == 13 && "InitMarginReq"@[0] == 'I');
    assert("FullInitMarginReq"@.len() == 17 && "FullInitMarginReq"@[0] == 'F');
    assert("FullMaintMarginReq"@.len() == 18 && "FullMaintMarginReq"@[0] == 'F');
    assert("AvailableFunds"@.len() == 14 && "AvailableFunds"@[0] == 'A');
    assert("FullAvailableFunds"@.len() == 18 && "FullAvailableFunds"@[0] == 'F');
    assert("ExcessLiquidity"@.len() == 15 && "ExcessLiquidity"@[0] == 'E');
    assert("FullExcessLiquidity"@.len() == 19 && "FullExcessLiquidity"@[0] == 'F');
    assert("Cushion"@.len() == 7 && "Cushion"@[0] == 'C');
    assert("SMA"@.len() == 3 && "SMA"@[0] == 'S');
    assert("Leverage-S"@.len() == 10 && "Leverage-S"@[0] == 'L');
    assert("Leverage"@.len() == 8 && "Leverage"@[0] == 'L');
    assert("DailyPnL"@.len() == 8 && "DailyPnL"@[0] == 'D');
    assert("FullMaintMarginReq"@[4] == 'M' && "FullAvailableFunds"@[4] == 'A');
}

/// A value that is sent under the name of an amount becomes that amount, and changes no other.
/// A value under another name, and one that is no number, changes no amount.
pub proof fn law_account_value_is_filed(
    a: AccountState,
    key: Seq<char>,
    value: Seq<char>,
    number: Option<Price>,
)
    ensures
        ({
            let after = with_account_value(a, key, value, number);
            &&& forall|f: AccountField|
                #![trigger amount(after, f)]
                amount(after, f) == (if is_named(f, key) && number is Some {
                    number->0
                } else {
                    amount(a, f)
                })
            &&& after.day_trades_remaining == (if key == "DayTradesRemaining"@ && parsed_int(
                value,
                i64::MIN as int,
                i64::MAX as int,
            ) is Some {
                parsed_int(value, i64::MIN as int, i64::MAX as int)->0
            } else {
                a.day_trades_remaining as int
            })
        }),
{
    lemma_names_differ(key);
    let after = with_account_value(a, key, value, number);
    assert forall|f: AccountField| #![trigger amount(after, f)] amount(after, f) == (if is_named(
        f,
        key,
    ) && number is Some {
        number->0
    } else {
        amount(a, f)
    }) by {
        assert(is_named(f, key) || !is_named(f, key));
        assert(is_named(AccountField::NetLiquidation, key) == (key == "NetLiquidation"@));
        assert(is_named(AccountField::BuyingPower, key) == (key == "BuyingPower"@));
        assert(is_named(AccountField::MarginUsed, key) == (key == "MaintMarginReq"@));
        assert(is_named(AccountField::UnrealizedPnl, key) == (key == "UnrealizedPnL"@));
        assert(is_named(AccountField::RealizedPnl, key) == (key == "RealizedPnL"@));
        assert(is_named(AccountField::TotalCashValue, key) == (key == "TotalCashValue"@));
        assert(is_named(AccountField::SettledCash, key) == (key == "SettledCash"@));
        assert(is_named(AccountField::AccruedCash, key) == (key == "AccruedCash"@));
        assert(is_named(AccountField::EquityWithLoan, key) == (key == "EquityWithLoanValue"@));
        assert(is_named(AccountField::GrossPositionValue, key) == (key == "GrossPositionValue"@));
        assert(is_named(AccountField::InitMarginReq, key) == (key == "InitMarginReq"@ || key
            == "FullInitMarginReq"@));
        assert(is_named(AccountField::MaintMarginReq, key) == (key == "FullMaintMarginReq"@));
        assert(is_named(AccountField::AvailableFunds, key) == (key == "AvailableFunds"@ || key
            == "FullAvailableFunds"@));
        assert(is_named(AccountField::ExcessLiquidity, key) == (key == "ExcessLiquidity"@ || key
            == "FullExcessLiquidity"@));
        assert(is_named(AccountField::Cushion, key) == (key == "Cushion"@));
        assert(is_named(AccountField::Sma, key) == (key == "SMA"@));
        assert(is_named(AccountField::Leverage, key) == (key == "Leverage-S"@ || key
            == "Leverage"@));
        assert(is_named(AccountField::DailyPnl, key) == (key == "DailyPnL"@));
    }
}

/// Of the values that an update gives for an amount, the last that is a number counts.
pub proof fn law_last_account_value_counts(
    a: AccountState,
    entries: Seq<(Seq<char>, Seq<char>)>,
    table: Seq<(Seq<char>, Number)>,
    field: AccountField,
    i: int,
)
    requires
        0 <= i < entries.len(),
        is_named(field, entries[i].0),
        price_of(table, entries[i].1) is Some,
        forall|j: int|
            i < j < entries.len() ==> !is_named(field, (#[trigger] entries[j]).0) || price_of(
                table,
                entries[j].1,
            ) is None,
    ensures
        amount(with_account_values(a, entries, table), field) == price_of(
            table,
            entries[i].1,
        )->0,
    decreases entries.len(),
{
    let shorter = entries.drop_last();
    let (key, value) = entries.last();
    let before = with_account_values(a, shorter, table);
    law_account_value_is_filed(before, key, value, price_of(table, value));
    if i < entries.len() - 1 {
        assert forall|j: int| i < j < shorter.len() implies !is_named(
            field,
            (#[trigger] shorter[j]).0,
        ) || price_of(table, shorter[j].1) is None by {
            assert(shorter[j] == entries[j]);
        }
        law_last_account_value_counts(a, shorter, table, field, i);
        assert(entries[entries.len() - 1] == entries.last());
    }
}

/// Of the values that a plain update gives for one of the five amounts that it can set, the
/// value that is a number becomes that amount, and changes no other.
pub proof fn law_plain_value_is_filed(a: AccountState, key: Seq<char>, p: Price)
    ensures
        ({
            let after = with_plain_value(a, key, p);
            &&& key == "NetLiquidation"@ ==> after == (AccountState { net_liquidation: p, ..a })
            &&& key == "BuyingPower"@ ==> after == (AccountState { buying_power: p, ..a })
            &&& key == "MaintMarginReq"@ ==> after == (AccountState { margin_used: p, ..a })
            &&& key == "UnrealizedPnL"@ ==> after == (AccountState { unrealized_pnl: p, ..a })
            &&& key == "RealizedPnL"@ ==> after == (AccountState { realized_pnl: p, ..a })
            &&& key != "NetLiquidation"@ && key != "BuyingPower"@ && key != "MaintMarginReq"@
                && key != "UnrealizedPnL"@ && key != "RealizedPnL"@ ==> after == a
        }),
{
    lemma_names_differ(key);
    assert(is_named(AccountField::NetLiquidation, key) == (key == "NetLiquidation"@));
    assert(is_named(AccountField::BuyingPower, key) == (key == "BuyingPower"@));
    assert(is_named(AccountField::MarginUsed, key) == (key == "MaintMarginReq"@));
    assert(is_named(AccountField::UnrealizedPnl, key) == (key == "UnrealizedPnL"@));
    assert(is_named(AccountField::RealizedPnl, key) == (key == "RealizedPnL"@));
}

/// The parts of an update that gives values under their names.
pub open spec fn account_parts(entries: Seq<(Seq<char>, Seq<char>)>) -> Seq<Seq<char>>
    decreases entries.len(),
{
    if entries.len() == 0 {
        Seq::empty()
    } else {
        account_parts(entries.drop_last()).push("8001="@ + entries.last().0).push(
            "8004="@ + entries.last().1,
        )
    }
}

pub(crate) proof fn lemma_after_own_prefix(prefix: Seq<char>, rest: Seq<char>)
    ensures
        after_prefix(prefix + rest, prefix) == Some(rest),
{
    assert((prefix + rest).take(prefix.len() as int) =~= prefix);
    assert((prefix + rest).skip(prefix.len() as int) =~= rest);
}

pub(crate) proof fn lemma_after_other_prefix(prefix: Seq<char>, rest: Seq<char>, other: Seq<char>, i: int)
    requires
        0 <= i < prefix.len(),
        i < other.len(),
        prefix[i] != other[i],
    ensures
        after_prefix(prefix + rest, other) is None,
{
    let s = prefix + rest;
    if starts_with(s, other) {
        assert(s.take(other.len() as int)[i] == other[i]);
        assert(s[i] == prefix[i]);
    }
}

/// The values of an update are read back under their names, in order.
pub proof fn law_account_values_are_read(entries: Seq<(Seq<char>, Seq<char>)>)
    ensures
        account_scan(account_parts(entries)).entries == entries,
        account_scan(account_parts(entries)).key is None,
    decreases entries.len(),
{
    if entries.len() > 0 {
        law_account_values_are_read(entries.drop_last());
        let (key, value) = entries.last();
        reveal_strlit("8001=");
        reveal_strlit("8004=");
        assert("8001="@[3] == '1' && "8004="@[3] == '4');
        lemma_after_own_prefix("8001="@, key);
        lemma_after_own_prefix("8004="@, value);
        lemma_after_other_prefix("8004="@, value, "8001="@, 3);
        let head = account_parts(entries.drop_last());
        let named = head.push("8001="@ + key);
        let parts = account_parts(entries);
        assert(parts.drop_last() =~= named);
        assert(named.drop_last() =~= head);
        assert(parts.last() == "8004="@ + value && named.last() == "8001="@ + key);
        let scan = account_scan(named);
        assert(scan.key == Some(key) && scan.entries == entries.drop_last());
        assert(entries.drop_last().push((key, value)) =~= entries);
    } else {
        assert(entries =~= Seq::empty());
    }
}

// ---------------------------------------------------------------------------------------
// Positions
// ---------------------------------------------------------------------------------------

/// A row of a portfolio report gives the position in a contract: its quantity under tag 6064 and
/// its cost under 6101; and its marks: the price under 6065, the value under 6067, and the profit
/// that is unrealized under 6100 and realized under 6099. The position in a registered contract
/// is announced and becomes that of its instrument; the positions in others stay.
pub proof fn law_portfolio_row_sets_the_position(
    s: HoldingsView,
    v: Values,
    n: Numbers,
    con_id: i64,
    qty: Qty,
)
    requires
        s.c.wf(),
        v.contains_key(6008) && v[6008] == int_text(con_id as int),
        v.contains_key(6064) && parsed_qty(v[6064]) == Some(qty as int),
    ensures
        ({
            let after = after_portfolio_row(s, v, n);
            &&& after.portfolio.infos.contains_key(con_id)
            &&& ({
                let p = after.portfolio.infos[con_id];
                &&& p.con_id == con_id
                &&& p.position_fixed == qty
                &&& n.contains_key(6101) ==> p.avg_cost == n[6101].scaled
                &&& n.contains_key(6065) ==> p.market_price == n[6065].scaled
                &&& n.contains_key(6067) ==> p.market_value == n[6067].scaled
                &&& n.contains_key(6100) ==> p.unrealized_pnl == n[6100].scaled
                &&& n.contains_key(6099) ==> p.realized_pnl == n[6099].scaled
                &&& v.contains_key(6068) && trimmed_end(v[6068]).len() > 0 ==> p.symbol
                    == trimmed_end(v[6068])
                &&& v.contains_key(167) && v[167].len() > 0 ==> p.sec_type == v[167]
                &&& v.contains_key(15) && v[15].len() > 0 ==> p.currency == v[15]
            })
            &&& forall|other: i64|
                other != con_id && s.portfolio.infos.contains_key(other)
                    ==> #[trigger] after.portfolio.infos.contains_key(other)
                    && after.portfolio.infos[other] == s.portfolio.infos[other]
            &&& after.c.positions.len() == s.c.positions.len()
            &&& forall|k: int|
                0 <= k < s.c.positions.len() ==> #[trigger] after.c.positions[k] == (if k
                    < s.c.market.con_ids.len() && s.c.market.instrument_of(con_id) == Some(
                    k as u32,
                ) {
                    qty
                } else {
                    s.c.positions[k]
                })
            &&& s.c.market.instrument_of(con_id) matches Some(instrument)
                ==> after.portfolio.positions.contains_key(instrument)
                && after.portfolio.positions[instrument] == qty && after.positions.len()
                == s.positions.len() + 1 && after.positions.last().instrument == instrument
                && after.positions.last().con_id == con_id && after.positions.last().position_fixed
                == qty && (n.contains_key(6101) ==> after.positions.last().avg_cost
                == n[6101].scaled)
            &&& s.c.market.instrument_of(con_id) is None ==> after.positions == s.positions
        }),
{
    lemma_int_text_parses(con_id as int, i64::MIN as int, i64::MAX as int);
}

/// A row of a position feed gives the position in a contract and its cost. The position in a
/// registered contract is announced.
pub proof fn law_feed_row_sets_the_position(s: HoldingsView, con_id: i64, qty: Qty, cost: Price)
    ensures
        ({
            let after = after_feed_row(s, con_id, qty, cost);
            &&& after.portfolio.infos.contains_key(con_id)
            &&& after.portfolio.infos[con_id].con_id == con_id
            &&& after.portfolio.infos[con_id].position_fixed == qty
            &&& after.portfolio.infos[con_id].avg_cost == cost
            &&& after.c == s.c
            &&& s.c.market.instrument_of(con_id) matches Some(instrument)
                ==> after.portfolio.positions.contains_key(instrument)
                && after.portfolio.positions[instrument] == qty && after.positions.len()
                == s.positions.len() + 1 && after.positions.last().instrument == instrument
                && after.positions.last().con_id == con_id && after.positions.last().position_fixed
                == qty && after.positions.last().avg_cost == cost
            &&& s.c.market.instrument_of(con_id) is None ==> after.positions == s.positions
        }),
{
}

/// The parts of a message that gives a quantity and two values for each contract.
pub open spec fn row_parts(rows: Seq<RowView>, a: Seq<char>, b: Seq<char>) -> Seq<Seq<char>>
    decreases rows.len(),
{
    if rows.len() == 0 {
        Seq::empty()
    } else {
        let r = rows.last();
        row_parts(rows.drop_last(), a, b).push("6008="@ + int_text(r.con_id as int)).push(
            "6064="@ + crate::types::qty_text(r.qty as int),
        ).push(a + r.a).push(b + r.b)
    }
}

/// The rows of a message are read back, in order.
pub proof fn law_rows_are_read(rows: Seq<RowView>)
    requires
        forall|i: int|
            0 <= i < rows.len() ==> (#[trigger] rows[i]).con_id != 0 && rows[i].qty > i64::MIN,
    ensures
        flushed(row_scan(row_parts(rows, "6822="@, "6099="@), "6822="@, "6099="@)) == rows,
    decreases rows.len(),
{
    let a = "6822="@;
    let b = "6099="@;
    if rows.len() == 0 {
        assert(rows =~= Seq::empty());
    } else {
        let head = rows.drop_last();
        assert forall|i: int| 0 <= i < head.len() implies (#[trigger] head[i]).con_id != 0
            && head[i].qty > i64::MIN by {
            assert(head[i] == rows[i]);
        }
        law_rows_are_read(head);
        let r = rows.last();
        assert(rows[rows.len() - 1] == r);
        reveal_strlit("6008=");
        reveal_strlit("6064=");
        reveal_strlit("6822=");
        reveal_strlit("6099=");
        assert("6008="@[1] == '0' && "6064="@[1] == '0' && a[1] == '8' && b[1] == '0');
        assert("6008="@[2] == '0' && "6064="@[2] == '6' && b[2] == '9');
        let id = int_text(r.con_id as int);
        let q = crate::types::qty_text(r.qty as int);
        lemma_int_text_parses(r.con_id as int, i64::MIN as int, i64::MAX as int);
        crate::types::law_qty_round_trip(r.qty);
        lemma_after_own_prefix("6008="@, id);
        lemma_after_own_prefix("6064="@, q);
        lemma_after_own_prefix(a, r.a);
        lemma_after_own_prefix(b, r.b);
        lemma_after_other_prefix("6064="@, q, "6008="@, 2);
        lemma_after_other_prefix(a, r.a, "6008="@, 1);
        lemma_after_other_prefix(a, r.a, "6064="@, 1);
        lemma_after_other_prefix(b, r.b, "6008="@, 2);
        lemma_after_other_prefix(b, r.b, "6064="@, 2);
        lemma_after_other_prefix(b, r.b, a, 1);
        let p0 = row_parts(head, a, b);
        let p1 = p0.push("6008="@ + id);
        let p2 = p1.push("6064="@ + q);
        let p3 = p2.push(a + r.a);
        let p4 = p3.push(b + r.b);
        assert(p1.drop_last() =~= p0);
        assert(p2.drop_last() =~= p1);
        assert(p3.drop_last() =~= p2);
        assert(p4.drop_last() =~= p3);
        let s1 = row_scan(p1, a, b);
        assert(s1.rows == head && s1.current.con_id == r.con_id);
        let s2 = row_scan(p2, a, b);
        assert(s2.rows == head && s2.current.con_id == r.con_id && s2.current.qty == r.qty);
        let s3 = row_scan(p3, a, b);
        assert(s3.rows == head && s3.current.a == r.a);
        let s4 = row_scan(p4, a, b);
        assert(s4.rows == head && s4.current == r);
        assert(head.push(r) =~= rows);
    }
}

/// A plain message with a position sets the position in the registered contract that it names,
/// in whole shares, and no other.
pub proof fn law_plain_position_is_set(c: ContextView, v: Values, n: Numbers, con_id: i64)
    requires
        c.wf(),
        v.contains_key(6008) && v[6008] == int_text(con_id as int),
        n.contains_key(6064),
        c.market.instrument_of(con_id) is Some,
        i64::MIN <= n[6064].whole * 10_000 <= i64::MAX,
    ensures
        ({
            let after = plain_position(c, v, n);
            let instrument = c.market.instrument_of(con_id)->0;
            &&& after.positions[instrument as int] == n[6064].whole * 10_000
            &&& forall|k: int|
                0 <= k < c.positions.len() && k != instrument ==> #[trigger] after.positions[k]
                    == c.positions[k]
            &&& after.orders == c.orders
            &&& after.account == c.account
        }),
{
    lemma_int_text_parses(con_id as int, i64::MIN as int, i64::MAX as int);
}

// ---------------------------------------------------------------------------------------
// Costs
// ---------------------------------------------------------------------------------------

/// A commission report gives what an execution cost and earned: the commission under tag 6378,
/// its currency under 6381, the realized profit under 6099 unless that is 0, and the yield under
/// 236.
pub proof fn law_commission_is_read(v: Values, n: Numbers)
    requires
        v.contains_key(17) && v[17].len() > 0,
        v.contains_key(6378) && n.contains_key(6378),
    ensures
        is_commission(v, n),
        ({
            let c = commission_of(v, n);
            &&& c.exec_id == v[17]
            &&& c.commission_and_fees == v[6378]
            &&& v.contains_key(6381) ==> c.currency == v[6381]
            &&& v.contains_key(6099) && n.contains_key(6099) ==> c.realized_pnl == (
            if n[6099].zero {
                None
            } else {
                Some(v[6099])
            })
            &&& v.contains_key(236) && n.contains_key(236) ==> c.yield_amount == Some(v[236])
            &&& !n.contains_key(236) ==> c.yield_amount is None
        }),
{
}

/// A preview of an order that holds its numbers is told, with each number as that of the margin,
/// the equity or the commission that it is; the order is tracked no longer.
pub proof fn law_preview_is_told(
    s: ReportState,
    v: Values,
    n: Numbers,
    account: Seq<char>,
    id: OrderId,
    o: Order,
)
    requires
        s.wf(),
        id != 0,
        s.c.order(id) == Some(o),
        v.contains_key(11) && v[11] == dec(id as nat),
        !v.contains_key(6121),
        v.contains_key(6091) && v[6091] == "1"@,
        n.contains_key(6092) && n[6092].finite,
    ensures
        ({
            let after = exec_report(s, v, n, account);
            let w = after.orders.what_ifs.last();
            &&& after.orders.what_ifs.len() == s.orders.what_ifs.len() + 1
            &&& w.order_id == id
            &&& w.instrument == o.instrument
            &&& n.contains_key(6826) ==> w.init_margin_before == n[6826].scaled
            &&& n.contains_key(6827) ==> w.maint_margin_before == n[6827].scaled
            &&& n.contains_key(6828) ==> w.equity_with_loan_before == n[6828].scaled
            &&& w.init_margin_after == n[6092].scaled
            &&& n.contains_key(6093) ==> w.maint_margin_after == n[6093].scaled
            &&& n.contains_key(6094) ==> w.equity_with_loan_after == n[6094].scaled
            &&& n.contains_key(6378) ==> w.commission == n[6378].scaled
            &&& after.c.order(id) is None
            &&& after.c.positions == s.c.positions
            &&& after.orders.updates == s.orders.updates
            &&& after.orders.fills == s.orders.fills
        }),
{
    reveal(exec_report);
    law_client_order_id_names_its_order(id, 0);
    assert(report_order(v) == id);
    let c2 = after_clord(s.c, v, id);
    assert(c2.orders == s.c.orders);
    law_drop_then_find(c2.orders, id, id);
}

// ---------------------------------------------------------------------------------------
// Refused requests
// ---------------------------------------------------------------------------------------

/// The refusal of a request to cancel or replace a tracked order names the order, its contract
/// and the reason; the order works on, as submitted or as partly filled.
pub proof fn law_refused_order_works_on(
    c: ContextView,
    v: Values,
    id: OrderId,
    o: Order,
    kind: u8,
    reason: i32,
)
    requires
        c.wf(),
        c.order(id) == Some(o),
        v.contains_key(41) && (v[41] == dec(id as nat) || v[41] == seq!['C'] + dec(id as nat)
            || exists|k: u32| v[41] == #[trigger] versioned(id, k)),
        v.contains_key(434) && v[434] == int_text(kind as int),
        v.contains_key(102) && v[102] == int_text(reason as int),
    ensures
        refused_order(v) == Some(id),
        ({
            let reject = cancel_reject_of(c, v, id);
            let after = still_working(c, id);
            &&& reject.order_id == id
            &&& reject.instrument == o.instrument
            &&& reject.reject_type == kind
            &&& reject.reason_code == reason
            &&& after.order(id) == Some(
                Order {
                    status: if o.filled_fixed > 0 {
                        OrderStatus::PartiallyFilled
                    } else {
                        OrderStatus::Submitted
                    },
                    ..o
                },
            )
            &&& after.positions == c.positions
            &&& forall|other: OrderId|
                other != id ==> #[trigger] after.order(other) == c.order(other)
        }),
{
    law_client_order_id_names_its_order(id, 0);
    if exists|k: u32| v[41] == #[trigger] versioned(id, k) {
        let k = choose|k: u32| v[41] == #[trigger] versioned(id, k);
        law_client_order_id_names_its_order(id, k);
    }
    lemma_int_text_parses(kind as int, 0, 255);
    lemma_int_text_parses(reason as int, i32::MIN as int, i32::MAX as int);
    let status = if o.filled_fixed > 0 {
        OrderStatus::PartiallyFilled
    } else {
        OrderStatus::Submitted
    };
    let set = Order { status, ..o };
    law_put_then_find(c.orders, set, id);
    let after = still_working(c, id);
    assert forall|other: OrderId| other != id implies #[trigger] after.order(other) == c.order(
        other,
    ) by {
        law_put_then_find(c.orders, set, other);
    }
}

/// A plain refusal is told to the strategy, and the order works on.
pub proof fn law_plain_refusal_is_told(
    s: PlainReportView,
    v: Values,
    id: OrderId,
    o: Order,
    kind: u8,
    reason: i32,
)
    requires
        s.c.wf(),
        s.c.order(id) == Some(o),
        v.contains_key(41) && v[41] == dec(id as nat),
        v.contains_key(434) && v[434] == int_text(kind as int),
        v.contains_key(102) && v[102] == int_text(reason as int),
    ensures
        ({
            let after = plain_refusal(s, v);
            &&& after.events.len() == s.events.len() + 1
            &&& after.events.last() matches StrategyEvent::Rejected(reject)
            &&& reject.order_id == id
            &&& reject.instrument == o.instrument
            &&& reject.reject_type == kind
            &&& reject.reason_code == reason
            &&& after.c.order(id) == Some(
                Order {
                    status: if o.filled_fixed > 0 {
                        OrderStatus::PartiallyFilled
                    } else {
                        OrderStatus::Submitted
                    },
                    ..o
                },
            )
            &&& after.c.positions == s.c.positions
        }),
{
    lemma_int_text_parses(id as int, 0, u64::MAX as int);
    law_refused_order_works_on(s.c, v, id, o, kind, reason);
}

} // verus!
