//! The order connection: what follows from each message that the server sends over it.
use std::collections::HashMap;
use vstd::prelude::*;

use crate::bridge::{
    ContractCache, ContractView, NewsBulletin, NewsBulletinView, Number, OrderReports, Portfolio,
    PortfolioView,
};
use crate::engine::context::{AccountState, Context, ContextView};
use crate::engine::hot_loop::exec_ids::{
    commission_is_new, commission_seen, window_ok, CommissionWindow, ExecIdWindow, EXEC_ID_WINDOW,
};
use crate::engine::hot_loop::exec_report::{
    exec_report, handle_exec_report, int_field, ReportState, Values,
};
use crate::engine::hot_loop::heartbeat::{fresh_link, HeartbeatState, HeartbeatView};
use crate::engine::hot_loop::lookup_replies::{
    after_definition, after_matches, after_schedule, after_session_reject, contracts_learned,
};
use crate::engine::hot_loop::lookups::{
    fetched_if_cold, match_views, ContractDefinition, LookupView, Lookups, Schedule, SymbolMatch,
    SymbolMatchView,
};
use crate::engine::hot_loop::numbers::{field_numbers, price_of, NumberTable};
use crate::engine::hot_loop::order_builder::field_lists;
use crate::engine::hot_loop::portfolio::{
    account_scan, after_feed_row, after_portfolio_message, depth_views, exchanges_from, feed_rows,
    group_scan, handle_account_summary, handle_account_update, handle_exchange_list,
    handle_feed_row, handle_pnl_response, handle_portfolio_message, midnight_seeds,
    position_feed_rows, read_groups, row_values, row_views, text_parts, with_account_values,
    DepthMktDataDescription, DepthView, HoldingsView, PositionUpdate, RowView,
};
use crate::engine::hot_loop::server_reports::{
    bulletin_kind, cancel_reject_of, commission_of, extract_tag_value, handle_cancel_reject,
    handle_commission_report, handle_news_bulletin, is_commission, reconnect_requests,
    refusal_reported, refused_order, resubscriptions, still_working, tag_value, test_reply,
    test_reply_fields,
};
use crate::protocol::fix::{
    field_or_empty, fix_parse, fix_values, get_field, lookup, lookup_or_empty, map_texts,
    Fields, SOH,
};
use crate::text::{parse_i64, parse_u32, parsed_int, read_text, split, text_eq};
use crate::types::{InstrumentId, Price};

verus! {

/// What clients see of the order connection.
pub struct SharedState {
    pub orders: OrderReports,
    pub portfolio: Portfolio,
    pub contracts: ContractCache,
    pub instrument_count: u32,
    pub bulletins: Vec<NewsBulletin>,
    pub positions: Vec<PositionUpdate>,
    pub depth_exchanges: Vec<DepthMktDataDescription>,
    pub market_rules: Vec<MarketRule>,
}

/// A market rule: the steps in which prices move. Each step holds from a price on.
pub struct MarketRule {
    pub rule_id: i32,
    pub steps: Vec<PriceStep>,
}

/// The step in which prices move from a price on.
#[derive(Debug, Clone, Copy, PartialEq, Eq, Structural)]
pub struct PriceStep {
    pub low_edge: Price,
    pub increment: Price,
}

/// What a [`MarketRule`] says.
pub ghost struct MarketRuleView {
    pub rule_id: i32,
    pub steps: Seq<PriceStep>,
}

impl View for MarketRule {
    type V = MarketRuleView;

    open spec fn view(&self) -> MarketRuleView {
        MarketRuleView { rule_id: self.rule_id, steps: self.steps@ }
    }
}

/// What the rules of a list say.
pub open spec fn rule_views(v: Seq<MarketRule>) -> Seq<MarketRuleView> {
    v.map_values(|r: MarketRule| r@)
}

/// What the order connection remembers.
pub struct CcpState {
    pub exec_ids: ExecIdWindow,
    pub commissions: CommissionWindow,
    pub bulletin_next_id: i32,
    pub news_subscriptions: Vec<(InstrumentId, u32)>,
    pub disconnected: bool,
    pub lookups: Lookups,
}

/// What messages over the order connection change.
pub ghost struct CcpView {
    pub report: ReportState,
    pub commissions: Seq<(Seq<char>, u64)>,
    pub bulletin_id: i32,
    pub bulletins: Seq<NewsBulletinView>,
    pub positions: Seq<PositionUpdate>,
    pub lookups: LookupView,
    pub depth: Seq<DepthView>,
    pub rules: Seq<MarketRuleView>,
    pub news_subscriptions: Seq<(InstrumentId, u32)>,
    pub disconnected: bool,
}

/// What the bulletins of a list say.
pub open spec fn bulletin_views(v: Seq<NewsBulletin>) -> Seq<NewsBulletinView> {
    v.map_values(|b: NewsBulletin| b@)
}

/// The state as messages see it.
pub open spec fn ccp_view(state: CcpState, context: ContextView, shared: SharedState) -> CcpView {
    CcpView {
        report: ReportState {
            ids: state.exec_ids@,
            c: context,
            orders: shared.orders@,
            portfolio: shared.portfolio@,
            contracts: shared.contracts@,
            instrument_count: shared.instrument_count,
        },
        commissions: state.commissions@,
        bulletin_id: state.bulletin_next_id,
        bulletins: bulletin_views(shared.bulletins@),
        positions: shared.positions@,
        lookups: state.lookups@,
        depth: depth_views(shared.depth_exchanges@),
        rules: rule_views(shared.market_rules@),
        news_subscriptions: state.news_subscriptions@,
        disconnected: state.disconnected,
    }
}

impl CcpView {
    /// The windows are within their bounds, and what is pending is.
    pub open spec fn wf(self) -> bool {
        &&& self.report.wf()
        &&& self.commissions.len() <= EXEC_ID_WINDOW
        &&& self.lookups.wf()
    }

    /// The counters can go on.
    pub open spec fn can_count(self) -> bool {
        self.bulletin_id < i32::MAX && self.lookups.next_schedule < u32::MAX
    }

    /// What positions change.
    pub open spec fn holdings(self) -> HoldingsView {
        HoldingsView {
            c: self.report.c,
            portfolio: self.report.portfolio,
            positions: self.positions,
        }
    }

    /// With other positions.
    pub open spec fn with_holdings(self, h: HoldingsView) -> CcpView {
        CcpView {
            report: ReportState { c: h.c, portfolio: h.portfolio, ..self.report },
            positions: h.positions,
            ..self
        }
    }

    /// With the account's values.
    pub open spec fn with_account(self, account: AccountState) -> CcpView {
        CcpView {
            report: ReportState {
                c: ContextView { account, ..self.report.c },
                portfolio: PortfolioView { account, ..self.report.portfolio },
                ..self.report
            },
            ..self
        }
    }

    /// With the account's download marked as complete.
    pub open spec fn downloaded(self) -> CcpView {
        CcpView {
            report: ReportState {
                portfolio: PortfolioView { download_complete: true, ..self.report.portfolio },
                ..self.report
            },
            ..self
        }
    }

    /// With other lookups.
    pub open spec fn with_lookups(self, lookups: LookupView) -> CcpView {
        CcpView { lookups, ..self }
    }
}

impl CcpState {
    /// Nothing has come yet.
    pub fn new() -> (r: Self)
        ensures
            window_ok(r.exec_ids@),
            r.exec_ids@ == Seq::<Seq<char>>::empty(),
            r.commissions@ == Seq::<(Seq<char>, u64)>::empty(),
            r.bulletin_next_id == 0,
            r.news_subscriptions@ == Seq::<(InstrumentId, u32)>::empty(),
            !r.disconnected,
            r.lookups@ == crate::engine::hot_loop::lookups::no_lookups(),
            r.lookups@.wf(),
    {
        CcpState {
            exec_ids: ExecIdWindow::new(),
            commissions: CommissionWindow::new(),
            bulletin_next_id: 0,
            news_subscriptions: Vec::new(),
            disconnected: false,
            lookups: Lookups::new(),
        }
    }

    /// Takes in that the connection is lost: the state of the open orders is uncertain.
    pub fn handle_disconnect(&mut self, context: &mut Context)
        requires
            old(context)@.wf(),
        ensures
            final(context)@.wf(),
            final(context)@ == old(context)@.with_uncertain_orders(),
            *final(self) == (CcpState { disconnected: true, ..*old(self) }),
    {
        self.disconnected = true;
        context.mark_orders_uncertain();
    }

    /// Takes in that there is a new connection, and gives the requests for the account's values
    /// and positions.
    pub fn reconnect(&mut self, hb: &mut HeartbeatState, account_id: &str, now: u64, stamp: &str)
        -> (r: Vec<Fields>)
        ensures
            *final(self) == (CcpState { disconnected: false, ..*old(self) }),
            final(hb)@ == (HeartbeatView { ccp: fresh_link(now), ..old(hb)@ }),
            field_lists(r@) == resubscriptions(stamp@, account_id@),
    {
        self.disconnected = false;
        hb.ccp_reconnected(now);
        reconnect_requests(stamp, account_id)
    }
}

impl SharedState {
    /// Nothing to see yet.
    pub fn new() -> (r: Self)
        ensures
            r.orders@ == crate::bridge::no_order_reports(),
            r.portfolio@ == crate::bridge::empty_portfolio(),
            r.contracts@ == Map::<i64, ContractView>::empty(),
            r.instrument_count == 0,
            r.bulletins@ == Seq::<NewsBulletin>::empty(),
            r.positions@ == Seq::<PositionUpdate>::empty(),
            r.depth_exchanges@ == Seq::<DepthMktDataDescription>::empty(),
            r.market_rules@ == Seq::<MarketRule>::empty(),
    {
        SharedState {
            orders: OrderReports::new(),
            portfolio: Portfolio::new(),
            contracts: ContractCache::new(),
            instrument_count: 0,
            bulletins: Vec::new(),
            positions: Vec::new(),
            depth_exchanges: Vec::new(),
            market_rules: Vec::new(),
        }
    }
}

// ---------------------------------------------------------------------------------------
// Kinds of messages
// ---------------------------------------------------------------------------------------

/// The kinds of messages that the server sends over the order connection.
#[derive(Debug, Clone, Copy, PartialEq, Eq, Structural)]
pub enum CcpKind {
    ExecReport,
    CancelReject,
    News,
    TestRequest,
    SessionReject,
    PositionFeed,
    AccountSummary,
    PnlSeeds,
    MatchingSymbols,
    Commission,
    ExchangeList,
    ScheduleReply,
    History,
    BarUpdate,
    AccountUpdate,
    Portfolio,
    Definition,
    Other,
}

/// The kind of a message of the server's own protocol, by the number under tag 6040.
pub open spec fn custom_kind(number: Seq<char>) -> CcpKind {
    if number == "75"@ {
        CcpKind::PositionFeed
    } else if number == "77"@ {
        CcpKind::AccountSummary
    } else if number == "143"@ {
        CcpKind::PnlSeeds
    } else if number == "186"@ {
        CcpKind::MatchingSymbols
    } else if number == "60"@ {
        CcpKind::Commission
    } else if number == "102"@ {
        CcpKind::ExchangeList
    } else if number == "107"@ {
        CcpKind::ScheduleReply
    } else {
        CcpKind::Other
    }
}

/// The kind of a message, by its type under tag 35.
pub open spec fn ccp_kind(v: Values) -> CcpKind {
    match lookup(v, 35) {
        None => CcpKind::Other,
        Some(t) => if t == "8"@ {
            CcpKind::ExecReport
        } else if t == "9"@ {
            CcpKind::CancelReject
        } else if t == "B"@ {
            CcpKind::News
        } else if t == "1"@ {
            CcpKind::TestRequest
        } else if t == "3"@ {
            CcpKind::SessionReject
        } else if t == "U"@ {
            match lookup(v, 6040) {
                Some(number) => custom_kind(number),
                None => CcpKind::Other,
            }
        } else if t == "W"@ {
            CcpKind::History
        } else if t == "G"@ {
            CcpKind::BarUpdate
        } else if t == "UT"@ || t == "UM"@ || t == "RL"@ {
            CcpKind::AccountUpdate
        } else if t == "UP"@ {
            CcpKind::Portfolio
        } else if t == "d"@ {
            CcpKind::Definition
        } else {
            CcpKind::Other
        },
    }
}

/// The kind of a message of the server's own protocol.
fn custom_kind_of(number: &str) -> (r: CcpKind)
    ensures
        r == custom_kind(number@),
{
    if text_eq(number, "75") {
        CcpKind::PositionFeed
    } else if text_eq(number, "77") {
        CcpKind::AccountSummary
    } else if text_eq(number, "143") {
        CcpKind::PnlSeeds
    } else if text_eq(number, "186") {
        CcpKind::MatchingSymbols
    } else if text_eq(number, "60") {
        CcpKind::Commission
    } else if text_eq(number, "102") {
        CcpKind::ExchangeList
    } else if text_eq(number, "107") {
        CcpKind::ScheduleReply
    } else {
        CcpKind::Other
    }
}

/// The kind of a message.
pub fn message_kind(m: &HashMap<u32, String>) -> (r: CcpKind)
    ensures
        r == ccp_kind(map_texts(m@)),
{
    let t = match get_field(m, 35) {
        None => return CcpKind::Other,
        Some(t) => t.as_str(),
    };
    if text_eq(t, "8") {
        CcpKind::ExecReport
    } else if text_eq(t, "9") {
        CcpKind::CancelReject
    } else if text_eq(t, "B") {
        CcpKind::News
    } else if text_eq(t, "1") {
        CcpKind::TestRequest
    } else if text_eq(t, "3") {
        CcpKind::SessionReject
    } else if text_eq(t, "U") {
        match get_field(m, 6040) {
            Some(number) => custom_kind_of(number.as_str()),
            None => CcpKind::Other,
        }
    } else if text_eq(t, "W") {
        CcpKind::History
    } else if text_eq(t, "G") {
        CcpKind::BarUpdate
    } else if text_eq(t, "UT") || text_eq(t, "UM") || text_eq(t, "RL") {
        CcpKind::AccountUpdate
    } else if text_eq(t, "UP") {
        CcpKind::Portfolio
    } else if text_eq(t, "d") {
        CcpKind::Definition
    } else {
        CcpKind::Other
    }
}

// ---------------------------------------------------------------------------------------
// What follows from a message
// ---------------------------------------------------------------------------------------

/// The circumstances under which a message is taken in: whose account it is, whether answers
/// can be sent, the time as messages carry it, and the time in milliseconds.
pub ghost struct ArrivalView {
    pub account: Seq<char>,
    pub connected: bool,
    pub stamp: Seq<char>,
    pub now: u64,
}

/// The circumstances under which a message is taken in.
pub struct Arrival<'a> {
    pub account_id: &'a str,
    pub connected: bool,
    pub stamp: &'a str,
    pub now: u64,
}

impl<'a> View for Arrival<'a> {
    type V = ArrivalView;

    open spec fn view(&self) -> ArrivalView {
        ArrivalView {
            account: self.account_id@,
            connected: self.connected,
            stamp: self.stamp@,
            now: self.now,
        }
    }
}

/// After a commission report.
pub open spec fn after_commission(s: CcpView, v: Values, table: Seq<(Seq<char>, Number)>) -> CcpView {
    let n = field_numbers(v, table);
    let id = lookup_or_empty(v, 17);
    if is_commission(v, n) {
        CcpView {
            commissions: commission_seen(s.commissions, id),
            report: ReportState {
                orders: if commission_is_new(s.commissions, id) {
                    crate::bridge::OrderReportsView {
                        commissions: s.report.orders.commissions.push(commission_of(v, n)),
                        ..s.report.orders
                    }
                } else {
                    s.report.orders
                },
                ..s.report
            },
            ..s
        }
    } else {
        s
    }
}

/// After a refused cancel.
pub open spec fn after_refusal(s: CcpView, v: Values) -> CcpView {
    match refused_order(v) {
        Some(id) => CcpView {
            report: ReportState {
                c: still_working(s.report.c, id),
                orders: refusal_reported(s.report.orders, cancel_reject_of(s.report.c, v, id)),
                ..s.report
            },
            ..s
        },
        None => s,
    }
}

/// After a bulletin.
pub open spec fn after_bulletin(s: CcpView, v: Values) -> CcpView {
    match bulletin_kind(v) {
        Some(kind) => CcpView {
            bulletin_id: (s.bulletin_id + 1) as i32,
            bulletins: s.bulletins.push(
                NewsBulletinView {
                    msg_id: (s.bulletin_id + 1) as i32,
                    msg_type: kind,
                    message: lookup_or_empty(v, 148),
                    exchange: lookup_or_empty(v, 207),
                },
            ),
            ..s
        },
        None => s,
    }
}

/// What a position feed gives as the average cost in a row; 0 when it is not a number.
pub open spec fn feed_cost(row: RowView, table: Seq<(Seq<char>, Number)>) -> Price {
    match price_of(table, row.a) {
        Some(p) => p,
        None => 0,
    }
}

/// After the first `n` rows of a position feed. The definitions of contracts that are not
/// known are asked for.
pub open spec fn after_feed_rows(
    s: CcpView,
    rows: Seq<RowView>,
    table: Seq<(Seq<char>, Number)>,
    a: ArrivalView,
    n: int,
) -> CcpView
    decreases n,
{
    if n <= 0 {
        s
    } else {
        let before = after_feed_rows(s, rows, table, a, n - 1);
        let row = rows[n - 1];
        before.with_holdings(
            after_feed_row(before.holdings(), row.con_id, row.qty, feed_cost(row, table)),
        ).with_lookups(
            fetched_if_cold(
                before.lookups,
                row.con_id,
                before.report.contracts,
                a.connected,
                a.stamp,
                a.now,
            ),
        )
    }
}

/// After a position feed. One that is not text holds no rows.
pub open spec fn after_position_feed(
    s: CcpView,
    msg: Seq<u8>,
    table: Seq<(Seq<char>, Number)>,
    a: ArrivalView,
) -> CcpView {
    if vstd::utf8::valid_utf8(msg) {
        after_feed_rows(s, feed_rows(msg), table, a, feed_rows(msg).len() as int)
    } else {
        s
    }
}

/// A row of a list of matches.
pub open spec fn match_of(v: Values) -> SymbolMatchView {
    SymbolMatchView {
        con_id: int_field(v, 6008, i64::MIN as int, i64::MAX as int, 0) as i64,
        symbol: lookup_or_empty(v, 55),
        sec_type: lookup_or_empty(v, 167),
        currency: lookup_or_empty(v, 15),
    }
}

/// The matches in a message: each starts with the symbol, under tag 55.
pub open spec fn matches_in(msg: Seq<u8>) -> Seq<SymbolMatchView> {
    group_scan(split(msg, SOH), 55).rows.map_values(|v: Values| match_of(v))
}

/// The request that a message names under tag 320.
pub open spec fn echoed_request(msg: Seq<u8>) -> Option<u32> {
    match tag_value(msg, "320="@) {
        Some(t) => match parsed_int(t, 0, u32::MAX as int) {
            Some(n) => Some(n as u32),
            None => None,
        },
        None => None,
    }
}

/// Whether the server marks a definition as the last one of an answer.
pub open spec fn is_last_definition(v: Values) -> bool {
    lookup(v, 323) == Some("5"@) || lookup(v, 323) == Some("6"@)
}

/// The reason that a rejection gives.
pub open spec fn reject_reason(v: Values) -> Seq<char> {
    match lookup(v, 58) {
        Some(t) => t,
        None => "unknown"@,
    }
}

/// After the definition of a message, if it could be read.
pub open spec fn after_definition_message(
    s: CcpView,
    msg: Seq<u8>,
    def: Option<ContractDefinition>,
    a: ArrivalView,
) -> CcpView {
    match def {
        Some(def) => CcpView {
            report: ReportState {
                contracts: contracts_learned(s.report.contracts, def),
                ..s.report
            },
            lookups: after_definition(
                s.lookups,
                lookup(fix_values(msg), 320),
                def,
                is_last_definition(fix_values(msg)),
                a.connected,
                a.stamp,
                a.now,
            ),
            ..s
        },
        None => s,
    }
}

/// What is read of a message outside the library: what its texts stand for that read as
/// decimal numbers, and the definition with its market rules, or the trading hours, that it
/// carries.
pub struct Decoded {
    pub numbers: NumberTable,
    pub definition: Option<ContractDefinition>,
    pub rules: Vec<MarketRule>,
    pub schedule: Option<Schedule>,
}

/// After a message about orders, or a bulletin.
pub open spec fn order_message_processed(
    s: CcpView,
    v: Values,
    table: Seq<(Seq<char>, Number)>,
    account: Seq<char>,
) -> CcpView {
    match ccp_kind(v) {
        CcpKind::ExecReport => CcpView {
            report: exec_report(s.report, v, field_numbers(v, table), account),
            ..s
        },
        CcpKind::CancelReject => after_refusal(s, v),
        CcpKind::News => after_bulletin(s, v),
        CcpKind::Commission => after_commission(s, v, table),
        _ => s,
    }
}

/// After a message about the account.
pub open spec fn account_message_processed(
    s: CcpView,
    msg: Seq<u8>,
    table: Seq<(Seq<char>, Number)>,
    a: ArrivalView,
) -> CcpView {
    let v = fix_values(msg);
    match ccp_kind(v) {
        CcpKind::PositionFeed => after_position_feed(s, msg, table, a).downloaded(),
        CcpKind::AccountSummary => s.with_account(
            match price_of_field(v, table, 9806) {
                Some(p) => AccountState { net_liquidation: p, ..s.report.c.account },
                None => s.report.c.account,
            },
        ).downloaded(),
        CcpKind::PnlSeeds => if vstd::utf8::valid_utf8(msg) {
            CcpView {
                report: ReportState {
                    portfolio: PortfolioView {
                        seeds: midnight_seeds(msg),
                        ..s.report.portfolio
                    },
                    ..s.report
                },
                ..s
            }
        } else {
            s
        },
        CcpKind::AccountUpdate => if vstd::utf8::valid_utf8(msg) {
            s.with_account(
                with_account_values(
                    s.report.c.account,
                    account_scan(text_parts(msg)).entries,
                    table,
                ),
            )
        } else {
            s
        },
        CcpKind::Portfolio => s.with_holdings(after_portfolio_message(s.holdings(), msg, table)),
        _ => s,
    }
}

/// After a message about lookups, or one that asks for a sign of life.
pub open spec fn lookup_message_processed(
    s: CcpView,
    msg: Seq<u8>,
    definition: Option<ContractDefinition>,
    rules: Seq<MarketRuleView>,
    schedule: Option<Schedule>,
    a: ArrivalView,
) -> CcpView {
    let v = fix_values(msg);
    match ccp_kind(v) {
        CcpKind::TestRequest => s.with_lookups(
            s.lookups.sent(a.connected, test_reply(a.stamp, lookup_or_empty(v, 112))),
        ),
        CcpKind::SessionReject => s.with_lookups(
            after_session_reject(s.lookups, reject_reason(v)),
        ),
        CcpKind::MatchingSymbols => s.with_lookups(
            after_matches(
                s.lookups,
                tag_value(msg, "146="@) is Some,
                echoed_request(msg),
                matches_in(msg),
            ),
        ),
        CcpKind::ExchangeList => CcpView {
            depth: exchanges_from(split(read_text(msg), '\x01'), 0, "STK"@, 0),
            ..s
        },
        CcpKind::ScheduleReply => match tag_value(msg, "6256="@) {
            Some(key) => s.with_lookups(after_schedule(s.lookups, key, schedule)),
            None => s,
        },
        CcpKind::Definition => {
            let t = after_definition_message(s, msg, definition, a);
            CcpView { rules: t.rules + rules, ..t }
        },
        _ => s,
    }
}

/// What a message is about.
#[derive(Debug, Clone, Copy, PartialEq, Eq, Structural)]
pub enum CcpSubject {
    Orders,
    Account,
    Lookups,
    History,
    Nothing,
}

/// What the messages of a kind are about.
pub open spec fn subject(kind: CcpKind) -> CcpSubject {
    match kind {
        CcpKind::ExecReport | CcpKind::CancelReject | CcpKind::News | CcpKind::Commission =>
            CcpSubject::Orders,
        CcpKind::PositionFeed | CcpKind::AccountSummary | CcpKind::PnlSeeds
        | CcpKind::AccountUpdate | CcpKind::Portfolio => CcpSubject::Account,
        CcpKind::TestRequest | CcpKind::SessionReject | CcpKind::MatchingSymbols
        | CcpKind::ExchangeList | CcpKind::ScheduleReply | CcpKind::Definition =>
            CcpSubject::Lookups,
        CcpKind::History | CcpKind::BarUpdate => CcpSubject::History,
        CcpKind::Other => CcpSubject::Nothing,
    }
}

/// What the messages of a kind are about.
fn subject_of(kind: CcpKind) -> (r: CcpSubject)
    ensures
        r == subject(kind),
{
    match kind {
        CcpKind::ExecReport | CcpKind::CancelReject | CcpKind::News | CcpKind::Commission =>
            CcpSubject::Orders,
        CcpKind::PositionFeed | CcpKind::AccountSummary | CcpKind::PnlSeeds
        | CcpKind::AccountUpdate | CcpKind::Portfolio => CcpSubject::Account,
        CcpKind::TestRequest | CcpKind::SessionReject | CcpKind::MatchingSymbols
        | CcpKind::ExchangeList | CcpKind::ScheduleReply | CcpKind::Definition =>
            CcpSubject::Lookups,
        CcpKind::History | CcpKind::BarUpdate => CcpSubject::History,
        CcpKind::Other => CcpSubject::Nothing,
    }
}

/// After a message. Those that carry bars change nothing here.
pub open spec fn processed(s: CcpView, msg: Seq<u8>, d: Decoded, a: ArrivalView) -> CcpView {
    match subject(ccp_kind(fix_values(msg))) {
        CcpSubject::Orders => order_message_processed(
            s,
            fix_values(msg),
            d.numbers@,
            a.account,
        ),
        CcpSubject::Account => account_message_processed(s, msg, d.numbers@, a),
        CcpSubject::Lookups => lookup_message_processed(
            s,
            msg,
            d.definition,
            rule_views(d.rules@),
            d.schedule,
            a,
        ),
        CcpSubject::History => s,
        CcpSubject::Nothing => s,
    }
}

/// What a field stands for, in price units.
pub open spec fn price_of_field(v: Values, table: Seq<(Seq<char>, Number)>, tag: u32) -> Option<
    Price,
> {
    match lookup(v, tag) {
        Some(t) => price_of(table, t),
        None => None,
    }
}

/// Reads one row of a list of matches.
fn read_match(m: &HashMap<u32, String>) -> (r: SymbolMatch)
    ensures
        r@ == match_of(map_texts(m@)),
{
    SymbolMatch {
        con_id: match get_field(m, 6008) {
            Some(s) => match parse_i64(s.as_str()) {
                Some(n) => n,
                None => 0,
            },
            None => 0,
        },
        symbol: field_or_empty(m, 55),
        sec_type: field_or_empty(m, 167),
        currency: field_or_empty(m, 15),
    }
}

/// Reads a list of matches.
pub fn parse_matching_symbols_response(msg: &[u8]) -> (r: Vec<SymbolMatch>)
    ensures
        match_views(r@) == matches_in(msg@),
{
    let (_, rows) = read_groups(msg, 55);
    let mut out: Vec<SymbolMatch> = Vec::new();
    let mut i: usize = 0;
    while i < rows.len()
        invariant
            i <= rows.len(),
            out@.len() == i,
            row_values(rows@) == group_scan(split(msg@, SOH), 55).rows,
            forall|k: int| 0 <= k < i ==> (#[trigger] out@[k])@ == matches_in(msg@)[k],
        decreases rows.len() - i,
    {
        proof {
            assert(row_values(rows@)[i as int] == map_texts(rows@[i as int]@));
        }
        out.push(read_match(&rows[i]));
        i = i + 1;
    }
    proof {
        assert(row_values(rows@).len() == rows@.len());
        assert(match_views(out@) =~= matches_in(msg@));
    }
    out
}

impl CcpState {
    /// Takes in a position feed.
    fn handle_position_feed(
        &mut self,
        msg: &[u8],
        table: &NumberTable,
        context: &Context,
        shared: &mut SharedState,
        a: &Arrival,
    )
        requires
            ccp_view(*old(self), context@, *old(shared)).wf(),
        ensures
            ccp_view(*final(self), context@, *final(shared)) == after_position_feed(
                ccp_view(*old(self), context@, *old(shared)),
                msg@,
                table@,
                a@,
            ),
            ccp_view(*final(self), context@, *final(shared)).wf(),
    {
        let rows = match position_feed_rows(msg) {
            Some(r) => r,
            None => return ,
        };
        let ghost start = ccp_view(*self, context@, *shared);
        let ghost r = feed_rows(msg@);
        let mut i: usize = 0;
        while i < rows.len()
            invariant
                i <= rows.len(),
                ccp_view(*self, context@, *shared).wf(),
                self.news_subscriptions == old(self).news_subscriptions,
                self.disconnected == old(self).disconnected,
                r == row_views(rows@),
                ccp_view(*self, context@, *shared) == after_feed_rows(
                    start,
                    r,
                    table@,
                    a@,
                    i as int,
                ),
            decreases rows.len() - i,
        {
            let ghost before = ccp_view(*self, context@, *shared);
            proof {
                assert(r[i as int] == rows@[i as int]@);
            }
            let cost: Price = match table.price(rows[i].a.as_str()) {
                Some(p) => p,
                None => 0,
            };
            handle_feed_row(
                rows[i].con_id,
                rows[i].qty,
                cost,
                context,
                &mut shared.portfolio,
                &mut shared.positions,
            );
            self.lookups.auto_fetch_secdef_if_cold(
                rows[i].con_id,
                &shared.contracts,
                a.connected,
                a.stamp,
                a.now,
            );
            i = i + 1;
        }
        proof {
            assert(row_views(rows@).len() == rows@.len());
        }
    }

    /// Takes in a message about orders, or a bulletin.
    fn handle_order_message(
        &mut self,
        kind: CcpKind,
        m: &HashMap<u32, String>,
        table: &NumberTable,
        context: &mut Context,
        shared: &mut SharedState,
        a: &Arrival,
    )
        requires
            ccp_view(*old(self), old(context)@, *old(shared)).wf(),
            ccp_view(*old(self), old(context)@, *old(shared)).can_count(),
            kind == ccp_kind(map_texts(m@)),
        ensures
            ccp_view(*final(self), final(context)@, *final(shared)).wf(),
            ccp_view(*final(self), final(context)@, *final(shared)) == order_message_processed(
                ccp_view(*old(self), old(context)@, *old(shared)),
                map_texts(m@),
                table@,
                a@.account,
            ),
    {
        match kind {
            CcpKind::ExecReport => {
                let n = table.of_fields(m);
                handle_exec_report(
                    m,
                    &n,
                    &mut self.exec_ids,
                    context,
                    &mut shared.orders,
                    &mut shared.portfolio,
                    &mut shared.contracts,
                    &mut shared.instrument_count,
                    a.account_id,
                );
            },
            CcpKind::CancelReject => {
                handle_cancel_reject(m, context, &mut shared.orders);
            },
            CcpKind::News => {
                if let Some(b) = handle_news_bulletin(m, &mut self.bulletin_next_id) {
                    let ghost view = b@;
                    let ghost before = shared.bulletins@;
                    shared.bulletins.push(b);
                    proof {
                        assert(bulletin_views(shared.bulletins@) =~= bulletin_views(before).push(
                            view,
                        ));
                    }
                }
            },
            CcpKind::Commission => {
                let n = table.of_fields(m);
                handle_commission_report(m, &n, &mut self.commissions, &mut shared.orders);
            },
            _ => {},
        }
    }

    /// Takes in a message about the account.
    fn handle_account_message(
        &mut self,
        kind: CcpKind,
        m: &HashMap<u32, String>,
        msg: &[u8],
        table: &NumberTable,
        context: &mut Context,
        shared: &mut SharedState,
        a: &Arrival,
    )
        requires
            ccp_view(*old(self), old(context)@, *old(shared)).wf(),
            ccp_view(*old(self), old(context)@, *old(shared)).can_count(),
            map_texts(m@) == fix_values(msg@),
            kind == ccp_kind(map_texts(m@)),
        ensures
            ccp_view(*final(self), final(context)@, *final(shared)).wf(),
            ccp_view(*final(self), final(context)@, *final(shared)) == account_message_processed(
                ccp_view(*old(self), old(context)@, *old(shared)),
                msg@,
                table@,
                a@,
            ),
    {
        match kind {
            CcpKind::PositionFeed => {
                self.handle_position_feed(msg, table, context, shared, a);
                shared.portfolio.set_account_download_complete();
            },
            CcpKind::AccountSummary => {
                let n = table.of_fields(m);
                handle_account_summary(&n, context, &mut shared.portfolio);
                shared.portfolio.set_account_download_complete();
            },
            CcpKind::PnlSeeds => {
                handle_pnl_response(msg, &mut shared.portfolio);
            },
            CcpKind::AccountUpdate => {
                handle_account_update(msg, table, context, &mut shared.portfolio);
            },
            CcpKind::Portfolio => {
                handle_portfolio_message(
                    msg,
                    table,
                    context,
                    &mut shared.portfolio,
                    &mut shared.positions,
                );
            },
            _ => {},
        }
    }

    /// Takes in a message about lookups, or one that asks for a sign of life.
    fn handle_lookup_message(
        &mut self,
        kind: CcpKind,
        m: &HashMap<u32, String>,
        msg: &[u8],
        definition: Option<ContractDefinition>,
        rules: Vec<MarketRule>,
        schedule: Option<Schedule>,
        context: &mut Context,
        shared: &mut SharedState,
        a: &Arrival,
    )
        requires
            ccp_view(*old(self), old(context)@, *old(shared)).wf(),
            ccp_view(*old(self), old(context)@, *old(shared)).can_count(),
            map_texts(m@) == fix_values(msg@),
            kind == ccp_kind(map_texts(m@)),
        ensures
            ccp_view(*final(self), final(context)@, *final(shared)).wf(),
            ccp_view(*final(self), final(context)@, *final(shared)) == lookup_message_processed(
                ccp_view(*old(self), old(context)@, *old(shared)),
                msg@,
                definition,
                rule_views(rules@),
                schedule,
                a@,
            ),
    {
        match kind {
            CcpKind::TestRequest => {
                let id = field_or_empty(m, 112);
                self.lookups.send(a.connected, test_reply_fields(a.stamp, id.as_str()));
            },
            CcpKind::SessionReject => {
                let reason: &str = match get_field(m, 58) {
                    Some(t) => t.as_str(),
                    None => "unknown",
                };
                self.lookups.handle_session_reject(reason);
            },
            CcpKind::MatchingSymbols => {
                let ready = extract_tag_value(msg, "146=").is_some();
                let echoed: Option<u32> = match extract_tag_value(msg, "320=") {
                    Some(t) => parse_u32(t.as_str()),
                    None => None,
                };
                self.lookups.handle_matches(ready, echoed, parse_matching_symbols_response(msg));
            },
            CcpKind::ExchangeList => {
                shared.depth_exchanges = handle_exchange_list(msg);
            },
            CcpKind::ScheduleReply => {
                if let Some(key) = extract_tag_value(msg, "6256=") {
                    self.lookups.handle_schedule_reply(key.as_str(), schedule);
                }
            },
            CcpKind::Definition => {
                if let Some(def) = definition {
                    let id: Option<&str> = match get_field(m, 320) {
                        Some(t) => Some(t.as_str()),
                        None => None,
                    };
                    let last = crate::protocol::fix::field_is(m, 323, "5")
                        || crate::protocol::fix::field_is(m, 323, "6");
                    self.lookups.handle_definition(
                        id,
                        def,
                        last,
                        &mut shared.contracts,
                        a.connected,
                        a.stamp,
                        a.now,
                    );
                }
                let ghost before = shared.market_rules@;
                let ghost given = rules@;
                let mut rules = rules;
                shared.market_rules.append(&mut rules);
                proof {
                    assert(rule_views(shared.market_rules@) =~= rule_views(before) + rule_views(
                        given,
                    ));
                }
            },
            _ => {},
        }
    }

    /// Takes in a message. What it carries that the library does not read is in `d`.
    pub fn process_ccp_message(
        &mut self,
        msg: &[u8],
        d: Decoded,
        context: &mut Context,
        shared: &mut SharedState,
        a: &Arrival,
    )
        requires
            ccp_view(*old(self), old(context)@, *old(shared)).wf(),
            ccp_view(*old(self), old(context)@, *old(shared)).can_count(),
        ensures
            ccp_view(*final(self), final(context)@, *final(shared)).wf(),
            ccp_view(*final(self), final(context)@, *final(shared)) == processed(
                ccp_view(*old(self), old(context)@, *old(shared)),
                msg@,
                d,
                a@,
            ),
    {
        let m = fix_parse(msg);
        let kind = message_kind(&m);
        match subject_of(kind) {
            CcpSubject::Orders => {
                self.handle_order_message(kind, &m, &d.numbers, context, shared, a);
            },
            CcpSubject::Account => {
                self.handle_account_message(kind, &m, msg, &d.numbers, context, shared, a);
            },
            CcpSubject::Lookups => {
                self.handle_lookup_message(
                    kind,
                    &m,
                    msg,
                    d.definition,
                    d.rules,
                    d.schedule,
                    context,
                    shared,
                    a,
                );
            },
            CcpSubject::History | CcpSubject::Nothing => {},
        }
    }
}

} // verus!
