//! What the engine reports to its client.
use std::collections::HashMap;
use vstd::prelude::*;

use crate::engine::context::{zero_account, AccountState};
use crate::engine::order::{OrderStatus, Side};
use crate::types::{InstrumentId, OrderId, Price, Qty};

verus! {

broadcast use vstd::std_specs::hash::group_hash_axioms;

/// The text in an option.
pub open spec fn text_of_option(s: Option<String>) -> Option<Seq<char>> {
    match s {
        Some(t) => Some(t@),
        None => None,
    }
}

/// A change of an order.
#[derive(Debug, Clone, Copy, PartialEq, Eq, Structural)]
pub struct OrderUpdate {
    pub order_id: OrderId,
    pub instrument: InstrumentId,
    pub status: OrderStatus,
    pub filled_qty_fixed: Qty,
    pub remaining_qty_fixed: Qty,
    pub avg_fill_price: Price,
    pub perm_id: i64,
    pub parent_id: i64,
    pub timestamp_ns: u64,
}

/// A fill: the print, and the order's totals after it.
#[derive(Debug, Clone, Copy, PartialEq, Eq, Structural)]
pub struct Fill {
    pub instrument: InstrumentId,
    pub order_id: OrderId,
    pub side: Side,
    pub price: Price,
    pub qty_fixed: Qty,
    pub remaining_fixed: Qty,
    pub cum_qty_fixed: Qty,
    pub avg_price: Price,
    pub commission: Price,
    pub timestamp_ns: u64,
}

/// What an order would do to the account.
#[derive(Debug, Clone, Copy, PartialEq, Eq, Structural)]
pub struct WhatIfResponse {
    pub order_id: OrderId,
    pub instrument: InstrumentId,
    pub init_margin_before: Price,
    pub maint_margin_before: Price,
    pub equity_with_loan_before: Price,
    pub init_margin_after: Price,
    pub maint_margin_after: Price,
    pub equity_with_loan_after: Price,
    pub commission: Price,
}

/// An order that has ended.
#[derive(Debug, Clone, Copy, PartialEq, Eq, Structural)]
pub struct CompletedOrder {
    pub order_id: OrderId,
    pub instrument: InstrumentId,
    pub status: OrderStatus,
    pub filled_qty_fixed: Qty,
    pub timestamp_ns: u64,
}

/// A cancel or replace request that the server refused.
#[derive(Debug, Clone, Copy, PartialEq, Eq, Structural)]
pub struct CancelReject {
    pub order_id: OrderId,
    pub instrument: InstrumentId,
    pub reject_type: u8,
    pub reason_code: i32,
    pub timestamp_ns: u64,
}

/// What a field that reads as a decimal number stands for.
#[derive(Debug, Clone, Copy, PartialEq, Eq, Structural)]
pub struct Number {
    /// The number in price units, rounded toward zero.
    pub scaled: Price,
    /// The number in price units, rounded to the nearest.
    pub rounded: Price,
    /// The number without its decimals.
    pub whole: i64,
    /// Whether it is finite.
    pub finite: bool,
    /// Whether it is 0.
    pub zero: bool,
}

/// What a fill report says of the execution besides its price and quantity.
pub struct FillExec {
    pub exec_id: String,
    /// Seconds since 1 January 1970 UTC.
    pub time_secs: Option<i64>,
    pub exchange: String,
    pub client_id: i64,
    pub model_code: String,
    pub order_ref: String,
}

/// What a [`FillExec`] holds.
pub ghost struct FillExecView {
    pub exec_id: Seq<char>,
    pub time_secs: Option<i64>,
    pub exchange: Seq<char>,
    pub client_id: i64,
    pub model_code: Seq<char>,
    pub order_ref: Seq<char>,
}

impl View for FillExec {
    type V = FillExecView;

    open spec fn view(&self) -> FillExecView {
        FillExecView {
            exec_id: self.exec_id@,
            time_secs: self.time_secs,
            exchange: self.exchange@,
            client_id: self.client_id,
            model_code: self.model_code@,
            order_ref: self.order_ref@,
        }
    }
}

/// What an execution cost. Amounts are given as the text that the server sent; an empty text
/// stands for 0, and no text for an amount that is not set.
pub struct CommissionReport {
    pub exec_id: String,
    pub commission_and_fees: String,
    pub currency: String,
    pub realized_pnl: Option<String>,
    pub yield_amount: Option<String>,
    pub yield_redemption_date: String,
}

/// What a [`CommissionReport`] holds.
pub ghost struct CommissionReportView {
    pub exec_id: Seq<char>,
    pub commission_and_fees: Seq<char>,
    pub currency: Seq<char>,
    pub realized_pnl: Option<Seq<char>>,
    pub yield_amount: Option<Seq<char>>,
    pub yield_redemption_date: Seq<char>,
}

impl View for CommissionReport {
    type V = CommissionReportView;

    open spec fn view(&self) -> CommissionReportView {
        CommissionReportView {
            exec_id: self.exec_id@,
            commission_and_fees: self.commission_and_fees@,
            currency: self.currency@,
            realized_pnl: text_of_option(self.realized_pnl),
            yield_amount: text_of_option(self.yield_amount),
            yield_redemption_date: self.yield_redemption_date@,
        }
    }
}

/// A contract.
pub struct Contract {
    pub con_id: i64,
    pub symbol: String,
    pub sec_type: String,
    pub exchange: String,
    pub currency: String,
    pub local_symbol: String,
    pub primary_exchange: String,
    pub trading_class: String,
    pub multiplier: String,
}

/// What a [`Contract`] holds.
pub ghost struct ContractView {
    pub con_id: i64,
    pub symbol: Seq<char>,
    pub sec_type: Seq<char>,
    pub exchange: Seq<char>,
    pub currency: Seq<char>,
    pub local_symbol: Seq<char>,
    pub primary_exchange: Seq<char>,
    pub trading_class: Seq<char>,
    pub multiplier: Seq<char>,
}

impl View for Contract {
    type V = ContractView;

    open spec fn view(&self) -> ContractView {
        ContractView {
            con_id: self.con_id,
            symbol: self.symbol@,
            sec_type: self.sec_type@,
            exchange: self.exchange@,
            currency: self.currency@,
            local_symbol: self.local_symbol@,
            primary_exchange: self.primary_exchange@,
            trading_class: self.trading_class@,
            multiplier: self.multiplier@,
        }
    }
}

/// An order as a report describes it. Numbers are given as the text that the server sent.
pub struct OrderInfo {
    pub order_id: OrderId,
    pub action: String,
    pub total_quantity: String,
    pub order_type: String,
    pub lmt_price: String,
    pub aux_price: String,
    pub tif: String,
    pub account: String,
    pub perm_id: i64,
    pub filled_quantity: String,
    pub outside_rth: bool,
    pub clearing_intent: String,
    pub auto_cancel_date: String,
    pub submitter: String,
    pub oca_type: i32,
    pub use_price_mgmt_algo: i32,
    pub trail_stop_price: String,
    pub algo_strategy: String,
}

/// What a [`OrderInfo`] holds.
pub ghost struct OrderInfoView {
    pub order_id: OrderId,
    pub action: Seq<char>,
    pub total_quantity: Seq<char>,
    pub order_type: Seq<char>,
    pub lmt_price: Seq<char>,
    pub aux_price: Seq<char>,
    pub tif: Seq<char>,
    pub account: Seq<char>,
    pub perm_id: i64,
    pub filled_quantity: Seq<char>,
    pub outside_rth: bool,
    pub clearing_intent: Seq<char>,
    pub auto_cancel_date: Seq<char>,
    pub submitter: Seq<char>,
    pub oca_type: i32,
    pub use_price_mgmt_algo: i32,
    pub trail_stop_price: Seq<char>,
    pub algo_strategy: Seq<char>,
}

impl View for OrderInfo {
    type V = OrderInfoView;

    open spec fn view(&self) -> OrderInfoView {
        OrderInfoView {
            order_id: self.order_id,
            action: self.action@,
            total_quantity: self.total_quantity@,
            order_type: self.order_type@,
            lmt_price: self.lmt_price@,
            aux_price: self.aux_price@,
            tif: self.tif@,
            account: self.account@,
            perm_id: self.perm_id,
            filled_quantity: self.filled_quantity@,
            outside_rth: self.outside_rth,
            clearing_intent: self.clearing_intent@,
            auto_cancel_date: self.auto_cancel_date@,
            submitter: self.submitter@,
            oca_type: self.oca_type,
            use_price_mgmt_algo: self.use_price_mgmt_algo,
            trail_stop_price: self.trail_stop_price@,
            algo_strategy: self.algo_strategy@,
        }
    }
}

/// The state of an order as a report describes it.
pub struct OrderState {
    pub status: String,
    pub commission_and_fees: String,
    pub completed_time: String,
    pub completed_status: String,
}

/// What a [`OrderState`] holds.
pub ghost struct OrderStateView {
    pub status: Seq<char>,
    pub commission_and_fees: Seq<char>,
    pub completed_time: Seq<char>,
    pub completed_status: Seq<char>,
}

impl View for OrderState {
    type V = OrderStateView;

    open spec fn view(&self) -> OrderStateView {
        OrderStateView {
            status: self.status@,
            commission_and_fees: self.commission_and_fees@,
            completed_time: self.completed_time@,
            completed_status: self.completed_status@,
        }
    }
}

/// The last execution of an order as a report describes it. Numbers are given as the text that
/// the server sent.
pub struct Execution {
    pub exec_id: String,
    pub time: String,
    pub acct_number: String,
    pub exchange: String,
    pub side: String,
    pub shares: Qty,
    pub price: String,
    pub order_id: OrderId,
    pub cum_qty: String,
    pub avg_price: String,
    pub last_liquidity: i32,
}

/// What a [`Execution`] holds.
pub ghost struct ExecutionView {
    pub exec_id: Seq<char>,
    pub time: Seq<char>,
    pub acct_number: Seq<char>,
    pub exchange: Seq<char>,
    pub side: Seq<char>,
    pub shares: Qty,
    pub price: Seq<char>,
    pub order_id: OrderId,
    pub cum_qty: Seq<char>,
    pub avg_price: Seq<char>,
    pub last_liquidity: i32,
}

impl View for Execution {
    type V = ExecutionView;

    open spec fn view(&self) -> ExecutionView {
        ExecutionView {
            exec_id: self.exec_id@,
            time: self.time@,
            acct_number: self.acct_number@,
            exchange: self.exchange@,
            side: self.side@,
            shares: self.shares,
            price: self.price@,
            order_id: self.order_id,
            cum_qty: self.cum_qty@,
            avg_price: self.avg_price@,
            last_liquidity: self.last_liquidity,
        }
    }
}

/// A news bulletin.
pub struct NewsBulletin {
    pub msg_id: i32,
    pub msg_type: i32,
    pub message: String,
    pub exchange: String,
}

/// What a [`NewsBulletin`] holds.
pub ghost struct NewsBulletinView {
    pub msg_id: i32,
    pub msg_type: i32,
    pub message: Seq<char>,
    pub exchange: Seq<char>,
}

impl View for NewsBulletin {
    type V = NewsBulletinView;

    open spec fn view(&self) -> NewsBulletinView {
        NewsBulletinView {
            msg_id: self.msg_id,
            msg_type: self.msg_type,
            message: self.message@,
            exchange: self.exchange@,
        }
    }
}

/// A position, with the marks of the last portfolio report.
pub struct PositionInfo {
    pub con_id: i64,
    pub position_fixed: Qty,
    pub avg_cost: Price,
    pub symbol: String,
    pub sec_type: String,
    pub currency: String,
    pub multiplier: String,
    pub market_price: Price,
    pub market_value: Price,
    pub unrealized_pnl: Price,
    pub realized_pnl: Price,
}

/// What a [`PositionInfo`] holds.
pub ghost struct PositionInfoView {
    pub con_id: i64,
    pub position_fixed: Qty,
    pub avg_cost: Price,
    pub symbol: Seq<char>,
    pub sec_type: Seq<char>,
    pub currency: Seq<char>,
    pub multiplier: Seq<char>,
    pub market_price: Price,
    pub market_value: Price,
    pub unrealized_pnl: Price,
    pub realized_pnl: Price,
}

impl View for PositionInfo {
    type V = PositionInfoView;

    open spec fn view(&self) -> PositionInfoView {
        PositionInfoView {
            con_id: self.con_id,
            position_fixed: self.position_fixed,
            avg_cost: self.avg_cost,
            symbol: self.symbol@,
            sec_type: self.sec_type@,
            currency: self.currency@,
            multiplier: self.multiplier@,
            market_price: self.market_price,
            market_value: self.market_value,
            unrealized_pnl: self.unrealized_pnl,
            realized_pnl: self.realized_pnl,
        }
    }
}

/// A position at midnight. Amounts are given as the text that the server sent; an empty text
/// stands for 0.
pub struct MidnightSeed {
    pub con_id: i64,
    pub qty_midnight_fixed: Qty,
    pub money_traded: String,
    pub realized_pnl: String,
}

/// What a [`MidnightSeed`] holds.
pub ghost struct MidnightSeedView {
    pub con_id: i64,
    pub qty_midnight_fixed: Qty,
    pub money_traded: Seq<char>,
    pub realized_pnl: Seq<char>,
}

impl View for MidnightSeed {
    type V = MidnightSeedView;

    open spec fn view(&self) -> MidnightSeedView {
        MidnightSeedView {
            con_id: self.con_id,
            qty_midnight_fixed: self.qty_midnight_fixed,
            money_traded: self.money_traded@,
            realized_pnl: self.realized_pnl@,
        }
    }
}

/// All that a report says of an order.
pub struct RichOrderInfo {
    pub contract: Contract,
    pub order: OrderInfo,
    pub order_state: OrderState,
    pub last_exec: Execution,
}

/// What a [`RichOrderInfo`] holds.
pub ghost struct RichOrderInfoView {
    pub contract: ContractView,
    pub order: OrderInfoView,
    pub order_state: OrderStateView,
    pub last_exec: ExecutionView,
}

impl View for RichOrderInfo {
    type V = RichOrderInfoView;

    open spec fn view(&self) -> RichOrderInfoView {
        RichOrderInfoView {
            contract: self.contract@,
            order: self.order@,
            order_state: self.order_state@,
            last_exec: self.last_exec@,
        }
    }
}

/// What is to be reported about orders.
pub struct OrderReports {
    pub errors: Vec<(OrderId, i64, String)>,
    pub updates: Vec<OrderUpdate>,
    pub fills: Vec<(Fill, FillExec)>,
    pub what_ifs: Vec<WhatIfResponse>,
    pub completed: Vec<CompletedOrder>,
    pub cancel_rejects: Vec<CancelReject>,
    pub commissions: Vec<CommissionReport>,
    pub infos: HashMap<OrderId, RichOrderInfo>,
}

/// What is held for reporting about orders.
pub ghost struct OrderReportsView {
    pub errors: Seq<(OrderId, i64, Seq<char>)>,
    pub updates: Seq<OrderUpdate>,
    pub fills: Seq<(Fill, FillExecView)>,
    pub what_ifs: Seq<WhatIfResponse>,
    pub completed: Seq<CompletedOrder>,
    pub cancel_rejects: Seq<CancelReject>,
    pub commissions: Seq<CommissionReportView>,
    pub infos: Map<OrderId, RichOrderInfoView>,
}

impl View for OrderReports {
    type V = OrderReportsView;

    open spec fn view(&self) -> OrderReportsView {
        OrderReportsView {
            errors: self.errors@.map_values(|e: (OrderId, i64, String)| (e.0, e.1, e.2@)),
            updates: self.updates@,
            fills: self.fills@.map_values(|f: (Fill, FillExec)| (f.0, f.1@)),
            what_ifs: self.what_ifs@,
            completed: self.completed@,
            cancel_rejects: self.cancel_rejects@,
            commissions: self.commissions@.map_values(|c: CommissionReport| c@),
            infos: self.infos@.map_values(|i: RichOrderInfo| i@),
        }
    }
}

impl OrderReports {
    /// Nothing to report.
    pub fn new() -> (r: Self)
        ensures
            r@ == no_order_reports(),
    {
        let r = OrderReports {
            errors: Vec::new(),
            updates: Vec::new(),
            fills: Vec::new(),
            what_ifs: Vec::new(),
            completed: Vec::new(),
            cancel_rejects: Vec::new(),
            commissions: Vec::new(),
            infos: HashMap::new(),
        };
        proof {
            assert(r@.errors =~= Seq::empty());
            assert(r@.updates =~= Seq::empty());
            assert(r@.fills =~= Seq::empty());
            assert(r@.what_ifs =~= Seq::empty());
            assert(r@.completed =~= Seq::empty());
            assert(r@.cancel_rejects =~= Seq::empty());
            assert(r@.commissions =~= Seq::empty());
            assert(r@.infos =~= Map::empty());
        }
        r
    }

    /// Reports an error about an order.
    pub fn push_order_error(&mut self, order_id: OrderId, code: i64, message: String)
        ensures
            final(self)@ == (OrderReportsView {
                errors: old(self)@.errors.push((order_id, code, message@)),
                ..old(self)@
            }),
    {
        let ghost text = message@;
        self.errors.push((order_id, code, message));
        proof {
            assert(self@.errors =~= old(self)@.errors.push((order_id, code, text)));
            assert(self@.fills =~= old(self)@.fills);
            assert(self@.commissions =~= old(self)@.commissions);
            assert(self@.infos =~= old(self)@.infos);
        }
    }

    /// Reports a change of an order.
    pub fn push_order_update(&mut self, update: OrderUpdate)
        ensures
            final(self)@ == (OrderReportsView {
                updates: old(self)@.updates.push(update),
                ..old(self)@
            }),
    {
        self.updates.push(update);
        proof {
            assert(self@.errors =~= old(self)@.errors);
            assert(self@.fills =~= old(self)@.fills);
            assert(self@.commissions =~= old(self)@.commissions);
            assert(self@.infos =~= old(self)@.infos);
        }
    }

    /// Reports a fill.
    pub fn push_fill_with_exec(&mut self, fill: Fill, exec: FillExec)
        ensures
            final(self)@ == (OrderReportsView {
                fills: old(self)@.fills.push((fill, exec@)),
                ..old(self)@
            }),
    {
        let ghost view = exec@;
        self.fills.push((fill, exec));
        proof {
            assert(self@.errors =~= old(self)@.errors);
            assert(self@.fills =~= old(self)@.fills.push((fill, view)));
            assert(self@.commissions =~= old(self)@.commissions);
            assert(self@.infos =~= old(self)@.infos);
        }
    }

    /// Reports what an order would do to the account.
    pub fn push_what_if(&mut self, response: WhatIfResponse)
        ensures
            final(self)@ == (OrderReportsView {
                what_ifs: old(self)@.what_ifs.push(response),
                ..old(self)@
            }),
    {
        self.what_ifs.push(response);
        proof {
            assert(self@.errors =~= old(self)@.errors);
            assert(self@.fills =~= old(self)@.fills);
            assert(self@.commissions =~= old(self)@.commissions);
            assert(self@.infos =~= old(self)@.infos);
        }
    }

    /// Reports that an order has ended.
    pub fn push_completed_order(&mut self, order: CompletedOrder)
        ensures
            final(self)@ == (OrderReportsView {
                completed: old(self)@.completed.push(order),
                ..old(self)@
            }),
    {
        self.completed.push(order);
        proof {
            assert(self@.errors =~= old(self)@.errors);
            assert(self@.fills =~= old(self)@.fills);
            assert(self@.commissions =~= old(self)@.commissions);
            assert(self@.infos =~= old(self)@.infos);
        }
    }

    /// Reports a refused cancel or replace request.
    pub fn push_cancel_reject(&mut self, reject: CancelReject)
        ensures
            final(self)@ == (OrderReportsView {
                cancel_rejects: old(self)@.cancel_rejects.push(reject),
                ..old(self)@
            }),
    {
        self.cancel_rejects.push(reject);
        proof {
            assert(self@.errors =~= old(self)@.errors);
            assert(self@.fills =~= old(self)@.fills);
            assert(self@.commissions =~= old(self)@.commissions);
            assert(self@.infos =~= old(self)@.infos);
        }
    }

    /// Reports what an execution cost.
    pub fn push_commission_report(&mut self, report: CommissionReport)
        ensures
            final(self)@ == (OrderReportsView {
                commissions: old(self)@.commissions.push(report@),
                ..old(self)@
            }),
    {
        let ghost view = report@;
        self.commissions.push(report);
        proof {
            assert(self@.errors =~= old(self)@.errors);
            assert(self@.fills =~= old(self)@.fills);
            assert(self@.commissions =~= old(self)@.commissions.push(view));
            assert(self@.infos =~= old(self)@.infos);
        }
    }

    /// Keeps what a report says of an order.
    pub fn push_order_info(&mut self, order_id: OrderId, info: RichOrderInfo)
        ensures
            final(self)@ == (OrderReportsView {
                infos: old(self)@.infos.insert(order_id, info@),
                ..old(self)@
            }),
    {
        let ghost view = info@;
        self.infos.insert(order_id, info);
        proof {
            assert(self@.errors =~= old(self)@.errors);
            assert(self@.fills =~= old(self)@.fills);
            assert(self@.commissions =~= old(self)@.commissions);
            assert(self@.infos =~= old(self)@.infos.insert(order_id, view));
        }
    }

    /// Forgets what reports said of an order.
    pub fn remove_order_info(&mut self, order_id: OrderId)
        ensures
            final(self)@ == (OrderReportsView {
                infos: old(self)@.infos.remove(order_id),
                ..old(self)@
            }),
    {
        self.infos.remove(&order_id);
        proof {
            assert(self@.errors =~= old(self)@.errors);
            assert(self@.fills =~= old(self)@.fills);
            assert(self@.commissions =~= old(self)@.commissions);
            assert(self@.infos =~= old(self)@.infos.remove(order_id));
        }
    }

    /// Takes the changes of orders that are to be reported.
    pub fn drain_order_updates(&mut self) -> (r: Vec<OrderUpdate>)
        ensures
            r@ == old(self)@.updates,
            final(self)@ == (OrderReportsView { updates: Seq::empty(), ..old(self)@ }),
    {
        let mut out: Vec<OrderUpdate> = Vec::new();
        out.append(&mut self.updates);
        proof {
            assert(out@ =~= old(self)@.updates);
            assert(self@.updates =~= Seq::empty());
            assert(self@.errors =~= old(self)@.errors);
            assert(self@.fills =~= old(self)@.fills);
            assert(self@.commissions =~= old(self)@.commissions);
            assert(self@.infos =~= old(self)@.infos);
        }
        out
    }
}

/// Nothing to report about orders.
pub open spec fn no_order_reports() -> OrderReportsView {
    OrderReportsView {
        errors: Seq::empty(),
        updates: Seq::empty(),
        fills: Seq::empty(),
        what_ifs: Seq::empty(),
        completed: Seq::empty(),
        cancel_rejects: Seq::empty(),
        commissions: Seq::empty(),
        infos: Map::empty(),
    }
}

// ---------------------------------------------------------------------------------------
// Positions
// ---------------------------------------------------------------------------------------

/// What is to be reported about positions and the account.
pub struct Portfolio {
    /// The position in each instrument.
    pub positions: HashMap<InstrumentId, Qty>,
    /// The positions by contract.
    pub infos: HashMap<i64, PositionInfo>,
    pub account: AccountState,
    pub seeds: Vec<MidnightSeed>,
    /// Whether the account's values have arrived.
    pub download_complete: bool,
}

/// What a [`Portfolio`] holds.
pub ghost struct PortfolioView {
    pub positions: Map<InstrumentId, Qty>,
    pub infos: Map<i64, PositionInfoView>,
    pub account: AccountState,
    pub seeds: Seq<MidnightSeedView>,
    pub download_complete: bool,
}

impl View for Portfolio {
    type V = PortfolioView;

    open spec fn view(&self) -> PortfolioView {
        PortfolioView {
            positions: self.positions@,
            infos: self.infos@.map_values(|i: PositionInfo| i@),
            account: self.account,
            seeds: self.seeds@.map_values(|s: MidnightSeed| s@),
            download_complete: self.download_complete,
        }
    }
}

/// The new text, or the old one when the new one is empty.
pub open spec fn newer_text(new: Seq<char>, old_text: Seq<char>) -> Seq<char> {
    if new.len() > 0 {
        new
    } else {
        old_text
    }
}

/// A position with what a later report says of it. The marks come from portfolio reports alone,
/// and a report without a symbol, security type, currency or multiplier leaves the known one.
pub open spec fn merged_position(known: PositionInfoView, new: PositionInfoView) -> PositionInfoView {
    PositionInfoView {
        con_id: new.con_id,
        position_fixed: new.position_fixed,
        avg_cost: new.avg_cost,
        symbol: newer_text(new.symbol, known.symbol),
        sec_type: newer_text(new.sec_type, known.sec_type),
        currency: newer_text(new.currency, known.currency),
        multiplier: newer_text(new.multiplier, known.multiplier),
        ..known
    }
}

impl PortfolioView {
    /// With what a report says of a position.
    pub open spec fn with_info(self, info: PositionInfoView) -> PortfolioView {
        PortfolioView {
            infos: self.infos.insert(
                info.con_id,
                if self.infos.contains_key(info.con_id) {
                    merged_position(self.infos[info.con_id], info)
                } else {
                    info
                },
            ),
            ..self
        }
    }

    /// With the marks of a position, if the position is known.
    pub open spec fn with_marks(
        self,
        con_id: i64,
        market_price: Price,
        market_value: Price,
        unrealized_pnl: Price,
        realized_pnl: Price,
    ) -> PortfolioView {
        if self.infos.contains_key(con_id) {
            PortfolioView {
                infos: self.infos.insert(
                    con_id,
                    PositionInfoView {
                        market_price,
                        market_value,
                        unrealized_pnl,
                        realized_pnl,
                        ..self.infos[con_id]
                    },
                ),
                ..self
            }
        } else {
            self
        }
    }

    /// With the position in an instrument.
    pub open spec fn with_position(self, instrument: InstrumentId, qty: Qty) -> PortfolioView {
        PortfolioView { positions: self.positions.insert(instrument, qty), ..self }
    }
}

/// The new text, or the old one when the new one is empty.
fn newer(new: String, old_text: String) -> (r: String)
    ensures
        r@ == newer_text(new@, old_text@),
{
    if new.as_str().is_empty() {
        old_text
    } else {
        new
    }
}

impl Portfolio {
    /// Nothing is known.
    pub fn new() -> (r: Self)
        ensures
            r@ == empty_portfolio(),
    {
        let r = Portfolio {
            positions: HashMap::new(),
            infos: HashMap::new(),
            account: AccountState::default(),
            seeds: Vec::new(),
            download_complete: false,
        };
        proof {
            assert(r@.positions =~= Map::empty());
            assert(r@.infos =~= Map::empty());
            assert(r@.seeds =~= Seq::empty());
        }
        r
    }

    /// Keeps what a report says of a position.
    pub fn set_position_info(&mut self, info: PositionInfo)
        ensures
            final(self)@ == old(self)@.with_info(info@),
    {
        let ghost view = info@;
        let con_id = info.con_id;
        match self.infos.remove(&con_id) {
            None => {
                self.infos.insert(con_id, info);
                proof {
                    assert(self@.infos =~= old(self)@.infos.insert(con_id, view));
                    assert(self@.seeds =~= old(self)@.seeds);
                }
            },
            Some(known) => {
                let ghost before = known@;
                let merged = PositionInfo {
                    con_id,
                    position_fixed: info.position_fixed,
                    avg_cost: info.avg_cost,
                    symbol: newer(info.symbol, known.symbol),
                    sec_type: newer(info.sec_type, known.sec_type),
                    currency: newer(info.currency, known.currency),
                    multiplier: newer(info.multiplier, known.multiplier),
                    market_price: known.market_price,
                    market_value: known.market_value,
                    unrealized_pnl: known.unrealized_pnl,
                    realized_pnl: known.realized_pnl,
                };
                let ghost after = merged@;
                self.infos.insert(con_id, merged);
                proof {
                    assert(before == old(self)@.infos[con_id]);
                    assert(after == merged_position(before, view));
                    assert(self@.infos =~= old(self)@.infos.insert(con_id, after));
                    assert(self@.seeds =~= old(self)@.seeds);
                }
            },
        }
    }

    /// Keeps the marks of a position, if the position is known.
    pub fn set_position_marks(
        &mut self,
        con_id: i64,
        market_price: Price,
        market_value: Price,
        unrealized_pnl: Price,
        realized_pnl: Price,
    )
        ensures
            final(self)@ == old(self)@.with_marks(
                con_id,
                market_price,
                market_value,
                unrealized_pnl,
                realized_pnl,
            ),
    {
        if let Some(known) = self.infos.remove(&con_id) {
            let ghost before = known@;
            let marked = PositionInfo {
                market_price,
                market_value,
                unrealized_pnl,
                realized_pnl,
                ..known
            };
            let ghost after = marked@;
            self.infos.insert(con_id, marked);
            proof {
                assert(before == old(self)@.infos[con_id]);
                assert(self@.infos =~= old(self)@.infos.insert(con_id, after));
                assert(self@.seeds =~= old(self)@.seeds);
            }
        } else {
            proof {
                assert(self@.infos =~= old(self)@.infos);
                assert(self@.seeds =~= old(self)@.seeds);
            }
        }
    }

    /// Keeps the position in an instrument.
    pub fn set_position_fixed(&mut self, instrument: InstrumentId, qty: Qty)
        ensures
            final(self)@ == old(self)@.with_position(instrument, qty),
    {
        self.positions.insert(instrument, qty);
        proof {
            assert(self@.infos =~= old(self)@.infos);
            assert(self@.seeds =~= old(self)@.seeds);
        }
    }

    /// The position in an instrument.
    pub fn position_fixed(&self, instrument: InstrumentId) -> (r: Qty)
        ensures
            r == (if self@.positions.contains_key(instrument) {
                self@.positions[instrument]
            } else {
                0
            }),
    {
        match self.positions.get(&instrument) {
            Some(q) => *q,
            None => 0,
        }
    }

    /// Keeps the account's values.
    pub fn set_account(&mut self, account: AccountState)
        ensures
            final(self)@ == (PortfolioView { account, ..old(self)@ }),
    {
        self.account = account;
    }

    /// Notes that the account's values have arrived.
    pub fn set_account_download_complete(&mut self)
        ensures
            final(self)@ == (PortfolioView { download_complete: true, ..old(self)@ }),
    {
        self.download_complete = true;
    }

    /// Keeps the positions at midnight.
    pub fn set_midnight_seeds(&mut self, seeds: Vec<MidnightSeed>)
        ensures
            final(self)@ == (PortfolioView {
                seeds: seeds@.map_values(|s: MidnightSeed| s@),
                ..old(self)@
            }),
    {
        self.seeds = seeds;
    }
}

/// Nothing is known of positions and the account.
pub open spec fn empty_portfolio() -> PortfolioView {
    PortfolioView {
        positions: Map::empty(),
        infos: Map::empty(),
        account: zero_account(),
        seeds: Seq::empty(),
        download_complete: false,
    }
}

/// Reports without marks leave the marks that a portfolio report gave, and set the position and
/// its average cost.
pub proof fn law_lean_report_keeps_marks(p: PortfolioView, info: PositionInfoView)
    requires
        p.infos.contains_key(info.con_id),
    ensures
        ({
            let before = p.infos[info.con_id];
            let after = p.with_info(info).infos[info.con_id];
            &&& after.position_fixed == info.position_fixed
            &&& after.avg_cost == info.avg_cost
            &&& after.market_price == before.market_price
            &&& after.market_value == before.market_value
            &&& after.unrealized_pnl == before.unrealized_pnl
            &&& after.realized_pnl == before.realized_pnl
        }),
{
}

// ---------------------------------------------------------------------------------------
// Contracts
// ---------------------------------------------------------------------------------------

/// A copy of a contract.
pub fn copy_contract(c: &Contract) -> (r: Contract)
    ensures
        r@ == c@,
{
    Contract {
        con_id: c.con_id,
        symbol: c.symbol.clone(),
        sec_type: c.sec_type.clone(),
        exchange: c.exchange.clone(),
        currency: c.currency.clone(),
        local_symbol: c.local_symbol.clone(),
        primary_exchange: c.primary_exchange.clone(),
        trading_class: c.trading_class.clone(),
        multiplier: c.multiplier.clone(),
    }
}

/// A contract of which nothing is known.
pub open spec fn blank_contract() -> ContractView {
    ContractView {
        con_id: 0,
        symbol: Seq::empty(),
        sec_type: Seq::empty(),
        exchange: Seq::empty(),
        currency: Seq::empty(),
        local_symbol: Seq::empty(),
        primary_exchange: Seq::empty(),
        trading_class: Seq::empty(),
        multiplier: Seq::empty(),
    }
}

impl Default for Contract {
    fn default() -> (r: Self)
        ensures
            r@ == blank_contract(),
    {
        Contract {
            con_id: 0,
            symbol: String::new(),
            sec_type: String::new(),
            exchange: String::new(),
            currency: String::new(),
            local_symbol: String::new(),
            primary_exchange: String::new(),
            trading_class: String::new(),
            multiplier: String::new(),
        }
    }
}

/// The contracts that are known, by contract id.
pub struct ContractCache {
    pub contracts: HashMap<i64, Contract>,
}

impl View for ContractCache {
    type V = Map<i64, ContractView>;

    open spec fn view(&self) -> Map<i64, ContractView> {
        self.contracts@.map_values(|c: Contract| c@)
    }
}

impl ContractCache {
    /// No contract is known.
    pub fn new() -> (r: Self)
        ensures
            r@ == Map::<i64, ContractView>::empty(),
    {
        let r = ContractCache { contracts: HashMap::new() };
        proof {
            assert(r@ =~= Map::empty());
        }
        r
    }

    /// Keeps a contract.
    pub fn cache_contract(&mut self, con_id: i64, contract: Contract)
        ensures
            final(self)@ == old(self)@.insert(con_id, contract@),
    {
        let ghost view = contract@;
        self.contracts.insert(con_id, contract);
        proof {
            assert(self@ =~= old(self)@.insert(con_id, view));
        }
    }

    /// Whether a contract is known.
    pub fn knows(&self, con_id: i64) -> (r: bool)
        ensures
            r == self@.contains_key(con_id),
    {
        self.contracts.contains_key(&con_id)
    }

    /// A copy of a known contract.
    pub fn get_contract(&self, con_id: i64) -> (r: Option<Contract>)
        ensures
            match r {
                Some(c) => self@.contains_key(con_id) && c@ == self@[con_id],
                None => !self@.contains_key(con_id),
            },
    {
        match self.contracts.get(&con_id) {
            Some(c) => Some(copy_contract(c)),
            None => None,
        }
    }
}

} // verus!
