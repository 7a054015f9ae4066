//! Orders, and the requests that place, change and cancel them.
use vstd::prelude::*;

use crate::types::{magnitude, InstrumentId, OrderId, Price, Qty, QTY_SCALE};

verus! {

#[derive(Debug, Clone, Copy, PartialEq, Eq, Structural)]
pub enum Side {
    Buy,
    Sell,
    ShortSell,
}

#[derive(Debug, Clone, Copy, PartialEq, Eq, Structural)]
pub enum OrderStatus {
    PendingSubmit,
    PreSubmitted,
    Submitted,
    PartiallyFilled,
    PendingReplace,
    PendingCancel,
    Filled,
    Cancelled,
    Rejected,
    /// The connection was lost, and with it what the server knows of the order.
    Uncertain,
}

/// A tracked order.
#[derive(Debug, Clone, Copy, PartialEq, Eq, Structural)]
pub struct Order {
    pub order_id: OrderId,
    pub instrument: InstrumentId,
    pub side: Side,
    pub price: Price,
    pub qty_fixed: Qty,
    pub filled_fixed: Qty,
    pub status: OrderStatus,
    pub ord_type: u8,
    pub tif: u8,
    pub stop_price: Price,
}

/// A new order of `qty` whole units, not yet sent and not filled.
pub open spec fn new_order(
    order_id: OrderId,
    instrument: InstrumentId,
    side: Side,
    qty: u32,
    price: Price,
    ord_type: u8,
    tif: u8,
    stop_price: Price,
) -> Order {
    Order {
        order_id,
        instrument,
        side,
        price,
        qty_fixed: (qty * QTY_SCALE) as i64,
        filled_fixed: 0,
        status: OrderStatus::PendingSubmit,
        ord_type,
        tif,
        stop_price,
    }
}

impl Order {
    /// A new order of `qty` whole units, not yet sent and not filled.
    pub fn new(
        order_id: OrderId,
        instrument: InstrumentId,
        side: Side,
        qty: u32,
        price: Price,
        ord_type: u8,
        tif: u8,
        stop_price: Price,
    ) -> (r: Self)
        ensures
            r == new_order(order_id, instrument, side, qty, price, ord_type, tif, stop_price),
    {
        Order {
            order_id,
            instrument,
            side,
            price,
            qty_fixed: qty as i64 * QTY_SCALE,
            filled_fixed: 0,
            status: OrderStatus::PendingSubmit,
            ord_type,
            tif,
            stop_price,
        }
    }
}

/// The name of an order status.
pub open spec fn status_name(status: OrderStatus) -> Seq<char> {
    match status {
        OrderStatus::PendingSubmit => "PendingSubmit"@,
        OrderStatus::PreSubmitted => "PreSubmitted"@,
        OrderStatus::Submitted => "Submitted"@,
        OrderStatus::PartiallyFilled => "PartiallyFilled"@,
        OrderStatus::PendingReplace => "PendingReplace"@,
        OrderStatus::PendingCancel => "PendingCancel"@,
        OrderStatus::Filled => "Filled"@,
        OrderStatus::Cancelled => "Cancelled"@,
        OrderStatus::Rejected => "Rejected"@,
        OrderStatus::Uncertain => "Uncertain"@,
    }
}

/// The name of an order status.
pub fn order_status_str(status: OrderStatus) -> (r: &'static str)
    ensures
        r@ == status_name(status),
{
    match status {
        OrderStatus::PendingSubmit => "PendingSubmit",
        OrderStatus::PreSubmitted => "PreSubmitted",
        OrderStatus::Submitted => "Submitted",
        OrderStatus::PartiallyFilled => "PartiallyFilled",
        OrderStatus::PendingReplace => "PendingReplace",
        OrderStatus::PendingCancel => "PendingCancel",
        OrderStatus::Filled => "Filled",
        OrderStatus::Cancelled => "Cancelled",
        OrderStatus::Rejected => "Rejected",
        OrderStatus::Uncertain => "Uncertain",
    }
}

/// Whether an order with this status is finished.
pub open spec fn is_final(status: OrderStatus) -> bool {
    status == OrderStatus::Filled || status == OrderStatus::Cancelled || status
        == OrderStatus::Rejected
}

// ---------------------------------------------------------------------------------------
// What an order can carry
// ---------------------------------------------------------------------------------------

/// How eagerly an adaptive order seeks its fill.
#[derive(Debug, Clone, Copy, PartialEq, Eq, Structural)]
pub enum AdaptivePriority {
    Patient,
    Normal,
    Urgent,
}

/// The name of an adaptive priority.
pub open spec fn priority_name(p: AdaptivePriority) -> Seq<char> {
    match p {
        AdaptivePriority::Patient => "Patient"@,
        AdaptivePriority::Normal => "Normal"@,
        AdaptivePriority::Urgent => "Urgent"@,
    }
}

impl AdaptivePriority {
    /// The name of the priority.
    pub fn as_str(&self) -> (r: &'static str)
        ensures
            r@ == priority_name(*self),
    {
        match self {
            AdaptivePriority::Patient => "Patient",
            AdaptivePriority::Normal => "Normal",
            AdaptivePriority::Urgent => "Urgent",
        }
    }
}

/// How much an algorithm avoids risk.
#[derive(Debug, Clone, Copy, PartialEq, Eq, Structural)]
pub enum RiskAversion {
    GetDone,
    Aggressive,
    Neutral,
    Passive,
}

/// The name of a risk aversion.
pub open spec fn risk_name(r: RiskAversion) -> Seq<char> {
    match r {
        RiskAversion::GetDone => "Get Done"@,
        RiskAversion::Aggressive => "Aggressive"@,
        RiskAversion::Neutral => "Neutral"@,
        RiskAversion::Passive => "Passive"@,
    }
}

impl RiskAversion {
    /// The name of the risk aversion.
    pub fn as_str(&self) -> (r: &'static str)
        ensures
            r@ == risk_name(*self),
    {
        match self {
            RiskAversion::GetDone => "Get Done",
            RiskAversion::Aggressive => "Aggressive",
            RiskAversion::Neutral => "Neutral",
            RiskAversion::Passive => "Passive",
        }
    }
}

/// What an adjustable stop turns into.
#[derive(Debug, Clone, Copy, PartialEq, Eq, Structural)]
pub enum AdjustedOrderType {
    Stop,
    StopLimit,
    Trail,
    TrailLimit,
}

/// The code of an adjusted order type.
pub open spec fn adjusted_code(t: AdjustedOrderType) -> Seq<char> {
    match t {
        AdjustedOrderType::Stop => "3"@,
        AdjustedOrderType::StopLimit => "4"@,
        AdjustedOrderType::Trail => "T"@,
        AdjustedOrderType::TrailLimit => "TL"@,
    }
}

impl AdjustedOrderType {
    /// The code of the order type.
    pub fn fix_code(&self) -> (r: &'static str)
        ensures
            r@ == adjusted_code(*self),
    {
        match self {
            AdjustedOrderType::Stop => "3",
            AdjustedOrderType::StopLimit => "4",
            AdjustedOrderType::Trail => "T",
            AdjustedOrderType::TrailLimit => "TL",
        }
    }
}

/// A condition that an order waits for. Fractional numbers are given in decimal notation.
#[allow(inconsistent_fields)]
pub enum OrderCondition {
    Price { con_id: i64, exchange: String, price: Price, is_more: bool, trigger_method: u8 },
    Time { time: String, is_more: bool },
    Margin { percent: u32, is_more: bool },
    Execution { symbol: String, exchange: String, sec_type: String },
    Volume { con_id: i64, exchange: String, volume: i64, is_more: bool },
    PercentChange { con_id: i64, exchange: String, percent: String, is_more: bool },
}

/// The algorithm that works an order. Fractional numbers are given in decimal notation.
pub enum AlgoParams {
    Vwap {
        max_pct_vol: String,
        no_take_liq: bool,
        allow_past_end_time: bool,
        start_time: String,
        end_time: String,
    },
    Twap { allow_past_end_time: bool, start_time: String, end_time: String },
    ArrivalPx {
        max_pct_vol: String,
        risk_aversion: RiskAversion,
        allow_past_end_time: bool,
        force_completion: bool,
        start_time: String,
        end_time: String,
    },
    ClosePx {
        max_pct_vol: String,
        risk_aversion: RiskAversion,
        force_completion: bool,
        start_time: String,
    },
    DarkIce { allow_past_end_time: bool, display_size: u32, start_time: String, end_time: String },
    PctVol { pct_vol: String, no_take_liq: bool, start_time: String, end_time: String },
}

/// The attributes that an order can carry besides its type and prices. Times are seconds
/// since 1 January 1970 UTC; 0 stands for none.
pub struct OrderAttrs {
    pub display_size: u32,
    pub min_qty: u32,
    pub hidden: bool,
    pub outside_rth: bool,
    pub good_after: i64,
    pub good_till: i64,
    pub good_till_date_ymd: u32,
    pub oca_group: u64,
    pub oca_group_str: String,
    pub oca_type: u8,
    pub parent_id: u64,
    pub discretionary_amt: Price,
    pub sweep_to_fill: bool,
    pub all_or_none: bool,
    pub trigger_method: u8,
    pub cash_qty: Price,
    pub conditions: Vec<OrderCondition>,
    pub conditions_cancel_order: bool,
    pub conditions_ignore_rth: bool,
}

/// Whether an order carries no attributes.
pub open spec fn no_attrs(a: OrderAttrs) -> bool {
    &&& a.display_size == 0
    &&& a.min_qty == 0
    &&& !a.hidden
    &&& !a.outside_rth
    &&& a.good_after == 0
    &&& a.good_till == 0
    &&& a.good_till_date_ymd == 0
    &&& a.oca_group == 0
    &&& a.oca_group_str@.len() == 0
    &&& a.oca_type == 0
    &&& a.parent_id == 0
    &&& a.discretionary_amt == 0
    &&& !a.sweep_to_fill
    &&& !a.all_or_none
    &&& a.trigger_method == 0
    &&& a.cash_qty == 0
    &&& a.conditions@.len() == 0
    &&& !a.conditions_cancel_order
    &&& !a.conditions_ignore_rth
}

impl Default for OrderAttrs {
    fn default() -> (r: Self)
        ensures
            no_attrs(r),
    {
        OrderAttrs {
            display_size: 0,
            min_qty: 0,
            hidden: false,
            outside_rth: false,
            good_after: 0,
            good_till: 0,
            good_till_date_ymd: 0,
            oca_group: 0,
            oca_group_str: String::new(),
            oca_type: 0,
            parent_id: 0,
            discretionary_amt: 0,
            sweep_to_fill: false,
            all_or_none: false,
            trigger_method: 0,
            cash_qty: 0,
            conditions: Vec::new(),
            conditions_cancel_order: false,
            conditions_ignore_rth: false,
        }
    }
}

/// The type of an order, with its prices.
#[derive(Debug, Clone, Copy, PartialEq, Eq, Structural)]
pub enum OrderKind {
    Market,
    Limit { price: Price },
    Stop { stop_price: Price },
    StopLimit { price: Price, stop_price: Price },
    TrailingStop { trail_amt: Price, trail_stop_price: Price },
    TrailingStopLimit { lmt_offset: Price, trail_amt: Price, trail_stop_price: Price },
    /// `trail_pct` is in hundredths of a percent.
    TrailPct { trail_pct: u32, trail_stop_price: Price },
    Moc,
    Loc { price: Price },
    Mit { stop_price: Price },
    Lit { price: Price, stop_price: Price },
    Mtl,
    MktPrt,
    StpPrt { stop_price: Price },
    MidPrice { price_cap: Price },
    SnapMkt,
    SnapMid,
    SnapPri,
    PegMkt { offset: Price },
    PegMid { offset: Price },
    Rel { offset: Price },
    AdjustableStop {
        stop_price: Price,
        trigger_price: Price,
        adjusted_order_type: AdjustedOrderType,
        adjusted_stop_price: Price,
        adjusted_stop_limit_price: Price,
        adjusted_trailing_amount: Price,
        adjustable_trailing_unit: i32,
    },
}

/// What a strategy asks to be done about orders.
#[allow(inconsistent_fields)]
pub enum OrderRequest {
    SubmitLimit { order_id: OrderId, instrument: InstrumentId, side: Side, qty: u32, price: Price },
    SubmitStopLimit {
        order_id: OrderId,
        instrument: InstrumentId,
        side: Side,
        qty: u32,
        price: Price,
        stop_price: Price,
    },
    SubmitLimitGtc {
        order_id: OrderId,
        instrument: InstrumentId,
        side: Side,
        qty: u32,
        price: Price,
        outside_rth: bool,
    },
    SubmitLimitEx {
        order_id: OrderId,
        instrument: InstrumentId,
        side: Side,
        qty: u32,
        price: Price,
        tif: u8,
        attrs: OrderAttrs,
    },
    SubmitEx {
        order_id: OrderId,
        instrument: InstrumentId,
        side: Side,
        qty: u32,
        kind: OrderKind,
        tif: u8,
        attrs: OrderAttrs,
    },
    SubmitMarket { order_id: OrderId, instrument: InstrumentId, side: Side, qty: u32 },
    SubmitStop {
        order_id: OrderId,
        instrument: InstrumentId,
        side: Side,
        qty: u32,
        stop_price: Price,
    },
    SubmitStopGtc {
        order_id: OrderId,
        instrument: InstrumentId,
        side: Side,
        qty: u32,
        stop_price: Price,
        outside_rth: bool,
    },
    SubmitStopLimitGtc {
        order_id: OrderId,
        instrument: InstrumentId,
        side: Side,
        qty: u32,
        price: Price,
        stop_price: Price,
        outside_rth: bool,
    },
    SubmitLimitIoc {
        order_id: OrderId,
        instrument: InstrumentId,
        side: Side,
        qty: u32,
        price: Price,
    },
    SubmitLimitFok {
        order_id: OrderId,
        instrument: InstrumentId,
        side: Side,
        qty: u32,
        price: Price,
    },
    SubmitTrailingStop {
        order_id: OrderId,
        instrument: InstrumentId,
        side: Side,
        qty: u32,
        trail_amt: Price,
        trail_stop_price: Price,
    },
    SubmitTrailingStopLimit {
        order_id: OrderId,
        instrument: InstrumentId,
        side: Side,
        qty: u32,
        lmt_offset: Price,
        trail_amt: Price,
        trail_stop_price: Price,
    },
    /// `trail_pct` is in hundredths of a percent.
    SubmitTrailingStopPct {
        order_id: OrderId,
        instrument: InstrumentId,
        side: Side,
        qty: u32,
        trail_pct: u32,
        trail_stop_price: Price,
    },
    SubmitTrailingStopPctEx {
        order_id: OrderId,
        instrument: InstrumentId,
        side: Side,
        qty: u32,
        trail_pct: u32,
        tif: u8,
        attrs: OrderAttrs,
        trail_stop_price: Price,
    },
    SubmitMoc { order_id: OrderId, instrument: InstrumentId, side: Side, qty: u32 },
    SubmitLoc { order_id: OrderId, instrument: InstrumentId, side: Side, qty: u32, price: Price },
    SubmitMit {
        order_id: OrderId,
        instrument: InstrumentId,
        side: Side,
        qty: u32,
        stop_price: Price,
    },
    SubmitLit {
        order_id: OrderId,
        instrument: InstrumentId,
        side: Side,
        qty: u32,
        price: Price,
        stop_price: Price,
    },
    SubmitBracket {
        parent_id: OrderId,
        tp_id: OrderId,
        sl_id: OrderId,
        instrument: InstrumentId,
        side: Side,
        qty: u32,
        entry_price: Price,
        take_profit: Price,
        stop_loss: Price,
    },
    SubmitRel { order_id: OrderId, instrument: InstrumentId, side: Side, qty: u32, offset: Price },
    SubmitLimitOpg {
        order_id: OrderId,
        instrument: InstrumentId,
        side: Side,
        qty: u32,
        price: Price,
    },
    SubmitAdaptive {
        order_id: OrderId,
        instrument: InstrumentId,
        side: Side,
        qty: u32,
        price: Price,
        priority: AdaptivePriority,
        tif: u8,
        attrs: OrderAttrs,
    },
    SubmitAlgo {
        order_id: OrderId,
        instrument: InstrumentId,
        side: Side,
        qty: u32,
        price: Price,
        algo: AlgoParams,
        tif: u8,
        attrs: OrderAttrs,
    },
    SubmitPegBench {
        order_id: OrderId,
        instrument: InstrumentId,
        side: Side,
        qty: u32,
        price: Price,
        ref_con_id: u32,
        is_peg_decrease: bool,
        pegged_change_amount: Price,
        ref_change_amount: Price,
    },
    SubmitLimitAuc {
        order_id: OrderId,
        instrument: InstrumentId,
        side: Side,
        qty: u32,
        price: Price,
    },
    SubmitMtlAuc { order_id: OrderId, instrument: InstrumentId, side: Side, qty: u32 },
    SubmitWhatIf {
        order_id: OrderId,
        instrument: InstrumentId,
        side: Side,
        qty: u32,
        price: Price,
        tif: u8,
        attrs: OrderAttrs,
    },
    SubmitLimitFractional {
        order_id: OrderId,
        instrument: InstrumentId,
        side: Side,
        qty: Qty,
        price: Price,
    },
    SubmitAdjustableStop {
        order_id: OrderId,
        instrument: InstrumentId,
        side: Side,
        qty: u32,
        stop_price: Price,
        trigger_price: Price,
        adjusted_order_type: AdjustedOrderType,
        adjusted_stop_price: Price,
        adjusted_stop_limit_price: Price,
        adjusted_trailing_amount: Price,
        adjustable_trailing_unit: i32,
    },
    SubmitMtl { order_id: OrderId, instrument: InstrumentId, side: Side, qty: u32 },
    SubmitMktPrt { order_id: OrderId, instrument: InstrumentId, side: Side, qty: u32 },
    SubmitStpPrt {
        order_id: OrderId,
        instrument: InstrumentId,
        side: Side,
        qty: u32,
        stop_price: Price,
    },
    SubmitMidPrice {
        order_id: OrderId,
        instrument: InstrumentId,
        side: Side,
        qty: u32,
        price_cap: Price,
    },
    SubmitSnapMkt { order_id: OrderId, instrument: InstrumentId, side: Side, qty: u32 },
    SubmitSnapMid { order_id: OrderId, instrument: InstrumentId, side: Side, qty: u32 },
    SubmitSnapPri { order_id: OrderId, instrument: InstrumentId, side: Side, qty: u32 },
    SubmitPegMkt { order_id: OrderId, instrument: InstrumentId, side: Side, qty: u32, offset: Price },
    SubmitPegMid { order_id: OrderId, instrument: InstrumentId, side: Side, qty: u32, offset: Price },
    Cancel { order_id: OrderId },
    CancelAll { instrument: InstrumentId },
    Modify {
        new_order_id: OrderId,
        order_id: OrderId,
        qty: u32,
        kind: OrderKind,
        tif: u8,
        attrs: OrderAttrs,
    },
}

// ---------------------------------------------------------------------------------------
// The price grid
// ---------------------------------------------------------------------------------------

/// The multiple of `tick` nearest to a price, the one farther from 0 when two are as near; the
/// price itself when there is no tick or the multiple does not fit.
pub open spec fn snapped_price(price: Price, tick: Price) -> Price {
    if tick <= 0 {
        price
    } else {
        let m = (magnitude(price as int) + tick as int / 2) / (tick as int) * (tick as int);
        if m > i64::MAX {
            price
        } else if price < 0 {
            (-m) as i64
        } else {
            m as i64
        }
    }
}

/// Snaps a price to the grid of `tick`.
pub fn snap_price(price: Price, tick: Price) -> (r: Price)
    ensures
        r == snapped_price(price, tick),
{
    if tick <= 0 {
        return price;
    }
    let mag: i128 = if price < 0 {
        -(price as i128)
    } else {
        price as i128
    };
    let t: i128 = tick as i128;
    let sum: i128 = mag + t / 2;
    let q: i128 = sum / t;
    proof {
        assert(0 <= q * t <= sum) by (nonlinear_arith)
            requires
                q == sum / t,
                t > 0,
                sum >= 0,
        ;
    }
    let m: i128 = q * t;
    if m > 0x7fff_ffff_ffff_ffff {
        price
    } else if price < 0 {
        (-m) as i64
    } else {
        m as i64
    }
}

/// An order type with its prices snapped to the grid of `tick`.
pub open spec fn snapped_kind(kind: OrderKind, tick: Price) -> OrderKind {
    match kind {
        OrderKind::Limit { price } => OrderKind::Limit { price: snapped_price(price, tick) },
        OrderKind::Stop { stop_price } => OrderKind::Stop { stop_price: snapped_price(stop_price, tick) },
        OrderKind::StopLimit { price, stop_price } => OrderKind::StopLimit { price: snapped_price(price, tick), stop_price: snapped_price(stop_price, tick) },
        OrderKind::TrailingStop { trail_amt, trail_stop_price } => OrderKind::TrailingStop { trail_amt, trail_stop_price: snapped_price(trail_stop_price, tick) },
        OrderKind::TrailingStopLimit { lmt_offset, trail_amt, trail_stop_price } => OrderKind::TrailingStopLimit { lmt_offset, trail_amt, trail_stop_price: snapped_price(trail_stop_price, tick) },
        OrderKind::TrailPct { trail_pct, trail_stop_price } => OrderKind::TrailPct { trail_pct, trail_stop_price: snapped_price(trail_stop_price, tick) },
        OrderKind::Loc { price } => OrderKind::Loc { price: snapped_price(price, tick) },
        OrderKind::Mit { stop_price } => OrderKind::Mit { stop_price: snapped_price(stop_price, tick) },
        OrderKind::Lit { price, stop_price } => OrderKind::Lit { price: snapped_price(price, tick), stop_price: snapped_price(stop_price, tick) },
        OrderKind::StpPrt { stop_price } => OrderKind::StpPrt { stop_price: snapped_price(stop_price, tick) },
        OrderKind::MidPrice { price_cap } => OrderKind::MidPrice { price_cap: snapped_price(price_cap, tick) },
        OrderKind::AdjustableStop { stop_price, trigger_price, adjusted_order_type, adjusted_stop_price, adjusted_stop_limit_price, adjusted_trailing_amount, adjustable_trailing_unit } => OrderKind::AdjustableStop { stop_price: snapped_price(stop_price, tick), trigger_price: snapped_price(trigger_price, tick), adjusted_order_type, adjusted_stop_price: snapped_price(adjusted_stop_price, tick), adjusted_stop_limit_price: snapped_price(adjusted_stop_limit_price, tick), adjusted_trailing_amount, adjustable_trailing_unit },
        other => other,
    }
}

/// Snaps the prices of an order type to the grid of `tick`.
pub fn snap_kind(kind: OrderKind, tick: Price) -> (r: OrderKind)
    ensures
        r == snapped_kind(kind, tick),
{
    match kind {
        OrderKind::Limit { price } => OrderKind::Limit { price: snap_price(price, tick) },
        OrderKind::Stop { stop_price } => OrderKind::Stop { stop_price: snap_price(stop_price, tick) },
        OrderKind::StopLimit { price, stop_price } => OrderKind::StopLimit { price: snap_price(price, tick), stop_price: snap_price(stop_price, tick) },
        OrderKind::TrailingStop { trail_amt, trail_stop_price } => OrderKind::TrailingStop { trail_amt, trail_stop_price: snap_price(trail_stop_price, tick) },
        OrderKind::TrailingStopLimit { lmt_offset, trail_amt, trail_stop_price } => OrderKind::TrailingStopLimit { lmt_offset, trail_amt, trail_stop_price: snap_price(trail_stop_price, tick) },
        OrderKind::TrailPct { trail_pct, trail_stop_price } => OrderKind::TrailPct { trail_pct, trail_stop_price: snap_price(trail_stop_price, tick) },
        OrderKind::Loc { price } => OrderKind::Loc { price: snap_price(price, tick) },
        OrderKind::Mit { stop_price } => OrderKind::Mit { stop_price: snap_price(stop_price, tick) },
        OrderKind::Lit { price, stop_price } => OrderKind::Lit { price: snap_price(price, tick), stop_price: snap_price(stop_price, tick) },
        OrderKind::StpPrt { stop_price } => OrderKind::StpPrt { stop_price: snap_price(stop_price, tick) },
        OrderKind::MidPrice { price_cap } => OrderKind::MidPrice { price_cap: snap_price(price_cap, tick) },
        OrderKind::AdjustableStop { stop_price, trigger_price, adjusted_order_type, adjusted_stop_price, adjusted_stop_limit_price, adjusted_trailing_amount, adjustable_trailing_unit } => OrderKind::AdjustableStop { stop_price: snap_price(stop_price, tick), trigger_price: snap_price(trigger_price, tick), adjusted_order_type, adjusted_stop_price: snap_price(adjusted_stop_price, tick), adjusted_stop_limit_price: snap_price(adjusted_stop_limit_price, tick), adjusted_trailing_amount, adjustable_trailing_unit },
        other => other,
    }
}

/// A request with its prices snapped to the grid of `tick`. Amounts and offsets are no prices.
pub open spec fn snapped(req: OrderRequest, tick: Price) -> OrderRequest {
    match req {
        OrderRequest::SubmitLimit { order_id, instrument, side, qty, price } => OrderRequest::SubmitLimit { order_id, instrument, side, qty, price: snapped_price(price, tick) },
        OrderRequest::SubmitStopLimit { order_id, instrument, side, qty, price, stop_price } => OrderRequest::SubmitStopLimit { order_id, instrument, side, qty, price: snapped_price(price, tick), stop_price: snapped_price(stop_price, tick) },
        OrderRequest::SubmitLimitGtc { order_id, instrument, side, qty, price, outside_rth } => OrderRequest::SubmitLimitGtc { order_id, instrument, side, qty, price: snapped_price(price, tick), outside_rth },
        OrderRequest::SubmitLimitEx { order_id, instrument, side, qty, price, tif, attrs } => OrderRequest::SubmitLimitEx { order_id, instrument, side, qty, price: snapped_price(price, tick), tif, attrs },
        OrderRequest::SubmitEx { order_id, instrument, side, qty, kind, tif, attrs } => OrderRequest::SubmitEx { order_id, instrument, side, qty, kind: snapped_kind(kind, tick), tif, attrs },
        OrderRequest::SubmitStop { order_id, instrument, side, qty, stop_price } => OrderRequest::SubmitStop { order_id, instrument, side, qty, stop_price: snapped_price(stop_price, tick) },
        OrderRequest::SubmitStopGtc { order_id, instrument, side, qty, stop_price, outside_rth } => OrderRequest::SubmitStopGtc { order_id, instrument, side, qty, stop_price: snapped_price(stop_price, tick), outside_rth },
        OrderRequest::SubmitStopLimitGtc { order_id, instrument, side, qty, price, stop_price, outside_rth } => OrderRequest::SubmitStopLimitGtc { order_id, instrument, side, qty, price: snapped_price(price, tick), stop_price: snapped_price(stop_price, tick), outside_rth },
        OrderRequest::SubmitLimitIoc { order_id, instrument, side, qty, price } => OrderRequest::SubmitLimitIoc { order_id, instrument, side, qty, price: snapped_price(price, tick) },
        OrderRequest::SubmitLimitFok { order_id, instrument, side, qty, price } => OrderRequest::SubmitLimitFok { order_id, instrument, side, qty, price: snapped_price(price, tick) },
        OrderRequest::SubmitTrailingStop { order_id, instrument, side, qty, trail_amt, trail_stop_price } => OrderRequest::SubmitTrailingStop { order_id, instrument, side, qty, trail_amt, trail_stop_price: snapped_price(trail_stop_price, tick) },
        OrderRequest::SubmitTrailingStopLimit { order_id, instrument, side, qty, lmt_offset, trail_amt, trail_stop_price } => OrderRequest::SubmitTrailingStopLimit { order_id, instrument, side, qty, lmt_offset, trail_amt, trail_stop_price: snapped_price(trail_stop_price, tick) },
        OrderRequest::SubmitTrailingStopPct { order_id, instrument, side, qty, trail_pct, trail_stop_price } => OrderRequest::SubmitTrailingStopPct { order_id, instrument, side, qty, trail_pct, trail_stop_price: snapped_price(trail_stop_price, tick) },
        OrderRequest::SubmitTrailingStopPctEx { order_id, instrument, side, qty, trail_pct, tif, attrs, trail_stop_price } => OrderRequest::SubmitTrailingStopPctEx { order_id, instrument, side, qty, trail_pct, tif, attrs, trail_stop_price: snapped_price(trail_stop_price, tick) },
        OrderRequest::SubmitLoc { order_id, instrument, side, qty, price } => OrderRequest::SubmitLoc { order_id, instrument, side, qty, price: snapped_price(price, tick) },
        OrderRequest::SubmitMit { order_id, instrument, side, qty, stop_price } => OrderRequest::SubmitMit { order_id, instrument, side, qty, stop_price: snapped_price(stop_price, tick) },
        OrderRequest::SubmitLit { order_id, instrument, side, qty, price, stop_price } => OrderRequest::SubmitLit { order_id, instrument, side, qty, price: snapped_price(price, tick), stop_price: snapped_price(stop_price, tick) },
        OrderRequest::SubmitBracket { parent_id, tp_id, sl_id, instrument, side, qty, entry_price, take_profit, stop_loss } => OrderRequest::SubmitBracket { parent_id, tp_id, sl_id, instrument, side, qty, entry_price: snapped_price(entry_price, tick), take_profit: snapped_price(take_profit, tick), stop_loss: snapped_price(stop_loss, tick) },
        OrderRequest::SubmitLimitOpg { order_id, instrument, side, qty, price } => OrderRequest::SubmitLimitOpg { order_id, instrument, side, qty, price: snapped_price(price, tick) },
        OrderRequest::SubmitAdaptive { order_id, instrument, side, qty, price, priority, tif, attrs } => OrderRequest::SubmitAdaptive { order_id, instrument, side, qty, price: snapped_price(price, tick), priority, tif, attrs },
        OrderRequest::SubmitAlgo { order_id, instrument, side, qty, price, algo, tif, attrs } => OrderRequest::SubmitAlgo { order_id, instrument, side, qty, price: snapped_price(price, tick), algo, tif, attrs },
        OrderRequest::SubmitPegBench { order_id, instrument, side, qty, price, ref_con_id, is_peg_decrease, pegged_change_amount, ref_change_amount } => OrderRequest::SubmitPegBench { order_id, instrument, side, qty, price: snapped_price(price, tick), ref_con_id, is_peg_decrease, pegged_change_amount, ref_change_amount },
        OrderRequest::SubmitLimitAuc { order_id, instrument, side, qty, price } => OrderRequest::SubmitLimitAuc { order_id, instrument, side, qty, price: snapped_price(price, tick) },
        OrderRequest::SubmitWhatIf { order_id, instrument, side, qty, price, tif, attrs } => OrderRequest::SubmitWhatIf { order_id, instrument, side, qty, price: snapped_price(price, tick), tif, attrs },
        OrderRequest::SubmitLimitFractional { order_id, instrument, side, qty, price } => OrderRequest::SubmitLimitFractional { order_id, instrument, side, qty, price: snapped_price(price, tick) },
        OrderRequest::SubmitAdjustableStop { order_id, instrument, side, qty, stop_price, trigger_price, adjusted_order_type, adjusted_stop_price, adjusted_stop_limit_price, adjusted_trailing_amount, adjustable_trailing_unit } => OrderRequest::SubmitAdjustableStop { order_id, instrument, side, qty, stop_price: snapped_price(stop_price, tick), trigger_price: snapped_price(trigger_price, tick), adjusted_order_type, adjusted_stop_price: snapped_price(adjusted_stop_price, tick), adjusted_stop_limit_price: snapped_price(adjusted_stop_limit_price, tick), adjusted_trailing_amount, adjustable_trailing_unit },
        OrderRequest::SubmitStpPrt { order_id, instrument, side, qty, stop_price } => OrderRequest::SubmitStpPrt { order_id, instrument, side, qty, stop_price: snapped_price(stop_price, tick) },
        OrderRequest::SubmitMidPrice { order_id, instrument, side, qty, price_cap } => OrderRequest::SubmitMidPrice { order_id, instrument, side, qty, price_cap: snapped_price(price_cap, tick) },
        other => other,
    }
}

/// The order that a request is about; 0 for none. Of a bracket it is the entry order.
pub open spec fn request_order(req: OrderRequest) -> OrderId {
    match req {
        OrderRequest::SubmitLimit { order_id, .. } => order_id,
        OrderRequest::SubmitStopLimit { order_id, .. } => order_id,
        OrderRequest::SubmitLimitGtc { order_id, .. } => order_id,
        OrderRequest::SubmitLimitEx { order_id, .. } => order_id,
        OrderRequest::SubmitEx { order_id, .. } => order_id,
        OrderRequest::SubmitMarket { order_id, .. } => order_id,
        OrderRequest::SubmitStop { order_id, .. } => order_id,
        OrderRequest::SubmitStopGtc { order_id, .. } => order_id,
        OrderRequest::SubmitStopLimitGtc { order_id, .. } => order_id,
        OrderRequest::SubmitLimitIoc { order_id, .. } => order_id,
        OrderRequest::SubmitLimitFok { order_id, .. } => order_id,
        OrderRequest::SubmitTrailingStop { order_id, .. } => order_id,
        OrderRequest::SubmitTrailingStopLimit { order_id, .. } => order_id,
        OrderRequest::SubmitTrailingStopPct { order_id, .. } => order_id,
        OrderRequest::SubmitTrailingStopPctEx { order_id, .. } => order_id,
        OrderRequest::SubmitMoc { order_id, .. } => order_id,
        OrderRequest::SubmitLoc { order_id, .. } => order_id,
        OrderRequest::SubmitMit { order_id, .. } => order_id,
        OrderRequest::SubmitLit { order_id, .. } => order_id,
        OrderRequest::SubmitBracket { parent_id, .. } => parent_id,
        OrderRequest::SubmitRel { order_id, .. } => order_id,
        OrderRequest::SubmitLimitOpg { order_id, .. } => order_id,
        OrderRequest::SubmitAdaptive { order_id, .. } => order_id,
        OrderRequest::SubmitAlgo { order_id, .. } => order_id,
        OrderRequest::SubmitPegBench { order_id, .. } => order_id,
        OrderRequest::SubmitLimitAuc { order_id, .. } => order_id,
        OrderRequest::SubmitMtlAuc { order_id, .. } => order_id,
        OrderRequest::SubmitWhatIf { order_id, .. } => order_id,
        OrderRequest::SubmitLimitFractional { order_id, .. } => order_id,
        OrderRequest::SubmitAdjustableStop { order_id, .. } => order_id,
        OrderRequest::SubmitMtl { order_id, .. } => order_id,
        OrderRequest::SubmitMktPrt { order_id, .. } => order_id,
        OrderRequest::SubmitStpPrt { order_id, .. } => order_id,
        OrderRequest::SubmitMidPrice { order_id, .. } => order_id,
        OrderRequest::SubmitSnapMkt { order_id, .. } => order_id,
        OrderRequest::SubmitSnapMid { order_id, .. } => order_id,
        OrderRequest::SubmitSnapPri { order_id, .. } => order_id,
        OrderRequest::SubmitPegMkt { order_id, .. } => order_id,
        OrderRequest::SubmitPegMid { order_id, .. } => order_id,
        OrderRequest::Cancel { order_id, .. } => order_id,
        OrderRequest::CancelAll { .. } => 0,
        OrderRequest::Modify { order_id, .. } => order_id,
    }
}

/// The instrument that a request names.
pub open spec fn request_instrument(req: OrderRequest) -> Option<InstrumentId> {
    match req {
        OrderRequest::SubmitLimit { instrument, .. } => Some(instrument),
        OrderRequest::SubmitStopLimit { instrument, .. } => Some(instrument),
        OrderRequest::SubmitLimitGtc { instrument, .. } => Some(instrument),
        OrderRequest::SubmitLimitEx { instrument, .. } => Some(instrument),
        OrderRequest::SubmitEx { instrument, .. } => Some(instrument),
        OrderRequest::SubmitMarket { instrument, .. } => Some(instrument),
        OrderRequest::SubmitStop { instrument, .. } => Some(instrument),
        OrderRequest::SubmitStopGtc { instrument, .. } => Some(instrument),
        OrderRequest::SubmitStopLimitGtc { instrument, .. } => Some(instrument),
        OrderRequest::SubmitLimitIoc { instrument, .. } => Some(instrument),
        OrderRequest::SubmitLimitFok { instrument, .. } => Some(instrument),
        OrderRequest::SubmitTrailingStop { instrument, .. } => Some(instrument),
        OrderRequest::SubmitTrailingStopLimit { instrument, .. } => Some(instrument),
        OrderRequest::SubmitTrailingStopPct { instrument, .. } => Some(instrument),
        OrderRequest::SubmitTrailingStopPctEx { instrument, .. } => Some(instrument),
        OrderRequest::SubmitMoc { instrument, .. } => Some(instrument),
        OrderRequest::SubmitLoc { instrument, .. } => Some(instrument),
        OrderRequest::SubmitMit { instrument, .. } => Some(instrument),
        OrderRequest::SubmitLit { instrument, .. } => Some(instrument),
        OrderRequest::SubmitBracket { instrument, .. } => Some(instrument),
        OrderRequest::SubmitRel { instrument, .. } => Some(instrument),
        OrderRequest::SubmitLimitOpg { instrument, .. } => Some(instrument),
        OrderRequest::SubmitAdaptive { instrument, .. } => Some(instrument),
        OrderRequest::SubmitAlgo { instrument, .. } => Some(instrument),
        OrderRequest::SubmitPegBench { instrument, .. } => Some(instrument),
        OrderRequest::SubmitLimitAuc { instrument, .. } => Some(instrument),
        OrderRequest::SubmitMtlAuc { instrument, .. } => Some(instrument),
        OrderRequest::SubmitWhatIf { instrument, .. } => Some(instrument),
        OrderRequest::SubmitLimitFractional { instrument, .. } => Some(instrument),
        OrderRequest::SubmitAdjustableStop { instrument, .. } => Some(instrument),
        OrderRequest::SubmitMtl { instrument, .. } => Some(instrument),
        OrderRequest::SubmitMktPrt { instrument, .. } => Some(instrument),
        OrderRequest::SubmitStpPrt { instrument, .. } => Some(instrument),
        OrderRequest::SubmitMidPrice { instrument, .. } => Some(instrument),
        OrderRequest::SubmitSnapMkt { instrument, .. } => Some(instrument),
        OrderRequest::SubmitSnapMid { instrument, .. } => Some(instrument),
        OrderRequest::SubmitSnapPri { instrument, .. } => Some(instrument),
        OrderRequest::SubmitPegMkt { instrument, .. } => Some(instrument),
        OrderRequest::SubmitPegMid { instrument, .. } => Some(instrument),
        OrderRequest::Cancel { .. } => None,
        OrderRequest::CancelAll { instrument, .. } => Some(instrument),
        OrderRequest::Modify { .. } => None,
    }
}

impl OrderRequest {
    /// The order that the request is about; 0 for none. Of a bracket it is the entry order.
    pub fn order_id(&self) -> (r: OrderId)
        ensures
            r == request_order(*self),
    {
        match self {
            OrderRequest::SubmitLimit { order_id, .. } => *order_id,
            OrderRequest::SubmitStopLimit { order_id, .. } => *order_id,
            OrderRequest::SubmitLimitGtc { order_id, .. } => *order_id,
            OrderRequest::SubmitLimitEx { order_id, .. } => *order_id,
            OrderRequest::SubmitEx { order_id, .. } => *order_id,
            OrderRequest::SubmitMarket { order_id, .. } => *order_id,
            OrderRequest::SubmitStop { order_id, .. } => *order_id,
            OrderRequest::SubmitStopGtc { order_id, .. } => *order_id,
            OrderRequest::SubmitStopLimitGtc { order_id, .. } => *order_id,
            OrderRequest::SubmitLimitIoc { order_id, .. } => *order_id,
            OrderRequest::SubmitLimitFok { order_id, .. } => *order_id,
            OrderRequest::SubmitTrailingStop { order_id, .. } => *order_id,
            OrderRequest::SubmitTrailingStopLimit { order_id, .. } => *order_id,
            OrderRequest::SubmitTrailingStopPct { order_id, .. } => *order_id,
            OrderRequest::SubmitTrailingStopPctEx { order_id, .. } => *order_id,
            OrderRequest::SubmitMoc { order_id, .. } => *order_id,
            OrderRequest::SubmitLoc { order_id, .. } => *order_id,
            OrderRequest::SubmitMit { order_id, .. } => *order_id,
            OrderRequest::SubmitLit { order_id, .. } => *order_id,
            OrderRequest::SubmitBracket { parent_id, .. } => *parent_id,
            OrderRequest::SubmitRel { order_id, .. } => *order_id,
            OrderRequest::SubmitLimitOpg { order_id, .. } => *order_id,
            OrderRequest::SubmitAdaptive { order_id, .. } => *order_id,
            OrderRequest::SubmitAlgo { order_id, .. } => *order_id,
            OrderRequest::SubmitPegBench { order_id, .. } => *order_id,
            OrderRequest::SubmitLimitAuc { order_id, .. } => *order_id,
            OrderRequest::SubmitMtlAuc { order_id, .. } => *order_id,
            OrderRequest::SubmitWhatIf { order_id, .. } => *order_id,
            OrderRequest::SubmitLimitFractional { order_id, .. } => *order_id,
            OrderRequest::SubmitAdjustableStop { order_id, .. } => *order_id,
            OrderRequest::SubmitMtl { order_id, .. } => *order_id,
            OrderRequest::SubmitMktPrt { order_id, .. } => *order_id,
            OrderRequest::SubmitStpPrt { order_id, .. } => *order_id,
            OrderRequest::SubmitMidPrice { order_id, .. } => *order_id,
            OrderRequest::SubmitSnapMkt { order_id, .. } => *order_id,
            OrderRequest::SubmitSnapMid { order_id, .. } => *order_id,
            OrderRequest::SubmitSnapPri { order_id, .. } => *order_id,
            OrderRequest::SubmitPegMkt { order_id, .. } => *order_id,
            OrderRequest::SubmitPegMid { order_id, .. } => *order_id,
            OrderRequest::Cancel { order_id, .. } => *order_id,
            OrderRequest::CancelAll { .. } => 0,
            OrderRequest::Modify { order_id, .. } => *order_id,
        }
    }

    /// The instrument that the request names.
    pub fn instrument(&self) -> (r: Option<InstrumentId>)
        ensures
            r == request_instrument(*self),
    {
        match self {
            OrderRequest::SubmitLimit { instrument, .. } => Some(*instrument),
            OrderRequest::SubmitStopLimit { instrument, .. } => Some(*instrument),
            OrderRequest::SubmitLimitGtc { instrument, .. } => Some(*instrument),
            OrderRequest::SubmitLimitEx { instrument, .. } => Some(*instrument),
            OrderRequest::SubmitEx { instrument, .. } => Some(*instrument),
            OrderRequest::SubmitMarket { instrument, .. } => Some(*instrument),
            OrderRequest::SubmitStop { instrument, .. } => Some(*instrument),
            OrderRequest::SubmitStopGtc { instrument, .. } => Some(*instrument),
            OrderRequest::SubmitStopLimitGtc { instrument, .. } => Some(*instrument),
            OrderRequest::SubmitLimitIoc { instrument, .. } => Some(*instrument),
            OrderRequest::SubmitLimitFok { instrument, .. } => Some(*instrument),
            OrderRequest::SubmitTrailingStop { instrument, .. } => Some(*instrument),
            OrderRequest::SubmitTrailingStopLimit { instrument, .. } => Some(*instrument),
            OrderRequest::SubmitTrailingStopPct { instrument, .. } => Some(*instrument),
            OrderRequest::SubmitTrailingStopPctEx { instrument, .. } => Some(*instrument),
            OrderRequest::SubmitMoc { instrument, .. } => Some(*instrument),
            OrderRequest::SubmitLoc { instrument, .. } => Some(*instrument),
            OrderRequest::SubmitMit { instrument, .. } => Some(*instrument),
            OrderRequest::SubmitLit { instrument, .. } => Some(*instrument),
            OrderRequest::SubmitBracket { instrument, .. } => Some(*instrument),
            OrderRequest::SubmitRel { instrument, .. } => Some(*instrument),
            OrderRequest::SubmitLimitOpg { instrument, .. } => Some(*instrument),
            OrderRequest::SubmitAdaptive { instrument, .. } => Some(*instrument),
            OrderRequest::SubmitAlgo { instrument, .. } => Some(*instrument),
            OrderRequest::SubmitPegBench { instrument, .. } => Some(*instrument),
            OrderRequest::SubmitLimitAuc { instrument, .. } => Some(*instrument),
            OrderRequest::SubmitMtlAuc { instrument, .. } => Some(*instrument),
            OrderRequest::SubmitWhatIf { instrument, .. } => Some(*instrument),
            OrderRequest::SubmitLimitFractional { instrument, .. } => Some(*instrument),
            OrderRequest::SubmitAdjustableStop { instrument, .. } => Some(*instrument),
            OrderRequest::SubmitMtl { instrument, .. } => Some(*instrument),
            OrderRequest::SubmitMktPrt { instrument, .. } => Some(*instrument),
            OrderRequest::SubmitStpPrt { instrument, .. } => Some(*instrument),
            OrderRequest::SubmitMidPrice { instrument, .. } => Some(*instrument),
            OrderRequest::SubmitSnapMkt { instrument, .. } => Some(*instrument),
            OrderRequest::SubmitSnapMid { instrument, .. } => Some(*instrument),
            OrderRequest::SubmitSnapPri { instrument, .. } => Some(*instrument),
            OrderRequest::SubmitPegMkt { instrument, .. } => Some(*instrument),
            OrderRequest::SubmitPegMid { instrument, .. } => Some(*instrument),
            OrderRequest::Cancel { .. } => None,
            OrderRequest::CancelAll { instrument, .. } => Some(*instrument),
            OrderRequest::Modify { .. } => None,
        }
    }

    /// The request with its prices snapped to the grid of `tick`.
    pub fn snap_prices(self, tick: Price) -> (r: Self)
        ensures
            r == snapped(self, tick),
    {
        match self {
            OrderRequest::SubmitLimit { order_id, instrument, side, qty, price } => OrderRequest::SubmitLimit { order_id, instrument, side, qty, price: snap_price(price, tick) },
            OrderRequest::SubmitStopLimit { order_id, instrument, side, qty, price, stop_price } => OrderRequest::SubmitStopLimit { order_id, instrument, side, qty, price: snap_price(price, tick), stop_price: snap_price(stop_price, tick) },
            OrderRequest::SubmitLimitGtc { order_id, instrument, side, qty, price, outside_rth } => OrderRequest::SubmitLimitGtc { order_id, instrument, side, qty, price: snap_price(price, tick), outside_rth },
            OrderRequest::SubmitLimitEx { order_id, instrument, side, qty, price, tif, attrs } => OrderRequest::SubmitLimitEx { order_id, instrument, side, qty, price: snap_price(price, tick), tif, attrs },
            OrderRequest::SubmitEx { order_id, instrument, side, qty, kind, tif, attrs } => OrderRequest::SubmitEx { order_id, instrument, side, qty, kind: snap_kind(kind, tick), tif, attrs },
            OrderRequest::SubmitStop { order_id, instrument, side, qty, stop_price } => OrderRequest::SubmitStop { order_id, instrument, side, qty, stop_price: snap_price(stop_price, tick) },
            OrderRequest::SubmitStopGtc { order_id, instrument, side, qty, stop_price, outside_rth } => OrderRequest::SubmitStopGtc { order_id, instrument, side, qty, stop_price: snap_price(stop_price, tick), outside_rth },
            OrderRequest::SubmitStopLimitGtc { order_id, instrument, side, qty, price, stop_price, outside_rth } => OrderRequest::SubmitStopLimitGtc { order_id, instrument, side, qty, price: snap_price(price, tick), stop_price: snap_price(stop_price, tick), outside_rth },
            OrderRequest::SubmitLimitIoc { order_id, instrument, side, qty, price } => OrderRequest::SubmitLimitIoc { order_id, instrument, side, qty, price: snap_price(price, tick) },
            OrderRequest::SubmitLimitFok { order_id, instrument, side, qty, price } => OrderRequest::SubmitLimitFok { order_id, instrument, side, qty, price: snap_price(price, tick) },
            OrderRequest::SubmitTrailingStop { order_id, instrument, side, qty, trail_amt, trail_stop_price } => OrderRequest::SubmitTrailingStop { order_id, instrument, side, qty, trail_amt, trail_stop_price: snap_price(trail_stop_price, tick) },
            OrderRequest::SubmitTrailingStopLimit { order_id, instrument, side, qty, lmt_offset, trail_amt, trail_stop_price } => OrderRequest::SubmitTrailingStopLimit { order_id, instrument, side, qty, lmt_offset, trail_amt, trail_stop_price: snap_price(trail_stop_price, tick) },
            OrderRequest::SubmitTrailingStopPct { order_id, instrument, side, qty, trail_pct, trail_stop_price } => OrderRequest::SubmitTrailingStopPct { order_id, instrument, side, qty, trail_pct, trail_stop_price: snap_price(trail_stop_price, tick) },
            OrderRequest::SubmitTrailingStopPctEx { order_id, instrument, side, qty, trail_pct, tif, attrs, trail_stop_price } => OrderRequest::SubmitTrailingStopPctEx { order_id, instrument, side, qty, trail_pct, tif, attrs, trail_stop_price: snap_price(trail_stop_price, tick) },
            OrderRequest::SubmitLoc { order_id, instrument, side, qty, price } => OrderRequest::SubmitLoc { order_id, instrument, side, qty, price: snap_price(price, tick) },
            OrderRequest::SubmitMit { order_id, instrument, side, qty, stop_price } => OrderRequest::SubmitMit { order_id, instrument, side, qty, stop_price: snap_price(stop_price, tick) },
            OrderRequest::SubmitLit { order_id, instrument, side, qty, price, stop_price } => OrderRequest::SubmitLit { order_id, instrument, side, qty, price: snap_price(price, tick), stop_price: snap_price(stop_price, tick) },
            OrderRequest::SubmitBracket { parent_id, tp_id, sl_id, instrument, side, qty, entry_price, take_profit, stop_loss } => OrderRequest::SubmitBracket { parent_id, tp_id, sl_id, instrument, side, qty, entry_price: snap_price(entry_price, tick), take_profit: snap_price(take_profit, tick), stop_loss: snap_price(stop_loss, tick) },
            OrderRequest::SubmitLimitOpg { order_id, instrument, side, qty, price } => OrderRequest::SubmitLimitOpg { order_id, instrument, side, qty, price: snap_price(price, tick) },
            OrderRequest::SubmitAdaptive { order_id, instrument, side, qty, price, priority, tif, attrs } => OrderRequest::SubmitAdaptive { order_id, instrument, side, qty, price: snap_price(price, tick), priority, tif, attrs },
            OrderRequest::SubmitAlgo { order_id, instrument, side, qty, price, algo, tif, attrs } => OrderRequest::SubmitAlgo { order_id, instrument, side, qty, price: snap_price(price, tick), algo, tif, attrs },
            OrderRequest::SubmitPegBench { order_id, instrument, side, qty, price, ref_con_id, is_peg_decrease, pegged_change_amount, ref_change_amount } => OrderRequest::SubmitPegBench { order_id, instrument, side, qty, price: snap_price(price, tick), ref_con_id, is_peg_decrease, pegged_change_amount, ref_change_amount },
            OrderRequest::SubmitLimitAuc { order_id, instrument, side, qty, price } => OrderRequest::SubmitLimitAuc { order_id, instrument, side, qty, price: snap_price(price, tick) },
            OrderRequest::SubmitWhatIf { order_id, instrument, side, qty, price, tif, attrs } => OrderRequest::SubmitWhatIf { order_id, instrument, side, qty, price: snap_price(price, tick), tif, attrs },
            OrderRequest::SubmitLimitFractional { order_id, instrument, side, qty, price } => OrderRequest::SubmitLimitFractional { order_id, instrument, side, qty, price: snap_price(price, tick) },
            OrderRequest::SubmitAdjustableStop { order_id, instrument, side, qty, stop_price, trigger_price, adjusted_order_type, adjusted_stop_price, adjusted_stop_limit_price, adjusted_trailing_amount, adjustable_trailing_unit } => OrderRequest::SubmitAdjustableStop { order_id, instrument, side, qty, stop_price: snap_price(stop_price, tick), trigger_price: snap_price(trigger_price, tick), adjusted_order_type, adjusted_stop_price: snap_price(adjusted_stop_price, tick), adjusted_stop_limit_price: snap_price(adjusted_stop_limit_price, tick), adjusted_trailing_amount, adjustable_trailing_unit },
            OrderRequest::SubmitStpPrt { order_id, instrument, side, qty, stop_price } => OrderRequest::SubmitStpPrt { order_id, instrument, side, qty, stop_price: snap_price(stop_price, tick) },
            OrderRequest::SubmitMidPrice { order_id, instrument, side, qty, price_cap } => OrderRequest::SubmitMidPrice { order_id, instrument, side, qty, price_cap: snap_price(price_cap, tick) },
            other => other,
        }
    }
}

} // verus!
