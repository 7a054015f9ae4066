//! What the engine knows: the market, the tracked orders, the positions and the account.
use std::collections::HashMap;
use vstd::prelude::*;

use crate::engine::market_state::{empty_market, MarketState, MarketView};
use crate::engine::order::{is_final, Order, OrderRequest, OrderStatus, Side};
use crate::types::{trunc_div, InstrumentId, OrderId, Price, Qty, MAX_INSTRUMENTS, QTY_SCALE};

verus! {

broadcast use vstd::std_specs::hash::group_hash_axioms;

/// The account's values, in price units; `day_trades_remaining` is a plain number.
#[derive(Debug, Clone, Copy, PartialEq, Eq, Structural)]
pub struct AccountState {
    pub net_liquidation: Price,
    pub buying_power: Price,
    pub margin_used: Price,
    pub unrealized_pnl: Price,
    pub realized_pnl: Price,
    pub total_cash_value: Price,
    pub settled_cash: Price,
    pub accrued_cash: Price,
    pub equity_with_loan: Price,
    pub gross_position_value: Price,
    pub init_margin_req: Price,
    pub maint_margin_req: Price,
    pub available_funds: Price,
    pub excess_liquidity: Price,
    pub cushion: Price,
    pub sma: Price,
    pub day_trades_remaining: i64,
    pub leverage: Price,
    pub daily_pnl: Price,
}

/// An account of which nothing is known.
pub open spec fn zero_account() -> AccountState {
    AccountState {
        net_liquidation: 0,
        buying_power: 0,
        margin_used: 0,
        unrealized_pnl: 0,
        realized_pnl: 0,
        total_cash_value: 0,
        settled_cash: 0,
        accrued_cash: 0,
        equity_with_loan: 0,
        gross_position_value: 0,
        init_margin_req: 0,
        maint_margin_req: 0,
        available_funds: 0,
        excess_liquidity: 0,
        cushion: 0,
        sma: 0,
        day_trades_remaining: 0,
        leverage: 0,
        daily_pnl: 0,
    }
}

impl Default for AccountState {
    fn default() -> (r: Self)
        ensures
            r == zero_account(),
    {
        AccountState {
            net_liquidation: 0,
            buying_power: 0,
            margin_used: 0,
            unrealized_pnl: 0,
            realized_pnl: 0,
            total_cash_value: 0,
            settled_cash: 0,
            accrued_cash: 0,
            equity_with_loan: 0,
            gross_position_value: 0,
            init_margin_req: 0,
            maint_margin_req: 0,
            available_funds: 0,
            excess_liquidity: 0,
            cushion: 0,
            sma: 0,
            day_trades_remaining: 0,
            leverage: 0,
            daily_pnl: 0,
        }
    }
}

// ---------------------------------------------------------------------------------------
// Order lists
// ---------------------------------------------------------------------------------------

/// Whether an order is in a list.
pub open spec fn has_order(s: Seq<Order>, id: OrderId) -> bool {
    exists|i: int| 0 <= i < s.len() && (#[trigger] s[i]).order_id == id
}

/// Where an order is in a list.
pub open spec fn order_index(s: Seq<Order>, id: OrderId) -> int {
    choose|i: int| 0 <= i < s.len() && (#[trigger] s[i]).order_id == id
}

/// An order in a list.
pub open spec fn find_order(s: Seq<Order>, id: OrderId) -> Option<Order> {
    if has_order(s, id) {
        Some(s[order_index(s, id)])
    } else {
        None
    }
}

/// Whether no order is twice in a list.
pub open spec fn distinct_orders(s: Seq<Order>) -> bool {
    forall|i: int, j: int|
        0 <= i < j < s.len() ==> (#[trigger] s[i]).order_id != (#[trigger] s[j]).order_id
}

/// The list with an order put in the place of the one of the same id, or at the end.
pub open spec fn put_order(s: Seq<Order>, order: Order) -> Seq<Order> {
    if has_order(s, order.order_id) {
        s.update(order_index(s, order.order_id), order)
    } else {
        s.push(order)
    }
}

/// The list without an order.
pub open spec fn drop_order(s: Seq<Order>, id: OrderId) -> Seq<Order> {
    if has_order(s, id) {
        s.remove(order_index(s, id))
    } else {
        s
    }
}

/// An order's place in a list without doubles is the only one.
pub proof fn lemma_order_index(s: Seq<Order>, i: int)
    requires
        distinct_orders(s),
        0 <= i < s.len(),
    ensures
        has_order(s, s[i].order_id),
        order_index(s, s[i].order_id) == i,
        find_order(s, s[i].order_id) == Some(s[i]),
{
    let j = order_index(s, s[i].order_id);
    assert(s[i].order_id == s[i].order_id);
    assert(s[j].order_id == s[i].order_id);
}

/// Putting an order in a list without doubles makes none.
pub proof fn lemma_put_distinct(s: Seq<Order>, order: Order)
    requires
        distinct_orders(s),
    ensures
        distinct_orders(put_order(s, order)),
{
    let t = put_order(s, order);
    if has_order(s, order.order_id) {
        let k = order_index(s, order.order_id);
        assert forall|i: int, j: int| 0 <= i < j < t.len() implies (#[trigger] t[i]).order_id != (
        #[trigger] t[j]).order_id by {
            assert(s[i].order_id != s[j].order_id);
        }
    } else {
        assert forall|i: int, j: int| 0 <= i < j < t.len() implies (#[trigger] t[i]).order_id != (
        #[trigger] t[j]).order_id by {
            if j < s.len() {
                assert(s[i].order_id != s[j].order_id);
            } else {
                assert(s[i].order_id != order.order_id);
            }
        }
    }
}

proof fn lemma_drop_distinct(s: Seq<Order>, id: OrderId)
    requires
        distinct_orders(s),
    ensures
        distinct_orders(drop_order(s, id)),
        !has_order(drop_order(s, id), id),
{
    let t = drop_order(s, id);
    if has_order(s, id) {
        let k = order_index(s, id);
        assert forall|i: int, j: int| 0 <= i < j < t.len() implies (#[trigger] t[i]).order_id != (
        #[trigger] t[j]).order_id by {
            let a = if i < k {
                i
            } else {
                i + 1
            };
            let b = if j < k {
                j
            } else {
                j + 1
            };
            assert(s[a].order_id != s[b].order_id);
        }
        if has_order(t, id) {
            let i = order_index(t, id);
            assert(t[i].order_id == id);
            let a = if i < k {
                i
            } else {
                i + 1
            };
            assert(s[a].order_id == id && s[k].order_id == id);
        }
    }
}

/// An order that was put in a list is found there, and each other order as before.
pub proof fn law_put_then_find(s: Seq<Order>, order: Order, other: OrderId)
    requires
        distinct_orders(s),
    ensures
        find_order(put_order(s, order), order.order_id) == Some(order),
        other != order.order_id ==> find_order(put_order(s, order), other) == find_order(s, other),
{
    let t = put_order(s, order);
    lemma_put_distinct(s, order);
    let k = if has_order(s, order.order_id) {
        order_index(s, order.order_id)
    } else {
        s.len() as int
    };
    assert(t[k] == order);
    lemma_order_index(t, k);
    if other != order.order_id {
        if has_order(s, other) {
            let i = order_index(s, other);
            assert(s[i].order_id == other);
            assert(t[i] == s[i]);
            lemma_order_index(t, i);
        }
        if has_order(t, other) {
            let i = order_index(t, other);
            assert(t[i].order_id == other);
            assert(s[i].order_id == other);
        }
    }
}

/// An order that was dropped from a list is not found there, and each other order as before.
pub proof fn law_drop_then_find(s: Seq<Order>, id: OrderId, other: OrderId)
    requires
        distinct_orders(s),
    ensures
        find_order(drop_order(s, id), id) is None,
        other != id ==> find_order(drop_order(s, id), other) == find_order(s, other),
{
    let t = drop_order(s, id);
    lemma_drop_distinct(s, id);
    if other != id && has_order(s, id) {
        let k = order_index(s, id);
        if has_order(s, other) {
            let i = order_index(s, other);
            assert(s[i].order_id == other);
            let a = if i < k {
                i
            } else {
                i - 1
            };
            assert(t[a] == s[i]);
            lemma_order_index(t, a);
        }
        if has_order(t, other) {
            let i = order_index(t, other);
            assert(t[i].order_id == other);
            let a = if i < k {
                i
            } else {
                i + 1
            };
            assert(s[a].order_id == other);
        }
    }
}

// ---------------------------------------------------------------------------------------
// Status changes
// ---------------------------------------------------------------------------------------

/// How far an order has come. An order whose state was lost starts anew.
pub open spec fn rank(status: OrderStatus) -> int {
    match status {
        OrderStatus::PendingSubmit => 0,
        OrderStatus::Uncertain => 0,
        OrderStatus::PreSubmitted => 1,
        OrderStatus::Submitted => 2,
        OrderStatus::PartiallyFilled => 3,
        OrderStatus::PendingReplace => 3,
        OrderStatus::PendingCancel => 3,
        OrderStatus::Filled => 4,
        OrderStatus::Cancelled => 4,
        OrderStatus::Rejected => 4,
    }
}

/// What became of a new status.
#[derive(Debug, Clone, Copy, PartialEq, Eq, Structural)]
pub enum StatusChange {
    /// The order has the new status.
    Changed,
    /// The order had that status already.
    Same,
    /// The order is past that status, and keeps its own.
    Stale,
    /// The order is not tracked.
    Unknown,
}

/// What becomes of a new status of an order that has a given one: a finished order keeps its
/// status, and no order goes back.
pub open spec fn status_change(current: Option<OrderStatus>, new: OrderStatus) -> StatusChange {
    match current {
        None => StatusChange::Unknown,
        Some(c) => if c == new {
            StatusChange::Same
        } else if is_final(c) || rank(new) < rank(c) {
            StatusChange::Stale
        } else {
            StatusChange::Changed
        },
    }
}

/// An order that waits for an answer takes any other status; one that was presubmitted can be
/// submitted, but not the other way round; one that works takes what its fills, its replacements
/// and its cancels bring; any of these can end, and one that has ended stays as it ended.
pub proof fn law_status_moves_on(old_status: OrderStatus, new: OrderStatus)
    requires
        old_status != new,
    ensures
        ({
            let change = status_change(Some(old_status), new);
            let waits = |s: OrderStatus|
                s == OrderStatus::PendingSubmit || s == OrderStatus::Uncertain;
            let works = |s: OrderStatus|
                s == OrderStatus::PartiallyFilled || s == OrderStatus::PendingReplace || s
                    == OrderStatus::PendingCancel;
            let ended = |s: OrderStatus|
                s == OrderStatus::Filled || s == OrderStatus::Cancelled || s
                    == OrderStatus::Rejected;
            &&& ended(old_status) ==> change == StatusChange::Stale
            &&& !ended(old_status) && ended(new) ==> change == StatusChange::Changed
            &&& waits(old_status) ==> change == StatusChange::Changed
            &&& !waits(old_status) && waits(new) ==> change == StatusChange::Stale
            &&& old_status == OrderStatus::PreSubmitted && (new == OrderStatus::Submitted || works(
                new,
            )) ==> change == StatusChange::Changed
            &&& old_status == OrderStatus::Submitted && new == OrderStatus::PreSubmitted ==> change
                == StatusChange::Stale
            &&& old_status == OrderStatus::Submitted && works(new) ==> change
                == StatusChange::Changed
            &&& works(old_status) && works(new) ==> change == StatusChange::Changed
            &&& works(old_status) && (new == OrderStatus::Submitted || new
                == OrderStatus::PreSubmitted) ==> change == StatusChange::Stale
        }),
{
}

fn rank_of(status: OrderStatus) -> (r: u8)
    ensures
        r == rank(status),
{
    match status {
        OrderStatus::PendingSubmit => 0,
        OrderStatus::Uncertain => 0,
        OrderStatus::PreSubmitted => 1,
        OrderStatus::Submitted => 2,
        OrderStatus::PartiallyFilled => 3,
        OrderStatus::PendingReplace => 3,
        OrderStatus::PendingCancel => 3,
        OrderStatus::Filled => 4,
        OrderStatus::Cancelled => 4,
        OrderStatus::Rejected => 4,
    }
}

/// The sum, or the nearest value that fits.
pub open spec fn clamped(v: int) -> i64 {
    if v > i64::MAX {
        i64::MAX
    } else if v < i64::MIN {
        i64::MIN
    } else {
        v as i64
    }
}

/// A number, or the nearest one that fits.
pub fn clamp(v: i128) -> (r: i64)
    ensures
        r == clamped(v as int),
{
    if v > 0x7fff_ffff_ffff_ffff {
        0x7fff_ffff_ffff_ffff
    } else if v < -0x8000_0000_0000_0000 {
        -0x8000_0000_0000_0000
    } else {
        v as i64
    }
}

// ---------------------------------------------------------------------------------------
// The context
// ---------------------------------------------------------------------------------------

/// What the context holds.
pub ghost struct ContextView {
    pub market: MarketView,
    /// The tracked orders, in the order in which they came.
    pub orders: Seq<Order>,
    /// How many times each order was replaced.
    pub versions: Map<OrderId, u32>,
    /// The client order id that the server last reported, by order.
    pub clords: Map<OrderId, Seq<char>>,
    /// The status with which orders ended.
    pub finished: Map<OrderId, OrderStatus>,
    /// The position in each instrument.
    pub positions: Seq<Qty>,
    /// The requests that are not sent yet.
    pub pending: Seq<OrderRequest>,
    pub account: AccountState,
    pub next_order_id: OrderId,
    /// The present time, in nanoseconds.
    pub now_ns: u64,
}

impl ContextView {
    /// Whether the market state is sound, no order is tracked twice, each order's instrument
    /// has a slot, and there is a position for each slot.
    pub open spec fn wf(self) -> bool {
        &&& self.market.wf()
        &&& distinct_orders(self.orders)
        &&& forall|i: int|
            0 <= i < self.orders.len() ==> (#[trigger] self.orders[i]).instrument
                < MAX_INSTRUMENTS
        &&& self.positions.len() == MAX_INSTRUMENTS
    }

    /// A tracked order.
    pub open spec fn order(self, id: OrderId) -> Option<Order> {
        find_order(self.orders, id)
    }

    /// The status of a tracked order.
    pub open spec fn status(self, id: OrderId) -> Option<OrderStatus> {
        match self.order(id) {
            Some(o) => Some(o.status),
            None => None,
        }
    }

    /// With an order tracked.
    pub open spec fn with_order(self, order: Order) -> ContextView {
        ContextView { orders: put_order(self.orders, order), ..self }
    }

    /// With an order no longer tracked. The status of a finished one is kept.
    pub open spec fn without_order(self, id: OrderId) -> ContextView {
        ContextView {
            orders: drop_order(self.orders, id),
            finished: match self.status(id) {
                Some(s) if is_final(s) => self.finished.insert(id, s),
                _ => self.finished,
            },
            ..self
        }
    }

    /// With the orders that are not finished marked as uncertain.
    pub open spec fn with_uncertain_orders(self) -> ContextView {
        ContextView { orders: self.orders.map_values(|o: Order| uncertain(o)), ..self }
    }

    /// With the status of an order set, if it is tracked.
    pub open spec fn with_status(self, id: OrderId, status: OrderStatus) -> ContextView {
        match self.order(id) {
            Some(o) => self.with_order(Order { status, ..o }),
            None => self,
        }
    }

    /// After a new status is applied.
    pub open spec fn after_status(self, id: OrderId, status: OrderStatus) -> ContextView {
        if status_change(self.status(id), status) == StatusChange::Changed {
            self.with_status(id, status)
        } else {
            self
        }
    }

    /// With more of an order filled, if it is tracked.
    pub open spec fn with_fill(self, id: OrderId, shares: Qty) -> ContextView {
        match self.order(id) {
            Some(o) => self.with_order(
                Order { filled_fixed: clamped(o.filled_fixed + shares), ..o },
            ),
            None => self,
        }
    }

    /// With a position changed by `delta`.
    pub open spec fn with_position(self, id: InstrumentId, delta: int) -> ContextView {
        ContextView {
            positions: self.positions.update(
                id as int,
                clamped(self.positions[id as int] + delta),
            ),
            ..self
        }
    }

    /// The client order id under which the server knows an order: the one it last reported, or
    /// the id and the number of times it was replaced.
    pub open spec fn server_clord(self, id: OrderId) -> Seq<char> {
        if self.clords.contains_key(id) {
            self.clords[id]
        } else {
            versioned(id, self.version(id))
        }
    }

    /// How many times an order was replaced.
    pub open spec fn version(self, id: OrderId) -> u32 {
        if self.versions.contains_key(id) {
            self.versions[id]
        } else {
            0
        }
    }
}

/// An order id and a version, with a dot between.
pub open spec fn versioned(id: OrderId, version: u32) -> Seq<char> {
    crate::text::dec(id as nat).push('.') + crate::text::dec(version as nat)
}

/// An order id and a version, with a dot between.
pub fn versioned_text(id: OrderId, version: u32) -> (r: String)
    ensures
        r@ == versioned(id, version),
{
    let mut out = crate::text::format_uint(id);
    out.push('.');
    out.append(crate::text::format_uint(version as u64).as_str());
    out
}

/// The texts that a map of strings holds.
pub open spec fn clord_texts(m: Map<OrderId, String>) -> Map<OrderId, Seq<char>> {
    m.map_values(|s: String| s@)
}

/// What the engine knows.
pub struct Context {
    pub market: MarketState,
    pub orders: Vec<Order>,
    pub modify_versions: HashMap<OrderId, u32>,
    pub last_clord: HashMap<OrderId, String>,
    pub finished: HashMap<OrderId, OrderStatus>,
    pub positions: Vec<Qty>,
    pub pending_orders: Vec<OrderRequest>,
    pub account: AccountState,
    pub next_order_id: OrderId,
    pub now_ns: u64,
}

impl View for Context {
    type V = ContextView;

    open spec fn view(&self) -> ContextView {
        ContextView {
            market: self.market@,
            orders: self.orders@,
            versions: self.modify_versions@,
            clords: clord_texts(self.last_clord@),
            finished: self.finished@,
            positions: self.positions@,
            pending: self.pending_orders@,
            account: self.account,
            next_order_id: self.next_order_id,
            now_ns: self.now_ns,
        }
    }
}

/// A context that knows nothing.
pub open spec fn empty_context(first_order_id: OrderId) -> ContextView {
    ContextView {
        market: empty_market(),
        orders: Seq::empty(),
        versions: Map::empty(),
        clords: Map::empty(),
        finished: Map::empty(),
        positions: Seq::new(MAX_INSTRUMENTS as nat, |i: int| 0i64),
        pending: Seq::empty(),
        account: zero_account(),
        next_order_id: first_order_id,
        now_ns: 0,
    }
}

impl Context {
    /// A context that knows nothing. Its first order id is 1.
    pub fn new() -> (r: Self)
        ensures
            r@ == empty_context(1),
            r@.wf(),
    {
        let mut positions: Vec<Qty> = Vec::new();
        let mut i: usize = 0;
        while i < MAX_INSTRUMENTS
            invariant
                i <= MAX_INSTRUMENTS,
                positions@.len() == i,
                forall|k: int| 0 <= k < i ==> #[trigger] positions@[k] == 0,
            decreases MAX_INSTRUMENTS - i,
        {
            positions.push(0);
            i = i + 1;
        }
        let r = Context {
            market: MarketState::new(),
            orders: Vec::new(),
            modify_versions: HashMap::new(),
            last_clord: HashMap::new(),
            finished: HashMap::new(),
            positions,
            pending_orders: Vec::new(),
            account: AccountState::default(),
            next_order_id: 1,
            now_ns: 0,
        };
        proof {
            assert(r@.orders =~= Seq::empty());
            assert(r@.versions =~= Map::empty());
            assert(r@.clords =~= Map::empty());
            assert(r@.finished =~= Map::empty());
            assert(r@.positions =~= empty_context(1).positions);
            assert(r@.pending =~= Seq::empty());
        }
        r
    }

    /// Registers a contract and gives its instrument.
    pub fn register_instrument(&mut self, con_id: i64) -> (r: InstrumentId)
        requires
            old(self)@.wf(),
            old(self)@.market.con_ids.contains(con_id) || old(self)@.market.con_ids.len()
                < MAX_INSTRUMENTS,
        ensures
            final(self)@.wf(),
            final(self)@ == (ContextView {
                market: old(self)@.market.registered(con_id),
                ..old(self)@
            }),
            Some(r) == final(self)@.market.instrument_of(con_id),
            r < MAX_INSTRUMENTS,
    {
        self.market.register(con_id)
    }

    /// Sets the symbol of an instrument.
    pub fn set_symbol(&mut self, id: InstrumentId, symbol: String)
        requires
            old(self)@.wf(),
            id < MAX_INSTRUMENTS,
        ensures
            final(self)@.wf(),
            final(self)@ == (ContextView {
                market: MarketView {
                    symbols: old(self)@.market.symbols.update(id as int, symbol@),
                    ..old(self)@.market
                },
                ..old(self)@
            }),
    {
        self.market.set_symbol(id, symbol);
    }

    /// The place of an order among the tracked ones.
    fn find(&self, id: OrderId) -> (r: Option<usize>)
        requires
            distinct_orders(self@.orders),
        ensures
            match r {
                Some(i) => has_order(self@.orders, id) && i < self@.orders.len() && i == order_index(
                    self@.orders,
                    id,
                ) && self@.orders[i as int].order_id == id,
                None => !has_order(self@.orders, id),
            },
    {
        let mut i: usize = 0;
        while i < self.orders.len()
            invariant
                i <= self.orders.len(),
                distinct_orders(self@.orders),
                forall|k: int| 0 <= k < i ==> (#[trigger] self@.orders[k]).order_id != id,
            decreases self.orders.len() - i,
        {
            if self.orders[i].order_id == id {
                proof {
                    lemma_order_index(self@.orders, i as int);
                }
                return Some(i);
            }
            proof {
                assert(self@.orders[i as int].order_id != id);
            }
            i = i + 1;
        }
        None
    }

    /// A tracked order.
    pub fn order(&self, id: OrderId) -> (r: Option<Order>)
        requires
            self@.wf(),
        ensures
            r == self@.order(id),
            r matches Some(o) ==> o.order_id == id && o.instrument < MAX_INSTRUMENTS,
    {
        match self.find(id) {
            Some(i) => Some(self.orders[i]),
            None => None,
        }
    }

    /// The status with which an order ended.
    pub fn finished_status(&self, id: OrderId) -> (r: Option<OrderStatus>)
        ensures
            r == (if self@.finished.contains_key(id) {
                Some(self@.finished[id])
            } else {
                None
            }),
    {
        match self.finished.get(&id) {
            Some(s) => Some(*s),
            None => None,
        }
    }

    /// Tracks an order, in the place of one with the same id.
    pub fn insert_order(&mut self, order: Order)
        requires
            old(self)@.wf(),
            order.instrument < MAX_INSTRUMENTS,
        ensures
            final(self)@.wf(),
            final(self)@ == old(self)@.with_order(order),
    {
        proof {
            lemma_put_distinct(self@.orders, order);
        }
        match self.find(order.order_id) {
            Some(i) => {
                self.orders[i] = order;
            },
            None => {
                self.orders.push(order);
            },
        }
    }

    /// Tracks an order no longer. The status of a finished one is kept.
    pub fn remove_order(&mut self, id: OrderId)
        requires
            old(self)@.wf(),
        ensures
            final(self)@.wf(),
            final(self)@ == old(self)@.without_order(id),
    {
        proof {
            lemma_drop_distinct(self@.orders, id);
        }
        if let Some(i) = self.find(id) {
            let status = self.orders[i].status;
            if status == OrderStatus::Filled || status == OrderStatus::Cancelled || status
                == OrderStatus::Rejected {
                self.finished.insert(id, status);
            }
            self.orders.remove(i);
        }
    }

    /// Tracks an order no longer, and keeps the status with which it ended.
    pub fn finish_order(&mut self, id: OrderId, status: OrderStatus)
        requires
            old(self)@.wf(),
        ensures
            final(self)@.wf(),
            final(self)@ == (ContextView {
                orders: drop_order(old(self)@.orders, id),
                finished: old(self)@.finished.insert(id, status),
                ..old(self)@
            }),
    {
        proof {
            lemma_drop_distinct(self@.orders, id);
        }
        if let Some(i) = self.find(id) {
            self.orders.remove(i);
        }
        self.finished.insert(id, status);
    }

    /// Applies a new status to an order: a finished order keeps its status, and no order goes
    /// back.
    pub fn apply_order_status(&mut self, id: OrderId, status: OrderStatus) -> (r: StatusChange)
        requires
            old(self)@.wf(),
        ensures
            final(self)@.wf(),
            r == status_change(old(self)@.status(id), status),
            final(self)@ == old(self)@.after_status(id, status),
    {
        let order = match self.order(id) {
            Some(o) => o,
            None => return StatusChange::Unknown,
        };
        if order.status == status {
            return StatusChange::Same;
        }
        if order.status == OrderStatus::Filled || order.status == OrderStatus::Cancelled
            || order.status == OrderStatus::Rejected || rank_of(status) < rank_of(order.status) {
            return StatusChange::Stale;
        }
        self.insert_order(Order { status, ..order });
        StatusChange::Changed
    }

    /// Applies a new status to an order, and says whether it changed.
    pub fn update_order_status(&mut self, id: OrderId, status: OrderStatus) -> (r: bool)
        requires
            old(self)@.wf(),
        ensures
            final(self)@.wf(),
            r == (status_change(old(self)@.status(id), status) == StatusChange::Changed),
            final(self)@ == old(self)@.after_status(id, status),
    {
        self.apply_order_status(id, status) == StatusChange::Changed
    }

    /// Sets the status of an order, if it is tracked, whatever it was.
    pub fn set_order_status_forced(&mut self, id: OrderId, status: OrderStatus)
        requires
            old(self)@.wf(),
        ensures
            final(self)@.wf(),
            final(self)@ == old(self)@.with_status(id, status),
    {
        if let Some(order) = self.order(id) {
            self.insert_order(Order { status, ..order });
        }
    }

    /// Counts more of an order as filled, if it is tracked.
    pub fn update_order_filled_fixed(&mut self, id: OrderId, shares: Qty)
        requires
            old(self)@.wf(),
        ensures
            final(self)@.wf(),
            final(self)@ == old(self)@.with_fill(id, shares),
    {
        if let Some(order) = self.order(id) {
            let filled_fixed = clamp(order.filled_fixed as i128 + shares as i128);
            self.insert_order(Order { filled_fixed, ..order });
        }
    }

    /// The position in an instrument.
    pub fn position_fixed(&self, id: InstrumentId) -> (r: Qty)
        requires
            self@.wf(),
            id < MAX_INSTRUMENTS,
        ensures
            r == self@.positions[id as int],
    {
        self.positions[id as usize]
    }

    /// The position in an instrument, in whole units.
    pub fn position(&self, id: InstrumentId) -> (r: i64)
        requires
            self@.wf(),
            id < MAX_INSTRUMENTS,
        ensures
            r == trunc_div(self@.positions[id as int] as int, QTY_SCALE as int),
    {
        let p: i64 = self.positions[id as usize];
        if p >= 0 {
            p / QTY_SCALE
        } else {
            let mag: i128 = -(p as i128);
            (-(mag / 10_000)) as i64
        }
    }

    /// Changes the position in an instrument.
    pub fn update_position_fixed(&mut self, id: InstrumentId, delta: Qty)
        requires
            old(self)@.wf(),
            id < MAX_INSTRUMENTS,
        ensures
            final(self)@.wf(),
            final(self)@ == old(self)@.with_position(id, delta as int),
    {
        self.positions[id as usize] = clamp(self.positions[id as usize] as i128 + delta as i128);
    }

    /// Changes the position in an instrument by whole units.
    pub fn update_position(&mut self, id: InstrumentId, delta: i64)
        requires
            old(self)@.wf(),
            id < MAX_INSTRUMENTS,
        ensures
            final(self)@.wf(),
            final(self)@ == old(self)@.with_position(id, delta * QTY_SCALE),
    {
        self.positions[id as usize] = clamp(
            self.positions[id as usize] as i128 + delta as i128 * 10_000,
        );
    }

    /// The tracked orders for an instrument that are not finished.
    pub fn open_orders_for(&self, id: InstrumentId) -> (r: Vec<Order>)
        ensures
            r@ == open_orders(self@.orders, id),
    {
        let mut out: Vec<Order> = Vec::new();
        let mut i: usize = 0;
        proof {
            reveal(Seq::filter);
            assert(out@ =~= open_orders(self@.orders.take(0), id));
        }
        while i < self.orders.len()
            invariant
                i <= self.orders.len(),
                out@ == open_orders(self@.orders.take(i as int), id),
            decreases self.orders.len() - i,
        {
            let o = self.orders[i];
            proof {
                reveal(Seq::filter);
                assert(self@.orders.take(i + 1).drop_last() =~= self@.orders.take(i as int));
            }
            if o.instrument == id && o.status != OrderStatus::Filled && o.status
                != OrderStatus::Cancelled && o.status != OrderStatus::Rejected {
                out.push(o);
            }
            i = i + 1;
        }
        proof {
            assert(self@.orders.take(i as int) =~= self@.orders);
        }
        out
    }

    /// Marks all orders that are not finished as uncertain.
    pub fn mark_orders_uncertain(&mut self)
        requires
            old(self)@.wf(),
        ensures
            final(self)@.wf(),
            final(self)@ == old(self)@.with_uncertain_orders(),
    {
        let mut i: usize = 0;
        let ghost before = self@.orders;
        while i < self.orders.len()
            invariant
                i <= self.orders.len(),
                before == old(self)@.orders,
                self@ == (ContextView { orders: self@.orders, ..old(self)@ }),
                self@.orders.len() == before.len(),
                forall|k: int| 0 <= k < i ==> #[trigger] self@.orders[k] == uncertain(before[k]),
                forall|k: int| i <= k < before.len() ==> #[trigger] self@.orders[k] == before[k],
            decreases self.orders.len() - i,
        {
            let o = self.orders[i];
            if o.status != OrderStatus::Filled && o.status != OrderStatus::Cancelled && o.status
                != OrderStatus::Rejected {
                self.orders[i] = Order { status: OrderStatus::Uncertain, ..o };
            }
            i = i + 1;
        }
        proof {
            assert(self@.orders =~= before.map_values(|o: Order| uncertain(o)));
            assert forall|i: int, j: int| 0 <= i < j < self@.orders.len() implies (
            #[trigger] self@.orders[i]).order_id != (#[trigger] self@.orders[j]).order_id by {
                assert(before[i].order_id != before[j].order_id);
            }
            assert forall|i: int| 0 <= i < self@.orders.len() implies (
            #[trigger] self@.orders[i]).instrument < MAX_INSTRUMENTS by {
                assert(before[i].instrument < MAX_INSTRUMENTS);
            }
        }
    }

    /// Takes the requests that are not sent yet.
    pub fn drain_pending_orders(&mut self) -> (r: Vec<OrderRequest>)
        ensures
            r@ == old(self)@.pending,
            final(self)@ == (ContextView { pending: Seq::empty(), ..old(self)@ }),
    {
        let mut out: Vec<OrderRequest> = Vec::new();
        out.append(&mut self.pending_orders);
        proof {
            assert(out@ =~= old(self)@.pending);
            assert(self@.pending =~= Seq::empty());
        }
        out
    }

    /// How many times an order was replaced.
    pub fn version(&self, id: OrderId) -> (r: u32)
        ensures
            r == self@.version(id),
    {
        match self.modify_versions.get(&id) {
            Some(v) => *v,
            None => 0,
        }
    }

    /// The client order id under which the server knows an order.
    pub fn server_clord(&self, id: OrderId) -> (r: String)
        ensures
            r@ == self@.server_clord(id),
    {
        match self.last_clord.get(&id) {
            Some(s) => s.clone(),
            None => versioned_text(id, self.version(id)),
        }
    }

    /// Keeps the client order id under which the server knows an order.
    pub fn set_clord(&mut self, id: OrderId, clord: String)
        ensures
            final(self)@ == (ContextView {
                clords: old(self)@.clords.insert(id, clord@),
                ..old(self)@
            }),
    {
        let ghost text = clord@;
        self.last_clord.insert(id, clord);
        proof {
            assert(self@.clords =~= old(self)@.clords.insert(id, text));
        }
    }

    /// The next order id.
    fn take_order_id(&mut self) -> (r: OrderId)
        requires
            old(self)@.next_order_id < u64::MAX,
        ensures
            r == old(self)@.next_order_id,
            final(self)@ == (ContextView {
                next_order_id: (old(self)@.next_order_id + 1) as u64,
                ..old(self)@
            }),
    {
        let id = self.next_order_id;
        self.next_order_id = id + 1;
        id
    }

    /// Asks for a limit order, and gives its id.
    pub fn submit_limit(
        &mut self,
        instrument: InstrumentId,
        side: Side,
        qty: u32,
        price: Price,
    ) -> (r: OrderId)
        requires
            old(self)@.next_order_id < u64::MAX,
        ensures
            r == old(self)@.next_order_id,
            final(self)@ == (ContextView {
                next_order_id: (r + 1) as u64,
                pending: old(self)@.pending.push(
                    OrderRequest::SubmitLimit { order_id: r, instrument, side, qty, price },
                ),
                ..old(self)@
            }),
    {
        let order_id = self.take_order_id();
        self.pending_orders.push(
            OrderRequest::SubmitLimit { order_id, instrument, side, qty, price },
        );
        order_id
    }

    /// Asks for a market order, and gives its id.
    pub fn submit_market(&mut self, instrument: InstrumentId, side: Side, qty: u32) -> (r: OrderId)
        requires
            old(self)@.next_order_id < u64::MAX,
        ensures
            r == old(self)@.next_order_id,
            final(self)@ == (ContextView {
                next_order_id: (r + 1) as u64,
                pending: old(self)@.pending.push(
                    OrderRequest::SubmitMarket { order_id: r, instrument, side, qty },
                ),
                ..old(self)@
            }),
    {
        let order_id = self.take_order_id();
        self.pending_orders.push(OrderRequest::SubmitMarket { order_id, instrument, side, qty });
        order_id
    }

    /// Asks for a stop order, and gives its id.
    pub fn submit_stop(
        &mut self,
        instrument: InstrumentId,
        side: Side,
        qty: u32,
        stop_price: Price,
    ) -> (r: OrderId)
        requires
            old(self)@.next_order_id < u64::MAX,
        ensures
            r == old(self)@.next_order_id,
            final(self)@ == (ContextView {
                next_order_id: (r + 1) as u64,
                pending: old(self)@.pending.push(
                    OrderRequest::SubmitStop { order_id: r, instrument, side, qty, stop_price },
                ),
                ..old(self)@
            }),
    {
        let order_id = self.take_order_id();
        self.pending_orders.push(
            OrderRequest::SubmitStop { order_id, instrument, side, qty, stop_price },
        );
        order_id
    }

    /// Asks for an order to be cancelled.
    pub fn cancel(&mut self, order_id: OrderId)
        ensures
            final(self)@ == (ContextView {
                pending: old(self)@.pending.push(OrderRequest::Cancel { order_id }),
                ..old(self)@
            }),
    {
        self.pending_orders.push(OrderRequest::Cancel { order_id });
    }

    /// Asks for all orders for an instrument to be cancelled.
    pub fn cancel_all(&mut self, instrument: InstrumentId)
        ensures
            final(self)@ == (ContextView {
                pending: old(self)@.pending.push(OrderRequest::CancelAll { instrument }),
                ..old(self)@
            }),
    {
        self.pending_orders.push(OrderRequest::CancelAll { instrument });
    }
}

/// The orders for an instrument that are not finished.
pub open spec fn open_orders(s: Seq<Order>, id: InstrumentId) -> Seq<Order> {
    s.filter(|o: Order| o.instrument == id && !is_final(o.status))
}

/// An order after the connection was lost.
pub open spec fn uncertain(o: Order) -> Order {
    if is_final(o.status) {
        o
    } else {
        Order { status: OrderStatus::Uncertain, ..o }
    }
}

/// A finished order keeps its status, whatever is reported, and no order that has come so far
/// goes back.
pub proof fn law_status_never_goes_back(c: ContextView, id: OrderId, new: OrderStatus)
    requires
        c.wf(),
        c.order(id) is Some,
    ensures
        ({
            let after = c.after_status(id, new).status(id);
            let before = c.status(id)->0;
            &&& after is Some
            &&& rank(after->0) >= rank(before)
            &&& is_final(before) ==> after->0 == before
        }),
{
    let o = c.order(id)->0;
    assert(o.order_id == id);
    law_put_then_find(c.orders, Order { status: new, ..o }, id);
}

} // verus!
