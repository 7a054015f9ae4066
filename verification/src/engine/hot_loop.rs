//! The engine: what it knows, and what follows from what comes in.
pub mod account_laws;
pub mod algo_laws;
pub mod arrival_laws;
pub mod bracket_laws;
pub mod ccp;
pub mod change_laws;
pub mod control;
pub mod exec_ids;
pub mod exec_report;
pub mod farm;
pub mod heartbeat;
pub mod history;
pub mod info_laws;
pub mod lookup_replies;
pub mod lookups;
pub mod message_laws;
pub mod numbers;
pub mod order_builder;
pub mod order_fields;
pub mod order_laws;
pub mod order_plans;
pub mod placing_laws;
pub mod plain_laws;
pub mod plain_orders;
pub mod plain_reports;
pub mod plain_tail_laws;
pub mod portfolio;
pub mod reading_laws;
pub mod report_laws;
pub mod server_reports;
pub mod special_laws;
pub mod status_laws;
pub mod tick_by_tick;
pub mod upkeep_laws;

use vstd::prelude::*;

use crate::bridge::{ContractView, Fill, NewsBulletin, Number};
use crate::engine::context::{Context, ContextView};
use crate::engine::hot_loop::ccp::{ccp_view, CcpState, MarketRule, SharedState};
use crate::engine::hot_loop::control::{
    can_follow, commanded, control_view, follow_command, ControlCommand, ControlStep,
};
use crate::engine::hot_loop::exec_report::fill_delta;
use crate::engine::hot_loop::farm::{
    ack_of, farm_kind, farm_message_kind, farm_subscription, handle_ticker_setup, market_lost,
    pending_from, read_subscription_ack, read_ticker_setup, read_ticks, resubscribed, setup_of,
    tick_source, ticks_in, FarmKind, FarmState, FarmView, TickStep,
};
use crate::engine::hot_loop::heartbeat::{
    fresh_link, step_if, BeatPlan, HeartbeatState, HeartbeatView, CCP_HEARTBEAT_SECS,
    FARM_HEARTBEAT_SECS,
};
use crate::engine::hot_loop::numbers::{field_numbers, number_of, NumberTable};
use crate::engine::hot_loop::order_builder::field_lists;
use crate::engine::hot_loop::plain_reports::{
    handle_account_update, handle_position_update, plain_account, plain_answer, plain_position,
    plain_processed, plain_view, told_if, PlainReports, StrategyEvent,
};
use crate::engine::hot_loop::portfolio::{DepthMktDataDescription, PositionUpdate};
use crate::engine::hot_loop::server_reports::{test_reply, test_reply_fields};
use crate::engine::hot_loop::tick_by_tick::{TbtState, TbtView};
use crate::engine::market_state::MarketView;
use crate::engine::order::Side;
use crate::protocol::fix::{
    field_or_empty, fix_parse, fix_values, lookup_or_empty, Fields,
};
use crate::protocol::tick_decoder::RawTick;
use crate::text::string_texts;
use crate::types::{InstrumentId, Price, MAX_INSTRUMENTS};

verus! {

/// What the engine knows. Its connections and the strategy that it runs are the caller's.
pub struct HotLoop {
    pub context: Context,
    /// What the strategy is to be told, and the fills that it was told of.
    pub reports: PlainReports,
    /// What clients see who follow the order connection in detail.
    pub shared: SharedState,
    pub farm: FarmState,
    pub ccp: CcpState,
    pub tbt: TbtState,
    pub hb: HeartbeatState,
    pub account_id: String,
    pub running: bool,
}

impl HotLoop {
    /// Each part is well-formed.
    pub open spec fn wf(self) -> bool {
        &&& ccp_view(self.ccp, self.context@, self.shared).wf()
        &&& self.farm@.wf()
    }
}

/// The smallest price step that a text gives, to the nearest price unit, with that text; a cent
/// when it is not a number.
pub open spec fn step_of(table: Seq<(Seq<char>, Number)>, text: Seq<char>) -> (Price, Seq<char>) {
    match number_of(table, text) {
        Some(n) => (n.rounded, text),
        None => (1_000_000, "0.01"@),
    }
}

/// The market and the subscriptions after an acknowledgement.
pub open spec fn after_ack(
    m: MarketView,
    f: FarmView,
    msg: Seq<u8>,
    table: Seq<(Seq<char>, Number)>,
) -> (MarketView, FarmView) {
    match ack_of(msg) {
        Some((server_tag, req_id, text)) => match pending_from(f.pending, req_id, 0) {
            Some(i) => (
                tick_source(m, server_tag, f.pending[i].1, step_of(table, text)),
                FarmView { pending: f.pending.remove(i), ..f },
            ),
            None => (m, f),
        },
        None => (m, f),
    }
}

/// The market after a ticker's setup.
pub open spec fn after_setup(m: MarketView, msg: Seq<u8>, table: Seq<(Seq<char>, Number)>) -> MarketView {
    match setup_of(msg) {
        Some((con_id, text, server_tag)) => match m.instrument_of(con_id) {
            Some(instrument) => tick_source(m, server_tag, instrument, step_of(table, text)),
            None => m,
        },
        None => m,
    }
}

/// What follows from a message over the market data connection.
pub enum FarmStep {
    /// Nothing.
    Nothing,
    /// A message is to be sent.
    Reply(Fields),
    /// Ticks have come, which are to be applied.
    Ticks(Vec<RawTick>),
    /// Ticks have come that cannot be read.
    Unreadable,
}

/// Whether a step is what follows from a message.
pub open spec fn follows(step: FarmStep, msg: Seq<u8>, stamp: Seq<char>) -> bool {
    let v = fix_values(msg);
    match farm_kind(v) {
        FarmKind::Ticks => match ticks_in(msg) {
            Some(ticks) => step matches FarmStep::Ticks(t) && t@ == ticks,
            None => step is Unreadable,
        },
        FarmKind::TestRequest => step matches FarmStep::Reply(f) && f@ == test_reply(
            stamp,
            lookup_or_empty(v, 112),
        ),
        _ => step is Nothing,
    }
}

/// The request for the status of all orders.
pub open spec fn mass_status_request(stamp: Seq<char>) -> Seq<(u32, Seq<char>)> {
    seq![
        (35u32, "H"@),
        (52u32, stamp),
        (11u32, "*"@),
        (54u32, "*"@),
        (55u32, "*"@),
    ]
}

fn mass_status_fields(stamp: &str) -> (r: Fields)
    ensures
        r@ == mass_status_request(stamp@),
{
    let mut f = Fields::new();
    f.put_str(35, "H");
    f.put_str(52, stamp);
    f.put_str(11, "*");
    f.put_str(54, "*");
    f.put_str(55, "*");
    proof {
        assert(f@ =~= mass_status_request(stamp@));
    }
    f
}

impl HotLoop {
    /// An engine that knows nothing, at a time in milliseconds.
    pub fn new(now: u64) -> (r: Self)
        ensures
            r.wf(),
            r.context@ == crate::engine::context::empty_context(1),
            string_texts(r.reports.seen_exec_ids@) == Seq::<Seq<char>>::empty(),
            r.reports.events@ == Seq::<StrategyEvent>::empty(),
            r.shared.orders@ == crate::bridge::no_order_reports(),
            r.shared.portfolio@ == crate::bridge::empty_portfolio(),
            r.shared.contracts@ == Map::<i64, ContractView>::empty(),
            r.shared.instrument_count == 0,
            r.shared.bulletins@ == Seq::<NewsBulletin>::empty(),
            r.shared.positions@ == Seq::<PositionUpdate>::empty(),
            r.shared.depth_exchanges@ == Seq::<DepthMktDataDescription>::empty(),
            r.shared.market_rules@ == Seq::<MarketRule>::empty(),
            r.farm@ == crate::engine::hot_loop::farm::no_subscriptions(),
            r.ccp.exec_ids@ == Seq::<Seq<char>>::empty(),
            r.ccp.commissions@ == Seq::<(Seq<char>, u64)>::empty(),
            r.ccp.bulletin_next_id == 0,
            r.ccp.news_subscriptions@ == Seq::<(InstrumentId, u32)>::empty(),
            !r.ccp.disconnected,
            r.ccp.lookups@ == crate::engine::hot_loop::lookups::no_lookups(),
            r.tbt@ == (TbtView {
                next: 1,
                subscriptions: Seq::empty(),
                prices: Seq::empty(),
                disconnected: false,
            }),
            r.hb@ == (HeartbeatView {
                ccp: fresh_link(now),
                farm: fresh_link(now),
                hmds: fresh_link(now),
                counter: 0,
            }),
            r.account_id@ == Seq::<char>::empty(),
            r.running,
    {
        HotLoop {
            context: Context::new(),
            reports: PlainReports::new(),
            shared: SharedState::new(),
            farm: FarmState::new(),
            ccp: CcpState::new(),
            tbt: TbtState::new(),
            hb: HeartbeatState::new(now),
            account_id: String::new(),
            running: true,
        }
    }

    /// Sets the account that orders are for.
    pub fn set_account_id(&mut self, account_id: String)
        ensures
            *final(self) == (HotLoop { account_id, ..*old(self) }),
    {
        self.account_id = account_id;
    }

    /// What the engine knows of the market and of orders, to be set up before it runs.
    pub fn context_mut(&mut self) -> (r: &mut Context)
        ensures
            *r == old(self).context,
            *final(self) == (HotLoop { context: *final(r), ..*old(self) }),
    {
        &mut self.context
    }

    /// When each connection last sent and received.
    pub fn heartbeat_state(&self) -> (r: &HeartbeatState)
        ensures
            *r == self.hb,
    {
        &self.hb
    }

    /// When each connection last sent and received.
    pub fn heartbeat_state_mut(&mut self) -> (r: &mut HeartbeatState)
        ensures
            *r == old(self).hb,
            *final(self) == (HotLoop { hb: *final(r), ..*old(self) }),
    {
        &mut self.hb
    }

    /// Whether the market data connection is lost.
    pub fn is_farm_disconnected(&self) -> (r: bool)
        ensures
            r == self.farm@.disconnected,
    {
        self.farm.disconnected
    }

    /// Whether the order connection is lost.
    pub fn is_ccp_disconnected(&self) -> (r: bool)
        ensures
            r == self.ccp.disconnected,
    {
        self.ccp.disconnected
    }

    /// Takes in that the market data connection is lost, and leaves that for the strategy.
    pub fn handle_farm_disconnect(&mut self)
        requires
            old(self).wf(),
        ensures
            final(self).wf(),
            final(self).farm@ == old(self).farm@.lost(),
            final(self).context@ == (ContextView {
                market: market_lost(old(self).context@.market),
                ..old(self).context@
            }),
            final(self).reports.told(old(self).reports, StrategyEvent::Disconnected),
            *final(self) == (HotLoop {
                farm: final(self).farm,
                context: final(self).context,
                reports: final(self).reports,
                ..*old(self)
            }),
    {
        self.farm.handle_farm_disconnect(&mut self.context.market);
        self.reports.tell(StrategyEvent::Disconnected);
    }

    /// Takes in that the order connection is lost, and leaves that for the strategy.
    pub fn handle_ccp_disconnect(&mut self)
        requires
            old(self).wf(),
        ensures
            final(self).wf(),
            final(self).context@ == old(self).context@.with_uncertain_orders(),
            final(self).ccp == (CcpState { disconnected: true, ..old(self).ccp }),
            final(self).reports.told(old(self).reports, StrategyEvent::Disconnected),
            *final(self) == (HotLoop {
                ccp: final(self).ccp,
                context: final(self).context,
                reports: final(self).reports,
                ..*old(self)
            }),
    {
        self.ccp.handle_disconnect(&mut self.context);
        self.reports.tell(StrategyEvent::Disconnected);
    }

    /// Takes in that there is a new market data connection, and gives the messages that
    /// subscribe to all instruments again.
    pub fn reconnect_farm(&mut self, now: u64, stamp: &str) -> (r: Vec<Fields>)
        requires
            old(self).wf(),
            old(self).farm@.next + 2 * MAX_INSTRUMENTS <= u32::MAX,
        ensures
            final(self).wf(),
            final(self).farm@ == resubscribed(old(self).farm@, old(self).context@.market),
            final(self).hb@ == (HeartbeatView { farm: fresh_link(now), ..old(self).hb@ }),
            *final(self) == (HotLoop {
                farm: final(self).farm,
                hb: final(self).hb,
                ..*old(self)
            }),
            r@.len() == old(self).context@.market.con_ids.len(),
            forall|i: int|
                0 <= i < r@.len() ==> (#[trigger] r@[i])@ == farm_subscription(
                    stamp@,
                    (old(self).farm@.next + 2 * i) as u32,
                    old(self).context@.market.con_ids[i],
                ),
    {
        self.hb.farm_reconnected(now);
        self.farm.reconnect_farm(&self.context.market, stamp)
    }

    /// Takes in that there is a new order connection, and gives the request for the status of all
    /// orders. Those that were filled or cancelled meanwhile are then reported.
    pub fn reconnect_ccp(&mut self, now: u64, stamp: &str) -> (r: Vec<Fields>)
        requires
            old(self).wf(),
        ensures
            final(self).wf(),
            final(self).ccp == (CcpState { disconnected: false, ..old(self).ccp }),
            final(self).hb@ == (HeartbeatView { ccp: fresh_link(now), ..old(self).hb@ }),
            *final(self) == (HotLoop {
                ccp: final(self).ccp,
                hb: final(self).hb,
                ..*old(self)
            }),
            field_lists(r@) == seq![mass_status_request(stamp@)],
    {
        self.ccp.disconnected = false;
        self.hb.ccp_reconnected(now);
        let f = mass_status_fields(stamp);
        let mut r: Vec<Fields> = Vec::new();
        r.push(f);
        proof {
            assert(field_lists(r@) =~= seq![mass_status_request(stamp@)]);
        }
        r
    }

    /// Looks at the time: what is to be done about each connection that there is. One that is
    /// lost is taken as such, which is left for the strategy in the case of the order connection
    /// and of the market data connection.
    pub fn check_heartbeats(&mut self, now: u64, ccp: bool, farm: bool, hmds: bool) -> (r: BeatPlan)
        requires
            old(self).wf(),
            old(self).hb@.counter < u32::MAX - 2,
        ensures
            final(self).wf(),
            ({
                let s = *old(self);
                let c = step_if(
                    ccp && !s.ccp.disconnected,
                    s.hb@.ccp,
                    s.hb@.counter as int,
                    now,
                    CCP_HEARTBEAT_SECS,
                );
                let f = step_if(
                    farm && !s.farm@.disconnected,
                    s.hb@.farm,
                    c.counter,
                    now,
                    FARM_HEARTBEAT_SECS,
                );
                let h = step_if(
                    hmds && !s.tbt@.disconnected && s.tbt@.subscriptions.len() > 0,
                    s.hb@.hmds,
                    f.counter,
                    now,
                    FARM_HEARTBEAT_SECS,
                );
                let orders_uncertain = if c.lost {
                    s.context@.with_uncertain_orders()
                } else {
                    s.context@
                };
                &&& r.ccp.is(c)
                &&& r.farm.is(f)
                &&& r.hmds.is(h)
                &&& final(self).hb@ == (HeartbeatView {
                    ccp: c.link,
                    farm: f.link,
                    hmds: h.link,
                    counter: h.counter as u32,
                })
                &&& final(self).ccp == (CcpState {
                    disconnected: s.ccp.disconnected || c.lost,
                    ..s.ccp
                })
                &&& final(self).farm@ == (if f.lost {
                    s.farm@.lost()
                } else {
                    s.farm@
                })
                &&& final(self).tbt@ == (TbtView {
                    disconnected: s.tbt@.disconnected || h.lost,
                    ..s.tbt@
                })
                &&& final(self).context@ == (if f.lost {
                    ContextView {
                        market: market_lost(orders_uncertain.market),
                        ..orders_uncertain
                    }
                } else {
                    orders_uncertain
                })
                &&& final(self).reports.events@ == told_if(
                    told_if(s.reports.events@, c.lost, StrategyEvent::Disconnected),
                    f.lost,
                    StrategyEvent::Disconnected,
                )
                &&& final(self).reports.seen_exec_ids == s.reports.seen_exec_ids
                &&& final(self).shared == s.shared
                &&& final(self).account_id == s.account_id
                &&& final(self).running == s.running
            }),
    {
        let subscribed = self.tbt.tbt_subscriptions.len() > 0;
        proof {
            assert(self.tbt@.subscriptions.len() == self.tbt.tbt_subscriptions@.len());
        }
        let plan = self.hb.check_heartbeats(
            now,
            ccp && !self.ccp.disconnected,
            farm && !self.farm.disconnected,
            hmds && !self.tbt.disconnected && subscribed,
        );
        if plan.ccp.lost {
            self.handle_ccp_disconnect();
        }
        if plan.farm.lost {
            self.handle_farm_disconnect();
        }
        if plan.hmds.lost {
            self.tbt.disconnected = true;
        }
        proof {
            assert(self.tbt@.subscriptions =~= old(self).tbt@.subscriptions);
        }
        plan
    }

    /// Takes in a message over the order connection. `table` tells what its texts stand for that
    /// read as decimal numbers. Gives the message that answers it, if one does.
    pub fn inject_ccp_message(&mut self, msg: &[u8], table: &NumberTable, stamp: &str) -> (r: Option<
        Fields,
    >)
        requires
            old(self).wf(),
        ensures
            final(self).wf(),
            plain_view(final(self).reports, final(self).context@) == plain_processed(
                plain_view(old(self).reports, old(self).context@),
                msg@,
                table@,
            ),
            *final(self) == (HotLoop {
                context: final(self).context,
                reports: final(self).reports,
                ..*old(self)
            }),
            match r {
                Some(f) => plain_answer(msg@, stamp@) == Some(f@),
                None => plain_answer(msg@, stamp@) is None,
            },
    {
        self.reports.process_message(msg, table, &mut self.context, stamp)
    }

    /// Takes in a message over the market data connection. `table` tells what its texts stand
    /// for that read as decimal numbers.
    pub fn inject_farm_message(&mut self, msg: &[u8], table: &NumberTable, stamp: &str) -> (r:
        FarmStep)
        requires
            old(self).wf(),
            msg@.len() * 8 <= usize::MAX,
        ensures
            final(self).wf(),
            follows(r, msg@, stamp@),
            *final(self) == (HotLoop {
                farm: final(self).farm,
                context: final(self).context,
                ..*old(self)
            }),
            match farm_kind(fix_values(msg@)) {
                FarmKind::SubscriptionAck => {
                    let (m, f) = after_ack(
                        old(self).context@.market,
                        old(self).farm@,
                        msg@,
                        table@,
                    );
                    &&& final(self).farm@ == f
                    &&& final(self).context@ == (ContextView { market: m, ..old(self).context@ })
                },
                FarmKind::TickerSetup => {
                    &&& final(self).farm == old(self).farm
                    &&& final(self).context@ == (ContextView {
                        market: after_setup(old(self).context@.market, msg@, table@),
                        ..old(self).context@
                    })
                },
                FarmKind::AccountUpdate => {
                    &&& final(self).farm == old(self).farm
                    &&& final(self).context@ == (ContextView {
                        account: plain_account(old(self).context@.account, msg@, table@),
                        ..old(self).context@
                    })
                },
                FarmKind::Portfolio => {
                    let v = fix_values(msg@);
                    &&& final(self).farm == old(self).farm
                    &&& final(self).context@ == plain_position(
                        old(self).context@,
                        v,
                        field_numbers(v, table@),
                    )
                },
                _ => *final(self) == *old(self),
            },
    {
        let m = fix_parse(msg);
        match farm_message_kind(&m) {
            FarmKind::Ticks => match read_ticks(msg) {
                Some(ticks) => FarmStep::Ticks(ticks),
                None => FarmStep::Unreadable,
            },
            FarmKind::SubscriptionAck => {
                if let Some(ack) = read_subscription_ack(msg) {
                    let step = price_step(table, ack.min_tick);
                    self.farm.handle_subscription_ack(
                        ack.server_tag,
                        ack.req_id,
                        step,
                        &mut self.context.market,
                    );
                }
                FarmStep::Nothing
            },
            FarmKind::TestRequest => {
                let id = field_or_empty(&m, 112);
                FarmStep::Reply(test_reply_fields(stamp, id.as_str()))
            },
            FarmKind::TickerSetup => {
                if let Some(s) = read_ticker_setup(msg) {
                    let step = price_step(table, s.min_tick);
                    handle_ticker_setup(
                        s.con_id,
                        step,
                        s.server_tag,
                        &mut self.context.market,
                    );
                }
                FarmStep::Nothing
            },
            FarmKind::AccountUpdate => {
                handle_account_update(msg, table, &mut self.context);
                FarmStep::Nothing
            },
            FarmKind::Portfolio => {
                let n = table.of_fields(&m);
                handle_position_update(&m, &n, &mut self.context);
                FarmStep::Nothing
            },
            FarmKind::Other => FarmStep::Nothing,
        }
    }

    /// Follows a command. The messages that it gives are added to those of the step. That the
    /// engine stops is left for the strategy.
    pub fn inject_command(&mut self, cmd: ControlCommand, stamp: &str, step: &mut ControlStep)
        requires
            old(self).wf(),
            can_follow(
                cmd,
                control_view(
                    old(self).context@,
                    old(self).farm@,
                    old(self).tbt@,
                    *old(step),
                ),
            ),
        ensures
            final(self).wf(),
            control_view(final(self).context@, final(self).farm@, final(self).tbt@, *final(step))
                == commanded(
                control_view(old(self).context@, old(self).farm@, old(self).tbt@, *old(step)),
                cmd,
                stamp@,
            ),
            *final(self) == (HotLoop {
                context: final(self).context,
                farm: final(self).farm,
                tbt: final(self).tbt,
                running: final(self).running,
                reports: final(self).reports,
                ..*old(self)
            }),
            final(self).running == (old(self).running && !final(step).stop),
            final(self).reports.events@ == told_if(
                old(self).reports.events@,
                cmd is Shutdown,
                StrategyEvent::Disconnected,
            ),
            final(self).reports.seen_exec_ids == old(self).reports.seen_exec_ids,
    {
        let stops = matches!(cmd, ControlCommand::Shutdown);
        follow_command(cmd, &mut self.context, &mut self.farm, &mut self.tbt, stamp, step);
        if step.stop {
            self.running = false;
        }
        if stops {
            self.reports.tell(StrategyEvent::Disconnected);
        }
    }

    /// Takes in that the quote of an instrument has changed, and leaves that for the strategy.
    pub fn inject_tick(&mut self, instrument: InstrumentId)
        ensures
            final(self).reports.told(old(self).reports, StrategyEvent::Tick(instrument)),
            *final(self) == (HotLoop { reports: final(self).reports, ..*old(self) }),
    {
        self.reports.tell(StrategyEvent::Tick(instrument));
    }

    /// Takes in a fill that no report has announced: the position moves by its quantity, and the
    /// fill is left for the strategy.
    pub fn inject_fill(&mut self, fill: &Fill)
        requires
            old(self).wf(),
            fill.instrument < MAX_INSTRUMENTS,
            fill.qty_fixed > i64::MIN,
        ensures
            final(self).wf(),
            final(self).context@ == old(self).context@.with_position(
                fill.instrument,
                fill_delta(fill.side, fill.qty_fixed as int),
            ),
            ({
                let before = old(self).context@.positions[fill.instrument as int];
                let after = final(self).context@.positions[fill.instrument as int];
                &&& fill.side == Side::Buy && i64::MIN <= before + fill.qty_fixed <= i64::MAX
                    ==> after == before + fill.qty_fixed
                &&& fill.side == Side::Sell && i64::MIN <= before - fill.qty_fixed <= i64::MAX
                    ==> after == before - fill.qty_fixed
                &&& fill.side == Side::ShortSell && i64::MIN <= before - fill.qty_fixed
                    <= i64::MAX ==> after == before - fill.qty_fixed
            }),
            final(self).reports.told(old(self).reports, StrategyEvent::Fill(*fill)),
            *final(self) == (HotLoop {
                context: final(self).context,
                reports: final(self).reports,
                ..*old(self)
            }),
    {
        let delta: i64 = match fill.side {
            Side::Buy => fill.qty_fixed,
            Side::Sell | Side::ShortSell => -fill.qty_fixed,
        };
        self.context.update_position_fixed(fill.instrument, delta);
        self.reports.tell(StrategyEvent::Fill(*fill));
    }
}

/// The smallest price step that a text gives.
fn price_step(table: &NumberTable, text: String) -> (r: TickStep)
    ensures
        r@ == step_of(table@, text@),
{
    match table.number(text.as_str()) {
        Some(n) => TickStep { units: n.rounded, text },
        None => TickStep { units: 1_000_000, text: "0.01".to_owned() },
    }
}

} // verus!
