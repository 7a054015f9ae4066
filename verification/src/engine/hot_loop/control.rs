//! Commands to the engine.
use vstd::prelude::*;

use crate::engine::context::{Context, ContextView};
use crate::engine::hot_loop::farm::{farm_subscription, FarmState, FarmView};
use crate::engine::hot_loop::order_builder::field_lists;
use crate::engine::hot_loop::tick_by_tick::{
    query_message, tbt_cancel_query, tbt_from, tbt_query, without_prices, TbtState, TbtType,
    TbtView,
};
use crate::engine::market_state::MarketView;
use crate::engine::order::OrderRequest;
use crate::gateway::mktdata_unsubscribe;
use crate::protocol::fix::Fields;
use crate::text::dec;
use crate::types::{InstrumentId, MAX_INSTRUMENTS};

verus! {

/// A command to the engine.
pub enum ControlCommand {
    /// Registers a contract, and subscribes to its market data.
    Subscribe { con_id: i64, symbol: String },
    /// Ends the market data subscriptions of an instrument.
    Unsubscribe { instrument: InstrumentId },
    /// Registers a contract, and subscribes to its tick-by-tick data.
    SubscribeTbt { con_id: i64, symbol: String, tbt_type: TbtType },
    /// Ends the tick-by-tick subscription of an instrument.
    UnsubscribeTbt { instrument: InstrumentId },
    /// Changes a parameter. There is none that the engine knows.
    UpdateParam { key: String, value: String },
    /// Requests an order.
    Order(OrderRequest),
    /// Registers a contract.
    RegisterInstrument { con_id: i64 },
    /// Ends all subscriptions, and stops the engine.
    Shutdown,
}

/// The fields of messages.
pub type Messages = Seq<Seq<(u32, Seq<char>)>>;

/// What commands change, and what follows from one: the messages to each connection, and
/// whether the engine stops.
pub ghost struct ControlView {
    pub c: ContextView,
    pub farm: FarmView,
    pub tbt: TbtView,
    pub farm_out: Messages,
    pub hmds_out: Messages,
    pub stop: bool,
}

/// Whether a contract can be registered.
pub open spec fn has_room(m: MarketView, con_id: i64) -> bool {
    m.con_ids.contains(con_id) || m.con_ids.len() < MAX_INSTRUMENTS
}

/// Whether a command can be followed: there is room for the contract that it registers, and
/// there are numbers left for its requests.
pub open spec fn can_follow(cmd: ControlCommand, s: ControlView) -> bool {
    match cmd {
        ControlCommand::Subscribe { con_id, .. } => has_room(s.c.market, con_id) && s.farm.next
            < u32::MAX - 1,
        ControlCommand::SubscribeTbt { con_id, .. } => has_room(s.c.market, con_id) && s.tbt.next
            < u32::MAX,
        ControlCommand::RegisterInstrument { con_id } => has_room(s.c.market, con_id),
        _ => true,
    }
}

/// The market in which a contract is registered under a symbol.
pub open spec fn named(m: MarketView, con_id: i64, symbol: Seq<char>) -> MarketView {
    let r = m.registered(con_id);
    MarketView {
        symbols: r.symbols.update(r.instrument_of(con_id)->0 as int, symbol),
        ..r
    }
}

/// The messages that end the requests of a list.
pub open spec fn end_messages(reqs: Seq<u32>) -> Messages {
    reqs.map_values(|r: u32| mktdata_unsubscribe(dec(r as nat)))
}

/// The messages that end the requests of all instruments of a list, in order.
pub open spec fn all_end_messages(active: Seq<(InstrumentId, Seq<u32>)>) -> Messages
    decreases active.len(),
{
    if active.len() == 0 {
        Seq::empty()
    } else {
        end_messages(active[0].1) + all_end_messages(active.skip(1))
    }
}

/// The messages that end the tick-by-tick subscriptions of a list, in order.
pub open spec fn all_cancel_messages(
    s: Seq<(InstrumentId, Seq<char>, TbtType)>,
    now: Seq<char>,
) -> Messages
    decreases s.len(),
{
    if s.len() == 0 {
        Seq::empty()
    } else {
        seq![query_message("Z"@, now, tbt_cancel_query(s[0].1))] + all_cancel_messages(
            s.skip(1),
            now,
        )
    }
}

/// After the end of all tick-by-tick subscriptions.
pub open spec fn tbt_closed(s: TbtView) -> TbtView
    decreases s.subscriptions.len(),
{
    if s.subscriptions.len() == 0 {
        s
    } else {
        tbt_closed(
            TbtView {
                subscriptions: s.subscriptions.skip(1),
                prices: without_prices(s.prices, s.subscriptions[0].0),
                ..s
            },
        )
    }
}

/// After a command.
pub open spec fn commanded(s: ControlView, cmd: ControlCommand, now: Seq<char>) -> ControlView {
    match cmd {
        ControlCommand::Subscribe { con_id, symbol } => {
            let market = named(s.c.market, con_id, symbol@);
            ControlView {
                c: ContextView { market, ..s.c },
                farm: s.farm.subscribed(market.instrument_of(con_id)->0),
                farm_out: s.farm_out.push(farm_subscription(now, s.farm.next, con_id)),
                ..s
            }
        },
        ControlCommand::Unsubscribe { instrument } => ControlView {
            farm: s.farm.unsubscribed(instrument),
            farm_out: s.farm_out + end_messages(s.farm.requests(instrument)),
            ..s
        },
        ControlCommand::SubscribeTbt { con_id, symbol, tbt_type } => {
            let market = named(s.c.market, con_id, symbol@);
            ControlView {
                c: ContextView { market, ..s.c },
                tbt: s.tbt.subscribed(market.instrument_of(con_id)->0, tbt_type),
                hmds_out: s.hmds_out.push(
                    query_message("W"@, now, tbt_query(s.tbt.next, con_id, tbt_type)),
                ),
                ..s
            }
        },
        ControlCommand::UnsubscribeTbt { instrument } => ControlView {
            tbt: s.tbt.unsubscribed(instrument),
            hmds_out: match tbt_from(s.tbt.subscriptions, instrument, 0) {
                Some(i) => s.hmds_out.push(
                    query_message("Z"@, now, tbt_cancel_query(s.tbt.subscriptions[i].1)),
                ),
                None => s.hmds_out,
            },
            ..s
        },
        ControlCommand::UpdateParam { .. } => s,
        ControlCommand::Order(req) => ControlView {
            c: ContextView { pending: s.c.pending.push(req), ..s.c },
            ..s
        },
        ControlCommand::RegisterInstrument { con_id } => ControlView {
            c: ContextView { market: s.c.market.registered(con_id), ..s.c },
            ..s
        },
        ControlCommand::Shutdown => ControlView {
            farm: FarmView { active: Seq::empty(), ..s.farm },
            tbt: tbt_closed(s.tbt),
            farm_out: s.farm_out + all_end_messages(s.farm.active),
            hmds_out: s.hmds_out + all_cancel_messages(s.tbt.subscriptions, now),
            stop: true,
            ..s
        },
    }
}

/// What follows from commands: the messages to each connection, and whether the engine stops.
pub struct ControlStep {
    pub farm_messages: Vec<Fields>,
    pub hmds_messages: Vec<Fields>,
    pub stop: bool,
}

/// The state as commands see it.
pub open spec fn control_view(
    c: ContextView,
    farm: FarmView,
    tbt: TbtView,
    step: ControlStep,
) -> ControlView {
    ControlView {
        c,
        farm,
        tbt,
        farm_out: field_lists(step.farm_messages@),
        hmds_out: field_lists(step.hmds_messages@),
        stop: step.stop,
    }
}

impl ControlStep {
    /// Nothing follows yet.
    pub fn new() -> (r: Self)
        ensures
            field_lists(r.farm_messages@) == Seq::<Seq<(u32, Seq<char>)>>::empty(),
            field_lists(r.hmds_messages@) == Seq::<Seq<(u32, Seq<char>)>>::empty(),
            !r.stop,
    {
        let r = ControlStep { farm_messages: Vec::new(), hmds_messages: Vec::new(), stop: false };
        proof {
            assert(field_lists(r.farm_messages@) =~= Seq::empty());
            assert(field_lists(r.hmds_messages@) =~= Seq::empty());
        }
        r
    }
}

fn push_message(out: &mut Vec<Fields>, f: Fields)
    ensures
        field_lists(final(out)@) == field_lists(old(out)@).push(f@),
{
    let ghost view = f@;
    out.push(f);
    proof {
        assert(field_lists(out@) =~= field_lists(old(out)@).push(view));
    }
}

fn append_messages(out: &mut Vec<Fields>, more: Vec<Fields>)
    ensures
        field_lists(final(out)@) == field_lists(old(out)@) + field_lists(more@),
{
    let ghost all = more@;
    let mut rest = more;
    out.append(&mut rest);
    proof {
        assert(field_lists(out@) =~= field_lists(old(out)@) + field_lists(all));
    }
}

/// Ends the market data subscriptions of an instrument.
fn end_subscriptions(farm: &mut FarmState, instrument: InstrumentId, out: &mut Vec<Fields>)
    ensures
        final(farm)@ == old(farm)@.unsubscribed(instrument),
        old(farm)@.wf() ==> final(farm)@.wf(),
        field_lists(final(out)@) == field_lists(old(out)@) + end_messages(
            old(farm)@.requests(instrument),
        ),
{
    let messages = farm.send_mktdata_unsubscribe(instrument);
    proof {
        let reqs = old(farm)@.requests(instrument);
        assert(field_lists(messages@) =~= end_messages(reqs)) by {
            assert forall|i: int| 0 <= i < reqs.len() implies #[trigger] field_lists(messages@)[i]
                == end_messages(reqs)[i] by {
                assert(messages@[i]@ == mktdata_unsubscribe(dec(reqs[i] as nat)));
            }
        }
    }
    append_messages(out, messages);
}

/// Ends all market data subscriptions.
fn close_farm(farm: &mut FarmState, out: &mut Vec<Fields>)
    ensures
        final(farm)@ == (FarmView { active: Seq::empty(), ..old(farm)@ }),
        old(farm)@.wf() ==> final(farm)@.wf(),
        field_lists(final(out)@) == field_lists(old(out)@) + all_end_messages(old(farm)@.active),
{
    let ghost goal = field_lists(old(out)@) + all_end_messages(old(farm)@.active);
    while farm.instrument_md_reqs.len() > 0
        invariant
            farm@ == (FarmView { active: farm@.active, ..old(farm)@ }),
            field_lists(out@) + all_end_messages(farm@.active) == goal,
        decreases farm@.active.len(),
    {
        let ghost before = farm@;
        let ghost sent = field_lists(out@);
        let instrument = farm.instrument_md_reqs[0].0;
        proof {
            assert(before.active[0].0 == instrument);
            assert(before.active.len() == farm.instrument_md_reqs@.len());
        }
        end_subscriptions(farm, instrument, out);
        proof {
            assert(farm@.active =~= before.active.skip(1));
            assert(field_lists(out@) + all_end_messages(farm@.active) =~= sent + (end_messages(
                before.active[0].1,
            ) + all_end_messages(before.active.skip(1))));
        }
    }
    proof {
        assert(farm@.active =~= Seq::empty());
        assert(field_lists(out@) + Seq::<Seq<(u32, Seq<char>)>>::empty() =~= field_lists(out@));
    }
}

/// Ends all tick-by-tick subscriptions.
fn close_tbt(tbt: &mut TbtState, now: &str, out: &mut Vec<Fields>)
    ensures
        final(tbt)@ == tbt_closed(old(tbt)@),
        field_lists(final(out)@) == field_lists(old(out)@) + all_cancel_messages(
            old(tbt)@.subscriptions,
            now@,
        ),
{
    let ghost goal = field_lists(old(out)@) + all_cancel_messages(
        old(tbt)@.subscriptions,
        now@,
    );
    while tbt.tbt_subscriptions.len() > 0
        invariant
            tbt_closed(tbt@) == tbt_closed(old(tbt)@),
            field_lists(out@) + all_cancel_messages(tbt@.subscriptions, now@) == goal,
        decreases tbt@.subscriptions.len(),
    {
        let ghost before = tbt@;
        let ghost sent = field_lists(out@);
        let instrument = tbt.tbt_subscriptions[0].0;
        proof {
            assert(before.subscriptions[0].0 == instrument);
            assert(before.subscriptions.len() == tbt.tbt_subscriptions@.len());
            assert(tbt_from(before.subscriptions, instrument, 0) == Some(0int));
        }
        if let Some(f) = tbt.send_tbt_unsubscribe(instrument, now) {
            push_message(out, f);
        }
        proof {
            let message = query_message(
                "Z"@,
                now@,
                tbt_cancel_query(before.subscriptions[0].1),
            );
            assert(tbt@.subscriptions =~= before.subscriptions.skip(1));
            assert(field_lists(out@) + all_cancel_messages(tbt@.subscriptions, now@) =~= sent + (
            seq![message] + all_cancel_messages(before.subscriptions.skip(1), now@)));
        }
    }
    proof {
        assert(tbt@.subscriptions =~= Seq::empty());
        assert(field_lists(out@) + Seq::<Seq<(u32, Seq<char>)>>::empty() =~= field_lists(out@));
    }
}

/// Whether a command can be followed.
pub fn is_possible(cmd: &ControlCommand, context: &Context, farm: &FarmState, tbt: &TbtState) -> (r:
    bool)
    requires
        context@.wf(),
    ensures
        forall|step: ControlStep|
            r == #[trigger] can_follow(*cmd, control_view(context@, farm@, tbt@, step)),
{
    match cmd {
        ControlCommand::Subscribe { con_id, .. } => is_room(context, *con_id)
            && farm.next_md_req_id < u32::MAX - 1,
        ControlCommand::SubscribeTbt { con_id, .. } => is_room(context, *con_id)
            && tbt.next_tbt_req_id < u32::MAX,
        ControlCommand::RegisterInstrument { con_id } => is_room(context, *con_id),
        _ => true,
    }
}

fn is_room(context: &Context, con_id: i64) -> (r: bool)
    requires
        context@.wf(),
    ensures
        r == has_room(context@.market, con_id),
{
    context.market.instrument_by_con_id(con_id).is_some() || (context.market.count() as usize)
        < MAX_INSTRUMENTS
}

/// Follows a command. The messages that it gives are added to those of the step.
pub fn follow_command(
    cmd: ControlCommand,
    context: &mut Context,
    farm: &mut FarmState,
    tbt: &mut TbtState,
    now: &str,
    step: &mut ControlStep,
)
    requires
        old(context)@.wf(),
        old(farm)@.wf(),
        can_follow(cmd, control_view(old(context)@, old(farm)@, old(tbt)@, *old(step))),
    ensures
        final(context)@.wf(),
        final(farm)@.wf(),
        control_view(final(context)@, final(farm)@, final(tbt)@, *final(step)) == commanded(
            control_view(old(context)@, old(farm)@, old(tbt)@, *old(step)),
            cmd,
            now@,
        ),
{
    match cmd {
        ControlCommand::Subscribe { con_id, symbol } => {
            let id = context.register_instrument(con_id);
            context.set_symbol(id, symbol);
            let f = farm.send_mktdata_subscribe(con_id, id, now);
            push_message(&mut step.farm_messages, f);
        },
        ControlCommand::Unsubscribe { instrument } => {
            end_subscriptions(farm, instrument, &mut step.farm_messages);
        },
        ControlCommand::SubscribeTbt { con_id, symbol, tbt_type } => {
            let id = context.register_instrument(con_id);
            context.set_symbol(id, symbol);
            let f = tbt.send_tbt_subscribe(con_id, id, tbt_type, now);
            push_message(&mut step.hmds_messages, f);
        },
        ControlCommand::UnsubscribeTbt { instrument } => {
            if let Some(f) = tbt.send_tbt_unsubscribe(instrument, now) {
                push_message(&mut step.hmds_messages, f);
            }
        },
        ControlCommand::UpdateParam { key: _, value: _ } => {},
        ControlCommand::Order(req) => {
            context.pending_orders.push(req);
        },
        ControlCommand::RegisterInstrument { con_id } => {
            context.register_instrument(con_id);
        },
        ControlCommand::Shutdown => {
            close_farm(farm, &mut step.farm_messages);
            close_tbt(tbt, now, &mut step.hmds_messages);
            step.stop = true;
        },
    }
}

proof fn lemma_tbt_closed(s: TbtView)
    ensures
        tbt_closed(s).subscriptions.len() == 0,
    decreases s.subscriptions.len(),
{
    if s.subscriptions.len() > 0 {
        lemma_tbt_closed(
            TbtView {
                subscriptions: s.subscriptions.skip(1),
                prices: without_prices(s.prices, s.subscriptions[0].0),
                ..s
            },
        );
    }
}

/// A shutdown ends every subscription, of market data and of tick-by-tick data, and stops the
/// engine.
pub proof fn law_shutdown_leaves_nothing(s: ControlView, now: Seq<char>)
    ensures
        commanded(s, ControlCommand::Shutdown, now).farm.active.len() == 0,
        commanded(s, ControlCommand::Shutdown, now).tbt.subscriptions.len() == 0,
        commanded(s, ControlCommand::Shutdown, now).stop,
{
    lemma_tbt_closed(s.tbt);
}

} // verus!
