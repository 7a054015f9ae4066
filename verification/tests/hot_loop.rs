use ibx::bridge::{Fill, Number};
use ibx::engine::context::Context;
use ibx::engine::hot_loop::control::{is_possible, ControlCommand, ControlStep};
use ibx::engine::hot_loop::farm::{
    can_apply_tick, find_body_after_tag, read_subscription_ack, read_ticker_setup, read_ticks,
    TickBatch,
};
use ibx::engine::hot_loop::heartbeat::{
    heartbeat_fields, test_request_fields, CCP_HEARTBEAT_SECS, FARM_HEARTBEAT_SECS,
};
use ibx::engine::hot_loop::history::{read_bar_frame, KeptQueries};
use ibx::engine::hot_loop::numbers::NumberTable;
use ibx::engine::hot_loop::order_fields::{
    build_algo_tags, build_condition_strings, condition_strings, fix_side,
};
use ibx::engine::hot_loop::plain_reports::StrategyEvent;
use ibx::engine::hot_loop::tick_by_tick::{TbtEntry, TbtEvent, TbtState, TbtType};
use ibx::engine::hot_loop::{FarmStep, HotLoop};
use ibx::engine::order::{
    AlgoParams, Order, OrderCondition, OrderRequest, OrderStatus, RiskAversion, Side,
};
use ibx::protocol::fix::{fix_build, Fields};
use ibx::types::{format_price, InstrumentId, PRICE_SCALE, QTY_SCALE};

fn message(pairs: &[(u32, &str)], seq: u32) -> Vec<u8> {
    let mut fields = Fields::new();
    for (tag, value) in pairs {
        fields.put_str(*tag, value);
    }
    fix_build(&fields, seq)
}

fn number(text: &str) -> Option<Number> {
    let v: f64 = text.parse().ok()?;
    let scaled = v * PRICE_SCALE as f64;
    Some(Number {
        scaled: scaled as i64,
        rounded: scaled.round() as i64,
        whole: v as i64,
        finite: v.is_finite(),
        zero: v == 0.0,
    })
}

/// What the texts of a message stand for: the values of its fields, and the entries of a
/// comma-separated list.
fn table(msg: &[u8]) -> NumberTable {
    let mut entries = Vec::new();
    for piece in msg.split(|&b| b == 1 || b == b',') {
        let text = String::from_utf8_lossy(piece).into_owned();
        let value = text.split_once('=').map(|(_, v)| v.to_string()).unwrap_or(text);
        if let Some(n) = number(&value) {
            entries.push((value, n));
        }
    }
    NumberTable { entries }
}

/// An engine, whose reports are what its strategy is told.
struct Engine {
    inner: HotLoop,
}

impl Engine {
    fn new() -> Self {
        Engine { inner: HotLoop::new(0) }
    }

    fn inject_ccp_message(&mut self, msg: &[u8]) {
        self.inner.inject_ccp_message(msg, &table(msg), "t");
    }

    fn inject_farm_message(&mut self, msg: &[u8]) {
        if let FarmStep::Ticks(ticks) = self.inner.inject_farm_message(msg, &table(msg), "t") {
            let mut batch = TickBatch::new();
            for tick in &ticks {
                let market = &mut self.inner.context.market;
                let min_tick = match market.instrument_by_server_tag(tick.server_tag) {
                    Some(id) => market.step_text(id).parse().unwrap(),
                    None => 0.0,
                };
                let change = (tick.magnitude as f64 * min_tick * PRICE_SCALE as f64) as i64;
                assert!(can_apply_tick(market, tick, change));
                if let Some(id) = batch.apply_tick(tick, change, market) {
                    self.inner.inject_tick(id);
                }
            }
        }
    }

    fn command(&mut self, cmd: ControlCommand) -> ControlStep {
        let mut step = ControlStep::new();
        assert!(is_possible(
            &cmd,
            &self.inner.context,
            &self.inner.farm,
            &self.inner.tbt
        ));
        self.inner.inject_command(cmd, "t", &mut step);
        step
    }

    fn fills(&self) -> Vec<(u64, i64)> {
        self.inner
            .reports
            .events
            .iter()
            .filter_map(|e| match e {
                StrategyEvent::Fill(f) => Some((f.order_id, f.qty_fixed / QTY_SCALE)),
                _ => None,
            })
            .collect()
    }

    fn ticks(&self) -> Vec<InstrumentId> {
        self.inner
            .reports
            .events
            .iter()
            .filter_map(|e| match e {
                StrategyEvent::Tick(id) => Some(*id),
                _ => None,
            })
            .collect()
    }

    fn disconnects(&self) -> usize {
        self.inner.reports.events.iter().filter(|e| **e == StrategyEvent::Disconnected).count()
    }

    fn updates(&self) -> Vec<(u64, OrderStatus)> {
        self.inner
            .reports
            .events
            .iter()
            .filter_map(|e| match e {
                StrategyEvent::Update(u) => Some((u.order_id, u.status)),
                _ => None,
            })
            .collect()
    }

    fn cancel_rejects(&self) -> Vec<(u64, u8)> {
        self.inner
            .reports
            .events
            .iter()
            .filter_map(|e| match e {
                StrategyEvent::Rejected(r) => Some((r.order_id, r.reject_type)),
                _ => None,
            })
            .collect()
    }
}

fn order(id: u64, side: Side, price: i64, qty: i64, filled: i64, status: OrderStatus) -> Order {
    Order {
        order_id: id,
        instrument: 0,
        side,
        price,
        qty_fixed: qty * QTY_SCALE,
        filled_fixed: filled * QTY_SCALE,
        status,
        ord_type: b'2',
        tif: b'0',
        stop_price: 0,
    }
}

fn fill(order_id: u64, side: Side, price: i64, qty: i64) -> Fill {
    Fill {
        instrument: 0,
        order_id,
        side,
        price,
        qty_fixed: qty * QTY_SCALE,
        remaining_fixed: 0,
        cum_qty_fixed: qty * QTY_SCALE,
        avg_price: price,
        commission: 0,
        timestamp_ns: 0,
    }
}

#[test]
fn inject_fill_updates_position() {
    let mut engine = Engine::new();
    engine.inner.context_mut().market.register(265598);
    engine.inner.inject_fill(&fill(1, Side::Buy, 150 * PRICE_SCALE, 100));
    assert_eq!(engine.inner.context.position(0), 100);
    assert_eq!(engine.fills(), vec![(1, 100)]);
}

#[test]
fn inject_fill_sell_decreases_position() {
    let mut engine = Engine::new();
    engine.inner.context_mut().market.register(265598);
    engine.inner.context.update_position(0, 100);
    engine.inner.inject_fill(&fill(2, Side::Sell, 152 * PRICE_SCALE, 30));
    assert_eq!(engine.inner.context.position(0), 70);
}

#[test]
fn inject_tick_calls_strategy() {
    let mut engine = Engine::new();
    engine.inner.context_mut().market.register(265598);

    engine.inner.inject_tick(0);
    engine.inner.inject_tick(0);

    assert_eq!(engine.ticks(), vec![0, 0]);
}

#[test]
fn inject_tick_multiple_instruments() {
    let mut engine = Engine::new();
    engine.inner.context_mut().market.register(265598);
    engine.inner.context_mut().market.register(272093);

    engine.inner.inject_tick(0);
    engine.inner.inject_tick(1);
    engine.inner.inject_tick(0);

    assert_eq!(engine.ticks(), vec![0, 1, 0]);
}

#[test]
fn strategy_reads_market_data_in_on_tick() {
    let mut engine = Engine::new();
    let id = engine.inner.context_mut().market.register(265598);
    let q = engine.inner.context_mut().market.quote_mut(id);
    q.bid = 15000 * (PRICE_SCALE / 100);
    q.ask = 15010 * (PRICE_SCALE / 100);

    engine.inner.inject_tick(id);

    let mut last_spread = 0;
    for instrument in engine.ticks() {
        last_spread = engine.inner.context.market.spread(instrument);
    }
    assert_eq!(last_spread, 10 * (PRICE_SCALE / 100));
}

#[test]
fn farm_disconnect_notifies_strategy() {
    let mut engine = Engine::new();
    assert_eq!(engine.disconnects(), 0);
    assert!(!engine.inner.is_farm_disconnected());

    engine.inner.handle_farm_disconnect();

    assert_eq!(engine.disconnects(), 1);
}

#[test]
fn ccp_disconnect_notifies_strategy() {
    let mut engine = Engine::new();
    assert_eq!(engine.disconnects(), 0);

    engine.inner.handle_ccp_disconnect();

    assert_eq!(engine.disconnects(), 1);
}

#[test]
fn each_connection_that_falls_silent_is_told() {
    let mut engine = Engine::new();
    engine.inner.check_heartbeats(100_000, true, true, false);
    let plan = engine.inner.check_heartbeats(200_000, true, true, false);
    assert!(plan.ccp.lost && plan.farm.lost);
    assert_eq!(engine.disconnects(), 2);
    engine.command(ControlCommand::Shutdown);
    assert_eq!(engine.disconnects(), 3);
}

#[test]
fn price_steps_are_kept_as_they_are_given() {
    for (text, units) in [
        ("0.0003", 30_000),
        ("0.29", 29_000_000),
        ("0.000000004", 0),
        ("0.000000016", 2),
        ("1e-4", 10_000),
    ] {
        let mut engine = Engine::new();
        engine.inner.context_mut().market.register(265598);
        engine.inject_farm_message(format!("8=O\x0135=L\x01265598,{text},99,,1\x01").as_bytes());
        let market = &engine.inner.context.market;
        assert_eq!((market.step_text(0), market.min_tick(0)), (text, units));
    }
    let mut engine = Engine::new();
    let market = &mut engine.inner.context_mut().market;
    market.register(265598);
    assert_eq!((market.step_text(0), market.min_tick(0)), ("0", 0));
    market.set_min_tick(0, PRICE_SCALE / 4);
    assert_eq!(market.step_text(0), "0.25");
    engine.inject_farm_message(b"8=O\x0135=L\x01265598,none,99,,1\x01");
    let market = &engine.inner.context.market;
    assert_eq!((market.step_text(0), market.min_tick(0)), ("0.01", PRICE_SCALE / 100));
}

#[test]
fn fine_price_steps_add_up() {
    let mut engine = Engine::new();
    let id = engine.inner.context_mut().market.register(265598);
    engine.inject_farm_message(b"8=O\x0135=L\x01265598,0.0003,7,,1\x01");
    engine.inject_farm_message(&tick_message(7, 0, 100));
    assert_eq!(engine.inner.context.market.bid(id), (100.0 * 0.0003 * PRICE_SCALE as f64) as i64);
}

fn tick_message(server_tag: u32, tick_type: u8, value: u8) -> Vec<u8> {
    let mut payload = vec![0x00, 0x30];
    payload.extend_from_slice(&server_tag.to_be_bytes());
    payload.push(tick_type << 3);
    payload.push(value);
    let mut msg = format!("8=O\x019={}\x0135=P\x01", 5 + payload.len()).into_bytes();
    msg.extend_from_slice(&payload);
    msg
}

#[test]
fn handle_tick_data_updates_quote() {
    let mut engine = Engine::new();
    let aapl = engine.inner.context_mut().market.register(265598);
    engine.inner.context.market.set_min_tick(aapl, PRICE_SCALE / 100);
    engine.inner.context.market.register_server_tag(100, aapl);

    engine.inject_farm_message(&tick_message(100, 4, 50));

    assert_eq!(engine.inner.context.market.bid_size(aapl), 50);
    assert_eq!(engine.ticks(), vec![aapl]);
}

#[test]
fn handle_tick_data_unknown_server_tag_ignored() {
    let mut engine = Engine::new();
    engine.inner.context_mut().market.register(265598);

    let mut payload = vec![0x00, 0x30];
    payload.extend_from_slice(&[0x00, 0x00, 0x00, 0xFF]);
    payload.extend_from_slice(&[0x20, 0x32]);
    let mut msg = format!("8=O\x019={}\x0135=P\x01", 5 + payload.len()).into_bytes();
    msg.extend_from_slice(&payload);

    engine.inject_farm_message(&msg);

    assert!(engine.ticks().is_empty());
}

#[test]
fn exec_report_fill_updates_position_and_notifies() {
    let mut engine = Engine::new();
    engine.inner.context_mut().market.register(265598);
    engine.inner.context.insert_order(order(
        1,
        Side::Buy,
        150 * PRICE_SCALE,
        100,
        0,
        OrderStatus::Submitted,
    ));

    engine.inject_ccp_message(&message(
        &[
            (35, "8"),
            (11, "1"),
            (39, "2"),
            (150, "F"),
            (31, "150.0"),
            (32, "100"),
            (151, "0"),
        ],
        1,
    ));

    assert_eq!(engine.inner.context.position(0), 100);
    assert_eq!(engine.fills(), vec![(1, 100)]);
    assert!(engine.inner.context.order(1).is_none());
}

#[test]
fn exec_report_partial_fill() {
    let mut engine = Engine::new();
    engine.inner.context_mut().market.register(265598);
    engine.inner.context.insert_order(order(
        2,
        Side::Sell,
        200 * PRICE_SCALE,
        100,
        0,
        OrderStatus::Submitted,
    ));

    engine.inject_ccp_message(&message(
        &[
            (35, "8"),
            (11, "2"),
            (39, "1"),
            (150, "1"),
            (31, "200.5"),
            (32, "30"),
            (151, "70"),
        ],
        1,
    ));

    assert_eq!(engine.inner.context.position(0), -30);
    assert!(engine.inner.context.order(2).is_some());
}

#[test]
fn exec_report_rejected() {
    let mut engine = Engine::new();
    engine.inner.context_mut().market.register(265598);
    engine.inner.context.insert_order(order(
        3,
        Side::Buy,
        100 * PRICE_SCALE,
        50,
        0,
        OrderStatus::Submitted,
    ));

    engine.inject_ccp_message(&message(
        &[(35, "8"), (11, "3"), (39, "8"), (150, "8"), (58, "Insufficient margin")],
        1,
    ));

    assert_eq!(engine.inner.context.position(0), 0);
    assert!(engine.inner.context.order(3).is_none());
}

#[test]
fn control_subscribe_registers_instrument() {
    let mut engine = Engine::new();
    engine.command(ControlCommand::Subscribe { con_id: 265598, symbol: "AAPL".into() });
    let id = engine.inner.context_mut().market.register(265598);
    assert_eq!(id, 0);
}

#[test]
fn control_shutdown_stops_loop() {
    let mut engine = Engine::new();
    engine.command(ControlCommand::Shutdown);
    assert!(!engine.inner.running);
}

#[test]
fn control_multiple_commands_drained() {
    let mut engine = Engine::new();
    engine.command(ControlCommand::Subscribe { con_id: 265598, symbol: "AAPL".into() });
    engine.command(ControlCommand::Subscribe { con_id: 272093, symbol: "MSFT".into() });
    engine.command(ControlCommand::UpdateParam { key: "k".into(), value: "v".into() });
    assert_eq!(engine.inner.context.market.register(265598), 0);
    assert_eq!(engine.inner.context.market.register(272093), 1);
}

#[test]
fn heartbeat_state_initialized() {
    let engine = HotLoop::new(77_000);
    let hb = engine.heartbeat_state();
    assert_eq!(hb.last_ccp_sent, 77_000);
    assert_eq!(hb.last_farm_recv, 77_000);
    assert!(hb.pending_ccp_test.is_none());
    assert!(hb.pending_farm_test.is_none());
}

#[test]
fn heartbeat_test_id_increments() {
    let mut engine = Engine::new();
    let id1 = engine.inner.heartbeat_state_mut().next_test_id();
    let id2 = engine.inner.heartbeat_state_mut().next_test_id();
    assert_eq!(id1, "T1");
    assert_eq!(id2, "T2");
}

#[test]
fn check_heartbeats_no_connections_no_panic() {
    let mut engine = Engine::new();
    let plan = engine.inner.check_heartbeats(1_000_000, false, false, false);
    assert!(!plan.ccp.heartbeat && !plan.farm.heartbeat && !plan.hmds.heartbeat);
    assert!(engine.inner.running);
}

#[test]
fn check_heartbeats_skips_already_disconnected() {
    let mut engine = Engine::new();
    engine.inner.ccp.disconnected = true;
    engine.inner.farm.disconnected = true;
    let plan = engine.inner.check_heartbeats(120_000, true, true, false);
    assert!(!plan.ccp.lost);
    assert!(!plan.farm.lost);
    assert_eq!(engine.disconnects(), 0);
}

#[test]
fn build_condition_strings_price() {
    let conds = vec![OrderCondition::Price {
        con_id: 265598,
        exchange: "BEST".into(),
        price: 31103 * (PRICE_SCALE / 100),
        is_more: true,
        trigger_method: 2,
    }];
    let s = build_condition_strings(&conds);
    assert_eq!(s, condition_strings(&conds, false));
    assert_eq!(s[0], "1");
    assert_eq!(s[1], "1");
    assert_eq!(s[2], "n");
    assert_eq!(s[3], ">=");
    assert_eq!(s[4], "265598");
    assert_eq!(s[5], "BEST");
    assert_eq!(s[6], "2");
    assert_eq!(s[7], "311.03");
    assert_eq!(s[8], "");
}

#[test]
fn build_condition_strings_multi_price_and_volume() {
    let conds = vec![
        OrderCondition::Price {
            con_id: 265598,
            exchange: "BEST".into(),
            price: 300 * PRICE_SCALE,
            is_more: true,
            trigger_method: 0,
        },
        OrderCondition::Volume {
            con_id: 265598,
            exchange: "BEST".into(),
            volume: 1000000,
            is_more: true,
        },
    ];
    let s = build_condition_strings(&conds);
    assert_eq!(s, condition_strings(&conds, false));
    assert_eq!(s[0], "2");
    assert_eq!(s[1], "1");
    assert_eq!(s[2], "a");
    assert_eq!(s[3], ">=");
    assert_eq!(s[12], "6");
    assert_eq!(s[13], "n");
    assert_eq!(s[14], ">=");
    assert_eq!(s[21], "1000000");
}

#[test]
fn build_condition_strings_time() {
    let conds =
        vec![OrderCondition::Time { time: "20260310-14:30:00".into(), is_more: true }];
    let s = build_condition_strings(&conds);
    assert_eq!(s, condition_strings(&conds, false));
    assert_eq!(s[1], "3");
    assert_eq!(s[8], "20260310-14:30:00");
}

#[test]
fn build_condition_strings_margin() {
    let conds = vec![OrderCondition::Margin { percent: 5, is_more: false }];
    let s = build_condition_strings(&conds);
    assert_eq!(s, condition_strings(&conds, false));
    assert_eq!(s[1], "4");
    assert_eq!(s[3], "<=");
    assert_eq!(s[9], "5");
}

#[test]
fn build_condition_strings_execution() {
    let conds = vec![OrderCondition::Execution {
        symbol: "AAPL".into(),
        exchange: "SMART".into(),
        sec_type: "CS".into(),
    }];
    let s = build_condition_strings(&conds);
    assert_eq!(s, condition_strings(&conds, false));
    assert_eq!(s[1], "5");
    assert_eq!(s[3], "");
    assert_eq!(s[11], "symbol=AAPL;exchange=*;securityType=CS;");
}

#[test]
fn build_condition_strings_percent_change() {
    let conds = vec![OrderCondition::PercentChange {
        con_id: 265598,
        exchange: "BEST".into(),
        percent: format!("{}", 5.5),
        is_more: true,
    }];
    let s = build_condition_strings(&conds);
    assert_eq!(s, condition_strings(&conds, false));
    assert_eq!(s[1], "7");
    assert_eq!(s[9], "5.5");
}

#[test]
fn build_condition_strings_empty() {
    let s = build_condition_strings(&[]);
    assert_eq!(s.len(), 1);
    assert_eq!(s[0], "0");
}

#[test]
fn build_algo_tags_vwap() {
    let algo = AlgoParams::Vwap {
        max_pct_vol: format!("{}", 0.1),
        no_take_liq: false,
        allow_past_end_time: true,
        start_time: "20260311-13:30:00".into(),
        end_time: "20260311-20:00:00".into(),
    };
    let (name, params) = build_algo_tags(&algo);
    assert_eq!(name, "Vwap");
    assert_eq!(params.len(), 8);
    assert_eq!(params[0], "noTakeLiq");
    assert_eq!(params[1], "0");
    assert_eq!(params[2], "allowPastEndTime");
    assert_eq!(params[3], "1");
    assert_eq!(params[4], "startTime");
    assert_eq!(params[5], "20260311-13:30:00");
    assert_eq!(params[6], "endTime");
    assert_eq!(params[7], "20260311-20:00:00");
}

#[test]
fn build_algo_tags_twap() {
    let algo = AlgoParams::Twap {
        allow_past_end_time: false,
        start_time: "20260311-13:30:00".into(),
        end_time: "20260311-20:00:00".into(),
    };
    let (name, params) = build_algo_tags(&algo);
    assert_eq!(name, "Twap");
    assert_eq!(params.len(), 6);
    assert_eq!(params[0], "allowPastEndTime");
    assert_eq!(params[1], "0");
}

#[test]
fn build_algo_tags_arrival_px() {
    let algo = AlgoParams::ArrivalPx {
        max_pct_vol: format!("{}", 0.25),
        risk_aversion: RiskAversion::Aggressive,
        allow_past_end_time: true,
        force_completion: true,
        start_time: "20260311-13:30:00".into(),
        end_time: "20260311-20:00:00".into(),
    };
    let (name, params) = build_algo_tags(&algo);
    assert_eq!(name, "ArrivalPx");
    assert_eq!(params.len(), 10);
    assert_eq!(params[0], "riskAversion");
    assert_eq!(params[1], "Aggressive");
    assert_eq!(params[4], "forceCompletion");
    assert_eq!(params[5], "1");
}

#[test]
fn build_algo_tags_close_px() {
    let algo = AlgoParams::ClosePx {
        max_pct_vol: format!("{}", 0.1),
        risk_aversion: RiskAversion::Neutral,
        force_completion: false,
        start_time: "20260311-13:30:00".into(),
    };
    let (name, params) = build_algo_tags(&algo);
    assert_eq!(name, "ClosePx");
    assert_eq!(params.len(), 6);
    assert_eq!(params[1], "Neutral");
}

#[test]
fn build_algo_tags_dark_ice() {
    let algo = AlgoParams::DarkIce {
        allow_past_end_time: true,
        display_size: 10,
        start_time: "20260311-13:30:00".into(),
        end_time: "20260311-20:00:00".into(),
    };
    let (name, params) = build_algo_tags(&algo);
    assert_eq!(name, "DarkIce");
    assert_eq!(params[2], "displaySize");
    assert_eq!(params[3], "10");
}

#[test]
fn build_algo_tags_pct_vol() {
    let algo = AlgoParams::PctVol {
        pct_vol: format!("{}", 0.15),
        no_take_liq: true,
        start_time: "20260311-13:30:00".into(),
        end_time: "20260311-20:00:00".into(),
    };
    let (name, params) = build_algo_tags(&algo);
    assert_eq!(name, "PctVol");
    assert_eq!(params[0], "noTakeLiq");
    assert_eq!(params[1], "1");
    assert_eq!(params[2], "pctVol");
    assert_eq!(params[3], "0.15");
}

#[test]
fn format_price_whole() {
    assert_eq!(format_price(150 * PRICE_SCALE), "150");
    assert_eq!(format_price(0), "0");
}

#[test]
fn format_price_decimal() {
    assert_eq!(format_price(15025 * (PRICE_SCALE / 100)), "150.25");
    assert_eq!(format_price(PRICE_SCALE / 2), "0.5");
}

#[test]
fn fix_side_mapping() {
    assert_eq!(fix_side(Side::Buy), "1");
    assert_eq!(fix_side(Side::Sell), "2");
    assert_eq!(fix_side(Side::ShortSell), "5");
}

#[test]
fn strategy_submits_and_engine_drains() {
    let mut engine = Engine::new();
    let id = engine.inner.context_mut().market.register(265598);
    engine.inner.context.market.quote_mut(id).bid = 150 * PRICE_SCALE;
    let on_tick = |ctx: &mut Context| {
        if ctx.position(id) == 0 {
            let bid = ctx.market.bid(id);
            ctx.submit_limit(id, Side::Buy, 100, bid);
        }
    };

    on_tick(&mut engine.inner.context);

    let orders = engine.inner.context.drain_pending_orders();
    assert_eq!(orders.len(), 1);

    engine.inner.context.update_position(id, 100);
    on_tick(&mut engine.inner.context);

    let orders = engine.inner.context.drain_pending_orders();
    assert!(orders.is_empty());
}

#[test]
fn subscribe_tracks_md_req_id() {
    let mut engine = Engine::new();
    engine.command(ControlCommand::Subscribe { con_id: 265598, symbol: "AAPL".into() });

    let farm = &engine.inner.farm;
    assert_eq!(farm.md_req_to_instrument.len(), 2);
    assert_eq!(farm.md_req_to_instrument[0], (1, 0));
    assert_eq!(farm.md_req_to_instrument[1], (2, 0));
    assert_eq!(farm.instrument_md_reqs.len(), 1);
    assert_eq!(farm.instrument_md_reqs[0].0, 0);
    assert_eq!(farm.instrument_md_reqs[0].1, vec![1, 2]);
    assert_eq!(farm.next_md_req_id, 3);
}

#[test]
fn subscription_ack_registers_server_tag() {
    let mut engine = Engine::new();
    engine.inner.context_mut().market.register(265598);
    engine.inner.farm.md_req_to_instrument.push((1, 0));

    engine.inject_farm_message(b"8=O\x019=999\x0135=Q\x0142,1,0.01,extra\x01");

    assert_eq!(engine.inner.context.market.instrument_by_server_tag(42), Some(0));
    let min_tick = engine.inner.context.market.min_tick(0) as f64 / PRICE_SCALE as f64;
    assert!((min_tick - 0.01).abs() < 1e-10);
    assert!(engine.inner.farm.md_req_to_instrument.is_empty());
}

#[test]
fn ticker_setup_registers_server_tag() {
    let mut engine = Engine::new();
    engine.inner.context_mut().market.register(265598);

    engine.inject_farm_message(b"8=O\x019=999\x0135=L\x01265598,0.01,99,,1\x01");

    assert_eq!(engine.inner.context.market.instrument_by_server_tag(99), Some(0));
    let min_tick = engine.inner.context.market.min_tick(0) as f64 / PRICE_SCALE as f64;
    assert!((min_tick - 0.01).abs() < 1e-10);
}

#[test]
fn account_update_ut_parses_values() {
    let mut engine = Engine::new();
    let msg = b"8=O\x019=999\x0135=UT\x018001=NetLiquidation\x018004=100000.50\x018001=BuyingPower\x018004=200000.00\x01";
    engine.inject_ccp_message(msg);

    assert_eq!(
        engine.inner.context.account.net_liquidation,
        (100000.50 * PRICE_SCALE as f64) as i64
    );
    assert_eq!(
        engine.inner.context.account.buying_power,
        (200000.0 * PRICE_SCALE as f64) as i64
    );
}

#[test]
fn account_update_um_parses_pnl() {
    let mut engine = Engine::new();
    let msg = b"8=O\x019=999\x0135=UM\x018001=UnrealizedPnL\x018004=1500.25\x018001=RealizedPnL\x018004=-200.00\x01";
    engine.inject_ccp_message(msg);

    assert_eq!(
        engine.inner.context.account.unrealized_pnl,
        (1500.25 * PRICE_SCALE as f64) as i64
    );
    assert_eq!(
        engine.inner.context.account.realized_pnl,
        (-200.0 * PRICE_SCALE as f64) as i64
    );
}

#[test]
fn position_update_sets_absolute() {
    let mut engine = Engine::new();
    engine.inner.context_mut().market.register(265598);

    engine.inject_ccp_message(
        b"8=O\x019=999\x0135=UP\x016008=265598\x016064=100\x016065=150.25\x01",
    );
    assert_eq!(engine.inner.context.position(0), 100);

    engine.inject_ccp_message(b"8=O\x019=999\x0135=UP\x016008=265598\x016064=70\x01");
    assert_eq!(engine.inner.context.position(0), 70);
}

#[test]
fn position_update_unknown_con_id_ignored() {
    let mut engine = Engine::new();
    engine.inner.context_mut().market.register(265598);

    engine.inject_ccp_message(b"8=O\x019=999\x0135=UP\x016008=999999\x016064=50\x01");
    assert_eq!(engine.inner.context.position(0), 0);
}

#[test]
fn unsubscribe_clears_tracking() {
    let mut engine = Engine::new();
    engine.inner.context_mut().market.register(265598);
    engine.inner.farm.instrument_md_reqs.push((0, vec![1, 2]));

    engine.inner.farm.send_mktdata_unsubscribe(0);

    assert!(engine.inner.farm.instrument_md_reqs.is_empty());
}

#[test]
fn disconnect_flags_default_false() {
    let engine = HotLoop::new(0);
    assert!(!engine.is_farm_disconnected());
    assert!(!engine.is_ccp_disconnected());
}

#[test]
fn reconnect_farm_clears_flag_and_resubscribes() {
    let mut engine = Engine::new();
    engine.inner.context_mut().market.register(265598);
    engine.inner.context.market.register(272093);
    engine.inner.farm.instrument_md_reqs.push((0, vec![1]));
    engine.inner.farm.instrument_md_reqs.push((1, vec![2]));
    engine.inner.farm.disconnected = true;

    assert!(engine.inner.is_farm_disconnected());
    let messages = engine.inner.reconnect_farm(5_000, "t");
    assert!(!engine.inner.is_farm_disconnected());
    assert_eq!(messages.len(), 2);
    assert_eq!(engine.inner.farm.instrument_md_reqs.len(), 2);
    assert_eq!(engine.inner.hb.last_farm_recv, 5_000);
}

#[test]
fn subscription_ack_no_body() {
    let mut engine = Engine::new();
    engine.inner.context_mut().market.register(265598);
    engine.inject_farm_message(b"8=O\x019=999\x0135=Q\x01\x01");
    assert!(engine.inner.farm.md_req_to_instrument.is_empty());
}

#[test]
fn subscription_ack_malformed_csv() {
    let mut engine = Engine::new();
    engine.inner.context_mut().market.register(265598);
    let msg = b"8=O\x019=999\x0135=Q\x01bad_data\x01";
    engine.inject_farm_message(msg);
    assert!(read_subscription_ack(msg).is_none());
}

#[test]
fn subscription_ack_unknown_req_id() {
    let mut engine = Engine::new();
    engine.inner.context_mut().market.register(265598);
    engine.inject_farm_message(b"8=O\x019=999\x0135=Q\x0142,999,0.01,extra\x01");
    assert_eq!(engine.inner.context.market.instrument_by_server_tag(42), None);
}

#[test]
fn ticker_setup_no_body() {
    let mut engine = Engine::new();
    let msg = b"8=O\x019=999\x0135=L\x01\x01";
    engine.inject_farm_message(msg);
    assert!(read_ticker_setup(msg).is_none());
}

#[test]
fn ticker_setup_unknown_con_id() {
    let mut engine = Engine::new();
    engine.inner.context_mut().market.register(265598);
    engine.inject_farm_message(b"8=O\x019=999\x0135=L\x01999999,0.01,50,,1\x01");
    assert_eq!(engine.inner.context.market.instrument_by_server_tag(50), None);
}

#[test]
fn handle_cancel_reject_keeps_order() {
    let mut engine = Engine::new();
    engine.inner.context_mut().market.register(265598);
    engine.inner.context.insert_order(order(
        10,
        Side::Buy,
        150 * PRICE_SCALE,
        100,
        0,
        OrderStatus::Submitted,
    ));
    engine.inject_ccp_message(&message(
        &[(35, "9"), (41, "10"), (58, "Order cannot be cancelled")],
        1,
    ));
    assert!(engine.inner.context.order(10).is_some());
}

#[test]
fn handle_account_update_invalid_values_ignored() {
    let mut engine = Engine::new();
    engine.inject_ccp_message(
        b"8=O\x019=999\x0135=UT\x018001=NetLiquidation\x018004=not_a_number\x01",
    );
    assert_eq!(engine.inner.context.account.net_liquidation, 0);
}

#[test]
fn handle_account_update_unknown_key_ignored() {
    let mut engine = Engine::new();
    engine.inject_ccp_message(
        b"8=O\x019=999\x0135=UT\x018001=SomeUnknownKey\x018004=12345.67\x01",
    );
    assert_eq!(engine.inner.context.account.net_liquidation, 0);
}

#[test]
fn exec_report_cancelled_removes_order() {
    let mut engine = Engine::new();
    engine.inner.context_mut().market.register(265598);
    engine.inner.context.insert_order(order(
        5,
        Side::Buy,
        100 * PRICE_SCALE,
        50,
        0,
        OrderStatus::Submitted,
    ));
    engine.inject_ccp_message(&message(&[(35, "8"), (11, "5"), (39, "4"), (150, "4")], 1));
    assert!(engine.inner.context.order(5).is_none());
}

#[test]
fn format_price_negative() {
    assert_eq!(format_price(-150 * PRICE_SCALE), "-150");
    assert_eq!(format_price(-PRICE_SCALE / 2), "-0.5");
    assert_eq!(format_price(-3 * PRICE_SCALE / 2), "-1.5");
    assert_eq!(format_price(i64::MIN), "-92233720368.54775808");
}

#[test]
fn format_price_cents() {
    assert_eq!(format_price(PRICE_SCALE / 100), "0.01");
}

#[test]
fn format_price_sub_penny() {
    assert_eq!(format_price(PRICE_SCALE / 200), "0.005");
}

#[test]
fn find_body_after_tag_found() {
    let msg = b"8=O\x019=10\x0135=P\x01stuff";
    let body = find_body_after_tag(msg, b"35=P\x01");
    assert_eq!(body, Some(b"stuff".as_ref()));
}

#[test]
fn find_body_after_tag_not_found() {
    let msg = b"8=O\x019=10\x0135=Q\x01stuff";
    let body = find_body_after_tag(msg, b"35=P\x01");
    assert!(body.is_none());
}

#[test]
fn multiple_subscriptions_same_instrument() {
    let mut engine = Engine::new();
    engine.command(ControlCommand::Subscribe { con_id: 265598, symbol: "AAPL".into() });
    engine.command(ControlCommand::Subscribe { con_id: 265598, symbol: "AAPL".into() });

    assert_eq!(engine.inner.farm.next_md_req_id, 5);
    assert_eq!(engine.inner.farm.instrument_md_reqs.len(), 1);
    assert_eq!(engine.inner.farm.instrument_md_reqs[0].1.len(), 4);
}

#[test]
fn unsubscribe_nonexistent_instrument_noop() {
    let mut engine = Engine::new();
    assert!(engine.inner.farm.send_mktdata_unsubscribe(99).is_empty());
}

#[test]
fn control_unsubscribe_command() {
    let mut engine = Engine::new();
    engine.inner.context_mut().market.register(265598);
    engine.inner.farm.instrument_md_reqs.push((0, vec![1]));

    let step = engine.command(ControlCommand::Unsubscribe { instrument: 0 });

    assert!(engine.inner.farm.instrument_md_reqs.is_empty());
    assert_eq!(step.farm_messages.len(), 1);
}

#[test]
fn process_farm_message_no_msg_type() {
    let mut engine = Engine::new();
    engine.inject_farm_message(b"8=O\x019=5\x01junk\x01");
    assert!(engine.ticks().is_empty());
}

#[test]
fn process_farm_message_heartbeat_noop() {
    let mut engine = Engine::new();
    engine.inject_farm_message(&message(&[(35, "0")], 1));
    assert!(engine.ticks().is_empty());
}

#[test]
fn position_update_zero_delta_no_change() {
    let mut engine = Engine::new();
    engine.inner.context_mut().market.register(265598);
    engine.inner.context.update_position(0, 50);
    engine.inject_ccp_message(b"8=O\x019=999\x0135=UP\x016008=265598\x016064=50\x01");
    assert_eq!(engine.inner.context.position(0), 50);
}

#[test]
fn exec_report_unknown_ord_status_ignored() {
    let mut engine = Engine::new();
    engine.inner.context_mut().market.register(265598);
    engine.inject_ccp_message(&message(&[(35, "8"), (11, "1"), (39, "X"), (150, "X")], 1));
    assert!(engine.fills().is_empty());
}

#[test]
fn partial_fill_updates_filled_qty_and_keeps_order() {
    let mut engine = Engine::new();
    engine.inner.context_mut().market.register(265598);
    engine.inner.context.insert_order(order(
        10,
        Side::Buy,
        150 * PRICE_SCALE,
        100,
        0,
        OrderStatus::Submitted,
    ));

    engine.inject_ccp_message(&message(
        &[
            (35, "8"),
            (11, "10"),
            (39, "1"),
            (150, "1"),
            (31, "150.0"),
            (32, "30"),
            (151, "70"),
        ],
        1,
    ));
    assert_eq!(engine.inner.context.position(0), 30);
    assert_eq!(engine.fills().len(), 1);
    assert_eq!(engine.fills()[0], (10, 30));
    let o = engine.inner.context.order(10).unwrap();
    assert_eq!(o.filled_fixed / QTY_SCALE, 30);
    assert_eq!(o.status, OrderStatus::PartiallyFilled);

    engine.inject_ccp_message(&message(
        &[
            (35, "8"),
            (11, "10"),
            (39, "1"),
            (150, "1"),
            (31, "150.1"),
            (32, "50"),
            (151, "20"),
        ],
        2,
    ));
    assert_eq!(engine.inner.context.position(0), 80);
    assert_eq!(engine.fills().len(), 2);
    assert_eq!(engine.fills()[1], (10, 50));
    let o = engine.inner.context.order(10).unwrap();
    assert_eq!(o.filled_fixed / QTY_SCALE, 80);

    engine.inject_ccp_message(&message(
        &[
            (35, "8"),
            (11, "10"),
            (39, "2"),
            (150, "F"),
            (31, "150.2"),
            (32, "20"),
            (151, "0"),
        ],
        3,
    ));
    assert_eq!(engine.inner.context.position(0), 100);
    assert_eq!(engine.fills().len(), 3);
    assert!(engine.inner.context.order(10).is_none());
}

#[test]
fn cancel_reject_notifies_strategy_order_stays_active() {
    let mut engine = Engine::new();
    engine.inner.context_mut().market.register(265598);
    engine.inner.context.insert_order(order(
        20,
        Side::Buy,
        150 * PRICE_SCALE,
        100,
        0,
        OrderStatus::Submitted,
    ));

    engine.inject_ccp_message(&message(
        &[
            (35, "9"),
            (41, "20"),
            (434, "1"),
            (102, "3"),
            (58, "Order cannot be cancelled"),
        ],
        1,
    ));

    let o = engine.inner.context.order(20).unwrap();
    assert_eq!(o.status, OrderStatus::Submitted);
    assert_eq!(engine.cancel_rejects().len(), 1);
    assert_eq!(engine.cancel_rejects()[0], (20, 1));
    assert!(engine.updates().is_empty());
}

#[test]
fn open_orders_survive_disconnect() {
    let mut engine = Engine::new();
    engine.inner.context_mut().market.register(265598);
    engine.inner.context.insert_order(order(
        40,
        Side::Buy,
        150 * PRICE_SCALE,
        100,
        30,
        OrderStatus::PartiallyFilled,
    ));

    engine.inner.ccp.disconnected = true;

    let o = engine.inner.context.order(40).unwrap();
    assert_eq!(o.filled_fixed / QTY_SCALE, 30);
    assert_eq!(o.status, OrderStatus::PartiallyFilled);
    engine.inner.context.update_position(0, 30);
    assert_eq!(engine.inner.context.position(0), 30);
}

#[test]
fn submit_stop_order_creates_request() {
    let mut engine = Engine::new();
    engine.inner.context_mut().market.register(265598);

    let id = engine.inner.context.submit_stop(0, Side::Sell, 100, 140 * PRICE_SCALE);
    let orders = engine.inner.context.drain_pending_orders();

    assert_eq!(orders.len(), 1);
    match &orders[0] {
        OrderRequest::SubmitStop { order_id, instrument, side, qty, stop_price } => {
            assert_eq!(*order_id, id);
            assert_eq!(*instrument, 0);
            assert_eq!(*side, Side::Sell);
            assert_eq!(*qty, 100);
            assert_eq!(*stop_price, 140 * PRICE_SCALE);
        }
        _ => panic!("Expected SubmitStop"),
    }
}

#[test]
fn cancel_clord_id_c_prefix_stripped() {
    let mut engine = Engine::new();
    engine.inner.context_mut().market.register(265598);
    engine.inner.context.insert_order(order(
        1772746902000,
        Side::Buy,
        PRICE_SCALE,
        1,
        0,
        OrderStatus::Submitted,
    ));

    engine.inject_ccp_message(&message(
        &[(35, "8"), (11, "C1772746902000"), (39, "4"), (150, "4")],
        1,
    ));

    assert!(engine.inner.context.order(1772746902000).is_none());
    assert_eq!(engine.updates().len(), 1);
    assert_eq!(engine.updates()[0].1, OrderStatus::Cancelled);
}

#[test]
fn expired_order_treated_as_cancelled() {
    let mut engine = Engine::new();
    engine.inner.context_mut().market.register(265598);
    engine.inner.context.insert_order(order(
        60,
        Side::Buy,
        PRICE_SCALE,
        1,
        0,
        OrderStatus::Submitted,
    ));

    engine.inject_ccp_message(&message(&[(35, "8"), (11, "60"), (39, "C"), (150, "C")], 1));

    assert!(engine.inner.context.order(60).is_none());
    assert_eq!(engine.updates()[0].1, OrderStatus::Cancelled);
}

#[test]
fn exec_id_dedup_prevents_double_fill() {
    let mut engine = Engine::new();
    engine.inner.context_mut().market.register(265598);
    engine.inner.context.insert_order(order(
        70,
        Side::Buy,
        150 * PRICE_SCALE,
        100,
        0,
        OrderStatus::Submitted,
    ));

    let msg = message(
        &[
            (35, "8"),
            (11, "70"),
            (17, "EXEC001"),
            (39, "2"),
            (150, "F"),
            (31, "150.0"),
            (32, "100"),
            (151, "0"),
        ],
        1,
    );
    engine.inject_ccp_message(&msg);
    engine.inject_ccp_message(&msg);

    assert_eq!(engine.fills().len(), 1);
    assert_eq!(engine.inner.context.position(0), 100);
}

#[test]
fn exec_id_dedup_different_ids_both_fill() {
    let mut engine = Engine::new();
    engine.inner.context_mut().market.register(265598);
    engine.inner.context.insert_order(order(
        71,
        Side::Buy,
        150 * PRICE_SCALE,
        100,
        0,
        OrderStatus::Submitted,
    ));

    engine.inject_ccp_message(&message(
        &[
            (35, "8"),
            (11, "71"),
            (17, "EXEC_A"),
            (39, "1"),
            (150, "1"),
            (31, "150.0"),
            (32, "50"),
            (151, "50"),
        ],
        1,
    ));
    engine.inject_ccp_message(&message(
        &[
            (35, "8"),
            (11, "71"),
            (17, "EXEC_B"),
            (39, "2"),
            (150, "F"),
            (31, "150.0"),
            (32, "50"),
            (151, "0"),
        ],
        2,
    ));

    assert_eq!(engine.fills().len(), 2);
    assert_eq!(engine.inner.context.position(0), 100);
}

#[test]
fn cancel_reject_on_partial_fill_preserves_status() {
    let mut engine = Engine::new();
    engine.inner.context_mut().market.register(265598);
    engine.inner.context.insert_order(order(
        72,
        Side::Buy,
        150 * PRICE_SCALE,
        100,
        40,
        OrderStatus::PartiallyFilled,
    ));

    engine.inject_ccp_message(&message(
        &[
            (35, "9"),
            (41, "72"),
            (434, "1"),
            (102, "3"),
            (58, "Order in pending state"),
        ],
        1,
    ));

    let o = engine.inner.context.order(72).unwrap();
    assert_eq!(o.status, OrderStatus::PartiallyFilled);
    assert_eq!(engine.cancel_rejects().len(), 1);
}

#[test]
fn cancel_reject_modify_type() {
    let mut engine = Engine::new();
    engine.inner.context_mut().market.register(265598);
    engine.inner.context.insert_order(order(
        73,
        Side::Sell,
        200 * PRICE_SCALE,
        50,
        0,
        OrderStatus::Submitted,
    ));

    engine.inject_ccp_message(&message(
        &[(35, "9"), (41, "73"), (434, "2"), (102, "1"), (58, "Cannot modify")],
        1,
    ));

    assert_eq!(engine.cancel_rejects().len(), 1);
    assert_eq!(engine.cancel_rejects()[0], (73, 2));
}

#[test]
fn heartbeat_timeout_sets_disconnect_flag_not_running_false() {
    let mut engine = Engine::new();
    engine.inner.ccp.disconnected = true;
    assert!(engine.inner.running);
    engine.inner.farm.disconnected = true;
    assert!(engine.inner.running);
}

#[test]
fn partial_fill_updates_order_filled_qty() {
    let mut engine = Engine::new();
    engine.inner.context_mut().market.register(265598);
    engine.inner.context.insert_order(order(
        80,
        Side::Buy,
        150 * PRICE_SCALE,
        100,
        0,
        OrderStatus::Submitted,
    ));

    engine.inject_ccp_message(&message(
        &[
            (35, "8"),
            (11, "80"),
            (17, "PF1"),
            (39, "1"),
            (150, "1"),
            (31, "150.0"),
            (32, "30"),
            (151, "70"),
        ],
        1,
    ));
    let o = engine.inner.context.order(80).unwrap();
    assert_eq!(o.filled_fixed / QTY_SCALE, 30);
    assert_eq!(o.status, OrderStatus::PartiallyFilled);
    assert_eq!(engine.inner.context.position(0), 30);

    engine.inject_ccp_message(&message(
        &[
            (35, "8"),
            (11, "80"),
            (17, "PF2"),
            (39, "1"),
            (150, "1"),
            (31, "150.5"),
            (32, "50"),
            (151, "20"),
        ],
        2,
    ));
    let o = engine.inner.context.order(80).unwrap();
    assert_eq!(o.filled_fixed / QTY_SCALE, 80);
    assert_eq!(engine.inner.context.position(0), 80);

    engine.inject_ccp_message(&message(
        &[
            (35, "8"),
            (11, "80"),
            (17, "PF3"),
            (39, "2"),
            (150, "F"),
            (31, "151.0"),
            (32, "20"),
            (151, "0"),
        ],
        3,
    ));
    assert!(engine.inner.context.order(80).is_none());
    assert_eq!(engine.inner.context.position(0), 100);
    assert_eq!(engine.fills().len(), 3);
}

#[test]
fn seen_exec_ids_accumulate() {
    let mut engine = Engine::new();
    engine.inner.context_mut().market.register(265598);
    engine.inner.context.insert_order(order(
        81,
        Side::Buy,
        PRICE_SCALE,
        100,
        0,
        OrderStatus::Submitted,
    ));

    for i in 0..5 {
        let exec_id = format!("E{}", i);
        engine.inject_ccp_message(&message(
            &[
                (35, "8"),
                (11, "81"),
                (17, &exec_id),
                (39, "1"),
                (150, "1"),
                (31, "1.0"),
                (32, "10"),
                (151, &format!("{}", 90 - i * 10)),
            ],
            i as u32 + 1,
        ));
    }

    assert_eq!(engine.fills().len(), 5);
    assert_eq!(engine.inner.reports.seen_exec_ids.len(), 5);
}

#[test]
fn handle_farm_disconnect_clears_tracking_and_zeros_quotes() {
    let mut engine = Engine::new();
    let id = engine.inner.context_mut().market.register(265598);
    engine.inner.context.market.register_server_tag(42, id);
    engine.inner.context.market.quote_mut(id).bid = 150 * PRICE_SCALE;
    engine.inner.context.market.quote_mut(id).ask = 151 * PRICE_SCALE;
    engine.inner.farm.md_req_to_instrument.push((1, id));
    engine.inner.farm.instrument_md_reqs.push((id, vec![1, 2]));

    engine.inner.handle_farm_disconnect();

    assert!(engine.inner.farm.disconnected);
    assert!(engine.inner.farm.md_req_to_instrument.is_empty());
    assert!(engine.inner.farm.instrument_md_reqs.is_empty());
    assert_eq!(engine.inner.context.market.instrument_by_server_tag(42), None);
    assert_eq!(engine.inner.context.market.bid(id), 0);
    assert_eq!(engine.inner.context.market.ask(id), 0);
    assert_eq!(engine.disconnects(), 1);
}

#[test]
fn handle_ccp_disconnect_marks_orders_uncertain() {
    let mut engine = Engine::new();
    let context = &mut engine.inner.context;
    context.insert_order(order(1, Side::Buy, PRICE_SCALE, 100, 0, OrderStatus::Submitted));
    context.insert_order(order(
        2,
        Side::Sell,
        PRICE_SCALE,
        50,
        20,
        OrderStatus::PartiallyFilled,
    ));
    context.insert_order(order(3, Side::Buy, PRICE_SCALE, 100, 100, OrderStatus::Filled));

    engine.inner.handle_ccp_disconnect();

    assert!(engine.inner.ccp.disconnected);
    let context = &engine.inner.context;
    assert_eq!(context.order(1).unwrap().status, OrderStatus::Uncertain);
    assert_eq!(context.order(2).unwrap().status, OrderStatus::Uncertain);
    assert_eq!(context.order(3).unwrap().status, OrderStatus::Filled);
    assert_eq!(engine.disconnects(), 1);
}

#[test]
fn uncertain_orders_still_in_open_orders_for() {
    let mut ctx = Context::new();
    ctx.insert_order(order(1, Side::Buy, PRICE_SCALE, 100, 0, OrderStatus::Uncertain));
    let open = ctx.open_orders_for(0);
    assert_eq!(open.len(), 1);
    assert_eq!(open[0].status, OrderStatus::Uncertain);
}

// ---------------------------------------------------------------------------------------

#[test]
fn a_silent_connection_is_asked_and_then_lost() {
    let mut engine = Engine::new();
    engine.inner.context.insert_order(order(
        1,
        Side::Buy,
        PRICE_SCALE,
        1,
        0,
        OrderStatus::Submitted,
    ));
    let plan = engine.inner.check_heartbeats(9_999, true, true, true);
    assert!(!plan.ccp.heartbeat && plan.ccp.test.is_none());
    let plan = engine.inner.check_heartbeats(10_000, true, true, true);
    assert!(plan.ccp.heartbeat && !plan.farm.heartbeat);
    let plan = engine.inner.check_heartbeats(12_000, true, true, true);
    assert_eq!(plan.ccp.test.as_deref(), Some("T1"));
    assert!(plan.farm.test.is_none());
    let plan = engine.inner.check_heartbeats(22_999, true, true, true);
    assert!(!plan.ccp.lost);
    let plan = engine.inner.check_heartbeats(23_000, true, true, true);
    assert!(plan.ccp.lost);
    assert!(engine.inner.is_ccp_disconnected());
    assert!(engine.inner.running);
    assert_eq!(engine.inner.context.order(1).unwrap().status, OrderStatus::Uncertain);
}

#[test]
fn traffic_answers_a_test_request() {
    let mut engine = Engine::new();
    engine.inner.check_heartbeats(12_000, true, false, false);
    assert_eq!(engine.inner.hb.ccp_received(12_250), Some(250));
    assert!(engine.inner.hb.pending_ccp_test.is_none());
    assert_eq!(engine.inner.hb.ccp_received(12_300), None);
    engine.inner.hb.farm_received(40);
    engine.inner.hb.hmds_received(50);
    assert_eq!(engine.inner.hb.last_farm_recv, 40);
    assert_eq!(engine.inner.hb.last_hmds_recv, 50);
    assert_eq!(CCP_HEARTBEAT_SECS, 10);
    assert_eq!(FARM_HEARTBEAT_SECS, 30);
}

#[test]
fn heartbeat_messages() {
    assert_eq!(
        heartbeat_fields("t").items,
        vec![(35, "0".to_string()), (52, "t".to_string())]
    );
    assert_eq!(
        test_request_fields("t", "T1").items,
        vec![(35, "1".to_string()), (52, "t".to_string()), (112, "T1".to_string())]
    );
}

#[test]
fn a_farm_test_request_is_answered() {
    let mut engine = Engine::new();
    let msg = message(&[(35, "1"), (112, "X")], 1);
    match engine.inner.inject_farm_message(&msg, &table(&msg), "t") {
        FarmStep::Reply(f) => assert_eq!(f.items[2], (112, "X".to_string())),
        _ => panic!("expected a reply"),
    }
}

#[test]
fn price_ticks_add_up() {
    let mut engine = Engine::new();
    let id = engine.inner.context.market.register(1);
    engine.inner.context.market.set_min_tick(id, PRICE_SCALE / 100);
    engine.inner.context.market.register_server_tag(7, id);
    engine.inject_farm_message(&tick_message(7, 0, 100));
    engine.inject_farm_message(&tick_message(7, 0, 25));
    assert_eq!(engine.inner.context.market.bid(id), 125 * (PRICE_SCALE / 100));
    engine.inject_farm_message(&tick_message(7, 0, 0x80 | 5));
    assert_eq!(engine.inner.context.market.bid(id), 120 * (PRICE_SCALE / 100));
    assert_eq!(engine.ticks(), vec![id, id, id]);
}

#[test]
fn a_tick_that_does_not_fit_is_noticed() {
    let mut engine = Engine::new();
    let id = engine.inner.context.market.register(1);
    engine.inner.context.market.register_server_tag(7, id);
    engine.inner.context.market.quote_mut(id).bid = i64::MAX;
    let ticks = read_ticks(&tick_message(7, 0, 1)).unwrap();
    assert!(!can_apply_tick(&engine.inner.context.market, &ticks[0], 1));
    assert!(can_apply_tick(&engine.inner.context.market, &ticks[0], -1));
}

#[test]
fn ticks_that_end_too_early_are_not_read() {
    let mut msg = tick_message(7, 0, 1);
    msg.pop();
    assert!(read_ticks(&msg).is_none());
    assert_eq!(read_ticks(b"35=X\x01").unwrap().len(), 0);
}

#[test]
fn signatures_are_cut_off() {
    let ack = read_subscription_ack(b"8=O\x0135=Q\x01 42,1,0.05\x018349=abc,def\x01").unwrap();
    assert_eq!((ack.server_tag, ack.req_id, ack.min_tick.as_str()), (42, 1, "0.05"));
}

#[test]
fn tick_by_tick_prices_run_on() {
    let mut tbt = TbtState::new();
    assert!(tbt
        .handle_tbt_entry(TbtEntry::Quote {
            timestamp: 0,
            bid_cents_delta: 1,
            ask_cents_delta: 1,
            bid_size: 0,
            ask_size: 0
        })
        .is_none());
    let sub = tbt.send_tbt_subscribe(265598, 3, TbtType::Last, "t");
    assert!(sub.items[2].1.contains("<id>tbt_1</id><contractID>265598</contractID>"));
    assert!(sub.items[2].1.contains("<data>AllLast</data>"));
    for (delta, want) in [(15_000, 15_000), (10, 15_010)] {
        let entry = TbtEntry::Trade {
            timestamp: 9,
            price_cents_delta: delta,
            size: 5,
            exchange: "ARCA".to_string(),
            conditions: String::new(),
        };
        assert!(tbt.can_apply(&entry));
        match tbt.handle_tbt_entry(entry) {
            Some(TbtEvent::Trade(t)) => {
                assert_eq!(t.instrument, 3);
                assert_eq!(t.price, want * (PRICE_SCALE / 100));
            }
            _ => panic!("expected a trade"),
        }
    }
    match tbt.handle_tbt_entry(TbtEntry::Quote {
        timestamp: 9,
        bid_cents_delta: 14_999,
        ask_cents_delta: 15_001,
        bid_size: 1,
        ask_size: 2,
    }) {
        Some(TbtEvent::Quote(q)) => {
            assert_eq!(q.bid, 14_999 * (PRICE_SCALE / 100));
            assert_eq!(q.ask, 15_001 * (PRICE_SCALE / 100));
        }
        _ => panic!("expected a quote"),
    }
    assert_eq!(tbt.tbt_prices(3), (15_010, 14_999, 15_001));
    assert!(!tbt.can_apply(&TbtEntry::Trade {
        timestamp: 0,
        price_cents_delta: i64::MAX,
        size: 0,
        exchange: String::new(),
        conditions: String::new(),
    }));
    let end = tbt.send_tbt_unsubscribe(3, "t").unwrap();
    assert!(end.items[2].1.contains("<id>ticker:tbt_1</id>"));
    assert_eq!(tbt.tbt_prices(3), (0, 0, 0));
    assert!(tbt.send_tbt_unsubscribe(3, "t").is_none());
}

#[test]
fn shutdown_ends_every_subscription() {
    let mut engine = Engine::new();
    engine.command(ControlCommand::Subscribe { con_id: 1, symbol: "A".into() });
    engine.command(ControlCommand::Subscribe { con_id: 2, symbol: "B".into() });
    engine.command(ControlCommand::SubscribeTbt {
        con_id: 1,
        symbol: "A".into(),
        tbt_type: TbtType::BidAsk,
    });
    let step = engine.command(ControlCommand::Shutdown);
    assert_eq!(step.farm_messages.len(), 4);
    assert_eq!(step.hmds_messages.len(), 1);
    assert!(step.stop);
    assert!(engine.inner.farm.instrument_md_reqs.is_empty());
    assert!(engine.inner.tbt.tbt_subscriptions.is_empty());
}

#[test]
fn commands_register_and_request() {
    let mut engine = Engine::new();
    engine.command(ControlCommand::RegisterInstrument { con_id: 9 });
    engine.command(ControlCommand::Order(OrderRequest::Cancel { order_id: 1 }));
    assert_eq!(engine.inner.context.market.con_id(0), Some(9));
    assert_eq!(engine.inner.context.pending_orders.len(), 1);
    engine.inner.farm.next_md_req_id = u32::MAX;
    assert!(!is_possible(
        &ControlCommand::Subscribe { con_id: 9, symbol: "A".into() },
        &engine.inner.context,
        &engine.inner.farm,
        &engine.inner.tbt
    ));
}

#[test]
fn a_new_order_connection_asks_for_the_status_of_all_orders() {
    let mut engine = Engine::new();
    engine.inner.ccp.disconnected = true;
    let messages = engine.inner.reconnect_ccp(7_000, "t");
    assert!(!engine.inner.is_ccp_disconnected());
    assert_eq!(messages.len(), 1);
    let texts: Vec<(u32, &str)> =
        messages[0].items.iter().map(|(tag, text)| (*tag, text.as_str())).collect();
    assert_eq!(texts, vec![(35, "H"), (52, "t"), (11, "*"), (54, "*"), (55, "*")]);
    assert_eq!(engine.inner.hb.last_ccp_sent, 7_000);
    assert_eq!(engine.inner.hb.last_ccp_recv, 7_000);
}

#[test]
fn a_new_order_connection_asks_for_the_account_again() {
    let mut engine = HotLoop::new(0);
    engine.ccp.disconnected = true;
    let messages = engine.ccp.reconnect(&mut engine.hb, "DU1", 7_000, "t");
    assert!(!engine.is_ccp_disconnected());
    assert_eq!(messages.len(), 2);
    assert_eq!(messages[0].items[3], (1, "DU1".to_string()));
    assert_eq!(messages[1].items[4], (6095, "DU1".to_string()));
    assert_eq!(engine.hb.last_ccp_sent, 7_000);
}

#[test]
fn duplicate_exec_reports_deduped() {
    let mut engine = Engine::new();
    engine.inner.context_mut().market.register(265598);
    engine.inner.context.insert_order(order(
        30,
        Side::Buy,
        150 * PRICE_SCALE,
        100,
        0,
        OrderStatus::PendingSubmit,
    ));

    let msg = message(&[(35, "8"), (11, "30"), (39, "A"), (150, "A")], 1);
    engine.inject_ccp_message(&msg);
    engine.inject_ccp_message(&msg);
    engine.inject_ccp_message(&msg);

    assert_eq!(engine.updates().len(), 1);
    assert_eq!(engine.updates()[0], (30, OrderStatus::Submitted));
}

#[test]
fn partial_fill_then_cancel_correct_position() {
    let mut engine = Engine::new();
    engine.inner.context_mut().market.register(265598);
    engine.inner.context.insert_order(order(
        50,
        Side::Buy,
        150 * PRICE_SCALE,
        100,
        0,
        OrderStatus::Submitted,
    ));

    engine.inject_ccp_message(&message(
        &[
            (35, "8"),
            (11, "50"),
            (39, "1"),
            (150, "1"),
            (31, "150.0"),
            (32, "40"),
            (151, "60"),
        ],
        1,
    ));
    assert_eq!(engine.inner.context.position(0), 40);

    engine.inject_ccp_message(&message(
        &[(35, "8"), (11, "50"), (39, "4"), (150, "4"), (151, "0")],
        2,
    ));

    assert_eq!(engine.inner.context.position(0), 40);
    assert!(engine.inner.context.order(50).is_none());
    assert_eq!(engine.updates().len(), 2);
    assert_eq!(engine.updates()[0].1, OrderStatus::PartiallyFilled);
    assert_eq!(engine.updates()[1].1, OrderStatus::Cancelled);
}

#[test]
fn both_connections_take_in_the_same_account_values() {
    let mut engine = Engine::new();
    engine.inner.context_mut().market.register(265598);
    let account = b"8=O\x0135=UT\x018001=BuyingPower\x018004=7\x018001=SMA\x018004=2\x01";
    let position = b"8=O\x0135=UP\x016008=265598\x016064=-7.9\x01";
    engine.inject_farm_message(account);
    engine.inject_farm_message(position);
    assert_eq!(engine.inner.context.account.buying_power, 7 * PRICE_SCALE);
    assert_eq!(engine.inner.context.account.sma, 0);
    assert_eq!(engine.inner.context.position_fixed(0), -7 * QTY_SCALE);
    engine.inject_ccp_message(account);
    engine.inject_ccp_message(position);
    assert_eq!(engine.inner.context.account.sma, 0);
    assert_eq!(engine.inner.context.position_fixed(0), -7 * QTY_SCALE);
    engine.inject_ccp_message(b"8=O\x0135=UP\x016008=265598\x016064=many\x01");
    assert_eq!(engine.inner.context.position_fixed(0), 0);
}

#[test]
fn bars_find_their_request() {
    let mut kept = KeptQueries::new();
    kept.keep("q1".to_string(), 11);
    kept.keep("q2".to_string(), 12);
    assert_eq!(kept.request_of("q2"), Some(12));
    assert_eq!(kept.request_of("q3"), None);
    kept.assign_ticker("<id>q2</id>", 99, "0.05".to_string());
    kept.assign_ticker("<id>other</id>", 98, "0.05".to_string());
    assert_eq!(kept.request_of_ticker(99), Some(12));
    assert_eq!(kept.request_of_ticker(98), None);
    assert_eq!(kept.min_tick_of(99).as_deref(), Some("0.05"));

    let mut msg = b"8=O\x0135=G\x01\x00\x00".to_vec();
    msg.extend_from_slice(&99u32.to_be_bytes());
    msg.extend_from_slice(&1_700_000_000u32.to_be_bytes());
    msg.push(3);
    msg.extend_from_slice(b"abc\x018349=sig");
    let frame = read_bar_frame(&msg).unwrap();
    assert_eq!(frame.ticker_id, 99);
    assert_eq!(frame.timestamp, 1_700_000_000);
    assert_eq!(frame.payload, b"abc");
    assert!(read_bar_frame(b"35=G\x01short").is_none());
}
