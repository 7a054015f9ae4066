use std::collections::HashMap;

use ibx::bridge::{Number, OrderReports, PositionInfo};
use ibx::calendar::fix_utc_to_unix_secs;
use ibx::engine::context::Context;
use ibx::engine::hot_loop::ccp::{
    Arrival, CcpState, Decoded, MarketRule, PriceStep, SharedState,
};
use ibx::engine::hot_loop::exec_ids::{
    perm_id_from_fix_order_id, split_exec_revision, ExecIdWindow, EXEC_ID_WINDOW,
};
use ibx::engine::hot_loop::exec_report::{decode_tif, handle_exec_report, tif_byte};
use ibx::engine::hot_loop::lookup_replies::SecDefFilters;
use ibx::engine::hot_loop::lookups::{
    ContractDefinition, LookupEvent, Lookups, PendingFanout, ScannerEntry, ScannerResult,
    Schedule, SECDEF_TIMEOUT,
};
use ibx::engine::hot_loop::numbers::NumberTable;
use ibx::engine::hot_loop::portfolio::{handle_portfolio_message, handle_position_update};
use ibx::engine::hot_loop::server_reports::{
    extract_tag_value, handle_commission_report, reconnect_requests, send_news_subscribe,
    send_news_unsubscribe, send_pnl_subscribe,
};
use ibx::engine::order::{Order, OrderRequest, OrderStatus, Side};
use ibx::protocol::fix::{fix_build, fix_parse, Fields};
use ibx::types::{MAX_INSTRUMENTS, PRICE_SCALE, QTY_SCALE};

fn number(text: &str) -> Option<Number> {
    let v: f64 = text.parse().ok()?;
    let scaled = v * PRICE_SCALE as f64;
    Some(Number {
        scaled: scaled as i64,
        rounded: scaled.round() as i64,
        whole: v as i64,
        finite: v.is_finite(),
        zero: v == 0.0,
    })
}

fn numbers(m: &HashMap<u32, String>) -> HashMap<u32, Number> {
    m.iter().filter_map(|(t, v)| Some((*t, number(v)?))).collect()
}

/// What the values of a message stand for.
fn table(msg: &[u8]) -> NumberTable {
    let mut entries = Vec::new();
    for piece in msg.split(|&b| b == 1) {
        let text = String::from_utf8_lossy(piece).into_owned();
        if let Some((_, value)) = text.split_once('=') {
            if let Some(n) = number(value) {
                entries.push((value.to_string(), n));
            }
        }
    }
    NumberTable { entries }
}

fn decoded(msg: &[u8]) -> Decoded {
    Decoded { numbers: table(msg), definition: None, rules: Vec::new(), schedule: None }
}

fn arrival() -> Arrival<'static> {
    Arrival { account_id: "DU1", connected: true, stamp: "20260101-00:00:00", now: 1_000 }
}

fn message(pairs: &[(u32, &str)]) -> Vec<u8> {
    let mut fields = Fields::new();
    for (tag, value) in pairs {
        fields.put_str(*tag, value);
    }
    fix_build(&fields, 1)
}

fn frame(pairs: &[(u32, &str)]) -> HashMap<u32, String> {
    pairs.iter().map(|(t, v)| (*t, v.to_string())).collect()
}

struct Bench {
    ccp: CcpState,
    context: Context,
    shared: SharedState,
}

impl Bench {
    fn new(context: Context) -> Self {
        Bench { ccp: CcpState::new(), context, shared: SharedState::new() }
    }

    fn report(&mut self, m: &HashMap<u32, String>) {
        let n = numbers(m);
        handle_exec_report(
            m,
            &n,
            &mut self.ccp.exec_ids,
            &mut self.context,
            &mut self.shared.orders,
            &mut self.shared.portfolio,
            &mut self.shared.contracts,
            &mut self.shared.instrument_count,
            "",
        );
    }

    fn commission(&mut self, m: &HashMap<u32, String>) {
        let n = numbers(m);
        handle_commission_report(m, &n, &mut self.ccp.commissions, &mut self.shared.orders);
    }

    fn receive(&mut self, msg: &[u8]) {
        self.receive_decoded(msg, decoded(msg));
    }

    fn receive_decoded(&mut self, msg: &[u8], d: Decoded) {
        self.ccp.process_ccp_message(msg, d, &mut self.context, &mut self.shared, &arrival());
    }
}

fn commission_frame(pairs: &[(u32, &str)]) -> HashMap<u32, String> {
    let mut m = frame(&[
        (35, "U"),
        (6040, "60"),
        (17, "0000e0d5.6ab5f36f.01.01"),
        (37, "1"),
        (6381, "USD"),
        (6378, "1.0003"),
        (6099, "0"),
    ]);
    for (tag, val) in pairs {
        m.insert(*tag, val.to_string());
    }
    m
}

#[test]
fn commission_frame_gives_the_commission_report() {
    let mut b = Bench::new(Context::new());
    b.commission(&commission_frame(&[]));
    let reports = &b.shared.orders.commissions;
    assert_eq!(reports.len(), 1);
    let r = &reports[0];
    assert_eq!(r.exec_id, "0000e0d5.6ab5f36f.01.01");
    assert_eq!(r.commission_and_fees, "1.0003");
    assert_eq!(r.currency, "USD");
    assert_eq!(r.realized_pnl, None, "a realized P&L of 0 is sent as unset");
    assert_eq!(r.yield_amount, None);
    assert_eq!(r.yield_redemption_date, "");
}

#[test]
fn commission_frame_carries_realized_pnl_and_yield() {
    let mut b = Bench::new(Context::new());
    b.commission(&commission_frame(&[(6099, "-12.5"), (236, "4.25"), (696, "20301231")]));
    let r = b.shared.orders.commissions.remove(0);
    assert_eq!(r.realized_pnl.as_deref(), Some("-12.5"));
    assert_eq!(r.yield_amount.as_deref(), Some("4.25"));
    assert_eq!(r.yield_redemption_date, "20301231");
}

#[test]
fn commission_frame_duplicates_and_lower_revisions_are_skipped() {
    let mut b = Bench::new(Context::new());
    b.commission(&commission_frame(&[(17, "0000e0d5.6ab5f36f.01.02")]));
    b.commission(&commission_frame(&[(17, "0000e0d5.6ab5f36f.01.02")]));
    b.commission(&commission_frame(&[(17, "0000e0d5.6ab5f36f.01.01")]));
    assert_eq!(b.shared.orders.commissions.len(), 1);
    b.shared.orders.commissions.clear();
    b.commission(&commission_frame(&[(17, "0000e0d5.6ab5f36f.01.0a"), (6378, "1.5")]));
    let r = &b.shared.orders.commissions;
    assert_eq!(r.len(), 1);
    assert_eq!(r[0].commission_and_fees, "1.5");
}

#[test]
fn commission_frame_without_a_commission_is_dropped() {
    let mut b = Bench::new(Context::new());
    let mut m = commission_frame(&[]);
    m.remove(&6378);
    b.commission(&m);
    assert!(b.shared.orders.commissions.is_empty());
}

fn ord_status_test_state() -> Bench {
    let mut context = Context::new();
    let instrument = context.register_instrument(756733);
    context.insert_order(Order::new(
        42,
        instrument,
        Side::Buy,
        1,
        100 * PRICE_SCALE,
        b'2',
        b'0',
        0,
    ));
    Bench::new(context)
}

fn exec_report_frame(pairs: &[(u32, &str)]) -> HashMap<u32, String> {
    let mut m = frame(&[(11, "42")]);
    for (tag, val) in pairs {
        m.insert(*tag, val.to_string());
    }
    m
}

#[test]
fn a_fill_carries_its_execution_id() {
    let mut b = ord_status_test_state();
    b.report(&exec_report_frame(&[
        (20, "0"),
        (39, "2"),
        (150, "F"),
        (17, "0000e0d5.6ab5f36f.01.01"),
        (31, "336.25"),
        (32, "1"),
        (14, "1"),
        (151, "0"),
        (6, "336.25"),
    ]));
    let fills = &b.shared.orders.fills;
    assert_eq!(fills.len(), 1);
    assert_eq!(fills[0].1.exec_id, "0000e0d5.6ab5f36f.01.01");
}

#[test]
fn a_fill_carries_its_execution_details() {
    let mut b = ord_status_test_state();
    b.report(&exec_report_frame(&[
        (20, "0"),
        (39, "2"),
        (150, "F"),
        (17, "0000e0d5.6ab5f36f.01.01"),
        (31, "336.25"),
        (32, "1"),
        (14, "1"),
        (151, "0"),
        (6, "336.25"),
        (100, "ARCA"),
        (207, "ARCA"),
        (30, "ARCA"),
        (6119, "250"),
        (6010, "pm0925-fill-BUY"),
        (60, "20260925-08:49:54"),
        (52, "20260925-08:49:55.123"),
    ]));
    let (_, exec) = b.shared.orders.fills.remove(0);
    assert_eq!(exec.time_secs, Some(1790326194));
    assert_eq!(exec.exchange, "ARCA");
    assert_eq!(exec.client_id, 250);
    assert_eq!(exec.order_ref, "pm0925-fill-BUY");
    assert_eq!(exec.model_code, "");
}

#[test]
fn a_fill_time_prefers_6699_and_exchange_falls_back_to_207() {
    let mut b = ord_status_test_state();
    b.report(&exec_report_frame(&[
        (20, "0"),
        (39, "2"),
        (150, "F"),
        (17, "e2"),
        (31, "1"),
        (32, "1"),
        (14, "1"),
        (151, "0"),
        (207, "NASDAQ"),
        (6699, "20260925-08:49:53.500"),
        (60, "20260925-08:49:54"),
    ]));
    let (_, exec) = b.shared.orders.fills.remove(0);
    assert_eq!(exec.time_secs, Some(1790326193));
    assert_eq!(exec.exchange, "NASDAQ");
}

#[test]
fn fix_utc_time_to_unix_seconds() {
    assert_eq!(fix_utc_to_unix_secs("19700101-00:00:00"), Some(0));
    assert_eq!(fix_utc_to_unix_secs("20000301-12:30:15.250"), Some(951913815));
    assert_eq!(fix_utc_to_unix_secs("20260925 08:49:54"), None);
    assert_eq!(fix_utc_to_unix_secs("2026"), None);
}

#[test]
fn split_exec_revision_reads_the_last_segment_as_hex() {
    assert_eq!(
        split_exec_revision("0000e0d5.6ab5f36f.01.0a"),
        ("0000e0d5.6ab5f36f.01".to_string(), 10)
    );
    assert_eq!(split_exec_revision("plain"), ("plain".to_string(), 0));
}

#[test]
fn record_exec_id_dedupes_within_window() {
    let mut ids = ExecIdWindow::new();
    assert!(ids.record("exec-A"), "first sighting is new");
    assert!(!ids.record("exec-A"), "immediate replay is a duplicate");
}

#[test]
fn record_exec_id_evicts_oldest_not_whole_set() {
    let mut ids = ExecIdWindow::new();
    assert!(ids.record("exec-first"));
    for i in 0..EXEC_ID_WINDOW {
        assert!(ids.record(&format!("exec-{i}")));
    }
    assert_eq!(ids.len(), EXEC_ID_WINDOW);
    assert!(!ids.record("exec-0"), "recent ID still deduped");
    assert!(
        !ids.record(&format!("exec-{}", EXEC_ID_WINDOW - 1)),
        "newest ID still deduped"
    );
}

#[test]
fn record_exec_id_window_is_bounded() {
    let mut ids = ExecIdWindow::new();
    for i in 0..(EXEC_ID_WINDOW * 3) {
        ids.record(&format!("exec-{i}"));
    }
    assert_eq!(ids.len(), EXEC_ID_WINDOW);
}

fn what_if_frame(margin_fields: &[(u32, &str)]) -> HashMap<u32, String> {
    let mut m = frame(&[(11, "42"), (6091, "1")]);
    for (tag, val) in margin_fields {
        m.insert(*tag, val.to_string());
    }
    m
}

const ZERO_CLOSE_FIELDS: [(u32, &str); 6] = [
    (6826, "976.07"),
    (6827, "887.34"),
    (6828, "945924.53"),
    (6092, "0"),
    (6093, "0"),
    (6094, "945923.47"),
];

fn what_if_test_state() -> Bench {
    let mut context = Context::new();
    let instrument = context.register_instrument(756733);
    context.insert_order(Order {
        order_id: 42,
        instrument,
        side: Side::Buy,
        price: 0,
        qty_fixed: 100 * QTY_SCALE,
        filled_fixed: 0,
        status: OrderStatus::Submitted,
        ord_type: b'2',
        tif: b'0',
        stop_price: 0,
    });
    Bench::new(context)
}

#[test]
fn what_if_zero_init_margin_is_delivered() {
    let mut b = what_if_test_state();
    b.report(&what_if_frame(&ZERO_CLOSE_FIELDS));
    let responses = &b.shared.orders.what_ifs;
    assert_eq!(responses.len(), 1, "zero-margin preview must be delivered");
    assert_eq!(responses[0].init_margin_after, 0);
    assert!(b.context.order(42).is_none());
}

#[test]
fn what_if_not_ready_ack_is_skipped() {
    let mut b = what_if_test_state();
    b.report(&what_if_frame(&[
        (6826, "n/a"),
        (6827, "n/a"),
        (6828, "n/a"),
        (6092, "n/a"),
        (6093, "n/a"),
        (6094, "n/a"),
    ]));
    assert!(b.shared.orders.what_ifs.is_empty(), "n/a ack must not surface as a response");
    assert!(b.context.order(42).is_some());
}

#[test]
fn what_if_without_6092_but_numeric_siblings_is_delivered() {
    let mut b = what_if_test_state();
    b.report(&what_if_frame(&[(6093, "0"), (6094, "945923.47")]));
    let responses = &b.shared.orders.what_ifs;
    assert_eq!(responses.len(), 1, "sibling-only preview must be delivered");
    assert_eq!(responses[0].init_margin_after, 0);
    assert_eq!(
        responses[0].equity_with_loan_after,
        (945923.47 * PRICE_SCALE as f64) as i64
    );
    assert!(b.context.order(42).is_none());
}

#[test]
fn what_if_nan_sentinels_are_skipped() {
    let mut b = what_if_test_state();
    b.report(&what_if_frame(&[
        (6826, "nan"),
        (6827, "nan"),
        (6828, "nan"),
        (6092, "nan"),
        (6093, "nan"),
        (6094, "nan"),
    ]));
    assert!(
        b.shared.orders.what_ifs.is_empty(),
        "all-nan frame must not surface as a response"
    );
    assert!(b.context.order(42).is_some());
}

#[test]
fn what_if_nan_field_with_finite_sibling_is_delivered() {
    let mut b = what_if_test_state();
    b.report(&what_if_frame(&[(6092, "nan"), (6094, "945923.47")]));
    let responses = &b.shared.orders.what_ifs;
    assert_eq!(responses.len(), 1);
    assert_eq!(responses[0].init_margin_after, 0, "nan field reads as unset/0");
    assert_eq!(
        responses[0].equity_with_loan_after,
        (945923.47 * PRICE_SCALE as f64) as i64
    );
}

#[test]
fn ord_status_new_unrouted_is_presubmitted() {
    let mut b = ord_status_test_state();
    b.report(&exec_report_frame(&[(39, "0"), (150, "0"), (198, "NONE")]));
    assert_eq!(b.context.order(42).unwrap().status, OrderStatus::PreSubmitted);
}

#[test]
fn ord_status_new_routed_is_submitted() {
    let mut b = ord_status_test_state();
    b.report(&exec_report_frame(&[(39, "0"), (150, "0"), (100, "ARCA"), (198, "ARCA:1")]));
    assert_eq!(b.context.order(42).unwrap().status, OrderStatus::Submitted);
}

#[test]
fn ord_status_presubmitted_then_routed_advances_to_submitted() {
    let mut b = ord_status_test_state();
    b.report(&exec_report_frame(&[(39, "0"), (150, "0"), (198, "NONE")]));
    assert_eq!(b.context.order(42).unwrap().status, OrderStatus::PreSubmitted);
    b.report(&exec_report_frame(&[(39, "0"), (150, "0"), (100, "ARCA"), (198, "ARCA:1")]));
    assert_eq!(b.context.order(42).unwrap().status, OrderStatus::Submitted);
}

#[test]
fn ord_status_replace_keeps_the_working_status() {
    let mut b = ord_status_test_state();
    b.report(&exec_report_frame(&[(39, "0"), (150, "0"), (198, "NONE")]));
    b.shared.orders.drain_order_updates();

    b.report(&exec_report_frame(&[(11, "42.1"), (39, "6"), (150, "6"), (198, "NONE")]));
    b.report(&exec_report_frame(&[
        (11, "42.1"),
        (41, "42.0"),
        (39, "5"),
        (150, "5"),
        (198, "NONE"),
    ]));

    assert_eq!(b.context.order(42).unwrap().status, OrderStatus::PreSubmitted);
    let statuses: Vec<_> =
        b.shared.orders.drain_order_updates().iter().map(|u| u.status).collect();
    assert_eq!(statuses, [OrderStatus::PreSubmitted; 2]);
}

#[test]
fn a_stale_report_is_not_reported_and_filled_is_the_server_count() {
    let mut b = ord_status_test_state();
    b.report(&exec_report_frame(&[(39, "0"), (150, "0"), (100, "ARCA"), (14, "0")]));
    b.shared.orders.drain_order_updates();
    b.report(&exec_report_frame(&[(39, "A"), (150, "A")]));
    assert!(
        b.shared.orders.drain_order_updates().is_empty(),
        "stale PreSubmitted after Submitted"
    );
    b.report(&exec_report_frame(&[
        (39, "0"),
        (150, "0"),
        (100, "ARCA"),
        (14, "0.5"),
        (151, "0.5"),
    ]));
    let updates = b.shared.orders.drain_order_updates();
    assert_eq!(updates.len(), 1);
    assert_eq!(updates[0].status, OrderStatus::Submitted);
    assert_eq!(updates[0].filled_qty_fixed, QTY_SCALE / 2);
}

#[test]
fn the_order_cache_holds_the_report_before_the_update() {
    let mut b = ord_status_test_state();
    b.report(&exec_report_frame(&[(39, "0"), (150, "0"), (100, "ARCA"), (44, "101.5")]));
    assert_eq!(b.shared.orders.drain_order_updates().len(), 1);
    let info = b.shared.orders.infos.get(&42).expect("cached");
    assert_eq!(info.order_state.status, "Submitted");
    assert_eq!(info.order.lmt_price.parse::<f64>().unwrap(), 101.5);
}

#[test]
fn ord_status_replace_of_a_routed_order_stays_submitted() {
    let mut b = ord_status_test_state();
    b.report(&exec_report_frame(&[(39, "0"), (150, "0"), (100, "ARCA"), (198, "ARCA:1")]));
    b.report(&exec_report_frame(&[(11, "42.1"), (39, "5"), (150, "5"), (198, "NONE")]));
    assert_eq!(b.context.order(42).unwrap().status, OrderStatus::Submitted);
}

#[test]
fn ord_status_pending_on_a_cancel_request_is_pending_cancel() {
    let mut b = ord_status_test_state();
    b.report(&exec_report_frame(&[(39, "0"), (150, "0"), (100, "ARCA"), (198, "ARCA:1")]));
    b.report(&exec_report_frame(&[(11, "C42"), (39, "6"), (150, "6")]));
    assert_eq!(b.context.order(42).unwrap().status, OrderStatus::PendingCancel);
}

#[test]
fn pending_cancel_report_keeps_the_order_until_cancelled() {
    let mut b = ord_status_test_state();
    for pairs in [
        &[(20, "3"), (39, "A"), (150, "A")][..],
        &[(20, "0"), (39, "0"), (150, "0"), (100, "ARCA")][..],
        &[(20, "3"), (39, "D"), (150, "D"), (378, "5")][..],
    ] {
        b.report(&exec_report_frame(pairs));
    }
    assert_eq!(b.context.order(42).unwrap().status, OrderStatus::PendingCancel);
    let statuses: Vec<OrderStatus> =
        b.shared.orders.drain_order_updates().iter().map(|u| u.status).collect();
    assert_eq!(
        statuses,
        [OrderStatus::PreSubmitted, OrderStatus::Submitted, OrderStatus::PendingCancel]
    );

    let instrument = b.context.order(42).unwrap().instrument;
    b.report(&exec_report_frame(&[
        (20, "0"),
        (39, "2"),
        (150, "F"),
        (17, "e1"),
        (31, "100"),
        (32, "1"),
        (14, "1"),
        (151, "0"),
        (6, "100"),
    ]));
    assert_eq!(b.shared.orders.fills.len(), 1, "the fill after 39=D is applied");
    assert_eq!(b.context.position_fixed(instrument), QTY_SCALE);
}

#[test]
fn cancelled_report_after_pending_cancel_ends_the_order() {
    let mut b = ord_status_test_state();
    for pairs in [
        &[(20, "0"), (39, "0"), (150, "0"), (100, "ARCA")][..],
        &[(20, "3"), (39, "D"), (150, "D")][..],
        &[(20, "3"), (39, "4"), (150, "4")][..],
    ] {
        b.report(&exec_report_frame(pairs));
    }
    assert!(b.context.order(42).is_none(), "a cancelled order leaves the engine");
    let last = b.shared.orders.drain_order_updates().last().map(|u| u.status);
    assert_eq!(last, Some(OrderStatus::Cancelled));
}

#[test]
fn pending_replace_and_inactive_reports_keep_the_status() {
    let mut b = ord_status_test_state();
    b.report(&exec_report_frame(&[(39, "0"), (150, "0"), (100, "ARCA")]));
    b.shared.orders.drain_order_updates();
    for code in ["E", "I"] {
        b.report(&exec_report_frame(&[(20, "3"), (39, code), (150, code)]));
        assert_eq!(b.context.order(42).unwrap().status, OrderStatus::Submitted, "39={}", code);
    }
    assert!(b.shared.orders.drain_order_updates().is_empty());
}

#[test]
fn a_portfolio_message_applies_every_position_row() {
    let mut context = Context::new();
    let mut shared = SharedState::new();
    let msft = context.market.try_register(272093).unwrap();
    let captured = "8=FIX.4.1|9=000999|35=UP|6529=AR.3|\
        6068=AXTI                  |6288=0|8001=PositionList|8002=AXTI/USD/1/4726868|6064=1|6067=107.50|6065=107.5|6066=1781529403|15=USD|6008=4726868|167=STK|6101=117.79|6235=107.5|6099=0.00|6100=-10.29|9821=0|6627=0|6920=0|8136=107.485466|8152=107.5|\
        6068=MSFT                  |6288=0|8001=PositionList|8002=MSFT/USD/1/272093|6064=-10|6067=-3964.40|6065=396.44000245|6066=1781529403|15=USD|6008=272093|167=STK|6101=423.53108|6235=396.44000245|6099=0.00|6100=270.91|9821=0|6627=0|6920=0|8136=396.4232483|8152=-3964.4000244|\
        6068=SPY                   |6288=0|8001=PositionList|8002=SPY/USD/1/756733|6064=18|6067=13530.35|6065=751.6859131|6066=1781529403|15=USD|6008=756733|167=STK|6101=723.43166665|6235=751.6859131|6099=0.00|6100=508.58|9821=0|6627=0|6920=0|8136=-1|8152=13530.34643555|10=000|";
    let msg = captured.replace('|', "\x01");

    handle_portfolio_message(
        msg.as_bytes(),
        &table(msg.as_bytes()),
        &mut context,
        &mut shared.portfolio,
        &mut shared.positions,
    );

    let row = |con_id: i64| shared.portfolio.infos.get(&con_id).expect("row applied");
    assert_eq!(
        (row(4726868).position_fixed / QTY_SCALE, row(4726868).symbol.as_str()),
        (1, "AXTI")
    );
    assert_eq!(row(4726868).avg_cost, (117.79 * PRICE_SCALE as f64) as i64);
    assert_eq!(
        (row(272093).position_fixed / QTY_SCALE, row(272093).symbol.as_str()),
        (-10, "MSFT")
    );
    assert_eq!(row(272093).unrealized_pnl, (270.91 * PRICE_SCALE as f64) as i64);
    assert_eq!(
        (row(756733).position_fixed / QTY_SCALE, row(756733).symbol.as_str()),
        (18, "SPY")
    );
    assert_eq!(row(4726868).multiplier, "1");
    assert_eq!(
        context.position_fixed(msft) / QTY_SCALE,
        -10,
        "a registered instrument's position follows its row"
    );
}

#[test]
fn position_update_maps_marks_and_avg_cost_from_correct_tags() {
    let mut context = Context::new();
    let mut shared = SharedState::new();
    let m = frame(&[
        (6008, "756733"),
        (6064, "10"),
        (6101, "100.50"),
        (6065, "110.25"),
        (6067, "1102.50"),
        (6100, "97.50"),
        (6099, "5.00"),
    ]);
    handle_position_update(
        &m,
        &numbers(&m),
        &mut context,
        &mut shared.portfolio,
        &mut shared.positions,
    );

    let pi = shared.portfolio.infos.get(&756733).expect("position stored");
    assert_eq!(pi.position_fixed / QTY_SCALE, 10);
    assert_eq!(pi.avg_cost, (100.50 * PRICE_SCALE as f64) as i64);
    assert_eq!(pi.market_price, (110.25 * PRICE_SCALE as f64) as i64);
    assert_eq!(pi.market_value, (1102.50 * PRICE_SCALE as f64) as i64);
    assert_eq!(pi.unrealized_pnl, (97.50 * PRICE_SCALE as f64) as i64);
    assert_eq!(pi.realized_pnl, (5.00 * PRICE_SCALE as f64) as i64);
}

fn lean_info(con_id: i64, position_fixed: i64, avg_cost: i64) -> PositionInfo {
    PositionInfo {
        con_id,
        position_fixed,
        avg_cost,
        symbol: String::new(),
        sec_type: String::new(),
        currency: String::new(),
        multiplier: String::new(),
        market_price: 0,
        market_value: 0,
        unrealized_pnl: 0,
        realized_pnl: 0,
    }
}

#[test]
fn lean_position_feed_does_not_clobber_marks() {
    let mut shared = SharedState::new();
    shared.portfolio.set_position_info(lean_info(1, 10 * QTY_SCALE, 100 * PRICE_SCALE));
    shared.portfolio.set_position_marks(
        1,
        110 * PRICE_SCALE,
        1100 * PRICE_SCALE,
        100 * PRICE_SCALE,
        5 * PRICE_SCALE,
    );
    shared.portfolio.set_position_info(lean_info(1, 12 * QTY_SCALE, 101 * PRICE_SCALE));
    let pi = shared.portfolio.infos.get(&1).unwrap();
    assert_eq!(pi.position_fixed / QTY_SCALE, 12);
    assert_eq!(pi.avg_cost, 101 * PRICE_SCALE);
    assert_eq!(pi.market_price, 110 * PRICE_SCALE, "marks survive the lean feed");
    assert_eq!(pi.market_value, 1100 * PRICE_SCALE);
    assert_eq!(pi.unrealized_pnl, 100 * PRICE_SCALE);
}

#[test]
fn tif_round_trips_through_encoder_and_decoder() {
    for tif in ["DAY", "GTC", "OPG", "IOC", "FOK", "GTD", "AUC"] {
        assert_eq!(decode_tif(tif_byte(tif)), tif, "TIF {tif} must survive encode->decode");
    }
    assert_eq!(decode_tif(tif_byte("DTC")), "GTD");
    assert_eq!(decode_tif(b'7'), "");
}

fn errors_of(events: &[LookupEvent]) -> Vec<(u32, i64)> {
    events
        .iter()
        .filter_map(|e| match e {
            LookupEvent::Error(id, code, _) => Some((*id, *code)),
            _ => None,
        })
        .collect()
}

fn ends_of(events: &[LookupEvent]) -> Vec<u32> {
    events
        .iter()
        .filter_map(|e| match e {
            LookupEvent::End(id) => Some(*id),
            _ => None,
        })
        .collect()
}

#[test]
fn sweep_times_out_pending_secdef_with_error_and_end() {
    let mut lookups = Lookups::new();
    lookups.pending_secdef.push((7, true, 1_000));

    lookups.sweep_contract_details(2_000);

    assert!(lookups.pending_secdef.is_empty(), "expired entry must be reclaimed");
    let errors = errors_of(&lookups.events);
    assert_eq!(errors.len(), 1);
    assert_eq!(errors[0].0, 7);
    assert_eq!(errors[0].1, 200);
    assert_eq!(ends_of(&lookups.events), vec![7], "end must fire so a blocked wait unblocks");
}

#[test]
fn sweep_drops_internal_secdef_silently() {
    let mut lookups = Lookups::new();
    lookups.pending_secdef.push((0xF000_0001, true, 1_000));

    lookups.sweep_contract_details(2_000);

    assert!(lookups.pending_secdef.is_empty());
    assert!(errors_of(&lookups.events).is_empty());
    assert!(ends_of(&lookups.events).is_empty());
}

#[test]
fn sweep_times_out_incomplete_fanout() {
    let mut lookups = Lookups::new();
    lookups.pending_fanout.push(PendingFanout {
        api_req_id: 9,
        fanout_req_ids: (0..27).map(|i| format!("ibxfan-9-{i}")).collect(),
        received: 26,
        deadline: 1_000,
    });

    lookups.sweep_contract_details(2_000);

    assert!(lookups.pending_fanout.is_empty());
    let errors = errors_of(&lookups.events);
    assert_eq!(errors.len(), 1);
    assert_eq!(errors[0].0, 9);
    assert_eq!(errors[0].1, 200);
    assert_eq!(ends_of(&lookups.events), vec![9]);
}

fn matching_symbols_msg(req_id: &str, symbols: &[(&str, &str)]) -> Vec<u8> {
    let count = symbols.len().to_string();
    let mut fields: Vec<(u32, &str)> =
        vec![(35, "U"), (6040, "186"), (320, req_id), (146, &count)];
    for (sym, con_id) in symbols {
        fields.push((55, sym));
        fields.push((167, "CS"));
        fields.push((15, "USD"));
        fields.push((6008, con_id));
    }
    message(&fields)
}

fn matching_symbols_ack(req_id: &str) -> Vec<u8> {
    message(&[(35, "U"), (6040, "186"), (320, req_id)])
}

/// The lists of matches that were delivered, as request and length.
fn drain_matching_symbols(b: &mut Bench) -> Vec<(u32, usize)> {
    b.ccp
        .lookups
        .events
        .drain(..)
        .filter_map(|e| match e {
            LookupEvent::Matches(id, rows) => Some((id, rows.len())),
            _ => None,
        })
        .collect()
}

#[test]
fn matching_symbols_matched_by_echoed_req_id_not_fifo() {
    let mut b = Bench::new(Context::new());
    b.ccp.lookups.pending_matching_symbols.push(1);
    b.ccp.lookups.pending_matching_symbols.push(2);

    b.receive(&matching_symbols_msg("2", &[("AAPL", "265598")]));

    let delivered = drain_matching_symbols(&mut b);
    assert_eq!(delivered.len(), 1);
    assert_eq!(
        delivered[0].0, 2,
        "reply must land on the echoed req_id, not the queue head"
    );
    assert_eq!(delivered[0].1, 1);
    assert_eq!(b.ccp.lookups.pending_matching_symbols, vec![1]);
}

#[test]
fn matching_symbols_empty_result_pops_and_delivers() {
    let mut b = Bench::new(Context::new());
    b.ccp.lookups.pending_matching_symbols.push(1);
    b.ccp.lookups.pending_matching_symbols.push(2);

    b.receive(&matching_symbols_msg("1", &[]));

    let delivered = drain_matching_symbols(&mut b);
    assert_eq!(delivered.len(), 1);
    assert_eq!(delivered[0].0, 1);
    assert_eq!(delivered[0].1, 0, "empty result is a legitimate answer");
    assert_eq!(
        b.ccp.lookups.pending_matching_symbols,
        vec![2],
        "queue must not be poisoned by an empty result"
    );

    b.receive(&matching_symbols_msg("2", &[("MSFT", "272093")]));
    let delivered = drain_matching_symbols(&mut b);
    assert_eq!(delivered[0].0, 2);
    assert!(b.ccp.lookups.pending_matching_symbols.is_empty());
}

#[test]
fn matching_symbols_ack_frame_does_not_consume_the_request() {
    let mut b = Bench::new(Context::new());
    b.ccp.lookups.pending_matching_symbols.push(1);

    b.receive(&matching_symbols_ack("1"));
    assert!(drain_matching_symbols(&mut b).is_empty());
    assert_eq!(b.ccp.lookups.pending_matching_symbols, vec![1]);

    b.receive(&matching_symbols_msg("1", &[("AAPL", "265598")]));
    let delivered = drain_matching_symbols(&mut b);
    assert_eq!(delivered.len(), 1);
    assert_eq!(delivered[0].0, 1);
    assert_eq!(delivered[0].1, 1);
    assert!(b.ccp.lookups.pending_matching_symbols.is_empty());
}

#[test]
fn matching_symbols_unattributable_reply_is_dropped_not_misattributed() {
    let mut b = Bench::new(Context::new());
    b.ccp.lookups.pending_matching_symbols.push(1);
    b.ccp.lookups.pending_matching_symbols.push(2);

    b.receive(&matching_symbols_msg("99", &[("AAPL", "265598")]));

    assert!(drain_matching_symbols(&mut b).is_empty());
    assert_eq!(b.ccp.lookups.pending_matching_symbols, vec![1, 2]);
}

#[test]
fn sweep_spares_live_entries() {
    let mut lookups = Lookups::new();
    let now = 5_000;
    let future = now + SECDEF_TIMEOUT;
    lookups.pending_secdef.push((7, true, future));
    lookups.pending_fanout.push(PendingFanout {
        api_req_id: 9,
        fanout_req_ids: vec!["ibxfan-9-0".to_string()],
        received: 0,
        deadline: future,
    });

    lookups.sweep_contract_details(now);

    assert_eq!(lookups.pending_secdef.len(), 1);
    assert_eq!(lookups.pending_fanout.len(), 1);
    assert!(errors_of(&lookups.events).is_empty());
    assert!(ends_of(&lookups.events).is_empty());
}

fn recovery_frame(order_id: u64, con_id: i64) -> HashMap<u32, String> {
    frame(&[
        (11, &format!("{}.0", order_id)),
        (150, "0"),
        (39, "0"),
        (6008, &con_id.to_string()),
        (55, "TEST"),
        (54, "1"),
        (38, "1"),
        (44, "1"),
        (40, "2"),
        (59, "1"),
    ])
}

#[test]
fn recovery_on_a_full_instrument_table_does_not_panic() {
    let mut b = Bench::new(Context::new());
    for i in 0..MAX_INSTRUMENTS as i64 {
        b.context.market.try_register(1_000 + i).unwrap();
    }

    b.report(&recovery_frame(77, 999_999));
    assert!(b.context.order(77).is_none(), "no slot, so the order is not tracked");

    b.report(&recovery_frame(78, 1_005));
    let order = b.context.order(78).expect("tracked on its existing slot");
    assert_eq!(b.context.market.con_id(order.instrument), Some(1_005));
}

fn fill_frame(
    exec_id: &str,
    last_qty: u32,
    last_px: &str,
    cum_qty: u32,
    avg_px: &str,
    leaves: u32,
) -> HashMap<u32, String> {
    let status = if leaves == 0 { "2" } else { "1" };
    frame(&[
        (11, "90.0"),
        (17, exec_id),
        (150, status),
        (39, status),
        (55, "TEST"),
        (54, "1"),
        (38, "300"),
        (40, "2"),
        (44, "15"),
        (32, &last_qty.to_string()),
        (31, last_px),
        (14, &cum_qty.to_string()),
        (6, avg_px),
        (151, &leaves.to_string()),
        (6008, "1005"),
    ])
}

#[test]
fn a_multi_print_fill_carries_the_order_totals() {
    let mut b = Bench::new(Context::new());
    let instrument = b.context.market.try_register(1005).unwrap();
    b.context.insert_order(Order::new(
        90,
        instrument,
        Side::Buy,
        300,
        15 * PRICE_SCALE,
        b'2',
        b'0',
        0,
    ));

    b.report(&fill_frame("e1", 100, "10", 100, "10", 200));
    b.report(&fill_frame("e2", 100, "12", 200, "11", 100));

    let fills = &b.shared.orders.fills;
    assert_eq!(fills.len(), 2);
    let second = fills[1].0;
    assert_eq!(
        (second.qty_fixed / QTY_SCALE, second.price),
        (100, 12 * PRICE_SCALE),
        "the print"
    );
    assert_eq!(
        (second.cum_qty_fixed / QTY_SCALE, second.avg_price),
        (200, 11 * PRICE_SCALE),
        "the order totals"
    );
    let info = b.shared.orders.infos.get(&90).expect("order cached");
    assert_eq!(info.order.filled_quantity.parse::<f64>().unwrap(), 200.0);
}

#[test]
fn a_fractional_fill_is_applied() {
    let q = QTY_SCALE;
    let mut b = Bench::new(Context::new());
    b.report(&frame(&[
        (11, "93.0"),
        (150, "0"),
        (39, "0"),
        (6008, "1005"),
        (55, "TEST"),
        (54, "1"),
        (38, "1.5"),
        (44, "15"),
        (40, "2"),
    ]));
    let order = b.context.order(93).expect("listed order tracked");
    assert_eq!(order.qty_fixed, 3 * q / 2, "1.5 shares kept");

    b.report(&frame(&[
        (11, "93.0"),
        (17, "e93"),
        (150, "1"),
        (39, "1"),
        (55, "TEST"),
        (54, "1"),
        (38, "1.5"),
        (40, "2"),
        (44, "15"),
        (32, "0.5"),
        (31, "15"),
        (14, "0.5"),
        (6, "15"),
        (151, "1"),
        (6008, "1005"),
    ]));

    let fills = &b.shared.orders.fills;
    assert_eq!(fills.len(), 1, "the fill is not dropped");
    assert_eq!(
        (fills[0].0.qty_fixed, fills[0].0.cum_qty_fixed, fills[0].0.remaining_fixed),
        (q / 2, q / 2, q)
    );
    assert_eq!(b.context.order(93).unwrap().filled_fixed, q / 2);
    assert_eq!(
        b.context.position_fixed(order.instrument),
        q / 2,
        "position moved by half a share"
    );
    assert_eq!(b.shared.portfolio.position_fixed(order.instrument), q / 2);
}

#[test]
fn a_fractional_position_is_kept() {
    let q = QTY_SCALE;
    let mut b = Bench::new(Context::new());
    let msg =
        "8=FIX.4.1|35=UP|6068=TEST|6008=1005|6064=2.5|6101=10|6065=11|15=USD|167=STK|10=000|"
            .replace('|', "\x01");
    b.receive(msg.as_bytes());
    assert_eq!(b.shared.portfolio.infos[&1005].position_fixed, 5 * q / 2);

    let feed = "8=FIX.4.1|35=U|6040=75|146=1|6008=1006|6064=0.25|6101=10|10=000|"
        .replace('|', "\x01");
    b.receive(feed.as_bytes());
    assert_eq!(b.shared.portfolio.infos[&1006].position_fixed, q / 4);
}

#[test]
fn a_server_reject_is_reported_as_error_201_with_the_reason() {
    let mut b = Bench::new(Context::new());
    let instrument = b.context.market.try_register(1005).unwrap();
    b.context.insert_order(Order::new(
        91,
        instrument,
        Side::Buy,
        1000,
        15 * PRICE_SCALE,
        b'2',
        b'0',
        0,
    ));
    let reject = |order: &str, status: &str| -> HashMap<u32, String> {
        let mut m = frame(&[
            (11, &format!("{}.0", order)),
            (150, status),
            (39, status),
            (55, "TEST"),
            (38, "1000"),
            (151, "1000"),
        ]);
        if status == "8" {
            m.insert(58, "Display size should be a multiple of lot size".into());
        }
        m
    };

    b.report(&reject("91", "A"));
    assert!(b.shared.orders.errors.is_empty(), "no error on the acknowledgement");
    b.report(&reject("91", "8"));
    assert_eq!(
        b.shared.orders.errors,
        vec![(
            91,
            201,
            "Order rejected - reason:Display size should be a multiple of lot size".to_string()
        )]
    );
    b.shared.orders.errors.clear();

    b.report(&reject("91", "8"));
    b.report(&reject("92", "8"));
    assert!(b.shared.orders.errors.is_empty());
}

#[test]
fn recovered_order_is_inside_the_global_cancel_range() {
    let mut b = Bench::new(Context::new());
    b.context.market.try_register(265598).unwrap();
    b.shared.instrument_count = b.context.market.count();

    b.report(&recovery_frame(79, 756733));

    let order = b.context.order(79).expect("recovered order tracked");
    let count = b.shared.instrument_count;
    assert!(order.instrument < count, "instrument {} outside 0..{}", order.instrument, count);
    for instrument in 0..count {
        b.context.cancel_all(instrument);
    }
    assert!(b.context.drain_pending_orders().iter().any(|r| matches!(r,
        OrderRequest::CancelAll { instrument } if *instrument == order.instrument)));
}

// ---------------------------------------------------------------------------------------

fn definition(con_id: i64, exchanges: &[&str], join_key: &str) -> ContractDefinition {
    ContractDefinition {
        con_id,
        symbol: "AAPL".to_string(),
        sec_type: "STK".to_string(),
        exchange: "SMART".to_string(),
        currency: "USD".to_string(),
        local_symbol: "AAPL".to_string(),
        primary_exchange: "NASDAQ".to_string(),
        trading_class: "NMS".to_string(),
        valid_exchanges: exchanges.iter().map(|e| e.to_string()).collect(),
        join_key: join_key.to_string(),
        trading_hours: None,
        liquid_hours: None,
        time_zone_id: None,
    }
}

fn definition_msg(id: &str) -> Vec<u8> {
    message(&[(35, "d"), (320, id)])
}

fn with_definition(msg: &[u8], def: ContractDefinition) -> Decoded {
    Decoded { definition: Some(def), ..decoded(msg) }
}

fn names(events: &[LookupEvent]) -> Vec<String> {
    events
        .iter()
        .map(|e| match e {
            LookupEvent::Error(id, code, _) => format!("error {id} {code}"),
            LookupEvent::Details(id, _) => format!("details {id}"),
            LookupEvent::End(id) => format!("end {id}"),
            LookupEvent::Matches(id, _) => format!("matches {id}"),
            LookupEvent::Scanner(id, _) => format!("scanner {id}"),
        })
        .collect()
}

#[test]
fn a_request_by_contract_ends_with_its_answer() {
    let mut b = Bench::new(Context::new());
    b.ccp.lookups.send_secdef_request(7, 265598, true, "t", 0);
    assert_eq!(b.ccp.lookups.outbox.len(), 1);
    let msg = definition_msg("7");
    b.receive_decoded(&msg, with_definition(&msg, definition(265598, &[], "")));
    assert_eq!(names(&b.ccp.lookups.events), ["details 7", "end 7"]);
    assert!(b.ccp.lookups.pending_secdef.is_empty());
    assert!(b.shared.contracts.knows(265598));
}

#[test]
fn a_lookup_by_symbol_asks_each_exchange_and_ends_with_the_last_answer() {
    let mut b = Bench::new(Context::new());
    let filters = SecDefFilters {
        local_symbol: String::new(),
        trading_class: String::new(),
        last_trade_date_or_contract_month: String::new(),
        right: "call".to_string(),
        strike: String::new(),
        multiplier: String::new(),
        primary_exchange: String::new(),
        sec_id_type: String::new(),
        sec_id: String::new(),
    };
    b.ccp.lookups.send_secdef_request_by_symbol(
        7, "AAPL", "STK", "SMART", "USD", &filters, true, "t", 0,
    );
    let request = &b.ccp.lookups.outbox[0].items;
    assert!(request.contains(&(201, "1".to_string())), "the right is read in lower case");
    assert!(request.contains(&(167, "CS".to_string())));
    assert!(request.contains(&(100, "BEST".to_string())));
    b.ccp.lookups.outbox.clear();

    let msg = definition_msg("7");
    b.receive_decoded(
        &msg,
        with_definition(&msg, definition(265598, &["SMART", "ARCA", "", "NYSE"], "")),
    );
    assert_eq!(names(&b.ccp.lookups.events), ["details 7"]);
    assert_eq!(b.ccp.lookups.outbox.len(), 2);
    assert_eq!(
        b.ccp.lookups.pending_fanout[0].fanout_req_ids,
        vec!["ibxfan-7-1", "ibxfan-7-2"]
    );

    let msg = definition_msg("ibxfan-7-2");
    b.receive_decoded(&msg, with_definition(&msg, definition(265598, &[], "")));
    assert_eq!(names(&b.ccp.lookups.events), ["details 7", "details 7"]);
    let msg = definition_msg("ibxfan-7-1");
    b.receive_decoded(&msg, with_definition(&msg, definition(265598, &[], "")));
    assert_eq!(
        names(&b.ccp.lookups.events),
        ["details 7", "details 7", "details 7", "end 7"]
    );
    assert!(b.ccp.lookups.pending_fanout.is_empty());
}

#[test]
fn the_end_waits_for_the_trading_hours() {
    let mut b = Bench::new(Context::new());
    b.ccp.lookups.pending_secdef.push((7, false, 100_000));
    let msg = definition_msg("7");
    b.receive_decoded(&msg, with_definition(&msg, definition(265598, &["SMART"], "key-1")));
    assert!(b.ccp.lookups.events.is_empty());
    assert_eq!(b.ccp.lookups.outbox.len(), 1);

    let reply = message(&[(35, "U"), (6040, "107"), (6256, "key-1")]);
    let d = Decoded {
        schedule: Some(Schedule {
            timezone: "US/Eastern".to_string(),
            trading_hours: "0930-1600".to_string(),
            liquid_hours: "0930-1600".to_string(),
        }),
        ..decoded(&reply)
    };
    b.receive_decoded(&reply, d);
    assert_eq!(names(&b.ccp.lookups.events), ["details 7", "end 7"]);
    match &b.ccp.lookups.events[0] {
        LookupEvent::Details(_, def) => {
            assert_eq!(def.time_zone_id.as_deref(), Some("US/Eastern"));
            assert_eq!(def.trading_hours.as_deref(), Some("0930-1600"));
        }
        _ => panic!("expected a definition"),
    }
}

#[test]
fn market_rules_are_kept() {
    let rule = |rule_id: i32| MarketRule {
        rule_id,
        steps: vec![PriceStep { low_edge: 0, increment: PRICE_SCALE / 100 }],
    };
    let mut b = Bench::new(Context::new());
    let msg = definition_msg("7");
    b.receive_decoded(&msg, Decoded { rules: vec![rule(26), rule(240)], ..decoded(&msg) });
    b.receive_decoded(&msg, Decoded { rules: vec![rule(635)], ..decoded(&msg) });
    let other = message(&[(35, "U"), (6040, "107")]);
    b.receive_decoded(&other, Decoded { rules: vec![rule(1)], ..decoded(&other) });
    let ids: Vec<i32> = b.shared.market_rules.iter().map(|r| r.rule_id).collect();
    assert_eq!(ids, vec![26, 240, 635]);
    assert_eq!(b.shared.market_rules[0].steps[0].increment, PRICE_SCALE / 100);
}

#[test]
fn trading_hours_that_do_not_come_are_given_up() {
    let mut b = Bench::new(Context::new());
    b.ccp.lookups.pending_secdef.push((7, true, 100_000));
    let msg = definition_msg("7");
    b.receive_decoded(&msg, with_definition(&msg, definition(265598, &[], "key-1")));
    b.ccp.lookups.sweep_pending_schedule_pairs(3_999);
    assert!(b.ccp.lookups.events.is_empty());
    b.ccp.lookups.sweep_pending_schedule_pairs(4_000);
    assert_eq!(names(&b.ccp.lookups.events), ["details 7", "end 7"]);
}

#[test]
fn answers_to_internal_requests_are_told_to_nobody() {
    let mut b = Bench::new(Context::new());
    let feed = message(&[(35, "U"), (6040, "75"), (6008, "265598"), (6064, "1"), (6101, "10")]);
    b.receive(&feed);
    assert!(b.shared.portfolio.download_complete);
    let (id, single, _) = b.ccp.lookups.pending_secdef[0];
    assert_eq!(id, 0xF000_0000);
    assert!(single);
    let msg = definition_msg(&id.to_string());
    b.receive_decoded(&msg, with_definition(&msg, definition(265598, &["ARCA"], "key")));
    assert!(b.ccp.lookups.events.is_empty());
    assert!(b.ccp.lookups.pending_secdef.is_empty());
    assert!(b.shared.contracts.knows(265598));
}

#[test]
fn a_scanner_result_waits_for_its_contracts() {
    let mut b = Bench::new(Context::new());
    let result = ScannerResult {
        entries: vec![
            ScannerEntry { con_id: 1 },
            ScannerEntry { con_id: 2 },
            ScannerEntry { con_id: 1 },
        ],
    };
    b.ccp.lookups.start_scanner_enrichment(30, result, &b.shared.contracts, true, "t", 0);
    assert_eq!(b.ccp.lookups.outbox.len(), 2);
    b.ccp.lookups.try_release_scanner_enrichments(1);
    assert!(b.ccp.lookups.events.is_empty());
    b.ccp.lookups.try_release_scanner_enrichments(2);
    assert_eq!(names(&b.ccp.lookups.events), ["scanner 30"]);

    let late = ScannerResult { entries: vec![ScannerEntry { con_id: 3 }] };
    b.ccp.lookups.start_scanner_enrichment(31, late, &b.shared.contracts, true, "t", 0);
    b.ccp.lookups.sweep_scanner_enrichments(4_999);
    assert_eq!(b.ccp.lookups.events.len(), 1);
    b.ccp.lookups.sweep_scanner_enrichments(5_000);
    assert_eq!(names(&b.ccp.lookups.events), ["scanner 30", "scanner 31"]);
}

#[test]
fn a_pattern_is_sent_and_awaited() {
    let mut lookups = Lookups::new();
    lookups.send_matching_symbols_request(5, "AA", true, "t");
    lookups.send_matching_symbols_request(6, "BB", false, "t");
    assert_eq!(lookups.pending_matching_symbols, vec![5, 6]);
    assert_eq!(lookups.outbox.len(), 1);
    assert!(lookups.outbox[0].items.contains(&(58, "AA".to_string())));
}

#[test]
fn identifiers_are_looked_up_in_the_place_of_symbols() {
    let mut lookups = Lookups::new();
    let filters = SecDefFilters {
        local_symbol: "L".to_string(),
        trading_class: "T".to_string(),
        last_trade_date_or_contract_month: String::new(),
        right: String::new(),
        strike: String::new(),
        multiplier: String::new(),
        primary_exchange: "NYSE".to_string(),
        sec_id_type: "isin".to_string(),
        sec_id: "US0378331005".to_string(),
    };
    lookups.send_secdef_request_by_symbol(
        7, "AAPL", "STK", "ARCA", "USD", &filters, true, "t", 0,
    );
    let tags: Vec<u32> = lookups.outbox[0].items.iter().map(|(t, _)| *t).collect();
    assert_eq!(tags, vec![35, 52, 320, 321, 22, 48, 100, 15, 6088]);
    assert_eq!(lookups.outbox[0].items[4].1, "4");
    assert_eq!(lookups.pending_secdef, vec![(7, false, SECDEF_TIMEOUT)]);
}

#[test]
fn a_rejection_is_taken_as_the_answer_to_the_only_lookup() {
    let mut b = Bench::new(Context::new());
    b.ccp.lookups.pending_secdef.push((7, true, 100_000));
    b.receive(&message(&[(35, "3"), (58, "bad field")]));
    match &b.ccp.lookups.events[0] {
        LookupEvent::Error(7, 200, text) => {
            assert_eq!(text, "contract details request rejected: bad field")
        }
        _ => panic!("expected an error"),
    }
    assert_eq!(ends_of(&b.ccp.lookups.events), vec![7]);

    b.ccp.lookups.pending_secdef.push((8, true, 100_000));
    b.ccp.lookups.pending_secdef.push((9, true, 100_000));
    b.receive(&message(&[(35, "3")]));
    assert_eq!(b.ccp.lookups.pending_secdef.len(), 2);
}

#[test]
fn a_test_request_is_answered() {
    let mut b = Bench::new(Context::new());
    b.receive(&message(&[(35, "1"), (112, "T9")]));
    assert_eq!(
        b.ccp.lookups.outbox[0].items,
        vec![
            (35, "0".to_string()),
            (52, "20260101-00:00:00".to_string()),
            (112, "T9".to_string())
        ]
    );
}

#[test]
fn bulletins_are_numbered_and_typed() {
    let mut b = Bench::new(Context::new());
    b.receive(&message(&[(35, "B"), (61, "8"), (148, "halt"), (207, "NYSE")]));
    b.receive(&message(&[(35, "B"), (61, "7"), (148, "dropped")]));
    b.receive(&message(&[(35, "B"), (61, "2"), (148, "open")]));
    let told: Vec<(i32, i32, &str)> =
        b.shared.bulletins.iter().map(|n| (n.msg_id, n.msg_type, n.message.as_str())).collect();
    assert_eq!(told, vec![(1, 1, "halt"), (2, 2, "open")]);
}

#[test]
fn a_refused_cancel_of_an_unknown_order_forgets_it() {
    let mut b = ord_status_test_state();
    b.report(&exec_report_frame(&[(39, "0"), (150, "0"), (100, "ARCA")]));
    assert!(b.shared.orders.infos.contains_key(&42));
    b.receive(&message(&[(35, "9"), (41, "C42.0"), (102, "1")]));
    assert!(!b.shared.orders.infos.contains_key(&42));
    assert_eq!(b.shared.orders.cancel_rejects.len(), 1);
    assert_eq!(b.shared.orders.cancel_rejects[0].reason_code, 1);
    assert_eq!(b.shared.orders.cancel_rejects[0].reject_type, 1);
}

#[test]
fn account_messages_reach_the_portfolio() {
    let mut b = Bench::new(Context::new());
    b.receive(&message(&[(35, "U"), (6040, "77"), (9806, "1000.5")]));
    assert_eq!(b.shared.portfolio.account.net_liquidation, 100_050_000_000);
    assert!(b.shared.portfolio.download_complete);
    b.receive(&message(&[
        (35, "UT"),
        (8001, "BuyingPower"),
        (8004, "2000"),
        (8001, "DayTradesRemaining"),
        (8004, "3"),
    ]));
    assert_eq!(b.context.account.buying_power, 2000 * PRICE_SCALE);
    assert_eq!(b.context.account.day_trades_remaining, 3);
    b.receive(&message(&[
        (35, "U"),
        (6040, "143"),
        (6008, "5"),
        (6064, "2"),
        (6822, "-10.5"),
        (6099, "1"),
        (6008, "6"),
    ]));
    assert_eq!(b.shared.portfolio.seeds.len(), 2);
    assert_eq!(b.shared.portfolio.seeds[0].qty_midnight_fixed, 2 * QTY_SCALE);
    assert_eq!(b.shared.portfolio.seeds[0].money_traded, "-10.5");
    assert_eq!(b.shared.portfolio.seeds[1].con_id, 6);
}

#[test]
fn messages_that_are_not_text_change_nothing() {
    let mut b = Bench::new(Context::new());
    b.receive(b"35=UT\x018001=SMA\x018004=2\x01\xff\x01");
    assert_eq!(b.context.account.sma, 0);
    b.receive(b"35=U\x016040=143\x016008=5\x01\xff\x01");
    assert!(b.shared.portfolio.seeds.is_empty());
}

#[test]
fn a_held_contract_is_asked_for_once() {
    let mut b = Bench::new(Context::new());
    let feed = message(&[(35, "U"), (6040, "75"), (6008, "5"), (6064, "1"), (6101, "10")]);
    b.receive(&feed);
    b.receive(&feed);
    assert_eq!(b.ccp.lookups.pending_secdef.len(), 1);
    assert_eq!(b.ccp.lookups.outbox.len(), 1);
}

#[test]
fn an_exchange_list_is_read() {
    let mut b = Bench::new(Context::new());
    b.receive(&message(&[
        (35, "U"),
        (6040, "102"),
        (8128, "4"),
        (100, "ARCA"),
        (6813, "Archipelago"),
        (8129, "2"),
        (100, "CME"),
        (6813, "Chicago"),
    ]));
    let told: Vec<(&str, &str, &str, i32)> = b
        .shared
        .depth_exchanges
        .iter()
        .map(|d| {
            (d.exchange.as_str(), d.sec_type.as_str(), d.listing_exch.as_str(), d.agg_group)
        })
        .collect();
    assert_eq!(
        told,
        vec![("ARCA", "STK", "Archipelago", 4), ("CME", "FUT", "Chicago", 2)]
    );
}

#[test]
fn a_replayed_fill_counts_once() {
    let mut b = ord_status_test_state();
    let fill = exec_report_frame(&[
        (39, "1"),
        (150, "1"),
        (17, "e1"),
        (31, "100"),
        (32, "0.5"),
        (14, "0.5"),
        (151, "0.5"),
    ]);
    b.report(&fill);
    b.report(&fill);
    assert_eq!(b.shared.orders.fills.len(), 1);
    assert_eq!(b.context.position_fixed(0), QTY_SCALE / 2);
}

#[test]
fn perm_ids_do_not_change_with_the_revision() {
    let a = perm_id_from_fix_order_id("00cf16ed.000225ed.69ca0941.0001");
    let b = perm_id_from_fix_order_id("00cf16ed.000225ed.69ca0941.0002");
    assert_eq!(a, b);
    assert!(a >= 0);
    assert_ne!(a, perm_id_from_fix_order_id("00cf16ed.000225ed.69ca0942.0001"));
}

#[test]
fn single_values_are_taken_from_a_message() {
    let msg = message(&[(35, "U"), (6256, "k\u{e9}y"), (6256, "other")]);
    assert_eq!(extract_tag_value(&msg, "6256=").as_deref(), Some("k\u{e9}y"));
    assert_eq!(extract_tag_value(&msg, "999="), None);
    assert_eq!(extract_tag_value(b"6256=\xff\x01", "6256=").as_deref(), Some("\u{fffd}"));
}

#[test]
fn requests_of_the_order_connection() {
    let pnl = send_pnl_subscribe("t", 5, "DU1");
    assert_eq!(pnl.items[3], (6529, "PLR.5|1=DU1|".to_string()));
    let again = reconnect_requests("t", "DU1");
    assert_eq!(again.len(), 2);
    assert_eq!(again[0].items[2], (6040, "91".to_string()));
    assert_eq!(again[1].items[2], (6040, "6".to_string()));

    let mut subs = Vec::new();
    let news = send_news_subscribe(&mut subs, "t", 265598, 0, "BRFG", 77);
    assert!(news.items.contains(&(6008, "265598".to_string())));
    assert!(news.items.contains(&(262, "77".to_string())));
    let negative = send_news_subscribe(&mut subs, "t", -1, 1, "BRFG", 78);
    assert!(negative.items.contains(&(6008, "4294967295".to_string())));
    assert!(send_news_unsubscribe(&mut subs, 5).is_none());
    let end = send_news_unsubscribe(&mut subs, 0).unwrap();
    assert_eq!(end.items[1], (262, "77".to_string()));
    assert_eq!(subs, vec![(1, 78)]);
}

#[test]
fn reports_are_kept_apart() {
    let reports = OrderReports::new();
    assert!(reports.errors.is_empty());
    let m = fix_parse(&message(&[(35, "8"), (11, "1")]));
    assert_eq!(m[&35], "8");
}
