use ibx::bridge::Number;
use ibx::engine::context::Context;
use ibx::engine::hot_loop::numbers::NumberTable;
use ibx::engine::hot_loop::plain_orders::send_plain;
use ibx::engine::hot_loop::plain_reports::{PlainReports, StrategyEvent};
use ibx::engine::order::{
    AdaptivePriority, AlgoParams, Order, OrderAttrs, OrderCondition, OrderKind, OrderRequest,
    OrderStatus, Side,
};
use ibx::protocol::fix::{fix_build, Fields};
use ibx::types::{PRICE_SCALE, QTY_SCALE};

const P: i64 = PRICE_SCALE;

fn message(pairs: &[(u32, &str)], seq: u32) -> Vec<u8> {
    let mut fields = Fields::new();
    for (tag, value) in pairs {
        fields.put_str(*tag, value);
    }
    fix_build(&fields, seq)
}

fn table(msg: &[u8]) -> NumberTable {
    let mut entries = Vec::new();
    for piece in msg.split(|&b| b == 1) {
        let text = String::from_utf8_lossy(piece).into_owned();
        if let Some((_, value)) = text.split_once('=') {
            if let Ok(v) = value.parse::<f64>() {
                let scaled = v * PRICE_SCALE as f64;
                entries.push((
                    value.to_string(),
                    Number {
                        scaled: scaled as i64,
                        rounded: scaled.round() as i64,
                        whole: v as i64,
                        finite: v.is_finite(),
                        zero: v == 0.0,
                    },
                ));
            }
        }
    }
    NumberTable { entries }
}

/// What a strategy was told, and what it knows.
struct Engine {
    reports: PlainReports,
    context: Context,
}

impl Engine {
    fn new() -> Self {
        let mut context = Context::new();
        context.market.register(265598);
        Engine { reports: PlainReports::new(), context }
    }

    fn process_message(&mut self, msg: &[u8]) -> Option<Fields> {
        self.reports.process_message(msg, &table(msg), &mut self.context, "t")
    }

    fn fills(&self) -> Vec<(u64, i64)> {
        self.reports
            .events
            .iter()
            .filter_map(|e| match e {
                StrategyEvent::Fill(f) => Some((f.order_id, f.qty_fixed / QTY_SCALE)),
                _ => None,
            })
            .collect()
    }
}

fn order(id: u64, status: OrderStatus) -> Order {
    Order {
        order_id: id,
        instrument: 0,
        side: Side::Buy,
        price: 150 * P,
        qty_fixed: 100 * QTY_SCALE,
        filled_fixed: 0,
        status,
        ord_type: b'2',
        tif: b'0',
        stop_price: 0,
    }
}

#[test]
fn a_plain_fill_is_told_once() {
    let mut engine = Engine::new();
    engine.context.insert_order(order(70, OrderStatus::Submitted));
    let msg = message(
        &[
            (35, "8"),
            (11, "70"),
            (17, "E1"),
            (39, "1"),
            (150, "1"),
            (31, "150.0"),
            (32, "30"),
            (151, "70"),
        ],
        1,
    );
    engine.process_message(&msg);
    engine.process_message(&msg);
    assert_eq!(engine.fills(), vec![(70, 30)]);
    assert_eq!(engine.context.position(0), 30);
    assert_eq!(engine.context.order(70).unwrap().filled_fixed, 30 * QTY_SCALE);
    match engine.reports.events[0] {
        StrategyEvent::Fill(f) => assert_eq!(f.price, 150 * P),
        _ => panic!("expected a fill"),
    }
}

#[test]
fn a_plain_refusal_is_told_for_tracked_orders() {
    let mut engine = Engine::new();
    engine.context.insert_order(order(72, OrderStatus::PendingCancel));
    engine.process_message(&message(&[(35, "9"), (41, "72"), (434, "2"), (102, "3")], 1));
    engine.process_message(&message(&[(35, "9"), (41, "73")], 2));
    assert_eq!(engine.reports.events.len(), 1);
    assert_eq!(engine.context.order(72).unwrap().status, OrderStatus::Submitted);
}

#[test]
fn other_plain_messages() {
    let mut engine = Engine::new();
    let reply = engine.process_message(&message(&[(35, "1"), (112, "T3")], 1)).unwrap();
    assert_eq!(reply.items[2], (112, "T3".to_string()));
    engine.process_message(&message(&[(35, "U"), (6040, "77"), (9806, "5")], 1));
    assert_eq!(engine.context.account.net_liquidation, 5 * P);
    engine.process_message(&message(&[(35, "UT"), (8001, "SMA"), (8004, "2")], 1));
    assert_eq!(engine.context.account.sma, 0);
    engine.process_message(&message(&[(35, "RL"), (8001, "MaintMarginReq"), (8004, "3")], 1));
    assert_eq!(engine.context.account.margin_used, 3 * P);
    engine.process_message(b"8=O\x0135=UP\x016008=265598\x016064=7\x01");
    assert_eq!(engine.context.position(0), 7);
    assert!(engine.process_message(b"junk").is_none());
}

fn wire(req: OrderRequest) -> Vec<(u32, String)> {
    let mut context = Context::new();
    context.market.register(265598);
    context.set_symbol(0, "AAPL".to_string());
    let messages = send_plain(&mut context, "DU1", "now", &req);
    messages.into_iter().flat_map(|f| f.items).collect()
}

fn text(tags: &[(u32, String)]) -> String {
    tags.iter().map(|(t, v)| format!("{t}={v}|")).collect()
}

#[test]
fn a_plain_limit_order_is_exact() {
    let tags = wire(OrderRequest::SubmitLimit {
        order_id: 1,
        instrument: 0,
        side: Side::Buy,
        qty: 10,
        price: 15025 * (P / 100),
    });
    assert_eq!(
        text(&tags),
        "35=D|52=now|11=1|1=DU1|21=2|55=AAPL|54=1|38=10|40=2|44=150.25|59=0|60=now|167=STK|100=SMART|15=USD|204=0|"
    );
}

#[test]
fn plain_order_types() {
    let id = 1;
    let i = 0;
    let side = Side::Sell;
    let qty = 1;
    let cases: Vec<(OrderRequest, &str)> = vec![
        (
            OrderRequest::SubmitMarket { order_id: id, instrument: i, side, qty },
            "40=1|59=0|",
        ),
        (
            OrderRequest::SubmitStop { order_id: id, instrument: i, side, qty, stop_price: P },
            "40=3|99=1|59=0|",
        ),
        (
            OrderRequest::SubmitStopLimit {
                order_id: id,
                instrument: i,
                side,
                qty,
                price: P,
                stop_price: 2 * P,
            },
            "40=4|44=1|99=2|59=0|",
        ),
        (
            OrderRequest::SubmitTrailingStopPct {
                order_id: id,
                instrument: i,
                side,
                qty,
                trail_pct: 100,
                trail_stop_price: 0,
            },
            "40=P|6268=100|59=0|",
        ),
        (
            OrderRequest::SubmitLimitFok { order_id: id, instrument: i, side, qty, price: P },
            "40=2|44=1|59=4|",
        ),
        (
            OrderRequest::SubmitMidPrice {
                order_id: id,
                instrument: i,
                side,
                qty,
                price_cap: P,
            },
            "40=MIDPX|59=0|60=now|167=STK|100=ISLAND|15=USD|204=0|44=1|",
        ),
        (
            OrderRequest::SubmitPegMid { order_id: id, instrument: i, side, qty, offset: 0 },
            "204=0|8403=0.0|8404=0.0|",
        ),
        (
            OrderRequest::SubmitLimitGtc {
                order_id: id,
                instrument: i,
                side,
                qty,
                price: P,
                outside_rth: true,
            },
            "59=1|60=now|167=STK|100=SMART|15=USD|204=0|6433=1|",
        ),
        (
            OrderRequest::SubmitAdaptive {
                order_id: id,
                instrument: i,
                side,
                qty,
                price: P,
                priority: AdaptivePriority::Urgent,
                tif: b'0',
                attrs: OrderAttrs::default(),
            },
            "847=Adaptive|5957=1|5958=adaptivePriority|5960=Urgent|",
        ),
        (
            OrderRequest::SubmitAlgo {
                order_id: id,
                instrument: i,
                side,
                qty,
                price: P,
                algo: AlgoParams::Vwap {
                    max_pct_vol: "0.1".to_string(),
                    no_take_liq: false,
                    allow_past_end_time: true,
                    start_time: "s".to_string(),
                    end_time: "e".to_string(),
                },
                tif: b'0',
                attrs: OrderAttrs::default(),
            },
            "847=Vwap|849=0.1|5957=4|5958=noTakeLiq|5960=0|",
        ),
    ];
    for (req, want) in cases {
        let got = text(&wire(req));
        assert!(got.contains(want), "{got} lacks {want}");
    }
}

#[test]
fn plain_attributes_and_conditions() {
    let tags = wire(OrderRequest::SubmitLimitEx {
        order_id: 1,
        instrument: 0,
        side: Side::Buy,
        qty: 1,
        price: P,
        tif: b'6',
        attrs: OrderAttrs {
            display_size: 5,
            hidden: true,
            good_till: 1_790_798_400,
            oca_group: 9,
            all_or_none: true,
            conditions: vec![OrderCondition::Time { time: "T".into(), is_more: true }],
            conditions_cancel_order: true,
            ..Default::default()
        },
    });
    let got = text(&tags);
    assert!(got.ends_with(
        "204=0|111=5|6135=1|126=20260930 20:00:00|583=OCA_9|6209=CancelOnFillWBlock|18=G|6136=1|6128=1|6222=3|6137=n|6126=>=|6123=|6124=|6127=|6125=|6223=T|6245=|6263=|6246=|"
    ), "{got}");
}

#[test]
fn plain_price_conditions_keep_their_exchange() {
    let tags = wire(OrderRequest::SubmitLimitEx {
        order_id: 1,
        instrument: 0,
        side: Side::Buy,
        qty: 1,
        price: P,
        tif: b'0',
        attrs: OrderAttrs {
            conditions: vec![OrderCondition::Price {
                con_id: 265598,
                exchange: "SMART".into(),
                price: -P / 2,
                is_more: false,
                trigger_method: 2,
            }],
            ..Default::default()
        },
    });
    let got = text(&tags);
    assert!(got.ends_with(
        "6136=1|6222=1|6137=n|6126=<=|6123=265598|6124=SMART|6127=2|6125=-0.5|6223=|6245=|6263=|6246=|"
    ), "{got}");
}

#[test]
fn a_plain_bracket_links_its_exits() {
    let mut context = Context::new();
    context.market.register(1);
    let req = OrderRequest::SubmitBracket {
        parent_id: 3,
        tp_id: 4,
        sl_id: 5,
        instrument: 0,
        side: Side::Buy,
        qty: 1,
        entry_price: 100 * P,
        take_profit: 110 * P,
        stop_loss: 90 * P,
    };
    let messages = send_plain(&mut context, "DU1", "now", &req);
    assert_eq!(messages.len(), 3);
    let exit = text(&messages[2].items);
    assert!(exit.contains("54=2|38=1|40=3|99=90|59=1|"));
    assert!(exit.ends_with("6107=3|583=OCA_3|6209=CancelOnFillWBlock|"));
    for id in [3, 4, 5] {
        assert!(context.order(id).is_some());
    }
}

#[test]
fn plain_cancels_and_replaces() {
    let mut context = Context::new();
    context.market.register(1);
    context.set_symbol(0, "AAPL".to_string());
    context.insert_order(Order { stop_price: 2 * P, ..order(7, OrderStatus::Submitted) });
    let cancel = send_plain(&mut context, "DU1", "now", &OrderRequest::Cancel { order_id: 7 });
    assert_eq!(text(&cancel[0].items), "35=F|52=now|11=C7|41=7|60=now|");
    let all =
        send_plain(&mut context, "DU1", "now", &OrderRequest::CancelAll { instrument: 0 });
    assert_eq!(all.len(), 1);
    let replace = send_plain(
        &mut context,
        "DU1",
        "now",
        &OrderRequest::Modify {
            new_order_id: 8,
            order_id: 7,
            qty: 3,
            kind: OrderKind::Limit { price: 5 * P },
            tif: b'0',
            attrs: OrderAttrs::default(),
        },
    );
    assert_eq!(
        text(&replace[0].items),
        "35=G|52=now|11=8|41=7|1=DU1|21=2|55=AAPL|54=1|38=3|40=2|44=5|59=0|60=now|167=STK|100=SMART|15=USD|204=0|99=2|"
    );
    assert_eq!(context.order(8).unwrap().qty_fixed, 3 * QTY_SCALE);
}
