use ibx::bridge::OrderReports;
use ibx::engine::context::Context;
use ibx::engine::hot_loop::order_builder::{
    cancel_refusal, drain_and_send_orders, send_failed, synthesize_pending_cancel, take_up,
    OrderStep,
};
use ibx::engine::order::{
    AdaptivePriority, AdjustedOrderType, AlgoParams, Order, OrderAttrs, OrderCondition,
    OrderKind, OrderRequest, OrderStatus, Side,
};
use ibx::protocol::fix::{fix_build, Fields, SOH};
use ibx::types::{PRICE_SCALE, QTY_SCALE};

const P: i64 = PRICE_SCALE;

fn order(oid: u64, filled: u32, status: OrderStatus) -> Order {
    Order {
        order_id: oid,
        instrument: 0,
        side: Side::Buy,
        price: 100,
        qty_fixed: 10 * QTY_SCALE,
        filled_fixed: filled as i64 * QTY_SCALE,
        status,
        ord_type: b'2',
        tif: b'0',
        stop_price: 0,
    }
}

fn messages_of(step: OrderStep) -> Vec<Fields> {
    match step {
        OrderStep::Refused { .. } => Vec::new(),
        OrderStep::Place { messages } => messages,
        OrderStep::Cancel { messages } => messages.into_iter().map(|(_, f)| f).collect(),
        OrderStep::Replace { message } => vec![message],
    }
}

fn parsed(bytes: &[u8]) -> Vec<(u32, String)> {
    bytes
        .split(|&b| b == SOH)
        .filter_map(|f| {
            let s = std::str::from_utf8(f).ok()?;
            let (t, v) = s.split_once('=')?;
            Some((t.parse().ok()?, v.to_string()))
        })
        .collect()
}

/// The fields that a request puts on the wire, in order.
fn wire_tags(req: OrderRequest) -> Vec<(u32, String)> {
    wire_tags_with(|_| {}, req)
}

fn wire_tags_with(setup: impl FnOnce(&mut Context), req: OrderRequest) -> Vec<(u32, String)> {
    let mut context = Context::new();
    context.market.register(265598);
    setup(&mut context);
    context.pending_orders.push(req);
    let mut bytes = Vec::new();
    let mut seq = 1;
    for req in drain_and_send_orders(&mut context, false, true) {
        let step = take_up(&mut context, "DU1", "20260101-00:00:00", req);
        for message in messages_of(step) {
            bytes.extend(fix_build(&message, seq));
            seq += 1;
        }
    }
    parsed(&bytes)
}

fn tag<'a>(tags: &'a [(u32, String)], t: u32) -> Option<&'a str> {
    tags.iter().find(|(k, _)| *k == t).map(|(_, v)| v.as_str())
}

fn pos(tags: &[(u32, String)], t: u32) -> usize {
    tags.iter()
        .position(|(k, _)| *k == t)
        .unwrap_or_else(|| panic!("tag {} missing", t))
}

#[test]
fn synthesize_pending_cancel_updates_and_notifies() {
    let mut context = Context::new();
    let mut shared = OrderReports::new();
    context.insert_order(order(7, 3, OrderStatus::PartiallyFilled));

    synthesize_pending_cancel(&mut context, &mut shared, 7);

    assert_eq!(context.order(7).unwrap().status, OrderStatus::PendingCancel);
    let updates = shared.drain_order_updates();
    assert_eq!(updates.len(), 1);
    assert_eq!(updates[0].status, OrderStatus::PendingCancel);
    assert_eq!(updates[0].filled_qty_fixed / QTY_SCALE, 3);
    assert_eq!(updates[0].remaining_qty_fixed / QTY_SCALE, 7);
}

#[test]
fn plain_adjustable_stop_keeps_its_captured_shape() {
    let tags = wire_tags(OrderRequest::SubmitAdjustableStop {
        order_id: 5,
        instrument: 0,
        side: Side::Sell,
        qty: 1,
        stop_price: 11 * P,
        trigger_price: 12 * P,
        adjusted_order_type: AdjustedOrderType::Trail,
        adjusted_stop_price: 10 * P,
        adjusted_stop_limit_price: 0,
        adjusted_trailing_amount: P / 2,
        adjustable_trailing_unit: 0,
    });
    let tail: Vec<u32> = tags[pos(&tags, 204) + 1..]
        .iter()
        .map(|(t, _)| *t)
        .filter(|t| *t != 10)
        .collect();
    assert_eq!(tail, vec![6257, 6261, 6258, 6259, 6260, 6269]);
    assert_eq!(tag(&tags, 59), Some("0"));
    assert_eq!(tag(&tags, 6261), Some("T"));
    assert_eq!(tag(&tags, 6260), Some("0.5"));
    assert!(tag(&tags, 6107).is_none() && tag(&tags, 583).is_none());
}

#[test]
fn extended_adjustable_stop_carries_parent_oca_and_tif() {
    let tags = wire_tags(OrderRequest::SubmitEx {
        order_id: 6,
        instrument: 0,
        side: Side::Sell,
        qty: 1,
        kind: OrderKind::AdjustableStop {
            stop_price: 11 * P,
            trigger_price: 12 * P,
            adjusted_order_type: AdjustedOrderType::Stop,
            adjusted_stop_price: 10 * P,
            adjusted_stop_limit_price: 0,
            adjusted_trailing_amount: 0,
            adjustable_trailing_unit: 0,
        },
        tif: b'1',
        attrs: OrderAttrs {
            parent_id: 100,
            oca_group_str: "BR1".into(),
            oca_type: 1,
            ..Default::default()
        },
    });
    assert_eq!(tag(&tags, 40), Some("3"));
    assert_eq!(tag(&tags, 99), Some("11"));
    assert_eq!(tag(&tags, 59), Some("1"));
    assert_eq!(tag(&tags, 6107), Some("100.0"));
    assert_eq!(tag(&tags, 583), Some("BR1"));
    assert_eq!(tag(&tags, 6257), Some("1"));
    assert_eq!(tag(&tags, 6261), Some("3"));
    assert_eq!(tag(&tags, 6258), Some("12"));
    assert_eq!(tag(&tags, 6259), Some("10"));
    assert_eq!(pos(&tags, 6257), pos(&tags, 204) + 1);
    assert!(pos(&tags, 6259) < pos(&tags, 583));
    assert!(tag(&tags, 6260).is_none(), "trail tags only for a trail conversion");
}

fn contract_id_follows_routing(tags: &[(u32, String)], con_id: &str) -> bool {
    tags.iter()
        .enumerate()
        .filter(|(_, (t, _))| *t == 6210)
        .all(|(i, _)| tags.get(i + 1) == Some(&(6008, con_id.to_string())))
}

#[test]
fn new_orders_carry_the_contract_id_after_the_routing_field() {
    let limit = wire_tags(OrderRequest::SubmitLimit {
        order_id: 1,
        instrument: 0,
        side: Side::Buy,
        qty: 1,
        price: 100 * P,
    });
    assert_eq!(tag(&limit, 6008), Some("265598"));
    assert!(contract_id_follows_routing(&limit, "265598"));

    let extended = wire_tags(OrderRequest::SubmitEx {
        order_id: 2,
        instrument: 0,
        side: Side::Buy,
        qty: 1,
        kind: OrderKind::Limit { price: 100 * P },
        tif: b'1',
        attrs: OrderAttrs { outside_rth: true, ..Default::default() },
    });
    assert_eq!(tag(&extended, 6008), Some("265598"));
    assert!(contract_id_follows_routing(&extended, "265598"));

    let bracket = wire_tags(OrderRequest::SubmitBracket {
        parent_id: 3,
        tp_id: 4,
        sl_id: 5,
        instrument: 0,
        side: Side::Buy,
        qty: 1,
        entry_price: 100 * P,
        take_profit: 110 * P,
        stop_loss: 90 * P,
    });
    assert!(bracket.iter().any(|(t, _)| *t == 6210));
    assert!(contract_id_follows_routing(&bracket, "265598"));
}

#[test]
fn a_new_order_without_a_contract_id_sends_none() {
    let tags = wire_tags_with(
        |ctx| {
            ctx.market.register(0);
        },
        OrderRequest::SubmitLimit {
            order_id: 6,
            instrument: 1,
            side: Side::Buy,
            qty: 1,
            price: 100 * P,
        },
    );
    assert!(tag(&tags, 6210).is_some());
    assert!(tag(&tags, 6008).is_none());
}

fn parse_frame(s: &str) -> Vec<(u32, String)> {
    s.split('|')
        .filter_map(|f| {
            let (t, v) = f.split_once('=')?;
            Some((t.parse().ok()?, v.to_string()))
        })
        .filter(|(t, _)| !matches!(t, 6205 | 6531))
        .collect()
}

/// The fields of a replace of a working order, without framing and time stamps.
fn replace_fields(
    order_id: u64,
    side: Side,
    qty: u32,
    kind: OrderKind,
    tif: u8,
    attrs: OrderAttrs,
) -> Vec<(u32, String)> {
    wire_tags_with(
        |ctx| {
            ctx.set_symbol(0, "AAPL".to_string());
            ctx.insert_order(Order::new(order_id, 0, side, qty, 0, b'2', b'0', 0));
        },
        OrderRequest::Modify { new_order_id: order_id, order_id, qty, kind, tif, attrs },
    )
    .into_iter()
    .filter(|(t, _)| !matches!(t, 8 | 9 | 34 | 52 | 10))
    .collect()
}

fn assert_same_replace(ours: &[(u32, String)], reference: &str) {
    let want = parse_frame(reference);
    let ours_tags: Vec<u32> = ours.iter().map(|(t, _)| *t).collect();
    let want_tags: Vec<u32> = want.iter().map(|(t, _)| *t).collect();
    assert_eq!(
        ours_tags, want_tags,
        "field order differs\n ours: {:?}\n want: {:?}",
        ours, want
    );
    for ((t, a), (_, b)) in ours.iter().zip(want.iter()) {
        let same = match (a.parse::<f64>(), b.parse::<f64>()) {
            (Ok(x), Ok(y)) => (x - y).abs() < 1e-9,
            _ => a == b,
        };
        assert!(same, "field {}: ours {:?}, want {:?}", t, a, b);
    }
}

fn px(v: f64) -> i64 {
    (v * PRICE_SCALE as f64).round() as i64
}

fn attrs_rth(outside_rth: bool) -> OrderAttrs {
    OrderAttrs { outside_rth, ..Default::default() }
}

#[test]
fn replace_limit_without_outside_rth_matches_reference() {
    let ours = replace_fields(
        9000000553,
        Side::Buy,
        1,
        OrderKind::Limit { price: px(241.22) },
        b'0',
        attrs_rth(false),
    );
    assert_same_replace(&ours, "35=G|11=9000000553.1|41=9000000553.0|44=241.22|1=DU1|6205=1|6122=c|38=1|54=1|40=2|55=AAPL|167=STK|6035=AAPL|59=0|6008=265598|6088=Socket|6211=|6238=");
}

#[test]
fn replace_limit_with_outside_rth_matches_reference() {
    let ours = replace_fields(
        9000000554,
        Side::Buy,
        1,
        OrderKind::Limit { price: px(241.22) },
        b'0',
        attrs_rth(true),
    );
    assert_same_replace(&ours, "35=G|11=9000000554.1|41=9000000554.0|44=241.22|1=DU1|6122=c|6433=1|38=1|54=1|40=2|55=AAPL|167=STK|6035=AAPL|59=0|6008=265598|6088=Socket|6211=|6238=");
}

#[test]
fn replace_stop_moves_the_trigger_like_reference() {
    let ours = replace_fields(
        9000000555,
        Side::Sell,
        1,
        OrderKind::Stop { stop_price: px(234.43) },
        b'0',
        attrs_rth(false),
    );
    assert_same_replace(&ours, "35=G|11=9000000555.1|41=9000000555.0|99=234.43|1=DU1|6117=234.43|6122=c|38=1|54=2|40=3|55=AAPL|167=STK|6035=AAPL|59=0|6008=265598|6088=Socket|6211=|6238=");
}

#[test]
fn replace_stop_limit_moves_both_prices_like_reference() {
    let ours = replace_fields(
        9000000556,
        Side::Sell,
        1,
        OrderKind::StopLimit { price: px(227.63), stop_price: px(231.03) },
        b'0',
        attrs_rth(false),
    );
    assert_same_replace(&ours, "35=G|11=9000000556.1|41=9000000556.0|44=227.63|99=231.03|1=DU1|6117=231.03|6205=1|6122=c|38=1|54=2|40=4|55=AAPL|167=STK|6035=AAPL|59=0|6008=265598|6088=Socket|6211=|6238=");
}

#[test]
fn replace_trailing_amount_matches_reference() {
    let ours = replace_fields(
        9000000557,
        Side::Sell,
        1,
        OrderKind::TrailingStop { trail_amt: px(105.32), trail_stop_price: 0 },
        b'0',
        attrs_rth(false),
    );
    assert_same_replace(&ours, "35=G|11=9000000557.1|41=9000000557.0|99=105.32|1=DU1|6122=c|6268=0|38=1|54=2|40=P|211=105.32|18=a|55=AAPL|167=STK|6035=AAPL|59=0|6008=265598|6088=Socket|6211=|6238=");
}

#[test]
fn replace_trailing_limit_matches_reference() {
    let ours = replace_fields(
        9000000568,
        Side::Sell,
        1,
        OrderKind::TrailingStopLimit {
            lmt_offset: px(0.50),
            trail_amt: px(105.32),
            trail_stop_price: px(237.82),
        },
        b'0',
        attrs_rth(false),
    );
    assert_same_replace(&ours, "35=G|11=9000000568.1|41=9000000568.0|99=105.32|1=DU1|6370=0.50|6205=1|6122=c|6268=0|38=1|54=2|40=TSL|211=105.32|55=AAPL|167=STK|6035=AAPL|59=0|6008=265598|6088=Socket|6211=|6238=");
}

#[test]
fn replace_trailing_percent_matches_reference() {
    let ours = replace_fields(
        9000000558,
        Side::Sell,
        1,
        OrderKind::TrailPct { trail_pct: 3100, trail_stop_price: 0 },
        b'0',
        attrs_rth(false),
    );
    assert_same_replace(&ours, "35=G|11=9000000558.1|41=9000000558.0|99=31.00|1=DU1|6122=c|6268=100|38=1|54=2|40=P|211=31.00|18=a|55=AAPL|167=STK|6035=AAPL|59=0|6008=265598|6088=Socket|6211=|6238=");
}

#[test]
fn replace_carries_the_new_time_in_force_like_reference() {
    let ours = replace_fields(
        9000000559,
        Side::Buy,
        1,
        OrderKind::Limit { price: px(237.82) },
        b'1',
        attrs_rth(false),
    );
    assert_same_replace(&ours, "35=G|11=9000000559.1|41=9000000559.0|44=237.82|1=DU1|6205=1|6122=c|38=1|54=1|40=2|55=AAPL|167=STK|6035=AAPL|59=1|6008=265598|6088=Socket|6211=|6238=");
}

#[test]
fn replace_good_till_stop_matches_reference() {
    let attrs = OrderAttrs { good_till: 1_790_798_400, ..Default::default() };
    let ours = replace_fields(
        9000000575,
        Side::Sell,
        200,
        OrderKind::Stop { stop_price: px(200.45) },
        b'6',
        attrs,
    );
    assert_same_replace(&ours, "35=G|11=9000000575.1|41=9000000575.0|99=200.45|1=DU1|126=20260930-20:00:00|6117=200.45|6122=c|6531=4/2/-1|38=200|54=2|40=3|55=AAPL|167=STK|6035=AAPL|59=6|6008=265598|6088=Socket|6211=|6238=");
}

#[test]
fn percent_trail_submit_matches_reference_at_every_percentage() {
    for (bp, pct) in [(50u32, "0.50"), (100, "1.00"), (125, "1.25"), (200, "2.00")] {
        let plain = wire_tags(OrderRequest::SubmitTrailingStopPct {
            order_id: 7,
            instrument: 0,
            side: Side::Sell,
            qty: 1,
            trail_pct: bp,
            trail_stop_price: 0,
        });
        let ext = wire_tags(OrderRequest::SubmitEx {
            order_id: 8,
            instrument: 0,
            side: Side::Sell,
            qty: 1,
            kind: OrderKind::TrailPct { trail_pct: bp, trail_stop_price: 0 },
            tif: b'1',
            attrs: OrderAttrs::default(),
        });
        for tags in [&plain, &ext] {
            assert_eq!(tag(tags, 40), Some("P"));
            assert_eq!(tag(tags, 99), Some(pct), "{} bp", bp);
            assert_eq!(tag(tags, 211), Some(pct), "{} bp", bp);
            assert_eq!(tag(tags, 18), Some("a"));
            assert_eq!(tag(tags, 6268), Some("100"), "unit is percent at {} bp", bp);
        }
    }
}

fn bracket_child_attrs() -> OrderAttrs {
    OrderAttrs {
        parent_id: 9000000577,
        oca_group_str: "BR1".into(),
        oca_type: 1,
        ..Default::default()
    }
}

#[test]
fn algo_bracket_child_carries_parent_oca_and_gtc() {
    let tags = wire_tags(OrderRequest::SubmitAlgo {
        order_id: 9,
        instrument: 0,
        side: Side::Sell,
        qty: 1,
        price: 509 * PRICE_SCALE,
        algo: AlgoParams::Twap {
            allow_past_end_time: true,
            start_time: String::new(),
            end_time: String::new(),
        },
        tif: b'1',
        attrs: bracket_child_attrs(),
    });
    assert_eq!(tag(&tags, 59), Some("1"));
    assert_eq!(tag(&tags, 6107), Some("9000000577.0"));
    assert_eq!(tag(&tags, 583), Some("BR1"));
    assert_eq!(tag(&tags, 6209), Some("CancelOnFillWBlock"));
    assert_eq!(tag(&tags, 847), Some("Twap"));
    assert_eq!(tag(&tags, 5957), Some("1"));
    assert!(
        !tags.iter().any(|(t, v)| *t == 5958 && (v == "startTime" || v == "endTime")),
        "{:?}",
        tags
    );
    assert_eq!(tag(&tags, 18), Some("e"));
    assert_eq!(tags.iter().filter(|(t, _)| *t == 18).count(), 1, "no second instruction");
}

#[test]
fn adaptive_bracket_child_carries_parent_oca_and_gtc() {
    let tags = wire_tags(OrderRequest::SubmitAdaptive {
        order_id: 10,
        instrument: 0,
        side: Side::Sell,
        qty: 1,
        price: 509 * PRICE_SCALE,
        priority: AdaptivePriority::Normal,
        tif: b'1',
        attrs: bracket_child_attrs(),
    });
    assert_eq!(tag(&tags, 18), Some("e"));
    assert_eq!(tag(&tags, 59), Some("1"));
    assert_eq!(tag(&tags, 6107), Some("9000000577.0"));
    assert_eq!(tag(&tags, 583), Some("BR1"));
    assert_eq!(tag(&tags, 847), Some("Adaptive"));
}

#[test]
fn what_if_carries_its_time_in_force() {
    let tags = wire_tags(OrderRequest::SubmitWhatIf {
        order_id: 11,
        instrument: 0,
        side: Side::Buy,
        qty: 1,
        price: 237 * PRICE_SCALE,
        tif: b'1',
        attrs: OrderAttrs::default(),
    });
    assert_eq!(tag(&tags, 59), Some("1"));
    assert_eq!(tag(&tags, 6091), Some("1"));
}

#[test]
fn plain_algo_order_sends_no_attribute_fields() {
    let tags = wire_tags(OrderRequest::SubmitAlgo {
        order_id: 12,
        instrument: 0,
        side: Side::Buy,
        qty: 1,
        price: 237 * PRICE_SCALE,
        algo: AlgoParams::Twap {
            allow_past_end_time: true,
            start_time: String::new(),
            end_time: String::new(),
        },
        tif: b'0',
        attrs: OrderAttrs::default(),
    });
    assert_eq!(tag(&tags, 59), Some("0"));
    for absent in [583, 6107, 6209, 6433] {
        assert!(tag(&tags, absent).is_none(), "field {} must not be sent", absent);
    }
}

fn condition_block(cancel_order: bool, ignore_rth: bool) -> Vec<(u32, String)> {
    let tags = wire_tags(OrderRequest::SubmitEx {
        order_id: 13,
        instrument: 0,
        side: Side::Buy,
        qty: 1,
        kind: OrderKind::Limit { price: 237 * PRICE_SCALE },
        tif: b'0',
        attrs: OrderAttrs {
            conditions: vec![OrderCondition::Price {
                con_id: 265598,
                exchange: "SMART".into(),
                price: (509.62 * PRICE_SCALE as f64).round() as i64,
                is_more: true,
                trigger_method: 0,
            }],
            conditions_cancel_order: cancel_order,
            conditions_ignore_rth: ignore_rth,
            ..Default::default()
        },
    });
    let start = pos(&tags, 6128);
    let end = pos(&tags, 6947);
    tags[start..=end].to_vec()
}

#[test]
fn condition_block_with_cancel_order_matches_reference() {
    let want = parse_frame("6128=0|6151=1|6136=1|6222=1|6137=n|6126=>=|6123=265598|6124=BEST|6127=0|6125=509.62|6223=|6245=|6263=|6246=|6947=");
    assert_eq!(condition_block(true, false), want);
}

#[test]
fn condition_block_with_ignore_rth_matches_reference() {
    let want = parse_frame("6128=1|6151=0|6136=1|6222=1|6137=n|6126=>=|6123=265598|6124=BEST|6127=0|6125=509.62|6223=|6245=|6263=|6246=|6947=");
    assert_eq!(condition_block(false, true), want);
}

#[test]
fn synthesize_pending_cancel_skips_terminal_and_unknown_orders() {
    let mut context = Context::new();
    let mut shared = OrderReports::new();
    context.insert_order(order(8, 10, OrderStatus::Filled));

    synthesize_pending_cancel(&mut context, &mut shared, 8);
    synthesize_pending_cancel(&mut context, &mut shared, 999);

    assert_eq!(context.order(8).unwrap().status, OrderStatus::Filled);
    assert!(shared.drain_order_updates().is_empty());
}

/// What one request sends, and the errors that it raises.
fn outcome_of(
    setup: impl FnOnce(&mut Context),
    req: OrderRequest,
) -> (usize, Vec<(u64, i64, String)>) {
    let mut context = Context::new();
    context.market.register(265598);
    setup(&mut context);
    context.pending_orders.push(req);
    let mut sent = 0;
    let mut errors = Vec::new();
    for req in drain_and_send_orders(&mut context, false, true) {
        match take_up(&mut context, "DU1", "20260101-00:00:00", req) {
            OrderStep::Refused { order_id, code, message } => {
                errors.push((order_id, code, message))
            }
            step => {
                for message in messages_of(step) {
                    sent += fix_build(&message, 1).len();
                }
            }
        }
    }
    (sent, errors)
}

fn modify_of(existing: Option<Order>) -> (usize, Vec<(u64, i64, String)>) {
    outcome_of(
        |ctx| {
            if let Some(o) = existing {
                ctx.insert_order(o);
            }
        },
        OrderRequest::Modify {
            new_order_id: 5,
            order_id: 5,
            qty: 10,
            kind: OrderKind::Limit { price: 101 * P },
            tif: b'0',
            attrs: Default::default(),
        },
    )
}

#[test]
fn modify_of_an_order_the_engine_no_longer_holds_is_refused() {
    let (sent, errors) = modify_of(None);
    assert_eq!(sent, 0, "nothing is sent");
    assert_eq!(errors, [(5, 104, "Cannot modify a filled order.".to_string())]);
}

#[test]
fn modify_of_an_order_with_a_pending_cancel_is_refused() {
    let (sent, errors) = modify_of(Some(order(5, 0, OrderStatus::PendingCancel)));
    assert_eq!(sent, 0, "nothing is sent");
    assert_eq!(errors.len(), 1);
    assert_eq!(errors[0].1, 104);
}

#[test]
fn modify_of_a_working_order_is_sent() {
    let (sent, errors) = modify_of(Some(order(5, 0, OrderStatus::Submitted)));
    assert!(sent > 0, "the replace is sent");
    assert!(errors.is_empty());
}

fn cancel_of(setup: impl FnOnce(&mut Context)) -> (usize, Vec<(u64, i64, String)>) {
    outcome_of(setup, OrderRequest::Cancel { order_id: 5 })
}

#[test]
fn cancel_of_an_unknown_order_is_refused_with_10147() {
    let (sent, errors) = cancel_of(|_| {});
    assert_eq!(sent, 0);
    assert_eq!(
        errors,
        [(5, 10147, "OrderId 5 that needs to be cancelled is not found.".to_string())]
    );
}

#[test]
fn cancel_of_an_order_with_a_pending_cancel_is_refused_with_10148() {
    let (sent, errors) =
        cancel_of(|ctx| ctx.insert_order(order(5, 0, OrderStatus::PendingCancel)));
    assert_eq!(sent, 0);
    assert_eq!(
        errors,
        [(
            5,
            10148,
            "OrderId 5 that needs to be cancelled can not be cancelled, state: PendingCancel."
                .to_string()
        )]
    );
}

#[test]
fn cancel_of_a_finished_order_gives_its_state() {
    let (sent, errors) = cancel_of(|ctx| {
        ctx.insert_order(order(5, 10, OrderStatus::Filled));
        ctx.finish_order(5, OrderStatus::Filled);
    });
    assert_eq!(sent, 0);
    assert_eq!(errors[0].1, 10148);
    assert!(errors[0].2.ends_with("state: Filled."), "{}", errors[0].2);
}

#[test]
fn cancel_of_a_working_order_is_sent() {
    let (sent, errors) = cancel_of(|ctx| ctx.insert_order(order(5, 0, OrderStatus::Submitted)));
    assert!(sent > 0);
    assert!(errors.is_empty());
}

#[test]
fn a_cancel_names_the_version_that_the_last_replace_gave() {
    let mut context = Context::new();
    context.market.register(265598);
    context.insert_order(order(5, 0, OrderStatus::Submitted));
    let modify = OrderRequest::Modify {
        new_order_id: 5,
        order_id: 5,
        qty: 10,
        kind: OrderKind::Limit { price: 101 * P },
        tif: b'0',
        attrs: Default::default(),
    };
    take_up(&mut context, "DU1", "t", modify);
    let step = take_up(&mut context, "DU1", "t", OrderRequest::Cancel { order_id: 5 });
    let messages = messages_of(step);
    let tags = parsed(&fix_build(&messages[0], 1));
    assert_eq!(tag(&tags, 41), Some("5.1"));
}

#[test]
fn cancel_all_cancels_the_open_orders_of_one_instrument() {
    let mut context = Context::new();
    context.market.register(1);
    context.market.register(2);
    context.insert_order(order(5, 0, OrderStatus::Submitted));
    context.insert_order(Order { instrument: 1, ..order(6, 0, OrderStatus::Submitted) });
    context.insert_order(order(7, 0, OrderStatus::PartiallyFilled));
    match take_up(&mut context, "DU1", "t", OrderRequest::CancelAll { instrument: 0 }) {
        OrderStep::Cancel { messages } => {
            let ids: Vec<u64> = messages.iter().map(|(id, _)| *id).collect();
            assert_eq!(ids, vec![5, 7]);
        }
        _ => panic!("expected cancels"),
    }
}

#[test]
fn a_request_waits_while_the_connection_is_lost() {
    let mut context = Context::new();
    context.market.register(1);
    context.pending_orders.push(OrderRequest::Cancel { order_id: 5 });
    assert!(drain_and_send_orders(&mut context, true, true).is_empty());
    assert_eq!(context.pending_orders.len(), 1);
    assert_eq!(drain_and_send_orders(&mut context, false, true).len(), 1);
    assert!(context.pending_orders.is_empty());
}

#[test]
fn an_order_that_could_not_be_sent_is_reported() {
    let mut context = Context::new();
    let mut reports = OrderReports::new();
    context.insert_order(order(5, 0, OrderStatus::PendingSubmit));
    send_failed(&mut context, &mut reports, 5);
    let updates = reports.drain_order_updates();
    assert_eq!(updates.len(), 1);
    assert_eq!(updates[0].order_id, 5);
}

#[test]
fn refusals_leave_the_context_alone() {
    let context = Context::new();
    assert_eq!(cancel_refusal(&context, 5).unwrap().0, 10147);
}
