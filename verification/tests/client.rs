use ibx::client::{parse_priority, parse_side, parse_tif, side_from_upper, OrderDesk};
use ibx::engine::order::{AdaptivePriority, OrderAttrs, OrderKind, OrderRequest, Side};

#[test]
fn sides_are_read_in_either_case() {
    assert_eq!(parse_side("buy"), Ok(Side::Buy));
    assert_eq!(parse_side("B"), Ok(Side::Buy));
    assert_eq!(parse_side("Sell"), Ok(Side::Sell));
    assert_eq!(parse_side("s"), Ok(Side::Sell));
    assert_eq!(parse_side("sshort"), Ok(Side::ShortSell));
    assert_eq!(parse_side("SS"), Ok(Side::ShortSell));
    assert_eq!(
        parse_side("hold"),
        Err("Invalid side 'hold': use 'BUY' or 'SELL'".to_string())
    );
    assert_eq!(side_from_upper("buy"), None);
}

#[test]
fn times_in_force_and_priorities() {
    assert_eq!(parse_tif("DAY"), Ok(b'0'));
    assert_eq!(parse_tif("GTC"), Ok(b'1'));
    assert_eq!(parse_tif("GTD"), Ok(b'6'));
    assert_eq!(parse_tif("DTC"), Ok(b'6'));
    assert_eq!(
        parse_tif("IOC"),
        Err("Invalid TIF: IOC. Use DAY, GTC, GTD, or DTC".to_string())
    );
    assert_eq!(parse_priority("Patient"), Ok(AdaptivePriority::Patient));
    assert_eq!(parse_priority("Normal"), Ok(AdaptivePriority::Normal));
    assert_eq!(parse_priority("Urgent"), Ok(AdaptivePriority::Urgent));
    assert_eq!(
        parse_priority("urgent"),
        Err("Invalid priority: urgent. Use Patient, Normal, or Urgent".to_string())
    );
}

#[test]
fn a_bad_side_uses_up_an_order_id() {
    let mut desk = OrderDesk::new(100);
    assert!(desk.submit_market(0, "hold", 1).is_err());
    match desk.submit_limit(0, "buy", 5, 700) {
        Ok(OrderRequest::SubmitLimit { order_id, side, qty, price, .. }) => {
            assert_eq!((order_id, side, qty, price), (101, Side::Buy, 5, 700));
        }
        _ => panic!("expected a limit order"),
    }
    assert_eq!(desk.next_order_id, 102);
}

#[test]
fn a_bracket_takes_three_ids() {
    let mut desk = OrderDesk::new(10);
    match desk.submit_bracket(0, "sell", 1, 100, 90, 110) {
        Ok(OrderRequest::SubmitBracket { parent_id, tp_id, sl_id, .. }) => {
            assert_eq!((parent_id, tp_id, sl_id), (10, 11, 12));
        }
        _ => panic!("expected a bracket"),
    }
    assert_eq!(desk.next_order_id, 13);
    let mut last = OrderDesk::new(u64::MAX);
    match last.submit_bracket(0, "buy", 1, 100, 110, 90) {
        Ok(OrderRequest::SubmitBracket { parent_id, tp_id, sl_id, .. }) => {
            assert_eq!((parent_id, tp_id, sl_id), (u64::MAX, 0, 1));
        }
        _ => panic!("expected a bracket"),
    }
    assert_eq!(last.next_order_id, 2);
}

#[test]
fn every_kind_of_order_can_be_asked_for() {
    let mut d = OrderDesk::new(1);
    let requests = vec![
        d.submit_limit(0, "buy", 1, 2),
        d.submit_market(0, "buy", 1),
        d.submit_stop(0, "buy", 1, 2),
        d.submit_stop_limit(0, "buy", 1, 2, 3),
        d.submit_limit_gtc(0, "buy", 1, 2, true),
        d.submit_stop_gtc(0, "buy", 1, 2, true),
        d.submit_stop_limit_gtc(0, "buy", 1, 2, 3, true),
        d.submit_limit_ioc(0, "buy", 1, 2),
        d.submit_limit_fok(0, "buy", 1, 2),
        d.submit_trailing_stop(0, "buy", 1, 2),
        d.submit_trailing_stop_limit(0, "buy", 1, 2, 3),
        d.submit_trailing_stop_pct(0, "buy", 1, 100),
        d.submit_moc(0, "buy", 1),
        d.submit_loc(0, "buy", 1, 2),
        d.submit_mit(0, "buy", 1, 2),
        d.submit_lit(0, "buy", 1, 2, 3),
        d.submit_rel(0, "buy", 1, 2),
        d.submit_limit_opg(0, "buy", 1, 2),
        d.submit_limit_ex(0, "buy", 1, 2, "GTC", OrderAttrs::default()),
        d.submit_adaptive(0, "buy", 1, 2, "Urgent", OrderAttrs::default()),
    ];
    assert!(requests.iter().all(|r| r.is_ok()));
    assert_eq!(d.next_order_id, 21);
    for (i, r) in requests.into_iter().enumerate() {
        assert_eq!(r.unwrap().order_id(), i as u64 + 1);
    }
}

#[test]
fn a_modify_is_a_day_limit_order_under_a_new_id() {
    let mut desk = OrderDesk::new(5);
    match desk.modify(3, 700, 2, OrderAttrs::default()) {
        OrderRequest::Modify { new_order_id, order_id, qty, kind, tif, .. } => {
            assert_eq!((new_order_id, order_id, qty, tif), (5, 3, 2, b'0'));
            assert_eq!(kind, OrderKind::Limit { price: 700 });
        }
        _ => panic!("expected a modify"),
    }
}

#[test]
fn ids_start_again_after_the_largest() {
    let mut desk = OrderDesk::new(u64::MAX);
    assert!(desk.submit_market(0, "buy", 1).is_ok());
    assert_eq!(desk.next_order_id, 0);
}
