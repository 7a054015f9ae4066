use ibx::engine::market_state::MarketState;
use ibx::types::{MAX_INSTRUMENTS, PRICE_SCALE};

#[test]
fn register_returns_sequential_ids() {
    let mut ms = MarketState::new();
    assert_eq!(ms.register(265598), 0);
    assert_eq!(ms.register(272093), 1);
    assert_eq!(ms.register(756733), 2);
}

#[test]
fn register_same_conid_returns_same_id() {
    let mut ms = MarketState::new();
    let id1 = ms.register(265598);
    let id2 = ms.register(265598);
    assert_eq!(id1, id2);
}

#[test]
fn quote_default_is_zero() {
    let ms = MarketState::new();
    let q = ms.quote(0);
    assert_eq!(q.bid, 0);
    assert_eq!(q.ask, 0);
    assert_eq!(q.last, 0);
}

#[test]
fn update_quote_and_read_back() {
    let mut ms = MarketState::new();
    let id = ms.register(265598);
    let q = ms.quote_mut(id);
    q.bid = 150 * PRICE_SCALE;
    q.ask = 15010 * (PRICE_SCALE / 100);
    q.last = 15005 * (PRICE_SCALE / 100);

    assert_eq!(ms.bid(id), 150 * PRICE_SCALE);
    assert_eq!(ms.ask(id), 15010 * (PRICE_SCALE / 100));
    assert_eq!(ms.last(id), 15005 * (PRICE_SCALE / 100));
}

#[test]
fn bid_ask_size() {
    let mut ms = MarketState::new();
    let id = ms.register(265598);
    let q = ms.quote_mut(id);
    q.bid_size = 500;
    q.ask_size = 300;

    assert_eq!(ms.bid_size(id), 500);
    assert_eq!(ms.ask_size(id), 300);
}

#[test]
fn mid_price() {
    let mut ms = MarketState::new();
    let id = ms.register(265598);
    let q = ms.quote_mut(id);
    q.bid = 100 * PRICE_SCALE;
    q.ask = 102 * PRICE_SCALE;

    assert_eq!(ms.mid(id), 101 * PRICE_SCALE);
}

#[test]
fn spread_calculation() {
    let mut ms = MarketState::new();
    let id = ms.register(265598);
    let q = ms.quote_mut(id);
    q.bid = 15000 * (PRICE_SCALE / 100);
    q.ask = 15010 * (PRICE_SCALE / 100);

    assert_eq!(ms.spread(id), 10 * (PRICE_SCALE / 100));
}

#[test]
fn multiple_instruments_independent() {
    let mut ms = MarketState::new();
    let aapl = ms.register(265598);
    let msft = ms.register(272093);

    ms.quote_mut(aapl).bid = 150 * PRICE_SCALE;
    ms.quote_mut(msft).bid = 400 * PRICE_SCALE;

    assert_eq!(ms.bid(aapl), 150 * PRICE_SCALE);
    assert_eq!(ms.bid(msft), 400 * PRICE_SCALE);
}

#[test]
fn server_tag_mapping() {
    let mut ms = MarketState::new();
    let aapl = ms.register(265598);
    ms.register_server_tag(42, aapl);
    assert_eq!(ms.instrument_by_server_tag(42), Some(aapl));
    assert_eq!(ms.instrument_by_server_tag(99), None);
}

#[test]
fn server_tag_dedup() {
    let mut ms = MarketState::new();
    let aapl = ms.register(265598);
    ms.register_server_tag(42, aapl);
    ms.register_server_tag(42, aapl);
    assert_eq!(ms.server_tag_count(), 1);
}

#[test]
fn min_tick_default_zero() {
    let ms = MarketState::new();
    assert_eq!(ms.min_tick(0), 0);
}

#[test]
fn min_tick_set_and_get() {
    let mut ms = MarketState::new();
    let id = ms.register(265598);
    ms.set_min_tick(id, PRICE_SCALE / 100);
    assert!((ms.min_tick(id) as f64 / PRICE_SCALE as f64 - 0.01).abs() < 1e-10);
}

#[test]
fn a_full_table_registers_no_more() {
    let mut ms = MarketState::new();
    for i in 0..MAX_INSTRUMENTS as i64 {
        assert_eq!(ms.try_register(i), Some(i as u32));
    }
    assert_eq!(ms.try_register(MAX_INSTRUMENTS as i64), None);
    assert_eq!(ms.try_register(5), Some(5));
    assert_eq!(ms.count(), MAX_INSTRUMENTS as u32);
}

#[test]
fn cleared_tags_are_gone_and_quotes_are_zero() {
    let mut ms = MarketState::new();
    let id = ms.register(1);
    ms.register_server_tag(42, id);
    ms.quote_mut(id).bid = 7;
    ms.clear_server_tags();
    ms.zero_all_quotes();
    assert_eq!(ms.instrument_by_server_tag(42), None);
    assert_eq!(ms.bid(id), 0);
    assert_eq!(ms.con_id(id), Some(1));
}

#[test]
fn smart_routing_goes_to_the_best_exchange() {
    let mut ms = MarketState::new();
    let id = ms.register(1);
    assert_eq!(ms.order_routing(id), ("STK".to_string(), "BEST".to_string()));
    ms.set_routing(id, "FUT".to_string(), "CME".to_string());
    assert_eq!(ms.order_routing(id), ("FUT".to_string(), "CME".to_string()));
}
