//! What the messages that ask for data say, and what the messages that bring it are taken for.
use vstd::prelude::*;

use crate::engine::context::ContextView;
use crate::engine::hot_loop::ccp::{ccp_kind, CcpKind};
use crate::engine::hot_loop::control::{commanded, ControlCommand, ControlView};
use crate::engine::hot_loop::exec_report::Values;
use crate::engine::hot_loop::farm::{
    distinct_instruments, farm_kind, farm_subscription, law_subscribe_adds_requests, subscription_entry, FarmKind,
};
use crate::engine::hot_loop::heartbeat::{
    heartbeat_message, link_step, seconds_between, test_request_message, LinkView,
};
use crate::engine::hot_loop::history::mentions;
use crate::engine::hot_loop::lookup_replies::{
    field_if_set, id_source, lookup_exchange, lookup_sec_type, lookup_subject, right_code,
    symbol_lookup, SecDefFiltersView,
};
use crate::engine::hot_loop::lookups::{
    fanout_request, matching_request, schedule_request, secdef_request,
};
use crate::engine::hot_loop::order_fields::{add_if, FieldSeq};
use crate::engine::hot_loop::placing_laws::{
    lemma_one_field, says, says_if, silent,
};
use crate::engine::hot_loop::server_reports::{
    news_subscription, news_unsubscription, pnl_subscription, test_reply,
};
use crate::engine::hot_loop::special_laws::{lemma_tells_added, tells, value_after};
use crate::engine::hot_loop::tick_by_tick::{
    law_entries_add_up, query_message, running_prices, tbt_name, tbt_query, TbtEntry, TbtEvent,
    TbtType, TbtView, QUERY_HEAD,
};
use crate::gateway::{
    ccp_logon, farm_identity, farm_logon, mktdata_subscribe, mktdata_unsubscribe,
};
use crate::text::{dec, find_from, int_text, occurs_at};
use crate::types::InstrumentId;

verus! {

// ---------------------------------------------------------------------------------------
// Subscriptions
// ---------------------------------------------------------------------------------------

/// A subscription to an instrument asks for two things of its contract: bids and asks under its
/// first number, and trades under the next.
pub proof fn law_subscription_asks_for_quotes_and_trades(now: Seq<char>, req_id: u32, con_id: i64)
    requires
        req_id < u32::MAX,
        0 <= con_id < 0x1_0000_0000,
    ensures
        ({
            let m = farm_subscription(now, req_id, con_id);
            let quotes = m.subrange(4, 12);
            let trades = m.subrange(12, 20);
            &&& m.len() == 20
            &&& says(m, 35, "V"@)
            &&& says(m, 52, now)
            &&& says(m, 263, "1"@)
            &&& says(m, 146, "2"@)
            &&& says(quotes, 262, dec(req_id as nat))
            &&& says(quotes, 264, "442"@)
            &&& says(quotes, 6008, dec(con_id as nat))
            &&& says(quotes, 207, "BEST"@)
            &&& says(quotes, 167, "CS"@)
            &&& says(trades, 262, dec((req_id + 1) as nat))
            &&& says(trades, 264, "443"@)
            &&& says(trades, 6008, dec(con_id as nat))
            &&& says(trades, 207, "BEST"@)
            &&& says(trades, 167, "CS"@)
        }),
{
    let m = farm_subscription(now, req_id, con_id);
    let quotes = m.subrange(4, 12);
    let trades = m.subrange(12, 20);
    let a = subscription_entry(req_id, con_id, "442"@);
    let b = subscription_entry((req_id + 1) as u32, con_id, "443"@);
    assert(quotes =~= a);
    assert(trades =~= b);
    assert(con_id as int % 0x1_0000_0000 == con_id);
    lemma_one_field(m, 0, 35, "V"@);
    lemma_one_field(m, 1, 52, now);
    lemma_one_field(m, 2, 263, "1"@);
    lemma_one_field(m, 3, 146, "2"@);
    lemma_one_field(a, 0, 262, dec(req_id as nat));
    lemma_one_field(a, 1, 6008, dec(con_id as nat));
    lemma_one_field(a, 2, 207, "BEST"@);
    lemma_one_field(a, 3, 167, "CS"@);
    lemma_one_field(a, 4, 264, "442"@);
    lemma_one_field(b, 0, 262, dec((req_id + 1) as nat));
    lemma_one_field(b, 1, 6008, dec(con_id as nat));
    lemma_one_field(b, 2, 207, "BEST"@);
    lemma_one_field(b, 3, 167, "CS"@);
    lemma_one_field(b, 4, 264, "443"@);
}

/// The subscription of a session that is not yet running names its request, its contract and
/// where the data is to come from; its end names the request again.
pub proof fn law_single_subscription_names_its_contract(
    con_id: u32,
    exchange: Seq<char>,
    sec_type: Seq<char>,
    id: Seq<char>,
)
    ensures
        ({
            let m = mktdata_subscribe(con_id, exchange, sec_type, id);
            let end = mktdata_unsubscribe(id);
            &&& says(m, 35, "V"@)
            &&& says(m, 262, id)
            &&& says(m, 263, "1"@)
            &&& says(m, 6008, dec(con_id as nat))
            &&& says(m, 207, if exchange == "SMART"@ {
                "BEST"@
            } else {
                exchange
            })
            &&& says(m, 167, sec_type)
            &&& says(m, 264, "442"@)
            &&& says(end, 35, "V"@)
            &&& says(end, 262, id)
            &&& says(end, 263, "2"@)
        }),
{
    let m = mktdata_subscribe(con_id, exchange, sec_type, id);
    let end = mktdata_unsubscribe(id);
    lemma_one_field(m, 0, 35, "V"@);
    lemma_one_field(m, 1, 262, id);
    lemma_one_field(m, 2, 263, "1"@);
    lemma_one_field(m, 4, 6008, dec(con_id as nat));
    lemma_one_field(
        m,
        5,
        207,
        if exchange == "SMART"@ {
            "BEST"@
        } else {
            exchange
        },
    );
    lemma_one_field(m, 6, 167, sec_type);
    lemma_one_field(m, 7, 264, "442"@);
    lemma_one_field(end, 0, 35, "V"@);
    lemma_one_field(end, 1, 262, id);
    lemma_one_field(end, 2, 263, "2"@);
}

/// A subscription to news names its request, the contract and the providers; its end names the
/// request again. A subscription to profit and loss names its request and the account.
pub proof fn law_other_subscriptions_say_what_is_asked(
    now: Seq<char>,
    con_id: i64,
    providers: Seq<char>,
    req_id: u32,
    pnl_id: i64,
    account: Seq<char>,
)
    requires
        0 <= con_id < 0x1_0000_0000,
    ensures
        ({
            let m = news_subscription(now, con_id, providers, req_id);
            let end = news_unsubscription(req_id);
            let pnl = pnl_subscription(now, pnl_id, account);
            &&& says(m, 35, "V"@)
            &&& says(m, 263, "1"@)
            &&& says(m, 262, dec(req_id as nat))
            &&& says(m, 6008, dec(con_id as nat))
            &&& says(m, 207, "NEWS"@)
            &&& says(m, 264, "292"@)
            &&& says(m, 6472, providers)
            &&& says(end, 35, "V"@)
            &&& says(end, 262, dec(req_id as nat))
            &&& says(end, 263, "2"@)
            &&& says(pnl, 35, "U"@)
            &&& says(pnl, 6040, "142"@)
            &&& says(pnl, 6529, "PLR."@ + int_text(pnl_id as int) + "|1="@ + account + "|"@)
        }),
{
    let m = news_subscription(now, con_id, providers, req_id);
    let end = news_unsubscription(req_id);
    let pnl = pnl_subscription(now, pnl_id, account);
    assert(con_id as int % 0x1_0000_0000 == con_id);
    lemma_one_field(m, 0, 35, "V"@);
    lemma_one_field(m, 2, 263, "1"@);
    lemma_one_field(m, 4, 262, dec(req_id as nat));
    lemma_one_field(m, 5, 6008, dec(con_id as nat));
    lemma_one_field(m, 6, 207, "NEWS"@);
    lemma_one_field(m, 8, 264, "292"@);
    lemma_one_field(m, 9, 6472, providers);
    lemma_one_field(end, 0, 35, "V"@);
    lemma_one_field(end, 1, 262, dec(req_id as nat));
    lemma_one_field(end, 2, 263, "2"@);
    lemma_one_field(pnl, 0, 35, "U"@);
    lemma_one_field(pnl, 2, 6040, "142"@);
    lemma_one_field(
        pnl,
        3,
        6529,
        "PLR."@ + int_text(pnl_id as int) + "|1="@ + account + "|"@,
    );
}

proof fn lemma_found(s: Seq<char>, part: Seq<char>, from: int, i: int)
    requires
        0 <= from <= i,
        occurs_at(s, part, i),
    ensures
        find_from(s, part, from) is Some,
    decreases i - from,
{
    if !occurs_at(s, part, from) {
        lemma_found(s, part, from + 1, i);
    }
}

proof fn lemma_mentions(a: Seq<char>, b: Seq<char>, c: Seq<char>)
    ensures
        mentions(a + b + c, b),
{
    let s = a + b + c;
    assert(s.subrange(a.len() as int, (a.len() + b.len()) as int) =~= b);
    assert(occurs_at(s, b, a.len() as int));
    lemma_found(s, b, 0, a.len() as int);
}

/// A tick-by-tick subscription names its request, its contract and what is asked for: trades,
/// or bids and asks.
pub proof fn law_tick_query_names_its_contract(n: u32, con_id: i64, t: TbtType, now: Seq<char>)
    ensures
        ({
            let q = tbt_query(n, con_id, t);
            let m = query_message("W"@, now, q);
            &&& says(m, 35, "W"@)
            &&& says(m, 6118, q)
            &&& mentions(q, "<id>tbt_"@ + dec(n as nat) + "</id>"@)
            &&& mentions(q, "<contractID>"@ + int_text(con_id as int) + "</contractID>"@)
            &&& t == TbtType::Last ==> mentions(q, "<data>AllLast</data>"@)
            &&& t == TbtType::BidAsk ==> mentions(q, "<data>BidAsk</data>"@)
        }),
{
    let q = tbt_query(n, con_id, t);
    let m = query_message("W"@, now, q);
    lemma_one_field(m, 0, 35, "W"@);
    lemma_one_field(m, 2, 6118, q);
    let x1 = "<ListOfQueries><Query><id>"@;
    let x2 = "</id><contractID>"@;
    let x3 =
        "</contractID><exchange>BEST</exchange><secType>CS</secType><expired>no</expired><type>TickData</type><refresh>ticks</refresh><data>"@;
    let x4 = "</data><source>API</source></Query></ListOfQueries>"@;
    reveal_strlit("<ListOfQueries><Query><id>");
    reveal_strlit("</id><contractID>");
    reveal_strlit(
        "</contractID><exchange>BEST</exchange><secType>CS</secType><expired>no</expired><type>TickData</type><refresh>ticks</refresh><data>",
    );
    reveal_strlit("</data><source>API</source></Query></ListOfQueries>");
    reveal_strlit("<id>tbt_");
    reveal_strlit("</id>");
    reveal_strlit("tbt_");
    reveal_strlit("<contractID>");
    reveal_strlit("</contractID>");
    reveal_strlit("<data>AllLast</data>");
    reveal_strlit("<data>BidAsk</data>");
    reveal_strlit("AllLast");
    reveal_strlit("BidAsk");
    let d = dec(n as nat);
    let c = int_text(con_id as int);
    let data = crate::engine::hot_loop::tick_by_tick::tbt_data(t);
    let id_part = "<id>tbt_"@ + d + "</id>"@;
    let id_before = QUERY_HEAD@ + x1.take(x1.len() - 4);
    let id_after = x2.skip(5) + c + x3 + data + x4;
    assert(q =~= id_before + id_part + id_after);
    lemma_mentions(id_before, id_part, id_after);
    let c_part = "<contractID>"@ + c + "</contractID>"@;
    let c_before = QUERY_HEAD@ + x1 + "tbt_"@ + d + x2.take(x2.len() - 12);
    let c_after = x3.skip(13) + data + x4;
    assert(q =~= c_before + c_part + c_after);
    lemma_mentions(c_before, c_part, c_after);
    let t_part = if t == TbtType::Last {
        "<data>AllLast</data>"@
    } else {
        "<data>BidAsk</data>"@
    };
    let t_before = QUERY_HEAD@ + x1 + "tbt_"@ + d + x2 + c + x3.take(x3.len() - 6);
    let t_after = x4.skip(7);
    assert(t_part =~= x3.skip(x3.len() - 6) + data + x4.take(7));
    assert(q =~= t_before + t_part + t_after);
    lemma_mentions(t_before, t_part, t_after);
}

/// A trade of tick-by-tick data moves the running price by its change, and is told at the price
/// that results, at 1000000 units to the cent; it moves neither the bid nor the ask. A quote
/// moves the bid and the ask by their changes, and is told with both and their sizes; it does
/// not move the price of the last trade.
pub proof fn law_tick_entry_is_told(s: TbtView, entry: TbtEntry, id: InstrumentId)
    requires
        s.subscriptions.len() > 0,
        s.subscriptions[0].0 == id,
        s.entry_fits(entry),
    ensures
        ({
            let before = running_prices(s.prices, id);
            let after = running_prices(s.moved(entry).prices, id);
            &&& entry matches TbtEntry::Trade {
                timestamp,
                price_cents_delta,
                size,
                exchange,
                conditions,
            } ==> {
                &&& after == (before.0 + price_cents_delta, before.1, before.2)
                &&& s.announced(entry) matches Some(TbtEvent::Trade(t))
                &&& t.instrument == id
                &&& t.price == (before.0 + price_cents_delta) * 1_000_000
                &&& t.size == size
                &&& t.timestamp == timestamp
                &&& t.exchange == exchange
                &&& t.conditions == conditions
            }
            &&& entry matches TbtEntry::Quote {
                timestamp,
                bid_cents_delta,
                ask_cents_delta,
                bid_size,
                ask_size,
            } ==> {
                &&& after == (before.0, before.1 + bid_cents_delta, before.2 + ask_cents_delta)
                &&& s.announced(entry) matches Some(TbtEvent::Quote(t))
                &&& t.instrument == id
                &&& t.bid == (before.1 + bid_cents_delta) * 1_000_000
                &&& t.ask == (before.2 + ask_cents_delta) * 1_000_000
                &&& t.bid_size == bid_size
                &&& t.ask_size == ask_size
                &&& t.timestamp == timestamp
            }
        }),
{
    let other: InstrumentId = if id == 0 {
        1
    } else {
        0
    };
    law_entries_add_up(s, entry, other);
}

// ---------------------------------------------------------------------------------------
// Lookups
// ---------------------------------------------------------------------------------------

/// The requests for definitions, trading hours and matches name their request and what is
/// looked for.
pub proof fn law_lookup_names_what_is_asked(
    now: Seq<char>,
    req_id: u32,
    con_id: i64,
    text: Seq<char>,
    other: Seq<char>,
)
    ensures
        ({
            let m = secdef_request(now, req_id, con_id);
            &&& says(m, 35, "c"@)
            &&& says(m, 320, dec(req_id as nat))
            &&& says(m, 321, "2"@)
            &&& says(m, 6008, int_text(con_id as int))
        }),
        ({
            let m = fanout_request(now, text, con_id, other);
            &&& says(m, 35, "c"@)
            &&& says(m, 320, text)
            &&& says(m, 6008, int_text(con_id as int))
            &&& says(m, 6004, other)
        }),
        ({
            let m = schedule_request(now, req_id, text);
            &&& says(m, 35, "U"@)
            &&& says(m, 6040, "106"@)
            &&& says(m, 320, "SchedSub."@ + dec(req_id as nat))
            &&& says(m, 6256, text)
        }),
        ({
            let m = matching_request(now, req_id, text);
            &&& says(m, 35, "U"@)
            &&& says(m, 6040, "185"@)
            &&& says(m, 320, dec(req_id as nat))
            &&& says(m, 58, text)
        }),
{
    let a = secdef_request(now, req_id, con_id);
    lemma_one_field(a, 0, 35, "c"@);
    lemma_one_field(a, 2, 320, dec(req_id as nat));
    lemma_one_field(a, 3, 321, "2"@);
    lemma_one_field(a, 4, 6008, int_text(con_id as int));
    let b = fanout_request(now, text, con_id, other);
    lemma_one_field(b, 0, 35, "c"@);
    lemma_one_field(b, 2, 320, text);
    lemma_one_field(b, 5, 6008, int_text(con_id as int));
    lemma_one_field(b, 6, 6004, other);
    let c = schedule_request(now, req_id, text);
    lemma_one_field(c, 0, 35, "U"@);
    lemma_one_field(c, 2, 6040, "106"@);
    lemma_one_field(c, 3, 320, "SchedSub."@ + dec(req_id as nat));
    lemma_one_field(c, 4, 6256, text);
    let d = matching_request(now, req_id, text);
    lemma_one_field(d, 0, 35, "U"@);
    lemma_one_field(d, 2, 6040, "185"@);
    lemma_one_field(d, 3, 320, dec(req_id as nat));
    lemma_one_field(d, 4, 58, text);
}

/// What a lookup by symbol says of its subject, when it names no identifier of a known kind.
pub proof fn law_symbol_lookup_says_what_is_asked(
    now: Seq<char>,
    req_id: u32,
    symbol: Seq<char>,
    sec_type: Seq<char>,
    exchange: Seq<char>,
    currency: Seq<char>,
    filters: SecDefFiltersView,
    id_type: Seq<char>,
    right: Seq<char>,
)
    requires
        filters.sec_id.len() == 0,
    ensures
        ({
            let m = symbol_lookup(
                now,
                req_id,
                symbol,
                sec_type,
                exchange,
                currency,
                filters,
                id_type,
                right,
            );
            &&& says(m, 35, "c"@)
            &&& says(m, 320, dec(req_id as nat))
            &&& says_if(m, filters.local_symbol.len() == 0, 55, symbol)
            &&& says_if(m, filters.local_symbol.len() > 0, 6035, filters.local_symbol)
            &&& says_if(m, filters.trading_class.len() > 0, 6058, filters.trading_class)
            &&& says(m, 167, if sec_type == "STK"@ {
                "CS"@
            } else {
                sec_type
            })
            &&& says_if(
                m,
                filters.last_trade_date_or_contract_month.len() > 0,
                200,
                filters.last_trade_date_or_contract_month,
            )
            &&& right == "C"@ || right == "CALL"@ ==> says(m, 201, "1"@)
            &&& right == "P"@ || right == "PUT"@ ==> says(m, 201, "0"@)
            &&& right.len() == 0 ==> silent(m, 201)
            &&& says_if(m, filters.strike.len() > 0, 202, filters.strike)
            &&& says_if(m, filters.multiplier.len() > 0, 231, filters.multiplier)
            &&& says(m, 100, if exchange == "SMART"@ {
                "BEST"@
            } else {
                exchange
            })
            &&& says_if(m, filters.primary_exchange.len() > 0, 207, filters.primary_exchange)
            &&& says(m, 15, currency)
        }),
{
    reveal_strlit("C");
    reveal_strlit("P");
    reveal_strlit("CALL");
    reveal_strlit("PUT");
    reveal_strlit("1");
    reveal_strlit("0");
    assert("C"@.len() == 1 && "P"@.len() == 1 && "CALL"@.len() == 4 && "PUT"@.len() == 3);
    assert("C"@[0] == 'C' && "P"@[0] == 'P');
    let code = right_code(right);
    let kind = lookup_sec_type(sec_type);
    let place = lookup_exchange(exchange);
    let subject = if filters.local_symbol.len() > 0 {
        (6035u32, filters.local_symbol)
    } else {
        (55u32, symbol)
    };
    let m0 = seq![(35u32, "c"@), (52u32, now), (320u32, dec(req_id as nat)), (321u32, "2"@)]
        + seq![subject];
    let month = filters.last_trade_date_or_contract_month;
    let f = filters;
    lemma_lookup_is_chain(
        now,
        req_id,
        symbol,
        sec_type,
        exchange,
        currency,
        filters,
        id_type,
        right,
    );
    lemma_one_field(m0, 0, 35, "c"@);
    lemma_one_field(m0, 2, 320, dec(req_id as nat));
    lemma_one_field(m0, 4, subject.0, subject.1);
    let none = None::<Seq<char>>;
    lemma_lookup_chain(m0, f, kind, month, code, place, currency, 35, Some("c"@));
    lemma_lookup_chain(m0, f, kind, month, code, place, currency, 320, Some(dec(req_id as nat)));
    lemma_lookup_chain(
        m0,
        f,
        kind,
        month,
        code,
        place,
        currency,
        55,
        if subject.0 == 55 {
            Some(symbol)
        } else {
            None
        },
    );
    lemma_lookup_chain(
        m0,
        f,
        kind,
        month,
        code,
        place,
        currency,
        6035,
        if subject.0 == 6035 {
            Some(f.local_symbol)
        } else {
            None
        },
    );
    lemma_lookup_chain(m0, f, kind, month, code, place, currency, 6058, none);
    lemma_lookup_chain(m0, f, kind, month, code, place, currency, 167, none);
    lemma_lookup_chain(m0, f, kind, month, code, place, currency, 200, none);
    lemma_lookup_chain(m0, f, kind, month, code, place, currency, 201, none);
    lemma_lookup_chain(m0, f, kind, month, code, place, currency, 202, none);
    lemma_lookup_chain(m0, f, kind, month, code, place, currency, 231, none);
    lemma_lookup_chain(m0, f, kind, month, code, place, currency, 100, none);
    lemma_lookup_chain(m0, f, kind, month, code, place, currency, 207, none);
    lemma_lookup_chain(m0, f, kind, month, code, place, currency, 15, none);
}

/// What the fields of a lookup behind its subject say under a tag.
spec fn lookup_value(
    was: Option<Seq<char>>,
    f: SecDefFiltersView,
    kind: Seq<char>,
    month: Seq<char>,
    code: Seq<char>,
    place: Seq<char>,
    currency: Seq<char>,
    t: u32,
) -> Option<Seq<char>> {
    if t == 6058 && f.trading_class.len() > 0 {
        Some(f.trading_class)
    } else if t == 167 {
        Some(kind)
    } else if t == 200 && month.len() > 0 {
        Some(month)
    } else if t == 201 && code.len() > 0 {
        Some(code)
    } else if t == 202 && f.strike.len() > 0 {
        Some(f.strike)
    } else if t == 231 && f.multiplier.len() > 0 {
        Some(f.multiplier)
    } else if t == 100 {
        Some(place)
    } else if t == 207 && f.primary_exchange.len() > 0 {
        Some(f.primary_exchange)
    } else if t == 15 {
        Some(currency)
    } else {
        was
    }
}

/// The fields of a lookup up to its subject, and what narrows the subject.
#[verifier::opaque]
spec fn subject_chain(
    m0: FieldSeq,
    f: SecDefFiltersView,
    kind: Seq<char>,
    month: Seq<char>,
    code: Seq<char>,
) -> FieldSeq {
    let a1 = add_if(m0, f.trading_class.len() > 0, 6058, f.trading_class);
    let a2 = add_if(a1, true, 167, kind);
    let a3 = add_if(a2, month.len() > 0, 200, month);
    let a4 = add_if(a3, code.len() > 0, 201, code);
    let a5 = add_if(a4, f.strike.len() > 0, 202, f.strike);
    add_if(a5, f.multiplier.len() > 0, 231, f.multiplier)
}

/// The fields of a lookup: those that name its subject, and what follows them.
#[verifier::opaque]
spec fn lookup_chain(
    m0: FieldSeq,
    f: SecDefFiltersView,
    kind: Seq<char>,
    month: Seq<char>,
    code: Seq<char>,
    place: Seq<char>,
    currency: Seq<char>,
) -> FieldSeq {
    let a6 = subject_chain(m0, f, kind, month, code);
    let a7 = add_if(a6, true, 100, place);
    let a8 = add_if(a7, f.primary_exchange.len() > 0, 207, f.primary_exchange);
    let a9 = add_if(a8, true, 15, currency);
    add_if(a9, true, 6088, "Socket"@)
}

proof fn lemma_chain_step(a: FieldSeq, b: FieldSeq, tag: u32, v: Seq<char>)
    ensures
        add_if(a + b, v.len() > 0, tag, v) == a + (b + field_if_set(tag, v)),
        add_if(a + b, true, tag, v) == a + (b + seq![(tag, v)]),
        add_if(a, v.len() > 0, tag, v) == a + field_if_set(tag, v),
        add_if(a, true, tag, v) == a + seq![(tag, v)],
{
    assert(add_if(a + b, v.len() > 0, tag, v) =~= a + (b + field_if_set(tag, v)));
    assert(add_if(a + b, true, tag, v) =~= a + (b + seq![(tag, v)]));
    assert(add_if(a, v.len() > 0, tag, v) =~= a + field_if_set(tag, v));
    assert(add_if(a, true, tag, v) =~= a + seq![(tag, v)]);
}

proof fn lemma_subject_is_chain(
    head: FieldSeq,
    symbol: Seq<char>,
    sec_type: Seq<char>,
    f: SecDefFiltersView,
    source: Seq<char>,
    code: Seq<char>,
)
    requires
        f.sec_id.len() == 0,
    ensures
        head + lookup_subject(symbol, sec_type, f, source, code) == subject_chain(
            head + seq![
                if f.local_symbol.len() > 0 {
                    (6035u32, f.local_symbol)
                } else {
                    (55u32, symbol)
                },
            ],
            f,
            lookup_sec_type(sec_type),
            f.last_trade_date_or_contract_month,
            code,
        ),
{
    reveal(subject_chain);
    let b0 = seq![
        if f.local_symbol.len() > 0 {
            (6035u32, f.local_symbol)
        } else {
            (55u32, symbol)
        },
    ];
    let kind = lookup_sec_type(sec_type);
    let month = f.last_trade_date_or_contract_month;
    let b1 = b0 + field_if_set(6058, f.trading_class);
    let b2 = b1 + seq![(167u32, kind)];
    let b3 = b2 + field_if_set(200, month);
    let b4 = b3 + field_if_set(201, code);
    let b5 = b4 + field_if_set(202, f.strike);
    lemma_chain_step(head, b0, 6058, f.trading_class);
    lemma_chain_step(head, b1, 167, kind);
    lemma_chain_step(head, b2, 200, month);
    lemma_chain_step(head, b3, 201, code);
    lemma_chain_step(head, b4, 202, f.strike);
    lemma_chain_step(head, b5, 231, f.multiplier);
}

proof fn lemma_lookup_is_chain(
    now: Seq<char>,
    req_id: u32,
    symbol: Seq<char>,
    sec_type: Seq<char>,
    exchange: Seq<char>,
    currency: Seq<char>,
    f: SecDefFiltersView,
    id_type: Seq<char>,
    right: Seq<char>,
)
    requires
        f.sec_id.len() == 0,
    ensures
        symbol_lookup(now, req_id, symbol, sec_type, exchange, currency, f, id_type, right)
            == lookup_chain(
            seq![(35u32, "c"@), (52u32, now), (320u32, dec(req_id as nat)), (321u32, "2"@)] + seq![
                if f.local_symbol.len() > 0 {
                    (6035u32, f.local_symbol)
                } else {
                    (55u32, symbol)
                },
            ],
            f,
            lookup_sec_type(sec_type),
            f.last_trade_date_or_contract_month,
            right_code(right),
            lookup_exchange(exchange),
            currency,
        ),
{
    reveal(lookup_chain);
    let head = seq![(35u32, "c"@), (52u32, now), (320u32, dec(req_id as nat)), (321u32, "2"@)];
    let place = lookup_exchange(exchange);
    let none = Seq::<(u32, Seq<char>)>::empty();
    lemma_subject_is_chain(head, symbol, sec_type, f, id_source(id_type), right_code(right));
    let a6 = head + lookup_subject(symbol, sec_type, f, id_source(id_type), right_code(right));
    lemma_chain_step(a6, none, 100, place);
    let a7 = a6 + seq![(100u32, place)];
    lemma_chain_step(a7, none, 207, f.primary_exchange);
    let a8 = a7 + field_if_set(207, f.primary_exchange);
    lemma_chain_step(a8, none, 15, currency);
    lemma_chain_step(a8 + seq![(15u32, currency)], none, 6088, "Socket"@);
}

proof fn lemma_lookup_chain(
    m0: FieldSeq,
    f: SecDefFiltersView,
    kind: Seq<char>,
    month: Seq<char>,
    code: Seq<char>,
    place: Seq<char>,
    currency: Seq<char>,
    t: u32,
    was: Option<Seq<char>>,
)
    requires
        tells(m0, t, was),
        was is Some ==> t == 35 || t == 320 || t == 55 || t == 6035,
        t != 6088,
    ensures
        tells(
            lookup_chain(m0, f, kind, month, code, place, currency),
            t,
            lookup_value(was, f, kind, month, code, place, currency, t),
        ),
{
    reveal(lookup_chain);
    reveal(subject_chain);
    let a1 = add_if(m0, f.trading_class.len() > 0, 6058, f.trading_class);
    let v1 = value_after(was, f.trading_class.len() > 0, 6058, f.trading_class, t);
    lemma_tells_added(m0, f.trading_class.len() > 0, 6058, f.trading_class, t, was);
    let a2 = add_if(a1, true, 167, kind);
    let v2 = value_after(v1, true, 167, kind, t);
    lemma_tells_added(a1, true, 167, kind, t, v1);
    let a3 = add_if(a2, month.len() > 0, 200, month);
    let v3 = value_after(v2, month.len() > 0, 200, month, t);
    lemma_tells_added(a2, month.len() > 0, 200, month, t, v2);
    let a4 = add_if(a3, code.len() > 0, 201, code);
    let v4 = value_after(v3, code.len() > 0, 201, code, t);
    lemma_tells_added(a3, code.len() > 0, 201, code, t, v3);
    let a5 = add_if(a4, f.strike.len() > 0, 202, f.strike);
    let v5 = value_after(v4, f.strike.len() > 0, 202, f.strike, t);
    lemma_tells_added(a4, f.strike.len() > 0, 202, f.strike, t, v4);
    let a6 = add_if(a5, f.multiplier.len() > 0, 231, f.multiplier);
    let v6 = value_after(v5, f.multiplier.len() > 0, 231, f.multiplier, t);
    lemma_tells_added(a5, f.multiplier.len() > 0, 231, f.multiplier, t, v5);
    let a7 = add_if(a6, true, 100, place);
    let v7 = value_after(v6, true, 100, place, t);
    lemma_tells_added(a6, true, 100, place, t, v6);
    let a8 = add_if(a7, f.primary_exchange.len() > 0, 207, f.primary_exchange);
    let v8 = value_after(v7, f.primary_exchange.len() > 0, 207, f.primary_exchange, t);
    lemma_tells_added(a7, f.primary_exchange.len() > 0, 207, f.primary_exchange, t, v7);
    let a9 = add_if(a8, true, 15, currency);
    let v9 = value_after(v8, true, 15, currency, t);
    lemma_tells_added(a8, true, 15, currency, t, v8);
    lemma_tells_added(a9, true, 6088, "Socket"@, t, v9);
}

// ---------------------------------------------------------------------------------------
// Signs of life
// ---------------------------------------------------------------------------------------

/// A connection that has sent nothing for an interval sends a heartbeat, and not before. One that
/// has received nothing for more than an interval and a second is asked for a sign of life,
/// unless it was asked already.
pub proof fn law_heartbeats_keep_time(link: LinkView, counter: int, now: u64, interval: u64)
    requires
        link.sent <= now,
        link.recv <= now,
        interval <= 1_000_000,
    ensures
        ({
            let step = link_step(link, counter, now, interval);
            &&& step.heartbeat == (now - link.sent >= interval * 1000)
            &&& step.test is Some == (now - link.recv >= (interval + 2) * 1000
                && link.pending is None)
            &&& step.heartbeat ==> step.link.sent == now
            &&& step.link.recv == link.recv
        }),
{
    let sent = (now - link.sent) as int;
    let recv = (now - link.recv) as int;
    assert(seconds_between(link.sent, now) == sent / 1000);
    assert(seconds_between(link.recv, now) == recv / 1000);
    assert(sent / 1000 >= interval <==> sent >= interval * 1000) by (nonlinear_arith);
    assert(recv / 1000 > interval + 1 <==> recv >= (interval + 2) * 1000) by (nonlinear_arith);
}

/// A heartbeat, a request for a sign of life and the answer to one say what they are, and the
/// last two name the request.
pub proof fn law_signs_of_life_say_so(now: Seq<char>, id: Seq<char>)
    ensures
        says(heartbeat_message(now), 35, "0"@),
        silent(heartbeat_message(now), 112),
        says(test_request_message(now, id), 35, "1"@),
        says(test_request_message(now, id), 112, id),
        says(test_reply(now, id), 35, "0"@),
        says(test_reply(now, id), 112, id),
{
    lemma_one_field(heartbeat_message(now), 0, 35, "0"@);
    lemma_one_field(test_request_message(now, id), 0, 35, "1"@);
    lemma_one_field(test_request_message(now, id), 2, 112, id);
    lemma_one_field(test_reply(now, id), 0, 35, "0"@);
    lemma_one_field(test_reply(now, id), 2, 112, id);
}

// ---------------------------------------------------------------------------------------
// Logons
// ---------------------------------------------------------------------------------------

/// The logons say who logs on, and how often a heartbeat is due.
pub proof fn law_logon_says_who_logs_on(
    now: Seq<char>,
    hw: Seq<char>,
    encoded: Seq<char>,
    heartbeat: u64,
    username: Seq<char>,
    paper: bool,
    farm: Seq<char>,
    session: Seq<char>,
    token: Seq<char>,
)
    ensures
        ({
            let m = ccp_logon(now, hw, encoded, heartbeat);
            &&& says(m, 35, "A"@)
            &&& says(m, 52, now)
            &&& says(m, 98, "0"@)
            &&& says(m, 108, dec(heartbeat as nat))
            &&& says(m, 141, "Y"@)
            &&& says(m, 6266, encoded)
            &&& says(m, 6351, "<"@ + hw + "|127.0.0.1>"@)
        }),
        ({
            let name = if paper {
                "S"@ + username
            } else {
                username
            };
            let slot = if farm == "ushmds"@ || farm == "cashhmds"@ {
                "18"@
            } else if farm == "secdefil"@ {
                "19"@
            } else {
                "17"@
            };
            let identity = name + "/"@ + slot + "/"@ + farm;
            let m = farm_logon(
                now,
                farm_identity(username, paper, farm),
                session,
                token,
                hw,
                encoded,
            );
            &&& says(m, 35, "A"@)
            &&& says(m, 108, dec(30))
            &&& says(m, 95, dec(vstd::utf8::encode_utf8(identity).len()))
            &&& says(m, 96, identity)
            &&& says(m, 6351, "<"@ + hw + "|127.0.0.1>"@)
            &&& says(m, 6266, encoded)
            &&& says(m, 8035, session)
            &&& says(m, 8483, token)
        }),
{
    reveal_strlit("<");
    assert("<"@ =~= seq!['<']);
    let a = ccp_logon(now, hw, encoded, heartbeat);
    lemma_one_field(a, 0, 35, "A"@);
    lemma_one_field(a, 1, 52, now);
    lemma_one_field(a, 2, 98, "0"@);
    lemma_one_field(a, 3, 108, dec(heartbeat as nat));
    lemma_one_field(a, 4, 141, "Y"@);
    lemma_one_field(a, 8, 6266, encoded);
    lemma_one_field(a, 9, 6351, "<"@ + hw + "|127.0.0.1>"@);
    reveal_strlit("S");
    reveal_strlit("/");
    reveal_strlit("17");
    reveal_strlit("18");
    reveal_strlit("19");
    reveal_with_fuel(dec, 3);
    assert("S"@ =~= seq!['S']);
    assert("/"@ =~= seq!['/']);
    assert("17"@ =~= dec(17));
    assert("18"@ =~= dec(18));
    assert("19"@ =~= dec(19));
    let name = if paper {
        "S"@ + username
    } else {
        username
    };
    let slot = if farm == "ushmds"@ || farm == "cashhmds"@ {
        "18"@
    } else if farm == "secdefil"@ {
        "19"@
    } else {
        "17"@
    };
    let identity = name + "/"@ + slot + "/"@ + farm;
    assert(farm_identity(username, paper, farm) =~= identity);
    let b = farm_logon(now, identity, session, token, hw, encoded);
    lemma_one_field(b, 0, 35, "A"@);
    lemma_one_field(b, 3, 108, dec(30));
    lemma_one_field(b, 4, 95, dec(vstd::utf8::encode_utf8(identity).len()));
    lemma_one_field(b, 5, 96, identity);
    lemma_one_field(b, 8, 6351, "<"@ + hw + "|127.0.0.1>"@);
    lemma_one_field(b, 9, 6266, encoded);
    lemma_one_field(b, 11, 8035, session);
    lemma_one_field(b, 13, 8483, token);
}

// ---------------------------------------------------------------------------------------
// Kinds of messages
// ---------------------------------------------------------------------------------------

proof fn lemma_types_differ()
    ensures
        "8"@ != "9"@ && "8"@ != "B"@ && "9"@ != "B"@ && "1"@ != "8"@ && "1"@ != "9"@ && "1"@
            != "B"@,
        "3"@ != "8"@ && "3"@ != "9"@ && "3"@ != "B"@ && "3"@ != "1"@,
        "U"@ != "8"@ && "U"@ != "9"@ && "U"@ != "B"@ && "U"@ != "1"@ && "U"@ != "3"@,
        "W"@ != "8"@ && "W"@ != "9"@ && "W"@ != "B"@ && "W"@ != "1"@ && "W"@ != "3"@ && "W"@
            != "U"@,
        "G"@ != "8"@ && "G"@ != "9"@ && "G"@ != "B"@ && "G"@ != "1"@ && "G"@ != "3"@ && "G"@
            != "U"@ && "G"@ != "W"@,
        "d"@ != "8"@ && "d"@ != "9"@ && "d"@ != "B"@ && "d"@ != "1"@ && "d"@ != "3"@ && "d"@
            != "U"@ && "d"@ != "W"@ && "d"@ != "G"@,
        "P"@ != "Q"@ && "P"@ != "1"@ && "P"@ != "L"@ && "Q"@ != "1"@ && "Q"@ != "L"@ && "1"@
            != "L"@,
        "8"@.len() == 1 && "9"@.len() == 1 && "B"@.len() == 1 && "1"@.len() == 1 && "3"@.len() == 1
            && "U"@.len() == 1 && "W"@.len() == 1 && "G"@.len() == 1 && "d"@.len() == 1
            && "P"@.len() == 1 && "Q"@.len() == 1 && "L"@.len() == 1,
        "UT"@.len() == 2 && "UM"@.len() == 2 && "RL"@.len() == 2 && "UP"@.len() == 2,
        "UP"@ != "UT"@ && "UP"@ != "UM"@ && "UP"@ != "RL"@,
{
    reveal_strlit("8");
    reveal_strlit("9");
    reveal_strlit("B");
    reveal_strlit("1");
    reveal_strlit("3");
    reveal_strlit("U");
    reveal_strlit("W");
    reveal_strlit("G");
    reveal_strlit("d");
    reveal_strlit("P");
    reveal_strlit("Q");
    reveal_strlit("L");
    reveal_strlit("UT");
    reveal_strlit("UM");
    reveal_strlit("RL");
    reveal_strlit("UP");
    assert("8"@[0] == '8' && "9"@[0] == '9' && "B"@[0] == 'B' && "1"@[0] == '1' && "3"@[0] == '3');
    assert("U"@[0] == 'U' && "W"@[0] == 'W' && "G"@[0] == 'G' && "d"@[0] == 'd' && "P"@[0] == 'P');
    assert("Q"@[0] == 'Q' && "L"@[0] == 'L');
    assert("UT"@[1] == 'T' && "UM"@[1] == 'M' && "RL"@[1] == 'L' && "UP"@[1] == 'P');
}

proof fn lemma_numbers_differ()
    ensures
        "75"@ != "77"@ && "75"@ != "60"@ && "77"@ != "60"@,
        "143"@ != "186"@ && "143"@ != "102"@ && "143"@ != "107"@ && "186"@ != "102"@ && "186"@
            != "107"@ && "102"@ != "107"@,
        "75"@.len() == 2 && "77"@.len() == 2 && "60"@.len() == 2,
        "143"@.len() == 3 && "186"@.len() == 3 && "102"@.len() == 3 && "107"@.len() == 3,
{
    reveal_strlit("75");
    reveal_strlit("77");
    reveal_strlit("60");
    reveal_strlit("143");
    reveal_strlit("186");
    reveal_strlit("102");
    reveal_strlit("107");
    assert("75"@[1] == '5' && "77"@[1] == '7' && "60"@[1] == '0');
    assert("143"@[1] == '4' && "186"@[1] == '8' && "102"@[1] == '0' && "107"@[1] == '0');
    assert("102"@[2] == '2' && "107"@[2] == '7');
}

/// A message of the order connection is what its type says that it is, and one of the server's
/// own protocol what its number says.
pub proof fn law_order_connection_tells_messages_apart(v: Values)
    requires
        v.contains_key(35),
    ensures
        v[35] == "8"@ ==> ccp_kind(v) == CcpKind::ExecReport,
        v[35] == "9"@ ==> ccp_kind(v) == CcpKind::CancelReject,
        v[35] == "B"@ ==> ccp_kind(v) == CcpKind::News,
        v[35] == "1"@ ==> ccp_kind(v) == CcpKind::TestRequest,
        v[35] == "3"@ ==> ccp_kind(v) == CcpKind::SessionReject,
        v[35] == "W"@ ==> ccp_kind(v) == CcpKind::History,
        v[35] == "G"@ ==> ccp_kind(v) == CcpKind::BarUpdate,
        v[35] == "UT"@ || v[35] == "UM"@ || v[35] == "RL"@ ==> ccp_kind(v)
            == CcpKind::AccountUpdate,
        v[35] == "UP"@ ==> ccp_kind(v) == CcpKind::Portfolio,
        v[35] == "d"@ ==> ccp_kind(v) == CcpKind::Definition,
        v[35] == "U"@ && v.contains_key(6040) ==> {
            &&& v[6040] == "75"@ ==> ccp_kind(v) == CcpKind::PositionFeed
            &&& v[6040] == "77"@ ==> ccp_kind(v) == CcpKind::AccountSummary
            &&& v[6040] == "143"@ ==> ccp_kind(v) == CcpKind::PnlSeeds
            &&& v[6040] == "186"@ ==> ccp_kind(v) == CcpKind::MatchingSymbols
            &&& v[6040] == "60"@ ==> ccp_kind(v) == CcpKind::Commission
            &&& v[6040] == "102"@ ==> ccp_kind(v) == CcpKind::ExchangeList
            &&& v[6040] == "107"@ ==> ccp_kind(v) == CcpKind::ScheduleReply
        },
{
    lemma_types_differ();
    lemma_numbers_differ();
}

/// A message of the market data connection is what its type says that it is.
pub proof fn law_data_connection_tells_messages_apart(v: Values)
    requires
        v.contains_key(35),
    ensures
        v[35] == "P"@ ==> farm_kind(v) == FarmKind::Ticks,
        v[35] == "Q"@ ==> farm_kind(v) == FarmKind::SubscriptionAck,
        v[35] == "1"@ ==> farm_kind(v) == FarmKind::TestRequest,
        v[35] == "L"@ ==> farm_kind(v) == FarmKind::TickerSetup,
        v[35] == "UT"@ || v[35] == "UM"@ || v[35] == "RL"@ ==> farm_kind(v)
            == FarmKind::AccountUpdate,
        v[35] == "UP"@ ==> farm_kind(v) == FarmKind::Portfolio,
{
    lemma_types_differ();
}

// ---------------------------------------------------------------------------------------
// Commands
// ---------------------------------------------------------------------------------------

/// A command to subscribe registers the contract under its symbol and asks for its data under
/// the next two numbers; a command for an order leaves the order to be placed last.
pub proof fn law_command_does_what_it_says(s: ControlView, cmd: ControlCommand, now: Seq<char>)
    requires
        s.c.wf(),
        s.c.market.con_ids.len() < crate::types::MAX_INSTRUMENTS,
        distinct_instruments(s.farm.active),
        s.farm.next < u32::MAX - 1,
    ensures
        ({
            let after = commanded(s, cmd, now);
            &&& cmd matches ControlCommand::Subscribe { con_id, symbol } ==> {
                &&& after.c.market.instrument_of(con_id) matches Some(id)
                &&& after.c.market.con_ids[id as int] == con_id
                &&& after.c.market.symbols[id as int] == symbol@
                &&& after.farm_out == s.farm_out.push(
                    farm_subscription(now, s.farm.next, con_id),
                )
                &&& after.farm.requests(id) == s.farm.requests(id).push(s.farm.next).push(
                    (s.farm.next + 1) as u32,
                )
                &&& after.hmds_out == s.hmds_out
                &&& after.stop == s.stop
            }
            &&& cmd matches ControlCommand::SubscribeTbt { con_id, symbol, tbt_type } ==> {
                &&& after.c.market.instrument_of(con_id) matches Some(id)
                &&& after.c.market.con_ids[id as int] == con_id
                &&& after.c.market.symbols[id as int] == symbol@
                &&& after.tbt.subscriptions.last() == (id, tbt_name(s.tbt.next), tbt_type)
                &&& after.hmds_out == s.hmds_out.push(
                    query_message("W"@, now, tbt_query(s.tbt.next, con_id, tbt_type)),
                )
                &&& after.farm_out == s.farm_out
                &&& after.stop == s.stop
            }
            &&& cmd matches ControlCommand::RegisterInstrument { con_id } ==> {
                &&& after.c.market.instrument_of(con_id) matches Some(id)
                &&& after.c.market.con_ids[id as int] == con_id
                &&& after.farm_out == s.farm_out
                &&& after.hmds_out == s.hmds_out
            }
            &&& cmd matches ControlCommand::Order(req) ==> after.c.pending == s.c.pending.push(
                req,
            ) && after.farm_out == s.farm_out && after.hmds_out == s.hmds_out && after.stop
                == s.stop
            &&& cmd is Shutdown ==> after.stop
        }),
{
    match cmd {
        ControlCommand::Subscribe { con_id, symbol } => {
            lemma_registered(s.c, con_id);
            let market = crate::engine::hot_loop::control::named(s.c.market, con_id, symbol@);
            law_subscribe_adds_requests(s.farm, market.instrument_of(con_id)->0);
        },
        ControlCommand::SubscribeTbt { con_id, symbol, tbt_type } => {
            lemma_registered(s.c, con_id);
        },
        ControlCommand::RegisterInstrument { con_id } => {
            lemma_registered(s.c, con_id);
        },
        _ => {},
    }
}

proof fn lemma_registered(c: ContextView, con_id: i64)
    requires
        c.wf(),
        c.market.con_ids.len() < crate::types::MAX_INSTRUMENTS,
    ensures
        ({
            let m = c.market.registered(con_id);
            &&& m.instrument_of(con_id) matches Some(id)
            &&& 0 <= id < m.con_ids.len()
            &&& m.con_ids[id as int] == con_id
            &&& id < m.symbols.len()
        }),
{
    let m = c.market.registered(con_id);
    if !c.market.con_ids.contains(con_id) {
        assert(m.con_ids[m.con_ids.len() - 1] == con_id);
    }
    assert(m.con_ids.contains(con_id));
    let k = m.con_ids.index_of(con_id);
    assert(0 <= k < m.con_ids.len() && m.con_ids[k] == con_id);
}

} // verus!
