//! What keeps an engine up to date when connections come and go.
use vstd::prelude::*;

use crate::bridge::ContractView;
use crate::client::parsed_side;
use crate::engine::context::{find_order, has_order, order_index, ContextView};
use crate::engine::hot_loop::farm::{
    distinct_instruments, law_subscribe_adds_requests, market_lost, ticks_in, FarmView,
};
use crate::engine::hot_loop::history::{mentioned_request, mentions, request_of_query};
use crate::engine::hot_loop::lookups::{
    cold_contracts, pairs_given_up, EventView, PendingSchedulePair, ScannerEntry,
};
use crate::engine::hot_loop::order_builder::{pending_cancel_update, unsent_update};
use crate::engine::hot_loop::placing_laws::{lemma_one_field, says};
use crate::engine::hot_loop::server_reports::resubscriptions;
use crate::engine::market_state::MarketView;
use crate::engine::order::{Order, OrderStatus, Side};
use crate::protocol::tick_laws::{
    blocks_bits, blocks_read, is_block, law_ticks_round_trip, tick_body, WrittenBlock,
};
use crate::text::{lemma_find_first, occurs_at, upper_text};
use crate::types::{OrderId, MAX_INSTRUMENTS};

verus! {

// ---------------------------------------------------------------------------------------
// Orders
// ---------------------------------------------------------------------------------------

/// When the order connection is lost, the state of each order that is not finished is uncertain;
/// nothing else of it changes, and no position does.
pub proof fn law_lost_orders_are_uncertain(c: ContextView, id: OrderId, o: Order)
    requires
        c.wf(),
        c.order(id) == Some(o),
    ensures
        ({
            let after = c.with_uncertain_orders();
            &&& o.status == OrderStatus::Filled || o.status == OrderStatus::Cancelled || o.status
                == OrderStatus::Rejected ==> after.order(id) == Some(o)
            &&& o.status != OrderStatus::Filled && o.status != OrderStatus::Cancelled && o.status
                != OrderStatus::Rejected ==> after.order(id) == Some(
                Order { status: OrderStatus::Uncertain, ..o },
            )
            &&& after.positions == c.positions
            &&& after.account == c.account
        }),
{
    let after = c.with_uncertain_orders();
    let i = order_index(c.orders, id);
    assert(0 <= i < c.orders.len() && c.orders[i].order_id == id);
    assert(after.orders[i].order_id == id);
    assert(has_order(after.orders, id));
    let j = order_index(after.orders, id);
    assert(0 <= j < after.orders.len() && after.orders[j].order_id == id);
    assert(c.orders[j].order_id == id);
    assert(i == j) by {
        if i < j {
            assert(c.orders[i].order_id != c.orders[j].order_id);
        } else if j < i {
            assert(c.orders[j].order_id != c.orders[i].order_id);
        }
    }
    assert(find_order(after.orders, id) == Some(after.orders[i]));
}

/// An order whose cancel is under way is told as such, with what of it is filled and what
/// remains; an order that could not be sent is told as rejected, with nothing filled.
pub proof fn law_updates_of_requests(c: ContextView, o: Order, id: OrderId)
    requires
        i64::MIN <= o.qty_fixed - o.filled_fixed <= i64::MAX,
    ensures
        ({
            let u = pending_cancel_update(c, o);
            &&& u.order_id == o.order_id
            &&& u.instrument == o.instrument
            &&& u.status == OrderStatus::PendingCancel
            &&& u.filled_qty_fixed == o.filled_fixed
            &&& u.remaining_qty_fixed == o.qty_fixed - o.filled_fixed
        }),
        ({
            let u = unsent_update(id);
            &&& u.order_id == id
            &&& u.status == OrderStatus::Rejected
            &&& u.filled_qty_fixed == 0
        }),
{
}

/// A side is read in upper and lower case: by the name, or the first letters, of a purchase, a
/// sale or a short sale.
pub proof fn law_side_is_read(s: Seq<char>)
    ensures
        upper_text(s) == "BUY"@ || upper_text(s) == "B"@ ==> parsed_side(s) == Ok::<Side, Seq<char>>(
            Side::Buy,
        ),
        upper_text(s) == "SELL"@ || upper_text(s) == "S"@ ==> parsed_side(s) == Ok::<
            Side,
            Seq<char>,
        >(Side::Sell),
        upper_text(s) == "SSHORT"@ || upper_text(s) == "SS"@ ==> parsed_side(s) == Ok::<
            Side,
            Seq<char>,
        >(Side::ShortSell),
{
    crate::client::law_side_names();
}

// ---------------------------------------------------------------------------------------
// Market data
// ---------------------------------------------------------------------------------------

/// A message with ticks is read as the ticks that were written behind `35=P`.
pub proof fn law_tick_message_is_read(blocks: Seq<WrittenBlock>)
    requires
        forall|i: int| 0 <= i < blocks.len() ==> is_block(#[trigger] blocks[i]),
        blocks_bits(blocks).len() < 0x1_0000,
    ensures
        ticks_in(seq![51u8, 53, 61, 80, 1] + tick_body(blocks)) == Some(blocks_read(blocks)),
{
    let marker = seq![51u8, 53, 61, 80, 1];
    let body = tick_body(blocks);
    let msg = marker + body;
    law_ticks_round_trip(blocks);
    assert(crate::engine::hot_loop::farm::ticks_marker() =~= marker);
    assert(msg.subrange(0, 5) =~= marker);
    assert(occurs_at(msg, marker, 0));
    lemma_find_first(msg, marker, 0, 0);
    assert(msg.skip(5) =~= body);
}

/// When the market data connection is lost, no tag stands for an instrument, and no quote holds
/// a price or a size; the registered contracts stay.
pub proof fn law_lost_market_is_blank(m: MarketView, i: int)
    requires
        0 <= i < MAX_INSTRUMENTS,
    ensures
        ({
            let after = market_lost(m);
            let q = after.quotes[i];
            &&& after.server_tags.len() == 0
            &&& q.bid == 0 && q.ask == 0 && q.last == 0
            &&& q.bid_size == 0 && q.ask_size == 0 && q.last_size == 0
            &&& after.con_ids == m.con_ids
            &&& after.min_ticks == m.min_ticks
        }),
{
}

/// After a new connection each of the first instruments is asked for again, under numbers that
/// follow one another.
pub proof fn law_all_are_subscribed_again(s: FarmView, n: int, i: int)
    requires
        s.active.len() == 0,
        0 <= i < n <= MAX_INSTRUMENTS,
        s.next + 2 * n < u32::MAX,
    ensures
        s.all_subscribed(n).next == s.next + 2 * n,
        distinct_instruments(s.all_subscribed(n).active),
        s.all_subscribed(n).active.len() == n,
        s.all_subscribed(n).active[i] == (
            i as u32,
            seq![(s.next + 2 * i) as u32, (s.next + 2 * i + 1) as u32],
        ),
    decreases n,
{
    lemma_all_subscribed(s, n);
    let t = s.all_subscribed(n);
    assert(t.active[i].0 == i);
}

proof fn lemma_all_subscribed(s: FarmView, n: int)
    requires
        s.active.len() == 0,
        0 <= n <= MAX_INSTRUMENTS,
        s.next + 2 * n < u32::MAX,
    ensures
        s.all_subscribed(n).next == s.next + 2 * n,
        distinct_instruments(s.all_subscribed(n).active),
        s.all_subscribed(n).active.len() == n,
        forall|i: int|
            0 <= i < n ==> #[trigger] s.all_subscribed(n).active[i] == (
                i as u32,
                seq![(s.next + 2 * i) as u32, (s.next + 2 * i + 1) as u32],
            ),
    decreases n,
{
    if n > 0 {
        lemma_all_subscribed(s, n - 1);
        let before = s.all_subscribed(n - 1);
        let id = (n - 1) as u32;
        crate::engine::hot_loop::farm::lemma_active_from(before.active, id, 0);
        law_subscribe_adds_requests(before, id);
        let t = s.all_subscribed(n);
        assert(t == before.subscribed(id));
        assert forall|i: int| 0 <= i < n implies #[trigger] t.active[i] == (
            i as u32,
            seq![(s.next + 2 * i) as u32, (s.next + 2 * i + 1) as u32],
        ) by {
            if i < n - 1 {
                assert(t.active[i] == before.active[i]);
            }
        }
    }
}

/// After a new order connection the values and the positions of the account are asked for.
pub proof fn law_account_is_asked_for_again(now: Seq<char>, account: Seq<char>)
    ensures
        ({
            let m = resubscriptions(now, account);
            &&& m.len() == 2
            &&& says(m[0], 35, "U"@)
            &&& says(m[0], 6040, "91"@)
            &&& says(m[0], 1, account)
            &&& says(m[1], 35, "U"@)
            &&& says(m[1], 6040, "6"@)
            &&& says(m[1], 6095, account)
        }),
{
    let a = resubscriptions(now, account)[0];
    let b = resubscriptions(now, account)[1];
    lemma_one_field(a, 0, 35, "U"@);
    lemma_one_field(a, 2, 6040, "91"@);
    lemma_one_field(a, 3, 1, account);
    lemma_one_field(b, 0, 35, "U"@);
    lemma_one_field(b, 2, 6040, "6"@);
    lemma_one_field(b, 4, 6095, account);
}

// ---------------------------------------------------------------------------------------
// Pending requests
// ---------------------------------------------------------------------------------------

/// Bars belong to the first query of their name, and a ticker to the first query that its message
/// mentions.
pub proof fn law_first_query_gets_the_bars(
    s: Seq<(Seq<char>, u32)>,
    name: Seq<char>,
    text: Seq<char>,
    i: int,
    from: int,
)
    requires
        0 <= from <= i < s.len(),
    ensures
        s[i].0 == name && (forall|j: int| from <= j < i ==> (#[trigger] s[j]).0 != name)
            ==> request_of_query(s, name, from) == Some(s[i].1),
        mentions(text, s[i].0) && (forall|j: int|
            from <= j < i ==> !mentions(text, (#[trigger] s[j]).0)) ==> mentioned_request(
            s,
            text,
            from,
        ) == Some(s[i].1),
    decreases i - from,
{
    if from < i {
        law_first_query_gets_the_bars(s, name, text, i, from + 1);
        assert(s[from] == s[from]);
    }
}

/// The contracts that a scanner result waits for are those that it names and that are not known.
pub proof fn law_scanner_waits_for_unknown_contracts(
    entries: Seq<ScannerEntry>,
    known: Map<i64, ContractView>,
    con_id: i64,
)
    ensures
        cold_contracts(entries, known).contains(con_id) <==> con_id != 0 && !known.contains_key(
            con_id,
        ) && exists|i: int| 0 <= i < entries.len() && (#[trigger] entries[i]).con_id == con_id,
    decreases entries.len(),
{
    if entries.len() > 0 {
        let shorter = entries.drop_last();
        law_scanner_waits_for_unknown_contracts(shorter, known, con_id);
        let rest = cold_contracts(shorter, known);
        let last = entries.last().con_id;
        assert(entries[entries.len() - 1].con_id == last);
        if exists|i: int| 0 <= i < shorter.len() && (#[trigger] shorter[i]).con_id == con_id {
            let i = choose|i: int|
                0 <= i < shorter.len() && (#[trigger] shorter[i]).con_id == con_id;
            assert(entries[i].con_id == con_id);
        }
        if exists|i: int| 0 <= i < entries.len() && (#[trigger] entries[i]).con_id == con_id {
            let i = choose|i: int|
                0 <= i < entries.len() && (#[trigger] entries[i]).con_id == con_id;
            if i < shorter.len() {
                assert(shorter[i].con_id == con_id);
            }
        }
        let all = rest.push(last);
        assert(all[all.len() - 1] == last);
        if rest.contains(con_id) {
            let k = choose|k: int| 0 <= k < rest.len() && rest[k] == con_id;
            assert(all[k] == con_id);
        }
        if all.contains(con_id) && con_id != last {
            let k = choose|k: int| 0 <= k < all.len() && all[k] == con_id;
            assert(rest[k] == con_id);
        }
    }
}

/// A definition whose trading hours did not come in time is delivered without them, and with the
/// end if it was the last; one that still has time is not.
pub proof fn law_late_definition_is_delivered(
    events: Seq<EventView>,
    pair: PendingSchedulePair,
    now: u64,
)
    ensures
        ({
            let after = pairs_given_up(events, seq![pair], now);
            let n = events.len() as int;
            &&& now < pair.deadline ==> after == events
            &&& now >= pair.deadline ==> {
                &&& after.len() == n + (if pair.is_last {
                    2int
                } else {
                    1
                })
                &&& after[n] matches EventView::Details(id, def)
                &&& id == pair.api_req_id
                &&& def.con_id == pair.def.con_id
                &&& def.symbol == pair.def.symbol
                &&& def.trading_hours is None
                &&& def.liquid_hours is None
                &&& pair.is_last ==> after[n + 1] == EventView::End(pair.api_req_id)
            }
        }),
{
    let one = seq![pair];
    assert(one.drop_last() =~= Seq::<PendingSchedulePair>::empty());
    assert(pairs_given_up(events, one.drop_last(), now) == events);
    assert(one.last() == pair);
}

} // verus!
