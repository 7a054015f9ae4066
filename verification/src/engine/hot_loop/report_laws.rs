//! What reports mean for orders and positions.
use vstd::prelude::*;

use crate::engine::context::{
    clamped, law_drop_then_find, law_put_then_find, lemma_put_distinct, versioned,
};
use crate::engine::hot_loop::exec_report::{
    after_clord, clord_order, exec_report, fill_counted, is_new_ack, report_order, reported_status,
    status_applied, status_reported, Numbers, ReportState, Values,
};
use crate::engine::hot_loop::plain_reports::{
    plain_filled, plain_order_id, plain_report, plain_status, PlainReportView, StrategyEvent,
};
use crate::engine::order::{Order, OrderStatus, Side};
use crate::text::{dec, is_digit, lemma_dec_value, lemma_int_text_parses, parsed_int, split};
use crate::types::{parsed_qty, OrderId, Qty, MAX_INSTRUMENTS, QTY_SCALE};

verus! {

proof fn lemma_one_piece(s: Seq<char>)
    requires
        forall|i: int| 0 <= i < s.len() ==> #[trigger] s[i] != '.',
    ensures
        split(s, '.') == seq![s],
    decreases s.len(),
{
    let none = Seq::<char>::empty();
    crate::text::lemma_split_append_piece(none, s, '.');
    assert(none + s =~= s);
    assert(split(none, '.') =~= seq![none]);
    assert(split(s, '.') =~= seq![s]);
}

proof fn lemma_first_piece(s: Seq<char>, rest: Seq<char>)
    requires
        forall|i: int| 0 <= i < s.len() ==> #[trigger] s[i] != '.',
        forall|i: int| 0 <= i < rest.len() ==> #[trigger] rest[i] != '.',
    ensures
        split(s.push('.') + rest, '.')[0] == s,
{
    lemma_one_piece(s);
    let head = s.push('.');
    assert(head.drop_last() =~= s);
    crate::text::lemma_split_append_piece(head, rest, '.');
    assert(split(head, '.') =~= seq![s, Seq::<char>::empty()]);
}

/// The client order ids under which an order is sent name that order when they come back: its
/// number, its number with a version, and its number behind the mark of a request to cancel.
pub proof fn law_client_order_id_names_its_order(id: OrderId, version: u32)
    ensures
        clord_order(dec(id as nat)) == Some(id as int),
        clord_order(versioned(id, version)) == Some(id as int),
        clord_order(seq!['C'] + dec(id as nat)) == Some(id as int),
{
    let d = dec(id as nat);
    let k = dec(version as nat);
    lemma_dec_value(id as nat);
    lemma_dec_value(version as nat);
    assert forall|i: int| 0 <= i < d.len() implies #[trigger] d[i] != '.' && d[i] != 'C' by {
        assert(is_digit(d[i]));
    }
    assert forall|i: int| 0 <= i < k.len() implies #[trigger] k[i] != '.' by {
        assert(is_digit(k[i]));
    }
    assert(d[0] != 'C');
    lemma_one_piece(d);
    lemma_first_piece(d, k);
    lemma_int_text_parses(id as int, 0, u64::MAX as int);
    let v = versioned(id, version);
    assert(v[0] == d[0]);
    let c = seq!['C'] + d;
    assert(c[0] == 'C');
    assert(c.skip(1) =~= d);
}

/// Whether a report tells of a new fill of an order: it names the order by its number, with or
/// without a version; it is of one of the three types for fills; its status is partly filled or
/// filled; it gives a quantity that is not 0; it is no preview; and its execution id, if it has
/// one, was not seen.
pub open spec fn tells_new_fill(s: ReportState, v: Values, id: OrderId, qty: Qty) -> bool {
    &&& id != 0
    &&& v.contains_key(11) && (v[11] == dec(id as nat) || exists|k: u32|
        v[11] == #[trigger] versioned(id, k))
    &&& v.contains_key(150) && (v[150] == "F"@ || v[150] == "1"@ || v[150] == "2"@)
    &&& v.contains_key(39) && (v[39] == "1"@ || v[39] == "2"@)
    &&& v.contains_key(32) && parsed_qty(v[32]) == Some(qty as int)
    &&& qty > 0
    &&& !v.contains_key(6091)
    &&& v.contains_key(17) && v[17].len() > 0 ==> !s.ids.contains(v[17])
}

/// What a fill of a number of shares does to a position: a purchase adds them, a sale and a
/// short sale take them off.
pub open spec fn position_after(before: int, side: Side, shares: int, after: int) -> bool {
    &&& side == Side::Buy ==> after == before + shares
    &&& side == Side::Sell ==> after == before - shares
    &&& side == Side::ShortSell ==> after == before - shares
}

proof fn lemma_fill_codes(v: Values)
    requires
        v.contains_key(150) && (v[150] == "F"@ || v[150] == "1"@ || v[150] == "2"@),
    ensures
        !is_new_ack(v),
{
    reveal_strlit("0");
    reveal_strlit("F");
    reveal_strlit("1");
    reveal_strlit("2");
    assert("0"@[0] == '0' && "F"@[0] == 'F' && "1"@[0] == '1' && "2"@[0] == '2');
}

proof fn lemma_fill_status(v: Values, current: Option<OrderStatus>)
    requires
        v.contains_key(39) && (v[39] == "1"@ || v[39] == "2"@),
    ensures
        v[39] == "1"@ ==> reported_status(v, current) == Some(OrderStatus::PartiallyFilled),
        v[39] == "2"@ ==> reported_status(v, current) == Some(OrderStatus::Filled),
        "1"@ != "2"@,
{
    reveal_strlit("0");
    reveal_strlit("5");
    reveal_strlit("A");
    reveal_strlit("E");
    reveal_strlit("I");
    reveal_strlit("6");
    reveal_strlit("1");
    reveal_strlit("2");
    assert("0"@[0] == '0' && "5"@[0] == '5' && "A"@[0] == 'A' && "E"@[0] == 'E' && "I"@[0] == 'I'
        && "6"@[0] == '6' && "1"@[0] == '1' && "2"@[0] == '2');
}

proof fn lemma_report_names(v: Values, id: OrderId)
    requires
        v.contains_key(11) && (v[11] == dec(id as nat) || exists|k: u32|
            v[11] == #[trigger] versioned(id, k)),
        !is_new_ack(v),
    ensures
        report_order(v) == id,
{
    if v[11] == dec(id as nat) {
        law_client_order_id_names_its_order(id, 0);
    } else {
        let k = choose|k: u32| v[11] == #[trigger] versioned(id, k);
        law_client_order_id_names_its_order(id, k);
    }
}

/// A new fill of a tracked order moves the position in the order's instrument by the quantity
/// of the report: up for a purchase, down for a sale or a short sale. Clients see the same
/// position, no other position moves, the fill is told as it was reported, and the order counts
/// the quantity as filled. An order that is filled is tracked no longer, and told as completed.
pub proof fn law_new_fill_is_counted(
    s: ReportState,
    v: Values,
    n: Numbers,
    account: Seq<char>,
    id: OrderId,
    qty: Qty,
    o: Order,
)
    requires
        s.wf(),
        tells_new_fill(s, v, id, qty),
        s.c.order(id) == Some(o),
        i64::MIN <= s.c.positions[o.instrument as int] - qty,
        s.c.positions[o.instrument as int] + qty <= i64::MAX,
        o.filled_fixed + qty <= i64::MAX,
    ensures
        ({
            let after = exec_report(s, v, n, account);
            let i = o.instrument as int;
            &&& position_after(
                s.c.positions[i] as int,
                o.side,
                qty as int,
                after.c.positions[i] as int,
            )
            &&& after.portfolio.positions[o.instrument] == after.c.positions[i]
            &&& forall|j: int|
                0 <= j < MAX_INSTRUMENTS && j != i ==> #[trigger] after.c.positions[j]
                    == s.c.positions[j]
            &&& after.orders.fills.len() == s.orders.fills.len() + 1
            &&& after.orders.fills.drop_last() == s.orders.fills
            &&& ({
                let f = after.orders.fills.last().0;
                &&& f.order_id == id
                &&& f.instrument == o.instrument
                &&& f.side == o.side
                &&& f.qty_fixed == qty
                &&& n.contains_key(31) ==> f.price == n[31].scaled
                &&& n.contains_key(12) ==> f.commission == n[12].scaled
                &&& n.contains_key(6) ==> f.avg_price == n[6].rounded
                &&& v.contains_key(151) && parsed_qty(v[151]) is Some ==> f.remaining_fixed
                    == parsed_qty(v[151])->0
                &&& v.contains_key(14) && parsed_qty(v[14]) is Some ==> f.cum_qty_fixed
                    == parsed_qty(v[14])->0
                &&& v.contains_key(17) ==> after.orders.fills.last().1.exec_id == v[17]
            })
            &&& v[39] == "2"@ ==> {
                &&& after.c.order(id) is None
                &&& after.orders.completed.len() == s.orders.completed.len() + 1
                &&& after.orders.completed.last().order_id == id
                &&& after.orders.completed.last().instrument == o.instrument
                &&& after.orders.completed.last().status == OrderStatus::Filled
                &&& after.orders.completed.last().filled_qty_fixed == o.filled_fixed + qty
            }
            &&& v[39] == "1"@ ==> {
                &&& after.c.order(id) matches Some(now)
                &&& now.filled_fixed == o.filled_fixed + qty
                &&& now == (Order { filled_fixed: now.filled_fixed, status: now.status, ..o })
                &&& o.status == OrderStatus::PendingSubmit || o.status == OrderStatus::PreSubmitted
                    || o.status == OrderStatus::Submitted || o.status == OrderStatus::Uncertain
                    || o.status == OrderStatus::PartiallyFilled
                    || o.status == OrderStatus::PendingReplace
                    || o.status == OrderStatus::PendingCancel ==> now.status
                    == OrderStatus::PartiallyFilled
                &&& after.orders.completed == s.orders.completed
            }
            &&& forall|other: OrderId|
                other != id ==> #[trigger] after.c.order(other) == s.c.order(other)
        }),
{
    reveal(exec_report);
    lemma_fill_codes(v);
    lemma_report_names(v, id);
    lemma_fill_status(v, Some(o.status));
    let status = reported_status(v, Some(o.status))->0;
    let k = crate::engine::context::order_index(s.c.orders, id);
    assert(s.c.orders[k].instrument < MAX_INSTRUMENTS);
    assert(o.order_id == id);
    let s2 = ReportState {
        c: after_clord(s.c, v, id),
        ..s
    };
    assert(exec_report(s, v, n, account) == status_reported(s2, v, n, id, status, account));
    let s3 = status_applied(s2, v, id, status);
    let o3 = s3.c.order(id)->0;
    law_put_then_find(s.c.orders, Order { status, ..o }, id);
    lemma_put_distinct(s.c.orders, Order { status, ..o });
    let full = Order { filled_fixed: clamped(o3.filled_fixed + qty), ..o3 };
    law_put_then_find(s3.c.orders, full, id);
    lemma_put_distinct(s3.c.orders, full);
    let s4 = fill_counted(s3, v, id);
    assert(s4.c.order(id) == Some(full));
    let after = exec_report(s, v, n, account);
    assert forall|other: OrderId| other != id implies #[trigger] after.c.order(other)
        == s.c.order(other) by {
        law_put_then_find(s.c.orders, Order { status, ..o }, other);
        law_put_then_find(s3.c.orders, full, other);
        law_drop_then_find(s4.c.orders, id, other);
    }
    law_drop_then_find(s4.c.orders, id, id);
    assert(after.orders.fills.drop_last() =~= s.orders.fills);
}

/// Whether a plain report tells of a new fill of an order: it names the order by its number; it
/// is of one of the three types for fills; its status is partly filled or filled; it gives a
/// number of shares; and its execution id, if it has one, was not seen.
pub open spec fn tells_plain_fill(s: PlainReportView, v: Values, id: OrderId, shares: u32) -> bool {
    &&& v.contains_key(11) && v[11] == dec(id as nat)
    &&& v.contains_key(150) && (v[150] == "F"@ || v[150] == "1"@ || v[150] == "2"@)
    &&& v.contains_key(39) && (v[39] == "1"@ || v[39] == "2"@)
    &&& v.contains_key(32) && parsed_int(v[32], i64::MIN as int, i64::MAX as int) == Some(
        shares as int,
    )
    &&& shares > 0
    &&& v.contains_key(17) && v[17].len() > 0 ==> !s.seen.contains(v[17])
}

/// A new fill of a tracked order, told in a plain report, moves the position in the order's
/// instrument by the number of shares: up for a purchase, down for a sale or a short sale. No
/// other position moves, the strategy is told the fill, and the order counts the shares as
/// filled; one that is filled is tracked no longer.
pub proof fn law_plain_fill_is_counted(
    s: PlainReportView,
    v: Values,
    n: Numbers,
    id: OrderId,
    shares: u32,
    o: Order,
)
    requires
        s.c.wf(),
        tells_plain_fill(s, v, id, shares),
        s.c.order(id) == Some(o),
        i64::MIN <= s.c.positions[o.instrument as int] - shares * QTY_SCALE,
        s.c.positions[o.instrument as int] + shares * QTY_SCALE <= i64::MAX,
        o.filled_fixed + shares * QTY_SCALE <= i64::MAX,
    ensures
        ({
            let after = plain_report(s, v, n);
            let i = o.instrument as int;
            let k = s.events.len() as int;
            &&& position_after(
                s.c.positions[i] as int,
                o.side,
                shares * QTY_SCALE,
                after.c.positions[i] as int,
            )
            &&& forall|j: int|
                0 <= j < MAX_INSTRUMENTS && j != i ==> #[trigger] after.c.positions[j]
                    == s.c.positions[j]
            &&& after.events.len() > k
            &&& after.events.take(k) == s.events
            &&& after.events[k] matches StrategyEvent::Fill(f)
            &&& f.order_id == id
            &&& f.instrument == o.instrument
            &&& f.side == o.side
            &&& f.qty_fixed == shares * QTY_SCALE
            &&& n.contains_key(31) ==> f.price == n[31].scaled
            &&& n.contains_key(12) ==> f.commission == n[12].scaled
            &&& v[39] == "2"@ ==> after.c.order(id) is None
            &&& v[39] == "1"@ ==> after.c.order(id) == Some(
                Order {
                    status: OrderStatus::PartiallyFilled,
                    filled_fixed: (o.filled_fixed + shares * QTY_SCALE) as i64,
                    ..o
                },
            )
            &&& forall|other: OrderId|
                other != id ==> #[trigger] after.c.order(other) == s.c.order(other)
        }),
{
    lemma_fill_status(v, None);
    let d = dec(id as nat);
    lemma_dec_value(id as nat);
    assert(is_digit(d[0]));
    lemma_int_text_parses(id as int, 0, u64::MAX as int);
    assert(plain_order_id(v) == id);
    reveal_strlit("4");
    reveal_strlit("C");
    assert("4"@[0] == '4' && "C"@[0] == 'C');
    let status = plain_status(v)->0;
    assert(v[39] == "1"@ ==> status == OrderStatus::PartiallyFilled);
    assert(v[39] == "2"@ ==> status == OrderStatus::Filled);
    let k = crate::engine::context::order_index(s.c.orders, id);
    assert(s.c.orders[k].instrument < MAX_INSTRUMENTS);
    assert(o.order_id == id);
    let set = Order { status, ..o };
    law_put_then_find(s.c.orders, set, id);
    lemma_put_distinct(s.c.orders, set);
    let s1 = PlainReportView { c: s.c.with_status(id, status), ..s };
    assert(s1.c.order(id) == Some(set));
    let full = Order { filled_fixed: (o.filled_fixed + shares * QTY_SCALE) as i64, ..set };
    law_put_then_find(s1.c.orders, full, id);
    lemma_put_distinct(s1.c.orders, full);
    let s2 = plain_filled(s1, v, n, id);
    assert(shares as int % 0x1_0000_0000 == shares);
    assert(s2.c.order(id) == Some(full));
    let after = plain_report(s, v, n);
    assert forall|other: OrderId| other != id implies #[trigger] after.c.order(other)
        == s.c.order(other) by {
        law_put_then_find(s.c.orders, set, other);
        law_put_then_find(s1.c.orders, full, other);
        law_drop_then_find(s2.c.orders, id, other);
    }
    law_drop_then_find(s2.c.orders, id, id);
    assert(after.events.take(s.events.len() as int) =~= s.events);
}

} // verus!
