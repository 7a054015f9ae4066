//! What reports without a fill mean for the status of orders, and what listings and previews
//! give.
use vstd::prelude::*;

use crate::engine::context::{law_drop_then_find, law_put_then_find, lemma_put_distinct, versioned};
use crate::engine::hot_loop::exec_report::{
    after_clord, carries_fill, exec_report, is_new_ack, report_order, reported_status,
    status_applied, status_reported, Numbers, ReportState, Values,
};
use crate::engine::hot_loop::plain_reports::{
    plain_order_id, plain_report, plain_status, PlainReportView, StrategyEvent,
};
use crate::engine::hot_loop::report_laws::law_client_order_id_names_its_order;
use crate::engine::order::{Order, OrderStatus, Side};
use crate::text::{dec, is_digit, lemma_dec_value, lemma_int_text_parses, parsed_int};
use crate::types::{parsed_qty, OrderId};

verus! {

/// Whether a report names a tracked order by its number, with or without a version, and tells of
/// no fill and of no preview.
pub open spec fn tells_status(s: ReportState, v: Values, id: OrderId, o: Order, code: Seq<char>) -> bool {
    &&& id != 0
    &&& s.c.order(id) == Some(o)
    &&& v.contains_key(11) && (v[11] == dec(id as nat) || exists|k: u32|
        v[11] == #[trigger] versioned(id, k))
    &&& v.contains_key(39) && v[39] == code
    &&& v.contains_key(150) ==> v[150] != "F"@ && v[150] != "1"@ && v[150] != "2"@
    &&& !v.contains_key(6091)
    &&& !v.contains_key(6121)
}

/// Whether a report says where an order was routed to.
pub open spec fn is_routed(v: Values) -> bool {
    (v.contains_key(100) && v[100].len() > 0) || (v.contains_key(198) && v[198].len() > 0 && v[198]
        != "NONE"@)
}

/// Whether an order has not been acknowledged yet, or its state was lost.
pub open spec fn is_unsettled(status: OrderStatus) -> bool {
    status == OrderStatus::PendingSubmit || status == OrderStatus::Uncertain
}

proof fn lemma_codes(v: Values, current: Option<OrderStatus>)
    requires
        v.contains_key(39),
    ensures
        v[39] == "0"@ || v[39] == "5"@ ==> reported_status(v, current) == Some(
            if is_routed(v) {
                OrderStatus::Submitted
            } else {
                OrderStatus::PreSubmitted
            },
        ),
        v[39] == "A"@ ==> reported_status(v, current) == Some(OrderStatus::PreSubmitted),
        v[39] == "E"@ || v[39] == "I"@ ==> reported_status(v, current) == current,
        v[39] == "4"@ || v[39] == "C"@ ==> reported_status(v, current) == Some(
            OrderStatus::Cancelled,
        ),
        v[39] == "D"@ ==> reported_status(v, current) == Some(OrderStatus::PendingCancel),
        v[39] == "8"@ ==> reported_status(v, current) == Some(OrderStatus::Rejected),
        v[39] == "1"@ ==> reported_status(v, current) == Some(OrderStatus::PartiallyFilled),
        v[39] == "2"@ ==> reported_status(v, current) == Some(OrderStatus::Filled),
        v[39] != "0"@ && v[39] != "5"@ && v[39] != "A"@ && v[39] != "E"@ && v[39] != "I"@ && v[39]
            != "6"@ && v[39] != "1"@ && v[39] != "2"@ && v[39] != "4"@ && v[39] != "C"@ && v[39]
            != "D"@ && v[39] != "8"@ ==> reported_status(v, current) is None,
        v[39] == "0"@ || v[39] == "5"@ || v[39] == "A"@ || v[39] == "4"@ || v[39] == "C"@ || v[39]
            == "D"@ || v[39] == "8"@ ==> v[39] != "E"@ && v[39] != "I"@,
{
    reveal_strlit("0");
    reveal_strlit("1");
    reveal_strlit("2");
    reveal_strlit("4");
    reveal_strlit("5");
    reveal_strlit("6");
    reveal_strlit("8");
    reveal_strlit("A");
    reveal_strlit("C");
    reveal_strlit("D");
    reveal_strlit("E");
    reveal_strlit("I");
    assert("0"@[0] == '0' && "1"@[0] == '1' && "2"@[0] == '2' && "4"@[0] == '4' && "5"@[0] == '5'
        && "6"@[0] == '6' && "8"@[0] == '8');
    assert("A"@[0] == 'A' && "C"@[0] == 'C' && "D"@[0] == 'D' && "E"@[0] == 'E' && "I"@[0] == 'I');
}

proof fn lemma_names(v: Values, id: OrderId)
    requires
        v.contains_key(11) && (v[11] == dec(id as nat) || exists|k: u32|
            v[11] == #[trigger] versioned(id, k)),
        !v.contains_key(6121),
    ensures
        report_order(v) == id,
{
    if v[11] == dec(id as nat) {
        law_client_order_id_names_its_order(id, 0);
    } else {
        let k = choose|k: u32| v[11] == #[trigger] versioned(id, k);
        law_client_order_id_names_its_order(id, k);
    }
}

/// A report without a fill moves no position and tells no fill.
proof fn lemma_status_report(
    s: ReportState,
    v: Values,
    n: Numbers,
    account: Seq<char>,
    id: OrderId,
    o: Order,
    code: Seq<char>,
) -> (s2: ReportState)
    requires
        s.wf(),
        tells_status(s, v, id, o, code),
    ensures
        s2 == (ReportState { c: after_clord(s.c, v, id), ..s }),
        s2.c.order(id) == Some(o),
        o.order_id == id,
        !carries_fill(v),
        reported_status(v, Some(o.status)) matches Some(status) ==> exec_report(s, v, n, account)
            == status_reported(s2, v, n, id, status, account),
        reported_status(v, Some(o.status)) is None ==> exec_report(s, v, n, account) == s2,
{
    reveal(exec_report);
    lemma_names(v, id);
    let s2 = ReportState { c: after_clord(s.c, v, id), ..s };
    if !v.contains_key(150) {
        reveal_strlit("F");
        reveal_strlit("1");
        reveal_strlit("2");
        let none = Seq::<char>::empty();
        assert("F"@.len() == 1 && "1"@.len() == 1 && "2"@.len() == 1);
    }
    s2
}

/// A report that says that an order was cancelled or rejected ends the order: it is tracked no
/// longer, and is told as completed with its status and what of it was filled. A rejection is
/// told as an error, with its reason. No position moves and no fill is told.
pub proof fn law_ended_order_is_completed(
    s: ReportState,
    v: Values,
    n: Numbers,
    account: Seq<char>,
    id: OrderId,
    o: Order,
)
    requires
        s.wf(),
        v.contains_key(39),
        tells_status(s, v, id, o, v[39]),
        v[39] == "4"@ || v[39] == "C"@ || v[39] == "8"@,
        o.status != OrderStatus::Filled && o.status != OrderStatus::Cancelled && o.status
            != OrderStatus::Rejected,
    ensures
        ({
            let after = exec_report(s, v, n, account);
            let status = if v[39] == "8"@ {
                OrderStatus::Rejected
            } else {
                OrderStatus::Cancelled
            };
            &&& after.c.order(id) is None
            &&& after.c.finished.contains_key(id) && after.c.finished[id] == status
            &&& after.orders.completed.len() == s.orders.completed.len() + 1
            &&& after.orders.completed.last().order_id == id
            &&& after.orders.completed.last().instrument == o.instrument
            &&& after.orders.completed.last().status == status
            &&& after.orders.completed.last().filled_qty_fixed == o.filled_fixed
            &&& v[39] == "8"@ && v.contains_key(58) ==> after.orders.errors == s.orders.errors.push(
                (id, 201i64, "Order rejected - reason:"@ + v[58]),
            )
            &&& v[39] != "8"@ ==> after.orders.errors == s.orders.errors
            &&& after.c.positions == s.c.positions
            &&& after.portfolio == s.portfolio
            &&& after.orders.fills == s.orders.fills
            &&& forall|other: OrderId|
                other != id ==> #[trigger] after.c.order(other) == s.c.order(other)
        }),
{
    let s2 = lemma_status_report(s, v, n, account, id, o, v[39]);
    lemma_codes(v, Some(o.status));
    reveal_strlit("8");
    reveal_strlit("4");
    reveal_strlit("C");
    assert("8"@[0] == '8' && "4"@[0] == '4' && "C"@[0] == 'C');
    let status = reported_status(v, Some(o.status))->0;
    let set = Order { status, ..o };
    let s3 = status_applied(s2, v, id, status);
    law_put_then_find(s.c.orders, set, id);
    lemma_put_distinct(s.c.orders, set);
    law_drop_then_find(s3.c.orders, id, id);
    let after = exec_report(s, v, n, account);
    assert forall|other: OrderId| other != id implies #[trigger] after.c.order(other) == s.c.order(
        other,
    ) by {
        law_put_then_find(s.c.orders, set, other);
        law_drop_then_find(s3.c.orders, id, other);
    }
}

/// A report that says that an order works sets its status, and tells it: submitted when the report
/// says where the order was routed to, and presubmitted before that. One that says that a cancel
/// is pending sets that status. What was filled, what remains and the average price are told as
/// the report gives them. No position moves and no fill is told.
pub proof fn law_working_order_is_told(
    s: ReportState,
    v: Values,
    n: Numbers,
    account: Seq<char>,
    id: OrderId,
    o: Order,
)
    requires
        s.wf(),
        v.contains_key(39),
        tells_status(s, v, id, o, v[39]),
        v[39] == "0"@ || v[39] == "5"@ || v[39] == "A"@ || v[39] == "D"@,
        is_unsettled(o.status),
    ensures
        ({
            let after = exec_report(s, v, n, account);
            let status = if v[39] == "D"@ {
                OrderStatus::PendingCancel
            } else if v[39] == "A"@ || !is_routed(v) {
                OrderStatus::PreSubmitted
            } else {
                OrderStatus::Submitted
            };
            let u = after.orders.updates.last();
            &&& after.c.order(id) == Some(Order { status, ..o })
            &&& after.orders.updates.len() == s.orders.updates.len() + 1
            &&& after.orders.updates.drop_last() == s.orders.updates
            &&& u.order_id == id
            &&& u.instrument == o.instrument
            &&& u.status == status
            &&& v.contains_key(14) && parsed_qty(v[14]) is Some ==> u.filled_qty_fixed
                == parsed_qty(v[14])->0
            &&& !v.contains_key(14) ==> u.filled_qty_fixed == o.filled_fixed
            &&& v.contains_key(151) && parsed_qty(v[151]) is Some ==> u.remaining_qty_fixed
                == parsed_qty(v[151])->0
            &&& n.contains_key(6) ==> u.avg_fill_price == n[6].rounded
            &&& after.orders.errors == s.orders.errors
            &&& after.orders.completed == s.orders.completed
            &&& after.orders.fills == s.orders.fills
            &&& after.c.positions == s.c.positions
            &&& after.portfolio == s.portfolio
            &&& forall|other: OrderId|
                other != id ==> #[trigger] after.c.order(other) == s.c.order(other)
        }),
{
    let s2 = lemma_status_report(s, v, n, account, id, o, v[39]);
    lemma_codes(v, Some(o.status));
    reveal_strlit("0");
    reveal_strlit("5");
    reveal_strlit("A");
    reveal_strlit("D");
    assert("0"@[0] == '0' && "5"@[0] == '5' && "A"@[0] == 'A' && "D"@[0] == 'D');
    let status = reported_status(v, Some(o.status))->0;
    let set = Order { status, ..o };
    law_put_then_find(s.c.orders, set, id);
    let after = exec_report(s, v, n, account);
    assert forall|other: OrderId| other != id implies #[trigger] after.c.order(other) == s.c.order(
        other,
    ) by {
        law_put_then_find(s.c.orders, set, other);
    }
    assert(after.orders.updates.drop_last() =~= s.orders.updates);
}

/// A report whose status is not known changes nothing but the client order id of the order.
pub proof fn law_strange_status_changes_nothing(
    s: ReportState,
    v: Values,
    n: Numbers,
    account: Seq<char>,
    id: OrderId,
    o: Order,
)
    requires
        s.wf(),
        v.contains_key(39),
        tells_status(s, v, id, o, v[39]),
        v[39] != "0"@ && v[39] != "5"@ && v[39] != "A"@ && v[39] != "E"@ && v[39] != "I"@ && v[39]
            != "6"@ && v[39] != "1"@ && v[39] != "2"@ && v[39] != "4"@ && v[39] != "C"@ && v[39]
            != "D"@ && v[39] != "8"@,
    ensures
        ({
            let after = exec_report(s, v, n, account);
            &&& after.orders == s.orders
            &&& after.c.orders == s.c.orders
            &&& after.c.positions == s.c.positions
            &&& after.portfolio == s.portfolio
        }),
{
    let s2 = lemma_status_report(s, v, n, account, id, o, v[39]);
    lemma_codes(v, Some(o.status));
}

/// A report that lists an order of an earlier session, of a registered contract, tracks it: under
/// the id that it carries, on its side, with its quantity and prices.
pub proof fn law_listed_order_is_tracked(
    s: ReportState,
    v: Values,
    n: Numbers,
    account: Seq<char>,
    id: OrderId,
    con_id: i64,
)
    requires
        s.wf(),
        id != 0,
        s.c.order(id) is None,
        v.contains_key(150) && v[150] == "0"@,
        v.contains_key(39) && v[39] == "0"@,
        v.contains_key(6121) && v[6121] == dec(id as nat),
        !v.contains_key(6091),
        v.contains_key(6008) && parsed_int(v[6008], i64::MIN as int, i64::MAX as int) == Some(
            con_id as int,
        ),
        con_id != 0,
        s.c.market.con_ids.contains(con_id),
        v.contains_key(38) && parsed_qty(v[38]) is Some && parsed_qty(v[38])->0 > 0,
    ensures
        ({
            let after = exec_report(s, v, n, account);
            &&& after.c.order(id) matches Some(o)
            &&& o.order_id == id
            &&& s.c.market.con_ids[o.instrument as int] == con_id
            &&& v.contains_key(54) && v[54] == "1"@ ==> o.side == Side::Buy
            &&& v.contains_key(54) && v[54] == "2"@ ==> o.side == Side::Sell
            &&& v.contains_key(54) && v[54] == "5"@ ==> o.side == Side::ShortSell
            &&& o.qty_fixed == parsed_qty(v[38])->0
            &&& o.filled_fixed == 0
            &&& n.contains_key(44) ==> o.price == n[44].scaled
            &&& n.contains_key(99) ==> o.stop_price == n[99].scaled
            &&& after.c.positions == s.c.positions
            &&& forall|other: OrderId|
                other != id ==> #[trigger] after.c.order(other) == s.c.order(other)
        }),
{
    reveal(exec_report);
    lemma_int_text_parses(id as int, 0, u64::MAX as int);
    assert(is_new_ack(v));
    assert(report_order(v) == id);
    lemma_codes(v, None);
    lemma_codes(v, Some(OrderStatus::Submitted));
    reveal_strlit("0");
    reveal_strlit("1");
    reveal_strlit("2");
    reveal_strlit("5");
    reveal_strlit("F");
    assert("0"@[0] == '0' && "1"@[0] == '1' && "2"@[0] == '2' && "5"@[0] == '5' && "F"@[0] == 'F');
    assert(!carries_fill(v));
    let c1 = crate::engine::hot_loop::exec_report::after_listing(s.c, v, n, id);
    let market = crate::engine::hot_loop::exec_report::listed_market(s.c.market, v);
    let instrument = market.instrument_of(con_id)->0;
    let listed = crate::engine::hot_loop::exec_report::listed_order(v, n, id, instrument);
    assert(market.con_ids == s.c.market.con_ids);
    let k = s.c.market.con_ids.index_of(con_id);
    assert(0 <= k < s.c.market.con_ids.len() && s.c.market.con_ids[k] == con_id);
    assert(instrument as int == k);
    law_put_then_find(s.c.orders, listed, id);
    lemma_put_distinct(s.c.orders, listed);
    let s2 = ReportState {
        c: after_clord(c1, v, id),
        instrument_count: c1.market.con_ids.len() as u32,
        ..s
    };
    assert(s2.c.order(id) == Some(listed));
    let status = reported_status(v, Some(listed.status))->0;
    let after = exec_report(s, v, n, account);
    let set = Order { status, ..listed };
    law_put_then_find(s2.c.orders, set, id);
    assert forall|other: OrderId| other != id implies #[trigger] after.c.order(other) == s.c.order(
        other,
    ) by {
        law_put_then_find(s.c.orders, listed, other);
        law_put_then_find(s2.c.orders, set, other);
    }
}

// ---------------------------------------------------------------------------------------
// Plain reports
// ---------------------------------------------------------------------------------------

/// The status that the code of a plain report stands for.
pub open spec fn plain_code(code: Seq<char>) -> Option<OrderStatus> {
    if code == "0"@ || code == "A"@ || code == "E"@ || code == "5"@ {
        Some(OrderStatus::Submitted)
    } else if code == "4"@ || code == "C"@ {
        Some(OrderStatus::Cancelled)
    } else if code == "8"@ {
        Some(OrderStatus::Rejected)
    } else {
        None
    }
}

/// A plain report without a fill gives a tracked order its status, and the strategy is told when
/// it is news. An order that was cancelled or rejected is tracked no longer. No position moves.
pub proof fn law_plain_status_is_told(
    s: PlainReportView,
    v: Values,
    n: Numbers,
    id: OrderId,
    o: Order,
    status: OrderStatus,
)
    requires
        s.c.wf(),
        s.c.order(id) == Some(o),
        v.contains_key(11) && (v[11] == dec(id as nat) || v[11] == seq!['C'] + dec(id as nat)),
        v.contains_key(39) && plain_code(v[39]) == Some(status),
        v.contains_key(150) ==> v[150] != "F"@ && v[150] != "1"@ && v[150] != "2"@,
        o.status != status,
    ensures
        ({
            let after = plain_report(s, v, n);
            &&& status == OrderStatus::Submitted ==> after.c.order(id) == Some(
                Order { status, ..o },
            )
            &&& status != OrderStatus::Submitted ==> after.c.order(id) is None
            &&& after.events.len() == s.events.len() + 1
            &&& after.events.last() matches StrategyEvent::Update(u)
            &&& u.order_id == id
            &&& u.instrument == o.instrument
            &&& u.status == status
            &&& u.filled_qty_fixed == o.filled_fixed
            &&& after.c.positions == s.c.positions
            &&& forall|other: OrderId|
                other != id ==> #[trigger] after.c.order(other) == s.c.order(other)
        }),
{
    let d = dec(id as nat);
    lemma_dec_value(id as nat);
    assert(is_digit(d[0]));
    lemma_int_text_parses(id as int, 0, u64::MAX as int);
    if v[11] != d {
        assert(v[11][0] == 'C');
        assert(v[11].skip(1) =~= d);
    }
    assert(plain_order_id(v) == id);
    reveal_strlit("0");
    reveal_strlit("1");
    reveal_strlit("2");
    reveal_strlit("4");
    reveal_strlit("5");
    reveal_strlit("8");
    reveal_strlit("A");
    reveal_strlit("C");
    reveal_strlit("E");
    reveal_strlit("F");
    assert("0"@[0] == '0' && "1"@[0] == '1' && "2"@[0] == '2' && "4"@[0] == '4' && "5"@[0] == '5'
        && "8"@[0] == '8' && "A"@[0] == 'A' && "C"@[0] == 'C' && "E"@[0] == 'E');
    assert("F"@.len() == 1 && "1"@.len() == 1 && "2"@.len() == 1);
    assert(plain_status(v) == Some(status));
    assert(o.order_id == id);
    let set = Order { status, ..o };
    let c1 = s.c.with_status(id, status);
    law_put_then_find(s.c.orders, set, id);
    lemma_put_distinct(s.c.orders, set);
    law_drop_then_find(c1.orders, id, id);
    let after = plain_report(s, v, n);
    assert forall|other: OrderId| other != id implies #[trigger] after.c.order(other) == s.c.order(
        other,
    ) by {
        law_put_then_find(s.c.orders, set, other);
        law_drop_then_find(c1.orders, id, other);
    }
}

} // verus!
