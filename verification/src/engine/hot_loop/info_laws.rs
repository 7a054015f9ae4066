//! What a report on an order is kept as.
use vstd::prelude::*;

use crate::bridge::ContractView;
use crate::engine::context::ContextView;
use crate::engine::hot_loop::exec_report::{
    contracts_after, order_info, order_state, rich_info, Values,
};
use crate::engine::order::{Order, OrderStatus, Side};
use crate::text::{int_text, lemma_int_text_parses};
use crate::types::{parsed_qty, OrderId};

verus! {

proof fn lemma_codes_differ()
    ensures
        "1"@ != "2"@ && "1"@ != "3"@ && "1"@ != "4"@ && "1"@ != "5"@ && "1"@ != "6"@ && "1"@
            != "8"@,
        "2"@ != "3"@ && "2"@ != "4"@ && "2"@ != "5"@ && "2"@ != "6"@ && "2"@ != "8"@,
        "3"@ != "4"@ && "3"@ != "5"@ && "3"@ != "6"@ && "3"@ != "8"@,
        "4"@ != "5"@ && "4"@ != "6"@ && "4"@ != "8"@ && "5"@ != "6"@ && "5"@ != "8"@ && "6"@
            != "8"@,
        "P"@ != "1"@ && "P"@ != "2"@ && "P"@ != "3"@ && "P"@ != "4"@ && "P"@ != "5"@,
        "B"@ != "1"@ && "B"@ != "2"@ && "B"@ != "3"@ && "B"@ != "4"@ && "B"@ != "5"@ && "B"@
            != "P"@,
        "J"@ != "1"@ && "J"@ != "2"@ && "J"@ != "3"@ && "J"@ != "4"@ && "J"@ != "5"@ && "J"@
            != "P"@ && "J"@ != "B"@,
        "K"@ != "1"@ && "K"@ != "2"@ && "K"@ != "3"@ && "K"@ != "4"@ && "K"@ != "5"@ && "K"@
            != "P"@ && "K"@ != "B"@ && "K"@ != "J"@,
        "R"@ != "1"@ && "R"@ != "2"@ && "R"@ != "3"@ && "R"@ != "4"@ && "R"@ != "5"@ && "R"@
            != "P"@ && "R"@ != "B"@ && "R"@ != "J"@ && "R"@ != "K"@,
        "0"@ != "1"@ && "0"@ != "2"@ && "0"@ != "3"@ && "0"@ != "4"@ && "0"@ != "6"@ && "0"@
            != "8"@,
{
    reveal_strlit("0");
    reveal_strlit("1");
    reveal_strlit("2");
    reveal_strlit("3");
    reveal_strlit("4");
    reveal_strlit("5");
    reveal_strlit("6");
    reveal_strlit("8");
    reveal_strlit("P");
    reveal_strlit("B");
    reveal_strlit("J");
    reveal_strlit("K");
    reveal_strlit("R");
    assert("0"@[0] == '0' && "1"@[0] == '1' && "2"@[0] == '2' && "3"@[0] == '3' && "4"@[0] == '4');
    assert("5"@[0] == '5' && "6"@[0] == '6' && "8"@[0] == '8' && "P"@[0] == 'P' && "B"@[0] == 'B');
    assert("J"@[0] == 'J' && "K"@[0] == 'K' && "R"@[0] == 'R');
}

proof fn lemma_names_are_set()
    ensures
        "MKT"@.len() > 0 && "LMT"@.len() > 0 && "STP"@.len() > 0 && "STP LMT"@.len() > 0
            && "TRAIL"@.len() > 0,
        "MOC"@.len() > 0 && "LOC"@.len() > 0 && "MIT"@.len() > 0 && "MTL"@.len() > 0 && "REL"@.len()
            > 0,
{
    reveal_strlit("MKT");
    reveal_strlit("LMT");
    reveal_strlit("STP");
    reveal_strlit("STP LMT");
    reveal_strlit("TRAIL");
    reveal_strlit("MOC");
    reveal_strlit("LOC");
    reveal_strlit("MIT");
    reveal_strlit("MTL");
    reveal_strlit("REL");
}

/// What a report says of an order is kept under names that clients know: its side, its type and
/// how long it is good for; and its quantities and prices as they were sent.
pub proof fn law_order_info_says_what_was_reported(
    v: Values,
    o: Option<Order>,
    id: OrderId,
    account: Seq<char>,
)
    ensures
        ({
            let i = order_info(v, o, id, account);
            &&& i.order_id == id
            &&& v.contains_key(54) ==> {
                &&& v[54] == "1"@ ==> i.action == "BUY"@
                &&& v[54] == "2"@ ==> i.action == "SELL"@
                &&& v[54] == "5"@ ==> i.action == "SSHORT"@
            }
            &&& !v.contains_key(54) && o is Some ==> {
                &&& o->0.side == Side::Buy ==> i.action == "BUY"@
                &&& o->0.side == Side::Sell ==> i.action == "SELL"@
                &&& o->0.side == Side::ShortSell ==> i.action == "SSHORT"@
            }
            &&& v.contains_key(40) ==> {
                &&& v[40] == "1"@ ==> i.order_type == "MKT"@
                &&& v[40] == "2"@ ==> i.order_type == "LMT"@
                &&& v[40] == "3"@ ==> i.order_type == "STP"@
                &&& v[40] == "4"@ ==> i.order_type == "STP LMT"@
                &&& v[40] == "P"@ ==> i.order_type == "TRAIL"@
                &&& v[40] == "5"@ ==> i.order_type == "MOC"@
                &&& v[40] == "B"@ ==> i.order_type == "LOC"@
                &&& v[40] == "J"@ ==> i.order_type == "MIT"@
                &&& v[40] == "K"@ ==> i.order_type == "MTL"@
                &&& v[40] == "R"@ ==> i.order_type == "REL"@
            }
            &&& v.contains_key(59) ==> {
                &&& v[59] == "0"@ ==> i.tif == "DAY"@
                &&& v[59] == "1"@ ==> i.tif == "GTC"@
                &&& v[59] == "2"@ ==> i.tif == "OPG"@
                &&& v[59] == "3"@ ==> i.tif == "IOC"@
                &&& v[59] == "4"@ ==> i.tif == "FOK"@
                &&& v[59] == "6"@ ==> i.tif == "GTD"@
                &&& v[59] == "8"@ ==> i.tif == "AUC"@
            }
            &&& v.contains_key(38) ==> i.total_quantity == v[38]
            &&& v.contains_key(44) ==> i.lmt_price == v[44]
            &&& v.contains_key(99) ==> i.aux_price == v[99]
            &&& v.contains_key(14) ==> i.filled_quantity == v[14]
            &&& v.contains_key(6117) ==> i.trail_stop_price == v[6117]
            &&& v.contains_key(847) ==> i.algo_strategy == v[847]
            &&& v.contains_key(1) && v[1].len() > 0 ==> i.account == v[1]
            &&& !v.contains_key(1) ==> i.account == account
            &&& i.outside_rth == (v.contains_key(6433) && v[6433] == "1"@)
        }),
{
    lemma_codes_differ();
    lemma_names_are_set();
}

/// What is kept of an order's state is its status by name; and for one that is finished, when
/// and how it ended.
pub proof fn law_order_state_says_how_it_ended(v: Values, status: OrderStatus)
    ensures
        ({
            let s = order_state(v, status);
            &&& status == OrderStatus::PendingSubmit ==> s.status == "PendingSubmit"@
            &&& status == OrderStatus::PreSubmitted ==> s.status == "PreSubmitted"@
            &&& status == OrderStatus::Submitted ==> s.status == "Submitted"@
            &&& status == OrderStatus::PartiallyFilled ==> s.status == "PartiallyFilled"@
            &&& status == OrderStatus::PendingReplace ==> s.status == "PendingReplace"@
            &&& status == OrderStatus::PendingCancel ==> s.status == "PendingCancel"@
            &&& status == OrderStatus::Uncertain ==> s.status == "Uncertain"@
            &&& status == OrderStatus::Filled ==> s.status == "Filled"@ && s.completed_status
                == "Filled"@
            &&& status == OrderStatus::Cancelled ==> s.status == "Cancelled"@ && s.completed_status
                == "Cancelled"@
            &&& status == OrderStatus::Rejected ==> s.status == "Rejected"@ && (if v.contains_key(
                58,
            ) {
                s.completed_status == v[58]
            } else {
                s.completed_status == "Rejected"@
            })
            &&& (status == OrderStatus::Filled || status == OrderStatus::Cancelled || status
                == OrderStatus::Rejected) && v.contains_key(52) ==> s.completed_time == v[52]
            &&& status != OrderStatus::Filled && status != OrderStatus::Cancelled && status
                != OrderStatus::Rejected ==> s.completed_time.len() == 0
                && s.completed_status.len() == 0
            &&& v.contains_key(12) ==> s.commission_and_fees == v[12]
        }),
{
}

/// What is kept of the last execution of an order: what was bought or sold, and at what price.
pub proof fn law_execution_says_what_was_reported(
    c: ContextView,
    known: Map<i64, ContractView>,
    v: Values,
    id: OrderId,
    o: Order,
    status: OrderStatus,
    account: Seq<char>,
)
    requires
        c.order(id) == Some(o),
    ensures
        ({
            let e = rich_info(c, known, v, id, status, account).last_exec;
            &&& e.order_id == id
            &&& o.side == Side::Buy ==> e.side == "BOT"@
            &&& o.side == Side::Sell ==> e.side == "SLD"@
            &&& o.side == Side::ShortSell ==> e.side == "SLD"@
            &&& v.contains_key(17) ==> e.exec_id == v[17]
            &&& v.contains_key(60) ==> e.time == v[60]
            &&& v.contains_key(1) ==> e.acct_number == v[1]
            &&& v.contains_key(30) ==> e.exchange == v[30]
            &&& v.contains_key(32) && parsed_qty(v[32]) is Some ==> e.shares == parsed_qty(
                v[32],
            )->0
            &&& v.contains_key(31) ==> e.price == v[31]
            &&& v.contains_key(14) ==> e.cum_qty == v[14]
            &&& v.contains_key(6) ==> e.avg_price == v[6]
        }),
{
}

/// A report that names a contract makes it known: with its symbol, its type under the name that
/// clients know, its exchange and its currency. The other contracts stay as they were known.
pub proof fn law_reported_contract_is_known(
    c: ContextView,
    known: Map<i64, ContractView>,
    v: Values,
    id: OrderId,
    con_id: i64,
)
    requires
        v.contains_key(6008) && v[6008] == int_text(con_id as int),
        con_id != 0,
    ensures
        ({
            let after = contracts_after(c, known, v, id);
            &&& after.contains_key(con_id)
            &&& !known.contains_key(con_id) ==> after[con_id].con_id == con_id
            &&& v.contains_key(55) && v[55].len() > 0 ==> after[con_id].symbol == v[55]
            &&& v.contains_key(167) && (v[167] == "CS"@ || v[167] == "COMMON"@)
                ==> after[con_id].sec_type == "STK"@
            &&& v.contains_key(167) && v[167] == "FOR"@ ==> after[con_id].sec_type == "CASH"@
            &&& v.contains_key(207) && v[207].len() > 0 ==> after[con_id].exchange == v[207]
            &&& v.contains_key(15) && v[15].len() > 0 ==> after[con_id].currency == v[15]
            &&& v.contains_key(6035) && v[6035].len() > 0 ==> after[con_id].local_symbol == v[6035]
            &&& forall|other: i64|
                other != con_id && known.contains_key(other) ==> #[trigger] after.contains_key(
                    other,
                ) && after[other] == known[other]
        }),
{
    lemma_int_text_parses(con_id as int, i64::MIN as int, i64::MAX as int);
    reveal_strlit("CS");
    reveal_strlit("COMMON");
    reveal_strlit("FOR");
    reveal_strlit("STK");
    reveal_strlit("CASH");
    assert("CS"@.len() == 2 && "COMMON"@.len() == 6 && "FOR"@.len() == 3 && "STK"@.len() == 3
        && "CASH"@.len() == 4);
}

} // verus!
