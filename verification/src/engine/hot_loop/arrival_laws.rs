//! What becomes of the messages that arrive.
use vstd::prelude::*;

use crate::bridge::{ContractView, Number};
use crate::engine::hot_loop::ccp::{
    match_of, processed, ArrivalView, CcpView, Decoded,
};
use crate::engine::hot_loop::exec_report::{exec_report, Values};
use crate::engine::hot_loop::farm::{pending_from, FarmView};
use crate::engine::hot_loop::lookup_replies::{after_schedule, contracts_learned, pair_by_key};
use crate::engine::hot_loop::lookups::{ContractDefinition, EventView, LookupView, Schedule};
use crate::engine::hot_loop::message_laws::law_order_connection_tells_messages_apart;
use crate::engine::hot_loop::numbers::{field_numbers, number_of, price_of};
use crate::engine::hot_loop::order_fields::FieldSeq;
use crate::engine::hot_loop::placing_laws::{lemma_one_field, says};
use crate::engine::hot_loop::plain_reports::{
    plain_answer, plain_position, plain_processed, plain_refusal, plain_report, PlainReportView,
};
use crate::engine::hot_loop::portfolio::{account_scan, text_parts, with_account_values};
use crate::engine::hot_loop::reading_laws::{
    is_plain_number, law_acknowledgement_is_read, law_setup_is_read, three_values,
};
use crate::engine::hot_loop::server_reports::{
    cancel_reject_of, refused_order, still_working,
};
use crate::engine::hot_loop::{after_ack, after_setup, mass_status_request};
use crate::engine::market_state::MarketView;
use crate::protocol::fix::fix_values;
use crate::text::{ascii, dec, int_text, lemma_int_text_parses};
use crate::types::MAX_INSTRUMENTS;

verus! {

/// Each message of the order connection does what its type is for: a report counts, a refusal is
/// taken in, an update sets the values of the account, a summary its net liquidation value, and a
/// test request is answered with a heartbeat that names it.
pub proof fn law_message_does_what_its_type_says(
    s: CcpView,
    msg: Seq<u8>,
    d: Decoded,
    a: ArrivalView,
)
    requires
        fix_values(msg).contains_key(35),
    ensures
        ({
            let v = fix_values(msg);
            let after = processed(s, msg, d, a);
            &&& v[35] == "8"@ ==> after.report == exec_report(
                s.report,
                v,
                field_numbers(v, d.numbers@),
                a.account,
            ) && after.lookups == s.lookups
            &&& v[35] == "9"@ && refused_order(v) is Some ==> {
                let id = refused_order(v)->0;
                &&& after.report.c == still_working(s.report.c, id)
                &&& after.report.orders.cancel_rejects == s.report.orders.cancel_rejects.push(
                    cancel_reject_of(s.report.c, v, id),
                )
            }
            &&& (v[35] == "UT"@ || v[35] == "UM"@ || v[35] == "RL"@) && vstd::utf8::valid_utf8(msg)
                ==> after.report.c.account == with_account_values(
                s.report.c.account,
                account_scan(text_parts(msg)).entries,
                d.numbers@,
            ) && after.report.portfolio.account == after.report.c.account && after.report.c.orders
                == s.report.c.orders
            &&& v[35] == "U"@ && v.contains_key(6040) && v[6040] == "77"@ && v.contains_key(9806)
                && price_of(d.numbers@, v[9806]) is Some ==> after.report.c.account.net_liquidation
                == price_of(d.numbers@, v[9806])->0 && after.report.c.account.buying_power
                == s.report.c.account.buying_power && after.report.c.account.margin_used
                == s.report.c.account.margin_used
            &&& v[35] == "1"@ && v.contains_key(112) && a.connected ==> {
                &&& after.lookups.outbox.len() == s.lookups.outbox.len() + 1
                &&& says(after.lookups.outbox.last(), 35, "0"@)
                &&& says(after.lookups.outbox.last(), 112, v[112])
                &&& after.report == s.report
            }
        }),
{
    let v = fix_values(msg);
    law_order_connection_tells_messages_apart(v);
    let after = processed(s, msg, d, a);
    if v[35] == "1"@ && v.contains_key(112) && a.connected {
        let m = after.lookups.outbox.last();
        lemma_one_field(m, 0, 35, "0"@);
        lemma_one_field(m, 2, 112, v[112]);
    }
}

/// The same holds of the plain order connection.
pub proof fn law_plain_message_does_what_its_type_says(
    s: PlainReportView,
    msg: Seq<u8>,
    table: Seq<(Seq<char>, Number)>,
    stamp: Seq<char>,
)
    requires
        fix_values(msg).contains_key(35),
    ensures
        ({
            let v = fix_values(msg);
            let n = field_numbers(v, table);
            let after = plain_processed(s, msg, table);
            &&& v[35] == "8"@ ==> after == plain_report(s, v, n)
            &&& v[35] == "9"@ ==> after == plain_refusal(s, v)
            &&& v[35] == "UP"@ ==> after.c == plain_position(s.c, v, n) && after.events == s.events
            &&& v[35] == "U"@ && v.contains_key(6040) && v[6040] == "77"@ && n.contains_key(9806)
                ==> after.c.account.net_liquidation == n[9806].scaled
                && after.c.account.buying_power == s.c.account.buying_power
            &&& v[35] == "1"@ && v.contains_key(112) ==> {
                &&& plain_answer(msg, stamp) is Some
                &&& says(plain_answer(msg, stamp)->0, 35, "0"@)
                &&& says(plain_answer(msg, stamp)->0, 112, v[112])
            }
            &&& v[35] == "8"@ || v[35] == "9"@ ==> plain_answer(msg, stamp) is None
        }),
{
    let v = fix_values(msg);
    law_order_connection_tells_messages_apart(v);
    if v[35] == "1"@ && v.contains_key(112) {
        let m = plain_answer(msg, stamp)->0;
        lemma_one_field(m, 0, 35, "0"@);
        lemma_one_field(m, 2, 112, v[112]);
    }
}

/// A bulletin is told with the next number, its text and its exchange: as one of the kinds 1, 2
/// and 3, where the server's kinds 8, 9 and 10 count as the first. One of another kind is not
/// told.
pub proof fn law_bulletin_is_told(
    s: CcpView,
    msg: Seq<u8>,
    d: Decoded,
    a: ArrivalView,
    kind: i32,
)
    requires
        fix_values(msg).contains_key(35) && fix_values(msg)[35] == "B"@,
        fix_values(msg).contains_key(61) && fix_values(msg)[61] == int_text(kind as int),
        s.bulletin_id < i32::MAX,
    ensures
        ({
            let v = fix_values(msg);
            let after = processed(s, msg, d, a);
            let told = after.bulletins.last();
            &&& kind == 1 || kind == 2 || kind == 3 || kind == 8 || kind == 9 || kind == 10 ==> {
                &&& after.bulletins.len() == s.bulletins.len() + 1
                &&& after.bulletin_id == s.bulletin_id + 1
                &&& told.msg_id == s.bulletin_id + 1
                &&& kind <= 3 ==> told.msg_type == kind
                &&& kind > 3 ==> told.msg_type == 1
                &&& v.contains_key(148) ==> told.message == v[148]
                &&& v.contains_key(207) ==> told.exchange == v[207]
            }
            &&& kind < 1 || (3 < kind < 8) || kind > 10 ==> after.bulletins == s.bulletins
                && after.bulletin_id == s.bulletin_id
            &&& after.report == s.report
        }),
{
    law_order_connection_tells_messages_apart(fix_values(msg));
    lemma_int_text_parses(kind as int, i32::MIN as int, i32::MAX as int);
}

/// A rejection, when a single lookup is under way, ends that lookup: it is told as an error with
/// the reason, and then the end.
pub proof fn law_rejected_lookup_is_told(s: CcpView, msg: Seq<u8>, d: Decoded, a: ArrivalView)
    requires
        fix_values(msg).contains_key(35) && fix_values(msg)[35] == "3"@,
        fix_values(msg).contains_key(58),
        s.lookups.secdefs.len() == 1,
        s.lookups.fanouts.len() == 0,
        s.lookups.secdefs[0].0 < 0xF000_0000,
    ensures
        ({
            let id = s.lookups.secdefs[0].0;
            let after = processed(s, msg, d, a);
            &&& after.lookups.secdefs.len() == 0
            &&& after.lookups.events == s.lookups.events.push(
                EventView::Error(
                    id,
                    200,
                    "contract details request rejected: "@ + fix_values(msg)[58],
                ),
            ).push(EventView::End(id))
            &&& after.report == s.report
        }),
{
    law_order_connection_tells_messages_apart(fix_values(msg));
}

/// A match is read with its contract, its symbol, its type and its currency.
pub proof fn law_match_is_read(v: Values, con_id: i64)
    requires
        v.contains_key(6008) && v[6008] == int_text(con_id as int),
    ensures
        ({
            let m = match_of(v);
            &&& m.con_id == con_id
            &&& v.contains_key(55) ==> m.symbol == v[55]
            &&& v.contains_key(167) ==> m.sec_type == v[167]
            &&& v.contains_key(15) ==> m.currency == v[15]
        }),
{
    lemma_int_text_parses(con_id as int, i64::MIN as int, i64::MAX as int);
}

/// The contract of a definition is known from then on, as it was defined; the others stay as
/// they were.
pub proof fn law_defined_contract_is_known(known: Map<i64, ContractView>, def: ContractDefinition)
    requires
        def.con_id != 0,
    ensures
        ({
            let after = contracts_learned(known, def);
            &&& after.contains_key(def.con_id)
            &&& after[def.con_id].con_id == def.con_id
            &&& after[def.con_id].symbol == def.symbol@
            &&& after[def.con_id].sec_type == def.sec_type@
            &&& after[def.con_id].exchange == def.exchange@
            &&& after[def.con_id].currency == def.currency@
            &&& after[def.con_id].local_symbol == def.local_symbol@
            &&& after[def.con_id].primary_exchange == def.primary_exchange@
            &&& after[def.con_id].trading_class == def.trading_class@
            &&& forall|other: i64|
                other != def.con_id && known.contains_key(other) ==> #[trigger] after.contains_key(
                    other,
                ) && after[other] == known[other]
        }),
{
}

/// Trading hours that come for a definition that waits for them are delivered with it: the hours
/// of trading as those of trading, and the liquid hours as those.
pub proof fn law_hours_join_their_definition(
    s: LookupView,
    key: Seq<char>,
    schedule: Schedule,
    i: int,
)
    requires
        pair_by_key(s.pairs, key, 0) == Some(i),
        0 <= i < s.pairs.len(),
    ensures
        ({
            let after = after_schedule(s, key, Some(schedule));
            let pair = s.pairs[i];
            let n = s.events.len() as int;
            &&& after.events.len() == n + (if pair.is_last {
                2int
            } else {
                1
            })
            &&& after.events[n] matches EventView::Details(id, def)
            &&& id == pair.api_req_id
            &&& def.con_id == pair.def.con_id
            &&& def.symbol == pair.def.symbol
            &&& def.trading_hours == Some(schedule.trading_hours)
            &&& def.liquid_hours == Some(schedule.liquid_hours)
            &&& schedule.timezone@.len() > 0 ==> def.time_zone_id == Some(schedule.timezone)
            &&& pair.is_last ==> after.events[n + 1] == EventView::End(pair.api_req_id)
        }),
{
}

/// An acknowledgement of a pending request gives the tag of the coming ticks and the price step
/// to the instrument that was asked for.
pub proof fn law_acknowledged_request_is_set_up(
    m: MarketView,
    f: FarmView,
    table: Seq<(Seq<char>, Number)>,
    tag: u32,
    req_id: u32,
    step: Seq<char>,
    i: int,
)
    requires
        m.wf(),
        f.wf(),
        is_plain_number(step),
        number_of(table, step) is Some,
        0 <= i < f.pending.len(),
        f.pending[i].0 == req_id,
        forall|j: int| 0 <= j < i ==> (#[trigger] f.pending[j]).0 != req_id,
    ensures
        ({
            let msg = seq![51u8, 53, 61, 81, 1] + ascii(
                three_values(dec(tag as nat), dec(req_id as nat), step),
            );
            let (market, farm) = after_ack(m, f, msg, table);
            let id = f.pending[i].1;
            &&& m.tagged(tag) is None ==> market.tagged(tag) == Some(id)
            &&& market.min_ticks[id as int] == number_of(table, step)->0.rounded
            &&& market.step_texts[id as int] == step
            &&& market.quotes == m.quotes
            &&& farm.pending == f.pending.remove(i)
            &&& farm.active == f.active
        }),
{
    law_acknowledgement_is_read(tag, req_id, step);
    lemma_pending(f.pending, req_id, 0, i);
    let id = f.pending[i].1;
    assert(id < MAX_INSTRUMENTS);
    crate::engine::hot_loop::farm::law_announced_tag_is_known(
        m,
        tag,
        id,
        (number_of(table, step)->0.rounded, step),
    );
}

proof fn lemma_pending(
    s: Seq<(u32, crate::types::InstrumentId)>,
    req_id: u32,
    from: int,
    i: int,
)
    requires
        0 <= from <= i < s.len(),
        s[i].0 == req_id,
        forall|j: int| from <= j < i ==> (#[trigger] s[j]).0 != req_id,
    ensures
        pending_from(s, req_id, from) == Some(i),
    decreases i - from,
{
    if from < i {
        assert(s[from].0 != req_id);
        lemma_pending(s, req_id, from + 1, i);
    }
}

/// The setup of a ticker of a registered contract gives the tag of the coming ticks and the price
/// step to its instrument.
pub proof fn law_ticker_is_set_up(
    m: MarketView,
    table: Seq<(Seq<char>, Number)>,
    con_id: i64,
    tag: u32,
    step: Seq<char>,
    id: crate::types::InstrumentId,
)
    requires
        m.wf(),
        is_plain_number(step),
        number_of(table, step) is Some,
        m.instrument_of(con_id) == Some(id),
        id < MAX_INSTRUMENTS,
    ensures
        ({
            let msg = seq![51u8, 53, 61, 76, 1] + ascii(
                three_values(int_text(con_id as int), step, dec(tag as nat)),
            );
            let market = after_setup(m, msg, table);
            &&& m.tagged(tag) is None ==> market.tagged(tag) == Some(id)
            &&& market.min_ticks[id as int] == number_of(table, step)->0.rounded
            &&& market.step_texts[id as int] == step
            &&& market.quotes == m.quotes
        }),
{
    law_setup_is_read(con_id, step, tag);
    crate::engine::hot_loop::farm::law_announced_tag_is_known(
        m,
        tag,
        id,
        (number_of(table, step)->0.rounded, step),
    );
}

/// The request for the status of all orders names all orders, sides and symbols.
pub proof fn law_status_request_names_all(stamp: Seq<char>)
    ensures
        ({
            let m: FieldSeq = mass_status_request(stamp);
            &&& says(m, 35, "H"@)
            &&& says(m, 11, "*"@)
            &&& says(m, 54, "*"@)
            &&& says(m, 55, "*"@)
        }),
{
    let m = mass_status_request(stamp);
    lemma_one_field(m, 0, 35, "H"@);
    lemma_one_field(m, 2, 11, "*"@);
    lemma_one_field(m, 3, 54, "*"@);
    lemma_one_field(m, 4, 55, "*"@);
}

} // verus!
