//! Commissions, refused cancels and bulletins, and the requests of the order connection that
//! need no answer.
use std::collections::HashMap;
use vstd::prelude::*;

use crate::bridge::{
    text_of_option, CancelReject, CommissionReport, CommissionReportView, NewsBulletin,
    NewsBulletinView, Number, OrderReports, OrderReportsView,
};
use crate::engine::context::{Context, ContextView};
use crate::engine::hot_loop::exec_ids::{
    commission_is_new, commission_seen, CommissionWindow, EXEC_ID_WINDOW,
};
use crate::engine::hot_loop::exec_report::{
    clord_order, i32_field, int_field, parse_clord, Numbers, Values,
};
use crate::engine::hot_loop::order_builder::field_lists;
use crate::engine::order::OrderStatus;
use crate::protocol::fix::{
    field_or_empty, get_field, lookup, lookup_or_empty, map_texts, Fields, SOH, TAG_MSG_TYPE,
    TAG_SENDING_TIME, TAG_TEST_REQ_ID,
};
use crate::text::{
    bytes_at, dec, format_int, from_utf8_lossy, int_text, join, occurs_at, read_text, slice_vec,
    split, split_bytes, views,
};
use crate::types::InstrumentId;

verus! {

broadcast use vstd::std_specs::hash::group_hash_axioms;

// ---------------------------------------------------------------------------------------
// Single values
// ---------------------------------------------------------------------------------------

/// What follows a prefix in the first piece that starts with it, from the piece at `i` on.
pub open spec fn value_behind(pieces: Seq<Seq<u8>>, prefix: Seq<u8>, i: int) -> Option<Seq<char>>
    decreases pieces.len() - i,
{
    if i < 0 || i >= pieces.len() {
        None
    } else if occurs_at(pieces[i], prefix, 0) {
        Some(read_text(pieces[i].skip(prefix.len() as int)))
    } else {
        value_behind(pieces, prefix, i + 1)
    }
}

/// The value of the first field of a message that starts with a tag and an equals sign.
pub open spec fn tag_value(msg: Seq<u8>, prefix: Seq<char>) -> Option<Seq<char>> {
    value_behind(split(msg, SOH), vstd::utf8::encode_utf8(prefix), 0)
}

/// The value of the first field of a message that starts with `prefix`, a tag and an equals
/// sign.
pub fn extract_tag_value(msg: &[u8], prefix: &str) -> (r: Option<String>)
    ensures
        text_of_option(r) == tag_value(msg@, prefix@),
{
    let wanted = prefix.as_bytes();
    let pieces = split_bytes(msg, SOH);
    let ghost p = views(pieces@);
    let mut i: usize = 0;
    while i < pieces.len()
        invariant
            i <= pieces.len(),
            p == views(pieces@),
            p == split(msg@, SOH),
            wanted@ == vstd::utf8::encode_utf8(prefix@),
            tag_value(msg@, prefix@) == value_behind(p, wanted@, i as int),
        decreases pieces.len() - i,
    {
        proof {
            assert(p[i as int] == pieces@[i as int]@);
        }
        if bytes_at(pieces[i].as_slice(), wanted, 0) {
            let rest = slice_vec(pieces[i].as_slice(), wanted.len(), pieces[i].len());
            proof {
                assert(rest@ =~= p[i as int].skip(wanted@.len() as int));
            }
            return Some(from_utf8_lossy(rest.as_slice()));
        }
        i = i + 1;
    }
    None
}

// ---------------------------------------------------------------------------------------
// Commissions
// ---------------------------------------------------------------------------------------

/// The value of a field that is a number.
pub open spec fn number_text(v: Values, n: Numbers, tag: u32) -> Option<Seq<char>> {
    if n.contains_key(tag) {
        lookup(v, tag)
    } else {
        None
    }
}

fn number_text_of(m: &HashMap<u32, String>, n: &HashMap<u32, Number>, tag: u32) -> (r: Option<
    String,
>)
    ensures
        text_of_option(r) == number_text(map_texts(m@), n@, tag),
{
    if n.contains_key(&tag) {
        match get_field(m, tag) {
            Some(s) => Some(s.clone()),
            None => None,
        }
    } else {
        None
    }
}

/// Whether a commission report says anything: it names an execution, and carries a commission
/// or says that there is none to come.
pub open spec fn is_commission(v: Values, n: Numbers) -> bool {
    lookup_or_empty(v, 17) != Seq::<char>::empty() && (number_text(v, n, 6378) is Some
        || v.contains_key(8189))
}

/// What a commission report says. A realized profit of 0 is one that is not set, and so is a
/// redemption date that is not 8 bytes long.
pub open spec fn commission_of(v: Values, n: Numbers) -> CommissionReportView {
    CommissionReportView {
        exec_id: lookup_or_empty(v, 17),
        commission_and_fees: match number_text(v, n, 6378) {
            Some(t) => t,
            None => Seq::empty(),
        },
        currency: lookup_or_empty(v, 6381),
        realized_pnl: if n.contains_key(6099) && n[6099].zero {
            None
        } else {
            number_text(v, n, 6099)
        },
        yield_amount: number_text(v, n, 236),
        yield_redemption_date: if vstd::utf8::encode_utf8(lookup_or_empty(v, 696)).len() == 8 {
            lookup_or_empty(v, 696)
        } else {
            Seq::empty()
        },
    }
}

/// Takes in a commission report. `n` holds what those of its fields that read as decimal
/// numbers stand for. A report that says nothing, and one that was seen in the same or a later
/// revision, changes nothing.
pub fn handle_commission_report(
    m: &HashMap<u32, String>,
    n: &HashMap<u32, Number>,
    commissions: &mut CommissionWindow,
    orders: &mut OrderReports,
)
    requires
        old(commissions)@.len() <= EXEC_ID_WINDOW,
    ensures
        final(commissions)@.len() <= EXEC_ID_WINDOW,
        ({
            let v = map_texts(m@);
            if is_commission(v, n@) {
                &&& final(commissions)@ == commission_seen(
                    old(commissions)@,
                    lookup_or_empty(v, 17),
                )
                &&& final(orders)@ == if commission_is_new(
                    old(commissions)@,
                    lookup_or_empty(v, 17),
                ) {
                    OrderReportsView {
                        commissions: old(orders)@.commissions.push(commission_of(v, n@)),
                        ..old(orders)@
                    }
                } else {
                    old(orders)@
                }
            } else {
                final(commissions)@ == old(commissions)@ && final(orders)@ == old(orders)@
            }
        }),
{
    let exec_id = field_or_empty(m, 17);
    let exec_len: usize = chars_len(exec_id.as_str());
    if exec_len == 0 {
        return ;
    }
    let commission = number_text_of(m, n, 6378);
    if commission.is_none() && get_field(m, 8189).is_none() {
        return ;
    }
    if !commissions.record(exec_id.as_str()) {
        return ;
    }
    let zero_pnl = match n.get(&6099) {
        Some(x) => x.zero,
        None => false,
    };
    let date = field_or_empty(m, 696);
    let date_len: usize = date.as_str().as_bytes().len();
    let report = CommissionReport {
        exec_id,
        commission_and_fees: match commission {
            Some(t) => t,
            None => String::new(),
        },
        currency: field_or_empty(m, 6381),
        realized_pnl: if zero_pnl {
            None
        } else {
            number_text_of(m, n, 6099)
        },
        yield_amount: number_text_of(m, n, 236),
        yield_redemption_date: if date_len == 8 {
            date
        } else {
            String::new()
        },
    };
    orders.push_commission_report(report);
}

fn chars_len(s: &str) -> (r: usize)
    ensures
        r == 0 <==> s@ == Seq::<char>::empty(),
{
    let chars = crate::text::chars_of(s);
    proof {
        if s@.len() == 0 {
            assert(s@ =~= Seq::empty());
        }
    }
    chars.len()
}

// ---------------------------------------------------------------------------------------
// Refused cancels
// ---------------------------------------------------------------------------------------

/// The order whose cancel or replace request was refused.
pub open spec fn refused_order(v: Values) -> Option<u64> {
    match lookup(v, 41) {
        Some(t) => match clord_order(t) {
            Some(id) => Some(id as u64),
            None => None,
        },
        None => None,
    }
}

/// The refusal of a cancel or replace request.
pub open spec fn cancel_reject_of(c: ContextView, v: Values, id: u64) -> CancelReject {
    CancelReject {
        order_id: id,
        instrument: match c.order(id) {
            Some(o) => o.instrument,
            None => 0,
        },
        reject_type: int_field(v, 434, 0, 255, 1) as u8,
        reason_code: int_field(v, 102, i32::MIN as int, i32::MAX as int, -1) as i32,
        timestamp_ns: c.now_ns,
    }
}

/// The context after a refusal: the order works on.
pub open spec fn still_working(c: ContextView, id: u64) -> ContextView {
    match c.order(id) {
        Some(o) => c.with_status(
            id,
            if o.filled_fixed > 0 {
                OrderStatus::PartiallyFilled
            } else {
                OrderStatus::Submitted
            },
        ),
        None => c,
    }
}

/// The reports after a refusal. An order that the server does not know is forgotten.
pub open spec fn refusal_reported(r: OrderReportsView, reject: CancelReject) -> OrderReportsView {
    OrderReportsView {
        cancel_rejects: r.cancel_rejects.push(reject),
        infos: if reject.reason_code == 1 {
            r.infos.remove(reject.order_id)
        } else {
            r.infos
        },
        ..r
    }
}

/// Takes in the refusal of a cancel or replace request: the order, if it is tracked, works on,
/// and the refusal is reported. One that names no order changes nothing.
pub fn handle_cancel_reject(
    m: &HashMap<u32, String>,
    context: &mut Context,
    orders: &mut OrderReports,
)
    requires
        old(context)@.wf(),
    ensures
        final(context)@.wf(),
        match refused_order(map_texts(m@)) {
            Some(id) => {
                &&& final(context)@ == still_working(old(context)@, id)
                &&& final(orders)@ == refusal_reported(
                    old(orders)@,
                    cancel_reject_of(old(context)@, map_texts(m@), id),
                )
            },
            None => final(context)@ == old(context)@ && final(orders)@ == old(orders)@,
        },
{
    let id = match get_field(m, 41) {
        Some(s) => match parse_clord(s.as_str()) {
            Some(id) => id,
            None => return ,
        },
        None => return ,
    };
    let reject_type: u8 = match get_field(m, 434) {
        Some(s) => match crate::text::parse_unsigned(s.as_str(), 255) {
            Some(t) => t as u8,
            None => 1,
        },
        None => 1,
    };
    let reason_code = i32_field(m, 102, -1);
    let instrument = match context.order(id) {
        Some(order) => {
            context.set_order_status_forced(
                id,
                if order.filled_fixed > 0 {
                    OrderStatus::PartiallyFilled
                } else {
                    OrderStatus::Submitted
                },
            );
            order.instrument
        },
        None => 0,
    };
    if reason_code == 1 {
        orders.remove_order_info(id);
    }
    orders.push_cancel_reject(
        CancelReject {
            order_id: id,
            instrument,
            reject_type,
            reason_code,
            timestamp_ns: context.now_ns,
        },
    );
}

// ---------------------------------------------------------------------------------------
// Bulletins
// ---------------------------------------------------------------------------------------

/// The kind of a bulletin, by the number that the server gives it.
pub open spec fn bulletin_type(t: int) -> Option<i32> {
    if t == 1 || t == 8 || t == 9 || t == 10 {
        Some(1i32)
    } else if t == 2 {
        Some(2i32)
    } else if t == 3 {
        Some(3i32)
    } else {
        None
    }
}

/// The kind of the bulletin in a message.
pub open spec fn bulletin_kind(v: Values) -> Option<i32> {
    bulletin_type(int_field(v, 61, i32::MIN as int, i32::MAX as int, 0))
}

/// Reads a bulletin, and numbers it: `last_id` is the number of the one before. One of a kind
/// that is not known is dropped.
pub fn handle_news_bulletin(m: &HashMap<u32, String>, last_id: &mut i32) -> (r: Option<
    NewsBulletin,
>)
    requires
        *old(last_id) < i32::MAX,
    ensures
        match bulletin_kind(map_texts(m@)) {
            None => r is None && *final(last_id) == *old(last_id),
            Some(kind) => {
                &&& *final(last_id) == *old(last_id) + 1
                &&& r matches Some(b) && b@ == (NewsBulletinView {
                    msg_id: *final(last_id),
                    msg_type: kind,
                    message: lookup_or_empty(map_texts(m@), 148),
                    exchange: lookup_or_empty(map_texts(m@), 207),
                })
            },
        },
{
    let t: i32 = i32_field(m, 61, 0);
    let kind: i32 = if t == 1 || t == 8 || t == 9 || t == 10 {
        1
    } else if t == 2 {
        2
    } else if t == 3 {
        3
    } else {
        return None;
    };
    *last_id = *last_id + 1;
    Some(
        NewsBulletin {
            msg_id: *last_id,
            msg_type: kind,
            message: field_or_empty(m, 148),
            exchange: field_or_empty(m, 207),
        },
    )
}

// ---------------------------------------------------------------------------------------
// Requests
// ---------------------------------------------------------------------------------------

/// The fields of a heartbeat that answers a test request.
pub open spec fn test_reply(now: Seq<char>, id: Seq<char>) -> Seq<(u32, Seq<char>)> {
    seq![(35u32, "0"@), (52u32, now), (112u32, id)]
}

/// The heartbeat that answers a test request.
pub fn test_reply_fields(now: &str, id: &str) -> (r: Fields)
    ensures
        r@ == test_reply(now@, id@),
{
    let mut f = Fields::new();
    f.put_str(TAG_MSG_TYPE, "0");
    f.put_str(TAG_SENDING_TIME, now);
    f.put_str(TAG_TEST_REQ_ID, id);
    proof {
        assert(f@ =~= test_reply(now@, id@));
    }
    f
}

/// The fields of a subscription to profit and loss.
pub open spec fn pnl_subscription(now: Seq<char>, req_id: i64, account: Seq<char>) -> Seq<
    (u32, Seq<char>),
> {
    seq![
        (35u32, "U"@),
        (52u32, now),
        (6040u32, "142"@),
        (6529u32, "PLR."@ + int_text(req_id as int) + "|1="@ + account + "|"@),
    ]
}

/// A subscription to profit and loss.
pub fn send_pnl_subscribe(now: &str, req_id: i64, account: &str) -> (r: Fields)
    ensures
        r@ == pnl_subscription(now@, req_id, account@),
{
    let a = join("PLR.", format_int(req_id).as_str());
    let b = join(a.as_str(), "|1=");
    let c = join(b.as_str(), account);
    let mut f = Fields::new();
    f.put_str(TAG_MSG_TYPE, "U");
    f.put_str(TAG_SENDING_TIME, now);
    f.put_str(6040, "142");
    f.put(6529, join(c.as_str(), "|"));
    proof {
        assert(f@ =~= pnl_subscription(now@, req_id, account@));
    }
    f
}

/// The requests that follow a new connection: for the account's values, and for its positions.
pub open spec fn resubscriptions(now: Seq<char>, account: Seq<char>) -> Seq<
    Seq<(u32, Seq<char>)>,
> {
    seq![
        seq![
            (35u32, "U"@),
            (52u32, now),
            (6040u32, "91"@),
            (1u32, account),
            (6556u32, "DR.1"@),
            (6712u32, "1"@),
        ],
        seq![
            (35u32, "U"@),
            (52u32, now),
            (6040u32, "6"@),
            (6036u32, "1"@),
            (6095u32, account),
            (6529u32, "AR.3"@),
        ],
    ]
}

/// The requests that follow a new connection.
pub fn reconnect_requests(now: &str, account: &str) -> (r: Vec<Fields>)
    ensures
        field_lists(r@) == resubscriptions(now@, account@),
{
    let mut a = Fields::new();
    a.put_str(TAG_MSG_TYPE, "U");
    a.put_str(TAG_SENDING_TIME, now);
    a.put_str(6040, "91");
    a.put_str(1, account);
    a.put_str(6556, "DR.1");
    a.put_str(6712, "1");
    let mut b = Fields::new();
    b.put_str(TAG_MSG_TYPE, "U");
    b.put_str(TAG_SENDING_TIME, now);
    b.put_str(6040, "6");
    b.put_str(6036, "1");
    b.put_str(6095, account);
    b.put_str(6529, "AR.3");
    let ghost av = a@;
    let ghost bv = b@;
    let mut out: Vec<Fields> = Vec::new();
    out.push(a);
    out.push(b);
    proof {
        let want = resubscriptions(now@, account@);
        assert(av =~= want[0]);
        assert(bv =~= want[1]);
        assert(field_lists(out@) =~= want);
    }
    out
}

/// The fields of a subscription to the news about a contract.
pub open spec fn news_subscription(
    now: Seq<char>,
    con_id: i64,
    providers: Seq<char>,
    req_id: u32,
) -> Seq<(u32, Seq<char>)> {
    seq![
        (35u32, "V"@),
        (52u32, now),
        (263u32, "1"@),
        (146u32, "1"@),
        (262u32, dec(req_id as nat)),
        (6008u32, dec((con_id as int % 0x1_0000_0000) as nat)),
        (207u32, "NEWS"@),
        (167u32, "CS"@),
        (264u32, "292"@),
        (6472u32, providers),
    ]
}

/// The fields of the end of a news subscription.
pub open spec fn news_unsubscription(req_id: u32) -> Seq<(u32, Seq<char>)> {
    seq![(35u32, "V"@), (262u32, dec(req_id as nat)), (263u32, "2"@)]
}

/// The place of the first subscription for an instrument, the length of the list when there is
/// none.
pub open spec fn subscription_index(s: Seq<(InstrumentId, u32)>, instrument: InstrumentId) -> int
    decreases s.len(),
{
    if s.len() == 0 {
        0
    } else if s[0].0 == instrument {
        0
    } else {
        1 + subscription_index(s.skip(1), instrument)
    }
}

proof fn lemma_subscription_index(s: Seq<(InstrumentId, u32)>, instrument: InstrumentId)
    ensures
        0 <= subscription_index(s, instrument) <= s.len(),
        forall|i: int|
            0 <= i < subscription_index(s, instrument) ==> (#[trigger] s[i]).0 != instrument,
        subscription_index(s, instrument) < s.len() ==> s[subscription_index(s, instrument)].0
            == instrument,
    decreases s.len(),
{
    if s.len() > 0 && s[0].0 != instrument {
        let t = s.skip(1);
        lemma_subscription_index(t, instrument);
        assert forall|i: int| 0 <= i < subscription_index(s, instrument) implies (
        #[trigger] s[i]).0 != instrument by {
            if i > 0 {
                assert(t[i - 1].0 != instrument);
            }
        }
    }
}

/// The place of the first subscription for an instrument.
pub fn find_subscription(s: &Vec<(InstrumentId, u32)>, instrument: InstrumentId) -> (r: Option<
    usize,
>)
    ensures
        match r {
            Some(i) => i == subscription_index(s@, instrument) && i < s@.len(),
            None => subscription_index(s@, instrument) == s@.len(),
        },
{
    proof {
        lemma_subscription_index(s@, instrument);
    }
    let mut i: usize = 0;
    while i < s.len()
        invariant
            i <= s.len(),
            i <= subscription_index(s@, instrument) <= s@.len(),
            subscription_index(s@, instrument) < s@.len() ==> s@[subscription_index(
                s@,
                instrument,
            )].0 == instrument,
            forall|k: int|
                0 <= k < subscription_index(s@, instrument) ==> (#[trigger] s@[k]).0 != instrument,
        decreases s.len() - i,
    {
        if s[i].0 == instrument {
            return Some(i);
        }
        i = i + 1;
    }
    None
}

/// Remembers a news subscription, and gives the message that asks for it.
pub fn send_news_subscribe(
    subscriptions: &mut Vec<(InstrumentId, u32)>,
    now: &str,
    con_id: i64,
    instrument: InstrumentId,
    providers: &str,
    req_id: u32,
) -> (r: Fields)
    ensures
        final(subscriptions)@ == old(subscriptions)@.push((instrument, req_id)),
        r@ == news_subscription(now@, con_id, providers@, req_id),
{
    subscriptions.push((instrument, req_id));
    let mut f = Fields::new();
    f.put_str(TAG_MSG_TYPE, "V");
    f.put_str(TAG_SENDING_TIME, now);
    f.put_str(263, "1");
    f.put_str(146, "1");
    f.put_uint(262, req_id as u64);
    let low: i128 = (con_id as i128) % 0x1_0000_0000i128;
    let id: u64 = if low < 0 {
        (low + 0x1_0000_0000i128) as u64
    } else {
        low as u64
    };
    f.put_uint(6008, id);
    f.put_str(207, "NEWS");
    f.put_str(167, "CS");
    f.put_str(264, "292");
    f.put_str(6472, providers);
    proof {
        assert(f@ =~= news_subscription(now@, con_id, providers@, req_id));
    }
    f
}

/// Forgets the news subscription for an instrument, and gives the message that ends it.
pub fn send_news_unsubscribe(
    subscriptions: &mut Vec<(InstrumentId, u32)>,
    instrument: InstrumentId,
) -> (r: Option<Fields>)
    ensures
        ({
            let i = subscription_index(old(subscriptions)@, instrument);
            if i < old(subscriptions)@.len() {
                &&& r matches Some(f) && f@ == news_unsubscription(old(subscriptions)@[i].1)
                &&& final(subscriptions)@ == old(subscriptions)@.remove(i)
            } else {
                r is None && final(subscriptions)@ == old(subscriptions)@
            }
        }),
{
    match find_subscription(subscriptions, instrument) {
        Some(i) => {
            let (_, req_id) = subscriptions.remove(i);
            let mut f = Fields::new();
            f.put_str(TAG_MSG_TYPE, "V");
            f.put_uint(262, req_id as u64);
            f.put_str(263, "2");
            proof {
                assert(f@ =~= news_unsubscription(req_id));
            }
            Some(f)
        },
        None => None,
    }
}

/// The end of a news subscription names the request that started it, and leaves the others as
/// they were.
pub proof fn law_news_unsubscribe_undoes_subscribe(
    s: Seq<(InstrumentId, u32)>,
    instrument: InstrumentId,
    req_id: u32,
)
    requires
        subscription_index(s, instrument) == s.len(),
    ensures
        ({
            let t = s.push((instrument, req_id));
            let i = subscription_index(t, instrument);
            &&& i < t.len()
            &&& t[i].1 == req_id
            &&& t.remove(i) == s
        }),
{
    let t = s.push((instrument, req_id));
    lemma_subscription_index(s, instrument);
    lemma_subscription_index(t, instrument);
    let i = subscription_index(t, instrument);
    if i < s.len() {
        assert(t[i] == s[i]);
        assert(s[i].0 != instrument);
    } else {
        if i == t.len() {
            assert(t[s.len() as int].0 == instrument);
        }
        assert(i == s.len());
        assert(t.remove(i) =~= s);
    }
}

} // verus!
