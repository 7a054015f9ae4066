//! The market data connection: subscriptions, their acknowledgements, and ticks.
use std::collections::HashMap;
use vstd::prelude::*;
use vstd::slice::slice_subrange;

use crate::engine::market_state::{MarketState, MarketView, Quote};
use crate::gateway::mktdata_unsubscribe;
use crate::protocol::fix::{
    get_field, lookup, map_texts, Fields, TAG_MSG_TYPE, TAG_SENDING_TIME,
};
use crate::protocol::tick_decoder::{
    scan_body, try_decode_ticks_35p, RawTick, O_ASK_PRICE, O_ASK_SIZE, O_BID_PRICE, O_BID_SIZE, O_CLOSE_PRICE,
    O_HIGH_PRICE, O_LAST_PRICE, O_LAST_SIZE, O_LAST_TS, O_LOW_PRICE, O_OPEN_PRICE, O_TIMESTAMP,
    O_VOLUME,
};
use crate::text::{
    chars_of, dec, find_bytes, find_from, from_utf8_lossy, lemma_find_from, occurs_at, parse_i64,
    parse_u32, parsed_int, pos_of, read_text, split, split_chars, text_eq, text_of, trim, trimmed_end,
    trimmed_start, views,
};
use crate::types::{InstrumentId, Price, MAX_INSTRUMENTS};

verus! {

// ---------------------------------------------------------------------------------------
// Message bodies
// ---------------------------------------------------------------------------------------

/// What follows the first occurrence of a marker.
pub open spec fn body_after(msg: Seq<u8>, marker: Seq<u8>) -> Option<Seq<u8>> {
    match find_from(msg, marker, 0) {
        Some(i) => Some(msg.skip(i + marker.len())),
        None => None,
    }
}

/// What follows the first occurrence of a marker in a message.
pub fn find_body_after_tag<'a>(msg: &'a [u8], tag_marker: &[u8]) -> (r: Option<&'a [u8]>)
    requires
        tag_marker@.len() > 0,
    ensures
        match r {
            Some(body) => body_after(msg@, tag_marker@) == Some(body@),
            None => body_after(msg@, tag_marker@) is None,
        },
{
    match find_bytes(msg, tag_marker, 0) {
        Some(i) => {
            proof {
                lemma_find_from(msg@, tag_marker@, 0);
            }
            let end: usize = msg.len();
            let start: usize = i + tag_marker.len();
            let body = slice_subrange(msg, start, end);
            proof {
                assert(body@ =~= msg@.skip(start as int));
            }
            Some(body)
        },
        None => None,
    }
}

/// The mark of the signature that may end a message.
pub open spec fn signature_mark() -> Seq<char> {
    seq!['\x01', '8', '3', '4', '9', '=']
}

/// A text up to its signature, if it has one.
pub open spec fn unsigned_text(s: Seq<char>) -> Seq<char> {
    match find_from(s, signature_mark(), 0) {
        Some(i) => s.take(i),
        None => s,
    }
}

fn mark_at(s: &Vec<char>, i: usize) -> (r: bool)
    ensures
        r == occurs_at(s@, signature_mark(), i as int),
{
    let n: usize = s.len();
    if n < 6 || i > n - 6 {
        return false;
    }
    let r = s[i] == '\x01' && s[i + 1] == '8' && s[i + 2] == '3' && s[i + 3] == '4' && s[i + 4]
        == '9' && s[i + 5] == '=';
    proof {
        let part = s@.subrange(i as int, i + 6);
        let mark = signature_mark();
        assert(mark.len() == 6);
        if r {
            assert(part =~= mark);
        } else if part == mark {
            assert(part[0] == s@[i as int] && part[1] == s@[i + 1] && part[2] == s@[i + 2]
                && part[3] == s@[i + 3] && part[4] == s@[i + 4] && part[5] == s@[i + 5]);
            assert(mark[0] == '\x01' && mark[1] == '8' && mark[2] == '3' && mark[3] == '4'
                && mark[4] == '9' && mark[5] == '=');
        }
    }
    r
}

fn cut_signature(s: Vec<char>) -> (r: Vec<char>)
    ensures
        r@ == unsigned_text(s@),
{
    let n: usize = s.len();
    let mut i: usize = 0;
    while i < n && n - i >= 6
        invariant
            i <= n,
            n == s@.len(),
            find_from(s@, signature_mark(), 0) == find_from(s@, signature_mark(), i as int),
        decreases n - i,
    {
        if mark_at(&s, i) {
            let mut out = s;
            out.truncate(i);
            proof {
                assert(out@ =~= s@.take(i as int));
            }
            return out;
        }
        i = i + 1;
    }
    s
}

/// The values of a message whose body is a comma-separated list behind a marker.
pub open spec fn listed_values(msg: Seq<u8>, marker: Seq<u8>) -> Option<Seq<Seq<char>>> {
    match body_after(msg, marker) {
        Some(body) => Some(
            split(trimmed_end(trimmed_start(unsigned_text(read_text(body)))), ','),
        ),
        None => None,
    }
}

fn read_values(msg: &[u8], marker: &[u8]) -> (r: Option<Vec<Vec<char>>>)
    requires
        marker@.len() > 0,
    ensures
        match r {
            Some(parts) => listed_values(msg@, marker@) == Some(views(parts@)),
            None => listed_values(msg@, marker@) is None,
        },
{
    match find_body_after_tag(msg, marker) {
        Some(body) => {
            let text = from_utf8_lossy(body);
            let inner = trim(cut_signature(chars_of(text.as_str())).as_slice());
            Some(split_chars(inner.as_slice(), ','))
        },
        None => None,
    }
}

// ---------------------------------------------------------------------------------------
// Acknowledgements
// ---------------------------------------------------------------------------------------

/// The marker of a subscription's acknowledgement.
pub open spec fn ack_marker() -> Seq<u8> {
    seq![51u8, 53u8, 61u8, 81u8, 1u8]
}

/// The marker of a ticker's setup.
pub open spec fn setup_marker() -> Seq<u8> {
    seq![51u8, 53u8, 61u8, 76u8, 1u8]
}

/// The marker of ticks.
pub open spec fn ticks_marker() -> Seq<u8> {
    seq![51u8, 53u8, 61u8, 80u8, 1u8]
}

/// What an acknowledgement says: the tag under which the server sends ticks, the request that
/// it answers, and the smallest price step, as the server wrote it.
pub struct SubscriptionAck {
    pub server_tag: u32,
    pub req_id: u32,
    pub min_tick: String,
}

/// What an acknowledgement says: the tag, the request and the price step, in this order.
pub open spec fn ack_of(msg: Seq<u8>) -> Option<(u32, u32, Seq<char>)> {
    match listed_values(msg, ack_marker()) {
        Some(v) => if v.len() < 3 {
            None
        } else {
            match (
                parsed_int(v[0], 0, u32::MAX as int),
                parsed_int(v[1], 0, u32::MAX as int),
            ) {
                (Some(tag), Some(req)) => Some((tag as u32, req as u32, v[2])),
                _ => None,
            }
        },
        None => None,
    }
}

/// Reads a subscription's acknowledgement. `None` when it does not hold what it should.
pub fn read_subscription_ack(msg: &[u8]) -> (r: Option<SubscriptionAck>)
    ensures
        match r {
            Some(a) => ack_of(msg@) == Some((a.server_tag, a.req_id, a.min_tick@)),
            None => ack_of(msg@) is None,
        },
{
    let marker: [u8; 5] = [51, 53, 61, 81, 1];
    proof {
        assert(marker@ =~= ack_marker());
    }
    let parts = match read_values(msg, &marker) {
        Some(p) => p,
        None => return None,
    };
    let ghost v = views(parts@);
    if parts.len() < 3 {
        return None;
    }
    proof {
        assert(v[0] == parts@[0]@ && v[1] == parts@[1]@ && v[2] == parts@[2]@);
    }
    let server_tag = match parse_u32(text_of(parts[0].as_slice()).as_str()) {
        Some(n) => n,
        None => return None,
    };
    let req_id = match parse_u32(text_of(parts[1].as_slice()).as_str()) {
        Some(n) => n,
        None => return None,
    };
    Some(SubscriptionAck { server_tag, req_id, min_tick: text_of(parts[2].as_slice()) })
}

/// What a ticker's setup says: the contract, the smallest price step, as the server wrote it,
/// and the tag under which the server sends ticks.
pub struct TickerSetup {
    pub con_id: i64,
    pub min_tick: String,
    pub server_tag: u32,
}

/// What a ticker's setup says: the contract, the price step and the tag, in this order.
pub open spec fn setup_of(msg: Seq<u8>) -> Option<(i64, Seq<char>, u32)> {
    match listed_values(msg, setup_marker()) {
        Some(v) => if v.len() < 3 {
            None
        } else {
            match (
                parsed_int(v[0], i64::MIN as int, i64::MAX as int),
                parsed_int(v[2], 0, u32::MAX as int),
            ) {
                (Some(con_id), Some(tag)) => Some((con_id as i64, v[1], tag as u32)),
                _ => None,
            }
        },
        None => None,
    }
}

/// Reads a ticker's setup. `None` when it does not hold what it should.
pub fn read_ticker_setup(msg: &[u8]) -> (r: Option<TickerSetup>)
    ensures
        match r {
            Some(s) => setup_of(msg@) == Some((s.con_id, s.min_tick@, s.server_tag)),
            None => setup_of(msg@) is None,
        },
{
    let marker: [u8; 5] = [51, 53, 61, 76, 1];
    proof {
        assert(marker@ =~= setup_marker());
    }
    let parts = match read_values(msg, &marker) {
        Some(p) => p,
        None => return None,
    };
    let ghost v = views(parts@);
    if parts.len() < 3 {
        return None;
    }
    proof {
        assert(v[0] == parts@[0]@ && v[1] == parts@[1]@ && v[2] == parts@[2]@);
    }
    let con_id = match parse_i64(text_of(parts[0].as_slice()).as_str()) {
        Some(n) => n,
        None => return None,
    };
    let server_tag = match parse_u32(text_of(parts[2].as_slice()).as_str()) {
        Some(n) => n,
        None => return None,
    };
    Some(TickerSetup { con_id, min_tick: text_of(parts[1].as_slice()), server_tag })
}

// ---------------------------------------------------------------------------------------
// Subscriptions
// ---------------------------------------------------------------------------------------

/// The subscriptions to market data.
pub struct FarmState {
    pub next_md_req_id: u32,
    /// The requests that are not acknowledged yet, and their instruments.
    pub md_req_to_instrument: Vec<(u32, InstrumentId)>,
    /// The requests of each instrument.
    pub instrument_md_reqs: Vec<(InstrumentId, Vec<u32>)>,
    pub disconnected: bool,
}

/// What a [`FarmState`] holds.
pub ghost struct FarmView {
    pub next: u32,
    pub pending: Seq<(u32, InstrumentId)>,
    pub active: Seq<(InstrumentId, Seq<u32>)>,
    pub disconnected: bool,
}

/// The requests of each instrument of a list.
pub open spec fn active_views(v: Seq<(InstrumentId, Vec<u32>)>) -> Seq<(InstrumentId, Seq<u32>)> {
    v.map_values(|p: (InstrumentId, Vec<u32>)| (p.0, p.1@))
}

impl View for FarmState {
    type V = FarmView;

    open spec fn view(&self) -> FarmView {
        FarmView {
            next: self.next_md_req_id,
            pending: self.md_req_to_instrument@,
            active: active_views(self.instrument_md_reqs@),
            disconnected: self.disconnected,
        }
    }
}

/// No subscriptions.
pub open spec fn no_subscriptions() -> FarmView {
    FarmView { next: 1, pending: Seq::empty(), active: Seq::empty(), disconnected: false }
}

/// The place of an instrument in a list, from `i` on.
pub open spec fn active_from(s: Seq<(InstrumentId, Seq<u32>)>, id: InstrumentId, i: int) -> Option<
    int,
>
    decreases s.len() - i,
{
    if i < 0 || i >= s.len() {
        None
    } else if s[i].0 == id {
        Some(i)
    } else {
        active_from(s, id, i + 1)
    }
}

/// The place of a request in a list, from `i` on.
pub open spec fn pending_from(s: Seq<(u32, InstrumentId)>, req_id: u32, i: int) -> Option<int>
    decreases s.len() - i,
{
    if i < 0 || i >= s.len() {
        None
    } else if s[i].0 == req_id {
        Some(i)
    } else {
        pending_from(s, req_id, i + 1)
    }
}

impl FarmView {
    /// The instruments of the requests that are not acknowledged are ones of the market.
    pub open spec fn wf(self) -> bool {
        forall|i: int|
            0 <= i < self.pending.len() ==> (#[trigger] self.pending[i]).1 < MAX_INSTRUMENTS
    }

    /// After a subscription: two requests, for bids and asks and for trades.
    pub open spec fn subscribed(self, instrument: InstrumentId) -> FarmView {
        let a = self.next;
        let b = (self.next + 1) as u32;
        FarmView {
            next: (self.next + 2) as u32,
            pending: self.pending.push((a, instrument)).push((b, instrument)),
            active: match active_from(self.active, instrument, 0) {
                Some(i) => self.active.update(
                    i,
                    (instrument, self.active[i].1.push(a).push(b)),
                ),
                None => self.active.push((instrument, seq![a, b])),
            },
            ..self
        }
    }

    /// The requests of an instrument.
    pub open spec fn requests(self, instrument: InstrumentId) -> Seq<u32> {
        match active_from(self.active, instrument, 0) {
            Some(i) => self.active[i].1,
            None => Seq::empty(),
        }
    }

    /// After the end of an instrument's subscriptions.
    pub open spec fn unsubscribed(self, instrument: InstrumentId) -> FarmView {
        match active_from(self.active, instrument, 0) {
            Some(i) => FarmView { active: self.active.remove(i), ..self },
            None => self,
        }
    }

    /// After the connection is lost.
    pub open spec fn lost(self) -> FarmView {
        FarmView {
            pending: Seq::empty(),
            active: Seq::empty(),
            disconnected: true,
            ..self
        }
    }

    /// After the subscriptions of the first `n` instruments of a market.
    pub open spec fn all_subscribed(self, n: int) -> FarmView
        decreases n,
    {
        if n <= 0 {
            self
        } else {
            self.all_subscribed(n - 1).subscribed((n - 1) as u32)
        }
    }
}

/// One entry of a subscription.
pub open spec fn subscription_entry(req_id: u32, con_id: i64, kind: Seq<char>) -> Seq<
    (u32, Seq<char>),
> {
    seq![
        (262u32, dec(req_id as nat)),
        (6008u32, dec((con_id as int % 0x1_0000_0000) as nat)),
        (207u32, "BEST"@),
        (167u32, "CS"@),
        (264u32, kind),
        (6088u32, "Socket"@),
        (9830u32, "1"@),
        (9839u32, "1"@),
    ]
}

/// The fields of a subscription: one entry for bids and asks, and one for trades.
pub open spec fn farm_subscription(now: Seq<char>, req_id: u32, con_id: i64) -> Seq<
    (u32, Seq<char>),
> {
    seq![(35u32, "V"@), (52u32, now), (263u32, "1"@), (146u32, "2"@)] + subscription_entry(
        req_id,
        con_id,
        "442"@,
    ) + subscription_entry((req_id + 1) as u32, con_id, "443"@)
}

/// The low 32 bits of a contract's number.
fn low_con_id(con_id: i64) -> (r: u64)
    ensures
        r == con_id as int % 0x1_0000_0000,
{
    let low: i128 = (con_id as i128) % 0x1_0000_0000i128;
    if low < 0 {
        (low + 0x1_0000_0000i128) as u64
    } else {
        low as u64
    }
}

fn put_entry(f: &mut Fields, req_id: u32, con_id: i64, kind: &str)
    ensures
        final(f)@ == old(f)@ + subscription_entry(req_id, con_id, kind@),
{
    f.put_uint(262, req_id as u64);
    f.put_uint(6008, low_con_id(con_id));
    f.put_str(207, "BEST");
    f.put_str(167, "CS");
    f.put_str(264, kind);
    f.put_str(6088, "Socket");
    f.put_str(9830, "1");
    f.put_str(9839, "1");
    proof {
        assert(f@ =~= old(f)@ + subscription_entry(req_id, con_id, kind@));
    }
}

impl FarmState {
    /// No subscriptions.
    pub fn new() -> (r: Self)
        ensures
            r@ == no_subscriptions(),
            r@.wf(),
    {
        let r = FarmState {
            next_md_req_id: 1,
            md_req_to_instrument: Vec::new(),
            instrument_md_reqs: Vec::new(),
            disconnected: false,
        };
        proof {
            assert(r@.active =~= Seq::empty());
        }
        r
    }

    fn find_active(&self, instrument: InstrumentId) -> (r: Option<usize>)
        ensures
            pos_of(r) == active_from(self@.active, instrument, 0),
            r matches Some(i) ==> i < self.instrument_md_reqs@.len() && self.instrument_md_reqs@[
            i as int].0 == instrument,
    {
        let mut i: usize = 0;
        while i < self.instrument_md_reqs.len()
            invariant
                i <= self.instrument_md_reqs.len(),
                active_from(self@.active, instrument, 0) == active_from(
                    self@.active,
                    instrument,
                    i as int,
                ),
            decreases self.instrument_md_reqs.len() - i,
        {
            proof {
                assert(self@.active[i as int] == (
                    self.instrument_md_reqs@[i as int].0,
                    self.instrument_md_reqs@[i as int].1@,
                ));
            }
            if self.instrument_md_reqs[i].0 == instrument {
                return Some(i);
            }
            i = i + 1;
        }
        proof {
            assert(self@.active.len() == self.instrument_md_reqs@.len());
        }
        None
    }

    /// Remembers a subscription of an instrument, and gives the message that asks for it.
    pub fn send_mktdata_subscribe(&mut self, con_id: i64, instrument: InstrumentId, now: &str) -> (r:
        Fields)
        requires
            old(self)@.next < u32::MAX - 1,
        ensures
            final(self)@ == old(self)@.subscribed(instrument),
            old(self)@.wf() && instrument < MAX_INSTRUMENTS ==> final(self)@.wf(),
            r@ == farm_subscription(now@, old(self)@.next, con_id),
    {
        let a: u32 = self.next_md_req_id;
        let b: u32 = a + 1;
        self.next_md_req_id = a + 2;
        self.md_req_to_instrument.push((a, instrument));
        self.md_req_to_instrument.push((b, instrument));
        proof {
            assert(self@.active =~= old(self)@.active);
            if old(self)@.wf() && instrument < MAX_INSTRUMENTS {
                let n = old(self)@.pending.len();
                assert forall|k: int| 0 <= k < n + 2 implies (#[trigger] self@.pending[k]).1
                    < MAX_INSTRUMENTS by {
                    if k < n {
                        assert(self@.pending[k] == old(self)@.pending[k]);
                    }
                }
            }
        }
        let ghost pending = self@.pending;
        match self.find_active(instrument) {
            Some(i) => {
                let ghost before = self.instrument_md_reqs@;
                self.instrument_md_reqs[i].1.push(a);
                self.instrument_md_reqs[i].1.push(b);
                proof {
                    assert(self@.active =~= old(self)@.active.update(
                        i as int,
                        (instrument, old(self)@.active[i as int].1.push(a).push(b)),
                    ));
                }
            },
            None => {
                let mut reqs: Vec<u32> = Vec::new();
                reqs.push(a);
                reqs.push(b);
                proof {
                    assert(reqs@ =~= seq![a, b]);
                }
                self.instrument_md_reqs.push((instrument, reqs));
                proof {
                    assert(self@.active =~= old(self)@.active.push((instrument, seq![a, b])));
                }
            },
        }
        let mut f = Fields::new();
        f.put_str(TAG_MSG_TYPE, "V");
        f.put_str(TAG_SENDING_TIME, now);
        f.put_str(263, "1");
        f.put_str(146, "2");
        proof {
            assert(self@.pending == pending);
            assert(f@ =~= seq![(35u32, "V"@), (52u32, now@), (263u32, "1"@), (146u32, "2"@)]);
        }
        put_entry(&mut f, a, con_id, "442");
        put_entry(&mut f, b, con_id, "443");
        f
    }

    /// Forgets the subscriptions of an instrument, and gives the messages that end them.
    pub fn send_mktdata_unsubscribe(&mut self, instrument: InstrumentId) -> (r: Vec<Fields>)
        ensures
            final(self)@ == old(self)@.unsubscribed(instrument),
            old(self)@.wf() ==> final(self)@.wf(),
            r@.len() == old(self)@.requests(instrument).len(),
            forall|i: int|
                0 <= i < r@.len() ==> (#[trigger] r@[i])@ == mktdata_unsubscribe(
                    dec(old(self)@.requests(instrument)[i] as nat),
                ),
    {
        let mut out: Vec<Fields> = Vec::new();
        match self.find_active(instrument) {
            Some(k) => {
                let (_, reqs) = self.instrument_md_reqs.remove(k);
                proof {
                    assert(self@.active =~= old(self)@.active.remove(k as int));
                    assert(old(self)@.active[k as int].1 == reqs@);
                }
                let mut i: usize = 0;
                while i < reqs.len()
                    invariant
                        i <= reqs.len(),
                        out@.len() == i,
                        forall|j: int|
                            0 <= j < i ==> (#[trigger] out@[j])@ == mktdata_unsubscribe(
                                dec(reqs@[j] as nat),
                            ),
                    decreases reqs.len() - i,
                {
                    let mut f = Fields::new();
                    f.put_str(TAG_MSG_TYPE, "V");
                    f.put_uint(262, reqs[i] as u64);
                    f.put_str(263, "2");
                    proof {
                        assert(f@ =~= mktdata_unsubscribe(dec(reqs@[i as int] as nat)));
                    }
                    out.push(f);
                    i = i + 1;
                }
            },
            None => {},
        }
        out
    }

    /// The market after an acknowledgement, or a setup, of an instrument.
    fn set_up(
        market: &mut MarketState,
        server_tag: u32,
        instrument: InstrumentId,
        step: TickStep,
    )
        requires
            old(market)@.wf(),
            instrument < MAX_INSTRUMENTS,
        ensures
            final(market)@.wf(),
            final(market)@ == tick_source(old(market)@, server_tag, instrument, step@),
    {
        market.register_server_tag(server_tag, instrument);
        market.set_step(instrument, step.units, step.text);
    }

    /// Takes in that a request is acknowledged: the server's ticks under a tag are those of
    /// the request's instrument. An acknowledgement of a request that is not pending changes
    /// nothing.
    pub fn handle_subscription_ack(
        &mut self,
        server_tag: u32,
        req_id: u32,
        step: TickStep,
        market: &mut MarketState,
    )
        requires
            old(self)@.wf(),
            old(market)@.wf(),
        ensures
            final(self)@.wf(),
            final(market)@.wf(),
            match pending_from(old(self)@.pending, req_id, 0) {
                Some(i) => {
                    &&& final(self)@ == (FarmView {
                        pending: old(self)@.pending.remove(i),
                        ..old(self)@
                    })
                    &&& final(market)@ == tick_source(
                        old(market)@,
                        server_tag,
                        old(self)@.pending[i].1,
                        step@,
                    )
                },
                None => final(self)@ == old(self)@ && final(market)@ == old(market)@,
            },
    {
        let mut i: usize = 0;
        while i < self.md_req_to_instrument.len()
            invariant
                i <= self.md_req_to_instrument.len(),
                self@ == old(self)@,
                self@.wf(),
                market@ == old(market)@,
                market@.wf(),
                pending_from(self@.pending, req_id, 0) == pending_from(
                    self@.pending,
                    req_id,
                    i as int,
                ),
            decreases self.md_req_to_instrument.len() - i,
        {
            if self.md_req_to_instrument[i].0 == req_id {
                proof {
                    assert(self@.pending[i as int].1 < MAX_INSTRUMENTS);
                }
                let (_, instrument) = self.md_req_to_instrument.remove(i);
                proof {
                    assert(self@.active =~= old(self)@.active);
                    assert forall|k: int| 0 <= k < self@.pending.len() implies (
                    #[trigger] self@.pending[k]).1 < MAX_INSTRUMENTS by {
                        if k < i {
                            assert(self@.pending[k] == old(self)@.pending[k]);
                        } else {
                            assert(self@.pending[k] == old(self)@.pending[k + 1]);
                        }
                    }
                }
                Self::set_up(market, server_tag, instrument, step);
                return ;
            }
            i = i + 1;
        }
    }

    /// Takes in that the connection is lost: its subscriptions are gone, and so are the
    /// quotes.
    pub fn handle_farm_disconnect(&mut self, market: &mut MarketState)
        requires
            old(market)@.wf(),
        ensures
            final(self)@ == old(self)@.lost(),
            final(self)@.wf(),
            final(market)@.wf(),
            final(market)@ == market_lost(old(market)@),
    {
        self.disconnected = true;
        self.md_req_to_instrument = Vec::new();
        self.instrument_md_reqs = Vec::new();
        proof {
            assert(self@.active =~= Seq::empty());
        }
        market.clear_server_tags();
        market.zero_all_quotes();
    }

    /// Takes in that there is a new connection, and gives the messages that subscribe to all
    /// instruments again.
    pub fn reconnect_farm(&mut self, market: &MarketState, now: &str) -> (r: Vec<Fields>)
        requires
            market@.wf(),
            old(self)@.next + 2 * MAX_INSTRUMENTS <= u32::MAX,
        ensures
            final(self)@ == resubscribed(old(self)@, market@),
            final(self)@.wf(),
            r@.len() == market@.con_ids.len(),
            forall|i: int|
                0 <= i < r@.len() ==> (#[trigger] r@[i])@ == farm_subscription(
                    now@,
                    (old(self)@.next + 2 * i) as u32,
                    market@.con_ids[i],
                ),
    {
        self.disconnected = false;
        self.md_req_to_instrument = Vec::new();
        self.instrument_md_reqs = Vec::new();
        proof {
            assert(self@.active =~= Seq::empty());
        }
        let ghost start = self@;
        let n: u32 = market.count();
        let mut out: Vec<Fields> = Vec::new();
        let mut i: u32 = 0;
        while i < n
            invariant
                i <= n,
                n == market@.con_ids.len(),
                n <= MAX_INSTRUMENTS,
                out@.len() == i,
                self@ == start.all_subscribed(i as int),
                self@.wf(),
                self@.next == start.next + 2 * i,
                start.next + 2 * MAX_INSTRUMENTS <= u32::MAX,
                forall|k: int|
                    0 <= k < i ==> (#[trigger] out@[k])@ == farm_subscription(
                        now@,
                        (start.next + 2 * k) as u32,
                        market@.con_ids[k],
                    ),
            decreases n - i,
        {
            if let Some(con_id) = market.con_id(i) {
                out.push(self.send_mktdata_subscribe(con_id, i, now));
            }
            i = i + 1;
        }
        out
    }
}

/// The state after a new connection: all instruments of the market are subscribed to, and
/// nothing else.
pub open spec fn resubscribed(s: FarmView, m: MarketView) -> FarmView {
    FarmView {
        pending: Seq::empty(),
        active: Seq::empty(),
        disconnected: false,
        ..s
    }.all_subscribed(m.con_ids.len() as int)
}

/// The smallest price step of an instrument: to the nearest price unit, and as it was given.
pub struct TickStep {
    pub units: Price,
    pub text: String,
}

impl View for TickStep {
    type V = (Price, Seq<char>);

    open spec fn view(&self) -> (Price, Seq<char>) {
        (self.units, self.text@)
    }
}

/// The market in which the ticks under a server's tag are those of an instrument. A tag that
/// is known keeps its instrument.
pub open spec fn tick_source(
    m: MarketView,
    server_tag: u32,
    instrument: InstrumentId,
    step: (Price, Seq<char>),
) -> MarketView {
    MarketView {
        server_tags: if m.tagged(server_tag) is Some {
            m.server_tags
        } else {
            m.server_tags.push((server_tag, instrument))
        },
        ..m.with_step(instrument, step.0, step.1)
    }
}

/// The market after the connection is lost.
pub open spec fn market_lost(m: MarketView) -> MarketView {
    MarketView {
        server_tags: Seq::empty(),
        quotes: crate::engine::market_state::empty_market().quotes,
        ..m
    }
}

/// Takes in a ticker's setup: the server's ticks under a tag are those of a contract. A setup
/// of a contract that is not registered changes nothing.
pub fn handle_ticker_setup(
    con_id: i64,
    step: TickStep,
    server_tag: u32,
    market: &mut MarketState,
)
    requires
        old(market)@.wf(),
    ensures
        final(market)@.wf(),
        final(market)@ == match old(market)@.instrument_of(con_id) {
            Some(instrument) => tick_source(old(market)@, server_tag, instrument, step@),
            None => old(market)@,
        },
{
    if let Some(instrument) = market.instrument_by_con_id(con_id) {
        FarmState::set_up(market, server_tag, instrument, step);
    }
}

// ---------------------------------------------------------------------------------------
// Ticks
// ---------------------------------------------------------------------------------------

/// Whether a tick of a type changes a price.
pub open spec fn is_price_tick(tick_type: u64) -> bool {
    tick_type == O_BID_PRICE || tick_type == O_ASK_PRICE || tick_type == O_LAST_PRICE || tick_type
        == O_HIGH_PRICE || tick_type == O_LOW_PRICE || tick_type == O_OPEN_PRICE || tick_type
        == O_CLOSE_PRICE
}

/// The price that ticks of a type change.
pub open spec fn ticked_price(q: Quote, tick_type: u64) -> Price {
    if tick_type == O_BID_PRICE {
        q.bid
    } else if tick_type == O_ASK_PRICE {
        q.ask
    } else if tick_type == O_LAST_PRICE {
        q.last
    } else if tick_type == O_HIGH_PRICE {
        q.high
    } else if tick_type == O_LOW_PRICE {
        q.low
    } else if tick_type == O_OPEN_PRICE {
        q.open
    } else {
        q.close
    }
}

/// A quote after a tick. `change` is by how much the tick changes a price, in price units.
pub open spec fn ticked(q: Quote, tick_type: u64, magnitude: i64, change: Price) -> Quote {
    if is_price_tick(tick_type) {
        let price = (ticked_price(q, tick_type) + change) as i64;
        if tick_type == O_BID_PRICE {
            Quote { bid: price, ..q }
        } else if tick_type == O_ASK_PRICE {
            Quote { ask: price, ..q }
        } else if tick_type == O_LAST_PRICE {
            Quote { last: price, ..q }
        } else if tick_type == O_HIGH_PRICE {
            Quote { high: price, ..q }
        } else if tick_type == O_LOW_PRICE {
            Quote { low: price, ..q }
        } else if tick_type == O_OPEN_PRICE {
            Quote { open: price, ..q }
        } else {
            Quote { close: price, ..q }
        }
    } else if tick_type == O_BID_SIZE {
        Quote { bid_size: magnitude, ..q }
    } else if tick_type == O_ASK_SIZE {
        Quote { ask_size: magnitude, ..q }
    } else if tick_type == O_LAST_SIZE {
        Quote { last_size: magnitude, ..q }
    } else if tick_type == O_VOLUME {
        Quote { volume: magnitude, ..q }
    } else if tick_type == O_TIMESTAMP || tick_type == O_LAST_TS {
        Quote { timestamp_ns: (magnitude as int % 0x1_0000_0000_0000_0000) as u64, ..q }
    } else {
        q
    }
}

/// Whether a price tick leaves a price that can be represented.
pub open spec fn tick_fits(m: MarketView, tick: RawTick, change: Price) -> bool {
    match m.tagged(tick.server_tag) {
        Some(i) => is_price_tick(tick.tick_type) ==> i64::MIN <= ticked_price(
            m.quotes[i as int],
            tick.tick_type,
        ) + change <= i64::MAX,
        None => true,
    }
}

/// The market after a tick. One under a tag that is not known changes nothing.
pub open spec fn market_ticked(m: MarketView, tick: RawTick, change: Price) -> MarketView {
    match m.tagged(tick.server_tag) {
        Some(i) => MarketView {
            quotes: m.quotes.update(
                i as int,
                ticked(m.quotes[i as int], tick.tick_type, tick.magnitude, change),
            ),
            ..m
        },
        None => m,
    }
}

fn price_at(q: &Quote, tick_type: u64) -> (r: Price)
    ensures
        r == ticked_price(*q, tick_type),
{
    if tick_type == O_BID_PRICE {
        q.bid
    } else if tick_type == O_ASK_PRICE {
        q.ask
    } else if tick_type == O_LAST_PRICE {
        q.last
    } else if tick_type == O_HIGH_PRICE {
        q.high
    } else if tick_type == O_LOW_PRICE {
        q.low
    } else if tick_type == O_OPEN_PRICE {
        q.open
    } else {
        q.close
    }
}

fn is_price(tick_type: u64) -> (r: bool)
    ensures
        r == is_price_tick(tick_type),
{
    tick_type == O_BID_PRICE || tick_type == O_ASK_PRICE || tick_type == O_LAST_PRICE || tick_type
        == O_HIGH_PRICE || tick_type == O_LOW_PRICE || tick_type == O_OPEN_PRICE || tick_type
        == O_CLOSE_PRICE
}

/// Whether a price tick leaves a price that can be represented.
pub fn can_apply_tick(market: &MarketState, tick: &RawTick, change: Price) -> (r: bool)
    requires
        market@.wf(),
    ensures
        r == tick_fits(market@, *tick, change),
{
    match market.instrument_by_server_tag(tick.server_tag) {
        Some(i) => if is_price(tick.tick_type) {
            price_at(market.quote(i), tick.tick_type).checked_add(change).is_some()
        } else {
            true
        },
        None => true,
    }
}

/// Applies a tick to a quote.
fn tick_quote(q: Quote, tick_type: u64, magnitude: i64, change: Price) -> (r: Quote)
    requires
        is_price_tick(tick_type) ==> i64::MIN <= ticked_price(q, tick_type) + change <= i64::MAX,
    ensures
        r == ticked(q, tick_type, magnitude, change),
{
    if is_price(tick_type) {
        let price: i64 = price_at(&q, tick_type) + change;
        if tick_type == O_BID_PRICE {
            Quote { bid: price, ..q }
        } else if tick_type == O_ASK_PRICE {
            Quote { ask: price, ..q }
        } else if tick_type == O_LAST_PRICE {
            Quote { last: price, ..q }
        } else if tick_type == O_HIGH_PRICE {
            Quote { high: price, ..q }
        } else if tick_type == O_LOW_PRICE {
            Quote { low: price, ..q }
        } else if tick_type == O_OPEN_PRICE {
            Quote { open: price, ..q }
        } else {
            Quote { close: price, ..q }
        }
    } else if tick_type == O_BID_SIZE {
        Quote { bid_size: magnitude, ..q }
    } else if tick_type == O_ASK_SIZE {
        Quote { ask_size: magnitude, ..q }
    } else if tick_type == O_LAST_SIZE {
        Quote { last_size: magnitude, ..q }
    } else if tick_type == O_VOLUME {
        Quote { volume: magnitude, ..q }
    } else if tick_type == O_TIMESTAMP || tick_type == O_LAST_TS {
        let wide: i128 = if magnitude < 0 {
            magnitude as i128 + 0x1_0000_0000_0000_0000i128
        } else {
            magnitude as i128
        };
        Quote { timestamp_ns: wide as u64, ..q }
    } else {
        q
    }
}

/// The instruments whose ticks were announced in a batch.
pub struct TickBatch {
    pub notified: Vec<InstrumentId>,
}

impl TickBatch {
    /// A batch of which nothing was announced.
    pub fn new() -> (r: Self)
        ensures
            r.notified@ == Seq::<InstrumentId>::empty(),
    {
        TickBatch { notified: Vec::new() }
    }

    fn was_notified(&self, id: InstrumentId) -> (r: bool)
        ensures
            r == self.notified@.contains(id),
    {
        let mut i: usize = 0;
        while i < self.notified.len()
            invariant
                i <= self.notified.len(),
                forall|k: int| 0 <= k < i ==> self.notified@[k] != id,
            decreases self.notified.len() - i,
        {
            if self.notified[i] == id {
                return true;
            }
            i = i + 1;
        }
        false
    }

    /// Applies a tick of the batch. Gives the instrument, if it is to be announced: each is
    /// announced once in a batch, with its first tick.
    pub fn apply_tick(&mut self, tick: &RawTick, change: Price, market: &mut MarketState) -> (r:
        Option<InstrumentId>)
        requires
            old(market)@.wf(),
            tick_fits(old(market)@, *tick, change),
        ensures
            final(market)@.wf(),
            final(market)@ == market_ticked(old(market)@, *tick, change),
            old(self).notified@.no_duplicates() ==> final(self).notified@.no_duplicates(),
            match old(market)@.tagged(tick.server_tag) {
                Some(i) => if old(self).notified@.contains(i) {
                    r is None && final(self).notified@ == old(self).notified@
                } else {
                    r == Some(i) && final(self).notified@ == old(self).notified@.push(i)
                },
                None => r is None && final(self).notified@ == old(self).notified@,
            },
    {
        let id = match market.instrument_by_server_tag(tick.server_tag) {
            Some(id) => id,
            None => return None,
        };
        let q: Quote = *market.quote(id);
        market.set_quote(id, tick_quote(q, tick.tick_type, tick.magnitude, change));
        if self.was_notified(id) {
            None
        } else {
            self.notified.push(id);
            Some(id)
        }
    }
}

/// The ticks in a message: none when it has no body, `None` when the body is shorter than its
/// bit count has the ticks run, or a magnitude does not fit.
pub open spec fn ticks_in(msg: Seq<u8>) -> Option<Seq<RawTick>> {
    match body_after(msg, ticks_marker()) {
        Some(body) => if scan_body(body).fits {
            Some(scan_body(body).ticks)
        } else {
            None
        },
        None => Some(Seq::empty()),
    }
}

/// Reads the ticks of a message. `None` when they cannot be read.
pub fn read_ticks(msg: &[u8]) -> (r: Option<Vec<RawTick>>)
    requires
        msg@.len() * 8 <= usize::MAX,
    ensures
        match r {
            Some(ticks) => ticks_in(msg@) == Some(ticks@),
            None => ticks_in(msg@) is None,
        },
{
    let marker: [u8; 5] = [51, 53, 61, 80, 1];
    proof {
        assert(marker@ =~= ticks_marker());
        lemma_find_from(msg@, marker@, 0);
    }
    match find_body_after_tag(msg, &marker) {
        Some(body) => try_decode_ticks_35p(body),
        None => Some(Vec::new()),
    }
}

// ---------------------------------------------------------------------------------------
// Messages
// ---------------------------------------------------------------------------------------

/// The kinds of messages that the server sends over the market data connection.
#[derive(Debug, Clone, Copy, PartialEq, Eq, Structural)]
pub enum FarmKind {
    Ticks,
    SubscriptionAck,
    TestRequest,
    TickerSetup,
    AccountUpdate,
    Portfolio,
    Other,
}

/// The kind of a message, by its type under tag 35.
pub open spec fn farm_kind(v: Map<u32, Seq<char>>) -> FarmKind {
    match lookup(v, 35) {
        None => FarmKind::Other,
        Some(t) => if t == "P"@ {
            FarmKind::Ticks
        } else if t == "Q"@ {
            FarmKind::SubscriptionAck
        } else if t == "1"@ {
            FarmKind::TestRequest
        } else if t == "L"@ {
            FarmKind::TickerSetup
        } else if t == "UT"@ || t == "UM"@ || t == "RL"@ {
            FarmKind::AccountUpdate
        } else if t == "UP"@ {
            FarmKind::Portfolio
        } else {
            FarmKind::Other
        },
    }
}

/// The kind of a message.
pub fn farm_message_kind(m: &HashMap<u32, String>) -> (r: FarmKind)
    ensures
        r == farm_kind(map_texts(m@)),
{
    let t = match get_field(m, 35) {
        None => return FarmKind::Other,
        Some(t) => t.as_str(),
    };
    if text_eq(t, "P") {
        FarmKind::Ticks
    } else if text_eq(t, "Q") {
        FarmKind::SubscriptionAck
    } else if text_eq(t, "1") {
        FarmKind::TestRequest
    } else if text_eq(t, "L") {
        FarmKind::TickerSetup
    } else if text_eq(t, "UT") || text_eq(t, "UM") || text_eq(t, "RL") {
        FarmKind::AccountUpdate
    } else if text_eq(t, "UP") {
        FarmKind::Portfolio
    } else {
        FarmKind::Other
    }
}

// ---------------------------------------------------------------------------------------
// Laws
// ---------------------------------------------------------------------------------------

/// After the subscriptions of an instrument end, it has no requests, and those of the other
/// instruments are as before.
pub proof fn law_unsubscribe_forgets_one(s: FarmView, instrument: InstrumentId, other: InstrumentId)
    requires
        other != instrument,
        distinct_instruments(s.active),
    ensures
        s.unsubscribed(instrument).requests(instrument) == Seq::<u32>::empty(),
        s.unsubscribed(instrument).requests(other) == s.requests(other),
{
    let t = s.unsubscribed(instrument).active;
    lemma_active_from(s.active, instrument, 0);
    lemma_active_from(s.active, other, 0);
    lemma_active_from(t, instrument, 0);
    lemma_active_from(t, other, 0);
    match active_from(s.active, instrument, 0) {
        Some(k) => {
            assert forall|i: int| 0 <= i < t.len() implies (#[trigger] t[i]).0 != instrument by {
                let j = if i < k {
                    i
                } else {
                    i + 1
                };
                assert(t[i] == s.active[j]);
                assert(s.active[k].0 == instrument);
            }
            match active_from(s.active, other, 0) {
                Some(j) => {
                    let i = if j < k {
                        j
                    } else {
                        j - 1
                    };
                    assert(t[i] == s.active[j]);
                    match active_from(t, other, 0) {
                        Some(i2) => {
                            let j2 = if i2 < k {
                                i2
                            } else {
                                i2 + 1
                            };
                            assert(t[i2] == s.active[j2]);
                            assert(s.active[j2].0 == s.active[j].0);
                        },
                        None => {
                            assert(t[i].0 == other);
                        },
                    }
                },
                None => {
                    match active_from(t, other, 0) {
                        Some(i2) => {
                            let j2 = if i2 < k {
                                i2
                            } else {
                                i2 + 1
                            };
                            assert(t[i2] == s.active[j2]);
                            assert(s.active[j2].0 == other);
                        },
                        None => {},
                    }
                },
            }
        },
        None => {},
    }
}

/// No instrument stands in a list twice.
pub open spec fn distinct_instruments(s: Seq<(InstrumentId, Seq<u32>)>) -> bool {
    forall|i: int, j: int|
        0 <= i < j < s.len() ==> (#[trigger] s[i]).0 != (#[trigger] s[j]).0
}

pub(crate) proof fn lemma_active_from(s: Seq<(InstrumentId, Seq<u32>)>, id: InstrumentId, i: int)
    requires
        0 <= i,
    ensures
        active_from(s, id, i) matches Some(k) ==> i <= k < s.len() && s[k].0 == id,
        active_from(s, id, i) is None ==> forall|k: int|
            i <= k < s.len() ==> (#[trigger] s[k]).0 != id,
    decreases s.len() - i,
{
    if i < s.len() && s[i].0 != id {
        lemma_active_from(s, id, i + 1);
    }
}

/// A subscription keeps the list of instruments free of duplicates, and adds its two requests
/// to those of the instrument.
pub proof fn law_subscribe_adds_requests(s: FarmView, instrument: InstrumentId)
    requires
        distinct_instruments(s.active),
        s.next < u32::MAX - 1,
    ensures
        distinct_instruments(s.subscribed(instrument).active),
        s.subscribed(instrument).requests(instrument) == s.requests(instrument).push(s.next).push(
            (s.next + 1) as u32,
        ),
{
    let t = s.subscribed(instrument).active;
    lemma_active_from(s.active, instrument, 0);
    lemma_active_from(t, instrument, 0);
    match active_from(s.active, instrument, 0) {
        Some(k) => {
            assert(t[k].0 == instrument);
            match active_from(t, instrument, 0) {
                Some(j) => {
                    if j != k {
                        assert(t[j] == s.active[j]);
                        assert(s.active[j].0 == s.active[k].0);
                    }
                },
                None => {},
            }
        },
        None => {
            assert(t.last().0 == instrument);
            match active_from(t, instrument, 0) {
                Some(j) => {
                    if j < t.len() - 1 {
                        assert(t[j] == s.active[j]);
                    }
                },
                None => {
                    assert(t[t.len() - 1].0 == instrument);
                },
            }
            assert(seq![s.next, (s.next + 1) as u32] =~= Seq::<u32>::empty().push(s.next).push(
                (s.next + 1) as u32,
            ));
        },
    }
}

/// Ticks of one instrument leave the quotes of all others as they are.
pub proof fn law_ticks_stay_in_their_slot(
    m: MarketView,
    tick: RawTick,
    change: Price,
    other: InstrumentId,
)
    requires
        m.wf(),
        other < MAX_INSTRUMENTS,
        m.tagged(tick.server_tag) != Some(other),
    ensures
        market_ticked(m, tick, change).quotes[other as int] == m.quotes[other as int],
{
}

/// After a lost connection no tick changes a quote until a tag is announced again.
pub proof fn law_lost_market_ignores_ticks(m: MarketView, tick: RawTick, change: Price)
    ensures
        market_ticked(market_lost(m), tick, change) == market_lost(m),
{
}

/// A tick changes the one number of its instrument's quote that its type stands for, and
/// nothing else: a price (types 0 bid, 1 ask, 2 last, 3 high, 8 open, 9 low, 22 close) moves by
/// the change; a size (4 bid, 5 ask, 12 last), the volume (6) and the time (10 and 23) are what
/// the tick says; a tick of any other type changes no number.
pub proof fn law_tick_changes_what_its_type_names(
    m: MarketView,
    tick: RawTick,
    change: Price,
    id: InstrumentId,
)
    requires
        m.wf(),
        m.tagged(tick.server_tag) == Some(id),
        id < MAX_INSTRUMENTS,
        tick.tick_type == 0 ==> i64::MIN <= m.quotes[id as int].bid + change <= i64::MAX,
        tick.tick_type == 1 ==> i64::MIN <= m.quotes[id as int].ask + change <= i64::MAX,
        tick.tick_type == 2 ==> i64::MIN <= m.quotes[id as int].last + change <= i64::MAX,
        tick.tick_type == 3 ==> i64::MIN <= m.quotes[id as int].high + change <= i64::MAX,
        tick.tick_type == 8 ==> i64::MIN <= m.quotes[id as int].open + change <= i64::MAX,
        tick.tick_type == 9 ==> i64::MIN <= m.quotes[id as int].low + change <= i64::MAX,
        tick.tick_type == 22 ==> i64::MIN <= m.quotes[id as int].close + change <= i64::MAX,
    ensures
        tick_fits(m, tick, change),
        ({
            let after = market_ticked(m, tick, change);
            let was = m.quotes[id as int];
            let now = after.quotes[id as int];
            &&& now.bid == (if tick.tick_type == 0 {
                was.bid + change
            } else {
                was.bid as int
            })
            &&& now.ask == (if tick.tick_type == 1 {
                was.ask + change
            } else {
                was.ask as int
            })
            &&& now.last == (if tick.tick_type == 2 {
                was.last + change
            } else {
                was.last as int
            })
            &&& now.high == (if tick.tick_type == 3 {
                was.high + change
            } else {
                was.high as int
            })
            &&& now.open == (if tick.tick_type == 8 {
                was.open + change
            } else {
                was.open as int
            })
            &&& now.low == (if tick.tick_type == 9 {
                was.low + change
            } else {
                was.low as int
            })
            &&& now.close == (if tick.tick_type == 22 {
                was.close + change
            } else {
                was.close as int
            })
            &&& now.bid_size == (if tick.tick_type == 4 {
                tick.magnitude
            } else {
                was.bid_size
            })
            &&& now.ask_size == (if tick.tick_type == 5 {
                tick.magnitude
            } else {
                was.ask_size
            })
            &&& now.volume == (if tick.tick_type == 6 {
                tick.magnitude
            } else {
                was.volume
            })
            &&& now.last_size == (if tick.tick_type == 12 {
                tick.magnitude
            } else {
                was.last_size
            })
            &&& now.timestamp_ns == (if tick.tick_type == 10 || tick.tick_type == 23 {
                if tick.magnitude >= 0 {
                    tick.magnitude as int
                } else {
                    tick.magnitude + 0x1_0000_0000_0000_0000
                }
            } else {
                was.timestamp_ns as int
            })
            &&& after.quotes.len() == m.quotes.len()
            &&& forall|j: int|
                0 <= j < m.quotes.len() && j != id ==> #[trigger] after.quotes[j] == m.quotes[j]
            &&& after == (MarketView { quotes: after.quotes, ..m })
        }),
{
}

/// A tick under a tag that no instrument is announced for changes nothing.
pub proof fn law_strange_tick_changes_nothing(m: MarketView, tick: RawTick, change: Price)
    requires
        forall|i: int|
            0 <= i < m.server_tags.len() ==> (#[trigger] m.server_tags[i]).0 != tick.server_tag,
    ensures
        market_ticked(m, tick, change) == m,
{
}

/// Once a tag is announced for an instrument, its ticks are those of the instrument, with the
/// step that was announced; one that was announced before keeps its instrument.
pub proof fn law_announced_tag_is_known(
    m: MarketView,
    server_tag: u32,
    id: InstrumentId,
    step: (Price, Seq<char>),
)
    requires
        m.wf(),
        id < MAX_INSTRUMENTS,
    ensures
        ({
            let after = tick_source(m, server_tag, id, step);
            &&& m.tagged(server_tag) is None ==> after.tagged(server_tag) == Some(id)
            &&& m.tagged(server_tag) is Some ==> after.tagged(server_tag) == m.tagged(server_tag)
            &&& after.min_ticks[id as int] == step.0
            &&& after.step_texts[id as int] == step.1
            &&& after.quotes == m.quotes
            &&& forall|j: int|
                0 <= j < MAX_INSTRUMENTS && j != id ==> #[trigger] after.min_ticks[j]
                    == m.min_ticks[j]
        }),
{
    let after = tick_source(m, server_tag, id, step);
    if m.tagged(server_tag) is None {
        let n = m.server_tags.len() as int;
        assert(after.server_tags[n] == (server_tag, id));
        let i = choose|i: int|
            0 <= i < after.server_tags.len() && (#[trigger] after.server_tags[i]).0 == server_tag;
        if i < n {
            assert(m.server_tags[i] == after.server_tags[i]);
        }
    } else {
        let i = choose|i: int|
            0 <= i < m.server_tags.len() && (#[trigger] m.server_tags[i]).0 == server_tag;
        let j = choose|j: int|
            0 <= j < after.server_tags.len() && (#[trigger] after.server_tags[j]).0 == server_tag;
        assert(after.server_tags[i].0 == server_tag);
        assert(m.server_tags[j].0 == server_tag);
        if i < j {
            assert(m.server_tags[i].0 != m.server_tags[j].0);
        } else if j < i {
            assert(m.server_tags[j].0 != m.server_tags[i].0);
        }
    }
}

} // verus!
