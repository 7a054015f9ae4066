//! Tick-by-tick data: subscriptions, and the running prices that its entries change.
use vstd::prelude::*;

use crate::protocol::fix::{Fields, TAG_MSG_TYPE, TAG_SENDING_TIME};
use crate::text::{dec, format_int, format_uint, int_text, join, pos_of};
use crate::types::{InstrumentId, Price, Qty};

verus! {

/// The kinds of tick-by-tick data.
#[derive(Debug, Clone, Copy, PartialEq, Eq, Structural)]
pub enum TbtType {
    Last,
    BidAsk,
}

/// One entry of tick-by-tick data. Prices are given as changes, in cents.
pub enum TbtEntry {
    Trade {
        timestamp: u64,
        price_cents_delta: i64,
        size: Qty,
        exchange: String,
        conditions: String,
    },
    Quote {
        timestamp: u64,
        bid_cents_delta: i64,
        ask_cents_delta: i64,
        bid_size: Qty,
        ask_size: Qty,
    },
}

/// A trade.
pub struct TbtTrade {
    pub instrument: InstrumentId,
    pub price: Price,
    pub size: Qty,
    pub timestamp: u64,
    pub exchange: String,
    pub conditions: String,
}

/// A quote.
#[derive(Debug, Clone, Copy, PartialEq, Eq, Structural)]
pub struct TbtQuote {
    pub instrument: InstrumentId,
    pub bid: Price,
    pub ask: Price,
    pub bid_size: Qty,
    pub ask_size: Qty,
    pub timestamp: u64,
}

/// What is to be announced.
pub enum TbtEvent {
    Trade(TbtTrade),
    Quote(TbtQuote),
}

/// The subscriptions to tick-by-tick data, and the running prices.
pub struct TbtState {
    pub next_tbt_req_id: u32,
    /// The instrument, the name and the kind of each subscription.
    pub tbt_subscriptions: Vec<(InstrumentId, String, TbtType)>,
    /// The last price, the bid and the ask of each instrument, in cents.
    pub tbt_price_state: Vec<(InstrumentId, i64, i64, i64)>,
    pub disconnected: bool,
}

/// What a [`TbtState`] holds.
pub ghost struct TbtView {
    pub next: u32,
    pub subscriptions: Seq<(InstrumentId, Seq<char>, TbtType)>,
    pub prices: Seq<(InstrumentId, i64, i64, i64)>,
    pub disconnected: bool,
}

/// What the subscriptions of a list hold.
pub open spec fn subscription_views(v: Seq<(InstrumentId, String, TbtType)>) -> Seq<
    (InstrumentId, Seq<char>, TbtType),
> {
    v.map_values(|s: (InstrumentId, String, TbtType)| (s.0, s.1@, s.2))
}

impl View for TbtState {
    type V = TbtView;

    open spec fn view(&self) -> TbtView {
        TbtView {
            next: self.next_tbt_req_id,
            subscriptions: subscription_views(self.tbt_subscriptions@),
            prices: self.tbt_price_state@,
            disconnected: self.disconnected,
        }
    }
}

// ---------------------------------------------------------------------------------------
// Running prices
// ---------------------------------------------------------------------------------------

/// The place of an instrument's prices, from `i` on.
pub open spec fn prices_from(
    s: Seq<(InstrumentId, i64, i64, i64)>,
    id: InstrumentId,
    i: int,
) -> Option<int>
    decreases s.len() - i,
{
    if i < 0 || i >= s.len() {
        None
    } else if s[i].0 == id {
        Some(i)
    } else {
        prices_from(s, id, i + 1)
    }
}

/// The last price, the bid and the ask of an instrument, in cents; 0 when there were none.
pub open spec fn running_prices(s: Seq<(InstrumentId, i64, i64, i64)>, id: InstrumentId) -> (
    int,
    int,
    int,
) {
    match prices_from(s, id, 0) {
        Some(i) => (s[i].1 as int, s[i].2 as int, s[i].3 as int),
        None => (0, 0, 0),
    }
}

/// With other prices of an instrument.
pub open spec fn with_prices(
    s: Seq<(InstrumentId, i64, i64, i64)>,
    id: InstrumentId,
    p: (int, int, int),
) -> Seq<(InstrumentId, i64, i64, i64)> {
    let entry = (id, p.0 as i64, p.1 as i64, p.2 as i64);
    match prices_from(s, id, 0) {
        Some(i) => s.update(i, entry),
        None => s.push(entry),
    }
}

/// Whether a number of cents is one that a price can hold.
pub open spec fn cents_fit(cents: int) -> bool {
    i64::MIN <= cents * 1_000_000 <= i64::MAX
}

/// The price of a number of cents.
pub open spec fn cents_price(cents: int) -> Price {
    (cents * 1_000_000) as i64
}

/// The prices of an instrument after an entry.
pub open spec fn moved_prices(p: (int, int, int), entry: TbtEntry) -> (int, int, int) {
    match entry {
        TbtEntry::Trade { price_cents_delta, .. } => (p.0 + price_cents_delta, p.1, p.2),
        TbtEntry::Quote { bid_cents_delta, ask_cents_delta, .. } => (
            p.0,
            p.1 + bid_cents_delta,
            p.2 + ask_cents_delta,
        ),
    }
}

impl TbtView {
    /// The instrument that entries are for: that of the first subscription.
    pub open spec fn instrument(self) -> Option<InstrumentId> {
        if self.subscriptions.len() > 0 {
            Some(self.subscriptions[0].0)
        } else {
            None
        }
    }

    /// Whether the prices after an entry can be represented.
    pub open spec fn entry_fits(self, entry: TbtEntry) -> bool {
        match self.instrument() {
            Some(id) => {
                let p = moved_prices(running_prices(self.prices, id), entry);
                match entry {
                    TbtEntry::Trade { .. } => cents_fit(p.0),
                    TbtEntry::Quote { .. } => cents_fit(p.1) && cents_fit(p.2),
                }
            },
            None => true,
        }
    }

    /// After an entry.
    pub open spec fn moved(self, entry: TbtEntry) -> TbtView {
        match self.instrument() {
            Some(id) => TbtView {
                prices: with_prices(
                    self.prices,
                    id,
                    moved_prices(running_prices(self.prices, id), entry),
                ),
                ..self
            },
            None => self,
        }
    }

    /// What an entry announces.
    pub open spec fn announced(self, entry: TbtEntry) -> Option<TbtEvent> {
        match self.instrument() {
            Some(instrument) => {
                let p = moved_prices(running_prices(self.prices, instrument), entry);
                Some(
                    match entry {
                        TbtEntry::Trade { timestamp, size, exchange, conditions, .. } =>
                            TbtEvent::Trade(
                            TbtTrade {
                                instrument,
                                price: cents_price(p.0),
                                size,
                                timestamp,
                                exchange,
                                conditions,
                            },
                        ),
                        TbtEntry::Quote { timestamp, bid_size, ask_size, .. } => TbtEvent::Quote(
                            TbtQuote {
                                instrument,
                                bid: cents_price(p.1),
                                ask: cents_price(p.2),
                                bid_size,
                                ask_size,
                                timestamp,
                            },
                        ),
                    },
                )
            },
            None => None,
        }
    }
}

fn price_of_cents(cents: i64) -> (r: Price)
    requires
        cents_fit(cents as int),
    ensures
        r == cents_price(cents as int),
{
    cents * 1_000_000
}

fn cents_are_fit(cents: i128) -> (r: bool)
    requires
        -0x1_0000_0000_0000_0000 <= cents <= 0x1_0000_0000_0000_0000,
    ensures
        r == cents_fit(cents as int),
{
    let price: i128 = cents * 1_000_000;
    -0x8000_0000_0000_0000 <= price && price <= 0x7fff_ffff_ffff_ffff
}

impl TbtState {
    /// No subscriptions.
    pub fn new() -> (r: Self)
        ensures
            r@ == (TbtView {
                next: 1,
                subscriptions: Seq::empty(),
                prices: Seq::empty(),
                disconnected: false,
            }),
    {
        let r = TbtState {
            next_tbt_req_id: 1,
            tbt_subscriptions: Vec::new(),
            tbt_price_state: Vec::new(),
            disconnected: false,
        };
        proof {
            assert(r@.subscriptions =~= Seq::empty());
        }
        r
    }

    fn find_prices(&self, id: InstrumentId) -> (r: Option<usize>)
        ensures
            pos_of(r) == prices_from(self@.prices, id, 0),
            r matches Some(i) ==> i < self@.prices.len(),
    {
        let mut i: usize = 0;
        while i < self.tbt_price_state.len()
            invariant
                i <= self.tbt_price_state.len(),
                prices_from(self@.prices, id, 0) == prices_from(self@.prices, id, i as int),
            decreases self.tbt_price_state.len() - i,
        {
            if self.tbt_price_state[i].0 == id {
                return Some(i);
            }
            i = i + 1;
        }
        None
    }

    /// The prices of an instrument: the last, the bid and the ask, in cents.
    pub fn tbt_prices(&self, id: InstrumentId) -> (r: (i64, i64, i64))
        ensures
            (r.0 as int, r.1 as int, r.2 as int) == running_prices(self@.prices, id),
    {
        match self.find_prices(id) {
            Some(i) => {
                let p = self.tbt_price_state[i];
                (p.1, p.2, p.3)
            },
            None => (0, 0, 0),
        }
    }

    fn set_prices(&mut self, id: InstrumentId, last: i64, bid: i64, ask: i64)
        ensures
            final(self)@ == (TbtView {
                prices: with_prices(
                    old(self)@.prices,
                    id,
                    (last as int, bid as int, ask as int),
                ),
                ..old(self)@
            }),
    {
        match self.find_prices(id) {
            Some(i) => {
                self.tbt_price_state[i] = (id, last, bid, ask);
            },
            None => {
                self.tbt_price_state.push((id, last, bid, ask));
            },
        }
        proof {
            assert(self@.subscriptions =~= old(self)@.subscriptions);
        }
    }

    /// Changes the last price of an instrument, and gives it, in cents.
    pub fn update_tbt_price(&mut self, instrument: InstrumentId, delta: i64) -> (r: i64)
        requires
            i64::MIN <= running_prices(old(self)@.prices, instrument).0 + delta <= i64::MAX,
        ensures
            ({
                let p = running_prices(old(self)@.prices, instrument);
                &&& r == p.0 + delta
                &&& final(self)@ == (TbtView {
                    prices: with_prices(old(self)@.prices, instrument, (p.0 + delta, p.1, p.2)),
                    ..old(self)@
                })
            }),
    {
        let (last, bid, ask) = self.tbt_prices(instrument);
        let cents: i64 = last + delta;
        self.set_prices(instrument, cents, bid, ask);
        cents
    }

    /// Changes the bid and the ask of an instrument, and gives them, in cents.
    pub fn update_tbt_bid_ask(
        &mut self,
        instrument: InstrumentId,
        bid_delta: i64,
        ask_delta: i64,
    ) -> (r: (i64, i64))
        requires
            i64::MIN <= running_prices(old(self)@.prices, instrument).1 + bid_delta <= i64::MAX,
            i64::MIN <= running_prices(old(self)@.prices, instrument).2 + ask_delta <= i64::MAX,
        ensures
            ({
                let p = running_prices(old(self)@.prices, instrument);
                &&& r.0 == p.1 + bid_delta
                &&& r.1 == p.2 + ask_delta
                &&& final(self)@ == (TbtView {
                    prices: with_prices(
                        old(self)@.prices,
                        instrument,
                        (p.0, p.1 + bid_delta, p.2 + ask_delta),
                    ),
                    ..old(self)@
                })
            }),
    {
        let (last, bid, ask) = self.tbt_prices(instrument);
        let new_bid: i64 = bid + bid_delta;
        let new_ask: i64 = ask + ask_delta;
        self.set_prices(instrument, last, new_bid, new_ask);
        (new_bid, new_ask)
    }

    /// Whether the prices after an entry can be represented.
    pub fn can_apply(&self, entry: &TbtEntry) -> (r: bool)
        ensures
            r == self@.entry_fits(*entry),
    {
        if self.tbt_subscriptions.len() == 0 {
            return true;
        }
        let id = self.tbt_subscriptions[0].0;
        proof {
            assert(self@.subscriptions[0].0 == id);
        }
        let (last, bid, ask) = self.tbt_prices(id);
        match entry {
            TbtEntry::Trade { price_cents_delta, .. } => cents_are_fit(
                last as i128 + *price_cents_delta as i128,
            ),
            TbtEntry::Quote { bid_cents_delta, ask_cents_delta, .. } => cents_are_fit(
                bid as i128 + *bid_cents_delta as i128,
            ) && cents_are_fit(ask as i128 + *ask_cents_delta as i128),
        }
    }

    /// Takes in an entry, and gives what it announces. Entries are for the instrument of the
    /// first subscription; without one they say nothing.
    pub fn handle_tbt_entry(&mut self, entry: TbtEntry) -> (r: Option<TbtEvent>)
        requires
            old(self)@.entry_fits(entry),
        ensures
            r == old(self)@.announced(entry),
            final(self)@ == old(self)@.moved(entry),
    {
        if self.tbt_subscriptions.len() == 0 {
            return None;
        }
        let instrument = self.tbt_subscriptions[0].0;
        proof {
            assert(self@.subscriptions[0].0 == instrument);
        }
        match entry {
            TbtEntry::Trade { timestamp, price_cents_delta, size, exchange, conditions } => {
                let cents = self.update_tbt_price(instrument, price_cents_delta);
                Some(
                    TbtEvent::Trade(
                        TbtTrade {
                            instrument,
                            price: price_of_cents(cents),
                            size,
                            timestamp,
                            exchange,
                            conditions,
                        },
                    ),
                )
            },
            TbtEntry::Quote { timestamp, bid_cents_delta, ask_cents_delta, bid_size, ask_size } => {
                let (bid, ask) = self.update_tbt_bid_ask(
                    instrument,
                    bid_cents_delta,
                    ask_cents_delta,
                );
                Some(
                    TbtEvent::Quote(
                        TbtQuote {
                            instrument,
                            bid: price_of_cents(bid),
                            ask: price_of_cents(ask),
                            bid_size,
                            ask_size,
                            timestamp,
                        },
                    ),
                )
            },
        }
    }
}

// ---------------------------------------------------------------------------------------
// Subscriptions
// ---------------------------------------------------------------------------------------

/// The name of a subscription.
pub open spec fn tbt_name(n: u32) -> Seq<char> {
    "tbt_"@ + dec(n as nat)
}

/// How a query names a kind of data.
pub open spec fn tbt_data(t: TbtType) -> Seq<char> {
    match t {
        TbtType::Last => "AllLast"@,
        TbtType::BidAsk => "BidAsk"@,
    }
}

/// The start of every query.
pub const QUERY_HEAD: &'static str = "<?xml version=\"1.0\" encoding=\"UTF-8\"?>";

/// The query that subscribes to a contract's data.
pub open spec fn tbt_query(n: u32, con_id: i64, t: TbtType) -> Seq<char> {
    QUERY_HEAD@ + "<ListOfQueries><Query><id>"@ + tbt_name(n) + "</id><contractID>"@ + int_text(
        con_id as int,
    )
        + "</contractID><exchange>BEST</exchange><secType>CS</secType><expired>no</expired><type>TickData</type><refresh>ticks</refresh><data>"@
        + tbt_data(t) + "</data><source>API</source></Query></ListOfQueries>"@
}

/// The query that ends a subscription.
pub open spec fn tbt_cancel_query(name: Seq<char>) -> Seq<char> {
    QUERY_HEAD@ + "<ListOfCancelQueries><CancelQuery><id>ticker:"@ + name
        + "</id></CancelQuery></ListOfCancelQueries>"@
}

/// The fields of a message that carries a query.
pub open spec fn query_message(kind: Seq<char>, now: Seq<char>, xml: Seq<char>) -> Seq<
    (u32, Seq<char>),
> {
    seq![(35u32, kind), (52u32, now), (6118u32, xml)]
}

fn query_fields(kind: &str, now: &str, xml: String) -> (r: Fields)
    ensures
        r@ == query_message(kind@, now@, xml@),
{
    let mut f = Fields::new();
    f.put_str(TAG_MSG_TYPE, kind);
    f.put_str(TAG_SENDING_TIME, now);
    let ghost text = xml@;
    f.put(6118, xml);
    proof {
        assert(f@ =~= query_message(kind@, now@, text));
    }
    f
}

/// The place of an instrument's subscription, from `i` on.
pub open spec fn tbt_from(
    s: Seq<(InstrumentId, Seq<char>, TbtType)>,
    id: InstrumentId,
    i: int,
) -> Option<int>
    decreases s.len() - i,
{
    if i < 0 || i >= s.len() {
        None
    } else if s[i].0 == id {
        Some(i)
    } else {
        tbt_from(s, id, i + 1)
    }
}

/// The prices without those of an instrument.
pub open spec fn without_prices(
    s: Seq<(InstrumentId, i64, i64, i64)>,
    id: InstrumentId,
) -> Seq<(InstrumentId, i64, i64, i64)>
    decreases s.len(),
{
    if s.len() == 0 {
        Seq::empty()
    } else {
        let rest = without_prices(s.drop_last(), id);
        if s.last().0 != id {
            rest.push(s.last())
        } else {
            rest
        }
    }
}

impl TbtView {
    /// After a subscription.
    pub open spec fn subscribed(self, instrument: InstrumentId, t: TbtType) -> TbtView {
        TbtView {
            next: (self.next + 1) as u32,
            subscriptions: self.subscriptions.push((instrument, tbt_name(self.next), t)),
            ..self
        }
    }

    /// After the end of an instrument's subscription.
    pub open spec fn unsubscribed(self, instrument: InstrumentId) -> TbtView {
        match tbt_from(self.subscriptions, instrument, 0) {
            Some(i) => TbtView {
                subscriptions: self.subscriptions.remove(i),
                prices: without_prices(self.prices, instrument),
                ..self
            },
            None => self,
        }
    }
}

impl TbtState {
    /// Remembers a subscription, and gives the message that asks for it.
    pub fn send_tbt_subscribe(
        &mut self,
        con_id: i64,
        instrument: InstrumentId,
        tbt_type: TbtType,
        now: &str,
    ) -> (r: Fields)
        requires
            old(self)@.next < u32::MAX,
        ensures
            final(self)@ == old(self)@.subscribed(instrument, tbt_type),
            r@ == query_message("W"@, now@, tbt_query(old(self)@.next, con_id, tbt_type)),
    {
        let n: u32 = self.next_tbt_req_id;
        self.next_tbt_req_id = n + 1;
        let name = join("tbt_", format_uint(n as u64).as_str());
        let data: &str = match tbt_type {
            TbtType::Last => "AllLast",
            TbtType::BidAsk => "BidAsk",
        };
        let a = join(QUERY_HEAD, "<ListOfQueries><Query><id>");
        let b = join(a.as_str(), name.as_str());
        let c = join(b.as_str(), "</id><contractID>");
        let d = join(c.as_str(), format_int(con_id).as_str());
        let e = join(
            d.as_str(),
            "</contractID><exchange>BEST</exchange><secType>CS</secType><expired>no</expired><type>TickData</type><refresh>ticks</refresh><data>",
        );
        let f = join(e.as_str(), data);
        let xml = join(f.as_str(), "</data><source>API</source></Query></ListOfQueries>");
        let ghost text = name@;
        self.tbt_subscriptions.push((instrument, name, tbt_type));
        proof {
            assert(self@.subscriptions =~= old(self)@.subscriptions.push(
                (instrument, text, tbt_type),
            ));
        }
        query_fields("W", now, xml)
    }

    fn find_subscription(&self, instrument: InstrumentId) -> (r: Option<usize>)
        ensures
            pos_of(r) == tbt_from(self@.subscriptions, instrument, 0),
            r matches Some(i) ==> i < self.tbt_subscriptions@.len(),
    {
        let mut i: usize = 0;
        while i < self.tbt_subscriptions.len()
            invariant
                i <= self.tbt_subscriptions.len(),
                tbt_from(self@.subscriptions, instrument, 0) == tbt_from(
                    self@.subscriptions,
                    instrument,
                    i as int,
                ),
            decreases self.tbt_subscriptions.len() - i,
        {
            proof {
                assert(self@.subscriptions[i as int].0 == self.tbt_subscriptions@[i as int].0);
            }
            if self.tbt_subscriptions[i].0 == instrument {
                return Some(i);
            }
            i = i + 1;
        }
        proof {
            assert(self@.subscriptions.len() == self.tbt_subscriptions@.len());
        }
        None
    }

    /// Forgets the subscription of an instrument and its prices, and gives the message that
    /// ends it.
    pub fn send_tbt_unsubscribe(&mut self, instrument: InstrumentId, now: &str) -> (r: Option<
        Fields,
    >)
        ensures
            final(self)@ == old(self)@.unsubscribed(instrument),
            match tbt_from(old(self)@.subscriptions, instrument, 0) {
                Some(i) => r matches Some(f) && f@ == query_message(
                    "Z"@,
                    now@,
                    tbt_cancel_query(old(self)@.subscriptions[i].1),
                ),
                None => r is None,
            },
    {
        match self.find_subscription(instrument) {
            Some(i) => {
                let (_, name, _) = self.tbt_subscriptions.remove(i);
                proof {
                    assert(old(self)@.subscriptions[i as int].1 == name@);
                    assert(self@.subscriptions =~= old(self)@.subscriptions.remove(i as int));
                }
                let ghost subscriptions = self@.subscriptions;
                let ghost all = self.tbt_price_state@;
                let mut left: Vec<(InstrumentId, i64, i64, i64)> = Vec::new();
                let mut k: usize = 0;
                proof {
                    assert(all.take(0) =~= Seq::empty());
                }
                while k < self.tbt_price_state.len()
                    invariant
                        k <= self.tbt_price_state.len(),
                        all == self.tbt_price_state@,
                        left@ == without_prices(all.take(k as int), instrument),
                    decreases self.tbt_price_state.len() - k,
                {
                    proof {
                        assert(all.take(k + 1).drop_last() =~= all.take(k as int));
                    }
                    let p = self.tbt_price_state[k];
                    if p.0 != instrument {
                        left.push(p);
                    }
                    k = k + 1;
                }
                self.tbt_price_state = left;
                proof {
                    assert(all.take(k as int) =~= all);
                    assert(self@.subscriptions == subscriptions);
                }
                let a = join(QUERY_HEAD, "<ListOfCancelQueries><CancelQuery><id>ticker:");
                let b = join(a.as_str(), name.as_str());
                let xml = join(b.as_str(), "</id></CancelQuery></ListOfCancelQueries>");
                Some(query_fields("Z", now, xml))
            },
            None => None,
        }
    }
}

// ---------------------------------------------------------------------------------------
// Laws
// ---------------------------------------------------------------------------------------

/// The running prices are the sums of the changes: an entry moves the prices of the first
/// subscription's instrument by what it says, and those of no other.
pub proof fn law_entries_add_up(s: TbtView, entry: TbtEntry, other: InstrumentId)
    requires
        s.instrument() is Some,
        s.entry_fits(entry),
        other != s.instrument()->0,
    ensures
        running_prices(s.moved(entry).prices, s.instrument()->0) == moved_prices(
            running_prices(s.prices, s.instrument()->0),
            entry,
        ),
        running_prices(s.moved(entry).prices, other) == running_prices(s.prices, other),
{
    let id = s.instrument()->0;
    let t = s.moved(entry).prices;
    lemma_prices_from(s.prices, id, 0);
    lemma_prices_from(t, id, 0);
    lemma_prices_from(s.prices, other, 0);
    lemma_prices_from(t, other, 0);
    let p = moved_prices(running_prices(s.prices, id), entry);
    let changed = (id, p.0 as i64, p.1 as i64, p.2 as i64);
    match prices_from(s.prices, id, 0) {
        Some(k) => {
            assert(t[k] == changed);
            assert forall|j: int| 0 <= j < t.len() && j != k implies #[trigger] t[j]
                == s.prices[j] by {}
            assert(prices_from(t, id, 0) == Some(k));
            lemma_same_place(s.prices, t, other, 0);
        },
        None => {
            assert(t.last() == changed);
            assert(t[t.len() - 1].0 == id);
            assert forall|j: int| 0 <= j < s.prices.len() implies #[trigger] t[j]
                == s.prices[j] by {}
            lemma_same_place_longer(s.prices, t, other, 0);
        },
    }
}

proof fn lemma_prices_from(s: Seq<(InstrumentId, i64, i64, i64)>, id: InstrumentId, i: int)
    requires
        0 <= i,
    ensures
        prices_from(s, id, i) matches Some(k) ==> i <= k < s.len() && s[k].0 == id && forall|
            j: int,
        |
            i <= j < k ==> (#[trigger] s[j]).0 != id,
        prices_from(s, id, i) is None ==> forall|k: int|
            i <= k < s.len() ==> (#[trigger] s[k]).0 != id,
    decreases s.len() - i,
{
    if i < s.len() && s[i].0 != id {
        lemma_prices_from(s, id, i + 1);
    }
}

proof fn lemma_same_place(
    s: Seq<(InstrumentId, i64, i64, i64)>,
    t: Seq<(InstrumentId, i64, i64, i64)>,
    id: InstrumentId,
    i: int,
)
    requires
        0 <= i,
        s.len() == t.len(),
        forall|j: int| 0 <= j < s.len() ==> (#[trigger] s[j]).0 == t[j].0,
    ensures
        prices_from(s, id, i) == prices_from(t, id, i),
    decreases s.len() - i,
{
    if i < s.len() {
        assert(s[i].0 == t[i].0);
        lemma_same_place(s, t, id, i + 1);
    }
}

proof fn lemma_same_place_longer(
    s: Seq<(InstrumentId, i64, i64, i64)>,
    t: Seq<(InstrumentId, i64, i64, i64)>,
    id: InstrumentId,
    i: int,
)
    requires
        0 <= i <= s.len(),
        s.len() + 1 == t.len(),
        t.last().0 != id,
        forall|j: int| 0 <= j < s.len() ==> (#[trigger] s[j]) == t[j],
    ensures
        prices_from(s, id, i) == prices_from(t, id, i),
    decreases s.len() - i,
{
    if i < s.len() {
        assert(s[i] == t[i]);
        lemma_same_place_longer(s, t, id, i + 1);
    } else {
        assert(t[i].0 != id);
        assert(prices_from(t, id, i + 1) is None);
    }
}

/// Ending the subscription of an instrument that has one, and no prices yet, undoes it, but for
/// the number that was used up.
pub proof fn law_tbt_unsubscribe_undoes_subscribe(s: TbtView, instrument: InstrumentId, t: TbtType)
    requires
        tbt_from(s.subscriptions, instrument, 0) is None,
        prices_from(s.prices, instrument, 0) is None,
    ensures
        s.subscribed(instrument, t).unsubscribed(instrument) == (TbtView {
            next: s.subscribed(instrument, t).next,
            ..s
        }),
{
    let u = s.subscribed(instrument, t);
    lemma_tbt_appended(s.subscriptions, u.subscriptions, instrument, 0);
    assert(u.subscriptions.remove(s.subscriptions.len() as int) =~= s.subscriptions);
    lemma_prices_from(s.prices, instrument, 0);
    lemma_without_absent(s.prices, instrument);
}

proof fn lemma_tbt_appended(
    s: Seq<(InstrumentId, Seq<char>, TbtType)>,
    t: Seq<(InstrumentId, Seq<char>, TbtType)>,
    id: InstrumentId,
    i: int,
)
    requires
        0 <= i <= s.len(),
        t.len() == s.len() + 1,
        t.last().0 == id,
        forall|j: int| 0 <= j < s.len() ==> (#[trigger] t[j]) == s[j],
        tbt_from(s, id, i) is None,
    ensures
        tbt_from(t, id, i) == Some(s.len() as int),
    decreases s.len() - i,
{
    if i < s.len() {
        assert(t[i] == s[i]);
        lemma_tbt_appended(s, t, id, i + 1);
    }
}

proof fn lemma_without_absent(s: Seq<(InstrumentId, i64, i64, i64)>, id: InstrumentId)
    requires
        forall|k: int| 0 <= k < s.len() ==> (#[trigger] s[k]).0 != id,
    ensures
        without_prices(s, id) == s,
    decreases s.len(),
{
    if s.len() > 0 {
        assert forall|k: int| 0 <= k < s.drop_last().len() implies (
        #[trigger] s.drop_last()[k]).0 != id by {
            assert(s.drop_last()[k] == s[k]);
        }
        lemma_without_absent(s.drop_last(), id);
        assert(s[s.len() - 1].0 != id);
        assert(s.drop_last().push(s.last()) =~= s);
    } else {
        assert(s =~= Seq::empty());
    }
}

} // verus!
