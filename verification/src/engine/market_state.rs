//! Quotes and the instruments they belong to.
use vstd::prelude::*;

use crate::text::text_eq;
use crate::types::{format_price, price_text, trunc_div, InstrumentId, Price, Qty, MAX_INSTRUMENTS};

verus! {

/// The latest prices and sizes of an instrument.
#[derive(Debug, Clone, Copy, PartialEq, Eq, Structural)]
pub struct Quote {
    pub bid: Price,
    pub ask: Price,
    pub last: Price,
    pub bid_size: Qty,
    pub ask_size: Qty,
    pub last_size: Qty,
    pub volume: Qty,
    pub open: Price,
    pub high: Price,
    pub low: Price,
    pub close: Price,
    pub timestamp_ns: u64,
}

/// A quote that holds nothing.
pub open spec fn zero_quote() -> Quote {
    Quote {
        bid: 0,
        ask: 0,
        last: 0,
        bid_size: 0,
        ask_size: 0,
        last_size: 0,
        volume: 0,
        open: 0,
        high: 0,
        low: 0,
        close: 0,
        timestamp_ns: 0,
    }
}

impl Default for Quote {
    fn default() -> (r: Self)
        ensures
            r == zero_quote(),
    {
        Quote {
            bid: 0,
            ask: 0,
            last: 0,
            bid_size: 0,
            ask_size: 0,
            last_size: 0,
            volume: 0,
            open: 0,
            high: 0,
            low: 0,
            close: 0,
            timestamp_ns: 0,
        }
    }
}

/// Where orders for an instrument go.
pub struct Route {
    pub sec_type: String,
    pub exchange: String,
}

/// What the market state holds.
pub ghost struct MarketView {
    /// The quote of each slot.
    pub quotes: Seq<Quote>,
    /// The contract id of each registered instrument.
    pub con_ids: Seq<i64>,
    /// The server tags and the instruments they stand for, in the order in which they came.
    pub server_tags: Seq<(u32, InstrumentId)>,
    /// The smallest price step of each slot, to the nearest price unit; 0 for none.
    pub min_ticks: Seq<Price>,
    /// The smallest price step of each slot as it was given, in decimal notation.
    pub step_texts: Seq<Seq<char>>,
    /// The symbol of each slot.
    pub symbols: Seq<Seq<char>>,
    /// The security type and exchange of each slot.
    pub routes: Seq<(Seq<char>, Seq<char>)>,
}

/// Quotes by instrument, and what is known of each instrument.
pub struct MarketState {
    quotes: Vec<Quote>,
    con_ids: Vec<i64>,
    server_tags: Vec<(u32, InstrumentId)>,
    min_ticks: Vec<Price>,
    step_texts: Vec<String>,
    symbols: Vec<String>,
    routes: Vec<Route>,
}

impl View for MarketState {
    type V = MarketView;

    closed spec fn view(&self) -> MarketView {
        MarketView {
            quotes: self.quotes@,
            con_ids: self.con_ids@,
            server_tags: self.server_tags@,
            min_ticks: self.min_ticks@,
            step_texts: self.step_texts@.map_values(|s: String| s@),
            symbols: self.symbols@.map_values(|s: String| s@),
            routes: self.routes@.map_values(|r: Route| (r.sec_type@, r.exchange@)),
        }
    }
}

impl MarketView {
    /// Whether each slot has its quote, step, symbol and route, no contract is registered
    /// twice, no server tag stands for two instruments, and no more instruments are registered
    /// than there are slots.
    pub open spec fn wf(self) -> bool {
        &&& self.quotes.len() == MAX_INSTRUMENTS
        &&& self.min_ticks.len() == MAX_INSTRUMENTS
        &&& self.step_texts.len() == MAX_INSTRUMENTS
        &&& self.symbols.len() == MAX_INSTRUMENTS
        &&& self.routes.len() == MAX_INSTRUMENTS
        &&& self.con_ids.len() <= MAX_INSTRUMENTS
        &&& self.con_ids.no_duplicates()
        &&& forall|i: int, j: int|
            0 <= i < j < self.server_tags.len() ==> (#[trigger] self.server_tags[i]).0 != (
            #[trigger] self.server_tags[j]).0
        &&& forall|i: int|
            0 <= i < self.server_tags.len() ==> (#[trigger] self.server_tags[i]).1
                < MAX_INSTRUMENTS
    }

    /// The instrument of a contract.
    pub open spec fn instrument_of(self, con_id: i64) -> Option<InstrumentId> {
        if self.con_ids.contains(con_id) {
            Some(self.con_ids.index_of(con_id) as u32)
        } else {
            None
        }
    }

    /// The contract id of an instrument.
    pub open spec fn con_id_of(self, id: InstrumentId) -> Option<i64> {
        if id < self.con_ids.len() {
            Some(self.con_ids[id as int])
        } else {
            None
        }
    }

    /// The instrument that a server tag stands for.
    pub open spec fn tagged(self, server_tag: u32) -> Option<InstrumentId> {
        if exists|i: int|
            0 <= i < self.server_tags.len() && (#[trigger] self.server_tags[i]).0 == server_tag {
            Some(
                self.server_tags[choose|i: int|
                    0 <= i < self.server_tags.len() && (#[trigger] self.server_tags[i]).0
                        == server_tag].1,
            )
        } else {
            None
        }
    }

    /// The state after a contract is registered.
    pub open spec fn registered(self, con_id: i64) -> MarketView {
        if self.con_ids.contains(con_id) {
            self
        } else {
            MarketView { con_ids: self.con_ids.push(con_id), ..self }
        }
    }

    /// With the smallest price step of an instrument set.
    pub open spec fn with_step(self, id: InstrumentId, min_tick: Price, text: Seq<char>) -> MarketView {
        MarketView {
            min_ticks: self.min_ticks.update(id as int, min_tick),
            step_texts: self.step_texts.update(id as int, text),
            ..self
        }
    }

    /// Where orders for an instrument go: its security type and its exchange, which is `BEST`
    /// for the smart router.
    pub open spec fn order_route(self, id: InstrumentId) -> (Seq<char>, Seq<char>) {
        let r = self.routes[id as int];
        (
            r.0,
            if r.1 == "SMART"@ {
                "BEST"@
            } else {
                r.1
            },
        )
    }
}

/// An empty market state.
pub open spec fn empty_market() -> MarketView {
    MarketView {
        quotes: Seq::new(MAX_INSTRUMENTS as nat, |i: int| zero_quote()),
        con_ids: Seq::empty(),
        server_tags: Seq::empty(),
        min_ticks: Seq::new(MAX_INSTRUMENTS as nat, |i: int| 0i64),
        step_texts: Seq::new(MAX_INSTRUMENTS as nat, |i: int| "0"@),
        symbols: Seq::new(MAX_INSTRUMENTS as nat, |i: int| Seq::<char>::empty()),
        routes: Seq::new(MAX_INSTRUMENTS as nat, |i: int| ("STK"@, "SMART"@)),
    }
}

impl MarketState {
    /// A market state without instruments.
    pub fn new() -> (r: Self)
        ensures
            r@ == empty_market(),
            r@.wf(),
    {
        let mut quotes: Vec<Quote> = Vec::new();
        let mut min_ticks: Vec<Price> = Vec::new();
        let mut step_texts: Vec<String> = Vec::new();
        let mut symbols: Vec<String> = Vec::new();
        let mut routes: Vec<Route> = Vec::new();
        let mut i: usize = 0;
        while i < MAX_INSTRUMENTS
            invariant
                i <= MAX_INSTRUMENTS,
                quotes@.len() == i,
                min_ticks@.len() == i,
                step_texts@.len() == i,
                symbols@.len() == i,
                routes@.len() == i,
                forall|k: int| 0 <= k < i ==> #[trigger] quotes@[k] == zero_quote(),
                forall|k: int| 0 <= k < i ==> #[trigger] min_ticks@[k] == 0,
                forall|k: int| 0 <= k < i ==> (#[trigger] step_texts@[k])@ == "0"@,
                forall|k: int| 0 <= k < i ==> (#[trigger] symbols@[k])@ == Seq::<char>::empty(),
                forall|k: int|
                    0 <= k < i ==> (#[trigger] routes@[k]).sec_type@ == "STK"@
                        && routes@[k].exchange@ == "SMART"@,
            decreases MAX_INSTRUMENTS - i,
        {
            quotes.push(Quote::default());
            min_ticks.push(0);
            step_texts.push("0".to_owned());
            symbols.push(String::new());
            routes.push(Route { sec_type: "STK".to_owned(), exchange: "SMART".to_owned() });
            i = i + 1;
        }
        let r = MarketState {
            quotes,
            con_ids: Vec::new(),
            server_tags: Vec::new(),
            min_ticks,
            step_texts,
            symbols,
            routes,
        };
        proof {
            assert(r@.quotes =~= empty_market().quotes);
            assert(r@.con_ids =~= empty_market().con_ids);
            assert(r@.server_tags =~= empty_market().server_tags);
            assert(r@.min_ticks =~= empty_market().min_ticks);
            assert(r@.step_texts =~= empty_market().step_texts);
            assert(r@.symbols =~= empty_market().symbols);
            assert(r@.routes =~= empty_market().routes);
        }
        r
    }

    /// The position of a contract id among the registered ones.
    fn position_of(&self, con_id: i64) -> (r: Option<usize>)
        requires
            self@.wf(),
        ensures
            match r {
                Some(i) => self@.con_ids.contains(con_id) && i == self@.con_ids.index_of(con_id)
                    && i < MAX_INSTRUMENTS && i < self@.con_ids.len(),
                None => !self@.con_ids.contains(con_id),
            },
    {
        let mut i: usize = 0;
        while i < self.con_ids.len()
            invariant
                i <= self.con_ids.len(),
                self@.wf(),
                forall|k: int| 0 <= k < i ==> #[trigger] self.con_ids@[k] != con_id,
            decreases self.con_ids.len() - i,
        {
            if self.con_ids[i] == con_id {
                proof {
                    let j = self@.con_ids.index_of(con_id);
                    assert(self@.con_ids[i as int] == con_id);
                    assert(self@.con_ids[j] == con_id);
                }
                return Some(i);
            }
            i = i + 1;
        }
        None
    }

    /// Registers a contract and gives its instrument: the one it has, or the next free one.
    /// `None`, with nothing changed, when there is no free one.
    pub fn try_register(&mut self, con_id: i64) -> (r: Option<InstrumentId>)
        requires
            old(self)@.wf(),
        ensures
            final(self)@.wf(),
            r is None <==> !old(self)@.con_ids.contains(con_id) && old(self)@.con_ids.len()
                == MAX_INSTRUMENTS,
            r is None ==> final(self)@ == old(self)@,
            r is Some ==> final(self)@ == old(self)@.registered(con_id),
            r is Some ==> r == final(self)@.instrument_of(con_id) && r->0 < MAX_INSTRUMENTS,
            r is Some && !old(self)@.con_ids.contains(con_id) ==> r->0 == old(self)@.con_ids.len(),
    {
        match self.position_of(con_id) {
            Some(i) => Some(i as u32),
            None => {
                let n: usize = self.con_ids.len();
                if n >= MAX_INSTRUMENTS {
                    return None;
                }
                self.con_ids.push(con_id);
                proof {
                    let ids = self@.con_ids;
                    assert(ids =~= old(self)@.con_ids.push(con_id));
                    assert(ids[n as int] == con_id);
                    assert(ids.contains(con_id));
                    let j = ids.index_of(con_id);
                    assert(ids[j] == con_id);
                    if j != n {
                        assert(old(self)@.con_ids[j] == con_id);
                    }
                    assert(self@.step_texts =~= old(self)@.step_texts);
                    assert(self@.symbols =~= old(self)@.symbols);
                    assert(self@.routes =~= old(self)@.routes);
                    assert(self@ == old(self)@.registered(con_id));
                }
                Some(n as u32)
            },
        }
    }

    /// Registers a contract and gives its instrument: the one it has, or the next free one.
    pub fn register(&mut self, con_id: i64) -> (r: InstrumentId)
        requires
            old(self)@.wf(),
            old(self)@.con_ids.contains(con_id) || old(self)@.con_ids.len() < MAX_INSTRUMENTS,
        ensures
            final(self)@.wf(),
            final(self)@ == old(self)@.registered(con_id),
            Some(r) == final(self)@.instrument_of(con_id),
            !old(self)@.con_ids.contains(con_id) ==> r == old(self)@.con_ids.len(),
            r < MAX_INSTRUMENTS,
    {
        match self.try_register(con_id) {
            Some(id) => id,
            None => 0,
        }
    }

    /// The number of registered instruments.
    pub fn count(&self) -> (r: u32)
        requires
            self@.wf(),
        ensures
            r == self@.con_ids.len(),
    {
        self.con_ids.len() as u32
    }

    /// The contract id of an instrument.
    pub fn con_id(&self, id: InstrumentId) -> (r: Option<i64>)
        ensures
            r == self@.con_id_of(id),
    {
        if (id as usize) < self.con_ids.len() {
            Some(self.con_ids[id as usize])
        } else {
            None
        }
    }

    /// The instrument of a contract. `None` when it is not registered.
    pub fn instrument_by_con_id(&self, con_id: i64) -> (r: Option<InstrumentId>)
        requires
            self@.wf(),
        ensures
            r == self@.instrument_of(con_id),
            r matches Some(i) ==> i < MAX_INSTRUMENTS && i < self@.con_ids.len(),
    {
        match self.position_of(con_id) {
            Some(i) => Some(i as u32),
            None => None,
        }
    }

    /// Has a server tag stand for an instrument, unless it stands for one already.
    pub fn register_server_tag(&mut self, server_tag: u32, instrument: InstrumentId)
        requires
            old(self)@.wf(),
            instrument < MAX_INSTRUMENTS,
        ensures
            final(self)@.wf(),
            final(self)@ == (if old(self)@.tagged(server_tag) is Some {
                old(self)@
            } else {
                MarketView {
                    server_tags: old(self)@.server_tags.push((server_tag, instrument)),
                    ..old(self)@
                }
            }),
    {
        if self.instrument_by_server_tag(server_tag).is_some() {
            return ;
        }
        self.server_tags.push((server_tag, instrument));
        proof {
            assert(self@.step_texts =~= old(self)@.step_texts);
            assert(self@.symbols =~= old(self)@.symbols);
            assert(self@.routes =~= old(self)@.routes);
            assert forall|i: int, j: int| 0 <= i < j < self@.server_tags.len() implies (
            #[trigger] self@.server_tags[i]).0 != (#[trigger] self@.server_tags[j]).0 by {
                if j == self@.server_tags.len() - 1 {
                    assert(old(self)@.server_tags[i].0 != server_tag);
                }
            }
        }
    }

    /// The instrument that a server tag stands for. `None` when it stands for none.
    pub fn instrument_by_server_tag(&self, server_tag: u32) -> (r: Option<InstrumentId>)
        requires
            self@.wf(),
        ensures
            r == self@.tagged(server_tag),
            r matches Some(i) ==> i < MAX_INSTRUMENTS,
    {
        let mut i: usize = 0;
        while i < self.server_tags.len()
            invariant
                i <= self.server_tags.len(),
                self@.wf(),
                forall|k: int| 0 <= k < i ==> (#[trigger] self@.server_tags[k]).0 != server_tag,
            decreases self.server_tags.len() - i,
        {
            if self.server_tags[i].0 == server_tag {
                proof {
                    assert(self@.server_tags[i as int].0 == server_tag);
                    let j = choose|j: int|
                        0 <= j < self@.server_tags.len() && (#[trigger] self@.server_tags[j]).0
                            == server_tag;
                    assert(j == i);
                }
                return Some(self.server_tags[i].1);
            }
            proof {
                assert(self@.server_tags[i as int].0 != server_tag);
            }
            i = i + 1;
        }
        None
    }

    /// How many server tags stand for instruments.
    pub fn server_tag_count(&self) -> (r: usize)
        ensures
            r == self@.server_tags.len(),
    {
        self.server_tags.len()
    }

    /// Has no server tag stand for an instrument any more.
    pub fn clear_server_tags(&mut self)
        ensures
            final(self)@ == (MarketView { server_tags: Seq::empty(), ..old(self)@ }),
            old(self)@.wf() ==> final(self)@.wf(),
    {
        self.server_tags = Vec::new();
        proof {
            assert(self@.server_tags =~= Seq::empty());
            assert(self@.step_texts =~= old(self)@.step_texts);
            assert(self@.symbols =~= old(self)@.symbols);
            assert(self@.routes =~= old(self)@.routes);
        }
    }

    /// Sets all quotes to zero.
    pub fn zero_all_quotes(&mut self)
        requires
            old(self)@.wf(),
        ensures
            final(self)@ == (MarketView { quotes: empty_market().quotes, ..old(self)@ }),
            final(self)@.wf(),
    {
        let mut quotes: Vec<Quote> = Vec::new();
        let mut i: usize = 0;
        while i < MAX_INSTRUMENTS
            invariant
                i <= MAX_INSTRUMENTS,
                quotes@.len() == i,
                forall|k: int| 0 <= k < i ==> #[trigger] quotes@[k] == zero_quote(),
            decreases MAX_INSTRUMENTS - i,
        {
            quotes.push(Quote::default());
            i = i + 1;
        }
        self.quotes = quotes;
        proof {
            assert(self@.quotes =~= empty_market().quotes);
            assert(self@.step_texts =~= old(self)@.step_texts);
            assert(self@.symbols =~= old(self)@.symbols);
            assert(self@.routes =~= old(self)@.routes);
        }
    }

    /// Sets the smallest price step of an instrument.
    pub fn set_min_tick(&mut self, id: InstrumentId, min_tick: Price)
        requires
            old(self)@.wf(),
            id < MAX_INSTRUMENTS,
        ensures
            final(self)@.wf(),
            final(self)@ == old(self)@.with_step(id, min_tick, price_text(min_tick as int)),
    {
        self.set_step(id, min_tick, format_price(min_tick));
    }

    /// Sets the smallest price step of an instrument: its nearest price unit, and the text that
    /// gives it.
    pub fn set_step(&mut self, id: InstrumentId, min_tick: Price, text: String)
        requires
            old(self)@.wf(),
            id < MAX_INSTRUMENTS,
        ensures
            final(self)@.wf(),
            final(self)@ == old(self)@.with_step(id, min_tick, text@),
    {
        let ghost given = text@;
        self.min_ticks[id as usize] = min_tick;
        self.step_texts[id as usize] = text;
        proof {
            assert(self@.step_texts =~= old(self)@.step_texts.update(id as int, given));
            assert(self@.server_tags == old(self)@.server_tags);
            assert(self@.con_ids == old(self)@.con_ids);
            assert(self@.symbols =~= old(self)@.symbols);
            assert(self@.routes =~= old(self)@.routes);
        }
    }

    /// The smallest price step of an instrument as it was given, in decimal notation.
    pub fn step_text(&self, id: InstrumentId) -> (r: &str)
        requires
            self@.wf(),
            id < MAX_INSTRUMENTS,
        ensures
            r@ == self@.step_texts[id as int],
    {
        self.step_texts[id as usize].as_str()
    }

    /// The smallest price step of an instrument, to the nearest price unit; 0 when it is not
    /// known.
    pub fn min_tick(&self, id: InstrumentId) -> (r: Price)
        requires
            self@.wf(),
            id < MAX_INSTRUMENTS,
        ensures
            r == self@.min_ticks[id as int],
    {
        self.min_ticks[id as usize]
    }

    /// Sets the symbol of an instrument.
    pub fn set_symbol(&mut self, id: InstrumentId, symbol: String)
        requires
            old(self)@.wf(),
            id < MAX_INSTRUMENTS,
        ensures
            final(self)@.wf(),
            final(self)@ == (MarketView {
                symbols: old(self)@.symbols.update(id as int, symbol@),
                ..old(self)@
            }),
    {
        let ghost text = symbol@;
        self.symbols[id as usize] = symbol;
        proof {
            assert(self@.symbols =~= old(self)@.symbols.update(id as int, text));
            assert(self@.routes =~= old(self)@.routes);
        }
    }

    /// The symbol of an instrument.
    pub fn symbol(&self, id: InstrumentId) -> (r: &str)
        requires
            self@.wf(),
            id < MAX_INSTRUMENTS,
        ensures
            r@ == self@.symbols[id as int],
    {
        self.symbols[id as usize].as_str()
    }

    /// Sets the security type and exchange of an instrument.
    pub fn set_routing(&mut self, id: InstrumentId, sec_type: String, exchange: String)
        requires
            old(self)@.wf(),
            id < MAX_INSTRUMENTS,
        ensures
            final(self)@.wf(),
            final(self)@ == (MarketView {
                routes: old(self)@.routes.update(id as int, (sec_type@, exchange@)),
                ..old(self)@
            }),
    {
        let ghost route = (sec_type@, exchange@);
        self.routes[id as usize] = Route { sec_type, exchange };
        proof {
            assert(self@.step_texts =~= old(self)@.step_texts);
            assert(self@.symbols =~= old(self)@.symbols);
            assert(self@.routes =~= old(self)@.routes.update(id as int, route));
        }
    }

    /// Where orders for an instrument go: its security type and its destination.
    pub fn order_routing(&self, id: InstrumentId) -> (r: (String, String))
        requires
            self@.wf(),
            id < MAX_INSTRUMENTS,
        ensures
            (r.0@, r.1@) == self@.order_route(id),
    {
        let route = &self.routes[id as usize];
        let destination = if text_eq(route.exchange.as_str(), "SMART") {
            "BEST".to_owned()
        } else {
            route.exchange.clone()
        };
        (route.sec_type.clone(), destination)
    }

    /// The quote of an instrument.
    pub fn quote(&self, id: InstrumentId) -> (r: &Quote)
        requires
            self@.wf(),
            id < MAX_INSTRUMENTS,
        ensures
            *r == self@.quotes[id as int],
    {
        &self.quotes[id as usize]
    }

    /// Sets the quote of an instrument.
    pub fn set_quote(&mut self, id: InstrumentId, quote: Quote)
        requires
            old(self)@.wf(),
            id < MAX_INSTRUMENTS,
        ensures
            final(self)@.wf(),
            final(self)@ == (MarketView {
                quotes: old(self)@.quotes.update(id as int, quote),
                ..old(self)@
            }),
    {
        self.quotes[id as usize] = quote;
        proof {
            assert(self@.step_texts =~= old(self)@.step_texts);
            assert(self@.symbols =~= old(self)@.symbols);
            assert(self@.routes =~= old(self)@.routes);
        }
    }

    /// The quote of an instrument, to be changed.
    pub fn quote_mut(&mut self, id: InstrumentId) -> (r: &mut Quote)
        requires
            old(self)@.wf(),
            id < MAX_INSTRUMENTS,
        ensures
            *r == old(self)@.quotes[id as int],
            final(self)@ == (MarketView {
                quotes: old(self)@.quotes.update(id as int, *final(r)),
                ..old(self)@
            }),
    {
        proof {
            assert(self@.step_texts =~= old(self)@.step_texts);
            assert(self@.symbols =~= old(self)@.symbols);
            assert(self@.routes =~= old(self)@.routes);
        }
        &mut self.quotes[id as usize]
    }

    /// The bid price of an instrument.
    pub fn bid(&self, id: InstrumentId) -> (r: Price)
        requires
            self@.wf(),
            id < MAX_INSTRUMENTS,
        ensures
            r == self@.quotes[id as int].bid,
    {
        self.quotes[id as usize].bid
    }

    /// The ask price of an instrument.
    pub fn ask(&self, id: InstrumentId) -> (r: Price)
        requires
            self@.wf(),
            id < MAX_INSTRUMENTS,
        ensures
            r == self@.quotes[id as int].ask,
    {
        self.quotes[id as usize].ask
    }

    /// The last price of an instrument.
    pub fn last(&self, id: InstrumentId) -> (r: Price)
        requires
            self@.wf(),
            id < MAX_INSTRUMENTS,
        ensures
            r == self@.quotes[id as int].last,
    {
        self.quotes[id as usize].last
    }

    /// The bid size of an instrument.
    pub fn bid_size(&self, id: InstrumentId) -> (r: Qty)
        requires
            self@.wf(),
            id < MAX_INSTRUMENTS,
        ensures
            r == self@.quotes[id as int].bid_size,
    {
        self.quotes[id as usize].bid_size
    }

    /// The ask size of an instrument.
    pub fn ask_size(&self, id: InstrumentId) -> (r: Qty)
        requires
            self@.wf(),
            id < MAX_INSTRUMENTS,
        ensures
            r == self@.quotes[id as int].ask_size,
    {
        self.quotes[id as usize].ask_size
    }

    /// The price halfway between bid and ask, rounded toward zero.
    pub fn mid(&self, id: InstrumentId) -> (r: Price)
        requires
            self@.wf(),
            id < MAX_INSTRUMENTS,
            i64::MIN <= self@.quotes[id as int].bid + self@.quotes[id as int].ask <= i64::MAX,
        ensures
            r == trunc_div(self@.quotes[id as int].bid + self@.quotes[id as int].ask, 2),
    {
        let sum: i64 = self.quotes[id as usize].bid + self.quotes[id as usize].ask;
        if sum >= 0 {
            sum / 2
        } else {
            let mag: i128 = -(sum as i128);
            (-(mag / 2)) as i64
        }
    }

    /// The distance from bid to ask.
    pub fn spread(&self, id: InstrumentId) -> (r: Price)
        requires
            self@.wf(),
            id < MAX_INSTRUMENTS,
            i64::MIN <= self@.quotes[id as int].ask - self@.quotes[id as int].bid <= i64::MAX,
        ensures
            r == self@.quotes[id as int].ask - self@.quotes[id as int].bid,
    {
        self.quotes[id as usize].ask - self.quotes[id as usize].bid
    }
}

/// Instruments are numbered in the order in which their contracts are registered, from 0 on:
/// registering a contract gives it the number of those before it, and leaves the others
/// theirs.
pub proof fn law_sequential_ids(m: MarketView, con_id: i64, other: i64)
    requires
        m.wf(),
        m.con_ids.len() < MAX_INSTRUMENTS,
    ensures
        !m.con_ids.contains(con_id) ==> m.registered(con_id).instrument_of(con_id) == Some(
            m.con_ids.len() as u32,
        ),
        m.con_ids.contains(other) ==> m.registered(con_id).instrument_of(other) == m.instrument_of(
            other,
        ),
{
    let ids = m.con_ids;
    let after = m.registered(con_id).con_ids;
    if !ids.contains(con_id) {
        let n = ids.len() as int;
        assert(after[n] == con_id);
        let j = after.index_of(con_id);
        assert(after[j] == con_id);
        if j != n {
            assert(ids[j] == con_id);
        }
        if ids.contains(other) {
            let k = ids.index_of(other);
            assert(ids[k] == other);
            assert(after[k] == other);
            let l = after.index_of(other);
            assert(after[l] == other);
            if l != k {
                if l < n {
                    assert(ids[l] == other);
                }
            }
        }
    }
}

/// Registering a contract twice is the same as registering it once.
pub proof fn law_register_idempotent(m: MarketView, con_id: i64)
    ensures
        m.registered(con_id).registered(con_id) == m.registered(con_id),
{
    if !m.con_ids.contains(con_id) {
        let after = m.con_ids.push(con_id);
        assert(after[m.con_ids.len() as int] == con_id);
    }
}

} // verus!
