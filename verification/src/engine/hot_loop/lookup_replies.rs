//! Lookups by symbol, and what follows from the answers to lookups.
use vstd::prelude::*;

use crate::bridge::{blank_contract, Contract, ContractCache, ContractView};
use crate::engine::hot_loop::lookups::{
    count_on, counted, deadline_after, delivered, fanout_request, fanout_request_fields, later,
    match_views, scanners_released, schedule_request, schedule_request_fields, swap_removed,
    ContractDefinition, EventView, FanoutView, LookupEvent, LookupView, Lookups, PendingFanout,
    PendingSchedulePair, Schedule, SymbolMatch, SymbolMatchView, INTERNAL_REQUEST,
    SCHEDULE_TIMEOUT, SECDEF_TIMEOUT,
};
use crate::protocol::fix::{Fields, TAG_MSG_TYPE, TAG_SENDING_TIME};
use crate::text::{
    dec, format_uint, join, parse_u32, parsed_int, string_texts, text_eq, to_uppercase, upper_text,
};

verus! {

// ---------------------------------------------------------------------------------------
// Lookups by symbol
// ---------------------------------------------------------------------------------------

/// What narrows a lookup by symbol. An empty text asks for nothing.
pub struct SecDefFilters {
    pub local_symbol: String,
    pub trading_class: String,
    pub last_trade_date_or_contract_month: String,
    pub right: String,
    /// The strike price, as text; empty when none is asked for.
    pub strike: String,
    pub multiplier: String,
    pub primary_exchange: String,
    pub sec_id_type: String,
    pub sec_id: String,
}

/// What a [`SecDefFilters`] holds.
pub ghost struct SecDefFiltersView {
    pub local_symbol: Seq<char>,
    pub trading_class: Seq<char>,
    pub last_trade_date_or_contract_month: Seq<char>,
    pub right: Seq<char>,
    pub strike: Seq<char>,
    pub multiplier: Seq<char>,
    pub primary_exchange: Seq<char>,
    pub sec_id_type: Seq<char>,
    pub sec_id: Seq<char>,
}

impl View for SecDefFilters {
    type V = SecDefFiltersView;

    open spec fn view(&self) -> SecDefFiltersView {
        SecDefFiltersView {
            local_symbol: self.local_symbol@,
            trading_class: self.trading_class@,
            last_trade_date_or_contract_month: self.last_trade_date_or_contract_month@,
            right: self.right@,
            strike: self.strike@,
            multiplier: self.multiplier@,
            primary_exchange: self.primary_exchange@,
            sec_id_type: self.sec_id_type@,
            sec_id: self.sec_id@,
        }
    }
}

/// The number of an identifier's kind, by its name in upper case; empty for one that cannot be
/// looked up.
pub open spec fn id_source(kind: Seq<char>) -> Seq<char> {
    if kind == "ISIN"@ {
        "4"@
    } else if kind == "CUSIP"@ {
        "1"@
    } else {
        Seq::empty()
    }
}

/// The number of an option's right, by its name in upper case; empty for none.
pub open spec fn right_code(right: Seq<char>) -> Seq<char> {
    if right == "C"@ || right == "CALL"@ {
        "1"@
    } else if right == "P"@ || right == "PUT"@ {
        "0"@
    } else {
        Seq::empty()
    }
}

/// How a lookup names the smart exchange.
pub open spec fn lookup_exchange(exchange: Seq<char>) -> Seq<char> {
    if exchange == "SMART"@ {
        "BEST"@
    } else {
        exchange
    }
}

/// How a lookup names a kind of security.
pub open spec fn lookup_sec_type(sec_type: Seq<char>) -> Seq<char> {
    if sec_type == "STK"@ {
        "CS"@
    } else {
        sec_type
    }
}

/// A field, unless its value is empty.
pub open spec fn field_if_set(tag: u32, value: Seq<char>) -> Seq<(u32, Seq<char>)> {
    if value.len() == 0 {
        Seq::empty()
    } else {
        seq![(tag, value)]
    }
}

/// What a lookup looks for: an identifier of a known kind, or else a symbol, narrowed by what
/// else is given.
pub open spec fn lookup_subject(
    symbol: Seq<char>,
    sec_type: Seq<char>,
    filters: SecDefFiltersView,
    source: Seq<char>,
    right: Seq<char>,
) -> Seq<(u32, Seq<char>)> {
    if filters.sec_id.len() > 0 && source.len() > 0 {
        seq![(22u32, source), (48u32, filters.sec_id)]
    } else {
        seq![
            if filters.local_symbol.len() > 0 {
                (6035u32, filters.local_symbol)
            } else {
                (55u32, symbol)
            },
        ] + field_if_set(6058, filters.trading_class) + seq![(167u32, lookup_sec_type(sec_type))]
            + field_if_set(200, filters.last_trade_date_or_contract_month) + field_if_set(
            201,
            right,
        ) + field_if_set(202, filters.strike) + field_if_set(231, filters.multiplier)
    }
}

/// The fields of a lookup by symbol. `id_type` and `right` are the upper case of what the
/// filters say.
pub open spec fn symbol_lookup(
    now: Seq<char>,
    req_id: u32,
    symbol: Seq<char>,
    sec_type: Seq<char>,
    exchange: Seq<char>,
    currency: Seq<char>,
    filters: SecDefFiltersView,
    id_type: Seq<char>,
    right: Seq<char>,
) -> Seq<(u32, Seq<char>)> {
    let source = id_source(id_type);
    seq![(35u32, "c"@), (52u32, now), (320u32, dec(req_id as nat)), (321u32, "2"@)]
        + lookup_subject(symbol, sec_type, filters, source, right_code(right)) + seq![
        (100u32, lookup_exchange(exchange)),
    ] + (if filters.sec_id.len() > 0 && source.len() > 0 {
        Seq::empty()
    } else {
        field_if_set(207, filters.primary_exchange)
    }) + seq![(15u32, currency)] + seq![(6088u32, "Socket"@)]
}

fn put_if_set(f: &mut Fields, tag: u32, value: &str)
    ensures
        final(f)@ == old(f)@ + field_if_set(tag, value@),
{
    if !is_empty(value) {
        f.put_str(tag, value);
    }
    proof {
        assert(f@ =~= old(f)@ + field_if_set(tag, value@));
    }
}

fn is_empty(s: &str) -> (r: bool)
    ensures
        r == (s@.len() == 0),
{
    crate::text::chars_of(s).len() == 0
}

fn id_source_of(kind: &str) -> (r: &'static str)
    ensures
        r@ == id_source(kind@),
{
    if text_eq(kind, "ISIN") {
        "4"
    } else if text_eq(kind, "CUSIP") {
        "1"
    } else {
        proof {
            reveal_strlit("");
            assert(""@ =~= Seq::empty());
        }
        ""
    }
}

fn right_code_of(right: &str) -> (r: &'static str)
    ensures
        r@ == right_code(right@),
{
    if text_eq(right, "C") || text_eq(right, "CALL") {
        "1"
    } else if text_eq(right, "P") || text_eq(right, "PUT") {
        "0"
    } else {
        proof {
            reveal_strlit("");
            assert(""@ =~= Seq::empty());
        }
        ""
    }
}

fn put_subject(
    f: &mut Fields,
    symbol: &str,
    sec_type: &str,
    filters: &SecDefFilters,
    source: &str,
    right: &str,
)
    ensures
        final(f)@ == old(f)@ + lookup_subject(symbol@, sec_type@, filters@, source@, right@),
{
    if !is_empty(filters.sec_id.as_str()) && !is_empty(source) {
        f.put_str(22, source);
        f.put_str(48, filters.sec_id.as_str());
    } else {
        if !is_empty(filters.local_symbol.as_str()) {
            f.put_str(6035, filters.local_symbol.as_str());
        } else {
            f.put_str(55, symbol);
        }
        put_if_set(f, 6058, filters.trading_class.as_str());
        f.put_str(
            167,
            if text_eq(sec_type, "STK") {
                "CS"
            } else {
                sec_type
            },
        );
        put_if_set(f, 200, filters.last_trade_date_or_contract_month.as_str());
        put_if_set(f, 201, right);
        put_if_set(f, 202, filters.strike.as_str());
        put_if_set(f, 231, filters.multiplier.as_str());
    }
    proof {
        assert(f@ =~= old(f)@ + lookup_subject(symbol@, sec_type@, filters@, source@, right@));
    }
}

/// The message of a lookup by symbol. `id_type` and `right` are the upper case of what the
/// filters say.
pub fn symbol_lookup_fields(
    now: &str,
    req_id: u32,
    symbol: &str,
    sec_type: &str,
    exchange: &str,
    currency: &str,
    filters: &SecDefFilters,
    id_type: &str,
    right: &str,
) -> (r: Fields)
    ensures
        r@ == symbol_lookup(
            now@,
            req_id,
            symbol@,
            sec_type@,
            exchange@,
            currency@,
            filters@,
            id_type@,
            right@,
        ),
{
    let source = id_source_of(id_type);
    let by_identifier = !is_empty(filters.sec_id.as_str()) && !is_empty(source);
    let mut f = Fields::new();
    f.put_str(TAG_MSG_TYPE, "c");
    f.put_str(TAG_SENDING_TIME, now);
    f.put_uint(320, req_id as u64);
    f.put_str(321, "2");
    proof {
        assert(f@ =~= seq![
            (35u32, "c"@),
            (52u32, now@),
            (320u32, dec(req_id as nat)),
            (321u32, "2"@),
        ]);
    }
    put_subject(&mut f, symbol, sec_type, filters, source, right_code_of(right));
    f.put_str(
        100,
        if text_eq(exchange, "SMART") {
            "BEST"
        } else {
            exchange
        },
    );
    if !by_identifier {
        put_if_set(&mut f, 207, filters.primary_exchange.as_str());
    }
    f.put_str(15, currency);
    f.put_str(6088, "Socket");
    proof {
        assert(f@ =~= symbol_lookup(
            now@,
            req_id,
            symbol@,
            sec_type@,
            exchange@,
            currency@,
            filters@,
            id_type@,
            right@,
        ));
    }
    f
}

impl Lookups {
    /// Looks a contract up by its symbol. The answers come in more than one message.
    pub fn send_secdef_request_by_symbol(
        &mut self,
        req_id: u32,
        symbol: &str,
        sec_type: &str,
        exchange: &str,
        currency: &str,
        filters: &SecDefFilters,
        connected: bool,
        stamp: &str,
        now: u64,
    )
        ensures
            final(self)@ == (LookupView {
                secdefs: old(self)@.secdefs.push((req_id, false, later(now, SECDEF_TIMEOUT))),
                ..old(self)@.sent(
                    connected,
                    symbol_lookup(
                        stamp@,
                        req_id,
                        symbol@,
                        sec_type@,
                        exchange@,
                        currency@,
                        filters@,
                        upper_text(filters@.sec_id_type),
                        upper_text(filters@.right),
                    ),
                )
            }),
            old(self)@.wf() ==> final(self)@.wf(),
    {
        let id_type = to_uppercase(filters.sec_id_type.as_str());
        let right = to_uppercase(filters.right.as_str());
        let f = symbol_lookup_fields(
            stamp,
            req_id,
            symbol,
            sec_type,
            exchange,
            currency,
            filters,
            id_type.as_str(),
            right.as_str(),
        );
        self.send(connected, f);
        let ghost before = self@;
        self.pending_secdef.push((req_id, false, deadline_after(now, SECDEF_TIMEOUT)));
        proof {
            assert(self@.fanouts =~= before.fanouts);
            assert(self@.scanners =~= before.scanners);
            assert(self@.events =~= before.events);
            assert(self@.outbox =~= before.outbox);
        }
    }
}

// ---------------------------------------------------------------------------------------
// Rejections, matches and trading hours
// ---------------------------------------------------------------------------------------

/// After the server has rejected a message. It does not say which one: the rejection counts as
/// the answer to a lookup only when that is the one thing under way.
pub open spec fn after_session_reject(s: LookupView, reason: Seq<char>) -> LookupView {
    if s.secdefs.len() == 1 && s.fanouts.len() == 0 {
        let id = s.secdefs[0].0;
        let rest = LookupView { secdefs: Seq::empty(), ..s };
        if id < INTERNAL_REQUEST {
            rest.told(
                EventView::Error(id, 200, "contract details request rejected: "@ + reason),
            ).told(EventView::End(id))
        } else {
            rest
        }
    } else {
        s
    }
}

/// The place of a request in a list, from `i` on.
pub open spec fn request_from(s: Seq<u32>, id: u32, i: int) -> Option<int>
    decreases s.len() - i,
{
    if i < 0 || i >= s.len() {
        None
    } else if s[i] == id {
        Some(i)
    } else {
        request_from(s, id, i + 1)
    }
}

proof fn lemma_request_from(s: Seq<u32>, id: u32, i: int)
    requires
        0 <= i,
    ensures
        request_from(s, id, i) matches Some(k) ==> i <= k < s.len() && s[k] == id,
    decreases s.len() - i,
{
    if i < s.len() && s[i] != id {
        lemma_request_from(s, id, i + 1);
    }
}

/// The request that a list of matches answers: the one that it names, or the only one there
/// is when it names none.
pub open spec fn answered_pattern(matching: Seq<u32>, echoed: Option<u32>) -> Option<int> {
    match echoed {
        Some(id) => request_from(matching, id, 0),
        None => if matching.len() == 1 {
            Some(0int)
        } else {
            None
        },
    }
}

/// After a list of matches. `ready` tells whether the answer is the list itself and not a note
/// that it is to come. A list that belongs to no request is dropped; an empty one is an answer
/// like any other.
pub open spec fn after_matches(
    s: LookupView,
    ready: bool,
    echoed: Option<u32>,
    matches: Seq<SymbolMatchView>,
) -> LookupView {
    if !ready {
        s
    } else {
        match answered_pattern(s.matching, echoed) {
            Some(i) => LookupView { matching: s.matching.remove(i), ..s }.told(
                EventView::Matches(s.matching[i], matches),
            ),
            None => s,
        }
    }
}

/// The place of the first definition that waits under a key, from `i` on.
pub open spec fn pair_by_key(s: Seq<PendingSchedulePair>, key: Seq<char>, i: int) -> Option<int>
    decreases s.len() - i,
{
    if i < 0 || i >= s.len() {
        None
    } else if s[i].def.join_key@ == key {
        Some(i)
    } else {
        pair_by_key(s, key, i + 1)
    }
}

/// A definition with its trading hours, if there are any.
pub open spec fn with_hours(def: ContractDefinition, schedule: Option<Schedule>) -> ContractDefinition {
    match schedule {
        Some(s) => ContractDefinition {
            time_zone_id: if s.timezone@.len() == 0 {
                None
            } else {
                Some(s.timezone)
            },
            trading_hours: Some(s.trading_hours),
            liquid_hours: Some(s.liquid_hours),
            ..def
        },
        None => def,
    }
}

/// After trading hours have come under a key: the definition that waits for them is delivered.
pub open spec fn after_schedule(s: LookupView, key: Seq<char>, schedule: Option<Schedule>) -> LookupView {
    match pair_by_key(s.pairs, key, 0) {
        Some(i) => LookupView {
            pairs: swap_removed(s.pairs, i),
            events: delivered(
                s.events,
                s.pairs[i].api_req_id,
                with_hours(s.pairs[i].def, schedule),
                s.pairs[i].is_last,
            ),
            ..s
        },
        None => s,
    }
}

impl Lookups {
    /// Takes in a rejection of a message that is not named.
    pub fn handle_session_reject(&mut self, reason: &str)
        ensures
            final(self)@ == after_session_reject(old(self)@, reason@),
            old(self)@.wf() ==> final(self)@.wf(),
    {
        if self.pending_secdef.len() == 1 && self.pending_fanout.len() == 0 {
            let (id, _, _) = self.pending_secdef.remove(0);
            proof {
                assert(self@.secdefs =~= Seq::empty());
                assert(self@.fanouts =~= old(self)@.fanouts);
                assert(self@.scanners =~= old(self)@.scanners);
                assert(self@.events =~= old(self)@.events);
                assert(self@.outbox =~= old(self)@.outbox);
            }
            if id < INTERNAL_REQUEST {
                self.tell(
                    LookupEvent::Error(
                        id,
                        200,
                        join("contract details request rejected: ", reason),
                    ),
                );
                self.tell(LookupEvent::End(id));
            }
        }
    }

    /// Takes in the contracts that match a pattern.
    pub fn handle_matches(&mut self, ready: bool, echoed: Option<u32>, matches: Vec<SymbolMatch>)
        ensures
            final(self)@ == after_matches(old(self)@, ready, echoed, match_views(matches@)),
            old(self)@.wf() ==> final(self)@.wf(),
    {
        if !ready {
            return ;
        }
        let n: usize = self.pending_matching_symbols.len();
        let place: Option<usize> = match echoed {
            Some(id) => self.find_pattern(id),
            None => if n == 1 {
                Some(0)
            } else {
                None
            },
        };
        if let Some(i) = place {
            let id = self.pending_matching_symbols.remove(i);
            proof {
                assert(self@.fanouts =~= old(self)@.fanouts);
                assert(self@.scanners =~= old(self)@.scanners);
                assert(self@.events =~= old(self)@.events);
                assert(self@.outbox =~= old(self)@.outbox);
            }
            self.tell(LookupEvent::Matches(id, matches));
        }
    }

    fn find_pattern(&self, id: u32) -> (r: Option<usize>)
        ensures
            match r {
                Some(i) => request_from(self@.matching, id, 0) == Some(i as int) && i
                    < self@.matching.len(),
                None => request_from(self@.matching, id, 0) is None,
            },
    {
        let mut i: usize = 0;
        while i < self.pending_matching_symbols.len()
            invariant
                i <= self.pending_matching_symbols.len(),
                request_from(self@.matching, id, 0) == request_from(self@.matching, id, i as int),
            decreases self.pending_matching_symbols.len() - i,
        {
            if self.pending_matching_symbols[i] == id {
                return Some(i);
            }
            i = i + 1;
        }
        None
    }

    /// Takes in the trading hours under a key; `None` when they could not be read.
    pub fn handle_schedule_reply(&mut self, key: &str, schedule: Option<Schedule>)
        ensures
            final(self)@ == after_schedule(old(self)@, key@, schedule),
            old(self)@.wf() ==> final(self)@.wf(),
    {
        let mut i: usize = 0;
        while i < self.pending_schedule_pair.len()
            invariant
                i <= self.pending_schedule_pair.len(),
                self@ == old(self)@,
                pair_by_key(self@.pairs, key@, 0) == pair_by_key(self@.pairs, key@, i as int),
            decreases self.pending_schedule_pair.len() - i,
        {
            if text_eq(self.pending_schedule_pair[i].def.join_key.as_str(), key) {
                let pair = self.pending_schedule_pair.swap_remove(i);
                proof {
                    assert(self@.pairs =~= swap_removed(old(self)@.pairs, i as int));
                    assert(self@.fanouts =~= old(self)@.fanouts);
                    assert(self@.scanners =~= old(self)@.scanners);
                    assert(self@.events =~= old(self)@.events);
                    assert(self@.outbox =~= old(self)@.outbox);
                }
                let def = match schedule {
                    Some(s) => ContractDefinition {
                        time_zone_id: if is_empty(s.timezone.as_str()) {
                            None
                        } else {
                            Some(s.timezone)
                        },
                        trading_hours: Some(s.trading_hours),
                        liquid_hours: Some(s.liquid_hours),
                        ..pair.def
                    },
                    None => pair.def,
                };
                self.deliver(pair.api_req_id, def, pair.is_last);
                return ;
            }
            i = i + 1;
        }
    }
}

// ---------------------------------------------------------------------------------------
// Definitions
// ---------------------------------------------------------------------------------------

/// The contract that a definition defines.
pub open spec fn defined_contract(def: ContractDefinition) -> ContractView {
    ContractView {
        con_id: def.con_id,
        symbol: def.symbol@,
        sec_type: def.sec_type@,
        exchange: def.exchange@,
        currency: def.currency@,
        local_symbol: def.local_symbol@,
        primary_exchange: def.primary_exchange@,
        trading_class: def.trading_class@,
        ..blank_contract()
    }
}

/// The known contracts after a definition.
pub open spec fn contracts_learned(c: Map<i64, ContractView>, def: ContractDefinition) -> Map<
    i64,
    ContractView,
> {
    if def.con_id != 0 {
        c.insert(def.con_id, defined_contract(def))
    } else {
        c
    }
}

/// The lookups after a definition has become known: what waited for it alone is delivered.
pub open spec fn after_learning(s: LookupView, def: ContractDefinition) -> LookupView {
    if def.con_id != 0 {
        scanners_released(s, def.con_id, 0)
    } else {
        s
    }
}

/// The place of a text in a list, from `i` on.
pub open spec fn has_text(s: Seq<Seq<char>>, text: Seq<char>, i: int) -> bool
    decreases s.len() - i,
{
    if i < 0 || i >= s.len() {
        false
    } else {
        s[i] == text || has_text(s, text, i + 1)
    }
}

/// The place of the first fan-out that sent a request, from `i` on.
pub open spec fn fanout_from(s: Seq<FanoutView>, id: Seq<char>, i: int) -> Option<int>
    decreases s.len() - i,
{
    if i < 0 || i >= s.len() {
        None
    } else if has_text(s[i].ids, id, 0) {
        Some(i)
    } else {
        fanout_from(s, id, i + 1)
    }
}

/// The fan-out that an answer belongs to.
pub open spec fn answered_fanout(s: Seq<FanoutView>, id: Option<Seq<char>>) -> Option<int> {
    match id {
        Some(t) => fanout_from(s, t, 0),
        None => None,
    }
}

/// After an answer to one of the requests of a fan-out. With the last one the lookup ends.
pub open spec fn after_fanout_answer(
    s: LookupView,
    i: int,
    def: ContractDefinition,
    now: u64,
) -> LookupView {
    let f = s.fanouts[i];
    let complete = f.received + 1 >= f.ids.len();
    LookupView {
        fanouts: if complete {
            swap_removed(s.fanouts, i)
        } else {
            s.fanouts.update(
                i,
                FanoutView {
                    received: f.received + 1,
                    deadline: later(now, SECDEF_TIMEOUT),
                    ..f
                },
            )
        },
        events: delivered(s.events, f.api_req_id, def, complete),
        ..s
    }
}

/// The place of a pending request, from `i` on.
pub open spec fn secdef_from(s: Seq<(u32, bool, u64)>, id: u32, i: int) -> Option<int>
    decreases s.len() - i,
{
    if i < 0 || i >= s.len() {
        None
    } else if s[i].0 == id {
        Some(i)
    } else {
        secdef_from(s, id, i + 1)
    }
}

/// The request that an answer names.
pub open spec fn answered_request(s: Seq<(u32, bool, u64)>, id: Option<Seq<char>>) -> Option<int> {
    match id {
        Some(t) => match parsed_int(t, 0, u32::MAX as int) {
            Some(n) => secdef_from(s, n as u32, 0),
            None => None,
        },
        None => None,
    }
}

/// Whether an exchange is one that a lookup can go on to.
pub open spec fn single_exchange(e: Seq<char>) -> bool {
    e.len() > 0 && e != "SMART"@ && e != "BEST"@
}

/// The exchanges of a list that a lookup can go on to.
pub open spec fn single_exchanges(s: Seq<Seq<char>>) -> Seq<Seq<char>>
    decreases s.len(),
{
    if s.len() == 0 {
        Seq::empty()
    } else {
        let rest = single_exchanges(s.drop_last());
        if single_exchange(s.last()) {
            rest.push(s.last())
        } else {
            rest
        }
    }
}

/// The pending requests without those by symbol under an id.
pub open spec fn without_lookup(s: Seq<(u32, bool, u64)>, id: u32) -> Seq<(u32, bool, u64)>
    decreases s.len(),
{
    if s.len() == 0 {
        Seq::empty()
    } else {
        let rest = without_lookup(s.drop_last(), id);
        if s.last().0 == id && !s.last().1 {
            rest
        } else {
            rest.push(s.last())
        }
    }
}

/// The place of the first waiting definition of a request, from `i` on.
pub open spec fn pair_of_request(s: Seq<PendingSchedulePair>, id: u32, i: int) -> Option<int>
    decreases s.len() - i,
{
    if i < 0 || i >= s.len() {
        None
    } else if s[i].api_req_id == id {
        Some(i)
    } else {
        pair_of_request(s, id, i + 1)
    }
}

/// The id of a request to a single exchange.
pub open spec fn fanout_id(req_id: u32, n: u32) -> Seq<char> {
    "ibxfan-"@ + dec(req_id as nat) + "-"@ + dec(n as nat)
}

/// The ids of the first `n` requests of a fan-out.
pub open spec fn fanout_ids(req_id: u32, start: u32, n: int) -> Seq<Seq<char>>
    decreases n,
{
    if n <= 0 {
        Seq::empty()
    } else {
        fanout_ids(req_id, start, n - 1).push(fanout_id(req_id, counted(start, n - 1)))
    }
}

/// After the requests to the first `n` of a list of exchanges.
pub open spec fn fanout_sent(
    s: LookupView,
    req_id: u32,
    con_id: i64,
    exchanges: Seq<Seq<char>>,
    n: int,
    connected: bool,
    stamp: Seq<char>,
) -> LookupView
    decreases n,
{
    if n <= 0 {
        s
    } else {
        let before = fanout_sent(s, req_id, con_id, exchanges, n - 1, connected, stamp);
        LookupView { next_fanout: counted(s.next_fanout, n), ..before }.sent(
            connected,
            fanout_request(
                stamp,
                fanout_id(req_id, counted(s.next_fanout, n - 1)),
                con_id,
                exchanges[n - 1],
            ),
        )
    }
}

/// After the first answer to a lookup by symbol: each exchange that it names is asked. When
/// there is none the lookup ends; if its definition waits for trading hours, the end waits with
/// it.
pub open spec fn fanned_out(
    s: LookupView,
    req_id: u32,
    con_id: i64,
    exchanges: Seq<Seq<char>>,
    connected: bool,
    stamp: Seq<char>,
    now: u64,
) -> LookupView {
    let rest = LookupView { secdefs: without_lookup(s.secdefs, req_id), ..s };
    if exchanges.len() == 0 || con_id == 0 {
        match pair_of_request(rest.pairs, req_id, 0) {
            Some(j) => LookupView {
                pairs: rest.pairs.update(
                    j,
                    PendingSchedulePair { is_last: true, ..rest.pairs[j] },
                ),
                ..rest
            },
            None => rest.told(EventView::End(req_id)),
        }
    } else {
        let n = exchanges.len() as int;
        let sent = fanout_sent(rest, req_id, con_id, exchanges, n, connected, stamp);
        LookupView {
            fanouts: sent.fanouts.push(
                FanoutView {
                    api_req_id: req_id,
                    ids: fanout_ids(req_id, s.next_fanout, n),
                    received: 0,
                    deadline: later(now, SECDEF_TIMEOUT),
                },
            ),
            ..sent
        }
    }
}

/// After a definition was put to wait for its trading hours, which are asked for.
pub open spec fn parked(
    s: LookupView,
    req_id: u32,
    def: ContractDefinition,
    is_last: bool,
    connected: bool,
    stamp: Seq<char>,
    now: u64,
) -> LookupView {
    let waiting = LookupView {
        pairs: s.pairs.push(
            PendingSchedulePair {
                api_req_id: req_id,
                def,
                is_last,
                deadline: later(now, SCHEDULE_TIMEOUT),
            },
        ),
        ..s
    };
    if connected {
        LookupView { next_schedule: (s.next_schedule + 1) as u32, ..waiting }.sent(
            true,
            schedule_request(stamp, s.next_schedule, def.join_key@),
        )
    } else {
        waiting
    }
}

/// After the definition of a pending request is handed on. That of a request of the engine's
/// own is told to nobody.
pub open spec fn handed_on(
    s: LookupView,
    req_id: u32,
    def: ContractDefinition,
    is_last: bool,
    connected: bool,
    stamp: Seq<char>,
    now: u64,
) -> LookupView {
    if req_id >= INTERNAL_REQUEST {
        s
    } else if def.join_key@.len() == 0 {
        LookupView { events: delivered(s.events, req_id, def, is_last), ..s }
    } else {
        parked(s, req_id, def, is_last, connected, stamp, now)
    }
}

/// After the answer to a pending request. `last` tells whether the server marks it as the last
/// one; a request by contract has one answer.
pub open spec fn after_answer(
    s: LookupView,
    i: int,
    def: ContractDefinition,
    last: bool,
    connected: bool,
    stamp: Seq<char>,
    now: u64,
) -> LookupView {
    let (req_id, single, _) = s.secdefs[i];
    let is_last = last || single;
    let taken = if is_last {
        LookupView { secdefs: s.secdefs.remove(i), ..s }
    } else {
        s
    };
    let handed = handed_on(taken, req_id, def, is_last, connected, stamp, now);
    if !single && !last {
        fanned_out(
            handed,
            req_id,
            def.con_id,
            single_exchanges(string_texts(def.valid_exchanges@)),
            connected,
            stamp,
            now,
        )
    } else {
        handed
    }
}

/// After a definition: it belongs to the fan-out or to the request that it names. One that
/// names neither is kept all the same.
pub open spec fn after_definition(
    s: LookupView,
    id: Option<Seq<char>>,
    def: ContractDefinition,
    last: bool,
    connected: bool,
    stamp: Seq<char>,
    now: u64,
) -> LookupView {
    let learned = after_learning(s, def);
    match answered_fanout(s.fanouts, id) {
        Some(i) => after_fanout_answer(learned, i, def, now),
        None => match answered_request(learned.secdefs, id) {
            Some(i) => after_answer(learned, i, def, last, connected, stamp, now),
            None => learned,
        },
    }
}

/// Scanner results that are let go change nothing else.
pub proof fn lemma_release_keeps(s: LookupView, con_id: i64, i: int)
    ensures
        scanners_released(s, con_id, i) == (LookupView {
            scanners: scanners_released(s, con_id, i).scanners,
            events: scanners_released(s, con_id, i).events,
            ..s
        }),
    decreases s.scanners.len() - i,
{
    if 0 <= i < s.scanners.len() {
        let w = s.scanners[i];
        let awaiting = crate::engine::hot_loop::lookups::without_contract(w.awaiting, con_id);
        let next = LookupView {
            scanners: s.scanners.update(
                i,
                crate::engine::hot_loop::lookups::ScannerView { awaiting, ..w },
            ),
            ..s
        };
        if awaiting.len() == 0 {
            lemma_release_keeps(
                LookupView {
                    scanners: swap_removed(next.scanners, i),
                    ..next.told(EventView::Scanner(w.api_req_id, w.result))
                },
                con_id,
                i,
            );
        } else {
            lemma_release_keeps(next, con_id, i + 1);
        }
    }
}

fn holds_text(s: &Vec<String>, text: &str) -> (r: bool)
    ensures
        r == has_text(string_texts(s@), text@, 0),
{
    let mut i: usize = 0;
    while i < s.len()
        invariant
            i <= s.len(),
            has_text(string_texts(s@), text@, 0) == has_text(string_texts(s@), text@, i as int),
        decreases s.len() - i,
    {
        proof {
            assert(string_texts(s@)[i as int] == s@[i as int]@);
        }
        if text_eq(s[i].as_str(), text) {
            return true;
        }
        i = i + 1;
    }
    false
}

/// The exchanges of a list that a lookup can go on to.
fn keep_single_exchanges(s: &Vec<String>) -> (r: Vec<String>)
    ensures
        string_texts(r@) == single_exchanges(string_texts(s@)),
{
    let ghost t = string_texts(s@);
    let mut out: Vec<String> = Vec::new();
    let mut i: usize = 0;
    proof {
        assert(t.take(0) =~= Seq::empty());
        assert(string_texts(out@) =~= Seq::empty());
    }
    while i < s.len()
        invariant
            i <= s.len(),
            t == string_texts(s@),
            string_texts(out@) == single_exchanges(t.take(i as int)),
        decreases s.len() - i,
    {
        proof {
            assert(t.take(i + 1).drop_last() =~= t.take(i as int));
            assert(t.take(i + 1).last() == s@[i as int]@);
        }
        let e = s[i].as_str();
        if !is_empty(e) && !text_eq(e, "SMART") && !text_eq(e, "BEST") {
            let ghost before = out@;
            out.push(e.to_owned());
            proof {
                assert(string_texts(out@) =~= string_texts(before).push(e@));
            }
        }
        i = i + 1;
    }
    proof {
        assert(t.take(i as int) =~= t);
    }
    out
}

/// The contract that a definition defines.
fn contract_of(def: &ContractDefinition) -> (r: Contract)
    ensures
        r@ == defined_contract(*def),
{
    Contract {
        con_id: def.con_id,
        symbol: def.symbol.clone(),
        sec_type: def.sec_type.clone(),
        exchange: def.exchange.clone(),
        currency: def.currency.clone(),
        local_symbol: def.local_symbol.clone(),
        primary_exchange: def.primary_exchange.clone(),
        trading_class: def.trading_class.clone(),
        multiplier: String::new(),
    }
}

impl Lookups {
    fn learn(&mut self, def: &ContractDefinition, contracts: &mut ContractCache)
        ensures
            final(self)@ == after_learning(old(self)@, *def),
            final(self)@.fanouts == old(self)@.fanouts,
            final(self)@.secdefs == old(self)@.secdefs,
            final(self)@.next_schedule == old(self)@.next_schedule,
            final(contracts)@ == contracts_learned(old(contracts)@, *def),
    {
        if def.con_id != 0 {
            proof {
                lemma_release_keeps(self@, def.con_id, 0);
            }
            contracts.cache_contract(def.con_id, contract_of(def));
            self.try_release_scanner_enrichments(def.con_id);
        }
    }

    fn find_fanout(&self, id: &str) -> (r: Option<usize>)
        ensures
            match r {
                Some(i) => fanout_from(self@.fanouts, id@, 0) == Some(i as int) && i
                    < self@.fanouts.len(),
                None => fanout_from(self@.fanouts, id@, 0) is None,
            },
    {
        let mut i: usize = 0;
        while i < self.pending_fanout.len()
            invariant
                i <= self.pending_fanout.len(),
                fanout_from(self@.fanouts, id@, 0) == fanout_from(self@.fanouts, id@, i as int),
            decreases self.pending_fanout.len() - i,
        {
            proof {
                assert(self@.fanouts[i as int] == self.pending_fanout@[i as int]@);
            }
            if holds_text(&self.pending_fanout[i].fanout_req_ids, id) {
                return Some(i);
            }
            i = i + 1;
        }
        proof {
            assert(self@.fanouts.len() == self.pending_fanout@.len());
        }
        None
    }

    fn find_secdef(&self, id: u32) -> (r: Option<usize>)
        ensures
            match r {
                Some(i) => secdef_from(self@.secdefs, id, 0) == Some(i as int) && i
                    < self@.secdefs.len(),
                None => secdef_from(self@.secdefs, id, 0) is None,
            },
    {
        let mut i: usize = 0;
        while i < self.pending_secdef.len()
            invariant
                i <= self.pending_secdef.len(),
                secdef_from(self@.secdefs, id, 0) == secdef_from(self@.secdefs, id, i as int),
            decreases self.pending_secdef.len() - i,
        {
            if self.pending_secdef[i].0 == id {
                return Some(i);
            }
            i = i + 1;
        }
        None
    }

    fn find_pair(&self, id: u32) -> (r: Option<usize>)
        ensures
            match r {
                Some(i) => pair_of_request(self@.pairs, id, 0) == Some(i as int) && i
                    < self@.pairs.len(),
                None => pair_of_request(self@.pairs, id, 0) is None,
            },
    {
        let mut i: usize = 0;
        while i < self.pending_schedule_pair.len()
            invariant
                i <= self.pending_schedule_pair.len(),
                pair_of_request(self@.pairs, id, 0) == pair_of_request(self@.pairs, id, i as int),
            decreases self.pending_schedule_pair.len() - i,
        {
            if self.pending_schedule_pair[i].api_req_id == id {
                return Some(i);
            }
            i = i + 1;
        }
        None
    }

    fn answer_fanout(&mut self, i: usize, def: ContractDefinition, now: u64)
        requires
            old(self)@.wf(),
            i < old(self)@.fanouts.len(),
        ensures
            final(self)@ == after_fanout_answer(old(self)@, i as int, def, now),
            final(self)@.wf(),
    {
        let ghost f = self@.fanouts[i as int];
        proof {
            assert(f == self.pending_fanout@[i as int]@);
            assert(f.received < f.ids.len());
        }
        let api_req_id = self.pending_fanout[i].api_req_id;
        let total: usize = self.pending_fanout[i].fanout_req_ids.len();
        proof {
            assert(f.ids.len() == total);
        }
        let received: usize = self.pending_fanout[i].received + 1;
        let complete = received >= total;
        if complete {
            self.pending_fanout.swap_remove(i);
            proof {
                assert(self@.fanouts =~= swap_removed(old(self)@.fanouts, i as int));
            }
        } else {
            self.pending_fanout[i].received = received;
            self.pending_fanout[i].deadline = deadline_after(now, SECDEF_TIMEOUT);
            proof {
                assert(self@.fanouts =~= old(self)@.fanouts.update(
                    i as int,
                    FanoutView {
                        received: f.received + 1,
                        deadline: later(now, SECDEF_TIMEOUT),
                        ..f
                    },
                ));
            }
        }
        proof {
            assert(self@.scanners =~= old(self)@.scanners);
            assert(self@.events =~= old(self)@.events);
            assert(self@.outbox =~= old(self)@.outbox);
        }
        self.deliver(api_req_id, def, complete);
        proof {
            let before = old(self)@.fanouts;
            assert forall|k: int| 0 <= k < self@.fanouts.len() implies 0 <= (
            #[trigger] self@.fanouts[k]).received < self@.fanouts[k].ids.len() by {
                assert(self@.fanouts[k] == before[k] || k == i);
                assert(before[before.len() - 1].received < before[before.len() - 1].ids.len());
            }
        }
    }

    /// Hands on the definition of a pending request.
    fn hand_on(
        &mut self,
        req_id: u32,
        def: ContractDefinition,
        is_last: bool,
        connected: bool,
        stamp: &str,
        now: u64,
    )
        requires
            old(self)@.next_schedule < u32::MAX,
        ensures
            final(self)@ == handed_on(old(self)@, req_id, def, is_last, connected, stamp@, now),
            final(self)@.fanouts == old(self)@.fanouts,
    {
        if req_id >= INTERNAL_REQUEST {
            return ;
        }
        if is_empty(def.join_key.as_str()) {
            self.deliver(req_id, def, is_last);
            return ;
        }
        let sub_id = self.next_schedule_sub_id;
        let request = schedule_request_fields(stamp, sub_id, def.join_key.as_str());
        self.pending_schedule_pair.push(
            PendingSchedulePair {
                api_req_id: req_id,
                def,
                is_last,
                deadline: deadline_after(now, SCHEDULE_TIMEOUT),
            },
        );
        if connected {
            self.next_schedule_sub_id = sub_id + 1;
        }
        proof {
            assert(self@.fanouts =~= old(self)@.fanouts);
            assert(self@.scanners =~= old(self)@.scanners);
            assert(self@.events =~= old(self)@.events);
            assert(self@.outbox =~= old(self)@.outbox);
        }
        self.send(connected, request);
    }

    /// Forgets the lookups by symbol under an id.
    fn forget_lookup(&mut self, id: u32)
        ensures
            final(self)@ == (LookupView {
                secdefs: without_lookup(old(self)@.secdefs, id),
                ..old(self)@
            }),
    {
        let ghost all = self.pending_secdef@;
        let mut left: Vec<(u32, bool, u64)> = Vec::new();
        let mut i: usize = 0;
        proof {
            assert(all.take(0) =~= Seq::empty());
        }
        while i < self.pending_secdef.len()
            invariant
                i <= self.pending_secdef.len(),
                self@ == old(self)@,
                all == self.pending_secdef@,
                left@ == without_lookup(all.take(i as int), id),
            decreases self.pending_secdef.len() - i,
        {
            proof {
                assert(all.take(i + 1).drop_last() =~= all.take(i as int));
            }
            let p = self.pending_secdef[i];
            if !(p.0 == id && !p.1) {
                left.push(p);
            }
            i = i + 1;
        }
        self.pending_secdef = left;
        proof {
            assert(all.take(i as int) =~= all);
            assert(self@.fanouts =~= old(self)@.fanouts);
            assert(self@.scanners =~= old(self)@.scanners);
            assert(self@.events =~= old(self)@.events);
            assert(self@.outbox =~= old(self)@.outbox);
        }
    }

    /// Asks each of a list of exchanges.
    fn ask_exchanges(
        &mut self,
        req_id: u32,
        con_id: i64,
        exchanges: &Vec<String>,
        connected: bool,
        stamp: &str,
    ) -> (r: Vec<String>)
        ensures
            final(self)@ == fanout_sent(
                old(self)@,
                req_id,
                con_id,
                string_texts(exchanges@),
                exchanges@.len() as int,
                connected,
                stamp@,
            ),
            final(self)@.fanouts == old(self)@.fanouts,
            string_texts(r@) == fanout_ids(
                req_id,
                old(self)@.next_fanout,
                exchanges@.len() as int,
            ),
    {
        let ghost e = string_texts(exchanges@);
        let ghost start = self@.next_fanout;
        let mut ids: Vec<String> = Vec::new();
        let mut i: usize = 0;
        proof {
            assert(string_texts(ids@) =~= Seq::empty());
        }
        while i < exchanges.len()
            invariant
                i <= exchanges.len(),
                e == string_texts(exchanges@),
                start == old(self)@.next_fanout,
                self@.next_fanout == counted(start, i as int),
                self@.fanouts == old(self)@.fanouts,
                self@ == fanout_sent(
                    old(self)@,
                    req_id,
                    con_id,
                    e,
                    i as int,
                    connected,
                    stamp@,
                ),
                string_texts(ids@) == fanout_ids(req_id, start, i as int),
            decreases exchanges.len() - i,
        {
            let ghost before = self@;
            let ghost known = ids@;
            let n = self.next_fanout_id;
            let a = join("ibxfan-", format_uint(req_id as u64).as_str());
            let b = join(a.as_str(), "-");
            let id = join(b.as_str(), format_uint(n as u64).as_str());
            proof {
                assert(id@ == fanout_id(req_id, n));
                assert(e[i as int] == exchanges@[i as int]@);
                assert(counted(counted(start, i as int), 1) == counted(start, i + 1)) by {
                    let m = 0x1_0000_0000int;
                    vstd::arithmetic::div_mod::lemma_add_mod_noop(start + i as int, 1, m);
                }
            }
            self.next_fanout_id = count_on(n);
            proof {
                assert(self@.fanouts =~= before.fanouts);
                assert(self@.scanners =~= before.scanners);
                assert(self@.events =~= before.events);
                assert(self@.outbox =~= before.outbox);
            }
            self.send(
                connected,
                fanout_request_fields(stamp, id.as_str(), con_id, exchanges[i].as_str()),
            );
            ids.push(id);
            proof {
                assert(string_texts(ids@) =~= string_texts(known).push(fanout_id(req_id, n)));
            }
            i = i + 1;
        }
        ids
    }

    /// Goes on from the first answer to a lookup by symbol.
    fn fan_out(
        &mut self,
        req_id: u32,
        con_id: i64,
        exchanges: Vec<String>,
        connected: bool,
        stamp: &str,
        now: u64,
    )
        requires
            old(self)@.wf(),
        ensures
            final(self)@ == fanned_out(
                old(self)@,
                req_id,
                con_id,
                string_texts(exchanges@),
                connected,
                stamp@,
                now,
            ),
            final(self)@.wf(),
    {
        self.forget_lookup(req_id);
        let ghost rest = self@;
        if exchanges.len() == 0 || con_id == 0 {
            match self.find_pair(req_id) {
                Some(j) => {
                    self.pending_schedule_pair[j].is_last = true;
                    proof {
                        assert(self@.pairs =~= rest.pairs.update(
                            j as int,
                            PendingSchedulePair { is_last: true, ..rest.pairs[j as int] },
                        ));
                        assert(self@.fanouts =~= rest.fanouts);
                        assert(self@.scanners =~= rest.scanners);
                        assert(self@.events =~= rest.events);
                        assert(self@.outbox =~= rest.outbox);
                    }
                },
                None => {
                    self.tell(LookupEvent::End(req_id));
                },
            }
        } else {
            let ids = self.ask_exchanges(req_id, con_id, &exchanges, connected, stamp);
            let ghost sent = self@;
            let f = PendingFanout {
                api_req_id: req_id,
                fanout_req_ids: ids,
                received: 0,
                deadline: deadline_after(now, SECDEF_TIMEOUT),
            };
            let ghost view = f@;
            self.pending_fanout.push(f);
            proof {
                lemma_fanout_ids_len(req_id, rest.next_fanout, exchanges@.len() as int);
                assert(self@.fanouts =~= sent.fanouts.push(view));
                assert(self@.scanners =~= sent.scanners);
                assert(self@.events =~= sent.events);
                assert(self@.outbox =~= sent.outbox);
            }
        }
    }

    fn answer(
        &mut self,
        i: usize,
        def: ContractDefinition,
        last: bool,
        connected: bool,
        stamp: &str,
        now: u64,
    )
        requires
            old(self)@.wf(),
            i < old(self)@.secdefs.len(),
            old(self)@.next_schedule < u32::MAX,
        ensures
            final(self)@ == after_answer(
                old(self)@,
                i as int,
                def,
                last,
                connected,
                stamp@,
                now,
            ),
            final(self)@.wf(),
    {
        let (req_id, single, _) = self.pending_secdef[i];
        let is_last = last || single;
        let con_id = def.con_id;
        let exchanges = keep_single_exchanges(&def.valid_exchanges);
        if is_last {
            self.pending_secdef.remove(i);
            proof {
                assert(self@.secdefs =~= old(self)@.secdefs.remove(i as int));
                assert(self@.fanouts =~= old(self)@.fanouts);
                assert(self@.scanners =~= old(self)@.scanners);
                assert(self@.events =~= old(self)@.events);
                assert(self@.outbox =~= old(self)@.outbox);
            }
        }
        self.hand_on(req_id, def, is_last, connected, stamp, now);
        if !single && !last {
            self.fan_out(req_id, con_id, exchanges, connected, stamp, now);
        }
    }

    /// Takes in a definition. `id` is the request that it names, and `last` tells whether the
    /// server marks it as the last one.
    pub fn handle_definition(
        &mut self,
        id: Option<&str>,
        def: ContractDefinition,
        last: bool,
        contracts: &mut ContractCache,
        connected: bool,
        stamp: &str,
        now: u64,
    )
        requires
            old(self)@.wf(),
            old(self)@.next_schedule < u32::MAX,
        ensures
            final(self)@ == after_definition(
                old(self)@,
                str_option(id),
                def,
                last,
                connected,
                stamp@,
                now,
            ),
            final(self)@.wf(),
            final(contracts)@ == contracts_learned(old(contracts)@, def),
    {
        let fanout: Option<usize> = match id {
            Some(t) => self.find_fanout(t),
            None => None,
        };
        self.learn(&def, contracts);
        match fanout {
            Some(i) => {
                self.answer_fanout(i, def, now);
            },
            None => {
                let request: Option<usize> = match id {
                    Some(t) => match parse_u32(t) {
                        Some(n) => self.find_secdef(n),
                        None => None,
                    },
                    None => None,
                };
                if let Some(i) = request {
                    self.answer(i, def, last, connected, stamp, now);
                }
            },
        }
    }
}

/// The text of an optional one.
pub open spec fn str_option(s: Option<&str>) -> Option<Seq<char>> {
    match s {
        Some(t) => Some(t@),
        None => None,
    }
}

proof fn lemma_fanout_ids_len(req_id: u32, start: u32, n: int)
    requires
        0 <= n,
    ensures
        fanout_ids(req_id, start, n).len() == n,
    decreases n,
{
    if n > 0 {
        lemma_fanout_ids_len(req_id, start, n - 1);
    }
}

// ---------------------------------------------------------------------------------------
// Laws
// ---------------------------------------------------------------------------------------

/// The answer to a request of the engine's own reaches nobody: the request is done, and no
/// event and no message follows from it.
pub proof fn law_internal_answers_stay_inside(
    s: LookupView,
    i: int,
    def: ContractDefinition,
    last: bool,
    connected: bool,
    stamp: Seq<char>,
    now: u64,
)
    requires
        0 <= i < s.secdefs.len(),
        s.secdefs[i].0 >= INTERNAL_REQUEST,
        s.secdefs[i].1,
    ensures
        after_answer(s, i, def, last, connected, stamp, now) == (LookupView {
            secdefs: s.secdefs.remove(i),
            ..s
        }),
{
}

/// A lookup by symbol that finds nothing more to ask does not end before its definition is
/// told: while the definition waits for its trading hours, no event comes, and the definition
/// is marked as the last; when the hours come, the definition and then the end are told.
pub proof fn law_end_follows_definition(
    s: LookupView,
    i: int,
    def: ContractDefinition,
    connected: bool,
    stamp: Seq<char>,
    now: u64,
    schedule: Option<Schedule>,
)
    requires
        0 <= i < s.secdefs.len(),
        s.secdefs[i].0 < INTERNAL_REQUEST,
        !s.secdefs[i].1,
        def.join_key@.len() > 0,
        single_exchanges(string_texts(def.valid_exchanges@)).len() == 0,
        s.pairs.len() == 0,
    ensures
        ({
            let parked = after_answer(s, i, def, false, connected, stamp, now);
            let told = after_schedule(parked, def.join_key@, schedule);
            &&& parked.events == s.events
            &&& told.events == s.events.push(
                EventView::Details(s.secdefs[i].0, with_hours(def, schedule)),
            ).push(EventView::End(s.secdefs[i].0))
        }),
{
    let req_id = s.secdefs[i].0;
    let handed = handed_on(s, req_id, def, false, connected, stamp, now);
    let after = after_answer(s, i, def, false, connected, stamp, now);
    assert(handed.pairs.len() == 1);
    assert(handed.pairs[0].api_req_id == req_id);
    let rest = LookupView { secdefs: without_lookup(handed.secdefs, req_id), ..handed };
    assert(pair_of_request(rest.pairs, req_id, 0) == Some(0int));
    assert(after.pairs[0].is_last);
    assert(after.pairs[0].def == def);
    assert(pair_by_key(after.pairs, def.join_key@, 0) == Some(0int));
}

/// After the answers to the requests of a fan-out, in any number below that of the requests
/// that are open.
pub open spec fn after_fanout_answers(
    s: LookupView,
    i: int,
    defs: Seq<ContractDefinition>,
    now: u64,
) -> LookupView
    decreases defs.len(),
{
    if defs.len() == 0 {
        s
    } else {
        after_fanout_answer(
            after_fanout_answers(s, i, defs.drop_last(), now),
            i,
            defs.last(),
            now,
        )
    }
}

/// The events that the answers to a fan-out give.
pub open spec fn answers_told(events: Seq<EventView>, id: u32, defs: Seq<ContractDefinition>) -> Seq<
    EventView,
>
    decreases defs.len(),
{
    if defs.len() == 0 {
        events
    } else {
        answers_told(events, id, defs.drop_last()).push(EventView::Details(id, defs.last()))
    }
}

/// While answers are missing, a fan-out tells each answer as it comes, and no end.
pub proof fn law_open_fanout_tells_answers(
    s: LookupView,
    i: int,
    defs: Seq<ContractDefinition>,
    now: u64,
)
    requires
        s.wf(),
        0 <= i < s.fanouts.len(),
        s.fanouts[i].received + defs.len() < s.fanouts[i].ids.len(),
    ensures
        ({
            let after = after_fanout_answers(s, i, defs, now);
            &&& after.events == answers_told(s.events, s.fanouts[i].api_req_id, defs)
            &&& after.fanouts.len() == s.fanouts.len()
            &&& after.fanouts[i].received == s.fanouts[i].received + defs.len()
            &&& after.fanouts[i].ids == s.fanouts[i].ids
            &&& after.fanouts[i].api_req_id == s.fanouts[i].api_req_id
        }),
    decreases defs.len(),
{
    if defs.len() > 0 {
        law_open_fanout_tells_answers(s, i, defs.drop_last(), now);
    }
}

/// A lookup by symbol ends when as many answers have come as exchanges were asked, and with
/// the last of them: all answers are told, then the end, and the fan-out is gone.
pub proof fn law_fanout_ends_with_last_answer(
    s: LookupView,
    i: int,
    defs: Seq<ContractDefinition>,
    now: u64,
)
    requires
        s.wf(),
        0 <= i < s.fanouts.len(),
        s.fanouts[i].received + defs.len() == s.fanouts[i].ids.len(),
    ensures
        ({
            let after = after_fanout_answers(s, i, defs, now);
            let id = s.fanouts[i].api_req_id;
            &&& after.events == answers_told(s.events, id, defs).push(EventView::End(id))
            &&& after.fanouts.len() == s.fanouts.len() - 1
        }),
{
    assert(defs.len() > 0);
    law_open_fanout_tells_answers(s, i, defs.drop_last(), now);
}

/// A list of matches is told to the request that it names and to no other; the requests that
/// are left keep their order.
pub proof fn law_matches_reach_the_named_request(
    s: LookupView,
    id: u32,
    matches: Seq<SymbolMatchView>,
)
    requires
        s.matching.contains(id),
    ensures
        ({
            let after = after_matches(s, true, Some(id), matches);
            &&& after.events == s.events.push(EventView::Matches(id, matches))
            &&& after.matching.len() == s.matching.len() - 1
            &&& exists|i: int|
                0 <= i < s.matching.len() && s.matching[i] == id && after.matching
                    == #[trigger] s.matching.remove(i)
        }),
{
    let k = choose|k: int| 0 <= k < s.matching.len() && s.matching[k] == id;
    lemma_request_found(s.matching, id, 0, k);
    lemma_request_from(s.matching, id, 0);
}

proof fn lemma_request_found(s: Seq<u32>, id: u32, i: int, k: int)
    requires
        0 <= i <= k < s.len(),
        s[k] == id,
    ensures
        request_from(s, id, i) is Some,
    decreases k - i,
{
    if s[i] != id {
        lemma_request_found(s, id, i + 1, k);
    }
}

/// A list of matches that names no request that is under way is dropped, whatever else is
/// under way.
pub proof fn law_strange_matches_are_dropped(
    s: LookupView,
    id: u32,
    matches: Seq<SymbolMatchView>,
)
    requires
        !s.matching.contains(id),
    ensures
        after_matches(s, true, Some(id), matches) == s,
{
    lemma_request_from(s.matching, id, 0);
}

} // verus!
