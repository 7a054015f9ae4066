//! Contract lookups: requests for contract definitions, the requests that follow from the
//! answers, and the results that wait for them.
use std::collections::HashSet;
use vstd::prelude::*;

use crate::bridge::{ContractCache, ContractView};
use crate::engine::hot_loop::order_builder::field_lists;
use crate::protocol::fix::{Fields, TAG_MSG_TYPE, TAG_SENDING_TIME};
use crate::text::{dec, format_int, format_uint, int_text, join, string_texts};

verus! {

broadcast use vstd::std_specs::hash::group_hash_axioms;

/// How long a contract lookup may stay without an answer, in milliseconds.
pub const SECDEF_TIMEOUT: u64 = 10_000;

/// How long a definition waits for its trading hours, in milliseconds.
pub const SCHEDULE_TIMEOUT: u64 = 3_000;

/// How long a scanner result waits for its contracts, in milliseconds.
pub const SCANNER_TIMEOUT: u64 = 5_000;

/// The first request id that is the engine's own. Nobody waits for the answer to such a
/// request.
pub const INTERNAL_REQUEST: u32 = 0xF000_0000;

/// The error with which a lookup ends that was not answered.
pub const LOOKUP_TIMED_OUT: &'static str =
    "contract details request timed out — no reply from the gateway";

// ---------------------------------------------------------------------------------------
// Definitions, results, events
// ---------------------------------------------------------------------------------------

/// The definition of a contract.
pub struct ContractDefinition {
    pub con_id: i64,
    pub symbol: String,
    pub sec_type: String,
    pub exchange: String,
    pub currency: String,
    pub local_symbol: String,
    pub primary_exchange: String,
    pub trading_class: String,
    pub valid_exchanges: Vec<String>,
    /// The key under which the trading hours can be had; empty when they cannot.
    pub join_key: String,
    pub trading_hours: Option<String>,
    pub liquid_hours: Option<String>,
    pub time_zone_id: Option<String>,
}

/// The trading hours of a contract.
pub struct Schedule {
    pub timezone: String,
    pub trading_hours: String,
    pub liquid_hours: String,
}

/// A contract that matches a pattern.
pub struct SymbolMatch {
    pub con_id: i64,
    pub symbol: String,
    pub sec_type: String,
    pub currency: String,
}

/// What a [`SymbolMatch`] holds.
pub ghost struct SymbolMatchView {
    pub con_id: i64,
    pub symbol: Seq<char>,
    pub sec_type: Seq<char>,
    pub currency: Seq<char>,
}

impl View for SymbolMatch {
    type V = SymbolMatchView;

    open spec fn view(&self) -> SymbolMatchView {
        SymbolMatchView {
            con_id: self.con_id,
            symbol: self.symbol@,
            sec_type: self.sec_type@,
            currency: self.currency@,
        }
    }
}

/// The views of a list of matches.
pub open spec fn match_views(v: Seq<SymbolMatch>) -> Seq<SymbolMatchView> {
    v.map_values(|m: SymbolMatch| m@)
}

/// A contract that a scanner found.
pub struct ScannerEntry {
    pub con_id: i64,
}

/// What a scanner found.
pub struct ScannerResult {
    pub entries: Vec<ScannerEntry>,
}

/// What is to be told to the one who asked.
pub enum LookupEvent {
    Error(u32, i64, String),
    Details(u32, ContractDefinition),
    End(u32),
    Matches(u32, Vec<SymbolMatch>),
    Scanner(u32, ScannerResult),
}

/// What a [`LookupEvent`] says.
#[allow(inconsistent_fields)]
pub ghost enum EventView {
    Error(u32, i64, Seq<char>),
    Details(u32, ContractDefinition),
    End(u32),
    Matches(u32, Seq<SymbolMatchView>),
    Scanner(u32, ScannerResult),
}

impl View for LookupEvent {
    type V = EventView;

    open spec fn view(&self) -> EventView {
        match self {
            LookupEvent::Error(id, code, text) => EventView::Error(*id, *code, text@),
            LookupEvent::Details(id, def) => EventView::Details(*id, *def),
            LookupEvent::End(id) => EventView::End(*id),
            LookupEvent::Matches(id, rows) => EventView::Matches(*id, match_views(rows@)),
            LookupEvent::Scanner(id, result) => EventView::Scanner(*id, *result),
        }
    }
}

/// What the events of a list say.
pub open spec fn event_views(v: Seq<LookupEvent>) -> Seq<EventView> {
    v.map_values(|e: LookupEvent| e@)
}

// ---------------------------------------------------------------------------------------
// What is pending
// ---------------------------------------------------------------------------------------

/// The requests to single exchanges that followed from a lookup by symbol. They end when as
/// many answers have come as requests were sent.
pub struct PendingFanout {
    pub api_req_id: u32,
    pub fanout_req_ids: Vec<String>,
    pub received: usize,
    pub deadline: u64,
}

/// What a [`PendingFanout`] holds.
pub ghost struct FanoutView {
    pub api_req_id: u32,
    pub ids: Seq<Seq<char>>,
    pub received: int,
    pub deadline: u64,
}

impl View for PendingFanout {
    type V = FanoutView;

    open spec fn view(&self) -> FanoutView {
        FanoutView {
            api_req_id: self.api_req_id,
            ids: string_texts(self.fanout_req_ids@),
            received: self.received as int,
            deadline: self.deadline,
        }
    }
}

/// A definition that waits for its trading hours.
pub struct PendingSchedulePair {
    pub api_req_id: u32,
    pub def: ContractDefinition,
    pub is_last: bool,
    pub deadline: u64,
}

/// A scanner result that waits for the definitions of its contracts.
pub struct PendingScannerEnrichment {
    pub api_req_id: u32,
    pub result: ScannerResult,
    pub awaiting: Vec<i64>,
    pub deadline: u64,
}

/// What a [`PendingScannerEnrichment`] holds.
pub ghost struct ScannerView {
    pub api_req_id: u32,
    pub result: ScannerResult,
    pub awaiting: Seq<i64>,
    pub deadline: u64,
}

impl View for PendingScannerEnrichment {
    type V = ScannerView;

    open spec fn view(&self) -> ScannerView {
        ScannerView {
            api_req_id: self.api_req_id,
            result: self.result,
            awaiting: self.awaiting@,
            deadline: self.deadline,
        }
    }
}

/// The lookups that are under way, what is to be told of them, and what is to be sent.
pub struct Lookups {
    /// Requests for definitions: the id, whether one answer is all, and the time at which it
    /// is given up. Those by symbol are answered by more.
    pub pending_secdef: Vec<(u32, bool, u64)>,
    pub pending_matching_symbols: Vec<u32>,
    pub pending_fanout: Vec<PendingFanout>,
    pub pending_schedule_pair: Vec<PendingSchedulePair>,
    pub pending_scanner_enrichment: Vec<PendingScannerEnrichment>,
    pub next_schedule_sub_id: u32,
    pub next_fanout_id: u32,
    pub next_internal_secdef_id: u32,
    /// The contracts whose definitions the engine has asked for on its own.
    pub auto_fetched_conids: HashSet<i64>,
    pub events: Vec<LookupEvent>,
    pub outbox: Vec<Fields>,
}

/// What [`Lookups`] hold.
pub ghost struct LookupView {
    pub secdefs: Seq<(u32, bool, u64)>,
    pub matching: Seq<u32>,
    pub fanouts: Seq<FanoutView>,
    pub pairs: Seq<PendingSchedulePair>,
    pub scanners: Seq<ScannerView>,
    pub next_schedule: u32,
    pub next_fanout: u32,
    pub next_internal: u32,
    pub fetched: Set<i64>,
    pub events: Seq<EventView>,
    pub outbox: Seq<Seq<(u32, Seq<char>)>>,
}

/// What the fan-outs of a list hold.
pub open spec fn fanout_views(v: Seq<PendingFanout>) -> Seq<FanoutView> {
    v.map_values(|f: PendingFanout| f@)
}

/// What the scanner results of a list hold.
pub open spec fn scanner_views(v: Seq<PendingScannerEnrichment>) -> Seq<ScannerView> {
    v.map_values(|s: PendingScannerEnrichment| s@)
}

impl View for Lookups {
    type V = LookupView;

    open spec fn view(&self) -> LookupView {
        LookupView {
            secdefs: self.pending_secdef@,
            matching: self.pending_matching_symbols@,
            fanouts: fanout_views(self.pending_fanout@),
            pairs: self.pending_schedule_pair@,
            scanners: scanner_views(self.pending_scanner_enrichment@),
            next_schedule: self.next_schedule_sub_id,
            next_fanout: self.next_fanout_id,
            next_internal: self.next_internal_secdef_id,
            fetched: self.auto_fetched_conids@,
            events: event_views(self.events@),
            outbox: field_lists(self.outbox@),
        }
    }
}

impl LookupView {
    /// A fan-out is pending as long as answers are missing.
    pub open spec fn wf(self) -> bool {
        forall|i: int|
            0 <= i < self.fanouts.len() ==> 0 <= (#[trigger] self.fanouts[i]).received
                < self.fanouts[i].ids.len()
    }

    /// With an event.
    pub open spec fn told(self, e: EventView) -> LookupView {
        LookupView { events: self.events.push(e), ..self }
    }

    /// With a message to send, if there is a connection.
    pub open spec fn sent(self, connected: bool, fields: Seq<(u32, Seq<char>)>) -> LookupView {
        if connected {
            LookupView { outbox: self.outbox.push(fields), ..self }
        } else {
            self
        }
    }
}

/// The state in which no lookup is under way.
pub open spec fn no_lookups() -> LookupView {
    LookupView {
        secdefs: Seq::empty(),
        matching: Seq::empty(),
        fanouts: Seq::empty(),
        pairs: Seq::empty(),
        scanners: Seq::empty(),
        next_schedule: 1,
        next_fanout: 1,
        next_internal: INTERNAL_REQUEST,
        fetched: Set::empty(),
        events: Seq::empty(),
        outbox: Seq::empty(),
    }
}

/// A time some milliseconds later.
pub open spec fn later(now: u64, ms: u64) -> u64 {
    if now + ms > u64::MAX {
        u64::MAX
    } else {
        (now + ms) as u64
    }
}

pub(crate) fn deadline_after(now: u64, ms: u64) -> (r: u64)
    ensures
        r == later(now, ms),
{
    if now > u64::MAX - ms {
        u64::MAX
    } else {
        now + ms
    }
}

/// A number after some steps of a counter that starts again at 0.
pub open spec fn counted(start: u32, steps: int) -> u32 {
    ((start as int + steps) % 0x1_0000_0000) as u32
}

pub(crate) fn count_on(n: u32) -> (r: u32)
    ensures
        r == counted(n, 1),
{
    if n == u32::MAX {
        0
    } else {
        n + 1
    }
}

impl Lookups {
    /// No lookup is under way.
    pub fn new() -> (r: Self)
        ensures
            r@ == no_lookups(),
            r@.wf(),
    {
        let r = Lookups {
            pending_secdef: Vec::new(),
            pending_matching_symbols: Vec::new(),
            pending_fanout: Vec::new(),
            pending_schedule_pair: Vec::new(),
            pending_scanner_enrichment: Vec::new(),
            next_schedule_sub_id: 1,
            next_fanout_id: 1,
            next_internal_secdef_id: INTERNAL_REQUEST,
            auto_fetched_conids: HashSet::new(),
            events: Vec::new(),
            outbox: Vec::new(),
        };
        proof {
            assert(r@.fanouts =~= Seq::empty());
            assert(r@.scanners =~= Seq::empty());
            assert(r@.events =~= Seq::empty());
            assert(r@.outbox =~= Seq::empty());
        }
        r
    }

    pub(crate) fn tell(&mut self, e: LookupEvent)
        ensures
            final(self)@ == old(self)@.told(e@),
    {
        let ghost view = e@;
        self.events.push(e);
        proof {
            assert(event_views(self.events@) =~= event_views(old(self).events@).push(view));
            assert(self@.fanouts =~= old(self)@.fanouts);
            assert(self@.scanners =~= old(self)@.scanners);
            assert(self@.outbox =~= old(self)@.outbox);
        }
    }

    pub(crate) fn send(&mut self, connected: bool, fields: Fields)
        ensures
            final(self)@ == old(self)@.sent(connected, fields@),
    {
        if connected {
            let ghost view = fields@;
            self.outbox.push(fields);
            proof {
                assert(field_lists(self.outbox@) =~= field_lists(old(self).outbox@).push(view));
                assert(self@.fanouts =~= old(self)@.fanouts);
                assert(self@.scanners =~= old(self)@.scanners);
                assert(self@.events =~= old(self)@.events);
            }
        }
    }
}

// ---------------------------------------------------------------------------------------
// Requests
// ---------------------------------------------------------------------------------------

/// The fields of a request for the definition of a contract.
pub open spec fn secdef_request(now: Seq<char>, req_id: u32, con_id: i64) -> Seq<
    (u32, Seq<char>),
> {
    seq![
        (35u32, "c"@),
        (52u32, now),
        (320u32, dec(req_id as nat)),
        (321u32, "2"@),
        (6008u32, int_text(con_id as int)),
        (6088u32, "Socket"@),
    ]
}

fn secdef_request_fields(now: &str, req_id: u32, con_id: i64) -> (r: Fields)
    ensures
        r@ == secdef_request(now@, req_id, con_id),
{
    let mut f = Fields::new();
    f.put_str(TAG_MSG_TYPE, "c");
    f.put_str(TAG_SENDING_TIME, now);
    f.put_uint(320, req_id as u64);
    f.put_str(321, "2");
    f.put(6008, format_int(con_id));
    f.put_str(6088, "Socket");
    proof {
        assert(f@ =~= secdef_request(now@, req_id, con_id));
    }
    f
}

/// The fields of a request for the definition of a contract at one exchange.
pub open spec fn fanout_request(
    now: Seq<char>,
    id: Seq<char>,
    con_id: i64,
    exchange: Seq<char>,
) -> Seq<(u32, Seq<char>)> {
    seq![
        (35u32, "c"@),
        (52u32, now),
        (320u32, id),
        (321u32, "2"@),
        (146u32, "1"@),
        (6008u32, int_text(con_id as int)),
        (6004u32, exchange),
    ]
}

pub(crate) fn fanout_request_fields(now: &str, id: &str, con_id: i64, exchange: &str) -> (r: Fields)
    ensures
        r@ == fanout_request(now@, id@, con_id, exchange@),
{
    let mut f = Fields::new();
    f.put_str(TAG_MSG_TYPE, "c");
    f.put_str(TAG_SENDING_TIME, now);
    f.put_str(320, id);
    f.put_str(321, "2");
    f.put_str(146, "1");
    f.put(6008, format_int(con_id));
    f.put_str(6004, exchange);
    proof {
        assert(f@ =~= fanout_request(now@, id@, con_id, exchange@));
    }
    f
}

/// The fields of a request for the trading hours under a key.
pub open spec fn schedule_request(now: Seq<char>, sub_id: u32, key: Seq<char>) -> Seq<
    (u32, Seq<char>),
> {
    seq![
        (35u32, "U"@),
        (52u32, now),
        (6040u32, "106"@),
        (320u32, "SchedSub."@ + dec(sub_id as nat)),
        (6256u32, key),
    ]
}

pub(crate) fn schedule_request_fields(now: &str, sub_id: u32, key: &str) -> (r: Fields)
    ensures
        r@ == schedule_request(now@, sub_id, key@),
{
    let mut f = Fields::new();
    f.put_str(TAG_MSG_TYPE, "U");
    f.put_str(TAG_SENDING_TIME, now);
    f.put_str(6040, "106");
    f.put(320, join("SchedSub.", format_uint(sub_id as u64).as_str()));
    f.put_str(6256, key);
    proof {
        assert(f@ =~= schedule_request(now@, sub_id, key@));
    }
    f
}

/// The fields of a request for the contracts that match a pattern.
pub open spec fn matching_request(now: Seq<char>, req_id: u32, pattern: Seq<char>) -> Seq<
    (u32, Seq<char>),
> {
    seq![
        (35u32, "U"@),
        (52u32, now),
        (6040u32, "185"@),
        (320u32, dec(req_id as nat)),
        (58u32, pattern),
    ]
}

impl LookupView {
    /// After a request for the definition of a contract. Without a connection it is not sent,
    /// but it is given up in time all the same.
    pub open spec fn asked(
        self,
        req_id: u32,
        con_id: i64,
        connected: bool,
        stamp: Seq<char>,
        now: u64,
    ) -> LookupView {
        LookupView {
            secdefs: self.secdefs.push((req_id, true, later(now, SECDEF_TIMEOUT))),
            ..self.sent(connected, secdef_request(stamp, req_id, con_id))
        }
    }

    /// After a request of the engine's own.
    pub open spec fn asked_internally(
        self,
        con_id: i64,
        connected: bool,
        stamp: Seq<char>,
        now: u64,
    ) -> LookupView {
        LookupView {
            next_internal: counted(self.next_internal, 1),
            fetched: self.fetched.insert(con_id),
            ..self
        }.asked(self.next_internal, con_id, connected, stamp, now)
    }
}

impl Lookups {
    /// Asks for the definition of a contract.
    pub fn send_secdef_request(
        &mut self,
        req_id: u32,
        con_id: i64,
        connected: bool,
        stamp: &str,
        now: u64,
    )
        ensures
            final(self)@ == old(self)@.asked(req_id, con_id, connected, stamp@, now),
            old(self)@.wf() ==> final(self)@.wf(),
    {
        self.send(connected, secdef_request_fields(stamp, req_id, con_id));
        let ghost before = self@;
        self.pending_secdef.push((req_id, true, deadline_after(now, SECDEF_TIMEOUT)));
        proof {
            assert(self@.fanouts =~= before.fanouts);
            assert(self@.scanners =~= before.scanners);
            assert(self@.events =~= before.events);
            assert(self@.outbox =~= before.outbox);
        }
    }

    fn ask_internally(&mut self, con_id: i64, connected: bool, stamp: &str, now: u64)
        ensures
            final(self)@ == old(self)@.asked_internally(con_id, connected, stamp@, now),
            old(self)@.wf() ==> final(self)@.wf(),
    {
        let req_id = self.next_internal_secdef_id;
        self.next_internal_secdef_id = count_on(req_id);
        self.auto_fetched_conids.insert(con_id);
        proof {
            assert(self@.fanouts =~= old(self)@.fanouts);
            assert(self@.scanners =~= old(self)@.scanners);
            assert(self@.events =~= old(self)@.events);
            assert(self@.outbox =~= old(self)@.outbox);
        }
        self.send_secdef_request(req_id, con_id, connected, stamp, now);
    }

    /// Asks for the definition of a contract that is held, unless it is known or was asked for.
    pub fn auto_fetch_secdef_if_cold(
        &mut self,
        con_id: i64,
        contracts: &ContractCache,
        connected: bool,
        stamp: &str,
        now: u64,
    )
        ensures
            final(self)@ == fetched_if_cold(
                old(self)@,
                con_id,
                contracts@,
                connected,
                stamp@,
                now,
            ),
            old(self)@.wf() ==> final(self)@.wf(),
    {
        if con_id == 0 {
            return ;
        }
        if self.auto_fetched_conids.contains(&con_id) {
            return ;
        }
        if contracts.knows(con_id) {
            return ;
        }
        self.ask_internally(con_id, connected, stamp, now);
    }

    /// Asks for the contracts that match a pattern.
    pub fn send_matching_symbols_request(
        &mut self,
        req_id: u32,
        pattern: &str,
        connected: bool,
        stamp: &str,
    )
        ensures
            final(self)@ == (LookupView {
                matching: old(self)@.matching.push(req_id),
                ..old(self)@.sent(connected, matching_request(stamp@, req_id, pattern@))
            }),
            old(self)@.wf() ==> final(self)@.wf(),
    {
        let mut f = Fields::new();
        f.put_str(TAG_MSG_TYPE, "U");
        f.put_str(TAG_SENDING_TIME, stamp);
        f.put_str(6040, "185");
        f.put_uint(320, req_id as u64);
        f.put_str(58, pattern);
        proof {
            assert(f@ =~= matching_request(stamp@, req_id, pattern@));
        }
        self.send(connected, f);
        let ghost before = self@;
        self.pending_matching_symbols.push(req_id);
        proof {
            assert(self@.fanouts =~= before.fanouts);
            assert(self@.scanners =~= before.scanners);
            assert(self@.events =~= before.events);
            assert(self@.outbox =~= before.outbox);
        }
    }
}

/// After a held contract was met: its definition is asked for, unless it is known or was asked
/// for.
pub open spec fn fetched_if_cold(
    s: LookupView,
    con_id: i64,
    contracts: Map<i64, ContractView>,
    connected: bool,
    stamp: Seq<char>,
    now: u64,
) -> LookupView {
    if con_id == 0 || s.fetched.contains(con_id) || contracts.contains_key(con_id) {
        s
    } else {
        s.asked_internally(con_id, connected, stamp, now)
    }
}

// ---------------------------------------------------------------------------------------
// Scanner results
// ---------------------------------------------------------------------------------------

/// A list without the item at a place, which the last one takes.
pub open spec fn swap_removed<T>(s: Seq<T>, i: int) -> Seq<T> {
    s.update(i, s.last()).drop_last()
}

/// A list of contracts without one of them.
pub open spec fn without_contract(s: Seq<i64>, con_id: i64) -> Seq<i64>
    decreases s.len(),
{
    if s.len() == 0 {
        Seq::empty()
    } else {
        let rest = without_contract(s.drop_last(), con_id);
        if s.last() == con_id {
            rest
        } else {
            rest.push(s.last())
        }
    }
}

/// Takes a contract out of a list.
fn remove_contract(s: &Vec<i64>, con_id: i64) -> (r: Vec<i64>)
    ensures
        r@ == without_contract(s@, con_id),
{
    let mut out: Vec<i64> = Vec::new();
    let mut i: usize = 0;
    proof {
        assert(s@.take(0) =~= Seq::empty());
    }
    while i < s.len()
        invariant
            i <= s.len(),
            out@ == without_contract(s@.take(i as int), con_id),
        decreases s.len() - i,
    {
        proof {
            assert(s@.take(i + 1).drop_last() =~= s@.take(i as int));
        }
        if s[i] != con_id {
            out.push(s[i]);
        }
        i = i + 1;
    }
    proof {
        assert(s@.take(i as int) =~= s@);
    }
    out
}

/// The contracts of a scanner result that are not known, each once.
pub open spec fn cold_contracts(
    entries: Seq<ScannerEntry>,
    contracts: Map<i64, ContractView>,
) -> Seq<i64>
    decreases entries.len(),
{
    if entries.len() == 0 {
        Seq::empty()
    } else {
        let rest = cold_contracts(entries.drop_last(), contracts);
        let con_id = entries.last().con_id;
        if con_id == 0 || contracts.contains_key(con_id) || rest.contains(con_id) {
            rest
        } else {
            rest.push(con_id)
        }
    }
}

fn holds_contract(s: &Vec<i64>, con_id: i64) -> (r: bool)
    ensures
        r == s@.contains(con_id),
{
    let mut i: usize = 0;
    while i < s.len()
        invariant
            i <= s.len(),
            forall|k: int| 0 <= k < i ==> s@[k] != con_id,
        decreases s.len() - i,
    {
        if s[i] == con_id {
            return true;
        }
        i = i + 1;
    }
    false
}

fn find_cold(entries: &Vec<ScannerEntry>, contracts: &ContractCache) -> (r: Vec<i64>)
    ensures
        r@ == cold_contracts(entries@, contracts@),
{
    let mut out: Vec<i64> = Vec::new();
    let mut i: usize = 0;
    proof {
        assert(entries@.take(0) =~= Seq::empty());
    }
    while i < entries.len()
        invariant
            i <= entries.len(),
            out@ == cold_contracts(entries@.take(i as int), contracts@),
        decreases entries.len() - i,
    {
        proof {
            assert(entries@.take(i + 1).drop_last() =~= entries@.take(i as int));
        }
        let con_id = entries[i].con_id;
        if con_id != 0 && !contracts.knows(con_id) && !holds_contract(&out, con_id) {
            out.push(con_id);
        }
        i = i + 1;
    }
    proof {
        assert(entries@.take(i as int) =~= entries@);
    }
    out
}

/// After the definitions of the first `n` contracts of a list were asked for, those that were
/// asked for before left out.
pub open spec fn asked_for_all(
    s: LookupView,
    con_ids: Seq<i64>,
    n: int,
    connected: bool,
    stamp: Seq<char>,
    now: u64,
) -> LookupView
    decreases n,
{
    if n <= 0 {
        s
    } else {
        let before = asked_for_all(s, con_ids, n - 1, connected, stamp, now);
        if before.fetched.contains(con_ids[n - 1]) {
            before
        } else {
            before.asked_internally(con_ids[n - 1], connected, stamp, now)
        }
    }
}

/// After a scanner result. When all its contracts are known it is delivered; else it waits for
/// their definitions, which are asked for.
pub open spec fn scanner_started(
    s: LookupView,
    api_req_id: u32,
    result: ScannerResult,
    contracts: Map<i64, ContractView>,
    connected: bool,
    stamp: Seq<char>,
    now: u64,
) -> LookupView {
    let cold = cold_contracts(result.entries@, contracts);
    if cold.len() == 0 {
        s.told(EventView::Scanner(api_req_id, result))
    } else {
        let asked = asked_for_all(s, cold, cold.len() as int, connected, stamp, now);
        LookupView {
            scanners: asked.scanners.push(
                ScannerView {
                    api_req_id,
                    result,
                    awaiting: cold,
                    deadline: later(now, SCANNER_TIMEOUT),
                },
            ),
            ..asked
        }
    }
}

/// After the definition of a contract has come, for the scanner results from `i` on: none waits
/// for it any more, and those that wait for nothing are delivered.
pub open spec fn scanners_released(s: LookupView, con_id: i64, i: int) -> LookupView
    decreases s.scanners.len() - i,
{
    if i < 0 || i >= s.scanners.len() {
        s
    } else {
        let w = s.scanners[i];
        let awaiting = without_contract(w.awaiting, con_id);
        let next = LookupView {
            scanners: s.scanners.update(i, ScannerView { awaiting, ..w }),
            ..s
        };
        if awaiting.len() == 0 {
            scanners_released(
                LookupView {
                    scanners: swap_removed(next.scanners, i),
                    ..next.told(EventView::Scanner(w.api_req_id, w.result))
                },
                con_id,
                i,
            )
        } else {
            scanners_released(next, con_id, i + 1)
        }
    }
}

/// After a look at the time, for the scanner results from `i` on: those that have waited too
/// long are delivered as they are.
pub open spec fn scanners_swept(s: LookupView, now: u64, i: int) -> LookupView
    decreases s.scanners.len() - i,
{
    if i < 0 || i >= s.scanners.len() {
        s
    } else if s.scanners[i].deadline <= now {
        scanners_swept(
            LookupView {
                scanners: swap_removed(s.scanners, i),
                ..s.told(EventView::Scanner(s.scanners[i].api_req_id, s.scanners[i].result))
            },
            now,
            i,
        )
    } else {
        scanners_swept(s, now, i + 1)
    }
}

impl Lookups {
    /// Takes out the scanner result at a place, and delivers it.
    fn deliver_scanner(&mut self, i: usize)
        requires
            i < old(self)@.scanners.len(),
        ensures
            final(self)@ == (LookupView {
                scanners: swap_removed(old(self)@.scanners, i as int),
                ..old(self)@.told(
                    EventView::Scanner(
                        old(self)@.scanners[i as int].api_req_id,
                        old(self)@.scanners[i as int].result,
                    ),
                )
            }),
    {
        let done = self.pending_scanner_enrichment.swap_remove(i);
        proof {
            assert(self@.scanners =~= swap_removed(old(self)@.scanners, i as int));
            assert(self@.fanouts =~= old(self)@.fanouts);
            assert(self@.events =~= old(self)@.events);
            assert(self@.outbox =~= old(self)@.outbox);
        }
        self.tell(LookupEvent::Scanner(done.api_req_id, done.result));
    }

    /// Takes in a scanner result. It is delivered at once when all its contracts are known;
    /// else it waits for their definitions, which are asked for.
    pub fn start_scanner_enrichment(
        &mut self,
        api_req_id: u32,
        result: ScannerResult,
        contracts: &ContractCache,
        connected: bool,
        stamp: &str,
        now: u64,
    )
        ensures
            final(self)@ == scanner_started(
                old(self)@,
                api_req_id,
                result,
                contracts@,
                connected,
                stamp@,
                now,
            ),
    {
        let cold = find_cold(&result.entries, contracts);
        if cold.len() == 0 {
            self.tell(LookupEvent::Scanner(api_req_id, result));
            return ;
        }
        let mut i: usize = 0;
        while i < cold.len()
            invariant
                i <= cold.len(),
                self@ == asked_for_all(old(self)@, cold@, i as int, connected, stamp@, now),
            decreases cold.len() - i,
        {
            if !self.auto_fetched_conids.contains(&cold[i]) {
                self.ask_internally(cold[i], connected, stamp, now);
            }
            i = i + 1;
        }
        let waiting = PendingScannerEnrichment {
            api_req_id,
            result,
            awaiting: cold,
            deadline: deadline_after(now, SCANNER_TIMEOUT),
        };
        let ghost view = waiting@;
        let ghost before = self@;
        self.pending_scanner_enrichment.push(waiting);
        proof {
            assert(self@.scanners =~= before.scanners.push(view));
            assert(self@.fanouts =~= before.fanouts);
            assert(self@.events =~= before.events);
            assert(self@.outbox =~= before.outbox);
        }
    }

    /// Lets go of the scanner results that waited for the definition of a contract alone.
    pub fn try_release_scanner_enrichments(&mut self, con_id: i64)
        ensures
            final(self)@ == scanners_released(old(self)@, con_id, 0),
    {
        let mut i: usize = 0;
        while i < self.pending_scanner_enrichment.len()
            invariant
                i <= self.pending_scanner_enrichment.len(),
                scanners_released(self@, con_id, i as int) == scanners_released(
                    old(self)@,
                    con_id,
                    0,
                ),
            decreases self.pending_scanner_enrichment.len() - i,
        {
            let ghost before = self@;
            let awaiting = remove_contract(&self.pending_scanner_enrichment[i].awaiting, con_id);
            let done = awaiting.len() == 0;
            let ghost w = self.pending_scanner_enrichment@[i as int]@;
            let ghost left = awaiting@;
            self.pending_scanner_enrichment[i].awaiting = awaiting;
            proof {
                assert(before.scanners[i as int] == w);
                assert(self@.scanners =~= before.scanners.update(
                    i as int,
                    ScannerView { awaiting: left, ..w },
                ));
                assert(self@.fanouts =~= before.fanouts);
                assert(self@.events =~= before.events);
                assert(self@.outbox =~= before.outbox);
            }
            if done {
                self.deliver_scanner(i);
                proof {
                    assert(self@.scanners.len() == self.pending_scanner_enrichment@.len());
                }
            } else {
                i = i + 1;
            }
        }
    }

    /// Delivers the scanner results that have waited too long.
    pub fn sweep_scanner_enrichments(&mut self, now: u64)
        ensures
            final(self)@ == scanners_swept(old(self)@, now, 0),
    {
        let mut i: usize = 0;
        while i < self.pending_scanner_enrichment.len()
            invariant
                i <= self.pending_scanner_enrichment.len(),
                scanners_swept(self@, now, i as int) == scanners_swept(old(self)@, now, 0),
            decreases self.pending_scanner_enrichment.len() - i,
        {
            proof {
                assert(self@.scanners[i as int] == self.pending_scanner_enrichment@[i as int]@);
            }
            if self.pending_scanner_enrichment[i].deadline <= now {
                self.deliver_scanner(i);
                proof {
                    assert(self@.scanners.len() == self.pending_scanner_enrichment@.len());
                }
            } else {
                i = i + 1;
            }
        }
    }
}

// ---------------------------------------------------------------------------------------
// Lookups without an answer
// ---------------------------------------------------------------------------------------

/// The requests that are not given up at a time.
pub open spec fn live_requests(s: Seq<(u32, bool, u64)>, now: u64) -> Seq<(u32, bool, u64)>
    decreases s.len(),
{
    if s.len() == 0 {
        Seq::empty()
    } else {
        let rest = live_requests(s.drop_last(), now);
        if now >= s.last().2 {
            rest
        } else {
            rest.push(s.last())
        }
    }
}

/// The requests of users that are given up at a time.
pub open spec fn expired_requests(s: Seq<(u32, bool, u64)>, now: u64) -> Seq<u32>
    decreases s.len(),
{
    if s.len() == 0 {
        Seq::empty()
    } else {
        let rest = expired_requests(s.drop_last(), now);
        if now >= s.last().2 && s.last().0 < INTERNAL_REQUEST {
            rest.push(s.last().0)
        } else {
            rest
        }
    }
}

/// The fan-outs that are not given up at a time.
pub open spec fn live_fanouts(s: Seq<FanoutView>, now: u64) -> Seq<FanoutView>
    decreases s.len(),
{
    if s.len() == 0 {
        Seq::empty()
    } else {
        let rest = live_fanouts(s.drop_last(), now);
        if now >= s.last().deadline {
            rest
        } else {
            rest.push(s.last())
        }
    }
}

/// The requests of the fan-outs that are given up at a time.
pub open spec fn expired_fanouts(s: Seq<FanoutView>, now: u64) -> Seq<u32>
    decreases s.len(),
{
    if s.len() == 0 {
        Seq::empty()
    } else {
        let rest = expired_fanouts(s.drop_last(), now);
        if now >= s.last().deadline {
            rest.push(s.last().api_req_id)
        } else {
            rest
        }
    }
}

/// With an error and the end for each of a list of requests.
pub open spec fn timed_out(events: Seq<EventView>, ids: Seq<u32>) -> Seq<EventView>
    decreases ids.len(),
{
    if ids.len() == 0 {
        events
    } else {
        timed_out(events, ids.drop_last()).push(
            EventView::Error(ids.last(), 200, LOOKUP_TIMED_OUT@),
        ).push(EventView::End(ids.last()))
    }
}

/// After a look at the time: the lookups that have no answer in time end with an error.
pub open spec fn details_swept(s: LookupView, now: u64) -> LookupView {
    LookupView {
        secdefs: live_requests(s.secdefs, now),
        fanouts: live_fanouts(s.fanouts, now),
        events: timed_out(
            s.events,
            expired_requests(s.secdefs, now) + expired_fanouts(s.fanouts, now),
        ),
        ..s
    }
}

/// The pairs that are not given up at a time.
pub open spec fn live_pairs(s: Seq<PendingSchedulePair>, now: u64) -> Seq<PendingSchedulePair>
    decreases s.len(),
{
    if s.len() == 0 {
        Seq::empty()
    } else {
        let rest = live_pairs(s.drop_last(), now);
        if now >= s.last().deadline {
            rest
        } else {
            rest.push(s.last())
        }
    }
}

/// A definition without trading hours.
pub open spec fn without_hours(def: ContractDefinition) -> ContractDefinition {
    ContractDefinition { trading_hours: None, liquid_hours: None, time_zone_id: None, ..def }
}

/// With a definition delivered, and the end if it is the last.
pub open spec fn delivered(
    events: Seq<EventView>,
    req_id: u32,
    def: ContractDefinition,
    is_last: bool,
) -> Seq<EventView> {
    let e = events.push(EventView::Details(req_id, def));
    if is_last {
        e.push(EventView::End(req_id))
    } else {
        e
    }
}

/// With the definitions delivered that have waited too long for their trading hours.
pub open spec fn pairs_given_up(
    events: Seq<EventView>,
    s: Seq<PendingSchedulePair>,
    now: u64,
) -> Seq<EventView>
    decreases s.len(),
{
    if s.len() == 0 {
        events
    } else {
        let rest = pairs_given_up(events, s.drop_last(), now);
        if now >= s.last().deadline {
            delivered(rest, s.last().api_req_id, without_hours(s.last().def), s.last().is_last)
        } else {
            rest
        }
    }
}

proof fn lemma_live_fanouts_wf(s: Seq<FanoutView>, now: u64)
    requires
        forall|i: int|
            0 <= i < s.len() ==> 0 <= (#[trigger] s[i]).received < s[i].ids.len(),
    ensures
        forall|i: int|
            0 <= i < live_fanouts(s, now).len() ==> 0 <= (#[trigger] live_fanouts(
                s,
                now,
            )[i]).received < live_fanouts(s, now)[i].ids.len(),
    decreases s.len(),
{
    if s.len() > 0 {
        assert forall|i: int| 0 <= i < s.drop_last().len() implies 0 <= (
        #[trigger] s.drop_last()[i]).received < s.drop_last()[i].ids.len() by {
            assert(s.drop_last()[i] == s[i]);
        }
        lemma_live_fanouts_wf(s.drop_last(), now);
        let rest = live_fanouts(s.drop_last(), now);
        let live = live_fanouts(s, now);
        assert forall|i: int| 0 <= i < live.len() implies 0 <= (#[trigger] live[i]).received
            < live[i].ids.len() by {
            if i < rest.len() {
                assert(live[i] == rest[i]);
            } else {
                assert(live[i] == s[s.len() - 1]);
            }
        }
    }
}

impl Lookups {
    /// Delivers a definition, and the end if it is the last.
    pub(crate) fn deliver(&mut self, req_id: u32, def: ContractDefinition, is_last: bool)
        ensures
            final(self)@ == (LookupView {
                events: delivered(old(self)@.events, req_id, def, is_last),
                ..old(self)@
            }),
    {
        self.tell(LookupEvent::Details(req_id, def));
        if is_last {
            self.tell(LookupEvent::End(req_id));
        }
    }

    /// Gives up the lookups that have no answer in time: each ends with an error.
    pub fn sweep_contract_details(&mut self, now: u64)
        requires
            old(self)@.wf(),
        ensures
            final(self)@ == details_swept(old(self)@, now),
            final(self)@.wf(),
    {
        let mut expired: Vec<u32> = Vec::new();
        let mut live: Vec<(u32, bool, u64)> = Vec::new();
        let ghost secdefs = self.pending_secdef@;
        let mut i: usize = 0;
        proof {
            assert(secdefs.take(0) =~= Seq::empty());
            lemma_live_fanouts_wf(self@.fanouts, now);
        }
        while i < self.pending_secdef.len()
            invariant
                i <= self.pending_secdef.len(),
                self@ == old(self)@,
                secdefs == self.pending_secdef@,
                live@ == live_requests(secdefs.take(i as int), now),
                expired@ == expired_requests(secdefs.take(i as int), now),
            decreases self.pending_secdef.len() - i,
        {
            proof {
                assert(secdefs.take(i + 1).drop_last() =~= secdefs.take(i as int));
            }
            let p = self.pending_secdef[i];
            if now >= p.2 {
                if p.0 < INTERNAL_REQUEST {
                    expired.push(p.0);
                }
            } else {
                live.push(p);
            }
            i = i + 1;
        }
        proof {
            assert(secdefs.take(i as int) =~= secdefs);
        }
        let ghost fanouts = self@.fanouts;
        let ghost first = expired@;
        self.pending_secdef = live;
        let total: usize = self.pending_fanout.len();
        let mut j: usize = 0;
        let mut at: usize = 0;
        proof {
            assert(fanouts.take(0) =~= Seq::empty());
            assert(self@.fanouts =~= live_fanouts(fanouts.take(0), now) + fanouts.skip(0));
            assert(expired@ =~= first + expired_fanouts(fanouts.take(0), now));
        }
        while j < total
            invariant
                at <= j <= total,
                total == fanouts.len(),
                at == live_fanouts(fanouts.take(j as int), now).len(),
                self@.fanouts == live_fanouts(fanouts.take(j as int), now) + fanouts.skip(
                    j as int,
                ),
                self@ == (LookupView {
                    secdefs: live_requests(old(self)@.secdefs, now),
                    fanouts: self@.fanouts,
                    ..old(self)@
                }),
                expired@ == first + expired_fanouts(fanouts.take(j as int), now),
            decreases total - j,
        {
            let ghost before = self@.fanouts;
            proof {
                assert(fanouts.take(j + 1).drop_last() =~= fanouts.take(j as int));
                assert(before[at as int] == fanouts[j as int]);
                assert(before.len() == self.pending_fanout@.len());
                assert(before[at as int] == self.pending_fanout@[at as int]@);
            }
            if now >= self.pending_fanout[at].deadline {
                let ghost rest = self@;
                let p = self.pending_fanout.remove(at);
                expired.push(p.api_req_id);
                proof {
                    assert(self@.fanouts =~= before.remove(at as int));
                    assert(self@.fanouts =~= live_fanouts(fanouts.take(j + 1), now)
                        + fanouts.skip(j + 1));
                    assert(self@.scanners =~= rest.scanners);
                    assert(self@.events =~= rest.events);
                    assert(self@.outbox =~= rest.outbox);
                    assert(expired@ =~= first + expired_fanouts(fanouts.take(j + 1), now));
                }
            } else {
                at = at + 1;
                proof {
                    assert(self@.fanouts =~= live_fanouts(fanouts.take(j + 1), now)
                        + fanouts.skip(j + 1));
                }
            }
            j = j + 1;
        }
        proof {
            assert(fanouts.take(j as int) =~= fanouts);
            assert(self@.fanouts =~= live_fanouts(fanouts, now));
            assert(expired@.take(0) =~= Seq::empty());
        }
        let ghost swept = self@;
        let mut k: usize = 0;
        while k < expired.len()
            invariant
                k <= expired.len(),
                self@ == (LookupView {
                    events: timed_out(swept.events, expired@.take(k as int)),
                    ..swept
                }),
            decreases expired.len() - k,
        {
            proof {
                assert(expired@.take(k + 1).drop_last() =~= expired@.take(k as int));
            }
            self.tell(LookupEvent::Error(expired[k], 200, LOOKUP_TIMED_OUT.to_owned()));
            self.tell(LookupEvent::End(expired[k]));
            k = k + 1;
        }
        proof {
            assert(expired@.take(k as int) =~= expired@);
        }
    }

    /// Delivers the definitions that have waited too long for their trading hours, without
    /// them.
    pub fn sweep_pending_schedule_pairs(&mut self, now: u64)
        ensures
            final(self)@ == (LookupView {
                pairs: live_pairs(old(self)@.pairs, now),
                events: pairs_given_up(old(self)@.events, old(self)@.pairs, now),
                ..old(self)@
            }),
    {
        let ghost pairs = self@.pairs;
        let total: usize = self.pending_schedule_pair.len();
        let mut j: usize = 0;
        let mut at: usize = 0;
        proof {
            assert(pairs.take(0) =~= Seq::empty());
            assert(self@.pairs =~= live_pairs(pairs.take(0), now) + pairs.skip(0));
        }
        while j < total
            invariant
                at <= j <= total,
                total == pairs.len(),
                at == live_pairs(pairs.take(j as int), now).len(),
                self@ == (LookupView {
                    pairs: live_pairs(pairs.take(j as int), now) + pairs.skip(j as int),
                    events: pairs_given_up(old(self)@.events, pairs.take(j as int), now),
                    ..old(self)@
                }),
            decreases total - j,
        {
            let ghost before = self@;
            proof {
                assert(pairs.take(j + 1).drop_last() =~= pairs.take(j as int));
                assert(before.pairs[at as int] == pairs[j as int]);
            }
            if now >= self.pending_schedule_pair[at].deadline {
                let p = self.pending_schedule_pair.remove(at);
                proof {
                    assert(self@.pairs =~= live_pairs(pairs.take(j + 1), now) + pairs.skip(j + 1));
                    assert(self@.fanouts =~= before.fanouts);
                    assert(self@.scanners =~= before.scanners);
                    assert(self@.events =~= before.events);
                    assert(self@.outbox =~= before.outbox);
                }
                let def = ContractDefinition {
                    trading_hours: None,
                    liquid_hours: None,
                    time_zone_id: None,
                    ..p.def
                };
                self.deliver(p.api_req_id, def, p.is_last);
            } else {
                at = at + 1;
                proof {
                    assert(before.pairs =~= live_pairs(pairs.take(j + 1), now) + pairs.skip(j + 1));
                }
            }
            j = j + 1;
        }
        proof {
            assert(pairs.take(j as int) =~= pairs);
            assert(live_pairs(pairs, now) + pairs.skip(j as int) =~= live_pairs(pairs, now));
        }
    }
}

// ---------------------------------------------------------------------------------------
// Laws
// ---------------------------------------------------------------------------------------

proof fn lemma_live_requests(s: Seq<(u32, bool, u64)>, now: u64)
    ensures
        forall|i: int|
            0 <= i < live_requests(s, now).len() ==> now < (#[trigger] live_requests(s, now)[i]).2,
    decreases s.len(),
{
    if s.len() > 0 {
        lemma_live_requests(s.drop_last(), now);
        let rest = live_requests(s.drop_last(), now);
        let live = live_requests(s, now);
        assert forall|i: int| 0 <= i < live.len() implies now < (#[trigger] live[i]).2 by {
            if i < rest.len() {
                assert(live[i] == rest[i]);
            }
        }
    }
}

proof fn lemma_live_fanouts(s: Seq<FanoutView>, now: u64)
    ensures
        forall|i: int|
            0 <= i < live_fanouts(s, now).len() ==> now < (#[trigger] live_fanouts(
                s,
                now,
            )[i]).deadline,
    decreases s.len(),
{
    if s.len() > 0 {
        lemma_live_fanouts(s.drop_last(), now);
        let rest = live_fanouts(s.drop_last(), now);
        let live = live_fanouts(s, now);
        assert forall|i: int| 0 <= i < live.len() implies now < (#[trigger] live[i]).deadline by {
            if i < rest.len() {
                assert(live[i] == rest[i]);
            }
        }
    }
}

/// No lookup hangs: after a look at the time none is pending whose time is over.
pub proof fn law_no_lookup_outlives_its_deadline(s: LookupView, now: u64)
    ensures
        forall|i: int|
            0 <= i < details_swept(s, now).secdefs.len() ==> now < (#[trigger] details_swept(
                s,
                now,
            ).secdefs[i]).2,
        forall|i: int|
            0 <= i < details_swept(s, now).fanouts.len() ==> now < (#[trigger] details_swept(
                s,
                now,
            ).fanouts[i]).deadline,
{
    lemma_live_requests(s.secdefs, now);
    lemma_live_fanouts(s.fanouts, now);
}

proof fn lemma_expired_request(s: Seq<(u32, bool, u64)>, now: u64, i: int)
    requires
        0 <= i < s.len(),
        now >= s[i].2,
        s[i].0 < INTERNAL_REQUEST,
    ensures
        expired_requests(s, now).contains(s[i].0),
    decreases s.len(),
{
    let rest = expired_requests(s.drop_last(), now);
    let all = expired_requests(s, now);
    if i == s.len() - 1 {
        assert(all[all.len() - 1] == s[i].0);
    } else {
        lemma_expired_request(s.drop_last(), now, i);
        let k = choose|k: int| 0 <= k < rest.len() && rest[k] == s[i].0;
        assert(all[k] == s[i].0);
    }
}

proof fn lemma_timed_out(events: Seq<EventView>, ids: Seq<u32>, k: int)
    requires
        0 <= k < ids.len(),
    ensures
        timed_out(events, ids).len() == events.len() + 2 * ids.len(),
        timed_out(events, ids)[events.len() + 2 * k] == EventView::Error(
            ids[k],
            200,
            LOOKUP_TIMED_OUT@,
        ),
        timed_out(events, ids)[events.len() + 2 * k + 1] == EventView::End(ids[k]),
    decreases ids.len(),
{
    if ids.len() == 1 {
        assert(timed_out(events, ids.drop_last()) == events);
    } else if k < ids.len() - 1 {
        lemma_timed_out(events, ids.drop_last(), k);
    } else {
        lemma_timed_out(events, ids.drop_last(), 0);
    }
}

/// A lookup that is given up is answered: its request is told the error, and then the end.
pub proof fn law_expired_lookup_is_answered(s: LookupView, now: u64, i: int)
    requires
        0 <= i < s.secdefs.len(),
        now >= s.secdefs[i].2,
        s.secdefs[i].0 < INTERNAL_REQUEST,
    ensures
        exists|k: int|
            s.events.len() <= k && k + 1 < details_swept(s, now).events.len()
                && #[trigger] details_swept(s, now).events[k] == EventView::Error(
                s.secdefs[i].0,
                200,
                LOOKUP_TIMED_OUT@,
            ) && details_swept(s, now).events[k + 1] == EventView::End(s.secdefs[i].0),
{
    lemma_expired_request(s.secdefs, now, i);
    let first = expired_requests(s.secdefs, now);
    let ids = first + expired_fanouts(s.fanouts, now);
    let k = choose|k: int| 0 <= k < first.len() && first[k] == s.secdefs[i].0;
    assert(ids[k] == s.secdefs[i].0);
    lemma_timed_out(s.events, ids, k);
    let at = s.events.len() + 2 * k;
    assert(details_swept(s, now).events[at] == EventView::Error(
        s.secdefs[i].0,
        200,
        LOOKUP_TIMED_OUT@,
    ));
}

proof fn lemma_expired_fanout(s: Seq<FanoutView>, now: u64, i: int)
    requires
        0 <= i < s.len(),
        now >= s[i].deadline,
    ensures
        expired_fanouts(s, now).contains(s[i].api_req_id),
    decreases s.len(),
{
    let rest = expired_fanouts(s.drop_last(), now);
    let all = expired_fanouts(s, now);
    if i == s.len() - 1 {
        assert(all[all.len() - 1] == s[i].api_req_id);
    } else {
        lemma_expired_fanout(s.drop_last(), now, i);
        let k = choose|k: int| 0 <= k < rest.len() && rest[k] == s[i].api_req_id;
        assert(all[k] == s[i].api_req_id);
    }
}

/// A fan-out that is given up is answered like a lookup: however many of its answers have come,
/// its request is told the error, and then the end.
pub proof fn law_expired_fanout_is_answered(s: LookupView, now: u64, i: int)
    requires
        0 <= i < s.fanouts.len(),
        now >= s.fanouts[i].deadline,
    ensures
        exists|k: int|
            s.events.len() <= k && k + 1 < details_swept(s, now).events.len()
                && #[trigger] details_swept(s, now).events[k] == EventView::Error(
                s.fanouts[i].api_req_id,
                200,
                LOOKUP_TIMED_OUT@,
            ) && details_swept(s, now).events[k + 1] == EventView::End(s.fanouts[i].api_req_id),
{
    lemma_expired_fanout(s.fanouts, now, i);
    let first = expired_requests(s.secdefs, now);
    let second = expired_fanouts(s.fanouts, now);
    let ids = first + second;
    let k = choose|k: int| 0 <= k < second.len() && second[k] == s.fanouts[i].api_req_id;
    assert(ids[first.len() + k] == s.fanouts[i].api_req_id);
    lemma_timed_out(s.events, ids, first.len() + k);
    let at = s.events.len() + 2 * (first.len() + k);
    assert(details_swept(s, now).events[at] == EventView::Error(
        s.fanouts[i].api_req_id,
        200,
        LOOKUP_TIMED_OUT@,
    ));
}

/// A lookup whose time is not over is spared.
pub proof fn law_live_lookup_is_spared(s: Seq<(u32, bool, u64)>, now: u64, i: int)
    requires
        0 <= i < s.len(),
        now < s[i].2,
    ensures
        live_requests(s, now).contains(s[i]),
    decreases s.len(),
{
    let rest = live_requests(s.drop_last(), now);
    let all = live_requests(s, now);
    if i == s.len() - 1 {
        assert(all[all.len() - 1] == s[i]);
    } else {
        law_live_lookup_is_spared(s.drop_last(), now, i);
        let k = choose|k: int| 0 <= k < rest.len() && rest[k] == s[i];
        assert(all[k] == s[i]);
    }
}

/// Nobody is told of the engine's own requests: those that are given up are ones of users.
pub proof fn law_internal_expiry_is_silent(s: Seq<(u32, bool, u64)>, now: u64)
    ensures
        forall|k: int|
            0 <= k < expired_requests(s, now).len() ==> (#[trigger] expired_requests(s, now)[k])
                < INTERNAL_REQUEST,
    decreases s.len(),
{
    if s.len() > 0 {
        law_internal_expiry_is_silent(s.drop_last(), now);
        let rest = expired_requests(s.drop_last(), now);
        let all = expired_requests(s, now);
        assert forall|k: int| 0 <= k < all.len() implies (#[trigger] all[k])
            < INTERNAL_REQUEST by {
            if k < rest.len() {
                assert(all[k] == rest[k]);
            }
        }
    }
}

/// No definition waits for its trading hours longer than it should.
pub proof fn law_no_definition_waits_too_long(s: Seq<PendingSchedulePair>, now: u64)
    ensures
        forall|i: int|
            0 <= i < live_pairs(s, now).len() ==> now < (#[trigger] live_pairs(s, now)[i]).deadline,
    decreases s.len(),
{
    if s.len() > 0 {
        law_no_definition_waits_too_long(s.drop_last(), now);
        let rest = live_pairs(s.drop_last(), now);
        let live = live_pairs(s, now);
        assert forall|i: int| 0 <= i < live.len() implies now < (#[trigger] live[i]).deadline by {
            if i < rest.len() {
                assert(live[i] == rest[i]);
            }
        }
    }
}

proof fn lemma_scanners_swept(s: LookupView, now: u64, i: int)
    requires
        0 <= i <= s.scanners.len(),
        forall|k: int| 0 <= k < i ==> now < (#[trigger] s.scanners[k]).deadline,
    ensures
        forall|k: int|
            0 <= k < scanners_swept(s, now, i).scanners.len() ==> now < (
            #[trigger] scanners_swept(s, now, i).scanners[k]).deadline,
    decreases s.scanners.len() - i,
{
    let swept = scanners_swept(s, now, i);
    if i < s.scanners.len() {
        if s.scanners[i].deadline <= now {
            let next = LookupView {
                scanners: swap_removed(s.scanners, i),
                ..s.told(EventView::Scanner(s.scanners[i].api_req_id, s.scanners[i].result))
            };
            assert forall|k: int| 0 <= k < i implies now < (#[trigger] next.scanners[k]).deadline by {
                assert(next.scanners[k] == s.scanners[k]);
            }
            lemma_scanners_swept(next, now, i);
            assert(swept == scanners_swept(next, now, i));
        } else {
            lemma_scanners_swept(s, now, i + 1);
            assert(swept == scanners_swept(s, now, i + 1));
        }
        assert forall|k: int| 0 <= k < swept.scanners.len() implies now < (
        #[trigger] swept.scanners[k]).deadline by {}
    } else {
        assert(swept == s);
        assert forall|k: int| 0 <= k < swept.scanners.len() implies now < (
        #[trigger] swept.scanners[k]).deadline by {
            assert(now < s.scanners[k].deadline);
        }
    }
}

/// No scanner result waits for its contracts longer than it should.
pub proof fn law_no_scanner_result_waits_too_long(s: LookupView, now: u64)
    ensures
        forall|k: int|
            0 <= k < scanners_swept(s, now, 0).scanners.len() ==> now < (
            #[trigger] scanners_swept(s, now, 0).scanners[k]).deadline,
{
    lemma_scanners_swept(s, now, 0);
}

/// The definition of a held contract is asked for once, however often the contract is met.
pub proof fn law_contract_is_fetched_once(
    s: LookupView,
    con_id: i64,
    contracts: Map<i64, ContractView>,
    connected: bool,
    stamp: Seq<char>,
    now: u64,
    later_stamp: Seq<char>,
    later_now: u64,
)
    ensures
        ({
            let once = fetched_if_cold(s, con_id, contracts, connected, stamp, now);
            fetched_if_cold(once, con_id, contracts, connected, later_stamp, later_now) == once
        }),
{
}

} // verus!
