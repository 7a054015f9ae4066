//! Historical queries that are kept up to date: which request a bar belongs to.
use std::collections::HashMap;
use vstd::prelude::*;
use vstd::slice::slice_subrange;

use crate::bridge::text_of_option;
use crate::engine::hot_loop::farm::{body_after, find_body_after_tag};
use crate::protocol::wire::{be32_at, read_be32};
use crate::text::{chars_of, find_bytes, find_from, lemma_find_from, occurs_at, slice_vec, text_eq};

verus! {

broadcast use vstd::std_specs::hash::group_hash_axioms;

/// The queries that are kept up to date, and the tickers under which their bars come.
pub struct KeptQueries {
    /// The name of each query, and its request.
    pub pending_kut_historical: Vec<(String, u32)>,
    /// The request that the bars of a ticker belong to.
    pub kut_ticker_map: HashMap<u32, u32>,
    /// The smallest price step of a ticker's bars, as the server wrote it.
    pub kut_min_tick: HashMap<u32, String>,
}

/// What [`KeptQueries`] hold.
pub ghost struct KeptView {
    pub queries: Seq<(Seq<char>, u32)>,
    pub tickers: Map<u32, u32>,
    pub min_ticks: Map<u32, Seq<char>>,
}

impl View for KeptQueries {
    type V = KeptView;

    open spec fn view(&self) -> KeptView {
        KeptView {
            queries: self.pending_kut_historical@.map_values(|q: (String, u32)| (q.0@, q.1)),
            tickers: self.kut_ticker_map@,
            min_ticks: self.kut_min_tick@.map_values(|t: String| t@),
        }
    }
}

/// The request of the first query with a name, from `i` on.
pub open spec fn request_of_query(s: Seq<(Seq<char>, u32)>, name: Seq<char>, i: int) -> Option<u32>
    decreases s.len() - i,
{
    if i < 0 || i >= s.len() {
        None
    } else if s[i].0 == name {
        Some(s[i].1)
    } else {
        request_of_query(s, name, i + 1)
    }
}

/// Whether a text stands in another.
pub open spec fn mentions(text: Seq<char>, part: Seq<char>) -> bool {
    find_from(text, part, 0) is Some
}

/// The request of the first query whose name stands in a text, from `i` on.
pub open spec fn mentioned_request(s: Seq<(Seq<char>, u32)>, text: Seq<char>, i: int) -> Option<u32>
    decreases s.len() - i,
{
    if i < 0 || i >= s.len() {
        None
    } else if mentions(text, s[i].0) {
        Some(s[i].1)
    } else {
        mentioned_request(s, text, i + 1)
    }
}

fn chars_at(s: &Vec<char>, part: &Vec<char>, i: usize) -> (r: bool)
    ensures
        r == occurs_at(s@, part@, i as int),
{
    if i > s.len() || part.len() > s.len() - i {
        return false;
    }
    let mut k: usize = 0;
    while k < part.len()
        invariant
            k <= part.len(),
            i + part.len() <= s.len(),
            forall|j: int| 0 <= j < k ==> s@[i + j] == #[trigger] part@[j],
        decreases part.len() - k,
    {
        if s[i + k] != part[k] {
            proof {
                let cut = s@.subrange(i as int, i + part@.len());
                assert(cut[k as int] != part@[k as int]);
            }
            return false;
        }
        k = k + 1;
    }
    proof {
        assert(s@.subrange(i as int, i + part@.len()) =~= part@);
    }
    true
}

fn text_mentions(text: &str, part: &str) -> (r: bool)
    ensures
        r == mentions(text@, part@),
{
    let s = chars_of(text);
    let p = chars_of(part);
    let mut i: usize = 0;
    while i <= s.len() && p.len() <= s.len() - i
        invariant
            s@ == text@,
            p@ == part@,
            find_from(text@, part@, 0) == find_from(text@, part@, i as int),
        decreases s.len() + 1 - i,
    {
        if chars_at(&s, &p, i) {
            return true;
        }
        if i == s.len() {
            proof {
                assert(find_from(text@, part@, i + 1) is None);
            }
            return false;
        }
        i = i + 1;
    }
    false
}

impl KeptQueries {
    /// No queries.
    pub fn new() -> (r: Self)
        ensures
            r@ == (KeptView {
                queries: Seq::empty(),
                tickers: Map::empty(),
                min_ticks: Map::empty(),
            }),
    {
        let r = KeptQueries {
            pending_kut_historical: Vec::new(),
            kut_ticker_map: HashMap::new(),
            kut_min_tick: HashMap::new(),
        };
        proof {
            assert(r@.queries =~= Seq::empty());
            assert(r@.min_ticks =~= Map::empty());
        }
        r
    }

    /// Remembers a query.
    pub fn keep(&mut self, name: String, req_id: u32)
        ensures
            final(self)@ == (KeptView {
                queries: old(self)@.queries.push((name@, req_id)),
                ..old(self)@
            }),
    {
        let ghost text = name@;
        self.pending_kut_historical.push((name, req_id));
        proof {
            assert(self@.queries =~= old(self)@.queries.push((text, req_id)));
            assert(self@.min_ticks =~= old(self)@.min_ticks);
        }
    }

    /// The request that the bars of a query belong to.
    pub fn request_of(&self, name: &str) -> (r: Option<u32>)
        ensures
            r == request_of_query(self@.queries, name@, 0),
    {
        let mut i: usize = 0;
        while i < self.pending_kut_historical.len()
            invariant
                i <= self.pending_kut_historical.len(),
                request_of_query(self@.queries, name@, 0) == request_of_query(
                    self@.queries,
                    name@,
                    i as int,
                ),
            decreases self.pending_kut_historical.len() - i,
        {
            proof {
                assert(self@.queries[i as int] == (
                    self.pending_kut_historical@[i as int].0@,
                    self.pending_kut_historical@[i as int].1,
                ));
            }
            if text_eq(self.pending_kut_historical[i].0.as_str(), name) {
                return Some(self.pending_kut_historical[i].1);
            }
            i = i + 1;
        }
        proof {
            assert(self@.queries.len() == self.pending_kut_historical@.len());
        }
        None
    }

    /// Takes in a message that assigns a ticker: its bars belong to the first query that the
    /// message mentions. One that mentions none changes nothing.
    pub fn assign_ticker(&mut self, xml: &str, ticker_id: u32, min_tick: String)
        ensures
            final(self)@ == match mentioned_request(old(self)@.queries, xml@, 0) {
                Some(req_id) => KeptView {
                    tickers: old(self)@.tickers.insert(ticker_id, req_id),
                    min_ticks: old(self)@.min_ticks.insert(ticker_id, min_tick@),
                    ..old(self)@
                },
                None => old(self)@,
            },
    {
        let mut i: usize = 0;
        while i < self.pending_kut_historical.len()
            invariant
                i <= self.pending_kut_historical.len(),
                self@ == old(self)@,
                mentioned_request(self@.queries, xml@, 0) == mentioned_request(
                    self@.queries,
                    xml@,
                    i as int,
                ),
            decreases self.pending_kut_historical.len() - i,
        {
            proof {
                assert(self@.queries[i as int] == (
                    self.pending_kut_historical@[i as int].0@,
                    self.pending_kut_historical@[i as int].1,
                ));
            }
            if text_mentions(xml, self.pending_kut_historical[i].0.as_str()) {
                let req_id = self.pending_kut_historical[i].1;
                let ghost text = min_tick@;
                self.kut_ticker_map.insert(ticker_id, req_id);
                self.kut_min_tick.insert(ticker_id, min_tick);
                proof {
                    assert(self@.queries =~= old(self)@.queries);
                    assert(self@.min_ticks =~= old(self)@.min_ticks.insert(ticker_id, text));
                }
                return ;
            }
            i = i + 1;
        }
        proof {
            assert(self@.queries.len() == self.pending_kut_historical@.len());
        }
    }

    /// The request that the bars of a ticker belong to.
    pub fn request_of_ticker(&self, ticker_id: u32) -> (r: Option<u32>)
        ensures
            r == if self@.tickers.contains_key(ticker_id) {
                Some(self@.tickers[ticker_id])
            } else {
                None
            },
    {
        match self.kut_ticker_map.get(&ticker_id) {
            Some(id) => Some(*id),
            None => None,
        }
    }

    /// The smallest price step of a ticker's bars, as the server wrote it.
    pub fn min_tick_of(&self, ticker_id: u32) -> (r: Option<String>)
        ensures
            text_of_option(r) == if self@.min_ticks.contains_key(ticker_id) {
                Some(self@.min_ticks[ticker_id])
            } else {
                None
            },
    {
        match self.kut_min_tick.get(&ticker_id) {
            Some(t) => Some(t.clone()),
            None => None,
        }
    }
}

/// A message with a bar: the ticker, the time, and the packed bar.
pub struct BarFrame {
    pub ticker_id: u32,
    pub timestamp: u32,
    pub payload: Vec<u8>,
}

/// The marker of a bar.
pub open spec fn bar_marker() -> Seq<u8> {
    seq![51u8, 53u8, 61u8, 71u8, 1u8]
}

/// The mark of the signature that may end a message.
pub open spec fn signature_bytes() -> Seq<u8> {
    seq![1u8, 56u8, 51u8, 52u8, 57u8, 61u8]
}

/// A body up to its signature, if it has one.
pub open spec fn unsigned_bytes(body: Seq<u8>) -> Seq<u8> {
    match find_from(body, signature_bytes(), 0) {
        Some(i) => body.take(i),
        None => body,
    }
}

/// The ticker, the time and the packed bar in a body: two bytes that say nothing, the ticker
/// and the time as four bytes each, the length of the packed bar as one, and the bar. `None`
/// when the body is shorter.
pub open spec fn bar_in(body: Seq<u8>) -> Option<(u32, u32, Seq<u8>)> {
    if body.len() < 11 || body.len() < 11 + body[10] {
        None
    } else {
        Some(
            (
                be32_at(body, 2),
                be32_at(body, 6),
                body.subrange(11, 11 + body[10]),
            ),
        )
    }
}

/// The ticker, the time and the packed bar in a message.
pub open spec fn bar_of(msg: Seq<u8>) -> Option<(u32, u32, Seq<u8>)> {
    match body_after(msg, bar_marker()) {
        Some(body) => bar_in(unsigned_bytes(body)),
        None => None,
    }
}

/// Reads a message with a bar. `None` when it does not hold one.
pub fn read_bar_frame(msg: &[u8]) -> (r: Option<BarFrame>)
    ensures
        match r {
            Some(f) => bar_of(msg@) == Some((f.ticker_id, f.timestamp, f.payload@)),
            None => bar_of(msg@) is None,
        },
{
    let marker: [u8; 5] = [51, 53, 61, 71, 1];
    let mark: [u8; 6] = [1, 56, 51, 52, 57, 61];
    proof {
        assert(marker@ =~= bar_marker());
        assert(mark@ =~= signature_bytes());
    }
    let whole = match find_body_after_tag(msg, &marker) {
        Some(b) => b,
        None => return None,
    };
    let body = match find_bytes(whole, &mark, 0) {
        Some(i) => {
            proof {
                lemma_find_from(whole@, mark@, 0);
            }
            let cut = slice_subrange(whole, 0, i);
            proof {
                assert(cut@ =~= whole@.take(i as int));
            }
            cut
        },
        None => whole,
    };
    proof {
        assert(body@ == unsigned_bytes(whole@));
    }
    let n: usize = body.len();
    if n < 11 {
        return None;
    }
    let len: usize = body[10] as usize;
    if n - 11 < len {
        return None;
    }
    Some(
        BarFrame {
            ticker_id: read_be32(body, 2),
            timestamp: read_be32(body, 6),
            payload: slice_vec(body, 11, 11 + len),
        },
    )
}

} // verus!
