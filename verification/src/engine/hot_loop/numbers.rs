//! What the texts of a message stand for that read as decimal numbers.
use std::collections::HashMap;
use vstd::prelude::*;
use vstd::std_specs::iter::IteratorSpec;

use crate::bridge::Number;
use crate::engine::hot_loop::exec_report::{Numbers, Values};
use crate::protocol::fix::map_texts;
use crate::text::text_eq;
use crate::types::Price;

verus! {

broadcast use vstd::std_specs::hash::group_hash_axioms;

/// What texts stand for, for those that read as decimal numbers.
pub struct NumberTable {
    pub entries: Vec<(String, Number)>,
}

impl View for NumberTable {
    type V = Seq<(Seq<char>, Number)>;

    open spec fn view(&self) -> Seq<(Seq<char>, Number)> {
        self.entries@.map_values(|e: (String, Number)| (e.0@, e.1))
    }
}

/// What a text stands for, by the entries of a table from `i` on.
pub open spec fn number_from(table: Seq<(Seq<char>, Number)>, text: Seq<char>, i: int) -> Option<
    Number,
>
    decreases table.len() - i,
{
    if i < 0 || i >= table.len() {
        None
    } else if table[i].0 == text {
        Some(table[i].1)
    } else {
        number_from(table, text, i + 1)
    }
}

/// What a text stands for.
pub open spec fn number_of(table: Seq<(Seq<char>, Number)>, text: Seq<char>) -> Option<Number> {
    number_from(table, text, 0)
}

/// What a text stands for, in price units.
pub open spec fn price_of(table: Seq<(Seq<char>, Number)>, text: Seq<char>) -> Option<Price> {
    match number_of(table, text) {
        Some(n) => Some(n.scaled),
        None => None,
    }
}

/// What the values of a message stand for, by tag.
pub open spec fn field_numbers(v: Values, table: Seq<(Seq<char>, Number)>) -> Numbers {
    Map::new(
        |t: u32| v.contains_key(t) && number_of(table, v[t]) is Some,
        |t: u32| number_of(table, v[t])->0,
    )
}

impl NumberTable {
    /// What a text stands for.
    pub fn number(&self, text: &str) -> (r: Option<Number>)
        ensures
            r == number_of(self@, text@),
    {
        let mut i: usize = 0;
        while i < self.entries.len()
            invariant
                i <= self.entries.len(),
                number_of(self@, text@) == number_from(self@, text@, i as int),
            decreases self.entries.len() - i,
        {
            proof {
                assert(self@[i as int] == (self.entries@[i as int].0@, self.entries@[i as int].1));
            }
            if text_eq(self.entries[i].0.as_str(), text) {
                return Some(self.entries[i].1);
            }
            i = i + 1;
        }
        None
    }

    /// What a text stands for, in price units.
    pub fn price(&self, text: &str) -> (r: Option<Price>)
        ensures
            r == price_of(self@, text@),
    {
        match self.number(text) {
            Some(n) => Some(n.scaled),
            None => None,
        }
    }

    /// What the values of a message stand for, by tag.
    pub fn of_fields(&self, m: &HashMap<u32, String>) -> (r: HashMap<u32, Number>)
        ensures
            r@ == field_numbers(map_texts(m@), self@),
    {
        let mut out: HashMap<u32, Number> = HashMap::new();
        for (tag, text) in it: m.iter()
            invariant
                it.seq() == m.iter().remaining(),
                forall|t: u32| #[trigger]
                    out@.contains_key(t) ==> m@.contains_key(t) && number_of(
                        self@,
                        m@[t]@,
                    ) == Some(out@[t]),
                forall|i: int|
                    #![trigger it.seq()[i]]
                    0 <= i < it.index() && number_of(self@, m@[*it.seq()[i].0]@) is Some
                        ==> out@.contains_key(*it.seq()[i].0),
        {
            proof {
                assert(m@.contains_key(*it.seq()[it.index()].0));
                assert(m@[*tag] == *text);
            }
            if let Some(n) = self.number(text.as_str()) {
                out.insert(*tag, n);
            }
        }
        proof {
            let pairs = m.iter().remaining();
            let want = field_numbers(map_texts(m@), self@);
            assert forall|t: u32| want.contains_key(t) implies #[trigger] out@.contains_key(t) by {
                assert(m@.contains_key(t));
                assert(pairs.contains((&t, &m@[t])));
                let i = choose|i: int| 0 <= i < pairs.len() && pairs[i] == (&t, &m@[t]);
                assert(*pairs[i].0 == t);
            }
            assert(out@ =~= want);
        }
        out
    }
}

} // verus!
