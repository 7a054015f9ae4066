//! Execution ids: which fills and commissions have been seen.
use vstd::prelude::*;

use crate::text::{chars_of, text_eq, text_of};

verus! {

/// How many execution ids are remembered.
pub const EXEC_ID_WINDOW: usize = 1024;

// ---------------------------------------------------------------------------------------
// Reading ids
// ---------------------------------------------------------------------------------------

/// The position of the last dot of a text.
pub open spec fn last_dot(s: Seq<char>) -> Option<int>
    decreases s.len(),
{
    if s.len() == 0 {
        None
    } else if s.last() == '.' {
        Some(s.len() - 1)
    } else {
        last_dot(s.drop_last())
    }
}

fn find_last_dot(s: &Vec<char>) -> (r: Option<usize>)
    ensures
        match r {
            Some(i) => last_dot(s@) == Some(i as int) && i < s.len(),
            None => last_dot(s@) is None,
        },
{
    let mut i: usize = s.len();
    proof {
        assert(s@.take(s@.len() as int) =~= s@);
    }
    while i > 0
        invariant
            i <= s.len(),
            last_dot(s@) == last_dot(s@.take(i as int)),
        decreases i,
    {
        if s[i - 1] == '.' {
            return Some(i - 1);
        }
        proof {
            assert(s@.take(i as int).drop_last() =~= s@.take(i - 1));
        }
        i = i - 1;
    }
    None
}

/// The value of a hexadecimal digit.
pub open spec fn hex_value(c: char) -> Option<int> {
    if '0' <= c <= '9' {
        Some(c as int - 48)
    } else if 'a' <= c <= 'f' {
        Some(c as int - 87)
    } else if 'A' <= c <= 'F' {
        Some(c as int - 55)
    } else {
        None
    }
}

/// Whether each character is a hexadecimal digit.
pub open spec fn is_hex(s: Seq<char>) -> bool {
    forall|i: int| 0 <= i < s.len() ==> hex_value(#[trigger] s[i]) is Some
}

/// The number that hexadecimal digits denote.
pub open spec fn hex_number(s: Seq<char>) -> int
    decreases s.len(),
{
    if s.len() == 0 {
        0
    } else {
        hex_number(s.drop_last()) * 16 + hex_value(s.last())->0
    }
}

/// The number that a text of an optional plus sign and hexadecimal digits denotes, if it fits
/// in 64 bits.
pub open spec fn parsed_hex(s: Seq<char>) -> Option<int> {
    let d = if s.len() > 0 && s[0] == '+' {
        s.skip(1)
    } else {
        s
    };
    if d.len() > 0 && is_hex(d) && hex_number(d) <= u64::MAX {
        Some(hex_number(d))
    } else {
        None
    }
}

fn hex_digit_value(c: char) -> (r: Option<u64>)
    ensures
        r is Some == hex_value(c) is Some,
        r is Some ==> r->0 == hex_value(c)->0 && r->0 < 16,
{
    if '0' <= c && c <= '9' {
        Some((c as u32 - 48) as u64)
    } else if 'a' <= c && c <= 'f' {
        Some((c as u32 - 87) as u64)
    } else if 'A' <= c && c <= 'F' {
        Some((c as u32 - 55) as u64)
    } else {
        None
    }
}

/// Reads the hexadecimal number in the characters from `from` on.
fn parse_hex(s: &Vec<char>, from: usize) -> (r: Option<u64>)
    requires
        from <= s.len(),
    ensures
        r is Some == parsed_hex(s@.skip(from as int)) is Some,
        r is Some ==> r->0 == parsed_hex(s@.skip(from as int))->0,
{
    let ghost whole = s@.skip(from as int);
    let start: usize = if from < s.len() && s[from] == '+' {
        from + 1
    } else {
        from
    };
    let ghost d = s@.skip(start as int);
    proof {
        if start > from {
            assert(whole.skip(1) =~= d);
        }
    }
    if start == s.len() {
        return None;
    }
    let mut v: u64 = 0;
    let mut over: bool = false;
    let mut i: usize = start;
    while i < s.len()
        invariant
            start <= i <= s.len(),
            d == s@.skip(start as int),
            parsed_hex(s@.skip(from as int)) is Some ==> is_hex(d),
            forall|k: int| 0 <= k < i - start ==> hex_value(#[trigger] d[k]) is Some,
            !over ==> v == hex_number(d.take(i - start)),
            over ==> hex_number(d.take(i - start)) > u64::MAX,
        decreases s.len() - i,
    {
        proof {
            assert(d[i - start] == s@[i as int]);
            assert(d.take(i - start + 1).drop_last() =~= d.take(i - start));
        }
        let digit = match hex_digit_value(s[i]) {
            Some(x) => x,
            None => return None,
        };
        if !over {
            let wide: u128 = v as u128 * 16 + digit as u128;
            if wide > 0xffff_ffff_ffff_ffff {
                over = true;
            } else {
                v = wide as u64;
            }
        }
        i = i + 1;
    }
    proof {
        assert(d.take(i - start) =~= d);
    }
    if over {
        None
    } else {
        Some(v)
    }
}

/// An execution id without its revision, and the revision: the last part between dots, read as
/// a hexadecimal number. An id without such a part has revision 0.
pub open spec fn exec_revision(id: Seq<char>) -> (Seq<char>, u64) {
    match last_dot(id) {
        Some(i) => match parsed_hex(id.skip(i + 1)) {
            Some(r) => (id.take(i), r as u64),
            None => (id, 0),
        },
        None => (id, 0),
    }
}

/// Splits an execution id into the id without its revision and the revision.
pub fn split_exec_revision(exec_id: &str) -> (r: (String, u64))
    ensures
        (r.0@, r.1) == exec_revision(exec_id@),
{
    let chars = chars_of(exec_id);
    match find_last_dot(&chars) {
        Some(i) => match parse_hex(&chars, i + 1) {
            Some(rev) => {
                let mut base = chars;
                base.truncate(i);
                proof {
                    assert(base@ =~= exec_id@.take(i as int));
                }
                (text_of(base.as_slice()), rev)
            },
            None => (exec_id.to_owned(), 0),
        },
        None => (exec_id.to_owned(), 0),
    }
}

/// One step of the FNV-1a hash.
pub open spec fn fnv_step(h: u64, b: u8) -> u64 {
    (((h ^ (b as u64)) * 0x100000001b3) % 0x1_0000_0000_0000_0000) as u64
}

/// The FNV-1a hash of a byte string.
pub open spec fn fnv(s: Seq<u8>) -> u64
    decreases s.len(),
{
    if s.len() == 0 {
        0xcbf29ce484222325
    } else {
        fnv_step(fnv(s.drop_last()), s.last())
    }
}

/// The part of an order id that stays the same when the order is replaced: all but the last of
/// three or more parts between dots.
pub open spec fn stable_part(s: Seq<char>) -> Seq<char> {
    match last_dot(s) {
        Some(i) => if last_dot(s.take(i)) is Some {
            s.take(i)
        } else {
            s
        },
        None => s,
    }
}

/// The permanent id of an order: a hash of the stable part of its order id.
pub open spec fn perm_id(s: Seq<char>) -> i64 {
    (fnv(vstd::utf8::encode_utf8(stable_part(s))) >> 1) as i64
}

/// The permanent id of an order, made of the order id that the server gave it.
pub fn perm_id_from_fix_order_id(s: &str) -> (r: i64)
    ensures
        r == perm_id(s@),
{
    let chars = chars_of(s);
    let mut stable = chars_of(s);
    if let Some(i) = find_last_dot(&chars) {
        stable.truncate(i);
        proof {
            assert(stable@ =~= s@.take(i as int));
        }
        if find_last_dot(&stable).is_none() {
            stable = chars;
        }
    }
    let text = text_of(stable.as_slice());
    let bytes = text.as_str().as_bytes();
    let mut h: u64 = 0xcbf29ce484222325;
    let mut i: usize = 0;
    while i < bytes.len()
        invariant
            i <= bytes.len(),
            h == fnv(bytes@.take(i as int)),
        decreases bytes.len() - i,
    {
        let x: u64 = h ^ (bytes[i] as u64);
        let wide: u128 = x as u128 * 0x100000001b3;
        h = (wide % 0x1_0000_0000_0000_0000) as u64;
        i = i + 1;
        proof {
            assert(bytes@.take(i as int).drop_last() =~= bytes@.take(i - 1));
        }
    }
    proof {
        assert(bytes@.take(i as int) =~= bytes@);
        let g = h;
        assert(g >> 1 <= 0x7fff_ffff_ffff_ffff) by (bit_vector);
    }
    (h >> 1) as i64
}

/// Replacing an order changes only the last part of its order id, which leaves its permanent
/// id as it was: two ids of three or more parts that differ in the last one have the same.
pub proof fn law_perm_id_stable(base: Seq<char>, a: Seq<char>, b: Seq<char>)
    requires
        last_dot(base) is Some,
        last_dot(a) is None,
        last_dot(b) is None,
    ensures
        perm_id(base.push('.') + a) == perm_id(base.push('.') + b),
{
    lemma_last_dot_before(base, a);
    lemma_last_dot_before(base, b);
    assert((base.push('.') + a).take(base.len() as int) =~= base);
    assert((base.push('.') + b).take(base.len() as int) =~= base);
}

proof fn lemma_last_dot_before(base: Seq<char>, a: Seq<char>)
    requires
        last_dot(a) is None,
    ensures
        last_dot(base.push('.') + a) == Some(base.len() as int),
    decreases a.len(),
{
    let s = base.push('.') + a;
    if a.len() == 0 {
        assert(s =~= base.push('.'));
    } else {
        assert(s.last() == a.last());
        assert(s.drop_last() =~= base.push('.') + a.drop_last());
        lemma_last_dot_before(base, a.drop_last());
    }
}

// ---------------------------------------------------------------------------------------
// The window of execution ids
// ---------------------------------------------------------------------------------------

/// The last execution ids that were new, the oldest first.
pub struct ExecIdWindow {
    ids: Vec<String>,
}

impl View for ExecIdWindow {
    type V = Seq<Seq<char>>;

    closed spec fn view(&self) -> Seq<Seq<char>> {
        crate::text::string_texts(self.ids@)
    }
}

/// Whether a window is sound: it remembers no id twice, and no more than it has room for.
pub open spec fn window_ok(ids: Seq<Seq<char>>) -> bool {
    ids.no_duplicates() && ids.len() <= EXEC_ID_WINDOW
}

/// The window after an id is seen. A new id is remembered, in the place of the oldest when
/// there is no room.
pub open spec fn seen(ids: Seq<Seq<char>>, id: Seq<char>) -> Seq<Seq<char>> {
    if ids.contains(id) {
        ids
    } else if ids.len() >= EXEC_ID_WINDOW {
        ids.push(id).skip(1)
    } else {
        ids.push(id)
    }
}

/// Seeing an id keeps a window sound, and the id is remembered.
pub proof fn lemma_seen_ok(ids: Seq<Seq<char>>, id: Seq<char>)
    requires
        window_ok(ids),
    ensures
        window_ok(seen(ids, id)),
        seen(ids, id).contains(id),
{
    let t = ids.push(id);
    if !ids.contains(id) {
        assert forall|i: int, j: int| 0 <= i < t.len() && 0 <= j < t.len() && i != j implies t[i]
            != t[j] by {
            if i == ids.len() {
                assert(ids.contains(ids[j]));
            } else if j == ids.len() {
                assert(ids.contains(ids[i]));
            }
        }
        if ids.len() >= EXEC_ID_WINDOW {
            let u = t.skip(1);
            assert(u[u.len() - 1] == id);
            assert forall|i: int, j: int|
                0 <= i < u.len() && 0 <= j < u.len() && i != j implies u[i] != u[j] by {
                assert(u[i] == t[i + 1] && u[j] == t[j + 1]);
            }
        } else {
            assert(t[t.len() - 1] == id);
        }
    }
}

impl ExecIdWindow {
    /// A window that remembers nothing.
    pub fn new() -> (r: Self)
        ensures
            r@ == Seq::<Seq<char>>::empty(),
            window_ok(r@),
    {
        let r = ExecIdWindow { ids: Vec::new() };
        proof {
            assert(r@ =~= Seq::empty());
        }
        r
    }

    /// How many ids are remembered.
    pub fn len(&self) -> (r: usize)
        ensures
            r == self@.len(),
    {
        self.ids.len()
    }

    /// Whether an id is remembered.
    fn holds(&self, id: &str) -> (r: bool)
        ensures
            r == self@.contains(id@),
    {
        let mut i: usize = 0;
        while i < self.ids.len()
            invariant
                i <= self.ids.len(),
                forall|k: int| 0 <= k < i ==> #[trigger] self@[k] != id@,
            decreases self.ids.len() - i,
        {
            proof {
                assert(self@[i as int] == self.ids@[i as int]@);
            }
            if text_eq(self.ids[i].as_str(), id) {
                return true;
            }
            i = i + 1;
        }
        false
    }

    /// Records an execution id: whether it is new, in which case its fill counts.
    pub fn record(&mut self, id: &str) -> (r: bool)
        requires
            window_ok(old(self)@),
        ensures
            window_ok(final(self)@),
            r == !old(self)@.contains(id@),
            final(self)@ == seen(old(self)@, id@),
    {
        proof {
            lemma_seen_ok(self@, id@);
        }
        if self.holds(id) {
            return false;
        }
        self.ids.push(id.to_owned());
        proof {
            assert(self@ =~= old(self)@.push(id@));
        }
        if self.ids.len() > EXEC_ID_WINDOW {
            let ghost before = self.ids@;
            self.ids.remove(0);
            proof {
                assert(self.ids@ =~= before.skip(1));
                assert(self@ =~= crate::text::string_texts(before).skip(1));
            }
        }
        true
    }
}

/// The window after a sequence of ids is seen.
pub open spec fn seen_all(ids: Seq<Seq<char>>, more: Seq<Seq<char>>) -> Seq<Seq<char>>
    decreases more.len(),
{
    if more.len() == 0 {
        ids
    } else {
        seen(seen_all(ids, more.drop_last()), more.last())
    }
}

/// No fill counts twice while its id is remembered: an id that was new is a duplicate until as
/// many other ids have come as the window has room for.
pub proof fn law_recent_id_is_duplicate(ids: Seq<Seq<char>>, id: Seq<char>, more: Seq<Seq<char>>)
    requires
        window_ok(ids),
        !ids.contains(id),
        more.len() < EXEC_ID_WINDOW,
    ensures
        seen_all(seen(ids, id), more).contains(id),
{
    let j = lemma_place(ids, id, more);
}

/// Where an id that was new stands in the window after some more ids.
proof fn lemma_place(ids: Seq<Seq<char>>, id: Seq<char>, more: Seq<Seq<char>>) -> (j: int)
    requires
        window_ok(ids),
        !ids.contains(id),
        more.len() < EXEC_ID_WINDOW,
    ensures
        window_ok(seen_all(seen(ids, id), more)),
        0 <= j < seen_all(seen(ids, id), more).len(),
        seen_all(seen(ids, id), more)[j] == id,
        seen_all(seen(ids, id), more).len() - 1 - j <= more.len(),
    decreases more.len(),
{
    lemma_seen_ok(ids, id);
    if more.len() == 0 {
        seen(ids, id).len() - 1
    } else {
        let before = seen_all(seen(ids, id), more.drop_last());
        let j = lemma_place(ids, id, more.drop_last());
        lemma_seen_ok(before, more.last());
        if before.contains(more.last()) {
            j
        } else if before.len() >= EXEC_ID_WINDOW {
            assert(before.push(more.last()).skip(1)[j - 1] == before[j]);
            j - 1
        } else {
            j
        }
    }
}

// ---------------------------------------------------------------------------------------
// Commission revisions
// ---------------------------------------------------------------------------------------

/// The executions whose commission was reported, each with the highest revision, the oldest
/// first.
pub struct CommissionWindow {
    entries: Vec<(String, u64)>,
}

impl View for CommissionWindow {
    type V = Seq<(Seq<char>, u64)>;

    closed spec fn view(&self) -> Seq<(Seq<char>, u64)> {
        self.entries@.map_values(|e: (String, u64)| (e.0@, e.1))
    }
}

/// Where an execution stands among the reported ones.
pub open spec fn entry_index(s: Seq<(Seq<char>, u64)>, base: Seq<char>) -> Option<int>
    decreases s.len(),
{
    if s.len() == 0 {
        None
    } else if entry_index(s.drop_last(), base) is Some {
        entry_index(s.drop_last(), base)
    } else if s.last().0 == base {
        Some(s.len() - 1)
    } else {
        None
    }
}

/// Whether a commission report is news: its execution was not reported, or with a lower
/// revision.
pub open spec fn commission_is_new(s: Seq<(Seq<char>, u64)>, exec_id: Seq<char>) -> bool {
    let (base, revision) = exec_revision(exec_id);
    match entry_index(s, base) {
        Some(i) => revision > s[i].1,
        None => true,
    }
}

/// The reported executions after a commission report. A higher revision takes the place of a
/// lower one; a new execution is remembered, in the place of the oldest when there is no room.
pub open spec fn commission_seen(s: Seq<(Seq<char>, u64)>, exec_id: Seq<char>) -> Seq<
    (Seq<char>, u64),
> {
    let (base, revision) = exec_revision(exec_id);
    match entry_index(s, base) {
        Some(i) => if revision > s[i].1 {
            s.update(i, (base, revision))
        } else {
            s
        },
        None => if s.len() >= EXEC_ID_WINDOW {
            s.push((base, revision)).skip(1)
        } else {
            s.push((base, revision))
        },
    }
}

proof fn lemma_entry_index(s: Seq<(Seq<char>, u64)>, base: Seq<char>)
    ensures
        entry_index(s, base) matches Some(i) ==> 0 <= i < s.len() && s[i].0 == base,
        entry_index(s, base) is None ==> forall|i: int|
            0 <= i < s.len() ==> (#[trigger] s[i]).0 != base,
    decreases s.len(),
{
    if s.len() > 0 {
        lemma_entry_index(s.drop_last(), base);
        if entry_index(s, base) is None {
            assert forall|i: int| 0 <= i < s.len() implies (#[trigger] s[i]).0 != base by {
                if i < s.len() - 1 {
                    assert(s.drop_last()[i].0 != base);
                }
            }
        }
    }
}

impl CommissionWindow {
    /// A window that remembers nothing.
    pub fn new() -> (r: Self)
        ensures
            r@ == Seq::<(Seq<char>, u64)>::empty(),
    {
        let r = CommissionWindow { entries: Vec::new() };
        proof {
            assert(r@ =~= Seq::empty());
        }
        r
    }

    fn find(&self, base: &str) -> (r: Option<usize>)
        ensures
            match r {
                Some(i) => entry_index(self@, base@) == Some(i as int) && i < self@.len(),
                None => entry_index(self@, base@) is None,
            },
    {
        let mut i: usize = 0;
        proof {
            assert(self@.take(0) =~= Seq::empty());
        }
        while i < self.entries.len()
            invariant
                i <= self.entries.len(),
                entry_index(self@.take(i as int), base@) is None,
            decreases self.entries.len() - i,
        {
            proof {
                assert(self@[i as int] == (self.entries@[i as int].0@, self.entries@[i as int].1));
                assert(self@.take(i + 1).drop_last() =~= self@.take(i as int));
            }
            if text_eq(self.entries[i].0.as_str(), base) {
                proof {
                    lemma_index_extends(self@, base@, i + 1);
                }
                return Some(i);
            }
            i = i + 1;
        }
        proof {
            assert(self@.take(i as int) =~= self@);
        }
        None
    }

    /// Records a commission report: whether it is news. The same execution again, or a lower
    /// revision of it, is not.
    pub fn record(&mut self, exec_id: &str) -> (r: bool)
        requires
            old(self)@.len() <= EXEC_ID_WINDOW,
        ensures
            final(self)@.len() <= EXEC_ID_WINDOW,
            r == commission_is_new(old(self)@, exec_id@),
            final(self)@ == commission_seen(old(self)@, exec_id@),
    {
        let (base, revision) = split_exec_revision(exec_id);
        let ghost text = base@;
        match self.find(base.as_str()) {
            Some(i) => {
                proof {
                    lemma_entry_index(self@, text);
                    assert(self@[i as int] == (
                        self.entries@[i as int].0@,
                        self.entries@[i as int].1,
                    ));
                }
                if revision <= self.entries[i].1 {
                    return false;
                }
                self.entries[i] = (base, revision);
                proof {
                    assert(self@ =~= old(self)@.update(i as int, (text, revision)));
                }
            },
            None => {
                self.entries.push((base, revision));
                proof {
                    assert(self@ =~= old(self)@.push((text, revision)));
                }
                if self.entries.len() > EXEC_ID_WINDOW {
                    let ghost before = self.entries@;
                    self.entries.remove(0);
                    proof {
                        assert(self.entries@ =~= before.skip(1));
                        assert(self@ =~= old(self)@.push((text, revision)).skip(1));
                    }
                }
            },
        }
        true
    }
}

/// An entry that was found stays where it is when more follow.
proof fn lemma_index_extends(s: Seq<(Seq<char>, u64)>, base: Seq<char>, k: int)
    requires
        0 <= k <= s.len(),
        entry_index(s.take(k), base) is Some,
    ensures
        entry_index(s, base) == entry_index(s.take(k), base),
    decreases s.len() - k,
{
    if k < s.len() {
        assert(s.take(k + 1).drop_last() =~= s.take(k));
        lemma_index_extends(s, base, k + 1);
    } else {
        assert(s.take(k) =~= s);
    }
}

/// A commission report is delivered once: right after it was recorded, the same execution id,
/// and each lower revision of it, is no news.
pub proof fn law_commission_reported_once(
    s: Seq<(Seq<char>, u64)>,
    exec_id: Seq<char>,
    again: Seq<char>,
)
    requires
        s.len() <= EXEC_ID_WINDOW,
        exec_revision(again).0 == exec_revision(exec_id).0,
        exec_revision(again).1 <= exec_revision(exec_id).1,
    ensures
        !commission_is_new(commission_seen(s, exec_id), again),
{
    let (base, revision) = exec_revision(exec_id);
    lemma_entry_index(s, base);
    let t = commission_seen(s, exec_id);
    match entry_index(s, base) {
        Some(i) => {
            lemma_index_update(s, base, i, (base, t[i].1));
            assert(t =~= s.update(i, (base, t[i].1)));
        },
        None => {
            let pushed = s.push((base, revision));
            if s.len() >= EXEC_ID_WINDOW {
                let u = pushed.skip(1);
                assert(u.last() == (base, revision));
                assert forall|i: int| 0 <= i < u.drop_last().len() implies (
                #[trigger] u.drop_last()[i]).0 != base by {
                    assert(s[i + 1].0 != base);
                }
                lemma_entry_none(u.drop_last(), base);
            } else {
                assert(pushed.drop_last() =~= s);
            }
        },
    }
}

proof fn lemma_entry_none(s: Seq<(Seq<char>, u64)>, base: Seq<char>)
    requires
        forall|i: int| 0 <= i < s.len() ==> (#[trigger] s[i]).0 != base,
    ensures
        entry_index(s, base) is None,
{
    lemma_entry_index(s, base);
}

proof fn lemma_index_update(s: Seq<(Seq<char>, u64)>, base: Seq<char>, i: int, e: (Seq<char>, u64))
    requires
        entry_index(s, base) == Some(i),
        e.0 == base,
    ensures
        0 <= i < s.len(),
        entry_index(s.update(i, e), base) == Some(i),
    decreases s.len(),
{
    lemma_entry_index(s, base);
    if s.len() > 0 {
        lemma_entry_index(s.drop_last(), base);
        if i < s.len() - 1 {
            lemma_index_update(s.drop_last(), base, i, e);
            assert(s.update(i, e).drop_last() =~= s.drop_last().update(i, e));
        } else {
            assert(s.update(i, e).drop_last() =~= s.drop_last());
        }
    }
}

} // verus!
