//! Prices and quantities, and how messages write them.
use vstd::prelude::*;

use crate::text::{dec, dec_fixed, format_fixed, format_uint};

verus! {

/// A price, in units of 1 / [`PRICE_SCALE`].
pub type Price = i64;

/// A quantity, in units of 1 / [`QTY_SCALE`].
pub type Qty = i64;

/// The index of an instrument in the market state.
pub type InstrumentId = u32;

/// The id of an order.
pub type OrderId = u64;

/// How many units make a price of 1.
pub const PRICE_SCALE: i64 = 100_000_000;

/// How many units make a quantity of 1.
pub const QTY_SCALE: i64 = 10_000;

/// How many instruments the market state has room for.
pub const MAX_INSTRUMENTS: usize = 256;

/// Order types that have no one-character code of their own.
pub const ORD_STP_PRT: u8 = 128;
pub const ORD_MIDPX: u8 = 129;
pub const ORD_SNAP_MKT: u8 = 130;
pub const ORD_SNAP_MID: u8 = 131;
pub const ORD_SNAP_PRI: u8 = 132;
pub const ORD_PEG_MKT: u8 = 133;
pub const ORD_PEG_MID: u8 = 134;
pub const ORD_PEG_BENCH: u8 = 135;
pub const ORD_WHAT_IF: u8 = 136;

// ---------------------------------------------------------------------------------------
// Decimal notation of prices and quantities
// ---------------------------------------------------------------------------------------

/// The quotient rounded toward zero.
pub open spec fn trunc_div(a: int, b: int) -> int {
    if a >= 0 {
        a / b
    } else {
        -((-a) / b)
    }
}

/// `|a|`.
pub open spec fn magnitude(a: int) -> int {
    if a >= 0 {
        a
    } else {
        -a
    }
}

/// A text without the zeros at its end.
pub open spec fn without_zeros(s: Seq<char>) -> Seq<char>
    decreases s.len(),
{
    if s.len() > 0 && s.last() == '0' {
        without_zeros(s.drop_last())
    } else {
        s
    }
}

/// A number of units that is not negative, `scale` = 10^`digits` of which make 1, in decimal
/// notation: the whole part and, when there is one, a point and the fraction without trailing
/// zeros.
pub open spec fn unsigned_text(v: int, scale: int, digits: nat) -> Seq<char> {
    let whole = dec((v / scale) as nat);
    let frac = v % scale;
    if frac == 0 {
        whole
    } else {
        whole.push('.') + without_zeros(dec_fixed(frac as nat, digits))
    }
}

/// A number of units in decimal notation, with a leading minus sign when negative.
pub open spec fn scaled_text(v: int, scale: int, digits: nat) -> Seq<char> {
    if v < 0 {
        seq!['-'] + unsigned_text(-v, scale, digits)
    } else {
        unsigned_text(v, scale, digits)
    }
}

/// A price in decimal notation.
pub open spec fn price_text(p: int) -> Seq<char> {
    scaled_text(p, PRICE_SCALE as int, 8)
}

/// A quantity in decimal notation.
pub open spec fn qty_text(q: int) -> Seq<char> {
    scaled_text(q, QTY_SCALE as int, 4)
}

/// A number of units in decimal notation.
fn format_scaled(v: i64, scale: u64, digits: usize) -> (r: String)
    requires
        scale > 0,
    ensures
        r@ == scaled_text(v as int, scale as int, digits as nat),
{
    let mag: u64 = if v < 0 {
        (-(v as i128)) as u64
    } else {
        v as u64
    };
    let whole: u64 = mag / scale;
    let frac: u64 = mag % scale;
    let mut out = String::new();
    if v < 0 {
        out.push('-');
    }
    let ghost sign = out@;
    let whole_text = format_uint(whole);
    out.append(whole_text.as_str());
    if frac != 0 {
        out.push('.');
        let digits_text = format_fixed(frac, digits);
        let mut chars = crate::text::chars_of(digits_text.as_str());
        while chars.len() > 0 && chars[chars.len() - 1] == '0'
            invariant
                without_zeros(chars@) == without_zeros(digits_text@),
            decreases chars.len(),
        {
            proof {
                assert(chars@.drop_last() =~= chars@.take(chars.len() - 1));
            }
            chars.pop();
        }
        let trimmed = crate::text::text_of(chars.as_slice());
        out.append(trimmed.as_str());
    }
    proof {
        let text = unsigned_text(mag as int, scale as int, digits as nat);
        assert(out@ =~= sign + text);
        assert(out@ =~= scaled_text(v as int, scale as int, digits as nat));
    }
    out
}

/// A price in decimal notation, for a message field.
pub fn format_price(price: Price) -> (r: String)
    ensures
        r@ == price_text(price as int),
{
    format_scaled(price, 100_000_000, 8)
}

/// A quantity in decimal notation, for a message field.
pub fn format_qty(qty: Qty) -> (r: String)
    ensures
        r@ == qty_text(qty as int),
{
    format_scaled(qty, 10_000, 4)
}

/// The part of a text before the first point, and the part behind it.
pub open spec fn around_point(t: Seq<char>) -> (Seq<char>, Seq<char>) {
    match crate::text::find_from(t, seq!['.'], 0) {
        Some(i) => (t.take(i), t.skip(i + 1)),
        None => (t, Seq::empty()),
    }
}

/// The quantity that a decimal text denotes: an optional minus sign, digits, and at most four
/// decimals that count; further decimals are cut off. `None` for any other text, and for a
/// quantity that does not fit.
pub open spec fn parsed_qty(s: Seq<char>) -> Option<int> {
    let neg = s.len() > 0 && s[0] == '-';
    let t = if neg {
        s.skip(1)
    } else {
        s
    };
    let (whole, frac) = around_point(t);
    let units = crate::text::value_of(whole) * QTY_SCALE + crate::text::value_of(padded(frac, 4));
    let v = if neg {
        -units
    } else {
        units
    };
    if crate::text::is_number(whole) && digits_only(frac) && i64::MIN < v <= i64::MAX {
        Some(v)
    } else {
        None
    }
}

/// Whether each character is a digit.
pub open spec fn digits_only(s: Seq<char>) -> bool {
    forall|i: int| 0 <= i < s.len() ==> crate::text::is_digit(#[trigger] s[i])
}

/// The first `width` characters of `s`, filled up with zeros.
pub open spec fn padded(s: Seq<char>, width: nat) -> Seq<char> {
    Seq::new(
        width,
        |i: int|
            if i < s.len() {
                s[i]
            } else {
                '0'
            },
    )
}

/// Whether each character is a digit, from `from` on.
fn all_digits(s: &Vec<char>, from: usize, to: usize) -> (r: bool)
    requires
        from <= to <= s.len(),
    ensures
        r == (forall|i: int| from <= i < to ==> crate::text::is_digit(#[trigger] s@[i])),
{
    let mut i: usize = from;
    while i < to
        invariant
            from <= i <= to <= s.len(),
            forall|k: int| from <= k < i ==> crate::text::is_digit(#[trigger] s@[k]),
        decreases to - i,
    {
        if s[i] < '0' || s[i] > '9' {
            return false;
        }
        i = i + 1;
    }
    true
}

/// Reads a quantity in decimal notation.
pub fn parse_qty(s: &str) -> (r: Option<Qty>)
    ensures
        r is Some == parsed_qty(s@) is Some,
        r is Some ==> r->0 == parsed_qty(s@)->0,
{
    let all = crate::text::chars_of(s);
    let neg: bool = all.len() > 0 && all[0] == '-';
    let start: usize = if neg {
        1
    } else {
        0
    };
    let ghost t = s@.skip(start as int);
    let mut point: usize = start;
    proof {
        assert(s@.skip(0) =~= s@);
    }
    while point < all.len() && all[point] != '.'
        invariant
            start <= point <= all.len(),
            all@ == s@,
            t == s@.skip(start as int),
            forall|j: int| 0 <= j < point - start ==> #[trigger] t[j] != '.',
        decreases all.len() - point,
    {
        point = point + 1;
    }
    let ghost k = point - start;
    proof {
        assert forall|j: int| 0 <= j < k implies !#[trigger] crate::text::occurs_at(
            t,
            seq!['.'],
            j,
        ) by {
            if crate::text::occurs_at(t, seq!['.'], j) {
                crate::text::lemma_occurs_index(t, seq!['.'], j, 0);
            }
        }
        if point < all.len() {
            assert(t.subrange(k, k + 1) =~= seq!['.']);
            crate::text::lemma_find_first(t, seq!['.'], 0, k);
        } else {
            lemma_find_none(t, 0);
        }
    }
    let ghost whole = if point < all.len() {
        t.take(k)
    } else {
        t
    };
    let frac_from: usize = if point < all.len() {
        point + 1
    } else {
        point
    };
    let ghost frac = if point < all.len() {
        t.skip(k + 1)
    } else {
        Seq::empty()
    };
    proof {
        assert(whole =~= s@.subrange(start as int, point as int));
        assert(frac =~= s@.skip(frac_from as int));
    }
    let whole_ok = all_digits(&all, start, point);
    let frac_ok = all_digits(&all, frac_from, all.len());
    if point == start || !whole_ok || !frac_ok {
        proof {
            if point == start {
                assert(whole.len() == 0);
            } else if !whole_ok {
                let i = choose|i: int|
                    start <= i < point && !crate::text::is_digit(#[trigger] s@[i]);
                assert(whole[i - start] == s@[i]);
            } else {
                let i = choose|i: int|
                    frac_from <= i < s@.len() && !crate::text::is_digit(#[trigger] s@[i]);
                assert(frac[i - frac_from] == s@[i]);
            }
        }
        return None;
    }
    proof {
        assert forall|i: int| 0 <= i < whole.len() implies crate::text::is_digit(
            #[trigger] whole[i],
        ) by {
            assert(whole[i] == s@[i + start]);
        }
        assert forall|i: int| 0 <= i < frac.len() implies crate::text::is_digit(
            #[trigger] frac[i],
        ) by {
            assert(frac[i] == s@[i + frac_from]);
        }
    }
    let mut units: i128 = 0;
    let mut i: usize = start;
    let mut over: bool = false;
    while i < point
        invariant
            start <= i <= point <= all.len(),
            all@ == s@,
            whole == s@.subrange(start as int, point as int),
            forall|j: int| 0 <= j < whole.len() ==> crate::text::is_digit(#[trigger] whole[j]),
            !over ==> units == crate::text::value_of(whole.take(i - start)) && 0 <= units
                <= 0x8000_0000_0000_0000,
            over ==> crate::text::value_of(whole.take(i - start)) > 0x8000_0000_0000_0000,
        decreases point - i,
    {
        proof {
            assert(whole.take(i - start + 1).drop_last() =~= whole.take(i - start));
            assert(whole[i - start] == s@[i as int]);
            assert(crate::text::is_digit(whole[i - start]));
        }
        let d: i128 = (all[i] as u32 - 48) as i128;
        if !over {
            units = units * 10 + d;
            if units > 0x8000_0000_0000_0000 {
                over = true;
            }
        }
        i = i + 1;
    }
    proof {
        assert(whole.take(i - start) =~= whole);
        lemma_padded_range(frac);
    }
    if over {
        return None;
    }
    let mut part: i128 = 0;
    let mut n: usize = 0;
    let ghost four = padded(frac, 4);
    while n < 4
        invariant
            n <= 4,
            all@ == s@,
            frac_from <= all.len(),
            frac == s@.skip(frac_from as int),
            four == padded(frac, 4),
            forall|j: int| 0 <= j < frac.len() ==> crate::text::is_digit(#[trigger] frac[j]),
            part == crate::text::value_of(four.take(n as int)),
            0 <= part,
            n == 0 ==> part <= 0,
            n <= 1 ==> part <= 9,
            n <= 2 ==> part <= 99,
            n <= 3 ==> part <= 999,
            part <= 9999,
        decreases 4 - n,
    {
        proof {
            assert(four.take(n + 1).drop_last() =~= four.take(n as int));
        }
        let d: i128 = if n < all.len() - frac_from {
            proof {
                assert(frac[n as int] == s@[frac_from + n]);
                assert(crate::text::is_digit(frac[n as int]));
            }
            (all[frac_from + n] as u32 - 48) as i128
        } else {
            0
        };
        part = part * 10 + d;
        n = n + 1;
    }
    proof {
        assert(four.take(4) =~= four);
    }
    let total: i128 = units * 10_000 + part;
    let signed: i128 = if neg {
        -total
    } else {
        total
    };
    if signed > 0x7fff_ffff_ffff_ffff || signed <= -0x8000_0000_0000_0000 {
        None
    } else {
        Some(signed as i64)
    }
}

proof fn lemma_find_none(t: Seq<char>, from: int)
    requires
        0 <= from,
        forall|j: int| 0 <= j < t.len() ==> #[trigger] t[j] != '.',
    ensures
        crate::text::find_from(t, seq!['.'], from) is None,
    decreases t.len() + 1 - from,
{
    if from + 1 <= t.len() {
        if crate::text::occurs_at(t, seq!['.'], from) {
            crate::text::lemma_occurs_index(t, seq!['.'], from, 0);
        }
        lemma_find_none(t, from + 1);
    }
}

proof fn lemma_padded_range(s: Seq<char>)
    requires
        forall|i: int| 0 <= i < s.len() ==> crate::text::is_digit(#[trigger] s[i]),
    ensures
        crate::text::value_of(padded(s, 4)) <= 9999,
{
    let p = padded(s, 4);
    assert forall|i: int| 0 <= i < 4 implies 48 <= (#[trigger] p[i]) as int <= 57 by {
        if i < s.len() {
            assert(crate::text::is_digit(s[i]));
        }
    }
    reveal_with_fuel(crate::text::value_of, 5);
}

proof fn lemma_without_zeros(s: Seq<char>)
    ensures
        without_zeros(s).len() <= s.len(),
        forall|i: int| 0 <= i < without_zeros(s).len() ==> #[trigger] without_zeros(s)[i] == s[i],
        forall|i: int| without_zeros(s).len() <= i < s.len() ==> #[trigger] s[i] == '0',
    decreases s.len(),
{
    if s.len() > 0 && s.last() == '0' {
        let t = s.drop_last();
        lemma_without_zeros(t);
        assert forall|i: int| without_zeros(s).len() <= i < s.len() implies #[trigger] s[i]
            == '0' by {
            if i < t.len() {
                assert(t[i] == '0');
            }
        }
    }
}

/// 10^`width`.
pub open spec fn pow10(width: nat) -> nat
    decreases width,
{
    if width == 0 {
        1
    } else {
        10 * pow10((width - 1) as nat)
    }
}

proof fn lemma_fixed_value(n: nat, width: nat)
    requires
        n < pow10(width),
    ensures
        crate::text::value_of(dec_fixed(n, width)) == n,
    decreases width,
{
    if width > 0 {
        let less = (width - 1) as nat;
        lemma_fixed_value(n / 10, less);
        assert(dec_fixed(n, width).drop_last() =~= dec_fixed(n / 10, less));
    }
}

/// What a text without a sign denotes: a whole number, or one with decimals behind a point.
proof fn lemma_unsigned_text(v: int, width: nat)
    requires
        v >= 0,
    ensures
        ({
            let t = unsigned_text(v, pow10(width) as int, width);
            let (whole, frac) = around_point(t);
            &&& t.len() > 0
            &&& t[0] != '-'
            &&& crate::text::is_number(whole)
            &&& digits_only(frac)
            &&& crate::text::value_of(whole) == v / pow10(width) as int
            &&& crate::text::value_of(padded(frac, width)) == v % pow10(width) as int
            &&& t.contains('.') == (v % pow10(width) as int != 0)
            &&& v % pow10(width) as int != 0 ==> t.last() != '0'
        }),
{
    lemma_pow10_positive(width);
    let scale = pow10(width) as int;
    let w = (v / scale) as nat;
    let f = (v % scale) as nat;
    assert(v / scale >= 0 && 0 <= v % scale < scale) by (nonlinear_arith)
        requires
            v >= 0,
            scale > 0,
    ;
    let d = crate::text::dec(w);
    crate::text::lemma_dec_value(w);
    assert(crate::text::is_digit(d[0]));
    if f == 0 {
        assert forall|j: int| 0 <= j < d.len() implies #[trigger] d[j] != '.' by {
            assert(crate::text::is_digit(d[j]));
        }
        lemma_find_none(d, 0);
        lemma_zeros(width);
        lemma_fixed_value(0, width);
    } else {
        let fixed = dec_fixed(f, width);
        let z = without_zeros(fixed);
        let t = d.push('.') + z;
        let k = d.len() as int;
        crate::text::lemma_fixed_digits(f, width);
        lemma_without_zeros(fixed);
        assert(t[0] == d[0]);
        assert(t.subrange(k, k + 1) =~= seq!['.']);
        assert forall|j: int| 0 <= j < k implies !#[trigger] crate::text::occurs_at(
            t,
            seq!['.'],
            j,
        ) by {
            assert(t[j] == d[j]);
            assert(crate::text::is_digit(d[j]));
            if crate::text::occurs_at(t, seq!['.'], j) {
                crate::text::lemma_occurs_index(t, seq!['.'], j, 0);
            }
        }
        crate::text::lemma_find_first(t, seq!['.'], 0, k);
        assert(t.take(k) =~= d);
        assert(t.skip(k + 1) =~= z);
        assert forall|i: int| 0 <= i < z.len() implies crate::text::is_digit(#[trigger] z[i]) by {
            assert(z[i] == fixed[i]);
            assert(crate::text::is_digit(fixed[i]));
        }
        assert(padded(z, width) =~= fixed) by {
            assert forall|i: int| 0 <= i < width implies padded(z, width)[i] == fixed[i] by {
                if i >= z.len() {
                    assert(fixed[i] == '0');
                }
            }
        }
        lemma_fixed_value(f, width);
        assert(t[k] == '.');
        lemma_not_all_zeros(f, width);
        assert(t.last() == z.last());
    }
}

proof fn lemma_pow10_positive(width: nat)
    ensures
        pow10(width) > 0,
    decreases width,
{
    if width > 0 {
        lemma_pow10_positive((width - 1) as nat);
    }
}

/// 0 in `width` digits.
proof fn lemma_zeros(width: nat)
    ensures
        padded(Seq::empty(), width) == dec_fixed(0, width),
    decreases width,
{
    let none = Seq::<char>::empty();
    if width > 0 {
        let less = (width - 1) as nat;
        lemma_zeros(less);
        assert(padded(none, width) =~= padded(none, less).push('0'));
    } else {
        assert(padded(none, width) =~= none);
    }
}

/// Something is left of a number that is not 0 when the zeros at its end are taken off, and it
/// does not end in a zero.
proof fn lemma_not_all_zeros(n: nat, width: nat)
    requires
        0 < n < pow10(width),
    ensures
        without_zeros(dec_fixed(n, width)).len() > 0,
        without_zeros(dec_fixed(n, width)).last() != '0',
    decreases width,
{
    let less = (width - 1) as nat;
    let s = dec_fixed(n, width);
    if n % 10 == 0 {
        lemma_not_all_zeros(n / 10, less);
        assert(s.drop_last() =~= dec_fixed(n / 10, less));
    }
}

/// What a text in decimal notation denotes, in units of which 10^`width` make 1.
pub open spec fn decimal_units(s: Seq<char>, width: nat) -> int {
    let neg = s.len() > 0 && s[0] == '-';
    let t = if neg {
        s.skip(1)
    } else {
        s
    };
    let (whole, frac) = around_point(t);
    let units = crate::text::value_of(whole) * pow10(width) + crate::text::value_of(
        padded(frac, width),
    );
    if neg {
        -units
    } else {
        units as int
    }
}

/// The text of a price denotes that price, sign included. It has a point only when the price
/// is not whole, and then it does not end in a zero.
pub proof fn law_price_text(p: Price)
    ensures
        decimal_units(price_text(p as int), 8) == p,
        price_text(p as int).contains('.') <==> magnitude(p as int) % PRICE_SCALE as int != 0,
        price_text(p as int).contains('.') ==> price_text(p as int).last() != '0',
{
    reveal_with_fuel(pow10, 9);
    let m = magnitude(p as int);
    lemma_unsigned_text(m, 8);
    let t = unsigned_text(m, PRICE_SCALE as int, 8);
    let s = price_text(p as int);
    assert(pow10(8) == PRICE_SCALE);
    let (whole, frac) = around_point(t);
    assert(crate::text::value_of(whole) * pow10(8) + crate::text::value_of(padded(frac, 8)) == m);
    if p < 0 {
        assert(s.skip(1) =~= t);
        assert(s[0] == '-');
        if t.contains('.') {
            let i = choose|i: int| 0 <= i < t.len() && t[i] == '.';
            assert(s[i + 1] == '.');
        }
        if s.contains('.') {
            let i = choose|i: int| 0 <= i < s.len() && s[i] == '.';
            assert(t[i - 1] == '.');
        }
        assert(s.last() == t.last());
    }
}

/// A quantity that was written is read back. Left out is the one whose negative does not fit.
pub proof fn law_qty_round_trip(q: Qty)
    requires
        q > i64::MIN,
    ensures
        parsed_qty(qty_text(q as int)) == Some(q as int),
{
    let m = magnitude(q as int);
    reveal_with_fuel(pow10, 5);
    lemma_unsigned_text(m, 4);
    let t = unsigned_text(m, QTY_SCALE as int, 4);
    let s = qty_text(q as int);
    if q < 0 {
        assert(s.skip(1) =~= t);
        assert(s[0] == '-');
    }
}

} // verus!
