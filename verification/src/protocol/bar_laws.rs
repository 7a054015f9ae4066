//! Bars, numbers and texts that are written in the formats of market data are read back.
use vstd::arithmetic::power2::{lemma2_to64, lemma_pow2_unfold, pow2};
use vstd::prelude::*;

use crate::protocol::tick_decoder::{
    advanced, bar_ticks, flagged, hibit_text, item_at, low_bit_at, low_bits, pow128, regrouped,
    run_len, vlq_signed_value, vlq_value, RtBarTicks,
};
use crate::protocol::tick_laws::bit_or_zero;

verus! {

// ---------------------------------------------------------------------------------------
// Writing bits, least significant first
// ---------------------------------------------------------------------------------------

/// The last `n` binary digits of `v`, least significant first.
pub open spec fn lsb_bits(v: nat, n: nat) -> Seq<bool>
    decreases n,
{
    if n == 0 {
        Seq::empty()
    } else {
        seq![v % 2 == 1] + lsb_bits(v / 2, (n - 1) as nat)
    }
}

/// The byte of the eight bits from `p` on, the first of which is the least significant.
pub open spec fn lsb_byte(bits: Seq<bool>, p: int) -> u8 {
    bit_or_zero(bits, p) | (bit_or_zero(bits, p + 1) << 1) | (bit_or_zero(bits, p + 2) << 2) | (
    bit_or_zero(bits, p + 3) << 3) | (bit_or_zero(bits, p + 4) << 4) | (bit_or_zero(bits, p + 5)
        << 5) | (bit_or_zero(bits, p + 6) << 6) | (bit_or_zero(bits, p + 7) << 7)
}

/// Bits in bytes, eight to a byte; the last byte is filled up with zeros.
pub open spec fn lsb_packed(bits: Seq<bool>) -> Seq<u8> {
    Seq::new((bits.len() + 7) / 8, |i: int| lsb_byte(bits, 8 * i))
}

/// Bytes in groups of four, each group written from its end.
pub open spec fn in_groups(s: Seq<u8>) -> Seq<u8>
    decreases s.len(),
{
    if s.len() <= 4 {
        s.reverse()
    } else {
        s.take(4).reverse() + in_groups(s.skip(4))
    }
}

proof fn lemma_groups(s: Seq<u8>)
    ensures
        in_groups(s) == regrouped(s),
    decreases s.len(),
{
    let g = in_groups(s);
    let r = regrouped(s);
    if s.len() > 4 {
        let rest = s.skip(4);
        lemma_groups(rest);
        assert(g.len() == r.len());
        assert forall|i: int| 0 <= i < g.len() implies g[i] == r[i] by {
            if i >= 4 {
                assert(g[i] == regrouped(rest)[i - 4]);
                assert((i - 4) % 4 == i % 4);
            }
        }
    }
    assert(g =~= r);
}

proof fn lemma_regrouped_twice(s: Seq<u8>)
    ensures
        regrouped(regrouped(s)) == s,
{
    let r = regrouped(s);
    assert forall|i: int| 0 <= i < s.len() implies regrouped(r)[i] == s[i] by {
        let start = i - i % 4;
        let len = if s.len() - start < 4 {
            s.len() - start
        } else {
            4
        };
        let j = start + len - 1 - i % 4;
        assert(j % 4 == len - 1 - i % 4);
        assert(j - j % 4 == start);
        assert(regrouped(r)[i] == r[j]);
        assert(r[j] == s[start + len - 1 - j % 4]);
    }
    assert(regrouped(r) =~= s);
}

proof fn lemma_lsb_len(v: nat, n: nat)
    ensures
        lsb_bits(v, n).len() == n,
    decreases n,
{
    if n > 0 {
        lemma_lsb_len(v / 2, (n - 1) as nat);
    }
}

proof fn lemma_low_packed_bit(bits: Seq<bool>, p: int)
    requires
        0 <= p < bits.len(),
    ensures
        low_bit_at(lsb_packed(bits), p) == (if bits[p] {
            1int
        } else {
            0
        }),
        p < lsb_packed(bits).len() * 8,
{
    let i = p / 8;
    let k = p % 8;
    let b = lsb_byte(bits, 8 * i);
    let x0 = bit_or_zero(bits, 8 * i);
    let x1 = bit_or_zero(bits, 8 * i + 1);
    let x2 = bit_or_zero(bits, 8 * i + 2);
    let x3 = bit_or_zero(bits, 8 * i + 3);
    let x4 = bit_or_zero(bits, 8 * i + 4);
    let x5 = bit_or_zero(bits, 8 * i + 5);
    let x6 = bit_or_zero(bits, 8 * i + 6);
    let x7 = bit_or_zero(bits, 8 * i + 7);
    assert(lsb_packed(bits)[i] == b);
    assert(((b >> 0) & 1) == x0 && ((b >> 1) & 1) == x1 && ((b >> 2) & 1) == x2 && ((b >> 3) & 1)
        == x3 && ((b >> 4) & 1) == x4 && ((b >> 5) & 1) == x5 && ((b >> 6) & 1) == x6 && ((b >> 7)
        & 1) == x7) by (bit_vector)
        requires
            b == x0 | (x1 << 1) | (x2 << 2) | (x3 << 3) | (x4 << 4) | (x5 << 5) | (x6 << 6) | (x7
                << 7),
            x0 <= 1,
            x1 <= 1,
            x2 <= 1,
            x3 <= 1,
            x4 <= 1,
            x5 <= 1,
            x6 <= 1,
            x7 <= 1,
    ;
    assert(p == 8 * i + k);
    if k == 0 {
    } else if k == 1 {
    } else if k == 2 {
    } else if k == 3 {
    } else if k == 4 {
    } else if k == 5 {
    } else if k == 6 {
    } else {
        assert(k == 7);
    }
}

proof fn lemma_skip_part(bits: Seq<bool>, p: int, part: Seq<bool>, rest: Seq<bool>)
    requires
        0 <= p <= bits.len(),
        bits.skip(p) == part + rest,
    ensures
        p + part.len() <= bits.len(),
        bits.skip(p + part.len()) == rest,
        forall|i: int| 0 <= i < part.len() ==> #[trigger] bits[p + i] == part[i],
{
    let s = bits.skip(p);
    let q = p + part.len();
    assert(s.len() == part.len() + rest.len());
    assert forall|i: int| 0 <= i < part.len() implies #[trigger] bits[p + i] == part[i] by {
        assert(s[i] == bits[p + i]);
    }
    assert(bits.skip(q) =~= rest) by {
        assert forall|i: int| 0 <= i < rest.len() implies bits.skip(q)[i] == rest[i] by {
            assert(s[part.len() + i] == bits[q + i]);
        }
    }
}

/// The number that stands at `p`, when the bits from there on start with it; and the bits behind
/// it.
proof fn lemma_low_number_at(bits: Seq<bool>, p: int, n: nat, v: nat, rest: Seq<bool>)
    requires
        0 <= p <= bits.len(),
        bits.skip(p) == lsb_bits(v, n) + rest,
        v < pow2(n),
    ensures
        p + n <= bits.len(),
        low_bits(lsb_packed(bits), p, n) == v,
        bits.skip(p + n) == rest,
        advanced(lsb_packed(bits), p, n as int) == p + n,
    decreases n,
{
    lemma_lsb_len(v, n);
    lemma_skip_part(bits, p, lsb_bits(v, n), rest);
    lemma2_to64();
    if n > 0 {
        let less = (n - 1) as nat;
        lemma_pow2_unfold(n);
        let tail = lsb_bits(v / 2, less) + rest;
        assert(bits.skip(p) =~= seq![v % 2 == 1] + tail);
        lemma_skip_part(bits, p, seq![v % 2 == 1], tail);
        assert(bits[p + 0] == (v % 2 == 1));
        lemma_low_packed_bit(bits, p);
        lemma_low_number_at(bits, p + 1, less, v / 2, rest);
    }
}

proof fn lemma_low_flag_at(bits: Seq<bool>, p: int, flag: bool, rest: Seq<bool>)
    requires
        0 <= p <= bits.len(),
        bits.skip(p) == seq![flag] + rest,
    ensures
        p < bits.len(),
        low_bits(lsb_packed(bits), p, 1) == (if flag {
            1int
        } else {
            0
        }),
        bits.skip(p + 1) == rest,
        advanced(lsb_packed(bits), p, 1) == p + 1,
{
    lemma_skip_part(bits, p, seq![flag], rest);
    assert(bits[p + 0] == flag);
    lemma_low_packed_bit(bits, p);
    reveal_with_fuel(low_bits, 2);
}

/// A number behind a flag that says whether it is short.
pub open spec fn flagged_bits(flag: bool, v: nat, short: nat) -> Seq<bool> {
    seq![flag] + lsb_bits(
        v,
        if flag {
            short
        } else {
            32
        },
    )
}

proof fn lemma_flagged_at(
    bits: Seq<bool>,
    p: int,
    flag: bool,
    v: nat,
    short: nat,
    rest: Seq<bool>,
)
    requires
        0 <= p <= bits.len(),
        bits.skip(p) == flagged_bits(flag, v, short) + rest,
        v < pow2(
            if flag {
                short
            } else {
                32
            },
        ),
    ensures
        ({
            let width = if flag {
                short
            } else {
                32
            };
            let q = p + 1 + width;
            &&& q <= bits.len()
            &&& flagged(lsb_packed(bits), p, short) == (v as int, q)
            &&& bits.skip(q) == rest
        }),
{
    let width = if flag {
        short
    } else {
        32
    };
    let tail = lsb_bits(v, width) + rest;
    assert(bits.skip(p) =~= seq![flag] + tail);
    lemma_low_flag_at(bits, p, flag, tail);
    lemma_low_number_at(bits, p + 1, width, v, rest);
}

// ---------------------------------------------------------------------------------------
// Writing bars
// ---------------------------------------------------------------------------------------

/// A bar to write, with which of its numbers are written in short form.
pub ghost struct WrittenBar {
    pub bar: RtBarTicks,
    pub padding: nat,
    pub short_count: bool,
    pub short_deltas: bool,
    pub short_sum: bool,
    pub short_volume: bool,
}

/// Whether a bar can be written as it says. A bar of one trade has one price.
pub open spec fn is_writable_bar(w: WrittenBar) -> bool {
    let b = w.bar;
    &&& w.padding < 16
    &&& w.short_count ==> b.count < 256
    &&& -0x4000_0000 <= b.low < 0x4000_0000
    &&& w.short_deltas ==> b.open_delta < 32 && b.high_delta < 32 && b.close_delta < 32
    &&& w.short_sum ==> b.wap_sum < 0x4_0000
    &&& 0 <= b.volume < 0x1_0000_0000
    &&& w.short_volume ==> b.volume < 0x1_0000
    &&& b.count <= 1 ==> b.open_delta == 0 && b.high_delta == 0 && b.close_delta == 0 && b.wap_sum
        == 0
}

/// A bar in bits: four bits that say nothing, the count, the low, then, for more than one trade,
/// how far the open, the high and the close are above the low, and the sum; and the volume.
pub open spec fn bar_bits(w: WrittenBar) -> Seq<bool> {
    let b = w.bar;
    let low = if b.low < 0 {
        (b.low + 0x8000_0000) as nat
    } else {
        b.low as nat
    };
    let width: nat = if w.short_deltas {
        5
    } else {
        32
    };
    let volume = flagged_bits(w.short_volume, b.volume as nat, 16);
    let behind = if b.count > 1 {
        seq![w.short_deltas] + (lsb_bits(b.open_delta as nat, width) + (lsb_bits(
            b.high_delta as nat,
            width,
        ) + (lsb_bits(b.close_delta as nat, width) + (flagged_bits(
            w.short_sum,
            b.wap_sum as nat,
            18,
        ) + volume))))
    } else {
        volume
    };
    lsb_bits(w.padding, 4) + (flagged_bits(w.short_count, b.count as nat, 8) + (lsb_bits(low, 31)
        + behind))
}

/// The payload of a bar message: its bits in bytes, in groups of four.
pub open spec fn bar_payload(w: WrittenBar) -> Seq<u8> {
    in_groups(lsb_packed(bar_bits(w)))
}

/// A bar that is written is read back, field by field: the low, how far the open, the high and
/// the close are above it, the sum, the volume and the count.
pub proof fn law_bar_round_trip(w: WrittenBar)
    requires
        is_writable_bar(w),
    ensures
        bar_ticks(bar_payload(w)) == w.bar,
{
    let b = w.bar;
    let bits = bar_bits(w);
    let s = lsb_packed(bits);
    lemma_groups(s);
    lemma_regrouped_twice(s);
    assert(regrouped(bar_payload(w)) == s);
    lemma2_to64();
    let low = if b.low < 0 {
        (b.low + 0x8000_0000) as nat
    } else {
        b.low as nat
    };
    let width: nat = if w.short_deltas {
        5
    } else {
        32
    };
    let volume = flagged_bits(w.short_volume, b.volume as nat, 16);
    let sum = flagged_bits(w.short_sum, b.wap_sum as nat, 18) + volume;
    let close = lsb_bits(b.close_delta as nat, width) + sum;
    let high = lsb_bits(b.high_delta as nat, width) + close;
    let open = lsb_bits(b.open_delta as nat, width) + high;
    let behind = if b.count > 1 {
        seq![w.short_deltas] + open
    } else {
        volume
    };
    let r2 = lsb_bits(low, 31) + behind;
    let r1 = flagged_bits(w.short_count, b.count as nat, 8) + r2;
    assert(bits.skip(0) =~= bits);
    lemma_low_number_at(bits, 0, 4, w.padding, r1);
    lemma_flagged_at(bits, 4, w.short_count, b.count as nat, 8, r2);
    let p1 = flagged(s, 4, 8).1;
    lemma_low_number_at(bits, p1, 31, low, behind);
    let p2 = p1 + 31;
    if b.count > 1 {
        lemma_prices_read(w, bits, p2);
    } else {
        lemma_last_at(bits, p2, w.short_volume, b.volume as nat, 16);
    }
}

/// A number behind a flag that ends the bits.
proof fn lemma_last_at(bits: Seq<bool>, p: int, flag: bool, v: nat, short: nat)
    requires
        0 <= p <= bits.len(),
        bits.skip(p) == flagged_bits(flag, v, short),
        v < pow2(
            if flag {
                short
            } else {
                32
            },
        ),
    ensures
        flagged(lsb_packed(bits), p, short).0 == v,
{
    let none = Seq::<bool>::empty();
    assert(flagged_bits(flag, v, short) + none =~= flagged_bits(flag, v, short));
    lemma_flagged_at(bits, p, flag, v, short, none);
}

/// The prices, the sum and the volume of a bar of more than one trade are read back.
proof fn lemma_prices_read(w: WrittenBar, bits: Seq<bool>, p: int)
    requires
        is_writable_bar(w),
        0 <= p <= bits.len(),
        ({
            let b = w.bar;
            let width: nat = if w.short_deltas {
                5
            } else {
                32
            };
            bits.skip(p) == seq![w.short_deltas] + (lsb_bits(b.open_delta as nat, width) + (
            lsb_bits(b.high_delta as nat, width) + (lsb_bits(b.close_delta as nat, width) + (
            flagged_bits(w.short_sum, b.wap_sum as nat, 18) + flagged_bits(
                w.short_volume,
                b.volume as nat,
                16,
            )))))
        }),
    ensures
        ({
            let s = lsb_packed(bits);
            let b = w.bar;
            let width: nat = if low_bits(s, p, 1) == 1 {
                5
            } else {
                32
            };
            let q0 = advanced(s, p, 1);
            let q1 = advanced(s, q0, width as int);
            let q2 = advanced(s, q1, width as int);
            let q3 = advanced(s, q2, width as int);
            let (sum, q4) = flagged(s, q3, 18);
            &&& low_bits(s, q0, width) == b.open_delta
            &&& low_bits(s, q1, width) == b.high_delta
            &&& low_bits(s, q2, width) == b.close_delta
            &&& sum == b.wap_sum
            &&& flagged(s, q4, 16).0 == b.volume
        }),
{
    let s = lsb_packed(bits);
    let b = w.bar;
    lemma2_to64();
    let width: nat = if w.short_deltas {
        5
    } else {
        32
    };
    let volume = flagged_bits(w.short_volume, b.volume as nat, 16);
    let sum = flagged_bits(w.short_sum, b.wap_sum as nat, 18) + volume;
    let close = lsb_bits(b.close_delta as nat, width) + sum;
    let high = lsb_bits(b.high_delta as nat, width) + close;
    let open = lsb_bits(b.open_delta as nat, width) + high;
    lemma_low_flag_at(bits, p, w.short_deltas, open);
    let q0 = p + 1;
    let q1 = q0 + width;
    let q2 = q1 + width;
    let q3 = q2 + width;
    lemma_low_number_at(bits, q0, width, b.open_delta as nat, high);
    lemma_low_number_at(bits, q1, width, b.high_delta as nat, close);
    lemma_low_number_at(bits, q2, width, b.close_delta as nat, sum);
    lemma_flagged_at(bits, q3, w.short_sum, b.wap_sum as nat, 18, volume);
    let q4 = flagged(s, q3, 18).1;
    lemma_last_at(bits, q4, w.short_volume, b.volume as nat, 16);
}

// ---------------------------------------------------------------------------------------
// Variable-length numbers and terminated strings
// ---------------------------------------------------------------------------------------

/// A number in `n` bytes of seven bits, most significant first.
pub open spec fn seven_bits(v: nat, n: nat) -> Seq<u8>
    decreases n,
{
    if n == 0 {
        Seq::empty()
    } else {
        seven_bits(v / 128, (n - 1) as nat).push((v % 128) as u8)
    }
}

/// Bytes with the last one marked as the last.
pub open spec fn ended(s: Seq<u8>) -> Seq<u8> {
    s.drop_last().push((s.last() + 128) as u8)
}

proof fn lemma_seven_bits(v: nat, n: nat)
    ensures
        seven_bits(v, n).len() == n,
        forall|i: int| 0 <= i < n ==> (#[trigger] seven_bits(v, n)[i]) < 128,
    decreases n,
{
    if n > 0 {
        lemma_seven_bits(v / 128, (n - 1) as nat);
    }
}

/// The bytes of an item that ends with its first marked byte are the item.
proof fn lemma_item(before: Seq<u8>, item: Seq<u8>, rest: Seq<u8>)
    requires
        item.len() > 0,
        item.last() >= 128,
        forall|i: int| 0 <= i < item.len() - 1 ==> (#[trigger] item[i]) < 128,
    ensures
        item_at(before + item + rest, before.len() as int) == item,
{
    let data = before + item + rest;
    let tail = data.skip(before.len() as int);
    assert(tail =~= item + rest);
    lemma_run(item, rest);
    assert(tail.take(item.len() as int) =~= item);
}

proof fn lemma_run(item: Seq<u8>, rest: Seq<u8>)
    requires
        item.len() > 0,
        item.last() >= 128,
        forall|i: int| 0 <= i < item.len() - 1 ==> (#[trigger] item[i]) < 128,
    ensures
        run_len(item + rest) == item.len(),
    decreases item.len(),
{
    let s = item + rest;
    assert(s[0] == item[0]);
    if item.len() > 1 {
        let less = item.skip(1);
        assert forall|i: int| 0 <= i < less.len() - 1 implies (#[trigger] less[i]) < 128 by {
            assert(less[i] == item[i + 1]);
        }
        lemma_run(less, rest);
        assert(s.skip(1) =~= less + rest);
    }
}

proof fn lemma_vlq_of_seven(v: nat, n: nat)
    requires
        v < pow128(n),
        v < 0x1_0000_0000_0000_0000,
    ensures
        vlq_value(seven_bits(v, n)) == v,
    decreases n,
{
    if n > 0 {
        let less = (n - 1) as nat;
        lemma_vlq_of_seven(v / 128, less);
        assert(seven_bits(v, n).drop_last() =~= seven_bits(v / 128, less));
    }
}

/// A number that is written in `n` bytes of seven bits, the last one marked, is read back,
/// wherever it stands, with the number of its bytes.
pub proof fn law_vlq_round_trip(before: Seq<u8>, v: u64, n: nat, rest: Seq<u8>)
    requires
        n > 0,
        v < pow128(n),
    ensures
        ({
            let data = before + ended(seven_bits(v as nat, n)) + rest;
            &&& vlq_value(item_at(data, before.len() as int)) == v
            &&& item_at(data, before.len() as int).len() == n
        }),
{
    let s = seven_bits(v as nat, n);
    let item = ended(s);
    lemma_seven_bits(v as nat, n);
    assert(s[n - 1] < 128);
    assert forall|i: int| 0 <= i < item.len() - 1 implies (#[trigger] item[i]) < 128 by {
        assert(item[i] == s[i]);
    }
    lemma_item(before, item, rest);
    lemma_vlq_of_seven(v as nat, n);
    assert(item.drop_last() =~= s.drop_last());
    assert(item.last() as int % 128 == s.last() as int % 128);
}

/// A signed number, written as its remainder modulo the range of its bytes, is read back.
pub proof fn law_signed_vlq_round_trip(v: i64, n: nat)
    requires
        1 <= n <= 9,
        -(pow128(n) / 2) <= v < pow128(n) / 2,
    ensures
        ({
            let raw = if v < 0 {
                v + pow128(n)
            } else {
                v as int
            };
            &&& 0 <= raw < pow128(n)
            &&& raw <= u64::MAX
            &&& vlq_signed_value(raw as u64, n) == v
        }),
{
    reveal_with_fuel(pow128, 10);
    assert(128 <= pow128(n) <= 0x8000_0000_0000_0000);
    assert(pow128(n) % 2 == 0);
}

/// A text of ASCII characters, each in a byte, the last one marked, is read back wherever it
/// stands; the empty text is a marked byte of 0.
pub proof fn law_text_round_trip(before: Seq<u8>, text: Seq<u8>, rest: Seq<u8>)
    requires
        forall|i: int| 0 <= i < text.len() ==> 0 < (#[trigger] text[i]) < 128,
    ensures
        ({
            let written = if text.len() == 0 {
                seq![128u8]
            } else {
                ended(text)
            };
            let data = before + written + rest;
            &&& hibit_text(item_at(data, before.len() as int)) == text.map_values(|b: u8| b as char)
            &&& item_at(data, before.len() as int).len() == written.len()
        }),
{
    let written = if text.len() == 0 {
        seq![128u8]
    } else {
        ended(text)
    };
    assert(text.len() > 0 ==> 0 < text[text.len() - 1] < 128);
    assert forall|i: int| 0 <= i < written.len() - 1 implies (#[trigger] written[i]) < 128 by {
        assert(written[i] == text[i]);
    }
    lemma_item(before, written, rest);
    assert(hibit_text(written) =~= text.map_values(|b: u8| b as char));
}

} // verus!
