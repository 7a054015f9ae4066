//! What is written in the formats of market data is read back.
use vstd::arithmetic::power2::{lemma2_to64, lemma_pow2_unfold, pow2};
use vstd::prelude::*;

use crate::protocol::tick_decoder::{
    bit_at, bits_value, entry_at, entry_value, scan_body, scan_from, Entry, RawTick, Scan,
};

verus! {

// ---------------------------------------------------------------------------------------
// Writing bits, most significant first
// ---------------------------------------------------------------------------------------

/// The last `n` binary digits of `v`, most significant first.
pub open spec fn msb_bits(v: nat, n: nat) -> Seq<bool>
    decreases n,
{
    if n == 0 {
        Seq::empty()
    } else {
        msb_bits(v / 2, (n - 1) as nat).push(v % 2 == 1)
    }
}

/// A bit of a list as a number; 0 past the end.
pub open spec fn bit_or_zero(bits: Seq<bool>, p: int) -> u8 {
    if 0 <= p < bits.len() && bits[p] {
        1
    } else {
        0
    }
}

/// The byte of the eight bits from `p` on, the first of which is the most significant.
pub open spec fn msb_byte(bits: Seq<bool>, p: int) -> u8 {
    (bit_or_zero(bits, p) << 7) | (bit_or_zero(bits, p + 1) << 6) | (bit_or_zero(bits, p + 2) << 5)
        | (bit_or_zero(bits, p + 3) << 4) | (bit_or_zero(bits, p + 4) << 3) | (bit_or_zero(
        bits,
        p + 5,
    ) << 2) | (bit_or_zero(bits, p + 6) << 1) | bit_or_zero(bits, p + 7)
}

/// Bits in bytes, eight to a byte; the last byte is filled up with zeros.
pub open spec fn msb_packed(bits: Seq<bool>) -> Seq<u8> {
    Seq::new((bits.len() + 7) / 8, |i: int| msb_byte(bits, 8 * i))
}

proof fn lemma_msb_len(v: nat, n: nat)
    ensures
        msb_bits(v, n).len() == n,
    decreases n,
{
    if n > 0 {
        lemma_msb_len(v / 2, (n - 1) as nat);
    }
}

proof fn lemma_packed_bit(bits: Seq<bool>, p: int)
    requires
        0 <= p < bits.len(),
    ensures
        bit_at(msb_packed(bits), p) == (if bits[p] {
            1int
        } else {
            0
        }),
        p / 8 < msb_packed(bits).len(),
{
    let i = p / 8;
    let k = p % 8;
    let b = msb_byte(bits, 8 * i);
    let x0 = bit_or_zero(bits, 8 * i);
    let x1 = bit_or_zero(bits, 8 * i + 1);
    let x2 = bit_or_zero(bits, 8 * i + 2);
    let x3 = bit_or_zero(bits, 8 * i + 3);
    let x4 = bit_or_zero(bits, 8 * i + 4);
    let x5 = bit_or_zero(bits, 8 * i + 5);
    let x6 = bit_or_zero(bits, 8 * i + 6);
    let x7 = bit_or_zero(bits, 8 * i + 7);
    assert(msb_packed(bits)[i] == b);
    assert(((b >> 7) & 1) == x0 && ((b >> 6) & 1) == x1 && ((b >> 5) & 1) == x2 && ((b >> 4) & 1)
        == x3 && ((b >> 3) & 1) == x4 && ((b >> 2) & 1) == x5 && ((b >> 1) & 1) == x6 && ((b >> 0)
        & 1) == x7) by (bit_vector)
        requires
            b == (x0 << 7) | (x1 << 6) | (x2 << 5) | (x3 << 4) | (x4 << 3) | (x5 << 2) | (x6 << 1)
                | x7,
            x0 <= 1,
            x1 <= 1,
            x2 <= 1,
            x3 <= 1,
            x4 <= 1,
            x5 <= 1,
            x6 <= 1,
            x7 <= 1,
    ;
    assert(p == 8 * i + k);
    if k == 0 {
    } else if k == 1 {
    } else if k == 2 {
    } else if k == 3 {
    } else if k == 4 {
    } else if k == 5 {
    } else if k == 6 {
    } else {
        assert(k == 7);
    }
}

/// A number that was written is the number that its bits are read as.
proof fn lemma_written_number(bits: Seq<bool>, p: int, n: nat, v: nat)
    requires
        0 <= p,
        p + n <= bits.len(),
        bits.subrange(p, p + n) == msb_bits(v, n),
        v < pow2(n),
        v < 0x1_0000_0000_0000_0000,
    ensures
        bits_value(msb_packed(bits), p, n) == v,
    decreases n,
{
    lemma2_to64();
    if n > 0 {
        let less = (n - 1) as nat;
        lemma_pow2_unfold(n);
        let w = msb_bits(v, n);
        lemma_msb_len(v, n);
        lemma_msb_len(v / 2, less);
        assert(w.drop_last() =~= msb_bits(v / 2, less));
        assert(bits.subrange(p, p + less) =~= w.drop_last());
        lemma_written_number(bits, p, less, v / 2);
        assert(w[n - 1] == (v % 2 == 1));
        assert(bits.subrange(p, p + n)[n - 1] == bits[p + n - 1]);
        lemma_packed_bit(bits, p + n - 1);
    }
}

// ---------------------------------------------------------------------------------------
// Writing ticks
// ---------------------------------------------------------------------------------------

/// A tick to write, with the number of bytes that its value takes and whether its type and that
/// number take a byte each.
pub ghost struct WrittenTick {
    pub tick_type: nat,
    pub magnitude: int,
    pub width: nat,
    pub extended: bool,
}

/// `|magnitude|` of a tick.
pub open spec fn size_of_tick(t: WrittenTick) -> nat {
    if t.magnitude < 0 {
        (-t.magnitude) as nat
    } else {
        t.magnitude as nat
    }
}

/// Whether a tick can be written as it says.
pub open spec fn is_writable(t: WrittenTick) -> bool {
    &&& if t.extended {
        t.tick_type < 256 && 1 <= t.width <= 255
    } else {
        t.tick_type < 31 && 1 <= t.width <= 4
    }
    &&& size_of_tick(t) < pow2((8 * t.width - 1) as nat)
    &&& size_of_tick(t) <= i64::MAX
}

/// A tick in bits: five bits of type, the bit that says that another tick of the same contract
/// follows, two bits of width less one, the sign, and the value. Type 31 announces a type and a
/// width of eight bits each.
pub open spec fn tick_bits(t: WrittenTick, more: bool) -> Seq<bool> {
    let value = seq![t.magnitude < 0] + msb_bits(size_of_tick(t), (8 * t.width - 1) as nat);
    if t.extended {
        msb_bits(31, 5) + seq![more] + msb_bits(0, 2) + msb_bits(t.tick_type, 8) + msb_bits(
            t.width,
            8,
        ) + value
    } else {
        msb_bits(t.tick_type, 5) + seq![more] + msb_bits((t.width - 1) as nat, 2) + value
    }
}

/// The ticks of one contract in bits: each but the last says that another follows.
pub open spec fn ticks_bits(ticks: Seq<WrittenTick>) -> Seq<bool>
    decreases ticks.len(),
{
    if ticks.len() == 0 {
        Seq::empty()
    } else {
        tick_bits(ticks[0], ticks.len() > 1) + ticks_bits(ticks.skip(1))
    }
}

/// The ticks of one contract, to write.
pub ghost struct WrittenBlock {
    pub server_tag: u32,
    pub flag: bool,
    pub ticks: Seq<WrittenTick>,
}

/// Whether a block can be written: its tag fits, and it has ticks, which can be.
pub open spec fn is_block(b: WrittenBlock) -> bool {
    &&& b.server_tag < 0x8000_0000
    &&& b.ticks.len() > 0
    &&& forall|i: int| 0 <= i < b.ticks.len() ==> is_writable(#[trigger] b.ticks[i])
}

/// Blocks in bits: a flag that says nothing, 31 bits of server tag, and the ticks of each.
pub open spec fn blocks_bits(blocks: Seq<WrittenBlock>) -> Seq<bool>
    decreases blocks.len(),
{
    if blocks.len() == 0 {
        Seq::empty()
    } else {
        seq![blocks[0].flag] + msb_bits(blocks[0].server_tag as nat, 31) + ticks_bits(
            blocks[0].ticks,
        ) + blocks_bits(blocks.skip(1))
    }
}

/// The body of a tick message: how many bits there are, in two bytes, and the bits.
pub open spec fn tick_body(blocks: Seq<WrittenBlock>) -> Seq<u8> {
    let bits = blocks_bits(blocks);
    seq![(bits.len() / 256) as u8, (bits.len() % 256) as u8] + msb_packed(bits)
}

/// The ticks of one contract, as they are read.
pub open spec fn ticks_read(server_tag: u32, ticks: Seq<WrittenTick>) -> Seq<RawTick> {
    ticks.map_values(
        |t: WrittenTick|
            RawTick {
                server_tag,
                tick_type: t.tick_type as u64,
                magnitude: t.magnitude as i64,
            },
    )
}

/// The ticks of all blocks, in order, as they are read.
pub open spec fn blocks_read(blocks: Seq<WrittenBlock>) -> Seq<RawTick>
    decreases blocks.len(),
{
    if blocks.len() == 0 {
        Seq::empty()
    } else {
        ticks_read(blocks[0].server_tag, blocks[0].ticks) + blocks_read(blocks.skip(1))
    }
}

/// The number that stands at `p`, when the bits from there on start with it; and the bits behind
/// it.
proof fn lemma_number_at(bits: Seq<bool>, p: int, n: nat, v: nat, rest: Seq<bool>)
    requires
        0 <= p <= bits.len(),
        bits.skip(p) == msb_bits(v, n) + rest,
        v < pow2(n),
        v < 0x1_0000_0000_0000_0000,
    ensures
        p + n <= bits.len(),
        bits_value(msb_packed(bits), p, n) == v,
        bits.skip(p + n) == rest,
{
    lemma_msb_len(v, n);
    lemma_skip_part(bits, p, msb_bits(v, n), rest);
    let s = bits.skip(p);
    assert(bits.subrange(p, p + n) =~= msb_bits(v, n)) by {
        assert forall|i: int| 0 <= i < n implies bits.subrange(p, p + n)[i] == msb_bits(v, n)[i] by {
            assert(s[i] == bits[p + i]);
        }
    }
    lemma_written_number(bits, p, n, v);
}

/// What stands behind a part of the bits.
proof fn lemma_skip_part(bits: Seq<bool>, p: int, part: Seq<bool>, rest: Seq<bool>)
    requires
        0 <= p <= bits.len(),
        bits.skip(p) == part + rest,
    ensures
        p + part.len() <= bits.len(),
        bits.skip(p + part.len()) == rest,
{
    let s = bits.skip(p);
    let q = p + part.len();
    assert(s.len() == part.len() + rest.len());
    assert(bits.skip(q) =~= rest) by {
        assert forall|i: int| 0 <= i < rest.len() implies bits.skip(q)[i] == rest[i] by {
            assert(s[part.len() + i] == bits[q + i]);
        }
    }
}

/// A single bit that stands at `p`, and the bits behind it.
proof fn lemma_flag_at(bits: Seq<bool>, p: int, flag: bool, rest: Seq<bool>)
    requires
        0 <= p <= bits.len(),
        bits.skip(p) == seq![flag] + rest,
    ensures
        p < bits.len(),
        bit_at(msb_packed(bits), p) == (if flag {
            1int
        } else {
            0
        }),
        bits_value(msb_packed(bits), p, 1) == (if flag {
            1int
        } else {
            0
        }),
        bits.skip(p + 1) == rest,
{
    lemma_skip_part(bits, p, seq![flag], rest);
    assert(bits.skip(p)[0] == flag);
    assert(bits[p] == flag);
    lemma_bit_read(bits, p);
}

/// The single bit that stands at `p`, when the bits from there on start with it.
proof fn lemma_bit_read(bits: Seq<bool>, p: int)
    requires
        0 <= p < bits.len(),
    ensures
        bit_at(msb_packed(bits), p) == (if bits[p] {
            1int
        } else {
            0
        }),
        bits_value(msb_packed(bits), p, 1) == (if bits[p] {
            1int
        } else {
            0
        }),
{
    lemma_packed_bit(bits, p);
    reveal_with_fuel(bits_value, 2);
}

proof fn lemma_tick_len(t: WrittenTick, more: bool)
    requires
        is_writable(t),
    ensures
        tick_bits(t, more).len() == 8 * t.width + (if t.extended {
            24int
        } else {
            8
        }),
{
    lemma_msb_len(31, 5);
    lemma_msb_len(0, 2);
    lemma_msb_len(t.tick_type, 8);
    lemma_msb_len(t.width, 8);
    lemma_msb_len(t.tick_type, 5);
    lemma_msb_len((t.width - 1) as nat, 2);
    lemma_msb_len(size_of_tick(t), (8 * t.width - 1) as nat);
}

/// The value of a tick that was written is read.
proof fn lemma_value_read(
    bits: Seq<bool>,
    p: int,
    t: WrittenTick,
    more: bool,
    rest: Seq<bool>,
)
    requires
        0 <= p <= bits.len(),
        is_writable(t),
        bits.skip(p) == seq![t.magnitude < 0] + (msb_bits(
            size_of_tick(t),
            (8 * t.width - 1) as nat,
        ) + rest),
    ensures
        entry_value(
            msb_packed(bits),
            bits.len() as int,
            p,
            t.tick_type as int,
            t.width as int,
            more,
        ) == (Entry::Tick {
            tick_type: t.tick_type as int,
            magnitude: t.magnitude,
            more,
            next: p + 8 * t.width,
        }),
        p + 8 * t.width <= bits.len(),
{
    let m = size_of_tick(t);
    let n = (8 * t.width - 1) as nat;
    lemma_flag_at(bits, p, t.magnitude < 0, msb_bits(m, n) + rest);
    lemma_number_at(bits, p + 1, n, m, rest);
}

proof fn lemma_short_tick_read(
    bits: Seq<bool>,
    p: int,
    t: WrittenTick,
    more: bool,
    rest: Seq<bool>,
)
    requires
        0 <= p <= bits.len(),
        bits.skip(p) == tick_bits(t, more) + rest,
        is_writable(t),
        !t.extended,
    ensures
        entry_at(msb_packed(bits), bits.len() as int, p) == (Entry::Tick {
            tick_type: t.tick_type as int,
            magnitude: t.magnitude,
            more,
            next: p + tick_bits(t, more).len(),
        }),
{
    lemma2_to64();
    lemma_tick_len(t, more);
    let sign = seq![t.magnitude < 0];
    let v = msb_bits(size_of_tick(t), (8 * t.width - 1) as nat);
    let w = msb_bits((t.width - 1) as nat, 2);
    let r3 = sign + (v + rest);
    let r2 = w + r3;
    let r1 = seq![more] + r2;
    assert(bits.skip(p) =~= msb_bits(t.tick_type, 5) + r1);
    lemma_number_at(bits, p, 5, t.tick_type, r1);
    lemma_flag_at(bits, p + 5, more, r2);
    lemma_number_at(bits, p + 6, 2, (t.width - 1) as nat, r3);
    lemma_value_read(bits, p + 8, t, more, rest);
    reveal(entry_at);
}

proof fn lemma_extended_tick_read(
    bits: Seq<bool>,
    p: int,
    t: WrittenTick,
    more: bool,
    rest: Seq<bool>,
)
    requires
        0 <= p <= bits.len(),
        bits.skip(p) == tick_bits(t, more) + rest,
        is_writable(t),
        t.extended,
    ensures
        entry_at(msb_packed(bits), bits.len() as int, p) == (Entry::Tick {
            tick_type: t.tick_type as int,
            magnitude: t.magnitude,
            more,
            next: p + tick_bits(t, more).len(),
        }),
{
    lemma2_to64();
    lemma_tick_len(t, more);
    let sign = seq![t.magnitude < 0];
    let v = msb_bits(size_of_tick(t), (8 * t.width - 1) as nat);
    let r5 = sign + (v + rest);
    let r4 = msb_bits(t.width, 8) + r5;
    let r3 = msb_bits(t.tick_type, 8) + r4;
    let r2 = msb_bits(0, 2) + r3;
    let r1 = seq![more] + r2;
    assert(bits.skip(p) =~= msb_bits(31, 5) + r1);
    lemma_number_at(bits, p, 5, 31, r1);
    lemma_flag_at(bits, p + 5, more, r2);
    lemma_number_at(bits, p + 6, 2, 0, r3);
    lemma_number_at(bits, p + 8, 8, t.tick_type, r4);
    lemma_number_at(bits, p + 16, 8, t.width, r5);
    lemma_value_read(bits, p + 24, t, more, rest);
    reveal(entry_at);
}

/// A tick that was written is read.
proof fn lemma_tick_read(bits: Seq<bool>, p: int, t: WrittenTick, more: bool, rest: Seq<bool>)
    requires
        0 <= p <= bits.len(),
        bits.skip(p) == tick_bits(t, more) + rest,
        is_writable(t),
    ensures
        entry_at(msb_packed(bits), bits.len() as int, p) == (Entry::Tick {
            tick_type: t.tick_type as int,
            magnitude: t.magnitude,
            more,
            next: p + tick_bits(t, more).len(),
        }),
{
    if t.extended {
        lemma_extended_tick_read(bits, p, t, more, rest);
    } else {
        lemma_short_tick_read(bits, p, t, more, rest);
    }
}

/// The ticks of one contract that were written are read, and reading goes on behind them.
proof fn lemma_ticks_read(
    bits: Seq<bool>,
    p: int,
    server_tag: u32,
    ticks: Seq<WrittenTick>,
    rest: Seq<bool>,
)
    requires
        0 <= p <= bits.len(),
        bits.skip(p) == ticks_bits(ticks) + rest,
        ticks.len() > 0,
        forall|i: int| 0 <= i < ticks.len() ==> is_writable(#[trigger] ticks[i]),
    ensures
        ({
            let data = msb_packed(bits);
            let total = bits.len() as int;
            let q = p + ticks_bits(ticks).len();
            let after = scan_from(data, total, q, None);
            &&& q <= total
            &&& bits.skip(q) == rest
            &&& scan_from(data, total, p, Some(server_tag)) == (Scan {
                ticks: ticks_read(server_tag, ticks) + after.ticks,
                fits: after.fits,
            })
        }),
    decreases ticks.len(),
{
    let data = msb_packed(bits);
    let total = bits.len() as int;
    let t = ticks[0];
    let more = ticks.len() > 1;
    let others = ticks.skip(1);
    let first = tick_bits(t, more);
    let s = bits.skip(p);
    assert(s =~= first + (ticks_bits(others) + rest));
    lemma_tick_read(bits, p, t, more, ticks_bits(others) + rest);
    lemma_tick_len(t, more);
    let next = p + first.len();
    assert(s.len() == first.len() + ticks_bits(others).len() + rest.len());
    lemma_skip_part(bits, p, first, ticks_bits(others) + rest);
    assert(next <= data.len() * 8);
    let raw = RawTick {
        server_tag,
        tick_type: t.tick_type as u64,
        magnitude: t.magnitude as i64,
    };
    let whole = scan_from(data, total, p, Some(server_tag));
    if more {
        assert forall|i: int| 0 <= i < others.len() implies is_writable(#[trigger] others[i]) by {
            assert(others[i] == ticks[i + 1]);
        }
        lemma_ticks_read(bits, next, server_tag, others, rest);
        let after = scan_from(data, total, next + ticks_bits(others).len(), None);
        assert(whole.ticks =~= seq![raw] + (ticks_read(server_tag, others) + after.ticks));
        assert(ticks_read(server_tag, ticks) =~= seq![raw] + ticks_read(server_tag, others));
        assert(whole.ticks =~= ticks_read(server_tag, ticks) + after.ticks);
    } else {
        assert(others.len() == 0);
        assert(ticks_bits(others) =~= Seq::<bool>::empty());
        assert(ticks_read(server_tag, ticks) =~= seq![raw]);
        assert(bits.skip(next) =~= rest);
    }
}

/// Blocks that were written are read.
proof fn lemma_blocks_read(bits: Seq<bool>, p: int, blocks: Seq<WrittenBlock>)
    requires
        0 <= p <= bits.len(),
        bits.skip(p) == blocks_bits(blocks),
        forall|i: int| 0 <= i < blocks.len() ==> is_block(#[trigger] blocks[i]),
    ensures
        scan_from(msb_packed(bits), bits.len() as int, p, None) == (Scan {
            ticks: blocks_read(blocks),
            fits: true,
        }),
    decreases blocks.len(),
{
    let data = msb_packed(bits);
    let total = bits.len() as int;
    let s = bits.skip(p);
    if blocks.len() > 0 {
        let b = blocks[0];
        let others = blocks.skip(1);
        let tag = msb_bits(b.server_tag as nat, 31);
        let ticks = ticks_bits(b.ticks);
        let flag = seq![b.flag];
        assert(is_block(b));
        lemma2_to64();
        lemma_msb_len(b.server_tag as nat, 31);
        let r2 = ticks + blocks_bits(others);
        let r1 = tag + r2;
        assert(s =~= flag + r1);
        lemma_flag_at(bits, p, b.flag, r1);
        lemma_number_at(bits, p + 1, 31, b.server_tag as nat, r2);
        let q = p + 32;
        assert(s.len() == 32 + ticks.len() + blocks_bits(others).len());
        lemma_tick_len(b.ticks[0], b.ticks.len() > 1);
        assert(ticks.len() > 0);
        lemma_ticks_read(bits, q, b.server_tag, b.ticks, blocks_bits(others));
        assert forall|i: int| 0 <= i < others.len() implies is_block(#[trigger] others[i]) by {
            assert(others[i] == blocks[i + 1]);
        }
        lemma_blocks_read(bits, q + ticks.len(), others);
    } else {
        assert(s.len() == 0);
    }
}

/// Ticks that are written block by block are read back: all of them, in order, each with the tag
/// of its block, its type and its value, whether a value takes many bytes or few.
pub proof fn law_ticks_round_trip(blocks: Seq<WrittenBlock>)
    requires
        forall|i: int| 0 <= i < blocks.len() ==> is_block(#[trigger] blocks[i]),
        blocks_bits(blocks).len() < 0x1_0000,
    ensures
        scan_body(tick_body(blocks)).fits,
        scan_body(tick_body(blocks)).ticks == blocks_read(blocks),
{
    let bits = blocks_bits(blocks);
    let n = bits.len();
    let body = tick_body(blocks);
    assert(bits.skip(0) =~= bits);
    lemma_blocks_read(bits, 0, blocks);
    assert(body.skip(2) =~= msb_packed(bits));
    assert(body[0] as int * 256 + body[1] as int == n);
    if blocks.len() == 0 {
        assert(n == 0);
        assert(body.len() == 2);
        assert(blocks_read(blocks) =~= Seq::<RawTick>::empty());
    } else {
        let b = blocks[0];
        assert(is_block(b));
        lemma_msb_len(b.server_tag as nat, 31);
        assert(n >= 32);
        assert(body.len() >= 4);
    }
}

} // verus!
