//! Bit-packed market data: quote ticks, variable-length numbers, terminated strings and
//! real-time bars.
use vstd::arithmetic::power2::{lemma2_to64, lemma_pow2_unfold, pow2};
use vstd::prelude::*;

verus! {

// ---------------------------------------------------------------------------------------
// Bits, most significant first
// ---------------------------------------------------------------------------------------

/// The bit of `data` at position `p`, counted from the most significant bit of the first
/// byte.
pub open spec fn bit_at(data: Seq<u8>, p: int) -> int {
    ((data[p / 8] >> ((7 - p % 8) as u8)) & 1) as int
}

/// The `n` bits of `data` from position `p` on, as a number modulo 2^64.
pub open spec fn bits_value(data: Seq<u8>, p: int, n: nat) -> int
    decreases n,
{
    if n == 0 {
        0
    } else {
        (bits_value(data, p, (n - 1) as nat) * 2 + bit_at(data, p + n - 1)) % 0x1_0000_0000_0000_0000
    }
}

proof fn lemma_bit_range(data: Seq<u8>, p: int)
    ensures
        0 <= bit_at(data, p) <= 1,
{
    let b = data[p / 8] >> ((7 - p % 8) as u8);
    assert((b & 1) <= 1) by (bit_vector);
}

/// `n` bits make a number below 2^n.
proof fn lemma_bits_bound(data: Seq<u8>, p: int, n: nat)
    requires
        n <= 63,
    ensures
        0 <= bits_value(data, p, n) < pow2(n),
    decreases n,
{
    lemma2_to64();
    if n > 0 {
        lemma_bits_bound(data, p, (n - 1) as nat);
        lemma_bit_range(data, p + n - 1);
        lemma_pow2_unfold(n);
    }
}

/// A reader of bits, most significant first.
pub struct BitReader<'a> {
    data: &'a [u8],
    bit_pos: usize,
    total_bits: usize,
}

impl<'a> BitReader<'a> {
    /// The bytes that are read.
    pub closed spec fn bytes(&self) -> Seq<u8> {
        self.data@
    }

    /// The position of the next bit.
    pub closed spec fn pos(&self) -> int {
        self.bit_pos as int
    }

    /// The number of bits to read.
    pub closed spec fn total(&self) -> int {
        self.total_bits as int
    }

    /// A reader of the first `total_bits` bits, or of all of them when `total_bits` is 0.
    pub fn new(data: &'a [u8], total_bits: usize) -> (r: Self)
        requires
            total_bits > 0 || data@.len() * 8 <= usize::MAX,
        ensures
            r.bytes() == data@,
            r.pos() == 0,
            r.total() == (if total_bits > 0 {
                total_bits as int
            } else {
                (data@.len() * 8) as int
            }),
    {
        let total_bits: usize = if total_bits > 0 {
            total_bits
        } else {
            data.len() * 8
        };
        Self { data, bit_pos: 0, total_bits }
    }

    /// The number of bits that are left.
    pub fn remaining(&self) -> (r: usize)
        ensures
            r == (if self.pos() <= self.total() {
                self.total() - self.pos()
            } else {
                0
            }),
    {
        if self.bit_pos <= self.total_bits {
            self.total_bits - self.bit_pos
        } else {
            0
        }
    }

    /// Reads `n` bits as an unsigned number, of which the last 64 bits are kept. `None`, with
    /// nothing read, when fewer than `n` bits are left.
    pub fn read_unsigned(&mut self, n: usize) -> (r: Option<u64>)
        requires
            old(self).pos() + n <= usize::MAX,
            0 < n && old(self).pos() + n <= old(self).total() ==> old(self).pos() + n <= old(
                self,
            ).bytes().len() * 8,
        ensures
            final(self).bytes() == old(self).bytes(),
            final(self).total() == old(self).total(),
            r is None <==> n > 0 && old(self).pos() + n > old(self).total(),
            r is None ==> final(self).pos() == old(self).pos(),
            r is Some ==> final(self).pos() == old(self).pos() + n,
            r is Some ==> r->0 == bits_value(old(self).bytes(), old(self).pos(), n as nat),
    {
        if n == 0 {
            return Some(0);
        }
        if self.bit_pos + n > self.total_bits {
            return None;
        }
        let ghost start = self.bit_pos as int;
        let mut result: u64 = 0;
        let mut k: usize = 0;
        while k < n
            invariant
                k <= n,
                self.data@ == old(self).data@,
                self.total_bits == old(self).total_bits,
                start == old(self).bit_pos,
                self.bit_pos == start + k,
                start + n <= self.data@.len() * 8,
                start + n <= usize::MAX,
                result == bits_value(self.data@, start, k as nat),
            decreases n - k,
        {
            let byte_idx: usize = self.bit_pos / 8;
            let bit_idx: u8 = 7 - (self.bit_pos % 8) as u8;
            let bit: u64 = ((self.data[byte_idx] >> bit_idx) & 1) as u64;
            proof {
                lemma_bit_range(self.data@, start + k);
            }
            result = (result % 0x8000_0000_0000_0000) * 2 + bit;
            self.bit_pos = self.bit_pos + 1;
            k = k + 1;
        }
        Some(result)
    }
}

// ---------------------------------------------------------------------------------------
// Quote ticks
// ---------------------------------------------------------------------------------------

pub const O_BID_PRICE: u64 = 0;
pub const O_ASK_PRICE: u64 = 1;
pub const O_LAST_PRICE: u64 = 2;
pub const O_HIGH_PRICE: u64 = 3;
pub const O_BID_SIZE: u64 = 4;
pub const O_ASK_SIZE: u64 = 5;
pub const O_VOLUME: u64 = 6;
pub const O_OPEN_PRICE: u64 = 8;
pub const O_LOW_PRICE: u64 = 9;
pub const O_TIMESTAMP: u64 = 10;
pub const O_LAST_SIZE: u64 = 12;
pub const O_LAST_EXCH: u64 = 13;
pub const O_BID_EXCH: u64 = 16;
pub const O_ASK_EXCH: u64 = 17;
pub const O_HALTED: u64 = 18;
pub const O_CLOSE_PRICE: u64 = 22;
pub const O_LAST_TS: u64 = 23;

/// A decoded tick.
#[derive(Debug, Clone, Copy, PartialEq, Eq, Structural)]
pub struct RawTick {
    pub server_tag: u32,
    pub tick_type: u64,
    pub magnitude: i64,
}

/// What stands at one position of the tick data.
pub ghost enum Entry {
    /// No further tick. Bits were read up to `read`.
    Stop { read: int },
    /// A tick, up to `next`; `more` says whether another of the same contract follows.
    Tick { tick_type: int, magnitude: int, more: bool, next: int },
}

/// The number that a sign and the 64-bit value `v` stand for, `v` taken as two's complement.
pub open spec fn signed_magnitude(negative: bool, v: int) -> int {
    let m = if v >= 0x8000_0000_0000_0000 {
        v - 0x1_0000_0000_0000_0000
    } else {
        v
    };
    if negative {
        -m
    } else {
        m
    }
}

/// A tick's value field: a sign bit and `width` bytes less one bit of magnitude, at `p`.
pub open spec fn entry_value(
    data: Seq<u8>,
    total: int,
    p: int,
    tick_type: int,
    width: int,
    more: bool,
) -> Entry {
    let bits = 8 * width;
    if total - p < bits || total - p < 1 {
        Entry::Stop { read: p }
    } else {
        Entry::Tick {
            tick_type,
            magnitude: signed_magnitude(
                bit_at(data, p) == 1,
                if bits > 1 {
                    bits_value(data, p + 1, (bits - 1) as nat)
                } else {
                    0
                },
            ),
            more,
            next: if bits > 1 {
                p + bits
            } else {
                p + 1
            },
        }
    }
}

/// The tick at `p`: five bits of type, the follow-on bit, two bits of width less one, and the
/// value. Type 31 stands for a type and a width of eight bits each, which follow.
#[verifier::opaque]
pub open spec fn entry_at(data: Seq<u8>, total: int, p: int) -> Entry {
    let short_type = bits_value(data, p, 5);
    let more = bits_value(data, p + 5, 1) == 1;
    let short_width = bits_value(data, p + 6, 2) + 1;
    if total - p < 8 {
        Entry::Stop { read: p }
    } else if short_type != 31 {
        entry_value(data, total, p + 8, short_type, short_width, more)
    } else if total - (p + 8) < 16 {
        Entry::Stop { read: p + 8 }
    } else {
        entry_value(
            data,
            total,
            p + 24,
            bits_value(data, p + 8, 8),
            bits_value(data, p + 16, 8),
            more,
        )
    }
}

/// The outcome of walking through tick data.
pub ghost struct Scan {
    /// The ticks, in order.
    pub ticks: Seq<RawTick>,
    /// Whether all bits that were read are there and all magnitudes fit in an `i64`.
    pub fits: bool,
}

/// Walks through tick data from `p` on, inside the block of contract `tag`, or at the start
/// of a block: a bit that is not used and 31 bits of server tag.
pub open spec fn scan_from(data: Seq<u8>, total: int, p: int, tag: Option<u32>) -> Scan
    decreases (if total > p { total - p } else { 0 }),
{
    match tag {
        None => {
            if total - p <= 32 {
                Scan { ticks: Seq::empty(), fits: true }
            } else if p + 32 > data.len() * 8 {
                Scan { ticks: Seq::empty(), fits: false }
            } else {
                scan_from(data, total, p + 32, Some(bits_value(data, p + 1, 31) as u32))
            }
        },
        Some(server_tag) => match entry_at(data, total, p) {
            Entry::Stop { read } => Scan { ticks: Seq::empty(), fits: read <= data.len() * 8 },
            Entry::Tick { tick_type, magnitude, more, next } => {
                if next > data.len() * 8 || magnitude > i64::MAX || !(p < next <= total) {
                    Scan { ticks: Seq::empty(), fits: false }
                } else {
                    let rest = scan_from(
                        data,
                        total,
                        next,
                        if more {
                            Some(server_tag)
                        } else {
                            None
                        },
                    );
                    Scan {
                        ticks: seq![
                            RawTick {
                                server_tag,
                                tick_type: tick_type as u64,
                                magnitude: magnitude as i64,
                            },
                        ] + rest.ticks,
                        fits: rest.fits,
                    }
                }
            },
        },
    }
}

/// The walk through the body of a tick message: two bytes of bit count (0 for all bits), then
/// the ticks. A body of less than four bytes holds none.
pub open spec fn scan_body(body: Seq<u8>) -> Scan {
    let data = body.skip(2);
    let stated = body[0] as int * 256 + body[1] as int;
    if body.len() < 4 {
        Scan { ticks: Seq::empty(), fits: true }
    } else {
        scan_from(
            data,
            if stated > 0 {
                stated
            } else {
                (data.len() * 8) as int
            },
            0,
            None,
        )
    }
}

/// Reads `n` bits that the reader counts as left. `None` when they are not all there.
fn take_bits(reader: &mut BitReader, n: usize) -> (r: Option<u64>)
    requires
        old(reader).pos() + n <= old(reader).total(),
        old(reader).bytes().len() * 8 <= usize::MAX,
        old(reader).total() <= usize::MAX,
    ensures
        final(reader).bytes() == old(reader).bytes(),
        final(reader).total() == old(reader).total(),
        r is Some <==> n == 0 || old(reader).pos() + n <= old(reader).bytes().len() * 8,
        r is Some ==> final(reader).pos() == old(reader).pos() + n,
        r is Some ==> r->0 == bits_value(old(reader).bytes(), old(reader).pos(), n as nat),
{
    if n > 0 && reader.bit_pos + n > reader.data.len() * 8 {
        return None;
    }
    reader.read_unsigned(n)
}

/// One step inside a contract's block.
enum Step {
    /// The tick data ends here.
    Stop,
    /// A tick with its type, magnitude and follow-on bit.
    Tick(u64, i64, bool),
}

/// Reads the tick at the reader's position. `None` when bits are missing or the magnitude does
/// not fit.
fn next_entry(reader: &mut BitReader) -> (r: Option<Step>)
    requires
        old(reader).bytes().len() * 8 <= usize::MAX,
        0 <= old(reader).pos() <= old(reader).total() <= usize::MAX,
    ensures
        final(reader).bytes() == old(reader).bytes(),
        final(reader).total() == old(reader).total(),
        r is Some ==> 0 <= final(reader).pos() <= final(reader).total(),
        match entry_at(old(reader).bytes(), old(reader).total(), old(reader).pos()) {
            Entry::Stop { read } => if read <= old(reader).bytes().len() * 8 {
                r == Some(Step::Stop)
            } else {
                r is None || r == Some(Step::Stop)
            },
            Entry::Tick { tick_type, magnitude, more, next } => if next <= old(
                reader,
            ).bytes().len() * 8 && magnitude <= i64::MAX {
                &&& r == Some(Step::Tick(tick_type as u64, magnitude as i64, more))
                &&& final(reader).pos() == next
                &&& next <= old(reader).total()
                &&& next > old(reader).pos()
            } else {
                r is None
            },
        },
        entry_at(old(reader).bytes(), old(reader).total(), old(reader).pos()) matches Entry::Stop {
            read,
        } ==> (r is None <==> read > old(reader).bytes().len() * 8),
{
    let ghost data = reader.bytes();
    let ghost total = reader.total();
    let ghost p = reader.pos();
    proof {
        reveal(entry_at);
    }
    if reader.remaining() < 8 {
        if reader.bit_pos > reader.data.len() * 8 {
            return None;
        }
        return Some(Step::Stop);
    }
    let short_type = match take_bits(reader, 5) {
        Some(v) => v,
        None => return None,
    };
    let more = match take_bits(reader, 1) {
        Some(v) => v,
        None => return None,
    };
    let short_width = match take_bits(reader, 2) {
        Some(v) => v,
        None => return None,
    };
    proof {
        lemma2_to64();
        lemma_bits_bound(data, p, 5);
        lemma_bits_bound(data, p + 6, 2);
    }
    let mut tick_type: u64 = short_type;
    let mut width: u64 = short_width + 1;
    if short_type == 31 {
        if reader.remaining() < 16 {
            return Some(Step::Stop);
        }
        tick_type = match take_bits(reader, 8) {
            Some(v) => v,
            None => return None,
        };
        width = match take_bits(reader, 8) {
            Some(v) => v,
            None => return None,
        };
        proof {
            lemma_bits_bound(data, p + 8, 8);
            lemma_bits_bound(data, p + 16, 8);
        }
    }
    let bits: usize = (8 * width) as usize;
    let left: usize = reader.remaining();
    if left < bits || left < 1 {
        return Some(Step::Stop);
    }
    let ghost q = reader.pos();
    let sign = match take_bits(reader, 1) {
        Some(v) => v,
        None => return None,
    };
    proof {
        lemma_bit_range(data, q);
        assert(bits_value(data, q, 1) == bit_at(data, q)) by {
            reveal_with_fuel(bits_value, 2);
        }
    }
    let raw: u64 = if bits > 1 {
        match take_bits(reader, bits - 1) {
            Some(v) => v,
            None => return None,
        }
    } else {
        0
    };
    let twos: i128 = if raw >= 0x8000_0000_0000_0000 {
        raw as i128 - 0x1_0000_0000_0000_0000
    } else {
        raw as i128
    };
    let magnitude: i128 = if sign == 1 {
        -twos
    } else {
        twos
    };
    if magnitude > 0x7fff_ffff_ffff_ffff {
        return None;
    }
    Some(Step::Tick(tick_type, magnitude as i64, more == 1))
}

/// Decodes all ticks from the body of a tick message, or `None` when the body is shorter than
/// its bit count has the ticks run, or a magnitude does not fit in an `i64`.
pub fn try_decode_ticks_35p(body: &[u8]) -> (r: Option<Vec<RawTick>>)
    requires
        body@.len() * 8 <= usize::MAX,
    ensures
        r is Some <==> scan_body(body@).fits,
        r is Some ==> r->0@ == scan_body(body@).ticks,
{
    let mut ticks: Vec<RawTick> = Vec::new();
    if body.len() < 4 {
        proof {
            assert(ticks@ =~= scan_body(body@).ticks);
        }
        return Some(ticks);
    }
    let bit_count: usize = body[0] as usize * 256 + body[1] as usize;
    let payload = vstd::slice::slice_subrange(body, 2, body.len());
    proof {
        assert(payload@ =~= body@.skip(2));
    }
    let mut reader = BitReader::new(payload, bit_count);
    let ghost data = payload@;
    let ghost total = reader.total();
    let ghost whole = scan_body(body@);
    let mut tag: Option<u32> = None;
    let mut stopped: bool = false;
    proof {
        assert(ticks@ + scan_from(data, total, 0, None).ticks =~= whole.ticks);
    }
    while !stopped
        invariant
            data.len() * 8 <= usize::MAX,
            0 <= reader.pos() <= total <= usize::MAX,
            reader.bytes() == data,
            reader.total() == total,
            !stopped ==> ({
                let rest = scan_from(data, total, reader.pos(), tag);
                &&& ticks@ + rest.ticks == whole.ticks
                &&& rest.fits == whole.fits
            }),
            stopped ==> ticks@ == whole.ticks && whole.fits,
            whole == scan_body(body@),
        decreases (if stopped { 0 } else { 1 + total - reader.pos() }),
    {
        let ghost p = reader.pos();
        let ghost before = ticks@;
        let ghost rest = scan_from(data, total, p, tag);
        match tag {
            None => {
                if reader.remaining() > 32 {
                    let first = take_bits(&mut reader, 1);
                    if first.is_none() {
                        return None;
                    }
                    let server_tag = match take_bits(&mut reader, 31) {
                        Some(v) => v,
                        None => return None,
                    };
                    proof {
                        lemma2_to64();
                        lemma_bits_bound(data, p + 1, 31);
                    }
                    tag = Some(server_tag as u32);
                } else {
                    stopped = true;
                    proof {
                        assert(before + rest.ticks =~= before);
                    }
                }
            },
            Some(server_tag) => {
                match next_entry(&mut reader) {
                    None => {
                        return None;
                    },
                    Some(Step::Stop) => {
                        stopped = true;
                        proof {
                            assert(before + rest.ticks =~= before);
                        }
                    },
                    Some(Step::Tick(tick_type, magnitude, more)) => {
                        ticks.push(RawTick { server_tag, tick_type, magnitude });
                        tag = if more {
                            Some(server_tag)
                        } else {
                            None
                        };
                        proof {
                            let after = scan_from(data, total, reader.pos(), tag);
                            assert(rest.ticks == seq![ticks@.last()] + after.ticks);
                            assert(ticks@ + after.ticks =~= before + rest.ticks);
                        }
                    },
                }
            },
        }
    }
    Some(ticks)
}

/// Decodes all ticks from the body of a tick message that is as long as its bit count has the
/// ticks run.
pub fn decode_ticks_35p(body: &[u8]) -> (r: Vec<RawTick>)
    requires
        body@.len() * 8 <= usize::MAX,
        scan_body(body@).fits,
    ensures
        r@ == scan_body(body@).ticks,
{
    match try_decode_ticks_35p(body) {
        Some(ticks) => ticks,
        None => Vec::new(),
    }
}

// ---------------------------------------------------------------------------------------
// Variable-length numbers and terminated strings
// ---------------------------------------------------------------------------------------

/// Whether a byte ends a number or a string: its high bit is set.
pub open spec fn is_last(b: u8) -> bool {
    b >= 0x80
}

/// The number of bytes of `s` up to the first that ends the item, or all of them.
pub open spec fn run_len(s: Seq<u8>) -> nat
    decreases s.len(),
{
    if s.len() == 0 {
        0
    } else if is_last(s[0]) {
        1
    } else {
        1 + run_len(s.skip(1))
    }
}

/// The low seven bits of each byte, most significant first, as a number modulo 2^64.
pub open spec fn vlq_value(s: Seq<u8>) -> int
    decreases s.len(),
{
    if s.len() == 0 {
        0
    } else {
        (vlq_value(s.drop_last()) * 128 + s.last() as int % 128) % 0x1_0000_0000_0000_0000
    }
}

/// The bytes of `data` from `pos` on; none when `pos` is past the end.
pub open spec fn bytes_from(data: Seq<u8>, pos: int) -> Seq<u8> {
    if pos <= data.len() {
        data.skip(pos)
    } else {
        Seq::empty()
    }
}

/// The bytes of the item that starts at `pos`.
pub open spec fn item_at(data: Seq<u8>, pos: int) -> Seq<u8> {
    let rest = bytes_from(data, pos);
    rest.take(run_len(rest) as int)
}

proof fn lemma_run_len(s: Seq<u8>, k: int)
    requires
        0 <= k <= s.len(),
        forall|i: int| 0 <= i < k ==> !is_last(#[trigger] s[i]),
    ensures
        run_len(s) <= s.len(),
        run_len(s) == k + run_len(s.skip(k)),
    decreases s.len(),
{
    if k == 0 {
        assert(s.skip(0) =~= s);
        if s.len() > 0 && !is_last(s[0]) {
            lemma_run_len(s.skip(1), 0);
        }
    } else {
        let t = s.skip(1);
        assert forall|i: int| 0 <= i < k - 1 implies !is_last(#[trigger] t[i]) by {
            assert(t[i] == s[i + 1]);
        }
        lemma_run_len(t, k - 1);
        assert(t.skip(k - 1) =~= s.skip(k));
        assert(!is_last(s[0]));
    }
}

/// Reads a variable-length unsigned number: seven bits in each byte, most significant first,
/// the last byte marked by its high bit. Gives the number and the number of bytes read.
pub fn read_vlq(data: &[u8], pos: usize) -> (r: (u64, usize))
    ensures
        r.0 == vlq_value(item_at(data@, pos as int)),
        r.1 == item_at(data@, pos as int).len(),
{
    let ghost rest = bytes_from(data@, pos as int);
    let mut val: u64 = 0;
    let mut n: usize = 0;
    proof {
        lemma_run_len(rest, 0);
        assert(rest.take(0) =~= Seq::<u8>::empty());
    }
    while n < data.len() && pos < data.len() - n
        invariant
            rest == bytes_from(data@, pos as int),
            n <= rest.len(),
            forall|i: int| 0 <= i < n ==> !is_last(#[trigger] rest[i]),
            val == vlq_value(rest.take(n as int)),
        decreases rest.len() - n,
    {
        let b = data[pos + n];
        proof {
            assert(rest[n as int] == b);
            assert(rest.take(n + 1).drop_last() =~= rest.take(n as int));
            assert(b & 0x7f == b % 128) by (bit_vector);
        }
        val = (val % 0x0200_0000_0000_0000) * 128 + (b & 0x7f) as u64;
        n = n + 1;
        if b >= 0x80 {
            proof {
                lemma_run_len(rest, n - 1);
                assert(rest.skip(n - 1)[0] == b);
            }
            return (val, n);
        }
    }
    proof {
        assert(n == rest.len());
        lemma_run_len(rest, n as int);
    }
    (val, n)
}

/// 128 to the power `n`: how many numbers `n` bytes of seven bits hold.
pub open spec fn pow128(n: nat) -> int
    decreases n,
{
    if n == 0 {
        1
    } else {
        128 * pow128((n - 1) as nat)
    }
}

/// The 64-bit two's complement number that is congruent to `v`.
pub open spec fn wrapped(v: int) -> int {
    let low = v % 0x1_0000_0000_0000_0000;
    if low >= 0x8000_0000_0000_0000 {
        low - 0x1_0000_0000_0000_0000
    } else {
        low
    }
}

/// The signed number that a variable-length number of `num_bytes` bytes stands for: the upper
/// half of its range is negative. A value beyond the range wraps around.
pub open spec fn vlq_signed_value(val: u64, num_bytes: nat) -> int {
    if val >= pow128(num_bytes) / 2 {
        wrapped(val - pow128(num_bytes))
    } else {
        val as int
    }
}

/// Converts a variable-length number to a signed one: the upper half of its range is negative.
/// A value beyond the range wraps around.
pub fn vlq_signed(val: u64, num_bytes: usize) -> (r: i64)
    requires
        1 <= num_bytes <= 9,
    ensures
        r == vlq_signed_value(val, num_bytes as nat),
{
    let mut full: i128 = 1;
    let mut k: usize = 0;
    proof {
        reveal_with_fuel(pow128, 10);
    }
    while k < num_bytes
        invariant
            k <= num_bytes <= 9,
            full == pow128(k as nat),
            1 <= full,
            k < 9 ==> full <= 0x0100_0000_0000_0000,
            full <= 0x8000_0000_0000_0000,
            k <= 0 ==> full == 1,
            k <= 1 ==> full <= 0x80,
            k <= 2 ==> full <= 0x4000,
            k <= 3 ==> full <= 0x20_0000,
            k <= 4 ==> full <= 0x1000_0000,
            k <= 5 ==> full <= 0x8_0000_0000,
            k <= 6 ==> full <= 0x400_0000_0000,
            k <= 7 ==> full <= 0x2_0000_0000_0000,
        decreases num_bytes - k,
    {
        full = full * 128;
        k = k + 1;
    }
    proof {
        assert(full >= 128);
    }
    if val as i128 >= full / 2 {
        let diff: i128 = val as i128 - full;
        if diff >= 0x8000_0000_0000_0000 {
            (diff - 0x1_0000_0000_0000_0000) as i64
        } else {
            diff as i64
        }
    } else {
        val as i64
    }
}

/// A number that fits its bytes is negative exactly when it lies in the upper half of its
/// range, and always lies within half the range of 0.
pub proof fn law_vlq_signed_range(val: u64, num_bytes: nat)
    requires
        1 <= num_bytes <= 9,
        val < pow128(num_bytes),
    ensures
        vlq_signed_value(val, num_bytes) < 0 <==> val >= pow128(num_bytes) / 2,
        -(pow128(num_bytes) / 2) <= vlq_signed_value(val, num_bytes) < pow128(num_bytes) / 2,
        i64::MIN <= vlq_signed_value(val, num_bytes) <= i64::MAX,
{
    reveal_with_fuel(pow128, 10);
    assert(pow128(num_bytes) <= 0x8000_0000_0000_0000);
    assert(pow128(num_bytes) % 2 == 0);
}

/// The text of a terminated string: each byte is a character, the last without its high bit;
/// a last byte of 0x80 stands for no character.
pub open spec fn hibit_text(item: Seq<u8>) -> Seq<char> {
    if item.len() > 0 && is_last(item.last()) {
        let head = item.drop_last().map_values(|b: u8| b as char);
        if item.last() == 0x80 {
            head
        } else {
            head.push((item.last() - 0x80) as char)
        }
    } else {
        item.map_values(|b: u8| b as char)
    }
}

/// Reads a terminated string: ASCII characters, of which the last has its high bit set. A
/// single byte 0x80 is the empty string. Gives the text and the number of bytes read.
pub fn read_hibit_str(data: &[u8], pos: usize) -> (r: (String, usize))
    ensures
        r.0@ == hibit_text(item_at(data@, pos as int)),
        r.1 == item_at(data@, pos as int).len(),
{
    let ghost rest = bytes_from(data@, pos as int);
    let mut text = String::new();
    let mut p: usize = pos;
    proof {
        lemma_run_len(rest, 0);
        assert(rest.take(0).map_values(|b: u8| b as char) =~= text@);
    }
    if pos > data.len() {
        proof {
            assert(hibit_text(item_at(data@, pos as int)) =~= text@);
        }
        return (text, 0);
    }
    while p < data.len()
        invariant
            pos <= p <= data.len(),
            rest == data@.skip(pos as int),
            forall|i: int| 0 <= i < p - pos ==> !is_last(#[trigger] rest[i]),
            text@ == rest.take(p - pos).map_values(|b: u8| b as char),
        decreases data.len() - p,
    {
        let b = data[p];
        proof {
            assert(rest[p - pos] == b);
        }
        if b >= 0x80 {
            let low: u8 = b - 0x80;
            if low != 0 {
                text.push(low as char);
            }
            proof {
                lemma_run_len(rest, p - pos);
                assert(rest.skip(p - pos)[0] == b);
                let item = item_at(data@, pos as int);
                assert(item.drop_last() =~= rest.take(p - pos));
            }
            return (text, p - pos + 1);
        }
        text.push(b as char);
        p = p + 1;
        proof {
            assert(text@ =~= rest.take(p - pos).map_values(|b: u8| b as char));
        }
    }
    proof {
        lemma_run_len(rest, p - pos);
        assert(rest.take(p - pos) =~= rest);
        assert(item_at(data@, pos as int) =~= rest);
    }
    (text, p - pos)
}

/// Reading an item never runs past the end of the data.
pub proof fn law_items_stay_inside(data: Seq<u8>, pos: int)
    requires
        0 <= pos <= data.len(),
    ensures
        pos + item_at(data, pos).len() <= data.len(),
        pos < data.len() ==> item_at(data, pos).len() > 0,
{
    lemma_run_len(bytes_from(data, pos), 0);
}

// ---------------------------------------------------------------------------------------
// Real-time bars
// ---------------------------------------------------------------------------------------

/// The bytes of `s` with each group of four in reverse order; the last group may be shorter.
pub open spec fn regrouped(s: Seq<u8>) -> Seq<u8> {
    Seq::new(
        s.len(),
        |i: int|
            {
                let start = i - i % 4;
                let len = if s.len() - start < 4 {
                    s.len() - start
                } else {
                    4
                };
                s[start + len - 1 - i % 4]
            },
    )
}

/// The bit of `s` at position `p`, counted from the least significant bit of the first byte;
/// 0 past the end.
pub open spec fn low_bit_at(s: Seq<u8>, p: int) -> int {
    if 0 <= p < s.len() * 8 {
        ((s[p / 8] >> ((p % 8) as u8)) & 1) as int
    } else {
        0
    }
}

/// The `n` bits of `s` from position `p` on, the least significant first.
pub open spec fn low_bits(s: Seq<u8>, p: int, n: nat) -> int
    decreases n,
{
    if n == 0 {
        0
    } else {
        low_bit_at(s, p) + 2 * low_bits(s, p + 1, (n - 1) as nat)
    }
}

proof fn lemma_low_bits_bound(s: Seq<u8>, p: int, n: nat)
    ensures
        0 <= low_bits(s, p, n) < pow2(n),
    decreases n,
{
    lemma2_to64();
    if n > 0 {
        lemma_low_bits_bound(s, p + 1, (n - 1) as nat);
        lemma_pow2_unfold(n);
        if 0 <= p < s.len() * 8 {
            let b = s[p / 8] >> ((p % 8) as u8);
            assert((b & 1) <= 1) by (bit_vector);
        }
    }
}

/// A decoded real-time bar, with its prices in ticks: the low, the other prices as distances
/// from it, and the sum from which the average price comes.
#[derive(Debug, Clone, Copy, PartialEq, Eq, Structural)]
pub struct RtBarTicks {
    pub low: i64,
    pub open_delta: u32,
    pub high_delta: u32,
    pub close_delta: u32,
    pub wap_sum: u32,
    pub volume: i64,
    pub count: u32,
}

/// The position after `n` bits from `p` on, which is never past the end.
pub open spec fn advanced(s: Seq<u8>, p: int, n: int) -> int {
    if p + n <= s.len() * 8 {
        p + n
    } else {
        (s.len() * 8) as int
    }
}

/// A number behind a flag bit at `p`: of `short` bits when it is set, of 32 bits when not.
/// Gives the number and the position behind it.
pub open spec fn flagged(s: Seq<u8>, p: int, short: nat) -> (int, int) {
    let width: nat = if low_bits(s, p, 1) == 1 { short } else { 32 };
    let q = advanced(s, p, 1);
    (low_bits(s, q, width), advanced(s, q, width as int))
}

/// The fields of a bar: four bits of padding, the count (8 bits or 32 behind a flag) and the
/// low (31 bits, signed). For a count above 1, the distances of open, high and close (5 bits
/// or 32 behind one flag) and the average's sum (18 bits or 32 behind a flag) follow. The
/// volume (16 bits or 32 behind a flag) is last.
pub open spec fn bar_ticks(payload: Seq<u8>) -> RtBarTicks {
    let s = regrouped(payload);
    let (count, p1) = flagged(s, advanced(s, 0, 4), 8);
    let raw_low = low_bits(s, p1, 31);
    let low = if raw_low >= 0x4000_0000 {
        raw_low - 0x8000_0000
    } else {
        raw_low
    };
    let p2 = advanced(s, p1, 31);
    if count > 1 {
        let width: nat = if low_bits(s, p2, 1) == 1 { 5 } else { 32 };
        let q0 = advanced(s, p2, 1);
        let q1 = advanced(s, q0, width as int);
        let q2 = advanced(s, q1, width as int);
        let q3 = advanced(s, q2, width as int);
        let (sum, q4) = flagged(s, q3, 18);
        RtBarTicks {
            low: low as i64,
            open_delta: low_bits(s, q0, width) as u32,
            high_delta: low_bits(s, q1, width) as u32,
            close_delta: low_bits(s, q2, width) as u32,
            wap_sum: sum as u32,
            volume: flagged(s, q4, 16).0 as i64,
            count: count as u32,
        }
    } else {
        RtBarTicks {
            low: low as i64,
            open_delta: 0,
            high_delta: 0,
            close_delta: 0,
            wap_sum: 0,
            volume: flagged(s, p2, 16).0 as i64,
            count: count as u32,
        }
    }
}

/// Reverses the byte order within groups of four.
fn regroup(s: &[u8]) -> (r: Vec<u8>)
    ensures
        r@ == regrouped(s@),
{
    let mut out: Vec<u8> = Vec::new();
    let mut i: usize = 0;
    while i < s.len()
        invariant
            i <= s.len(),
            out@ == regrouped(s@).take(i as int),
        decreases s.len() - i,
    {
        let start: usize = i - i % 4;
        let len: usize = if s.len() - start < 4 {
            s.len() - start
        } else {
            4
        };
        out.push(s[start + (len - 1 - i % 4)]);
        i = i + 1;
        proof {
            assert(out@ =~= regrouped(s@).take(i as int));
        }
    }
    proof {
        assert(out@ =~= regrouped(s@));
    }
    out
}

/// Reads up to 32 bits, the least significant first. Bits past the end read as 0.
fn read_low_bits(s: &[u8], p: usize, n: u32) -> (r: (u64, usize))
    requires
        n <= 32,
        s@.len() * 8 <= usize::MAX,
        p <= s@.len() * 8,
    ensures
        r.0 == low_bits(s@, p as int, n as nat),
        r.0 < pow2(n as nat),
        r.1 == advanced(s@, p as int, n as int),
        r.1 <= s@.len() * 8,
    decreases n,
{
    proof {
        lemma_low_bits_bound(s@, p as int, n as nat);
    }
    if n == 0 {
        return (0, p);
    }
    if p == s.len() * 8 {
        proof {
            lemma_no_bits(s@, p as int, n as nat);
        }
        return (0, p);
    }
    let shift: u8 = (p % 8) as u8;
    let bit: u64 = ((s[p / 8] >> shift) & 1) as u64;
    let (high, q) = read_low_bits(s, p + 1, n - 1);
    proof {
        assert forall|a: nat, b: nat| a < b <= 64 implies pow2(a) < pow2(b) by {
            vstd::arithmetic::power2::lemma_pow2_strictly_increases(a, b);
        }
        lemma2_to64();
        let b8 = s@[p as int / 8] >> shift;
        assert((b8 & 1) <= 1) by (bit_vector);
        assert(high < 0x1_0000_0000);
    }
    (bit + 2 * high, q)
}

proof fn lemma_no_bits(s: Seq<u8>, p: int, n: nat)
    requires
        p >= s.len() * 8,
    ensures
        low_bits(s, p, n) == 0,
    decreases n,
{
    if n > 0 {
        lemma_no_bits(s, p + 1, (n - 1) as nat);
    }
}

/// Reads a number behind a flag bit, of `short` bits when the flag is set and of 32 when not.
fn read_flagged(s: &[u8], p: usize, short: u32) -> (r: (u32, usize))
    requires
        short <= 32,
        s@.len() * 8 <= usize::MAX,
        p <= s@.len() * 8,
    ensures
        (r.0 as int, r.1 as int) == flagged(s@, p as int, short as nat),
        r.1 <= s@.len() * 8,
{
    let (flag, q) = read_low_bits(s, p, 1);
    let width: u32 = if flag == 1 {
        short
    } else {
        32
    };
    let (v, end) = read_low_bits(s, q, width);
    proof {
        lemma_width(width as nat);
    }
    (v as u32, end)
}

proof fn lemma_width(width: nat)
    requires
        width <= 32,
    ensures
        pow2(width) <= 0x1_0000_0000,
{
    lemma2_to64();
    if width < 32 {
        vstd::arithmetic::power2::lemma_pow2_strictly_increases(width, 32);
    }
}

/// Decodes the payload of a real-time bar message, with prices in ticks.
pub fn decode_bar_ticks(payload: &[u8]) -> (r: RtBarTicks)
    requires
        payload@.len() * 8 <= usize::MAX,
    ensures
        r == bar_ticks(payload@),
{
    let reordered = regroup(payload);
    let s = reordered.as_slice();
    let (pad, p0) = read_low_bits(s, 0, 4);
    let (count, p1) = read_flagged(s, p0, 8);
    let (raw_low, p2) = read_low_bits(s, p1, 31);
    proof {
        lemma_width(31);
        lemma2_to64();
    }
    let low: i64 = if raw_low >= 0x4000_0000 {
        raw_low as i64 - 0x8000_0000
    } else {
        raw_low as i64
    };
    if count > 1 {
        let (flag, q0) = read_low_bits(s, p2, 1);
        let width: u32 = if flag == 1 {
            5
        } else {
            32
        };
        proof {
            lemma_width(width as nat);
        }
        let (open_delta, q1) = read_low_bits(s, q0, width);
        let (high_delta, q2) = read_low_bits(s, q1, width);
        let (close_delta, q3) = read_low_bits(s, q2, width);
        let (wap_sum, q4) = read_flagged(s, q3, 18);
        let (volume, end) = read_flagged(s, q4, 16);
        RtBarTicks {
            low,
            open_delta: open_delta as u32,
            high_delta: high_delta as u32,
            close_delta: close_delta as u32,
            wap_sum,
            volume: volume as i64,
            count,
        }
    } else {
        let (volume, end) = read_flagged(s, p2, 16);
        RtBarTicks {
            low,
            open_delta: 0,
            high_delta: 0,
            close_delta: 0,
            wap_sum: 0,
            volume: volume as i64,
            count,
        }
    }
}

} // verus!
