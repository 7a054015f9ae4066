//! Big-endian integers and the `#%#%` envelope that handshake messages travel in.
use vstd::prelude::*;

use crate::protocol::ns::NS_MAGIC;
use crate::text::append_bytes;

verus! {

/// The four bytes of `n`, most significant first.
pub open spec fn be32(n: u32) -> Seq<u8> {
    seq![
        ((n >> 24) & 0xff) as u8,
        ((n >> 16) & 0xff) as u8,
        ((n >> 8) & 0xff) as u8,
        (n & 0xff) as u8,
    ]
}

/// The number whose bytes, most significant first, are `b0`, `b1`, `b2` and `b3`.
pub open spec fn from_be32(b0: u8, b1: u8, b2: u8, b3: u8) -> u32 {
    ((b0 as u32) << 24) | ((b1 as u32) << 16) | ((b2 as u32) << 8) | (b3 as u32)
}

/// The number in the four bytes of `s` that start at `i`.
pub open spec fn be32_at(s: Seq<u8>, i: int) -> u32 {
    from_be32(s[i], s[i + 1], s[i + 2], s[i + 3])
}

/// A number written in four bytes reads back as itself.
pub proof fn lemma_be32(n: u32)
    ensures
        be32(n).len() == 4,
        be32_at(be32(n), 0) == n,
{
    assert((((((n >> 24) & 0xff) as u8) as u32) << 24) | (((((n >> 16) & 0xff) as u8) as u32) << 16)
        | (((((n >> 8) & 0xff) as u8) as u32) << 8) | (((n & 0xff) as u8) as u32) == n)
        by (bit_vector);
}

/// A number written in four bytes reads back as itself, wherever it stands.
pub proof fn lemma_be32_in(s: Seq<u8>, i: int, n: u32)
    requires
        0 <= i,
        i + 4 <= s.len(),
        s.subrange(i, i + 4) == be32(n),
    ensures
        be32_at(s, i) == n,
{
    lemma_be32(n);
    let t = s.subrange(i, i + 4);
    assert(s[i] == t[0] && s[i + 1] == t[1] && s[i + 2] == t[2] && s[i + 3] == t[3]);
}

/// Appends `n` in four bytes, most significant first.
pub fn push_be32(out: &mut Vec<u8>, n: u32)
    ensures
        final(out)@ == old(out)@ + be32(n),
{
    out.push(((n >> 24) & 0xff) as u8);
    out.push(((n >> 16) & 0xff) as u8);
    out.push(((n >> 8) & 0xff) as u8);
    out.push((n & 0xff) as u8);
    proof {
        assert(out@ =~= old(out)@ + be32(n));
    }
}

/// Reads the number in the four bytes that start at `i`.
pub fn read_be32(s: &[u8], i: usize) -> (r: u32)
    requires
        i + 4 <= s.len(),
    ensures
        r == be32_at(s@, i as int),
{
    ((s[i] as u32) << 24) | ((s[i + 1] as u32) << 16) | ((s[i + 2] as u32) << 8) | (s[i + 3] as u32)
}

/// The length of a byte string as the envelope states it, modulo 2^32.
pub open spec fn stated_len(s: Seq<u8>) -> u32 {
    (s.len() % 0x1_0000_0000) as u32
}

/// `payload` in its envelope: `#%#%`, the length in four bytes, the payload.
pub open spec fn enveloped(payload: Seq<u8>) -> Seq<u8> {
    NS_MAGIC@ + be32(stated_len(payload)) + payload
}

/// Puts a payload in its envelope.
pub fn envelope(payload: &[u8]) -> (r: Vec<u8>)
    ensures
        r@ == enveloped(payload@),
{
    let mut msg: Vec<u8> = Vec::new();
    append_bytes(&mut msg, &NS_MAGIC);
    let n: u64 = payload.len() as u64;
    push_be32(&mut msg, (n % 0x1_0000_0000) as u32);
    append_bytes(&mut msg, payload);
    proof {
        assert(msg@ =~= enveloped(payload@));
    }
    msg
}

/// What is wrong with the bytes of an enveloped message.
#[derive(Debug, Clone, Copy, PartialEq, Eq, Structural)]
pub enum FrameError {
    /// The message ends before its header or its payload does.
    UnexpectedEnd,
    /// The message does not start with `#%#%`.
    BadMagic,
}

/// The payload of the enveloped message at the start of `input`.
pub open spec fn unwrapped(input: Seq<u8>) -> Result<Seq<u8>, FrameError> {
    if input.len() < 8 {
        Err(FrameError::UnexpectedEnd)
    } else if input.take(4) != NS_MAGIC@ {
        Err(FrameError::BadMagic)
    } else if input.len() - 8 < be32_at(input, 4) {
        Err(FrameError::UnexpectedEnd)
    } else {
        Ok(input.subrange(8, 8 + be32_at(input, 4)))
    }
}

/// Opening an envelope gives back the payload that was put in it, whatever follows.
pub proof fn law_envelope_round_trip(payload: Seq<u8>, rest: Seq<u8>)
    requires
        payload.len() < 0x1_0000_0000,
    ensures
        unwrapped(enveloped(payload) + rest) == Ok::<Seq<u8>, FrameError>(payload),
{
    let m = enveloped(payload) + rest;
    let n = stated_len(payload);
    lemma_be32(n);
    assert(NS_MAGIC@.len() == 4);
    assert(m.take(4) =~= NS_MAGIC@);
    assert(m.subrange(4, 8) =~= be32(n));
    lemma_be32_in(m, 4, n);
    assert(m.subrange(8, 8 + n) =~= payload);
}

} // verus!
