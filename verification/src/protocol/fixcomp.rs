//! Compressed messages: field messages packed with zlib behind a `8=FIXCOMP` header.
use flate2::read::ZlibDecoder;
use flate2::write::ZlibEncoder;
use flate2::Compression;
use std::io::{Read, Write};
use vstd::prelude::*;

use crate::protocol::fix::{push_ascii, SOH};
use crate::text::{
    append_bytes, ascii, dec, find_bytes, find_from, format_uint, lemma_dec_value,
    lemma_find_first, lemma_find_from, lemma_occurs_index, number, occurs_at, parse_number, pos_of,
    slice_vec, views,
};

verus! {

/// The bytes that `flate2` packs a byte string into, at the default compression level.
pub uninterp spec fn zlib_packed(data: Seq<u8>) -> Seq<u8>;

/// What `flate2` unpacks from a byte string, or `None` when it is not a whole zlib stream.
pub uninterp spec fn zlib_unpacked(data: Seq<u8>) -> Option<Seq<u8>>;

/// `flate2::write::ZlibEncoder`: packs a byte string at the default compression level. What it
/// was packed into unpacks to the byte string again.
#[verifier::external_body]
fn zlib_pack(data: &[u8]) -> (r: Vec<u8>)
    ensures
        r@ == zlib_packed(data@),
        zlib_unpacked(r@) == Some(data@),
{
    let mut encoder = ZlibEncoder::new(Vec::new(), Compression::default());
    encoder.write_all(data).unwrap();
    encoder.finish().unwrap()
}

/// `flate2::read::ZlibDecoder`, read to its end: unpacks a byte string, or gives `None` when
/// the decoder reports an error.
#[verifier::external_body]
fn zlib_unpack(data: &[u8]) -> (r: Option<Vec<u8>>)
    ensures
        match r {
            Some(v) => zlib_unpacked(data@) == Some(v@),
            None => zlib_unpacked(data@) is None,
        },
{
    let mut decoder = ZlibDecoder::new(data);
    let mut out = Vec::new();
    match decoder.read_to_end(&mut out) {
        Ok(_) => Some(out),
        Err(_) => None,
    }
}

// ---------------------------------------------------------------------------------------
// Byte patterns
// ---------------------------------------------------------------------------------------

/// `9=`.
pub open spec fn tag_9() -> Seq<u8> {
    seq![57u8, 61]
}

/// `95=`.
pub open spec fn tag_95() -> Seq<u8> {
    seq![57u8, 53, 61]
}

/// `96=`.
pub open spec fn tag_96() -> Seq<u8> {
    seq![57u8, 54, 61]
}

/// SOH and `95=`.
pub open spec fn soh_95() -> Seq<u8> {
    seq![1u8, 57, 53, 61]
}

/// SOH and `10=`.
pub open spec fn soh_10() -> Seq<u8> {
    seq![1u8, 49, 48, 61]
}

/// `8=FIX.`.
pub open spec fn fix_start() -> Seq<u8> {
    seq![56u8, 61, 70, 73, 88, 46]
}

/// `8=O` and SOH.
pub open spec fn o_start() -> Seq<u8> {
    seq![56u8, 61, 79, 1]
}

/// `8=FIXCOMP` and SOH.
pub open spec fn comp_start() -> Seq<u8> {
    seq![56u8, 61, 70, 73, 88, 67, 79, 77, 80, 1]
}

/// The next SOH at or after `from`.
pub open spec fn find_soh(data: Seq<u8>, from: int) -> Option<int> {
    find_from(data, seq![SOH], from)
}

fn next_soh(data: &[u8], from: usize) -> (r: Option<usize>)
    ensures
        pos_of(r) == find_soh(data@, from as int),
        r matches Some(i) ==> from <= i < data.len(),
{
    let soh: [u8; 1] = [SOH];
    proof {
        assert(soh@ =~= seq![SOH]);
        lemma_find_from(data@, seq![SOH], from as int);
    }
    find_bytes(data, &soh, from)
}

fn next_tag_9(data: &[u8], from: usize) -> (r: Option<usize>)
    ensures
        pos_of(r) == find_from(data@, tag_9(), from as int),
        r matches Some(i) ==> from <= i && i + 2 <= data.len() && occurs_at(
            data@,
            tag_9(),
            i as int,
        ),
{
    let tag: [u8; 2] = [57, 61];
    proof {
        assert(tag@ =~= tag_9());
        lemma_find_from(data@, tag_9(), from as int);
    }
    find_bytes(data, &tag, from)
}

fn next_tag_96(data: &[u8], from: usize) -> (r: Option<usize>)
    ensures
        pos_of(r) == find_from(data@, tag_96(), from as int),
        r matches Some(i) ==> from <= i && i + 3 <= data.len(),
{
    let tag: [u8; 3] = [57, 54, 61];
    proof {
        assert(tag@ =~= tag_96());
        lemma_find_from(data@, tag_96(), from as int);
    }
    find_bytes(data, &tag, from)
}

fn next_soh_95(data: &[u8], from: usize) -> (r: Option<usize>)
    ensures
        pos_of(r) == find_from(data@, soh_95(), from as int),
        r matches Some(i) ==> from <= i && i + 4 <= data.len() && occurs_at(
            data@,
            soh_95(),
            i as int,
        ),
{
    let tag: [u8; 4] = [1, 57, 53, 61];
    proof {
        assert(tag@ =~= soh_95());
        lemma_find_from(data@, soh_95(), from as int);
    }
    find_bytes(data, &tag, from)
}

fn next_soh_10(data: &[u8], from: usize) -> (r: Option<usize>)
    ensures
        pos_of(r) == find_from(data@, soh_10(), from as int),
        r matches Some(i) ==> from <= i && i + 4 <= data.len(),
{
    let tag: [u8; 4] = [1, 49, 48, 61];
    proof {
        assert(tag@ =~= soh_10());
        lemma_find_from(data@, soh_10(), from as int);
    }
    find_bytes(data, &tag, from)
}

fn next_fix_start(data: &[u8], from: usize) -> (r: Option<usize>)
    ensures
        pos_of(r) == find_from(data@, fix_start(), from as int),
        r matches Some(i) ==> from <= i && i + 6 <= data.len(),
{
    let tag: [u8; 6] = [56, 61, 70, 73, 88, 46];
    proof {
        assert(tag@ =~= fix_start());
        lemma_find_from(data@, fix_start(), from as int);
    }
    find_bytes(data, &tag, from)
}

fn next_o_start(data: &[u8], from: usize) -> (r: Option<usize>)
    ensures
        pos_of(r) == find_from(data@, o_start(), from as int),
        r matches Some(i) ==> from <= i && i + 4 <= data.len(),
{
    let tag: [u8; 4] = [56, 61, 79, 1];
    proof {
        assert(tag@ =~= o_start());
        lemma_find_from(data@, o_start(), from as int);
    }
    find_bytes(data, &tag, from)
}

/// The SOH that closes a field whose tag, of bytes other than SOH, stands at `i` stands behind
/// the tag.
proof fn lemma_soh_behind(data: Seq<u8>, tag: Seq<u8>, i: int)
    requires
        occurs_at(data, tag, i),
        forall|k: int| 0 <= k < tag.len() ==> #[trigger] tag[k] != SOH,
    ensures
        find_soh(data, i) matches Some(s) ==> i + tag.len() <= s < data.len(),
{
    lemma_find_from(data, seq![SOH], i);
    if let Some(s) = find_soh(data, i) {
        lemma_occurs_index(data, seq![SOH], s, 0);
        if s < i + tag.len() {
            lemma_occurs_index(data, tag, i, s - i);
            assert(tag[s - i] != SOH);
        }
    }
}

// ---------------------------------------------------------------------------------------
// Building
// ---------------------------------------------------------------------------------------

/// The body that carries packed bytes: their number under tag 95, then the bytes under tag 96.
pub open spec fn comp_body(packed: Seq<u8>) -> Seq<u8> {
    tag_95() + ascii(dec(packed.len())) + seq![SOH] + tag_96() + packed + seq![SOH]
}

/// The message that carries packed bytes.
pub open spec fn comp_message(packed: Seq<u8>) -> Seq<u8> {
    let body = comp_body(packed);
    comp_start() + tag_9() + ascii(dec(body.len())) + seq![SOH] + body
}

/// Packs a message into a compressed one.
pub fn fixcomp_build(inner_msg: &[u8]) -> (r: Vec<u8>)
    ensures
        r@ == comp_message(zlib_packed(inner_msg@)),
        zlib_unpacked(zlib_packed(inner_msg@)) == Some(inner_msg@),
{
    let packed = zlib_pack(inner_msg);
    let mut body: Vec<u8> = Vec::new();
    proof {
        lemma_dec_value(packed@.len());
    }
    append_bytes(&mut body, &[57u8, 53, 61]);
    push_ascii(&mut body, format_uint(packed.len() as u64).as_str());
    body.push(SOH);
    append_bytes(&mut body, &[57u8, 54, 61]);
    append_bytes(&mut body, packed.as_slice());
    body.push(SOH);
    proof {
        assert(body@ =~= comp_body(packed@));
        lemma_dec_value(body@.len());
    }
    let mut msg: Vec<u8> = Vec::new();
    append_bytes(&mut msg, &[56u8, 61, 70, 73, 88, 67, 79, 77, 80, 1]);
    append_bytes(&mut msg, &[57u8, 61]);
    push_ascii(&mut msg, format_uint(body.len() as u64).as_str());
    msg.push(SOH);
    append_bytes(&mut msg, body.as_slice());
    proof {
        assert(msg@ =~= comp_message(packed@));
    }
    msg
}

// ---------------------------------------------------------------------------------------
// Length
// ---------------------------------------------------------------------------------------

/// The length that the header of a compressed message states for the whole message: the
/// number under tag 9 and what stands before it. `None` when the header is not whole.
pub open spec fn comp_total(data: Seq<u8>) -> Option<int> {
    match find_soh(data, 0) {
        None => None,
        Some(soh1) => match find_from(data, tag_9(), soh1) {
            None => None,
            Some(tag9) => match find_soh(data, tag9) {
                None => None,
                Some(soh2) => match number(data.subrange(tag9 + 2, soh2), usize::MAX as int) {
                    None => None,
                    Some(n) => Some(soh2 + 1 + n),
                },
            },
        },
    }
}

/// The whole length of the compressed message at the start of `data`, or `None` when it is not
/// complete.
pub fn fixcomp_length(data: &[u8]) -> (r: Option<usize>)
    ensures
        pos_of(r) == (if data@.len() < 10 {
            None
        } else {
            match comp_total(data@) {
                Some(total) if total <= data@.len() => Some(total),
                _ => None,
            }
        }),
{
    if data.len() < 10 {
        return None;
    }
    let soh1 = match next_soh(data, 0) {
        Some(i) => i,
        None => return None,
    };
    let tag9 = match next_tag_9(data, soh1) {
        Some(i) => i,
        None => return None,
    };
    proof {
        lemma_soh_behind(data@, tag_9(), tag9 as int);
    }
    let soh2 = match next_soh(data, tag9) {
        Some(i) => i,
        None => return None,
    };
    let body_len = match parse_number(data, tag9 + 2, soh2, usize::MAX as u64) {
        Some(n) => n as usize,
        None => return None,
    };
    if body_len > data.len() - (soh2 + 1) {
        None
    } else {
        Some(soh2 + 1 + body_len)
    }
}

// ---------------------------------------------------------------------------------------
// Splitting
// ---------------------------------------------------------------------------------------

/// The outcome of looking for a message.
pub ghost enum Next {
    /// No further message.
    End,
    /// A raw data block says that it runs past the end.
    Overrun,
    /// The message `start..end`.
    Message { start: int, end: int },
}

/// Where the checksum field of a message stands, looked for from `scan` on and past all raw
/// data blocks (a length under tag 95, then that many bytes under tag 96). `Some(None)` when
/// there is no checksum field, `None` when a raw data block runs past the end.
pub open spec fn checksum_from(buf: Seq<u8>, scan: int) -> Option<Option<int>>
    decreases buf.len() - scan,
{
    let raw = find_from(buf, soh_95(), scan);
    let ck = find_from(buf, soh_10(), scan);
    if raw is Some && (ck is None || raw->0 < ck->0) {
        match find_soh(buf, raw->0 + 4) {
            None => Some(None),
            Some(close) => match number(buf.subrange(raw->0 + 4, close), usize::MAX as int) {
                None => Some(None),
                Some(len) => match find_from(buf, tag_96(), close) {
                    None => Some(None),
                    Some(tag96) => {
                        let next = tag96 + 3 + len;
                        if next > buf.len() {
                            None
                        } else if scan < next {
                            checksum_from(buf, next)
                        } else {
                            Some(None)
                        }
                    },
                },
            },
        }
    } else {
        Some(ck)
    }
}

/// The field message at `f`: it ends with its checksum field.
pub open spec fn fix_at(buf: Seq<u8>, f: int) -> Next {
    match checksum_from(buf, f) {
        None => Next::Overrun,
        Some(None) => Next::End,
        Some(Some(ck)) => match find_soh(buf, ck + 4) {
            None => Next::End,
            Some(close) => Next::Message { start: f, end: close + 1 },
        },
    }
}

/// The binary message at `o`: its header states its length under tag 9.
pub open spec fn o_at(buf: Seq<u8>, o: int) -> Next {
    match find_from(buf, tag_9(), o + 4) {
        None => Next::End,
        Some(tag9) => match find_soh(buf, tag9) {
            None => Next::End,
            Some(close) => match number(buf.subrange(tag9 + 2, close), usize::MAX as int) {
                None => Next::End,
                Some(len) => {
                    if close + 1 + len > buf.len() {
                        Next::End
                    } else {
                        Next::Message { start: o, end: close + 1 + len }
                    }
                },
            },
        },
    }
}

/// The first message at or after `pos`.
pub open spec fn next_message(buf: Seq<u8>, pos: int) -> Next {
    let f = find_from(buf, fix_start(), pos);
    let o = find_from(buf, o_start(), pos);
    if o is Some && (f is None || o->0 < f->0) {
        o_at(buf, o->0)
    } else if f is Some {
        fix_at(buf, f->0)
    } else {
        Next::End
    }
}

/// The messages at or after `pos`, or `None` when a raw data block runs past the end.
pub open spec fn messages_from(buf: Seq<u8>, pos: int) -> Option<Seq<Seq<u8>>>
    decreases buf.len() - pos,
{
    if pos >= buf.len() {
        Some(Seq::empty())
    } else {
        match next_message(buf, pos) {
            Next::End => Some(Seq::empty()),
            Next::Overrun => None,
            Next::Message { start, end } => {
                if !(0 <= pos <= start < end <= buf.len()) {
                    Some(Seq::empty())
                } else {
                    match messages_from(buf, end) {
                        None => None,
                        Some(rest) => Some(seq![buf.subrange(start, end)] + rest),
                    }
                }
            },
        }
    }
}

/// Finds the checksum field of the message that starts at or before `scan`.
fn find_checksum(buf: &[u8], from: usize) -> (r: Option<Option<usize>>)
    requires
        from <= buf@.len(),
    ensures
        match r {
            None => checksum_from(buf@, from as int) is None,
            Some(ck) => checksum_from(buf@, from as int) == Some(pos_of(ck)),
        },
        r matches Some(Some(ck)) ==> from <= ck && ck + 4 <= buf.len(),
{
    let mut scan: usize = from;
    loop
        invariant
            from <= scan <= buf@.len(),
            checksum_from(buf@, scan as int) == checksum_from(buf@, from as int),
        decreases buf@.len() - scan,
    {
        let raw = next_soh_95(buf, scan);
        let ck = next_soh_10(buf, scan);
        let rt = match raw {
            None => return Some(ck),
            Some(rt) => rt,
        };
        match ck {
            Some(c) => {
                if c <= rt {
                    return Some(ck);
                }
            },
            None => {},
        }
        let close = match next_soh(buf, rt + 4) {
            None => return Some(None),
            Some(i) => i,
        };
        let len = match parse_number(buf, rt + 4, close, usize::MAX as u64) {
            None => return Some(None),
            Some(n) => n as usize,
        };
        let tag96 = match next_tag_96(buf, close) {
            None => return Some(None),
            Some(i) => i,
        };
        if len > buf.len() - (tag96 + 3) {
            return None;
        }
        scan = tag96 + 3 + len;
    }
}

/// One step of splitting.
enum Found {
    End,
    Overrun,
    Message(usize, usize),
}

/// The first message at or after `pos`.
fn find_message(buf: &[u8], pos: usize) -> (r: Found)
    requires
        pos < buf@.len(),
    ensures
        match r {
            Found::End => next_message(buf@, pos as int) is End,
            Found::Overrun => next_message(buf@, pos as int) is Overrun,
            Found::Message(start, end) => next_message(buf@, pos as int) == (Next::Message {
                start: start as int,
                end: end as int,
            }) && pos <= start < end <= buf@.len(),
        },
{
    let f = next_fix_start(buf, pos);
    let o = next_o_start(buf, pos);
    let o_first = match (o, f) {
        (Some(a), Some(b)) => a < b,
        (Some(_), None) => true,
        _ => false,
    };
    if o_first {
        let o = match o {
            Some(i) => i,
            None => return Found::End,
        };
        let tag9 = match next_tag_9(buf, o + 4) {
            Some(i) => i,
            None => return Found::End,
        };
        proof {
            lemma_soh_behind(buf@, tag_9(), tag9 as int);
        }
        let close = match next_soh(buf, tag9) {
            Some(i) => i,
            None => return Found::End,
        };
        let len = match parse_number(buf, tag9 + 2, close, usize::MAX as u64) {
            Some(n) => n as usize,
            None => return Found::End,
        };
        if len > buf.len() - (close + 1) {
            return Found::End;
        }
        Found::Message(o, close + 1 + len)
    } else {
        let f = match f {
            Some(i) => i,
            None => return Found::End,
        };
        match find_checksum(buf, f) {
            None => Found::Overrun,
            Some(None) => Found::End,
            Some(Some(ck)) => match next_soh(buf, ck + 4) {
                None => Found::End,
                Some(close) => Found::Message(f, close + 1),
            },
        }
    }
}

/// Splits unpacked content into messages, or gives `None` when a raw data block says that it
/// runs past the end.
pub fn try_split_messages(buf: &[u8]) -> (r: Option<Vec<Vec<u8>>>)
    ensures
        match r {
            None => messages_from(buf@, 0) is None,
            Some(m) => messages_from(buf@, 0) == Some(views(m@)),
        },
{
    let mut messages: Vec<Vec<u8>> = Vec::new();
    let mut pos: usize = 0;
    let ghost whole = messages_from(buf@, 0);
    proof {
        if whole is Some {
            assert(views(messages@) + whole->0 =~= whole->0);
        }
    }
    while pos < buf.len()
        invariant
            pos <= buf.len(),
            whole == messages_from(buf@, 0),
            messages_from(buf@, pos as int) is None <==> whole is None,
            whole is Some ==> views(messages@) + messages_from(buf@, pos as int)->0 == whole->0,
        decreases buf.len() - pos,
    {
        match find_message(buf, pos) {
            Found::End => {
                proof {
                    assert(views(messages@) + Seq::<Seq<u8>>::empty() =~= views(messages@));
                }
                return Some(messages);
            },
            Found::Overrun => {
                return None;
            },
            Found::Message(start, end) => {
                let ghost before = messages@;
                let ghost here = messages_from(buf@, pos as int);
                messages.push(slice_vec(buf, start, end));
                proof {
                    let piece = buf@.subrange(start as int, end as int);
                    assert(views(messages@) =~= views(before).push(piece));
                    if whole is Some {
                        let rest = messages_from(buf@, end as int)->0;
                        assert(here->0 == seq![piece] + rest);
                        assert(views(messages@) + rest =~= views(before) + here->0);
                    }
                }
                pos = end;
            },
        }
    }
    proof {
        assert(views(messages@) + Seq::<Seq<u8>>::empty() =~= views(messages@));
    }
    Some(messages)
}

/// Splits unpacked content, whose raw data blocks end inside it, into messages.
pub fn split_messages(buf: &[u8]) -> (r: Vec<Vec<u8>>)
    requires
        messages_from(buf@, 0) is Some,
    ensures
        messages_from(buf@, 0) == Some(views(r@)),
{
    match try_split_messages(buf) {
        Some(m) => m,
        None => Vec::new(),
    }
}

// ---------------------------------------------------------------------------------------
// Unpacking
// ---------------------------------------------------------------------------------------

/// Where the packed bytes of a compressed message stand.
pub ghost enum Block {
    /// The message states a length that cannot be read: it holds no messages.
    Absent,
    /// The packed bytes are not all there.
    Missing,
    /// The bytes `start..end`.
    At { start: int, end: int },
}

/// Where the packed bytes stand: behind tag 96, as many as tag 95 states; behind the stated
/// length when there is no tag 96; behind the second SOH when there is no tag 95.
pub open spec fn packed_block(data: Seq<u8>) -> Block {
    match find_from(data, soh_95(), 0) {
        Some(i) => match find_soh(data, i + 1) {
            None => Block::Absent,
            Some(soh) => match number(data.subrange(i + 4, soh), usize::MAX as int) {
                None => Block::Absent,
                Some(len) => {
                    let start = match find_from(data, tag_96(), soh) {
                        Some(tag96) => tag96 + 3,
                        None => soh + 1,
                    };
                    if start + len > data.len() {
                        Block::Missing
                    } else {
                        Block::At { start, end: start + len }
                    }
                },
            },
        },
        None => match find_soh(data, 0) {
            None => Block::Missing,
            Some(soh1) => match find_soh(data, soh1 + 1) {
                None => Block::Missing,
                Some(soh2) => Block::At { start: soh2 + 1, end: data.len() as int },
            },
        },
    }
}

/// What is wrong with a compressed message.
#[derive(Debug, Clone, Copy, PartialEq, Eq, Structural)]
pub enum FixcompError {
    /// The packed bytes, or a raw data block in the unpacked ones, are not all there.
    Truncated,
    /// The packed bytes are not a whole zlib stream.
    Corrupt,
}

/// What a compressed message holds, given what its packed bytes unpack to.
pub open spec fn unpacked_messages(unpacked: Option<Seq<u8>>) -> Result<Seq<Seq<u8>>, FixcompError> {
    match unpacked {
        None => Err(FixcompError::Corrupt),
        Some(bytes) => match messages_from(bytes, 0) {
            None => Err(FixcompError::Truncated),
            Some(m) => Ok(m),
        },
    }
}

/// The messages in a compressed message.
pub open spec fn comp_messages(data: Seq<u8>) -> Result<Seq<Seq<u8>>, FixcompError> {
    match packed_block(data) {
        Block::Absent => Ok(Seq::empty()),
        Block::Missing => Err(FixcompError::Truncated),
        Block::At { start, end } => unpacked_messages(zlib_unpacked(data.subrange(start, end))),
    }
}

/// Finds the packed bytes of a compressed message: `Ok(None)` when it holds no messages, an
/// error when the bytes are not all there.
pub fn find_packed(data: &[u8]) -> (r: Result<Option<Vec<u8>>, FixcompError>)
    ensures
        match packed_block(data@) {
            Block::Absent => r == Ok::<Option<Vec<u8>>, FixcompError>(None),
            Block::Missing => r == Err::<Option<Vec<u8>>, FixcompError>(FixcompError::Truncated),
            Block::At { start, end } => r is Ok && r->Ok_0 is Some && r->Ok_0->0@ == data@.subrange(
                start,
                end,
            ),
        },
{
    match next_soh_95(data, 0) {
        Some(i) => {
            proof {
                assert forall|k: int| 0 <= k < tag_95().len() implies data@[i + 1 + k]
                    == #[trigger] tag_95()[k] by {
                    lemma_occurs_index(data@, soh_95(), i as int, k + 1);
                }
                assert(data@.subrange(i + 1, i + 4) =~= tag_95());
                lemma_soh_behind(data@, tag_95(), i + 1);
            }
            let soh = match next_soh(data, i + 1) {
                None => return Ok(None),
                Some(s) => s,
            };
            let len = match parse_number(data, i + 4, soh, usize::MAX as u64) {
                None => return Ok(None),
                Some(n) => n as usize,
            };
            let start: usize = match next_tag_96(data, soh) {
                Some(tag96) => tag96 + 3,
                None => soh + 1,
            };
            if len > data.len() - start {
                return Err(FixcompError::Truncated);
            }
            Ok(Some(slice_vec(data, start, start + len)))
        },
        None => {
            let soh1 = match next_soh(data, 0) {
                None => return Err(FixcompError::Truncated),
                Some(s) => s,
            };
            let soh2 = match next_soh(data, soh1 + 1) {
                None => return Err(FixcompError::Truncated),
                Some(s) => s,
            };
            Ok(Some(slice_vec(data, soh2 + 1, data.len())))
        },
    }
}

/// Unpacks a compressed message into the messages it holds, or says what is wrong with it.
pub fn fixcomp_decompress(data: &[u8]) -> (r: Result<Vec<Vec<u8>>, FixcompError>)
    ensures
        match r {
            Ok(m) => comp_messages(data@) == Ok::<Seq<Seq<u8>>, FixcompError>(views(m@)),
            Err(e) => comp_messages(data@) == Err::<Seq<Seq<u8>>, FixcompError>(e),
        },
{
    let packed = match find_packed(data) {
        Err(e) => return Err(e),
        Ok(None) => {
            let none: Vec<Vec<u8>> = Vec::new();
            proof {
                assert(views(none@) =~= Seq::empty());
            }
            return Ok(none);
        },
        Ok(Some(packed)) => packed,
    };
    match zlib_unpack(packed.as_slice()) {
        None => Err(FixcompError::Corrupt),
        Some(bytes) => match try_split_messages(bytes.as_slice()) {
            None => Err(FixcompError::Truncated),
            Some(m) => Ok(m),
        },
    }
}

// ---------------------------------------------------------------------------------------
// What a compressed message holds
// ---------------------------------------------------------------------------------------

/// The facts about the header of a compressed message: where its SOH bytes stand.
proof fn lemma_comp_layout(packed: Seq<u8>, rest: Seq<u8>)
    ensures
        ({
            let buf = comp_message(packed) + rest;
            let size = dec(comp_body(packed).len());
            let count = dec(packed.len());
            let b = 13 + size.len() as int;
            let n = count.len() as int;
            &&& find_soh(buf, 0) == Some(9int)
            &&& find_from(buf, tag_9(), 9) == Some(10int)
            &&& find_soh(buf, 10) == Some(b - 1)
            &&& buf.subrange(12, b - 1) == ascii(size)
            &&& find_from(buf, soh_95(), 0) == Some(b - 1)
            &&& find_soh(buf, b) == Some(b + 3 + n)
            &&& buf.subrange(b + 3, b + 3 + n) == ascii(count)
            &&& find_from(buf, tag_96(), b + 3 + n) == Some(b + 4 + n)
            &&& comp_message(packed).len() == b + 3 + n + 4 + packed.len() + 1
            &&& comp_body(packed).len() == 3 + n + 4 + packed.len() + 1
            &&& buf.subrange(b + 7 + n, b + 7 + n + packed.len()) == packed
        }),
{
    let m = comp_message(packed);
    let buf = m + rest;
    let size = dec(comp_body(packed).len());
    let count = dec(packed.len());
    lemma_dec_value(comp_body(packed).len());
    lemma_dec_value(packed.len());
    let b = 13 + size.len() as int;
    let c = b + 3 + count.len() as int;
    assert(comp_body(packed).len() == 3 + count.len() + 4 + packed.len() + 1);
    assert(m.len() == c + 4 + packed.len() + 1);
    assert forall|i: int| 0 <= i < 10 implies buf[i] == #[trigger] comp_start()[i] by {}
    assert(buf[10] == 57 && buf[11] == 61);
    assert forall|i: int| 12 <= i < b - 1 implies 48 <= #[trigger] buf[i] <= 57 by {
        assert(crate::text::is_digit(size[i - 12]));
        assert(buf[i] == ascii(size)[i - 12]);
    }
    assert(buf[b - 1] == SOH);
    assert(buf[b] == 57 && buf[b + 1] == 53 && buf[b + 2] == 61);
    assert forall|i: int| b + 3 <= i < c implies 48 <= #[trigger] buf[i] <= 57 by {
        assert(crate::text::is_digit(count[i - b - 3]));
        assert(buf[i] == ascii(count)[i - b - 3]);
    }
    assert(buf[c] == SOH);
    assert(buf[c + 1] == 57 && buf[c + 2] == 54 && buf[c + 3] == 61);
    // The SOH behind the first field.
    assert(buf.subrange(9, 10) =~= seq![SOH]);
    assert forall|j: int| 0 <= j < 9 implies !#[trigger] occurs_at(buf, seq![SOH], j) by {
        if occurs_at(buf, seq![SOH], j) {
            lemma_occurs_index(buf, seq![SOH], j, 0);
            assert(buf[j] == comp_start()[j]);
        }
    }
    lemma_find_first(buf, seq![SOH], 0, 9);
    // The length field.
    assert(buf.subrange(10, 12) =~= tag_9());
    assert(!occurs_at(buf, tag_9(), 9)) by {
        if occurs_at(buf, tag_9(), 9) {
            lemma_occurs_index(buf, tag_9(), 9, 0);
        }
    }
    lemma_find_first(buf, tag_9(), 9, 10);
    assert(buf.subrange(b - 1, b) =~= seq![SOH]);
    assert forall|j: int| 10 <= j < b - 1 implies !#[trigger] occurs_at(buf, seq![SOH], j) by {
        if occurs_at(buf, seq![SOH], j) {
            lemma_occurs_index(buf, seq![SOH], j, 0);
        }
    }
    lemma_find_first(buf, seq![SOH], 10, b - 1);
    assert(buf.subrange(12, b - 1) =~= ascii(size));
    // The count field.
    assert(buf.subrange(b - 1, b + 3) =~= soh_95());
    assert forall|j: int| 0 <= j < b - 1 implies !#[trigger] occurs_at(buf, soh_95(), j) by {
        if occurs_at(buf, soh_95(), j) {
            lemma_occurs_index(buf, soh_95(), j, 0);
            lemma_occurs_index(buf, soh_95(), j, 2);
            if j < 9 {
                assert(buf[j] == comp_start()[j]);
            } else if j == 9 {
                assert(buf[11] == 53);
            }
        }
    }
    lemma_find_first(buf, soh_95(), 0, b - 1);
    assert(buf.subrange(c, c + 1) =~= seq![SOH]);
    assert forall|j: int| b <= j < c implies !#[trigger] occurs_at(buf, seq![SOH], j) by {
        if occurs_at(buf, seq![SOH], j) {
            lemma_occurs_index(buf, seq![SOH], j, 0);
        }
    }
    lemma_find_first(buf, seq![SOH], b, c);
    assert(buf.subrange(b + 3, c) =~= ascii(count));
    // The packed bytes.
    assert(buf.subrange(c + 1, c + 4) =~= tag_96());
    assert(!occurs_at(buf, tag_96(), c)) by {
        if occurs_at(buf, tag_96(), c) {
            lemma_occurs_index(buf, tag_96(), c, 0);
        }
    }
    lemma_find_first(buf, tag_96(), c, c + 1);
    assert(buf.subrange(c + 4, c + 4 + packed.len()) =~= packed);
}

/// The length that a compressed message states is its own, whatever follows it.
pub proof fn law_comp_length(packed: Seq<u8>, rest: Seq<u8>)
    requires
        comp_body(packed).len() <= usize::MAX,
    ensures
        comp_message(packed).len() >= 10,
        comp_total(comp_message(packed) + rest) == Some(comp_message(packed).len() as int),
{
    lemma_comp_layout(packed, rest);
    let n = comp_body(packed).len();
    crate::protocol::fix::lemma_number_ascii(n, usize::MAX as int);
}

/// What a compressed message holds are the messages in what its packed bytes unpack to: what
/// was packed is what is unpacked.
pub proof fn law_comp_round_trip(packed: Seq<u8>)
    requires
        packed.len() <= usize::MAX,
    ensures
        comp_messages(comp_message(packed)) == unpacked_messages(zlib_unpacked(packed)),
{
    let none = Seq::<u8>::empty();
    lemma_comp_layout(packed, none);
    assert(comp_message(packed) + none =~= comp_message(packed));
    crate::protocol::fix::lemma_number_ascii(packed.len(), usize::MAX as int);
}

// ---------------------------------------------------------------------------------------
// Messages one behind the other
// ---------------------------------------------------------------------------------------

/// Whether `m` is one whole field message: it starts as one, and its first checksum field,
/// before which no raw data block stands, is its end.
pub open spec fn is_fix_frame(m: Seq<u8>) -> bool {
    &&& occurs_at(m, fix_start(), 0)
    &&& find_from(m, soh_10(), 0) matches Some(ck) && find_soh(m, ck + 4) == Some(m.len() - 1) && (
    find_from(m, soh_95(), 0) matches Some(raw) ==> ck <= raw)
}

/// Whether `m` is one whole binary message: its header is its start and its length, and states
/// how many bytes follow, whatever they are.
pub open spec fn is_o_frame(m: Seq<u8>) -> bool {
    &&& occurs_at(m, o_start(), 0)
    &&& occurs_at(m, tag_9(), 4)
    &&& find_soh(m, 4) matches Some(close) && number(m.subrange(6, close), usize::MAX as int)
        == Some(m.len() - close - 1)
}

/// Whether `m` is one whole message.
pub open spec fn is_frame(m: Seq<u8>) -> bool {
    is_fix_frame(m) || is_o_frame(m)
}

/// What is found in a text is found in all of its extensions.
proof fn lemma_find_prefix(m: Seq<u8>, rest: Seq<u8>, needle: Seq<u8>, from: int)
    ensures
        find_from(m, needle, from) is Some ==> find_from(m + rest, needle, from) == find_from(
            m,
            needle,
            from,
        ),
    decreases m.len() + 1 - from,
{
    if from < 0 || from + needle.len() > m.len() {
    } else {
        assert((m + rest).subrange(from, from + needle.len()) =~= m.subrange(
            from,
            from + needle.len(),
        ));
        if !occurs_at(m, needle, from) {
            lemma_find_prefix(m, rest, needle, from + 1);
        }
    }
}

/// Behind a text, the positions are shifted by its length.
proof fn lemma_find_shift(m: Seq<u8>, rest: Seq<u8>, needle: Seq<u8>, from: int)
    requires
        0 <= from,
    ensures
        find_from(m + rest, needle, m.len() + from) == (match find_from(rest, needle, from) {
            Some(i) => Some(m.len() + i),
            None => None,
        }),
    decreases rest.len() + 1 - from,
{
    if from + needle.len() > rest.len() {
    } else {
        assert((m + rest).subrange(m.len() + from, m.len() + from + needle.len())
            =~= rest.subrange(from, from + needle.len()));
        if !occurs_at(rest, needle, from) {
            lemma_find_shift(m, rest, needle, from + 1);
        }
    }
}

proof fn lemma_checksum_shift(m: Seq<u8>, rest: Seq<u8>, scan: int)
    requires
        0 <= scan,
    ensures
        checksum_from(m + rest, m.len() + scan) == (match checksum_from(rest, scan) {
            None => None,
            Some(None) => Some(None),
            Some(Some(i)) => Some(Some(m.len() + i)),
        }),
    decreases rest.len() - scan,
{
    let buf = m + rest;
    let k = m.len() as int;
    lemma_find_shift(m, rest, soh_95(), scan);
    lemma_find_shift(m, rest, soh_10(), scan);
    let raw = find_from(rest, soh_95(), scan);
    let ck = find_from(rest, soh_10(), scan);
    if raw is Some && (ck is None || raw->0 < ck->0) {
        lemma_find_from(rest, soh_95(), scan);
        lemma_find_shift(m, rest, seq![SOH], raw->0 + 4);
        if let Some(close) = find_soh(rest, raw->0 + 4) {
            lemma_find_from(rest, seq![SOH], raw->0 + 4);
            assert(buf.subrange(k + raw->0 + 4, k + close) =~= rest.subrange(raw->0 + 4, close));
            lemma_find_shift(m, rest, tag_96(), close);
            if let Some(len) = number(rest.subrange(raw->0 + 4, close), usize::MAX as int) {
                if let Some(tag96) = find_from(rest, tag_96(), close) {
                    lemma_find_from(rest, tag_96(), close);
                    let next = tag96 + 3 + len;
                    if next <= rest.len() && scan < next {
                        lemma_checksum_shift(m, rest, next);
                    }
                }
            }
        }
    }
}

proof fn lemma_next_shift(m: Seq<u8>, rest: Seq<u8>, pos: int)
    requires
        0 <= pos,
    ensures
        next_message(m + rest, m.len() + pos) == (match next_message(rest, pos) {
            Next::End => Next::End,
            Next::Overrun => Next::Overrun,
            Next::Message { start, end } => Next::Message {
                start: m.len() + start,
                end: m.len() + end,
            },
        }),
{
    let buf = m + rest;
    let k = m.len() as int;
    lemma_find_shift(m, rest, fix_start(), pos);
    lemma_find_shift(m, rest, o_start(), pos);
    lemma_find_from(rest, fix_start(), pos);
    lemma_find_from(rest, o_start(), pos);
    let f = find_from(rest, fix_start(), pos);
    let o = find_from(rest, o_start(), pos);
    if o is Some && (f is None || o->0 < f->0) {
        lemma_find_shift(m, rest, tag_9(), o->0 + 4);
        if let Some(tag9) = find_from(rest, tag_9(), o->0 + 4) {
            lemma_find_from(rest, tag_9(), o->0 + 4);
            lemma_find_shift(m, rest, seq![SOH], tag9);
            lemma_soh_behind(rest, tag_9(), tag9);
            if let Some(close) = find_soh(rest, tag9) {
                assert(buf.subrange(k + tag9 + 2, k + close) =~= rest.subrange(tag9 + 2, close));
            }
        }
    } else if f is Some {
        lemma_checksum_shift(m, rest, f->0);
        if let Some(Some(ck)) = checksum_from(rest, f->0) {
            lemma_checksum_range(rest, f->0);
            lemma_find_shift(m, rest, seq![SOH], ck + 4);
        }
    }
}

proof fn lemma_checksum_range(buf: Seq<u8>, scan: int)
    requires
        0 <= scan,
    ensures
        checksum_from(buf, scan) matches Some(Some(ck)) ==> scan <= ck,
    decreases buf.len() - scan,
{
    let raw = find_from(buf, soh_95(), scan);
    let ck = find_from(buf, soh_10(), scan);
    lemma_find_from(buf, soh_95(), scan);
    lemma_find_from(buf, soh_10(), scan);
    if raw is Some && (ck is None || raw->0 < ck->0) {
        if let Some(close) = find_soh(buf, raw->0 + 4) {
            lemma_find_from(buf, seq![SOH], raw->0 + 4);
            if let Some(len) = number(buf.subrange(raw->0 + 4, close), usize::MAX as int) {
                if let Some(tag96) = find_from(buf, tag_96(), close) {
                    lemma_find_from(buf, tag_96(), close);
                    let next = tag96 + 3 + len;
                    if next <= buf.len() && scan < next {
                        lemma_checksum_range(buf, next);
                    }
                }
            }
        }
    }
}

proof fn lemma_messages_shift(m: Seq<u8>, rest: Seq<u8>, pos: int)
    requires
        0 <= pos,
    ensures
        messages_from(m + rest, m.len() + pos) == messages_from(rest, pos),
    decreases rest.len() - pos,
{
    let buf = m + rest;
    let k = m.len() as int;
    if pos < rest.len() {
        lemma_next_shift(m, rest, pos);
        if let Next::Message { start, end } = next_message(rest, pos) {
            if 0 <= pos <= start < end <= rest.len() {
                lemma_messages_shift(m, rest, end);
                assert(buf.subrange(k + start, k + end) =~= rest.subrange(start, end));
            }
        }
    }
}

/// A whole message is the first of the messages in all bytes that start with it, and the others
/// are those in the bytes behind it.
pub proof fn law_split_first(m: Seq<u8>, rest: Seq<u8>)
    requires
        is_frame(m),
    ensures
        messages_from(m + rest, 0) == (match messages_from(rest, 0) {
            None => None,
            Some(others) => Some(seq![m] + others),
        }),
{
    let n = m.len() as int;
    if is_fix_frame(m) {
        lemma_fix_frame_first(m, rest);
    } else {
        lemma_o_frame_first(m, rest);
    }
    assert((m + rest).subrange(0, n) =~= m);
    lemma_messages_shift(m, rest, 0);
}

proof fn lemma_o_frame_first(m: Seq<u8>, rest: Seq<u8>)
    requires
        is_o_frame(m),
    ensures
        next_message(m + rest, 0) == (Next::Message { start: 0, end: m.len() as int }),
        m.len() > 0,
{
    let buf = m + rest;
    let close = find_soh(m, 4)->0;
    lemma_find_prefix(m, rest, seq![SOH], 4);
    lemma_find_from(m, seq![SOH], 4);
    lemma_soh_behind(m, tag_9(), 4);
    assert(buf.subrange(0, 4) =~= m.subrange(0, 4));
    assert(buf.subrange(4, 6) =~= m.subrange(4, 6));
    assert(buf.subrange(6, close) =~= m.subrange(6, close));
    assert(find_from(buf, o_start(), 0) == Some(0int));
    assert(find_from(buf, tag_9(), 4) == Some(4int));
    lemma_occurs_index(buf, o_start(), 0, 2);
    lemma_find_from(buf, fix_start(), 0);
    if occurs_at(buf, fix_start(), 0) {
        lemma_occurs_index(buf, fix_start(), 0, 2);
    }
}

proof fn lemma_fix_frame_first(m: Seq<u8>, rest: Seq<u8>)
    requires
        is_fix_frame(m),
    ensures
        next_message(m + rest, 0) == (Next::Message { start: 0, end: m.len() as int }),
        m.len() > 0,
{
    let buf = m + rest;
    let ck = find_from(m, soh_10(), 0)->0;
    lemma_find_prefix(m, rest, soh_10(), 0);
    lemma_find_prefix(m, rest, seq![SOH], ck + 4);
    lemma_find_from(m, soh_10(), 0);
    lemma_find_from(m, seq![SOH], ck + 4);
    assert(buf.subrange(0, 6) =~= m.subrange(0, 6));
    assert(find_from(buf, fix_start(), 0) == Some(0int));
    lemma_find_from(buf, o_start(), 0);
    lemma_find_from(buf, soh_95(), 0);
    if let Some(raw) = find_from(buf, soh_95(), 0) {
        if raw < ck {
            assert(m.subrange(raw, raw + 4) =~= buf.subrange(raw, raw + 4));
            lemma_find_before(m, soh_95(), 0, raw);
        }
    }
    assert(checksum_from(buf, 0) == Some(Some(ck)));
    assert(next_message(buf, 0) == (Next::Message { start: 0, end: m.len() as int }));
}

/// A search finds an occurrence at or before each one there is.
proof fn lemma_find_before(s: Seq<u8>, needle: Seq<u8>, from: int, i: int)
    requires
        0 <= from <= i,
        occurs_at(s, needle, i),
    ensures
        find_from(s, needle, from) matches Some(k) && k <= i,
    decreases i - from,
{
    if !occurs_at(s, needle, from) {
        lemma_find_before(s, needle, from + 1, i);
    }
}

/// Byte strings, one behind the other.
pub open spec fn concatenated(messages: Seq<Seq<u8>>) -> Seq<u8>
    decreases messages.len(),
{
    if messages.len() == 0 {
        Seq::empty()
    } else {
        messages[0] + concatenated(messages.skip(1))
    }
}

/// Whole messages, one behind the other, split into those messages: all of them, in order, with
/// no byte lost or shared, also where the bytes of a binary message look like the start of
/// another.
pub proof fn law_messages_split(messages: Seq<Seq<u8>>)
    requires
        forall|i: int| 0 <= i < messages.len() ==> is_frame(#[trigger] messages[i]),
    ensures
        messages_from(concatenated(messages), 0) == Some(messages),
    decreases messages.len(),
{
    if messages.len() == 0 {
        assert(messages =~= Seq::<Seq<u8>>::empty());
    } else {
        let rest = messages.skip(1);
        assert forall|i: int| 0 <= i < rest.len() implies is_frame(#[trigger] rest[i]) by {
            assert(rest[i] == messages[i + 1]);
        }
        law_messages_split(rest);
        law_split_first(messages[0], concatenated(rest));
        assert(seq![messages[0]] + rest =~= messages);
    }
}

/// A compressed message gives back the whole messages that were packed into it, one behind the
/// other.
pub proof fn law_packed_messages_come_back(messages: Seq<Seq<u8>>, packed: Seq<u8>)
    requires
        forall|i: int| 0 <= i < messages.len() ==> is_frame(#[trigger] messages[i]),
        zlib_unpacked(packed) == Some(concatenated(messages)),
        packed.len() <= usize::MAX,
    ensures
        comp_messages(comp_message(packed)) == Ok::<Seq<Seq<u8>>, FixcompError>(messages),
{
    law_messages_split(messages);
    law_comp_round_trip(packed);
}

/// A binary message: its start, the length of its body under tag 9, and its body.
pub open spec fn o_message(body: Seq<u8>) -> Seq<u8> {
    o_start() + tag_9() + ascii(dec(body.len())) + seq![SOH] + body
}

/// A binary message with the length of its body in its header is one whole message, whatever
/// the body holds.
pub proof fn law_o_message_is_frame(body: Seq<u8>)
    requires
        body.len() <= usize::MAX,
    ensures
        is_o_frame(o_message(body)),
{
    let m = o_message(body);
    let size = dec(body.len());
    let close = 6 + size.len() as int;
    lemma_dec_value(body.len());
    crate::protocol::fix::lemma_number_ascii(body.len(), usize::MAX as int);
    assert(m.subrange(0, 4) =~= o_start());
    assert(m.subrange(4, 6) =~= tag_9());
    assert(m[4] == 57 && m[5] == 61);
    assert forall|i: int| 6 <= i < close implies 48 <= #[trigger] m[i] <= 57 by {
        assert(crate::text::is_digit(size[i - 6]));
        assert(m[i] == ascii(size)[i - 6]);
    }
    assert(m.subrange(close, close + 1) =~= seq![SOH]);
    assert forall|j: int| 4 <= j < close implies !#[trigger] occurs_at(m, seq![SOH], j) by {
        if occurs_at(m, seq![SOH], j) {
            lemma_occurs_index(m, seq![SOH], j, 0);
        }
    }
    lemma_find_first(m, seq![SOH], 4, close);
    assert(m.subrange(6, close) =~= ascii(size));
}

/// A message built from fields without SOH, none of them under tag 10 or 95, is one whole
/// field message.
pub proof fn law_built_message_is_frame(fields: Seq<(u32, Seq<char>)>, seq: u32)
    requires
        forall|i: int|
            0 <= i < fields.len() ==> crate::protocol::fix::sendable(#[trigger] fields[i]),
        forall|i: int|
            0 <= i < fields.len() ==> (#[trigger] fields[i]).0 != 10 && fields[i].0 != 95,
    ensures
        is_fix_frame(crate::protocol::fix::fix_message(fields, seq)),
{
    let m = crate::protocol::fix::fix_message(fields, seq);
    crate::protocol::fix::lemma_checksum_place(fields, seq);
    let at = crate::protocol::fix::checksum_place(fields, seq);
    assert(m.subrange(0, 6) =~= fix_start());
    lemma_find_from(m, soh_95(), 0);
    assert(crate::protocol::fix::behind_soh(crate::protocol::fix::raw_data_tag()) =~= soh_95());
    assert(crate::protocol::fix::behind_soh(crate::protocol::fix::checksum_tag()) =~= soh_10());
    lemma_find_first(m, soh_10(), 0, at);
    assert forall|j: int| at + 4 <= j < m.len() - 1 implies !#[trigger] occurs_at(
        m,
        seq![SOH],
        j,
    ) by {
        if occurs_at(m, seq![SOH], j) {
            lemma_occurs_index(m, seq![SOH], j, 0);
        }
    }
    assert(m.subrange(m.len() - 1, m.len() as int) =~= seq![SOH]);
    lemma_find_first(m, seq![SOH], at + 4, m.len() - 1);
}

} // verus!
