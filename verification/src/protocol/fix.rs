//! Field messages: `tag=value` fields, each closed by a SOH byte, behind a header that states
//! the body length and before a trailer with a checksum.
use std::collections::HashMap;
use vstd::prelude::*;

use crate::text::{
    append_bytes, ascii, dec, dec_fixed, dec_padded, find_bytes, find_from, format_fixed,
    format_padded, format_uint, from_utf8_lossy, lemma_ascii_encoding, lemma_fixed_digits,
    lemma_latin_ascii, lemma_padded_digits, lemma_padded_value, number, parse_number, read_text,
    separator_free, slice_vec, split, split_bytes, terminated, text_eq, views,
};

verus! {

broadcast use vstd::std_specs::hash::group_hash_axioms;

/// The byte that closes a field.
pub const SOH: u8 = 1;

pub const TAG_MSG_TYPE: u32 = 35;
pub const TAG_SENDING_TIME: u32 = 52;
pub const TAG_ENCRYPT_METHOD: u32 = 98;
pub const TAG_HEARTBEAT_INT: u32 = 108;
pub const TAG_TEST_REQ_ID: u32 = 112;
pub const TAG_RESET_SEQ_NUM: u32 = 141;
pub const TAG_IB_BUILD: u32 = 6034;
pub const TAG_IB_VERSION: u32 = 6968;

/// The fields of a message, in order.
pub struct Fields {
    pub items: Vec<(u32, String)>,
}

impl View for Fields {
    type V = Seq<(u32, Seq<char>)>;

    open spec fn view(&self) -> Seq<(u32, Seq<char>)> {
        self.items@.map_values(|p: (u32, String)| (p.0, p.1@))
    }
}

impl Fields {
    /// No fields.
    pub fn new() -> (r: Self)
        ensures
            r@ == Seq::<(u32, Seq<char>)>::empty(),
    {
        let r = Fields { items: Vec::new() };
        proof {
            assert(r@ =~= Seq::empty());
        }
        r
    }

    /// Adds a field.
    pub fn put(&mut self, tag: u32, value: String)
        ensures
            final(self)@ == old(self)@.push((tag, value@)),
    {
        self.items.push((tag, value));
        proof {
            assert(self@ =~= old(self)@.push((tag, value@)));
        }
    }

    /// Adds a field.
    pub fn put_str(&mut self, tag: u32, value: &str)
        ensures
            final(self)@ == old(self)@.push((tag, value@)),
    {
        self.put(tag, value.to_owned());
    }

    /// Adds a field with a number.
    pub fn put_uint(&mut self, tag: u32, value: u64)
        ensures
            final(self)@ == old(self)@.push((tag, dec(value as nat))),
    {
        self.put(tag, format_uint(value));
    }

    /// Adds all fields of another list.
    pub fn put_all(&mut self, other: &Fields)
        ensures
            final(self)@ == old(self)@ + other@,
    {
        let mut i: usize = 0;
        proof {
            assert(self@ =~= old(self)@ + other@.take(0));
        }
        while i < other.items.len()
            invariant
                i <= other.items.len(),
                self@ == old(self)@ + other@.take(i as int),
            decreases other.items.len() - i,
        {
            self.put_str(other.items[i].0, other.items[i].1.as_str());
            i = i + 1;
            proof {
                assert(self@ =~= old(self)@ + other@.take(i as int));
            }
        }
        proof {
            assert(other@.take(i as int) =~= other@);
        }
    }

    /// The number of fields.
    pub fn len(&self) -> (r: usize)
        ensures
            r == self@.len(),
    {
        self.items.len()
    }
}

// ---------------------------------------------------------------------------------------
// Building
// ---------------------------------------------------------------------------------------

/// A field on the wire.
pub open spec fn field_bytes(tag: u32, value: Seq<u8>) -> Seq<u8> {
    ascii(dec(tag as nat)) + seq![61u8] + value + seq![SOH]
}

/// Fields on the wire.
pub open spec fn fields_bytes(fields: Seq<(u32, Seq<char>)>) -> Seq<u8>
    decreases fields.len(),
{
    if fields.len() == 0 {
        Seq::empty()
    } else {
        fields_bytes(fields.drop_last()) + field_bytes(
            fields.last().0,
            vstd::utf8::encode_utf8(fields.last().1),
        )
    }
}

/// The fields of a message body: the message type, which is the first field, then the
/// sequence number in six digits, then the other fields.
pub open spec fn numbered(fields: Seq<(u32, Seq<char>)>, seq: u32) -> Seq<(u32, Seq<char>)> {
    let number = (34u32, dec_padded(seq as nat, 6));
    if fields.len() == 0 {
        seq![number]
    } else {
        seq![fields[0], number] + fields.skip(1)
    }
}

/// The sum of bytes, modulo 256.
pub open spec fn byte_sum(s: Seq<u8>) -> int
    decreases s.len(),
{
    if s.len() == 0 {
        0
    } else {
        (byte_sum(s.drop_last()) + s.last() as int) % 256
    }
}

/// `8=FIX.4.1` and the SOH behind it.
pub open spec fn begin_bytes() -> Seq<u8> {
    seq![56u8, 61, 70, 73, 88, 46, 52, 46, 49, 1]
}

/// `9=`.
pub open spec fn length_tag() -> Seq<u8> {
    seq![57u8, 61]
}

/// `10=`.
pub open spec fn checksum_tag() -> Seq<u8> {
    seq![49u8, 48, 61]
}

/// The header of a message whose body has `n` bytes.
pub open spec fn header_bytes(n: nat) -> Seq<u8> {
    begin_bytes() + length_tag() + ascii(dec_padded(n, 4)) + seq![SOH]
}

/// The trailer behind `s`: the checksum in three digits.
pub open spec fn trailer_bytes(s: Seq<u8>) -> Seq<u8> {
    checksum_tag() + ascii(dec_fixed(byte_sum(s) as nat, 3)) + seq![SOH]
}

/// A body with its header and trailer.
pub open spec fn framed(body: Seq<u8>) -> Seq<u8> {
    let head = header_bytes(body.len()) + body;
    head + trailer_bytes(head)
}

/// The message that carries `fields` under the sequence number `seq`.
pub open spec fn fix_message(fields: Seq<(u32, Seq<char>)>, seq: u32) -> Seq<u8> {
    framed(fields_bytes(numbered(fields, seq)))
}

/// Appends ASCII text as bytes.
pub fn push_ascii(out: &mut Vec<u8>, s: &str)
    requires
        forall|i: int| 0 <= i < s@.len() ==> '\0' <= #[trigger] s@[i] <= '\u{7f}',
    ensures
        final(out)@ == old(out)@ + ascii(s@),
{
    proof {
        lemma_ascii_encoding(s@);
    }
    append_bytes(out, s.as_bytes());
}

/// Appends a field.
fn push_field(out: &mut Vec<u8>, tag: u32, value: &str)
    ensures
        final(out)@ == old(out)@ + field_bytes(tag, vstd::utf8::encode_utf8(value@)),
{
    proof {
        crate::text::lemma_dec_value(tag as nat);
    }
    push_ascii(out, format_uint(tag as u64).as_str());
    out.push(61);
    append_bytes(out, value.as_bytes());
    out.push(SOH);
    proof {
        assert(out@ =~= old(out)@ + field_bytes(tag, vstd::utf8::encode_utf8(value@)));
    }
}

/// The checksum of a byte string: the sum of its bytes, modulo 256.
pub fn fix_checksum(s: &[u8]) -> (r: u8)
    ensures
        r == byte_sum(s@),
{
    let mut sum: u32 = 0;
    let mut i: usize = 0;
    while i < s.len()
        invariant
            i <= s.len(),
            sum == byte_sum(s@.take(i as int)),
            sum < 256,
        decreases s.len() - i,
    {
        sum = (sum + s[i] as u32) % 256;
        i = i + 1;
        proof {
            assert(s@.take(i as int).drop_last() =~= s@.take(i - 1));
        }
    }
    proof {
        assert(s@.take(i as int) =~= s@);
    }
    sum as u8
}

/// Puts a body between its header and trailer.
pub fn frame(body: &[u8]) -> (r: Vec<u8>)
    ensures
        r@ == framed(body@),
{
    let mut msg: Vec<u8> = Vec::new();
    append_bytes(&mut msg, &[56u8, 61, 70, 73, 88, 46, 52, 46, 49, 1]);
    append_bytes(&mut msg, &[57u8, 61]);
    let ghost a = msg@;
    let n: u64 = body.len() as u64;
    let len_text = format_padded(n, 4);
    proof {
        assert(a =~= begin_bytes() + length_tag());
        lemma_padded_digits(n as nat, 4);
    }
    push_ascii(&mut msg, len_text.as_str());
    msg.push(SOH);
    append_bytes(&mut msg, body);
    let ghost head = msg@;
    proof {
        assert(head =~= header_bytes(body@.len()) + body@);
    }
    let sum = fix_checksum(msg.as_slice());
    append_bytes(&mut msg, &[49u8, 48, 61]);
    let sum_text = format_fixed(sum as u64, 3);
    proof {
        lemma_fixed_digits(sum as nat, 3);
    }
    push_ascii(&mut msg, sum_text.as_str());
    msg.push(SOH);
    proof {
        assert(msg@ =~= head + trailer_bytes(head));
    }
    msg
}

/// Builds the message that carries `fields` under the sequence number `seq`.
pub fn fix_build(fields: &Fields, seq: u32) -> (r: Vec<u8>)
    ensures
        r@ == fix_message(fields@, seq),
{
    let mut body: Vec<u8> = Vec::new();
    let mut all = Fields::new();
    if fields.items.len() > 0 {
        all.put_str(fields.items[0].0, fields.items[0].1.as_str());
    }
    all.put(34, format_padded(seq as u64, 6));
    let mut i: usize = 1;
    let ghost head = all@;
    proof {
        if fields.items.len() > 0 {
            assert(head + fields@.subrange(1, 1) =~= head);
        }
    }
    while i < fields.items.len()
        invariant
            1 <= i,
            fields.items.len() > 0 ==> i <= fields.items.len(),
            fields.items.len() > 0 ==> all@ == head + fields@.subrange(1, i as int),
            fields.items.len() == 0 ==> all@ == head,
        decreases fields.items.len() - i,
    {
        all.put_str(fields.items[i].0, fields.items[i].1.as_str());
        i = i + 1;
        proof {
            assert(all@ =~= head + fields@.subrange(1, i as int));
        }
    }
    proof {
        assert(all@ =~= numbered(fields@, seq));
    }
    let mut k: usize = 0;
    while k < all.items.len()
        invariant
            k <= all.items.len(),
            body@ == fields_bytes(all@.take(k as int)),
        decreases all.items.len() - k,
    {
        push_field(&mut body, all.items[k].0, all.items[k].1.as_str());
        k = k + 1;
        proof {
            assert(all@.take(k as int).drop_last() =~= all@.take(k - 1));
        }
    }
    proof {
        assert(all@.take(k as int) =~= all@);
    }
    frame(body.as_slice())
}

// ---------------------------------------------------------------------------------------
// Parsing
// ---------------------------------------------------------------------------------------

/// The tag and value of one field, split at its first equals sign. `None` when there is none
/// or the tag is not a number.
pub open spec fn field_of(piece: Seq<u8>) -> Option<(u32, Seq<char>)> {
    match find_from(piece, seq![61u8], 0) {
        None => None,
        Some(eq) => match number(piece.take(eq), u32::MAX as int) {
            None => None,
            Some(tag) => Some((tag as u32, read_text(piece.skip(eq + 1)))),
        },
    }
}

/// The values by tag of a list of fields; of fields with the same tag the last counts.
pub open spec fn values_of(pieces: Seq<Seq<u8>>) -> Map<u32, Seq<char>>
    decreases pieces.len(),
{
    if pieces.len() == 0 {
        Map::empty()
    } else {
        let m = values_of(pieces.drop_last());
        match field_of(pieces.last()) {
            None => m,
            Some((tag, value)) => m.insert(tag, value),
        }
    }
}

/// The values by tag of a message.
pub open spec fn fix_values(msg: Seq<u8>) -> Map<u32, Seq<char>> {
    values_of(split(msg, SOH))
}

/// The texts that a map of strings holds.
pub open spec fn map_texts(m: Map<u32, String>) -> Map<u32, Seq<char>> {
    m.map_values(|s: String| s@)
}

/// Reads one field.
pub fn parse_field(piece: &[u8]) -> (r: Option<(u32, String)>)
    ensures
        match r {
            Some((tag, value)) => field_of(piece@) == Some((tag, value@)),
            None => field_of(piece@) is None,
        },
{
    let sign: [u8; 1] = [61];
    proof {
        assert(sign@ =~= seq![61u8]);
    }
    match find_bytes(piece, &sign, 0) {
        None => None,
        Some(eq) => {
            proof {
                crate::text::lemma_find_from(piece@, seq![61u8], 0);
                assert(find_from(piece@, seq![61u8], 0) == Some(eq as int));
                assert(crate::text::occurs_at(piece@, seq![61u8], eq as int));
                assert(piece@.subrange(0, eq as int) =~= piece@.take(eq as int));
            }
            match parse_number(piece, 0, eq, 0xffff_ffff) {
                None => None,
                Some(tag) => {
                    let end: usize = piece.len();
                    let value = slice_vec(piece, eq + 1, end);
                    proof {
                        assert(value@ =~= piece@.skip(eq + 1));
                    }
                    Some((tag as u32, from_utf8_lossy(value.as_slice())))
                },
            }
        },
    }
}

/// The values of a message by tag; of fields with the same tag the last counts.
pub fn fix_parse(msg: &[u8]) -> (r: HashMap<u32, String>)
    ensures
        map_texts(r@) == fix_values(msg@),
{
    let pieces = split_bytes(msg, SOH);
    let ghost p = views(pieces@);
    let mut out: HashMap<u32, String> = HashMap::new();
    let mut i: usize = 0;
    proof {
        assert(map_texts(out@) =~= values_of(p.take(0)));
    }
    while i < pieces.len()
        invariant
            i <= pieces.len(),
            p == views(pieces@),
            map_texts(out@) == values_of(p.take(i as int)),
        decreases pieces.len() - i,
    {
        let ghost before = out@;
        proof {
            assert(p.take(i + 1).drop_last() =~= p.take(i as int));
            assert(p[i as int] == pieces@[i as int]@);
        }
        match parse_field(pieces[i].as_slice()) {
            None => {},
            Some((tag, value)) => {
                let ghost text = value@;
                out.insert(tag, value);
                proof {
                    assert(map_texts(out@) =~= map_texts(before).insert(tag, text));
                }
            },
        }
        i = i + 1;
    }
    proof {
        assert(p.take(i as int) =~= p);
    }
    out
}

/// The value under a tag.
pub open spec fn lookup(m: Map<u32, Seq<char>>, tag: u32) -> Option<Seq<char>> {
    if m.contains_key(tag) {
        Some(m[tag])
    } else {
        None
    }
}

/// The value under a tag, or the empty text.
pub open spec fn lookup_or_empty(m: Map<u32, Seq<char>>, tag: u32) -> Seq<char> {
    if m.contains_key(tag) {
        m[tag]
    } else {
        Seq::empty()
    }
}

/// The value under a tag.
pub fn get_field<'a>(m: &'a HashMap<u32, String>, tag: u32) -> (r: Option<&'a String>)
    ensures
        match r {
            Some(s) => lookup(map_texts(m@), tag) == Some(s@),
            None => lookup(map_texts(m@), tag) is None,
        },
{
    m.get(&tag)
}

/// Whether the value under a tag is the given text.
pub fn field_is(m: &HashMap<u32, String>, tag: u32, text: &str) -> (r: bool)
    ensures
        r == (lookup(map_texts(m@), tag) == Some(text@)),
{
    match get_field(m, tag) {
        Some(s) => text_eq(s.as_str(), text),
        None => false,
    }
}

/// The value under a tag, or the empty text.
pub fn field_or_empty(m: &HashMap<u32, String>, tag: u32) -> (r: String)
    ensures
        r@ == lookup_or_empty(map_texts(m@), tag),
{
    match get_field(m, tag) {
        Some(s) => s.clone(),
        None => String::new(),
    }
}

// ---------------------------------------------------------------------------------------
// What a built message holds
// ---------------------------------------------------------------------------------------

/// Whether a field's value holds no SOH, so that the field ends where its SOH stands.
pub open spec fn sendable(field: (u32, Seq<char>)) -> bool {
    let value = vstd::utf8::encode_utf8(field.1);
    forall|i: int| 0 <= i < value.len() ==> #[trigger] value[i] != SOH
}

/// A field on the wire, without the SOH behind it.
pub open spec fn piece_of(field: (u32, Seq<char>)) -> Seq<u8> {
    ascii(dec(field.0 as nat)) + seq![61u8] + vstd::utf8::encode_utf8(field.1)
}

/// Fields on the wire, without the SOH behind each.
pub open spec fn pieces_of(fields: Seq<(u32, Seq<char>)>) -> Seq<Seq<u8>> {
    fields.map_values(|f: (u32, Seq<char>)| piece_of(f))
}

/// The pieces of a whole message.
pub open spec fn message_pieces(fields: Seq<(u32, Seq<char>)>, seq: u32) -> Seq<Seq<u8>> {
    let body = fields_bytes(numbered(fields, seq));
    let head = header_bytes(body.len()) + body;
    seq![begin_bytes().drop_last(), length_tag() + ascii(dec_padded(body.len(), 4))] + pieces_of(
        numbered(fields, seq),
    ) + seq![checksum_tag() + ascii(dec_fixed(byte_sum(head) as nat, 3))]
}

proof fn lemma_fields_terminated(fields: Seq<(u32, Seq<char>)>)
    ensures
        fields_bytes(fields) == terminated(pieces_of(fields), SOH),
    decreases fields.len(),
{
    if fields.len() > 0 {
        lemma_fields_terminated(fields.drop_last());
        assert(pieces_of(fields).drop_last() =~= pieces_of(fields.drop_last()));
        assert(fields_bytes(fields) =~= terminated(pieces_of(fields), SOH));
    }
}

proof fn lemma_terminated_concat(a: Seq<Seq<u8>>, b: Seq<Seq<u8>>)
    ensures
        terminated(a + b, SOH) == terminated(a, SOH) + terminated(b, SOH),
    decreases b.len(),
{
    if b.len() == 0 {
        assert(a + b =~= a);
        assert(terminated(a, SOH) + terminated(b, SOH) =~= terminated(a, SOH));
    } else {
        lemma_terminated_concat(a, b.drop_last());
        assert((a + b).drop_last() =~= a + b.drop_last());
        assert(terminated(a + b, SOH) =~= terminated(a, SOH) + terminated(b, SOH));
    }
}

/// A built message is its pieces, each closed by SOH.
proof fn lemma_message_terminated(fields: Seq<(u32, Seq<char>)>, seq: u32)
    ensures
        fix_message(fields, seq) == terminated(message_pieces(fields, seq), SOH),
{
    let inner = pieces_of(numbered(fields, seq));
    let body = fields_bytes(numbered(fields, seq));
    let head = header_bytes(body.len()) + body;
    let p8 = begin_bytes().drop_last();
    let p9 = length_tag() + ascii(dec_padded(body.len(), 4));
    let p10 = checksum_tag() + ascii(dec_fixed(byte_sum(head) as nat, 3));
    lemma_fields_terminated(numbered(fields, seq));
    lemma_terminated_concat(seq![p8, p9] + inner, seq![p10]);
    lemma_terminated_concat(seq![p8, p9], inner);
    reveal_with_fuel(terminated, 3);
    assert(seq![p8, p9].drop_last() =~= seq![p8]);
    assert(seq![p8].drop_last() =~= Seq::<Seq<u8>>::empty());
    assert(seq![p10].drop_last() =~= Seq::<Seq<u8>>::empty());
    assert(terminated(seq![p8, p9], SOH) =~= header_bytes(body.len()));
    assert(terminated(seq![p10], SOH) =~= trailer_bytes(head));
    assert(fix_message(fields, seq) =~= terminated(message_pieces(fields, seq), SOH));
}

/// The pieces of a message hold no SOH.
proof fn lemma_pieces_separator_free(fields: Seq<(u32, Seq<char>)>, seq: u32)
    requires
        forall|i: int| 0 <= i < fields.len() ==> sendable(#[trigger] fields[i]),
    ensures
        separator_free(message_pieces(fields, seq), SOH),
{
    let all = message_pieces(fields, seq);
    let inner = numbered(fields, seq);
    let body = fields_bytes(inner);
    let head = header_bytes(body.len()) + body;
    lemma_padded_digits(body.len(), 4);
    lemma_fixed_digits(byte_sum(head) as nat, 3);
    lemma_padded_digits(seq as nat, 6);
    assert forall|i: int, j: int| 0 <= i < all.len() && 0 <= j < all[i].len() implies
        #[trigger] all[i][j] != SOH by {
        if i == 0 {
        } else if i == 1 {
            let t = dec_padded(body.len(), 4);
            if j >= 2 {
                assert(crate::text::is_digit(t[j - 2]));
            }
        } else if i == all.len() - 1 {
            let t = dec_fixed(byte_sum(head) as nat, 3);
            if j >= 3 {
                assert(crate::text::is_digit(t[j - 3]));
            }
        } else {
            let f = inner[i - 2];
            assert(all[i] == piece_of(f));
            let t = dec(f.0 as nat);
            crate::text::lemma_dec_value(f.0 as nat);
            if j < t.len() {
                assert(crate::text::is_digit(t[j]));
            } else if j > t.len() {
                let value = vstd::utf8::encode_utf8(f.1);
                if f.0 == 34 && f.1 == dec_padded(seq as nat, 6) {
                    lemma_ascii_encoding(f.1);
                    assert(crate::text::is_digit(f.1[j - t.len() - 1]));
                } else {
                    if fields.len() > 0 && i == 2 {
                        assert(sendable(fields[0]));
                    } else {
                        assert(f == fields[i - 3]);
                        assert(sendable(fields[i - 3]));
                    }
                }
                assert(value[j - t.len() - 1] != SOH);
            }
        }
    }
}

/// A field's piece reads back as the field.
proof fn lemma_piece_reads_back(field: (u32, Seq<char>))
    ensures
        field_of(piece_of(field)) == Some(field),
{
    let p = piece_of(field);
    let t = dec(field.0 as nat);
    crate::text::lemma_dec_value(field.0 as nat);
    let eq = t.len() as int;
    assert(p.subrange(eq, eq + 1) =~= seq![61u8]);
    assert forall|j: int| 0 <= j < eq implies !#[trigger] crate::text::occurs_at(
        p,
        seq![61u8],
        j,
    ) by {
        if crate::text::occurs_at(p, seq![61u8], j) {
            crate::text::lemma_occurs_index(p, seq![61u8], j, 0);
            assert(crate::text::is_digit(t[j]));
        }
    }
    crate::text::lemma_find_first(p, seq![61u8], 0, eq);
    assert(p.take(eq) =~= ascii(t));
    lemma_latin_ascii(t);
    crate::text::lemma_int_text_parses(field.0 as int, 0, u32::MAX as int);
    assert(p.skip(eq + 1) =~= vstd::utf8::encode_utf8(field.1));
    crate::text::lemma_read_text(field.1);
}

/// Whether a piece is no field with the tag.
spec fn lacks_tag(piece: Seq<u8>, tag: u32) -> bool {
    field_of(piece) matches Some((t, v)) ==> t != tag
}

proof fn lemma_values_last(pieces: Seq<Seq<u8>>, k: int, tag: u32, value: Seq<char>)
    requires
        0 <= k < pieces.len(),
        field_of(pieces[k]) == Some((tag, value)),
        forall|j: int|
            k < j < pieces.len() ==> lacks_tag(#[trigger] pieces[j], tag),
    ensures
        values_of(pieces).contains_key(tag),
        values_of(pieces)[tag] == value,
    decreases pieces.len(),
{
    if k < pieces.len() - 1 {
        let init = pieces.drop_last();
        assert forall|j: int| k < j < init.len() implies lacks_tag(#[trigger] init[j], tag) by {
            assert(init[j] == pieces[j]);
            assert(lacks_tag(pieces[j], tag));
        }
        lemma_values_last(init, k, tag, value);
        assert(lacks_tag(pieces[pieces.len() - 1], tag));
    }
}

proof fn lemma_trailer_field(n: nat)
    requires
        n < 256,
    ensures
        ({
            let f = field_of(checksum_tag() + ascii(dec_fixed(n, 3)));
            f is Some && (f->0).0 == 10
        }),
{
    let v = dec_fixed(n, 3);
    lemma_fixed_digits(n, 3);
    lemma_ascii_encoding(v);
    let f = (10u32, v);
    reveal_with_fuel(dec, 2);
    assert(dec(10) =~= seq!['1', '0']);
    assert(ascii(dec(10)) =~= seq![49u8, 48u8]);
    assert(piece_of(f) =~= checksum_tag() + ascii(v));
    lemma_piece_reads_back(f);
}

/// Parsing a built message gives back each field's value, for values without SOH: the value
/// under a tag is that of the last field with the tag. The tags 10 and, for the first field,
/// 34 are those of the checksum and the sequence number.
pub proof fn law_fix_round_trip(fields: Seq<(u32, Seq<char>)>, seq: u32, k: int)
    requires
        forall|i: int| 0 <= i < fields.len() ==> sendable(#[trigger] fields[i]),
        0 <= k < fields.len(),
        forall|j: int| k < j < fields.len() ==> (#[trigger] fields[j]).0 != fields[k].0,
        fields[k].0 != 10,
        k == 0 ==> fields[k].0 != 34,
    ensures
        fix_values(fix_message(fields, seq)).contains_key(fields[k].0),
        fix_values(fix_message(fields, seq))[fields[k].0] == fields[k].1,
{
    let all = message_pieces(fields, seq);
    let inner = numbered(fields, seq);
    let body = fields_bytes(inner);
    let head = header_bytes(body.len()) + body;
    lemma_message_terminated(fields, seq);
    lemma_pieces_separator_free(fields, seq);
    crate::text::lemma_split_terminated(all, SOH);
    let pieces = all.push(Seq::empty());
    let at = if k == 0 {
        2
    } else {
        k + 3
    };
    assert(pieces[at] == piece_of(fields[k]));
    lemma_piece_reads_back(fields[k]);
    assert forall|j: int| at < j < pieces.len() implies lacks_tag(
        #[trigger] pieces[j],
        fields[k].0,
    ) by {
        if j == pieces.len() - 1 {
            assert(pieces[j] =~= Seq::<u8>::empty());
            assert(find_from(pieces[j], seq![61u8], 0) is None);
        } else if j == pieces.len() - 2 {
            lemma_byte_sum_range(head);
            lemma_trailer_field(byte_sum(head) as nat);
        } else {
            lemma_piece_reads_back(inner[j - 2]);
            assert(pieces[j] == piece_of(inner[j - 2]));
            if j > 3 {
                assert(inner[j - 2] == fields[j - 3]);
                assert(fields[j - 3].0 != fields[k].0);
            }
        }
    }
    lemma_values_last(pieces, at, fields[k].0, fields[k].1);
}

proof fn lemma_byte_sum_range(s: Seq<u8>)
    ensures
        0 <= byte_sum(s) < 256,
{
}

// ---------------------------------------------------------------------------------------
// Where a built message ends
// ---------------------------------------------------------------------------------------

/// `9=` and the SOH before it.
pub open spec fn soh_length_tag() -> Seq<u8> {
    seq![SOH, 57u8, 61]
}

/// The first message in a buffer, and how many bytes it takes. A buffer that does not start
/// with `8=` gives an empty message, and the number of bytes before the next `8=`.
pub open spec fn first_frame(buf: Seq<u8>) -> Option<(Seq<u8>, int)> {
    if buf.len() < 10 {
        None
    } else if !crate::text::starts_with(buf, seq![56u8, 61]) {
        match find_from(buf, seq![56u8, 61], 0) {
            None => None,
            Some(next) => Some((Seq::empty(), next)),
        }
    } else {
        match find_from(buf, soh_length_tag(), 0) {
            None => None,
            Some(tag9) => match find_from(buf, seq![SOH], tag9 + 3) {
                None => None,
                Some(soh) => match number(buf.subrange(tag9 + 3, soh), usize::MAX as int) {
                    None => None,
                    Some(body_len) => {
                        let total = soh + 1 + body_len + 7;
                        if buf.len() < total {
                            None
                        } else {
                            Some((buf.take(total), total))
                        }
                    },
                },
            },
        }
    }
}

/// Extracts one complete message from a buffer: the message and the number of bytes it takes,
/// or `None` when it is not complete. A buffer that does not start with `8=` gives an empty
/// message, and the number of bytes to skip.
pub fn try_frame(buf: &[u8]) -> (r: Option<(Vec<u8>, usize)>)
    ensures
        match r {
            Some((msg, n)) => first_frame(buf@) == Some((msg@, n as int)) && n <= buf@.len(),
            None => first_frame(buf@) is None,
        },
{
    if buf.len() < 10 {
        return None;
    }
    let start: [u8; 2] = [56, 61];
    proof {
        assert(start@ =~= seq![56u8, 61]);
        assert(buf@.subrange(0, 2) =~= buf@.take(2));
    }
    if !crate::text::bytes_at(buf, &start, 0) {
        return match find_bytes(buf, &start, 0) {
            None => None,
            Some(next) => {
                proof {
                    crate::text::lemma_find_from(buf@, seq![56u8, 61], 0);
                }
                let none: Vec<u8> = Vec::new();
                proof {
                    assert(none@ =~= Seq::empty());
                }
                Some((none, next))
            },
        };
    }
    let tag: [u8; 3] = [SOH, 57, 61];
    let soh_byte: [u8; 1] = [SOH];
    proof {
        assert(tag@ =~= soh_length_tag());
        assert(soh_byte@ =~= seq![SOH]);
        crate::text::lemma_find_from(buf@, soh_length_tag(), 0);
    }
    let tag9 = match find_bytes(buf, &tag, 0) {
        None => return None,
        Some(i) => i,
    };
    let n: usize = buf.len();
    proof {
        crate::text::lemma_find_from(buf@, seq![SOH], tag9 + 3);
        assert(crate::text::occurs_at(buf@, soh_length_tag(), tag9 as int));
    }
    let soh = match find_bytes(buf, &soh_byte, tag9 + 3) {
        None => return None,
        Some(i) => i,
    };
    proof {
        assert(crate::text::occurs_at(buf@, seq![SOH], soh as int));
    }
    let body_len = match parse_number(buf, tag9 + 3, soh, usize::MAX as u64) {
        None => return None,
        Some(v) => v as usize,
    };
    let rest: usize = n - (soh + 1);
    if rest < 7 || body_len > rest - 7 {
        return None;
    }
    let total: usize = soh + 1 + body_len + 7;
    let msg = slice_vec(buf, 0, total);
    proof {
        assert(msg@ =~= buf@.take(total as int));
    }
    Some((msg, total))
}

/// A framed body is extracted whole from a buffer that starts with it, whatever follows.
pub proof fn law_frame_extracted(body: Seq<u8>, rest: Seq<u8>)
    requires
        body.len() <= usize::MAX,
    ensures
        first_frame(framed(body) + rest) == Some((framed(body), framed(body).len() as int)),
{
    let m = framed(body);
    let buf = m + rest;
    let n = body.len();
    let digits = dec_padded(n, 4);
    let head = header_bytes(n) + body;
    lemma_padded_digits(n, 4);
    lemma_padded_value(n, 4);
    lemma_fixed_digits(byte_sum(head) as nat, 3);
    assert(begin_bytes().len() == 10);
    assert(m.len() == 10 + 2 + digits.len() + 1 + n + 7);
    assert(buf.take(2) =~= seq![56u8, 61]);
    assert forall|i: int| 0 <= i < 10 implies buf[i] == #[trigger] begin_bytes()[i] by {}
    assert(buf.subrange(9, 12) =~= soh_length_tag());
    assert forall|j: int| 0 <= j < 9 implies !#[trigger] crate::text::occurs_at(
        buf,
        soh_length_tag(),
        j,
    ) by {
        if crate::text::occurs_at(buf, soh_length_tag(), j) {
            crate::text::lemma_occurs_index(buf, soh_length_tag(), j, 0);
            assert(begin_bytes()[j] != SOH);
        }
    }
    crate::text::lemma_find_first(buf, soh_length_tag(), 0, 9);
    let soh = 12 + digits.len() as int;
    assert(buf.subrange(soh, soh + 1) =~= seq![SOH]);
    assert forall|j: int| 12 <= j < soh implies !#[trigger] crate::text::occurs_at(
        buf,
        seq![SOH],
        j,
    ) by {
        if crate::text::occurs_at(buf, seq![SOH], j) {
            crate::text::lemma_occurs_index(buf, seq![SOH], j, 0);
            assert(buf[j] == ascii(digits)[j - 12]);
            assert(crate::text::is_digit(digits[j - 12]));
        }
    }
    crate::text::lemma_find_first(buf, seq![SOH], 12, soh);
    assert(buf.subrange(12, soh) =~= ascii(digits));
    lemma_latin_ascii(digits);
    assert(crate::text::is_digit(digits[0]));
    assert(number(buf.subrange(12, soh), usize::MAX as int) == Some(n as int));
    assert(buf.take(m.len() as int) =~= m);
}

/// The decimal notation of a number reads as that number.
pub proof fn lemma_number_ascii(n: nat, hi: int)
    requires
        n <= hi,
    ensures
        number(ascii(dec(n)), hi) == Some(n as int),
{
    crate::text::lemma_dec_value(n);
    lemma_latin_ascii(dec(n));
    crate::text::lemma_int_text_parses(n as int, 0, hi);
}

/// `95=`.
pub open spec fn raw_data_tag() -> Seq<u8> {
    seq![57u8, 53, 61]
}

/// A tag and the SOH before it.
pub open spec fn behind_soh(tag: Seq<u8>) -> Seq<u8> {
    seq![SOH] + tag
}

/// Where an SOH and a tag stand in closed pieces, a piece ends and the next starts with the
/// tag. Gives the index of the next piece.
proof fn lemma_tag_starts_piece(all: Seq<Seq<u8>>, tag: Seq<u8>, p: int) -> (i: int)
    requires
        separator_free(all, SOH),
        tag.len() > 0,
        forall|k: int| 0 <= k < tag.len() ==> #[trigger] tag[k] != SOH,
        crate::text::occurs_at(terminated(all, SOH), behind_soh(tag), p),
    ensures
        0 < i < all.len(),
        p == terminated(all.take(i), SOH).len() - 1,
        crate::text::starts_with(all[i], tag),
    decreases all.len(),
{
    let s = terminated(all, SOH);
    let pat = behind_soh(tag);
    crate::text::lemma_occurs_index(s, pat, p, 0);
    if all.len() == 0 {
        0
    } else {
        let init = all.drop_last();
        let last = all.last();
        let head = terminated(init, SOH);
        assert(s == (head + last).push(SOH));
        assert forall|i: int, j: int| 0 <= i < init.len() && 0 <= j < init[i].len() implies
            #[trigger] init[i][j] != SOH by {
            assert(all[i][j] != SOH);
        }
        if p + pat.len() <= head.len() {
            assert(head.subrange(p, p + pat.len()) =~= s.subrange(p, p + pat.len()));
            let i = lemma_tag_starts_piece(init, tag, p);
            assert(init.take(i) =~= all.take(i));
            i
        } else {
            let last_index = all.len() - 1;
            if p < head.len() {
                if p < head.len() - 1 {
                    // The SOH that closes the head would stand inside the tag.
                    let k = head.len() - 1 - p;
                    crate::text::lemma_occurs_index(s, pat, p, k);
                    assert(init.len() > 0);
                    assert(head.last() == SOH);
                    assert(s[p + k] == SOH);
                    assert(pat[k] == tag[k - 1]);
                    assert(false);
                }
                if last.len() < tag.len() {
                    let k = last.len() + 1;
                    crate::text::lemma_occurs_index(s, pat, p, k as int);
                    assert(s[p + k] == SOH);
                    assert(pat[k as int] == tag[k - 1]);
                    assert(false);
                }
                assert forall|k: int| 0 <= k < tag.len() implies last[k] == #[trigger] tag[k] by {
                    crate::text::lemma_occurs_index(s, pat, p, k + 1);
                    assert(s[p + k + 1] == last[k]);
                    assert(pat[k + 1] == tag[k]);
                }
                assert(last.take(tag.len() as int) =~= tag);
                assert(all.take(last_index) =~= init);
                if init.len() == 0 {
                    assert(head.len() == 0);
                }
                last_index
            } else {
                if p < s.len() - 1 {
                    assert(s[p] == last[p - head.len()]);
                    assert(all[last_index][p - head.len()] != SOH);
                }
                assert(false);
                last_index
            }
        }
    }
}

/// Where the SOH before the checksum field of a built message stands.
pub open spec fn checksum_place(fields: Seq<(u32, Seq<char>)>, seq: u32) -> int {
    fix_message(fields, seq).len() - 8
}

proof fn lemma_piece_tag(field: (u32, Seq<char>), a: u8, b: u8)
    requires
        48 < a <= 57,
        48 <= b <= 57,
        crate::text::starts_with(piece_of(field), seq![a, b, 61u8]),
    ensures
        field.0 == (a - 48) * 10 + (b - 48),
{
    let p = piece_of(field);
    let t = dec(field.0 as nat);
    crate::text::lemma_dec_value(field.0 as nat);
    let pat = seq![a, b, 61u8];
    assert(p.take(3)[0] == a && p.take(3)[1] == b && p.take(3)[2] == 61);
    assert(t.len() == 2) by {
        if t.len() == 1 {
            assert(p[1] == 61);
        }
        if t.len() > 2 {
            assert(p[2] == ascii(t)[2]);
            assert(crate::text::is_digit(t[2]));
        }
    }
    assert(p[0] == ascii(t)[0] && p[1] == ascii(t)[1]);
    assert(crate::text::is_digit(t[0]) && crate::text::is_digit(t[1]));
    assert(t.drop_last().drop_last() =~= Seq::<char>::empty());
    reveal_with_fuel(crate::text::value_of, 3);
}

/// The checksum field of a message built from fields without SOH, none of them under tag 10 or
/// 95, is the first of its tag, and there is no field under tag 95.
pub proof fn lemma_checksum_place(fields: Seq<(u32, Seq<char>)>, seq: u32)
    requires
        forall|i: int| 0 <= i < fields.len() ==> sendable(#[trigger] fields[i]),
        forall|i: int|
            0 <= i < fields.len() ==> (#[trigger] fields[i]).0 != 10 && fields[i].0 != 95,
    ensures
        ({
            let m = fix_message(fields, seq);
            let at = checksum_place(fields, seq);
            &&& at > 0
            &&& m.len() >= 6
            &&& forall|k: int| 0 <= k < 6 ==> m[k] == #[trigger] begin_bytes()[k]
            &&& crate::text::occurs_at(m, behind_soh(checksum_tag()), at)
            &&& m.last() == SOH
            &&& forall|k: int| at < k < m.len() - 1 ==> #[trigger] m[k] != SOH
            &&& forall|j: int|
                0 <= j < at ==> !#[trigger] crate::text::occurs_at(
                    m,
                    behind_soh(checksum_tag()),
                    j,
                )
            &&& forall|j: int|
                !#[trigger] crate::text::occurs_at(m, behind_soh(raw_data_tag()), j)
        }),
{
    let m = fix_message(fields, seq);
    let at = checksum_place(fields, seq);
    let all = message_pieces(fields, seq);
    let inner = numbered(fields, seq);
    let body = fields_bytes(inner);
    let head = header_bytes(body.len()) + body;
    let n = all.len() - 1;
    lemma_message_terminated(fields, seq);
    lemma_pieces_separator_free(fields, seq);
    lemma_padded_digits(body.len(), 4);
    lemma_fixed_digits(byte_sum(head) as nat, 3);
    assert(m == head + trailer_bytes(head));
    assert(trailer_bytes(head).len() == 7);
    lemma_fields_terminated(inner);
    assert(inner.len() > 0);
    assert(body.last() == SOH) by {
        assert(pieces_of(inner).len() > 0);
    }
    assert(at == head.len() - 1);
    assert(m.subrange(at, at + 4) =~= behind_soh(checksum_tag()));
    assert forall|k: int| at < k < m.len() - 1 implies #[trigger] m[k] != SOH by {
        let t = dec_fixed(byte_sum(head) as nat, 3);
        assert(m[k] == trailer_bytes(head)[k - at - 1]);
        if k >= at + 4 {
            assert(crate::text::is_digit(t[k - at - 4]));
        }
    }
    assert forall|j: int| 0 <= j < at implies !#[trigger] crate::text::occurs_at(
        m,
        behind_soh(checksum_tag()),
        j,
    ) by {
        if crate::text::occurs_at(m, behind_soh(checksum_tag()), j) {
            let i = lemma_tag_starts_piece(all, checksum_tag(), j);
            lemma_only_checksum(fields, seq, i, 49, 48);
            assert(i == n);
            lemma_terminated_last(all);
        }
    }
    assert forall|j: int| !#[trigger] crate::text::occurs_at(
        m,
        behind_soh(raw_data_tag()),
        j,
    ) by {
        if crate::text::occurs_at(m, behind_soh(raw_data_tag()), j) {
            let i = lemma_tag_starts_piece(all, raw_data_tag(), j);
            lemma_only_checksum(fields, seq, i, 57, 53);
        }
    }
    assert forall|k: int| 0 <= k < 6 implies m[k] == #[trigger] begin_bytes()[k] by {}
}

proof fn lemma_terminated_last(all: Seq<Seq<u8>>)
    requires
        all.len() > 0,
    ensures
        terminated(all, SOH).len() == terminated(all.take(all.len() - 1), SOH).len()
            + all.last().len() + 1,
{
    assert(all.take(all.len() - 1) =~= all.drop_last());
}

/// No piece of a message but its checksum starts with a two-digit tag that its fields lack.
proof fn lemma_only_checksum(fields: Seq<(u32, Seq<char>)>, seq: u32, i: int, a: u8, b: u8)
    requires
        forall|k: int| 0 <= k < fields.len() ==> (#[trigger] fields[k]).0 != 10,
        forall|k: int| 0 <= k < fields.len() ==> (#[trigger] fields[k]).0 != 95,
        (a == 49 && b == 48) || (a == 57 && b == 53),
        0 <= i < message_pieces(fields, seq).len(),
        crate::text::starts_with(message_pieces(fields, seq)[i], seq![a, b, 61u8]),
    ensures
        a == 49 && i == message_pieces(fields, seq).len() - 1,
{
    let all = message_pieces(fields, seq);
    let inner = numbered(fields, seq);
    let t = all[i].take(3);
    assert(t[0] == a && t[1] == b && t[2] == 61);
    if i == 0 {
        assert(all[0][0] == 56);
    } else if i == 1 {
        assert(all[1][0] == 57 && all[1][1] == 61);
    } else if i < all.len() - 1 {
        assert(all[i] == piece_of(inner[i - 2]));
        lemma_piece_tag(inner[i - 2], a, b);
        if inner[i - 2].0 != 34 {
            if i == 2 && fields.len() > 0 {
                assert(inner[0] == fields[0]);
            } else {
                assert(inner[i - 2] == fields[i - 3]);
            }
        }
    } else {
        assert(all[i][0] == 49);
    }
}

} // verus!
