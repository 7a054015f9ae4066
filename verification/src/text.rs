//! Text and byte-string helpers: decimal notation, comparison, splitting and searching.
//!
//! Text is modelled by the sequence of its characters, and a byte string by the sequence of
//! its bytes.
use vstd::prelude::*;

verus! {

/// `String::push`: appends one character to the end of the text.
pub assume_specification[ String::push ](s: &mut String, c: char)
    ensures
        final(s)@ == old(s)@.push(c),
;

/// `String::from_utf8_lossy`: the text that the bytes encode, for bytes that are valid UTF-8.
/// For other bytes the text holds replacement characters; where they stand is left to
/// [`lossy_text`].
#[verifier::external_body]
pub(crate) fn from_utf8_lossy(bytes: &[u8]) -> (r: String)
    ensures
        r@ == (if vstd::utf8::valid_utf8(bytes@) {
            vstd::utf8::decode_utf8(bytes@)
        } else {
            lossy_text(bytes@)
        }),
{
    String::from_utf8_lossy(bytes).into_owned()
}

/// The text that `String::from_utf8_lossy` reads from bytes that are not valid UTF-8.
pub uninterp spec fn lossy_text(bytes: Seq<u8>) -> Seq<char>;

/// The text that bytes read as: what they encode, or [`lossy_text`] when they are not valid
/// UTF-8.
pub open spec fn read_text(bytes: Seq<u8>) -> Seq<char> {
    if vstd::utf8::valid_utf8(bytes) {
        vstd::utf8::decode_utf8(bytes)
    } else {
        lossy_text(bytes)
    }
}

/// The bytes of a text read back as that text.
pub proof fn lemma_read_text(s: Seq<char>)
    ensures
        read_text(vstd::utf8::encode_utf8(s)) == s,
{
    vstd::utf8::encode_utf8_valid_utf8(s);
    vstd::utf8::encode_utf8_decode_utf8(s);
}

/// `std::str::from_utf8`: the text that the bytes encode, or `None` when they are not valid
/// UTF-8.
#[verifier::external_body]
pub(crate) fn from_utf8(bytes: &[u8]) -> (r: Option<String>)
    ensures
        r is Some <==> vstd::utf8::valid_utf8(bytes@),
        r is Some ==> r->0@ == vstd::utf8::decode_utf8(bytes@),
{
    match std::str::from_utf8(bytes) {
        Ok(s) => Some(s.to_string()),
        Err(_) => None,
    }
}

/// `str::to_uppercase`: the upper case of a text, which Unicode's tables give. Which
/// characters those are is left to [`upper_text`].
#[verifier::external_body]
pub(crate) fn to_uppercase(s: &str) -> (r: String)
    ensures
        r@ == upper_text(s@),
{
    s.to_uppercase()
}

/// The upper case of a text, as `str::to_uppercase` gives it.
pub uninterp spec fn upper_text(s: Seq<char>) -> Seq<char>;

// ---------------------------------------------------------------------------------------
// Decimal notation
// ---------------------------------------------------------------------------------------

/// The decimal digit `d` (0 to 9) as a character.
pub open spec fn digit(d: int) -> char {
    (48 + d) as char
}

/// The decimal notation of `n`, without leading zeros.
pub open spec fn dec(n: nat) -> Seq<char>
    decreases n,
{
    if n < 10 {
        seq![digit(n as int)]
    } else {
        dec(n / 10).push(digit((n % 10) as int))
    }
}

/// The decimal notation of `i`, with a leading minus sign when negative.
pub open spec fn int_text(i: int) -> Seq<char> {
    if i < 0 {
        seq!['-'] + dec((-i) as nat)
    } else {
        dec(i as nat)
    }
}

/// `width` digits: the decimal notation of `n` modulo `10^width`, with leading zeros.
pub open spec fn dec_fixed(n: nat, width: nat) -> Seq<char>
    decreases width,
{
    if width == 0 {
        Seq::empty()
    } else {
        dec_fixed(n / 10, (width - 1) as nat).push(digit((n % 10) as int))
    }
}

/// The decimal notation of `n`, with leading zeros up to a width of `width`.
pub open spec fn dec_padded(n: nat, width: nat) -> Seq<char>
    decreases n, width,
{
    if n < 10 {
        dec_fixed(n, if width == 0 { 1 } else { width })
    } else {
        dec_padded(n / 10, if width == 0 { 0 } else { (width - 1) as nat }).push(
            digit((n % 10) as int),
        )
    }
}

pub open spec fn is_digit(c: char) -> bool {
    '0' <= c <= '9'
}

/// Whether `s` is one decimal digit or more.
pub open spec fn is_number(s: Seq<char>) -> bool {
    s.len() > 0 && forall|i: int| 0 <= i < s.len() ==> is_digit(#[trigger] s[i])
}

/// The number that the digits `s` denote.
pub open spec fn value_of(s: Seq<char>) -> nat
    decreases s.len(),
{
    if s.len() == 0 {
        0
    } else {
        value_of(s.drop_last()) * 10 + (s.last() as int - 48) as nat
    }
}

/// The number that `s` reads as, if it is an optional sign (a minus only where `lo` is
/// negative) and digits, and lies between `lo` and `hi`.
pub open spec fn parsed_int(s: Seq<char>, lo: int, hi: int) -> Option<int> {
    let neg = lo < 0 && s.len() > 0 && s[0] == '-';
    let digits = if neg || (s.len() > 0 && s[0] == '+') { s.skip(1) } else { s };
    let v = if neg { -(value_of(digits) as int) } else { value_of(digits) as int };
    if is_number(digits) && lo <= v <= hi {
        Some(v)
    } else {
        None
    }
}

/// `n` in decimal notation.
pub fn format_uint(n: u64) -> (r: String)
    ensures
        r@ == dec(n as nat),
    decreases n,
{
    if n < 10 {
        let mut out = String::new();
        out.push((48u8 + n as u8) as char);
        proof {
            assert(out@ =~= dec(n as nat));
        }
        out
    } else {
        let mut out = format_uint(n / 10);
        out.push((48u8 + (n % 10) as u8) as char);
        out
    }
}

/// `i` in decimal notation.
pub fn format_int(i: i64) -> (r: String)
    ensures
        r@ == int_text(i as int),
{
    if i < 0 {
        let magnitude: u64 = (-(i as i128)) as u64;
        let mut out = String::new();
        out.push('-');
        let digits = format_uint(magnitude);
        out.append(digits.as_str());
        proof {
            assert(out@ =~= int_text(i as int));
        }
        out
    } else {
        format_uint(i as u64)
    }
}

/// The last `width` digits of `n`, with leading zeros.
pub fn format_fixed(n: u64, width: usize) -> (r: String)
    ensures
        r@ == dec_fixed(n as nat, width as nat),
    decreases width,
{
    if width == 0 {
        String::new()
    } else {
        let mut out = format_fixed(n / 10, width - 1);
        out.push((48u8 + (n % 10) as u8) as char);
        out
    }
}

/// `n` in decimal notation, with leading zeros up to a width of `width`.
pub fn format_padded(n: u64, width: usize) -> (r: String)
    ensures
        r@ == dec_padded(n as nat, width as nat),
    decreases n,
{
    if n < 10 {
        format_fixed(n, if width == 0 { 1 } else { width })
    } else {
        let mut out = format_padded(n / 10, if width == 0 { 0 } else { width - 1 });
        out.push((48u8 + (n % 10) as u8) as char);
        out
    }
}

/// The hexadecimal digit `d` (0 to 15) as a lower-case character.
pub open spec fn hex_digit(d: int) -> char {
    if d < 10 {
        (48 + d) as char
    } else {
        (87 + d) as char
    }
}

/// The hexadecimal notation of `n`, in lower case and without leading zeros.
pub open spec fn hex(n: nat) -> Seq<char>
    decreases n,
{
    if n < 16 {
        seq![hex_digit(n as int)]
    } else {
        hex(n / 16).push(hex_digit((n % 16) as int))
    }
}

/// `n` in hexadecimal notation.
pub fn format_hex(n: u64) -> (r: String)
    ensures
        r@ == hex(n as nat),
    decreases n,
{
    let d: u8 = (n % 16) as u8;
    let c: char = if d < 10 {
        (48 + d) as char
    } else {
        (87 + d) as char
    };
    if n < 16 {
        let mut out = String::new();
        out.push(c);
        proof {
            assert(out@ =~= hex(n as nat));
        }
        out
    } else {
        let mut out = format_hex(n / 16);
        out.push(c);
        out
    }
}

/// Decimal notation has a digit or more, and denotes the number it was made from.
pub proof fn lemma_dec_value(n: nat)
    ensures
        is_number(dec(n)),
        value_of(dec(n)) == n,
    decreases n,
{
    reveal_with_fuel(value_of, 2);
    if n < 10 {
        assert(dec(n).drop_last() =~= Seq::<char>::empty());
        assert(value_of(dec(n)) == n);
    } else {
        lemma_dec_value(n / 10);
        assert(dec(n).drop_last() =~= dec(n / 10));
    }
}

/// What the decimal notation of a number in range reads back as: that number.
pub proof fn lemma_int_text_parses(i: int, lo: int, hi: int)
    requires
        lo <= i <= hi,
    ensures
        parsed_int(int_text(i), lo, hi) == Some(i),
{
    if i < 0 {
        lemma_dec_value((-i) as nat);
        assert(int_text(i).skip(1) =~= dec((-i) as nat));
    } else {
        lemma_dec_value(i as nat);
        assert(is_digit(dec(i as nat)[0]));
    }
}

/// The digits of `s` from `from` on, as a number of at most `max`.
fn parse_digits(s: &[char], from: usize, max: u64) -> (r: Option<u64>)
    requires
        from <= s.len(),
    ensures
        r == (if is_number(s@.skip(from as int)) && value_of(s@.skip(from as int)) <= max {
            Some(value_of(s@.skip(from as int)) as u64)
        } else {
            None
        }),
{
    let ghost t = s@.skip(from as int);
    if from == s.len() {
        return None;
    }
    let mut v: u64 = 0;
    let mut i: usize = from;
    let mut over: bool = false;
    while i < s.len()
        invariant
            from <= i <= s.len(),
            t == s@.skip(from as int),
            forall|k: int| 0 <= k < i - from ==> is_digit(#[trigger] t[k]),
            !over ==> v == value_of(t.take(i - from)) && v <= max,
            over ==> value_of(t.take(i - from)) > max,
        decreases s.len() - i,
    {
        let c = s[i];
        proof {
            assert(t[i - from] == c);
            assert(t.take(i - from + 1).drop_last() =~= t.take(i - from));
        }
        if c < '0' || c > '9' {
            return None;
        }
        let d: u64 = (c as u32 - 48) as u64;
        if !over {
            let wide: u128 = v as u128 * 10 + d as u128;
            if wide > max as u128 {
                over = true;
            } else {
                v = wide as u64;
            }
        }
        i = i + 1;
    }
    proof {
        assert(t.take(i - from) =~= t);
    }
    if over {
        None
    } else {
        Some(v)
    }
}

/// Reads an unsigned number of at most `max`, as `str::parse` does.
pub fn parse_unsigned(s: &str, max: u64) -> (r: Option<u64>)
    ensures
        r is Some == parsed_int(s@, 0, max as int) is Some,
        r is Some ==> r->0 == parsed_int(s@, 0, max as int)->0,
{
    let chars = chars_of(s);
    let start: usize = if chars.len() > 0 && chars[0] == '+' { 1 } else { 0 };
    proof {
        assert(s@.skip(0) =~= s@);
    }
    parse_digits(chars.as_slice(), start, max)
}

/// Reads a `u32`.
pub fn parse_u32(s: &str) -> (r: Option<u32>)
    ensures
        r is Some == parsed_int(s@, 0, u32::MAX as int) is Some,
        r is Some ==> r->0 == parsed_int(s@, 0, u32::MAX as int)->0,
{
    match parse_unsigned(s, 0xffff_ffff) {
        Some(v) => Some(v as u32),
        None => None,
    }
}

/// Reads a `u64`.
pub fn parse_u64(s: &str) -> (r: Option<u64>)
    ensures
        r is Some == parsed_int(s@, 0, u64::MAX as int) is Some,
        r is Some ==> r->0 == parsed_int(s@, 0, u64::MAX as int)->0,
{
    parse_unsigned(s, 0xffff_ffff_ffff_ffff)
}

/// Reads an `i64`.
pub fn parse_i64(s: &str) -> (r: Option<i64>)
    ensures
        r is Some == parsed_int(s@, i64::MIN as int, i64::MAX as int) is Some,
        r is Some ==> r->0 == parsed_int(s@, i64::MIN as int, i64::MAX as int)->0,
{
    let chars = chars_of(s);
    proof {
        assert(s@.skip(0) =~= s@);
    }
    if chars.len() > 0 && chars[0] == '-' {
        match parse_digits(chars.as_slice(), 1, 0x8000_0000_0000_0000) {
            Some(v) => Some((-(v as i128)) as i64),
            None => None,
        }
    } else {
        let start: usize = if chars.len() > 0 && chars[0] == '+' { 1 } else { 0 };
        match parse_digits(chars.as_slice(), start, 0x7fff_ffff_ffff_ffff) {
            Some(v) => Some(v as i64),
            None => None,
        }
    }
}

// ---------------------------------------------------------------------------------------
// Characters, text and bytes
// ---------------------------------------------------------------------------------------

/// The characters of a text.
pub fn chars_of(s: &str) -> (r: Vec<char>)
    ensures
        r@ == s@,
{
    let mut out: Vec<char> = Vec::new();
    for c in it: s.chars()
        invariant
            it.seq() == s@,
            out@ == s@.take(it.index() as int),
    {
        proof {
            assert(s@.take(it.index() + 1) =~= s@.take(it.index() as int).push(
                s@[it.index() as int],
            ));
        }
        out.push(c);
    }
    proof {
        assert(s@.take(s@.len() as int) =~= s@);
    }
    out
}

/// The text made of the given characters.
pub fn text_of(chars: &[char]) -> (r: String)
    ensures
        r@ == chars@,
{
    let mut out = String::new();
    let mut i: usize = 0;
    while i < chars.len()
        invariant
            i <= chars.len(),
            out@ == chars@.take(i as int),
        decreases chars.len() - i,
    {
        out.push(chars[i]);
        i = i + 1;
        proof {
            assert(chars@.take(i as int) =~= chars@.take(i - 1).push(chars@[i - 1]));
        }
    }
    proof {
        assert(chars@.take(i as int) =~= chars@);
    }
    out
}

/// Two texts, one after the other.
pub fn join(a: &str, b: &str) -> (r: String)
    ensures
        r@ == a@ + b@,
{
    let mut out = a.to_owned();
    out.append(b);
    out
}

/// Whether two texts hold the same characters.
pub fn text_eq(a: &str, b: &str) -> (r: bool)
    ensures
        r == (a@ == b@),
{
    let x = a.as_bytes();
    let y = b.as_bytes();
    proof {
        vstd::utf8::encode_utf8_decode_utf8(a@);
        vstd::utf8::encode_utf8_decode_utf8(b@);
    }
    bytes_eq(x, y)
}

/// Whether two byte strings are equal.
pub fn bytes_eq(a: &[u8], b: &[u8]) -> (r: bool)
    ensures
        r == (a@ == b@),
{
    if a.len() != b.len() {
        return false;
    }
    let mut i: usize = 0;
    while i < a.len()
        invariant
            i <= a.len(),
            a.len() == b.len(),
            a@.take(i as int) == b@.take(i as int),
        decreases a.len() - i,
    {
        if a[i] != b[i] {
            return false;
        }
        i = i + 1;
        proof {
            assert(a@.take(i as int) =~= a@.take(i - 1).push(a@[i - 1]));
            assert(b@.take(i as int) =~= b@.take(i - 1).push(b@[i - 1]));
        }
    }
    proof {
        assert(a@.take(i as int) =~= a@);
        assert(b@.take(i as int) =~= b@);
    }
    true
}

/// The bytes `from..to` of a byte string.
pub fn slice_vec(s: &[u8], from: usize, to: usize) -> (r: Vec<u8>)
    requires
        from <= to <= s.len(),
    ensures
        r@ == s@.subrange(from as int, to as int),
{
    let mut out: Vec<u8> = Vec::new();
    let mut i: usize = from;
    while i < to
        invariant
            from <= i <= to <= s.len(),
            out@ == s@.subrange(from as int, i as int),
        decreases to - i,
    {
        out.push(s[i]);
        i = i + 1;
        proof {
            assert(s@.subrange(from as int, i as int) =~= s@.subrange(from as int, i - 1).push(
                s@[i - 1],
            ));
        }
    }
    out
}

/// Appends a byte string.
pub fn append_bytes(out: &mut Vec<u8>, s: &[u8])
    ensures
        final(out)@ == old(out)@ + s@,
{
    let mut i: usize = 0;
    while i < s.len()
        invariant
            i <= s.len(),
            out@ == old(out)@ + s@.take(i as int),
        decreases s.len() - i,
    {
        out.push(s[i]);
        i = i + 1;
        proof {
            assert(old(out)@ + s@.take(i as int) =~= (old(out)@ + s@.take(i - 1)).push(s@[i - 1]));
        }
    }
    proof {
        assert(s@.take(i as int) =~= s@);
    }
}

// ---------------------------------------------------------------------------------------
// Splitting and searching
// ---------------------------------------------------------------------------------------

/// The pieces of `s` between the separators `sep`; one empty piece for the empty string.
pub open spec fn split<T>(s: Seq<T>, sep: T) -> Seq<Seq<T>>
    decreases s.len(),
{
    if s.len() == 0 {
        seq![Seq::empty()]
    } else {
        let p = split(s.drop_last(), sep);
        if s.last() == sep {
            p.push(Seq::empty())
        } else {
            p.drop_last().push(p.last().push(s.last()))
        }
    }
}

/// The views of a list of vectors.
pub open spec fn views<T>(v: Seq<Vec<T>>) -> Seq<Seq<T>> {
    v.map_values(|x: Vec<T>| x@)
}

pub proof fn lemma_split_nonempty<T>(s: Seq<T>, sep: T)
    ensures
        split(s, sep).len() > 0,
    decreases s.len(),
{
    if s.len() > 0 {
        lemma_split_nonempty(s.drop_last(), sep);
    }
}

/// Pieces, each followed by the separator.
pub open spec fn terminated<T>(pieces: Seq<Seq<T>>, sep: T) -> Seq<T>
    decreases pieces.len(),
{
    if pieces.len() == 0 {
        Seq::empty()
    } else {
        (terminated(pieces.drop_last(), sep) + pieces.last()).push(sep)
    }
}

/// Whether no piece holds the separator.
pub open spec fn separator_free<T>(pieces: Seq<Seq<T>>, sep: T) -> bool {
    forall|i: int, j: int|
        0 <= i < pieces.len() && 0 <= j < pieces[i].len() ==> #[trigger] pieces[i][j] != sep
}

/// Text without the separator extends the last piece.
pub proof fn lemma_split_append_piece<T>(a: Seq<T>, b: Seq<T>, sep: T)
    requires
        forall|i: int| 0 <= i < b.len() ==> #[trigger] b[i] != sep,
    ensures
        split(a + b, sep) == split(a, sep).drop_last().push(split(a, sep).last() + b),
    decreases b.len(),
{
    lemma_split_nonempty(a, sep);
    if b.len() == 0 {
        assert(a + b =~= a);
        let p = split(a, sep);
        assert(p.last() + b =~= p.last());
        assert(p.drop_last().push(p.last()) =~= p);
    } else {
        lemma_split_append_piece(a, b.drop_last(), sep);
        assert((a + b).drop_last() =~= a + b.drop_last());
        let p = split(a, sep);
        let q = p.drop_last().push(p.last() + b.drop_last());
        assert(q.drop_last() =~= p.drop_last());
        assert((p.last() + b.drop_last()).push(b.last()) =~= p.last() + b);
    }
}

/// Terminated pieces split into those pieces and an empty one.
pub proof fn lemma_split_terminated<T>(pieces: Seq<Seq<T>>, sep: T)
    requires
        separator_free(pieces, sep),
    ensures
        split(terminated(pieces, sep), sep) == pieces.push(Seq::empty()),
    decreases pieces.len(),
{
    if pieces.len() == 0 {
        assert(split(terminated(pieces, sep), sep) =~= pieces.push(Seq::empty()));
    } else {
        let init = pieces.drop_last();
        let f = pieces.last();
        assert forall|i: int, j: int| 0 <= i < init.len() && 0 <= j < init[i].len() implies
            #[trigger] init[i][j] != sep by {
            assert(pieces[i][j] != sep);
        }
        lemma_split_terminated(init, sep);
        let a = terminated(init, sep);
        assert forall|j: int| 0 <= j < f.len() implies #[trigger] f[j] != sep by {
            assert(pieces[pieces.len() - 1][j] != sep);
        }
        lemma_split_append_piece(a, f, sep);
        let whole = terminated(pieces, sep);
        assert(whole.drop_last() =~= a + f);
        let s = split(a, sep);
        assert(s == init.push(Seq::empty()));
        assert(s.last() + f =~= f);
        assert(split(whole, sep) =~= pieces.push(Seq::empty()));
    }
}

/// Splits a byte string at every `sep`.
pub fn split_bytes(s: &[u8], sep: u8) -> (r: Vec<Vec<u8>>)
    ensures
        views(r@) == split(s@, sep),
{
    let mut done: Vec<Vec<u8>> = Vec::new();
    let mut piece: Vec<u8> = Vec::new();
    let mut i: usize = 0;
    proof {
        assert(views(done@).push(piece@) =~= split(s@.take(0), sep));
    }
    while i < s.len()
        invariant
            i <= s.len(),
            views(done@).push(piece@) == split(s@.take(i as int), sep),
        decreases s.len() - i,
    {
        let ghost before = views(done@).push(piece@);
        proof {
            assert(s@.take(i + 1).drop_last() =~= s@.take(i as int));
            assert(before.drop_last() =~= views(done@));
        }
        if s[i] == sep {
            let ghost old_done = done@;
            let ghost old_piece = piece;
            done.push(piece);
            piece = Vec::new();
            proof {
                assert(views(done@) =~= views(old_done).push(old_piece@));
                assert(views(done@).push(piece@) =~= before.push(Seq::empty()));
            }
        } else {
            piece.push(s[i]);
        }
        i = i + 1;
    }
    let ghost old_done = done@;
    let ghost old_piece = piece;
    done.push(piece);
    proof {
        assert(views(done@) =~= views(old_done).push(old_piece@));
        assert(s@.take(i as int) =~= s@);
    }
    done
}

/// Splits a text at every `sep`.
pub fn split_chars(s: &[char], sep: char) -> (r: Vec<Vec<char>>)
    ensures
        views(r@) == split(s@, sep),
{
    let mut done: Vec<Vec<char>> = Vec::new();
    let mut piece: Vec<char> = Vec::new();
    let mut i: usize = 0;
    proof {
        assert(views(done@).push(piece@) =~= split(s@.take(0), sep));
    }
    while i < s.len()
        invariant
            i <= s.len(),
            views(done@).push(piece@) == split(s@.take(i as int), sep),
        decreases s.len() - i,
    {
        let ghost before = views(done@).push(piece@);
        proof {
            assert(s@.take(i + 1).drop_last() =~= s@.take(i as int));
            assert(before.drop_last() =~= views(done@));
        }
        if s[i] == sep {
            let ghost old_done = done@;
            let ghost old_piece = piece;
            done.push(piece);
            piece = Vec::new();
            proof {
                assert(views(done@) =~= views(old_done).push(old_piece@));
                assert(views(done@).push(piece@) =~= before.push(Seq::empty()));
            }
        } else {
            piece.push(s[i]);
        }
        i = i + 1;
    }
    let ghost old_done = done@;
    let ghost old_piece = piece;
    done.push(piece);
    proof {
        assert(views(done@) =~= views(old_done).push(old_piece@));
        assert(s@.take(i as int) =~= s@);
    }
    done
}

/// The texts of a list of string slices.
pub open spec fn texts(v: Seq<&str>) -> Seq<Seq<char>> {
    v.map_values(|s: &str| s@)
}

/// The texts of a list of strings.
pub open spec fn string_texts(v: Seq<String>) -> Seq<Seq<char>> {
    v.map_values(|s: String| s@)
}

/// Splits a text at every `sep`.
pub fn split_text(s: &str, sep: char) -> (r: Vec<String>)
    ensures
        string_texts(r@) == split(s@, sep),
{
    let pieces = split_chars(chars_of(s).as_slice(), sep);
    let mut out: Vec<String> = Vec::new();
    let mut i: usize = 0;
    while i < pieces.len()
        invariant
            i <= pieces.len(),
            string_texts(out@) == views(pieces@).take(i as int),
        decreases pieces.len() - i,
    {
        let ghost before = out@;
        out.push(text_of(pieces[i].as_slice()));
        i = i + 1;
        proof {
            assert(string_texts(out@) =~= string_texts(before).push(pieces@[i - 1]@));
            assert(string_texts(out@) =~= views(pieces@).take(i as int));
        }
    }
    proof {
        assert(views(pieces@).take(i as int) =~= views(pieces@));
    }
    out
}

/// Texts with a separator between each two.
pub open spec fn joined(parts: Seq<Seq<char>>, sep: char) -> Seq<char>
    decreases parts.len(),
{
    if parts.len() == 0 {
        Seq::empty()
    } else if parts.len() == 1 {
        parts[0]
    } else {
        joined(parts.drop_last(), sep).push(sep) + parts.last()
    }
}

/// The texts from `from` on, with a separator between each two.
pub fn join_from(parts: &Vec<String>, from: usize, sep: char) -> (r: String)
    requires
        from <= parts.len(),
    ensures
        r@ == joined(string_texts(parts@).skip(from as int), sep),
{
    let ghost t = string_texts(parts@).skip(from as int);
    let mut out = String::new();
    let mut i: usize = from;
    proof {
        assert(out@ =~= joined(t.take(0), sep));
    }
    while i < parts.len()
        invariant
            from <= i <= parts.len(),
            t == string_texts(parts@).skip(from as int),
            out@ == joined(t.take(i - from), sep),
        decreases parts.len() - i,
    {
        let ghost before = t.take(i - from);
        if i > from {
            out.push(sep);
        }
        out.append(parts[i].as_str());
        i = i + 1;
        proof {
            let now = t.take(i - from);
            assert(now.drop_last() =~= before);
            assert(now.last() == parts@[i - 1]@);
            if before.len() == 0 {
                assert(out@ =~= joined(now, sep));
            }
        }
    }
    proof {
        assert(t.take(i - from) =~= t);
    }
    out
}

/// The texts from `from` on.
pub fn strings_from_index(parts: &Vec<String>, from: usize) -> (r: Vec<String>)
    requires
        from <= parts.len(),
    ensures
        string_texts(r@) == string_texts(parts@).skip(from as int),
{
    let mut out: Vec<String> = Vec::new();
    let mut i: usize = from;
    while i < parts.len()
        invariant
            from <= i <= parts.len(),
            string_texts(out@) == string_texts(parts@).subrange(from as int, i as int),
        decreases parts.len() - i,
    {
        let ghost before = out@;
        out.push(parts[i].clone());
        i = i + 1;
        proof {
            assert(string_texts(out@) =~= string_texts(before).push(parts@[i - 1]@));
            assert(string_texts(out@) =~= string_texts(parts@).subrange(from as int, i as int));
        }
    }
    proof {
        assert(string_texts(parts@).subrange(from as int, i as int) =~= string_texts(parts@).skip(
            from as int,
        ));
    }
    out
}

/// Whether `needle` stands in `s` at position `i`.
pub open spec fn occurs_at<T>(s: Seq<T>, needle: Seq<T>, i: int) -> bool {
    0 <= i && i + needle.len() <= s.len() && s.subrange(i, i + needle.len()) == needle
}

/// The first position at or after `from` where `needle` stands in `s`.
pub open spec fn find_from<T>(s: Seq<T>, needle: Seq<T>, from: int) -> Option<int>
    decreases s.len() + 1 - from,
{
    if from < 0 || from + needle.len() > s.len() {
        None
    } else if occurs_at(s, needle, from) {
        Some(from)
    } else {
        find_from(s, needle, from + 1)
    }
}

/// A position found, as a mathematical integer.
pub open spec fn pos_of(r: Option<usize>) -> Option<int> {
    match r {
        Some(i) => Some(i as int),
        None => None,
    }
}

/// What a search finds is an occurrence at or after `from`.
pub proof fn lemma_find_from<T>(s: Seq<T>, needle: Seq<T>, from: int)
    ensures
        find_from(s, needle, from) matches Some(i) ==> from <= i && occurs_at(s, needle, i),
    decreases s.len() + 1 - from,
{
    if from < 0 || from + needle.len() > s.len() {
    } else if !occurs_at(s, needle, from) {
        lemma_find_from(s, needle, from + 1);
    }
}

/// The first of all occurrences is what a search finds.
pub proof fn lemma_find_first<T>(s: Seq<T>, needle: Seq<T>, from: int, i: int)
    requires
        0 <= from <= i,
        occurs_at(s, needle, i),
        forall|j: int| from <= j < i ==> !#[trigger] occurs_at(s, needle, j),
    ensures
        find_from(s, needle, from) == Some(i),
    decreases i - from,
{
    if from < i {
        assert(!occurs_at(s, needle, from));
        lemma_find_first(s, needle, from + 1, i);
    }
}

/// Where `needle` stands in `s` at position `i`, its elements are those of `s`.
pub proof fn lemma_occurs_index<T>(s: Seq<T>, needle: Seq<T>, i: int, k: int)
    requires
        occurs_at(s, needle, i),
        0 <= k < needle.len(),
    ensures
        s[i + k] == needle[k],
{
    assert(s.subrange(i, i + needle.len())[k] == needle[k]);
}

/// Whether `needle` stands in `s` at position `i`.
pub fn bytes_at(s: &[u8], needle: &[u8], i: usize) -> (r: bool)
    ensures
        r == occurs_at(s@, needle@, i as int),
{
    if i > s.len() || needle.len() > s.len() - i {
        return false;
    }
    let mut k: usize = 0;
    while k < needle.len()
        invariant
            k <= needle.len(),
            i + needle.len() <= s.len(),
            s@.subrange(i as int, i + k) == needle@.take(k as int),
        decreases needle.len() - k,
    {
        if s[i + k] != needle[k] {
            proof {
                assert(s@.subrange(i as int, i + needle.len())[k as int] != needle@[k as int]);
            }
            return false;
        }
        k = k + 1;
        proof {
            assert(s@.subrange(i as int, i + k) =~= s@.subrange(i as int, i + k - 1).push(
                s@[i + k - 1],
            ));
            assert(needle@.take(k as int) =~= needle@.take(k - 1).push(needle@[k - 1]));
        }
    }
    proof {
        assert(needle@.take(k as int) =~= needle@);
    }
    true
}

/// The first position at or after `from` where `needle` stands in `s`.
pub fn find_bytes(s: &[u8], needle: &[u8], from: usize) -> (r: Option<usize>)
    ensures
        pos_of(r) == find_from(s@, needle@, from as int),
{
    let mut i: usize = from;
    while i <= s.len() && needle.len() <= s.len() - i
        invariant
            from <= i,
            find_from(s@, needle@, i as int) == find_from(s@, needle@, from as int),
        decreases s.len() + 1 - i,
    {
        if bytes_at(s, needle, i) {
            return Some(i);
        }
        if i == s.len() {
            proof {
                assert(find_from(s@, needle@, i + 1) is None);
            }
            return None;
        }
        i = i + 1;
    }
    None
}

/// The bytes of `s`, each as the character of that code.
pub open spec fn latin(s: Seq<u8>) -> Seq<char> {
    s.map_values(|b: u8| b as char)
}

/// The ASCII text `s` as bytes.
pub open spec fn ascii(s: Seq<char>) -> Seq<u8> {
    s.map_values(|c: char| c as u8)
}

/// The decimal number that bytes denote, as `parsed_int` reads it.
pub open spec fn number(s: Seq<u8>, hi: int) -> Option<int> {
    parsed_int(latin(s), 0, hi)
}

pub proof fn lemma_ascii_encoding(s: Seq<char>)
    requires
        forall|i: int| 0 <= i < s.len() ==> '\0' <= #[trigger] s[i] <= '\u{7f}',
    ensures
        vstd::utf8::encode_utf8(s) == ascii(s),
{
    assert(vstd::utf8::is_ascii_chars(s));
    vstd::utf8::is_ascii_chars_encode_utf8(s);
    assert(vstd::utf8::encode_utf8(s) =~= ascii(s));
}

pub proof fn lemma_padded_digits(n: nat, width: nat)
    ensures
        forall|i: int|
            0 <= i < dec_padded(n, width).len() ==> is_digit(
                #[trigger] dec_padded(n, width)[i],
            ),
        dec_padded(n, width).len() >= 1,
        dec_padded(n, width).len() >= width,
    decreases n, width,
{
    if n < 10 {
        lemma_fixed_digits(n, if width == 0 { 1 } else { width });
    } else {
        lemma_padded_digits(n / 10, if width == 0 { 0 } else { (width - 1) as nat });
    }
}

pub proof fn lemma_fixed_digits(n: nat, width: nat)
    ensures
        forall|i: int|
            0 <= i < dec_fixed(n, width).len() ==> is_digit(
                #[trigger] dec_fixed(n, width)[i],
            ),
        dec_fixed(n, width).len() == width,
    decreases width,
{
    if width > 0 {
        lemma_fixed_digits(n / 10, (width - 1) as nat);
    }
}

pub proof fn lemma_latin_ascii(t: Seq<char>)
    requires
        forall|i: int| 0 <= i < t.len() ==> is_digit(#[trigger] t[i]),
    ensures
        latin(ascii(t)) == t,
{
    assert forall|i: int| 0 <= i < t.len() implies latin(ascii(t))[i] == t[i] by {
        assert(is_digit(t[i]));
    }
    assert(latin(ascii(t)) =~= t);
}

pub proof fn lemma_padded_value(n: nat, width: nat)
    ensures
        value_of(dec_padded(n, width)) == n,
    decreases n, width,
{
    if n < 10 {
        let w: nat = if width == 0 { 1 } else { width };
        lemma_zero_digits((w - 1) as nat);
        assert(dec_fixed(n, w).drop_last() =~= dec_fixed(0, (w - 1) as nat));
    } else {
        let w: nat = if width == 0 { 0 } else { (width - 1) as nat };
        lemma_padded_value(n / 10, w);
        assert(dec_padded(n, width).drop_last() =~= dec_padded(n / 10, w));
    }
}

pub proof fn lemma_zero_digits(width: nat)
    ensures
        value_of(dec_fixed(0, width)) == 0,
    decreases width,
{
    if width > 0 {
        lemma_zero_digits((width - 1) as nat);
        assert(dec_fixed(0, width).drop_last() =~= dec_fixed(0, (width - 1) as nat));
    }
}

/// A number of at most four digits, padded to four or two digits, has that many digits.
pub proof fn lemma_padded_len(n: nat)
    ensures
        n < 10000 ==> dec_padded(n, 4).len() == 4,
        n < 100 ==> dec_padded(n, 2).len() == 2,
{
    reveal_with_fuel(dec_padded, 4);
    reveal_with_fuel(dec_fixed, 5);
}

/// Reads the bytes `from..to` as a decimal number of at most `max`.
pub fn parse_number(s: &[u8], from: usize, to: usize, max: u64) -> (r: Option<u64>)
    requires
        from <= to <= s.len(),
    ensures
        r is Some == number(s@.subrange(from as int, to as int), max as int) is Some,
        r is Some ==> r->0 == number(s@.subrange(from as int, to as int), max as int)->0,
{
    let mut chars: Vec<char> = Vec::new();
    let mut i: usize = from;
    while i < to
        invariant
            from <= i <= to <= s.len(),
            chars@ == latin(s@.subrange(from as int, i as int)),
        decreases to - i,
    {
        chars.push(s[i] as char);
        i = i + 1;
        proof {
            assert(chars@ =~= latin(s@.subrange(from as int, i as int)));
        }
    }
    let start: usize = if chars.len() > 0 && chars[0] == '+' { 1 } else { 0 };
    proof {
        assert(chars@.skip(0) =~= chars@);
    }
    parse_digits(chars.as_slice(), start, max)
}

/// Whether the text `s` starts with `prefix`.
pub open spec fn starts_with<T>(s: Seq<T>, prefix: Seq<T>) -> bool {
    prefix.len() <= s.len() && s.take(prefix.len() as int) == prefix
}

/// The rest of the text after a prefix.
pub fn strip_prefix(s: &[char], prefix: &str) -> (r: Option<Vec<char>>)
    ensures
        r is Some <==> starts_with(s@, prefix@),
        r is Some ==> r->0@ == s@.skip(prefix@.len() as int),
{
    let p = chars_of(prefix);
    if p.len() > s.len() {
        return None;
    }
    let mut i: usize = 0;
    while i < p.len()
        invariant
            i <= p.len() <= s.len(),
            p@ == prefix@,
            s@.take(i as int) == p@.take(i as int),
        decreases p.len() - i,
    {
        if s[i] != p[i] {
            proof {
                assert(s@.take(p.len() as int)[i as int] != p@[i as int]);
            }
            return None;
        }
        i = i + 1;
        proof {
            assert(s@.take(i as int) =~= s@.take(i - 1).push(s@[i - 1]));
            assert(p@.take(i as int) =~= p@.take(i - 1).push(p@[i - 1]));
        }
    }
    proof {
        assert(p@.take(i as int) =~= p@);
    }
    let mut out: Vec<char> = Vec::new();
    while i < s.len()
        invariant
            p.len() <= i <= s.len(),
            out@ == s@.subrange(p.len() as int, i as int),
        decreases s.len() - i,
    {
        out.push(s[i]);
        i = i + 1;
        proof {
            assert(s@.subrange(p.len() as int, i as int) =~= s@.subrange(p.len() as int, i - 1).push(
                s@[i - 1],
            ));
        }
    }
    proof {
        assert(s@.subrange(p.len() as int, i as int) =~= s@.skip(p.len() as int));
    }
    Some(out)
}

// ---------------------------------------------------------------------------------------
// Case and white space
// ---------------------------------------------------------------------------------------

/// `c` with an ASCII lower-case letter made upper-case.
pub open spec fn ascii_upper(c: char) -> char {
    if 'a' <= c <= 'z' {
        (c as int - 32) as char
    } else {
        c
    }
}

/// Whether two texts are equal but for the case of ASCII letters.
pub open spec fn eq_ignoring_ascii_case(a: Seq<char>, b: Seq<char>) -> bool {
    a.len() == b.len() && forall|i: int|
        0 <= i < a.len() ==> ascii_upper(#[trigger] a[i]) == ascii_upper(b[i])
}

fn to_ascii_upper(c: char) -> (r: char)
    ensures
        r == ascii_upper(c),
{
    if 'a' <= c && c <= 'z' {
        ((c as u32 - 32) as u8) as char
    } else {
        c
    }
}

/// Whether two texts are equal but for the case of ASCII letters.
pub fn eq_ignore_ascii_case(a: &str, b: &str) -> (r: bool)
    ensures
        r == eq_ignoring_ascii_case(a@, b@),
{
    let x = chars_of(a);
    let y = chars_of(b);
    if x.len() != y.len() {
        return false;
    }
    let mut i: usize = 0;
    while i < x.len()
        invariant
            i <= x.len(),
            x.len() == y.len(),
            x@ == a@,
            y@ == b@,
            forall|k: int| 0 <= k < i ==> ascii_upper(#[trigger] x@[k]) == ascii_upper(y@[k]),
        decreases x.len() - i,
    {
        if to_ascii_upper(x[i]) != to_ascii_upper(y[i]) {
            proof {
                assert(ascii_upper(a@[i as int]) != ascii_upper(b@[i as int]));
            }
            return false;
        }
        i = i + 1;
    }
    true
}

/// The characters with the Unicode property White_Space.
pub open spec fn is_space(c: char) -> bool {
    ||| 0x09 <= c as int <= 0x0d
    ||| c as int == 0x20
    ||| c as int == 0x85
    ||| c as int == 0xa0
    ||| c as int == 0x1680
    ||| 0x2000 <= c as int <= 0x200a
    ||| c as int == 0x2028
    ||| c as int == 0x2029
    ||| c as int == 0x202f
    ||| c as int == 0x205f
    ||| c as int == 0x3000
}

fn is_white_space(c: char) -> (r: bool)
    ensures
        r == is_space(c),
{
    let n: u32 = c as u32;
    (0x09 <= n && n <= 0x0d) || n == 0x20 || n == 0x85 || n == 0xa0 || n == 0x1680 || (0x2000 <= n
        && n <= 0x200a) || n == 0x2028 || n == 0x2029 || n == 0x202f || n == 0x205f || n == 0x3000
}

/// `s` without the white space at its end.
pub open spec fn trimmed_end(s: Seq<char>) -> Seq<char>
    decreases s.len(),
{
    if s.len() > 0 && is_space(s.last()) {
        trimmed_end(s.drop_last())
    } else {
        s
    }
}

/// `s` without the white space at its start.
pub open spec fn trimmed_start(s: Seq<char>) -> Seq<char>
    decreases s.len(),
{
    if s.len() > 0 && is_space(s[0]) {
        trimmed_start(s.skip(1))
    } else {
        s
    }
}

/// `s` without the white space at both ends.
pub fn trim(s: &[char]) -> (r: Vec<char>)
    ensures
        r@ == trimmed_end(trimmed_start(s@)),
{
    let mut from: usize = 0;
    proof {
        assert(s@.skip(0) =~= s@);
    }
    while from < s.len() && is_white_space(s[from])
        invariant
            from <= s.len(),
            trimmed_start(s@.skip(from as int)) == trimmed_start(s@),
        decreases s.len() - from,
    {
        proof {
            assert(s@.skip(from as int).skip(1) =~= s@.skip(from + 1));
        }
        from = from + 1;
    }
    let mut out: Vec<char> = Vec::new();
    let mut i: usize = from;
    while i < s.len()
        invariant
            from <= i <= s.len(),
            out@ == s@.subrange(from as int, i as int),
        decreases s.len() - i,
    {
        out.push(s[i]);
        i = i + 1;
        proof {
            assert(s@.subrange(from as int, i as int) =~= s@.subrange(from as int, i - 1).push(
                s@[i - 1],
            ));
        }
    }
    proof {
        assert(out@ =~= s@.skip(from as int));
    }
    trim_end(out)
}

/// `s` without the white space at its end.
pub fn trim_end(s: Vec<char>) -> (r: Vec<char>)
    ensures
        r@ == trimmed_end(s@),
{
    let mut out = s;
    while out.len() > 0 && is_white_space(out[out.len() - 1])
        invariant
            trimmed_end(out@) == trimmed_end(s@),
        decreases out.len(),
    {
        proof {
            assert(out@.drop_last() =~= out@.take(out.len() - 1));
        }
        out.pop();
    }
    out
}

} // verus!
