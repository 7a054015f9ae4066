//! Civil dates and UTC times, counted in days and seconds from 1 January 1970.
use vstd::prelude::*;

use crate::text::{
    ascii, dec_padded, format_padded, latin, lemma_ascii_encoding, lemma_latin_ascii,
    lemma_padded_digits, lemma_padded_len, lemma_padded_value, parse_i64, parsed_int, text_of,
};

verus! {

// ---------------------------------------------------------------------------------------
// The Gregorian calendar
// ---------------------------------------------------------------------------------------

pub open spec fn is_leap(y: int) -> bool {
    y % 4 == 0 && (y % 100 != 0 || y % 400 == 0)
}

/// The number of days in month `m` (1 to 12) of year `y`.
pub open spec fn month_len(y: int, m: int) -> int {
    if m == 2 {
        if is_leap(y) {
            29
        } else {
            28
        }
    } else if m == 4 || m == 6 || m == 9 || m == 11 {
        30
    } else {
        31
    }
}

/// The number of days in year `y` before month `m` (1 to 12).
pub open spec fn days_before_month(y: int, m: int) -> int
    decreases m,
{
    if m <= 1 {
        0
    } else {
        days_before_month(y, m - 1) + month_len(y, m - 1)
    }
}

/// The number of days from the start of year 1 to the start of year `y`.
pub open spec fn days_before_year(y: int) -> int {
    365 * (y - 1) + (y - 1) / 4 - (y - 1) / 100 + (y - 1) / 400
}

/// The number of days from 1 January 1970 to day `d` of month `m` of year `y`.
pub open spec fn day_number(y: int, m: int, d: int) -> int {
    days_before_year(y) - days_before_year(1970) + days_before_month(y, m) + d - 1
}

/// Whether there is a day `d` of month `m` of year `y`.
pub open spec fn is_date(date: (int, int, int)) -> bool {
    1 <= date.1 <= 12 && 1 <= date.2 <= month_len(date.0, date.1)
}

/// The date that is `days` days from 1 January 1970, as year, month and day.
pub open spec fn date_of(days: int) -> (int, int, int) {
    choose|date: (int, int, int)|
        #[trigger] is_date(date) && day_number(date.0, date.1, date.2) == days
}

/// A year has 366 days when it is a leap year and 365 when it is not, so that the years follow
/// one another without a gap.
pub proof fn law_year_length(y: int)
    ensures
        days_before_year(y + 1) - days_before_year(y) == (if is_leap(y) {
            366int
        } else {
            365int
        }),
        days_before_month(y, 12) + month_len(y, 12) == (if is_leap(y) {
            366int
        } else {
            365int
        }),
{
    reveal_with_fuel(days_before_month, 12);
}

proof fn lemma_years_in_order(a: int, b: int)
    requires
        a < b,
    ensures
        days_before_year(a + 1) <= days_before_year(b),
    decreases b - a,
{
    if a + 1 < b {
        lemma_years_in_order(a, b - 1);
        law_year_length(b - 1);
    }
}

proof fn lemma_within_year(y: int, m: int, d: int)
    requires
        is_date((y, m, d)),
    ensures
        0 <= days_before_month(y, m) + d - 1 < days_before_year(y + 1) - days_before_year(y),
{
    law_year_length(y);
    reveal_with_fuel(days_before_month, 13);
}

proof fn lemma_months_in_order(y: int, a: int, b: int)
    requires
        1 <= a < b <= 12,
    ensures
        days_before_month(y, a) + month_len(y, a) <= days_before_month(y, b),
    decreases b - a,
{
    if a + 1 < b {
        lemma_months_in_order(y, a, b - 1);
    }
}

/// The days are counted from 1 January 1970, one by one: the next day of a month is one day
/// later, the first of a month one day after the last of the month before, and 1 January one day
/// after 31 December.
pub proof fn law_days_follow_one_another(y: int, m: int, d: int)
    requires
        1 <= m <= 12,
        1 <= d,
    ensures
        day_number(1970, 1, 1) == 0,
        day_number(y, m, d + 1) == day_number(y, m, d) + 1,
        m == 4 || m == 6 || m == 9 || m == 11 ==> day_number(y, m + 1, 1) == day_number(y, m, 30)
            + 1,
        m == 1 || m == 3 || m == 5 || m == 7 || m == 8 || m == 10 ==> day_number(y, m + 1, 1)
            == day_number(y, m, 31) + 1,
        day_number(y + 1, 1, 1) == day_number(y, 12, 31) + 1,
        y % 400 == 0 || (y % 4 == 0 && y % 100 != 0) ==> day_number(y, 3, 1) == day_number(y, 2, 29)
            + 1,
        y % 4 != 0 || (y % 100 == 0 && y % 400 != 0) ==> day_number(y, 3, 1) == day_number(y, 2, 28)
            + 1,
{
    law_year_length(y);
    assert(days_before_month(y, m + 1) == days_before_month(y, m) + month_len(y, m));
    assert(days_before_month(y, 3) == days_before_month(y, 2) + month_len(y, 2));
    assert(days_before_month(y + 1, 1) == 0);
    assert(days_before_month(1970, 1) == 0);
}

/// No two dates are the same number of days from 1 January 1970.
pub proof fn law_dates_differ(a: (int, int, int), b: (int, int, int))
    requires
        is_date(a),
        is_date(b),
        day_number(a.0, a.1, a.2) == day_number(b.0, b.1, b.2),
    ensures
        a == b,
{
    lemma_within_year(a.0, a.1, a.2);
    lemma_within_year(b.0, b.1, b.2);
    if a.0 < b.0 {
        lemma_years_in_order(a.0, b.0);
    } else if b.0 < a.0 {
        lemma_years_in_order(b.0, a.0);
    } else if a.1 < b.1 {
        lemma_months_in_order(a.0, a.1, b.1);
    } else if b.1 < a.1 {
        lemma_months_in_order(a.0, b.1, a.1);
    }
}

/// Converts days since 1 January 1970 to year, month and day.
///
/// Years are counted from March on, so that the leap day is the last of its year, and split
/// into cycles of 400, 100, 4 and 1 years.
pub fn days_to_ymd(days: u64) -> (r: (u64, u64, u64))
    requires
        days <= u64::MAX - 719468,
    ensures
        (r.0 as int, r.1 as int, r.2 as int) == date_of(days as int),
        is_date((r.0 as int, r.1 as int, r.2 as int)),
        day_number(r.0 as int, r.1 as int, r.2 as int) == days,
{
    let z: u64 = days + 719468;
    let era: u64 = z / 146097;
    let doe: u64 = z % 146097;
    let century: u64 = if doe / 36524 > 3 {
        3
    } else {
        doe / 36524
    };
    let doc: u64 = doe - century * 36524;
    let quad: u64 = doc / 1461;
    let doq: u64 = doc % 1461;
    let year: u64 = if doq / 365 > 3 {
        3
    } else {
        doq / 365
    };
    let doy: u64 = doq - year * 365;
    let yoe: u64 = century * 100 + quad * 4 + year;
    let march_year: u64 = yoe + era * 400;
    let mp: u64 = (5 * doy + 2) / 153;
    let d: u64 = doy - (153 * mp + 2) / 5 + 1;
    let m: u64 = if mp < 10 {
        mp + 3
    } else {
        mp - 9
    };
    let y: u64 = if m <= 2 {
        march_year + 1
    } else {
        march_year
    };
    proof {
        lemma_march(
            days as int,
            era as int,
            century as int,
            quad as int,
            year as int,
            doy as int,
            mp as int,
        );
        let date = (y as int, m as int, d as int);
        let chosen = date_of(days as int);
        assert(is_date(date) && day_number(date.0, date.1, date.2) == days);
        law_dates_differ(date, chosen);
    }
    (y, m, d)
}

/// The date of a day that is `doy` days into a year counted from March on.
proof fn lemma_march(
    days: int,
    era: int,
    century: int,
    quad: int,
    year: int,
    doy: int,
    mp: int,
)
    requires
        0 <= era,
        0 <= century <= 3,
        0 <= quad <= 24,
        0 <= year <= 3,
        0 <= doy <= 365,
        doy == 365 ==> year == 3 && (quad == 24 ==> century == 3),
        days + 719468 == era * 146097 + century * 36524 + quad * 1461 + year * 365 + doy,
        mp == (5 * doy + 2) / 153,
    ensures
        ({
            let march_year = era * 400 + century * 100 + quad * 4 + year;
            let d = doy - (153 * mp + 2) / 5 + 1;
            let m = if mp < 10 {
                mp + 3
            } else {
                mp - 9
            };
            let y = if m <= 2 {
                march_year + 1
            } else {
                march_year
            };
            &&& is_date((y, m, d))
            &&& day_number(y, m, d) == days
        }),
{
    let march_year = era * 400 + century * 100 + quad * 4 + year;
    let y = march_year;
    // Both years' lengths, in closed form.
    assert(y / 4 == era * 100 + century * 25 + quad);
    assert(y / 100 == era * 4 + century);
    assert(y / 400 == era);
    assert(days_before_year(y + 1) == 365 * y + y / 4 - y / 100 + y / 400);
    law_year_length(y);
    law_year_length(y + 1);
    let d = doy - (153 * mp + 2) / 5 + 1;
    reveal_with_fuel(days_before_month, 13);
    assert(0 <= mp <= 11);
    let n = y + 1;
    assert(is_leap(n) == (n % 4 == 0 && (n % 100 != 0 || n % 400 == 0)));
    if doy == 365 {
        assert(n % 4 == 0);
        assert(is_leap(n)) by {
            if quad == 24 {
                assert(n == era * 400 + 400);
            } else {
                assert(n == era * 400 + century * 100 + (quad + 1) * 4);
            }
        }
    }
}

proof fn lemma_month_table(y: int, m: int)
    requires
        1 <= m <= 12,
    ensures
        days_before_month(y, m) == (if m == 1 {
            0
        } else if m == 2 {
            31
        } else {
            month_len(y, 2) + (if m == 3 {
                31int
            } else if m == 4 {
                62
            } else if m == 5 {
                92
            } else if m == 6 {
                123
            } else if m == 7 {
                153
            } else if m == 8 {
                184
            } else if m == 9 {
                215
            } else if m == 10 {
                245
            } else if m == 11 {
                276
            } else {
                306
            })
        }),
{
    reveal_with_fuel(days_before_month, 13);
}

proof fn lemma_shifted(y: int)
    ensures
        (y + 9999) / 4 == (y - 1) / 4 + 2500,
        (y + 9999) / 100 == (y - 1) / 100 + 100,
        (y + 9999) / 400 == (y - 1) / 400 + 25,
        is_leap(y) == is_leap(y + 10000),
{
}

/// The number of days from 1 January 1970 to a date, for a day of the month that the month may
/// lack.
pub fn ymd_to_days(y: i64, m: i64, d: i64) -> (r: i64)
    requires
        -9999 <= y <= 9999,
        1 <= m <= 12,
        0 <= d <= 99,
    ensures
        r == day_number(y as int, m as int, d as int),
{
    // Ten thousand years on, the calendar is the same and the year positive.
    let shifted: i64 = y - 1 + 10000;
    let before_year: i64 = 365 * shifted + shifted / 4 - shifted / 100 + shifted / 400;
    let leap: bool = (shifted + 1) % 4 == 0 && ((shifted + 1) % 100 != 0 || (shifted + 1) % 400
        == 0);
    let february: i64 = if leap {
        29
    } else {
        28
    };
    let before_month: i64 = if m == 1 {
        0
    } else if m == 2 {
        31
    } else if m == 3 {
        31 + february
    } else if m == 4 {
        62 + february
    } else if m == 5 {
        92 + february
    } else if m == 6 {
        123 + february
    } else if m == 7 {
        153 + february
    } else if m == 8 {
        184 + february
    } else if m == 9 {
        215 + february
    } else if m == 10 {
        245 + february
    } else if m == 11 {
        276 + february
    } else {
        306 + february
    };
    proof {
        lemma_month_table(y as int, m as int);
        lemma_shifted(y as int);
    }
    // 3652425 days make ten thousand years; 719162 days lie before 1970.
    before_year - 3652425 - 719162 + before_month + d - 1
}

// ---------------------------------------------------------------------------------------
// Times
// ---------------------------------------------------------------------------------------

/// `YYYYMMDD`, a separator and `HH:MM:SS`, for a number of seconds since 1 January 1970 UTC.
pub open spec fn time_text(secs: nat, separator: char) -> Seq<char> {
    let date = date_of((secs / 86400) as int);
    let time = secs % 86400;
    (dec_padded(date.0 as nat, 4) + dec_padded(date.1 as nat, 2) + dec_padded(
        date.2 as nat,
        2,
    )).push(separator) + dec_padded(time / 3600, 2).push(':') + dec_padded(
        (time % 3600) / 60,
        2,
    ).push(':') + dec_padded(time % 60, 2)
}

fn format_time(secs: u64, separator: char) -> (r: String)
    ensures
        r@ == time_text(secs as nat, separator),
{
    let (y, m, d) = days_to_ymd(secs / 86400);
    let time: u64 = secs % 86400;
    let mut out = format_padded(y, 4);
    out.append(format_padded(m, 2).as_str());
    out.append(format_padded(d, 2).as_str());
    out.push(separator);
    let mut hours = format_padded(time / 3600, 2);
    hours.push(':');
    let mut minutes = format_padded((time % 3600) / 60, 2);
    minutes.push(':');
    let seconds = format_padded(time % 60, 2);
    out.append(hours.as_str());
    out.append(minutes.as_str());
    out.append(seconds.as_str());
    out
}

/// `YYYYMMDD-HH:MM:SS` for a number of seconds since 1 January 1970 UTC.
pub fn unix_to_ib_utc_dash(secs: u64) -> (r: String)
    ensures
        r@ == time_text(secs as nat, '-'),
{
    format_time(secs, '-')
}

/// `YYYYMMDD HH:MM:SS` for a number of seconds since 1 January 1970 UTC.
pub fn unix_to_ib_datetime(secs: u64) -> (r: String)
    ensures
        r@ == time_text(secs as nat, ' '),
{
    format_time(secs, ' ')
}

/// `std::time::SystemTime::elapsed` since 1 January 1970 UTC, in seconds. Nothing is promised
/// of the time that it gives.
#[verifier::external_body]
pub(crate) fn unix_now() -> u64 {
    match std::time::SystemTime::UNIX_EPOCH.elapsed() {
        Ok(d) => d.as_secs(),
        Err(_) => 0,
    }
}

/// The number that part of a text reads as.
pub open spec fn number_in(s: Seq<u8>, from: int, to: int) -> Option<int> {
    parsed_int(latin(s.subrange(from, to)), i64::MIN as int, i64::MAX as int)
}

/// The seconds since 1 January 1970 of a UTC time `YYYYMMDD-HH:MM:SS`, whatever follows it.
pub open spec fn unix_of_utc(s: Seq<u8>) -> Option<int> {
    let y = number_in(s, 0, 4);
    let m = number_in(s, 4, 6);
    let d = number_in(s, 6, 8);
    let hh = number_in(s, 9, 11);
    let mm = number_in(s, 12, 14);
    let ss = number_in(s, 15, 17);
    if s.len() < 17 || s[8] != 45 || s[11] != 58 || s[14] != 58 {
        None
    } else if y is None || m is None || d is None || hh is None || mm is None || ss is None {
        None
    } else if !(1 <= m->0 <= 12) || !(1 <= d->0 <= 31) || hh->0 > 23 || mm->0 > 59 || ss->0 > 60 {
        None
    } else {
        Some(day_number(y->0, m->0, d->0) * 86400 + hh->0 * 3600 + mm->0 * 60 + ss->0)
    }
}

/// Reads the bytes `from..to` as a number.
fn read_number(s: &[u8], from: usize, to: usize) -> (r: Option<i64>)
    requires
        from <= to <= s.len(),
        to - from <= 4,
    ensures
        r is Some == number_in(s@, from as int, to as int) is Some,
        r is Some ==> r->0 == number_in(s@, from as int, to as int)->0 && -9999 <= r->0 <= 9999,
{
    let mut chars: Vec<char> = Vec::new();
    let mut i: usize = from;
    while i < to
        invariant
            from <= i <= to <= s.len(),
            chars@ == latin(s@.subrange(from as int, i as int)),
        decreases to - i,
    {
        chars.push(s[i] as char);
        i = i + 1;
        proof {
            assert(chars@ =~= latin(s@.subrange(from as int, i as int)));
        }
    }
    proof {
        lemma_four_digits(chars@);
        if chars@.len() > 0 {
            lemma_four_digits(chars@.skip(1));
        }
    }
    parse_i64(text_of(chars.as_slice()).as_str())
}

proof fn lemma_four_digits(s: Seq<char>)
    requires
        s.len() <= 4,
    ensures
        crate::text::is_number(s) ==> crate::text::value_of(s) <= 9999,
{
    if crate::text::is_number(s) {
        assert forall|i: int| 0 <= i < s.len() implies 48 <= (#[trigger] s[i]) as int <= 57 by {
            assert(crate::text::is_digit(s[i]));
        }
        reveal_with_fuel(crate::text::value_of, 5);
    }
}

/// Converts a UTC time as reports write it, `YYYYMMDD-HH:MM:SS` with an optional `.sss`, to
/// seconds since 1 January 1970.
pub fn fix_utc_to_unix_secs(s: &str) -> (r: Option<i64>)
    ensures
        r is Some == unix_of_utc(vstd::utf8::encode_utf8(s@)) is Some,
        r is Some ==> r->0 == unix_of_utc(vstd::utf8::encode_utf8(s@))->0,
{
    let b = s.as_bytes();
    if b.len() < 17 || b[8] != 45 || b[11] != 58 || b[14] != 58 {
        return None;
    }
    let y = match read_number(b, 0, 4) {
        Some(v) => v,
        None => return None,
    };
    let m = match read_number(b, 4, 6) {
        Some(v) => v,
        None => return None,
    };
    let d = match read_number(b, 6, 8) {
        Some(v) => v,
        None => return None,
    };
    let hh = match read_number(b, 9, 11) {
        Some(v) => v,
        None => return None,
    };
    let mm = match read_number(b, 12, 14) {
        Some(v) => v,
        None => return None,
    };
    let ss = match read_number(b, 15, 17) {
        Some(v) => v,
        None => return None,
    };
    if m < 1 || m > 12 || d < 1 || d > 31 || hh > 23 || mm > 59 || ss > 60 {
        return None;
    }
    let days = ymd_to_days(y, m, d);
    proof {
        lemma_day_range(y as int, m as int, d as int);
    }
    Some(days * 86400 + hh * 3600 + mm * 60 + ss)
}

proof fn lemma_day_range(y: int, m: int, d: int)
    requires
        -9999 <= y <= 9999,
        1 <= m <= 12,
        1 <= d <= 31,
    ensures
        -10_000_000 <= day_number(y, m, d) <= 10_000_000,
{
    reveal_with_fuel(days_before_month, 13);
}

/// A padded number that stands in a text reads back as itself.
proof fn lemma_padded_reads(s: Seq<u8>, from: int, to: int, n: nat, width: nat)
    requires
        0 <= from <= to <= s.len(),
        n <= i64::MAX,
        s.subrange(from, to) == ascii(dec_padded(n, width)),
    ensures
        number_in(s, from, to) == Some(n as int),
{
    lemma_padded_digits(n, width);
    lemma_padded_value(n, width);
    lemma_latin_ascii(dec_padded(n, width));
    assert(crate::text::is_digit(dec_padded(n, width)[0]));
}

/// A time written as `YYYYMMDD-HH:MM:SS` reads back as the same number of seconds, up to the
/// end of the year 9999.
pub proof fn law_time_round_trip(secs: nat)
    requires
        secs < 253402300800,
    ensures
        unix_of_utc(vstd::utf8::encode_utf8(time_text(secs, '-'))) == Some(secs as int),
{
    let days = (secs / 86400) as int;
    let time = secs % 86400;
    lemma_date_exists(days);
    let date = date_of(days);
    assert(0 <= date.0 <= 9999) by {
        lemma_within_year(date.0, date.1, date.2);
        if date.0 > 9999 {
            lemma_years_in_order(9999, date.0);
        }
        if date.0 < 1970 {
            lemma_years_in_order(date.0, 1970);
        }
    }
    let y = date.0 as nat;
    let m = date.1 as nat;
    let d = date.2 as nat;
    let hh = time / 3600;
    let mm = (time % 3600) / 60;
    let ss = time % 60;
    lemma_padded_len(y);
    lemma_padded_len(m);
    lemma_padded_len(d);
    lemma_padded_len(hh);
    lemma_padded_len(mm);
    lemma_padded_len(ss);
    lemma_padded_digits(y, 4);
    lemma_padded_digits(m, 2);
    lemma_padded_digits(d, 2);
    lemma_padded_digits(hh, 2);
    lemma_padded_digits(mm, 2);
    lemma_padded_digits(ss, 2);
    let t = time_text(secs, '-');
    assert(t.len() == 17);
    assert forall|i: int| 0 <= i < t.len() implies '\0' <= #[trigger] t[i] <= '\u{7f}' by {
        if i < 4 {
            assert(t[i] == dec_padded(y, 4)[i]);
        } else if i < 6 {
            assert(t[i] == dec_padded(m, 2)[i - 4]);
        } else if i < 8 {
            assert(t[i] == dec_padded(d, 2)[i - 6]);
        } else if 9 <= i < 11 {
            assert(t[i] == dec_padded(hh, 2)[i - 9]);
        } else if 12 <= i < 14 {
            assert(t[i] == dec_padded(mm, 2)[i - 12]);
        } else if i >= 15 {
            assert(t[i] == dec_padded(ss, 2)[i - 15]);
        }
    }
    lemma_ascii_encoding(t);
    let b = ascii(t);
    assert(b.subrange(0, 4) =~= ascii(dec_padded(y, 4)));
    assert(b.subrange(4, 6) =~= ascii(dec_padded(m, 2)));
    assert(b.subrange(6, 8) =~= ascii(dec_padded(d, 2)));
    assert(b.subrange(9, 11) =~= ascii(dec_padded(hh, 2)));
    assert(b.subrange(12, 14) =~= ascii(dec_padded(mm, 2)));
    assert(b.subrange(15, 17) =~= ascii(dec_padded(ss, 2)));
    lemma_padded_reads(b, 0, 4, y, 4);
    lemma_padded_reads(b, 4, 6, m, 2);
    lemma_padded_reads(b, 6, 8, d, 2);
    lemma_padded_reads(b, 9, 11, hh, 2);
    lemma_padded_reads(b, 12, 14, mm, 2);
    lemma_padded_reads(b, 15, 17, ss, 2);
    assert(t[8] == '-' && t[11] == ':' && t[14] == ':');
    assert(b[8] == 45 && b[11] == 58 && b[14] == 58);
}

/// Each number of days from 1 January 1970 has a date.
pub proof fn lemma_date_exists(days: int)
    requires
        0 <= days,
    ensures
        is_date(date_of(days)),
        day_number(date_of(days).0, date_of(days).1, date_of(days).2) == days,
{
    let z = days + 719468;
    let era = z / 146097;
    let doe = z % 146097;
    let century = if doe / 36524 > 3 {
        3
    } else {
        doe / 36524
    };
    let doc = doe - century * 36524;
    let quad = doc / 1461;
    let doq = doc % 1461;
    let year = if doq / 365 > 3 {
        3
    } else {
        doq / 365
    };
    let doy = doq - year * 365;
    let mp = (5 * doy + 2) / 153;
    lemma_march(days, era, century, quad, year, doy, mp);
    let march_year = era * 400 + century * 100 + quad * 4 + year;
    let d = doy - (153 * mp + 2) / 5 + 1;
    let m = if mp < 10 {
        mp + 3
    } else {
        mp - 9
    };
    let y = if m <= 2 {
        march_year + 1
    } else {
        march_year
    };
    let date = (y, m, d);
    assert(is_date(date) && day_number(date.0, date.1, date.2) == days);
}

} // verus!
