//! Points in time as they are written down: civil dates, and RFC 3339
//! timestamps such as `2026-09-17T16:10:00.888709+00:00`.

use vstd::prelude::*;
use vstd::slice::slice_subrange;
use vstd::utf8::encode_utf8;

verus! {

// ---------------------------------------------------------------------------
// Civil dates.

/// Division that rounds towards zero, by a positive number.
pub open spec fn quotient(a: int, b: int) -> int {
    if a >= 0 {
        a / b
    } else {
        -((-a) / b)
    }
}

/// What is left of that division; it has the sign of `a`.
pub open spec fn remainder(a: int, b: int) -> int {
    a - quotient(a, b) * b
}

/// The year a date is counted in when the year begins in March.
pub open spec fn march_year(y: int, m: int) -> int {
    if m <= 2 {
        y - 1
    } else {
        y
    }
}

/// Where in a year that begins in March the months before `m` end.
pub open spec fn march_days(m: int) -> int {
    quotient(153 * remainder(m + 9, 12) + 2, 5)
}

/// The days between 1970-01-01 and a civil date: 365 for every year, one for
/// every leap day, and the days of the year so far. Years begin in March here,
/// so that the leap day is the last day of its year.
pub open spec fn civil_day(y: int, m: int, d: int) -> int {
    let yy = march_year(y, m);
    365 * yy + yy / 4 - yy / 100 + yy / 400 + march_days(m) + d - 1 - 719_468
}

/// A number that fits into 64 bits.
pub open spec fn fits(n: int) -> bool {
    i64::MIN <= n <= i64::MAX
}

/// The days of a date behind the start of its 400 years.
pub open spec fn day_of_era(y: int, m: int, d: int) -> int {
    let yoe = march_year(y, m) % 400;
    yoe * 365 + yoe / 4 - yoe / 100 + (march_days(m) + d - 1)
}

/// No step of the count leaves 64 bits.
pub open spec fn countable(y: int, m: int, d: int) -> bool {
    let yy = march_year(y, m);
    &&& fits(yy)
    &&& yy < 0 ==> fits(yy - 399)
    &&& fits(m + 9)
    &&& fits(march_days(m) + d)
    &&& fits(march_days(m) + d - 1)
    &&& fits(day_of_era(y, m, d))
    &&& fits(yy / 400 * 146_097)
    &&& fits(yy / 400 * 146_097 + day_of_era(y, m, d))
    &&& fits(civil_day(y, m, d))
}

/// Days between 1970-01-01 and a civil date, by Howard Hinnant's algorithm.
pub fn days_from_civil(y: i64, m: i64, d: i64) -> (r: i64)
    requires
        countable(y as int, m as int, d as int),
    ensures
        r == civil_day(y as int, m as int, d as int),
{
    let y: i64 = if m <= 2 {
        y - 1
    } else {
        y
    };
    let era: i64 = (if y >= 0 {
        y
    } else {
        y - 399
    }) / 400;
    assert(era == y as int / 400);
    let yoe: i64 = y - era * 400;
    assert(yoe == y as int % 400);
    let mp: i64 = (m + 9) % 12;
    assert(mp == remainder(m + 9, 12) && -11 <= mp <= 11);
    let doy: i64 = (153 * mp + 2) / 5 + d - 1;
    let doe: i64 = yoe * 365 + yoe / 4 - yoe / 100 + doy;
    era * 146_097 + doe - 719_468
}

/// A year with a leap day.
pub open spec fn leap_year(y: int) -> bool {
    y % 4 == 0 && (y % 100 != 0 || y % 400 == 0)
}

/// How many days a month has.
pub open spec fn month_days(y: int, m: int) -> int {
    if m == 2 {
        if leap_year(y) {
            29
        } else {
            28
        }
    } else if m == 4 || m == 6 || m == 9 || m == 11 {
        30
    } else {
        31
    }
}

/// A date of the calendar.
pub open spec fn is_date(y: int, m: int, d: int) -> bool {
    1 <= m <= 12 && 1 <= d <= month_days(y, m)
}

/// The date after a date.
pub open spec fn day_after(y: int, m: int, d: int) -> (int, int, int) {
    if d < month_days(y, m) {
        (y, m, d + 1)
    } else if m < 12 {
        (y, m + 1, 1)
    } else {
        (y + 1, 1, 1)
    }
}

/// The count starts at the first of January 1970.
pub proof fn law_the_epoch_is_day_zero()
    ensures
        civil_day(1970, 1, 1) == 0,
{
}

/// From one date of the calendar to the next the count goes up by one, over
/// the ends of months, leap days and years alike.
pub proof fn law_the_next_date_is_one_day_later(y: int, m: int, d: int)
    requires
        is_date(y, m, d),
    ensures
        ({
            let (ny, nm, nd) = day_after(y, m, d);
            &&& is_date(ny, nm, nd)
            &&& civil_day(ny, nm, nd) == civil_day(y, m, d) + 1
        }),
{
    let (ny, nm, nd) = day_after(y, m, d);
    assert(march_days(1) == 306 && march_days(2) == 337 && march_days(3) == 0 && march_days(4) == 31
        && march_days(5) == 61 && march_days(6) == 92 && march_days(7) == 122 && march_days(8)
        == 153 && march_days(9) == 184 && march_days(10) == 214 && march_days(11) == 245
        && march_days(12) == 275);
    assert(y / 4 - (y - 1) / 4 == if y % 4 == 0 { 1int } else { 0int });
    assert(y / 100 - (y - 1) / 100 == if y % 100 == 0 { 1int } else { 0int });
    assert(y / 400 - (y - 1) / 400 == if y % 400 == 0 { 1int } else { 0int });
    assert(m == 1 || m == 2 || m == 3 || m == 4 || m == 5 || m == 6 || m == 7 || m == 8 || m == 9
        || m == 10 || m == 11 || m == 12);
}

// ---------------------------------------------------------------------------
// Numbers in bytes.

/// The byte of a decimal digit.
pub open spec fn is_digit_byte(b: u8) -> bool {
    0x30 <= b <= 0x39
}

/// The number a run of digits stands for.
pub open spec fn bytes_value(b: Seq<u8>) -> nat
    decreases b.len(),
{
    if b.len() == 0 {
        0
    } else {
        bytes_value(b.drop_last()) * 10 + (b.last() - 0x30) as nat
    }
}

/// The digits of a number, behind the sign it may carry.
pub open spec fn number_digits(b: Seq<u8>) -> Seq<u8> {
    if b.len() > 0 && (b[0] == 0x2b || b[0] == 0x2d) {
        b.skip(1)
    } else {
        b
    }
}

/// Digits behind a minus sign, or behind none.
pub open spec fn signed_value(b: Seq<u8>) -> int {
    if b.len() > 0 && b[0] == 0x2d {
        -bytes_value(number_digits(b))
    } else {
        bytes_value(number_digits(b)) as int
    }
}

/// The number that bytes spell, when it fits into 64 bits: an optional sign
/// and one or more digits, nothing else.
pub open spec fn signed(b: Seq<u8>) -> Option<int> {
    let digits = number_digits(b);
    if digits.len() > 0 && (forall|i: int|
        0 <= i < digits.len() ==> is_digit_byte(#[trigger] digits[i])) && fits(signed_value(b)) {
        Some(signed_value(b))
    } else {
        None
    }
}

/// The number that bytes spell.
fn parse_signed(b: &[u8]) -> (r: Option<i64>)
    ensures
        match r {
            Some(n) => signed(b@) == Some(n as int),
            None => signed(b@) is None,
        },
{
    if b.len() == 0 {
        return None;
    }
    let negative: bool = b[0] == 0x2d;
    let start: usize = if b[0] == 0x2b || b[0] == 0x2d {
        1
    } else {
        0
    };
    let digits = slice_subrange(b, start, b.len());
    assert(digits@ =~= number_digits(b@));
    if digits.len() == 0 {
        return None;
    }
    // One more than the largest positive number fits behind a minus sign.
    let max: u64 = if negative {
        0x8000_0000_0000_0000
    } else {
        0x7fff_ffff_ffff_ffff
    };
    let mut n: u64 = 0;
    let mut i: usize = 0;
    let mut over: bool = false;
    while i < digits.len()
        invariant
            digits@ == number_digits(b@),
            i <= digits@.len(),
            max <= 0x8000_0000_0000_0000,
            !over ==> n == bytes_value(digits@.take(i as int)) && n <= max,
            over ==> bytes_value(digits@.take(i as int)) > max,
            forall|j: int| 0 <= j < i ==> is_digit_byte(#[trigger] digits@[j]),
        decreases digits@.len() - i,
    {
        let c: u8 = digits[i];
        if !(0x30 <= c && c <= 0x39) {
            assert(!is_digit_byte(digits@[i as int]));
            return None;
        }
        let d: u64 = (c - 0x30) as u64;
        assert(digits@.take(i + 1).drop_last() =~= digits@.take(i as int));
        if over || n > max / 10 || d > max - n * 10 {
            over = true;
        } else {
            n = n * 10 + d;
        }
        i += 1;
    }
    assert(digits@.take(i as int) =~= digits@);
    if over {
        return None;
    }
    if !negative {
        return Some(n as i64);
    }
    if n == 0x8000_0000_0000_0000 {
        return Some(i64::MIN);
    }
    Some(-(n as i64))
}

// ---------------------------------------------------------------------------
// RFC 3339.

/// What follows the seconds says which clock they were read from.
pub enum Zone {
    Utc,
    Offset { behind: bool, hours: int, minutes: int },
    /// No offset this field can hold.
    Invalid,
    /// Four bytes of offset whose middle lies inside a character.
    Torn,
}

/// The offset is whatever follows the seconds and any fraction.
pub open spec fn after_fraction(b: Seq<u8>) -> Seq<u8>
    decreases b.len(),
{
    if b.len() > 0 && (b[0] == 0x2e || is_digit_byte(b[0])) {
        after_fraction(b.skip(1))
    } else {
        b
    }
}

/// The first colon from `from` on.
pub open spec fn colon(b: Seq<u8>, from: nat) -> Option<nat>
    decreases b.len() - from,
{
    if from >= b.len() {
        None
    } else if b[from as int] == 0x3a {
        Some(from)
    } else {
        colon(b, from + 1)
    }
}

/// The bytes that continue a character in UTF-8.
pub open spec fn continues(b: u8) -> bool {
    0x80 <= b <= 0xbf
}

/// Hours and minutes, when both are numbers.
pub open spec fn offset_of(behind: bool, hours: Option<int>, minutes: Option<int>) -> Zone {
    match (hours, minutes) {
        (Some(hours), Some(minutes)) => Zone::Offset { behind, hours, minutes },
        _ => Zone::Invalid,
    }
}

/// A fixed numeric offset: `02:00`, `0200` or `02`.
pub open spec fn offset(behind: bool, body: Seq<u8>) -> Zone {
    match colon(body, 0) {
        Some(i) => offset_of(behind, signed(body.take(i as int)), signed(body.skip(i as int + 1))),
        None => if body.len() != 4 {
            offset_of(behind, signed(body), Some(0))
        } else if continues(body[2]) {
            Zone::Torn
        } else {
            offset_of(behind, signed(body.take(2)), signed(body.skip(2)))
        },
    }
}

/// A fixed numeric offset or `Z`, or nothing at all.
pub open spec fn zone(tz: Seq<u8>) -> Zone {
    if tz.len() == 0 || tz[0] == 0x5a || tz[0] == 0x7a {
        Zone::Utc
    } else if tz[0] == 0x2b || tz[0] == 0x2d {
        offset(tz[0] == 0x2d, tz.skip(1))
    } else {
        Zone::Invalid
    }
}

/// The seconds since the epoch that a date and a time of day stand for when
/// they are read from a clock that shows UTC.
pub open spec fn clock(b: Seq<u8>) -> Option<int> {
    if b.len() < 19 || b[10] != 0x54 {
        None
    } else {
        match (
            signed(b.subrange(0, 4)),
            signed(b.subrange(5, 7)),
            signed(b.subrange(8, 10)),
            signed(b.subrange(11, 13)),
            signed(b.subrange(14, 16)),
            signed(b.subrange(17, 19)),
        ) {
            (Some(y), Some(mo), Some(d), Some(h), Some(mi), Some(sec)) => Some(
                civil_day(y, mo, d) * 86_400 + h * 3600 + mi * 60 + sec,
            ),
            _ => None,
        }
    }
}

/// How far ahead of UTC a clock with this offset is.
pub open spec fn ahead_of_utc(behind: bool, hours: int, minutes: int) -> int {
    if behind {
        -(hours * 3600 + minutes * 60)
    } else {
        hours * 3600 + minutes * 60
    }
}

/// The seconds since the epoch that a timestamp stands for.
pub open spec fn timestamp(b: Seq<u8>) -> Option<int> {
    match clock(b) {
        None => None,
        Some(utc) => match zone(after_fraction(b.skip(19))) {
            Zone::Utc => Some(utc),
            Zone::Offset { behind, hours, minutes } => Some(
                utc - ahead_of_utc(behind, hours, minutes),
            ),
            _ => None,
        },
    }
}

/// The timestamp can be worked out: its offset is not torn, and no step of the
/// count leaves 64 bits.
pub open spec fn placeable(b: Seq<u8>) -> bool {
    clock(b) matches Some(utc) ==> match zone(after_fraction(b.skip(19))) {
        Zone::Torn => false,
        Zone::Offset { behind, hours, minutes } => {
            &&& fits(hours * 3600)
            &&& fits(minutes * 60)
            &&& fits(hours * 3600 + minutes * 60)
            &&& fits(ahead_of_utc(behind, hours, minutes))
            &&& fits(utc - ahead_of_utc(behind, hours, minutes))
        },
        _ => true,
    }
}

/// `Zone`, worked out.
enum Clock {
    Utc,
    Offset { behind: bool, hours: i64, minutes: i64 },
    Invalid,
    Torn,
}

impl Clock {
    spec fn view(&self) -> Zone {
        match *self {
            Clock::Utc => Zone::Utc,
            Clock::Offset { behind, hours, minutes } => Zone::Offset {
                behind,
                hours: hours as int,
                minutes: minutes as int,
            },
            Clock::Invalid => Zone::Invalid,
            Clock::Torn => Zone::Torn,
        }
    }
}

fn offset_from(behind: bool, hours: Option<i64>, minutes: Option<i64>) -> (r: Clock)
    ensures
        r.view() == offset_of(
            behind,
            match hours {
                Some(n) => Some(n as int),
                None => None,
            },
            match minutes {
                Some(n) => Some(n as int),
                None => None,
            },
        ),
{
    match (hours, minutes) {
        (Some(hours), Some(minutes)) => Clock::Offset { behind, hours, minutes },
        _ => Clock::Invalid,
    }
}

/// Which clock the bytes behind the seconds speak of.
fn read_zone(tz: &[u8]) -> (r: Clock)
    ensures
        r.view() == zone(tz@),
{
    if tz.len() == 0 || tz[0] == 0x5a || tz[0] == 0x7a {
        return Clock::Utc;
    }
    if tz[0] != 0x2b && tz[0] != 0x2d {
        return Clock::Invalid;
    }
    let behind: bool = tz[0] == 0x2d;
    let body = slice_subrange(tz, 1, tz.len());
    assert(body@ =~= tz@.skip(1));
    let mut i: usize = 0;
    while i < body.len() && body[i] != 0x3a
        invariant
            i <= body@.len(),
            colon(body@, i as nat) == colon(body@, 0),
        decreases body@.len() - i,
    {
        i += 1;
    }
    if i < body.len() {
        let a = slice_subrange(body, 0, i);
        let b = slice_subrange(body, i + 1, body.len());
        assert(a@ =~= body@.take(i as int));
        assert(b@ =~= body@.skip(i + 1));
        return offset_from(behind, parse_signed(a), parse_signed(b));
    }
    if body.len() != 4 {
        return offset_from(behind, parse_signed(body), Some(0));
    }
    if 0x80 <= body[2] && body[2] <= 0xbf {
        return Clock::Torn;
    }
    let a = slice_subrange(body, 0, 2);
    let b = slice_subrange(body, 2, 4);
    assert(a@ =~= body@.take(2));
    assert(b@ =~= body@.skip(2));
    offset_from(behind, parse_signed(a), parse_signed(b))
}

/// A number of two or four bytes is small.
proof fn lemma_short_number(b: Seq<u8>)
    requires
        b.len() <= 4,
    ensures
        signed(b) matches Some(n) ==> -9999 <= n <= 9999,
{
    let d = number_digits(b);
    if signed(b) is Some {
        reveal_with_fuel(bytes_value, 5);
        assert forall|i: int| 0 <= i < d.len() implies 0x30 <= #[trigger] d[i] <= 0x39 by {
            assert(is_digit_byte(d[i]));
        }
        if d.len() == 1 {
            assert(d.drop_last().len() == 0);
        } else if d.len() == 2 {
            assert(d.drop_last().drop_last().len() == 0);
            assert(d.drop_last().last() == d[0]);
        } else if d.len() == 3 {
            assert(d.drop_last().drop_last().drop_last().len() == 0);
            assert(d.drop_last().last() == d[1]);
            assert(d.drop_last().drop_last().last() == d[0]);
        } else if d.len() == 4 {
            assert(d.drop_last().drop_last().drop_last().drop_last().len() == 0);
            assert(d.drop_last().last() == d[2]);
            assert(d.drop_last().drop_last().last() == d[1]);
            assert(d.drop_last().drop_last().drop_last().last() == d[0]);
        }
    }
}

/// The number in `b` from `from` to `to`.
fn field(b: &[u8], from: usize, to: usize) -> (r: Option<i64>)
    requires
        from <= to <= b@.len(),
        to - from <= 4,
    ensures
        match r {
            Some(n) => signed(b@.subrange(from as int, to as int)) == Some(n as int) && -9999 <= n
                <= 9999,
            None => signed(b@.subrange(from as int, to as int)) is None,
        },
{
    proof {
        lemma_short_number(b@.subrange(from as int, to as int));
    }
    parse_signed(slice_subrange(b, from, to))
}

/// What a timestamp says before its offset is taken into account.
fn read_clock(b: &[u8]) -> (r: Option<i64>)
    ensures
        match r {
            Some(n) => clock(b@) == Some(n as int) && -400_000_000_000 <= n <= 400_000_000_000,
            None => clock(b@) is None,
        },
{
    if b.len() < 19 || b[10] != 0x54 {
        return None;
    }
    let y: i64 = match field(b, 0, 4) {
        Some(n) => n,
        None => return None,
    };
    let mo: i64 = match field(b, 5, 7) {
        Some(n) => n,
        None => return None,
    };
    let d: i64 = match field(b, 8, 10) {
        Some(n) => n,
        None => return None,
    };
    let h: i64 = match field(b, 11, 13) {
        Some(n) => n,
        None => return None,
    };
    let mi: i64 = match field(b, 14, 16) {
        Some(n) => n,
        None => return None,
    };
    let sec: i64 = match field(b, 17, 19) {
        Some(n) => n,
        None => return None,
    };
    assert(-400 <= march_days(mo as int) <= 400);
    Some(days_from_civil(y, mo, d) * 86_400 + h * 3600 + mi * 60 + sec)
}

/// The bytes behind the fraction.
fn skip_fraction(b: &[u8]) -> (r: &[u8])
    ensures
        r@ == after_fraction(b@),
{
    let mut i: usize = 0;
    assert(b@.skip(0) =~= b@);
    while i < b.len() && (b[i] == 0x2e || (0x30 <= b[i] && b[i] <= 0x39))
        invariant
            i <= b@.len(),
            after_fraction(b@.skip(i as int)) == after_fraction(b@),
        decreases b@.len() - i,
    {
        assert(b@.skip(i as int).skip(1) =~= b@.skip(i + 1));
        i += 1;
    }
    let r = slice_subrange(b, i, b.len());
    assert(r@ =~= b@.skip(i as int));
    r
}

/// Both halves of a timestamp.
fn read_parts(s: &str) -> (r: Option<(i64, Clock)>)
    ensures
        match r {
            Some((utc, c)) => clock(encode_utf8(s@)) == Some(utc as int) && c.view() == zone(
                after_fraction(encode_utf8(s@).skip(19)),
            ) && -400_000_000_000 <= utc <= 400_000_000_000,
            None => clock(encode_utf8(s@)) is None,
        },
{
    let b = s.as_bytes();
    match read_clock(b) {
        None => None,
        Some(utc) => {
            let rest = slice_subrange(b, 19, b.len());
            assert(rest@ =~= b@.skip(19));
            Some((utc, read_zone(skip_fraction(rest))))
        },
    }
}

/// Whether `parse_rfc3339` can work a timestamp out.
pub fn can_place(s: &str) -> (r: bool)
    ensures
        r == placeable(encode_utf8(s@)),
{
    match read_parts(s) {
        None => true,
        Some((utc, c)) => match c {
            Clock::Utc => true,
            Clock::Invalid => true,
            Clock::Torn => false,
            Clock::Offset { behind, hours, minutes } => {
                let h: i128 = hours as i128 * 3600;
                let m: i128 = minutes as i128 * 60;
                let sum: i128 = h + m;
                let ahead: i128 = if behind {
                    -sum
                } else {
                    sum
                };
                in_range(h) && in_range(m) && in_range(sum) && in_range(ahead) && in_range(
                    utc as i128 - ahead,
                )
            },
        },
    }
}

/// Whether a number fits into 64 bits.
fn in_range(n: i128) -> (r: bool)
    ensures
        r == fits(n as int),
{
    i64::MIN as i128 <= n && n <= i64::MAX as i128
}

/// Seconds since the epoch for an RFC 3339 timestamp, e.g.
/// `2026-09-17T16:10:00.888709+00:00`.
///
/// Only what one field of the cache can hold: a fixed numeric offset or `Z`.
pub fn parse_rfc3339(s: &str) -> (r: Option<i64>)
    requires
        placeable(encode_utf8(s@)),
    ensures
        match r {
            Some(n) => timestamp(encode_utf8(s@)) == Some(n as int),
            None => timestamp(encode_utf8(s@)) is None,
        },
{
    match read_parts(s) {
        None => None,
        Some((utc, c)) => match c {
            Clock::Utc => Some(utc),
            Clock::Offset { behind, hours, minutes } => {
                let mag: i64 = hours * 3600 + minutes * 60;
                Some(
                    utc - (if behind {
                        -mag
                    } else {
                        mag
                    }),
                )
            },
            _ => None,
        },
    }
}

// ---------------------------------------------------------------------------
// What holds of timestamps as a whole.

/// Bytes that can stand in a fraction.
pub open spec fn is_fraction(f: Seq<u8>) -> bool {
    forall|i: int| 0 <= i < f.len() ==> f[i] == 0x2e || is_digit_byte(#[trigger] f[i])
}

/// Bytes that end a fraction.
pub open spec fn ends_fraction(z: Seq<u8>) -> bool {
    z.len() == 0 || !(z[0] == 0x2e || is_digit_byte(z[0]))
}

proof fn lemma_after_fraction(f: Seq<u8>, z: Seq<u8>)
    requires
        is_fraction(f),
        ends_fraction(z),
    ensures
        after_fraction(f + z) == z,
    decreases f.len(),
{
    if f.len() == 0 {
        assert(f + z =~= z);
    } else {
        let rest = f.skip(1);
        assert forall|i: int| 0 <= i < rest.len() implies rest[i] == 0x2e || is_digit_byte(
            #[trigger] rest[i],
        ) by {
            assert(rest[i] == f[i + 1]);
        }
        lemma_after_fraction(rest, z);
        assert((f + z).skip(1) =~= rest + z);
        assert((f + z)[0] == f[0]);
    }
}

proof fn lemma_clock_prefix(t: Seq<u8>, rest: Seq<u8>)
    requires
        t.len() == 19,
    ensures
        clock(t + rest) == clock(t),
        (t + rest).skip(19) == rest,
{
    let b = t + rest;
    assert(b.skip(19) =~= rest);
    assert(b[10] == t[10]);
    assert(b.subrange(0, 4) =~= t.subrange(0, 4));
    assert(b.subrange(5, 7) =~= t.subrange(5, 7));
    assert(b.subrange(8, 10) =~= t.subrange(8, 10));
    assert(b.subrange(11, 13) =~= t.subrange(11, 13));
    assert(b.subrange(14, 16) =~= t.subrange(14, 16));
    assert(b.subrange(17, 19) =~= t.subrange(17, 19));
}

/// A fraction of a second does not change the second a timestamp stands for.
pub proof fn law_a_fraction_changes_nothing(t: Seq<u8>, fraction: Seq<u8>, z: Seq<u8>)
    requires
        t.len() == 19,
        is_fraction(fraction),
        ends_fraction(z),
    ensures
        timestamp(t + fraction + z) == timestamp(t + z),
{
    assert(t + fraction + z =~= t + (fraction + z));
    lemma_clock_prefix(t, fraction + z);
    lemma_clock_prefix(t, z);
    lemma_after_fraction(fraction, z);
    lemma_after_fraction(Seq::empty(), z);
    assert(Seq::<u8>::empty() + z =~= z);
}

/// An offset moves the instant the other way: the same clock time two hours
/// ahead of UTC is two hours earlier.
pub proof fn law_an_offset_moves_the_instant_the_other_way(t: Seq<u8>, z: Seq<u8>)
    requires
        t.len() == 19,
        ends_fraction(z),
        zone(z) is Offset,
    ensures
        timestamp(t + z) == match (timestamp(t + seq![0x5au8]), zone(z)) {
            (Some(utc), Zone::Offset { behind, hours, minutes }) => Some(
                utc - ahead_of_utc(behind, hours, minutes),
            ),
            _ => None,
        },
{
    let utc = seq![0x5au8];
    lemma_clock_prefix(t, z);
    lemma_clock_prefix(t, utc);
    lemma_after_fraction(Seq::empty(), z);
    lemma_after_fraction(Seq::empty(), utc);
    assert(Seq::<u8>::empty() + z =~= z);
    assert(Seq::<u8>::empty() + utc =~= utc);
}


/// A number under a hundred in two digits.
pub open spec fn in_two(n: int) -> Seq<u8> {
    seq![(0x30 + n / 10) as u8, (0x30 + n % 10) as u8]
}

/// A number under ten thousand in four digits.
pub open spec fn in_four(n: int) -> Seq<u8> {
    in_two(n / 100) + in_two(n % 100)
}

/// A date and a time of day, as they are written.
#[verifier::opaque]
pub open spec fn written(y: int, m: int, d: int, h: int, mi: int, sec: int) -> Seq<u8> {
    in_four(y) + seq![0x2du8] + in_two(m) + seq![0x2du8] + in_two(d) + seq![0x54u8] + in_two(h)
        + seq![0x3au8] + in_two(mi) + seq![0x3au8] + in_two(sec)
}

/// An offset, as it is written: the sign, the hours, and the minutes behind
/// what stands between them.
#[verifier::opaque]
pub open spec fn written_offset(sign: u8, hours: int, between: Seq<u8>, minutes: int) -> Seq<u8> {
    seq![sign] + in_two(hours) + between + in_two(minutes)
}

/// An offset of hours alone, as it is written.
#[verifier::opaque]
pub open spec fn written_hours(sign: u8, hours: int) -> Seq<u8> {
    seq![sign] + in_two(hours)
}

/// The mark of a clock that shows UTC.
pub open spec fn utc_mark() -> Seq<u8> {
    seq![0x5au8]
}

proof fn lemma_in_two(n: int)
    requires
        0 <= n < 100,
    ensures
        signed(in_two(n)) == Some(n),
        in_two(n).len() == 2,
        is_digit_byte(in_two(n)[0]),
        is_digit_byte(in_two(n)[1]),
{
    let b = in_two(n);
    reveal_with_fuel(bytes_value, 3);
    assert(b.drop_last().drop_last().len() == 0);
    assert(b.drop_last().last() == b[0]);
    assert(number_digits(b) == b);
    assert(bytes_value(b) == n);
    assert forall|i: int| 0 <= i < b.len() implies is_digit_byte(#[trigger] b[i]) by {
    }
}

proof fn lemma_in_four(n: int)
    requires
        0 <= n < 10_000,
    ensures
        signed(in_four(n)) == Some(n),
        in_four(n).len() == 4,
{
    let b = in_four(n);
    lemma_in_two(n / 100);
    lemma_in_two(n % 100);
    reveal_with_fuel(bytes_value, 5);
    assert(b[0] == in_two(n / 100)[0] && b[1] == in_two(n / 100)[1]);
    assert(b[2] == in_two(n % 100)[0] && b[3] == in_two(n % 100)[1]);
    assert(b.drop_last().drop_last().drop_last().drop_last().len() == 0);
    assert(b.drop_last().last() == b[2]);
    assert(b.drop_last().drop_last().last() == b[1]);
    assert(b.drop_last().drop_last().drop_last().last() == b[0]);
    assert(number_digits(b) == b);
    assert(bytes_value(b) == n);
    assert forall|i: int| 0 <= i < b.len() implies is_digit_byte(#[trigger] b[i]) by {
    }
}

proof fn lemma_written(y: int, m: int, d: int, h: int, mi: int, sec: int)
    requires
        0 <= y < 10_000,
        0 <= m < 100,
        0 <= d < 100,
        0 <= h < 100,
        0 <= mi < 100,
        0 <= sec < 100,
    ensures
        written(y, m, d, h, mi, sec).len() == 19,
        clock(written(y, m, d, h, mi, sec)) == Some(
            civil_day(y, m, d) * 86_400 + h * 3600 + mi * 60 + sec,
        ),
        timestamp(written(y, m, d, h, mi, sec) + utc_mark()) == Some(
            civil_day(y, m, d) * 86_400 + h * 3600 + mi * 60 + sec,
        ),
{
    reveal(written);
    let b = written(y, m, d, h, mi, sec);
    lemma_in_four(y);
    lemma_in_two(m);
    lemma_in_two(d);
    lemma_in_two(h);
    lemma_in_two(mi);
    lemma_in_two(sec);
    assert(b.subrange(0, 4) =~= in_four(y));
    assert(b.subrange(5, 7) =~= in_two(m));
    assert(b.subrange(8, 10) =~= in_two(d));
    assert(b.subrange(11, 13) =~= in_two(h));
    assert(b.subrange(14, 16) =~= in_two(mi));
    assert(b.subrange(17, 19) =~= in_two(sec));
    lemma_clock_prefix(b, utc_mark());
    lemma_after_fraction(Seq::empty(), utc_mark());
    assert(Seq::<u8>::empty() + utc_mark() =~= utc_mark());
}

/// A time of day is as many seconds behind the midnight its date begins with
/// as have passed of the day: a second counts one, a minute sixty, an hour
/// three thousand six hundred. Hours, minutes and seconds go on counting beyond
/// what a clock shows, and days beyond what their month has: each is a day
/// behind the one before it.
#[verifier::spinoff_prover]
#[verifier::rlimit(60)]
pub proof fn law_a_time_of_day_counts_its_seconds(
    y: int,
    m: int,
    d: int,
    h: int,
    mi: int,
    sec: int,
)
    requires
        0 <= y < 10_000,
        0 <= m < 100,
        0 <= d < 100,
        0 <= h < 100,
        0 <= mi < 100,
        0 <= sec < 100,
    ensures
        timestamp(written(y, m, 0, 0, 0, 0) + utc_mark()) matches Some(start) && timestamp(
            written(y, m, d, h, mi, sec) + utc_mark(),
        ) == Some(start + sec + 60 * (mi + 60 * (h + 24 * d))),
{
    let start = civil_day(y, m, 0);
    assert(civil_day(y, m, d) == start + d);
    lemma_counted(y, m, 0, 0, 0, 0, start);
    lemma_counted(y, m, d, h, mi, sec, start + d);
}

proof fn lemma_counted(y: int, m: int, d: int, h: int, mi: int, sec: int, day: int)
    requires
        0 <= y < 10_000,
        0 <= m < 100,
        0 <= d < 100,
        0 <= h < 100,
        0 <= mi < 100,
        0 <= sec < 100,
        civil_day(y, m, d) == day,
    ensures
        timestamp(written(y, m, d, h, mi, sec) + utc_mark()) == Some(
            day * 86_400 + h * 3600 + mi * 60 + sec,
        ),
{
    lemma_written(y, m, d, h, mi, sec);
}

proof fn lemma_last_second(y: int, m: int, d: int, ny: int, nm: int, nd: int, day: int)
    requires
        0 <= y < 10_000,
        0 <= m < 100,
        0 <= d < 100,
        0 <= ny < 10_000,
        0 <= nm < 100,
        0 <= nd < 100,
        civil_day(y, m, d) == day,
        civil_day(ny, nm, nd) == day + 1,
    ensures
        timestamp(written(y, m, d, 23, 59, 59) + utc_mark()) == Some(day * 86_400 + 86_399),
        timestamp(written(ny, nm, nd, 0, 0, 0) + utc_mark()) == Some(day * 86_400 + 86_400),
{
    assert(timestamp(written(y, m, d, 23, 59, 59) + utc_mark()) == Some(day * 86_400 + 86_399)) by {
        lemma_written(y, m, d, 23, 59, 59);
    }
    assert(timestamp(written(ny, nm, nd, 0, 0, 0) + utc_mark()) == Some(day * 86_400 + 86_400)) by {
        lemma_written(ny, nm, nd, 0, 0, 0);
    }
}

/// The first midnight of 1970 is where the count of seconds starts.
pub proof fn law_the_epoch_is_second_zero()
    ensures
        timestamp(written(1970, 1, 1, 0, 0, 0) + utc_mark()) == Some(0int),
{
    lemma_written(1970, 1, 1, 0, 0, 0);
}

/// The last second of a date is one second before the midnight of the date
/// after it, over the ends of months, leap days and years alike.
#[verifier::spinoff_prover]
#[verifier::rlimit(60)]
pub proof fn law_a_day_ends_where_the_next_begins(y: int, m: int, d: int)
    requires
        0 <= y < 10_000,
        is_date(y, m, d),
        day_after(y, m, d).0 < 10_000,
    ensures
        ({
            let (ny, nm, nd) = day_after(y, m, d);
            timestamp(written(y, m, d, 23, 59, 59) + utc_mark()) matches Some(last) && timestamp(
                written(ny, nm, nd, 0, 0, 0) + utc_mark(),
            ) == Some(last + 1)
        }),
{
    let (ny, nm, nd) = day_after(y, m, d);
    law_the_next_date_is_one_day_later(y, m, d);
    lemma_last_second(y, m, d, ny, nm, nd, civil_day(y, m, d));
}

/// The days a month has are those of the calendar: the leap day falls on every
/// fourth year, but for the centuries that four hundred does not divide.
pub proof fn law_the_calendar_is_the_civil_one(y: int)
    ensures
        is_date(y, 2, 29) == (y % 400 == 0 || (y % 4 == 0 && y % 100 != 0)),
        !is_date(y, 2, 30) && is_date(y, 2, 28),
        is_date(y, 4, 30) && !is_date(y, 4, 31),
        is_date(y, 6, 30) && !is_date(y, 6, 31),
        is_date(y, 9, 30) && !is_date(y, 9, 31),
        is_date(y, 11, 30) && !is_date(y, 11, 31),
        forall|m: int| m == 1 || m == 3 || m == 5 || m == 7 || m == 8 || m == 10 || m == 12
            ==> #[trigger] is_date(y, m, 31) && !is_date(y, m, 32),
{
}

/// An offset of hours and minutes, written with or without a colon between
/// them, or of hours alone, moves the instant by exactly that much, back when
/// the clock is ahead of UTC and forward when it is behind. A mark of UTC moves
/// nothing, and neither does none at all.
#[verifier::spinoff_prover]
#[verifier::rlimit(60)]
pub proof fn law_an_offset_counts_its_hours_and_minutes(t: Seq<u8>, hours: int, minutes: int)
    requires
        t.len() == 19,
        timestamp(t + utc_mark()) is Some,
        0 <= hours < 100,
        0 <= minutes < 100,
    ensures
        ({
            let utc = timestamp(t + utc_mark())->0;
            let far = 60 * (60 * hours + minutes);
            let none = Seq::empty();
            let colon = seq![0x3au8];
            &&& timestamp(t + written_offset(0x2b, hours, colon, minutes)) == Some(utc - far)
            &&& timestamp(t + written_offset(0x2d, hours, colon, minutes)) == Some(utc + far)
            &&& timestamp(t + written_offset(0x2b, hours, none, minutes)) == Some(utc - far)
            &&& timestamp(t + written_offset(0x2d, hours, none, minutes)) == Some(utc + far)
            &&& timestamp(t + written_hours(0x2b, hours)) == Some(utc - 3600 * hours)
            &&& timestamp(t + written_hours(0x2d, hours)) == Some(utc + 3600 * hours)
            &&& timestamp(t + seq![0x7au8]) == Some(utc)
            &&& timestamp(t) == Some(utc)
        }),
{
    lemma_utc(t);
    lemma_offset(t, 0x2b, hours, minutes);
    lemma_offset(t, 0x2d, hours, minutes);
}

proof fn lemma_zone(t: Seq<u8>, z: Seq<u8>)
    requires
        t.len() == 19,
        ends_fraction(z),
    ensures
        clock(t + z) == clock(t),
        after_fraction((t + z).skip(19)) == z,
{
    lemma_clock_prefix(t, z);
    lemma_after_fraction(Seq::empty(), z);
    assert(Seq::<u8>::empty() + z =~= z);
}

proof fn lemma_utc(t: Seq<u8>)
    requires
        t.len() == 19,
    ensures
        timestamp(t + utc_mark()) == clock(t),
        timestamp(t + seq![0x7au8]) == clock(t),
        timestamp(t) == clock(t),
{
    lemma_zone(t, utc_mark());
    lemma_zone(t, seq![0x7au8]);
    lemma_zone(t, Seq::empty());
    assert(t + Seq::<u8>::empty() =~= t);
}

proof fn lemma_offset(t: Seq<u8>, sign: u8, hours: int, minutes: int)
    requires
        t.len() == 19,
        clock(t) is Some,
        sign == 0x2b || sign == 0x2d,
        0 <= hours < 100,
        0 <= minutes < 100,
    ensures
        ({
            let utc = clock(t)->0;
            let far = 3600 * hours + 60 * minutes;
            let by = if sign == 0x2d {
                -far
            } else {
                far
            };
            &&& timestamp(t + written_offset(sign, hours, seq![0x3au8], minutes)) == Some(utc - by)
            &&& timestamp(t + written_offset(sign, hours, Seq::empty(), minutes)) == Some(utc - by)
            &&& timestamp(t + written_hours(sign, hours)) == Some(
                utc - (if sign == 0x2d {
                    -3600 * hours
                } else {
                    3600 * hours
                }),
            )
        }),
{
    let h = in_two(hours);
    let m = in_two(minutes);
    let long = written_offset(sign, hours, seq![0x3au8], minutes);
    let short = written_offset(sign, hours, Seq::empty(), minutes);
    let alone = written_hours(sign, hours);
    lemma_in_two(hours);
    lemma_in_two(minutes);
    assert(long[0] == sign && long.skip(1) =~= h + seq![0x3au8] + m) by {
        reveal(written_offset);
    }
    assert(short[0] == sign && short.skip(1) =~= h + m) by {
        reveal(written_offset);
    }
    assert(alone[0] == sign && alone.skip(1) =~= h) by {
        reveal(written_hours);
    }
    assert(long.len() > 0 && short.len() > 0 && alone.len() > 0) by {
        reveal(written_offset);
        reveal(written_hours);
    }
    lemma_zone(t, long);
    lemma_zone(t, short);
    lemma_zone(t, alone);
    lemma_offset_bodies(h, m);
    assert(zone(long) == Zone::Offset { behind: sign == 0x2d, hours, minutes });
    assert(zone(short) == Zone::Offset { behind: sign == 0x2d, hours, minutes });
    assert(zone(alone) == Zone::Offset { behind: sign == 0x2d, hours, minutes: 0 });
}

proof fn lemma_offset_bodies(h: Seq<u8>, m: Seq<u8>)
    requires
        h.len() == 2,
        m.len() == 2,
        is_digit_byte(h[0]) && is_digit_byte(h[1]),
        is_digit_byte(m[0]) && is_digit_byte(m[1]),
    ensures
        colon(h + seq![0x3au8] + m, 0) == Some(2nat),
        (h + seq![0x3au8] + m).take(2) == h,
        (h + seq![0x3au8] + m).skip(3) == m,
        colon(h + m, 0) is None,
        (h + m).len() == 4,
        !continues((h + m)[2]),
        (h + m).take(2) == h,
        (h + m).skip(2) == m,
        colon(h, 0) is None,
{
    reveal_with_fuel(colon, 6);
    assert((h + seq![0x3au8] + m).take(2) =~= h);
    assert((h + seq![0x3au8] + m).skip(3) =~= m);
    assert((h + m).take(2) =~= h);
    assert((h + m).skip(2) =~= m);
}

/// Every timestamp that is written out in full can be worked out, whatever
/// offset of hours and minutes it carries.
#[verifier::spinoff_prover]
#[verifier::rlimit(60)]
pub proof fn law_an_ordinary_timestamp_can_be_placed(t: Seq<u8>, hours: int, minutes: int)
    requires
        t.len() == 19,
        clock(t) matches Some(utc) ==> -400_000_000_000 <= utc <= 400_000_000_000,
        0 <= hours < 100,
        0 <= minutes < 100,
    ensures
        placeable(t + utc_mark()),
        placeable(t),
        placeable(t + written_offset(0x2b, hours, seq![0x3au8], minutes)),
        placeable(t + written_offset(0x2d, hours, seq![0x3au8], minutes)),
{
    lemma_zone(t, utc_mark());
    lemma_zone(t, Seq::empty());
    assert(t + Seq::<u8>::empty() =~= t);
    lemma_placeable(t, 0x2b, hours, minutes);
    lemma_placeable(t, 0x2d, hours, minutes);
}

proof fn lemma_placeable(t: Seq<u8>, sign: u8, hours: int, minutes: int)
    requires
        t.len() == 19,
        clock(t) matches Some(utc) ==> -400_000_000_000 <= utc <= 400_000_000_000,
        sign == 0x2b || sign == 0x2d,
        0 <= hours < 100,
        0 <= minutes < 100,
    ensures
        placeable(t + written_offset(sign, hours, seq![0x3au8], minutes)),
{
    let h = in_two(hours);
    let m = in_two(minutes);
    let long = written_offset(sign, hours, seq![0x3au8], minutes);
    lemma_in_two(hours);
    lemma_in_two(minutes);
    assert(long.len() > 0 && long[0] == sign && long.skip(1) =~= h + seq![0x3au8] + m) by {
        reveal(written_offset);
    }
    lemma_zone(t, long);
    lemma_offset_bodies(h, m);
    assert(zone(long) == Zone::Offset { behind: sign == 0x2d, hours, minutes });
}

/// What is too short for a date and a time of day is no timestamp, and neither
/// is what lacks the letter between them, has anything but a number where one
/// belongs, or ends in anything but an offset.
pub proof fn law_what_is_no_timestamp_is_none(b: Seq<u8>)
    ensures
        b.len() < 19 ==> timestamp(b) is None,
        b.len() >= 19 && b[10] != 0x54 ==> timestamp(b) is None,
        b.len() >= 19 && (signed(b.subrange(0, 4)) is None || signed(b.subrange(5, 7)) is None
            || signed(b.subrange(8, 10)) is None || signed(b.subrange(11, 13)) is None || signed(
            b.subrange(14, 16),
        ) is None || signed(b.subrange(17, 19)) is None) ==> timestamp(b) is None,
        b.len() > 19 && ends_fraction(b.skip(19)) && b[19] != 0x5a && b[19] != 0x7a && b[19] != 0x2b
            && b[19] != 0x2d ==> timestamp(b) is None,
{
    if b.len() > 19 && ends_fraction(b.skip(19)) {
        assert(b.skip(19)[0] == b[19]);
        assert(after_fraction(b.skip(19)) == b.skip(19));
    }
}

/// A plus sign in front of digits changes nothing and a minus sign changes only
/// the sign; anything that is no digit makes a number none.
pub proof fn law_a_sign_changes_only_the_sign(d: Seq<u8>, i: int)
    requires
        0 < d.len() <= 4,
    ensures
        is_digit_byte(d[0]) ==> (signed(d) matches Some(n) ==> signed(seq![0x2bu8] + d) == Some(n)
            && signed(seq![0x2du8] + d) == Some(-n)),
        0 < i < d.len() && !is_digit_byte(d[i]) ==> signed(d) is None,
        !is_digit_byte(d[0]) && d[0] != 0x2b && d[0] != 0x2d ==> signed(d) is None,
{
    lemma_short_number(d);
    let plus = seq![0x2bu8] + d;
    let minus = seq![0x2du8] + d;
    assert(plus[0] == 0x2b && plus.skip(1) =~= d);
    assert(minus[0] == 0x2d && minus.skip(1) =~= d);
    if signed(d) is Some && is_digit_byte(d[0]) {
        assert(number_digits(d) == d);
        assert(signed_value(minus) == -signed_value(d));
        assert(signed_value(plus) == signed_value(d));
    }
    if 0 < i < d.len() && !is_digit_byte(d[i]) {
        if number_digits(d) != d {
            assert(number_digits(d)[i - 1] == d[i]);
        }
    }
}

} // verus!
