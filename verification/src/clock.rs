//! Moments and how they are written. A moment is a number of seconds since the epoch, in UTC, or,
//! where it came with an offset and a part of a second, what a clock at that offset shows.

use vstd::prelude::*;

#[allow(unused_imports)]
use crate::text::{before, digit, digits};

verus! {

/// A moment by its date and its time of day.
#[derive(Debug, Clone, Copy, PartialEq, Eq, Structural)]
pub struct Civil {
    pub year: i32,
    pub month: u8,
    pub day: u8,
    pub hour: u8,
    pub minute: u8,
    pub second: u8,
}

/// The first moment of the year -9999 and the last of the year 9999: what has a date.
pub const FIRST_MOMENT: i64 = -377_705_116_800;

pub const LAST_MOMENT: i64 = 253_402_300_799;

/// Has the moment a date?
pub open spec fn has_date(at: int) -> bool {
    FIRST_MOMENT <= at <= LAST_MOMENT
}

/// Has the year a twenty-ninth of February?
pub open spec fn leap(year: int) -> bool {
    year % 4 == 0 && (year % 100 != 0 || year % 400 == 0)
}

/// How many days the month has.
pub open spec fn days_in_month(year: int, month: int) -> int {
    if month == 2 {
        if leap(year) {
            29
        } else {
            28
        }
    } else if month == 4 || month == 6 || month == 9 || month == 11 {
        30
    } else {
        31
    }
}

/// How many days of the year come before the month.
pub open spec fn days_before_month(year: int, month: int) -> int
    decreases month,
{
    if month <= 1 {
        0
    } else {
        days_before_month(year, month - 1) + days_in_month(year, month - 1)
    }
}

/// How many days lie between the first of January 1970 and the first of January of the year.
pub open spec fn days_to_year(year: int) -> int {
    365 * year + (year - 1) / 4 - (year - 1) / 100 + (year - 1) / 400 + 1 - 719_528
}

/// How many days lie between the first of January 1970 and the date, in the Gregorian calendar
/// carried back before its time, with a year 0.
pub open spec fn days_to(year: int, month: int, day: int) -> int {
    days_to_year(year) + days_before_month(year, month) + day - 1
}

/// Are the components in their ranges?
pub open spec fn civil_wf(c: Civil) -> bool {
    &&& -9999 <= c.year <= 9999
    &&& 1 <= c.month <= 12
    &&& 1 <= c.day <= days_in_month(c.year as int, c.month as int)
    &&& c.hour < 24
    &&& c.minute < 60
    &&& c.second < 60
}

/// Is this the moment's date and time of day?
pub open spec fn is_civil(at: int, c: Civil) -> bool {
    &&& civil_wf(c)
    &&& days_to(c.year as int, c.month as int, c.day as int) == at / 86400
    &&& c.hour == (at % 86400) / 3600
    &&& c.minute == (at % 3600) / 60
    &&& c.second == at % 60
}

/// The moment's date and time of day.
pub open spec fn civil_at(at: int) -> Civil {
    choose|c: Civil| is_civil(at, c)
}

/// `time::OffsetDateTime::from_unix_timestamp`, with `date` and `time` of what it gives: the
/// Gregorian date of the day the moment falls in, and the hours, minutes and seconds into that
/// day. It refuses a moment outside the years -9999 to 9999.
#[verifier::external_body]
pub(crate) fn civil(at: i64) -> (r: Option<Civil>)
    ensures
        r is Some == has_date(at as int),
        r is Some ==> is_civil(at as int, r->0),
{
    let t = time::OffsetDateTime::from_unix_timestamp(at).ok()?;
    let (year, month, day) = t.to_calendar_date();
    let (hour, minute, second) = t.to_hms();
    Some(Civil { year, month: u8::from(month), day, hour, minute, second })
}

/// Two decimal digits.
pub open spec fn two(n: int) -> Seq<char> {
    seq![digit((n / 10) as nat), digit((n % 10) as nat)]
}

/// Three decimal digits.
pub open spec fn three(n: int) -> Seq<char> {
    seq![digit((n / 100) as nat)] + two(n % 100)
}

/// Four decimal digits.
pub open spec fn four(n: int) -> Seq<char> {
    two(n / 100) + two(n % 100)
}

/// A year in four places, the sign taking one of them where there is room.
pub open spec fn year_text(year: int) -> Seq<char> {
    if year >= 0 {
        four(year)
    } else if year > -1000 {
        seq!['-'] + three(-year)
    } else {
        seq!['-'] + four(-year)
    }
}

/// `2026-09-13T08:05:00Z`.
pub open spec fn stamp_text(c: Civil) -> Seq<char> {
    year_text(c.year as int) + (seq!['-'] + two(c.month as int) + (seq!['-'] + two(c.day as int) + (
    seq!['T'] + two(c.hour as int) + (seq![':'] + two(c.minute as int) + (seq![':'] + two(
        c.second as int,
    ) + seq!['Z'])))))
}

fn push_digit(s: &mut String, n: u16)
    requires
        n < 10,
    ensures
        final(s)@ == old(s)@.push(digit(n as nat)),
{
    s.push((48u8 + n as u8) as char);
}

fn push_two(s: &mut String, n: u16)
    requires
        n < 100,
    ensures
        final(s)@ == old(s)@ + two(n as int),
{
    let ghost was = s@;
    push_digit(s, n / 10);
    push_digit(s, n % 10);
    assert(s@ =~= was + two(n as int));
}

/// The format in which text sorts as time does.
pub fn stamp(at: Civil) -> (r: String)
    requires
        civil_wf(at),
    ensures
        r@ == stamp_text(at),
{
    let mut s = String::new();
    let y: u16 = if at.year < 0 {
        s.push('-');
        (-at.year) as u16
    } else {
        at.year as u16
    };
    if at.year < 0 && at.year > -1000 {
        push_digit(&mut s, y / 100);
        push_two(&mut s, y % 100);
    } else {
        push_two(&mut s, y / 100);
        push_two(&mut s, y % 100);
    }
    assert(s@ =~= year_text(at.year as int));
    s.push('-');
    push_two(&mut s, at.month as u16);
    s.push('-');
    push_two(&mut s, at.day as u16);
    s.push('T');
    push_two(&mut s, at.hour as u16);
    s.push(':');
    push_two(&mut s, at.minute as u16);
    s.push(':');
    push_two(&mut s, at.second as u16);
    s.push('Z');
    assert(s@ =~= stamp_text(at));
    s
}

/// The stamp of a moment that has a date.
pub fn stamp_of(at: i64) -> (r: Option<String>)
    ensures
        r is Some == has_date(at as int),
        r matches Some(s) ==> s@ == stamp_text(civil_at(at as int)),
{
    match civil(at) {
        Some(c) => {
            proof {
                civil_at_is(at as int, c);
            }
            Some(stamp(c))
        },
        None => None,
    }
}

/// The number in so many decimal digits.
pub open spec fn padded(n: int, places: nat) -> Seq<char>
    decreases places,
{
    if places == 0 {
        Seq::empty()
    } else {
        padded(n / 10, (places - 1) as nat).push(digit((n % 10) as nat))
    }
}

/// The number in so many decimal digits, without the zeros at its end.
pub open spec fn trimmed(n: int, places: nat) -> Seq<char>
    decreases places,
{
    if places > 1 && n % 10 == 0 {
        trimmed(n / 10, (places - 1) as nat)
    } else {
        padded(n, places)
    }
}

/// What stands between the seconds and the offset: nothing for a whole second.
pub open spec fn fraction(nanos: int) -> Seq<char> {
    if nanos == 0 {
        Seq::empty()
    } else {
        seq!['.'] + trimmed(nanos, 9)
    }
}

/// The first moment of the year 0: RFC 3339 has no text for what comes before.
pub const YEAR_ZERO: i64 = -62_167_219_200;

/// The nanoseconds of a second.
pub const NANOS: i128 = 1_000_000_000;

/// The whole seconds of a length of time in nanoseconds, the rest cut off.
pub open spec fn whole_seconds(nanos: int) -> int {
    if nanos >= 0 {
        nanos / 1_000_000_000
    } else {
        -((-nanos) / 1_000_000_000)
    }
}

/// Do fewer than `secs` whole seconds lie between the two, which are in nanoseconds?
pub fn is_within(later: i128, earlier: i128, secs: i64) -> (r: bool)
    ensures
        r == (whole_seconds(later - earlier) < secs),
{
    match later.checked_sub(earlier) {
        Some(d) => if secs > 0 {
            d < secs as i128 * NANOS
        } else {
            d <= (secs as i128 - 1) * NANOS
        },
        None => later < 0,
    }
}

/// The widest offset that a clock has from UTC, to either side: 25:59:59.
pub const WIDEST_OFFSET: i32 = 93_599;

/// A moment as a clock shows it.
#[derive(Debug, Clone, Copy, PartialEq, Eq, Structural)]
pub struct Moment {
    /// The date and the time of day there: the nanoseconds between the epoch and the same date and
    /// time of day in UTC.
    pub local: i128,
    /// How many seconds the clock is ahead of UTC.
    pub offset: i32,
}

/// A whole second since the epoch, on a clock in UTC.
pub open spec fn utc_second(at: int) -> Moment {
    Moment { local: (at * 1_000_000_000) as i128, offset: 0 }
}

impl Moment {
    /// A whole second since the epoch, on a clock in UTC.
    pub fn utc(at: i64) -> (r: Moment)
        ensures
            r == utc_second(at as int),
            r.local == at * 1_000_000_000,
    {
        Moment { local: at as i128 * 1_000_000_000, offset: 0 }
    }

    /// This many nanoseconds since the epoch, on a clock in UTC.
    pub fn utc_nanos(nanos: i128) -> (r: Moment)
        ensures
            r == (Moment { local: nanos, offset: 0 }),
    {
        Moment { local: nanos, offset: 0 }
    }

    /// The second that the clock shows.
    pub open spec fn second(self) -> int {
        self.local as int / 1_000_000_000
    }

    /// The nanoseconds since that second.
    pub open spec fn nanos(self) -> int {
        self.local as int % 1_000_000_000
    }

    /// Has what the clock shows a date, and is the offset one that a clock has?
    pub open spec fn has_date(self) -> bool {
        has_date(self.second()) && -WIDEST_OFFSET <= self.offset <= WIDEST_OFFSET
    }
}

/// The hours and minutes of an offset, with its sign: `+05:30`.
pub open spec fn offset_text(offset: int) -> Seq<char> {
    let n = if offset < 0 {
        -offset
    } else {
        offset
    };
    (if offset < 0 {
        seq!['-']
    } else {
        seq!['+']
    }) + two(n / 3600) + seq![':'] + two((n % 3600) / 60)
}

/// A moment in RFC 3339. `None` outside the years 0 to 9999, for an offset of a day or more and for
/// one that is no whole number of minutes.
pub open spec fn rfc3339_text(m: Moment) -> Option<Seq<char>> {
    if YEAR_ZERO <= m.second() <= LAST_MOMENT && -86_400 < m.offset < 86_400 && m.offset as int % 60
        == 0 {
        Some(
            stamp_text(civil_at(m.second())).drop_last() + fraction(m.nanos()) + (if m.offset == 0 {
                seq!['Z']
            } else {
                offset_text(m.offset as int)
            }),
        )
    } else {
        None
    }
}

/// `time::OffsetDateTime::format` with the well-known format RFC 3339, of the moment that
/// `from_unix_timestamp_nanos` and `replace_offset` make: date and time of day as in a stamp, the
/// part of a second with its last zeros cut off, and `Z` or the offset's hours and minutes. It has
/// no text outside the years 0 to 9999, for an offset of a day or more, or for one with seconds.
#[verifier::external_body]
pub(crate) fn format_rfc3339(m: Moment) -> (r: Option<String>)
    ensures
        r is Some == rfc3339_text(m) is Some,
        r is Some ==> rfc3339_text(m) == Some(r->0@),
{
    let t = time::OffsetDateTime::from_unix_timestamp_nanos(m.local).ok()?;
    let t = t.replace_offset(time::UtcOffset::from_whole_seconds(m.offset).ok()?);
    t.format(&time::format_description::well_known::Rfc3339).ok()
}

/// A moment displayed: `2026-09-13 8:05:00.0 +00:00:00`.
pub open spec fn display_text(m: Moment) -> Seq<char> {
    let c = civil_at(m.second());
    let n = if m.offset < 0 {
        -m.offset
    } else {
        m.offset as int
    };
    (if c.year < 0 {
        seq!['-'] + four(-c.year)
    } else {
        four(c.year as int)
    }) + seq!['-'] + two(c.month as int) + seq!['-'] + two(c.day as int) + seq![' ']
        + digits(c.hour as nat) + seq![':'] + two(c.minute as int) + seq![':'] + two(
        c.second as int,
    ) + seq!['.'] + trimmed(m.nanos(), 9) + seq![' '] + offset_text(m.offset as int) + seq![':']
        + two(n % 60)
}

/// The `Display` of `time::OffsetDateTime`, of the moment that `from_unix_timestamp_nanos` and
/// `replace_offset` make: there is a text for every moment with a date, made of the date, the time
/// of day with the hour unpadded and at least one digit of the part of a second, and the offset.
#[verifier::external_body]
fn display(m: Moment) -> (r: Option<String>)
    ensures
        r is Some == m.has_date(),
        r is Some ==> r->0@ == display_text(m),
{
    let t = time::OffsetDateTime::from_unix_timestamp_nanos(m.local).ok()?;
    let t = t.replace_offset(time::UtcOffset::from_whole_seconds(m.offset).ok()?);
    Some(t.to_string())
}

/// The moment as RFC 3339 has it, or as it is displayed where RFC 3339 has no text for it.
pub open spec fn spelled(m: Moment) -> Seq<char> {
    match rfc3339_text(m) {
        Some(t) => t,
        None => if m.has_date() {
            display_text(m)
        } else {
            Seq::empty()
        },
    }
}

/// A moment for a person to read.
pub fn spell(m: Moment) -> (r: String)
    ensures
        r@ == spelled(m),
{
    if let Some(s) = format_rfc3339(m) {
        return s;
    }
    match display(m) {
        Some(s) => s,
        None => {
            let s = String::new();
            assert(s@ =~= Seq::<char>::empty());
            s
        },
    }
}

/// Does the one come before the other, year first and second last?
pub open spec fn earlier(a: Civil, b: Civil) -> bool {
    ||| a.year < b.year
    ||| a.year == b.year && a.month < b.month
    ||| a.year == b.year && a.month == b.month && a.day < b.day
    ||| a.year == b.year && a.month == b.month && a.day == b.day && a.hour < b.hour
    ||| a.year == b.year && a.month == b.month && a.day == b.day && a.hour == b.hour && a.minute
        < b.minute
    ||| a.year == b.year && a.month == b.month && a.day == b.day && a.hour == b.hour && a.minute
        == b.minute && a.second < b.second
}

proof fn before_by_head(x: Seq<char>, y: Seq<char>, a: Seq<char>, b: Seq<char>)
    requires
        x.len() == y.len(),
    ensures
        before(x + a, y + b) == (before(x, y) || (x == y && before(a, b))),
    decreases x.len(),
{
    if x.len() == 0 {
        assert(x + a =~= a && y + b =~= b);
        assert(x =~= y);
    } else {
        assert((x + a).skip(1) =~= x.skip(1) + a);
        assert((y + b).skip(1) =~= y.skip(1) + b);
        before_by_head(x.skip(1), y.skip(1), a, b);
        if x[0] == y[0] && x.skip(1) == y.skip(1) {
            assert(x =~= seq![x[0]] + x.skip(1));
            assert(y =~= seq![y[0]] + y.skip(1));
            assert(x == y);
        }
        if x == y {
            assert(x[0] == y[0]);
        }
    }
}

proof fn before_of_one(a: char, b: char)
    ensures
        before(seq![a], seq![b]) == (a < b),
{
    reveal_with_fuel(before, 2);
}

proof fn two_sorts(m: int, n: int)
    requires
        0 <= m < 100,
        0 <= n < 100,
    ensures
        before(two(m), two(n)) == (m < n),
        (two(m) == two(n)) == (m == n),
        two(m).len() == 2,
        two(n).len() == 2,
{
    let (a, b) = (digit((m / 10) as nat), digit((m % 10) as nat));
    let (c, d) = (digit((n / 10) as nat), digit((n % 10) as nat));
    assert(two(m) =~= seq![a] + seq![b] && two(n) =~= seq![c] + seq![d]);
    before_by_head(seq![a], seq![c], seq![b], seq![d]);
    before_of_one(a, c);
    before_of_one(b, d);
    assert(two(m)[0] == a && two(m)[1] == b && two(n)[0] == c && two(n)[1] == d);
    assert((seq![a] == seq![c]) == (a == c)) by {
        assert(seq![a][0] == a && seq![c][0] == c);
    }
}

proof fn mark_sorts(mark: char, m: int, n: int, a: Seq<char>, b: Seq<char>)
    requires
        0 <= m < 100,
        0 <= n < 100,
    ensures
        before(seq![mark] + two(m) + a, seq![mark] + two(n) + b) == (m < n || (m == n && before(
            a,
            b,
        ))),
{
    two_sorts(m, n);
    before_by_head(seq![mark] + two(m), seq![mark] + two(n), a, b);
    before_by_head(seq![mark], seq![mark], two(m), two(n));
    before_of_one(mark, mark);
    if seq![mark] + two(m) == seq![mark] + two(n) {
        assert((seq![mark] + two(m)).skip(1) =~= two(m));
        assert((seq![mark] + two(n)).skip(1) =~= two(n));
    }
}

proof fn stamps_sort(a: Civil, b: Civil)
    requires
        civil_wf(a),
        civil_wf(b),
        a.year >= 0,
        b.year >= 0,
    ensures
        before(stamp_text(a), stamp_text(b)) == earlier(a, b),
{
    let z = seq!['Z'];
    let s = |c: Civil| seq![':'] + two(c.second as int) + z;
    let m = |c: Civil| seq![':'] + two(c.minute as int) + s(c);
    let h = |c: Civil| seq!['T'] + two(c.hour as int) + m(c);
    let d = |c: Civil| seq!['-'] + two(c.day as int) + h(c);
    let mo = |c: Civil| seq!['-'] + two(c.month as int) + d(c);
    before_of_one('Z', 'Z');
    mark_sorts(':', a.second as int, b.second as int, z, z);
    mark_sorts(':', a.minute as int, b.minute as int, s(a), s(b));
    mark_sorts('T', a.hour as int, b.hour as int, m(a), m(b));
    mark_sorts('-', a.day as int, b.day as int, h(a), h(b));
    mark_sorts('-', a.month as int, b.month as int, d(a), d(b));
    let (x, y) = (a.year as int, b.year as int);
    two_sorts(x / 100, y / 100);
    two_sorts(x % 100, y % 100);
    before_by_head(two(x / 100), two(y / 100), two(x % 100), two(y % 100));
    before_by_head(four(x), four(y), mo(a), mo(b));
    if four(x) == four(y) {
        assert(four(x).take(2) =~= two(x / 100) && four(y).take(2) =~= two(y / 100));
        assert(four(x).skip(2) =~= two(x % 100) && four(y).skip(2) =~= two(y % 100));
    }
}

proof fn year_has_its_days(year: int)
    ensures
        days_to_year(year + 1) == days_to_year(year) + days_before_month(year, 13),
        days_before_month(year, 13) == if leap(year) {
            366int
        } else {
            365
        },
{
    reveal_with_fuel(days_before_month, 13);
}

proof fn years_follow(a: int, b: int)
    requires
        a < b,
    ensures
        days_to_year(a) + days_before_month(a, 13) <= days_to_year(b),
    decreases b - a,
{
    year_has_its_days(a);
    if a + 1 < b {
        year_has_its_days(a + 1);
        years_follow(a + 1, b);
    }
}

proof fn months_follow(year: int, a: int, b: int)
    requires
        1 <= a < b,
    ensures
        days_before_month(year, a) + days_in_month(year, a) <= days_before_month(year, b),
    decreases b - a,
{
    if a + 1 < b {
        months_follow(year, a, b - 1);
    }
}

proof fn dates_follow(a: Civil, b: Civil)
    requires
        civil_wf(a),
        civil_wf(b),
        a.year < b.year || (a.year == b.year && a.month < b.month),
    ensures
        days_to(a.year as int, a.month as int, a.day as int) < days_to(
            b.year as int,
            b.month as int,
            b.day as int,
        ),
{
    let (ya, ma) = (a.year as int, a.month as int);
    let (yb, mb) = (b.year as int, b.month as int);
    if ya < yb {
        years_follow(ya, yb);
        months_follow(ya, ma, 13);
        assert(days_before_month(yb, mb) >= 0) by {
            if mb > 1 {
                months_follow(yb, 1, mb);
            }
        }
    } else {
        months_follow(ya, ma, mb);
    }
}

/// The moment from its day, hour, minute and second.
proof fn seconds_add_up(x: int)
    ensures
        x == 86400 * (x / 86400) + 3600 * ((x % 86400) / 3600) + 60 * ((x % 3600) / 60) + x % 60,
        0 <= (x % 86400) / 3600 < 24,
        0 <= (x % 3600) / 60 < 60,
        0 <= x % 60 < 60,
{
    assert((x % 86400) % 3600 == x % 3600);
    assert((x % 3600) % 60 == x % 60);
}

proof fn earlier_comes_before(a: Civil, b: Civil, x: int, y: int)
    requires
        is_civil(x, a),
        is_civil(y, b),
        earlier(a, b),
    ensures
        x < y,
{
    if a.year < b.year || (a.year == b.year && a.month < b.month) {
        dates_follow(a, b);
    }
    seconds_add_up(x);
    seconds_add_up(y);
}

proof fn civil_at_is(at: int, c: Civil)
    requires
        is_civil(at, c),
    ensures
        civil_at(at) == c,
{
    let d = civil_at(at);
    assert(is_civil(at, d));
    if earlier(c, d) {
        earlier_comes_before(c, d, at, at);
    }
    if earlier(d, c) {
        earlier_comes_before(d, c, at, at);
    }
}

proof fn year_of(days: int, last: int) -> (year: int)
    requires
        last >= -9999,
        days_to_year(-9999) <= days < days_to_year(last + 1),
    ensures
        -9999 <= year <= last,
        days_to_year(year) <= days < days_to_year(year + 1),
    decreases last + 9999,
{
    if days >= days_to_year(last) {
        last
    } else {
        year_of(days, last - 1)
    }
}

proof fn month_of(year: int, days: int, last: int) -> (month: int)
    requires
        1 <= last,
        0 <= days < days_before_month(year, last + 1),
    ensures
        1 <= month <= last,
        days_before_month(year, month) <= days < days_before_month(year, month + 1),
    decreases last,
{
    if days >= days_before_month(year, last) {
        last
    } else {
        month_of(year, days, last - 1)
    }
}

/// Every moment from the first of the year -9999 to the last of the year 9999 has one date and
/// time of day.
pub proof fn a_moment_has_one_date(at: int, c: Civil)
    requires
        has_date(at),
    ensures
        is_civil(at, c) == (c == civil_at(at)),
{
    let days = at / 86400;
    let year = year_of(days, 9999);
    year_has_its_days(year);
    let rest = days - days_to_year(year);
    let month = month_of(year, rest, 12);
    let found = Civil {
        year: year as i32,
        month: month as u8,
        day: (rest - days_before_month(year, month) + 1) as u8,
        hour: ((at % 86400) / 3600) as u8,
        minute: ((at % 3600) / 60) as u8,
        second: (at % 60) as u8,
    };
    assert(is_civil(at, found));
    civil_at_is(at, found);
    if is_civil(at, c) {
        civil_at_is(at, c);
    }
}

proof fn from_year_zero_on(at: int)
    requires
        YEAR_ZERO <= at <= LAST_MOMENT,
    ensures
        is_civil(at, civil_at(at)),
        civil_at(at).year >= 0,
{
    a_moment_has_one_date(at, civil_at(at));
    let new_year = Civil { year: 0, month: 1, day: 1, hour: 0, minute: 0, second: 0 };
    assert(is_civil(YEAR_ZERO as int, new_year));
    if civil_at(at).year < 0 {
        earlier_comes_before(civil_at(at), new_year, at, YEAR_ZERO as int);
    }
}

proof fn moments_order_dates(c: Civil, d: Civil, a: int, b: int)
    requires
        is_civil(a, c),
        is_civil(b, d),
    ensures
        earlier(c, d) == (a < b),
{
    if earlier(c, d) {
        earlier_comes_before(c, d, a, b);
    } else if earlier(d, c) {
        earlier_comes_before(d, c, b, a);
    } else {
        seconds_add_up(a);
        seconds_add_up(b);
    }
}

/// Stamps of moments from the year 0 on compare as text the way the moments do.
pub proof fn stamps_sort_as_moments_do(a: int, b: int)
    requires
        YEAR_ZERO <= a <= LAST_MOMENT,
        YEAR_ZERO <= b <= LAST_MOMENT,
    ensures
        before(stamp_text(civil_at(a)), stamp_text(civil_at(b))) == (a < b),
{
    from_year_zero_on(a);
    from_year_zero_on(b);
    stamps_sort(civil_at(a), civil_at(b));
    moments_order_dates(civil_at(a), civil_at(b), a, b);
}


/// Within a span: what lies back less than so many seconds is, and what lies back that far or more
/// is not.
pub proof fn a_span_ends_with_its_last_second(later: i128, earlier: i128, secs: i64, r: bool)
    requires
        call_ensures(is_within, (later, earlier, secs), r),
        secs > 0,
        later >= earlier,
    ensures
        r <==> later - earlier < secs * 1_000_000_000,
{
    let d = later - earlier;
    assert(d / 1_000_000_000 < secs <==> d < secs * 1_000_000_000) by (nonlinear_arith)
        requires
            d >= 0,
    ;
}

/// A second on a clock in UTC, and the nanoseconds of it.
pub proof fn a_second_in_utc(at: i64, nanos: i128, a: Moment, b: Moment)
    requires
        call_ensures(Moment::utc, (at,), a),
        call_ensures(Moment::utc_nanos, (nanos,), b),
    ensures
        a.local == at * 1_000_000_000 && a.offset == 0,
        b.local == nanos && b.offset == 0,
        nanos == at * 1_000_000_000 ==> a == b,
{
}

/// A stamp of the common era, place by place: the year in four digits, the month and the day, and
/// the time of day, in two digits each.
pub proof fn a_stamp_place_by_place(at: Civil, r: String)
    requires
        call_ensures(stamp, (at,), r),
        civil_wf(at),
        at.year >= 0,
    ensures
        r@.len() == 20,
        r@[0] as int == '0' as int + at.year as int / 1000,
        r@[1] as int == '0' as int + (at.year as int / 100) % 10,
        r@[2] as int == '0' as int + (at.year as int % 100) / 10,
        r@[3] as int == '0' as int + at.year as int % 10,
        r@[4] == '-' && r@[7] == '-' && r@[10] == 'T' && r@[13] == ':' && r@[16] == ':' && r@[19]
            == 'Z',
        r@[5] as int == '0' as int + at.month as int / 10 && r@[6] as int == '0' as int
            + at.month as int % 10,
        r@[8] as int == '0' as int + at.day as int / 10 && r@[9] as int == '0' as int
            + at.day as int % 10,
        r@[11] as int == '0' as int + at.hour as int / 10 && r@[12] as int == '0' as int
            + at.hour as int % 10,
        r@[14] as int == '0' as int + at.minute as int / 10 && r@[15] as int == '0' as int
            + at.minute as int % 10,
        r@[17] as int == '0' as int + at.second as int / 10 && r@[18] as int == '0' as int
            + at.second as int % 10,
{
}

} // verus!
