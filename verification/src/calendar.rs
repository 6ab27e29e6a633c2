//! Calendar stamps for archived snapshots, and ages in words.
//!
//! A moment is a number of seconds since the Unix epoch, rounded down.

use vstd::prelude::*;
use crate::text::{
    all_digits, decimal, decimal_value, digits_value, is_digit, padded, push_decimal, push_padded,
    text_less, to_chars, parse_up_to, lemma_decimal_len, lemma_padded, lemma_parse_result,
    lemma_append_assoc, lemma_digits_order, lemma_less_then_anything, lemma_text_less_prefix,
};

verus! {

broadcast use vstd::seq_lib::group_seq_properties;

pub const SECS_PER_DAY: u64 = 86400;

pub open spec fn leap(year: nat) -> bool {
    (year % 4 == 0 && year % 100 != 0) || year % 400 == 0
}

/// Whether `year` has a February 29.
pub fn is_leap_year(year: u64) -> (r: bool)
    ensures
        r == leap(year as nat),
{
    (year % 4 == 0 && year % 100 != 0) || (year % 400 == 0)
}

pub open spec fn year_days(year: nat) -> nat {
    if leap(year) { 366 } else { 365 }
}

pub open spec fn month_days(year: nat, month: nat) -> nat {
    if month == 2 {
        if leap(year) { 29 } else { 28 }
    } else if month == 4 || month == 6 || month == 9 || month == 11 {
        30
    } else {
        31
    }
}

/// Days from the start of 1970 to the start of `year`; none for an earlier year.
pub open spec fn days_before_year(year: nat) -> nat
    decreases year,
{
    if year <= 1970 {
        0
    } else {
        days_before_year((year - 1) as nat) + year_days((year - 1) as nat)
    }
}

/// Days from the start of `year` to the start of its month `month`.
pub open spec fn days_before_month(year: nat, month: nat) -> nat
    decreases month,
{
    if month <= 1 {
        0
    } else {
        days_before_month(year, (month - 1) as nat) + month_days(year, (month - 1) as nat)
    }
}

/// A calendar date from 1970 on.
#[derive(Debug, PartialEq, Eq)]
pub struct Date {
    pub year: u64,
    pub month: u64,
    pub day: u64,
}

impl Date {
    pub open spec fn valid(self) -> bool {
        &&& self.year >= 1970
        &&& 1 <= self.month <= 12
        &&& 1 <= self.day <= month_days(self.year as nat, self.month as nat)
    }

    /// Days from the start of 1970 to this date.
    pub open spec fn days(self) -> nat {
        (days_before_year(self.year as nat) + days_before_month(
            self.year as nat,
            self.month as nat,
        ) + self.day - 1) as nat
    }
}

fn days_in_month(year: u64, month: u64) -> (r: u64)
    ensures
        r == month_days(year as nat, month as nat),
{
    if month == 2 {
        if is_leap_year(year) { 29 } else { 28 }
    } else if month == 4 || month == 6 || month == 9 || month == 11 {
        30
    } else {
        31
    }
}

proof fn lemma_year_days(year: nat)
    ensures
        days_before_month(year, 13) == year_days(year),
        days_before_month(year, 12) + 31 == year_days(year),
{
    reveal_with_fuel(days_before_month, 14);
}

/// The date that is `days` days after the start of 1970.
pub fn date_of(days: u64) -> (r: Date)
    ensures
        r.valid(),
        r.days() == days,
        r.year <= 1970 + days,
{
    let mut year: u64 = 1970;
    let mut left: u64 = days;
    loop
        invariant_except_break
            1970 <= year,
            days_before_year(year as nat) + left == days,
            365 * (year - 1970) <= days - left,
        ensures
            1970 <= year <= 1970 + days,
            days_before_year(year as nat) + left == days,
            left < year_days(year as nat),
        decreases left,
    {
        let in_year: u64 = if is_leap_year(year) { 366 } else { 365 };
        if left < in_year {
            break;
        }
        left -= in_year;
        year += 1;
    }
    let mut month: u64 = 1;
    let mut day: u64 = left + 1;
    proof {
        lemma_year_days(year as nat);
    }
    while day > days_in_month(year, month)
        invariant
            1970 <= year <= 1970 + days,
            1 <= month <= 12,
            1 <= day,
            days_before_month(year as nat, month as nat) + day == left + 1,
            days_before_year(year as nat) + left == days,
            left < year_days(year as nat),
            days_before_month(year as nat, 12) + 31 == year_days(year as nat),
        decreases day,
    {
        day -= days_in_month(year, month);
        month += 1;
    }
    Date { year, month, day }
}

proof fn lemma_years_monotone(a: nat, b: nat)
    requires
        1970 <= a < b,
    ensures
        days_before_year(a) + year_days(a) <= days_before_year(b),
    decreases b,
{
    if a + 1 < b {
        lemma_years_monotone(a, (b - 1) as nat);
    }
}

proof fn lemma_months_monotone(year: nat, a: nat, b: nat)
    requires
        1 <= a < b,
    ensures
        days_before_month(year, a) + month_days(year, a) <= days_before_month(year, b),
    decreases b,
{
    if a + 1 < b {
        lemma_months_monotone(year, a, (b - 1) as nat);
    }
}

/// Whether `a` is earlier in the calendar than `b`.
pub open spec fn earlier(a: Date, b: Date) -> bool {
    ||| a.year < b.year
    ||| a.year == b.year && a.month < b.month
    ||| a.year == b.year && a.month == b.month && a.day < b.day
}

/// Counting days keeps the order of the calendar, so no two dates share a count.
pub proof fn law_day_counts_order_dates(a: Date, b: Date)
    requires
        a.valid(),
        b.valid(),
    ensures
        earlier(a, b) <==> a.days() < b.days(),
        a == b <==> a.days() == b.days(),
{
    if earlier(a, b) {
        lemma_earlier(a, b);
    }
    if earlier(b, a) {
        lemma_earlier(b, a);
    }
}

proof fn lemma_earlier(a: Date, b: Date)
    requires
        a.valid(),
        b.valid(),
        earlier(a, b),
    ensures
        a.days() < b.days(),
{
    let y = a.year as nat;
    lemma_year_days(y);
    if a.month < 12 {
        lemma_months_monotone(y, a.month as nat, 12);
    }
    if a.year < b.year {
        lemma_years_monotone(y, b.year as nat);
    } else if a.month < b.month {
        lemma_months_monotone(y, a.month as nat, b.month as nat);
    }
}

/// The date `days` days after the start of 1970.
pub open spec fn date_at(days: nat) -> Date {
    choose|d: Date| d.valid() && d.days() == days
}

/// `YYYYMMDD-HHMMSS`.
pub open spec fn stamp_text(
    year: nat,
    month: nat,
    day: nat,
    hour: nat,
    minute: nat,
    second: nat,
) -> Seq<char> {
    padded(year, 4) + padded(month, 2) + padded(day, 2) + seq!['-'] + padded(hour, 2) + padded(
        minute,
        2,
    ) + padded(second, 2)
}

/// The stamp of the moment `secs` seconds after the epoch.
pub open spec fn stamp_at(secs: nat) -> Seq<char> {
    let d = date_at(secs / 86400);
    let s = secs % 86400;
    stamp_text(d.year as nat, d.month as nat, d.day as nat, s / 3600, s % 3600 / 60, s % 60)
}

/// `time` as `YYYYMMDD-HHMMSS`; empty before the epoch.
pub fn format_timestamp(time: i64) -> (r: String)
    ensures
        time < 0 ==> r@ == Seq::<char>::empty(),
        time >= 0 ==> r@ == stamp_at(time as nat),
{
    if time < 0 {
        return String::new();
    }
    let secs: u64 = time as u64;
    let date = date_of(secs / SECS_PER_DAY);
    let in_day: u64 = secs % SECS_PER_DAY;
    let hours: u64 = in_day / 3600;
    let in_hour: u64 = in_day % 3600;
    let minutes: u64 = in_hour / 60;
    let seconds: u64 = in_hour % 60;
    proof {
        let days = (secs / SECS_PER_DAY) as nat;
        assert(date.valid() && date.days() == days);
        law_day_counts_order_dates(date, date_at(days));
        assert(in_day % 60 == seconds);
    }
    let mut out = String::new();
    push_padded(&mut out, date.year, 4);
    push_padded(&mut out, date.month, 2);
    push_padded(&mut out, date.day, 2);
    out.push('-');
    push_padded(&mut out, hours, 2);
    push_padded(&mut out, minutes, 2);
    push_padded(&mut out, seconds, 2);
    assert(out@ == stamp_at(time as nat));
    out
}

/// The field of a stamp that starts at `at` and is `len` characters long: a number made of ASCII
/// digits alone.
pub open spec fn field(stamp: Seq<char>, at: int, len: int) -> Option<nat> {
    let digits = stamp.subrange(at, at + len);
    if all_digits(digits) {
        Some(digits_value(digits))
    } else {
        None
    }
}

/// The moment that a stamp names: its first fifteen characters decide. All of them are digits but
/// the ninth, which is the dash between the date and the clock.
///
/// Seconds are taken as they stand, without an upper limit.
pub open spec fn stamp_moment(stamp: Seq<char>) -> Option<nat> {
    if stamp.len() < 15 || stamp[8] != '-' {
        None
    } else {
        match (
            field(stamp, 0, 4),
            field(stamp, 4, 2),
            field(stamp, 6, 2),
            field(stamp, 9, 2),
            field(stamp, 11, 2),
            field(stamp, 13, 2),
        ) {
            (Some(y), Some(mo), Some(d), Some(h), Some(mi), Some(s)) => if 1 <= mo <= 12 && 1 <= d
                <= 31 && h <= 23 && mi <= 59 {
                Some(
                    ((days_before_year(y) + days_before_month(y, mo) + d - 1) * 86400 + h * 3600 + mi
                        * 60 + s) as nat,
                )
            } else {
                None
            },
            _ => None,
        }
    }
}

fn read_field(chars: &[char], at: usize, len: usize) -> (r: Option<u64>)
    requires
        at + len <= chars@.len(),
        len <= 4,
    ensures
        match r {
            Some(v) => field(chars@, at as int, len as int) == Some(v as nat) && v < 10000,
            None => field(chars@, at as int, len as int) is None,
        },
{
    let n: usize = chars.len();
    let ghost part = chars@.subrange(at as int, at + len);
    let mut v: u64 = 0;
    let mut i: usize = 0;
    while i < len
        invariant
            i <= len <= 4,
            at + len <= n,
            n == chars@.len(),
            part == chars@.subrange(at as int, at + len),
            all_digits(part.take(i as int)),
            v == digits_value(part.take(i as int)),
            v < 10000,
        decreases len - i,
    {
        let c = chars[at + i];
        let ghost here = part.take(i + 1);
        assert(here[i as int] == part[i as int]);
        if c < '0' || c > '9' {
            assert(!is_digit(part[i as int]));
            return None;
        }
        proof {
            assert(here.drop_last() =~= part.take(i as int));
            assert(here.last() == c);
            assert(all_digits(here));
            lemma_short_value(here);
        }
        v = v * 10 + (c as u64 - 48);
        i += 1;
    }
    assert(part.take(i as int) =~= part);
    Some(v)
}

/// At most four digits stay below ten thousand.
proof fn lemma_short_value(s: Seq<char>)
    requires
        s.len() <= 4,
    ensures
        all_digits(s) ==> digits_value(s) < 10000,
{
    reveal_with_fuel(digits_value, 5);
    if all_digits(s) {
        assert(forall|i: int| 0 <= i < s.len() ==> crate::text::digit_value(#[trigger] s[i]) < 10);
        if s.len() > 0 {
            let a = s.drop_last();
            assert(s.last() == s[s.len() - 1]);
            if a.len() > 0 {
                assert(a.last() == s[a.len() - 1]);
                let b = a.drop_last();
                if b.len() > 0 {
                    assert(b.last() == s[b.len() - 1]);
                    let c = b.drop_last();
                    if c.len() > 0 {
                        assert(c.last() == s[c.len() - 1]);
                        assert(c.drop_last().len() == 0);
                    }
                }
            }
        }
    }
}

fn count_days_before_year(year: u64) -> (r: u64)
    requires
        year < 10000,
    ensures
        r == days_before_year(year as nat),
        r <= 366 * 10000,
{
    if year < 1970 {
        return 0;
    }
    let mut days: u64 = 0;
    let mut y: u64 = 1970;
    while y < year
        invariant
            1970 <= y <= year < 10000,
            days == days_before_year(y as nat),
            days <= 366 * (y - 1970),
        decreases year - y,
    {
        days += if is_leap_year(y) { 366 } else { 365 };
        y += 1;
    }
    days
}

fn count_days_before_month(year: u64, month: u64) -> (r: u64)
    requires
        1 <= month <= 12,
    ensures
        r == days_before_month(year as nat, month as nat),
        r <= 31 * 12,
{
    let mut days: u64 = 0;
    let mut m: u64 = 1;
    while m < month
        invariant
            1 <= m <= month <= 12,
            days == days_before_month(year as nat, m as nat),
            days <= 31 * (m - 1),
        decreases month - m,
    {
        days += days_in_month(year, m);
        m += 1;
    }
    days
}

/// The moment named by a `YYYYMMDD-HHMMSS` stamp.
///
/// Only the first fifteen characters are read, so a suffix that tells two archives of one
/// second apart is ignored. `None` for anything too short or not numeric.
pub fn parse_timestamp(stamp: &str) -> (r: Option<u64>)
    ensures
        match r {
            Some(t) => stamp_moment(stamp@) == Some(t as nat),
            None => stamp_moment(stamp@) is None,
        },
{
    let chars = to_chars(stamp);
    if chars.len() < 15 || chars[8] != '-' {
        return None;
    }
    let year = match read_field(&chars, 0, 4) {
        Some(v) => v,
        None => return None,
    };
    let month = match read_field(&chars, 4, 2) {
        Some(v) => v,
        None => return None,
    };
    let day = match read_field(&chars, 6, 2) {
        Some(v) => v,
        None => return None,
    };
    let hour = match read_field(&chars, 9, 2) {
        Some(v) => v,
        None => return None,
    };
    let minute = match read_field(&chars, 11, 2) {
        Some(v) => v,
        None => return None,
    };
    let second = match read_field(&chars, 13, 2) {
        Some(v) => v,
        None => return None,
    };
    if month < 1 || month > 12 || day < 1 || day > 31 || hour > 23 || minute > 59 {
        return None;
    }
    let days: u64 = count_days_before_year(year) + count_days_before_month(year, month) + (day - 1);
    Some(days * SECS_PER_DAY + hour * 3600 + minute * 60 + second)
}

/// The last second of the year 9999: from then on a stamp is longer than fifteen characters.
pub open spec fn four_digit_year(secs: nat) -> bool {
    secs / 86400 < days_before_year(10000)
}

proof fn lemma_stamp_date(secs: nat)
    requires
        four_digit_year(secs),
        secs <= i64::MAX,
    ensures
        date_at(secs / 86400).valid(),
        date_at(secs / 86400).days() == secs / 86400,
        date_at(secs / 86400).year < 10000,
{
    let days = secs / 86400;
    lemma_date_exists(days);
    let d = date_at(days);
    if d.year >= 10000 {
        if d.year > 10000 {
            lemma_years_monotone(10000, d.year as nat);
        }
    }
}

/// Every day count below the limit of a machine integer belongs to a date.
proof fn lemma_date_exists(days: nat)
    requires
        days <= u64::MAX - 3000,
    ensures
        exists|d: Date| d.valid() && d.days() == days,
    decreases days,
{
    if days == 0 {
        let d = Date { year: 1970, month: 1, day: 1 };
        assert(d.valid() && d.days() == 0);
    } else {
        lemma_date_exists((days - 1) as nat);
        let d = choose|d: Date| d.valid() && d.days() == days - 1;
        lemma_year_bound(d);
        let year = d.year as nat;
        lemma_year_days(year);
        if d.day < month_days(year, d.month as nat) {
            let n = Date { year: d.year, month: d.month, day: (d.day + 1) as u64 };
            assert(n.valid() && n.days() == days);
        } else if d.month < 12 {
            let n = Date { year: d.year, month: (d.month + 1) as u64, day: 1 };
            assert(n.valid() && n.days() == days);
        } else {
            let n = Date { year: (d.year + 1) as u64, month: 1, day: 1 };
            assert(n.valid() && n.days() == days);
        }
    }
}

proof fn lemma_year_bound(d: Date)
    requires
        d.valid(),
    ensures
        d.year <= 1970 + d.days(),
{
    lemma_years_cost(d.year as nat);
}

proof fn lemma_years_cost(year: nat)
    requires
        year >= 1970,
    ensures
        days_before_year(year) >= year - 1970,
    decreases year,
{
    if year > 1970 {
        lemma_years_cost((year - 1) as nat);
    }
}

/// The lengths and positions of the fields of a stamp.
proof fn lemma_stamp_fields(y: nat, mo: nat, d: nat, h: nat, mi: nat, s: nat)
    requires
        y < 10000,
        mo < 100,
        d < 100,
        h < 100,
        mi < 100,
        s < 100,
    ensures
        ({
            let t = stamp_text(y, mo, d, h, mi, s);
            &&& t.len() == 15
            &&& t[8] == '-'
            &&& field(t, 0, 4) == Some(y)
            &&& field(t, 4, 2) == Some(mo)
            &&& field(t, 6, 2) == Some(d)
            &&& field(t, 9, 2) == Some(h)
            &&& field(t, 11, 2) == Some(mi)
            &&& field(t, 13, 2) == Some(s)
        }),
{
    lemma_field_len(y, 4);
    lemma_field_len(mo, 2);
    lemma_field_len(d, 2);
    lemma_field_len(h, 2);
    lemma_field_len(mi, 2);
    lemma_field_len(s, 2);
    let t = stamp_text(y, mo, d, h, mi, s);
    assert(t.subrange(0, 4) == padded(y, 4));
    assert(t.subrange(4, 6) == padded(mo, 2));
    assert(t.subrange(6, 8) == padded(d, 2));
    assert(t.subrange(9, 11) == padded(h, 2));
    assert(t.subrange(11, 13) == padded(mi, 2));
    assert(t.subrange(13, 15) == padded(s, 2));
}

proof fn lemma_field_len(n: nat, width: nat)
    requires
        width == 2 && n < 100 || width == 4 && n < 10000,
    ensures
        padded(n, width).len() == width,
        decimal_value(padded(n, width)) == Some(n),
        all_digits(padded(n, width)),
        digits_value(padded(n, width)) == n,
{
    lemma_decimal_len(n);
    lemma_padded(n, width);
}

proof fn lemma_in_prefix(t: Seq<char>, suffix: Seq<char>, a: int, b: int)
    requires
        0 <= a <= b <= t.len(),
    ensures
        (t + suffix).subrange(a, b) == t.subrange(a, b),
{
    assert((t + suffix).subrange(a, b) =~= t.subrange(a, b));
}

/// What follows the fifteen characters of a stamp does not matter.
proof fn lemma_suffix_is_ignored(t: Seq<char>, suffix: Seq<char>)
    requires
        t.len() == 15,
    ensures
        stamp_moment(t + suffix) == stamp_moment(t),
{
    lemma_in_prefix(t, suffix, 0, 4);
    lemma_in_prefix(t, suffix, 4, 6);
    lemma_in_prefix(t, suffix, 6, 8);
    lemma_in_prefix(t, suffix, 9, 11);
    lemma_in_prefix(t, suffix, 11, 13);
    lemma_in_prefix(t, suffix, 13, 15);
    assert((t + suffix)[8] == t[8]);
    assert((t + suffix).len() >= 15);
}

/// Reading back a stamp gives the moment it was made from, up to the year 9999, and whatever
/// follows the stamp is ignored.
pub proof fn law_stamp_round_trip(secs: nat, suffix: Seq<char>)
    requires
        secs <= i64::MAX,
        four_digit_year(secs),
    ensures
        stamp_moment(stamp_at(secs)) == Some(secs),
        stamp_moment(stamp_at(secs) + suffix) == Some(secs),
{
    lemma_stamp_date(secs);
    let d = date_at(secs / 86400);
    let r = secs % 86400;
    let (h, mi, s) = (r / 3600, r % 3600 / 60, r % 60);
    assert(month_days(d.year as nat, d.month as nat) <= 31);
    lemma_stamp_fields(d.year as nat, d.month as nat, d.day as nat, h, mi, s);
    assert(r == h * 3600 + mi * 60 + s);
    lemma_suffix_is_ignored(stamp_at(secs), suffix);
}

proof fn lemma_field_order(m: nat, n: nat, width: nat, x: Seq<char>, y: Seq<char>)
    requires
        width == 2 && n < 100 || width == 4 && n < 10000,
        m < n,
    ensures
        text_less(padded(m, width) + x, padded(n, width) + y),
{
    lemma_field_len(m, width);
    lemma_field_len(n, width);
    lemma_digits_order(padded(m, width), padded(n, width));
    lemma_less_then_anything(padded(m, width), padded(n, width), x, y);
}

/// `HHMMSS`.
spec fn clock_text(h: nat, mi: nat, s: nat) -> Seq<char> {
    padded(h, 2) + (padded(mi, 2) + padded(s, 2))
}

proof fn lemma_stamp_nested(y: nat, mo: nat, d: nat, h: nat, mi: nat, s: nat)
    ensures
        stamp_text(y, mo, d, h, mi, s) == padded(y, 4) + (padded(mo, 2) + (padded(d, 2) + (seq!['-']
            + clock_text(h, mi, s)))),
{
    let (year, month, day) = (padded(y, 4), padded(mo, 2), padded(d, 2));
    let (hour, minute, second) = (padded(h, 2), padded(mi, 2), padded(s, 2));
    let dash = seq!['-'];
    lemma_append_assoc(year + month + day + dash + hour, minute, second);
    lemma_append_assoc(year + month + day + dash, hour, minute + second);
    lemma_append_assoc(year + month + day, dash, clock_text(h, mi, s));
    lemma_append_assoc(year + month, day, dash + clock_text(h, mi, s));
    lemma_append_assoc(year, month, day + (dash + clock_text(h, mi, s)));
}

proof fn lemma_clock_order(h1: nat, i1: nat, s1: nat, h2: nat, i2: nat, s2: nat)
    requires
        h2 < 24,
        i2 < 60,
        s2 < 60,
        h1 < h2 || h1 == h2 && i1 < i2 || h1 == h2 && i1 == i2 && s1 < s2,
    ensures
        text_less(clock_text(h1, i1, s1), clock_text(h2, i2, s2)),
{
    let (x, y) = (padded(i1, 2) + padded(s1, 2), padded(i2, 2) + padded(s2, 2));
    if h1 < h2 {
        lemma_field_order(h1, h2, 2, x, y);
    } else {
        lemma_text_less_prefix(padded(h1, 2), x, y);
        if i1 < i2 {
            lemma_field_order(i1, i2, 2, padded(s1, 2), padded(s2, 2));
        } else {
            lemma_text_less_prefix(padded(i1, 2), padded(s1, 2), padded(s2, 2));
            let none = Seq::<char>::empty();
            lemma_field_order(s1, s2, 2, none, none);
            assert(padded(s1, 2) + none == padded(s1, 2));
            assert(padded(s2, 2) + none == padded(s2, 2));
        }
    }
}

proof fn lemma_date_order(a: Date, b: Date, x: Seq<char>, y: Seq<char>)
    requires
        b.valid(),
        b.year < 10000,
        earlier(a, b),
    ensures
        text_less(
            padded(a.year as nat, 4) + (padded(a.month as nat, 2) + (padded(a.day as nat, 2) + x)),
            padded(b.year as nat, 4) + (padded(b.month as nat, 2) + (padded(b.day as nat, 2) + y)),
        ),
{
    let (p, q) = (padded(a.day as nat, 2) + x, padded(b.day as nat, 2) + y);
    let (u, v) = (padded(a.month as nat, 2) + p, padded(b.month as nat, 2) + q);
    if a.year < b.year {
        lemma_field_order(a.year as nat, b.year as nat, 4, u, v);
    } else {
        lemma_text_less_prefix(padded(a.year as nat, 4), u, v);
        if a.month < b.month {
            lemma_field_order(a.month as nat, b.month as nat, 2, p, q);
        } else {
            lemma_text_less_prefix(padded(a.month as nat, 2), p, q);
            lemma_field_order(a.day as nat, b.day as nat, 2, x, y);
        }
    }
}

proof fn lemma_seconds_order(a: nat, b: nat)
    requires
        a < b < 86400,
    ensures
        b / 3600 < 24,
        b % 3600 / 60 < 60,
        a / 3600 < b / 3600 || a / 3600 == b / 3600 && a % 3600 / 60 < b % 3600 / 60 || a / 3600 == b
            / 3600 && a % 3600 / 60 == b % 3600 / 60 && a % 60 < b % 60,
{
}

proof fn lemma_days_order(a: nat, b: nat)
    requires
        a < b,
    ensures
        a / 86400 <= b / 86400,
        a / 86400 == b / 86400 ==> a % 86400 < b % 86400,
{
}

/// Stamps sort as text in the order of the moments they name, up to the year 9999.
pub proof fn law_stamps_sort_by_time(a: nat, b: nat)
    requires
        a < b <= i64::MAX,
        four_digit_year(b),
    ensures
        text_less(stamp_at(a), stamp_at(b)),
{
    lemma_days_order(a, b);
    lemma_stamp_date(a);
    lemma_stamp_date(b);
    let (da, db) = (date_at(a / 86400), date_at(b / 86400));
    law_day_counts_order_dates(da, db);
    let (ra, rb) = (a % 86400, b % 86400);
    let (h1, i1, s1) = (ra / 3600, ra % 3600 / 60, ra % 60);
    let (h2, i2, s2) = (rb / 3600, rb % 3600 / 60, rb % 60);
    let (ca, cb) = (clock_text(h1, i1, s1), clock_text(h2, i2, s2));
    let (x, y) = (seq!['-'] + ca, seq!['-'] + cb);
    lemma_stamp_nested(da.year as nat, da.month as nat, da.day as nat, h1, i1, s1);
    lemma_stamp_nested(db.year as nat, db.month as nat, db.day as nat, h2, i2, s2);
    if earlier(da, db) {
        lemma_date_order(da, db, x, y);
    } else {
        assert(da == db);
        lemma_seconds_order(ra, rb);
        lemma_clock_order(h1, i1, s1, h2, i2, s2);
        lemma_text_less_prefix(seq!['-'], ca, cb);
        let (dy, dm, dd) = (
            padded(da.year as nat, 4),
            padded(da.month as nat, 2),
            padded(da.day as nat, 2),
        );
        lemma_text_less_prefix(dd, x, y);
        lemma_text_less_prefix(dm, dd + x, dd + y);
        lemma_text_less_prefix(dy, dm + (dd + x), dm + (dd + y));
        assert(text_less(ca, cb));
        assert(text_less(x, y));
        assert(text_less(dd + x, dd + y));
        assert(text_less(dm + (dd + x), dm + (dd + y)));
        assert(stamp_at(a) == dy + (dm + (dd + x)));
        assert(stamp_at(b) == dy + (dm + (dd + y)));
    }
}

// ---- ages ------------------------------------------------------------------

/// `n unit ago`, with an `s` for any number but one.
pub open spec fn counted_ago(n: nat, unit: Seq<char>) -> Seq<char> {
    decimal(n) + unit + (if n == 1 { ""@ } else { "s"@ }) + " ago"@
}

/// The age that `secs` seconds read as.
pub open spec fn age_text(secs: int) -> Seq<char> {
    if secs < 60 {
        "just now"@
    } else if secs < 3600 {
        decimal((secs / 60) as nat) + "m ago"@
    } else if secs < 86400 {
        decimal((secs / 3600) as nat) + "h ago"@
    } else if secs < 7 * 86400 {
        decimal((secs / 86400) as nat) + "d ago"@
    } else if secs < 30 * 86400 {
        counted_ago((secs / 604800) as nat, " week"@)
    } else if secs < 365 * 86400 {
        counted_ago((secs / 2592000) as nat, " month"@)
    } else {
        counted_ago((secs / 31536000) as nat, " year"@)
    }
}

fn ago(n: u64, unit: &str) -> (r: String)
    ensures
        r@ == counted_ago(n as nat, unit@),
{
    let mut out = String::new();
    push_decimal(&mut out, n);
    out.append(unit);
    out.append(if n == 1 { "" } else { "s" });
    out.append(" ago");
    out
}

fn short_ago(n: u64, unit: &str) -> (r: String)
    ensures
        r@ == decimal(n as nat) + unit@,
{
    let mut out = String::new();
    push_decimal(&mut out, n);
    out.append(unit);
    out
}

/// A short, casual label for an elapsed time in seconds; negative reads as "just now".
pub fn humanize_duration(secs: i64) -> (r: String)
    ensures
        r@ == age_text(secs as int),
{
    if secs < 60 {
        return "just now".to_owned();
    }
    let secs: u64 = secs as u64;
    if secs < 3600 {
        return short_ago(secs / 60, "m ago");
    }
    if secs < SECS_PER_DAY {
        return short_ago(secs / 3600, "h ago");
    }
    if secs < SECS_PER_DAY * 7 {
        return short_ago(secs / SECS_PER_DAY, "d ago");
    }
    if secs < SECS_PER_DAY * 30 {
        return ago(secs / (SECS_PER_DAY * 7), " week");
    }
    if secs < SECS_PER_DAY * 365 {
        return ago(secs / (SECS_PER_DAY * 30), " month");
    }
    ago(secs / (SECS_PER_DAY * 365), " year")
}

/// The age at `now` of something saved at `saved`; "just now" where `saved` is later.
fn humanize_since(saved: u64, now: i64) -> (r: String)
    ensures
        r@ == age_text(now - saved),
{
    if now < 0 || (now as u64) < saved {
        return humanize_duration(0);
    }
    humanize_duration((now as u64 - saved) as i64)
}

/// The age of a snapshot whose `saved_at` holds seconds since the epoch in decimal.
///
/// A `saved_at` that is no such number reads as "just now".
pub fn humanize_age(saved_at: &str, now: i64) -> (r: String)
    ensures
        r@ == (match decimal_value(saved_at@) {
            Some(saved) => if saved <= u64::MAX {
                age_text(now - saved)
            } else {
                "just now"@
            },
            None => "just now"@,
        }),
{
    proof {
        lemma_parse_result(saved_at@, u64::MAX as nat);
    }
    match parse_up_to(saved_at, u64::MAX) {
        Ok(saved) => humanize_since(saved, now),
        Err(_) => "just now".to_owned(),
    }
}

/// The age of an archive by its `YYYYMMDD-HHMMSS` stamp; "just now" for any other text.
pub fn humanize_stamp(stamp: &str, now: i64) -> (r: String)
    ensures
        r@ == (match stamp_moment(stamp@) {
            Some(saved) => age_text(now - saved),
            None => "just now"@,
        }),
{
    match parse_timestamp(stamp) {
        Some(saved) => humanize_since(saved, now),
        None => "just now".to_owned(),
    }
}

/// A snapshot and the archive made of it in the same second are given the same age.
pub proof fn law_stamp_and_saved_at_agree(secs: nat)
    requires
        secs <= i64::MAX,
        four_digit_year(secs),
    ensures
        stamp_moment(stamp_at(secs)) == decimal_value(decimal(secs)),
{
    law_stamp_round_trip(secs, Seq::empty());
    crate::text::lemma_decimal(secs);
}

// ---- the calendar itself ---------------------------------------------------

/// Every fourth year is a leap year, but for the hundreds that are no four hundreds. Years have 366
/// and 365 days, months the days of the Gregorian calendar, and days are counted from 1970 on.
#[verifier::rlimit(40)]
pub proof fn law_the_calendar_is_gregorian(y: nat, m: nat)
    ensures
        y % 400 == 0 ==> leap(y),
        y % 100 == 0 && y % 400 != 0 ==> !leap(y),
        y % 4 == 0 && y % 100 != 0 ==> leap(y),
        y % 4 != 0 ==> !leap(y),
        month_days(y, 2) == (if leap(y) { 29nat } else { 28 }),
        m == 4 || m == 6 || m == 9 || m == 11 ==> month_days(y, m) == 30,
        m == 1 || m == 3 || m == 5 || m == 7 || m == 8 || m == 10 || m == 12 ==> month_days(y, m)
            == 31,
        days_before_year(1970) == 0,
        y >= 1970 ==> days_before_year(y + 1) == days_before_year(y) + (if leap(y) {
            366int
        } else {
            365
        }),
        days_before_month(y, 1) == 0,
        m >= 1 ==> days_before_month(y, m + 1) == days_before_month(y, m) + month_days(y, m),
        days_before_month(y, 13) == (if leap(y) { 366int } else { 365 }),
{
    assert(y % 400 == 0 ==> y % 100 == 0 && y % 4 == 0);
    assert(y % 100 == 0 ==> y % 4 == 0);
    reveal_with_fuel(days_before_month, 13);
}

/// The count of a day is that of its year, its month and itself.
pub proof fn law_days_are_counted_from_their_year(d: Date)
    requires
        d.valid(),
    ensures
        d.days() + 1 == days_before_year(d.year as nat) + days_before_month(
            d.year as nat,
            d.month as nat,
        ) + d.day,
        1 <= d.month <= 12 && 1 <= d.day <= 31 && d.year >= 1970,
{
}

/// A moment is written as its date, a dash and its time of day: four digits for the year and two
/// for each of the others.
#[verifier::rlimit(40)]
pub proof fn law_moments_are_written(d: Date, h: nat, mi: nat, s: nat)
    requires
        d.valid(),
        h < 24 && mi < 60 && s < 60,
    ensures
        stamp_at(d.days() * 86400 + h * 3600 + mi * 60 + s) == padded(d.year as nat, 4) + padded(
            d.month as nat,
            2,
        ) + padded(d.day as nat, 2) + seq!['-'] + padded(h, 2) + padded(mi, 2) + padded(s, 2),
{
    let t = h * 3600 + mi * 60 + s;
    let secs = (d.days() * 86400 + t) as nat;
    assert(secs / 86400 == d.days() && secs % 86400 == t);
    let found = date_at(d.days());
    assert(d.valid() && d.days() == d.days());
    law_day_counts_order_dates(d, found);
    assert(t / 3600 == h && t % 3600 == mi * 60 + s);
    assert((mi * 60 + s) / 60 == mi && t % 60 == s);
}

/// A text that is no moment is read as none: one too short, without the dash, or with a month, a
/// day, an hour or a minute that there is not.
pub proof fn law_wrong_moments_are_refused(stamp: Seq<char>)
    ensures
        stamp.len() < 15 ==> stamp_moment(stamp) is None,
        stamp.len() >= 15 && stamp[8] != '-' ==> stamp_moment(stamp) is None,
        stamp_moment(stamp) is Some ==> {
            &&& 1 <= digits_value(stamp.subrange(4, 6)) <= 12
            &&& 1 <= digits_value(stamp.subrange(6, 8)) <= 31
            &&& digits_value(stamp.subrange(9, 11)) <= 23
            &&& digits_value(stamp.subrange(11, 13)) <= 59
            &&& all_digits(stamp.subrange(0, 4)) && all_digits(stamp.subrange(13, 15))
        },
{
}

/// A moment that is read is the one that its digits name: the day, counted from 1970, and the time
/// of that day.
pub proof fn law_moments_are_read_from_their_digits(stamp: Seq<char>)
    ensures
        stamp_moment(stamp) matches Some(t) ==> {
            let year = digits_value(stamp.subrange(0, 4));
            let month = digits_value(stamp.subrange(4, 6));
            let days = days_before_year(year) + days_before_month(year, month) + digits_value(
                stamp.subrange(6, 8),
            ) - 1;
            t == days * 86400 + digits_value(stamp.subrange(9, 11)) * 3600 + digits_value(
                stamp.subrange(11, 13),
            ) * 60 + digits_value(stamp.subrange(13, 15))
        },
{
}

/// An age is told in the largest unit that it fills: minutes, hours, days, weeks, months of 30
/// days, years of 365. Less than a minute, or a moment to come, is just now.
#[verifier::rlimit(40)]
pub proof fn law_ages_are_told_in_the_largest_unit(n: int, rest: int)
    requires
        n >= 0 && rest >= 0,
    ensures
        rest < 60 ==> age_text(rest) == "just now"@,
        age_text(-rest) == "just now"@,
        1 <= n < 60 && rest < 60 ==> age_text(n * 60 + rest) == decimal(n as nat) + "m ago"@,
        1 <= n < 24 && rest < 3600 ==> age_text(n * 3600 + rest) == decimal(n as nat) + "h ago"@,
        1 <= n < 7 && rest < 86400 ==> age_text(n * 86400 + rest) == decimal(n as nat) + "d ago"@,
        n == 1 && rest < 604800 ==> age_text(604800 + rest) == decimal(1) + " week"@ + ""@
            + " ago"@,
        2 <= n <= 3 && rest < 604800 ==> age_text(n * 604800 + rest) == decimal(n as nat) + " week"@ + "s"@
            + " ago"@,
        rest < 172800 ==> age_text(4 * 604800 + rest) == decimal(4) + " week"@ + "s"@ + " ago"@,
        n == 1 && rest < 2592000 ==> age_text(2592000 + rest) == decimal(1) + " month"@ + ""@
            + " ago"@,
        2 <= n < 12 && rest < 2592000 ==> age_text(n * 2592000 + rest) == decimal(n as nat) + " month"@
            + "s"@ + " ago"@,
        n == 1 && rest < 31536000 ==> age_text(31536000 + rest) == decimal(1) + " year"@ + ""@
            + " ago"@,
        n >= 2 && rest < 31536000 ==> age_text(n * 31536000 + rest) == decimal(n as nat) + " year"@ + "s"@
            + " ago"@,
{
    assert(rest < 60 ==> (n * 60 + rest) / 60 == n);
    assert(rest < 3600 ==> (n * 3600 + rest) / 3600 == n);
    assert(rest < 86400 ==> (n * 86400 + rest) / 86400 == n);
    assert(rest < 604800 ==> (n * 604800 + rest) / 604800 == n);
    assert(rest < 2592000 ==> (n * 2592000 + rest) / 2592000 == n);
    assert(rest < 31536000 ==> (n * 31536000 + rest) / 31536000 == n);
}

/// The age of a file is counted from its moment; without one it is just now.
pub proof fn law_files_have_an_age(saved: &str, stamp: &str, now: i64, r: String, t: nat)
    ensures
        call_ensures(humanize_age, (saved, now), r) && saved@ == decimal(t) && t <= u64::MAX ==> r@
            == age_text(now - t),
        call_ensures(humanize_age, (saved, now), r) && decimal_value(saved@) is None ==> r@
            == "just now"@,
        call_ensures(humanize_stamp, (stamp, now), r) && stamp_moment(stamp@) == Some(t) ==> r@
            == age_text(now - t),
        call_ensures(humanize_stamp, (stamp, now), r) && stamp_moment(stamp@) is None ==> r@
            == "just now"@,
        call_ensures(format_timestamp, (now,), r) ==> (now < 0 ==> r@.len() == 0) && (now >= 0 ==> r@
            == stamp_at(now as nat)),
{
    crate::text::lemma_decimal(t);
}

} // verus!
