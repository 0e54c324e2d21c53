//! Calendar arithmetic for UTC timestamps, counted in whole seconds since
//! 1970-01-01T00:00:00. Supported values stay within the years 1970..=9999,
//! which is all the durable text format can spell with a four-digit year.

use vstd::prelude::*;

verus! {

/// A point in time, UTC, at second precision.
#[derive(Clone, Copy, Debug, PartialEq, Eq, Structural)]
pub struct Timestamp {
    pub secs: u64,
}

pub open spec fn is_leap_year(y: int) -> bool {
    y % 4 == 0 && (y % 100 != 0 || y % 400 == 0)
}

pub open spec fn days_in_year(y: int) -> int {
    if is_leap_year(y) {
        366
    } else {
        365
    }
}

pub open spec fn days_in_month(y: int, m: int) -> int {
    if m == 2 {
        if is_leap_year(y) {
            29
        } else {
            28
        }
    } else if m == 4 || m == 6 || m == 9 || m == 11 {
        30
    } else {
        31
    }
}

/// Days from the epoch to the first day of year `y`.
pub open spec fn days_before_year(y: int) -> int
    decreases y - 1970,
{
    if y <= 1970 {
        0
    } else {
        days_before_year(y - 1) + days_in_year(y - 1)
    }
}

/// Days from the first day of year `y` to the first day of its month `m`.
pub open spec fn days_before_month(y: int, m: int) -> int
    decreases m,
{
    if m <= 1 {
        0
    } else {
        days_before_month(y, m - 1) + days_in_month(y, m - 1)
    }
}

/// Days from the epoch to the civil date `y-m-d`.
pub open spec fn epoch_days(y: int, m: int, d: int) -> int {
    days_before_year(y) + days_before_month(y, m) + (d - 1)
}

/// Seconds from the epoch to `y-m-d h:mi:s`.
pub open spec fn epoch_secs(y: int, m: int, d: int, h: int, mi: int, s: int) -> int {
    epoch_days(y, m, d) * 86400 + h * 3600 + mi * 60 + s
}

/// One past the largest representable second: the start of year 10000.
pub open spec fn secs_limit() -> int {
    days_before_year(10000) * 86400
}

impl Timestamp {
    pub open spec fn wf(self) -> bool {
        self.secs < secs_limit()
    }

    /// Accepts any second up to the end of year 9999.
    pub fn new(secs: u64) -> (r: Option<Timestamp>)
        ensures
            r matches Some(t) ==> t.secs == secs && t.wf(),
            r is None <==> secs as int >= secs_limit(),
    {
        let limit = secs_limit_x();
        if secs < limit {
            Some(Timestamp { secs })
        } else {
            None
        }
    }

    /// Moves this instant forward by `delta` seconds, if the result is still
    /// representable.
    pub fn checked_add(self, delta: u64) -> (r: Option<Timestamp>)
        requires
            self.wf(),
        ensures
            r matches Some(t) ==> t.secs == self.secs + delta && t.wf(),
            r is None <==> self.secs + delta >= secs_limit(),
    {
        let limit = secs_limit_x();
        if delta < limit - self.secs {
            Some(Timestamp { secs: self.secs + delta })
        } else {
            None
        }
    }
}

/// Computes the exclusive upper bound on representable seconds.
pub fn secs_limit_x() -> (r: u64)
    ensures
        r as int == secs_limit(),
{
    let d = days_before_year_x(10000);
    d * 86400
}

/// The twelve months of a year account for exactly its days.
pub proof fn lemma_year_months(y: int)
    ensures
        days_before_month(y, 13) == days_in_year(y),
{
    reveal_with_fuel(days_before_month, 13);
}

/// `days_before_month` grows with the month.
pub proof fn lemma_dbm_mono(y: int, a: int, b: int)
    requires
        1 <= a <= b,
    ensures
        days_before_month(y, a) <= days_before_month(y, b),
    decreases b - a,
{
    if a < b {
        lemma_dbm_mono(y, a, b - 1);
    }
}

/// `days_before_year` grows with the year.
pub proof fn lemma_dby_mono(a: int, b: int)
    requires
        a <= b,
    ensures
        days_before_year(a) <= days_before_year(b),
    decreases b - a,
{
    if a < b {
        lemma_dby_mono(a, b - 1);
    }
}

/// Within a year, a valid month and day stay short of the year's length.
pub proof fn lemma_date_within_year(y: int, m: int, d: int)
    requires
        1 <= m <= 12,
        1 <= d <= days_in_month(y, m),
    ensures
        days_before_month(y, m) + (d - 1) < days_in_year(y),
{
    lemma_dbm_mono(y, m + 1, 13);
    lemma_year_months(y);
}

pub fn year_len(y: u64) -> (r: u64)
    ensures
        r as int == days_in_year(y as int),
{
    if y % 4 == 0 && (y % 100 != 0 || y % 400 == 0) {
        366
    } else {
        365
    }
}

pub fn month_len(y: u64, m: u64) -> (r: u64)
    requires
        1 <= m <= 12,
    ensures
        r as int == days_in_month(y as int, m as int),
{
    if m == 2 {
        if y % 4 == 0 && (y % 100 != 0 || y % 400 == 0) {
            29
        } else {
            28
        }
    } else if m == 4 || m == 6 || m == 9 || m == 11 {
        30
    } else {
        31
    }
}

/// Splits a day count into the civil date it falls on.
pub fn civil_from_days(days: u64) -> (r: (u64, u64, u64))
    requires
        (days as int) < days_before_year(10000),
    ensures
        1970 <= r.0 <= 9999,
        1 <= r.1 <= 12,
        1 <= r.2 as int <= days_in_month(r.0 as int, r.1 as int),
        epoch_days(r.0 as int, r.1 as int, r.2 as int) == days as int,
{
    let mut y: u64 = 1970;
    let mut rem: u64 = days;
    loop
        invariant
            1970 <= y <= 9999,
            days_before_year(y as int) + rem as int == days as int,
            (days as int) < days_before_year(10000),
        ensures
            1970 <= y <= 9999,
            days_before_year(y as int) + rem as int == days as int,
            (rem as int) < days_in_year(y as int),
        decreases 10000 - y,
    {
        let yl = year_len(y);
        if rem < yl {
            break;
        }
        proof {
            assert(days_before_year(10000) == days_before_year(9999) + days_in_year(9999));
            assert(y < 9999);
        }
        rem = rem - yl;
        y = y + 1;
    }
    let ghost year_rem: int = rem as int;
    let mut m: u64 = 1;
    loop
        invariant
            1 <= m <= 12,
            days_before_month(y as int, m as int) + rem as int == year_rem,
            year_rem < days_in_year(y as int),
        ensures
            1 <= m <= 12,
            days_before_month(y as int, m as int) + rem as int == year_rem,
            (rem as int) < days_in_month(y as int, m as int),
        decreases 13 - m,
    {
        let ml = month_len(y, m);
        if rem < ml {
            break;
        }
        proof {
            lemma_year_months(y as int);
            assert(days_before_month(y as int, 13) == days_before_month(y as int, 12)
                + days_in_month(y as int, 12));
            assert(m < 12);
        }
        rem = rem - ml;
        m = m + 1;
    }
    let d = rem + 1;
    (y, m, d)
}

fn days_before_year_x(y: u64) -> (r: u64)
    requires
        1970 <= y <= 10000,
    ensures
        r as int == days_before_year(y as int),
        r as int <= 366 * (y - 1970),
{
    let mut acc: u64 = 0;
    let mut i: u64 = 1970;
    while i < y
        invariant
            1970 <= i <= y <= 10000,
            acc as int == days_before_year(i as int),
            acc as int <= 366 * (i - 1970),
        decreases y - i,
    {
        acc = acc + year_len(i);
        i = i + 1;
    }
    acc
}

fn days_before_month_x(y: u64, m: u64) -> (r: u64)
    requires
        1 <= m <= 12,
    ensures
        r as int == days_before_month(y as int, m as int),
        r <= 366,
    {
    let mut acc: u64 = 0;
    let mut i: u64 = 1;
    while i < m
        invariant
            1 <= i <= m <= 12,
            acc as int == days_before_month(y as int, i as int),
            acc as int <= 31 * (i - 1),
        decreases m - i,
    {
        acc = acc + month_len(y, i);
        i = i + 1;
    }
    acc
}

/// Counts the days from the epoch to the civil date `y-m-d`.
pub fn days_from_civil(y: u64, m: u64, d: u64) -> (r: u64)
    requires
        1970 <= y <= 9999,
        1 <= m <= 12,
        1 <= d as int,
        d as int <= days_in_month(y as int, m as int),
    ensures
        r as int == epoch_days(y as int, m as int, d as int),
        (r as int) < days_before_year(10000),
        r <= 2939011,
{
    let a = days_before_year_x(y);
    let b = days_before_month_x(y, m);
    proof {
        lemma_date_within_year(y as int, m as int, d as int);
        assert(days_before_year(y as int) + days_in_year(y as int) == days_before_year(
            y as int + 1,
        ));
        lemma_dby_mono(y as int + 1, 10000);
    }
    a + b + (d - 1)
}

pub open spec fn is_digit(b: u8) -> bool {
    48 <= b <= 57
}

pub open spec fn digit_val(b: u8) -> int {
    b - 48
}

/// The meaning of a 25-byte timestamp text `YYYY-MM-DDTHH:MM:SS+00:00`:
/// the second it names, or `None` where the text does not have that shape,
/// names an impossible date, or falls before 1970.
pub open spec fn parse_ts(s: Seq<u8>) -> Option<int> {
    if s.len() == 25 && is_digit(s[0]) && is_digit(s[1]) && is_digit(s[2]) && is_digit(s[3])
        && s[4] == 45 && is_digit(s[5]) && is_digit(s[6]) && s[7] == 45 && is_digit(s[8])
        && is_digit(s[9]) && s[10] == 84 && is_digit(s[11]) && is_digit(s[12]) && s[13] == 58
        && is_digit(s[14]) && is_digit(s[15]) && s[16] == 58 && is_digit(s[17]) && is_digit(s[18])
        && s[19] == 43 && s[20] == 48 && s[21] == 48 && s[22] == 58 && s[23] == 48 && s[24]
        == 48 {
        let y = digit_val(s[0]) * 1000 + digit_val(s[1]) * 100 + digit_val(s[2]) * 10 + digit_val(
            s[3],
        );
        let m = digit_val(s[5]) * 10 + digit_val(s[6]);
        let d = digit_val(s[8]) * 10 + digit_val(s[9]);
        let h = digit_val(s[11]) * 10 + digit_val(s[12]);
        let mi = digit_val(s[14]) * 10 + digit_val(s[15]);
        let sec = digit_val(s[17]) * 10 + digit_val(s[18]);
        if 1970 <= y && 1 <= m <= 12 && 1 <= d && d <= days_in_month(y, m) && h <= 23 && mi <= 59
            && sec <= 59 {
            Some(epoch_secs(y, m, d, h, mi, sec))
        } else {
            None
        }
    } else {
        None
    }
}

/// The lenient reading: an unparsable text stands for the epoch itself.
pub open spec fn parse_ts_lenient(s: Seq<u8>) -> int {
    match parse_ts(s) {
        Some(v) => v,
        None => 0,
    }
}

/// The epoch, the fallback for unparsable timestamp text.
pub fn zero_timestamp() -> (r: Timestamp)
    ensures
        r.secs == 0,
        r.wf(),
{
    proof {
        lemma_dby_mono(1971, 10000);
        assert(days_before_year(1970) == 0);
        assert(!is_leap_year(1970));
        assert(days_before_year(1971) == 365);
    }
    Timestamp { secs: 0 }
}

/// Writes `t` as the 25 bytes `YYYY-MM-DDTHH:MM:SS+00:00`.
pub fn format_timestamp(t: Timestamp) -> (r: Vec<u8>)
    requires
        t.wf(),
    ensures
        parse_ts(r@) == Some(t.secs as int),
        r@.len() == 25,
        forall|i: int| 0 <= i < r@.len() ==> r@[i] != 10,
{
    let days: u64 = t.secs / 86400;
    let sod: u64 = t.secs % 86400;
    proof {
        assert(t.secs as int == days as int * 86400 + sod as int);
        assert((days as int) < days_before_year(10000));
    }
    let ymd = civil_from_days(days);
    let y: u64 = ymd.0;
    let m: u64 = ymd.1;
    let d: u64 = ymd.2;
    let h: u64 = sod / 3600;
    let r3600: u64 = sod % 3600;
    let mi: u64 = r3600 / 60;
    let sec: u64 = r3600 % 60;
    let q1: u64 = y / 10;
    let q2: u64 = q1 / 10;
    let q3: u64 = q2 / 10;
    let b0: u8 = 48 + (q3 % 10) as u8;
    let b1: u8 = 48 + (q2 % 10) as u8;
    let b2: u8 = 48 + (q1 % 10) as u8;
    let b3: u8 = 48 + (y % 10) as u8;
    let b5: u8 = 48 + (m / 10) as u8;
    let b6: u8 = 48 + (m % 10) as u8;
    let b8: u8 = 48 + (d / 10) as u8;
    let b9: u8 = 48 + (d % 10) as u8;
    let b11: u8 = 48 + (h / 10) as u8;
    let b12: u8 = 48 + (h % 10) as u8;
    let b14: u8 = 48 + (mi / 10) as u8;
    let b15: u8 = 48 + (mi % 10) as u8;
    let b17: u8 = 48 + (sec / 10) as u8;
    let b18: u8 = 48 + (sec % 10) as u8;
    let mut out: Vec<u8> = Vec::new();
    out.push(b0);
    out.push(b1);
    out.push(b2);
    out.push(b3);
    out.push(45);
    out.push(b5);
    out.push(b6);
    out.push(45);
    out.push(b8);
    out.push(b9);
    out.push(84);
    out.push(b11);
    out.push(b12);
    out.push(58);
    out.push(b14);
    out.push(b15);
    out.push(58);
    out.push(b17);
    out.push(b18);
    out.push(43);
    out.push(48);
    out.push(48);
    out.push(58);
    out.push(48);
    out.push(48);
    proof {
        assert(y as int == ((q3 as int * 10 + q2 as int % 10) * 10 + q1 as int % 10) * 10
            + y as int % 10);
        assert(digit_val(b0) * 1000 + digit_val(b1) * 100 + digit_val(b2) * 10 + digit_val(b3)
            == y as int);
        assert(digit_val(b5) * 10 + digit_val(b6) == m as int);
        assert(digit_val(b8) * 10 + digit_val(b9) == d as int);
        assert(digit_val(b11) * 10 + digit_val(b12) == h as int);
        assert(digit_val(b14) * 10 + digit_val(b15) == mi as int);
        assert(digit_val(b17) * 10 + digit_val(b18) == sec as int);
        assert(parse_ts(out@) == Some(epoch_secs(y as int, m as int, d as int, h as int, mi as int, sec as int)));
        assert(epoch_secs(y as int, m as int, d as int, h as int, mi as int, sec as int)
            == t.secs as int);
    }
    out
}

/// Reads a 25-byte timestamp text leniently: anything unparsable, impossible
/// or out of the supported years stands for the epoch.
pub fn parse_timestamp(s: &Vec<u8>) -> (r: Timestamp)
    ensures
        r.secs as int == parse_ts_lenient(s@),
        r.wf(),
{
    if s.len() != 25 {
        return zero_timestamp();
    }
    let b0: u8 = s[0];
    let b1: u8 = s[1];
    let b2: u8 = s[2];
    let b3: u8 = s[3];
    let b4: u8 = s[4];
    let b5: u8 = s[5];
    let b6: u8 = s[6];
    let b7: u8 = s[7];
    let b8: u8 = s[8];
    let b9: u8 = s[9];
    let b10: u8 = s[10];
    let b11: u8 = s[11];
    let b12: u8 = s[12];
    let b13: u8 = s[13];
    let b14: u8 = s[14];
    let b15: u8 = s[15];
    let b16: u8 = s[16];
    let b17: u8 = s[17];
    let b18: u8 = s[18];
    let b19: u8 = s[19];
    let b20: u8 = s[20];
    let b21: u8 = s[21];
    let b22: u8 = s[22];
    let b23: u8 = s[23];
    let b24: u8 = s[24];
    let shape_ok: bool = digit_ok(b0) && digit_ok(b1) && digit_ok(b2) && digit_ok(b3) && b4 == 45
        && digit_ok(b5) && digit_ok(b6) && b7 == 45 && digit_ok(b8) && digit_ok(b9) && b10 == 84
        && digit_ok(b11) && digit_ok(b12) && b13 == 58 && digit_ok(b14) && digit_ok(b15) && b16
        == 58 && digit_ok(b17) && digit_ok(b18) && b19 == 43 && b20 == 48 && b21 == 48 && b22 == 58
        && b23 == 48 && b24 == 48;
    if !shape_ok {
        return zero_timestamp();
    }
    let y: u64 = dig(b0) * 1000 + dig(b1) * 100 + dig(b2) * 10 + dig(b3);
    let m: u64 = dig(b5) * 10 + dig(b6);
    let d: u64 = dig(b8) * 10 + dig(b9);
    let h: u64 = dig(b11) * 10 + dig(b12);
    let mi: u64 = dig(b14) * 10 + dig(b15);
    let sec: u64 = dig(b17) * 10 + dig(b18);
    if !(1970 <= y && 1 <= m && m <= 12 && 1 <= d && h <= 23 && mi <= 59 && sec <= 59) {
        return zero_timestamp();
    }
    if d > month_len(y, m) {
        return zero_timestamp();
    }
    let days: u64 = days_from_civil(y, m, d);
    let secs: u64 = days * 86400 + h * 3600 + mi * 60 + sec;
    proof {
        assert(epoch_days(y as int, m as int, d as int) + 1 <= days_before_year(10000));
        assert((secs as int) < days_before_year(10000) * 86400);
    }
    Timestamp { secs }
}

fn digit_ok(b: u8) -> (r: bool)
    ensures
        r == is_digit(b),
{
    48 <= b && b <= 57
}

fn dig(b: u8) -> (r: u64)
    requires
        is_digit(b),
    ensures
        r as int == digit_val(b),
{
    (b - 48) as u64
}

} // verus!
