//! The portal's expiry timestamps: a civil date-time in the portal's
//! fixed UTC+5:30 calendar, parsed from the text `D Mon YYYY, H:MM` and
//! turned into seconds so a remaining validity can be computed.
use vstd::prelude::*;

use crate::numfmt::{dec_val, is_digit, is_digit_char, lemma_dec_val_bound, lemma_pow10_le,
    pow10, read_dec};

verus! {

/// A civil date-time: year, month, day, hour and minute, with no zone
/// attached. Years from 1600 through 9999 are supported.
#[derive(Clone, Copy, Debug, PartialEq, Eq, Structural)]
pub struct DateTime {
    pub year: u16,
    pub month: u8,
    pub day: u8,
    pub hour: u8,
    pub minute: u8,
}

/// Leap years of the Gregorian calendar.
pub open spec fn is_leap_year(y: int) -> bool {
    y % 4 == 0 && (y % 100 != 0 || y % 400 == 0)
}

/// The number of days in a month.
pub open spec fn days_in_month(y: int, m: int) -> int {
    if m == 2 {
        if is_leap_year(y) {
            29
        } else {
            28
        }
    } else if m == 4 || m == 6 || m == 9 || m == 11 {
        30
    } else {
        31
    }
}

/// A well-formed date-time: a real calendar date in the supported year
/// range, with an in-range time of day.
pub open spec fn dt_valid(dt: DateTime) -> bool {
    &&& 1600 <= dt.year <= 9999
    &&& 1 <= dt.month <= 12
    &&& 1 <= dt.day <= days_in_month(dt.year as int, dt.month as int)
    &&& dt.hour < 24
    &&& dt.minute < 60
}

/// The number of days from 1970-01-01 to the given civil date
/// (negative for earlier dates), by the usual era decomposition of the
/// Gregorian calendar.
pub open spec fn days_from_civil(y: int, m: int, d: int) -> int {
    let yy = if m <= 2 {
        y - 1
    } else {
        y
    };
    let era = yy / 400;
    let yoe = yy - era * 400;
    let mp = if m > 2 {
        m - 3
    } else {
        m + 9
    };
    let doy = (153 * mp + 2) / 5 + d - 1;
    let doe = yoe * 365 + yoe / 4 - yoe / 100 + doy;
    era * 146097 + doe - 719468
}

/// The given civil date-time as seconds from 1970-01-01 00:00 of the
/// same (unzoned) calendar.
pub open spec fn civil_secs(dt: DateTime) -> int {
    days_from_civil(dt.year as int, dt.month as int, dt.day as int) * 86400 + dt.hour * 3600
        + dt.minute * 60
}

/// The remaining validity: how far `dt` lies after `now`, floored at
/// zero when it does not.
pub open spec fn spec_time_left(dt: DateTime, now: int) -> int {
    if civil_secs(dt) <= now {
        0
    } else {
        civil_secs(dt) - now
    }
}

/// Computes the day number of a well-formed date.
fn days_from_civil_exec(dt: &DateTime) -> (r: i64)
    requires
        dt_valid(*dt),
    ensures
        r == days_from_civil(dt.year as int, dt.month as int, dt.day as int),
        -800000 <= r <= 4000000,
{
    let y: u64 = if dt.month <= 2 {
        dt.year as u64 - 1
    } else {
        dt.year as u64
    };
    let era: u64 = y / 400;
    let yoe: u64 = y - era * 400;
    let mp: u64 = if dt.month > 2 {
        dt.month as u64 - 3
    } else {
        dt.month as u64 + 9
    };
    let doy: u64 = (153 * mp + 2) / 5 + dt.day as u64 - 1;
    let doe: u64 = yoe * 365 + yoe / 4 - yoe / 100 + doy;
    let days_pos: u64 = era * 146097 + doe;
    assert(era <= 24);
    assert(yoe <= 399);
    assert(doy <= 396);
    assert(doe <= 146200);
    (days_pos as i64) - 719468
}

/// Computes the civil seconds of a well-formed date-time.
pub fn civil_secs_exec(dt: &DateTime) -> (r: i64)
    requires
        dt_valid(*dt),
    ensures
        r == civil_secs(*dt),
        -70000000000 <= r <= 350000000000,
{
    let days = days_from_civil_exec(dt);
    days * 86400 + (dt.hour as i64) * 3600 + (dt.minute as i64) * 60
}

/// The seconds from `now` until `dt`, floored at zero: an expiry
/// already past yields zero, never a negative amount.
pub fn time_left_secs(dt: &DateTime, now: i64) -> (r: u64)
    requires
        dt_valid(*dt),
    ensures
        r == spec_time_left(*dt, now as int),
{
    let expiry = civil_secs_exec(dt);
    let diff: i128 = (expiry as i128) - (now as i128);
    if diff <= 0 {
        0
    } else {
        diff as u64
    }
}

/// A remaining validity is never negative: an expiry at or before
/// `now` leaves exactly zero, not a negative amount.
pub proof fn lemma_time_left_clamped(dt: DateTime, now: int)
    ensures
        spec_time_left(dt, now) >= 0,
        civil_secs(dt) <= now ==> spec_time_left(dt, now) == 0,
{
}

/// Relies on std::time::SystemTime::now with duration_since: the
/// seconds from the Unix epoch to the machine's current clock reading,
/// or zero if the clock stands before the epoch.
#[verifier::external_body]
fn unix_now_secs() -> (r: u64) {
    std::time::SystemTime::now().duration_since(std::time::SystemTime::UNIX_EPOCH).map(
        |d| d.as_secs(),
    ).unwrap_or(0)
}

/// The machine's clock reading as civil seconds of the portal's fixed
/// UTC+5:30 calendar: the Unix time shifted by that offset. Whatever
/// the clock reads, the result is never negative.
pub fn now_civil_secs() -> (r: i64)
    ensures
        r >= 0,
{
    let t = unix_now_secs();
    if t > (i64::MAX - 19800) as u64 {
        i64::MAX
    } else {
        (t + 19800) as i64
    }
}

/// The month number of a three-letter English month abbreviation, or
/// zero for any other three characters.
pub open spec fn month_num(a: char, b: char, c: char) -> int {
    if a == 'J' && b == 'a' && c == 'n' {
        1
    } else if a == 'F' && b == 'e' && c == 'b' {
        2
    } else if a == 'M' && b == 'a' && c == 'r' {
        3
    } else if a == 'A' && b == 'p' && c == 'r' {
        4
    } else if a == 'M' && b == 'a' && c == 'y' {
        5
    } else if a == 'J' && b == 'u' && c == 'n' {
        6
    } else if a == 'J' && b == 'u' && c == 'l' {
        7
    } else if a == 'A' && b == 'u' && c == 'g' {
        8
    } else if a == 'S' && b == 'e' && c == 'p' {
        9
    } else if a == 'O' && b == 'c' && c == 't' {
        10
    } else if a == 'N' && b == 'o' && c == 'v' {
        11
    } else if a == 'D' && b == 'e' && c == 'c' {
        12
    } else {
        0
    }
}

/// The expiry grammar, read greedily from the front: a one- or
/// two-digit day, a space, a month abbreviation, a space, a four-digit
/// year, a comma and a space, a one- or two-digit hour, a colon, and a
/// one- or two-digit minute filling the rest of the text. The result
/// must be a well-formed date-time.
pub open spec fn spec_parse_expiry(s: Seq<char>) -> Option<DateTime> {
    let dlen: int = if s.len() >= 1 && is_digit(s[0]) {
        if s.len() >= 2 && is_digit(s[1]) {
            2
        } else {
            1
        }
    } else {
        0
    };
    if dlen == 0 {
        None
    } else {
        let day = dec_val(s.subrange(0, dlen));
        let p = dlen;
        if !(p + 5 <= s.len() && s[p] == ' ' && s[p + 4] == ' ') {
            None
        } else {
            let mon = month_num(s[p + 1], s[p + 2], s[p + 3]);
            if mon == 0 {
                None
            } else {
                let q = p + 5;
                if !(q + 6 <= s.len() && is_digit(s[q]) && is_digit(s[q + 1]) && is_digit(
                    s[q + 2],
                ) && is_digit(s[q + 3]) && s[q + 4] == ',' && s[q + 5] == ' ') {
                    None
                } else {
                    let year = dec_val(s.subrange(q, q + 4));
                    let t0 = q + 6;
                    let hlen: int = if t0 < s.len() && is_digit(s[t0]) {
                        if t0 + 1 < s.len() && is_digit(s[t0 + 1]) {
                            2
                        } else {
                            1
                        }
                    } else {
                        0
                    };
                    if hlen == 0 {
                        None
                    } else {
                        let hour = dec_val(s.subrange(t0, t0 + hlen));
                        let u0 = t0 + hlen;
                        if !(u0 < s.len() && s[u0] == ':') {
                            None
                        } else {
                            let m0 = u0 + 1;
                            let mlen: int = if m0 < s.len() && is_digit(s[m0]) {
                                if m0 + 1 < s.len() && is_digit(s[m0 + 1]) {
                                    2
                                } else {
                                    1
                                }
                            } else {
                                0
                            };
                            if mlen == 0 || m0 + mlen != s.len() {
                                None
                            } else {
                                let minute = dec_val(s.subrange(m0, m0 + mlen));
                                let dt = DateTime {
                                    year: year as u16,
                                    month: mon as u8,
                                    day: day as u8,
                                    hour: hour as u8,
                                    minute: minute as u8,
                                };
                                if dt_valid(dt) {
                                    Some(dt)
                                } else {
                                    None
                                }
                            }
                        }
                    }
                }
            }
        }
    }
}

/// Decides whether a date-time is well formed.
pub fn dt_valid_exec(dt: &DateTime) -> (r: bool)
    ensures
        r == dt_valid(*dt),
{
    let dim: u8 = if dt.month == 2 {
        let leap = dt.year % 4 == 0 && (dt.year % 100 != 0 || dt.year % 400 == 0);
        if leap {
            29
        } else {
            28
        }
    } else if dt.month == 4 || dt.month == 6 || dt.month == 9 || dt.month == 11 {
        30
    } else {
        31
    };
    1600 <= dt.year && dt.year <= 9999 && 1 <= dt.month && dt.month <= 12 && 1 <= dt.day
        && dt.day <= dim && dt.hour < 24 && dt.minute < 60
}

/// Parses an expiry timestamp. Succeeds exactly on texts of the fixed
/// `D Mon YYYY, H:MM` shape that name a well-formed date-time.
pub fn parse_expiry(s: &str) -> (r: Option<DateTime>)
    ensures
        r == spec_parse_expiry(s@),
{
    let n = s.unicode_len();
    let dlen: usize = if n >= 1 && is_digit_char(s.get_char(0)) {
        if n >= 2 && is_digit_char(s.get_char(1)) {
            2
        } else {
            1
        }
    } else {
        0
    };
    if dlen == 0 {
        return None;
    }
    let day = read_dec(s, 0, dlen);
    let p = dlen;
    if !(p + 5 <= n && s.get_char(p) == ' ' && s.get_char(p + 4) == ' ') {
        return None;
    }
    let mon = month_num_exec(s.get_char(p + 1), s.get_char(p + 2), s.get_char(p + 3));
    if mon == 0 {
        return None;
    }
    let q = p + 5;
    if !(q + 6 <= n && is_digit_char(s.get_char(q)) && is_digit_char(s.get_char(q + 1))
        && is_digit_char(s.get_char(q + 2)) && is_digit_char(s.get_char(q + 3)) && s.get_char(
        q + 4,
    ) == ',' && s.get_char(q + 5) == ' ') {
        return None;
    }
    let year = read_dec(s, q, q + 4);
    let t0 = q + 6;
    let hlen: usize = if t0 < n && is_digit_char(s.get_char(t0)) {
        if t0 + 1 < n && is_digit_char(s.get_char(t0 + 1)) {
            2
        } else {
            1
        }
    } else {
        0
    };
    if hlen == 0 {
        return None;
    }
    let hour = read_dec(s, t0, t0 + hlen);
    let u0 = t0 + hlen;
    if !(u0 < n && s.get_char(u0) == ':') {
        return None;
    }
    let m0 = u0 + 1;
    let mlen: usize = if m0 < n && is_digit_char(s.get_char(m0)) {
        if m0 + 1 < n && is_digit_char(s.get_char(m0 + 1)) {
            2
        } else {
            1
        }
    } else {
        0
    };
    if mlen == 0 || m0 + mlen != n {
        return None;
    }
    let minute = read_dec(s, m0, m0 + mlen);
    proof {
        assert(pow10(0) == 1);
        assert(pow10(1) == 10);
        assert(pow10(2) == 100);
        lemma_dec_val_bound(s@, 0, dlen as int);
        lemma_pow10_le((dlen) as nat, 2);
        lemma_dec_val_bound(s@, t0 as int, t0 + hlen);
        lemma_pow10_le((hlen) as nat, 2);
        lemma_dec_val_bound(s@, m0 as int, m0 + mlen);
        lemma_pow10_le((mlen) as nat, 2);
    }
    let dt = DateTime {
        year,
        month: mon,
        day: day as u8,
        hour: hour as u8,
        minute: minute as u8,
    };
    if dt_valid_exec(&dt) {
        Some(dt)
    } else {
        None
    }
}

/// Decides the month number of three characters.
fn month_num_exec(a: char, b: char, c: char) -> (r: u8)
    ensures
        r == month_num(a, b, c),
        r <= 12,
{
    if a == 'J' && b == 'a' && c == 'n' {
        1
    } else if a == 'F' && b == 'e' && c == 'b' {
        2
    } else if a == 'M' && b == 'a' && c == 'r' {
        3
    } else if a == 'A' && b == 'p' && c == 'r' {
        4
    } else if a == 'M' && b == 'a' && c == 'y' {
        5
    } else if a == 'J' && b == 'u' && c == 'n' {
        6
    } else if a == 'J' && b == 'u' && c == 'l' {
        7
    } else if a == 'A' && b == 'u' && c == 'g' {
        8
    } else if a == 'S' && b == 'e' && c == 'p' {
        9
    } else if a == 'O' && b == 'c' && c == 't' {
        10
    } else if a == 'N' && b == 'o' && c == 'v' {
        11
    } else if a == 'D' && b == 'e' && c == 'c' {
        12
    } else {
        0
    }
}

} // verus!
