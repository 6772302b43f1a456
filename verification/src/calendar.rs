//! Calendar dates for log timestamps: days since 1970-01-01 to a
//! (proleptic Gregorian) year, month and day, and the ISO-8601 UTC form of
//! a Unix time.
use vstd::prelude::*;
use vstd::arithmetic::div_mod::lemma_fundamental_div_mod_converse_div;
use vstd::arithmetic::div_mod::lemma_fundamental_div_mod_converse_mod;
use crate::text::{decimal, push_decimal};

verus! {

// ─── The Gregorian calendar ─────────────────────────────────────────

/// Whether `y` is a Gregorian leap year.
pub open spec fn leap_year(y: int) -> bool {
    y % 4 == 0 && (y % 100 != 0 || y % 400 == 0)
}

/// The number of days of month `m` (1–12) of year `y`.
pub open spec fn month_len(y: int, m: int) -> int {
    if m == 2 {
        if leap_year(y) {
            29
        } else {
            28
        }
    } else if m == 4 || m == 6 || m == 9 || m == 11 {
        30
    } else {
        31
    }
}

/// Days from the start of a 400-year era (1 March of a year divisible by
/// 400) to the start of its `y`-th year (years counted from 1 March).
pub open spec fn era_days_before(y: int) -> int {
    365 * y + y / 4 - y / 100
}

/// Whether year `y` of an era ends with a 29 February.
pub open spec fn era_year_leap(y: int) -> bool {
    (y + 1) % 4 == 0 && ((y + 1) % 100 != 0 || y == 399)
}

pub open spec fn era_year_len(y: int) -> int {
    if era_year_leap(y) {
        366
    } else {
        365
    }
}

/// The day of its (March-based) year on which month `mp` starts, counting
/// March as month 0.
pub open spec fn month_start(mp: int) -> int {
    (153 * mp + 2) / 5
}

/// The day number of `y`-`m`-`d` counted from 1970-01-01.
pub open spec fn days_from_civil(y: int, m: int, d: int) -> int {
    let yp = if m <= 2 {
        y - 1
    } else {
        y
    };
    let era = yp / 400;
    let yoe = yp - era * 400;
    let mp = if m > 2 {
        m - 3
    } else {
        m + 9
    };
    era * 146097 + era_days_before(yoe) + month_start(mp) + d - 1 - 719468
}

/// `(y, m, d)` is a valid date and the one `days` days after 1970-01-01.
pub open spec fn is_civil_date(days: int, y: int, m: int, d: int) -> bool {
    &&& 1 <= m <= 12
    &&& 1 <= d <= month_len(y, m)
    &&& days_from_civil(y, m, d) == days
}

// ─── Lemmas ─────────────────────────────────────────────────────────

proof fn lemma_div_is(x: int, d: int, q: int, r: int)
    requires
        d > 0,
        0 <= r < d,
        x == q * d + r,
    ensures
        x / d == q,
{
    lemma_fundamental_div_mod_converse_div(x, d, q, r);
}

/// The closed form for the year of an era recovers `y` from any day of
/// that year.
proof fn lemma_year_of_era_inverse(y: int, r: int)
    requires
        0 <= y < 400,
        0 <= r < era_year_len(y),
    ensures
        ({
            let doe = era_days_before(y) + r;
            (doe - doe / 1460 + doe / 36524 - doe / 146096) / 365 == y
        }),
{
    let p = y / 100;
    let q = (y % 100) / 4;
    let s = y % 4;
    assert(y == 100 * p + 4 * q + s && 0 <= p < 4 && 0 <= q < 25 && 0 <= s < 4);
    lemma_div_is(y, 4, 25 * p + q, s);
    lemma_div_is(y, 100, p, 4 * q + s);
    let doe = era_days_before(y) + r;
    assert(doe == 36524 * p + 1461 * q + 365 * s + r);
    assert(era_year_leap(y) <==> s == 3 && (q != 24 || p == 3));
    if p == 3 && q == 24 && s == 3 && r == 365 {
        assert(doe == 146096);
        assert((doe - doe / 1460 + doe / 36524 - doe / 146096) / 365 == y);
    } else {
        lemma_div_is(doe, 146096, 0, doe);
        lemma_div_is(doe, 36524, p, 1461 * q + 365 * s + r);
        if 24 * p + q + 365 * s + r >= 1460 {
            lemma_div_is(doe, 1460, 25 * p + q + 1, 24 * p + q + 365 * s + r - 1460);
            let n = doe - (25 * p + q + 1) + p;
            assert(n == 365 * y + r - 1);
            lemma_div_is(n, 365, y, r - 1);
        } else {
            lemma_div_is(doe, 1460, 25 * p + q, 24 * p + q + 365 * s + r);
            let n = doe - (25 * p + q) + p;
            assert(n == 365 * y + r);
            lemma_div_is(n, 365, y, r);
        }
    }
}

proof fn lemma_era_days_step(y: int)
    requires
        0 <= y < 399,
    ensures
        era_days_before(y + 1) == era_days_before(y) + era_year_len(y),
{
    let p = y / 100;
    let q = (y % 100) / 4;
    let s = y % 4;
    assert(y == 100 * p + 4 * q + s && 0 <= p < 4 && 0 <= q < 25 && 0 <= s < 4);
    lemma_div_is(y, 4, 25 * p + q, s);
    lemma_div_is(y, 100, p, 4 * q + s);
    assert(era_year_leap(y) <==> s == 3 && q != 24) by {
        lemma_fundamental_div_mod_converse_mod(y + 1, 4, 25 * p + q + (s + 1) / 4, (s + 1) % 4);
        lemma_fundamental_div_mod_converse_mod(y + 1, 100, p + (4 * q + s + 1) / 100, (4 * q + s + 1) % 100);
    }
    if s < 3 {
        lemma_div_is(y + 1, 4, 25 * p + q, s + 1);
        lemma_div_is(y + 1, 100, p, 4 * q + s + 1);
    } else if q < 24 {
        lemma_div_is(y + 1, 4, 25 * p + q + 1, 0);
        lemma_div_is(y + 1, 100, p, 4 * q + 4);
    } else {
        lemma_div_is(y + 1, 4, 25 * p + 25, 0);
        lemma_div_is(y + 1, 100, p + 1, 0);
    }
}

/// The year of an era that contains day `doe`.
proof fn year_containing(doe: int, y: int) -> (k: int)
    requires
        0 <= y < 400,
        era_days_before(y) <= doe < 146097,
    ensures
        y <= k < 400,
        era_days_before(k) <= doe < era_days_before(k) + era_year_len(k),
    decreases 400 - y,
{
    if y == 399 {
        assert(era_days_before(399) + era_year_len(399) == 146097);
        y
    } else if doe < era_days_before(y) + era_year_len(y) {
        y
    } else {
        lemma_era_days_step(y);
        year_containing(doe, y + 1)
    }
}

proof fn lemma_month_of_day(doy: int, leap: bool)
    requires
        0 <= doy < (if leap {
            366int
        } else {
            365int
        }),
    ensures
        ({
            let mp = (5 * doy + 2) / 153;
            let d = doy - month_start(mp) + 1;
            &&& 0 <= mp < 12
            &&& 1 <= d
            &&& d <= (if mp == 11 {
                if leap {
                    29int
                } else {
                    28int
                }
            } else if mp == 1 || mp == 3 || mp == 6 || mp == 8 {
                30int
            } else {
                31int
            })
        }),
{
    let mp = (5 * doy + 2) / 153;
    assert(0 <= mp < 12);
    assert(month_start(0) == 0 && month_start(1) == 31 && month_start(2) == 61 && month_start(3) == 92);
    assert(month_start(4) == 122 && month_start(5) == 153 && month_start(6) == 184 && month_start(7)
        == 214);
    assert(month_start(8) == 245 && month_start(9) == 275 && month_start(10) == 306 && month_start(11)
        == 337);
    assert(month_start(mp) <= doy) by {
        assert(153 * mp <= 5 * doy + 2);
    }
    assert(doy < month_start(mp + 1) || mp == 11) by {
        assert(5 * doy + 2 < 153 * (mp + 1));
    }
}

// ─── Days to dates ──────────────────────────────────────────────────

/// Days since 1970-01-01 to `(year, month, day)` (Howard Hinnant's
/// `civil_from_days`).
pub fn civil_from_days(days: u64) -> (r: (i64, u32, u32))
    requires
        days <= u64::MAX - 719_468,
    ensures
        is_civil_date(days as int, r.0 as int, r.1 as int, r.2 as int),
        r.0 >= 0,
{
    let z: u64 = days + 719_468;
    let era: u64 = z / 146_097;
    let doe: u64 = z - era * 146_097;
    let ghost k = year_containing(doe as int, 0);
    proof {
        lemma_year_of_era_inverse(k, doe - era_days_before(k));
    }
    let yoe: u64 = (doe - doe / 1460 + doe / 36_524 - doe / 146_096) / 365;
    assert(yoe == k);
    let y0: u64 = yoe + era * 400;
    let doy: u64 = doe - (365 * yoe + yoe / 4 - yoe / 100);
    proof {
        lemma_month_of_day(doy as int, era_year_leap(yoe as int));
    }
    let mp: u64 = (5 * doy + 2) / 153;
    let d: u64 = doy - (153 * mp + 2) / 5 + 1;
    let m: u64 = if mp < 10 {
        mp + 3
    } else {
        mp - 9
    };
    let y: u64 = if m <= 2 {
        y0 + 1
    } else {
        y0
    };
    proof {
        let yp = if m <= 2 {
            y - 1
        } else {
            y as int
        };
        assert(yp == yoe + era * 400);
        lemma_div_is(yp, 400, era as int, yoe as int);
        if m == 2 {
            assert(y == yoe + 1 + era * 400);
            lemma_div_is(y as int, 4, 100 * era + (yoe + 1) / 4, (yoe + 1) % 4);
            lemma_div_is(y as int, 100, 4 * era + (yoe + 1) / 100, (yoe + 1) % 100);
            lemma_div_is(y as int, 400, era + (yoe + 1) / 400, (yoe + 1) % 400);
            assert(leap_year(y as int) == era_year_leap(yoe as int));
        }
    }
    (y as i64, m as u32, d as u32)
}

/// The two-digit (zero-padded) form of `n`.
pub open spec fn two_digits(n: nat) -> Seq<char> {
    if n < 10 {
        seq!['0'] + decimal(n)
    } else {
        decimal(n)
    }
}

/// The four-digit (zero-padded) form of `n`.
pub open spec fn four_digits(n: nat) -> Seq<char> {
    if n < 10 {
        "000"@ + decimal(n)
    } else if n < 100 {
        "00"@ + decimal(n)
    } else if n < 1000 {
        "0"@ + decimal(n)
    } else {
        decimal(n)
    }
}

fn push_padded(v: &mut Vec<char>, n: u64, width: u64)
    requires
        width == 2 || width == 4,
    ensures
        final(v)@ == old(v)@ + (if width == 2 {
            two_digits(n as nat)
        } else {
            four_digits(n as nat)
        }),
{
    proof {
        reveal_strlit("0");
        reveal_strlit("00");
        reveal_strlit("000");
    }
    if width == 4 {
        if n < 10 {
            crate::text::push_str(v, "000");
        } else if n < 100 {
            crate::text::push_str(v, "00");
        } else if n < 1000 {
            crate::text::push_str(v, "0");
        }
    } else if n < 10 {
        v.push('0');
    }
    let ghost mid = v@;
    push_decimal(v, n as u128);
    assert(v@ == mid + decimal(n as nat));
    if width == 2 && n < 10 {
        assert(seq!['0'] + decimal(n as nat) =~= two_digits(n as nat));
    }
}

/// `secs` (seconds since the Unix epoch) as `YYYY-MM-DDTHH:MM:SSZ`.
pub open spec fn utc_timestamp(secs: nat, y: nat, m: nat, d: nat) -> Seq<char> {
    let tod = secs % 86400;
    four_digits(y) + "-"@ + two_digits(m) + "-"@ + two_digits(d) + "T"@ + two_digits(tod / 3600)
        + ":"@ + two_digits((tod % 3600) / 60) + ":"@ + two_digits(tod % 60) + "Z"@
}

/// `secs` in ISO-8601 UTC form, for the diagnostics log.
pub fn format_unix_secs_utc(secs: u64) -> (r: String)
    ensures
        exists|y: int, m: int, d: int|
            #![trigger is_civil_date(secs as int / 86400, y, m, d)]
            y >= 0 && is_civil_date(secs as int / 86400, y, m, d) && r@ == utc_timestamp(
                secs as nat,
                y as nat,
                m as nat,
                d as nat,
            ),
{
    let days: u64 = secs / 86_400;
    let tod: u64 = secs % 86_400;
    let hour: u64 = tod / 3600;
    let minute: u64 = (tod % 3600) / 60;
    let second: u64 = tod % 60;
    let (y, m, d) = civil_from_days(days);
    let mut out: Vec<char> = Vec::new();
    let yy: u64 = if y >= 0 {
        y as u64
    } else {
        0
    };
    push_padded(&mut out, yy, 4);
    crate::text::push_str(&mut out, "-");
    push_padded(&mut out, m as u64, 2);
    crate::text::push_str(&mut out, "-");
    push_padded(&mut out, d as u64, 2);
    crate::text::push_str(&mut out, "T");
    push_padded(&mut out, hour, 2);
    crate::text::push_str(&mut out, ":");
    push_padded(&mut out, minute, 2);
    crate::text::push_str(&mut out, ":");
    push_padded(&mut out, second, 2);
    crate::text::push_str(&mut out, "Z");
    assert(y >= 0);
    assert(is_civil_date(secs as int / 86400, y as int, m as int, d as int));
    crate::text::string_of(out.as_slice())
}

} // verus!
