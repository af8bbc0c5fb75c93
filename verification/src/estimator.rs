use vstd::prelude::*;

use crate::strutil::chars_to_string;

verus! {

/// One decimal digit character.
pub open spec fn digit_char(d: int) -> char {
    if d == 0 {
        '0'
    } else if d == 1 {
        '1'
    } else if d == 2 {
        '2'
    } else if d == 3 {
        '3'
    } else if d == 4 {
        '4'
    } else if d == 5 {
        '5'
    } else if d == 6 {
        '6'
    } else if d == 7 {
        '7'
    } else if d == 8 {
        '8'
    } else {
        '9'
    }
}

/// The decimal representation of a non-negative number, most significant
/// digit first, with no leading zeros.
pub open spec fn dec_rep(n: int) -> Seq<char>
    decreases n,
{
    if n < 10 {
        seq![digit_char(n)]
    } else {
        dec_rep(n / 10).push(digit_char(n % 10))
    }
}

/// Seconds per minute, hour, day, and per the estimator's month (31 days),
/// year (12 such months) and century.
pub open spec fn spec_minute() -> int {
    60
}

pub open spec fn spec_hour() -> int {
    3600
}

pub open spec fn spec_day() -> int {
    86400
}

pub open spec fn spec_month() -> int {
    2678400
}

pub open spec fn spec_year() -> int {
    32140800
}

pub open spec fn spec_century() -> int {
    3214080000
}

/// The human-readable crack-time bucket for a whole-second estimate: below
/// one second it is "less than a second", above a century it is
/// "centuries", and in between the count of the largest fitting unit, with
/// a plural "s" exactly when that count exceeds one.
pub open spec fn crack_time_text(s: int) -> Seq<char> {
    if s < 1 {
        "less than a second"@
    } else if s < spec_minute() {
        dec_rep(s) + (if s > 1 {
            " seconds"@
        } else {
            " second"@
        })
    } else if s < spec_hour() {
        dec_rep(s / spec_minute()) + (if s / spec_minute() > 1 {
            " minutes"@
        } else {
            " minute"@
        })
    } else if s < spec_day() {
        dec_rep(s / spec_hour()) + (if s / spec_hour() > 1 {
            " hours"@
        } else {
            " hour"@
        })
    } else if s < spec_month() {
        dec_rep(s / spec_day()) + (if s / spec_day() > 1 {
            " days"@
        } else {
            " day"@
        })
    } else if s < spec_year() {
        dec_rep(s / spec_month()) + (if s / spec_month() > 1 {
            " months"@
        } else {
            " month"@
        })
    } else if s < spec_century() {
        dec_rep(s / spec_year()) + (if s / spec_year() > 1 {
            " years"@
        } else {
            " year"@
        })
    } else {
        "centuries"@
    }
}

fn digit_char_exec(d: u64) -> (c: char)
    requires
        d < 10,
    ensures
        c == digit_char(d as int),
{
    if d == 0 {
        '0'
    } else if d == 1 {
        '1'
    } else if d == 2 {
        '2'
    } else if d == 3 {
        '3'
    } else if d == 4 {
        '4'
    } else if d == 5 {
        '5'
    } else if d == 6 {
        '6'
    } else if d == 7 {
        '7'
    } else if d == 8 {
        '8'
    } else {
        '9'
    }
}

/// The decimal digits of a number, most significant first.
fn dec_digits(n: u64) -> (v: Vec<char>)
    ensures
        v@ == dec_rep(n as int),
    decreases n,
{
    if n < 10 {
        let mut v: Vec<char> = Vec::new();
        v.push(digit_char_exec(n));
        proof {
            assert(v@ =~= seq![digit_char(n as int)]);
        }
        v
    } else {
        let mut v = dec_digits(n / 10);
        v.push(digit_char_exec(n % 10));
        v
    }
}

/// The count of `unit`-sized periods in `s` seconds, followed by the unit's
/// name, pluralized exactly when the count exceeds one.
fn unit_text(s: u64, unit: u64, singular: &str, plural: &str) -> (r: String)
    requires
        unit >= 1,
        s >= unit,
    ensures
        r@ == dec_rep(s as int / unit as int) + (if s as int / unit as int > 1 {
            plural@
        } else {
            singular@
        }),
{
    let base = s / unit;
    let digits = dec_digits(base);
    let mut r = chars_to_string(&digits);
    if base > 1 {
        r.append(plural);
    } else {
        r.append(singular);
    }
    r
}

/// Format a whole-second crack-time estimate into its human-readable
/// bucket.
pub fn crack_time_display(seconds: u64) -> (r: String)
    ensures
        r@ == crack_time_text(seconds as int),
{
    if seconds < 1 {
        let mut r = String::new();
        r.append("less than a second");
        r
    } else if seconds < 60 {
        unit_text(seconds, 1, " second", " seconds")
    } else if seconds < 3600 {
        unit_text(seconds, 60, " minute", " minutes")
    } else if seconds < 86400 {
        unit_text(seconds, 3600, " hour", " hours")
    } else if seconds < 2678400 {
        unit_text(seconds, 86400, " day", " days")
    } else if seconds < 32140800 {
        unit_text(seconds, 2678400, " month", " months")
    } else if seconds < 3214080000 {
        unit_text(seconds, 32140800, " year", " years")
    } else {
        let mut r = String::new();
        r.append("centuries");
        r
    }
}

/// Relies on `zxcvbn::zxcvbn` and its offline slow-hashing projection at
/// ten thousand guesses per second, taken as whole seconds. The estimate's
/// pattern model consults the current year for date matches, so nothing is
/// promised about the value that comes back.
#[verifier::external_body]
fn offline_slow_seconds(password: &str) -> u64 {
    let entropy = zxcvbn::zxcvbn(password, &[]);
    match entropy.crack_times().offline_slow_hashing_1e4_per_second() {
        zxcvbn::time_estimates::CrackTimeSeconds::Integer(i) => i,
        zxcvbn::time_estimates::CrackTimeSeconds::Float(f) => f as u64,
    }
}

/// The estimated time to crack the password offline at ten thousand
/// guesses per second, as a human-readable bucket: whatever whole-second
/// figure the pattern-aware model returns is formatted by
/// `crack_time_display`.
pub fn crack_times(password: &str) -> (r: String)
    ensures
        exists|s: u64| r@ == crack_time_text(s as int),
{
    let s = offline_slow_seconds(password);
    let r = crack_time_display(s);
    proof {
        assert(r@ == crack_time_text(s as int));
    }
    r
}

} // verus!
