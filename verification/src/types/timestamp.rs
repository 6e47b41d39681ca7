//! Points in time.
use vstd::arithmetic::div_mod::lemma_mod_multiples_vanish;
use vstd::prelude::*;

use crate::text::{digit_char, digit_value};

verus! {

/// Microseconds since the Unix epoch.
#[derive(Debug, Copy, Clone, PartialEq, Eq, PartialOrd, Ord, Hash, Structural)]
pub struct Timestamp(pub u64);

/// `n` in two decimal digits, for `n` below a hundred.
pub open spec fn two_digits(n: nat) -> Seq<char> {
    seq![digit_char(n / 10), digit_char(n % 10)]
}

/// The time of day, in hours and minutes.
pub open spec fn clock(secs: nat) -> Seq<char> {
    two_digits((secs % 86400) / 3600) + ":"@ + two_digits((secs % 3600) / 60)
}

/// `a * b`, or the largest number where that is too large.
pub open spec fn capped_product(a: u64, b: u64) -> u64 {
    if a * b > u64::MAX {
        u64::MAX
    } else {
        (a * b) as u64
    }
}

fn saturating_product(a: u64, b: u64) -> (r: u64)
    ensures
        r == capped_product(a, b),
{
    match a.checked_mul(b) {
        Some(p) => p,
        None => u64::MAX,
    }
}

impl Timestamp {
    /// The epoch.
    pub fn zero() -> (r: Timestamp)
        ensures
            r.0 == 0,
    {
        Timestamp(0)
    }

    /// The last point in time that can be held.
    pub fn latest() -> (r: Timestamp)
        ensures
            r.0 == u64::MAX,
    {
        Timestamp(u64::MAX)
    }

    /// The point that many seconds after the epoch, or the last one there is.
    pub fn from_secs(secs: u64) -> (r: Timestamp)
        ensures
            r.0 == capped_product(secs, 1_000_000),
    {
        Timestamp(saturating_product(secs, 1_000_000))
    }

    /// The point that many milliseconds after the epoch, or the last one there is.
    pub fn from_millis(millis: u64) -> (r: Timestamp)
        ensures
            r.0 == capped_product(millis, 1_000),
    {
        Timestamp(saturating_product(millis, 1_000))
    }

    /// Whole seconds since the epoch.
    pub fn as_secs(self) -> (r: u64)
        ensures
            r == self.0 / 1_000_000,
    {
        self.0 / 1_000_000
    }

    /// Whole milliseconds since the epoch.
    pub fn as_millis(self) -> (r: u64)
        ensures
            r == self.0 / 1_000,
    {
        self.0 / 1_000
    }

    /// The time of day, in hours and minutes.
    pub fn time_of_day(self) -> (r: String)
        ensures
            r@ == clock((self.0 / 1_000_000) as nat),
    {
        broadcast use vstd::string::group_string_axioms;

        let secs: u64 = self.as_secs();
        let hours: u64 = (secs % 86400) / 3600;
        let minutes: u64 = (secs % 3600) / 60;
        let mut out = String::new();
        push_two_digits(&mut out, hours);
        out.append(":");
        push_two_digits(&mut out, minutes);
        proof {
            assert(out@ =~= clock((self.0 / 1_000_000) as nat));
        }
        out
    }
}

fn push_two_digits(out: &mut String, n: u64)
    requires
        n < 100,
    ensures
        final(out)@ == old(out)@ + two_digits(n as nat),
{
    let a: u8 = 48 + (n / 10) as u8;
    let b: u8 = 48 + (n % 10) as u8;
    out.push(a as char);
    out.push(b as char);
    proof {
        assert(out@ =~= old(out)@ + two_digits(n as nat));
    }
}

/// Seconds and milliseconds read back as they were given, where the point in
/// time can be held.
pub proof fn law_timestamp_reads_back(n: u64)
    ensures
        n * 1_000_000 <= u64::MAX ==> capped_product(n, 1_000_000) / 1_000_000 == n,
        n * 1_000 <= u64::MAX ==> capped_product(n, 1_000) / 1_000 == n,
{
}

proof fn lemma_two_digits(n: nat)
    requires
        n < 100,
    ensures
        two_digits(n).len() == 2,
        10 * digit_value(two_digits(n)[0]) + digit_value(two_digits(n)[1]) == n,
{
    assert(digit_value(digit_char(n / 10)) == n / 10);
    assert(digit_value(digit_char(n % 10)) == n % 10);
}

proof fn lemma_parts_of_a_day(secs: nat)
    ensures
        ({
            let h = (secs % 86400) / 3600;
            let m = (secs % 3600) / 60;
            &&& h < 24
            &&& m < 60
            &&& secs % 86400 == 3600 * h + 60 * m + secs % 60
        }),
{
    let d = (secs % 86400) as int;
    let q = (secs / 86400) as int;
    let h = d / 3600;
    let r = d % 3600;
    lemma_mod_multiples_vanish(24 * q, d, 3600);
    lemma_mod_multiples_vanish(1440 * q, d, 60);
    lemma_mod_multiples_vanish(60 * h, r, 60);
    assert(secs as int == 3600 * (24 * q) + d);
    assert(secs as int == 60 * (1440 * q) + d);
    assert(d == 60 * (60 * h) + r);
}

/// The clock tells the hour and the minute, in two digits each, and begins anew every day.
pub proof fn law_the_clock_tells_hours_and_minutes(secs: nat)
    ensures
        clock(secs).len() == 5,
        clock(secs)[2] == ':',
        ({
            let h = 10 * digit_value(clock(secs)[0]) + digit_value(clock(secs)[1]);
            let m = 10 * digit_value(clock(secs)[3]) + digit_value(clock(secs)[4]);
            &&& h < 24
            &&& m < 60
            &&& secs % 86400 == 3600 * h + 60 * m + secs % 60
        }),
        clock(secs + 86400) == clock(secs),
{
    reveal_strlit(":");
    lemma_parts_of_a_day(secs);
    lemma_two_digits((secs % 86400) / 3600);
    lemma_two_digits((secs % 3600) / 60);
    lemma_mod_multiples_vanish(1, secs as int, 86400);
    lemma_mod_multiples_vanish(24, secs as int, 3600);
}

} // verus!
