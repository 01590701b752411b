//! Durations and their rendering as `0d 4h 21m 53s`.

use vstd::prelude::*;
use vstd::arithmetic::div_mod::lemma_fundamental_div_mod_converse;
use crate::text::{dec_int, i64_to_string, push_char};

verus! {

/// Division rounding towards zero, as Rust's `/` on integers.
pub open spec fn tdiv(a: int, b: int) -> int
    recommends
        b > 0,
{
    if a >= 0 { a / b } else { -((-a) / b) }
}

/// The remainder that goes with `tdiv`, as Rust's `%` on integers: it has
/// the sign of `a`.
pub open spec fn trem(a: int, b: int) -> int
    recommends
        b > 0,
{
    a - b * tdiv(a, b)
}

/// A span of time in whole seconds, as the bot reads `time::Duration`
/// through `num_seconds`.
#[derive(Debug, Clone, Copy, PartialEq, Eq, Structural)]
pub struct Duration {
    secs: i64,
}

proof fn lemma_div_bound(a: int, b: int)
    requires
        a >= 0,
        b >= 1,
    ensures
        0 <= a / b <= a,
        0 <= a - b * (a / b) < b,
{
    assert(0 <= a / b <= a) by (nonlinear_arith)
        requires
            a >= 0,
            b >= 1,
    ;
    assert(0 <= a - b * (a / b) < b) by (nonlinear_arith)
        requires
            a >= 0,
            b >= 1,
    ;
}

fn tdiv_i64(a: i64, b: i64) -> (q: i64)
    requires
        b > 0,
    ensures
        q == tdiv(a as int, b as int),
{
    let a128 = a as i128;
    let b128 = b as i128;
    if a128 >= 0 {
        proof { lemma_div_bound(a as int, b as int); }
        (a128 / b128) as i64
    } else {
        proof { lemma_div_bound(-(a as int), b as int); }
        (-((-a128) / b128)) as i64
    }
}

fn trem_i64(a: i64, b: i64) -> (r: i64)
    requires
        b > 0,
    ensures
        r == trem(a as int, b as int),
{
    let bu = b as u64;
    if a >= 0 {
        let m = (a as u64) % bu;
        assert(m == (a as int) - (b as int) * ((a as int) / (b as int))) by (nonlinear_arith)
            requires
                m == (a as int) % (b as int),
                a >= 0,
                b > 0,
        ;
        assert(tdiv(a as int, b as int) == (a as int) / (b as int));
        m as i64
    } else {
        let mag: u64 = ((-(a + 1)) as u64) + 1;
        assert(mag == -(a as int));
        let m = mag % bu;
        assert(m == (mag as int) - (b as int) * ((mag as int) / (b as int))) by (nonlinear_arith)
            requires
                m == (mag as int) % (b as int),
                b > 0,
        ;
        proof { lemma_div_bound(mag as int, b as int); }
        let ghost q = (mag as int) / (b as int);
        assert(tdiv(a as int, b as int) == -q);
        assert(-(m as int) == (a as int) - (b as int) * (-q)) by (nonlinear_arith)
            requires
                m == (mag as int) - (b as int) * q,
                mag == -(a as int),
        ;
        -(m as i64)
    }
}

impl Duration {
    /// A span of `secs` seconds.
    pub fn seconds(secs: i64) -> (d: Self)
        ensures
            d.spec_seconds() == secs,
    {
        Duration { secs }
    }

    pub closed spec fn spec_seconds(&self) -> i64 {
        self.secs
    }

    /// The whole seconds of the span.
    pub fn num_seconds(&self) -> (s: i64)
        ensures
            s == self.spec_seconds(),
    {
        self.secs
    }

    /// The whole minutes of the span, rounded towards zero.
    pub fn num_minutes(&self) -> (m: i64)
        ensures
            m == tdiv(self.spec_seconds() as int, 60),
    {
        tdiv_i64(self.secs, 60)
    }

    /// The whole hours of the span, rounded towards zero.
    pub fn num_hours(&self) -> (h: i64)
        ensures
            h == tdiv(self.spec_seconds() as int, 3600),
    {
        tdiv_i64(self.secs, 3600)
    }

    /// The whole days of the span, rounded towards zero.
    pub fn num_days(&self) -> (d: i64)
        ensures
            d == tdiv(self.spec_seconds() as int, 86400),
    {
        tdiv_i64(self.secs, 86400)
    }
}

/// The text `<days>d <hours>h <minutes>m <seconds>s` for a span of `secs`
/// seconds, each part below the next unit, with the sign of the span.
pub open spec fn difference_text(secs: int) -> Seq<char> {
    dec_int(tdiv(secs, 86400)) + "d "@
        + dec_int(trem(tdiv(secs, 3600), 24)) + "h "@
        + dec_int(trem(tdiv(secs, 60), 60)) + "m "@
        + dec_int(trem(secs, 60)) + "s"@
}

proof fn lemma_parts_nonneg(secs: int, d: int, h: int, m: int, s: int)
    requires
        secs >= 0,
        d * 86400 + h * 3600 + m * 60 + s == secs,
        0 <= h < 24,
        0 <= m < 60,
        0 <= s < 60,
    ensures
        tdiv(secs, 86400) == d,
        trem(tdiv(secs, 3600), 24) == h,
        trem(tdiv(secs, 60), 60) == m,
        trem(secs, 60) == s,
{
    lemma_fundamental_div_mod_converse(secs, 86400, d, h * 3600 + m * 60 + s);
    assert(secs == (d * 24 + h) * 3600 + (m * 60 + s)) by (nonlinear_arith)
        requires
            d * 86400 + h * 3600 + m * 60 + s == secs,
    ;
    lemma_fundamental_div_mod_converse(secs, 3600, d * 24 + h, m * 60 + s);
    assert(d >= 0) by (nonlinear_arith)
        requires
            d * 86400 + h * 3600 + m * 60 + s == secs,
            secs >= 0,
            0 <= h < 24,
            0 <= m < 60,
            0 <= s < 60,
    ;
    lemma_fundamental_div_mod_converse(d * 24 + h, 24, d, h);
    assert(secs == (d * 1440 + h * 60 + m) * 60 + s) by (nonlinear_arith)
        requires
            d * 86400 + h * 3600 + m * 60 + s == secs,
    ;
    lemma_fundamental_div_mod_converse(secs, 60, d * 1440 + h * 60 + m, s);
    lemma_fundamental_div_mod_converse(d * 1440 + h * 60 + m, 60, d * 24 + h, m);
}

proof fn lemma_tdiv_neg(a: int, b: int)
    requires
        b > 0,
    ensures
        tdiv(-a, b) == -tdiv(a, b),
        trem(-a, b) == -trem(a, b),
{
    if a == 0 {
        assert(0int / b == 0) by (nonlinear_arith)
            requires
                b > 0,
        ;
    }
    let q = tdiv(a, b);
    assert(b * (-q) == -(b * q)) by (nonlinear_arith);
}

/// The rendering of a span names its days, hours, minutes and seconds:
/// whenever those parts add up to the span, each has the sign of the span
/// and each part but the days stays below its next unit, the text is
/// `<days>d <hours>h <minutes>m <seconds>s` of exactly those parts.
pub proof fn law_difference_parts(secs: int, d: int, h: int, m: int, s: int)
    requires
        d * 86400 + h * 3600 + m * 60 + s == secs,
        -24 < h < 24,
        -60 < m < 60,
        -60 < s < 60,
        secs >= 0 ==> h >= 0 && m >= 0 && s >= 0,
        secs <= 0 ==> h <= 0 && m <= 0 && s <= 0,
    ensures
        difference_text(secs) == dec_int(d) + "d "@ + dec_int(h) + "h "@ + dec_int(m) + "m "@ + dec_int(s)
            + "s"@,
{
    if secs >= 0 {
        lemma_parts_nonneg(secs, d, h, m, s);
    } else {
        assert((-d) * 86400 + (-h) * 3600 + (-m) * 60 + (-s) == -secs) by (nonlinear_arith)
            requires
                d * 86400 + h * 3600 + m * 60 + s == secs,
        ;
        lemma_parts_nonneg(-secs, -d, -h, -m, -s);
        lemma_tdiv_neg(secs, 86400);
        lemma_tdiv_neg(secs, 3600);
        lemma_tdiv_neg(secs, 60);
        lemma_tdiv_neg(tdiv(secs, 3600), 24);
        lemma_tdiv_neg(tdiv(secs, 60), 60);
    }
}

/// Renders a duration as `0d 4h 21m 53s`.
pub fn fmt_difference(diff: Duration) -> (s: String)
    ensures
        s@ == difference_text(diff.spec_seconds() as int),
{
    let days = diff.num_days();
    let hours = trem_i64(diff.num_hours(), 24);
    let minutes = trem_i64(diff.num_minutes(), 60);
    let seconds = trem_i64(diff.num_seconds(), 60);
    let mut s = i64_to_string(days);
    s.append("d ");
    s.append(i64_to_string(hours).as_str());
    s.append("h ");
    s.append(i64_to_string(minutes).as_str());
    s.append("m ");
    s.append(i64_to_string(seconds).as_str());
    s.append("s");
    s
}

} // verus!
