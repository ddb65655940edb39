//! Linear vesting schedules with a cliff.

use vstd::arithmetic::div_mod::{lemma_div_is_ordered, lemma_fundamental_div_mod, lemma_fundamental_div_mod_converse};
use vstd::arithmetic::mul::lemma_mul_inequality;
use vstd::prelude::*;

verus! {

/// The abstract value of a schedule: denomination, total locked amount,
/// start height, cliff height and end height.
pub type ScheduleView = (Seq<char>, u128, u64, u64, u64);

/// A single vesting/lockup schedule for one address and denomination.
///
/// Locked tokens remain in the account balance; the schedule is consulted at
/// every balance-sufficiency check to compute the spendable portion
/// (`total - locked(height)`).
#[derive(Debug, Clone)]
pub struct VestingSchedule {
    pub denom: String,
    pub total_locked: u128,
    pub start_height: u64,
    pub cliff_height: u64,
    pub end_height: u64,
}

impl View for VestingSchedule {
    type V = ScheduleView;

    open spec fn view(&self) -> ScheduleView {
        (self.denom@, self.total_locked, self.start_height, self.cliff_height, self.end_height)
    }
}

/// Whether the release at height `h` is computable: the linear phase
/// (`cliff <= h < end`) needs `start <= end`, otherwise the span underflows.
pub open spec fn release_defined(s: ScheduleView, h: u64) -> bool {
    h < s.3 || h >= s.4 || s.2 <= s.4
}

/// Amount released at height `h`: nothing before the cliff, everything from
/// the end height on (or when the span is empty), and in between
/// `floor(total * (h - start) / (end - start))`, with heights below the start
/// counting as no elapsed time.
pub open spec fn released_at(s: ScheduleView, h: u64) -> nat {
    let total = s.1;
    let start = s.2;
    let cliff = s.3;
    let end = s.4;
    if h < cliff {
        0
    } else if h >= end {
        total as nat
    } else if end == start {
        total as nat
    } else {
        let elapsed: int = if h > start { h - start } else { 0 };
        ((total * elapsed) / ((end - start) as int)) as nat
    }
}

/// Amount still locked at height `h`.
pub open spec fn locked_at(s: ScheduleView, h: u64) -> nat {
    (s.1 - released_at(s, h)) as nat
}

/// Nothing more than the total is ever released.
pub proof fn lemma_released_bounded(s: ScheduleView, h: u64)
    requires
        release_defined(s, h),
    ensures
        released_at(s, h) <= s.1,
{
    let total = s.1;
    let start = s.2;
    let end = s.4;
    if h >= s.3 && h < end && end != start {
        let elapsed: int = if h > start { h - start } else { 0 };
        let span: int = end - start;
        assert(elapsed <= span);
        lemma_mul_inequality(elapsed, span, total as int);
        assert(total * elapsed <= total * span) by (nonlinear_arith)
            requires
                elapsed * total <= span * total,
        ;
        assert(0 <= total * elapsed) by (nonlinear_arith)
            requires
                elapsed >= 0,
        ;
        lemma_div_is_ordered(total * elapsed, total * span, span);
        assert((total * span) / span == total) by (nonlinear_arith)
            requires
                span > 0,
        ;
    }
}

/// `floor(total * e / span)` splits over `total = q * span + r`: it is
/// `q * e + floor(r * e / span)`, which never needs the full product.
proof fn lemma_floor_split(total: int, span: int, e: int)
    requires
        span > 0,
        total >= 0,
        e >= 0,
    ensures
        (total * e) / span == (total / span) * e + ((total % span) * e) / span,
{
    let q = total / span;
    let r = total % span;
    lemma_fundamental_div_mod(total, span);
    let y = r * e;
    lemma_fundamental_div_mod(y, span);
    let qy = y / span;
    let ry = y % span;
    assert(total * e == (q * e + qy) * span + ry) by (nonlinear_arith)
        requires
            total == span * q + r,
            y == r * e,
            y == span * qy + ry,
    ;
    lemma_fundamental_div_mod_converse(total * e, span, q * e + qy, ry);
}

/// Before the cliff nothing is released; from the end height on everything is.
/// A schedule whose start equals its end releases everything once the cliff
/// is passed.
pub proof fn lemma_schedule_boundaries(s: ScheduleView, h: u64)
    ensures
        h < s.3 ==> released_at(s, h) == 0 && locked_at(s, h) == s.1,
        h >= s.3 && h >= s.4 ==> released_at(s, h) == s.1 && locked_at(s, h) == 0,
        h >= s.3 && s.2 == s.4 ==> released_at(s, h) == s.1 && locked_at(s, h) == 0,
{
}

/// Between the cliff and the end of a schedule with `start < end`, the
/// released amount is the largest `r` with
/// `r * (end - start) <= total * elapsed`, where `elapsed` is the height's
/// distance past the start (0 at or below the start): the floor of the
/// linear share of the total.
pub proof fn lemma_linear_phase(s: ScheduleView, h: u64)
    requires
        s.3 <= h < s.4,
        s.2 < s.4,
    ensures
        ({
            let elapsed: int = if h > s.2 { h - s.2 } else { 0 };
            let span: int = s.4 - s.2;
            &&& released_at(s, h) * span <= s.1 * elapsed
            &&& s.1 * elapsed < (released_at(s, h) + 1) * span
        }),
{
    let elapsed: int = if h > s.2 { h - s.2 } else { 0 };
    let span: int = s.4 - s.2;
    let total: int = s.1 as int;
    let x = total * elapsed;
    assert(x >= 0) by (nonlinear_arith)
        requires
            elapsed >= 0,
            total >= 0,
            x == total * elapsed,
    ;
    lemma_fundamental_div_mod(x, span);
    let q = x / span;
    assert(released_at(s, h) == q);
    assert(q * span <= x && x < (q + 1) * span) by (nonlinear_arith)
        requires
            x == span * q + x % span,
            0 <= x % span < span,
    ;
}

/// The released amount never decreases as the height grows.
pub proof fn lemma_released_monotonic(s: ScheduleView, h1: u64, h2: u64)
    requires
        h1 <= h2,
        release_defined(s, h1),
        release_defined(s, h2),
    ensures
        released_at(s, h1) <= released_at(s, h2),
{
    lemma_released_bounded(s, h1);
    lemma_released_bounded(s, h2);
    let total = s.1;
    let start = s.2;
    let cliff = s.3;
    let end = s.4;
    if h1 >= cliff && h1 < end && h2 < end && end != start {
        let e1: int = if h1 > start { h1 - start } else { 0 };
        let e2: int = if h2 > start { h2 - start } else { 0 };
        let span: int = end - start;
        assert(e1 <= e2);
        lemma_mul_inequality(e1, e2, total as int);
        assert(total * e1 <= total * e2) by (nonlinear_arith)
            requires
                e1 * total <= e2 * total,
        ;
        lemma_div_is_ordered(total * e1, total * e2, span);
    }
}

/// Locked amounts never increase as the height grows: a balance that passes a
/// sufficiency check at one height still passes it at every later height.
pub proof fn lemma_locked_never_increases(s: ScheduleView, h1: u64, h2: u64)
    requires
        h1 <= h2,
        release_defined(s, h1),
        release_defined(s, h2),
    ensures
        locked_at(s, h2) <= locked_at(s, h1),
{
    lemma_released_bounded(s, h1);
    lemma_released_bounded(s, h2);
    lemma_released_monotonic(s, h1, h2);
}

impl VestingSchedule {
    /// Amount released (unlocked) at height `h`.
    pub fn released(&self, h: u64) -> (r: u128)
        requires
            release_defined(self@, h),
        ensures
            r == released_at(self@, h),
            r <= self.total_locked,
            h < self.cliff_height ==> r == 0,
            h >= self.cliff_height && h >= self.end_height ==> r == self.total_locked,
            h >= self.cliff_height && self.start_height == self.end_height ==> r
                == self.total_locked,
            self.cliff_height <= h < self.end_height && self.start_height < self.end_height ==> {
                let elapsed: int = if h > self.start_height { h - self.start_height } else { 0 };
                let span: int = self.end_height - self.start_height;
                &&& r * span <= self.total_locked * elapsed
                &&& self.total_locked * elapsed < (r + 1) * span
            },
    {
        proof {
            lemma_released_bounded(self@, h);
            lemma_schedule_boundaries(self@, h);
            if self.cliff_height <= h < self.end_height && self.start_height < self.end_height {
                lemma_linear_phase(self@, h);
            }
        }
        if h < self.cliff_height {
            return 0;
        }
        if h >= self.end_height {
            return self.total_locked;
        }
        let span: u128 = (self.end_height - self.start_height) as u128;
        if span == 0 {
            return self.total_locked;
        }
        let elapsed: u128 = h.saturating_sub(self.start_height) as u128;
        // floor(total * elapsed / span), without forming the full product:
        // total = q * span + r, so it is q * elapsed + floor(r * elapsed / span).
        let q = self.total_locked / span;
        let r = self.total_locked % span;
        proof {
            let t = self.total_locked as int;
            let sp = span as int;
            let e = elapsed as int;
            assert(e < sp);
            lemma_floor_split(t, sp, e);
            lemma_fundamental_div_mod(t, sp);
            assert(r * elapsed < 0x1_0000_0000_0000_0000_0000_0000_0000_0000) by (nonlinear_arith)
                requires
                    r < span,
                    elapsed < span,
                    span <= 0xffff_ffff_ffff_ffff,
            ;
            assert(q * elapsed <= q * span) by (nonlinear_arith)
                requires
                    elapsed < span,
                    q >= 0,
            ;
            assert(q * span <= t) by (nonlinear_arith)
                requires
                    t == span * q + r,
                    r >= 0,
            ;
            assert(((r * elapsed) as int) / sp >= 0) by (nonlinear_arith)
                requires
                    sp > 0,
            ;
        }
        q * elapsed + (r * elapsed) / span
    }

    /// Amount still locked at height `h`.
    pub fn locked(&self, h: u64) -> (r: u128)
        requires
            release_defined(self@, h),
        ensures
            r == locked_at(self@, h),
            r + released_at(self@, h) == self.total_locked,
            h < self.cliff_height ==> r == self.total_locked,
            h >= self.cliff_height && (h >= self.end_height || self.start_height
                == self.end_height) ==> r == 0,
    {
        let released = self.released(h);
        self.total_locked.saturating_sub(released)
    }
}

} // verus!
