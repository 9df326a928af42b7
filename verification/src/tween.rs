//! A time-driven interpolator between two scalar values using a pluggable
//! easing function; it drives smooth per-tile movement.
//!
//! Values and times are integers: a value is a fixed-point scalar in
//! whatever unit the caller picks (say thousandths), a time is a number of
//! ticks.  An easing function maps `(time_passed, start, distance,
//! total_duration)` to the current value; any function of that shape is
//! accepted.

use vstd::prelude::*;

verus! {

/// The mathematical content of a `Tween`.
pub ghost struct TweenView {
    pub start: i64,
    /// `finish - start`.
    pub distance: i64,
    pub duration: i64,
    /// Total time fed to `update` so far.
    pub elapsed: i64,
    pub current: i64,
    pub finished: bool,
}

impl TweenView {
    /// Once finished, a tween rests at its finish value, and more time than
    /// the total duration has passed.  The finish value always fits.
    pub open spec fn wf(self) -> bool {
        &&& i64::MIN <= self.start + self.distance <= i64::MAX
        &&& self.elapsed >= 0
        &&& self.finished ==> self.current == self.start + self.distance && self.elapsed
            > self.duration
    }
}

/// A tween between `start` and `start + distance` over `duration` ticks.
pub struct Tween {
    distance: i64,
    start_value: i64,
    current: i64,
    total_duration: i64,
    time_passed: i64,
    is_finished: bool,
}

impl View for Tween {
    type V = TweenView;

    closed spec fn view(&self) -> TweenView {
        TweenView {
            start: self.start_value,
            distance: self.distance,
            duration: self.total_duration,
            elapsed: self.time_passed,
            current: self.current,
            finished: self.is_finished,
        }
    }
}

/// The quadratic ease-in curve on fixed-point values:
/// `c * (t/d)^2 + b`, rounded toward zero.
pub open spec fn spec_ease_in_quad(t: int, b: int, c: int, d: int) -> int {
    if c >= 0 {
        b + (c * t * t) / (d * d)
    } else {
        b - ((-c) * t * t) / (d * d)
    }
}

/// Quadratic ease-in: starts slow, accelerates; reaches `b + c` at `t == d`.
pub fn ease_in_quad(t: i64, b: i64, c: i64, d: i64) -> (r: i64)
    requires
        0 < d <= 0x10_0000,
        0 <= t <= 0x10_0000,
        -0x10_0000 <= c <= 0x10_0000,
        -0x100_0000_0000 <= b <= 0x100_0000_0000,
    ensures
        r == spec_ease_in_quad(t as int, b as int, c as int, d as int),
{
    proof {
        let ti = t as int;
        let di = d as int;
        let ci = if c >= 0 {
            c as int
        } else {
            -(c as int)
        };
        assert(0 <= ti * ti <= 0x100_0000_0000) by (nonlinear_arith)
            requires
                0 <= ti <= 0x10_0000,
        ;
        assert(0 < di * di <= 0x100_0000_0000) by (nonlinear_arith)
            requires
                0 < di <= 0x10_0000,
        ;
        assert(0 <= ci * (ti * ti) <= 0x10_0000 * 0x100_0000_0000) by (nonlinear_arith)
            requires
                0 <= ci <= 0x10_0000,
                0 <= ti * ti <= 0x100_0000_0000,
        ;
        vstd::arithmetic::div_mod::lemma_div_pos_is_pos(ci * (ti * ti), di * di);
        vstd::arithmetic::div_mod::lemma_div_is_ordered_by_denominator(ci * (ti * ti), 1, di * di);
        assert(ci * (ti * ti) == ci * ti * ti) by (nonlinear_arith);
        assert((ci * (ti * ti)) / (di * di) <= ci * (ti * ti));
    }
    let num = t * t;
    let den = d * d;
    if c >= 0 {
        b + (c * num) / den
    } else {
        b - ((-c) * num) / den
    }
}

impl Tween {
    /// Creates a tween from `start` to `finish` over `total_duration` ticks.
    /// A zero or negative duration simply finishes on the first update that
    /// advances time past it.
    pub fn new(start: i64, finish: i64, total_duration: i64) -> (r: Tween)
        requires
            i64::MIN <= finish - start <= i64::MAX,
        ensures
            r@ == (TweenView {
                start,
                distance: (finish - start) as i64,
                duration: total_duration,
                elapsed: 0,
                current: start,
                finished: false,
            }),
            r@.wf(),
    {
        Tween {
            distance: finish - start,
            start_value: start,
            current: start,
            total_duration,
            time_passed: 0,
            is_finished: false,
        }
    }

    /// The value the tween is heading for: `start + distance`.
    pub fn finish_value(&self) -> (r: i64)
        requires
            self@.wf(),
        ensures
            r == self@.start + self@.distance,
    {
        self.start_value + self.distance
    }

    /// Advances the tween by `elapsed_time` ticks and recomputes the current
    /// value through the easing function.  Once more time than the total
    /// duration has passed the value is clamped to the finish value and the
    /// tween is marked finished; updates after that never move the value
    /// again.
    pub fn update<F: Fn(i64, i64, i64, i64) -> i64>(&mut self, elapsed_time: i64, tween_f: F)
        requires
            old(self)@.wf(),
            elapsed_time >= 0,
            old(self)@.elapsed + elapsed_time <= i64::MAX,
            call_requires(
                tween_f,
                (
                    (old(self)@.elapsed + elapsed_time) as i64,
                    old(self)@.start,
                    old(self)@.distance,
                    old(self)@.duration,
                ),
            ),
        ensures
            final(self)@.wf(),
            final(self)@.start == old(self)@.start,
            final(self)@.distance == old(self)@.distance,
            final(self)@.duration == old(self)@.duration,
            final(self)@.elapsed == old(self)@.elapsed + elapsed_time,
            final(self)@.finished == (old(self)@.finished || final(self)@.elapsed
                > old(self)@.duration),
            final(self)@.elapsed > old(self)@.duration ==> final(self)@.current == old(self)@.start
                + old(self)@.distance,
            old(self)@.finished ==> final(self)@.current == old(self)@.current
                && final(self)@.current == old(self)@.start + old(self)@.distance
                && final(self)@.finished,
            final(self)@.elapsed <= old(self)@.duration ==> call_ensures(
                tween_f,
                (
                    final(self)@.elapsed as i64,
                    old(self)@.start,
                    old(self)@.distance,
                    old(self)@.duration,
                ),
                final(self)@.current,
            ),
    {
        self.time_passed = self.time_passed + elapsed_time;
        self.current = tween_f(self.time_passed, self.start_value, self.distance,
            self.total_duration);
        if self.time_passed > self.total_duration {
            self.current = self.start_value + self.distance;
            self.is_finished = true;
        }
    }

    /// Whether the tween has run past its total duration.
    pub fn is_finished(&self) -> (r: bool)
        ensures
            r == self@.finished,
    {
        self.is_finished
    }

    /// The current interpolated value.
    pub fn value(&self) -> (r: i64)
        ensures
            r == self@.current,
    {
        self.current
    }
}

/// A finished well-formed tween rests exactly at its finish value; since
/// `update` keeps well-formedness and never clears the finished flag, no
/// later update can move the value.
pub proof fn lemma_tween_completion(v: TweenView)
    requires
        v.wf(),
        v.finished,
    ensures
        v.current == v.start + v.distance,
        v.elapsed > v.duration,
{
}

} // verus!
