//! A repeating timer backed by `bevy::time::Timer`.
use bevy::time::{Timer, TimerMode};
use core::time::Duration;
use vstd::prelude::*;

verus! {

#[verifier::external_type_specification]
#[verifier::external_body]
pub struct ExTimer(bevy::time::Timer);

/// The time accumulated by a bevy timer since it last completed or was reset, in nanoseconds.
pub uninterp spec fn timer_elapsed_ns(t: Timer) -> nat;

/// The configured duration of a bevy timer, in nanoseconds.
pub uninterp spec fn timer_duration_ns(t: Timer) -> nat;

/// How many times a bevy timer completed during its last tick.
pub uninterp spec fn timer_times_finished(t: Timer) -> nat;

/// Whether a bevy timer is in repeating mode and not paused.
pub uninterp spec fn timer_runs_repeating(t: Timer) -> bool;

/// Relies on `Timer::new` with `TimerMode::Repeating`: the stopwatch starts
/// at zero, unpaused, and no completion is recorded.
#[verifier::external_body]
fn bevy_timer_new(duration_ns: u64) -> (t: Timer)
    ensures
        timer_duration_ns(t) == duration_ns as nat,
        timer_elapsed_ns(t) == 0,
        timer_times_finished(t) == 0,
        timer_runs_repeating(t),
{
    Timer::new(Duration::from_nanos(duration_ns), TimerMode::Repeating)
}

/// Relies on `Timer::tick` for an unpaused repeating timer: the elapsed time
/// grows by `delta`; once it reaches the duration, the number of whole
/// durations is recorded as the completions of this tick and the remainder is
/// kept as the elapsed time.
#[verifier::external_body]
fn bevy_timer_tick(t: &mut Timer, delta_ns: u64)
    requires
        timer_runs_repeating(*old(t)),
        0 < timer_duration_ns(*old(t)) <= u64::MAX,
        timer_elapsed_ns(*old(t)) < timer_duration_ns(*old(t)),
    ensures
        timer_runs_repeating(*final(t)),
        timer_duration_ns(*final(t)) == timer_duration_ns(*old(t)),
        timer_elapsed_ns(*final(t)) == (timer_elapsed_ns(*old(t)) + delta_ns as nat) % timer_duration_ns(
            *old(t),
        ),
        (timer_elapsed_ns(*old(t)) + delta_ns as nat) / timer_duration_ns(*old(t)) <= u32::MAX
            ==> timer_times_finished(*final(t)) == (timer_elapsed_ns(*old(t)) + delta_ns as nat)
            / timer_duration_ns(*old(t)),
{
    t.tick(Duration::from_nanos(delta_ns));
}

/// Relies on `Timer::just_finished`: true when the last tick recorded a completion.
#[verifier::external_body]
fn bevy_timer_just_finished(t: &Timer) -> (r: bool)
    ensures
        r == (timer_times_finished(*t) > 0),
{
    t.just_finished()
}

/// Relies on `Timer::times_finished_this_tick`: the completions of the last tick.
#[verifier::external_body]
fn bevy_timer_times_finished(t: &Timer) -> (r: u32)
    ensures
        r as nat == timer_times_finished(*t),
{
    t.times_finished_this_tick()
}

/// Relies on `Timer::reset`: the stopwatch goes back to zero and no completion
/// is recorded; duration, mode and pause state stay.
#[verifier::external_body]
fn bevy_timer_reset(t: &mut Timer)
    ensures
        timer_runs_repeating(*final(t)) == timer_runs_repeating(*old(t)),
        timer_duration_ns(*final(t)) == timer_duration_ns(*old(t)),
        timer_elapsed_ns(*final(t)) == 0,
        timer_times_finished(*final(t)) == 0,
{
    t.reset();
}

/// Relies on `Timer::elapsed`: the stopwatch's elapsed time, in whole nanoseconds.
#[verifier::external_body]
fn bevy_timer_elapsed_ns(t: &Timer) -> (r: u64)
    requires
        timer_elapsed_ns(*t) <= u64::MAX,
    ensures
        r as nat == timer_elapsed_ns(*t),
{
    t.elapsed().as_nanos() as u64
}

/// Relies on `Timer::duration`: the configured duration, in whole nanoseconds.
#[verifier::external_body]
fn bevy_timer_duration_ns(t: &Timer) -> (r: u64)
    requires
        timer_duration_ns(*t) <= u64::MAX,
    ensures
        r as nat == timer_duration_ns(*t),
{
    t.duration().as_nanos() as u64
}

/// The state reached by one tick of a repeating timer with duration `d`:
/// the new elapsed time and the number of completions during the tick.
pub open spec fn tick_step(elapsed: nat, d: nat, delta: nat) -> (nat, nat)
    recommends
        d > 0,
{
    ((elapsed + delta) % d, (elapsed + delta) / d)
}

/// The sum of a sequence of elapsed times.
pub open spec fn total_time(deltas: Seq<nat>) -> nat
    decreases deltas.len(),
{
    if deltas.len() == 0 {
        0
    } else {
        total_time(deltas.drop_last()) + deltas.last()
    }
}

/// Elapsed time and the completions summed over all ticks, after a repeating
/// timer with duration `d` that starts at zero is ticked by each of `deltas`
/// in turn.
pub open spec fn run_ticks(d: nat, deltas: Seq<nat>) -> (nat, nat)
    decreases deltas.len(),
{
    if deltas.len() == 0 {
        (0, 0)
    } else {
        let prev = run_ticks(d, deltas.drop_last());
        let step = tick_step(prev.0, d, deltas.last());
        (step.0, prev.1 + step.1)
    }
}

/// A repeating timer completes exactly once per full duration of cumulative
/// elapsed time, whatever the sizes of the ticks: summed over all ticks the
/// completions are the number of whole durations in the total time, so no
/// completion is reported twice, and the excess is what remains elapsed.
pub proof fn lemma_repeating_timer_completes_once_per_duration(d: nat, deltas: Seq<nat>)
    requires
        d > 0,
    ensures
        run_ticks(d, deltas).1 == total_time(deltas) / d,
        run_ticks(d, deltas).0 == total_time(deltas) % d,
    decreases deltas.len(),
{
    if deltas.len() > 0 {
        let rest = deltas.drop_last();
        lemma_repeating_timer_completes_once_per_duration(d, rest);
        let s: int = total_time(rest) as int;
        let x: int = deltas.last() as int;
        let di: int = d as int;
        let q: int = s / di;
        let r: int = s % di;
        let q2: int = (r + x) / di;
        let r2: int = (r + x) % di;
        vstd::arithmetic::div_mod::lemma_fundamental_div_mod(s, di);
        vstd::arithmetic::div_mod::lemma_fundamental_div_mod(r + x, di);
        vstd::arithmetic::div_mod::lemma_mod_bound(r + x, di);
        vstd::arithmetic::div_mod::lemma_mod_bound(s, di);
        assert(s + x == (q + q2) * di + r2) by (nonlinear_arith)
            requires
                s == di * q + r,
                r + x == di * q2 + r2,
        ;
        vstd::arithmetic::div_mod::lemma_fundamental_div_mod_converse(s + x, di, q + q2, r2);
    } else {
        vstd::arithmetic::div_mod::lemma_small_mod(0, d);
    }
}

/// A timer that completes every time its accumulated time reaches its
/// duration, keeping the excess for the next period.
pub struct RepeatingTimer {
    timer: Timer,
}

impl RepeatingTimer {
    /// Well-formed: repeating, unpaused, a positive duration that fits in
    /// `u64`, and an elapsed time below it.
    pub open spec fn wf(&self) -> bool {
        &&& self.runs_repeating()
        &&& 0 < self.duration() <= u64::MAX
        &&& self.elapsed() < self.duration()
    }

    /// Repeating mode and not paused.
    pub closed spec fn runs_repeating(&self) -> bool {
        timer_runs_repeating(self.timer)
    }

    /// Time accumulated since the last completion or reset, in nanoseconds.
    pub closed spec fn elapsed(&self) -> nat {
        timer_elapsed_ns(self.timer)
    }

    /// The period, in nanoseconds.
    pub closed spec fn duration(&self) -> nat {
        timer_duration_ns(self.timer)
    }

    /// Completions during the last tick.
    pub closed spec fn completions(&self) -> nat {
        timer_times_finished(self.timer)
    }

    /// A new timer with the given duration, not yet started.
    pub fn new(duration_ns: u64) -> (r: RepeatingTimer)
        requires
            duration_ns > 0,
        ensures
            r.wf(),
            r.duration() == duration_ns as nat,
            r.elapsed() == 0,
            r.completions() == 0,
    {
        RepeatingTimer { timer: bevy_timer_new(duration_ns) }
    }

    /// Advances the timer by `delta_ns` and returns whether it completed
    /// during this tick.
    pub fn tick(&mut self, delta_ns: u64) -> (r: bool)
        requires
            old(self).wf(),
            (old(self).elapsed() + delta_ns as nat) / old(self).duration() <= u32::MAX,
        ensures
            final(self).wf(),
            final(self).duration() == old(self).duration(),
            (final(self).elapsed(), final(self).completions()) == tick_step(
                old(self).elapsed(),
                old(self).duration(),
                delta_ns as nat,
            ),
            r == (final(self).completions() > 0),
            r == (old(self).elapsed() + delta_ns as nat >= old(self).duration()),
    {
        bevy_timer_tick(&mut self.timer, delta_ns);
        proof {
            let e: int = old(self).elapsed() + delta_ns;
            let d: int = old(self).duration() as int;
            if e >= d {
                vstd::arithmetic::div_mod::lemma_div_is_ordered(d, e, d);
                vstd::arithmetic::div_mod::lemma_div_by_self(d);
            } else {
                vstd::arithmetic::div_mod::lemma_basic_div(e, d);
            }
        }
        self.just_finished()
    }

    /// Whether the last tick completed the timer at least once.
    pub fn just_finished(&self) -> (r: bool)
        ensures
            r == (self.completions() > 0),
    {
        bevy_timer_just_finished(&self.timer)
    }

    /// The number of completions during the last tick.
    pub fn times_finished_this_tick(&self) -> (r: u32)
        ensures
            r as nat == self.completions(),
    {
        bevy_timer_times_finished(&self.timer)
    }

    /// Sets the accumulated time back to zero; the duration stays.
    pub fn reset(&mut self)
        requires
            old(self).wf(),
        ensures
            final(self).wf(),
            final(self).duration() == old(self).duration(),
            final(self).elapsed() == 0,
            final(self).completions() == 0,
    {
        bevy_timer_reset(&mut self.timer);
    }

    pub fn elapsed_ns(&self) -> (r: u64)
        requires
            self.wf(),
        ensures
            r as nat == self.elapsed(),
    {
        bevy_timer_elapsed_ns(&self.timer)
    }

    pub fn duration_ns(&self) -> (r: u64)
        requires
            self.wf(),
        ensures
            r as nat == self.duration(),
    {
        bevy_timer_duration_ns(&self.timer)
    }
}

} // verus!
