//! The time-tracking state machine for one timer's duration window.
//!
//! A `Clock` stores the instant of its last reset, a fixed target duration and
//! a running flag.  Every instant is a count of milliseconds on one monotone
//! timeline chosen by the caller; queries take the current instant `now` as an
//! argument and are pure functions of the stored state and `now`.

use vstd::prelude::*;
use vstd::string::*;

use crate::fmt_digits::{append_2pad, append_decimal, dec_digits, padded2};

verus! {

/// The display form of a remaining time of `rem` milliseconds:
/// `H:MM:SS.CC`, with unpadded hours, zero-padded minutes and seconds, and
/// the centiseconds truncated from the leftover milliseconds.
pub open spec fn spec_timestamp(rem: int) -> Seq<char> {
    dec_digits(rem / 3600000) + seq![':'] + padded2((rem / 60000) % 60) + seq![':'] + padded2(
        (rem / 1000) % 60,
    ) + seq!['.'] + padded2((rem % 1000) / 10)
}

/// Execution state of a [`Clock`] at a given instant.
#[derive(Clone, Copy, Debug, PartialEq, Eq, Structural)]
pub enum State {
    Running,
    Stopped,
    Finished,
}

/// Tracks one timer's elapsed and remaining time against a fixed duration.
#[derive(Clone, Copy, Debug)]
pub struct Clock {
    start: u64,
    duration: u64,
    running: bool,
}

impl Clock {
    /// The fixed target duration in milliseconds.
    pub closed spec fn spec_duration(self) -> u64 {
        self.duration
    }

    /// The instant recorded by the last reset.
    pub closed spec fn spec_start(self) -> u64 {
        self.start
    }

    /// Whether the clock is counting.
    pub closed spec fn spec_running(self) -> bool {
        self.running
    }

    /// Milliseconds elapsed since the last reset: zero while stopped, and zero
    /// at any instant not later than the recorded start.
    pub open spec fn spec_elapsed(self, now: u64) -> int {
        if !self.spec_running() {
            0
        } else if now >= self.spec_start() {
            now - self.spec_start()
        } else {
            0
        }
    }

    /// Milliseconds still to run: the full duration while stopped (stopping
    /// snaps back to "not started"), else the duration minus the elapsed time,
    /// floored at zero.
    pub open spec fn spec_remaining(self, now: u64) -> int {
        if !self.spec_running() {
            self.spec_duration() as int
        } else if self.spec_elapsed(now) >= self.spec_duration() {
            0
        } else {
            self.spec_duration() - self.spec_elapsed(now)
        }
    }

    /// `Stopped` while not counting; `Finished` once the elapsed time has
    /// reached the duration; `Running` otherwise.
    pub open spec fn spec_state(self, now: u64) -> State {
        if !self.spec_running() {
            State::Stopped
        } else if self.spec_elapsed(now) >= self.spec_duration() {
            State::Finished
        } else {
            State::Running
        }
    }

    /// Completion ratio as a numerator/denominator pair.  The ratio is the
    /// elapsed time over the duration, clamped to `[0, 1]`; a zero duration
    /// counts as already complete, so the pair is then `(1, 1)`.
    pub open spec fn spec_fraction(self, now: u64) -> (int, int) {
        if self.spec_duration() == 0 {
            (1int, 1int)
        } else if self.spec_elapsed(now) >= self.spec_duration() {
            (self.spec_duration() as int, self.spec_duration() as int)
        } else {
            (self.spec_elapsed(now), self.spec_duration() as int)
        }
    }

    /// A fresh clock over `millis` milliseconds, counting from `now`.
    pub fn new(millis: u64, now: u64) -> (c: Clock)
        ensures
            c.spec_duration() == millis,
            c.spec_start() == now,
            c.spec_running(),
    {
        Clock { start: now, duration: millis, running: true }
    }

    /// Milliseconds elapsed since the last reset, zero while stopped.
    pub fn elapsed(&self, now: u64) -> (e: u64)
        ensures
            e == self.spec_elapsed(now),
    {
        if !self.running {
            0
        } else if now >= self.start {
            now - self.start
        } else {
            0
        }
    }

    /// Milliseconds still to run; see [`Clock::spec_remaining`].
    pub fn remaining(&self, now: u64) -> (r: u64)
        ensures
            r == self.spec_remaining(now),
    {
        if !self.running {
            return self.duration;
        }
        let elapsed = self.elapsed(now);
        if elapsed >= self.duration {
            0
        } else {
            self.duration - elapsed
        }
    }

    /// Completion ratio as a numerator/denominator pair; the numerator never
    /// exceeds the denominator and the denominator is never zero, so the
    /// quotient is always in `[0, 1]`.
    pub fn fraction(&self, now: u64) -> (f: (u64, u64))
        ensures
            f.0 == self.spec_fraction(now).0,
            f.1 == self.spec_fraction(now).1,
            f.0 <= f.1,
            f.1 > 0,
    {
        if self.duration == 0 {
            (1, 1)
        } else {
            let elapsed = self.elapsed(now);
            if elapsed >= self.duration {
                (self.duration, self.duration)
            } else {
                (elapsed, self.duration)
            }
        }
    }

    /// Rebind the recorded start to `now`; the running flag is kept.
    pub fn reset(&mut self, now: u64)
        ensures
            final(self).spec_start() == now,
            final(self).spec_duration() == old(self).spec_duration(),
            final(self).spec_running() == old(self).spec_running(),
    {
        self.start = now;
    }

    /// Set the clock counting from `now`.
    pub fn start(&mut self, now: u64)
        ensures
            final(self).spec_start() == now,
            final(self).spec_duration() == old(self).spec_duration(),
            final(self).spec_running(),
    {
        self.running = true;
        self.reset(now);
    }

    /// Stop counting.  The remaining time snaps back to the full duration;
    /// no partial progress is preserved.
    pub fn stop(&mut self)
        ensures
            final(self).spec_start() == old(self).spec_start(),
            final(self).spec_duration() == old(self).spec_duration(),
            !final(self).spec_running(),
    {
        self.running = false;
    }

    /// The state at instant `now`; see [`Clock::spec_state`].
    pub fn get_state(&self, now: u64) -> (s: State)
        ensures
            s == self.spec_state(now),
    {
        if !self.running {
            State::Stopped
        } else if self.elapsed(now) >= self.duration {
            State::Finished
        } else {
            State::Running
        }
    }

    /// The remaining time at instant `now`, rendered as `H:MM:SS.CC` for the
    /// display collaborator.
    pub fn to_string(&self, now: u64) -> (r: String)
        ensures
            r@ == spec_timestamp(self.spec_remaining(now)),
    {
        let rem = self.remaining(now);
        let mut out = String::new();
        append_decimal(&mut out, rem / 3600000);
        out.append(":");
        append_2pad(&mut out, (rem / 60000) % 60);
        out.append(":");
        append_2pad(&mut out, (rem / 1000) % 60);
        out.append(".");
        append_2pad(&mut out, (rem % 1000) / 10);
        proof {
            reveal_strlit(":");
            reveal_strlit(".");
            assert(out@ =~= spec_timestamp(self.spec_remaining(now)));
        }
        out
    }
}

/// A freshly started clock shows no progress: at the instant of its start,
/// the remaining time is the whole duration, and for a positive duration the
/// completion ratio is zero.  (A zero duration counts as already complete, so
/// its ratio is one instead.)
pub proof fn lemma_fresh_clock_at_zero(c: Clock, now: u64)
    requires
        c.spec_running(),
        c.spec_start() == now,
    ensures
        c.spec_elapsed(now) == 0,
        c.spec_remaining(now) == c.spec_duration(),
        c.spec_duration() > 0 ==> c.spec_fraction(now) == (0int, c.spec_duration() as int),
{
}

/// While a clock runs, its completion ratio never decreases as the instant
/// advances, never exceeds one, and equals exactly one from the moment the
/// elapsed time reaches the duration.
pub proof fn lemma_fraction_monotone(c: Clock, now1: u64, now2: u64)
    requires
        c.spec_running(),
        now1 <= now2,
    ensures
        c.spec_fraction(now1).0 * c.spec_fraction(now2).1 <= c.spec_fraction(now2).0
            * c.spec_fraction(now1).1,
        0 <= c.spec_fraction(now2).0 <= c.spec_fraction(now2).1,
        c.spec_elapsed(now2) >= c.spec_duration() ==> c.spec_fraction(now2).0 == c.spec_fraction(
            now2,
        ).1,
{
    let (n1, d1) = c.spec_fraction(now1);
    let (n2, d2) = c.spec_fraction(now2);
    assert(d1 == d2);
    assert(n1 <= n2);
    assert(n1 * d2 <= n2 * d1) by (nonlinear_arith)
        requires
            n1 <= n2,
            d1 == d2,
            d1 >= 0,
    ;
}

/// A zero-duration clock is complete from the moment it starts: its ratio is
/// one and its state is `Finished` at every instant while it runs.
pub proof fn lemma_zero_duration_complete(c: Clock, now: u64)
    requires
        c.spec_running(),
        c.spec_duration() == 0,
    ensures
        c.spec_fraction(now) == (1int, 1int),
        c.spec_state(now) == State::Finished,
{
}

/// A stopped clock reports the full original duration as remaining, at every
/// instant and regardless of any progress made before the stop.
pub proof fn lemma_stop_snaps_back(c: Clock, now: u64)
    requires
        !c.spec_running(),
    ensures
        c.spec_remaining(now) == c.spec_duration(),
        c.spec_state(now) == State::Stopped,
{
}

} // verus!
