//! The timer sequencer: a circular cursor over (clock, colour) pairs plus a
//! play-once flag.  Once per frame the host polls it; if the active clock has
//! finished, the cursor advances (wrapping past the last item), the newly
//! active clock is reset, and — when the play-once flag is set and the item
//! that finished was the last — the newly active clock is stopped instead of
//! being left to run.  Exactly then a `Finished` signal is reported.

use vstd::prelude::*;

use crate::clock::{Clock, State, spec_timestamp};
use crate::queue::Queue;

verus! {

/// A display colour, three 0-255 components.
#[derive(Clone, Copy, Debug, PartialEq, Eq, Structural)]
pub struct Color {
    pub r: u8,
    pub g: u8,
    pub b: u8,
}

/// The colour shown when no timers are configured.
pub open spec fn placeholder_color() -> Color {
    Color { r: 255, g: 255, b: 0 }
}

/// The one event the sequencer surfaces to the host.
#[derive(Clone, Copy, Debug, PartialEq, Eq, Structural)]
pub enum CountdownSignal {
    Finished,
}

/// The sequencer: an ordered list of (clock, colour) pairs with a circular
/// current position, and the play-once flag.
#[derive(Debug)]
pub struct CountdownElement {
    timers: Queue<(Clock, Color)>,
    play_once: bool,
}

impl CountdownElement {
    /// The configured (clock, colour) pairs, in order.
    pub closed spec fn spec_items(self) -> Seq<(Clock, Color)> {
        self.timers.spec_items()
    }

    /// The position of the active item.
    pub closed spec fn spec_front(self) -> int {
        self.timers.spec_front()
    }

    /// Whether the sequence stops after its last item completes.
    pub closed spec fn spec_play_once(self) -> bool {
        self.play_once
    }

    /// The cursor position is valid, or the sequence is empty.
    pub closed spec fn wf(self) -> bool {
        self.timers.wf()
    }

    /// The state of the active clock at instant `now`; `Stopped` when no
    /// timers are configured.
    pub open spec fn spec_state(self, now: u64) -> State {
        if self.spec_items().len() == 0 {
            State::Stopped
        } else {
            self.spec_items()[self.spec_front()].0.spec_state(now)
        }
    }

    /// Whether the completion transition out of the current item pauses the
    /// sequence: the play-once flag is set and the current item is the last.
    pub open spec fn spec_pause_on_advance(self) -> bool {
        self.spec_play_once() && self.spec_front() == self.spec_items().len() - 1
    }
}

/// `post` differs from `pre` in at most the item at position `j`, where the
/// cursor now stands; that item keeps its colour and its duration, its clock
/// was rebound to the instant `now`, and its running flag is `run`.
pub open spec fn moved_to(
    pre: CountdownElement,
    post: CountdownElement,
    j: int,
    now: u64,
    run: bool,
) -> bool {
    &&& post.spec_play_once() == pre.spec_play_once()
    &&& post.spec_items().len() == pre.spec_items().len()
    &&& post.spec_front() == j
    &&& forall|k: int|
        0 <= k < pre.spec_items().len() && k != j ==> post.spec_items()[k] == pre.spec_items()[k]
    &&& post.spec_items()[j].1 == pre.spec_items()[j].1
    &&& post.spec_items()[j].0.spec_duration() == pre.spec_items()[j].0.spec_duration()
    &&& post.spec_items()[j].0.spec_start() == now
    &&& post.spec_items()[j].0.spec_running() == run
}

/// The completion transition: the cursor advanced one step with wrap-around,
/// the newly active clock was reset to `now`, and it was stopped exactly when
/// the play-once flag is set and the item that finished was the last one;
/// otherwise its running flag is whatever it already was.
pub open spec fn spec_advanced(pre: CountdownElement, post: CountdownElement, now: u64) -> bool {
    let n = pre.spec_items().len() as int;
    let j = (pre.spec_front() + 1) % n;
    moved_to(
        pre,
        post,
        j,
        now,
        if pre.spec_pause_on_advance() {
            false
        } else {
            pre.spec_items()[j].0.spec_running()
        },
    )
}

/// The backward step: the cursor moved one step back with wrap-around and the
/// newly active clock was reset to `now`, its running flag kept.
pub open spec fn spec_retreated(pre: CountdownElement, post: CountdownElement, now: u64) -> bool {
    let n = pre.spec_items().len() as int;
    let j = (pre.spec_front() + n - 1) % n;
    moved_to(pre, post, j, now, pre.spec_items()[j].0.spec_running())
}

impl CountdownElement {
    /// Build a sequencer over `timers`, one fresh clock per (duration,
    /// colour) pair, all counting from `now`, the cursor on the first item.
    pub fn new(timers: &Vec<(u64, Color)>, play_once: bool, now: u64) -> (c: CountdownElement)
        ensures
            c.wf(),
            c.spec_play_once() == play_once,
            c.spec_front() == 0,
            c.spec_items().len() == timers@.len(),
            forall|i: int|
                0 <= i < timers@.len() ==> {
                    let item = #[trigger] c.spec_items()[i];
                    &&& item.0.spec_duration() == timers@[i].0
                    &&& item.0.spec_start() == now
                    &&& item.0.spec_running()
                    &&& item.1 == timers@[i].1
                },
    {
        let mut items: Vec<(Clock, Color)> = Vec::new();
        let mut k: usize = 0;
        while k < timers.len()
            invariant
                k <= timers@.len(),
                items@.len() == k,
                forall|i: int|
                    0 <= i < k as int ==> {
                        let item = #[trigger] items@[i];
                        &&& item.0.spec_duration() == timers@[i].0
                        &&& item.0.spec_start() == now
                        &&& item.0.spec_running()
                        &&& item.1 == timers@[i].1
                    },
            decreases timers@.len() - k,
        {
            let t = timers[k];
            items.push((Clock::new(t.0, now), t.1));
            k = k + 1;
        }
        let mut queue = Queue::new();
        queue.set(items);
        CountdownElement { timers: queue, play_once }
    }

    /// The active clock, or nothing when no timers are configured.
    pub fn get_clock(&self) -> (r: Option<&Clock>)
        requires
            self.wf(),
        ensures
            self.spec_items().len() == 0 ==> r is None,
            self.spec_items().len() > 0 ==> (match r {
                Some(c) => *c == self.spec_items()[self.spec_front()].0,
                None => false,
            }),
    {
        match self.timers.get() {
            None => None,
            Some(item) => Some(&item.0),
        }
    }

    /// The active item's colour, or the placeholder colour when no timers
    /// are configured.
    pub fn get_color(&self) -> (c: Color)
        requires
            self.wf(),
        ensures
            self.spec_items().len() == 0 ==> c == placeholder_color(),
            self.spec_items().len() > 0 ==> c == self.spec_items()[self.spec_front()].1,
    {
        match self.timers.get() {
            None => Color { r: 255, g: 255, b: 0 },
            Some(item) => item.1,
        }
    }

    /// The active clock's state at instant `now`; `Stopped` when no timers
    /// are configured.
    pub fn get_state(&self, now: u64) -> (s: State)
        requires
            self.wf(),
        ensures
            s == self.spec_state(now),
    {
        match self.timers.get() {
            None => State::Stopped,
            Some(item) => item.0.get_state(now),
        }
    }

    /// Whether the active clock is counting and not yet complete.
    pub fn is_running(&self, now: u64) -> (r: bool)
        requires
            self.wf(),
        ensures
            r == (self.spec_state(now) == State::Running),
    {
        let s = self.get_state(now);
        s == State::Running
    }

    /// Whether the active clock has reached its duration.
    pub fn is_finished(&self, now: u64) -> (r: bool)
        requires
            self.wf(),
        ensures
            r == (self.spec_state(now) == State::Finished),
    {
        let s = self.get_state(now);
        s == State::Finished
    }

    /// Whether no timers are configured (placeholder mode).
    pub fn is_empty(&self) -> (r: bool)
        requires
            self.wf(),
        ensures
            r == (self.spec_items().len() == 0),
    {
        match self.timers.get() {
            None => true,
            Some(_) => false,
        }
    }

    /// The completion advance: move the cursor one step forward with
    /// wrap-around, reset the newly active clock to `now`, and stop it when
    /// the play-once flag is set and the item just left was the last.  No
    /// effect when no timers are configured.
    pub fn next(&mut self, now: u64)
        requires
            old(self).wf(),
        ensures
            final(self).wf(),
            old(self).spec_items().len() == 0 ==> *final(self) == *old(self),
            old(self).spec_items().len() > 0 ==> spec_advanced(*old(self), *final(self), now),
    {
        let pause = self.play_once && self.timers.is_last();
        self.timers.next();
        match self.timers.get_mut() {
            None => {},
            Some(item) => {
                let mut c = item.0;
                c.reset(now);
                if pause {
                    c.stop();
                }
                item.0 = c;
            },
        }
    }

    /// The backward step: move the cursor one step back with wrap-around and
    /// reset the newly active clock to `now`, keeping its running flag.  No
    /// effect when no timers are configured.
    pub fn prev(&mut self, now: u64)
        requires
            old(self).wf(),
        ensures
            final(self).wf(),
            old(self).spec_items().len() == 0 ==> *final(self) == *old(self),
            old(self).spec_items().len() > 0 ==> spec_retreated(*old(self), *final(self), now),
    {
        self.timers.prev();
        match self.timers.get_mut() {
            None => {},
            Some(item) => {
                let mut c = item.0;
                c.reset(now);
                item.0 = c;
            },
        }
    }

    /// Manual navigation forward: advance the cursor, reset the newly active
    /// clock to `now` and leave it stopped — the user must start it.  No
    /// effect when no timers are configured.
    pub fn advance_next(&mut self, now: u64)
        requires
            old(self).wf(),
        ensures
            final(self).wf(),
            old(self).spec_items().len() == 0 ==> *final(self) == *old(self),
            old(self).spec_items().len() > 0 ==> moved_to(
                *old(self),
                *final(self),
                (old(self).spec_front() + 1) % (old(self).spec_items().len() as int),
                now,
                false,
            ),
    {
        self.timers.next();
        match self.timers.get_mut() {
            None => {},
            Some(item) => {
                let mut c = item.0;
                c.reset(now);
                c.stop();
                item.0 = c;
            },
        }
    }

    /// Manual navigation backward: mirror of [`CountdownElement::advance_next`].
    pub fn advance_prev(&mut self, now: u64)
        requires
            old(self).wf(),
        ensures
            final(self).wf(),
            old(self).spec_items().len() == 0 ==> *final(self) == *old(self),
            old(self).spec_items().len() > 0 ==> moved_to(
                *old(self),
                *final(self),
                (old(self).spec_front() + old(self).spec_items().len() - 1) % (
                old(self).spec_items().len() as int),
                now,
                false,
            ),
    {
        self.timers.prev();
        match self.timers.get_mut() {
            None => {},
            Some(item) => {
                let mut c = item.0;
                c.reset(now);
                c.stop();
                item.0 = c;
            },
        }
    }

    /// Toggle the active clock: stop it while it runs; start it counting from
    /// `now` while it is stopped or finished.  No effect when no timers are
    /// configured.
    pub fn toggle_running(&mut self, now: u64)
        requires
            old(self).wf(),
        ensures
            final(self).wf(),
            old(self).spec_items().len() == 0 ==> *final(self) == *old(self),
            old(self).spec_items().len() > 0 ==> ({
                let i = old(self).spec_front();
                let pre = old(self).spec_items()[i].0;
                &&& final(self).spec_play_once() == old(self).spec_play_once()
                &&& final(self).spec_front() == i
                &&& final(self).spec_items().len() == old(self).spec_items().len()
                &&& (forall|k: int|
                    0 <= k < old(self).spec_items().len() && k != i ==> final(self).spec_items()[k]
                        == old(self).spec_items()[k])
                &&& final(self).spec_items()[i].1 == old(self).spec_items()[i].1
                &&& final(self).spec_items()[i].0.spec_duration() == pre.spec_duration()
                &&& (pre.spec_state(now) == State::Running ==> !final(self).spec_items()[i].0.spec_running()
                    && final(self).spec_items()[i].0.spec_start() == pre.spec_start())
                &&& (pre.spec_state(now) != State::Running ==> final(self).spec_items()[i].0.spec_running()
                    && final(self).spec_items()[i].0.spec_start() == now)
            }),
    {
        let running = self.is_running(now);
        match self.timers.get_mut() {
            None => {},
            Some(item) => {
                let mut c = item.0;
                if running {
                    c.stop();
                } else {
                    c.start(now);
                }
                item.0 = c;
            },
        }
    }

    /// The once-per-frame check, done before any rendering of the frame.
    /// When the active clock has finished, the completion advance runs and
    /// the one `Finished` signal of this completion event is returned;
    /// otherwise nothing changes and no signal is produced.
    pub fn poll(&mut self, now: u64) -> (sig: Option<CountdownSignal>)
        requires
            old(self).wf(),
        ensures
            final(self).wf(),
            sig is Some <==> old(self).spec_state(now) == State::Finished,
            sig is None ==> *final(self) == *old(self),
            sig is Some ==> sig == Some(CountdownSignal::Finished) && spec_advanced(
                *old(self),
                *final(self),
                now,
            ),
    {
        if self.is_finished(now) {
            self.next(now);
            Some(CountdownSignal::Finished)
        } else {
            None
        }
    }

    /// The active clock's completion ratio at instant `now`, as a
    /// numerator/denominator pair in `[0, 1]`; zero over no timers.
    pub fn fraction(&self, now: u64) -> (f: (u64, u64))
        requires
            self.wf(),
        ensures
            self.spec_items().len() == 0 ==> f == (0u64, 1u64),
            self.spec_items().len() > 0 ==> f.0 == self.spec_items()[self.spec_front()].0.spec_fraction(now).0
                && f.1 == self.spec_items()[self.spec_front()].0.spec_fraction(now).1,
            f.0 <= f.1,
            f.1 > 0,
    {
        match self.timers.get() {
            None => (0, 1),
            Some(item) => item.0.fraction(now),
        }
    }

    /// The active clock's remaining time at instant `now`, rendered as
    /// `H:MM:SS.CC`; nothing when no timers are configured.
    pub fn remaining_text(&self, now: u64) -> (r: Option<String>)
        requires
            self.wf(),
        ensures
            self.spec_items().len() == 0 ==> r is None,
            self.spec_items().len() > 0 ==> (match r {
                Some(s) => s@ == spec_timestamp(
                    self.spec_items()[self.spec_front()].0.spec_remaining(now),
                ),
                None => false,
            }),
    {
        match self.timers.get() {
            None => None,
            Some(item) => Some(item.0.to_string(now)),
        }
    }
}

/// Play-once termination: when the item that finished was the last one, the
/// completion transition leaves the cursor on the first item; with the
/// play-once flag set that item is stopped, and with the flag clear its clock
/// is reset to `now` with its running flag kept — so a first clock whose flag
/// was still set keeps running.
pub proof fn lemma_play_once_termination(
    pre: CountdownElement,
    post: CountdownElement,
    now: u64,
)
    requires
        pre.wf(),
        pre.spec_items().len() > 0,
        pre.spec_front() == pre.spec_items().len() - 1,
        spec_advanced(pre, post, now),
    ensures
        post.spec_front() == 0,
        pre.spec_play_once() ==> !post.spec_items()[0].0.spec_running(),
        !pre.spec_play_once() ==> post.spec_items()[0].0.spec_running()
            == pre.spec_items()[0].0.spec_running() && post.spec_items()[0].0.spec_start() == now,
{
    let n = pre.spec_items().len() as int;
    vstd::arithmetic::div_mod::lemma_mod_self_0(n);
}

/// While the play-once flag is clear, a completion transition stops no clock:
/// if every configured clock was running before it, every one still runs
/// after it, so the sequence loops without end.
pub proof fn lemma_loop_keeps_running(pre: CountdownElement, post: CountdownElement, now: u64)
    requires
        pre.wf(),
        pre.spec_items().len() > 0,
        !pre.spec_play_once(),
        spec_advanced(pre, post, now),
        forall|k: int| 0 <= k < pre.spec_items().len() ==> pre.spec_items()[k].0.spec_running(),
    ensures
        forall|k: int| 0 <= k < post.spec_items().len() ==> post.spec_items()[k].0.spec_running(),
{
    let n = pre.spec_items().len() as int;
    let j = (pre.spec_front() + 1) % n;
    vstd::arithmetic::div_mod::lemma_mod_pos_bound(pre.spec_front() + 1, n);
    assert(0 <= j < n);
    assert forall|k: int| 0 <= k < post.spec_items().len() implies post.spec_items()[k].0.spec_running() by {
        if k != j {
            assert(post.spec_items()[k] == pre.spec_items()[k]);
        }
    }
}

} // verus!
