//! A circular cursor over an ordered list: a sequence of items and a current
//! position that advances with wrap-around.  The position is always a valid
//! index unless the sequence is empty, so no call site needs to special-case
//! the wrap.

use vstd::prelude::*;

verus! {

/// An ordered sequence of items with a circular current position.
#[derive(Debug)]
pub struct Queue<T> {
    items: Vec<T>,
    front_index: usize,
}

impl<T> Queue<T> {
    /// The stored items, in order.
    pub closed spec fn spec_items(self) -> Seq<T> {
        self.items@
    }

    /// The current position.
    pub closed spec fn spec_front(self) -> int {
        self.front_index as int
    }

    /// The position is a valid index, or zero over an empty sequence.
    pub open spec fn wf(self) -> bool {
        if self.spec_items().len() == 0 {
            self.spec_front() == 0
        } else {
            0 <= self.spec_front() < self.spec_items().len()
        }
    }

    /// True exactly when the position is on the last item; false over an
    /// empty sequence.
    pub open spec fn spec_is_last(self) -> bool {
        self.spec_items().len() > 0 && self.spec_front() == self.spec_items().len() - 1
    }

    /// An empty queue with the position at the start.
    pub fn new() -> (q: Queue<T>)
        ensures
            q.wf(),
            q.spec_items().len() == 0,
            q.spec_front() == 0,
    {
        Queue { items: Vec::new(), front_index: 0 }
    }

    /// The item at the current position, or nothing over an empty sequence.
    pub fn get(&self) -> (r: Option<&T>)
        requires
            self.wf(),
        ensures
            self.spec_items().len() == 0 ==> r is None,
            self.spec_items().len() > 0 ==> r == Some(&self.spec_items()[self.spec_front()]),
    {
        if self.items.len() == 0 {
            return None;
        }
        Some(&self.items[self.front_index])
    }

    /// Mutable access to the item at the current position, or nothing over an
    /// empty sequence.  Only the current item can change through the returned
    /// reference; the order, the length and the position are kept.
    pub fn get_mut(&mut self) -> (r: Option<&mut T>)
        requires
            old(self).wf(),
        ensures
            final(self).wf(),
            final(self).spec_front() == old(self).spec_front(),
            old(self).spec_items().len() == 0 ==> r is None && *final(self) == *old(self),
            old(self).spec_items().len() > 0 ==> (match r {
                Some(v) => *v == old(self).spec_items()[old(self).spec_front()]
                    && final(self).spec_items() == old(self).spec_items().update(old(self).spec_front(), *final(v)),
                None => false,
            }),
    {
        if self.items.len() == 0 {
            return None;
        }
        Some(&mut self.items[self.front_index])
    }

    /// Advance the position by one, wrapping past the last item; no effect
    /// over an empty sequence.
    pub fn next(&mut self)
        requires
            old(self).wf(),
        ensures
            final(self).wf(),
            final(self).spec_items() == old(self).spec_items(),
            old(self).spec_items().len() == 0 ==> *final(self) == *old(self),
            old(self).spec_items().len() > 0 ==> final(self).spec_front() == (old(self).spec_front()
                + 1) % (old(self).spec_items().len() as int),
    {
        if self.items.len() > 0 {
            self.front_index = (self.front_index + 1) % self.items.len();
        }
    }

    /// Move the position back by one, wrapping before the first item; no
    /// effect over an empty sequence.  Mirrors [`Queue::next`] backward.
    pub fn prev(&mut self)
        requires
            old(self).wf(),
        ensures
            final(self).wf(),
            final(self).spec_items() == old(self).spec_items(),
            old(self).spec_items().len() == 0 ==> *final(self) == *old(self),
            old(self).spec_items().len() > 0 ==> final(self).spec_front() == (old(self).spec_front()
                + old(self).spec_items().len() - 1) % (old(self).spec_items().len() as int),
    {
        if self.items.len() > 0 {
            if self.front_index == 0 {
                self.front_index = self.items.len() - 1;
            } else {
                self.front_index = self.front_index - 1;
            }
            proof {
                let n = old(self).spec_items().len() as int;
                let i = old(self).spec_front();
                if i == 0 {
                    vstd::arithmetic::div_mod::lemma_small_mod((n - 1) as nat, n as nat);
                } else {
                    vstd::arithmetic::div_mod::lemma_mod_add_multiples_vanish(i - 1, n);
                    vstd::arithmetic::div_mod::lemma_small_mod((i - 1) as nat, n as nat);
                }
            }
        }
    }

    /// Replace the whole sequence and return the position to the start.
    pub fn set(&mut self, values: Vec<T>)
        ensures
            final(self).wf(),
            final(self).spec_items() == values@,
            final(self).spec_front() == 0,
    {
        self.items = values;
        self.front_index = 0;
    }

    /// True exactly when the position is on the last item; false over an
    /// empty sequence.
    pub fn is_last(&self) -> (r: bool)
        requires
            self.wf(),
        ensures
            r == self.spec_is_last(),
    {
        self.items.len() > 0 && self.front_index == self.items.len() - 1
    }
}

/// The position after `k` single steps of wrap-around advancement through a
/// sequence of length `n`.
pub open spec fn index_after_steps(i: int, n: int, k: nat) -> int
    decreases k,
{
    if k == 0 {
        i
    } else {
        (index_after_steps(i, n, (k - 1) as nat) + 1) % n
    }
}

/// Stepping forward `k` times from a valid position lands on the position
/// `(i + k) mod n`.
proof fn lemma_steps_add(i: int, n: int, k: nat)
    requires
        0 <= i < n,
    ensures
        index_after_steps(i, n, k) == (i + k) % n,
    decreases k,
{
    if k == 0 {
        vstd::arithmetic::div_mod::lemma_small_mod(i as nat, n as nat);
    } else {
        lemma_steps_add(i, n, (k - 1) as nat);
        vstd::arithmetic::div_mod::lemma_add_mod_noop(i + k - 1, 1, n);
        if n == 1 {
            vstd::arithmetic::div_mod::lemma_mod_division_less_than_divisor(i + k - 1, 1);
            vstd::arithmetic::div_mod::lemma_mod_division_less_than_divisor(i + k, 1);
            vstd::arithmetic::div_mod::lemma_mod_division_less_than_divisor(
                ((i + k - 1) % 1) + 1,
                1,
            );
        } else {
            vstd::arithmetic::div_mod::lemma_small_mod(1nat, n as nat);
            vstd::arithmetic::div_mod::lemma_mod_twice(i + k, n);
        }
    }
}

/// Wrap-around closure: advancing exactly `n` times through a sequence of
/// length `n > 0` returns the cursor to the position it started from.
pub proof fn lemma_full_cycle_returns(i: int, n: int)
    requires
        0 < n,
        0 <= i < n,
    ensures
        index_after_steps(i, n, n as nat) == i,
{
    lemma_steps_add(i, n, n as nat);
    vstd::arithmetic::div_mod::lemma_mod_add_multiples_vanish(i, n);
    vstd::arithmetic::div_mod::lemma_small_mod(i as nat, n as nat);
}

} // verus!
