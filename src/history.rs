use vstd::prelude::*;
use std::collections::VecDeque;

verus! {

/// `h` after `x` was put in front of it, when at most `cap` entries are kept:
/// the oldest entry goes once there are more.
pub open spec fn pushed<T>(h: Seq<T>, x: T, cap: nat) -> Seq<T> {
    let s = seq![x] + h;
    if s.len() > cap {
        s.take(cap as int)
    } else {
        s
    }
}

/// `h` after each entry of `xs` was pushed in turn, first to last.
pub open spec fn pushed_all<T>(h: Seq<T>, xs: Seq<T>, cap: nat) -> Seq<T>
    decreases xs.len(),
{
    if xs.len() == 0 {
        h
    } else {
        pushed(pushed_all(h, xs.drop_last(), cap), xs.last(), cap)
    }
}

/// `xs` in reverse order.
pub open spec fn reversed<T>(xs: Seq<T>) -> Seq<T> {
    Seq::new(xs.len(), |i: int| xs[xs.len() - 1 - i])
}

/// The first `n` entries of `s`, or all of them when it has fewer.
pub open spec fn at_most<T>(s: Seq<T>, n: nat) -> Seq<T> {
    if s.len() > n {
        s.take(n as int)
    } else {
        s
    }
}

/// A bounded history, newest entry first. Putting an entry in front of a full
/// history evicts the oldest one.
pub struct WaterfallHistory<T> {
    entries: VecDeque<T>,
    capacity: usize,
}

impl<T> WaterfallHistory<T> {
    /// The entries, newest first.
    pub closed spec fn view(&self) -> Seq<T> {
        self.entries@
    }

    pub closed spec fn cap(&self) -> nat {
        self.capacity as nat
    }

    pub open spec fn wf(&self) -> bool {
        self.view().len() <= self.cap()
    }

    /// An empty history that keeps at most `capacity` entries.
    pub fn new(capacity: usize) -> (r: Self)
        ensures
            r.wf(),
            r.view() == Seq::<T>::empty(),
            r.cap() == capacity,
    {
        WaterfallHistory { entries: VecDeque::new(), capacity }
    }

    pub fn len(&self) -> (r: usize)
        ensures
            r == self.view().len(),
    {
        self.entries.len()
    }

    pub fn capacity(&self) -> (r: usize)
        ensures
            r == self.cap(),
    {
        self.capacity
    }

    /// The entry at position `i`, 0 being the newest.
    pub fn get(&self, i: usize) -> (r: &T)
        requires
            i < self.view().len(),
        ensures
            *r == self.view()[i as int],
    {
        &self.entries[i]
    }

    /// Puts `x` in front, evicting the oldest entry when that makes the
    /// history longer than its capacity.
    pub fn push_front(&mut self, x: T)
        requires
            old(self).wf(),
        ensures
            final(self).wf(),
            final(self).cap() == old(self).cap(),
            final(self).view() == pushed(old(self).view(), x, old(self).cap()),
    {
        self.entries.push_front(x);
        if self.entries.len() > self.capacity {
            self.entries.pop_back();
            assert(self.entries@ =~= pushed(old(self).view(), x, old(self).cap()));
        }
    }

    /// Changes the capacity to `capacity`, dropping the oldest entries that no
    /// longer fit.
    pub fn set_capacity(&mut self, capacity: usize)
        requires
            old(self).wf(),
        ensures
            final(self).wf(),
            final(self).cap() == capacity,
            final(self).view() == at_most(old(self).view(), capacity as nat),
    {
        self.entries.truncate(capacity);
        self.capacity = capacity;
        assert(self.entries@ =~= at_most(old(self).view(), capacity as nat));
    }
}

/// Pushing a run of entries keeps the newest `cap` of them and of the earlier
/// history, newest first.
pub proof fn lemma_pushed_all<T>(h: Seq<T>, xs: Seq<T>, cap: nat)
    requires
        h.len() <= cap,
    ensures
        pushed_all(h, xs, cap) == at_most(reversed(xs) + h, cap),
    decreases xs.len(),
{
    if xs.len() > 0 {
        let ys = xs.drop_last();
        lemma_pushed_all(h, ys, cap);
        let prev = at_most(reversed(ys) + h, cap);
        assert(reversed(xs) + h =~= seq![xs.last()] + (reversed(ys) + h));
        assert(pushed(prev, xs.last(), cap) =~= at_most(reversed(xs) + h, cap));
    } else {
        assert(reversed(xs) + h =~= h);
    }
}

/// A history of capacity `cap` never holds more than `cap` entries, and after
/// `cap + 1` insertions it holds exactly the last `cap` of them, newest first:
/// the first one inserted is no longer in it.
pub proof fn lemma_history_evicts_first<T>(h: Seq<T>, xs: Seq<T>, cap: nat)
    requires
        h.len() <= cap,
        xs.len() == cap + 1,
    ensures
        pushed_all(h, xs, cap).len() == cap,
        forall|i: int|
            0 <= i < cap ==> #[trigger] pushed_all(h, xs, cap)[i] == xs[cap - i],
{
    lemma_pushed_all(h, xs, cap);
}

/// Pushing never takes a history past its capacity.
pub proof fn lemma_pushed_all_bounded<T>(h: Seq<T>, xs: Seq<T>, cap: nat)
    requires
        h.len() <= cap,
    ensures
        pushed_all(h, xs, cap).len() <= cap,
{
    lemma_pushed_all(h, xs, cap);
}

} // verus!
