//! A rolling window over recent values.
use std::collections::VecDeque;
use vstd::prelude::*;

verus! {

/// A rolling window over the most recent values pushed into it.
///
/// A window never holds more values than the capacity it was made with:
/// pushing into a full window discards the oldest one first, and a window of
/// capacity zero keeps nothing.
pub struct History<T> {
    data: VecDeque<T>,
    capacity: usize,
}

impl<T> View for History<T> {
    type V = Seq<T>;

    closed spec fn view(&self) -> Seq<T> {
        self.data@
    }
}

/// The values of a window after `value` is pushed into one that holds `old`
/// and was made with `capacity`: the newest `capacity` of the old values and
/// the new one.
pub open spec fn pushed<T>(old: Seq<T>, capacity: nat, value: T) -> Seq<T> {
    let all = old.push(value);
    if all.len() <= capacity {
        all
    } else {
        all.skip(all.len() - capacity)
    }
}

impl<T> History<T> {
    /// The capacity the window was made with.
    pub closed spec fn spec_capacity(&self) -> nat {
        self.capacity as nat
    }

    /// The window holds no more values than its capacity.
    pub open spec fn wf(&self) -> bool {
        self@.len() <= self.spec_capacity()
    }

    /// An empty window of the given capacity.
    pub fn new(capacity: usize) -> (h: Self)
        ensures
            h@ == Seq::<T>::empty(),
            h.spec_capacity() == capacity,
            h.wf(),
    {
        Self { data: VecDeque::new(), capacity }
    }

    /// Adds `value` as the newest, after discarding the oldest values that
    /// the capacity has no room for. A window of capacity zero stays empty.
    pub fn push(&mut self, value: T)
        ensures
            final(self)@ == pushed(old(self)@, old(self).spec_capacity(), value),
            final(self).spec_capacity() == old(self).spec_capacity(),
            final(self).wf(),
    {
        broadcast use vstd::std_specs::vecdeque::group_vec_dequeue_axioms;

        let ghost before = self.data@;
        assert(before.skip(0) =~= before);
        while self.data.len() > 0 && self.data.len() >= self.capacity
            invariant
                self.capacity == old(self).capacity,
                self.data@.len() <= before.len(),
                self.data@ == before.skip(before.len() - self.data@.len()),
                self.data@.len() < before.len() ==> self.data@.len() + 1 >= self.capacity,
            decreases self.data@.len(),
        {
            let ghost held = self.data@;
            let _ = self.data.pop_front();
            assert(self.data@ =~= before.skip(before.len() - held.len() + 1));
        }
        if self.capacity > 0 {
            self.data.push_back(value);
        }
        assert(self.data@ =~= pushed(before, self.capacity as nat, value));
    }

    /// The number of values held.
    pub fn len(&self) -> (n: usize)
        ensures
            n == self@.len(),
    {
        broadcast use vstd::std_specs::vecdeque::group_vec_dequeue_axioms;

        self.data.len()
    }

    /// The values held, oldest first.
    pub fn iter(&self) -> (out: Vec<&T>)
        ensures
            out@.len() == self@.len(),
            forall|i: int| 0 <= i < out@.len() ==> *out@[i] == self@[i],
    {
        broadcast use vstd::std_specs::vecdeque::group_vec_dequeue_axioms;

        let mut out: Vec<&T> = Vec::new();
        let n: usize = self.data.len();
        let mut i: usize = 0;
        while i < n
            invariant
                n == self.data@.len(),
                i <= n,
                out@.len() == i,
                forall|j: int| 0 <= j < i ==> *out@[j] == self.data@[j],
            decreases n - i,
        {
            out.push(&self.data[i]);
            i += 1;
        }
        out
    }
}

} // verus!
