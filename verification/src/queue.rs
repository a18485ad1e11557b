//! A plain FIFO queue over a double-ended buffer.

use vstd::prelude::*;
use vstd::std_specs::cmp::PartialEqSpec;
use std::collections::VecDeque;

verus! {

/// Whether `x` occurs in `s`, compared through `PartialEq`'s specification.
pub open spec fn queue_has<T: PartialEq>(s: Seq<T>, x: T) -> bool {
    exists|i: int| 0 <= i < s.len() && x.eq_spec(&s[i])
}

// ----------------- Queue<T> First-In-First-Out (FIFO) ------------------

///
#[derive(Debug)]
pub struct Queue<T> {
    size: usize,
    inner_list: VecDeque<T>,
}

impl<T> View for Queue<T> {
    type V = Seq<T>;

    /// The elements from front to back.
    closed spec fn view(&self) -> Seq<T> {
        self.inner_list@
    }
}

///
impl<T: PartialEq> Queue<T> {
    /// Well-formedness: the tracked size counts the buffer's elements.
    pub closed spec fn wf(&self) -> bool {
        self.size as int == self.inner_list@.len()
    }

    ///
    pub fn new() -> (r: Self)
        ensures
            r.wf(),
            r@ == Seq::<T>::empty(),
    {
        Queue { size: 0usize, inner_list: VecDeque::new() }
    }

    ///
    pub fn len(&self) -> (r: usize)
        requires
            self.wf(),
        ensures
            r == self@.len(),
    {
        self.size
    }

    ///
    pub fn dequeue(&mut self) -> (r: Option<T>)
        requires
            old(self).wf(),
        ensures
            final(self).wf(),
            match r {
                Some(v) => old(self)@.len() > 0 && v == old(self)@[0] && final(self)@ == old(
                    self,
                )@.subrange(1, old(self)@.len() as int),
                None => old(self)@.len() == 0 && final(self)@ == old(self)@,
            },
    {
        let result = self.inner_list.pop_front();
        if result.is_some() {
            self.size = self.size - 1;
        }

        result
    }

    ///
    pub fn enqueue(&mut self, data: T)
        requires
            old(self).wf(),
            old(self)@.len() < usize::MAX,
        ensures
            final(self).wf(),
            final(self)@ == old(self)@.push(data),
    {
        self.inner_list.push_back(data);
        self.size = self.size + 1;
    }

    ///
    pub fn is_empty(&self) -> (r: bool)
        requires
            self.wf(),
        ensures
            r == (self@.len() == 0),
    {
        self.size == 0
    }

    ///
    pub fn is_contains(&self, data: T) -> (r: bool)
        requires
            self.wf(),
        ensures
            T::obeys_eq_spec() ==> r == queue_has(self@, data),
    {
        let mut i: usize = 0;
        while i < self.size
            invariant
                self.wf(),
                0 <= i <= self@.len(),
                T::obeys_eq_spec() ==> forall|j: int| 0 <= j < i ==> !data.eq_spec(&self@[j]),
            decreases self@.len() - i,
        {
            let element = &self.inner_list[i];
            if data == *element {
                return true;
            }
            i = i + 1;
        }
        false
    }
}

} // verus!
