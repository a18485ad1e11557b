//! A plain LIFO stack over a growable buffer, and the list-backed stack
//! variants in the submodules.

use vstd::prelude::*;
use vstd::pervasive::cloned;

pub mod browser_history_stack;
pub mod stack;

verus! {

// ------------------------- Stack<T> Last-in-first-out -------------

///
#[derive(Debug)]
pub struct Stack<T> {
    size: usize,
    inner_list: Vec<T>,
}

impl<T> View for Stack<T> {
    type V = Seq<T>;

    /// The elements from bottom to top.
    closed spec fn view(&self) -> Seq<T> {
        self.inner_list@
    }
}

///
impl<T> Stack<T> {
    /// Well-formedness: the tracked size counts the buffer's elements.
    pub closed spec fn wf(&self) -> bool {
        self.size as int == self.inner_list@.len()
    }

    ///
    pub fn new() -> (r: Self)
        ensures
            r.wf(),
            r@ == Seq::<T>::empty(),
    {
        Stack { size: 0usize, inner_list: Vec::new() }
    }

    ///
    pub fn len(&self) -> (r: usize)
        requires
            self.wf(),
        ensures
            r == self@.len(),
    {
        self.size
    }

    ///
    pub fn pop(&mut self) -> (r: Option<T>)
        requires
            old(self).wf(),
        ensures
            final(self).wf(),
            match r {
                Some(v) => old(self)@.len() > 0 && v == old(self)@.last() && final(self)@
                    == old(self)@.drop_last(),
                None => old(self)@.len() == 0 && final(self)@ == old(self)@,
            },
    {
        let result = self.inner_list.pop();
        if result.is_some() {
            self.size = self.size - 1;
            proof {
                assert(self@ =~= old(self)@.drop_last());
            }
        }

        result
    }

    ///
    pub fn push(&mut self, data: T)
        requires
            old(self).wf(),
            old(self)@.len() < usize::MAX,
        ensures
            final(self).wf(),
            final(self)@ == old(self)@.push(data),
    {
        self.inner_list.push(data);
        self.size = self.size + 1;
    }

    ///
    pub fn is_empty(&self) -> (r: bool)
        requires
            self.wf(),
        ensures
            r == (self@.len() == 0),
    {
        self.size == 0
    }
}

impl<T: Clone> Stack<T> {
    /// Reads the top of the stack without removing it; the caller gets a
    /// clone of the top value.
    pub fn peek(&mut self) -> (r: Option<T>)
        requires
            old(self).wf(),
        ensures
            *final(self) == *old(self),
            match r {
                Some(v) => old(self)@.len() > 0 && cloned(old(self)@.last(), v),
                None => old(self)@.len() == 0,
            },
    {
        if self.size == 0 {
            return None;
        }
        let top = &self.inner_list[self.size - 1];
        Some(top.clone())
    }
}

} // verus!
