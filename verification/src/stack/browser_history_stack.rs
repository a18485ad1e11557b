//! A browser-history facade over the list-backed stack: every operation
//! forwards verbatim to an owned [`Stack`] and adds no logic of its own.

use vstd::prelude::*;
use vstd::std_specs::cmp::PartialEqSpec;
use crate::linked_list::single_linked_list::list_has;
use crate::render::content_str;
use crate::stack::stack::Stack;

verus! {

/// BrowserHistoryStack<T> Last-in-first-out (LIFO)
pub struct BrowserHistoryStack<T> {
    inner_stack: Stack<T>,
}

impl<T> View for BrowserHistoryStack<T> {
    type V = Seq<T>;

    /// The history entries, oldest first.
    closed spec fn view(&self) -> Seq<T> {
        self.inner_stack@
    }
}

///
impl<T> BrowserHistoryStack<T> {
    /// Well-formedness of the owned stack.
    pub closed spec fn wf(&self) -> bool {
        self.inner_stack.wf()
    }

    ///
    pub fn new() -> (r: Self)
        ensures
            r.wf(),
            r@ == Seq::<T>::empty(),
    {
        BrowserHistoryStack { inner_stack: Stack::<T>::new() }
    }

    ///
    pub fn size(&self) -> (r: usize)
        requires
            self.wf(),
        ensures
            r == self@.len(),
    {
        self.inner_stack.size()
    }

    ///
    pub fn pop(&mut self) -> (r: Option<T>)
        requires
            old(self).wf(),
        ensures
            final(self).wf(),
            match r {
                Some(v) => old(self)@.len() > 0 && v == old(self)@.last() && final(self)@
                    == old(self)@.drop_last(),
                None => old(self)@.len() == 0 && *final(self) == *old(self),
            },
    {
        self.inner_stack.pop()
    }

    /// `peek` works like `pop`, but it returns the immutable reference to
    /// the newest entry rather than consuming it.
    pub fn peek(&mut self) -> (r: Option<&T>)
        requires
            old(self).wf(),
        ensures
            *final(self) == *old(self),
            match r {
                Some(v) => old(self)@.len() > 0 && *v == old(self)@.last(),
                None => old(self)@.len() == 0,
            },
    {
        self.inner_stack.peek()
    }

    ///
    pub fn push(&mut self, data: T)
        requires
            old(self).wf(),
            old(self)@.len() < usize::MAX,
        ensures
            final(self).wf(),
            final(self)@ == old(self)@.push(data),
    {
        self.inner_stack.push(data)
    }

    ///
    pub fn is_empty(&self) -> (r: bool)
        requires
            self.wf(),
        ensures
            r == (self@.len() == 0),
    {
        self.inner_stack.is_empty()
    }
}

impl<T: PartialEq> BrowserHistoryStack<T> {
    ///
    pub fn contains(&self, data: T) -> (r: bool)
        requires
            self.wf(),
        ensures
            T::obeys_eq_spec() ==> r == list_has(self@, data),
    {
        self.inner_stack.contains(data)
    }
}

impl<T: std::fmt::Debug> BrowserHistoryStack<T> {
    ///
    pub fn print_stack(&self)
        requires
            self.wf(),
    {
        self.inner_stack.print_stack();
    }

    ///
    pub fn get_stack_content(&self) -> (r: String)
        requires
            self.wf(),
        ensures
            self@.len() == 0 ==> r@ == "empty list"@,
            self@.len() > 0 ==> exists|parts: Seq<Seq<char>>|
                parts.len() == self@.len() && r@ == content_str(self@.len(), parts),
    {
        self.inner_stack.get_stack_content()
    }
}

} // verus!
