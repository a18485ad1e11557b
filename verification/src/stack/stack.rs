//! The LIFO stack adapting [`SingleLinkedList`]: every mutation goes
//! through the tail-side operations of the list, so the insertion order of
//! the list is the bottom-to-top order of the stack.

use vstd::prelude::*;
use vstd::std_specs::cmp::PartialEqSpec;
use crate::linked_list::single_linked_list::{list_has, SingleLinkedList};
use crate::render::content_str;

verus! {

/// Stack<T> Last-in-first-out (LIFO)
pub struct Stack<T> {
    size: usize,
    inner_list: SingleLinkedList<T>,
}

impl<T> View for Stack<T> {
    type V = Seq<T>;

    /// The elements from bottom to top.
    closed spec fn view(&self) -> Seq<T> {
        self.inner_list@
    }
}

///
impl<T> Stack<T> {
    /// Well-formedness: the inner list is well-formed and the tracked size
    /// matches its length.
    pub closed spec fn wf(&self) -> bool {
        &&& self.inner_list.wf()
        &&& self.size as int == self.inner_list@.len()
    }

    ///
    pub fn new() -> (r: Self)
        ensures
            r.wf(),
            r@ == Seq::<T>::empty(),
    {
        Stack {
            size: 0usize,
            // We don't need the access backwards, that's why I pick
            // `SingleLinkedList` rather the `DoubleLinkedList`.
            inner_list: SingleLinkedList::<T>::new(),
        }
    }

    ///
    pub fn size(&self) -> (r: usize)
        requires
            self.wf(),
        ensures
            r == self@.len(),
    {
        self.size
    }

    ///
    pub fn pop(&mut self) -> (r: Option<T>)
        requires
            old(self).wf(),
        ensures
            final(self).wf(),
            match r {
                Some(v) => old(self)@.len() > 0 && v == old(self)@.last() && final(self)@
                    == old(self)@.drop_last(),
                None => old(self)@.len() == 0 && *final(self) == *old(self),
            },
    {
        let result = self.inner_list.pop_tail();
        if result.is_some() {
            self.size = self.size - 1;
        }

        result
    }

    /// `peek` works like `pop`, but it returns the immutable reference to
    /// the top value rather than consuming it.
    pub fn peek(&mut self) -> (r: Option<&T>)
        requires
            old(self).wf(),
        ensures
            *final(self) == *old(self),
            match r {
                Some(v) => old(self)@.len() > 0 && *v == old(self)@.last(),
                None => old(self)@.len() == 0,
            },
    {
        self.inner_list.get_tail()
    }

    ///
    pub fn push(&mut self, data: T)
        requires
            old(self).wf(),
            old(self)@.len() < usize::MAX,
        ensures
            final(self).wf(),
            final(self)@ == old(self)@.push(data),
    {
        self.inner_list.append(data);
        self.size = self.size + 1;
    }

    ///
    pub fn is_empty(&self) -> (r: bool)
        requires
            self.wf(),
        ensures
            r == (self@.len() == 0),
    {
        self.size == 0
    }
}

impl<T: PartialEq> Stack<T> {
    ///
    pub fn contains(&self, data: T) -> (r: bool)
        requires
            self.wf(),
        ensures
            T::obeys_eq_spec() ==> r == list_has(self@, data),
    {
        self.inner_list.contains(data)
    }
}

impl<T: std::fmt::Debug> Stack<T> {
    ///
    pub fn print_stack(&self)
        requires
            self.wf(),
    {
        self.inner_list.print_list();
    }

    /// The inner list's content string: insertion order, i.e. bottom-to-top
    /// left-to-right.
    pub fn get_stack_content(&self) -> (r: String)
        requires
            self.wf(),
        ensures
            self@.len() == 0 ==> r@ == "empty list"@,
            self@.len() > 0 ==> exists|parts: Seq<Seq<char>>|
                parts.len() == self@.len() && r@ == content_str(self@.len(), parts),
    {
        self.inner_list.get_list_content()
    }
}

/// LIFO order: pushing `a`, `b`, `c` onto a stack holding `s` and then
/// popping twice yields `c`, then `b`, and the top is then `a`; a third pop
/// returns the stack to `s`. Stated over the abstract sequence that `push`,
/// `pop` and `peek` are specified with.
pub proof fn lemma_lifo_order<T>(s: Seq<T>, a: T, b: T, c: T)
    ensures
        s.push(a).push(b).push(c).last() == c,
        s.push(a).push(b).push(c).drop_last() == s.push(a).push(b),
        s.push(a).push(b).last() == b,
        s.push(a).push(b).drop_last() == s.push(a),
        s.push(a).last() == a,
        s.push(a).drop_last() == s,
{
    assert(s.push(a).push(b).push(c).drop_last() =~= s.push(a).push(b));
    assert(s.push(a).push(b).drop_last() =~= s.push(a));
    assert(s.push(a).drop_last() =~= s);
}

} // verus!
