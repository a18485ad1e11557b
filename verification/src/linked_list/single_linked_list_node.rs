//! The storage cell of [`SingleLinkedList`].
//!
//! Nodes live in an arena owned by the list (a plain vector of slots), and
//! a link to the next node is the index of its slot. `None` plays the part
//! of a null link: the last node of the chain carries `next == None`.
//!
//! [`SingleLinkedList`]: crate::linked_list::single_linked_list::SingleLinkedList

use vstd::prelude::*;

verus! {

/// A link to the following node: the arena index of its slot, or `None`
/// at the end of the chain.
pub type NextNode = Option<usize>;

/// The node holding one element and the link to the next node.
///
/// **All fields in this struct are only visible to the current crate!**
pub struct Node<T> {
    pub(crate) data: T,
    pub(crate) next: NextNode,
}

} // verus!
