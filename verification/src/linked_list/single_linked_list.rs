//! # `SingleLinkedList`
//!
//! It looks like this:
//!
//! Head --> Node1 --> Node2 --> Tail
//!
//! The nodes live in an arena (`nodes`) owned by the list; `head` and `tail`
//! are the arena indices of the first and last node, and each node links to
//! its successor by index. Slots of removed nodes are recycled through a
//! free list, so a slot is released the moment its node is unlinked. The
//! list's abstraction is a `Seq<T>` of the element values from head to tail,
//! recorded by the ghost `order` of live arena indices.

use vstd::prelude::*;
use vstd::pervasive::VecAdditionalExecFns;
use vstd::std_specs::cmp::PartialEqSpec;
use crate::linked_list::single_linked_list_node::Node;
use crate::render::{content_str, fmt_debug, print_line, render_content};

verus! {

/// Whether `x` occurs in `s`, compared through `PartialEq`'s specification.
pub open spec fn list_has<T: PartialEq>(s: Seq<T>, x: T) -> bool {
    exists|i: int| 0 <= i < s.len() && x.eq_spec(&s[i])
}

pub struct SingleLinkedList<T> {
    size: usize,
    head: Option<usize>,
    tail: Option<usize>,
    nodes: Vec<Option<Node<T>>>,
    free: Vec<usize>,
    order: Ghost<Seq<usize>>,
}

impl<T> View for SingleLinkedList<T> {
    type V = Seq<T>;

    /// The element values from head to tail.
    closed spec fn view(&self) -> Seq<T> {
        Seq::new(self.order@.len(), |i: int| self.nodes@[self.order@[i] as int]->Some_0.data)
    }
}

impl<T> SingleLinkedList<T> {
    /// The chain of live arena indices, head first.
    spec fn spec_order(&self) -> Seq<usize> {
        self.order@
    }

    /// The arena index of the first node, if any.
    pub closed spec fn spec_head(&self) -> Option<usize> {
        self.head
    }

    /// The arena index of the last node, if any.
    pub closed spec fn spec_tail(&self) -> Option<usize> {
        self.tail
    }

    /// Well-formedness: `size` counts the chain; the chain indices are live,
    /// distinct slots linked in order by `next`, ending in `None`; `head` and
    /// `tail` bracket the chain; the free list holds distinct empty slots.
    pub closed spec fn wf(&self) -> bool {
        let ord = self.order@;
        &&& self.size as int == ord.len()
        &&& forall|i: int| 0 <= i < ord.len() ==> (#[trigger] ord[i] as int) < self.nodes@.len()
        &&& forall|i: int|
            0 <= i < ord.len() ==> (#[trigger] self.nodes@[ord[i] as int]) is Some
        &&& forall|i: int, j: int|
            0 <= i < ord.len() && 0 <= j < ord.len() && i != j ==> ord[i] != ord[j]
        &&& forall|i: int|
            0 <= i < ord.len() - 1 ==> (#[trigger] self.nodes@[ord[i] as int])->Some_0.next
                == Some(ord[i + 1])
        &&& ord.len() > 0 ==> self.nodes@[ord[ord.len() - 1] as int]->Some_0.next is None
        &&& (ord.len() == 0 <==> self.head is None)
        &&& (ord.len() == 0 <==> self.tail is None)
        &&& ord.len() > 0 ==> self.head == Some(ord[0]) && self.tail == Some(ord[ord.len() - 1])
        &&& forall|k: int|
            0 <= k < self.free@.len() ==> (#[trigger] self.free@[k] as int) < self.nodes@.len()
                && self.nodes@[self.free@[k] as int] is None
        &&& forall|k: int, l: int|
            0 <= k < self.free@.len() && 0 <= l < self.free@.len() && k != l
                ==> self.free@[k] != self.free@[l]
    }

    pub fn new() -> (r: Self)
        ensures
            r.wf(),
            r@ == Seq::<T>::empty(),
    {
        let r = SingleLinkedList {
            size: 0,
            head: None,
            tail: None,
            nodes: Vec::new(),
            free: Vec::new(),
            order: Ghost(Seq::empty()),
        };
        proof {
            assert(r@ =~= Seq::<T>::empty());
        }
        r
    }

    pub fn size(&self) -> (r: usize)
        requires
            self.wf(),
        ensures
            r == self@.len(),
    {
        self.size
    }

    pub fn get_head(&self) -> (r: Option<&T>)
        requires
            self.wf(),
        ensures
            match r {
                Some(v) => self@.len() > 0 && *v == self@[0],
                None => self@.len() == 0,
            },
    {
        match self.head {
            Some(h) => {
                match &self.nodes[h] {
                    Some(node) => Some(&node.data),
                    None => {
                        proof {
                            assert(false);
                        }
                        None
                    }
                }
            }
            None => None,
        }
    }

    pub fn get_tail(&self) -> (r: Option<&T>)
        requires
            self.wf(),
        ensures
            match r {
                Some(v) => self@.len() > 0 && *v == self@[self@.len() - 1],
                None => self@.len() == 0,
            },
    {
        match self.tail {
            Some(t) => {
                match &self.nodes[t] {
                    Some(node) => Some(&node.data),
                    None => {
                        proof {
                            assert(false);
                        }
                        None
                    }
                }
            }
            None => None,
        }
    }

    /// Stores `node` in an empty arena slot, recycling the free list first,
    /// and returns the slot's index. Touches no other slot and none of the
    /// list structure.
    fn alloc_slot(&mut self, node: Node<T>) -> (idx: usize)
        requires
            forall|k: int|
                0 <= k < old(self).free@.len() ==> (#[trigger] old(self).free@[k] as int)
                    < old(self).nodes@.len()
                    && old(self).nodes@[old(self).free@[k] as int] is None,
            forall|k: int, l: int|
                0 <= k < old(self).free@.len() && 0 <= l < old(self).free@.len() && k != l
                    ==> old(self).free@[k] != old(self).free@[l],
        ensures
            final(self).size == old(self).size,
            final(self).head == old(self).head,
            final(self).tail == old(self).tail,
            final(self).order == old(self).order,
            (idx as int) < final(self).nodes@.len(),
            old(self).nodes@.len() <= final(self).nodes@.len(),
            final(self).nodes@[idx as int] == Some(node),
            idx as int >= old(self).nodes@.len() || old(self).nodes@[idx as int] is None,
            forall|j: int|
                0 <= j < old(self).nodes@.len() && j != idx as int
                    ==> final(self).nodes@[j] == old(self).nodes@[j],
            forall|k: int|
                0 <= k < final(self).free@.len() ==> (#[trigger] final(self).free@[k] as int)
                    < final(self).nodes@.len()
                    && final(self).nodes@[final(self).free@[k] as int] is None,
            forall|k: int, l: int|
                0 <= k < final(self).free@.len() && 0 <= l < final(self).free@.len() && k != l
                    ==> final(self).free@[k] != final(self).free@[l],
    {
        match self.free.pop() {
            Some(f) => {
                self.nodes.set(f, Some(node));
                f
            }
            None => {
                let n = self.nodes.len();
                self.nodes.push(Some(node));
                n
            }
        }
    }

    pub fn insert_at_head(&mut self, data: T)
        requires
            old(self).wf(),
            old(self)@.len() < usize::MAX,
        ensures
            final(self).wf(),
            final(self)@ == seq![data] + old(self)@,
            final(self)@.len() == old(self)@.len() + 1,
    {
        // The new head node links to the current head (or to nothing).
        let new_head_node = Node { data, next: self.head };
        let idx = self.alloc_slot(new_head_node);

        if self.head.is_none() {
            self.head = Some(idx);
            self.tail = Some(idx);
        } else {
            self.head = Some(idx);
        }

        self.size = self.size + 1;
        self.order = Ghost(seq![idx] + self.order@);

        proof {
            let ord0 = old(self).order@;
            assert forall|i: int| 0 <= i < ord0.len() implies ord0[i] != idx by {
                assert(old(self).nodes@[ord0[i] as int] is Some);
            }
            assert(self@ =~= seq![data] + old(self)@);
        }
    }

    pub fn append(&mut self, data: T)
        requires
            old(self).wf(),
            old(self)@.len() < usize::MAX,
        ensures
            final(self).wf(),
            final(self)@ == old(self)@.push(data),
            final(self)@.len() == old(self)@.len() + 1,
    {
        // The new tail node ends the chain.
        let new_tail_node = Node { data, next: None };
        let idx = self.alloc_slot(new_tail_node);

        proof {
            let ord0 = old(self).order@;
            assert forall|i: int| 0 <= i < ord0.len() implies ord0[i] != idx by {
                assert(old(self).nodes@[ord0[i] as int] is Some);
            }
        }

        // The old tail's `next` is always `None`; point it at the new node,
        // or make the new node the head of an empty list.
        match self.tail {
            Some(t) => {
                let mut slot: Option<Node<T>> = None;
                self.nodes.set_and_swap(t, &mut slot);
                match slot {
                    Some(mut tail_node) => {
                        tail_node.next = Some(idx);
                        self.nodes.set(t, Some(tail_node));
                    }
                    None => {
                        proof {
                            assert(false);
                        }
                    }
                }
            }
            None => {
                self.head = Some(idx);
            }
        }

        self.tail = Some(idx);
        self.size = self.size + 1;
        self.order = Ghost(self.order@.push(idx));

        proof {
            assert(self@ =~= old(self)@.push(data));
        }
    }

    pub fn pop_head(&mut self) -> (r: Option<T>)
        requires
            old(self).wf(),
        ensures
            final(self).wf(),
            match r {
                Some(v) => old(self)@.len() > 0 && v == old(self)@[0] && final(self)@ == old(
                    self,
                )@.subrange(1, old(self)@.len() as int),
                None => old(self)@.len() == 0 && *final(self) == *old(self),
            },
            r is Some ==> final(self)@.len() == old(self)@.len() - 1,
    {
        if self.head.is_none() || self.tail.is_none() || self.size == 0 {
            return None;
        }

        // Detach the head node and consume it.
        let h = self.head.unwrap();
        let mut slot: Option<Node<T>> = None;
        self.nodes.set_and_swap(h, &mut slot);
        match slot {
            Some(head_node) => {
                // Make the head link point to the next node.
                self.head = head_node.next;
                self.size = self.size - 1;

                // Clear the tail link if the list became empty.
                if self.head.is_none() {
                    self.tail = None;
                }

                self.free.push(h);
                self.order = Ghost(self.order@.subrange(1, self.order@.len() as int));

                proof {
                    let ord0 = old(self).order@;
                    assert forall|k: int| 0 <= k < old(self).free@.len() implies old(
                        self,
                    ).free@[k] != h by {
                        assert(old(self).nodes@[old(self).free@[k] as int] is None);
                    }
                    assert(self@ =~= old(self)@.subrange(1, old(self)@.len() as int));
                }
                Some(head_node.data)
            }
            None => {
                proof {
                    assert(false);
                }
                None
            }
        }
    }

    pub fn pop_tail(&mut self) -> (r: Option<T>)
        requires
            old(self).wf(),
        ensures
            final(self).wf(),
            match r {
                Some(v) => old(self)@.len() > 0 && v == old(self)@[old(self)@.len() - 1]
                    && final(self)@ == old(self)@.drop_last(),
                None => old(self)@.len() == 0 && *final(self) == *old(self),
            },
            r is Some ==> final(self)@.len() == old(self)@.len() - 1,
    {
        if self.tail.is_none() || self.head.is_none() || self.size == 0 {
            return None;
        }

        // Single node case
        if self.size == 1 {
            let h = self.head.unwrap();
            let mut slot: Option<Node<T>> = None;
            self.nodes.set_and_swap(h, &mut slot);
            match slot {
                Some(head_node) => {
                    self.head = None;
                    self.tail = None;
                    self.size = 0;
                    self.free.push(h);
                    self.order = Ghost(Seq::empty());

                    proof {
                        assert forall|k: int| 0 <= k < old(self).free@.len() implies old(
                            self,
                        ).free@[k] != h by {
                            assert(old(self).nodes@[old(self).free@[k] as int] is None);
                        }
                        assert(self@ =~= old(self)@.drop_last());
                    }
                    return Some(head_node.data);
                }
                None => {
                    proof {
                        assert(false);
                    }
                    return None;
                }
            }
        }

        //
        // Otherwise, walk from the head to the node just before the tail
        // (no back-links exist, so this scan is linear by design).
        //
        let t = self.tail.unwrap();
        let mut cur = self.head.unwrap();
        let ghost ord = self.order@;
        let ghost mut k: int = 0;

        loop
            invariant
                self.wf(),
                self == old(self),
                ord == self.order@,
                2 <= ord.len(),
                0 <= k < ord.len() - 1,
                cur == ord[k],
                t == ord[ord.len() - 1],
            ensures
                self == old(self),
                cur == ord[ord.len() - 2],
            decreases ord.len() - 1 - k,
        {
            let next_link = match &self.nodes[cur] {
                Some(node) => node.next,
                None => {
                    proof {
                        assert(false);
                    }
                    None
                }
            };
            let nx = next_link.unwrap();

            // If the link reaches the tail slot, `cur` is the node before it.
            if nx == t {
                proof {
                    assert(ord[k + 1] == ord[ord.len() - 1]);
                    assert(k + 1 == ord.len() - 1);
                }
                break;
            } else {
                cur = nx;
                proof {
                    k = k + 1;
                }
            }
        }

        // Cut the found node's link; the old tail is still reachable through
        // the `tail` index, and is consumed right below.
        let mut slot: Option<Node<T>> = None;
        self.nodes.set_and_swap(cur, &mut slot);
        match slot {
            Some(mut before_tail_node) => {
                before_tail_node.next = None;
                self.nodes.set(cur, Some(before_tail_node));
            }
            None => {
                proof {
                    assert(false);
                }
            }
        }

        // Consume the old tail node.
        let mut tail_slot: Option<Node<T>> = None;
        self.nodes.set_and_swap(t, &mut tail_slot);
        match tail_slot {
            Some(tail_node) => {
                self.tail = Some(cur);
                self.size = self.size - 1;
                self.free.push(t);
                self.order = Ghost(self.order@.drop_last());

                proof {
                    assert forall|kk: int| 0 <= kk < old(self).free@.len() implies old(
                        self,
                    ).free@[kk] != t by {
                        assert(old(self).nodes@[old(self).free@[kk] as int] is None);
                    }
                    assert(self@ =~= old(self)@.drop_last());
                }
                Some(tail_node.data)
            }
            None => {
                proof {
                    assert(false);
                }
                None
            }
        }
    }
}

impl<T: PartialEq> SingleLinkedList<T> {
    pub fn contain(&self, data_to_check: T) -> (r: bool)
        requires
            self.wf(),
        ensures
            T::obeys_eq_spec() ==> r == list_has(self@, data_to_check),
    {
        if self.head.is_none() {
            return false;
        }

        let mut cur_opt = self.head;
        let ghost mut k: int = 0;

        while cur_opt.is_some()
            invariant
                self.wf(),
                0 <= k <= self.order@.len(),
                cur_opt == if k < self.order@.len() {
                    Some(self.order@[k])
                } else {
                    None::<usize>
                },
                T::obeys_eq_spec() ==> forall|j: int|
                    0 <= j < k ==> !data_to_check.eq_spec(&self@[j]),
            decreases self.order@.len() - k,
        {
            let cur = cur_opt.unwrap();
            match &self.nodes[cur] {
                Some(node) => {
                    if data_to_check == node.data {
                        proof {
                            assert(node.data == self@[k]);
                        }
                        return true;
                    }

                    // Update `cur_opt` to next
                    cur_opt = node.next;
                    proof {
                        assert(node.data == self@[k]);
                        k = k + 1;
                    }
                }
                None => {
                    proof {
                        assert(false);
                    }
                }
            }
        }

        false
    }

    /// Same membership test under the name the stack adapters use.
    pub fn contains(&self, data_to_check: T) -> (r: bool)
        requires
            self.wf(),
        ensures
            T::obeys_eq_spec() ==> r == list_has(self@, data_to_check),
    {
        self.contain(data_to_check)
    }
}

impl<T: std::fmt::Debug> SingleLinkedList<T> {
    /// The content string looks like "xxx --> yyy", or "empty list".
    ///
    /// The element texts themselves come from the `Debug` formatting of `T`
    /// and are not specified; the framing around them is exact.
    pub fn get_list_content(&self) -> (r: String)
        requires
            self.wf(),
        ensures
            self@.len() == 0 ==> r@ == "empty list"@,
            self@.len() > 0 ==> exists|parts: Seq<Seq<char>>|
                parts.len() == self@.len() && r@ == content_str(self@.len(), parts),
    {
        if self.head.is_none() {
            return "empty list".to_owned();
        }

        let mut list_content: Vec<String> = Vec::new();
        let mut cur_opt = self.head;
        let ghost mut k: int = 0;

        while cur_opt.is_some()
            invariant
                self.wf(),
                0 <= k <= self.order@.len(),
                list_content@.len() == k,
                cur_opt == if k < self.order@.len() {
                    Some(self.order@[k])
                } else {
                    None::<usize>
                },
            decreases self.order@.len() - k,
        {
            let cur = cur_opt.unwrap();
            match &self.nodes[cur] {
                Some(node) => {
                    list_content.push(fmt_debug(&node.data));
                    cur_opt = node.next;
                    proof {
                        k = k + 1;
                    }
                }
                None => {
                    proof {
                        assert(false);
                    }
                }
            }
        }

        let r = render_content(self.size, &list_content);
        proof {
            let parts = list_content@.map_values(|p: String| p@);
            assert(parts.len() == self@.len());
        }
        r
    }

    pub fn print_list(&self)
        requires
            self.wf(),
    {
        let content = self.get_list_content();
        print_line(content.as_str());
    }
}

/// Head/tail consistency: on a well-formed list (as every operation leaves
/// it) the head and tail links coincide exactly when the list holds at most
/// one element, and the head link is empty exactly when the list is empty.
pub proof fn lemma_head_tail_consistency<T>(l: &SingleLinkedList<T>)
    requires
        l.wf(),
    ensures
        (l.spec_head() == l.spec_tail()) <==> l@.len() <= 1,
        (l.spec_head() is None) <==> l@.len() == 0,
{
    let ord = l.spec_order();
    if ord.len() > 1 {
        assert(ord[0] != ord[ord.len() - 1]);
    }
}

/// Round-trip: a list holding the elements `s` steps, under repeated
/// `pop_head`, through the states `s.subrange(i, s.len())`, handing out
/// `s[i]` at step `i` — the original order. Under repeated `pop_tail` it
/// steps through the states `s.subrange(0, i)`, handing out `s[i - 1]` —
/// the reverse order.
pub proof fn lemma_round_trip<T>(s: Seq<T>)
    ensures
        forall|i: int|
            0 <= i < s.len() ==> (#[trigger] s.subrange(i, s.len() as int))[0] == s[i],
        forall|i: int|
            0 <= i < s.len() ==> (#[trigger] s.subrange(i, s.len() as int)).subrange(
                1,
                s.len() - i,
            ) == s.subrange(i + 1, s.len() as int),
        forall|i: int|
            0 < i <= s.len() ==> (#[trigger] s.subrange(0, i)).last() == s[i - 1],
        forall|i: int|
            0 < i <= s.len() ==> (#[trigger] s.subrange(0, i)).drop_last() == s.subrange(
                0,
                i - 1,
            ),
{
    assert forall|i: int| 0 <= i < s.len() implies (#[trigger] s.subrange(
        i,
        s.len() as int,
    )).subrange(1, s.len() - i) == s.subrange(i + 1, s.len() as int) by {
        assert(s.subrange(i, s.len() as int).subrange(1, s.len() - i) =~= s.subrange(
            i + 1,
            s.len() as int,
        ));
    }
    assert forall|i: int| 0 < i <= s.len() implies (#[trigger] s.subrange(0, i)).drop_last()
        == s.subrange(0, i - 1) by {
        assert(s.subrange(0, i).drop_last() =~= s.subrange(0, i - 1));
    }
}

/// The membership test depends on nothing but the list's elements and the
/// probed value: two results of `contain` on the same list and value are
/// equal, and the test itself, taking `&self`, changes nothing.
pub proof fn lemma_contain_idempotent<T: PartialEq>(s: Seq<T>, x: T, r1: bool, r2: bool)
    requires
        T::obeys_eq_spec(),
        r1 == list_has(s, x),
        r2 == list_has(s, x),
    ensures
        r1 == r2,
{
}

} // verus!
