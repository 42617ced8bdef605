//! The list header, the node representation, and the insertion and
//! removal protocols.

use vstd::prelude::*;

verus! {

/// One node of the list: an element value and the slot number of the
/// successor node in the list's arena, or `None` at the tail.
#[derive(Clone, Copy)]
pub struct SLLElem<T: Copy> {
    data: T,
    next_ptr: Option<usize>,
}

impl<T: Copy> SLLElem<T> {
    /// The element value held by this node.
    pub closed spec fn spec_data(self) -> T {
        self.data
    }

    /// The slot of this node's successor, or `None` at the tail.
    pub closed spec fn spec_next_ptr(self) -> Option<usize> {
        self.next_ptr
    }

    /// A node with no successor.
    pub fn new(data: T) -> (e: Self)
        ensures
            e.spec_data() == data,
            e.spec_next_ptr() is None,
    {
        SLLElem { data, next_ptr: None }
    }

    /// A node whose successor is the node in slot `ptr`.
    pub fn new_with_ptr(data: T, ptr: usize) -> (e: Self)
        ensures
            e.spec_data() == data,
            e.spec_next_ptr() == Some(ptr),
    {
        SLLElem { data, next_ptr: Some(ptr) }
    }

    /// Reads the payload.
    pub fn get_data(&self) -> (d: T)
        ensures
            d == self.spec_data(),
    {
        self.data
    }

    /// Overwrites the payload; the successor link is untouched.
    pub fn set_data(&mut self, data: T)
        ensures
            final(self).spec_data() == data,
            final(self).spec_next_ptr() == old(self).spec_next_ptr(),
    {
        self.data = data;
    }

    /// Reads the successor link.
    pub fn get_next_ptr(&self) -> (r: Option<usize>)
        ensures
            r == self.spec_next_ptr(),
    {
        self.next_ptr
    }

    /// Overwrites the successor link; the payload is untouched.
    pub fn set_next_ptr(&mut self, ptr: Option<usize>)
        ensures
            final(self).spec_next_ptr() == ptr,
            final(self).spec_data() == old(self).spec_data(),
    {
        self.next_ptr = ptr;
    }
}

/// The list header: an element count and the slot of the first node.
///
/// All node storage sits in an arena owned by the list, so no link can
/// dangle. A removed node's slot is retired, never handed out again;
/// its storage is reclaimed when the whole list is dropped.
pub struct SLL<T: Copy> {
    length: usize,
    start_ptr: Option<usize>,
    arena: Vec<SLLElem<T>>,
    nodes: Ghost<Seq<usize>>,
}

impl<T: Copy> View for SLL<T> {
    type V = Seq<T>;

    /// The abstract contents: the element values in index order.
    closed spec fn view(&self) -> Seq<T> {
        Seq::new(self.length as nat, |k: int| self.arena@[self.nodes@[k] as int].data)
    }
}

impl<T: Copy> SLL<T> {
    /// The slot of the node at position `k`, as ghost bookkeeping.
    pub closed spec fn spec_node_seq(self) -> Seq<usize> {
        self.nodes@
    }

    /// The slot of the first node, or `None` when the list is empty.
    pub closed spec fn spec_start_ptr(self) -> Option<usize> {
        self.start_ptr
    }

    /// Well-formedness: the count matches the chain, the start reference
    /// is absent exactly on the empty list, every link points at the
    /// next recorded node, the chain ends in `None`, and no slot appears
    /// twice (the chain is a simple path, never a cycle).
    pub closed spec fn wf(self) -> bool {
        &&& self.nodes@.len() == self.length
        &&& (self.length == 0 <==> self.start_ptr is None)
        &&& (self.length > 0 ==> self.start_ptr == Some(self.nodes@[0]))
        &&& forall|k: int|
            0 <= k < self.length ==> (#[trigger] self.nodes@[k]) < self.arena@.len()
        &&& forall|k: int|
            0 <= k < self.length - 1 ==> self.arena@[(#[trigger] self.nodes@[k]) as int].next_ptr
                == Some(self.nodes@[k + 1])
        &&& (self.length > 0 ==> self.arena@[self.nodes@[self.length - 1] as int].next_ptr
            is None)
        &&& forall|k1: int, k2: int|
            0 <= k1 < k2 < self.length ==> #[trigger] self.nodes@[k1] != #[trigger] self.nodes@[k2]
    }

    /// An empty list.
    pub fn new() -> (s: Self)
        ensures
            s.wf(),
            s@ == Seq::<T>::empty(),
    {
        SLL { length: 0, start_ptr: None, arena: Vec::new(), nodes: Ghost(Seq::empty()) }
    }

    /// The element count; pure, no side effects.
    pub fn len(&self) -> (n: usize)
        ensures
            n == self@.len(),
    {
        self.length
    }

    /// The slot of the first node; absent exactly when the list is empty.
    pub fn get_start_ptr(&self) -> (r: Option<usize>)
        requires
            self.wf(),
        ensures
            r == self.spec_start_ptr(),
            r is Some <==> self@.len() > 0,
            self@.len() > 0 ==> r == Some(self.spec_node_seq()[0]),
    {
        self.start_ptr
    }

    /// Overwrites the start reference. A bookkeeping primitive with no
    /// invariant enforcement: the count and the recorded chain are left
    /// as they are, so the result may not be well-formed, and a list
    /// that is not well-formed satisfies no other contract here.
    pub fn set_start_ptr(&mut self, new: Option<usize>)
        ensures
            final(self).spec_start_ptr() == new,
            final(self).spec_node_seq() == old(self).spec_node_seq(),
            final(self)@ == old(self)@,
    {
        self.start_ptr = new;
    }

    /// Increments the count by one without touching the chain. A
    /// bookkeeping primitive with no invariant enforcement; see
    /// `set_start_ptr`.
    pub fn pos_inc_len(&mut self)
        requires
            old(self)@.len() < usize::MAX,
        ensures
            final(self)@.len() == old(self)@.len() + 1,
            final(self).spec_start_ptr() == old(self).spec_start_ptr(),
            final(self).spec_node_seq() == old(self).spec_node_seq(),
            forall|k: int| 0 <= k < old(self)@.len() ==> final(self)@[k] == old(self)@[k],
    {
        self.length = self.length + 1;
    }

    /// Decrements the count by one without touching the chain. A
    /// bookkeeping primitive with no invariant enforcement; see
    /// `set_start_ptr`.
    pub fn neg_inc_len(&mut self)
        requires
            old(self)@.len() > 0,
        ensures
            final(self)@.len() == old(self)@.len() - 1,
            final(self).spec_start_ptr() == old(self).spec_start_ptr(),
            final(self).spec_node_seq() == old(self).spec_node_seq(),
            forall|k: int| 0 <= k < old(self)@.len() - 1 ==> final(self)@[k] == old(self)@[k],
    {
        self.length = self.length - 1;
    }

    /// Overwrites the count without touching the chain. A bookkeeping
    /// primitive with no invariant enforcement; see `set_start_ptr`.
    pub fn set_len(&mut self, new: usize)
        ensures
            final(self)@.len() == new,
            final(self).spec_start_ptr() == old(self).spec_start_ptr(),
            final(self).spec_node_seq() == old(self).spec_node_seq(),
            forall|k: int|
                0 <= k < old(self)@.len() && k < new ==> final(self)@[k] == old(self)@[k],
    {
        self.length = new;
    }

    /// The slot of the node at position `ind`, found by walking the
    /// chain from the start. Well-formedness guarantees the chain is at
    /// least `length` nodes long, so the walk always reaches `ind`; a
    /// shorter chain, under which the walk would stop early at the tail,
    /// is ruled out statically.
    pub fn ptr_to(&self, ind: usize) -> (r: Option<usize>)
        requires
            self.wf(),
            ind < self@.len(),
        ensures
            r == Some(self.spec_node_seq()[ind as int]),
            ind == 0 ==> r == self.spec_start_ptr(),
    {
        if ind == 0 {
            self.start_ptr
        } else {
            let mut ptr: usize = self.start_ptr.unwrap();
            let mut ct: usize = 0;
            while ct < ind
                invariant
                    self.wf(),
                    ind < self@.len(),
                    ct <= ind,
                    ptr == self.spec_node_seq()[ct as int],
                decreases ind - ct,
            {
                ptr = self.arena[ptr].next_ptr.unwrap();
                ct = ct + 1;
            }
            Some(ptr)
        }
    }

    /// A read reference to the element at position `ind`.
    pub fn index(&self, ind: usize) -> (r: &T)
        requires
            self.wf(),
            ind < self@.len(),
        ensures
            *r == self@[ind as int],
    {
        let p = self.ptr_to(ind).unwrap();
        &self.arena[p].data
    }

    /// An exclusive-write reference to the element at position `ind`.
    /// Writing through it replaces that element and nothing else.
    pub fn index_mut(&mut self, ind: usize) -> (r: &mut T)
        requires
            old(self).wf(),
            ind < old(self)@.len(),
        ensures
            final(self).wf(),
            *r == old(self)@[ind as int],
            final(self)@.len() == old(self)@.len(),
            final(self)@[ind as int] == *final(r),
            forall|k: int|
                0 <= k < old(self)@.len() && k != ind ==> final(self)@[k] == old(self)@[k],
    {
        let p = self.ptr_to(ind).unwrap();
        &mut self.arena[p].data
    }

    /// Appends a value as the new last element. A fresh node is placed
    /// in the arena; the start reference (empty list) or the current
    /// last node's link is pointed at it, and the count is incremented.
    /// All prior elements and their order are unchanged.
    pub fn push(&mut self, data: T)
        requires
            old(self).wf(),
            old(self)@.len() < usize::MAX,
        ensures
            final(self).wf(),
            final(self)@ == old(self)@.push(data),
            final(self)@.len() == old(self)@.len() + 1,
            final(self)@.last() == data,
            forall|k: int| 0 <= k < old(self)@.len() ==> final(self)@[k] == old(self)@[k],
    {
        let slot: usize = self.arena.len();
        self.arena.push(SLLElem::new(data));
        if self.start_ptr.is_none() {
            self.start_ptr = Some(slot);
        } else {
            let last = self.ptr_to(self.length - 1).unwrap();
            let ld = self.arena[last].data;
            self.arena[last] = SLLElem { data: ld, next_ptr: Some(slot) };
        }
        self.length = self.length + 1;
        proof {
            self.nodes@ = self.nodes@.push(slot);
            assert(self@ =~= old(self)@.push(data));
        }
    }

    /// Removes and returns the last element, or `None` on the empty
    /// list. On a non-empty list the second-to-last node's link (or the
    /// start reference, at length one) is severed, the former last
    /// node's slot retired, and the count decremented; all earlier
    /// elements are unchanged in content and order.
    pub fn pop(&mut self) -> (r: Option<T>)
        requires
            old(self).wf(),
        ensures
            final(self).wf(),
            old(self)@.len() == 0 ==> r is None && final(self)@ == old(self)@
                && final(self)@.len() == 0,
            old(self)@.len() > 0 ==> r == Some(old(self)@.last())
                && final(self)@ == old(self)@.drop_last()
                && final(self)@.len() == old(self)@.len() - 1
                && forall|k: int|
                    0 <= k < old(self)@.len() - 1 ==> final(self)@[k] == old(self)@[k],
    {
        if self.length == 0 {
            None
        } else if self.length == 1 {
            let p = self.start_ptr.unwrap();
            let d = self.arena[p].data;
            self.start_ptr = None;
            self.length = 0;
            proof {
                self.nodes@ = self.nodes@.drop_last();
                assert(self@ =~= old(self)@.drop_last());
            }
            Some(d)
        } else {
            let second_to_last = self.ptr_to(self.length - 2).unwrap();
            let last = self.ptr_to(self.length - 1).unwrap();
            let sd = self.arena[second_to_last].data;
            self.arena[second_to_last] = SLLElem { data: sd, next_ptr: None };
            let d = self.arena[last].data;
            self.length = self.length - 1;
            proof {
                self.nodes@ = self.nodes@.drop_last();
                assert(self@ =~= old(self)@.drop_last());
            }
            Some(d)
        }
    }

    /// Removes and returns the element at position `ind`. Removing the
    /// tail delegates to `pop`; removing the head reassigns the start
    /// reference to the second node; otherwise the predecessor's link
    /// is spliced past the target. Exactly one element leaves; all
    /// others keep their relative order, those above `ind` shifting
    /// down by one position.
    #[verifier::rlimit(50)]
    pub fn remove(&mut self, ind: usize) -> (r: Option<T>)
        requires
            old(self).wf(),
            ind < old(self)@.len(),
        ensures
            final(self).wf(),
            r == Some(old(self)@[ind as int]),
            final(self)@ == old(self)@.remove(ind as int),
            final(self)@.len() == old(self)@.len() - 1,
            forall|k: int| 0 <= k < ind ==> final(self)@[k] == old(self)@[k],
            forall|k: int|
                ind <= k < old(self)@.len() - 1 ==> final(self)@[k] == old(self)@[k + 1],
    {
        if self.length == 1 || ind == self.length - 1 {
            let r = self.pop();
            proof {
                assert(final(self)@ =~= old(self)@.remove(ind as int));
            }
            r
        } else if ind == 0 {
            let p = self.start_ptr.unwrap();
            let d = self.arena[p].data;
            self.start_ptr = self.ptr_to(1);
            self.length = self.length - 1;
            proof {
                self.nodes@ = self.nodes@.remove(0);
                assert(self@ =~= old(self)@.remove(0));
            }
            Some(d)
        } else {
            let before = self.ptr_to(ind - 1).unwrap();
            let target = self.ptr_to(ind).unwrap();
            let after = self.ptr_to(ind + 1);
            let d = self.arena[target].data;
            let bd = self.arena[before].data;
            self.arena[before] = SLLElem { data: bd, next_ptr: after };
            self.length = self.length - 1;
            proof {
                let n0 = old(self).nodes@;
                let len0 = n0.len() as int;
                self.nodes@ = self.nodes@.remove(ind as int);
                let n1 = self.nodes@;
                assert forall|k: int| 0 <= k < len0 - 1 implies (#[trigger] n1[k]) == (if k
                    < ind {
                    n0[k]
                } else {
                    n0[k + 1]
                }) by {}
                assert forall|k: int|
                    0 <= k < self.length - 1 implies self.arena@[(#[trigger] n1[k]) as int].next_ptr
                    == Some(n1[k + 1]) by {
                    if k < ind - 1 {
                        assert(n0[k] != n0[ind - 1]);
                    } else if k == ind - 1 {
                        assert(n1[k] == before);
                    } else {
                        assert(n0[k + 1] != n0[ind - 1]);
                    }
                }
                assert(n1[len0 - 2] == n0[len0 - 1]);
                assert(n0[len0 - 1] != n0[ind - 1]);
                assert(self.wf());
                assert(self@ =~= old(self)@.remove(ind as int));
            }
            Some(d)
        }
    }

    /// Inserts a value at position `ind`, `0 <= ind <= len`. At
    /// `ind == len` this is exactly an append. Otherwise the fresh node
    /// is first fully linked to the node now at `ind`, and only then is
    /// the predecessor's link (or the start reference, at the head)
    /// pointed at it, so no step ever exposes a truncated chain. The
    /// count is incremented; every other element keeps its value, those
    /// at `ind` and above shifting up by one position.
    #[verifier::rlimit(50)]
    pub fn insert(&mut self, ind: usize, data: T)
        requires
            old(self).wf(),
            ind <= old(self)@.len(),
            old(self)@.len() < usize::MAX,
        ensures
            final(self).wf(),
            final(self)@ == old(self)@.insert(ind as int, data),
            final(self)@.len() == old(self)@.len() + 1,
            final(self)@[ind as int] == data,
            forall|k: int| 0 <= k < ind ==> final(self)@[k] == old(self)@[k],
            forall|k: int|
                ind < k < old(self)@.len() + 1 ==> final(self)@[k] == old(self)@[k - 1],
    {
        if ind == self.length {
            self.push(data);
            proof {
                assert(final(self)@ =~= old(self)@.insert(ind as int, data));
            }
        } else if ind == 0 {
            let first = self.start_ptr.unwrap();
            let slot: usize = self.arena.len();
            self.arena.push(SLLElem::new_with_ptr(data, first));
            self.start_ptr = Some(slot);
            self.length = self.length + 1;
            proof {
                self.nodes@ = self.nodes@.insert(0, slot);
                assert(self@ =~= old(self)@.insert(0, data));
            }
        } else {
            let before = self.ptr_to(ind - 1).unwrap();
            let after = self.ptr_to(ind).unwrap();
            let slot: usize = self.arena.len();
            self.arena.push(SLLElem::new_with_ptr(data, after));
            let bd = self.arena[before].data;
            self.arena[before] = SLLElem { data: bd, next_ptr: Some(slot) };
            self.length = self.length + 1;
            proof {
                let n0 = old(self).nodes@;
                let len0 = n0.len() as int;
                self.nodes@ = self.nodes@.insert(ind as int, slot);
                let n1 = self.nodes@;
                assert forall|k: int| 0 <= k < len0 + 1 implies (#[trigger] n1[k]) == (if k
                    < ind {
                    n0[k]
                } else if k == ind {
                    slot
                } else {
                    n0[k - 1]
                }) by {}
                assert forall|k: int|
                    0 <= k < self.length - 1 implies self.arena@[(#[trigger] n1[k]) as int].next_ptr
                    == Some(n1[k + 1]) by {
                    if k < ind - 1 {
                        assert(n0[k] != n0[ind - 1]);
                        assert(n0[k] < slot);
                    } else if k == ind - 1 {
                        assert(n1[k] == before);
                    } else if k == ind {
                        assert(n1[k] == slot);
                    } else {
                        assert(n0[k - 1] != n0[ind - 1]);
                        assert(n0[k - 1] < slot);
                    }
                }
                assert(n1[len0] == n0[len0 - 1]);
                assert(n0[len0 - 1] != n0[ind - 1]);
                assert(n0[len0 - 1] < slot);
                assert(self.wf());
                assert(self@ =~= old(self)@.insert(ind as int, data));
            }
        }
    }
}

} // verus!
