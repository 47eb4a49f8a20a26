//! A double-ended queue: push, pop and peek at both the front and the back.
//!
//! The deque is a doubly-linked list whose nodes live in a `Vec`-backed
//! arena. Links are optional slot indices, so each node can be reached from
//! both neighbours without reference counting or interior mutability. Slots
//! freed by a pop are kept on a free list and reused by later pushes.

use vstd::prelude::*;

verus! {

/// One link in the deque's chain: an element value and the arena indices of
/// the nodes in front of it and behind it, if any.
pub struct DequeNode<T> {
    value: T,
    prev: Option<usize>,
    next: Option<usize>,
}

impl<T> DequeNode<T> {
    /// The element this node carries.
    pub closed spec fn spec_value(&self) -> T {
        self.value
    }

    /// The arena index of the node in front of this one.
    pub closed spec fn spec_prev(&self) -> Option<usize> {
        self.prev
    }

    /// The arena index of the node behind this one.
    pub closed spec fn spec_next(&self) -> Option<usize> {
        self.next
    }

    /// A fresh node, not yet linked to any other.
    pub fn new(value: T) -> (node: Self)
        ensures
            node.spec_value() == value,
            node.spec_prev() is None,
            node.spec_next() is None,
    {
        Self { value, prev: None, next: None }
    }
}

/// A double-ended queue. Its view is the sequence of its elements, front
/// first.
pub struct Deque<T> {
    slots: Vec<Option<DequeNode<T>>>,
    free: Vec<usize>,
    head: Option<usize>,
    tail: Option<usize>,
    size: usize,
    chain: Ghost<Seq<usize>>,
}

impl<T> View for Deque<T> {
    type V = Seq<T>;

    closed spec fn view(&self) -> Seq<T> {
        Seq::new(self.chain@.len(), |i: int| self.slots@[self.chain@[i] as int]->Some_0.value)
    }
}

impl<T> Deque<T> {
    /// Well-formedness: `chain` lists the arena slots of the live nodes from
    /// front to back. Live slots are occupied; two nodes are adjacent in the
    /// chain exactly when the front one's `next` and the back one's `prev`
    /// name each other; the first node has no `prev` and the last no `next`;
    /// `head` and `tail` frame the chain, `size` counts it, and the free
    /// list holds exactly the vacant slots.
    pub closed spec fn wf(&self) -> bool {
        &&& self.size == self.chain@.len()
        &&& (forall|i: int|
            0 <= i < self.chain@.len() ==> #[trigger] self.chain@[i] < self.slots@.len()
                && self.slots@[self.chain@[i] as int] is Some)
        &&& (forall|i: int, j: int|
            0 <= i < j < self.chain@.len() ==> self.chain@[i] != self.chain@[j])
        &&& (forall|i: int|
            0 <= i < self.chain@.len()
                ==> (#[trigger] self.slots@[self.chain@[i] as int])->Some_0.next == (if i + 1
                < self.chain@.len() {
                Some(self.chain@[i + 1])
            } else {
                None::<usize>
            }))
        &&& (forall|i: int|
            0 <= i < self.chain@.len()
                ==> (#[trigger] self.slots@[self.chain@[i] as int])->Some_0.prev == (if i > 0 {
                Some(self.chain@[i - 1])
            } else {
                None::<usize>
            }))
        &&& self.head == (if self.chain@.len() > 0 {
            Some(self.chain@[0])
        } else {
            None::<usize>
        })
        &&& self.tail == (if self.chain@.len() > 0 {
            Some(self.chain@[self.chain@.len() - 1])
        } else {
            None::<usize>
        })
        &&& (forall|k: int|
            0 <= k < self.free@.len() ==> #[trigger] self.free@[k] < self.slots@.len()
                && self.slots@[self.free@[k] as int] is None)
        &&& (forall|k: int, l: int|
            0 <= k < l < self.free@.len() ==> self.free@[k] != self.free@[l])
        &&& self.chain@.len() + self.free@.len() == self.slots@.len()
    }

    /// An empty deque.
    pub fn new() -> (d: Self)
        ensures
            d.wf(),
            d@ == Seq::<T>::empty(),
    {
        let d = Deque {
            slots: Vec::new(),
            free: Vec::new(),
            head: None,
            tail: None,
            size: 0,
            chain: Ghost(Seq::empty()),
        };
        proof {
            assert(d@ =~= Seq::<T>::empty());
        }
        d
    }

    /// The number of elements held.
    pub fn len(&self) -> (n: usize)
        requires
            self.wf(),
        ensures
            n == self@.len(),
    {
        self.size
    }

    /// Whether the deque holds no element.
    pub fn is_empty(&self) -> (b: bool)
        requires
            self.wf(),
        ensures
            b == (self@.len() == 0),
    {
        self.len() == 0
    }

    /// Places `node` in a vacant arena slot, reusing a freed slot when one
    /// exists, and returns its index. The chain and its framing are
    /// untouched; the fresh slot is outside the chain and off the free list.
    fn claim_slot(&mut self, node: DequeNode<T>) -> (idx: usize)
        requires
            old(self).wf(),
        ensures
            idx < final(self).slots@.len(),
            final(self).slots@[idx as int] == Some(node),
            old(self).slots@.len() <= final(self).slots@.len(),
            forall|j: int|
                0 <= j < old(self).slots@.len() && j != idx
                    ==> final(self).slots@[j] == old(self).slots@[j],
            forall|i: int| 0 <= i < old(self).chain@.len() ==> old(self).chain@[i] != idx,
            final(self).head == old(self).head,
            final(self).tail == old(self).tail,
            final(self).size == old(self).size,
            final(self).chain == old(self).chain,
            forall|k: int|
                0 <= k < final(self).free@.len()
                    ==> #[trigger] final(self).free@[k] < final(self).slots@.len()
                        && final(self).slots@[final(self).free@[k] as int] is None,
            forall|k: int, l: int|
                0 <= k < l < final(self).free@.len()
                    ==> final(self).free@[k] != final(self).free@[l],
            final(self).slots@.len() == old(self).chain@.len() + final(self).free@.len() + 1,
            final(self).slots@.len() <= usize::MAX,
    {
        match self.free.pop() {
            Some(j) => {
                self.slots[j] = Some(node);
                proof {
                    // a Vec never outgrows usize, which bounds the chain
                    assert(self.slots.len() <= usize::MAX);
                }
                j
            },
            None => {
                let idx = self.slots.len();
                self.slots.push(Some(node));
                proof {
                    // a Vec never outgrows usize, which bounds the chain
                    assert(self.slots.len() <= usize::MAX);
                }
                idx
            },
        }
    }

    /// Inserts `value` at the front of the deque.
    pub fn push_front(&mut self, value: T)
        requires
            old(self).wf(),
        ensures
            final(self).wf(),
            final(self)@ == seq![value] + old(self)@,
            final(self)@.len() == old(self)@.len() + 1,
    {
        let ghost v0 = self@;
        let mut node = DequeNode::new(value);
        node.next = self.head;
        let idx = self.claim_slot(node);
        let ghost c0 = self.chain@;
        match self.head {
            None => {
                self.head = Some(idx);
                self.tail = Some(idx);
                self.size = 1;
                self.chain = Ghost(Seq::empty().push(idx));
            },
            Some(h) => {
                let taken = self.slots[h].take();
                let mut front = taken.unwrap();
                front.prev = Some(idx);
                self.slots[h] = Some(front);
                self.head = Some(idx);
                self.size = self.size + 1;
                self.chain = Ghost(Seq::empty().push(idx) + c0);
            },
        }
        proof {
            assert(self@ =~= seq![value] + v0);
        }
    }

    /// Inserts `value` at the back of the deque: the new node is linked
    /// behind the current back node and becomes the new back.
    pub fn push_back(&mut self, value: T)
        requires
            old(self).wf(),
        ensures
            final(self).wf(),
            final(self)@ == old(self)@.push(value),
            final(self)@.len() == old(self)@.len() + 1,
    {
        let ghost v0 = self@;
        let mut node = DequeNode::new(value);
        node.prev = self.tail;
        let idx = self.claim_slot(node);
        let ghost c0 = self.chain@;
        match self.tail {
            None => {
                self.head = Some(idx);
                self.tail = Some(idx);
                self.size = 1;
                self.chain = Ghost(Seq::empty().push(idx));
            },
            Some(t) => {
                let taken = self.slots[t].take();
                let mut back = taken.unwrap();
                back.next = Some(idx);
                self.slots[t] = Some(back);
                self.tail = Some(idx);
                self.size = self.size + 1;
                self.chain = Ghost(c0.push(idx));
            },
        }
        proof {
            assert(self@ =~= v0.push(value));
        }
    }

    /// Removes and returns the front element, or `None` if the deque is
    /// empty.
    pub fn pop_front(&mut self) -> (r: Option<T>)
        requires
            old(self).wf(),
        ensures
            final(self).wf(),
            match r {
                Some(v) => old(self)@.len() > 0 && v == old(self)@[0] && final(self)@ == old(
                    self,
                )@.drop_first() && final(self)@.len() == old(self)@.len() - 1,
                None => old(self)@.len() == 0 && final(self)@ == old(self)@,
            },
    {
        let ghost v0 = self@;
        let ghost c0 = self.chain@;
        match self.head {
            None => None,
            Some(h) => {
                let taken = self.slots[h].take();
                let node = taken.unwrap();
                self.free.push(h);
                self.size = self.size - 1;
                match node.next {
                    None => {
                        self.head = None;
                        self.tail = None;
                    },
                    Some(nh) => {
                        let t2 = self.slots[nh].take();
                        let mut second = t2.unwrap();
                        second.prev = None;
                        self.slots[nh] = Some(second);
                        self.head = Some(nh);
                    },
                }
                self.chain = Ghost(c0.drop_first());
                proof {
                    assert(self@ =~= v0.drop_first());
                }
                Some(node.value)
            },
        }
    }

    /// Removes and returns the back element, or `None` if the deque is
    /// empty.
    pub fn pop_back(&mut self) -> (r: Option<T>)
        requires
            old(self).wf(),
        ensures
            final(self).wf(),
            match r {
                Some(v) => old(self)@.len() > 0 && v == old(self)@.last() && final(self)@ == old(
                    self,
                )@.drop_last() && final(self)@.len() == old(self)@.len() - 1,
                None => old(self)@.len() == 0 && final(self)@ == old(self)@,
            },
    {
        let ghost v0 = self@;
        let ghost c0 = self.chain@;
        match self.tail {
            None => None,
            Some(t) => {
                let taken = self.slots[t].take();
                let node = taken.unwrap();
                self.free.push(t);
                self.size = self.size - 1;
                match node.prev {
                    None => {
                        self.head = None;
                        self.tail = None;
                    },
                    Some(nt) => {
                        let t2 = self.slots[nt].take();
                        let mut back = t2.unwrap();
                        back.next = None;
                        self.slots[nt] = Some(back);
                        self.tail = Some(nt);
                    },
                }
                self.chain = Ghost(c0.drop_last());
                proof {
                    assert(self@ =~= v0.drop_last());
                }
                Some(node.value)
            },
        }
    }

    /// A read-only view of the front element, or `None` if the deque is
    /// empty. The deque itself is untouched.
    pub fn peek_front(&self) -> (r: Option<&T>)
        requires
            self.wf(),
        ensures
            match r {
                Some(v) => self@.len() > 0 && *v == self@[0],
                None => self@.len() == 0,
            },
    {
        match self.head {
            None => None,
            Some(h) => match &self.slots[h] {
                Some(node) => Some(&node.value),
                None => unreached(),
            },
        }
    }

    /// A read-only view of the back element, or `None` if the deque is
    /// empty. The deque itself is untouched.
    pub fn peek_back(&self) -> (r: Option<&T>)
        requires
            self.wf(),
        ensures
            match r {
                Some(v) => self@.len() > 0 && *v == self@.last(),
                None => self@.len() == 0,
            },
    {
        match self.tail {
            None => None,
            Some(t) => match &self.slots[t] {
                Some(node) => Some(&node.value),
                None => unreached(),
            },
        }
    }
}

} // verus!
