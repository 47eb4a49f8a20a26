//! A single-ended FIFO queue: push at the back, pop and peek at the front.
//!
//! The queue is a singly-linked list whose nodes live in a `Vec`-backed
//! arena. Links are optional slot indices. Slots freed by `pop` are kept on
//! a free list and reused by later pushes, so the arena never holds more
//! slots than the largest size the queue has reached.

use vstd::prelude::*;

verus! {

/// One link in the queue's chain: an element value and the arena index of
/// the node behind it, if any.
pub struct QueueNode<T> {
    value: T,
    next: Option<usize>,
}

impl<T> QueueNode<T> {
    /// The element this node carries.
    pub closed spec fn spec_value(&self) -> T {
        self.value
    }

    /// The arena index of the node behind this one.
    pub closed spec fn spec_next(&self) -> Option<usize> {
        self.next
    }

    /// A fresh node, not yet linked to any other.
    pub fn new(value: T) -> (node: Self)
        ensures
            node.spec_value() == value,
            node.spec_next() is None,
    {
        Self { value, next: None }
    }
}

/// A first-in first-out queue. Its view is the sequence of its elements,
/// front first.
pub struct Queue<T> {
    slots: Vec<Option<QueueNode<T>>>,
    free: Vec<usize>,
    head: Option<usize>,
    tail: Option<usize>,
    size: usize,
    chain: Ghost<Seq<usize>>,
}

impl<T> View for Queue<T> {
    type V = Seq<T>;

    closed spec fn view(&self) -> Seq<T> {
        Seq::new(self.chain@.len(), |i: int| self.slots@[self.chain@[i] as int]->Some_0.value)
    }
}

impl<T> Queue<T> {
    /// Well-formedness: `chain` lists the arena slots of the live nodes from
    /// front to back. Live slots are occupied and linked each to the next,
    /// the last node has no successor, `head` and `tail` frame the chain,
    /// `size` counts it, and the free list holds exactly the vacant slots.
    pub closed spec fn wf(&self) -> bool {
        &&& self.size == self.chain@.len()
        &&& (forall|i: int|
            0 <= i < self.chain@.len() ==> #[trigger] self.chain@[i] < self.slots@.len()
                && self.slots@[self.chain@[i] as int] is Some)
        &&& (forall|i: int, j: int|
            0 <= i < j < self.chain@.len() ==> self.chain@[i] != self.chain@[j])
        &&& (forall|i: int|
            0 <= i < self.chain@.len()
                ==> (#[trigger] self.slots@[self.chain@[i] as int])->Some_0.next == (if i + 1
                < self.chain@.len() {
                Some(self.chain@[i + 1])
            } else {
                None::<usize>
            }))
        &&& self.head == (if self.chain@.len() > 0 {
            Some(self.chain@[0])
        } else {
            None::<usize>
        })
        &&& self.tail == (if self.chain@.len() > 0 {
            Some(self.chain@[self.chain@.len() - 1])
        } else {
            None::<usize>
        })
        &&& (forall|k: int|
            0 <= k < self.free@.len() ==> #[trigger] self.free@[k] < self.slots@.len()
                && self.slots@[self.free@[k] as int] is None)
        &&& (forall|k: int, l: int|
            0 <= k < l < self.free@.len() ==> self.free@[k] != self.free@[l])
        &&& self.chain@.len() + self.free@.len() == self.slots@.len()
    }

    /// An empty queue.
    pub fn new() -> (q: Self)
        ensures
            q.wf(),
            q@ == Seq::<T>::empty(),
    {
        let q = Queue {
            slots: Vec::new(),
            free: Vec::new(),
            head: None,
            tail: None,
            size: 0,
            chain: Ghost(Seq::empty()),
        };
        proof {
            assert(q@ =~= Seq::<T>::empty());
        }
        q
    }

    /// The number of elements held.
    pub fn len(&self) -> (n: usize)
        requires
            self.wf(),
        ensures
            n == self@.len(),
    {
        self.size
    }

    /// Whether the queue holds no element.
    pub fn is_empty(&self) -> (b: bool)
        requires
            self.wf(),
        ensures
            b == (self@.len() == 0),
    {
        self.len() == 0
    }

    /// Places `node` in a vacant arena slot, reusing a freed slot when one
    /// exists, and returns its index. The chain and its framing are
    /// untouched; the fresh slot is outside the chain and off the free list.
    fn claim_slot(&mut self, node: QueueNode<T>) -> (idx: usize)
        requires
            old(self).wf(),
        ensures
            idx < final(self).slots@.len(),
            final(self).slots@[idx as int] == Some(node),
            old(self).slots@.len() <= final(self).slots@.len(),
            forall|j: int|
                0 <= j < old(self).slots@.len() && j != idx
                    ==> final(self).slots@[j] == old(self).slots@[j],
            forall|i: int| 0 <= i < old(self).chain@.len() ==> old(self).chain@[i] != idx,
            final(self).head == old(self).head,
            final(self).tail == old(self).tail,
            final(self).size == old(self).size,
            final(self).chain == old(self).chain,
            forall|k: int|
                0 <= k < final(self).free@.len()
                    ==> #[trigger] final(self).free@[k] < final(self).slots@.len()
                        && final(self).slots@[final(self).free@[k] as int] is None,
            forall|k: int, l: int|
                0 <= k < l < final(self).free@.len()
                    ==> final(self).free@[k] != final(self).free@[l],
            final(self).slots@.len() == old(self).chain@.len() + final(self).free@.len() + 1,
            final(self).slots@.len() <= usize::MAX,
    {
        match self.free.pop() {
            Some(j) => {
                self.slots[j] = Some(node);
                proof {
                    // a Vec never outgrows usize, which bounds the chain
                    assert(self.slots.len() <= usize::MAX);
                }
                j
            },
            None => {
                let idx = self.slots.len();
                self.slots.push(Some(node));
                proof {
                    // a Vec never outgrows usize, which bounds the chain
                    assert(self.slots.len() <= usize::MAX);
                }
                idx
            },
        }
    }

    /// Appends `value` at the back of the queue.
    pub fn push(&mut self, value: T)
        requires
            old(self).wf(),
        ensures
            final(self).wf(),
            final(self)@ == old(self)@.push(value),
            final(self)@.len() == old(self)@.len() + 1,
    {
        let ghost v0 = self@;
        let node = QueueNode::new(value);
        let idx = self.claim_slot(node);
        let ghost c0 = self.chain@;
        match self.tail {
            None => {
                self.head = Some(idx);
                self.tail = Some(idx);
                self.size = 1;
                self.chain = Ghost(Seq::empty().push(idx));
            },
            Some(t) => {
                let taken = self.slots[t].take();
                let mut back = taken.unwrap();
                back.next = Some(idx);
                self.slots[t] = Some(back);
                self.tail = Some(idx);
                self.size = self.size + 1;
                self.chain = Ghost(c0.push(idx));
            },
        }
        proof {
            assert(self@ =~= v0.push(value));
        }
    }

    /// Removes and returns the front element, or `None` if the queue is
    /// empty.
    pub fn pop(&mut self) -> (r: Option<T>)
        requires
            old(self).wf(),
        ensures
            final(self).wf(),
            match r {
                Some(v) => old(self)@.len() > 0 && v == old(self)@[0] && final(self)@ == old(
                    self,
                )@.drop_first() && final(self)@.len() == old(self)@.len() - 1,
                None => old(self)@.len() == 0 && final(self)@ == old(self)@,
            },
    {
        let ghost v0 = self@;
        let ghost c0 = self.chain@;
        match self.head {
            None => None,
            Some(h) => {
                let taken = self.slots[h].take();
                let node = taken.unwrap();
                self.free.push(h);
                self.size = self.size - 1;
                match node.next {
                    None => {
                        self.head = None;
                        self.tail = None;
                    },
                    Some(nh) => {
                        self.head = Some(nh);
                    },
                }
                self.chain = Ghost(c0.drop_first());
                proof {
                    assert(self@ =~= v0.drop_first());
                }
                Some(node.value)
            },
        }
    }

    /// A read-only view of the front element, or `None` if the queue is
    /// empty. The queue itself is untouched.
    pub fn peek(&self) -> (r: Option<&T>)
        requires
            self.wf(),
        ensures
            match r {
                Some(v) => self@.len() > 0 && *v == self@[0],
                None => self@.len() == 0,
            },
    {
        match self.head {
            None => None,
            Some(h) => match &self.slots[h] {
                Some(node) => Some(&node.value),
                None => unreached(),
            },
        }
    }
}

} // verus!
