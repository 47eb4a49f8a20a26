//! Round-trip laws for sequences of endpoint operations.
//!
//! Every push and pop contract in this crate describes one step over the
//! container's view: `Queue::push` and `Deque::push_back` append an element,
//! `Deque::push_front` prepends one, and `Queue::pop` and `Deque::pop_front`
//! return the first element and leave the rest. The spec functions here
//! compose such steps over a whole sequence of values, and the proof
//! functions state what any run of pushes followed by a run of pops yields.

use vstd::prelude::*;

verus! {

/// The view of a container after every element of `xs`, in order, has been
/// pushed at the back of a container whose view was `s`: the step taken by
/// `Queue::push` and `Deque::push_back`.
pub open spec fn pushed_back_all<T>(s: Seq<T>, xs: Seq<T>) -> Seq<T>
    decreases xs.len(),
{
    if xs.len() == 0 {
        s
    } else {
        pushed_back_all(s.push(xs[0]), xs.drop_first())
    }
}

/// The view of a container after every element of `xs`, in order, has been
/// pushed at the front of a container whose view was `s`: the step taken by
/// `Deque::push_front`.
pub open spec fn pushed_front_all<T>(s: Seq<T>, xs: Seq<T>) -> Seq<T>
    decreases xs.len(),
{
    if xs.len() == 0 {
        s
    } else {
        pushed_front_all(seq![xs[0]] + s, xs.drop_first())
    }
}

/// The values returned by popping a container of view `s` at the front until
/// it is empty, in order: each pop returns the first element of the view and
/// leaves the rest, the step taken by `Queue::pop` and `Deque::pop_front`,
/// and the container that remains has the empty view.
pub open spec fn drained_front<T>(s: Seq<T>) -> Seq<T>
    decreases s.len(),
{
    if s.len() == 0 {
        Seq::empty()
    } else {
        seq![s[0]] + drained_front(s.drop_first())
    }
}

/// Law: pushing every element of `xs` at the back appends `xs` to the view.
pub proof fn lemma_pushed_back_all<T>(s: Seq<T>, xs: Seq<T>)
    ensures
        pushed_back_all(s, xs) == s + xs,
    decreases xs.len(),
{
    if xs.len() == 0 {
        assert(pushed_back_all(s, xs) =~= s + xs);
    } else {
        lemma_pushed_back_all(s.push(xs[0]), xs.drop_first());
        assert(s.push(xs[0]) + xs.drop_first() =~= s + xs);
    }
}

/// Law: pushing every element of `xs` at the front prepends `xs` reversed to
/// the view.
pub proof fn lemma_pushed_front_all<T>(s: Seq<T>, xs: Seq<T>)
    ensures
        pushed_front_all(s, xs) == xs.reverse() + s,
    decreases xs.len(),
{
    if xs.len() == 0 {
        assert(pushed_front_all(s, xs) =~= xs.reverse() + s);
    } else {
        lemma_pushed_front_all(seq![xs[0]] + s, xs.drop_first());
        assert(xs.drop_first().reverse() + (seq![xs[0]] + s) =~= xs.reverse() + s);
    }
}

/// Law: popping at the front until empty returns exactly the view, in order.
pub proof fn lemma_drained_front<T>(s: Seq<T>)
    ensures
        drained_front(s) == s,
    decreases s.len(),
{
    if s.len() == 0 {
        assert(drained_front(s) =~= s);
    } else {
        lemma_drained_front(s.drop_first());
        assert(seq![s[0]] + s.drop_first() =~= s);
    }
}

/// Round-trip law, first-in first-out pairings: pushing the elements of `xs`
/// at the back of an empty container and then popping at the front until
/// empty yields `xs` in push order. This is the `push`/`pop` pairing of
/// `Queue` and the `push_back`/`pop_front` pairing of `Deque`.
pub proof fn lemma_round_trip_fifo<T>(xs: Seq<T>)
    ensures
        drained_front(pushed_back_all(Seq::empty(), xs)) == xs,
{
    lemma_pushed_back_all(Seq::empty(), xs);
    assert(Seq::empty() + xs =~= xs);
    lemma_drained_front(xs);
}

/// Round-trip law, last-in first-out pairing: pushing the elements of `xs`
/// at the front of an empty container and then popping at the front until
/// empty yields `xs` in reverse push order. This is the
/// `push_front`/`pop_front` pairing of `Deque`.
pub proof fn lemma_round_trip_lifo<T>(xs: Seq<T>)
    ensures
        drained_front(pushed_front_all(Seq::empty(), xs)) == xs.reverse(),
{
    lemma_pushed_front_all(Seq::empty(), xs);
    assert(xs.reverse() + Seq::empty() =~= xs.reverse());
    lemma_drained_front(xs.reverse());
}

} // verus!
