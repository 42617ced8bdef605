//! Laws relating the operations, stated over the abstract view.

use vstd::prelude::*;

verus! {

/// The view a list has after appending the values of `vs`, in order,
/// onto an empty list: each append pushes one value onto the view.
pub open spec fn appended<T>(vs: Seq<T>) -> Seq<T>
    decreases vs.len(),
{
    if vs.len() == 0 {
        Seq::empty()
    } else {
        appended(vs.drop_last()).push(vs.last())
    }
}

/// Appending v0 ... v(n-1) onto an empty list yields length n with the
/// value vi at every position i.
pub proof fn lemma_build_by_appends<T>(vs: Seq<T>)
    ensures
        appended(vs) == vs,
        appended(vs).len() == vs.len(),
        forall|i: int| 0 <= i < vs.len() ==> appended(vs)[i] == vs[i],
    decreases vs.len(),
{
    if vs.len() == 0 {
        assert(appended(vs) =~= vs);
    } else {
        lemma_build_by_appends(vs.drop_last());
        assert(appended(vs) =~= vs);
    }
}

/// The sequence of values yielded by repeatedly popping a list whose
/// view is `s` until it is empty: each pop removes and yields the
/// current last element.
pub open spec fn drained<T>(s: Seq<T>) -> Seq<T>
    decreases s.len(),
{
    if s.len() == 0 {
        Seq::empty()
    } else {
        seq![s.last()] + drained(s.drop_last())
    }
}

/// Draining a list by repeated pops yields its contents in reverse
/// order.
pub proof fn lemma_drain_reverses<T>(s: Seq<T>)
    ensures
        drained(s) == s.reverse(),
    decreases s.len(),
{
    if s.len() == 0 {
        assert(drained(s) =~= s.reverse());
    } else {
        lemma_drain_reverses(s.drop_last());
        assert(drained(s) =~= s.reverse());
    }
}

/// Round trip: build a list by appending the values of `vs` in order,
/// then drain it by repeated pops; the popped values come out in the
/// reverse of the append order.
pub proof fn lemma_round_trip<T>(vs: Seq<T>)
    ensures
        drained(appended(vs)) == vs.reverse(),
{
    lemma_build_by_appends(vs);
    lemma_drain_reverses(vs);
}

/// Inserting at position `len` is exactly an append: both yield the
/// same view.
pub proof fn lemma_insert_at_len_is_append<T>(s: Seq<T>, v: T)
    ensures
        s.insert(s.len() as int, v) == s.push(v),
{
    assert(s.insert(s.len() as int, v) =~= s.push(v));
}

} // verus!
