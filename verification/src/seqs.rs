//! Lemmas about element-wise views of sequences.
//!
//! `Vec<T>::deep_view()` is `Seq::new(len, |i| v[i].deep_view())`; these
//! lemmas relate that construction to the usual sequence operations.

use vstd::prelude::*;

verus! {

/// The element-wise deep view of a sequence.
pub open spec fn dv_seq<T: DeepView>(s: Seq<T>) -> Seq<T::V> {
    Seq::new(s.len(), |i: int| s[i].deep_view())
}

/// A vector's deep view is the element-wise deep view of its view.
pub proof fn lemma_vec_dv<T: DeepView>(v: Vec<T>)
    ensures
        v.deep_view() =~= dv_seq(v@),
{
}

pub proof fn lemma_dv_push<T: DeepView>(s: Seq<T>, x: T)
    ensures
        dv_seq(s.push(x)) =~= dv_seq(s).push(x.deep_view()),
{
}

pub proof fn lemma_dv_drop_last<T: DeepView>(s: Seq<T>)
    requires
        s.len() > 0,
    ensures
        dv_seq(s.drop_last()) =~= dv_seq(s).drop_last(),
{
}

pub proof fn lemma_dv_insert<T: DeepView>(s: Seq<T>, i: int, x: T)
    requires
        0 <= i <= s.len(),
    ensures
        dv_seq(s.insert(i, x)) =~= dv_seq(s).insert(i, x.deep_view()),
{
}

/// Membership in a pushed sequence: the old members plus the new one.
pub proof fn lemma_push_contains<A>(s: Seq<A>, x: A, y: A)
    ensures
        s.push(x).contains(y) <==> (s.contains(y) || y == x),
{
    if s.contains(y) {
        let k = choose|k: int| 0 <= k < s.len() && s[k] == y;
        assert(s.push(x)[k] == y);
    }
    if y == x {
        assert(s.push(x)[s.len() as int] == y);
    }
    if s.push(x).contains(y) && y != x {
        let k = choose|k: int| 0 <= k < s.push(x).len() && s.push(x)[k] == y;
        assert(s[k] == y);
    }
}

} // verus!
