//! Small helpers relating a vector's deep view to the deep views of its
//! elements, used by loop proofs that accumulate output vectors.

use vstd::prelude::*;

verus! {

/// The sequence of element deep views of a sequence of values.
pub open spec fn dv_seq<T: DeepView>(s: Seq<T>) -> Seq<T::V> {
    Seq::new(s.len(), |i: int| s[i].deep_view())
}

/// A vector's deep view is the sequence of its elements' deep views.
pub broadcast proof fn lemma_vec_dv<T: DeepView>(v: &Vec<T>)
    ensures
        #[trigger] v.deep_view() == dv_seq(v@),
{
    assert(v.deep_view() =~= dv_seq(v@));
}

/// Deep views distribute over push.
pub broadcast proof fn lemma_dv_push<T: DeepView>(s: Seq<T>, x: T)
    ensures
        #[trigger] dv_seq(s.push(x)) == dv_seq(s).push(x.deep_view()),
{
    assert(dv_seq(s.push(x)) =~= dv_seq(s).push(x.deep_view()));
}

/// Deep views distribute over update.
pub broadcast proof fn lemma_dv_update<T: DeepView>(s: Seq<T>, k: int, x: T)
    requires
        0 <= k < s.len(),
    ensures
        #[trigger] dv_seq(s.update(k, x)) == dv_seq(s).update(k, x.deep_view()),
{
    assert(dv_seq(s.update(k, x)) =~= dv_seq(s).update(k, x.deep_view()));
}

} // verus!
