use vstd::prelude::*;

verus! {

/// `i` is the first index, counting from 0, at which `p` holds.
pub open spec fn is_first(p: spec_fn(int) -> bool, i: int) -> bool {
    &&& 0 <= i
    &&& p(i)
    &&& forall|j: int| 0 <= j < i ==> !#[trigger] p(j)
}

/// There is at most one first index at which a predicate holds.
pub proof fn lemma_first_is_unique(p: spec_fn(int) -> bool, i: int, k: int)
    requires
        is_first(p, i),
        is_first(p, k),
    ensures
        i == k,
{
    if i < k {
        assert(!p(i));
    }
    if k < i {
        assert(!p(k));
    }
}

} // verus!
