use vstd::prelude::*;

verus! {

/// How a vector's deep view changes when an element is pushed.
pub proof fn lemma_deep_view_push<T: DeepView>(v1: Vec<T>, v2: Vec<T>, e: T)
    requires
        v2@ == v1@.push(e),
    ensures
        v2.deep_view() == v1.deep_view().push(e.deep_view()),
{
    assert forall|k: int| 0 <= k < v2@.len() implies v2.deep_view()[k] == v1.deep_view().push(
        e.deep_view(),
    )[k] by {
        if k < v1@.len() {
            assert(v2@[k] == v1@[k]);
        } else {
            assert(v2@[k] == e);
        }
    }
    assert(v2.deep_view() =~= v1.deep_view().push(e.deep_view()));
}

/// How a vector's deep view changes when one element is overwritten.
pub proof fn lemma_deep_view_set<T: DeepView>(v1: Vec<T>, v2: Vec<T>, i: int, e: T)
    requires
        0 <= i < v1@.len(),
        v2@ == v1@.update(i, e),
    ensures
        v2.deep_view() == v1.deep_view().update(i, e.deep_view()),
{
    assert forall|k: int| 0 <= k < v2@.len() implies v2.deep_view()[k] == v1.deep_view().update(
        i,
        e.deep_view(),
    )[k] by {
        if k != i {
            assert(v2@[k] == v1@[k]);
        } else {
            assert(v2@[k] == e);
        }
    }
    assert(v2.deep_view() =~= v1.deep_view().update(i, e.deep_view()));
}

/// How a vector's deep view changes when one element is taken out.
pub proof fn lemma_deep_view_remove<T: DeepView>(v1: Vec<T>, v2: Vec<T>, i: int)
    requires
        0 <= i < v1@.len(),
        v2@ == v1@.remove(i),
    ensures
        v2.deep_view() == v1.deep_view().remove(i),
{
    v1@.remove_ensures(i);
    v1.deep_view().remove_ensures(i);
    assert forall|k: int| 0 <= k < v2@.len() implies v2.deep_view()[k] == v1.deep_view().remove(
        i,
    )[k] by {
        if k < i {
            assert(v2@[k] == v1@[k]);
        } else {
            assert(v2@[k] == v1@[k + 1]);
        }
    }
    assert(v2.deep_view() =~= v1.deep_view().remove(i));
}

} // verus!
