//! The mathematical view of a sequence of values that have views of their own.

use vstd::prelude::*;

verus! {

/// The views of the elements of `s`, in order.
pub open spec fn deep<T: DeepView>(s: Seq<T>) -> Seq<T::V> {
    Seq::new(s.len(), |i: int| s[i].deep_view())
}

pub broadcast proof fn lemma_deep_empty<T: DeepView>()
    ensures
        #[trigger] deep::<T>(Seq::empty()) == Seq::<T::V>::empty(),
{
    assert(deep::<T>(Seq::empty()) =~= Seq::<T::V>::empty());
}

pub broadcast proof fn lemma_deep_push<T: DeepView>(s: Seq<T>, x: T)
    ensures
        #[trigger] deep(s.push(x)) == deep(s).push(x.deep_view()),
{
    assert(deep(s.push(x)) =~= deep(s).push(x.deep_view()));
}

pub broadcast proof fn lemma_deep_add<T: DeepView>(s: Seq<T>, t: Seq<T>)
    ensures
        #[trigger] deep(s + t) == deep(s) + deep(t),
{
    assert(deep(s + t) =~= deep(s) + deep(t));
}

pub broadcast proof fn lemma_deep_subrange<T: DeepView>(s: Seq<T>, i: int, j: int)
    requires
        0 <= i <= j <= s.len(),
    ensures
        #[trigger] deep(s.subrange(i, j)) == deep(s).subrange(i, j),
{
    assert(deep(s.subrange(i, j)) =~= deep(s).subrange(i, j));
}

pub broadcast proof fn lemma_deep_update<T: DeepView>(s: Seq<T>, i: int, x: T)
    requires
        0 <= i < s.len(),
    ensures
        #[trigger] deep(s.update(i, x)) == deep(s).update(i, x.deep_view()),
{
    assert(deep(s.update(i, x)) =~= deep(s).update(i, x.deep_view()));
}

pub broadcast proof fn lemma_deep_insert<T: DeepView>(s: Seq<T>, i: int, x: T)
    requires
        0 <= i <= s.len(),
    ensures
        #[trigger] deep(s.insert(i, x)) == deep(s).insert(i, x.deep_view()),
{
    assert(deep(s.insert(i, x)) =~= deep(s).insert(i, x.deep_view()));
}

pub broadcast group group_deep {
    lemma_deep_empty,
    lemma_deep_push,
    lemma_deep_add,
    lemma_deep_subrange,
    lemma_deep_update,
    lemma_deep_insert,
}

} // verus!
