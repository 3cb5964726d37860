//! Vectors and options seen as sequences and options of models.
//!
//! A value of the library is modelled by its `deep_view`: strings become
//! sequences of characters, vectors become sequences of models.

use vstd::prelude::*;

verus! {

/// An empty vector.
pub fn no_items<T: DeepView>() -> (v: Vec<T>)
    ensures
        v.deep_view() == Seq::<T::V>::empty(),
{
    let v: Vec<T> = Vec::new();
    assert(v.deep_view() =~= Seq::<T::V>::empty());
    v
}

/// Appends `x` to `v`.
pub fn put<T: DeepView>(v: &mut Vec<T>, x: T)
    ensures
        final(v).deep_view() == old(v).deep_view().push(x.deep_view()),
{
    v.push(x);
    assert(v.deep_view() =~= old(v).deep_view().push(x.deep_view()));
}

/// The vector that holds `x` alone.
pub fn one_item<T: DeepView>(x: T) -> (v: Vec<T>)
    ensures
        v.deep_view() == seq![x.deep_view()],
{
    let mut v: Vec<T> = Vec::new();
    v.push(x);
    assert(v.deep_view() =~= seq![x.deep_view()]);
    v
}

/// Moves the items of `more` to the end of `v`.
pub fn put_all<T: DeepView>(v: &mut Vec<T>, more: Vec<T>)
    ensures
        final(v).deep_view() == old(v).deep_view() + more.deep_view(),
{
    let mut more = more;
    let ghost tail = more;
    v.append(&mut more);
    assert(v.deep_view() =~= old(v).deep_view() + tail.deep_view());
}

/// Puts `x` at position `i` and moves what stood there and behind it one place on.
pub fn put_at<T: DeepView>(v: &mut Vec<T>, i: usize, x: T)
    requires
        i <= old(v)@.len(),
    ensures
        final(v).deep_view() == old(v).deep_view().insert(i as int, x.deep_view()),
{
    v.insert(i, x);
    assert(v.deep_view() =~= old(v).deep_view().insert(i as int, x.deep_view()));
}

/// The model of an optional index.
pub open spec fn index_m(o: Option<usize>) -> Option<int> {
    match o {
        Some(n) => Some(n as int),
        None => None,
    }
}

} // verus!
