//! Views of optional values and of sequences, shared by the data types.

use vstd::prelude::*;

verus! {

/// The view of an optional value.
pub open spec fn view_opt<T: View>(value: Option<T>) -> Option<T::V> {
    match value {
        Some(inner) => Some(inner@),
        None => None,
    }
}

/// The views of the elements of a sequence.
pub open spec fn view_seq<T: View>(values: Seq<T>) -> Seq<T::V> {
    values.map_values(|value: T| value@)
}

/// Sequences whose elements have the same views have the same view.
pub proof fn lemma_view_seq_eq<T: View>(a: Seq<T>, b: Seq<T>)
    requires
        a.len() == b.len(),
        forall|i: int| 0 <= i < a.len() ==> a[i]@ == b[i]@,
    ensures
        view_seq(a) == view_seq(b),
{
    assert(view_seq(a) =~= view_seq(b));
}

/// The view of a concatenation is the concatenation of the views.
pub proof fn lemma_view_seq_add<T: View>(a: Seq<T>, b: Seq<T>)
    ensures
        view_seq(a + b) == view_seq(a) + view_seq(b),
{
    assert(view_seq(a + b) =~= view_seq(a) + view_seq(b));
}

/// The view of a sequence with one more element.
pub proof fn lemma_view_seq_push<T: View>(a: Seq<T>, x: T)
    ensures
        view_seq(a.push(x)) == view_seq(a).push(x@),
{
    assert(view_seq(a.push(x)) =~= view_seq(a).push(x@));
}

/// A copy of optional text.
pub fn clone_opt_string(value: &Option<String>) -> (out: Option<String>)
    ensures
        view_opt(out) == view_opt(*value),
{
    match value {
        Some(text) => Some(text.clone()),
        None => None,
    }
}

/// A copy of a list of texts.
pub fn clone_strings(values: &Vec<String>) -> (out: Vec<String>)
    ensures
        view_seq(out@) == view_seq(values@),
{
    let out = values.clone();
    proof {
        lemma_view_seq_eq(out@, values@);
    }
    out
}

} // verus!
