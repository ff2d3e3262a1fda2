//! Small facts about sequences and deep views that several modules share.

use vstd::prelude::*;

verus! {

/// Filtering a sequence extended by one element keeps the filtered prefix
/// and appends the element exactly when it passes.
pub(crate) proof fn lemma_filter_push<A>(s: Seq<A>, x: A, pred: spec_fn(A) -> bool)
    ensures
        s.push(x).filter(pred) == if pred(x) {
            s.filter(pred).push(x)
        } else {
            s.filter(pred)
        },
{
    reveal(Seq::filter);
    assert(s.push(x).drop_last() =~= s);
    assert(s.push(x).last() == x);
}

/// Every element of a filtered sequence passes the filter, so filtering it
/// again changes nothing.
pub(crate) proof fn lemma_filter_all_pass<A>(s: Seq<A>, pred: spec_fn(A) -> bool)
    requires
        forall|i: int| 0 <= i < s.len() ==> pred(#[trigger] s[i]),
    ensures
        s.filter(pred) == s,
    decreases s.len(),
{
    reveal(Seq::filter);
    if s.len() > 0 {
        lemma_filter_all_pass(s.drop_last(), pred);
        assert(s.drop_last().push(s.last()) =~= s);
    }
}

/// Mapping over a sequence extended by one element appends the image of
/// that element.
pub(crate) proof fn lemma_map_values_push<A, B>(s: Seq<A>, x: A, f: spec_fn(A) -> B)
    ensures
        s.push(x).map_values(f) == s.map_values(f).push(f(x)),
{
    assert(s.push(x).map_values(f) =~= s.map_values(f).push(f(x)));
}

/// Pushing one string onto a vector appends its character sequence to the
/// vector's deep view.
pub(crate) proof fn lemma_deep_view_after_push(
    prev: Seq<String>,
    prev_deep: Seq<Seq<char>>,
    after: &Vec<String>,
)
    requires
        prev.len() + 1 == after@.len(),
        after@ == prev.push(after@.last()),
        prev_deep.len() == prev.len(),
        forall|k: int| 0 <= k < prev.len() ==> prev_deep[k] == #[trigger] prev[k]@,
    ensures
        after.deep_view() == prev_deep.push(after@.last()@),
{
    let target = prev_deep.push(after@.last()@);
    assert forall|k: int| 0 <= k < after@.len() implies after.deep_view()[k] == target[k] by {
        assert(after.deep_view()[k] == after@[k]@);
        if k < prev.len() {
            assert(after@[k] == prev[k]);
            assert(target[k] == prev_deep[k]);
            assert(prev_deep[k] == prev[k]@);
        }
    }
    assert(after.deep_view() =~= target);
}

} // verus!
