//! Draws from the thread-local generator of `rand`.

use vstd::prelude::*;
use rand::seq::SliceRandom;
use rand::Rng;

verus! {

/// Relies on `rand::Rng::gen_range` over an inclusive range on the thread-local
/// generator: the value lies in `[min, max]`; the call panics on an empty range.
#[verifier::external_body]
pub fn random_int(min: i32, max: i32) -> (r: i32)
    requires
        min <= max,
    ensures
        min <= r <= max,
{
    rand::thread_rng().gen_range(min..=max)
}

/// Relies on `rand::seq::SliceRandom::shuffle` on the thread-local generator:
/// it only swaps elements, so the slice keeps the same elements.
#[verifier::external_body]
pub(crate) fn shuffle_in_place(v: &mut Vec<usize>)
    ensures
        final(v)@.to_multiset() == old(v)@.to_multiset(),
{
    v.shuffle(&mut rand::thread_rng());
}

/// A rearrangement of a sequence without repeats has no repeats either, and
/// draws every element from the first one.
pub proof fn lemma_rearranged_distinct<A>(before: Seq<A>, after: Seq<A>)
    requires
        before.no_duplicates(),
        after.to_multiset() == before.to_multiset(),
    ensures
        after.no_duplicates(),
        after.len() == before.len(),
        forall|i: int| 0 <= i < after.len() ==> before.contains(#[trigger] after[i]),
{
    broadcast use vstd::seq_lib::group_to_multiset_ensures;

    before.lemma_multiset_has_no_duplicates();
    assert forall|x: A| after.to_multiset().contains(x) implies after.to_multiset().count(x)
        == 1 by {
        assert(before.to_multiset().contains(x));
    }
    after.lemma_multiset_has_no_duplicates_conv();
    assert(after.len() == after.to_multiset().len());
    assert(before.len() == before.to_multiset().len());
    assert forall|i: int| 0 <= i < after.len() implies before.contains(#[trigger] after[i]) by {
        let x = after[i];
        assert(after.contains(x));
        assert(after.to_multiset().count(x) > 0);
        assert(before.to_multiset().count(x) > 0);
    }
}

} // verus!
