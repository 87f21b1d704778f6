//! Sorting assertions by stride, first step and register.

use vstd::prelude::*;
use crate::assertions::ordering::{
    equivalent, precedes, lemma_precedes_total, lemma_precedes_transitive,
};
use crate::assertions::{Assertion, AssertionView};
use crate::field::traits::StarkField;

verus! {

/// What a sequence of assertions states, one after the other.
pub open spec fn views<B: StarkField>(s: Seq<Assertion<B>>) -> Seq<AssertionView<B>> {
    Seq::new(s.len(), |i: int| s[i]@)
}

/// Whether each assertion precedes, or compares equal to, all that follow it.
pub open spec fn is_sorted<B>(s: Seq<AssertionView<B>>) -> bool {
    forall|i: int, j: int| 0 <= i < j < s.len() ==> precedes(#[trigger] s[i], #[trigger] s[j])
}

/// Whether `output` holds the assertions of `input`, each once, the `i`-th of
/// `output` being the one at the place `places[i]` of `input`, with those that
/// compare equal in the order they have in `input`.
pub open spec fn is_stable_rearrangement<B>(
    input: Seq<AssertionView<B>>,
    output: Seq<AssertionView<B>>,
    places: Seq<int>,
) -> bool {
    &&& places.len() == output.len()
    &&& input.len() == output.len()
    &&& forall|i: int|
        0 <= i < output.len() ==> 0 <= #[trigger] places[i] < input.len() && output[i]
            == input[places[i]]
    &&& forall|i: int, j: int|
        0 <= i < j < output.len() ==> #[trigger] places[i] != #[trigger] places[j]
    &&& forall|i: int, j: int|
        0 <= i < j < output.len() && equivalent(output[i], output[j]) ==> #[trigger] places[i]
            < #[trigger] places[j]
}

/// The assertions in ascending order of stride, then first step, then register;
/// those that compare equal stay in the order in which they were given.
pub fn sort<B: StarkField>(assertions: &[Assertion<B>]) -> (r: Vec<Assertion<B>>)
    ensures
        is_sorted(views(r@)),
        exists|places: Seq<int>| is_stable_rearrangement(views(assertions@), views(r@), places),
{
    let mut result: Vec<Assertion<B>> = Vec::new();
    let ghost mut places: Seq<int> = Seq::empty();
    let ghost input = views(assertions@);
    let mut k: usize = 0;
    while k < assertions.len()
        invariant
            k <= assertions@.len(),
            input == views(assertions@),
            result@.len() == k,
            places.len() == k,
            is_sorted(views(result@)),
            forall|i: int|
                0 <= i < k ==> 0 <= #[trigger] places[i] < k && views(result@)[i]
                    == input[places[i]],
            forall|i: int, j: int| 0 <= i < j < k ==> #[trigger] places[i] != #[trigger] places[j],
            forall|i: int, j: int|
                0 <= i < j < k && equivalent(views(result@)[i], views(result@)[j])
                    ==> #[trigger] places[i] < #[trigger] places[j],
        decreases assertions@.len() - k,
    {
        let item = assertions[k].clone();
        // the place of the item: behind the last that does not come after it
        let mut at: usize = result.len();
        while at > 0 && result[at - 1].comes_after(&item)
            invariant
                at <= result@.len(),
                forall|j: int| at <= j < result@.len() ==> !precedes(#[trigger] result@[j]@, item@),
            decreases at,
        {
            at = at - 1;
        }
        let ghost before = views(result@);
        let ghost old_places = places;
        proof {
            // all that stand before the place precede the item
            assert forall|i: int| 0 <= i < at implies precedes(#[trigger] before[i], item@) by {
                if i < at - 1 {
                    assert(precedes(before[i], before[at - 1]));
                    lemma_precedes_transitive(before[i], before[at - 1], item@);
                }
            }
            assert forall|j: int| at <= j < before.len() implies precedes(
                item@,
                #[trigger] before[j],
            ) && !equivalent(item@, before[j]) by {
                lemma_precedes_total(before[j], item@);
            }
            places = places.insert(at as int, k as int);
        }
        result.insert(at, item);
        proof {
            let after = views(result@);
            assert(after =~= before.insert(at as int, item@));
            assert forall|i: int, j: int| 0 <= i < j < after.len() implies precedes(
                #[trigger] after[i],
                #[trigger] after[j],
            ) by {
                let bi = if i < at { i } else { i - 1 };
                let bj = if j < at { j } else { j - 1 };
                if i != at && j != at {
                    assert(precedes(before[bi], before[bj]));
                }
            }
            assert forall|i: int| 0 <= i < k + 1 implies 0 <= #[trigger] places[i] < k + 1 && after[i]
                == input[places[i]] by {
                let bi = if i < at { i } else { i - 1 };
                if i != at {
                    assert(places[i] == old_places[bi]);
                    assert(before[bi] == input[old_places[bi]]);
                }
            }
            assert forall|i: int, j: int| 0 <= i < j < k + 1 implies #[trigger] places[i]
                != #[trigger] places[j] && (equivalent(after[i], after[j]) ==> places[i] < places[j]) by {
                let bi = if i < at { i } else { i - 1 };
                let bj = if j < at { j } else { j - 1 };
                if i != at && j != at {
                    assert(old_places[bi] != old_places[bj]);
                    assert(equivalent(before[bi], before[bj]) ==> old_places[bi] < old_places[bj]);
                } else if i == at {
                    assert(0 <= old_places[bj] < k);
                    assert(!equivalent(item@, before[bj]));
                } else {
                    assert(0 <= old_places[bi] < k);
                }
            }
        }
        k = k + 1;
    }
    proof {
        assert(is_stable_rearrangement(views(assertions@), views(result@), places));
    }
    result
}

} // verus!
