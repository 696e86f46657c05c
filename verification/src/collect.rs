//! Collecting results: all values, or the first error.
use vstd::prelude::*;

use crate::error::ErrorView;

verus! {

/// The values of `outcomes` in order, or the error of the first outcome that is one.
pub open spec fn collected<T>(outcomes: Seq<Result<T, ErrorView>>) -> Result<Seq<T>, ErrorView>
    decreases outcomes.len(),
{
    if outcomes.len() == 0 {
        Ok(Seq::empty())
    } else {
        match collected(outcomes.drop_last()) {
            Err(error) => Err(error),
            Ok(values) => match outcomes.last() {
                Err(error) => Err(error),
                Ok(value) => Ok(values.push(value)),
            },
        }
    }
}

/// An error among the first outcomes is the error of all of them.
pub proof fn lemma_collected_error<T>(outcomes: Seq<Result<T, ErrorView>>, end: int)
    requires
        0 <= end <= outcomes.len(),
        collected(outcomes.take(end)) is Err,
    ensures
        collected(outcomes) == collected(outcomes.take(end)),
    decreases outcomes.len(),
{
    if end < outcomes.len() {
        assert(outcomes.drop_last().take(end) == outcomes.take(end));
        lemma_collected_error(outcomes.drop_last(), end);
    } else {
        assert(outcomes.take(end) == outcomes);
    }
}

/// One outcome more.
pub proof fn lemma_collected_next<T>(outcomes: Seq<Result<T, ErrorView>>, end: int)
    requires
        0 <= end < outcomes.len(),
    ensures
        collected(outcomes.take(end + 1)) == match collected(outcomes.take(end)) {
            Err(error) => Err(error),
            Ok(values) => match outcomes[end] {
                Err(error) => Err(error),
                Ok(value) => Ok(values.push(value)),
            },
        },
{
    assert(outcomes.take(end + 1).drop_last() == outcomes.take(end));
}

/// Collecting gives values exactly where every outcome is one, and then gives each in its place.
pub proof fn lemma_collected_values<T>(outcomes: Seq<Result<T, ErrorView>>)
    ensures
        collected(outcomes) is Ok <==> forall|i: int|
            0 <= i < outcomes.len() ==> (#[trigger] outcomes[i]) is Ok,
        collected(outcomes) matches Ok(values) ==> {
            &&& values.len() == outcomes.len()
            &&& forall|i: int|
                0 <= i < outcomes.len() ==> #[trigger] outcomes[i] == Ok::<T, ErrorView>(values[i])
        },
    decreases outcomes.len(),
{
    if outcomes.len() > 0 {
        let before = outcomes.drop_last();
        lemma_collected_values(before);
        assert(forall|i: int| 0 <= i < before.len() ==> outcomes[i] == before[i]);
        if collected(outcomes) is Ok {
            assert forall|i: int| 0 <= i < outcomes.len() implies (#[trigger] outcomes[i]) is Ok by {
                if i < before.len() {
                    assert(before[i] is Ok);
                }
            }
        } else if collected(before) is Err {
            let i = choose|i: int| 0 <= i < before.len() && !((#[trigger] before[i]) is Ok);
            assert(outcomes[i] == before[i]);
        }
    }
}

/// The error that collecting gives is that of the first outcome that is no value.
pub proof fn lemma_collected_first_error<T>(outcomes: Seq<Result<T, ErrorView>>, i: int)
    requires
        0 <= i < outcomes.len(),
        outcomes[i] is Err,
        forall|j: int| 0 <= j < i ==> (#[trigger] outcomes[j]) is Ok,
    ensures
        collected(outcomes) == Err::<Seq<T>, ErrorView>(outcomes[i]->Err_0),
{
    let before = outcomes.take(i);
    lemma_collected_values(before);
    assert(forall|j: int| 0 <= j < i ==> before[j] == outcomes[j]);
    lemma_collected_next(outcomes, i);
    lemma_collected_error(outcomes, i + 1);
}

} // verus!
