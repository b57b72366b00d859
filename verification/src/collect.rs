//! Views of sequences and of results, and the fail-fast collection of a
//! sequence of results.

use vstd::prelude::*;

verus! {

/// The views of the values of `items`, in order.
pub open spec fn views<T: View>(items: Seq<T>) -> Seq<T::V> {
    Seq::new(items.len(), |i: int| items[i]@)
}

/// The view of what is inside a result.
pub open spec fn result_view<T: View, E>(r: Result<T, E>) -> Result<T::V, E> {
    match r {
        Ok(v) => Ok(v@),
        Err(e) => Err(e),
    }
}

/// The views of the values inside a result.
pub open spec fn result_views<T: View, E>(r: Result<Vec<T>, E>) -> Result<Seq<T::V>, E> {
    match r {
        Ok(v) => Ok(views(v@)),
        Err(e) => Err(e),
    }
}

/// All the values in order where every result is `Ok`; else the error that
/// comes first.
pub open spec fn collect<T, E>(results: Seq<Result<T, E>>) -> Result<Seq<T>, E>
    decreases results.len(),
{
    if results.len() == 0 {
        Ok(Seq::empty())
    } else {
        match collect(results.drop_last()) {
            Err(e) => Err(e),
            Ok(values) => match results.last() {
                Err(e) => Err(e),
                Ok(v) => Ok(values.push(v)),
            },
        }
    }
}

/// Collecting one result more.
pub proof fn lemma_collect_step<T, E>(results: Seq<Result<T, E>>, i: int)
    requires
        0 <= i < results.len(),
    ensures
        collect(results.take(i + 1)) == match collect(results.take(i)) {
            Err(e) => Err(e),
            Ok(values) => match results[i] {
                Err(e) => Err(e),
                Ok(v) => Ok(values.push(v)),
            },
        },
{
    assert(results.take(i + 1).drop_last() =~= results.take(i));
}

/// An error among the first `i` results is the error of the whole.
pub proof fn lemma_collect_prefix_err<T, E>(results: Seq<Result<T, E>>, i: int)
    requires
        0 <= i <= results.len(),
        collect(results.take(i)) is Err,
    ensures
        collect(results) == collect(results.take(i)),
    decreases results.len() - i,
{
    if i < results.len() {
        lemma_collect_step(results, i);
        lemma_collect_prefix_err(results, i + 1);
    } else {
        assert(results.take(i) =~= results);
    }
}

/// What was collected has one value for each result, in order.
pub proof fn lemma_collect_ok<T, E>(results: Seq<Result<T, E>>)
    ensures
        collect(results) matches Ok(values) ==> values.len() == results.len() && forall|i: int|
            0 <= i < results.len() ==> results[i] == Ok::<T, E>(#[trigger] values[i]),
        collect(results) is Ok <==> forall|i: int|
            0 <= i < results.len() ==> (#[trigger] results[i]) is Ok,
    decreases results.len(),
{
    if results.len() > 0 {
        lemma_collect_ok(results.drop_last());
        if collect(results.drop_last()) is Ok && results.last() is Ok {
            let values = collect(results)->Ok_0;
            assert forall|i: int| 0 <= i < results.len() implies results[i] == Ok::<T, E>(
                #[trigger] values[i],
            ) by {
                if i < results.len() - 1 {
                    assert(results.drop_last()[i] == results[i]);
                }
            }
            assert forall|i: int| 0 <= i < results.len() implies (#[trigger] results[i]) is Ok by {
                if i < results.len() - 1 {
                    assert(results.drop_last()[i] == results[i]);
                }
            }
        } else if collect(results.drop_last()) is Err {
            let j = choose|j: int|
                0 <= j < results.drop_last().len() && !((#[trigger] results.drop_last()[j]) is Ok);
            assert(results[j] == results.drop_last()[j]);
        }
    }
}

/// The error of a collection is that of the first result that is one.
pub proof fn lemma_collect_err<T, E>(results: Seq<Result<T, E>>, i: int)
    requires
        0 <= i < results.len(),
        results[i] is Err,
        forall|j: int| 0 <= j < i ==> (#[trigger] results[j]) is Ok,
    ensures
        collect(results) == Err::<Seq<T>, E>(results[i]->Err_0),
{
    lemma_collect_ok(results.take(i));
    assert forall|j: int| 0 <= j < i implies (#[trigger] results.take(i)[j]) is Ok by {
        assert(results.take(i)[j] == results[j]);
    }
    lemma_collect_step(results, i);
    lemma_collect_prefix_err(results, i + 1);
}

} // verus!
