//! Collecting the outcomes of many tasks that ran side by side.

use vstd::prelude::*;

verus! {

/// The values of the outcomes that are successes, in the order of the
/// outcomes.
pub open spec fn spec_successes<T, E>(outcomes: Seq<Result<T, E>>) -> Seq<T>
    decreases outcomes.len(),
{
    if outcomes.len() == 0 {
        Seq::empty()
    } else {
        let before = spec_successes(outcomes.drop_last());
        match outcomes.last() {
            Ok(v) => before.push(v),
            Err(_) => before,
        }
    }
}

/// Keeps the successes among the outcomes and drops the failures: one task
/// that failed does not make the whole enumeration fail.
pub fn successes<T, E>(outcomes: Vec<Result<T, E>>) -> (r: Vec<T>)
    ensures
        r@ == spec_successes(outcomes@),
{
    let mut outcomes = outcomes;
    let ghost all = outcomes@;
    let mut reversed: Vec<T> = Vec::new();
    while outcomes.len() > 0
        invariant
            outcomes@ == all.take(outcomes@.len() as int),
            outcomes@.len() <= all.len(),
            spec_successes(all) == spec_successes(outcomes@) + reversed@.reverse(),
        decreases outcomes@.len(),
    {
        let ghost n = outcomes@.len() as int;
        let ghost rest = reversed@;
        let ghost shorter = all.take(n);
        assert(shorter.drop_last() =~= all.take(n - 1));
        match outcomes.pop().unwrap() {
            Ok(v) => {
                reversed.push(v);
                assert(reversed@.reverse() =~= seq![v] + rest.reverse());
                assert(spec_successes(all.take(n - 1)).push(v) + rest.reverse()
                    =~= spec_successes(all.take(n - 1)) + (seq![v] + rest.reverse()));
            },
            Err(_) => {},
        }
        assert(outcomes@ =~= all.take(n - 1));
    }
    assert(Seq::<T>::empty() + reversed@.reverse() =~= reversed@.reverse());
    let ghost target = reversed@.reverse();
    let mut result: Vec<T> = Vec::new();
    while reversed.len() > 0
        invariant
            result@ + reversed@.reverse() == target,
        decreases reversed@.len(),
    {
        let ghost left = reversed@;
        let ghost out = result@;
        let v = reversed.pop().unwrap();
        result.push(v);
        proof {
            assert(reversed@ =~= left.drop_last());
            assert(left.reverse() =~= seq![v] + left.drop_last().reverse());
            assert(out.push(v) + left.drop_last().reverse() =~= out + left.reverse());
        }
    }
    assert(result@ + Seq::<T>::empty() =~= result@);
    result
}

/// There are no more successes than outcomes.
pub proof fn lemma_successes_len<T, E>(outcomes: Seq<Result<T, E>>)
    ensures
        spec_successes(outcomes).len() <= outcomes.len(),
    decreases outcomes.len(),
{
    if outcomes.len() > 0 {
        lemma_successes_len(outcomes.drop_last());
    }
}

/// A failed outcome leaves no trace among the successes.
pub proof fn lemma_failure_is_skipped<T, E>(outcomes: Seq<Result<T, E>>, e: E)
    ensures
        spec_successes(outcomes.push(Err(e))) == spec_successes(outcomes),
{
    assert(outcomes.push(Err(e)).drop_last() =~= outcomes);
}

/// A successful outcome is kept, behind those that came before it.
pub proof fn lemma_success_is_kept<T, E>(outcomes: Seq<Result<T, E>>, v: T)
    ensures
        spec_successes(outcomes.push(Ok(v))) == spec_successes(outcomes).push(v),
{
    assert(outcomes.push(Ok(v)).drop_last() =~= outcomes);
}

} // verus!
