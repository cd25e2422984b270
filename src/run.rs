//! Folding the outcomes of a run's requests into the run's result.

use vstd::prelude::*;
use crate::error::Error;
use crate::matcher::{first_index, lemma_first_index, lemma_first_index_at};

verus! {

pub open spec fn failed() -> spec_fn(Result<(), Error>) -> bool {
    |o: Result<(), Error>| o is Err
}

/// The run's result: success when every request succeeded, else the failure
/// of the first request, in the order of the actions, that failed.
pub open spec fn run_result(outcomes: Seq<Result<(), Error>>) -> Result<(), Error> {
    let k = first_index(outcomes, failed());
    if 0 <= k {
        outcomes[k]
    } else {
        Ok(())
    }
}

/// Folds the outcomes of all requests, each awaited to its end, into the
/// run's result (see `run_result`).
pub fn aggregate(results: Vec<Result<(), Error>>) -> (r: Result<(), Error>)
    ensures
        r == run_result(results@),
{
    let ghost all = results@;
    let mut outcomes = results;
    let mut i: usize = 0;
    while i < outcomes.len()
        invariant
            outcomes@ == all,
            all == results@,
            i <= all.len(),
            forall|j: int| 0 <= j < i ==> !failed()(#[trigger] all[j]),
        decreases all.len() - i,
    {
        if outcomes[i].is_err() {
            proof {
                lemma_first_index_at(all, failed(), i as int);
            }
            return outcomes.remove(i);
        }
        i = i + 1;
    }
    proof {
        lemma_first_index(all, failed());
    }
    Ok(())
}

} // verus!
