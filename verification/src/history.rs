//! An entry over a whole run of uses.
//!
//! A run is described by the handle the entry remembers at its start and by
//! one driver answer per use: the answer the driver gives during that use if
//! it is asked. The functions below say what the entry remembers along the
//! run, what each use returns, and how often the driver is in fact asked.

use vstd::prelude::*;
use crate::entry::{answer, settled};

verus! {

/// What the entry remembers after all uses of the run.
pub open spec fn state_after<H, E>(cached: Option<H>, outcomes: Seq<Result<H, E>>) -> Option<H>
    decreases outcomes.len(),
{
    if outcomes.len() == 0 {
        cached
    } else {
        settled(state_after(cached, outcomes.drop_last()), outcomes.last())
    }
}

/// What the use at position `at` of the run returns.
pub open spec fn answer_at<H, E>(cached: Option<H>, outcomes: Seq<Result<H, E>>, at: int) -> Result<
    H,
    E,
>
    recommends
        0 <= at < outcomes.len(),
{
    answer(state_after(cached, outcomes.take(at)), outcomes[at])
}

/// Whether the use at position `at` of the run asks the driver.
pub open spec fn asks_at<H, E>(cached: Option<H>, outcomes: Seq<Result<H, E>>, at: int) -> bool
    recommends
        0 <= at < outcomes.len(),
{
    state_after(cached, outcomes.take(at)) is None
}

/// How many uses of the run ask the driver.
pub open spec fn round_trips<H, E>(cached: Option<H>, outcomes: Seq<Result<H, E>>) -> nat
    decreases outcomes.len(),
{
    if outcomes.len() == 0 {
        0
    } else {
        let earlier = round_trips(cached, outcomes.drop_last());
        if state_after(cached, outcomes.drop_last()) is None {
            earlier + 1
        } else {
            earlier
        }
    }
}

/// A handle that is remembered at the start of a run is still the one
/// remembered at its end.
pub proof fn lemma_handle_stays<H, E>(handle: H, outcomes: Seq<Result<H, E>>)
    ensures
        state_after(Some(handle), outcomes) == Some(handle),
    decreases outcomes.len(),
{
    if outcomes.len() > 0 {
        lemma_handle_stays(handle, outcomes.drop_last());
    }
}

/// A run can be cut in two: what the entry remembers after the whole run is
/// what it remembers after the second part, started from the first part's
/// end.
pub proof fn lemma_state_splits<H, E>(cached: Option<H>, outcomes: Seq<Result<H, E>>, at: int)
    requires
        0 <= at <= outcomes.len(),
    ensures
        state_after(cached, outcomes) == state_after(
            state_after(cached, outcomes.take(at)),
            outcomes.skip(at),
        ),
    decreases outcomes.len() - at,
{
    if at == outcomes.len() {
        assert(outcomes.take(at) =~= outcomes);
        assert(outcomes.skip(at).len() == 0);
    } else {
        let shorter = outcomes.drop_last();
        lemma_state_splits(cached, shorter, at);
        assert(shorter.take(at) =~= outcomes.take(at));
        assert(outcomes.skip(at).drop_last() =~= shorter.skip(at));
        assert(outcomes.skip(at).last() == outcomes.last());
    }
}

/// Once a handle is remembered, every later use of the run returns that
/// handle and none asks the driver.
pub proof fn lemma_reuse<H, E>(cached: Option<H>, outcomes: Seq<Result<H, E>>, from: int, at: int)
    requires
        0 <= from <= at < outcomes.len(),
        state_after(cached, outcomes.take(from)) is Some,
    ensures
        !asks_at(cached, outcomes, at),
        answer_at(cached, outcomes, at) == Ok::<H, E>(
            state_after(cached, outcomes.take(from))->Some_0,
        ),
        state_after(cached, outcomes) == state_after(cached, outcomes.take(from)),
{
    let known = state_after(cached, outcomes.take(from));
    let handle = known->Some_0;
    lemma_state_splits(cached, outcomes.take(at), from);
    assert(outcomes.take(at).take(from) =~= outcomes.take(from));
    lemma_handle_stays(handle, outcomes.take(at).skip(from));
    lemma_state_splits(cached, outcomes, from);
    lemma_handle_stays(handle, outcomes.skip(from));
}

/// A run that starts with a remembered handle never asks the driver.
pub proof fn lemma_no_round_trip_when_cached<H, E>(handle: H, outcomes: Seq<Result<H, E>>)
    ensures
        round_trips(Some(handle), outcomes) == 0,
    decreases outcomes.len(),
{
    if outcomes.len() > 0 {
        lemma_no_round_trip_when_cached(handle, outcomes.drop_last());
        lemma_handle_stays(handle, outcomes.drop_last());
    }
}

/// No run asks the driver more often than it has uses. A run that leaves
/// the entry empty has asked the driver at every use and got a failure each
/// time.
pub proof fn lemma_round_trips_bounded<H, E>(cached: Option<H>, outcomes: Seq<Result<H, E>>)
    ensures
        round_trips(cached, outcomes) <= outcomes.len(),
        state_after(cached, outcomes) is None ==> round_trips(cached, outcomes) == outcomes.len(),
        state_after(cached, outcomes) is None ==> forall|at: int|
            0 <= at < outcomes.len() ==> (#[trigger] outcomes[at]) is Err,
    decreases outcomes.len(),
{
    if outcomes.len() > 0 {
        let shorter = outcomes.drop_last();
        lemma_round_trips_bounded(cached, shorter);
        if state_after(cached, outcomes) is None {
            assert forall|at: int| 0 <= at < outcomes.len() implies (#[trigger] outcomes[at]) is Err by {
                if at < shorter.len() {
                    assert(shorter[at] == outcomes[at]);
                }
            }
        }
    }
}

/// Over a run in which the entry starts with a handle, or is used at most
/// once, or gets a handle from the driver at its first use, the driver is
/// asked at most once.
pub proof fn lemma_prepared_at_most_once<H, E>(cached: Option<H>, outcomes: Seq<Result<H, E>>)
    requires
        cached is Some || outcomes.len() <= 1 || outcomes[0] is Ok,
    ensures
        round_trips(cached, outcomes) <= 1,
    decreases outcomes.len(),
{
    if outcomes.len() > 1 {
        let shorter = outcomes.drop_last();
        lemma_prepared_at_most_once(cached, shorter);
        if state_after(cached, shorter) is None {
            lemma_round_trips_bounded(cached, shorter);
            assert(shorter[0] == outcomes[0]);
            match cached {
                Some(handle) => {
                    lemma_handle_stays(handle, shorter);
                },
                None => {},
            }
        }
    } else if outcomes.len() == 1 {
        assert(outcomes.drop_last().len() == 0);
        reveal_with_fuel(round_trips, 2);
    }
}

/// All handles that the uses of one run return are the same handle.
pub proof fn lemma_handles_agree<H, E>(
    cached: Option<H>,
    outcomes: Seq<Result<H, E>>,
    first: int,
    second: int,
)
    requires
        0 <= first <= second < outcomes.len(),
        answer_at(cached, outcomes, first) is Ok,
        answer_at(cached, outcomes, second) is Ok,
    ensures
        answer_at(cached, outcomes, first) == answer_at(cached, outcomes, second),
{
    if first < second {
        let upto = outcomes.take(first + 1);
        assert(upto.drop_last() =~= outcomes.take(first));
        assert(upto.last() == outcomes[first]);
        assert(state_after(cached, upto) is Some);
        lemma_reuse(cached, outcomes, first + 1, second);
    }
}

/// A use that finds the entry empty and gets a failure from the driver
/// returns that failure and leaves the entry empty, so the next use asks the
/// driver again.
pub proof fn lemma_failure_is_retried<H, E>(outcomes: Seq<Result<H, E>>, at: int)
    requires
        0 <= at < outcomes.len(),
        asks_at(None::<H>, outcomes, at),
        outcomes[at] is Err,
    ensures
        answer_at(None::<H>, outcomes, at) == outcomes[at],
        state_after(None::<H>, outcomes.take(at + 1)) is None,
        at + 1 < outcomes.len() ==> asks_at(None::<H>, outcomes, at + 1),
        round_trips(None::<H>, outcomes.take(at + 1)) == at + 1,
{
    let upto = outcomes.take(at + 1);
    assert(upto.drop_last() =~= outcomes.take(at));
    assert(upto.last() == outcomes[at]);
    lemma_round_trips_bounded(None::<H>, upto);
}

} // verus!
