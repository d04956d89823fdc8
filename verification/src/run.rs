//! A run of the retry loop as a whole: what follows from settling one round
//! after another.
use std::time::Duration;
use std::time::Instant;
use vstd::prelude::*;
use crate::retryable::{Retryable, RetryableResult};
use crate::try_again::{notices, settled, Ending, Notice, Verdict};

verus! {

/// One round of the loop: what the attempt came to, the instant at which a
/// failure was observed, and what the policy answered where it was asked.
#[verifier::reject_recursive_types(F)]
pub struct Round<T, R, F> where R: Retryable<FatalError = F> {
    pub outcome: RetryableResult<T, R, F>,
    pub at: Instant,
    pub answer: Option<Duration>,
}

/// A run of the loop over `rounds`, starting with `history`: the history at
/// its end, and how it ended if one of the rounds ended it. Each round is
/// settled in turn; a round that asks for a wait is followed by the next.
pub open spec fn run<T, R: Retryable>(
    history: Seq<(R, Instant)>,
    rounds: Seq<Round<T, R, R::FatalError>>,
) -> (Seq<(R, Instant)>, Option<Ending<T, R, R::FatalError>>)
    decreases rounds.len(),
{
    if rounds.len() == 0 {
        (history, None)
    } else {
        let (next, verdict) = settled(history, rounds[0].outcome, rounds[0].at, rounds[0].answer);
        match verdict {
            Verdict::Wait(_) => run(next, rounds.skip(1)),
            Verdict::Done(ending) => (next, Some(ending)),
        }
    }
}

/// Whether the round is a recoverable failure after which the policy asks
/// for a wait.
pub open spec fn waits<T, R: Retryable>(round: Round<T, R, R::FatalError>) -> bool {
    round.outcome is Retryable && round.answer is Some
}

/// The failures of the rounds, each with the instant at which it was observed.
pub open spec fn failures_of<T, R: Retryable>(rounds: Seq<Round<T, R, R::FatalError>>) -> Seq<
    (R, Instant),
> {
    Seq::new(rounds.len(), |k: int| (rounds[k].outcome->Retryable_0, rounds[k].at))
}

/// A run whose first `n` rounds all ask for a wait records their failures in
/// order and goes on with the rounds after them.
pub proof fn lemma_run_records_waits<T, R: Retryable>(
    history: Seq<(R, Instant)>,
    rounds: Seq<Round<T, R, R::FatalError>>,
    n: nat,
)
    requires
        n <= rounds.len(),
        forall|k: int| 0 <= k < n ==> waits(#[trigger] rounds[k]),
    ensures
        run(history, rounds) == run(history + failures_of(rounds.take(n as int)), rounds.skip(n as int)),
    decreases n,
{
    if n == 0 {
        assert(rounds.skip(0) =~= rounds);
        assert(history + failures_of(rounds.take(0)) =~= history);
    } else {
        let first = rounds[0];
        let rest = rounds.skip(1);
        assert(waits(first));
        let next = history.push((first.outcome->Retryable_0, first.at));
        assert(run(history, rounds) == run(next, rest));
        assert forall|k: int| 0 <= k < n - 1 implies waits(#[trigger] rest[k]) by {
            assert(rest[k] == rounds[k + 1]);
        }
        lemma_run_records_waits(next, rest, (n - 1) as nat);
        assert(rest.skip(n - 1) =~= rounds.skip(n as int));
        assert(next + failures_of(rest.take(n - 1)) =~= history + failures_of(rounds.take(n as int)));
    }
}

/// A success at the first attempt ends the run with that value. Nothing is
/// recorded, so nothing was waited for, and ending a run with a success calls
/// no logger, whatever loggers there are.
pub proof fn lemma_success_at_first_attempt<T, R: Retryable>(
    rounds: Seq<Round<T, R, R::FatalError>>,
    value: T,
)
    requires
        rounds.len() > 0,
        rounds[0].outcome == RetryableResult::<T, R, R::FatalError>::GoodResult(value),
    ensures
        run(Seq::empty(), rounds) == (
            Seq::<(R, Instant)>::empty(),
            Some(Ending::<T, R, R::FatalError>::Succeeded(value)),
        ),
        forall|history: Seq<(R, Instant)>, at: Instant, recoverable_logged: bool, fatal_logged: bool|
            (#[trigger] notices(
                history,
                Ok::<T, R::FatalError>(value),
                at,
                recoverable_logged,
                fatal_logged,
            )).len() == 0,
{
}

/// Where the policy gives up on the first recoverable failure, the run ends
/// with that failure and an empty history. The failure itself is not
/// recorded, so the only logger call is the one for the fatal error that
/// `to_fatal` makes of it.
pub proof fn lemma_giving_up_at_first_failure<T, R: Retryable>(
    rounds: Seq<Round<T, R, R::FatalError>>,
    failure: R,
    fatal: R::FatalError,
)
    requires
        rounds.len() > 0,
        rounds[0].outcome == RetryableResult::<T, R, R::FatalError>::Retryable(failure),
        rounds[0].answer is None,
    ensures
        run(Seq::empty(), rounds) == (
            Seq::<(R, Instant)>::empty(),
            Some(Ending::<T, R, R::FatalError>::GivenUp(failure, rounds[0].at)),
        ),
        notices(Seq::<(R, Instant)>::empty(), Err::<T, R::FatalError>(fatal), rounds[0].at, true, true)
            == seq![
            Notice::<R, R::FatalError>::Fatal(fatal, rounds[0].at),
        ],
{
    assert(notices(Seq::<(R, Instant)>::empty(), Err::<T, R::FatalError>(fatal), rounds[0].at, true, true) =~= seq![
        Notice::<R, R::FatalError>::Fatal(fatal, rounds[0].at),
    ]);
}

/// Where `n` recoverable failures that are waited on are followed by a fatal
/// error, the run ends with that error and a history of exactly those
/// failures, in the order in which they came. The logger calls are one for
/// each of them, in that order, and after them one for the fatal error.
pub proof fn lemma_failures_then_fatal<T, R: Retryable>(
    rounds: Seq<Round<T, R, R::FatalError>>,
    n: nat,
    fatal: R::FatalError,
)
    requires
        rounds.len() > n,
        forall|k: int| 0 <= k < n ==> waits(#[trigger] rounds[k]),
        rounds[n as int].outcome == RetryableResult::<T, R, R::FatalError>::Fatal(fatal),
    ensures
        ({
            let history = failures_of(rounds.take(n as int));
            let at = rounds[n as int].at;
            let calls = notices(history, Err::<T, R::FatalError>(fatal), at, true, true);
            &&& run(Seq::empty(), rounds) == (
                history,
                Some(Ending::<T, R, R::FatalError>::FatalHit(fatal, at)),
            )
            &&& calls.len() == n + 1
            &&& forall|k: int|
                0 <= k < n ==> #[trigger] calls[k] == Notice::<R, R::FatalError>::Recoverable(
                    rounds[k].outcome->Retryable_0,
                    rounds[k].at,
                )
            &&& calls[n as int] == Notice::<R, R::FatalError>::Fatal(fatal, at)
        }),
{
    lemma_run_records_waits(Seq::empty(), rounds, n);
    let history = failures_of(rounds.take(n as int));
    assert(Seq::<(R, Instant)>::empty() + history =~= history);
    let rest = rounds.skip(n as int);
    assert(rest[0] == rounds[n as int]);
}

/// The history of a run is a function of its rounds alone: after `n` rounds
/// that are waited on it holds the failure of each round with the instant at
/// which it was observed, oldest first, and the run has not ended.
pub proof fn lemma_history_follows_rounds<T, R: Retryable>(
    rounds: Seq<Round<T, R, R::FatalError>>,
)
    requires
        forall|k: int| 0 <= k < rounds.len() ==> waits(#[trigger] rounds[k]),
    ensures
        run(Seq::empty(), rounds) == (failures_of(rounds), None::<Ending<T, R, R::FatalError>>),
{
    lemma_run_records_waits(Seq::empty(), rounds, rounds.len());
    assert(rounds.take(rounds.len() as int) =~= rounds);
    assert(Seq::<(R, Instant)>::empty() + failures_of(rounds) =~= failures_of(rounds));
    assert(rounds.skip(rounds.len() as int).len() == 0);
}

} // verus!
