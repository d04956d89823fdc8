//! The retry loop as a state machine.
//!
//! An [`Orchestrator`] stands between two attempts and owns the history of
//! recoverable failures. After each attempt it turns the outcome into a
//! [`Verdict`]: wait and attempt again, or stop with an [`Ending`]. The caller
//! runs the attempt and the wait; everything that is decided is decided here.
use std::time::Duration;
use std::time::Instant;
use vstd::prelude::*;
use crate::clock::now;
use crate::retryable::{Retryable, RetryableResult};

verus! {

/// How retrying ended.
pub enum Ending<T, R, F> {
    /// An attempt succeeded with this value.
    Succeeded(T),
    /// The policy gave up on this recoverable failure, observed at the instant.
    GivenUp(R, Instant),
    /// An attempt failed with this fatal error, observed at the instant.
    FatalHit(F, Instant),
}

/// What the loop does after an attempt.
pub enum Verdict<T, R, F> {
    /// Wait for the duration, then attempt again.
    Wait(Duration),
    /// Stop.
    Done(Ending<T, R, F>),
}

/// The recoverable failures of one run, oldest first, each with the instant
/// at which it was observed.
pub struct Orchestrator<R> {
    failures: Vec<(R, Instant)>,
}

impl<R> View for Orchestrator<R> {
    type V = Seq<(R, Instant)>;

    closed spec fn view(&self) -> Seq<(R, Instant)> {
        self.failures@
    }
}

/// The history and the verdict after a recoverable failure to which the
/// policy gave `answer`: a wait records the failure, giving up does not.
pub open spec fn recorded<T, R, F>(
    history: Seq<(R, Instant)>,
    failure: R,
    at: Instant,
    answer: Option<Duration>,
) -> (Seq<(R, Instant)>, Verdict<T, R, F>) {
    match answer {
        Some(wait) => (history.push((failure, at)), Verdict::Wait(wait)),
        None => (history, Verdict::Done(Ending::GivenUp(failure, at))),
    }
}

/// The history and the verdict after an attempt that came to `outcome` at
/// `at`, where the policy, if it was asked, gave `answer`.
pub open spec fn settled<T, R: Retryable>(
    history: Seq<(R, Instant)>,
    outcome: RetryableResult<T, R, R::FatalError>,
    at: Instant,
    answer: Option<Duration>,
) -> (Seq<(R, Instant)>, Verdict<T, R, R::FatalError>) {
    match outcome {
        RetryableResult::GoodResult(value) => (history, Verdict::Done(Ending::Succeeded(value))),
        RetryableResult::Retryable(failure) => recorded(history, failure, at, answer),
        RetryableResult::Fatal(fatal) => (history, Verdict::Done(Ending::FatalHit(fatal, at))),
    }
}

/// Whether `answer` is one that the policy of `failure` can give at `at`
/// after the failures in `history`.
pub open spec fn policy_gives<R: Retryable>(
    failure: R,
    at: Instant,
    history: Seq<(R, Instant)>,
    answer: Option<Duration>,
) -> bool {
    exists|seen: &[(R, Instant)]| #[trigger]
        seen@ == history && call_ensures(R::wait_time, (&failure, at, seen), answer)
}

/// One call of a logger.
pub enum Notice<R, F> {
    /// The recoverable logger is called with a recorded failure.
    Recoverable(R, Instant),
    /// The fatal logger is called with the error that ended the run.
    Fatal(F, Instant),
}

/// The logger calls that end a run with `result`, in the order in which they
/// are made. After a success there is none. After an error observed at `at`
/// there is one for each recorded failure, oldest first, where there is a
/// recoverable logger; then one for the error, where there is a fatal logger.
pub open spec fn notices<T, R, F>(
    history: Seq<(R, Instant)>,
    result: Result<T, F>,
    at: Instant,
    recoverable_logged: bool,
    fatal_logged: bool,
) -> Seq<Notice<R, F>> {
    match result {
        Ok(_) => Seq::empty(),
        Err(fatal) => {
            let flushed = if recoverable_logged {
                Seq::new(history.len(), |k: int| Notice::Recoverable(history[k].0, history[k].1))
            } else {
                Seq::empty()
            };
            if fatal_logged {
                flushed.push(Notice::Fatal(fatal, at))
            } else {
                flushed
            }
        },
    }
}

/// The instant at which the failure that ended the run was observed.
pub open spec fn ended_at<T, R, F>(ending: Ending<T, R, F>) -> Instant {
    match ending {
        Ending::Succeeded(_) => arbitrary(),
        Ending::GivenUp(_, at) => at,
        Ending::FatalHit(_, at) => at,
    }
}

/// Whether `k` is a place in a sequence of length `len`.
pub open spec fn within(k: int, len: nat) -> bool {
    0 <= k < len
}

/// Whether handing `notice` to the logger that it is meant for can take the
/// context through the change that `context` stands for.
pub open spec fn delivers<R, F, C, FL, RL>(
    fatal_logger: Option<FL>,
    recoverable_logger: Option<RL>,
    notice: Notice<R, F>,
    context: &mut C,
) -> bool where FL: Fn(&F, Instant, &mut C), RL: Fn(&R, Instant, &mut C) {
    match notice {
        Notice::Recoverable(failure, at) => recoverable_logger matches Some(logger)
            && call_ensures(logger, (&failure, at, context), ()),
        Notice::Fatal(fatal, at) => fatal_logger matches Some(logger) && call_ensures(
            logger,
            (&fatal, at, context),
            (),
        ),
    }
}

/// Whether the logger, where there is one, takes every argument.
pub open spec fn always_callable<E, C, L: Fn(&E, Instant, &mut C)>(logger: Option<L>) -> bool {
    logger matches Some(l) ==> forall|e: &E, at: Instant, c: &mut C| call_requires(l, (e, at, c))
}

impl<R: Retryable> Orchestrator<R> {
    /// An orchestrator before the first attempt: nothing has failed yet.
    pub fn new() -> (fresh: Self)
        ensures
            fresh@ == Seq::<(R, Instant)>::empty(),
    {
        Orchestrator { failures: Vec::with_capacity(5) }
    }

    /// The failures recorded so far, oldest first.
    pub fn failures(&self) -> (seen: &[(R, Instant)])
        ensures
            seen@ == self@,
    {
        self.failures.as_slice()
    }

    /// Takes in a recoverable failure observed at `at`, to which the policy
    /// gave `answer`.
    pub fn record<T>(&mut self, failure: R, at: Instant, answer: Option<Duration>) -> (verdict:
        Verdict<T, R, R::FatalError>)
        ensures
            (final(self)@, verdict) == recorded::<T, R, R::FatalError>(
                old(self)@,
                failure,
                at,
                answer,
            ),
    {
        match answer {
            Some(how_long_to_wait) => {
                self.failures.push((failure, at));
                Verdict::Wait(how_long_to_wait)
            },
            None => Verdict::Done(Ending::GivenUp(failure, at)),
        }
    }

    /// Takes in the outcome of an attempt, observed at `at`. A recoverable
    /// failure is put to its own policy, together with the history.
    pub fn decide<T>(
        &mut self,
        outcome: RetryableResult<T, R, R::FatalError>,
        at: Instant,
    ) -> (verdict: Verdict<T, R, R::FatalError>)
        ensures
            exists|answer: Option<Duration>|
                {
                    &&& outcome matches RetryableResult::Retryable(failure) ==> policy_gives(
                        failure,
                        at,
                        old(self)@,
                        answer,
                    )
                    &&& (final(self)@, verdict) == #[trigger] settled(old(self)@, outcome, at, answer)
                },
    {
        match outcome {
            RetryableResult::GoodResult(z) => {
                let verdict: Verdict<T, R, R::FatalError> = Verdict::Done(Ending::Succeeded(z));
                assert((self@, verdict) == settled::<T, R>(self@, outcome, at, None));
                verdict
            },
            RetryableResult::Retryable(r) => {
                let answer = r.wait_time(at, self.failures.as_slice());
                let verdict = self.record(r, at, answer);
                assert((self@, verdict) == settled::<T, R>(old(self)@, outcome, at, answer));
                verdict
            },
            RetryableResult::Fatal(f) => {
                let verdict: Verdict<T, R, R::FatalError> = Verdict::Done(Ending::FatalHit(f, at));
                assert((self@, verdict) == settled::<T, R>(self@, outcome, at, None));
                verdict
            },
        }
    }

    /// Takes in the outcome of an attempt that has just ended. A failure is
    /// observed now, by the clock; a success does not read the clock.
    pub fn classify<T>(&mut self, outcome: RetryableResult<T, R, R::FatalError>) -> (verdict:
        Verdict<T, R, R::FatalError>)
        ensures
            exists|at: Instant, answer: Option<Duration>|
                {
                    &&& outcome matches RetryableResult::Retryable(failure) ==> policy_gives(
                        failure,
                        at,
                        old(self)@,
                        answer,
                    )
                    &&& (final(self)@, verdict) == #[trigger] settled(old(self)@, outcome, at, answer)
                },
    {
        match outcome {
            RetryableResult::GoodResult(z) => {
                let ghost at: Instant = arbitrary();
                let verdict: Verdict<T, R, R::FatalError> = Verdict::Done(Ending::Succeeded(z));
                assert((self@, verdict) == settled::<T, R>(self@, outcome, at, None));
                verdict
            },
            failed => {
                let this_time = now();
                self.decide(failed, this_time)
            },
        }
    }

    /// Ends the run. After a success nothing is logged. After a failure the
    /// recorded failures go to the recoverable logger, oldest first, then the
    /// final error goes to the fatal logger, and only then is it returned. A
    /// failure that the policy gave up on is made fatal between the two.
    ///
    /// The contract follows the logging context through these calls: `trail`
    /// holds it as it was handed in and as each call left it, and step `k` of
    /// the trail is the logger call that `notices` lists at place `k`.
    pub fn conclude<T, C, FL, RL>(
        self,
        ending: Ending<T, R, R::FatalError>,
        ctx: &mut C,
        fatal_logger: Option<FL>,
        recoverable_logger: Option<RL>,
    ) -> (result: Result<T, R::FatalError>) where
        FL: Fn(&R::FatalError, Instant, &mut C),
        RL: Fn(&R, Instant, &mut C),

        requires
            always_callable(fatal_logger),
            always_callable(recoverable_logger),
        ensures
            ending matches Ending::Succeeded(value) ==> result == Ok::<T, R::FatalError>(value)
                && *final(ctx) == *old(ctx),
            ending matches Ending::FatalHit(fatal, at) ==> result == Err::<T, R::FatalError>(fatal),
            ending matches Ending::GivenUp(failure, at) ==> result is Err && call_ensures(
                R::to_fatal,
                (failure,),
                result->Err_0,
            ),
            exists|trail: Seq<C>|
                {
                    let calls = notices(
                        self@,
                        result,
                        ended_at(ending),
                        recoverable_logger is Some,
                        fatal_logger is Some,
                    );
                    &&& #[trigger] trail.len() == calls.len() + 1
                    &&& trail.first() == *old(ctx)
                    &&& trail.last() == *final(ctx)
                    &&& forall|k: int| #[trigger]
                        within(k, calls.len()) ==> exists|c: &mut C|
                            *c == trail[k] && *final(c) == trail[k + 1] && #[trigger] delivers(
                                fatal_logger,
                                recoverable_logger,
                                calls[k],
                                c,
                            )
                },
    {
        match ending {
            Ending::Succeeded(z) => {
                let result: Result<T, R::FatalError> = Ok(z);
                proof {
                    let trail = seq![*ctx];
                    assert(trail.len() == notices(
                        self@,
                        result,
                        ended_at(ending),
                        recoverable_logger is Some,
                        fatal_logger is Some,
                    ).len() + 1);
                }
                result
            },
            Ending::GivenUp(r, this_time) => {
                let ghost (fl, rl) = (fatal_logger, recoverable_logger);
                let Ghost(flushed) = self.flush(ctx, recoverable_logger);
                let f = r.to_fatal();
                let ghost before = *ctx;
                announce(&f, this_time, ctx, fatal_logger);
                proof {
                    lemma_trail::<T, R, R::FatalError, C, FL, RL>(
                        self@,
                        f,
                        this_time,
                        fl,
                        rl,
                        flushed,
                        before,
                        *ctx,
                    );
                }
                Err(f)
            },
            Ending::FatalHit(f, this_time) => {
                let ghost (fl, rl) = (fatal_logger, recoverable_logger);
                let Ghost(flushed) = self.flush(ctx, recoverable_logger);
                let ghost before = *ctx;
                announce(&f, this_time, ctx, fatal_logger);
                proof {
                    lemma_trail::<T, R, R::FatalError, C, FL, RL>(
                        self@,
                        f,
                        this_time,
                        fl,
                        rl,
                        flushed,
                        before,
                        *ctx,
                    );
                }
                Err(f)
            },
        }
    }

    /// Hands the recorded failures to the logger, oldest first. The result
    /// holds the context before the first call and after each call.
    fn flush<C, RL>(&self, ctx: &mut C, recoverable_logger: Option<RL>) -> (trail: Ghost<
        Seq<C>,
    >) where RL: Fn(&R, Instant, &mut C)

        requires
            always_callable(recoverable_logger),
        ensures
            trail@.len() == (if recoverable_logger is Some {
                self@.len() + 1
            } else {
                1
            }),
            trail@.first() == *old(ctx),
            trail@.last() == *final(ctx),
            forall|k: int| #[trigger]
                within(k, (trail@.len() - 1) as nat) ==> exists|c: &mut C|
                    *c == trail@[k] && *final(c) == trail@[k + 1] && #[trigger] call_ensures(
                        recoverable_logger->Some_0,
                        (&self@[k].0, self@[k].1, c),
                        (),
                    ),
    {
        let ghost mut trail: Seq<C> = seq![*ctx];
        if let Some(logger) = recoverable_logger {
            let mut i: usize = 0;
            while i < self.failures.len()
                invariant
                    i <= self.failures.len(),
                    forall|e: &R, at: Instant, c: &mut C| call_requires(logger, (e, at, c)),
                    trail.len() == i + 1,
                    trail.first() == *old(ctx),
                    trail.last() == *ctx,
                    forall|k: int| #[trigger]
                        within(k, i as nat) ==> exists|c: &mut C|
                            *c == trail[k] && *final(c) == trail[k + 1] && #[trigger] call_ensures(
                                logger,
                                (&self@[k].0, self@[k].1, c),
                                (),
                            ),
                decreases self.failures.len() - i,
            {
                let ghost earlier = trail;
                let ghost before = *ctx;
                let entry = &self.failures[i];
                assert(*entry == self@[i as int]);
                logger(&entry.0, entry.1, ctx);
                assert(exists|c: &mut C|
                    *c == before && *final(c) == *ctx && #[trigger] call_ensures(
                        logger,
                        (&self@[i as int].0, self@[i as int].1, c),
                        (),
                    ));
                i += 1;
                proof {
                    trail = earlier.push(*ctx);
                    assert forall|k: int| #[trigger] within(k, i as nat) implies exists|c: &mut C|
                        *c == trail[k] && *final(c) == trail[k + 1] && #[trigger] call_ensures(
                            logger,
                            (&self@[k].0, self@[k].1, c),
                            (),
                        ) by {
                        if k < i - 1 {
                            assert(within(k, (i - 1) as nat));
                            assert(trail[k] == earlier[k]);
                            assert(trail[k + 1] == earlier[k + 1]);
                        } else {
                            assert(trail[k] == before);
                            assert(trail[k + 1] == *ctx);
                        }
                    }
                }
            }
        }
        Ghost(trail)
    }
}

/// Hands the error that ended the run to the fatal logger, where there is one.
fn announce<F, C, FL>(fatal: &F, at: Instant, ctx: &mut C, fatal_logger: Option<FL>) where
    FL: Fn(&F, Instant, &mut C),

    requires
        always_callable(fatal_logger),
    ensures
        fatal_logger is None ==> *final(ctx) == *old(ctx),
        fatal_logger matches Some(logger) ==> exists|c: &mut C|
            *c == *old(ctx) && *final(c) == *final(ctx) && #[trigger] call_ensures(
                logger,
                (fatal, at, c),
                (),
            ),
{
    if let Some(logger) = fatal_logger {
        logger(fatal, at, ctx);
    }
}

/// Joins the calls of the recoverable logger and the call of the fatal logger
/// into one trail of contexts, one step for each notice.
proof fn lemma_trail<T, R, F, C, FL, RL>(
    history: Seq<(R, Instant)>,
    fatal: F,
    at: Instant,
    fatal_logger: Option<FL>,
    recoverable_logger: Option<RL>,
    flushed: Seq<C>,
    before: C,
    after: C,
) where FL: Fn(&F, Instant, &mut C), RL: Fn(&R, Instant, &mut C)
    requires
        flushed.len() == (if recoverable_logger is Some {
            history.len() + 1
        } else {
            1
        }),
        flushed.last() == before,
        forall|k: int| #[trigger]
            within(k, (flushed.len() - 1) as nat) ==> exists|c: &mut C|
                *c == flushed[k] && *final(c) == flushed[k + 1] && #[trigger] call_ensures(
                    recoverable_logger->Some_0,
                    (&history[k].0, history[k].1, c),
                    (),
                ),
        fatal_logger is None ==> after == before,
        fatal_logger matches Some(logger) ==> exists|c: &mut C|
            *c == before && *final(c) == after && #[trigger] call_ensures(logger, (&fatal, at, c), ()),
    ensures
        ({
            let calls = notices(
                history,
                Err::<T, F>(fatal),
                at,
                recoverable_logger is Some,
                fatal_logger is Some,
            );
            let trail = if fatal_logger is Some {
                flushed.push(after)
            } else {
                flushed
            };
            &&& trail.len() == calls.len() + 1
            &&& trail.first() == flushed.first()
            &&& trail.last() == after
            &&& forall|k: int| #[trigger]
                within(k, calls.len()) ==> exists|c: &mut C|
                    *c == trail[k] && *final(c) == trail[k + 1] && #[trigger] delivers(
                        fatal_logger,
                        recoverable_logger,
                        calls[k],
                        c,
                    )
        }),
{
    let calls = notices(
        history,
        Err::<T, F>(fatal),
        at,
        recoverable_logger is Some,
        fatal_logger is Some,
    );
    let trail = if fatal_logger is Some {
        flushed.push(after)
    } else {
        flushed
    };
    assert forall|k: int| #[trigger] within(k, calls.len()) implies exists|c: &mut C|
        *c == trail[k] && *final(c) == trail[k + 1] && #[trigger] delivers(
            fatal_logger,
            recoverable_logger,
            calls[k],
            c,
        ) by {
        if k < flushed.len() - 1 {
            assert(within(k, (flushed.len() - 1) as nat));
            let c = choose|c: &mut C|
                *c == flushed[k] && *final(c) == flushed[k + 1] && #[trigger] call_ensures(
                    recoverable_logger->Some_0,
                    (&history[k].0, history[k].1, c),
                    (),
                );
            assert(calls[k] == Notice::<R, F>::Recoverable(history[k].0, history[k].1));
            assert(delivers(fatal_logger, recoverable_logger, calls[k], c));
        } else {
            let c = choose|c: &mut C|
                *c == before && *final(c) == after && #[trigger] call_ensures(
                    fatal_logger->Some_0,
                    (&fatal, at, c),
                    (),
                );
            assert(calls[k] == Notice::<R, F>::Fatal(fatal, at));
            assert(delivers(fatal_logger, recoverable_logger, calls[k], c));
        }
    }
}

} // verus!
