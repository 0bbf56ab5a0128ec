//! Per-item retry policy.
//!
//! One [`RetryState`] tracks a single identifier's attempt chain. The driver
//! asks [`RetryState::should_attempt`], performs one backend invocation when
//! allowed, and records the classified result with
//! [`RetryState::record_attempt`]; the machine decides whether the item is
//! finished and with which [`DownloadOutcome`]. The ceiling is three
//! invocations; on the API-session backend an `AlreadyExists` or
//! `InvalidTarget` classification ends the item at once.

use vstd::prelude::*;
use crate::config::DownloadSource;

verus! {

/// The classification a backend invocation's failure carries.
#[derive(Clone, Copy, PartialEq, Eq, Structural, Debug)]
pub enum ErrorClass {
    /// The artifact is already present; the item counts as handled.
    AlreadyExists,
    /// The identifier's target is permanently unusable; never retried.
    InvalidTarget,
    /// Anything else; retried while the ceiling allows.
    Other,
}

/// The terminal outcome of one item's attempt chain.
#[derive(Clone, Copy, PartialEq, Eq, Structural, Debug)]
pub enum DownloadOutcome {
    /// An invocation succeeded.
    Success,
    /// The artifact already existed; nothing left to do.
    SkippedExisting,
    /// A permanent per-item failure; carries its classification.
    Aborted(ErrorClass),
    /// The ceiling was exhausted without success.
    Failed,
}

/// Most invocations one item may ever receive.
pub const ATTEMPT_CEILING: u8 = 3;

/// True when a failure with class `e` ends the item with no further
/// invocation, regardless of how many attempts remain.
/// Only the API-session backend reports classes it distinguishes; the
/// browser-automation backend's failures are all retried alike.
pub open spec fn is_terminal_error(variant: DownloadSource, e: ErrorClass) -> bool {
    variant is GooglePlay && (e is AlreadyExists || e is InvalidTarget)
}

/// The outcome, if any, that recording `result` as the attempt numbered
/// `attempts_before + 1` settles. `None` means the item stays open for
/// another attempt.
pub open spec fn next_outcome(
    variant: DownloadSource,
    attempts_before: int,
    result: Result<(), ErrorClass>,
) -> Option<DownloadOutcome> {
    match result {
        Ok(_) => Some(DownloadOutcome::Success),
        Err(e) => {
            if variant is GooglePlay && e is AlreadyExists {
                Some(DownloadOutcome::SkippedExisting)
            } else if variant is GooglePlay && e is InvalidTarget {
                Some(DownloadOutcome::Aborted(e))
            } else if attempts_before + 1 >= ATTEMPT_CEILING {
                Some(DownloadOutcome::Failed)
            } else {
                None
            }
        },
    }
}

/// One item's progress through its attempt chain.
pub struct RetryState {
    /// Which backend's error granularity applies.
    pub variant: DownloadSource,
    /// Invocations recorded so far.
    pub attempts: u8,
    /// `Some` once the item is settled; no invocation may follow.
    pub outcome: Option<DownloadOutcome>,
}

impl RetryState {
    /// Holds of every state the methods can produce.
    pub open spec fn wf(&self) -> bool {
        &&& self.attempts <= ATTEMPT_CEILING
        &&& (self.outcome is Some ==> self.attempts >= 1)
        &&& (self.attempts == ATTEMPT_CEILING ==> self.outcome is Some)
    }

    /// A fresh item: no attempts, not settled.
    pub fn new(variant: DownloadSource) -> (r: RetryState)
        ensures
            r.wf(),
            r.variant == variant,
            r.attempts == 0,
            r.outcome is None,
    {
        RetryState { variant, attempts: 0, outcome: None }
    }

    /// True exactly when one more backend invocation is permitted.
    pub fn should_attempt(&self) -> (r: bool)
        ensures
            r == (self.outcome is None && self.attempts < ATTEMPT_CEILING),
    {
        self.outcome.is_none() && self.attempts < ATTEMPT_CEILING
    }

    /// Records the classified result of one backend invocation.
    /// Settles the item exactly as [`next_outcome`] says.
    pub fn record_attempt(&mut self, result: Result<(), ErrorClass>)
        requires
            old(self).wf(),
            old(self).outcome is None,
            old(self).attempts < ATTEMPT_CEILING,
        ensures
            final(self).wf(),
            final(self).variant == old(self).variant,
            final(self).attempts == old(self).attempts + 1,
            final(self).outcome == next_outcome(
                old(self).variant,
                old(self).attempts as int,
                result,
            ),
            *final(self) == chain_step(*old(self), result),
    {
        self.attempts = self.attempts + 1;
        match result {
            Ok(_) => {
                self.outcome = Some(DownloadOutcome::Success);
            },
            Err(e) => {
                let terminal_skip = matches!(self.variant, DownloadSource::GooglePlay)
                    && matches!(e, ErrorClass::AlreadyExists);
                let terminal_abort = matches!(self.variant, DownloadSource::GooglePlay)
                    && matches!(e, ErrorClass::InvalidTarget);
                if terminal_skip {
                    self.outcome = Some(DownloadOutcome::SkippedExisting);
                } else if terminal_abort {
                    self.outcome = Some(DownloadOutcome::Aborted(e));
                } else if self.attempts >= ATTEMPT_CEILING {
                    self.outcome = Some(DownloadOutcome::Failed);
                }
            },
        }
    }

    /// The settled outcome, if any.
    pub fn outcome(&self) -> (r: Option<DownloadOutcome>)
        ensures
            r == self.outcome,
    {
        self.outcome
    }

    /// Invocations recorded so far.
    pub fn attempts(&self) -> (r: u8)
        ensures
            r == self.attempts,
    {
        self.attempts
    }
}

/// The state one recorded result moves the machine to.
pub open spec fn chain_step(st: RetryState, result: Result<(), ErrorClass>) -> RetryState {
    RetryState {
        variant: st.variant,
        attempts: (st.attempts + 1) as u8,
        outcome: next_outcome(st.variant, st.attempts as int, result),
    }
}

/// The state a fresh item reaches when a driver, obeying
/// [`RetryState::should_attempt`], records the backend results in
/// `results` one by one: recording stops as soon as the item settles or
/// the ceiling is reached, and later results are never consumed.
pub open spec fn run_chain(
    variant: DownloadSource,
    results: Seq<Result<(), ErrorClass>>,
) -> RetryState
    decreases results.len(),
{
    if results.len() == 0 {
        RetryState { variant, attempts: 0, outcome: None }
    } else {
        let prev = run_chain(variant, results.drop_last());
        if prev.outcome is None && prev.attempts < ATTEMPT_CEILING {
            chain_step(prev, results.last())
        } else {
            prev
        }
    }
}

/// Law: over every sequence of backend results, an item's chain makes at
/// most three invocations, an unsettled chain has consumed every result
/// offered so far, and three results always settle the item.
pub proof fn lemma_run_chain_bounded(
    variant: DownloadSource,
    results: Seq<Result<(), ErrorClass>>,
)
    ensures
        run_chain(variant, results).wf(),
        run_chain(variant, results).variant == variant,
        run_chain(variant, results).attempts <= ATTEMPT_CEILING,
        run_chain(variant, results).outcome is None ==> run_chain(variant, results).attempts
            == results.len(),
        results.len() >= ATTEMPT_CEILING ==> run_chain(variant, results).outcome is Some,
    decreases results.len(),
{
    if results.len() > 0 {
        lemma_run_chain_bounded(variant, results.drop_last());
    }
}

/// Law: once a chain settles, further backend results change nothing —
/// in particular, a terminal classification or a success strictly
/// prevents any later invocation for the item.
pub proof fn lemma_run_chain_settled_absorbs(
    variant: DownloadSource,
    prefix: Seq<Result<(), ErrorClass>>,
    rest: Seq<Result<(), ErrorClass>>,
)
    requires
        run_chain(variant, prefix).outcome is Some || run_chain(variant, prefix).attempts
            >= ATTEMPT_CEILING,
    ensures
        run_chain(variant, prefix + rest) == run_chain(variant, prefix),
    decreases rest.len(),
{
    if rest.len() == 0 {
        assert(prefix + rest =~= prefix);
    } else {
        lemma_run_chain_settled_absorbs(variant, prefix, rest.drop_last());
        assert((prefix + rest).drop_last() =~= prefix + rest.drop_last());
        assert((prefix + rest).len() > 0);
    }
}

/// Law: a settled item received between one and three invocations.
pub proof fn lemma_attempts_in_range(st: RetryState)
    requires
        st.wf(),
        st.outcome is Some,
    ensures
        1 <= st.attempts <= ATTEMPT_CEILING,
{
}

/// Law: a terminal classification settles the item at once, so no further
/// invocation is permitted for it, however many attempts remained.
pub proof fn lemma_terminal_error_stops(
    variant: DownloadSource,
    attempts_before: int,
    e: ErrorClass,
)
    requires
        is_terminal_error(variant, e),
    ensures
        next_outcome(variant, attempts_before, Err(e)) is Some,
        next_outcome(variant, attempts_before, Err(e)) != Some(DownloadOutcome::Failed),
{
}

/// Law: an item that is not settled never reaches the ceiling, so recording
/// can never push the attempt count past three.
pub proof fn lemma_ceiling_never_exceeded(st: RetryState)
    requires
        st.wf(),
        st.outcome is None,
    ensures
        st.attempts < ATTEMPT_CEILING,
{
}

} // verus!

