//! The search loop's side of the bargain: pull candidate scales from the
//! external search strategy, and feed each iteration's verdict back. The
//! strategy's numeric behaviour is its own; this module pins down exactly
//! when overload is reported and when the loop aborts.

use vstd::prelude::*;

use crate::iteration::IterationOutcome;

verus! {

/// cliff's exponential cliff searcher: the external capacity-search
/// strategy, opaque to the verifier.
#[verifier::external_type_specification]
#[verifier::external_body]
pub struct ExExponentialCliffSearcher(cliff::ExponentialCliffSearcher);

/// Relies on cliff's `ExponentialCliffSearcher::until`: builds a searcher
/// that starts probing at `start` and stops once the cliff is located to
/// within `min_width`.
#[verifier::external_body]
fn searcher_until(start: usize, min_width: usize) -> cliff::ExponentialCliffSearcher {
    cliff::ExponentialCliffSearcher::until(start, min_width)
}

/// Relies on `Iterator::next` of cliff's searcher: yields the next
/// candidate scale, or None once the search is exhausted. Which scale
/// comes back is the strategy's own choice; nothing is assumed of it.
#[verifier::external_body]
fn searcher_next(s: &mut cliff::ExponentialCliffSearcher) -> Option<usize> {
    s.next()
}

/// Relies on cliff's `overloaded`: records that the scale most recently
/// yielded overloaded the target, steering the search downward.
#[verifier::external_body]
fn searcher_overloaded(s: &mut cliff::ExponentialCliffSearcher) {
    s.overloaded()
}

/// How a failed iteration is classified.
#[derive(Clone, Copy, PartialEq, Eq, Structural, Debug)]
pub enum ErrorClass {
    /// Recoverable within the run: the candidate is treated as not
    /// sustainable and the search continues.
    IterationRecoverable,
    /// Session-fatal (connection loss): the loop aborts and the error
    /// propagates.
    SessionFatal,
}

/// What one pass of the search loop produced.
#[derive(Clone, Copy, PartialEq, Eq, Structural, Debug)]
pub enum IterationResult {
    Finished(IterationOutcome),
    Failed(ErrorClass),
}

/// What the loop does next: whether overload is fed back to the strategy,
/// and whether the loop stops here.
#[derive(Clone, Copy, PartialEq, Eq, Structural, Debug)]
pub struct LoopDirective {
    pub report_overloaded: bool,
    pub abort: bool,
}

/// The loop's policy: a finished iteration reports its own verdict; a
/// recoverable failure counts as overloaded and the search continues; a
/// session-fatal failure reports nothing and aborts the loop.
pub open spec fn spec_directive(r: IterationResult) -> LoopDirective {
    match r {
        IterationResult::Finished(oc) => LoopDirective {
            report_overloaded: oc.overloaded,
            abort: false,
        },
        IterationResult::Failed(ErrorClass::IterationRecoverable) => LoopDirective {
            report_overloaded: true,
            abort: false,
        },
        IterationResult::Failed(ErrorClass::SessionFatal) => LoopDirective {
            report_overloaded: false,
            abort: true,
        },
    }
}

/// Hands out candidate scales and feeds verdicts back to the strategy.
pub struct SearchSession {
    searcher: cliff::ExponentialCliffSearcher,
}

impl SearchSession {
    /// Start a search at `initial_scale`, narrowing to `min_width`. The two
    /// tuning parameters belong to the strategy.
    pub fn new(initial_scale: usize, min_width: usize) -> SearchSession {
        SearchSession { searcher: searcher_until(initial_scale, min_width) }
    }

    /// The next candidate scale, or None when the strategy is done.
    pub fn next_scale(&mut self) -> Option<usize> {
        searcher_next(&mut self.searcher)
    }

    /// Apply one iteration's result: overload is reported to the strategy
    /// exactly when the returned directive says so.
    pub fn apply(&mut self, r: IterationResult) -> (d: LoopDirective)
        ensures
            d == spec_directive(r),
    {
        let d = match r {
            IterationResult::Finished(oc) => LoopDirective {
                report_overloaded: oc.overloaded,
                abort: false,
            },
            IterationResult::Failed(ErrorClass::IterationRecoverable) => LoopDirective {
                report_overloaded: true,
                abort: false,
            },
            IterationResult::Failed(ErrorClass::SessionFatal) => LoopDirective {
                report_overloaded: false,
                abort: true,
            },
        };
        if d.report_overloaded {
            searcher_overloaded(&mut self.searcher);
        }
        d
    }
}

} // verus!
