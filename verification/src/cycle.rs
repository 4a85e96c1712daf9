//! The scheduler's decisions: one fetch-then-forward cycle.
//!
//! The loop around these decisions runs outside the crate: it sends the HTTP
//! requests, sleeps a fixed hour between cycles, and logs. The decisions
//! themselves — forward exactly when the fetch succeeded, and how a cycle's
//! two step results make its outcome — stand here, verified.

use vstd::prelude::*;
use crate::fetch::FetchError;
use crate::fetch::Rate;
use crate::forward::ForwardError;

verus! {

/// How one cycle ended. A failure never escapes the cycle: the loop logs the
/// outcome and sleeps, whatever it is.
#[derive(Debug, Clone)]
pub enum CycleOutcome {
    /// Both steps succeeded.
    Success,
    /// The fetch step failed; the forward step never ran.
    FetchFailed(FetchError),
    /// The fetch step succeeded and the forward step failed.
    ForwardFailed(ForwardError),
}

/// The seconds slept between two cycles: one hour.
pub fn cycle_interval_secs() -> (r: u64)
    ensures
        r == 3600,
{
    3600
}

/// The one control decision of the loop: the forward step runs exactly when
/// the fetch step succeeded.
pub fn should_forward(fetch: &Result<Rate, FetchError>) -> (b: bool)
    ensures
        b == (fetch is Ok),
{
    match fetch {
        Ok(_) => true,
        Err(_) => false,
    }
}

/// The outcome of a cycle from its step results. The forward result is there
/// exactly when the fetch succeeded, as `should_forward` decides; each error
/// is carried into the outcome unchanged.
pub fn cycle_outcome(fetch: Result<Rate, FetchError>, forward: Option<Result<(), ForwardError>>) -> (o:
    CycleOutcome)
    requires
        fetch is Ok <==> forward is Some,
    ensures
        fetch matches Err(e) ==> (o matches CycleOutcome::FetchFailed(e2) && e2 == e),
        forward matches Some(Err(e)) ==> (o matches CycleOutcome::ForwardFailed(e2) && e2 == e),
        forward matches Some(Ok(_)) ==> o is Success,
{
    match fetch {
        Err(e) => CycleOutcome::FetchFailed(e),
        Ok(_) => match forward {
            Some(Err(e)) => CycleOutcome::ForwardFailed(e),
            Some(Ok(())) => CycleOutcome::Success,
            None => {
                proof {
                    assert(false);
                }
                CycleOutcome::Success
            },
        },
    }
}

} // verus!
