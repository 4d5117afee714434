//! The session teardown protocol: every remote connection is closed once,
//! cloud resources are released exactly once after all closes were
//! attempted, and the reported error is the first one in evaluation order.

use vstd::prelude::*;

verus! {

/// One step of the session teardown.
#[derive(Clone, Copy, PartialEq, Eq, Structural, Debug)]
pub enum CleanupStep {
    /// Close the remote connection of the host with this index.
    CloseConnection { host: usize },
    /// Release the cloud resources.
    ReleaseResources,
}

/// The teardown schedule for `hosts` connections: close each connection
/// once, in order, then release the cloud resources, unconditionally last.
/// The runner walks the whole schedule even when a step fails; step
/// failures are logged, never escalated past the schedule.
pub fn cleanup_plan(hosts: usize) -> (plan: Vec<CleanupStep>)
    requires
        hosts < usize::MAX,
    ensures
        plan@.len() == hosts + 1,
        forall|i: int|
            0 <= i < hosts ==> plan@[i] == (CleanupStep::CloseConnection { host: i as usize }),
        plan@[hosts as int] == CleanupStep::ReleaseResources,
{
    let mut plan: Vec<CleanupStep> = Vec::new();
    let mut h: usize = 0;
    while h < hosts
        invariant
            h <= hosts < usize::MAX,
            plan@.len() == h,
            forall|i: int|
                0 <= i < h ==> plan@[i] == (CleanupStep::CloseConnection { host: i as usize }),
        decreases hosts - h,
    {
        plan.push(CleanupStep::CloseConnection { host: h });
        h = h + 1;
    }
    plan.push(CleanupStep::ReleaseResources);
    plan
}

/// Law: in the teardown schedule every host's connection is closed exactly
/// once, and the resource release appears exactly once — at the end, after
/// every close.
pub proof fn lemma_cleanup_plan_shape(plan: Seq<CleanupStep>, hosts: int)
    requires
        0 <= hosts < usize::MAX,
        plan.len() == hosts + 1,
        forall|i: int|
            0 <= i < hosts ==> plan[i] == (CleanupStep::CloseConnection { host: i as usize }),
        plan[hosts] == CleanupStep::ReleaseResources,
    ensures
        forall|i: int|
            0 <= i < plan.len() ==> ((plan[i] == CleanupStep::ReleaseResources) <==> i == hosts),
        forall|i: int, j: int|
            0 <= i < plan.len() && 0 <= j < plan.len() && i != j ==> plan[i] != plan[j],
{
    assert forall|i: int, j: int|
        0 <= i < plan.len() && 0 <= j < plan.len() && i != j implies plan[i] != plan[j] by {
        if i < hosts && j < hosts {
            assert(plan[i] == (CleanupStep::CloseConnection { host: i as usize }));
            assert(plan[j] == (CleanupStep::CloseConnection { host: j as usize }));
        }
    }
}

/// The error a finished run reports: the first in evaluation order —
/// provisioning, then the search loop, then resource release. A later
/// error never replaces an earlier one; it is only logged.
pub fn first_error<E>(provisioning: Option<E>, search_loop: Option<E>, release: Option<E>) -> (r:
    Option<E>)
    ensures
        r == (if provisioning is Some {
            provisioning
        } else if search_loop is Some {
            search_loop
        } else {
            release
        }),
{
    match provisioning {
        Some(e) => Some(e),
        None => match search_loop {
            Some(e) => Some(e),
            None => release,
        },
    }
}

} // verus!
