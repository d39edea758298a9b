//! The decision logic of the interface-mutation workflow.  Per interface the
//! workflow runs `Selected -> Probed -> Down -> Rewritten -> Up`, aborting at
//! the first failed probe or control step, and never starting at all without
//! elevated privilege.  The external probe and control operations themselves
//! are performed by the surrounding program, which feeds their outcomes back
//! in as events; every decision here is a pure function of state and event.

use vstd::prelude::*;

verus! {

/// One of the three external interface-control calls, in workflow order.
#[derive(Clone, Copy, Debug, PartialEq, Eq, Structural)]
pub enum MutationStep {
    /// Render the interface down.
    Disable,
    /// Rewrite the interface's hardware address.
    Rewrite,
    /// Render the interface up again.
    Enable,
}

/// Why one interface's mutation was given up.
#[derive(Clone, Copy, Debug, PartialEq, Eq, Structural)]
pub enum AbortReason {
    /// The privilege oracle reported a non-elevated caller; nothing was
    /// probed or touched.
    NotPermitted,
    /// The address query for the interface failed.
    ProbeFailed,
    /// The interface reported no assigned hardware address.
    NoAddress,
    /// The named interface-control step failed.
    StepFailed(MutationStep),
}

/// The per-interface workflow state.
#[derive(Clone, Copy, Debug, PartialEq, Eq, Structural)]
pub enum MutationState {
    /// A record and an interface name are bound; nothing external has run.
    Selected,
    /// The address query confirmed the interface exists and is queryable.
    Probed,
    /// The interface was rendered down.
    Down,
    /// The new hardware address was written.
    Rewritten,
    /// The interface is up again: terminal success.
    Up,
    /// Terminal failure, with its reason.
    Aborted(AbortReason),
}

/// What the surrounding program must perform next for this interface.
#[derive(Clone, Copy, Debug, PartialEq, Eq, Structural)]
pub enum MutationAction {
    /// Query the interface's current hardware address.
    Probe,
    /// Issue the named interface-control call.
    Control(MutationStep),
}

/// The reported outcome of a performed action.
#[derive(Clone, Copy, Debug, PartialEq, Eq, Structural)]
pub enum MutationEvent {
    /// The address query found an assigned address.
    ProbeOk,
    /// The address query found the interface without an assigned address.
    ProbeNoAddress,
    /// The address query failed.
    ProbeError,
    /// The requested control step succeeded.
    StepOk,
    /// The requested control step failed.
    StepError,
}

/// The state an interface's workflow starts in: `Selected` under elevated
/// privilege, refused outright otherwise.
pub open spec fn spec_start(privileged: bool) -> MutationState {
    if privileged {
        MutationState::Selected
    } else {
        MutationState::Aborted(AbortReason::NotPermitted)
    }
}

/// The action owed in a state; none in the two terminal states.
pub open spec fn spec_action(st: MutationState) -> Option<MutationAction> {
    match st {
        MutationState::Selected => Some(MutationAction::Probe),
        MutationState::Probed => Some(MutationAction::Control(MutationStep::Disable)),
        MutationState::Down => Some(MutationAction::Control(MutationStep::Rewrite)),
        MutationState::Rewritten => Some(MutationAction::Control(MutationStep::Enable)),
        MutationState::Up => None,
        MutationState::Aborted(_) => None,
    }
}

/// The transition on one reported event.  A failure aborts with the step
/// that failed; terminal states absorb every event; an event that does not
/// answer the pending action changes nothing.
pub open spec fn spec_step(st: MutationState, ev: MutationEvent) -> MutationState {
    match st {
        MutationState::Selected => match ev {
            MutationEvent::ProbeOk => MutationState::Probed,
            MutationEvent::ProbeNoAddress => MutationState::Aborted(AbortReason::NoAddress),
            MutationEvent::ProbeError => MutationState::Aborted(AbortReason::ProbeFailed),
            _ => st,
        },
        MutationState::Probed => match ev {
            MutationEvent::StepOk => MutationState::Down,
            MutationEvent::StepError => MutationState::Aborted(
                AbortReason::StepFailed(MutationStep::Disable),
            ),
            _ => st,
        },
        MutationState::Down => match ev {
            MutationEvent::StepOk => MutationState::Rewritten,
            MutationEvent::StepError => MutationState::Aborted(
                AbortReason::StepFailed(MutationStep::Rewrite),
            ),
            _ => st,
        },
        MutationState::Rewritten => match ev {
            MutationEvent::StepOk => MutationState::Up,
            MutationEvent::StepError => MutationState::Aborted(
                AbortReason::StepFailed(MutationStep::Enable),
            ),
            _ => st,
        },
        MutationState::Up => st,
        MutationState::Aborted(_) => st,
    }
}

/// The state after a whole sequence of reported events.
pub open spec fn run_events(st: MutationState, evs: Seq<MutationEvent>) -> MutationState
    decreases evs.len(),
{
    if evs.len() == 0 {
        st
    } else {
        run_events(spec_step(st, evs[0]), evs.drop_first())
    }
}

/// Starts one interface's workflow, refusing it up-front when the privilege
/// oracle reported a non-elevated caller.
pub fn start(privileged: bool) -> (r: MutationState)
    ensures
        r == spec_start(privileged),
{
    if privileged {
        MutationState::Selected
    } else {
        MutationState::Aborted(AbortReason::NotPermitted)
    }
}

/// The external action owed in the given state, if any.
pub fn next_action(st: MutationState) -> (r: Option<MutationAction>)
    ensures
        r == spec_action(st),
{
    match st {
        MutationState::Selected => Some(MutationAction::Probe),
        MutationState::Probed => Some(MutationAction::Control(MutationStep::Disable)),
        MutationState::Down => Some(MutationAction::Control(MutationStep::Rewrite)),
        MutationState::Rewritten => Some(MutationAction::Control(MutationStep::Enable)),
        MutationState::Up => None,
        MutationState::Aborted(_) => None,
    }
}

/// Advances one interface's workflow by one reported event.
pub fn step(st: MutationState, ev: MutationEvent) -> (r: MutationState)
    ensures
        r == spec_step(st, ev),
{
    match st {
        MutationState::Selected => match ev {
            MutationEvent::ProbeOk => MutationState::Probed,
            MutationEvent::ProbeNoAddress => MutationState::Aborted(AbortReason::NoAddress),
            MutationEvent::ProbeError => MutationState::Aborted(AbortReason::ProbeFailed),
            _ => st,
        },
        MutationState::Probed => match ev {
            MutationEvent::StepOk => MutationState::Down,
            MutationEvent::StepError => MutationState::Aborted(
                AbortReason::StepFailed(MutationStep::Disable),
            ),
            _ => st,
        },
        MutationState::Down => match ev {
            MutationEvent::StepOk => MutationState::Rewritten,
            MutationEvent::StepError => MutationState::Aborted(
                AbortReason::StepFailed(MutationStep::Rewrite),
            ),
            _ => st,
        },
        MutationState::Rewritten => match ev {
            MutationEvent::StepOk => MutationState::Up,
            MutationEvent::StepError => MutationState::Aborted(
                AbortReason::StepFailed(MutationStep::Enable),
            ),
            _ => st,
        },
        MutationState::Up => st,
        MutationState::Aborted(_) => st,
    }
}

/// An aborted workflow stays aborted, with its reason, whatever else is
/// reported.
pub proof fn lemma_aborted_absorbing(reason: AbortReason, evs: Seq<MutationEvent>)
    ensures
        run_events(MutationState::Aborted(reason), evs) == MutationState::Aborted(reason),
    decreases evs.len(),
{
    if evs.len() > 0 {
        lemma_aborted_absorbing(reason, evs.drop_first());
    }
}

/// Without elevated privilege the workflow never owes any external action:
/// whatever events are reported, no probe and no control call is ever
/// requested, and the outcome stays the up-front refusal.
pub proof fn lemma_unprivileged_never_acts(evs: Seq<MutationEvent>)
    ensures
        run_events(spec_start(false), evs) == MutationState::Aborted(AbortReason::NotPermitted),
        spec_action(run_events(spec_start(false), evs)) is None,
{
    lemma_aborted_absorbing(AbortReason::NotPermitted, evs);
}

/// The outcome of each interface in a batch, each run independently from the
/// same start state over its own events.
pub open spec fn batch_outcomes(privileged: bool, traces: Seq<Seq<MutationEvent>>) -> Seq<
    MutationState,
> {
    traces.map_values(|t: Seq<MutationEvent>| run_events(spec_start(privileged), t))
}

/// Per-interface isolation: an interface's outcome in a batch is decided by
/// its own events alone.  Two batches that agree on one interface's events
/// give that interface the same outcome, however the other interfaces fare.
pub proof fn lemma_batch_isolation(
    privileged: bool,
    traces1: Seq<Seq<MutationEvent>>,
    traces2: Seq<Seq<MutationEvent>>,
    i: int,
)
    requires
        0 <= i < traces1.len(),
        0 <= i < traces2.len(),
        traces1[i] == traces2[i],
    ensures
        batch_outcomes(privileged, traces1)[i] == batch_outcomes(privileged, traces2)[i],
        batch_outcomes(privileged, traces1)[i] == run_events(spec_start(privileged), traces1[i]),
{
}

} // verus!
