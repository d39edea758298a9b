use random_mac::{
    AbortReason, MutationAction, MutationEvent, MutationState, MutationStep, next_action, start,
    step,
};

/// Drives one interface's workflow to a terminal state, answering every
/// probe with `probe` and every control step with `control`, and counts the
/// external actions that were requested.
fn drive(
    privileged: bool,
    probe: MutationEvent,
    control: MutationEvent,
) -> (MutationState, usize) {
    let mut st = start(privileged);
    let mut actions: usize = 0;
    for _ in 0..8 {
        match next_action(st) {
            Some(MutationAction::Probe) => {
                actions += 1;
                st = step(st, probe);
            }
            Some(MutationAction::Control(_)) => {
                actions += 1;
                st = step(st, control);
            }
            None => break,
        }
    }
    (st, actions)
}

#[test]
fn successful_run_walks_the_whole_sequence() {
    let (st, actions) = drive(true, MutationEvent::ProbeOk, MutationEvent::StepOk);
    assert_eq!(st, MutationState::Up);
    assert_eq!(actions, 4);
}

#[test]
fn unprivileged_run_requests_no_external_action() {
    let (st, actions) = drive(false, MutationEvent::ProbeOk, MutationEvent::StepOk);
    assert_eq!(st, MutationState::Aborted(AbortReason::NotPermitted));
    assert_eq!(actions, 0);
}

#[test]
fn unprivileged_state_absorbs_events() {
    let mut st = start(false);
    for ev in [
        MutationEvent::ProbeOk,
        MutationEvent::StepOk,
        MutationEvent::StepError,
    ] {
        st = step(st, ev);
        assert_eq!(st, MutationState::Aborted(AbortReason::NotPermitted));
        assert_eq!(next_action(st), None);
    }
}

#[test]
fn probe_failure_aborts_before_any_control_step() {
    let (st, actions) = drive(true, MutationEvent::ProbeError, MutationEvent::StepOk);
    assert_eq!(st, MutationState::Aborted(AbortReason::ProbeFailed));
    assert_eq!(actions, 1);
}

#[test]
fn missing_address_aborts_before_any_control_step() {
    let (st, actions) = drive(true, MutationEvent::ProbeNoAddress, MutationEvent::StepOk);
    assert_eq!(st, MutationState::Aborted(AbortReason::NoAddress));
    assert_eq!(actions, 1);
}

#[test]
fn first_control_failure_names_the_disable_step() {
    let (st, _) = drive(true, MutationEvent::ProbeOk, MutationEvent::StepError);
    assert_eq!(
        st,
        MutationState::Aborted(AbortReason::StepFailed(MutationStep::Disable))
    );
}

#[test]
fn rewrite_failure_names_the_rewrite_step() {
    let mut st = start(true);
    st = step(st, MutationEvent::ProbeOk);
    st = step(st, MutationEvent::StepOk);
    assert_eq!(
        next_action(st),
        Some(MutationAction::Control(MutationStep::Rewrite))
    );
    st = step(st, MutationEvent::StepError);
    assert_eq!(
        st,
        MutationState::Aborted(AbortReason::StepFailed(MutationStep::Rewrite))
    );
}

#[test]
fn enable_failure_names_the_enable_step() {
    let mut st = start(true);
    st = step(st, MutationEvent::ProbeOk);
    st = step(st, MutationEvent::StepOk);
    st = step(st, MutationEvent::StepOk);
    assert_eq!(
        next_action(st),
        Some(MutationAction::Control(MutationStep::Enable))
    );
    st = step(st, MutationEvent::StepError);
    assert_eq!(
        st,
        MutationState::Aborted(AbortReason::StepFailed(MutationStep::Enable))
    );
}

#[test]
fn control_steps_come_in_workflow_order() {
    let mut st = start(true);
    assert_eq!(next_action(st), Some(MutationAction::Probe));
    st = step(st, MutationEvent::ProbeOk);
    assert_eq!(
        next_action(st),
        Some(MutationAction::Control(MutationStep::Disable))
    );
    st = step(st, MutationEvent::StepOk);
    assert_eq!(
        next_action(st),
        Some(MutationAction::Control(MutationStep::Rewrite))
    );
    st = step(st, MutationEvent::StepOk);
    assert_eq!(
        next_action(st),
        Some(MutationAction::Control(MutationStep::Enable))
    );
    st = step(st, MutationEvent::StepOk);
    assert_eq!(st, MutationState::Up);
    assert_eq!(next_action(st), None);
}

#[test]
fn one_failed_interface_does_not_halt_the_batch() {
    let probes = [
        MutationEvent::ProbeOk,
        MutationEvent::ProbeError,
        MutationEvent::ProbeOk,
    ];
    let mut outcomes = Vec::new();
    for probe in probes {
        let (st, _) = drive(true, probe, MutationEvent::StepOk);
        outcomes.push(st);
    }
    assert_eq!(
        outcomes,
        vec![
            MutationState::Up,
            MutationState::Aborted(AbortReason::ProbeFailed),
            MutationState::Up,
        ]
    );
}
