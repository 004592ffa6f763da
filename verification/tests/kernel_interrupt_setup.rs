use rustos::kernel::interrupt_setup::{
    InterruptDriver, InterruptMode, InterruptSetup, InterruptStep, SetupAction, StepOutcome,
};

fn run(driver: InterruptDriver, legacy_available: bool, outcomes: &[StepOutcome]) -> (Vec<InterruptStep>, SetupAction) {
    let (mut setup, mut action) = InterruptSetup::start(driver, legacy_available);
    let mut steps = Vec::new();
    for outcome in outcomes {
        match action {
            SetupAction::Perform(step) => steps.push(step),
            SetupAction::Finish { .. } => panic!("setup finished before all outcomes were used"),
        }
        action = setup.advance(*outcome);
    }
    (steps, action)
}

#[test]
fn msix_is_preferred_when_it_arms() {
    let (steps, action) = run(
        InterruptDriver::E1000,
        true,
        &[StepOutcome::Succeeded, StepOutcome::Succeeded, StepOutcome::Succeeded],
    );
    assert_eq!(steps, vec![InterruptStep::Prepare, InterruptStep::EnableMsiX, InterruptStep::ArmMsiX]);
    assert_eq!(action, SetupAction::Finish { mode: Some(InterruptMode::MsiX), record_failure: false });
}

#[test]
fn missing_msix_falls_back_to_msi() {
    let (steps, action) = run(
        InterruptDriver::Igc,
        true,
        &[StepOutcome::Succeeded, StepOutcome::NotSupported, StepOutcome::Succeeded, StepOutcome::Succeeded],
    );
    assert_eq!(
        steps,
        vec![InterruptStep::Prepare, InterruptStep::EnableMsiX, InterruptStep::EnableMsi, InterruptStep::ArmMsi]
    );
    assert_eq!(action, SetupAction::Finish { mode: Some(InterruptMode::Msi), record_failure: false });
}

#[test]
fn e1000_keeps_an_msi_refusal_as_its_failure() {
    let (_, action) = run(
        InterruptDriver::E1000,
        true,
        &[StepOutcome::Succeeded, StepOutcome::NoDestination, StepOutcome::ResourceRefused],
    );
    assert_eq!(action, SetupAction::Finish { mode: None, record_failure: true });
}

#[test]
fn igc_falls_back_to_the_legacy_route() {
    let (steps, action) = run(
        InterruptDriver::Igc,
        true,
        &[
            StepOutcome::Succeeded,
            StepOutcome::ResourceRefused,
            StepOutcome::ResourceRefused,
            StepOutcome::Succeeded,
            StepOutcome::Succeeded,
            StepOutcome::Succeeded,
        ],
    );
    assert_eq!(
        steps,
        vec![
            InterruptStep::Prepare,
            InterruptStep::EnableMsiX,
            InterruptStep::EnableMsi,
            InterruptStep::FindLegacyRoute,
            InterruptStep::RouteGsi,
            InterruptStep::ArmLegacy,
        ]
    );
    assert_eq!(action, SetupAction::Finish { mode: Some(InterruptMode::Legacy), record_failure: false });
}

#[test]
fn no_legacy_route_leaves_interrupts_off_without_a_failure() {
    let (_, action) = run(
        InterruptDriver::E1000,
        false,
        &[StepOutcome::Succeeded, StepOutcome::NotSupported, StepOutcome::NotSupported],
    );
    assert_eq!(action, SetupAction::Finish { mode: None, record_failure: false });
    let (_, action) = run(
        InterruptDriver::E1000,
        true,
        &[StepOutcome::Succeeded, StepOutcome::NotSupported, StepOutcome::NotSupported, StepOutcome::Failed],
    );
    assert_eq!(action, SetupAction::Finish { mode: None, record_failure: false });
}

#[test]
fn a_failed_legacy_arm_is_kept() {
    let (_, action) = run(
        InterruptDriver::E1000,
        true,
        &[
            StepOutcome::Succeeded,
            StepOutcome::NoDestination,
            StepOutcome::NoDestination,
            StepOutcome::Succeeded,
            StepOutcome::Succeeded,
            StepOutcome::Failed,
        ],
    );
    assert_eq!(action, SetupAction::Finish { mode: None, record_failure: true });
}

#[test]
fn prepare_failure_stops_the_setup() {
    let (_, action) = run(InterruptDriver::Igc, true, &[StepOutcome::Failed]);
    assert_eq!(action, SetupAction::Finish { mode: None, record_failure: true });
    let (_, action) = run(InterruptDriver::VirtioNet, true, &[StepOutcome::Failed]);
    assert_eq!(action, SetupAction::Finish { mode: None, record_failure: false });
}

#[test]
fn virtio_falls_back_from_a_failed_msix_arm_and_never_uses_legacy() {
    let (steps, action) = run(
        InterruptDriver::VirtioNet,
        true,
        &[StepOutcome::Succeeded, StepOutcome::Succeeded, StepOutcome::Failed, StepOutcome::Succeeded, StepOutcome::Succeeded],
    );
    assert_eq!(
        steps,
        vec![
            InterruptStep::Prepare,
            InterruptStep::EnableMsiX,
            InterruptStep::ArmMsiX,
            InterruptStep::EnableMsi,
            InterruptStep::ArmMsi,
        ]
    );
    assert_eq!(action, SetupAction::Finish { mode: Some(InterruptMode::Msi), record_failure: false });
    let (_, action) = run(
        InterruptDriver::VirtioNet,
        true,
        &[StepOutcome::Succeeded, StepOutcome::Failed, StepOutcome::NotSupported],
    );
    assert_eq!(action, SetupAction::Finish { mode: None, record_failure: false });
}
