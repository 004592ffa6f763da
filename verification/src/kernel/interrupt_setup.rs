//! Which interrupt delivery a network driver ends up with. MSI-X is tried first, then MSI,
//! then (for the Intel drivers, where the platform has IO-APICs) a legacy route; after each
//! hardware step the driver reports how it went and is told what to do next.
use vstd::prelude::*;

verus! {

/// The driver whose interrupts are being set up.
#[derive(Debug, Clone, Copy, PartialEq, Eq, Structural)]
pub enum InterruptDriver {
    E1000,
    Igc,
    VirtioNet,
}

/// How a driver's interrupts are delivered once set up.
#[derive(Debug, Clone, Copy, PartialEq, Eq, Structural)]
pub enum InterruptMode {
    MsiX,
    Msi,
    Legacy,
}

/// One hardware step of the setup.
#[derive(Debug, Clone, Copy, PartialEq, Eq, Structural)]
pub enum InterruptStep {
    /// Register the driver's handler and reserve its vector.
    Prepare,
    /// Program an MSI-X table entry aimed at the local APIC.
    EnableMsiX,
    /// Unmask the MSI-X entry and the device's interrupt causes.
    ArmMsiX,
    /// Program the MSI capability aimed at the local APIC.
    EnableMsi,
    /// Enable MSI and the device's interrupt causes.
    ArmMsi,
    /// Look up the ACPI route of the device's legacy interrupt line.
    FindLegacyRoute,
    /// Program the IO-APIC redirection entry of that route.
    RouteGsi,
    /// Enable the device's interrupt causes on the legacy line (the route is then unmasked).
    ArmLegacy,
}

/// How a step went.
#[derive(Debug, Clone, Copy, PartialEq, Eq, Structural)]
pub enum StepOutcome {
    Succeeded,
    /// No local APIC id to aim a message interrupt at.
    NoDestination,
    /// The device's PCI resources say it lacks the capability being enabled.
    NotSupported,
    /// The device's PCI resources refused for another reason.
    ResourceRefused,
    /// Any other error of the driver.
    Failed,
}

/// What the driver does next: another step, or stop with the mode it ended up with (none:
/// interrupts stay off) and whether the last error is kept as the driver's failure.
#[derive(Debug, Clone, Copy, PartialEq, Eq, Structural)]
pub enum SetupAction {
    Perform(InterruptStep),
    Finish { mode: Option<InterruptMode>, record_failure: bool },
}

/// Where a driver goes once message interrupts are out: the legacy route for the Intel
/// drivers when the platform has one, else it stops without interrupts.
pub open spec fn legacy_fallback(driver: InterruptDriver, legacy_available: bool) -> SetupAction {
    if driver != InterruptDriver::VirtioNet && legacy_available {
        SetupAction::Perform(InterruptStep::FindLegacyRoute)
    } else {
        SetupAction::Finish { mode: None, record_failure: false }
    }
}

/// The decision after `step` ended with `outcome`. The Intel drivers stop at the first error
/// that is not a missing capability and keep it as their failure; virtio-net falls back from
/// any MSI-X problem to MSI and otherwise stops, keeping nothing. After MSI-X, an e1000 falls
/// back only from a missing MSI capability or destination, an igc also from any other refusal
/// of its PCI resources.
pub open spec fn next_action(
    driver: InterruptDriver,
    legacy_available: bool,
    step: InterruptStep,
    outcome: StepOutcome,
) -> SetupAction {
    let intel = driver != InterruptDriver::VirtioNet;
    let fail = SetupAction::Finish { mode: None, record_failure: intel };
    let succeeded = outcome == StepOutcome::Succeeded;
    match step {
        InterruptStep::Prepare => if succeeded {
            SetupAction::Perform(InterruptStep::EnableMsiX)
        } else {
            fail
        },
        InterruptStep::EnableMsiX => if succeeded {
            SetupAction::Perform(InterruptStep::ArmMsiX)
        } else if outcome == StepOutcome::Failed && intel {
            fail
        } else {
            SetupAction::Perform(InterruptStep::EnableMsi)
        },
        InterruptStep::ArmMsiX => if succeeded {
            SetupAction::Finish { mode: Some(InterruptMode::MsiX), record_failure: false }
        } else if intel {
            fail
        } else {
            SetupAction::Perform(InterruptStep::EnableMsi)
        },
        InterruptStep::EnableMsi => if succeeded {
            SetupAction::Perform(InterruptStep::ArmMsi)
        } else if outcome == StepOutcome::NoDestination || outcome == StepOutcome::NotSupported
            || (outcome == StepOutcome::ResourceRefused && driver == InterruptDriver::Igc) {
            legacy_fallback(driver, legacy_available)
        } else {
            fail
        },
        InterruptStep::ArmMsi => if succeeded {
            SetupAction::Finish { mode: Some(InterruptMode::Msi), record_failure: false }
        } else {
            fail
        },
        InterruptStep::FindLegacyRoute => if succeeded {
            SetupAction::Perform(InterruptStep::RouteGsi)
        } else {
            SetupAction::Finish { mode: None, record_failure: false }
        },
        InterruptStep::RouteGsi => if succeeded {
            SetupAction::Perform(InterruptStep::ArmLegacy)
        } else {
            SetupAction::Finish { mode: None, record_failure: false }
        },
        InterruptStep::ArmLegacy => if succeeded {
            SetupAction::Finish { mode: Some(InterruptMode::Legacy), record_failure: false }
        } else {
            fail
        },
    }
}

/// A driver's interrupt setup in progress: the step it was last told to perform.
#[derive(Debug, Clone, Copy, PartialEq, Eq, Structural)]
pub struct InterruptSetup {
    pub driver: InterruptDriver,
    pub legacy_available: bool,
    pub step: InterruptStep,
}

impl InterruptSetup {
    /// A setup that starts by preparing the driver's handler.
    pub fn start(driver: InterruptDriver, legacy_available: bool) -> (r: (InterruptSetup, SetupAction))
        ensures
            r.0 == (InterruptSetup { driver, legacy_available, step: InterruptStep::Prepare }),
            r.1 == SetupAction::Perform(InterruptStep::Prepare),
    {
        (
            InterruptSetup { driver, legacy_available, step: InterruptStep::Prepare },
            SetupAction::Perform(InterruptStep::Prepare),
        )
    }

    /// Takes the outcome of the current step and says what to do next; the setup moves on to
    /// that step, and stays where it is once it says to stop.
    pub fn advance(&mut self, outcome: StepOutcome) -> (r: SetupAction)
        ensures
            r == next_action(old(self).driver, old(self).legacy_available, old(self).step, outcome),
            final(self).driver == old(self).driver,
            final(self).legacy_available == old(self).legacy_available,
            final(self).step == (match r {
                SetupAction::Perform(s) => s,
                SetupAction::Finish { .. } => old(self).step,
            }),
    {
        let intel = match self.driver {
            InterruptDriver::VirtioNet => false,
            _ => true,
        };
        let fail = SetupAction::Finish { mode: None, record_failure: intel };
        let succeeded = match outcome {
            StepOutcome::Succeeded => true,
            _ => false,
        };
        let failed = match outcome {
            StepOutcome::Failed => true,
            _ => false,
        };
        let action = match self.step {
            InterruptStep::Prepare => if succeeded {
                SetupAction::Perform(InterruptStep::EnableMsiX)
            } else {
                fail
            },
            InterruptStep::EnableMsiX => if succeeded {
                SetupAction::Perform(InterruptStep::ArmMsiX)
            } else if failed && intel {
                fail
            } else {
                SetupAction::Perform(InterruptStep::EnableMsi)
            },
            InterruptStep::ArmMsiX => if succeeded {
                SetupAction::Finish { mode: Some(InterruptMode::MsiX), record_failure: false }
            } else if intel {
                fail
            } else {
                SetupAction::Perform(InterruptStep::EnableMsi)
            },
            InterruptStep::EnableMsi => {
                let falls_back = match outcome {
                    StepOutcome::NoDestination | StepOutcome::NotSupported => true,
                    StepOutcome::ResourceRefused => match self.driver {
                        InterruptDriver::Igc => true,
                        _ => false,
                    },
                    _ => false,
                };
                if succeeded {
                    SetupAction::Perform(InterruptStep::ArmMsi)
                } else if falls_back {
                    if intel && self.legacy_available {
                        SetupAction::Perform(InterruptStep::FindLegacyRoute)
                    } else {
                        SetupAction::Finish { mode: None, record_failure: false }
                    }
                } else {
                    fail
                }
            },
            InterruptStep::ArmMsi => if succeeded {
                SetupAction::Finish { mode: Some(InterruptMode::Msi), record_failure: false }
            } else {
                fail
            },
            InterruptStep::FindLegacyRoute => if succeeded {
                SetupAction::Perform(InterruptStep::RouteGsi)
            } else {
                SetupAction::Finish { mode: None, record_failure: false }
            },
            InterruptStep::RouteGsi => if succeeded {
                SetupAction::Perform(InterruptStep::ArmLegacy)
            } else {
                SetupAction::Finish { mode: None, record_failure: false }
            },
            InterruptStep::ArmLegacy => if succeeded {
                SetupAction::Finish { mode: Some(InterruptMode::Legacy), record_failure: false }
            } else {
                fail
            },
        };
        if let SetupAction::Perform(s) = action {
            self.step = s;
        }
        action
    }
}

/// The position of a step in the order the setup goes through them.
pub open spec fn step_rank(step: InterruptStep) -> int {
    match step {
        InterruptStep::Prepare => 0,
        InterruptStep::EnableMsiX => 1,
        InterruptStep::ArmMsiX => 2,
        InterruptStep::EnableMsi => 3,
        InterruptStep::ArmMsi => 4,
        InterruptStep::FindLegacyRoute => 5,
        InterruptStep::RouteGsi => 6,
        InterruptStep::ArmLegacy => 7,
    }
}

/// The step that arms a mode.
pub open spec fn arming_step(mode: InterruptMode) -> InterruptStep {
    match mode {
        InterruptMode::MsiX => InterruptStep::ArmMsiX,
        InterruptMode::Msi => InterruptStep::ArmMsi,
        InterruptMode::Legacy => InterruptStep::ArmLegacy,
    }
}

/// Every decision moves forward: a setup never goes back to a step it has passed, so it asks
/// for at most eight hardware steps, trying MSI-X before MSI before the legacy route.
pub proof fn lemma_setup_moves_forward(
    driver: InterruptDriver,
    legacy_available: bool,
    step: InterruptStep,
    outcome: StepOutcome,
)
    ensures
        next_action(driver, legacy_available, step, outcome) matches SetupAction::Perform(s)
            ==> step_rank(s) > step_rank(step),
{
}

/// A driver ends up with a mode only by arming that mode successfully, and then keeps no
/// failure.
pub proof fn lemma_mode_only_from_arming(
    driver: InterruptDriver,
    legacy_available: bool,
    step: InterruptStep,
    outcome: StepOutcome,
)
    ensures
        next_action(driver, legacy_available, step, outcome) matches SetupAction::Finish {
            mode: Some(m),
            record_failure,
        } ==> step == arming_step(m) && outcome == StepOutcome::Succeeded && !record_failure,
{
}

/// The setup turns to the legacy route only for an Intel driver on a platform that has one.
pub proof fn lemma_legacy_only_when_available(
    driver: InterruptDriver,
    legacy_available: bool,
    step: InterruptStep,
    outcome: StepOutcome,
)
    ensures
        next_action(driver, legacy_available, step, outcome) matches SetupAction::Perform(s)
            ==> (step_rank(step) < 5 && step_rank(s) >= 5 ==> legacy_available && driver
            != InterruptDriver::VirtioNet),
{
}

/// virtio-net never keeps an error as its failure; it just stays on polling.
pub proof fn lemma_virtio_keeps_no_failure(
    legacy_available: bool,
    step: InterruptStep,
    outcome: StepOutcome,
)
    ensures
        next_action(InterruptDriver::VirtioNet, legacy_available, step, outcome) matches SetupAction::Finish {
            record_failure,
            ..
        } ==> !record_failure,
{
}

} // verus!
