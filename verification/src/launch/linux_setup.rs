//! The order in which Wine, Proton and the runtimes are verified before a launch.

use vstd::prelude::*;

verus! {

/// A runtime that games need.
#[derive(Clone, Copy, PartialEq, Eq, Structural, Debug)]
pub enum Runtime {
    Eac,
    Umu,
}

impl Runtime {
    /// The name that the runtime is offered under.
    pub fn key(&self) -> (r: String)
        ensures
            r@ == (match self {
                Runtime::Eac => "eac_runtime"@,
                Runtime::Umu => "umu"@,
            }),
    {
        match self {
            Runtime::Eac => "eac_runtime".to_owned(),
            Runtime::Umu => "umu".to_owned(),
        }
    }
}

/// Where the setup is, named by the action whose outcome it waits for.
#[derive(Clone, Copy, PartialEq, Eq, Structural, Debug)]
pub enum SetupStep {
    Begin,
    CheckWine,
    InstallWine,
    GetRuntimes,
    CheckRuntime(Runtime),
    InstallRuntime(Runtime),
    SetUpRegistry,
    Finished,
}

/// What came of an action.
#[derive(Clone, Copy, PartialEq, Eq, Structural, Debug)]
pub enum SetupOutcome {
    /// The setup begins; whether the user switched the verification off.
    Begin { skip: bool },
    /// Whether what was checked is valid.
    Checked(bool),
    /// The action was done.
    Done,
}

/// Whether the outcome is one of the action that is waited for.
pub open spec fn fits(step: SetupStep, outcome: SetupOutcome) -> bool {
    match step {
        SetupStep::Begin => outcome is Begin,
        SetupStep::CheckWine => outcome is Checked,
        SetupStep::CheckRuntime(_) => outcome is Checked,
        SetupStep::Finished => false,
        _ => outcome is Done,
    }
}

/// The step after an outcome: what is not valid is installed, then the next one is checked.
pub open spec fn step_after(step: SetupStep, outcome: SetupOutcome) -> SetupStep {
    match step {
        SetupStep::Begin => if outcome == (SetupOutcome::Begin { skip: true }) {
            SetupStep::SetUpRegistry
        } else {
            SetupStep::CheckWine
        },
        SetupStep::CheckWine => if outcome == SetupOutcome::Checked(false) {
            SetupStep::InstallWine
        } else {
            SetupStep::GetRuntimes
        },
        SetupStep::InstallWine => SetupStep::GetRuntimes,
        SetupStep::GetRuntimes => SetupStep::CheckRuntime(Runtime::Eac),
        SetupStep::CheckRuntime(runtime) => if outcome == SetupOutcome::Checked(false) {
            SetupStep::InstallRuntime(runtime)
        } else {
            step_after_runtime(runtime)
        },
        SetupStep::InstallRuntime(runtime) => step_after_runtime(runtime),
        SetupStep::SetUpRegistry => SetupStep::Finished,
        SetupStep::Finished => SetupStep::Finished,
    }
}

/// The step after a runtime.
pub open spec fn step_after_runtime(runtime: Runtime) -> SetupStep {
    match runtime {
        Runtime::Eac => SetupStep::CheckRuntime(Runtime::Umu),
        Runtime::Umu => SetupStep::SetUpRegistry,
    }
}

fn next_after_runtime(runtime: Runtime) -> (r: SetupStep)
    ensures
        r == step_after_runtime(runtime),
{
    match runtime {
        Runtime::Eac => SetupStep::CheckRuntime(Runtime::Umu),
        Runtime::Umu => SetupStep::SetUpRegistry,
    }
}

/// Takes the setup one step on; the step that it returns is the action to do next.
pub fn mx_linux_setup(step: SetupStep, outcome: SetupOutcome) -> (r: SetupStep)
    requires
        fits(step, outcome),
    ensures
        r == step_after(step, outcome),
{
    match step {
        SetupStep::Begin => match outcome {
            SetupOutcome::Begin { skip } => if skip {
                SetupStep::SetUpRegistry
            } else {
                SetupStep::CheckWine
            },
            _ => SetupStep::CheckWine,
        },
        SetupStep::CheckWine => match outcome {
            SetupOutcome::Checked(valid) => if valid {
                SetupStep::GetRuntimes
            } else {
                SetupStep::InstallWine
            },
            _ => SetupStep::GetRuntimes,
        },
        SetupStep::InstallWine => SetupStep::GetRuntimes,
        SetupStep::GetRuntimes => SetupStep::CheckRuntime(Runtime::Eac),
        SetupStep::CheckRuntime(runtime) => match outcome {
            SetupOutcome::Checked(valid) => if valid {
                next_after_runtime(runtime)
            } else {
                SetupStep::InstallRuntime(runtime)
            },
            _ => next_after_runtime(runtime),
        },
        SetupStep::InstallRuntime(runtime) => next_after_runtime(runtime),
        SetupStep::SetUpRegistry => SetupStep::Finished,
        SetupStep::Finished => SetupStep::Finished,
    }
}

/// What a setup finds.
pub ghost struct Findings {
    pub skip: bool,
    pub wine_valid: bool,
    pub eac_valid: bool,
    pub umu_valid: bool,
}

/// The outcome of a step of a setup that finds this.
pub open spec fn outcome_of(step: SetupStep, found: Findings) -> SetupOutcome {
    match step {
        SetupStep::Begin => SetupOutcome::Begin { skip: found.skip },
        SetupStep::CheckWine => SetupOutcome::Checked(found.wine_valid),
        SetupStep::CheckRuntime(Runtime::Eac) => SetupOutcome::Checked(found.eac_valid),
        SetupStep::CheckRuntime(Runtime::Umu) => SetupOutcome::Checked(found.umu_valid),
        _ => SetupOutcome::Done,
    }
}

/// The first `n` actions after a step, fewer where the setup ends before.
pub open spec fn actions_after(step: SetupStep, found: Findings, n: nat) -> Seq<SetupStep>
    decreases n,
{
    let following = step_after(step, outcome_of(step, found));
    if n == 0 || following == SetupStep::Finished {
        Seq::empty()
    } else {
        seq![following] + actions_after(following, found, (n - 1) as nat)
    }
}

/// One action, where it is needed.
pub open spec fn if_needed(needed: bool, step: SetupStep) -> Seq<SetupStep> {
    if needed {
        seq![step]
    } else {
        Seq::empty()
    }
}

/// The actions of a setup: the registry is set up in any case, and last.
pub open spec fn setup_actions(found: Findings) -> Seq<SetupStep> {
    (if found.skip {
        Seq::empty()
    } else {
        seq![SetupStep::CheckWine] + if_needed(!found.wine_valid, SetupStep::InstallWine) + seq![
            SetupStep::GetRuntimes,
            SetupStep::CheckRuntime(Runtime::Eac),
        ] + if_needed(!found.eac_valid, SetupStep::InstallRuntime(Runtime::Eac)) + seq![
            SetupStep::CheckRuntime(Runtime::Umu),
        ] + if_needed(!found.umu_valid, SetupStep::InstallRuntime(Runtime::Umu))
    }).push(SetupStep::SetUpRegistry)
}

/// A setup does these actions in this order and ends: exactly what is not valid is
/// installed.
pub proof fn setup_does_what_is_needed(found: Findings)
    ensures
        actions_after(SetupStep::Begin, found, 9) == setup_actions(found),
{
    reveal_with_fuel(actions_after, 10);
    assert(actions_after(SetupStep::Begin, found, 9) =~= setup_actions(found));
}

/// The registry is set up in every setup, once and last. Where the verification is switched off,
/// nothing else is done.
pub proof fn registry_is_always_set_up_last(found: Findings)
    ensures
        ({
            let actions = actions_after(SetupStep::Begin, found, 9);
            &&& actions.len() > 0
            &&& actions.last() == SetupStep::SetUpRegistry
            &&& forall|i: int|
                0 <= i < actions.len() - 1 ==> #[trigger] actions[i] != SetupStep::SetUpRegistry
            &&& found.skip ==> actions.len() == 1
        }),
{
    setup_does_what_is_needed(found);
}

/// Where the verification is not switched off, Wine and both runtimes are checked; each is
/// installed exactly where it is not valid, right after its check.
pub proof fn what_is_not_valid_is_installed(found: Findings)
    requires
        !found.skip,
    ensures
        ({
            let actions = actions_after(SetupStep::Begin, found, 9);
            let eac = SetupStep::CheckRuntime(Runtime::Eac);
            let umu = SetupStep::CheckRuntime(Runtime::Umu);
            &&& actions[0] == SetupStep::CheckWine
            &&& actions.contains(SetupStep::GetRuntimes)
            &&& actions.contains(eac)
            &&& actions.contains(umu)
            &&& actions.contains(SetupStep::InstallWine) <==> !found.wine_valid
            &&& actions.contains(SetupStep::InstallRuntime(Runtime::Eac)) <==> !found.eac_valid
            &&& actions.contains(SetupStep::InstallRuntime(Runtime::Umu)) <==> !found.umu_valid
            &&& actions.len() == 5 + (if found.wine_valid {
                0int
            } else {
                1
            }) + (if found.eac_valid {
                0int
            } else {
                1
            }) + (if found.umu_valid {
                0int
            } else {
                1
            })
        }),
{
    setup_does_what_is_needed(found);
    let w: int = if found.wine_valid {
        0
    } else {
        1
    };
    let e: int = if found.eac_valid {
        0
    } else {
        1
    };
    let actions = actions_after(SetupStep::Begin, found, 9);
    assert(actions[1 + w] == SetupStep::GetRuntimes);
    assert(actions[2 + w] == SetupStep::CheckRuntime(Runtime::Eac));
    assert(actions[3 + w + e] == SetupStep::CheckRuntime(Runtime::Umu));
    if !found.wine_valid {
        assert(actions[1] == SetupStep::InstallWine);
    }
    if !found.eac_valid {
        assert(actions[3 + w] == SetupStep::InstallRuntime(Runtime::Eac));
    }
    if !found.umu_valid {
        assert(actions[4 + w + e] == SetupStep::InstallRuntime(Runtime::Umu));
    }
}

/// The check of Wine and of a runtime leads to its installation where it fails, and what is
/// installed is not checked again.
pub proof fn failed_check_leads_to_installation(runtime: Runtime)
    ensures
        step_after(SetupStep::CheckWine, SetupOutcome::Checked(false)) == SetupStep::InstallWine,
        step_after(SetupStep::CheckRuntime(runtime), SetupOutcome::Checked(false))
            == SetupStep::InstallRuntime(runtime),
        step_after(SetupStep::CheckWine, SetupOutcome::Checked(true)) == step_after(
            SetupStep::InstallWine,
            SetupOutcome::Done,
        ),
        step_after(SetupStep::CheckRuntime(runtime), SetupOutcome::Checked(true)) == step_after(
            SetupStep::InstallRuntime(runtime),
            SetupOutcome::Done,
        ),
{
}

} // verus!
