//! The steps that bring one service to its target, in each of the three modes.
//!
//! A deployment starts as `Loaded`. Rendering brings it to `Rendered`. From
//! there a dry run only reports and ends as `DryReported`; a safe install
//! writes the unit file and ends as `Written`; a full install writes the unit
//! file and then enables and starts the service, which ends it as
//! `WrittenAndActivated`. A step that fails ends the deployment where it
//! stands: nothing is tried again and nothing is undone.
//!
//! The caller performs the steps. It asks for the next one, carries it out,
//! and tells how it went.

use vstd::prelude::*;
use crate::error::{DeployError, ErrorView};

verus! {

/// How a run treats the services.
#[derive(Debug, Clone, Copy, PartialEq, Eq, Structural)]
pub enum Mode {
    /// Report what would be done, and do nothing.
    DryRun,
    /// Write the unit file and leave the service alone.
    SafeInstall,
    /// Write the unit file, then enable and start the service.
    FullInstall,
}

/// What a run was asked for on the command line.
#[derive(Debug, Clone, Copy, PartialEq, Eq, Structural)]
pub struct Options {
    pub dry_run: bool,
    pub safe: bool,
}

/// Where a deployment stands.
#[derive(Debug, Clone, Copy, PartialEq, Eq, Structural)]
pub enum Stage {
    Loaded,
    Rendered,
    DryReported,
    Written,
    WrittenAndActivated,
}

/// One step of a deployment, for the caller to carry out.
#[derive(Debug, Clone, Copy, PartialEq, Eq, Structural)]
pub enum Action {
    /// Check the description and write the text of its unit file.
    Render,
    /// Tell the operator what would be done.
    Report,
    /// Make the target directory if it is missing, and write the unit file into it.
    WriteUnit,
    /// Enable and start the service.
    Activate,
}

/// The deployment of one service.
#[derive(Debug, Clone, Copy, PartialEq, Eq, Structural)]
pub struct Deployment {
    pub mode: Mode,
    pub stage: Stage,
    /// True once a step has failed.
    pub failed: bool,
}

impl Options {
    /// The mode that the options ask for: a dry run where it is asked for,
    /// with or without `safe`; else a safe install where `safe` is set; else
    /// a full install.
    pub open spec fn spec_mode(self) -> Mode {
        if self.dry_run {
            Mode::DryRun
        } else if self.safe {
            Mode::SafeInstall
        } else {
            Mode::FullInstall
        }
    }

    /// The mode that the options ask for.
    pub fn mode(&self) -> (mode: Mode)
        ensures
            mode == self.spec_mode(),
    {
        if self.dry_run {
            Mode::DryRun
        } else if self.safe {
            Mode::SafeInstall
        } else {
            Mode::FullInstall
        }
    }

    /// Tells whether the report of a dry run also says that the service would
    /// be enabled and started: it does when `safe` is set beside the dry run.
    pub fn announces_activation(&self) -> (announces: bool)
        ensures
            announces == (self.dry_run && self.safe),
    {
        self.dry_run && self.safe
    }
}

impl Deployment {
    /// The step that is due, or `None` where the deployment has ended.
    pub open spec fn spec_next_action(self) -> Option<Action> {
        if self.failed {
            None
        } else {
            match self.stage {
                Stage::Loaded => Some(Action::Render),
                Stage::Rendered => match self.mode {
                    Mode::DryRun => Some(Action::Report),
                    _ => Some(Action::WriteUnit),
                },
                Stage::Written => match self.mode {
                    Mode::FullInstall => Some(Action::Activate),
                    _ => None,
                },
                Stage::DryReported => None,
                Stage::WrittenAndActivated => None,
            }
        }
    }

    /// The stage that a step leads to when it succeeds.
    pub open spec fn stage_after(action: Action) -> Stage {
        match action {
            Action::Render => Stage::Rendered,
            Action::Report => Stage::DryReported,
            Action::WriteUnit => Stage::Written,
            Action::Activate => Stage::WrittenAndActivated,
        }
    }

    /// The deployment after the step that was due went as `succeeded` says.
    /// Where no step was due, nothing changes.
    pub open spec fn spec_record(self, succeeded: bool) -> Deployment {
        match self.spec_next_action() {
            None => self,
            Some(action) => if succeeded {
                Deployment { mode: self.mode, stage: Self::stage_after(action), failed: false }
            } else {
                Deployment { mode: self.mode, stage: self.stage, failed: true }
            },
        }
    }

    /// The number of steps that are left at most.
    pub open spec fn steps_left(self) -> nat {
        if self.spec_next_action() is None {
            0
        } else {
            match self.stage {
                Stage::Loaded => 3,
                Stage::Rendered => 2,
                _ => 1,
            }
        }
    }

    /// The steps that are carried out from here on, where `succeeds` tells of
    /// each step how it goes.
    pub open spec fn steps(self, succeeds: spec_fn(Action) -> bool) -> Seq<Action>
        decreases self.steps_left(),
    {
        match self.spec_next_action() {
            None => Seq::empty(),
            Some(action) => seq![action] + self.spec_record(succeeds(action)).steps(succeeds),
        }
    }

    /// The stage at which the deployment comes to rest, where `succeeds`
    /// tells of each step how it goes.
    pub open spec fn outcome(self, succeeds: spec_fn(Action) -> bool) -> Deployment
        decreases self.steps_left(),
    {
        match self.spec_next_action() {
            None => self,
            Some(action) => self.spec_record(succeeds(action)).outcome(succeeds),
        }
    }

    /// A deployment that has not begun.
    pub fn new(mode: Mode) -> (deployment: Deployment)
        ensures
            deployment == begun(mode),
    {
        Deployment { mode, stage: Stage::Loaded, failed: false }
    }

    /// The step that is due, or `None` where the deployment has ended.
    pub fn next_action(&self) -> (action: Option<Action>)
        ensures
            action == self.spec_next_action(),
    {
        if self.failed {
            return None;
        }
        match self.stage {
            Stage::Loaded => Some(Action::Render),
            Stage::Rendered => match self.mode {
                Mode::DryRun => Some(Action::Report),
                _ => Some(Action::WriteUnit),
            },
            Stage::Written => match self.mode {
                Mode::FullInstall => Some(Action::Activate),
                _ => None,
            },
            Stage::DryReported => None,
            Stage::WrittenAndActivated => None,
        }
    }

    /// Takes note of how the step that was due went.
    pub fn record(&mut self, succeeded: bool)
        ensures
            *final(self) == old(self).spec_record(succeeded),
    {
        match self.next_action() {
            None => {},
            Some(action) => {
                if succeeded {
                    self.stage = match action {
                        Action::Render => Stage::Rendered,
                        Action::Report => Stage::DryReported,
                        Action::WriteUnit => Stage::Written,
                        Action::Activate => Stage::WrittenAndActivated,
                    };
                } else {
                    self.failed = true;
                }
            },
        }
    }

    /// Tells whether the deployment has ended, well or not.
    pub fn is_finished(&self) -> (finished: bool)
        ensures
            finished == (self.spec_next_action() is None),
    {
        self.next_action().is_none()
    }
}

/// The failure to report when the step `action` on the service `descriptor`
/// has failed. A failed rendering is reported by the renderer, which knows
/// the field, and a report cannot fail: for these there is none.
pub open spec fn failure_of(action: Action, descriptor: Seq<char>) -> Option<ErrorView> {
    match action {
        Action::WriteUnit => Some(ErrorView::IOError { descriptor }),
        Action::Activate => Some(ErrorView::ActivationError { descriptor }),
        _ => None,
    }
}

/// The failure to report when the step `action` on the service `descriptor`
/// has failed.
pub fn step_failure(action: Action, descriptor: &str) -> (failure: Option<DeployError>)
    ensures
        match failure {
            Some(e) => failure_of(action, descriptor@) == Some(e@),
            None => failure_of(action, descriptor@) is None,
        },
{
    match action {
        Action::WriteUnit => Some(DeployError::IOError { descriptor: String::from_str(descriptor) }),
        Action::Activate => Some(
            DeployError::ActivationError { descriptor: String::from_str(descriptor) },
        ),
        _ => None,
    }
}

/// What a dry run tells of one service: the text of the unit file, the path
/// that it would be written to and, where `announce_activation` is set, that
/// the service would be enabled and started.
pub open spec fn report_text(
    name: Seq<char>,
    unit_path: Seq<char>,
    unit_text: Seq<char>,
    announce_activation: bool,
) -> Seq<char> {
    "Generated service config for '"@ + name + "':\n\n"@ + unit_text + "\n"@
        + "Dry run: Would create systemd unit: "@ + unit_path + "\n"@ + if announce_activation {
        "Dry run: Would enable service: "@ + name + "\n"@ + "Dry run: Would start service: "@ + name
            + "\n"@
    } else {
        Seq::empty()
    }
}

/// Writes what a dry run tells of one service.
pub fn dry_run_report(name: &str, unit_path: &str, unit_text: &str, announce_activation: bool) -> (report:
    String)
    ensures
        report@ == report_text(name@, unit_path@, unit_text@, announce_activation),
{
    let mut report = String::from_str("Generated service config for '");
    report.append(name);
    report.append("':\n\n");
    report.append(unit_text);
    report.append("\n");
    report.append("Dry run: Would create systemd unit: ");
    report.append(unit_path);
    report.append("\n");
    if announce_activation {
        report.append("Dry run: Would enable service: ");
        report.append(name);
        report.append("\n");
        report.append("Dry run: Would start service: ");
        report.append(name);
        report.append("\n");
    }
    assert(report@ =~= report_text(name@, unit_path@, unit_text@, announce_activation));
    report
}

/// The number of times that `action` stands in `steps`.
pub open spec fn times(steps: Seq<Action>, action: Action) -> nat
    decreases steps.len(),
{
    if steps.len() == 0 {
        0
    } else {
        times(steps.drop_last(), action) + once_if(steps.last() == action)
    }
}

/// A deployment that has not begun.
pub open spec fn begun(mode: Mode) -> Deployment {
    Deployment { mode, stage: Stage::Loaded, failed: false }
}

/// One if `happens`, else zero.
pub open spec fn once_if(happens: bool) -> nat {
    if happens {
        1
    } else {
        0
    }
}

/// The steps of a deployment from its beginning: rendering first; then, if
/// that succeeds, the report of a dry run or the writing of the unit file;
/// then, in a full install whose unit file was written, the activation.
pub open spec fn course(mode: Mode, succeeds: spec_fn(Action) -> bool) -> Seq<Action> {
    if !succeeds(Action::Render) {
        seq![Action::Render]
    } else {
        match mode {
            Mode::DryRun => seq![Action::Render, Action::Report],
            Mode::SafeInstall => seq![Action::Render, Action::WriteUnit],
            Mode::FullInstall => if succeeds(Action::WriteUnit) {
                seq![Action::Render, Action::WriteUnit, Action::Activate]
            } else {
                seq![Action::Render, Action::WriteUnit]
            },
        }
    }
}

/// The stage at which a deployment comes to rest, and whether it failed.
pub open spec fn rest(mode: Mode, succeeds: spec_fn(Action) -> bool) -> Deployment {
    if !succeeds(Action::Render) {
        Deployment { mode, stage: Stage::Loaded, failed: true }
    } else {
        match mode {
            Mode::DryRun => if succeeds(Action::Report) {
                Deployment { mode, stage: Stage::DryReported, failed: false }
            } else {
                Deployment { mode, stage: Stage::Rendered, failed: true }
            },
            Mode::SafeInstall => if succeeds(Action::WriteUnit) {
                Deployment { mode, stage: Stage::Written, failed: false }
            } else {
                Deployment { mode, stage: Stage::Rendered, failed: true }
            },
            Mode::FullInstall => if !succeeds(Action::WriteUnit) {
                Deployment { mode, stage: Stage::Rendered, failed: true }
            } else if succeeds(Action::Activate) {
                Deployment { mode, stage: Stage::WrittenAndActivated, failed: false }
            } else {
                Deployment { mode, stage: Stage::Written, failed: true }
            },
        }
    }
}

/// The steps of a deployment are those of its course, in each mode and for
/// every way in which the steps can go. Nothing follows a step that failed.
pub proof fn lemma_steps(mode: Mode, succeeds: spec_fn(Action) -> bool)
    ensures
        begun(mode).steps(succeeds) == course(mode, succeeds),
{
    let start = begun(mode);
    let second = start.spec_record(succeeds(Action::Render));
    assert(start.steps(succeeds) == seq![Action::Render] + second.steps(succeeds));
    if !succeeds(Action::Render) {
        assert(second.steps(succeeds) =~= Seq::<Action>::empty());
        assert(start.steps(succeeds) =~= seq![Action::Render]);
    } else {
        let action = second.spec_next_action()->0;
        let third = second.spec_record(succeeds(action));
        assert(second.steps(succeeds) == seq![action] + third.steps(succeeds));
        if mode == Mode::FullInstall && succeeds(Action::WriteUnit) {
            let fourth = third.spec_record(succeeds(Action::Activate));
            assert(third.steps(succeeds) == seq![Action::Activate] + fourth.steps(succeeds));
            assert(fourth.steps(succeeds) =~= Seq::<Action>::empty());
            assert(start.steps(succeeds) =~= seq![Action::Render, Action::WriteUnit, Action::Activate]);
        } else {
            assert(third.steps(succeeds) =~= Seq::<Action>::empty());
            assert(start.steps(succeeds) =~= seq![Action::Render, action]);
        }
    }
}

/// The number of times that an action stands in a list of up to three steps.
proof fn lemma_times_short(steps: Seq<Action>, action: Action)
    requires
        steps.len() <= 3,
    ensures
        times(steps, action) == once_if(steps.len() > 0 && steps[0] == action) + once_if(
            steps.len() > 1 && steps[1] == action,
        ) + once_if(steps.len() > 2 && steps[2] == action),
    decreases steps.len(),
{
    if steps.len() > 0 {
        lemma_times_short(steps.drop_last(), action);
    }
}

/// A dry run never writes a unit file and never enables or starts a service,
/// however its steps go.
pub proof fn lemma_dry_run_changes_nothing(succeeds: spec_fn(Action) -> bool)
    ensures
        times(begun(Mode::DryRun).steps(succeeds), Action::WriteUnit) == 0,
        times(begun(Mode::DryRun).steps(succeeds), Action::Activate) == 0,
{
    let steps = begun(Mode::DryRun).steps(succeeds);
    lemma_steps(Mode::DryRun, succeeds);
    lemma_times_short(steps, Action::WriteUnit);
    lemma_times_short(steps, Action::Activate);
}

/// A safe install never enables or starts a service, and writes the unit
/// file once if the service could be rendered, and not at all otherwise.
pub proof fn lemma_safe_install_never_activates(succeeds: spec_fn(Action) -> bool)
    ensures
        times(begun(Mode::SafeInstall).steps(succeeds), Action::Activate) == 0,
        times(begun(Mode::SafeInstall).steps(succeeds), Action::WriteUnit) == once_if(
            succeeds(Action::Render),
        ),
{
    let steps = begun(Mode::SafeInstall).steps(succeeds);
    lemma_steps(Mode::SafeInstall, succeeds);
    lemma_times_short(steps, Action::WriteUnit);
    lemma_times_short(steps, Action::Activate);
}

/// A full install writes the unit file once if the service could be
/// rendered, and enables and starts the service once if the file could be
/// written; it does neither more often, and does not activate a service
/// whose unit file it could not write.
pub proof fn lemma_full_install_activates_once(succeeds: spec_fn(Action) -> bool)
    ensures
        times(begun(Mode::FullInstall).steps(succeeds), Action::WriteUnit) == once_if(
            succeeds(Action::Render),
        ),
        times(begun(Mode::FullInstall).steps(succeeds), Action::Activate) == once_if(
            succeeds(Action::Render) && succeeds(Action::WriteUnit),
        ),
{
    let steps = begun(Mode::FullInstall).steps(succeeds);
    lemma_steps(Mode::FullInstall, succeeds);
    lemma_times_short(steps, Action::WriteUnit);
    lemma_times_short(steps, Action::Activate);
}

/// A deployment comes to rest where its course ends: at the stage of its
/// mode where every step succeeds, and at the stage before the step that
/// failed otherwise. A failed activation leaves the unit file written.
pub proof fn lemma_outcome(mode: Mode, succeeds: spec_fn(Action) -> bool)
    ensures
        begun(mode).outcome(succeeds) == rest(mode, succeeds),
        rest(mode, succeeds).spec_next_action() is None,
{
    let start = begun(mode);
    let second = start.spec_record(succeeds(Action::Render));
    assert(start.outcome(succeeds) == second.outcome(succeeds));
    if succeeds(Action::Render) {
        let action = second.spec_next_action()->0;
        let third = second.spec_record(succeeds(action));
        assert(second.outcome(succeeds) == third.outcome(succeeds));
        if third.spec_next_action() is Some {
            let fourth = third.spec_record(succeeds(Action::Activate));
            assert(third.outcome(succeeds) == fourth.outcome(succeeds));
        }
    }
}

} // verus!
