use systemyml::deploy::{dry_run_report, step_failure, Action, Deployment, Mode, Options, Stage};
use systemyml::error::{failure_summary, DeployError};

fn run(mode: Mode, succeeds: &dyn Fn(Action) -> bool) -> (Vec<Action>, Deployment) {
    let mut deployment = Deployment::new(mode);
    let mut steps = Vec::new();
    while let Some(action) = deployment.next_action() {
        steps.push(action);
        deployment.record(succeeds(action));
        assert!(steps.len() <= 3);
    }
    assert!(deployment.is_finished());
    (steps, deployment)
}

fn count(steps: &[Action], action: Action) -> usize {
    steps.iter().filter(|a| **a == action).count()
}

#[test]
fn options_choose_the_mode() {
    assert_eq!(Options { dry_run: false, safe: false }.mode(), Mode::FullInstall);
    assert_eq!(Options { dry_run: false, safe: true }.mode(), Mode::SafeInstall);
    assert_eq!(Options { dry_run: true, safe: false }.mode(), Mode::DryRun);
    assert_eq!(Options { dry_run: true, safe: true }.mode(), Mode::DryRun);
}

#[test]
fn dry_run_with_safe_announces_activation() {
    assert!(Options { dry_run: true, safe: true }.announces_activation());
    assert!(!Options { dry_run: true, safe: false }.announces_activation());
    assert!(!Options { dry_run: false, safe: true }.announces_activation());
    assert!(!Options { dry_run: false, safe: false }.announces_activation());
}

#[test]
fn new_deployment_is_loaded() {
    let deployment = Deployment::new(Mode::SafeInstall);
    assert_eq!(deployment, Deployment { mode: Mode::SafeInstall, stage: Stage::Loaded, failed: false });
    assert_eq!(deployment.next_action(), Some(Action::Render));
    assert!(!deployment.is_finished());
}

#[test]
fn dry_run_writes_and_activates_nothing() {
    let (steps, end) = run(Mode::DryRun, &|_| true);
    assert_eq!(steps, vec![Action::Render, Action::Report]);
    assert_eq!(count(&steps, Action::WriteUnit), 0);
    assert_eq!(count(&steps, Action::Activate), 0);
    assert_eq!(end, Deployment { mode: Mode::DryRun, stage: Stage::DryReported, failed: false });
}

#[test]
fn safe_install_writes_and_stops() {
    let (steps, end) = run(Mode::SafeInstall, &|_| true);
    assert_eq!(steps, vec![Action::Render, Action::WriteUnit]);
    assert_eq!(count(&steps, Action::WriteUnit), 1);
    assert_eq!(count(&steps, Action::Activate), 0);
    assert_eq!(end, Deployment { mode: Mode::SafeInstall, stage: Stage::Written, failed: false });
}

#[test]
fn full_install_writes_then_activates_once() {
    let (steps, end) = run(Mode::FullInstall, &|_| true);
    assert_eq!(steps, vec![Action::Render, Action::WriteUnit, Action::Activate]);
    assert_eq!(count(&steps, Action::WriteUnit), 1);
    assert_eq!(count(&steps, Action::Activate), 1);
    assert_eq!(
        end,
        Deployment { mode: Mode::FullInstall, stage: Stage::WrittenAndActivated, failed: false }
    );
}

#[test]
fn failed_rendering_ends_the_deployment() {
    for mode in [Mode::DryRun, Mode::SafeInstall, Mode::FullInstall] {
        let (steps, end) = run(mode, &|a| a != Action::Render);
        assert_eq!(steps, vec![Action::Render]);
        assert_eq!(end, Deployment { mode, stage: Stage::Loaded, failed: true });
    }
}

#[test]
fn failed_write_is_not_followed_by_activation() {
    let (steps, end) = run(Mode::FullInstall, &|a| a != Action::WriteUnit);
    assert_eq!(steps, vec![Action::Render, Action::WriteUnit]);
    assert_eq!(end, Deployment { mode: Mode::FullInstall, stage: Stage::Rendered, failed: true });
    let (steps, end) = run(Mode::SafeInstall, &|a| a != Action::WriteUnit);
    assert_eq!(steps, vec![Action::Render, Action::WriteUnit]);
    assert_eq!(end, Deployment { mode: Mode::SafeInstall, stage: Stage::Rendered, failed: true });
}

#[test]
fn failed_activation_leaves_the_unit_written() {
    let (steps, end) = run(Mode::FullInstall, &|a| a != Action::Activate);
    assert_eq!(steps, vec![Action::Render, Action::WriteUnit, Action::Activate]);
    assert_eq!(end, Deployment { mode: Mode::FullInstall, stage: Stage::Written, failed: true });
}

#[test]
fn record_after_the_end_changes_nothing() {
    let (_, end) = run(Mode::SafeInstall, &|_| true);
    let mut again = end;
    again.record(true);
    assert_eq!(again, end);
    again.record(false);
    assert_eq!(again, end);
    let (_, failed) = run(Mode::FullInstall, &|a| a != Action::WriteUnit);
    let mut again = failed;
    again.record(true);
    assert_eq!(again, failed);
}

#[test]
fn failed_steps_have_their_failures() {
    assert_eq!(
        step_failure(Action::WriteUnit, "web"),
        Some(DeployError::IOError { descriptor: "web".to_string() })
    );
    assert_eq!(
        step_failure(Action::Activate, "web"),
        Some(DeployError::ActivationError { descriptor: "web".to_string() })
    );
    assert_eq!(step_failure(Action::Render, "web"), None);
    assert_eq!(step_failure(Action::Report, "web"), None);
}

#[test]
fn dry_run_report_without_activation() {
    let report = dry_run_report("web", "/etc/systemd/system/web.service", "[Service]\nUser=www\n", false);
    assert_eq!(
        report,
        "Generated service config for 'web':\n\n[Service]\nUser=www\n\n\
         Dry run: Would create systemd unit: /etc/systemd/system/web.service\n"
    );
}

#[test]
fn dry_run_report_with_activation() {
    let report = dry_run_report("web", "out/web.service", "", true);
    assert_eq!(
        report,
        "Generated service config for 'web':\n\n\n\
         Dry run: Would create systemd unit: out/web.service\n\
         Dry run: Would enable service: web\n\
         Dry run: Would start service: web\n"
    );
}

#[test]
fn every_failure_has_its_sentence() {
    assert_eq!(
        DeployError::InvalidInputPath.message(),
        "the configuration path is neither a file nor a directory"
    );
    assert_eq!(
        DeployError::ParseError { file: "x.yaml".to_string() }.message(),
        "cannot read service descriptions from 'x.yaml'"
    );
    assert_eq!(
        DeployError::InvalidFieldValue { descriptor: "web".to_string(), field: "Nice".to_string() }
            .message(),
        "service 'web': the value of 'Nice' is not valid"
    );
    assert_eq!(
        DeployError::DuplicateName { name: "web".to_string() }.message(),
        "service 'web' is declared more than once"
    );
    assert_eq!(
        DeployError::ActivationError { descriptor: "web".to_string() }.message(),
        "service 'web' could not be enabled and started"
    );
    assert_eq!(
        DeployError::IOError { descriptor: "web".to_string() }.message(),
        "service 'web': the unit file could not be written"
    );
}

#[test]
fn failure_summary_has_one_line_for_each_failure() {
    assert_eq!(failure_summary(&Vec::new()), "");
    let failures = vec![
        DeployError::ParseError { file: "x.yaml".to_string() },
        DeployError::IOError { descriptor: "db".to_string() },
    ];
    assert_eq!(
        failure_summary(&failures),
        "cannot read service descriptions from 'x.yaml'\n\
         service 'db': the unit file could not be written\n"
    );
}
