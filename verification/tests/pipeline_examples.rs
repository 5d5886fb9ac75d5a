use std::collections::BTreeMap;

use systemyml::deploy::{dry_run_report, step_failure, Action, Deployment, Options};
use systemyml::descriptor::RawDescriptor;
use systemyml::document::{input_file, Node, Pair};
use systemyml::error::{failure_summary, DeployError};
use systemyml::loader::{collect, descriptor_files, load_mode, PathKind};
use systemyml::render::{render, RenderedUnit};

fn text(s: &str) -> Node {
    Node::Text(s.to_string())
}

fn pair(key: &str, value: Node) -> Pair {
    Pair { key: text(key), value }
}

fn service(name: &str, entries: Vec<Pair>) -> Pair {
    pair(name, Node::Table(vec![pair("service", Node::Table(entries))]))
}

/// A target that keeps what is done to it.
struct Target {
    files: BTreeMap<String, String>,
    activated: Vec<String>,
    reports: Vec<String>,
    refuse_activation: bool,
}

impl Target {
    fn new() -> Target {
        Target { files: BTreeMap::new(), activated: Vec::new(), reports: Vec::new(), refuse_activation: false }
    }
}

/// Takes the services one after the other through the steps that the library asks for.
fn run(descriptors: &[RawDescriptor], options: Options, target: &mut Target) -> Vec<DeployError> {
    let mut failures = Vec::new();
    for raw in descriptors {
        let mut deployment = Deployment::new(options.mode());
        let mut unit: Option<RenderedUnit> = None;
        while let Some(action) = deployment.next_action() {
            let outcome: Result<(), DeployError> = match action {
                Action::Render => render(raw).map(|u| {
                    unit = Some(u);
                }),
                Action::Report => {
                    let u = unit.as_ref().unwrap();
                    target.reports.push(dry_run_report(
                        &raw.name,
                        &format!("/units/{}", u.filename),
                        &u.text,
                        options.announces_activation(),
                    ));
                    Ok(())
                }
                Action::WriteUnit => {
                    let u = unit.as_ref().unwrap();
                    target.files.insert(u.filename.clone(), u.text.clone());
                    Ok(())
                }
                Action::Activate => {
                    if target.refuse_activation {
                        Err(step_failure(action, &raw.name).unwrap())
                    } else {
                        target.activated.push(unit.as_ref().unwrap().filename.clone());
                        Ok(())
                    }
                }
            };
            deployment.record(outcome.is_ok());
            if let Err(e) = outcome {
                failures.push(e);
            }
        }
    }
    failures
}

fn two_services() -> Vec<RawDescriptor> {
    let document = Node::Table(vec![
        service("web", vec![pair("ExecStart", text("/usr/bin/web")), pair("User", text("www"))]),
        service("db", vec![pair("ExecStart", text("/usr/bin/db")), pair("Nice", Node::Integer(5))]),
    ]);
    let files = vec![input_file("services.yaml", &Some(document))];
    collect(load_mode(PathKind::File).unwrap(), &files).unwrap().descriptors
}

#[test]
fn dry_run_leaves_the_target_untouched() {
    let mut target = Target::new();
    let failures = run(&two_services(), Options { dry_run: true, safe: false }, &mut target);
    assert!(failures.is_empty());
    assert!(target.files.is_empty());
    assert!(target.activated.is_empty());
    assert_eq!(
        target.reports,
        vec![
            "Generated service config for 'web':\n\n[Service]\nExecStart=/usr/bin/web\nUser=www\n\n\
             Dry run: Would create systemd unit: /units/web.service\n",
            "Generated service config for 'db':\n\n[Service]\nExecStart=/usr/bin/db\nNice=5\n\n\
             Dry run: Would create systemd unit: /units/db.service\n",
        ]
    );
}

#[test]
fn dry_run_with_safe_leaves_the_target_untouched_too() {
    let mut target = Target::new();
    let failures = run(&two_services(), Options { dry_run: true, safe: true }, &mut target);
    assert!(failures.is_empty());
    assert!(target.files.is_empty());
    assert!(target.activated.is_empty());
    assert_eq!(target.reports.len(), 2);
    assert!(target.reports[0].ends_with(
        "Dry run: Would enable service: web\nDry run: Would start service: web\n"
    ));
}

#[test]
fn safe_install_writes_the_units_and_activates_none() {
    let mut target = Target::new();
    let failures = run(&two_services(), Options { dry_run: false, safe: true }, &mut target);
    assert!(failures.is_empty());
    assert_eq!(target.files.len(), 2);
    assert_eq!(target.files["web.service"], "[Service]\nExecStart=/usr/bin/web\nUser=www\n");
    assert_eq!(target.files["db.service"], "[Service]\nExecStart=/usr/bin/db\nNice=5\n");
    assert!(target.activated.is_empty());
    assert!(target.reports.is_empty());
}

#[test]
fn full_install_writes_and_activates_each_unit_once() {
    let mut target = Target::new();
    let failures = run(&two_services(), Options { dry_run: false, safe: false }, &mut target);
    assert!(failures.is_empty());
    assert_eq!(target.files.len(), 2);
    assert_eq!(target.activated, vec!["web.service", "db.service"]);
}

#[test]
fn failed_activation_keeps_the_file_and_the_batch_goes_on() {
    let mut target = Target::new();
    target.refuse_activation = true;
    let failures = run(&two_services(), Options { dry_run: false, safe: false }, &mut target);
    assert_eq!(
        failures,
        vec![
            DeployError::ActivationError { descriptor: "web".to_string() },
            DeployError::ActivationError { descriptor: "db".to_string() },
        ]
    );
    assert_eq!(target.files.len(), 2);
    assert!(target.activated.is_empty());
}

#[test]
fn invalid_service_is_skipped_and_its_siblings_are_installed() {
    let document = Node::Table(vec![
        service("first", vec![pair("User", text("a"))]),
        service("bad", vec![pair("Nice", text("high"))]),
        service("last", vec![pair("User", text("z"))]),
    ]);
    let files = vec![input_file("services.yaml", &Some(document))];
    let batch = collect(load_mode(PathKind::File).unwrap(), &files).unwrap();
    let mut target = Target::new();
    let failures = run(&batch.descriptors, Options { dry_run: false, safe: false }, &mut target);
    assert_eq!(
        failures,
        vec![DeployError::InvalidFieldValue { descriptor: "bad".to_string(), field: "Nice".to_string() }]
    );
    assert_eq!(target.files.keys().collect::<Vec<_>>(), vec!["first.service", "last.service"]);
    assert_eq!(target.activated, vec!["first.service", "last.service"]);
    assert_eq!(failure_summary(&failures), "service 'bad': the value of 'Nice' is not valid\n");
}

#[test]
fn directory_with_one_malformed_file() {
    let names: Vec<String> =
        vec!["a.yaml", "README", "b.yaml", "c.yaml"].into_iter().map(String::from).collect();
    let picked = descriptor_files(&names);
    assert_eq!(picked, vec!["a.yaml", "b.yaml", "c.yaml"]);
    let documents = vec![
        Some(Node::Table(vec![service("a", vec![pair("User", text("a"))])])),
        None,
        Some(Node::Table(vec![service("c", vec![pair("User", text("c"))])])),
    ];
    let files: Vec<_> =
        picked.iter().zip(documents.iter()).map(|(name, document)| input_file(name, document)).collect();
    let batch = collect(load_mode(PathKind::Directory).unwrap(), &files).unwrap();
    let mut failures = batch.failures.clone();
    let mut target = Target::new();
    failures.extend(run(&batch.descriptors, Options { dry_run: false, safe: true }, &mut target));
    assert_eq!(failures, vec![DeployError::ParseError { file: "b.yaml".to_string() }]);
    assert_eq!(target.files.len(), 2);
    assert_eq!(target.files["a.service"], "[Service]\nUser=a\n");
    assert_eq!(target.files["c.service"], "[Service]\nUser=c\n");
}

#[test]
fn invalid_path_gives_no_output() {
    let mut target = Target::new();
    let mode = load_mode(PathKind::Other);
    assert_eq!(mode, Err(DeployError::InvalidInputPath));
    if let Ok(mode) = mode {
        let batch = collect(mode, &Vec::new()).unwrap();
        run(&batch.descriptors, Options { dry_run: false, safe: false }, &mut target);
    }
    assert!(target.files.is_empty());
    assert!(target.activated.is_empty());
}
