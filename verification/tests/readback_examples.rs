use systemyml::render::render_unit;
use systemyml::service_struct::{MyService, ServiceProperties, Setting};

fn setting(key: &str, value: &str) -> Setting {
    Setting { key: key.to_string(), value: value.to_string() }
}

/// Reads a unit file as a list of titled sections with their entries.
fn read(text: &str) -> Vec<(String, Vec<(String, String)>)> {
    let mut sections: Vec<(String, Vec<(String, String)>)> = Vec::new();
    for line in text.lines() {
        if line.is_empty() {
            continue;
        }
        if line.len() >= 2 && line.starts_with('[') && line.ends_with(']') {
            sections.push((line[1..line.len() - 1].to_string(), Vec::new()));
        } else if let Some((key, value)) = line.split_once('=') {
            if let Some(open) = sections.last_mut() {
                open.1.push((key.to_string(), value.to_string()));
            }
        }
    }
    sections
}

fn pairs(settings: &[Setting]) -> Vec<(String, String)> {
    settings.iter().map(|s| (s.key.clone(), s.value.clone())).collect()
}

#[test]
fn unit_file_reads_back_as_its_sections() {
    let mut properties = ServiceProperties::empty();
    properties.ExecStart = Some("/usr/bin/app --flag=1 --name=[x]".to_string());
    properties.Nice = Some(-7);
    properties.IOWeightDevice = Some(vec!["/dev/sda 10".to_string(), "/dev/sda 10".to_string()]);
    properties.NUMAAffinity = Some(vec![3, 1, 2]);
    let install = vec![setting("WantedBy", "multi-user.target")];
    let unit = vec![setting("Description", "an app = a program"), setting("After", "")];
    let environment = vec![setting("PATH", "/bin:/usr/bin"), setting("User", "not the service user")];
    let service = MyService {
        name: "app".to_string(),
        install: Some(install.clone()),
        unit: Some(unit.clone()),
        service: Some(properties),
        environment: Some(environment.clone()),
    };
    let text = render_unit(&service).text;
    let sections = read(&text);
    assert_eq!(
        sections,
        vec![
            ("Install".to_string(), pairs(&install)),
            ("Unit".to_string(), pairs(&unit)),
            (
                "Service".to_string(),
                vec![
                    ("ExecStart".to_string(), "/usr/bin/app --flag=1 --name=[x]".to_string()),
                    ("Nice".to_string(), "-7".to_string()),
                    ("IOWeightDevice".to_string(), "/dev/sda 10".to_string()),
                    ("IOWeightDevice".to_string(), "/dev/sda 10".to_string()),
                    ("NUMAAffinity".to_string(), "3".to_string()),
                    ("NUMAAffinity".to_string(), "1".to_string()),
                    ("NUMAAffinity".to_string(), "2".to_string()),
                ]
            ),
            ("Environment".to_string(), pairs(&environment)),
        ]
    );
}

#[test]
fn service_section_holds_no_key_of_an_absent_field() {
    let mut properties = ServiceProperties::empty();
    properties.Type = Some("oneshot".to_string());
    let service = MyService {
        name: "one".to_string(),
        install: None,
        unit: Some(vec![setting("User", "a key of the unit group")]),
        service: Some(properties),
        environment: None,
    };
    let sections = read(&render_unit(&service).text);
    assert_eq!(sections.len(), 2);
    assert_eq!(sections[1].0, "Service");
    assert_eq!(sections[1].1, vec![("Type".to_string(), "oneshot".to_string())]);
}

#[test]
fn service_without_groups_reads_back_as_nothing() {
    let service =
        MyService { name: "none".to_string(), install: None, unit: None, service: None, environment: None };
    assert_eq!(read(&render_unit(&service).text), Vec::new());
}
