use systemyml::descriptor::{normalize, RawDescriptor, RawEntry, RawScalar, RawValue};
use systemyml::error::DeployError;
use systemyml::render::{render, render_unit};
use systemyml::service_struct::{MyService, ServiceProperties, Setting};

fn text_entry(key: &str, value: &str) -> RawEntry {
    RawEntry { key: key.to_string(), value: RawValue::Text(value.to_string()) }
}

fn integer_entry(key: &str, value: i64) -> RawEntry {
    RawEntry { key: key.to_string(), value: RawValue::Integer(value) }
}

fn setting(key: &str, value: &str) -> Setting {
    Setting { key: key.to_string(), value: value.to_string() }
}

fn service_only(name: &str, entries: Vec<RawEntry>) -> RawDescriptor {
    RawDescriptor {
        name: name.to_string(),
        install: None,
        unit: None,
        service: Some(entries),
        environment: None,
    }
}

fn invalid(descriptor: &str, field: &str) -> DeployError {
    DeployError::InvalidFieldValue { descriptor: descriptor.to_string(), field: field.to_string() }
}

#[test]
fn web_service_renders_its_two_keys() {
    let raw = service_only(
        "web",
        vec![text_entry("ExecStart", "/usr/bin/web"), text_entry("User", "www")],
    );
    let unit = render(&raw).unwrap();
    assert_eq!(unit.filename, "web.service");
    assert_eq!(unit.text, "[Service]\nExecStart=/usr/bin/web\nUser=www\n");
    let keys: Vec<&str> = unit
        .text
        .lines()
        .filter(|l| l.contains('='))
        .map(|l| l.split('=').next().unwrap())
        .collect();
    assert_eq!(keys, vec!["ExecStart", "User"]);
}

#[test]
fn rendering_twice_gives_the_same_bytes() {
    let raw = RawDescriptor {
        name: "db".to_string(),
        install: Some(vec![text_entry("WantedBy", "multi-user.target")]),
        unit: Some(vec![text_entry("Description", "Database"), text_entry("After", "network.target")]),
        service: Some(vec![
            integer_entry("Nice", -5),
            text_entry("ExecStart", "/usr/bin/db --serve"),
            RawEntry {
                key: "NUMAAffinity".to_string(),
                value: RawValue::List(vec![RawScalar::Integer(0), RawScalar::Integer(1)]),
            },
        ]),
        environment: Some(vec![text_entry("PGDATA", "/var/lib/db")]),
    };
    let first = render(&raw).unwrap();
    let second = render(&raw).unwrap();
    assert_eq!(first.text.as_bytes(), second.text.as_bytes());
    assert_eq!(first.filename, second.filename);
    let copy = raw.duplicate();
    assert_eq!(copy, raw);
    assert_eq!(render(&copy).unwrap(), first);
}

#[test]
fn all_four_sections_in_their_order() {
    let raw = RawDescriptor {
        name: "db".to_string(),
        install: Some(vec![text_entry("WantedBy", "multi-user.target")]),
        unit: Some(vec![text_entry("Description", "Database"), text_entry("After", "network.target")]),
        service: Some(vec![
            integer_entry("Nice", -5),
            text_entry("ExecStart", "/usr/bin/db --serve"),
        ]),
        environment: Some(vec![text_entry("PGDATA", "/var/lib/db")]),
    };
    let unit = render(&raw).unwrap();
    assert_eq!(unit.filename, "db.service");
    assert_eq!(
        unit.text,
        "[Install]\nWantedBy=multi-user.target\n\n\
         [Unit]\nDescription=Database\nAfter=network.target\n\n\
         [Service]\nExecStart=/usr/bin/db --serve\nNice=-5\n\n\
         [Environment]\nPGDATA=/var/lib/db\n"
    );
}

#[test]
fn service_fields_come_out_in_schema_order() {
    let raw = service_only(
        "ordered",
        vec![
            text_entry("Slice", "system.slice"),
            integer_entry("TasksMax", 64),
            text_entry("User", "u"),
            text_entry("Type", "simple"),
        ],
    );
    let unit = render(&raw).unwrap();
    assert_eq!(unit.text, "[Service]\nType=simple\nUser=u\nTasksMax=64\nSlice=system.slice\n");
}

#[test]
fn absent_groups_give_no_section() {
    let raw = RawDescriptor {
        name: "bare".to_string(),
        install: None,
        unit: None,
        service: None,
        environment: None,
    };
    let unit = render(&raw).unwrap();
    assert_eq!(unit.filename, "bare.service");
    assert_eq!(unit.text, "");
}

#[test]
fn empty_groups_give_their_title_alone() {
    let raw = RawDescriptor {
        name: "hollow".to_string(),
        install: Some(vec![]),
        unit: None,
        service: Some(vec![]),
        environment: None,
    };
    let unit = render(&raw).unwrap();
    assert_eq!(unit.text, "[Install]\n\n[Service]\n");
}

#[test]
fn lists_give_one_line_for_each_element() {
    let raw = service_only(
        "io",
        vec![
            RawEntry {
                key: "IOWeightDevice".to_string(),
                value: RawValue::List(vec![
                    RawScalar::Text("/dev/sda 200".to_string()),
                    RawScalar::Text("/dev/sdb 300".to_string()),
                ]),
            },
            RawEntry {
                key: "NUMAAffinity".to_string(),
                value: RawValue::List(vec![
                    RawScalar::Integer(0),
                    RawScalar::Integer(-3),
                    RawScalar::Integer(12),
                ]),
            },
            RawEntry { key: "BlockIOWeightDevice".to_string(), value: RawValue::List(vec![]) },
        ],
    );
    let unit = render(&raw).unwrap();
    assert_eq!(
        unit.text,
        "[Service]\nIOWeightDevice=/dev/sda 200\nIOWeightDevice=/dev/sdb 300\n\
         NUMAAffinity=0\nNUMAAffinity=-3\nNUMAAffinity=12\n"
    );
}

#[test]
fn integers_are_written_in_decimal() {
    let raw = service_only(
        "numbers",
        vec![
            integer_entry("Nice", -2147483648),
            integer_entry("LimitNOFILE", 2147483647),
            integer_entry("LimitNPROC", 0),
            integer_entry("IOWeight", 1000000),
        ],
    );
    let unit = render(&raw).unwrap();
    assert_eq!(
        unit.text,
        "[Service]\nNice=-2147483648\nLimitNOFILE=2147483647\nLimitNPROC=0\nIOWeight=1000000\n"
    );
}

#[test]
fn flags_pass_through_as_they_are() {
    let raw = service_only(
        "sandbox",
        vec![
            text_entry("PrivateTmp", "true"),
            text_entry("ProtectHome", "read-only"),
            text_entry("ProtectSystem", "Yes "),
        ],
    );
    let unit = render(&raw).unwrap();
    assert_eq!(
        unit.text,
        "[Service]\nProtectHome=read-only\nProtectSystem=Yes \nPrivateTmp=true\n"
    );
}

#[test]
fn absent_field_is_no_key_of_the_text() {
    let raw = service_only("web", vec![text_entry("ExecStart", "/usr/bin/web")]);
    let unit = render(&raw).unwrap();
    for line in unit.text.lines() {
        assert!(!line.starts_with("User="));
        assert!(!line.starts_with("Group="));
        assert!(!line.starts_with("Nice="));
        assert!(!line.starts_with("NUMAAffinity="));
    }
    assert_eq!(unit.text.lines().count(), 2);
}

#[test]
fn every_present_value_stands_once_under_its_key() {
    let raw = service_only(
        "once",
        vec![
            text_entry("Type", "forking"),
            text_entry("Group", "staff"),
            integer_entry("LimitRTPRIO", 7),
        ],
    );
    let unit = render(&raw).unwrap();
    let lines: Vec<&str> = unit.text.lines().collect();
    assert_eq!(lines.iter().filter(|l| **l == "Type=forking").count(), 1);
    assert_eq!(lines.iter().filter(|l| **l == "Group=staff").count(), 1);
    assert_eq!(lines.iter().filter(|l| **l == "LimitRTPRIO=7").count(), 1);
    assert_eq!(lines.iter().filter(|l| l.starts_with("Type=")).count(), 1);
    assert_eq!(lines.iter().filter(|l| l.starts_with("Group=")).count(), 1);
    assert_eq!(lines.iter().filter(|l| l.starts_with("LimitRTPRIO=")).count(), 1);
    assert_eq!(lines.len(), 4);
}

#[test]
fn unknown_service_key_is_passed_over() {
    let raw = service_only(
        "extra",
        vec![
            text_entry("ExecStart", "/bin/true"),
            integer_entry("NoSuchDirective", 3),
            integer_entry("NoSuchDirective", 4),
        ],
    );
    let unit = render(&raw).unwrap();
    assert_eq!(unit.text, "[Service]\nExecStart=/bin/true\n");
}

#[test]
fn number_for_a_string_field_is_refused() {
    let raw = service_only("bad", vec![text_entry("Type", "simple"), integer_entry("User", 1000)]);
    assert_eq!(render(&raw), Err(invalid("bad", "User")));
    assert_eq!(normalize(&raw), Err(invalid("bad", "User")));
}

#[test]
fn string_for_an_integer_field_is_refused() {
    let raw = service_only("bad", vec![text_entry("Nice", "5")]);
    assert_eq!(render(&raw), Err(invalid("bad", "Nice")));
}

#[test]
fn integer_out_of_range_is_refused() {
    let raw = service_only("bad", vec![integer_entry("TasksMax", 2147483648)]);
    assert_eq!(render(&raw), Err(invalid("bad", "TasksMax")));
    let raw = service_only("bad", vec![integer_entry("TasksMax", -2147483649)]);
    assert_eq!(render(&raw), Err(invalid("bad", "TasksMax")));
}

#[test]
fn single_value_for_a_list_field_is_refused() {
    let raw = service_only("bad", vec![text_entry("IOWeightDevice", "/dev/sda 200")]);
    assert_eq!(render(&raw), Err(invalid("bad", "IOWeightDevice")));
    let raw = service_only("bad", vec![integer_entry("NUMAAffinity", 1)]);
    assert_eq!(render(&raw), Err(invalid("bad", "NUMAAffinity")));
}

#[test]
fn list_with_one_wrong_element_is_refused() {
    let raw = service_only(
        "bad",
        vec![RawEntry {
            key: "NUMAAffinity".to_string(),
            value: RawValue::List(vec![RawScalar::Integer(1), RawScalar::Text("2".to_string())]),
        }],
    );
    assert_eq!(render(&raw), Err(invalid("bad", "NUMAAffinity")));
    let raw = service_only(
        "bad",
        vec![RawEntry {
            key: "IOWeightDevice".to_string(),
            value: RawValue::List(vec![RawScalar::Text("a".to_string()), RawScalar::Other]),
        }],
    );
    assert_eq!(render(&raw), Err(invalid("bad", "IOWeightDevice")));
    let raw = service_only(
        "bad",
        vec![RawEntry {
            key: "NUMAAffinity".to_string(),
            value: RawValue::List(vec![RawScalar::Integer(4294967296)]),
        }],
    );
    assert_eq!(render(&raw), Err(invalid("bad", "NUMAAffinity")));
}

#[test]
fn other_value_is_refused() {
    let raw = service_only("bad", vec![RawEntry { key: "PrivateTmp".to_string(), value: RawValue::Other }]);
    assert_eq!(render(&raw), Err(invalid("bad", "PrivateTmp")));
}

#[test]
fn key_given_twice_is_refused() {
    let raw = service_only(
        "twice",
        vec![text_entry("User", "a"), text_entry("Group", "g"), text_entry("User", "b")],
    );
    assert_eq!(render(&raw), Err(invalid("twice", "User")));
}

#[test]
fn free_group_takes_strings_only() {
    let raw = RawDescriptor {
        name: "env".to_string(),
        install: None,
        unit: None,
        service: None,
        environment: Some(vec![text_entry("HOST", "localhost"), integer_entry("PORT", 8080)]),
    };
    assert_eq!(render(&raw), Err(invalid("env", "PORT")));
}

#[test]
fn first_fault_in_group_order_is_named() {
    let raw = RawDescriptor {
        name: "many".to_string(),
        install: None,
        unit: Some(vec![text_entry("Description", "d"), integer_entry("After", 1)]),
        service: Some(vec![integer_entry("Type", 1)]),
        environment: Some(vec![integer_entry("A", 1)]),
    };
    assert_eq!(render(&raw), Err(invalid("many", "After")));
    let raw = RawDescriptor {
        name: "many".to_string(),
        install: None,
        unit: None,
        service: Some(vec![text_entry("Type", "simple"), integer_entry("Group", 1), integer_entry("User", 1)]),
        environment: Some(vec![integer_entry("A", 1)]),
    };
    assert_eq!(render(&raw), Err(invalid("many", "Group")));
}

#[test]
fn normalize_gives_the_typed_service() {
    let raw = RawDescriptor {
        name: "typed".to_string(),
        install: Some(vec![text_entry("WantedBy", "default.target")]),
        unit: None,
        service: Some(vec![
            integer_entry("Nice", 3),
            text_entry("User", "svc"),
            RawEntry {
                key: "IOWeightDevice".to_string(),
                value: RawValue::List(vec![RawScalar::Text("/dev/sda 1".to_string())]),
            },
            RawEntry {
                key: "NUMAAffinity".to_string(),
                value: RawValue::List(vec![RawScalar::Integer(2)]),
            },
        ]),
        environment: None,
    };
    let config = normalize(&raw).unwrap();
    let mut properties = ServiceProperties::empty();
    properties.Nice = Some(3);
    properties.User = Some("svc".to_string());
    properties.IOWeightDevice = Some(vec!["/dev/sda 1".to_string()]);
    properties.NUMAAffinity = Some(vec![2]);
    let expected = MyService {
        name: "typed".to_string(),
        install: Some(vec![setting("WantedBy", "default.target")]),
        unit: None,
        service: Some(properties),
        environment: None,
    };
    assert_eq!(config.my_service, expected);
}

#[test]
fn render_unit_of_a_typed_service() {
    let mut properties = ServiceProperties::empty();
    properties.ExecStart = Some("/usr/bin/app".to_string());
    properties.Restart = Some("always".to_string());
    properties.BlockIOWeight = Some(500);
    let service = MyService {
        name: "app".to_string(),
        install: Some(vec![setting("WantedBy", "multi-user.target")]),
        unit: Some(vec![setting("Description", "An app")]),
        service: Some(properties),
        environment: Some(vec![setting("MODE", "production"), setting("EMPTY", "")]),
    };
    let unit = render_unit(&service);
    assert_eq!(unit.filename, "app.service");
    assert_eq!(
        unit.text,
        "[Install]\nWantedBy=multi-user.target\n\n[Unit]\nDescription=An app\n\n\
         [Service]\nExecStart=/usr/bin/app\nRestart=always\nBlockIOWeight=500\n\n\
         [Environment]\nMODE=production\nEMPTY=\n"
    );
}

#[test]
fn empty_properties_have_every_field_absent() {
    let properties = ServiceProperties::empty();
    let fields = properties.fields();
    assert_eq!(fields.len(), 38);
    assert!(fields.iter().all(|f| f.value.is_none()));
    assert_eq!(fields[0].key, "Type");
    assert_eq!(fields[1].key, "ExecStart");
    assert_eq!(fields[37].key, "NUMAAffinity");
}

#[test]
fn string_with_line_break_is_written_as_it_is() {
    let raw = service_only("odd", vec![text_entry("ExecStart", "/bin/a\nUser=root")]);
    let unit = render(&raw).unwrap();
    assert_eq!(unit.text, "[Service]\nExecStart=/bin/a\nUser=root\n");
}
