use systemyml::descriptor::{RawDescriptor, RawEntry, RawScalar, RawValue};
use systemyml::document::{input_file, read_document, Node, Pair};
use systemyml::loader::{FileContent, InputFile};

fn text(s: &str) -> Node {
    Node::Text(s.to_string())
}

fn pair(key: &str, value: Node) -> Pair {
    Pair { key: text(key), value }
}

fn table(pairs: Vec<Pair>) -> Node {
    Node::Table(pairs)
}

fn text_entry(key: &str, value: &str) -> RawEntry {
    RawEntry { key: key.to_string(), value: RawValue::Text(value.to_string()) }
}

#[test]
fn document_with_one_service() {
    let document = table(vec![pair(
        "web",
        table(vec![pair(
            "service",
            table(vec![pair("ExecStart", text("/usr/bin/web")), pair("User", text("www"))]),
        )]),
    )]);
    assert_eq!(
        read_document(&document),
        FileContent::Parsed(vec![RawDescriptor {
            name: "web".to_string(),
            install: None,
            unit: None,
            service: Some(vec![text_entry("ExecStart", "/usr/bin/web"), text_entry("User", "www")]),
            environment: None,
        }])
    );
}

#[test]
fn document_keeps_services_and_entries_in_order() {
    let document = table(vec![
        pair(
            "b",
            table(vec![
                pair("environment", table(vec![pair("Z", text("1")), pair("A", text("2"))])),
                pair("install", table(vec![pair("WantedBy", text("default.target"))])),
            ]),
        ),
        pair("a", table(vec![pair("unit", table(vec![]))])),
    ]);
    assert_eq!(
        read_document(&document),
        FileContent::Parsed(vec![
            RawDescriptor {
                name: "b".to_string(),
                install: Some(vec![text_entry("WantedBy", "default.target")]),
                unit: None,
                service: None,
                environment: Some(vec![text_entry("Z", "1"), text_entry("A", "2")]),
            },
            RawDescriptor {
                name: "a".to_string(),
                install: None,
                unit: Some(vec![]),
                service: None,
                environment: None,
            },
        ])
    );
}

#[test]
fn values_keep_their_shape() {
    let document = table(vec![pair(
        "shapes",
        table(vec![pair(
            "service",
            table(vec![
                pair("Nice", Node::Integer(-3)),
                pair("PrivateTmp", Node::Other),
                pair("User", Node::Null),
                pair("Group", table(vec![])),
                pair(
                    "NUMAAffinity",
                    Node::List(vec![
                        Node::Integer(1),
                        text("2"),
                        Node::Null,
                        Node::Other,
                        Node::List(vec![]),
                        table(vec![]),
                    ]),
                ),
            ]),
        )]),
    )]);
    let entry = |key: &str, value: RawValue| RawEntry { key: key.to_string(), value };
    assert_eq!(
        read_document(&document),
        FileContent::Parsed(vec![RawDescriptor {
            name: "shapes".to_string(),
            install: None,
            unit: None,
            service: Some(vec![
                entry("Nice", RawValue::Integer(-3)),
                entry("PrivateTmp", RawValue::Other),
                entry("User", RawValue::Other),
                entry("Group", RawValue::Other),
                entry(
                    "NUMAAffinity",
                    RawValue::List(vec![
                        RawScalar::Integer(1),
                        RawScalar::Text("2".to_string()),
                        RawScalar::Other,
                        RawScalar::Other,
                        RawScalar::Other,
                        RawScalar::Other,
                    ])
                ),
            ]),
            environment: None,
        }])
    );
}

#[test]
fn group_without_value_is_absent() {
    let document = table(vec![pair(
        "web",
        table(vec![pair("install", Node::Null), pair("service", table(vec![]))]),
    )]);
    assert_eq!(
        read_document(&document),
        FileContent::Parsed(vec![RawDescriptor {
            name: "web".to_string(),
            install: None,
            unit: None,
            service: Some(vec![]),
            environment: None,
        }])
    );
}

#[test]
fn other_keys_of_a_service_are_passed_over() {
    let document = table(vec![pair(
        "web",
        table(vec![
            pair("name", text("web")),
            pair("comment", Node::List(vec![])),
            Pair { key: Node::Integer(1), value: Node::Null },
        ]),
    )]);
    assert_eq!(
        read_document(&document),
        FileContent::Parsed(vec![RawDescriptor {
            name: "web".to_string(),
            install: None,
            unit: None,
            service: None,
            environment: None,
        }])
    );
}

#[test]
fn empty_mapping_holds_no_service() {
    assert_eq!(read_document(&table(vec![])), FileContent::Parsed(vec![]));
}

#[test]
fn document_that_is_no_mapping_is_malformed() {
    assert_eq!(read_document(&Node::Null), FileContent::Malformed);
    assert_eq!(read_document(&text("web")), FileContent::Malformed);
    assert_eq!(read_document(&Node::Integer(1)), FileContent::Malformed);
    assert_eq!(read_document(&Node::List(vec![])), FileContent::Malformed);
    assert_eq!(read_document(&Node::Other), FileContent::Malformed);
}

#[test]
fn name_that_is_no_string_is_malformed() {
    let document = table(vec![
        pair("web", table(vec![])),
        Pair { key: Node::Integer(7), value: table(vec![]) },
    ]);
    assert_eq!(read_document(&document), FileContent::Malformed);
}

#[test]
fn service_that_is_no_mapping_is_malformed() {
    assert_eq!(read_document(&table(vec![pair("web", Node::Null)])), FileContent::Malformed);
    assert_eq!(read_document(&table(vec![pair("web", text("x"))])), FileContent::Malformed);
    assert_eq!(
        read_document(&table(vec![pair("ok", table(vec![])), pair("web", Node::Integer(5))])),
        FileContent::Malformed
    );
}

#[test]
fn group_that_is_no_mapping_is_malformed() {
    for bad in [text("x"), Node::Integer(1), Node::List(vec![]), Node::Other] {
        let document = table(vec![pair("web", table(vec![pair("unit", bad)]))]);
        assert_eq!(read_document(&document), FileContent::Malformed);
    }
}

#[test]
fn key_that_is_no_string_is_malformed() {
    let document = table(vec![pair(
        "web",
        table(vec![pair(
            "environment",
            table(vec![pair("A", text("1")), Pair { key: Node::Integer(2), value: text("2") }]),
        )]),
    )]);
    assert_eq!(read_document(&document), FileContent::Malformed);
}

#[test]
fn group_named_twice_is_malformed() {
    let document = table(vec![pair(
        "web",
        table(vec![
            pair("service", table(vec![])),
            pair("unit", table(vec![])),
            pair("service", Node::Null),
        ]),
    )]);
    assert_eq!(read_document(&document), FileContent::Malformed);
}

#[test]
fn input_file_without_document_is_malformed() {
    assert_eq!(
        input_file("services/broken.yaml", &None),
        InputFile { path: "services/broken.yaml".to_string(), content: FileContent::Malformed }
    );
}

#[test]
fn input_file_with_document_holds_its_services() {
    let document = table(vec![pair("web", table(vec![]))]);
    assert_eq!(
        input_file("web.yaml", &Some(document)),
        InputFile {
            path: "web.yaml".to_string(),
            content: FileContent::Parsed(vec![RawDescriptor {
                name: "web".to_string(),
                install: None,
                unit: None,
                service: None,
                environment: None,
            }]),
        }
    );
}
