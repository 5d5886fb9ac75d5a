use systemyml::descriptor::{RawDescriptor, RawEntry, RawValue};
use systemyml::error::DeployError;
use systemyml::loader::{
    collect, descriptor_files, is_descriptor_file, load_mode, Batch, FileContent, InputFile, LoadMode,
    PathKind,
};
use systemyml::render::render;

fn described(name: &str, user: &str) -> RawDescriptor {
    RawDescriptor {
        name: name.to_string(),
        install: None,
        unit: None,
        service: Some(vec![RawEntry { key: "User".to_string(), value: RawValue::Text(user.to_string()) }]),
        environment: None,
    }
}

fn parsed(path: &str, descriptors: Vec<RawDescriptor>) -> InputFile {
    InputFile { path: path.to_string(), content: FileContent::Parsed(descriptors) }
}

fn malformed(path: &str) -> InputFile {
    InputFile { path: path.to_string(), content: FileContent::Malformed }
}

#[test]
fn path_that_is_neither_file_nor_directory_is_refused() {
    assert_eq!(load_mode(PathKind::Other), Err(DeployError::InvalidInputPath));
}

#[test]
fn directory_and_file_are_accepted() {
    assert_eq!(load_mode(PathKind::Directory), Ok(LoadMode::Directory));
    assert_eq!(load_mode(PathKind::File), Ok(LoadMode::SingleFile));
}

#[test]
fn description_files_end_in_yaml() {
    assert!(is_descriptor_file("web.yaml"));
    assert!(is_descriptor_file("a.yaml"));
    assert!(is_descriptor_file("web.service.yaml"));
    assert!(is_descriptor_file("..yaml"));
    assert!(is_descriptor_file("é.yaml"));
}

#[test]
fn other_names_are_no_description_files() {
    assert!(!is_descriptor_file(".yaml"));
    assert!(!is_descriptor_file("yaml"));
    assert!(!is_descriptor_file(""));
    assert!(!is_descriptor_file("web.yml"));
    assert!(!is_descriptor_file("web.YAML"));
    assert!(!is_descriptor_file("web.Yaml"));
    assert!(!is_descriptor_file("web.yaml.bak"));
    assert!(!is_descriptor_file("web.yaml "));
    assert!(!is_descriptor_file("webyaml"));
    assert!(!is_descriptor_file("web."));
}

#[test]
fn extension_rule_agrees_with_the_path_library() {
    let names = [
        "web.yaml", ".yaml", "..yaml", "a.b.yaml", "web.YAML", "web.yml", "yaml", "web.", "x.yaml.d",
        "ü.yaml", "",
    ];
    for name in names {
        let by_path = std::path::Path::new(name).extension().map_or(false, |e| e == "yaml");
        assert_eq!(is_descriptor_file(name), by_path, "{}", name);
    }
}

#[test]
fn description_files_are_picked_in_order() {
    let names: Vec<String> =
        vec!["b.yaml", "notes.txt", "a.yaml", ".yaml", "c.YAML", "d.yaml"].into_iter().map(String::from).collect();
    assert_eq!(descriptor_files(&names), vec!["b.yaml", "a.yaml", "d.yaml"]);
    assert_eq!(descriptor_files(&Vec::new()), Vec::<String>::new());
}

#[test]
fn one_malformed_file_leaves_the_others_alone() {
    let files = vec![
        parsed("a.yaml", vec![described("a1", "u"), described("a2", "v")]),
        malformed("broken.yaml"),
        parsed("c.yaml", vec![described("c1", "w")]),
    ];
    let batch = collect(LoadMode::Directory, &files).unwrap();
    assert_eq!(
        batch.descriptors,
        vec![described("a1", "u"), described("a2", "v"), described("c1", "w")]
    );
    assert_eq!(batch.failures, vec![DeployError::ParseError { file: "broken.yaml".to_string() }]);
    let texts: Vec<String> = batch.descriptors.iter().map(|d| render(d).unwrap().text).collect();
    assert_eq!(
        texts,
        vec!["[Service]\nUser=u\n", "[Service]\nUser=v\n", "[Service]\nUser=w\n"]
    );
    let others = vec![
        parsed("a.yaml", vec![described("a1", "u"), described("a2", "v")]),
        parsed("c.yaml", vec![described("c1", "w")]),
    ];
    let clean = collect(LoadMode::Directory, &others).unwrap();
    assert_eq!(clean.descriptors, batch.descriptors);
    assert_eq!(clean.failures, Vec::<DeployError>::new());
}

#[test]
fn malformed_single_file_ends_the_load() {
    let files = vec![malformed("only.yaml")];
    assert_eq!(
        collect(LoadMode::SingleFile, &files),
        Err(DeployError::ParseError { file: "only.yaml".to_string() })
    );
}

#[test]
fn single_file_is_loaded() {
    let files = vec![parsed("only.yaml", vec![described("web", "www"), described("db", "pg")])];
    assert_eq!(
        collect(LoadMode::SingleFile, &files),
        Ok(Batch {
            descriptors: vec![described("web", "www"), described("db", "pg")],
            failures: vec![],
        })
    );
}

#[test]
fn name_given_twice_keeps_the_first() {
    let files = vec![
        parsed("a.yaml", vec![described("web", "first")]),
        parsed("b.yaml", vec![described("db", "pg"), described("web", "second")]),
        parsed("c.yaml", vec![described("web", "third")]),
    ];
    let batch = collect(LoadMode::Directory, &files).unwrap();
    assert_eq!(batch.descriptors, vec![described("web", "first"), described("db", "pg")]);
    assert_eq!(
        batch.failures,
        vec![
            DeployError::DuplicateName { name: "web".to_string() },
            DeployError::DuplicateName { name: "web".to_string() },
        ]
    );
}

#[test]
fn failures_keep_the_order_of_the_files() {
    let files = vec![
        malformed("1.yaml"),
        parsed("2.yaml", vec![described("x", "u"), described("x", "v")]),
        malformed("3.yaml"),
    ];
    let batch = collect(LoadMode::Directory, &files).unwrap();
    assert_eq!(batch.descriptors, vec![described("x", "u")]);
    assert_eq!(
        batch.failures,
        vec![
            DeployError::ParseError { file: "1.yaml".to_string() },
            DeployError::DuplicateName { name: "x".to_string() },
            DeployError::ParseError { file: "3.yaml".to_string() },
        ]
    );
}

#[test]
fn no_files_give_an_empty_batch() {
    let batch = collect(LoadMode::Directory, &Vec::new()).unwrap();
    assert!(batch.descriptors.is_empty());
    assert!(batch.failures.is_empty());
}
