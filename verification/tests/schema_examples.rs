use systemyml::service_struct::{schema_table, FieldKind};

#[test]
fn schema_has_its_keys_in_order() {
    let table = schema_table();
    let keys: Vec<&str> = table.iter().map(|row| row.key).collect();
    assert_eq!(
        keys,
        vec![
            "Type",
            "ExecStart",
            "Restart",
            "User",
            "Group",
            "WorkingDirectory",
            "Nice",
            "UMask",
            "RestartSec",
            "TimeoutStartSec",
            "TimeoutStopSec",
            "SuccessExitStatus",
            "LimitNOFILE",
            "LimitCORE",
            "LimitAS",
            "LimitCPU",
            "LimitFSIZE",
            "LimitNPROC",
            "LimitSTACK",
            "LimitRTPRIO",
            "CPUSet",
            "Delegate",
            "ProtectHome",
            "ProtectSystem",
            "PrivateTmp",
            "PrivateDevices",
            "ProtectKernelModules",
            "ProtectKernelTunables",
            "ProtectControlGroups",
            "MemoryDenyGroup",
            "IOWeight",
            "IOWeightDevice",
            "BlockIOWeight",
            "BlockIOWeightDevice",
            "TasksMax",
            "Slice",
            "NUMANode",
            "NUMAAffinity",
        ]
    );
}

#[test]
fn schema_gives_each_key_its_shape() {
    let table = schema_table();
    let integers = [
        "Nice",
        "LimitNOFILE",
        "LimitNPROC",
        "LimitRTPRIO",
        "IOWeight",
        "BlockIOWeight",
        "TasksMax",
        "NUMANode",
    ];
    for row in &table {
        let expected = if integers.contains(&row.key) {
            FieldKind::Integer
        } else if row.key == "IOWeightDevice" || row.key == "BlockIOWeightDevice" {
            FieldKind::TextList
        } else if row.key == "NUMAAffinity" {
            FieldKind::IntegerList
        } else {
            FieldKind::Text
        };
        assert_eq!(row.kind, expected, "{}", row.key);
    }
}
