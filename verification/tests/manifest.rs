use daq_core::storage::manifest::{manifest_layout, manifest_writes, AttributeValue, ExperimentManifest, ManifestWrite};

fn path(parts: &[&str]) -> Vec<String> {
    parts.iter().map(|s| s.to_string()).collect()
}

fn describe(w: &ManifestWrite) -> String {
    match w {
        ManifestWrite::Group { path } => format!("group {}", path.join("/")),
        ManifestWrite::Attribute { group, name, value } => match value {
            AttributeValue::Count(n) => format!("{}@{}={}", group.join("/"), name, n),
            AttributeValue::Text(t) => format!("{}@{}={}", group.join("/"), name, t),
        },
    }
}

fn sample() -> ExperimentManifest {
    ExperimentManifest {
        timestamp_ns: 1_700_000_000_000_000_000,
        run_uid: "run-1".to_string(),
        plan_type: "grid_scan".to_string(),
        plan_name: "Grid Scan".to_string(),
        parameters: vec![(
            "stage".to_string(),
            vec![
                ("speed".to_string(), serde_json::Value::from(2.5)),
                ("label".to_string(), serde_json::Value::from("x axis")),
            ],
        )],
        system_info: vec![("host".to_string(), "lab-pc".to_string())],
        metadata: vec![("operator".to_string(), "ada".to_string())],
    }
}

#[test]
fn manifest_writes_lay_out_every_group_and_attribute() {
    let writes = manifest_writes(&sample()).expect("serializable");
    let lines: Vec<String> = writes.iter().map(describe).collect();
    assert_eq!(
        lines,
        vec![
            "group manifest",
            "manifest@timestamp_ns=1700000000000000000",
            "manifest@run_uid=run-1",
            "manifest@plan_type=grid_scan",
            "manifest@plan_name=Grid Scan",
            "group manifest/parameters",
            "group manifest/parameters/stage",
            "manifest/parameters/stage@speed=2.5",
            "manifest/parameters/stage@label=\"x axis\"",
            "group manifest/system",
            "manifest/system@host=lab-pc",
            "group manifest/metadata",
            "manifest/metadata@operator=ada",
        ]
    );
}

#[test]
fn manifest_layout_uses_given_texts() {
    let m = sample();
    let texts = vec![vec!["A".to_string(), "B".to_string()]];
    let writes = manifest_layout(&m, &texts);
    assert_eq!(writes.len(), 13);
    assert_eq!(describe(&writes[7]), "manifest/parameters/stage@speed=A");
    assert_eq!(describe(&writes[8]), "manifest/parameters/stage@label=B");
    assert!(matches!(&writes[5], ManifestWrite::Group { path: p } if *p == path(&["manifest", "parameters"])));
}

#[test]
fn empty_manifest_still_has_its_groups() {
    let m = ExperimentManifest {
        timestamp_ns: 0,
        run_uid: String::new(),
        plan_type: String::new(),
        plan_name: String::new(),
        parameters: vec![],
        system_info: vec![],
        metadata: vec![],
    };
    let writes = manifest_writes(&m).expect("serializable");
    let groups: Vec<String> = writes
        .iter()
        .filter_map(|w| match w {
            ManifestWrite::Group { path } => Some(path.join("/")),
            _ => None,
        })
        .collect();
    assert_eq!(groups, vec!["manifest", "manifest/parameters", "manifest/system", "manifest/metadata"]);
    assert_eq!(writes.len(), 8);
}
