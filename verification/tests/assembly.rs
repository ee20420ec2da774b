//! Tests of the output-assembly subsystem on concrete reports.

use vyper_project::contract::ContractReport;
use vyper_project::output::Output;

fn json_text(text: &str) -> serde_json::Value {
    serde_json::Value::String(text.to_string())
}

fn report(
    metadata: Option<serde_json::Value>,
    ir: Option<&str>,
    abi: Option<serde_json::Value>,
) -> ContractReport {
    ContractReport {
        metadata,
        ir: ir.map(|text| text.to_string()),
        abi,
    }
}

fn single_file_output(
    path: &str,
    name: &str,
    contract: ContractReport,
    errors: Option<Vec<serde_json::Value>>,
) -> Output {
    Output {
        files: Some(vec![(path.to_string(), vec![(name.to_string(), contract)])]),
        errors,
        long_version: None,
    }
}

#[test]
fn assembles_single_contract() {
    let metadata = json_text("M1");
    let abi = json_text("A1");
    let output = single_file_output(
        "a.vy",
        "Foo",
        report(Some(metadata.clone()), Some("IR1"), Some(abi.clone())),
        None,
    );
    let version = semver::Version::new(0, 3, 10);
    let project = output.try_into_project(&version).unwrap();
    assert_eq!(*project.version(), version);
    assert_eq!(project.len(), 1);
    let contract = project.get(&String::from("a.vy:Foo")).unwrap();
    assert_eq!(contract.metadata, Some(metadata));
    assert_eq!(contract.ir, Some("IR1".to_string()));
    assert_eq!(contract.abi, Some(abi));
}

#[test]
fn fails_with_pretty_printed_diagnostics() {
    let mut fields = serde_json::Map::new();
    fields.insert("message".to_string(), json_text("syntax error"));
    let diagnostic = serde_json::Value::Object(fields);
    let output = Output {
        files: None,
        errors: Some(vec![diagnostic.clone()]),
        long_version: None,
    };
    let version = semver::Version::new(0, 3, 10);
    let error = output.try_into_project(&version).unwrap_err();
    let expected = serde_json::to_string_pretty(&vec![diagnostic]).unwrap();
    assert_eq!(error.message, expected);
}

#[test]
fn fails_with_fallback_message() {
    let output = Output {
        files: None,
        errors: None,
        long_version: None,
    };
    let version = semver::Version::new(0, 3, 10);
    let error = output.try_into_project(&version).unwrap_err();
    assert_eq!(error.message, "Unknown project assembling error");
}

#[test]
fn empty_files_mapping_yields_empty_project() {
    let output = Output {
        files: Some(Vec::new()),
        errors: None,
        long_version: None,
    };
    let version = semver::Version::new(0, 3, 10);
    let project = output.try_into_project(&version).unwrap();
    assert_eq!(project.len(), 0);
    assert!(project.contracts().is_empty());
    assert!(project.get(&String::from("a.vy:Foo")).is_none());
}

#[test]
fn flattens_every_file_and_contract() {
    let files = vec![
        (
            "a.vy".to_string(),
            vec![
                ("Bar".to_string(), report(None, Some("ir-a-bar"), None)),
                ("Foo".to_string(), report(None, Some("ir-a-foo"), None)),
            ],
        ),
        (
            "b.vy".to_string(),
            vec![
                ("Bar".to_string(), report(None, Some("ir-b-bar"), None)),
                ("Foo".to_string(), report(None, Some("ir-b-foo"), None)),
            ],
        ),
    ];
    let output = Output {
        files: Some(files),
        errors: None,
        long_version: None,
    };
    let version = semver::Version::new(0, 3, 10);
    let project = output.try_into_project(&version).unwrap();
    assert_eq!(project.len(), 4);
    for (path, name, ir) in [
        ("a.vy", "Bar", "ir-a-bar"),
        ("a.vy", "Foo", "ir-a-foo"),
        ("b.vy", "Bar", "ir-b-bar"),
        ("b.vy", "Foo", "ir-b-foo"),
    ] {
        let id = format!("{path}:{name}");
        let contract = project.get(&id).unwrap();
        assert_eq!(contract.ir, Some(ir.to_string()));
        assert_eq!(contract.metadata, None);
        assert_eq!(contract.abi, None);
    }
}

#[test]
fn assembly_is_idempotent() {
    let build = || Output {
        files: Some(vec![
            (
                "a.vy".to_string(),
                vec![(
                    "Foo".to_string(),
                    report(Some(json_text("M1")), Some("IR1"), Some(json_text("A1"))),
                )],
            ),
            (
                "b.vy".to_string(),
                vec![("Bar".to_string(), report(None, None, None))],
            ),
        ]),
        errors: None,
        long_version: Some("vyper 0.3.10".to_string()),
    };
    let version = semver::Version::new(0, 3, 10);
    let first = build().try_into_project(&version).unwrap();
    let second = build().try_into_project(&version).unwrap();
    assert_eq!(first.len(), second.len());
    let mut first_ids: Vec<&String> = first.contracts().iter().map(|entry| &entry.0).collect();
    let mut second_ids: Vec<&String> = second.contracts().iter().map(|entry| &entry.0).collect();
    first_ids.sort();
    second_ids.sort();
    assert_eq!(first_ids, second_ids);
    for (id, contract) in first.contracts() {
        let other = second.get(id).unwrap();
        assert_eq!(contract.metadata, other.metadata);
        assert_eq!(contract.ir, other.ir);
        assert_eq!(contract.abi, other.abi);
    }
}

#[test]
fn diagnostics_alongside_contracts_are_discarded() {
    let mut fields = serde_json::Map::new();
    fields.insert("message".to_string(), json_text("just a warning"));
    let warning = serde_json::Value::Object(fields);
    let output = single_file_output(
        "a.vy",
        "Foo",
        report(None, Some("IR1"), None),
        Some(vec![warning]),
    );
    let version = semver::Version::new(0, 3, 10);
    let project = output.try_into_project(&version).unwrap();
    assert_eq!(project.len(), 1);
    assert!(project.get(&String::from("a.vy:Foo")).is_some());
}

#[test]
fn later_binding_of_equal_name_wins() {
    let output = Output {
        files: Some(vec![(
            "a.vy".to_string(),
            vec![
                ("Foo".to_string(), report(None, Some("first"), None)),
                ("Foo".to_string(), report(None, Some("second"), None)),
            ],
        )]),
        errors: None,
        long_version: None,
    };
    let version = semver::Version::new(0, 3, 10);
    let project = output.try_into_project(&version).unwrap();
    assert_eq!(project.len(), 1);
    let contract = project.get(&String::from("a.vy:Foo")).unwrap();
    assert_eq!(contract.ir, Some("second".to_string()));
}

#[test]
fn colliding_colon_identifiers_merge_with_later_winning() {
    let output = Output {
        files: Some(vec![
            (
                "a.vy".to_string(),
                vec![("b:Foo".to_string(), report(None, Some("first"), None))],
            ),
            (
                "a.vy:b".to_string(),
                vec![("Foo".to_string(), report(None, Some("second"), None))],
            ),
        ]),
        errors: None,
        long_version: None,
    };
    let version = semver::Version::new(0, 3, 10);
    let project = output.try_into_project(&version).unwrap();
    assert_eq!(project.len(), 1);
    let contract = project.get(&String::from("a.vy:b:Foo")).unwrap();
    assert_eq!(contract.ir, Some("second".to_string()));
}

#[test]
fn absent_payloads_stay_absent() {
    let output = single_file_output("a.vy", "Foo", report(None, None, None), None);
    let version = semver::Version::new(1, 2, 3);
    let project = output.try_into_project(&version).unwrap();
    let contract = project.get(&String::from("a.vy:Foo")).unwrap();
    assert_eq!(contract.metadata, None);
    assert_eq!(contract.ir, None);
    assert_eq!(contract.abi, None);
    assert_eq!(*project.version(), semver::Version::new(1, 2, 3));
}
