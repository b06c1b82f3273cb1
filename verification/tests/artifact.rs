use cuda_builder::{cargo_output_lines, diagnostic_lines, select_ptx_artifact, CargoMessage, CudaBuilderError, HostPath};
use serde_json::Value;

/// Decode one line as a Cargo message with a string `reason` and optional
/// list of file names; anything else is a diagnostic.
fn decode(line: &[u8]) -> Option<CargoMessage> {
    let value: Value = serde_json::from_slice(line).ok()?;
    let object = value.as_object()?;
    let reason = object.get("reason")?.as_str()?.to_string();
    let filenames = match object.get("filenames") {
        None | Some(Value::Null) => None,
        Some(Value::Array(items)) => Some(
            items
                .iter()
                .map(|item| item.as_str().map(HostPath::from_str))
                .collect::<Option<Vec<_>>>()?,
        ),
        Some(_) => return None,
    };
    Some(CargoMessage { reason, filenames })
}

fn read_with(stdout: &[u8], mut diagnostic: impl FnMut(&str)) -> Result<HostPath, CudaBuilderError> {
    let lines = cargo_output_lines(stdout);
    let messages: Vec<_> = lines.iter().map(|line| decode(line)).collect();
    for line in diagnostic_lines(&lines, &messages) {
        diagnostic(&line);
    }
    select_ptx_artifact(&messages)
}

fn read(stdout: &[u8]) -> Result<HostPath, CudaBuilderError> {
    read_with(stdout, |line| println!("{line}"))
}

#[test]
fn selects_final_artifact_and_preserves_diagnostics_in_order() {
    let output = br#"before
{"reason":"compiler-artifact","filenames":["dependency.ptx"]}
between
{"reason":"compiler-artifact","filenames":["kernel.rlib","kernel.ptx"]}
{"reason":"build-finished","success":true}
after
"#;
    let mut diagnostics = Vec::new();
    let path = read_with(output, |line| diagnostics.push(line.to_owned())).unwrap();
    assert_eq!(path, HostPath::from_str("kernel.ptx"));
    assert_eq!(diagnostics, ["before", "between", "after"]);
}

#[test]
fn never_falls_back_to_a_dependency_artifact() {
    let output = br#"{"reason":"compiler-artifact","filenames":["dependency.ptx"]}
{"reason":"compiler-artifact","filenames":["kernel.rlib"]}"#;
    assert!(matches!(read(output), Err(CudaBuilderError::MissingPtxArtifact)));
    assert!(matches!(read(b""), Err(CudaBuilderError::MissingPtxArtifact)));
}

#[test]
fn reports_ambiguous_artifacts() {
    let output = br#"{"reason":"compiler-artifact","filenames":["a.ptx","b.ptx"]}"#;
    assert!(
        matches!(read(output), Err(CudaBuilderError::MultiplePtxArtifacts(paths)) if paths.len() == 2)
    );
}

#[test]
fn tolerates_non_utf8_diagnostics() {
    let output = b"warning: \xff\n{\"reason\":\"compiler-artifact\",\"filenames\":[\"kernel.ptx\"]}";
    let mut diagnostics = Vec::new();
    assert_eq!(
        read_with(output, |line| diagnostics.push(line.to_owned())).unwrap(),
        HostPath::from_str("kernel.ptx")
    );
    assert_eq!(diagnostics, ["warning: \u{fffd}"]);
}

#[test]
fn lines_skip_empty_ones() {
    let lines = cargo_output_lines(b"\n\na\n\nbc\n");
    assert_eq!(lines, [b"a".to_vec(), b"bc".to_vec()]);
    assert!(cargo_output_lines(b"").is_empty());
}

#[test]
fn only_ptx_extensions_count() {
    let files = ["k.PTX", ".ptx", "dir.ptx/", "x.ptx.d", "y.ptx"];
    let msg = CargoMessage {
        reason: "compiler-artifact".to_string(),
        filenames: Some(files.iter().map(|f| HostPath::from_str(f)).collect()),
    };
    let r = select_ptx_artifact(&vec![Some(msg)]);
    match r {
        Err(CudaBuilderError::MultiplePtxArtifacts(paths)) => {
            assert_eq!(paths, [HostPath::from_str("dir.ptx/"), HostPath::from_str("y.ptx")]);
        }
        _ => panic!("expected two PTX files"),
    }
}

#[test]
fn artifact_without_file_list_has_no_ptx() {
    let msg = CargoMessage { reason: "compiler-artifact".to_string(), filenames: None };
    let earlier = CargoMessage {
        reason: "compiler-artifact".to_string(),
        filenames: Some(vec![HostPath::from_str("a.ptx")]),
    };
    assert!(matches!(
        select_ptx_artifact(&vec![Some(earlier), Some(msg), None]),
        Err(CudaBuilderError::MissingPtxArtifact)
    ));
}

#[test]
fn error_messages_describe_each_failure() {
    assert_eq!(
        CudaBuilderError::MultiplePtxArtifacts(vec![HostPath::from_str("a.ptx"), HostPath::from_str("b\"c.ptx")]).message(),
        "Final crate produced multiple PTX artifacts: [\"a.ptx\", \"b\\\"c.ptx\"]"
    );
    assert_eq!(
        CudaBuilderError::CratePathDoesntExist(HostPath::from_bytes(b"k\xff".to_vec())).message(),
        "Crate directory k\u{fffd} does not exist"
    );
    assert_eq!(CudaBuilderError::BuildFailed.message(), "Kernel compilation failed; see Cargo diagnostics above");
    assert_eq!(CudaBuilderError::Backend("x".into()).message(), "CUDA backend: x");
    assert_eq!(CudaBuilderError::CargoInvocation("x".into()).message(), "Failed to execute cargo build: x");
    assert_eq!(CudaBuilderError::InvalidOption("x".into()).message(), "Invalid build option: x");
    assert_eq!(CudaBuilderError::FailedToCopyPtxFile("x".into()).message(), "Failed to copy PTX file: x");
    assert_eq!(
        CudaBuilderError::MissingPtxArtifact.message(),
        "Cargo succeeded without a PTX artifact for the final crate; check its crate-type (lib/rlib)"
    );
}
