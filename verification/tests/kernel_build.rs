use cuda_builder::{
    cargo_command, nested_target_dir, BuildAction, BuildEnvironment, BuildEvent, BuildStage,
    CargoMessage, CudaBuilder, CudaBuilderError, HostOs, HostPath,
};

fn path(s: &str) -> HostPath {
    HostPath::from_str(s)
}

fn text(p: &HostPath) -> String {
    String::from_utf8(p.bytes.clone()).unwrap()
}

#[test]
fn isolates_nested_builds_in_custom_and_cross_target_directories() {
    for root in ["target", "custom-output", "target/aarch64-unknown-linux-gnu"] {
        let root = path(root);
        let out = root.join_str("debug/build/host-123/out");
        assert_eq!(nested_target_dir(&out, "debug"), Some(root.join_str("cuda-builder")));
        assert_eq!(nested_target_dir(&out, "release"), None);
    }
    assert_eq!(nested_target_dir(&path("target/debug/out"), "debug"), None);
}

#[test]
fn nested_target_dir_ignores_trailing_separators() {
    let out = path("/t/release/build/p-1/out/");
    assert_eq!(nested_target_dir(&out, "release"), Some(path("/t/cuda-builder")));
    assert_eq!(nested_target_dir(&path("out"), "debug"), None);
}

#[test]
fn cargo_configuration_preserves_argument_boundaries() {
    let builder = CudaBuilder::new(path("kernel directory"), path("backend"))
        .release(false)
        .optix(true)
        .build_args(&["--features", "feature-a,feature-b"]);
    let target = path("target with spaces");
    let cargo = cargo_command(&builder, Some(&target), true);
    let args: Vec<_> = cargo.args.iter().map(text).collect();
    assert_eq!(
        args,
        [
            "build",
            "--lib",
            "--message-format=json-render-diagnostics",
            "-Zbuild-std=core,alloc",
            "--target=nvptx64-nvidia-cuda",
            "--features",
            "feature-a,feature-b",
            "--timings",
            "-Zunstable-options",
            "--config",
            "optix=\"1\"",
            "--target-dir",
            "target with spaces",
        ]
    );
    assert_eq!(text(&cargo.current_dir), "kernel directory");
    assert_eq!(cargo.program, "cargo");
    assert_eq!(cargo.env, [("CARGO_FEATURE_NO_F16_F128".to_string(), "1".to_string())]);
}

#[test]
fn release_build_without_target_dir_or_timings() {
    let builder = CudaBuilder::new(path("k"), path("b"));
    let cargo = cargo_command(&builder, None, false);
    let args: Vec<_> = cargo.args.iter().map(text).collect();
    assert_eq!(args[5..], ["--release"]);
}

fn environment() -> BuildEnvironment {
    BuildEnvironment {
        timing_dir: None,
        out_dir: Some(path("/w/target/debug/build/app-1/out")),
        profile: Some("debug".to_string()),
        sysroot: Some(path("/sys")),
        triples: vec![path("x86_64-unknown-linux-gnu")],
        os: HostOs::Other,
    }
}

fn artifact(files: &[&str]) -> Option<CargoMessage> {
    Some(CargoMessage {
        reason: "compiler-artifact".to_string(),
        filenames: Some(files.iter().map(|f| path(f)).collect()),
    })
}

/// Drive a build through its steps, answering each action with the given closure.
fn drive(
    builder: CudaBuilder,
    mut answer: impl FnMut(&BuildAction) -> BuildEvent,
) -> (Vec<String>, Result<HostPath, CudaBuilderError>) {
    let mut log = Vec::new();
    let (mut build, mut action) = builder.build();
    loop {
        if let BuildAction::Finish(r) = action {
            return (log, r);
        }
        log.push(match &action {
            BuildAction::Print(_) => "print",
            BuildAction::Warn(_) => "warn",
            BuildAction::CheckDir(_) => "check",
            BuildAction::Canonicalize(_) => "canonicalize",
            BuildAction::ReadEnvironment => "environment",
            BuildAction::CreateDir(_) => "mkdir",
            BuildAction::ProbeDirs { .. } => "probe",
            BuildAction::JoinSearchPath(_) => "join",
            BuildAction::RunCargo { .. } => "cargo",
            BuildAction::Copy { .. } => "copy",
            BuildAction::Finish(_) => unreachable!(),
        }
        .to_string());
        let event = answer(&action);
        assert!(build.accepts(&event));
        action = build.step(event);
    }
}

fn happy(action: &BuildAction, cargo_ok: bool) -> BuildEvent {
    match action {
        BuildAction::Print(_) | BuildAction::Warn(_) => BuildEvent::Shown,
        BuildAction::CheckDir(_) => BuildEvent::DirChecked(true),
        BuildAction::Canonicalize(p) => BuildEvent::Canonicalized {
            result: Ok(HostPath::from_str(&format!("/abs/{}", text(p)))),
            is_file: true,
        },
        BuildAction::ReadEnvironment => BuildEvent::EnvironmentRead(environment()),
        BuildAction::CreateDir(_) => BuildEvent::DirCreated(Ok(())),
        BuildAction::ProbeDirs { dirs, .. } => BuildEvent::DirsProbed {
            exists: dirs.iter().map(|_| false).collect(),
            current: Vec::new(),
        },
        BuildAction::JoinSearchPath(_) => BuildEvent::SearchPathJoined(Ok(path("/x"))),
        BuildAction::RunCargo { .. } => BuildEvent::CargoRan {
            status: Ok(cargo_ok),
            messages: vec![None, artifact(&["dep.ptx"]), artifact(&["k.rlib", "k.ptx"])],
        },
        BuildAction::Copy { .. } => BuildEvent::Copied(Ok(())),
        BuildAction::Finish(_) => unreachable!(),
    }
}

#[test]
fn build_steps_in_order_and_returns_the_final_ptx() {
    let (log, result) = drive(CudaBuilder::new(path("k"), path("b.so")), |a| happy(a, true));
    assert_eq!(log, ["print", "check", "print", "canonicalize", "environment", "probe", "cargo"]);
    assert_eq!(result.unwrap(), path("k.ptx"));
}

#[test]
fn copied_builds_return_the_copy() {
    let builder = CudaBuilder::new(path("k"), path("b.so")).copy_to(path("out/kernels.ptx"));
    let (log, result) = drive(builder, |a| happy(a, true));
    assert_eq!(log.last().unwrap(), "copy");
    assert_eq!(result.unwrap(), path("out/kernels.ptx"));
}

#[test]
fn failed_cargo_wins_over_artifacts() {
    let (_, result) = drive(CudaBuilder::new(path("k"), path("b.so")), |a| happy(a, false));
    assert!(matches!(result, Err(CudaBuilderError::BuildFailed)));
}

#[test]
fn missing_crate_directory_stops_the_build() {
    let (log, result) = drive(CudaBuilder::new(path("nowhere"), path("b.so")), |a| match a {
        BuildAction::CheckDir(_) => BuildEvent::DirChecked(false),
        other => happy(other, true),
    });
    assert_eq!(log, ["print", "check"]);
    match result {
        Err(CudaBuilderError::CratePathDoesntExist(p)) => assert_eq!(p, path("nowhere")),
        _ => panic!("expected a missing crate"),
    }
}

#[test]
fn unusable_backend_is_reported() {
    let (_, result) = drive(CudaBuilder::new(path("k"), path("b.so")), |a| match a {
        BuildAction::Canonicalize(_) => BuildEvent::Canonicalized { result: Ok(path("/abs/b.so")), is_file: false },
        other => happy(other, true),
    });
    match result {
        Err(CudaBuilderError::Backend(m)) => assert_eq!(m, "b.so is not a backend file"),
        _ => panic!("expected a backend error"),
    }
    let (_, result) = drive(CudaBuilder::new(path("k"), path("b.so")), |a| match a {
        BuildAction::Canonicalize(_) => BuildEvent::Canonicalized { result: Err("gone".to_string()), is_file: false },
        other => happy(other, true),
    });
    match result {
        Err(CudaBuilderError::Backend(m)) => assert_eq!(m, "cannot use b.so: gone"),
        _ => panic!("expected a backend error"),
    }
}

#[test]
fn timing_adds_self_profiling_and_cargo_timings() {
    let mut seen_flags = String::new();
    let mut seen_args = Vec::new();
    let (log, result) = drive(CudaBuilder::new(path("k"), path("b/lib/b.so")), |a| match a {
        BuildAction::ReadEnvironment => {
            let mut env = environment();
            env.timing_dir = Some(path("/trace"));
            BuildEvent::EnvironmentRead(env)
        }
        BuildAction::CreateDir(d) => {
            assert_eq!(*d, path("/trace/rustc"));
            BuildEvent::DirCreated(Ok(()))
        }
        BuildAction::ProbeDirs { dirs, variable } => {
            assert_eq!(variable, "LD_LIBRARY_PATH");
            let texts: Vec<_> = dirs.iter().map(text).collect();
            assert_eq!(
                texts,
                [
                    "/abs/b/lib",
                    "/abs/b",
                    "/abs/b/lib/deps",
                    "/sys/lib",
                    "/sys/lib/rustlib/x86_64-unknown-linux-gnu/lib",
                ]
            );
            BuildEvent::DirsProbed { exists: vec![true, false, false, true, false], current: vec![path("/old")] }
        }
        BuildAction::JoinSearchPath(paths) => {
            let texts: Vec<_> = paths.iter().map(text).collect();
            assert_eq!(texts, ["/abs/b/lib", "/sys/lib", "/old"]);
            BuildEvent::SearchPathJoined(Ok(path("/abs/b/lib:/sys/lib:/old")))
        }
        BuildAction::RunCargo { command, env } => {
            seen_args = command.args.iter().map(text).collect();
            let vars: Vec<_> = env.iter().map(|(k, v)| (k.clone(), text(v))).collect();
            assert_eq!(vars[0], ("LD_LIBRARY_PATH".to_string(), "/abs/b/lib:/sys/lib:/old".to_string()));
            assert_eq!(vars[1].0, "CARGO_ENCODED_RUSTFLAGS");
            seen_flags = vars[1].1.clone();
            happy(a, true)
        }
        other => happy(other, true),
    });
    assert!(result.is_ok());
    assert!(log.contains(&"mkdir".to_string()) && log.contains(&"join".to_string()));
    let flags: Vec<_> = seen_flags.split('\x1f').collect();
    assert_eq!(flags[0], "-Zcodegen-backend=/abs/b/lib/b.so");
    assert_eq!(&flags[flags.len() - 2..], ["-Zself-profile=/trace/rustc", "-Ztime-passes"]);
    assert!(seen_args.contains(&"--timings".to_string()));
    assert_eq!(&seen_args[seen_args.len() - 2..], ["--target-dir", "/w/target/cuda-builder"]);
}

#[test]
fn failed_profile_directory_only_warns() {
    let mut warning = String::new();
    let (log, result) = drive(CudaBuilder::new(path("k"), path("b.so")), |a| match a {
        BuildAction::ReadEnvironment => {
            let mut env = environment();
            env.timing_dir = Some(path("/trace"));
            BuildEvent::EnvironmentRead(env)
        }
        BuildAction::CreateDir(_) => BuildEvent::DirCreated(Err("denied".to_string())),
        BuildAction::Warn(w) => {
            warning = w.clone();
            BuildEvent::Shown
        }
        other => happy(other, true),
    });
    assert!(result.is_ok());
    assert!(log.contains(&"warn".to_string()));
    assert_eq!(warning, "Could not create rustc self-profile directory: denied");
}

#[test]
fn refused_search_path_is_a_backend_error() {
    let (_, result) = drive(CudaBuilder::new(path("k"), path("b.so")), |a| match a {
        BuildAction::ProbeDirs { dirs, .. } => BuildEvent::DirsProbed {
            exists: dirs.iter().map(|_| true).collect(),
            current: Vec::new(),
        },
        BuildAction::JoinSearchPath(_) => BuildEvent::SearchPathJoined(Err("bad entry".to_string())),
        other => happy(other, true),
    });
    match result {
        Err(CudaBuilderError::Backend(m)) => assert_eq!(m, "cannot set LD_LIBRARY_PATH: bad entry"),
        _ => panic!("expected a backend error"),
    }
}

#[test]
fn cargo_that_cannot_start_and_failed_copies_are_reported() {
    let (_, result) = drive(CudaBuilder::new(path("k"), path("b.so")), |a| match a {
        BuildAction::RunCargo { .. } => BuildEvent::CargoRan { status: Err("no cargo".to_string()), messages: vec![] },
        other => happy(other, true),
    });
    assert!(matches!(result, Err(CudaBuilderError::CargoInvocation(m)) if m == "no cargo"));
    let builder = CudaBuilder::new(path("k"), path("b.so")).copy_to(path("dst.ptx"));
    let (_, result) = drive(builder, |a| match a {
        BuildAction::Copy { .. } => BuildEvent::Copied(Err("disk full".to_string())),
        other => happy(other, true),
    });
    assert!(matches!(result, Err(CudaBuilderError::FailedToCopyPtxFile(m)) if m == "disk full"));
    assert_eq!(BuildStage::Finished, BuildStage::Finished);
}
