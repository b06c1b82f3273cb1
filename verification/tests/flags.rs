use cuda_builder::{encode, rustflags, path_argument, CudaBuilder, CudaBuilderError, DebugInfo, HostPath, LlvmCleanup, NvvmArch};

fn path(s: &str) -> HostPath {
    HostPath::from_str(s)
}

#[test]
fn default_flags_preserve_backend_paths_with_spaces() {
    let backend = path("compiler directory/backend.so");
    let builder = CudaBuilder::new(path("kernels"), backend.clone()).arch(NvvmArch::Compute70);
    let flags = rustflags(&builder, &backend).unwrap();
    assert_eq!(
        flags,
        [
            "-Zcodegen-backend=compiler directory/backend.so",
            "-Zunstable-options",
            "-Zcrate-attr=feature(register_tool)",
            "-Zcrate-attr=register_tool(nvvm_internal)",
            "-Zcrate-attr=no_std",
            "-Zsaturating_float_casts=false",
            "-Cpanic=immediate-abort",
            "-Cllvm-args=-arch=compute_70 --override-libm",
        ]
    );
    let encoded = encode(&flags).unwrap();
    assert_eq!(encoded.split('\x1f').collect::<Vec<_>>(), flags);
}

#[test]
fn translates_debug_math_and_cleanup_options() {
    let backend = path("backend.so");
    let builder = CudaBuilder::new(path("kernels"), backend.clone())
        .arch(NvvmArch::Compute100)
        .release(false)
        .ftz(true)
        .fast_sqrt(true)
        .fast_div(true)
        .fma_contraction(false)
        .override_libm(false)
        .use_constant_memory_space(true)
        .debug(DebugInfo::LineTables)
        .emit_llvm_ir(true)
        .final_module_path(path("final.ll"))
        .llvm_global_dce(false)
        .llvm_module_cleanup(true)
        .llvm_cleanup(LlvmCleanup::InlineScalar);
    let flags = rustflags(&builder, &backend).unwrap();
    assert_eq!(
        &flags[7..],
        [
            "--emit=llvm-ir",
            "-Cdebuginfo=1",
            "-Cllvm-args=-arch=compute_100 --disable-llvm-global-dce \
             --llvm-module-cleanup --llvm-cleanup=inline-scalar \
             -opt=0 -ftz=1 -prec-sqrt=0 -prec-div=0 -fma=0 \
             --use-constant-memory-space --final-module-path final.ll -generate-line-info",
        ]
    );
}

#[test]
fn rejects_flags_that_would_split_into_extra_arguments() {
    assert!(matches!(
        encode(&vec!["path\x1fextra".to_string()]),
        Err(CudaBuilderError::InvalidOption(_))
    ));
}

#[test]
fn reports_non_utf8_paths_instead_of_panicking_or_substituting() {
    let bad = HostPath::from_bytes(b"bad-\xff".to_vec());
    let builder = CudaBuilder::new(path("kernels"), bad.clone());
    assert!(matches!(
        rustflags(&builder, &bad),
        Err(CudaBuilderError::InvalidOption(_))
    ));
    let builder = builder.final_module_path(bad.clone());
    assert!(matches!(
        rustflags(&builder, &path("backend.so")),
        Err(CudaBuilderError::InvalidOption(_))
    ));
}

#[test]
fn non_utf8_path_error_names_the_path_lossily() {
    let bad = HostPath::from_bytes(b"bad-\xff".to_vec());
    match path_argument(&bad) {
        Err(CudaBuilderError::InvalidOption(m)) => {
            assert_eq!(m, "compiler argument path is not valid UTF-8: bad-\u{fffd}")
        }
        _ => panic!("expected an invalid option"),
    }
    assert_eq!(path_argument(&path("ok/é.so")).unwrap(), "ok/é.so");
}

#[test]
fn encode_error_quotes_the_offending_flag() {
    let flags = vec!["fine".to_string(), "a\x1fb".to_string(), "c\x1fd".to_string()];
    match encode(&flags) {
        Err(CudaBuilderError::InvalidOption(m)) => {
            assert_eq!(m, "rustc argument contains Cargo's unit separator: \"a\\u{1f}b\"")
        }
        _ => panic!("expected an invalid option"),
    }
}

#[test]
fn encode_joins_with_unit_separator_and_round_trips() {
    let flags = vec!["-Ca".to_string(), String::new(), "b c".to_string()];
    let encoded = encode(&flags).unwrap();
    assert_eq!(encoded, "-Ca\x1f\x1fb c");
    assert_eq!(encoded.split('\x1f').collect::<Vec<_>>(), flags);
    assert_eq!(encode(&Vec::new()).unwrap(), "");
}

#[test]
fn default_builder_options_match_documentation() {
    let b = CudaBuilder::with_backend(path("k"), path("b.so"));
    assert!(b.release && b.generate_line_info && b.nvvm_opts && b.fma_contraction);
    assert!(b.override_libm && b.llvm_global_dce);
    assert!(!b.ftz && !b.fast_sqrt && !b.fast_div && !b.optix);
    assert!(!b.use_constant_memory_space && !b.llvm_module_cleanup);
    assert_eq!(b.arch, NvvmArch::Compute75);
    assert_eq!(b.debug, DebugInfo::Disabled);
    assert!(b.emit.is_none() && b.llvm_cleanup.is_none());
    assert!(b.ptx_file_copy_path.is_none() && b.final_module_path.is_none());
    assert!(b.build_args.is_empty());
}

#[test]
fn release_also_sets_nvvm_optimizations() {
    let b = CudaBuilder::new(path("k"), path("b.so")).release(false);
    assert!(!b.release && !b.nvvm_opts);
    let b = b.nvvm_opts(true);
    assert!(!b.release && b.nvvm_opts);
    let b = b.release(true);
    assert!(b.release && b.nvvm_opts);
}

#[test]
fn emit_options_replace_each_other() {
    let b = CudaBuilder::new(path("k"), path("b.so")).emit_llvm_ir(true).emit_llvm_bitcode(true);
    let flags = rustflags(&b, &path("b.so")).unwrap();
    assert_eq!(flags[7], "--emit=llvm-bc");
    let b = b.emit_llvm_bitcode(false);
    assert!(b.emit.is_none());
}

#[test]
fn each_cleanup_pipeline_has_its_flag() {
    for (mode, name) in [
        (LlvmCleanup::GlobalDce, "dce"),
        (LlvmCleanup::InlineScalar, "inline-scalar"),
        (LlvmCleanup::Scalar, "scalar"),
        (LlvmCleanup::Inline, "inline"),
    ] {
        let b = CudaBuilder::new(path("k"), path("b.so")).llvm_cleanup(mode);
        let flags = rustflags(&b, &path("b.so")).unwrap();
        assert_eq!(
            flags.last().unwrap(),
            &format!("-Cllvm-args=-arch=compute_75 --llvm-cleanup={name} --override-libm")
        );
    }
}

#[test]
fn build_args_accumulate_in_order() {
    let b = CudaBuilder::new(path("k"), path("b.so"))
        .build_args(&["--features", "a"])
        .build_args(&["-v"]);
    assert_eq!(b.build_args, ["--features", "a", "-v"]);
}

#[test]
fn line_info_follows_the_option_outside_release_builds() {
    let backend = path("backend.so");
    let base = || CudaBuilder::new(path("kernels"), path("backend.so"));
    let debug_build = rustflags(&base().release(false), &backend).unwrap();
    assert!(debug_build.last().unwrap().ends_with(" -generate-line-info"));
    let without = rustflags(&base().release(false).generate_line_info(false), &backend).unwrap();
    assert!(!without.last().unwrap().contains("-generate-line-info"));
    let release = rustflags(&base(), &backend).unwrap();
    assert!(!release.last().unwrap().contains("-generate-line-info"));
}
