use cuda_builder::{
    first_arch_option, thin_module_names,
    after_verification, ir_version_supported, VerifyOutcome,
    annotated_kernels, internalize_plan, used_values, function_linkage, global_linkage, is_known_nvvm_verify_false_negative, selected_arch, shim_signature,
    target_features, AllocatorTy, CodegenArgs, CodegenErr, Linkage, NvvmArch, NvvmCodegenBackend, NvvmOption, ShimTy,
};

#[test]
fn backend_identity() {
    let backend = NvvmCodegenBackend;
    assert_eq!(backend.name(), "nvvm");
    assert_eq!(backend.target_cpu(None, "sm_52"), "sm_52");
    assert_eq!(backend.target_cpu(Some("sm_80".into()), "sm_52"), "sm_80");
}

#[test]
fn arch_selection_uses_the_first_arch_option() {
    let args = CodegenArgs {
        nvvm_options: vec![NvvmOption::Ftz, NvvmOption::Arch(NvvmArch::Compute86), NvvmOption::Arch(NvvmArch::Compute70)],
        final_module_path: None,
    };
    assert_eq!(selected_arch(&args), NvvmArch::Compute86);
    let none = CodegenArgs { nvvm_options: vec![NvvmOption::NoOpts], final_module_path: None };
    assert_eq!(selected_arch(&none), NvvmArch::default());
    assert_eq!(NvvmArch::Compute100f.target_feature(), "compute_100f");
    assert_eq!(NvvmOption::Arch(NvvmArch::Compute121a).to_string(), "-arch=compute_121a");
}

#[test]
fn known_verifier_false_negative() {
    let log = "Producer: 'LLVM19.1' Reader: 'LLVM 7.0.1' ... parse Invalid value";
    assert!(is_known_nvvm_verify_false_negative(log));
    assert!(!is_known_nvvm_verify_false_negative("Producer: 'LLVM19' parse Invalid value"));
    assert!(!is_known_nvvm_verify_false_negative(""));
}

#[test]
fn target_features_from_plus_entries() {
    let f = target_features("+ptx70,-sm,+,+sm_80", "+fast,,x", &vec!["compute_70".to_string()]);
    assert_eq!(f, ["ptx70", "sm_80", "fast", "compute_70"]);
    assert!(target_features("", "", &Vec::new()).is_empty());
}

#[test]
fn merged_module_linkage() {
    assert_eq!(function_linkage(false, false, false), Some(Linkage::Internal));
    assert_eq!(function_linkage(false, true, false), None);
    assert_eq!(function_linkage(true, false, false), None);
    assert_eq!(function_linkage(false, false, true), Some(Linkage::External));
    assert_eq!(global_linkage(false), Some(Linkage::Internal));
    assert_eq!(global_linkage(true), None);
}

#[test]
fn allocator_shim_signatures() {
    let s = shim_signature(&vec![AllocatorTy::Layout, AllocatorTy::Ptr, AllocatorTy::Usize], AllocatorTy::ResultPtr);
    assert_eq!(s.params, [ShimTy::Usize, ShimTy::Usize, ShimTy::BytePtr, ShimTy::Usize]);
    assert_eq!(s.ret, Some(ShimTy::BytePtr));
    assert!(!s.no_return);
    let s = shim_signature(&vec![], AllocatorTy::Never);
    assert!(s.params.is_empty() && s.ret.is_none() && s.no_return);
}

#[test]
fn codegen_error_text() {
    assert_eq!(CodegenErr::Io("disk".into()).message(), "disk");
    assert_eq!(CodegenErr::Nvvm("bad ir".into()).message(), "bad ir");
}

#[test]
fn internalization_keeps_kernels_and_used_functions() {
    // Handles: 1 = "kernel" string, 10/11 kernels, 20 used, 30 plain, 40 declaration.
    let annotations = vec![vec![10, 1], vec![11, 1, 7], vec![30, 2], vec![40]];
    assert_eq!(annotated_kernels(&annotations, 1), vec![10, 11]);
    let used_nodes = vec![vec![20], vec![10, 5]];
    assert_eq!(used_values(&used_nodes), vec![20, 10]);
    let functions = vec![(10, false), (11, false), (20, false), (30, false), (40, true)];
    let plan = internalize_plan(&annotations, 1, &used_nodes, &functions, &vec![false, true]);
    assert_eq!(
        plan.functions,
        vec![Some(Linkage::External), None, Some(Linkage::External), Some(Linkage::Internal), None]
    );
    assert_eq!(plan.globals, vec![Some(Linkage::Internal), None]);
}

#[test]
fn target_config_reports_stable_features_and_no_reliable_half_or_quad() {
    let arch = vec!["compute_50".to_string(), "compute_60".to_string()];
    let c = NvvmCodegenBackend.target_config("+ptx80,-x", "+sm_60,+,", &arch);
    assert_eq!(c.target_features, ["ptx80", "sm_60", "compute_50", "compute_60"]);
    assert_eq!(c.unstable_target_features, c.target_features);
    assert!(!c.has_reliable_f16 && !c.has_reliable_f16_math && !c.has_reliable_f128 && !c.has_reliable_f128_math);
}

#[test]
fn libnvvm_version_floor_and_verification_outcomes() {
    assert!(ir_version_supported(2, 0));
    assert!(ir_version_supported(2, 3));
    assert!(ir_version_supported(3, 0));
    assert!(!ir_version_supported(1, 5));
    assert!(!ir_version_supported(1, 0));
    assert!(matches!(after_verification(true, false, false, ""), VerifyOutcome::Compile));
    let log = "Producer: 'LLVM19.1' Reader: 'LLVM 7.0.1' parse Invalid value";
    assert!(matches!(after_verification(false, true, true, log), VerifyOutcome::WarnAndCompile(_)));
    match after_verification(false, false, true, log) {
        VerifyOutcome::Reject(m) => {
            assert!(m.starts_with("Malformed NVVM IR program rejected by libnvvm, dumping verifier log:\n\nProducer"));
            assert!(m.ends_with("mentioned in the log"));
        }
        _ => panic!("expected a rejection"),
    }
    assert!(matches!(after_verification(false, true, false, log), VerifyOutcome::Reject(_)));
}

#[test]
fn first_arch_option_and_thin_module_order() {
    let args = CodegenArgs {
        nvvm_options: vec![NvvmOption::Ftz, NvvmOption::Arch(NvvmArch::Compute70), NvvmOption::Arch(NvvmArch::Compute80)],
        final_module_path: None,
    };
    assert_eq!(first_arch_option(&args), Some(NvvmArch::Compute70));
    let none = CodegenArgs { nvvm_options: vec![NvvmOption::NoOpts], final_module_path: None };
    assert_eq!(first_arch_option(&none), None);
    let names = thin_module_names(&vec!["a.0".to_string(), "a.1".to_string()], &vec!["cached".to_string()]);
    assert_eq!(names, ["a.0", "a.1", "cached"]);
}
