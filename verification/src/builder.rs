//! Public build configuration and fluent setters.

use vstd::prelude::*;
use crate::arch::{NvvmArch, spec_default_arch};
use crate::error::CudaBuilderError;
use crate::path::HostPath;
use crate::text::{string_views, str_views};

verus! {

/// Level of debug information to generate.
#[derive(Clone, Copy, Debug, PartialEq, Eq, Structural)]
pub enum DebugInfo {
    Disabled,
    LineTables,
}

/// Experimental pre-NVVM optimization. Requires the modern LLVM backend.
#[derive(Clone, Copy, Debug, PartialEq, Eq, Structural)]
pub enum LlvmCleanup {
    /// Remove unreachable internal definitions without rewriting live function bodies.
    GlobalDce,
    /// Inline internal calls, then run scalar cleanup without correlated propagation.
    InlineScalar,
    Scalar,
    Inline,
}

/// An intermediate representation to emit next to the PTX.
#[derive(Clone, Copy, Debug, PartialEq, Eq, Structural)]
pub enum EmitOption {
    LlvmIr,
    Bitcode,
}

/// A builder for compiling Rust GPU crates in build scripts.
pub struct CudaBuilder {
    /// The kernel crate's root directory.
    pub path_to_crate: HostPath,
    /// The already-built `rustc_codegen_nvvm` dylib.
    pub codegen_backend: HostPath,
    /// Whether to compile the gpu crate for release. `true` by default.
    pub release: bool,
    /// An optional path to copy the final ptx file to.
    pub ptx_file_copy_path: Option<HostPath>,
    /// Whether to generate debug line number info. `true` by default, but
    /// nothing is generated if the gpu crate is built as release.
    pub generate_line_info: bool,
    /// Whether to run libnvvm optimizations. `true` by default; `release` sets it too.
    pub nvvm_opts: bool,
    /// The virtual compute architecture to target for PTX generation.
    pub arch: NvvmArch,
    /// Flush denormals to zero in single-precision operations. `false` by default.
    pub ftz: bool,
    /// Fast single-precision square root. `false` by default.
    pub fast_sqrt: bool,
    /// Fast single-precision division. `false` by default.
    pub fast_div: bool,
    /// FMA contraction. `true` by default.
    pub fma_contraction: bool,
    /// An IR to emit next to the PTX.
    pub emit: Option<EmitOption>,
    /// Compile for OptiX. `false` by default.
    pub optix: bool,
    /// Replace `libm` calls with libdevice intrinsics. `true` by default.
    pub override_libm: bool,
    /// Place statics in constant memory automatically. `false` by default.
    pub use_constant_memory_space: bool,
    /// Whether to generate any debug info and what level of info to generate.
    pub debug: DebugInfo,
    /// Additional arguments passed to cargo during `cargo build`.
    pub build_args: Vec<String>,
    /// An optional path where the codegen dumps the LLVM IR it feeds to libnvvm.
    pub final_module_path: Option<HostPath>,
    /// Whether the modern backend removes unreachable definitions at the merged handoff.
    pub llvm_global_dce: bool,
    /// Additional opt-in modern LLVM cleanup; disabled by default.
    pub llvm_cleanup: Option<LlvmCleanup>,
    /// Experimental scalar cleanup of each codegen unit before serialization.
    pub llvm_module_cleanup: bool,
}

/// Every option of `b` holds its documented default.
pub open spec fn has_default_options(b: CudaBuilder) -> bool {
    &&& b.release
    &&& b.ptx_file_copy_path is None
    &&& b.generate_line_info
    &&& b.nvvm_opts
    &&& b.arch == spec_default_arch()
    &&& !b.ftz
    &&& !b.fast_sqrt
    &&& !b.fast_div
    &&& b.fma_contraction
    &&& b.emit is None
    &&& !b.optix
    &&& b.override_libm
    &&& !b.use_constant_memory_space
    &&& b.debug == DebugInfo::Disabled
    &&& b.build_args@.len() == 0
    &&& b.final_module_path is None
    &&& b.llvm_global_dce
    &&& b.llvm_cleanup is None
    &&& !b.llvm_module_cleanup
}

impl CudaBuilder {
    /// Compile the kernel crate at `path_to_crate_root` with the already-built
    /// backend dylib `codegen_backend`.
    pub fn new(path_to_crate_root: HostPath, codegen_backend: HostPath) -> (b: Self)
        ensures
            b.path_to_crate@ == path_to_crate_root@,
            b.codegen_backend@ == codegen_backend@,
            has_default_options(b),
    {
        Self::configured(path_to_crate_root, codegen_backend)
    }

    /// Compile a kernel crate using the specified, already-built backend dylib.
    pub fn with_backend(path_to_crate_root: HostPath, codegen_backend: HostPath) -> (b: Self)
        ensures
            b.path_to_crate@ == path_to_crate_root@,
            b.codegen_backend@ == codegen_backend@,
            has_default_options(b),
    {
        Self::configured(path_to_crate_root, codegen_backend)
    }

    fn configured(path_to_crate_root: HostPath, codegen_backend: HostPath) -> (b: Self)
        ensures
            b.path_to_crate@ == path_to_crate_root@,
            b.codegen_backend@ == codegen_backend@,
            has_default_options(b),
    {
        CudaBuilder {
            path_to_crate: path_to_crate_root,
            codegen_backend,
            release: true,
            ptx_file_copy_path: None,
            generate_line_info: true,
            nvvm_opts: true,
            arch: NvvmArch::default(),
            ftz: false,
            fast_sqrt: false,
            fast_div: false,
            fma_contraction: true,
            emit: None,
            optix: false,
            override_libm: true,
            use_constant_memory_space: false,
            debug: DebugInfo::Disabled,
            build_args: Vec::new(),
            final_module_path: None,
            llvm_global_dce: true,
            llvm_cleanup: None,
            llvm_module_cleanup: false,
        }
    }

    /// Enable or disable the default modern LLVM merged-module GlobalDCE pass.
    /// Disabling is intended for compiler-output comparisons.
    pub fn llvm_global_dce(self, enabled: bool) -> (b: Self)
        ensures
            b == (CudaBuilder { llvm_global_dce: enabled, ..self }),
    {
        let mut s = self;
        s.llvm_global_dce = enabled;
        s
    }

    /// Enable verified scalar cleanup before each codegen unit is serialized.
    /// Disabled by default; independent of merged-module cleanup.
    pub fn llvm_module_cleanup(self, enabled: bool) -> (b: Self)
        ensures
            b == (CudaBuilder { llvm_module_cleanup: enabled, ..self }),
    {
        let mut s = self;
        s.llvm_module_cleanup = enabled;
        s
    }

    /// Whether to generate debug line number info.
    pub fn generate_line_info(self, generate_line_info: bool) -> (b: Self)
        ensures
            b == (CudaBuilder { generate_line_info: generate_line_info, ..self }),
    {
        let mut s = self;
        s.generate_line_info = generate_line_info;
        s
    }

    /// Whether to run libnvvm optimizations.
    pub fn nvvm_opts(self, nvvm_opts: bool) -> (b: Self)
        ensures
            b == (CudaBuilder { nvvm_opts: nvvm_opts, ..self }),
    {
        let mut s = self;
        s.nvvm_opts = nvvm_opts;
        s
    }

    /// Flush denormal values to zero in single-precision floating point operations.
    pub fn ftz(self, ftz: bool) -> (b: Self)
        ensures
            b == (CudaBuilder { ftz: ftz, ..self }),
    {
        let mut s = self;
        s.ftz = ftz;
        s
    }

    /// Use a fast approximation for single-precision floating point square root.
    pub fn fast_sqrt(self, fast_sqrt: bool) -> (b: Self)
        ensures
            b == (CudaBuilder { fast_sqrt: fast_sqrt, ..self }),
    {
        let mut s = self;
        s.fast_sqrt = fast_sqrt;
        s
    }

    /// Use a fast approximation for single-precision floating point division.
    pub fn fast_div(self, fast_div: bool) -> (b: Self)
        ensures
            b == (CudaBuilder { fast_div: fast_div, ..self }),
    {
        let mut s = self;
        s.fast_div = fast_div;
        s
    }

    /// Enable FMA (fused multiply-add) contraction.
    pub fn fma_contraction(self, fma_contraction: bool) -> (b: Self)
        ensures
            b == (CudaBuilder { fma_contraction: fma_contraction, ..self }),
    {
        let mut s = self;
        s.fma_contraction = fma_contraction;
        s
    }

    /// Compile for the OptiX ray tracing library: aggressive inlining,
    /// immediate abort on panic, and the `optix` cfg.
    pub fn optix(self, optix: bool) -> (b: Self)
        ensures
            b == (CudaBuilder { optix: optix, ..self }),
    {
        let mut s = self;
        s.optix = optix;
        s
    }

    /// Replace calls to `libm` with libdevice intrinsics.
    pub fn override_libm(self, override_libm: bool) -> (b: Self)
        ensures
            b == (CudaBuilder { override_libm: override_libm, ..self }),
    {
        let mut s = self;
        s.override_libm = override_libm;
        s
    }

    /// Let the codegen place `static` variables in CUDA's constant memory.
    pub fn use_constant_memory_space(self, use_constant_memory_space: bool) -> (b: Self)
        ensures
            b == (CudaBuilder { use_constant_memory_space: use_constant_memory_space, ..self }),
    {
        let mut s = self;
        s.use_constant_memory_space = use_constant_memory_space;
        s
    }

    /// Enable a bounded modern LLVM cleanup pipeline before NVVM compilation.
    pub fn llvm_cleanup(self, cleanup: LlvmCleanup) -> (b: Self)
        ensures
            b == (CudaBuilder { llvm_cleanup: Some(cleanup), ..self }),
    {
        let mut s = self;
        s.llvm_cleanup = Some(cleanup);
        s
    }

    /// Additional arguments passed to cargo during `cargo build`, after those given before.
    pub fn build_args(self, args: &[&str]) -> (b: Self)
        ensures
            string_views(b.build_args@) == string_views(self.build_args@) + str_views(args@),
            b == (CudaBuilder { build_args: b.build_args, ..self }),
    {
        let mut s = self;
        let ghost before = string_views(s.build_args@);
        let mut i: usize = 0;
        while i < args.len()
            invariant
                i <= args@.len(),
                string_views(s.build_args@) == before + str_views(args@.take(i as int)),
                s == (CudaBuilder { build_args: s.build_args, ..self }),
            decreases args@.len() - i,
        {
            let ghost old_args = s.build_args@;
            s.build_args.push(String::from_str(args[i]));
            proof {
                assert(string_views(old_args.push(s.build_args@.last())) =~= string_views(old_args).push(
                    s.build_args@.last()@,
                ));
                assert(args@.take(i + 1) =~= args@.take(i as int).push(args@[i as int]));
                assert(str_views(args@.take(i as int).push(args@[i as int])) =~= str_views(
                    args@.take(i as int),
                ).push(args@[i as int]@));
                assert(s.build_args@ == old_args.push(s.build_args@.last()));
            }
            i = i + 1;
        }
        assert(args@.take(args@.len() as int) =~= args@);
        s
    }

    /// Whether to generate any debug info and what level of info to generate.
    pub fn debug(self, debug: DebugInfo) -> (b: Self)
        ensures
            b == (CudaBuilder { debug: debug, ..self }),
    {
        let mut s = self;
        s.debug = debug;
        s
    }

    /// Whether to compile the gpu crate for release; libnvvm optimizations follow it.
    pub fn release(self, release: bool) -> (b: Self)
        ensures
            b == (CudaBuilder { release: release, nvvm_opts: release, ..self }),
    {
        let mut s = self;
        s.release = release;
        s.nvvm_opts = release;
        s
    }

    /// The virtual compute architecture to target.
    pub fn arch(self, arch: NvvmArch) -> (b: Self)
        ensures
            b == (CudaBuilder { arch: arch, ..self }),
    {
        let mut s = self;
        s.arch = arch;
        s
    }

    /// Emit LLVM IR (`--emit=llvm-ir`), or emit nothing extra when `false`.
    pub fn emit_llvm_ir(self, emit_llvm_ir: bool) -> (b: Self)
        ensures
            b == (CudaBuilder {
                emit: if emit_llvm_ir { Some(EmitOption::LlvmIr) } else { None },
                ..self
            }),
    {
        let mut s = self;
        s.emit = if emit_llvm_ir { Some(EmitOption::LlvmIr) } else { None };
        s
    }

    /// Emit LLVM bitcode (`--emit=llvm-bc`), or emit nothing extra when `false`.
    pub fn emit_llvm_bitcode(self, emit_llvm_bitcode: bool) -> (b: Self)
        ensures
            b == (CudaBuilder {
                emit: if emit_llvm_bitcode { Some(EmitOption::Bitcode) } else { None },
                ..self
            }),
    {
        let mut s = self;
        s.emit = if emit_llvm_bitcode { Some(EmitOption::Bitcode) } else { None };
        s
    }

    /// Copy the final ptx file to this location once finished building.
    pub fn copy_to(self, path: HostPath) -> (b: Self)
        ensures
            b == (CudaBuilder { ptx_file_copy_path: Some(path), ..self }),
    {
        let mut s = self;
        s.ptx_file_copy_path = Some(path);
        s
    }

    /// Where the codegen dumps the LLVM IR of the final module it feeds to libnvvm.
    pub fn final_module_path(self, path: HostPath) -> (b: Self)
        ensures
            b == (CudaBuilder { final_module_path: Some(path), ..self }),
    {
        let mut s = self;
        s.final_module_path = Some(path);
        s
    }
}

} // verus!
