//! Verified core of a builder for CUDA kernel crates: build options, the
//! rustc and Cargo arguments they translate into, selection of the PTX artifact
//! from Cargo's message stream, and small helpers of the surrounding tools.

mod arch;
mod backend;
mod artifact;
mod kernel_build;
mod builder;
mod codegen;
mod cudnn;
mod error;
mod flags;
mod path;
mod text;
mod warp;

pub use path::HostPath;
pub use warp::shuffle_control;
pub use arch::{NvvmArch, NvvmOption, CodegenArgs, selected_arch, first_arch_option, is_known_nvvm_verify_false_negative};
pub use error::CudaBuilderError;
pub use builder::{CudaBuilder, DebugInfo, EmitOption, LlvmCleanup};
pub use flags::{rustflags, path_argument, encode};
pub use artifact::{CargoMessage, cargo_output_lines, select_ptx_artifact, diagnostic_lines};
pub use backend::{HostOs, dylib_path_envvar, resolve, backend_library_dirs, sysroot_lib_dirs, sysroot_from_output, library_search_path, loader_error};
pub use cudnn::{CudnnSdk, cudnn_header_files};
pub use kernel_build::{CargoCommand, cargo_command, nested_target_dir, self_profile_dir, self_profile_flags, self_profile_warning};
pub use cudnn::{version_dir_name, windows_cudnn_bases, cudnn_search_dirs, find_cudnn_include_dir};
pub use codegen::{NvvmCodegenBackend, target_features, Linkage, function_linkage, global_linkage, AllocatorTy, ShimTy, ShimSignature, shim_signature, CodegenErr};
pub use codegen::{thin_module_names, ir_version_supported, VerifyOutcome, after_verification, TargetConfig, InternalizePlan, annotated_kernels, used_values, internalize_plan};
pub use kernel_build::{BuildAction, BuildEnvironment, BuildEvent, BuildStage, KernelBuild};
