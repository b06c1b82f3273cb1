//! Kernel build orchestration: the nested Cargo invocation, its target
//! directory, and the decisions between the steps of a build. The steps that
//! touch the host (file system, environment, processes) are performed by the
//! caller, which reports each outcome back.

use vstd::prelude::*;
use crate::artifact::{CargoMessage, last_artifact_files, ptx_files, select_ptx_artifact, selection_ok};
use crate::backend::{HostOs, backend_library_dirs, dylib_path_envvar, library_search_path, loader_error, resolve, sysroot_lib_dirs};
use crate::builder::CudaBuilder;
use crate::path::slash;
use crate::error::CudaBuilderError;
use crate::flags::{encode, rustflags};
use crate::backend::{path_outcome, spec_library_search_path, spec_loader_error, spec_resolve, spec_backend_library_dirs, spec_dylib_path_envvar, spec_sysroot_lib_dirs, spellings};
use crate::path::{HostPath, ends_in_component, is_plain_name, law_join_then_parent, spec_file_name, spec_join, spec_parent};
use crate::text::{concat_str, count_in, lemma_count_concat, lemma_count_contains, lemma_count_encoded, spec_lossy_decode, string_views};

verus! {

/// The UTF-8 bytes of each text.
pub open spec fn utf8_all(v: Seq<Seq<char>>) -> Seq<Seq<u8>> {
    v.map_values(|t: Seq<char>| vstd::utf8::encode_utf8(t))
}

/// The spelling of each argument.
pub open spec fn arg_views(v: Seq<HostPath>) -> Seq<Seq<u8>> {
    v.map_values(|p: HostPath| p@)
}

/// The arguments of the nested `cargo` invocation, as text, before the target
/// directory: the fixed build request, the user's extra arguments, then the
/// timing, release and OptiX switches.
pub open spec fn spec_cargo_text_args(b: CudaBuilder, timings: bool) -> Seq<Seq<char>> {
    seq![
        "build"@,
        "--lib"@,
        "--message-format=json-render-diagnostics"@,
        "-Zbuild-std=core,alloc"@,
        "--target=nvptx64-nvidia-cuda"@,
    ] + string_views(b.build_args@) + (if timings {
        seq!["--timings"@]
    } else {
        seq![]
    }) + (if b.release {
        seq!["--release"@]
    } else {
        seq![]
    }) + (if b.optix {
        seq!["-Zunstable-options"@, "--config"@, "optix=\"1\""@]
    } else {
        seq![]
    })
}

/// All arguments of the nested `cargo` invocation, as the bytes handed to the process.
pub open spec fn spec_cargo_args(b: CudaBuilder, target_dir: Option<Seq<u8>>, timings: bool) -> Seq<
    Seq<u8>,
> {
    utf8_all(spec_cargo_text_args(b, timings)) + match target_dir {
        Some(d) => seq![vstd::utf8::encode_utf8("--target-dir"@), d],
        None => seq![],
    }
}

/// The nested `cargo` process: its arguments, working directory and the
/// environment variables set for it.
pub struct CargoCommand {
    pub program: String,
    pub args: Vec<HostPath>,
    pub current_dir: HostPath,
    pub env: Vec<(String, String)>,
}

fn push_text_arg(v: &mut Vec<HostPath>, s: &str)
    ensures
        arg_views(final(v)@) == arg_views(old(v)@).push(vstd::utf8::encode_utf8(s@)),
{
    let ghost before = v@;
    let p = HostPath::from_str(s);
    v.push(p);
    assert(arg_views(v@) =~= arg_views(before).push(vstd::utf8::encode_utf8(s@)));
}

/// The nested Cargo invocation that compiles the kernel crate: run `cargo`
/// in the crate's directory with the arguments of `spec_cargo_args`, and with
/// `CARGO_FEATURE_NO_F16_F128=1` set (the backend's target configuration alone
/// does not disable `f16`/`f128`).
pub fn cargo_command(builder: &CudaBuilder, target_dir: Option<&HostPath>, timings: bool) -> (c: CargoCommand)
    ensures
        c.program@ == "cargo"@,
        arg_views(c.args@) == spec_cargo_args(
            *builder,
            match target_dir {
                Some(d) => Some(d@),
                None => None,
            },
            timings,
        ),
        c.current_dir@ == builder.path_to_crate@,
        c.env@.len() == 1,
        c.env@[0].0@ == "CARGO_FEATURE_NO_F16_F128"@,
        c.env@[0].1@ == "1"@,
{
    let mut args: Vec<HostPath> = Vec::new();
    let ghost texts: Seq<Seq<char>> = seq![
        "build"@,
        "--lib"@,
        "--message-format=json-render-diagnostics"@,
        "-Zbuild-std=core,alloc"@,
        "--target=nvptx64-nvidia-cuda"@,
    ];
    push_text_arg(&mut args, "build");
    push_text_arg(&mut args, "--lib");
    push_text_arg(&mut args, "--message-format=json-render-diagnostics");
    push_text_arg(&mut args, "-Zbuild-std=core,alloc");
    push_text_arg(&mut args, "--target=nvptx64-nvidia-cuda");
    assert(arg_views(args@) =~= utf8_all(texts));
    let mut i: usize = 0;
    while i < builder.build_args.len()
        invariant
            i <= builder.build_args@.len(),
            arg_views(args@) == utf8_all(texts + string_views(builder.build_args@).take(i as int)),
        decreases builder.build_args@.len() - i,
    {
        push_text_arg(&mut args, builder.build_args[i].as_str());
        assert(texts + string_views(builder.build_args@).take(i + 1) =~= (texts + string_views(
            builder.build_args@,
        ).take(i as int)).push(builder.build_args@[i as int]@));
        assert(utf8_all((texts + string_views(builder.build_args@).take(i as int)).push(
            builder.build_args@[i as int]@,
        )) =~= utf8_all(texts + string_views(builder.build_args@).take(i as int)).push(
            vstd::utf8::encode_utf8(builder.build_args@[i as int]@),
        ));
        i = i + 1;
    }
    assert(string_views(builder.build_args@).take(builder.build_args@.len() as int)
        =~= string_views(builder.build_args@));
    let ghost t1 = texts + string_views(builder.build_args@);
    if timings {
        push_text_arg(&mut args, "--timings");
    }
    let ghost t2 = t1 + (if timings { seq!["--timings"@] } else { seq![] });
    assert(arg_views(args@) =~= utf8_all(t2));
    if builder.release {
        push_text_arg(&mut args, "--release");
    }
    let ghost t3 = t2 + (if builder.release { seq!["--release"@] } else { seq![] });
    assert(arg_views(args@) =~= utf8_all(t3));
    if builder.optix {
        push_text_arg(&mut args, "-Zunstable-options");
        push_text_arg(&mut args, "--config");
        push_text_arg(&mut args, "optix=\"1\"");
    }
    let ghost t4 = t3 + (if builder.optix {
        seq!["-Zunstable-options"@, "--config"@, "optix=\"1\""@]
    } else {
        seq![]
    });
    assert(arg_views(args@) =~= utf8_all(t4));
    assert(t4 == spec_cargo_text_args(*builder, timings));
    let ghost base = arg_views(args@);
    match target_dir {
        Some(d) => {
            push_text_arg(&mut args, "--target-dir");
            let ghost before = args@;
            args.push(d.clone_path());
            assert(arg_views(args@) =~= arg_views(before).push(d@));
        },
        None => {},
    }
    let mut env: Vec<(String, String)> = Vec::new();
    env.push((String::from_str("CARGO_FEATURE_NO_F16_F128"), String::from_str("1")));
    CargoCommand {
        program: String::from_str("cargo"),
        args,
        current_dir: builder.path_to_crate.clone_path(),
        env,
    }
}

/// The bytes `out`, `build` and `cuda-builder`.
pub open spec fn out_name() -> Seq<u8> {
    seq![111u8, 117u8, 116u8]
}

pub open spec fn build_name() -> Seq<u8> {
    seq![98u8, 117u8, 105u8, 108u8, 100u8]
}

pub open spec fn nested_dir_name() -> Seq<u8> {
    vstd::utf8::encode_utf8("cuda-builder"@)
}

/// The nested build's own target directory for a build script whose output
/// directory is `out_dir` (`<target>/<profile>/build/<package>/out`): the
/// `cuda-builder` directory beside `<profile>`, so the nested Cargo does not
/// wait on the outer build's target-directory lock. `None` for any other layout.
pub open spec fn spec_nested_target_dir(out_dir: Seq<u8>, profile: Seq<u8>) -> Option<Seq<u8>> {
    if spec_file_name(out_dir) != Some(out_name()) {
        None
    } else {
        match spec_parent(out_dir) {
            None => None,
            Some(package) => match spec_parent(package) {
                None => None,
                Some(build) => match spec_parent(build) {
                    None => None,
                    Some(profile_dir) => if spec_file_name(build) != Some(build_name())
                        || spec_file_name(profile_dir) != Some(profile) {
                        None
                    } else {
                        match spec_parent(profile_dir) {
                            None => None,
                            Some(root) => Some(spec_join(root, nested_dir_name())),
                        }
                    },
                },
            },
        }
    }
}

fn name_is(n: &Option<Vec<u8>>, expected: &Vec<u8>) -> (r: bool)
    ensures
        r == (match n {
            Some(v) => Some(v@),
            None => None::<Seq<u8>>,
        } == Some(expected@)),
{
    match n {
        Some(v) => crate::backend::bytes_equal(v, expected),
        None => false,
    }
}

/// The target directory of the nested build, for a build script whose output
/// directory is `out_dir` and whose Cargo profile is `profile`.
pub fn nested_target_dir(out_dir: &HostPath, profile: &str) -> (r: Option<HostPath>)
    ensures
        match spec_nested_target_dir(out_dir@, vstd::utf8::encode_utf8(profile@)) {
            Some(p) => r matches Some(q) && q@ == p,
            None => r is None,
        },
{
    let out = vec![111u8, 117u8, 116u8];
    if !name_is(&out_dir.file_name(), &out) {
        return None;
    }
    let package = match out_dir.parent() {
        Some(p) => p,
        None => return None,
    };
    let build = match package.parent() {
        Some(p) => p,
        None => return None,
    };
    let profile_dir = match build.parent() {
        Some(p) => p,
        None => return None,
    };
    let build_bytes = vec![98u8, 117u8, 105u8, 108u8, 100u8];
    let profile_bytes = HostPath::from_str(profile).bytes;
    if !name_is(&build.file_name(), &build_bytes) || !name_is(&profile_dir.file_name(), &profile_bytes) {
        return None;
    }
    match profile_dir.parent() {
        Some(root) => Some(root.join_str("cuda-builder")),
        None => None,
    }
}

/// `<root>/<profile>/build/<package>/out`: a build script's output directory.
pub open spec fn script_out_dir(root: Seq<u8>, profile: Seq<u8>, package: Seq<u8>) -> Seq<u8> {
    spec_join(spec_join(spec_join(spec_join(root, profile), build_name()), package), out_name())
}

/// For a build script's output directory `<root>/<profile>/build/<package>/out`,
/// whatever the target root (custom or per target triple), the nested build
/// goes to `<root>/cuda-builder`; under any other profile name there is no
/// nested target directory.
pub proof fn law_nested_build_beside_profile(
    root: Seq<u8>,
    profile: Seq<u8>,
    package: Seq<u8>,
    other: Seq<u8>,
)
    requires
        ends_in_component(root),
        is_plain_name(profile),
        is_plain_name(package),
    ensures
        spec_nested_target_dir(script_out_dir(root, profile, package), profile) == Some(
            spec_join(root, nested_dir_name()),
        ),
        other != profile ==> spec_nested_target_dir(script_out_dir(root, profile, package), other)
            is None,
{
    assert(is_plain_name(build_name())) by {
        assert(build_name()[0] != slash());
    }
    assert(is_plain_name(out_name()));
    let p1 = spec_join(root, profile);
    law_join_then_parent(root, profile);
    let p2 = spec_join(p1, build_name());
    law_join_then_parent(p1, build_name());
    let p3 = spec_join(p2, package);
    law_join_then_parent(p2, package);
    let p4 = spec_join(p3, out_name());
    law_join_then_parent(p3, out_name());
}

/// Where rustc writes its self-profile when build timing is on: `<timing dir>/rustc`.
pub fn self_profile_dir(timing_dir: &HostPath) -> (d: HostPath)
    ensures
        d@ == spec_join(timing_dir@, vstd::utf8::encode_utf8("rustc"@)),
{
    timing_dir.join_str("rustc")
}

/// The rustc flags that turn on self-profiling into the (created) directory `dir`.
pub open spec fn spec_self_profile_flags(dir: Seq<u8>) -> Seq<Seq<char>> {
    seq!["-Zself-profile="@ + spec_lossy_decode(dir), "-Ztime-passes"@]
}

/// The rustc flags that turn on self-profiling into the (created) directory `dir`.
pub fn self_profile_flags(dir: &HostPath) -> (f: Vec<String>)
    ensures
        string_views(f@) == spec_self_profile_flags(dir@),
{
    let shown = dir.display();
    let mut f: Vec<String> = Vec::new();
    f.push(concat_str("-Zself-profile=", shown.as_str()));
    f.push(String::from_str("-Ztime-passes"));
    assert(string_views(f@) =~= spec_self_profile_flags(dir@));
    f
}

/// The warning shown when the self-profile directory cannot be created
/// (the build goes on without self-profiling).
pub fn self_profile_warning(error: &str) -> (m: String)
    ensures
        m@ == "Could not create rustc self-profile directory: "@ + error@,
{
    concat_str("Could not create rustc self-profile directory: ", error)
}

} // verus!

verus! {

/// The environment of the build script, as read by the caller.
pub struct BuildEnvironment {
    /// `NVVM_TIMING_DIR`, when set: build timing is on.
    pub timing_dir: Option<HostPath>,
    /// `OUT_DIR` of the calling build script.
    pub out_dir: Option<HostPath>,
    /// `PROFILE` of the calling build script, when set and valid UTF-8.
    pub profile: Option<String>,
    /// The toolchain's sysroot as `rustc --print sysroot` reports it, when it runs.
    pub sysroot: Option<HostPath>,
    /// The values of `TARGET` and `HOST` that are set, in that order.
    pub triples: Vec<HostPath>,
    /// The host's operating system family.
    pub os: HostOs,
}

/// Where a build stands: which report the build waits for next.
#[derive(Clone, Copy, Debug, PartialEq, Eq, Structural)]
pub enum BuildStage {
    /// The crate's rerun directives are being printed.
    AnnouncingCrate,
    /// Waiting to learn whether the crate directory exists.
    CheckingCrate,
    /// The backend's rerun directive is being printed.
    AnnouncingBackend,
    /// Waiting for the backend's canonical path.
    ResolvingBackend,
    /// Waiting for the build environment.
    ReadingEnvironment,
    /// Waiting for the self-profile directory to be created.
    CreatingProfileDir,
    /// A warning is being shown.
    Warning,
    /// Waiting to learn which library directories exist.
    ProbingLibraries,
    /// Waiting for the search path to be joined.
    JoiningSearchPath,
    /// Waiting for the nested Cargo to finish.
    RunningCargo,
    /// Waiting for the PTX file to be copied.
    Copying,
    /// The build has ended.
    Finished,
}

/// What the caller reports after performing an action.
pub enum BuildEvent {
    /// A `Print` or `Warn` action was performed.
    Shown,
    /// Whether the directory asked about exists.
    DirChecked(bool),
    /// The canonical form of the path (or the text of the error), and whether it is a regular file.
    Canonicalized { result: Result<HostPath, String>, is_file: bool },
    /// The build environment.
    EnvironmentRead(BuildEnvironment),
    /// The outcome of creating a directory (the text of the error on failure).
    DirCreated(Result<(), String>),
    /// Which of the probed directories exist, and the entries the search-path variable holds now.
    DirsProbed { exists: Vec<bool>, current: Vec<HostPath> },
    /// The joined search-path value, or the text of the host's refusal.
    SearchPathJoined(Result<HostPath, String>),
    /// Cargo's outcome: whether it ran (the text of the error if not) and
    /// succeeded, and the decoding of each line of its standard output.
    CargoRan { status: Result<bool, String>, messages: Vec<Option<CargoMessage>> },
    /// The outcome of copying the PTX file.
    Copied(Result<(), String>),
}

/// What the caller is to do next.
pub enum BuildAction {
    /// Print these lines to standard output (Cargo build-script directives).
    Print(Vec<String>),
    /// Print this warning to standard error.
    Warn(String),
    /// Report whether this directory exists.
    CheckDir(HostPath),
    /// Canonicalize this path; report the result and whether it is a regular file.
    Canonicalize(HostPath),
    /// Read the build environment.
    ReadEnvironment,
    /// Create this directory, with its parents.
    CreateDir(HostPath),
    /// Report which of these directories exist, and the entries of this search-path variable.
    ProbeDirs { dirs: Vec<HostPath>, variable: String },
    /// Join these directories into one search-path value.
    JoinSearchPath(Vec<HostPath>),
    /// Run this command with these additional environment variables and
    /// capture its standard output.
    RunCargo { command: CargoCommand, env: Vec<(String, HostPath)> },
    /// Copy the file `from` to `to`.
    Copy { from: HostPath, to: HostPath },
    /// The build is over, with this outcome.
    Finish(Result<HostPath, CudaBuilderError>),
}

/// A kernel build in progress.
pub struct KernelBuild {
    pub builder: CudaBuilder,
    pub stage: BuildStage,
    /// The canonical backend path, once resolved.
    pub backend: Option<HostPath>,
    /// The rustc flags, once computed.
    pub rustflags: Vec<String>,
    pub environment: Option<BuildEnvironment>,
    /// The search-path variable and its new value, when it is to be set.
    pub loader_env: Option<(String, HostPath)>,
    /// The PTX file Cargo produced, while it is being copied.
    pub ptx: Option<HostPath>,
    /// The library directories whose existence is being probed.
    pub probe_dirs: Vec<HostPath>,
    /// Whether the self-profile flags were added to the flags.
    pub profiling: bool,
}

/// The event is the report the stage waits for.
pub open spec fn accepts(stage: BuildStage, event: BuildEvent) -> bool {
    match stage {
        BuildStage::AnnouncingCrate | BuildStage::AnnouncingBackend | BuildStage::Warning => event is Shown,
        BuildStage::CheckingCrate => event is DirChecked,
        BuildStage::ResolvingBackend => event is Canonicalized,
        BuildStage::ReadingEnvironment => event is EnvironmentRead,
        BuildStage::CreatingProfileDir => event is DirCreated,
        BuildStage::ProbingLibraries => event is DirsProbed,
        BuildStage::JoiningSearchPath => event is SearchPathJoined,
        BuildStage::RunningCargo => event is CargoRan,
        BuildStage::Copying => event is Copied,
        BuildStage::Finished => false,
    }
}

impl KernelBuild {
    /// Whether a probe report names one answer per probed directory.
    pub fn fits(&self, event: &BuildEvent) -> (r: bool)
        ensures
            r == report_fits(*self, *event),
    {
        match event {
            BuildEvent::DirsProbed { exists, .. } => exists.len() == self.probe_dirs.len(),
            _ => true,
        }
    }

    /// Whether `event` is the report this build waits for.
    pub fn accepts(&self, event: &BuildEvent) -> (r: bool)
        ensures
            r == accepts(self.stage, *event),
    {
        match self.stage {
            BuildStage::AnnouncingCrate | BuildStage::AnnouncingBackend | BuildStage::Warning => {
                matches!(event, BuildEvent::Shown)
            },
            BuildStage::CheckingCrate => matches!(event, BuildEvent::DirChecked(_)),
            BuildStage::ResolvingBackend => matches!(event, BuildEvent::Canonicalized { .. }),
            BuildStage::ReadingEnvironment => matches!(event, BuildEvent::EnvironmentRead(_)),
            BuildStage::CreatingProfileDir => matches!(event, BuildEvent::DirCreated(_)),
            BuildStage::ProbingLibraries => matches!(event, BuildEvent::DirsProbed { .. }),
            BuildStage::JoiningSearchPath => matches!(event, BuildEvent::SearchPathJoined(_)),
            BuildStage::RunningCargo => matches!(event, BuildEvent::CargoRan { .. }),
            BuildStage::Copying => matches!(event, BuildEvent::Copied(_)),
            BuildStage::Finished => false,
        }
    }
}

} // verus!

verus! {

/// The toolchain library directories named by the build environment.
pub open spec fn spec_env_sysroot_dirs(env: BuildEnvironment) -> Seq<Seq<u8>> {
    match env.sysroot {
        Some(s) => spec_sysroot_lib_dirs(s@, spellings(env.triples@)),
        None => seq![],
    }
}

/// The directories probed for the backend's libraries.
pub open spec fn spec_probe_dirs(backend: Seq<u8>, env: BuildEnvironment) -> Seq<Seq<u8>> {
    spec_backend_library_dirs(backend, spec_env_sysroot_dirs(env))
}

/// The nested build's target directory for the build environment.
pub open spec fn spec_env_target_dir(env: BuildEnvironment) -> Option<Seq<u8>> {
    match env.out_dir {
        Some(o) => match env.profile {
            Some(p) => spec_nested_target_dir(o@, vstd::utf8::encode_utf8(p@)),
            None => None,
        },
        None => None,
    }
}

/// Names and values of environment variables.
pub open spec fn env_views(v: Seq<(String, HostPath)>) -> Seq<(Seq<char>, Seq<u8>)> {
    v.map_values(|e: (String, HostPath)| (e.0@, e.1@))
}

/// The state keeps what each stage relies on.
pub open spec fn build_wf(b: KernelBuild) -> bool {
    &&& (b.stage == BuildStage::ReadingEnvironment || b.stage == BuildStage::CreatingProfileDir
        || b.stage == BuildStage::Warning || b.stage == BuildStage::ProbingLibraries || b.stage
        == BuildStage::JoiningSearchPath) ==> b.backend is Some
    &&& (b.stage == BuildStage::CreatingProfileDir || b.stage == BuildStage::Warning || b.stage
        == BuildStage::ProbingLibraries || b.stage == BuildStage::JoiningSearchPath) ==> b.environment is Some
    &&& b.stage == BuildStage::CreatingProfileDir ==> b.environment->0.timing_dir is Some
    &&& b.stage == BuildStage::Copying ==> b.ptx is Some && b.builder.ptx_file_copy_path is Some
}

/// `a` launches the nested Cargo with `flags`, or (when they cannot be encoded)
/// ends the build with the encoding error; `loader` is the search-path
/// variable to set, if any.
pub open spec fn launches_cargo(
    b: KernelBuild,
    flags: Seq<Seq<char>>,
    env: BuildEnvironment,
    loader: Option<(Seq<char>, Seq<u8>)>,
    a: BuildAction,
    stage: BuildStage,
) -> bool {
    match crate::flags::spec_encode(flags) {
        Err(m) => {
            &&& stage == BuildStage::Finished
            &&& a matches BuildAction::Finish(Err(e)) && crate::flags::is_invalid_option(e, m)
        },
        Ok(enc) => {
            &&& stage == BuildStage::RunningCargo
            &&& a matches BuildAction::RunCargo { command, env: vars } && {
                &&& command.program@ == "cargo"@
                &&& arg_views(command.args@) == spec_cargo_args(
                    b.builder,
                    spec_env_target_dir(env),
                    env.timing_dir is Some,
                )
                &&& command.current_dir@ == b.builder.path_to_crate@
                &&& env_views(vars@) == (match loader {
                    Some(l) => seq![l],
                    None => seq![],
                }) + seq![("CARGO_ENCODED_RUSTFLAGS"@, vstd::utf8::encode_utf8(enc))]
            }
        },
    }
}

impl KernelBuild {
    fn finish(&mut self, r: Result<HostPath, CudaBuilderError>) -> (a: BuildAction)
        ensures
            final(self).stage == BuildStage::Finished,
            final(self).builder == old(self).builder,
            final(self).backend == old(self).backend,
            final(self).rustflags == old(self).rustflags,
            final(self).environment == old(self).environment,
            final(self).loader_env == old(self).loader_env,
            final(self).ptx == old(self).ptx,
            final(self).probe_dirs == old(self).probe_dirs,
            final(self).profiling == old(self).profiling,
            a == BuildAction::Finish(r),
    {
        self.stage = BuildStage::Finished;
        BuildAction::Finish(r)
    }

    /// Ask which library directories exist.
    fn probe(&mut self) -> (a: BuildAction)
        requires
            old(self).backend is Some,
            old(self).environment is Some,
        ensures
            final(self).stage == BuildStage::ProbingLibraries,
            final(self).builder == old(self).builder,
            final(self).backend == old(self).backend,
            final(self).environment == old(self).environment,
            final(self).rustflags == old(self).rustflags,
            final(self).loader_env == old(self).loader_env,
            final(self).ptx == old(self).ptx,
            final(self).profiling == old(self).profiling,
            spellings(final(self).probe_dirs@) == spec_probe_dirs(
                old(self).backend->0@,
                old(self).environment->0,
            ),
            a matches BuildAction::ProbeDirs { dirs, variable } && spellings(dirs@) == spec_probe_dirs(
                old(self).backend->0@,
                old(self).environment->0,
            ) && variable@ == spec_dylib_path_envvar(old(self).environment->0.os),
    {
        let (dirs, var) = match (&self.backend, &self.environment) {
            (Some(backend), Some(env)) => {
                let sysroot_dirs = match &env.sysroot {
                    Some(s) => sysroot_lib_dirs(s, &env.triples),
                    None => Vec::new(),
                };
                (backend_library_dirs(backend, &sysroot_dirs), String::from_str(dylib_path_envvar(env.os)))
            },
            _ => (Vec::new(), String::new()),
        };
        let mut copy: Vec<HostPath> = Vec::new();
        let mut i: usize = 0;
        while i < dirs.len()
            invariant
                i <= dirs@.len(),
                spellings(copy@) == spellings(dirs@).take(i as int),
            decreases dirs@.len() - i,
        {
            let ghost before = copy@;
            copy.push(dirs[i].clone_path());
            assert(spellings(copy@) =~= spellings(before).push(dirs@[i as int]@));
            assert(spellings(dirs@).take(i + 1) =~= spellings(dirs@).take(i as int).push(
                dirs@[i as int]@,
            ));
            i = i + 1;
        }
        assert(spellings(dirs@).take(dirs@.len() as int) =~= spellings(dirs@));
        self.probe_dirs = copy;
        self.stage = BuildStage::ProbingLibraries;
        BuildAction::ProbeDirs { dirs, variable: var }
    }

    /// Launch the nested Cargo with the computed flags.
    fn launch(&mut self) -> (a: BuildAction)
        requires
            old(self).environment is Some,
        ensures
            final(self).builder == old(self).builder,
            final(self).backend == old(self).backend,
            final(self).rustflags == old(self).rustflags,
            final(self).environment == old(self).environment,
            final(self).loader_env == old(self).loader_env,
            final(self).ptx == old(self).ptx,
            final(self).probe_dirs == old(self).probe_dirs,
            final(self).profiling == old(self).profiling,
            launches_cargo(
                *old(self),
                string_views(old(self).rustflags@),
                old(self).environment->0,
                match old(self).loader_env {
                    Some(l) => Some((l.0@, l.1@)),
                    None => None,
                },
                a,
                final(self).stage,
            ),
    {
        let encoded = match encode(&self.rustflags) {
            Ok(e) => e,
            Err(e) => return self.finish(Err(e)),
        };
        let (target, timings) = match &self.environment {
            Some(env) => {
                let t = match (&env.out_dir, &env.profile) {
                    (Some(o), Some(p)) => nested_target_dir(o, p.as_str()),
                    _ => None,
                };
                (t, env.timing_dir.is_some())
            },
            None => (None, false),
        };
        let command = match &target {
            Some(t) => cargo_command(&self.builder, Some(t), timings),
            None => cargo_command(&self.builder, None, timings),
        };
        let mut vars: Vec<(String, HostPath)> = Vec::new();
        match &self.loader_env {
            Some((name, value)) => {
                vars.push((String::from_str(name.as_str()), value.clone_path()));
            },
            None => {},
        }
        let ghost before = vars@;
        vars.push((String::from_str("CARGO_ENCODED_RUSTFLAGS"), HostPath::from_str(encoded.as_str())));
        assert(env_views(vars@) =~= env_views(before).push(
            ("CARGO_ENCODED_RUSTFLAGS"@, vstd::utf8::encode_utf8(encoded@)),
        ));
        assert(env_views(vars@) =~= (match self.loader_env {
            Some(l) => seq![(l.0@, l.1@)],
            None => seq![],
        }) + seq![("CARGO_ENCODED_RUSTFLAGS"@, vstd::utf8::encode_utf8(encoded@))]);
        self.stage = BuildStage::RunningCargo;
        BuildAction::RunCargo { command, env: vars }
    }
}

} // verus!

verus! {

/// The directive that makes Cargo rerun the build script when `p` changes.
pub open spec fn rerun_if_changed(p: Seq<u8>) -> Seq<char> {
    "cargo:rerun-if-changed="@ + spec_lossy_decode(p)
}

/// The texts of the lines a `Print` action shows.
pub open spec fn prints(a: BuildAction, lines: Seq<Seq<char>>) -> bool {
    a matches BuildAction::Print(v) && string_views(v@) == lines
}

/// One step of a build: from state `b`, on report `ev`, the build moves to
/// `n` and asks for `a`, keeping what it computed before; `ev` is the report
/// the stage waits for.
pub open spec fn step_ok(b: KernelBuild, ev: BuildEvent, n: KernelBuild, a: BuildAction) -> bool {
    accepts(b.stage, ev) && step_moves(b, ev, n, a) && carries(b, ev, n, a)
}

/// What a step keeps: the builder always; while the build goes on, every
/// field the stage does not compute (the backend is set only on resolving
/// it, the flags only then and on creating the profile directory, the
/// environment only on reading it, the search-path variable only on probing
/// and joining, the PTX file only on running Cargo); and the directories it
/// asks to probe are the ones it records.
pub open spec fn carries(b: KernelBuild, ev: BuildEvent, n: KernelBuild, a: BuildAction) -> bool {
    let goes_on = n.stage != BuildStage::Finished;
    &&& n.builder == b.builder
    &&& a matches BuildAction::ProbeDirs { dirs, .. } ==> spellings(n.probe_dirs@) == spellings(dirs@)
    &&& goes_on && !(a is ProbeDirs) ==> n.probe_dirs == b.probe_dirs
    &&& goes_on && b.stage != BuildStage::ResolvingBackend ==> n.backend == b.backend
    &&& goes_on && b.stage != BuildStage::ResolvingBackend && !(b.stage == BuildStage::CreatingProfileDir
        && ev matches BuildEvent::DirCreated(Ok(_))) ==> n.rustflags == b.rustflags
    &&& goes_on && b.stage != BuildStage::ReadingEnvironment ==> n.environment == b.environment
    &&& goes_on && b.stage != BuildStage::ProbingLibraries && b.stage != BuildStage::JoiningSearchPath
        ==> n.loader_env == b.loader_env
    &&& goes_on && b.stage != BuildStage::RunningCargo ==> n.ptx == b.ptx
    &&& !(b.stage == BuildStage::CreatingProfileDir && ev matches BuildEvent::DirCreated(Ok(_)))
        ==> n.profiling == b.profiling
}

/// The transition of one step: the next stage, the action, and what the
/// stage computes.
pub open spec fn step_moves(b: KernelBuild, ev: BuildEvent, n: KernelBuild, a: BuildAction) -> bool {
    match b.stage {
        BuildStage::AnnouncingCrate => n.stage == BuildStage::CheckingCrate && (a matches BuildAction::CheckDir(p)
            && p@ == b.builder.path_to_crate@),
        BuildStage::CheckingCrate => match ev {
            BuildEvent::DirChecked(true) => n.stage == BuildStage::AnnouncingBackend && prints(
                a,
                seq![rerun_if_changed(b.builder.codegen_backend@)],
            ),
            _ => n.stage == BuildStage::Finished && (a matches BuildAction::Finish(
                Err(CudaBuilderError::CratePathDoesntExist(p)),
            ) && p@ == b.builder.path_to_crate@),
        },
        BuildStage::AnnouncingBackend => n.stage == BuildStage::ResolvingBackend && (a matches BuildAction::Canonicalize(p)
            && p@ == b.builder.codegen_backend@),
        BuildStage::ResolvingBackend => match ev {
            BuildEvent::Canonicalized { result, is_file } => match spec_resolve(
                b.builder.codegen_backend@,
                path_outcome(result),
                is_file,
            ) {
                Err(m) => n.stage == BuildStage::Finished && (a matches BuildAction::Finish(
                    Err(CudaBuilderError::Backend(s)),
                ) && s@ == m),
                Ok(abs) => match crate::flags::spec_rustflags(b.builder, abs) {
                    Err(m) => n.stage == BuildStage::Finished && (a matches BuildAction::Finish(Err(e))
                        && crate::flags::is_invalid_option(e, m)),
                    Ok(f) => {
                        &&& n.stage == BuildStage::ReadingEnvironment
                        &&& a is ReadEnvironment
                        &&& n.backend matches Some(q) && q@ == abs
                        &&& string_views(n.rustflags@) == f
                    },
                },
            },
            _ => false,
        },
        BuildStage::ReadingEnvironment => match ev {
            BuildEvent::EnvironmentRead(env) => {
                &&& n.environment == Some(env)
                &&& match env.timing_dir {
                    Some(d) => n.stage == BuildStage::CreatingProfileDir && (a matches BuildAction::CreateDir(p)
                        && p@ == spec_join(d@, vstd::utf8::encode_utf8("rustc"@))),
                    None => n.stage == BuildStage::ProbingLibraries && (a matches BuildAction::ProbeDirs {
                        dirs,
                        variable,
                    } && spellings(dirs@) == spec_probe_dirs(b.backend->0@, env) && variable@
                        == spec_dylib_path_envvar(env.os)),
                }
            },
            _ => false,
        },
        BuildStage::CreatingProfileDir => match ev {
            BuildEvent::DirCreated(Ok(_)) => {
                let env = b.environment->0;
                &&& string_views(n.rustflags@) == string_views(b.rustflags@) + spec_self_profile_flags(
                    spec_join(env.timing_dir->0@, vstd::utf8::encode_utf8("rustc"@)),
                )
                &&& n.profiling
                &&& n.stage == BuildStage::ProbingLibraries
                &&& a matches BuildAction::ProbeDirs { dirs, variable } && spellings(dirs@)
                    == spec_probe_dirs(b.backend->0@, env) && variable@ == spec_dylib_path_envvar(
                    env.os,
                )
            },
            BuildEvent::DirCreated(Err(e)) => n.stage == BuildStage::Warning && (a matches BuildAction::Warn(m)
                && m@ == "Could not create rustc self-profile directory: "@ + e@),
            _ => false,
        },
        BuildStage::Warning => n.stage == BuildStage::ProbingLibraries && (a matches BuildAction::ProbeDirs {
            dirs,
            variable,
        } && spellings(dirs@) == spec_probe_dirs(b.backend->0@, b.environment->0) && variable@
            == spec_dylib_path_envvar(b.environment->0.os)),
        BuildStage::ProbingLibraries => match ev {
            BuildEvent::DirsProbed { exists, current } => match spec_library_search_path(
                spellings(b.probe_dirs@),
                exists@,
                spellings(current@),
            ) {
                None => launches_cargo(
                    b,
                    string_views(b.rustflags@),
                    b.environment->0,
                    None,
                    a,
                    n.stage,
                ),
                Some(p) => n.stage == BuildStage::JoiningSearchPath && (a matches BuildAction::JoinSearchPath(v)
                    && spellings(v@) == p),
            },
            _ => false,
        },
        BuildStage::JoiningSearchPath => match ev {
            BuildEvent::SearchPathJoined(Err(e)) => n.stage == BuildStage::Finished && (a matches BuildAction::Finish(
                Err(CudaBuilderError::Backend(m)),
            ) && m@ == spec_loader_error(spec_dylib_path_envvar(b.environment->0.os), e@)),
            BuildEvent::SearchPathJoined(Ok(v)) => launches_cargo(
                b,
                string_views(b.rustflags@),
                b.environment->0,
                Some((spec_dylib_path_envvar(b.environment->0.os), v@)),
                a,
                n.stage,
            ),
            _ => false,
        },
        BuildStage::RunningCargo => match ev {
            BuildEvent::CargoRan { status, messages } => match status {
                Err(e) => n.stage == BuildStage::Finished && (a matches BuildAction::Finish(
                    Err(CudaBuilderError::CargoInvocation(m)),
                ) && m@ == e@),
                Ok(false) => n.stage == BuildStage::Finished && (a matches BuildAction::Finish(
                    Err(CudaBuilderError::BuildFailed),
                )),
                Ok(true) => {
                    let ptx = ptx_files(last_artifact_files(messages@));
                    if ptx.len() == 1 {
                        match b.builder.ptx_file_copy_path {
                            Some(c) => n.stage == BuildStage::Copying && (a matches BuildAction::Copy {
                                from,
                                to,
                            } && from@ == ptx[0]@ && to@ == c@) && (n.ptx matches Some(q) && q@ == ptx[0]@),
                            None => n.stage == BuildStage::Finished && (a matches BuildAction::Finish(
                                Ok(p),
                            ) && p@ == ptx[0]@),
                        }
                    } else {
                        &&& n.stage == BuildStage::Finished
                        &&& a matches BuildAction::Finish(r) && selection_ok(
                            last_artifact_files(messages@),
                            r,
                        )
                    }
                },
            },
            _ => false,
        },
        BuildStage::Copying => match ev {
            BuildEvent::Copied(Err(e)) => n.stage == BuildStage::Finished && (a matches BuildAction::Finish(
                Err(CudaBuilderError::FailedToCopyPtxFile(m)),
            ) && m@ == e@),
            BuildEvent::Copied(Ok(_)) => n.stage == BuildStage::Finished && (a matches BuildAction::Finish(
                Ok(p),
            ) && p@ == b.builder.ptx_file_copy_path->0@),
            _ => false,
        },
        BuildStage::Finished => false,
    }
}

/// The probe report fits the directories probed.
pub open spec fn report_fits(b: KernelBuild, ev: BuildEvent) -> bool {
    ev matches BuildEvent::DirsProbed { exists, .. } ==> exists@.len() == b.probe_dirs@.len()
}

} // verus!

verus! {

impl KernelBuild {
    /// Take the report of the last action and decide the next one.
    pub fn step(&mut self, event: BuildEvent) -> (a: BuildAction)
        requires
            accepts(old(self).stage, event),
            build_wf(*old(self)),
            report_fits(*old(self), event),
        ensures
            step_ok(*old(self), event, *final(self), a),
            final(self).builder == old(self).builder,
            build_wf(*final(self)),
    {
        match event {
            BuildEvent::Shown => {
                if self.stage == BuildStage::AnnouncingCrate {
                    self.stage = BuildStage::CheckingCrate;
                    BuildAction::CheckDir(self.builder.path_to_crate.clone_path())
                } else if self.stage == BuildStage::AnnouncingBackend {
                    self.stage = BuildStage::ResolvingBackend;
                    BuildAction::Canonicalize(self.builder.codegen_backend.clone_path())
                } else {
                    self.probe()
                }
            },
            BuildEvent::DirChecked(exists) => {
                if exists {
                    self.stage = BuildStage::AnnouncingBackend;
                    let shown = self.builder.codegen_backend.display();
                    let mut lines: Vec<String> = Vec::new();
                    lines.push(concat_str("cargo:rerun-if-changed=", shown.as_str()));
                    assert(string_views(lines@) =~= seq![rerun_if_changed(self.builder.codegen_backend@)]);
                    BuildAction::Print(lines)
                } else {
                    let p = self.builder.path_to_crate.clone_path();
                    self.finish(Err(CudaBuilderError::CratePathDoesntExist(p)))
                }
            },
            BuildEvent::Canonicalized { result, is_file } => {
                match resolve(&self.builder.codegen_backend, result, is_file) {
                    Err(m) => self.finish(Err(CudaBuilderError::Backend(m))),
                    Ok(abs) => match rustflags(&self.builder, &abs) {
                        Err(e) => self.finish(Err(e)),
                        Ok(f) => {
                            self.backend = Some(abs);
                            self.rustflags = f;
                            self.stage = BuildStage::ReadingEnvironment;
                            BuildAction::ReadEnvironment
                        },
                    },
                }
            },
            BuildEvent::EnvironmentRead(env) => {
                let timing = match &env.timing_dir {
                    Some(d) => Some(self_profile_dir(d)),
                    None => None,
                };
                self.environment = Some(env);
                match timing {
                    Some(dir) => {
                        self.stage = BuildStage::CreatingProfileDir;
                        BuildAction::CreateDir(dir)
                    },
                    None => self.probe(),
                }
            },
            BuildEvent::DirCreated(outcome) => match outcome {
                Ok(()) => {
                    let dir = match &self.environment {
                        Some(env) => match &env.timing_dir {
                            Some(d) => self_profile_dir(d),
                            None => HostPath::from_bytes(Vec::new()),
                        },
                        None => HostPath::from_bytes(Vec::new()),
                    };
                    let extra = self_profile_flags(&dir);
                    let ghost before = string_views(self.rustflags@);
                    let mut i: usize = 0;
                    while i < extra.len()
                        invariant
                            i <= extra@.len(),
                            string_views(self.rustflags@) == before + string_views(extra@).take(i as int),
                            self.builder == old(self).builder,
                            self.stage == old(self).stage,
                            self.backend == old(self).backend,
                            self.environment == old(self).environment,
                            self.loader_env == old(self).loader_env,
                            self.ptx == old(self).ptx,
                            self.probe_dirs == old(self).probe_dirs,
                            self.profiling == old(self).profiling,
                        decreases extra@.len() - i,
                    {
                        let ghost prev = self.rustflags@;
                        self.rustflags.push(String::from_str(extra[i].as_str()));
                        assert(string_views(self.rustflags@) =~= string_views(prev).push(extra@[i as int]@));
                        assert(string_views(extra@).take(i + 1) =~= string_views(extra@).take(i as int).push(
                            extra@[i as int]@,
                        ));
                        i = i + 1;
                    }
                    assert(string_views(extra@).take(extra@.len() as int) =~= string_views(extra@));
                    self.profiling = true;
                    self.probe()
                },
                Err(e) => {
                    self.stage = BuildStage::Warning;
                    BuildAction::Warn(self_profile_warning(e.as_str()))
                },
            },
            BuildEvent::DirsProbed { exists, current } => {
                match library_search_path(&self.probe_dirs, &exists, &current) {
                    None => {
                        self.loader_env = None;
                        self.launch()
                    },
                    Some(paths) => {
                        self.stage = BuildStage::JoiningSearchPath;
                        BuildAction::JoinSearchPath(paths)
                    },
                }
            },
            BuildEvent::SearchPathJoined(outcome) => {
                let os = match &self.environment {
                    Some(env) => env.os,
                    None => HostOs::Other,
                };
                let var = dylib_path_envvar(os);
                match outcome {
                    Err(e) => self.finish(Err(loader_error(var, e.as_str()))),
                    Ok(value) => {
                        self.loader_env = Some((String::from_str(var), value));
                        self.launch()
                    },
                }
            },
            BuildEvent::CargoRan { status, messages } => match status {
                Err(e) => self.finish(Err(CudaBuilderError::CargoInvocation(e))),
                Ok(false) => self.finish(Err(CudaBuilderError::BuildFailed)),
                Ok(true) => match select_ptx_artifact(&messages) {
                    Err(e) => self.finish(Err(e)),
                    Ok(p) => match &self.builder.ptx_file_copy_path {
                        Some(c) => {
                            let to = c.clone_path();
                            self.ptx = Some(p.clone_path());
                            self.stage = BuildStage::Copying;
                            BuildAction::Copy { from: p, to }
                        },
                        None => self.finish(Ok(p)),
                    },
                },
            },
            BuildEvent::Copied(outcome) => match outcome {
                Err(e) => self.finish(Err(CudaBuilderError::FailedToCopyPtxFile(e))),
                Ok(()) => {
                    let done = match &self.builder.ptx_file_copy_path {
                        Some(c) => c.clone_path(),
                        None => HostPath::from_bytes(Vec::new()),
                    };
                    self.finish(Ok(done))
                },
            },
        }
    }
}

impl CudaBuilder {
    /// Start compiling the kernel crate with the supplied backend. The build
    /// proceeds by [`KernelBuild::step`]; its final action is the path of the
    /// PTX file (the copied path when [`ptx_file_copy_path`](Self::ptx_file_copy_path)
    /// is set) or the error that stopped it. The first action prints Cargo's
    /// rerun directives.
    pub fn build(self) -> (r: (KernelBuild, BuildAction))
        ensures
            r.0.builder == self,
            r.0.stage == BuildStage::AnnouncingCrate,
            !r.0.profiling,
            build_wf(r.0),
            prints(
                r.1,
                seq![
                    "cargo:rerun-if-env-changed=NVVM_TIMING_DIR"@,
                    rerun_if_changed(self.path_to_crate@),
                ],
            ),
    {
        let shown = self.path_to_crate.display();
        let mut lines: Vec<String> = Vec::new();
        lines.push(String::from_str("cargo:rerun-if-env-changed=NVVM_TIMING_DIR"));
        lines.push(concat_str("cargo:rerun-if-changed=", shown.as_str()));
        assert(string_views(lines@) =~= seq![
            "cargo:rerun-if-env-changed=NVVM_TIMING_DIR"@,
            rerun_if_changed(self.path_to_crate@),
        ]);
        let b = KernelBuild {
            builder: self,
            stage: BuildStage::AnnouncingCrate,
            backend: None,
            rustflags: Vec::new(),
            environment: None,
            loader_env: None,
            ptx: None,
            probe_dirs: Vec::new(),
            profiling: false,
        };
        (b, BuildAction::Print(lines))
    }
}

/// A failed Cargo run ends the build with `BuildFailed`, whatever its
/// output holds: the exit status takes precedence over the artifacts.
pub proof fn law_cargo_failure_wins(b: KernelBuild, messages: Vec<Option<CargoMessage>>, n: KernelBuild, a: BuildAction)
    requires
        b.stage == BuildStage::RunningCargo,
        step_ok(b, BuildEvent::CargoRan { status: Ok(false), messages }, n, a),
    ensures
        a == BuildAction::Finish(Err(CudaBuilderError::BuildFailed)),
        n.stage == BuildStage::Finished,
{
}

/// A build that copies its PTX file ends, once the copy succeeds, with the
/// copied path.
pub proof fn law_copy_target_is_result(b: KernelBuild, n: KernelBuild, a: BuildAction)
    requires
        build_wf(b),
        b.stage == BuildStage::Copying,
        step_ok(b, BuildEvent::Copied(Ok(())), n, a),
    ensures
        a matches BuildAction::Finish(Ok(p)) && b.builder.ptx_file_copy_path matches Some(c) && p@ == c@,
{
}

/// The crate directory is checked before anything else: a build whose crate
/// directory is missing ends at its second report with `CratePathDoesntExist`,
/// without resolving the backend.
pub proof fn law_missing_crate_stops_first(
    b: KernelBuild,
    n1: KernelBuild,
    a1: BuildAction,
    n2: KernelBuild,
    a2: BuildAction,
)
    requires
        b.stage == BuildStage::AnnouncingCrate,
        step_ok(b, BuildEvent::Shown, n1, a1),
        n1.builder == b.builder,
        step_ok(n1, BuildEvent::DirChecked(false), n2, a2),
    ensures
        a1 matches BuildAction::CheckDir(d) && d@ == b.builder.path_to_crate@,
        a2 matches BuildAction::Finish(Err(CudaBuilderError::CratePathDoesntExist(p))) && p@
            == b.builder.path_to_crate@,
        n2.stage == BuildStage::Finished,
{
}

/// When Cargo succeeds with exactly one PTX file in its final artifact and no
/// copy is requested, that file is the result.
pub proof fn law_single_ptx_is_result(
    b: KernelBuild,
    messages: Vec<Option<CargoMessage>>,
    n: KernelBuild,
    a: BuildAction,
)
    requires
        b.stage == BuildStage::RunningCargo,
        b.builder.ptx_file_copy_path is None,
        ptx_files(last_artifact_files(messages@)).len() == 1,
        step_ok(b, BuildEvent::CargoRan { status: Ok(true), messages }, n, a),
    ensures
        a matches BuildAction::Finish(Ok(p)) && p@ == ptx_files(last_artifact_files(messages@))[0]@,
{
}

} // verus!

verus! {

/// The self-profile flags of a build environment with timings on.
pub open spec fn env_profile_flags(env: BuildEnvironment) -> Seq<Seq<char>> {
    spec_self_profile_flags(spec_join(env.timing_dir->0@, vstd::utf8::encode_utf8("rustc"@)))
}

/// The self-profile flags a build has added: none unless `profiling`.
pub open spec fn added_profile_flags(k: KernelBuild) -> Seq<Seq<char>> {
    if k.profiling {
        env_profile_flags(k.environment->0)
    } else {
        seq![]
    }
}

/// What holds of every state a build reaches from [`CudaBuilder::build`]:
/// the self-profile flags are added only after the environment (with a
/// timing directory) is read and their directory created; once the backend
/// is resolved, the flags are exactly the backend's rustc flags followed by
/// the self-profile flags added.
pub open spec fn reach_inv(k: KernelBuild) -> bool {
    let resolved = k.stage == BuildStage::ReadingEnvironment || k.stage
        == BuildStage::CreatingProfileDir || k.stage == BuildStage::Warning || k.stage
        == BuildStage::ProbingLibraries || k.stage == BuildStage::JoiningSearchPath;
    let before_probe = k.stage == BuildStage::AnnouncingCrate || k.stage == BuildStage::CheckingCrate
        || k.stage == BuildStage::AnnouncingBackend || k.stage == BuildStage::ResolvingBackend || k.stage
        == BuildStage::ReadingEnvironment || k.stage == BuildStage::CreatingProfileDir || k.stage
        == BuildStage::Warning;
    &&& build_wf(k)
    &&& before_probe ==> !k.profiling
    &&& k.profiling && k.stage != BuildStage::Finished ==> (k.environment matches Some(e)
        && e.timing_dir is Some)
    &&& resolved ==> (k.backend matches Some(abs) && (crate::flags::spec_rustflags(k.builder, abs@) matches Ok(
        f,
    ) && string_views(k.rustflags@) == f + added_profile_flags(k)))
}

/// The action launches the nested Cargo exactly as the builder, the resolved
/// backend `abs` and the build environment `env` ask: `cargo` with the
/// builder's arguments, the environment's target directory, and `--timings`
/// exactly when the environment names a timing directory, in the crate
/// directory, with `CARGO_ENCODED_RUSTFLAGS` the encoding of the backend's
/// rustc flags, followed by the self-profile flags when `profiling` (which
/// needs a timing directory).
pub open spec fn launch_fits(
    b: CudaBuilder,
    abs: Seq<u8>,
    env: BuildEnvironment,
    profiling: bool,
    a: BuildAction,
) -> bool {
    &&& profiling ==> env.timing_dir is Some
    &&& crate::flags::spec_rustflags(b, abs) matches Ok(f) && {
        let flags = f + (if profiling {
            env_profile_flags(env)
        } else {
            seq![]
        });
        &&& crate::flags::spec_encode(flags) matches Ok(enc) && (a matches BuildAction::RunCargo {
            command,
            env: vars,
        } && {
            &&& command.program@ == "cargo"@
            &&& arg_views(command.args@) == spec_cargo_args(
                b,
                spec_env_target_dir(env),
                env.timing_dir is Some,
            )
            &&& command.current_dir@ == b.path_to_crate@
            &&& vars@.len() >= 1
            &&& env_views(vars@).last() == ("CARGO_ENCODED_RUSTFLAGS"@, vstd::utf8::encode_utf8(enc))
        })
    }
}

/// Every step keeps the invariant of a reachable build state.
pub proof fn law_steps_keep_the_build_state(b: KernelBuild, ev: BuildEvent, n: KernelBuild, a: BuildAction)
    requires
        reach_inv(b),
        step_ok(b, ev, n, a),
    ensures
        reach_inv(n),
{
}

/// Whenever a reachable build launches Cargo, it launches it with the flags,
/// arguments, directory and target directory computed from the builder, the
/// resolved backend and the build environment.
pub proof fn law_cargo_gets_computed_flags(b: KernelBuild, ev: BuildEvent, n: KernelBuild, a: BuildAction)
    requires
        reach_inv(b),
        step_ok(b, ev, n, a),
        a is RunCargo,
    ensures
        b.backend is Some && b.environment is Some,
        launch_fits(b.builder, b.backend->0@, b.environment->0, b.profiling, a),
{
    let flags = string_views(b.rustflags@);
    let enc = crate::flags::spec_encode(flags)->Ok_0;
    let vars = a->env;
    assert(env_views(vars@).last() == ("CARGO_ENCODED_RUSTFLAGS"@, vstd::utf8::encode_utf8(enc)));
}

/// A build that ends well ends with the copy target when one is set, and
/// otherwise with the single PTX file of Cargo's last artifact; the step
/// before the copy ran Cargo successfully on that file.
pub proof fn law_success_is_the_ptx_or_its_copy(b: KernelBuild, ev: BuildEvent, n: KernelBuild, a: BuildAction)
    requires
        reach_inv(b),
        step_ok(b, ev, n, a),
        a matches BuildAction::Finish(Ok(_)),
    ensures
        b.stage == BuildStage::RunningCargo || b.stage == BuildStage::Copying,
        b.stage == BuildStage::Copying ==> (b.builder.ptx_file_copy_path matches Some(c)
            && a->Finish_0->Ok_0@ == c@),
        b.stage == BuildStage::RunningCargo ==> b.builder.ptx_file_copy_path is None,
        b.stage == BuildStage::RunningCargo ==> (ev matches BuildEvent::CargoRan { status: Ok(true), messages }
            && ptx_files(last_artifact_files(messages@)).len() == 1 && a->Finish_0->Ok_0@ == ptx_files(
            last_artifact_files(messages@),
        )[0]@),
{
}

/// A copy is asked for only after Cargo succeeded with a single PTX file:
/// that file is copied to the copy target, and the build remembers it.
pub proof fn law_copy_follows_single_ptx(b: KernelBuild, ev: BuildEvent, n: KernelBuild, a: BuildAction)
    requires
        step_ok(b, ev, n, a),
        n.stage == BuildStage::Copying,
    ensures
        b.stage == BuildStage::RunningCargo,
        ev matches BuildEvent::CargoRan { status: Ok(true), messages } && ptx_files(
            last_artifact_files(messages@),
        ).len() == 1 && (a matches BuildAction::Copy { from, to } && from@ == ptx_files(
            last_artifact_files(messages@),
        )[0]@),
        b.builder.ptx_file_copy_path matches Some(c) && (a matches BuildAction::Copy { to, .. } && to@ == c@),
        n.ptx matches Some(q) && (a matches BuildAction::Copy { from, .. } && q@ == from@),
{
}

} // verus!

verus! {

/// `states`, `events` and `actions` record a build of `b`: it starts where
/// [`CudaBuilder::build`] starts, and state `i + 1` and action `i + 1` follow
/// from state `i` by a step on report `i`.
pub open spec fn is_run(
    b: CudaBuilder,
    states: Seq<KernelBuild>,
    events: Seq<BuildEvent>,
    actions: Seq<BuildAction>,
) -> bool {
    &&& states.len() == events.len() + 1
    &&& actions.len() == states.len()
    &&& states[0].builder == b
    &&& states[0].stage == BuildStage::AnnouncingCrate
    &&& !states[0].profiling
    &&& forall|i: int|
        0 <= i < events.len() ==> #[trigger] step_ok(states[i], events[i], states[i + 1], actions[i + 1])
}

proof fn lemma_run_states(
    b: CudaBuilder,
    states: Seq<KernelBuild>,
    events: Seq<BuildEvent>,
    actions: Seq<BuildAction>,
    i: int,
)
    requires
        is_run(b, states, events, actions),
        0 <= i < states.len(),
    ensures
        reach_inv(states[i]),
        states[i].builder == b,
    decreases i,
{
    if i > 0 {
        let j = i - 1;
        lemma_run_states(b, states, events, actions, j);
        assert(step_ok(states[j], events[j], states[j + 1], actions[j + 1]));
        law_steps_keep_the_build_state(states[j], events[j], states[j + 1], actions[j + 1]);
    }
}

/// Over a whole build: whenever it launches Cargo, the launch is the one the
/// builder, the resolved backend and the build environment determine.
pub proof fn law_run_launches_computed_cargo(
    b: CudaBuilder,
    states: Seq<KernelBuild>,
    events: Seq<BuildEvent>,
    actions: Seq<BuildAction>,
    i: int,
)
    requires
        is_run(b, states, events, actions),
        0 <= i < events.len(),
        actions[i + 1] is RunCargo,
    ensures
        states[i].backend is Some && states[i].environment is Some,
        launch_fits(b, states[i].backend->0@, states[i].environment->0, states[i].profiling, actions[i + 1]),
{
    lemma_run_states(b, states, events, actions, i);
    assert(step_ok(states[i], events[i], states[i + 1], actions[i + 1]));
    law_cargo_gets_computed_flags(states[i], events[i], states[i + 1], actions[i + 1]);
}

/// Over a whole build: a build that ends well ends with the copy target when
/// one is set (after Cargo succeeded with a single PTX file), and otherwise
/// with the single PTX file of Cargo's last artifact.
pub proof fn law_run_result(
    b: CudaBuilder,
    states: Seq<KernelBuild>,
    events: Seq<BuildEvent>,
    actions: Seq<BuildAction>,
    i: int,
)
    requires
        is_run(b, states, events, actions),
        0 <= i < events.len(),
        actions[i + 1] matches BuildAction::Finish(Ok(_)),
    ensures
        b.ptx_file_copy_path matches Some(c) ==> actions[i + 1]->Finish_0->Ok_0@ == c@,
        b.ptx_file_copy_path is Some ==> i >= 1 && (events[i - 1] matches BuildEvent::CargoRan {
            status: Ok(true),
            messages,
        } && ptx_files(last_artifact_files(messages@)).len() == 1),
        b.ptx_file_copy_path is None ==> (events[i] matches BuildEvent::CargoRan { status: Ok(true), messages }
            && ptx_files(last_artifact_files(messages@)).len() == 1 && actions[i + 1]->Finish_0->Ok_0@
            == ptx_files(last_artifact_files(messages@))[0]@),
{
    lemma_run_states(b, states, events, actions, i);
    assert(step_ok(states[i], events[i], states[i + 1], actions[i + 1]));
    law_success_is_the_ptx_or_its_copy(states[i], events[i], states[i + 1], actions[i + 1]);
    if states[i].stage == BuildStage::Copying {
        assert(i >= 1);
        let j = i - 1;
        assert(step_ok(states[j], events[j], states[j + 1], actions[j + 1]));
        law_copy_follows_single_ptx(states[j], events[j], states[j + 1], actions[j + 1]);
    }
}

} // verus!

verus! {

/// The order of the stages: every step moves to a later one.
pub open spec fn stage_rank(s: BuildStage) -> int {
    match s {
        BuildStage::AnnouncingCrate => 0,
        BuildStage::CheckingCrate => 1,
        BuildStage::AnnouncingBackend => 2,
        BuildStage::ResolvingBackend => 3,
        BuildStage::ReadingEnvironment => 4,
        BuildStage::CreatingProfileDir => 5,
        BuildStage::Warning => 6,
        BuildStage::ProbingLibraries => 7,
        BuildStage::JoiningSearchPath => 8,
        BuildStage::RunningCargo => 9,
        BuildStage::Copying => 10,
        BuildStage::Finished => 11,
    }
}

/// Every step moves to a later stage, and the kind of action it asks for
/// tells the stage it moves to.
pub proof fn law_steps_advance(b: KernelBuild, ev: BuildEvent, n: KernelBuild, a: BuildAction)
    requires
        step_ok(b, ev, n, a),
    ensures
        stage_rank(b.stage) < stage_rank(n.stage),
        a is Finish <==> n.stage == BuildStage::Finished,
        a is RunCargo <==> n.stage == BuildStage::RunningCargo,
        a is Copy <==> n.stage == BuildStage::Copying,
        a is Canonicalize <==> n.stage == BuildStage::ResolvingBackend,
{
}

proof fn lemma_run_step(
    b: CudaBuilder,
    states: Seq<KernelBuild>,
    events: Seq<BuildEvent>,
    actions: Seq<BuildAction>,
    j: int,
)
    requires
        is_run(b, states, events, actions),
        0 <= j < events.len(),
    ensures
        step_ok(states[j], events[j], states[j + 1], actions[j + 1]),
        stage_rank(states[j].stage) < stage_rank(states[j + 1].stage),
        actions[j + 1] is Finish <==> states[j + 1].stage == BuildStage::Finished,
        actions[j + 1] is RunCargo <==> states[j + 1].stage == BuildStage::RunningCargo,
        actions[j + 1] is Copy <==> states[j + 1].stage == BuildStage::Copying,
        actions[j + 1] is Canonicalize <==> states[j + 1].stage == BuildStage::ResolvingBackend,
        states[j].stage != BuildStage::Finished,
{
    assert(step_ok(states[j], events[j], states[j + 1], actions[j + 1]));
    law_steps_advance(states[j], events[j], states[j + 1], actions[j + 1]);
}

proof fn lemma_run_ranks(
    b: CudaBuilder,
    states: Seq<KernelBuild>,
    events: Seq<BuildEvent>,
    actions: Seq<BuildAction>,
    j: int,
    k: int,
)
    requires
        is_run(b, states, events, actions),
        0 <= j < k < states.len(),
    ensures
        stage_rank(states[j].stage) < stage_rank(states[k].stage),
    decreases k - j,
{
    lemma_run_step(b, states, events, actions, k - 1);
    if j < k - 1 {
        lemma_run_ranks(b, states, events, actions, j, k - 1);
    }
}

/// A finished build takes no further step: the state after a `Finish` is the last.
proof fn lemma_run_ends_when_finished(
    b: CudaBuilder,
    states: Seq<KernelBuild>,
    events: Seq<BuildEvent>,
    actions: Seq<BuildAction>,
    k: int,
)
    requires
        is_run(b, states, events, actions),
        0 <= k < states.len(),
        states[k].stage == BuildStage::Finished,
    ensures
        k == states.len() - 1,
{
    if k < events.len() {
        lemma_run_step(b, states, events, actions, k);
    }
}

/// No action of the run after the first is of a kind that moves to a stage
/// at `r` or later, when every state of the run is before `r`.
proof fn lemma_run_no_action_at(
    b: CudaBuilder,
    states: Seq<KernelBuild>,
    events: Seq<BuildEvent>,
    actions: Seq<BuildAction>,
    k: int,
)
    requires
        is_run(b, states, events, actions),
        1 <= k < actions.len(),
    ensures
        actions[k] is RunCargo ==> states[k].stage == BuildStage::RunningCargo,
        actions[k] is Copy ==> states[k].stage == BuildStage::Copying,
        actions[k] is Canonicalize ==> states[k].stage == BuildStage::ResolvingBackend,
{
    lemma_run_step(b, states, events, actions, k - 1);
}

/// The crate check passed before any state past it (other than the end).
proof fn lemma_run_crate_checked(
    b: CudaBuilder,
    states: Seq<KernelBuild>,
    events: Seq<BuildEvent>,
    actions: Seq<BuildAction>,
    k: int,
)
    requires
        is_run(b, states, events, actions),
        0 <= k < states.len(),
        stage_rank(states[k].stage) >= 2,
        states[k].stage != BuildStage::Finished,
    ensures
        exists|j: int| 0 <= j < k && states[j].stage == BuildStage::CheckingCrate && #[trigger] events[j]
            == BuildEvent::DirChecked(true),
    decreases k,
{
    if k == 0 {
    } else {
        lemma_run_step(b, states, events, actions, k - 1);
        if stage_rank(states[k - 1].stage) >= 2 {
            lemma_run_crate_checked(b, states, events, actions, k - 1);
        } else {
            assert(states[k - 1].stage == BuildStage::CheckingCrate);
            assert(step_ok(states[k - 1], events[k - 1], states[k], actions[k]));
            assert(events[k - 1] == BuildEvent::DirChecked(true));
        }
    }
}

/// The self-profile directory was created at some step before `k`.
pub open spec fn profile_dir_created(states: Seq<KernelBuild>, events: Seq<BuildEvent>, k: int) -> bool {
    exists|j: int|
        0 <= j < k && states[j].stage == BuildStage::CreatingProfileDir && #[trigger] events[j] matches BuildEvent::DirCreated(
            Ok(_),
        )
}

proof fn lemma_run_profiling(
    b: CudaBuilder,
    states: Seq<KernelBuild>,
    events: Seq<BuildEvent>,
    actions: Seq<BuildAction>,
    k: int,
)
    requires
        is_run(b, states, events, actions),
        0 <= k < states.len(),
    ensures
        states[k].profiling <==> profile_dir_created(states, events, k),
    decreases k,
{
    if k > 0 {
        lemma_run_profiling(b, states, events, actions, k - 1);
        lemma_run_step(b, states, events, actions, k - 1);
        let j = k - 1;
        if states[j].stage == BuildStage::CreatingProfileDir && events[j] matches BuildEvent::DirCreated(Ok(_)) {
            assert(profile_dir_created(states, events, k));
        } else {
            assert(states[k].profiling == states[j].profiling);
            if profile_dir_created(states, events, k) {
                let m = choose|m: int|
                    0 <= m < k && states[m].stage == BuildStage::CreatingProfileDir && #[trigger] events[m] matches BuildEvent::DirCreated(
                        Ok(_),
                    );
                assert(m < j);
                assert(profile_dir_created(states, events, j));
            }
            if profile_dir_created(states, events, j) {
                let m = choose|m: int|
                    0 <= m < j && states[m].stage == BuildStage::CreatingProfileDir && #[trigger] events[m] matches BuildEvent::DirCreated(
                        Ok(_),
                    );
                assert(profile_dir_created(states, events, k));
            }
        }
    }
}

/// Over a whole build: the missing crate directory, an unusable backend and
/// an invalid option each end the build before Cargo runs, and nothing is
/// copied. A missing crate directory is found first, before the backend is
/// looked up; the other two come only after the crate check passed.
pub proof fn law_run_early_errors(
    b: CudaBuilder,
    states: Seq<KernelBuild>,
    events: Seq<BuildEvent>,
    actions: Seq<BuildAction>,
    i: int,
)
    requires
        is_run(b, states, events, actions),
        0 <= i < events.len(),
        actions[i + 1] matches BuildAction::Finish(Err(e)) && (e is CratePathDoesntExist || e is Backend
            || e is InvalidOption),
    ensures
        i + 1 == actions.len() - 1,
        forall|k: int| 1 <= k < actions.len() ==> !(#[trigger] actions[k] is RunCargo) && !(actions[k] is Copy),
        actions[i + 1]->Finish_0->Err_0 is CratePathDoesntExist ==> {
            &&& states[i].stage == BuildStage::CheckingCrate
            &&& events[i] == BuildEvent::DirChecked(false)
            &&& forall|k: int| 1 <= k < actions.len() ==> !(#[trigger] actions[k] is Canonicalize)
        },
        !(actions[i + 1]->Finish_0->Err_0 is CratePathDoesntExist) ==> exists|j: int|
            0 <= j < i && states[j].stage == BuildStage::CheckingCrate && #[trigger] events[j]
                == BuildEvent::DirChecked(true),
{
    lemma_run_step(b, states, events, actions, i);
    lemma_run_ends_when_finished(b, states, events, actions, i + 1);
    let s = states[i];
    assert(stage_rank(s.stage) <= 8);
    assert forall|k: int| 1 <= k < actions.len() implies !(#[trigger] actions[k] is RunCargo) && !(
    actions[k] is Copy) by {
        lemma_run_no_action_at(b, states, events, actions, k);
        if k < i {
            lemma_run_ranks(b, states, events, actions, k, i);
        }
    }
    if actions[i + 1]->Finish_0->Err_0 is CratePathDoesntExist {
        assert(s.stage == BuildStage::CheckingCrate);
        assert forall|k: int| 1 <= k < actions.len() implies !(#[trigger] actions[k] is Canonicalize) by {
            lemma_run_no_action_at(b, states, events, actions, k);
            if k < i {
                lemma_run_ranks(b, states, events, actions, k, i);
            }
        }
    } else {
        assert(stage_rank(s.stage) >= 3);
        lemma_run_crate_checked(b, states, events, actions, i);
    }
}

/// Over a whole build: when Cargo fails or cannot be started, the build
/// ends at once with `BuildFailed` or `CargoInvocation`, whatever Cargo
/// printed, and nothing is copied; Cargo ran only after the crate check
/// passed.
pub proof fn law_run_cargo_failure(
    b: CudaBuilder,
    states: Seq<KernelBuild>,
    events: Seq<BuildEvent>,
    actions: Seq<BuildAction>,
    i: int,
)
    requires
        is_run(b, states, events, actions),
        0 <= i < events.len(),
        events[i] matches BuildEvent::CargoRan { status, .. } && status != Ok::<bool, String>(true),
    ensures
        states[i].stage == BuildStage::RunningCargo,
        events[i] matches BuildEvent::CargoRan { status: Ok(false), .. } ==> actions[i + 1]
            == BuildAction::Finish(Err(CudaBuilderError::BuildFailed)),
        events[i] matches BuildEvent::CargoRan { status: Err(m), .. } ==> (actions[i + 1] matches BuildAction::Finish(
            Err(CudaBuilderError::CargoInvocation(t)),
        ) && t@ == m@),
        i + 1 == actions.len() - 1,
        forall|k: int| 1 <= k < actions.len() ==> !(#[trigger] actions[k] is Copy),
        exists|j: int| 0 <= j < i && states[j].stage == BuildStage::CheckingCrate && #[trigger] events[j]
            == BuildEvent::DirChecked(true),
{
    lemma_run_step(b, states, events, actions, i);
    assert(states[i].stage == BuildStage::RunningCargo);
    lemma_run_ends_when_finished(b, states, events, actions, i + 1);
    assert forall|k: int| 1 <= k < actions.len() implies !(#[trigger] actions[k] is Copy) by {
        lemma_run_no_action_at(b, states, events, actions, k);
        if k < i {
            lemma_run_ranks(b, states, events, actions, k, i);
        }
    }
    lemma_run_crate_checked(b, states, events, actions, i);
}

/// Over a whole build: a copy that fails ends the build with
/// `FailedToCopyPtxFile`; the copy was of the single PTX file of Cargo's
/// successful run to the copy target.
pub proof fn law_run_failed_copy(
    b: CudaBuilder,
    states: Seq<KernelBuild>,
    events: Seq<BuildEvent>,
    actions: Seq<BuildAction>,
    i: int,
)
    requires
        is_run(b, states, events, actions),
        0 <= i < events.len(),
        events[i] matches BuildEvent::Copied(Err(_)),
    ensures
        actions[i + 1] matches BuildAction::Finish(Err(CudaBuilderError::FailedToCopyPtxFile(m))) && (
        events[i] matches BuildEvent::Copied(Err(e)) && m@ == e@),
        i >= 1,
        b.ptx_file_copy_path matches Some(c) && (actions[i] matches BuildAction::Copy { to, .. } && to@ == c@),
        events[i - 1] matches BuildEvent::CargoRan { status: Ok(true), messages } && ptx_files(
            last_artifact_files(messages@),
        ).len() == 1 && (actions[i] matches BuildAction::Copy { from, .. } && from@ == ptx_files(
            last_artifact_files(messages@),
        )[0]@),
{
    lemma_run_states(b, states, events, actions, i);
    lemma_run_step(b, states, events, actions, i);
    assert(states[i].stage == BuildStage::Copying);
    assert(i >= 1);
    lemma_run_step(b, states, events, actions, i - 1);
    law_copy_follows_single_ptx(states[i - 1], events[i - 1], states[i], actions[i]);
    lemma_run_states(b, states, events, actions, i - 1);
}

/// Over a whole build, with or without timings: Cargo gets `--timings`
/// exactly when the environment names a timing directory, and its
/// `CARGO_ENCODED_RUSTFLAGS` encode exactly the backend's rustc flags,
/// followed by the self-profile flags when (and only when) their directory
/// was created earlier in the run.
pub proof fn law_run_timing_flags(
    b: CudaBuilder,
    states: Seq<KernelBuild>,
    events: Seq<BuildEvent>,
    actions: Seq<BuildAction>,
    i: int,
)
    requires
        is_run(b, states, events, actions),
        0 <= i < events.len(),
        actions[i + 1] is RunCargo,
    ensures
        states[i].backend is Some && states[i].environment is Some,
        launch_fits(
            b,
            states[i].backend->0@,
            states[i].environment->0,
            profile_dir_created(states, events, i),
            actions[i + 1],
        ),
        states[i].environment->0.timing_dir is None ==> !profile_dir_created(states, events, i),
{
    law_run_launches_computed_cargo(b, states, events, actions, i);
    lemma_run_profiling(b, states, events, actions, i);
    lemma_run_states(b, states, events, actions, i);
}

} // verus!

verus! {

proof fn lemma_release_text_count(b: CudaBuilder, timings: bool)
    ensures
        count_in(spec_cargo_text_args(b, timings), "--release"@) == count_in(string_views(b.build_args@), "--release"@)
            + (if b.release {
            1nat
        } else {
            0nat
        }),
{
    reveal_strlit("--release");
    reveal_strlit("build");
    reveal_strlit("--lib");
    reveal_strlit("--message-format=json-render-diagnostics");
    reveal_strlit("-Zbuild-std=core,alloc");
    reveal_strlit("--target=nvptx64-nvidia-cuda");
    reveal_strlit("--timings");
    reveal_strlit("-Zunstable-options");
    reveal_strlit("--config");
    reveal_strlit("optix=\"1\"");
    let r = "--release"@;
    let fixed = seq![
        "build"@,
        "--lib"@,
        "--message-format=json-render-diagnostics"@,
        "-Zbuild-std=core,alloc"@,
        "--target=nvptx64-nvidia-cuda"@,
    ];
    let user = string_views(b.build_args@);
    let tm: Seq<Seq<char>> = if timings { seq!["--timings"@] } else { seq![] };
    let rl: Seq<Seq<char>> = if b.release { seq!["--release"@] } else { seq![] };
    let ox: Seq<Seq<char>> = if b.optix {
        seq!["-Zunstable-options"@, "--config"@, "optix=\"1\""@]
    } else {
        seq![]
    };
    assert("--timings"@[2] != r[2]);
    assert("-Zunstable-options"@[1] != r[1]);
    assert("--config"@.len() != r.len());
    assert("optix=\"1\""@[0] != r[0]);
    assert("build"@.len() != r.len());
    assert("--lib"@.len() != r.len());
    assert("-Zbuild-std=core,alloc"@.len() != r.len());
    assert("--message-format=json-render-diagnostics"@.len() != r.len());
    assert("--target=nvptx64-nvidia-cuda"@.len() != r.len());
    assert(count_in(fixed, r) == 0) by {
        reveal_with_fuel(count_in, 6);
    }
    assert(count_in(tm, r) == 0) by {
        reveal_with_fuel(count_in, 2);
    }
    assert(count_in(rl, r) == if b.release { 1nat } else { 0nat }) by {
        reveal_with_fuel(count_in, 2);
    }
    assert(count_in(ox, r) == 0) by {
        reveal_with_fuel(count_in, 4);
    }
    lemma_count_concat(fixed, user, r);
    lemma_count_concat(fixed + user, tm, r);
    lemma_count_concat(fixed + user + tm, rl, r);
    lemma_count_concat(fixed + user + tm + rl, ox, r);
    assert(spec_cargo_text_args(b, timings) == fixed + user + tm + rl + ox);
}

/// The nested Cargo builds for release exactly when the builder asks for a
/// release build, whether or not timings are on: `--release` occurs among
/// its arguments once more than among the user's extra arguments when
/// `release` is set, and no more often otherwise (a target directory spelled
/// `--release` is left out).
pub proof fn law_release_follows_the_option(b: CudaBuilder, target_dir: Option<Seq<u8>>, timings: bool)
    requires
        target_dir matches Some(d) ==> d != vstd::utf8::encode_utf8("--release"@),
    ensures
        count_in(spec_cargo_args(b, target_dir, timings), vstd::utf8::encode_utf8("--release"@)) == count_in(
            string_views(b.build_args@),
            "--release"@,
        ) + (if b.release {
            1nat
        } else {
            0nat
        }),
        b.release ==> spec_cargo_args(b, target_dir, timings).contains(vstd::utf8::encode_utf8("--release"@)),
{
    let r = vstd::utf8::encode_utf8("--release"@);
    lemma_release_text_count(b, timings);
    lemma_count_encoded(spec_cargo_text_args(b, timings), "--release"@);
    let tail: Seq<Seq<u8>> = match target_dir {
        Some(d) => seq![vstd::utf8::encode_utf8("--target-dir"@), d],
        None => seq![],
    };
    reveal_strlit("--target-dir");
    reveal_strlit("--release");
    vstd::utf8::encode_utf8_decode_utf8("--target-dir"@);
    vstd::utf8::encode_utf8_decode_utf8("--release"@);
    assert("--target-dir"@.len() != "--release"@.len());
    assert(vstd::utf8::encode_utf8("--target-dir"@) != r);
    assert(count_in(tail, r) == 0) by {
        reveal_with_fuel(count_in, 3);
    }
    lemma_count_concat(utf8_all(spec_cargo_text_args(b, timings)), tail, r);
    lemma_count_contains(spec_cargo_args(b, target_dir, timings), r);
}

} // verus!

verus! {

proof fn lemma_timings_text_count(b: CudaBuilder, timings: bool)
    ensures
        count_in(spec_cargo_text_args(b, timings), "--timings"@) == count_in(string_views(b.build_args@), "--timings"@)
            + (if timings {
            1nat
        } else {
            0nat
        }),
{
    reveal_strlit("--release");
    reveal_strlit("build");
    reveal_strlit("--lib");
    reveal_strlit("--message-format=json-render-diagnostics");
    reveal_strlit("-Zbuild-std=core,alloc");
    reveal_strlit("--target=nvptx64-nvidia-cuda");
    reveal_strlit("--timings");
    reveal_strlit("-Zunstable-options");
    reveal_strlit("--config");
    reveal_strlit("optix=\"1\"");
    let r = "--timings"@;
    let fixed = seq![
        "build"@,
        "--lib"@,
        "--message-format=json-render-diagnostics"@,
        "-Zbuild-std=core,alloc"@,
        "--target=nvptx64-nvidia-cuda"@,
    ];
    let user = string_views(b.build_args@);
    let tm: Seq<Seq<char>> = if timings { seq!["--timings"@] } else { seq![] };
    let rl: Seq<Seq<char>> = if b.release { seq!["--release"@] } else { seq![] };
    let ox: Seq<Seq<char>> = if b.optix {
        seq!["-Zunstable-options"@, "--config"@, "optix=\"1\""@]
    } else {
        seq![]
    };
    assert("--release"@[2] != r[2]);
    assert("-Zunstable-options"@[1] != r[1]);
    assert("--config"@.len() != r.len());
    assert("optix=\"1\""@[0] != r[0]);
    assert("build"@.len() != r.len());
    assert("--lib"@.len() != r.len());
    assert("-Zbuild-std=core,alloc"@.len() != r.len());
    assert("--message-format=json-render-diagnostics"@.len() != r.len());
    assert("--target=nvptx64-nvidia-cuda"@.len() != r.len());
    assert(count_in(fixed, r) == 0) by {
        reveal_with_fuel(count_in, 6);
    }
    assert(count_in(tm, r) == if timings { 1nat } else { 0nat }) by {
        reveal_with_fuel(count_in, 2);
    }
    assert(count_in(rl, r) == 0) by {
        reveal_with_fuel(count_in, 2);
    }
    assert(count_in(ox, r) == 0) by {
        reveal_with_fuel(count_in, 4);
    }
    lemma_count_concat(fixed, user, r);
    lemma_count_concat(fixed + user, tm, r);
    lemma_count_concat(fixed + user + tm, rl, r);
    lemma_count_concat(fixed + user + tm + rl, ox, r);
    assert(spec_cargo_text_args(b, timings) == fixed + user + tm + rl + ox);
}

/// The nested Cargo records timings exactly when asked to: `--timings`
/// occurs among its arguments once more than among the user's extra
/// arguments when timings are on, and no more often otherwise (a target
/// directory spelled `--timings` is left out).
pub proof fn law_timings_follow_the_request(b: CudaBuilder, target_dir: Option<Seq<u8>>, timings: bool)
    requires
        target_dir matches Some(d) ==> d != vstd::utf8::encode_utf8("--timings"@),
    ensures
        count_in(spec_cargo_args(b, target_dir, timings), vstd::utf8::encode_utf8("--timings"@)) == count_in(
            string_views(b.build_args@),
            "--timings"@,
        ) + (if timings {
            1nat
        } else {
            0nat
        }),
        timings ==> spec_cargo_args(b, target_dir, timings).contains(vstd::utf8::encode_utf8("--timings"@)),
{
    let r = vstd::utf8::encode_utf8("--timings"@);
    lemma_timings_text_count(b, timings);
    lemma_count_encoded(spec_cargo_text_args(b, timings), "--timings"@);
    let tail: Seq<Seq<u8>> = match target_dir {
        Some(d) => seq![vstd::utf8::encode_utf8("--target-dir"@), d],
        None => seq![],
    };
    reveal_strlit("--target-dir");
    reveal_strlit("--timings");
    vstd::utf8::encode_utf8_decode_utf8("--target-dir"@);
    vstd::utf8::encode_utf8_decode_utf8("--timings"@);
    assert("--target-dir"@.len() != "--timings"@.len());
    assert(vstd::utf8::encode_utf8("--target-dir"@) != r);
    assert(count_in(tail, r) == 0) by {
        reveal_with_fuel(count_in, 3);
    }
    lemma_count_concat(utf8_all(spec_cargo_text_args(b, timings)), tail, r);
    lemma_count_contains(spec_cargo_args(b, target_dir, timings), r);
}

} // verus!
