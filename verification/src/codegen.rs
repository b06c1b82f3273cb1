//! Decisions of the NVVM codegen backend that do not depend on the compiler's
//! or LLVM's data structures: its name and CPU, the target features it reports,
//! the shape of allocator shims, and the linkage of symbols in the merged module.

use vstd::prelude::*;
use crate::text::{chars_of, concat_str, push_char, string_views};
use crate::arch::{is_known_nvvm_verify_false_negative, spec_is_known_verify_false_negative};

verus! {

/// The rustc codegen backend that emits NVVM IR and hands it to libnvvm.
#[derive(Clone, Copy, Debug)]
pub struct NvvmCodegenBackend;

impl NvvmCodegenBackend {
    /// The backend's name, as rustc reports it.
    pub fn name(&self) -> (n: &'static str)
        ensures
            n@ == "nvvm"@,
    {
        "nvvm"
    }

    /// The CPU to generate code for: the one given with `-Ctarget-cpu`, else
    /// the target's default.
    pub fn target_cpu(&self, requested: Option<String>, target_default: &str) -> (cpu: String)
        ensures
            cpu@ == match requested {
                Some(c) => c@,
                None => target_default@,
            },
    {
        match requested {
            Some(c) => c,
            None => String::from_str(target_default),
        }
    }
}

/// Features enabled, and the field in progress, after reading `s[..i]` of a
/// comma-separated feature list: a completed field counts when it is `+`
/// followed by a non-empty name, and then the name is kept.
pub open spec fn enabled_upto(s: Seq<char>, i: int) -> (Seq<Seq<char>>, Seq<char>)
    decreases i,
{
    if i <= 0 {
        (seq![], seq![])
    } else {
        let (done, cur) = enabled_upto(s, i - 1);
        if s[i - 1] == ',' {
            (done + enabled_field(cur), seq![])
        } else {
            (done, cur.push(s[i - 1]))
        }
    }
}

/// `[name]` for a field `+name` with a non-empty name, else nothing.
pub open spec fn enabled_field(f: Seq<char>) -> Seq<Seq<char>> {
    if f.len() > 1 && f[0] == '+' { seq![f.drop_first()] } else { seq![] }
}

/// The features a comma-separated list enables (`+name`), in order.
pub open spec fn spec_enabled_features(s: Seq<char>) -> Seq<Seq<char>> {
    let (done, cur) = enabled_upto(s, s.len() as int);
    done + enabled_field(cur)
}

fn field_feature(f: &Vec<char>, out: &mut Vec<String>)
    ensures
        string_views(final(out)@) == string_views(old(out)@) + enabled_field(f@),
{
    let ghost before = string_views(out@);
    if f.len() > 1 && f[0] == '+' {
        let mut name = String::new();
        let mut k: usize = 1;
        while k < f.len()
            invariant
                1 <= k <= f@.len(),
                name@ == f@.subrange(1, k as int),
            decreases f@.len() - k,
        {
            push_char(&mut name, f[k]);
            k = k + 1;
            assert(name@ =~= f@.subrange(1, k as int));
        }
        assert(f@.drop_first() =~= f@.subrange(1, f@.len() as int));
        let ghost prev = out@;
        out.push(name);
        assert(string_views(out@) =~= string_views(prev).push(f@.drop_first()));
    }
    assert(string_views(out@) =~= before + enabled_field(f@));
}

fn collect_enabled(s: &str, out: &mut Vec<String>)
    ensures
        string_views(final(out)@) == string_views(old(out)@) + spec_enabled_features(s@),
{
    let cs = chars_of(s);
    let ghost start = string_views(out@);
    let mut cur: Vec<char> = Vec::new();
    let mut i: usize = 0;
    while i < cs.len()
        invariant
            i <= cs@.len(),
            cs@ == s@,
            string_views(out@) == start + enabled_upto(cs@, i as int).0,
            cur@ == enabled_upto(cs@, i as int).1,
        decreases cs@.len() - i,
    {
        if cs[i] == ',' {
            field_feature(&cur, out);
            cur = Vec::new();
        } else {
            cur.push(cs[i]);
        }
        i = i + 1;
    }
    field_feature(&cur, out);
}

/// The target features rustc should consider enabled: those the target
/// enables by default, then those enabled with `-Ctarget-feature`, then the
/// compute capabilities the selected architecture implies.
pub open spec fn spec_target_features(
    target_defaults: Seq<char>,
    cmdline: Seq<char>,
    arch_features: Seq<Seq<char>>,
) -> Seq<Seq<char>> {
    spec_enabled_features(target_defaults) + spec_enabled_features(cmdline) + arch_features
}

/// The target features of the backend's target configuration. `arch_features`
/// are the compute-capability features of the selected architecture.
pub fn target_features(target_defaults: &str, cmdline: &str, arch_features: &Vec<String>) -> (f: Vec<
    String,
>)
    ensures
        string_views(f@) == spec_target_features(target_defaults@, cmdline@, string_views(arch_features@)),
{
    let mut f: Vec<String> = Vec::new();
    assert(string_views(f@) =~= Seq::<Seq<char>>::empty());
    collect_enabled(target_defaults, &mut f);
    assert(Seq::<Seq<char>>::empty() + spec_enabled_features(target_defaults@) =~= spec_enabled_features(
        target_defaults@,
    ));
    collect_enabled(cmdline, &mut f);
    let ghost mid = string_views(f@);
    let mut i: usize = 0;
    while i < arch_features.len()
        invariant
            i <= arch_features@.len(),
            string_views(f@) == mid + string_views(arch_features@).take(i as int),
        decreases arch_features@.len() - i,
    {
        let ghost prev = f@;
        f.push(String::from_str(arch_features[i].as_str()));
        assert(string_views(f@) =~= string_views(prev).push(arch_features@[i as int]@));
        assert(string_views(arch_features@).take(i + 1) =~= string_views(arch_features@).take(
            i as int,
        ).push(arch_features@[i as int]@));
        i = i + 1;
    }
    assert(string_views(arch_features@).take(arch_features@.len() as int) =~= string_views(
        arch_features@,
    ));
    f
}

/// What the backend tells rustc about its target.
pub struct TargetConfig {
    /// The target features considered enabled.
    pub target_features: Vec<String>,
    /// The unstable target features considered enabled: on NVPTX every
    /// feature is stable, so the same list.
    pub unstable_target_features: Vec<String>,
    pub has_reliable_f16: bool,
    pub has_reliable_f16_math: bool,
    pub has_reliable_f128: bool,
    pub has_reliable_f128_math: bool,
}

/// A copy of a list of strings.
fn copy_strings(v: &Vec<String>) -> (c: Vec<String>)
    ensures
        string_views(c@) == string_views(v@),
{
    let mut c: Vec<String> = Vec::new();
    let mut i: usize = 0;
    while i < v.len()
        invariant
            i <= v@.len(),
            string_views(c@) == string_views(v@).take(i as int),
        decreases v@.len() - i,
    {
        let ghost before = c@;
        c.push(String::from_str(v[i].as_str()));
        assert(string_views(c@) =~= string_views(before).push(v@[i as int]@));
        assert(string_views(v@).take(i + 1) =~= string_views(v@).take(i as int).push(v@[i as int]@));
        i = i + 1;
    }
    assert(string_views(v@).take(v@.len() as int) =~= string_views(v@));
    c
}

impl NvvmCodegenBackend {
    /// The target configuration: the features of [`target_features`] (given
    /// the target's default feature list, the `-Ctarget-feature` list and the
    /// compute-capability features of the architecture of
    /// [`first_arch_option`](crate::arch::first_arch_option), none without
    /// one), the same list as unstable features, and no reliable `f16` or
    /// `f128` support.
    pub fn target_config(&self, target_defaults: &str, cmdline: &str, arch_features: &Vec<String>) -> (c:
        TargetConfig)
        ensures
            string_views(c.target_features@) == spec_target_features(
                target_defaults@,
                cmdline@,
                string_views(arch_features@),
            ),
            string_views(c.unstable_target_features@) == string_views(c.target_features@),
            !c.has_reliable_f16,
            !c.has_reliable_f16_math,
            !c.has_reliable_f128,
            !c.has_reliable_f128_math,
    {
        let features = target_features(target_defaults, cmdline, arch_features);
        let unstable = copy_strings(&features);
        TargetConfig {
            target_features: features,
            unstable_target_features: unstable,
            has_reliable_f16: false,
            has_reliable_f16_math: false,
            has_reliable_f128: false,
            has_reliable_f128_math: false,
        }
    }
}

/// No string of `v` holds a NUL character.
pub open spec fn nul_free(v: Seq<String>) -> bool {
    forall|i: int| 0 <= i < v.len() ==> !v[i]@.contains('\0')
}

/// The names of the thin-LTO modules, in the order their jobs run: the
/// freshly compiled modules, then the cached ones. The names become C
/// strings, so none may hold a NUL character.
pub fn thin_module_names(fresh: &Vec<String>, cached: &Vec<String>) -> (names: Vec<String>)
    requires
        nul_free(fresh@),
        nul_free(cached@),
    ensures
        string_views(names@) == string_views(fresh@) + string_views(cached@),
{
    let mut names = copy_strings(fresh);
    let ghost base = string_views(names@);
    let mut i: usize = 0;
    while i < cached.len()
        invariant
            i <= cached@.len(),
            base == string_views(fresh@),
            string_views(names@) == base + string_views(cached@).take(i as int),
        decreases cached@.len() - i,
    {
        let ghost before = names@;
        names.push(String::from_str(cached[i].as_str()));
        assert(string_views(names@) =~= string_views(before).push(cached@[i as int]@));
        assert(string_views(cached@).take(i + 1) =~= string_views(cached@).take(i as int).push(
            cached@[i as int]@,
        ));
        i = i + 1;
    }
    assert(string_views(cached@).take(cached@.len() as int) =~= string_views(cached@));
    names
}

/// The linkage the merged module gives a symbol it rewrites.
#[derive(Clone, Copy, Debug, PartialEq, Eq, Structural)]
pub enum Linkage {
    Internal,
    External,
}

/// The linkage a function of the merged module ends with (`None`: left as
/// it is): functions the user marked as used stay external; other defined
/// functions that are not kernels become internal, so that global dead-code
/// elimination can drop them when no kernel reaches them. Rewritten
/// functions get default visibility.
pub open spec fn spec_function_linkage(is_declaration: bool, is_kernel: bool, is_used: bool) -> Option<
    Linkage,
> {
    if is_used {
        Some(Linkage::External)
    } else if !is_declaration && !is_kernel {
        Some(Linkage::Internal)
    } else {
        None
    }
}

/// The linkage a function of the merged module ends with.
pub fn function_linkage(is_declaration: bool, is_kernel: bool, is_used: bool) -> (l: Option<Linkage>)
    ensures
        l == spec_function_linkage(is_declaration, is_kernel, is_used),
{
    let mut l: Option<Linkage> = None;
    if !is_declaration && !is_kernel {
        l = Some(Linkage::Internal);
    }
    if is_used {
        l = Some(Linkage::External);
    }
    l
}

/// The linkage a global variable of the merged module ends with: defined
/// globals become internal, declarations are left alone.
pub fn global_linkage(is_declaration: bool) -> (l: Option<Linkage>)
    ensures
        l == (if is_declaration { None } else { Some(Linkage::Internal) }),
{
    if is_declaration { None } else { Some(Linkage::Internal) }
}

/// The operands of metadata nodes, each an LLVM value by its handle.
pub open spec fn node_views(nodes: Seq<Vec<u64>>) -> Seq<Seq<u64>> {
    nodes.map_values(|n: Vec<u64>| n@)
}

/// The kernels `nvvm.annotations` declares, in order: the first operand of
/// each annotation whose second operand is the `kernel` string.
pub open spec fn spec_annotated_kernels(annotations: Seq<Seq<u64>>, kernel_str: u64) -> Seq<u64>
    decreases annotations.len(),
{
    if annotations.len() == 0 {
        Seq::empty()
    } else {
        let rest = spec_annotated_kernels(annotations.drop_last(), kernel_str);
        let a = annotations.last();
        if a.len() > 1 && a[1] == kernel_str {
            rest.push(a[0])
        } else {
            rest
        }
    }
}

/// The values the user marked as used: the first operand of each
/// `cg_nvvm_used` node.
pub open spec fn spec_used_values(nodes: Seq<Seq<u64>>) -> Seq<u64> {
    nodes.map_values(|n: Seq<u64>| n[0])
}

/// The linkage each function `(handle, is_declaration)` ends with, given the
/// kernels and the used values.
pub open spec fn spec_function_plan(
    functions: Seq<(u64, bool)>,
    kernels: Seq<u64>,
    used: Seq<u64>,
) -> Seq<Option<Linkage>> {
    functions.map_values(
        |f: (u64, bool)| spec_function_linkage(f.1, kernels.contains(f.0), used.contains(f.0)),
    )
}

/// The linkage each global (by whether it is a declaration) ends with.
pub open spec fn spec_global_plan(globals: Seq<bool>) -> Seq<Option<Linkage>> {
    globals.map_values(|d: bool| if d { None } else { Some(Linkage::Internal) })
}

/// What the merged module's internalization does to its functions and
/// globals, in module order (`None`: left as it is).
pub struct InternalizePlan {
    pub functions: Vec<Option<Linkage>>,
    pub globals: Vec<Option<Linkage>>,
}

/// Whether `v` holds `x`.
fn holds(v: &Vec<u64>, x: u64) -> (r: bool)
    ensures
        r == v@.contains(x),
{
    let mut i: usize = 0;
    while i < v.len()
        invariant
            i <= v@.len(),
            forall|k: int| 0 <= k < i ==> v@[k] != x,
        decreases v@.len() - i,
    {
        if v[i] == x {
            return true;
        }
        i = i + 1;
    }
    false
}

/// The kernels the annotations declare.
pub fn annotated_kernels(annotations: &Vec<Vec<u64>>, kernel_str: u64) -> (k: Vec<u64>)
    ensures
        k@ == spec_annotated_kernels(node_views(annotations@), kernel_str),
{
    let mut k: Vec<u64> = Vec::new();
    let ghost views = node_views(annotations@);
    let mut i: usize = 0;
    while i < annotations.len()
        invariant
            i <= annotations@.len(),
            views == node_views(annotations@),
            k@ == spec_annotated_kernels(views.take(i as int), kernel_str),
        decreases annotations@.len() - i,
    {
        assert(views.take(i + 1).drop_last() =~= views.take(i as int));
        assert(views.take(i + 1).last() == annotations@[i as int]@);
        let a = &annotations[i];
        if a.len() > 1 && a[1] == kernel_str {
            k.push(a[0]);
        }
        i = i + 1;
    }
    assert(views.take(annotations@.len() as int) =~= views);
    k
}

/// The values the `cg_nvvm_used` nodes mark; each node has an operand.
pub fn used_values(nodes: &Vec<Vec<u64>>) -> (u: Vec<u64>)
    requires
        forall|i: int| 0 <= i < nodes@.len() ==> nodes@[i]@.len() > 0,
    ensures
        u@ == spec_used_values(node_views(nodes@)),
{
    let mut u: Vec<u64> = Vec::new();
    let mut i: usize = 0;
    while i < nodes.len()
        invariant
            i <= nodes@.len(),
            forall|j: int| 0 <= j < nodes@.len() ==> nodes@[j]@.len() > 0,
            u@ == spec_used_values(node_views(nodes@)).take(i as int),
        decreases nodes@.len() - i,
    {
        u.push(nodes[i][0]);
        i = i + 1;
        assert(u@ =~= spec_used_values(node_views(nodes@)).take(i as int));
    }
    assert(u@ =~= spec_used_values(node_views(nodes@)));
    u
}

/// Plan the merged module's internalization from its kernel annotations, its
/// `cg_nvvm_used` nodes (each with an operand), its functions
/// `(handle, is_declaration)` and its globals (by whether each is a
/// declaration), all in module order.
pub fn internalize_plan(
    annotations: &Vec<Vec<u64>>,
    kernel_str: u64,
    used_nodes: &Vec<Vec<u64>>,
    functions: &Vec<(u64, bool)>,
    globals: &Vec<bool>,
) -> (p: InternalizePlan)
    requires
        forall|i: int| 0 <= i < used_nodes@.len() ==> used_nodes@[i]@.len() > 0,
    ensures
        p.functions@ == spec_function_plan(
            functions@,
            spec_annotated_kernels(node_views(annotations@), kernel_str),
            spec_used_values(node_views(used_nodes@)),
        ),
        p.globals@ == spec_global_plan(globals@),
{
    let kernels = annotated_kernels(annotations, kernel_str);
    let used = used_values(used_nodes);
    let mut fs: Vec<Option<Linkage>> = Vec::new();
    let mut i: usize = 0;
    while i < functions.len()
        invariant
            i <= functions@.len(),
            fs@ == spec_function_plan(functions@, kernels@, used@).take(i as int),
        decreases functions@.len() - i,
    {
        let (handle, is_declaration) = functions[i];
        let is_kernel = holds(&kernels, handle);
        let is_used = holds(&used, handle);
        fs.push(function_linkage(is_declaration, is_kernel, is_used));
        i = i + 1;
        assert(fs@ =~= spec_function_plan(functions@, kernels@, used@).take(i as int));
    }
    assert(fs@ =~= spec_function_plan(functions@, kernels@, used@));
    let mut gs: Vec<Option<Linkage>> = Vec::new();
    let mut j: usize = 0;
    while j < globals.len()
        invariant
            j <= globals@.len(),
            gs@ == spec_global_plan(globals@).take(j as int),
        decreases globals@.len() - j,
    {
        gs.push(global_linkage(globals[j]));
        j = j + 1;
        assert(gs@ =~= spec_global_plan(globals@).take(j as int));
    }
    assert(gs@ =~= spec_global_plan(globals@));
    InternalizePlan { functions: fs, globals: gs }
}

/// Internalization never hides a kernel or a function the user marked as
/// used: those are the entry points that dead-code elimination keeps.
pub proof fn law_kernels_and_used_stay_visible(
    functions: Seq<(u64, bool)>,
    kernels: Seq<u64>,
    used: Seq<u64>,
    i: int,
)
    requires
        0 <= i < functions.len(),
        kernels.contains(functions[i].0) || used.contains(functions[i].0),
    ensures
        spec_function_plan(functions, kernels, used)[i] != Some(Linkage::Internal),
        used.contains(functions[i].0) ==> spec_function_plan(functions, kernels, used)[i] == Some(
            Linkage::External,
        ),
{
}

/// The types an allocator shim's signature is built from.
#[derive(Clone, Copy, Debug, PartialEq, Eq, Structural)]
pub enum AllocatorTy {
    Layout,
    Never,
    Ptr,
    ResultPtr,
    Unit,
    Usize,
}

/// An LLVM parameter or return type of an allocator shim.
#[derive(Clone, Copy, Debug, PartialEq, Eq, Structural)]
pub enum ShimTy {
    /// The pointer-sized integer (`i64` on the 64-bit NVPTX target).
    Usize,
    /// A pointer to `i8`.
    BytePtr,
}

/// The allocator type may stand as a parameter.
pub open spec fn is_input_ty(t: AllocatorTy) -> bool {
    t == AllocatorTy::Layout || t == AllocatorTy::Ptr || t == AllocatorTy::Usize
}

/// The allocator type may stand as the result.
pub open spec fn is_output_ty(t: AllocatorTy) -> bool {
    t == AllocatorTy::ResultPtr || t == AllocatorTy::Never || t == AllocatorTy::Unit
}

/// The LLVM parameters of one allocator input: a layout is passed as size
/// and alignment.
pub open spec fn shim_params(t: AllocatorTy) -> Seq<ShimTy> {
    match t {
        AllocatorTy::Layout => seq![ShimTy::Usize, ShimTy::Usize],
        AllocatorTy::Ptr => seq![ShimTy::BytePtr],
        _ => seq![ShimTy::Usize],
    }
}

/// The LLVM parameters of a shim with these inputs.
pub open spec fn spec_shim_params(inputs: Seq<AllocatorTy>) -> Seq<ShimTy>
    decreases inputs.len(),
{
    if inputs.len() == 0 {
        seq![]
    } else {
        spec_shim_params(inputs.drop_last()) + shim_params(inputs.last())
    }
}

/// An allocator shim's LLVM signature: parameters, the return type (`None`
/// for `void`), and whether it never returns.
pub struct ShimSignature {
    pub params: Vec<ShimTy>,
    pub ret: Option<ShimTy>,
    pub no_return: bool,
}

/// The LLVM signature of the allocator shim with these inputs and output.
pub fn shim_signature(inputs: &Vec<AllocatorTy>, output: AllocatorTy) -> (s: ShimSignature)
    requires
        forall|i: int| 0 <= i < inputs@.len() ==> is_input_ty(#[trigger] inputs@[i]),
        is_output_ty(output),
    ensures
        s.params@ == spec_shim_params(inputs@),
        s.ret == (if output == AllocatorTy::ResultPtr { Some(ShimTy::BytePtr) } else { None }),
        s.no_return == (output == AllocatorTy::Never),
{
    let mut params: Vec<ShimTy> = Vec::new();
    let mut i: usize = 0;
    while i < inputs.len()
        invariant
            i <= inputs@.len(),
            params@ == spec_shim_params(inputs@.take(i as int)),
        decreases inputs@.len() - i,
    {
        proof {
            assert(inputs@.take(i + 1).drop_last() =~= inputs@.take(i as int));
            assert(inputs@.take(i + 1).last() == inputs@[i as int]);
        }
        match inputs[i] {
            AllocatorTy::Layout => {
                params.push(ShimTy::Usize);
                params.push(ShimTy::Usize);
            },
            AllocatorTy::Ptr => {
                params.push(ShimTy::BytePtr);
            },
            _ => {
                params.push(ShimTy::Usize);
            },
        }
        assert(params@ =~= spec_shim_params(inputs@.take(i + 1)));
        i = i + 1;
    }
    assert(inputs@.take(inputs@.len() as int) =~= inputs@);
    let ret = if output == AllocatorTy::ResultPtr { Some(ShimTy::BytePtr) } else { None };
    ShimSignature { params, ret, no_return: output == AllocatorTy::Never }
}

/// libnvvm's IR version `(major, minor)` is one the codegen accepts (libnvvm
/// 2.0, CUDA 12.0, or later); below it, codegen stops with a fatal error.
pub fn ir_version_supported(major: i32, minor: i32) -> (r: bool)
    ensures
        r == (major > 2 || (major == 2 && minor >= 0)),
{
    major > 2 || (major == 2 && minor >= 0)
}

/// What the codegen does after libnvvm has verified the merged program.
pub enum VerifyOutcome {
    /// The program verified: compile it.
    Compile,
    /// Verification failed with the known false rejection of LLVM 19
    /// bitcode: warn with this text and compile anyway.
    WarnAndCompile(String),
    /// The program is malformed: stop with this message.
    Reject(String),
}

/// The message with which a malformed program is rejected.
pub open spec fn spec_reject_message(log: Seq<char>) -> Seq<char> {
    "Malformed NVVM IR program rejected by libnvvm, dumping verifier log:\n\n"@ + log
        + "\n\nIf you plan to submit a bug report please re-run the codegen with `RUSTFLAGS=\"--emit=llvm-ir\" and include the .ll file corresponding to the .o file mentioned in the log"@
}

/// The warning given when the known false rejection is passed over.
pub open spec fn spec_false_negative_warning() -> Seq<char> {
    "libnvvm verification rejected LLVM 19 bitcode with the known legacy-reader message; proceeding to compilation anyway on the llvm19 path"@
}

/// Decide what follows libnvvm's verification of the merged program: compile
/// when it verified; on the LLVM 19 path, when the target uses the modern IR
/// dialect and the verifier log (`log`) is the known false rejection, warn
/// and compile; otherwise reject the program with its log.
pub fn after_verification(verified: bool, llvm19: bool, modern_dialect: bool, log: &str) -> (o: VerifyOutcome)
    ensures
        verified ==> o is Compile,
        !verified && llvm19 && modern_dialect && spec_is_known_verify_false_negative(log@) ==> (o matches VerifyOutcome::WarnAndCompile(w) && w@ == spec_false_negative_warning()),
        !verified && !(llvm19 && modern_dialect && spec_is_known_verify_false_negative(log@)) ==> (o matches VerifyOutcome::Reject(m) && m@ == spec_reject_message(log@)),
{
    if verified {
        return VerifyOutcome::Compile;
    }
    if llvm19 && modern_dialect && is_known_nvvm_verify_false_negative(log) {
        return VerifyOutcome::WarnAndCompile(String::from_str(
            "libnvvm verification rejected LLVM 19 bitcode with the known legacy-reader message; proceeding to compilation anyway on the llvm19 path",
        ));
    }
    let head = concat_str("Malformed NVVM IR program rejected by libnvvm, dumping verifier log:\n\n", log);
    VerifyOutcome::Reject(concat_str(
        head.as_str(),
        "\n\nIf you plan to submit a bug report please re-run the codegen with `RUSTFLAGS=\"--emit=llvm-ir\" and include the .ll file corresponding to the .o file mentioned in the log",
    ))
}

/// Why libnvvm codegen failed: a libnvvm error or an I/O error, by its text.
#[derive(Clone, Debug)]
pub enum CodegenErr {
    Nvvm(String),
    Io(String),
}

impl CodegenErr {
    /// The description of the error: that of the underlying error.
    pub fn message(&self) -> (m: String)
        ensures
            m@ == match *self {
                CodegenErr::Nvvm(s) => s@,
                CodegenErr::Io(s) => s@,
            },
    {
        match self {
            CodegenErr::Nvvm(s) => String::from_str(s.as_str()),
            CodegenErr::Io(s) => String::from_str(s.as_str()),
        }
    }
}

} // verus!
