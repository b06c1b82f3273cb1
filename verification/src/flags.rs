//! Translate builder options into rustc and backend arguments without running tools.

use vstd::prelude::*;
use crate::arch::{NvvmOption, spec_option_arg};
use crate::builder::{CudaBuilder, DebugInfo, EmitOption, LlvmCleanup};
use crate::error::CudaBuilderError;
use crate::path::HostPath;
use crate::text::{
    chars_of, concat_str, join_strings, join_with, lemma_contains_concat, spec_lossy_decode, spec_utf8_decode,
    string_views,
};

verus! {

/// The text a path argument carries, or the message refusing a path that is not UTF-8.
pub open spec fn spec_path_argument(p: Seq<u8>) -> Result<Seq<char>, Seq<char>> {
    match spec_utf8_decode(p) {
        Some(t) => Ok(t),
        None => Err("compiler argument path is not valid UTF-8: "@ + spec_lossy_decode(p)),
    }
}

/// `r` is the `InvalidOption` error with message `m`.
pub open spec fn is_invalid_option(r: CudaBuilderError, m: Seq<char>) -> bool {
    r matches CudaBuilderError::InvalidOption(s) && s@ == m
}

/// A path as a compiler argument: its text, refused unless it is valid UTF-8.
pub fn path_argument(path: &HostPath) -> (r: Result<String, CudaBuilderError>)
    ensures
        match spec_path_argument(path@) {
            Ok(t) => r matches Ok(s) && s@ == t,
            Err(m) => r matches Err(e) && is_invalid_option(e, m),
        },
{
    match path.to_str() {
        Some(s) => Ok(s),
        None => {
            let shown = path.display();
            Err(CudaBuilderError::InvalidOption(
                concat_str("compiler argument path is not valid UTF-8: ", shown.as_str()),
            ))
        },
    }
}

/// `[s]` when `c` holds, else nothing.
pub open spec fn arg_if(c: bool, s: Seq<char>) -> Seq<Seq<char>> {
    if c { seq![s] } else { seq![] }
}

/// The name of a cleanup pipeline in `--llvm-cleanup=`.
pub open spec fn spec_cleanup_name(c: LlvmCleanup) -> Seq<char> {
    match c {
        LlvmCleanup::GlobalDce => "dce"@,
        LlvmCleanup::InlineScalar => "inline-scalar"@,
        LlvmCleanup::Scalar => "scalar"@,
        LlvmCleanup::Inline => "inline"@,
    }
}

/// The `--emit=` value of an emit option.
pub open spec fn spec_emit_name(e: EmitOption) -> Seq<char> {
    match e {
        EmitOption::LlvmIr => "llvm-ir"@,
        EmitOption::Bitcode => "llvm-bc"@,
    }
}

/// The leading backend arguments: the architecture and the merged-module switches.
pub open spec fn spec_llvm_head(b: CudaBuilder) -> Seq<Seq<char>> {
    seq![spec_option_arg(NvvmOption::Arch(b.arch))]
        + arg_if(!b.llvm_global_dce, "--disable-llvm-global-dce"@)
        + arg_if(b.llvm_module_cleanup, "--llvm-module-cleanup"@)
}

/// The cleanup pipeline argument, if one is chosen.
pub open spec fn spec_llvm_cleanup_arg(b: CudaBuilder) -> Seq<Seq<char>> {
    match b.llvm_cleanup {
        Some(c) => seq!["--llvm-cleanup="@ + spec_cleanup_name(c)],
        None => seq![],
    }
}

/// The libnvvm optimization and floating-point arguments.
pub open spec fn spec_llvm_math(b: CudaBuilder) -> Seq<Seq<char>> {
    arg_if(!b.nvvm_opts, spec_option_arg(NvvmOption::NoOpts))
        + arg_if(b.ftz, spec_option_arg(NvvmOption::Ftz))
        + arg_if(b.fast_sqrt, spec_option_arg(NvvmOption::FastSqrt))
        + arg_if(b.fast_div, spec_option_arg(NvvmOption::FastDiv))
        + arg_if(!b.fma_contraction, spec_option_arg(NvvmOption::NoFmaContraction))
}

/// The libm-override and constant-memory arguments.
pub open spec fn spec_llvm_memory(b: CudaBuilder) -> Seq<Seq<char>> {
    arg_if(b.override_libm, "--override-libm"@)
        + arg_if(b.use_constant_memory_space, "--use-constant-memory-space"@)
}

/// The final-module argument pair, given the path's text.
pub open spec fn spec_llvm_final(final_text: Option<Seq<char>>) -> Seq<Seq<char>> {
    match final_text {
        Some(t) => seq!["--final-module-path"@, t],
        None => seq![],
    }
}

/// The arguments handed to the backend through `-Cllvm-args`, given the text
/// of the final-module path when one is set.
pub open spec fn spec_llvm_args(b: CudaBuilder, final_text: Option<Seq<char>>) -> Seq<Seq<char>> {
    spec_llvm_head(b) + spec_llvm_cleanup_arg(b) + spec_llvm_math(b) + spec_llvm_memory(b)
        + spec_llvm_final(final_text)
        + arg_if(spec_wants_line_info(b), spec_option_arg(NvvmOption::GenLineInfo))
}

/// Line information is generated when debug line tables are requested, or
/// when it is asked for and the crate is not built for release.
pub open spec fn spec_wants_line_info(b: CudaBuilder) -> bool {
    b.debug == DebugInfo::LineTables || (b.generate_line_info && !b.release)
}

/// The fixed rustc flags that select the backend and the kernel environment.
pub open spec fn spec_base_flags(backend_text: Seq<char>) -> Seq<Seq<char>> {
    seq![
        "-Zcodegen-backend="@ + backend_text,
        "-Zunstable-options"@,
        "-Zcrate-attr=feature(register_tool)"@,
        "-Zcrate-attr=register_tool(nvvm_internal)"@,
        "-Zcrate-attr=no_std"@,
        "-Zsaturating_float_casts=false"@,
        "-Cpanic=immediate-abort"@,
    ]
}

/// The rustc flags for a kernel build with backend dylib `backend`, or the
/// message of the `InvalidOption` error: the backend path is checked first,
/// then the final-module path.
pub open spec fn spec_rustflags(b: CudaBuilder, backend: Seq<u8>) -> Result<
    Seq<Seq<char>>,
    Seq<char>,
> {
    match spec_path_argument(backend) {
        Err(m) => Err(m),
        Ok(backend_text) => {
            let final_text: Result<Option<Seq<char>>, Seq<char>> = match b.final_module_path {
                Some(p) => match spec_path_argument(p@) {
                    Ok(t) => Ok(Some(t)),
                    Err(m) => Err(m),
                },
                None => Ok(None),
            };
            match final_text {
                Err(m) => Err(m),
                Ok(ft) => Ok(
                    spec_base_flags(backend_text) + (match b.emit {
                        Some(e) => seq!["--emit="@ + spec_emit_name(e)],
                        None => seq![],
                    }) + arg_if(b.debug == DebugInfo::LineTables, "-Cdebuginfo=1"@) + seq![
                        "-Cllvm-args="@ + join_with(spec_llvm_args(b, ft), " "@),
                    ],
                ),
            }
        },
    }
}

fn push_arg(v: &mut Vec<String>, s: String)
    ensures
        string_views(final(v)@) == string_views(old(v)@).push(s@),
{
    let ghost before = v@;
    v.push(s);
    assert(string_views(before.push(s)) =~= string_views(before).push(s@));
}

fn push_arg_if(v: &mut Vec<String>, c: bool, s: &str)
    ensures
        string_views(final(v)@) == string_views(old(v)@) + arg_if(c, s@),
{
    if c {
        push_arg(v, String::from_str(s));
        assert(string_views(old(v)@).push(s@) =~= string_views(old(v)@) + seq![s@]);
    } else {
        assert(string_views(old(v)@) =~= string_views(old(v)@) + Seq::<Seq<char>>::empty());
    }
}

fn cleanup_name(c: LlvmCleanup) -> (s: &'static str)
    ensures
        s@ == spec_cleanup_name(c),
{
    match c {
        LlvmCleanup::GlobalDce => "dce",
        LlvmCleanup::InlineScalar => "inline-scalar",
        LlvmCleanup::Scalar => "scalar",
        LlvmCleanup::Inline => "inline",
    }
}

fn push_llvm_head(v: &mut Vec<String>, b: &CudaBuilder)
    ensures
        string_views(final(v)@) == string_views(old(v)@) + spec_llvm_head(*b),
{
    let ghost g = string_views(v@);
    push_arg(v, NvvmOption::Arch(b.arch).to_string());
    push_arg_if(v, !b.llvm_global_dce, "--disable-llvm-global-dce");
    push_arg_if(v, b.llvm_module_cleanup, "--llvm-module-cleanup");
    assert(string_views(v@) =~= g + spec_llvm_head(*b));
}

fn push_llvm_cleanup(v: &mut Vec<String>, b: &CudaBuilder)
    ensures
        string_views(final(v)@) == string_views(old(v)@) + spec_llvm_cleanup_arg(*b),
{
    let ghost g = string_views(v@);
    match b.llvm_cleanup {
        Some(c) => {
            push_arg(v, concat_str("--llvm-cleanup=", cleanup_name(c)));
        },
        None => {},
    }
    assert(string_views(v@) =~= g + spec_llvm_cleanup_arg(*b));
}

fn push_llvm_math(v: &mut Vec<String>, b: &CudaBuilder)
    ensures
        string_views(final(v)@) == string_views(old(v)@) + spec_llvm_math(*b),
{
    let ghost g = string_views(v@);
    let no_opts = NvvmOption::NoOpts.to_string();
    push_arg_if(v, !b.nvvm_opts, no_opts.as_str());
    let ftz = NvvmOption::Ftz.to_string();
    push_arg_if(v, b.ftz, ftz.as_str());
    let fast_sqrt = NvvmOption::FastSqrt.to_string();
    push_arg_if(v, b.fast_sqrt, fast_sqrt.as_str());
    let fast_div = NvvmOption::FastDiv.to_string();
    push_arg_if(v, b.fast_div, fast_div.as_str());
    let no_fma = NvvmOption::NoFmaContraction.to_string();
    push_arg_if(v, !b.fma_contraction, no_fma.as_str());
    assert(string_views(v@) =~= g + spec_llvm_math(*b));
}

fn push_llvm_memory(v: &mut Vec<String>, b: &CudaBuilder)
    ensures
        string_views(final(v)@) == string_views(old(v)@) + spec_llvm_memory(*b),
{
    let ghost g = string_views(v@);
    push_arg_if(v, b.override_libm, "--override-libm");
    push_arg_if(v, b.use_constant_memory_space, "--use-constant-memory-space");
    assert(string_views(v@) =~= g + spec_llvm_memory(*b));
}

/// The text of an optional string.
pub open spec fn opt_text(t: Option<String>) -> Option<Seq<char>> {
    match t {
        Some(s) => Some(s@),
        None => None,
    }
}

fn push_llvm_final(v: &mut Vec<String>, final_text: &Option<String>)
    ensures
        string_views(final(v)@) == string_views(old(v)@) + spec_llvm_final(opt_text(*final_text)),
{
    let ghost g = string_views(v@);
    match final_text {
        Some(t) => {
            push_arg(v, String::from_str("--final-module-path"));
            push_arg(v, String::from_str(t.as_str()));
        },
        None => {},
    }
    assert(string_views(v@) =~= g + spec_llvm_final(opt_text(*final_text)));
}

fn llvm_args(b: &CudaBuilder, final_text: &Option<String>) -> (v: Vec<String>)
    ensures
        string_views(v@) == spec_llvm_args(*b, opt_text(*final_text)),
{
    let mut v: Vec<String> = Vec::new();
    assert(string_views(v@) =~= Seq::<Seq<char>>::empty());
    push_llvm_head(&mut v, b);
    assert(Seq::<Seq<char>>::empty() + spec_llvm_head(*b) =~= spec_llvm_head(*b));
    push_llvm_cleanup(&mut v, b);
    push_llvm_math(&mut v, b);
    push_llvm_memory(&mut v, b);
    push_llvm_final(&mut v, final_text);
    let line_info = NvvmOption::GenLineInfo.to_string();
    let wants_line_info = b.debug == DebugInfo::LineTables || (b.generate_line_info && !b.release);
    push_arg_if(&mut v, wants_line_info, line_info.as_str());
    v
}

/// The rustc flags for compiling the kernel crate with `backend`.
pub fn rustflags(builder: &CudaBuilder, backend: &HostPath) -> (r: Result<
    Vec<String>,
    CudaBuilderError,
>)
    ensures
        match spec_rustflags(*builder, backend@) {
            Ok(f) => r matches Ok(v) && string_views(v@) == f,
            Err(m) => r matches Err(e) && is_invalid_option(e, m),
        },
{
    let backend_text = match path_argument(backend) {
        Ok(t) => t,
        Err(e) => return Err(e),
    };
    let mut flags: Vec<String> = Vec::new();
    push_arg(&mut flags, concat_str("-Zcodegen-backend=", backend_text.as_str()));
    push_arg(&mut flags, String::from_str("-Zunstable-options"));
    push_arg(&mut flags, String::from_str("-Zcrate-attr=feature(register_tool)"));
    push_arg(&mut flags, String::from_str("-Zcrate-attr=register_tool(nvvm_internal)"));
    push_arg(&mut flags, String::from_str("-Zcrate-attr=no_std"));
    push_arg(&mut flags, String::from_str("-Zsaturating_float_casts=false"));
    push_arg(&mut flags, String::from_str("-Cpanic=immediate-abort"));
    assert(string_views(flags@) =~= spec_base_flags(backend_text@));
    let ghost g0 = string_views(flags@);
    match builder.emit {
        Some(e) => {
            let name: &str = match e {
                EmitOption::LlvmIr => "llvm-ir",
                EmitOption::Bitcode => "llvm-bc",
            };
            push_arg(&mut flags, concat_str("--emit=", name));
            assert(g0.push("--emit="@ + spec_emit_name(e)) =~= g0 + seq![
                "--emit="@ + spec_emit_name(e),
            ]);
        },
        None => {
            assert(g0 =~= g0 + Seq::<Seq<char>>::empty());
        },
    }
    let final_text: Option<String> = match &builder.final_module_path {
        Some(p) => match path_argument(p) {
            Ok(t) => Some(t),
            Err(e) => return Err(e),
        },
        None => None,
    };
    let args = llvm_args(builder, &final_text);
    push_arg_if(&mut flags, builder.debug == DebugInfo::LineTables, "-Cdebuginfo=1");
    let joined = join_strings(&args, " ");
    push_arg(&mut flags, concat_str("-Cllvm-args=", joined.as_str()));
    Ok(flags)
}

/// Cargo's separator between encoded rustc arguments.
pub open spec fn unit_separator() -> char {
    '\x1f'
}

/// `s` holds the unit separator.
pub open spec fn has_separator(s: Seq<char>) -> bool {
    s.contains(unit_separator())
}

/// Index of the first flag that holds the unit separator, or `flags.len()`.
pub open spec fn first_with_separator(flags: Seq<Seq<char>>) -> int
    decreases flags.len(),
{
    if flags.len() == 0 {
        0
    } else if has_separator(flags[0]) {
        0
    } else {
        1 + first_with_separator(flags.drop_first())
    }
}

/// What `format!("{:?}", s)` makes of a text: quoted and escaped.
pub uninterp spec fn spec_text_debug(s: Seq<char>) -> Seq<char>;

/// Calls `format!("{:?}", ..)` on a string: the quoted, escaped rendering is
/// named by `spec_text_debug`.
#[verifier::external_body]
pub(crate) fn text_debug(s: &String) -> (r: String)
    ensures
        r@ == spec_text_debug(s@),
{
    format!("{:?}", s)
}

/// The message refusing a flag that holds the unit separator.
pub open spec fn spec_separator_message(flag: Seq<char>) -> Seq<char> {
    "rustc argument contains Cargo's unit separator: "@ + spec_text_debug(flag)
}

/// The encoding of `flags` for `CARGO_ENCODED_RUSTFLAGS`: the flags joined by
/// the unit separator; `Err` with the first flag that holds a separator.
pub open spec fn spec_encode(flags: Seq<Seq<char>>) -> Result<Seq<char>, Seq<char>> {
    let k = first_with_separator(flags);
    if k < flags.len() {
        Err(spec_separator_message(flags[k]))
    } else {
        Ok(join_with(flags, seq![unit_separator()]))
    }
}

proof fn lemma_first_with_separator(flags: Seq<Seq<char>>)
    ensures
        0 <= first_with_separator(flags) <= flags.len(),
        forall|i: int| 0 <= i < first_with_separator(flags) ==> !has_separator(#[trigger] flags[i]),
        first_with_separator(flags) < flags.len() ==> has_separator(
            flags[first_with_separator(flags)],
        ),
    decreases flags.len(),
{
    if flags.len() > 0 && !has_separator(flags[0]) {
        lemma_first_with_separator(flags.drop_first());
        assert forall|i: int| 0 <= i < first_with_separator(flags) implies !has_separator(
            #[trigger] flags[i],
        ) by {
            if i > 0 {
                assert(flags[i] == flags.drop_first()[i - 1]);
            }
        }
    }
}

proof fn lemma_first_with_separator_is(flags: Seq<Seq<char>>, k: int)
    requires
        0 <= k <= flags.len(),
        forall|i: int| 0 <= i < k ==> !has_separator(#[trigger] flags[i]),
        k < flags.len() ==> has_separator(flags[k]),
    ensures
        first_with_separator(flags) == k,
    decreases flags.len(),
{
    if flags.len() > 0 && k > 0 {
        assert(!has_separator(flags[0]));
        assert forall|i: int| 0 <= i < k - 1 implies !has_separator(
            #[trigger] flags.drop_first()[i],
        ) by {
            assert(flags.drop_first()[i] == flags[i + 1]);
        }
        lemma_first_with_separator_is(flags.drop_first(), k - 1);
    }
}

fn contains_separator(s: &String) -> (r: bool)
    ensures
        r == has_separator(s@),
{
    let cs = chars_of(s.as_str());
    let mut i: usize = 0;
    while i < cs.len()
        invariant
            i <= cs@.len(),
            cs@ == s@,
            forall|k: int| 0 <= k < i ==> cs@[k] != unit_separator(),
        decreases cs@.len() - i,
    {
        if cs[i] == '\x1f' {
            assert(s@[i as int] == unit_separator());
            return true;
        }
        i = i + 1;
    }
    false
}

/// Encode rustc flags for `CARGO_ENCODED_RUSTFLAGS`, refusing any flag that
/// would split into extra arguments.
pub fn encode(flags: &Vec<String>) -> (r: Result<String, CudaBuilderError>)
    ensures
        match spec_encode(string_views(flags@)) {
            Ok(s) => r matches Ok(t) && t@ == s,
            Err(m) => r matches Err(e) && is_invalid_option(e, m),
        },
{
    let ghost views = string_views(flags@);
    let mut i: usize = 0;
    while i < flags.len()
        invariant
            i <= flags@.len(),
            views == string_views(flags@),
            forall|k: int| 0 <= k < i ==> !has_separator(#[trigger] views[k]),
        decreases flags@.len() - i,
    {
        if contains_separator(&flags[i]) {
            proof {
                lemma_first_with_separator_is(views, i as int);
            }
            let shown = text_debug(&flags[i]);
            return Err(CudaBuilderError::InvalidOption(
                concat_str("rustc argument contains Cargo's unit separator: ", shown.as_str()),
            ));
        }
        i = i + 1;
    }
    proof {
        lemma_first_with_separator_is(views, views.len() as int);
        reveal_strlit("\x1f");
        assert("\x1f"@ =~= seq![unit_separator()]);
    }
    Ok(join_strings(flags, "\x1f"))
}

/// The pieces of `s[..seg_end]` between occurrences of `c`, scanning back from `e`.
pub open spec fn split_from(s: Seq<char>, c: char, e: int, seg_end: int) -> Seq<Seq<char>>
    decreases e,
{
    if e <= 0 {
        seq![s.subrange(0, seg_end)]
    } else if s[e - 1] == c {
        split_from(s, c, e - 1, e - 1).push(s.subrange(e, seg_end))
    } else {
        split_from(s, c, e - 1, seg_end)
    }
}

/// `s` split at every `c`, as `str::split` does (always at least one piece).
pub open spec fn split_on(s: Seq<char>, c: char) -> Seq<Seq<char>> {
    split_from(s, c, s.len() as int, s.len() as int)
}

proof fn lemma_split_skip(s: Seq<char>, c: char, lo: int, e: int, se: int)
    requires
        0 <= lo <= e <= se <= s.len(),
        forall|k: int| lo <= k < e ==> s[k] != c,
    ensures
        split_from(s, c, e, se) == split_from(s, c, lo, se),
    decreases e,
{
    if e > lo {
        lemma_split_skip(s, c, lo, e - 1, se);
    }
}

proof fn lemma_split_prefix(s: Seq<char>, c: char, m: int, e: int, se: int)
    requires
        0 <= e <= se <= m <= s.len(),
    ensures
        split_from(s, c, e, se) == split_from(s.subrange(0, m), c, e, se),
    decreases e,
{
    let t = s.subrange(0, m);
    if e <= 0 {
        assert(s.subrange(0, se) =~= t.subrange(0, se));
    } else {
        assert(t[e - 1] == s[e - 1]);
        if s[e - 1] == c {
            lemma_split_prefix(s, c, m, e - 1, e - 1);
            assert(s.subrange(e, se) =~= t.subrange(e, se));
        } else {
            lemma_split_prefix(s, c, m, e - 1, se);
        }
    }
}

proof fn lemma_split_join(parts: Seq<Seq<char>>, c: char)
    requires
        parts.len() > 0,
        forall|i: int| 0 <= i < parts.len() ==> !(#[trigger] parts[i]).contains(c),
    ensures
        split_on(join_with(parts, seq![c]), c) == parts,
    decreases parts.len(),
{
    let j = join_with(parts, seq![c]);
    if parts.len() == 1 {
        assert(j == parts[0]);
        assert forall|k: int| 0 <= k < j.len() implies j[k] != c by {
            if j[k] == c {
                assert(parts[0].contains(c));
            }
        }
        lemma_split_skip(j, c, 0, j.len() as int, j.len() as int);
        assert(j.subrange(0, j.len() as int) =~= j);
        assert(seq![j] =~= parts);
    } else {
        let init = parts.drop_last();
        let last = parts.last();
        let ji = join_with(init, seq![c]);
        assert forall|i: int| 0 <= i < init.len() implies !(#[trigger] init[i]).contains(c) by {
            assert(init[i] == parts[i]);
        }
        lemma_split_join(init, c);
        assert(!parts[parts.len() - 1].contains(c));
        let l = ji.len() as int;
        assert(j == ji + seq![c] + last);
        assert forall|k: int| l + 1 <= k < j.len() implies j[k] != c by {
            if j[k] == c {
                assert(last[k - l - 1] == j[k]);
                assert(last.contains(c));
            }
        }
        lemma_split_skip(j, c, l + 1, j.len() as int, j.len() as int);
        assert(j[l] == c);
        assert(j.subrange(l + 1, j.len() as int) =~= last);
        lemma_split_prefix(j, c, l, l, l);
        assert(j.subrange(0, l) =~= ji);
        assert(split_on(j, c) =~= split_on(ji, c).push(last));
        assert(init.push(last) =~= parts);
    }
}

/// Encoding never fails on flags free of the unit separator, and splitting
/// the encoding at the separator gives back exactly the flags (for any
/// non-empty list of flags; an empty list encodes to the empty string, which
/// splits into one empty flag).
pub proof fn law_encoded_flags_split_back(flags: Seq<Seq<char>>)
    requires
        flags.len() > 0,
        forall|i: int| 0 <= i < flags.len() ==> !has_separator(#[trigger] flags[i]),
    ensures
        spec_encode(flags) == Ok::<Seq<char>, Seq<char>>(join_with(flags, seq![unit_separator()])),
        split_on(join_with(flags, seq![unit_separator()]), unit_separator()) == flags,
{
    lemma_first_with_separator_is(flags, flags.len() as int);
    lemma_split_join(flags, unit_separator());
}

/// Encoding fails exactly when some flag holds the unit separator, and then
/// names the first such flag.
pub proof fn law_encode_refuses_separator(flags: Seq<Seq<char>>)
    ensures
        spec_encode(flags) is Err <==> exists|i: int| 0 <= i < flags.len() && has_separator(
            #[trigger] flags[i],
        ),
        spec_encode(flags) is Err ==> spec_encode(flags) == Err::<Seq<char>, Seq<char>>(
            spec_separator_message(flags[first_with_separator(flags)]),
        ),
{
    lemma_first_with_separator(flags);
}

} // verus!

verus! {

/// The text of the final-module path, when one is set and it is valid UTF-8.
pub open spec fn final_text(b: CudaBuilder) -> Option<Seq<char>> {
    match b.final_module_path {
        Some(p) => spec_utf8_decode(p@),
        None => None,
    }
}

/// `y` is spelled like a switch (`--...`), the architecture (`-a...`) or the
/// line-information option (`-g...`).
pub open spec fn switch_like(y: Seq<char>) -> bool {
    y.len() >= 2 && (y[1] == '-' || y[1] == 'a' || y[1] == 'g')
}

/// The libnvvm math options' spellings.
pub open spec fn is_math_spelling(x: Seq<char>) -> bool {
    x == "-opt=0"@ || x == "-ftz=1"@ || x == "-prec-sqrt=0"@ || x == "-prec-div=0"@ || x == "-fma=0"@
}

proof fn lemma_math_spellings_not_switch_like(x: Seq<char>)
    requires
        is_math_spelling(x),
    ensures
        !switch_like(x),
{
    reveal_strlit("-opt=0");
    reveal_strlit("-ftz=1");
    reveal_strlit("-prec-sqrt=0");
    reveal_strlit("-prec-div=0");
    reveal_strlit("-fma=0");
}

proof fn lemma_not_held(s: Seq<Seq<char>>, x: Seq<char>)
    requires
        forall|i: int| 0 <= i < s.len() ==> switch_like(#[trigger] s[i]),
        !switch_like(x),
    ensures
        !s.contains(x),
{
    if s.contains(x) {
        let k = choose|k: int| 0 <= k < s.len() && s[k] == x;
        assert(switch_like(s[k]));
    }
}

proof fn lemma_arg_if_contains(c: bool, s: Seq<char>, x: Seq<char>)
    ensures
        arg_if(c, s).contains(x) <==> (c && s == x),
{
    if c {
        assert(arg_if(c, s)[0] == s);
    }
}

proof fn lemma_switch_parts(b: CudaBuilder)
    ensures
        forall|i: int| 0 <= i < spec_llvm_head(b).len() ==> switch_like(#[trigger] spec_llvm_head(b)[i]),
        forall|i: int|
            0 <= i < spec_llvm_cleanup_arg(b).len() ==> switch_like(#[trigger] spec_llvm_cleanup_arg(b)[i]),
        forall|i: int| 0 <= i < spec_llvm_memory(b).len() ==> switch_like(#[trigger] spec_llvm_memory(b)[i]),
        forall|i: int|
            0 <= i < arg_if(spec_wants_line_info(b), spec_option_arg(NvvmOption::GenLineInfo)).len()
                ==> switch_like(
                #[trigger] arg_if(spec_wants_line_info(b), spec_option_arg(NvvmOption::GenLineInfo))[i],
            ),
        switch_like("--final-module-path"@),
{
    reveal_strlit("-arch=");
    reveal_strlit("--disable-llvm-global-dce");
    reveal_strlit("--llvm-module-cleanup");
    reveal_strlit("--llvm-cleanup=");
    reveal_strlit("--override-libm");
    reveal_strlit("--use-constant-memory-space");
    reveal_strlit("-generate-line-info");
    reveal_strlit("--final-module-path");
    let a = spec_option_arg(NvvmOption::Arch(b.arch));
    assert(a[1] == 'a' && a.len() >= 2);
    match b.llvm_cleanup {
        Some(c) => {
            let s = "--llvm-cleanup="@ + spec_cleanup_name(c);
            assert(s[1] == '-' && s.len() >= 2);
        },
        None => {},
    }
}

proof fn lemma_math_part(b: CudaBuilder, x: Seq<char>)
    ensures
        spec_llvm_math(b).contains(x) <==> ((x == "-opt=0"@ && !b.nvvm_opts) || (x == "-ftz=1"@ && b.ftz)
            || (x == "-prec-sqrt=0"@ && b.fast_sqrt) || (x == "-prec-div=0"@ && b.fast_div) || (x
            == "-fma=0"@ && !b.fma_contraction)),
{
    let m1 = arg_if(!b.nvvm_opts, spec_option_arg(NvvmOption::NoOpts));
    let m2 = arg_if(b.ftz, spec_option_arg(NvvmOption::Ftz));
    let m3 = arg_if(b.fast_sqrt, spec_option_arg(NvvmOption::FastSqrt));
    let m4 = arg_if(b.fast_div, spec_option_arg(NvvmOption::FastDiv));
    let m5 = arg_if(!b.fma_contraction, spec_option_arg(NvvmOption::NoFmaContraction));
    lemma_arg_if_contains(!b.nvvm_opts, spec_option_arg(NvvmOption::NoOpts), x);
    lemma_arg_if_contains(b.ftz, spec_option_arg(NvvmOption::Ftz), x);
    lemma_arg_if_contains(b.fast_sqrt, spec_option_arg(NvvmOption::FastSqrt), x);
    lemma_arg_if_contains(b.fast_div, spec_option_arg(NvvmOption::FastDiv), x);
    lemma_arg_if_contains(!b.fma_contraction, spec_option_arg(NvvmOption::NoFmaContraction), x);
    lemma_contains_concat(m1, m2, x);
    lemma_contains_concat(m1 + m2, m3, x);
    lemma_contains_concat(m1 + m2 + m3, m4, x);
    lemma_contains_concat(m1 + m2 + m3 + m4, m5, x);
}

proof fn lemma_only_math_part(b: CudaBuilder, ft: Option<Seq<char>>, x: Seq<char>)
    requires
        !switch_like(x),
        ft matches Some(t) ==> t != x,
    ensures
        spec_llvm_args(b, ft).contains(x) <==> spec_llvm_math(b).contains(x),
{
    lemma_switch_parts(b);
    let head = spec_llvm_head(b);
    let cl = spec_llvm_cleanup_arg(b);
    let math = spec_llvm_math(b);
    let mem = spec_llvm_memory(b);
    let fin = spec_llvm_final(ft);
    let line = arg_if(spec_wants_line_info(b), spec_option_arg(NvvmOption::GenLineInfo));
    lemma_not_held(head, x);
    lemma_not_held(cl, x);
    lemma_not_held(mem, x);
    lemma_not_held(line, x);
    match ft {
        Some(t) => {
            assert(fin[0] == "--final-module-path"@ && fin[1] == t && fin.len() == 2);
            if fin.contains(x) {
                let k = choose|k: int| 0 <= k < fin.len() && fin[k] == x;
                assert(k == 0 || k == 1);
            }
        },
        None => {},
    }
    lemma_contains_concat(head, cl, x);
    lemma_contains_concat(head + cl, math, x);
    lemma_contains_concat(head + cl + math, mem, x);
    lemma_contains_concat(head + cl + math + mem, fin, x);
    lemma_contains_concat(head + cl + math + mem + fin, line, x);
}

proof fn lemma_math_membership(b: CudaBuilder, ft: Option<Seq<char>>, x: Seq<char>)
    requires
        is_math_spelling(x),
        ft matches Some(t) ==> !is_math_spelling(t),
    ensures
        spec_llvm_args(b, ft).contains(x) <==> ((x == "-opt=0"@ && !b.nvvm_opts) || (x == "-ftz=1"@ && b.ftz)
            || (x == "-prec-sqrt=0"@ && b.fast_sqrt) || (x == "-prec-div=0"@ && b.fast_div) || (x
            == "-fma=0"@ && !b.fma_contraction)),
{
    lemma_math_spellings_not_switch_like(x);
    lemma_only_math_part(b, ft, x);
    lemma_math_part(b, x);
}

/// Each libnvvm math argument of the `-Cllvm-args` flag is there exactly when
/// its own option asks for it, whatever the other options: `-opt=0` when
/// libnvvm optimizations are off, `-ftz=1` when flushing to zero,
/// `-prec-sqrt=0` for fast square roots, `-prec-div=0` for fast division and
/// `-fma=0` when FMA contraction is off. (A final-module path spelled like
/// one of these arguments is left out.)
pub proof fn law_math_arguments_follow_their_options(b: CudaBuilder, backend: Seq<u8>)
    requires
        spec_rustflags(b, backend) is Ok,
        final_text(b) matches Some(t) ==> !is_math_spelling(t),
    ensures
        spec_rustflags(b, backend)->Ok_0.last() == "-Cllvm-args="@ + join_with(
            spec_llvm_args(b, final_text(b)),
            " "@,
        ),
        spec_llvm_args(b, final_text(b)).contains("-opt=0"@) <==> !b.nvvm_opts,
        spec_llvm_args(b, final_text(b)).contains("-ftz=1"@) <==> b.ftz,
        spec_llvm_args(b, final_text(b)).contains("-prec-sqrt=0"@) <==> b.fast_sqrt,
        spec_llvm_args(b, final_text(b)).contains("-prec-div=0"@) <==> b.fast_div,
        spec_llvm_args(b, final_text(b)).contains("-fma=0"@) <==> !b.fma_contraction,
{
    reveal_strlit("-opt=0");
    reveal_strlit("-ftz=1");
    reveal_strlit("-prec-sqrt=0");
    reveal_strlit("-prec-div=0");
    reveal_strlit("-fma=0");
    let ft = final_text(b);
    assert("-opt=0"@[1] != "-ftz=1"@[1] && "-opt=0"@[1] != "-fma=0"@[1] && "-ftz=1"@[2] != "-fma=0"@[2]);
    assert("-opt=0"@.len() != "-prec-div=0"@.len() && "-prec-sqrt=0"@.len() != "-prec-div=0"@.len());
    assert("-opt=0"@.len() != "-prec-sqrt=0"@.len());
    lemma_math_membership(b, ft, "-opt=0"@);
    lemma_math_membership(b, ft, "-ftz=1"@);
    lemma_math_membership(b, ft, "-prec-sqrt=0"@);
    lemma_math_membership(b, ft, "-prec-div=0"@);
    lemma_math_membership(b, ft, "-fma=0"@);
    assert(is_math_spelling("-opt=0"@) && is_math_spelling("-ftz=1"@) && is_math_spelling(
        "-prec-sqrt=0"@,
    ) && is_math_spelling("-prec-div=0"@) && is_math_spelling("-fma=0"@));
    match b.final_module_path {
        Some(p) => {
            assert(spec_path_argument(p@) == Ok::<Seq<char>, Seq<char>>(spec_utf8_decode(p@)->0));
        },
        None => {},
    }
}

} // verus!

verus! {

/// The spellings of the backend switches that follow builder options.
pub open spec fn is_switch_spelling(x: Seq<char>) -> bool {
    x == "--disable-llvm-global-dce"@ || x == "--llvm-module-cleanup"@ || x == "--override-libm"@ || x
        == "--use-constant-memory-space"@ || x == "-generate-line-info"@
}

proof fn lemma_switch_facts(x: Seq<char>)
    requires
        is_switch_spelling(x),
    ensures
        x.len() >= 8,
        x[1] == '-' || x[1] == 'g',
        x[1] == '-' ==> x[7] != 'c',
        !is_math_spelling(x),
        x != "--final-module-path"@,
{
    reveal_strlit("--disable-llvm-global-dce");
    reveal_strlit("--llvm-module-cleanup");
    reveal_strlit("--override-libm");
    reveal_strlit("--use-constant-memory-space");
    reveal_strlit("-generate-line-info");
    reveal_strlit("--final-module-path");
    reveal_strlit("-opt=0");
    reveal_strlit("-ftz=1");
    reveal_strlit("-prec-sqrt=0");
    reveal_strlit("-prec-div=0");
    reveal_strlit("-fma=0");
    if x == "-generate-line-info"@ {
        assert(x[1] != "--final-module-path"@[1]);
    } else {
        assert(x.len() != "--final-module-path"@.len());
    }
}

proof fn lemma_switch_membership(b: CudaBuilder, ft: Option<Seq<char>>, x: Seq<char>)
    requires
        is_switch_spelling(x),
        ft matches Some(t) ==> t != x,
    ensures
        spec_llvm_args(b, ft).contains(x) <==> ((x == "--disable-llvm-global-dce"@ && !b.llvm_global_dce) || (
        x == "--llvm-module-cleanup"@ && b.llvm_module_cleanup) || (x == "--override-libm"@
            && b.override_libm) || (x == "--use-constant-memory-space"@ && b.use_constant_memory_space) || (x
            == "-generate-line-info"@ && spec_wants_line_info(b))),
{
    lemma_switch_facts(x);
    reveal_strlit("-arch=");
    reveal_strlit("--llvm-cleanup=");
    reveal_strlit("-generate-line-info");
    let arch = seq![spec_option_arg(NvvmOption::Arch(b.arch))];
    let h1 = arg_if(!b.llvm_global_dce, "--disable-llvm-global-dce"@);
    let h2 = arg_if(b.llvm_module_cleanup, "--llvm-module-cleanup"@);
    let cl = spec_llvm_cleanup_arg(b);
    let math = spec_llvm_math(b);
    let o1 = arg_if(b.override_libm, "--override-libm"@);
    let o2 = arg_if(b.use_constant_memory_space, "--use-constant-memory-space"@);
    let fin = spec_llvm_final(ft);
    let line = arg_if(spec_wants_line_info(b), spec_option_arg(NvvmOption::GenLineInfo));
    assert(arch[0][1] == 'a');
    assert(!arch.contains(x)) by {
        if arch.contains(x) {
            let k = choose|k: int| 0 <= k < arch.len() && arch[k] == x;
            assert(k == 0);
        }
    }
    assert(!cl.contains(x)) by {
        if cl.contains(x) {
            let k = choose|k: int| 0 <= k < cl.len() && cl[k] == x;
            let c = b.llvm_cleanup->0;
            assert(cl[0] == "--llvm-cleanup="@ + spec_cleanup_name(c));
            assert(cl[0][1] == '-' && cl[0][7] == 'c');
        }
    }
    lemma_math_part(b, x);
    assert(!fin.contains(x)) by {
        if fin.contains(x) {
            let k = choose|k: int| 0 <= k < fin.len() && fin[k] == x;
            assert(fin[0] == "--final-module-path"@);
        }
    }
    lemma_arg_if_contains(!b.llvm_global_dce, "--disable-llvm-global-dce"@, x);
    lemma_arg_if_contains(b.llvm_module_cleanup, "--llvm-module-cleanup"@, x);
    lemma_arg_if_contains(b.override_libm, "--override-libm"@, x);
    lemma_arg_if_contains(b.use_constant_memory_space, "--use-constant-memory-space"@, x);
    lemma_arg_if_contains(spec_wants_line_info(b), spec_option_arg(NvvmOption::GenLineInfo), x);
    lemma_contains_concat(arch, h1, x);
    lemma_contains_concat(arch + h1, h2, x);
    lemma_contains_concat(o1, o2, x);
    let head = spec_llvm_head(b);
    let mem = spec_llvm_memory(b);
    lemma_contains_concat(head, cl, x);
    lemma_contains_concat(head + cl, math, x);
    lemma_contains_concat(head + cl + math, mem, x);
    lemma_contains_concat(head + cl + math + mem, fin, x);
    lemma_contains_concat(head + cl + math + mem + fin, line, x);
}

/// Each backend switch of the `-Cllvm-args` flag is there exactly when its
/// own option asks for it: `--disable-llvm-global-dce` when merged-module
/// dead-code elimination is off, `--llvm-module-cleanup` when per-module
/// cleanup is on, `--override-libm` when libm calls are replaced,
/// `--use-constant-memory-space` when statics go to constant memory, and
/// `-generate-line-info` when debug line tables are on or line information
/// is asked for outside a release build. (A final-module path spelled like
/// one of these switches is left out.)
pub proof fn law_switches_follow_their_options(b: CudaBuilder, backend: Seq<u8>)
    requires
        spec_rustflags(b, backend) is Ok,
        final_text(b) matches Some(t) ==> !is_switch_spelling(t),
    ensures
        spec_rustflags(b, backend)->Ok_0.last() == "-Cllvm-args="@ + join_with(
            spec_llvm_args(b, final_text(b)),
            " "@,
        ),
        spec_llvm_args(b, final_text(b)).contains("--disable-llvm-global-dce"@) <==> !b.llvm_global_dce,
        spec_llvm_args(b, final_text(b)).contains("--llvm-module-cleanup"@) <==> b.llvm_module_cleanup,
        spec_llvm_args(b, final_text(b)).contains("--override-libm"@) <==> b.override_libm,
        spec_llvm_args(b, final_text(b)).contains("--use-constant-memory-space"@)
            <==> b.use_constant_memory_space,
        spec_llvm_args(b, final_text(b)).contains("-generate-line-info"@) <==> (b.debug
            == DebugInfo::LineTables || (b.generate_line_info && !b.release)),
{
    reveal_strlit("--disable-llvm-global-dce");
    reveal_strlit("--llvm-module-cleanup");
    reveal_strlit("--override-libm");
    reveal_strlit("--use-constant-memory-space");
    reveal_strlit("-generate-line-info");
    let ft = final_text(b);
    assert("--disable-llvm-global-dce"@.len() == 25 && "--llvm-module-cleanup"@.len() == 21
        && "--override-libm"@.len() == 15 && "--use-constant-memory-space"@.len() == 27
        && "-generate-line-info"@.len() == 19);
    assert(is_switch_spelling("--disable-llvm-global-dce"@) && is_switch_spelling("--llvm-module-cleanup"@)
        && is_switch_spelling("--override-libm"@) && is_switch_spelling("--use-constant-memory-space"@)
        && is_switch_spelling("-generate-line-info"@));
    lemma_switch_membership(b, ft, "--disable-llvm-global-dce"@);
    lemma_switch_membership(b, ft, "--llvm-module-cleanup"@);
    lemma_switch_membership(b, ft, "--override-libm"@);
    lemma_switch_membership(b, ft, "--use-constant-memory-space"@);
    lemma_switch_membership(b, ft, "-generate-line-info"@);
    match b.final_module_path {
        Some(p) => {
            assert(spec_path_argument(p@) == Ok::<Seq<char>, Seq<char>>(spec_utf8_decode(p@)->0));
        },
        None => {},
    }
}

} // verus!

verus! {

proof fn lemma_rustc_flag_membership(b: CudaBuilder, backend: Seq<u8>, x: Seq<char>)
    requires
        spec_rustflags(b, backend) is Ok,
        x == "-Cdebuginfo=1"@ || x == "--emit=llvm-ir"@ || x == "--emit=llvm-bc"@,
    ensures
        spec_rustflags(b, backend)->Ok_0.contains(x) <==> ((x == "-Cdebuginfo=1"@ && b.debug
            == DebugInfo::LineTables) || (x == "--emit=llvm-ir"@ && b.emit == Some(EmitOption::LlvmIr)) || (x
            == "--emit=llvm-bc"@ && b.emit == Some(EmitOption::Bitcode))),
{
    reveal_strlit("-Zcodegen-backend=");
    reveal_strlit("-Zunstable-options");
    reveal_strlit("-Zcrate-attr=feature(register_tool)");
    reveal_strlit("-Zcrate-attr=register_tool(nvvm_internal)");
    reveal_strlit("-Zcrate-attr=no_std");
    reveal_strlit("-Zsaturating_float_casts=false");
    reveal_strlit("-Cpanic=immediate-abort");
    reveal_strlit("-Cdebuginfo=1");
    reveal_strlit("--emit=");
    reveal_strlit("--emit=llvm-ir");
    reveal_strlit("--emit=llvm-bc");
    reveal_strlit("llvm-ir");
    reveal_strlit("llvm-bc");
    reveal_strlit("-Cllvm-args=");
    let backend_text = spec_path_argument(backend)->Ok_0;
    let ft = final_text(b);
    match b.final_module_path {
        Some(p) => {
            assert(spec_path_argument(p@) == Ok::<Seq<char>, Seq<char>>(spec_utf8_decode(p@)->0));
        },
        None => {},
    }
    let base = spec_base_flags(backend_text);
    let em: Seq<Seq<char>> = match b.emit {
        Some(e) => seq!["--emit="@ + spec_emit_name(e)],
        None => seq![],
    };
    let dbg = arg_if(b.debug == DebugInfo::LineTables, "-Cdebuginfo=1"@);
    let last = seq!["-Cllvm-args="@ + join_with(spec_llvm_args(b, ft), " "@)];
    assert(spec_rustflags(b, backend)->Ok_0 == base + em + dbg + last);
    assert(x.len() >= 3);
    assert(!base.contains(x)) by {
        if base.contains(x) {
            let k = choose|k: int| 0 <= k < base.len() && base[k] == x;
            assert(base[0][1] == 'Z');
            assert(base[0][1] != x[1] || base[0].len() != x.len());
            assert(k != 0);
            assert(base[k].len() != x.len() || base[k][1] != x[1]);
        }
    }
    assert(!last.contains(x)) by {
        if last.contains(x) {
            assert(last[0][2] == 'l');
            assert(last[0] == x);
        }
    }
    assert(em.contains(x) <==> ((x == "--emit=llvm-ir"@ && b.emit == Some(EmitOption::LlvmIr)) || (x
        == "--emit=llvm-bc"@ && b.emit == Some(EmitOption::Bitcode)))) by {
        match b.emit {
            Some(e) => {
                assert(em[0] == "--emit="@ + spec_emit_name(e));
                assert(em[0] =~= (if e == EmitOption::LlvmIr { "--emit=llvm-ir"@ } else { "--emit=llvm-bc"@ }));
                assert("--emit=llvm-ir"@[13] != "--emit=llvm-bc"@[13]);
                assert("-Cdebuginfo=1"@[1] != "--emit=llvm-ir"@[1]);
                if em.contains(x) {
                    let k = choose|k: int| 0 <= k < em.len() && em[k] == x;
                    assert(k == 0);
                }
            },
            None => {},
        }
    }
    lemma_arg_if_contains(b.debug == DebugInfo::LineTables, "-Cdebuginfo=1"@, x);
    assert("-Cdebuginfo=1"@[1] != "--emit=llvm-ir"@[1] && "-Cdebuginfo=1"@[1] != "--emit=llvm-bc"@[1]);
    lemma_contains_concat(base, em, x);
    lemma_contains_concat(base + em, dbg, x);
    lemma_contains_concat(base + em + dbg, last, x);
}

/// The rustc flags ask for debug information (`-Cdebuginfo=1`) exactly when
/// debug line tables are on, and emit LLVM IR (`--emit=llvm-ir`) or bitcode
/// (`--emit=llvm-bc`) exactly when that representation is asked for.
pub proof fn law_debug_and_emit_flags_follow_their_options(b: CudaBuilder, backend: Seq<u8>)
    requires
        spec_rustflags(b, backend) is Ok,
    ensures
        spec_rustflags(b, backend)->Ok_0.contains("-Cdebuginfo=1"@) <==> b.debug == DebugInfo::LineTables,
        spec_rustflags(b, backend)->Ok_0.contains("--emit=llvm-ir"@) <==> b.emit == Some(EmitOption::LlvmIr),
        spec_rustflags(b, backend)->Ok_0.contains("--emit=llvm-bc"@) <==> b.emit == Some(EmitOption::Bitcode),
{
    reveal_strlit("-Cdebuginfo=1");
    reveal_strlit("--emit=llvm-ir");
    reveal_strlit("--emit=llvm-bc");
    assert("-Cdebuginfo=1"@.len() != "--emit=llvm-ir"@.len() && "--emit=llvm-ir"@[13] != "--emit=llvm-bc"@[13]);
    lemma_rustc_flag_membership(b, backend, "-Cdebuginfo=1"@);
    lemma_rustc_flag_membership(b, backend, "--emit=llvm-ir"@);
    lemma_rustc_flag_membership(b, backend, "--emit=llvm-bc"@);
}

} // verus!
