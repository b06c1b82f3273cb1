//! NVVM compute architectures and the libnvvm options the builder passes on.

use vstd::prelude::*;
use crate::path::HostPath;
use crate::text::{chars_of, seq_contains, str_contains};

verus! {

/// A virtual compute architecture for PTX generation. Suffix `f` marks
/// family-specific and `a` architecture-specific variants.
#[derive(Clone, Copy, Debug, PartialEq, Eq, Structural)]
pub enum NvvmArch {
    Compute35,
    Compute37,
    Compute50,
    Compute52,
    Compute53,
    Compute60,
    Compute61,
    Compute62,
    Compute70,
    Compute72,
    Compute75,
    Compute80,
    Compute86,
    Compute87,
    Compute89,
    Compute90,
    Compute90a,
    Compute100,
    Compute100f,
    Compute100a,
    Compute101,
    Compute101f,
    Compute101a,
    Compute103,
    Compute103f,
    Compute103a,
    Compute120,
    Compute120f,
    Compute120a,
    Compute121,
    Compute121f,
    Compute121a,
}

/// The architecture's name as libnvvm and `target_feature` spell it.
pub open spec fn spec_arch_name(a: NvvmArch) -> Seq<char> {
    match a {
        NvvmArch::Compute35 => "compute_35"@,
        NvvmArch::Compute37 => "compute_37"@,
        NvvmArch::Compute50 => "compute_50"@,
        NvvmArch::Compute52 => "compute_52"@,
        NvvmArch::Compute53 => "compute_53"@,
        NvvmArch::Compute60 => "compute_60"@,
        NvvmArch::Compute61 => "compute_61"@,
        NvvmArch::Compute62 => "compute_62"@,
        NvvmArch::Compute70 => "compute_70"@,
        NvvmArch::Compute72 => "compute_72"@,
        NvvmArch::Compute75 => "compute_75"@,
        NvvmArch::Compute80 => "compute_80"@,
        NvvmArch::Compute86 => "compute_86"@,
        NvvmArch::Compute87 => "compute_87"@,
        NvvmArch::Compute89 => "compute_89"@,
        NvvmArch::Compute90 => "compute_90"@,
        NvvmArch::Compute90a => "compute_90a"@,
        NvvmArch::Compute100 => "compute_100"@,
        NvvmArch::Compute100f => "compute_100f"@,
        NvvmArch::Compute100a => "compute_100a"@,
        NvvmArch::Compute101 => "compute_101"@,
        NvvmArch::Compute101f => "compute_101f"@,
        NvvmArch::Compute101a => "compute_101a"@,
        NvvmArch::Compute103 => "compute_103"@,
        NvvmArch::Compute103f => "compute_103f"@,
        NvvmArch::Compute103a => "compute_103a"@,
        NvvmArch::Compute120 => "compute_120"@,
        NvvmArch::Compute120f => "compute_120f"@,
        NvvmArch::Compute120a => "compute_120a"@,
        NvvmArch::Compute121 => "compute_121"@,
        NvvmArch::Compute121f => "compute_121f"@,
        NvvmArch::Compute121a => "compute_121a"@,
    }
}

/// The architecture used when none is chosen.
pub open spec fn spec_default_arch() -> NvvmArch {
    NvvmArch::Compute75
}

impl NvvmArch {
    /// The architecture used when none is chosen: `compute_75`.
    pub fn default() -> (a: NvvmArch)
        ensures
            a == spec_default_arch(),
    {
        NvvmArch::Compute75
    }

    /// The name of this architecture, e.g. `compute_70`.
    pub fn target_feature(&self) -> (s: &'static str)
        ensures
            s@ == spec_arch_name(*self),
    {
        match self {
            NvvmArch::Compute35 => "compute_35",
            NvvmArch::Compute37 => "compute_37",
            NvvmArch::Compute50 => "compute_50",
            NvvmArch::Compute52 => "compute_52",
            NvvmArch::Compute53 => "compute_53",
            NvvmArch::Compute60 => "compute_60",
            NvvmArch::Compute61 => "compute_61",
            NvvmArch::Compute62 => "compute_62",
            NvvmArch::Compute70 => "compute_70",
            NvvmArch::Compute72 => "compute_72",
            NvvmArch::Compute75 => "compute_75",
            NvvmArch::Compute80 => "compute_80",
            NvvmArch::Compute86 => "compute_86",
            NvvmArch::Compute87 => "compute_87",
            NvvmArch::Compute89 => "compute_89",
            NvvmArch::Compute90 => "compute_90",
            NvvmArch::Compute90a => "compute_90a",
            NvvmArch::Compute100 => "compute_100",
            NvvmArch::Compute100f => "compute_100f",
            NvvmArch::Compute100a => "compute_100a",
            NvvmArch::Compute101 => "compute_101",
            NvvmArch::Compute101f => "compute_101f",
            NvvmArch::Compute101a => "compute_101a",
            NvvmArch::Compute103 => "compute_103",
            NvvmArch::Compute103f => "compute_103f",
            NvvmArch::Compute103a => "compute_103a",
            NvvmArch::Compute120 => "compute_120",
            NvvmArch::Compute120f => "compute_120f",
            NvvmArch::Compute120a => "compute_120a",
            NvvmArch::Compute121 => "compute_121",
            NvvmArch::Compute121f => "compute_121f",
            NvvmArch::Compute121a => "compute_121a",
        }
    }
}

/// An option handed to libnvvm.
#[derive(Clone, Copy, Debug, PartialEq, Eq, Structural)]
pub enum NvvmOption {
    /// Target this architecture.
    Arch(NvvmArch),
    /// Disable libnvvm optimizations.
    NoOpts,
    /// Flush single-precision denormals to zero.
    Ftz,
    /// Approximate single-precision square root.
    FastSqrt,
    /// Approximate single-precision division.
    FastDiv,
    /// Disable fused multiply-add contraction.
    NoFmaContraction,
    /// Generate line-number information.
    GenLineInfo,
}

/// The command-line spelling of an option.
pub open spec fn spec_option_arg(o: NvvmOption) -> Seq<char> {
    match o {
        NvvmOption::Arch(a) => "-arch="@ + spec_arch_name(a),
        NvvmOption::NoOpts => "-opt=0"@,
        NvvmOption::Ftz => "-ftz=1"@,
        NvvmOption::FastSqrt => "-prec-sqrt=0"@,
        NvvmOption::FastDiv => "-prec-div=0"@,
        NvvmOption::NoFmaContraction => "-fma=0"@,
        NvvmOption::GenLineInfo => "-generate-line-info"@,
    }
}

impl NvvmOption {
    /// The command-line spelling of this option, e.g. `-arch=compute_70`.
    pub fn to_string(&self) -> (s: String)
        ensures
            s@ == spec_option_arg(*self),
    {
        match self {
            NvvmOption::Arch(a) => {
                let mut s = String::from_str("-arch=");
                s.append(a.target_feature());
                s
            },
            NvvmOption::NoOpts => String::from_str("-opt=0"),
            NvvmOption::Ftz => String::from_str("-ftz=1"),
            NvvmOption::FastSqrt => String::from_str("-prec-sqrt=0"),
            NvvmOption::FastDiv => String::from_str("-prec-div=0"),
            NvvmOption::NoFmaContraction => String::from_str("-fma=0"),
            NvvmOption::GenLineInfo => String::from_str("-generate-line-info"),
        }
    }
}

/// The libnvvm options and output requests a codegen run was given.
pub struct CodegenArgs {
    pub nvvm_options: Vec<NvvmOption>,
    pub final_module_path: Option<HostPath>,
}

/// The architecture of the first `Arch` option in `opts`, or the default.
pub open spec fn spec_selected_arch(opts: Seq<NvvmOption>) -> NvvmArch
    decreases opts.len(),
{
    if opts.len() == 0 {
        spec_default_arch()
    } else {
        match opts[0] {
            NvvmOption::Arch(a) => a,
            _ => spec_selected_arch(opts.drop_first()),
        }
    }
}

/// The architecture the codegen targets: the first `-arch` option, else the default.
pub fn selected_arch(args: &CodegenArgs) -> (a: NvvmArch)
    ensures
        a == spec_selected_arch(args.nvvm_options@),
{
    let opts = &args.nvvm_options;
    let mut i: usize = 0;
    assert(opts@.skip(0) =~= opts@);
    while i < opts.len()
        invariant
            i <= opts@.len(),
            opts@ == args.nvvm_options@,
            spec_selected_arch(opts@) == spec_selected_arch(opts@.skip(i as int)),
        decreases opts@.len() - i,
    {
        assert(opts@.skip(i as int).drop_first() =~= opts@.skip(i + 1));
        assert(opts@.skip(i as int)[0] == opts@[i as int]);
        let o = opts[i];
        if let NvvmOption::Arch(a) = o {
            assert(opts@.skip(i as int)[0] == o);
            return a;
        }
        i = i + 1;
    }
    NvvmArch::default()
}

/// The architecture of the first `Arch` option in `opts`, if any.
pub open spec fn spec_first_arch(opts: Seq<NvvmOption>) -> Option<NvvmArch>
    decreases opts.len(),
{
    if opts.len() == 0 {
        None
    } else {
        match opts[0] {
            NvvmOption::Arch(a) => Some(a),
            _ => spec_first_arch(opts.drop_first()),
        }
    }
}

/// The architecture of the first `-arch` option, if one is given: the one
/// whose compute-capability features the backend reports (none without one).
pub fn first_arch_option(args: &CodegenArgs) -> (a: Option<NvvmArch>)
    ensures
        a == spec_first_arch(args.nvvm_options@),
{
    let opts = &args.nvvm_options;
    let mut i: usize = 0;
    assert(opts@.skip(0) =~= opts@);
    while i < opts.len()
        invariant
            i <= opts@.len(),
            opts@ == args.nvvm_options@,
            spec_first_arch(opts@) == spec_first_arch(opts@.skip(i as int)),
        decreases opts@.len() - i,
    {
        assert(opts@.skip(i as int).drop_first() =~= opts@.skip(i + 1));
        assert(opts@.skip(i as int)[0] == opts@[i as int]);
        let o = opts[i];
        if let NvvmOption::Arch(a) = o {
            return Some(a);
        }
        i = i + 1;
    }
    None
}

/// The verifier log shows the known false rejection of LLVM 19 bitcode by the
/// legacy LLVM 7 reader.
pub open spec fn spec_is_known_verify_false_negative(log: Seq<char>) -> bool {
    &&& seq_contains(log, "Producer: 'LLVM19"@)
    &&& seq_contains(log, "Reader: 'LLVM 7.0.1'"@)
    &&& seq_contains(log, "parse Invalid value"@)
}

/// Whether a libnvvm verifier log is the known legacy-reader false negative.
pub fn is_known_nvvm_verify_false_negative(log: &str) -> (r: bool)
    ensures
        r == spec_is_known_verify_false_negative(log@),
{
    str_contains(log, "Producer: 'LLVM19") && str_contains(log, "Reader: 'LLVM 7.0.1'")
        && str_contains(log, "parse Invalid value")
}

} // verus!

verus! {

/// A verifier log is the known false rejection only when it names all three
/// of its marks: the LLVM 19 producer, the LLVM 7.0.1 reader and the
/// `parse Invalid value` error; a log that lacks any of them is a real
/// rejection (and `after_verification` rejects the program with it). A log
/// with all three is the known false rejection.
pub proof fn law_false_negative_needs_every_mark(log: Seq<char>)
    ensures
        !seq_contains(log, "parse Invalid value"@) ==> !spec_is_known_verify_false_negative(log),
        !seq_contains(log, "Reader: 'LLVM 7.0.1'"@) ==> !spec_is_known_verify_false_negative(log),
        !seq_contains(log, "Producer: 'LLVM19"@) ==> !spec_is_known_verify_false_negative(log),
        seq_contains(log, "Producer: 'LLVM19"@) && seq_contains(log, "Reader: 'LLVM 7.0.1'"@)
            && seq_contains(log, "parse Invalid value"@) ==> spec_is_known_verify_false_negative(log),
{
}

} // verus!
