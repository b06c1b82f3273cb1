//! Errors of a kernel build.

use vstd::prelude::*;
use crate::path::HostPath;
use crate::flags::{spec_text_debug, text_debug};
use crate::text::{concat_str, join_strings, join_with, spec_lossy_decode, string_views};

verus! {

/// Why a kernel build did not produce a PTX file. Failures of the host
/// operating system are carried as the text of the underlying error.
#[derive(Debug)]
pub enum CudaBuilderError {
    CratePathDoesntExist(HostPath),
    FailedToCopyPtxFile(String),
    BuildFailed,
    Backend(String),
    CargoInvocation(String),
    InvalidOption(String),
    MissingPtxArtifact,
    MultiplePtxArtifacts(Vec<HostPath>),
}

/// The texts of a sequence of paths (lossily decoded).
pub open spec fn path_texts(paths: Seq<HostPath>) -> Seq<Seq<char>> {
    paths.map_values(|p: HostPath| spec_lossy_decode(p@))
}

/// The Debug rendering of a list of texts: each text quoted and escaped,
/// separated by `, `, in brackets.
pub open spec fn spec_texts_debug(texts: Seq<Seq<char>>) -> Seq<char> {
    "["@ + join_with(texts.map_values(|t: Seq<char>| spec_text_debug(t)), ", "@) + "]"@
}

/// The Debug rendering of a list of strings, as `format!("{:?}", texts)` makes it.
fn texts_debug(texts: &Vec<String>) -> (r: String)
    ensures
        r@ == spec_texts_debug(string_views(texts@)),
{
    let ghost items = string_views(texts@).map_values(|t: Seq<char>| spec_text_debug(t));
    let mut rendered: Vec<String> = Vec::new();
    let mut i: usize = 0;
    while i < texts.len()
        invariant
            i <= texts@.len(),
            items == string_views(texts@).map_values(|t: Seq<char>| spec_text_debug(t)),
            string_views(rendered@) == items.take(i as int),
        decreases texts@.len() - i,
    {
        let ghost before = rendered@;
        rendered.push(text_debug(&texts[i]));
        assert(string_views(rendered@) =~= string_views(before).push(spec_text_debug(texts@[i as int]@)));
        assert(items.take(i + 1) =~= items.take(i as int).push(items[i as int]));
        i = i + 1;
    }
    assert(items.take(texts@.len() as int) =~= items);
    let joined = join_strings(&rendered, ", ");
    let open = concat_str("[", joined.as_str());
    concat_str(open.as_str(), "]")
}

/// The lossily decoded texts of `paths`.
fn path_texts_exec(paths: &Vec<HostPath>) -> (v: Vec<String>)
    ensures
        string_views(v@) == path_texts(paths@),
{
    let mut v: Vec<String> = Vec::new();
    let mut i: usize = 0;
    while i < paths.len()
        invariant
            i <= paths@.len(),
            string_views(v@) == path_texts(paths@.take(i as int)),
        decreases paths@.len() - i,
    {
        let t = paths[i].display();
        let ghost old_v = v@;
        proof {
            assert(paths@.take(i + 1) =~= paths@.take(i as int).push(paths@[i as int]));
            assert(path_texts(paths@.take(i as int).push(paths@[i as int])) =~= path_texts(
                paths@.take(i as int),
            ).push(spec_lossy_decode(paths@[i as int]@)));
        }
        v.push(t);
        assert(string_views(old_v.push(t)) =~= string_views(old_v).push(t@));
        assert(string_views(v@) =~= path_texts(paths@.take(i + 1)));
        i = i + 1;
    }
    assert(paths@.take(paths@.len() as int) =~= paths@);
    v
}

/// The user-facing description of an error.
pub open spec fn spec_message(e: CudaBuilderError) -> Seq<char> {
    match e {
        CudaBuilderError::CratePathDoesntExist(p) =>
            "Crate directory "@ + spec_lossy_decode(p@) + " does not exist"@,
        CudaBuilderError::FailedToCopyPtxFile(m) => "Failed to copy PTX file: "@ + m@,
        CudaBuilderError::BuildFailed => "Kernel compilation failed; see Cargo diagnostics above"@,
        CudaBuilderError::Backend(m) => "CUDA backend: "@ + m@,
        CudaBuilderError::CargoInvocation(m) => "Failed to execute cargo build: "@ + m@,
        CudaBuilderError::InvalidOption(m) => "Invalid build option: "@ + m@,
        CudaBuilderError::MissingPtxArtifact =>
            "Cargo succeeded without a PTX artifact for the final crate; check its crate-type (lib/rlib)"@,
        CudaBuilderError::MultiplePtxArtifacts(paths) =>
            "Final crate produced multiple PTX artifacts: "@ + spec_texts_debug(path_texts(paths@)),
    }
}

impl CudaBuilderError {
    /// The user-facing description of this error.
    pub fn message(&self) -> (s: String)
        ensures
            s@ == spec_message(*self),
    {
        match self {
            CudaBuilderError::CratePathDoesntExist(path) => {
                let mut s = String::from_str("Crate directory ");
                let shown = path.display();
                s.append(shown.as_str());
                s.append(" does not exist");
                s
            },
            CudaBuilderError::FailedToCopyPtxFile(m) => concat_str("Failed to copy PTX file: ", m.as_str()),
            CudaBuilderError::BuildFailed => String::from_str("Kernel compilation failed; see Cargo diagnostics above"),
            CudaBuilderError::Backend(m) => concat_str("CUDA backend: ", m.as_str()),
            CudaBuilderError::CargoInvocation(m) => concat_str("Failed to execute cargo build: ", m.as_str()),
            CudaBuilderError::InvalidOption(m) => concat_str("Invalid build option: ", m.as_str()),
            CudaBuilderError::MissingPtxArtifact => String::from_str(
                "Cargo succeeded without a PTX artifact for the final crate; check its crate-type (lib/rlib)",
            ),
            CudaBuilderError::MultiplePtxArtifacts(paths) => {
                let texts = path_texts_exec(paths);
                let listed = texts_debug(&texts);
                concat_str("Final crate produced multiple PTX artifacts: ", listed.as_str())
            },
        }
    }
}

} // verus!
