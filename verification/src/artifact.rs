//! Read Cargo's message stream and select the final crate's PTX output.
//!
//! Cargo writes one JSON message or one plain-text diagnostic per line. The
//! lines are framed here; each line's decoding as a Cargo message is handed
//! in (`None` for a line that is not one), and the final crate's PTX file is
//! selected from the decoded messages.

use vstd::prelude::*;
use crate::error::CudaBuilderError;
use crate::path::{HostPath, spec_extension};
use crate::text::{chars_of, lossy_decode, spec_lossy_decode, string_views};

verus! {

/// The fields of a Cargo JSON message that artifact selection reads.
pub struct CargoMessage {
    pub reason: String,
    pub filenames: Option<Vec<HostPath>>,
}

pub open spec fn newline() -> u8 {
    10u8
}

/// Lines completed, and the line in progress, after reading `s[..i]`.
pub open spec fn lines_upto(s: Seq<u8>, i: int) -> (Seq<Seq<u8>>, Seq<u8>)
    decreases i,
{
    if i <= 0 {
        (seq![], seq![])
    } else {
        let (done, cur) = lines_upto(s, i - 1);
        if s[i - 1] == newline() {
            (if cur.len() > 0 { done.push(cur) } else { done }, seq![])
        } else {
            (done, cur.push(s[i - 1]))
        }
    }
}

/// The non-empty lines of `s`, split at `\n`, in order.
pub open spec fn spec_output_lines(s: Seq<u8>) -> Seq<Seq<u8>> {
    let (done, cur) = lines_upto(s, s.len() as int);
    if cur.len() > 0 { done.push(cur) } else { done }
}

/// The non-empty `\n`-separated lines of Cargo's standard output.
pub fn cargo_output_lines(stdout: &[u8]) -> (lines: Vec<Vec<u8>>)
    ensures
        lines@.map_values(|l: Vec<u8>| l@) == spec_output_lines(stdout@),
{
    let mut done: Vec<Vec<u8>> = Vec::new();
    let mut cur: Vec<u8> = Vec::new();
    let mut i: usize = 0;
    while i < stdout.len()
        invariant
            i <= stdout@.len(),
            (done@.map_values(|l: Vec<u8>| l@), cur@) == lines_upto(stdout@, i as int),
        decreases stdout@.len() - i,
    {
        let ghost d = done@;
        if stdout[i] == 10u8 {
            if cur.len() > 0 {
                let line = cur;
                cur = Vec::new();
                let ghost lv = line@;
                done.push(line);
                assert(done@.map_values(|l: Vec<u8>| l@) =~= d.map_values(|l: Vec<u8>| l@).push(lv));
            } else {
                cur = Vec::new();
            }
        } else {
            cur.push(stdout[i]);
        }
        i = i + 1;
    }
    if cur.len() > 0 {
        let ghost d = done@;
        let ghost cv = cur@;
        done.push(cur);
        assert(done@.map_values(|l: Vec<u8>| l@) =~= d.map_values(|l: Vec<u8>| l@).push(cv));
    }
    done
}

/// The reason Cargo gives for a finished compilation unit.
pub open spec fn compiler_artifact() -> Seq<char> {
    "compiler-artifact"@
}

/// The message reports a compiled artifact.
pub open spec fn is_artifact(m: Option<CargoMessage>) -> bool {
    m matches Some(x) && x.reason@ == compiler_artifact()
}

/// The files of the last artifact message (none when it lists none, or when
/// there is no artifact message at all).
pub open spec fn last_artifact_files(msgs: Seq<Option<CargoMessage>>) -> Seq<HostPath>
    decreases msgs.len(),
{
    if msgs.len() == 0 {
        seq![]
    } else if is_artifact(msgs.last()) {
        match msgs.last() {
            Some(x) => match x.filenames {
                Some(f) => f@,
                None => seq![],
            },
            None => seq![],
        }
    } else {
        last_artifact_files(msgs.drop_last())
    }
}

/// The bytes `ptx`.
pub open spec fn ptx_extension() -> Seq<u8> {
    seq![112u8, 116u8, 120u8]
}

/// The file has the extension `ptx`.
pub open spec fn is_ptx(p: HostPath) -> bool {
    spec_extension(p@) == Some(ptx_extension())
}

/// The `.ptx` files among `files`, in order.
pub open spec fn ptx_files(files: Seq<HostPath>) -> Seq<HostPath>
    decreases files.len(),
{
    if files.len() == 0 {
        seq![]
    } else if is_ptx(files.last()) {
        ptx_files(files.drop_last()).push(files.last())
    } else {
        ptx_files(files.drop_last())
    }
}

/// The spelling of each path.
pub open spec fn path_views(paths: Seq<HostPath>) -> Seq<Seq<u8>> {
    paths.map_values(|p: HostPath| p@)
}

/// Selection among the final crate's files: exactly one `.ptx` file is the
/// result; none or several are errors (the latter listing them).
pub open spec fn selection_ok(files: Seq<HostPath>, r: Result<HostPath, CudaBuilderError>) -> bool {
    let ptx = ptx_files(files);
    if ptx.len() == 0 {
        r matches Err(CudaBuilderError::MissingPtxArtifact)
    } else if ptx.len() == 1 {
        r matches Ok(p) && p@ == ptx[0]@
    } else {
        r matches Err(CudaBuilderError::MultiplePtxArtifacts(v)) && path_views(v@) == path_views(ptx)
    }
}

fn str_eq(a: &str, b: &str) -> (r: bool)
    ensures
        r == (a@ == b@),
{
    let x = chars_of(a);
    let y = chars_of(b);
    if x.len() != y.len() {
        assert(x@.len() != y@.len());
        return false;
    }
    let mut i: usize = 0;
    while i < x.len()
        invariant
            i <= x@.len(),
            x@ == a@,
            y@ == b@,
            x@.len() == y@.len(),
            forall|k: int| 0 <= k < i ==> x@[k] == y@[k],
        decreases x@.len() - i,
    {
        if x[i] != y[i] {
            assert(x@[i as int] != y@[i as int]);
            return false;
        }
        i = i + 1;
    }
    assert(x@ =~= y@);
    true
}

fn has_ptx_extension(p: &HostPath) -> (r: bool)
    ensures
        r == is_ptx(*p),
{
    match p.extension() {
        Some(x) => {
            let r = x.len() == 3 && x[0] == 112u8 && x[1] == 116u8 && x[2] == 120u8;
            if r {
                assert(x@ =~= ptx_extension());
            }
            r
        },
        None => false,
    }
}

/// Choose the final crate's PTX file from the decoded messages of Cargo's
/// output (`None` for a line that is not a Cargo message). Only the last
/// `compiler-artifact` message counts: a dependency's PTX file is never
/// returned for a final crate that produced none.
pub fn select_ptx_artifact(messages: &Vec<Option<CargoMessage>>) -> (r: Result<
    HostPath,
    CudaBuilderError,
>)
    ensures
        selection_ok(last_artifact_files(messages@), r),
{
    let mut k = messages.len();
    let mut found = false;
    assert(messages@.take(k as int) =~= messages@);
    while k > 0 && !found
        invariant
            k <= messages@.len(),
            found ==> k > 0 && is_artifact(messages@[k - 1]),
            last_artifact_files(messages@) == last_artifact_files(messages@.take(k as int)),
        decreases k + (if found { 0int } else { 1int }),
    {
        let is_art = match &messages[k - 1] {
            Some(m) => str_eq(m.reason.as_str(), "compiler-artifact"),
            None => false,
        };
        proof {
            assert(messages@.take(k as int).drop_last() =~= messages@.take(k - 1));
            assert(messages@.take(k as int).last() == messages@[k - 1]);
        }
        if is_art {
            found = true;
        } else {
            k = k - 1;
        }
    }
    let empty: Vec<HostPath> = Vec::new();
    let files: &Vec<HostPath> = if found {
        match &messages[k - 1] {
            Some(m) => match &m.filenames {
                Some(f) => f,
                None => &empty,
            },
            None => &empty,
        }
    } else {
        &empty
    };
    proof {
        if found {
            assert(messages@.take(k as int).last() == messages@[k - 1]);
        } else {
            assert(messages@.take(k as int).len() == 0);
        }
        assert(last_artifact_files(messages@) == files@);
    }
    let mut ptx: Vec<HostPath> = Vec::new();
    let mut i: usize = 0;
    while i < files.len()
        invariant
            i <= files@.len(),
            path_views(ptx@) == path_views(ptx_files(files@.take(i as int))),
            ptx@.len() == ptx_files(files@.take(i as int)).len(),
        decreases files@.len() - i,
    {
        proof {
            assert(files@.take(i + 1).drop_last() =~= files@.take(i as int));
            assert(files@.take(i + 1).last() == files@[i as int]);
        }
        if has_ptx_extension(&files[i]) {
            let ghost before = ptx@;
            let c = files[i].clone_path();
            ptx.push(c);
            assert(path_views(ptx@) =~= path_views(before).push(files@[i as int]@));
            assert(path_views(ptx_files(files@.take(i + 1))) =~= path_views(
                ptx_files(files@.take(i as int)),
            ).push(files@[i as int]@));
        }
        i = i + 1;
    }
    assert(files@.take(files@.len() as int) =~= files@);
    let ghost all = ptx_files(files@);
    if ptx.len() == 0 {
        Err(CudaBuilderError::MissingPtxArtifact)
    } else if ptx.len() == 1 {
        let p = ptx[0].clone_path();
        assert(path_views(ptx@)[0] == ptx@[0]@);
        assert(path_views(all)[0] == all[0]@);
        Ok(p)
    } else {
        Err(CudaBuilderError::MultiplePtxArtifacts(ptx))
    }
}

/// The lossily decoded text of each line that is not a Cargo message, in order.
pub open spec fn spec_diagnostics(lines: Seq<Seq<u8>>, messages: Seq<Option<CargoMessage>>) -> Seq<
    Seq<char>,
>
    decreases lines.len(),
{
    if lines.len() == 0 || messages.len() == 0 {
        seq![]
    } else if messages.last() is None {
        spec_diagnostics(lines.drop_last(), messages.drop_last()).push(
            spec_lossy_decode(lines.last()),
        )
    } else {
        spec_diagnostics(lines.drop_last(), messages.drop_last())
    }
}

/// The diagnostics among Cargo's output lines, to be shown in order; invalid
/// UTF-8 in them is replaced rather than refused.
pub fn diagnostic_lines(lines: &Vec<Vec<u8>>, messages: &Vec<Option<CargoMessage>>) -> (d: Vec<
    String,
>)
    requires
        lines@.len() == messages@.len(),
    ensures
        string_views(d@) == spec_diagnostics(lines@.map_values(|l: Vec<u8>| l@), messages@),
{
    let ghost lv = lines@.map_values(|l: Vec<u8>| l@);
    let mut d: Vec<String> = Vec::new();
    let mut i: usize = 0;
    while i < lines.len()
        invariant
            i <= lines@.len(),
            lines@.len() == messages@.len(),
            lv == lines@.map_values(|l: Vec<u8>| l@),
            string_views(d@) == spec_diagnostics(lv.take(i as int), messages@.take(i as int)),
        decreases lines@.len() - i,
    {
        proof {
            assert(lv.take(i + 1).drop_last() =~= lv.take(i as int));
            assert(messages@.take(i + 1).drop_last() =~= messages@.take(i as int));
            assert(lv.take(i + 1).last() == lines@[i as int]@);
            assert(messages@.take(i + 1).last() == messages@[i as int]);
        }
        if messages[i].is_none() {
            let ghost before = d@;
            let t = lossy_decode(lines[i].as_slice());
            d.push(t);
            assert(string_views(d@) =~= string_views(before).push(t@));
        }
        i = i + 1;
    }
    assert(lv.take(lines@.len() as int) =~= lv);
    assert(messages@.take(lines@.len() as int) =~= messages@);
    d
}

/// The files a message lists (none when it lists none).
pub open spec fn message_files(m: Option<CargoMessage>) -> Seq<HostPath> {
    match m {
        Some(x) => match x.filenames {
            Some(f) => f@,
            None => seq![],
        },
        None => seq![],
    }
}

/// Only the last `compiler-artifact` message decides the result: whatever
/// earlier messages (a dependency's PTX file among them) and later non-artifact
/// lines surround it, the selection is made among its files alone.
pub proof fn law_only_final_artifact_counts(
    earlier: Seq<Option<CargoMessage>>,
    last: Option<CargoMessage>,
    later: Seq<Option<CargoMessage>>,
)
    requires
        is_artifact(last),
        forall|i: int| 0 <= i < later.len() ==> !is_artifact(#[trigger] later[i]),
    ensures
        last_artifact_files(earlier + seq![last] + later) == message_files(last),
    decreases later.len(),
{
    let all = earlier + seq![last] + later;
    if later.len() == 0 {
        assert(all =~= earlier.push(last));
        assert(all.last() == last);
    } else {
        assert(all.drop_last() =~= earlier + seq![last] + later.drop_last());
        assert(all.last() == later[later.len() - 1]);
        assert forall|i: int| 0 <= i < later.drop_last().len() implies !is_artifact(
            #[trigger] later.drop_last()[i],
        ) by {
            assert(later.drop_last()[i] == later[i]);
        }
        law_only_final_artifact_counts(earlier, last, later.drop_last());
    }
}

} // verus!
