//! Validate the supplied backend and work out the shared-library search path
//! the nested build needs. The file-system and process queries are made by the
//! caller; their outcomes are handed in.

use vstd::prelude::*;
use crate::builder::CudaBuilder;
use crate::error::CudaBuilderError;
use crate::path::{HostPath, same_path, spec_file_name, spec_join, spec_parent};
use crate::text::{chars_of, concat_str, count_in, lemma_count_contains, lossy_decode, push_char, spec_lossy_decode};
use crate::cudnn::{is_white_space, is_white_space_exec};

verus! {

/// The host operating system family, as far as library search paths differ.
#[derive(Clone, Copy, Debug, PartialEq, Eq, Structural)]
pub enum HostOs {
    Windows,
    MacOs,
    Other,
}

/// The variable the host's dynamic loader searches for libraries.
pub open spec fn spec_dylib_path_envvar(os: HostOs) -> Seq<char> {
    match os {
        HostOs::Windows => "PATH"@,
        HostOs::MacOs => "DYLD_FALLBACK_LIBRARY_PATH"@,
        HostOs::Other => "LD_LIBRARY_PATH"@,
    }
}

/// The environment variable listing the dynamic loader's library directories on `os`.
pub fn dylib_path_envvar(os: HostOs) -> (v: &'static str)
    ensures
        v@ == spec_dylib_path_envvar(os),
{
    match os {
        HostOs::Windows => "PATH",
        HostOs::MacOs => "DYLD_FALLBACK_LIBRARY_PATH",
        HostOs::Other => "LD_LIBRARY_PATH",
    }
}

/// The outcome of resolving the backend path: the canonical path, or the
/// message saying why it cannot be used.
pub open spec fn spec_resolve(
    backend: Seq<u8>,
    canonical: Result<Seq<u8>, Seq<char>>,
    is_file: bool,
) -> Result<Seq<u8>, Seq<char>> {
    match canonical {
        Err(e) => Err("cannot use "@ + spec_lossy_decode(backend) + ": "@ + e),
        Ok(abs) => if is_file {
            Ok(abs)
        } else {
            Err(spec_lossy_decode(backend) + " is not a backend file"@)
        },
    }
}

/// Views of a path-or-message outcome.
pub open spec fn path_outcome(r: Result<HostPath, String>) -> Result<Seq<u8>, Seq<char>> {
    match r {
        Ok(p) => Ok(p@),
        Err(m) => Err(m@),
    }
}

/// Decide whether the backend can be used, given the host's canonical form of
/// its path (or the text of the error canonicalizing it) and whether that
/// canonical path is a regular file.
pub fn resolve(backend: &HostPath, canonical: Result<HostPath, String>, is_file: bool) -> (r: Result<
    HostPath,
    String,
>)
    ensures
        path_outcome(r) == spec_resolve(backend@, path_outcome(canonical), is_file),
{
    match canonical {
        Err(e) => {
            let mut m = String::from_str("cannot use ");
            let shown = backend.display();
            m.append(shown.as_str());
            m.append(": ");
            m.append(e.as_str());
            Err(m)
        },
        Ok(abs) => if is_file {
            Ok(abs)
        } else {
            let shown = backend.display();
            Err(concat_str(shown.as_str(), " is not a backend file"))
        },
    }
}

impl CudaBuilder {
    /// The exact compiler dylib this builder will use, for build provenance,
    /// given the host's canonical form of the backend path and whether it is a file.
    pub fn backend_path(&self, canonical: Result<HostPath, String>, is_file: bool) -> (r: Result<
        HostPath,
        CudaBuilderError,
    >)
        ensures
            match spec_resolve(self.codegen_backend@, path_outcome(canonical), is_file) {
                Ok(p) => r matches Ok(q) && q@ == p,
                Err(m) => r matches Err(CudaBuilderError::Backend(s)) && s@ == m,
            },
    {
        match resolve(&self.codegen_backend, canonical, is_file) {
            Ok(p) => Ok(p),
            Err(m) => Err(CudaBuilderError::Backend(m)),
        }
    }
}

/// The bytes `deps`.
pub open spec fn deps_name() -> Seq<u8> {
    seq![100u8, 101u8, 112u8, 115u8]
}

/// The directories next to the backend that may hold its libraries: its own
/// directory, that directory's parent, and a `deps` directory beside it
/// unless its own directory is one.
pub open spec fn backend_neighbour_dirs(backend: Seq<u8>) -> Seq<Seq<u8>> {
    match spec_parent(backend) {
        None => seq![],
        Some(parent) => seq![parent] + (match spec_parent(parent) {
            Some(grand) => seq![grand],
            None => seq![],
        }) + (if spec_file_name(parent) == Some(deps_name()) {
            seq![]
        } else {
            seq![spec_join(parent, deps_name())]
        }),
    }
}

/// `s` holds a spelling of the same path as `x`.
pub open spec fn holds_same(s: Seq<Seq<u8>>, x: Seq<u8>) -> bool {
    exists|k: int| 0 <= k < s.len() && same_path(#[trigger] s[k], x)
}

/// `s` without repetitions, keeping the first spelling of each path (paths
/// are the same when their components are).
pub open spec fn dedup_first(s: Seq<Seq<u8>>) -> Seq<Seq<u8>>
    decreases s.len(),
{
    if s.len() == 0 {
        seq![]
    } else if holds_same(s.drop_last(), s.last()) {
        dedup_first(s.drop_last())
    } else {
        dedup_first(s.drop_last()).push(s.last())
    }
}

/// The spelling of each path.
pub open spec fn spellings(paths: Seq<HostPath>) -> Seq<Seq<u8>> {
    paths.map_values(|p: HostPath| p@)
}

proof fn lemma_dedup_first(s: Seq<Seq<u8>>)
    ensures
        forall|x: Seq<u8>| dedup_first(s).contains(x) ==> s.contains(x),
        forall|x: Seq<u8>| holds_same(dedup_first(s), x) <==> holds_same(s, x),
        forall|i: int, j: int|
            0 <= i < j < dedup_first(s).len() ==> !same_path(dedup_first(s)[i], dedup_first(s)[j]),
    decreases s.len(),
{
    if s.len() > 0 {
        let t = s.drop_last();
        let d = dedup_first(t);
        lemma_dedup_first(t);
        if holds_same(t, s.last()) {
            assert(dedup_first(s) == d);
        } else {
            assert(dedup_first(s) == d.push(s.last()));
        }
        assert forall|x: Seq<u8>| dedup_first(s).contains(x) implies s.contains(x) by {
            let k = choose|k: int| 0 <= k < dedup_first(s).len() && dedup_first(s)[k] == x;
            if k < d.len() {
                assert(d[k] == x);
                assert(d.contains(x));
                assert(t.contains(x));
                let m = choose|m: int| 0 <= m < t.len() && t[m] == x;
                assert(s[m] == x);
            } else {
                assert(s[s.len() - 1] == x);
            }
        }
        assert forall|x: Seq<u8>| holds_same(dedup_first(s), x) <==> holds_same(s, x) by {
            if holds_same(s, x) {
                let k = choose|k: int| 0 <= k < s.len() && same_path(s[k], x);
                if k < t.len() {
                    assert(same_path(t[k], x));
                    assert(holds_same(t, x));
                    let m = choose|m: int| 0 <= m < d.len() && same_path(d[m], x);
                    assert(same_path(dedup_first(s)[m], x));
                    assert(holds_same(dedup_first(s), x));
                } else if holds_same(t, s.last()) {
                    let m = choose|m: int| 0 <= m < t.len() && same_path(t[m], s.last());
                    assert(same_path(t[m], x));
                    assert(holds_same(t, x));
                    let q = choose|q: int| 0 <= q < d.len() && same_path(d[q], x);
                    assert(same_path(dedup_first(s)[q], x));
                    assert(holds_same(dedup_first(s), x));
                } else {
                    assert(same_path(dedup_first(s)[d.len() as int], x));
                    assert(holds_same(dedup_first(s), x));
                }
            }
            if holds_same(dedup_first(s), x) {
                let k = choose|k: int| 0 <= k < dedup_first(s).len() && same_path(dedup_first(s)[k], x);
                if k < d.len() {
                    assert(same_path(d[k], x));
                    assert(holds_same(d, x));
                    assert(holds_same(t, x));
                    let m = choose|m: int| 0 <= m < t.len() && same_path(t[m], x);
                    assert(same_path(s[m], x));
                    assert(holds_same(s, x));
                } else {
                    assert(same_path(s[s.len() - 1], x));
                    assert(holds_same(s, x));
                }
            }
        }
        if !holds_same(t, s.last()) {
            assert forall|i: int, j: int|
                0 <= i < j < dedup_first(s).len() implies !same_path(dedup_first(s)[i], dedup_first(s)[j]) by {
                if j == d.len() {
                    if same_path(d[i], s.last()) {
                        assert(holds_same(d, s.last()));
                    }
                } else {
                    assert(dedup_first(s)[i] == d[i] && dedup_first(s)[j] == d[j]);
                }
            }
        }
    }
}

fn holds_same_path(v: &Vec<HostPath>, p: &HostPath) -> (r: bool)
    ensures
        r == holds_same(spellings(v@), p@),
{
    let mut i: usize = 0;
    while i < v.len()
        invariant
            i <= v@.len(),
            forall|k: int| 0 <= k < i ==> !same_path(v@[k]@, p@),
        decreases v@.len() - i,
    {
        if v[i].same_path(p) {
            assert(same_path(spellings(v@)[i as int], p@));
            return true;
        }
        i = i + 1;
    }
    assert(!holds_same(spellings(v@), p@)) by {
        if holds_same(spellings(v@), p@) {
            let k = choose|k: int| 0 <= k < spellings(v@).len() && same_path(spellings(v@)[k], p@);
            assert(v@[k]@ == spellings(v@)[k]);
        }
    }
    false
}

/// Whether two byte strings are equal.
pub fn bytes_equal(a: &Vec<u8>, b: &Vec<u8>) -> (r: bool)
    ensures
        r == (a@ == b@),
{
    if a.len() != b.len() {
        return false;
    }
    let mut i: usize = 0;
    while i < a.len()
        invariant
            i <= a@.len(),
            a@.len() == b@.len(),
            forall|k: int| 0 <= k < i ==> a@[k] == b@[k],
        decreases a@.len() - i,
    {
        if a[i] != b[i] {
            assert(a@[i as int] != b@[i as int]);
            return false;
        }
        i = i + 1;
    }
    assert(a@ =~= b@);
    true
}

/// The backend's neighbouring directories followed by the toolchain's
/// library directories, each spelling kept once, at its first position.
pub open spec fn spec_backend_library_dirs(backend: Seq<u8>, sysroot_dirs: Seq<Seq<u8>>) -> Seq<
    Seq<u8>,
> {
    dedup_first(backend_neighbour_dirs(backend) + sysroot_dirs)
}

/// The library directories name each candidate directory (those beside the
/// backend, then the toolchain's) exactly once: each is one of the
/// candidates, each candidate names the same path as one of them, and no two
/// of them name the same path.
pub proof fn law_library_dirs_distinct(backend: Seq<u8>, sysroot_dirs: Seq<Seq<u8>>)
    ensures
        forall|d: Seq<u8>|
            spec_backend_library_dirs(backend, sysroot_dirs).contains(d) ==> (backend_neighbour_dirs(backend)
                + sysroot_dirs).contains(d),
        forall|d: Seq<u8>|
            (backend_neighbour_dirs(backend) + sysroot_dirs).contains(d) ==> holds_same(
                spec_backend_library_dirs(backend, sysroot_dirs),
                d,
            ),
        forall|i: int, j: int|
            0 <= i < j < spec_backend_library_dirs(backend, sysroot_dirs).len() ==> !same_path(
                spec_backend_library_dirs(backend, sysroot_dirs)[i],
                spec_backend_library_dirs(backend, sysroot_dirs)[j],
            ),
{
    let c = backend_neighbour_dirs(backend) + sysroot_dirs;
    lemma_dedup_first(c);
    assert forall|d: Seq<u8>| c.contains(d) implies holds_same(dedup_first(c), d) by {
        let k = choose|k: int| 0 <= k < c.len() && c[k] == d;
        assert(same_path(c[k], d));
        assert(holds_same(c, d));
    }
}

fn push_unique(v: &mut Vec<HostPath>, p: HostPath)
    ensures
        spellings(final(v)@) == if holds_same(spellings(old(v)@), p@) {
            spellings(old(v)@)
        } else {
            spellings(old(v)@).push(p@)
        },
{
    if !holds_same_path(v, &p) {
        let ghost before = v@;
        let ghost pv = p@;
        v.push(p);
        assert(spellings(v@) =~= spellings(before).push(pv));
    }
}

/// The directories where the backend's shared-library dependencies may live:
/// those next to the backend, then the toolchain's (`sysroot_dirs`), without
/// repeating a directory.
pub fn backend_library_dirs(backend: &HostPath, sysroot_dirs: &Vec<HostPath>) -> (dirs: Vec<HostPath>)
    ensures
        spellings(dirs@) == spec_backend_library_dirs(backend@, spellings(sysroot_dirs@)),
{
    let mut all: Vec<HostPath> = Vec::new();
    match backend.parent() {
        Some(parent) => {
            let ghost pv = parent@;
            match parent.parent() {
                Some(grand) => {
                    all.push(parent.clone_path());
                    all.push(grand);
                },
                None => {
                    all.push(parent.clone_path());
                },
            }
            let ghost mid = spellings(all@);
            let is_deps = match parent.file_name() {
                Some(n) => n.len() == 4 && n[0] == 100u8 && n[1] == 101u8 && n[2] == 112u8 && n[3]
                    == 115u8,
                None => false,
            };
            proof {
                if is_deps {
                    assert(spec_file_name(pv) == Some(deps_name()));
                } else {
                    assert(spec_file_name(pv) != Some(deps_name()));
                }
            }
            if !is_deps {
                let deps = parent.join(&HostPath::from_bytes(vec![100u8, 101u8, 112u8, 115u8]));
                let ghost dv = deps@;
                all.push(deps);
                assert(spellings(all@) =~= mid.push(dv));
            }
            assert(spellings(all@) =~= backend_neighbour_dirs(backend@));
        },
        None => {
            assert(spellings(all@) =~= backend_neighbour_dirs(backend@));
        },
    }
    let mut i: usize = 0;
    let ghost base = spellings(all@);
    while i < sysroot_dirs.len()
        invariant
            i <= sysroot_dirs@.len(),
            spellings(all@) == base + spellings(sysroot_dirs@).take(i as int),
        decreases sysroot_dirs@.len() - i,
    {
        let ghost before = all@;
        let p = sysroot_dirs[i].clone_path();
        all.push(p);
        assert(spellings(all@) =~= spellings(before).push(sysroot_dirs@[i as int]@));
        assert(spellings(sysroot_dirs@).take(i + 1) =~= spellings(sysroot_dirs@).take(
            i as int,
        ).push(sysroot_dirs@[i as int]@));
        i = i + 1;
    }
    assert(spellings(sysroot_dirs@).take(sysroot_dirs@.len() as int) =~= spellings(sysroot_dirs@));
    let ghost every = spellings(all@);
    let mut dirs: Vec<HostPath> = Vec::new();
    let mut j: usize = 0;
    while j < all.len()
        invariant
            j <= all@.len(),
            every == spellings(all@),
            spellings(dirs@) == dedup_first(every.take(j as int)),
        decreases all@.len() - j,
    {
        proof {
            assert(every.take(j + 1).drop_last() =~= every.take(j as int));
            assert(every.take(j + 1).last() == all@[j as int]@);
            lemma_dedup_first(every.take(j as int));
        }
        let p = all[j].clone_path();
        push_unique(&mut dirs, p);
        j = j + 1;
    }
    assert(every.take(all@.len() as int) =~= every);
    dirs
}

/// The bytes of `lib` and `rustlib`.
pub open spec fn lib_name() -> Seq<u8> {
    seq![108u8, 105u8, 98u8]
}

pub open spec fn rustlib_name() -> Seq<u8> {
    seq![114u8, 117u8, 115u8, 116u8, 108u8, 105u8, 98u8]
}

/// The toolchain's library directories: `<sysroot>/lib`, then
/// `<sysroot>/lib/rustlib/<triple>/lib` for each target triple given.
pub open spec fn spec_sysroot_lib_dirs(sysroot: Seq<u8>, triples: Seq<Seq<u8>>) -> Seq<Seq<u8>> {
    seq![spec_join(sysroot, lib_name())] + triples.map_values(
        |t: Seq<u8>| target_lib_dir(sysroot, t),
    )
}

/// `<sysroot>/lib/rustlib/<triple>/lib`.
pub open spec fn target_lib_dir(sysroot: Seq<u8>, triple: Seq<u8>) -> Seq<u8> {
    spec_join(
        spec_join(spec_join(spec_join(sysroot, lib_name()), rustlib_name()), triple),
        lib_name(),
    )
}

/// The first index at or after `i` that does not hold white space.
pub open spec fn first_kept(s: Seq<char>, i: int) -> int
    decreases s.len() - i,
{
    if 0 <= i < s.len() && is_white_space(s[i]) {
        first_kept(s, i + 1)
    } else {
        i
    }
}

/// The end of `s[lo..e]` once trailing white space is dropped.
pub open spec fn last_kept(s: Seq<char>, lo: int, e: int) -> int
    decreases e - lo,
{
    if lo < e && is_white_space(s[e - 1]) {
        last_kept(s, lo, e - 1)
    } else {
        e
    }
}

/// `s` without leading and trailing white space (what `str::trim` keeps).
pub open spec fn spec_trim(s: Seq<char>) -> Seq<char> {
    let lo = first_kept(s, 0);
    s.subrange(lo, last_kept(s, lo, s.len() as int))
}

/// The sysroot `rustc --print sysroot` printed: its output, lossily decoded,
/// without surrounding white space.
pub fn sysroot_from_output(stdout: &[u8]) -> (p: HostPath)
    ensures
        p@ == vstd::utf8::encode_utf8(spec_trim(spec_lossy_decode(stdout@))),
{
    let text = lossy_decode(stdout);
    let c = chars_of(text.as_str());
    let mut lo: usize = 0;
    while lo < c.len() && is_white_space_exec(c[lo])
        invariant
            lo <= c@.len(),
            first_kept(c@, 0) == first_kept(c@, lo as int),
        decreases c@.len() - lo,
    {
        lo = lo + 1;
    }
    let mut hi: usize = c.len();
    while hi > lo && is_white_space_exec(c[hi - 1])
        invariant
            lo <= hi <= c@.len(),
            first_kept(c@, 0) == lo,
            last_kept(c@, lo as int, c@.len() as int) == last_kept(c@, lo as int, hi as int),
        decreases hi - lo,
    {
        hi = hi - 1;
    }
    let mut out = String::new();
    let mut i: usize = lo;
    while i < hi
        invariant
            lo <= i <= hi <= c@.len(),
            out@ == c@.subrange(lo as int, i as int),
        decreases hi - i,
    {
        push_char(&mut out, c[i]);
        i = i + 1;
        assert(out@ =~= c@.subrange(lo as int, i as int));
    }
    HostPath::from_str(out.as_str())
}

/// The toolchain's library directories for the sysroot `rustc` reported and
/// the target triples named by the build environment.
pub fn sysroot_lib_dirs(sysroot: &HostPath, triples: &Vec<HostPath>) -> (dirs: Vec<HostPath>)
    ensures
        spellings(dirs@) == spec_sysroot_lib_dirs(sysroot@, spellings(triples@)),
{
    let lib = HostPath::from_bytes(vec![108u8, 105u8, 98u8]);
    let rustlib = HostPath::from_bytes(vec![114u8, 117u8, 115u8, 116u8, 108u8, 105u8, 98u8]);
    let mut dirs: Vec<HostPath> = Vec::new();
    let lib_dir = sysroot.join(&lib);
    dirs.push(lib_dir);
    let mut i: usize = 0;
    let ghost f = |t: Seq<u8>| target_lib_dir(sysroot@, t);
    assert(spellings(dirs@) =~= seq![spec_join(sysroot@, lib_name())]);
    while i < triples.len()
        invariant
            i <= triples@.len(),
            lib@ == lib_name(),
            rustlib@ == rustlib_name(),
            f == (|t: Seq<u8>| target_lib_dir(sysroot@, t)),
            spellings(dirs@) == seq![spec_join(sysroot@, lib_name())] + spellings(triples@).take(
                i as int,
            ).map_values(f),
        decreases triples@.len() - i,
    {
        let ghost before = dirs@;
        let d = sysroot.join(&lib).join(&rustlib).join(&triples[i]).join(&lib);
        assert(d@ == f(triples@[i as int]@));
        dirs.push(d);
        assert(spellings(dirs@) =~= spellings(before).push(f(triples@[i as int]@)));
        assert(spellings(triples@).take(i + 1).map_values(f) =~= spellings(triples@).take(
            i as int,
        ).map_values(f).push(f(triples@[i as int]@)));
        i = i + 1;
    }
    assert(spellings(triples@).take(triples@.len() as int) =~= spellings(triples@));
    dirs
}

/// The new library search path: the candidate directories that exist, then
/// the entries already set; `None` when no candidate exists (the search path
/// is then left alone).
pub open spec fn spec_library_search_path(
    candidates: Seq<Seq<u8>>,
    exists: Seq<bool>,
    current: Seq<Seq<u8>>,
) -> Option<Seq<Seq<u8>>> {
    let found = existing_dirs(candidates, exists);
    if found.len() == 0 {
        None
    } else {
        Some(found + current)
    }
}

/// The candidates whose existence flag is set, in order.
pub open spec fn existing_dirs(candidates: Seq<Seq<u8>>, exists: Seq<bool>) -> Seq<Seq<u8>>
    decreases candidates.len(),
{
    if candidates.len() == 0 || exists.len() == 0 {
        seq![]
    } else if exists.last() {
        existing_dirs(candidates.drop_last(), exists.drop_last()).push(candidates.last())
    } else {
        existing_dirs(candidates.drop_last(), exists.drop_last())
    }
}

/// The library search path to hand the nested build, given which candidate
/// directories exist and the entries of the variable as it is set now.
pub fn library_search_path(
    candidates: &Vec<HostPath>,
    exists: &Vec<bool>,
    current: &Vec<HostPath>,
) -> (r: Option<Vec<HostPath>>)
    requires
        candidates@.len() == exists@.len(),
    ensures
        match spec_library_search_path(spellings(candidates@), exists@, spellings(current@)) {
            Some(s) => r matches Some(v) && spellings(v@) == s,
            None => r is None,
        },
{
    let ghost cs = spellings(candidates@);
    let mut found: Vec<HostPath> = Vec::new();
    let mut i: usize = 0;
    while i < candidates.len()
        invariant
            i <= candidates@.len(),
            candidates@.len() == exists@.len(),
            cs == spellings(candidates@),
            spellings(found@) == existing_dirs(cs.take(i as int), exists@.take(i as int)),
        decreases candidates@.len() - i,
    {
        proof {
            assert(cs.take(i + 1).drop_last() =~= cs.take(i as int));
            assert(exists@.take(i + 1).drop_last() =~= exists@.take(i as int));
            assert(cs.take(i + 1).last() == candidates@[i as int]@);
            assert(exists@.take(i + 1).last() == exists@[i as int]);
        }
        if exists[i] {
            let ghost before = found@;
            found.push(candidates[i].clone_path());
            assert(spellings(found@) =~= spellings(before).push(candidates@[i as int]@));
        }
        i = i + 1;
    }
    assert(cs.take(candidates@.len() as int) =~= cs);
    assert(exists@.take(candidates@.len() as int) =~= exists@);
    if found.len() == 0 {
        return None;
    }
    let ghost base = spellings(found@);
    let mut j: usize = 0;
    while j < current.len()
        invariant
            j <= current@.len(),
            spellings(found@) == base + spellings(current@).take(j as int),
        decreases current@.len() - j,
    {
        let ghost before = found@;
        found.push(current[j].clone_path());
        assert(spellings(found@) =~= spellings(before).push(current@[j as int]@));
        assert(spellings(current@).take(j + 1) =~= spellings(current@).take(j as int).push(
            current@[j as int]@,
        ));
        j = j + 1;
    }
    assert(spellings(current@).take(current@.len() as int) =~= spellings(current@));
    Some(found)
}

/// The message of the error raised when the search path cannot be set.
pub open spec fn spec_loader_error(var: Seq<char>, error: Seq<char>) -> Seq<char> {
    "cannot set "@ + var + ": "@ + error
}

/// The `Backend` error for a search path the host refused to join.
pub fn loader_error(var: &str, error: &str) -> (e: CudaBuilderError)
    ensures
        e matches CudaBuilderError::Backend(m) && m@ == spec_loader_error(var@, error@),
{
    let mut m = String::from_str("cannot set ");
    m.append(var);
    m.append(": ");
    m.append(error);
    CudaBuilderError::Backend(m)
}

} // verus!

verus! {

proof fn lemma_existing_dirs(candidates: Seq<Seq<u8>>, exists: Seq<bool>)
    requires
        candidates.len() == exists.len(),
    ensures
        existing_dirs(candidates, exists).len() == count_in(exists, true),
        forall|j: int|
            0 <= j < existing_dirs(candidates, exists).len() ==> exists|i: int|
                0 <= i < candidates.len() && exists[i] && candidates[i] == #[trigger] existing_dirs(
                    candidates,
                    exists,
                )[j],
        forall|i: int|
            0 <= i < candidates.len() && #[trigger] exists[i] ==> existing_dirs(candidates, exists).contains(
                candidates[i],
            ),
    decreases candidates.len(),
{
    if candidates.len() > 0 {
        let c = candidates.drop_last();
        let e = exists.drop_last();
        lemma_existing_dirs(c, e);
        let d = existing_dirs(c, e);
        let r = existing_dirs(candidates, exists);
        if exists.last() {
            assert(r == d.push(candidates.last()));
        } else {
            assert(r == d);
        }
        assert forall|j: int| 0 <= j < r.len() implies exists|i: int|
            0 <= i < candidates.len() && exists[i] && candidates[i] == #[trigger] r[j] by {
            if j < d.len() {
                let i = choose|i: int| 0 <= i < c.len() && e[i] && c[i] == #[trigger] d[j];
                assert(exists[i] && candidates[i] == r[j]);
            } else {
                assert(exists[candidates.len() - 1] && candidates[candidates.len() - 1] == r[j]);
            }
        }
        assert forall|i: int| 0 <= i < candidates.len() && #[trigger] exists[i] implies r.contains(
            candidates[i],
        ) by {
            if i < c.len() {
                assert(e[i]);
                assert(d.contains(c[i]));
                let k = choose|k: int| 0 <= k < d.len() && d[k] == c[i];
                assert(r[k] == candidates[i]);
            } else {
                assert(r[r.len() - 1] == candidates[i]);
            }
        }
    }
}

/// When some candidate directory exists, the new search path is the
/// existing candidates (one entry per candidate found, each a candidate that
/// exists, every existing candidate present) followed by every entry the
/// variable holds now, in order; when none exists the variable is left alone.
pub proof fn law_search_path_keeps_current_entries(
    candidates: Seq<Seq<u8>>,
    exists: Seq<bool>,
    current: Seq<Seq<u8>>,
)
    requires
        candidates.len() == exists.len(),
    ensures
        spec_library_search_path(candidates, exists, current) is Some <==> exists|i: int|
            0 <= i < exists.len() && #[trigger] exists[i],
        spec_library_search_path(candidates, exists, current) matches Some(p) ==> {
            let k = p.len() - current.len();
            &&& p.len() == count_in(exists, true) + current.len()
            &&& p.subrange(k, p.len() as int) == current
            &&& forall|j: int| 0 <= j < k ==> exists|i: int|
                0 <= i < candidates.len() && exists[i] && candidates[i] == #[trigger] p[j]
            &&& forall|i: int| 0 <= i < candidates.len() && #[trigger] exists[i] ==> p.subrange(0, k).contains(
                candidates[i],
            )
        },
{
    lemma_existing_dirs(candidates, exists);
    let found = existing_dirs(candidates, exists);
    lemma_count_contains(exists, true);
    if found.len() > 0 {
        let p = found + current;
        assert(p.subrange(found.len() as int, p.len() as int) =~= current);
        assert(p.subrange(0, found.len() as int) =~= found);
        assert forall|j: int| 0 <= j < found.len() implies exists|i: int|
            0 <= i < candidates.len() && exists[i] && candidates[i] == #[trigger] p[j] by {
            assert(p[j] == found[j]);
        }
    }
    if exists|i: int| 0 <= i < exists.len() && #[trigger] exists[i] {
        let i = choose|i: int| 0 <= i < exists.len() && #[trigger] exists[i];
        assert(found.contains(candidates[i]));
    }
}

} // verus!
