//! Host file-system paths as the raw bytes of a Unix path, with the
//! component operations that the builder needs (final name, parent, join,
//! extension), following the component rules of `std::path` on Unix:
//! `/` separates components, empty and `.` components are ignored except a
//! leading `.` of a relative path, and a leading `/` is the root.

use vstd::prelude::*;
use crate::text::{bytes_copy, utf8_decode, lossy_decode, spec_utf8_decode, spec_lossy_decode};

verus! {

pub open spec fn slash() -> u8 { 47u8 }

pub open spec fn dot() -> u8 { 46u8 }

/// A host path, held as the bytes of its Unix spelling. Its operations
/// (`file_name`, `parent`, `join`, `extension`, `components`) follow the
/// rules of `std::path` on Unix hosts only: a backslash is an ordinary byte
/// and drive or UNC prefixes are not recognised, so on a Windows host they
/// differ from `std::path` for paths that use those.
#[derive(Clone, Debug, PartialEq, Eq)]
pub struct HostPath {
    pub bytes: Vec<u8>,
}

impl View for HostPath {
    type V = Seq<u8>;

    open spec fn view(&self) -> Seq<u8> {
        self.bytes@
    }
}

/// The path starts at the file-system root.
pub open spec fn has_root(b: Seq<u8>) -> bool {
    b.len() > 0 && b[0] == slash()
}

/// A relative path whose first component is `.` (the path `.` itself, or `./...`).
pub open spec fn has_cur_dir(b: Seq<u8>) -> bool {
    &&& !has_root(b)
    &&& b.len() >= 1
    &&& b[0] == dot()
    &&& (b.len() == 1 || b[1] == slash())
}

/// Where the ordinary components begin: after the root or the leading `.`.
pub open spec fn body_start(b: Seq<u8>) -> int {
    if has_root(b) || has_cur_dir(b) { 1 } else { 0 }
}

/// Start of the component that ends at `e`: one past the last separator in
/// `b[lo..e]`, or `lo` when there is none.
pub open spec fn seg_start(b: Seq<u8>, lo: int, e: int) -> int
    decreases e - lo,
{
    if e <= lo {
        lo
    } else if b[e - 1] == slash() {
        e
    } else {
        seg_start(b, lo, e - 1)
    }
}

/// The component `b[s..e]` is one that paths ignore: empty or `.`.
pub open spec fn is_skipped(b: Seq<u8>, s: int, e: int) -> bool {
    e == s || (e == s + 1 && b[s] == dot())
}

/// End of the prefix `b[..e]` once trailing ignored components (and the
/// separators before them) are dropped; never below `body_start`.
pub open spec fn trim_end(b: Seq<u8>, e: int) -> int
    decreases e,
{
    if e <= body_start(b) {
        e
    } else {
        let s = seg_start(b, body_start(b), e);
        if is_skipped(b, s, e) {
            if s <= body_start(b) {
                body_start(b)
            } else {
                trim_end(b, s - 1)
            }
        } else {
            e
        }
    }
}

/// End of the last component, after trimming.
pub open spec fn last_end(b: Seq<u8>) -> int {
    trim_end(b, b.len() as int)
}

/// Start of the last ordinary component (meaningful when `last_end(b) > body_start(b)`).
pub open spec fn last_start(b: Seq<u8>) -> int {
    seg_start(b, body_start(b), last_end(b))
}

pub open spec fn is_parent_dir(c: Seq<u8>) -> bool {
    c.len() == 2 && c[0] == dot() && c[1] == dot()
}

/// The final component when it is a normal name (not root, `.` or `..`).
pub open spec fn spec_file_name(b: Seq<u8>) -> Option<Seq<u8>> {
    if last_end(b) > body_start(b) {
        let c = b.subrange(last_start(b), last_end(b));
        if is_parent_dir(c) { None } else { Some(c) }
    } else {
        None
    }
}

/// The path without its final component; `None` for the root and the empty path.
pub open spec fn spec_parent(b: Seq<u8>) -> Option<Seq<u8>> {
    if last_end(b) > body_start(b) {
        let s = last_start(b);
        let cut = if s > body_start(b) { s - 1 } else { body_start(b) };
        Some(b.subrange(0, trim_end(b, cut)))
    } else if has_cur_dir(b) {
        Some(Seq::<u8>::empty())
    } else {
        None
    }
}

/// `b` with `p` appended as a further component; an absolute `p` replaces `b`.
pub open spec fn spec_join(b: Seq<u8>, p: Seq<u8>) -> Seq<u8> {
    if has_root(p) {
        p
    } else if b.len() == 0 || b.last() == slash() {
        b + p
    } else {
        b.push(slash()) + p
    }
}

/// Index of the last `.` in `n[..e]`, or -1.
pub open spec fn last_dot(n: Seq<u8>, e: int) -> int
    decreases e,
{
    if e <= 0 {
        -1
    } else if n[e - 1] == dot() {
        e - 1
    } else {
        last_dot(n, e - 1)
    }
}

/// The part of the file name after its last `.`, when a non-empty stem precedes it.
pub open spec fn spec_extension(b: Seq<u8>) -> Option<Seq<u8>> {
    match spec_file_name(b) {
        Some(n) => {
            let d = last_dot(n, n.len() as int);
            if d <= 0 { None } else { Some(n.subrange(d + 1, n.len() as int)) }
        },
        None => None,
    }
}

proof fn lemma_seg_start_bounds(b: Seq<u8>, lo: int, e: int)
    requires
        0 <= lo,
        e <= b.len(),
    ensures
        e <= lo ==> seg_start(b, lo, e) == lo,
        lo <= e ==> lo <= seg_start(b, lo, e) <= e,
        lo < seg_start(b, lo, e) ==> b[seg_start(b, lo, e) - 1] == slash(),
        forall|k: int| seg_start(b, lo, e) <= k < e ==> b[k] != slash(),
    decreases e - lo,
{
    if e > lo && b[e - 1] != slash() {
        lemma_seg_start_bounds(b, lo, e - 1);
    }
}

proof fn lemma_trim_end_bounds(b: Seq<u8>, e: int)
    requires
        0 <= e <= b.len(),
    ensures
        e <= body_start(b) ==> trim_end(b, e) == e,
        e >= body_start(b) ==> body_start(b) <= trim_end(b, e) <= e,
    decreases e,
{
    if e > body_start(b) {
        let s = seg_start(b, body_start(b), e);
        lemma_seg_start_bounds(b, body_start(b), e);
        if is_skipped(b, s, e) && s > body_start(b) {
            lemma_trim_end_bounds(b, s - 1);
        }
    }
}

/// Start of the component ending at `e` (scanning back to `lo`).
fn seg_start_exec(b: &Vec<u8>, lo: usize, e: usize) -> (s: usize)
    requires
        lo <= e <= b.len(),
    ensures
        s as int == seg_start(b@, lo as int, e as int),
{
    let mut i = e;
    while i > lo && b[i - 1] != 47u8
        invariant
            lo <= i <= e <= b.len(),
            seg_start(b@, lo as int, i as int) == seg_start(b@, lo as int, e as int),
        decreases i,
    {
        i = i - 1;
    }
    i
}

fn body_start_exec(b: &Vec<u8>) -> (r: usize)
    ensures
        r as int == body_start(b@),
        r <= b.len(),
{
    let n = b.len();
    if n > 0 && b[0] == 47u8 {
        1
    } else if n >= 1 && b[0] == 46u8 && (n == 1 || b[1] == 47u8) {
        1
    } else {
        0
    }
}

fn trim_end_exec(b: &Vec<u8>, e: usize) -> (r: usize)
    requires
        e <= b.len(),
    ensures
        r as int == trim_end(b@, e as int),
{
    let bs = body_start_exec(b);
    let mut cur = e;
    loop
        invariant
            cur <= b.len(),
            bs as int == body_start(b@),
            trim_end(b@, cur as int) == trim_end(b@, e as int),
        decreases cur,
    {
        if cur <= bs {
            return cur;
        }
        let s = seg_start_exec(b, bs, cur);
        proof {
            lemma_seg_start_bounds(b@, bs as int, cur as int);
        }
        let skipped = s == cur || (cur == s + 1 && b[s] == 46u8);
        if skipped {
            if s <= bs {
                return bs;
            }
            cur = s - 1;
        } else {
            return cur;
        }
    }
}

impl HostPath {
    /// The path spelled by `s` (its UTF-8 bytes).
    pub fn from_str(s: &str) -> (p: HostPath)
        ensures
            p@ == vstd::utf8::encode_utf8(s@),
    {
        let b = s.as_bytes();
        HostPath { bytes: bytes_copy(b, 0, b.len()) }
    }

    /// The path whose Unix spelling is `bytes`.
    pub fn from_bytes(bytes: Vec<u8>) -> (p: HostPath)
        ensures
            p@ == bytes@,
    {
        HostPath { bytes }
    }

    /// The final component, when it is a normal name.
    pub fn file_name(&self) -> (r: Option<Vec<u8>>)
        ensures
            r matches Some(n) ==> spec_file_name(self@) == Some(n@),
            r is None ==> spec_file_name(self@) is None,
    {
        let b = &self.bytes;
        let bs = body_start_exec(b);
        let e = trim_end_exec(b, b.len());
        proof {
            lemma_trim_end_bounds(b@, b@.len() as int);
        }
        if e > bs {
            let s = seg_start_exec(b, bs, e);
            proof {
                lemma_seg_start_bounds(b@, bs as int, e as int);
            }
            if e - s == 2 && b[s] == 46u8 && b[s + 1] == 46u8 {
                proof {
                    assert(is_parent_dir(b@.subrange(s as int, e as int)));
                }
                None
            } else {
                let n = bytes_copy(b.as_slice(), s, e);
                proof {
                    assert(!is_parent_dir(b@.subrange(s as int, e as int)));
                }
                Some(n)
            }
        } else {
            None
        }
    }

    /// The path without its final component.
    pub fn parent(&self) -> (r: Option<HostPath>)
        ensures
            r matches Some(p) ==> spec_parent(self@) == Some(p@),
            r is None ==> spec_parent(self@) is None,
    {
        let b = &self.bytes;
        let bs = body_start_exec(b);
        let e = trim_end_exec(b, b.len());
        proof {
            lemma_trim_end_bounds(b@, b@.len() as int);
        }
        if e > bs {
            let s = seg_start_exec(b, bs, e);
            proof {
                lemma_seg_start_bounds(b@, bs as int, e as int);
            }
            let cut = if s > bs { s - 1 } else { bs };
            let t = trim_end_exec(b, cut);
            proof {
                lemma_trim_end_bounds(b@, cut as int);
            }
            Some(HostPath { bytes: bytes_copy(b.as_slice(), 0, t) })
        } else if b.len() >= 1 && b[0] == 46u8 && (b.len() == 1 || b[1] == 47u8) {
            Some(HostPath { bytes: Vec::new() })
        } else {
            None
        }
    }

    /// This path with `p` appended as a further component.
    pub fn join(&self, p: &HostPath) -> (r: HostPath)
        ensures
            r@ == spec_join(self@, p@),
    {
        if p.bytes.len() > 0 && p.bytes[0] == 47u8 {
            return p.clone_path();
        }
        let mut out = bytes_copy(self.bytes.as_slice(), 0, self.bytes.len());
        let n = self.bytes.len();
        if !(n == 0 || self.bytes[n - 1] == 47u8) {
            out.push(47u8);
        }
        let tail = bytes_copy(p.bytes.as_slice(), 0, p.bytes.len());
        let mut tail = tail;
        out.append(&mut tail);
        HostPath { bytes: out }
    }

    /// This path joined with the component spelled by `s`.
    pub fn join_str(&self, s: &str) -> (r: HostPath)
        ensures
            r@ == spec_join(self@, vstd::utf8::encode_utf8(s@)),
    {
        self.join(&HostPath::from_str(s))
    }

    /// A copy with the same spelling.
    pub fn clone_path(&self) -> (r: HostPath)
        ensures
            r@ == self@,
    {
        HostPath { bytes: bytes_copy(self.bytes.as_slice(), 0, self.bytes.len()) }
    }

    /// The file name's extension: the part after its last `.`, unless the
    /// name has no `.` or only a leading one.
    pub fn extension(&self) -> (r: Option<Vec<u8>>)
        ensures
            r matches Some(x) ==> spec_extension(self@) == Some(x@),
            r is None ==> spec_extension(self@) is None,
    {
        match self.file_name() {
            None => None,
            Some(n) => {
                let mut i = n.len();
                while i > 0 && n[i - 1] != 46u8
                    invariant
                        i <= n.len(),
                        last_dot(n@, i as int) == last_dot(n@, n@.len() as int),
                    decreases i,
                {
                    i = i - 1;
                }
                if i <= 1 {
                    None
                } else {
                    Some(bytes_copy(n.as_slice(), i, n.len()))
                }
            },
        }
    }

    /// The path as text, when its bytes are valid UTF-8.
    pub fn to_str(&self) -> (r: Option<String>)
        ensures
            r matches Some(s) ==> spec_utf8_decode(self@) == Some(s@),
            r is None ==> spec_utf8_decode(self@) is None,
    {
        utf8_decode(self.bytes.as_slice())
    }

    /// The path as text for messages: invalid UTF-8 is replaced by U+FFFD.
    pub fn display(&self) -> (r: String)
        ensures
            r@ == spec_lossy_decode(self@),
    {
        lossy_decode(self.bytes.as_slice())
    }
}

/// A single normal component: non-empty, without separators, neither `.` nor `..`.
pub open spec fn is_plain_name(n: Seq<u8>) -> bool {
    &&& n.len() > 0
    &&& forall|i: int| 0 <= i < n.len() ==> #[trigger] n[i] != slash()
    &&& !(n.len() == 1 && n[0] == dot())
    &&& !is_parent_dir(n)
}

/// The path ends with a component that is kept (a name or `..`), with no
/// trailing separator or `.` after it.
pub open spec fn ends_in_component(p: Seq<u8>) -> bool {
    p.len() > body_start(p) && trim_end(p, p.len() as int) == p.len()
}

proof fn lemma_seg_start_prefix(p: Seq<u8>, q: Seq<u8>, lo: int, e: int)
    requires
        0 <= lo,
        e <= p.len() <= q.len(),
        q.subrange(0, p.len() as int) == p,
    ensures
        seg_start(q, lo, e) == seg_start(p, lo, e),
    decreases e - lo,
{
    if e > lo {
        assert(q[e - 1] == q.subrange(0, p.len() as int)[e - 1]);
        lemma_seg_start_prefix(p, q, lo, e - 1);
    }
}

proof fn lemma_trim_end_prefix(p: Seq<u8>, q: Seq<u8>, e: int)
    requires
        0 <= e <= p.len() <= q.len(),
        q.subrange(0, p.len() as int) == p,
        body_start(q) == body_start(p),
    ensures
        trim_end(q, e) == trim_end(p, e),
    decreases e,
{
    if e > body_start(p) {
        lemma_seg_start_prefix(p, q, body_start(p), e);
        lemma_seg_start_bounds(p, body_start(p), e);
        let s = seg_start(p, body_start(p), e);
        if s < e {
            assert(q[s] == q.subrange(0, p.len() as int)[s]);
        }
        if is_skipped(p, s, e) && s > body_start(p) {
            lemma_trim_end_prefix(p, q, s - 1);
        }
    }
}

/// Joining a plain name onto a path that ends in a component gives a path
/// whose final name is that name and whose parent is the original path.
pub proof fn law_join_then_parent(p: Seq<u8>, n: Seq<u8>)
    requires
        ends_in_component(p),
        is_plain_name(n),
    ensures
        spec_file_name(spec_join(p, n)) == Some(n),
        spec_parent(spec_join(p, n)) == Some(p),
        ends_in_component(spec_join(p, n)),
{
    let q = spec_join(p, n);
    lemma_seg_start_bounds(p, body_start(p), p.len() as int);
    let sp = seg_start(p, body_start(p), p.len() as int);
    if p.last() == slash() {
        assert(sp == p.len());
        assert(is_skipped(p, sp, p.len() as int));
        lemma_trim_end_bounds(p, p.len() - 1);
        assert(trim_end(p, p.len() as int) == trim_end(p, p.len() - 1));
        assert(false);
    }
    assert(!has_root(n));
    assert(q == p.push(slash()) + n);
    let l = p.len() as int;
    assert(q.subrange(0, l) =~= p);
    assert(q[0] == p[0]);
    if p.len() >= 2 {
        assert(q[1] == p[1]);
    } else {
        assert(q[1] == slash());
    }
    assert(body_start(q) == body_start(p));
    assert(q[l] == slash());
    assert forall|k: int| l + 1 <= k < q.len() implies q[k] != slash() by {
        assert(q[k] == n[k - l - 1]);
    }
    assert(seg_start(q, body_start(q), q.len() as int) == l + 1) by {
        assert forall|e: int| l + 1 <= e <= q.len() implies seg_start(q, body_start(q), e) == l + 1 by {
            lemma_seg_walk(q, body_start(q), l + 1, e);
        }
    }
    assert(q.subrange(l + 1, q.len() as int) =~= n);
    assert(!is_skipped(q, l + 1, q.len() as int));
    assert(trim_end(q, q.len() as int) == q.len());
    lemma_trim_end_prefix(p, q, l);
    assert(trim_end(q, l) == l);
    assert(q.subrange(0, trim_end(q, l)) =~= p);
}

proof fn lemma_seg_walk(b: Seq<u8>, lo: int, s: int, e: int)
    requires
        0 <= lo < s <= e <= b.len(),
        b[s - 1] == slash(),
        forall|k: int| s <= k < e ==> b[k] != slash(),
    ensures
        seg_start(b, lo, e) == s,
    decreases e - s,
{
    if e > s {
        lemma_seg_walk(b, lo, s, e - 1);
    }
}

} // verus!

verus! {

/// Index of the first separator in `b[i..e]`, or `e`.
pub open spec fn next_sep(b: Seq<u8>, i: int, e: int) -> int
    decreases e - i,
{
    if i >= e {
        e
    } else if b[i] == slash() {
        i
    } else {
        next_sep(b, i + 1, e)
    }
}

pub proof fn lemma_next_sep_bounds(b: Seq<u8>, i: int, e: int)
    requires
        i <= e,
    ensures
        i <= next_sep(b, i, e) <= e,
    decreases e - i,
{
    if i < e && b[i] != slash() {
        lemma_next_sep_bounds(b, i + 1, e);
    }
}

/// The names of the components of `b[i..e]`, skipping empty and `.` ones.
pub open spec fn spec_names(b: Seq<u8>, i: int, e: int) -> Seq<Seq<u8>>
    decreases e - i,
{
    if i >= e {
        seq![]
    } else {
        let j = if i <= next_sep(b, i, e) <= e {
            next_sep(b, i, e)
        } else {
            e
        };
        let rest = if j < e {
            spec_names(b, j + 1, e)
        } else {
            seq![]
        };
        if is_skipped(b, i, j) {
            rest
        } else {
            seq![b.subrange(i, j)] + rest
        }
    }
}

/// The components of a path, as `std::path` compares them: the root (as
/// `/`) or a leading `.`, then the names of its other components.
pub open spec fn spec_components(b: Seq<u8>) -> Seq<Seq<u8>> {
    (if has_root(b) {
        seq![seq![slash()]]
    } else if has_cur_dir(b) {
        seq![seq![dot()]]
    } else {
        seq![]
    }) + spec_names(b, body_start(b), b.len() as int)
}

/// Two spellings name the same path: their components are equal.
pub open spec fn same_path(a: Seq<u8>, b: Seq<u8>) -> bool {
    spec_components(a) == spec_components(b)
}

/// The byte strings of a list.
pub open spec fn byte_views(v: Seq<Vec<u8>>) -> Seq<Seq<u8>> {
    v.map_values(|x: Vec<u8>| x@)
}

impl HostPath {
    /// The path's components (see [`spec_components`]).
    pub fn components(&self) -> (c: Vec<Vec<u8>>)
        ensures
            byte_views(c@) == spec_components(self@),
    {
        let b = &self.bytes;
        let n = b.len();
        let mut out: Vec<Vec<u8>> = Vec::new();
        if n > 0 && b[0] == 47u8 {
            let mut m: Vec<u8> = Vec::new();
            m.push(47u8);
            assert(m@ =~= seq![slash()]);
            out.push(m);
        } else if n >= 1 && b[0] == 46u8 && (n == 1 || b[1] == 47u8) {
            let mut m: Vec<u8> = Vec::new();
            m.push(46u8);
            assert(m@ =~= seq![dot()]);
            out.push(m);
        }
        let mut i = body_start_exec(b);
        assert(byte_views(out@) =~= (if has_root(b@) {
            seq![seq![slash()]]
        } else if has_cur_dir(b@) {
            seq![seq![dot()]]
        } else {
            seq![]
        }));
        assert(byte_views(out@) + spec_names(b@, i as int, n as int) =~= spec_components(b@));
        while i < n
            invariant
                n == b@.len(),
                i <= n,
                byte_views(out@) + spec_names(b@, i as int, n as int) == spec_components(b@),
            decreases n - i,
        {
            let mut j = i;
            while j < n && b[j] != 47u8
                invariant
                    i <= j <= n,
                    n == b@.len(),
                    next_sep(b@, i as int, n as int) == next_sep(b@, j as int, n as int),
                decreases n - j,
            {
                j = j + 1;
            }
            proof {
                lemma_next_sep_bounds(b@, i as int, n as int);
            }
            let ghost rest = if j < n {
                spec_names(b@, j + 1, n as int)
            } else {
                seq![]
            };
            let ghost before = byte_views(out@);
            let skipped = j == i || (j == i + 1 && b[i] == 46u8);
            if !skipped {
                let c = bytes_copy(b.as_slice(), i, j);
                out.push(c);
                assert(byte_views(out@) =~= before.push(b@.subrange(i as int, j as int)));
                assert(before + (seq![b@.subrange(i as int, j as int)] + rest) =~= before.push(
                    b@.subrange(i as int, j as int),
                ) + rest);
            }
            if j < n {
                i = j + 1;
            } else {
                i = n;
            }
        }
        assert(byte_views(out@) =~= byte_views(out@) + spec_names(b@, i as int, n as int));
        out
    }

    /// Whether `other` names the same path, component by component.
    pub fn same_path(&self, other: &HostPath) -> (r: bool)
        ensures
            r == same_path(self@, other@),
    {
        let a = self.components();
        let c = other.components();
        if a.len() != c.len() {
            assert(spec_components(self@).len() != spec_components(other@).len());
            return false;
        }
        let mut i: usize = 0;
        while i < a.len()
            invariant
                i <= a@.len(),
                a@.len() == c@.len(),
                byte_views(a@) == spec_components(self@),
                byte_views(c@) == spec_components(other@),
                forall|k: int| 0 <= k < i ==> a@[k]@ == c@[k]@,
            decreases a@.len() - i,
        {
            if !crate::backend::bytes_equal(&a[i], &c[i]) {
                assert(byte_views(a@)[i as int] == a@[i as int]@);
                assert(byte_views(c@)[i as int] == c@[i as int]@);
                assert(byte_views(a@)[i as int] != byte_views(c@)[i as int]);
                assert(spec_components(self@)[i as int] != spec_components(other@)[i as int]);
                return false;
            }
            i = i + 1;
        }
        assert(byte_views(a@) =~= byte_views(c@));
        assert(spec_components(self@) == spec_components(other@));
        true
    }
}

} // verus!
