//! The cuDNN SDK installation: where its headers are searched, and its version
//! as declared by `cudnn_version.h`. Reading the file system is left to the
//! caller; the search order and the header's interpretation are decided here.

use vstd::prelude::*;
use crate::backend::{HostOs, spellings};
use crate::path::{HostPath, spec_join};
use crate::text::{chars_of, chars_contain, concat_str, push_char, seq_contains};

verus! {

/// A located cuDNN SDK: its include directory and its (major, minor, patch) version.
#[derive(Clone, Debug)]
pub struct CudnnSdk {
    cudnn_include_path: HostPath,
    cudnn_version: [u32; 3],
}

impl View for CudnnSdk {
    type V = (Seq<u8>, u32, u32, u32);

    closed spec fn view(&self) -> (Seq<u8>, u32, u32, u32) {
        (
            self.cudnn_include_path@,
            self.cudnn_version@[0],
            self.cudnn_version@[1],
            self.cudnn_version@[2],
        )
    }
}

/// `c` has the Unicode `White_Space` property (what `char::is_whitespace` tests).
pub open spec fn is_white_space(c: char) -> bool {
    let u = c as u32;
    (9 <= u <= 13) || u == 32 || u == 0x85 || u == 0xA0 || u == 0x1680 || (0x2000 <= u
        <= 0x200A) || u == 0x2028 || u == 0x2029 || u == 0x202F || u == 0x205F || u == 0x3000
}

pub(crate) fn is_white_space_exec(c: char) -> (r: bool)
    ensures
        r == is_white_space(c),
{
    let u = c as u32;
    (9 <= u && u <= 13) || u == 32 || u == 0x85 || u == 0xA0 || u == 0x1680 || (0x2000 <= u && u
        <= 0x200A) || u == 0x2028 || u == 0x2029 || u == 0x202F || u == 0x205F || u == 0x3000
}

/// Lines completed, and the text of the line in progress, after reading `s[..i]`.
/// A completed line loses its `\n` and then a `\r` just before it.
pub open spec fn text_lines_upto(s: Seq<char>, i: int) -> (Seq<Seq<char>>, Seq<char>)
    decreases i,
{
    if i <= 0 {
        (seq![], seq![])
    } else {
        let (done, cur) = text_lines_upto(s, i - 1);
        if s[i - 1] == '\n' {
            (done.push(strip_cr(cur)), seq![])
        } else {
            (done, cur.push(s[i - 1]))
        }
    }
}

/// `l` without one trailing `\r`.
pub open spec fn strip_cr(l: Seq<char>) -> Seq<char> {
    if l.len() > 0 && l.last() == '\r' { l.drop_last() } else { l }
}

/// The lines of `s` as `str::lines` gives them: split after each `\n`, line
/// endings `\n` and `\r\n` removed, and no empty line after a final `\n`.
pub open spec fn spec_text_lines(s: Seq<char>) -> Seq<Seq<char>> {
    let (done, cur) = text_lines_upto(s, s.len() as int);
    if cur.len() > 0 { done.push(cur) } else { done }
}

/// The first of `lines` in which `pat` occurs.
pub open spec fn first_line_with(lines: Seq<Seq<char>>, pat: Seq<char>) -> Option<Seq<char>>
    decreases lines.len(),
{
    if lines.len() == 0 {
        None
    } else if seq_contains(lines[0], pat) {
        Some(lines[0])
    } else {
        first_line_with(lines.drop_first(), pat)
    }
}

/// End of `l[..e]` once trailing white space is dropped.
pub open spec fn trim_ws_end(l: Seq<char>, e: int) -> int
    decreases e,
{
    if e <= 0 {
        0
    } else if is_white_space(l[e - 1]) {
        trim_ws_end(l, e - 1)
    } else {
        e
    }
}

/// Start of the run of non-white-space characters that ends at `e`.
pub open spec fn token_start(l: Seq<char>, e: int) -> int
    decreases e,
{
    if e <= 0 {
        0
    } else if is_white_space(l[e - 1]) {
        e
    } else {
        token_start(l, e - 1)
    }
}

/// The last white-space separated word of `l`, if any.
pub open spec fn last_word(l: Seq<char>) -> Option<Seq<char>> {
    let e = trim_ws_end(l, l.len() as int);
    if e == 0 { None } else { Some(l.subrange(token_start(l, e), e)) }
}

pub open spec fn is_ascii_digit(c: char) -> bool {
    '0' <= c && c <= '9'
}

/// The value of a string of decimal digits.
pub open spec fn decimal_value(d: Seq<char>) -> nat
    decreases d.len(),
{
    if d.len() == 0 {
        0
    } else {
        decimal_value(d.drop_last()) * 10 + ((d.last() as u32) - 48) as nat
    }
}

/// `s` without one leading `+`.
pub open spec fn unsigned_digits(s: Seq<char>) -> Seq<char> {
    if s.len() > 0 && s[0] == '+' { s.drop_first() } else { s }
}

/// Every character of `d` is an ASCII digit.
pub open spec fn all_ascii_digits(d: Seq<char>) -> bool {
    forall|i: int| 0 <= i < d.len() ==> is_ascii_digit(#[trigger] d[i])
}

/// What `str::parse::<u32>` accepts: an optional `+`, then one or more ASCII
/// digits whose value fits in a `u32`.
pub open spec fn spec_parse_u32(s: Seq<char>) -> Option<u32> {
    let d = unsigned_digits(s);
    if d.len() == 0 || !all_ascii_digits(d) {
        None
    } else if decimal_value(d) > u32::MAX {
        None
    } else {
        Some(decimal_value(d) as u32)
    }
}

/// The `#define` line that declares the macro `name`.
pub open spec fn define_pattern(name: Seq<char>) -> Seq<char> {
    "#define "@ + name
}

/// The value of the version macro `name` in the header text, or the message of
/// the error: no line defines it (or the line holds no word), or its value is
/// not a `u32`.
pub open spec fn spec_version_field(header: Seq<char>, name: Seq<char>) -> Result<u32, Seq<char>> {
    let missing = "Cannot find "@ + name + " from cuDNN header file."@;
    match first_line_with(spec_text_lines(header), define_pattern(name)) {
        None => Err(missing),
        Some(line) => match last_word(line) {
            None => Err(missing),
            Some(w) => match spec_parse_u32(w) {
                Some(v) => Ok(v),
                None => Err("Cannot parse "@ + name + " as u32: '"@ + w + "'"@),
            },
        },
    }
}

/// The (major, minor, patch) version a `cudnn_version.h` declares, or the
/// message of the first field that cannot be read.
pub open spec fn spec_parse_cudnn_version(header: Seq<char>) -> Result<(u32, u32, u32), Seq<char>> {
    match spec_version_field(header, "CUDNN_MAJOR"@) {
        Err(m) => Err(m),
        Ok(major) => match spec_version_field(header, "CUDNN_MINOR"@) {
            Err(m) => Err(m),
            Ok(minor) => match spec_version_field(header, "CUDNN_PATCHLEVEL"@) {
                Err(m) => Err(m),
                Ok(patch) => Ok((major, minor, patch)),
            },
        },
    }
}

proof fn lemma_text_lines_prefix(s: Seq<char>, i: int, j: int)
    requires
        0 <= i <= j <= s.len(),
    ensures
        text_lines_upto(s, i).0.len() <= text_lines_upto(s, j).0.len(),
        forall|k: int|
            0 <= k < text_lines_upto(s, i).0.len() ==> #[trigger] text_lines_upto(s, j).0[k]
                == text_lines_upto(s, i).0[k],
    decreases j - i,
{
    if i < j {
        lemma_text_lines_prefix(s, i, j - 1);
    }
}

proof fn lemma_first_line_with_prefix(lines: Seq<Seq<char>>, n: int, pat: Seq<char>)
    requires
        0 <= n < lines.len(),
        forall|k: int| 0 <= k < n ==> !seq_contains(#[trigger] lines[k], pat),
        seq_contains(lines[n], pat),
    ensures
        first_line_with(lines, pat) == Some(lines[n]),
    decreases n,
{
    if n > 0 {
        assert(!seq_contains(lines[0], pat));
        assert forall|k: int| 0 <= k < n - 1 implies !seq_contains(
            #[trigger] lines.drop_first()[k],
            pat,
        ) by {
            assert(lines.drop_first()[k] == lines[k + 1]);
        }
        lemma_first_line_with_prefix(lines.drop_first(), n - 1, pat);
    }
}

proof fn lemma_first_line_with_none(lines: Seq<Seq<char>>, pat: Seq<char>)
    requires
        forall|k: int| 0 <= k < lines.len() ==> !seq_contains(#[trigger] lines[k], pat),
    ensures
        first_line_with(lines, pat) is None,
    decreases lines.len(),
{
    if lines.len() > 0 {
        assert(!seq_contains(lines[0], pat));
        assert forall|k: int| 0 <= k < lines.len() - 1 implies !seq_contains(
            #[trigger] lines.drop_first()[k],
            pat,
        ) by {
            assert(lines.drop_first()[k] == lines[k + 1]);
        }
        lemma_first_line_with_none(lines.drop_first(), pat);
    }
}

/// The first line of `text` in which `pat` occurs.
fn first_line_containing(text: &Vec<char>, pat: &Vec<char>) -> (r: Option<Vec<char>>)
    ensures
        match first_line_with(spec_text_lines(text@), pat@) {
            Some(l) => r matches Some(v) && v@ == l,
            None => r is None,
        },
{
    let ghost s = text@;
    let ghost mut done: Seq<Seq<char>> = seq![];
    let mut cur: Vec<char> = Vec::new();
    let mut i: usize = 0;
    while i < text.len()
        invariant
            s == text@,
            i <= s.len(),
            text_lines_upto(s, i as int) == (done, cur@),
            forall|k: int| 0 <= k < done.len() ==> !seq_contains(#[trigger] done[k], pat@),
        decreases s.len() - i,
    {
        if text[i] == '\n' {
            if cur.len() > 0 && cur[cur.len() - 1] == '\r' {
                cur.pop();
            }
            let ghost line = cur@;
            proof {
                assert(line == strip_cr(text_lines_upto(s, i as int).1));
                lemma_text_lines_prefix(s, i + 1, s.len() as int);
                assert(text_lines_upto(s, i + 1).0 == done.push(line));
            }
            if chars_contain(&cur, pat) {
                proof {
                    let all = spec_text_lines(s);
                    let fin = text_lines_upto(s, s.len() as int).0;
                    assert(fin[done.len() as int] == line);
                    assert forall|k: int| 0 <= k < done.len() implies !seq_contains(
                        #[trigger] all[k],
                        pat@,
                    ) by {
                        assert(fin[k] == done.push(line)[k]);
                        assert(all[k] == fin[k]);
                    }
                    assert(all[done.len() as int] == line);
                    lemma_first_line_with_prefix(all, done.len() as int, pat@);
                }
                return Some(cur);
            }
            proof {
                assert forall|k: int| 0 <= k < done.len() + 1 implies !seq_contains(
                    #[trigger] done.push(line)[k],
                    pat@,
                ) by {
                    if k < done.len() {
                        assert(done.push(line)[k] == done[k]);
                    }
                }
                done = done.push(line);
            }
            cur = Vec::new();
        } else {
            cur.push(text[i]);
        }
        i = i + 1;
    }
    proof {
        let all = spec_text_lines(s);
        if cur@.len() > 0 {
            assert(all == done.push(cur@));
        } else {
            assert(all == done);
        }
    }
    if cur.len() > 0 && chars_contain(&cur, pat) {
        proof {
            let all = spec_text_lines(s);
            assert forall|k: int| 0 <= k < done.len() implies !seq_contains(#[trigger] all[k], pat@) by {
                assert(all[k] == done[k]);
            }
            lemma_first_line_with_prefix(all, done.len() as int, pat@);
        }
        return Some(cur);
    }
    proof {
        let all = spec_text_lines(s);
        assert forall|k: int| 0 <= k < all.len() implies !seq_contains(#[trigger] all[k], pat@) by {
            if k < done.len() {
                assert(all[k] == done[k]);
            }
        }
        lemma_first_line_with_none(all, pat@);
    }
    None
}

/// The last white-space separated word of `l`.
fn last_word_exec(l: &Vec<char>) -> (r: Option<Vec<char>>)
    ensures
        match last_word(l@) {
            Some(w) => r matches Some(v) && v@ == w,
            None => r is None,
        },
{
    let mut e = l.len();
    while e > 0 && is_white_space_exec(l[e - 1])
        invariant
            e <= l@.len(),
            trim_ws_end(l@, e as int) == trim_ws_end(l@, l@.len() as int),
        decreases e,
    {
        e = e - 1;
    }
    if e == 0 {
        return None;
    }
    let mut s = e;
    while s > 0 && !is_white_space_exec(l[s - 1])
        invariant
            s <= e <= l@.len(),
            token_start(l@, s as int) == token_start(l@, e as int),
        decreases s,
    {
        s = s - 1;
    }
    let mut w: Vec<char> = Vec::new();
    let mut k = s;
    while k < e
        invariant
            s <= k <= e <= l@.len(),
            w@ == l@.subrange(s as int, k as int),
        decreases e - k,
    {
        w.push(l[k]);
        k = k + 1;
        assert(w@ =~= l@.subrange(s as int, k as int));
    }
    Some(w)
}

proof fn lemma_decimal_monotone(d: Seq<char>, n: int)
    requires
        0 <= n <= d.len(),
        forall|i: int| 0 <= i < d.len() ==> is_ascii_digit(#[trigger] d[i]),
    ensures
        decimal_value(d.subrange(0, n)) <= decimal_value(d),
    decreases d.len() - n,
{
    if n < d.len() {
        lemma_decimal_monotone(d, n + 1);
        let p = d.subrange(0, n + 1);
        assert(p.drop_last() =~= d.subrange(0, n));
    } else {
        assert(d.subrange(0, n) =~= d);
    }
}

/// Parse a `u32` the way `str::parse::<u32>` does.
fn parse_u32(s: &Vec<char>) -> (r: Option<u32>)
    ensures
        r == spec_parse_u32(s@),
{
    let start: usize = if s.len() > 0 && s[0] == '+' { 1 } else { 0 };
    let ghost d = unsigned_digits(s@);
    assert(d =~= s@.subrange(start as int, s@.len() as int));
    if start == s.len() {
        return None;
    }
    let mut i = start;
    while i < s.len()
        invariant
            start <= i <= s@.len(),
            d == s@.subrange(start as int, s@.len() as int),
            d == unsigned_digits(s@),
            forall|k: int| start <= k < i ==> is_ascii_digit(#[trigger] s@[k]),
        decreases s@.len() - i,
    {
        if !('0' <= s[i] && s[i] <= '9') {
            assert(d[i - start] == s@[i as int]);
            assert(!is_ascii_digit(d[i - start]));
            return None;
        }
        i = i + 1;
    }
    assert forall|k: int| 0 <= k < d.len() implies is_ascii_digit(#[trigger] d[k]) by {
        assert(d[k] == s@[k + start]);
    }
    let mut v: u64 = 0;
    let mut j = start;
    while j < s.len()
        invariant
            start <= j <= s@.len(),
            d == s@.subrange(start as int, s@.len() as int),
            d == unsigned_digits(s@),
            d.len() > 0,
            forall|k: int| 0 <= k < d.len() ==> is_ascii_digit(#[trigger] d[k]),
            v as nat == decimal_value(d.subrange(0, j - start)),
            v <= u32::MAX,
        decreases s@.len() - j,
    {
        assert(d[j - start] == s@[j as int]);
        assert(is_ascii_digit(s@[j as int]));
        let digit = (s[j] as u32 - 48) as u64;
        proof {
            assert(d.subrange(0, j + 1 - start).drop_last() =~= d.subrange(0, j - start));
            assert(d.subrange(0, j + 1 - start).last() == s@[j as int]);
        }
        let next = v * 10 + digit;
        if next > 4294967295u64 {
            proof {
                lemma_decimal_monotone(d, j + 1 - start);
                assert(decimal_value(d.subrange(0, j + 1 - start)) == next);
            }
            return None;
        }
        v = next;
        j = j + 1;
    }
    assert(d.subrange(0, d.len() as int) =~= d);
    Some(v as u32)
}

/// The message for a macro that cannot be found.
fn missing_message(name: &str) -> (m: String)
    ensures
        m@ == "Cannot find "@ + name@ + " from cuDNN header file."@,
{
    let mut m = String::from_str("Cannot find ");
    m.append(name);
    m.append(" from cuDNN header file.");
    m
}

/// The text of a character vector.
fn string_of(v: &Vec<char>) -> (s: String)
    ensures
        s@ == v@,
{
    let mut s = String::new();
    let mut i: usize = 0;
    while i < v.len()
        invariant
            i <= v@.len(),
            s@ == v@.take(i as int),
        decreases v@.len() - i,
    {
        push_char(&mut s, v[i]);
        i = i + 1;
        assert(s@ =~= v@.take(i as int));
    }
    assert(v@.take(v@.len() as int) =~= v@);
    s
}

fn version_field(text: &Vec<char>, name: &str) -> (r: Result<u32, String>)
    ensures
        match spec_version_field(text@, name@) {
            Ok(v) => r == Ok::<u32, String>(v),
            Err(m) => r matches Err(s) && s@ == m,
        },
{
    let pattern_text = concat_str("#define ", name);
    let pattern = chars_of(pattern_text.as_str());
    match first_line_containing(text, &pattern) {
        None => Err(missing_message(name)),
        Some(line) => match last_word_exec(&line) {
            None => Err(missing_message(name)),
            Some(w) => match parse_u32(&w) {
                Some(v) => Ok(v),
                None => {
                    let mut m = String::from_str("Cannot parse ");
                    m.append(name);
                    m.append(" as u32: '");
                    let shown = string_of(&w);
                    m.append(shown.as_str());
                    m.append("'");
                    Err(m)
                },
            },
        },
    }
}

/// The directory found is the first searched one that holds both headers.
proof fn lemma_found_dir(dirs: Seq<Seq<u8>>, is_include: Seq<bool>)
    requires
        dirs.len() == is_include.len(),
    ensures
        spec_find_include_dir(dirs, is_include) matches Ok(p) ==> exists|i: int|
            0 <= i < dirs.len() && is_include[i] && dirs[i] == p && forall|j: int| 0 <= j < i ==> !is_include[j],
    decreases dirs.len(),
{
    if dirs.len() > 0 && !is_include[0] {
        lemma_found_dir(dirs.drop_first(), is_include.drop_first());
        if spec_find_include_dir(dirs, is_include) is Ok {
            let p = spec_find_include_dir(dirs, is_include)->Ok_0;
            let k = choose|k: int|
                0 <= k < dirs.drop_first().len() && is_include.drop_first()[k] && dirs.drop_first()[k] == p
                    && forall|j: int| 0 <= j < k ==> !is_include.drop_first()[j];
            assert(is_include[k + 1] && dirs[k + 1] == p);
            assert forall|j: int| 0 <= j < k + 1 implies !is_include[j] by {
                if j > 0 {
                    assert(is_include[j] == is_include.drop_first()[j - 1]);
                }
            }
        }
    } else if dirs.len() > 0 {
        assert(is_include[0] && dirs[0] == dirs[0]);
    }
}

impl CudnnSdk {
    /// The cuDNN installation: the first of the searched `dirs` that holds
    /// both headers (`is_include[i]` tells whether `dirs[i]` does), with the
    /// version that directory's `cudnn_version.h` (whose text is
    /// `header_content`) declares. Errors say that no directory holds the
    /// headers, or which version macro is missing or unparsable.
    pub fn new(dirs: &Vec<HostPath>, is_include: &Vec<bool>, header_content: &str) -> (r: Result<
        CudnnSdk,
        String,
    >)
        requires
            dirs@.len() == is_include@.len(),
        ensures
            match spec_find_include_dir(spellings(dirs@), is_include@) {
                Err(m) => r matches Err(s) && s@ == m,
                Ok(p) => match spec_parse_cudnn_version(header_content@) {
                    Ok(v) => r matches Ok(sdk) && sdk@ == (p, v.0, v.1, v.2),
                    Err(m) => r matches Err(s) && s@ == m,
                },
            },
            r matches Ok(sdk) ==> exists|i: int|
                0 <= i < dirs@.len() && is_include@[i] && dirs@[i]@ == sdk@.0,
    {
        proof {
            lemma_found_dir(spellings(dirs@), is_include@);
        }
        match find_cudnn_include_dir(dirs, is_include) {
            Err(m) => Err(m),
            Ok(p) => Self::from_header(p, header_content),
        }
    }

    /// The SDK found at `include_path`, with the version its `cudnn_version.h`
    /// (whose text is `header_content`) declares.
    fn from_header(include_path: HostPath, header_content: &str) -> (r: Result<CudnnSdk, String>)
        ensures
            match spec_parse_cudnn_version(header_content@) {
                Ok(v) => r matches Ok(sdk) && sdk@ == (include_path@, v.0, v.1, v.2),
                Err(m) => r matches Err(s) && s@ == m,
            },
    {
        match Self::parse_cudnn_version(header_content) {
            Ok(v) => Ok(CudnnSdk { cudnn_include_path: include_path, cudnn_version: v }),
            Err(m) => Err(m),
        }
    }

    /// The (major, minor, patch) version declared by the text of `cudnn_version.h`.
    pub fn parse_cudnn_version(header_content: &str) -> (r: Result<[u32; 3], String>)
        ensures
            match spec_parse_cudnn_version(header_content@) {
                Ok(v) => r matches Ok(a) && a@ == seq![v.0, v.1, v.2],
                Err(m) => r matches Err(s) && s@ == m,
            },
    {
        let text = chars_of(header_content);
        let major = match version_field(&text, "CUDNN_MAJOR") {
            Ok(v) => v,
            Err(m) => return Err(m),
        };
        let minor = match version_field(&text, "CUDNN_MINOR") {
            Ok(v) => v,
            Err(m) => return Err(m),
        };
        let patch = match version_field(&text, "CUDNN_PATCHLEVEL") {
            Ok(v) => v,
            Err(m) => return Err(m),
        };
        let a = [major, minor, patch];
        assert(a@ =~= seq![major, minor, patch]);
        Ok(a)
    }

    /// The include directory holding the cuDNN headers.
    pub fn cudnn_include_path(&self) -> (p: &HostPath)
        ensures
            p@ == self@.0,
    {
        &self.cudnn_include_path
    }

    /// The full version as one number, e.g. 90800 for cuDNN 9.8.0.
    pub fn cudnn_version(&self) -> (v: u32)
        requires
            self@.1 * 10000 + self@.2 * 100 + self@.3 <= u32::MAX,
        ensures
            v == self@.1 * 10000 + self@.2 * 100 + self@.3,
    {
        let major = self.cudnn_version[0];
        let minor = self.cudnn_version[1];
        let patch = self.cudnn_version[2];
        assert(major * 10000 <= u32::MAX) by (nonlinear_arith)
            requires
                major * 10000 + minor * 100 + patch <= u32::MAX,
                minor * 100 >= 0,
        ;
        major * 10000 + minor * 100 + patch
    }

    pub fn cudnn_version_major(&self) -> (v: u32)
        ensures
            v == self@.1,
    {
        self.cudnn_version[0]
    }

    pub fn cudnn_version_minor(&self) -> (v: u32)
        ensures
            v == self@.2,
    {
        self.cudnn_version[1]
    }

    pub fn cudnn_version_patch(&self) -> (v: u32)
        ensures
            v == self@.3,
    {
        self.cudnn_version[2]
    }
}

/// The two headers whose presence marks a cuDNN include directory.
pub open spec fn spec_cudnn_header_files(dir: Seq<u8>) -> Seq<Seq<u8>> {
    seq![
        spec_join(dir, vstd::utf8::encode_utf8("cudnn.h"@)),
        spec_join(dir, vstd::utf8::encode_utf8("cudnn_version.h"@)),
    ]
}

/// The files that must exist in a cuDNN include directory.
pub fn cudnn_header_files(dir: &HostPath) -> (files: Vec<HostPath>)
    ensures
        spellings(files@) == spec_cudnn_header_files(dir@),
{
    let mut files: Vec<HostPath> = Vec::new();
    files.push(dir.join_str("cudnn.h"));
    files.push(dir.join_str("cudnn_version.h"));
    assert(spellings(files@) =~= spec_cudnn_header_files(dir@));
    files
}

} // verus!

verus! {

/// The include directories searched by default on hosts other than Windows.
pub open spec fn spec_unix_cudnn_dirs() -> Seq<Seq<char>> {
    seq![
        "/usr/include"@,
        "/usr/local/include"@,
        "/usr/include/x86_64-linux-gnu"@,
        "/usr/include/aarch64-linux-gnu"@,
        "/usr/local/include/x86_64-linux-gnu"@,
        "/usr/local/include/aarch64-linux-gnu"@,
    ]
}

/// The legacy standalone cuDNN include directories searched on Windows.
pub open spec fn spec_windows_cudnn_dirs() -> Seq<Seq<char>> {
    seq![
        "C:/Program Files/NVIDIA/CUDNN/v9.x/include"@,
        "C:/Program Files/NVIDIA/CUDNN/v8.x/include"@,
    ]
}

/// The directories on Windows whose versioned subdirectories may hold cuDNN.
pub open spec fn spec_windows_cudnn_bases() -> Seq<Seq<char>> {
    seq!["C:/Program Files/NVIDIA/CUDNN"@, "C:/Program Files/NVIDIA GPU Computing Toolkit/CUDA"@]
}

/// A directory name like `v9.0` or `v13.2`: `v`, then dot-separated groups of
/// one or more ASCII digits.
pub open spec fn is_version_dir_name(name: Seq<char>) -> bool {
    &&& name.len() >= 2
    &&& name[0] == 'v'
    &&& forall|i: int| 1 <= i < name.len() ==> is_ascii_digit(#[trigger] name[i]) || name[i] == '.'
    &&& name[1] != '.'
    &&& name.last() != '.'
    &&& forall|i: int| 1 <= i < name.len() - 1 ==> !(#[trigger] name[i] == '.' && name[i + 1] == '.')
}

/// Whether a directory name is a version like `v9.0` or `v13.2`.
pub fn version_dir_name(name: &str) -> (r: bool)
    ensures
        r == is_version_dir_name(name@),
{
    let n = chars_of(name);
    if n.len() < 2 || n[0] != 'v' || n[1] == '.' || n[n.len() - 1] == '.' {
        return false;
    }
    let mut i: usize = 1;
    while i < n.len()
        invariant
            1 <= i <= n@.len(),
            n@ == name@,
            n@.len() >= 2,
            forall|k: int| 1 <= k < i ==> is_ascii_digit(#[trigger] n@[k]) || n@[k] == '.',
            forall|k: int| 1 <= k < i - 1 ==> !(#[trigger] n@[k] == '.' && n@[k + 1] == '.'),
        decreases n@.len() - i,
    {
        let c = n[i];
        if !(('0' <= c && c <= '9') || c == '.') {
            assert(!(is_ascii_digit(n@[i as int]) || n@[i as int] == '.'));
            return false;
        }
        if c == '.' && i > 1 && n[i - 1] == '.' {
            assert(n@[i - 1] == '.' && n@[(i - 1) + 1] == '.');
            return false;
        }
        i = i + 1;
    }
    true
}

/// The include directories searched for cuDNN, in order: the platform's
/// defaults (on Windows also `<base>/<version>/include` for each listed
/// versioned directory), then the override, when one is given.
pub open spec fn spec_cudnn_search_dirs(
    os: HostOs,
    listed: Seq<(Seq<u8>, Seq<char>)>,
    override_dir: Option<Seq<u8>>,
) -> Seq<Seq<u8>> {
    (if os == HostOs::Windows {
        crate::kernel_build::utf8_all(spec_windows_cudnn_dirs()) + versioned_include_dirs(listed)
    } else {
        crate::kernel_build::utf8_all(spec_unix_cudnn_dirs())
    }) + match override_dir {
        Some(d) => seq![d],
        None => seq![],
    }
}

/// `<base>/<name>/include` for each listed directory whose name is a version.
pub open spec fn versioned_include_dirs(listed: Seq<(Seq<u8>, Seq<char>)>) -> Seq<Seq<u8>>
    decreases listed.len(),
{
    if listed.len() == 0 {
        seq![]
    } else {
        let (base, name) = listed.last();
        versioned_include_dirs(listed.drop_last()) + if is_version_dir_name(name) {
            seq![
                spec_join(
                    spec_join(base, vstd::utf8::encode_utf8(name)),
                    vstd::utf8::encode_utf8("include"@),
                ),
            ]
        } else {
            seq![]
        }
    }
}

/// The spelling and name of each listed directory.
pub open spec fn listed_views(v: Seq<(HostPath, String)>) -> Seq<(Seq<u8>, Seq<char>)> {
    v.map_values(|e: (HostPath, String)| (e.0@, e.1@))
}

fn push_dir_str(v: &mut Vec<HostPath>, s: &str)
    ensures
        spellings(final(v)@) == spellings(old(v)@).push(vstd::utf8::encode_utf8(s@)),
{
    let ghost before = v@;
    v.push(HostPath::from_str(s));
    assert(spellings(v@) =~= spellings(before).push(vstd::utf8::encode_utf8(s@)));
}

/// The Windows directories whose versioned subdirectories the caller lists.
pub fn windows_cudnn_bases() -> (v: Vec<HostPath>)
    ensures
        spellings(v@) == crate::kernel_build::utf8_all(spec_windows_cudnn_bases()),
{
    let mut v: Vec<HostPath> = Vec::new();
    push_dir_str(&mut v, "C:/Program Files/NVIDIA/CUDNN");
    push_dir_str(&mut v, "C:/Program Files/NVIDIA GPU Computing Toolkit/CUDA");
    assert(spellings(v@) =~= crate::kernel_build::utf8_all(spec_windows_cudnn_bases()));
    v
}

/// The include directories to search for cuDNN. On Windows, `listed` holds
/// each subdirectory found under [`windows_cudnn_bases`] as (base, name).
pub fn cudnn_search_dirs(
    os: HostOs,
    listed: &Vec<(HostPath, String)>,
    override_dir: Option<HostPath>,
) -> (dirs: Vec<HostPath>)
    ensures
        spellings(dirs@) == spec_cudnn_search_dirs(
            os,
            listed_views(listed@),
            match override_dir {
                Some(d) => Some(d@),
                None => None,
            },
        ),
{
    let mut dirs: Vec<HostPath> = Vec::new();
    if os == HostOs::Windows {
        push_dir_str(&mut dirs, "C:/Program Files/NVIDIA/CUDNN/v9.x/include");
        push_dir_str(&mut dirs, "C:/Program Files/NVIDIA/CUDNN/v8.x/include");
        let ghost base = spellings(dirs@);
        assert(base =~= crate::kernel_build::utf8_all(spec_windows_cudnn_dirs()));
        let ghost lv = listed_views(listed@);
        let mut i: usize = 0;
        while i < listed.len()
            invariant
                i <= listed@.len(),
                lv == listed_views(listed@),
                spellings(dirs@) == base + versioned_include_dirs(lv.take(i as int)),
            decreases listed@.len() - i,
        {
            proof {
                assert(lv.take(i + 1).drop_last() =~= lv.take(i as int));
                assert(lv.take(i + 1).last() == (listed@[i as int].0@, listed@[i as int].1@));
            }
            let ghost before = spellings(dirs@);
            let (b, name) = &listed[i];
            if version_dir_name(name.as_str()) {
                let d = b.join_str(name.as_str()).join_str("include");
                let ghost dv = d@;
                dirs.push(d);
                assert(spellings(dirs@) =~= before.push(dv));
                assert(before.push(dv) =~= before + seq![dv]);
            } else {
                assert(before =~= before + Seq::<Seq<u8>>::empty());
            }
            i = i + 1;
        }
        assert(lv.take(listed@.len() as int) =~= lv);
    } else {
        push_dir_str(&mut dirs, "/usr/include");
        push_dir_str(&mut dirs, "/usr/local/include");
        push_dir_str(&mut dirs, "/usr/include/x86_64-linux-gnu");
        push_dir_str(&mut dirs, "/usr/include/aarch64-linux-gnu");
        push_dir_str(&mut dirs, "/usr/local/include/x86_64-linux-gnu");
        push_dir_str(&mut dirs, "/usr/local/include/aarch64-linux-gnu");
        assert(spellings(dirs@) =~= crate::kernel_build::utf8_all(spec_unix_cudnn_dirs()));
    }
    let ghost mid = spellings(dirs@);
    match override_dir {
        Some(d) => {
            let ghost dv = d@;
            dirs.push(d);
            assert(spellings(dirs@) =~= mid + seq![dv]);
        },
        None => {
            assert(mid =~= mid + Seq::<Seq<u8>>::empty());
        },
    }
    dirs
}

/// The first searched directory that holds the cuDNN headers, or the message
/// saying none does. `is_include[i]` tells whether `dirs[i]` holds both headers.
pub open spec fn spec_find_include_dir(dirs: Seq<Seq<u8>>, is_include: Seq<bool>) -> Result<
    Seq<u8>,
    Seq<char>,
>
    decreases dirs.len(),
{
    if dirs.len() == 0 || is_include.len() == 0 {
        Err("Cannot find cuDNN include directory."@)
    } else if is_include[0] {
        Ok(dirs[0])
    } else {
        spec_find_include_dir(dirs.drop_first(), is_include.drop_first())
    }
}

/// Pick the cuDNN include directory among the searched ones.
pub fn find_cudnn_include_dir(dirs: &Vec<HostPath>, is_include: &Vec<bool>) -> (r: Result<
    HostPath,
    String,
>)
    requires
        dirs@.len() == is_include@.len(),
    ensures
        crate::backend::path_outcome(r) == spec_find_include_dir(spellings(dirs@), is_include@),
{
    let ghost sv = spellings(dirs@);
    let mut i: usize = 0;
    assert(sv.skip(0) =~= sv);
    assert(is_include@.skip(0) =~= is_include@);
    while i < dirs.len()
        invariant
            i <= dirs@.len(),
            dirs@.len() == is_include@.len(),
            sv == spellings(dirs@),
            spec_find_include_dir(sv, is_include@) == spec_find_include_dir(
                sv.skip(i as int),
                is_include@.skip(i as int),
            ),
        decreases dirs@.len() - i,
    {
        assert(sv.skip(i as int).drop_first() =~= sv.skip(i + 1));
        assert(is_include@.skip(i as int).drop_first() =~= is_include@.skip(i + 1));
        assert(sv.skip(i as int)[0] == dirs@[i as int]@);
        assert(is_include@.skip(i as int)[0] == is_include@[i as int]);
        if is_include[i] {
            return Ok(dirs[i].clone_path());
        }
        i = i + 1;
    }
    assert(sv.skip(i as int).len() == 0);
    Err(String::from_str("Cannot find cuDNN include directory."))
}

} // verus!

verus! {

/// On every host, a `CUDNN_INCLUDE_DIR` override is searched, and last:
/// the search directories with an override are those without it, followed
/// by the override.
pub proof fn law_override_is_searched_last(
    os: HostOs,
    listed: Seq<(Seq<u8>, Seq<char>)>,
    dir: Seq<u8>,
)
    ensures
        spec_cudnn_search_dirs(os, listed, Some(dir)) == spec_cudnn_search_dirs(os, listed, None).push(dir),
        spec_cudnn_search_dirs(os, listed, Some(dir)).last() == dir,
        spec_cudnn_search_dirs(os, listed, Some(dir)).len() == spec_cudnn_search_dirs(os, listed, None).len()
            + 1,
{
    assert(spec_cudnn_search_dirs(os, listed, Some(dir)) =~= spec_cudnn_search_dirs(os, listed, None).push(
        dir,
    ));
}

} // verus!
