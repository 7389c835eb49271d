//! Paths as `/`-separated text: the file name of a path, its parent, and the
//! path that differs from it in the file name only.
//!
//! A path is read from its end. Separators and `.` parts at the end say
//! nothing and are passed over; the part before them is the file name, unless
//! it is `..`. A leading `/` (the root) or a leading `.` part (the current
//! directory) is the anchor of the path and is never passed over.

use crate::text::to_chars;
use vstd::prelude::*;
use vstd::string::StringExecFns;

verus! {

/// The length of the anchor of `p`: 1 for a leading `/` and for a leading
/// `.` part, else 0.
pub open spec fn anchor_len(p: Seq<char>) -> int {
    if p.len() > 0 && p[0] == '/' {
        1
    } else if p.len() > 0 && p[0] == '.' && (p.len() == 1 || p[1] == '/') {
        1
    } else {
        0
    }
}

/// The length of the first `n` characters of `p` once the empty parts and
/// the `.` parts at their end are dropped, each with the separator before it.
/// The anchor stays.
pub open spec fn trimmed_len(p: Seq<char>, n: int) -> int
    decreases n,
{
    let a = anchor_len(p);
    if n <= a {
        n
    } else if p[n - 1] == '/' {
        trimmed_len(p, n - 1)
    } else if p[n - 1] == '.' && n - 1 == a {
        a
    } else if p[n - 1] == '.' && p[n - 2] == '/' {
        trimmed_len(p, n - 2)
    } else {
        n
    }
}

/// The index at which the part of `p` that ends before `end` begins: behind
/// the nearest separator on the left, and not inside the anchor.
pub open spec fn part_start(p: Seq<char>, end: int) -> int
    decreases end,
{
    if end <= anchor_len(p) || p[end - 1] == '/' {
        end
    } else {
        part_start(p, end - 1)
    }
}

/// The index at which the last part of `p` ends that is neither empty nor `.`.
pub open spec fn name_end(p: Seq<char>) -> int {
    trimmed_len(p, p.len() as int)
}

/// The index at which that part begins.
pub open spec fn name_start(p: Seq<char>) -> int {
    part_start(p, name_end(p))
}

/// The file name of `p`: its last part that is neither empty nor `.`, if
/// there is one and it is not `..`.
pub open spec fn file_name(p: Seq<char>) -> Option<Seq<char>> {
    let name = p.subrange(name_start(p), name_end(p));
    if name.len() == 0 || name == seq!['.', '.'] {
        None
    } else {
        Some(name)
    }
}

/// The length of the parent of `p`: what stands before the file name, without
/// the separators and `.` parts that end it.
pub open spec fn parent_len(p: Seq<char>) -> int {
    trimmed_len(p, name_start(p))
}

/// The parent of a path that has a file name: the directory the name is in.
/// It is empty for a bare file name.
pub open spec fn parent(p: Seq<char>) -> Seq<char> {
    p.take(parent_len(p))
}

/// `name` put behind `dir`. A name that starts at the root stands for itself;
/// otherwise one separator parts the two unless `dir` is empty or ends in one.
pub open spec fn join(dir: Seq<char>, name: Seq<char>) -> Seq<char> {
    if name.len() > 0 && name[0] == '/' {
        name
    } else if dir.len() > 0 && dir.last() != '/' {
        dir + seq!['/'] + name
    } else {
        dir + name
    }
}

/// `p` with its file name replaced by `name`. A path without a file name
/// gets `name` as a further part.
pub open spec fn with_file_name(p: Seq<char>, name: Seq<char>) -> Seq<char> {
    if file_name(p) is Some {
        join(parent(p), name)
    } else {
        join(p, name)
    }
}

/// A name that can stand as the last part of a path: not empty, without a
/// separator, and neither `.` nor `..`.
pub open spec fn is_plain_name(name: Seq<char>) -> bool {
    &&& name.len() > 0
    &&& forall|i: int| 0 <= i < name.len() ==> name[i] != '/'
    &&& name != seq!['.']
    &&& name != seq!['.', '.']
}

/// Bounds of the lengths and indices above.
pub proof fn lemma_bounds(p: Seq<char>, n: int)
    requires
        0 <= n <= p.len(),
    ensures
        0 <= anchor_len(p) <= p.len(),
        0 <= trimmed_len(p, n) <= n,
        0 <= part_start(p, n) <= n,
        n >= anchor_len(p) ==> trimmed_len(p, n) >= anchor_len(p),
        n >= anchor_len(p) ==> part_start(p, n) >= anchor_len(p),
    decreases n,
{
    let a = anchor_len(p);
    if n > a {
        lemma_bounds(p, n - 1);
        if n - 1 > a {
            lemma_bounds(p, n - 2);
        }
    }
}

/// What trimming leaves cannot be trimmed further.
pub proof fn lemma_trimmed_is_fixed(p: Seq<char>, n: int)
    requires
        0 <= n <= p.len(),
    ensures
        trimmed_len(p, trimmed_len(p, n)) == trimmed_len(p, n),
    decreases n,
{
    let a = anchor_len(p);
    if n > a {
        if p[n - 1] == '/' {
            lemma_trimmed_is_fixed(p, n - 1);
        } else if p[n - 1] == '.' && n - 1 != a && p[n - 2] == '/' {
            lemma_trimmed_is_fixed(p, n - 2);
        }
    }
}

/// Trimming looks at the anchor and at the characters before `n` only.
pub proof fn lemma_trimmed_of_common_prefix(p: Seq<char>, q: Seq<char>, n: int)
    requires
        0 <= n <= p.len(),
        n <= q.len(),
        p.take(n) == q.take(n),
        anchor_len(p) == anchor_len(q),
    ensures
        trimmed_len(p, n) == trimmed_len(q, n),
    decreases n,
{
    let a = anchor_len(p);
    if n > a {
        assert(p.take(n)[n - 1] == p[n - 1]);
        assert(p.take(n - 1) =~= p.take(n).take(n - 1));
        assert(q.take(n - 1) =~= q.take(n).take(n - 1));
        lemma_trimmed_of_common_prefix(p, q, n - 1);
        if n - 1 > a {
            assert(p.take(n)[n - 2] == p[n - 2]);
            assert(p.take(n - 2) =~= p.take(n).take(n - 2));
            assert(q.take(n - 2) =~= q.take(n).take(n - 2));
            lemma_trimmed_of_common_prefix(p, q, n - 2);
        }
    }
}

/// A stretch without separators that begins at the anchor or behind a
/// separator is one part.
pub proof fn lemma_part_start(p: Seq<char>, start: int, end: int)
    requires
        anchor_len(p) <= start <= end <= p.len(),
        forall|k: int| start <= k < end ==> p[k] != '/',
        start == anchor_len(p) || p[start - 1] == '/',
    ensures
        part_start(p, end) == start,
    decreases end,
{
    if end > start {
        lemma_part_start(p, start, end - 1);
    }
}

/// A part holds no separator, and it begins at the anchor or behind a
/// separator.
pub proof fn lemma_part_is_whole(p: Seq<char>, end: int)
    requires
        anchor_len(p) <= end <= p.len(),
    ensures
        anchor_len(p) <= part_start(p, end) <= end,
        forall|k: int| part_start(p, end) <= k < end ==> p[k] != '/',
        part_start(p, end) == anchor_len(p) || p[part_start(p, end) - 1] == '/',
    decreases end,
{
    if end > anchor_len(p) && p[end - 1] != '/' {
        lemma_part_is_whole(p, end - 1);
    }
}

/// Every file name is a plain name.
pub proof fn lemma_file_name_is_plain(p: Seq<char>)
    requires
        file_name(p) is Some,
    ensures
        is_plain_name(file_name(p)->0),
{
    let a = anchor_len(p);
    let end = name_end(p);
    let start = name_start(p);
    let name = p.subrange(start, end);
    lemma_bounds(p, p.len() as int);
    lemma_trimmed_is_fixed(p, p.len() as int);
    lemma_bounds(p, end);
    lemma_part_is_whole(p, end);
    if name == seq!['.'] {
        assert(name[0] == '.');
        if start != a {
            lemma_bounds(p, end - 2);
        }
    }
}

/// A path whose file name is set to a plain name has that file name, and the
/// parent that it had.
pub proof fn lemma_with_file_name(p: Seq<char>, name: Seq<char>)
    requires
        file_name(p) is Some,
        is_plain_name(name),
    ensures
        file_name(with_file_name(p, name)) == Some(name),
        parent(with_file_name(p, name)) == parent(p),
{
    let dir = parent(p);
    let q = with_file_name(p, name);
    let len = dir.len() as int;
    lemma_bounds(p, p.len() as int);
    lemma_bounds(p, name_end(p));
    lemma_bounds(p, name_start(p));
    lemma_trimmed_is_fixed(p, name_start(p));
    let start = q.len() - name.len();
    assert(q.subrange(start, q.len() as int) =~= name);
    assert(q.take(len) =~= dir);
    // a name of one character is not `.`, so the two paths have the same anchor
    if name.len() == 1 {
        assert(name =~= seq![name[0]]);
    }
    // the name is the last part of the new path
    lemma_part_start(q, start, q.len() as int);
    // what stands before it is the old parent
    if len > 0 {
        lemma_trimmed_of_common_prefix(p, q, len);
    }
}

/// The length of the anchor of `p`.
fn anchor(p: &Vec<char>) -> (a: usize)
    ensures
        a == anchor_len(p@),
{
    if p.len() > 0 && p[0] == '/' {
        1
    } else if p.len() > 0 && p[0] == '.' && (p.len() == 1 || p[1] == '/') {
        1
    } else {
        0
    }
}

/// The length of the first `n` characters of `p` once trimmed.
fn trim(p: &Vec<char>, n: usize) -> (t: usize)
    requires
        n <= p.len(),
    ensures
        t == trimmed_len(p@, n as int),
        t <= n,
{
    let a: usize = anchor(p);
    let mut t: usize = n;
    while t > a
        invariant
            t <= n <= p.len(),
            a == anchor_len(p@),
            trimmed_len(p@, t as int) == trimmed_len(p@, n as int),
        decreases t,
    {
        if p[t - 1] == '/' {
            t -= 1;
        } else if p[t - 1] == '.' && t - 1 == a {
            t = a;
            return t;
        } else if p[t - 1] == '.' && p[t - 2] == '/' {
            t -= 2;
        } else {
            return t;
        }
    }
    t
}

/// The index at which the part of `p` that ends before `end` begins.
fn start_of_part(p: &Vec<char>, end: usize) -> (s: usize)
    requires
        end <= p.len(),
    ensures
        s == part_start(p@, end as int),
        s <= end,
{
    let a: usize = anchor(p);
    let mut s: usize = end;
    while s > a && p[s - 1] != '/'
        invariant
            s <= end <= p.len(),
            a == anchor_len(p@),
            part_start(p@, s as int) == part_start(p@, end as int),
        decreases s,
    {
        s -= 1;
    }
    s
}

/// The bounds of the file name of `p`, if it has one.
fn name_bounds(p: &Vec<char>) -> (bounds: Option<(usize, usize)>)
    ensures
        match bounds {
            Some((start, end)) => {
                &&& start == name_start(p@)
                &&& end == name_end(p@)
                &&& start < end <= p.len()
                &&& file_name(p@) == Some(p@.subrange(start as int, end as int))
            },
            None => file_name(p@) is None,
        },
{
    let end: usize = trim(p, p.len());
    let start: usize = start_of_part(p, end);
    let ghost name = p@.subrange(start as int, end as int);
    if start == end {
        None
    } else if end - start == 2 && p[start] == '.' && p[start + 1] == '.' {
        assert(name =~= seq!['.', '.']);
        None
    } else {
        proof {
            if name == seq!['.', '.'] {
                assert(name.len() == 2);
            }
        }
        Some((start, end))
    }
}

/// The file name of `path`.
pub fn file_name_str(path: &str) -> (name: Option<String>)
    ensures
        match name {
            Some(n) => file_name(path@) == Some(n@),
            None => file_name(path@) is None,
        },
{
    let p = to_chars(path);
    match name_bounds(&p) {
        Some((start, end)) => Some(String::from_str(path.substring_char(start, end))),
        None => None,
    }
}

/// `path` with its file name replaced by `name`.
pub fn with_file_name_str(path: &str, name: &str) -> (out: String)
    ensures
        out@ == with_file_name(path@, name@),
{
    let p = to_chars(path);
    let n = to_chars(name);
    if n.len() > 0 && n[0] == '/' {
        return String::from_str(name);
    }
    let keep: usize = match name_bounds(&p) {
        Some((start, _)) => trim(&p, start),
        None => p.len(),
    };
    let mut out = String::from_str(path.substring_char(0, keep));
    if keep > 0 && p[keep - 1] != '/' {
        proof {
            reveal_strlit("/");
        }
        out.append("/");
    }
    out.append(name);
    out
}

} // verus!
