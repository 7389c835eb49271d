//! The command line: `<program> <find> <replace> <file_pattern...>`.
//!
//! The arguments behind `<replace>` name the candidates. If the last of them
//! holds a glob metacharacter it is a pattern to expand against the file
//! system, and it alone is the source of candidates; otherwise every one of
//! them is a path as it stands, as a shell leaves them that has expanded the
//! pattern itself.

use crate::report::{Failure, FailureView};
use vstd::prelude::*;

verus! {

/// Where the candidate paths come from.
#[derive(Debug)]
pub enum PathSource {
    /// A glob pattern, still to be expanded.
    Glob(String),
    /// The paths themselves, in the order given.
    Explicit(Vec<String>),
}

/// A [`PathSource`] as plain text values.
pub enum PathSourceView {
    Glob(Seq<char>),
    Explicit(Seq<Seq<char>>),
}

/// What one call of the tool asks for.
#[derive(Debug)]
pub struct Invocation {
    /// The text to look for in file names.
    pub find: String,
    /// The text to put in its place.
    pub replace: String,
    /// The candidates.
    pub source: PathSource,
}

/// An [`Invocation`] as plain text values.
pub struct InvocationView {
    pub find: Seq<char>,
    pub replace: Seq<char>,
    pub source: PathSourceView,
}

/// The texts of a sequence of strings.
pub open spec fn texts(strings: Seq<String>) -> Seq<Seq<char>> {
    Seq::new(strings.len(), |i: int| strings[i]@)
}

impl View for PathSource {
    type V = PathSourceView;

    open spec fn view(&self) -> PathSourceView {
        match self {
            PathSource::Glob(pattern) => PathSourceView::Glob(pattern@),
            PathSource::Explicit(paths) => PathSourceView::Explicit(texts(paths@)),
        }
    }
}

impl View for Invocation {
    type V = InvocationView;

    open spec fn view(&self) -> InvocationView {
        InvocationView { find: self.find@, replace: self.replace@, source: self.source@ }
    }
}

/// `*` and `?` are the glob metacharacters that mark a pattern.
pub open spec fn is_glob_char(c: char) -> bool {
    c == '*' || c == '?'
}

/// `s` holds a glob metacharacter.
pub open spec fn has_glob_char(s: Seq<char>) -> bool {
    exists|i: int| 0 <= i < s.len() && is_glob_char(#[trigger] s[i])
}

/// The source that the arguments `args` name; `args` holds the program name,
/// `<find>`, `<replace>` and at least one more argument.
pub open spec fn source_of(args: Seq<Seq<char>>) -> PathSourceView {
    if has_glob_char(args.last()) {
        PathSourceView::Glob(args.last())
    } else {
        PathSourceView::Explicit(args.skip(3))
    }
}

/// What the arguments `args`, the program name first, ask for: a usage
/// failure if they are fewer than four.
pub open spec fn parsed(args: Seq<Seq<char>>) -> Result<InvocationView, FailureView> {
    if args.len() < 4 {
        Err(FailureView::Usage { program: if args.len() > 0 { args[0] } else { Seq::empty() } })
    } else {
        Ok(InvocationView { find: args[1], replace: args[2], source: source_of(args) })
    }
}

/// Whether `s` holds a glob metacharacter.
pub fn is_glob_pattern(s: &str) -> (found: bool)
    ensures
        found == has_glob_char(s@),
{
    for c in it: s.chars()
        invariant
            it.seq() == s@,
            forall|i: int| 0 <= i < it.index() ==> !is_glob_char(#[trigger] s@[i]),
    {
        if c == '*' || c == '?' {
            return true;
        }
    }
    false
}

/// Reads the arguments of a call, the program name first.
pub fn parse_args(args: &Vec<String>) -> (r: Result<Invocation, Failure>)
    ensures
        match r {
            Ok(invocation) => parsed(texts(args@)) == Ok::<InvocationView, FailureView>(
                invocation@,
            ),
            Err(failure) => parsed(texts(args@)) == Err::<InvocationView, FailureView>(failure@),
        },
{
    let n: usize = args.len();
    if n < 4 {
        let program = if n > 0 { args[0].clone() } else { String::new() };
        return Err(Failure::Usage { program });
    }
    let find = args[1].clone();
    let replace = args[2].clone();
    let last = &args[n - 1];
    let source = if is_glob_pattern(last.as_str()) {
        PathSource::Glob(last.clone())
    } else {
        let mut paths: Vec<String> = Vec::new();
        let mut i: usize = 3;
        while i < n
            invariant
                3 <= i <= n,
                n == args.len(),
                paths.len() == i - 3,
                forall|k: int| 0 <= k < paths.len() ==> paths[k]@ == args[k + 3]@,
            decreases n - i,
        {
            paths.push(args[i].clone());
            i += 1;
        }
        assert(texts(paths@) =~= texts(args@).skip(3));
        PathSource::Explicit(paths)
    };
    Ok(Invocation { find, replace, source })
}

} // verus!
