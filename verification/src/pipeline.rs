//! The rename pipeline: which candidates are moved, where to, and what
//! follows from the outcome of each move.
//!
//! The pipeline itself touches no file. For each candidate the caller says
//! whether the path exists and learns from [`Pipeline::consider`] whether to
//! move it and where to; it performs the move and hands the outcome to
//! [`Pipeline::settle`]. The first move that fails halts the pipeline: no
//! later candidate is moved, and the moves already made stay.

use crate::path::{
    file_name, file_name_str, is_plain_name, lemma_with_file_name, parent, with_file_name,
    with_file_name_str,
};
use crate::report::{confirmation, confirmation_line, Failure, FailureView};
use crate::text::{contains, contains_str, replace_all, replace_str};
use vstd::prelude::*;

verus! {

/// A path under consideration.
#[derive(Debug)]
pub struct PathCandidate {
    /// The path, absolute or relative.
    pub location: String,
    /// Whether the path exists at the time it is considered.
    pub exists: bool,
}

/// One move of a file: the path it has and the path it gets.
#[derive(Debug)]
pub struct RenameOperation {
    pub from: String,
    pub to: String,
}

/// Whether the pipeline still moves files.
#[derive(Debug, Clone, Copy, PartialEq, Eq, Structural)]
pub enum Status {
    Running,
    /// A move has failed.
    Halted,
}

/// The state of one run.
#[derive(Debug)]
pub struct Pipeline {
    /// The text to look for in file names.
    pub find: String,
    /// The text to put in its place.
    pub replace: String,
    pub status: Status,
}

/// The path that an existing file at `location` is moved to: the same path
/// with every occurrence of `find` in its file name replaced by `replace`.
/// There is none if the path has no file name or `find` does not occur in it.
pub open spec fn rename_target(location: Seq<char>, find: Seq<char>, replace: Seq<char>) -> Option<
    Seq<char>,
> {
    match file_name(location) {
        Some(name) => if contains(name, find) {
            Some(with_file_name(location, replace_all(name, find, replace)))
        } else {
            None
        },
        None => None,
    }
}

/// A move changes the file name and leaves the directory as it is, provided
/// that the new name is a plain name.
pub proof fn lemma_rename_keeps_directory(
    location: Seq<char>,
    find: Seq<char>,
    replace: Seq<char>,
)
    requires
        file_name(location) is Some,
        contains(file_name(location)->0, find),
        is_plain_name(replace_all(file_name(location)->0, find, replace)),
    ensures
        rename_target(location, find, replace) is Some,
        parent(rename_target(location, find, replace)->0) == parent(location),
        file_name(rename_target(location, find, replace)->0) == Some(
            replace_all(file_name(location)->0, find, replace),
        ),
{
    lemma_with_file_name(location, replace_all(file_name(location)->0, find, replace));
}

/// A file that was moved and whose new name does not hold `find` is not
/// moved again by the same `find` and `replace`.
pub proof fn lemma_second_run_is_idle(
    location: Seq<char>,
    find: Seq<char>,
    replace: Seq<char>,
)
    requires
        rename_target(location, find, replace) is Some,
        file_name(rename_target(location, find, replace)->0) matches Some(name) ==> !contains(
            name,
            find,
        ),
    ensures
        rename_target(rename_target(location, find, replace)->0, find, replace) is None,
{
}

impl Pipeline {
    /// A running pipeline that replaces `find` by `replace`.
    pub fn new(find: &str, replace: &str) -> (pipeline: Pipeline)
        ensures
            pipeline.find@ == find@,
            pipeline.replace@ == replace@,
            pipeline.status == Status::Running,
    {
        Pipeline {
            find: find.to_owned(),
            replace: replace.to_owned(),
            status: Status::Running,
        }
    }

    /// Whether a move has failed.
    pub fn is_halted(&self) -> (halted: bool)
        ensures
            halted == (self.status == Status::Halted),
    {
        self.status == Status::Halted
    }

    /// Decides what to do with `candidate`: the move to make, or `None` to
    /// pass it over.
    ///
    /// A candidate is moved if and only if the pipeline is running, the path
    /// exists, it has a file name, and `find` occurs in that name.
    pub fn consider(&self, candidate: &PathCandidate) -> (step: Option<RenameOperation>)
        ensures
            step is Some <==> self.status == Status::Running && candidate.exists && rename_target(
                candidate.location@,
                self.find@,
                self.replace@,
            ) is Some,
            !candidate.exists ==> step is None,
            file_name(candidate.location@) matches Some(name) && !contains(name, self.find@)
                ==> step is None,
            step matches Some(operation) ==> {
                &&& operation.from@ == candidate.location@
                &&& Some(operation.to@) == rename_target(
                    candidate.location@,
                    self.find@,
                    self.replace@,
                )
            },
    {
        if self.is_halted() || !candidate.exists {
            return None;
        }
        let location = candidate.location.as_str();
        match file_name_str(location) {
            Some(name) => {
                if contains_str(name.as_str(), self.find.as_str()) {
                    let new_name = replace_str(
                        name.as_str(),
                        self.find.as_str(),
                        self.replace.as_str(),
                    );
                    let to = with_file_name_str(location, new_name.as_str());
                    Some(RenameOperation { from: candidate.location.clone(), to })
                } else {
                    None
                }
            },
            None => None,
        }
    }

    /// Takes note of the outcome of `operation`; `error` is the reason the
    /// file system gave if it refused the move.
    ///
    /// After a move that was made the result is the line that confirms it.
    /// A move that was refused halts the pipeline, and the result is the
    /// failure that ends the run.
    pub fn settle(&mut self, operation: &RenameOperation, error: Option<String>) -> (r: Result<
        String,
        Failure,
    >)
        ensures
            final(self).find == old(self).find,
            final(self).replace == old(self).replace,
            match error {
                None => {
                    &&& final(self).status == old(self).status
                    &&& r matches Ok(line)
                    &&& line@ == confirmation(operation.from@, operation.to@)
                },
                Some(detail) => {
                    &&& final(self).status == Status::Halted
                    &&& r matches Err(failure)
                    &&& failure@ == (FailureView::Rename { detail: detail@ })
                },
            },
    {
        match error {
            None => Ok(confirmation_line(operation.from.as_str(), operation.to.as_str())),
            Some(detail) => {
                self.status = Status::Halted;
                Err(Failure::Rename { detail })
            },
        }
    }
}

} // verus!
