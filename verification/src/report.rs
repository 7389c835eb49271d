//! What the tool says: the line that confirms a move, and the failures that
//! end a run, each with its diagnostic text and exit code.

use vstd::prelude::*;
use vstd::string::StringExecFns;

verus! {

/// A reason to end the run.
#[derive(Debug)]
pub enum Failure {
    /// Too few arguments were given; `program` is the name the tool was
    /// called by.
    Usage { program: String },
    /// The file pattern is not a well-formed glob pattern; `detail` says why.
    InvalidPattern { pattern: String, detail: String },
    /// The file system refused a move; `detail` says why.
    Rename { detail: String },
}

/// A [`Failure`] as plain text values.
pub enum FailureView {
    Usage { program: Seq<char> },
    InvalidPattern { pattern: Seq<char>, detail: Seq<char> },
    Rename { detail: Seq<char> },
}

impl View for Failure {
    type V = FailureView;

    open spec fn view(&self) -> FailureView {
        match self {
            Failure::Usage { program } => FailureView::Usage { program: program@ },
            Failure::InvalidPattern { pattern, detail } => FailureView::InvalidPattern {
                pattern: pattern@,
                detail: detail@,
            },
            Failure::Rename { detail } => FailureView::Rename { detail: detail@ },
        }
    }
}

/// The line written to standard output after `from` was moved to `to`.
pub open spec fn confirmation(from: Seq<char>, to: Seq<char>) -> Seq<char> {
    "Renamed: "@ + from + " -> "@ + to
}

/// The usage text of the tool `package` in version `version`, called as
/// `program`.
pub open spec fn usage(package: Seq<char>, version: Seq<char>, program: Seq<char>) -> Seq<char> {
    package + " version "@ + version
        + "\nA utility that will rename file parts that match the <file_pattern>.\nUsage: "@
        + program + " <find> <replace> <file_pattern>"@
}

/// The text written to standard error for `failure`.
pub open spec fn diagnostic(failure: FailureView, package: Seq<char>, version: Seq<char>) -> Seq<
    char,
> {
    match failure {
        FailureView::Usage { program } => usage(package, version, program),
        FailureView::InvalidPattern { pattern, detail } => "Invalid pattern "@ + pattern + ": "@
            + detail,
        FailureView::Rename { detail } => "Error during renaming: "@ + detail,
    }
}

/// The line that confirms the move of `from` to `to`.
pub fn confirmation_line(from: &str, to: &str) -> (line: String)
    ensures
        line@ == confirmation(from@, to@),
{
    let mut line = String::from_str("Renamed: ");
    line.append(from);
    line.append(" -> ");
    line.append(to);
    line
}

impl Failure {
    /// The text to write to standard error. `package` and `version` name the
    /// tool in the usage text.
    pub fn diagnostic(&self, package: &str, version: &str) -> (text: String)
        ensures
            text@ == diagnostic(self@, package@, version@),
    {
        match self {
            Failure::Usage { program } => {
                let mut text = String::from_str(package);
                text.append(" version ");
                text.append(version);
                text.append(
                    "\nA utility that will rename file parts that match the <file_pattern>.\nUsage: ",
                );
                text.append(program.as_str());
                text.append(" <find> <replace> <file_pattern>");
                text
            },
            Failure::InvalidPattern { pattern, detail } => {
                let mut text = String::from_str("Invalid pattern ");
                text.append(pattern.as_str());
                text.append(": ");
                text.append(detail.as_str());
                text
            },
            Failure::Rename { detail } => {
                let mut text = String::from_str("Error during renaming: ");
                text.append(detail.as_str());
                text
            },
        }
    }

    /// The exit code of a run that ends with this failure: 1 for each kind.
    pub fn exit_code(&self) -> (code: i32)
        ensures
            code == 1,
    {
        1
    }
}

} // verus!
