use frep::cli::{parse_args, PathSource};
use frep::pipeline::{PathCandidate, Pipeline, RenameOperation, Status};
use frep::report::Failure;

/// A directory tree held in memory: the paths that exist, and those that the
/// file system refuses to move.
struct Tree {
    files: Vec<String>,
    locked: Vec<String>,
}

impl Tree {
    fn with_files(names: &[&str]) -> Tree {
        Tree { files: names.iter().map(|n| n.to_string()).collect(), locked: Vec::new() }
    }

    fn has(&self, path: &str) -> bool {
        self.files.iter().any(|f| f == path)
    }

    fn rename(&mut self, from: &str, to: &str) -> Option<String> {
        if self.locked.iter().any(|f| f == from) {
            return Some("Permission denied (os error 13)".to_string());
        }
        self.files.retain(|f| f != from && f != to);
        self.files.push(to.to_string());
        None
    }

    /// The paths in the directory `dir` that `pattern` matches, in
    /// alphabetical order.
    fn expand(&self, dir: &str, pattern: &str) -> Vec<String> {
        let compiled = match glob::Pattern::new(pattern) {
            Ok(compiled) => compiled,
            Err(error) => panic!("{}", error),
        };
        let prefix = format!("{}/", dir);
        let mut found: Vec<String> = self
            .files
            .iter()
            .filter(|f| f.strip_prefix(&prefix).map_or(false, |name| compiled.matches(name)))
            .cloned()
            .collect();
        found.sort();
        found
    }
}

/// What a run wrote and how it ended.
struct Outcome {
    lines: Vec<String>,
    failure: Option<Failure>,
    status: Status,
}

fn rename_files(tree: &mut Tree, paths: Vec<String>, find: &str, replace: &str) -> Outcome {
    let mut pipeline = Pipeline::new(find, replace);
    let mut lines = Vec::new();
    let mut failure = None;
    for path in paths {
        if pipeline.is_halted() {
            break;
        }
        let candidate = PathCandidate { exists: tree.has(&path), location: path };
        if let Some(operation) = pipeline.consider(&candidate) {
            let error = tree.rename(&operation.from, &operation.to);
            match pipeline.settle(&operation, error) {
                Ok(line) => lines.push(line),
                Err(f) => failure = Some(f),
            }
        }
    }
    Outcome { lines, failure, status: pipeline.status }
}

fn target(location: &str, find: &str, replace: &str) -> Option<String> {
    let candidate = PathCandidate { location: location.to_string(), exists: true };
    Pipeline::new(find, replace).consider(&candidate).map(|operation| {
        assert_eq!(operation.from, location);
        operation.to
    })
}

#[test]
fn test_rename_match_single_file() {
    let test_file = "/tmp/dir/test-bar.txt".to_string();
    let mut tree = Tree::with_files(&["/tmp/dir/test-bar.txt"]);

    let outcome = rename_files(&mut tree, vec![test_file.clone()], "bar", "foo");

    assert!(tree.has("/tmp/dir/test-foo.txt"));
    assert!(!tree.has(&test_file));
    assert!(outcome.failure.is_none());
    assert_eq!(outcome.lines, vec!["Renamed: /tmp/dir/test-bar.txt -> /tmp/dir/test-foo.txt"]);
}

#[test]
fn test_rename_match_multiple_files() {
    let test_files = vec![
        "/tmp/dir/test-bar.txt".to_string(),
        "/tmp/dir/other-bar.txt".to_string(),
        "/tmp/dir/no-match.txt".to_string(),
    ];
    let mut tree = Tree::with_files(&[
        "/tmp/dir/test-bar.txt",
        "/tmp/dir/other-bar.txt",
        "/tmp/dir/no-match.txt",
    ]);

    let outcome = rename_files(&mut tree, test_files.clone(), "bar", "foo");

    assert!(tree.has("/tmp/dir/test-foo.txt"));
    assert!(tree.has("/tmp/dir/other-foo.txt"));
    assert!(tree.has("/tmp/dir/no-match.txt"));
    assert!(!tree.has("/tmp/dir/test-bar.txt"));
    assert!(!tree.has("/tmp/dir/other-bar.txt"));
    assert!(outcome.failure.is_none());
    assert_eq!(
        outcome.lines,
        vec![
            "Renamed: /tmp/dir/test-bar.txt -> /tmp/dir/test-foo.txt",
            "Renamed: /tmp/dir/other-bar.txt -> /tmp/dir/other-foo.txt",
        ]
    );
}

#[test]
fn test_rename_no_matches() {
    let test_file = "/tmp/dir/test.txt".to_string();
    let mut tree = Tree::with_files(&["/tmp/dir/test.txt"]);

    let outcome = rename_files(&mut tree, vec![test_file.clone()], "bar", "foo");

    assert!(tree.has(&test_file));
    assert!(outcome.lines.is_empty());
    assert!(outcome.failure.is_none());
}

#[test]
fn a_new_pipeline_is_running() {
    let pipeline = Pipeline::new("bar", "foo");
    assert_eq!(pipeline.find, "bar");
    assert_eq!(pipeline.replace, "foo");
    assert_eq!(pipeline.status, Status::Running);
    assert!(!pipeline.is_halted());
}

#[test]
fn every_occurrence_in_the_name_is_replaced() {
    assert_eq!(target("test-bar.txt", "bar", "foo"), Some("test-foo.txt".to_string()));
    assert_eq!(target("bar-bar.bar", "bar", "foo"), Some("foo-foo.foo".to_string()));
    assert_eq!(target("dir/bar-bar.bar", "bar", "foo"), Some("dir/foo-foo.foo".to_string()));
    assert_eq!(target("a.txt", ".txt", ".md"), Some("a.md".to_string()));
}

#[test]
fn the_directory_is_never_searched_or_changed() {
    assert_eq!(
        target("/bar/bar/test-bar.txt", "bar", "foo"),
        Some("/bar/bar/test-foo.txt".to_string())
    );
    assert_eq!(target("bar/x-bar", "bar", "foo"), Some("bar/x-foo".to_string()));
    assert_eq!(target("./bar/bar", "bar", "foo"), Some("./bar/foo".to_string()));
    // `find` stands in the directory only
    assert_eq!(target("bar/test.txt", "bar", "foo"), None);
    assert_eq!(target("/tmp/bar-dir/no-match.txt", "bar", "foo"), None);
}

#[test]
fn a_name_without_find_is_passed_over() {
    assert_eq!(target("no-match.txt", "bar", "foo"), None);
    assert_eq!(target("dir/no-match.txt", "bar", "foo"), None);
    assert_eq!(target("ba", "bar", "foo"), None);
}

#[test]
fn matching_is_case_sensitive() {
    assert_eq!(target("test-Bar.txt", "bar", "foo"), None);
    assert_eq!(target("test-BAR.txt", "bar", "foo"), None);
    assert_eq!(target("test-Bar.txt", "Bar", "foo"), Some("test-foo.txt".to_string()));
}

#[test]
fn a_path_without_file_name_is_passed_over() {
    assert_eq!(target("", "", "x"), None);
    assert_eq!(target("/", "", "x"), None);
    assert_eq!(target("..", ".", "x"), None);
    assert_eq!(target("bar/..", "bar", "foo"), None);
    assert_eq!(target(".", "", "x"), None);
}

#[test]
fn the_name_of_a_directory_is_its_last_part() {
    assert_eq!(target("dir/sub-bar/", "bar", "foo"), Some("dir/sub-foo".to_string()));
    assert_eq!(target("sub-bar/.", "bar", "foo"), Some("sub-foo".to_string()));
}

#[test]
fn an_empty_find_matches_every_name() {
    assert_eq!(target("abc", "", "-"), Some("-a-b-c-".to_string()));
    assert_eq!(target("dir/ab", "", "_"), Some("dir/_a_b_".to_string()));
    assert_eq!(target("dir/ab", "", ""), Some("dir/ab".to_string()));
}

#[test]
fn a_path_that_does_not_exist_is_passed_over() {
    let pipeline = Pipeline::new("bar", "foo");
    let missing = PathCandidate { location: "test-bar.txt".to_string(), exists: false };
    assert!(pipeline.consider(&missing).is_none());

    let mut tree = Tree::with_files(&["dir/b-bar"]);
    let outcome = rename_files(
        &mut tree,
        vec!["dir/a-bar".to_string(), "dir/b-bar".to_string()],
        "bar",
        "foo",
    );
    assert!(outcome.failure.is_none());
    assert_eq!(outcome.status, Status::Running);
    assert_eq!(outcome.lines, vec!["Renamed: dir/b-bar -> dir/b-foo"]);
    assert_eq!(tree.files, vec!["dir/b-foo"]);
}

#[test]
fn a_second_run_on_a_renamed_file_does_nothing() {
    let mut tree = Tree::with_files(&["dir/test-bar.txt"]);
    let first = rename_files(&mut tree, vec!["dir/test-bar.txt".to_string()], "bar", "foo");
    assert_eq!(first.lines.len(), 1);
    assert_eq!(tree.files, vec!["dir/test-foo.txt"]);

    let second = rename_files(&mut tree, vec!["dir/test-foo.txt".to_string()], "bar", "foo");
    assert!(second.lines.is_empty());
    assert!(second.failure.is_none());
    assert_eq!(tree.files, vec!["dir/test-foo.txt"]);

    // the old path is gone, so naming it again does nothing either
    let third = rename_files(&mut tree, vec!["dir/test-bar.txt".to_string()], "bar", "foo");
    assert!(third.lines.is_empty());
    assert!(third.failure.is_none());
    assert_eq!(tree.files, vec!["dir/test-foo.txt"]);
}

#[test]
fn a_new_name_that_still_holds_find_is_moved_again() {
    assert_eq!(target("ab", "b", "bb"), Some("abb".to_string()));
    assert_eq!(target("abb", "b", "bb"), Some("abbbb".to_string()));
}

#[test]
fn settle_confirms_a_move_that_was_made() {
    let mut pipeline = Pipeline::new("bar", "foo");
    let operation =
        RenameOperation { from: "test-bar.txt".to_string(), to: "test-foo.txt".to_string() };
    match pipeline.settle(&operation, None) {
        Ok(line) => assert_eq!(line, "Renamed: test-bar.txt -> test-foo.txt"),
        Err(failure) => panic!("unexpected failure: {:?}", failure),
    }
    assert_eq!(pipeline.status, Status::Running);
    assert_eq!(pipeline.find, "bar");
    assert_eq!(pipeline.replace, "foo");
}

#[test]
fn settle_halts_on_a_move_that_was_refused() {
    let mut pipeline = Pipeline::new("bar", "foo");
    let operation =
        RenameOperation { from: "test-bar.txt".to_string(), to: "test-foo.txt".to_string() };
    match pipeline.settle(&operation, Some("Read-only file system (os error 30)".to_string())) {
        Err(Failure::Rename { detail }) => {
            assert_eq!(detail, "Read-only file system (os error 30)")
        }
        other => panic!("expected a rename failure, got {:?}", other),
    }
    assert_eq!(pipeline.status, Status::Halted);
    assert!(pipeline.is_halted());
    assert_eq!(pipeline.find, "bar");
    assert_eq!(pipeline.replace, "foo");
}

#[test]
fn a_halted_pipeline_moves_nothing() {
    let mut pipeline = Pipeline::new("bar", "foo");
    let candidate = PathCandidate { location: "test-bar.txt".to_string(), exists: true };
    let operation = match pipeline.consider(&candidate) {
        Some(operation) => operation,
        None => panic!("the candidate should be moved"),
    };
    assert!(pipeline.settle(&operation, Some("refused".to_string())).is_err());
    assert!(pipeline.consider(&candidate).is_none());
    // a later success does not start it again
    assert!(pipeline.settle(&operation, None).is_ok());
    assert!(pipeline.is_halted());
    assert!(pipeline.consider(&candidate).is_none());
}

#[test]
fn the_first_failure_ends_the_run_and_earlier_moves_stay() {
    let mut tree = Tree::with_files(&["d/a-bar", "d/b-bar", "d/c-bar"]);
    tree.locked.push("d/b-bar".to_string());
    let outcome = rename_files(
        &mut tree,
        vec!["d/a-bar".to_string(), "d/b-bar".to_string(), "d/c-bar".to_string()],
        "bar",
        "foo",
    );
    assert_eq!(outcome.lines, vec!["Renamed: d/a-bar -> d/a-foo"]);
    assert_eq!(outcome.status, Status::Halted);
    match outcome.failure {
        Some(failure) => {
            assert_eq!(
                failure.diagnostic("frep", "0.1.0"),
                "Error during renaming: Permission denied (os error 13)"
            );
            assert_eq!(failure.exit_code(), 1);
        }
        None => panic!("the run should have failed"),
    }
    assert!(tree.has("d/a-foo"));
    assert!(!tree.has("d/a-bar"));
    assert!(tree.has("d/b-bar"));
    assert!(tree.has("d/c-bar"));
    assert!(!tree.has("d/c-foo"));
}

#[test]
fn two_files_with_the_same_new_name_are_both_moved() {
    let mut tree = Tree::with_files(&["d/a-bar", "d/a-baz"]);
    let first = rename_files(&mut tree, vec!["d/a-bar".to_string()], "bar", "x");
    let second = rename_files(&mut tree, vec!["d/a-baz".to_string()], "baz", "x");
    assert_eq!(first.lines, vec!["Renamed: d/a-bar -> d/a-x"]);
    assert_eq!(second.lines, vec!["Renamed: d/a-baz -> d/a-x"]);
    assert_eq!(tree.files, vec!["d/a-x"]);
}

#[test]
fn a_pattern_is_expanded_before_the_names_are_searched() {
    let arguments: Vec<String> =
        ["frep", "bar", "foo", "d/*.txt"].iter().map(|s| s.to_string()).collect();
    let invocation = match parse_args(&arguments) {
        Ok(invocation) => invocation,
        Err(failure) => panic!("unexpected failure: {:?}", failure),
    };
    let mut tree =
        Tree::with_files(&["d/test-bar.txt", "d/other-bar.txt", "d/no-match.txt", "d/bar.log"]);
    let paths = match &invocation.source {
        PathSource::Glob(pattern) => {
            assert_eq!(pattern, "d/*.txt");
            tree.expand("d", "*.txt")
        }
        PathSource::Explicit(paths) => panic!("expected a pattern, got {:?}", paths),
    };
    assert_eq!(paths, vec!["d/no-match.txt", "d/other-bar.txt", "d/test-bar.txt"]);

    let outcome = rename_files(&mut tree, paths, &invocation.find, &invocation.replace);

    assert_eq!(
        outcome.lines,
        vec![
            "Renamed: d/other-bar.txt -> d/other-foo.txt",
            "Renamed: d/test-bar.txt -> d/test-foo.txt",
        ]
    );
    assert!(tree.has("d/test-foo.txt"));
    assert!(tree.has("d/other-foo.txt"));
    assert!(tree.has("d/no-match.txt"));
    assert!(tree.has("d/bar.log"));
}

#[test]
fn explicit_arguments_are_taken_as_paths() {
    let arguments: Vec<String> = ["frep", "bar", "foo", "d/test-bar.txt", "d/no-match.txt"]
        .iter()
        .map(|s| s.to_string())
        .collect();
    let invocation = match parse_args(&arguments) {
        Ok(invocation) => invocation,
        Err(failure) => panic!("unexpected failure: {:?}", failure),
    };
    let paths = match invocation.source {
        PathSource::Explicit(paths) => paths,
        PathSource::Glob(pattern) => panic!("expected paths, got the pattern {:?}", pattern),
    };
    let mut tree = Tree::with_files(&["d/test-bar.txt", "d/other-bar.txt", "d/no-match.txt"]);
    let outcome = rename_files(&mut tree, paths, &invocation.find, &invocation.replace);
    assert_eq!(outcome.lines, vec!["Renamed: d/test-bar.txt -> d/test-foo.txt"]);
    assert!(tree.has("d/other-bar.txt"));
}

#[test]
fn a_move_to_a_plain_name_stays_in_the_directory() {
    for location in ["test-bar.txt", "d/test-bar.txt", "/tmp/d/test-bar.txt", "./test-bar.txt"] {
        let to = match target(location, "bar", "foo") {
            Some(to) => to,
            None => panic!("{:?} should be moved", location),
        };
        assert_eq!(
            std::path::Path::new(&to).parent(),
            std::path::Path::new(location).parent()
        );
        assert_eq!(frep::path::file_name_str(&to), Some("test-foo.txt".to_string()));
    }
}

#[test]
fn a_replacement_with_a_separator_leads_into_another_directory() {
    assert_eq!(target("a/test-bar.txt", "bar", "sub/foo"), Some("a/test-sub/foo.txt".to_string()));
    assert_eq!(target("a/bar", "bar", "/abs"), Some("/abs".to_string()));
    assert_eq!(target("a/bar", "bar", ""), Some("a/".to_string()));
}
