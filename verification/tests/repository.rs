//! What git prints, and the files of a repository.
use project_brain::analyze::{
    self, ChangedFile, FoundSource, IndexProvider, IndexTally, SourceFacts, SymbolAnalysis,
};
use project_brain::error::AppError;
use project_brain::git::{
    self, DiffHunk, GitOutput, HeadStep, KeptFile, WorktreeEntry, WorktreeItem,
};
use project_brain::model::LineRange;
use project_brain::paths;

fn range(start_line: usize, end_line: usize) -> LineRange {
    LineRange { start_line, end_line }
}

fn printed(code: i32, stdout: &str, stderr: &str) -> GitOutput {
    GitOutput {
        code: Some(code),
        stdout: stdout.as_bytes().to_vec(),
        stderr: stderr.as_bytes().to_vec(),
    }
}

#[test]
fn parses_and_sorts_null_delimited_git_paths() {
    let printed = git::parse_null_paths(&b"src/z.rs\0src/a.rs\0".to_vec()).unwrap();
    let paths = git::path_set(&printed);
    assert_eq!(paths, vec!["src/a.rs".to_owned(), "src/z.rs".to_owned()]);
}

#[test]
fn parses_replacement_and_deletion_hunks() {
    assert_eq!(
        git::parse_hunk_header("@@ -10,2 +12,3 @@ fn example"),
        Some(DiffHunk {
            old: Some(range(10, 11)),
            new: Some(range(12, 14)),
            old_start: 10,
            new_start: 12,
        })
    );
    assert_eq!(
        git::parse_hunk_header("@@ -7 +6,0 @@"),
        Some(DiffHunk { old: Some(range(7, 7)), new: None, old_start: 7, new_start: 6 })
    );
    assert_eq!(
        git::parse_hunk_header("@@ -10,0 +11,2 @@"),
        Some(DiffHunk { old: None, new: Some(range(11, 12)), old_start: 10, new_start: 11 })
    );
}

#[test]
fn rejects_non_utf8_paths_instead_of_aliasing_them() {
    assert_eq!(
        git::parse_null_paths(&b"src/\xff.rs\0".to_vec()),
        Err(AppError::NonUtf8GitPath)
    );
}

#[test]
fn represents_an_unborn_head_without_requiring_a_commit() {
    let head = printed(128, "", "fatal: Needed a single revision");
    assert_eq!(git::read_head(&head), Ok(HeadStep::AskReference));
    let symbolic = printed(0, "refs/heads/main\n", "");
    let reference = git::read_reference(&head, &symbolic).unwrap();
    let missing = printed(1, "", "");
    let revision = git::read_unborn(&head, &reference, &missing).unwrap();
    assert!(revision.starts_with("unborn:refs/heads/"));
    let born = printed(0, "0123abc\n", "");
    assert_eq!(git::read_head(&born), Ok(HeadStep::Done("0123abc".to_owned())));
}

fn entry(path: &str, item: WorktreeItem) -> WorktreeEntry {
    WorktreeEntry { path: path.to_owned(), inside: true, item }
}

#[test]
fn worktree_fingerprint_tracks_repository_content_but_not_ignored_files() {
    let with = |content: &str| {
        git::worktree_fingerprint(&vec![
            entry(".gitignore", WorktreeItem::File(b"ignored.log\n".to_vec())),
            entry("source.rs", WorktreeItem::File(content.as_bytes().to_vec())),
        ])
        .unwrap()
    };
    let first = with("fn one() {}\n");
    assert_eq!(first, with("fn one() {}\n"));
    assert_ne!(first, with("fn two() {}\n"));
}

#[test]
fn a_worktree_that_leads_elsewhere_has_no_fingerprint() {
    let mut outside = entry("link", WorktreeItem::File(Vec::new()));
    outside.inside = false;
    assert!(matches!(
        git::worktree_fingerprint(&vec![outside]),
        Err(AppError::RepositoryPathOutsideRoot(_))
    ));
    let missing = git::worktree_fingerprint(&vec![entry("a", WorktreeItem::Missing)]).unwrap();
    let empty =
        git::worktree_fingerprint(&vec![entry("a", WorktreeItem::File(Vec::new()))]).unwrap();
    let link = git::worktree_fingerprint(&vec![entry("a", WorktreeItem::Link(Vec::new()))]).unwrap();
    assert_ne!(missing, empty);
    assert_ne!(empty, link);
}

#[test]
fn failures_of_git_are_told_as_git_tells_them() {
    let failed = printed(128, "", "  fatal: not a git repository\n");
    assert_eq!(
        git::ensure_success(&failed),
        Err(AppError::Git("fatal: not a git repository".to_owned()))
    );
    assert_eq!(git::worktree_is_clean(&printed(0, "", "")), Ok(true));
    assert_eq!(git::worktree_is_clean(&printed(0, " M a\0", "")), Ok(false));
    assert!(git::validate_base("HEAD").is_ok());
    assert!(git::validate_base("--output=x").is_err());
    assert!(git::validate_base("").is_err());
    assert!(git::revision_spec("HEAD", "src/a.rs").unwrap().contains("HEAD:"));
}

#[test]
fn files_of_a_revision_may_be_absent() {
    let found = printed(0, "text", "");
    assert_eq!(git::file_at_revision(&found, "a"), Ok(Some("text".to_owned())));
    let absent = printed(128, "", "fatal: path 'a' does not exist in 'HEAD'");
    assert_eq!(git::file_at_revision(&absent, "a"), Ok(None));
    let broken = printed(128, "", "fatal: bad object");
    assert!(matches!(git::file_at_revision(&broken, "a"), Err(AppError::Git(_))));
    let binary = GitOutput { code: Some(0), stdout: vec![0xff], stderr: Vec::new() };
    assert_eq!(
        git::file_at_revision(&binary, "a"),
        Err(AppError::NonUtf8Source("a".to_owned()))
    );
}

#[test]
fn changed_paths_are_those_of_either_list() {
    let a = vec!["a".to_owned(), "c".to_owned()];
    let b = vec!["b".to_owned(), "c".to_owned()];
    assert_eq!(git::either_path(&a, &b), ["a", "b", "c"]);
    assert_eq!(git::printed_paths(&printed(0, "b\0a\0", "")).unwrap(), ["b", "a"]);
    let normalized = vec!["b".to_owned(), "a".to_owned(), "b".to_owned()];
    assert_eq!(git::path_set(&normalized), ["a", "b"]);
    let hunks = git::diff_hunks(&printed(0, "diff\n@@ -1 +1,2 @@\n+x\n", "")).unwrap();
    assert_eq!(hunks.len(), 1);
    assert_eq!(hunks[0].new, Some(range(1, 2)));
}

#[test]
fn whole_file_range_is_never_empty() {
    assert_eq!(analyze::entire_source_range(""), vec![range(1, 1)]);
    assert_eq!(analyze::entire_source_range("one\ntwo\n"), vec![range(1, 2)]);
}

#[test]
fn changed_lines_are_those_of_the_hunks() {
    let hunk = git::parse_hunk_header("@@ -10,2 +12,3 @@").unwrap();
    let gone = git::parse_hunk_header("@@ -7 +6,0 @@").unwrap();
    let hunks = vec![hunk, gone];
    let source = Some("one\ntwo\n".to_owned());
    assert_eq!(analyze::changed_ranges(false, &source, &hunks)[0], range(12, 14));
    assert_eq!(analyze::changed_ranges(true, &source, &hunks), [range(1, 2)]);
    assert_eq!(analyze::removed_ranges(&hunks), [range(7, 7)]);
}

fn found(bytes: &[u8], inside: bool) -> SourceFacts {
    SourceFacts {
        plain: true,
        found: Some(FoundSource {
            resolved: "/repo/a.rs".to_owned(),
            inside,
            regular: true,
            bytes: bytes.to_vec(),
        }),
    }
}

#[test]
fn reads_only_utf8_files_inside_the_repository() {
    assert_eq!(
        analyze::read_repository_source("a.rs", &found(b"fn a() {}", true)),
        Ok(Some("fn a() {}".to_owned()))
    );
    assert!(analyze::read_repository_source("a.rs", &found(b"x", false)).is_err());
    assert_eq!(
        analyze::read_repository_source("a.rs", &found(b"\xff", true)),
        Err(AppError::NonUtf8Source("a.rs".to_owned()))
    );
    let gone = SourceFacts { plain: true, found: None };
    assert_eq!(analyze::read_repository_source("a.rs", &gone), Ok(None));
    let climbing = SourceFacts { plain: false, found: None };
    assert!(matches!(
        analyze::read_repository_source("../a.rs", &climbing),
        Err(AppError::RepositoryPathOutsideRoot(_))
    ));
}

#[test]
fn indexed_files_are_counted_for_one_provider() {
    let provider = |version: &str| IndexProvider {
        id: "tree".to_owned(),
        version: version.to_owned(),
        identity_quality: "syntactic".to_owned(),
    };
    let mut tally = IndexTally::new();
    tally.count("a.rs", &provider("1"), &provider("1"), false).unwrap();
    tally.count("b.rs", &provider("1"), &provider("1"), true).unwrap();
    assert_eq!(tally.indexed_files, 2);
    assert_eq!(tally.syntax_error_files, ["b.rs"]);
    assert!(tally.count("c.rs", &provider("2"), &provider("1"), false).is_err());
}

#[test]
fn paths_under_a_root_are_told_from_it() {
    assert_eq!(paths::make_project_relative("/repo", "/repo/src/a.rs", false), "src/a.rs");
    assert_eq!(paths::make_project_relative("/repo", "other/a.rs", false), "other/a.rs");
    assert_eq!(paths::make_project_relative("C:/Repo", "c:/repo/a.rs", true), "a.rs");
    assert_eq!(paths::make_project_relative("C:/Repo", "c:/repo/a.rs", false), "c:/repo/a.rs");
}

#[test]
fn reports_tell_what_changed_files_declare() {
    let declared = |symbols: &str, has_syntax_errors: bool| {
        Some(SymbolAnalysis { symbols: symbols.to_owned(), has_syntax_errors })
    };
    let lost = DiffHunk { old: Some(range(7, 7)), new: None, old_start: 7, new_start: 6 };
    let changed = ChangedFile {
        path: "a.rs".to_owned(),
        language: Some("rust".to_owned()),
        untracked: false,
        source: Some("one\ntwo\n".to_owned()),
        hunks: vec![lost],
        current: declared("[1]", false),
        base: declared("[2]", true),
    };
    let unread = ChangedFile { hunks: Vec::new(), source: None, ..changed.clone() };
    let new = ChangedFile { untracked: true, hunks: Vec::new(), ..changed.clone() };
    let files = vec![changed, ChangedFile::unsupported("notes.txt"), unread, new];
    let report = analyze::evaluate(1, "HEAD", &files);
    assert_eq!(report.unsupported_files, ["notes.txt"]);
    assert_eq!(report.files.len(), 3);
    let told = &report.files[0];
    assert_eq!((told.changed_symbols.as_str(), told.removed_symbols.as_str()), ("[1]", "[2]"));
    assert!(told.has_syntax_errors);
    assert_eq!(told.removed_ranges, [range(7, 7)]);
    let gone = &report.files[1];
    assert_eq!((gone.changed_symbols.as_str(), gone.removed_symbols.as_str()), ("[]", "[]"));
    assert!(!gone.has_syntax_errors);
    assert_eq!(report.files[2].changed_ranges, [range(1, 2)]);
}

#[test]
fn files_that_are_not_understood_say_nothing_more() {
    let file = ChangedFile::unsupported("notes.txt");
    let expected = ChangedFile {
        path: "notes.txt".to_owned(),
        language: None,
        untracked: false,
        source: None,
        hunks: Vec::new(),
        current: None,
        base: None,
    };
    assert_eq!(file, expected);
}

#[test]
fn kept_worktrees_tell_what_changed() {
    let keep = |path: &str, item: WorktreeItem| {
        git::keep(&WorktreeEntry { path: path.to_owned(), inside: true, item })
    };
    let file = |path: &str, bytes: &[u8]| keep(path, WorktreeItem::File(bytes.to_vec()));
    assert_eq!(
        file("a.rs", b"one"),
        KeptFile {
            path: "a.rs".to_owned(),
            state: "file:7692c3ad3540bb803c020b3aee66cd8887123234ea0c6e7143c0add73ff431ed"
                .to_owned(),
        }
    );
    assert_eq!(keep("a", WorktreeItem::Missing).state, "missing");
    assert_eq!(keep("a", WorktreeItem::Other).state, "other");
    let link = keep("a.rs", WorktreeItem::Link(b"one".to_vec()));
    assert!(link.state.starts_with("link:7692c3ad"));

    let before = vec![file("a.rs", b"one"), file("b.rs", b"two"), file("c.rs", b"three")];
    let after = vec![file("a.rs", b"one"), file("b.rs", b"2"), file("d.rs", b"four")];
    let changed = git::changed_between(&before, &after);
    assert_eq!(changed, ["b.rs", "c.rs", "d.rs"]);
    assert_eq!(git::changed_between(&after, &before), changed);
    assert!(git::changed_between(&before, &before).is_empty());
    assert_eq!(git::changed_between(&Vec::new(), &before), ["a.rs", "b.rs", "c.rs"]);
    assert_eq!(git::changed_between(&vec![link], &vec![file("a.rs", b"one")]), ["a.rs"]);
}
