//! Compacting the database: options, names, space, journals and the run itself.
use project_brain::compaction::{
    self, CopyStep, DatabaseCompactJournal, DatabaseFacts, JournalNotice, LogicalVerification,
    Opened, OperationState, ResumeStep, StorageStats,
};
use project_brain::compaction_run::{
    self, CompactRun, Comparison, Inspection, Phase, Reply, SWAP_RETRIES,
};
use project_brain::database::{self, CompactRequest, DatabaseCompactOptions};
use project_brain::error::AppError;

fn options() -> DatabaseCompactOptions {
    DatabaseCompactOptions {
        apply: true,
        request_id: Some("compact-request-1".to_owned()),
        human_confirmed: true,
        full_check: true,
        keep_backup: true,
        lock_timeout_seconds: 0,
    }
}

fn request() -> CompactRequest {
    database::begin_apply("project-test", &options()).unwrap()
}

fn stats(database_bytes: u64) -> StorageStats {
    StorageStats { database_bytes, document: "{}".to_owned() }
}

fn verification(logical: &str) -> LogicalVerification {
    LogicalVerification {
        logical_manifest_sha256: logical.to_owned(),
        document: "{}".to_owned(),
    }
}

fn facts() -> DatabaseFacts {
    DatabaseFacts {
        stats: stats(1_000),
        verification: verification("logical"),
        file_sha256: "before".to_owned(),
        file_bytes: 1_000,
        wal_bytes: 0,
        available_space_bytes: 1_000_000,
    }
}

fn journal() -> DatabaseCompactJournal {
    compaction::start_journal(&request(), "brain.db", 3_600, &facts(), "checkpoint", 7).unwrap()
}

fn comparison(logical: &str) -> Comparison {
    Comparison {
        source_logical: "logical".to_owned(),
        source_hash: "before".to_owned(),
        target: stats(400),
        target_verification: verification(logical),
        target_hash: "after".to_owned(),
        temporaries: Vec::new(),
    }
}

fn inspection() -> Inspection {
    Inspection {
        stats: stats(400),
        verification: verification("logical"),
        file_hash: "after".to_owned(),
        file_bytes: 400,
    }
}

#[test]
fn disk_estimate_accounts_for_atomic_copy_and_optional_backup() {
    assert_eq!(database::estimated_required_space(1_000, 0, false).unwrap(), 2_400);
    assert_eq!(database::estimated_required_space(1_000, 0, true).unwrap(), 3_600);
    assert_eq!(database::estimated_required_space(1_000, 500, false).unwrap(), 3_000);
    assert!(database::ensure_space_available(3_600, 3_599).is_err());
    database::ensure_space_available(3_600, 3_600).unwrap();
}

#[test]
fn dry_run_rejects_mutation_credentials() {
    let options = DatabaseCompactOptions {
        apply: false,
        request_id: Some("request-1".to_owned()),
        human_confirmed: false,
        full_check: false,
        keep_backup: true,
        lock_timeout_seconds: 5,
    };
    assert!(database::validate_options(&options).is_err());
}

#[test]
fn applying_needs_a_person_and_a_request() {
    assert!(database::begin_apply("p", &options()).is_ok());
    let unconfirmed = DatabaseCompactOptions { human_confirmed: false, ..options() };
    assert!(database::begin_apply("p", &unconfirmed).is_err());
    let nameless = DatabaseCompactOptions { request_id: None, ..options() };
    assert!(database::begin_apply("p", &nameless).is_err());
    let patient = DatabaseCompactOptions { lock_timeout_seconds: 301, ..options() };
    assert!(database::begin_apply("p", &patient).is_err());
    assert!(database::validate_request_id("").is_err());
    assert!(database::validate_request_id("compact-request-1").is_ok());
}

#[test]
fn requests_are_known_by_what_they_ask_for() {
    let request = request();
    assert_eq!(
        request.request_sha256,
        "3dfc7ff6ed7978b4125500cd767533e0bb6abe639788de5ccfe452ff7781cddf"
    );
    let other = DatabaseCompactOptions { full_check: false, ..options() };
    assert_ne!(
        database::parameters_hash("project-test", &options()),
        database::parameters_hash("project-test", &other)
    );
    assert_ne!(
        database::parameters_hash("a", &options()),
        database::parameters_hash("b", &options())
    );
    assert_eq!(
        database::parameters_hash("project \"x\"", &options()),
        database::parameters_hash("project \"x\"", &options())
    );
}

#[test]
fn too_large_a_database_has_no_estimate() {
    assert!(database::estimated_required_space(u64::MAX, 0, false).is_err());
    assert!(database::estimated_required_space(1, u64::MAX, false).is_err());
}

#[test]
fn journals_are_found_by_their_names() {
    let name = database::journal_name("brain.db", "abc");
    assert!(database::is_journal_name("brain.db", &name));
    assert!(!database::is_journal_name("other.db", &name));
    assert_ne!(name, database::vacuum_name("brain.db", "abc"));
    assert_ne!(name, database::backup_name("brain.db", "abc"));
    assert_ne!(database::lock_name("brain.db"), name);
}

#[test]
fn abandoned_temporaries_are_told_from_what_was_there() {
    assert!(database::is_atomic_database_temporary_name("brain.db", ".brain.db.abc123"));
    assert!(!database::is_atomic_database_temporary_name("brain.db", "brain.db"));
    let names = vec![".brain.db.abc123".to_owned(), ".brain.db.xyz789".to_owned()];
    let baseline = vec![".brain.db.xyz789".to_owned()];
    assert_eq!(
        database::leftover_temporaries("brain.db", &names, &baseline),
        [".brain.db.abc123"]
    );
    assert!(database::validate_atomic_temporary_baseline("brain.db", &baseline).is_ok());
    let strange = vec!["elsewhere".to_owned()];
    assert!(database::validate_atomic_temporary_baseline("brain.db", &strange).is_err());
}

#[test]
fn files_elsewhere_are_not_removed() {
    assert!(database::check_removal(true, "x").is_ok());
    assert!(database::check_removal(false, "x").is_err());
    assert!(database::check_sidecar(0, "x").is_ok());
    assert!(database::check_sidecar(1, "x").is_err());
    assert!(database::keep_waiting(true, 5, "x").is_ok());
    assert!(matches!(
        database::keep_waiting(false, 5, "x"),
        Err(AppError::DatabaseMaintenance(_))
    ));
    assert!(matches!(database::shared_lock_error("x"), AppError::DatabaseMaintenance(_)));
}

#[test]
fn a_preview_changes_nothing() {
    let preview = DatabaseCompactOptions {
        apply: false,
        request_id: None,
        human_confirmed: false,
        ..options()
    };
    let report = compaction::preview_compaction("project-test", &preview, &facts()).unwrap();
    assert!(!report.applied);
    assert!(!report.replayed);
    assert_eq!(report.estimated_required_free_space_bytes, 3_600);
    assert_eq!(report.source_bytes, 1_000);
    let confirmed = DatabaseCompactOptions { apply: false, ..options() };
    assert!(compaction::preview_compaction("project-test", &confirmed, &facts()).is_err());
}

#[test]
fn a_lossless_copy_takes_the_place_of_the_database() {
    let run = CompactRun::fresh(journal());
    let run = run.step(Reply::Written, 8);
    let run = run.step(Reply::Candidate(None), 8);
    assert_eq!(run.phase, Phase::MakeCandidate);
    let run = run.step(Reply::Made("checkpointed".to_owned()), 8);
    let run = run.step(Reply::Compared(comparison("logical")), 9);
    assert_eq!(run.phase, Phase::WriteVerified);
    assert_eq!(run.journal.state, OperationState::Verified);
    let run = run.step(Reply::Written, 9);
    assert_eq!(run.phase, Phase::KeepBackup);
    let run = run.step(Reply::Copied, 9);
    assert_eq!(run.phase, Phase::Swap);
    let run = run.step(Reply::Swapped("done".to_owned()), 10);
    let run = run.step(Reply::Written, 10);
    let run = run.step(Reply::Inspected(inspection()), 11);
    let run = run.step(Reply::Written, 11);
    assert_eq!(run.phase, Phase::Done);
    let report = run.outcome().unwrap().unwrap();
    assert!(report.applied);
    assert!(!report.replayed);
    assert_eq!(report.source_logical_manifest_sha256, report.target_logical_manifest_sha256);
    assert_ne!(report.source_file_sha256, report.target_file_sha256);
    assert_eq!(report.bytes_reclaimed, Some(600));

    let replay = compaction::replay_report(report.clone(), "after", "logical");
    assert!(replay.replayed);
    assert_eq!(replay.completed_logical_target_still_current, Some(true));
    let later = compaction::replay_report(report, "written", "other");
    assert_eq!(later.completed_logical_target_still_current, Some(false));
    assert_ne!(later.current_logical_manifest_sha256, later.target_logical_manifest_sha256);
}

#[test]
fn a_copy_that_lost_something_is_never_swapped() {
    let run = CompactRun::fresh(journal()).step(Reply::Written, 8);
    let run = run.step(Reply::Candidate(Some("logical".to_owned())), 8);
    assert_eq!(run.phase, Phase::Compare);
    let run = run.step(Reply::Compared(comparison("less")), 9);
    assert!(matches!(run.phase, Phase::WriteFailure(_)));
    assert_eq!(run.journal.state, OperationState::Failed);
    let run = run.step(Reply::Written, 9);
    assert!(matches!(run.outcome(), Some(Err(AppError::DatabaseMaintenance(_)))));
}

fn busy(checkpoint: &str) -> Reply {
    Reply::Busy { checkpoint: checkpoint.to_owned(), error: "in use".to_owned() }
}

fn about_to_swap() -> CompactRun {
    let run = CompactRun::fresh(journal()).step(Reply::Written, 8);
    let run = run.step(Reply::Candidate(Some("logical".to_owned())), 8);
    let run = run.step(Reply::Compared(comparison("logical")), 9);
    let run = run.step(Reply::Written, 9);
    run.step(Reply::Copied, 9)
}

#[test]
fn a_failed_swap_is_told_with_its_checkpoint() {
    let failed = about_to_swap().step(
        Reply::NotSwapped {
            checkpoint: "taken".to_owned(),
            error: AppError::Io("gone".to_owned()),
        },
        10,
    );
    assert_eq!(failed.phase, Phase::WriteFailure(AppError::Io("gone".to_owned())));
    assert_eq!(failed.journal.wal_checkpoint, "taken");
    let before = about_to_swap().journal.wal_checkpoint;
    let early = about_to_swap().step(Reply::Failed(AppError::Io("gone".to_owned())), 10);
    assert_eq!(early.journal.wal_checkpoint, before);
}

#[test]
fn a_busy_database_is_waited_for() {
    let mut run = about_to_swap();
    for attempt in 0..SWAP_RETRIES {
        assert_eq!(run.attempt, attempt);
        assert_eq!(run.phase, Phase::Swap);
        run = run.step(busy("first"), 10);
        assert_eq!(run.journal.wal_checkpoint, "first");
    }
    let run = run.step(busy("last"), 10);
    assert!(matches!(run.phase, Phase::WriteFailure(AppError::DatabaseSwapBusy(_))));
    assert_eq!(run.journal.wal_checkpoint, "last");
    assert!(compaction_run::swap_delay(0) <= compaction_run::swap_delay(SWAP_RETRIES));
    assert!(matches!(
        compaction::commit_error(true, "brain.db", "in use"),
        AppError::DatabaseSwapBusy(_)
    ));
    assert!(matches!(
        compaction::commit_error(false, "brain.db", "gone"),
        AppError::Io(_)
    ));
}

#[test]
fn a_broken_operation_is_taken_up_again() {
    let mut broken = journal();
    broken.state = OperationState::Failed;
    broken.failure = Some("simulated crash before swap".to_owned());
    broken.target_file_sha256 = Some("after".to_owned());
    broken.target_verification = Some(verification("logical"));
    let name = database::journal_name("brain.db", &request().request_sha256);
    let notices = vec![JournalNotice {
        file_name: name,
        request_id: "compact-request-1".to_owned(),
        state: OperationState::Failed,
    }];
    assert!(compaction::ensure_no_pending_operation(&notices).is_err());
    let opened =
        compaction::open_operation(&request(), "brain.db", &notices, Some(broken.clone()), "j");
    assert!(matches!(opened, Ok(Opened::Resume(_))));
    let other = DatabaseCompactOptions { full_check: false, ..options() };
    let collision = database::begin_apply("project-test", &other).unwrap();
    assert!(
        compaction::open_operation(&collision, "brain.db", &notices, Some(broken.clone()), "j")
            .is_err()
    );

    let logical = Some("logical".to_owned());
    assert_eq!(compaction::resume_step(&broken, "before", &logical), ResumeStep::Restart);
    assert_eq!(compaction::resume_step(&broken, "after", &logical), ResumeStep::Finish);
    assert_eq!(compaction::resume_step(&broken, "corrupt", &None), ResumeStep::Restore);
    assert!(compaction::check_backup(&broken, &Some("before".to_owned())).is_ok());
    assert!(compaction::check_backup(&broken, &None).is_err());
    assert!(compaction::check_restored(&broken, "logical").is_ok());
    assert!(compaction::check_restored(&broken, "other").is_err());

    let run = CompactRun::restart(broken.clone(), 12);
    assert_eq!(run.journal.state, OperationState::Running);
    assert!(run.replayed);
    let run = CompactRun::finish(broken.clone());
    assert_eq!(run.phase, Phase::InspectResult);
    let given_up =
        CompactRun::give_up(broken, AppError::DatabaseMaintenance("no backup".to_owned()), 13);
    assert!(matches!(given_up.phase, Phase::WriteFailure(_)));
}

#[test]
fn other_operations_have_to_end_first() {
    let notice = |state: OperationState| JournalNotice {
        file_name: ".brain.db.other.journal".to_owned(),
        request_id: "other".to_owned(),
        state,
    };
    let pending = vec![notice(OperationState::Verified)];
    assert!(compaction::reject_other_pending_operations(&pending, "own").is_err());
    let done = vec![notice(OperationState::Completed)];
    assert!(compaction::reject_other_pending_operations(&done, "own").is_ok());
    assert!(compaction::ensure_no_pending_operation(&done).is_ok());
    let fresh = compaction::open_operation(&request(), "brain.db", &done, None, "j");
    assert!(matches!(fresh, Ok(Opened::Fresh)));
    assert_eq!(OperationState::Swapped.as_str(), "Swapped");
    assert!(!OperationState::Completed.requires_recovery());
}

#[test]
fn copies_are_made_once_and_checked() {
    let none = None;
    let before = Some("before".to_owned());
    let step = |source: &str, target: &Option<String>| {
        compaction::begin_copy(source, "before", "db", target, &none, "backup")
    };
    assert_eq!(step("before", &none).unwrap(), CopyStep::Write);
    assert_eq!(step("before", &before).unwrap(), CopyStep::AlreadyThere);
    assert!(step("changed", &none).is_err());
    assert!(compaction::check_copied("before", "before", "backup").is_ok());
    assert!(compaction::check_copied("other", "before", "backup").is_err());
    assert!(compaction::check_preflight(1_000, 0, true, 3_599).is_err());
    assert_eq!(compaction::check_preflight(1_000, 0, true, 3_600).unwrap(), 3_600);
}

#[test]
fn nothing_but_the_verified_copy_is_swapped_in() {
    let mut verified = journal();
    verified.target_file_sha256 = Some("after".to_owned());
    assert!(compaction::check_candidate(&verified, "after").is_ok());
    assert!(compaction::check_candidate(&verified, "other").is_err());
    assert!(compaction::check_source_at_swap(&verified, "logical", "before").is_ok());
    assert!(compaction::check_source_at_swap(&verified, "logical", "written").is_err());
    assert!(compaction::check_source_after_cleanup(&verified, "before", "db").is_ok());
    assert!(compaction::check_source_after_cleanup(&verified, "written", "db").is_err());
    assert!(compaction::check_swapped(&verified, "after").is_ok());
    assert!(compaction::check_swapped(&verified, "before").is_err());
}
