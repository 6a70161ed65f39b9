//! How a compaction runs: what is asked for next, what is made of the reply,
//! and what the journal says meanwhile.
use crate::compaction::{
    DatabaseCompactJournal, DatabaseCompactReport, JournalHead, LogicalVerification, OperationState,
    StorageStats,
};
use crate::database::OPERATION_PROTOCOL_VERSION;
use crate::error::{self, AppError, ErrorView};
use crate::model;
use crate::text;
use vstd::prelude::*;

verus! {

broadcast use {vstd::string::group_string_axioms, vstd::seq::group_seq_axioms};

/// How often a swap is tried again.
pub const SWAP_RETRIES: usize = 5;

/// How long is waited before a swap is tried, in milliseconds.
pub fn swap_delay(attempt: usize) -> (r: u64)
    requires
        attempt <= SWAP_RETRIES,
    ensures
        r == delay_of(attempt as nat),
{
    match attempt {
        0 => 0,
        1 => 50,
        2 => 100,
        3 => 250,
        4 => 500,
        _ => 1000,
    }
}

/// How long is waited before a swap is tried, in milliseconds.
pub open spec fn delay_of(attempt: nat) -> u64 {
    if attempt == 0 {
        0
    } else if attempt == 1 {
        50
    } else if attempt == 2 {
        100
    } else if attempt == 3 {
        250
    } else if attempt == 4 {
        500
    } else {
        1000
    }
}

/// What is asked for next.
#[derive(Debug, PartialEq, Eq)]
pub enum Phase {
    /// Write the journal of an operation that begins or is taken up.
    WriteStart,
    /// Is there a copy already, and what does it hold?
    LookForCandidate,
    /// Make a copy.
    MakeCandidate,
    /// What do the database and the copy hold now?
    Compare,
    /// Write the journal: the copy is verified.
    WriteVerified,
    /// Keep a backup.
    KeepBackup,
    /// Let the copy take the place of the database.
    Swap,
    /// Write the journal: the copy has taken the place of the database.
    WriteSwapped,
    /// What does the database hold now?
    InspectResult,
    /// Remove the copy, and write the journal: the operation is over.
    WriteCompleted,
    /// Write the journal: the operation failed.
    WriteFailure(AppError),
    Done,
    Failed(AppError),
}

/// What is asked for next.
pub enum PhaseView {
    WriteStart,
    LookForCandidate,
    MakeCandidate,
    Compare,
    WriteVerified,
    KeepBackup,
    Swap,
    WriteSwapped,
    InspectResult,
    WriteCompleted,
    WriteFailure(ErrorView),
    Done,
    Failed(ErrorView),
}

impl View for Phase {
    type V = PhaseView;

    open spec fn view(&self) -> PhaseView {
        match self {
            Phase::WriteStart => PhaseView::WriteStart,
            Phase::LookForCandidate => PhaseView::LookForCandidate,
            Phase::MakeCandidate => PhaseView::MakeCandidate,
            Phase::Compare => PhaseView::Compare,
            Phase::WriteVerified => PhaseView::WriteVerified,
            Phase::KeepBackup => PhaseView::KeepBackup,
            Phase::Swap => PhaseView::Swap,
            Phase::WriteSwapped => PhaseView::WriteSwapped,
            Phase::InspectResult => PhaseView::InspectResult,
            Phase::WriteCompleted => PhaseView::WriteCompleted,
            Phase::WriteFailure(e) => PhaseView::WriteFailure(e@),
            Phase::Done => PhaseView::Done,
            Phase::Failed(e) => PhaseView::Failed(e@),
        }
    }
}

/// What the database and the copy are found to hold, and what atomic writes
/// have left behind by then.
#[derive(Debug, Clone, PartialEq, Eq)]
pub struct Comparison {
    pub source_logical: String,
    pub source_hash: String,
    pub target: StorageStats,
    pub target_verification: LogicalVerification,
    pub target_hash: String,
    pub temporaries: Vec<String>,
}

/// What the database is found to hold after the swap.
#[derive(Debug, Clone, PartialEq, Eq)]
pub struct Inspection {
    pub stats: StorageStats,
    pub verification: LogicalVerification,
    pub file_hash: String,
    pub file_bytes: u64,
}

/// What came of what was asked for.
#[derive(Debug, PartialEq, Eq)]
pub enum Reply {
    /// What the copy holds, where there is one that can be read.
    Candidate(Option<String>),
    /// The copy was made, after the write-ahead log was worked in.
    Made(String),
    Compared(Comparison),
    Written,
    Copied,
    /// The swap was done, after the write-ahead log was worked in.
    Swapped(String),
    /// The swap was not done because the database was in use, after the
    /// write-ahead log was worked in.
    Busy { checkpoint: String, error: String },
    /// The swap failed after the write-ahead log was worked in.
    NotSwapped { checkpoint: String, error: AppError },
    Inspected(Inspection),
    Failed(AppError),
}

/// A run, with what its journal says by now.
#[derive(Debug, PartialEq, Eq)]
pub struct CompactRun {
    pub journal: DatabaseCompactJournal,
    pub phase: Phase,
    /// The operation had been begun before.
    pub replayed: bool,
    /// A failure goes into the journal.
    pub journaled: bool,
    /// How often the swap was tried.
    pub attempt: usize,
}

/// What a run says, but for the report in its journal.
pub struct RunView {
    pub head: JournalHead,
    pub state: OperationState,
    pub target: Option<StorageStats>,
    pub target_verification: Option<LogicalVerification>,
    pub target_hash: Option<Seq<char>>,
    pub checkpoint: Seq<char>,
    pub baseline: Seq<Seq<char>>,
    pub failure: Option<Seq<char>>,
    pub updated: u64,
    pub phase: PhaseView,
    pub replayed: bool,
    pub journaled: bool,
    pub attempt: nat,
}

impl View for CompactRun {
    type V = RunView;

    open spec fn view(&self) -> RunView {
        RunView {
            head: self.journal.head,
            state: self.journal.state,
            target: self.journal.target,
            target_verification: self.journal.target_verification,
            target_hash: model::opt_view(self.journal.target_file_sha256),
            checkpoint: self.journal.wal_checkpoint@,
            baseline: text::views(self.journal.atomic_temporary_baseline@),
            failure: model::opt_view(self.journal.failure),
            updated: self.journal.updated_at_unix_seconds,
            phase: self.phase@,
            replayed: self.replayed,
            journaled: self.journaled,
            attempt: self.attempt as nat,
        }
    }
}

// ---------------------------------------------------------------------------
// How a run goes on
// ---------------------------------------------------------------------------

/// The state that a failure leaves behind: a database that was only in use can
/// be tried again with the same copy.
pub open spec fn failed_state(e: ErrorView) -> OperationState {
    if e is DatabaseSwapBusy {
        OperationState::Verified
    } else {
        OperationState::Failed
    }
}

/// A run that fails.
pub open spec fn failing(run: RunView, e: ErrorView, now: u64) -> RunView {
    if run.journaled {
        RunView {
            state: failed_state(e),
            failure: Some(e.message()),
            updated: now,
            phase: PhaseView::WriteFailure(e),
            ..run
        }
    } else {
        RunView { phase: PhaseView::Failed(e), ..run }
    }
}

/// What the database held at the start.
pub open spec fn source_logical(run: RunView) -> Seq<char> {
    run.head.source_verification.logical_manifest_sha256@
}

/// Why a copy is not taken.
pub open spec fn comparison_refusal(run: RunView, c: Comparison) -> Option<ErrorView> {
    if c.source_logical@ != source_logical(run) || c.source_hash@ != run.head.source_file_sha256@ {
        Some(
            ErrorView::DatabaseMaintenance("VACUUM 期间源数据库发生变化，拒绝替换"@),
        )
    } else if c.target_verification.logical_manifest_sha256@ != source_logical(run) {
        Some(
            ErrorView::DatabaseMaintenance(
                "VACUUM 候选逻辑清单不一致：source="@ + source_logical(run) + " target="@
                    + c.target_verification.logical_manifest_sha256@,
            ),
        )
    } else {
        None
    }
}

/// Why the database is not taken for the copy.
pub open spec fn inspection_refusal(run: RunView, i: Inspection) -> Option<ErrorView> {
    match run.target_verification {
        None => Some(ErrorView::DatabaseMaintenance("压缩日志缺少目标逻辑验证"@)),
        Some(expected) => if i.verification.logical_manifest_sha256@
            != expected.logical_manifest_sha256@ {
            Some(
                ErrorView::DatabaseMaintenance(
                    "原子替换后的数据库逻辑清单不匹配已验证候选"@,
                ),
            )
        } else if run.target_hash != Some(i.file_hash@) {
            Some(
                ErrorView::DatabaseMaintenance(
                    "原子替换后的数据库文件哈希不匹配已验证候选"@,
                ),
            )
        } else {
            None
        },
    }
}

/// How a run goes on, by what came of what was asked for.
pub open spec fn next(run: RunView, reply: Reply, now: u64) -> RunView {
    match (run.phase, reply) {
        (PhaseView::Done, _) => run,
        (PhaseView::Failed(_), _) => run,
        (PhaseView::WriteFailure(e), Reply::Written) => RunView {
            phase: PhaseView::Failed(e),
            ..run
        },
        (PhaseView::WriteFailure(_), Reply::Failed(e)) => RunView {
            phase: PhaseView::Failed(e@),
            ..run
        },
        (PhaseView::WriteFailure(_), _) => RunView {
            phase: PhaseView::Failed(ErrorView::UnexpectedReply),
            ..run
        },
        (_, Reply::Failed(e)) => failing(run, e@, now),
        (PhaseView::WriteStart, Reply::Written) => RunView {
            phase: PhaseView::LookForCandidate,
            journaled: true,
            ..run
        },
        (PhaseView::LookForCandidate, Reply::Candidate(found)) => RunView {
            phase: if model::opt_view(found) == Some(source_logical(run)) {
                PhaseView::Compare
            } else {
                PhaseView::MakeCandidate
            },
            ..run
        },
        (PhaseView::MakeCandidate, Reply::Made(checkpoint)) => RunView {
            checkpoint: checkpoint@,
            phase: PhaseView::Compare,
            ..run
        },
        (PhaseView::Compare, Reply::Compared(c)) => match comparison_refusal(run, c) {
            Some(e) => failing(run, e, now),
            None => RunView {
                state: OperationState::Verified,
                target: Some(c.target),
                target_verification: Some(c.target_verification),
                target_hash: Some(c.target_hash@),
                baseline: text::views(c.temporaries@),
                updated: now,
                phase: PhaseView::WriteVerified,
                ..run
            },
        },
        (PhaseView::WriteVerified, Reply::Written) => RunView {
            phase: if run.head.backup_file_name is Some {
                PhaseView::KeepBackup
            } else {
                PhaseView::Swap
            },
            attempt: 0,
            ..run
        },
        (PhaseView::KeepBackup, Reply::Copied) => RunView { phase: PhaseView::Swap, ..run },
        (PhaseView::Swap, Reply::Swapped(checkpoint)) => RunView {
            checkpoint: checkpoint@,
            state: OperationState::Swapped,
            updated: now,
            phase: PhaseView::WriteSwapped,
            ..run
        },
        (PhaseView::Swap, Reply::Busy { checkpoint, error }) => {
            let tried = RunView { checkpoint: checkpoint@, ..run };
            if run.attempt < SWAP_RETRIES {
                RunView { attempt: run.attempt + 1, ..tried }
            } else {
                failing(tried, ErrorView::DatabaseSwapBusy(error@), now)
            }
        },
        (PhaseView::Swap, Reply::NotSwapped { checkpoint, error }) => failing(
            RunView { checkpoint: checkpoint@, ..run },
            error@,
            now,
        ),
        (PhaseView::WriteSwapped, Reply::Written) => RunView {
            phase: PhaseView::InspectResult,
            ..run
        },
        (PhaseView::InspectResult, Reply::Inspected(i)) => match inspection_refusal(run, i) {
            Some(e) => failing(run, e, now),
            None => RunView {
                target_verification: Some(i.verification),
                state: OperationState::Completed,
                failure: None,
                updated: now,
                phase: PhaseView::WriteCompleted,
                ..run
            },
        },
        (PhaseView::WriteCompleted, Reply::Written) => RunView { phase: PhaseView::Done, ..run },
        _ => failing(run, ErrorView::UnexpectedReply, now),
    }
}

/// What is reported of a compaction that is over.
pub open spec fn report_says(p: DatabaseCompactReport, run: RunView, i: Inspection) -> bool {
    let h = run.head;
    &&& p.operation_protocol_version == OPERATION_PROTOCOL_VERSION
    &&& p.project_key == h.project_key
    &&& p.mode@ == "apply"@
    &&& p.applied
    &&& p.replayed == run.replayed
    &&& p.external_writer_protection == h.external_writer_protection
    &&& p.replacement_durability == h.replacement_durability
    &&& p.request_id == Some(h.request_id)
    &&& p.parameters_sha256 == Some(h.parameters_sha256)
    &&& p.source == h.source
    &&& p.target == Some(i.stats)
    &&& p.source_logical_manifest_sha256 == Some(h.source_verification.logical_manifest_sha256)
    &&& p.target_logical_manifest_sha256 == Some(i.verification.logical_manifest_sha256)
    &&& p.current_logical_manifest_sha256 == Some(i.verification.logical_manifest_sha256)
    &&& p.source_file_sha256 == Some(h.source_file_sha256)
    &&& p.target_file_sha256 == Some(i.file_hash)
    &&& model::opt_view(p.current_file_sha256) == run.target_hash
    &&& p.completed_logical_target_still_current == Some(true)
    &&& p.completed_file_target_still_current == Some(true)
    &&& p.source_bytes == h.source_file_bytes
    &&& p.target_bytes == Some(i.file_bytes)
    &&& p.bytes_reclaimed == Some(
        (if h.source_file_bytes > i.file_bytes {
            h.source_file_bytes - i.file_bytes
        } else {
            0
        }) as u64,
    )
    &&& p.estimated_required_free_space_bytes == h.estimated_required_free_space_bytes
    &&& p.available_space_bytes == h.available_space_bytes
    &&& p.wal_bytes_at_preflight == h.wal_bytes_at_preflight
    &&& p.keep_backup == h.keep_backup
    &&& p.backup_path == h.backup_file_name
    &&& model::opt_view(p.wal_checkpoint) == Some(run.checkpoint)
}

/// The report that a step puts into the journal.
pub open spec fn reported(
    before: CompactRun,
    reply: Reply,
    result: Option<DatabaseCompactReport>,
) -> bool {
    match (before@.phase, reply) {
        (PhaseView::InspectResult, Reply::Inspected(i)) => if inspection_refusal(
            before@,
            i,
        ) is None {
            result is Some && report_says(result->0, before@, i)
        } else {
            result == before.journal.result
        },
        _ => result == before.journal.result,
    }
}

fn copy_opt(s: &Option<String>) -> (r: Option<String>)
    ensures
        r == *s,
{
    match s {
        Some(s) => Some(s.clone()),
        None => None,
    }
}

fn finished_report(run: &CompactRun, i: &Inspection) -> (r: DatabaseCompactReport)
    ensures
        report_says(r, run@, *i),
{
    let h = &run.journal.head;
    let reclaimed: u64 = if h.source_file_bytes > i.file_bytes {
        h.source_file_bytes - i.file_bytes
    } else {
        0
    };
    DatabaseCompactReport {
        operation_protocol_version: OPERATION_PROTOCOL_VERSION,
        project_key: h.project_key.clone(),
        mode: "apply".to_owned(),
        applied: true,
        replayed: run.replayed,
        external_writer_protection: h.external_writer_protection.clone(),
        replacement_durability: h.replacement_durability.clone(),
        request_id: Some(h.request_id.clone()),
        parameters_sha256: Some(h.parameters_sha256.clone()),
        source: StorageStats {
            database_bytes: h.source.database_bytes,
            document: h.source.document.clone(),
        },
        target: Some(
            StorageStats {
                database_bytes: i.stats.database_bytes,
                document: i.stats.document.clone(),
            },
        ),
        source_logical_manifest_sha256: Some(
            h.source_verification.logical_manifest_sha256.clone(),
        ),
        target_logical_manifest_sha256: Some(i.verification.logical_manifest_sha256.clone()),
        current_logical_manifest_sha256: Some(i.verification.logical_manifest_sha256.clone()),
        source_file_sha256: Some(h.source_file_sha256.clone()),
        target_file_sha256: Some(i.file_hash.clone()),
        current_file_sha256: copy_opt(&run.journal.target_file_sha256),
        completed_logical_target_still_current: Some(true),
        completed_file_target_still_current: Some(true),
        source_bytes: h.source_file_bytes,
        target_bytes: Some(i.file_bytes),
        bytes_reclaimed: Some(reclaimed),
        estimated_required_free_space_bytes: h.estimated_required_free_space_bytes,
        available_space_bytes: h.available_space_bytes,
        wal_bytes_at_preflight: h.wal_bytes_at_preflight,
        keep_backup: h.keep_backup,
        backup_path: copy_opt(&h.backup_file_name),
        wal_checkpoint: Some(run.journal.wal_checkpoint.clone()),
    }
}

fn compare(run: &CompactRun, c: &Comparison) -> (r: Result<(), AppError>)
    ensures
        error::follows(r, comparison_refusal(run@, *c)),
{
    let h = &run.journal.head;
    let logical = h.source_verification.logical_manifest_sha256.as_str();
    if !text::same(c.source_logical.as_str(), logical) || !text::same(
        c.source_hash.as_str(),
        h.source_file_sha256.as_str(),
    ) {
        return Err(
            AppError::DatabaseMaintenance(
                "VACUUM 期间源数据库发生变化，拒绝替换".to_owned(),
            ),
        );
    }
    let found = c.target_verification.logical_manifest_sha256.as_str();
    if !text::same(found, logical) {
        return Err(
            AppError::DatabaseMaintenance(
                text::cat4("VACUUM 候选逻辑清单不一致：source=", logical, " target=", found),
            ),
        );
    }
    Ok(())
}

fn inspect(run: &CompactRun, i: &Inspection) -> (r: Result<(), AppError>)
    ensures
        error::follows(r, inspection_refusal(run@, *i)),
{
    let expected = match &run.journal.target_verification {
        None => {
            return Err(
                AppError::DatabaseMaintenance("压缩日志缺少目标逻辑验证".to_owned()),
            );
        },
        Some(expected) => expected,
    };
    if !text::same(
        i.verification.logical_manifest_sha256.as_str(),
        expected.logical_manifest_sha256.as_str(),
    ) {
        return Err(
            AppError::DatabaseMaintenance(
                "原子替换后的数据库逻辑清单不匹配已验证候选".to_owned(),
            ),
        );
    }
    if !model::opt_is(&run.journal.target_file_sha256, i.file_hash.as_str()) {
        return Err(
            AppError::DatabaseMaintenance(
                "原子替换后的数据库文件哈希不匹配已验证候选".to_owned(),
            ),
        );
    }
    Ok(())
}

impl CompactRun {
    /// A run of an operation that begins.
    pub fn fresh(journal: DatabaseCompactJournal) -> (r: Self)
        ensures
            r.journal == journal,
            r@.phase == PhaseView::WriteStart,
            !r.replayed,
            !r.journaled,
            r.attempt == 0,
            sound(r@),
    {
        CompactRun {
            journal,
            phase: Phase::WriteStart,
            replayed: false,
            journaled: false,
            attempt: 0,
        }
    }

    /// A run of an operation that is taken up from its start.
    pub fn restart(journal: DatabaseCompactJournal, now: u64) -> (r: Self)
        ensures
            r.journal == (DatabaseCompactJournal {
                state: OperationState::Running,
                failure: None,
                updated_at_unix_seconds: now,
                ..journal
            }),
            r@.phase == PhaseView::WriteStart,
            r.replayed,
            !r.journaled,
            r.attempt == 0,
            sound(r@),
    {
        let mut journal = journal;
        journal.state = OperationState::Running;
        journal.failure = None;
        journal.updated_at_unix_seconds = now;
        CompactRun {
            journal,
            phase: Phase::WriteStart,
            replayed: true,
            journaled: false,
            attempt: 0,
        }
    }

    /// A run of an operation whose copy has taken the place of the database
    /// already.
    pub fn finish(journal: DatabaseCompactJournal) -> (r: Self)
        ensures
            r.journal == (DatabaseCompactJournal { state: OperationState::Swapped, ..journal }),
            r@.phase == PhaseView::InspectResult,
            r.replayed,
            !r.journaled,
            r.attempt == 0,
            sound(r@),
    {
        let mut journal = journal;
        journal.state = OperationState::Swapped;
        CompactRun {
            journal,
            phase: Phase::InspectResult,
            replayed: true,
            journaled: false,
            attempt: 0,
        }
    }

    /// A run of an operation that cannot be taken up, for a reason.
    pub fn give_up(journal: DatabaseCompactJournal, error: AppError, now: u64) -> (r: Self)
        ensures
            r@.phase == PhaseView::WriteFailure(error@),
            r@.state == failed_state(error@),
            r@.failure == Some(error@.message()),
            r@.updated == now,
            r.journal.head == journal.head,
            r.journal.result == journal.result,
            sound(r@),
    {
        let run = CompactRun {
            journal,
            phase: Phase::WriteStart,
            replayed: true,
            journaled: true,
            attempt: 0,
        };
        run.fail(error, now)
    }

    fn fail(self, error: AppError, now: u64) -> (r: Self)
        ensures
            r@ == failing(self@, error@, now),
            r.journal.result == self.journal.result,
    {
        let mut run = self;
        if !run.journaled {
            run.phase = Phase::Failed(error);
            return run;
        }
        run.journal.state = match &error {
            AppError::DatabaseSwapBusy(_) => OperationState::Verified,
            _ => OperationState::Failed,
        };
        run.journal.failure = Some(error.message());
        run.journal.updated_at_unix_seconds = now;
        run.phase = Phase::WriteFailure(error);
        run
    }

    /// What came of a run that is over: its report, or why it failed.
    pub fn outcome(self) -> (r: Option<Result<DatabaseCompactReport, AppError>>)
        ensures
            match self.phase {
                Phase::Done => match self.journal.result {
                    Some(report) => r == Some(Ok::<DatabaseCompactReport, AppError>(report)),
                    None => r is None,
                },
                Phase::Failed(e) => r == Some(Err::<DatabaseCompactReport, AppError>(e)),
                _ => r is None,
            },
    {
        match self.phase {
            Phase::Done => match self.journal.result {
                Some(report) => Some(Ok(report)),
                None => None,
            },
            Phase::Failed(e) => Some(Err(e)),
            _ => None,
        }
    }

    fn after_failure(self, reply: Reply) -> (r: Self)
        requires
            self@.phase is WriteFailure,
        ensures
            forall|now: u64| r@ == #[trigger] next(self@, reply, now),
            r.journal.result == self.journal.result,
    {
        let mut run = self;
        let failed = match reply {
            Reply::Written => match run.phase {
                Phase::WriteFailure(e) => e,
                _ => AppError::UnexpectedReply,
            },
            Reply::Failed(other) => other,
            _ => AppError::UnexpectedReply,
        };
        run.phase = Phase::Failed(failed);
        run
    }

    fn after_start(self, reply: Reply, now: u64) -> (r: Self)
        requires
            self@.phase is WriteStart,
        ensures
            r@ == next(self@, reply, now),
            reported(self, reply, r.journal.result),
    {
        let mut run = self;
        match reply {
            Reply::Written => {
                run.phase = Phase::LookForCandidate;
                run.journaled = true;
                run
            },
            Reply::Failed(e) => run.fail(e, now),
            _ => run.fail(AppError::UnexpectedReply, now),
        }
    }

    fn after_look(self, reply: Reply, now: u64) -> (r: Self)
        requires
            self@.phase is LookForCandidate,
        ensures
            r@ == next(self@, reply, now),
            reported(self, reply, r.journal.result),
    {
        let mut run = self;
        match reply {
            Reply::Candidate(found) => {
                if model::opt_is(
                    &found,
                    run.journal.head.source_verification.logical_manifest_sha256.as_str(),
                ) {
                    run.phase = Phase::Compare;
                } else {
                    run.phase = Phase::MakeCandidate;
                }
                run
            },
            Reply::Failed(e) => run.fail(e, now),
            _ => run.fail(AppError::UnexpectedReply, now),
        }
    }

    fn after_make(self, reply: Reply, now: u64) -> (r: Self)
        requires
            self@.phase is MakeCandidate,
        ensures
            r@ == next(self@, reply, now),
            reported(self, reply, r.journal.result),
    {
        let mut run = self;
        match reply {
            Reply::Made(checkpoint) => {
                run.journal.wal_checkpoint = checkpoint;
                run.phase = Phase::Compare;
                run
            },
            Reply::Failed(e) => run.fail(e, now),
            _ => run.fail(AppError::UnexpectedReply, now),
        }
    }

    fn after_comparison(self, reply: Reply, now: u64) -> (r: Self)
        requires
            self@.phase is Compare,
        ensures
            r@ == next(self@, reply, now),
            reported(self, reply, r.journal.result),
    {
        let mut run = self;
        match reply {
            Reply::Compared(c) => match compare(&run, &c) {
                Err(e) => run.fail(e, now),
                Ok(()) => {
                    run.journal.target = Some(c.target);
                    run.journal.target_verification = Some(c.target_verification);
                    run.journal.target_file_sha256 = Some(c.target_hash);
                    run.journal.atomic_temporary_baseline = c.temporaries;
                    run.journal.state = OperationState::Verified;
                    run.journal.updated_at_unix_seconds = now;
                    run.phase = Phase::WriteVerified;
                    run
                },
            },
            Reply::Failed(e) => run.fail(e, now),
            _ => run.fail(AppError::UnexpectedReply, now),
        }
    }

    fn after_verification(self, reply: Reply, now: u64) -> (r: Self)
        requires
            self@.phase is WriteVerified,
        ensures
            r@ == next(self@, reply, now),
            reported(self, reply, r.journal.result),
    {
        let mut run = self;
        match reply {
            Reply::Written => {
                if run.journal.head.backup_file_name.is_some() {
                    run.phase = Phase::KeepBackup;
                } else {
                    run.phase = Phase::Swap;
                }
                run.attempt = 0;
                run
            },
            Reply::Failed(e) => run.fail(e, now),
            _ => run.fail(AppError::UnexpectedReply, now),
        }
    }

    fn after_backup(self, reply: Reply, now: u64) -> (r: Self)
        requires
            self@.phase is KeepBackup,
        ensures
            r@ == next(self@, reply, now),
            reported(self, reply, r.journal.result),
    {
        let mut run = self;
        match reply {
            Reply::Copied => {
                run.phase = Phase::Swap;
                run
            },
            Reply::Failed(e) => run.fail(e, now),
            _ => run.fail(AppError::UnexpectedReply, now),
        }
    }

    fn after_swap(self, reply: Reply, now: u64) -> (r: Self)
        requires
            self@.phase is Swap,
        ensures
            r@ == next(self@, reply, now),
            reported(self, reply, r.journal.result),
    {
        let mut run = self;
        match reply {
            Reply::Swapped(checkpoint) => {
                run.journal.wal_checkpoint = checkpoint;
                run.journal.state = OperationState::Swapped;
                run.journal.updated_at_unix_seconds = now;
                run.phase = Phase::WriteSwapped;
                run
            },
            Reply::Busy { checkpoint, error } => {
                run.journal.wal_checkpoint = checkpoint;
                if run.attempt < SWAP_RETRIES {
                    run.attempt = run.attempt + 1;
                    return run;
                }
                run.fail(AppError::DatabaseSwapBusy(error), now)
            },
            Reply::NotSwapped { checkpoint, error } => {
                run.journal.wal_checkpoint = checkpoint;
                run.fail(error, now)
            },
            Reply::Failed(e) => run.fail(e, now),
            _ => run.fail(AppError::UnexpectedReply, now),
        }
    }

    fn after_swapped(self, reply: Reply, now: u64) -> (r: Self)
        requires
            self@.phase is WriteSwapped,
        ensures
            r@ == next(self@, reply, now),
            reported(self, reply, r.journal.result),
    {
        let mut run = self;
        match reply {
            Reply::Written => {
                run.phase = Phase::InspectResult;
                run
            },
            Reply::Failed(e) => run.fail(e, now),
            _ => run.fail(AppError::UnexpectedReply, now),
        }
    }

    fn after_inspection(self, reply: Reply, now: u64) -> (r: Self)
        requires
            self@.phase is InspectResult,
        ensures
            r@ == next(self@, reply, now),
            reported(self, reply, r.journal.result),
    {
        let mut run = self;
        match reply {
            Reply::Inspected(i) => match inspect(&run, &i) {
                Err(e) => run.fail(e, now),
                Ok(()) => {
                    let report = finished_report(&run, &i);
                    run.journal.target_verification = Some(i.verification);
                    run.journal.result = Some(report);
                    run.journal.state = OperationState::Completed;
                    run.journal.failure = None;
                    run.journal.updated_at_unix_seconds = now;
                    run.phase = Phase::WriteCompleted;
                    run
                },
            },
            Reply::Failed(e) => run.fail(e, now),
            _ => run.fail(AppError::UnexpectedReply, now),
        }
    }

    fn after_completion(self, reply: Reply, now: u64) -> (r: Self)
        requires
            self@.phase is WriteCompleted,
        ensures
            r@ == next(self@, reply, now),
            reported(self, reply, r.journal.result),
    {
        let mut run = self;
        match reply {
            Reply::Written => {
                run.phase = Phase::Done;
                run
            },
            Reply::Failed(e) => run.fail(e, now),
            _ => run.fail(AppError::UnexpectedReply, now),
        }
    }

    /// Goes on, by what came of what was asked for.
    pub fn step(self, reply: Reply, now: u64) -> (r: Self)
        ensures
            r@ == next(self@, reply, now),
            reported(self, reply, r.journal.result),
    {
        match self.phase {
            Phase::Done => self,
            Phase::Failed(_) => self,
            Phase::WriteFailure(_) => self.after_failure(reply),
            Phase::WriteStart => self.after_start(reply, now),
            Phase::LookForCandidate => self.after_look(reply, now),
            Phase::MakeCandidate => self.after_make(reply, now),
            Phase::Compare => self.after_comparison(reply, now),
            Phase::WriteVerified => self.after_verification(reply, now),
            Phase::KeepBackup => self.after_backup(reply, now),
            Phase::Swap => self.after_swap(reply, now),
            Phase::WriteSwapped => self.after_swapped(reply, now),
            Phase::InspectResult => self.after_inspection(reply, now),
            Phase::WriteCompleted => self.after_completion(reply, now),
        }
    }
}

// ---------------------------------------------------------------------------
// What holds of every run
// ---------------------------------------------------------------------------

/// The copy holds what the database held, and is known by its hash.
pub open spec fn lossless(run: RunView) -> bool {
    &&& run.target_verification is Some
    &&& run.target_verification->0.logical_manifest_sha256@ == source_logical(run)
    &&& run.target_hash is Some
}

/// A run whose copy is verified.
pub open spec fn past_verification(phase: PhaseView) -> bool {
    phase is WriteVerified || phase is KeepBackup || phase is Swap || phase is WriteSwapped
}

/// What holds of a run at every step.
pub open spec fn sound(run: RunView) -> bool {
    &&& past_verification(run.phase) ==> lossless(run)
    &&& run.phase is InspectResult && run.journaled ==> lossless(run)
    &&& run.phase is WriteCompleted || run.phase is Done ==> run.state == OperationState::Completed
        && run.failure is None && run.target_verification is Some
    &&& run.phase is WriteFailure ==> run.state.pending() && run.failure == Some(
        run.phase->WriteFailure_0.message(),
    )
    &&& run.attempt <= SWAP_RETRIES
}

/// Runs are sound from their start to their end.
pub proof fn runs_stay_sound(run: RunView, reply: Reply, now: u64)
    requires
        sound(run),
    ensures
        sound(next(run, reply, now)),
        next(run, reply, now).head == run.head,
{
}

/// A copy only ever takes the place of the database where it holds the same:
/// whenever a swap is asked for, what the copy holds is what the database held
/// at the start.
pub proof fn only_lossless_copies_are_swapped(run: RunView, reply: Reply, now: u64)
    requires
        sound(run),
        next(run, reply, now).phase is Swap,
    ensures
        lossless(next(run, reply, now)),
{
    runs_stay_sound(run, reply, now);
}

/// A backup that is to be kept is kept before the database is touched: no step
/// leads past it to the swap.
pub proof fn backups_come_first(run: RunView, reply: Reply, now: u64)
    requires
        run.head.backup_file_name is Some,
        next(run, reply, now).phase is Swap,
    ensures
        run.phase is Swap || (run.phase is KeepBackup && reply is Copied),
{
}

/// A failure leaves the operation pending, so that it is taken up again under
/// the same request; a database that was only in use keeps its verified copy.
pub proof fn failures_can_be_taken_up(run: RunView, e: ErrorView, now: u64)
    requires
        run.journaled,
    ensures
        failing(run, e, now).state.pending(),
        e is DatabaseSwapBusy ==> failing(run, e, now).state == OperationState::Verified,
        failing(run, e, now).target_hash == run.target_hash,
        failing(run, e, now).baseline == run.baseline,
{
}

/// A swap that fails leaves in the journal how the write-ahead log was worked
/// in for it, whether it is tried again or not.
pub proof fn failed_swaps_keep_their_checkpoint(run: RunView, reply: Reply, now: u64)
    requires
        run.phase is Swap,
        reply is Busy || reply is NotSwapped,
    ensures
        reply matches Reply::Busy { checkpoint, .. } ==> next(run, reply, now).checkpoint
            == checkpoint@,
        reply matches Reply::NotSwapped { checkpoint, .. } ==> next(run, reply, now).checkpoint
            == checkpoint@,
        next(run, reply, now).target_hash == run.target_hash,
{
}

/// How far a run is from its end.
pub open spec fn distance(run: RunView) -> nat {
    match run.phase {
        PhaseView::WriteStart => 30,
        PhaseView::LookForCandidate => 29,
        PhaseView::MakeCandidate => 28,
        PhaseView::Compare => 27,
        PhaseView::WriteVerified => 26,
        PhaseView::KeepBackup => 25,
        PhaseView::Swap => (15 - run.attempt) as nat,
        PhaseView::WriteSwapped => 8,
        PhaseView::InspectResult => 7,
        PhaseView::WriteCompleted => 6,
        PhaseView::WriteFailure(_) => 1,
        PhaseView::Done => 0,
        PhaseView::Failed(_) => 0,
    }
}

/// Every run ends: whatever comes of what is asked for, it is nearer to its end
/// than before.
pub proof fn runs_end(run: RunView, reply: Reply, now: u64)
    requires
        sound(run),
        !(run.phase is Done),
        !(run.phase is Failed),
    ensures
        distance(next(run, reply, now)) < distance(run),
{
}

/// A run is only done with the journal completed and the database known, by
/// what it holds and by its hash, to be the verified copy.
pub proof fn done_means_swapped(run: RunView, i: Inspection, now: u64)
    requires
        run.phase is InspectResult,
        next(run, Reply::Inspected(i), now).phase is WriteCompleted,
    ensures
        run.target_verification is Some,
        i.verification.logical_manifest_sha256@
            == run.target_verification->0.logical_manifest_sha256@,
        run.target_hash == Some(i.file_hash@),
        run.journaled && sound(run) ==> i.verification.logical_manifest_sha256@ == source_logical(
            run,
        ),
{
}

/// A copy is taken for the database exactly where the source did not change
/// meanwhile and the copy holds the same rows; and a swap stands exactly where
/// what is there now is the verified copy, row for row and byte for byte.
pub proof fn copies_hold_what_the_source_held(run: RunView, c: Comparison, i: Inspection)
    ensures
        comparison_refusal(run, c) is None <==> {
            &&& c.source_hash@ == run.head.source_file_sha256@
            &&& c.source_logical@ == run.head.source_verification.logical_manifest_sha256@
            &&& c.target_verification.logical_manifest_sha256@
                == run.head.source_verification.logical_manifest_sha256@
        },
        inspection_refusal(run, i) is None <==> {
            &&& run.target_verification is Some
            &&& i.verification.logical_manifest_sha256@
                == run.target_verification->0.logical_manifest_sha256@
            &&& run.target_hash == Some(i.file_hash@)
        },
{
}

} // verus!
