//! The compaction of the database: a copy without slack takes the place of the
//! database once it is known to hold the same, step by step, with a journal
//! from which every step can be taken up again.
use crate::database::{self, CompactRequest, OPERATION_PROTOCOL_VERSION};
use crate::error::{self, AppError, ErrorView};
use crate::model;
use crate::text;
use vstd::prelude::*;

verus! {

broadcast use {vstd::string::group_string_axioms, vstd::seq::group_seq_axioms};

// ---------------------------------------------------------------------------
// The journal and the report
// ---------------------------------------------------------------------------

/// What a database takes up; `document` is all that is known of it, as JSON.
#[derive(Debug, Clone, PartialEq, Eq)]
pub struct StorageStats {
    pub database_bytes: u64,
    pub document: String,
}

/// What a database holds, told by a fingerprint of its contents; `document` is
/// all that is known of it, as JSON.
#[derive(Debug, Clone, PartialEq, Eq)]
pub struct LogicalVerification {
    pub logical_manifest_sha256: String,
    pub document: String,
}

#[derive(Debug, Clone, Copy, PartialEq, Eq, Structural)]
pub enum OperationState {
    Running,
    Verified,
    Swapped,
    Completed,
    Failed,
}

impl OperationState {
    /// The operation is not over.
    pub open spec fn pending(self) -> bool {
        self != OperationState::Completed
    }

    /// Whether the operation is not over.
    pub fn requires_recovery(self) -> (r: bool)
        ensures
            r == self.pending(),
    {
        match self {
            OperationState::Completed => false,
            _ => true,
        }
    }

    /// The name of a state.
    pub open spec fn name(self) -> Seq<char> {
        match self {
            OperationState::Running => "Running"@,
            OperationState::Verified => "Verified"@,
            OperationState::Swapped => "Swapped"@,
            OperationState::Completed => "Completed"@,
            OperationState::Failed => "Failed"@,
        }
    }

    pub fn as_str(self) -> (r: &'static str)
        ensures
            r@ == self.name(),
    {
        match self {
            OperationState::Running => "Running",
            OperationState::Verified => "Verified",
            OperationState::Swapped => "Swapped",
            OperationState::Completed => "Completed",
            OperationState::Failed => "Failed",
        }
    }
}

/// What holds of a compaction from its start to its end.
#[derive(Debug, Clone, PartialEq, Eq)]
pub struct JournalHead {
    pub operation_protocol_version: u32,
    pub project_key: String,
    pub request_id: String,
    pub request_sha256: String,
    pub parameters_sha256: String,
    pub external_writer_protection: String,
    pub replacement_durability: String,
    pub database_file_name: String,
    pub vacuum_file_name: String,
    pub backup_file_name: Option<String>,
    pub source: StorageStats,
    pub source_file_bytes: u64,
    pub source_verification: LogicalVerification,
    pub source_file_sha256: String,
    pub estimated_required_free_space_bytes: u64,
    pub available_space_bytes: u64,
    pub wal_bytes_at_preflight: u64,
    pub keep_backup: bool,
    pub full_check: bool,
}

#[derive(Debug, Clone, PartialEq, Eq)]
pub struct DatabaseCompactJournal {
    pub head: JournalHead,
    pub state: OperationState,
    pub target: Option<StorageStats>,
    pub target_verification: Option<LogicalVerification>,
    pub target_file_sha256: Option<String>,
    pub wal_checkpoint: String,
    pub atomic_temporary_baseline: Vec<String>,
    pub result: Option<DatabaseCompactReport>,
    pub failure: Option<String>,
    pub updated_at_unix_seconds: u64,
}

#[derive(Debug, Clone, PartialEq, Eq)]
pub struct DatabaseCompactReport {
    pub operation_protocol_version: u32,
    pub project_key: String,
    pub mode: String,
    pub applied: bool,
    pub replayed: bool,
    pub external_writer_protection: String,
    pub replacement_durability: String,
    pub request_id: Option<String>,
    pub parameters_sha256: Option<String>,
    pub source: StorageStats,
    pub target: Option<StorageStats>,
    pub source_logical_manifest_sha256: Option<String>,
    pub target_logical_manifest_sha256: Option<String>,
    pub current_logical_manifest_sha256: Option<String>,
    pub source_file_sha256: Option<String>,
    pub target_file_sha256: Option<String>,
    pub current_file_sha256: Option<String>,
    pub completed_logical_target_still_current: Option<bool>,
    pub completed_file_target_still_current: Option<bool>,
    pub source_bytes: u64,
    pub target_bytes: Option<u64>,
    pub bytes_reclaimed: Option<u64>,
    pub estimated_required_free_space_bytes: u64,
    pub available_space_bytes: u64,
    pub wal_bytes_at_preflight: u64,
    pub keep_backup: bool,
    pub backup_path: Option<String>,
    pub wal_checkpoint: Option<String>,
}

fn copy_stats(s: &StorageStats) -> (r: StorageStats)
    ensures
        r == *s,
{
    StorageStats { database_bytes: s.database_bytes, document: s.document.clone() }
}

/// Against whom the database is protected: programs that keep to its locks.
pub open spec fn protection() -> Seq<char> {
    "cooperative_only"@
}

/// What a replacement outlives.
pub open spec fn durability() -> Seq<char> {
    "temp_file_synced_atomic_replace;power_loss_directory_durability_platform_dependent"@
}

fn protection_text() -> (r: &'static str)
    ensures
        r@ == protection(),
{
    "cooperative_only"
}

fn durability_text() -> (r: &'static str)
    ensures
        r@ == durability(),
{
    "temp_file_synced_atomic_replace;power_loss_directory_durability_platform_dependent"
}

// ---------------------------------------------------------------------------
// Dry runs
// ---------------------------------------------------------------------------

/// What is found of a database before anything is done to it.
#[derive(Debug, Clone, PartialEq, Eq)]
pub struct DatabaseFacts {
    pub stats: StorageStats,
    pub verification: LogicalVerification,
    pub file_sha256: String,
    pub file_bytes: u64,
    pub wal_bytes: u64,
    pub available_space_bytes: u64,
}

/// Why a dry run tells nothing.
pub open spec fn preview_refusal(
    options: database::DatabaseCompactOptions,
    facts: DatabaseFacts,
) -> Option<ErrorView> {
    match database::options_refusal(options) {
        Some(e) => Some(e),
        None => if database::filled(
            facts.stats.database_bytes,
            facts.wal_bytes,
            options.keep_backup,
        ) * 6 > u64::MAX {
            Some(ErrorView::DatabaseMaintenance("磁盘空间预估溢出"@))
        } else {
            None
        },
    }
}

/// What a compaction would start from.
pub fn preview_compaction(
    project_key: &str,
    options: &database::DatabaseCompactOptions,
    facts: &DatabaseFacts,
) -> (r: Result<DatabaseCompactReport, AppError>)
    ensures
        error::follows(r, preview_refusal(*options, *facts)),
        r matches Ok(p) ==> {
            &&& p.operation_protocol_version == OPERATION_PROTOCOL_VERSION
            &&& p.project_key@ == project_key@
            &&& p.mode@ == "dry_run"@
            &&& !p.applied
            &&& !p.replayed
            &&& p.external_writer_protection@ == protection()
            &&& p.replacement_durability@ == durability()
            &&& p.request_id is None
            &&& p.parameters_sha256 is None
            &&& p.source == facts.stats
            &&& p.target is None
            &&& p.source_logical_manifest_sha256 == Some(
                facts.verification.logical_manifest_sha256,
            )
            &&& p.target_logical_manifest_sha256 is None
            &&& p.current_logical_manifest_sha256 == Some(
                facts.verification.logical_manifest_sha256,
            )
            &&& p.source_file_sha256 == Some(facts.file_sha256)
            &&& p.target_file_sha256 is None
            &&& p.current_file_sha256 == Some(facts.file_sha256)
            &&& p.completed_logical_target_still_current is None
            &&& p.completed_file_target_still_current is None
            &&& p.source_bytes == facts.file_bytes
            &&& p.target_bytes is None
            &&& p.bytes_reclaimed is None
            &&& p.estimated_required_free_space_bytes == database::filled(
                facts.stats.database_bytes,
                facts.wal_bytes,
                options.keep_backup,
            ) * 6 / 5
            &&& p.available_space_bytes == facts.available_space_bytes
            &&& p.wal_bytes_at_preflight == facts.wal_bytes
            &&& p.keep_backup == options.keep_backup
            &&& p.backup_path is None
            &&& p.wal_checkpoint is None
        },
{
    match database::validate_options(options) {
        Err(e) => {
            return Err(e);
        },
        Ok(()) => {},
    }
    let required = match database::estimated_required_space(
        facts.stats.database_bytes,
        facts.wal_bytes,
        options.keep_backup,
    ) {
        Err(e) => {
            return Err(e);
        },
        Ok(n) => n,
    };
    Ok(
        DatabaseCompactReport {
            operation_protocol_version: OPERATION_PROTOCOL_VERSION,
            project_key: project_key.to_owned(),
            mode: "dry_run".to_owned(),
            applied: false,
            replayed: false,
            external_writer_protection: protection_text().to_owned(),
            replacement_durability: durability_text().to_owned(),
            request_id: None,
            parameters_sha256: None,
            source: copy_stats(&facts.stats),
            target: None,
            source_logical_manifest_sha256: Some(
                facts.verification.logical_manifest_sha256.clone(),
            ),
            target_logical_manifest_sha256: None,
            current_logical_manifest_sha256: Some(
                facts.verification.logical_manifest_sha256.clone(),
            ),
            source_file_sha256: Some(facts.file_sha256.clone()),
            target_file_sha256: None,
            current_file_sha256: Some(facts.file_sha256.clone()),
            completed_logical_target_still_current: None,
            completed_file_target_still_current: None,
            source_bytes: facts.file_bytes,
            target_bytes: None,
            bytes_reclaimed: None,
            estimated_required_free_space_bytes: required,
            available_space_bytes: facts.available_space_bytes,
            wal_bytes_at_preflight: facts.wal_bytes,
            keep_backup: options.keep_backup,
            backup_path: None,
            wal_checkpoint: None,
        },
    )
}

// ---------------------------------------------------------------------------
// Operations that are not over
// ---------------------------------------------------------------------------

/// A journal next to the database, as far as it matters to others.
#[derive(Debug, Clone, PartialEq, Eq)]
pub struct JournalNotice {
    pub file_name: String,
    pub request_id: String,
    pub state: OperationState,
}

/// The first journal of an operation that is not over, but for one.
pub open spec fn first_pending(notices: Seq<JournalNotice>, but: Option<Seq<char>>) -> Option<
    JournalNotice,
>
    decreases notices.len(),
{
    if notices.len() == 0 {
        None
    } else if notices[0].state.pending() && Some(notices[0].file_name@) != but {
        Some(notices[0])
    } else {
        first_pending(notices.skip(1), but)
    }
}

fn find_pending(notices: &Vec<JournalNotice>, but: Option<&str>) -> (r: Option<usize>)
    ensures
        ({
            let name = match but {
                Some(name) => Some(name@),
                None => None,
            };
            match r {
                Some(i) => i < notices@.len() && first_pending(notices@, name) == Some(
                    notices@[i as int],
                ),
                None => first_pending(notices@, name) is None,
            }
        }),
{
    let ghost name = match but {
        Some(name) => Some(name@),
        None => None,
    };
    let mut i: usize = 0;
    assert(notices@.skip(0) =~= notices@);
    while i < notices.len()
        invariant
            i <= notices@.len(),
            name == (match but {
                Some(name) => Some(name@),
                None => None,
            }),
            first_pending(notices@, name) == first_pending(notices@.skip(i as int), name),
        decreases notices@.len() - i,
    {
        assert(notices@.skip(i as int)[0] == notices@[i as int]);
        assert(notices@.skip(i as int).skip(1) =~= notices@.skip(i + 1));
        let excepted = match but {
            Some(name) => text::same(notices[i].file_name.as_str(), name),
            None => false,
        };
        if notices[i].state.requires_recovery() && !excepted {
            return Some(i);
        }
        i = i + 1;
    }
    None
}

/// Why the database is not used.
pub open spec fn pending_refusal(notices: Seq<JournalNotice>) -> Option<ErrorView> {
    match first_pending(notices, None) {
        None => None,
        Some(n) => Some(
            ErrorView::DatabaseMaintenance(
                "检测到未完成的数据库压缩 request_id="@ + n.request_id@ + " state="@
                    + n.state.name()
                    + "；请使用相同 request_id 重新执行 database compact --apply 恢复"@,
            ),
        ),
    }
}

/// Whether the database may be used: no operation on it is left unfinished.
pub fn ensure_no_pending_operation(notices: &Vec<JournalNotice>) -> (r: Result<(), AppError>)
    ensures
        error::follows(r, pending_refusal(notices@)),
{
    match find_pending(notices, None) {
        None => Ok(()),
        Some(i) => Err(
            AppError::DatabaseMaintenance(
                text::cat5(
                    "检测到未完成的数据库压缩 request_id=",
                    notices[i].request_id.as_str(),
                    " state=",
                    notices[i].state.as_str(),
                    "；请使用相同 request_id 重新执行 database compact --apply 恢复",
                ),
            ),
        ),
    }
}

/// Why another operation comes first.
pub open spec fn other_refusal(notices: Seq<JournalNotice>, own: Seq<char>) -> Option<ErrorView> {
    match first_pending(notices, Some(own)) {
        None => None,
        Some(n) => Some(
            ErrorView::DatabaseMaintenance(
                "另一个压缩 request_id="@ + n.request_id@
                    + " 尚未完成，必须先恢复该操作"@,
            ),
        ),
    }
}

/// Whether no other operation comes first.
pub fn reject_other_pending_operations(notices: &Vec<JournalNotice>, own: &str) -> (r: Result<
    (),
    AppError,
>)
    ensures
        error::follows(r, other_refusal(notices@, own@)),
{
    match find_pending(notices, Some(own)) {
        None => Ok(()),
        Some(i) => Err(
            AppError::DatabaseMaintenance(
                text::cat3(
                    "另一个压缩 request_id=",
                    notices[i].request_id.as_str(),
                    " 尚未完成，必须先恢复该操作",
                ),
            ),
        ),
    }
}

/// Why a journal that is there already is not taken up.
pub open spec fn journal_refusal(
    j: DatabaseCompactJournal,
    database: Seq<char>,
    request: CompactRequest,
) -> Option<ErrorView> {
    let h = j.head;
    if h.operation_protocol_version != OPERATION_PROTOCOL_VERSION {
        Some(
            ErrorView::DatabaseMaintenance(
                "不支持压缩日志协议版本 "@ + text::decimal(h.operation_protocol_version as nat),
            ),
        )
    } else if h.external_writer_protection@ != protection() {
        Some(
            ErrorView::DatabaseMaintenance(
                "不支持压缩日志 external_writer_protection="@ + h.external_writer_protection@,
            ),
        )
    } else if h.replacement_durability@ != durability() {
        Some(
            ErrorView::DatabaseMaintenance(
                "不支持压缩日志 replacement_durability="@ + h.replacement_durability@,
            ),
        )
    } else {
        match database::baseline_refusal(database, text::views(j.atomic_temporary_baseline@)) {
            Some(e) => Some(e),
            None => if h.project_key@ != request.project_key@ || h.request_id@
                != request.request_id@ {
                Some(
                    ErrorView::DatabaseMaintenance(
                        "压缩日志的 project_key 或 request_id 不匹配"@,
                    ),
                )
            } else if h.request_sha256@ != request.request_sha256@ {
                Some(
                    ErrorView::DatabaseMaintenance(
                        "压缩日志 request_sha256 与 request_id 不一致"@,
                    ),
                )
            } else if h.parameters_sha256@ != request.parameters_sha256@ {
                Some(
                    ErrorView::DatabaseMaintenance(
                        "request_id="@ + request.request_id@ + " 已用于不同压缩参数"@,
                    ),
                )
            } else if h.database_file_name@ != database || h.vacuum_file_name@
                != database::vacuum_of(database, request.request_sha256@) || model::opt_view(
                h.backup_file_name,
            ) != (if h.keep_backup {
                Some(database::backup_of(database, request.request_sha256@))
            } else {
                None
            }) {
                Some(
                    ErrorView::DatabaseMaintenance(
                        "压缩日志中的数据库、候选或备份文件名不符合确定性派生规则"@,
                    ),
                )
            } else {
                None
            },
        }
    }
}

/// Whether a journal that is there already may be taken up: it is of this
/// version, of this request, and names what this request would name.
pub fn validate_existing_journal(
    journal: &DatabaseCompactJournal,
    database: &str,
    request: &CompactRequest,
) -> (r: Result<(), AppError>)
    ensures
        error::follows(r, journal_refusal(*journal, database@, *request)),
{
    let h = &journal.head;
    if h.operation_protocol_version != OPERATION_PROTOCOL_VERSION {
        let version = text::decimal_text(h.operation_protocol_version as u64);
        return Err(
            AppError::DatabaseMaintenance(
                text::cat2("不支持压缩日志协议版本 ", version.as_str()),
            ),
        );
    }
    if !text::same(h.external_writer_protection.as_str(), protection_text()) {
        return Err(
            AppError::DatabaseMaintenance(
                text::cat2(
                    "不支持压缩日志 external_writer_protection=",
                    h.external_writer_protection.as_str(),
                ),
            ),
        );
    }
    if !text::same(h.replacement_durability.as_str(), durability_text()) {
        return Err(
            AppError::DatabaseMaintenance(
                text::cat2(
                    "不支持压缩日志 replacement_durability=",
                    h.replacement_durability.as_str(),
                ),
            ),
        );
    }
    match database::validate_atomic_temporary_baseline(
        database,
        &journal.atomic_temporary_baseline,
    ) {
        Err(e) => {
            return Err(e);
        },
        Ok(()) => {},
    }
    if !text::same(h.project_key.as_str(), request.project_key.as_str()) || !text::same(
        h.request_id.as_str(),
        request.request_id.as_str(),
    ) {
        return Err(
            AppError::DatabaseMaintenance(
                "压缩日志的 project_key 或 request_id 不匹配".to_owned(),
            ),
        );
    }
    if !text::same(h.request_sha256.as_str(), request.request_sha256.as_str()) {
        return Err(
            AppError::DatabaseMaintenance(
                "压缩日志 request_sha256 与 request_id 不一致".to_owned(),
            ),
        );
    }
    if !text::same(h.parameters_sha256.as_str(), request.parameters_sha256.as_str()) {
        return Err(
            AppError::DatabaseMaintenance(
                text::cat3(
                    "request_id=",
                    request.request_id.as_str(),
                    " 已用于不同压缩参数",
                ),
            ),
        );
    }
    let vacuum = database::vacuum_name(database, request.request_sha256.as_str());
    let backup = if h.keep_backup {
        Some(database::backup_name(database, request.request_sha256.as_str()))
    } else {
        None
    };
    if !text::same(h.database_file_name.as_str(), database) || !text::same(
        h.vacuum_file_name.as_str(),
        vacuum.as_str(),
    ) || !model::same_opt(&h.backup_file_name, &backup) {
        return Err(
            AppError::DatabaseMaintenance(
                "压缩日志中的数据库、候选或备份文件名不符合确定性派生规则".to_owned(),
            ),
        );
    }
    Ok(())
}

/// How an operation goes on.
#[derive(Debug, PartialEq, Eq)]
pub enum Opened {
    /// Nothing is known of the request yet.
    Fresh,
    /// The request was carried out; this is what came of it.
    Replay(DatabaseCompactReport),
    /// The request was begun.
    Resume(DatabaseCompactJournal),
}

/// Why an operation does not go on.
pub open spec fn open_refusal(
    request: CompactRequest,
    database: Seq<char>,
    notices: Seq<JournalNotice>,
    own: Option<DatabaseCompactJournal>,
    shown: Seq<char>,
) -> Option<ErrorView> {
    match other_refusal(notices, database::journal_of(database, request.request_sha256@)) {
        Some(e) => Some(e),
        None => match own {
            None => None,
            Some(j) => match journal_refusal(j, database, request) {
                Some(e) => Some(e),
                None => if j.state == OperationState::Completed && j.result is None {
                    Some(
                        ErrorView::DatabaseMaintenance(
                            "已完成的压缩日志缺少 result："@ + shown,
                        ),
                    )
                } else {
                    None
                },
            },
        },
    }
}

/// How an operation goes on, by the journals next to the database and by its
/// own.
pub fn open_operation(
    request: &CompactRequest,
    database: &str,
    notices: &Vec<JournalNotice>,
    own: Option<DatabaseCompactJournal>,
    shown: &str,
) -> (r: Result<Opened, AppError>)
    ensures
        error::follows(r, open_refusal(*request, database@, notices@, own, shown@)),
        r matches Ok(opened) ==> opened == match own {
            None => Opened::Fresh,
            Some(j) => if j.state == OperationState::Completed {
                Opened::Replay(j.result->0)
            } else {
                Opened::Resume(j)
            },
        },
{
    let own_name = database::journal_name(database, request.request_sha256.as_str());
    match reject_other_pending_operations(notices, own_name.as_str()) {
        Err(e) => {
            return Err(e);
        },
        Ok(()) => {},
    }
    let journal = match own {
        None => {
            return Ok(Opened::Fresh);
        },
        Some(journal) => journal,
    };
    match validate_existing_journal(&journal, database, request) {
        Err(e) => {
            return Err(e);
        },
        Ok(()) => {},
    }
    if journal.state.requires_recovery() {
        return Ok(Opened::Resume(journal));
    }
    match journal.result {
        Some(result) => Ok(Opened::Replay(result)),
        None => Err(
            AppError::DatabaseMaintenance(
                text::cat2("已完成的压缩日志缺少 result：", shown),
            ),
        ),
    }
}

/// What is reported again of a request that was carried out: the same, with
/// whether the database is still what it was made into.
pub fn replay_report(
    result: DatabaseCompactReport,
    current_file_sha256: &str,
    current_logical_manifest_sha256: &str,
) -> (r: DatabaseCompactReport)
    ensures
        r.replayed,
        r.completed_file_target_still_current == Some(
            model::opt_view(result.target_file_sha256) == Some(current_file_sha256@),
        ),
        r.completed_logical_target_still_current == Some(
            model::opt_view(result.target_logical_manifest_sha256) == Some(
                current_logical_manifest_sha256@,
            ),
        ),
        model::opt_view(r.current_file_sha256) == Some(current_file_sha256@),
        model::opt_view(r.current_logical_manifest_sha256) == Some(
            current_logical_manifest_sha256@,
        ),
        r == (DatabaseCompactReport {
            replayed: r.replayed,
            completed_file_target_still_current: r.completed_file_target_still_current,
            completed_logical_target_still_current: r.completed_logical_target_still_current,
            current_file_sha256: r.current_file_sha256,
            current_logical_manifest_sha256: r.current_logical_manifest_sha256,
            ..result
        }),
{
    let mut result = result;
    let file_matches = model::opt_is(&result.target_file_sha256, current_file_sha256);
    let logical_matches = model::opt_is(
        &result.target_logical_manifest_sha256,
        current_logical_manifest_sha256,
    );
    result.completed_file_target_still_current = Some(file_matches);
    result.completed_logical_target_still_current = Some(logical_matches);
    result.current_file_sha256 = Some(current_file_sha256.to_owned());
    result.current_logical_manifest_sha256 = Some(current_logical_manifest_sha256.to_owned());
    result.replayed = true;
    result
}

// ---------------------------------------------------------------------------
// Starting
// ---------------------------------------------------------------------------

/// The room that is asked for before anything is written.
pub fn check_preflight(
    database_bytes: u64,
    wal_bytes: u64,
    keep_backup: bool,
    available: u64,
) -> (r: Result<u64, AppError>)
    ensures
        match r {
            Ok(required) => {
                &&& database::filled(database_bytes, wal_bytes, keep_backup) * 6 <= u64::MAX
                &&& required == database::filled(database_bytes, wal_bytes, keep_backup) * 6 / 5
                &&& required <= available
            },
            Err(e) => if database::filled(database_bytes, wal_bytes, keep_backup) * 6 > u64::MAX {
                e@ == ErrorView::DatabaseMaintenance("磁盘空间预估溢出"@)
            } else {
                database::space_refusal(
                    (database::filled(database_bytes, wal_bytes, keep_backup) * 6 / 5) as u64,
                    available,
                ) == Some(e@)
            },
        },
{
    match database::estimated_required_space(database_bytes, wal_bytes, keep_backup) {
        Err(e) => Err(e),
        Ok(required) => match database::ensure_space_available(required, available) {
            Err(e) => Err(e),
            Ok(()) => Ok(required),
        },
    }
}

/// The room that is asked for once the write-ahead log is worked in: no less
/// than before.
pub open spec fn room_of(preliminary: u64, facts: DatabaseFacts, keep_backup: bool) -> nat {
    let now = database::filled(facts.stats.database_bytes, 0, keep_backup) * 6 / 5;
    if now > preliminary {
        now
    } else {
        preliminary as nat
    }
}

/// Why a compaction is not begun.
pub open spec fn start_refusal(
    request: CompactRequest,
    preliminary: u64,
    facts: DatabaseFacts,
) -> Option<ErrorView> {
    if database::filled(facts.stats.database_bytes, 0, request.keep_backup) * 6 > u64::MAX {
        Some(ErrorView::DatabaseMaintenance("磁盘空间预估溢出"@))
    } else {
        database::space_refusal(
            room_of(preliminary, facts, request.keep_backup) as u64,
            facts.available_space_bytes,
        )
    }
}

/// The journal that a compaction begins with; the facts are those of the
/// database once its write-ahead log is worked in, but for the size that the
/// log had before.
pub fn start_journal(
    request: &CompactRequest,
    database: &str,
    preliminary: u64,
    facts: &DatabaseFacts,
    checkpoint: &str,
    now: u64,
) -> (r: Result<DatabaseCompactJournal, AppError>)
    ensures
        error::follows(r, start_refusal(*request, preliminary, *facts)),
        r matches Ok(j) ==> {
            let h = j.head;
            &&& journal_refusal(j, database@, *request) is None
            &&& h.project_key == request.project_key
            &&& h.request_id == request.request_id
            &&& h.source == facts.stats
            &&& h.source_file_bytes == facts.file_bytes
            &&& h.source_verification == facts.verification
            &&& h.source_file_sha256 == facts.file_sha256
            &&& h.estimated_required_free_space_bytes == room_of(
                preliminary,
                *facts,
                request.keep_backup,
            )
            &&& h.available_space_bytes == facts.available_space_bytes
            &&& h.wal_bytes_at_preflight == facts.wal_bytes
            &&& h.keep_backup == request.keep_backup
            &&& h.full_check == request.full_check
            &&& j.state == OperationState::Running
            &&& j.target is None
            &&& j.target_verification is None
            &&& j.target_file_sha256 is None
            &&& j.wal_checkpoint@ == checkpoint@
            &&& j.atomic_temporary_baseline@.len() == 0
            &&& j.result is None
            &&& j.failure is None
            &&& j.updated_at_unix_seconds == now
        },
{
    let estimate = match database::estimated_required_space(
        facts.stats.database_bytes,
        0,
        request.keep_backup,
    ) {
        Err(e) => {
            return Err(e);
        },
        Ok(n) => n,
    };
    let required: u64 = if estimate > preliminary {
        estimate
    } else {
        preliminary
    };
    match database::ensure_space_available(required, facts.available_space_bytes) {
        Err(e) => {
            return Err(e);
        },
        Ok(()) => {},
    }
    let baseline: Vec<String> = Vec::new();
    assert(text::views(baseline@) =~= Seq::<Seq<char>>::empty());
    Ok(
        DatabaseCompactJournal {
            head: JournalHead {
                operation_protocol_version: OPERATION_PROTOCOL_VERSION,
                project_key: request.project_key.clone(),
                request_id: request.request_id.clone(),
                request_sha256: request.request_sha256.clone(),
                parameters_sha256: request.parameters_sha256.clone(),
                external_writer_protection: protection_text().to_owned(),
                replacement_durability: durability_text().to_owned(),
                database_file_name: database.to_owned(),
                vacuum_file_name: database::vacuum_name(
                    database,
                    request.request_sha256.as_str(),
                ),
                backup_file_name: if request.keep_backup {
                    Some(database::backup_name(database, request.request_sha256.as_str()))
                } else {
                    None
                },
                source: copy_stats(&facts.stats),
                source_file_bytes: facts.file_bytes,
                source_verification: LogicalVerification {
                    logical_manifest_sha256: facts.verification.logical_manifest_sha256.clone(),
                    document: facts.verification.document.clone(),
                },
                source_file_sha256: facts.file_sha256.clone(),
                estimated_required_free_space_bytes: required,
                available_space_bytes: facts.available_space_bytes,
                wal_bytes_at_preflight: facts.wal_bytes,
                keep_backup: request.keep_backup,
                full_check: request.full_check,
            },
            state: OperationState::Running,
            target: None,
            target_verification: None,
            target_file_sha256: None,
            wal_checkpoint: checkpoint.to_owned(),
            atomic_temporary_baseline: baseline,
            result: None,
            failure: None,
            updated_at_unix_seconds: now,
        },
    )
}

// ---------------------------------------------------------------------------
// Taking up again
// ---------------------------------------------------------------------------

/// How a compaction that was begun is taken up.
#[derive(Debug, Clone, Copy, PartialEq, Eq, Structural)]
pub enum ResumeStep {
    /// The copy has taken the place of the database already.
    Finish,
    /// The database is what it was at the start.
    Restart,
    /// The database is neither: is there a backup?
    Restore,
}

/// How a compaction that was begun is taken up, given what the database hashes
/// to, and what it holds where that can be told.
pub open spec fn resume_of(
    j: DatabaseCompactJournal,
    current_hash: Seq<char>,
    current_logical: Option<Seq<char>>,
) -> ResumeStep {
    if j.target_verification is Some && model::opt_view(j.target_file_sha256) == Some(
        current_hash,
    ) {
        ResumeStep::Finish
    } else if current_hash == j.head.source_file_sha256@ && current_logical == Some(
        j.head.source_verification.logical_manifest_sha256@,
    ) {
        ResumeStep::Restart
    } else {
        ResumeStep::Restore
    }
}

/// How a compaction that was begun is taken up.
pub fn resume_step(
    journal: &DatabaseCompactJournal,
    current_hash: &str,
    current_logical: &Option<String>,
) -> (r: ResumeStep)
    ensures
        r == resume_of(*journal, current_hash@, model::opt_view(*current_logical)),
{
    if journal.target_verification.is_some() && model::opt_is(
        &journal.target_file_sha256,
        current_hash,
    ) {
        return ResumeStep::Finish;
    }
    if text::same(current_hash, journal.head.source_file_sha256.as_str()) && model::opt_is(
        current_logical,
        journal.head.source_verification.logical_manifest_sha256.as_str(),
    ) {
        return ResumeStep::Restart;
    }
    ResumeStep::Restore
}

/// A backup can be put back: one was kept, it is there, and it hashes to what
/// the database did at the start.
pub open spec fn restorable(j: DatabaseCompactJournal, backup_hash: Option<Seq<char>>) -> bool {
    j.head.backup_file_name is Some && backup_hash == Some(j.head.source_file_sha256@)
}

/// What is said where nothing can be taken up.
pub open spec fn lost() -> Seq<char> {
    "恢复时当前数据库既不匹配原始文件，也不匹配已验证目标，且没有可用的已验证备份"@
}

/// Whether a backup can be put back; the hash is that of the backup, where
/// there is one.
pub fn check_backup(journal: &DatabaseCompactJournal, backup_hash: &Option<String>) -> (r: Result<
    (),
    AppError,
>)
    ensures
        error::follows(
            r,
            if restorable(*journal, model::opt_view(*backup_hash)) {
                None
            } else {
                Some(ErrorView::DatabaseMaintenance(lost()))
            },
        ),
{
    if journal.head.backup_file_name.is_some() && model::opt_is(
        backup_hash,
        journal.head.source_file_sha256.as_str(),
    ) {
        return Ok(());
    }
    Err(
        AppError::DatabaseMaintenance(
            "恢复时当前数据库既不匹配原始文件，也不匹配已验证目标，且没有可用的已验证备份".to_owned(),
        ),
    )
}

/// Whether a backup that was put back holds what the database held at the start.
pub fn check_restored(journal: &DatabaseCompactJournal, restored_logical: &str) -> (r: Result<
    (),
    AppError,
>)
    ensures
        error::follows(
            r,
            if restored_logical@ == journal.head.source_verification.logical_manifest_sha256@ {
                None
            } else {
                Some(
                    ErrorView::DatabaseMaintenance(
                        "备份文件哈希正确，但恢复后的逻辑清单不匹配原始数据库"@,
                    ),
                )
            },
        ),
{
    if text::same(
        restored_logical,
        journal.head.source_verification.logical_manifest_sha256.as_str(),
    ) {
        return Ok(());
    }
    Err(
        AppError::DatabaseMaintenance(
            "备份文件哈希正确，但恢复后的逻辑清单不匹配原始数据库".to_owned(),
        ),
    )
}

// ---------------------------------------------------------------------------
// Copies
// ---------------------------------------------------------------------------

/// What is done to a file that a copy is to stand in for.
#[derive(Debug, Clone, Copy, PartialEq, Eq, Structural)]
pub enum CopyStep {
    Write,
    AlreadyThere,
}

/// Why a file is not copied.
pub open spec fn copy_refusal(
    source_hash: Seq<char>,
    expected_source: Seq<char>,
    source_shown: Seq<char>,
    target_hash: Option<Seq<char>>,
    expected_target: Option<Seq<char>>,
    target_shown: Seq<char>,
) -> Option<ErrorView> {
    if source_hash != expected_source {
        Some(ErrorView::DatabaseMaintenance("原子复制源文件哈希漂移："@ + source_shown))
    } else {
        match expected_target {
            Some(expected) => if target_hash == Some(expected) {
                None
            } else {
                Some(ErrorView::ConcurrentModification(target_shown))
            },
            None => match target_hash {
                None => None,
                Some(found) => if found == expected_source {
                    None
                } else {
                    Some(ErrorView::ConcurrentModification(target_shown))
                },
            },
        }
    }
}

/// What is done to copy a file, given what its source hashes to, and what its
/// target does where it is there.  A target that was not expected is only left
/// as it is where it holds the copy already.
pub fn begin_copy(
    source_hash: &str,
    expected_source: &str,
    source_shown: &str,
    target_hash: &Option<String>,
    expected_target: &Option<String>,
    target_shown: &str,
) -> (r: Result<CopyStep, AppError>)
    ensures
        error::follows(
            r,
            copy_refusal(
                source_hash@,
                expected_source@,
                source_shown@,
                model::opt_view(*target_hash),
                model::opt_view(*expected_target),
                target_shown@,
            ),
        ),
        r matches Ok(step) ==> step == (if *expected_target is None && *target_hash is Some {
            CopyStep::AlreadyThere
        } else {
            CopyStep::Write
        }),
{
    if !text::same(source_hash, expected_source) {
        return Err(
            AppError::DatabaseMaintenance(
                text::cat2("原子复制源文件哈希漂移：", source_shown),
            ),
        );
    }
    match expected_target {
        Some(expected) => {
            if model::opt_is(target_hash, expected.as_str()) {
                return Ok(CopyStep::Write);
            }
            Err(AppError::ConcurrentModification(target_shown.to_owned()))
        },
        None => match target_hash {
            None => Ok(CopyStep::Write),
            Some(found) => {
                if text::same(found.as_str(), expected_source) {
                    return Ok(CopyStep::AlreadyThere);
                }
                Err(AppError::ConcurrentModification(target_shown.to_owned()))
            },
        },
    }
}

/// Whether the target is still what it was, just before the copy takes its
/// place.
pub fn check_copy_target(
    target_hash: &Option<String>,
    expected_target: &Option<String>,
    target_shown: &str,
) -> (r: Result<(), AppError>)
    ensures
        error::follows(
            r,
            if *expected_target is None || model::opt_view(*target_hash) == model::opt_view(
                *expected_target,
            ) {
                None
            } else {
                Some(ErrorView::ConcurrentModification(target_shown@))
            },
        ),
{
    match expected_target {
        None => Ok(()),
        Some(expected) => {
            if model::opt_is(target_hash, expected.as_str()) {
                return Ok(());
            }
            Err(AppError::ConcurrentModification(target_shown.to_owned()))
        },
    }
}

/// Whether a copy came out right.
pub fn check_copied(target_hash: &str, expected_source: &str, target_shown: &str) -> (r: Result<
    (),
    AppError,
>)
    ensures
        error::follows(
            r,
            if target_hash@ == expected_source@ {
                None
            } else {
                Some(
                    ErrorView::DatabaseMaintenance(
                        "原子复制后文件哈希不一致："@ + target_shown@,
                    ),
                )
            },
        ),
{
    if text::same(target_hash, expected_source) {
        return Ok(());
    }
    Err(
        AppError::DatabaseMaintenance(
            text::cat2("原子复制后文件哈希不一致：", target_shown),
        ),
    )
}

// ---------------------------------------------------------------------------
// The swap
// ---------------------------------------------------------------------------

/// Why a copy does not take the place of the database, before it is written.
pub open spec fn candidate_refusal(j: DatabaseCompactJournal, candidate_hash: Seq<char>) -> Option<
    ErrorView,
> {
    match j.target_file_sha256 {
        None => Some(ErrorView::DatabaseMaintenance("压缩日志缺少目标文件哈希"@)),
        Some(expected) => if candidate_hash == expected@ {
            None
        } else {
            Some(ErrorView::DatabaseMaintenance("原子替换前候选文件哈希漂移"@))
        },
    }
}

/// Whether the copy is still the one that was verified.
pub fn check_candidate(journal: &DatabaseCompactJournal, candidate_hash: &str) -> (r: Result<
    (),
    AppError,
>)
    ensures
        error::follows(r, candidate_refusal(*journal, candidate_hash@)),
{
    match &journal.target_file_sha256 {
        None => Err(
            AppError::DatabaseMaintenance("压缩日志缺少目标文件哈希".to_owned()),
        ),
        Some(expected) => {
            if text::same(candidate_hash, expected.as_str()) {
                return Ok(());
            }
            Err(AppError::DatabaseMaintenance("原子替换前候选文件哈希漂移".to_owned()))
        },
    }
}

/// Whether the database is still what it was, just before the copy takes its
/// place.
pub fn check_source_at_swap(
    journal: &DatabaseCompactJournal,
    source_logical: &str,
    source_hash: &str,
) -> (r: Result<(), AppError>)
    ensures
        error::follows(
            r,
            if source_logical@ == journal.head.source_verification.logical_manifest_sha256@
                && source_hash@ == journal.head.source_file_sha256@ {
                None
            } else {
                Some(
                    ErrorView::DatabaseMaintenance(
                        "原子提交前源数据库发生变化，拒绝替换"@,
                    ),
                )
            },
        ),
{
    if text::same(
        source_logical,
        journal.head.source_verification.logical_manifest_sha256.as_str(),
    ) && text::same(source_hash, journal.head.source_file_sha256.as_str()) {
        return Ok(());
    }
    Err(
        AppError::DatabaseMaintenance("原子提交前源数据库发生变化，拒绝替换".to_owned()),
    )
}

/// Whether the database is still what it was once its side files are gone.
pub fn check_source_after_cleanup(
    journal: &DatabaseCompactJournal,
    source_hash: &str,
    shown: &str,
) -> (r: Result<(), AppError>)
    ensures
        error::follows(
            r,
            if source_hash@ == journal.head.source_file_sha256@ {
                None
            } else {
                Some(ErrorView::ConcurrentModification(shown@))
            },
        ),
{
    if text::same(source_hash, journal.head.source_file_sha256.as_str()) {
        return Ok(());
    }
    Err(AppError::ConcurrentModification(shown.to_owned()))
}

/// What a failed swap is taken for: something that passes where the database
/// was only in use.
pub fn commit_error(in_use: bool, shown: &str, error: &str) -> (r: AppError)
    ensures
        r@ == (if in_use {
            ErrorView::DatabaseSwapBusy(shown@ + "："@ + error@)
        } else {
            ErrorView::Io(error@)
        }),
{
    if in_use {
        AppError::DatabaseSwapBusy(text::cat3(shown, "：", error))
    } else {
        AppError::Io(error.to_owned())
    }
}

/// Whether the copy has taken the place of the database.
pub fn check_swapped(journal: &DatabaseCompactJournal, database_hash: &str) -> (r: Result<
    (),
    AppError,
>)
    ensures
        error::follows(
            r,
            if model::opt_view(journal.target_file_sha256) == Some(database_hash@) {
                None
            } else {
                Some(
                    ErrorView::DatabaseMaintenance(
                        "原子替换后的数据库文件哈希不匹配候选"@,
                    ),
                )
            },
        ),
{
    if model::opt_is(&journal.target_file_sha256, database_hash) {
        return Ok(());
    }
    Err(
        AppError::DatabaseMaintenance("原子替换后的数据库文件哈希不匹配候选".to_owned()),
    )
}

/// No other compaction is pending exactly where every journal but the own one is
/// of a compaction that is over.
pub proof fn pending_compactions_are_noticed(notices: Seq<JournalNotice>, but: Option<Seq<char>>)
    ensures
        first_pending(notices, but) is None <==> forall|i: int|
            0 <= i < notices.len() ==> (#[trigger] notices[i]).state == OperationState::Completed
                || Some(notices[i].file_name@) == but,
        pending_refusal(notices) is None <==> forall|i: int|
            0 <= i < notices.len() ==> (#[trigger] notices[i]).state == OperationState::Completed,
        but is Some ==> (other_refusal(notices, but->0) is None <==> forall|i: int|
            0 <= i < notices.len() ==> (#[trigger] notices[i]).state == OperationState::Completed
                || notices[i].file_name@ == but->0),
{
    none_pending(notices, but);
    none_pending(notices, None);
}

proof fn none_pending(notices: Seq<JournalNotice>, but: Option<Seq<char>>)
    ensures
        first_pending(notices, but) is None <==> forall|i: int|
            0 <= i < notices.len() ==> (#[trigger] notices[i]).state == OperationState::Completed
                || Some(notices[i].file_name@) == but,
    decreases notices.len(),
{
    if notices.len() > 0 {
        let rest = notices.skip(1);
        none_pending(rest, but);
        assert forall|i: int| 0 <= i < rest.len() implies #[trigger] rest[i] == notices[i + 1] by {}
        if first_pending(notices, but) is None {
            assert forall|i: int| 0 <= i < notices.len() implies (#[trigger] notices[i]).state
                == OperationState::Completed || Some(notices[i].file_name@) == but by {
                if i > 0 {
                    assert(rest[i - 1] == notices[i]);
                }
            }
        } else if first_pending(rest, but) is Some {
            let i = choose|i: int|
                0 <= i < rest.len() && !((#[trigger] rest[i]).state == OperationState::Completed
                    || Some(rest[i].file_name@) == but);
            assert(notices[i + 1] == rest[i]);
        }
    }
}

/// A compaction is taken up from the very journal of its request: of the same
/// project, request, parameters and files.
pub proof fn journals_are_of_their_request(
    j: DatabaseCompactJournal,
    database: Seq<char>,
    request: CompactRequest,
)
    ensures
        journal_refusal(j, database, request) is None ==> {
            &&& j.head.project_key@ == request.project_key@
            &&& j.head.request_id@ == request.request_id@
            &&& j.head.request_sha256@ == request.request_sha256@
            &&& j.head.parameters_sha256@ == request.parameters_sha256@
            &&& j.head.database_file_name@ == database
            &&& j.head.vacuum_file_name@ == database::vacuum_of(
                database,
                request.request_sha256@,
            )
            &&& j.head.keep_backup <==> j.head.backup_file_name is Some
            &&& database::baseline_refusal(
                database,
                text::views(j.atomic_temporary_baseline@),
            ) is None
        },
{
}

/// A compaction is finished where the database is the verified copy, begun again
/// where it is the source as it was, and restored only where it is neither; and
/// only the backup of that very source restores it.
pub proof fn compactions_resume_from_what_is_there(
    j: DatabaseCompactJournal,
    hash: Seq<char>,
    logical: Option<Seq<char>>,
    backup: Option<Seq<char>>,
)
    ensures
        resume_of(j, hash, logical) is Finish <==> j.target_verification is Some
            && j.target_file_sha256 is Some && j.target_file_sha256->0@ == hash,
        resume_of(j, hash, logical) is Restart <==> !(resume_of(j, hash, logical) is Finish)
            && hash == j.head.source_file_sha256@ && logical == Some(
            j.head.source_verification.logical_manifest_sha256@,
        ),
        restorable(j, backup) <==> j.head.backup_file_name is Some && backup == Some(
            j.head.source_file_sha256@,
        ),
        candidate_refusal(j, hash) is None <==> j.target_file_sha256 is Some
            && j.target_file_sha256->0@ == hash,
{
}

/// A file is copied exactly where its source is what is expected and its target
/// is what is expected: that file, or, where none is expected, none or the very
/// copy.
pub proof fn copies_go_over_what_is_expected(
    source: Seq<char>,
    wanted: Seq<char>,
    shown: Seq<char>,
    found: Option<Seq<char>>,
    expected: Option<Seq<char>>,
    target: Seq<char>,
)
    ensures
        copy_refusal(source, wanted, shown, found, expected, target) is None <==> source == wanted
            && if expected is Some {
            found == expected
        } else {
            found is None || found == Some(wanted)
        },
{
}

} // verus!
