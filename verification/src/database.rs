//! The upkeep of the database: what is asked for, under which names things
//! stand next to it, and how much room it takes.
use crate::digest;
use crate::error::{self, AppError, ErrorView};
use crate::json;
use crate::order;
use crate::text;
use vstd::prelude::*;

verus! {

broadcast use {vstd::string::group_string_axioms, vstd::seq::group_seq_axioms};

pub const OPERATION_PROTOCOL_VERSION: u32 = 1;

/// The longest that a lock is waited for, in seconds.
pub const MAX_LOCK_TIMEOUT_SECONDS: u64 = 300;

// ---------------------------------------------------------------------------
// What is asked for
// ---------------------------------------------------------------------------

#[derive(Debug, Clone, PartialEq, Eq)]
pub struct DatabaseCompactOptions {
    pub apply: bool,
    pub request_id: Option<String>,
    pub human_confirmed: bool,
    pub full_check: bool,
    pub keep_backup: bool,
    pub lock_timeout_seconds: u64,
}

/// Why options make no sense.
pub open spec fn options_refusal(options: DatabaseCompactOptions) -> Option<ErrorView> {
    if options.lock_timeout_seconds > MAX_LOCK_TIMEOUT_SECONDS {
        Some(
            ErrorView::DatabaseMaintenance(
                "--lock-timeout-seconds 最大为 "@ + text::decimal(
                    MAX_LOCK_TIMEOUT_SECONDS as nat,
                ),
            ),
        )
    } else if !options.apply && (options.request_id is Some || options.human_confirmed) {
        Some(
            ErrorView::DatabaseMaintenance(
                "dry-run 不接受 --request-id 或 --human-confirmed；请同时提供 --apply"@,
            ),
        )
    } else {
        None
    }
}

/// Whether options make sense: a dry run takes nothing that only a change needs.
pub fn validate_options(options: &DatabaseCompactOptions) -> (r: Result<(), AppError>)
    ensures
        error::follows(r, options_refusal(*options)),
{
    if options.lock_timeout_seconds > MAX_LOCK_TIMEOUT_SECONDS {
        let limit = text::decimal_text(MAX_LOCK_TIMEOUT_SECONDS);
        return Err(
            AppError::DatabaseMaintenance(
                text::cat2("--lock-timeout-seconds 最大为 ", limit.as_str()),
            ),
        );
    }
    if !options.apply && (options.request_id.is_some() || options.human_confirmed) {
        return Err(
            AppError::DatabaseMaintenance(
                "dry-run 不接受 --request-id 或 --human-confirmed；请同时提供 --apply".to_owned(),
            ),
        );
    }
    Ok(())
}

/// A name that a request can have: something, in at most 256 bytes.
pub open spec fn request_name(id: Seq<char>) -> bool {
    text::trimmed(id).len() > 0 && vstd::utf8::encode_utf8(id).len() <= 256
}

/// Why a name is none of a request.
pub open spec fn request_refusal(id: Seq<char>) -> Option<ErrorView> {
    if request_name(id) {
        None
    } else {
        Some(
            ErrorView::DatabaseMaintenance(
                "request_id 必须是 1..=256 字节的非空字符串"@,
            ),
        )
    }
}

/// Whether a name is one of a request.
pub fn validate_request_id(request_id: &str) -> (r: Result<(), AppError>)
    ensures
        error::follows(r, request_refusal(request_id@)),
{
    let trimmed = text::trim(request_id);
    let bytes: usize = request_id.as_bytes().len();
    if text::length(trimmed.as_str()) == 0 || bytes > 256 {
        return Err(
            AppError::DatabaseMaintenance(
                "request_id 必须是 1..=256 字节的非空字符串".to_owned(),
            ),
        );
    }
    Ok(())
}

/// Why nothing is changed at all.
pub open spec fn apply_refusal(options: DatabaseCompactOptions) -> Option<ErrorView> {
    match options_refusal(options) {
        Some(e) => Some(e),
        None => if !options.apply || !options.human_confirmed {
            Some(
                ErrorView::DatabaseMaintenance(
                    "物理压缩必须同时提供 --apply 与 --human-confirmed"@,
                ),
            )
        } else {
            match options.request_id {
                None => Some(
                    ErrorView::DatabaseMaintenance(
                        "物理压缩 --apply 必须提供 --request-id"@,
                    ),
                ),
                Some(id) => request_refusal(id@),
            }
        },
    }
}

/// What a compaction is asked for under.
#[derive(Debug, Clone, PartialEq, Eq)]
pub struct CompactRequest {
    pub project_key: String,
    pub request_id: String,
    pub request_sha256: String,
    pub parameters_sha256: String,
    pub full_check: bool,
    pub keep_backup: bool,
}

/// A truth value as JSON writes it.
pub open spec fn written_bool(b: bool) -> Seq<char> {
    if b {
        "true"@
    } else {
        "false"@
    }
}

fn write_bool(b: bool) -> (r: &'static str)
    ensures
        r@ == written_bool(b),
{
    if b {
        "true"
    } else {
        "false"
    }
}

/// What a compaction depends on, as a JSON document with its members in order.
pub open spec fn parameters_document(
    project_key: Seq<char>,
    full_check: bool,
    keep_backup: bool,
) -> Seq<char> {
    "{\"full_check\":"@ + written_bool(full_check) + ",\"keep_backup\":"@ + written_bool(keep_backup)
        + ",\"operation_protocol_version\":"@ + text::decimal(OPERATION_PROTOCOL_VERSION as nat)
        + ",\"project_key\":"@ + json::json_written(project_key) + "}"@
}

/// The fingerprint of what a compaction depends on.
pub fn parameters_hash(project_key: &str, options: &DatabaseCompactOptions) -> (r: String)
    ensures
        r@ == digest::sha256_hex(
            vstd::utf8::encode_utf8(
                parameters_document(project_key@, options.full_check, options.keep_backup),
            ),
        ),
{
    let version = text::decimal_text(OPERATION_PROTOCOL_VERSION as u64);
    let key = json::write_string(project_key);
    let mut document = text::cat5(
        "{\"full_check\":",
        write_bool(options.full_check),
        ",\"keep_backup\":",
        write_bool(options.keep_backup),
        ",\"operation_protocol_version\":",
    );
    document.append(version.as_str());
    document.append(",\"project_key\":");
    document.append(key.as_str());
    document.append("}");
    assert(document@ =~= parameters_document(
        project_key@,
        options.full_check,
        options.keep_backup,
    ));
    digest::hash_bytes(document.as_str().as_bytes())
}

/// Requests that differ in how thorough they are, or in whether they keep a
/// backup, are told apart by what is hashed for them.
pub proof fn parameters_are_told_apart(project_key: Seq<char>, a: (bool, bool), b: (bool, bool))
    requires
        parameters_document(project_key, a.0, a.1) == parameters_document(project_key, b.0, b.1),
    ensures
        a == b,
{
    reveal_strlit("true");
    reveal_strlit("false");
    let x = parameters_document(project_key, a.0, a.1);
    let y = parameters_document(project_key, b.0, b.1);
    let n = "{\"full_check\":"@.len() as int;
    let k = ",\"keep_backup\":"@.len() as int;
    assert(x[n] == written_bool(a.0)[0]);
    assert(y[n] == written_bool(b.0)[0]);
    assert("true"@[0] == 't' && "false"@[0] == 'f');
    assert(a.0 == b.0);
    let m = n + written_bool(a.0).len() + k;
    assert(x[m] == written_bool(a.1)[0]);
    assert(y[m] == written_bool(b.1)[0]);
}

/// What a compaction is asked for under, where it may be done at all.
pub fn begin_apply(project_key: &str, options: &DatabaseCompactOptions) -> (r: Result<
    CompactRequest,
    AppError,
>)
    ensures
        error::follows(r, apply_refusal(*options)),
        r matches Ok(request) ==> {
            &&& request.project_key@ == project_key@
            &&& options.request_id is Some
            &&& request.request_id@ == options.request_id->0@
            &&& request.request_sha256@ == digest::sha256_hex(
                vstd::utf8::encode_utf8(request.request_id@),
            )
            &&& request.parameters_sha256@ == digest::sha256_hex(
                vstd::utf8::encode_utf8(
                    parameters_document(project_key@, options.full_check, options.keep_backup),
                ),
            )
            &&& request.full_check == options.full_check
            &&& request.keep_backup == options.keep_backup
        },
{
    match validate_options(options) {
        Err(e) => {
            return Err(e);
        },
        Ok(()) => {},
    }
    if !options.apply || !options.human_confirmed {
        return Err(
            AppError::DatabaseMaintenance(
                "物理压缩必须同时提供 --apply 与 --human-confirmed".to_owned(),
            ),
        );
    }
    let request_id = match &options.request_id {
        None => {
            return Err(
                AppError::DatabaseMaintenance(
                    "物理压缩 --apply 必须提供 --request-id".to_owned(),
                ),
            );
        },
        Some(id) => id,
    };
    match validate_request_id(request_id.as_str()) {
        Err(e) => {
            return Err(e);
        },
        Ok(()) => {},
    }
    Ok(
        CompactRequest {
            project_key: project_key.to_owned(),
            request_id: request_id.clone(),
            request_sha256: digest::hash_bytes(request_id.as_str().as_bytes()),
            parameters_sha256: parameters_hash(project_key, options),
            full_check: options.full_check,
            keep_backup: options.keep_backup,
        },
    )
}

// ---------------------------------------------------------------------------
// Locks
// ---------------------------------------------------------------------------

/// What a reader is told while the database is being worked on.
pub fn shared_lock_error(shown: &str) -> (r: AppError)
    ensures
        r@ == ErrorView::DatabaseMaintenance("数据库正处于独占维护窗口："@ + shown@),
{
    AppError::DatabaseMaintenance(text::cat2("数据库正处于独占维护窗口：", shown))
}

/// Whether a lock that is taken is waited for any longer.
pub fn keep_waiting(waited_in_time: bool, timeout_seconds: u64, shown: &str) -> (r: Result<
    (),
    AppError,
>)
    ensures
        error::follows(
            r,
            if waited_in_time {
                None
            } else {
                Some(
                    ErrorView::DatabaseMaintenance(
                        "等待数据库独占维护锁超时（"@ + text::decimal(timeout_seconds as nat)
                            + " 秒）："@ + shown@,
                    ),
                )
            },
        ),
{
    if waited_in_time {
        return Ok(());
    }
    let limit = text::decimal_text(timeout_seconds);
    Err(
        AppError::DatabaseMaintenance(
            text::cat4("等待数据库独占维护锁超时（", limit.as_str(), " 秒）：", shown),
        ),
    )
}

// ---------------------------------------------------------------------------
// Names
// ---------------------------------------------------------------------------

/// The name of the lock of a database.
pub fn lock_name(database: &str) -> (r: String)
    ensures
        r@ == database@ + ".maintenance.lock"@,
{
    text::cat2(database, ".maintenance.lock")
}

/// The name of the journal of a request.
pub open spec fn journal_of(database: Seq<char>, request_sha256: Seq<char>) -> Seq<char> {
    database + ".maintenance."@ + request_sha256 + ".json"@
}

/// The name of the compacted copy that a request makes.
pub open spec fn vacuum_of(database: Seq<char>, request_sha256: Seq<char>) -> Seq<char> {
    database + ".compact."@ + request_sha256 + ".vacuum.db"@
}

/// The name of the backup that a request keeps.
pub open spec fn backup_of(database: Seq<char>, request_sha256: Seq<char>) -> Seq<char> {
    database + ".backup."@ + request_sha256 + ".db"@
}

pub fn journal_name(database: &str, request_sha256: &str) -> (r: String)
    ensures
        r@ == journal_of(database@, request_sha256@),
{
    text::cat4(database, ".maintenance.", request_sha256, ".json")
}

pub fn vacuum_name(database: &str, request_sha256: &str) -> (r: String)
    ensures
        r@ == vacuum_of(database@, request_sha256@),
{
    text::cat4(database, ".compact.", request_sha256, ".vacuum.db")
}

pub fn backup_name(database: &str, request_sha256: &str) -> (r: String)
    ensures
        r@ == backup_of(database@, request_sha256@),
{
    text::cat4(database, ".backup.", request_sha256, ".db")
}

/// The name of a journal of a database, whatever the request.
pub open spec fn journal_like(database: Seq<char>, name: Seq<char>) -> bool {
    text::begins(name, database + ".maintenance."@) && text::ends(text::lowered(name), ".json"@)
}

/// Whether a name is one of a journal of a database.
pub fn is_journal_name(database: &str, name: &str) -> (r: bool)
    ensures
        r == journal_like(database@, name@),
{
    let prefix = text::cat2(database, ".maintenance.");
    let low = text::to_lower(name);
    text::starts_with(name, prefix.as_str()) && text::ends_with(low.as_str(), ".json")
}

/// The journal of every request is found again among the names next to the
/// database.
pub proof fn journals_are_found(database: Seq<char>, request_sha256: Seq<char>)
    ensures
        journal_like(database, journal_of(database, request_sha256)),
{
    reveal_strlit(".json");
    let prefix = database + ".maintenance."@;
    let name = journal_of(database, request_sha256);
    assert(name.subrange(0, prefix.len() as int) =~= prefix);
    let low = text::lowered(name);
    let n = name.len() as int;
    assert(name.subrange(n - 5, n) =~= ".json"@);
    assert(low.subrange(n - 5, n) =~= ".json"@) by {
        assert forall|i: int| 0 <= i < 5 implies low[n - 5 + i] == ".json"@[i] by {
            assert(name[n - 5 + i] == name.subrange(n - 5, n)[i]);
        }
    }
}

/// The name of a file that an atomic write of the database leaves behind.
pub open spec fn temporary_like(database: Seq<char>, name: Seq<char>) -> bool {
    match text::after_prefix(name, "."@ + database + "."@) {
        None => false,
        Some(rest) => rest.len() == 6 && forall|i: int|
            0 <= i < rest.len() ==> text::ascii_alphanumeric(#[trigger] rest[i]),
    }
}

/// Whether a name is one that an atomic write of the database leaves behind.
pub fn is_atomic_database_temporary_name(database: &str, name: &str) -> (r: bool)
    ensures
        r == temporary_like(database@, name@),
{
    let prefix = text::cat3(".", database, ".");
    match text::strip_prefix(name, prefix.as_str()) {
        None => false,
        Some(rest) => {
            let chars = text::chars_of(rest.as_str());
            if chars.len() != 6 {
                return false;
            }
            let mut i: usize = 0;
            while i < chars.len()
                invariant
                    i <= chars@.len(),
                    chars@ == rest@,
                    text::after_prefix(name@, "."@ + database@ + "."@) == Some(rest@),
                    forall|k: int| 0 <= k < i ==> text::ascii_alphanumeric(#[trigger] rest@[k]),
                decreases chars@.len() - i,
            {
                if !text::is_ascii_alphanumeric(chars[i]) {
                    assert(!text::ascii_alphanumeric(rest@[i as int]));
                    return false;
                }
                i = i + 1;
            }
            true
        },
    }
}

/// A list of names that atomic writes left behind, each once and in order.
pub open spec fn sound_baseline(database: Seq<char>, baseline: Seq<Seq<char>>) -> bool {
    &&& forall|i: int|
        0 <= i < baseline.len() - 1 ==> order::text_before(
            #[trigger] baseline[i],
            baseline[i + 1],
        )
    &&& forall|i: int| 0 <= i < baseline.len() ==> temporary_like(database, #[trigger] baseline[i])
}

/// Why a list of such names is not believed.
pub open spec fn baseline_refusal(database: Seq<char>, baseline: Seq<Seq<char>>) -> Option<
    ErrorView,
> {
    if sound_baseline(database, baseline) {
        None
    } else {
        Some(
            ErrorView::DatabaseMaintenance(
                "压缩日志中的原子临时文件基线非法或未严格排序"@,
            ),
        )
    }
}

/// Whether a list of such names may be believed.
pub fn validate_atomic_temporary_baseline(database: &str, baseline: &Vec<String>) -> (r: Result<
    (),
    AppError,
>)
    ensures
        error::follows(r, baseline_refusal(database@, text::views(baseline@))),
{
    let ghost all = text::views(baseline@);
    let n: usize = baseline.len();
    let mut sound = true;
    let mut i: usize = 0;
    while sound && i < n
        invariant
            i <= n == baseline@.len(),
            all == text::views(baseline@),
            sound ==> forall|k: int|
                0 <= k < i - 1 ==> order::text_before(#[trigger] all[k], all[k + 1]),
            sound ==> forall|k: int| 0 <= k < i ==> temporary_like(database@, #[trigger] all[k]),
            !sound ==> !sound_baseline(database@, all),
        decreases n - i,
    {
        assert(all[i as int] == baseline@[i as int]@);
        if i > 0 {
            assert(all[i - 1] == baseline@[i - 1]@);
            if !order::is_before(baseline[i - 1].as_str(), baseline[i].as_str()) {
                sound = false;
            }
        }
        if !is_atomic_database_temporary_name(database, baseline[i].as_str()) {
            sound = false;
        }
        i = i + 1;
    }
    if sound {
        return Ok(());
    }
    Err(
        AppError::DatabaseMaintenance(
            "压缩日志中的原子临时文件基线非法或未严格排序".to_owned(),
        ),
    )
}

/// The names that were not there before.
pub open spec fn new_names(now: Seq<Seq<char>>, before: Seq<Seq<char>>) -> Seq<Seq<char>>
    decreases now.len(),
{
    if now.len() == 0 {
        Seq::empty()
    } else {
        let rest = new_names(now.drop_last(), before);
        if before.contains(now.last()) {
            rest
        } else {
            rest.push(now.last())
        }
    }
}

proof fn all_names_are_new(names: Seq<Seq<char>>)
    ensures
        new_names(names, Seq::empty()) == names,
    decreases names.len(),
{
    if names.len() > 0 {
        all_names_are_new(names.drop_last());
        assert(names =~= names.drop_last().push(names.last()));
    } else {
        assert(new_names(names, Seq::empty()) =~= names);
    }
}

/// The files that atomic writes of the database left behind since a list of
/// them was made: what is removed, and nothing else.
pub fn leftover_temporaries(database: &str, names: &Vec<String>, baseline: &Vec<String>) -> (r: Vec<
    String,
>)
    ensures
        text::views(r@) == new_names(
            text::views(names@).filter(|n: Seq<char>| temporary_like(database@, n)),
            text::views(baseline@),
        ),
{
    let ghost all = text::views(names@);
    let ghost like = |n: Seq<char>| temporary_like(database@, n);
    let mut out: Vec<String> = Vec::new();
    let mut i: usize = 0;
    proof {
        reveal(Seq::filter);
    }
    assert(all.take(0) =~= Seq::<Seq<char>>::empty());
    assert(all.take(0).filter(like) =~= Seq::<Seq<char>>::empty());
    assert(text::views(out@) =~= Seq::<Seq<char>>::empty());
    while i < names.len()
        invariant
            i <= names@.len(),
            all == text::views(names@),
            like == (|n: Seq<char>| temporary_like(database@, n)),
            text::views(out@) == new_names(
                all.take(i as int).filter(like),
                text::views(baseline@),
            ),
        decreases names@.len() - i,
    {
        proof {
            reveal(Seq::filter);
        }
        let ghost kept = all.take(i as int).filter(like);
        assert(all.take(i + 1).drop_last() =~= all.take(i as int));
        assert(all.take(i + 1).last() == names@[i as int]@);
        if is_atomic_database_temporary_name(database, names[i].as_str()) {
            assert(all.take(i + 1).filter(like) == kept.push(names@[i as int]@));
            assert(kept.push(names@[i as int]@).drop_last() =~= kept);
            if !text::list_contains(baseline, names[i].as_str()) {
                let ghost before = text::views(out@);
                out.push(names[i].clone());
                assert(text::views(out@) =~= before.push(names@[i as int]@));
            }
        }
        i = i + 1;
    }
    assert(all.take(all.len() as int) =~= all);
    out
}

/// The files that atomic writes of the database left behind.
pub fn atomic_database_temporaries(database: &str, names: &Vec<String>) -> (r: Vec<String>)
    ensures
        text::views(r@) == order::sorted_set_of(
            text::views(names@).filter(|n: Seq<char>| temporary_like(database@, n)),
        ),
{
    let none: Vec<String> = Vec::new();
    assert(text::views(none@) =~= Seq::<Seq<char>>::empty());
    proof {
        all_names_are_new(
            text::views(names@).filter(|n: Seq<char>| temporary_like(database@, n)),
        );
    }
    let found = leftover_temporaries(database, names, &none);
    order::sorted_set(&found)
}

/// Whether a file may be removed: one that stands next to the database.
pub fn check_removal(next_to_database: bool, shown: &str) -> (r: Result<(), AppError>)
    ensures
        error::follows(
            r,
            if next_to_database {
                None
            } else {
                Some(
                    ErrorView::DatabaseMaintenance(
                        "拒绝删除不在数据库目录中的临时文件："@ + shown@,
                    ),
                )
            },
        ),
{
    if next_to_database {
        return Ok(());
    }
    Err(
        AppError::DatabaseMaintenance(
            text::cat2("拒绝删除不在数据库目录中的临时文件：", shown),
        ),
    )
}

/// Whether a write-ahead log may be removed: one that holds nothing any more.
pub fn check_sidecar(bytes: u64, shown: &str) -> (r: Result<(), AppError>)
    ensures
        error::follows(
            r,
            if bytes == 0 {
                None
            } else {
                Some(
                    ErrorView::DatabaseMaintenance(
                        "WAL checkpoint 后 sidecar 仍有 "@ + text::decimal(bytes as nat)
                            + " 字节："@ + shown@,
                    ),
                )
            },
        ),
{
    if bytes == 0 {
        return Ok(());
    }
    let count = text::decimal_text(bytes);
    Err(
        AppError::DatabaseMaintenance(
            text::cat4("WAL checkpoint 后 sidecar 仍有 ", count.as_str(), " 字节：", shown),
        ),
    )
}

// ---------------------------------------------------------------------------
// Room
// ---------------------------------------------------------------------------

/// How many copies of the database there are at once, at most.
pub open spec fn copies(keep_backup: bool) -> nat {
    if keep_backup {
        3
    } else {
        2
    }
}

/// What a compaction fills: its copies of the database and the write-ahead log.
pub open spec fn filled(database_bytes: u64, wal_bytes: u64, keep_backup: bool) -> nat {
    database_bytes as nat * copies(keep_backup) + wal_bytes as nat
}

/// The room that a compaction takes, with a fifth more than it fills.
pub fn estimated_required_space(database_bytes: u64, wal_bytes: u64, keep_backup: bool) -> (r:
    Result<u64, AppError>)
    ensures
        match r {
            Ok(n) => filled(database_bytes, wal_bytes, keep_backup) * 6 <= u64::MAX && n
                == filled(database_bytes, wal_bytes, keep_backup) * 6 / 5,
            Err(e) => filled(database_bytes, wal_bytes, keep_backup) * 6 > u64::MAX && e@
                == ErrorView::DatabaseMaintenance("磁盘空间预估溢出"@),
        },
{
    let times: u64 = if keep_backup {
        3
    } else {
        2
    };
    match database_bytes.checked_mul(times) {
        Some(bytes) => match bytes.checked_add(wal_bytes) {
            Some(all) => match all.checked_mul(6) {
                Some(padded) => {
                    return Ok(padded / 5);
                },
                None => {},
            },
            None => {},
        },
        None => {},
    }
    Err(AppError::DatabaseMaintenance("磁盘空间预估溢出".to_owned()))
}

/// The room that is asked for is never less than what is filled.
pub proof fn estimates_suffice(database_bytes: u64, wal_bytes: u64, keep_backup: bool)
    ensures
        filled(database_bytes, wal_bytes, keep_backup) * 6 / 5 >= filled(
            database_bytes,
            wal_bytes,
            keep_backup,
        ),
        filled(database_bytes, wal_bytes, true) >= filled(database_bytes, wal_bytes, false),
{
}

/// Why there is not enough room.
pub open spec fn space_refusal(required: u64, available: u64) -> Option<ErrorView> {
    if available < required {
        Some(
            ErrorView::DatabaseMaintenance(
                "可用空间不足：需要至少 "@ + text::decimal(required as nat) + " 字节，当前 "@
                    + text::decimal(available as nat) + " 字节"@,
            ),
        )
    } else {
        None
    }
}

/// Whether there is enough room.
pub fn ensure_space_available(required: u64, available: u64) -> (r: Result<(), AppError>)
    ensures
        error::follows(r, space_refusal(required, available)),
{
    if available < required {
        let a = text::decimal_text(required);
        let b = text::decimal_text(available);
        return Err(
            AppError::DatabaseMaintenance(
                text::cat5(
                    "可用空间不足：需要至少 ",
                    a.as_str(),
                    " 字节，当前 ",
                    b.as_str(),
                    " 字节",
                ),
            ),
        );
    }
    Ok(())
}

/// The database is only compacted where that is asked for, a person confirmed
/// it, and a request names it; a look at it takes neither. The room asked for
/// must be there.
pub proof fn compaction_is_asked_for(
    options: DatabaseCompactOptions,
    required: u64,
    available: u64,
)
    ensures
        apply_refusal(options) is None <==> {
            &&& options.lock_timeout_seconds <= 300
            &&& options.apply && options.human_confirmed
            &&& options.request_id is Some && text::trimmed(options.request_id->0@).len() > 0
            &&& vstd::utf8::encode_utf8(options.request_id->0@).len() <= 256
        },
        options_refusal(options) is None <==> options.lock_timeout_seconds
            <= 300 && (options.apply || (options.request_id is None
            && !options.human_confirmed)),
        space_refusal(required, available) is None <==> required <= available,
{
}

/// The new names are all that were not there before, in their order.
pub proof fn all_new_names_are_told(now: Seq<Seq<char>>, before: Seq<Seq<char>>)
    ensures
        new_names(now, before) == now.filter(|n: Seq<char>| !before.contains(n)),
    decreases now.len(),
{
    reveal(Seq::filter);
    if now.len() > 0 {
        all_new_names_are_told(now.drop_last(), before);
    }
}

/// Keeping a backup takes room for one more copy of the database.
pub proof fn backups_take_room(database_bytes: u64, wal_bytes: u64)
    ensures
        filled(database_bytes, wal_bytes, true) == filled(database_bytes, wal_bytes, false)
            + database_bytes,
        filled(database_bytes, wal_bytes, false) == 2 * database_bytes + wal_bytes,
{
}

} // verus!
