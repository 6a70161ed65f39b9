//! Production qualification: a fixed suite of cases that a build of the
//! control plane has to pass, and the ledger of the runs of it.
use crate::digest;
use crate::error::{self, AppError, ErrorView};
use crate::json::{self, Json, JsonView};
use crate::model;
use crate::order;
use crate::text;
use vstd::prelude::*;

verus! {

broadcast use {vstd::string::group_string_axioms, vstd::seq::group_seq_axioms};

pub const QUALIFICATION_SCHEMA_VERSION: u32 = 1;

pub const QUALIFICATION_SUITE_VERSION: u32 = 1;

/// How many events a long session has.
pub const LONG_SESSION_EVENT_COUNT: usize = 10000;

/// How many sessions run side by side, and how many operations each has.
pub const CONCURRENT_SESSION_COUNT: usize = 32;

pub const OPERATIONS_PER_SESSION: usize = 100;

#[derive(Debug, Clone, Copy, PartialEq, Eq, Structural)]
pub enum QualificationState {
    Running,
    Qualified,
    Failed,
    Inconclusive,
}

impl QualificationState {
    pub open spec fn name(self) -> Seq<char> {
        match self {
            QualificationState::Running => "running"@,
            QualificationState::Qualified => "qualified"@,
            QualificationState::Failed => "failed"@,
            QualificationState::Inconclusive => "inconclusive"@,
        }
    }

    pub fn as_str(self) -> (r: &'static str)
        ensures
            r@ == self.name(),
    {
        match self {
            QualificationState::Running => "running",
            QualificationState::Qualified => "qualified",
            QualificationState::Failed => "failed",
            QualificationState::Inconclusive => "inconclusive",
        }
    }
}

/// The state of a name.
pub open spec fn state_named(name: Seq<char>) -> Option<QualificationState> {
    if name == "running"@ {
        Some(QualificationState::Running)
    } else if name == "qualified"@ {
        Some(QualificationState::Qualified)
    } else if name == "failed"@ {
        Some(QualificationState::Failed)
    } else if name == "inconclusive"@ {
        Some(QualificationState::Inconclusive)
    } else {
        None
    }
}

/// The state of a name.
pub fn parse_state(value: &str) -> (r: Result<QualificationState, String>)
    ensures
        match r {
            Ok(state) => state_named(value@) == Some(state),
            Err(e) => state_named(value@) is None && e@ == "未知资格状态："@ + value@,
        },
{
    if text::same(value, "running") {
        Ok(QualificationState::Running)
    } else if text::same(value, "qualified") {
        Ok(QualificationState::Qualified)
    } else if text::same(value, "failed") {
        Ok(QualificationState::Failed)
    } else if text::same(value, "inconclusive") {
        Ok(QualificationState::Inconclusive)
    } else {
        Err(text::cat2("未知资格状态：", value))
    }
}

/// A state is read back as it was written.
pub proof fn states_read_back(state: QualificationState)
    ensures
        state_named(state.name()) == Some(state),
{
    reveal_strlit("running");
    reveal_strlit("qualified");
    reveal_strlit("failed");
    reveal_strlit("inconclusive");
    assert("running"@[0] == 'r' && "qualified"@[0] == 'q');
    assert("failed"@[0] == 'f' && "inconclusive"@[0] == 'i');
}

#[derive(Debug, Clone, Copy, PartialEq, Eq, Structural)]
pub enum QualificationCaseState {
    Passed,
    Failed,
    Inconclusive,
}

impl QualificationCaseState {
    pub open spec fn name(self) -> Seq<char> {
        match self {
            QualificationCaseState::Passed => "passed"@,
            QualificationCaseState::Failed => "failed"@,
            QualificationCaseState::Inconclusive => "inconclusive"@,
        }
    }

    pub fn as_str(self) -> (r: &'static str)
        ensures
            r@ == self.name(),
    {
        match self {
            QualificationCaseState::Passed => "passed",
            QualificationCaseState::Failed => "failed",
            QualificationCaseState::Inconclusive => "inconclusive",
        }
    }
}

/// What is qualified: a build on a platform, with the contracts that it keeps.
#[derive(Debug, Clone, PartialEq, Eq)]
pub struct QualificationTarget {
    pub project_brain_version: String,
    pub binary_sha256: String,
    pub contract_manifest_hash: String,
    pub database_schema_version: i64,
    pub os: String,
    pub architecture: String,
    pub target_hash: String,
}

#[derive(Debug, Clone, PartialEq, Eq)]
pub struct QualificationContext {
    pub project_key: String,
    pub project_root: String,
    pub source_fingerprint_before: Option<String>,
    pub source_fingerprint_after: Option<String>,
}

#[derive(Debug, PartialEq, Eq)]
pub struct QualificationCaseReport {
    pub case_id: String,
    pub case_version: u32,
    pub status: String,
    pub failure_code: Option<String>,
    pub failure_message: Option<String>,
    pub observation_hash: String,
    pub metrics: Json,
    pub elapsed_ms: u64,
}

#[derive(Debug, PartialEq, Eq)]
pub struct QualificationRunReport {
    pub schema_version: u32,
    pub suite_id: String,
    pub suite_version: u32,
    pub run_id: String,
    pub request_id: String,
    pub status: QualificationState,
    pub target: QualificationTarget,
    pub context: QualificationContext,
    pub cases: Vec<QualificationCaseReport>,
    pub started_at_unix_seconds: i64,
    pub finished_at_unix_seconds: i64,
}

#[derive(Debug, Clone, PartialEq, Eq)]
pub struct QualificationRunSummary {
    pub run_id: String,
    pub request_id: String,
    pub status: QualificationState,
    pub target_hash: String,
    pub started_at_unix_seconds: i64,
    pub finished_at_unix_seconds: Option<i64>,
}

#[derive(Debug, Clone, PartialEq, Eq)]
pub struct QualificationStatusReport {
    pub schema_version: u32,
    pub suite_id: String,
    pub suite_version: u32,
    pub current_target: QualificationTarget,
    pub qualified: bool,
    pub matching_qualified_run: Option<QualificationRunSummary>,
    pub latest_run: Option<QualificationRunSummary>,
}

/// Two targets are the same.
pub open spec fn same_target(a: QualificationTarget, b: QualificationTarget) -> bool {
    &&& a.project_brain_version@ == b.project_brain_version@
    &&& a.binary_sha256@ == b.binary_sha256@
    &&& a.contract_manifest_hash@ == b.contract_manifest_hash@
    &&& a.database_schema_version == b.database_schema_version
    &&& a.os@ == b.os@
    &&& a.architecture@ == b.architecture@
    &&& a.target_hash@ == b.target_hash@
}

/// Whether two targets are the same.
pub fn is_same_target(a: &QualificationTarget, b: &QualificationTarget) -> (r: bool)
    ensures
        r == same_target(*a, *b),
{
    text::same(a.project_brain_version.as_str(), b.project_brain_version.as_str()) && text::same(
        a.binary_sha256.as_str(),
        b.binary_sha256.as_str(),
    ) && text::same(
        a.contract_manifest_hash.as_str(),
        b.contract_manifest_hash.as_str(),
    ) && a.database_schema_version == b.database_schema_version && text::same(
        a.os.as_str(),
        b.os.as_str(),
    ) && text::same(a.architecture.as_str(), b.architecture.as_str()) && text::same(
        a.target_hash.as_str(),
        b.target_hash.as_str(),
    )
}

// ---------------------------------------------------------------------------
// Identities
// ---------------------------------------------------------------------------

/// An id from outside that is taken.
pub open spec fn valid_id(value: Seq<char>) -> bool {
    0 < value.len() <= 160 && text::plain_name(value)
}

/// Why an id from outside is not taken.
pub open spec fn id_refusal(label: Seq<char>, value: Seq<char>) -> Option<ErrorView> {
    if valid_id(value) {
        None
    } else {
        Some(
            ErrorView::Qualification(
                label + " 不能为空、超过 160 字节或包含非 [A-Za-z0-9._-] 字符"@,
            ),
        )
    }
}

/// Whether an id from outside is taken.
pub fn validate_external_id(label: &str, value: &str) -> (r: Result<(), AppError>)
    ensures
        error::follows(r, id_refusal(label@, value@)),
{
    let length: usize = text::length(value);
    if 0 < length && length <= 160 && text::is_plain_name(value) {
        return Ok(());
    }
    Err(
        AppError::Qualification(
            text::cat2(label, " 不能为空、超过 160 字节或包含非 [A-Za-z0-9._-] 字符"),
        ),
    )
}

/// What the id of a run is made from.
pub open spec fn run_seed(
    request_id: Seq<char>,
    request_hash: Seq<char>,
    started_at: int,
) -> Seq<u8> {
    vstd::utf8::encode_utf8(request_id).push(0u8) + vstd::utf8::encode_utf8(request_hash).push(0u8)
        + vstd::utf8::encode_utf8(text::signed_decimal(started_at))
}

fn signed_text(n: i64) -> (r: String)
    ensures
        r@ == text::signed_decimal(n as int),
{
    if n < 0 {
        let wide: i128 = n as i128;
        let digits = text::decimal_text((0 - wide) as u64);
        let mut out = String::new();
        out.push('-');
        out.append(digits.as_str());
        assert(out@ =~= text::signed_decimal(n as int));
        out
    } else {
        text::decimal_text(n as u64)
    }
}

/// The id of a run.
pub open spec fn run_id_of(
    request_id: Seq<char>,
    request_hash: Seq<char>,
    started_at: int,
) -> Seq<char> {
    "qualification_"@ + digest::sha256_hex(
        run_seed(request_id, request_hash, started_at),
    ).take(32)
}

/// The id of a run.
pub fn run_id(request_id: &str, request_hash: &str, started_at: i64) -> (r: String)
    ensures
        r@ == run_id_of(request_id@, request_hash@, started_at as int),
{
    let mut seed: Vec<u8> = Vec::new();
    digest::append_terminated(&mut seed, request_id);
    digest::append_terminated(&mut seed, request_hash);
    let started = signed_text(started_at);
    digest::append_text(&mut seed, started.as_str());
    assert(seed@ =~= run_seed(request_id@, request_hash@, started_at as int));
    let hex = digest::hash_bytes(seed.as_slice());
    let short = text::shorten(hex.as_str(), 32);
    text::cat2("qualification_", short.as_str())
}

/// The code of a failure of a case.
pub open spec fn failure_code_of(case_id: Seq<char>, message: Seq<char>) -> Seq<char> {
    "qualification_"@ + digest::sha256_hex(
        vstd::utf8::encode_utf8(case_id).push(0u8) + vstd::utf8::encode_utf8(message),
    ).take(16)
}

/// The code of a failure of a case.
pub fn failure_code(case_id: &str, message: &str) -> (r: String)
    ensures
        r@ == failure_code_of(case_id@, message@),
{
    let mut seed: Vec<u8> = Vec::new();
    digest::append_terminated(&mut seed, case_id);
    digest::append_text(&mut seed, message);
    assert(seed@ =~= vstd::utf8::encode_utf8(case_id@).push(0u8) + vstd::utf8::encode_utf8(
        message@,
    ));
    let hex = digest::hash_bytes(seed.as_slice());
    let short = text::shorten(hex.as_str(), 16);
    text::cat2("qualification_", short.as_str())
}

/// A report tells what came of a case.
pub open spec fn case_told(
    report: QualificationCaseReport,
    case_id: Seq<char>,
    outcome: Result<Json, String>,
    observation_hash: Seq<char>,
    elapsed_ms: u64,
) -> bool {
    &&& report.case_id@ == case_id
    &&& report.case_version == 1
    &&& report.observation_hash@ == observation_hash
    &&& report.elapsed_ms == elapsed_ms
    &&& match outcome {
        Ok(metrics) => {
            &&& report.status@ == QualificationCaseState::Passed.name()
            &&& report.failure_code is None
            &&& report.failure_message is None
            &&& report.metrics@ == metrics@
        },
        Err(message) => {
            &&& report.status@ == QualificationCaseState::Failed.name()
            &&& model::opt_view(report.failure_code) == Some(failure_code_of(case_id, message@))
            &&& model::opt_view(report.failure_message) == Some(message@)
            &&& report.metrics@ == JsonView::Object(Seq::empty())
        },
    }
}

/// The report of a case: passed with its metrics, or failed with a message and
/// a code for it; `observation_hash` is the fingerprint of the canonical form
/// of what was observed.
pub fn case_report(
    case_id: &str,
    outcome: Result<Json, String>,
    observation_hash: &str,
    elapsed_ms: u64,
) -> (r: QualificationCaseReport)
    ensures
        case_told(r, case_id@, outcome, observation_hash@, elapsed_ms),
{
    match outcome {
        Ok(metrics) => QualificationCaseReport {
            case_id: case_id.to_owned(),
            case_version: 1,
            status: QualificationCaseState::Passed.as_str().to_owned(),
            failure_code: None,
            failure_message: None,
            observation_hash: observation_hash.to_owned(),
            metrics,
            elapsed_ms,
        },
        Err(message) => QualificationCaseReport {
            case_id: case_id.to_owned(),
            case_version: 1,
            status: QualificationCaseState::Failed.as_str().to_owned(),
            failure_code: Some(failure_code(case_id, message.as_str())),
            failure_message: Some(message),
            observation_hash: observation_hash.to_owned(),
            metrics: Json::empty_object(),
            elapsed_ms,
        },
    }
}

/// The cases of the suite, in the order in which they run.
pub open spec fn suite_names() -> Seq<Seq<char>> {
    seq![
        "Q1_adapter_contract"@,
        "Q2_project_isolation"@,
        "Q3_replay_idempotency"@,
        "Q4_concurrent_interleaving"@,
        "Q5_provider_drift"@,
        "Q6_stop_loop_boundedness"@,
        "Q7_long_session_stability"@,
    ]
}

/// The cases of the suite, in the order in which they run.
pub fn suite() -> (r: Vec<&'static str>)
    ensures
        text::str_views(r@) == suite_names(),
{
    let names: Vec<&'static str> = vec![
        "Q1_adapter_contract", "Q2_project_isolation", "Q3_replay_idempotency",
        "Q4_concurrent_interleaving", "Q5_provider_drift", "Q6_stop_loop_boundedness",
        "Q7_long_session_stability",
    ];
    assert(text::str_views(names@) =~= suite_names());
    names
}

// ---------------------------------------------------------------------------
// What fingerprints are taken of
// ---------------------------------------------------------------------------

/// A text, or `null` where there is none.
pub open spec fn text_or_null(s: Option<Seq<char>>) -> JsonView {
    match s {
        Some(s) => JsonView::Text(s),
        None => JsonView::Null,
    }
}

fn optional_text(s: &Option<String>) -> (r: Json)
    ensures
        r@ == text_or_null(model::opt_view(*s)),
{
    match s {
        Some(s) => Json::text(s.as_str()),
        None => Json::Null,
    }
}

/// What the contracts are that a build keeps: the versions of what it reads and
/// writes, and what its adapters can do.
pub open spec fn contract_parts(
    hook_protocol_version: u32,
    config_schema_version: u32,
    database_schema_version: i64,
    adapters: JsonView,
) -> JsonView {
    json::empty().with("suite_id"@, JsonView::Text("control-plane"@)).with(
        "suite_version"@,
        JsonView::Integer(QUALIFICATION_SUITE_VERSION as int),
    ).with("hook_protocol_version"@, JsonView::Integer(hook_protocol_version as int)).with(
        "config_schema_version"@,
        JsonView::Integer(config_schema_version as int),
    ).with("database_schema_version"@, JsonView::Integer(database_schema_version as int)).with(
        "adapters"@,
        adapters,
    )
}

/// What the contracts are that a build keeps.
pub fn contract_description(
    hook_protocol_version: u32,
    config_schema_version: u32,
    database_schema_version: i64,
    adapters: Json,
) -> (r: Json)
    ensures
        r@ == contract_parts(
            hook_protocol_version,
            config_schema_version,
            database_schema_version,
            adapters@,
        ),
{
    Json::empty_object().with("suite_id", Json::text("control-plane")).with(
        "suite_version",
        Json::Integer(QUALIFICATION_SUITE_VERSION as i128),
    ).with("hook_protocol_version", Json::Integer(hook_protocol_version as i128)).with(
        "config_schema_version",
        Json::Integer(config_schema_version as i128),
    ).with("database_schema_version", Json::Integer(database_schema_version as i128)).with(
        "adapters",
        adapters,
    )
}

/// What makes a target: all of it but its own fingerprint.
pub open spec fn target_parts(target: QualificationTarget) -> JsonView {
    json::empty().with(
        "project_brain_version"@,
        JsonView::Text(target.project_brain_version@),
    ).with("binary_sha256"@, JsonView::Text(target.binary_sha256@)).with(
        "contract_manifest_hash"@,
        JsonView::Text(target.contract_manifest_hash@),
    ).with(
        "database_schema_version"@,
        JsonView::Integer(target.database_schema_version as int),
    ).with("os"@, JsonView::Text(target.os@)).with(
        "architecture"@,
        JsonView::Text(target.architecture@),
    )
}

/// What makes a target.
pub fn target_description(target: &QualificationTarget) -> (r: Json)
    ensures
        r@ == target_parts(*target),
{
    Json::empty_object().with(
        "project_brain_version",
        Json::text(target.project_brain_version.as_str()),
    ).with("binary_sha256", Json::text(target.binary_sha256.as_str())).with(
        "contract_manifest_hash",
        Json::text(target.contract_manifest_hash.as_str()),
    ).with(
        "database_schema_version",
        Json::Integer(target.database_schema_version as i128),
    ).with("os", Json::text(target.os.as_str())).with(
        "architecture",
        Json::text(target.architecture.as_str()),
    )
}

/// What makes a request: what is qualified, and of which project and source.
pub open spec fn request_parts(
    target_hash: Seq<char>,
    project_key: Seq<char>,
    project_root: Seq<char>,
    source: Option<Seq<char>>,
) -> JsonView {
    json::empty().with("suite_id"@, JsonView::Text("control-plane"@)).with(
        "suite_version"@,
        JsonView::Integer(QUALIFICATION_SUITE_VERSION as int),
    ).with("target_hash"@, JsonView::Text(target_hash)).with(
        "project_key"@,
        JsonView::Text(project_key),
    ).with("project_root"@, JsonView::Text(project_root)).with(
        "source_fingerprint"@,
        text_or_null(source),
    )
}

/// What makes a request.
pub fn request_description(
    target_hash: &str,
    project_key: &str,
    project_root: &str,
    source: &Option<String>,
) -> (r: Json)
    ensures
        r@ == request_parts(target_hash@, project_key@, project_root@, model::opt_view(*source)),
{
    Json::empty_object().with("suite_id", Json::text("control-plane")).with(
        "suite_version",
        Json::Integer(QUALIFICATION_SUITE_VERSION as i128),
    ).with("target_hash", Json::text(target_hash)).with(
        "project_key",
        Json::text(project_key),
    ).with("project_root", Json::text(project_root)).with(
        "source_fingerprint",
        optional_text(source),
    )
}

/// What was observed of a case.
pub open spec fn observation_parts(case_id: Seq<char>, outcome: Result<Json, String>) -> JsonView {
    let head = json::empty().with("case_id"@, JsonView::Text(case_id)).with(
        "case_version"@,
        JsonView::Integer(1),
    );
    match outcome {
        Ok(metrics) => head.with(
            "status"@,
            JsonView::Text(QualificationCaseState::Passed.name()),
        ).with("failure"@, JsonView::Null).with("metrics"@, metrics@),
        Err(message) => head.with(
            "status"@,
            JsonView::Text(QualificationCaseState::Failed.name()),
        ).with("failure"@, JsonView::Text(message@)).with("metrics"@, json::empty()),
    }
}

/// What was observed of a case.
pub fn observation_description(case_id: &str, outcome: &Result<Json, String>) -> (r: Json)
    ensures
        r@ == observation_parts(case_id@, *outcome),
{
    let head = Json::empty_object().with("case_id", Json::text(case_id)).with(
        "case_version",
        Json::Integer(1),
    );
    match outcome {
        Ok(metrics) => head.with(
            "status",
            Json::text(QualificationCaseState::Passed.as_str()),
        ).with("failure", Json::Null).with("metrics", metrics.copy()),
        Err(message) => head.with(
            "status",
            Json::text(QualificationCaseState::Failed.as_str()),
        ).with("failure", Json::text(message.as_str())).with("metrics", Json::empty_object()),
    }
}

/// What is fingerprinted tells targets apart: two targets of one description
/// differ at most in the fingerprints that they carry.
pub proof fn descriptions_tell_targets_apart(a: QualificationTarget, b: QualificationTarget)
    requires
        target_parts(a) == target_parts(b),
    ensures
        a.project_brain_version@ == b.project_brain_version@,
        a.binary_sha256@ == b.binary_sha256@,
        a.contract_manifest_hash@ == b.contract_manifest_hash@,
        a.database_schema_version == b.database_schema_version,
        a.os@ == b.os@,
        a.architecture@ == b.architecture@,
{
    let x = target_parts(a)->Object_0;
    let y = target_parts(b)->Object_0;
    assert(x[0] == y[0] && x[1] == y[1] && x[2] == y[2] && x[3] == y[3] && x[4] == y[4] && x[5]
        == y[5]);
}

/// What is fingerprinted tells requests apart.
pub proof fn descriptions_tell_requests_apart(
    a: (Seq<char>, Seq<char>, Seq<char>, Option<Seq<char>>),
    b: (Seq<char>, Seq<char>, Seq<char>, Option<Seq<char>>),
)
    requires
        request_parts(a.0, a.1, a.2, a.3) == request_parts(b.0, b.1, b.2, b.3),
    ensures
        a == b,
{
    let x = request_parts(a.0, a.1, a.2, a.3)->Object_0;
    let y = request_parts(b.0, b.1, b.2, b.3)->Object_0;
    assert(x[2] == y[2] && x[3] == y[3] && x[4] == y[4] && x[5] == y[5]);
}

// ---------------------------------------------------------------------------
// The verdict
// ---------------------------------------------------------------------------

/// A case of a status is among the cases.
pub open spec fn any_case(cases: Seq<QualificationCaseReport>, state: QualificationCaseState) -> bool {
    exists|i: int| 0 <= i < cases.len() && (#[trigger] cases[i]).status@ == state.name()
}

/// What a run comes to: failed where a case failed, inconclusive where a case
/// is or where what was to be qualified changed meanwhile, and else qualified.
pub open spec fn verdict_of(
    cases: Seq<QualificationCaseReport>,
    target_changed: bool,
    source_changed: bool,
) -> QualificationState {
    if any_case(cases, QualificationCaseState::Failed) {
        QualificationState::Failed
    } else if target_changed || source_changed || any_case(
        cases,
        QualificationCaseState::Inconclusive,
    ) {
        QualificationState::Inconclusive
    } else {
        QualificationState::Qualified
    }
}

fn has_case(cases: &Vec<QualificationCaseReport>, state: QualificationCaseState) -> (r: bool)
    ensures
        r == any_case(cases@, state),
{
    let mut i: usize = 0;
    while i < cases.len()
        invariant
            i <= cases@.len(),
            forall|k: int| 0 <= k < i ==> (#[trigger] cases@[k]).status@ != state.name(),
        decreases cases@.len() - i,
    {
        if text::same(cases[i].status.as_str(), state.as_str()) {
            assert(cases@[i as int].status@ == state.name());
            return true;
        }
        i = i + 1;
    }
    false
}

/// What a run comes to.
pub fn verdict(
    cases: &Vec<QualificationCaseReport>,
    target_changed: bool,
    source_changed: bool,
) -> (r: QualificationState)
    ensures
        r == verdict_of(cases@, target_changed, source_changed),
{
    if has_case(cases, QualificationCaseState::Failed) {
        QualificationState::Failed
    } else if target_changed || source_changed || has_case(
        cases,
        QualificationCaseState::Inconclusive,
    ) {
        QualificationState::Inconclusive
    } else {
        QualificationState::Qualified
    }
}

/// A report tells what came of a run.
pub open spec fn report_told(
    report: QualificationRunReport,
    run_id: Seq<char>,
    request_id: Seq<char>,
    target_before: QualificationTarget,
    target_after: QualificationTarget,
    context: QualificationContext,
    cases: Seq<QualificationCaseReport>,
    started_at: i64,
    finished_at: i64,
) -> bool {
    &&& report.schema_version == QUALIFICATION_SCHEMA_VERSION
    &&& report.suite_id@ == "control-plane"@
    &&& report.suite_version == QUALIFICATION_SUITE_VERSION
    &&& report.run_id@ == run_id
    &&& report.request_id@ == request_id
    &&& report.status == verdict_of(
        cases,
        !same_target(target_before, target_after),
        model::opt_view(context.source_fingerprint_before) != model::opt_view(
            context.source_fingerprint_after,
        ),
    )
    &&& report.target == target_before
    &&& report.context == context
    &&& report.cases@ == cases
    &&& report.started_at_unix_seconds == started_at
    &&& report.finished_at_unix_seconds == finished_at
}

/// The report of a run.
pub fn finish_report(
    run_id: String,
    request_id: &str,
    target_before: QualificationTarget,
    target_after: &QualificationTarget,
    context: QualificationContext,
    cases: Vec<QualificationCaseReport>,
    started_at: i64,
    finished_at: i64,
) -> (r: QualificationRunReport)
    ensures
        report_told(
            r,
            run_id@,
            request_id@,
            target_before,
            *target_after,
            context,
            cases@,
            started_at,
            finished_at,
        ),
{
    let target_changed = !is_same_target(&target_before, target_after);
    let source_changed = !model::same_opt(
        &context.source_fingerprint_before,
        &context.source_fingerprint_after,
    );
    let status = verdict(&cases, target_changed, source_changed);
    QualificationRunReport {
        schema_version: QUALIFICATION_SCHEMA_VERSION,
        suite_id: "control-plane".to_owned(),
        suite_version: QUALIFICATION_SUITE_VERSION,
        run_id,
        request_id: request_id.to_owned(),
        status,
        target: target_before,
        context,
        cases,
        started_at_unix_seconds: started_at,
        finished_at_unix_seconds: finished_at,
    }
}

/// A run is qualified only where no case failed or stayed open and what was
/// qualified is what was there at the beginning.
pub proof fn qualified_means_every_case_passed(
    cases: Seq<QualificationCaseReport>,
    target_changed: bool,
    source_changed: bool,
    i: int,
)
    requires
        verdict_of(cases, target_changed, source_changed) == QualificationState::Qualified,
        0 <= i < cases.len(),
    ensures
        !target_changed,
        !source_changed,
        cases[i].status@ != QualificationCaseState::Failed.name(),
        cases[i].status@ != QualificationCaseState::Inconclusive.name(),
{
}

// ---------------------------------------------------------------------------
// The ledger
// ---------------------------------------------------------------------------

/// Why a ledger of a version is not used; a new one has none yet.
pub open spec fn ledger_refusal(stored: Option<Seq<char>>) -> Option<ErrorView> {
    match stored {
        None => None,
        Some(version) => if version == text::decimal(QUALIFICATION_SCHEMA_VERSION as nat) {
            None
        } else {
            Some(
                ErrorView::Qualification(
                    "不支持 qualification ledger schema_version="@ + version,
                ),
            )
        },
    }
}

/// Whether a ledger may be used, and whether its version has to be noted.
pub fn check_ledger(stored: &Option<String>) -> (r: Result<bool, AppError>)
    ensures
        error::follows(r, ledger_refusal(model::opt_view(*stored))),
        r is Ok ==> r->Ok_0 == (stored is None),
{
    match stored {
        None => Ok(true),
        Some(version) => {
            let current = text::decimal_text(QUALIFICATION_SCHEMA_VERSION as u64);
            if text::same(version.as_str(), current.as_str()) {
                return Ok(false);
            }
            Err(
                AppError::Qualification(
                    text::cat2(
                        "不支持 qualification ledger schema_version=",
                        version.as_str(),
                    ),
                ),
            )
        },
    }
}

/// A run as the ledger holds it.
#[derive(Debug, Clone, PartialEq, Eq)]
pub struct StoredRun {
    pub request_hash: String,
    pub status: String,
    pub report_json: Option<String>,
    pub report_hash: Option<String>,
}

/// Why a stored report is not believed.
pub open spec fn report_refusal(report: Seq<char>, expected: Seq<char>) -> Option<ErrorView> {
    let actual = digest::sha256_hex(vstd::utf8::encode_utf8(report));
    if actual == expected {
        None
    } else {
        Some(
            ErrorView::Qualification(
                "资格报告哈希不匹配：expected="@ + expected + " actual="@ + actual,
            ),
        )
    }
}

/// Whether a stored report is the one that was fingerprinted.
pub fn verify_report_hash(report_json: &str, expected_hash: &str) -> (r: Result<(), AppError>)
    ensures
        error::follows(r, report_refusal(report_json@, expected_hash@)),
{
    let actual = digest::hash_bytes(report_json.as_bytes());
    if text::same(actual.as_str(), expected_hash) {
        return Ok(());
    }
    Err(
        AppError::Qualification(
            text::cat4(
                "资格报告哈希不匹配：expected=",
                expected_hash,
                " actual=",
                actual.as_str(),
            ),
        ),
    )
}

/// Why a request is not answered from the ledger.
pub open spec fn replay_refusal(
    request_id: Seq<char>,
    request_hash: Seq<char>,
    stored: StoredRun,
) -> Option<ErrorView> {
    let who = "request_id="@ + text::quoted(request_id);
    if stored.request_hash@ != request_hash {
        Some(ErrorView::Qualification(who + " 已绑定到不同资格目标"@))
    } else {
        match stored.report_json {
            None => Some(
                ErrorView::Qualification(
                    who + " 对应运行仍为 "@ + stored.status@
                        + "；中断运行不会被冒充为 Qualified，请使用新 request_id"@,
                ),
            ),
            Some(report) => match stored.report_hash {
                None => Some(
                    ErrorView::Qualification(who + " 的终态证明缺少 report_hash"@),
                ),
                Some(hash) => report_refusal(report@, hash@),
            },
        }
    }
}

/// The report with which a request is answered that was made before: the one
/// that was stored for it, and nothing where the request is new.
pub fn replay_for_request(
    request_id: &str,
    request_hash: &str,
    stored: Option<StoredRun>,
) -> (r: Result<Option<String>, AppError>)
    ensures
        match stored {
            None => r matches Ok(None),
            Some(run) => {
                &&& error::follows(r, replay_refusal(request_id@, request_hash@, run))
                &&& r matches Ok(report) ==> model::opt_view(report) == model::opt_view(
                    run.report_json,
                )
            },
        },
{
    let run = match stored {
        None => {
            return Ok(None);
        },
        Some(run) => run,
    };
    let shown = text::quote(request_id);
    let who = text::cat2("request_id=", shown.as_str());
    if !text::same(run.request_hash.as_str(), request_hash) {
        return Err(
            AppError::Qualification(text::cat2(who.as_str(), " 已绑定到不同资格目标")),
        );
    }
    let report = match run.report_json {
        None => {
            return Err(
                AppError::Qualification(
                    text::cat4(
                        who.as_str(),
                        " 对应运行仍为 ",
                        run.status.as_str(),
                        "；中断运行不会被冒充为 Qualified，请使用新 request_id",
                    ),
                ),
            );
        },
        Some(report) => report,
    };
    let hash = match run.report_hash {
        None => {
            return Err(
                AppError::Qualification(text::cat2(who.as_str(), " 的终态证明缺少 report_hash")),
            );
        },
        Some(hash) => hash,
    };
    match verify_report_hash(report.as_str(), hash.as_str()) {
        Err(e) => Err(e),
        Ok(()) => Ok(Some(report)),
    }
}

/// Why a run is not shown.
pub open spec fn show_refusal(run_id: Seq<char>, stored: Option<StoredRun>) -> Option<ErrorView> {
    match stored {
        None => Some(ErrorView::Qualification("资格运行不存在："@ + run_id)),
        Some(run) => match run.report_json {
            None => Some(
                ErrorView::Qualification(
                    "资格运行 "@ + run_id + " 仍为 "@ + run.status@
                        + "；中断运行没有完整证明"@,
                ),
            ),
            Some(report) => match run.report_hash {
                None => Some(
                    ErrorView::Qualification("资格运行 "@ + run_id + " 缺少 report_hash"@),
                ),
                Some(hash) => report_refusal(report@, hash@),
            },
        },
    }
}

/// The report of a run.
pub fn show(run_id: &str, stored: Option<StoredRun>) -> (r: Result<String, AppError>)
    ensures
        error::follows(r, show_refusal(run_id@, stored)),
        r is Ok ==> model::opt_view(stored->0.report_json) == Some(r->Ok_0@),
{
    let run = match stored {
        None => {
            return Err(AppError::Qualification(text::cat2("资格运行不存在：", run_id)));
        },
        Some(run) => run,
    };
    let report = match run.report_json {
        None => {
            return Err(
                AppError::Qualification(
                    text::cat5(
                        "资格运行 ",
                        run_id,
                        " 仍为 ",
                        run.status.as_str(),
                        "；中断运行没有完整证明",
                    ),
                ),
            );
        },
        Some(report) => report,
    };
    let hash = match run.report_hash {
        None => {
            return Err(
                AppError::Qualification(text::cat3("资格运行 ", run_id, " 缺少 report_hash")),
            );
        },
        Some(hash) => hash,
    };
    match verify_report_hash(report.as_str(), hash.as_str()) {
        Err(e) => Err(e),
        Ok(()) => Ok(report),
    }
}

/// A changed report is never answered with: what is given back for a request
/// was stored under the fingerprint that stands beside it.
pub proof fn replayed_reports_are_unchanged(
    request_id: Seq<char>,
    request_hash: Seq<char>,
    stored: StoredRun,
)
    requires
        replay_refusal(request_id, request_hash, stored) is None,
    ensures
        stored.request_hash@ == request_hash,
        stored.report_json is Some && stored.report_hash is Some,
        stored.report_hash->0@ == digest::sha256_hex(
            vstd::utf8::encode_utf8(stored.report_json->0@),
        ),
{
}

/// What a stored report says of itself, where it can be read.
#[derive(Debug, Clone, PartialEq, Eq)]
pub struct ReportIdentity {
    pub run_id: String,
    pub status: QualificationState,
    pub target_hash: String,
}

/// A row of the ledger is believed: it is of a run under way, or its report
/// has the fingerprint beside it and speaks of the same run.
pub open spec fn row_valid(
    run_id: Seq<char>,
    status: QualificationState,
    target_hash: Seq<char>,
    report_json: Option<Seq<char>>,
    report_hash: Option<Seq<char>>,
    read: Option<ReportIdentity>,
) -> bool {
    status == QualificationState::Running || match (report_json, report_hash) {
        (Some(report), Some(hash)) => {
            &&& digest::sha256_hex(vstd::utf8::encode_utf8(report)) == hash
            &&& read matches Some(identity) && identity.run_id@ == run_id && identity.status
                == status && identity.target_hash@ == target_hash
        },
        _ => false,
    }
}

/// Whether a row of the ledger is believed.
pub fn check_row(
    run_id: &str,
    status: QualificationState,
    target_hash: &str,
    report_json: &Option<String>,
    report_hash: &Option<String>,
    read: &Option<ReportIdentity>,
) -> (r: bool)
    ensures
        r == row_valid(
            run_id@,
            status,
            target_hash@,
            model::opt_view(*report_json),
            model::opt_view(*report_hash),
            *read,
        ),
{
    if status == QualificationState::Running {
        return true;
    }
    match (report_json, report_hash) {
        (Some(report), Some(hash)) => {
            let actual = digest::hash_bytes(report.as_str().as_bytes());
            if !text::same(actual.as_str(), hash.as_str()) {
                return false;
            }
            match read {
                Some(identity) => text::same(identity.run_id.as_str(), run_id)
                    && identity.status == status && text::same(
                    identity.target_hash.as_str(),
                    target_hash,
                ),
                None => false,
            }
        },
        _ => false,
    }
}

/// The status of a target: it is qualified where the ledger holds a qualified
/// run of it.
pub fn status_report(
    target: QualificationTarget,
    matching: Option<QualificationRunSummary>,
    latest: Option<QualificationRunSummary>,
) -> (r: QualificationStatusReport)
    ensures
        r.schema_version == QUALIFICATION_SCHEMA_VERSION,
        r.suite_id@ == "control-plane"@,
        r.suite_version == QUALIFICATION_SUITE_VERSION,
        r.current_target == target,
        r.qualified == (matching is Some),
        r.matching_qualified_run == matching,
        r.latest_run == latest,
{
    QualificationStatusReport {
        schema_version: QUALIFICATION_SCHEMA_VERSION,
        suite_id: "control-plane".to_owned(),
        suite_version: QUALIFICATION_SUITE_VERSION,
        current_target: target,
        qualified: matching.is_some(),
        matching_qualified_run: matching,
        latest_run: latest,
    }
}

/// A run fails exactly where a case failed; it qualifies exactly where no case
/// failed or stayed open and neither the program nor its source changed.
pub proof fn failed_cases_fail_the_run(
    cases: Seq<QualificationCaseReport>,
    target_changed: bool,
    source_changed: bool,
)
    ensures
        verdict_of(cases, target_changed, source_changed) == QualificationState::Failed
            <==> exists|i: int| 0 <= i < cases.len() && (#[trigger] cases[i]).status@ == "failed"@,
        verdict_of(cases, target_changed, source_changed) == QualificationState::Qualified <==> {
            &&& !target_changed && !source_changed
            &&& forall|i: int|
                0 <= i < cases.len() ==> (#[trigger] cases[i]).status@ != "failed"@
                    && cases[i].status@ != "inconclusive"@
        },
{
}

/// A case passed exactly where it came to something, and what it came to is told.
pub proof fn cases_pass_by_their_outcome(
    report: QualificationCaseReport,
    case_id: Seq<char>,
    outcome: Result<Json, String>,
    hash: Seq<char>,
    elapsed: u64,
)
    requires
        case_told(report, case_id, outcome, hash, elapsed),
    ensures
        report.status@ == "passed"@ <==> outcome is Ok,
        report.status@ == "failed"@ <==> outcome is Err,
        report.failure_message is Some <==> outcome is Err,
        outcome is Err ==> report.failure_message->0@ == outcome->Err_0@,
        report.case_id@ == case_id,
        report.observation_hash@ == hash,
{
    reveal_strlit("passed");
    reveal_strlit("failed");
    assert("passed"@[0] == 'p' && "failed"@[0] == 'f');
}

/// A report is shown, or answered with again, exactly where it is complete, its
/// hash is that of its text, and, to be answered with, the request is the same.
pub proof fn only_whole_reports_are_shown(
    id: Seq<char>,
    request_hash: Seq<char>,
    stored: StoredRun,
)
    ensures
        ({
            let whole = {
                &&& stored.report_json is Some && stored.report_hash is Some
                &&& digest::sha256_hex(vstd::utf8::encode_utf8(stored.report_json->0@))
                    == stored.report_hash->0@
            };
            &&& show_refusal(id, Some(stored)) is None <==> whole
            &&& replay_refusal(id, request_hash, stored) is None <==> whole
                && stored.request_hash@ == request_hash
        }),
        show_refusal(id, None) is Some,
{
}

/// A row that is over stands exactly where its report has its hash and is of the
/// run, with its state and its target.
pub proof fn rows_stand_with_their_report(
    run_id: Seq<char>,
    status: QualificationState,
    target: Seq<char>,
    report: Seq<char>,
    hash: Seq<char>,
    read: Option<ReportIdentity>,
)
    requires
        status != QualificationState::Running,
    ensures
        row_valid(run_id, status, target, Some(report), Some(hash), read) <==> {
            &&& digest::sha256_hex(vstd::utf8::encode_utf8(report)) == hash
            &&& read is Some && read->0.run_id@ == run_id && read->0.status == status
            &&& read->0.target_hash@ == target
        },
        !row_valid(run_id, status, target, None, Some(hash), read),
        !row_valid(run_id, status, target, Some(report), None, read),
{
}

} // verus!
