//! Binding and running semantic providers, step by step: what is asked before
//! a program is started, and what is made of how it ended.
use crate::digest;
use crate::error::{self, AppError, ErrorView};
use crate::execution::ProcessResult;
use crate::model;
use crate::provider::{
    self, BindingFacts, ProviderArtifact, ProviderBindReport, ProviderBinding,
    ProviderExecutionReport, ProviderRegistry, SemanticProviderProfile,
};
use crate::text;
use vstd::prelude::*;

verus! {

broadcast use {vstd::string::group_string_axioms, vstd::seq::group_seq_axioms};

// ---------------------------------------------------------------------------
// Binding
// ---------------------------------------------------------------------------

/// Why a profile is not bound at all.
pub open spec fn bind_refusal(
    trust_local_executable: bool,
    profiles: Seq<SemanticProviderProfile>,
    profile_id: Seq<char>,
) -> Option<ErrorView> {
    if !trust_local_executable {
        Some(
            ErrorView::Provider(
                "绑定本机可执行文件需要显式传入 --trust-local-executable"@,
            ),
        )
    } else {
        run_refusal(profiles, profile_id)
    }
}

/// Why no program is run for a profile.
pub open spec fn run_refusal(
    profiles: Seq<SemanticProviderProfile>,
    profile_id: Seq<char>,
) -> Option<ErrorView> {
    match provider::first_profile(profiles, profile_id) {
        None => Some(provider::undeclared(profile_id)),
        Some(profile) => provider::producer_refusal(profile.producer@),
    }
}

/// The profile that a program is run for.
pub fn runnable_profile<'a>(
    profiles: &'a Vec<SemanticProviderProfile>,
    profile_id: &str,
) -> (r: Result<&'a SemanticProviderProfile, AppError>)
    ensures
        error::follows(r, run_refusal(profiles@, profile_id@)),
        r is Ok ==> provider::first_profile(profiles@, profile_id@) == Some(*r->Ok_0),
{
    match provider::configured_profile(profiles, profile_id) {
        Err(e) => Err(e),
        Ok(profile) => match provider::ensure_known_producer(profile.producer.as_str()) {
            Err(e) => Err(e),
            Ok(()) => Ok(profile),
        },
    }
}

/// The profile that is to be bound: local programs are trusted only where
/// that is said.
pub fn begin_bind<'a>(
    trust_local_executable: bool,
    profiles: &'a Vec<SemanticProviderProfile>,
    profile_id: &str,
) -> (r: Result<&'a SemanticProviderProfile, AppError>)
    ensures
        error::follows(r, bind_refusal(trust_local_executable, profiles@, profile_id@)),
        r is Ok ==> provider::first_profile(profiles@, profile_id@) == Some(*r->Ok_0),
{
    if !trust_local_executable {
        return Err(
            AppError::Provider(
                "绑定本机可执行文件需要显式传入 --trust-local-executable".to_owned(),
            ),
        );
    }
    runnable_profile(profiles, profile_id)
}

/// Why a launcher script is not bound.
pub open spec fn launcher_refusal(
    producer: Seq<char>,
    script: Option<ProviderArtifact>,
    inside: bool,
) -> Option<ErrorView> {
    match script {
        None => None,
        Some(script) => match provider::repository_refusal(
            inside,
            script.canonical_path@,
            "Provider launcher script"@,
        ) {
            Some(e) => Some(e),
            None => if provider::is_producer(producer, "scip-python"@) {
                None
            } else {
                Some(
                    ErrorView::Provider(
                        "launcher script 只用于通过原生 node executable 启动 scip-python"@,
                    ),
                )
            },
        },
    }
}

/// Whether a launcher script may be bound; where there is one, stock has to be
/// taken of its package.
pub fn check_launcher(producer: &str, script: &Option<ProviderArtifact>, inside: bool) -> (r:
    Result<bool, AppError>)
    ensures
        error::follows(r, launcher_refusal(producer@, *script, inside)),
        r is Ok ==> r->Ok_0 == (script is Some),
{
    match script {
        None => Ok(false),
        Some(script) => {
            match provider::reject_repository_artifact(inside, script, "Provider launcher script") {
                Err(e) => {
                    return Err(e);
                },
                Ok(()) => {},
            }
            if !text::same_ignoring_case(producer, "scip-python") {
                return Err(
                    AppError::Provider(
                        "launcher script 只用于通过原生 node executable 启动 scip-python".to_owned(),
                    ),
                );
            }
            Ok(true)
        },
    }
}

/// A byte that ASCII counts as white space.
pub open spec fn blank_byte(b: u8) -> bool {
    b == 32 || b == 9 || b == 10 || b == 12 || b == 13
}

/// Nothing but white space.
pub open spec fn blank(bytes: Seq<u8>) -> bool {
    forall|i: int| 0 <= i < bytes.len() ==> blank_byte(#[trigger] bytes[i])
}

fn is_blank(bytes: &Vec<u8>) -> (r: bool)
    ensures
        r == blank(bytes@),
{
    let mut i: usize = 0;
    while i < bytes.len()
        invariant
            i <= bytes@.len(),
            forall|k: int| 0 <= k < i ==> blank_byte(#[trigger] bytes@[k]),
        decreases bytes@.len() - i,
    {
        let b: u8 = bytes[i];
        if !(b == 32 || b == 9 || b == 10 || b == 12 || b == 13) {
            assert(!blank_byte(bytes@[i as int]));
            return false;
        }
        i = i + 1;
    }
    true
}

/// What a program says its version is: the first of its two streams that says
/// anything, on one line.
pub open spec fn version_line(process: ProcessResult) -> Seq<char> {
    text::squeezed(
        text::utf8_lossy(
            if blank(process.stdout.bytes@) {
                process.stderr.bytes@
            } else {
                process.stdout.bytes@
            },
        ),
    )
}

/// Why a version is not known.
pub open spec fn version_refusal(line: Seq<char>) -> Option<ErrorView> {
    if line.len() == 0 {
        Some(
            ErrorView::Provider("Provider --version 没有返回可记录的版本文本"@),
        )
    } else {
        None
    }
}

/// A version as it is recorded, given the line that the program wrote.
pub fn recorded_version(line: &str) -> (r: Result<String, AppError>)
    ensures
        error::follows(r, version_refusal(line@)),
        r is Ok ==> r->Ok_0@ == text::shortened(line@, 512),
{
    if text::chars_of(line).len() == 0 {
        return Err(
            AppError::Provider("Provider --version 没有返回可记录的版本文本".to_owned()),
        );
    }
    Ok(text::shorten(line, 512))
}

/// What a program says its version is.
pub fn version_text(process: &ProcessResult) -> (r: Result<String, AppError>)
    ensures
        error::follows(r, version_refusal(version_line(*process))),
        r is Ok ==> r->Ok_0@ == text::shortened(version_line(*process), 512),
{
    let all = if is_blank(&process.stdout.bytes) {
        text::lossy_text(process.stderr.bytes.as_slice())
    } else {
        text::lossy_text(process.stdout.bytes.as_slice())
    };
    let line = text::squeeze(all.as_str());
    recorded_version(line.as_str())
}

/// What a program is known by: its path, its version and its script.
pub open spec fn identity_of(
    executable: ProviderArtifact,
    script: Option<ProviderArtifact>,
    version: Seq<char>,
) -> Seq<char> {
    let named = text::lowered(executable.canonical_path@ + " "@ + version);
    match script {
        Some(script) => named + seq![' '] + text::lowered(script.canonical_path@),
        None => named,
    }
}

/// Why a program is not taken for the producer.
pub open spec fn identity_refusal(
    producer: Seq<char>,
    executable: ProviderArtifact,
    script: Option<ProviderArtifact>,
    version: Seq<char>,
) -> Option<ErrorView> {
    if text::occurs(identity_of(executable, script, version), text::lowered(producer)) {
        None
    } else {
        Some(
            ErrorView::Provider(
                "版本 probe 与 producer="@ + text::quoted(producer)
                    + " 身份不匹配；请确认绑定了正确工具"@,
            ),
        )
    }
}

/// Whether a program names itself as the producer.
pub fn verify_probe_identity(
    producer: &str,
    executable: &ProviderArtifact,
    launcher_script: &Option<ProviderArtifact>,
    version: &str,
) -> (r: Result<(), AppError>)
    ensures
        error::follows(r, identity_refusal(producer@, *executable, *launcher_script, version@)),
{
    let named = text::cat3(executable.canonical_path.as_str(), " ", version);
    let mut identity = text::to_lower(named.as_str());
    match launcher_script {
        Some(script) => {
            identity.push(' ');
            let path = text::to_lower(script.canonical_path.as_str());
            identity.append(path.as_str());
            assert(identity@ =~= identity_of(*executable, *launcher_script, version@));
        },
        None => {},
    }
    let wanted = text::to_lower(producer);
    if text::contains(identity.as_str(), wanted.as_str()) {
        return Ok(());
    }
    let shown = text::quote(producer);
    Err(
        AppError::Provider(
            text::cat3(
                "版本 probe 与 producer=",
                shown.as_str(),
                " 身份不匹配；请确认绑定了正确工具",
            ),
        ),
    )
}

/// What is noted of a step: how it came out, and how it failed.
pub struct NoteView {
    pub outcome: Seq<char>,
    pub failure_kind: Option<Seq<char>>,
}

/// What is noted of a step.
#[derive(Debug, Clone, PartialEq, Eq)]
pub struct Note {
    pub outcome: String,
    pub failure_kind: Option<String>,
}

impl View for Note {
    type V = NoteView;

    open spec fn view(&self) -> NoteView {
        NoteView { outcome: self.outcome@, failure_kind: model::opt_view(self.failure_kind) }
    }
}

/// A step that failed in a way.
pub open spec fn failed(kind: Seq<char>) -> NoteView {
    NoteView { outcome: "failed"@, failure_kind: Some(kind) }
}

/// A step that succeeded.
pub open spec fn succeeded() -> NoteView {
    NoteView { outcome: "success"@, failure_kind: None }
}

/// A step that failed in a way.
pub fn failure(kind: &str) -> (r: Note)
    ensures
        r@ == failed(kind@),
{
    Note { outcome: "failed".to_owned(), failure_kind: Some(kind.to_owned()) }
}

/// A step that succeeded.
pub fn success() -> (r: Note)
    ensures
        r@ == succeeded(),
{
    Note { outcome: "success".to_owned(), failure_kind: None }
}

/// The same note again.
pub fn copy_note(note: &Note) -> (r: Note)
    ensures
        r == *note,
{
    Note {
        outcome: note.outcome.clone(),
        failure_kind: match &note.failure_kind {
            Some(kind) => Some(kind.clone()),
            None => None,
        },
    }
}

/// What is made of a version probe: what is noted of it, and the version.
pub open spec fn probe_outcome(
    producer: Seq<char>,
    executable: ProviderArtifact,
    script: Option<ProviderArtifact>,
    probe: ProcessResult,
    line: Seq<char>,
) -> (Option<NoteView>, Result<Seq<char>, ErrorView>) {
    if !probe.status.well() {
        (
            Some(failed("non_zero_exit"@)),
            Err(
                ErrorView::Provider(
                    "Provider 版本探测失败，exit_code="@ + text::shown_code(probe.status.code),
                ),
            ),
        )
    } else {
        match version_refusal(line) {
            Some(e) => (None, Err(e)),
            None => {
                let version = text::shortened(line, 512);
                match identity_refusal(producer, executable, script, version) {
                    Some(e) => (Some(failed("identity_mismatch"@)), Err(e)),
                    None => (Some(succeeded()), Ok(version)),
                }
            },
        }
    }
}

/// What is made of a version probe.
#[derive(Debug, PartialEq, Eq)]
pub struct ProbeVerdict {
    pub note: Option<Note>,
    pub version: Result<String, AppError>,
}

impl ProbeVerdict {
    pub open spec fn says(self) -> (Option<NoteView>, Result<Seq<char>, ErrorView>) {
        (
            match self.note {
                Some(note) => Some(note@),
                None => None,
            },
            match self.version {
                Ok(v) => Ok(v@),
                Err(e) => Err(e@),
            },
        )
    }
}

/// What is made of a version probe, given the line that the program wrote.
pub fn judge_probe_line(
    producer: &str,
    executable: &ProviderArtifact,
    launcher_script: &Option<ProviderArtifact>,
    probe: &ProcessResult,
    line: &str,
) -> (r: ProbeVerdict)
    ensures
        r.says() == probe_outcome(producer@, *executable, *launcher_script, *probe, line@),
{
    if !probe.status.success() {
        let shown = text::show_code(probe.status.code);
        return ProbeVerdict {
            note: Some(failure("non_zero_exit")),
            version: Err(
                AppError::Provider(
                    text::cat2("Provider 版本探测失败，exit_code=", shown.as_str()),
                ),
            ),
        };
    }
    let version = match recorded_version(line) {
        Err(e) => {
            return ProbeVerdict { note: None, version: Err(e) };
        },
        Ok(version) => version,
    };
    match verify_probe_identity(producer, executable, launcher_script, version.as_str()) {
        Err(e) => ProbeVerdict { note: Some(failure("identity_mismatch")), version: Err(e) },
        Ok(()) => ProbeVerdict { note: Some(success()), version: Ok(version) },
    }
}

/// What is made of a version probe.
pub fn judge_probe(
    producer: &str,
    executable: &ProviderArtifact,
    launcher_script: &Option<ProviderArtifact>,
    probe: &ProcessResult,
) -> (r: ProbeVerdict)
    ensures
        r.says() == probe_outcome(
            producer@,
            *executable,
            *launcher_script,
            *probe,
            version_line(*probe),
        ),
{
    let all = if is_blank(&probe.stdout.bytes) {
        text::lossy_text(probe.stderr.bytes.as_slice())
    } else {
        text::lossy_text(probe.stdout.bytes.as_slice())
    };
    let line = text::squeeze(all.as_str());
    judge_probe_line(producer, executable, launcher_script, probe, line.as_str())
}

/// A binding of a profile, as it is before it is entered.
pub open spec fn binds(
    b: ProviderBinding,
    project_key: Seq<char>,
    profile: SemanticProviderProfile,
    executable: ProviderArtifact,
    script: Option<ProviderArtifact>,
    manifest: Option<String>,
    version: Seq<char>,
) -> bool {
    &&& b.registration_id@ == provider::registration_of(
        project_key,
        profile.id@,
        profile.producer@,
        executable,
        script,
        model::opt_view(manifest),
    )
    &&& b.revision == 1
    &&& b.project_key@ == project_key
    &&& b.profile_id == profile.id
    &&& b.producer == profile.producer
    &&& b.executable == executable
    &&& b.launcher_script == script
    &&& b.launcher_package_manifest_sha256 == manifest
    &&& b.resolved_version@ == version
}

/// A binding of a profile.
pub fn new_binding(
    project_key: &str,
    profile: &SemanticProviderProfile,
    executable: ProviderArtifact,
    launcher_script: Option<ProviderArtifact>,
    manifest: Option<String>,
    version: &str,
) -> (r: ProviderBinding)
    ensures
        binds(r, project_key@, *profile, executable, launcher_script, manifest, version@),
{
    let id = provider::registration_id(
        project_key,
        profile.id.as_str(),
        profile.producer.as_str(),
        &executable,
        &launcher_script,
        &manifest,
    );
    ProviderBinding {
        registration_id: id,
        revision: 1,
        project_key: project_key.to_owned(),
        profile_id: profile.id.clone(),
        producer: profile.producer.clone(),
        executable,
        launcher_script,
        launcher_package_manifest_sha256: manifest,
        resolved_version: version.to_owned(),
    }
}

/// A report tells of a binding.
pub open spec fn bind_report_says(r: ProviderBindReport, b: ProviderBinding, changed: bool) -> bool {
    &&& r.schema_version == provider::PROVIDER_SCHEMA_VERSION
    &&& r.project_key == b.project_key
    &&& r.profile_id == b.profile_id
    &&& r.producer == b.producer
    &&& r.executable == b.executable.canonical_path
    &&& r.launcher_script == match b.launcher_script {
        Some(script) => Some(script.canonical_path),
        None => None,
    }
    &&& r.launcher_package_manifest_sha256 == b.launcher_package_manifest_sha256
    &&& r.executable_sha256 == b.executable.sha256
    &&& r.resolved_version == b.resolved_version
    &&& r.registration_id == b.registration_id
    &&& r.revision == b.revision
    &&& r.changed == changed
}

/// Enter a binding into the registry and tell of it.
pub fn finish_bind(
    registry: ProviderRegistry,
    binding: ProviderBinding,
    profile_id: &str,
    replace: bool,
) -> (r: Result<(ProviderRegistry, ProviderBindReport), AppError>)
    ensures
        match provider::entered(
            registry.bindings@,
            binding,
            binding.project_key@,
            profile_id@,
            replace,
        ) {
            Err(e) => r matches Err(x) && x@ == e,
            Ok(e) => r matches Ok(x) && {
                &&& x.0.schema_version == registry.schema_version
                &&& x.0.bindings@ == e.bindings
                &&& bind_report_says(x.1, e.binding, e.changed)
            },
        },
{
    let schema_version = registry.schema_version;
    let project_key = binding.project_key.clone();
    let entered = match provider::enter_binding(
        registry.bindings,
        binding,
        project_key.as_str(),
        profile_id,
        replace,
    ) {
        Err(e) => {
            return Err(e);
        },
        Ok(entered) => entered,
    };
    let b = entered.binding;
    let report = ProviderBindReport {
        schema_version: provider::PROVIDER_SCHEMA_VERSION,
        project_key: b.project_key,
        profile_id: b.profile_id,
        producer: b.producer,
        executable: b.executable.canonical_path,
        launcher_script: match b.launcher_script {
            Some(script) => Some(script.canonical_path),
            None => None,
        },
        launcher_package_manifest_sha256: b.launcher_package_manifest_sha256,
        executable_sha256: b.executable.sha256,
        resolved_version: b.resolved_version,
        registration_id: b.registration_id,
        revision: b.revision,
        changed: entered.changed,
    };
    Ok((ProviderRegistry { schema_version, bindings: entered.bindings }, report))
}

/// What was just bound is trusted as long as its files stay what they are:
/// the name of a new binding stands for its content.
pub proof fn new_bindings_are_valid(
    b: ProviderBinding,
    project_key: Seq<char>,
    profile: SemanticProviderProfile,
    executable: ProviderArtifact,
    script: Option<ProviderArtifact>,
    manifest: Option<String>,
    version: Seq<char>,
    facts: BindingFacts,
)
    requires
        binds(b, project_key, profile, executable, script, manifest, version),
        facts.executable.present && facts.executable.sha256 is Ok,
        facts.executable.sha256->Ok_0@ == executable.sha256@,
        !facts.executable.inside_repository,
        script is Some ==> facts.script.present && facts.script.sha256 is Ok
            && facts.script.sha256->Ok_0@ == script->0.sha256@ && !facts.script.inside_repository,
        script is Some <==> manifest is Some,
        script is Some ==> provider::is_producer(profile.producer@, "scip-python"@)
            && facts.package is Ok && facts.package->Ok_0@ == manifest->0@,
    ensures
        provider::use_refusal(b, profile, facts) is None,
{
}

// ---------------------------------------------------------------------------
// The audit log
// ---------------------------------------------------------------------------

/// One line of the audit log.
#[derive(Debug, Clone, PartialEq, Eq)]
pub struct ProviderAuditRecord {
    pub schema_version: u32,
    pub timestamp_unix_ms: u128,
    pub project_key: String,
    pub profile_id: String,
    pub stage: String,
    pub outcome: String,
    pub duration_ms: Option<u128>,
    pub exit_code: Option<i32>,
    pub stdout_bytes: Option<usize>,
    pub stderr_bytes: Option<usize>,
    pub stdout_truncated: Option<bool>,
    pub stderr_truncated: Option<bool>,
    pub stdout_sha256: Option<String>,
    pub stderr_sha256: Option<String>,
    pub registration_id: Option<String>,
    pub registration_revision: Option<u64>,
    pub executable_sha256: Option<String>,
    pub artifact_sha256: Option<String>,
    pub source_fingerprint_before: Option<String>,
    pub source_fingerprint_after: Option<String>,
    pub failure_kind: Option<String>,
}

/// A record says when what came out how.
pub open spec fn record_heads(
    r: ProviderAuditRecord,
    timestamp: u128,
    project_key: Seq<char>,
    profile_id: Seq<char>,
    stage: Seq<char>,
    note: NoteView,
) -> bool {
    &&& r.schema_version == provider::PROVIDER_SCHEMA_VERSION
    &&& r.timestamp_unix_ms == timestamp
    &&& r.project_key@ == project_key
    &&& r.profile_id@ == profile_id
    &&& r.stage@ == stage
    &&& r.outcome@ == note.outcome
    &&& model::opt_view(r.failure_kind) == note.failure_kind
}

/// A record tells nothing of a process.
pub open spec fn tells_no_process(r: ProviderAuditRecord) -> bool {
    &&& r.duration_ms is None && r.exit_code is None
    &&& r.stdout_bytes is None && r.stderr_bytes is None
    &&& r.stdout_truncated is None && r.stderr_truncated is None
    &&& r.stdout_sha256 is None && r.stderr_sha256 is None
}

/// A record tells of a process.
pub open spec fn tells_process(r: ProviderAuditRecord, process: ProcessResult) -> bool {
    &&& r.duration_ms == Some(process.duration_ms)
    &&& r.exit_code == process.status.code
    &&& r.stdout_bytes == Some(process.stdout.total_bytes)
    &&& r.stderr_bytes == Some(process.stderr.total_bytes)
    &&& r.stdout_truncated == Some(process.stdout.truncated)
    &&& r.stderr_truncated == Some(process.stderr.truncated)
    &&& r.stdout_sha256 == Some(process.stdout.sha256)
    &&& r.stderr_sha256 == Some(process.stderr.sha256)
}

/// A record tells nothing of a registration.
pub open spec fn tells_no_registration(r: ProviderAuditRecord) -> bool {
    &&& r.registration_id is None && r.registration_revision is None
    &&& r.executable_sha256 is None && r.artifact_sha256 is None
    &&& r.source_fingerprint_before is None && r.source_fingerprint_after is None
}

/// The record of a process.
pub fn audit_for_process(
    timestamp: u128,
    project_key: &str,
    profile_id: &str,
    stage: &str,
    note: Note,
    process: &ProcessResult,
) -> (r: ProviderAuditRecord)
    ensures
        record_heads(r, timestamp, project_key@, profile_id@, stage@, note@),
        tells_process(r, *process),
        tells_no_registration(r),
{
    ProviderAuditRecord {
        schema_version: provider::PROVIDER_SCHEMA_VERSION,
        timestamp_unix_ms: timestamp,
        project_key: project_key.to_owned(),
        profile_id: profile_id.to_owned(),
        stage: stage.to_owned(),
        outcome: note.outcome,
        duration_ms: Some(process.duration_ms),
        exit_code: process.status.code,
        stdout_bytes: Some(process.stdout.total_bytes),
        stderr_bytes: Some(process.stderr.total_bytes),
        stdout_truncated: Some(process.stdout.truncated),
        stderr_truncated: Some(process.stderr.truncated),
        stdout_sha256: Some(process.stdout.sha256.clone()),
        stderr_sha256: Some(process.stderr.sha256.clone()),
        registration_id: None,
        registration_revision: None,
        executable_sha256: None,
        artifact_sha256: None,
        source_fingerprint_before: None,
        source_fingerprint_after: None,
        failure_kind: note.failure_kind,
    }
}

/// The record of a process that could not be started or did not end in time.
pub fn audit_for_missing_process(
    timestamp: u128,
    project_key: &str,
    profile_id: &str,
    binding: &ProviderBinding,
    source_fingerprint_before: &str,
) -> (r: ProviderAuditRecord)
    ensures
        record_heads(
            r,
            timestamp,
            project_key@,
            profile_id@,
            "index_process"@,
            failed("spawn_or_timeout"@),
        ),
        tells_no_process(r),
        r.registration_id == Some(binding.registration_id),
        r.registration_revision == Some(binding.revision),
        r.executable_sha256 == Some(binding.executable.sha256),
        r.artifact_sha256 is None,
        model::opt_view(r.source_fingerprint_before) == Some(source_fingerprint_before@),
        r.source_fingerprint_after is None,
{
    ProviderAuditRecord {
        schema_version: provider::PROVIDER_SCHEMA_VERSION,
        timestamp_unix_ms: timestamp,
        project_key: project_key.to_owned(),
        profile_id: profile_id.to_owned(),
        stage: "index_process".to_owned(),
        outcome: "failed".to_owned(),
        duration_ms: None,
        exit_code: None,
        stdout_bytes: None,
        stderr_bytes: None,
        stdout_truncated: None,
        stderr_truncated: None,
        stdout_sha256: None,
        stderr_sha256: None,
        registration_id: Some(binding.registration_id.clone()),
        registration_revision: Some(binding.revision),
        executable_sha256: Some(binding.executable.sha256.clone()),
        artifact_sha256: None,
        source_fingerprint_before: Some(source_fingerprint_before.to_owned()),
        source_fingerprint_after: None,
        failure_kind: Some("spawn_or_timeout".to_owned()),
    }
}

/// Where the first line break at or after a place is.
pub open spec fn line_break_from(bytes: Seq<u8>, from: int) -> Option<int>
    decreases bytes.len() - from,
{
    if from < 0 || from >= bytes.len() {
        None
    } else if bytes[from] == 10u8 {
        Some(from)
    } else {
        line_break_from(bytes, from + 1)
    }
}

/// Where what is kept of a log begins: behind the first line break of the
/// part that may be kept, or at the beginning of that part where it has none.
pub open spec fn kept_from(bytes: Seq<u8>) -> int {
    let start = if bytes.len() > provider::AUDIT_RETAIN_BYTES {
        bytes.len() - provider::AUDIT_RETAIN_BYTES
    } else {
        0
    };
    match line_break_from(bytes, start) {
        Some(i) => i + 1,
        None => start,
    }
}

/// Whether the log is cut before a line is added.
pub fn log_is_full(len: u64) -> (r: bool)
    ensures
        r == (len > provider::MAX_AUDIT_BYTES),
{
    len > provider::MAX_AUDIT_BYTES
}

/// A log that was cut, with a line added.
pub fn retained_log(bytes: &Vec<u8>, line: &Vec<u8>) -> (r: Vec<u8>)
    ensures
        0 <= kept_from(bytes@) <= bytes@.len(),
        r@ == bytes@.skip(kept_from(bytes@)) + line@,
{
    let start: usize = if bytes.len() > provider::AUDIT_RETAIN_BYTES {
        bytes.len() - provider::AUDIT_RETAIN_BYTES
    } else {
        0
    };
    let mut i: usize = start;
    while i < bytes.len() && bytes[i] != 10u8
        invariant
            start <= i <= bytes@.len(),
            line_break_from(bytes@, start as int) == line_break_from(bytes@, i as int),
        decreases bytes@.len() - i,
    {
        i = i + 1;
    }
    let from: usize = if i < bytes.len() {
        i + 1
    } else {
        start
    };
    assert(from == kept_from(bytes@));
    let mut out: Vec<u8> = Vec::new();
    let mut k: usize = from;
    while k < bytes.len()
        invariant
            from <= k <= bytes@.len(),
            out@ == bytes@.subrange(from as int, k as int),
        decreases bytes@.len() - k,
    {
        out.push(bytes[k]);
        assert(bytes@.subrange(from as int, k + 1) =~= bytes@.subrange(
            from as int,
            k as int,
        ).push(bytes@[k as int]));
        k = k + 1;
    }
    assert(out@ =~= bytes@.skip(from as int));
    digest::append_bytes(&mut out, line.as_slice());
    out
}

proof fn line_break_found(bytes: Seq<u8>, from: int)
    requires
        0 <= from,
    ensures
        match line_break_from(bytes, from) {
            Some(i) => from <= i < bytes.len() && bytes[i] == 10u8,
            None => true,
        },
    decreases bytes.len() - from,
{
    if from < bytes.len() && bytes[from] != 10u8 {
        line_break_found(bytes, from + 1);
    }
}

/// A log that was cut holds no more than may be kept and the new line, and
/// begins with a whole line wherever a line begins in what may be kept.
pub proof fn cut_logs_are_short_and_whole(bytes: Seq<u8>, line: Seq<u8>)
    ensures
        (bytes.skip(kept_from(bytes)) + line).len() <= provider::AUDIT_RETAIN_BYTES + line.len(),
        ({
            let start = if bytes.len() > provider::AUDIT_RETAIN_BYTES {
                bytes.len() - provider::AUDIT_RETAIN_BYTES
            } else {
                0
            };
            line_break_from(bytes, start) is Some ==> kept_from(bytes) > 0
                && bytes[kept_from(bytes) - 1] == 10u8
        }),
{
    let start = if bytes.len() > provider::AUDIT_RETAIN_BYTES {
        bytes.len() - provider::AUDIT_RETAIN_BYTES
    } else {
        0
    };
    line_break_found(bytes, start);
}

// ---------------------------------------------------------------------------
// Running
// ---------------------------------------------------------------------------

/// Why a profile is not indexed.
pub open spec fn execute_refusal(
    bindings: Seq<ProviderBinding>,
    project_key: Seq<char>,
    profile_id: Seq<char>,
) -> Option<ErrorView> {
    if provider::first_binding(bindings, project_key, profile_id) is None {
        Some(
            ErrorView::Provider(
                "profile="@ + profile_id + " 尚未在本机绑定；请先执行 provider bind"@,
            ),
        )
    } else {
        None
    }
}

/// The binding with which a profile is indexed.
pub fn binding_to_run<'a>(
    bindings: &'a Vec<ProviderBinding>,
    project_key: &str,
    profile: &SemanticProviderProfile,
) -> (r: Result<&'a ProviderBinding, AppError>)
    ensures
        error::follows(r, execute_refusal(bindings@, project_key@, profile.id@)),
        r is Ok ==> provider::first_binding(bindings@, project_key@, profile.id@) == Some(
            *r->Ok_0,
        ),
{
    match provider::find_binding(bindings, project_key, profile.id.as_str()) {
        Some(binding) => Ok(binding),
        None => Err(
            AppError::Provider(
                text::cat3(
                    "profile=",
                    profile.id.as_str(),
                    " 尚未在本机绑定；请先执行 provider bind",
                ),
            ),
        ),
    }
}

/// The short name of a worktree, given the bytes of its path.
pub fn digest_path(path: &[u8]) -> (r: String)
    ensures
        r@ == digest::sha256_hex(path@).take(16),
{
    let hex = digest::hash_bytes(path);
    let short = text::shorten(hex.as_str(), 16);
    short
}

/// The name of the lock under which a worktree is indexed.
pub fn lock_name(project_key: &str, profile_id: &str, worktree_key: &str) -> (r: String)
    ensures
        r@ == project_key@ + "--"@ + profile_id@ + "--"@ + worktree_key@ + ".lock"@,
{
    let mut out = text::cat5(project_key, "--", profile_id, "--", worktree_key);
    out.append(".lock");
    out
}

/// The name of the directory that an index is written to.
pub fn run_directory(project_key: &str, profile_id: &str, process_id: u64, nonce: &str) -> (r:
    String)
    ensures
        r@ == project_key@ + "--"@ + profile_id@ + "--"@ + text::decimal(process_id as nat)
            + "--"@ + nonce@,
{
    let id = text::decimal_text(process_id);
    let mut out = text::cat5(project_key, "--", profile_id, "--", id.as_str());
    out.append("--");
    out.append(nonce);
    out
}

/// What is found of the index that a provider wrote: whether there is one, or
/// why it cannot be told, whether it is a link or no regular file, and how
/// long it is.
#[derive(Debug, PartialEq, Eq)]
pub struct OutputFacts {
    pub regular: Result<bool, String>,
    pub len: u64,
}

/// Why an index is not taken in.
pub open spec fn output_refusal(facts: OutputFacts) -> Option<ErrorView> {
    match facts.regular {
        Err(error) => Some(ErrorView::Provider("Provider 未生成 index.scip："@ + error@)),
        Ok(regular) => if !regular {
            Some(
                ErrorView::Provider(
                    "Provider 输出必须是隔离目录中的普通文件，不能是链接"@,
                ),
            )
        } else if facts.len == 0 || facts.len > provider::MAX_SCIP_BYTES {
            Some(
                ErrorView::Provider(
                    "Provider 输出大小非法："@ + text::decimal(facts.len as nat)
                        + " bytes（允许 1..="@ + text::decimal(provider::MAX_SCIP_BYTES as nat)
                        + "）"@,
                ),
            )
        } else {
            None
        },
    }
}

/// Whether an index may be taken in.
pub fn validate_output(facts: &OutputFacts) -> (r: Result<(), AppError>)
    ensures
        error::follows(r, output_refusal(*facts)),
{
    match &facts.regular {
        Err(error) => Err(
            AppError::Provider(text::cat2("Provider 未生成 index.scip：", error.as_str())),
        ),
        Ok(regular) => {
            if !*regular {
                return Err(
                    AppError::Provider(
                        "Provider 输出必须是隔离目录中的普通文件，不能是链接".to_owned(),
                    ),
                );
            }
            if facts.len == 0 || facts.len > provider::MAX_SCIP_BYTES {
                let actual = text::decimal_text(facts.len);
                let limit = text::decimal_text(provider::MAX_SCIP_BYTES);
                return Err(
                    AppError::Provider(
                        text::cat5(
                            "Provider 输出大小非法：",
                            actual.as_str(),
                            " bytes（允许 1..=",
                            limit.as_str(),
                            "）",
                        ),
                    ),
                );
            }
            Ok(())
        },
    }
}

/// Why the end of an index run is an error, with what is noted of it.
pub open spec fn process_refusal(profile_id: Seq<char>, process: ProcessResult) -> Option<
    ErrorView,
> {
    if process.status.well() {
        None
    } else {
        Some(
            ErrorView::Provider(
                "provider profile="@ + profile_id + " 退出失败，exit_code="@ + text::shown_code(
                    process.status.code,
                ) + "，stdout_sha256="@ + process.stdout.sha256@ + "，stderr_sha256="@
                    + process.stderr.sha256@,
            ),
        )
    }
}

/// What is made of how an index run ended: nothing further where it ended
/// well, and else the note and the error.
pub fn judge_process(profile_id: &str, process: &ProcessResult) -> (r: Result<
    (),
    (Note, AppError),
>)
    ensures
        match r {
            Ok(()) => process_refusal(profile_id@, *process) is None,
            Err(e) => e.0@ == failed("non_zero_exit"@) && process_refusal(profile_id@, *process)
                == Some(e.1@),
        },
{
    if process.status.success() {
        return Ok(());
    }
    let shown = text::show_code(process.status.code);
    let mut line = text::cat5(
        "provider profile=",
        profile_id,
        " 退出失败，exit_code=",
        shown.as_str(),
        "，stdout_sha256=",
    );
    line.append(process.stdout.sha256.as_str());
    line.append("，stderr_sha256=");
    line.append(process.stderr.sha256.as_str());
    Err((failure("non_zero_exit"), AppError::Provider(line)))
}

/// What is made of the source after an index run: an index of a source that
/// changed meanwhile is thrown away.
pub fn judge_source(before: &str, after: &str) -> (r: Result<(), (Note, AppError)>)
    ensures
        match r {
            Ok(()) => before@ == after@,
            Err(e) => before@ != after@ && e.0@ == failed("source_changed"@) && e.1@
                == ErrorView::Provider("源码在 Provider 索引期间发生变化；输出已丢弃"@),
        },
{
    if text::same(before, after) {
        return Ok(());
    }
    Err(
        (
            failure("source_changed"),
            AppError::Provider("源码在 Provider 索引期间发生变化；输出已丢弃".to_owned()),
        ),
    )
}

/// A run that gave an index.
#[derive(Debug, Clone, PartialEq, Eq)]
pub struct ProviderRun {
    pub temp_dir: String,
    pub output_path: String,
    pub report: ProviderExecutionReport,
}

/// A report tells of a run.
pub open spec fn run_report_says(
    r: ProviderExecutionReport,
    project_key: Seq<char>,
    profile: SemanticProviderProfile,
    binding: ProviderBinding,
    process: ProcessResult,
    artifact_sha256: Seq<char>,
    output_bytes: u64,
    source: Seq<char>,
) -> bool {
    &&& r.schema_version == provider::PROVIDER_SCHEMA_VERSION
    &&& r.project_key@ == project_key
    &&& r.profile_id == profile.id
    &&& r.producer == profile.producer
    &&& r.registration_id == binding.registration_id
    &&& r.registration_revision == binding.revision
    &&& r.executable_sha256 == binding.executable.sha256
    &&& r.launcher_package_manifest_sha256 == binding.launcher_package_manifest_sha256
    &&& r.resolved_version == binding.resolved_version
    &&& r.duration_ms == process.duration_ms
    &&& r.exit_code == process.status.code
    &&& r.stdout_bytes == process.stdout.total_bytes
    &&& r.stderr_bytes == process.stderr.total_bytes
    &&& r.stdout_truncated == process.stdout.truncated
    &&& r.stderr_truncated == process.stderr.truncated
    &&& r.stdout_sha256 == process.stdout.sha256
    &&& r.stderr_sha256 == process.stderr.sha256
    &&& r.artifact_sha256@ == artifact_sha256
    &&& r.output_bytes == output_bytes
    &&& r.source_fingerprint_before@ == source
    &&& r.source_fingerprint_after@ == source
}

/// An index that may be taken in: what ended well, on a source that stayed as
/// it was, and wrote a regular file within the limits.
pub fn finish_execution(
    project_key: &str,
    profile: &SemanticProviderProfile,
    binding: ProviderBinding,
    process: &ProcessResult,
    output: &OutputFacts,
    artifact_sha256: &str,
    source_before: &str,
    source_after: &str,
    temp_dir: &str,
    output_path: &str,
) -> (r: Result<(ProviderRun, Note), AppError>)
    requires
        process.status.well(),
        source_before@ == source_after@,
    ensures
        error::follows(r, output_refusal(*output)),
        r matches Ok(x) ==> {
            &&& x.0.temp_dir@ == temp_dir@
            &&& x.0.output_path@ == output_path@
            &&& x.1@ == succeeded()
            &&& run_report_says(
                x.0.report,
                project_key@,
                *profile,
                binding,
                *process,
                artifact_sha256@,
                output.len,
                source_after@,
            )
        },
{
    match validate_output(output) {
        Err(e) => {
            return Err(e);
        },
        Ok(()) => {},
    }
    let report = ProviderExecutionReport {
        schema_version: provider::PROVIDER_SCHEMA_VERSION,
        project_key: project_key.to_owned(),
        profile_id: profile.id.clone(),
        producer: profile.producer.clone(),
        registration_id: binding.registration_id,
        registration_revision: binding.revision,
        executable_sha256: binding.executable.sha256,
        launcher_package_manifest_sha256: binding.launcher_package_manifest_sha256,
        resolved_version: binding.resolved_version,
        duration_ms: process.duration_ms,
        exit_code: process.status.code,
        stdout_bytes: process.stdout.total_bytes,
        stderr_bytes: process.stderr.total_bytes,
        stdout_truncated: process.stdout.truncated,
        stderr_truncated: process.stderr.truncated,
        stdout_sha256: process.stdout.sha256.clone(),
        stderr_sha256: process.stderr.sha256.clone(),
        artifact_sha256: artifact_sha256.to_owned(),
        output_bytes: output.len,
        source_fingerprint_before: source_before.to_owned(),
        source_fingerprint_after: source_after.to_owned(),
    };
    Ok(
        (
            ProviderRun {
                temp_dir: temp_dir.to_owned(),
                output_path: output_path.to_owned(),
                report,
            },
            success(),
        ),
    )
}

impl ProviderRun {
    pub fn output_path(&self) -> (r: &str)
        ensures
            r@ == self.output_path@,
    {
        self.output_path.as_str()
    }

    pub fn report(&self) -> (r: &ProviderExecutionReport)
        ensures
            *r == self.report,
    {
        &self.report
    }

    pub fn source_fingerprint(&self) -> (r: &str)
        ensures
            r@ == self.report.source_fingerprint_after@,
    {
        self.report.source_fingerprint_after.as_str()
    }

    pub fn registration_id(&self) -> (r: &str)
        ensures
            r@ == self.report.registration_id@,
    {
        self.report.registration_id.as_str()
    }

    pub fn executable_sha256(&self) -> (r: &str)
        ensures
            r@ == self.report.executable_sha256@,
    {
        self.report.executable_sha256.as_str()
    }

    pub fn artifact_sha256(&self) -> (r: &str)
        ensures
            r@ == self.report.artifact_sha256@,
    {
        self.report.artifact_sha256.as_str()
    }

    pub fn registration_revision(&self) -> (r: u64)
        ensures
            r == self.report.registration_revision,
    {
        self.report.registration_revision
    }
}

/// A record tells of a run and what became of its index.
pub open spec fn tells_run(
    r: ProviderAuditRecord,
    timestamp: u128,
    run: ProviderRun,
    stage: Seq<char>,
    note: NoteView,
) -> bool {
    &&& record_heads(
        r,
        timestamp,
        run.report.project_key@,
        run.report.profile_id@,
        stage,
        note,
    )
    &&& tells_no_process(r)
    &&& r.registration_id == Some(run.report.registration_id)
    &&& r.registration_revision == Some(run.report.registration_revision)
    &&& r.executable_sha256 == Some(run.report.executable_sha256)
    &&& r.artifact_sha256 == Some(run.report.artifact_sha256)
    &&& r.source_fingerprint_before == Some(run.report.source_fingerprint_before)
    &&& r.source_fingerprint_after == Some(run.report.source_fingerprint_after)
}

fn record_import_event(timestamp: u128, run: &ProviderRun, stage: &str, note: Note) -> (r:
    ProviderAuditRecord)
    ensures
        tells_run(r, timestamp, *run, stage@, note@),
{
    ProviderAuditRecord {
        schema_version: provider::PROVIDER_SCHEMA_VERSION,
        timestamp_unix_ms: timestamp,
        project_key: run.report.project_key.clone(),
        profile_id: run.report.profile_id.clone(),
        stage: stage.to_owned(),
        outcome: note.outcome,
        duration_ms: None,
        exit_code: None,
        stdout_bytes: None,
        stderr_bytes: None,
        stdout_truncated: None,
        stderr_truncated: None,
        stdout_sha256: None,
        stderr_sha256: None,
        registration_id: Some(run.report.registration_id.clone()),
        registration_revision: Some(run.report.registration_revision),
        executable_sha256: Some(run.report.executable_sha256.clone()),
        artifact_sha256: Some(run.report.artifact_sha256.clone()),
        source_fingerprint_before: Some(run.report.source_fingerprint_before.clone()),
        source_fingerprint_after: Some(run.report.source_fingerprint_after.clone()),
        failure_kind: note.failure_kind,
    }
}

/// The record of an index that was not taken in.
pub fn record_import_failure(timestamp: u128, run: &ProviderRun) -> (r: ProviderAuditRecord)
    ensures
        tells_run(
            r,
            timestamp,
            *run,
            "scip_import_or_commit"@,
            failed("validation_or_store"@),
        ),
{
    record_import_event(timestamp, run, "scip_import_or_commit", failure("validation_or_store"))
}

/// The record of an index that is about to be taken in.
pub fn record_import_prepared(timestamp: u128, run: &ProviderRun) -> (r: ProviderAuditRecord)
    ensures
        tells_run(r, timestamp, *run, "semantic_commit_prepared"@, succeeded()),
{
    record_import_event(timestamp, run, "semantic_commit_prepared", success())
}

/// The record of an index that was taken in.
pub fn record_import_committed(timestamp: u128, run: &ProviderRun) -> (r: ProviderAuditRecord)
    ensures
        tells_run(r, timestamp, *run, "semantic_commit"@, succeeded()),
{
    record_import_event(timestamp, run, "semantic_commit", success())
}

/// The record of an index that was only looked at.
pub fn record_stability_observed(timestamp: u128, run: &ProviderRun) -> (r: ProviderAuditRecord)
    ensures
        tells_run(r, timestamp, *run, "stability_probe"@, succeeded()),
{
    record_import_event(timestamp, run, "stability_probe", success())
}

// ---------------------------------------------------------------------------
// The surroundings of a run
// ---------------------------------------------------------------------------

/// The variables that are set for a program, and what they hold.
pub open spec fn set_variables() -> Seq<(Seq<char>, Seq<char>)> {
    seq![("NO_COLOR"@, "1"@), ("GIT_CONFIG_NOSYSTEM"@, "1"@)]
}

/// The variables that are set for a program, and what they hold: it writes no
/// colours, and Git reads no configuration of the machine for it.
pub fn fixed_environment() -> (r: Vec<(&'static str, &'static str)>)
    ensures
        r@.map_values(|v: (&'static str, &'static str)| (v.0@, v.1@)) == set_variables(),
{
    let fixed: Vec<(&'static str, &'static str)> = vec![
        ("NO_COLOR", "1"),
        ("GIT_CONFIG_NOSYSTEM", "1"),
    ];
    assert(fixed@.map_values(|v: (&'static str, &'static str)| (v.0@, v.1@)) =~= set_variables());
    fixed
}

/// The variables that a program sees of the surroundings, besides those that
/// are set for it and the search path.
pub open spec fn passed_variables() -> Seq<Seq<char>> {
    seq![
        "SystemRoot"@,
        "WINDIR"@,
        "USERPROFILE"@,
        "HOME"@,
        "TEMP"@,
        "TMP"@,
        "TMPDIR"@,
        "PATHEXT"@,
        "DOTNET_ROOT"@,
        "NUGET_PACKAGES"@,
        "CARGO_HOME"@,
        "RUSTUP_HOME"@,
        "RUSTC"@,
        "VIRTUAL_ENV"@,
        "LANG"@,
        "LC_ALL"@,
        "SSL_CERT_FILE"@,
        "SSL_CERT_DIR"@,
        "ProgramFiles"@,
        "ProgramFiles(x86)"@,
        "ProgramData"@,
        "CommonProgramFiles"@,
    ]
}

/// The variables that are passed on.
pub fn provider_environment() -> (r: Vec<&'static str>)
    ensures
        text::str_views(r@) == passed_variables(),
{
    let names: Vec<&'static str> = vec![
        "SystemRoot", "WINDIR", "USERPROFILE", "HOME", "TEMP", "TMP", "TMPDIR", "PATHEXT",
        "DOTNET_ROOT", "NUGET_PACKAGES", "CARGO_HOME", "RUSTUP_HOME", "RUSTC", "VIRTUAL_ENV",
        "LANG", "LC_ALL", "SSL_CERT_FILE", "SSL_CERT_DIR", "ProgramFiles", "ProgramFiles(x86)",
        "ProgramData", "CommonProgramFiles",
    ];
    assert(text::str_views(names@) =~= passed_variables());
    names
}

/// A directory of the search path: how it is written, and whether it leads
/// into the repository.
#[derive(Debug, Clone, PartialEq, Eq)]
pub struct PathEntry {
    pub written: String,
    pub inside_repository: bool,
}

/// A directory of the search path is kept: it is named, is not the current
/// one, and does not lead into the repository.
pub open spec fn path_entry_kept(entry: PathEntry) -> bool {
    entry.written@.len() > 0 && entry.written@ != "."@ && !entry.inside_repository
}

/// The directories of the search path that a program sees.
pub open spec fn search_path(entries: Seq<PathEntry>) -> Seq<Seq<char>>
    decreases entries.len(),
{
    if entries.len() == 0 {
        Seq::empty()
    } else {
        let before = search_path(entries.drop_last());
        if path_entry_kept(entries.last()) {
            before.push(entries.last().written@)
        } else {
            before
        }
    }
}

/// The directories of the search path that a program sees.
pub fn sanitized_path(entries: &Vec<PathEntry>) -> (r: Vec<String>)
    ensures
        text::views(r@) == search_path(entries@),
{
    let mut out: Vec<String> = Vec::new();
    let mut i: usize = 0;
    assert(entries@.take(0) =~= Seq::<PathEntry>::empty());
    assert(text::views(out@) =~= Seq::<Seq<char>>::empty());
    while i < entries.len()
        invariant
            i <= entries@.len(),
            text::views(out@) == search_path(entries@.take(i as int)),
        decreases entries@.len() - i,
    {
        assert(entries@.take(i + 1).drop_last() =~= entries@.take(i as int));
        let named = text::chars_of(entries[i].written.as_str()).len() > 0;
        if named && !text::same(entries[i].written.as_str(), ".")
            && !entries[i].inside_repository {
            let ghost before = text::views(out@);
            out.push(entries[i].written.clone());
            assert(text::views(out@) =~= before.push(entries@[i as int].written@));
        }
        i = i + 1;
    }
    assert(entries@.take(entries@.len() as int) =~= entries@);
    out
}

/// No program is found in the repository that it is run on: nothing of the
/// search path leads into it.
pub proof fn search_path_avoids_the_repository(entries: Seq<PathEntry>, written: Seq<char>)
    requires
        search_path(entries).contains(written),
    ensures
        exists|i: int|
            0 <= i < entries.len() && (#[trigger] entries[i]).written@ == written
                && !entries[i].inside_repository,
    decreases entries.len(),
{
    if entries.len() > 0 {
        let init = entries.drop_last();
        let k = choose|k: int|
            0 <= k < search_path(entries).len() && search_path(entries)[k] == written;
        if path_entry_kept(entries.last()) && k == search_path(init).len() {
            assert(entries[entries.len() - 1].written@ == written);
        } else {
            assert(search_path(init)[k] == written);
            search_path_avoids_the_repository(init, written);
            let i = choose|i: int|
                0 <= i < init.len() && (#[trigger] init[i]).written@ == written
                    && !init[i].inside_repository;
            assert(entries[i] == init[i]);
        }
    }
}

/// A probed program is taken for the producer wherever the producer's name
/// stands in the path of the executable, in its version or in the path of the
/// script, whatever the case of the letters.
pub proof fn named_programs_are_recognised(
    producer: Seq<char>,
    executable: ProviderArtifact,
    script: Option<ProviderArtifact>,
    version: Seq<char>,
)
    ensures
        text::occurs(text::lowered(version), text::lowered(producer)) ==> identity_refusal(
            producer,
            executable,
            script,
            version,
        ) is None,
        text::occurs(text::lowered(executable.canonical_path@), text::lowered(producer))
            ==> identity_refusal(producer, executable, script, version) is None,
        script is Some && text::occurs(
            text::lowered(script->0.canonical_path@),
            text::lowered(producer),
        ) ==> identity_refusal(producer, executable, script, version) is None,
        identity_refusal(producer, executable, None, version) is None <==> text::occurs(
            text::lowered(executable.canonical_path@ + " "@ + version),
            text::lowered(producer),
        ),
{
    let p = text::lowered(producer);
    let path = executable.canonical_path@;
    let whole = identity_of(executable, script, version);
    let gap = text::lowered(" "@);
    let back = match script {
        Some(s) => seq![' '] + text::lowered(s.canonical_path@),
        None => Seq::<char>::empty(),
    };
    let a = text::lowered(path);
    let v = text::lowered(version);
    assert(text::lowered(path + " "@ + version) =~= a + gap + v);
    assert(whole =~= (a + gap) + v + back);
    assert(whole =~= Seq::<char>::empty() + a + (gap + v + back));
    if text::occurs(v, p) {
        text::longer_texts_hold_as_much(v, a + gap, back, p);
    }
    if text::occurs(a, p) {
        text::longer_texts_hold_as_much(a, Seq::empty(), gap + v + back, p);
    }
    if let Some(s) = script {
        let low = text::lowered(s.canonical_path@);
        assert(whole =~= (a + gap + v + seq![' ']) + low + Seq::<char>::empty());
        if text::occurs(low, p) {
            text::longer_texts_hold_as_much(low, a + gap + v + seq![' '], Seq::empty(), p);
        }
    }
}

/// What a provider wrote is taken exactly where it is a regular file that holds
/// something and no more than the limit, and its run exactly where it ended with
/// code zero; a profile is bound only with trust, and run only where it is
/// declared and its producer is known.
pub proof fn only_whole_runs_are_taken(
    facts: OutputFacts,
    id: Seq<char>,
    process: ProcessResult,
    trusted: bool,
    profiles: Seq<SemanticProviderProfile>,
)
    ensures
        output_refusal(facts) is None <==> facts.regular == Ok::<bool, String>(true) && 0
            < facts.len <= 536870912,
        process_refusal(id, process) is None <==> process.status.code == Some(0i32),
        run_refusal(profiles, id) is None <==> provider::first_profile(profiles, id) is Some
            && provider::producer_refusal(
            provider::first_profile(profiles, id)->0.producer@,
        ) is None,
        bind_refusal(trusted, profiles, id) is None <==> trusted && run_refusal(
            profiles,
            id,
        ) is None,
{
}

/// A version is read exactly where the probe ended with code zero and said
/// something, and it is of a program that was recognised.
pub proof fn versions_come_from_good_probes(
    producer: Seq<char>,
    executable: ProviderArtifact,
    script: Option<ProviderArtifact>,
    probe: ProcessResult,
    line: Seq<char>,
)
    ensures
        probe_outcome(producer, executable, script, probe, line).1 is Ok <==> probe.status.code
            == Some(0i32) && line.len() > 0 && identity_refusal(
            producer,
            executable,
            script,
            text::shortened(line, 512),
        ) is None,
        probe_outcome(producer, executable, script, probe, line).1 is Ok ==> probe_outcome(
            producer,
            executable,
            script,
            probe,
            line,
        ).1->Ok_0 == text::shortened(line, 512),
{
}

/// The search path keeps, in their order, all entries that say something, are
/// not the current directory and lie outside the repository.
pub proof fn outside_entries_are_searched(entries: Seq<PathEntry>)
    ensures
        search_path(entries) == entries.filter(
            |e: PathEntry|
                e.written@.len() > 0 && e.written@ != "."@ && !e.inside_repository,
        ).map_values(|e: PathEntry| e.written@),
    decreases entries.len(),
{
    reveal(Seq::filter);
    let kept = |e: PathEntry| e.written@.len() > 0 && e.written@ != "."@ && !e.inside_repository;
    let told = |e: PathEntry| e.written@;
    if entries.len() > 0 {
        let init = entries.drop_last();
        outside_entries_are_searched(init);
        if kept(entries.last()) {
            assert(entries.filter(kept) =~= init.filter(kept).push(entries.last()));
            assert(entries.filter(kept).map_values(told) =~= init.filter(kept).map_values(
                told,
            ).push(entries.last().written@));
        } else {
            assert(entries.filter(kept) =~= init.filter(kept));
        }
    } else {
        assert(search_path(entries) =~= entries.filter(kept).map_values(told));
    }
}

} // verus!
