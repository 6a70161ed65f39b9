//! Semantic providers: which programs a machine trusts to index a project,
//! under which registration, and what a run of one gives.
use crate::digest;
use crate::error::{self, AppError, ErrorView};
use crate::execution;
use crate::json;
use crate::model;
use crate::order;
use crate::sorting::{self, Named};
use crate::symbols::ProviderTrustStatus;
use crate::text;
use vstd::prelude::*;

verus! {

broadcast use {vstd::string::group_string_axioms, vstd::seq::group_seq_axioms};

pub const PROVIDER_SCHEMA_VERSION: u32 = 1;

/// The largest index that is taken in.
pub const MAX_SCIP_BYTES: u64 = 536870912;

/// The size at which the audit log is cut, and what is kept of it.
pub const MAX_AUDIT_BYTES: u64 = 4194304;

pub const AUDIT_RETAIN_BYTES: usize = 2097152;

/// The largest launcher package that is taken stock of.
pub const MAX_LAUNCHER_PACKAGE_FILES: usize = 20000;

pub const MAX_LAUNCHER_PACKAGE_BYTES: u64 = 536870912;

/// A semantic provider as the repository declares it.
#[derive(Debug, Clone, PartialEq, Eq)]
pub struct SemanticProviderProfile {
    pub id: String,
    pub producer: String,
}

/// A file that is trusted as it was when it was pinned.
#[derive(Debug, Clone, PartialEq, Eq)]
pub struct ProviderArtifact {
    pub canonical_path: String,
    pub sha256: String,
}

/// What a machine trusts to index a project for a profile.
#[derive(Debug, Clone, PartialEq, Eq)]
pub struct ProviderBinding {
    pub registration_id: String,
    pub revision: u64,
    pub project_key: String,
    pub profile_id: String,
    pub producer: String,
    pub executable: ProviderArtifact,
    pub launcher_script: Option<ProviderArtifact>,
    pub launcher_package_manifest_sha256: Option<String>,
    pub resolved_version: String,
}

#[derive(Debug, Clone, PartialEq, Eq)]
pub struct ProviderRegistry {
    pub schema_version: u32,
    pub bindings: Vec<ProviderBinding>,
}

#[derive(Debug, Clone, PartialEq, Eq)]
pub struct ProviderBindReport {
    pub schema_version: u32,
    pub project_key: String,
    pub profile_id: String,
    pub producer: String,
    pub executable: String,
    pub launcher_script: Option<String>,
    pub launcher_package_manifest_sha256: Option<String>,
    pub executable_sha256: String,
    pub resolved_version: String,
    pub registration_id: String,
    pub revision: u64,
    pub changed: bool,
}

#[derive(Debug, Clone, PartialEq, Eq)]
pub struct ProviderUnbindReport {
    pub schema_version: u32,
    pub project_key: String,
    pub profile_id: String,
    pub changed: bool,
}

#[derive(Debug, Clone, PartialEq, Eq)]
pub struct ProviderListReport {
    pub schema_version: u32,
    pub project_key: String,
    pub profiles: Vec<ProviderStatus>,
}

#[derive(Debug, Clone, PartialEq, Eq)]
pub struct ProviderStatus {
    pub profile_id: String,
    pub producer: String,
    pub state: String,
    pub executable: Option<String>,
    pub launcher_script: Option<String>,
    pub resolved_version: Option<String>,
    pub issue: Option<String>,
}

#[derive(Debug, Clone, PartialEq, Eq)]
pub struct ProviderExecutionReport {
    pub schema_version: u32,
    pub project_key: String,
    pub profile_id: String,
    pub producer: String,
    pub registration_id: String,
    pub registration_revision: u64,
    pub executable_sha256: String,
    pub launcher_package_manifest_sha256: Option<String>,
    pub resolved_version: String,
    pub duration_ms: u128,
    pub exit_code: Option<i32>,
    pub stdout_bytes: usize,
    pub stderr_bytes: usize,
    pub stdout_truncated: bool,
    pub stderr_truncated: bool,
    pub stdout_sha256: String,
    pub stderr_sha256: String,
    pub artifact_sha256: String,
    pub output_bytes: u64,
    pub source_fingerprint_before: String,
    pub source_fingerprint_after: String,
}

#[derive(Debug, Clone, PartialEq, Eq)]
pub struct ProviderDoctorReport {
    pub ready: bool,
    pub issues: Vec<String>,
}

impl Named for ProviderBinding {
    open spec fn first_name(&self) -> Seq<char> {
        self.project_key@
    }

    open spec fn second_name(&self) -> Seq<char> {
        self.profile_id@
    }

    fn first_name_text(&self) -> &str {
        self.project_key.as_str()
    }

    fn second_name_text(&self) -> &str {
        self.profile_id.as_str()
    }
}

// ---------------------------------------------------------------------------
// Copies and comparison
// ---------------------------------------------------------------------------

fn copy_artifact(a: &ProviderArtifact) -> (r: ProviderArtifact)
    ensures
        r == *a,
{
    ProviderArtifact { canonical_path: a.canonical_path.clone(), sha256: a.sha256.clone() }
}

fn copy_opt_artifact(a: &Option<ProviderArtifact>) -> (r: Option<ProviderArtifact>)
    ensures
        r == *a,
{
    match a {
        Some(a) => Some(copy_artifact(a)),
        None => None,
    }
}

fn copy_opt(o: &Option<String>) -> (r: Option<String>)
    ensures
        r == *o,
{
    match o {
        Some(s) => Some(s.clone()),
        None => None,
    }
}

/// The same binding again.
pub fn copy_binding(b: &ProviderBinding) -> (r: ProviderBinding)
    ensures
        r == *b,
{
    ProviderBinding {
        registration_id: b.registration_id.clone(),
        revision: b.revision,
        project_key: b.project_key.clone(),
        profile_id: b.profile_id.clone(),
        producer: b.producer.clone(),
        executable: copy_artifact(&b.executable),
        launcher_script: copy_opt_artifact(&b.launcher_script),
        launcher_package_manifest_sha256: copy_opt(&b.launcher_package_manifest_sha256),
        resolved_version: b.resolved_version.clone(),
    }
}

/// Two pinned files are the same file with the same content.
pub open spec fn same_artifact(a: ProviderArtifact, b: ProviderArtifact) -> bool {
    a.canonical_path@ == b.canonical_path@ && a.sha256@ == b.sha256@
}

/// Two pinned files, or none twice.
pub open spec fn same_opt_artifact(
    a: Option<ProviderArtifact>,
    b: Option<ProviderArtifact>,
) -> bool {
    match (a, b) {
        (Some(a), Some(b)) => same_artifact(a, b),
        (None, None) => true,
        _ => false,
    }
}

/// Two bindings are the same but for their revision.
pub open spec fn equivalent(a: ProviderBinding, b: ProviderBinding) -> bool {
    &&& a.registration_id@ == b.registration_id@
    &&& a.project_key@ == b.project_key@
    &&& a.profile_id@ == b.profile_id@
    &&& a.producer@ == b.producer@
    &&& same_artifact(a.executable, b.executable)
    &&& same_opt_artifact(a.launcher_script, b.launcher_script)
    &&& model::opt_view(a.launcher_package_manifest_sha256) == model::opt_view(
        b.launcher_package_manifest_sha256,
    )
    &&& a.resolved_version@ == b.resolved_version@
}

fn is_same_artifact(a: &ProviderArtifact, b: &ProviderArtifact) -> (r: bool)
    ensures
        r == same_artifact(*a, *b),
{
    text::same(a.canonical_path.as_str(), b.canonical_path.as_str()) && text::same(
        a.sha256.as_str(),
        b.sha256.as_str(),
    )
}

/// Whether two bindings are the same but for their revision.
pub fn binding_equivalent(left: &ProviderBinding, right: &ProviderBinding) -> (r: bool)
    ensures
        r == equivalent(*left, *right),
{
    let same_script = match (&left.launcher_script, &right.launcher_script) {
        (Some(a), Some(b)) => is_same_artifact(a, b),
        (None, None) => true,
        _ => false,
    };
    text::same(left.registration_id.as_str(), right.registration_id.as_str()) && text::same(
        left.project_key.as_str(),
        right.project_key.as_str(),
    ) && text::same(left.profile_id.as_str(), right.profile_id.as_str()) && text::same(
        left.producer.as_str(),
        right.producer.as_str(),
    ) && is_same_artifact(&left.executable, &right.executable) && same_script && model::same_opt(
        &left.launcher_package_manifest_sha256,
        &right.launcher_package_manifest_sha256,
    ) && text::same(left.resolved_version.as_str(), right.resolved_version.as_str())
}

// ---------------------------------------------------------------------------
// Profiles and producers
// ---------------------------------------------------------------------------

/// The first profile of an id, up to ASCII case.
pub open spec fn first_profile(
    profiles: Seq<SemanticProviderProfile>,
    id: Seq<char>,
) -> Option<SemanticProviderProfile>
    decreases profiles.len(),
{
    if profiles.len() == 0 {
        None
    } else if text::lowered(profiles[0].id@) == text::lowered(id) {
        Some(profiles[0])
    } else {
        first_profile(profiles.skip(1), id)
    }
}

/// The error where the repository declares no such profile.
pub open spec fn undeclared(id: Seq<char>) -> ErrorView {
    ErrorView::Provider("仓库未声明 semantic provider profile="@ + text::quoted(id))
}

/// The profile that the repository declares under an id.
pub fn configured_profile<'a>(
    profiles: &'a Vec<SemanticProviderProfile>,
    profile_id: &str,
) -> (r: Result<&'a SemanticProviderProfile, AppError>)
    ensures
        match r {
            Ok(p) => first_profile(profiles@, profile_id@) == Some(*p),
            Err(e) => first_profile(profiles@, profile_id@) is None && e@ == undeclared(
                profile_id@,
            ),
        },
{
    let mut i: usize = 0;
    assert(profiles@.skip(0) =~= profiles@);
    while i < profiles.len()
        invariant
            i <= profiles@.len(),
            first_profile(profiles@, profile_id@) == first_profile(
                profiles@.skip(i as int),
                profile_id@,
            ),
        decreases profiles@.len() - i,
    {
        assert(profiles@.skip(i as int)[0] == profiles@[i as int]);
        assert(profiles@.skip(i as int).skip(1) =~= profiles@.skip(i + 1));
        if text::same_ignoring_case(profiles[i].id.as_str(), profile_id) {
            return Ok(&profiles[i]);
        }
        i = i + 1;
    }
    let shown = text::quote(profile_id);
    Err(
        AppError::Provider(
            text::cat2("仓库未声明 semantic provider profile=", shown.as_str()),
        ),
    )
}

/// A name is one of the producers, up to ASCII case.
pub open spec fn is_producer(name: Seq<char>, producer: Seq<char>) -> bool {
    text::lowered(name) == text::lowered(producer)
}

/// The producers whose arguments are fixed.
pub open spec fn known_producer(name: Seq<char>) -> bool {
    is_producer(name, "rust-analyzer"@) || is_producer(name, "scip-dotnet"@) || is_producer(
        name,
        "scip-python"@,
    )
}

/// Why a producer is not run.
pub open spec fn producer_refusal(producer: Seq<char>) -> Option<ErrorView> {
    if known_producer(producer) {
        None
    } else {
        Some(
            ErrorView::Provider(
                "producer="@ + text::quoted(producer)
                    + " 没有内建安全 argv 契约；仍可使用 index-scip 手工导入"@,
            ),
        )
    }
}

/// Whether the arguments of a producer are fixed.
pub fn ensure_known_producer(producer: &str) -> (r: Result<(), AppError>)
    ensures
        error::follows(r, producer_refusal(producer@)),
{
    if text::same_ignoring_case(producer, "rust-analyzer") || text::same_ignoring_case(
        producer,
        "scip-dotnet",
    ) || text::same_ignoring_case(producer, "scip-python") {
        return Ok(());
    }
    let shown = text::quote(producer);
    Err(
        AppError::Provider(
            text::cat3(
                "producer=",
                shown.as_str(),
                " 没有内建安全 argv 契约；仍可使用 index-scip 手工导入",
            ),
        ),
    )
}

/// The arguments with which a producer indexes a project.
pub open spec fn arguments_of(
    producer: Seq<char>,
    root: Seq<char>,
    project_key: Seq<char>,
    output: Seq<char>,
) -> Option<Seq<Seq<char>>> {
    if is_producer(producer, "rust-analyzer"@) {
        Some(seq!["scip"@, root, "--output"@, output])
    } else if is_producer(producer, "scip-dotnet"@) {
        Some(
            seq![
                "index"@,
                "--working-directory"@,
                root,
                "--skip-dotnet-restore"@,
                "--output"@,
                output,
            ],
        )
    } else if is_producer(producer, "scip-python"@) {
        Some(
            seq!["index"@, "--cwd"@, root, "--project-name"@, project_key, "--output"@, output],
        )
    } else {
        None
    }
}

/// The arguments with which a producer indexes a project; there are no others
/// than these.
pub fn provider_arguments(
    producer: &str,
    project_root: &str,
    project_key: &str,
    output_path: &str,
) -> (r: Result<Vec<String>, AppError>)
    ensures
        match r {
            Ok(v) => arguments_of(
                producer@,
                execution::cli_path(project_root@),
                project_key@,
                execution::cli_path(output_path@),
            ) == Some(text::views(v@)),
            Err(e) => !known_producer(producer@) && e@ == ErrorView::Provider(
                "producer="@ + text::quoted(producer@) + " 没有安全 argv 契约"@,
            ),
        },
{
    let root = execution::provider_cli_path(project_root);
    let output = execution::provider_cli_path(output_path);
    let mut out: Vec<String> = Vec::new();
    if text::same_ignoring_case(producer, "rust-analyzer") {
        out.push("scip".to_owned());
        out.push(root);
        out.push("--output".to_owned());
        out.push(output);
        assert(text::views(out@) =~= seq!["scip"@, root@, "--output"@, output@]);
        Ok(out)
    } else if text::same_ignoring_case(producer, "scip-dotnet") {
        out.push("index".to_owned());
        out.push("--working-directory".to_owned());
        out.push(root);
        out.push("--skip-dotnet-restore".to_owned());
        out.push("--output".to_owned());
        out.push(output);
        assert(text::views(out@) =~= seq![
            "index"@,
            "--working-directory"@,
            root@,
            "--skip-dotnet-restore"@,
            "--output"@,
            output@,
        ]);
        Ok(out)
    } else if text::same_ignoring_case(producer, "scip-python") {
        out.push("index".to_owned());
        out.push("--cwd".to_owned());
        out.push(root);
        out.push("--project-name".to_owned());
        out.push(project_key.to_owned());
        out.push("--output".to_owned());
        out.push(output);
        assert(text::views(out@) =~= seq![
            "index"@,
            "--cwd"@,
            root@,
            "--project-name"@,
            project_key@,
            "--output"@,
            output@,
        ]);
        Ok(out)
    } else {
        let shown = text::quote(producer);
        Err(
            AppError::Provider(
                text::cat3("producer=", shown.as_str(), " 没有安全 argv 契约"),
            ),
        )
    }
}

// ---------------------------------------------------------------------------
// Pinned files
// ---------------------------------------------------------------------------

/// What is found of a file that is to be pinned: how its path is written,
/// whether that is absolute, the path that it leads to, and whether a regular
/// file is there.
#[derive(Debug, PartialEq, Eq)]
pub struct FileFacts {
    pub shown: String,
    pub absolute: bool,
    pub canonical: Result<String, String>,
    pub regular: bool,
}

/// Why a file is not pinned.
pub open spec fn pin_refusal(facts: FileFacts, label: Seq<char>) -> Option<ErrorView> {
    if !facts.absolute {
        Some(ErrorView::Provider(label + " 必须使用机器绝对路径："@ + facts.shown@))
    } else {
        match facts.canonical {
            Err(error) => Some(ErrorView::Provider(label + " 无法解析："@ + error@)),
            Ok(canonical) => if facts.regular {
                None
            } else {
                Some(ErrorView::Provider(label + " 不是普通文件："@ + canonical@))
            },
        }
    }
}

/// The file that a path leads to, with the fingerprint of its content.
pub fn pinned_artifact(facts: &FileFacts, sha256: &str, label: &str) -> (r: Result<
    ProviderArtifact,
    AppError,
>)
    ensures
        error::follows(r, pin_refusal(*facts, label@)),
        r is Ok ==> facts.canonical is Ok && r->Ok_0.canonical_path@ == facts.canonical->Ok_0@
            && r->Ok_0.sha256@ == sha256@,
{
    if !facts.absolute {
        return Err(
            AppError::Provider(
                text::cat3(label, " 必须使用机器绝对路径：", facts.shown.as_str()),
            ),
        );
    }
    match &facts.canonical {
        Err(error) => Err(
            AppError::Provider(text::cat3(label, " 无法解析：", error.as_str())),
        ),
        Ok(canonical) => {
            if !facts.regular {
                return Err(
                    AppError::Provider(
                        text::cat3(label, " 不是普通文件：", canonical.as_str()),
                    ),
                );
            }
            Ok(
                ProviderArtifact {
                    canonical_path: canonical.clone(),
                    sha256: sha256.to_owned(),
                },
            )
        },
    }
}

/// Why a pinned file is not run: it lies in the repository that is indexed.
pub open spec fn repository_refusal(
    inside: bool,
    canonical_path: Seq<char>,
    label: Seq<char>,
) -> Option<ErrorView> {
    if inside {
        Some(
            ErrorView::Provider(
                label + " 位于受索引仓库内，拒绝建立执行信任："@ + canonical_path,
            ),
        )
    } else {
        None
    }
}

/// Whether a pinned file may be run, given whether it lies in the repository.
pub fn reject_repository_artifact(inside: bool, artifact: &ProviderArtifact, label: &str) -> (r:
    Result<(), AppError>)
    ensures
        error::follows(r, repository_refusal(inside, artifact.canonical_path@, label@)),
{
    if inside {
        return Err(
            AppError::Provider(
                text::cat3(
                    label,
                    " 位于受索引仓库内，拒绝建立执行信任：",
                    artifact.canonical_path.as_str(),
                ),
            ),
        );
    }
    Ok(())
}

/// Why a file is not run directly: a shell has to read it.
pub open spec fn script_refusal(extension: Seq<char>) -> Option<ErrorView> {
    if text::lowered(extension) == text::lowered("cmd"@) || text::lowered(extension)
        == text::lowered("bat"@) {
        Some(
            ErrorView::Provider(
                "拒绝直接执行 .cmd/.bat shell shim；请绑定原生 executable，并用 --script 提供已固定哈希的脚本入口"@,
            ),
        )
    } else {
        None
    }
}

/// Whether a file of an extension may be run directly; the extension is empty
/// where there is none.
pub fn reject_command_script(extension: &str) -> (r: Result<(), AppError>)
    ensures
        error::follows(r, script_refusal(extension@)),
{
    if text::same_ignoring_case(extension, "cmd") || text::same_ignoring_case(extension, "bat") {
        return Err(
            AppError::Provider(
                "拒绝直接执行 .cmd/.bat shell shim；请绑定原生 executable，并用 --script 提供已固定哈希的脚本入口".to_owned(),
            ),
        );
    }
    Ok(())
}

/// Why an outside program is not run.
pub open spec fn executable_refusal(
    inside: bool,
    canonical_path: Seq<char>,
    extension: Seq<char>,
    label: Seq<char>,
) -> Option<ErrorView> {
    match repository_refusal(inside, canonical_path, label) {
        Some(e) => Some(e),
        None => script_refusal(extension),
    }
}

/// Whether an outside program may be run.
pub fn pin_external_executable(
    artifact: &ProviderArtifact,
    inside: bool,
    extension: &str,
    label: &str,
) -> (r: Result<(), AppError>)
    ensures
        error::follows(
            r,
            executable_refusal(inside, artifact.canonical_path@, extension@, label@),
        ),
{
    match reject_repository_artifact(inside, artifact, label) {
        Err(e) => Err(e),
        Ok(()) => reject_command_script(extension),
    }
}

/// What is found of a pinned file later.
#[derive(Debug, PartialEq, Eq)]
pub struct ArtifactFacts {
    pub present: bool,
    pub sha256: Result<String, String>,
    pub inside_repository: bool,
}

/// Why a pinned file is no longer trusted.
pub open spec fn drift_refusal(
    artifact: ProviderArtifact,
    facts: ArtifactFacts,
    label: Seq<char>,
) -> Option<ErrorView> {
    if !facts.present {
        Some(ErrorView::Provider(label + " 已不存在："@ + artifact.canonical_path@))
    } else {
        match facts.sha256 {
            Err(error) => Some(ErrorView::Io(error@)),
            Ok(actual) => if actual@ == artifact.sha256@ {
                None
            } else {
                Some(
                    ErrorView::Provider(
                        label + " 内容发生漂移；请显式重新绑定："@ + artifact.canonical_path@,
                    ),
                )
            },
        }
    }
}

/// Whether a pinned file is still what was pinned.
pub fn validate_artifact(artifact: &ProviderArtifact, facts: &ArtifactFacts, label: &str) -> (r:
    Result<(), AppError>)
    ensures
        error::follows(r, drift_refusal(*artifact, *facts, label@)),
{
    if !facts.present {
        return Err(
            AppError::Provider(
                text::cat3(label, " 已不存在：", artifact.canonical_path.as_str()),
            ),
        );
    }
    match &facts.sha256 {
        Err(error) => Err(AppError::Io(error.clone())),
        Ok(actual) => {
            if text::same(actual.as_str(), artifact.sha256.as_str()) {
                return Ok(());
            }
            Err(
                AppError::Provider(
                    text::cat3(
                        label,
                        " 内容发生漂移；请显式重新绑定：",
                        artifact.canonical_path.as_str(),
                    ),
                ),
            )
        },
    }
}

// ---------------------------------------------------------------------------
// Registrations
// ---------------------------------------------------------------------------

/// What a registration stands for, part by part.
pub open spec fn registration_parts(
    project_key: Seq<char>,
    profile_id: Seq<char>,
    producer: Seq<char>,
    executable_sha256: Seq<char>,
    script_sha256: Seq<char>,
    manifest: Option<Seq<char>>,
) -> Seq<Seq<char>> {
    match manifest {
        Some(manifest) => seq![
            "project-brain/provider-registration/v2"@,
            project_key,
            profile_id,
            producer,
            executable_sha256,
            script_sha256,
            manifest,
        ],
        None => seq![
            "project-brain/provider-registration/v1"@,
            project_key,
            profile_id,
            producer,
            executable_sha256,
            script_sha256,
        ],
    }
}

/// The fingerprint of a script, empty where there is none.
pub open spec fn script_hash(script: Option<ProviderArtifact>) -> Seq<char> {
    match script {
        Some(script) => script.sha256@,
        None => Seq::empty(),
    }
}

/// The name of a registration: what it stands for, fingerprinted.
pub open spec fn registration_of(
    project_key: Seq<char>,
    profile_id: Seq<char>,
    producer: Seq<char>,
    executable: ProviderArtifact,
    script: Option<ProviderArtifact>,
    manifest: Option<Seq<char>>,
) -> Seq<char> {
    "provider_"@ + digest::sha256_hex(
        digest::terminated(
            digest::utf8_of(
                registration_parts(
                    project_key,
                    profile_id,
                    producer,
                    executable.sha256@,
                    script_hash(script),
                    manifest,
                ),
            ),
        ),
    )
}

/// The name of a registration.
pub fn registration_id(
    project_key: &str,
    profile_id: &str,
    producer: &str,
    executable: &ProviderArtifact,
    launcher_script: &Option<ProviderArtifact>,
    manifest: &Option<String>,
) -> (r: String)
    ensures
        r@ == registration_of(
            project_key@,
            profile_id@,
            producer@,
            *executable,
            *launcher_script,
            model::opt_view(*manifest),
        ),
{
    let none = String::new();
    let script: &str = match launcher_script {
        Some(script) => script.sha256.as_str(),
        None => none.as_str(),
    };
    let mut parts: Vec<&str> = Vec::new();
    match manifest {
        Some(_) => {
            parts.push("project-brain/provider-registration/v2");
        },
        None => {
            parts.push("project-brain/provider-registration/v1");
        },
    }
    parts.push(project_key);
    parts.push(profile_id);
    parts.push(producer);
    parts.push(executable.sha256.as_str());
    parts.push(script);
    match manifest {
        Some(manifest) => {
            parts.push(manifest.as_str());
        },
        None => {},
    }
    assert(script@ =~= script_hash(*launcher_script));
    assert(text::str_views(parts@) =~= registration_parts(
        project_key@,
        profile_id@,
        producer@,
        executable.sha256@,
        script_hash(*launcher_script),
        model::opt_view(*manifest),
    ));
    let bytes = digest::terminate(&parts);
    let hex = digest::hash_bytes(bytes.as_slice());
    text::cat2("provider_", hex.as_str())
}

/// What is hashed for a registration tells all of its parts apart, as long as
/// none of them holds a zero byte.
pub proof fn registrations_tell_their_parts(
    a: (Seq<char>, Seq<char>, Seq<char>, Seq<char>, Seq<char>, Option<Seq<char>>),
    b: (Seq<char>, Seq<char>, Seq<char>, Seq<char>, Seq<char>, Option<Seq<char>>),
)
    requires
        ({
            let x = digest::utf8_of(registration_parts(a.0, a.1, a.2, a.3, a.4, a.5));
            let y = digest::utf8_of(registration_parts(b.0, b.1, b.2, b.3, b.4, b.5));
            digest::zero_free(x) && digest::zero_free(y) && digest::terminated(x)
                == digest::terminated(y)
        }),
    ensures
        a == b,
{
    let p = registration_parts(a.0, a.1, a.2, a.3, a.4, a.5);
    let q = registration_parts(b.0, b.1, b.2, b.3, b.4, b.5);
    digest::terminated_is_injective(digest::utf8_of(p), digest::utf8_of(q));
    assert(digest::utf8_of(p).len() == digest::utf8_of(q).len());
    assert forall|i: int| 0 <= i < p.len() implies p[i] == q[i] by {
        assert(digest::utf8_of(p)[i] == digest::utf8_of(q)[i]);
        vstd::utf8::encode_utf8_decode_utf8(p[i]);
        vstd::utf8::encode_utf8_decode_utf8(q[i]);
    }
    assert(p[1] == q[1] && p[2] == q[2] && p[3] == q[3] && p[4] == q[4] && p[5] == q[5]);
    if p.len() == 7 {
        assert(p[6] == q[6]);
    }
}

// ---------------------------------------------------------------------------
// The launcher package
// ---------------------------------------------------------------------------

/// A file of the launcher package: its path in the package with `/` between
/// names, its size and its fingerprint.
#[derive(Debug, Clone, PartialEq, Eq)]
pub struct PackageFile {
    pub relative: String,
    pub size: u64,
    pub sha256: String,
}

/// A file as a manifest tells of it: its path, its size and its fingerprint.
impl View for PackageFile {
    type V = (Seq<char>, u64, Seq<char>);

    open spec fn view(&self) -> (Seq<char>, u64, Seq<char>) {
        (self.relative@, self.size, self.sha256@)
    }
}

impl Named for PackageFile {
    open spec fn first_name(&self) -> Seq<char> {
        self.relative@
    }

    open spec fn second_name(&self) -> Seq<char> {
        Seq::empty()
    }

    fn first_name_text(&self) -> &str {
        self.relative.as_str()
    }

    fn second_name_text(&self) -> &str {
        assert(""@ =~= Seq::<char>::empty()) by {
            reveal_strlit("");
        }
        ""
    }
}

/// What an entry of a package directory is.
#[derive(Debug, Clone, Copy, PartialEq, Eq, Structural)]
pub enum EntryKind {
    Link,
    Directory,
    File,
    Other,
}

/// What is read from the description of a package: what keeps it from being
/// JSON, the package's name, the string under `bin`, and the string under
/// `scip-python` in the object there.
#[derive(Debug, Clone, PartialEq, Eq)]
pub struct PackageDescription {
    pub complaint: Option<String>,
    pub name: Option<String>,
    pub bin: Option<String>,
    pub command: Option<String>,
}

/// What is read from the description of a package.
pub struct DescriptionView {
    pub complaint: Option<Seq<char>>,
    pub name: Option<Seq<char>>,
    pub bin: Option<Seq<char>>,
    pub command: Option<Seq<char>>,
}

impl View for PackageDescription {
    type V = DescriptionView;

    open spec fn view(&self) -> DescriptionView {
        DescriptionView {
            complaint: model::opt_view(self.complaint),
            name: model::opt_view(self.name),
            bin: model::opt_view(self.bin),
            command: model::opt_view(self.command),
        }
    }
}

impl DescriptionView {
    /// What a description of these bytes says.
    pub open spec fn of(document: Seq<u8>) -> DescriptionView {
        DescriptionView {
            complaint: json::json_complaint(document),
            name: json::json_text_at(document, "/name"@),
            bin: json::json_text_at(document, "/bin"@),
            command: json::json_text_at(document, "/bin/scip-python"@),
        }
    }

    /// The entry point that a description names.
    pub open spec fn entry(self) -> Option<Seq<char>> {
        match self.bin {
            Some(entry) => Some(entry),
            None => self.command,
        }
    }

    /// Why a package is not taken for the one that it has to be.
    pub open spec fn refusal(self) -> Option<ErrorView> {
        match self.complaint {
            Some(complaint) => Some(ErrorView::Json(complaint)),
            None => if self.name != Some("@sourcegraph/scip-python"@) {
                Some(
                    ErrorView::Provider(
                        "scip-python launcher 所在 package.json 的 name 不匹配"@,
                    ),
                )
            } else if self.entry() is None {
                Some(
                    ErrorView::Provider(
                        "scip-python package.json 缺少 scip-python bin 入口"@,
                    ),
                )
            } else {
                None
            },
        }
    }
}

/// The entry point that a description names.
pub fn described_entry(description: PackageDescription) -> (r: Result<String, AppError>)
    ensures
        error::follows(r, description@.refusal()),
        r is Ok ==> description@.entry() == Some(r->Ok_0@),
{
    match description.complaint {
        Some(complaint) => {
            return Err(AppError::Json(complaint));
        },
        None => {},
    }
    let named = match &description.name {
        Some(name) => text::same(name.as_str(), "@sourcegraph/scip-python"),
        None => false,
    };
    if !named {
        return Err(
            AppError::Provider(
                "scip-python launcher 所在 package.json 的 name 不匹配".to_owned(),
            ),
        );
    }
    match description.bin {
        Some(entry) => {
            return Ok(entry);
        },
        None => {},
    }
    match description.command {
        Some(entry) => Ok(entry),
        None => Err(
            AppError::Provider("scip-python package.json 缺少 scip-python bin 入口".to_owned()),
        ),
    }
}

/// The entry point of the package that a launcher script belongs to, given the
/// bytes of its `package.json`.
pub fn package_entry(document: &[u8]) -> (r: Result<String, AppError>)
    ensures
        error::follows(r, DescriptionView::of(document@).refusal()),
        r is Ok ==> DescriptionView::of(document@).entry() == Some(r->Ok_0@),
{
    described_entry(
        PackageDescription {
            complaint: json::read_complaint(document),
            name: json::read_text_at(document, "/name"),
            bin: json::read_text_at(document, "/bin"),
            command: json::read_text_at(document, "/bin/scip-python"),
        },
    )
}

/// Why a launcher script is not the entry point of its package.
pub open spec fn entry_refusal(
    resolved: Result<String, String>,
    script: Seq<char>,
) -> Option<ErrorView> {
    match resolved {
        Err(error) => Some(
            ErrorView::Provider("scip-python bin 入口无法解析："@ + error@),
        ),
        Ok(path) => if path@ == script {
            None
        } else {
            Some(
                ErrorView::Provider(
                    "--script 必须指向 scip-python package.json 声明的 bin 入口"@,
                ),
            )
        },
    }
}

/// Whether a launcher script is the entry point of its package, given where
/// the entry point leads.
pub fn check_bin_entry(resolved: &Result<String, String>, script: &ProviderArtifact) -> (r: Result<
    (),
    AppError,
>)
    ensures
        error::follows(r, entry_refusal(*resolved, script.canonical_path@)),
{
    match resolved {
        Err(error) => Err(
            AppError::Provider(text::cat2("scip-python bin 入口无法解析：", error.as_str())),
        ),
        Ok(path) => {
            if text::same(path.as_str(), script.canonical_path.as_str()) {
                return Ok(());
            }
            Err(
                AppError::Provider(
                    "--script 必须指向 scip-python package.json 声明的 bin 入口".to_owned(),
                ),
            )
        },
    }
}

/// A package while stock is taken of it.
#[derive(Debug, Clone, PartialEq, Eq)]
pub struct PackageStock {
    pub files: usize,
    pub total_bytes: u64,
}

/// What to do with an entry.
#[derive(Debug, Clone, Copy, PartialEq, Eq, Structural)]
pub enum EntryStep {
    Descend,
    Record,
}

impl PackageStock {
    /// Within the limits.
    pub open spec fn valid(self) -> bool {
        self.files <= MAX_LAUNCHER_PACKAGE_FILES && self.total_bytes <= MAX_LAUNCHER_PACKAGE_BYTES
    }

    /// Why stock is not taken of a package with such an entry.
    pub open spec fn refusal(self, kind: EntryKind, shown: Seq<char>, size: u64) -> Option<
        ErrorView,
    > {
        match kind {
            EntryKind::Link => Some(
                ErrorView::Provider("scip-python 包内不允许符号链接："@ + shown),
            ),
            EntryKind::Directory => None,
            EntryKind::Other => Some(
                ErrorView::Provider("scip-python 包包含不支持的文件类型："@ + shown),
            ),
            EntryKind::File => if self.total_bytes + size > u64::MAX {
                Some(ErrorView::Provider("scip-python 包大小溢出"@))
            } else if self.total_bytes + size > MAX_LAUNCHER_PACKAGE_BYTES {
                Some(
                    ErrorView::Provider(
                        "scip-python 包超过 "@ + text::decimal(MAX_LAUNCHER_PACKAGE_BYTES as nat)
                            + " 字节安全上限"@,
                    ),
                )
            } else if self.files + 1 > MAX_LAUNCHER_PACKAGE_FILES {
                Some(
                    ErrorView::Provider(
                        "scip-python 包超过 "@ + text::decimal(MAX_LAUNCHER_PACKAGE_FILES as nat)
                            + " 个文件安全上限"@,
                    ),
                )
            } else {
                None
            },
        }
    }

    pub fn new() -> (r: Self)
        ensures
            r.valid(),
            r.files == 0,
            r.total_bytes == 0,
    {
        PackageStock { files: 0, total_bytes: 0 }
    }

    /// Take an entry into account: links and special files are refused, and so
    /// is a package that grows beyond the limits.
    pub fn take_in(&mut self, kind: EntryKind, shown: &str, size: u64) -> (r: Result<
        EntryStep,
        AppError,
    >)
        requires
            old(self).valid(),
        ensures
            final(self).valid(),
            error::follows(r, old(self).refusal(kind, shown@, size)),
            r is Err ==> *final(self) == *old(self),
            r matches Ok(step) ==> match kind {
                EntryKind::File => {
                    &&& step == EntryStep::Record
                    &&& final(self).files == old(self).files + 1
                    &&& final(self).total_bytes == old(self).total_bytes + size
                },
                _ => step == EntryStep::Descend && *final(self) == *old(self),
            },
    {
        match kind {
            EntryKind::Link => Err(
                AppError::Provider(text::cat2("scip-python 包内不允许符号链接：", shown)),
            ),
            EntryKind::Directory => Ok(EntryStep::Descend),
            EntryKind::Other => Err(
                AppError::Provider(text::cat2("scip-python 包包含不支持的文件类型：", shown)),
            ),
            EntryKind::File => {
                if size > u64::MAX - self.total_bytes {
                    return Err(AppError::Provider("scip-python 包大小溢出".to_owned()));
                }
                if self.total_bytes + size > MAX_LAUNCHER_PACKAGE_BYTES {
                    let limit = text::decimal_text(MAX_LAUNCHER_PACKAGE_BYTES);
                    return Err(
                        AppError::Provider(
                            text::cat3("scip-python 包超过 ", limit.as_str(), " 字节安全上限"),
                        ),
                    );
                }
                if self.files >= MAX_LAUNCHER_PACKAGE_FILES {
                    let limit = text::decimal_text(MAX_LAUNCHER_PACKAGE_FILES as u64);
                    return Err(
                        AppError::Provider(
                            text::cat3("scip-python 包超过 ", limit.as_str(), " 个文件安全上限"),
                        ),
                    );
                }
                self.total_bytes = self.total_bytes + size;
                self.files = self.files + 1;
                Ok(EntryStep::Record)
            },
        }
    }
}

/// A file as it is written into the manifest of a package.
pub open spec fn manifest_entry(file: PackageFile) -> Seq<u8> {
    vstd::utf8::encode_utf8(file.relative@).push(0u8) + digest::length_le(file.size)
        + vstd::utf8::encode_utf8(file.sha256@).push(0u8)
}

/// Files as they are written into the manifest of a package.
pub open spec fn manifest_entries(files: Seq<PackageFile>) -> Seq<u8>
    decreases files.len(),
{
    if files.len() == 0 {
        Seq::empty()
    } else {
        manifest_entries(files.drop_last()) + manifest_entry(files.last())
    }
}

/// What the fingerprint of a launcher package is made from: all of its files,
/// in the order of their paths.
pub open spec fn package_bytes(files: Seq<PackageFile>) -> Seq<u8> {
    vstd::utf8::encode_utf8("project-brain/scip-python-package/v1"@).push(0u8) + manifest_entries(
        sorting::sorted(files),
    )
}

/// The fingerprint of a launcher package.
pub open spec fn package_manifest(files: Seq<PackageFile>) -> Seq<char> {
    digest::sha256_hex(package_bytes(files))
}

/// The fingerprint of a launcher package, given its files in any order.
pub fn scip_python_package_manifest(files: Vec<PackageFile>) -> (r: String)
    ensures
        r@ == package_manifest(files@),
{
    let sorted = sorting::sort(files);
    let mut bytes: Vec<u8> = Vec::new();
    digest::append_terminated(&mut bytes, "project-brain/scip-python-package/v1");
    let ghost head = vstd::utf8::encode_utf8("project-brain/scip-python-package/v1"@).push(0u8);
    let mut i: usize = 0;
    assert(sorted@.take(0) =~= Seq::<PackageFile>::empty());
    assert(bytes@ =~= head + manifest_entries(sorted@.take(0)));
    while i < sorted.len()
        invariant
            i <= sorted@.len(),
            bytes@ == head + manifest_entries(sorted@.take(i as int)),
        decreases sorted@.len() - i,
    {
        let ghost before = bytes@;
        digest::append_terminated(&mut bytes, sorted[i].relative.as_str());
        digest::append_length_le(&mut bytes, sorted[i].size);
        digest::append_terminated(&mut bytes, sorted[i].sha256.as_str());
        proof {
            assert(sorted@.take(i + 1).drop_last() =~= sorted@.take(i as int));
            assert(bytes@ =~= before + manifest_entry(sorted@[i as int]));
            assert(bytes@ =~= head + manifest_entries(sorted@.take(i + 1)));
        }
        i = i + 1;
    }
    assert(sorted@.take(sorted@.len() as int) =~= sorted@);
    digest::hash_bytes(bytes.as_slice())
}

/// Files as a manifest tells of them.
pub open spec fn file_views(files: Seq<PackageFile>) -> Seq<(Seq<char>, u64, Seq<char>)> {
    files.map_values(|file: PackageFile| file@)
}

/// What is listed under one path is one file.
pub open spec fn one_file_a_path(files: Seq<PackageFile>) -> bool {
    forall|i: int, j: int|
        0 <= i < files.len() && 0 <= j < files.len() && (#[trigger] files[i]).relative@ == (
        #[trigger] files[j]).relative@ ==> files[i]@ == files[j]@
}

proof fn manifest_entries_by_views(a: Seq<PackageFile>, b: Seq<PackageFile>)
    requires
        file_views(a) == file_views(b),
    ensures
        manifest_entries(a) == manifest_entries(b),
    decreases a.len(),
{
    assert(a.len() == file_views(a).len() && b.len() == file_views(b).len());
    if a.len() > 0 {
        assert(file_views(a)[a.len() - 1] == a.last()@);
        assert(file_views(b)[b.len() - 1] == b.last()@);
        assert(file_views(a.drop_last()) =~= file_views(a).drop_last());
        assert(file_views(b.drop_last()) =~= file_views(b).drop_last());
        manifest_entries_by_views(a.drop_last(), b.drop_last());
    }
}

proof fn sorting_keeps_the_views(files: Seq<PackageFile>)
    ensures
        file_views(sorting::sorted(files)).to_multiset() == file_views(files).to_multiset(),
    decreases files.len(),
{
    if files.len() > 0 {
        let init = files.drop_last();
        let item = files.last();
        let before = sorting::sorted(init);
        sorting_keeps_the_views(init);
        sorting::place_in_range(before, item);
        let at = sorting::place_of(before, item);
        let views = file_views(before);
        assert(file_views(before.insert(at, item)) =~= views.insert(at, item@));
        vstd::seq_lib::to_multiset_insert(views, at, item@);
        assert(file_views(files) =~= file_views(init).push(item@));
        file_views(init).to_multiset_ensures();
    }
}

proof fn ordered_files_are_one(a: Seq<PackageFile>, b: Seq<PackageFile>)
    requires
        sorting::in_order(a),
        sorting::in_order(b),
        one_file_a_path(a),
        file_views(a).to_multiset() == file_views(b).to_multiset(),
    ensures
        file_views(a) == file_views(b),
    decreases a.len(),
{
    let va = file_views(a);
    let vb = file_views(b);
    va.to_multiset_ensures();
    vb.to_multiset_ensures();
    assert(a.len() == b.len());
    if a.len() > 0 {
        let x = a.last();
        let y = b.last();
        assert(va.last() == x@ && vb.last() == y@);
        assert(va.contains(x@) && vb.contains(y@));
        assert(vb.to_multiset().count(x@) > 0 && va.to_multiset().count(y@) > 0);
        assert(vb.contains(x@) && va.contains(y@));
        let j = choose|j: int| 0 <= j < vb.len() && vb[j] == x@;
        let i = choose|i: int| 0 <= i < va.len() && va[i] == y@;
        assert(b[j]@ == x@ && a[i]@ == y@);
        order::text_before_total(x.relative@, y.relative@);
        order::text_before_irreflexive(Seq::empty());
        if i < a.len() - 1 {
            assert(!sorting::named_before(a[a.len() - 1], a[i]));
        }
        if j < b.len() - 1 {
            assert(!sorting::named_before(b[b.len() - 1], b[j]));
        }
        assert(a[a.len() - 1]@ == a[i]@);
        let a0 = a.drop_last();
        let b0 = b.drop_last();
        assert(va =~= file_views(a0).push(x@));
        assert(vb =~= file_views(b0).push(y@));
        file_views(a0).to_multiset_ensures();
        file_views(b0).to_multiset_ensures();
        assert(file_views(a0).to_multiset() =~= va.to_multiset().remove(x@));
        assert(file_views(b0).to_multiset() =~= vb.to_multiset().remove(y@));
        assert forall|i: int, j: int| 0 <= i < j < a0.len() implies !sorting::named_before(
            #[trigger] a0[j],
            #[trigger] a0[i],
        ) by {
            assert(a0[i] == a[i] && a0[j] == a[j]);
        }
        assert forall|i: int, j: int| 0 <= i < j < b0.len() implies !sorting::named_before(
            #[trigger] b0[j],
            #[trigger] b0[i],
        ) by {
            assert(b0[i] == b[i] && b0[j] == b[j]);
        }
        ordered_files_are_one(a0, b0);
    } else {
        assert(va =~= vb);
    }
}

/// The order in which the files of a package are listed does not matter, as
/// long as what is listed under one path is one file.
pub proof fn listing_order_does_not_matter(a: Seq<PackageFile>, b: Seq<PackageFile>)
    requires
        one_file_a_path(a),
        file_views(a).to_multiset() == file_views(b).to_multiset(),
    ensures
        package_bytes(a) == package_bytes(b),
        package_manifest(a) == package_manifest(b),
{
    let x = sorting::sorted(a);
    let y = sorting::sorted(b);
    sorting::sorting_orders(a);
    sorting::sorting_orders(b);
    sorting_keeps_the_views(a);
    sorting_keeps_the_views(b);
    assert(one_file_a_path(x)) by {
        assert forall|i: int, j: int|
            0 <= i < x.len() && 0 <= j < x.len() && (#[trigger] x[i]).relative@ == (
            #[trigger] x[j]).relative@ implies x[i]@ == x[j]@ by {
            sorting::sorted_members(a, x[i]);
            sorting::sorted_members(a, x[j]);
            let p = choose|p: int| 0 <= p < a.len() && a[p] == x[i];
            let q = choose|q: int| 0 <= q < a.len() && a[q] == x[j];
            assert(a[p].relative@ == a[q].relative@);
        }
    }
    ordered_files_are_one(x, y);
    manifest_entries_by_views(x, y);
}

/// Two files are the same as far as a manifest tells.
pub open spec fn same_file(a: PackageFile, b: PackageFile) -> bool {
    a@ == b@
}

/// Neither the path of a file nor its fingerprint holds a zero byte.
pub open spec fn plainly_named(files: Seq<PackageFile>) -> bool {
    forall|i: int|
        0 <= i < files.len() ==> digest::zero_free(
            digest::utf8_of(seq![(#[trigger] files[i]).relative@, files[i].sha256@]),
        )
}

proof fn manifest_entries_front(files: Seq<PackageFile>)
    requires
        files.len() > 0,
    ensures
        manifest_entries(files) == manifest_entry(files[0]) + manifest_entries(files.skip(1)),
    decreases files.len(),
{
    if files.len() == 1 {
        assert(files.drop_last() =~= Seq::<PackageFile>::empty());
        assert(files.skip(1) =~= Seq::<PackageFile>::empty());
        assert(manifest_entries(files) =~= manifest_entry(files[0]) + manifest_entries(
            files.skip(1),
        ));
    } else {
        manifest_entries_front(files.drop_last());
        assert(files.drop_last().skip(1) =~= files.skip(1).drop_last());
        assert(files.skip(1).last() == files.last());
        assert(manifest_entries(files) =~= manifest_entry(files[0]) + manifest_entries(
            files.skip(1),
        ));
    }
}

proof fn manifest_entry_splits(a: PackageFile, b: PackageFile, x: Seq<u8>, y: Seq<u8>)
    requires
        digest::zero_free(digest::utf8_of(seq![a.relative@, a.sha256@])),
        digest::zero_free(digest::utf8_of(seq![b.relative@, b.sha256@])),
        manifest_entry(a) + x == manifest_entry(b) + y,
    ensures
        same_file(a, b),
        x == y,
{
    let ra = vstd::utf8::encode_utf8(a.relative@);
    let rb = vstd::utf8::encode_utf8(b.relative@);
    let ha = vstd::utf8::encode_utf8(a.sha256@);
    let hb = vstd::utf8::encode_utf8(b.sha256@);
    let pa = digest::utf8_of(seq![a.relative@, a.sha256@]);
    let pb = digest::utf8_of(seq![b.relative@, b.sha256@]);
    assert(pa[0] == ra && pa[1] == ha && pb[0] == rb && pb[1] == hb);
    let la = digest::length_le(a.size);
    let lb = digest::length_le(b.size);
    let after_a = la + ha.push(0u8) + x;
    let after_b = lb + hb.push(0u8) + y;
    assert(manifest_entry(a) + x =~= ra.push(0u8) + after_a);
    assert(manifest_entry(b) + y =~= rb.push(0u8) + after_b);
    digest::first_terminated_is_told(ra, after_a, rb, after_b);
    assert(after_a =~= la + (ha.push(0u8) + x));
    assert(after_b =~= lb + (hb.push(0u8) + y));
    digest::length_le_is_told(a.size, ha.push(0u8) + x, b.size, hb.push(0u8) + y);
    digest::first_terminated_is_told(ha, x, hb, y);
    vstd::utf8::encode_utf8_decode_utf8(a.relative@);
    vstd::utf8::encode_utf8_decode_utf8(b.relative@);
    vstd::utf8::encode_utf8_decode_utf8(a.sha256@);
    vstd::utf8::encode_utf8_decode_utf8(b.sha256@);
}

proof fn manifest_entries_tell_files(a: Seq<PackageFile>, b: Seq<PackageFile>)
    requires
        plainly_named(a),
        plainly_named(b),
        manifest_entries(a) == manifest_entries(b),
    ensures
        a.len() == b.len(),
        forall|i: int| 0 <= i < a.len() ==> same_file(#[trigger] a[i], b[i]),
    decreases a.len(),
{
    if a.len() > 0 {
        manifest_entries_front(a);
        assert(manifest_entries(a).len() > 0);
    }
    if b.len() > 0 {
        manifest_entries_front(b);
        assert(manifest_entries(b).len() > 0);
    }
    if a.len() > 0 && b.len() > 0 {
        assert(digest::zero_free(digest::utf8_of(seq![a[0].relative@, a[0].sha256@])));
        assert(digest::zero_free(digest::utf8_of(seq![b[0].relative@, b[0].sha256@])));
        manifest_entry_splits(
            a[0],
            b[0],
            manifest_entries(a.skip(1)),
            manifest_entries(b.skip(1)),
        );
        assert(plainly_named(a.skip(1))) by {
            assert forall|i: int| 0 <= i < a.skip(1).len() implies digest::zero_free(
                digest::utf8_of(
                    seq![(#[trigger] a.skip(1)[i]).relative@, a.skip(1)[i].sha256@],
                ),
            ) by {
                assert(a.skip(1)[i] == a[i + 1]);
            }
        }
        assert(plainly_named(b.skip(1))) by {
            assert forall|i: int| 0 <= i < b.skip(1).len() implies digest::zero_free(
                digest::utf8_of(
                    seq![(#[trigger] b.skip(1)[i]).relative@, b.skip(1)[i].sha256@],
                ),
            ) by {
                assert(b.skip(1)[i] == b[i + 1]);
            }
        }
        manifest_entries_tell_files(a.skip(1), b.skip(1));
        assert forall|i: int| 0 <= i < a.len() implies same_file(#[trigger] a[i], b[i]) by {
            if i > 0 {
                assert(same_file(a.skip(1)[i - 1], b.skip(1)[i - 1]));
            }
        }
    }
}

proof fn sorting_keeps_plain_names(files: Seq<PackageFile>)
    requires
        plainly_named(files),
    ensures
        plainly_named(sorting::sorted(files)),
{
    let s = sorting::sorted(files);
    assert forall|i: int| 0 <= i < s.len() implies digest::zero_free(
        digest::utf8_of(seq![(#[trigger] s[i]).relative@, s[i].sha256@]),
    ) by {
        sorting::sorted_members(files, s[i]);
        let k = choose|k: int| 0 <= k < files.len() && files[k] == s[i];
        assert(digest::zero_free(
            digest::utf8_of(seq![files[k].relative@, files[k].sha256@]),
        ));
    }
}

/// What is hashed of a package tells every file of it: a package of which the
/// same is hashed has a file of the same path, size and fingerprint.
pub proof fn manifests_tell_every_file(a: Seq<PackageFile>, b: Seq<PackageFile>, i: int)
    requires
        plainly_named(a),
        plainly_named(b),
        package_bytes(a) == package_bytes(b),
        0 <= i < a.len(),
    ensures
        a.len() == b.len(),
        exists|k: int| 0 <= k < b.len() && same_file(a[i], #[trigger] b[k]),
{
    let x = sorting::sorted(a);
    let y = sorting::sorted(b);
    let head = vstd::utf8::encode_utf8("project-brain/scip-python-package/v1"@).push(0u8);
    assert(manifest_entries(x) =~= package_bytes(a).skip(head.len() as int));
    assert(manifest_entries(y) =~= package_bytes(b).skip(head.len() as int));
    sorting_keeps_plain_names(a);
    sorting_keeps_plain_names(b);
    manifest_entries_tell_files(x, y);
    sorting::sorting_orders(a);
    sorting::sorting_orders(b);
    assert(a.contains(a[i]));
    sorting::sorted_members(a, a[i]);
    let p = choose|p: int| 0 <= p < x.len() && x[p] == a[i];
    assert(same_file(x[p], y[p]));
    assert(y.contains(y[p]));
    sorting::sorted_members(b, y[p]);
    let k = choose|k: int| 0 <= k < b.len() && b[k] == y[p];
    assert(same_file(a[i], b[k]));
}

proof fn manifest_entries_around(files: Seq<PackageFile>, p: int)
    requires
        0 <= p < files.len(),
    ensures
        manifest_entries(files) == manifest_entries(files.take(p)) + manifest_entry(files[p])
            + manifest_entries(files.skip(p + 1)),
    decreases files.len(),
{
    let front = files.take(p);
    let back = files.skip(p + 1);
    if p == files.len() - 1 {
        assert(files.drop_last() =~= front);
        assert(back =~= Seq::<PackageFile>::empty());
        assert(manifest_entries(files) =~= manifest_entries(front) + manifest_entry(files[p])
            + manifest_entries(back));
    } else {
        let init = files.drop_last();
        manifest_entries_around(init, p);
        assert(init.take(p) =~= front);
        assert(init.skip(p + 1) =~= back.drop_last());
        assert(back.last() == files.last());
        assert(manifest_entries(files) =~= manifest_entries(front) + manifest_entry(files[p])
            + manifest_entries(back));
    }
}

proof fn manifest_entry_tells_the_file(a: PackageFile, b: PackageFile)
    requires
        a.relative@ == b.relative@,
        manifest_entry(a) == manifest_entry(b),
    ensures
        same_file(a, b),
{
    let path = vstd::utf8::encode_utf8(a.relative@).push(0u8);
    let ha = vstd::utf8::encode_utf8(a.sha256@);
    let hb = vstd::utf8::encode_utf8(b.sha256@);
    let after_a = digest::length_le(a.size) + ha.push(0u8);
    let after_b = digest::length_le(b.size) + hb.push(0u8);
    assert(manifest_entry(a) =~= path + after_a);
    assert(manifest_entry(b) =~= path + after_b);
    assert(after_a =~= manifest_entry(a).skip(path.len() as int));
    assert(after_b =~= manifest_entry(b).skip(path.len() as int));
    digest::length_le_is_told(a.size, ha.push(0u8), b.size, hb.push(0u8));
    assert(ha =~= ha.push(0u8).drop_last());
    assert(hb =~= hb.push(0u8).drop_last());
    vstd::utf8::encode_utf8_decode_utf8(a.sha256@);
    vstd::utf8::encode_utf8_decode_utf8(b.sha256@);
}

/// What is hashed of a package changes with any one of its files, whichever it
/// is.
pub proof fn any_changed_file_changes_the_manifest(
    files: Seq<PackageFile>,
    i: int,
    changed: PackageFile,
)
    requires
        0 <= i < files.len(),
        changed.relative@ == files[i].relative@,
    ensures
        package_bytes(files) == package_bytes(files.update(i, changed)) <==> same_file(
            files[i],
            changed,
        ),
{
    let p = sorting::changed_items_keep_their_place(files, i, changed);
    let x = sorting::sorted(files);
    let y = x.update(p, changed);
    let head = vstd::utf8::encode_utf8("project-brain/scip-python-package/v1"@).push(0u8);
    if same_file(files[i], changed) {
        assert(file_views(x) =~= file_views(y));
        manifest_entries_by_views(x, y);
    }
    if package_bytes(files) == package_bytes(files.update(i, changed)) {
        assert(manifest_entries(x) =~= package_bytes(files).skip(head.len() as int));
        assert(manifest_entries(y) =~= package_bytes(files.update(i, changed)).skip(
            head.len() as int,
        ));
        manifest_entries_around(x, p);
        manifest_entries_around(y, p);
        assert(y.take(p) =~= x.take(p));
        assert(y.skip(p + 1) =~= x.skip(p + 1));
        let front = manifest_entries(x.take(p));
        let ex = manifest_entry(x[p]);
        let ey = manifest_entry(changed);
        let back = manifest_entries(x.skip(p + 1));
        assert((front + ex + back).len() == (front + ey + back).len());
        assert(ex =~= (front + ex + back).subrange(
            front.len() as int,
            (front.len() + ex.len()) as int,
        ));
        assert(ey =~= (front + ey + back).subrange(
            front.len() as int,
            (front.len() + ey.len()) as int,
        ));
        manifest_entry_tells_the_file(files[i], changed);
    }
}

/// A file of a package holds these bytes.
pub open spec fn file_holds(file: PackageFile, bytes: Seq<u8>) -> bool {
    file.size == bytes.len() && file.sha256@ == digest::sha256_hex(bytes)
}

/// The fingerprint of a package covers what every one of its files holds: where
/// one of them comes to hold other bytes the fingerprint is another one, unless
/// the fingerprints of two different things are the same.
pub proof fn the_manifest_covers_every_file(
    files: Seq<PackageFile>,
    i: int,
    changed: PackageFile,
    held: Seq<u8>,
    holds: Seq<u8>,
)
    requires
        0 <= i < files.len(),
        changed.relative@ == files[i].relative@,
        file_holds(files[i], held),
        file_holds(changed, holds),
    ensures
        package_manifest(files) == package_manifest(files.update(i, changed)) <==> {
            ||| held == holds
            ||| held.len() == holds.len() && digest::collide(held, holds)
            ||| digest::collide(package_bytes(files), package_bytes(files.update(i, changed)))
        },
{
    any_changed_file_changes_the_manifest(files, i, changed);
    digest::fingerprints_tell_bytes(held, holds);
    digest::fingerprints_tell_bytes(package_bytes(files), package_bytes(files.update(i, changed)));
}

// ---------------------------------------------------------------------------
// Bindings
// ---------------------------------------------------------------------------

/// What is found of the files of a binding: the program, its script, and the
/// fingerprint of the package of the script.
#[derive(Debug, PartialEq, Eq)]
pub struct BindingFacts {
    pub executable: ArtifactFacts,
    pub script: ArtifactFacts,
    pub package: Result<String, AppError>,
}

/// Why the launcher package of a binding is not trusted.
pub open spec fn package_drift(
    binding: ProviderBinding,
    profile: SemanticProviderProfile,
    facts: BindingFacts,
) -> Option<ErrorView> {
    if is_producer(profile.producer@, "scip-python"@) && binding.launcher_script is Some {
        match binding.launcher_package_manifest_sha256 {
            None => Some(
                ErrorView::Provider("scip-python 绑定缺少包清单哈希；请显式重新绑定"@),
            ),
            Some(expected) => match facts.package {
                Err(e) => Some(e@),
                Ok(actual) => if actual@ == expected@ {
                    None
                } else {
                    Some(
                        ErrorView::Provider("scip-python 包内容发生漂移；请显式重新绑定"@),
                    )
                },
            },
        }
    } else if binding.launcher_package_manifest_sha256 is Some {
        Some(
            ErrorView::Provider(
                "provider profile="@ + profile.id@ + " 不应包含 launcher 包清单"@,
            ),
        )
    } else {
        None
    }
}

/// Why a binding is not trusted: it is not of the profile, its name does not
/// stand for its content, or one of its files is not what was pinned.
pub open spec fn binding_refusal(
    binding: ProviderBinding,
    profile: SemanticProviderProfile,
    facts: BindingFacts,
) -> Option<ErrorView> {
    if binding.producer@ != profile.producer@ || binding.profile_id@ != profile.id@ {
        Some(
            ErrorView::Provider(
                "provider profile="@ + profile.id@ + " 的仓库契约与机器绑定不一致"@,
            ),
        )
    } else if binding.registration_id@ != registration_of(
        binding.project_key@,
        binding.profile_id@,
        binding.producer@,
        binding.executable,
        binding.launcher_script,
        model::opt_view(binding.launcher_package_manifest_sha256),
    ) {
        Some(
            ErrorView::Provider(
                "provider profile="@ + profile.id@
                    + " 的 registration_id 与固定内容不一致；请显式重新绑定"@,
            ),
        )
    } else {
        match drift_refusal(binding.executable, facts.executable, "Provider executable"@) {
            Some(e) => Some(e),
            None => {
                let script = match binding.launcher_script {
                    Some(script) => drift_refusal(
                        script,
                        facts.script,
                        "Provider launcher script"@,
                    ),
                    None => None,
                };
                match script {
                    Some(e) => Some(e),
                    None => package_drift(binding, profile, facts),
                }
            },
        }
    }
}

/// Whether a binding is still what was bound.
pub fn validate_binding(
    binding: &ProviderBinding,
    profile: &SemanticProviderProfile,
    facts: &BindingFacts,
) -> (r: Result<(), AppError>)
    ensures
        error::follows(r, binding_refusal(*binding, *profile, *facts)),
{
    if !text::same(binding.producer.as_str(), profile.producer.as_str()) || !text::same(
        binding.profile_id.as_str(),
        profile.id.as_str(),
    ) {
        return Err(
            AppError::Provider(
                text::cat3(
                    "provider profile=",
                    profile.id.as_str(),
                    " 的仓库契约与机器绑定不一致",
                ),
            ),
        );
    }
    let expected = registration_id(
        binding.project_key.as_str(),
        binding.profile_id.as_str(),
        binding.producer.as_str(),
        &binding.executable,
        &binding.launcher_script,
        &binding.launcher_package_manifest_sha256,
    );
    if !text::same(binding.registration_id.as_str(), expected.as_str()) {
        return Err(
            AppError::Provider(
                text::cat3(
                    "provider profile=",
                    profile.id.as_str(),
                    " 的 registration_id 与固定内容不一致；请显式重新绑定",
                ),
            ),
        );
    }
    match validate_artifact(&binding.executable, &facts.executable, "Provider executable") {
        Err(e) => {
            return Err(e);
        },
        Ok(()) => {},
    }
    match &binding.launcher_script {
        Some(script) => match validate_artifact(script, &facts.script, "Provider launcher script") {
            Err(e) => {
                return Err(e);
            },
            Ok(()) => {},
        },
        None => {},
    }
    if text::same_ignoring_case(profile.producer.as_str(), "scip-python")
        && binding.launcher_script.is_some() {
        match &binding.launcher_package_manifest_sha256 {
            None => Err(
                AppError::Provider("scip-python 绑定缺少包清单哈希；请显式重新绑定".to_owned()),
            ),
            Some(expected) => match &facts.package {
                Err(e) => Err(error::copy_error(e)),
                Ok(actual) => {
                    if text::same(actual.as_str(), expected.as_str()) {
                        return Ok(());
                    }
                    Err(
                        AppError::Provider(
                            "scip-python 包内容发生漂移；请显式重新绑定".to_owned(),
                        ),
                    )
                },
            },
        }
    } else if binding.launcher_package_manifest_sha256.is_some() {
        Err(
            AppError::Provider(
                text::cat3(
                    "provider profile=",
                    profile.id.as_str(),
                    " 不应包含 launcher 包清单",
                ),
            ),
        )
    } else {
        Ok(())
    }
}

/// Why the files of a binding are not run: one lies in the repository.
pub open spec fn placement_refusal(binding: ProviderBinding, facts: BindingFacts) -> Option<
    ErrorView,
> {
    match repository_refusal(
        facts.executable.inside_repository,
        binding.executable.canonical_path@,
        "Provider executable"@,
    ) {
        Some(e) => Some(e),
        None => match binding.launcher_script {
            Some(script) => repository_refusal(
                facts.script.inside_repository,
                script.canonical_path@,
                "Provider launcher script"@,
            ),
            None => None,
        },
    }
}

/// Why a binding is not used.
pub open spec fn use_refusal(
    binding: ProviderBinding,
    profile: SemanticProviderProfile,
    facts: BindingFacts,
) -> Option<ErrorView> {
    match binding_refusal(binding, profile, facts) {
        Some(e) => Some(e),
        None => placement_refusal(binding, facts),
    }
}

/// Whether a binding may be used.
pub fn check_binding(
    binding: &ProviderBinding,
    profile: &SemanticProviderProfile,
    facts: &BindingFacts,
) -> (r: Result<(), AppError>)
    ensures
        error::follows(r, use_refusal(*binding, *profile, *facts)),
{
    match validate_binding(binding, profile, facts) {
        Err(e) => {
            return Err(e);
        },
        Ok(()) => {},
    }
    match reject_repository_artifact(
        facts.executable.inside_repository,
        &binding.executable,
        "Provider executable",
    ) {
        Err(e) => {
            return Err(e);
        },
        Ok(()) => {},
    }
    match &binding.launcher_script {
        Some(script) => reject_repository_artifact(
            facts.script.inside_repository,
            script,
            "Provider launcher script",
        ),
        None => Ok(()),
    }
}

// ---------------------------------------------------------------------------
// The registry
// ---------------------------------------------------------------------------

/// A binding has the names of an earlier one.
pub open spec fn repeats(bindings: Seq<ProviderBinding>, i: int) -> bool {
    exists|j: int| 0 <= j < i && sorting::same_names(#[trigger] bindings[j], bindings[i])
}

/// No two bindings are for the same project and profile.
pub open spec fn distinct(bindings: Seq<ProviderBinding>) -> bool {
    forall|i: int, j: int|
        0 <= i < j < bindings.len() ==> !sorting::same_names(
            #[trigger] bindings[i],
            #[trigger] bindings[j],
        )
}

/// A stored registry may be used: it is of this version, and no two bindings
/// are for the same project and profile.
pub fn check_registry(registry: &ProviderRegistry) -> (r: Result<(), AppError>)
    ensures
        match r {
            Ok(()) => registry.schema_version == PROVIDER_SCHEMA_VERSION && distinct(
                registry.bindings@,
            ),
            Err(e) => if registry.schema_version != PROVIDER_SCHEMA_VERSION {
                e@ == ErrorView::Provider("Provider 注册表 schema 不兼容"@)
            } else {
                exists|i: int|
                    {
                        &&& 0 <= i < registry.bindings@.len()
                        &&& #[trigger] repeats(registry.bindings@, i)
                        &&& forall|k: int| 0 <= k < i ==> !#[trigger] repeats(registry.bindings@, k)
                        &&& e@ == ErrorView::Provider(
                            "Provider 注册表存在重复绑定："@ + registry.bindings@[i].project_key@
                                + "/"@ + registry.bindings@[i].profile_id@,
                        )
                    }
            },
        },
{
    if registry.schema_version != PROVIDER_SCHEMA_VERSION {
        return Err(AppError::Provider("Provider 注册表 schema 不兼容".to_owned()));
    }
    let bindings = &registry.bindings;
    let mut i: usize = 0;
    while i < bindings.len()
        invariant
            i <= bindings@.len(),
            bindings == &registry.bindings,
            registry.schema_version == PROVIDER_SCHEMA_VERSION,
            forall|k: int| 0 <= k < i ==> !#[trigger] repeats(bindings@, k),
        decreases bindings@.len() - i,
    {
        let mut j: usize = 0;
        while j < i
            invariant
                j <= i < bindings@.len(),
                bindings == &registry.bindings,
                registry.schema_version == PROVIDER_SCHEMA_VERSION,
                forall|k: int| 0 <= k < i ==> !#[trigger] repeats(bindings@, k),
                forall|k: int|
                    0 <= k < j ==> !sorting::same_names(
                        #[trigger] bindings@[k],
                        bindings@[i as int],
                    ),
            decreases i - j,
        {
            if sorting::are_same_names(&bindings[j], &bindings[i]) {
                assert(repeats(bindings@, i as int));
                return Err(
                    AppError::Provider(
                        text::cat4(
                            "Provider 注册表存在重复绑定：",
                            bindings[i].project_key.as_str(),
                            "/",
                            bindings[i].profile_id.as_str(),
                        ),
                    ),
                );
            }
            j = j + 1;
        }
        assert(!repeats(bindings@, i as int));
        i = i + 1;
    }
    assert(distinct(bindings@)) by {
        assert forall|a: int, b: int| 0 <= a < b < bindings@.len() implies !sorting::same_names(
            #[trigger] bindings@[a],
            #[trigger] bindings@[b],
        ) by {
            assert(!repeats(bindings@, b));
        }
    }
    Ok(())
}

/// A binding is for a project and a profile.
pub open spec fn is_for(
    binding: ProviderBinding,
    project_key: Seq<char>,
    profile_id: Seq<char>,
) -> bool {
    binding.project_key@ == project_key && binding.profile_id@ == profile_id
}

/// The first binding for a project and a profile.
pub open spec fn first_binding(
    bindings: Seq<ProviderBinding>,
    project_key: Seq<char>,
    profile_id: Seq<char>,
) -> Option<ProviderBinding>
    decreases bindings.len(),
{
    if bindings.len() == 0 {
        None
    } else if is_for(bindings[0], project_key, profile_id) {
        Some(bindings[0])
    } else {
        first_binding(bindings.skip(1), project_key, profile_id)
    }
}

/// The binding for a project and a profile.
pub fn find_binding<'a>(
    bindings: &'a Vec<ProviderBinding>,
    project_key: &str,
    profile_id: &str,
) -> (r: Option<&'a ProviderBinding>)
    ensures
        match r {
            Some(b) => first_binding(bindings@, project_key@, profile_id@) == Some(*b),
            None => first_binding(bindings@, project_key@, profile_id@) is None,
        },
{
    let mut i: usize = 0;
    assert(bindings@.skip(0) =~= bindings@);
    while i < bindings.len()
        invariant
            i <= bindings@.len(),
            first_binding(bindings@, project_key@, profile_id@) == first_binding(
                bindings@.skip(i as int),
                project_key@,
                profile_id@,
            ),
        decreases bindings@.len() - i,
    {
        assert(bindings@.skip(i as int)[0] == bindings@[i as int]);
        assert(bindings@.skip(i as int).skip(1) =~= bindings@.skip(i + 1));
        if text::same(bindings[i].project_key.as_str(), project_key) && text::same(
            bindings[i].profile_id.as_str(),
            profile_id,
        ) {
            return Some(&bindings[i]);
        }
        i = i + 1;
    }
    None
}

/// A binding is for a project and, up to ASCII case, a profile.
pub open spec fn is_loosely_for(
    binding: ProviderBinding,
    project_key: Seq<char>,
    profile_id: Seq<char>,
) -> bool {
    binding.project_key@ == project_key && text::lowered(binding.profile_id@) == text::lowered(
        profile_id,
    )
}

fn loosely_for(binding: &ProviderBinding, project_key: &str, profile_id: &str) -> (r: bool)
    ensures
        r == is_loosely_for(*binding, project_key@, profile_id@),
{
    text::same(binding.project_key.as_str(), project_key) && text::same_ignoring_case(
        binding.profile_id.as_str(),
        profile_id,
    )
}

/// Where the first binding for a project and a profile stands.
pub open spec fn place_for(
    bindings: Seq<ProviderBinding>,
    project_key: Seq<char>,
    profile_id: Seq<char>,
) -> Option<int>
    decreases bindings.len(),
{
    if bindings.len() == 0 {
        None
    } else {
        match place_for(bindings.drop_last(), project_key, profile_id) {
            Some(i) => Some(i),
            None => if is_loosely_for(bindings.last(), project_key, profile_id) {
                Some(bindings.len() - 1)
            } else {
                None
            },
        }
    }
}

fn find_place(bindings: &Vec<ProviderBinding>, project_key: &str, profile_id: &str) -> (r: Option<
    usize,
>)
    ensures
        match r {
            Some(i) => i < bindings@.len() && place_for(bindings@, project_key@, profile_id@)
                == Some(i as int),
            None => place_for(bindings@, project_key@, profile_id@) is None,
        },
{
    let mut found: Option<usize> = None;
    let mut i: usize = 0;
    assert(bindings@.take(0) =~= Seq::<ProviderBinding>::empty());
    while i < bindings.len()
        invariant
            i <= bindings@.len(),
            match found {
                Some(k) => k < i && place_for(
                    bindings@.take(i as int),
                    project_key@,
                    profile_id@,
                ) == Some(k as int),
                None => place_for(bindings@.take(i as int), project_key@, profile_id@) is None,
            },
        decreases bindings@.len() - i,
    {
        assert(bindings@.take(i + 1).drop_last() =~= bindings@.take(i as int));
        if found.is_none() && loosely_for(&bindings[i], project_key, profile_id) {
            found = Some(i);
        }
        i = i + 1;
    }
    assert(bindings@.take(bindings@.len() as int) =~= bindings@);
    found
}

/// The bindings that are not for a project and a profile.
pub open spec fn others(
    bindings: Seq<ProviderBinding>,
    project_key: Seq<char>,
    profile_id: Seq<char>,
) -> Seq<ProviderBinding>
    decreases bindings.len(),
{
    if bindings.len() == 0 {
        Seq::empty()
    } else {
        let before = others(bindings.drop_last(), project_key, profile_id);
        if is_loosely_for(bindings.last(), project_key, profile_id) {
            before
        } else {
            before.push(bindings.last())
        }
    }
}

/// Take back the binding of a profile.
pub fn unbind(registry: ProviderRegistry, project_key: &str, profile_id: &str) -> (r: (
    ProviderRegistry,
    ProviderUnbindReport,
))
    ensures
        r.0.schema_version == registry.schema_version,
        r.0.bindings@ == others(registry.bindings@, project_key@, profile_id@),
        r.1.schema_version == PROVIDER_SCHEMA_VERSION,
        r.1.project_key@ == project_key@,
        r.1.profile_id@ == profile_id@,
        r.1.changed == (r.0.bindings@.len() != registry.bindings@.len()),
{
    let before: usize = registry.bindings.len();
    let mut kept: Vec<ProviderBinding> = Vec::new();
    let mut i: usize = 0;
    assert(registry.bindings@.take(0) =~= Seq::<ProviderBinding>::empty());
    while i < registry.bindings.len()
        invariant
            i <= registry.bindings@.len(),
            kept@ == others(registry.bindings@.take(i as int), project_key@, profile_id@),
        decreases registry.bindings@.len() - i,
    {
        assert(registry.bindings@.take(i + 1).drop_last() =~= registry.bindings@.take(i as int));
        if !loosely_for(&registry.bindings[i], project_key, profile_id) {
            kept.push(copy_binding(&registry.bindings[i]));
        }
        i = i + 1;
    }
    assert(registry.bindings@.take(registry.bindings@.len() as int) =~= registry.bindings@);
    let changed = before != kept.len();
    (
        ProviderRegistry { schema_version: registry.schema_version, bindings: kept },
        ProviderUnbindReport {
            schema_version: PROVIDER_SCHEMA_VERSION,
            project_key: project_key.to_owned(),
            profile_id: profile_id.to_owned(),
            changed,
        },
    )
}

/// A binding after it was entered: which one it became, what the registry
/// holds then, and whether that is anything new.
pub struct EnteredView {
    pub bindings: Seq<ProviderBinding>,
    pub binding: ProviderBinding,
    pub changed: bool,
}

/// The revision after another.
pub open spec fn next_revision(revision: u64) -> u64 {
    if revision == u64::MAX {
        u64::MAX
    } else {
        (revision + 1) as u64
    }
}

/// A new binding among the others: the same one again changes nothing, a
/// different one for the same profile replaces it only where that was asked
/// for, under the next revision.
pub open spec fn entered(
    bindings: Seq<ProviderBinding>,
    binding: ProviderBinding,
    project_key: Seq<char>,
    profile_id: Seq<char>,
    replace: bool,
) -> Result<EnteredView, ErrorView> {
    match place_for(bindings, project_key, profile_id) {
        Some(i) => if equivalent(bindings[i], binding) {
            Ok(
                EnteredView {
                    bindings,
                    binding: ProviderBinding {
                        registration_id: bindings[i].registration_id,
                        revision: bindings[i].revision,
                        ..binding
                    },
                    changed: false,
                },
            )
        } else if !replace {
            Err(
                ErrorView::Provider(
                    "profile="@ + text::quoted(profile_id)
                        + " 已绑定且内容不同；请显式传入 --replace"@,
                ),
            )
        } else {
            let renewed = ProviderBinding {
                revision: next_revision(bindings[i].revision),
                ..binding
            };
            Ok(
                EnteredView {
                    bindings: sorting::sorted(bindings.update(i, renewed)),
                    binding: renewed,
                    changed: true,
                },
            )
        },
        None => Ok(
            EnteredView {
                bindings: sorting::sorted(bindings.push(binding)),
                binding,
                changed: true,
            },
        ),
    }
}

/// A binding after it was entered.
#[derive(Debug, Clone, PartialEq, Eq)]
pub struct Entered {
    pub bindings: Vec<ProviderBinding>,
    pub binding: ProviderBinding,
    pub changed: bool,
}

/// Enter a new binding among the others.
pub fn enter_binding(
    bindings: Vec<ProviderBinding>,
    binding: ProviderBinding,
    project_key: &str,
    profile_id: &str,
    replace: bool,
) -> (r: Result<Entered, AppError>)
    ensures
        match r {
            Ok(e) => entered(bindings@, binding, project_key@, profile_id@, replace) == Ok::<
                EnteredView,
                ErrorView,
            >(
                EnteredView { bindings: e.bindings@, binding: e.binding, changed: e.changed },
            ),
            Err(e) => entered(bindings@, binding, project_key@, profile_id@, replace) == Err::<
                EnteredView,
                ErrorView,
            >(e@),
        },
{
    let mut bindings = bindings;
    let mut binding = binding;
    match find_place(&bindings, project_key, profile_id) {
        Some(i) => {
            if binding_equivalent(&bindings[i], &binding) {
                binding.registration_id = bindings[i].registration_id.clone();
                binding.revision = bindings[i].revision;
                return Ok(Entered { bindings, binding, changed: false });
            }
            if !replace {
                let shown = text::quote(profile_id);
                return Err(
                    AppError::Provider(
                        text::cat3(
                            "profile=",
                            shown.as_str(),
                            " 已绑定且内容不同；请显式传入 --replace",
                        ),
                    ),
                );
            }
            let old_revision: u64 = bindings[i].revision;
            binding.revision = if old_revision == u64::MAX {
                u64::MAX
            } else {
                old_revision + 1
            };
            bindings.set(i, copy_binding(&binding));
            Ok(Entered { bindings: sorting::sort(bindings), binding, changed: true })
        },
        None => {
            bindings.push(copy_binding(&binding));
            Ok(Entered { bindings: sorting::sort(bindings), binding, changed: true })
        },
    }
}

/// No two bindings are for the same project and, up to ASCII case, the same
/// profile.
pub open spec fn loosely_distinct(bindings: Seq<ProviderBinding>) -> bool {
    forall|i: int, j: int|
        0 <= i < j < bindings.len() ==> !is_loosely_for(
            #[trigger] bindings[j],
            (#[trigger] bindings[i]).project_key@,
            bindings[i].profile_id@,
        )
}

proof fn place_is_first(bindings: Seq<ProviderBinding>, key: Seq<char>, id: Seq<char>)
    ensures
        match place_for(bindings, key, id) {
            Some(i) => 0 <= i < bindings.len() && is_loosely_for(bindings[i], key, id),
            None => forall|i: int|
                0 <= i < bindings.len() ==> !is_loosely_for(#[trigger] bindings[i], key, id),
        },
    decreases bindings.len(),
{
    if bindings.len() > 0 {
        let init = bindings.drop_last();
        place_is_first(init, key, id);
        assert forall|i: int| 0 <= i < init.len() implies init[i] == bindings[i] by {}
        if place_for(bindings, key, id) is None {
            assert forall|i: int| 0 <= i < bindings.len() implies !is_loosely_for(
                #[trigger] bindings[i],
                key,
                id,
            ) by {
                if i < init.len() {
                    assert(!is_loosely_for(init[i], key, id));
                }
            }
        }
    }
}

proof fn only_one_place(bindings: Seq<ProviderBinding>, key: Seq<char>, id: Seq<char>, i: int)
    requires
        loosely_distinct(bindings),
        0 <= i < bindings.len(),
        is_loosely_for(bindings[i], key, id),
    ensures
        place_for(bindings, key, id) == Some(i),
{
    place_is_first(bindings, key, id);
    let p = place_for(bindings, key, id)->0;
    if p < i {
        assert(!is_loosely_for(bindings[i], bindings[p].project_key@, bindings[p].profile_id@));
    } else if i < p {
        assert(!is_loosely_for(bindings[p], bindings[i].project_key@, bindings[i].profile_id@));
    }
}

/// Sorting keeps bindings apart.
proof fn sorting_keeps_apart(bindings: Seq<ProviderBinding>)
    requires
        loosely_distinct(bindings),
    ensures
        loosely_distinct(sorting::sorted(bindings)),
{
    let s = sorting::sorted(bindings);
    sorting::sorting_orders(bindings);
    bindings.to_multiset_ensures();
    s.to_multiset_ensures();
    assert(bindings.no_duplicates()) by {
        assert forall|i: int, j: int|
            0 <= i < bindings.len() && 0 <= j < bindings.len() && i != j implies bindings[i]
            != bindings[j] by {
            if i < j {
                assert(!is_loosely_for(
                    bindings[j],
                    bindings[i].project_key@,
                    bindings[i].profile_id@,
                ));
            } else {
                assert(!is_loosely_for(
                    bindings[i],
                    bindings[j].project_key@,
                    bindings[j].profile_id@,
                ));
            }
        }
    }
    bindings.lemma_multiset_has_no_duplicates();
    s.lemma_multiset_has_no_duplicates_conv();
    assert forall|i: int, j: int| 0 <= i < j < s.len() implies !is_loosely_for(
        #[trigger] s[j],
        (#[trigger] s[i]).project_key@,
        s[i].profile_id@,
    ) by {
        assert(s.contains(s[i]) && s.contains(s[j]));
        assert(s.to_multiset().contains(s[i]) && s.to_multiset().contains(s[j]));
        assert(bindings.contains(s[i]) && bindings.contains(s[j]));
        let a = choose|a: int| 0 <= a < bindings.len() && bindings[a] == s[i];
        let b = choose|b: int| 0 <= b < bindings.len() && bindings[b] == s[j];
        assert(a != b);
        if a < b {
            assert(!is_loosely_for(
                bindings[b],
                bindings[a].project_key@,
                bindings[a].profile_id@,
            ));
        } else {
            assert(!is_loosely_for(
                bindings[a],
                bindings[b].project_key@,
                bindings[b].profile_id@,
            ));
        }
    }
}

/// Entering a binding leaves at most one for each project and profile.
pub proof fn entering_keeps_apart(
    bindings: Seq<ProviderBinding>,
    binding: ProviderBinding,
    project_key: Seq<char>,
    profile_id: Seq<char>,
    replace: bool,
)
    requires
        loosely_distinct(bindings),
        is_loosely_for(binding, project_key, profile_id),
    ensures
        entered(bindings, binding, project_key, profile_id, replace) matches Ok(e)
            ==> loosely_distinct(e.bindings),
{
    place_is_first(bindings, project_key, profile_id);
    match place_for(bindings, project_key, profile_id) {
        Some(i) => {
            let renewed = ProviderBinding {
                revision: next_revision(bindings[i].revision),
                ..binding
            };
            let next = bindings.update(i, renewed);
            assert forall|a: int, b: int| 0 <= a < b < next.len() implies !is_loosely_for(
                #[trigger] next[b],
                (#[trigger] next[a]).project_key@,
                next[a].profile_id@,
            ) by {
                assert(!is_loosely_for(
                    bindings[b],
                    bindings[a].project_key@,
                    bindings[a].profile_id@,
                ));
            }
            sorting_keeps_apart(next);
        },
        None => {
            let next = bindings.push(binding);
            assert forall|a: int, b: int| 0 <= a < b < next.len() implies !is_loosely_for(
                #[trigger] next[b],
                (#[trigger] next[a]).project_key@,
                next[a].profile_id@,
            ) by {
                if b < bindings.len() {
                    assert(!is_loosely_for(
                        bindings[b],
                        bindings[a].project_key@,
                        bindings[a].profile_id@,
                    ));
                } else {
                    assert(!is_loosely_for(bindings[a], project_key, profile_id));
                }
            }
            sorting_keeps_apart(next);
        },
    }
}

/// Binding the same thing again changes nothing: the registry stays as it is,
/// and the binding keeps its registration and its revision.
pub proof fn binding_again_changes_nothing(
    bindings: Seq<ProviderBinding>,
    binding: ProviderBinding,
    project_key: Seq<char>,
    profile_id: Seq<char>,
    replace: bool,
    again: bool,
)
    requires
        loosely_distinct(bindings),
        is_loosely_for(binding, project_key, profile_id),
        entered(bindings, binding, project_key, profile_id, replace) is Ok,
    ensures
        ({
            let e = entered(bindings, binding, project_key, profile_id, replace)->Ok_0;
            &&& entered(e.bindings, binding, project_key, profile_id, again) is Ok
            &&& ({
                let f = entered(e.bindings, binding, project_key, profile_id, again)->Ok_0;
                &&& !f.changed
                &&& f.bindings == e.bindings
                &&& f.binding.revision == e.binding.revision
                &&& f.binding.registration_id@ == e.binding.registration_id@
            })
        }),
{
    let e = entered(bindings, binding, project_key, profile_id, replace)->Ok_0;
    entering_keeps_apart(bindings, binding, project_key, profile_id, replace);
    place_is_first(bindings, project_key, profile_id);
    if e.changed {
        let before = match place_for(bindings, project_key, profile_id) {
            Some(i) => bindings.update(
                i,
                ProviderBinding { revision: next_revision(bindings[i].revision), ..binding },
            ),
            None => bindings.push(binding),
        };
        let at = match place_for(bindings, project_key, profile_id) {
            Some(i) => i,
            None => bindings.len() as int,
        };
        assert(before[at] == e.binding);
        sorting::sorting_orders(before);
        before.to_multiset_ensures();
        e.bindings.to_multiset_ensures();
        assert(before.contains(e.binding));
        assert(before.to_multiset().contains(e.binding));
        assert(e.bindings.contains(e.binding));
        let k = choose|k: int| 0 <= k < e.bindings.len() && e.bindings[k] == e.binding;
        only_one_place(e.bindings, project_key, profile_id, k);
    }
}

/// After a profile is unbound nothing is bound for it, and everything else is
/// as it was.
pub proof fn unbinding_leaves_the_others(
    bindings: Seq<ProviderBinding>,
    project_key: Seq<char>,
    profile_id: Seq<char>,
)
    ensures
        place_for(others(bindings, project_key, profile_id), project_key, profile_id) is None,
        forall|b: ProviderBinding|
            others(bindings, project_key, profile_id).contains(b) <==> bindings.contains(b)
                && !is_loosely_for(b, project_key, profile_id),
    decreases bindings.len(),
{
    if bindings.len() > 0 {
        let init = bindings.drop_last();
        let last = bindings.last();
        let before = others(init, project_key, profile_id);
        let after = others(bindings, project_key, profile_id);
        unbinding_leaves_the_others(init, project_key, profile_id);
        if !is_loosely_for(last, project_key, profile_id) {
            assert(after.drop_last() =~= before);
        }
        assert forall|b: ProviderBinding|
            after.contains(b) <==> bindings.contains(b) && !is_loosely_for(
                b,
                project_key,
                profile_id,
            ) by {
            assert(bindings =~= init.push(last));
            if init.contains(b) {
                let k = choose|k: int| 0 <= k < init.len() && init[k] == b;
                assert(bindings[k] == b);
            }
            if before.contains(b) {
                let k = choose|k: int| 0 <= k < before.len() && before[k] == b;
                assert(after[k] == b);
            }
            if bindings.contains(b) && b != last {
                let k = choose|k: int| 0 <= k < bindings.len() && bindings[k] == b;
                assert(init[k] == b);
            }
            if after.contains(b) && !before.contains(b) {
                let k = choose|k: int| 0 <= k < after.len() && after[k] == b;
                assert(k == before.len() ==> b == last);
                if k < before.len() {
                    assert(before[k] == b);
                }
            }
            if b == last {
                assert(bindings[bindings.len() - 1] == b);
                if !is_loosely_for(last, project_key, profile_id) {
                    assert(after[before.len() as int] == b);
                }
            }
        }
    } else {
        assert(others(bindings, project_key, profile_id) =~= Seq::<ProviderBinding>::empty());
    }
}

// ---------------------------------------------------------------------------
// Status
// ---------------------------------------------------------------------------

/// What is found of a profile on this machine: its binding, and what is wrong
/// with it.
pub struct ProfileFinding {
    pub binding: Option<ProviderBinding>,
    pub issue: Option<Seq<char>>,
}

/// What is said of a profile without a binding.
pub open spec fn unbound_issue(profile: SemanticProviderProfile) -> Seq<char> {
    "provider profile="@ + profile.id@ + " 尚未在本机绑定"@
}

/// What is found of a profile in a registry.
pub open spec fn finding_of(
    profile: SemanticProviderProfile,
    project_key: Seq<char>,
    bindings: Seq<ProviderBinding>,
    facts: BindingFacts,
) -> ProfileFinding {
    match first_binding(bindings, project_key, profile.id@) {
        Some(binding) => ProfileFinding {
            binding: Some(binding),
            issue: match use_refusal(binding, profile, facts) {
                Some(e) => Some(e.message()),
                None => None,
            },
        },
        None => ProfileFinding { binding: None, issue: Some(unbound_issue(profile)) },
    }
}

/// A trust status says what was found.
pub open spec fn trust_says(
    status: ProviderTrustStatus,
    profile: SemanticProviderProfile,
    found: ProfileFinding,
) -> bool {
    &&& status.profile_id@ == profile.id@
    &&& status.ready == (found.issue is None)
    &&& model::opt_view(status.issue) == found.issue
    &&& match found.binding {
        Some(binding) => {
            &&& status.registration_id == Some(binding.registration_id)
            &&& status.registration_revision == Some(binding.revision)
            &&& status.executable_sha256 == Some(binding.executable.sha256)
            &&& status.launcher_package_manifest_sha256
                == binding.launcher_package_manifest_sha256
        },
        None => {
            &&& status.registration_id is None
            &&& status.registration_revision is None
            &&& status.executable_sha256 is None
            &&& status.launcher_package_manifest_sha256 is None
        },
    }
}

/// What is found where the registry or the project root cannot be read.
pub open spec fn unreadable(error: Seq<char>) -> ProfileFinding {
    ProfileFinding { binding: None, issue: Some(error) }
}

/// What is found of a profile on this machine.
pub open spec fn trust_finding(
    profile: SemanticProviderProfile,
    project_key: Seq<char>,
    registry: Result<ProviderRegistry, String>,
    root: Result<(), String>,
    facts: BindingFacts,
) -> ProfileFinding {
    match registry {
        Err(error) => unreadable(error@),
        Ok(registry) => match root {
            Err(error) => unreadable(error@),
            Ok(()) => finding_of(profile, project_key, registry.bindings@, facts),
        },
    }
}

fn trust_unreadable(profile: &SemanticProviderProfile, error: &str) -> (r: ProviderTrustStatus)
    ensures
        trust_says(r, *profile, unreadable(error@)),
{
    ProviderTrustStatus {
        profile_id: profile.id.clone(),
        ready: false,
        registration_id: None,
        registration_revision: None,
        executable_sha256: None,
        launcher_package_manifest_sha256: None,
        issue: Some(error.to_owned()),
    }
}

fn issue_of(
    binding: &ProviderBinding,
    profile: &SemanticProviderProfile,
    facts: &BindingFacts,
) -> (r: Option<String>)
    ensures
        model::opt_view(r) == match use_refusal(*binding, *profile, *facts) {
            Some(e) => Some(e.message()),
            None => None,
        },
{
    match check_binding(binding, profile, facts) {
        Ok(()) => None,
        Err(e) => Some(e.message()),
    }
}

fn trust_of_profile(
    profile: &SemanticProviderProfile,
    project_key: &str,
    registry: &Result<ProviderRegistry, String>,
    root: &Result<(), String>,
    facts: &BindingFacts,
) -> (r: ProviderTrustStatus)
    ensures
        trust_says(r, *profile, trust_finding(*profile, project_key@, *registry, *root, *facts)),
{
    let registry = match registry {
        Err(error) => {
            return trust_unreadable(profile, error.as_str());
        },
        Ok(registry) => registry,
    };
    match root {
        Err(error) => {
            return trust_unreadable(profile, error.as_str());
        },
        Ok(()) => {},
    }
    match find_binding(&registry.bindings, project_key, profile.id.as_str()) {
        Some(binding) => {
            let issue = issue_of(binding, profile, facts);
            ProviderTrustStatus {
                profile_id: profile.id.clone(),
                ready: issue.is_none(),
                registration_id: Some(binding.registration_id.clone()),
                registration_revision: Some(binding.revision),
                executable_sha256: Some(binding.executable.sha256.clone()),
                launcher_package_manifest_sha256: copy_opt(
                    &binding.launcher_package_manifest_sha256,
                ),
                issue,
            }
        },
        None => {
            let issue = text::cat3("provider profile=", profile.id.as_str(), " 尚未在本机绑定");
            trust_unreadable(profile, issue.as_str())
        },
    }
}

/// Whether the bindings of the profiles can be trusted now, given what is
/// found of the files of each.
pub fn trust_status(
    project_key: &str,
    profiles: &Vec<SemanticProviderProfile>,
    registry: &Result<ProviderRegistry, String>,
    root: &Result<(), String>,
    facts: &Vec<BindingFacts>,
) -> (r: Vec<ProviderTrustStatus>)
    requires
        facts@.len() == profiles@.len(),
    ensures
        r@.len() == profiles@.len(),
        forall|i: int|
            0 <= i < r@.len() ==> trust_says(
                #[trigger] r@[i],
                profiles@[i],
                trust_finding(profiles@[i], project_key@, *registry, *root, facts@[i]),
            ),
{
    let mut out: Vec<ProviderTrustStatus> = Vec::new();
    let mut i: usize = 0;
    while i < profiles.len()
        invariant
            i <= profiles@.len(),
            facts@.len() == profiles@.len(),
            out@.len() == i,
            forall|k: int|
                0 <= k < i ==> trust_says(
                    #[trigger] out@[k],
                    profiles@[k],
                    trust_finding(profiles@[k], project_key@, *registry, *root, facts@[k]),
                ),
        decreases profiles@.len() - i,
    {
        out.push(trust_of_profile(&profiles[i], project_key, registry, root, &facts[i]));
        i = i + 1;
    }
    out
}

/// The state of a profile.
pub open spec fn state_of(found: ProfileFinding) -> Seq<char> {
    if found.binding is None {
        "missing"@
    } else if found.issue is None {
        "ready"@
    } else {
        "drifted"@
    }
}

/// A status says what was found.
pub open spec fn status_says(
    status: ProviderStatus,
    profile: SemanticProviderProfile,
    found: ProfileFinding,
) -> bool {
    &&& status.profile_id@ == profile.id@
    &&& status.producer@ == profile.producer@
    &&& status.state@ == state_of(found)
    &&& model::opt_view(status.issue) == found.issue
    &&& match found.binding {
        Some(binding) => {
            &&& status.executable == Some(binding.executable.canonical_path)
            &&& status.launcher_script == match binding.launcher_script {
                Some(script) => Some(script.canonical_path),
                None => None,
            }
            &&& status.resolved_version == Some(binding.resolved_version)
        },
        None => {
            &&& status.executable is None
            &&& status.launcher_script is None
            &&& status.resolved_version is None
        },
    }
}

/// The status of a profile.
pub fn provider_status(
    project_key: &str,
    profile: &SemanticProviderProfile,
    bindings: &Vec<ProviderBinding>,
    facts: &BindingFacts,
) -> (r: ProviderStatus)
    ensures
        status_says(r, *profile, finding_of(*profile, project_key@, bindings@, *facts)),
{
    match find_binding(bindings, project_key, profile.id.as_str()) {
        None => ProviderStatus {
            profile_id: profile.id.clone(),
            producer: profile.producer.clone(),
            state: "missing".to_owned(),
            executable: None,
            launcher_script: None,
            resolved_version: None,
            issue: Some(
                text::cat3("provider profile=", profile.id.as_str(), " 尚未在本机绑定"),
            ),
        },
        Some(binding) => {
            let issue = issue_of(binding, profile, facts);
            ProviderStatus {
                profile_id: profile.id.clone(),
                producer: profile.producer.clone(),
                state: (if issue.is_none() {
                    "ready"
                } else {
                    "drifted"
                }).to_owned(),
                executable: Some(binding.executable.canonical_path.clone()),
                launcher_script: match &binding.launcher_script {
                    Some(script) => Some(script.canonical_path.clone()),
                    None => None,
                },
                resolved_version: Some(binding.resolved_version.clone()),
                issue,
            }
        },
    }
}

fn statuses(
    project_key: &str,
    profiles: &Vec<SemanticProviderProfile>,
    bindings: &Vec<ProviderBinding>,
    facts: &Vec<BindingFacts>,
) -> (r: Vec<ProviderStatus>)
    requires
        facts@.len() == profiles@.len(),
    ensures
        r@.len() == profiles@.len(),
        forall|i: int|
            0 <= i < r@.len() ==> status_says(
                #[trigger] r@[i],
                profiles@[i],
                finding_of(profiles@[i], project_key@, bindings@, facts@[i]),
            ),
{
    let mut out: Vec<ProviderStatus> = Vec::new();
    let mut i: usize = 0;
    while i < profiles.len()
        invariant
            i <= profiles@.len(),
            facts@.len() == profiles@.len(),
            out@.len() == i,
            forall|k: int|
                0 <= k < i ==> status_says(
                    #[trigger] out@[k],
                    profiles@[k],
                    finding_of(profiles@[k], project_key@, bindings@, facts@[k]),
                ),
        decreases profiles@.len() - i,
    {
        out.push(provider_status(project_key, &profiles[i], bindings, &facts[i]));
        i = i + 1;
    }
    out
}

/// The statuses of all profiles of a project.
pub fn list(
    project_key: &str,
    profiles: &Vec<SemanticProviderProfile>,
    registry: &ProviderRegistry,
    facts: &Vec<BindingFacts>,
) -> (r: ProviderListReport)
    requires
        facts@.len() == profiles@.len(),
    ensures
        r.schema_version == PROVIDER_SCHEMA_VERSION,
        r.project_key@ == project_key@,
        r.profiles@.len() == profiles@.len(),
        forall|i: int|
            0 <= i < r.profiles@.len() ==> status_says(
                #[trigger] r.profiles@[i],
                profiles@[i],
                finding_of(profiles@[i], project_key@, registry.bindings@, facts@[i]),
            ),
{
    ProviderListReport {
        schema_version: PROVIDER_SCHEMA_VERSION,
        project_key: project_key.to_owned(),
        profiles: statuses(project_key, profiles, &registry.bindings, facts),
    }
}

/// What is wrong with the first profiles.
pub open spec fn issues_of(
    profiles: Seq<SemanticProviderProfile>,
    n: nat,
    project_key: Seq<char>,
    bindings: Seq<ProviderBinding>,
    facts: Seq<BindingFacts>,
) -> Seq<Seq<char>>
    decreases n,
{
    if n == 0 {
        Seq::empty()
    } else {
        let before = issues_of(profiles, (n - 1) as nat, project_key, bindings, facts);
        match finding_of(profiles[n - 1], project_key, bindings, facts[n - 1]).issue {
            Some(issue) => before.push(issue),
            None => before,
        }
    }
}

/// What is wrong with the profiles of a project.
pub open spec fn doctor_issues(
    profiles: Seq<SemanticProviderProfile>,
    project_key: Seq<char>,
    registry: Result<ProviderRegistry, String>,
    facts: Seq<BindingFacts>,
) -> Seq<Seq<char>> {
    match registry {
        Err(error) => seq![error@],
        Ok(registry) => issues_of(
            profiles,
            profiles.len(),
            project_key,
            registry.bindings@,
            facts,
        ),
    }
}

/// Whether all profiles of a project are ready on this machine, and what is
/// wrong with those that are not.
pub fn doctor(
    project_key: &str,
    profiles: &Vec<SemanticProviderProfile>,
    registry: &Result<ProviderRegistry, String>,
    facts: &Vec<BindingFacts>,
) -> (r: ProviderDoctorReport)
    requires
        facts@.len() == profiles@.len(),
    ensures
        text::views(r.issues@) == doctor_issues(profiles@, project_key@, *registry, facts@),
        r.ready == (r.issues@.len() == 0),
{
    let mut issues: Vec<String> = Vec::new();
    let registry = match registry {
        Err(error) => {
            issues.push(error.clone());
            assert(text::views(issues@) =~= seq![error@]);
            return ProviderDoctorReport { ready: false, issues };
        },
        Ok(registry) => registry,
    };
    let mut i: usize = 0;
    assert(text::views(issues@) =~= Seq::<Seq<char>>::empty());
    while i < profiles.len()
        invariant
            i <= profiles@.len(),
            facts@.len() == profiles@.len(),
            text::views(issues@) == issues_of(
                profiles@,
                i as nat,
                project_key@,
                registry.bindings@,
                facts@,
            ),
        decreases profiles@.len() - i,
    {
        let status = provider_status(project_key, &profiles[i], &registry.bindings, &facts[i]);
        match status.issue {
            Some(issue) => {
                let ghost before = text::views(issues@);
                issues.push(issue);
                assert(text::views(issues@) =~= before.push(issue@));
            },
            None => {},
        }
        i = i + 1;
    }
    ProviderDoctorReport { ready: issues.len() == 0, issues }
}

/// A profile is trusted only with a binding that is its own, is named for its
/// content, and whose files are all still what was pinned.
pub proof fn readiness_needs_unchanged_files(
    profile: SemanticProviderProfile,
    project_key: Seq<char>,
    registry: Result<ProviderRegistry, String>,
    root: Result<(), String>,
    facts: BindingFacts,
)
    requires
        trust_finding(profile, project_key, registry, root, facts).issue is None,
    ensures
        ({
            let found = trust_finding(profile, project_key, registry, root, facts).binding;
            &&& found is Some
            &&& found->0.producer@ == profile.producer@
            &&& facts.executable.present && facts.executable.sha256 is Ok
            &&& facts.executable.sha256->Ok_0@ == found->0.executable.sha256@
            &&& !facts.executable.inside_repository
            &&& found->0.launcher_script is Some ==> facts.script.sha256 is Ok
                && facts.script.sha256->Ok_0@ == found->0.launcher_script->0.sha256@
                && !facts.script.inside_repository
        }),
{
}

// ---------------------------------------------------------------------------
// What is asked of a provider
// ---------------------------------------------------------------------------

/// What stands under a pinned path is what was pinned.
pub open spec fn unchanged(pinned: ProviderArtifact, facts: ArtifactFacts) -> bool {
    facts.present && facts.sha256 is Ok && facts.sha256->Ok_0@ == pinned.sha256@
}

/// A binding is used exactly where it is the one of the profile, was registered
/// with the content it holds, its executable and its script are unchanged and
/// lie outside the repository, and its package, where it has one, is unchanged.
pub proof fn bindings_are_used_while_nothing_drifts(
    binding: ProviderBinding,
    profile: SemanticProviderProfile,
    facts: BindingFacts,
)
    ensures
        use_refusal(binding, profile, facts) is None <==> {
            &&& binding.producer@ == profile.producer@ && binding.profile_id@ == profile.id@
            &&& binding.registration_id@ == registration_of(
                binding.project_key@,
                binding.profile_id@,
                binding.producer@,
                binding.executable,
                binding.launcher_script,
                model::opt_view(binding.launcher_package_manifest_sha256),
            )
            &&& unchanged(binding.executable, facts.executable)
            &&& !facts.executable.inside_repository
            &&& binding.launcher_script is Some ==> unchanged(
                binding.launcher_script->0,
                facts.script,
            ) && !facts.script.inside_repository
            &&& if text::lowered(profile.producer@) == text::lowered("scip-python"@)
                && binding.launcher_script is Some {
                &&& binding.launcher_package_manifest_sha256 is Some
                &&& facts.package is Ok
                &&& facts.package->Ok_0@ == binding.launcher_package_manifest_sha256->0@
            } else {
                binding.launcher_package_manifest_sha256 is None
            }
        },
{
}

/// A file can be pinned exactly where its path is absolute and leads to a
/// regular file, and an executable exactly where it lies outside the repository
/// and is no script of the shell.
pub proof fn only_outside_programs_are_pinned(
    facts: FileFacts,
    label: Seq<char>,
    inside: bool,
    path: Seq<char>,
    extension: Seq<char>,
)
    ensures
        pin_refusal(facts, label) is None <==> facts.absolute && facts.canonical is Ok
            && facts.regular,
        executable_refusal(inside, path, extension, label) is None <==> !inside && text::lowered(
            extension,
        ) != text::lowered("cmd"@) && text::lowered(extension) != text::lowered("bat"@),
{
}

/// A package is entered through the very script that it names.
pub proof fn packages_are_entered_by_their_script(
    resolved: Result<String, String>,
    script: Seq<char>,
)
    ensures
        entry_refusal(resolved, script) is None <==> resolved is Ok && resolved->Ok_0@ == script,
{
}

/// The profile of a name is the first one with it, whatever the case of its
/// letters.
pub proof fn the_first_profile_of_a_name_counts(
    profiles: Seq<SemanticProviderProfile>,
    id: Seq<char>,
    i: int,
)
    requires
        0 <= i < profiles.len(),
        text::lowered(profiles[i].id@) == text::lowered(id),
        forall|k: int|
            0 <= k < i ==> text::lowered((#[trigger] profiles[k]).id@) != text::lowered(id),
    ensures
        first_profile(profiles, id) == Some(profiles[i]),
    decreases i,
{
    if i > 0 {
        let rest = profiles.skip(1);
        assert(text::lowered(profiles[0].id@) != text::lowered(id));
        assert(rest[i - 1] == profiles[i]);
        assert forall|k: int| 0 <= k < i - 1 implies text::lowered((#[trigger] rest[k]).id@)
            != text::lowered(id) by {
            assert(rest[k] == profiles[k + 1]);
        }
        the_first_profile_of_a_name_counts(rest, id, i - 1);
    }
}

/// A name that no profile has leads to none.
pub proof fn unknown_profiles_are_not_found(
    profiles: Seq<SemanticProviderProfile>,
    id: Seq<char>,
)
    requires
        forall|k: int|
            0 <= k < profiles.len() ==> text::lowered((#[trigger] profiles[k]).id@)
                != text::lowered(id),
    ensures
        first_profile(profiles, id) is None,
    decreases profiles.len(),
{
    if profiles.len() > 0 {
        let rest = profiles.skip(1);
        assert(text::lowered(profiles[0].id@) != text::lowered(id));
        assert forall|k: int| 0 <= k < rest.len() implies text::lowered((#[trigger] rest[k]).id@)
            != text::lowered(id) by {
            assert(rest[k] == profiles[k + 1]);
        }
        unknown_profiles_are_not_found(rest, id);
    }
}

/// The binding of a profile in a project is the first one that names both.
pub proof fn the_first_binding_of_a_profile_counts(
    bindings: Seq<ProviderBinding>,
    project_key: Seq<char>,
    profile_id: Seq<char>,
)
    ensures
        first_binding(bindings, project_key, profile_id) is None <==> forall|k: int|
            0 <= k < bindings.len() ==> (#[trigger] bindings[k]).project_key@ != project_key
                || bindings[k].profile_id@ != profile_id,
        first_binding(bindings, project_key, profile_id) is Some ==> exists|i: int|
            0 <= i < bindings.len() && #[trigger] bindings[i] == first_binding(
                bindings,
                project_key,
                profile_id,
            )->0 && bindings[i].project_key@ == project_key && bindings[i].profile_id@
                == profile_id && forall|k: int|
                0 <= k < i ==> (#[trigger] bindings[k]).project_key@ != project_key
                    || bindings[k].profile_id@ != profile_id,
    decreases bindings.len(),
{
    if bindings.len() > 0 {
        let rest = bindings.skip(1);
        if is_for(bindings[0], project_key, profile_id) {
            assert(bindings[0] == first_binding(bindings, project_key, profile_id)->0);
        } else {
            the_first_binding_of_a_profile_counts(rest, project_key, profile_id);
            if first_binding(rest, project_key, profile_id) is Some {
                let i = choose|i: int|
                    0 <= i < rest.len() && #[trigger] rest[i] == first_binding(
                        rest,
                        project_key,
                        profile_id,
                    )->0 && rest[i].project_key@ == project_key && rest[i].profile_id@
                        == profile_id && forall|k: int|
                        0 <= k < i ==> (#[trigger] rest[k]).project_key@ != project_key
                            || rest[k].profile_id@ != profile_id;
                assert(bindings[i + 1] == rest[i]);
                assert forall|k: int| 0 <= k < i + 1 implies (#[trigger] bindings[k]).project_key@
                    != project_key || bindings[k].profile_id@ != profile_id by {
                    if k > 0 {
                        assert(rest[k - 1] == bindings[k]);
                    }
                }
            } else {
                assert forall|k: int| 0 <= k < bindings.len() implies (
                #[trigger] bindings[k]).project_key@ != project_key || bindings[k].profile_id@
                    != profile_id by {
                    if k > 0 {
                        assert(rest[k - 1] == bindings[k]);
                    }
                }
            }
        }
    }
}

/// Unbinding takes away every binding of the profile in the project, whatever
/// the case of its letters, and keeps all others in their order.
pub proof fn unbinding_takes_the_profile_only(
    bindings: Seq<ProviderBinding>,
    project_key: Seq<char>,
    profile_id: Seq<char>,
)
    ensures
        others(bindings, project_key, profile_id) == bindings.filter(
            |b: ProviderBinding|
                !(b.project_key@ == project_key && text::lowered(b.profile_id@) == text::lowered(
                    profile_id,
                )),
        ),
    decreases bindings.len(),
{
    reveal(Seq::filter);
    if bindings.len() > 0 {
        unbinding_takes_the_profile_only(bindings.drop_last(), project_key, profile_id);
    }
}

/// Binding changes nothing exactly where the profile is bound already, the first
/// binding of it is registered as the new one and pins the same content; it is
/// refused exactly where it would change a binding without leave to replace it.
pub proof fn bindings_change_on_request_only(
    bindings: Seq<ProviderBinding>,
    binding: ProviderBinding,
    project_key: Seq<char>,
    profile_id: Seq<char>,
    replace: bool,
    i: int,
)
    requires
        0 <= i < bindings.len(),
        bindings[i].project_key@ == project_key,
        text::lowered(bindings[i].profile_id@) == text::lowered(profile_id),
        forall|k: int|
            0 <= k < i ==> (#[trigger] bindings[k]).project_key@ != project_key || text::lowered(
                bindings[k].profile_id@,
            ) != text::lowered(profile_id),
    ensures
        ({
            let r = entered(bindings, binding, project_key, profile_id, replace);
            let old_one = bindings[i];
            let same = {
                &&& old_one.registration_id@ == binding.registration_id@
                &&& old_one.project_key@ == binding.project_key@
                &&& old_one.profile_id@ == binding.profile_id@
                &&& old_one.producer@ == binding.producer@
                &&& old_one.executable.canonical_path@ == binding.executable.canonical_path@
                &&& old_one.executable.sha256@ == binding.executable.sha256@
                &&& match (old_one.launcher_script, binding.launcher_script) {
                    (None, None) => true,
                    (Some(a), Some(b)) => a.canonical_path@ == b.canonical_path@ && a.sha256@
                        == b.sha256@,
                    _ => false,
                }
                &&& match (
                    old_one.launcher_package_manifest_sha256,
                    binding.launcher_package_manifest_sha256,
                ) {
                    (None, None) => true,
                    (Some(a), Some(b)) => a@ == b@,
                    _ => false,
                }
                &&& old_one.resolved_version@ == binding.resolved_version@
            };
            &&& r is Err <==> !same && !replace
            &&& r is Ok ==> (r->Ok_0.changed <==> !same)
            &&& same ==> r is Ok && r->Ok_0.bindings == bindings
            &&& r is Ok && !same ==> r->Ok_0.binding.revision == next_revision(old_one.revision)
        }),
{
    first_place_counts(bindings, project_key, profile_id, i);
}

proof fn first_place_counts(
    bindings: Seq<ProviderBinding>,
    project_key: Seq<char>,
    profile_id: Seq<char>,
    i: int,
)
    requires
        0 <= i < bindings.len(),
        is_loosely_for(bindings[i], project_key, profile_id),
        forall|k: int|
            0 <= k < i ==> !is_loosely_for(#[trigger] bindings[k], project_key, profile_id),
    ensures
        place_for(bindings, project_key, profile_id) == Some(i),
    decreases bindings.len(),
{
    let init = bindings.drop_last();
    if i < init.len() {
        assert(init[i] == bindings[i]);
        first_place_counts(init, project_key, profile_id, i);
    } else {
        no_place_before(init, project_key, profile_id);
    }
}

proof fn no_place_before(
    bindings: Seq<ProviderBinding>,
    project_key: Seq<char>,
    profile_id: Seq<char>,
)
    requires
        forall|k: int|
            0 <= k < bindings.len() ==> !is_loosely_for(
                #[trigger] bindings[k],
                project_key,
                profile_id,
            ),
    ensures
        place_for(bindings, project_key, profile_id) is None,
    decreases bindings.len(),
{
    if bindings.len() > 0 {
        assert(!is_loosely_for(bindings[bindings.len() - 1], project_key, profile_id));
        no_place_before(bindings.drop_last(), project_key, profile_id);
    }
}

/// The issues are those of all profiles that have one, in their order.
pub proof fn every_profile_is_looked_at(
    profiles: Seq<SemanticProviderProfile>,
    n: nat,
    project_key: Seq<char>,
    bindings: Seq<ProviderBinding>,
    facts: Seq<BindingFacts>,
)
    requires
        n <= profiles.len(),
    ensures
        issues_of(profiles, n, project_key, bindings, facts) == Seq::new(
            n,
            |i: int| finding_of(profiles[i], project_key, bindings, facts[i]).issue,
        ).filter_map(|x: Option<Seq<char>>| x),
    decreases n,
{
    let all = Seq::new(
        n,
        |i: int| finding_of(profiles[i], project_key, bindings, facts[i]).issue,
    );
    if n > 0 {
        let n0 = (n - 1) as nat;
        every_profile_is_looked_at(profiles, n0, project_key, bindings, facts);
        assert(all.drop_last() =~= Seq::new(
            n0,
            |i: int| finding_of(profiles[i], project_key, bindings, facts[i]).issue,
        ));
        assert(issues_of(profiles, n, project_key, bindings, facts) =~= all.filter_map(
            |x: Option<Seq<char>>| x,
        ));
    }
}

/// A profile has no issue exactly where it is bound and its binding can be used,
/// and it is ready exactly there; without a binding it is missing.
pub proof fn profiles_without_issue_are_ready(
    profile: SemanticProviderProfile,
    project_key: Seq<char>,
    bindings: Seq<ProviderBinding>,
    facts: BindingFacts,
)
    ensures
        ({
            let found = finding_of(profile, project_key, bindings, facts);
            let binding = first_binding(bindings, project_key, profile.id@);
            &&& found.issue is None <==> binding is Some && use_refusal(
                binding->0,
                profile,
                facts,
            ) is None
            &&& found.binding == binding
            &&& state_of(found) == "missing"@ <==> binding is None
            &&& state_of(found) == "ready"@ <==> found.issue is None
        }),
{
    reveal_strlit("missing");
    reveal_strlit("ready");
    reveal_strlit("drifted");
    assert("missing"@[0] == 'm' && "ready"@[0] == 'r' && "drifted"@[0] == 'd');
}

/// Only the three known producers are run, and each is told where the project is
/// and, behind `--output`, where to write.
pub proof fn producers_are_told_where_to_write(
    producer: Seq<char>,
    root: Seq<char>,
    project_key: Seq<char>,
    output: Seq<char>,
)
    ensures
        ({
            let a = arguments_of(producer, root, project_key, output);
            &&& a is Some <==> text::lowered(producer) == text::lowered("rust-analyzer"@)
                || text::lowered(producer) == text::lowered("scip-dotnet"@) || text::lowered(
                producer,
            ) == text::lowered("scip-python"@)
            &&& producer_refusal(producer) is None <==> a is Some
            &&& a is Some ==> a->0.last() == output && a->0[a->0.len() - 2] == "--output"@
                && a->0.contains(root)
            &&& text::lowered(producer) == text::lowered("rust-analyzer"@) ==> a->0.drop_last()
                == seq!["scip"@, root, "--output"@]
        }),
{
    if let Some(a) = arguments_of(producer, root, project_key, output) {
        assert(a[1] == root || a[2] == root);
    }
}

} // verus!
