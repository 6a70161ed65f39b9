//! One build under its contract: a toolchain that says what it is, a source and
//! a program that stay what they are, and evidence of what came of it.
use crate::artifact_store::RuntimeArtifactBundleReceipt;
use crate::build_evidence::{
    self, ArtifactManifest, BuildFinding, BuildOutputKind, BuildVerdict, ExecutionClass,
};
use crate::error::{AppError, ErrorView};
use crate::execution::ProcessResult;
use crate::model::{
    self, EvidenceAuthority, EvidenceCoverage, EvidencePlane, FindingAuthority,
};
use crate::provider_run;
use crate::text;
use vstd::prelude::*;

verus! {

broadcast use {vstd::string::group_string_axioms, vstd::seq::group_seq_axioms};

/// What is built, and with what.
#[derive(Debug, Clone, PartialEq, Eq)]
pub struct BuildOrder {
    pub project_key: String,
    pub profile_id: String,
    pub adapter: String,
    pub version_marker: String,
    pub target: String,
    pub argv: Vec<String>,
    pub root: String,
    pub scratch: String,
    pub executable_sha256: String,
    pub execution_class: ExecutionClass,
    pub output_kind: BuildOutputKind,
    /// Whether there is a directory in which artifacts are left behind.
    pub leaves_artifacts: bool,
}

/// A build that ended, with what it left behind.
#[derive(Debug, PartialEq, Eq)]
pub struct Built {
    pub version: String,
    pub source: String,
    pub process: ProcessResult,
    pub stock: Option<ArtifactManifest>,
}

/// What came of a build.
#[derive(Debug, PartialEq, Eq)]
pub struct Concluded {
    pub built: Built,
    pub verdict: BuildVerdictHead,
    pub findings: Vec<BuildFinding>,
    pub status: String,
    pub bundle: Option<RuntimeArtifactBundleReceipt>,
}

/// What a verdict says, but for what was found.
#[derive(Debug, Clone, Copy, PartialEq, Eq, Structural)]
pub struct BuildVerdictHead {
    pub infrastructure_failure: bool,
    pub coverage: EvidenceCoverage,
}

/// What a build is bound to.
#[derive(Debug, Clone, PartialEq, Eq)]
pub struct BuildContract {
    pub contract_version: u16,
    pub adapter: String,
    pub profile_id: String,
    pub target: String,
    pub argv: Vec<String>,
    pub environment_policy: String,
    pub network_policy: String,
    pub execution_class: ExecutionClass,
}

/// What is told of the process of a build.
#[derive(Debug, Clone, PartialEq, Eq)]
pub struct BuildProcessSummary {
    pub duration_ms: u128,
    pub exit_code: Option<i32>,
    pub stdout_bytes: usize,
    pub stderr_bytes: usize,
    pub stdout_sha256: String,
    pub stdout_excerpt: String,
    pub stderr_sha256: String,
    pub stderr_excerpt: String,
    pub output_truncated: bool,
}

/// What is reported of a build, but for the evidence itself.
#[derive(Debug, PartialEq, Eq)]
pub struct BuildRunReport {
    pub schema_version: u32,
    pub project_key: String,
    pub profile_id: String,
    pub provider_id: String,
    pub toolchain_version: String,
    pub executable_sha256: String,
    pub execution_class: ExecutionClass,
    pub output_kind: BuildOutputKind,
    pub contract: BuildContract,
    pub process: BuildProcessSummary,
    pub artifact_manifest: Option<ArtifactManifest>,
    pub runtime_artifact_bundle: Option<RuntimeArtifactBundleReceipt>,
    pub status: String,
}

/// Something that evidence of a build speaks of.
#[derive(Debug, Clone, PartialEq, Eq)]
pub struct ArtifactDraft {
    pub kind: String,
    pub key: String,
    pub label: String,
    pub path: Option<String>,
    pub content: Vec<u8>,
}

/// What evidence of a build is made from.
#[derive(Debug, PartialEq, Eq)]
pub struct EvidenceDraft {
    pub plane: EvidencePlane,
    pub provider_id: String,
    pub provider_version: String,
    pub contract_version: u16,
    pub authority: EvidenceAuthority,
    pub source_fingerprint: String,
    pub coverage: EvidenceCoverage,
    pub artifacts: Vec<ArtifactDraft>,
    pub findings: Vec<BuildFinding>,
}

/// What is done next.
#[derive(Debug, PartialEq, Eq)]
pub enum BuildPhase {
    /// Ask the toolchain for its version.
    AskVersion,
    /// Take the fingerprint of the source.
    FingerprintBefore(String),
    /// Build; the version and the fingerprint are known.
    Build(String, String),
    /// Take the fingerprint of the source again.
    FingerprintAfter(String, String, ProcessResult),
    /// Hash the program again.
    HashProgram(String, String, ProcessResult),
    /// Take stock of what was left behind.
    TakeStock(String, String, ProcessResult),
    /// Store a bundle for running.
    StoreBundle(Built, BuildVerdict),
    /// Write down the contract.
    WriteContract(Concluded),
    /// Make the evidence.
    MakeEvidence(BuildRunReport, EvidenceDraft),
    /// The evidence is made.
    Done(BuildRunReport),
    /// There is none.
    Failed(AppError),
}

/// What came of it.
#[derive(Debug, PartialEq, Eq)]
pub enum BuildReply {
    Ended(Result<ProcessResult, AppError>),
    Fingerprint(Result<String, AppError>),
    Stock(Result<ArtifactManifest, AppError>),
    /// The bundle that was stored, or the fingerprint of why none was.
    Bundle(Result<RuntimeArtifactBundleReceipt, String>),
    Written(Result<Vec<u8>, AppError>),
    Finished(Result<(), AppError>),
}

/// One build.
#[derive(Debug, PartialEq, Eq)]
pub struct BuildRun {
    pub order: BuildOrder,
    pub phase: BuildPhase,
}

/// A build is over for a reason.
pub open spec fn over(after: BuildPhase, reason: ErrorView) -> bool {
    after matches BuildPhase::Failed(e) && e@ == reason
}

/// Why a toolchain is not used, by what it says of itself.
pub open spec fn version_probe_refusal(order: BuildOrder, process: ProcessResult) -> Option<
    ErrorView,
> {
    match build_evidence::probe_refusal("build toolchain version probe"@, process) {
        Some(e) => Some(e),
        None => match provider_run::version_refusal(provider_run::version_line(process)) {
            Some(e) => Some(e),
            None => build_evidence::toolchain_refusal(
                order.adapter@,
                order.version_marker@,
                text::shortened(provider_run::version_line(process), 512),
            ),
        },
    }
}

/// How many artifacts were left behind.
pub open spec fn stock_size(built: Built) -> nat {
    match built.stock {
        Some(manifest) => manifest.entries@.len(),
        None => 0,
    }
}

/// A verdict is the one of a build.
pub open spec fn judged(order: BuildOrder, built: Built, verdict: BuildVerdict) -> bool {
    build_evidence::verdict_told(
        verdict,
        order.adapter@,
        order.target@,
        built.process,
        build_evidence::machine_at_fault(
            order.adapter@,
            build_evidence::written(built.process.stdout.bytes@, built.process.stderr.bytes@),
        ),
        order.output_kind,
        stock_size(built),
    )
}

/// What came of a build is told.
pub open spec fn concluded(
    c: Concluded,
    built: Built,
    verdict: BuildVerdict,
    bundle: Option<RuntimeArtifactBundleReceipt>,
    failure: Option<Seq<char>>,
) -> bool {
    &&& c.built == built
    &&& c.verdict.infrastructure_failure == verdict.infrastructure_failure
    &&& c.verdict.coverage == verdict.coverage
    &&& c.bundle == bundle
    &&& build_evidence::conclusion_told(
        c.findings@,
        c.status@,
        verdict,
        built.process,
        failure,
    )
}

/// What is done with a build that ended: a bundle is stored where its verdict
/// asks for one, and else the contract is written down.
pub open spec fn after_build(order: BuildOrder, built: Built, after: BuildPhase) -> bool {
    match after {
        BuildPhase::StoreBundle(b, verdict) => {
            &&& b == built && judged(order, built, verdict)
            &&& verdict.store_bundle && built.stock is Some
        },
        BuildPhase::WriteContract(c) => exists|verdict: BuildVerdict|
            #[trigger] judged(order, built, verdict) && !verdict.store_bundle && concluded(
                c,
                built,
                verdict,
                None,
                None,
            ),
        BuildPhase::Failed(e) => {
            &&& e@ == ErrorView::Provider(
                "dotnet Build 缺少最终产物根，拒绝创建 Runtime bundle"@,
            )
            &&& built.stock is None
            &&& exists|verdict: BuildVerdict|
                #[trigger] judged(order, built, verdict) && verdict.store_bundle
        },
        _ => false,
    }
}

/// A contract tells what a build is bound to.
pub open spec fn contract_told(c: BuildContract, order: BuildOrder) -> bool {
    &&& c.contract_version == build_evidence::BUILD_CONTRACT_VERSION
    &&& c.adapter@ == order.adapter@
    &&& c.profile_id@ == order.profile_id@
    &&& c.target@ == order.target@
    &&& text::views(c.argv@) == text::views(order.argv@).map_values(
        |a: Seq<char>| build_evidence::redacted(a, order.root@, order.scratch@),
    )
    &&& c.environment_policy@ == "env_clear+adapter_allowlist+machine_scratch"@
    &&& c.network_policy@ == build_evidence::policy_of(order.adapter@)
    &&& c.execution_class == order.execution_class
}

/// A summary tells the process of a build.
pub open spec fn process_told(
    s: BuildProcessSummary,
    order: BuildOrder,
    process: ProcessResult,
) -> bool {
    &&& s.duration_ms == process.duration_ms
    &&& s.exit_code == process.status.code
    &&& s.stdout_bytes == process.stdout.total_bytes
    &&& s.stderr_bytes == process.stderr.total_bytes
    &&& s.stdout_sha256 == process.stdout.sha256
    &&& s.stderr_sha256 == process.stderr.sha256
    &&& s.stdout_excerpt@ == excerpt(process.stdout.bytes@, order)
    &&& s.stderr_excerpt@ == excerpt(process.stderr.bytes@, order)
    &&& s.output_truncated == (process.stdout.truncated || process.stderr.truncated)
}

/// What is shown of an output.
pub open spec fn excerpt(bytes: Seq<u8>, order: BuildOrder) -> Seq<char> {
    build_evidence::redacted(
        text::shortened(text::utf8_lossy(bytes), 4096),
        order.root@,
        order.scratch@,
    )
}

/// The name under which a build gives evidence.
pub open spec fn provider_of(order: BuildOrder) -> Seq<char> {
    order.adapter@ + "."@ + order.profile_id@
}

/// A report tells what came of a build.
pub open spec fn report_told(r: BuildRunReport, order: BuildOrder, c: Concluded) -> bool {
    &&& r.schema_version == build_evidence::BUILD_RUN_SCHEMA_VERSION
    &&& r.project_key@ == order.project_key@
    &&& r.profile_id@ == order.profile_id@
    &&& r.provider_id@ == provider_of(order)
    &&& r.toolchain_version == c.built.version
    &&& r.executable_sha256@ == order.executable_sha256@
    &&& r.execution_class == order.execution_class
    &&& r.output_kind == order.output_kind
    &&& contract_told(r.contract, order)
    &&& process_told(r.process, order, c.built.process)
    &&& r.artifact_manifest == c.built.stock
    &&& r.runtime_artifact_bundle == c.bundle
    &&& r.status@ == c.status@
}

/// Something that evidence speaks of, as it is told.
pub struct DraftView {
    pub kind: Seq<char>,
    pub key: Seq<char>,
    pub label: Seq<char>,
    pub path: Option<Seq<char>>,
    pub content: Seq<u8>,
}

impl View for ArtifactDraft {
    type V = DraftView;

    open spec fn view(&self) -> DraftView {
        DraftView {
            kind: self.kind@,
            key: self.key@,
            label: self.label@,
            path: model::opt_view(self.path),
            content: self.content@,
        }
    }
}

/// All that evidence of a build speaks of: its contract and its target, and
/// what it left behind.
pub open spec fn artifact_parts(
    order: BuildOrder,
    contract: Seq<u8>,
    stock: Option<ArtifactManifest>,
    bundle: Option<RuntimeArtifactBundleReceipt>,
) -> Seq<DraftView> {
    let first = seq![
        DraftView {
            kind: "build_contract"@,
            key: "contract"@,
            label: "Build execution contract"@,
            path: None,
            content: contract,
        },
        DraftView {
            kind: "build_target"@,
            key: "target"@,
            label: "Canonical project-relative Build target"@,
            path: Some(order.target@),
            content: vstd::utf8::encode_utf8(order.target@),
        },
    ];
    let second = match stock {
        Some(manifest) => first.push(
            DraftView {
                kind: "build_artifact_manifest"@,
                key: "artifact-manifest"@,
                label: "Build artifact manifest"@,
                path: None,
                content: vstd::utf8::encode_utf8(manifest.manifest_fingerprint@),
            },
        ),
        None => first,
    };
    match bundle {
        Some(receipt) => second.push(
            DraftView {
                kind: "runtime_artifact_bundle"@,
                key: "runtime-artifact-bundle"@,
                label: "Content-addressed Runtime artifact bundle"@,
                path: None,
                content: receipt.canonical_manifest@,
            },
        ),
        None => second,
    }
}

/// What a list of drafts tells.
pub open spec fn draft_views(drafts: Seq<ArtifactDraft>) -> Seq<DraftView> {
    drafts.map_values(|d: ArtifactDraft| d@)
}

/// A draft tells what evidence of a build is made from.
pub open spec fn draft_told(
    d: EvidenceDraft,
    order: BuildOrder,
    c: Concluded,
    contract: Seq<u8>,
) -> bool {
    &&& d.plane == EvidencePlane::Build
    &&& d.authority == EvidenceAuthority::Deterministic
    &&& d.provider_id@ == provider_of(order)
    &&& d.provider_version@ == c.built.version@ + "+sha256."@ + order.executable_sha256@
    &&& d.contract_version == build_evidence::BUILD_CONTRACT_VERSION
    &&& d.source_fingerprint == c.built.source
    &&& d.coverage == c.verdict.coverage
    &&& draft_views(d.artifacts@) == artifact_parts(order, contract, c.built.stock, c.bundle)
    &&& d.findings == c.findings
}

/// What a build can do once something came of what it did.
pub open spec fn follows(before: BuildRun, reply: BuildReply, after: BuildPhase) -> bool {
    let order = before.order;
    match (before.phase, reply) {
        (BuildPhase::AskVersion, BuildReply::Ended(ended)) => match ended {
            Err(e) => over(after, e@),
            Ok(process) => match version_probe_refusal(order, process) {
                Some(e) => over(after, e),
                None => after matches BuildPhase::FingerprintBefore(version) && version@
                    == text::shortened(provider_run::version_line(process), 512),
            },
        },
        (BuildPhase::FingerprintBefore(version), BuildReply::Fingerprint(found)) => match found {
            Err(e) => over(after, e@),
            Ok(source) => after == BuildPhase::Build(version, source),
        },
        (BuildPhase::Build(version, source), BuildReply::Ended(ended)) => match ended {
            Err(e) => over(after, e@),
            Ok(process) => after == BuildPhase::FingerprintAfter(version, source, process),
        },
        (BuildPhase::FingerprintAfter(version, source, process), BuildReply::Fingerprint(found)) =>
            match found {
            Err(e) => over(after, e@),
            Ok(now) => match build_evidence::run_refusal(
                source@,
                now@,
                order.executable_sha256@,
                order.executable_sha256@,
            ) {
                Some(e) => over(after, e),
                None => after == BuildPhase::HashProgram(version, now, process),
            },
        },
        (BuildPhase::HashProgram(version, source, process), BuildReply::Fingerprint(found)) =>
            match found {
            Err(e) => over(after, e@),
            Ok(now) => match build_evidence::run_refusal(
                source@,
                source@,
                order.executable_sha256@,
                now@,
            ) {
                Some(e) => over(after, e),
                None => if order.leaves_artifacts {
                    after == BuildPhase::TakeStock(version, source, process)
                } else {
                    after_build(order, Built { version, source, process, stock: None }, after)
                },
            },
        },
        (BuildPhase::TakeStock(version, source, process), BuildReply::Stock(taken)) => match taken {
            Err(e) => over(after, e@),
            Ok(manifest) => after_build(
                order,
                Built { version, source, process, stock: Some(manifest) },
                after,
            ),
        },
        (BuildPhase::StoreBundle(built, verdict), BuildReply::Bundle(stored)) => match stored {
            Ok(receipt) => after matches BuildPhase::WriteContract(c) && concluded(
                c,
                built,
                verdict,
                Some(receipt),
                None,
            ),
            Err(failure) => after matches BuildPhase::WriteContract(c) && concluded(
                c,
                built,
                verdict,
                None,
                Some(failure@),
            ),
        },
        (BuildPhase::WriteContract(c), BuildReply::Written(written)) => match written {
            Err(e) => over(after, e@),
            Ok(bytes) => after matches BuildPhase::MakeEvidence(report, draft) && report_told(
                report,
                order,
                c,
            ) && draft_told(draft, order, c, bytes@),
        },
        (BuildPhase::MakeEvidence(report, _), BuildReply::Finished(made)) => match made {
            Err(e) => over(after, e@),
            Ok(()) => after == BuildPhase::Done(report),
        },
        (BuildPhase::Done(report), _) => after == BuildPhase::Done(report),
        (BuildPhase::Failed(e), _) => after == BuildPhase::Failed(e),
        _ => over(after, ErrorView::UnexpectedReply),
    }
}

fn take_version(order: &BuildOrder, process: ProcessResult) -> (r: BuildPhase)
    ensures
        match version_probe_refusal(*order, process) {
            Some(e) => over(r, e),
            None => r matches BuildPhase::FingerprintBefore(version) && version@
                == text::shortened(provider_run::version_line(process), 512),
        },
{
    match build_evidence::require_probe_success("build toolchain version probe", &process) {
        Err(e) => {
            return BuildPhase::Failed(e);
        },
        Ok(()) => {},
    }
    match provider_run::version_text(&process) {
        Err(e) => BuildPhase::Failed(e),
        Ok(version) => match build_evidence::check_toolchain(
            order.adapter.as_str(),
            order.version_marker.as_str(),
            version.as_str(),
        ) {
            Err(e) => BuildPhase::Failed(e),
            Ok(()) => BuildPhase::FingerprintBefore(version),
        },
    }
}

fn conclude(
    built: Built,
    verdict: BuildVerdict,
    bundle: Option<RuntimeArtifactBundleReceipt>,
    failure: Option<String>,
) -> (r: BuildPhase)
    ensures
        r matches BuildPhase::WriteContract(c) && concluded(
            c,
            built,
            verdict,
            bundle,
            model::opt_view(failure),
        ),
{
    let head = BuildVerdictHead {
        infrastructure_failure: verdict.infrastructure_failure,
        coverage: verdict.coverage,
    };
    let (findings, status) = build_evidence::conclude_build(verdict, &built.process, &failure);
    BuildPhase::WriteContract(
        Concluded { built, verdict: head, findings, status: status.to_owned(), bundle },
    )
}

fn take_built(order: &BuildOrder, built: Built) -> (r: BuildPhase)
    ensures
        after_build(*order, built, r),
{
    let blamed = build_evidence::infrastructure_failure(
        order.adapter.as_str(),
        built.process.stdout.bytes.as_slice(),
        built.process.stderr.bytes.as_slice(),
    );
    let count: usize = match &built.stock {
        Some(manifest) => manifest.entries.len(),
        None => 0,
    };
    let verdict = build_evidence::judge_build(
        order.adapter.as_str(),
        order.target.as_str(),
        &built.process,
        blamed,
        order.output_kind,
        count,
    );
    assert(judged(*order, built, verdict));
    if verdict.store_bundle {
        match &built.stock {
            Some(_) => {},
            None => {
                return BuildPhase::Failed(
                    AppError::Provider(
                        "dotnet Build 缺少最终产物根，拒绝创建 Runtime bundle".to_owned(),
                    ),
                );
            },
        }
        return BuildPhase::StoreBundle(built, verdict);
    }
    conclude(built, verdict, None, None)
}

/// What a build is bound to.
pub fn contract_of(order: &BuildOrder) -> (r: BuildContract)
    ensures
        contract_told(r, *order),
{
    BuildContract {
        contract_version: build_evidence::BUILD_CONTRACT_VERSION,
        adapter: order.adapter.clone(),
        profile_id: order.profile_id.clone(),
        target: order.target.clone(),
        argv: build_evidence::redact_machine_paths(
            &order.argv,
            order.root.as_str(),
            order.scratch.as_str(),
        ),
        environment_policy: "env_clear+adapter_allowlist+machine_scratch".to_owned(),
        network_policy: build_evidence::network_policy(order.adapter.as_str()).to_owned(),
        execution_class: order.execution_class,
    }
}

fn summary_of(order: &BuildOrder, process: &ProcessResult) -> (r: BuildProcessSummary)
    ensures
        process_told(r, *order, *process),
{
    BuildProcessSummary {
        duration_ms: process.duration_ms,
        exit_code: process.status.code,
        stdout_bytes: process.stdout.total_bytes,
        stderr_bytes: process.stderr.total_bytes,
        stdout_sha256: process.stdout.sha256.clone(),
        stdout_excerpt: build_evidence::sanitize_output_excerpt(
            process.stdout.bytes.as_slice(),
            order.root.as_str(),
            order.scratch.as_str(),
        ),
        stderr_sha256: process.stderr.sha256.clone(),
        stderr_excerpt: build_evidence::sanitize_output_excerpt(
            process.stderr.bytes.as_slice(),
            order.root.as_str(),
            order.scratch.as_str(),
        ),
        output_truncated: process.stdout.truncated || process.stderr.truncated,
    }
}

fn bytes_of(s: &str) -> (r: Vec<u8>)
    ensures
        r@ == vstd::utf8::encode_utf8(s@),
{
    let mut out: Vec<u8> = Vec::new();
    crate::digest::append_text(&mut out, s);
    assert(out@ =~= vstd::utf8::encode_utf8(s@));
    out
}

fn drafts_of(
    order: &BuildOrder,
    contract: Vec<u8>,
    stock: &Option<ArtifactManifest>,
    bundle: &Option<RuntimeArtifactBundleReceipt>,
) -> (r: Vec<ArtifactDraft>)
    ensures
        draft_views(r@) == artifact_parts(*order, contract@, *stock, *bundle),
{
    let mut out: Vec<ArtifactDraft> = Vec::new();
    out.push(
        ArtifactDraft {
            kind: "build_contract".to_owned(),
            key: "contract".to_owned(),
            label: "Build execution contract".to_owned(),
            path: None,
            content: contract,
        },
    );
    out.push(
        ArtifactDraft {
            kind: "build_target".to_owned(),
            key: "target".to_owned(),
            label: "Canonical project-relative Build target".to_owned(),
            path: Some(order.target.clone()),
            content: bytes_of(order.target.as_str()),
        },
    );
    let ghost first = artifact_parts(*order, contract@, None, None);
    assert(draft_views(out@) =~= first);
    match stock {
        Some(manifest) => {
            out.push(
                ArtifactDraft {
                    kind: "build_artifact_manifest".to_owned(),
                    key: "artifact-manifest".to_owned(),
                    label: "Build artifact manifest".to_owned(),
                    path: None,
                    content: bytes_of(manifest.manifest_fingerprint.as_str()),
                },
            );
        },
        None => {},
    }
    let ghost second = artifact_parts(*order, contract@, *stock, None);
    assert(draft_views(out@) =~= second);
    match bundle {
        Some(receipt) => {
            let mut content: Vec<u8> = Vec::new();
            crate::digest::append_bytes(&mut content, receipt.canonical_manifest_bytes());
            assert(content@ =~= receipt.canonical_manifest@);
            out.push(
                ArtifactDraft {
                    kind: "runtime_artifact_bundle".to_owned(),
                    key: "runtime-artifact-bundle".to_owned(),
                    label: "Content-addressed Runtime artifact bundle".to_owned(),
                    path: None,
                    content,
                },
            );
        },
        None => {},
    }
    assert(draft_views(out@) =~= artifact_parts(*order, contract@, *stock, *bundle));
    out
}

fn take_contract(order: &BuildOrder, c: Concluded, bytes: Vec<u8>) -> (r: BuildPhase)
    ensures
        r matches BuildPhase::MakeEvidence(report, draft) && report_told(report, *order, c)
            && draft_told(draft, *order, c, bytes@),
{
    let Concluded { built, verdict, findings, status, bundle } = c;
    let Built { version, source, process, stock } = built;
    let artifacts = drafts_of(order, bytes, &stock, &bundle);
    let draft = EvidenceDraft {
        plane: EvidencePlane::Build,
        authority: EvidenceAuthority::Deterministic,
        provider_id: build_evidence::build_provider_id(
            order.adapter.as_str(),
            order.profile_id.as_str(),
        ),
        provider_version: build_evidence::toolchain_identity(
            version.as_str(),
            order.executable_sha256.as_str(),
        ),
        contract_version: build_evidence::BUILD_CONTRACT_VERSION,
        source_fingerprint: source,
        coverage: verdict.coverage,
        artifacts,
        findings,
    };
    let report = BuildRunReport {
        schema_version: build_evidence::BUILD_RUN_SCHEMA_VERSION,
        project_key: order.project_key.clone(),
        profile_id: order.profile_id.clone(),
        provider_id: build_evidence::build_provider_id(
            order.adapter.as_str(),
            order.profile_id.as_str(),
        ),
        toolchain_version: version,
        executable_sha256: order.executable_sha256.clone(),
        execution_class: order.execution_class,
        output_kind: order.output_kind,
        contract: contract_of(order),
        process: summary_of(order, &process),
        artifact_manifest: stock,
        runtime_artifact_bundle: bundle,
        status,
    };
    BuildPhase::MakeEvidence(report, draft)
}

impl BuildRun {
    /// Begins by asking the toolchain for its version, where the profile may be
    /// named so.
    pub fn new(order: BuildOrder) -> (r: Self)
        ensures
            r.order == order,
            match build_evidence::profile_refusal(order.profile_id@) {
                Some(e) => over(r.phase, e),
                None => r.phase == BuildPhase::AskVersion,
            },
    {
        let phase = match build_evidence::validate_profile_id(order.profile_id.as_str()) {
            Err(e) => BuildPhase::Failed(e),
            Ok(()) => BuildPhase::AskVersion,
        };
        BuildRun { order, phase }
    }

    /// Goes on with what came of what was done.
    pub fn step(self, reply: BuildReply) -> (r: Self)
        ensures
            r.order == self.order,
            follows(self, reply, r.phase),
    {
        let BuildRun { order, phase } = self;
        let phase = match (phase, reply) {
            (BuildPhase::AskVersion, BuildReply::Ended(ended)) => match ended {
                Err(e) => BuildPhase::Failed(e),
                Ok(process) => take_version(&order, process),
            },
            (BuildPhase::FingerprintBefore(version), BuildReply::Fingerprint(found)) =>
                match found {
                Err(e) => BuildPhase::Failed(e),
                Ok(source) => BuildPhase::Build(version, source),
            },
            (BuildPhase::Build(version, source), BuildReply::Ended(ended)) => match ended {
                Err(e) => BuildPhase::Failed(e),
                Ok(process) => BuildPhase::FingerprintAfter(version, source, process),
            },
            (
                BuildPhase::FingerprintAfter(version, source, process),
                BuildReply::Fingerprint(found),
            ) => match found {
                Err(e) => BuildPhase::Failed(e),
                Ok(now) => match build_evidence::check_run(
                    source.as_str(),
                    now.as_str(),
                    order.executable_sha256.as_str(),
                    order.executable_sha256.as_str(),
                ) {
                    Err(e) => BuildPhase::Failed(e),
                    Ok(()) => BuildPhase::HashProgram(version, now, process),
                },
            },
            (BuildPhase::HashProgram(version, source, process), BuildReply::Fingerprint(found)) =>
                match found {
                Err(e) => BuildPhase::Failed(e),
                Ok(now) => match build_evidence::check_run(
                    source.as_str(),
                    source.as_str(),
                    order.executable_sha256.as_str(),
                    now.as_str(),
                ) {
                    Err(e) => BuildPhase::Failed(e),
                    Ok(()) => if order.leaves_artifacts {
                        BuildPhase::TakeStock(version, source, process)
                    } else {
                        take_built(&order, Built { version, source, process, stock: None })
                    },
                },
            },
            (BuildPhase::TakeStock(version, source, process), BuildReply::Stock(taken)) =>
                match taken {
                Err(e) => BuildPhase::Failed(e),
                Ok(manifest) => take_built(
                    &order,
                    Built { version, source, process, stock: Some(manifest) },
                ),
            },
            (BuildPhase::StoreBundle(built, verdict), BuildReply::Bundle(stored)) => match stored {
                Ok(receipt) => conclude(built, verdict, Some(receipt), None),
                Err(failure) => conclude(built, verdict, None, Some(failure)),
            },
            (BuildPhase::WriteContract(c), BuildReply::Written(written)) => match written {
                Err(e) => BuildPhase::Failed(e),
                Ok(bytes) => take_contract(&order, c, bytes),
            },
            (BuildPhase::MakeEvidence(report, _), BuildReply::Finished(made)) => match made {
                Err(e) => BuildPhase::Failed(e),
                Ok(()) => BuildPhase::Done(report),
            },
            (BuildPhase::Done(report), _) => BuildPhase::Done(report),
            (BuildPhase::Failed(e), _) => BuildPhase::Failed(e),
            _ => BuildPhase::Failed(AppError::UnexpectedReply),
        };
        BuildRun { order, phase }
    }
}

// ---------------------------------------------------------------------------
// What holds of every build
// ---------------------------------------------------------------------------

/// How far a build is from its end.
pub open spec fn distance(phase: BuildPhase) -> nat {
    match phase {
        BuildPhase::AskVersion => 9,
        BuildPhase::FingerprintBefore(_) => 8,
        BuildPhase::Build(_, _) => 7,
        BuildPhase::FingerprintAfter(_, _, _) => 6,
        BuildPhase::HashProgram(_, _, _) => 5,
        BuildPhase::TakeStock(_, _, _) => 4,
        BuildPhase::StoreBundle(_, _) => 3,
        BuildPhase::WriteContract(_) => 2,
        BuildPhase::MakeEvidence(_, _) => 1,
        BuildPhase::Done(_) => 0,
        BuildPhase::Failed(_) => 0,
    }
}

/// Whatever comes of what it does, a build ends.
pub proof fn builds_end(before: BuildRun, reply: BuildReply, after: BuildPhase)
    requires
        follows(before, reply, after),
    ensures
        distance(before.phase) > 0 ==> distance(after) < distance(before.phase),
        distance(before.phase) == 0 ==> after == before.phase,
{
}

/// A build is judged only where the source is the one that it began with and
/// the program is the one that was pinned.
pub proof fn only_unchanged_builds_are_judged(
    before: BuildRun,
    reply: BuildReply,
    after: BuildPhase,
)
    requires
        follows(before, reply, after),
    ensures
        after is HashProgram ==> before.phase is FingerprintAfter && reply is Fingerprint
            && reply->Fingerprint_0 is Ok && reply->Fingerprint_0->Ok_0@
            == before.phase->FingerprintAfter_1@ && after->HashProgram_1@
            == before.phase->FingerprintAfter_1@,
        before.phase is HashProgram && (after is TakeStock || after is StoreBundle
            || after is WriteContract) ==> reply is Fingerprint && reply->Fingerprint_0 is Ok
            && reply->Fingerprint_0->Ok_0@ == before.order.executable_sha256@,
        after is TakeStock ==> before.phase is HashProgram,
        after is StoreBundle || after is WriteContract ==> before.phase is HashProgram
            || before.phase is TakeStock || before.phase is StoreBundle,
        after is MakeEvidence ==> before.phase is WriteContract,
        after is Done && !(before.phase is Done) ==> before.phase is MakeEvidence,
{
}

/// Where the machine is at fault, the evidence of a build is partial, the build
/// counts as incomplete, and nothing that was found has the authority to
/// block.
pub proof fn machine_failures_stay_advice(
    order: BuildOrder,
    built: Built,
    verdict: BuildVerdict,
    c: Concluded,
    i: int,
)
    requires
        judged(order, built, verdict),
        concluded(c, built, verdict, None, None),
        verdict.infrastructure_failure,
        0 <= i < c.findings@.len(),
    ensures
        c.verdict.coverage == EvidenceCoverage::Partial,
        c.status@ == "incomplete"@,
        c.findings@[i].authority == FindingAuthority::Advisory,
{
    assert(verdict.finding is Some);
    assert(c.findings@[0] == verdict.finding->0);
    assert(verdict.finding->0@.authority == FindingAuthority::Advisory);
}

/// A build counts as a success only where it ended well and nothing was found.
pub proof fn success_means_nothing_was_found(
    order: BuildOrder,
    built: Built,
    verdict: BuildVerdict,
    bundle: Option<RuntimeArtifactBundleReceipt>,
    failure: Option<Seq<char>>,
    c: Concluded,
)
    requires
        judged(order, built, verdict),
        concluded(c, built, verdict, bundle, failure),
        c.status@ == "succeeded"@,
    ensures
        built.process.status.well(),
        c.findings@.len() == 0,
        order.output_kind == BuildOutputKind::ArtifactSet ==> stock_size(built) > 0,
{
    reveal_strlit("succeeded");
    reveal_strlit("incomplete");
    reveal_strlit("failed");
    assert("succeeded"@.len() == 9 && "incomplete"@.len() == 10 && "failed"@.len() == 6);
}

/// Whatever goes wrong outside ends the run without evidence, but for a bundle
/// that could not be stored.
pub proof fn outside_errors_end_builds(before: BuildRun, reply: BuildReply, after: BuildPhase)
    requires
        follows(before, reply, after),
        !(before.phase is Done),
        ({
            ||| reply is Ended && reply->Ended_0 is Err
            ||| reply is Fingerprint && reply->Fingerprint_0 is Err
            ||| reply is Stock && reply->Stock_0 is Err
            ||| reply is Written && reply->Written_0 is Err
            ||| reply is Finished && reply->Finished_0 is Err
        }),
    ensures
        after is Failed,
{
}

/// A report tells what was run and what it came to: the project, the profile,
/// the toolchain and its hash, the status, and all that was left behind.
pub proof fn reports_tell_what_was_built(r: BuildRunReport, order: BuildOrder, c: Concluded)
    requires
        report_told(r, order, c),
    ensures
        r.project_key@ == order.project_key@,
        r.profile_id@ == order.profile_id@,
        r.toolchain_version == c.built.version,
        r.executable_sha256@ == order.executable_sha256@,
        r.status@ == c.status@,
        r.artifact_manifest == c.built.stock,
        r.runtime_artifact_bundle == c.bundle,
        r.contract.adapter@ == order.adapter@,
        r.contract.target@ == order.target@,
        r.contract.argv@.len() == order.argv@.len(),
        r.contract.execution_class == order.execution_class,
{
    assert(text::views(r.contract.argv@).len() == r.contract.argv@.len());
    assert(text::views(order.argv@).len() == order.argv@.len());
}

} // verus!
