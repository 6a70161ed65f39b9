//! What commands report, and whether they end well.
use crate::error::{self, AppError, ErrorView};
use crate::evidence::{self, CurrentSourceVerification, EffectiveEvidenceFreshness, SourceView};
use crate::model::{self, EvidenceAuthority, EvidenceCoverage, EvidenceFreshness, EvidencePlane};
use crate::qualification::QualificationState;
use crate::text;
use vstd::prelude::*;

verus! {

broadcast use {vstd::string::group_string_axioms, vstd::seq::group_seq_axioms};

// ---------------------------------------------------------------------------
// The state of an installation
// ---------------------------------------------------------------------------

/// What is found about an installation.
#[derive(Debug, Clone, PartialEq, Eq)]
pub struct DoctorReport {
    pub status: String,
    pub issues: Vec<String>,
    pub warnings: Vec<String>,
}

/// What a report says.
pub struct DoctorView {
    pub status: Seq<char>,
    pub issues: Seq<Seq<char>>,
    pub warnings: Seq<Seq<char>>,
}

impl View for DoctorReport {
    type V = DoctorView;

    open spec fn view(&self) -> DoctorView {
        DoctorView {
            status: self.status@,
            issues: text::views(self.issues@),
            warnings: text::views(self.warnings@),
        }
    }
}

/// How the program at hand is qualified.
#[derive(Debug, Clone, PartialEq, Eq)]
pub struct ProgramQualification {
    pub qualified: bool,
    pub target_hash: String,
}

/// What is to be said about the qualification of the program at hand.
pub open spec fn qualification_remark(state: Result<ProgramQualification, String>) -> Option<
    Seq<char>,
> {
    match state {
        Ok(q) => if q.qualified {
            None
        } else {
            Some(
                "当前二进制/控制面合同 "@ + q.target_hash@ + " 尚无 Qualified 证明"@,
            )
        },
        Err(e) => Some("无法读取 Production Qualification 状态："@ + e@),
    }
}

/// A report with what is found about the coverage of symbols.
pub open spec fn with_coverage(
    report: DoctorView,
    issues: Seq<Seq<char>>,
    warnings: Seq<Seq<char>>,
) -> DoctorView {
    DoctorView {
        status: if issues.len() > 0 {
            "degraded"@
        } else {
            report.status
        },
        issues: report.issues + issues,
        warnings: report.warnings + warnings,
    }
}

/// A report with a remark, which counts as an issue where it is required that
/// there is nothing to remark.
pub open spec fn with_remark(
    report: DoctorView,
    remark: Option<Seq<char>>,
    required: bool,
) -> DoctorView {
    match remark {
        None => report,
        Some(remark) => if required {
            DoctorView { status: "degraded"@, issues: report.issues.push(remark), ..report }
        } else {
            DoctorView { warnings: report.warnings.push(remark), ..report }
        },
    }
}

fn append_copies(out: &mut Vec<String>, more: &Vec<String>)
    ensures
        text::views(final(out)@) == text::views(old(out)@) + text::views(more@),
{
    let ghost before = text::views(out@);
    let mut i: usize = 0;
    assert(text::views(more@).take(0) =~= Seq::<Seq<char>>::empty());
    while i < more.len()
        invariant
            i <= more@.len(),
            text::views(out@) == before + text::views(more@).take(i as int),
        decreases more@.len() - i,
    {
        let ghost here = text::views(out@);
        out.push(more[i].clone());
        assert(text::views(out@) =~= here.push(more@[i as int]@));
        assert(text::views(more@).take(i + 1) =~= text::views(more@).take(i as int).push(
            more@[i as int]@,
        ));
        assert(text::views(out@) =~= before + text::views(more@).take(i + 1));
        i = i + 1;
    }
    assert(text::views(more@).take(more@.len() as int) =~= text::views(more@));
}

/// Adds to what is found about an installation what is found about the coverage
/// of symbols and about the qualification of the program.
pub fn complete_report(
    report: DoctorReport,
    coverage_issues: &Vec<String>,
    coverage_warnings: &Vec<String>,
    state: &Result<ProgramQualification, String>,
    require_qualified: bool,
) -> (r: DoctorReport)
    ensures
        r@ == with_remark(
            with_coverage(
                report@,
                text::views(coverage_issues@),
                text::views(coverage_warnings@),
            ),
            qualification_remark(*state),
            require_qualified,
        ),
{
    let mut report = report;
    append_copies(&mut report.issues, coverage_issues);
    append_copies(&mut report.warnings, coverage_warnings);
    assert(text::views(coverage_issues@).len() == coverage_issues@.len());
    if coverage_issues.len() > 0 {
        report.status = "degraded".to_owned();
    }
    let remark: Option<String> = match state {
        Ok(q) => if q.qualified {
            None
        } else {
            Some(
                text::cat3(
                    "当前二进制/控制面合同 ",
                    q.target_hash.as_str(),
                    " 尚无 Qualified 证明",
                ),
            )
        },
        Err(e) => Some(text::cat2("无法读取 Production Qualification 状态：", e.as_str())),
    };
    if let Some(remark) = remark {
        let ghost issues = text::views(report.issues@);
        let ghost warnings = text::views(report.warnings@);
        let ghost said = remark@;
        if require_qualified {
            report.issues.push(remark);
            report.status = "degraded".to_owned();
            assert(text::views(report.issues@) =~= issues.push(said));
        } else {
            report.warnings.push(remark);
            assert(text::views(report.warnings@) =~= warnings.push(said));
        }
    }
    report
}

/// Whether the check of an installation ends well.
pub fn doctor_verdict(ready: bool, issues: &Vec<String>) -> (r: Result<(), AppError>)
    ensures
        error::follows(
            r,
            if ready {
                None
            } else {
                Some(ErrorView::DoctorDegraded(text::joined(text::views(issues@), "；"@)))
            },
        ),
{
    if ready {
        return Ok(());
    }
    Err(AppError::DoctorDegraded(text::join(issues, "；")))
}

/// A program without a qualification keeps an installation from being in order
/// exactly where one is required.
pub proof fn required_qualification_degrades(
    report: DoctorView,
    state: Result<ProgramQualification, String>,
    required: bool,
)
    requires
        qualification_remark(state) is Some,
    ensures
        ({
            let r = with_remark(report, qualification_remark(state), required);
            &&& required ==> r.status == "degraded"@ && r.issues.len() == report.issues.len() + 1
            &&& !required ==> r.status == report.status && r.issues == report.issues
        }),
{
}

/// Why the coverage of symbols is not in order.
pub open spec fn coverage_refusal(
    status: Seq<char>,
    issues: Seq<Seq<char>>,
    require_indexed: bool,
) -> Option<ErrorView> {
    if issues.len() > 0 {
        Some(ErrorView::DoctorDegraded(text::joined(issues, "；"@)))
    } else if require_indexed && status != "ready"@ {
        Some(
            ErrorView::DoctorDegraded(
                "semantic coverage status="@ + status
                    + "，但 --require-indexed 要求 ready"@,
            ),
        )
    } else {
        None
    }
}

/// Whether the coverage of symbols is in order.
pub fn provider_coverage(status: &str, issues: &Vec<String>, require_indexed: bool) -> (r: Result<
    (),
    AppError,
>)
    ensures
        error::follows(r, coverage_refusal(status@, text::views(issues@), require_indexed)),
{
    assert(text::views(issues@).len() == issues@.len());
    if issues.len() > 0 {
        return Err(AppError::DoctorDegraded(text::join(issues, "；")));
    }
    if require_indexed && !text::same(status, "ready") {
        return Err(
            AppError::DoctorDegraded(
                text::cat3(
                    "semantic coverage status=",
                    status,
                    "，但 --require-indexed 要求 ready",
                ),
            ),
        );
    }
    Ok(())
}

/// Whether a qualification run ends well.
pub fn qualification_run(run_id: &str, status: QualificationState) -> (r: Result<(), AppError>)
    ensures
        error::follows(
            r,
            if status == QualificationState::Qualified {
                None
            } else {
                Some(
                    ErrorView::Qualification(
                        "运行 "@ + run_id@ + " 的最终状态为 "@ + status.name(),
                    ),
                )
            },
        ),
{
    if status == QualificationState::Qualified {
        return Ok(());
    }
    Err(
        AppError::Qualification(
            text::cat4("运行 ", run_id, " 的最终状态为 ", status.as_str()),
        ),
    )
}

// ---------------------------------------------------------------------------
// Evidence
// ---------------------------------------------------------------------------

/// The runs that evidence is taken from.
#[derive(Debug, Clone, Copy, PartialEq, Eq, Structural)]
pub enum EvidenceRun {
    Runtime,
    DotnetTest,
    RustTest,
    PythonTest,
    GodotScenario,
    Build,
}

impl EvidenceRun {
    /// What is said of a run that did not end well.
    pub open spec fn failure(self) -> Seq<char> {
        match self {
            EvidenceRun::Runtime => "Runtime Evidence 已保存失败结果；运行合同未通过"@,
            EvidenceRun::DotnetTest => "Test Evidence 已保存非通过结果；测试合同未通过"@,
            EvidenceRun::RustTest => "Rust Test Evidence 已保存非通过结果；测试合同未通过"@,
            EvidenceRun::PythonTest =>
                "Python Test Evidence 已保存非通过结果；测试合同未通过"@,
            EvidenceRun::GodotScenario =>
                "Godot Scenario Test Evidence 已保存非通过结果；测试合同未通过"@,
            EvidenceRun::Build => "Build Evidence 已保存失败或未完成结果；构建合同未通过"@,
        }
    }

    /// Whether a run that evidence was taken from ends well; its evidence is
    /// kept either way.
    pub fn verdict(self, succeeded: bool) -> (r: Result<(), AppError>)
        ensures
            error::follows(
                r,
                if succeeded {
                    None
                } else {
                    Some(ErrorView::Provider(self.failure()))
                },
            ),
    {
        if succeeded {
            return Ok(());
        }
        let said: &str = match self {
            EvidenceRun::Runtime => "Runtime Evidence 已保存失败结果；运行合同未通过",
            EvidenceRun::DotnetTest => "Test Evidence 已保存非通过结果；测试合同未通过",
            EvidenceRun::RustTest => "Rust Test Evidence 已保存非通过结果；测试合同未通过",
            EvidenceRun::PythonTest =>
                "Python Test Evidence 已保存非通过结果；测试合同未通过",
            EvidenceRun::GodotScenario =>
                "Godot Scenario Test Evidence 已保存非通过结果；测试合同未通过",
            EvidenceRun::Build => "Build Evidence 已保存失败或未完成结果；构建合同未通过",
        };
        Err(AppError::Provider(said.to_owned()))
    }
}

/// The latest evidence of a provider, as it is recorded.
#[derive(Debug, Clone, PartialEq, Eq)]
pub struct EvidenceHead {
    pub plane: EvidencePlane,
    pub provider_id: String,
    pub snapshot_fingerprint: String,
    pub source_fingerprint: String,
    pub freshness: EvidenceFreshness,
    pub coverage: EvidenceCoverage,
    pub authority: EvidenceAuthority,
}

/// The freshness of the heads now, one for each.
pub fn effective_heads(
    heads: &Vec<EvidenceHead>,
    current: &CurrentSourceVerification,
) -> (r: Vec<EffectiveEvidenceFreshness>)
    ensures
        r@.len() == heads@.len(),
        forall|i: int|
            0 <= i < heads@.len() ==> (#[trigger] r@[i]).freshness == evidence::effective_freshness(
                heads@[i].freshness,
                heads@[i].source_fingerprint@,
                current@,
            ) && model::opt_view(r@[i].reason) == evidence::freshness_reason(
                heads@[i].freshness,
                heads@[i].source_fingerprint@,
                current@,
            ),
{
    let mut out: Vec<EffectiveEvidenceFreshness> = Vec::new();
    let mut i: usize = 0;
    while i < heads.len()
        invariant
            i <= heads@.len(),
            out@.len() == i,
            forall|k: int|
                0 <= k < i ==> (#[trigger] out@[k]).freshness == evidence::effective_freshness(
                    heads@[k].freshness,
                    heads@[k].source_fingerprint@,
                    current@,
                ) && model::opt_view(out@[k].reason) == evidence::freshness_reason(
                    heads@[k].freshness,
                    heads@[k].source_fingerprint@,
                    current@,
                ),
        decreases heads@.len() - i,
    {
        out.push(
            evidence::effective_evidence_freshness(
                heads[i].freshness,
                heads[i].source_fingerprint.as_str(),
                current,
            ),
        );
        i = i + 1;
    }
    out
}

/// The name of a piece of evidence.
#[derive(Debug, Clone, PartialEq, Eq)]
pub struct EvidenceReference {
    pub plane: EvidencePlane,
    pub provider_id: String,
    pub snapshot_fingerprint: String,
}

/// A head is evidence on the engine that can be built on.
pub open spec fn usable_engine(head: EvidenceHead, current: SourceView) -> bool {
    &&& head.plane == EvidencePlane::Engine
    &&& evidence::effective_freshness(head.freshness, head.source_fingerprint@, current)
        == EvidenceFreshness::Fresh
    &&& head.coverage == EvidenceCoverage::Complete
    &&& head.authority == EvidenceAuthority::Deterministic
}

/// The heads that can be built on.
pub open spec fn usable_engines(heads: Seq<EvidenceHead>, current: SourceView) -> Seq<
    EvidenceHead,
> {
    heads.filter(|h: EvidenceHead| usable_engine(h, current))
}

/// Why there is no evidence on the engine to build on.
pub open spec fn engine_refusal(heads: Seq<EvidenceHead>, current: SourceView) -> Option<
    ErrorView,
> {
    let n = usable_engines(heads, current).len();
    if n == 1 {
        None
    } else {
        Some(
            ErrorView::Provider(
                "--require-engine 需要且只允许一个与当前 Source 指纹匹配的 effective-fresh+complete+deterministic Engine head，实际="@
                    + text::decimal(n) + match current {
                    SourceView::Unavailable(e) => "；当前 Source fingerprint 无法验证："@ + e,
                    SourceView::Verified(_) => Seq::empty(),
                },
            ),
        )
    }
}

fn is_usable_engine(head: &EvidenceHead, current: &CurrentSourceVerification) -> (r: bool)
    ensures
        r == usable_engine(*head, current@),
{
    if head.plane != EvidencePlane::Engine {
        return false;
    }
    let effective = evidence::effective_evidence_freshness(
        head.freshness,
        head.source_fingerprint.as_str(),
        current,
    );
    effective.freshness == EvidenceFreshness::Fresh && head.coverage == EvidenceCoverage::Complete
        && head.authority == EvidenceAuthority::Deterministic
}

/// The one piece of evidence on the engine that can be built on.
pub fn required_engine_reference(
    heads: &Vec<EvidenceHead>,
    current: &CurrentSourceVerification,
) -> (r: Result<EvidenceReference, AppError>)
    ensures
        error::follows(r, engine_refusal(heads@, current@)),
        r matches Ok(reference) ==> {
            let head = usable_engines(heads@, current@)[0];
            &&& reference.plane == EvidencePlane::Engine
            &&& reference.provider_id@ == head.provider_id@
            &&& reference.snapshot_fingerprint@ == head.snapshot_fingerprint@
        },
{
    let ghost good = |h: EvidenceHead| usable_engine(h, current@);
    let ghost all = heads@;
    let mut count: usize = 0;
    let mut first: usize = 0;
    let mut i: usize = 0;
    let total: usize = heads.len();
    proof {
        reveal(Seq::filter);
    }
    assert(all.take(0) =~= Seq::<EvidenceHead>::empty());
    while i < total
        invariant
            total == heads@.len(),
            all == heads@,
            good == (|h: EvidenceHead| usable_engine(h, current@)),
            i <= total,
            count <= i,
            count == all.take(i as int).filter(good).len(),
            count > 0 ==> first < i && all[first as int] == all.take(i as int).filter(good)[0],
        decreases total - i,
    {
        proof {
            reveal(Seq::filter);
        }
        assert(all.take(i + 1).drop_last() =~= all.take(i as int));
        assert(all.take(i + 1).last() == all[i as int]);
        if is_usable_engine(&heads[i], current) {
            if count == 0 {
                first = i;
            }
            count = count + 1;
        }
        i = i + 1;
    }
    assert(all.take(total as int) =~= all);
    if count == 1 {
        let head = &heads[first];
        return Ok(
            EvidenceReference {
                plane: EvidencePlane::Engine,
                provider_id: head.provider_id.clone(),
                snapshot_fingerprint: head.snapshot_fingerprint.clone(),
            },
        );
    }
    let shown = text::decimal_text(count as u64);
    let mut said = text::cat2(
        "--require-engine 需要且只允许一个与当前 Source 指纹匹配的 effective-fresh+complete+deterministic Engine head，实际=",
        shown.as_str(),
    );
    match current {
        CurrentSourceVerification::Unavailable(e) => {
            said.append("；当前 Source fingerprint 无法验证：");
            said.append(e.as_str());
        },
        CurrentSourceVerification::Verified(_) => {},
    }
    assert(Err::<EvidenceReference, AppError>(AppError::Provider(said))->Err_0@
        == engine_refusal(heads@, current@)->0) by {
        let ghost tail: Seq<char> = match current@ {
            SourceView::Unavailable(e) => "；当前 Source fingerprint 无法验证："@ + e,
            SourceView::Verified(_) => Seq::empty(),
        };
        assert(said@ =~= "--require-engine 需要且只允许一个与当前 Source 指纹匹配的 effective-fresh+complete+deterministic Engine head，实际="@
            + text::decimal(count as nat) + tail);
    }
    Err(AppError::Provider(said))
}

/// Nothing is built on evidence on the engine unless the source is verified to
/// be the one that the evidence was taken from.
pub proof fn engines_match_their_source(
    heads: Seq<EvidenceHead>,
    current: SourceView,
)
    requires
        engine_refusal(heads, current) is None,
    ensures
        ({
            let head = usable_engines(heads, current)[0];
            &&& heads.contains(head)
            &&& head.freshness == EvidenceFreshness::Fresh
            &&& current == SourceView::Verified(head.source_fingerprint@)
        }),
{
    let good = |h: EvidenceHead| usable_engine(h, current);
    filtered_come_from(heads, good);
    let head = usable_engines(heads, current)[0];
    evidence::fresh_means_recorded_and_matching(
        head.freshness,
        head.source_fingerprint@,
        current,
    );
}

proof fn filtered_come_from(v: Seq<EvidenceHead>, f: spec_fn(EvidenceHead) -> bool)
    ensures
        forall|i: int|
            0 <= i < v.filter(f).len() ==> f(#[trigger] v.filter(f)[i]) && v.contains(
                v.filter(f)[i],
            ),
    decreases v.len(),
{
    reveal(Seq::filter);
    if v.len() > 0 {
        let init = v.drop_last();
        filtered_come_from(init, f);
        assert forall|i: int| 0 <= i < v.filter(f).len() implies f(#[trigger] v.filter(f)[i])
            && v.contains(v.filter(f)[i]) by {
            if i < init.filter(f).len() {
                assert(v.filter(f)[i] == init.filter(f)[i]);
                let k = choose|k: int| 0 <= k < init.len() && init[k] == init.filter(f)[i];
                assert(v[k] == init[k]);
            } else {
                assert(v[v.len() - 1] == v.last());
            }
        }
    }
}

/// A report keeps every issue and every warning that was found before, adds all
/// that are found about the coverage of symbols, and is degraded where any of
/// these is an issue.
pub proof fn reports_keep_everything_found(
    report: DoctorView,
    issues: Seq<Seq<char>>,
    warnings: Seq<Seq<char>>,
    state: Result<ProgramQualification, String>,
    required: bool,
)
    ensures
        ({
            let r = with_remark(
                with_coverage(report, issues, warnings),
                qualification_remark(state),
                required,
            );
            let qualified = state is Ok && state->Ok_0.qualified;
            &&& r.issues.len() == report.issues.len() + issues.len() + if required && !qualified {
                1nat
            } else {
                0
            }
            &&& r.warnings.len() == report.warnings.len() + warnings.len() + if !required
                && !qualified {
                1nat
            } else {
                0
            }
            &&& r.issues.take((report.issues + issues).len() as int) == report.issues + issues
            &&& r.warnings.take((report.warnings + warnings).len() as int) == report.warnings
                + warnings
            &&& issues.len() > 0 || required && !qualified ==> r.status == "degraded"@
            &&& issues.len() == 0 && !(required && !qualified) ==> r.status == report.status
        }),
{
    let c = with_coverage(report, issues, warnings);
    let r = with_remark(c, qualification_remark(state), required);
    assert(r.issues.take((report.issues + issues).len() as int) =~= report.issues + issues);
    assert(r.warnings.take((report.warnings + warnings).len() as int) =~= report.warnings
        + warnings);
}

/// The coverage of symbols is in order exactly where there is no issue and,
/// where an index is required, the coverage is ready.
pub proof fn coverage_is_in_order_without_issues(
    status: Seq<char>,
    issues: Seq<Seq<char>>,
    require_indexed: bool,
)
    ensures
        coverage_refusal(status, issues, require_indexed) is None <==> issues.len() == 0 && (
        !require_indexed || status == "ready"@),
{
}

/// There is evidence on the engine to build on exactly where one head, and only
/// one, is recorded as fresh, complete and deterministic evidence on the engine
/// and was taken from the source as it is verified to be now.
pub proof fn one_engine_head_is_required(heads: Seq<EvidenceHead>, current: SourceView)
    ensures
        engine_refusal(heads, current) is None <==> heads.filter(
            |h: EvidenceHead|
                h.plane == EvidencePlane::Engine && h.freshness == EvidenceFreshness::Fresh
                    && current == SourceView::Verified(h.source_fingerprint@) && h.coverage
                    == EvidenceCoverage::Complete && h.authority
                    == EvidenceAuthority::Deterministic,
        ).len() == 1,
{
    let usable = |h: EvidenceHead| usable_engine(h, current);
    let stated = |h: EvidenceHead|
        h.plane == EvidencePlane::Engine && h.freshness == EvidenceFreshness::Fresh && current
            == SourceView::Verified(h.source_fingerprint@) && h.coverage
            == EvidenceCoverage::Complete && h.authority == EvidenceAuthority::Deterministic;
    assert forall|h: EvidenceHead| #[trigger] usable(h) == stated(h) by {
        evidence::fresh_means_recorded_and_matching(h.freshness, h.source_fingerprint@, current);
    }
    assert(usable =~= stated);
}

} // verus!
