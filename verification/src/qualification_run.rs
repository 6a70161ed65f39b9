//! One run of the qualification suite: every case in its order, each recorded
//! before the next, and one report that is stored once.
use crate::digest;
use crate::error::{AppError, ErrorView};
use crate::json::Json;
use crate::model;
use crate::qualification::{
    self, QualificationCaseReport, QualificationCaseState, QualificationContext,
    QualificationRunReport, QualificationState, QualificationTarget, StoredRun,
};
use crate::text;
use vstd::prelude::*;

verus! {

broadcast use {vstd::string::group_string_axioms, vstd::seq::group_seq_axioms};

/// What a run is asked to qualify.
#[derive(Debug, PartialEq, Eq)]
pub struct Asked {
    pub target: QualificationTarget,
    pub source: Option<String>,
    pub request_hash: String,
}

/// A run under way.
#[derive(Debug, PartialEq, Eq)]
pub struct Begun {
    pub asked: Asked,
    pub run_id: String,
    pub started_at: i64,
    pub cases: Vec<QualificationCaseReport>,
}

/// What is done next.
#[derive(Debug, PartialEq, Eq)]
pub enum RunPhase {
    /// Open the ledger.
    OpenLedger,
    /// Take the target and the fingerprint of the source.
    Inspect,
    /// Write down what the request is fingerprinted by.
    Describe(QualificationTarget, Option<String>),
    /// Look for an earlier run of the request.
    LookUp(Asked),
    /// Take the time.
    TakeTime(Asked),
    /// Record that the run has begun.
    Begin(Begun),
    /// Look whether the directory of the run is there.
    LookForFixture(Begun),
    /// Make it.
    MakeFixture(Begun),
    /// Run the next case.
    RunCase(Begun),
    /// Record what came of it.
    RecordCase(Begun, QualificationCaseReport),
    /// Take the target and the fingerprint of the source again.
    InspectAgain(Begun),
    /// Take the time again.
    TakeTimeAgain(Begun, QualificationTarget, Option<String>),
    /// Write down the report.
    WriteReport(QualificationRunReport),
    /// Store it, with its fingerprint.
    Store(QualificationRunReport, String, String),
    /// Look where the directory of the run is.
    LookAtFixture(QualificationRunReport),
    /// Remove it.
    RemoveFixture(QualificationRunReport),
    /// The report is stored.
    Done(QualificationRunReport),
    /// An earlier run answers the request with its report.
    Replayed(String),
    /// There is no report.
    Failed(AppError),
}

/// What came of it.
#[derive(Debug, PartialEq, Eq)]
pub enum RunReply {
    Finished(Result<(), AppError>),
    Inspected(Result<QualificationTarget, AppError>, Option<String>),
    Written(Result<Vec<u8>, AppError>),
    Stored(Result<Option<StoredRun>, AppError>),
    Time(Result<i64, AppError>),
    /// Whether the directory is there, and how it is shown.
    Fixture(bool, String),
    /// What came of a case, what was observed of it as it is written, where it
    /// could be, and how long it took.
    Case(Result<Json, String>, Option<Vec<u8>>, u64),
    Report(Result<String, AppError>),
    /// How many runs the report was stored for.
    Changed(Result<usize, AppError>),
    /// Whether the directory lies where such directories are made, and how it
    /// is shown.
    Located(Result<bool, AppError>, String),
}

/// One run of the suite.
#[derive(Debug, PartialEq, Eq)]
pub struct QualificationRun {
    pub request_id: String,
    pub project_key: String,
    pub project_root: String,
    pub phase: RunPhase,
}

/// A run is over for a reason.
pub open spec fn over(after: RunPhase, reason: ErrorView) -> bool {
    after matches RunPhase::Failed(e) && e@ == reason
}

/// Two runs differ at most in their cases.
pub open spec fn same_run(a: Begun, b: Begun) -> bool {
    a.asked == b.asked && a.run_id == b.run_id && a.started_at == b.started_at
}

/// The fingerprint of what was observed of a case.
pub open spec fn observation_hash(written: Option<Vec<u8>>) -> Seq<char> {
    match written {
        Some(bytes) => digest::marked_sha256(bytes@),
        None => "sha256_unavailable"@,
    }
}

/// What a run can do once something came of what it did.
pub open spec fn follows(before: QualificationRun, reply: RunReply, after: RunPhase) -> bool {
    match (before.phase, reply) {
        (RunPhase::OpenLedger, RunReply::Finished(opened)) => match opened {
            Err(e) => over(after, e@),
            Ok(()) => after == RunPhase::Inspect,
        },
        (RunPhase::Inspect, RunReply::Inspected(target, source)) => match target {
            Err(e) => over(after, e@),
            Ok(target) => after == RunPhase::Describe(target, source),
        },
        (RunPhase::Describe(target, source), RunReply::Written(written)) => match written {
            Err(e) => over(after, e@),
            Ok(bytes) => after matches RunPhase::LookUp(asked) && asked.target == target
                && asked.source == source && asked.request_hash@ == digest::marked_sha256(bytes@),
        },
        (RunPhase::LookUp(asked), RunReply::Stored(found)) => match found {
            Err(e) => over(after, e@),
            Ok(None) => after == RunPhase::TakeTime(asked),
            Ok(Some(stored)) => match qualification::replay_refusal(
                before.request_id@,
                asked.request_hash@,
                stored,
            ) {
                Some(e) => over(after, e),
                None => after matches RunPhase::Replayed(report) && stored.report_json is Some
                    && report@ == stored.report_json->0@,
            },
        },
        (RunPhase::TakeTime(asked), RunReply::Time(time)) => match time {
            Err(e) => over(after, e@),
            Ok(now) => after matches RunPhase::Begin(begun) && begun.asked == asked
                && begun.started_at == now && begun.cases@.len() == 0 && begun.run_id@
                == qualification::run_id_of(before.request_id@, asked.request_hash@, now as int),
        },
        (RunPhase::Begin(begun), RunReply::Finished(recorded)) => match recorded {
            Err(e) => over(after, e@),
            Ok(()) => after == RunPhase::LookForFixture(begun),
        },
        (RunPhase::LookForFixture(begun), RunReply::Fixture(exists, shown)) => if exists {
            over(after, ErrorView::Qualification("资格 fixture 路径已存在："@ + shown@))
        } else {
            after == RunPhase::MakeFixture(begun)
        },
        (RunPhase::MakeFixture(begun), RunReply::Finished(made)) => match made {
            Err(e) => over(after, e@),
            Ok(()) => after == RunPhase::RunCase(begun),
        },
        (RunPhase::RunCase(begun), RunReply::Case(outcome, written, elapsed_ms)) => {
            let n = begun.cases@.len() as int;
            if n < qualification::suite_names().len() {
                after matches RunPhase::RecordCase(run, report) && run == begun
                    && qualification::case_told(
                    report,
                    qualification::suite_names()[n],
                    outcome,
                    observation_hash(written),
                    elapsed_ms,
                )
            } else {
                over(after, ErrorView::UnexpectedReply)
            }
        },
        (RunPhase::RecordCase(begun, report), RunReply::Finished(recorded)) => match recorded {
            Err(e) => over(after, e@),
            Ok(()) => {
                let cases = begun.cases@.push(report);
                if cases.len() < qualification::suite_names().len() {
                    after matches RunPhase::RunCase(run) && same_run(run, begun) && run.cases@
                        == cases
                } else {
                    after matches RunPhase::InspectAgain(run) && same_run(run, begun) && run.cases@
                        == cases
                }
            },
        },
        (RunPhase::InspectAgain(begun), RunReply::Inspected(target, source)) => match target {
            Err(e) => over(after, e@),
            Ok(target) => after == RunPhase::TakeTimeAgain(begun, target, source),
        },
        (RunPhase::TakeTimeAgain(begun, target, source), RunReply::Time(time)) => match time {
            Err(e) => over(after, e@),
            Ok(now) => after matches RunPhase::WriteReport(report) && {
                &&& report.context.project_key@ == before.project_key@
                &&& report.context.project_root@ == before.project_root@
                &&& report.context.source_fingerprint_before == begun.asked.source
                &&& report.context.source_fingerprint_after == source
                &&& qualification::report_told(
                    report,
                    begun.run_id@,
                    before.request_id@,
                    begun.asked.target,
                    target,
                    report.context,
                    begun.cases@,
                    begun.started_at,
                    now,
                )
            },
        },
        (RunPhase::WriteReport(report), RunReply::Report(written)) => match written {
            Err(e) => over(after, e@),
            Ok(document) => after matches RunPhase::Store(r, d, hash) && r == report && d
                == document && hash@ == digest::sha256_hex(vstd::utf8::encode_utf8(document@)),
        },
        (RunPhase::Store(report, _, _), RunReply::Changed(changed)) => match changed {
            Err(e) => over(after, e@),
            Ok(n) => if n == 1 {
                after == RunPhase::LookAtFixture(report)
            } else {
                over(
                    after,
                    ErrorView::Qualification(
                        "资格运行 "@ + report.run_id@ + " 无法从 running 原子收口"@,
                    ),
                )
            },
        },
        (RunPhase::LookAtFixture(report), RunReply::Located(located, shown)) => match located {
            Err(e) => over(after, e@),
            Ok(inside) => if inside {
                after == RunPhase::RemoveFixture(report)
            } else {
                over(
                    after,
                    ErrorView::Qualification("拒绝删除越界 qualification fixture："@ + shown@),
                )
            },
        },
        (RunPhase::RemoveFixture(report), RunReply::Finished(removed)) => match removed {
            Err(e) => over(after, e@),
            Ok(()) => after == RunPhase::Done(report),
        },
        (RunPhase::Done(report), _) => after == RunPhase::Done(report),
        (RunPhase::Replayed(report), _) => after == RunPhase::Replayed(report),
        (RunPhase::Failed(e), _) => after == RunPhase::Failed(e),
        _ => over(after, ErrorView::UnexpectedReply),
    }
}

fn take_case(
    begun: Begun,
    outcome: Result<Json, String>,
    written: Option<Vec<u8>>,
    elapsed_ms: u64,
) -> (r: RunPhase)
    ensures
        ({
            let n = begun.cases@.len() as int;
            if n < qualification::suite_names().len() {
                r matches RunPhase::RecordCase(run, report) && run == begun
                    && qualification::case_told(
                    report,
                    qualification::suite_names()[n],
                    outcome,
                    observation_hash(written),
                    elapsed_ms,
                )
            } else {
                over(r, ErrorView::UnexpectedReply)
            }
        }),
{
    let names = qualification::suite();
    let n: usize = begun.cases.len();
    assert(text::str_views(names@).len() == names@.len());
    if n >= names.len() {
        return RunPhase::Failed(AppError::UnexpectedReply);
    }
    let hash = match &written {
        Some(bytes) => digest::marked_hash(bytes.as_slice()),
        None => "sha256_unavailable".to_owned(),
    };
    let name: &str = names[n];
    assert(text::str_views(names@)[n as int] == name@);
    let report = qualification::case_report(name, outcome, hash.as_str(), elapsed_ms);
    RunPhase::RecordCase(begun, report)
}

fn take_recorded(begun: Begun, report: QualificationCaseReport) -> (r: RunPhase)
    ensures
        ({
            let cases = begun.cases@.push(report);
            if cases.len() < qualification::suite_names().len() {
                r matches RunPhase::RunCase(run) && same_run(run, begun) && run.cases@ == cases
            } else {
                r matches RunPhase::InspectAgain(run) && same_run(run, begun) && run.cases@
                    == cases
            }
        }),
{
    let mut begun = begun;
    begun.cases.push(report);
    let names = qualification::suite();
    assert(text::str_views(names@).len() == names@.len());
    if begun.cases.len() < names.len() {
        RunPhase::RunCase(begun)
    } else {
        RunPhase::InspectAgain(begun)
    }
}

impl QualificationRun {
    /// Begins with an empty slate: a request whose id is not taken has failed
    /// already.
    pub fn new(request_id: String, project_key: String, project_root: String) -> (r: Self)
        ensures
            r.request_id == request_id,
            r.project_key == project_key,
            r.project_root == project_root,
            match qualification::id_refusal("request_id"@, request_id@) {
                Some(e) => over(r.phase, e),
                None => r.phase == RunPhase::OpenLedger,
            },
    {
        let phase = match qualification::validate_external_id("request_id", request_id.as_str()) {
            Err(e) => RunPhase::Failed(e),
            Ok(()) => RunPhase::OpenLedger,
        };
        QualificationRun { request_id, project_key, project_root, phase }
    }

    /// What the request is fingerprinted by, where that is to be written down.
    pub fn description(&self) -> (r: Option<Json>)
        ensures
            match self.phase {
                RunPhase::Describe(target, source) => r is Some && r->0@
                    == qualification::request_parts(
                    target.target_hash@,
                    self.project_key@,
                    self.project_root@,
                    model::opt_view(source),
                ),
                _ => r is None,
            },
    {
        match &self.phase {
            RunPhase::Describe(target, source) => Some(
                qualification::request_description(
                    target.target_hash.as_str(),
                    self.project_key.as_str(),
                    self.project_root.as_str(),
                    source,
                ),
            ),
            _ => None,
        }
    }

    /// The case that is run next.
    pub fn case_name(&self) -> (r: Option<&'static str>)
        ensures
            match self.phase {
                RunPhase::RunCase(begun) => if begun.cases@.len()
                    < qualification::suite_names().len() {
                    r is Some && r->0@ == qualification::suite_names()[begun.cases@.len() as int]
                } else {
                    r is None
                },
                _ => r is None,
            },
    {
        match &self.phase {
            RunPhase::RunCase(begun) => {
                let names = qualification::suite();
                let n: usize = begun.cases.len();
                assert(text::str_views(names@).len() == names@.len());
                if n < names.len() {
                    let name: &'static str = names[n];
                    assert(text::str_views(names@)[n as int] == name@);
                    Some(name)
                } else {
                    None
                }
            },
            _ => None,
        }
    }

    /// Goes on with what came of what was done.
    pub fn step(self, reply: RunReply) -> (r: Self)
        ensures
            r.request_id == self.request_id,
            r.project_key == self.project_key,
            r.project_root == self.project_root,
            follows(self, reply, r.phase),
    {
        let QualificationRun { request_id, project_key, project_root, phase } = self;
        let phase = match (phase, reply) {
            (RunPhase::OpenLedger, RunReply::Finished(opened)) => match opened {
                Err(e) => RunPhase::Failed(e),
                Ok(()) => RunPhase::Inspect,
            },
            (RunPhase::Inspect, RunReply::Inspected(target, source)) => match target {
                Err(e) => RunPhase::Failed(e),
                Ok(target) => RunPhase::Describe(target, source),
            },
            (RunPhase::Describe(target, source), RunReply::Written(written)) => match written {
                Err(e) => RunPhase::Failed(e),
                Ok(bytes) => {
                    let request_hash = digest::marked_hash(bytes.as_slice());
                    RunPhase::LookUp(Asked { target, source, request_hash })
                },
            },
            (RunPhase::LookUp(asked), RunReply::Stored(found)) => match found {
                Err(e) => RunPhase::Failed(e),
                Ok(None) => RunPhase::TakeTime(asked),
                Ok(Some(stored)) => match qualification::replay_for_request(
                    request_id.as_str(),
                    asked.request_hash.as_str(),
                    Some(stored),
                ) {
                    Err(e) => RunPhase::Failed(e),
                    Ok(Some(report)) => RunPhase::Replayed(report),
                    Ok(None) => RunPhase::Failed(AppError::UnexpectedReply),
                },
            },
            (RunPhase::TakeTime(asked), RunReply::Time(time)) => match time {
                Err(e) => RunPhase::Failed(e),
                Ok(now) => {
                    let run_id = qualification::run_id(
                        request_id.as_str(),
                        asked.request_hash.as_str(),
                        now,
                    );
                    RunPhase::Begin(Begun { asked, run_id, started_at: now, cases: Vec::new() })
                },
            },
            (RunPhase::Begin(begun), RunReply::Finished(recorded)) => match recorded {
                Err(e) => RunPhase::Failed(e),
                Ok(()) => RunPhase::LookForFixture(begun),
            },
            (RunPhase::LookForFixture(begun), RunReply::Fixture(exists, shown)) => if exists {
                RunPhase::Failed(
                    AppError::Qualification(
                        text::cat2("资格 fixture 路径已存在：", shown.as_str()),
                    ),
                )
            } else {
                RunPhase::MakeFixture(begun)
            },
            (RunPhase::MakeFixture(begun), RunReply::Finished(made)) => match made {
                Err(e) => RunPhase::Failed(e),
                Ok(()) => RunPhase::RunCase(begun),
            },
            (RunPhase::RunCase(begun), RunReply::Case(outcome, written, elapsed_ms)) => take_case(
                begun,
                outcome,
                written,
                elapsed_ms,
            ),
            (RunPhase::RecordCase(begun, report), RunReply::Finished(recorded)) => match recorded {
                Err(e) => RunPhase::Failed(e),
                Ok(()) => take_recorded(begun, report),
            },
            (RunPhase::InspectAgain(begun), RunReply::Inspected(target, source)) => match target {
                Err(e) => RunPhase::Failed(e),
                Ok(target) => RunPhase::TakeTimeAgain(begun, target, source),
            },
            (RunPhase::TakeTimeAgain(begun, target, source), RunReply::Time(time)) => match time {
                Err(e) => RunPhase::Failed(e),
                Ok(now) => {
                    let Begun { asked, run_id, started_at, cases } = begun;
                    let context = QualificationContext {
                        project_key: project_key.clone(),
                        project_root: project_root.clone(),
                        source_fingerprint_before: asked.source,
                        source_fingerprint_after: source,
                    };
                    RunPhase::WriteReport(
                        qualification::finish_report(
                            run_id,
                            request_id.as_str(),
                            asked.target,
                            &target,
                            context,
                            cases,
                            started_at,
                            now,
                        ),
                    )
                },
            },
            (RunPhase::WriteReport(report), RunReply::Report(written)) => match written {
                Err(e) => RunPhase::Failed(e),
                Ok(document) => {
                    let hash = digest::hash_bytes(document.as_str().as_bytes());
                    RunPhase::Store(report, document, hash)
                },
            },
            (RunPhase::Store(report, _, _), RunReply::Changed(changed)) => match changed {
                Err(e) => RunPhase::Failed(e),
                Ok(n) => if n == 1 {
                    RunPhase::LookAtFixture(report)
                } else {
                    RunPhase::Failed(
                        AppError::Qualification(
                            text::cat3(
                                "资格运行 ",
                                report.run_id.as_str(),
                                " 无法从 running 原子收口",
                            ),
                        ),
                    )
                },
            },
            (RunPhase::LookAtFixture(report), RunReply::Located(located, shown)) => match located {
                Err(e) => RunPhase::Failed(e),
                Ok(inside) => if inside {
                    RunPhase::RemoveFixture(report)
                } else {
                    RunPhase::Failed(
                        AppError::Qualification(
                            text::cat2(
                                "拒绝删除越界 qualification fixture：",
                                shown.as_str(),
                            ),
                        ),
                    )
                },
            },
            (RunPhase::RemoveFixture(report), RunReply::Finished(removed)) => match removed {
                Err(e) => RunPhase::Failed(e),
                Ok(()) => RunPhase::Done(report),
            },
            (RunPhase::Done(report), _) => RunPhase::Done(report),
            (RunPhase::Replayed(report), _) => RunPhase::Replayed(report),
            (RunPhase::Failed(e), _) => RunPhase::Failed(e),
            _ => RunPhase::Failed(AppError::UnexpectedReply),
        };
        QualificationRun { request_id, project_key, project_root, phase }
    }
}

// ---------------------------------------------------------------------------
// What holds of every run
// ---------------------------------------------------------------------------

/// The cases are the first of the suite, in its order, and each passed or
/// failed.
pub open spec fn in_order(cases: Seq<QualificationCaseReport>) -> bool {
    &&& cases.len() <= qualification::suite_names().len()
    &&& forall|i: int|
        0 <= i < cases.len() ==> {
            &&& (#[trigger] cases[i]).case_id@ == qualification::suite_names()[i]
            &&& decided(cases[i])
        }
}

/// A case passed or failed.
pub open spec fn decided(report: QualificationCaseReport) -> bool {
    report.status@ == QualificationCaseState::Passed.name() || report.status@
        == QualificationCaseState::Failed.name()
}

/// The cases are the whole suite.
pub open spec fn whole(cases: Seq<QualificationCaseReport>) -> bool {
    in_order(cases) && cases.len() == qualification::suite_names().len()
}

/// What holds of a run wherever it stands.
pub open spec fn sound(phase: RunPhase) -> bool {
    match phase {
        RunPhase::Begin(begun) => begun.cases@.len() == 0,
        RunPhase::LookForFixture(begun) => begun.cases@.len() == 0,
        RunPhase::MakeFixture(begun) => begun.cases@.len() == 0,
        RunPhase::RunCase(begun) => in_order(begun.cases@) && !whole(begun.cases@),
        RunPhase::RecordCase(begun, report) => in_order(begun.cases@.push(report)),
        RunPhase::InspectAgain(begun) => whole(begun.cases@),
        RunPhase::TakeTimeAgain(begun, _, _) => whole(begun.cases@),
        RunPhase::WriteReport(report) => whole(report.cases@) && judged(report),
        RunPhase::Store(report, document, hash) => whole(report.cases@) && judged(report) && hash@
            == digest::sha256_hex(vstd::utf8::encode_utf8(document@)),
        RunPhase::LookAtFixture(report) => whole(report.cases@) && judged(report),
        RunPhase::RemoveFixture(report) => whole(report.cases@) && judged(report),
        RunPhase::Done(report) => whole(report.cases@) && judged(report),
        _ => true,
    }
}

/// A report says `qualified` only of a run without a failure whose source did
/// not change.
pub open spec fn judged(report: QualificationRunReport) -> bool {
    report.status == QualificationState::Qualified ==> {
        &&& !qualification::any_case(report.cases@, QualificationCaseState::Failed)
        &&& model::opt_view(report.context.source_fingerprint_before) == model::opt_view(
            report.context.source_fingerprint_after,
        )
    }
}

/// Every run stays sound: its cases are those of the suite in their order, and
/// what it reports speaks of all of them.
pub proof fn runs_stay_sound(before: QualificationRun, reply: RunReply, after: RunPhase)
    requires
        sound(before.phase),
        follows(before, reply, after),
    ensures
        sound(after),
{
    assert(qualification::suite_names().len() == 7);
    match (before.phase, reply) {
        (RunPhase::RunCase(begun), RunReply::Case(outcome, written, elapsed_ms)) => {
            match after {
                RunPhase::RecordCase(run, report) => {
                    assert(decided(report));
                    assert(in_order(run.cases@.push(report)));
                },
                _ => {},
            }
        },
        _ => {},
    }
}

/// Where a report says `qualified`, every case of the suite stands in it by its
/// name, and passed.
pub proof fn qualified_reports_passed_the_suite(report: QualificationRunReport, i: int)
    requires
        sound(RunPhase::Done(report)),
        report.status == QualificationState::Qualified,
        0 <= i < qualification::suite_names().len(),
    ensures
        report.cases@.len() == qualification::suite_names().len(),
        report.cases@[i].case_id@ == qualification::suite_names()[i],
        report.cases@[i].status@ == QualificationCaseState::Passed.name(),
        model::opt_view(report.context.source_fingerprint_before) == model::opt_view(
            report.context.source_fingerprint_after,
        ),
{
    assert(decided(report.cases@[i]));
    assert(report.cases@[i].status@ != QualificationCaseState::Failed.name());
}

/// A request that was made before runs no case: it is answered with the report
/// that was stored for it, or not at all.
pub proof fn repeated_requests_run_nothing(
    before: QualificationRun,
    stored: StoredRun,
    after: RunPhase,
)
    requires
        before.phase is LookUp,
        follows(before, RunReply::Stored(Ok(Some(stored))), after),
    ensures
        after is Replayed || after is Failed,
        after is Replayed ==> stored.request_hash@ == before.phase->LookUp_0.request_hash@
            && stored.report_json is Some && stored.report_hash is Some
            && after->Replayed_0@ == stored.report_json->0@ && stored.report_hash->0@
            == digest::sha256_hex(vstd::utf8::encode_utf8(after->Replayed_0@)),
{
}

/// A run has its report stored, under the fingerprint of what was written, and
/// for one run alone, before it is done.
pub proof fn done_means_stored(before: QualificationRun, reply: RunReply, after: RunPhase)
    requires
        follows(before, reply, after),
    ensures
        after is Done && !(before.phase is Done) ==> before.phase is RemoveFixture,
        after is RemoveFixture ==> before.phase is LookAtFixture,
        after is LookAtFixture ==> before.phase is Store && reply == RunReply::Changed(Ok(1)),
        after is Store ==> after->Store_2@ == digest::sha256_hex(
            vstd::utf8::encode_utf8(after->Store_1@),
        ),
{
}

/// How far a run is from its end.
pub open spec fn distance(phase: RunPhase) -> int {
    let left = |begun: Begun| qualification::suite_names().len() - begun.cases@.len();
    match phase {
        RunPhase::OpenLedger => 40,
        RunPhase::Inspect => 39,
        RunPhase::Describe(_, _) => 38,
        RunPhase::LookUp(_) => 37,
        RunPhase::TakeTime(_) => 36,
        RunPhase::Begin(_) => 35,
        RunPhase::LookForFixture(_) => 34,
        RunPhase::MakeFixture(_) => 33,
        RunPhase::RunCase(begun) => 8 + 2 * left(begun),
        RunPhase::RecordCase(begun, _) => 7 + 2 * left(begun),
        RunPhase::InspectAgain(_) => 7,
        RunPhase::TakeTimeAgain(_, _, _) => 6,
        RunPhase::WriteReport(_) => 5,
        RunPhase::Store(_, _, _) => 4,
        RunPhase::LookAtFixture(_) => 3,
        RunPhase::RemoveFixture(_) => 2,
        RunPhase::Done(_) => 0,
        RunPhase::Replayed(_) => 0,
        RunPhase::Failed(_) => 0,
    }
}

/// Whatever comes of what it does, a run ends.
pub proof fn runs_end(before: QualificationRun, reply: RunReply, after: RunPhase)
    requires
        sound(before.phase),
        follows(before, reply, after),
    ensures
        0 <= distance(after),
        distance(before.phase) == 0 ==> after == before.phase,
        distance(before.phase) > 0 ==> distance(after) < distance(before.phase),
{
    assert(qualification::suite_names().len() == 7);
    runs_stay_sound(before, reply, after);
}

/// Whatever goes wrong outside ends the run without a report, but a case that
/// fails is recorded and the next one is run.
pub proof fn outside_errors_end_qualification(
    before: QualificationRun,
    reply: RunReply,
    after: RunPhase,
)
    requires
        follows(before, reply, after),
    ensures
        !(before.phase is Done) && !(before.phase is Replayed) && ({
            ||| reply is Finished && reply->Finished_0 is Err
            ||| reply is Inspected && reply->Inspected_0 is Err
            ||| reply is Written && reply->Written_0 is Err
            ||| reply is Stored && reply->Stored_0 is Err
            ||| reply is Time && reply->Time_0 is Err
            ||| reply is Report && reply->Report_0 is Err
            ||| reply is Changed && reply->Changed_0 is Err
            ||| reply is Located && reply->Located_0 is Err
        }) ==> after is Failed,
        before.phase is RunCase && reply is Case && before.phase->RunCase_0.cases@.len()
            < qualification::suite_names().len() ==> {
            &&& after is RecordCase
            &&& after->RecordCase_1.case_id@
                == qualification::suite_names()[before.phase->RunCase_0.cases@.len() as int]
            &&& after->RecordCase_1.status@ == "passed"@ <==> reply->Case_0 is Ok
        },
        before.phase is RecordCase && reply is Finished && reply->Finished_0 is Ok ==> ({
            let cases = before.phase->RecordCase_0.cases@.push(before.phase->RecordCase_1);
            &&& after is RunCase ==> after->RunCase_0.cases@ == cases
            &&& after is InspectAgain ==> after->InspectAgain_0.cases@ == cases && cases.len()
                >= qualification::suite_names().len()
            &&& after is RunCase || after is InspectAgain
        }),
        after is RemoveFixture && !(before.phase is RemoveFixture) ==> before.phase
            is LookAtFixture && reply is Located && reply->Located_0 == Ok::<bool, AppError>(true),
        after is MakeFixture && !(before.phase is MakeFixture) ==> reply is Fixture
            && !reply->Fixture_0,
{
    reveal_strlit("passed");
    reveal_strlit("failed");
    assert("passed"@[0] == 'p' && "failed"@[0] == 'f');
}

} // verus!
