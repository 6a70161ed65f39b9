//! Whether what was changed is what was declared, and whether work may stop.
use crate::error::{self, AppError, ErrorView};
use crate::model::{self, FeedbackItem, FeedbackView, StopDecision, StopView};
use crate::paths::PathRelation;
use crate::symbols::StopFindings;
use crate::findings;
use crate::text;
use vstd::prelude::*;

verus! {

broadcast use {vstd::string::group_string_axioms, vstd::seq::group_seq_axioms};

/// What the current task declares that it may change.
#[derive(Debug, Clone, PartialEq, Eq)]
pub struct ChangeEnvelope {
    pub schema_version: u32,
    pub intent: String,
    pub allowed_paths: Vec<String>,
    pub forbidden_paths: Vec<String>,
}

impl ChangeEnvelope {
    /// An envelope to start from: everything but the repository's own data.
    pub fn example(schema_version: u32) -> (r: Self)
        ensures
            r.schema_version == schema_version,
            r.intent@ == "描述当前任务允许产生的项目变更"@,
            text::views(r.allowed_paths@) == seq!["."@],
            text::views(r.forbidden_paths@) == seq![".git"@],
    {
        let mut allowed_paths: Vec<String> = Vec::new();
        allowed_paths.push(".".to_owned());
        let mut forbidden_paths: Vec<String> = Vec::new();
        forbidden_paths.push(".git".to_owned());
        assert(text::views(allowed_paths@) =~= seq!["."@]);
        assert(text::views(forbidden_paths@) =~= seq![".git"@]);
        ChangeEnvelope {
            schema_version,
            intent: "描述当前任务允许产生的项目变更".to_owned(),
            allowed_paths,
            forbidden_paths,
        }
    }
}

/// Why an envelope is not read.
pub open spec fn envelope_refusal(envelope: Seq<char>, inside_root: bool) -> Option<ErrorView> {
    if inside_root {
        None
    } else {
        Some(ErrorView::EnvelopeOutsideRoot(envelope))
    }
}

/// The envelope to read, which has to lie within the project once every link
/// on the way to it is followed.
pub fn resolve_envelope_path(envelope: String, inside_root: bool) -> (r: Result<String, AppError>)
    ensures
        error::follows(r, envelope_refusal(envelope@, inside_root)),
        r matches Ok(path) ==> path@ == envelope@,
{
    if inside_root {
        Ok(envelope)
    } else {
        Err(AppError::EnvelopeOutsideRoot(envelope))
    }
}

#[derive(Debug, Clone, Copy, PartialEq, Eq, Structural)]
pub enum ReconcileDecision {
    Allow,
    Block,
    Escalate,
}

#[derive(Debug, Clone, PartialEq, Eq)]
pub struct ReconcileReport {
    pub schema_version: u32,
    pub decision: ReconcileDecision,
    pub summary: String,
    pub base: String,
    pub changed_files: Vec<String>,
    pub unexpected_files: Vec<String>,
    pub forbidden_files: Vec<String>,
}

/// The files among the first `n` that lie, or do not lie, under one of the
/// first `m` prefixes.
pub open spec fn files_under(
    files: Seq<String>,
    n: nat,
    relation: PathRelation,
    m: int,
    wanted: bool,
) -> Seq<String>
    decreases n,
{
    if n == 0 {
        Seq::empty()
    } else {
        let before = files_under(files, (n - 1) as nat, relation, m, wanted);
        if relation.related_to_any(n - 1, m) == wanted {
            before.push(files[n - 1])
        } else {
            before
        }
    }
}

/// The changed files that the envelope forbids.
pub open spec fn forbidden_of(
    envelope: ChangeEnvelope,
    files: Seq<String>,
    forbidden: PathRelation,
) -> Seq<String> {
    files_under(files, files.len(), forbidden, envelope.forbidden_paths@.len() as int, true)
}

/// The changed files that the envelope does not allow; an envelope that
/// allows nothing in particular allows everything.
pub open spec fn unexpected_of(
    envelope: ChangeEnvelope,
    files: Seq<String>,
    allowed: PathRelation,
) -> Seq<String> {
    if envelope.allowed_paths@.len() == 0 {
        Seq::empty()
    } else {
        files_under(files, files.len(), allowed, envelope.allowed_paths@.len() as int, false)
    }
}

/// The decision on the files that are out of place.
pub open spec fn decision_on(forbidden: nat, unexpected: nat) -> ReconcileDecision {
    if forbidden > 0 {
        ReconcileDecision::Block
    } else if unexpected > 0 {
        ReconcileDecision::Escalate
    } else {
        ReconcileDecision::Allow
    }
}

/// The summary of a decision.
pub open spec fn decision_summary(decision: ReconcileDecision) -> Seq<char> {
    match decision {
        ReconcileDecision::Block => "变更触及 Change Envelope 明确禁止的范围"@,
        ReconcileDecision::Escalate => "变更超出声明范围，需要审查或修订 Change Envelope"@,
        ReconcileDecision::Allow => "实际变更位于声明范围内"@,
    }
}

fn select_files(files: &Vec<String>, relation: &PathRelation, m: usize, wanted: bool) -> (r: Vec<
    String,
>)
    ensures
        r@ == files_under(files@, files@.len(), *relation, m as int, wanted),
{
    let mut out: Vec<String> = Vec::new();
    let mut i: usize = 0;
    while i < files.len()
        invariant
            i <= files@.len(),
            out@ == files_under(files@, i as nat, *relation, m as int, wanted),
        decreases files@.len() - i,
    {
        if relation.is_related_to_any(i, m) == wanted {
            out.push(files[i].clone());
        }
        i = i + 1;
    }
    out
}

/// Holds the changed files against the envelope.  Row `i` of a relation tells
/// of changed file `i`, column `j` of path `j` of the envelope.
pub fn evaluate(
    schema_version: u32,
    base: &str,
    envelope: &ChangeEnvelope,
    changed_files: Vec<String>,
    forbidden: &PathRelation,
    allowed: &PathRelation,
) -> (r: Result<ReconcileReport, AppError>)
    ensures
        match r {
            Ok(report) => {
                &&& envelope.schema_version == schema_version
                &&& report.schema_version == schema_version
                &&& report.base@ == base@
                &&& report.changed_files@ == changed_files@
                &&& report.forbidden_files@ == forbidden_of(
                    *envelope,
                    changed_files@,
                    *forbidden,
                )
                &&& report.unexpected_files@ == unexpected_of(*envelope, changed_files@, *allowed)
                &&& report.decision == decision_on(
                    report.forbidden_files@.len(),
                    report.unexpected_files@.len(),
                )
                &&& report.summary@ == decision_summary(report.decision)
                &&& report.decision == ReconcileDecision::Block <==> exists|i: int, j: int|
                    0 <= i < changed_files@.len() && 0 <= j < envelope.forbidden_paths@.len()
                        && #[trigger] forbidden.related(i, j)
            },
            Err(e) => {
                &&& envelope.schema_version != schema_version
                &&& e@ == ErrorView::UnsupportedSchemaVersion {
                    actual: envelope.schema_version,
                    expected: schema_version,
                }
            },
        },
{
    if envelope.schema_version != schema_version {
        return Err(
            AppError::UnsupportedSchemaVersion {
                actual: envelope.schema_version,
                expected: schema_version,
            },
        );
    }
    let forbidden_files = select_files(
        &changed_files,
        forbidden,
        envelope.forbidden_paths.len(),
        true,
    );
    let unexpected_files = if envelope.allowed_paths.len() == 0 {
        Vec::new()
    } else {
        select_files(&changed_files, allowed, envelope.allowed_paths.len(), false)
    };
    let (decision, summary) = if forbidden_files.len() > 0 {
        (
            ReconcileDecision::Block,
            "变更触及 Change Envelope 明确禁止的范围".to_owned(),
        )
    } else if unexpected_files.len() > 0 {
        (
            ReconcileDecision::Escalate,
            "变更超出声明范围，需要审查或修订 Change Envelope".to_owned(),
        )
    } else {
        (ReconcileDecision::Allow, "实际变更位于声明范围内".to_owned())
    };
    proof {
        changes_are_held_against_the_envelope(*envelope, changed_files@, *forbidden, *allowed);
    }
    Ok(
        ReconcileReport {
            schema_version,
            decision,
            summary,
            base: base.to_owned(),
            changed_files,
            unexpected_files,
            forbidden_files,
        },
    )
}

// ---------------------------------------------------------------------------
// Stopping
// ---------------------------------------------------------------------------

/// Whether work may stop on what the rules and the findings say.
pub open spec fn stop_on_findings(symbol: StopFindings, finding: StopFindings) -> (
    StopView,
    Seq<FeedbackView>,
) {
    let violations = symbol.violations + finding.violations;
    let feedback = symbol.feedback + finding.feedback;
    if violations.len() == 0 {
        (StopView::AllowStop, feedback)
    } else {
        (
            StopView::ContinueWork(
                "Project Brain Stop 符号对账未通过："@ + text::joined(violations, "；"@),
            ),
            feedback,
        )
    }
}

/// Why work may not stop on a report.
pub open spec fn report_reason(report: ReconcileReport) -> Seq<char> {
    "Project Brain Stop 对账未通过："@ + report.summary@ + "。涉及："@ + text::joined(
        text::views(
            if report.forbidden_files@.len() == 0 {
                report.unexpected_files@
            } else {
                report.forbidden_files@
            },
        ),
        ", "@,
    )
}

/// Whether work may stop.  An agent that is already being kept at work is let
/// go; a reconciliation that fails or is not passed keeps it at work.
pub open spec fn stop_of(
    vendor_loop_active: bool,
    reconcile_enabled: bool,
    report: Result<ReconcileReport, String>,
    symbol: StopFindings,
    finding: StopFindings,
) -> (StopView, Seq<FeedbackView>) {
    if vendor_loop_active {
        (StopView::AllowStop, Seq::empty())
    } else if !reconcile_enabled {
        stop_on_findings(symbol, finding)
    } else {
        match report {
            Err(error) => (
                StopView::ContinueWork("Project Brain Stop 对账失败："@ + error@),
                Seq::empty(),
            ),
            Ok(report) => if report.decision == ReconcileDecision::Allow {
                stop_on_findings(symbol, finding)
            } else {
                (StopView::ContinueWork(report_reason(report)), Seq::empty())
            },
        }
    }
}

/// What symbol rules or findings said.
#[derive(Debug, Clone, PartialEq, Eq)]
pub struct StopEvidence {
    pub violations: Vec<String>,
    pub feedback: Vec<FeedbackItem>,
}

impl StopEvidence {
    pub open spec fn found(self) -> StopFindings {
        findings::said(self.violations@, self.feedback@)
    }
}

fn decide_on_findings(symbol: StopEvidence, finding: StopEvidence) -> (r: (
    StopDecision,
    Vec<FeedbackItem>,
))
    ensures
        (r.0@, model::feedback_views(r.1@)) == stop_on_findings(symbol.found(), finding.found()),
{
    let mut violations = symbol.violations;
    let mut more = finding.violations;
    violations.append(&mut more);
    let mut feedback = symbol.feedback;
    let mut more_feedback = finding.feedback;
    feedback.append(&mut more_feedback);
    assert(text::views(violations@) =~= symbol.found().violations + finding.found().violations);
    assert(model::feedback_views(feedback@) =~= symbol.found().feedback
        + finding.found().feedback);
    if violations.len() == 0 {
        (StopDecision::AllowStop, feedback)
    } else {
        let all = text::join(&violations, "；");
        let mut reason = "Project Brain Stop 符号对账未通过：".to_owned();
        reason.append(all.as_str());
        (StopDecision::ContinueWork { reason }, feedback)
    }
}

/// Whether work may stop, and what is fed back.
pub fn stop_decision(
    vendor_loop_active: bool,
    reconcile_enabled: bool,
    report: &Result<ReconcileReport, String>,
    symbol: StopEvidence,
    finding: StopEvidence,
) -> (r: (StopDecision, Vec<FeedbackItem>))
    ensures
        (r.0@, model::feedback_views(r.1@)) == stop_of(
            vendor_loop_active,
            reconcile_enabled,
            *report,
            symbol.found(),
            finding.found(),
        ),
{
    let none: Vec<FeedbackItem> = Vec::new();
    assert(model::feedback_views(none@) =~= Seq::<FeedbackView>::empty());
    if vendor_loop_active {
        return (StopDecision::AllowStop, none);
    }
    if !reconcile_enabled {
        return decide_on_findings(symbol, finding);
    }
    let report = match report {
        Err(error) => {
            let mut reason = "Project Brain Stop 对账失败：".to_owned();
            reason.append(error.as_str());
            return (StopDecision::ContinueWork { reason }, none);
        },
        Ok(report) => report,
    };
    if report.decision == ReconcileDecision::Allow {
        return decide_on_findings(symbol, finding);
    }
    let details = if report.forbidden_files.len() == 0 {
        text::join(&report.unexpected_files, ", ")
    } else {
        text::join(&report.forbidden_files, ", ")
    };
    let mut reason = "Project Brain Stop 对账未通过：".to_owned();
    reason.append(report.summary.as_str());
    reason.append("。涉及：");
    reason.append(details.as_str());
    (StopDecision::ContinueWork { reason }, none)
}

// ---------------------------------------------------------------------------
// Laws
// ---------------------------------------------------------------------------

/// Project Brain keeps an agent at work at most once in a row: one that is
/// already being kept at work may always stop.
pub proof fn an_active_stop_loop_always_ends(
    reconcile_enabled: bool,
    report: Result<ReconcileReport, String>,
    symbol: StopFindings,
    finding: StopFindings,
)
    ensures
        stop_of(true, reconcile_enabled, report, symbol, finding).0 == StopView::AllowStop,
{
}

/// Stopping fails closed: where reconciliation is switched on and fails or is
/// not passed, work goes on.
pub proof fn failed_reconciliation_keeps_working(
    report: Result<ReconcileReport, String>,
    symbol: StopFindings,
    finding: StopFindings,
)
    requires
        report is Err || report->Ok_0.decision != ReconcileDecision::Allow,
    ensures
        stop_of(false, true, report, symbol, finding).0 is ContinueWork,
{
}

/// Outside an active stop loop, work stops exactly when reconciliation, where
/// it is switched on, is passed and nothing is violated.
pub proof fn stopping_needs_a_clean_slate(
    reconcile_enabled: bool,
    report: Result<ReconcileReport, String>,
    symbol: StopFindings,
    finding: StopFindings,
)
    ensures
        stop_of(false, reconcile_enabled, report, symbol, finding).0 is AllowStop <==> {
            &&& reconcile_enabled ==> report is Ok && report->Ok_0.decision
                == ReconcileDecision::Allow
            &&& symbol.violations.len() == 0
            &&& finding.violations.len() == 0
        },
{
}

proof fn files_under_count(
    files: Seq<String>,
    n: nat,
    relation: PathRelation,
    m: int,
    i: int,
)
    requires
        0 <= i < n <= files.len(),
        relation.related_to_any(i, m),
    ensures
        files_under(files, n, relation, m, true).len() > 0,
    decreases n,
{
    if i < n - 1 {
        files_under_count(files, (n - 1) as nat, relation, m, i);
    }
}

/// A changed file under a forbidden path always blocks, however much else is
/// allowed.
pub proof fn forbidden_changes_always_block(
    envelope: ChangeEnvelope,
    files: Seq<String>,
    forbidden: PathRelation,
    unexpected: nat,
    i: int,
)
    requires
        0 <= i < files.len(),
        forbidden.related_to_any(i, envelope.forbidden_paths@.len() as int),
    ensures
        decision_on(forbidden_of(envelope, files, forbidden).len(), unexpected)
            == ReconcileDecision::Block,
{
    files_under_count(
        files,
        files.len(),
        forbidden,
        envelope.forbidden_paths@.len() as int,
        i,
    );
}

proof fn chosen_files(
    files: Seq<String>,
    n: nat,
    relation: PathRelation,
    m: int,
    wanted: bool,
    x: String,
)
    requires
        n <= files.len(),
    ensures
        files_under(files, n, relation, m, wanted) == Seq::new(n, |i: int| i).filter(
            |i: int| (exists|j: int| 0 <= j < m && #[trigger] relation.related(i, j)) == wanted,
        ).map_values(|i: int| files[i]),
        files_under(files, n, relation, m, wanted).contains(x) <==> exists|i: int|
            0 <= i < n && #[trigger] files[i] == x && (exists|j: int|
                0 <= j < m && #[trigger] relation.related(i, j)) == wanted,
    decreases n,
{
    reveal(Seq::filter);
    let chosen = |i: int|
        (exists|j: int| 0 <= j < m && #[trigger] relation.related(i, j)) == wanted;
    let at = |i: int| files[i];
    let all = files_under(files, n, relation, m, wanted);
    let places = Seq::new(n, |i: int| i);
    if n > 0 {
        let n0 = (n - 1) as nat;
        chosen_files(files, n0, relation, m, wanted, x);
        let before = files_under(files, n0, relation, m, wanted);
        assert(places.drop_last() =~= Seq::new(n0, |i: int| i));
        assert(places.last() == n - 1);
        assert(chosen(n - 1) == (relation.related_to_any(n - 1, m) == wanted));
        if chosen(n - 1) {
            assert(all =~= before.push(files[n - 1]));
            assert(places.filter(chosen).map_values(at) =~= Seq::new(n0, |i: int| i).filter(
                chosen,
            ).map_values(at).push(files[n - 1]));
            assert(all[before.len() as int] == files[n - 1]);
        }
        if before.contains(x) {
            let k = choose|k: int| 0 <= k < before.len() && before[k] == x;
            assert(all[k] == x);
        }
        if all.contains(x) && !before.contains(x) {
            let k = choose|k: int| 0 <= k < all.len() && all[k] == x;
            if k < before.len() {
                assert(before[k] == x);
            }
            assert(files[n - 1] == x && chosen(n - 1));
        }
    } else {
        assert(places.filter(chosen).map_values(at) =~= Seq::<String>::empty());
    }
}

/// A changed file is listed as forbidden exactly where it lies under one of the
/// forbidden paths, and the files are listed in the order in which they were
/// changed.
pub proof fn forbidden_files_lie_under_forbidden_paths(
    envelope: ChangeEnvelope,
    files: Seq<String>,
    forbidden: PathRelation,
    file: String,
)
    ensures
        forbidden_of(envelope, files, forbidden) == Seq::new(files.len(), |i: int| i).filter(
            |i: int|
                (exists|j: int|
                    0 <= j < envelope.forbidden_paths@.len() && #[trigger] forbidden.related(i, j))
                    == true,
        ).map_values(|i: int| files[i]),
        forbidden_of(envelope, files, forbidden).contains(file) <==> exists|i: int, j: int|
            0 <= i < files.len() && 0 <= j < envelope.forbidden_paths@.len() && files[i] == file
                && #[trigger] forbidden.related(i, j),
{
    let m = envelope.forbidden_paths@.len() as int;
    let bad = forbidden_of(envelope, files, forbidden);
    chosen_files(files, files.len(), forbidden, m, true, file);
    if bad.contains(file) {
        let i = choose|i: int|
            0 <= i < files.len() && #[trigger] files[i] == file && (exists|j: int|
                0 <= j < m && #[trigger] forbidden.related(i, j)) == true;
        let j = choose|j: int| 0 <= j < m && #[trigger] forbidden.related(i, j);
        assert(forbidden.related(i, j));
    }
}

/// Where an envelope allows some paths, a changed file is listed as unexpected
/// exactly where it lies under none of them, whichever position they have, and
/// the files are listed in the order in which they were changed.  An envelope
/// that allows nothing in particular expects everything.
pub proof fn unexpected_files_lie_under_no_allowed_path(
    envelope: ChangeEnvelope,
    files: Seq<String>,
    allowed: PathRelation,
    file: String,
)
    ensures
        envelope.allowed_paths@.len() == 0 ==> unexpected_of(envelope, files, allowed).len() == 0,
        envelope.allowed_paths@.len() > 0 ==> unexpected_of(envelope, files, allowed) == Seq::new(
            files.len(),
            |i: int| i,
        ).filter(
            |i: int|
                (exists|j: int|
                    0 <= j < envelope.allowed_paths@.len() && #[trigger] allowed.related(i, j))
                    == false,
        ).map_values(|i: int| files[i]),
        envelope.allowed_paths@.len() > 0 ==> (unexpected_of(envelope, files, allowed).contains(
            file,
        ) <==> exists|i: int|
            0 <= i < files.len() && #[trigger] files[i] == file && forall|j: int|
                0 <= j < envelope.allowed_paths@.len() ==> !(#[trigger] allowed.related(i, j))),
{
    let w = envelope.allowed_paths@.len() as int;
    chosen_files(files, files.len(), allowed, w, false, file);
}

/// A change is blocked exactly where some changed file lies under some forbidden
/// path.  It is allowed exactly where none does and every changed file lies
/// under some allowed path, or no path in particular is allowed; anything else
/// is escalated.
pub proof fn changes_are_held_against_the_envelope(
    envelope: ChangeEnvelope,
    files: Seq<String>,
    forbidden: PathRelation,
    allowed: PathRelation,
)
    ensures
        decision_on(
            forbidden_of(envelope, files, forbidden).len(),
            unexpected_of(envelope, files, allowed).len(),
        ) == ReconcileDecision::Block <==> exists|i: int, j: int|
            0 <= i < files.len() && 0 <= j < envelope.forbidden_paths@.len()
                && #[trigger] forbidden.related(i, j),
        decision_on(
            forbidden_of(envelope, files, forbidden).len(),
            unexpected_of(envelope, files, allowed).len(),
        ) == ReconcileDecision::Allow <==> (forall|i: int, j: int|
            0 <= i < files.len() && 0 <= j < envelope.forbidden_paths@.len() ==> !(
            #[trigger] forbidden.related(i, j))) && (envelope.allowed_paths@.len() == 0 || forall|
            i: int,
        |
            0 <= i < files.len() ==> #[trigger] allowed.related_to_any(
                i,
                envelope.allowed_paths@.len() as int,
            )),
{
    let bad = forbidden_of(envelope, files, forbidden);
    let odd = unexpected_of(envelope, files, allowed);
    let m = envelope.forbidden_paths@.len() as int;
    let w = envelope.allowed_paths@.len() as int;
    if bad.len() > 0 {
        forbidden_files_lie_under_forbidden_paths(envelope, files, forbidden, bad[0]);
        assert(bad.contains(bad[0]));
    } else {
        assert forall|i: int, j: int| 0 <= i < files.len() && 0 <= j < m implies !(
        #[trigger] forbidden.related(i, j)) by {
            forbidden_files_lie_under_forbidden_paths(envelope, files, forbidden, files[i]);
        }
    }
    if odd.len() > 0 {
        unexpected_files_lie_under_no_allowed_path(envelope, files, allowed, odd[0]);
        assert(odd.contains(odd[0]));
        let i = choose|i: int|
            0 <= i < files.len() && #[trigger] files[i] == odd[0] && forall|j: int|
                0 <= j < w ==> !(#[trigger] allowed.related(i, j));
        assert(!allowed.related_to_any(i, w));
    } else if w > 0 {
        assert forall|i: int| 0 <= i < files.len() implies #[trigger] allowed.related_to_any(
            i,
            w,
        ) by {
            unexpected_files_lie_under_no_allowed_path(envelope, files, allowed, files[i]);
            assert(!odd.contains(files[i]));
        }
    }
}

} // verus!
