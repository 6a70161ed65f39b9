//! Storing what a provider of symbols found: asked only where it is qualified,
//! stored only where nothing has changed, and every failure recorded.
use crate::error::{AppError, ErrorView};
use crate::stability::{self, ProviderQualification, RunBinding};
use crate::symbols::ProviderTrustStatus;
use crate::text;
use vstd::prelude::*;

verus! {

broadcast use {vstd::string::group_string_axioms, vstd::seq::group_seq_axioms};

/// What a run of a provider left.
#[derive(Debug, Clone, PartialEq, Eq)]
pub struct ExecutedRun {
    pub binding: RunBinding,
    pub source_fingerprint: String,
}

/// What is done next.
pub enum ImportPhase {
    /// Look up the latest comparison of the provider.
    Qualify,
    /// Look up the machine's bindings; the comparison is the latest one.
    Trust(ProviderQualification),
    /// Ask the provider.
    Execute,
    /// Read what it wrote.
    Prepare(ExecutedRun),
    /// Take the fingerprint of the source again.
    CheckSource(ExecutedRun),
    /// Look up the latest comparison again.
    Requalify(ExecutedRun),
    /// Record that a snapshot is about to be stored.
    RecordPrepared(ExecutedRun),
    /// Store the snapshot.
    Commit(ExecutedRun),
    /// Record that it is stored.
    RecordCommitted,
    /// Record that it is not, and why.
    RecordFailure(AppError),
    /// The snapshot is stored.
    Done,
    /// It is not.
    Failed(AppError),
}

/// What came of it.
pub enum ImportReply {
    Latest(Result<Option<ProviderQualification>, AppError>),
    Bindings(Vec<ProviderTrustStatus>),
    Ran(Result<ExecutedRun, AppError>),
    Fingerprint(Result<String, AppError>),
    Finished(Result<(), AppError>),
}

/// Storing what a provider of symbols found.
pub struct ImportRun {
    pub profile: String,
    pub phase: ImportPhase,
}

/// What is done next, by the kind of it.
pub enum PhaseView {
    Qualify,
    Trust(ProviderQualification),
    Execute,
    Prepare(ExecutedRun),
    CheckSource(ExecutedRun),
    Requalify(ExecutedRun),
    RecordPrepared(ExecutedRun),
    Commit(ExecutedRun),
    RecordCommitted,
    RecordFailure(ErrorView),
    Done,
    Failed(ErrorView),
}

impl View for ImportPhase {
    type V = PhaseView;

    open spec fn view(&self) -> PhaseView {
        match *self {
            ImportPhase::Qualify => PhaseView::Qualify,
            ImportPhase::Trust(q) => PhaseView::Trust(q),
            ImportPhase::Execute => PhaseView::Execute,
            ImportPhase::Prepare(run) => PhaseView::Prepare(run),
            ImportPhase::CheckSource(run) => PhaseView::CheckSource(run),
            ImportPhase::Requalify(run) => PhaseView::Requalify(run),
            ImportPhase::RecordPrepared(run) => PhaseView::RecordPrepared(run),
            ImportPhase::Commit(run) => PhaseView::Commit(run),
            ImportPhase::RecordCommitted => PhaseView::RecordCommitted,
            ImportPhase::RecordFailure(e) => PhaseView::RecordFailure(e@),
            ImportPhase::Done => PhaseView::Done,
            ImportPhase::Failed(e) => PhaseView::Failed(e@),
        }
    }
}

/// Why a snapshot is not stored once its source was read again.
pub open spec fn source_refusal(current: Seq<char>, run: ExecutedRun) -> Option<ErrorView> {
    if current == run.source_fingerprint@ {
        None
    } else {
        Some(
            ErrorView::Provider(
                "源码在 Provider 输出验证后再次变化；拒绝提交 semantic snapshot"@,
            ),
        )
    }
}

/// What is done after something came of what was done.
pub open spec fn next(profile: Seq<char>, phase: PhaseView, reply: ImportReply) -> PhaseView {
    match (phase, reply) {
        (PhaseView::Qualify, ImportReply::Latest(latest)) => match latest {
            Err(e) => PhaseView::Failed(e@),
            Ok(None) => PhaseView::Execute,
            Ok(Some(q)) => PhaseView::Trust(q),
        },
        (PhaseView::Trust(q), ImportReply::Bindings(trust)) => match stability::preflight_refusal(
            profile,
            Some(q),
            trust@,
        ) {
            Some(e) => PhaseView::Failed(e),
            None => PhaseView::Execute,
        },
        (PhaseView::Execute, ImportReply::Ran(ran)) => match ran {
            Err(e) => PhaseView::Failed(e@),
            Ok(run) => PhaseView::Prepare(run),
        },
        (PhaseView::Prepare(run), ImportReply::Finished(read)) => match read {
            Err(e) => PhaseView::RecordFailure(e@),
            Ok(()) => PhaseView::CheckSource(run),
        },
        (PhaseView::CheckSource(run), ImportReply::Fingerprint(current)) => match current {
            Err(e) => PhaseView::Failed(e@),
            Ok(current) => match source_refusal(current@, run) {
                Some(e) => PhaseView::RecordFailure(e),
                None => PhaseView::Requalify(run),
            },
        },
        (PhaseView::Requalify(run), ImportReply::Latest(latest)) => match latest {
            Err(e) => PhaseView::RecordFailure(e@),
            Ok(latest) => match stability::commit_refusal(profile, latest, run.binding@) {
                Some(e) => PhaseView::RecordFailure(e),
                None => PhaseView::RecordPrepared(run),
            },
        },
        (PhaseView::RecordPrepared(run), ImportReply::Finished(recorded)) => match recorded {
            Err(e) => PhaseView::Failed(e@),
            Ok(()) => PhaseView::Commit(run),
        },
        (PhaseView::Commit(_), ImportReply::Finished(stored)) => match stored {
            Err(e) => PhaseView::RecordFailure(e@),
            Ok(()) => PhaseView::RecordCommitted,
        },
        (PhaseView::RecordCommitted, ImportReply::Finished(_)) => PhaseView::Done,
        (PhaseView::RecordFailure(e), ImportReply::Finished(recorded)) => match recorded {
            Err(other) => PhaseView::Failed(other@),
            Ok(()) => PhaseView::Failed(e),
        },
        (PhaseView::Done, _) => PhaseView::Done,
        (PhaseView::Failed(e), _) => PhaseView::Failed(e),
        _ => PhaseView::Failed(ErrorView::UnexpectedReply),
    }
}

impl ImportRun {
    /// Begins by looking up the latest comparison of the provider.
    pub fn new(profile: String) -> (r: Self)
        ensures
            r.profile == profile,
            r.phase@ == PhaseView::Qualify,
    {
        ImportRun { profile, phase: ImportPhase::Qualify }
    }

    /// Goes on with what came of what was done.
    pub fn step(self, reply: ImportReply) -> (r: Self)
        ensures
            r.profile == self.profile,
            r.phase@ == next(self.profile@, self.phase@, reply),
    {
        let ImportRun { profile, phase } = self;
        let phase = match (phase, reply) {
            (ImportPhase::Qualify, ImportReply::Latest(latest)) => match latest {
                Err(e) => ImportPhase::Failed(e),
                Ok(None) => ImportPhase::Execute,
                Ok(Some(q)) => ImportPhase::Trust(q),
            },
            (ImportPhase::Trust(q), ImportReply::Bindings(trust)) => {
                let latest: Option<ProviderQualification> = Some(q);
                match stability::ensure_provider_preflight_qualification(
                    profile.as_str(),
                    &latest,
                    &trust,
                ) {
                    Err(e) => ImportPhase::Failed(e),
                    Ok(()) => ImportPhase::Execute,
                }
            },
            (ImportPhase::Execute, ImportReply::Ran(ran)) => match ran {
                Err(e) => ImportPhase::Failed(e),
                Ok(run) => ImportPhase::Prepare(run),
            },
            (ImportPhase::Prepare(run), ImportReply::Finished(read)) => match read {
                Err(e) => ImportPhase::RecordFailure(e),
                Ok(()) => ImportPhase::CheckSource(run),
            },
            (ImportPhase::CheckSource(run), ImportReply::Fingerprint(current)) => match current {
                Err(e) => ImportPhase::Failed(e),
                Ok(current) => {
                    if text::same(current.as_str(), run.source_fingerprint.as_str()) {
                        ImportPhase::Requalify(run)
                    } else {
                        ImportPhase::RecordFailure(
                            AppError::Provider(
                                "源码在 Provider 输出验证后再次变化；拒绝提交 semantic snapshot".to_owned(),
                            ),
                        )
                    }
                },
            },
            (ImportPhase::Requalify(run), ImportReply::Latest(latest)) => match latest {
                Err(e) => ImportPhase::RecordFailure(e),
                Ok(latest) => match stability::provider_commit_qualification(
                    profile.as_str(),
                    &latest,
                    &run.binding,
                ) {
                    Err(e) => ImportPhase::RecordFailure(e),
                    Ok(()) => ImportPhase::RecordPrepared(run),
                },
            },
            (ImportPhase::RecordPrepared(run), ImportReply::Finished(recorded)) => match recorded {
                Err(e) => ImportPhase::Failed(e),
                Ok(()) => ImportPhase::Commit(run),
            },
            (ImportPhase::Commit(_), ImportReply::Finished(stored)) => match stored {
                Err(e) => ImportPhase::RecordFailure(e),
                Ok(()) => ImportPhase::RecordCommitted,
            },
            (ImportPhase::RecordCommitted, ImportReply::Finished(_)) => ImportPhase::Done,
            (ImportPhase::RecordFailure(e), ImportReply::Finished(recorded)) => match recorded {
                Err(other) => ImportPhase::Failed(other),
                Ok(()) => ImportPhase::Failed(e),
            },
            (ImportPhase::Done, _) => ImportPhase::Done,
            (ImportPhase::Failed(e), _) => ImportPhase::Failed(e),
            _ => ImportPhase::Failed(AppError::UnexpectedReply),
        };
        ImportRun { profile, phase }
    }
}

// ---------------------------------------------------------------------------
// What holds of every run
// ---------------------------------------------------------------------------

/// The phases of a run, by what came of each.
pub open spec fn phases(profile: Seq<char>, replies: Seq<ImportReply>) -> PhaseView
    decreases replies.len(),
{
    if replies.len() == 0 {
        PhaseView::Qualify
    } else {
        next(profile, phases(profile, replies.drop_last()), replies.last())
    }
}

/// How far a run is from its end.
pub open spec fn distance(phase: PhaseView) -> nat {
    match phase {
        PhaseView::Qualify => 10,
        PhaseView::Trust(_) => 9,
        PhaseView::Execute => 8,
        PhaseView::Prepare(_) => 7,
        PhaseView::CheckSource(_) => 6,
        PhaseView::Requalify(_) => 5,
        PhaseView::RecordPrepared(_) => 4,
        PhaseView::Commit(_) => 3,
        PhaseView::RecordCommitted => 2,
        PhaseView::RecordFailure(_) => 1,
        PhaseView::Done => 0,
        PhaseView::Failed(_) => 0,
    }
}

/// Whatever comes of what it does, a run ends.
pub proof fn runs_end(profile: Seq<char>, phase: PhaseView, reply: ImportReply)
    ensures
        distance(phase) > 0 ==> distance(next(profile, phase, reply)) < distance(phase),
        distance(phase) == 0 ==> next(profile, phase, reply) == phase,
{
}

/// The provider ran, and left `run`.
pub open spec fn ran(reply: ImportReply, run: ExecutedRun) -> bool {
    reply == ImportReply::Ran(Ok(run))
}

/// The source is the one that `run` saw.
pub open spec fn source_kept(reply: ImportReply, run: ExecutedRun) -> bool {
    &&& reply is Fingerprint
    &&& reply->Fingerprint_0 is Ok
    &&& reply->Fingerprint_0->Ok_0@ == run.source_fingerprint@
}

/// The latest comparison of the provider allows `run`.
pub open spec fn allowed(profile: Seq<char>, reply: ImportReply, run: ExecutedRun) -> bool {
    &&& reply is Latest
    &&& reply->Latest_0 is Ok
    &&& stability::commit_refusal(profile, reply->Latest_0->Ok_0, run.binding@) is None
}

/// Somewhere among what came of a run, the provider ran and left `run`.
pub open spec fn has_run(replies: Seq<ImportReply>, run: ExecutedRun) -> bool {
    exists|i: int| 0 <= i < replies.len() && ran(#[trigger] replies[i], run)
}

/// Somewhere among what came of a run, the source was found unchanged.
pub open spec fn has_source(replies: Seq<ImportReply>, run: ExecutedRun) -> bool {
    exists|i: int| 0 <= i < replies.len() && source_kept(#[trigger] replies[i], run)
}

/// Somewhere among what came of a run, its standing was found good.
pub open spec fn has_standing(
    profile: Seq<char>,
    replies: Seq<ImportReply>,
    run: ExecutedRun,
) -> bool {
    exists|i: int| 0 <= i < replies.len() && allowed(profile, #[trigger] replies[i], run)
}

spec fn known(profile: Seq<char>, before: Seq<ImportReply>) -> bool {
    match phases(profile, before) {
        PhaseView::Prepare(run) => has_run(before, run),
        PhaseView::CheckSource(run) => has_run(before, run),
        PhaseView::Requalify(run) => has_run(before, run) && has_source(before, run),
        PhaseView::RecordPrepared(run) => has_run(before, run) && has_source(before, run)
            && has_standing(profile, before, run),
        PhaseView::Commit(run) => has_run(before, run) && has_source(before, run) && has_standing(
            profile,
            before,
            run,
        ),
        _ => true,
    }
}

proof fn knowledge_is_kept(profile: Seq<char>, replies: Seq<ImportReply>)
    ensures
        known(profile, replies),
    decreases replies.len(),
{
    if replies.len() > 0 {
        let before = replies.drop_last();
        let reply = replies.last();
        knowledge_is_kept(profile, before);
        assert(replies[replies.len() - 1] == reply);
        assert forall|run: ExecutedRun| has_run(before, run) implies has_run(replies, run) by {
            let i = choose|i: int| 0 <= i < before.len() && ran(#[trigger] before[i], run);
            assert(ran(replies[i], run));
        }
        assert forall|run: ExecutedRun| has_source(before, run) implies has_source(
            replies,
            run,
        ) by {
            let i = choose|i: int|
                0 <= i < before.len() && source_kept(#[trigger] before[i], run);
            assert(source_kept(replies[i], run));
        }
        assert forall|run: ExecutedRun| has_standing(profile, before, run) implies has_standing(
            profile,
            replies,
            run,
        ) by {
            let i = choose|i: int|
                0 <= i < before.len() && allowed(profile, #[trigger] before[i], run);
            assert(allowed(profile, replies[i], run));
        }
    }
}

/// A snapshot is stored only where the provider made it in this run, the source
/// is still the one that it saw, and the latest comparison of the provider
/// allows it.
pub proof fn only_checked_snapshots_are_stored(
    profile: Seq<char>,
    replies: Seq<ImportReply>,
    run: ExecutedRun,
)
    requires
        phases(profile, replies) == PhaseView::Commit(run),
    ensures
        has_run(replies, run),
        has_source(replies, run),
        has_standing(profile, replies, run),
{
    knowledge_is_kept(profile, replies);
}

/// A run ends well only once the snapshot is stored, and it is about to be
/// stored only once that was recorded.
pub proof fn done_means_stored(
    profile: Seq<char>,
    phase: PhaseView,
    reply: ImportReply,
)
    ensures
        next(profile, phase, reply) == PhaseView::Done && phase != PhaseView::Done ==> phase
            == PhaseView::RecordCommitted,
        next(profile, phase, reply) == PhaseView::RecordCommitted ==> phase is Commit
            && reply is Finished && reply->Finished_0 is Ok,
        next(profile, phase, reply) is Commit ==> phase is RecordPrepared && reply is Finished
            && reply->Finished_0 is Ok,
{
}

/// Once a provider has run, what is wrong with its output, with the source that
/// it saw or with its standing, and a snapshot that cannot be stored, is
/// recorded before it is told.
pub proof fn failures_are_recorded(
    profile: Seq<char>,
    phase: PhaseView,
    reply: ImportReply,
    error: AppError,
)
    ensures
        phase is Prepare && reply == ImportReply::Finished(Err(error)) ==> next(
            profile,
            phase,
            reply,
        ) == PhaseView::RecordFailure(error@),
        phase is Commit && reply == ImportReply::Finished(Err(error)) ==> next(
            profile,
            phase,
            reply,
        ) == PhaseView::RecordFailure(error@),
        phase is Requalify && reply is Latest ==> !(next(profile, phase, reply) is Failed),
        phase is CheckSource && reply is Fingerprint && reply->Fingerprint_0 is Ok ==> !(next(
            profile,
            phase,
            reply,
        ) is Failed),
        next(profile, PhaseView::RecordFailure(error@), ImportReply::Finished(Ok(())))
            == PhaseView::Failed(error@),
{
}

/// A provider with a verdict on it is looked at before it runs, and one without
/// runs at once; what it made is stored only where the source is the same and the
/// verdict still stands.
pub proof fn verdicts_are_looked_at_first(
    profile: Seq<char>,
    q: ProviderQualification,
    trust: Vec<ProviderTrustStatus>,
    run: ExecutedRun,
    current: String,
    latest: Option<ProviderQualification>,
)
    ensures
        next(profile, PhaseView::Qualify, ImportReply::Latest(Ok(Some(q)))) == PhaseView::Trust(q),
        next(profile, PhaseView::Qualify, ImportReply::Latest(Ok(None))) == PhaseView::Execute,
        next(profile, PhaseView::Trust(q), ImportReply::Bindings(trust)) == PhaseView::Execute
            <==> stability::preflight_refusal(profile, Some(q), trust@) is None,
        next(profile, PhaseView::CheckSource(run), ImportReply::Fingerprint(Ok(current)))
            == PhaseView::Requalify(run) <==> current@ == run.source_fingerprint@,
        next(profile, PhaseView::Requalify(run), ImportReply::Latest(Ok(latest)))
            == PhaseView::RecordPrepared(run) <==> stability::commit_refusal(
            profile,
            latest,
            run.binding@,
        ) is None,
{
}

} // verus!
