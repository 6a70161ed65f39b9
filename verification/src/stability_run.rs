//! Verifying that a provider is stable: it is run several times on one source,
//! and what the runs come to is recorded.  A run that cannot be compared with
//! those before it makes all of them void, and that is recorded too.
use crate::error::{AppError, ErrorView};
use crate::stability::{
    self, Observation, ObservationView, QualificationEntry, StabilityReport, StabilityRun,
};
use vstd::prelude::*;

verus! {

broadcast use {vstd::string::group_string_axioms, vstd::seq::group_seq_axioms};

/// What is done next.
#[derive(Debug, PartialEq, Eq)]
pub enum VerifyPhase {
    /// Run the provider.
    Execute,
    /// Prepare what the run gave for comparison.
    Prepare,
    /// Record that what the run gave was not taken, and why.
    RecordFailure(AppError),
    /// Record that the run was observed.
    RecordRun,
    /// Write all observations down.
    Write(StabilityReport),
    /// Store how the comparison ended.
    Store(QualificationEntry, StabilityReport),
    /// The provider is stable.
    Passed(StabilityReport),
    /// It is not, and this is what its user is told.
    Rejected(StabilityReport, AppError),
    /// It could not be verified.
    Failed(AppError),
}

/// What came of it.
#[derive(Debug, PartialEq, Eq)]
pub enum VerifyReply {
    Executed(Result<(), AppError>),
    Prepared(Result<Observation, AppError>),
    Recorded(Result<(), AppError>),
    Written(Result<Vec<u8>, AppError>),
    Stored(Result<(), AppError>),
}

/// Verifying that a provider is stable.
#[derive(Debug, PartialEq, Eq)]
pub struct VerifyRun {
    pub runs: u8,
    pub seen: StabilityRun,
    pub phase: VerifyPhase,
}

/// A verification has failed.
pub open spec fn fails(after: VerifyPhase, e: ErrorView) -> bool {
    after matches VerifyPhase::Failed(x) && x@ == e
}

/// On to the next run; where all have been made, to what they come to; and to a
/// failure where none was wanted.
pub open spec fn goes_on(runs: u8, seen: Seq<ObservationView>, after: VerifyPhase) -> bool {
    if seen.len() < runs {
        after is Execute
    } else {
        match stability::entry_refusal(seen) {
            Some(e) => fails(after, e),
            None => after matches VerifyPhase::Write(report) && stability::concluded(report, seen),
        }
    }
}

/// What follows what was done, by what came of it.
pub open spec fn follows(before: VerifyRun, reply: VerifyReply, after: VerifyRun) -> bool {
    &&& after.runs == before.runs
    &&& match (before.phase, reply) {
        (VerifyPhase::Prepare, VerifyReply::Prepared(Ok(observed))) => after.seen@ == (
        if stability::comparison_refusal(before.seen@, observed@) is None {
            before.seen@.push(observed@)
        } else {
            before.seen@
        }),
        _ => after.seen@ == before.seen@,
    }
    &&& match (before.phase, reply) {
        (VerifyPhase::Execute, VerifyReply::Executed(done)) => match done {
            Err(e) => fails(after.phase, e@),
            Ok(()) => after.phase is Prepare,
        },
        (VerifyPhase::Prepare, VerifyReply::Prepared(prepared)) => match prepared {
            Err(e) => after.phase == VerifyPhase::RecordFailure(e),
            Ok(observed) => match stability::comparison_refusal(before.seen@, observed@) {
                Some(e) => after.phase matches VerifyPhase::RecordFailure(x) && x@ == e,
                None => after.phase is RecordRun,
            },
        },
        (VerifyPhase::RecordFailure(e), VerifyReply::Recorded(recorded)) => match recorded {
            Err(x) => fails(after.phase, x@),
            Ok(()) => fails(after.phase, e@),
        },
        (VerifyPhase::RecordRun, VerifyReply::Recorded(recorded)) => match recorded {
            Err(e) => fails(after.phase, e@),
            Ok(()) => goes_on(before.runs, before.seen@, after.phase),
        },
        (VerifyPhase::Write(report), VerifyReply::Written(written)) => match written {
            Err(e) => fails(after.phase, e@),
            Ok(bytes) => match stability::entry_refusal(before.seen@) {
                Some(e) => fails(after.phase, e),
                None => after.phase matches VerifyPhase::Store(entry, kept) && kept == report
                    && stability::entered(
                    entry,
                    report.status@,
                    before.runs,
                    before.seen@,
                    bytes@,
                ),
            },
        },
        (VerifyPhase::Store(_, report), VerifyReply::Stored(stored)) => match stored {
            Err(e) => fails(after.phase, e@),
            Ok(()) => match stability::verdict_refusal(report.status@) {
                None => after.phase == VerifyPhase::Passed(report),
                Some(e) => after.phase matches VerifyPhase::Rejected(kept, x) && kept == report
                    && x@ == e,
            },
        },
        (VerifyPhase::Passed(_), _) => after.phase == before.phase,
        (VerifyPhase::Rejected(_, _), _) => after.phase == before.phase,
        (VerifyPhase::Failed(_), _) => after.phase == before.phase,
        _ => fails(after.phase, ErrorView::UnexpectedReply),
    }
}

/// What holds of a verification at every step: it compares what can be
/// compared, asks for no more runs than were wanted, and says what all of them
/// come to only once all are there.
pub open spec fn sound(run: VerifyRun) -> bool {
    &&& stability::comparable(run.seen@)
    &&& run.seen@.len() <= run.runs
    &&& run.phase is Execute || run.phase is Prepare ==> run.seen@.len() < run.runs
    &&& match run.phase {
        VerifyPhase::Write(report) => run.seen@.len() == run.runs && run.runs > 0
            && stability::concluded(report, run.seen@),
        VerifyPhase::Store(_, report) => run.seen@.len() == run.runs && run.runs > 0
            && stability::concluded(report, run.seen@),
        VerifyPhase::Passed(report) => run.seen@.len() == run.runs && run.runs > 0
            && stability::concluded(report, run.seen@),
        VerifyPhase::Rejected(report, _) => run.seen@.len() == run.runs && run.runs > 0
            && stability::concluded(report, run.seen@),
        _ => true,
    }
}

fn go_on(runs: u8, seen: &StabilityRun) -> (r: VerifyPhase)
    ensures
        goes_on(runs, seen@, r),
{
    let made: usize = seen.observations.len();
    assert(seen@.len() == made);
    if made < runs as usize {
        return VerifyPhase::Execute;
    }
    if made == 0 {
        return VerifyPhase::Failed(
            AppError::Provider("稳定性验证没有产生 Provider 绑定证据".to_owned()),
        );
    }
    VerifyPhase::Write(seen.conclude())
}

impl VerifyRun {
    /// Begins with the first of a number of runs.
    pub fn new(runs: u8) -> (r: Self)
        ensures
            r.runs == runs,
            r.seen@ == Seq::<ObservationView>::empty(),
            goes_on(runs, r.seen@, r.phase),
            sound(r),
    {
        let seen = StabilityRun::new();
        let phase = go_on(runs, &seen);
        VerifyRun { runs, seen, phase }
    }

    /// Goes on with what came of what was done.
    pub fn step(self, reply: VerifyReply) -> (r: Self)
        ensures
            follows(self, reply, r),
            sound(self) ==> sound(r),
    {
        let runs: u8 = self.runs;
        let mut seen = self.seen;
        let phase = match (self.phase, reply) {
            (VerifyPhase::Execute, VerifyReply::Executed(done)) => match done {
                Err(e) => VerifyPhase::Failed(e),
                Ok(()) => VerifyPhase::Prepare,
            },
            (VerifyPhase::Prepare, VerifyReply::Prepared(prepared)) => match prepared {
                Err(e) => VerifyPhase::RecordFailure(e),
                Ok(observed) => match seen.observe(observed) {
                    Err(e) => VerifyPhase::RecordFailure(e),
                    Ok(()) => VerifyPhase::RecordRun,
                },
            },
            (VerifyPhase::RecordFailure(e), VerifyReply::Recorded(recorded)) => match recorded {
                Err(x) => VerifyPhase::Failed(x),
                Ok(()) => VerifyPhase::Failed(e),
            },
            (VerifyPhase::RecordRun, VerifyReply::Recorded(recorded)) => match recorded {
                Err(e) => VerifyPhase::Failed(e),
                Ok(()) => go_on(runs, &seen),
            },
            (VerifyPhase::Write(report), VerifyReply::Written(written)) => match written {
                Err(e) => VerifyPhase::Failed(e),
                Ok(bytes) => match seen.qualification_entry(report.status, runs, &bytes) {
                    Err(e) => VerifyPhase::Failed(e),
                    Ok(entry) => VerifyPhase::Store(entry, report),
                },
            },
            (VerifyPhase::Store(_, report), VerifyReply::Stored(stored)) => match stored {
                Err(e) => VerifyPhase::Failed(e),
                Ok(()) => match stability::stability_verdict(report.status) {
                    Ok(()) => VerifyPhase::Passed(report),
                    Err(e) => VerifyPhase::Rejected(report, e),
                },
            },
            (VerifyPhase::Passed(report), _) => VerifyPhase::Passed(report),
            (VerifyPhase::Rejected(report, e), _) => VerifyPhase::Rejected(report, e),
            (VerifyPhase::Failed(e), _) => VerifyPhase::Failed(e),
            _ => VerifyPhase::Failed(AppError::UnexpectedReply),
        };
        VerifyRun { runs, seen, phase }
    }
}

// ---------------------------------------------------------------------------
// What holds of every verification
// ---------------------------------------------------------------------------

/// How far a verification is from its end.
pub open spec fn distance(run: VerifyRun) -> int {
    let left = run.runs - run.seen@.len();
    match run.phase {
        VerifyPhase::Execute => 4 * left + 6,
        VerifyPhase::Prepare => 4 * left + 5,
        VerifyPhase::RecordRun => 4 * left + 8,
        VerifyPhase::Write(_) => 3,
        VerifyPhase::Store(_, _) => 2,
        VerifyPhase::RecordFailure(_) => 1,
        _ => 0,
    }
}

/// Every verification ends: whatever comes of what is done, it is nearer to its
/// end than before.
pub proof fn verifications_end(before: VerifyRun, reply: VerifyReply, after: VerifyRun)
    requires
        sound(before),
        follows(before, reply, after),
        !(before.phase is Passed),
        !(before.phase is Rejected),
        !(before.phase is Failed),
    ensures
        0 <= distance(after) < distance(before),
{
}

/// A run that is not taken, because it cannot be prepared or cannot be compared
/// with those before it, is recorded before its error is told, and it is that
/// error that is told.
pub proof fn refused_runs_are_recorded_first(
    before: VerifyRun,
    reply: VerifyReply,
    after: VerifyRun,
)
    requires
        follows(before, reply, after),
    ensures
        before.phase is Prepare && reply is Prepared ==> !(after.phase is Failed),
        before.phase is Prepare && reply is Prepared && reply->Prepared_0 is Ok
            && stability::comparison_refusal(before.seen@, reply->Prepared_0->Ok_0@) is Some
            ==> after.phase is RecordFailure && after.seen@ == before.seen@,
        before.phase is RecordFailure && reply is Recorded && reply->Recorded_0 is Ok ==> fails(
            after.phase,
            before.phase->RecordFailure_0@,
        ),
{
}

/// A comparison is stored only once every run that was wanted has been made,
/// and with what all of them come to.
pub proof fn only_whole_comparisons_are_stored(
    before: VerifyRun,
    reply: VerifyReply,
    after: VerifyRun,
)
    requires
        sound(before),
        follows(before, reply, after),
        after.phase is Store,
    ensures
        after.seen@.len() == after.runs,
        stability::comparable(after.seen@),
        after.phase->Store_0.runs == after.runs,
        after.phase->Store_0.status@ == stability::status_name(
            stability::same_documents(after.seen@),
            stability::same_snapshots(after.seen@),
            stability::all_complete(after.seen@),
        ),
        after.phase->Store_0.binding@ == after.seen@[0].binding,
        after.phase->Store_0.source_fingerprint@ == after.seen@[0].source,
{
}

/// A provider passes only once that was stored, and only where every run found
/// the same documents, made the same snapshot and covered everything.
pub proof fn passing_providers_are_stable(
    before: VerifyRun,
    reply: VerifyReply,
    after: VerifyRun,
)
    requires
        sound(before),
        follows(before, reply, after),
        after.phase is Passed,
        !(before.phase is Passed),
    ensures
        before.phase is Store && reply is Stored && reply->Stored_0 is Ok,
        stability::same_documents(after.seen@),
        stability::same_snapshots(after.seen@),
        stability::all_complete(after.seen@),
{
    stability::passing_means_every_run_agrees(before.seen@);
}

} // verus!
