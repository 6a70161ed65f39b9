//! One run of a game engine for evidence: an engine that says what it is and
//! can do, one import, one probe, and a result that is taken only where the
//! engine stayed what it was.
use crate::error::{AppError, ErrorView};
use crate::execution::ProcessResult;
use crate::godot::{self, GodotRunSummary, ResultFacts};
use crate::order;
use crate::provider_run;
use crate::text;
use vstd::prelude::*;

verus! {

broadcast use {vstd::string::group_string_axioms, vstd::seq::group_seq_axioms};

/// What is asked of an engine, and of which.
#[derive(Debug, Clone, PartialEq, Eq)]
pub struct EngineOrder {
    pub project_key: String,
    pub executable_sha256: String,
    pub root: String,
    pub probe_root: String,
}

/// Both processes of a run, ended.
#[derive(Debug, PartialEq, Eq)]
pub struct Probed {
    pub version: String,
    pub import: ProcessResult,
    pub probe: ProcessResult,
    pub result: ResultFacts,
}

/// What is done next.
#[derive(Debug, PartialEq, Eq)]
pub enum EnginePhase {
    /// Ask the engine for its version.
    AskVersion,
    /// Ask it what it can do.
    AskHelp(String),
    /// Write the script of the probe.
    WriteScript(String),
    /// Have the project imported.
    Import(String),
    /// Run the probe.
    Probe(String, ProcessResult),
    /// Look at the file with its result.
    LookAtResult(String, ProcessResult, ProcessResult),
    /// Read it.
    ReadResult(Probed),
    /// Hash the engine again.
    HashEngine(Probed),
    /// Make the evidence, with the identity of the engine and what it wrote
    /// about errors.
    MakeEvidence(GodotRunSummary, String, Vec<String>),
    /// The evidence is made.
    Done(GodotRunSummary),
    /// There is none.
    Failed(AppError),
}

/// What came of it.
#[derive(Debug, PartialEq, Eq)]
pub enum EngineReply {
    Ended(Result<ProcessResult, AppError>),
    Finished(Result<(), AppError>),
    Result(ResultFacts),
    Hash(Result<String, AppError>),
}

/// One run of an engine.
#[derive(Debug, PartialEq, Eq)]
pub struct EngineRun {
    pub order: EngineOrder,
    pub phase: EnginePhase,
}

/// A run is over for a reason.
pub open spec fn over(after: EnginePhase, reason: ErrorView) -> bool {
    after matches EnginePhase::Failed(e) && e@ == reason
}

/// A summary tells what came of a run.
pub open spec fn summary_told(s: GodotRunSummary, order: EngineOrder, p: Probed) -> bool {
    &&& s.schema_version == godot::GODOT_RUN_SCHEMA_VERSION
    &&& s.project_key@ == order.project_key@
    &&& s.engine_version@ == p.version@
    &&& s.executable_sha256@ == order.executable_sha256@
    &&& godot::tells(s.import, p.import)
    &&& godot::tells(s.probe, p.probe)
}

/// What the engine wrote about errors, both times, each once and in order.
pub open spec fn told_errors(order: EngineOrder, p: Probed) -> Seq<Seq<char>> {
    order::sorted_set_of(
        godot::all_diagnostics(
            godot::outputs_of(seq![p.import, p.probe]),
            order.root@,
            order.probe_root@,
        ),
    )
}

/// What a run can do once something came of what it did.
pub open spec fn follows(before: EngineRun, reply: EngineReply, after: EnginePhase) -> bool {
    let order = before.order;
    match (before.phase, reply) {
        (EnginePhase::AskVersion, EngineReply::Ended(ended)) => match ended {
            Err(e) => over(after, e@),
            Ok(process) => match godot::version_probe_refusal(process) {
                Some(e) => over(after, e),
                None => after matches EnginePhase::AskHelp(version) && version@ == text::shortened(
                    provider_run::version_line(process),
                    512,
                ),
            },
        },
        (EnginePhase::AskHelp(version), EngineReply::Ended(ended)) => match ended {
            Err(e) => over(after, e@),
            Ok(process) => match godot::help_probe_refusal(process) {
                Some(e) => over(after, e),
                None => after == EnginePhase::WriteScript(version),
            },
        },
        (EnginePhase::WriteScript(version), EngineReply::Finished(written)) => match written {
            Err(e) => over(after, e@),
            Ok(()) => after == EnginePhase::Import(version),
        },
        (EnginePhase::Import(version), EngineReply::Ended(ended)) => match ended {
            Err(e) => over(after, e@),
            Ok(process) => match godot::stage_refusal("Godot import"@, process) {
                Some(e) => over(after, e),
                None => after == EnginePhase::Probe(version, process),
            },
        },
        (EnginePhase::Probe(version, import), EngineReply::Ended(ended)) => match ended {
            Err(e) => over(after, e@),
            Ok(process) => match godot::stage_refusal("Godot evidence probe"@, process) {
                Some(e) => over(after, e),
                None => after == EnginePhase::LookAtResult(version, import, process),
            },
        },
        (EnginePhase::LookAtResult(version, import, probe), EngineReply::Result(result)) =>
            match godot::result_refusal(result) {
            Some(e) => over(after, e),
            None => after == EnginePhase::ReadResult(Probed { version, import, probe, result }),
        },
        (EnginePhase::ReadResult(probed), EngineReply::Finished(read)) => match read {
            Err(e) => over(after, e@),
            Ok(()) => after == EnginePhase::HashEngine(probed),
        },
        (EnginePhase::HashEngine(p), EngineReply::Hash(hash)) => match hash {
            Err(e) => over(after, e@),
            Ok(now) => match godot::processes_refusal(
                p.import,
                p.probe,
                p.result,
                order.executable_sha256@,
                now@,
            ) {
                Some(e) => over(after, e),
                None => after matches EnginePhase::MakeEvidence(summary, identity, errors) && {
                    &&& summary_told(summary, order, p)
                    &&& identity@ == p.version@ + "+sha256."@ + order.executable_sha256@
                    &&& text::views(errors@) == told_errors(order, p)
                },
            },
        },
        (EnginePhase::MakeEvidence(summary, _, _), EngineReply::Finished(made)) => match made {
            Err(e) => over(after, e@),
            Ok(()) => after == EnginePhase::Done(summary),
        },
        (EnginePhase::Done(summary), _) => after == EnginePhase::Done(summary),
        (EnginePhase::Failed(e), _) => after == EnginePhase::Failed(e),
        _ => over(after, ErrorView::UnexpectedReply),
    }
}

fn take_hash(order: &EngineOrder, p: Probed, now: &str) -> (r: EnginePhase)
    ensures
        match godot::processes_refusal(
            p.import,
            p.probe,
            p.result,
            order.executable_sha256@,
            now@,
        ) {
            Some(e) => over(r, e),
            None => r matches EnginePhase::MakeEvidence(summary, identity, errors) && {
                &&& summary_told(summary, *order, p)
                &&& identity@ == p.version@ + "+sha256."@ + order.executable_sha256@
                &&& text::views(errors@) == told_errors(*order, p)
            },
        },
{
    let Probed { version, import, probe, result } = p;
    match godot::finish_run(
        order.project_key.as_str(),
        version.as_str(),
        order.executable_sha256.as_str(),
        now,
        import,
        probe,
        &result,
        order.root.as_str(),
        order.probe_root.as_str(),
    ) {
        Err(e) => EnginePhase::Failed(e),
        Ok((summary, errors)) => {
            let identity = godot::engine_identity(
                version.as_str(),
                order.executable_sha256.as_str(),
            );
            EnginePhase::MakeEvidence(summary, identity, errors)
        },
    }
}

impl EngineRun {
    /// Begins by asking the engine for its version, where it may be run at all.
    pub fn new(order: EngineOrder, trusted: bool, has_project_file: bool) -> (r: Self)
        ensures
            r.order == order,
            match godot::run_refusal(trusted, has_project_file, order.root@) {
                Some(e) => over(r.phase, e),
                None => r.phase == EnginePhase::AskVersion,
            },
    {
        let phase = match godot::begin_run(trusted, has_project_file, order.root.as_str()) {
            Err(e) => EnginePhase::Failed(e),
            Ok(()) => EnginePhase::AskVersion,
        };
        EngineRun { order, phase }
    }

    /// Goes on with what came of what was done.
    pub fn step(self, reply: EngineReply) -> (r: Self)
        ensures
            r.order == self.order,
            follows(self, reply, r.phase),
    {
        let EngineRun { order, phase } = self;
        let phase = match (phase, reply) {
            (EnginePhase::AskVersion, EngineReply::Ended(ended)) => match ended {
                Err(e) => EnginePhase::Failed(e),
                Ok(process) => match godot::judge_version(&process) {
                    Err(e) => EnginePhase::Failed(e),
                    Ok(version) => EnginePhase::AskHelp(version),
                },
            },
            (EnginePhase::AskHelp(version), EngineReply::Ended(ended)) => match ended {
                Err(e) => EnginePhase::Failed(e),
                Ok(process) => match godot::judge_help(&process) {
                    Err(e) => EnginePhase::Failed(e),
                    Ok(()) => EnginePhase::WriteScript(version),
                },
            },
            (EnginePhase::WriteScript(version), EngineReply::Finished(written)) => match written {
                Err(e) => EnginePhase::Failed(e),
                Ok(()) => EnginePhase::Import(version),
            },
            (EnginePhase::Import(version), EngineReply::Ended(ended)) => match ended {
                Err(e) => EnginePhase::Failed(e),
                Ok(process) => match godot::require_complete_success("Godot import", &process) {
                    Err(e) => EnginePhase::Failed(e),
                    Ok(()) => EnginePhase::Probe(version, process),
                },
            },
            (EnginePhase::Probe(version, import), EngineReply::Ended(ended)) => match ended {
                Err(e) => EnginePhase::Failed(e),
                Ok(process) => match godot::require_complete_success(
                    "Godot evidence probe",
                    &process,
                ) {
                    Err(e) => EnginePhase::Failed(e),
                    Ok(()) => EnginePhase::LookAtResult(version, import, process),
                },
            },
            (EnginePhase::LookAtResult(version, import, probe), EngineReply::Result(result)) =>
                match godot::check_result(&result) {
                Err(e) => EnginePhase::Failed(e),
                Ok(()) => EnginePhase::ReadResult(Probed { version, import, probe, result }),
            },
            (EnginePhase::ReadResult(probed), EngineReply::Finished(read)) => match read {
                Err(e) => EnginePhase::Failed(e),
                Ok(()) => EnginePhase::HashEngine(probed),
            },
            (EnginePhase::HashEngine(probed), EngineReply::Hash(hash)) => match hash {
                Err(e) => EnginePhase::Failed(e),
                Ok(now) => take_hash(&order, probed, now.as_str()),
            },
            (EnginePhase::MakeEvidence(summary, _, _), EngineReply::Finished(made)) => match made {
                Err(e) => EnginePhase::Failed(e),
                Ok(()) => EnginePhase::Done(summary),
            },
            (EnginePhase::Done(summary), _) => EnginePhase::Done(summary),
            (EnginePhase::Failed(e), _) => EnginePhase::Failed(e),
            _ => EnginePhase::Failed(AppError::UnexpectedReply),
        };
        EngineRun { order, phase }
    }
}

// ---------------------------------------------------------------------------
// What holds of every run
// ---------------------------------------------------------------------------

/// How far a run is from its end.
pub open spec fn distance(phase: EnginePhase) -> nat {
    match phase {
        EnginePhase::AskVersion => 9,
        EnginePhase::AskHelp(_) => 8,
        EnginePhase::WriteScript(_) => 7,
        EnginePhase::Import(_) => 6,
        EnginePhase::Probe(_, _) => 5,
        EnginePhase::LookAtResult(_, _, _) => 4,
        EnginePhase::ReadResult(_) => 3,
        EnginePhase::HashEngine(_) => 2,
        EnginePhase::MakeEvidence(_, _, _) => 1,
        EnginePhase::Done(_) => 0,
        EnginePhase::Failed(_) => 0,
    }
}

/// Whatever comes of what it does, a run ends.
pub proof fn engine_runs_end(before: EngineRun, reply: EngineReply, after: EnginePhase)
    requires
        follows(before, reply, after),
    ensures
        distance(before.phase) > 0 ==> distance(after) < distance(before.phase),
        distance(before.phase) == 0 ==> after == before.phase,
{
}

/// Evidence is made only where the engine is still the one that was pinned, and
/// both of its processes ended well and wholly.
pub proof fn only_pinned_engines_give_evidence(
    before: EngineRun,
    reply: EngineReply,
    after: EnginePhase,
)
    requires
        follows(before, reply, after),
    ensures
        after is MakeEvidence ==> {
            &&& before.phase is HashEngine && reply is Hash && reply->Hash_0 is Ok
            &&& reply->Hash_0->Ok_0@ == before.order.executable_sha256@
            &&& godot::stage_refusal(
                "Godot import"@,
                before.phase->HashEngine_0.import,
            ) is None
            &&& godot::stage_refusal(
                "Godot evidence probe"@,
                before.phase->HashEngine_0.probe,
            ) is None
            &&& godot::result_refusal(before.phase->HashEngine_0.result) is None
        },
        after is Done && !(before.phase is Done) ==> before.phase is MakeEvidence,
        after is Probe ==> before.phase is Import,
        after is Import ==> before.phase is WriteScript,
        after is WriteScript ==> before.phase is AskHelp,
{
}

/// Whatever goes wrong outside ends the run without evidence.
pub proof fn outside_errors_end_engine_runs(
    before: EngineRun,
    reply: EngineReply,
    after: EnginePhase,
)
    requires
        follows(before, reply, after),
        !(before.phase is Done),
        ({
            ||| reply is Ended && reply->Ended_0 is Err
            ||| reply is Finished && reply->Finished_0 is Err
            ||| reply is Hash && reply->Hash_0 is Err
        }),
    ensures
        after is Failed,
{
}

/// Evidence is made of an engine run exactly where both processes ended with
/// code zero and were read whole, the result is a regular file within the limit
/// and the engine is the pinned one; and it tells every error that either
/// process reported.
pub proof fn engine_evidence_tells_every_error(
    before: EngineRun,
    p: Probed,
    now: String,
    after: EnginePhase,
    line: Seq<char>,
)
    requires
        before.phase == EnginePhase::HashEngine(p),
        follows(before, EngineReply::Hash(Ok(now)), after),
    ensures
        after is MakeEvidence <==> {
            &&& p.import.status.code == Some(0i32) && p.probe.status.code == Some(0i32)
            &&& !p.import.stdout.truncated && !p.import.stderr.truncated
            &&& !p.probe.stdout.truncated && !p.probe.stderr.truncated
            &&& p.result.regular == Ok::<bool, String>(true) && p.result.len <= 67108864
            &&& before.order.executable_sha256@ == now@
        },
        after is MakeEvidence ==> (text::views(after->MakeEvidence_2@).contains(line)
            <==> godot::all_diagnostics(
            seq![
                text::utf8_lossy(p.import.stdout.bytes@),
                text::utf8_lossy(p.import.stderr.bytes@),
                text::utf8_lossy(p.probe.stdout.bytes@),
                text::utf8_lossy(p.probe.stderr.bytes@),
            ],
            before.order.root@,
            before.order.probe_root@,
        ).contains(line)),
{
    godot::only_whole_engine_runs_count(
        true,
        true,
        Seq::empty(),
        p.import,
        p.probe,
        p.result,
        before.order.executable_sha256@,
        now@,
    );
    let both = seq![p.import, p.probe];
    let outputs = seq![
        text::utf8_lossy(p.import.stdout.bytes@),
        text::utf8_lossy(p.import.stderr.bytes@),
        text::utf8_lossy(p.probe.stdout.bytes@),
        text::utf8_lossy(p.probe.stderr.bytes@),
    ];
    godot::processes_give_both_streams(both);
    assert(both[0] == p.import && both[1] == p.probe);
    assert(godot::outputs_of(both)[0] == outputs[0]);
    assert(godot::outputs_of(both)[2] == outputs[2]);
    assert(godot::outputs_of(both) =~= outputs);
    order::sorted_set_keeps_members(
        godot::all_diagnostics(outputs, before.order.root@, before.order.probe_root@),
    );
}

} // verus!
