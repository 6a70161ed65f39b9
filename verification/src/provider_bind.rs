//! Binding a program of the machine to a profile: what is done next, by what
//! came of what was done.  Only a program outside of the repository that says
//! what it is expected to be is entered into the registry.
use crate::error::{self, AppError, ErrorView};
use crate::execution::ProcessResult;
use crate::provider::{
    self, FileFacts, ProviderArtifact, ProviderBindReport, ProviderBinding, ProviderRegistry,
    SemanticProviderProfile,
};
use crate::provider_run::{self, Note, ProviderAuditRecord};
use vstd::prelude::*;

verus! {

broadcast use {vstd::string::group_string_axioms, vstd::seq::group_seq_axioms};

/// What is found of a file that is to be bound.
#[derive(Debug, PartialEq, Eq)]
pub struct ProgramFacts {
    pub file: FileFacts,
    pub sha256: String,
    pub inside_repository: bool,
    pub extension: String,
}

/// What is bound.
#[derive(Debug, Clone, PartialEq, Eq)]
pub struct Program {
    pub executable: ProviderArtifact,
    pub script: Option<ProviderArtifact>,
    pub manifest: Option<String>,
}

/// What is done next.
#[derive(Debug, PartialEq, Eq)]
pub enum BindPhase {
    /// Look at the program.
    LookAtExecutable,
    /// Look at the script that the program is to be started with.
    LookAtScript(ProviderArtifact),
    /// Take stock of the package of the script.
    TakeStock(ProviderArtifact, ProviderArtifact),
    /// Ask the program for its version.
    Probe(Program),
    /// Record what came of asking.
    RecordProbe(Program, ProcessResult, Note, Result<String, AppError>),
    /// Take the lock and read the registry.
    ReadRegistry(ProviderBinding),
    /// Write the registry.
    WriteRegistry(ProviderRegistry, ProviderBindReport),
    /// The program is bound.
    Done(ProviderBindReport),
    /// It is not.
    Failed(AppError),
}

/// What came of it.
#[derive(Debug, PartialEq, Eq)]
pub enum BindReply {
    File(Result<ProgramFacts, AppError>),
    Stock(Result<String, AppError>),
    Probed(Result<ProcessResult, AppError>),
    Registry(Result<ProviderRegistry, AppError>),
    Written(Result<(), AppError>),
}

/// Binding a program of the machine to a profile.
#[derive(Debug, PartialEq, Eq)]
pub struct BindRun {
    pub project_key: String,
    pub profile_id: String,
    pub profile: SemanticProviderProfile,
    pub with_script: bool,
    pub replace: bool,
    pub phase: BindPhase,
}

/// A pinned file, as it is told.
pub struct PinView {
    pub path: Seq<char>,
    pub sha256: Seq<char>,
}

/// A pinned file, as it is told.
pub open spec fn pin(a: ProviderArtifact) -> PinView {
    PinView { path: a.canonical_path@, sha256: a.sha256@ }
}

/// The file that was found, pinned.
pub open spec fn pinned(facts: ProgramFacts) -> PinView {
    PinView { path: facts.file.canonical->Ok_0@, sha256: facts.sha256@ }
}

/// Why a program is not bound.
pub open spec fn program_refusal(facts: ProgramFacts) -> Option<ErrorView> {
    match provider::pin_refusal(facts.file, "Provider executable"@) {
        Some(e) => Some(e),
        None => provider::executable_refusal(
            facts.inside_repository,
            facts.file.canonical->Ok_0@,
            facts.extension@,
            "Provider executable"@,
        ),
    }
}

/// Why a script is not bound.
pub open spec fn script_refusal(producer: Seq<char>, facts: ProgramFacts) -> Option<ErrorView> {
    match provider::pin_refusal(facts.file, "Provider launcher script"@) {
        Some(e) => Some(e),
        None => match provider::repository_refusal(
            facts.inside_repository,
            facts.file.canonical->Ok_0@,
            "Provider launcher script"@,
        ) {
            Some(e) => Some(e),
            None => if provider::is_producer(producer, "scip-python"@) {
                None
            } else {
                Some(
                    ErrorView::Provider(
                        "launcher script 只用于通过原生 node executable 启动 scip-python"@,
                    ),
                )
            },
        },
    }
}

/// The phase that follows `self` upon `reply`, for a run.
pub open spec fn follows(before: BindRun, reply: BindReply, after: BindPhase) -> bool {
    match (before.phase, reply) {
        (BindPhase::LookAtExecutable, BindReply::File(found)) => match found {
            Err(e) => after matches BindPhase::Failed(x) && x@ == e@,
            Ok(facts) => match program_refusal(facts) {
                Some(e) => after matches BindPhase::Failed(x) && x@ == e,
                None => if before.with_script {
                    after matches BindPhase::LookAtScript(a) && pin(a) == pinned(facts)
                } else {
                    after matches BindPhase::Probe(p) && pin(p.executable) == pinned(facts)
                        && p.script is None && p.manifest is None
                },
            },
        },
        (BindPhase::LookAtScript(executable), BindReply::File(found)) => match found {
            Err(e) => after matches BindPhase::Failed(x) && x@ == e@,
            Ok(facts) => match script_refusal(before.profile.producer@, facts) {
                Some(e) => after matches BindPhase::Failed(x) && x@ == e,
                None => after matches BindPhase::TakeStock(a, s) && a == executable && pin(s)
                    == pinned(facts),
            },
        },
        (BindPhase::TakeStock(executable, script), BindReply::Stock(stock)) => match stock {
            Err(e) => after matches BindPhase::Failed(x) && x@ == e@,
            Ok(manifest) => after == BindPhase::Probe(
                Program { executable, script: Some(script), manifest: Some(manifest) },
            ),
        },
        (BindPhase::Probe(program), BindReply::Probed(probed)) => match probed {
            Err(e) => after matches BindPhase::Failed(x) && x@ == e@,
            Ok(process) => {
                let made = provider_run::probe_outcome(
                    before.profile.producer@,
                    program.executable,
                    program.script,
                    process,
                    provider_run::version_line(process),
                );
                match made.0 {
                    None => after matches BindPhase::Failed(x) && made.1 is Err && x@
                        == made.1->Err_0,
                    Some(note) => after matches BindPhase::RecordProbe(p, ran, n, version) && {
                        &&& p == program && ran == process && n@ == note
                        &&& match version {
                            Ok(v) => made.1 == Ok::<Seq<char>, ErrorView>(v@),
                            Err(e) => made.1 == Err::<Seq<char>, ErrorView>(e@),
                        }
                    },
                }
            },
        },
        (BindPhase::RecordProbe(program, _, _, version), BindReply::Written(recorded)) =>
            match recorded {
            Err(e) => after matches BindPhase::Failed(x) && x@ == e@,
            Ok(()) => match version {
                Err(e) => after matches BindPhase::Failed(x) && x@ == e@,
                Ok(version) => after matches BindPhase::ReadRegistry(b) && provider_run::binds(
                    b,
                    before.project_key@,
                    before.profile,
                    program.executable,
                    program.script,
                    program.manifest,
                    version@,
                ),
            },
        },
        (BindPhase::ReadRegistry(binding), BindReply::Registry(registry)) => match registry {
            Err(e) => after matches BindPhase::Failed(x) && x@ == e@,
            Ok(registry) => match provider::entered(
                registry.bindings@,
                binding,
                binding.project_key@,
                before.profile_id@,
                before.replace,
            ) {
                Err(e) => after matches BindPhase::Failed(x) && x@ == e,
                Ok(entered) => if entered.changed {
                    after matches BindPhase::WriteRegistry(r, report) && {
                        &&& r.schema_version == registry.schema_version
                        &&& r.bindings@ == entered.bindings
                        &&& provider_run::bind_report_says(report, entered.binding, true)
                    }
                } else {
                    after matches BindPhase::Done(report) && provider_run::bind_report_says(
                        report,
                        entered.binding,
                        false,
                    )
                },
            },
        },
        (BindPhase::WriteRegistry(_, report), BindReply::Written(written)) => match written {
            Err(e) => after matches BindPhase::Failed(x) && x@ == e@,
            Ok(()) => after == BindPhase::Done(report),
        },
        (BindPhase::Done(report), _) => after == BindPhase::Done(report),
        (BindPhase::Failed(e), _) => after == BindPhase::Failed(e),
        _ => after == BindPhase::Failed(AppError::UnexpectedReply),
    }
}

fn take_executable(run: &BindRun, found: Result<ProgramFacts, AppError>) -> (r: BindPhase)
    requires
        run.phase is LookAtExecutable,
    ensures
        follows(*run, BindReply::File(found), r),
{
    let facts = match found {
        Err(e) => {
            return BindPhase::Failed(e);
        },
        Ok(facts) => facts,
    };
    let artifact = match provider::pinned_artifact(
        &facts.file,
        facts.sha256.as_str(),
        "Provider executable",
    ) {
        Err(e) => {
            return BindPhase::Failed(e);
        },
        Ok(artifact) => artifact,
    };
    match provider::pin_external_executable(
        &artifact,
        facts.inside_repository,
        facts.extension.as_str(),
        "Provider executable",
    ) {
        Err(e) => BindPhase::Failed(e),
        Ok(()) => if run.with_script {
            BindPhase::LookAtScript(artifact)
        } else {
            BindPhase::Probe(Program { executable: artifact, script: None, manifest: None })
        },
    }
}

fn take_script(
    producer: &str,
    executable: ProviderArtifact,
    found: Result<ProgramFacts, AppError>,
) -> (r: BindPhase)
    ensures
        match found {
            Err(e) => r matches BindPhase::Failed(x) && x@ == e@,
            Ok(facts) => match script_refusal(producer@, facts) {
                Some(e) => r matches BindPhase::Failed(x) && x@ == e,
                None => r matches BindPhase::TakeStock(a, s) && a == executable && pin(s)
                    == pinned(facts),
            },
        },
{
    let facts = match found {
        Err(e) => {
            return BindPhase::Failed(e);
        },
        Ok(facts) => facts,
    };
    let artifact = match provider::pinned_artifact(
        &facts.file,
        facts.sha256.as_str(),
        "Provider launcher script",
    ) {
        Err(e) => {
            return BindPhase::Failed(e);
        },
        Ok(artifact) => artifact,
    };
    let script: Option<ProviderArtifact> = Some(artifact);
    match provider_run::check_launcher(producer, &script, facts.inside_repository) {
        Err(e) => BindPhase::Failed(e),
        Ok(_) => match script {
            Some(script) => BindPhase::TakeStock(executable, script),
            None => BindPhase::Failed(AppError::UnexpectedReply),
        },
    }
}

fn take_probe(producer: &str, program: Program, process: ProcessResult) -> (r: BindPhase)
    ensures
        ({
            let made = provider_run::probe_outcome(
                producer@,
                program.executable,
                program.script,
                process,
                provider_run::version_line(process),
            );
            match made.0 {
                None => r matches BindPhase::Failed(x) && made.1 is Err && x@ == made.1->Err_0,
                Some(note) => r matches BindPhase::RecordProbe(p, ran, n, version) && {
                    &&& p == program && ran == process && n@ == note
                    &&& match version {
                        Ok(v) => made.1 == Ok::<Seq<char>, ErrorView>(v@),
                        Err(e) => made.1 == Err::<Seq<char>, ErrorView>(e@),
                    }
                },
            }
        }),
{
    let verdict = provider_run::judge_probe(
        producer,
        &program.executable,
        &program.script,
        &process,
    );
    match verdict.note {
        Some(note) => BindPhase::RecordProbe(program, process, note, verdict.version),
        None => match verdict.version {
            Err(e) => BindPhase::Failed(e),
            Ok(_) => BindPhase::Failed(AppError::UnexpectedReply),
        },
    }
}

fn take_registry(
    profile_id: &str,
    replace: bool,
    binding: ProviderBinding,
    registry: ProviderRegistry,
) -> (r: BindPhase)
    ensures
        match provider::entered(
            registry.bindings@,
            binding,
            binding.project_key@,
            profile_id@,
            replace,
        ) {
            Err(e) => r matches BindPhase::Failed(x) && x@ == e,
            Ok(entered) => if entered.changed {
                r matches BindPhase::WriteRegistry(written, report) && {
                    &&& written.schema_version == registry.schema_version
                    &&& written.bindings@ == entered.bindings
                    &&& provider_run::bind_report_says(report, entered.binding, true)
                }
            } else {
                r matches BindPhase::Done(report) && provider_run::bind_report_says(
                    report,
                    entered.binding,
                    false,
                )
            },
        },
{
    match provider_run::finish_bind(registry, binding, profile_id, replace) {
        Err(e) => BindPhase::Failed(e),
        Ok((registry, report)) => if report.changed {
            BindPhase::WriteRegistry(registry, report)
        } else {
            BindPhase::Done(report)
        },
    }
}

/// How far a run is from its end.
pub open spec fn distance(phase: BindPhase) -> nat {
    match phase {
        BindPhase::LookAtExecutable => 7,
        BindPhase::LookAtScript(_) => 6,
        BindPhase::TakeStock(_, _) => 5,
        BindPhase::Probe(_) => 4,
        BindPhase::RecordProbe(_, _, _, _) => 3,
        BindPhase::ReadRegistry(_) => 2,
        BindPhase::WriteRegistry(_, _) => 1,
        BindPhase::Done(_) => 0,
        BindPhase::Failed(_) => 0,
    }
}

impl BindRun {
    /// Begins by looking at the program, for a profile that a program is known
    /// for, where local programs are trusted.
    pub fn new(
        project_key: &str,
        profiles: &Vec<SemanticProviderProfile>,
        profile_id: &str,
        with_script: bool,
        replace: bool,
        trust_local_executable: bool,
    ) -> (r: Result<Self, AppError>)
        ensures
            error::follows(
                r,
                provider_run::bind_refusal(trust_local_executable, profiles@, profile_id@),
            ),
            r matches Ok(run) ==> {
                &&& run.project_key@ == project_key@
                &&& run.profile_id@ == profile_id@
                &&& provider::first_profile(profiles@, profile_id@) == Some(run.profile)
                &&& run.with_script == with_script
                &&& run.replace == replace
                &&& run.phase is LookAtExecutable
            },
    {
        match provider_run::begin_bind(trust_local_executable, profiles, profile_id) {
            Err(e) => Err(e),
            Ok(profile) => Ok(
                BindRun {
                    project_key: project_key.to_owned(),
                    profile_id: profile_id.to_owned(),
                    profile: SemanticProviderProfile {
                        id: profile.id.clone(),
                        producer: profile.producer.clone(),
                    },
                    with_script,
                    replace,
                    phase: BindPhase::LookAtExecutable,
                },
            ),
        }
    }

    /// Goes on with what came of what was done.
    pub fn step(self, reply: BindReply) -> (r: Self)
        ensures
            r.project_key == self.project_key,
            r.profile_id == self.profile_id,
            r.profile == self.profile,
            r.with_script == self.with_script,
            r.replace == self.replace,
            follows(self, reply, r.phase),
    {
        let phase = match (self.phase, reply) {
            (BindPhase::LookAtExecutable, BindReply::File(found)) => {
                let run = BindRun {
                    project_key: self.project_key,
                    profile_id: self.profile_id,
                    profile: self.profile,
                    with_script: self.with_script,
                    replace: self.replace,
                    phase: BindPhase::LookAtExecutable,
                };
                let phase = take_executable(&run, found);
                return BindRun { phase, ..run };
            },
            (BindPhase::LookAtScript(executable), BindReply::File(found)) => take_script(
                self.profile.producer.as_str(),
                executable,
                found,
            ),
            (BindPhase::TakeStock(executable, script), BindReply::Stock(stock)) => match stock {
                Err(e) => BindPhase::Failed(e),
                Ok(manifest) => BindPhase::Probe(
                    Program { executable, script: Some(script), manifest: Some(manifest) },
                ),
            },
            (BindPhase::Probe(program), BindReply::Probed(probed)) => match probed {
                Err(e) => BindPhase::Failed(e),
                Ok(process) => take_probe(self.profile.producer.as_str(), program, process),
            },
            (BindPhase::RecordProbe(program, _, _, version), BindReply::Written(recorded)) => {
                match recorded {
                    Err(e) => BindPhase::Failed(e),
                    Ok(()) => match version {
                        Err(e) => BindPhase::Failed(e),
                        Ok(version) => BindPhase::ReadRegistry(
                            provider_run::new_binding(
                                self.project_key.as_str(),
                                &self.profile,
                                program.executable,
                                program.script,
                                program.manifest,
                                version.as_str(),
                            ),
                        ),
                    },
                }
            },
            (BindPhase::ReadRegistry(binding), BindReply::Registry(registry)) => match registry {
                Err(e) => BindPhase::Failed(e),
                Ok(registry) => take_registry(
                    self.profile_id.as_str(),
                    self.replace,
                    binding,
                    registry,
                ),
            },
            (BindPhase::WriteRegistry(_, report), BindReply::Written(written)) => match written {
                Err(e) => BindPhase::Failed(e),
                Ok(()) => BindPhase::Done(report),
            },
            (BindPhase::Done(report), _) => BindPhase::Done(report),
            (BindPhase::Failed(e), _) => BindPhase::Failed(e),
            _ => BindPhase::Failed(AppError::UnexpectedReply),
        };
        BindRun {
            project_key: self.project_key,
            profile_id: self.profile_id,
            profile: self.profile,
            with_script: self.with_script,
            replace: self.replace,
            phase,
        }
    }

    /// What is recorded now, where anything is.
    pub fn record(&self, timestamp: u128) -> (r: Option<ProviderAuditRecord>)
        ensures
            match self.phase {
                BindPhase::RecordProbe(_, process, note, _) => r matches Some(record) && {
                    &&& provider_run::record_heads(
                        record,
                        timestamp,
                        self.project_key@,
                        self.profile_id@,
                        "version_probe"@,
                        note@,
                    )
                    &&& provider_run::tells_process(record, process)
                    &&& provider_run::tells_no_registration(record)
                },
                _ => r is None,
            },
    {
        match &self.phase {
            BindPhase::RecordProbe(_, process, note, _) => Some(
                provider_run::audit_for_process(
                    timestamp,
                    self.project_key.as_str(),
                    self.profile_id.as_str(),
                    "version_probe",
                    provider_run::copy_note(note),
                    process,
                ),
            ),
            _ => None,
        }
    }
}

/// Whatever comes of what it does, a run ends.
pub proof fn binding_runs_end(before: BindRun, reply: BindReply, after: BindPhase)
    requires
        follows(before, reply, after),
    ensures
        distance(before.phase) > 0 ==> distance(after) < distance(before.phase),
        distance(before.phase) == 0 ==> after == before.phase,
{
}

/// A binding is entered into the registry only for a program that was asked for
/// its version, ended well, said what its profile expects, and whose answer was
/// recorded as good.
pub proof fn only_known_programs_are_entered(
    before: BindRun,
    probe: ProcessResult,
    program: Program,
    probed: BindPhase,
    recorded: BindPhase,
    binding: ProviderBinding,
)
    requires
        before.phase == BindPhase::Probe(program),
        follows(before, BindReply::Probed(Ok(probe)), probed),
        follows(
            BindRun { phase: probed, ..before },
            BindReply::Written(Ok(())),
            recorded,
        ),
        recorded == BindPhase::ReadRegistry(binding),
    ensures
        probe.status.well(),
        probed is RecordProbe,
        probed->RecordProbe_2@ == provider_run::succeeded(),
        binding.executable == program.executable,
        provider_run::identity_refusal(
            before.profile.producer@,
            program.executable,
            program.script,
            binding.resolved_version@,
        ) is None,
{
}

/// A program inside of the repository is never bound, nor is a command script.
pub proof fn repository_programs_are_not_bound(
    before: BindRun,
    facts: ProgramFacts,
    after: BindPhase,
)
    requires
        before.phase is LookAtExecutable,
        follows(before, BindReply::File(Ok(facts)), after),
        facts.inside_repository || provider::script_refusal(facts.extension@) is Some
            || !facts.file.absolute,
    ensures
        after is Failed,
{
}

/// Whatever goes wrong outside ends the run, and nothing is bound.
pub proof fn outside_errors_end_binding(before: BindRun, reply: BindReply, after: BindPhase)
    requires
        follows(before, reply, after),
        !(before.phase is Done),
        ({
            ||| reply is File && reply->File_0 is Err
            ||| reply is Stock && reply->Stock_0 is Err
            ||| reply is Probed && reply->Probed_0 is Err
            ||| reply is Registry && reply->Registry_0 is Err
            ||| reply is Written && reply->Written_0 is Err
        }),
    ensures
        after is Failed,
{
}

/// A program is pinned exactly where it is a regular file under an absolute path
/// outside the repository and no script of the shell, and a launcher script
/// exactly where it is such a file and the producer takes one.
pub proof fn pinned_programs_lie_outside(facts: ProgramFacts, producer: Seq<char>)
    ensures
        program_refusal(facts) is None <==> {
            &&& facts.file.absolute && facts.file.canonical is Ok && facts.file.regular
            &&& !facts.inside_repository
            &&& crate::text::lowered(facts.extension@) != crate::text::lowered("cmd"@)
            &&& crate::text::lowered(facts.extension@) != crate::text::lowered("bat"@)
        },
        script_refusal(producer, facts) is None <==> {
            &&& facts.file.absolute && facts.file.canonical is Ok && facts.file.regular
            &&& !facts.inside_repository
            &&& crate::text::lowered(producer) == crate::text::lowered("scip-python"@)
        },
{
}

} // verus!
