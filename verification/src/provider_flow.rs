//! Asking a semantic provider for an index, and binding one: what is done next,
//! by what came of what was done.  An index counts only where the program is
//! the one that was bound, it ended well and the source stayed as it was.
use crate::error::{self, AppError, ErrorView};
use crate::execution::{self, ProcessResult};
use crate::model;
use crate::provider::{
    self, BindingFacts, ProviderBinding, ProviderRegistry, SemanticProviderProfile,
};
use crate::provider_run::{self, Note, NoteView, OutputFacts, ProviderAuditRecord, ProviderRun};
use crate::text;
use vstd::prelude::*;

verus! {

broadcast use {vstd::string::group_string_axioms, vstd::seq::group_seq_axioms};

// ---------------------------------------------------------------------------
// Asking for an index
// ---------------------------------------------------------------------------

/// Where an index is written, and the fingerprint of the source before.
#[derive(Debug, Clone, PartialEq, Eq)]
pub struct Workspace {
    pub temp_dir: String,
    pub output_path: String,
    pub source_before: String,
}

/// An index that was written.
#[derive(Debug, PartialEq, Eq)]
pub struct WrittenIndex {
    pub facts: OutputFacts,
    pub sha256: String,
}

/// What is done next.
#[derive(Debug, PartialEq, Eq)]
pub enum IndexPhase {
    /// Read the registry of the machine.
    ReadRegistry,
    /// Look at the files of the binding.
    LookAtFiles(ProviderBinding),
    /// Take the lock, make the directory and take the fingerprint of the source.
    Prepare(ProviderBinding),
    /// Run the program.
    Run(ProviderBinding, Workspace),
    /// Take the fingerprint of the source again.
    CheckSource(ProviderBinding, Workspace, ProcessResult),
    /// Look at what was written.
    LookAtOutput(ProviderBinding, Workspace, ProcessResult),
    /// Record that the index is good.
    RecordSuccess(ProviderBinding, Workspace, ProcessResult, WrittenIndex),
    /// Record that there is none, and why.
    RecordFailure(ProviderBinding, Workspace, Option<ProcessResult>, Note, AppError),
    /// Remove what was written.
    Discard(Workspace, AppError),
    /// There is an index.
    Done(ProviderBinding, Workspace, ProcessResult, WrittenIndex),
    /// There is none.
    Failed(AppError),
}

/// What came of it.
#[derive(Debug, PartialEq, Eq)]
pub enum IndexReply {
    Registry(Result<ProviderRegistry, AppError>),
    Files(BindingFacts),
    Prepared(Result<Workspace, AppError>),
    Ended(Result<ProcessResult, AppError>),
    Fingerprint(Result<String, AppError>),
    Output(Result<WrittenIndex, AppError>),
    Recorded(Result<(), AppError>),
    Removed,
}

/// What is done next, as it is told.
pub enum IndexView {
    ReadRegistry,
    LookAtFiles(ProviderBinding),
    Prepare(ProviderBinding),
    Run(ProviderBinding, Workspace),
    CheckSource(ProviderBinding, Workspace, ProcessResult),
    LookAtOutput(ProviderBinding, Workspace, ProcessResult),
    RecordSuccess(ProviderBinding, Workspace, ProcessResult, WrittenIndex),
    RecordFailure(ProviderBinding, Workspace, Option<ProcessResult>, NoteView, ErrorView),
    Discard(Workspace, ErrorView),
    Done(ProviderBinding, Workspace, ProcessResult, WrittenIndex),
    Failed(ErrorView),
}

impl View for IndexPhase {
    type V = IndexView;

    open spec fn view(&self) -> IndexView {
        match *self {
            IndexPhase::ReadRegistry => IndexView::ReadRegistry,
            IndexPhase::LookAtFiles(b) => IndexView::LookAtFiles(b),
            IndexPhase::Prepare(b) => IndexView::Prepare(b),
            IndexPhase::Run(b, w) => IndexView::Run(b, w),
            IndexPhase::CheckSource(b, w, p) => IndexView::CheckSource(b, w, p),
            IndexPhase::LookAtOutput(b, w, p) => IndexView::LookAtOutput(b, w, p),
            IndexPhase::RecordSuccess(b, w, p, o) => IndexView::RecordSuccess(b, w, p, o),
            IndexPhase::RecordFailure(b, w, p, n, e) => IndexView::RecordFailure(b, w, p, n@, e@),
            IndexPhase::Discard(w, e) => IndexView::Discard(w, e@),
            IndexPhase::Done(b, w, p, o) => IndexView::Done(b, w, p, o),
            IndexPhase::Failed(e) => IndexView::Failed(e@),
        }
    }
}

/// Asking a semantic provider for an index.
#[derive(Debug, PartialEq, Eq)]
pub struct IndexRun {
    pub project_key: String,
    pub profile_id: String,
    pub profile: SemanticProviderProfile,
    pub phase: IndexPhase,
}

/// What is done with the registry at hand.
pub open spec fn on_registry(
    project_key: Seq<char>,
    profile: SemanticProviderProfile,
    registry: Result<ProviderRegistry, AppError>,
) -> IndexView {
    match registry {
        Err(e) => IndexView::Failed(e@),
        Ok(registry) => match provider::first_binding(
            registry.bindings@,
            project_key,
            profile.id@,
        ) {
            Some(binding) => IndexView::LookAtFiles(binding),
            None => IndexView::Failed(
                provider_run::execute_refusal(registry.bindings@, project_key, profile.id@)->0,
            ),
        },
    }
}

/// What is done once the program has ended.
pub open spec fn on_ended(
    profile: SemanticProviderProfile,
    binding: ProviderBinding,
    workspace: Workspace,
    ended: Result<ProcessResult, AppError>,
) -> IndexView {
    match ended {
        Err(e) => IndexView::RecordFailure(
            binding,
            workspace,
            None,
            provider_run::failed("spawn_or_timeout"@),
            e@,
        ),
        Ok(process) => match provider_run::process_refusal(profile.id@, process) {
            Some(e) => IndexView::RecordFailure(
                binding,
                workspace,
                Some(process),
                provider_run::failed("non_zero_exit"@),
                e,
            ),
            None => IndexView::CheckSource(binding, workspace, process),
        },
    }
}

/// What is done once the fingerprint of the source was taken again.
pub open spec fn on_source(
    binding: ProviderBinding,
    workspace: Workspace,
    process: ProcessResult,
    after: Result<String, AppError>,
) -> IndexView {
    match after {
        Err(e) => IndexView::Failed(e@),
        Ok(after) => if after@ == workspace.source_before@ {
            IndexView::LookAtOutput(binding, workspace, process)
        } else {
            IndexView::RecordFailure(
                binding,
                workspace,
                Some(process),
                provider_run::failed("source_changed"@),
                ErrorView::Provider("源码在 Provider 索引期间发生变化；输出已丢弃"@),
            )
        },
    }
}

/// What is done once it was looked at what was written.
pub open spec fn on_output(
    binding: ProviderBinding,
    workspace: Workspace,
    process: ProcessResult,
    output: Result<WrittenIndex, AppError>,
) -> IndexView {
    match output {
        Err(e) => IndexView::Failed(e@),
        Ok(output) => match provider_run::output_refusal(output.facts) {
            Some(e) => IndexView::Failed(e),
            None => IndexView::RecordSuccess(binding, workspace, process, output),
        },
    }
}

/// What is done after something came of what was done.
pub open spec fn next_index(
    project_key: Seq<char>,
    profile: SemanticProviderProfile,
    phase: IndexView,
    reply: IndexReply,
) -> IndexView {
    match (phase, reply) {
        (IndexView::ReadRegistry, IndexReply::Registry(registry)) => on_registry(
            project_key,
            profile,
            registry,
        ),
        (IndexView::LookAtFiles(b), IndexReply::Files(facts)) => match provider::use_refusal(
            b,
            profile,
            facts,
        ) {
            Some(e) => IndexView::Failed(e),
            None => IndexView::Prepare(b),
        },
        (IndexView::Prepare(b), IndexReply::Prepared(prepared)) => match prepared {
            Err(e) => IndexView::Failed(e@),
            Ok(w) => IndexView::Run(b, w),
        },
        (IndexView::Run(b, w), IndexReply::Ended(ended)) => on_ended(profile, b, w, ended),
        (IndexView::CheckSource(b, w, p), IndexReply::Fingerprint(after)) => on_source(
            b,
            w,
            p,
            after,
        ),
        (IndexView::LookAtOutput(b, w, p), IndexReply::Output(output)) => on_output(
            b,
            w,
            p,
            output,
        ),
        (IndexView::RecordSuccess(b, w, p, o), IndexReply::Recorded(recorded)) => match recorded {
            Err(e) => IndexView::Failed(e@),
            Ok(()) => IndexView::Done(b, w, p, o),
        },
        (IndexView::RecordFailure(_, w, _, _, e), IndexReply::Recorded(recorded)) =>
            match recorded {
            Err(other) => IndexView::Failed(other@),
            Ok(()) => IndexView::Discard(w, e),
        },
        (IndexView::Discard(_, e), IndexReply::Removed) => IndexView::Failed(e),
        (IndexView::Done(b, w, p, o), _) => IndexView::Done(b, w, p, o),
        (IndexView::Failed(e), _) => IndexView::Failed(e),
        _ => IndexView::Failed(ErrorView::UnexpectedReply),
    }
}

fn take_registry(
    project_key: &str,
    profile: &SemanticProviderProfile,
    registry: Result<ProviderRegistry, AppError>,
) -> (r: IndexPhase)
    ensures
        r@ == on_registry(project_key@, *profile, registry),
{
    match registry {
        Err(e) => IndexPhase::Failed(e),
        Ok(registry) => match provider_run::binding_to_run(
            &registry.bindings,
            project_key,
            profile,
        ) {
            Err(e) => IndexPhase::Failed(e),
            Ok(binding) => IndexPhase::LookAtFiles(provider::copy_binding(binding)),
        },
    }
}

fn take_end(
    profile: &SemanticProviderProfile,
    binding: ProviderBinding,
    workspace: Workspace,
    ended: Result<ProcessResult, AppError>,
) -> (r: IndexPhase)
    ensures
        r@ == on_ended(*profile, binding, workspace, ended),
{
    match ended {
        Err(e) => IndexPhase::RecordFailure(
            binding,
            workspace,
            None,
            provider_run::failure("spawn_or_timeout"),
            e,
        ),
        Ok(process) => match provider_run::judge_process(profile.id.as_str(), &process) {
            Err((note, e)) => IndexPhase::RecordFailure(
                binding,
                workspace,
                Some(process),
                note,
                e,
            ),
            Ok(()) => IndexPhase::CheckSource(binding, workspace, process),
        },
    }
}

fn take_source(
    binding: ProviderBinding,
    workspace: Workspace,
    process: ProcessResult,
    after: Result<String, AppError>,
) -> (r: IndexPhase)
    ensures
        r@ == on_source(binding, workspace, process, after),
{
    match after {
        Err(e) => IndexPhase::Failed(e),
        Ok(after) => match provider_run::judge_source(
            workspace.source_before.as_str(),
            after.as_str(),
        ) {
            Ok(()) => IndexPhase::LookAtOutput(binding, workspace, process),
            Err((note, e)) => IndexPhase::RecordFailure(
                binding,
                workspace,
                Some(process),
                note,
                e,
            ),
        },
    }
}

fn take_output(
    binding: ProviderBinding,
    workspace: Workspace,
    process: ProcessResult,
    output: Result<WrittenIndex, AppError>,
) -> (r: IndexPhase)
    ensures
        r@ == on_output(binding, workspace, process, output),
{
    match output {
        Err(e) => IndexPhase::Failed(e),
        Ok(output) => match provider_run::validate_output(&output.facts) {
            Err(e) => IndexPhase::Failed(e),
            Ok(()) => IndexPhase::RecordSuccess(binding, workspace, process, output),
        },
    }
}

/// How far a run is from its end.
pub open spec fn index_distance(phase: IndexView) -> nat {
    match phase {
        IndexView::ReadRegistry => 8,
        IndexView::LookAtFiles(_) => 7,
        IndexView::Prepare(_) => 6,
        IndexView::Run(_, _) => 5,
        IndexView::CheckSource(_, _, _) => 4,
        IndexView::LookAtOutput(_, _, _) => 3,
        IndexView::RecordSuccess(_, _, _, _) => 2,
        IndexView::RecordFailure(_, _, _, _, _) => 2,
        IndexView::Discard(_, _) => 1,
        IndexView::Done(_, _, _, _) => 0,
        IndexView::Failed(_) => 0,
    }
}

/// What an index that counts rests on.
pub open spec fn index_counts(
    profile: SemanticProviderProfile,
    process: ProcessResult,
    output: WrittenIndex,
) -> bool {
    &&& provider_run::process_refusal(profile.id@, process) is None
    &&& provider_run::output_refusal(output.facts) is None
}

/// What a run may rest on in each of its phases.
pub open spec fn index_sound(profile: SemanticProviderProfile, phase: IndexView) -> bool {
    match phase {
        IndexView::CheckSource(_, _, p) => provider_run::process_refusal(profile.id@, p) is None,
        IndexView::LookAtOutput(_, _, p) => provider_run::process_refusal(profile.id@, p) is None,
        IndexView::RecordSuccess(_, _, p, o) => index_counts(profile, p, o),
        IndexView::Done(_, _, p, o) => index_counts(profile, p, o),
        _ => true,
    }
}

impl IndexRun {
    /// A run is for a known producer and knows what it rests on.
    pub open spec fn valid(self) -> bool {
        &&& provider::producer_refusal(self.profile.producer@) is None
        &&& index_sound(self.profile, self.phase@)
    }

    /// Begins by reading the registry, for a profile that a program is known
    /// for.
    pub fn new(
        project_key: &str,
        profiles: &Vec<SemanticProviderProfile>,
        profile_id: &str,
    ) -> (r: Result<Self, AppError>)
        ensures
            error::follows(r, provider_run::run_refusal(profiles@, profile_id@)),
            r matches Ok(run) ==> {
                &&& run.project_key@ == project_key@
                &&& run.profile_id@ == profile_id@
                &&& provider::first_profile(profiles@, profile_id@) == Some(run.profile)
                &&& run.phase@ == IndexView::ReadRegistry
                &&& run.valid()
            },
    {
        match provider_run::runnable_profile(profiles, profile_id) {
            Err(e) => Err(e),
            Ok(profile) => Ok(
                IndexRun {
                    project_key: project_key.to_owned(),
                    profile_id: profile_id.to_owned(),
                    profile: SemanticProviderProfile {
                        id: profile.id.clone(),
                        producer: profile.producer.clone(),
                    },
                    phase: IndexPhase::ReadRegistry,
                },
            ),
        }
    }

    /// Goes on with what came of what was done.
    pub fn step(self, reply: IndexReply) -> (r: Self)
        ensures
            r.project_key == self.project_key,
            r.profile_id == self.profile_id,
            r.profile == self.profile,
            r.phase@ == next_index(self.project_key@, self.profile, self.phase@, reply),
            self.valid() ==> r.valid(),
    {
        let IndexRun { project_key, profile_id, profile, phase } = self;
        let phase = match (phase, reply) {
            (IndexPhase::ReadRegistry, IndexReply::Registry(registry)) => take_registry(
                project_key.as_str(),
                &profile,
                registry,
            ),
            (IndexPhase::LookAtFiles(b), IndexReply::Files(facts)) => {
                match provider::check_binding(&b, &profile, &facts) {
                    Err(e) => IndexPhase::Failed(e),
                    Ok(()) => IndexPhase::Prepare(b),
                }
            },
            (IndexPhase::Prepare(b), IndexReply::Prepared(prepared)) => match prepared {
                Err(e) => IndexPhase::Failed(e),
                Ok(w) => IndexPhase::Run(b, w),
            },
            (IndexPhase::Run(b, w), IndexReply::Ended(ended)) => take_end(&profile, b, w, ended),
            (IndexPhase::CheckSource(b, w, p), IndexReply::Fingerprint(after)) => take_source(
                b,
                w,
                p,
                after,
            ),
            (IndexPhase::LookAtOutput(b, w, p), IndexReply::Output(output)) => take_output(
                b,
                w,
                p,
                output,
            ),
            (IndexPhase::RecordSuccess(b, w, p, o), IndexReply::Recorded(recorded)) => {
                match recorded {
                    Err(e) => IndexPhase::Failed(e),
                    Ok(()) => IndexPhase::Done(b, w, p, o),
                }
            },
            (IndexPhase::RecordFailure(_, w, _, _, e), IndexReply::Recorded(recorded)) => {
                match recorded {
                    Err(other) => IndexPhase::Failed(other),
                    Ok(()) => IndexPhase::Discard(w, e),
                }
            },
            (IndexPhase::Discard(_, e), IndexReply::Removed) => IndexPhase::Failed(e),
            (IndexPhase::Done(b, w, p, o), _) => IndexPhase::Done(b, w, p, o),
            (IndexPhase::Failed(e), _) => IndexPhase::Failed(e),
            _ => IndexPhase::Failed(AppError::UnexpectedReply),
        };
        IndexRun { project_key, profile_id, profile, phase }
    }

    /// What the program is told, where it is run now.
    pub fn arguments(&self, project_root: &str) -> (r: Option<Vec<String>>)
        requires
            self.valid(),
        ensures
            match self.phase@ {
                IndexView::Run(_, w) => r matches Some(argv) && Some(text::views(argv@))
                    == provider::arguments_of(
                    self.profile.producer@,
                    execution::cli_path(project_root@),
                    self.project_key@,
                    execution::cli_path(w.output_path@),
                ),
                _ => r is None,
            },
    {
        match &self.phase {
            IndexPhase::Run(_, w) => match provider::provider_arguments(
                self.profile.producer.as_str(),
                project_root,
                self.project_key.as_str(),
                w.output_path.as_str(),
            ) {
                Ok(argv) => Some(argv),
                Err(_) => None,
            },
            _ => None,
        }
    }

    /// What is recorded now, where anything is.
    pub fn record(&self, timestamp: u128) -> (r: Option<ProviderAuditRecord>)
        ensures
            match self.phase@ {
                IndexView::RecordSuccess(_, _, p, _) => {
                    &&& r is Some
                    &&& provider_run::record_heads(
                        r->0,
                        timestamp,
                        self.project_key@,
                        self.profile_id@,
                        "index_process"@,
                        provider_run::succeeded(),
                    )
                    &&& provider_run::tells_process(r->0, p)
                    &&& provider_run::tells_no_registration(r->0)
                },
                IndexView::RecordFailure(b, w, p, note, _) => {
                    &&& r is Some
                    &&& match p {
                        Some(p) => {
                            &&& provider_run::record_heads(
                                r->0,
                                timestamp,
                                self.project_key@,
                                self.profile_id@,
                                "index_process"@,
                                note,
                            )
                            &&& provider_run::tells_process(r->0, p)
                            &&& provider_run::tells_no_registration(r->0)
                        },
                        None => {
                            &&& provider_run::record_heads(
                                r->0,
                                timestamp,
                                self.project_key@,
                                self.profile_id@,
                                "index_process"@,
                                provider_run::failed("spawn_or_timeout"@),
                            )
                            &&& provider_run::tells_no_process(r->0)
                            &&& r->0.registration_id == Some(b.registration_id)
                            &&& r->0.registration_revision == Some(b.revision)
                            &&& r->0.executable_sha256 == Some(b.executable.sha256)
                            &&& r->0.artifact_sha256 is None
                            &&& model::opt_view(r->0.source_fingerprint_before) == Some(
                                w.source_before@,
                            )
                            &&& r->0.source_fingerprint_after is None
                        },
                    }
                },
                _ => r is None,
            },
    {
        match &self.phase {
            IndexPhase::RecordSuccess(_, _, p, _) => Some(
                provider_run::audit_for_process(
                    timestamp,
                    self.project_key.as_str(),
                    self.profile_id.as_str(),
                    "index_process",
                    provider_run::success(),
                    p,
                ),
            ),
            IndexPhase::RecordFailure(b, w, p, note, _) => match p {
                Some(p) => Some(
                    provider_run::audit_for_process(
                        timestamp,
                        self.project_key.as_str(),
                        self.profile_id.as_str(),
                        "index_process",
                        provider_run::copy_note(note),
                        p,
                    ),
                ),
                None => Some(
                    provider_run::audit_for_missing_process(
                        timestamp,
                        self.project_key.as_str(),
                        self.profile_id.as_str(),
                        b,
                        w.source_before.as_str(),
                    ),
                ),
            },
            _ => None,
        }
    }

    /// What came of a run that has ended.
    pub fn outcome(self) -> (r: Option<Result<ProviderRun, AppError>>)
        requires
            self.valid(),
        ensures
            match self.phase@ {
                IndexView::Done(b, w, p, o) => r matches Some(Ok(run)) && {
                    &&& run.temp_dir@ == w.temp_dir@
                    &&& run.output_path@ == w.output_path@
                    &&& provider_run::run_report_says(
                        run.report,
                        self.project_key@,
                        self.profile,
                        b,
                        p,
                        o.sha256@,
                        o.facts.len,
                        w.source_before@,
                    )
                },
                IndexView::Failed(e) => r matches Some(Err(x)) && x@ == e,
                _ => r is None,
            },
    {
        match self.phase {
            IndexPhase::Done(b, w, p, o) => match provider_run::finish_execution(
                self.project_key.as_str(),
                &self.profile,
                b,
                &p,
                &o.facts,
                o.sha256.as_str(),
                w.source_before.as_str(),
                w.source_before.as_str(),
                w.temp_dir.as_str(),
                w.output_path.as_str(),
            ) {
                Ok((run, _)) => Some(Ok(run)),
                Err(e) => Some(Err(e)),
            },
            IndexPhase::Failed(e) => Some(Err(e)),
            _ => None,
        }
    }
}

/// Whatever comes of what it does, a run ends, and ends for good.
pub proof fn index_runs_end(
    project_key: Seq<char>,
    profile: SemanticProviderProfile,
    phase: IndexView,
    reply: IndexReply,
)
    ensures
        index_distance(phase) > 0 ==> index_distance(next_index(project_key, profile, phase, reply))
            < index_distance(phase),
        index_distance(phase) == 0 ==> next_index(project_key, profile, phase, reply) == phase,
{
}

/// The phase that a run is in, by what came of each step.
pub open spec fn index_after(
    project_key: Seq<char>,
    profile: SemanticProviderProfile,
    replies: Seq<IndexReply>,
) -> IndexView
    decreases replies.len(),
{
    if replies.len() == 0 {
        IndexView::ReadRegistry
    } else {
        next_index(
            project_key,
            profile,
            index_after(project_key, profile, replies.drop_last()),
            replies.last(),
        )
    }
}

/// The files of a binding were found as they were bound.
pub open spec fn files_found(
    profile: SemanticProviderProfile,
    reply: IndexReply,
    binding: ProviderBinding,
) -> bool {
    reply is Files && provider::use_refusal(binding, profile, reply->Files_0) is None
}

/// Somewhere among what came of a run, the files were found as they were bound.
pub open spec fn has_files(
    profile: SemanticProviderProfile,
    replies: Seq<IndexReply>,
    binding: ProviderBinding,
) -> bool {
    exists|i: int| 0 <= i < replies.len() && files_found(profile, #[trigger] replies[i], binding)
}

/// The source was found as it was before.
pub open spec fn source_found(reply: IndexReply, workspace: Workspace) -> bool {
    reply is Fingerprint && reply->Fingerprint_0 is Ok && reply->Fingerprint_0->Ok_0@
        == workspace.source_before@
}

/// Somewhere among what came of a run, the source was found as it was before.
pub open spec fn has_source(replies: Seq<IndexReply>, workspace: Workspace) -> bool {
    exists|i: int| 0 <= i < replies.len() && source_found(#[trigger] replies[i], workspace)
}

spec fn index_known(
    project_key: Seq<char>,
    profile: SemanticProviderProfile,
    replies: Seq<IndexReply>,
) -> bool {
    let phase = index_after(project_key, profile, replies);
    &&& index_sound(profile, phase)
    &&& match phase {
        IndexView::Prepare(b) => has_files(profile, replies, b),
        IndexView::Run(b, _) => has_files(profile, replies, b),
        IndexView::CheckSource(b, _, _) => has_files(profile, replies, b),
        IndexView::LookAtOutput(b, w, _) => has_files(profile, replies, b) && has_source(
            replies,
            w,
        ),
        IndexView::RecordSuccess(b, w, _, _) => has_files(profile, replies, b) && has_source(
            replies,
            w,
        ),
        IndexView::Done(b, w, _, _) => has_files(profile, replies, b) && has_source(replies, w),
        _ => true,
    }
}

proof fn index_knowledge_is_kept(
    project_key: Seq<char>,
    profile: SemanticProviderProfile,
    replies: Seq<IndexReply>,
)
    ensures
        index_known(project_key, profile, replies),
    decreases replies.len(),
{
    if replies.len() > 0 {
        let before = replies.drop_last();
        index_knowledge_is_kept(project_key, profile, before);
        assert(replies[replies.len() - 1] == replies.last());
        assert forall|b: ProviderBinding| has_files(profile, before, b) implies has_files(
            profile,
            replies,
            b,
        ) by {
            let i = choose|i: int|
                0 <= i < before.len() && files_found(profile, #[trigger] before[i], b);
            assert(files_found(profile, replies[i], b));
        }
        assert forall|w: Workspace| has_source(before, w) implies has_source(replies, w) by {
            let i = choose|i: int| 0 <= i < before.len() && source_found(#[trigger] before[i], w);
            assert(source_found(replies[i], w));
        }
    }
}

/// An index counts only where the files of the binding were found as they were
/// bound, the program ended well, the source stayed as it was, and what was
/// written is a regular file within its bounds.
pub proof fn only_sound_indexes_count(
    project_key: Seq<char>,
    profile: SemanticProviderProfile,
    replies: Seq<IndexReply>,
    binding: ProviderBinding,
    workspace: Workspace,
    process: ProcessResult,
    output: WrittenIndex,
)
    requires
        index_after(project_key, profile, replies) == IndexView::Done(
            binding,
            workspace,
            process,
            output,
        ),
    ensures
        has_files(profile, replies, binding),
        has_source(replies, workspace),
        index_counts(profile, process, output),
{
    index_knowledge_is_kept(project_key, profile, replies);
}

/// A program that was started and did not end well, or under which the source
/// changed, is recorded before its failure is told, and what it wrote is
/// removed.
pub proof fn failed_indexes_are_recorded(
    project_key: Seq<char>,
    profile: SemanticProviderProfile,
    binding: ProviderBinding,
    workspace: Workspace,
    process: ProcessResult,
    note: NoteView,
    error: ErrorView,
    ended: Result<ProcessResult, AppError>,
    after: Result<String, AppError>,
)
    ensures
        !(next_index(
            project_key,
            profile,
            IndexView::Run(binding, workspace),
            IndexReply::Ended(ended),
        ) is Failed),
        after is Ok ==> !(next_index(
            project_key,
            profile,
            IndexView::CheckSource(binding, workspace, process),
            IndexReply::Fingerprint(after),
        ) is Failed),
        next_index(
            project_key,
            profile,
            IndexView::RecordFailure(binding, workspace, Some(process), note, error),
            IndexReply::Recorded(Ok(())),
        ) == IndexView::Discard(workspace, error),
        next_index(
            project_key,
            profile,
            IndexView::Discard(workspace, error),
            IndexReply::Removed,
        ) == IndexView::Failed(error),
{
}

} // verus!
