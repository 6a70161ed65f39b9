//! Asking an evidence provider: what is done next, by what came of what was
//! done.  The provider sees the inputs that its contract names and nothing
//! else, and its answer counts only where neither it nor the source changed.
use crate::error::{AppError, ErrorView};
use crate::evidence_inputs::{InputManifestEntry, InputPathState};
use crate::evidence_provider::{
    self, BindingFacts, ContractIdentity, EvidenceProviderBinding, EvidenceProviderRegistry,
    ProviderResponse, RunSummary, StageFacts, TakenEvidence,
};
use crate::execution::ProcessResult;
use crate::json;
use crate::model::{EvidenceAuthority, EvidencePlane, FindingAuthority};
use vstd::prelude::*;

verus! {

broadcast use {vstd::string::group_string_axioms, vstd::seq::group_seq_axioms};

/// The inputs of a provider, the fingerprint of their manifest, and the source
/// that they were taken from.
#[derive(Debug, Clone, PartialEq, Eq)]
pub struct Inputs {
    pub entries: Vec<InputManifestEntry>,
    pub manifest_hash: String,
    pub source_fingerprint: String,
}

/// The directory that a provider sees: when it was made, where the inputs are
/// staged in it, and where the provider may write.
#[derive(Debug, Clone, PartialEq, Eq)]
pub struct Scratch {
    pub nonce: String,
    pub staged_root: String,
    pub output_root: String,
}

/// What a provider is asked for.  The name of the request is the fingerprint of
/// `id_seed`, and its configuration goes with the fingerprint of
/// `opaque_config`.
#[derive(Debug, Clone, PartialEq, Eq)]
pub struct RunRequest {
    pub id_seed: String,
    pub provider_id: String,
    pub profile_id: String,
    pub project_key: String,
    pub plane: EvidencePlane,
    pub source_fingerprint: String,
    pub manifest_hash: String,
    pub staged_project_root: String,
    pub output_root: String,
    pub opaque_config: Vec<u8>,
    pub timeout_ms: u64,
}

/// What the name of a request is made from: project, profile, inputs and time,
/// with zero characters between them.
pub open spec fn request_name_seed(
    project_key: Seq<char>,
    profile_id: Seq<char>,
    manifest_hash: Seq<char>,
    nonce: Seq<char>,
) -> Seq<char> {
    project_key + "\0"@ + profile_id + "\0"@ + manifest_hash + "\0"@ + nonce
}

/// A time limit in milliseconds, at most the largest number there is.
pub open spec fn milliseconds(seconds: u64) -> int {
    if seconds * 1000 > u64::MAX {
        u64::MAX as int
    } else {
        seconds * 1000
    }
}

/// What a provider is asked for says what it is asked about.
pub open spec fn asks(
    request: RunRequest,
    binding: EvidenceProviderBinding,
    flow: (Seq<char>, Seq<char>, EvidencePlane, u64),
    inputs: Inputs,
    config: Seq<u8>,
    scratch: Scratch,
) -> bool {
    &&& request.id_seed@ == request_name_seed(
        flow.0,
        flow.1,
        inputs.manifest_hash@,
        scratch.nonce@,
    )
    &&& request.provider_id@ == binding.descriptor.provider_id@
    &&& request.project_key@ == flow.0
    &&& request.profile_id@ == flow.1
    &&& request.plane == flow.2
    &&& request.source_fingerprint@ == inputs.source_fingerprint@
    &&& request.manifest_hash@ == inputs.manifest_hash@
    &&& request.staged_project_root@ == scratch.staged_root@
    &&& request.output_root@ == scratch.output_root@
    &&& request.opaque_config@ == config
    &&& request.timeout_ms == milliseconds(flow.3)
}

/// What a provider is asked for.
pub fn run_request(
    binding: &EvidenceProviderBinding,
    project_key: &str,
    profile_id: &str,
    plane: EvidencePlane,
    timeout_seconds: u64,
    inputs: &Inputs,
    config: Vec<u8>,
    scratch: Scratch,
) -> (r: RunRequest)
    ensures
        asks(
            r,
            *binding,
            (project_key@, profile_id@, plane, timeout_seconds),
            *inputs,
            config@,
            scratch,
        ),
{
    RunRequest {
        id_seed: evidence_provider::request_seed(
            project_key,
            profile_id,
            inputs.manifest_hash.as_str(),
            scratch.nonce.as_str(),
        ),
        provider_id: binding.descriptor.provider_id.clone(),
        profile_id: profile_id.to_owned(),
        project_key: project_key.to_owned(),
        plane,
        source_fingerprint: inputs.source_fingerprint.clone(),
        manifest_hash: inputs.manifest_hash.clone(),
        staged_project_root: scratch.staged_root,
        output_root: scratch.output_root,
        opaque_config: config,
        timeout_ms: evidence_provider::timeout_ms(timeout_seconds),
    }
}

/// What is done next.
#[derive(Debug, PartialEq, Eq)]
pub enum EvidencePhase {
    /// Read the registry of the machine.
    ReadRegistry,
    /// Look at what the binding stands for.
    LookAtBinding(EvidenceProviderBinding),
    /// Read the contract on inputs.
    ReadContract(EvidenceProviderBinding),
    /// Find the inputs.
    FindInputs(EvidenceProviderBinding),
    /// Read the configuration, where there is one.
    ReadConfig(EvidenceProviderBinding, Inputs),
    /// Make the directory that the provider sees.
    Prepare(EvidenceProviderBinding, Inputs, Vec<u8>),
    /// Look at an input.
    LookAtInput(EvidenceProviderBinding, Inputs, RunRequest, usize),
    /// Copy an input and take the fingerprint of the copy.
    CopyInput(EvidenceProviderBinding, Inputs, RunRequest, usize),
    /// Run the provider and hand it the request.
    Run(EvidenceProviderBinding, Inputs, RunRequest),
    /// Read what it answered to the request.
    ReadResponse(EvidenceProviderBinding, Inputs, RunRequest, ProcessResult),
    /// Take the fingerprint of its program again.
    LookAtProgram(EvidenceProviderBinding, Inputs, ProcessResult, ProviderResponse),
    /// Take the fingerprint of the source again.
    CheckSource(EvidenceProviderBinding, Inputs, ProcessResult, ProviderResponse),
    /// There is evidence.
    Done(EvidenceProviderBinding, Inputs, ProcessResult, TakenEvidence),
    /// There is none.
    Failed(AppError),
}

/// What came of it.
#[derive(Debug, PartialEq, Eq)]
pub enum EvidenceReply {
    Registry(Result<EvidenceProviderRegistry, AppError>),
    Binding(BindingFacts),
    Contract(Result<ContractIdentity, AppError>),
    Inputs(Result<Inputs, AppError>),
    /// The bytes of the configuration, where there is one.
    Config(Result<Option<Vec<u8>>, AppError>),
    Prepared(Result<Scratch, AppError>),
    Input(Result<StageFacts, AppError>),
    Copied(Result<String, AppError>),
    Ended(Result<ProcessResult, AppError>),
    Response(Result<ProviderResponse, AppError>),
    Program(Result<String, String>),
    Fingerprint(Result<String, AppError>),
}

/// Asking an evidence provider.
#[derive(Debug, PartialEq, Eq)]
pub struct EvidenceFlow {
    pub project_key: String,
    pub profile_id: String,
    pub plane: EvidencePlane,
    pub timeout_seconds: u64,
    pub phase: EvidencePhase,
}

/// The first input from a place on that is there.
pub open spec fn next_present(entries: Seq<InputManifestEntry>, from: int) -> int
    decreases entries.len() - from,
{
    if from < 0 || from >= entries.len() || entries[from].state != InputPathState::Absent {
        from
    } else {
        next_present(entries, from + 1)
    }
}

/// On to the first input from a place on that is there, and where there is none
/// to the provider itself.
pub open spec fn stages_from(
    after: EvidencePhase,
    binding: EvidenceProviderBinding,
    inputs: Inputs,
    request: RunRequest,
    from: int,
) -> bool {
    let at = next_present(inputs.entries@, from);
    if at >= inputs.entries@.len() {
        after == EvidencePhase::Run(binding, inputs, request)
    } else {
        after matches EvidencePhase::LookAtInput(b, i, q, n) && b == binding && i == inputs && q
            == request && n == at
    }
}

/// The request that a run has made, once it has.
pub open spec fn request_of(phase: EvidencePhase) -> Option<RunRequest> {
    match phase {
        EvidencePhase::LookAtInput(_, _, q, _) => Some(q),
        EvidencePhase::CopyInput(_, _, q, _) => Some(q),
        EvidencePhase::Run(_, _, q) => Some(q),
        EvidencePhase::ReadResponse(_, _, q, _) => Some(q),
        _ => None,
    }
}

/// A run has failed.
pub open spec fn fails(after: EvidencePhase, e: ErrorView) -> bool {
    after matches EvidencePhase::Failed(x) && x@ == e
}

/// What follows the registry.
pub open spec fn after_registry(
    project_key: Seq<char>,
    profile_id: Seq<char>,
    registry: EvidenceProviderRegistry,
    after: EvidencePhase,
) -> bool {
    match evidence_provider::registry_refusal(registry) {
        Some(e) => fails(after, e),
        None => match evidence_provider::unbound_refusal(
            registry.bindings@,
            project_key,
            profile_id,
        ) {
            Some(e) => fails(after, e),
            None => after matches EvidencePhase::LookAtBinding(b) && b
                == registry.bindings@[evidence_provider::place_for(
                registry.bindings@,
                project_key,
                profile_id,
            )->0],
        },
    }
}

/// What follows an answer for which the source was read again.
pub open spec fn after_source(
    binding: EvidenceProviderBinding,
    inputs: Inputs,
    process: ProcessResult,
    response: ProviderResponse,
    current: Seq<char>,
    after: EvidencePhase,
) -> bool {
    match evidence_provider::response_refusal(
        response,
        Ok(binding.executable.sha256),
        binding.executable.sha256@,
        inputs.source_fingerprint@,
        current,
    ) {
        Some(e) => fails(after, e),
        None => after matches EvidencePhase::Done(b, i, p, t) && b == binding && i == inputs && p
            == process && evidence_provider::taken_from(
            t,
            response.candidate->0,
            json::json_rewritten(response.candidate->0.payload@)->Ok_0,
            binding,
        ),
    }
}

/// What follows what was done, by what came of it.
pub open spec fn follows(before: EvidenceFlow, reply: EvidenceReply, after: EvidencePhase) -> bool {
    match (before.phase, reply) {
        (EvidencePhase::ReadRegistry, EvidenceReply::Registry(registry)) => match registry {
            Err(e) => fails(after, e@),
            Ok(registry) => after_registry(
                before.project_key@,
                before.profile_id@,
                registry,
                after,
            ),
        },
        (EvidencePhase::LookAtBinding(b), EvidenceReply::Binding(facts)) =>
            match evidence_provider::run_refusal(b, facts, before.plane) {
            Some(e) => fails(after, e),
            None => after == EvidencePhase::ReadContract(b),
        },
        (EvidencePhase::ReadContract(b), EvidenceReply::Contract(contract)) => match contract {
            Err(e) => fails(after, e@),
            Ok(contract) => if evidence_provider::contract_fits(contract, b) {
                after == EvidencePhase::FindInputs(b)
            } else {
                fails(
                    after,
                    ErrorView::Provider(
                        "Input dependency contract 与绑定的 project/profile/provider 不一致"@,
                    ),
                )
            },
        },
        (EvidencePhase::FindInputs(b), EvidenceReply::Inputs(inputs)) => match inputs {
            Err(e) => fails(after, e@),
            Ok(inputs) => after == EvidencePhase::ReadConfig(b, inputs),
        },
        (EvidencePhase::ReadConfig(b, i), EvidenceReply::Config(read)) => match read {
            Err(e) => fails(after, e@),
            Ok(document) => match evidence_provider::read_config_of(document) {
                Err(e) => fails(after, e),
                Ok(config) => after matches EvidencePhase::Prepare(x, y, c) && x == b && y == i
                    && c@ == config,
            },
        },
        (EvidencePhase::Prepare(b, i, config), EvidenceReply::Prepared(prepared)) =>
            match prepared {
            Err(e) => fails(after, e@),
            Ok(scratch) => request_of(after) matches Some(q) && asks(
                q,
                b,
                (before.project_key@, before.profile_id@, before.plane, before.timeout_seconds),
                i,
                config@,
                scratch,
            ) && stages_from(after, b, i, q, 0),
        },
        (EvidencePhase::LookAtInput(b, i, q, n), EvidenceReply::Input(facts)) => match facts {
            Err(e) => fails(after, e@),
            Ok(facts) => if n < i.entries@.len() {
                match evidence_provider::stage_refusal(i.entries@[n as int], facts) {
                    Some(e) => fails(after, e),
                    None => after == EvidencePhase::CopyInput(b, i, q, n),
                }
            } else {
                fails(after, ErrorView::UnexpectedReply)
            },
        },
        (EvidencePhase::CopyInput(b, i, q, n), EvidenceReply::Copied(copied)) => match copied {
            Err(e) => fails(after, e@),
            Ok(copied) => if n < i.entries@.len() {
                if copied@ == evidence_provider::recorded_hash(i.entries@[n as int]) {
                    stages_from(after, b, i, q, n + 1)
                } else {
                    fails(after, ErrorView::Provider("Provider staging copy 校验失败"@))
                }
            } else {
                fails(after, ErrorView::UnexpectedReply)
            },
        },
        (EvidencePhase::Run(b, i, q), EvidenceReply::Ended(ended)) => match ended {
            Err(e) => fails(after, e@),
            Ok(process) => match evidence_provider::clean_refusal(process, "run"@) {
                Some(e) => fails(after, e),
                None => after == EvidencePhase::ReadResponse(b, i, q, process),
            },
        },
        (EvidencePhase::ReadResponse(b, i, q, p), EvidenceReply::Response(response)) =>
            match response {
            Err(e) => fails(after, e@),
            Ok(response) => match evidence_provider::answer_refusal(response) {
                Some(e) => fails(after, e),
                None => after == EvidencePhase::LookAtProgram(b, i, p, response),
            },
        },
        (EvidencePhase::LookAtProgram(b, i, p, response), EvidenceReply::Program(sha256)) =>
            match evidence_provider::executable_refusal(sha256, b.executable.sha256@) {
            Some(e) => fails(after, e),
            None => after == EvidencePhase::CheckSource(b, i, p, response),
        },
        (EvidencePhase::CheckSource(b, i, p, response), EvidenceReply::Fingerprint(current)) =>
            match current {
            Err(e) => fails(after, e@),
            Ok(current) => after_source(b, i, p, response, current@, after),
        },
        (EvidencePhase::Done(b, i, p, t), _) => after == EvidencePhase::Done(b, i, p, t),
        (EvidencePhase::Failed(e), _) => after == EvidencePhase::Failed(e),
        _ => fails(after, ErrorView::UnexpectedReply),
    }
}

fn stage_from(
    binding: EvidenceProviderBinding,
    inputs: Inputs,
    request: RunRequest,
    from: usize,
) -> (r: EvidencePhase)
    requires
        from <= inputs.entries@.len(),
    ensures
        stages_from(r, binding, inputs, request, from as int),
        request_of(r) == Some(request),
{
    let mut at: usize = from;
    while at < inputs.entries.len() && matches!(inputs.entries[at].state, InputPathState::Absent)
        invariant
            at <= inputs.entries@.len(),
            next_present(inputs.entries@, from as int) == next_present(
                inputs.entries@,
                at as int,
            ),
        decreases inputs.entries@.len() - at,
    {
        at = at + 1;
    }
    if at < inputs.entries.len() {
        EvidencePhase::LookAtInput(binding, inputs, request, at)
    } else {
        EvidencePhase::Run(binding, inputs, request)
    }
}

fn take_registry(project_key: &str, profile_id: &str, registry: EvidenceProviderRegistry) -> (r:
    EvidencePhase)
    ensures
        after_registry(project_key@, profile_id@, registry, r),
{
    match evidence_provider::check_registry(&registry) {
        Err(e) => {
            return EvidencePhase::Failed(e);
        },
        Ok(()) => {},
    }
    match evidence_provider::take_binding(registry.bindings, project_key, profile_id) {
        Err(e) => EvidencePhase::Failed(e),
        Ok(binding) => EvidencePhase::LookAtBinding(binding),
    }
}

fn take_input(
    binding: EvidenceProviderBinding,
    inputs: Inputs,
    request: RunRequest,
    n: usize,
    facts: StageFacts,
) -> (r: EvidencePhase)
    requires
        n < inputs.entries@.len(),
    ensures
        match evidence_provider::stage_refusal(inputs.entries@[n as int], facts) {
            Some(e) => fails(r, e),
            None => r == EvidencePhase::CopyInput(binding, inputs, request, n),
        },
{
    match evidence_provider::check_stage(&inputs.entries[n], &facts) {
        Err(e) => EvidencePhase::Failed(e),
        Ok(_) => EvidencePhase::CopyInput(binding, inputs, request, n),
    }
}

fn take_copy(
    binding: EvidenceProviderBinding,
    inputs: Inputs,
    request: RunRequest,
    n: usize,
    copied: String,
) -> (r: EvidencePhase)
    requires
        n < inputs.entries@.len(),
    ensures
        if copied@ == evidence_provider::recorded_hash(inputs.entries@[n as int]) {
            stages_from(r, binding, inputs, request, n + 1)
        } else {
            fails(r, ErrorView::Provider("Provider staging copy 校验失败"@))
        },
{
    let count: usize = inputs.entries.len();
    assert(n < count);
    match evidence_provider::check_staged_copy(&inputs.entries[n], copied.as_str()) {
        Err(e) => EvidencePhase::Failed(e),
        Ok(()) => stage_from(binding, inputs, request, n + 1),
    }
}

fn take_source(
    binding: EvidenceProviderBinding,
    inputs: Inputs,
    process: ProcessResult,
    response: ProviderResponse,
    current: String,
) -> (r: EvidencePhase)
    ensures
        after_source(binding, inputs, process, response, current@, r),
{
    let bound: Result<String, String> = Ok(binding.executable.sha256.clone());
    match evidence_provider::take_response(
        &response,
        &binding,
        &bound,
        inputs.source_fingerprint.as_str(),
        current.as_str(),
    ) {
        Err(e) => EvidencePhase::Failed(e),
        Ok(taken) => EvidencePhase::Done(binding, inputs, process, taken),
    }
}

/// A request is about the inputs of a run, and for the provider that is bound.
pub open spec fn about(
    request: RunRequest,
    binding: EvidenceProviderBinding,
    inputs: Inputs,
) -> bool {
    &&& request.provider_id@ == binding.descriptor.provider_id@
    &&& request.source_fingerprint@ == inputs.source_fingerprint@
    &&& request.manifest_hash@ == inputs.manifest_hash@
}

/// What a run may rest on in each of its phases.
pub open spec fn sound(phase: EvidencePhase) -> bool {
    match phase {
        EvidencePhase::LookAtInput(b, i, q, n) => n < i.entries@.len() && about(q, b, i),
        EvidencePhase::CopyInput(b, i, q, n) => n < i.entries@.len() && about(q, b, i),
        EvidencePhase::Run(b, i, q) => about(q, b, i),
        EvidencePhase::ReadResponse(b, i, q, p) => about(q, b, i) && evidence_provider::clean(p),
        EvidencePhase::LookAtProgram(_, _, p, r) => evidence_provider::clean(p) && r.succeeded,
        EvidencePhase::CheckSource(_, _, p, r) => evidence_provider::clean(p) && r.succeeded,
        EvidencePhase::Done(_, _, p, _) => evidence_provider::clean(p),
        _ => true,
    }
}

impl EvidenceFlow {
    /// Begins by reading the registry.
    pub fn new(
        project_key: &str,
        profile_id: &str,
        plane: EvidencePlane,
        timeout_seconds: u64,
    ) -> (r: Self)
        ensures
            r.project_key@ == project_key@,
            r.profile_id@ == profile_id@,
            r.plane == plane,
            r.timeout_seconds == timeout_seconds,
            r.phase is ReadRegistry,
            sound(r.phase),
    {
        EvidenceFlow {
            project_key: project_key.to_owned(),
            profile_id: profile_id.to_owned(),
            plane,
            timeout_seconds,
            phase: EvidencePhase::ReadRegistry,
        }
    }

    fn early(self, reply: EvidenceReply) -> (r: EvidencePhase)
        requires
            self.phase is ReadRegistry || self.phase is LookAtBinding || self.phase is ReadContract
                || self.phase is FindInputs,
        ensures
            follows(self, reply, r),
            sound(self.phase) ==> sound(r),
    {
        match (self.phase, reply) {
            (EvidencePhase::ReadRegistry, EvidenceReply::Registry(registry)) => match registry {
                Err(e) => EvidencePhase::Failed(e),
                Ok(registry) => take_registry(
                    self.project_key.as_str(),
                    self.profile_id.as_str(),
                    registry,
                ),
            },
            (EvidencePhase::LookAtBinding(b), EvidenceReply::Binding(facts)) => {
                match evidence_provider::check_run(&b, &facts, self.plane) {
                    Err(e) => EvidencePhase::Failed(e),
                    Ok(()) => EvidencePhase::ReadContract(b),
                }
            },
            (EvidencePhase::ReadContract(b), EvidenceReply::Contract(contract)) => match contract {
                Err(e) => EvidencePhase::Failed(e),
                Ok(contract) => match evidence_provider::check_contract(&contract, &b) {
                    Err(e) => EvidencePhase::Failed(e),
                    Ok(()) => EvidencePhase::FindInputs(b),
                },
            },
            (EvidencePhase::FindInputs(b), EvidenceReply::Inputs(inputs)) => match inputs {
                Err(e) => EvidencePhase::Failed(e),
                Ok(inputs) => EvidencePhase::ReadConfig(b, inputs),
            },
            _ => EvidencePhase::Failed(AppError::UnexpectedReply),
        }
    }

    fn staging(self, reply: EvidenceReply) -> (r: EvidencePhase)
        requires
            self.phase is ReadConfig || self.phase is Prepare || self.phase is LookAtInput
                || self.phase is CopyInput,
        ensures
            follows(self, reply, r),
            sound(self.phase) ==> sound(r),
    {
        match (self.phase, reply) {
            (EvidencePhase::ReadConfig(b, i), EvidenceReply::Config(read)) => match read {
                Err(e) => EvidencePhase::Failed(e),
                Ok(document) => match evidence_provider::read_config(&document) {
                    Err(e) => EvidencePhase::Failed(e),
                    Ok(config) => EvidencePhase::Prepare(b, i, config),
                },
            },
            (EvidencePhase::Prepare(b, i, config), EvidenceReply::Prepared(prepared)) => {
                match prepared {
                    Err(e) => EvidencePhase::Failed(e),
                    Ok(scratch) => {
                        let request = run_request(
                            &b,
                            self.project_key.as_str(),
                            self.profile_id.as_str(),
                            self.plane,
                            self.timeout_seconds,
                            &i,
                            config,
                            scratch,
                        );
                        stage_from(b, i, request, 0)
                    },
                }
            },
            (EvidencePhase::LookAtInput(b, i, q, n), EvidenceReply::Input(facts)) => match facts {
                Err(e) => EvidencePhase::Failed(e),
                Ok(facts) => if n < i.entries.len() {
                    take_input(b, i, q, n, facts)
                } else {
                    EvidencePhase::Failed(AppError::UnexpectedReply)
                },
            },
            (EvidencePhase::CopyInput(b, i, q, n), EvidenceReply::Copied(copied)) => match copied {
                Err(e) => EvidencePhase::Failed(e),
                Ok(copied) => if n < i.entries.len() {
                    take_copy(b, i, q, n, copied)
                } else {
                    EvidencePhase::Failed(AppError::UnexpectedReply)
                },
            },
            _ => EvidencePhase::Failed(AppError::UnexpectedReply),
        }
    }

    fn late(self, reply: EvidenceReply) -> (r: EvidencePhase)
        requires
            self.phase is Run || self.phase is ReadResponse || self.phase is LookAtProgram
                || self.phase is CheckSource,
        ensures
            follows(self, reply, r),
            sound(self.phase) ==> sound(r),
    {
        match (self.phase, reply) {
            (EvidencePhase::Run(b, i, q), EvidenceReply::Ended(ended)) => match ended {
                Err(e) => EvidencePhase::Failed(e),
                Ok(process) => match evidence_provider::require_clean_success(&process, "run") {
                    Err(e) => EvidencePhase::Failed(e),
                    Ok(()) => EvidencePhase::ReadResponse(b, i, q, process),
                },
            },
            (EvidencePhase::ReadResponse(b, i, _, p), EvidenceReply::Response(response)) => {
                match response {
                    Err(e) => EvidencePhase::Failed(e),
                    Ok(response) => match evidence_provider::check_response(&response) {
                        Err(e) => EvidencePhase::Failed(e),
                        Ok(()) => EvidencePhase::LookAtProgram(b, i, p, response),
                    },
                }
            },
            (EvidencePhase::LookAtProgram(b, i, p, response), EvidenceReply::Program(sha256)) => {
                match evidence_provider::verify_executable(
                    &sha256,
                    b.executable.sha256.as_str(),
                ) {
                    Err(e) => EvidencePhase::Failed(e),
                    Ok(()) => EvidencePhase::CheckSource(b, i, p, response),
                }
            },
            (
                EvidencePhase::CheckSource(b, i, p, response),
                EvidenceReply::Fingerprint(current),
            ) => match current {
                Err(e) => EvidencePhase::Failed(e),
                Ok(current) => take_source(b, i, p, response, current),
            },
            _ => EvidencePhase::Failed(AppError::UnexpectedReply),
        }
    }

    /// Goes on with what came of what was done.
    pub fn step(self, reply: EvidenceReply) -> (r: Self)
        ensures
            r.project_key == self.project_key,
            r.profile_id == self.profile_id,
            r.plane == self.plane,
            r.timeout_seconds == self.timeout_seconds,
            follows(self, reply, r.phase),
            sound(self.phase) ==> sound(r.phase),
    {
        let project_key = self.project_key.clone();
        let profile_id = self.profile_id.clone();
        let plane = self.plane;
        let timeout_seconds: u64 = self.timeout_seconds;
        let phase = match &self.phase {
            EvidencePhase::ReadRegistry
            | EvidencePhase::LookAtBinding(_)
            | EvidencePhase::ReadContract(_)
            | EvidencePhase::FindInputs(_) => self.early(reply),
            EvidencePhase::ReadConfig(_, _)
            | EvidencePhase::Prepare(_, _, _)
            | EvidencePhase::LookAtInput(_, _, _, _)
            | EvidencePhase::CopyInput(_, _, _, _) => self.staging(reply),
            EvidencePhase::Run(_, _, _)
            | EvidencePhase::ReadResponse(_, _, _, _)
            | EvidencePhase::LookAtProgram(_, _, _, _)
            | EvidencePhase::CheckSource(_, _, _, _) => self.late(reply),
            EvidencePhase::Done(_, _, _, _) | EvidencePhase::Failed(_) => self.phase,
        };
        EvidenceFlow { project_key, profile_id, plane, timeout_seconds, phase }
    }

    /// What is reported of a run that gave evidence.
    pub fn summary(&self) -> (r: Option<RunSummary>)
        ensures
            match self.phase {
                EvidencePhase::Done(b, _, p, _) => r matches Some(s) && {
                    &&& s.schema_version == evidence_provider::REGISTRY_SCHEMA_VERSION
                    &&& s.project_key == b.project_key
                    &&& s.profile_id == b.profile_id
                    &&& s.provider_id == b.descriptor.provider_id
                    &&& s.registration_id == b.registration_id
                    &&& s.registration_revision == b.revision
                    &&& s.descriptor_hash == b.descriptor_hash
                    &&& s.executable_sha256 == b.executable.sha256
                    &&& s.duration_ms == p.duration_ms
                    &&& s.stdout_sha256 == p.stdout.sha256
                    &&& s.stderr_sha256 == p.stderr.sha256
                },
                _ => r is None,
            },
    {
        match &self.phase {
            EvidencePhase::Done(b, _, p, _) => Some(evidence_provider::run_summary(b, p)),
            _ => None,
        }
    }
}

// ---------------------------------------------------------------------------
// What holds of every run
// ---------------------------------------------------------------------------

proof fn next_present_skips_absent(entries: Seq<InputManifestEntry>, from: int, k: int)
    requires
        0 <= from <= k < next_present(entries, from),
    ensures
        k < entries.len() && entries[k].state == InputPathState::Absent,
    decreases entries.len() - from,
{
    if from < entries.len() && entries[from].state == InputPathState::Absent && k > from {
        next_present_skips_absent(entries, from + 1, k);
    }
}

/// No input that is there is passed over: from one input the run goes on only
/// past inputs that are absent, and to the provider only where none is left.
pub proof fn every_input_is_staged(
    before: EvidenceFlow,
    reply: EvidenceReply,
    after: EvidencePhase,
    binding: EvidenceProviderBinding,
    inputs: Inputs,
    request: RunRequest,
    n: usize,
    k: int,
)
    requires
        before.phase == EvidencePhase::CopyInput(binding, inputs, request, n),
        follows(before, reply, after),
        n < k < inputs.entries@.len(),
        inputs.entries@[k].state != InputPathState::Absent,
    ensures
        !(after is Run),
        after matches EvidencePhase::LookAtInput(_, _, _, m) ==> m <= k,
        !(after is Failed) ==> after is LookAtInput,
{
    if next_present(inputs.entries@, n + 1) > k {
        next_present_skips_absent(inputs.entries@, n + 1, k);
    }
}

/// There is evidence only where the program is still the one that was bound
/// when it answered, and the source still the one that the inputs were taken
/// from.
pub proof fn only_unchanged_sources_give_evidence(
    before: EvidenceFlow,
    reply: EvidenceReply,
    after: EvidencePhase,
)
    requires
        follows(before, reply, after),
        after is Done,
        !(before.phase is Done),
    ensures
        before.phase is CheckSource,
        reply is Fingerprint && reply->Fingerprint_0 is Ok,
        reply->Fingerprint_0->Ok_0@ == before.phase->CheckSource_1.source_fingerprint@,
        after->Done_0 == before.phase->CheckSource_0,
{
}

/// The source is only read again once the program was found to be the one that
/// was bound.
pub proof fn only_bound_programs_answer(
    before: EvidenceFlow,
    reply: EvidenceReply,
    after: EvidencePhase,
)
    requires
        follows(before, reply, after),
        after is CheckSource,
    ensures
        before.phase is LookAtProgram,
        reply is Program && reply->Program_0 is Ok,
        reply->Program_0->Ok_0@ == after->CheckSource_0.executable.sha256@,
{
}

/// The binding that a run goes by, once it has one.
pub open spec fn binding_of(phase: EvidencePhase) -> Option<EvidenceProviderBinding> {
    match phase {
        EvidencePhase::ReadRegistry => None,
        EvidencePhase::LookAtBinding(b) => Some(b),
        EvidencePhase::ReadContract(b) => Some(b),
        EvidencePhase::FindInputs(b) => Some(b),
        EvidencePhase::ReadConfig(b, _) => Some(b),
        EvidencePhase::Prepare(b, _, _) => Some(b),
        EvidencePhase::LookAtInput(b, _, _, _) => Some(b),
        EvidencePhase::CopyInput(b, _, _, _) => Some(b),
        EvidencePhase::Run(b, _, _) => Some(b),
        EvidencePhase::ReadResponse(b, _, _, _) => Some(b),
        EvidencePhase::LookAtProgram(b, _, _, _) => Some(b),
        EvidencePhase::CheckSource(b, _, _, _) => Some(b),
        EvidencePhase::Done(b, _, _, _) => Some(b),
        EvidencePhase::Failed(_) => None,
    }
}

/// A run goes by one binding: the one that the registry holds for its project
/// and its profile, from the step that reads the registry to its end.
pub proof fn runs_keep_to_the_registered_binding(
    before: EvidenceFlow,
    reply: EvidenceReply,
    after: EvidencePhase,
)
    requires
        follows(before, reply, after),
        binding_of(after) is Some,
    ensures
        match binding_of(before.phase) {
            Some(b) => binding_of(after) == Some(b),
            None => reply is Registry && reply->Registry_0 is Ok && ({
                let bindings = reply->Registry_0->Ok_0.bindings@;
                binding_of(after) == Some(
                    bindings[evidence_provider::place_for(
                        bindings,
                        before.project_key@,
                        before.profile_id@,
                    )->0],
                )
            }),
        },
{
}

/// A request is kept as it was made until it is answered.
pub proof fn requests_are_kept(before: EvidenceFlow, reply: EvidenceReply, after: EvidencePhase)
    requires
        follows(before, reply, after),
        request_of(before.phase) is Some,
        request_of(after) is Some,
    ensures
        request_of(after) == request_of(before.phase),
{
}

/// No provider raises its own authority: evidence carries the authority that
/// the provider was bound with, and a finding counts as a violation exactly
/// where that authority is deterministic and the provider claims one.
pub proof fn providers_cannot_raise_their_authority(
    before: EvidenceFlow,
    reply: EvidenceReply,
    after: EvidencePhase,
    k: int,
)
    requires
        follows(before, reply, after),
        after is Done,
        before.phase is CheckSource,
        0 <= k < after->Done_3.findings@.len(),
    ensures
        ({
            let b = before.phase->CheckSource_0;
            let c = before.phase->CheckSource_3.candidate->0;
            let t = after->Done_3;
            &&& t.authority == b.authority_ceiling
            &&& t.provider_id@ == b.descriptor.provider_id@
            &&& t.provider_version@ == b.descriptor.provider_version@
            &&& t.findings@.len() == c.findings@.len()
            &&& t.findings@[k].authority == FindingAuthority::DeterministicViolation <==> (
            b.authority_ceiling == EvidenceAuthority::Deterministic
                && c.findings@[k].deterministic_violation_claim)
        }),
{
    assert(evidence_provider::taken(
        after->Done_3.findings@[k],
        before.phase->CheckSource_3.candidate->0.findings@[k],
        before.phase->CheckSource_0.authority_ceiling,
    ));
}

} // verus!
