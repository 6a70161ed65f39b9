//! The hook protocol: one run for each event, from the event to its outcome.
//!
//! A run asks for one thing at a time and goes on with the reply; what it
//! asks for and what it decides is a function of the event, the project and
//! the replies so far.
use crate::control::{self, AgentClaim, AssessedHead, ControlSessionState};
use crate::decision;
use crate::error::{AppError, ErrorView};
use crate::event::{
    AdapterKind, HookEventPayload, InternalHookEvent, TaskStopping, ToolAboutToRun, ToolFinished,
};
use crate::evidence::{CurrentSourceVerification, SourceView};
use crate::findings::{self, FindingEffectMapping, FindingHead};
use crate::impact::{self, EvidenceImpactPlan, ImpactHead, ImpactSource, PlanView};
use crate::model::{
    self, ActionDescriptor, ActionView, ContextItem, Decision, DecisionKind, DecisionView,
    EvidenceFreshness, FeedbackItem, FeedbackSeverity, FeedbackView, GateDecision, GateView,
    HookOutcomePayload, InternalHookOutcome, OutcomeView, Rule, StopDecision, StopView, ToolAction,
    ToolStatus,
};
use crate::order;
use crate::paths::{self, PathRelation};
use crate::reconcile::{self, ReconcileReport, StopEvidence};
use crate::repair;
use crate::symbols::{
    self, ProviderTrustStatus, RulePaths, SemanticResolution, SourceState, StopScope,
};
use crate::text;
use vstd::prelude::*;

verus! {

broadcast use {vstd::string::group_string_axioms, vstd::seq::group_seq_axioms};

// ---------------------------------------------------------------------------
// What a run is given
// ---------------------------------------------------------------------------

/// How stopping is reconciled.
#[derive(Debug, Clone, PartialEq, Eq)]
pub struct StopReconcileConfig {
    pub enabled: bool,
    pub base: String,
    pub envelope: String,
}

/// The project and the event of a run.  `root` is the project root in its
/// normalized written form, `context_canonical` the canonical form of the
/// project context.
#[derive(Debug, Clone, PartialEq, Eq)]
pub struct HookContext {
    pub root: String,
    pub ignore_case: bool,
    pub schema_version: u32,
    pub project_key: String,
    pub project_name: String,
    pub rules: Vec<Rule>,
    pub finding_effect_mappings: Vec<FindingEffectMapping>,
    pub stop_reconcile: StopReconcileConfig,
    pub context_canonical: Vec<u8>,
    pub provider_trust: Vec<ProviderTrustStatus>,
    pub event: InternalHookEvent,
}

/// A change that was let through before.
#[derive(Debug, Clone, PartialEq, Eq)]
pub struct StoredProposal {
    pub proposal_digest: String,
    pub action: ToolAction,
}

/// What a run may be told.
#[derive(Debug, PartialEq, Eq)]
pub enum Reply {
    Done,
    Session(ControlSessionState),
    MaybeSession(Option<ControlSessionState>),
    Context { claims: Vec<AgentClaim>, heads: Vec<AssessedHead> },
    Heads(Vec<AssessedHead>),
    Paths(Vec<String>),
    Relation(PathRelation),
    Assessment {
        path_decision: Decision,
        rule_paths: Vec<RulePaths>,
        resolutions: Vec<Vec<Result<SemanticResolution, String>>>,
        source: Option<SourceState>,
    },
    Proposal(Option<StoredProposal>),
    Observed(Option<Vec<String>>),
    Impact { heads: Vec<ImpactHead>, source: ImpactSource, final_source: CurrentSourceVerification },
    Applied { marked: u64, preserved: u64 },
    Stop {
        finding_heads: Result<Vec<FindingHead>, String>,
        scopes: Vec<Vec<StopScope>>,
        head: Option<String>,
        report: Result<ReconcileReport, String>,
    },
}

// ---------------------------------------------------------------------------
// What a run asks for
// ---------------------------------------------------------------------------

/// A deviation that keeps unrelated writing waiting.
#[derive(Debug, Clone, PartialEq, Eq)]
pub enum HoldRecord {
    /// A change has to be proposed again.
    Replan { proposal_digest: String, target_files: Vec<String>, decision: Decision },
    /// A change was made that nothing had let through.
    MissingProposal { declared_targets: Vec<String> },
    /// A change was made whose extent cannot be told.
    MissingBaseline { declared_targets: Vec<String> },
    /// A change went beyond what was proposed.
    Deviation {
        proposal_digest: String,
        expected_paths: Vec<String>,
        observed_paths: Vec<String>,
        unexpected_paths: Vec<String>,
    },
}

/// What a hold says.
pub enum HoldView {
    Replan { proposal_digest: Seq<char>, target_files: Seq<Seq<char>>, decision: DecisionView },
    MissingProposal { declared_targets: Seq<Seq<char>> },
    MissingBaseline { declared_targets: Seq<Seq<char>> },
    Deviation {
        proposal_digest: Seq<char>,
        expected_paths: Seq<Seq<char>>,
        observed_paths: Seq<Seq<char>>,
        unexpected_paths: Seq<Seq<char>>,
    },
}

impl View for HoldRecord {
    type V = HoldView;

    open spec fn view(&self) -> HoldView {
        match self {
            HoldRecord::Replan { proposal_digest, target_files, decision } => HoldView::Replan {
                proposal_digest: proposal_digest@,
                target_files: text::views(target_files@),
                decision: decision@,
            },
            HoldRecord::MissingProposal { declared_targets } => HoldView::MissingProposal {
                declared_targets: text::views(declared_targets@),
            },
            HoldRecord::MissingBaseline { declared_targets } => HoldView::MissingBaseline {
                declared_targets: text::views(declared_targets@),
            },
            HoldRecord::Deviation {
                proposal_digest,
                expected_paths,
                observed_paths,
                unexpected_paths,
            } => HoldView::Deviation {
                proposal_digest: proposal_digest@,
                expected_paths: text::views(expected_paths@),
                observed_paths: text::views(observed_paths@),
                unexpected_paths: text::views(unexpected_paths@),
            },
        }
    }
}

impl HoldView {
    /// The kind under which a hold is stored.
    pub open spec fn kind(self) -> Seq<char> {
        match self {
            HoldView::Replan { .. } => "replan"@,
            HoldView::MissingProposal { .. } => "verify_required"@,
            HoldView::MissingBaseline { .. } => "verify_required"@,
            HoldView::Deviation { .. } => "repair_required"@,
        }
    }

    /// What a hold asks for.
    pub open spec fn note(self) -> Seq<char> {
        match self {
            HoldView::Replan { .. } =>
                "撤回本次写入选择；在下一模型步骤吸收约束后重新提出变更"@,
            HoldView::MissingProposal { .. } =>
                "缺少与本次 PostTool 对应的已放行 PreTool 变更提案"@,
            HoldView::MissingBaseline { .. } =>
                "无法取得可靠的 PreTool Source baseline，实际影响范围需要验证"@,
            HoldView::Deviation { .. } =>
                "检查实际 diff，撤销或正式纳入超出提案范围的变更"@,
        }
    }
}

impl HoldRecord {
    /// The kind under which a hold is stored.
    pub fn kind(&self) -> (r: &'static str)
        ensures
            r@ == self@.kind(),
    {
        match self {
            HoldRecord::Replan { .. } => "replan",
            HoldRecord::MissingProposal { .. } => "verify_required",
            HoldRecord::MissingBaseline { .. } => "verify_required",
            HoldRecord::Deviation { .. } => "repair_required",
        }
    }

    /// What a hold asks for.
    pub fn note(&self) -> (r: &'static str)
        ensures
            r@ == self@.note(),
    {
        match self {
            HoldRecord::Replan { .. } =>
                "撤回本次写入选择；在下一模型步骤吸收约束后重新提出变更",
            HoldRecord::MissingProposal { .. } =>
                "缺少与本次 PostTool 对应的已放行 PreTool 变更提案",
            HoldRecord::MissingBaseline { .. } =>
                "无法取得可靠的 PreTool Source baseline，实际影响范围需要验证",
            HoldRecord::Deviation { .. } =>
                "检查实际 diff，撤销或正式纳入超出提案范围的变更",
        }
    }
}

/// What a run asks for, or how it ended.
#[derive(Debug, Clone, PartialEq, Eq)]
pub enum Request {
    /// Open the session under its parent.
    OpenSession { parent: Option<String>, origin: String, depth: u32 },
    /// Record the goal as the user wrote it.
    DeclareGoal { text: String, digest: String },
    /// Bring the session to the current project context, and read it.
    SyncContext { digest: String },
    /// Read the claims of agents and the evidence.
    GatherContext,
    /// Record what the session was told.
    MarkDelivered { digest: String },
    /// Bring paths into their normalized written form.
    NormalizePaths { paths: Vec<String> },
    /// Tell which paths contain or are contained in which.
    RelatePaths { left: Vec<String>, right: Vec<String> },
    /// Judge the action by its paths, and resolve the symbols of the rules.
    AssessAction,
    /// Read the evidence.
    AssessEvidence,
    /// Hold the session.
    SetHold { hold: HoldRecord },
    /// Release the session.
    ClearHold,
    /// Read the session, if there is one.
    LoadSession,
    /// Read the session, opening one where there is none.
    EnsureSession,
    /// Record the change that is let through.
    RecordProposal { digest: String },
    /// Record the source before the change.
    RecordBaseline,
    /// Read the change that was let through.
    LoadProposal,
    /// Tell what the change did, where the source before it was recorded.
    ObserveChange,
    /// Read the evidence and the source around the action.
    GatherImpact,
    /// Carry out a plan on the evidence.
    ApplyPlan { plan: EvidenceImpactPlan },
    /// Read what stopping depends on.
    GatherStop,
    /// The run ended with an outcome.
    Finish { payload: HookOutcomePayload },
    /// The run failed.
    Fail { error: AppError },
}

/// What a request says.
pub enum RequestView {
    OpenSession { parent: Option<Seq<char>>, origin: Seq<char>, depth: u32 },
    DeclareGoal { text: Seq<char>, digest: Seq<char> },
    SyncContext { digest: Seq<char> },
    GatherContext,
    MarkDelivered { digest: Seq<char> },
    NormalizePaths { paths: Seq<Seq<char>> },
    RelatePaths { left: Seq<Seq<char>>, right: Seq<Seq<char>> },
    AssessAction,
    AssessEvidence,
    SetHold { hold: HoldView },
    ClearHold,
    LoadSession,
    EnsureSession,
    RecordProposal { digest: Seq<char> },
    RecordBaseline,
    LoadProposal,
    ObserveChange,
    GatherImpact,
    ApplyPlan { plan: PlanView },
    GatherStop,
    Finish { payload: OutcomeView },
    Fail { error: ErrorView },
}

impl View for Request {
    type V = RequestView;

    open spec fn view(&self) -> RequestView {
        match self {
            Request::OpenSession { parent, origin, depth } => RequestView::OpenSession {
                parent: model::opt_view(*parent),
                origin: origin@,
                depth: *depth,
            },
            Request::DeclareGoal { text, digest } => RequestView::DeclareGoal {
                text: text@,
                digest: digest@,
            },
            Request::SyncContext { digest } => RequestView::SyncContext { digest: digest@ },
            Request::GatherContext => RequestView::GatherContext,
            Request::MarkDelivered { digest } => RequestView::MarkDelivered { digest: digest@ },
            Request::NormalizePaths { paths } => RequestView::NormalizePaths {
                paths: text::views(paths@),
            },
            Request::RelatePaths { left, right } => RequestView::RelatePaths {
                left: text::views(left@),
                right: text::views(right@),
            },
            Request::AssessAction => RequestView::AssessAction,
            Request::AssessEvidence => RequestView::AssessEvidence,
            Request::SetHold { hold } => RequestView::SetHold { hold: hold@ },
            Request::ClearHold => RequestView::ClearHold,
            Request::LoadSession => RequestView::LoadSession,
            Request::EnsureSession => RequestView::EnsureSession,
            Request::RecordProposal { digest } => RequestView::RecordProposal { digest: digest@ },
            Request::RecordBaseline => RequestView::RecordBaseline,
            Request::LoadProposal => RequestView::LoadProposal,
            Request::ObserveChange => RequestView::ObserveChange,
            Request::GatherImpact => RequestView::GatherImpact,
            Request::ApplyPlan { plan } => RequestView::ApplyPlan { plan: plan@ },
            Request::GatherStop => RequestView::GatherStop,
            Request::Finish { payload } => RequestView::Finish { payload: payload@ },
            Request::Fail { error } => RequestView::Fail { error: error@ },
        }
    }
}

// ---------------------------------------------------------------------------
// The state of a run
// ---------------------------------------------------------------------------

/// What a run is waiting for.
#[derive(Debug, Clone, Copy, PartialEq, Eq, Structural)]
pub enum Phase {
    Opening,
    SyncingToTell,
    Gathering,
    Marking,
    SyncingTool,
    NormalizingRepair,
    RelatingRepair,
    AssessingTool,
    AssessingEvidence,
    ClearingReplan,
    HoldingReplan,
    ReloadingHeld,
    MarkingHeld,
    RecordingProposal,
    RecordingBaseline,
    AssessingFinished,
    EnsuringSession,
    LoadingProposal,
    Observing,
    NormalizingObserved,
    RelatingObserved,
    NormalizingResolved,
    RelatingResolved,
    SettlingHold,
    GatheringImpact,
    ApplyingPlan,
    LoadingToStop,
    GatheringStop,
    AssessingAtStop,
    Finished,
}

/// A run under way.
#[derive(Debug, Clone, PartialEq, Eq)]
pub struct HookRun {
    pub phase: Phase,
    pub state: Option<ControlSessionState>,
    pub decision: Option<Decision>,
    pub proposal: Option<StoredProposal>,
    pub digest: String,
    pub reason: String,
    pub inject: Vec<ContextItem>,
    pub feedback: Vec<FeedbackItem>,
    pub left: Vec<String>,
    pub right: Vec<String>,
    pub stop: StopDecision,
    pub stale: usize,
    pub unknown: usize,
}

/// What a run under way holds.
pub struct RunView {
    pub phase: Phase,
    pub state: Option<ControlSessionState>,
    pub decision: Option<DecisionView>,
    pub proposal: Option<StoredProposal>,
    pub digest: Seq<char>,
    pub reason: Seq<char>,
    pub inject: Seq<Seq<char>>,
    pub feedback: Seq<FeedbackView>,
    pub left: Seq<Seq<char>>,
    pub right: Seq<Seq<char>>,
    pub stop: StopView,
    pub stale: nat,
    pub unknown: nat,
}

impl View for HookRun {
    type V = RunView;

    open spec fn view(&self) -> RunView {
        RunView {
            phase: self.phase,
            state: self.state,
            decision: match self.decision {
                Some(d) => Some(d@),
                None => None,
            },
            proposal: self.proposal,
            digest: self.digest@,
            reason: self.reason@,
            inject: model::context_texts(self.inject@),
            feedback: model::feedback_views(self.feedback@),
            left: text::views(self.left@),
            right: text::views(self.right@),
            stop: self.stop@,
            stale: self.stale as nat,
            unknown: self.unknown as nat,
        }
    }
}

/// A run before its first reply.
pub open spec fn fresh_run(phase: Phase) -> RunView {
    RunView {
        phase,
        state: None,
        decision: None,
        proposal: None,
        digest: Seq::empty(),
        reason: Seq::empty(),
        inject: Seq::empty(),
        feedback: Seq::empty(),
        left: Seq::empty(),
        right: Seq::empty(),
        stop: StopView::AllowStop,
        stale: 0,
        unknown: 0,
    }
}

/// A run and what it asks for.
pub type StepView = (RunView, RequestView);

/// The run ends with an outcome.
pub open spec fn finish(run: RunView, payload: OutcomeView) -> StepView {
    (RunView { phase: Phase::Finished, ..run }, RequestView::Finish { payload })
}

/// The run fails.
pub open spec fn fail(run: RunView, error: ErrorView) -> StepView {
    (RunView { phase: Phase::Finished, ..run }, RequestView::Fail { error })
}

/// The run goes on to a phase with a request.
pub open spec fn ask(run: RunView, phase: Phase, request: RequestView) -> StepView {
    (RunView { phase, ..run }, request)
}

/// The identity of the project context.
pub open spec fn context_digest(ctx: HookContext) -> Seq<char> {
    control::labelled("project-brain/project-context/v1"@, ctx.context_canonical@)
}

/// What the session is told of its state.
pub open spec fn state_text(ctx: HookContext, state: ControlSessionState) -> Seq<char> {
    control::control_text(
        state,
        control::session_text(ctx.project_name@, ctx.project_key@, ctx.rules@),
    )
}


/// What a reply that does not answer the request comes to.
pub open spec fn unexpected(run: RunView) -> StepView {
    fail(run, ErrorView::UnexpectedReply)
}

// ---------------------------------------------------------------------------
// Telling a session
// ---------------------------------------------------------------------------

/// The outcome of an event that the session is told something on.
pub open spec fn told(event: HookEventPayload, inject: Seq<Seq<char>>) -> OutcomeView {
    match event {
        HookEventPayload::SessionOpened(_) => OutcomeView::SessionOpened(inject),
        HookEventPayload::IntentDeclared(_) => OutcomeView::IntentDeclared(
            GateView::NoVeto,
            inject,
        ),
        _ => OutcomeView::ContextRequested(inject),
    }
}

/// With the session up to date: a session that asks and has nothing to be
/// told is told nothing.
pub open spec fn on_synced_to_tell(
    ctx: HookContext,
    run: RunView,
    state: ControlSessionState,
) -> StepView {
    if ctx.event.payload is ContextRequested && !control::delivery_needed(state) {
        finish(run, OutcomeView::ContextRequested(Seq::empty()))
    } else {
        ask(RunView { state: Some(state), ..run }, Phase::Gathering, RequestView::GatherContext)
    }
}

/// With everything there to tell: the state of the session, the claims of
/// agents, and the evidence, fresh evidence only when the session is opened.
pub open spec fn on_gathered(
    ctx: HookContext,
    run: RunView,
    claims: Seq<AgentClaim>,
    heads: Seq<AssessedHead>,
) -> StepView {
    match run.state {
        Some(state) => {
            let inject = seq![state_text(ctx, state)] + control::claim_context(claims)
                + control::head_messages(heads, ctx.event.payload is SessionOpened);
            deliver(RunView { inject, ..run }, Phase::Marking)
        },
        None => unexpected(run),
    }
}

/// Have what is told recorded.
pub open spec fn deliver(run: RunView, phase: Phase) -> StepView {
    match control::delivery_digest(run.inject) {
        Some(digest) => ask(run, phase, RequestView::MarkDelivered { digest }),
        None => unexpected(run),
    }
}

// ---------------------------------------------------------------------------
// Before a tool runs
// ---------------------------------------------------------------------------

/// A deviation waits to be repaired.
pub open spec fn repair_required(state: ControlSessionState) -> bool {
    model::opt_view(state.outstanding_kind) == Some("repair_required"@)
}

/// Writing that has nothing to do with the repair that waits is sent back.
pub open spec fn send_back(ctx: HookContext, run: RunView) -> StepView {
    match run.state {
        Some(state) => finish(
            run,
            OutcomeView::ToolAboutToRun(
                GateView::Replan(
                    "存在尚未由实际 diff 证明修复的偏差；当前写入与修复范围无关，必须先纠偏"@,
                ),
                seq![state_text(ctx, state)],
            ),
        ),
        None => unexpected(run),
    }
}

/// The paths that a hold names.
pub open spec fn held_paths(state: ControlSessionState) -> Seq<Seq<char>> {
    repair::repair_paths_of(model::opt_view(state.outstanding_json))
}

/// Compare the paths of an action with those of the repair that waits.
pub open spec fn compare_to_repair(
    run: RunView,
    action: ToolAction,
    right: Seq<Seq<char>>,
    phase: Phase,
) -> StepView {
    let left = order::sorted_set_of(repair::named_paths(action));
    ask(
        RunView { left, right, ..run },
        phase,
        RequestView::NormalizePaths { paths: left + right },
    )
}

/// With the session up to date.
pub open spec fn on_synced_tool(
    ctx: HookContext,
    run: RunView,
    tool: ToolAboutToRun,
    state: ControlSessionState,
) -> StepView {
    let run = RunView { state: Some(state), ..run };
    if !repair_required(state) || repair::inspects(
        tool.action.kind,
        model::opt_view(tool.action.command),
    ) {
        ask(run, Phase::AssessingTool, RequestView::AssessAction)
    } else if repair::mutates(tool.action.kind) && held_paths(state).len() > 0 {
        compare_to_repair(run, tool.action, held_paths(state), Phase::NormalizingRepair)
    } else {
        send_back(ctx, run)
    }
}

/// With two lists of paths in their normalized form: both relative to the
/// root, and to be related.
pub open spec fn on_normalized(
    ctx: HookContext,
    run: RunView,
    paths: Seq<Seq<char>>,
    phase: Phase,
) -> StepView {
    if paths.len() == run.left.len() + run.right.len() {
        let n = run.left.len() as int;
        let left = paths::all_relative(ctx.root@, paths.take(n), ctx.ignore_case);
        let right = paths::all_relative(ctx.root@, paths.skip(n), ctx.ignore_case);
        ask(RunView { left, right, ..run }, phase, RequestView::RelatePaths { left, right })
    } else {
        unexpected(run)
    }
}

/// With the paths related.
pub open spec fn on_related_repair(
    ctx: HookContext,
    run: RunView,
    tool: ToolAboutToRun,
    relation: PathRelation,
) -> StepView {
    if repair::addresses_repair(
        tool.action.kind,
        run.left.len() as int,
        run.right.len() as int,
        relation,
    ) {
        ask(run, Phase::AssessingTool, RequestView::AssessAction)
    } else {
        send_back(ctx, run)
    }
}

/// An action as rules look at it.
pub open spec fn described(action: ToolAction, tool_name: Seq<char>) -> ActionView {
    ActionView {
        kind: action.kind,
        operation: tool_name,
        target_files: text::views(action.target_files@),
        command: model::opt_view(action.command),
    }
}

/// What the rules decide on the action of an event.
pub open spec fn decision_on(
    ctx: HookContext,
    action: ToolAction,
    tool_name: Seq<char>,
    path_decision: Decision,
    rule_paths: Seq<RulePaths>,
    resolutions: Seq<Vec<Result<SemanticResolution, String>>>,
    source: Option<SourceState>,
) -> DecisionView {
    decision::merged(
        path_decision@,
        symbols::symbol_decision(
            ctx.schema_version,
            ctx.rules@,
            rule_paths,
            resolutions,
            ctx.provider_trust@,
            source,
            described(action, tool_name),
            action.deterministic_impacts@,
        ),
    )
}

/// With the evidence read: an action that asks for a new plan is held until
/// it is proposed again after the plan was asked for.
pub open spec fn on_assessed(
    ctx: HookContext,
    run: RunView,
    tool: ToolAboutToRun,
    heads: Seq<AssessedHead>,
) -> StepView {
    match (run.decision, run.state) {
        (Some(decision), Some(state)) => {
            let digest = repair::proposal_digest_of(tool.action, tool.action_json@);
            let inject = decision::context_of(decision) + control::head_messages(heads, false);
            let next = RunView { decision: None, digest, inject, ..run };
            if decision.decision != DecisionKind::RequireReview {
                if decision::gate_of(decision) is NoVeto {
                    let_through(next, tool)
                } else {
                    finish(
                        next,
                        OutcomeView::ToolAboutToRun(decision::gate_of(decision), inject),
                    )
                }
            } else if repair::replan_matches(
                model::opt_view(state.outstanding_kind),
                state.outstanding_delivered,
                repair::held_digest_of(model::opt_view(state.outstanding_json)),
                digest,
            ) {
                ask(next, Phase::ClearingReplan, RequestView::ClearHold)
            } else {
                ask(
                    RunView { reason: decision::reason_of(decision), ..next },
                    Phase::HoldingReplan,
                    RequestView::SetHold {
                        hold: HoldView::Replan {
                            proposal_digest: digest,
                            target_files: text::views(tool.action.target_files@),
                            decision,
                        },
                    },
                )
            }
        },
        _ => unexpected(run),
    }
}

/// The action may run; one that may change the source is recorded first.
pub open spec fn let_through(run: RunView, tool: ToolAboutToRun) -> StepView {
    if repair::needs_baseline(tool.action.kind) {
        ask(run, Phase::RecordingProposal, RequestView::RecordProposal { digest: run.digest })
    } else {
        finish(run, OutcomeView::ToolAboutToRun(GateView::NoVeto, run.inject))
    }
}

/// With the hold set and the session read again.
pub open spec fn on_held(
    ctx: HookContext,
    run: RunView,
    state: Option<ControlSessionState>,
) -> StepView {
    match state {
        Some(state) => {
            let run = RunView { inject: seq![state_text(ctx, state)], ..run };
            if ctx.event.adapter.kind == AdapterKind::Dsh {
                finish(run, OutcomeView::ToolAboutToRun(GateView::Replan(run.reason), run.inject))
            } else {
                deliver(run, Phase::MarkingHeld)
            }
        },
        None => fail(run, ErrorView::Provider("控制会话丢失"@)),
    }
}

/// A reply before a tool runs.
pub open spec fn next_about_to_run(
    ctx: HookContext,
    run: RunView,
    tool: ToolAboutToRun,
    reply: Reply,
) -> StepView {
    match (run.phase, reply) {
        (Phase::SyncingTool, Reply::Session(state)) => on_synced_tool(ctx, run, tool, state),
        (Phase::NormalizingRepair, Reply::Paths(paths)) => on_normalized(
            ctx,
            run,
            text::views(paths@),
            Phase::RelatingRepair,
        ),
        (Phase::RelatingRepair, Reply::Relation(relation)) => on_related_repair(
            ctx,
            run,
            tool,
            relation,
        ),
        (
            Phase::AssessingTool,
            Reply::Assessment { path_decision, rule_paths, resolutions, source },
        ) => if symbols::shapes_fit(ctx.rules@, rule_paths@, resolutions@) {
            ask(
                RunView {
                    decision: Some(
                        decision_on(
                            ctx,
                            tool.action,
                            tool.tool_name@,
                            path_decision,
                            rule_paths@,
                            resolutions@,
                            source,
                        ),
                    ),
                    ..run
                },
                Phase::AssessingEvidence,
                RequestView::AssessEvidence,
            )
        } else {
            unexpected(run)
        },
        (Phase::AssessingEvidence, Reply::Heads(heads)) => on_assessed(ctx, run, tool, heads@),
        (Phase::ClearingReplan, Reply::Done) => let_through(run, tool),
        (Phase::HoldingReplan, Reply::Done) => ask(
            run,
            Phase::ReloadingHeld,
            RequestView::LoadSession,
        ),
        (Phase::ReloadingHeld, Reply::MaybeSession(state)) => on_held(ctx, run, state),
        (Phase::MarkingHeld, Reply::Done) => finish(
            run,
            OutcomeView::ToolAboutToRun(GateView::Replan(run.reason), run.inject),
        ),
        (Phase::RecordingProposal, Reply::Done) => ask(
            run,
            Phase::RecordingBaseline,
            RequestView::RecordBaseline,
        ),
        (Phase::RecordingBaseline, Reply::Done) => finish(
            run,
            OutcomeView::ToolAboutToRun(GateView::NoVeto, run.inject),
        ),
        _ => unexpected(run),
    }
}

// ---------------------------------------------------------------------------
// After a tool ran
// ---------------------------------------------------------------------------

/// On to the evidence, where the action can have changed it.
pub open spec fn then_evidence(run: RunView, tool: ToolFinished) -> StepView {
    if impact::can_affect_evidence(tool.action.kind) {
        ask(run, Phase::GatheringImpact, RequestView::GatherImpact)
    } else {
        finish(run, OutcomeView::ToolFinished(run.feedback))
    }
}

/// Hold the session, with feedback.
pub open spec fn hold_with(run: RunView, feedback: FeedbackView, hold: HoldView) -> StepView {
    ask(
        RunView { feedback: run.feedback.push(feedback), ..run },
        Phase::SettlingHold,
        RequestView::SetHold { hold },
    )
}

/// With the action judged after the fact.
pub open spec fn on_judged(run: RunView, tool: ToolFinished, judged: DecisionView) -> StepView {
    let run = RunView { feedback: decision::feedback_of(judged), ..run };
    if tool.status == ToolStatus::Failed || !repair::needs_baseline(tool.action.kind) {
        then_evidence(run, tool)
    } else {
        ask(run, Phase::EnsuringSession, RequestView::EnsureSession)
    }
}

/// With the change that was let through, if there is one.
pub open spec fn on_proposal(
    run: RunView,
    tool: ToolFinished,
    proposal: Option<StoredProposal>,
) -> StepView {
    match proposal {
        None => hold_with(
            run,
            (
                FeedbackSeverity::Warning,
                "Project Brain 缺少对应的 PreTool 提案；已进入 verify_required。"@,
            ),
            HoldView::MissingProposal {
                declared_targets: order::sorted_set_of(repair::named_paths(tool.action)),
            },
        ),
        Some(proposal) => ask(
            RunView { proposal: Some(proposal), ..run },
            Phase::Observing,
            RequestView::ObserveChange,
        ),
    }
}

/// The paths that a proposed change may touch.
pub open spec fn expected_paths(action: ToolAction) -> Seq<Seq<char>> {
    match action.proposed_change {
        Some(change) => text::views(change.target_files@),
        None => order::sorted_set_of(repair::named_paths(action)),
    }
}

/// With what the change did, if it can be told.
pub open spec fn on_observed(run: RunView, observed: Option<Seq<Seq<char>>>) -> StepView {
    match (run.proposal, observed) {
        (Some(proposal), None) => hold_with(
            run,
            (
                FeedbackSeverity::Warning,
                "Project Brain 无法可靠计算本次实际 diff；已进入 verify_required，停止前必须补充验证证据。"@,
            ),
            HoldView::MissingBaseline {
                declared_targets: order::sorted_set_of(repair::named_paths(proposal.action)),
            },
        ),
        (Some(proposal), Some(observed)) => {
            let right = expected_paths(proposal.action);
            ask(
                RunView { left: observed, right, ..run },
                Phase::NormalizingObserved,
                RequestView::NormalizePaths { paths: observed + right },
            )
        },
        _ => unexpected(run),
    }
}

/// The first paths of a list that no expected path contains or is contained
/// in.
pub open spec fn unrelated(
    paths: Seq<Seq<char>>,
    n: nat,
    expected: int,
    relation: PathRelation,
) -> Seq<Seq<char>>
    decreases n,
{
    if n == 0 {
        Seq::empty()
    } else {
        let before = unrelated(paths, (n - 1) as nat, expected, relation);
        if relation.related_to_any(n - 1, expected) {
            before
        } else {
            before.push(paths[n - 1])
        }
    }
}

/// With what changed held against what was proposed.
pub open spec fn on_compared(
    run: RunView,
    tool: ToolFinished,
    relation: PathRelation,
) -> StepView {
    let beyond = unrelated(run.left, run.left.len(), run.right.len() as int, relation);
    match (run.proposal, run.state) {
        (Some(proposal), Some(state)) => if beyond.len() > 0 {
            hold_with(
                run,
                (
                    FeedbackSeverity::Error,
                    "Project Brain 检测到提案之外的实际变更："@ + text::joined(beyond, ", "@)
                        + "。已暂停无关写入，下一模型步骤必须先修复。"@,
                ),
                HoldView::Deviation {
                    proposal_digest: proposal.proposal_digest@,
                    expected_paths: run.right,
                    observed_paths: run.left,
                    unexpected_paths: beyond,
                },
            )
        } else if repair_required(state) && repair::mutates(proposal.action.kind)
            && held_paths(state).len() > 0 {
            compare_to_repair(
                run,
                proposal.action,
                held_paths(state),
                Phase::NormalizingResolved,
            )
        } else {
            then_evidence(run, tool)
        },
        _ => unexpected(run),
    }
}

/// With the proposed change held against the repair that waited.
pub open spec fn on_resolved(
    run: RunView,
    tool: ToolFinished,
    relation: PathRelation,
) -> StepView {
    match run.proposal {
        Some(proposal) => if repair::addresses_repair(
            proposal.action.kind,
            run.left.len() as int,
            run.right.len() as int,
            relation,
        ) {
            ask(
                RunView {
                    feedback: run.feedback.push(
                        (
                            FeedbackSeverity::Info,
                            "Project Brain 已用本次实际 diff 确认修复范围未再外溢，repair_required 已解除。"@,
                        ),
                    ),
                    ..run
                },
                Phase::SettlingHold,
                RequestView::ClearHold,
            )
        } else {
            then_evidence(run, tool)
        },
        None => unexpected(run),
    }
}

/// With the evidence and the source around the action.
pub open spec fn on_impact(
    ctx: HookContext,
    run: RunView,
    tool: ToolFinished,
    heads: Seq<ImpactHead>,
    source: ImpactSource,
    final_source: SourceView,
) -> StepView {
    if !impact::can_affect_evidence(tool.action.kind) || impact::fresh_heads(heads).len() == 0 {
        finish(run, OutcomeView::ToolFinished(run.feedback))
    } else if impact::baseline_corrupt(source) {
        fail(
            run,
            ErrorView::Provider("Source operation baseline fingerprint 与状态内容不一致"@),
        )
    } else {
        let plan = impact::plan_of(
            heads,
            source,
            final_source,
            tool.action,
            tool.status,
            ctx.event.event_id@,
            tool.operation_id@,
        );
        ask(
            RunView {
                stale: impact::count_of(plan.transitions, EvidenceFreshness::Stale),
                unknown: impact::count_of(plan.transitions, EvidenceFreshness::Unknown),
                ..run
            },
            Phase::ApplyingPlan,
            RequestView::ApplyPlan { plan },
        )
    }
}

/// With the plan carried out.
pub open spec fn on_applied(run: RunView, marked: u64, preserved: u64) -> StepView {
    if marked > 0 {
        finish(
            run,
            OutcomeView::ToolFinished(
                run.feedback.push(
                    (
                        FeedbackSeverity::Warning,
                        impact::plan_feedback(
                            run.stale,
                            run.unknown,
                            marked as nat,
                            preserved as nat,
                        ),
                    ),
                ),
            ),
        )
    } else {
        finish(run, OutcomeView::ToolFinished(run.feedback))
    }
}

/// A reply after a tool ran.
pub open spec fn next_finished(
    ctx: HookContext,
    run: RunView,
    tool: ToolFinished,
    reply: Reply,
) -> StepView {
    match (run.phase, reply) {
        (
            Phase::AssessingFinished,
            Reply::Assessment { path_decision, rule_paths, resolutions, source },
        ) => if symbols::shapes_fit(ctx.rules@, rule_paths@, resolutions@) {
            on_judged(
                run,
                tool,
                decision_on(
                    ctx,
                    tool.action,
                    tool.tool_name@,
                    path_decision,
                    rule_paths@,
                    resolutions@,
                    source,
                ),
            )
        } else {
            unexpected(run)
        },
        (Phase::EnsuringSession, Reply::Session(state)) => ask(
            RunView { state: Some(state), ..run },
            Phase::LoadingProposal,
            RequestView::LoadProposal,
        ),
        (Phase::LoadingProposal, Reply::Proposal(proposal)) => on_proposal(run, tool, proposal),
        (Phase::Observing, Reply::Observed(observed)) => on_observed(
            run,
            match observed {
                Some(paths) => Some(text::views(paths@)),
                None => None,
            },
        ),
        (Phase::NormalizingObserved, Reply::Paths(paths)) => on_normalized(
            ctx,
            run,
            text::views(paths@),
            Phase::RelatingObserved,
        ),
        (Phase::RelatingObserved, Reply::Relation(relation)) => on_compared(run, tool, relation),
        (Phase::NormalizingResolved, Reply::Paths(paths)) => on_normalized(
            ctx,
            run,
            text::views(paths@),
            Phase::RelatingResolved,
        ),
        (Phase::RelatingResolved, Reply::Relation(relation)) => on_resolved(run, tool, relation),
        (Phase::SettlingHold, Reply::Done) => then_evidence(run, tool),
        (Phase::GatheringImpact, Reply::Impact { heads, source, final_source }) => on_impact(
            ctx,
            run,
            tool,
            heads@,
            source,
            final_source@,
        ),
        (Phase::ApplyingPlan, Reply::Applied { marked, preserved }) => on_applied(
            run,
            marked,
            preserved,
        ),
        _ => unexpected(run),
    }
}

// ---------------------------------------------------------------------------
// Before work stops
// ---------------------------------------------------------------------------

/// Work stops or goes on, once the evidence is read.
pub open spec fn settle_stop(
    run: RunView,
    stop: StopView,
    feedback: Seq<FeedbackView>,
) -> StepView {
    ask(
        RunView { stop, feedback, ..run },
        Phase::AssessingAtStop,
        RequestView::AssessEvidence,
    )
}

/// With the session read: a deviation that waits keeps work going, except in
/// an agent that is already being kept at work.
pub open spec fn on_loaded_to_stop(
    run: RunView,
    vendor_loop_active: bool,
    session: Option<ControlSessionState>,
) -> StepView {
    if vendor_loop_active {
        settle_stop(run, StopView::AllowStop, Seq::empty())
    } else {
        match session {
            Some(state) => match state.outstanding_kind {
                Some(kind) => settle_stop(
                    run,
                    StopView::ContinueWork(
                        "Project Brain active-control 尚未闭环："@ + kind@
                            + "。必须先处理已交付的纠偏状态并用实际 diff/验证证明完成。"@,
                    ),
                    seq![
                        (
                            FeedbackSeverity::Error,
                            match state.outstanding_json {
                                Some(payload) => payload@,
                                None => Seq::empty(),
                            },
                        ),
                    ],
                ),
                None => ask(run, Phase::GatheringStop, RequestView::GatherStop),
            },
            None => ask(run, Phase::GatheringStop, RequestView::GatherStop),
        }
    }
}

/// The reconciliation, where there is one, was passed.
pub open spec fn reconciled(enabled: bool, report: Result<ReconcileReport, String>) -> bool {
    !enabled || match report {
        Ok(report) => report.decision == reconcile::ReconcileDecision::Allow,
        Err(_) => false,
    }
}

/// With everything there that stopping depends on; the symbol rules are held
/// against the changes only once the reconciliation was passed.
pub open spec fn on_stop_gathered(
    ctx: HookContext,
    run: RunView,
    finding_heads: Result<Vec<FindingHead>, String>,
    scopes: Seq<Vec<StopScope>>,
    head: Option<Seq<char>>,
    report: Result<ReconcileReport, String>,
) -> StepView {
    let found = findings::finding_stop(ctx.finding_effect_mappings@, finding_heads);
    let enabled = ctx.stop_reconcile.enabled;
    if !reconciled(enabled, report) {
        let (stop, feedback) = reconcile::stop_of(
            false,
            enabled,
            report,
            symbols::no_stop_findings(),
            found,
        );
        settle_stop(run, stop, feedback)
    } else if symbols::stop_shapes_fit(ctx.rules@, scopes) {
        let (stop, feedback) = reconcile::stop_of(
            false,
            enabled,
            report,
            symbols::all_stop_findings(
                ctx.rules@,
                scopes,
                ctx.rules@.len(),
                ctx.stop_reconcile.base@,
                head,
                ctx.provider_trust@,
            ),
            found,
        );
        settle_stop(run, stop, feedback)
    } else {
        unexpected(run)
    }
}

/// A reply before work stops.
pub open spec fn next_stopping(
    ctx: HookContext,
    run: RunView,
    vendor_loop_active: bool,
    reply: Reply,
) -> StepView {
    match (run.phase, reply) {
        (Phase::LoadingToStop, Reply::MaybeSession(session)) => on_loaded_to_stop(
            run,
            vendor_loop_active,
            session,
        ),
        (Phase::GatheringStop, Reply::Stop { finding_heads, scopes, head, report }) =>
            on_stop_gathered(
            ctx,
            run,
            finding_heads,
            scopes@,
            model::opt_view(head),
            report,
        ),
        (Phase::AssessingAtStop, Reply::Heads(heads)) => finish(
            run,
            OutcomeView::TaskStopping(
                run.stop,
                run.feedback + control::warnings(control::head_messages(heads@, false)),
            ),
        ),
        _ => unexpected(run),
    }
}

// ---------------------------------------------------------------------------
// The run
// ---------------------------------------------------------------------------

/// A reply to a run that tells a session something.
pub open spec fn next_telling(ctx: HookContext, run: RunView, reply: Reply) -> StepView {
    match (run.phase, reply) {
        (Phase::Opening, Reply::Done) => ask(
            run,
            Phase::SyncingToTell,
            RequestView::SyncContext { digest: context_digest(ctx) },
        ),
        (Phase::SyncingToTell, Reply::Session(state)) => on_synced_to_tell(ctx, run, state),
        (Phase::Gathering, Reply::Context { claims, heads }) => on_gathered(
            ctx,
            run,
            claims@,
            heads@,
        ),
        (Phase::Marking, Reply::Done) => finish(run, told(ctx.event.payload, run.inject)),
        _ => unexpected(run),
    }
}

/// How a run begins.
pub open spec fn first(ctx: HookContext) -> StepView {
    match ctx.event.payload {
        HookEventPayload::SessionOpened(opened) => (
            fresh_run(Phase::Opening),
            RequestView::OpenSession {
                parent: model::opt_view(opened.parent_session_key),
                origin: control::origin_name(opened.origin),
                depth: opened.delegation_depth,
            },
        ),
        HookEventPayload::IntentDeclared(intent) => (
            fresh_run(Phase::Opening),
            RequestView::DeclareGoal {
                text: intent.text@,
                digest: control::labelled(
                    "project-brain/raw-goal/v1"@,
                    vstd::utf8::encode_utf8(intent.text@),
                ),
            },
        ),
        HookEventPayload::ContextRequested => (
            fresh_run(Phase::SyncingToTell),
            RequestView::SyncContext { digest: context_digest(ctx) },
        ),
        HookEventPayload::ToolAboutToRun(_) => (
            fresh_run(Phase::SyncingTool),
            RequestView::SyncContext { digest: context_digest(ctx) },
        ),
        HookEventPayload::ToolFinished(_) => (
            fresh_run(Phase::AssessingFinished),
            RequestView::AssessAction,
        ),
        HookEventPayload::TaskStopping(_) => (
            fresh_run(Phase::LoadingToStop),
            RequestView::LoadSession,
        ),
    }
}

/// How a run goes on with a reply.
pub open spec fn next(ctx: HookContext, run: RunView, reply: Reply) -> StepView {
    match ctx.event.payload {
        HookEventPayload::ToolAboutToRun(tool) => next_about_to_run(ctx, run, tool, reply),
        HookEventPayload::ToolFinished(tool) => next_finished(ctx, run, tool, reply),
        HookEventPayload::TaskStopping(stopping) => next_stopping(
            ctx,
            run,
            stopping.vendor_loop_active,
            reply,
        ),
        _ => next_telling(ctx, run, reply),
    }
}


// ---------------------------------------------------------------------------
// Running
// ---------------------------------------------------------------------------

/// The action of an event as the path rules are held against it.
pub fn action_descriptor(ctx: &HookContext, action: &ToolAction, tool_name: &str) -> (r:
    ActionDescriptor)
    ensures
        r@ == described(*action, tool_name@),
        r.schema_version == ctx.schema_version,
        r.event_id@ == ctx.event.event_id@,
        r.session_id@ == ctx.event.session_key@,
        r.cwd@ == ctx.event.cwd@,
{
    ActionDescriptor {
        schema_version: ctx.schema_version,
        event_id: ctx.event.event_id.clone(),
        session_id: ctx.event.session_key.clone(),
        cwd: ctx.event.cwd.clone(),
        action: action.kind,
        operation: tool_name.to_owned(),
        target_files: text::clone_texts(&action.target_files),
        command: model::clone_opt(&action.command),
    }
}

/// One list of texts after another.
fn both_lists(a: &Vec<String>, b: &Vec<String>) -> (r: Vec<String>)
    ensures
        text::views(r@) == text::views(a@) + text::views(b@),
{
    let mut out = text::clone_texts(a);
    let mut more = text::clone_texts(b);
    let ghost x = out@;
    let ghost y = more@;
    out.append(&mut more);
    assert(text::views(x + y) =~= text::views(x) + text::views(y));
    out
}

/// Part of a list of texts.
fn part_of_list(v: &Vec<String>, from: usize, to: usize) -> (r: Vec<String>)
    requires
        from <= to <= v@.len(),
    ensures
        text::views(r@) == text::views(v@).subrange(from as int, to as int),
{
    let mut out: Vec<String> = Vec::new();
    let mut i: usize = from;
    while i < to
        invariant
            from <= i <= to <= v@.len(),
            out@.len() == i - from,
            forall|j: int| 0 <= j < i - from ==> (#[trigger] out@[j])@ == v@[j + from]@,
        decreases to - i,
    {
        out.push(v[i].clone());
        i = i + 1;
    }
    assert(text::views(out@) =~= text::views(v@).subrange(from as int, to as int));
    out
}

/// A list of context items after another.
fn both_contexts(a: Vec<ContextItem>, b: Vec<ContextItem>) -> (r: Vec<ContextItem>)
    ensures
        model::context_texts(r@) == model::context_texts(a@) + model::context_texts(b@),
{
    let mut out = a;
    let mut more = b;
    out.append(&mut more);
    assert(model::context_texts(out@) =~= model::context_texts(a@) + model::context_texts(b@));
    out
}

fn push_feedback(feedback: &mut Vec<FeedbackItem>, severity: FeedbackSeverity, line: String)
    ensures
        model::feedback_views(final(feedback)@) == model::feedback_views(old(feedback)@).push(
            (severity, line@),
        ),
{
    let ghost before = feedback@;
    feedback.push(FeedbackItem { severity, text: line });
    assert(model::feedback_views(feedback@) =~= model::feedback_views(before).push(
        (severity, line@),
    ));
}

fn is_repair_required(state: &ControlSessionState) -> (r: bool)
    ensures
        r == repair_required(*state),
{
    model::opt_is(&state.outstanding_kind, "repair_required")
}

fn tell_state(ctx: &HookContext, state: &ControlSessionState) -> (r: Vec<ContextItem>)
    ensures
        model::context_texts(r@) == seq![state_text(*ctx, *state)],
{
    control::control_context_items(
        ctx.project_name.as_str(),
        ctx.project_key.as_str(),
        &ctx.rules,
        state,
    )
}

/// Whether the replies fit the rules.
fn do_shapes_fit(
    rules: &Vec<Rule>,
    rule_paths: &Vec<RulePaths>,
    resolutions: &Vec<Vec<Result<SemanticResolution, String>>>,
) -> (r: bool)
    ensures
        r == symbols::shapes_fit(rules@, rule_paths@, resolutions@),
{
    if rule_paths.len() != rules.len() || resolutions.len() != rules.len() {
        return false;
    }
    let mut i: usize = 0;
    while i < rules.len()
        invariant
            i <= rules@.len(),
            rule_paths@.len() == rules@.len(),
            resolutions@.len() == rules@.len(),
            forall|j: int|
                0 <= j < i ==> (#[trigger] resolutions@[j])@.len()
                    == rules@[j].symbol_scopes@.len(),
        decreases rules@.len() - i,
    {
        if resolutions[i].len() != rules[i].symbol_scopes.len() {
            assert(resolutions@[i as int]@.len() != rules@[i as int].symbol_scopes@.len());
            return false;
        }
        i = i + 1;
    }
    true
}

fn do_stop_shapes_fit(rules: &Vec<Rule>, scopes: &Vec<Vec<StopScope>>) -> (r: bool)
    ensures
        r == symbols::stop_shapes_fit(rules@, scopes@),
{
    if scopes.len() != rules.len() {
        return false;
    }
    let mut i: usize = 0;
    while i < rules.len()
        invariant
            i <= rules@.len(),
            scopes@.len() == rules@.len(),
            forall|j: int|
                0 <= j < i ==> (#[trigger] scopes@[j])@.len() == rules@[j].symbol_scopes@.len(),
        decreases rules@.len() - i,
    {
        if scopes[i].len() != rules[i].symbol_scopes.len() {
            assert(scopes@[i as int]@.len() != rules@[i as int].symbol_scopes@.len());
            return false;
        }
        i = i + 1;
    }
    true
}

/// What the rules decide on an action: the path rules and the symbol rules
/// together.
pub fn evaluate_action(
    ctx: &HookContext,
    action: &ToolAction,
    tool_name: &str,
    path_decision: Decision,
    rule_paths: &Vec<RulePaths>,
    resolutions: &Vec<Vec<Result<SemanticResolution, String>>>,
    source: &Option<SourceState>,
) -> (r: Decision)
    requires
        symbols::shapes_fit(ctx.rules@, rule_paths@, resolutions@),
    ensures
        r@ == decision_on(
            *ctx,
            *action,
            tool_name@,
            path_decision,
            rule_paths@,
            resolutions@,
            *source,
        ),
{
    let descriptor = action_descriptor(ctx, action, tool_name);
    let semantic = symbols::evaluate_symbol_rules(
        ctx.schema_version,
        &ctx.rules,
        rule_paths,
        resolutions,
        &ctx.provider_trust,
        source,
        &descriptor,
        action,
    );
    decision::merge_decisions(path_decision, semantic)
}

fn unrelated_paths(paths: &Vec<String>, expected: usize, relation: &PathRelation) -> (r: Vec<
    String,
>)
    ensures
        text::views(r@) == unrelated(
            text::views(paths@),
            paths@.len(),
            expected as int,
            *relation,
        ),
{
    let mut out: Vec<String> = Vec::new();
    let mut i: usize = 0;
    assert(text::views(out@) =~= Seq::<Seq<char>>::empty());
    while i < paths.len()
        invariant
            i <= paths@.len(),
            text::views(out@) == unrelated(
                text::views(paths@),
                i as nat,
                expected as int,
                *relation,
            ),
        decreases paths@.len() - i,
    {
        if !relation.is_related_to_any(i, expected) {
            let ghost before = out@;
            out.push(paths[i].clone());
            assert(text::views(out@) =~= text::views(before).push(paths@[i as int]@));
        }
        i = i + 1;
    }
    out
}

/// The next step of a run.
pub type Step = (HookRun, Request);

/// What a step says.
pub open spec fn step_view(step: Step) -> StepView {
    (step.0@, step.1@)
}

fn do_finish(run: HookRun, payload: HookOutcomePayload) -> (r: Step)
    ensures
        step_view(r) == finish(run@, payload@),
{
    let mut run = run;
    run.phase = Phase::Finished;
    (run, Request::Finish { payload })
}

fn do_fail(run: HookRun, error: AppError) -> (r: Step)
    ensures
        step_view(r) == fail(run@, error@),
{
    let mut run = run;
    run.phase = Phase::Finished;
    (run, Request::Fail { error })
}

fn do_ask(run: HookRun, phase: Phase, request: Request) -> (r: Step)
    ensures
        step_view(r) == ask(run@, phase, request@),
{
    let mut run = run;
    run.phase = phase;
    (run, request)
}

fn not_expected(run: HookRun) -> (r: Step)
    ensures
        step_view(r) == unexpected(run@),
{
    do_fail(run, AppError::UnexpectedReply)
}

fn finish_feedback(run: HookRun) -> (r: Step)
    ensures
        step_view(r) == finish(run@, OutcomeView::ToolFinished(run@.feedback)),
{
    let feedback = copy_feedback(&run.feedback);
    do_finish(run, HookOutcomePayload::ToolFinished { feedback })
}

fn copy_feedback(feedback: &Vec<FeedbackItem>) -> (r: Vec<FeedbackItem>)
    ensures
        model::feedback_views(r@) == model::feedback_views(feedback@),
{
    let mut out: Vec<FeedbackItem> = Vec::new();
    let mut i: usize = 0;
    while i < feedback.len()
        invariant
            i <= feedback@.len(),
            out@.len() == i,
            forall|j: int|
                0 <= j < i ==> (#[trigger] out@[j]).severity == feedback@[j].severity
                    && out@[j].text@ == feedback@[j].text@,
        decreases feedback@.len() - i,
    {
        out.push(
            FeedbackItem { severity: feedback[i].severity, text: feedback[i].text.clone() },
        );
        i = i + 1;
    }
    assert(model::feedback_views(out@) =~= model::feedback_views(feedback@));
    out
}

fn copy_context(items: &Vec<ContextItem>) -> (r: Vec<ContextItem>)
    ensures
        model::context_texts(r@) == model::context_texts(items@),
{
    let mut out: Vec<ContextItem> = Vec::new();
    let mut i: usize = 0;
    while i < items.len()
        invariant
            i <= items@.len(),
            out@.len() == i,
            forall|j: int| 0 <= j < i ==> (#[trigger] out@[j]).text@ == items@[j].text@,
        decreases items@.len() - i,
    {
        out.push(ContextItem { text: items[i].text.clone() });
        i = i + 1;
    }
    assert(model::context_texts(out@) =~= model::context_texts(items@));
    out
}

fn do_deliver(run: HookRun, phase: Phase) -> (r: Step)
    ensures
        step_view(r) == deliver(run@, phase),
{
    match control::mark_context_delivery(&run.inject) {
        Some(digest) => do_ask(run, phase, Request::MarkDelivered { digest }),
        None => not_expected(run),
    }
}

fn do_tell(ctx: &HookContext, run: HookRun) -> (r: Step)
    ensures
        step_view(r) == finish(run@, told(ctx.event.payload, run@.inject)),
{
    let inject = copy_context(&run.inject);
    let payload = match &ctx.event.payload {
        HookEventPayload::SessionOpened(_) => HookOutcomePayload::SessionOpened { inject },
        HookEventPayload::IntentDeclared(_) => HookOutcomePayload::IntentDeclared {
            gate: GateDecision::NoVeto,
            inject,
        },
        _ => HookOutcomePayload::ContextRequested { inject },
    };
    do_finish(run, payload)
}

fn do_gathered(
    ctx: &HookContext,
    run: HookRun,
    claims: &Vec<AgentClaim>,
    heads: &Vec<AssessedHead>,
) -> (r: Step)
    ensures
        step_view(r) == on_gathered(*ctx, run@, claims@, heads@),
{
    let mut run = run;
    let told_state = match &run.state {
        Some(state) => tell_state(ctx, state),
        None => {
            return not_expected(run);
        },
    };
    let with_fresh = matches!(ctx.event.payload, HookEventPayload::SessionOpened(_));
    let claimed = control::agent_claim_context(claims);
    let evidence = control::evidence_context(heads, with_fresh);
    run.inject = both_contexts(both_contexts(told_state, claimed), evidence);
    do_deliver(run, Phase::Marking)
}

fn do_next_telling(ctx: &HookContext, run: HookRun, reply: Reply) -> (r: Step)
    ensures
        step_view(r) == next_telling(*ctx, run@, reply),
{
    match (run.phase, reply) {
        (Phase::Opening, Reply::Done) => {
            let digest = control::project_context_digest(&ctx.context_canonical);
            do_ask(run, Phase::SyncingToTell, Request::SyncContext { digest })
        },
        (Phase::SyncingToTell, Reply::Session(state)) => {
            if matches!(ctx.event.payload, HookEventPayload::ContextRequested)
                && !control::control_delivery_needed(&state) {
                let inject: Vec<ContextItem> = Vec::new();
                assert(model::context_texts(inject@) =~= Seq::<Seq<char>>::empty());
                return do_finish(run, HookOutcomePayload::ContextRequested { inject });
            }
            let mut run = run;
            run.state = Some(state);
            do_ask(run, Phase::Gathering, Request::GatherContext)
        },
        (Phase::Gathering, Reply::Context { claims, heads }) => {
            do_gathered(ctx, run, &claims, &heads)
        },
        (Phase::Marking, Reply::Done) => do_tell(ctx, run),
        _ => not_expected(run),
    }
}

fn do_send_back(ctx: &HookContext, run: HookRun) -> (r: Step)
    ensures
        step_view(r) == send_back(*ctx, run@),
{
    let inject = match &run.state {
        Some(state) => tell_state(ctx, state),
        None => {
            return not_expected(run);
        },
    };
    let gate = GateDecision::Replan {
        reason: "存在尚未由实际 diff 证明修复的偏差；当前写入与修复范围无关，必须先纠偏".to_owned(),
    };
    do_finish(run, HookOutcomePayload::ToolAboutToRun { gate, inject })
}

fn do_compare_to_repair(run: HookRun, action: &ToolAction, repairs: Vec<String>, phase: Phase) -> (r:
    Step)
    ensures
        step_view(r) == compare_to_repair(run@, *action, text::views(repairs@), phase),
{
    let mut run = run;
    run.left = repair::mutation_paths(action);
    run.right = repairs;
    let paths = both_lists(&run.left, &run.right);
    do_ask(run, phase, Request::NormalizePaths { paths })
}

fn do_synced_tool(
    ctx: &HookContext,
    run: HookRun,
    tool: &ToolAboutToRun,
    state: ControlSessionState,
) -> (r: Step)
    ensures
        step_view(r) == on_synced_tool(*ctx, run@, *tool, state),
{
    let mut run = run;
    let required = is_repair_required(&state);
    let repairs = repair::repair_paths(&state.outstanding_json);
    run.state = Some(state);
    if !required || repair::repair_inspection_action(&tool.action) {
        do_ask(run, Phase::AssessingTool, Request::AssessAction)
    } else if repair::explicit_mutation(&tool.action) && repairs.len() > 0 {
        do_compare_to_repair(run, &tool.action, repairs, Phase::NormalizingRepair)
    } else {
        do_send_back(ctx, run)
    }
}

fn do_normalized(ctx: &HookContext, run: HookRun, paths: &Vec<String>, phase: Phase) -> (r: Step)
    ensures
        step_view(r) == on_normalized(*ctx, run@, text::views(paths@), phase),
{
    let n: usize = run.left.len();
    if paths.len() < n || paths.len() - n != run.right.len() {
        return not_expected(run);
    }
    let first_part = part_of_list(paths, 0, n);
    let second_part = part_of_list(paths, n, paths.len());
    assert(text::views(paths@).take(n as int) =~= text::views(first_part@));
    assert(text::views(paths@).skip(n as int) =~= text::views(second_part@));
    let left = paths::make_all_relative(ctx.root.as_str(), &first_part, ctx.ignore_case);
    let right = paths::make_all_relative(ctx.root.as_str(), &second_part, ctx.ignore_case);
    let mut run = run;
    run.left = text::clone_texts(&left);
    run.right = text::clone_texts(&right);
    do_ask(run, phase, Request::RelatePaths { left, right })
}

fn do_let_through(run: HookRun, tool: &ToolAboutToRun) -> (r: Step)
    ensures
        step_view(r) == let_through(run@, *tool),
{
    if repair::pre_action_may_mutate_source(&tool.action) {
        let digest = run.digest.clone();
        do_ask(run, Phase::RecordingProposal, Request::RecordProposal { digest })
    } else {
        finish_tool(run, GateDecision::NoVeto)
    }
}

fn finish_tool(run: HookRun, gate: GateDecision) -> (r: Step)
    ensures
        step_view(r) == finish(run@, OutcomeView::ToolAboutToRun(gate@, run@.inject)),
{
    let inject = copy_context(&run.inject);
    do_finish(run, HookOutcomePayload::ToolAboutToRun { gate, inject })
}

fn finish_replan(run: HookRun) -> (r: Step)
    ensures
        step_view(r) == finish(
            run@,
            OutcomeView::ToolAboutToRun(GateView::Replan(run@.reason), run@.inject),
        ),
{
    let reason = run.reason.clone();
    finish_tool(run, GateDecision::Replan { reason })
}

fn do_assessed(
    ctx: &HookContext,
    run: HookRun,
    tool: &ToolAboutToRun,
    heads: &Vec<AssessedHead>,
) -> (r: Step)
    ensures
        step_view(r) == on_assessed(*ctx, run@, *tool, heads@),
{
    let mut run = run;
    if run.state.is_none() {
        return not_expected(run);
    }
    let decision = match run.decision.take() {
        Some(decision) => decision,
        None => {
            return not_expected(run);
        },
    };
    run.digest = repair::action_proposal_digest(&tool.action, &tool.action_json);
    run.inject = both_contexts(
        decision::context_from_decision(&decision),
        control::evidence_context(heads, false),
    );
    if decision.decision != DecisionKind::RequireReview {
        let gate = decision::gate_from_decision(&decision);
        if matches!(gate, GateDecision::NoVeto) {
            return do_let_through(run, tool);
        }
        return finish_tool(run, gate);
    }
    let matched = match &run.state {
        Some(state) => repair::delivered_replan_matches(
            &state.outstanding_kind,
            state.outstanding_delivered,
            &state.outstanding_json,
            run.digest.as_str(),
        ),
        None => false,
    };
    if matched {
        return do_ask(run, Phase::ClearingReplan, Request::ClearHold);
    }
    run.reason = decision::decision_reason(&decision);
    let hold = HoldRecord::Replan {
        proposal_digest: run.digest.clone(),
        target_files: text::clone_texts(&tool.action.target_files),
        decision,
    };
    do_ask(run, Phase::HoldingReplan, Request::SetHold { hold })
}

fn do_held(ctx: &HookContext, run: HookRun, state: &Option<ControlSessionState>) -> (r: Step)
    ensures
        step_view(r) == on_held(*ctx, run@, *state),
{
    match state {
        Some(state) => {
            let mut run = run;
            run.inject = tell_state(ctx, state);
            if ctx.event.adapter.kind == AdapterKind::Dsh {
                finish_replan(run)
            } else {
                do_deliver(run, Phase::MarkingHeld)
            }
        },
        None => do_fail(run, AppError::Provider("控制会话丢失".to_owned())),
    }
}

fn do_next_about_to_run(
    ctx: &HookContext,
    run: HookRun,
    tool: &ToolAboutToRun,
    reply: Reply,
) -> (r: Step)
    ensures
        step_view(r) == next_about_to_run(*ctx, run@, *tool, reply),
{
    match (run.phase, reply) {
        (Phase::SyncingTool, Reply::Session(state)) => do_synced_tool(ctx, run, tool, state),
        (Phase::NormalizingRepair, Reply::Paths(paths)) => {
            do_normalized(ctx, run, &paths, Phase::RelatingRepair)
        },
        (Phase::RelatingRepair, Reply::Relation(relation)) => {
            if repair::action_addresses_repair(&tool.action, &run.left, &run.right, &relation) {
                do_ask(run, Phase::AssessingTool, Request::AssessAction)
            } else {
                do_send_back(ctx, run)
            }
        },
        (
            Phase::AssessingTool,
            Reply::Assessment { path_decision, rule_paths, resolutions, source },
        ) => {
            if !do_shapes_fit(&ctx.rules, &rule_paths, &resolutions) {
                return not_expected(run);
            }
            let mut run = run;
            run.decision = Some(
                evaluate_action(
                    ctx,
                    &tool.action,
                    tool.tool_name.as_str(),
                    path_decision,
                    &rule_paths,
                    &resolutions,
                    &source,
                ),
            );
            do_ask(run, Phase::AssessingEvidence, Request::AssessEvidence)
        },
        (Phase::AssessingEvidence, Reply::Heads(heads)) => do_assessed(ctx, run, tool, &heads),
        (Phase::ClearingReplan, Reply::Done) => do_let_through(run, tool),
        (Phase::HoldingReplan, Reply::Done) => {
            do_ask(run, Phase::ReloadingHeld, Request::LoadSession)
        },
        (Phase::ReloadingHeld, Reply::MaybeSession(state)) => do_held(ctx, run, &state),
        (Phase::MarkingHeld, Reply::Done) => finish_replan(run),
        (Phase::RecordingProposal, Reply::Done) => {
            do_ask(run, Phase::RecordingBaseline, Request::RecordBaseline)
        },
        (Phase::RecordingBaseline, Reply::Done) => finish_tool(run, GateDecision::NoVeto),
        _ => not_expected(run),
    }
}

fn do_then_evidence(run: HookRun, tool: &ToolFinished) -> (r: Step)
    ensures
        step_view(r) == then_evidence(run@, *tool),
{
    if repair::explicit_mutation(&tool.action) || repair::opaque_action_may_mutate_source(
        &tool.action,
    ) {
        do_ask(run, Phase::GatheringImpact, Request::GatherImpact)
    } else {
        finish_feedback(run)
    }
}

fn do_hold(run: HookRun, severity: FeedbackSeverity, line: String, hold: HoldRecord) -> (r: Step)
    ensures
        step_view(r) == hold_with(run@, (severity, line@), hold@),
{
    let mut run = run;
    push_feedback(&mut run.feedback, severity, line);
    do_ask(run, Phase::SettlingHold, Request::SetHold { hold })
}

fn do_judged(run: HookRun, tool: &ToolFinished, judged: &Decision) -> (r: Step)
    ensures
        step_view(r) == on_judged(run@, *tool, judged@),
{
    let mut run = run;
    run.feedback = decision::feedback_from_decision(judged);
    if tool.status == ToolStatus::Failed || !repair::pre_action_may_mutate_source(&tool.action) {
        do_then_evidence(run, tool)
    } else {
        do_ask(run, Phase::EnsuringSession, Request::EnsureSession)
    }
}

fn do_proposal(run: HookRun, tool: &ToolFinished, proposal: Option<StoredProposal>) -> (r: Step)
    ensures
        step_view(r) == on_proposal(run@, *tool, proposal),
{
    match proposal {
        None => do_hold(
            run,
            FeedbackSeverity::Warning,
            "Project Brain 缺少对应的 PreTool 提案；已进入 verify_required。".to_owned(),
            HoldRecord::MissingProposal {
                declared_targets: repair::mutation_paths(&tool.action),
            },
        ),
        Some(proposal) => {
            let mut run = run;
            run.proposal = Some(proposal);
            do_ask(run, Phase::Observing, Request::ObserveChange)
        },
    }
}

fn do_observed(run: HookRun, observed: Option<Vec<String>>) -> (r: Step)
    ensures
        step_view(r) == on_observed(
            run@,
            match observed {
                Some(paths) => Some(text::views(paths@)),
                None => None,
            },
        ),
{
    let mut run = run;
    let (declared, expected) = match &run.proposal {
        Some(proposal) => (
            repair::mutation_paths(&proposal.action),
            match &proposal.action.proposed_change {
                Some(change) => text::clone_texts(&change.target_files),
                None => repair::mutation_paths(&proposal.action),
            },
        ),
        None => {
            return not_expected(run);
        },
    };
    match observed {
        None => do_hold(
            run,
            FeedbackSeverity::Warning,
            "Project Brain 无法可靠计算本次实际 diff；已进入 verify_required，停止前必须补充验证证据。".to_owned(),
            HoldRecord::MissingBaseline { declared_targets: declared },
        ),
        Some(observed) => {
            run.left = observed;
            run.right = expected;
            let paths = both_lists(&run.left, &run.right);
            do_ask(run, Phase::NormalizingObserved, Request::NormalizePaths { paths })
        },
    }
}

fn do_compared(run: HookRun, tool: &ToolFinished, relation: &PathRelation) -> (r: Step)
    ensures
        step_view(r) == on_compared(run@, *tool, *relation),
{
    let beyond = unrelated_paths(&run.left, run.right.len(), relation);
    let proposal = match &run.proposal {
        Some(proposal) => proposal,
        None => {
            return not_expected(run);
        },
    };
    let state = match &run.state {
        Some(state) => state,
        None => {
            return not_expected(run);
        },
    };
    if beyond.len() > 0 {
        let all = text::join(&beyond, ", ");
        let mut line = "Project Brain 检测到提案之外的实际变更：".to_owned();
        line.append(all.as_str());
        line.append("。已暂停无关写入，下一模型步骤必须先修复。");
        let hold = HoldRecord::Deviation {
            proposal_digest: proposal.proposal_digest.clone(),
            expected_paths: text::clone_texts(&run.right),
            observed_paths: text::clone_texts(&run.left),
            unexpected_paths: beyond,
        };
        return do_hold(run, FeedbackSeverity::Error, line, hold);
    }
    let repairs = repair::repair_paths(&state.outstanding_json);
    if is_repair_required(state) && repair::explicit_mutation(&proposal.action) && repairs.len()
        > 0 {
        let left = repair::mutation_paths(&proposal.action);
        let mut run = run;
        run.left = left;
        run.right = repairs;
        let paths = both_lists(&run.left, &run.right);
        return do_ask(run, Phase::NormalizingResolved, Request::NormalizePaths { paths });
    }
    do_then_evidence(run, tool)
}

fn do_resolved(run: HookRun, tool: &ToolFinished, relation: &PathRelation) -> (r: Step)
    ensures
        step_view(r) == on_resolved(run@, *tool, *relation),
{
    let addressed = match &run.proposal {
        Some(proposal) => repair::action_addresses_repair(
            &proposal.action,
            &run.left,
            &run.right,
            relation,
        ),
        None => {
            return not_expected(run);
        },
    };
    if addressed {
        let mut run = run;
        push_feedback(
            &mut run.feedback,
            FeedbackSeverity::Info,
            "Project Brain 已用本次实际 diff 确认修复范围未再外溢，repair_required 已解除。".to_owned(),
        );
        do_ask(run, Phase::SettlingHold, Request::ClearHold)
    } else {
        do_then_evidence(run, tool)
    }
}

fn do_impact(
    ctx: &HookContext,
    run: HookRun,
    tool: &ToolFinished,
    heads: &Vec<ImpactHead>,
    source: &ImpactSource,
    final_source: &CurrentSourceVerification,
) -> (r: Step)
    ensures
        step_view(r) == on_impact(*ctx, run@, *tool, heads@, *source, final_source@),
{
    let planned = impact::evidence_impact_plan(
        heads,
        source,
        final_source,
        &tool.action,
        tool.status,
        ctx.event.event_id.as_str(),
        tool.operation_id.as_str(),
    );
    match planned {
        Ok(None) => finish_feedback(run),
        Ok(Some(plan)) => {
            let mut run = run;
            run.stale = impact::count_transitions(&plan.transitions, EvidenceFreshness::Stale);
            run.unknown = impact::count_transitions(&plan.transitions, EvidenceFreshness::Unknown);
            do_ask(run, Phase::ApplyingPlan, Request::ApplyPlan { plan })
        },
        Err(error) => do_fail(run, error),
    }
}

fn do_applied(run: HookRun, marked: u64, preserved: u64) -> (r: Step)
    ensures
        step_view(r) == on_applied(run@, marked, preserved),
{
    let mut feedback = copy_feedback(&run.feedback);
    if marked > 0 {
        let line = impact::impact_feedback(run.stale, run.unknown, marked, preserved);
        push_feedback(&mut feedback, FeedbackSeverity::Warning, line);
    }
    do_finish(run, HookOutcomePayload::ToolFinished { feedback })
}

fn do_next_finished(ctx: &HookContext, run: HookRun, tool: &ToolFinished, reply: Reply) -> (r:
    Step)
    ensures
        step_view(r) == next_finished(*ctx, run@, *tool, reply),
{
    match (run.phase, reply) {
        (
            Phase::AssessingFinished,
            Reply::Assessment { path_decision, rule_paths, resolutions, source },
        ) => {
            if !do_shapes_fit(&ctx.rules, &rule_paths, &resolutions) {
                return not_expected(run);
            }
            let judged = evaluate_action(
                ctx,
                &tool.action,
                tool.tool_name.as_str(),
                path_decision,
                &rule_paths,
                &resolutions,
                &source,
            );
            do_judged(run, tool, &judged)
        },
        (Phase::EnsuringSession, Reply::Session(state)) => {
            let mut run = run;
            run.state = Some(state);
            do_ask(run, Phase::LoadingProposal, Request::LoadProposal)
        },
        (Phase::LoadingProposal, Reply::Proposal(proposal)) => do_proposal(run, tool, proposal),
        (Phase::Observing, Reply::Observed(observed)) => do_observed(run, observed),
        (Phase::NormalizingObserved, Reply::Paths(paths)) => {
            do_normalized(ctx, run, &paths, Phase::RelatingObserved)
        },
        (Phase::RelatingObserved, Reply::Relation(relation)) => do_compared(run, tool, &relation),
        (Phase::NormalizingResolved, Reply::Paths(paths)) => {
            do_normalized(ctx, run, &paths, Phase::RelatingResolved)
        },
        (Phase::RelatingResolved, Reply::Relation(relation)) => do_resolved(run, tool, &relation),
        (Phase::SettlingHold, Reply::Done) => do_then_evidence(run, tool),
        (Phase::GatheringImpact, Reply::Impact { heads, source, final_source }) => {
            do_impact(ctx, run, tool, &heads, &source, &final_source)
        },
        (Phase::ApplyingPlan, Reply::Applied { marked, preserved }) => {
            do_applied(run, marked, preserved)
        },
        _ => not_expected(run),
    }
}

fn do_settle_stop(run: HookRun, stop: StopDecision, feedback: Vec<FeedbackItem>) -> (r: Step)
    ensures
        step_view(r) == settle_stop(run@, stop@, model::feedback_views(feedback@)),
{
    let mut run = run;
    run.stop = stop;
    run.feedback = feedback;
    do_ask(run, Phase::AssessingAtStop, Request::AssessEvidence)
}

fn do_loaded_to_stop(
    run: HookRun,
    vendor_loop_active: bool,
    session: &Option<ControlSessionState>,
) -> (r: Step)
    ensures
        step_view(r) == on_loaded_to_stop(run@, vendor_loop_active, *session),
{
    let mut feedback: Vec<FeedbackItem> = Vec::new();
    assert(model::feedback_views(feedback@) =~= Seq::<FeedbackView>::empty());
    if vendor_loop_active {
        return do_settle_stop(run, StopDecision::AllowStop, feedback);
    }
    match session {
        Some(state) => match &state.outstanding_kind {
            Some(kind) => {
                let mut reason = "Project Brain active-control 尚未闭环：".to_owned();
                reason.append(kind.as_str());
                reason.append(
                    "。必须先处理已交付的纠偏状态并用实际 diff/验证证明完成。",
                );
                let payload = match &state.outstanding_json {
                    Some(payload) => payload.clone(),
                    None => String::new(),
                };
                push_feedback(&mut feedback, FeedbackSeverity::Error, payload);
                assert(model::feedback_views(feedback@) =~= seq![
                    (FeedbackSeverity::Error, payload@),
                ]);
                do_settle_stop(run, StopDecision::ContinueWork { reason }, feedback)
            },
            None => do_ask(run, Phase::GatheringStop, Request::GatherStop),
        },
        None => do_ask(run, Phase::GatheringStop, Request::GatherStop),
    }
}

fn is_reconciled(enabled: bool, report: &Result<ReconcileReport, String>) -> (r: bool)
    ensures
        r == reconciled(enabled, *report),
{
    !enabled || match report {
        Ok(report) => report.decision == reconcile::ReconcileDecision::Allow,
        Err(_) => false,
    }
}

fn do_stop_gathered(
    ctx: &HookContext,
    run: HookRun,
    finding_heads: &Result<Vec<FindingHead>, String>,
    scopes: &Vec<Vec<StopScope>>,
    head: &Option<String>,
    report: &Result<ReconcileReport, String>,
) -> (r: Step)
    ensures
        step_view(r) == on_stop_gathered(
            *ctx,
            run@,
            *finding_heads,
            scopes@,
            model::opt_view(*head),
            *report,
        ),
{
    let (violations, feedback) = findings::evaluate_finding_stop(
        &ctx.finding_effect_mappings,
        finding_heads,
    );
    let finding = StopEvidence { violations, feedback };
    let enabled = ctx.stop_reconcile.enabled;
    let symbol = if !is_reconciled(enabled, report) {
        let none = StopEvidence { violations: Vec::new(), feedback: Vec::new() };
        assert(none.found().violations =~= symbols::no_stop_findings().violations);
        assert(none.found().feedback =~= symbols::no_stop_findings().feedback);
        none
    } else if do_stop_shapes_fit(&ctx.rules, scopes) {
        let (violations, feedback) = symbols::evaluate_symbol_stop(
            &ctx.rules,
            scopes,
            ctx.stop_reconcile.base.as_str(),
            head,
            &ctx.provider_trust,
        );
        StopEvidence { violations, feedback }
    } else {
        return not_expected(run);
    };
    let (stop, feedback) = reconcile::stop_decision(false, enabled, report, symbol, finding);
    do_settle_stop(run, stop, feedback)
}

fn copy_stop(stop: &StopDecision) -> (r: StopDecision)
    ensures
        r@ == stop@,
{
    match stop {
        StopDecision::AllowStop => StopDecision::AllowStop,
        StopDecision::ContinueWork { reason } => StopDecision::ContinueWork {
            reason: reason.clone(),
        },
    }
}

fn do_next_stopping(
    ctx: &HookContext,
    run: HookRun,
    vendor_loop_active: bool,
    reply: Reply,
) -> (r: Step)
    ensures
        step_view(r) == next_stopping(*ctx, run@, vendor_loop_active, reply),
{
    match (run.phase, reply) {
        (Phase::LoadingToStop, Reply::MaybeSession(session)) => {
            do_loaded_to_stop(run, vendor_loop_active, &session)
        },
        (Phase::GatheringStop, Reply::Stop { finding_heads, scopes, head, report }) => {
            do_stop_gathered(ctx, run, &finding_heads, &scopes, &head, &report)
        },
        (Phase::AssessingAtStop, Reply::Heads(heads)) => {
            let stop = copy_stop(&run.stop);
            let mut feedback = copy_feedback(&run.feedback);
            let mut more = control::evidence_feedback(&heads);
            let ghost (x, y) = (feedback@, more@);
            feedback.append(&mut more);
            assert(model::feedback_views(x + y) =~= model::feedback_views(x)
                + model::feedback_views(y));
            do_finish(run, HookOutcomePayload::TaskStopping { stop, feedback })
        },
        _ => not_expected(run),
    }
}

impl HookRun {
    fn fresh(phase: Phase) -> (r: HookRun)
        ensures
            r@ == fresh_run(phase),
    {
        let run = HookRun {
            phase,
            state: None,
            decision: None,
            proposal: None,
            digest: String::new(),
            reason: String::new(),
            inject: Vec::new(),
            feedback: Vec::new(),
            left: Vec::new(),
            right: Vec::new(),
            stop: StopDecision::AllowStop,
            stale: 0,
            unknown: 0,
        };
        assert(run@.inject =~= Seq::<Seq<char>>::empty());
        assert(run@.feedback =~= Seq::<FeedbackView>::empty());
        assert(run@.left =~= Seq::<Seq<char>>::empty());
        assert(run@.right =~= Seq::<Seq<char>>::empty());
        run
    }

    /// Begin a run on an event.
    pub fn begin(ctx: &HookContext) -> (r: Step)
        ensures
            step_view(r) == first(*ctx),
    {
        match &ctx.event.payload {
            HookEventPayload::SessionOpened(opened) => (
                HookRun::fresh(Phase::Opening),
                Request::OpenSession {
                    parent: model::clone_opt(&opened.parent_session_key),
                    origin: control::session_origin_name(opened.origin).to_owned(),
                    depth: opened.delegation_depth,
                },
            ),
            HookEventPayload::IntentDeclared(intent) => (
                HookRun::fresh(Phase::Opening),
                Request::DeclareGoal {
                    text: intent.text.clone(),
                    digest: control::goal_digest(intent.text.as_str()),
                },
            ),
            HookEventPayload::ContextRequested => (
                HookRun::fresh(Phase::SyncingToTell),
                Request::SyncContext {
                    digest: control::project_context_digest(&ctx.context_canonical),
                },
            ),
            HookEventPayload::ToolAboutToRun(_) => (
                HookRun::fresh(Phase::SyncingTool),
                Request::SyncContext {
                    digest: control::project_context_digest(&ctx.context_canonical),
                },
            ),
            HookEventPayload::ToolFinished(_) => (
                HookRun::fresh(Phase::AssessingFinished),
                Request::AssessAction,
            ),
            HookEventPayload::TaskStopping(_) => (
                HookRun::fresh(Phase::LoadingToStop),
                Request::LoadSession,
            ),
        }
    }

    /// Go on with the reply to what was asked for last.
    pub fn step(self, ctx: &HookContext, reply: Reply) -> (r: Step)
        ensures
            step_view(r) == next(*ctx, self@, reply),
    {
        match &ctx.event.payload {
            HookEventPayload::ToolAboutToRun(tool) => do_next_about_to_run(ctx, self, tool, reply),
            HookEventPayload::ToolFinished(tool) => do_next_finished(ctx, self, tool, reply),
            HookEventPayload::TaskStopping(stopping) => do_next_stopping(
                ctx,
                self,
                stopping.vendor_loop_active,
                reply,
            ),
            _ => do_next_telling(ctx, self, reply),
        }
    }
}

/// The outcome that an event is answered with.
pub fn outcome(ctx: &HookContext, protocol_version: u32, payload: HookOutcomePayload) -> (r:
    InternalHookOutcome)
    ensures
        r.protocol_version == protocol_version,
        r.event_id@ == ctx.event.event_id@,
        r.payload@ == payload@,
{
    InternalHookOutcome { protocol_version, event_id: ctx.event.event_id.clone(), payload }
}

// ---------------------------------------------------------------------------
// Laws
// ---------------------------------------------------------------------------

/// How far a phase is from the end of a run.
pub open spec fn distance(phase: Phase) -> nat {
    match phase {
        Phase::Opening => 4,
        Phase::SyncingToTell => 3,
        Phase::Gathering => 2,
        Phase::Marking => 1,
        Phase::SyncingTool => 8,
        Phase::NormalizingRepair => 7,
        Phase::RelatingRepair => 6,
        Phase::AssessingTool => 5,
        Phase::AssessingEvidence => 4,
        Phase::ClearingReplan => 3,
        Phase::HoldingReplan => 3,
        Phase::ReloadingHeld => 2,
        Phase::MarkingHeld => 1,
        Phase::RecordingProposal => 2,
        Phase::RecordingBaseline => 1,
        Phase::AssessingFinished => 11,
        Phase::EnsuringSession => 10,
        Phase::LoadingProposal => 9,
        Phase::Observing => 8,
        Phase::NormalizingObserved => 7,
        Phase::RelatingObserved => 6,
        Phase::NormalizingResolved => 5,
        Phase::RelatingResolved => 4,
        Phase::SettlingHold => 3,
        Phase::GatheringImpact => 2,
        Phase::ApplyingPlan => 1,
        Phase::LoadingToStop => 3,
        Phase::GatheringStop => 2,
        Phase::AssessingAtStop => 1,
        Phase::Finished => 0,
    }
}

/// A step that ends a run.
pub open spec fn ended(request: RequestView) -> bool {
    request is Finish || request is Fail
}

/// What holds of a run on an event at every step: it is at a phase of that
/// event, and nothing keeps an agent at work that is already being kept at it.
pub open spec fn sound(ctx: HookContext, run: RunView) -> bool {
    match ctx.event.payload {
        HookEventPayload::ToolAboutToRun(_) => matches!(
            run.phase,
            Phase::SyncingTool | Phase::NormalizingRepair | Phase::RelatingRepair
                | Phase::AssessingTool | Phase::AssessingEvidence | Phase::ClearingReplan
                | Phase::HoldingReplan | Phase::ReloadingHeld | Phase::MarkingHeld
                | Phase::RecordingProposal | Phase::RecordingBaseline | Phase::Finished
        ),
        HookEventPayload::ToolFinished(_) => matches!(
            run.phase,
            Phase::AssessingFinished | Phase::EnsuringSession | Phase::LoadingProposal
                | Phase::Observing | Phase::NormalizingObserved | Phase::RelatingObserved
                | Phase::NormalizingResolved | Phase::RelatingResolved | Phase::SettlingHold
                | Phase::GatheringImpact | Phase::ApplyingPlan | Phase::Finished
        ),
        HookEventPayload::TaskStopping(stopping) => {
            &&& matches!(
                run.phase,
                Phase::LoadingToStop | Phase::GatheringStop | Phase::AssessingAtStop
                    | Phase::Finished
            )
            &&& stopping.vendor_loop_active ==> run.phase != Phase::GatheringStop && run.stop
                == StopView::AllowStop
        },
        _ => matches!(
            run.phase,
            Phase::Opening | Phase::SyncingToTell | Phase::Gathering | Phase::Marking
                | Phase::Finished
        ),
    }
}

/// What holds of a run holds when it begins and after every step, whatever
/// the replies are.
pub proof fn runs_stay_sound(ctx: HookContext, run: RunView, reply: Reply)
    ensures
        sound(ctx, first(ctx).0),
        sound(ctx, run) ==> sound(ctx, next(ctx, run, reply).0),
{
}

/// A step brings a run closer to its end, and says so where it is there.
pub open spec fn gets_on(run: RunView, step: StepView) -> bool {
    &&& distance(step.0.phase) < distance(run.phase)
    &&& ended(step.1) <==> step.0.phase == Phase::Finished
}

proof fn tool_runs_get_on(ctx: HookContext, run: RunView, tool: ToolAboutToRun, reply: Reply)
    requires
        run.phase != Phase::Finished,
    ensures
        gets_on(run, next_about_to_run(ctx, run, tool, reply)),
{
}

proof fn finished_runs_get_on(ctx: HookContext, run: RunView, tool: ToolFinished, reply: Reply)
    requires
        run.phase != Phase::Finished,
    ensures
        gets_on(run, next_finished(ctx, run, tool, reply)),
{
}

proof fn stopping_runs_get_on(ctx: HookContext, run: RunView, vendor: bool, reply: Reply)
    requires
        run.phase != Phase::Finished,
    ensures
        gets_on(run, next_stopping(ctx, run, vendor, reply)),
{
}

/// Every run ends: each step brings it closer to its end, whatever the reply
/// is, and it is at its end exactly when it says so.
pub proof fn runs_end(ctx: HookContext, run: RunView, reply: Reply)
    requires
        run.phase != Phase::Finished,
    ensures
        gets_on(run, next(ctx, run, reply)),
        distance(first(ctx).0.phase) <= 11,
{
    match ctx.event.payload {
        HookEventPayload::ToolAboutToRun(tool) => {
            tool_runs_get_on(ctx, run, tool, reply);
        },
        HookEventPayload::ToolFinished(tool) => {
            finished_runs_get_on(ctx, run, tool, reply);
        },
        HookEventPayload::TaskStopping(stopping) => {
            stopping_runs_get_on(ctx, run, stopping.vendor_loop_active, reply);
        },
        _ => {},
    }
}

/// An event is answered with an outcome of its own kind.
pub proof fn outcomes_answer_their_event(ctx: HookContext, run: RunView, reply: Reply)
    requires
        next(ctx, run, reply).1 is Finish,
    ensures
        match ctx.event.payload {
            HookEventPayload::SessionOpened(_) => next(ctx, run, reply).1->payload is SessionOpened,
            HookEventPayload::IntentDeclared(_) => next(ctx, run, reply).1->payload is IntentDeclared,
            HookEventPayload::ContextRequested => next(ctx, run, reply).1->payload is ContextRequested,
            HookEventPayload::ToolAboutToRun(_) => next(ctx, run, reply).1->payload is ToolAboutToRun,
            HookEventPayload::ToolFinished(_) => next(ctx, run, reply).1->payload is ToolFinished,
            HookEventPayload::TaskStopping(_) => next(ctx, run, reply).1->payload is TaskStopping,
        },
{
}

/// An action that may change the source runs only after its proposal was
/// recorded and the source before it was asked for.
pub proof fn writes_run_only_once_recorded(
    ctx: HookContext,
    run: RunView,
    tool: ToolAboutToRun,
    reply: Reply,
)
    requires
        ctx.event.payload == HookEventPayload::ToolAboutToRun(tool),
        repair::needs_baseline(tool.action.kind),
        next(ctx, run, reply).1 is Finish,
        next(ctx, run, reply).1->payload is ToolAboutToRun,
        next(ctx, run, reply).1->payload->ToolAboutToRun_0 is NoVeto,
    ensures
        run.phase == Phase::RecordingBaseline,
{
}

/// A proposal is recorded only where the rules let it through or where it
/// comes back after the plan that was asked for.
pub proof fn only_admitted_changes_are_recorded(
    ctx: HookContext,
    run: RunView,
    tool: ToolAboutToRun,
    reply: Reply,
)
    requires
        ctx.event.payload == HookEventPayload::ToolAboutToRun(tool),
        next(ctx, run, reply).1 is RecordProposal,
    ensures
        ({
            ||| run.phase == Phase::ClearingReplan
            ||| {
                &&& run.phase == Phase::AssessingEvidence
                &&& run.decision is Some
                &&& run.decision->0.decision != DecisionKind::RequireReview
                &&& decision::gate_of(run.decision->0) is NoVeto
            }
        }),
{
}

/// A hold for a new plan is lifted before the action runs only where the
/// session was told of it and the proposal is the very one that was held.
pub proof fn replans_are_lifted_by_the_same_proposal(
    ctx: HookContext,
    run: RunView,
    tool: ToolAboutToRun,
    reply: Reply,
)
    requires
        ctx.event.payload == HookEventPayload::ToolAboutToRun(tool),
        next(ctx, run, reply).1 is ClearHold,
    ensures
        run.state is Some,
        run.state->0.outstanding_delivered,
        model::opt_view(run.state->0.outstanding_kind) == Some("replan"@),
        repair::held_digest_of(model::opt_view(run.state->0.outstanding_json)) == Some(
            repair::proposal_digest_of(tool.action, tool.action_json@),
        ),
{
}

/// While a repair waits, writing that does not work on it never gets to be
/// judged: the only way there leads over paths that relate to the repair.
pub proof fn repairs_hold_unrelated_writes(
    ctx: HookContext,
    run: RunView,
    tool: ToolAboutToRun,
    state: ControlSessionState,
)
    requires
        ctx.event.payload == HookEventPayload::ToolAboutToRun(tool),
        run.phase == Phase::SyncingTool,
        repair_required(state),
        !repair::inspects(tool.action.kind, model::opt_view(tool.action.command)),
    ensures
        ({
            let after = next(ctx, run, Reply::Session(state));
            ||| after.1 is Finish && after.1->payload->ToolAboutToRun_0 is Replan
            ||| after.0.phase == Phase::NormalizingRepair
        }),
        forall|after: RunView, relation: PathRelation|
            after.phase == Phase::RelatingRepair && (#[trigger] next(
                ctx,
                after,
                Reply::Relation(relation),
            )).1 is AssessAction ==> repair::addresses_repair(
                tool.action.kind,
                after.left.len() as int,
                after.right.len() as int,
                relation,
            ),
{
}

/// A change that went beyond its proposal always leaves a hold that names
/// what was not expected.
pub proof fn deviations_are_held(
    ctx: HookContext,
    run: RunView,
    tool: ToolFinished,
    relation: PathRelation,
    i: int,
)
    requires
        ctx.event.payload == HookEventPayload::ToolFinished(tool),
        run.phase == Phase::RelatingObserved,
        run.proposal is Some,
        run.state is Some,
        0 <= i < run.left.len(),
        !relation.related_to_any(i, run.right.len() as int),
    ensures
        next(ctx, run, Reply::Relation(relation)).1 is SetHold,
        next(ctx, run, Reply::Relation(relation)).1->hold is Deviation,
        next(ctx, run, Reply::Relation(relation)).1->hold->unexpected_paths.contains(run.left[i]),
{
    unrelated_paths_are_listed(run.left, run.left.len(), run.right.len() as int, relation, i);
}

proof fn unrelated_paths_are_listed(
    paths: Seq<Seq<char>>,
    n: nat,
    expected: int,
    relation: PathRelation,
    i: int,
)
    requires
        0 <= i < n <= paths.len(),
        !relation.related_to_any(i, expected),
    ensures
        unrelated(paths, n, expected, relation).contains(paths[i]),
    decreases n,
{
    let before = unrelated(paths, (n - 1) as nat, expected, relation);
    let all = unrelated(paths, n, expected, relation);
    if i < n - 1 {
        unrelated_paths_are_listed(paths, (n - 1) as nat, expected, relation, i);
        let k = choose|k: int| 0 <= k < before.len() && before[k] == paths[i];
        assert(all[k] == paths[i]);
    } else {
        assert(all == before.push(paths[i]));
        assert(all[before.len() as int] == paths[i]);
    }
}

/// An agent that is already being kept at work may always stop.
pub proof fn an_active_loop_may_stop(
    ctx: HookContext,
    run: RunView,
    stopping: TaskStopping,
    reply: Reply,
)
    requires
        ctx.event.payload == HookEventPayload::TaskStopping(stopping),
        stopping.vendor_loop_active,
        sound(ctx, run),
        next(ctx, run, reply).1 is Finish,
    ensures
        next(ctx, run, reply).1->payload->TaskStopping_0 == StopView::AllowStop,
{
}

/// A deviation that waits keeps an agent from stopping, and the agent is told
/// which one it is.
pub proof fn waiting_deviations_keep_at_work(
    ctx: HookContext,
    run: RunView,
    stopping: TaskStopping,
    state: ControlSessionState,
    heads: Vec<AssessedHead>,
)
    requires
        ctx.event.payload == HookEventPayload::TaskStopping(stopping),
        !stopping.vendor_loop_active,
        run.phase == Phase::LoadingToStop,
        state.outstanding_kind is Some,
    ensures
        ({
            let asked = next(ctx, run, Reply::MaybeSession(Some(state)));
            let done = next(ctx, asked.0, Reply::Heads(heads));
            &&& asked.1 is AssessEvidence
            &&& done.1 is Finish
            &&& done.1->payload->TaskStopping_0 is ContinueWork
        }),
{
}

proof fn unrelated_paths_are_filtered(
    paths: Seq<Seq<char>>,
    n: nat,
    expected: int,
    relation: PathRelation,
)
    requires
        n <= paths.len(),
    ensures
        unrelated(paths, n, expected, relation) == Seq::new(n, |i: int| i).filter(
            |i: int| !(exists|j: int| 0 <= j < expected && #[trigger] relation.related(i, j)),
        ).map_values(|i: int| paths[i]),
    decreases n,
{
    reveal(Seq::filter);
    let beyond = |i: int|
        !(exists|j: int| 0 <= j < expected && #[trigger] relation.related(i, j));
    let at = |i: int| paths[i];
    let places = Seq::new(n, |i: int| i);
    if n > 0 {
        let n0 = (n - 1) as nat;
        unrelated_paths_are_filtered(paths, n0, expected, relation);
        assert(places.drop_last() =~= Seq::new(n0, |i: int| i));
        assert(places.last() == n - 1);
        assert(beyond(n - 1) == !relation.related_to_any(n - 1, expected));
        if beyond(n - 1) {
            assert(places.filter(beyond).map_values(at) =~= Seq::new(n0, |i: int| i).filter(
                beyond,
            ).map_values(at).push(paths[n - 1]));
        }
    } else {
        assert(places.filter(beyond).map_values(at) =~= Seq::<Seq<char>>::empty());
    }
}

/// What went beyond a proposal is every observed path that relates to none of
/// the expected ones, in the order in which they were observed; where there is
/// any, the session is held for exactly these, and otherwise it is not held for
/// a deviation.
pub proof fn deviations_are_what_was_not_expected(
    ctx: HookContext,
    run: RunView,
    tool: ToolFinished,
    relation: PathRelation,
)
    requires
        ctx.event.payload == HookEventPayload::ToolFinished(tool),
        run.phase == Phase::RelatingObserved,
        run.proposal is Some,
        run.state is Some,
    ensures
        ({
            let asked = next(ctx, run, Reply::Relation(relation)).1;
            let beyond = Seq::new(run.left.len(), |i: int| i).filter(
                |i: int|
                    !(exists|j: int|
                        0 <= j < run.right.len() as int && #[trigger] relation.related(i, j)),
            ).map_values(|i: int| run.left[i]);
            &&& beyond.len() > 0 <==> asked is SetHold
            &&& asked is SetHold ==> asked->hold == (HoldView::Deviation {
                proposal_digest: run.proposal->0.proposal_digest@,
                expected_paths: run.right,
                observed_paths: run.left,
                unexpected_paths: beyond,
            })
        }),
{
    unrelated_paths_are_filtered(run.left, run.left.len(), run.right.len() as int, relation);
}

/// What the rules decide on a tool is the stricter of what the path rules and
/// the symbol rules decide, with the reasons of both.
pub proof fn tools_are_judged_by_all_rules(
    ctx: HookContext,
    run: RunView,
    tool: ToolAboutToRun,
    path_decision: Decision,
    rule_paths: Vec<RulePaths>,
    resolutions: Vec<Vec<Result<SemanticResolution, String>>>,
    source: Option<SourceState>,
)
    requires
        ctx.event.payload == HookEventPayload::ToolAboutToRun(tool),
        run.phase == Phase::AssessingTool,
        rule_paths@.len() == ctx.rules@.len(),
        resolutions@.len() == ctx.rules@.len(),
        forall|i: int|
            0 <= i < ctx.rules@.len() ==> (#[trigger] resolutions@[i])@.len()
                == ctx.rules@[i].symbol_scopes@.len(),
    ensures
        ({
            let after = next(
                ctx,
                run,
                Reply::Assessment { path_decision, rule_paths, resolutions, source },
            );
            let by_path = path_decision@;
            let by_symbol = symbols::symbol_decision(
                ctx.schema_version,
                ctx.rules@,
                rule_paths@,
                resolutions@,
                ctx.provider_trust@,
                source,
                ActionView {
                    kind: tool.action.kind,
                    operation: tool.tool_name@,
                    target_files: text::views(tool.action.target_files@),
                    command: model::opt_view(tool.action.command),
                },
                tool.action.deterministic_impacts@,
            );
            &&& after.1 is AssessEvidence
            &&& after.0.decision is Some
            &&& after.0.decision->0.evidence == by_path.evidence + by_symbol.evidence
            &&& after.0.decision->0.context == by_path.context + by_symbol.context
            &&& after.0.decision->0.decision == DecisionKind::Block <==> by_path.decision
                == DecisionKind::Block || by_symbol.decision == DecisionKind::Block
            &&& after.0.decision->0.decision == DecisionKind::Allow <==> by_path.decision
                == DecisionKind::Allow && by_symbol.decision == DecisionKind::Allow
            &&& after.0.decision->0.decision == by_path.decision || after.0.decision->0.decision
                == by_symbol.decision
            &&& after.0.state == run.state
        }),
{
}

/// Once a tool is judged and the evidence is read, it is denied exactly where it
/// is blocked or escalated, with the reason and with the context of the decision
/// and of all evidence that is not fresh.  One that has to be reviewed is held
/// under its proposal until that very proposal comes back, and one that is
/// allowed runs at once where it only reads or nothing is known of it, and
/// otherwise once its proposal is recorded.
pub proof fn judged_tools_are_gated(
    ctx: HookContext,
    run: RunView,
    tool: ToolAboutToRun,
    heads: Vec<AssessedHead>,
)
    requires
        ctx.event.payload == HookEventPayload::ToolAboutToRun(tool),
        run.phase == Phase::AssessingEvidence,
        run.decision is Some,
        run.state is Some,
    ensures
        ({
            let d = run.decision->0;
            let state = run.state->0;
            let asked = next(ctx, run, Reply::Heads(heads)).1;
            let digest = repair::proposal_digest_of(tool.action, tool.action_json@);
            let inject = decision::context_of(d) + control::head_messages(heads@, false);
            let comes_back = model::opt_view(state.outstanding_kind) == Some("replan"@)
                && state.outstanding_delivered && repair::held_digest_of(
                model::opt_view(state.outstanding_json),
            ) == Some(digest);
            let records = tool.action.kind != model::ActionKind::Read && tool.action.kind
                != model::ActionKind::Unknown;
            &&& d.decision == DecisionKind::Block || d.decision == DecisionKind::Escalate ==> asked
                == (RequestView::Finish {
                payload: OutcomeView::ToolAboutToRun(
                    GateView::Deny(decision::reason_of(d)),
                    inject,
                ),
            })
            &&& d.decision == DecisionKind::RequireReview && comes_back ==> asked is ClearHold
            &&& d.decision == DecisionKind::RequireReview && !comes_back ==> asked == (
            RequestView::SetHold {
                hold: HoldView::Replan {
                    proposal_digest: digest,
                    target_files: text::views(tool.action.target_files@),
                    decision: d,
                },
            })
            &&& (d.decision == DecisionKind::Allow || d.decision == DecisionKind::AllowWithContext)
                && records ==> asked == (RequestView::RecordProposal { digest })
            &&& (d.decision == DecisionKind::Allow || d.decision == DecisionKind::AllowWithContext)
                && !records ==> asked == (RequestView::Finish {
                payload: OutcomeView::ToolAboutToRun(GateView::NoVeto, inject),
            })
        }),
{
}

/// A change that did not fail is always held against what was let through: the
/// session and the proposal are read, and where there is no proposal, or what
/// changed cannot be told, the session is held for it with what was declared.
pub proof fn finished_changes_are_verified(
    ctx: HookContext,
    run: RunView,
    tool: ToolFinished,
    path_decision: Decision,
    rule_paths: Vec<RulePaths>,
    resolutions: Vec<Vec<Result<SemanticResolution, String>>>,
    source: Option<SourceState>,
    state: ControlSessionState,
    proposal: StoredProposal,
)
    requires
        ctx.event.payload == HookEventPayload::ToolFinished(tool),
        symbols::shapes_fit(ctx.rules@, rule_paths@, resolutions@),
        tool.status != ToolStatus::Failed,
        tool.action.kind != model::ActionKind::Read,
        tool.action.kind != model::ActionKind::Unknown,
    ensures
        run.phase == Phase::AssessingFinished ==> next(
            ctx,
            run,
            Reply::Assessment { path_decision, rule_paths, resolutions, source },
        ).1 is EnsureSession,
        run.phase == Phase::EnsuringSession ==> next(ctx, run, Reply::Session(state)).1
            is LoadProposal && next(ctx, run, Reply::Session(state)).0.state == Some(state),
        run.phase == Phase::LoadingProposal ==> {
            let asked = next(ctx, run, Reply::Proposal(None)).1;
            asked is SetHold && asked->hold is MissingProposal && forall|path: Seq<char>|
                #[trigger] asked->hold->MissingProposal_declared_targets.contains(path)
                    <==> repair::named_paths(tool.action).contains(path)
        },
        run.phase == Phase::LoadingProposal ==> next(
            ctx,
            run,
            Reply::Proposal(Some(proposal)),
        ).1 is ObserveChange && next(ctx, run, Reply::Proposal(Some(proposal))).0.proposal == Some(
            proposal,
        ),
        run.phase == Phase::Observing && run.proposal is Some ==> {
            let asked = next(ctx, run, Reply::Observed(None)).1;
            asked is SetHold && asked->hold is MissingBaseline
        },
{
    order::sorted_set_keeps_members(repair::named_paths(tool.action));
}

/// Where an action may have changed the source, every recorded head that was
/// fresh goes into the plan that is carried out; nothing is planned only where
/// the action read or nothing was fresh, and a record that contradicts itself
/// fails.
pub proof fn evidence_is_reviewed_after_every_change(
    ctx: HookContext,
    run: RunView,
    tool: ToolFinished,
    heads: Vec<ImpactHead>,
    source: ImpactSource,
    final_source: CurrentSourceVerification,
)
    requires
        ctx.event.payload == HookEventPayload::ToolFinished(tool),
        run.phase == Phase::GatheringImpact,
    ensures
        ({
            let asked = next(ctx, run, Reply::Impact { heads, source, final_source }).1;
            let any = exists|i: int|
                0 <= i < heads@.len() && (#[trigger] heads@[i]).freshness
                    == EvidenceFreshness::Fresh;
            let nothing = tool.action.kind == model::ActionKind::Read || !any;
            let torn = source matches ImpactSource::Baseline { recorded, state, after }
                && recorded@ != state@;
            &&& nothing ==> asked == (RequestView::Finish {
                payload: OutcomeView::ToolFinished(run.feedback),
            })
            &&& !nothing && torn ==> asked is Fail
            &&& !nothing && !torn ==> asked == (RequestView::ApplyPlan {
                plan: impact::plan_of(
                    heads@,
                    source,
                    final_source@,
                    tool.action,
                    tool.status,
                    ctx.event.event_id@,
                    tool.operation_id@,
                ),
            })
        }),
{
    impact::fresh_heads_are_all_found(heads@);
    let fresh = impact::fresh_heads(heads@);
    if fresh.len() > 0 {
        assert(fresh.contains(fresh[0]));
        let i = choose|i: int| 0 <= i < heads@.len() && heads@[i] == fresh[0];
        assert(heads@[i].freshness == EvidenceFreshness::Fresh);
    }
    if exists|i: int|
        0 <= i < heads@.len() && (#[trigger] heads@[i]).freshness == EvidenceFreshness::Fresh {
        let i = choose|i: int|
            0 <= i < heads@.len() && (#[trigger] heads@[i]).freshness == EvidenceFreshness::Fresh;
        assert(heads@.contains(heads@[i]));
        assert(fresh.contains(heads@[i]));
    }
}

/// Where nothing waits, work stops exactly where the reconciliation, if it is
/// switched on, was passed and neither a symbol rule nor a mapped finding is
/// violated.
pub proof fn work_stops_on_a_clean_slate(
    ctx: HookContext,
    run: RunView,
    stopping: TaskStopping,
    finding_heads: Result<Vec<FindingHead>, String>,
    scopes: Vec<Vec<StopScope>>,
    head: Option<String>,
    report: Result<ReconcileReport, String>,
    heads: Vec<AssessedHead>,
)
    requires
        ctx.event.payload == HookEventPayload::TaskStopping(stopping),
        run.phase == Phase::GatheringStop,
        symbols::stop_shapes_fit(ctx.rules@, scopes@),
    ensures
        ({
            let asked = next(ctx, run, Reply::Stop { finding_heads, scopes, head, report });
            let done = next(ctx, asked.0, Reply::Heads(heads)).1;
            let passed = !ctx.stop_reconcile.enabled || report is Ok && report->Ok_0.decision
                == reconcile::ReconcileDecision::Allow;
            let symbols_hold = symbols::all_stop_findings(
                ctx.rules@,
                scopes@,
                ctx.rules@.len(),
                ctx.stop_reconcile.base@,
                model::opt_view(head),
                ctx.provider_trust@,
            ).violations.len() == 0;
            let findings_hold = findings::finding_stop(
                ctx.finding_effect_mappings@,
                finding_heads,
            ).violations.len() == 0;
            &&& done is Finish
            &&& done->payload is TaskStopping
            &&& done->payload->TaskStopping_0 is AllowStop <==> passed && symbols_hold
                && findings_hold
        }),
{
}

/// A session that is opened, given a goal or asks is told its state, the claims
/// of agents and the evidence, in this order; one that asks is told nothing
/// exactly where it was told since it was last opened and no deviation waits
/// that it was not told of.
pub proof fn sessions_are_told_what_there_is(
    ctx: HookContext,
    run: RunView,
    state: ControlSessionState,
    claims: Vec<AgentClaim>,
    heads: Vec<AssessedHead>,
)
    requires
        ctx.event.payload is SessionOpened || ctx.event.payload is IntentDeclared
            || ctx.event.payload is ContextRequested,
    ensures
        run.phase == Phase::SyncingToTell ==> {
            let asked = next(ctx, run, Reply::Session(state)).1;
            let nothing = ctx.event.payload is ContextRequested && state.hydrated_epoch
                == state.lifecycle_epoch && !(state.outstanding_kind is Some
                && !state.outstanding_delivered);
            &&& nothing ==> asked == (RequestView::Finish {
                payload: OutcomeView::ContextRequested(Seq::empty()),
            })
            &&& !nothing ==> asked is GatherContext
        },
        run.phase == Phase::Gathering && run.state == Some(state) ==> {
            let asked = next(ctx, run, Reply::Context { claims, heads });
            let marked = next(ctx, asked.0, Reply::Done).1;
            let told = seq![state_text(ctx, state)] + control::claim_context(claims@)
                + control::head_messages(heads@, ctx.event.payload is SessionOpened);
            &&& asked.1 is MarkDelivered
            &&& asked.0.inject == told
            &&& marked is Finish
            &&& ctx.event.payload is SessionOpened ==> marked->payload
                == OutcomeView::SessionOpened(told)
            &&& ctx.event.payload is IntentDeclared ==> marked->payload
                == OutcomeView::IntentDeclared(GateView::NoVeto, told)
            &&& ctx.event.payload is ContextRequested ==> marked->payload
                == OutcomeView::ContextRequested(told)
        },
{
}

} // verus!
