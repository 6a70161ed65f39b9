//! The values that decisions are made of: actions, rules, evidence and the
//! hook protocol.
use crate::text;
use vstd::prelude::*;

verus! {

/// What an optional text says.
pub open spec fn opt_view(o: Option<String>) -> Option<Seq<char>> {
    match o {
        Some(s) => Some(s@),
        None => None,
    }
}

/// A copy of an optional text.
pub fn clone_opt(o: &Option<String>) -> (r: Option<String>)
    ensures
        r == *o,
{
    match o {
        Some(s) => Some(s.clone()),
        None => None,
    }
}

/// Whether an optional text is there and equal to another text.
pub fn opt_is(o: &Option<String>, s: &str) -> (r: bool)
    ensures
        r == (opt_view(*o) == Some(s@)),
{
    match o {
        Some(t) => text::same(t.as_str(), s),
        None => false,
    }
}

/// Whether two optional texts are equal.
pub fn same_opt(a: &Option<String>, b: &Option<String>) -> (r: bool)
    ensures
        r == (opt_view(*a) == opt_view(*b)),
{
    match (a, b) {
        (Some(x), Some(y)) => text::same(x.as_str(), y.as_str()),
        (None, None) => true,
        _ => false,
    }
}

// ---------------------------------------------------------------------------
// Actions
// ---------------------------------------------------------------------------

#[derive(Debug, Clone, Copy, PartialEq, Eq, Structural)]
pub enum ActionKind {
    Read,
    Create,
    Modify,
    Delete,
    Execute,
    GitOperation,
    Unknown,
}

/// An inclusive range of lines.
#[derive(Debug, Clone, Copy, PartialEq, Eq, Structural)]
pub struct LineRange {
    pub start_line: usize,
    pub end_line: usize,
}

/// Two line ranges share a line.
pub open spec fn ranges_meet(a_start: int, a_end: int, b_start: int, b_end: int) -> bool {
    a_start <= b_end && b_start <= a_end
}

/// A part of a file that an action certainly touches.
#[derive(Debug, Clone, PartialEq, Eq)]
pub struct ToolImpact {
    pub path: String,
    pub whole_file: bool,
    pub ranges: Vec<LineRange>,
}

/// What an impact says.
pub struct ImpactView {
    pub path: Seq<char>,
    pub whole_file: bool,
    pub ranges: Seq<LineRange>,
}

impl View for ToolImpact {
    type V = ImpactView;

    open spec fn view(&self) -> ImpactView {
        ImpactView { path: self.path@, whole_file: self.whole_file, ranges: self.ranges@ }
    }
}

/// What impacts say.
pub open spec fn impact_views(v: Seq<ToolImpact>) -> Seq<ImpactView> {
    v.map_values(|i: ToolImpact| i@)
}

#[derive(Debug, Clone, PartialEq, Eq)]
pub struct ProposedChange {
    pub proposal_digest: String,
    pub base_source_fingerprint: String,
    pub target_files: Vec<String>,
    pub proposed_content_digest: Option<String>,
}

#[derive(Debug, Clone, PartialEq, Eq)]
pub struct ToolAction {
    pub kind: ActionKind,
    pub target_files: Vec<String>,
    pub command: Option<String>,
    pub deterministic_impacts: Vec<ToolImpact>,
    pub proposed_change: Option<ProposedChange>,
}

/// What a proposed change says.
pub struct ProposedView {
    pub proposal_digest: Seq<char>,
    pub base_source_fingerprint: Seq<char>,
    pub target_files: Seq<Seq<char>>,
    pub proposed_content_digest: Option<Seq<char>>,
}

/// What an action says.
pub struct ToolActionView {
    pub kind: ActionKind,
    pub target_files: Seq<Seq<char>>,
    pub command: Option<Seq<char>>,
    pub deterministic_impacts: Seq<ImpactView>,
    pub proposed_change: Option<ProposedView>,
}

impl View for ToolAction {
    type V = ToolActionView;

    open spec fn view(&self) -> ToolActionView {
        ToolActionView {
            kind: self.kind,
            target_files: text::views(self.target_files@),
            command: opt_view(self.command),
            deterministic_impacts: impact_views(self.deterministic_impacts@),
            proposed_change: match self.proposed_change {
                Some(p) => Some(
                    ProposedView {
                        proposal_digest: p.proposal_digest@,
                        base_source_fingerprint: p.base_source_fingerprint@,
                        target_files: text::views(p.target_files@),
                        proposed_content_digest: opt_view(p.proposed_content_digest),
                    },
                ),
                None => None,
            },
        }
    }
}

#[derive(Debug, Clone, PartialEq, Eq)]
pub struct ActionDescriptor {
    pub schema_version: u32,
    pub event_id: String,
    pub session_id: String,
    pub cwd: String,
    pub action: ActionKind,
    pub operation: String,
    pub target_files: Vec<String>,
    pub command: Option<String>,
}

/// What rules look at in an action.
pub struct ActionView {
    pub kind: ActionKind,
    pub operation: Seq<char>,
    pub target_files: Seq<Seq<char>>,
    pub command: Option<Seq<char>>,
}

impl View for ActionDescriptor {
    type V = ActionView;

    open spec fn view(&self) -> ActionView {
        ActionView {
            kind: self.action,
            operation: self.operation@,
            target_files: text::views(self.target_files@),
            command: opt_view(self.command),
        }
    }
}

#[derive(Debug, Clone, Copy, PartialEq, Eq, Structural)]
pub enum ToolStatus {
    Succeeded,
    Failed,
    Unknown,
}

// ---------------------------------------------------------------------------
// Rules and decisions
// ---------------------------------------------------------------------------

#[derive(Debug, Clone, Copy, PartialEq, Eq, Structural)]
pub enum MemoryStatus {
    Active,
    Inactive,
}

#[derive(Debug, Clone, Copy, PartialEq, Eq, Structural)]
pub enum Authority {
    ExplicitUser,
    RepositoryRule,
    AcceptedDecision,
    AgentInference,
    ObservedPattern,
}

#[derive(Debug, Clone, Copy, PartialEq, Eq, Structural)]
pub enum RuleStrength {
    Hard,
    Soft,
}

#[derive(Debug, Clone, Copy, PartialEq, Eq, Structural)]
pub enum RuleEffect {
    InjectContext,
    Escalate,
    RequireReview,
    Block,
}

#[derive(Debug, Clone, PartialEq, Eq)]
pub struct RuleSymbolScope {
    pub provider_profile_id: String,
    pub provider_contract_id: String,
    pub language_id: String,
    pub anchor_snapshot_fingerprint: String,
    pub anchor_symbol_id: String,
}

#[derive(Debug, Clone, PartialEq, Eq)]
pub struct Rule {
    pub id: String,
    pub status: MemoryStatus,
    pub authority: Authority,
    pub strength: RuleStrength,
    pub effect: RuleEffect,
    pub include_paths: Vec<String>,
    pub exclude_paths: Vec<String>,
    pub actions: Vec<ActionKind>,
    pub operations: Vec<String>,
    pub operation_contains: Vec<String>,
    pub symbol_scopes: Vec<RuleSymbolScope>,
    pub message: String,
    pub rationale: String,
}

#[derive(Debug, Clone, Copy, PartialEq, Eq, Structural)]
pub enum DecisionKind {
    Allow,
    AllowWithContext,
    Escalate,
    RequireReview,
    Block,
}

impl DecisionKind {
    /// How much a decision restrains: the larger, the more.
    pub open spec fn rank(self) -> int {
        match self {
            DecisionKind::Allow => 0,
            DecisionKind::AllowWithContext => 1,
            DecisionKind::Escalate => 2,
            DecisionKind::RequireReview => 3,
            DecisionKind::Block => 4,
        }
    }
}

#[derive(Debug, Clone, Copy, PartialEq, Eq, Structural)]
pub enum EvidenceGrade {
    SemanticDirect,
    SemanticConfirmedLineage,
    Unavailable,
}

#[derive(Debug, Clone, PartialEq, Eq)]
pub struct Evidence {
    pub rule_id: String,
    pub effect: RuleEffect,
    pub message: String,
    pub rationale: String,
    pub grade: Option<EvidenceGrade>,
    pub symbol_id: Option<String>,
    pub snapshot_fingerprint: Option<String>,
}

/// What a piece of evidence says.
pub struct EvidenceView {
    pub rule_id: Seq<char>,
    pub effect: RuleEffect,
    pub message: Seq<char>,
    pub rationale: Seq<char>,
    pub grade: Option<EvidenceGrade>,
    pub symbol_id: Option<Seq<char>>,
    pub snapshot_fingerprint: Option<Seq<char>>,
}

impl View for Evidence {
    type V = EvidenceView;

    open spec fn view(&self) -> EvidenceView {
        EvidenceView {
            rule_id: self.rule_id@,
            effect: self.effect,
            message: self.message@,
            rationale: self.rationale@,
            grade: self.grade,
            symbol_id: opt_view(self.symbol_id),
            snapshot_fingerprint: opt_view(self.snapshot_fingerprint),
        }
    }
}

/// What a list of evidence says.
pub open spec fn evidence_views(v: Seq<Evidence>) -> Seq<EvidenceView> {
    v.map_values(|e: Evidence| e@)
}

#[derive(Debug, Clone, PartialEq, Eq)]
pub struct Decision {
    pub schema_version: u32,
    pub decision: DecisionKind,
    pub summary: String,
    pub context: Vec<String>,
    pub evidence: Vec<Evidence>,
}

/// What a decision says.
pub struct DecisionView {
    pub schema_version: u32,
    pub decision: DecisionKind,
    pub summary: Seq<char>,
    pub context: Seq<Seq<char>>,
    pub evidence: Seq<EvidenceView>,
}

impl View for Decision {
    type V = DecisionView;

    open spec fn view(&self) -> DecisionView {
        DecisionView {
            schema_version: self.schema_version,
            decision: self.decision,
            summary: self.summary@,
            context: text::views(self.context@),
            evidence: evidence_views(self.evidence@),
        }
    }
}

// ---------------------------------------------------------------------------
// Evidence planes
// ---------------------------------------------------------------------------

#[derive(Debug, Clone, Copy, PartialEq, Eq, Structural)]
pub enum EvidencePlane {
    Source,
    Semantic,
    Engine,
    Build,
    Test,
    Runtime,
}

impl EvidencePlane {
    /// The written name of a plane.
    pub open spec fn name(self) -> Seq<char> {
        match self {
            EvidencePlane::Source => "source"@,
            EvidencePlane::Semantic => "semantic"@,
            EvidencePlane::Engine => "engine"@,
            EvidencePlane::Build => "build"@,
            EvidencePlane::Test => "test"@,
            EvidencePlane::Runtime => "runtime"@,
        }
    }

    pub fn as_str(self) -> (r: &'static str)
        ensures
            r@ == self.name(),
    {
        match self {
            EvidencePlane::Source => "source",
            EvidencePlane::Semantic => "semantic",
            EvidencePlane::Engine => "engine",
            EvidencePlane::Build => "build",
            EvidencePlane::Test => "test",
            EvidencePlane::Runtime => "runtime",
        }
    }
}

#[derive(Debug, Clone, Copy, PartialEq, Eq, Structural)]
pub enum EvidenceFreshness {
    Fresh,
    Stale,
    Unknown,
}

impl EvidenceFreshness {
    /// The written name of a freshness.
    pub open spec fn name(self) -> Seq<char> {
        match self {
            EvidenceFreshness::Fresh => "fresh"@,
            EvidenceFreshness::Stale => "stale"@,
            EvidenceFreshness::Unknown => "unknown"@,
        }
    }

    pub fn as_str(self) -> (r: &'static str)
        ensures
            r@ == self.name(),
    {
        match self {
            EvidenceFreshness::Fresh => "fresh",
            EvidenceFreshness::Stale => "stale",
            EvidenceFreshness::Unknown => "unknown",
        }
    }
}

#[derive(Debug, Clone, Copy, PartialEq, Eq, Structural)]
pub enum EvidenceCoverage {
    Complete,
    Partial,
}

#[derive(Debug, Clone, Copy, PartialEq, Eq, Structural)]
pub enum EvidenceAuthority {
    Deterministic,
    Advisory,
}

impl EvidenceAuthority {
    /// The written name of an authority.
    pub open spec fn name(self) -> Seq<char> {
        match self {
            EvidenceAuthority::Deterministic => "deterministic"@,
            EvidenceAuthority::Advisory => "advisory"@,
        }
    }

    pub fn as_str(self) -> (r: &'static str)
        ensures
            r@ == self.name(),
    {
        match self {
            EvidenceAuthority::Deterministic => "deterministic",
            EvidenceAuthority::Advisory => "advisory",
        }
    }
}

#[derive(Debug, Clone, Copy, PartialEq, Eq, Structural)]
pub enum FindingSeverity {
    Error,
    Warning,
}

#[derive(Debug, Clone, Copy, PartialEq, Eq, Structural)]
pub enum FindingAuthority {
    DeterministicViolation,
    Advisory,
}

// ---------------------------------------------------------------------------
// Hook outcomes
// ---------------------------------------------------------------------------

#[derive(Debug, Clone, PartialEq, Eq)]
pub struct ContextItem {
    pub text: String,
}

/// What a list of context items says.
pub open spec fn context_texts(v: Seq<ContextItem>) -> Seq<Seq<char>> {
    v.map_values(|c: ContextItem| c.text@)
}

#[derive(Debug, Clone, Copy, PartialEq, Eq, Structural)]
pub enum FeedbackSeverity {
    Info,
    Warning,
    Error,
}

#[derive(Debug, Clone, PartialEq, Eq)]
pub struct FeedbackItem {
    pub severity: FeedbackSeverity,
    pub text: String,
}

/// What a feedback item says.
pub type FeedbackView = (FeedbackSeverity, Seq<char>);

/// What a list of feedback items says.
pub open spec fn feedback_views(v: Seq<FeedbackItem>) -> Seq<FeedbackView> {
    v.map_values(|f: FeedbackItem| (f.severity, f.text@))
}

#[derive(Debug, Clone, PartialEq, Eq)]
pub enum GateDecision {
    NoVeto,
    Replan { reason: String },
    Deny { reason: String },
}

/// What a gate decision says.
pub enum GateView {
    NoVeto,
    Replan(Seq<char>),
    Deny(Seq<char>),
}

impl View for GateDecision {
    type V = GateView;

    open spec fn view(&self) -> GateView {
        match self {
            GateDecision::NoVeto => GateView::NoVeto,
            GateDecision::Replan { reason } => GateView::Replan(reason@),
            GateDecision::Deny { reason } => GateView::Deny(reason@),
        }
    }
}

#[derive(Debug, Clone, PartialEq, Eq)]
pub enum StopDecision {
    AllowStop,
    ContinueWork { reason: String },
}

/// What a stop decision says.
pub enum StopView {
    AllowStop,
    ContinueWork(Seq<char>),
}

impl View for StopDecision {
    type V = StopView;

    open spec fn view(&self) -> StopView {
        match self {
            StopDecision::AllowStop => StopView::AllowStop,
            StopDecision::ContinueWork { reason } => StopView::ContinueWork(reason@),
        }
    }
}

#[derive(Debug, Clone, PartialEq, Eq)]
pub enum HookOutcomePayload {
    SessionOpened { inject: Vec<ContextItem> },
    IntentDeclared { gate: GateDecision, inject: Vec<ContextItem> },
    ContextRequested { inject: Vec<ContextItem> },
    ToolAboutToRun { gate: GateDecision, inject: Vec<ContextItem> },
    ToolFinished { feedback: Vec<FeedbackItem> },
    TaskStopping { stop: StopDecision, feedback: Vec<FeedbackItem> },
}

/// What an outcome says.
pub enum OutcomeView {
    SessionOpened(Seq<Seq<char>>),
    IntentDeclared(GateView, Seq<Seq<char>>),
    ContextRequested(Seq<Seq<char>>),
    ToolAboutToRun(GateView, Seq<Seq<char>>),
    ToolFinished(Seq<FeedbackView>),
    TaskStopping(StopView, Seq<FeedbackView>),
}

impl View for HookOutcomePayload {
    type V = OutcomeView;

    open spec fn view(&self) -> OutcomeView {
        match self {
            HookOutcomePayload::SessionOpened { inject } => OutcomeView::SessionOpened(
                context_texts(inject@),
            ),
            HookOutcomePayload::IntentDeclared { gate, inject } => OutcomeView::IntentDeclared(
                gate@,
                context_texts(inject@),
            ),
            HookOutcomePayload::ContextRequested { inject } => OutcomeView::ContextRequested(
                context_texts(inject@),
            ),
            HookOutcomePayload::ToolAboutToRun { gate, inject } => OutcomeView::ToolAboutToRun(
                gate@,
                context_texts(inject@),
            ),
            HookOutcomePayload::ToolFinished { feedback } => OutcomeView::ToolFinished(
                feedback_views(feedback@),
            ),
            HookOutcomePayload::TaskStopping { stop, feedback } => OutcomeView::TaskStopping(
                stop@,
                feedback_views(feedback@),
            ),
        }
    }
}

#[derive(Debug, Clone, PartialEq, Eq)]
pub struct InternalHookOutcome {
    pub protocol_version: u32,
    pub event_id: String,
    pub payload: HookOutcomePayload,
}

/// What the outcome of an event says.
pub struct HookOutcomeView {
    pub protocol_version: u32,
    pub event_id: Seq<char>,
    pub payload: OutcomeView,
}

impl View for InternalHookOutcome {
    type V = HookOutcomeView;

    open spec fn view(&self) -> HookOutcomeView {
        HookOutcomeView {
            protocol_version: self.protocol_version,
            event_id: self.event_id@,
            payload: self.payload@,
        }
    }
}

} // verus!
