//! Rules on symbols: which of them apply to an action, what their evidence is
//! worth, and what they say when work is about to stop.
use crate::git::DiffHunk;
use crate::model::{
    self, ActionDescriptor, ActionKind, ActionView, Decision, DecisionKind, DecisionView, Evidence,
    EvidenceGrade, EvidenceView, FeedbackItem, FeedbackSeverity, FeedbackView, LineRange,
    MemoryStatus, Rule, RuleEffect, RuleSymbolScope, ToolAction, ToolImpact,
};
use crate::paths::PathRelation;
use crate::text;
use vstd::prelude::*;

verus! {

broadcast use {vstd::string::group_string_axioms, vstd::seq::group_seq_axioms};

// ---------------------------------------------------------------------------
// What is known of a symbol
// ---------------------------------------------------------------------------

/// Whether the machine's binding of a provider profile can be trusted now.
#[derive(Debug, Clone, PartialEq, Eq)]
pub struct ProviderTrustStatus {
    pub profile_id: String,
    pub ready: bool,
    pub registration_id: Option<String>,
    pub registration_revision: Option<u64>,
    pub executable_sha256: Option<String>,
    pub launcher_package_manifest_sha256: Option<String>,
    pub issue: Option<String>,
}

#[derive(Debug, Clone, Copy, PartialEq, Eq, Structural)]
pub enum SemanticSourceTrust {
    TrustedProvider,
    Untrusted,
}

#[derive(Debug, Clone, Copy, PartialEq, Eq, Structural)]
pub enum SemanticResolutionKind {
    DirectSemantic,
    ConfirmedLineage,
    Unresolved,
}

/// Where a semantic snapshot came from.
#[derive(Debug, Clone, PartialEq, Eq)]
pub struct SemanticSource {
    pub trust: SemanticSourceTrust,
    pub provider_registration_id: Option<String>,
    pub executable_sha256: Option<String>,
    pub worktree_fingerprint: String,
    pub head_revision: String,
    pub worktree_clean: bool,
}

#[derive(Debug, Clone, PartialEq, Eq)]
pub struct ResolvedSymbol {
    pub id: String,
    pub path: String,
    pub display_name: String,
    pub start_line: usize,
    pub end_line: usize,
}

#[derive(Debug, Clone, PartialEq, Eq)]
pub struct SemanticResolution {
    pub kind: SemanticResolutionKind,
    pub resolved_symbol: Option<ResolvedSymbol>,
    pub source: Option<SemanticSource>,
    pub latest_snapshot_fingerprint: Option<String>,
}

/// The worktree as it is now: its fingerprint and its head revision.
#[derive(Debug, Clone, PartialEq, Eq)]
pub struct SourceState {
    pub fingerprint: String,
    pub head: String,
}

/// How the targets of an action lie to the paths of a rule.
#[derive(Debug, Clone, PartialEq, Eq)]
pub struct RulePaths {
    pub included: PathRelation,
    pub excluded: PathRelation,
}

// ---------------------------------------------------------------------------
// Which rules apply
// ---------------------------------------------------------------------------

/// The text of an action that operation markers are looked for in.
pub open spec fn searchable(action: ActionView) -> Seq<char> {
    text::lowered(
        action.operation + " "@ + (match action.command {
            Some(command) => command,
            None => Seq::empty(),
        }),
    )
}

/// The action kinds of a rule admit the action.
pub open spec fn admits_action(rule: Rule, action: ActionView) -> bool {
    rule.actions@.len() == 0 || rule.actions@.contains(action.kind)
}

/// The operations of a rule admit the action, up to ASCII case.
pub open spec fn admits_operation(rule: Rule, action: ActionView) -> bool {
    ||| rule.operations@.len() == 0
    ||| exists|i: int|
        0 <= i < rule.operations@.len() && text::lowered(#[trigger] rule.operations@[i]@)
            == text::lowered(action.operation)
}

/// The operation markers of a rule admit the action.
pub open spec fn admits_markers(rule: Rule, action: ActionView) -> bool {
    ||| rule.operation_contains@.len() == 0
    ||| exists|i: int|
        0 <= i < rule.operation_contains@.len() && text::occurs(
            searchable(action),
            text::lowered(#[trigger] rule.operation_contains@[i]@),
        )
}

/// The paths of a rule admit the action: one target is included, where the
/// rule includes any, and none is excluded.
pub open spec fn admits_paths(rule: Rule, action: ActionView, paths: RulePaths) -> bool {
    let targets = action.target_files.len() as int;
    &&& rule.include_paths@.len() == 0 || paths.included.any_related(
        targets,
        rule.include_paths@.len() as int,
    )
    &&& !paths.excluded.any_related(targets, rule.exclude_paths@.len() as int)
}

/// A rule applies to an action, its symbols aside.
pub open spec fn constraints_match(rule: Rule, action: ActionView, paths: RulePaths) -> bool {
    &&& admits_action(rule, action)
    &&& admits_operation(rule, action)
    &&& admits_markers(rule, action)
    &&& admits_paths(rule, action, paths)
}

fn contains_action(actions: &Vec<ActionKind>, kind: ActionKind) -> (r: bool)
    ensures
        r == actions@.contains(kind),
{
    let mut i: usize = 0;
    while i < actions.len()
        invariant
            i <= actions@.len(),
            forall|j: int| 0 <= j < i ==> actions@[j] != kind,
        decreases actions@.len() - i,
    {
        if actions[i] == kind {
            return true;
        }
        i = i + 1;
    }
    false
}

/// Whether a rule applies to an action, its symbols aside.
pub fn matches_non_symbol_constraints(
    rule: &Rule,
    action: &ActionDescriptor,
    paths: &RulePaths,
) -> (r: bool)
    ensures
        r == constraints_match(*rule, action@, *paths),
{
    if rule.actions.len() > 0 && !contains_action(&rule.actions, action.action) {
        return false;
    }
    if rule.operations.len() > 0 {
        let mut found = false;
        let mut i: usize = 0;
        while i < rule.operations.len()
            invariant
                i <= rule.operations@.len(),
                found == exists|j: int|
                    0 <= j < i && text::lowered(#[trigger] rule.operations@[j]@) == text::lowered(
                        action.operation@,
                    ),
            decreases rule.operations@.len() - i,
        {
            if text::same_ignoring_case(rule.operations[i].as_str(), action.operation.as_str()) {
                found = true;
            }
            i = i + 1;
        }
        if !found {
            return false;
        }
    }
    let mut whole = action.operation.clone();
    whole.append(" ");
    match &action.command {
        Some(command) => {
            whole.append(command.as_str());
        },
        None => {},
    }
    assert(action.command is None ==> whole@ =~= action.operation@ + " "@ + Seq::<char>::empty());
    let hay = text::lower_chars(whole.as_str());
    if rule.operation_contains.len() > 0 {
        let mut found = false;
        let mut i: usize = 0;
        while i < rule.operation_contains.len()
            invariant
                i <= rule.operation_contains@.len(),
                hay@ == searchable(action@),
                found == exists|j: int|
                    0 <= j < i && text::occurs(
                        searchable(action@),
                        text::lowered(#[trigger] rule.operation_contains@[j]@),
                    ),
            decreases rule.operation_contains@.len() - i,
        {
            let needle = text::to_lower(rule.operation_contains[i].as_str());
            if text::chars_contain(&hay, needle.as_str()) {
                found = true;
            }
            i = i + 1;
        }
        if !found {
            return false;
        }
    }
    let included = rule.include_paths.len() == 0 || paths.included.is_any_related(
        action.target_files.len(),
        rule.include_paths.len(),
    );
    included && !paths.excluded.is_any_related(action.target_files.len(), rule.exclude_paths.len())
}

// ---------------------------------------------------------------------------
// What evidence is worth
// ---------------------------------------------------------------------------

/// The trust status of a profile: the last one, where several have its name.
pub open spec fn status_of(
    trust: Seq<ProviderTrustStatus>,
    profile: Seq<char>,
) -> Option<ProviderTrustStatus>
    decreases trust.len(),
{
    if trust.len() == 0 {
        None
    } else if trust.last().profile_id@ == profile {
        Some(trust.last())
    } else {
        status_of(trust.drop_last(), profile)
    }
}

/// The binding that a snapshot was made with is the machine's binding now.
pub open spec fn binding_current(
    trust: Seq<ProviderTrustStatus>,
    profile: Seq<char>,
    source: SemanticSource,
) -> bool {
    match status_of(trust, profile) {
        Some(status) => {
            &&& status.ready
            &&& model::opt_view(status.registration_id) == model::opt_view(
                source.provider_registration_id,
            )
            &&& model::opt_view(status.executable_sha256) == model::opt_view(
                source.executable_sha256,
            )
        },
        None => false,
    }
}

/// A snapshot speaks of the worktree as it is now, by a provider that is
/// trusted now.
pub open spec fn snapshot_fresh(
    source: Option<SemanticSource>,
    trust: Seq<ProviderTrustStatus>,
    profile: Seq<char>,
    state: Option<SourceState>,
) -> bool {
    match (source, state) {
        (Some(source), Some(state)) => {
            &&& source.trust == SemanticSourceTrust::TrustedProvider
            &&& binding_current(trust, profile, source)
            &&& source.worktree_fingerprint@ == state.fingerprint@
            &&& source.head_revision@ == state.head@
        },
        _ => false,
    }
}

/// An impact certainly touches a symbol.
pub open spec fn impact_touches(impact: ToolImpact, symbol: ResolvedSymbol) -> bool {
    &&& impact.path@ == symbol.path@
    &&& impact.whole_file || exists|k: int|
        0 <= k < impact.ranges@.len() && model::ranges_meet(
            (#[trigger] impact.ranges@[k]).start_line as int,
            impact.ranges@[k].end_line as int,
            symbol.start_line as int,
            symbol.end_line as int,
        )
}

/// An action certainly touches a symbol.
pub open spec fn certainly_touched(impacts: Seq<ToolImpact>, symbol: ResolvedSymbol) -> bool {
    exists|i: int| 0 <= i < impacts.len() && impact_touches(#[trigger] impacts[i], symbol)
}

/// The grade of evidence that a resolution gives.
pub open spec fn grade_of(kind: SemanticResolutionKind) -> EvidenceGrade {
    match kind {
        SemanticResolutionKind::DirectSemantic => EvidenceGrade::SemanticDirect,
        SemanticResolutionKind::ConfirmedLineage => EvidenceGrade::SemanticConfirmedLineage,
        SemanticResolutionKind::Unresolved => EvidenceGrade::Unavailable,
    }
}

/// The trust status of a profile, the last where there are several.
pub fn find_status<'a>(
    trust: &'a Vec<ProviderTrustStatus>,
    profile: &str,
) -> (r: Option<&'a ProviderTrustStatus>)
    ensures
        match r {
            Some(status) => status_of(trust@, profile@) == Some(*status),
            None => status_of(trust@, profile@) is None,
        },
{
    let mut i: usize = trust.len();
    assert(trust@.take(i as int) =~= trust@);
    while i > 0
        invariant
            i <= trust@.len(),
            status_of(trust@, profile@) == status_of(trust@.take(i as int), profile@),
        decreases i,
    {
        assert(trust@.take(i as int).last() == trust@[i - 1]);
        assert(trust@.take(i as int).drop_last() =~= trust@.take(i - 1));
        i = i - 1;
        if text::same(trust[i].profile_id.as_str(), profile) {
            return Some(&trust[i]);
        }
    }
    None
}

fn is_binding_current(
    trust: &Vec<ProviderTrustStatus>,
    profile: &str,
    source: &SemanticSource,
) -> (r: bool)
    ensures
        r == binding_current(trust@, profile@, *source),
{
    match find_status(trust, profile) {
        Some(status) => status.ready && model::same_opt(
            &status.registration_id,
            &source.provider_registration_id,
        ) && model::same_opt(&status.executable_sha256, &source.executable_sha256),
        None => false,
    }
}

fn is_snapshot_fresh(
    source: &Option<SemanticSource>,
    trust: &Vec<ProviderTrustStatus>,
    profile: &str,
    state: &Option<SourceState>,
) -> (r: bool)
    ensures
        r == snapshot_fresh(*source, trust@, profile@, *state),
{
    match (source, state) {
        (Some(source), Some(state)) => source.trust == SemanticSourceTrust::TrustedProvider
            && is_binding_current(trust, profile, source) && text::same(
            source.worktree_fingerprint.as_str(),
            state.fingerprint.as_str(),
        ) && text::same(source.head_revision.as_str(), state.head.as_str()),
        _ => false,
    }
}

fn is_touched_by(impact: &ToolImpact, symbol: &ResolvedSymbol) -> (r: bool)
    ensures
        r == impact_touches(*impact, *symbol),
{
    if !text::same(impact.path.as_str(), symbol.path.as_str()) {
        return false;
    }
    if impact.whole_file {
        return true;
    }
    let mut k: usize = 0;
    while k < impact.ranges.len()
        invariant
            k <= impact.ranges@.len(),
            impact.path@ == symbol.path@,
            forall|j: int|
                0 <= j < k ==> !model::ranges_meet(
                    (#[trigger] impact.ranges@[j]).start_line as int,
                    impact.ranges@[j].end_line as int,
                    symbol.start_line as int,
                    symbol.end_line as int,
                ),
        decreases impact.ranges@.len() - k,
    {
        let range: LineRange = impact.ranges[k];
        if range.start_line <= symbol.end_line && symbol.start_line <= range.end_line {
            assert(model::ranges_meet(
                impact.ranges@[k as int].start_line as int,
                impact.ranges@[k as int].end_line as int,
                symbol.start_line as int,
                symbol.end_line as int,
            ));
            return true;
        }
        k = k + 1;
    }
    false
}

fn is_certainly_touched(impacts: &Vec<ToolImpact>, symbol: &ResolvedSymbol) -> (r: bool)
    ensures
        r == certainly_touched(impacts@, *symbol),
{
    let mut i: usize = 0;
    while i < impacts.len()
        invariant
            i <= impacts@.len(),
            forall|j: int| 0 <= j < i ==> !impact_touches(#[trigger] impacts@[j], *symbol),
        decreases impacts@.len() - i,
    {
        if is_touched_by(&impacts[i], symbol) {
            return true;
        }
        i = i + 1;
    }
    false
}

// ---------------------------------------------------------------------------
// Evaluation before an action
// ---------------------------------------------------------------------------

/// What symbol scopes contribute to a decision.
pub struct SymbolFindings {
    pub context: Seq<Seq<char>>,
    pub evidence: Seq<EvidenceView>,
    pub hard: Seq<RuleEffect>,
}

/// No contribution.
pub open spec fn no_findings() -> SymbolFindings {
    SymbolFindings { context: Seq::empty(), evidence: Seq::empty(), hard: Seq::empty() }
}

/// One contribution after another.
pub open spec fn then_findings(a: SymbolFindings, b: SymbolFindings) -> SymbolFindings {
    SymbolFindings {
        context: a.context + b.context,
        evidence: a.evidence + b.evidence,
        hard: a.hard + b.hard,
    }
}

/// The warning where the resolver fails.
pub open spec fn resolver_warning(rule: Rule, error: Seq<char>) -> Seq<char> {
    "Project Brain advisory：规则 "@ + rule.id@ + " 的 semantic resolver 不可用（"@ + error
        + "）；基础设施失败按 fail-open 处理，本次不执行符号硬阻断。"@
}

/// Why evidence on a symbol is advisory only.
pub open spec fn advisory_reason(source: Option<SemanticSource>, fresh: bool) -> Seq<char> {
    if source is None || source->0.trust != SemanticSourceTrust::TrustedProvider {
        "semantic snapshot 缺少 trusted Provider 证明"@
    } else if !fresh {
        "semantic snapshot 已过期"@
    } else {
        "工具影响范围无法确定"@
    }
}

/// The warning where evidence on a symbol is advisory only.
pub open spec fn advisory_warning(rule: Rule, symbol: ResolvedSymbol, reason: Seq<char>) -> Seq<
    char,
> {
    "Project Brain advisory：规则 "@ + rule.id@ + " 可能涉及符号 "@ + symbol.display_name@
        + "，但"@ + reason + "；本次不执行硬阻断。"@ + rule.message@
}

/// What one symbol scope of an applying rule contributes.
pub open spec fn scope_findings(
    rule: Rule,
    scope: RuleSymbolScope,
    outcome: Result<SemanticResolution, String>,
    trust: Seq<ProviderTrustStatus>,
    state: Option<SourceState>,
    targets: Seq<Seq<char>>,
    impacts: Seq<ToolImpact>,
) -> SymbolFindings {
    match outcome {
        Err(error) => SymbolFindings {
            context: seq![resolver_warning(rule, error@)],
            evidence: seq![
                EvidenceView {
                    rule_id: rule.id@,
                    effect: RuleEffect::InjectContext,
                    message: resolver_warning(rule, error@),
                    rationale: rule.rationale@,
                    grade: Some(EvidenceGrade::Unavailable),
                    symbol_id: None,
                    snapshot_fingerprint: None,
                },
            ],
            hard: Seq::empty(),
        },
        Ok(resolution) => match resolution.resolved_symbol {
            None => no_findings(),
            Some(symbol) => if !targets.contains(symbol.path@) {
                no_findings()
            } else {
                let fresh = snapshot_fresh(
                    resolution.source,
                    trust,
                    scope.provider_profile_id@,
                    state,
                );
                if fresh && certainly_touched(impacts, symbol) {
                    SymbolFindings {
                        context: if rule.effect != RuleEffect::Block {
                            seq![rule.message@]
                        } else {
                            Seq::empty()
                        },
                        evidence: seq![
                            EvidenceView {
                                rule_id: rule.id@,
                                effect: rule.effect,
                                message: rule.message@,
                                rationale: rule.rationale@,
                                grade: Some(grade_of(resolution.kind)),
                                symbol_id: Some(symbol.id@),
                                snapshot_fingerprint: model::opt_view(
                                    resolution.latest_snapshot_fingerprint,
                                ),
                            },
                        ],
                        hard: seq![rule.effect],
                    }
                } else {
                    let warning = advisory_warning(
                        rule,
                        symbol,
                        advisory_reason(resolution.source, fresh),
                    );
                    SymbolFindings {
                        context: seq![warning],
                        evidence: seq![
                            EvidenceView {
                                rule_id: rule.id@,
                                effect: RuleEffect::InjectContext,
                                message: warning,
                                rationale: rule.rationale@,
                                grade: Some(EvidenceGrade::Unavailable),
                                symbol_id: Some(symbol.id@),
                                snapshot_fingerprint: model::opt_view(
                                    resolution.latest_snapshot_fingerprint,
                                ),
                            },
                        ],
                        hard: Seq::empty(),
                    }
                }
            },
        },
    }
}

/// What the first `n` symbol scopes of an applying rule contribute.
pub open spec fn rule_findings(
    rule: Rule,
    outcomes: Seq<Result<SemanticResolution, String>>,
    n: nat,
    trust: Seq<ProviderTrustStatus>,
    state: Option<SourceState>,
    targets: Seq<Seq<char>>,
    impacts: Seq<ToolImpact>,
) -> SymbolFindings
    decreases n,
{
    if n == 0 {
        no_findings()
    } else {
        then_findings(
            rule_findings(rule, outcomes, (n - 1) as nat, trust, state, targets, impacts),
            scope_findings(
                rule,
                rule.symbol_scopes@[n - 1],
                outcomes[n - 1],
                trust,
                state,
                targets,
                impacts,
            ),
        )
    }
}

/// What the symbol scopes of a rule contribute to the decision on an action:
/// nothing unless the rule is active and applies.
pub open spec fn applying_findings(
    rule: Rule,
    paths: RulePaths,
    outcomes: Seq<Result<SemanticResolution, String>>,
    trust: Seq<ProviderTrustStatus>,
    state: Option<SourceState>,
    descriptor: ActionView,
    impacts: Seq<ToolImpact>,
) -> SymbolFindings {
    if rule.status == MemoryStatus::Active && constraints_match(rule, descriptor, paths) {
        rule_findings(
            rule,
            outcomes,
            rule.symbol_scopes@.len(),
            trust,
            state,
            descriptor.target_files,
            impacts,
        )
    } else {
        no_findings()
    }
}

/// What the symbol scopes of the first `n` rules contribute.
pub open spec fn all_findings(
    rules: Seq<Rule>,
    paths: Seq<RulePaths>,
    outcomes: Seq<Vec<Result<SemanticResolution, String>>>,
    n: nat,
    trust: Seq<ProviderTrustStatus>,
    state: Option<SourceState>,
    descriptor: ActionView,
    impacts: Seq<ToolImpact>,
) -> SymbolFindings
    decreases n,
{
    if n == 0 {
        no_findings()
    } else {
        then_findings(
            all_findings(
                rules,
                paths,
                outcomes,
                (n - 1) as nat,
                trust,
                state,
                descriptor,
                impacts,
            ),
            applying_findings(
                rules[n - 1],
                paths[n - 1],
                outcomes[n - 1]@,
                trust,
                state,
                descriptor,
                impacts,
            ),
        )
    }
}

/// The decision that contributions come to.
pub open spec fn findings_decision(f: SymbolFindings) -> DecisionKind {
    if f.hard.contains(RuleEffect::Block) {
        DecisionKind::Block
    } else if f.hard.contains(RuleEffect::RequireReview) {
        DecisionKind::RequireReview
    } else if f.hard.contains(RuleEffect::Escalate) {
        DecisionKind::Escalate
    } else if f.context.len() > 0 {
        DecisionKind::AllowWithContext
    } else {
        DecisionKind::Allow
    }
}

/// The decision of the symbol rules on an action.
pub open spec fn symbol_decision(
    schema_version: u32,
    rules: Seq<Rule>,
    paths: Seq<RulePaths>,
    outcomes: Seq<Vec<Result<SemanticResolution, String>>>,
    trust: Seq<ProviderTrustStatus>,
    state: Option<SourceState>,
    descriptor: ActionView,
    impacts: Seq<ToolImpact>,
) -> DecisionView {
    let f = all_findings(rules, paths, outcomes, rules.len(), trust, state, descriptor, impacts);
    DecisionView {
        schema_version,
        decision: findings_decision(f),
        summary: "semantic symbol scope 已按证据等级评估"@,
        context: f.context,
        evidence: f.evidence,
    }
}

/// One path relation for each rule, and one resolution for each symbol scope.
pub open spec fn shapes_fit(
    rules: Seq<Rule>,
    paths: Seq<RulePaths>,
    outcomes: Seq<Vec<Result<SemanticResolution, String>>>,
) -> bool {
    &&& paths.len() == rules.len()
    &&& outcomes.len() == rules.len()
    &&& forall|i: int|
        0 <= i < rules.len() ==> (#[trigger] outcomes[i])@.len() == rules[i].symbol_scopes@.len()
}

fn contains_effect(effects: &Vec<RuleEffect>, effect: RuleEffect) -> (r: bool)
    ensures
        r == effects@.contains(effect),
{
    let mut i: usize = 0;
    while i < effects.len()
        invariant
            i <= effects@.len(),
            forall|j: int| 0 <= j < i ==> effects@[j] != effect,
        decreases effects@.len() - i,
    {
        if effects[i] == effect {
            return true;
        }
        i = i + 1;
    }
    false
}

/// What has been contributed so far.
struct Collected {
    context: Vec<String>,
    evidence: Vec<Evidence>,
    hard: Vec<RuleEffect>,
}

impl Collected {
    spec fn found(self) -> SymbolFindings {
        SymbolFindings {
            context: text::views(self.context@),
            evidence: model::evidence_views(self.evidence@),
            hard: self.hard@,
        }
    }

    fn add_context(&mut self, line: String)
        ensures
            final(self).found() == (SymbolFindings {
                context: old(self).found().context.push(line@),
                ..old(self).found()
            }),
    {
        self.context.push(line);
        assert(text::views(self.context@) =~= text::views(old(self).context@).push(line@));
    }

    fn add_evidence(&mut self, item: Evidence)
        ensures
            final(self).found() == (SymbolFindings {
                evidence: old(self).found().evidence.push(item@),
                ..old(self).found()
            }),
    {
        self.evidence.push(item);
        assert(model::evidence_views(self.evidence@) =~= model::evidence_views(
            old(self).evidence@,
        ).push(item@));
    }
}

fn collect_scope(
    out: &mut Collected,
    rule: &Rule,
    scope: &RuleSymbolScope,
    outcome: &Result<SemanticResolution, String>,
    trust: &Vec<ProviderTrustStatus>,
    state: &Option<SourceState>,
    targets: &Vec<String>,
    impacts: &Vec<ToolImpact>,
)
    ensures
        final(out).found() == then_findings(
            old(out).found(),
            scope_findings(
                *rule,
                *scope,
                *outcome,
                trust@,
                *state,
                text::views(targets@),
                impacts@,
            ),
        ),
{
    let ghost before = out.found();
    match outcome {
        Err(error) => {
            let mut warning = "Project Brain advisory：规则 ".to_owned();
            warning.append(rule.id.as_str());
            warning.append(" 的 semantic resolver 不可用（");
            warning.append(error.as_str());
            warning.append(
                "）；基础设施失败按 fail-open 处理，本次不执行符号硬阻断。",
            );
            out.add_context(warning.clone());
            out.add_evidence(
                Evidence {
                    rule_id: rule.id.clone(),
                    effect: RuleEffect::InjectContext,
                    message: warning,
                    rationale: rule.rationale.clone(),
                    grade: Some(EvidenceGrade::Unavailable),
                    symbol_id: None,
                    snapshot_fingerprint: None,
                },
            );
        },
        Ok(resolution) => {
            if let Some(symbol) = &resolution.resolved_symbol {
                if text::list_contains(targets, symbol.path.as_str()) {
                    let fresh = is_snapshot_fresh(
                        &resolution.source,
                        trust,
                        scope.provider_profile_id.as_str(),
                        state,
                    );
                    if fresh && is_certainly_touched(impacts, symbol) {
                        let grade = match resolution.kind {
                            SemanticResolutionKind::DirectSemantic => EvidenceGrade::SemanticDirect,
                            SemanticResolutionKind::ConfirmedLineage =>
                                EvidenceGrade::SemanticConfirmedLineage,
                            SemanticResolutionKind::Unresolved => EvidenceGrade::Unavailable,
                        };
                        out.add_evidence(
                            Evidence {
                                rule_id: rule.id.clone(),
                                effect: rule.effect,
                                message: rule.message.clone(),
                                rationale: rule.rationale.clone(),
                                grade: Some(grade),
                                symbol_id: Some(symbol.id.clone()),
                                snapshot_fingerprint: model::clone_opt(
                                    &resolution.latest_snapshot_fingerprint,
                                ),
                            },
                        );
                        out.hard.push(rule.effect);
                        if rule.effect != RuleEffect::Block {
                            out.add_context(rule.message.clone());
                        }
                    } else {
                        let trusted = match &resolution.source {
                            Some(source) => source.trust == SemanticSourceTrust::TrustedProvider,
                            None => false,
                        };
                        let reason = if !trusted {
                            "semantic snapshot 缺少 trusted Provider 证明"
                        } else if !fresh {
                            "semantic snapshot 已过期"
                        } else {
                            "工具影响范围无法确定"
                        };
                        let mut warning = "Project Brain advisory：规则 ".to_owned();
                        warning.append(rule.id.as_str());
                        warning.append(" 可能涉及符号 ");
                        warning.append(symbol.display_name.as_str());
                        warning.append("，但");
                        warning.append(reason);
                        warning.append("；本次不执行硬阻断。");
                        warning.append(rule.message.as_str());
                        out.add_context(warning.clone());
                        out.add_evidence(
                            Evidence {
                                rule_id: rule.id.clone(),
                                effect: RuleEffect::InjectContext,
                                message: warning,
                                rationale: rule.rationale.clone(),
                                grade: Some(EvidenceGrade::Unavailable),
                                symbol_id: Some(symbol.id.clone()),
                                snapshot_fingerprint: model::clone_opt(
                                    &resolution.latest_snapshot_fingerprint,
                                ),
                            },
                        );
                    }
                }
            }
        },
    }
    proof {
        let added = scope_findings(
            *rule,
            *scope,
            *outcome,
            trust@,
            *state,
            text::views(targets@),
            impacts@,
        );
        let want = then_findings(before, added);
        assert(out.found().context =~= want.context);
        assert(out.found().evidence =~= want.evidence);
        assert(out.found().hard =~= want.hard);
    }
}

fn collect_rule(
    out: &mut Collected,
    rule: &Rule,
    outcomes: &Vec<Result<SemanticResolution, String>>,
    trust: &Vec<ProviderTrustStatus>,
    state: &Option<SourceState>,
    targets: &Vec<String>,
    impacts: &Vec<ToolImpact>,
)
    requires
        outcomes@.len() == rule.symbol_scopes@.len(),
    ensures
        final(out).found() == then_findings(
            old(out).found(),
            rule_findings(
                *rule,
                outcomes@,
                rule.symbol_scopes@.len(),
                trust@,
                *state,
                text::views(targets@),
                impacts@,
            ),
        ),
{
    let ghost before = out.found();
    let mut i: usize = 0;
    proof {
        let none = then_findings(before, no_findings());
        assert(none.context =~= before.context);
        assert(none.evidence =~= before.evidence);
        assert(none.hard =~= before.hard);
    }
    while i < rule.symbol_scopes.len()
        invariant
            i <= rule.symbol_scopes@.len(),
            outcomes@.len() == rule.symbol_scopes@.len(),
            out.found() == then_findings(
                before,
                rule_findings(
                    *rule,
                    outcomes@,
                    i as nat,
                    trust@,
                    *state,
                    text::views(targets@),
                    impacts@,
                ),
            ),
        decreases rule.symbol_scopes@.len() - i,
    {
        let ghost so_far = rule_findings(
            *rule,
            outcomes@,
            i as nat,
            trust@,
            *state,
            text::views(targets@),
            impacts@,
        );
        collect_scope(
            out,
            rule,
            &rule.symbol_scopes[i],
            &outcomes[i],
            trust,
            state,
            targets,
            impacts,
        );
        proof {
            let next = scope_findings(
                *rule,
                rule.symbol_scopes@[i as int],
                outcomes@[i as int],
                trust@,
                *state,
                text::views(targets@),
                impacts@,
            );
            then_findings_associative(before, so_far, next);
        }
        i = i + 1;
    }
}

proof fn then_findings_associative(a: SymbolFindings, b: SymbolFindings, c: SymbolFindings)
    ensures
        then_findings(then_findings(a, b), c) == then_findings(a, then_findings(b, c)),
{
    let l = then_findings(then_findings(a, b), c);
    let r = then_findings(a, then_findings(b, c));
    assert(l.context =~= r.context);
    assert(l.evidence =~= r.evidence);
    assert(l.hard =~= r.hard);
}

/// The decision of the symbol rules on an action.
///
/// Only a symbol that the action certainly touches, resolved in a snapshot of
/// the worktree as it is now by a provider that is trusted now, carries the
/// effect of its rule; everything else is context.
pub fn evaluate_symbol_rules(
    schema_version: u32,
    rules: &Vec<Rule>,
    paths: &Vec<RulePaths>,
    outcomes: &Vec<Vec<Result<SemanticResolution, String>>>,
    trust: &Vec<ProviderTrustStatus>,
    state: &Option<SourceState>,
    descriptor: &ActionDescriptor,
    action: &ToolAction,
) -> (r: Decision)
    requires
        shapes_fit(rules@, paths@, outcomes@),
    ensures
        r@ == symbol_decision(
            schema_version,
            rules@,
            paths@,
            outcomes@,
            trust@,
            *state,
            descriptor@,
            action.deterministic_impacts@,
        ),
{
    let mut out = Collected { context: Vec::new(), evidence: Vec::new(), hard: Vec::new() };
    let mut i: usize = 0;
    proof {
        assert(out.found().context =~= no_findings().context);
        assert(out.found().evidence =~= no_findings().evidence);
        assert(out.found().hard =~= no_findings().hard);
    }
    while i < rules.len()
        invariant
            i <= rules@.len(),
            shapes_fit(rules@, paths@, outcomes@),
            out.found() == all_findings(
                rules@,
                paths@,
                outcomes@,
                i as nat,
                trust@,
                *state,
                descriptor@,
                action.deterministic_impacts@,
            ),
        decreases rules@.len() - i,
    {
        let rule = &rules[i];
        let ghost before = out.found();
        assert(outcomes@[i as int]@.len() == rules@[i as int].symbol_scopes@.len());
        if rule.status == MemoryStatus::Active && rule.symbol_scopes.len() > 0
            && matches_non_symbol_constraints(rule, descriptor, &paths[i]) {
            collect_rule(
                &mut out,
                rule,
                &outcomes[i],
                trust,
                state,
                &descriptor.target_files,
                &action.deterministic_impacts,
            );
        } else {
            proof {
                let none = then_findings(before, no_findings());
                assert(none.context =~= before.context);
                assert(none.evidence =~= before.evidence);
                assert(none.hard =~= before.hard);
            }
        }
        i = i + 1;
    }
    let decision = if contains_effect(&out.hard, RuleEffect::Block) {
        DecisionKind::Block
    } else if contains_effect(&out.hard, RuleEffect::RequireReview) {
        DecisionKind::RequireReview
    } else if contains_effect(&out.hard, RuleEffect::Escalate) {
        DecisionKind::Escalate
    } else if out.context.len() > 0 {
        DecisionKind::AllowWithContext
    } else {
        DecisionKind::Allow
    };
    Decision {
        schema_version,
        decision,
        summary: "semantic symbol scope 已按证据等级评估".to_owned(),
        context: out.context,
        evidence: out.evidence,
    }
}

// ---------------------------------------------------------------------------
// Evaluation when work is about to stop
// ---------------------------------------------------------------------------

/// What is known of one symbol scope when work is about to stop: how it
/// resolves, how the symbol's path lies to the paths of the rule (row zero),
/// and what the difference to the head revision is in that file.
#[derive(Debug, PartialEq, Eq)]
pub struct StopScope {
    pub outcome: Result<SemanticResolution, String>,
    pub paths: RulePaths,
    pub hunks: Result<Vec<DiffHunk>, String>,
}

/// What symbol scopes say when work is about to stop.
pub struct StopFindings {
    pub violations: Seq<Seq<char>>,
    pub feedback: Seq<FeedbackView>,
}

/// Nothing to say.
pub open spec fn no_stop_findings() -> StopFindings {
    StopFindings { violations: Seq::empty(), feedback: Seq::empty() }
}

/// One saying after another.
pub open spec fn then_stop(a: StopFindings, b: StopFindings) -> StopFindings {
    StopFindings { violations: a.violations + b.violations, feedback: a.feedback + b.feedback }
}

/// One violation.
pub open spec fn one_violation(line: Seq<char>) -> StopFindings {
    StopFindings { violations: seq![line], feedback: Seq::empty() }
}

/// One warning.
pub open spec fn one_warning(line: Seq<char>) -> StopFindings {
    StopFindings { violations: Seq::empty(), feedback: seq![(FeedbackSeverity::Warning, line)] }
}

/// The snapshot is a clean one of the head revision that differences are
/// taken against.
pub open spec fn baseline_eligible(
    base: Seq<char>,
    head: Option<Seq<char>>,
    source: Option<SemanticSource>,
    trust: Seq<ProviderTrustStatus>,
    profile: Seq<char>,
) -> bool {
    &&& base == "HEAD"@
    &&& source matches Some(source)
    &&& source.trust == SemanticSourceTrust::TrustedProvider
    &&& binding_current(trust, profile, source)
    &&& source.worktree_clean
    &&& head == Some(source.head_revision@)
}

/// A difference touches the lines of a symbol in the old file; a pure
/// insertion touches it from the line before the symbol to its last line.
pub open spec fn hunk_touches(hunk: DiffHunk, symbol: ResolvedSymbol) -> bool {
    match hunk.old {
        Some(range) => model::ranges_meet(
            range.start_line as int,
            range.end_line as int,
            symbol.start_line as int,
            symbol.end_line as int,
        ),
        None => hunk.old_start + 1 >= symbol.start_line && hunk.old_start <= symbol.end_line,
    }
}

/// One of the differences touches the symbol.
pub open spec fn any_hunk_touches(hunks: Seq<DiffHunk>, symbol: ResolvedSymbol) -> bool {
    exists|i: int| 0 <= i < hunks.len() && hunk_touches(#[trigger] hunks[i], symbol)
}

/// What one symbol scope of a rule says when work is about to stop.
pub open spec fn stop_scope_findings(
    rule: Rule,
    scope: RuleSymbolScope,
    case: StopScope,
    base: Seq<char>,
    head: Option<Seq<char>>,
    trust: Seq<ProviderTrustStatus>,
) -> StopFindings {
    match case.outcome {
        Err(error) => one_warning(
            "规则 "@ + rule.id@ + " 的 semantic resolver 不可用（"@ + error@
                + "）；Stop 按 fail-open 处理该符号。"@,
        ),
        Ok(resolution) => match resolution.resolved_symbol {
            None => one_warning(
                "规则 "@ + rule.id@
                    + " 的符号锚点当前 unresolved；Stop 不以推断结果阻断。"@,
            ),
            Some(symbol) => if !baseline_eligible(
                base,
                head,
                resolution.source,
                trust,
                scope.provider_profile_id@,
            ) {
                one_warning(
                    "规则 "@ + rule.id@
                        + " 的 semantic snapshot 不是当前干净 HEAD 基线；Stop 按 advisory 处理符号 "@
                        + symbol.display_name@ + "。"@,
                )
            } else if rule.include_paths@.len() > 0 && !case.paths.included.related_to_any(
                0,
                rule.include_paths@.len() as int,
            ) {
                no_stop_findings()
            } else if case.paths.excluded.related_to_any(0, rule.exclude_paths@.len() as int) {
                no_stop_findings()
            } else {
                match case.hunks {
                    Err(error) => one_warning(
                        "规则 "@ + rule.id@ + " 无法读取 "@ + symbol.path@ + " 的 Git hunk（"@
                            + error@ + "）；Stop 按 fail-open 处理。"@,
                    ),
                    Ok(hunks) => if any_hunk_touches(hunks@, symbol) {
                        one_violation(
                            rule.id@ + " 命中 "@ + symbol.path@ + ":"@ + text::decimal(
                                symbol.start_line as nat,
                            ) + "-"@ + text::decimal(symbol.end_line as nat)
                                + "（semantic_baseline_diff）："@ + rule.message@,
                        )
                    } else {
                        no_stop_findings()
                    },
                }
            },
        },
    }
}

/// A rule that can keep work from stopping by its symbols.
pub open spec fn stop_rule(rule: Rule) -> bool {
    &&& rule.status == MemoryStatus::Active
    &&& rule.effect == RuleEffect::Block || rule.effect == RuleEffect::Escalate
}

/// What the first `n` symbol scopes of a rule say.
pub open spec fn stop_rule_findings(
    rule: Rule,
    cases: Seq<StopScope>,
    n: nat,
    base: Seq<char>,
    head: Option<Seq<char>>,
    trust: Seq<ProviderTrustStatus>,
) -> StopFindings
    decreases n,
{
    if n == 0 {
        no_stop_findings()
    } else {
        then_stop(
            stop_rule_findings(rule, cases, (n - 1) as nat, base, head, trust),
            stop_scope_findings(
                rule,
                rule.symbol_scopes@[n - 1],
                cases[n - 1],
                base,
                head,
                trust,
            ),
        )
    }
}

/// What the symbol scopes of the first `n` rules say.
pub open spec fn all_stop_findings(
    rules: Seq<Rule>,
    cases: Seq<Vec<StopScope>>,
    n: nat,
    base: Seq<char>,
    head: Option<Seq<char>>,
    trust: Seq<ProviderTrustStatus>,
) -> StopFindings
    decreases n,
{
    if n == 0 {
        no_stop_findings()
    } else {
        then_stop(
            all_stop_findings(rules, cases, (n - 1) as nat, base, head, trust),
            if stop_rule(rules[n - 1]) {
                stop_rule_findings(
                    rules[n - 1],
                    cases[n - 1]@,
                    rules[n - 1].symbol_scopes@.len(),
                    base,
                    head,
                    trust,
                )
            } else {
                no_stop_findings()
            },
        )
    }
}

/// One case for each symbol scope of each rule.
pub open spec fn stop_shapes_fit(rules: Seq<Rule>, cases: Seq<Vec<StopScope>>) -> bool {
    &&& cases.len() == rules.len()
    &&& forall|i: int|
        0 <= i < rules.len() ==> (#[trigger] cases[i])@.len() == rules[i].symbol_scopes@.len()
}

fn is_any_hunk_touching(hunks: &Vec<DiffHunk>, symbol: &ResolvedSymbol) -> (r: bool)
    ensures
        r == any_hunk_touches(hunks@, *symbol),
{
    let mut i: usize = 0;
    while i < hunks.len()
        invariant
            i <= hunks@.len(),
            forall|j: int| 0 <= j < i ==> !hunk_touches(#[trigger] hunks@[j], *symbol),
        decreases hunks@.len() - i,
    {
        let hunk: DiffHunk = hunks[i];
        let touches = match hunk.old {
            Some(range) => range.start_line <= symbol.end_line && symbol.start_line
                <= range.end_line,
            None => (hunk.old_start >= symbol.start_line || symbol.start_line - hunk.old_start
                <= 1) && hunk.old_start <= symbol.end_line,
        };
        if touches {
            assert(hunk_touches(hunks@[i as int], *symbol));
            return true;
        }
        i = i + 1;
    }
    false
}

fn is_baseline_eligible(
    base: &str,
    head: &Option<String>,
    source: &Option<SemanticSource>,
    trust: &Vec<ProviderTrustStatus>,
    profile: &str,
) -> (r: bool)
    ensures
        r == baseline_eligible(base@, model::opt_view(*head), *source, trust@, profile@),
{
    if !text::same(base, "HEAD") {
        return false;
    }
    match source {
        Some(source) => source.trust == SemanticSourceTrust::TrustedProvider && is_binding_current(
            trust,
            profile,
            source,
        ) && source.worktree_clean && model::opt_is(head, source.head_revision.as_str()),
        None => false,
    }
}

/// What has been said so far.
struct Said {
    violations: Vec<String>,
    feedback: Vec<FeedbackItem>,
}

impl Said {
    spec fn found(self) -> StopFindings {
        StopFindings {
            violations: text::views(self.violations@),
            feedback: model::feedback_views(self.feedback@),
        }
    }

    fn warn(&mut self, line: String)
        ensures
            final(self).found() == then_stop(old(self).found(), one_warning(line@)),
    {
        self.feedback.push(FeedbackItem { severity: FeedbackSeverity::Warning, text: line });
        proof {
            let want = then_stop(old(self).found(), one_warning(line@));
            assert(self.found().feedback =~= want.feedback);
            assert(self.found().violations =~= want.violations);
        }
    }

    fn violate(&mut self, line: String)
        ensures
            final(self).found() == then_stop(old(self).found(), one_violation(line@)),
    {
        self.violations.push(line);
        proof {
            let want = then_stop(old(self).found(), one_violation(line@));
            assert(self.found().feedback =~= want.feedback);
            assert(self.found().violations =~= want.violations);
        }
    }
}

proof fn then_stop_nothing(a: StopFindings)
    ensures
        then_stop(a, no_stop_findings()) == a,
{
    let r = then_stop(a, no_stop_findings());
    assert(r.violations =~= a.violations);
    assert(r.feedback =~= a.feedback);
}

proof fn then_stop_associative(a: StopFindings, b: StopFindings, c: StopFindings)
    ensures
        then_stop(then_stop(a, b), c) == then_stop(a, then_stop(b, c)),
{
    let l = then_stop(then_stop(a, b), c);
    let r = then_stop(a, then_stop(b, c));
    assert(l.violations =~= r.violations);
    assert(l.feedback =~= r.feedback);
}

fn say_scope(
    out: &mut Said,
    rule: &Rule,
    scope: &RuleSymbolScope,
    case: &StopScope,
    base: &str,
    head: &Option<String>,
    trust: &Vec<ProviderTrustStatus>,
)
    ensures
        final(out).found() == then_stop(
            old(out).found(),
            stop_scope_findings(*rule, *scope, *case, base@, model::opt_view(*head), trust@),
        ),
{
    proof {
        then_stop_nothing(out.found());
    }
    let resolution = match &case.outcome {
        Err(error) => {
            let mut line = "规则 ".to_owned();
            line.append(rule.id.as_str());
            line.append(" 的 semantic resolver 不可用（");
            line.append(error.as_str());
            line.append("）；Stop 按 fail-open 处理该符号。");
            out.warn(line);
            return;
        },
        Ok(resolution) => resolution,
    };
    let symbol = match &resolution.resolved_symbol {
        None => {
            let mut line = "规则 ".to_owned();
            line.append(rule.id.as_str());
            line.append(" 的符号锚点当前 unresolved；Stop 不以推断结果阻断。");
            out.warn(line);
            return;
        },
        Some(symbol) => symbol,
    };
    if !is_baseline_eligible(
        base,
        head,
        &resolution.source,
        trust,
        scope.provider_profile_id.as_str(),
    ) {
        let mut line = "规则 ".to_owned();
        line.append(rule.id.as_str());
        line.append(
            " 的 semantic snapshot 不是当前干净 HEAD 基线；Stop 按 advisory 处理符号 ",
        );
        line.append(symbol.display_name.as_str());
        line.append("。");
        out.warn(line);
        return;
    }
    if rule.include_paths.len() > 0 && !case.paths.included.is_related_to_any(
        0,
        rule.include_paths.len(),
    ) {
        return;
    }
    if case.paths.excluded.is_related_to_any(0, rule.exclude_paths.len()) {
        return;
    }
    match &case.hunks {
        Err(error) => {
            let mut line = "规则 ".to_owned();
            line.append(rule.id.as_str());
            line.append(" 无法读取 ");
            line.append(symbol.path.as_str());
            line.append(" 的 Git hunk（");
            line.append(error.as_str());
            line.append("）；Stop 按 fail-open 处理。");
            out.warn(line);
        },
        Ok(hunks) => {
            if is_any_hunk_touching(hunks, symbol) {
                let start = text::decimal_text(symbol.start_line as u64);
                let end = text::decimal_text(symbol.end_line as u64);
                let mut line = rule.id.clone();
                line.append(" 命中 ");
                line.append(symbol.path.as_str());
                line.append(":");
                line.append(start.as_str());
                line.append("-");
                line.append(end.as_str());
                line.append("（semantic_baseline_diff）：");
                line.append(rule.message.as_str());
                out.violate(line);
            }
        },
    }
}

fn say_rule(
    out: &mut Said,
    rule: &Rule,
    cases: &Vec<StopScope>,
    base: &str,
    head: &Option<String>,
    trust: &Vec<ProviderTrustStatus>,
)
    requires
        cases@.len() == rule.symbol_scopes@.len(),
    ensures
        final(out).found() == then_stop(
            old(out).found(),
            stop_rule_findings(
                *rule,
                cases@,
                rule.symbol_scopes@.len(),
                base@,
                model::opt_view(*head),
                trust@,
            ),
        ),
{
    let ghost before = out.found();
    let mut i: usize = 0;
    proof {
        then_stop_nothing(before);
    }
    while i < rule.symbol_scopes.len()
        invariant
            i <= rule.symbol_scopes@.len(),
            cases@.len() == rule.symbol_scopes@.len(),
            out.found() == then_stop(
                before,
                stop_rule_findings(
                    *rule,
                    cases@,
                    i as nat,
                    base@,
                    model::opt_view(*head),
                    trust@,
                ),
            ),
        decreases rule.symbol_scopes@.len() - i,
    {
        let ghost so_far = stop_rule_findings(
            *rule,
            cases@,
            i as nat,
            base@,
            model::opt_view(*head),
            trust@,
        );
        say_scope(out, rule, &rule.symbol_scopes[i], &cases[i], base, head, trust);
        proof {
            then_stop_associative(
                before,
                so_far,
                stop_scope_findings(
                    *rule,
                    rule.symbol_scopes@[i as int],
                    cases@[i as int],
                    base@,
                    model::opt_view(*head),
                    trust@,
                ),
            );
        }
        i = i + 1;
    }
}

/// What the symbol rules say when work is about to stop: violations, which
/// keep it from stopping, and feedback, which does not.
pub fn evaluate_symbol_stop(
    rules: &Vec<Rule>,
    cases: &Vec<Vec<StopScope>>,
    base: &str,
    head: &Option<String>,
    trust: &Vec<ProviderTrustStatus>,
) -> (r: (Vec<String>, Vec<FeedbackItem>))
    requires
        stop_shapes_fit(rules@, cases@),
    ensures
        ({
            let f = all_stop_findings(
                rules@,
                cases@,
                rules@.len(),
                base@,
                model::opt_view(*head),
                trust@,
            );
            text::views(r.0@) == f.violations && model::feedback_views(r.1@) == f.feedback
        }),
{
    let mut out = Said { violations: Vec::new(), feedback: Vec::new() };
    let mut i: usize = 0;
    proof {
        assert(out.found().violations =~= no_stop_findings().violations);
        assert(out.found().feedback =~= no_stop_findings().feedback);
    }
    while i < rules.len()
        invariant
            i <= rules@.len(),
            stop_shapes_fit(rules@, cases@),
            out.found() == all_stop_findings(
                rules@,
                cases@,
                i as nat,
                base@,
                model::opt_view(*head),
                trust@,
            ),
        decreases rules@.len() - i,
    {
        let rule = &rules[i];
        proof {
            then_stop_nothing(out.found());
            assert(cases@[i as int]@.len() == rules@[i as int].symbol_scopes@.len());
        }
        if rule.status == MemoryStatus::Active && matches!(
            rule.effect,
            RuleEffect::Block | RuleEffect::Escalate
        ) {
            say_rule(&mut out, rule, &cases[i], base, head, trust);
        }
        i = i + 1;
    }
    (out.violations, out.feedback)
}

// ---------------------------------------------------------------------------
// Laws
// ---------------------------------------------------------------------------

/// A symbol scope that carries the effect of its rule: the rule is active and
/// applies, the symbol is a target and certainly touched, and the snapshot is
/// one of the worktree as it is now by a provider that is trusted now.
pub open spec fn carries_effect(
    rule: Rule,
    paths: RulePaths,
    scope: RuleSymbolScope,
    outcome: Result<SemanticResolution, String>,
    trust: Seq<ProviderTrustStatus>,
    state: Option<SourceState>,
    descriptor: ActionView,
    impacts: Seq<ToolImpact>,
) -> bool {
    &&& rule.status == MemoryStatus::Active
    &&& constraints_match(rule, descriptor, paths)
    &&& outcome matches Ok(resolution)
    &&& resolution.resolved_symbol matches Some(symbol)
    &&& descriptor.target_files.contains(symbol.path@)
    &&& snapshot_fresh(resolution.source, trust, scope.provider_profile_id@, state)
    &&& certainly_touched(impacts, symbol)
}

proof fn rule_hard_effects(
    rule: Rule,
    outcomes: Seq<Result<SemanticResolution, String>>,
    n: nat,
    trust: Seq<ProviderTrustStatus>,
    state: Option<SourceState>,
    paths: RulePaths,
    descriptor: ActionView,
    impacts: Seq<ToolImpact>,
    effect: RuleEffect,
) -> (k: int)
    requires
        rule.status == MemoryStatus::Active,
        constraints_match(rule, descriptor, paths),
        rule_findings(
            rule,
            outcomes,
            n,
            trust,
            state,
            descriptor.target_files,
            impacts,
        ).hard.contains(effect),
    ensures
        0 <= k < n,
        rule.effect == effect,
        carries_effect(
            rule,
            paths,
            rule.symbol_scopes@[k],
            outcomes[k],
            trust,
            state,
            descriptor,
            impacts,
        ),
    decreases n,
{
    let targets = descriptor.target_files;
    if n > 0 {
        let before = rule_findings(
            rule,
            outcomes,
            (n - 1) as nat,
            trust,
            state,
            targets,
            impacts,
        ).hard;
        let added = scope_findings(
            rule,
            rule.symbol_scopes@[n - 1],
            outcomes[n - 1],
            trust,
            state,
            targets,
            impacts,
        ).hard;
        let all = before + added;
        let at = choose|at: int| 0 <= at < all.len() && all[at] == effect;
        if at < before.len() {
            assert(before[at] == effect);
            rule_hard_effects(
                rule,
                outcomes,
                (n - 1) as nat,
                trust,
                state,
                paths,
                descriptor,
                impacts,
                effect,
            )
        } else {
            assert(added[at - before.len()] == effect);
            n - 1
        }
    } else {
        0
    }
}

proof fn all_hard_effects(
    rules: Seq<Rule>,
    paths: Seq<RulePaths>,
    outcomes: Seq<Vec<Result<SemanticResolution, String>>>,
    n: nat,
    trust: Seq<ProviderTrustStatus>,
    state: Option<SourceState>,
    descriptor: ActionView,
    impacts: Seq<ToolImpact>,
    effect: RuleEffect,
) -> (w: (int, int))
    requires
        all_findings(
            rules,
            paths,
            outcomes,
            n,
            trust,
            state,
            descriptor,
            impacts,
        ).hard.contains(effect),
    ensures
        0 <= w.0 < n,
        0 <= w.1 < rules[w.0].symbol_scopes@.len(),
        rules[w.0].effect == effect,
        carries_effect(
            rules[w.0],
            paths[w.0],
            rules[w.0].symbol_scopes@[w.1],
            outcomes[w.0]@[w.1],
            trust,
            state,
            descriptor,
            impacts,
        ),
    decreases n,
{
    if n > 0 {
        let before = all_findings(
            rules,
            paths,
            outcomes,
            (n - 1) as nat,
            trust,
            state,
            descriptor,
            impacts,
        ).hard;
        let added = applying_findings(
            rules[n - 1],
            paths[n - 1],
            outcomes[n - 1]@,
            trust,
            state,
            descriptor,
            impacts,
        ).hard;
        let all = before + added;
        let at = choose|at: int| 0 <= at < all.len() && all[at] == effect;
        if at < before.len() {
            assert(before[at] == effect);
            all_hard_effects(
                rules,
                paths,
                outcomes,
                (n - 1) as nat,
                trust,
                state,
                descriptor,
                impacts,
                effect,
            )
        } else {
            assert(added[at - before.len()] == effect);
            let k = rule_hard_effects(
                rules[n - 1],
                outcomes[n - 1]@,
                rules[n - 1].symbol_scopes@.len(),
                trust,
                state,
                paths[n - 1],
                descriptor,
                impacts,
                effect,
            );
            (n - 1, k)
        }
    } else {
        (0, 0)
    }
}

/// A symbol rule blocks an action only by evidence that is direct knowledge
/// of the worktree as it is now: some active, applying rule whose effect is
/// to block has a symbol that the action certainly touches, resolved in a
/// fresh snapshot of a provider that is trusted now.
pub proof fn blocking_needs_fresh_deterministic_evidence(
    schema_version: u32,
    rules: Seq<Rule>,
    paths: Seq<RulePaths>,
    outcomes: Seq<Vec<Result<SemanticResolution, String>>>,
    trust: Seq<ProviderTrustStatus>,
    state: Option<SourceState>,
    descriptor: ActionView,
    impacts: Seq<ToolImpact>,
)
    requires
        symbol_decision(
            schema_version,
            rules,
            paths,
            outcomes,
            trust,
            state,
            descriptor,
            impacts,
        ).decision == DecisionKind::Block,
    ensures
        exists|i: int, k: int|
            {
                &&& 0 <= i < rules.len()
                &&& 0 <= k < rules[i].symbol_scopes@.len()
                &&& rules[i].effect == RuleEffect::Block
                &&& #[trigger] carries_effect(
                    rules[i],
                    paths[i],
                    rules[i].symbol_scopes@[k],
                    outcomes[i]@[k],
                    trust,
                    state,
                    descriptor,
                    impacts,
                )
            },
{
    let w = all_hard_effects(
        rules,
        paths,
        outcomes,
        rules.len(),
        trust,
        state,
        descriptor,
        impacts,
        RuleEffect::Block,
    );
    assert(carries_effect(
        rules[w.0],
        paths[w.0],
        rules[w.0].symbol_scopes@[w.1],
        outcomes[w.0]@[w.1],
        trust,
        state,
        descriptor,
        impacts,
    ));
}

/// Without a verified worktree no symbol rule denies or holds an action: the
/// decision is at most context.
pub proof fn unverified_source_is_advisory(
    schema_version: u32,
    rules: Seq<Rule>,
    paths: Seq<RulePaths>,
    outcomes: Seq<Vec<Result<SemanticResolution, String>>>,
    trust: Seq<ProviderTrustStatus>,
    descriptor: ActionView,
    impacts: Seq<ToolImpact>,
)
    ensures
        symbol_decision(
            schema_version,
            rules,
            paths,
            outcomes,
            trust,
            None,
            descriptor,
            impacts,
        ).decision.rank() <= DecisionKind::AllowWithContext.rank(),
{
    let f = all_findings(rules, paths, outcomes, rules.len(), trust, None, descriptor, impacts);
    if f.hard.contains(RuleEffect::Block) {
        let w = all_hard_effects(
            rules,
            paths,
            outcomes,
            rules.len(),
            trust,
            None,
            descriptor,
            impacts,
            RuleEffect::Block,
        );
    }
    if f.hard.contains(RuleEffect::RequireReview) {
        let w = all_hard_effects(
            rules,
            paths,
            outcomes,
            rules.len(),
            trust,
            None,
            descriptor,
            impacts,
            RuleEffect::RequireReview,
        );
    }
    if f.hard.contains(RuleEffect::Escalate) {
        let w = all_hard_effects(
            rules,
            paths,
            outcomes,
            rules.len(),
            trust,
            None,
            descriptor,
            impacts,
            RuleEffect::Escalate,
        );
    }
}

proof fn rule_stop_violations(
    rule: Rule,
    cases: Seq<StopScope>,
    n: nat,
    base: Seq<char>,
    head: Option<Seq<char>>,
    trust: Seq<ProviderTrustStatus>,
)
    requires
        base != "HEAD"@ || head is None,
    ensures
        stop_rule_findings(rule, cases, n, base, head, trust).violations.len() == 0,
    decreases n,
{
    if n > 0 {
        rule_stop_violations(rule, cases, (n - 1) as nat, base, head, trust);
    }
}

/// The symbol rules keep work from stopping only against the head revision:
/// with any other base, or where the head cannot be read, they only advise.
pub proof fn stop_violations_need_the_head_baseline(
    rules: Seq<Rule>,
    cases: Seq<Vec<StopScope>>,
    n: nat,
    base: Seq<char>,
    head: Option<Seq<char>>,
    trust: Seq<ProviderTrustStatus>,
)
    requires
        base != "HEAD"@ || head is None,
    ensures
        all_stop_findings(rules, cases, n, base, head, trust).violations.len() == 0,
    decreases n,
{
    if n > 0 {
        stop_violations_need_the_head_baseline(rules, cases, (n - 1) as nat, base, head, trust);
        rule_stop_violations(
            rules[n - 1],
            cases[n - 1]@,
            rules[n - 1].symbol_scopes@.len(),
            base,
            head,
            trust,
        );
    }
}

proof fn rule_effects_are_carried(
    rule: Rule,
    outcomes: Seq<Result<SemanticResolution, String>>,
    n: nat,
    trust: Seq<ProviderTrustStatus>,
    state: Option<SourceState>,
    paths: RulePaths,
    descriptor: ActionView,
    impacts: Seq<ToolImpact>,
    k: int,
)
    requires
        0 <= k < n <= rule.symbol_scopes@.len(),
        carries_effect(
            rule,
            paths,
            rule.symbol_scopes@[k],
            outcomes[k],
            trust,
            state,
            descriptor,
            impacts,
        ),
    ensures
        rule_findings(
            rule,
            outcomes,
            n,
            trust,
            state,
            descriptor.target_files,
            impacts,
        ).hard.contains(rule.effect),
    decreases n,
{
    let targets = descriptor.target_files;
    let before = rule_findings(rule, outcomes, (n - 1) as nat, trust, state, targets, impacts).hard;
    let all = rule_findings(rule, outcomes, n, trust, state, targets, impacts).hard;
    if k < n - 1 {
        rule_effects_are_carried(
            rule,
            outcomes,
            (n - 1) as nat,
            trust,
            state,
            paths,
            descriptor,
            impacts,
            k,
        );
        let at = choose|at: int| 0 <= at < before.len() && before[at] == rule.effect;
        assert(all[at] == rule.effect);
    } else {
        assert(all[before.len() as int] == rule.effect);
    }
}

proof fn effects_are_carried(
    rules: Seq<Rule>,
    paths: Seq<RulePaths>,
    outcomes: Seq<Vec<Result<SemanticResolution, String>>>,
    n: nat,
    trust: Seq<ProviderTrustStatus>,
    state: Option<SourceState>,
    descriptor: ActionView,
    impacts: Seq<ToolImpact>,
    i: int,
    k: int,
)
    requires
        0 <= i < n <= rules.len(),
        0 <= k < rules[i].symbol_scopes@.len(),
        carries_effect(
            rules[i],
            paths[i],
            rules[i].symbol_scopes@[k],
            outcomes[i]@[k],
            trust,
            state,
            descriptor,
            impacts,
        ),
    ensures
        all_findings(
            rules,
            paths,
            outcomes,
            n,
            trust,
            state,
            descriptor,
            impacts,
        ).hard.contains(rules[i].effect),
    decreases n,
{
    let n0 = (n - 1) as nat;
    let before = all_findings(rules, paths, outcomes, n0, trust, state, descriptor, impacts).hard;
    let all = all_findings(rules, paths, outcomes, n, trust, state, descriptor, impacts).hard;
    if i < n - 1 {
        effects_are_carried(
            rules,
            paths,
            outcomes,
            n0,
            trust,
            state,
            descriptor,
            impacts,
            i,
            k,
        );
        let at = choose|at: int| 0 <= at < before.len() && before[at] == rules[i].effect;
        assert(all[at] == rules[i].effect);
    } else {
        rule_effects_are_carried(
            rules[i],
            outcomes[i]@,
            rules[i].symbol_scopes@.len(),
            trust,
            state,
            paths[i],
            descriptor,
            impacts,
            k,
        );
        let added = applying_findings(
            rules[i],
            paths[i],
            outcomes[i]@,
            trust,
            state,
            descriptor,
            impacts,
        ).hard;
        let at = choose|at: int| 0 <= at < added.len() && added[at] == rules[i].effect;
        assert(all[before.len() + at] == rules[i].effect);
    }
}

/// Some symbol of some rule with an effect carries that effect.
pub open spec fn effect_is_carried(
    effect: RuleEffect,
    rules: Seq<Rule>,
    paths: Seq<RulePaths>,
    outcomes: Seq<Vec<Result<SemanticResolution, String>>>,
    trust: Seq<ProviderTrustStatus>,
    state: Option<SourceState>,
    descriptor: ActionView,
    impacts: Seq<ToolImpact>,
) -> bool {
    exists|i: int, k: int|
        {
            &&& 0 <= i < rules.len()
            &&& 0 <= k < rules[i].symbol_scopes@.len()
            &&& rules[i].effect == effect
            &&& #[trigger] carries_effect(
                rules[i],
                paths[i],
                rules[i].symbol_scopes@[k],
                outcomes[i]@[k],
                trust,
                state,
                descriptor,
                impacts,
            )
        }
}

/// The symbol rules decide by the strictest effect that any of their symbols
/// carries, whichever rule and whichever of its symbols that is: they block
/// exactly where a blocking rule carries its effect, ask for a review exactly
/// where one that asks for it does and none blocks, and escalate exactly where
/// one that escalates does and nothing stricter applies.
pub proof fn the_strictest_carried_effect_decides(
    schema_version: u32,
    rules: Seq<Rule>,
    paths: Seq<RulePaths>,
    outcomes: Seq<Vec<Result<SemanticResolution, String>>>,
    trust: Seq<ProviderTrustStatus>,
    state: Option<SourceState>,
    descriptor: ActionView,
    impacts: Seq<ToolImpact>,
)
    ensures
        ({
            let d = symbol_decision(
                schema_version,
                rules,
                paths,
                outcomes,
                trust,
                state,
                descriptor,
                impacts,
            ).decision;
            let carried = |effect: RuleEffect|
                effect_is_carried(
                    effect,
                    rules,
                    paths,
                    outcomes,
                    trust,
                    state,
                    descriptor,
                    impacts,
                );
            &&& d == DecisionKind::Block <==> carried(RuleEffect::Block)
            &&& d == DecisionKind::RequireReview <==> carried(RuleEffect::RequireReview)
                && !carried(RuleEffect::Block)
            &&& d == DecisionKind::Escalate <==> carried(RuleEffect::Escalate) && !carried(
                RuleEffect::Block,
            ) && !carried(RuleEffect::RequireReview)
        }),
{
    let hard = all_findings(
        rules,
        paths,
        outcomes,
        rules.len(),
        trust,
        state,
        descriptor,
        impacts,
    ).hard;
    assert forall|effect: RuleEffect| #[trigger]
        hard.contains(effect) == effect_is_carried(
            effect,
            rules,
            paths,
            outcomes,
            trust,
            state,
            descriptor,
            impacts,
        ) by {
        if hard.contains(effect) {
            let w = all_hard_effects(
                rules,
                paths,
                outcomes,
                rules.len(),
                trust,
                state,
                descriptor,
                impacts,
                effect,
            );
        }
        if effect_is_carried(
            effect,
            rules,
            paths,
            outcomes,
            trust,
            state,
            descriptor,
            impacts,
        ) {
            let (i, k) = choose|i: int, k: int|
                {
                    &&& 0 <= i < rules.len()
                    &&& 0 <= k < rules[i].symbol_scopes@.len()
                    &&& rules[i].effect == effect
                    &&& #[trigger] carries_effect(
                        rules[i],
                        paths[i],
                        rules[i].symbol_scopes@[k],
                        outcomes[i]@[k],
                        trust,
                        state,
                        descriptor,
                        impacts,
                    )
                };
            effects_are_carried(
                rules,
                paths,
                outcomes,
                rules.len(),
                trust,
                state,
                descriptor,
                impacts,
                i,
                k,
            );
        }
    }
}

/// A symbol carries the effect of its rule exactly where the rule is active and
/// applies, the symbol was found in a file that the action targets, the snapshot
/// was made by a provider that is ready now under the same registration and
/// program, of the worktree and the head as they are now, and the action
/// certainly touches a line of the symbol.
pub proof fn effects_are_carried_by_certain_knowledge(
    rule: Rule,
    paths: RulePaths,
    scope: RuleSymbolScope,
    resolution: SemanticResolution,
    trust: Seq<ProviderTrustStatus>,
    state: SourceState,
    descriptor: ActionView,
    impacts: Seq<ToolImpact>,
    symbol: ResolvedSymbol,
    source: SemanticSource,
)
    requires
        resolution.resolved_symbol == Some(symbol),
        resolution.source == Some(source),
    ensures
        carries_effect(
            rule,
            paths,
            scope,
            Ok(resolution),
            trust,
            Some(state),
            descriptor,
            impacts,
        ) <==> {
            &&& rule.status == MemoryStatus::Active
            &&& constraints_match(rule, descriptor, paths)
            &&& descriptor.target_files.contains(symbol.path@)
            &&& source.trust == SemanticSourceTrust::TrustedProvider
            &&& source.worktree_fingerprint@ == state.fingerprint@
            &&& source.head_revision@ == state.head@
            &&& status_of(trust, scope.provider_profile_id@) matches Some(status) && status.ready
                && model::opt_view(status.registration_id) == model::opt_view(
                source.provider_registration_id,
            ) && model::opt_view(status.executable_sha256) == model::opt_view(
                source.executable_sha256,
            )
            &&& exists|i: int|
                0 <= i < impacts.len() && (#[trigger] impacts[i]).path@ == symbol.path@ && (
                impacts[i].whole_file || exists|k: int|
                    0 <= k < impacts[i].ranges@.len() && (
                    #[trigger] impacts[i].ranges@[k]).start_line <= symbol.end_line
                        && symbol.start_line <= impacts[i].ranges@[k].end_line)
        },
{
    if certainly_touched(impacts, symbol) {
        let i = choose|i: int|
            0 <= i < impacts.len() && impact_touches(#[trigger] impacts[i], symbol);
        assert(impacts[i].path@ == symbol.path@);
        if !impacts[i].whole_file {
            let k = choose|k: int|
                0 <= k < impacts[i].ranges@.len() && model::ranges_meet(
                    (#[trigger] impacts[i].ranges@[k]).start_line as int,
                    impacts[i].ranges@[k].end_line as int,
                    symbol.start_line as int,
                    symbol.end_line as int,
                );
            assert(impacts[i].ranges@[k].start_line <= symbol.end_line);
        }
    }
    if exists|i: int|
        0 <= i < impacts.len() && (#[trigger] impacts[i]).path@ == symbol.path@ && (
        impacts[i].whole_file || exists|k: int|
            0 <= k < impacts[i].ranges@.len() && (#[trigger] impacts[i].ranges@[k]).start_line
                <= symbol.end_line && symbol.start_line <= impacts[i].ranges@[k].end_line) {
        let i = choose|i: int|
            0 <= i < impacts.len() && (#[trigger] impacts[i]).path@ == symbol.path@ && (
            impacts[i].whole_file || exists|k: int|
                0 <= k < impacts[i].ranges@.len() && (#[trigger] impacts[i].ranges@[k]).start_line
                    <= symbol.end_line && symbol.start_line <= impacts[i].ranges@[k].end_line);
        assert(impact_touches(impacts[i], symbol));
    }
}

/// A rule applies to an action exactly where each of its constraints that says
/// anything admits it: one of its kinds is the action's, one of its operations
/// is, up to case, one of its markers stands in the operation or the command, up
/// to case, one of its paths includes one of the targets, and none of its other
/// paths excludes any target.
pub proof fn rules_apply_where_every_constraint_admits(
    rule: Rule,
    action: ActionView,
    paths: RulePaths,
)
    ensures
        constraints_match(rule, action, paths) <==> {
            &&& rule.actions@.len() > 0 ==> exists|i: int|
                0 <= i < rule.actions@.len() && #[trigger] rule.actions@[i] == action.kind
            &&& rule.operations@.len() > 0 ==> exists|i: int|
                0 <= i < rule.operations@.len() && text::lowered(#[trigger] rule.operations@[i]@)
                    == text::lowered(action.operation)
            &&& rule.operation_contains@.len() > 0 ==> exists|i: int|
                0 <= i < rule.operation_contains@.len() && text::occurs(
                    text::lowered(
                        action.operation + " "@ + (match action.command {
                            Some(command) => command,
                            None => Seq::empty(),
                        }),
                    ),
                    text::lowered(#[trigger] rule.operation_contains@[i]@),
                )
            &&& rule.include_paths@.len() > 0 ==> exists|i: int, j: int|
                0 <= i < action.target_files.len() && 0 <= j < rule.include_paths@.len()
                    && #[trigger] paths.included.related(i, j)
            &&& forall|i: int, j: int|
                0 <= i < action.target_files.len() && 0 <= j < rule.exclude_paths@.len() ==> !(
                #[trigger] paths.excluded.related(i, j))
        },
{
    let t = action.target_files.len() as int;
    relations_hold(paths.included, t, rule.include_paths@.len() as int);
    relations_hold(paths.excluded, t, rule.exclude_paths@.len() as int);
}

proof fn relations_hold(relation: PathRelation, m: int, n: int)
    ensures
        relation.any_related(m, n) <==> exists|i: int, j: int|
            0 <= i < m && 0 <= j < n && #[trigger] relation.related(i, j),
{
    if relation.any_related(m, n) {
        let i = choose|i: int| 0 <= i < m && #[trigger] relation.related_to_any(i, n);
        let j = choose|j: int| 0 <= j < n && relation.related(i, j);
        assert(relation.related(i, j));
    }
    if exists|i: int, j: int| 0 <= i < m && 0 <= j < n && #[trigger] relation.related(i, j) {
        let (i, j) = choose|i: int, j: int|
            0 <= i < m && 0 <= j < n && #[trigger] relation.related(i, j);
        assert(relation.related_to_any(i, n));
    }
}

/// The status of a profile is the last one under its name.
pub proof fn the_last_status_of_a_profile_counts(
    trust: Seq<ProviderTrustStatus>,
    profile: Seq<char>,
)
    ensures
        status_of(trust, profile) is None <==> forall|i: int|
            0 <= i < trust.len() ==> (#[trigger] trust[i]).profile_id@ != profile,
        status_of(trust, profile) is Some ==> exists|i: int|
            0 <= i < trust.len() && #[trigger] trust[i] == status_of(trust, profile)->0
                && trust[i].profile_id@ == profile && forall|k: int|
                i < k < trust.len() ==> (#[trigger] trust[k]).profile_id@ != profile,
    decreases trust.len(),
{
    if trust.len() > 0 && trust.last().profile_id@ != profile {
        let init = trust.drop_last();
        the_last_status_of_a_profile_counts(init, profile);
        assert forall|i: int| 0 <= i < init.len() implies #[trigger] init[i] == trust[i] by {}
        if status_of(init, profile) is Some {
            let i = choose|i: int|
                0 <= i < init.len() && #[trigger] init[i] == status_of(init, profile)->0
                    && init[i].profile_id@ == profile && forall|k: int|
                    i < k < init.len() ==> (#[trigger] init[k]).profile_id@ != profile;
            assert(trust[i] == init[i]);
            assert forall|k: int| i < k < trust.len() implies (#[trigger] trust[k]).profile_id@
                != profile by {
                if k < init.len() {
                    assert(init[k] == trust[k]);
                }
            }
        } else {
            assert forall|i: int| 0 <= i < trust.len() implies (#[trigger] trust[i]).profile_id@
                != profile by {
                if i < init.len() {
                    assert(init[i] == trust[i]);
                }
            }
        }
    } else if trust.len() > 0 {
        assert(trust[trust.len() - 1] == trust.last());
    }
}

// ---------------------------------------------------------------------------
// What keeps work from stopping
// ---------------------------------------------------------------------------

/// A symbol is violated: it was found, the snapshot is a clean one of the head
/// revision that differences are taken against, by a provider that is trusted
/// now, the paths of the rule admit the symbol's file, and one of the
/// differences meets a line of the symbol.
pub open spec fn violated(
    rule: Rule,
    scope: RuleSymbolScope,
    case: StopScope,
    base: Seq<char>,
    head: Option<Seq<char>>,
    trust: Seq<ProviderTrustStatus>,
) -> bool {
    &&& base == "HEAD"@
    &&& case.outcome matches Ok(resolution)
    &&& resolution.resolved_symbol matches Some(symbol)
    &&& resolution.source matches Some(source)
    &&& source.trust == SemanticSourceTrust::TrustedProvider
    &&& binding_current(trust, scope.provider_profile_id@, source)
    &&& source.worktree_clean
    &&& head == Some(source.head_revision@)
    &&& rule.include_paths@.len() == 0 || exists|j: int|
        0 <= j < rule.include_paths@.len() && #[trigger] case.paths.included.related(0, j)
    &&& forall|j: int|
        0 <= j < rule.exclude_paths@.len() ==> !(#[trigger] case.paths.excluded.related(0, j))
    &&& case.hunks matches Ok(hunks)
    &&& exists|i: int|
        0 <= i < hunks@.len() && match (#[trigger] hunks@[i]).old {
            Some(range) => range.start_line <= symbol.end_line && symbol.start_line
                <= range.end_line,
            None => symbol.start_line <= hunks@[i].old_start + 1 && hunks@[i].old_start
                <= symbol.end_line,
        }
}

proof fn scopes_are_violated(
    rule: Rule,
    scope: RuleSymbolScope,
    case: StopScope,
    base: Seq<char>,
    head: Option<Seq<char>>,
    trust: Seq<ProviderTrustStatus>,
)
    ensures
        stop_scope_findings(rule, scope, case, base, head, trust).violations.len() == if violated(
            rule,
            scope,
            case,
            base,
            head,
            trust,
        ) {
            1int
        } else {
            0int
        },
{
    if let Ok(hunks) = case.hunks {
        if let Ok(resolution) = case.outcome {
            if let Some(symbol) = resolution.resolved_symbol {
                let hits = |i: int|
                    match hunks@[i].old {
                        Some(range) => range.start_line <= symbol.end_line && symbol.start_line
                            <= range.end_line,
                        None => symbol.start_line <= hunks@[i].old_start + 1 && hunks@[i].old_start
                            <= symbol.end_line,
                    };
                assert forall|i: int| 0 <= i < hunks@.len() implies hunk_touches(
                    #[trigger] hunks@[i],
                    symbol,
                ) == hits(i) by {}
                if any_hunk_touches(hunks@, symbol) {
                    let i = choose|i: int|
                        0 <= i < hunks@.len() && hunk_touches(#[trigger] hunks@[i], symbol);
                    assert(hits(i));
                }
                if exists|i: int| 0 <= i < hunks@.len() && match (#[trigger] hunks@[i]).old {
                    Some(range) => range.start_line <= symbol.end_line && symbol.start_line
                        <= range.end_line,
                    None => symbol.start_line <= hunks@[i].old_start + 1 && hunks@[i].old_start
                        <= symbol.end_line,
                } {
                    let i = choose|i: int|
                        0 <= i < hunks@.len() && match (#[trigger] hunks@[i]).old {
                            Some(range) => range.start_line <= symbol.end_line && symbol.start_line
                                <= range.end_line,
                            None => symbol.start_line <= hunks@[i].old_start + 1
                                && hunks@[i].old_start <= symbol.end_line,
                        };
                    assert(hunk_touches(hunks@[i], symbol));
                }
            }
        }
    }
}

proof fn rule_violations(
    rule: Rule,
    cases: Seq<StopScope>,
    n: nat,
    base: Seq<char>,
    head: Option<Seq<char>>,
    trust: Seq<ProviderTrustStatus>,
)
    requires
        n <= rule.symbol_scopes@.len(),
    ensures
        stop_rule_findings(rule, cases, n, base, head, trust).violations.len() > 0 <==> exists|
            k: int,
        |
            0 <= k < n && violated(
                rule,
                #[trigger] rule.symbol_scopes@[k],
                cases[k],
                base,
                head,
                trust,
            ),
    decreases n,
{
    if n > 0 {
        let n0 = (n - 1) as nat;
        rule_violations(rule, cases, n0, base, head, trust);
        scopes_are_violated(rule, rule.symbol_scopes@[n - 1], cases[n - 1], base, head, trust);
    }
}

proof fn all_violations(
    rules: Seq<Rule>,
    cases: Seq<Vec<StopScope>>,
    n: nat,
    base: Seq<char>,
    head: Option<Seq<char>>,
    trust: Seq<ProviderTrustStatus>,
)
    requires
        n <= rules.len(),
    ensures
        all_stop_findings(rules, cases, n, base, head, trust).violations.len() > 0 <==> exists|
            i: int,
            k: int,
        |
            #![trigger rules[i].symbol_scopes@[k]]
            {
                &&& 0 <= i < n
                &&& 0 <= k < rules[i].symbol_scopes@.len()
                &&& rules[i].status == MemoryStatus::Active
                &&& rules[i].effect == RuleEffect::Block || rules[i].effect == RuleEffect::Escalate
                &&& violated(
                    rules[i],
                    rules[i].symbol_scopes@[k],
                    cases[i]@[k],
                    base,
                    head,
                    trust,
                )
            },
    decreases n,
{
    if n > 0 {
        let n0 = (n - 1) as nat;
        all_violations(rules, cases, n0, base, head, trust);
        let rule = rules[n - 1];
        rule_violations(
            rule,
            cases[n - 1]@,
            rule.symbol_scopes@.len(),
            base,
            head,
            trust,
        );
        if stop_rule(rule) && exists|k: int|
            0 <= k < rule.symbol_scopes@.len() && violated(
                rule,
                #[trigger] rule.symbol_scopes@[k],
                cases[n - 1]@[k],
                base,
                head,
                trust,
            ) {
            let k = choose|k: int|
                0 <= k < rule.symbol_scopes@.len() && violated(
                    rule,
                    #[trigger] rule.symbol_scopes@[k],
                    cases[n - 1]@[k],
                    base,
                    head,
                    trust,
                );
            assert(rules[n - 1].symbol_scopes@[k] == rule.symbol_scopes@[k]);
        }
    }
}

/// The symbol rules keep work from stopping exactly where some active rule that
/// blocks or escalates has a symbol that is violated, whichever rule and symbol
/// that is.
pub proof fn violated_symbols_keep_work_from_stopping(
    rules: Seq<Rule>,
    cases: Seq<Vec<StopScope>>,
    base: Seq<char>,
    head: Option<Seq<char>>,
    trust: Seq<ProviderTrustStatus>,
)
    ensures
        all_stop_findings(rules, cases, rules.len(), base, head, trust).violations.len() > 0
            <==> exists|i: int, k: int|
            #![trigger rules[i].symbol_scopes@[k]]
            {
                &&& 0 <= i < rules.len()
                &&& 0 <= k < rules[i].symbol_scopes@.len()
                &&& rules[i].status == MemoryStatus::Active
                &&& rules[i].effect == RuleEffect::Block || rules[i].effect == RuleEffect::Escalate
                &&& violated(
                    rules[i],
                    rules[i].symbol_scopes@[k],
                    cases[i]@[k],
                    base,
                    head,
                    trust,
                )
            },
{
    all_violations(rules, cases, rules.len(), base, head, trust);
}

} // verus!
