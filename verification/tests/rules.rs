//! Rules on symbols, findings, repairs, decisions and reconciliation.
use project_brain::control::{self, AgentClaim, AssessedHead, ControlSessionState, SessionOrigin};
use project_brain::decision;
use project_brain::error::AppError;
use project_brain::evidence::{self, CurrentSourceVerification, EffectiveEvidenceFreshness};
use project_brain::findings::{self, FindingEffectMapping, FindingHead, HeadFinding};
use project_brain::git;
use project_brain::impact::{self, ImpactHead, ImpactSource, ObservedSource, OperationBaseline};
use project_brain::json::Json;
use project_brain::model::{
    ActionDescriptor, ActionKind, Authority, ContextItem, Decision, DecisionKind, Evidence,
    EvidenceFreshness, EvidenceGrade, EvidencePlane, GateDecision, MemoryStatus, ProposedChange,
    Rule, RuleEffect, RuleStrength, RuleSymbolScope, StopDecision, ToolAction, ToolImpact,
    ToolStatus,
};
use project_brain::paths::{self, PathRelation};
use project_brain::reconcile::{self, ChangeEnvelope, ReconcileDecision, StopEvidence};
use project_brain::repair;
use project_brain::shell;
use project_brain::symbols::{
    self, ProviderTrustStatus, ResolvedSymbol, RulePaths, SemanticResolution,
    SemanticResolutionKind, SemanticSource, SemanticSourceTrust, SourceState, StopScope,
};

fn symbol_rule() -> Rule {
    Rule {
        id: "R-SYMBOL".to_owned(),
        status: MemoryStatus::Active,
        authority: Authority::RepositoryRule,
        strength: RuleStrength::Hard,
        effect: RuleEffect::Block,
        include_paths: Vec::new(),
        exclude_paths: Vec::new(),
        actions: vec![ActionKind::Modify],
        operations: Vec::new(),
        operation_contains: Vec::new(),
        symbol_scopes: vec![RuleSymbolScope {
            provider_profile_id: "test-main".to_owned(),
            provider_contract_id: "scip-test-contract".to_owned(),
            language_id: "rust".to_owned(),
            anchor_snapshot_fingerprint: "snapshot".to_owned(),
            anchor_symbol_id: "symbol".to_owned(),
        }],
        message: "禁止修改 protected".to_owned(),
        rationale: "测试 hard semantic gate".to_owned(),
    }
}

fn resolution() -> SemanticResolution {
    SemanticResolution {
        kind: SemanticResolutionKind::DirectSemantic,
        resolved_symbol: Some(ResolvedSymbol {
            id: "symbol".to_owned(),
            path: "src/lib.rs".to_owned(),
            display_name: "protected".to_owned(),
            start_line: 1,
            end_line: 3,
        }),
        source: Some(SemanticSource {
            trust: SemanticSourceTrust::TrustedProvider,
            provider_registration_id: Some("registration-test".to_owned()),
            executable_sha256: Some("b".repeat(64)),
            worktree_fingerprint: "worktree".to_owned(),
            head_revision: "head".to_owned(),
            worktree_clean: true,
        }),
        latest_snapshot_fingerprint: Some("snapshot".to_owned()),
    }
}

fn provider_trust() -> Vec<ProviderTrustStatus> {
    vec![ProviderTrustStatus {
        profile_id: "test-main".to_owned(),
        ready: true,
        registration_id: Some("registration-test".to_owned()),
        registration_revision: Some(1),
        executable_sha256: Some("b".repeat(64)),
        launcher_package_manifest_sha256: None,
        issue: None,
    }]
}

fn descriptor() -> ActionDescriptor {
    ActionDescriptor {
        schema_version: 1,
        event_id: "event".to_owned(),
        session_id: "session".to_owned(),
        cwd: String::new(),
        action: ActionKind::Modify,
        operation: "Write".to_owned(),
        target_files: vec!["src/lib.rs".to_owned()],
        command: None,
    }
}

fn action(impacts: Vec<ToolImpact>) -> ToolAction {
    ToolAction {
        kind: ActionKind::Modify,
        target_files: vec!["src/lib.rs".to_owned()],
        command: None,
        deterministic_impacts: impacts,
        proposed_change: None,
    }
}

fn whole_file() -> Vec<ToolImpact> {
    vec![ToolImpact { path: "src/lib.rs".to_owned(), whole_file: true, ranges: Vec::new() }]
}

fn no_paths() -> RulePaths {
    RulePaths { included: PathRelation::none(), excluded: PathRelation::none() }
}

fn symbol_decision(
    impacts: Vec<ToolImpact>,
    trust: Vec<ProviderTrustStatus>,
    worktree: &str,
) -> Decision {
    symbols::evaluate_symbol_rules(
        1,
        &vec![symbol_rule()],
        &vec![no_paths()],
        &vec![vec![Ok(resolution())]],
        &trust,
        &Some(SourceState { fingerprint: worktree.to_owned(), head: "head".to_owned() }),
        &descriptor(),
        &action(impacts),
    )
}

#[test]
fn fresh_deterministic_whole_file_impact_can_block() {
    let decision = symbol_decision(whole_file(), provider_trust(), "worktree");
    assert_eq!(decision.decision, DecisionKind::Block);
    assert_eq!(decision.evidence[0].grade, Some(EvidenceGrade::SemanticDirect));
}

#[test]
fn stale_snapshot_or_unknown_impact_is_advisory_not_a_violation() {
    let decision = symbol_decision(Vec::new(), provider_trust(), "changed");
    assert_eq!(decision.decision, DecisionKind::AllowWithContext);
    assert_eq!(decision.evidence[0].grade, Some(EvidenceGrade::Unavailable));
    assert_eq!(decision.evidence[0].effect, RuleEffect::InjectContext);
}

#[test]
fn missing_or_drifted_current_provider_binding_is_fail_open() {
    let decision = symbol_decision(whole_file(), Vec::new(), "worktree");
    assert_eq!(decision.decision, DecisionKind::AllowWithContext);
    assert_eq!(decision.evidence[0].grade, Some(EvidenceGrade::Unavailable));
}

#[test]
fn stop_uses_clean_head_baseline_and_actual_git_hunks() {
    let scopes = |outcome: Result<SemanticResolution, String>, hunks: &str| {
        let hunk = git::parse_hunk_header(hunks).unwrap();
        vec![vec![StopScope { outcome, paths: no_paths(), hunks: Ok(vec![hunk]) }]]
    };
    let stop = |cases: Vec<Vec<StopScope>>| {
        symbols::evaluate_symbol_stop(
            &vec![symbol_rule()],
            &cases,
            "HEAD",
            &Some("head".to_owned()),
            &provider_trust(),
        )
    };
    let (violations, feedback) = stop(scopes(Ok(resolution()), "@@ -1,0 +2,1 @@"));
    assert!(feedback.is_empty());
    assert_eq!(violations.len(), 1);
    assert!(violations[0].contains("semantic_baseline_diff"));

    let (violations, _) = stop(scopes(Ok(resolution()), "@@ -20,1 +20,1 @@"));
    assert!(violations.is_empty());
    let mut dirty = resolution();
    dirty.source.as_mut().unwrap().worktree_clean = false;
    let (violations, feedback) = stop(scopes(Ok(dirty), "@@ -1,0 +2,1 @@"));
    assert!(violations.is_empty());
    assert_eq!(feedback.len(), 1);
}

// ---------------------------------------------------------------------------
// Findings
// ---------------------------------------------------------------------------

fn finding_mapping() -> FindingEffectMapping {
    FindingEffectMapping {
        id: "TEST-ASSERT-001".to_owned(),
        status: MemoryStatus::Active,
        authority: Authority::RepositoryRule,
        strength: RuleStrength::Hard,
        effect: RuleEffect::Block,
        plane: EvidencePlane::Test,
        provider_id: "dotnet-test".to_owned(),
        provider_contract_version: 1,
        finding_code: "assertion_failed".to_owned(),
        message: "声明的测试断言失败，必须继续修复".to_owned(),
    }
}

fn finding_heads(
    recorded: EvidenceFreshness,
    current: &CurrentSourceVerification,
) -> Result<Vec<FindingHead>, String> {
    let effective =
        evidence::effective_evidence_freshness(recorded, "sha256_source", current);
    let can_hard_block = effective.freshness == EvidenceFreshness::Fresh;
    Ok(vec![FindingHead {
        plane: EvidencePlane::Test,
        provider_id: "dotnet-test".to_owned(),
        contract_version: 1,
        effective,
        findings: vec![HeadFinding {
            code: "assertion_failed".to_owned(),
            message: "expected true but observed false".to_owned(),
            can_hard_block,
        }],
    }])
}

#[test]
fn finding_requires_explicit_mapping_and_fresh_authoritative_evidence() {
    let matching = CurrentSourceVerification::Verified("sha256_source".to_owned());
    let fresh = finding_heads(EvidenceFreshness::Fresh, &matching);
    let (unmapped, unmapped_feedback) = findings::evaluate_finding_stop(&Vec::new(), &fresh);
    assert!(unmapped.is_empty());
    assert!(unmapped_feedback.is_empty());

    let mappings = vec![finding_mapping()];
    let (mapped, feedback) = findings::evaluate_finding_stop(&mappings, &fresh);
    assert_eq!(mapped.len(), 1);
    assert!(feedback.is_empty());
    assert!(mapped[0].contains("TEST-ASSERT-001"));

    let other = CurrentSourceVerification::Verified("sha256_different_source".to_owned());
    let heads = finding_heads(EvidenceFreshness::Fresh, &other);
    let (mismatched, feedback) = findings::evaluate_finding_stop(&mappings, &heads);
    assert!(mismatched.is_empty());
    assert!(feedback.iter().any(|item| item.text.contains("当前 Source 指纹匹配")));

    let unavailable = CurrentSourceVerification::Unavailable("git unavailable".to_owned());
    let heads = finding_heads(EvidenceFreshness::Fresh, &unavailable);
    let (unknown, feedback) = findings::evaluate_finding_stop(&mappings, &heads);
    assert!(unknown.is_empty());
    assert!(feedback.iter().any(|item| item.text.contains("无法验证")));

    let heads = finding_heads(EvidenceFreshness::Stale, &matching);
    let (stale, feedback) = findings::evaluate_finding_stop(&mappings, &heads);
    assert!(stale.is_empty());
    assert!(feedback.iter().any(|item| item.text.contains("advisory")));
}

#[test]
fn findings_without_their_head_or_ledger_only_advise() {
    let mappings = vec![finding_mapping()];
    let (violations, feedback) = findings::evaluate_finding_stop(&mappings, &Ok(Vec::new()));
    assert!(violations.is_empty());
    assert!(feedback[0].text.contains("缺少"));
    let (violations, feedback) =
        findings::evaluate_finding_stop(&mappings, &Err("locked".to_owned()));
    assert!(violations.is_empty());
    assert!(feedback[0].text.contains("locked"));
}

// ---------------------------------------------------------------------------
// Repairs
// ---------------------------------------------------------------------------

/// A path with forward slashes, and one of them where several follow each other.
fn slashed(path: &str) -> String {
    path.replace('\\', "/").replace("//", "/")
}

#[test]
fn absolute_proposal_path_matches_relative_git_delta() {
    let root = &slashed(r"\\?\E:\Github\Test\project-brain-dsh-game-trial");
    let target = "E:/Github/Test/project-brain-dsh-game-trial/package.json";
    assert_eq!(paths::make_project_relative(root, target, true), "package.json");
    let action = ToolAction {
        kind: ActionKind::Modify,
        target_files: vec![target.to_owned()],
        command: None,
        deterministic_impacts: Vec::new(),
        proposed_change: Some(ProposedChange {
            proposal_digest: "proposal".to_owned(),
            base_source_fingerprint: "source".to_owned(),
            target_files: vec![target.to_owned()],
            proposed_content_digest: None,
        }),
    };
    let repairs =
        repair::repair_paths(&Some(r#"{"unexpected_paths":["package.json"]}"#.to_owned()));
    assert_eq!(repairs, ["package.json"]);
    let targets =
        paths::make_all_relative(root, &repair::mutation_paths(&action), true);
    let related = PathRelation {
        rows: targets.iter().map(|a| repairs.iter().map(|b| a == b).collect()).collect(),
    };
    assert!(repair::action_addresses_repair(&action, &targets, &repairs, &related));
    assert_eq!(repair::action_proposal_digest(&action, &Vec::new()), "proposal");
}

#[test]
fn repair_hold_allows_inspection_but_not_shell_mutation() {
    let inspection = ToolAction {
        kind: ActionKind::GitOperation,
        target_files: Vec::new(),
        command: Some(
            "git status --short; Write-Output '---DIFF---'; git diff; Get-ChildItem -Recurse"
                .to_owned(),
        ),
        deterministic_impacts: Vec::new(),
        proposed_change: None,
    };
    assert!(repair::repair_inspection_action(&inspection));

    let mutation = ToolAction {
        kind: ActionKind::Execute,
        target_files: Vec::new(),
        command: Some("Get-Content package.json | Set-Content copy.json".to_owned()),
        deterministic_impacts: Vec::new(),
        proposed_change: None,
    };
    assert!(!repair::repair_inspection_action(&mutation));
}

#[test]
fn held_plans_are_lifted_by_their_own_proposal() {
    let kind = Some("replan".to_owned());
    let payload = Some("{\"proposal_digest\":\"abc\"}".to_owned());
    assert!(repair::delivered_replan_matches(&kind, true, &payload, "abc"));
    assert!(!repair::delivered_replan_matches(&kind, true, &payload, "abd"));
    assert!(!repair::delivered_replan_matches(&kind, false, &payload, "abc"));
    assert!(!repair::delivered_replan_matches(&kind, true, &Some("[".to_owned()), "abc"));
    assert!(repair::repair_paths(&Some("not json".to_owned())).is_empty());
    assert!(repair::repair_paths(&Some("{\"unexpected_paths\":[1]}".to_owned())).is_empty());
}

// ---------------------------------------------------------------------------
// Decisions
// ---------------------------------------------------------------------------

fn decided(kind: DecisionKind, rule_id: &str) -> Decision {
    Decision {
        schema_version: 1,
        decision: kind,
        summary: format!("{rule_id} summary"),
        context: vec![format!("{rule_id} context")],
        evidence: vec![Evidence {
            rule_id: rule_id.to_owned(),
            effect: RuleEffect::Block,
            message: "message".to_owned(),
            rationale: String::new(),
            grade: None,
            symbol_id: None,
            snapshot_fingerprint: None,
        }],
    }
}

#[test]
fn merging_never_weakens_a_decision() {
    let merged = decision::merge_decisions(
        decided(DecisionKind::Allow, "A"),
        decided(DecisionKind::Block, "B"),
    );
    assert_eq!(merged.decision, DecisionKind::Block);
    assert_eq!(merged.evidence.len(), 2);
    assert!(matches!(decision::gate_from_decision(&merged), GateDecision::Deny { .. }));
    let review = decided(DecisionKind::RequireReview, "R");
    assert!(matches!(decision::gate_from_decision(&review), GateDecision::Replan { .. }));
    let allowed = decided(DecisionKind::AllowWithContext, "C");
    assert_eq!(decision::gate_from_decision(&allowed), GateDecision::NoVeto);
    assert!(!decision::context_from_decision(&allowed).is_empty());
    assert!(!decision::feedback_from_decision(&merged).is_empty());
    assert_eq!(decision::decision_reason(&decided(DecisionKind::Block, "B")), "B: message");
}

// ---------------------------------------------------------------------------
// Reconciliation
// ---------------------------------------------------------------------------

fn relation(files: &[&str], paths: &[&str]) -> PathRelation {
    PathRelation {
        rows: files
            .iter()
            .map(|file| paths.iter().map(|path| file.starts_with(path)).collect())
            .collect(),
    }
}

fn reconcile_files(files: &[&str], envelope: &ChangeEnvelope) -> ReconcileDecision {
    let forbidden: Vec<&str> = envelope.forbidden_paths.iter().map(String::as_str).collect();
    let allowed: Vec<&str> = envelope.allowed_paths.iter().map(String::as_str).collect();
    reconcile::evaluate(
        1,
        "HEAD",
        envelope,
        files.iter().map(|file| (*file).to_owned()).collect(),
        &relation(files, &forbidden),
        &relation(files, &allowed),
    )
    .unwrap()
    .decision
}

#[test]
fn changes_stay_within_their_envelope() {
    let envelope = ChangeEnvelope {
        schema_version: 1,
        intent: "test".to_owned(),
        allowed_paths: vec!["src".to_owned()],
        forbidden_paths: vec!["src/secret".to_owned()],
    };
    assert_eq!(reconcile_files(&["src/a.rs"], &envelope), ReconcileDecision::Allow);
    assert_eq!(reconcile_files(&["docs/a.md"], &envelope), ReconcileDecision::Escalate);
    assert_eq!(reconcile_files(&["src/secret/a"], &envelope), ReconcileDecision::Block);
    let old = ChangeEnvelope { schema_version: 9, ..envelope };
    assert_eq!(
        reconcile::evaluate(
            1,
            "HEAD",
            &old,
            Vec::new(),
            &PathRelation::none(),
            &PathRelation::none()
        ),
        Err(AppError::UnsupportedSchemaVersion { actual: 9, expected: 1 })
    );
    let example = ChangeEnvelope::example(1);
    assert_eq!(example.allowed_paths, ["."]);
    assert_eq!(example.forbidden_paths, [".git"]);
}

#[test]
fn a_task_ends_only_on_a_clean_slate() {
    let none = || StopEvidence { violations: Vec::new(), feedback: Vec::new() };
    let failed = Err("no envelope".to_owned());
    let (stop, _) = reconcile::stop_decision(false, true, &failed, none(), none());
    assert!(matches!(stop, StopDecision::ContinueWork { .. }));
    let (stop, _) = reconcile::stop_decision(true, true, &failed, none(), none());
    assert_eq!(stop, StopDecision::AllowStop);
    let (stop, _) = reconcile::stop_decision(false, false, &failed, none(), none());
    assert_eq!(stop, StopDecision::AllowStop);
    let violated =
        StopEvidence { violations: vec!["R-SYMBOL".to_owned()], feedback: Vec::new() };
    let (stop, _) = reconcile::stop_decision(false, false, &failed, violated, none());
    assert!(matches!(stop, StopDecision::ContinueWork { .. }));
}

// ---------------------------------------------------------------------------
// Impact on evidence
// ---------------------------------------------------------------------------

fn impact_head(plane: EvidencePlane) -> ImpactHead {
    ImpactHead {
        plane,
        provider_id: "provider".to_owned(),
        snapshot_fingerprint: "snapshot".to_owned(),
        freshness: EvidenceFreshness::Fresh,
        has_input_manifest: false,
        effective: EffectiveEvidenceFreshness {
            freshness: EvidenceFreshness::Fresh,
            reason: None,
        },
    }
}

#[test]
fn a_change_makes_evidence_stale() {
    let current = CurrentSourceVerification::Verified("now".to_owned());
    let source = ImpactSource::NoBaseline {
        current: current.clone(),
        changed_files: vec!["src/lib.rs".to_owned()],
    };
    let plan = impact::evidence_impact_plan(
        &vec![impact_head(EvidencePlane::Engine)],
        &source,
        &current,
        &action(Vec::new()),
        ToolStatus::Succeeded,
        "event",
        "operation",
    )
    .unwrap()
    .unwrap();
    assert_eq!(plan.transitions.len() + plan.preserved.len(), 1);
    assert_eq!(plan.transitions[0].freshness, EvidenceFreshness::Stale);
    assert_eq!(impact::count_transitions(&plan.transitions, EvidenceFreshness::Stale), 1);
    assert!(impact::impact_feedback(1, 0, 1, 0).contains("stale"));
    assert_eq!(impact::impact_current_source(&source), current);

    let corrupt = ImpactSource::Baseline {
        recorded: "one".to_owned(),
        state: "another".to_owned(),
        after: Ok(ObservedSource { fingerprint: "now".to_owned(), changed_paths: Vec::new() }),
    };
    assert!(
        impact::evidence_impact_plan(
            &vec![impact_head(EvidencePlane::Engine)],
            &corrupt,
            &current,
            &action(Vec::new()),
            ToolStatus::Succeeded,
            "event",
            "operation",
        )
        .is_err()
    );
}

// ---------------------------------------------------------------------------
// What sessions are told
// ---------------------------------------------------------------------------

#[test]
fn sessions_are_told_of_lowered_evidence() {
    let head = |freshness: EvidenceFreshness| AssessedHead {
        plane: EvidencePlane::Build,
        provider_id: "cargo".to_owned(),
        freshness,
        effective: EffectiveEvidenceFreshness { freshness, reason: None },
        snapshot_fingerprint: "snapshot".to_owned(),
        stale_reason: None,
    };
    let heads = vec![head(EvidenceFreshness::Fresh), head(EvidenceFreshness::Stale)];
    assert_eq!(control::evidence_context(&heads, false).len(), 1);
    assert_eq!(control::evidence_context(&heads, true).len(), 2);
    assert_eq!(control::evidence_feedback(&heads).len(), 1);
    let reason = control::combined_freshness_reason(
        &Some("changed".to_owned()),
        &Some("unknown".to_owned()),
    );
    assert!(reason.unwrap().contains("changed"));
}

#[test]
fn sessions_are_told_once() {
    let mut state = ControlSessionState {
        goal_revision: 0,
        context_revision: 1,
        lifecycle_epoch: 2,
        hydrated_epoch: 1,
        raw_goal: None,
        outstanding_kind: None,
        outstanding_json: None,
        outstanding_delivered: false,
    };
    assert!(control::control_delivery_needed(&state));
    state.hydrated_epoch = 2;
    assert!(!control::control_delivery_needed(&state));
    let items = control::control_context_items("p", "pb", &vec![symbol_rule()], &state);
    assert!(items[0].text.contains("project_key=pb"));
    assert!(control::session_context("p", "pb", &Vec::new()).contains("pb"));
    let claims = vec![AgentClaim {
        kind: "decision".to_owned(),
        content: "use X".to_owned(),
        claim_id: "c".to_owned(),
    }];
    assert!(control::agent_claim_context(&claims)[0].text.contains("use X"));
    assert_eq!(control::session_origin_name(SessionOrigin::Subagent), "subagent");
    assert_eq!(control::mark_context_delivery(&Vec::new()), None);
    let told = vec![ContextItem { text: "a".to_owned() }, ContextItem { text: "b".to_owned() }];
    assert!(control::mark_context_delivery(&told).is_some());
    assert_ne!(control::goal_digest("a"), control::goal_digest("b"));
    assert_ne!(control::goal_digest("a"), control::project_context_digest(&b"a".to_vec()));
}

#[test]
fn commands_are_read_like_a_shell_does() {
    assert_eq!(shell::shell_like_tokens("rm 'a b' c"), ["rm", "a b", "c"]);
    assert!(shell::literal_command_path("src/a.rs"));
    assert!(!shell::literal_command_path("$HOME"));
    assert_eq!(shell::extract_destructive_command_paths("rm -rf build"), ["build"]);
    assert!(shell::extract_destructive_command_paths("ls build").is_empty());
}

#[test]
fn objects_answer_for_their_members() {
    let object = Json::empty_object().with("a", Json::text("x")).with("n", Json::Integer(3));
    assert_eq!(object.get_text("a"), Some("x"));
    assert_eq!(object.get("n").and_then(Json::as_integer), Some(3));
    assert!(object.get("z").is_none());
    assert!(object.is_object());
    assert!(Json::Null.is_null());
}

#[test]
fn rejects_an_envelope_outside_the_project_root() {
    for envelope in ["/sandbox/outside.json", "/sandbox/repo/../outside.json"] {
        let inside = normalized(envelope).starts_with("/sandbox/repo/");
        let result = reconcile::resolve_envelope_path(normalized(envelope), inside);
        assert!(matches!(result, Err(AppError::EnvelopeOutsideRoot(_))));
    }
    let inside = reconcile::resolve_envelope_path("/sandbox/repo/envelope.json".to_owned(), true);
    assert_eq!(inside, Ok("/sandbox/repo/envelope.json".to_owned()));
}

/// A path without its upward steps.
fn normalized(path: &str) -> String {
    let mut parts: Vec<&str> = Vec::new();
    for part in path.split('/') {
        if part == ".." {
            parts.pop();
        } else {
            parts.push(part);
        }
    }
    parts.join("/")
}

#[test]
fn observed_changes_need_a_sound_baseline() {
    let changed = vec!["src/a.rs".to_owned()];
    assert_eq!(impact::observed_change_paths(&None, changed.clone()), Ok(None));
    let mut baseline =
        OperationBaseline { recorded: "sha256_a".to_owned(), state: "sha256_a".to_owned() };
    assert_eq!(
        impact::observed_change_paths(&Some(baseline.clone()), changed.clone()),
        Ok(Some(changed.clone()))
    );
    baseline.state = "sha256_b".to_owned();
    assert_eq!(
        impact::observed_change_paths(&Some(baseline), changed),
        Err(AppError::Provider(
            "Source operation baseline fingerprint 与状态内容不一致".to_owned()
        ))
    );
}
