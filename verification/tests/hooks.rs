//! Hook calls from the agent's input to the answer, against a store in memory.
use project_brain::codex::{self, CodexHookInput, DeliveryStamp, NormalizedTool, ResolvedTool};
use project_brain::control::{self, AssessedHead, ControlSessionState};
use project_brain::delivery::{DeliveryPhase, DeliveryReply};
use project_brain::error::AppError;
use project_brain::event::{
    AdapterIdentity, AdapterKind, EventIdentityQuality, HookEvent, HookEventPayload,
    InternalHookEvent, SessionOpenReason,
};
use project_brain::evidence::{self, CurrentSourceVerification};
use project_brain::holds::{self, HeldTool};
use project_brain::impact::{EvidenceImpactPlan, ImpactHead, ImpactSource};
use project_brain::json::Json;
use project_brain::model::{
    ActionKind, Authority, Decision, DecisionKind, Evidence, EvidenceFreshness, EvidencePlane,
    HookOutcomePayload, InternalHookOutcome, MemoryStatus, Rule, RuleEffect, RuleStrength,
    ToolStatus,
};
use project_brain::paths::PathRelation;
use project_brain::protocol::{
    self, HoldRecord, HookContext, HookRun, Reply, Request, StopReconcileConfig, StoredProposal,
};
use project_brain::repair;
use project_brain::replies::{self, RecordedEvent};
use project_brain::shell;
use project_brain::symbols::RulePaths;

const PATCH: &str =
    "*** Begin Patch\n*** Delete File: .project-brain/config.json\n*** End Patch";

fn object(members: Vec<(&str, Json)>) -> Json {
    let mut out = Json::empty_object();
    for (key, value) in members {
        out = out.with(key, value);
    }
    out
}

fn rule(id: &str, effect: RuleEffect, path: &str, actions: Vec<ActionKind>, message: &str) -> Rule {
    Rule {
        id: id.to_owned(),
        status: MemoryStatus::Active,
        authority: Authority::RepositoryRule,
        strength: RuleStrength::Hard,
        effect,
        include_paths: vec![path.to_owned()],
        exclude_paths: Vec::new(),
        actions,
        operations: Vec::new(),
        operation_contains: Vec::new(),
        symbol_scopes: Vec::new(),
        message: message.to_owned(),
        rationale: String::new(),
    }
}

fn protect(effect: RuleEffect, action: ActionKind) -> Rule {
    rule("PROTECT", effect, ".project-brain/config.json", vec![action], "protected")
}

/// What a rule on paths decides on an action.
fn decide(rules: &[Rule], kind: ActionKind, targets: &[String]) -> Decision {
    let mut decision = Decision {
        schema_version: 1,
        decision: DecisionKind::Allow,
        summary: "allowed".to_owned(),
        context: Vec::new(),
        evidence: Vec::new(),
    };
    for rule in rules {
        let named = targets.iter().any(|target| rule.include_paths.contains(target));
        if named && rule.actions.contains(&kind) {
            decision.decision = match rule.effect {
                RuleEffect::Block => DecisionKind::Block,
                RuleEffect::RequireReview => DecisionKind::RequireReview,
                RuleEffect::Escalate => DecisionKind::Escalate,
                RuleEffect::InjectContext => DecisionKind::AllowWithContext,
            };
            decision.summary = rule.message.clone();
            decision.context.push(format!("{}: {}", rule.id, rule.message));
            decision.evidence.push(Evidence {
                rule_id: rule.id.clone(),
                effect: rule.effect,
                message: rule.message.clone(),
                rationale: rule.rationale.clone(),
                grade: None,
                symbol_id: None,
                snapshot_fingerprint: None,
            });
        }
    }
    decision
}

struct Head {
    plane: EvidencePlane,
    provider_id: String,
    source: String,
    freshness: EvidenceFreshness,
}

/// What a store keeps between hook calls.
struct Memory {
    project_key: String,
    rules: Vec<Rule>,
    source: CurrentSourceVerification,
    session: ControlSessionState,
    heads: Vec<Head>,
    audit: Vec<(String, InternalHookEvent, InternalHookOutcome)>,
    failures: Vec<(String, String)>,
    observed: Option<Vec<String>>,
    sequence: u64,
    requests: Vec<Request>,
}

impl Memory {
    fn new(project_key: &str, rules: Vec<Rule>) -> Self {
        Memory {
            project_key: project_key.to_owned(),
            rules,
            source: CurrentSourceVerification::Verified("sha256_source-test".to_owned()),
            session: ControlSessionState {
                goal_revision: 0,
                context_revision: 1,
                lifecycle_epoch: 1,
                hydrated_epoch: 0,
                raw_goal: None,
                outstanding_kind: None,
                outstanding_json: None,
                outstanding_delivered: false,
            },
            heads: Vec::new(),
            audit: Vec::new(),
            failures: Vec::new(),
            observed: None,
            sequence: 0,
            requests: Vec::new(),
        }
    }

    fn assessed(&self) -> Vec<AssessedHead> {
        self.heads
            .iter()
            .map(|head| AssessedHead {
                plane: head.plane,
                provider_id: head.provider_id.clone(),
                freshness: head.freshness,
                effective: evidence::effective_evidence_freshness(
                    head.freshness,
                    &head.source,
                    &self.source,
                ),
                snapshot_fingerprint: "sha256_snapshot".to_owned(),
                stale_reason: None,
            })
            .collect()
    }

    fn apply(&mut self, plan: &EvidenceImpactPlan) -> u64 {
        for transition in &plan.transitions {
            for head in &mut self.heads {
                if head.plane == transition.identity.plane
                    && head.provider_id == transition.identity.provider_id
                {
                    head.freshness = transition.freshness;
                }
            }
        }
        plan.transitions.len() as u64
    }

    fn reply(&mut self, event: &InternalHookEvent, request: &Request) -> Reply {
        match request {
            Request::OpenSession { .. }
            | Request::DeclareGoal { .. }
            | Request::RecordProposal { .. }
            | Request::RecordBaseline => Reply::Done,
            Request::SyncContext { .. } | Request::EnsureSession => {
                Reply::Session(self.session.clone())
            }
            Request::GatherContext => {
                Reply::Context { claims: Vec::new(), heads: self.assessed() }
            }
            Request::MarkDelivered { .. } => {
                self.session.outstanding_delivered = true;
                self.session.hydrated_epoch = self.session.lifecycle_epoch;
                Reply::Done
            }
            Request::NormalizePaths { paths } => Reply::Paths(paths.clone()),
            Request::RelatePaths { left, right } => Reply::Relation(PathRelation {
                rows: left
                    .iter()
                    .map(|a| right.iter().map(|b| a == b).collect())
                    .collect(),
            }),
            Request::AssessAction => {
                let action = match &event.payload {
                    HookEventPayload::ToolAboutToRun(tool) => &tool.action,
                    HookEventPayload::ToolFinished(tool) => &tool.action,
                    _ => panic!("an action is assessed without a tool"),
                };
                let none = || RulePaths {
                    included: PathRelation::none(),
                    excluded: PathRelation::none(),
                };
                Reply::Assessment {
                    path_decision: decide(&self.rules, action.kind, &action.target_files),
                    rule_paths: self.rules.iter().map(|_| none()).collect(),
                    resolutions: self.rules.iter().map(|_| Vec::new()).collect(),
                    source: None,
                }
            }
            Request::AssessEvidence => Reply::Heads(self.assessed()),
            Request::SetHold { hold } => {
                self.session.outstanding_kind = Some(hold.kind().to_owned());
                let tool = HeldTool {
                    operation_id: "operation".to_owned(),
                    tool_name: "apply_patch".to_owned(),
                    result_digest: None,
                };
                let document = holds::description(hold, &tool, "{}".to_owned());
                self.session.outstanding_json = Some(document);
                self.session.outstanding_delivered = false;
                Reply::Done
            }
            Request::ClearHold => {
                self.session.outstanding_kind = None;
                self.session.outstanding_json = None;
                self.session.outstanding_delivered = false;
                Reply::Done
            }
            Request::LoadSession => Reply::MaybeSession(Some(self.session.clone())),
            Request::LoadProposal => Reply::Proposal(match &event.payload {
                HookEventPayload::ToolFinished(tool) => Some(StoredProposal {
                    proposal_digest: "digest".to_owned(),
                    action: tool.action.clone(),
                }),
                _ => None,
            }),
            Request::ObserveChange => Reply::Observed(match (&self.observed, &event.payload) {
                (Some(paths), _) => Some(paths.clone()),
                (None, HookEventPayload::ToolFinished(tool)) => {
                    Some(tool.action.target_files.clone())
                }
                _ => None,
            }),
            Request::GatherImpact => Reply::Impact {
                heads: self
                    .heads
                    .iter()
                    .map(|head| ImpactHead {
                        plane: head.plane,
                        provider_id: head.provider_id.clone(),
                        snapshot_fingerprint: "sha256_snapshot".to_owned(),
                        freshness: head.freshness,
                        has_input_manifest: false,
                        effective: evidence::effective_evidence_freshness(
                            head.freshness,
                            &head.source,
                            &self.source,
                        ),
                    })
                    .collect(),
                source: ImpactSource::NoBaseline {
                    current: self.source.clone(),
                    changed_files: Vec::new(),
                },
                final_source: self.source.clone(),
            },
            Request::ApplyPlan { plan } => {
                let marked = self.apply(plan);
                Reply::Applied { marked, preserved: plan.preserved.len() as u64 }
            }
            Request::GatherStop => Reply::Stop {
                finding_heads: Ok(Vec::new()),
                scopes: self.rules.iter().map(|_| Vec::new()).collect(),
                head: None,
                report: Err("no repository".to_owned()),
            },
            Request::Finish { .. } | Request::Fail { .. } => panic!("a run went on after its end"),
        }
    }

    fn run(
        &mut self,
        root: &str,
        event: &InternalHookEvent,
    ) -> Result<InternalHookOutcome, AppError> {
        let ctx = HookContext {
            root: root.to_owned(),
            ignore_case: false,
            schema_version: 1,
            project_key: self.project_key.clone(),
            project_name: "test".to_owned(),
            rules: self.rules.clone(),
            finding_effect_mappings: Vec::new(),
            stop_reconcile: StopReconcileConfig {
                enabled: false,
                base: "HEAD".to_owned(),
                envelope: ".project-brain/envelope.json".to_owned(),
            },
            context_canonical: self.project_key.clone().into_bytes(),
            provider_trust: Vec::new(),
            event: event.clone(),
        };
        let (mut run, mut request) = HookRun::begin(&ctx);
        loop {
            self.requests.push(request.clone());
            match request {
                Request::Finish { payload } => return Ok(protocol::outcome(&ctx, 1, payload)),
                Request::Fail { error } => return Err(error),
                _ => {
                    let reply = self.reply(event, &request);
                    (run, request) = run.step(&ctx, reply);
                }
            }
        }
    }

    fn event(
        &mut self,
        root: &str,
        kind: AdapterKind,
        event: HookEvent,
        input: &CodexHookInput,
    ) -> Result<InternalHookEvent, AppError> {
        self.sequence += 1;
        let adapter = replies::adapter(kind);
        let stamp = Ok(DeliveryStamp { nonce: 7, sequence: self.sequence, process_id: 1 });
        let tool = if matches!(event, HookEvent::PreToolUse | HookEvent::PostToolUse) {
            let plan = codex::impact_plan(&input.tool_name, &input.tool_input);
            let found = ResolvedTool {
                targets: codex::raw_targets(&input.tool_input),
                impact_paths: plan.paths(),
                first_target_exists: true,
                source: None,
            };
            let action = codex::normalized_action(input, &found);
            let action_json = format!("{action:?}").into_bytes();
            let cwd = codex::effective_cwd(root, input);
            let session = codex::session_key(adapter.namespace, &self.project_key, &cwd, input);
            let operation_id = codex::operation_id(
                adapter.namespace,
                &self.project_key,
                &session,
                input,
                &action_json,
            );
            Some(NormalizedTool { operation_id, action, action_json })
        } else {
            None
        };
        codex::to_internal_event(
            root,
            &self.project_key,
            1,
            event,
            input,
            adapter.identity,
            adapter.namespace,
            tool,
            &stamp,
        )
    }

    fn handle(
        &mut self,
        root: &str,
        kind: AdapterKind,
        event: HookEvent,
        input: &CodexHookInput,
    ) -> Result<InternalHookOutcome, AppError> {
        let internal = self.event(root, kind, event, input)?;
        let mut phase = DeliveryPhase::Run(internal);
        loop {
            let reply = match &phase {
                DeliveryPhase::Run(event) => DeliveryReply::Ran(self.run(root, event)),
                DeliveryPhase::Record(event, outcome) => {
                    DeliveryReply::Recorded(self.record(event, outcome))
                }
                DeliveryPhase::RecordFailure(event, error) => {
                    self.failures.push((event.event_id.clone(), error.message()));
                    DeliveryReply::FailureRecorded
                }
                DeliveryPhase::Done(outcome) => return Ok(outcome.clone()),
                DeliveryPhase::Failed(error) => return Err(error.clone()),
            };
            phase = phase.step(reply);
        }
    }

    fn record(
        &mut self,
        event: &InternalHookEvent,
        outcome: &InternalHookOutcome,
    ) -> Result<RecordedEvent, AppError> {
        match self.audit.iter().find(|row| row.0 == event.event_id) {
            Some((_, first, kept)) if first == event => Ok(RecordedEvent::Duplicate(kept.clone())),
            Some(_) => Err(AppError::Outside("event_id 已用于不同事件".to_owned())),
            None => {
                self.audit.push((event.event_id.clone(), event.clone(), outcome.clone()));
                Ok(RecordedEvent::Inserted)
            }
        }
    }

    fn codex(&mut self, root: &str, event: HookEvent, input: &CodexHookInput) -> Json {
        let outcome = self.handle(root, AdapterKind::Codex, event, input);
        replies::answer(event, input, outcome).unwrap().0
    }

    fn extension(
        &mut self,
        kind: AdapterKind,
        event: HookEvent,
        input: &CodexHookInput,
    ) -> Json {
        let outcome = self.handle("C:/repo", kind, event, input);
        let continues = replies::adapter(kind).continuation_supported;
        replies::answer_extension(event, input, &outcome, continues).0
    }
}

fn delete_input() -> CodexHookInput {
    CodexHookInput {
        session_id: "session".to_owned(),
        cwd: "C:/repo".to_owned(),
        turn_id: "turn".to_owned(),
        tool_name: "apply_patch".to_owned(),
        tool_use_id: "tool".to_owned(),
        tool_input: object(vec![("command", Json::text(PATCH))]),
        ..CodexHookInput::default()
    }
}

fn specific<'a>(output: &'a Json, key: &str) -> Option<&'a str> {
    output.get("hookSpecificOutput").and_then(|inner| inner.get_text(key))
}

fn blocked(output: &Json) -> Option<bool> {
    output.get("block").and_then(Json::as_bool)
}

#[test]
fn extracts_all_apply_patch_file_markers() {
    let input = object(vec![(
        "command",
        Json::text(
            "*** Begin Patch\n*** Update File: src/main.rs\n*** Add File: src/new.rs\n*** End Patch",
        ),
    )]);
    assert_eq!(
        codex::extract_target_files(&input),
        vec!["src/main.rs".to_owned(), "src/new.rs".to_owned()]
    );
}

#[test]
fn classifies_destructive_shell_commands() {
    assert_eq!(
        codex::classify_action("shell_command", Some("Remove-Item file.txt"), false),
        ActionKind::Delete
    );
    assert_eq!(
        codex::classify_action("shell_command", Some("git status"), false),
        ActionKind::GitOperation
    );
    assert_eq!(
        shell::extract_destructive_command_paths(
            "git status && git rm '.project-brain/config.json'; Remove-Item -Force other.txt"
        ),
        vec![".project-brain/config.json".to_owned(), "other.txt".to_owned()]
    );
    assert_eq!(
        codex::classify_action("str_replace_editor", Some("str_replace"), false),
        ActionKind::Modify
    );
    assert_eq!(
        codex::classify_action("pwsh", Some("Remove-Item file.txt"), false),
        ActionKind::Delete
    );
}

#[test]
fn codex_pre_tool_hook_denies_without_approving_vendor_permissions() {
    let mut memory = Memory::new("project_a", vec![protect(RuleEffect::Block, ActionKind::Delete)]);
    let output = memory.codex("C:/repo", HookEvent::PreToolUse, &delete_input());
    assert_eq!(specific(&output, "permissionDecision"), Some("deny"));
    assert_eq!(memory.audit.len(), 1);
}

#[test]
fn codex_no_veto_emits_no_vendor_permission_approval() {
    let mut memory = Memory::new("project_a", vec![protect(RuleEffect::Block, ActionKind::Delete)]);
    let mut input = delete_input();
    input.tool_use_id = "allowed-tool".to_owned();
    input.tool_input = object(vec![("path", Json::text("README.md"))]);
    let output = memory.codex("C:/repo", HookEvent::PreToolUse, &input);
    assert_eq!(output, Json::empty_object());
}

#[test]
fn codex_no_veto_with_context_does_not_approve_vendor_permissions() {
    let mut memory =
        Memory::new("project_a", vec![protect(RuleEffect::InjectContext, ActionKind::Delete)]);
    let output = memory.codex("C:/repo", HookEvent::PreToolUse, &delete_input());
    assert!(specific(&output, "additionalContext").is_some());
    assert!(specific(&output, "permissionDecision").is_none());
}

#[test]
fn codex_post_tool_violation_is_feedback_not_a_retroactive_block() {
    let mut memory = Memory::new("project_a", vec![protect(RuleEffect::Block, ActionKind::Delete)]);
    let output = memory.codex("C:/repo", HookEvent::PostToolUse, &delete_input());
    assert!(output.get("decision").is_none());
    assert_eq!(specific(&output, "hookEventName"), Some("PostToolUse"));
}

#[test]
fn codex_post_tool_records_failed_response_status() {
    let mut memory = Memory::new("project_a", vec![protect(RuleEffect::Block, ActionKind::Delete)]);
    let mut input = delete_input();
    input.tool_response = object(vec![("exit_code", Json::Integer(1))]);
    memory.codex("C:/repo", HookEvent::PostToolUse, &input);
    let HookEventPayload::ToolFinished(finished) = &memory.audit[0].1.payload else {
        panic!("期望 ToolFinished")
    };
    assert_eq!(finished.status, ToolStatus::Failed);
}

fn head(plane: EvidencePlane, provider_id: &str) -> Head {
    Head {
        plane,
        provider_id: provider_id.to_owned(),
        source: "sha256_source-test".to_owned(),
        freshness: EvidenceFreshness::Fresh,
    }
}

#[test]
fn successful_post_tool_mutation_marks_source_and_downstream_evidence_stale() {
    let mut memory = Memory::new("project_a", vec![protect(RuleEffect::Block, ActionKind::Delete)]);
    memory.heads.push(head(EvidencePlane::Engine, "engine-resolver"));
    memory.heads.push(head(EvidencePlane::Source, "git-source"));
    let input = CodexHookInput {
        session_id: "session".to_owned(),
        cwd: "C:/repo".to_owned(),
        turn_id: "turn".to_owned(),
        tool_name: "Write".to_owned(),
        tool_use_id: "write-tool".to_owned(),
        tool_input: object(vec![("path", Json::text("src/main.rs"))]),
        tool_response: object(vec![("success", Json::Bool(true))]),
        ..CodexHookInput::default()
    };
    let output = memory.codex("C:/repo", HookEvent::PostToolUse, &input);
    assert!(specific(&output, "additionalContext").unwrap().contains("已标记为 stale"));
    assert_eq!(memory.heads.len(), 2);
    assert!(memory.heads.iter().all(|head| head.freshness == EvidenceFreshness::Stale));

    let session = memory.codex(
        "C:/repo",
        HookEvent::SessionStart,
        &CodexHookInput {
            session_id: "next-session".to_owned(),
            source: "startup".to_owned(),
            ..CodexHookInput::default()
        },
    );
    assert!(specific(&session, "additionalContext").unwrap().contains("freshness=stale"));
}

#[test]
fn opaque_post_tool_with_unverifiable_source_removes_hard_authority() {
    let mut memory = Memory::new("project_a", vec![protect(RuleEffect::Block, ActionKind::Delete)]);
    memory.heads.push(head(EvidencePlane::Engine, "engine-resolver"));
    memory.source = CurrentSourceVerification::Unavailable("no such directory".to_owned());
    let input = CodexHookInput {
        session_id: "session".to_owned(),
        cwd: "Z:/missing-project-brain-repository".to_owned(),
        turn_id: "turn".to_owned(),
        tool_name: "shell_command".to_owned(),
        tool_use_id: "opaque-tool".to_owned(),
        tool_input: object(vec![("command", Json::text("opaque command"))]),
        tool_response: object(vec![("exit_code", Json::Integer(1))]),
        ..CodexHookInput::default()
    };
    let output =
        memory.codex("Z:/missing-project-brain-repository", HookEvent::PostToolUse, &input);
    assert!(specific(&output, "additionalContext").unwrap().contains("标记为 unknown"));
    assert_eq!(memory.heads[0].freshness, EvidenceFreshness::Unknown);
}

#[test]
fn matching_evidence_outlives_a_command_and_drifted_evidence_does_not() {
    let mut memory = Memory::new("project_a", Vec::new());
    memory.heads.push(head(EvidencePlane::Engine, "engine-resolver"));
    let command = |id: &str, command: &str| CodexHookInput {
        session_id: "session".to_owned(),
        cwd: "C:/repo".to_owned(),
        turn_id: id.to_owned(),
        tool_name: "shell_command".to_owned(),
        tool_use_id: id.to_owned(),
        tool_input: object(vec![("command", Json::text(command))]),
        tool_response: object(vec![("exit_code", Json::Integer(0))]),
        ..CodexHookInput::default()
    };
    memory.codex("C:/repo", HookEvent::PostToolUse, &command("one", "git status"));
    assert_eq!(memory.heads[0].freshness, EvidenceFreshness::Fresh);

    memory.source = CurrentSourceVerification::Verified("sha256_changed".to_owned());
    let output = memory.codex(
        "C:/repo",
        HookEvent::PostToolUse,
        &command("two", "opaque generator invocation"),
    );
    assert!(specific(&output, "additionalContext").unwrap().contains("已标记为 stale"));
    assert_eq!(memory.heads[0].freshness, EvidenceFreshness::Stale);
}

#[test]
fn session_and_intent_outputs_follow_their_codex_contracts() {
    let mut memory = Memory::new("project_a", vec![protect(RuleEffect::Block, ActionKind::Delete)]);
    let session = memory.codex(
        "C:/repo",
        HookEvent::SessionStart,
        &CodexHookInput {
            session_id: "session".to_owned(),
            source: "startup".to_owned(),
            ..CodexHookInput::default()
        },
    );
    assert_eq!(specific(&session, "hookEventName"), Some("SessionStart"));
    assert!(specific(&session, "additionalContext").unwrap().contains("project_key=project_a"));
    let HookEventPayload::SessionOpened(opened) = &memory.audit[0].1.payload else {
        panic!("expected an opened session")
    };
    assert_eq!(opened.reason, SessionOpenReason::Startup);

    let intent = memory.handle(
        "C:/repo",
        AdapterKind::Codex,
        HookEvent::UserPromptSubmit,
        &CodexHookInput {
            session_id: "session".to_owned(),
            turn_id: "turn".to_owned(),
            prompt: "修改 README".to_owned(),
            ..CodexHookInput::default()
        },
    );
    assert!(intent.is_ok());
    assert!(
        memory
            .audit
            .iter()
            .any(|record| matches!(record.1.payload, HookEventPayload::IntentDeclared(_)))
    );
}

#[test]
fn critical_hook_errors_have_explicit_fail_closed_outputs() {
    let input = CodexHookInput::default();
    let pre =
        replies::failure_output(HookEvent::PreToolUse, &input, "database unavailable").unwrap();
    assert_eq!(specific(&pre.0, "permissionDecision"), Some("deny"));
    let stop = replies::failure_output(HookEvent::Stop, &input, "database unavailable").unwrap();
    assert_eq!(stop.0.get_text("decision"), Some("block"));
    assert!(replies::failure_output(HookEvent::PostToolUse, &input, "failure").is_none());
}

#[test]
fn duplicate_delivery_reuses_the_first_outcome_and_audit_row() {
    let mut memory = Memory::new("project_a", vec![protect(RuleEffect::Block, ActionKind::Delete)]);
    let first = memory.codex("C:/repo", HookEvent::PreToolUse, &delete_input());
    let second = memory.codex("C:/repo", HookEvent::PreToolUse, &delete_input());
    assert_eq!(first, second);
    assert_eq!(memory.audit.len(), 1);
}

#[test]
fn vendor_tool_identity_rejects_a_changed_retry_payload() {
    let mut memory = Memory::new("project_a", vec![protect(RuleEffect::Block, ActionKind::Delete)]);
    let mut retry = delete_input();
    retry.tool_input = object(vec![("path", Json::text("README.md"))]);
    let denied = memory.codex("C:/repo", HookEvent::PreToolUse, &delete_input());
    let replayed = memory.codex("C:/repo", HookEvent::PreToolUse, &retry);
    assert_ne!(denied, replayed);
    assert_eq!(specific(&denied, "permissionDecisionReason"), Some("PROTECT: protected"));
    assert!(
        specific(&replayed, "permissionDecisionReason")
            .is_some_and(|reason| reason.contains("event_id 已用于不同事件"))
    );
    assert_eq!(memory.audit.len(), 1);
}

#[test]
fn identical_vendor_ids_are_isolated_by_project_key() {
    let operation_ids = ["project_a", "project_b"].map(|project_key| {
        let mut memory =
            Memory::new(project_key, vec![protect(RuleEffect::Block, ActionKind::Delete)]);
        memory.codex("C:/repo", HookEvent::PreToolUse, &delete_input());
        assert_eq!(memory.audit.len(), 1);
        let HookEventPayload::ToolAboutToRun(tool) = &memory.audit[0].1.payload else {
            panic!("期望 ToolAboutToRun")
        };
        tool.operation_id.clone()
    });
    assert_ne!(operation_ids[0], operation_ids[1]);
}

#[test]
fn active_stop_hook_does_not_start_a_reconcile_loop() {
    let mut memory = Memory::new("project_a", vec![protect(RuleEffect::Block, ActionKind::Delete)]);
    let input = CodexHookInput { stop_hook_active: true, ..CodexHookInput::default() };
    let output = memory.codex("Z:/not/a/repository", HookEvent::Stop, &input);
    assert_eq!(output, object(vec![("continue", Json::Bool(true))]));
}

#[test]
fn stop_without_a_vendor_delivery_id_is_not_cached_across_invocations() {
    let mut memory = Memory::new("project_a", vec![protect(RuleEffect::Block, ActionKind::Delete)]);
    let input = CodexHookInput {
        turn_id: "turn".to_owned(),
        stop_hook_active: true,
        ..CodexHookInput::default()
    };
    for _ in 0..2 {
        memory.codex("Z:/not/a/repository", HookEvent::Stop, &input);
    }
    assert_eq!(memory.audit.len(), 2);
    assert_eq!(memory.audit[0].1.identity_quality, EventIdentityQuality::PerDelivery);
}

#[test]
fn structured_write_and_delete_have_whole_file_impacts_but_patch_update_does_not() {
    let write = object(vec![
        ("file_path", Json::text("/root/src/lib.rs")),
        ("content", Json::text("new")),
    ]);
    let plan = codex::impact_plan("Write", &write);
    assert_eq!(plan.paths(), ["/root/src/lib.rs"]);
    let impacts = codex::deterministic_impacts(&plan, &vec!["src/lib.rs".to_owned()], &None);
    assert_eq!(impacts.len(), 1);
    assert_eq!(impacts[0].path, "src/lib.rs");
    assert!(impacts[0].whole_file);

    let patch = |body: &str| {
        object(vec![(
            "command",
            Json::text(&format!("*** Begin Patch\n{body}\n*** End Patch")),
        )])
    };
    let plan = codex::impact_plan("apply_patch", &patch("*** Delete File: src/lib.rs"));
    let impacts = codex::deterministic_impacts(&plan, &plan.paths(), &None);
    assert!(impacts[0].whole_file);

    let plan =
        codex::impact_plan("apply_patch", &patch("*** Update File: src/lib.rs\n@@\n-old\n+new"));
    assert!(codex::deterministic_impacts(&plan, &plan.paths(), &None).is_empty());
}

#[test]
fn edit_impact_requires_a_unique_old_string() {
    let edit = object(vec![
        ("file_path", Json::text("src/lib.rs")),
        ("old_string", Json::text("target")),
        ("new_string", Json::text("changed")),
    ]);
    let plan = codex::impact_plan("Edit", &edit);
    let source = Some("one\ntarget\nthree\n".to_owned());
    let impacts = codex::deterministic_impacts(&plan, &plan.paths(), &source);
    assert_eq!(impacts[0].ranges[0].start_line, 2);
    assert_eq!(impacts[0].ranges[0].end_line, 2);

    let twice = Some("target\ntarget\n".to_owned());
    assert!(codex::deterministic_impacts(&plan, &plan.paths(), &twice).is_empty());
}

#[test]
fn claude_pre_tool_denial_uses_a_separate_adapter_audit_domain() {
    let mut memory = Memory::new("project_a", vec![protect(RuleEffect::Block, ActionKind::Modify)]);
    let input = CodexHookInput {
        session_id: "session".to_owned(),
        cwd: "C:/repo".to_owned(),
        tool_name: "Write".to_owned(),
        tool_use_id: "tool".to_owned(),
        tool_input: object(vec![
            ("file_path", Json::text(".project-brain/config.json")),
            ("content", Json::text("")),
        ]),
        ..CodexHookInput::default()
    };
    let outcome =
        memory.handle("C:/repo", AdapterKind::ClaudeCode, HookEvent::PreToolUse, &input);
    let output = replies::answer(HookEvent::PreToolUse, &input, outcome).unwrap().0;
    assert_eq!(specific(&output, "permissionDecision"), Some("deny"));
    assert_eq!(memory.audit.len(), 1);
    assert_eq!(memory.audit[0].1.adapter.kind, AdapterKind::ClaudeCode);
    assert_eq!(replies::adapter(AdapterKind::ClaudeCode).namespace, "claude_code");
}

fn edit_of_the_configuration() -> CodexHookInput {
    CodexHookInput {
        session_id: "session".to_owned(),
        cwd: "C:/repo".to_owned(),
        tool_name: "edit".to_owned(),
        tool_use_id: "tool".to_owned(),
        tool_input: object(vec![
            ("path", Json::text(".project-brain/config.json")),
            ("oldText", Json::text("old")),
            ("newText", Json::text("new")),
        ]),
        ..CodexHookInput::default()
    }
}

#[test]
fn pi_pre_tool_denial_uses_an_independent_adapter_domain() {
    let mut memory = Memory::new("project_a", vec![protect(RuleEffect::Block, ActionKind::Modify)]);
    let input = edit_of_the_configuration();
    let output = memory.extension(AdapterKind::Pi, HookEvent::PreToolUse, &input);
    assert_eq!(blocked(&output), Some(true));
    assert_eq!(memory.audit.len(), 1);
    assert_eq!(memory.audit[0].1.adapter.kind, AdapterKind::Pi);
    assert_eq!(replies::adapter(AdapterKind::Pi).namespace, "pi");
    assert!(replies::adapter(AdapterKind::Pi).continuation_supported);
}

#[test]
fn prime_pre_tool_denial_uses_an_independent_adapter_domain() {
    let mut memory = Memory::new("project_a", vec![protect(RuleEffect::Block, ActionKind::Modify)]);
    let input = edit_of_the_configuration();
    let outcome =
        memory.handle("C:/repo", AdapterKind::PrimeAgent, HookEvent::PreToolUse, &input);
    let output = replies::answer_prime(HookEvent::PreToolUse, &outcome).0;
    assert_eq!(blocked(&output), Some(true));
    assert_eq!(memory.audit.len(), 1);
    assert_eq!(memory.audit[0].1.adapter.kind, AdapterKind::PrimeAgent);
    assert_eq!(replies::adapter(AdapterKind::PrimeAgent).namespace, "prime_agent");
    assert!(!replies::adapter(AdapterKind::PrimeAgent).continuation_supported);
}

fn readme_review() -> Vec<Rule> {
    vec![rule(
        "REVIEW",
        RuleEffect::RequireReview,
        "README.md",
        vec![ActionKind::Create, ActionKind::Modify],
        "先重新确认公开安装合同",
    )]
}

fn readme_write(tool_id: &str) -> CodexHookInput {
    CodexHookInput {
        session_id: "session".to_owned(),
        cwd: "C:/repo".to_owned(),
        turn_id: "turn".to_owned(),
        tool_name: "Write".to_owned(),
        tool_use_id: tool_id.to_owned(),
        tool_input: object(vec![
            ("file_path", Json::text("README.md")),
            ("content", Json::text("updated")),
        ]),
        ..CodexHookInput::default()
    }
}

#[test]
fn dsh_replan_is_delivered_on_next_pre_step_before_retry() {
    let mut memory = Memory::new("project_a", readme_review());
    let first =
        memory.extension(AdapterKind::Dsh, HookEvent::PreToolUse, &readme_write("tool-1"));
    assert_eq!(blocked(&first), Some(true));
    assert_eq!(first.get("replan").and_then(Json::as_bool), Some(true));

    let step = CodexHookInput {
        session_id: "session".to_owned(),
        turn_id: "turn".to_owned(),
        ..CodexHookInput::default()
    };
    let delivery = memory.extension(AdapterKind::Dsh, HookEvent::PreStep, &step);
    let Some(Json::Array(texts)) = delivery.get("context") else {
        panic!("expected a list of texts")
    };
    assert!(texts.iter().any(|text| text.as_text().is_some_and(|text| text.contains("replan"))));

    let retry =
        memory.extension(AdapterKind::Dsh, HookEvent::PreToolUse, &readme_write("tool-2"));
    assert_eq!(blocked(&retry), Some(false));
}

#[test]
fn a_replan_is_not_lifted_by_another_proposal() {
    let mut memory = Memory::new("project_a", readme_review());
    memory.extension(AdapterKind::Pi, HookEvent::PreToolUse, &readme_write("tool-1"));
    assert!(memory.session.outstanding_delivered);
    let mut other = readme_write("tool-2");
    other.tool_name = "Edit".to_owned();
    other.tool_input = object(vec![("file_path", Json::text("README.md"))]);
    let output = memory.extension(AdapterKind::Pi, HookEvent::PreToolUse, &other);
    assert_eq!(blocked(&output), Some(true));
}

#[test]
fn dsh_claims_verified_tool_gate_and_stop_continuation() {
    let mut memory = Memory::new("project_a", vec![protect(RuleEffect::Block, ActionKind::Modify)]);
    let input = edit_of_the_configuration();
    let denied = memory.extension(AdapterKind::Dsh, HookEvent::PreToolUse, &input);
    assert_eq!(blocked(&denied), Some(true));
    assert!(replies::adapter(AdapterKind::Dsh).continuation_supported);
}

#[test]
fn opencode_does_not_claim_stop_continuation() {
    assert!(!replies::adapter(AdapterKind::Opencode).continuation_supported);
}

#[test]
fn writing_is_recorded_before_it_may_run() {
    let mut memory = Memory::new("project_a", Vec::new());
    let output =
        memory.extension(AdapterKind::Pi, HookEvent::PreToolUse, &readme_write("tool-1"));
    assert_eq!(blocked(&output), Some(false));
    let recorded = memory
        .requests
        .iter()
        .position(|request| matches!(request, Request::RecordBaseline));
    let finished =
        memory.requests.iter().position(|request| matches!(request, Request::Finish { .. }));
    assert!(recorded.unwrap() < finished.unwrap());
}

#[test]
fn a_waiting_repair_keeps_unrelated_writing_and_stopping() {
    let mut memory = Memory::new("project_a", Vec::new());
    memory.session.outstanding_kind = Some("repair_required".to_owned());
    memory.session.outstanding_json =
        Some("{\"unexpected_paths\":[\"package.json\"]}".to_owned());
    let output =
        memory.extension(AdapterKind::Pi, HookEvent::PreToolUse, &readme_write("tool-1"));
    assert_eq!(blocked(&output), Some(true));

    let stop = memory.extension(AdapterKind::Pi, HookEvent::Stop, &CodexHookInput::default());
    let asked = stop.get("continuation").and_then(|c| c.get("requested")).and_then(Json::as_bool);
    assert_eq!(asked, Some(true));

    let active = CodexHookInput { stop_hook_active: true, ..CodexHookInput::default() };
    let stop = memory.extension(AdapterKind::Pi, HookEvent::Stop, &active);
    let asked = stop.get("continuation").and_then(|c| c.get("requested")).and_then(Json::as_bool);
    assert_eq!(asked, Some(false));
}

#[test]
fn a_change_beyond_the_proposal_is_held() {
    let mut memory = Memory::new("project_a", Vec::new());
    let input = readme_write("tool-1");
    let internal =
        memory.event("C:/repo", AdapterKind::Pi, HookEvent::PostToolUse, &input).unwrap();
    let ctx = HookContext {
        root: "C:/repo".to_owned(),
        ignore_case: false,
        schema_version: 1,
        project_key: "project_a".to_owned(),
        project_name: "test".to_owned(),
        rules: Vec::new(),
        finding_effect_mappings: Vec::new(),
        stop_reconcile: StopReconcileConfig {
            enabled: false,
            base: "HEAD".to_owned(),
            envelope: String::new(),
        },
        context_canonical: Vec::new(),
        provider_trust: Vec::new(),
        event: internal.clone(),
    };
    let (mut run, mut request) = HookRun::begin(&ctx);
    let mut held = None;
    for _ in 0..20 {
        match &request {
            Request::Finish { .. } | Request::Fail { .. } => break,
            Request::SetHold { hold } => held = Some(hold.clone()),
            _ => {}
        }
        let reply = match &request {
            Request::ObserveChange => Reply::Observed(Some(vec![
                "README.md".to_owned(),
                "src/secret.rs".to_owned(),
            ])),
            _ => memory.reply(&internal, &request),
        };
        (run, request) = run.step(&ctx, reply);
    }
    let Some(HoldRecord::Deviation { unexpected_paths, .. }) = held else {
        panic!("expected a deviation")
    };
    assert_eq!(unexpected_paths, ["src/secret.rs"]);
    let Request::Finish { payload: HookOutcomePayload::ToolFinished { feedback } } = request else {
        panic!("expected an outcome")
    };
    assert!(feedback.iter().any(|item| item.text.contains("src/secret.rs")));
}

#[test]
fn a_reply_that_was_not_asked_for_ends_a_run() {
    let mut memory = Memory::new("project_a", Vec::new());
    let internal = memory
        .event("C:/repo", AdapterKind::Codex, HookEvent::Stop, &CodexHookInput::default())
        .unwrap();
    let ctx = HookContext {
        root: String::new(),
        ignore_case: true,
        schema_version: 1,
        project_key: String::new(),
        project_name: String::new(),
        rules: Vec::new(),
        finding_effect_mappings: Vec::new(),
        stop_reconcile: StopReconcileConfig {
            enabled: false,
            base: String::new(),
            envelope: String::new(),
        },
        context_canonical: Vec::new(),
        provider_trust: Vec::new(),
        event: internal,
    };
    let (run, request) = HookRun::begin(&ctx);
    assert_eq!(request, Request::LoadSession);
    let (_, request) = run.step(&ctx, Reply::Done);
    assert_eq!(request, Request::Fail { error: AppError::UnexpectedReply });
}

#[test]
fn a_clock_that_stands_before_its_epoch_gives_no_stop_event() {
    let adapter = AdapterIdentity { kind: AdapterKind::Codex, adapter_version: 1 };
    let failed = codex::to_internal_event(
        "C:/repo",
        "project_a",
        1,
        HookEvent::Stop,
        &CodexHookInput::default(),
        adapter,
        "codex",
        None,
        &Err("second time provided was later than self".to_owned()),
    );
    assert_eq!(
        failed,
        Err(AppError::Clock("second time provided was later than self".to_owned()))
    );
}

#[test]
fn agents_give_one_tool_use_different_names() {
    let input = delete_input();
    let names: Vec<String> = [AdapterKind::Codex, AdapterKind::ClaudeCode, AdapterKind::Dsh]
        .into_iter()
        .map(|kind| {
            let mut memory = Memory::new("project_a", Vec::new());
            memory.event("C:/repo", kind, HookEvent::PreToolUse, &input).unwrap().event_id
        })
        .collect();
    assert_ne!(names[0], names[1]);
    assert_ne!(names[0], names[2]);
    assert_ne!(names[1], names[2]);
}

#[test]
fn names_are_made_from_their_parts() {
    // sha256 of the parts "a" and "b", each behind its length in eight bytes.
    let name = codex::hash_id("event", &vec!["a", "b"]);
    assert_ne!(name, codex::hash_id("event", &vec!["ab"]));
    assert_ne!(name, codex::hash_id("operation", &vec!["a", "b"]));
    assert_eq!(name, codex::hash_id("event", &vec!["a", "b"]));
}

#[test]
fn a_foreign_project_is_answered_at_once() {
    let input = CodexHookInput::default();
    assert!(replies::answer_stranger(HookEvent::PreToolUse, &input, "pb_a", "pb_a").is_none());
    let denied = replies::answer_stranger(HookEvent::PreToolUse, &input, "pb_a", "pb_b");
    let output = denied.unwrap().unwrap().0;
    assert_eq!(specific(&output, "permissionDecision"), Some("deny"));
    assert!(
        specific(&output, "permissionDecisionReason")
            .unwrap()
            .ends_with("本机注册 project_key=pb_a 与仓库 project_key=pb_b 不一致")
    );
    assert_eq!(
        replies::answer_stranger(HookEvent::PostToolUse, &input, "pb_a", "pb_b"),
        Some(Err(AppError::Setup(
            "本机注册 project_key=pb_a 与仓库 project_key=pb_b 不一致".to_owned()
        )))
    );
    assert!(replies::answer_prime_stranger(HookEvent::Stop, "pb_a", "pb_a").is_none());
    let stopped = replies::answer_prime_stranger(HookEvent::Stop, "pb_a", "pb_b").unwrap();
    assert_eq!(stopped.0.get_text("event"), Some("task_stopping"));
}

#[test]
fn a_failure_holds_a_task_at_most_once() {
    let held = CodexHookInput { stop_hook_active: true, ..CodexHookInput::default() };
    let output = replies::failure_output(HookEvent::Stop, &held, "failure").unwrap();
    assert_eq!(output.0, object(vec![("continue", Json::Bool(true))]));
    let asked = |active: bool| {
        let output = replies::adapter_failure_output(HookEvent::Stop, "failure", true, active);
        output.0.get("continuation").and_then(|c| c.get("requested")).and_then(Json::as_bool)
    };
    assert_eq!(asked(false), Some(true));
    assert_eq!(asked(true), Some(false));
}

#[test]
fn milliseconds_stop_at_the_largest_number() {
    assert_eq!(replies::elapsed_millis(1500), 1500);
    assert_eq!(replies::elapsed_millis(u128::MAX), u64::MAX);
}

fn patch_of(path: &str, tool_use_id: &str) -> CodexHookInput {
    CodexHookInput {
        session_id: "session".to_owned(),
        cwd: "C:/repo".to_owned(),
        turn_id: "turn".to_owned(),
        tool_name: "apply_patch".to_owned(),
        tool_use_id: tool_use_id.to_owned(),
        tool_input: object(vec![(
            "command",
            Json::text(&format!(
                "*** Begin Patch\n*** Update File: {path}\n@@\n-a\n+b\n*** End Patch"
            )),
        )]),
        ..CodexHookInput::default()
    }
}

#[test]
fn a_change_beyond_its_proposal_holds_other_writes_until_it_is_repaired() {
    let mut memory = Memory::new("project_a", Vec::new());
    memory.observed = Some(vec!["src/a.rs".to_owned(), "src/stray.rs".to_owned()]);
    let kind = AdapterKind::Codex;
    let post = HookEvent::PostToolUse;
    memory.handle("C:/repo", kind, post, &patch_of("src/a.rs", "one")).unwrap();
    assert_eq!(memory.session.outstanding_kind.as_deref(), Some("repair_required"));
    let held = memory.session.outstanding_json.clone().unwrap();
    let held: serde_json::Value = serde_json::from_str(&held).unwrap();
    assert_eq!(held["unexpected_paths"][0], "src/stray.rs");
    assert_eq!(held["expected_paths"][0], "src/a.rs");

    let pre = HookEvent::PreToolUse;
    let other = memory.handle("C:/repo", kind, pre, &patch_of("src/other.rs", "two")).unwrap();
    let HookOutcomePayload::ToolAboutToRun { gate, .. } = other.payload else {
        panic!("expected an answer before the tool")
    };
    assert!(matches!(gate, project_brain::model::GateDecision::Replan { .. }));
    let repair = memory.handle("C:/repo", kind, pre, &patch_of("src/stray.rs", "three")).unwrap();
    let HookOutcomePayload::ToolAboutToRun { gate, .. } = repair.payload else {
        panic!("expected an answer before the tool")
    };
    assert_eq!(gate, project_brain::model::GateDecision::NoVeto);

    memory.observed = Some(vec!["src/stray.rs".to_owned()]);
    memory.handle("C:/repo", kind, post, &patch_of("src/stray.rs", "three")).unwrap();
    assert_eq!(memory.session.outstanding_kind, None);
}

#[test]
fn holds_are_read_back() {
    let tool = HeldTool {
        operation_id: "operation".to_owned(),
        tool_name: "apply_patch".to_owned(),
        result_digest: None,
    };
    let deviation = HoldRecord::Deviation {
        proposal_digest: "digest".to_owned(),
        expected_paths: vec!["src/a.rs".to_owned()],
        observed_paths: vec!["src/a.rs".to_owned(), "src/\"b\".rs".to_owned()],
        unexpected_paths: vec!["src/\"b\".rs".to_owned()],
    };
    let document = holds::description(&deviation, &tool, String::new());
    assert!(document.contains(r#""result_digest":null"#));
    assert!(document.contains(r#""expected_paths":["src/a.rs"]"#));
    assert_eq!(repair::repair_paths(&Some(document)), ["src/\"b\".rs"]);

    let replan = HoldRecord::Replan {
        proposal_digest: "digest".to_owned(),
        target_files: vec!["src/a.rs".to_owned()],
        decision: decide(&[], ActionKind::Modify, &["src/a.rs".to_owned()]),
    };
    let document = holds::description(&replan, &tool, r#"{"allowed":false}"#.to_owned());
    assert!(document.contains(r#""decision":{"allowed":false}"#));
    assert!(document.contains(r#""schema_version":1"#));
    let kind = Some("replan".to_owned());
    let held = Some(document);
    assert!(repair::delivered_replan_matches(&kind, true, &held, "digest"));
    assert!(!repair::delivered_replan_matches(&kind, true, &held, "other"));
}

#[test]
fn tool_events_are_named_by_their_call() {
    let stamp = |sequence| Ok(DeliveryStamp { nonce: 7, sequence, process_id: 1 });
    let name = |event, id: &str, project: &str, session: &str, namespace: &str, sequence| {
        let input = CodexHookInput { tool_use_id: id.to_owned(), ..delete_input() };
        codex::event_identity(event, &input, project, session, namespace, &stamp(sequence)).unwrap()
    };
    let first = name(HookEvent::PreToolUse, "tool", "project_a", "session", "codex", 1);
    assert_eq!(first.1, EventIdentityQuality::VendorStable);
    assert!(first.0.starts_with("codex_event_"));
    assert_eq!(first.0.len(), "codex_event_".len() + 64);
    assert_eq!(name(HookEvent::PreToolUse, "tool", "project_a", "session", "codex", 2), first);
    for other in [
        name(HookEvent::PostToolUse, "tool", "project_a", "session", "codex", 1),
        name(HookEvent::PreToolUse, "tool-2", "project_a", "session", "codex", 1),
        name(HookEvent::PreToolUse, "tool", "project_b", "session", "codex", 1),
        name(HookEvent::PreToolUse, "tool", "project_a", "session-2", "codex", 1),
        name(HookEvent::PreToolUse, "tool", "project_a", "session", "opencode", 1),
    ] {
        assert_eq!(other.1, EventIdentityQuality::VendorStable);
        assert_ne!(other.0, first.0);
    }
    let blank = name(HookEvent::PreToolUse, " ", "project_a", "session", "codex", 1);
    assert_eq!(blank.1, EventIdentityQuality::PerDelivery);
    let stop = name(HookEvent::Stop, "tool", "project_a", "session", "codex", 1);
    let again = name(HookEvent::Stop, "tool", "project_a", "session", "codex", 2);
    assert_eq!(stop.1, EventIdentityQuality::PerDelivery);
    assert_eq!(again.1, EventIdentityQuality::PerDelivery);
    assert_ne!(stop.0, again.0);
}

#[test]
fn second_deliveries_are_answered_as_the_first_was() {
    let mut memory = Memory::new("project_a", vec![protect(RuleEffect::Block, ActionKind::Delete)]);
    let input = delete_input();
    let first = memory.handle("C:/repo", AdapterKind::Codex, HookEvent::PreToolUse, &input);
    memory.rules.clear();
    let second = memory.handle("C:/repo", AdapterKind::Codex, HookEvent::PreToolUse, &input);
    assert_eq!(first.clone().unwrap(), second.unwrap());
    assert_eq!(memory.audit.len(), 1);
    assert_eq!(memory.audit[0].2, first.unwrap());
    let mut changed = input;
    changed.tool_input = object(vec![("path", Json::text("README.md"))]);
    let refused = memory.handle("C:/repo", AdapterKind::Codex, HookEvent::PreToolUse, &changed);
    assert!(matches!(refused, Err(AppError::Outside(_))));
    assert_eq!(memory.audit.len(), 1);
    assert!(memory.failures.is_empty());
}

#[test]
fn deliveries_run_record_and_end() {
    let mut memory = Memory::new("project_a", Vec::new());
    let event = memory
        .event("C:/repo", AdapterKind::Codex, HookEvent::PreToolUse, &delete_input())
        .unwrap();
    let outcome = memory.run("C:/repo", &event).unwrap();
    let other = InternalHookOutcome { protocol_version: 9, ..outcome.clone() };
    let start = || DeliveryPhase::Run(event.clone());
    let record = DeliveryPhase::Record(event.clone(), outcome.clone());
    let ran = start().step(DeliveryReply::Ran(Ok(outcome.clone())));
    assert_eq!(ran, record);
    assert_eq!(
        ran.step(DeliveryReply::Recorded(Ok(RecordedEvent::Inserted))),
        DeliveryPhase::Done(outcome.clone())
    );
    let again = DeliveryPhase::Record(event.clone(), outcome);
    assert_eq!(
        again.step(DeliveryReply::Recorded(Ok(RecordedEvent::Duplicate(other.clone())))),
        DeliveryPhase::Done(other)
    );
    let refused = record.step(DeliveryReply::Recorded(Err(AppError::Outside("no".to_owned()))));
    assert_eq!(refused, DeliveryPhase::Failed(AppError::Outside("no".to_owned())));

    let clock = || AppError::Clock("late".to_owned());
    let failed = start().step(DeliveryReply::Ran(Err(clock())));
    assert_eq!(failed, DeliveryPhase::RecordFailure(event.clone(), clock()));
    assert_eq!(failed.step(DeliveryReply::FailureRecorded), DeliveryPhase::Failed(clock()));
    assert_eq!(
        start().step(DeliveryReply::FailureRecorded),
        DeliveryPhase::Failed(AppError::UnexpectedReply)
    );
}

#[test]
fn active_rules_are_found_in_their_places() {
    let mut rules = vec![
        protect(RuleEffect::Block, ActionKind::Delete),
        protect(RuleEffect::Block, ActionKind::Modify),
        protect(RuleEffect::Escalate, ActionKind::Delete),
    ];
    assert_eq!(control::active_rules(&rules), [0, 1, 2]);
    rules[1].status = MemoryStatus::Inactive;
    assert_eq!(control::active_rules(&rules), [0, 2]);
    assert!(control::active_rules(&Vec::new()).is_empty());
}
