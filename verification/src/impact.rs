//! What an action that was run does to recorded evidence.
use crate::error::{AppError, ErrorView};
use crate::evidence::{CurrentSourceVerification, EffectiveEvidenceFreshness, SourceView};
use crate::model::{self, ActionKind, EvidenceFreshness, EvidencePlane, ToolAction, ToolStatus};
use crate::order;
use crate::repair;
use crate::text;
use vstd::prelude::*;

verus! {

broadcast use {vstd::string::group_string_axioms, vstd::seq::group_seq_axioms};

/// The latest evidence of a provider on a plane, as an action finds it:
/// whether it records the inputs that it was made from, and its freshness
/// against the source after the action.
#[derive(Debug, Clone, PartialEq, Eq)]
pub struct ImpactHead {
    pub plane: EvidencePlane,
    pub provider_id: String,
    pub snapshot_fingerprint: String,
    pub freshness: EvidenceFreshness,
    pub has_input_manifest: bool,
    pub effective: EffectiveEvidenceFreshness,
}

#[derive(Debug, Clone, PartialEq, Eq)]
pub struct EvidenceHeadIdentity {
    pub plane: EvidencePlane,
    pub provider_id: String,
    pub snapshot_fingerprint: String,
}

/// What names a head.
pub struct IdentityView {
    pub plane: EvidencePlane,
    pub provider_id: Seq<char>,
    pub snapshot_fingerprint: Seq<char>,
}

impl View for EvidenceHeadIdentity {
    type V = IdentityView;

    open spec fn view(&self) -> IdentityView {
        IdentityView {
            plane: self.plane,
            provider_id: self.provider_id@,
            snapshot_fingerprint: self.snapshot_fingerprint@,
        }
    }
}

#[derive(Debug, Clone, PartialEq, Eq)]
pub struct EvidenceHeadTransition {
    pub identity: EvidenceHeadIdentity,
    pub freshness: EvidenceFreshness,
    pub reason: String,
}

/// What a transition says.
pub struct TransitionView {
    pub identity: IdentityView,
    pub freshness: EvidenceFreshness,
    pub reason: Seq<char>,
}

impl View for EvidenceHeadTransition {
    type V = TransitionView;

    open spec fn view(&self) -> TransitionView {
        TransitionView {
            identity: self.identity@,
            freshness: self.freshness,
            reason: self.reason@,
        }
    }
}

/// What a list of transitions says.
pub open spec fn transition_views(v: Seq<EvidenceHeadTransition>) -> Seq<TransitionView> {
    v.map_values(|t: EvidenceHeadTransition| t@)
}

/// What a list of identities says.
pub open spec fn identity_views(v: Seq<EvidenceHeadIdentity>) -> Seq<IdentityView> {
    v.map_values(|t: EvidenceHeadIdentity| t@)
}

#[derive(Debug, Clone, PartialEq, Eq)]
pub struct EvidenceImpactPlan {
    pub event_id: String,
    pub hook_event_id: Option<String>,
    pub operation_id: Option<String>,
    pub observed_source_fingerprint: Option<String>,
    pub transitions: Vec<EvidenceHeadTransition>,
    pub preserved: Vec<EvidenceHeadIdentity>,
    pub changed_paths: Vec<String>,
    pub unknown_reason: Option<String>,
}

/// The worktree after an action, and what differs from before it.
#[derive(Debug, Clone, PartialEq, Eq)]
pub struct ObservedSource {
    pub fingerprint: String,
    pub changed_paths: Vec<String>,
}

/// What is known of the source around an action.
#[derive(Debug, PartialEq, Eq)]
pub enum ImpactSource {
    /// The source was recorded before the action, under the fingerprint
    /// `recorded`; the record itself has the fingerprint `state`.
    Baseline { recorded: String, state: String, after: Result<ObservedSource, String> },
    /// It was not; only the source as it is now is known, and the files that
    /// differ from the head revision.
    NoBaseline { current: CurrentSourceVerification, changed_files: Vec<String> },
}

/// The source as evidence is held against it.
pub open spec fn current_source_of(source: ImpactSource) -> SourceView {
    match source {
        ImpactSource::Baseline { recorded, state, after } => match after {
            Ok(observed) => SourceView::Verified(observed.fingerprint@),
            Err(error) => SourceView::Unavailable(error@),
        },
        ImpactSource::NoBaseline { current, changed_files } => current@,
    }
}

/// The paths that an action changed, as far as they are known.
pub open spec fn changed_paths_of(source: ImpactSource, action: ToolAction) -> Seq<Seq<char>> {
    match source {
        ImpactSource::Baseline { recorded, state, after } => match after {
            Ok(observed) => text::views(observed.changed_paths@),
            Err(error) => repair::named_paths(action),
        },
        ImpactSource::NoBaseline { current, changed_files } => repair::named_paths(action)
            + text::views(changed_files@),
    }
}

/// What is wrong with the record from before the action.
pub open spec fn baseline_problem_of(source: ImpactSource) -> Option<Seq<char>> {
    match source {
        ImpactSource::Baseline { recorded, state, after } => match after {
            Ok(observed) => None,
            Err(error) => Some("post_source_state_unavailable"@),
        },
        ImpactSource::NoBaseline { current, changed_files } => Some(
            "pre_source_baseline_missing"@,
        ),
    }
}

/// The source as evidence is held against it.
pub fn impact_current_source(source: &ImpactSource) -> (r: CurrentSourceVerification)
    ensures
        r@ == current_source_of(*source),
{
    match source {
        ImpactSource::Baseline { recorded, state, after } => match after {
            Ok(observed) => CurrentSourceVerification::Verified(observed.fingerprint.clone()),
            Err(error) => CurrentSourceVerification::Unavailable(error.clone()),
        },
        ImpactSource::NoBaseline { current, changed_files } => match current {
            CurrentSourceVerification::Verified(f) => CurrentSourceVerification::Verified(
                f.clone(),
            ),
            CurrentSourceVerification::Unavailable(e) => CurrentSourceVerification::Unavailable(
                e.clone(),
            ),
        },
    }
}

/// The name of a status as it is noted down.
pub open spec fn status_name(status: ToolStatus) -> Seq<char> {
    match status {
        ToolStatus::Succeeded => "Succeeded"@,
        ToolStatus::Failed => "Failed"@,
        ToolStatus::Unknown => "Unknown"@,
    }
}

/// The name of an action kind as it is noted down.
pub open spec fn kind_name(kind: ActionKind) -> Seq<char> {
    match kind {
        ActionKind::Read => "Read"@,
        ActionKind::Create => "Create"@,
        ActionKind::Modify => "Modify"@,
        ActionKind::Delete => "Delete"@,
        ActionKind::Execute => "Execute"@,
        ActionKind::GitOperation => "GitOperation"@,
        ActionKind::Unknown => "Unknown"@,
    }
}

fn status_text(status: ToolStatus) -> (r: &'static str)
    ensures
        r@ == status_name(status),
{
    match status {
        ToolStatus::Succeeded => "Succeeded",
        ToolStatus::Failed => "Failed",
        ToolStatus::Unknown => "Unknown",
    }
}

fn kind_text(kind: ActionKind) -> (r: &'static str)
    ensures
        r@ == kind_name(kind),
{
    match kind {
        ActionKind::Read => "Read",
        ActionKind::Create => "Create",
        ActionKind::Modify => "Modify",
        ActionKind::Delete => "Delete",
        ActionKind::Execute => "Execute",
        ActionKind::GitOperation => "GitOperation",
        ActionKind::Unknown => "Unknown",
    }
}

/// What was observed, at the head of a reason.
pub open spec fn observed_note(status: ToolStatus, kind: ActionKind) -> Seq<char> {
    "PostToolUse observed "@ + status_name(status) + " "@ + kind_name(kind)
}

fn observed_text(status: ToolStatus, kind: ActionKind) -> (r: String)
    ensures
        r@ == observed_note(status, kind),
{
    let mut out = "PostToolUse observed ".to_owned();
    out.append(status_text(status));
    out.append(" ");
    out.append(kind_text(kind));
    out
}

/// What names a head.
pub open spec fn identity_of(head: ImpactHead) -> IdentityView {
    IdentityView {
        plane: head.plane,
        provider_id: head.provider_id@,
        snapshot_fingerprint: head.snapshot_fingerprint@,
    }
}

/// The heads that were fresh before the action, in their order.
pub open spec fn fresh_heads(heads: Seq<ImpactHead>) -> Seq<ImpactHead>
    decreases heads.len(),
{
    if heads.len() == 0 {
        Seq::empty()
    } else {
        let before = fresh_heads(heads.drop_last());
        if heads.last().freshness == EvidenceFreshness::Fresh {
            before.push(heads.last())
        } else {
            before
        }
    }
}

/// What becomes of one head: a transition, or nothing where it stays fresh.
/// Evidence that does not record its inputs is lost to any action that says
/// that it writes.
pub open spec fn head_transition(
    head: ImpactHead,
    status: ToolStatus,
    kind: ActionKind,
) -> Option<TransitionView> {
    if repair::mutates(kind) && !head.has_input_manifest {
        Some(
            TransitionView {
                identity: identity_of(head),
                freshness: EvidenceFreshness::Stale,
                reason: observed_note(status, kind)
                    + "; legacy project-wide Evidence 被显式源码变更失效"@,
            },
        )
    } else if head.effective.freshness == EvidenceFreshness::Fresh {
        None
    } else {
        Some(
            TransitionView {
                identity: identity_of(head),
                freshness: head.effective.freshness,
                reason: match head.effective.reason {
                    Some(reason) => reason@,
                    None => observed_note(status, kind) + "; Evidence input validity changed"@,
                },
            },
        )
    }
}

/// The transitions of the heads that were fresh.
pub open spec fn transitions_of(
    heads: Seq<ImpactHead>,
    status: ToolStatus,
    kind: ActionKind,
) -> Seq<TransitionView>
    decreases heads.len(),
{
    if heads.len() == 0 {
        Seq::empty()
    } else {
        let before = transitions_of(heads.drop_last(), status, kind);
        match head_transition(heads.last(), status, kind) {
            Some(t) => before.push(t),
            None => before,
        }
    }
}

/// The heads that stay fresh.
pub open spec fn preserved_of(
    heads: Seq<ImpactHead>,
    status: ToolStatus,
    kind: ActionKind,
) -> Seq<IdentityView>
    decreases heads.len(),
{
    if heads.len() == 0 {
        Seq::empty()
    } else {
        let before = preserved_of(heads.drop_last(), status, kind);
        match head_transition(heads.last(), status, kind) {
            Some(t) => before,
            None => before.push(identity_of(heads.last())),
        }
    }
}

/// The transition of every head where the source moved while the plan was
/// being made.
pub open spec fn all_unknown(heads: Seq<ImpactHead>) -> Seq<TransitionView> {
    heads.map_values(
        |h: ImpactHead|
            TransitionView {
                identity: identity_of(h),
                freshness: EvidenceFreshness::Unknown,
                reason: "Evidence impact 规划期间 whole Source 发生并发变化"@,
            },
    )
}

/// What a plan says.
pub struct PlanView {
    pub event_id: Seq<char>,
    pub hook_event_id: Option<Seq<char>>,
    pub operation_id: Option<Seq<char>>,
    pub observed_source_fingerprint: Option<Seq<char>>,
    pub transitions: Seq<TransitionView>,
    pub preserved: Seq<IdentityView>,
    pub changed_paths: Seq<Seq<char>>,
    pub unknown_reason: Option<Seq<char>>,
}

impl View for EvidenceImpactPlan {
    type V = PlanView;

    open spec fn view(&self) -> PlanView {
        PlanView {
            event_id: self.event_id@,
            hook_event_id: model::opt_view(self.hook_event_id),
            operation_id: model::opt_view(self.operation_id),
            observed_source_fingerprint: model::opt_view(self.observed_source_fingerprint),
            transitions: transition_views(self.transitions@),
            preserved: identity_views(self.preserved@),
            changed_paths: text::views(self.changed_paths@),
            unknown_reason: model::opt_view(self.unknown_reason),
        }
    }
}

/// The plan for an action: every head that was fresh is lowered or kept by
/// what it is worth against the source after the action, or all of them
/// become unknown where the source moved while the plan was being made.
pub open spec fn plan_of(
    heads: Seq<ImpactHead>,
    source: ImpactSource,
    final_source: SourceView,
    action: ToolAction,
    status: ToolStatus,
    event_id: Seq<char>,
    operation_id: Seq<char>,
) -> PlanView {
    let fresh = fresh_heads(heads);
    let moved = final_source != current_source_of(source);
    PlanView {
        event_id,
        hook_event_id: Some(event_id),
        operation_id: Some(operation_id),
        observed_source_fingerprint: match final_source {
            SourceView::Verified(f) => Some(f),
            SourceView::Unavailable(_) => None,
        },
        transitions: if moved {
            all_unknown(fresh)
        } else {
            transitions_of(fresh, status, action.kind)
        },
        preserved: if moved {
            Seq::empty()
        } else {
            preserved_of(fresh, status, action.kind)
        },
        changed_paths: order::sorted_set_of(changed_paths_of(source, action)),
        unknown_reason: if moved {
            Some("source_changed_during_impact_planning"@)
        } else {
            match current_source_of(source) {
                SourceView::Unavailable(error) => Some(error),
                SourceView::Verified(_) => baseline_problem_of(source),
            }
        },
    }
}

/// An action can change recorded evidence at all.
pub open spec fn can_affect_evidence(kind: ActionKind) -> bool {
    repair::mutates(kind) || repair::may_mutate_unseen(kind)
}

/// The record from before the action contradicts itself.
pub open spec fn baseline_corrupt(source: ImpactSource) -> bool {
    match source {
        ImpactSource::Baseline { recorded, state, after } => recorded@ != state@,
        ImpactSource::NoBaseline { current, changed_files } => false,
    }
}

fn keep_fresh<'a>(heads: &'a Vec<ImpactHead>) -> (r: Vec<&'a ImpactHead>)
    ensures
        r@.len() == fresh_heads(heads@).len(),
        forall|i: int| 0 <= i < r@.len() ==> *(#[trigger] r@[i]) == fresh_heads(heads@)[i],
{
    let mut out: Vec<&'a ImpactHead> = Vec::new();
    let mut i: usize = 0;
    assert(heads@.take(0) =~= Seq::<ImpactHead>::empty());
    while i < heads.len()
        invariant
            i <= heads@.len(),
            out@.len() == fresh_heads(heads@.take(i as int)).len(),
            forall|k: int|
                0 <= k < out@.len() ==> *(#[trigger] out@[k]) == fresh_heads(
                    heads@.take(i as int),
                )[k],
        decreases heads@.len() - i,
    {
        assert(heads@.take(i + 1).drop_last() =~= heads@.take(i as int));
        assert(heads@.take(i + 1).last() == heads@[i as int]);
        if heads[i].freshness == EvidenceFreshness::Fresh {
            out.push(&heads[i]);
        }
        i = i + 1;
    }
    assert(heads@.take(heads@.len() as int) =~= heads@);
    out
}

fn name_head(head: &ImpactHead) -> (r: EvidenceHeadIdentity)
    ensures
        r@ == identity_of(*head),
{
    EvidenceHeadIdentity {
        plane: head.plane,
        provider_id: head.provider_id.clone(),
        snapshot_fingerprint: head.snapshot_fingerprint.clone(),
    }
}

fn transition_of(head: &ImpactHead, status: ToolStatus, action: &ToolAction) -> (r: Option<
    EvidenceHeadTransition,
>)
    ensures
        match r {
            Some(t) => head_transition(*head, status, action.kind) == Some(t@),
            None => head_transition(*head, status, action.kind) is None,
        },
{
    if repair::explicit_mutation(action) && !head.has_input_manifest {
        let mut reason = observed_text(status, action.kind);
        reason.append("; legacy project-wide Evidence 被显式源码变更失效");
        return Some(
            EvidenceHeadTransition {
                identity: name_head(head),
                freshness: EvidenceFreshness::Stale,
                reason,
            },
        );
    }
    if head.effective.freshness == EvidenceFreshness::Fresh {
        return None;
    }
    let reason = match &head.effective.reason {
        Some(reason) => reason.clone(),
        None => {
            let mut reason = observed_text(status, action.kind);
            reason.append("; Evidence input validity changed");
            reason
        },
    };
    Some(
        EvidenceHeadTransition {
            identity: name_head(head),
            freshness: head.effective.freshness,
            reason,
        },
    )
}

fn changed_paths(source: &ImpactSource, action: &ToolAction) -> (r: Vec<String>)
    ensures
        text::views(r@) == order::sorted_set_of(changed_paths_of(*source, *action)),
{
    match source {
        ImpactSource::Baseline { recorded, state, after } => match after {
            Ok(observed) => order::sorted_set(&observed.changed_paths),
            Err(_) => repair::mutation_paths(action),
        },
        ImpactSource::NoBaseline { current, changed_files } => {
            let mut all = repair::mutation_paths(action);
            let ghost named = text::views(all@);
            let mut more = text::clone_texts(changed_files);
            all.append(&mut more);
            let r = order::sorted_set(&all);
            proof {
                let want = repair::named_paths(*action) + text::views(changed_files@);
                let have = text::views(all@);
                assert(have =~= named + text::views(changed_files@));
                assert forall|x: Seq<char>| have.contains(x) <==> want.contains(x) by {
                    concat_contains(named, text::views(changed_files@), x);
                    concat_contains(
                        repair::named_paths(*action),
                        text::views(changed_files@),
                        x,
                    );
                    assert(named.contains(x) <==> repair::named_paths(*action).contains(x));
                }
                assert forall|x: Seq<char>| text::views(r@).contains(x) <==> want.contains(x) by {
                    assert(text::views(r@).contains(x) <==> have.contains(x));
                }
                order::sorted_set_is_unique(text::views(r@), want);
            }
            r
        },
    }
}

proof fn concat_contains(a: Seq<Seq<char>>, b: Seq<Seq<char>>, x: Seq<char>)
    ensures
        (a + b).contains(x) <==> a.contains(x) || b.contains(x),
{
    if a.contains(x) {
        let k = choose|k: int| 0 <= k < a.len() && a[k] == x;
        assert((a + b)[k] == x);
    }
    if b.contains(x) {
        let k = choose|k: int| 0 <= k < b.len() && b[k] == x;
        assert((a + b)[k + a.len()] == x);
    }
    if (a + b).contains(x) {
        let k = choose|k: int| 0 <= k < (a + b).len() && (a + b)[k] == x;
        if k < a.len() {
            assert(a[k] == x);
        } else {
            assert(b[k - a.len()] == x);
        }
    }
}

/// The source as it was recorded before an operation: the fingerprint under
/// which it was recorded, and the one that the recorded state itself has.
#[derive(Debug, Clone, PartialEq, Eq)]
pub struct OperationBaseline {
    pub recorded: String,
    pub state: String,
}

/// What an operation changed, given the paths in which the source differs from
/// what was recorded: nothing is known where nothing was recorded.
pub fn observed_change_paths(
    baseline: &Option<OperationBaseline>,
    changed: Vec<String>,
) -> (r: Result<Option<Vec<String>>, AppError>)
    ensures
        match baseline {
            None => r matches Ok(paths) && paths is None,
            Some(b) => if b.recorded@ == b.state@ {
                r == Ok::<Option<Vec<String>>, AppError>(Some(changed))
            } else {
                r matches Err(e) && e@ == ErrorView::Provider(
                    "Source operation baseline fingerprint 与状态内容不一致"@,
                )
            },
        },
{
    let Some(baseline) = baseline else {
        return Ok(None);
    };
    if text::same(baseline.recorded.as_str(), baseline.state.as_str()) {
        Ok(Some(changed))
    } else {
        Err(
            AppError::Provider(
                "Source operation baseline fingerprint 与状态内容不一致".to_owned(),
            ),
        )
    }
}

/// The plan of what an action that was run does to recorded evidence: nothing
/// where it cannot have changed the source or nothing was fresh.
pub fn evidence_impact_plan(
    heads: &Vec<ImpactHead>,
    source: &ImpactSource,
    final_source: &CurrentSourceVerification,
    action: &ToolAction,
    status: ToolStatus,
    event_id: &str,
    operation_id: &str,
) -> (r: Result<Option<EvidenceImpactPlan>, AppError>)
    ensures
        match r {
            Ok(None) => {
                &&& !can_affect_evidence(action.kind) || fresh_heads(heads@).len() == 0
                &&& action.kind == ActionKind::Read || forall|i: int|
                    0 <= i < heads@.len() ==> (#[trigger] heads@[i]).freshness
                        != EvidenceFreshness::Fresh
            },
            Ok(Some(plan)) => {
                &&& can_affect_evidence(action.kind)
                &&& fresh_heads(heads@).len() > 0
                &&& !baseline_corrupt(*source)
                &&& plan@ == plan_of(
                    heads@,
                    *source,
                    final_source@,
                    *action,
                    status,
                    event_id@,
                    operation_id@,
                )
                &&& action.kind != ActionKind::Read
            },
            Err(e) => {
                &&& can_affect_evidence(action.kind)
                &&& fresh_heads(heads@).len() > 0
                &&& baseline_corrupt(*source)
                &&& e@ == ErrorView::Provider(
                    "Source operation baseline fingerprint 与状态内容不一致"@,
                )
            },
        },
{
    if !repair::explicit_mutation(action) && !repair::opaque_action_may_mutate_source(action) {
        return Ok(None);
    }
    let fresh = keep_fresh(heads);
    if fresh.len() == 0 {
        proof {
            fresh_heads_are_all_found(heads@);
            assert forall|i: int| 0 <= i < heads@.len() implies (#[trigger] heads@[i]).freshness
                != EvidenceFreshness::Fresh by {
                assert(!fresh_heads(heads@).contains(heads@[i]));
            }
        }
        return Ok(None);
    }
    if let ImpactSource::Baseline { recorded, state, after } = source {
        if !text::same(recorded.as_str(), state.as_str()) {
            return Err(
                AppError::Provider(
                    "Source operation baseline fingerprint 与状态内容不一致".to_owned(),
                ),
            );
        }
    }
    let ghost all = fresh_heads(heads@);
    let current = impact_current_source(source);
    let moved = !final_source.agrees(&current);
    let mut transitions: Vec<EvidenceHeadTransition> = Vec::new();
    let mut preserved: Vec<EvidenceHeadIdentity> = Vec::new();
    let mut i: usize = 0;
    proof {
        assert(all.take(0) =~= Seq::<ImpactHead>::empty());
        assert(transition_views(transitions@) =~= Seq::<TransitionView>::empty());
        assert(identity_views(preserved@) =~= Seq::<IdentityView>::empty());
        assert(all_unknown(all).take(0) =~= Seq::<TransitionView>::empty());
    }
    while i < fresh.len()
        invariant
            i <= fresh@.len(),
            fresh@.len() == all.len(),
            forall|k: int| 0 <= k < fresh@.len() ==> *(#[trigger] fresh@[k]) == all[k],
            transition_views(transitions@) == (if moved {
                all_unknown(all).take(i as int)
            } else {
                transitions_of(all.take(i as int), status, action.kind)
            }),
            identity_views(preserved@) == (if moved {
                Seq::empty()
            } else {
                preserved_of(all.take(i as int), status, action.kind)
            }),
        decreases fresh@.len() - i,
    {
        let head = fresh[i];
        let ghost before_t = transition_views(transitions@);
        let ghost before_p = identity_views(preserved@);
        proof {
            assert(all.take(i + 1).drop_last() =~= all.take(i as int));
            assert(all.take(i + 1).last() == all[i as int]);
            assert(*head == all[i as int]);
            assert(all_unknown(all).take(i + 1) =~= all_unknown(all).take(i as int).push(
                all_unknown(all)[i as int],
            ));
        }
        if moved {
            transitions.push(
                EvidenceHeadTransition {
                    identity: name_head(head),
                    freshness: EvidenceFreshness::Unknown,
                    reason: "Evidence impact 规划期间 whole Source 发生并发变化".to_owned(),
                },
            );
            assert(transition_views(transitions@) =~= before_t.push(all_unknown(all)[i as int]));
        } else {
            match transition_of(head, status, action) {
                Some(t) => {
                    transitions.push(t);
                    assert(transition_views(transitions@) =~= before_t.push(t@));
                },
                None => {
                    preserved.push(name_head(head));
                    assert(identity_views(preserved@) =~= before_p.push(identity_of(*head)));
                },
            }
        }
        i = i + 1;
    }
    proof {
        assert(all.take(all.len() as int) =~= all);
        assert(all_unknown(all).take(all.len() as int) =~= all_unknown(all));
    }
    let unknown_reason = if moved {
        Some("source_changed_during_impact_planning".to_owned())
    } else {
        match &current {
            CurrentSourceVerification::Unavailable(error) => Some(error.clone()),
            CurrentSourceVerification::Verified(_) => match source {
                ImpactSource::Baseline { recorded, state, after } => None,
                ImpactSource::NoBaseline { current, changed_files } => Some(
                    "pre_source_baseline_missing".to_owned(),
                ),
            },
        }
    };
    let observed = match final_source {
        CurrentSourceVerification::Verified(f) => Some(f.clone()),
        CurrentSourceVerification::Unavailable(_) => None,
    };
    Ok(
        Some(
            EvidenceImpactPlan {
                event_id: event_id.to_owned(),
                hook_event_id: Some(event_id.to_owned()),
                operation_id: Some(operation_id.to_owned()),
                observed_source_fingerprint: observed,
                transitions,
                preserved,
                changed_paths: changed_paths(source, action),
                unknown_reason,
            },
        ),
    )
}

// ---------------------------------------------------------------------------
// Feedback on what was done
// ---------------------------------------------------------------------------

/// How many transitions go to a freshness.
pub open spec fn count_of(transitions: Seq<TransitionView>, f: EvidenceFreshness) -> nat
    decreases transitions.len(),
{
    if transitions.len() == 0 {
        0
    } else {
        count_of(transitions.drop_last(), f) + (if transitions.last().freshness == f {
            1nat
        } else {
            0nat
        })
    }
}

/// How many transitions go to a freshness.
pub fn count_transitions(
    transitions: &Vec<EvidenceHeadTransition>,
    f: EvidenceFreshness,
) -> (r: usize)
    ensures
        r == count_of(transition_views(transitions@), f),
{
    let mut n: usize = 0;
    let mut i: usize = 0;
    let ghost all = transition_views(transitions@);
    assert(all.take(0) =~= Seq::<TransitionView>::empty());
    while i < transitions.len()
        invariant
            n <= i <= transitions@.len(),
            all == transition_views(transitions@),
            n == count_of(all.take(i as int), f),
        decreases transitions@.len() - i,
    {
        assert(all.take(i + 1).drop_last() =~= all.take(i as int));
        assert(all.take(i + 1).last().freshness == transitions@[i as int].freshness);
        if transitions[i].freshness == f {
            n = n + 1;
        }
        i = i + 1;
    }
    assert(all.take(all.len() as int) =~= all);
    n
}

/// The summary of what was lowered.
pub open spec fn lowered_summary(stale: nat, unknown: nat) -> Seq<char> {
    if unknown == 0 {
        text::decimal(stale) + " 个 head 已标记为 stale"@
    } else if stale == 0 {
        text::decimal(unknown) + " 个 head 已标记为 unknown"@
    } else {
        text::decimal(stale) + " 个 head 已标记为 stale，"@ + text::decimal(unknown)
            + " 个 head 已标记为 unknown"@
    }
}

/// The feedback on a plan that was carried out.
pub open spec fn plan_feedback(stale: nat, unknown: nat, marked: nat, preserved: nat) -> Seq<char> {
    "Project Brain：按 Evidence Input Manifest 精确复核后，"@ + lowered_summary(stale, unknown)
        + "；共 "@ + text::decimal(marked) + " 个 head 被降权，"@ + text::decimal(preserved)
        + " 个未受影响 head 保持 fresh。非 fresh 证据没有硬阻断资格。"@
}

/// The feedback on a plan that was carried out, given how many transitions it
/// has of each kind, how many heads were lowered and how many kept.
pub fn impact_feedback(stale: usize, unknown: usize, marked: u64, preserved: u64) -> (r: String)
    ensures
        r@ == plan_feedback(stale as nat, unknown as nat, marked as nat, preserved as nat),
{
    let stale_text = text::decimal_text(stale as u64);
    let unknown_text = text::decimal_text(unknown as u64);
    let mut summary = String::new();
    if unknown == 0 {
        summary = stale_text;
        summary.append(" 个 head 已标记为 stale");
    } else if stale == 0 {
        summary = unknown_text;
        summary.append(" 个 head 已标记为 unknown");
    } else {
        summary = stale_text;
        summary.append(" 个 head 已标记为 stale，");
        summary.append(unknown_text.as_str());
        summary.append(" 个 head 已标记为 unknown");
    }
    let marked_text = text::decimal_text(marked);
    let preserved_text = text::decimal_text(preserved);
    let mut out = "Project Brain：按 Evidence Input Manifest 精确复核后，".to_owned();
    out.append(summary.as_str());
    out.append("；共 ");
    out.append(marked_text.as_str());
    out.append(" 个 head 被降权，");
    out.append(preserved_text.as_str());
    out.append(" 个未受影响 head 保持 fresh。非 fresh 证据没有硬阻断资格。");
    out
}

// ---------------------------------------------------------------------------
// Laws
// ---------------------------------------------------------------------------

/// The heads that transitions are of.
pub open spec fn lowered_identities(transitions: Seq<TransitionView>) -> Seq<IdentityView> {
    transitions.map_values(|t: TransitionView| t.identity)
}

/// The heads, by what identifies them.
pub open spec fn identities_of(heads: Seq<ImpactHead>) -> Seq<IdentityView> {
    heads.map_values(|h: ImpactHead| identity_of(h))
}

proof fn heads_are_split(
    heads: Seq<ImpactHead>,
    status: ToolStatus,
    kind: ActionKind,
    x: IdentityView,
)
    requires
        identities_of(heads).no_duplicates(),
    ensures
        ({
            let lowered = lowered_identities(transitions_of(heads, status, kind));
            let kept = preserved_of(heads, status, kind);
            &&& lowered.contains(x) || kept.contains(x) <==> identities_of(heads).contains(x)
            &&& !(lowered.contains(x) && kept.contains(x))
            &&& lowered.no_duplicates()
            &&& kept.no_duplicates()
            &&& lowered.len() + kept.len() == heads.len()
        }),
    decreases heads.len(),
{
    let all = identities_of(heads);
    let lowered = lowered_identities(transitions_of(heads, status, kind));
    let kept = preserved_of(heads, status, kind);
    if heads.len() > 0 {
        let init = heads.drop_last();
        let before = identities_of(init);
        let id = identity_of(heads.last());
        assert(all =~= before.push(id));
        assert(before.no_duplicates()) by {
            assert forall|i: int, j: int|
                0 <= i < before.len() && 0 <= j < before.len() && i != j implies before[i]
                != before[j] by {
                assert(all[i] == before[i] && all[j] == before[j]);
            }
        }
        assert(!before.contains(id)) by {
            if before.contains(id) {
                let k = choose|k: int| 0 <= k < before.len() && before[k] == id;
                assert(all[k] == all[all.len() - 1]);
            }
        }
        heads_are_split(init, status, kind, x);
        heads_are_split(init, status, kind, id);
        let lowered0 = lowered_identities(transitions_of(init, status, kind));
        let kept0 = preserved_of(init, status, kind);
        assert(!lowered0.contains(id) && !kept0.contains(id));
        pushed_members(before, id, x);
        match head_transition(heads.last(), status, kind) {
            Some(t) => {
                assert(t.identity == id);
                assert(lowered =~= lowered0.push(id));
                pushed_members(lowered0, id, x);
            },
            None => {
                assert(kept =~= kept0.push(id));
                pushed_members(kept0, id, x);
            },
        }
    } else {
        assert(lowered =~= Seq::<IdentityView>::empty());
        assert(all =~= Seq::<IdentityView>::empty());
    }
}

proof fn pushed_members(v: Seq<IdentityView>, item: IdentityView, x: IdentityView)
    ensures
        v.push(item).contains(x) <==> v.contains(x) || x == item,
        v.no_duplicates() && !v.contains(item) ==> v.push(item).no_duplicates(),
{
    let w = v.push(item);
    if v.contains(x) {
        let k = choose|k: int| 0 <= k < v.len() && v[k] == x;
        assert(w[k] == x);
    }
    if x == item {
        assert(w[v.len() as int] == x);
    }
    if w.contains(x) && x != item {
        let k = choose|k: int| 0 <= k < w.len() && w[k] == x;
        assert(v[k] == x);
    }
}

/// Every head that was fresh is either lowered or kept, and none is both, twice
/// or lost: the transitions of a plan and what it preserves part the fresh
/// heads between them.
pub proof fn every_fresh_head_is_accounted_for(
    heads: Seq<ImpactHead>,
    source: ImpactSource,
    final_source: SourceView,
    action: ToolAction,
    status: ToolStatus,
    event_id: Seq<char>,
    operation_id: Seq<char>,
    identity: IdentityView,
)
    requires
        identities_of(fresh_heads(heads)).no_duplicates(),
    ensures
        ({
            let plan = plan_of(
                heads,
                source,
                final_source,
                action,
                status,
                event_id,
                operation_id,
            );
            let lowered = lowered_identities(plan.transitions);
            &&& lowered.contains(identity) || plan.preserved.contains(identity) <==> identities_of(
                fresh_heads(heads),
            ).contains(identity)
            &&& !(lowered.contains(identity) && plan.preserved.contains(identity))
            &&& lowered.no_duplicates()
            &&& plan.preserved.no_duplicates()
            &&& lowered.len() + plan.preserved.len() == fresh_heads(heads).len()
        }),
{
    let fresh = fresh_heads(heads);
    heads_are_split(fresh, status, action.kind, identity);
    assert(lowered_identities(all_unknown(fresh)) =~= identities_of(fresh));
}

/// A plan only lowers trust: no transition leads to fresh.
pub proof fn transitions_never_restore(
    heads: Seq<ImpactHead>,
    status: ToolStatus,
    kind: ActionKind,
    i: int,
)
    requires
        0 <= i < transitions_of(heads, status, kind).len(),
    ensures
        transitions_of(heads, status, kind)[i].freshness != EvidenceFreshness::Fresh,
    decreases heads.len(),
{
    if heads.len() > 0 {
        let before = transitions_of(heads.drop_last(), status, kind);
        if i < before.len() {
            transitions_never_restore(heads.drop_last(), status, kind, i);
        }
    }
}

/// After an action that says that it writes, no head without recorded inputs
/// stays fresh.
pub proof fn explicit_changes_stale_untracked_evidence(
    head: ImpactHead,
    status: ToolStatus,
    kind: ActionKind,
)
    requires
        repair::mutates(kind),
        !head.has_input_manifest,
    ensures
        head_transition(head, status, kind) matches Some(t) && t.freshness
            == EvidenceFreshness::Stale,
{
}

/// The heads that an action is held against are those that were recorded as
/// fresh, all of them and in their order.
pub proof fn fresh_heads_are_all_found(heads: Seq<ImpactHead>)
    ensures
        fresh_heads(heads) == heads.filter(
            |head: ImpactHead| head.freshness == EvidenceFreshness::Fresh,
        ),
        forall|head: ImpactHead| #[trigger]
            fresh_heads(heads).contains(head) <==> heads.contains(head) && head.freshness
                == EvidenceFreshness::Fresh,
    decreases heads.len(),
{
    reveal(Seq::filter);
    let all = fresh_heads(heads);
    if heads.len() > 0 {
        let init = heads.drop_last();
        fresh_heads_are_all_found(init);
        assert forall|head: ImpactHead| #[trigger]
            all.contains(head) <==> heads.contains(head) && head.freshness
                == EvidenceFreshness::Fresh by {
            assert(heads =~= init.push(heads.last()));
            pushed_heads(init, heads.last(), head);
            pushed_heads(fresh_heads(init), heads.last(), head);
            assert(fresh_heads(init).contains(head) <==> init.contains(head) && head.freshness
                == EvidenceFreshness::Fresh);
        }
    } else {
        assert(all =~= heads.filter(|head: ImpactHead| head.freshness == EvidenceFreshness::Fresh));
    }
}

proof fn pushed_heads(v: Seq<ImpactHead>, item: ImpactHead, x: ImpactHead)
    ensures
        v.push(item).contains(x) <==> v.contains(x) || x == item,
{
    let w = v.push(item);
    if v.contains(x) {
        let k = choose|k: int| 0 <= k < v.len() && v[k] == x;
        assert(w[k] == x);
    }
    assert(w[v.len() as int] == item);
    if w.contains(x) && x != item {
        let k = choose|k: int| 0 <= k < w.len() && w[k] == x;
        assert(v[k] == x);
    }
}

/// A head is lost to an action: the action says that it writes, and the head
/// does not record its inputs.
pub open spec fn lost_to(head: ImpactHead, kind: ActionKind) -> bool {
    (kind == ActionKind::Create || kind == ActionKind::Modify || kind == ActionKind::Delete)
        && !head.has_input_manifest
}

proof fn kept_heads(
    heads: Seq<ImpactHead>,
    status: ToolStatus,
    kind: ActionKind,
    x: IdentityView,
)
    ensures
        preserved_of(heads, status, kind).contains(x) <==> exists|i: int|
            0 <= i < heads.len() && identity_of(#[trigger] heads[i]) == x && !lost_to(
                heads[i],
                kind,
            ) && heads[i].effective.freshness == EvidenceFreshness::Fresh,
    decreases heads.len(),
{
    if heads.len() > 0 {
        let init = heads.drop_last();
        let last = heads.last();
        kept_heads(init, status, kind, x);
        let before = preserved_of(init, status, kind);
        pushed_members(before, identity_of(last), x);
        assert forall|i: int| 0 <= i < init.len() implies #[trigger] init[i] == heads[i] by {}
        if before.contains(x) {
            let i = choose|i: int|
                0 <= i < init.len() && identity_of(#[trigger] init[i]) == x && !lost_to(
                    init[i],
                    kind,
                ) && init[i].effective.freshness == EvidenceFreshness::Fresh;
            assert(heads[i] == init[i]);
        }
        if exists|i: int|
            0 <= i < heads.len() && identity_of(#[trigger] heads[i]) == x && !lost_to(
                heads[i],
                kind,
            ) && heads[i].effective.freshness == EvidenceFreshness::Fresh {
            let i = choose|i: int|
                0 <= i < heads.len() && identity_of(#[trigger] heads[i]) == x && !lost_to(
                    heads[i],
                    kind,
                ) && heads[i].effective.freshness == EvidenceFreshness::Fresh;
            if i < init.len() {
                assert(init[i] == heads[i]);
            }
        }
        assert(heads[heads.len() - 1] == last);
    }
}

/// What a transition of a head goes to: stale where the head is lost to the
/// action, and otherwise what the head is worth after it.
pub open spec fn lowered_to(head: ImpactHead, kind: ActionKind, t: TransitionView) -> bool {
    &&& t.identity.plane == head.plane
    &&& t.identity.provider_id == head.provider_id@
    &&& t.identity.snapshot_fingerprint == head.snapshot_fingerprint@
    &&& if lost_to(head, kind) {
        t.freshness == EvidenceFreshness::Stale
    } else {
        &&& head.effective.freshness != EvidenceFreshness::Fresh
        &&& t.freshness == head.effective.freshness
        &&& head.effective.reason is Some ==> t.reason == head.effective.reason->0@
    }
}

proof fn lowered_heads(heads: Seq<ImpactHead>, status: ToolStatus, kind: ActionKind)
    ensures
        forall|i: int|
            0 <= i < heads.len() && (lost_to(#[trigger] heads[i], kind)
                || heads[i].effective.freshness != EvidenceFreshness::Fresh) ==> exists|k: int|
                0 <= k < transitions_of(heads, status, kind).len() && lowered_to(
                    heads[i],
                    kind,
                    #[trigger] transitions_of(heads, status, kind)[k],
                ),
        forall|k: int|
            #![trigger transitions_of(heads, status, kind)[k]]
            0 <= k < transitions_of(heads, status, kind).len() ==> exists|i: int|
                0 <= i < heads.len() && lowered_to(
                    #[trigger] heads[i],
                    kind,
                    transitions_of(heads, status, kind)[k],
                ),
    decreases heads.len(),
{
    let all = transitions_of(heads, status, kind);
    if heads.len() > 0 {
        let init = heads.drop_last();
        let last = heads.last();
        lowered_heads(init, status, kind);
        let before = transitions_of(init, status, kind);
        assert forall|i: int|
            0 <= i < heads.len() && (lost_to(#[trigger] heads[i], kind)
                || heads[i].effective.freshness != EvidenceFreshness::Fresh) implies exists|
            k: int,
        | 0 <= k < all.len() && lowered_to(heads[i], kind, #[trigger] all[k]) by {
            if i < init.len() {
                assert(init[i] == heads[i]);
                let k = choose|k: int|
                    0 <= k < before.len() && lowered_to(init[i], kind, #[trigger] before[k]);
                assert(all[k] == before[k]);
            } else {
                assert(lowered_to(last, kind, all[before.len() as int]));
            }
        }
        assert forall|k: int|
            #![trigger transitions_of(heads, status, kind)[k]]
            0 <= k < transitions_of(heads, status, kind).len() implies exists|i: int|
            0 <= i < heads.len() && lowered_to(
                #[trigger] heads[i],
                kind,
                transitions_of(heads, status, kind)[k],
            ) by {
            if k < before.len() {
                assert(all[k] == before[k]);
                let i = choose|i: int|
                    0 <= i < init.len() && lowered_to(#[trigger] init[i], kind, before[k]);
                assert(heads[i] == init[i]);
            } else {
                assert(lowered_to(heads[heads.len() - 1], kind, all[k]));
            }
        }
    }
}

/// Where the source did not move while the plan was made, a head that was fresh
/// is kept exactly where it is still worth being fresh after the action and is
/// not lost to it, that is, where the action does not say that it writes or the
/// head records its inputs.  Every other head that was fresh has a transition:
/// to stale where it is lost, and otherwise to exactly what it is worth, for
/// the reason it has; and there is no transition of any other head.
pub proof fn plans_follow_what_evidence_is_worth(
    heads: Seq<ImpactHead>,
    source: ImpactSource,
    action: ToolAction,
    status: ToolStatus,
    event_id: Seq<char>,
    operation_id: Seq<char>,
    head: ImpactHead,
    id: IdentityView,
)
    ensures
        ({
            let plan = plan_of(
                heads,
                source,
                current_source_of(source),
                action,
                status,
                event_id,
                operation_id,
            );
            let writes = action.kind == ActionKind::Create || action.kind == ActionKind::Modify
                || action.kind == ActionKind::Delete;
            &&& heads.contains(head) && head.freshness == EvidenceFreshness::Fresh
                && head.effective.freshness == EvidenceFreshness::Fresh && (!writes
                || head.has_input_manifest) ==> plan.preserved.contains(identity_of(head))
            &&& plan.preserved.contains(id) ==> exists|i: int|
                0 <= i < heads.len() && identity_of(#[trigger] heads[i]) == id
                    && heads[i].freshness == EvidenceFreshness::Fresh
                    && heads[i].effective.freshness == EvidenceFreshness::Fresh && (!writes
                    || heads[i].has_input_manifest)
            &&& heads.contains(head) && head.freshness == EvidenceFreshness::Fresh
                && head.effective.freshness != EvidenceFreshness::Fresh && (!writes
                || head.has_input_manifest) ==> exists|k: int|
                0 <= k < plan.transitions.len() && (#[trigger] plan.transitions[k]).identity
                    == identity_of(head) && plan.transitions[k].freshness
                    == head.effective.freshness && (head.effective.reason is Some
                    ==> plan.transitions[k].reason == head.effective.reason->0@)
            &&& heads.contains(head) && head.freshness == EvidenceFreshness::Fresh && writes
                && !head.has_input_manifest ==> exists|k: int|
                0 <= k < plan.transitions.len() && (#[trigger] plan.transitions[k]).identity
                    == identity_of(head) && plan.transitions[k].freshness
                    == EvidenceFreshness::Stale
            &&& forall|k: int|
                0 <= k < plan.transitions.len() ==> (#[trigger] plan.transitions[k]).freshness
                    != EvidenceFreshness::Fresh && identities_of(heads).contains(
                    plan.transitions[k].identity,
                )
            &&& identity_of(head).plane == head.plane
            &&& identity_of(head).provider_id == head.provider_id@
            &&& identity_of(head).snapshot_fingerprint == head.snapshot_fingerprint@
        }),
{
    let fresh = fresh_heads(heads);
    let kind = action.kind;
    let plan = plan_of(
        heads,
        source,
        current_source_of(source),
        action,
        status,
        event_id,
        operation_id,
    );
    fresh_heads_are_all_found(heads);
    assert(fresh.contains(head) <==> heads.contains(head) && head.freshness
        == EvidenceFreshness::Fresh);
    kept_heads(fresh, status, kind, identity_of(head));
    kept_heads(fresh, status, kind, id);
    lowered_heads(fresh, status, kind);
    if fresh.contains(head) {
        let i = choose|i: int| 0 <= i < fresh.len() && fresh[i] == head;
        assert(fresh[i] == head);
        if lost_to(head, kind) || head.effective.freshness != EvidenceFreshness::Fresh {
            let k = choose|k: int|
                0 <= k < plan.transitions.len() && lowered_to(
                    fresh[i],
                    kind,
                    #[trigger] plan.transitions[k],
                );
            assert(plan.transitions[k].identity == identity_of(head));
        }
    }
    if plan.preserved.contains(id) {
        let i = choose|i: int|
            0 <= i < fresh.len() && identity_of(#[trigger] fresh[i]) == id && !lost_to(
                fresh[i],
                kind,
            ) && fresh[i].effective.freshness == EvidenceFreshness::Fresh;
        assert(fresh.contains(fresh[i]));
        let j = choose|j: int| 0 <= j < heads.len() && heads[j] == fresh[i];
        assert(identity_of(heads[j]) == id);
    }
    assert forall|k: int| 0 <= k < plan.transitions.len() implies (
    #[trigger] plan.transitions[k]).freshness != EvidenceFreshness::Fresh && identities_of(
        heads,
    ).contains(plan.transitions[k].identity) by {
        let t = transitions_of(fresh, status, kind)[k];
        let i = choose|i: int| 0 <= i < fresh.len() && lowered_to(#[trigger] fresh[i], kind, t);
        assert(fresh.contains(fresh[i]));
        let j = choose|j: int| 0 <= j < heads.len() && heads[j] == fresh[i];
        assert(identities_of(heads)[j] == t.identity);
    }
}

/// Where the source moved while the plan was made, nothing is kept: every head
/// that was fresh becomes unknown, and the plan says that the source moved.
pub proof fn moving_sources_leave_nothing_fresh(
    heads: Seq<ImpactHead>,
    source: ImpactSource,
    final_source: SourceView,
    action: ToolAction,
    status: ToolStatus,
    event_id: Seq<char>,
    operation_id: Seq<char>,
    head: ImpactHead,
)
    requires
        final_source != current_source_of(source),
    ensures
        ({
            let plan = plan_of(heads, source, final_source, action, status, event_id, operation_id);
            &&& plan.preserved.len() == 0
            &&& plan.unknown_reason == Some("source_changed_during_impact_planning"@)
            &&& forall|k: int|
                0 <= k < plan.transitions.len() ==> (#[trigger] plan.transitions[k]).freshness
                    == EvidenceFreshness::Unknown
            &&& heads.contains(head) && head.freshness == EvidenceFreshness::Fresh ==> exists|
                k: int,
            |
                0 <= k < plan.transitions.len() && (#[trigger] plan.transitions[k]).identity
                    == identity_of(head)
        }),
{
    let fresh = fresh_heads(heads);
    fresh_heads_are_all_found(heads);
    let plan = plan_of(heads, source, final_source, action, status, event_id, operation_id);
    assert(fresh.contains(head) <==> heads.contains(head) && head.freshness
        == EvidenceFreshness::Fresh);
    if fresh.contains(head) {
        let i = choose|i: int| 0 <= i < fresh.len() && fresh[i] == head;
        assert(plan.transitions[i].identity == identity_of(head));
    }
}

/// Evidence is held against the source as it was seen after the action, and the
/// paths of a plan are what was seen to differ; only where nothing was seen do
/// the paths that the action names stand in.  A plan that rests on less says so.
pub proof fn plans_rest_on_what_was_seen(
    heads: Seq<ImpactHead>,
    source: ImpactSource,
    action: ToolAction,
    status: ToolStatus,
    event_id: Seq<char>,
    operation_id: Seq<char>,
    path: Seq<char>,
)
    ensures
        ({
            let plan = plan_of(
                heads,
                source,
                current_source_of(source),
                action,
                status,
                event_id,
                operation_id,
            );
            let named = text::views(action.target_files@).contains(path) || repair::impact_paths(
                action.deterministic_impacts@,
            ).contains(path);
            &&& order::ascending(plan.changed_paths)
            &&& match source {
                ImpactSource::Baseline { recorded, state, after } => match after {
                    Ok(seen) => {
                        &&& current_source_of(source) == SourceView::Verified(seen.fingerprint@)
                        &&& plan.observed_source_fingerprint == Some(seen.fingerprint@)
                        &&& plan.unknown_reason is None
                        &&& plan.changed_paths.contains(path) <==> text::views(
                            seen.changed_paths@,
                        ).contains(path)
                    },
                    Err(error) => {
                        &&& current_source_of(source) == SourceView::Unavailable(error@)
                        &&& plan.observed_source_fingerprint is None
                        &&& plan.unknown_reason == Some(error@)
                        &&& plan.changed_paths.contains(path) <==> named
                    },
                },
                ImpactSource::NoBaseline { current, changed_files } => {
                    &&& current_source_of(source) == current@
                    &&& plan.unknown_reason is Some
                    &&& plan.changed_paths.contains(path) <==> named || text::views(
                        changed_files@,
                    ).contains(path)
                },
            }
        }),
{
    order::sorted_set_keeps_members(changed_paths_of(source, action));
    let targets = text::views(action.target_files@);
    let impacts = repair::impact_paths(action.deterministic_impacts@);
    concat_contains(targets, impacts, path);
    if let ImpactSource::NoBaseline { current, changed_files } = source {
        concat_contains(targets + impacts, text::views(changed_files@), path);
    }
}

} // verus!
