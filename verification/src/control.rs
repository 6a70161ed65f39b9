//! What a session is told: its goal, the rules in force, the state of the
//! evidence and the deviations that wait to be handled.
use crate::digest;
use crate::evidence::EffectiveEvidenceFreshness;
use crate::model::{
    self, ContextItem, EvidenceFreshness, EvidencePlane, FeedbackItem, FeedbackSeverity,
    FeedbackView, MemoryStatus, Rule,
};
use crate::text;
use vstd::prelude::*;

verus! {

broadcast use {vstd::string::group_string_axioms, vstd::seq::group_seq_axioms};

/// The stored state of a controlled session.
#[derive(Debug, Clone, PartialEq, Eq)]
pub struct ControlSessionState {
    pub goal_revision: u64,
    pub context_revision: u64,
    pub lifecycle_epoch: u64,
    pub hydrated_epoch: u64,
    pub raw_goal: Option<String>,
    pub outstanding_kind: Option<String>,
    pub outstanding_json: Option<String>,
    pub outstanding_delivered: bool,
}

/// The latest evidence of a provider on a plane, with its freshness against
/// the source as it is now.
#[derive(Debug, Clone, PartialEq, Eq)]
pub struct AssessedHead {
    pub plane: EvidencePlane,
    pub provider_id: String,
    pub freshness: EvidenceFreshness,
    pub effective: EffectiveEvidenceFreshness,
    pub snapshot_fingerprint: String,
    pub stale_reason: Option<String>,
}

/// A structured statement that an agent left.
#[derive(Debug, Clone, PartialEq, Eq)]
pub struct AgentClaim {
    pub kind: String,
    pub content: String,
    pub claim_id: String,
}

#[derive(Debug, Clone, Copy, PartialEq, Eq, Structural)]
pub enum SessionOrigin {
    Interactive,
    Subagent,
    RuntimeContinuation,
    Unknown,
}

/// The written name of a session origin.
pub open spec fn origin_name(origin: SessionOrigin) -> Seq<char> {
    match origin {
        SessionOrigin::Interactive => "interactive"@,
        SessionOrigin::Subagent => "subagent"@,
        SessionOrigin::RuntimeContinuation => "runtime_continuation"@,
        SessionOrigin::Unknown => "unknown"@,
    }
}

pub fn session_origin_name(origin: SessionOrigin) -> (r: &'static str)
    ensures
        r@ == origin_name(origin),
{
    match origin {
        SessionOrigin::Interactive => "interactive",
        SessionOrigin::Subagent => "subagent",
        SessionOrigin::RuntimeContinuation => "runtime_continuation",
        SessionOrigin::Unknown => "unknown",
    }
}

// ---------------------------------------------------------------------------
// Evidence
// ---------------------------------------------------------------------------

/// The recorded reason and the one found just now, told once where they agree.
pub open spec fn combined_reason(
    recorded: Option<Seq<char>>,
    effective: Option<Seq<char>>,
) -> Option<Seq<char>> {
    match (recorded, effective) {
        (Some(recorded), Some(effective)) => if recorded != effective {
            Some(recorded + "；实时验证："@ + effective)
        } else {
            Some(recorded)
        },
        (Some(recorded), None) => Some(recorded),
        (None, Some(effective)) => Some(effective),
        (None, None) => None,
    }
}

pub fn combined_freshness_reason(
    recorded: &Option<String>,
    effective: &Option<String>,
) -> (r: Option<String>)
    ensures
        model::opt_view(r) == combined_reason(
            model::opt_view(*recorded),
            model::opt_view(*effective),
        ),
{
    match (recorded, effective) {
        (Some(recorded), Some(effective)) => {
            if !text::same(recorded.as_str(), effective.as_str()) {
                let mut out = recorded.clone();
                out.append("；实时验证：");
                out.append(effective.as_str());
                Some(out)
            } else {
                Some(recorded.clone())
            }
        },
        (Some(recorded), None) => Some(recorded.clone()),
        (None, Some(effective)) => Some(effective.clone()),
        (None, None) => None,
    }
}

/// The reason at the end of an evidence message.
pub open spec fn reason_suffix(reason: Option<Seq<char>>) -> Seq<char> {
    match reason {
        Some(reason) => "；原因："@ + reason,
        None => Seq::empty(),
    }
}

/// What is said of a piece of evidence.
pub open spec fn message_of(
    plane: EvidencePlane,
    provider_id: Seq<char>,
    recorded: EvidenceFreshness,
    effective: EvidenceFreshness,
    snapshot: Seq<char>,
    reason: Option<Seq<char>>,
) -> Seq<char> {
    "Project Brain "@ + plane.name() + " Evidence：provider="@ + provider_id
        + "，recorded_freshness="@ + recorded.name() + "，effective_freshness="@
        + effective.name() + "，snapshot="@ + snapshot + reason_suffix(reason)
        + "。只有 effective_freshness=fresh + complete + deterministic + 当前 Source 指纹匹配的具体 error finding 才可能具备硬阻断资格；仍需仓库规则显式授权。"@
}

pub fn evidence_message(
    plane: EvidencePlane,
    provider_id: &str,
    recorded: EvidenceFreshness,
    effective: EvidenceFreshness,
    snapshot_fingerprint: &str,
    stale_reason: &Option<String>,
) -> (r: String)
    ensures
        r@ == message_of(
            plane,
            provider_id@,
            recorded,
            effective,
            snapshot_fingerprint@,
            model::opt_view(*stale_reason),
        ),
{
    let mut suffix = String::new();
    match stale_reason {
        Some(reason) => {
            suffix = "；原因：".to_owned();
            suffix.append(reason.as_str());
        },
        None => {},
    }
    let mut out = "Project Brain ".to_owned();
    out.append(plane.as_str());
    out.append(" Evidence：provider=");
    out.append(provider_id);
    out.append("，recorded_freshness=");
    out.append(recorded.as_str());
    out.append("，effective_freshness=");
    out.append(effective.as_str());
    out.append("，snapshot=");
    out.append(snapshot_fingerprint);
    out.append(suffix.as_str());
    out.append(
        "。只有 effective_freshness=fresh + complete + deterministic + 当前 Source 指纹匹配的具体 error finding 才可能具备硬阻断资格；仍需仓库规则显式授权。",
    );
    out
}

/// What is said of a head.
pub open spec fn head_message(head: AssessedHead) -> Seq<char> {
    message_of(
        head.plane,
        head.provider_id@,
        head.freshness,
        head.effective.freshness,
        head.snapshot_fingerprint@,
        combined_reason(
            model::opt_view(head.stale_reason),
            model::opt_view(head.effective.reason),
        ),
    )
}

fn message_for(head: &AssessedHead) -> (r: String)
    ensures
        r@ == head_message(*head),
{
    let reason = combined_freshness_reason(&head.stale_reason, &head.effective.reason);
    evidence_message(
        head.plane,
        head.provider_id.as_str(),
        head.freshness,
        head.effective.freshness,
        head.snapshot_fingerprint.as_str(),
        &reason,
    )
}

/// What is said of the heads: of all of them, or of those that are not fresh.
pub open spec fn head_messages(heads: Seq<AssessedHead>, with_fresh: bool) -> Seq<Seq<char>>
    decreases heads.len(),
{
    if heads.len() == 0 {
        Seq::empty()
    } else {
        let before = head_messages(heads.drop_last(), with_fresh);
        if with_fresh || heads.last().effective.freshness != EvidenceFreshness::Fresh {
            before.push(head_message(heads.last()))
        } else {
            before
        }
    }
}

/// The evidence as context.
pub fn evidence_context(heads: &Vec<AssessedHead>, with_fresh: bool) -> (r: Vec<ContextItem>)
    ensures
        model::context_texts(r@) == head_messages(heads@, with_fresh),
{
    let mut out: Vec<ContextItem> = Vec::new();
    let mut i: usize = 0;
    assert(heads@.take(0) =~= Seq::<AssessedHead>::empty());
    assert(model::context_texts(out@) =~= Seq::<Seq<char>>::empty());
    while i < heads.len()
        invariant
            i <= heads@.len(),
            model::context_texts(out@) == head_messages(heads@.take(i as int), with_fresh),
        decreases heads@.len() - i,
    {
        let ghost before = model::context_texts(out@);
        assert(heads@.take(i + 1).drop_last() =~= heads@.take(i as int));
        if with_fresh || heads[i].effective.freshness != EvidenceFreshness::Fresh {
            let item = ContextItem { text: message_for(&heads[i]) };
            out.push(item);
            assert(model::context_texts(out@) =~= before.push(head_message(heads@[i as int])));
        }
        i = i + 1;
    }
    assert(heads@.take(heads@.len() as int) =~= heads@);
    out
}

/// Warnings, one for each line.
pub open spec fn warnings(lines: Seq<Seq<char>>) -> Seq<FeedbackView> {
    lines.map_values(|l: Seq<char>| (FeedbackSeverity::Warning, l))
}

/// The evidence that is not fresh, as feedback.
pub fn evidence_feedback(heads: &Vec<AssessedHead>) -> (r: Vec<FeedbackItem>)
    ensures
        model::feedback_views(r@) == warnings(head_messages(heads@, false)),
{
    let mut out: Vec<FeedbackItem> = Vec::new();
    let mut i: usize = 0;
    assert(heads@.take(0) =~= Seq::<AssessedHead>::empty());
    assert(model::feedback_views(out@) =~= warnings(Seq::<Seq<char>>::empty()));
    while i < heads.len()
        invariant
            i <= heads@.len(),
            model::feedback_views(out@) == warnings(
                head_messages(heads@.take(i as int), false),
            ),
        decreases heads@.len() - i,
    {
        let ghost before = head_messages(heads@.take(i as int), false);
        assert(heads@.take(i + 1).drop_last() =~= heads@.take(i as int));
        if heads[i].effective.freshness != EvidenceFreshness::Fresh {
            let item = FeedbackItem {
                severity: FeedbackSeverity::Warning,
                text: message_for(&heads[i]),
            };
            let ghost old_views = model::feedback_views(out@);
            out.push(item);
            assert(model::feedback_views(out@) =~= old_views.push(
                (FeedbackSeverity::Warning, head_message(heads@[i as int])),
            ));
            assert(warnings(before.push(head_message(heads@[i as int]))) =~= warnings(
                before,
            ).push((FeedbackSeverity::Warning, head_message(heads@[i as int]))));
        }
        i = i + 1;
    }
    assert(heads@.take(heads@.len() as int) =~= heads@);
    out
}

// ---------------------------------------------------------------------------
// Rules, goals and holds
// ---------------------------------------------------------------------------

/// The places of the active rules in a list of rules.
pub open spec fn active_places(rules: Seq<Rule>) -> Seq<int>
    decreases rules.len(),
{
    if rules.len() == 0 {
        Seq::empty()
    } else {
        let before = active_places(rules.drop_last());
        if rules.last().status == MemoryStatus::Active {
            before.push(rules.len() - 1)
        } else {
            before
        }
    }
}

/// The places of the active rules in a list of rules, in order.
pub fn active_rules(rules: &Vec<Rule>) -> (r: Vec<usize>)
    ensures
        r@.map_values(|place: usize| place as int) == active_places(rules@),
{
    let mut places: Vec<usize> = Vec::new();
    let mut i: usize = 0;
    assert(rules@.take(0) =~= Seq::<Rule>::empty());
    assert(places@.map_values(|place: usize| place as int) =~= Seq::<int>::empty());
    while i < rules.len()
        invariant
            i <= rules@.len(),
            places@.map_values(|place: usize| place as int) == active_places(
                rules@.take(i as int),
            ),
        decreases rules@.len() - i,
    {
        let ghost before = places@;
        assert(rules@.take(i + 1).drop_last() =~= rules@.take(i as int));
        if rules[i].status == MemoryStatus::Active {
            places.push(i);
            assert(places@.map_values(|place: usize| place as int) =~= before.map_values(
                |place: usize| place as int,
            ).push(i as int));
        }
        i = i + 1;
    }
    assert(rules@.take(rules@.len() as int) =~= rules@);
    places
}

/// One line for each active rule.
pub open spec fn rule_lines(rules: Seq<Rule>) -> Seq<Seq<char>>
    decreases rules.len(),
{
    if rules.len() == 0 {
        Seq::empty()
    } else {
        let before = rule_lines(rules.drop_last());
        if rules.last().status == MemoryStatus::Active {
            before.push("- "@ + rules.last().id@ + ": "@ + rules.last().message@)
        } else {
            before
        }
    }
}

/// The rules in force.
pub open spec fn session_text(
    project_name: Seq<char>,
    project_key: Seq<char>,
    rules: Seq<Rule>,
) -> Seq<char> {
    "Project Brain 已加载项目 "@ + project_name + "（project_key="@ + project_key
        + "）。当前有效规则：\n"@ + text::joined(rule_lines(rules), "\n"@)
}

pub fn session_context(project_name: &str, project_key: &str, rules: &Vec<Rule>) -> (r: String)
    ensures
        r@ == session_text(project_name@, project_key@, rules@),
{
    let mut lines: Vec<String> = Vec::new();
    let mut i: usize = 0;
    assert(rules@.take(0) =~= Seq::<Rule>::empty());
    assert(text::views(lines@) =~= Seq::<Seq<char>>::empty());
    while i < rules.len()
        invariant
            i <= rules@.len(),
            text::views(lines@) == rule_lines(rules@.take(i as int)),
        decreases rules@.len() - i,
    {
        let ghost before = text::views(lines@);
        assert(rules@.take(i + 1).drop_last() =~= rules@.take(i as int));
        if rules[i].status == MemoryStatus::Active {
            let mut line = "- ".to_owned();
            line.append(rules[i].id.as_str());
            line.append(": ");
            line.append(rules[i].message.as_str());
            lines.push(line);
            assert(text::views(lines@) =~= before.push(line@));
        }
        i = i + 1;
    }
    assert(rules@.take(rules@.len() as int) =~= rules@);
    let all = text::join(&lines, "\n");
    let mut out = "Project Brain 已加载项目 ".to_owned();
    out.append(project_name);
    out.append("（project_key=");
    out.append(project_key);
    out.append("）。当前有效规则：\n");
    out.append(all.as_str());
    out
}

/// The session must be told something: it was reopened since it was last
/// told, or a deviation waits that it was not told of.
pub open spec fn delivery_needed(state: ControlSessionState) -> bool {
    ||| state.hydrated_epoch != state.lifecycle_epoch
    ||| state.outstanding_kind is Some && !state.outstanding_delivered
}

pub fn control_delivery_needed(state: &ControlSessionState) -> (r: bool)
    ensures
        r == delivery_needed(*state),
        r <==> state.hydrated_epoch != state.lifecycle_epoch || state.outstanding_kind is Some
            && !state.outstanding_delivered,
{
    state.hydrated_epoch != state.lifecycle_epoch || (state.outstanding_kind.is_some()
        && !state.outstanding_delivered)
}

/// The first section of what a session is told.
pub open spec fn control_head(state: ControlSessionState, session: Seq<char>) -> Seq<char> {
    "[Project Brain active control]\n目标版本="@ + text::decimal(state.goal_revision as nat)
        + "，项目上下文版本="@ + text::decimal(state.context_revision as nat)
        + "，生命周期="@ + text::decimal(state.lifecycle_epoch as nat) + "。\n"@ + session
        + "\n\n若需要由 Agent 自主建立或维护开发约束，请使用 `project-brain rules upsert-agent --rule AGENT-... --message ...`；该入口固定写入 agent_inference/soft/inject_context，不能自授阻断、复核或豁免权限，具体参数以 `--help` 为准。\n\n若发现值得保留的项目事实，可用 `project-brain claims submit` 追加结构化声明；声明不可删除，也不能授权规则、豁免约束或证明功能已实现。完成状态只接受实际 diff 与验证证据。"@
}

/// The sections of what a session is told.
pub open spec fn control_sections(state: ControlSessionState, session: Seq<char>) -> Seq<Seq<char>> {
    let first = seq![control_head(state, session)];
    let second = match state.raw_goal {
        Some(goal) => first.push(
            "当前原始用户目标（高权限事实，不得由 Agent 自行改写或宣称完成）：\n"@ + goal@,
        ),
        None => first,
    };
    match (state.outstanding_kind, state.outstanding_json) {
        (Some(kind), Some(payload)) => second.push(
            "当前必须处理的纠偏状态 kind="@ + kind@
                + "。在继续无关写入或宣布完成前，必须按以下结构化事实重规划、修复并用实际 diff/验证证明已解决：\n"@
                + payload@,
        ),
        _ => second,
    }
}

/// What a session is told, as one text.
pub open spec fn control_text(state: ControlSessionState, session: Seq<char>) -> Seq<char> {
    text::joined(control_sections(state, session), "\n\n"@)
}

/// What a session is told.
pub fn control_context_items(
    project_name: &str,
    project_key: &str,
    rules: &Vec<Rule>,
    state: &ControlSessionState,
) -> (r: Vec<ContextItem>)
    ensures
        model::context_texts(r@) == seq![
            control_text(*state, session_text(project_name@, project_key@, rules@)),
        ],
{
    let session = session_context(project_name, project_key, rules);
    let goal_revision = text::decimal_text(state.goal_revision);
    let context_revision = text::decimal_text(state.context_revision);
    let lifecycle = text::decimal_text(state.lifecycle_epoch);
    let mut head = "[Project Brain active control]\n目标版本=".to_owned();
    head.append(goal_revision.as_str());
    head.append("，项目上下文版本=");
    head.append(context_revision.as_str());
    head.append("，生命周期=");
    head.append(lifecycle.as_str());
    head.append("。\n");
    head.append(session.as_str());
    head.append(
        "\n\n若需要由 Agent 自主建立或维护开发约束，请使用 `project-brain rules upsert-agent --rule AGENT-... --message ...`；该入口固定写入 agent_inference/soft/inject_context，不能自授阻断、复核或豁免权限，具体参数以 `--help` 为准。\n\n若发现值得保留的项目事实，可用 `project-brain claims submit` 追加结构化声明；声明不可删除，也不能授权规则、豁免约束或证明功能已实现。完成状态只接受实际 diff 与验证证据。",
    );
    let ghost told = session_text(project_name@, project_key@, rules@);
    let mut sections: Vec<String> = Vec::new();
    sections.push(head);
    assert(text::views(sections@) =~= seq![control_head(*state, told)]);
    match &state.raw_goal {
        Some(goal) => {
            let mut line =
                "当前原始用户目标（高权限事实，不得由 Agent 自行改写或宣称完成）：\n".to_owned();
            line.append(goal.as_str());
            let ghost before = text::views(sections@);
            sections.push(line);
            assert(text::views(sections@) =~= before.push(line@));
        },
        None => {},
    }
    match (&state.outstanding_kind, &state.outstanding_json) {
        (Some(kind), Some(payload)) => {
            let mut line = "当前必须处理的纠偏状态 kind=".to_owned();
            line.append(kind.as_str());
            line.append(
                "。在继续无关写入或宣布完成前，必须按以下结构化事实重规划、修复并用实际 diff/验证证明已解决：\n",
            );
            line.append(payload.as_str());
            let ghost before = text::views(sections@);
            sections.push(line);
            assert(text::views(sections@) =~= before.push(line@));
        },
        _ => {},
    }
    assert(text::views(sections@) == control_sections(*state, told));
    let mut out: Vec<ContextItem> = Vec::new();
    out.push(ContextItem { text: text::join(&sections, "\n\n") });
    assert(model::context_texts(out@) =~= seq![control_text(*state, told)]);
    out
}

/// One line for each claim.
pub open spec fn claim_lines(claims: Seq<AgentClaim>) -> Seq<Seq<char>> {
    claims.map_values(
        |c: AgentClaim|
            "- ["@ + c.kind@ + "] "@ + c.content@ + " (claim_id="@ + c.claim_id@
                + ", authority=agent_claim_only)"@,
    )
}

/// The claims of agents as context.
pub open spec fn claim_context(claims: Seq<AgentClaim>) -> Seq<Seq<char>> {
    if claims.len() == 0 {
        Seq::empty()
    } else {
        seq![
            "最近的 Agent 项目声明（仅用于方向提示，不得据此阻断、豁免或判断已实现）：\n"@
                + text::joined(claim_lines(claims), "\n"@),
        ]
    }
}

pub fn agent_claim_context(claims: &Vec<AgentClaim>) -> (r: Vec<ContextItem>)
    ensures
        model::context_texts(r@) == claim_context(claims@),
{
    let mut out: Vec<ContextItem> = Vec::new();
    if claims.len() == 0 {
        assert(model::context_texts(out@) =~= claim_context(claims@));
        return out;
    }
    let mut lines: Vec<String> = Vec::new();
    let mut i: usize = 0;
    while i < claims.len()
        invariant
            i <= claims@.len(),
            lines@.len() == i,
            forall|j: int| 0 <= j < i ==> (#[trigger] lines@[j])@ == claim_lines(claims@)[j],
        decreases claims@.len() - i,
    {
        let mut line = "- [".to_owned();
        line.append(claims[i].kind.as_str());
        line.append("] ");
        line.append(claims[i].content.as_str());
        line.append(" (claim_id=");
        line.append(claims[i].claim_id.as_str());
        line.append(", authority=agent_claim_only)");
        lines.push(line);
        i = i + 1;
    }
    assert(text::views(lines@) =~= claim_lines(claims@));
    let all = text::join(&lines, "\n");
    let mut told =
        "最近的 Agent 项目声明（仅用于方向提示，不得据此阻断、豁免或判断已实现）：\n".to_owned();
    told.append(all.as_str());
    out.push(ContextItem { text: told });
    assert(model::context_texts(out@) =~= claim_context(claims@));
    out
}

// ---------------------------------------------------------------------------
// Identities
// ---------------------------------------------------------------------------

/// The framed fingerprint of some bytes under a label.
pub open spec fn labelled(label: Seq<char>, bytes: Seq<u8>) -> Seq<char> {
    digest::marked_sha256(digest::framed(seq![vstd::utf8::encode_utf8(label), bytes]))
}

/// The framed fingerprint of some bytes under a label.
pub fn labelled_digest(label: &str, bytes: &[u8]) -> (r: String)
    ensures
        r@ == labelled(label@, bytes@),
{
    let mut parts: Vec<Vec<u8>> = Vec::new();
    parts.push(label.as_bytes_vec());
    let mut copy: Vec<u8> = Vec::new();
    digest::append_bytes(&mut copy, bytes);
    assert(copy@ =~= bytes@);
    parts.push(copy);
    assert(digest::byte_views(parts@) =~= seq![vstd::utf8::encode_utf8(label@), bytes@]);
    digest::digest_parts(&parts)
}

/// The identity of the project context, given the canonical form of its key,
/// name, active rules and stop configuration.
pub fn project_context_digest(canonical: &Vec<u8>) -> (r: String)
    ensures
        r@ == labelled("project-brain/project-context/v1"@, canonical@),
{
    labelled_digest("project-brain/project-context/v1", canonical.as_slice())
}

/// The identity of a goal as the user wrote it.
pub fn goal_digest(goal: &str) -> (r: String)
    ensures
        r@ == labelled("project-brain/raw-goal/v1"@, vstd::utf8::encode_utf8(goal@)),
{
    labelled_digest("project-brain/raw-goal/v1", goal.as_bytes())
}

/// What is recorded as delivered: nothing where nothing was told, and else
/// the identity of the items, one under another.
pub open spec fn delivery_digest(items: Seq<Seq<char>>) -> Option<Seq<char>> {
    if items.len() == 0 {
        None
    } else {
        Some(
            labelled(
                "project-brain/context-delivery/v1"@,
                vstd::utf8::encode_utf8(text::joined(items, "\n"@)),
            ),
        )
    }
}

/// The texts of context items, one under another.
pub fn join_context(items: &Vec<ContextItem>) -> (r: String)
    ensures
        r@ == text::joined(model::context_texts(items@), "\n"@),
{
    let mut lines: Vec<String> = Vec::new();
    let mut i: usize = 0;
    while i < items.len()
        invariant
            i <= items@.len(),
            lines@.len() == i,
            forall|j: int| 0 <= j < i ==> (#[trigger] lines@[j])@ == items@[j].text@,
        decreases items@.len() - i,
    {
        lines.push(items[i].text.clone());
        i = i + 1;
    }
    assert(text::views(lines@) =~= model::context_texts(items@));
    text::join(&lines, "\n")
}

/// What is recorded as delivered.
pub fn mark_context_delivery(items: &Vec<ContextItem>) -> (r: Option<String>)
    ensures
        model::opt_view(r) == delivery_digest(model::context_texts(items@)),
{
    if items.len() == 0 {
        return None;
    }
    let all = join_context(items);
    Some(labelled_digest("project-brain/context-delivery/v1", all.as_str().as_bytes()))
}

/// Fresh evidence is only told of where everything is: otherwise each head
/// that is told of is one that is not fresh.
pub proof fn only_lowered_heads_are_told(heads: Seq<AssessedHead>)
    requires
        forall|i: int|
            0 <= i < heads.len() ==> (#[trigger] heads[i]).effective.freshness
                == EvidenceFreshness::Fresh,
    ensures
        head_messages(heads, false).len() == 0,
        head_messages(heads, true).len() == heads.len(),
    decreases heads.len(),
{
    if heads.len() > 0 {
        let init = heads.drop_last();
        assert forall|i: int| 0 <= i < init.len() implies (
        #[trigger] init[i]).effective.freshness == EvidenceFreshness::Fresh by {
            assert(heads[i].effective.freshness == EvidenceFreshness::Fresh);
        }
        only_lowered_heads_are_told(init);
        assert(heads[heads.len() - 1].effective.freshness == EvidenceFreshness::Fresh);
    }
}

/// What is told of evidence is told of every head that is not fresh, or of every
/// head where all are asked for, in the order of the heads.
pub proof fn lowered_heads_are_all_told(heads: Seq<AssessedHead>)
    ensures
        head_messages(heads, true) == heads.map_values(|head: AssessedHead| head_message(head)),
        head_messages(heads, false) == heads.filter(
            |head: AssessedHead| head.effective.freshness != EvidenceFreshness::Fresh,
        ).map_values(|head: AssessedHead| head_message(head)),
    decreases heads.len(),
{
    reveal(Seq::filter);
    let lowered = |head: AssessedHead| head.effective.freshness != EvidenceFreshness::Fresh;
    let told = |head: AssessedHead| head_message(head);
    if heads.len() > 0 {
        let init = heads.drop_last();
        lowered_heads_are_all_told(init);
        assert(heads.map_values(told) =~= init.map_values(told).push(head_message(heads.last())));
        if lowered(heads.last()) {
            assert(heads.filter(lowered).map_values(told) =~= init.filter(lowered).map_values(
                told,
            ).push(head_message(heads.last())));
        }
    } else {
        assert(head_messages(heads, true) =~= heads.map_values(told));
        assert(head_messages(heads, false) =~= heads.filter(lowered).map_values(told));
    }
}

/// The rules that a session is told of are the active ones, all of them and in
/// their order, each by its name and what it says; the others are left out.
pub proof fn active_rules_are_all_told(
    project_name: Seq<char>,
    project_key: Seq<char>,
    rules: Seq<Rule>,
)
    ensures
        rule_lines(rules) == rules.filter(
            |rule: Rule| rule.status == MemoryStatus::Active,
        ).map_values(|rule: Rule| "- "@ + rule.id@ + ": "@ + rule.message@),
        forall|i: int|
            0 <= i < rules.len() && (#[trigger] rules[i]).status == MemoryStatus::Active
                ==> text::occurs(
                session_text(project_name, project_key, rules),
                "- "@ + rules[i].id@ + ": "@ + rules[i].message@,
            ),
        text::occurs(session_text(project_name, project_key, rules), project_key),
{
    lines_of_active_rules(rules);
    let lines = rule_lines(rules);
    let body = text::joined(lines, "\n"@);
    let front = "Project Brain 已加载项目 "@ + project_name + "（project_key="@ + project_key
        + "）。当前有效规则：\n"@;
    let none = Seq::<char>::empty();
    assert forall|i: int|
        0 <= i < rules.len() && (#[trigger] rules[i]).status
            == MemoryStatus::Active implies text::occurs(
        session_text(project_name, project_key, rules),
        "- "@ + rules[i].id@ + ": "@ + rules[i].message@,
    ) by {
        let line = "- "@ + rules[i].id@ + ": "@ + rules[i].message@;
        assert(lines.contains(line));
        let k = choose|k: int| 0 <= k < lines.len() && lines[k] == line;
        text::joined_texts_are_all_there(lines, "\n"@, k);
        text::longer_texts_hold_as_much(body, front, none, line);
        assert(front + body + none =~= session_text(project_name, project_key, rules));
    }
    let before = "Project Brain 已加载项目 "@ + project_name + "（project_key="@;
    let after = "）。当前有效规则：\n"@ + body;
    text::parts_stand_in_the_whole(before, project_key, after);
    assert(before + project_key + after =~= session_text(project_name, project_key, rules));
}

proof fn lines_of_active_rules(rules: Seq<Rule>)
    ensures
        rule_lines(rules) == rules.filter(
            |rule: Rule| rule.status == MemoryStatus::Active,
        ).map_values(|rule: Rule| "- "@ + rule.id@ + ": "@ + rule.message@),
        forall|i: int|
            0 <= i < rules.len() && (#[trigger] rules[i]).status == MemoryStatus::Active
                ==> rule_lines(rules).contains("- "@ + rules[i].id@ + ": "@ + rules[i].message@),
    decreases rules.len(),
{
    reveal(Seq::filter);
    let active = |rule: Rule| rule.status == MemoryStatus::Active;
    let line = |rule: Rule| "- "@ + rule.id@ + ": "@ + rule.message@;
    let all = rule_lines(rules);
    if rules.len() > 0 {
        let init = rules.drop_last();
        lines_of_active_rules(init);
        let before = rule_lines(init);
        if active(rules.last()) {
            assert(rules.filter(active).map_values(line) =~= init.filter(active).map_values(
                line,
            ).push(line(rules.last())));
        }
        assert forall|i: int|
            0 <= i < rules.len() && (#[trigger] rules[i]).status
                == MemoryStatus::Active implies all.contains(
            "- "@ + rules[i].id@ + ": "@ + rules[i].message@,
        ) by {
            if i < init.len() {
                assert(init[i] == rules[i]);
                let k = choose|k: int| 0 <= k < before.len() && before[k] == line(rules[i]);
                assert(all[k] == line(rules[i]));
            } else {
                assert(all[before.len() as int] == line(rules[i]));
            }
        }
    } else {
        assert(all =~= rules.filter(active).map_values(line));
    }
}

/// The places of the active rules are those at which an active rule stands, each
/// once and in order.
pub proof fn active_rules_are_in_their_places(rules: Seq<Rule>)
    ensures
        forall|i: int| #[trigger]
            active_places(rules).contains(i) <==> 0 <= i < rules.len() && rules[i].status
                == MemoryStatus::Active,
        forall|a: int, b: int|
            0 <= a < b < active_places(rules).len() ==> #[trigger] active_places(rules)[a]
                < #[trigger] active_places(rules)[b],
    decreases rules.len(),
{
    let all = active_places(rules);
    if rules.len() > 0 {
        let init = rules.drop_last();
        active_rules_are_in_their_places(init);
        let before = active_places(init);
        let last = rules.len() - 1;
        assert forall|i: int| #[trigger]
            all.contains(i) <==> 0 <= i < rules.len() && rules[i].status
                == MemoryStatus::Active by {
            assert(before.contains(i) <==> 0 <= i < init.len() && init[i].status
                == MemoryStatus::Active);
            if before.contains(i) {
                let k = choose|k: int| 0 <= k < before.len() && before[k] == i;
                assert(all[k] == i);
            }
            if all.contains(i) {
                let k = choose|k: int| 0 <= k < all.len() && all[k] == i;
                if k < before.len() {
                    assert(before[k] == i);
                }
            }
            if i == last && rules[last].status == MemoryStatus::Active {
                assert(all[before.len() as int] == i);
            }
        }
        assert forall|a: int, b: int| 0 <= a < b < all.len() implies #[trigger] all[a]
            < #[trigger] all[b] by {
            assert(all[a] == before[a]);
            assert(before.contains(before[a]));
            if b < before.len() {
                assert(all[b] == before[b]);
            }
        }
    }
}

/// A session is told the goal as the user wrote it, where there is one, and the
/// deviation that waits, by its kind and in full, where one does; and always
/// which versions of goal and context it is about, with the rules in force.
pub proof fn sessions_are_told_goal_and_deviation(state: ControlSessionState, session: Seq<char>)
    ensures
        text::occurs(control_text(state, session), session),
        text::occurs(
            control_text(state, session),
            "目标版本="@ + text::decimal(state.goal_revision as nat) + "，项目上下文版本="@
                + text::decimal(state.context_revision as nat),
        ),
        state.raw_goal matches Some(goal) ==> text::occurs(control_text(state, session), goal@),
        state.outstanding_kind matches Some(kind) ==> (state.outstanding_json matches Some(payload)
            ==> text::occurs(control_text(state, session), payload@) && text::occurs(
            control_text(state, session),
            "kind="@ + kind@,
        )),
{
    versions_are_told(state, session);
    let sections = control_sections(state, session);
    let whole = control_text(state, session);
    text::joined_texts_are_all_there(sections, "\n\n"@, 0);
    assert(sections[0] == control_head(state, session));
    occurs_through(
        whole,
        sections[0],
        "目标版本="@ + text::decimal(state.goal_revision as nat) + "，项目上下文版本="@
            + text::decimal(state.context_revision as nat),
    );
    occurs_through(whole, sections[0], session);
    if let Some(goal) = state.raw_goal {
        goal_is_told(goal@);
        text::joined_texts_are_all_there(sections, "\n\n"@, 1);
        occurs_through(whole, sections[1], goal@);
    }
    if state.outstanding_kind is Some && state.outstanding_json is Some {
        let kind = state.outstanding_kind->0@;
        let payload = state.outstanding_json->0@;
        let k = sections.len() - 1;
        deviation_is_told(kind, payload);
        text::joined_texts_are_all_there(sections, "\n\n"@, k);
        occurs_through(whole, sections[k], payload);
        occurs_through(whole, sections[k], "kind="@ + kind);
    }
}

proof fn goal_is_told(goal: Seq<char>)
    ensures
        text::occurs(
            "当前原始用户目标（高权限事实，不得由 Agent 自行改写或宣称完成）：\n"@ + goal,
            goal,
        ),
{
    let none = Seq::<char>::empty();
    let intro = "当前原始用户目标（高权限事实，不得由 Agent 自行改写或宣称完成）：\n"@;
    text::parts_stand_in_the_whole(intro, goal, none);
    assert(intro + goal + none =~= intro + goal);
}

proof fn deviation_is_told(kind: Seq<char>, payload: Seq<char>)
    ensures
        ({
            let told = "当前必须处理的纠偏状态 kind="@ + kind
                + "。在继续无关写入或宣布完成前，必须按以下结构化事实重规划、修复并用实际 diff/验证证明已解决：\n"@
                + payload;
            text::occurs(told, payload) && text::occurs(told, "kind="@ + kind)
        }),
{
    assert("当前必须处理的纠偏状态 kind="@ =~= "当前必须处理的纠偏状态 "@ + "kind="@) by {
        reveal_strlit("当前必须处理的纠偏状态 kind=");
        reveal_strlit("当前必须处理的纠偏状态 ");
        reveal_strlit("kind=");
    }
    parts_are_told(
        "当前必须处理的纠偏状态 "@,
        "kind="@,
        kind,
        "。在继续无关写入或宣布完成前，必须按以下结构化事实重规划、修复并用实际 diff/验证证明已解决：\n"@,
        payload,
    );
}

proof fn parts_are_told(
    lead: Seq<char>,
    key: Seq<char>,
    kind: Seq<char>,
    middle: Seq<char>,
    payload: Seq<char>,
)
    ensures
        text::occurs(lead + key + kind + middle + payload, payload),
        text::occurs(lead + key + kind + middle + payload, key + kind),
{
    let named = lead + key + kind;
    ends_are_told(lead, key + kind);
    assert(lead + (key + kind) =~= named);
    starts_are_told(named, middle, key + kind);
    starts_are_told(named + middle, payload, key + kind);
    ends_are_told(named + middle, payload);
}

proof fn ends_are_told(front: Seq<char>, end: Seq<char>)
    ensures
        text::occurs(front + end, end),
{
    let none = Seq::<char>::empty();
    text::parts_stand_in_the_whole(front, end, none);
    assert(front + end + none =~= front + end);
}

proof fn starts_are_told(start: Seq<char>, back: Seq<char>, p: Seq<char>)
    requires
        text::occurs(start, p),
    ensures
        text::occurs(start + back, p),
{
    let none = Seq::<char>::empty();
    text::longer_texts_hold_as_much(start, none, back, p);
    assert(none + start =~= start);
}

proof fn versions_are_told(state: ControlSessionState, session: Seq<char>)
    ensures
        text::occurs(control_head(state, session), session),
        text::occurs(
            control_head(state, session),
            "目标版本="@ + text::decimal(state.goal_revision as nat) + "，项目上下文版本="@
                + text::decimal(state.context_revision as nat),
        ),
{
    let head = control_head(state, session);
    let goal = text::decimal(state.goal_revision as nat);
    let context = text::decimal(state.context_revision as nat);
    let life = "，生命周期="@ + text::decimal(state.lifecycle_epoch as nat) + "。\n"@;
    let opening = "[Project Brain active control]\n"@;
    let first = "[Project Brain active control]\n目标版本="@;
    assert(first =~= opening + "目标版本="@) by {
        reveal_strlit("[Project Brain active control]\n目标版本=");
        reveal_strlit("[Project Brain active control]\n");
        reveal_strlit("目标版本=");
    }
    let versions = "目标版本="@ + goal + "，项目上下文版本="@ + context;
    let start = first + goal + "，项目上下文版本="@ + context;
    assert(start =~= opening + versions);
    let front = start + life;
    let n = front.len() + session.len();
    assert(head.take(n as int) =~= front + session);
    let rest = head.skip(n as int);
    assert(head =~= front + session + rest);
    assert(head =~= opening + versions + (life + session + rest));
    text::parts_stand_in_the_whole(opening, versions, life + session + rest);
    text::parts_stand_in_the_whole(front, session, rest);
}

proof fn occurs_through(whole: Seq<char>, part: Seq<char>, p: Seq<char>)
    requires
        text::occurs(whole, part),
        text::occurs(part, p),
    ensures
        text::occurs(whole, p),
{
    let i = choose|i: int| text::occurs_at(whole, part, i);
    let front = whole.take(i);
    let back = whole.skip(i + part.len());
    assert(front + part + back =~= whole);
    text::longer_texts_hold_as_much(part, front, back, p);
}

/// Where a reason was recorded and another one is found now, both are told; one
/// reason alone, or one that agrees, is told as it is, and without a reason
/// nothing is.
pub proof fn both_reasons_are_told(a: Seq<char>, b: Seq<char>)
    ensures
        combined_reason(None, None) is None,
        combined_reason(Some(a), None) == Some(a),
        combined_reason(None, Some(b)) == Some(b),
        combined_reason(Some(a), Some(a)) == Some(a),
        a != b ==> text::begins(combined_reason(Some(a), Some(b))->0, a) && text::ends(
            combined_reason(Some(a), Some(b))->0,
            b,
        ),
{
    let both = a + "；实时验证："@ + b;
    assert(both.subrange(0, a.len() as int) =~= a);
    assert(both.subrange(both.len() - b.len(), both.len() as int) =~= b);
}

/// Every claim of an agent is told with its kind, what it says and that it is a
/// claim only; without claims nothing is told.
pub proof fn every_claim_is_told_as_a_claim(claims: Seq<AgentClaim>, i: int)
    ensures
        claims.len() == 0 <==> claim_context(claims).len() == 0,
        0 <= i < claims.len() ==> text::occurs(
            claim_context(claims)[0],
            "- ["@ + claims[i].kind@ + "] "@ + claims[i].content@ + " (claim_id="@
                + claims[i].claim_id@ + ", authority=agent_claim_only)"@,
        ),
{
    if 0 <= i < claims.len() {
        let lines = claim_lines(claims);
        let intro =
            "最近的 Agent 项目声明（仅用于方向提示，不得据此阻断、豁免或判断已实现）：\n"@;
        let body = text::joined(lines, "\n"@);
        let none = Seq::<char>::empty();
        text::joined_texts_are_all_there(lines, "\n"@, i);
        text::longer_texts_hold_as_much(body, intro, none, lines[i]);
        assert(intro + body + none =~= intro + body);
    }
}

} // verus!
