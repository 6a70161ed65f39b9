//! How decisions are combined, and what each becomes at a gate, in context
//! and in feedback.
use crate::model::{
    self, ContextItem, Decision, DecisionKind, DecisionView, EvidenceView, FeedbackItem,
    FeedbackSeverity, FeedbackView, GateDecision, GateView,
};
use crate::text;
use vstd::prelude::*;

verus! {

broadcast use {vstd::string::group_string_axioms, vstd::seq::group_seq_axioms};

/// One line for each piece of evidence.
pub open spec fn evidence_lines(evidence: Seq<EvidenceView>) -> Seq<Seq<char>> {
    evidence.map_values(|e: EvidenceView| e.rule_id + ": "@ + e.message)
}

/// Why a decision was taken: its evidence line by line, or its summary.
pub open spec fn reason_of(d: DecisionView) -> Seq<char> {
    if d.evidence.len() == 0 {
        d.summary
    } else {
        text::joined(evidence_lines(d.evidence), "\n"@)
    }
}

/// Why a decision was taken.
pub fn decision_reason(decision: &Decision) -> (r: String)
    ensures
        r@ == reason_of(decision@),
{
    if decision.evidence.len() == 0 {
        return decision.summary.clone();
    }
    let mut lines: Vec<String> = Vec::new();
    let mut i: usize = 0;
    while i < decision.evidence.len()
        invariant
            i <= decision.evidence@.len(),
            lines@.len() == i,
            forall|j: int|
                0 <= j < i ==> (#[trigger] lines@[j])@ == decision.evidence@[j].rule_id@ + ": "@
                    + decision.evidence@[j].message@,
        decreases decision.evidence@.len() - i,
    {
        let evidence = &decision.evidence[i];
        let mut line = evidence.rule_id.clone();
        line.append(": ");
        line.append(evidence.message.as_str());
        lines.push(line);
        i = i + 1;
    }
    assert(text::views(lines@) =~= evidence_lines(decision@.evidence));
    text::join(&lines, "\n")
}

/// The summary that goes with a merged decision.
pub open spec fn merged_summary(kind: DecisionKind) -> Seq<char> {
    match kind {
        DecisionKind::Allow => "未命中需要改变行为的规则"@,
        DecisionKind::AllowWithContext => "允许执行，并注入相关项目约束"@,
        DecisionKind::Escalate => "需要显式决策后再继续"@,
        DecisionKind::RequireReview => "执行前必须重新规划并显式吸收相关项目约束"@,
        DecisionKind::Block => "命中具备确定性证据的硬规则，拒绝执行"@,
    }
}

/// The more restraining of two decision kinds.
pub open spec fn stricter(a: DecisionKind, b: DecisionKind) -> DecisionKind {
    if a.rank() > b.rank() {
        a
    } else {
        b
    }
}

/// Two decisions merged: the stricter kind, and the context and the evidence
/// of both, the left one's first.
pub open spec fn merged(left: DecisionView, right: DecisionView) -> DecisionView {
    let kind = stricter(left.decision, right.decision);
    DecisionView {
        schema_version: left.schema_version,
        decision: kind,
        summary: merged_summary(kind),
        context: left.context + right.context,
        evidence: left.evidence + right.evidence,
    }
}

fn rank_of(kind: DecisionKind) -> (r: u8)
    ensures
        r == kind.rank(),
{
    match kind {
        DecisionKind::Allow => 0,
        DecisionKind::AllowWithContext => 1,
        DecisionKind::Escalate => 2,
        DecisionKind::RequireReview => 3,
        DecisionKind::Block => 4,
    }
}

/// Merges two decisions.
pub fn merge_decisions(left: Decision, right: Decision) -> (r: Decision)
    ensures
        r@ == merged(left@, right@),
        r.evidence@ == left.evidence@ + right.evidence@,
        r.context@ == left.context@ + right.context@,
{
    let mut context = left.context;
    let mut more_context = right.context;
    let mut evidence = left.evidence;
    let mut more_evidence = right.evidence;
    context.append(&mut more_context);
    evidence.append(&mut more_evidence);
    assert(text::views(context@) =~= text::views(left.context@) + text::views(right.context@));
    assert(model::evidence_views(evidence@) =~= model::evidence_views(left.evidence@)
        + model::evidence_views(right.evidence@));
    let kind = if rank_of(left.decision) > rank_of(right.decision) {
        left.decision
    } else {
        right.decision
    };
    let summary = match kind {
        DecisionKind::Allow => "未命中需要改变行为的规则".to_owned(),
        DecisionKind::AllowWithContext => "允许执行，并注入相关项目约束".to_owned(),
        DecisionKind::Escalate => "需要显式决策后再继续".to_owned(),
        DecisionKind::RequireReview => "执行前必须重新规划并显式吸收相关项目约束".to_owned(),
        DecisionKind::Block => "命中具备确定性证据的硬规则，拒绝执行".to_owned(),
    };
    Decision { schema_version: left.schema_version, decision: kind, summary, context, evidence }
}

/// Whether a decision lets an action through, and why not.
pub open spec fn gate_of(d: DecisionView) -> GateView {
    match d.decision {
        DecisionKind::Block => GateView::Deny(reason_of(d)),
        DecisionKind::Escalate => GateView::Deny(reason_of(d)),
        DecisionKind::RequireReview => GateView::Replan(reason_of(d)),
        DecisionKind::Allow => GateView::NoVeto,
        DecisionKind::AllowWithContext => GateView::NoVeto,
    }
}

/// Whether a decision lets an action through, and why not.
pub fn gate_from_decision(decision: &Decision) -> (r: GateDecision)
    ensures
        r@ == gate_of(decision@),
        r is NoVeto <==> decision.decision == DecisionKind::Allow || decision.decision
            == DecisionKind::AllowWithContext,
        r is Replan <==> decision.decision == DecisionKind::RequireReview,
        r is Deny <==> decision.decision == DecisionKind::Escalate || decision.decision
            == DecisionKind::Block,
{
    match decision.decision {
        DecisionKind::Block | DecisionKind::Escalate => GateDecision::Deny {
            reason: decision_reason(decision),
        },
        DecisionKind::RequireReview => GateDecision::Replan { reason: decision_reason(decision) },
        DecisionKind::Allow | DecisionKind::AllowWithContext => GateDecision::NoVeto,
    }
}

/// The context that a decision puts before the model.
pub open spec fn context_of(d: DecisionView) -> Seq<Seq<char>> {
    if d.decision == DecisionKind::AllowWithContext || d.decision == DecisionKind::RequireReview {
        seq![reason_of(d)]
    } else {
        Seq::empty()
    }
}

/// The context that a decision puts before the model.
pub fn context_from_decision(decision: &Decision) -> (r: Vec<ContextItem>)
    ensures
        model::context_texts(r@) == context_of(decision@),
{
    let mut out: Vec<ContextItem> = Vec::new();
    match decision.decision {
        DecisionKind::AllowWithContext | DecisionKind::RequireReview => {
            out.push(ContextItem { text: decision_reason(decision) });
        },
        _ => {},
    }
    assert(model::context_texts(out@) =~= context_of(decision@));
    out
}

/// The feedback after an action that a decision would have judged.
pub open spec fn feedback_of(d: DecisionView) -> Seq<FeedbackView> {
    match d.decision {
        DecisionKind::Allow => Seq::empty(),
        DecisionKind::AllowWithContext => seq![(FeedbackSeverity::Info, reason_of(d))],
        DecisionKind::RequireReview => seq![
            (
                FeedbackSeverity::Info,
                "操作已在 Project Brain 重规划交付后执行："@ + reason_of(d),
            ),
        ],
        DecisionKind::Block => seq![after_the_fact(d)],
        DecisionKind::Escalate => seq![after_the_fact(d)],
    }
}

/// The feedback on an action that was done although it would have been denied.
pub open spec fn after_the_fact(d: DecisionView) -> FeedbackView {
    (
        FeedbackSeverity::Error,
        "操作已经执行，无法撤销其副作用；Project Brain 检测到："@ + reason_of(d),
    )
}

/// The feedback after an action that a decision would have judged.
pub fn feedback_from_decision(decision: &Decision) -> (r: Vec<FeedbackItem>)
    ensures
        model::feedback_views(r@) == feedback_of(decision@),
{
    let mut out: Vec<FeedbackItem> = Vec::new();
    match decision.decision {
        DecisionKind::Allow => {},
        DecisionKind::AllowWithContext => {
            out.push(
                FeedbackItem { severity: FeedbackSeverity::Info, text: decision_reason(decision) },
            );
        },
        DecisionKind::RequireReview => {
            let reason = decision_reason(decision);
            let mut message = "操作已在 Project Brain 重规划交付后执行：".to_owned();
            message.append(reason.as_str());
            out.push(FeedbackItem { severity: FeedbackSeverity::Info, text: message });
        },
        DecisionKind::Block | DecisionKind::Escalate => {
            let reason = decision_reason(decision);
            let mut message =
                "操作已经执行，无法撤销其副作用；Project Brain 检测到：".to_owned();
            message.append(reason.as_str());
            out.push(FeedbackItem { severity: FeedbackSeverity::Error, text: message });
        },
    }
    assert(model::feedback_views(out@) =~= feedback_of(decision@));
    out
}

// ---------------------------------------------------------------------------
// Laws
// ---------------------------------------------------------------------------

/// Merging never weakens: the result restrains at least as much as either
/// part, and exactly as much as one of them.
pub proof fn merging_never_weakens(left: DecisionView, right: DecisionView)
    ensures
        merged(left, right).decision.rank() >= left.decision.rank(),
        merged(left, right).decision.rank() >= right.decision.rank(),
        merged(left, right).decision == left.decision || merged(left, right).decision
            == right.decision,
{
}

/// The kind and the summary of a merged decision do not depend on the order
/// of its parts.
pub proof fn merging_is_symmetric(left: DecisionView, right: DecisionView)
    ensures
        merged(left, right).decision == merged(right, left).decision,
        merged(left, right).summary == merged(right, left).summary,
{
}

/// Decisions can be merged in any grouping.
pub proof fn merging_is_associative(a: DecisionView, b: DecisionView, c: DecisionView)
    ensures
        merged(merged(a, b), c) == merged(a, merged(b, c)),
{
    assert(merged(merged(a, b), c).context =~= merged(a, merged(b, c)).context);
    assert(merged(merged(a, b), c).evidence =~= merged(a, merged(b, c)).evidence);
}

/// A merged decision denies only where one of its parts denies, and lets an
/// action through only where both do.
pub proof fn merged_gate_follows_its_parts(left: DecisionView, right: DecisionView)
    ensures
        gate_of(merged(left, right)) is NoVeto <==> gate_of(left) is NoVeto && gate_of(
            right,
        ) is NoVeto,
        gate_of(merged(left, right)) is Deny ==> gate_of(left) is Deny || gate_of(right) is Deny,
{
}

/// Whether a tool runs follows from the kind of the decision on it alone: it is
/// let through exactly where it is allowed, sent back to planning exactly where
/// it has to be reviewed, and kept from running exactly where it is escalated
/// or blocked.  Whoever is sent back or refused is told why.
pub proof fn gates_follow_the_kind(d: DecisionView)
    ensures
        gate_of(d) is NoVeto <==> d.decision == DecisionKind::Allow || d.decision
            == DecisionKind::AllowWithContext,
        gate_of(d) is Replan <==> d.decision == DecisionKind::RequireReview,
        gate_of(d) is Deny <==> d.decision == DecisionKind::Escalate || d.decision
            == DecisionKind::Block,
        gate_of(d) matches GateView::Deny(reason) ==> reason == reason_of(d),
        gate_of(d) matches GateView::Replan(reason) ==> reason == reason_of(d),
{
}

/// A reason tells every piece of evidence on a line of its own, by the rule and
/// what the rule says, in the order of the evidence; the summary stands in only
/// where there is no evidence.
pub proof fn reasons_tell_all_evidence(d: DecisionView, more: EvidenceView)
    ensures
        d.evidence.len() == 0 ==> reason_of(d) == d.summary,
        d.evidence.len() == 0 ==> reason_of(
            DecisionView { evidence: d.evidence.push(more), ..d },
        ) == more.rule_id + ": "@ + more.message,
        d.evidence.len() > 0 ==> reason_of(
            DecisionView { evidence: d.evidence.push(more), ..d },
        ) == reason_of(d) + "\n"@ + (more.rule_id + ": "@ + more.message),
{
    let lines = evidence_lines(d.evidence);
    let longer = evidence_lines(d.evidence.push(more));
    assert(longer =~= lines.push(more.rule_id + ": "@ + more.message));
    assert(longer.drop_last() =~= lines);
}

/// What a decision puts before the model: why, exactly where the tool is let
/// through with context or sent back to planning, and otherwise nothing.
pub proof fn context_is_given_with_conditions(d: DecisionView)
    ensures
        d.decision == DecisionKind::AllowWithContext || d.decision == DecisionKind::RequireReview
            ==> context_of(d) == seq![reason_of(d)],
        d.decision == DecisionKind::Allow || d.decision == DecisionKind::Escalate || d.decision
            == DecisionKind::Block ==> context_of(d).len() == 0,
{
}

/// What is fed back once a tool has run: nothing where it was plainly allowed,
/// and otherwise one item that ends with the reason.  It is an error exactly
/// where the tool would have been kept from running.
pub proof fn feedback_follows_the_kind(d: DecisionView)
    ensures
        d.decision == DecisionKind::Allow <==> feedback_of(d).len() == 0,
        d.decision != DecisionKind::Allow ==> {
            let item = feedback_of(d)[0];
            &&& feedback_of(d).len() == 1
            &&& item.1.len() >= reason_of(d).len()
            &&& item.1.skip(item.1.len() - reason_of(d).len()) == reason_of(d)
            &&& item.0 == FeedbackSeverity::Error <==> d.decision == DecisionKind::Escalate
                || d.decision == DecisionKind::Block
            &&& item.0 == FeedbackSeverity::Info <==> d.decision == DecisionKind::AllowWithContext
                || d.decision == DecisionKind::RequireReview
        },
{
    let reason = reason_of(d);
    let a = "操作已在 Project Brain 重规划交付后执行："@;
    let b = "操作已经执行，无法撤销其副作用；Project Brain 检测到："@;
    assert((a + reason).skip(a.len() as int) =~= reason);
    assert((b + reason).skip(b.len() as int) =~= reason);
    assert(reason.skip(0) =~= reason);
}

/// Of two decisions the stricter one counts, whichever comes first: blocking
/// before review, review before escalation, escalation before context, and
/// context before a plain allowance.  All evidence and all context of both is
/// kept, the left one's first.
pub proof fn the_stricter_decision_counts(left: DecisionView, right: DecisionView)
    ensures
        ({
            let m = merged(left, right);
            let among = |kind: DecisionKind| left.decision == kind || right.decision == kind;
            &&& m.decision == DecisionKind::Block <==> among(DecisionKind::Block)
            &&& m.decision == DecisionKind::RequireReview <==> among(DecisionKind::RequireReview)
                && !among(DecisionKind::Block)
            &&& m.decision == DecisionKind::Escalate <==> among(DecisionKind::Escalate) && !among(
                DecisionKind::Block,
            ) && !among(DecisionKind::RequireReview)
            &&& m.decision == DecisionKind::Allow <==> left.decision == DecisionKind::Allow
                && right.decision == DecisionKind::Allow
            &&& m.evidence == left.evidence + right.evidence
            &&& m.context == left.context + right.context
            &&& m.schema_version == left.schema_version
        }),
{
}

} // verus!
