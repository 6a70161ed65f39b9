//! Findings of evidence providers and the effects that the project maps them
//! to when work is about to stop.
use crate::evidence::EffectiveEvidenceFreshness;
use crate::model::{
    self, Authority, EvidencePlane, FeedbackItem, FeedbackSeverity, MemoryStatus, RuleEffect,
    RuleStrength,
};
use crate::symbols::{self, StopFindings};
use crate::text;
use vstd::prelude::*;

verus! {

broadcast use {vstd::string::group_string_axioms, vstd::seq::group_seq_axioms};

/// The effect that the project gives to a finding of a provider.
#[derive(Debug, Clone, PartialEq, Eq)]
pub struct FindingEffectMapping {
    pub id: String,
    pub status: MemoryStatus,
    pub authority: Authority,
    pub strength: RuleStrength,
    pub effect: RuleEffect,
    pub plane: EvidencePlane,
    pub provider_id: String,
    pub provider_contract_version: u16,
    pub finding_code: String,
    pub message: String,
}

/// A finding in the snapshot of a head, and whether it may block by itself at
/// the effective freshness of that head.
#[derive(Debug, Clone, PartialEq, Eq)]
pub struct HeadFinding {
    pub code: String,
    pub message: String,
    pub can_hard_block: bool,
}

/// The latest evidence of a provider on a plane.
#[derive(Debug, Clone, PartialEq, Eq)]
pub struct FindingHead {
    pub plane: EvidencePlane,
    pub provider_id: String,
    pub contract_version: u16,
    pub effective: EffectiveEvidenceFreshness,
    pub findings: Vec<HeadFinding>,
}

/// One line of information.
pub open spec fn one_info(line: Seq<char>) -> StopFindings {
    StopFindings { violations: Seq::empty(), feedback: seq![(FeedbackSeverity::Info, line)] }
}

/// The first head of a provider on a plane.
pub open spec fn head_of(
    heads: Seq<FindingHead>,
    plane: EvidencePlane,
    provider: Seq<char>,
) -> Option<FindingHead>
    decreases heads.len(),
{
    if heads.len() == 0 {
        None
    } else if heads[0].plane == plane && heads[0].provider_id@ == provider {
        Some(heads[0])
    } else {
        head_of(heads.skip(1), plane, provider)
    }
}

/// The note on why evidence was lowered.
pub open spec fn reason_note(reason: Option<Seq<char>>) -> Seq<char> {
    match reason {
        Some(reason) => " 原因："@ + reason,
        None => Seq::empty(),
    }
}

/// What a mapping says of a finding that it names.
pub open spec fn finding_effect(
    mapping: FindingEffectMapping,
    head: FindingHead,
    finding: HeadFinding,
) -> StopFindings {
    if mapping.effect == RuleEffect::InjectContext {
        one_info(mapping.message@ + "："@ + finding.message@)
    } else if finding.can_hard_block {
        symbols::one_violation(
            mapping.id@ + " 命中 "@ + mapping.plane.name() + "/"@ + mapping.provider_id@ + "/"@
                + finding.code@ + "："@ + mapping.message@,
        )
    } else {
        symbols::one_warning(
            "Finding effect 映射 "@ + mapping.id@ + " 命中 "@ + finding.code@
                + "，但证据不满足 effective fresh + complete + deterministic violation + 当前 Source 指纹匹配；按 advisory 处理。"@
                + reason_note(model::opt_view(head.effective.reason)),
        )
    }
}

/// What a mapping says of the first `n` findings of a head.
pub open spec fn head_effects(mapping: FindingEffectMapping, head: FindingHead, n: nat) -> StopFindings
    decreases n,
{
    if n == 0 {
        symbols::no_stop_findings()
    } else {
        let finding = head.findings@[n - 1];
        symbols::then_stop(
            head_effects(mapping, head, (n - 1) as nat),
            if finding.code@ == mapping.finding_code@ {
                finding_effect(mapping, head, finding)
            } else {
                symbols::no_stop_findings()
            },
        )
    }
}

/// What a mapping says, given the heads.
pub open spec fn mapping_effects(mapping: FindingEffectMapping, heads: Seq<FindingHead>) -> StopFindings {
    match head_of(heads, mapping.plane, mapping.provider_id@) {
        None => symbols::one_warning(
            "Finding effect 映射 "@ + mapping.id@ + " 缺少 "@ + mapping.plane.name()
                + " provider="@ + mapping.provider_id@ + " 的 Evidence head；按 advisory 处理。"@,
        ),
        Some(head) => if head.contract_version != mapping.provider_contract_version {
            symbols::one_warning(
                "Finding effect 映射 "@ + mapping.id@ + " 要求 provider contract v"@
                    + text::decimal(mapping.provider_contract_version as nat) + "，当前为 v"@
                    + text::decimal(head.contract_version as nat) + "；按 advisory 处理。"@,
            )
        } else {
            head_effects(mapping, head, head.findings@.len())
        },
    }
}

/// What the first `n` mappings say; one that is not active says nothing.
pub open spec fn all_mapping_effects(
    mappings: Seq<FindingEffectMapping>,
    heads: Seq<FindingHead>,
    n: nat,
) -> StopFindings
    decreases n,
{
    if n == 0 {
        symbols::no_stop_findings()
    } else {
        symbols::then_stop(
            all_mapping_effects(mappings, heads, (n - 1) as nat),
            if mappings[n - 1].status == MemoryStatus::Active {
                mapping_effects(mappings[n - 1], heads)
            } else {
                symbols::no_stop_findings()
            },
        )
    }
}

/// What the mapped findings say when work is about to stop; where the ledger
/// cannot be read, only that.
pub open spec fn finding_stop(
    mappings: Seq<FindingEffectMapping>,
    heads: Result<Vec<FindingHead>, String>,
) -> StopFindings {
    match heads {
        Err(error) => symbols::one_warning(
            "Evidence ledger 不可用（"@ + error@
                + "）；Finding effect 映射按 fail-open 处理。"@,
        ),
        Ok(heads) => all_mapping_effects(mappings, heads@, mappings.len()),
    }
}

fn find_head<'a>(
    heads: &'a Vec<FindingHead>,
    plane: EvidencePlane,
    provider: &str,
) -> (r: Option<&'a FindingHead>)
    ensures
        match r {
            Some(head) => head_of(heads@, plane, provider@) == Some(*head),
            None => head_of(heads@, plane, provider@) is None,
        },
{
    let mut i: usize = 0;
    assert(heads@.skip(0) =~= heads@);
    while i < heads.len()
        invariant
            i <= heads@.len(),
            head_of(heads@, plane, provider@) == head_of(heads@.skip(i as int), plane, provider@),
        decreases heads@.len() - i,
    {
        assert(heads@.skip(i as int)[0] == heads@[i as int]);
        assert(heads@.skip(i as int).skip(1) =~= heads@.skip(i + 1));
        if heads[i].plane == plane && text::same(heads[i].provider_id.as_str(), provider) {
            return Some(&heads[i]);
        }
        i = i + 1;
    }
    None
}

/// The two lists that are filled while mappings are gone through.
pub open spec fn said(violations: Seq<String>, feedback: Seq<FeedbackItem>) -> StopFindings {
    StopFindings {
        violations: text::views(violations),
        feedback: model::feedback_views(feedback),
    }
}

proof fn stop_findings_equal(a: StopFindings, b: StopFindings)
    requires
        a.violations =~= b.violations,
        a.feedback =~= b.feedback,
    ensures
        a == b,
{
}

proof fn then_nothing(a: StopFindings)
    ensures
        symbols::then_stop(a, symbols::no_stop_findings()) == a,
{
    stop_findings_equal(symbols::then_stop(a, symbols::no_stop_findings()), a);
}

proof fn then_associative(a: StopFindings, b: StopFindings, c: StopFindings)
    ensures
        symbols::then_stop(symbols::then_stop(a, b), c) == symbols::then_stop(
            a,
            symbols::then_stop(b, c),
        ),
{
    stop_findings_equal(
        symbols::then_stop(symbols::then_stop(a, b), c),
        symbols::then_stop(a, symbols::then_stop(b, c)),
    );
}

fn push_feedback(
    violations: &Vec<String>,
    feedback: &mut Vec<FeedbackItem>,
    severity: FeedbackSeverity,
    line: String,
)
    ensures
        said(violations@, final(feedback)@) == symbols::then_stop(
            said(violations@, old(feedback)@),
            StopFindings { violations: Seq::empty(), feedback: seq![(severity, line@)] },
        ),
{
    feedback.push(FeedbackItem { severity, text: line });
    proof {
        stop_findings_equal(
            said(violations@, feedback@),
            symbols::then_stop(
                said(violations@, old(feedback)@),
                StopFindings { violations: Seq::empty(), feedback: seq![(severity, line@)] },
            ),
        );
    }
}

fn apply_finding(
    violations: &mut Vec<String>,
    feedback: &mut Vec<FeedbackItem>,
    mapping: &FindingEffectMapping,
    head: &FindingHead,
    finding: &HeadFinding,
)
    ensures
        said(final(violations)@, final(feedback)@) == symbols::then_stop(
            said(old(violations)@, old(feedback)@),
            finding_effect(*mapping, *head, *finding),
        ),
{
    if mapping.effect == RuleEffect::InjectContext {
        let mut line = mapping.message.clone();
        line.append("：");
        line.append(finding.message.as_str());
        push_feedback(violations, feedback, FeedbackSeverity::Info, line);
    } else if finding.can_hard_block {
        let mut line = mapping.id.clone();
        line.append(" 命中 ");
        line.append(mapping.plane.as_str());
        line.append("/");
        line.append(mapping.provider_id.as_str());
        line.append("/");
        line.append(finding.code.as_str());
        line.append("：");
        line.append(mapping.message.as_str());
        violations.push(line);
        proof {
            stop_findings_equal(
                said(violations@, feedback@),
                symbols::then_stop(
                    said(old(violations)@, old(feedback)@),
                    symbols::one_violation(line@),
                ),
            );
        }
    } else {
        let mut line = "Finding effect 映射 ".to_owned();
        line.append(mapping.id.as_str());
        line.append(" 命中 ");
        line.append(finding.code.as_str());
        line.append(
            "，但证据不满足 effective fresh + complete + deterministic violation + 当前 Source 指纹匹配；按 advisory 处理。",
        );
        let ghost before = line@;
        match &head.effective.reason {
            Some(reason) => {
                let mut note = " 原因：".to_owned();
                note.append(reason.as_str());
                line.append(note.as_str());
            },
            None => {
                assert(before + Seq::<char>::empty() =~= before);
            },
        }
        push_feedback(violations, feedback, FeedbackSeverity::Warning, line);
    }
}

fn apply_mapping(
    violations: &mut Vec<String>,
    feedback: &mut Vec<FeedbackItem>,
    mapping: &FindingEffectMapping,
    heads: &Vec<FindingHead>,
)
    ensures
        said(final(violations)@, final(feedback)@) == symbols::then_stop(
            said(old(violations)@, old(feedback)@),
            mapping_effects(*mapping, heads@),
        ),
{
    let head = match find_head(heads, mapping.plane, mapping.provider_id.as_str()) {
        None => {
            let mut line = "Finding effect 映射 ".to_owned();
            line.append(mapping.id.as_str());
            line.append(" 缺少 ");
            line.append(mapping.plane.as_str());
            line.append(" provider=");
            line.append(mapping.provider_id.as_str());
            line.append(" 的 Evidence head；按 advisory 处理。");
            push_feedback(violations, feedback, FeedbackSeverity::Warning, line);
            return;
        },
        Some(head) => head,
    };
    if head.contract_version != mapping.provider_contract_version {
        let wanted = text::decimal_text(mapping.provider_contract_version as u64);
        let actual = text::decimal_text(head.contract_version as u64);
        let mut line = "Finding effect 映射 ".to_owned();
        line.append(mapping.id.as_str());
        line.append(" 要求 provider contract v");
        line.append(wanted.as_str());
        line.append("，当前为 v");
        line.append(actual.as_str());
        line.append("；按 advisory 处理。");
        push_feedback(violations, feedback, FeedbackSeverity::Warning, line);
        return;
    }
    let ghost before = said(violations@, feedback@);
    let mut i: usize = 0;
    proof {
        then_nothing(before);
    }
    while i < head.findings.len()
        invariant
            i <= head.findings@.len(),
            said(violations@, feedback@) == symbols::then_stop(
                before,
                head_effects(*mapping, *head, i as nat),
            ),
        decreases head.findings@.len() - i,
    {
        let finding = &head.findings[i];
        let ghost so_far = head_effects(*mapping, *head, i as nat);
        proof {
            then_nothing(so_far);
            then_associative(before, so_far, finding_effect(*mapping, *head, *finding));
        }
        if text::same(finding.code.as_str(), mapping.finding_code.as_str()) {
            apply_finding(violations, feedback, mapping, head, finding);
        }
        i = i + 1;
    }
}

/// What the mapped findings say when work is about to stop: violations, which
/// keep it from stopping, and feedback, which does not.
///
/// A ledger that cannot be read, a missing head, another contract version and
/// evidence without the authority to block are feedback only.
pub fn evaluate_finding_stop(
    mappings: &Vec<FindingEffectMapping>,
    heads: &Result<Vec<FindingHead>, String>,
) -> (r: (Vec<String>, Vec<FeedbackItem>))
    ensures
        said(r.0@, r.1@) == finding_stop(mappings@, *heads),
{
    let mut violations: Vec<String> = Vec::new();
    let mut feedback: Vec<FeedbackItem> = Vec::new();
    proof {
        stop_findings_equal(said(violations@, feedback@), symbols::no_stop_findings());
    }
    let heads = match heads {
        Err(error) => {
            let mut line = "Evidence ledger 不可用（".to_owned();
            line.append(error.as_str());
            line.append("）；Finding effect 映射按 fail-open 处理。");
            push_feedback(&violations, &mut feedback, FeedbackSeverity::Warning, line);
            proof {
                stop_findings_equal(
                    said(violations@, feedback@),
                    symbols::one_warning(line@),
                );
            }
            return (violations, feedback);
        },
        Ok(heads) => heads,
    };
    let mut i: usize = 0;
    while i < mappings.len()
        invariant
            i <= mappings@.len(),
            said(violations@, feedback@) == all_mapping_effects(mappings@, heads@, i as nat),
        decreases mappings@.len() - i,
    {
        proof {
            then_nothing(said(violations@, feedback@));
        }
        if mappings[i].status == MemoryStatus::Active {
            apply_mapping(&mut violations, &mut feedback, &mappings[i], heads);
        }
        i = i + 1;
    }
    (violations, feedback)
}

// ---------------------------------------------------------------------------
// Laws
// ---------------------------------------------------------------------------

proof fn head_effects_need_authority(mapping: FindingEffectMapping, head: FindingHead, n: nat)
    requires
        n <= head.findings@.len(),
        forall|k: int| 0 <= k < head.findings@.len() ==> !(#[trigger] head.findings@[k]).can_hard_block,
    ensures
        head_effects(mapping, head, n).violations.len() == 0,
    decreases n,
{
    if n > 0 {
        head_effects_need_authority(mapping, head, (n - 1) as nat);
        assert(!head.findings@[n - 1].can_hard_block);
    }
}

proof fn head_of_is_listed(heads: Seq<FindingHead>, plane: EvidencePlane, provider: Seq<char>)
    ensures
        head_of(heads, plane, provider) matches Some(head) ==> heads.contains(head),
    decreases heads.len(),
{
    if heads.len() > 0 {
        head_of_is_listed(heads.skip(1), plane, provider);
        if heads[0].plane == plane && heads[0].provider_id@ == provider {
            assert(heads[0] == heads[0]);
        } else if let Some(head) = head_of(heads.skip(1), plane, provider) {
            let k = choose|k: int| 0 <= k < heads.skip(1).len() && heads.skip(1)[k] == head;
            assert(heads[k + 1] == head);
        }
    }
}

/// No finding keeps work from stopping without the authority to block: where
/// no finding of any head has it, there is no violation, whatever is mapped.
pub proof fn findings_without_authority_only_advise(
    mappings: Seq<FindingEffectMapping>,
    heads: Seq<FindingHead>,
    n: nat,
)
    requires
        n <= mappings.len(),
        forall|h: int, k: int|
            0 <= h < heads.len() && 0 <= k < heads[h].findings@.len() ==> !(
            #[trigger] heads[h].findings@[k]).can_hard_block,
    ensures
        all_mapping_effects(mappings, heads, n).violations.len() == 0,
    decreases n,
{
    if n > 0 {
        findings_without_authority_only_advise(mappings, heads, (n - 1) as nat);
        let mapping = mappings[n - 1];
        head_of_is_listed(heads, mapping.plane, mapping.provider_id@);
        if let Some(head) = head_of(heads, mapping.plane, mapping.provider_id@) {
            let h = choose|h: int| 0 <= h < heads.len() && heads[h] == head;
            assert forall|k: int| 0 <= k < head.findings@.len() implies !(
            #[trigger] head.findings@[k]).can_hard_block by {
                assert(!heads[h].findings@[k].can_hard_block);
            }
            head_effects_need_authority(mapping, head, head.findings@.len());
        }
    }
}

/// A head with one more finding than another.
pub open spec fn one_more(before: FindingHead, after: FindingHead, finding: HeadFinding) -> bool {
    &&& after.findings@ == before.findings@.push(finding)
    &&& after == (FindingHead { findings: after.findings, ..before })
}

proof fn unnamed_finding_changes_nothing(
    mapping: FindingEffectMapping,
    before: FindingHead,
    after: FindingHead,
    finding: HeadFinding,
    n: nat,
)
    requires
        one_more(before, after, finding),
        n <= before.findings@.len(),
    ensures
        head_effects(mapping, after, n) == head_effects(mapping, before, n),
    decreases n,
{
    if n > 0 {
        unnamed_finding_changes_nothing(mapping, before, after, finding, (n - 1) as nat);
        assert(after.findings@[n - 1] == before.findings@[n - 1]);
    }
}

proof fn head_of_after(
    heads: Seq<FindingHead>,
    at: int,
    after: FindingHead,
    plane: EvidencePlane,
    provider: Seq<char>,
)
    requires
        0 <= at < heads.len(),
        after.plane == heads[at].plane,
        after.provider_id == heads[at].provider_id,
    ensures
        ({
            let found = head_of(heads, plane, provider);
            let now = head_of(heads.update(at, after), plane, provider);
            ||| now == found
            ||| found == Some(heads[at]) && now == Some(after) && heads[at].plane == plane
                && heads[at].provider_id@ == provider
        }),
    decreases heads.len(),
{
    let updated = heads.update(at, after);
    if !(heads[0].plane == plane && heads[0].provider_id@ == provider) {
        if at == 0 {
            assert(updated.skip(1) =~= heads.skip(1));
        } else {
            assert(updated.skip(1) =~= heads.skip(1).update(at - 1, after));
            head_of_after(heads.skip(1), at - 1, after, plane, provider);
        }
    }
}

/// A finding that no active mapping names has no effect: with it or without it,
/// the same is said.
pub proof fn unmapped_findings_have_no_effect(
    mappings: Seq<FindingEffectMapping>,
    heads: Seq<FindingHead>,
    at: int,
    after: FindingHead,
    finding: HeadFinding,
    n: nat,
)
    requires
        0 <= at < heads.len(),
        n <= mappings.len(),
        one_more(heads[at], after, finding),
        forall|i: int|
            0 <= i < mappings.len() && (#[trigger] mappings[i]).status == MemoryStatus::Active
                && mappings[i].plane == after.plane && mappings[i].provider_id@
                == after.provider_id@ ==> mappings[i].finding_code@ != finding.code@,
    ensures
        all_mapping_effects(mappings, heads.update(at, after), n) == all_mapping_effects(
            mappings,
            heads,
            n,
        ),
    decreases n,
{
    if n > 0 {
        unmapped_findings_have_no_effect(mappings, heads, at, after, finding, (n - 1) as nat);
        let mapping = mappings[n - 1];
        head_of_after(heads, at, after, mapping.plane, mapping.provider_id@);
        if mapping.status == MemoryStatus::Active {
            let before = heads[at];
            let count = before.findings@.len();
            unnamed_finding_changes_nothing(mapping, before, after, finding, count);
            assert(after.findings@.last() == finding);
            let said_before = head_effects(mapping, before, count);
            if mapping.plane == after.plane && mapping.provider_id@ == after.provider_id@ {
                assert(head_effects(mapping, after, count + 1) == symbols::then_stop(
                    head_effects(mapping, after, count),
                    symbols::no_stop_findings(),
                ));
                assert(symbols::then_stop(said_before, symbols::no_stop_findings()).violations
                    =~= said_before.violations);
                assert(symbols::then_stop(said_before, symbols::no_stop_findings()).feedback
                    =~= said_before.feedback);
            }
        }
    }
}

/// The head of a provider on a plane is the first one with that name.
pub proof fn the_first_head_counts(
    heads: Seq<FindingHead>,
    plane: EvidencePlane,
    provider: Seq<char>,
)
    ensures
        head_of(heads, plane, provider) is None <==> forall|i: int|
            0 <= i < heads.len() ==> !((#[trigger] heads[i]).plane == plane
                && heads[i].provider_id@ == provider),
        head_of(heads, plane, provider) is Some ==> exists|i: int|
            0 <= i < heads.len() && #[trigger] heads[i] == head_of(heads, plane, provider)->0
                && heads[i].plane == plane && heads[i].provider_id@ == provider && forall|k: int|
                0 <= k < i ==> !((#[trigger] heads[k]).plane == plane && heads[k].provider_id@
                    == provider),
    decreases heads.len(),
{
    if heads.len() > 0 && !(heads[0].plane == plane && heads[0].provider_id@ == provider) {
        let rest = heads.skip(1);
        the_first_head_counts(rest, plane, provider);
        assert forall|i: int| 0 <= i < rest.len() implies #[trigger] rest[i] == heads[i + 1] by {}
        if head_of(rest, plane, provider) is Some {
            let i = choose|i: int|
                0 <= i < rest.len() && #[trigger] rest[i] == head_of(rest, plane, provider)->0
                    && rest[i].plane == plane && rest[i].provider_id@ == provider && forall|k: int|
                    0 <= k < i ==> !((#[trigger] rest[k]).plane == plane && rest[k].provider_id@
                        == provider);
            assert(heads[i + 1] == rest[i]);
            assert forall|k: int| 0 <= k < i + 1 implies !((#[trigger] heads[k]).plane == plane
                && heads[k].provider_id@ == provider) by {
                if k > 0 {
                    assert(rest[k - 1] == heads[k]);
                }
            }
        } else {
            assert forall|k: int| 0 <= k < heads.len() implies !((#[trigger] heads[k]).plane
                == plane && heads[k].provider_id@ == provider) by {
                if k > 0 {
                    assert(rest[k - 1] == heads[k]);
                }
            }
        }
    } else if heads.len() > 0 {
        assert(heads[0].plane == plane);
    }
}

proof fn head_violations(mapping: FindingEffectMapping, head: FindingHead, n: nat)
    requires
        n <= head.findings@.len(),
    ensures
        head_effects(mapping, head, n).violations.len() > 0 <==> mapping.effect
            != RuleEffect::InjectContext && exists|k: int|
            0 <= k < n && (#[trigger] head.findings@[k]).code@ == mapping.finding_code@
                && head.findings@[k].can_hard_block,
        head_effects(mapping, head, n).violations.len() + head_effects(
            mapping,
            head,
            n,
        ).feedback.len() == head.findings@.take(n as int).filter(
            |f: HeadFinding| f.code@ == mapping.finding_code@,
        ).len(),
    decreases n,
{
    reveal(Seq::filter);
    let front = head.findings@.take(n as int);
    if n > 0 {
        head_violations(mapping, head, (n - 1) as nat);
        assert(front.drop_last() =~= head.findings@.take(n - 1));
        assert(front.last() == head.findings@[n - 1]);
    } else {
        assert(front =~= Seq::<HeadFinding>::empty());
    }
}

/// A mapping has a finding to act on: it is active and does more than inform,
/// the head that it names is there under the contract that it asks for, and one
/// of the findings of that head has its code and may block by itself.
pub open spec fn acts(mapping: FindingEffectMapping, heads: Seq<FindingHead>) -> bool {
    &&& mapping.status == MemoryStatus::Active
    &&& mapping.effect != RuleEffect::InjectContext
    &&& head_of(heads, mapping.plane, mapping.provider_id@) matches Some(head)
    &&& head.contract_version == mapping.provider_contract_version
    &&& exists|k: int|
        0 <= k < head.findings@.len() && (#[trigger] head.findings@[k]).code@
            == mapping.finding_code@ && head.findings@[k].can_hard_block
}

proof fn mapping_violations(
    mappings: Seq<FindingEffectMapping>,
    heads: Seq<FindingHead>,
    n: nat,
)
    requires
        n <= mappings.len(),
    ensures
        all_mapping_effects(mappings, heads, n).violations.len() > 0 <==> exists|i: int|
            0 <= i < n && acts(#[trigger] mappings[i], heads),
    decreases n,
{
    if n > 0 {
        mapping_violations(mappings, heads, (n - 1) as nat);
        let mapping = mappings[n - 1];
        if let Some(head) = head_of(heads, mapping.plane, mapping.provider_id@) {
            head_violations(mapping, head, head.findings@.len());
        }
    }
}

/// Findings keep work from stopping exactly where some active mapping, whichever
/// it is, does more than inform and names a finding that may block by itself in
/// a head that is there under the contract that the mapping asks for.  A ledger
/// that cannot be read keeps nothing from stopping, and says so.
pub proof fn mapped_findings_keep_work_from_stopping(
    mappings: Seq<FindingEffectMapping>,
    heads: Result<Vec<FindingHead>, String>,
)
    ensures
        heads matches Ok(heads) ==> (finding_stop(mappings, Ok(heads)).violations.len() > 0
            <==> exists|i: int| 0 <= i < mappings.len() && acts(#[trigger] mappings[i], heads@)),
        heads is Err ==> finding_stop(mappings, heads).violations.len() == 0 && finding_stop(
            mappings,
            heads,
        ).feedback.len() == 1 && finding_stop(mappings, heads).feedback[0].0
            == FeedbackSeverity::Warning,
{
    if let Ok(heads) = heads {
        mapping_violations(mappings, heads@, mappings.len());
    }
}

/// A mapping on a head that is there says something of every finding with its
/// code, each once: as information, as a violation or as a warning.
pub proof fn every_mapped_finding_is_told(mapping: FindingEffectMapping, heads: Seq<FindingHead>)
    ensures
        head_of(heads, mapping.plane, mapping.provider_id@) matches Some(head) ==> (
        head.contract_version == mapping.provider_contract_version ==> {
            let said = mapping_effects(mapping, heads);
            said.violations.len() + said.feedback.len() == head.findings@.filter(
                |f: HeadFinding| f.code@ == mapping.finding_code@,
            ).len()
        }),
        head_of(heads, mapping.plane, mapping.provider_id@) is None ==> mapping_effects(
            mapping,
            heads,
        ).violations.len() == 0 && mapping_effects(mapping, heads).feedback.len() == 1,
{
    if let Some(head) = head_of(heads, mapping.plane, mapping.provider_id@) {
        head_violations(mapping, head, head.findings@.len());
        assert(head.findings@.take(head.findings@.len() as int) =~= head.findings@);
    }
}

} // verus!
