//! How far recorded evidence may be trusted against the source as it is now.
use crate::model::{self, EvidenceFreshness};
use crate::text;
use vstd::prelude::*;

verus! {

broadcast use {vstd::string::group_string_axioms, vstd::seq::group_seq_axioms};

/// The fingerprint of the worktree as it is now, or why it could not be taken.
///
/// It is a trust input of its own and never overwrites a recorded freshness.
#[derive(Debug, Clone, PartialEq, Eq)]
pub enum CurrentSourceVerification {
    Verified(String),
    Unavailable(String),
}

/// What a source verification says.
pub enum SourceView {
    Verified(Seq<char>),
    Unavailable(Seq<char>),
}

impl View for CurrentSourceVerification {
    type V = SourceView;

    open spec fn view(&self) -> SourceView {
        match self {
            CurrentSourceVerification::Verified(f) => SourceView::Verified(f@),
            CurrentSourceVerification::Unavailable(e) => SourceView::Unavailable(e@),
        }
    }
}

impl CurrentSourceVerification {
    /// The outcome of fingerprinting the worktree.
    pub fn inspect(outcome: Result<String, String>) -> (r: Self)
        ensures
            r@ == (match outcome {
                Ok(f) => SourceView::Verified(f@),
                Err(e) => SourceView::Unavailable(e@),
            }),
    {
        match outcome {
            Ok(fingerprint) => CurrentSourceVerification::Verified(fingerprint),
            Err(error) => CurrentSourceVerification::Unavailable(error),
        }
    }

    pub fn fingerprint(&self) -> (r: Option<&str>)
        ensures
            match self@ {
                SourceView::Verified(f) => r is Some && r->0@ == f,
                SourceView::Unavailable(_) => r is None,
            },
    {
        match self {
            CurrentSourceVerification::Verified(f) => Some(f.as_str()),
            CurrentSourceVerification::Unavailable(_) => None,
        }
    }

    pub fn error(&self) -> (r: Option<&str>)
        ensures
            match self@ {
                SourceView::Verified(_) => r is None,
                SourceView::Unavailable(e) => r is Some && r->0@ == e,
            },
    {
        match self {
            CurrentSourceVerification::Verified(_) => None,
            CurrentSourceVerification::Unavailable(e) => Some(e.as_str()),
        }
    }

    /// Whether two verifications say the same.
    pub fn agrees(&self, other: &Self) -> (r: bool)
        ensures
            r == (self@ == other@),
    {
        match (self, other) {
            (
                CurrentSourceVerification::Verified(a),
                CurrentSourceVerification::Verified(b),
            ) => text::same(a.as_str(), b.as_str()),
            (
                CurrentSourceVerification::Unavailable(a),
                CurrentSourceVerification::Unavailable(b),
            ) => text::same(a.as_str(), b.as_str()),
            _ => false,
        }
    }
}

/// The freshness that authority may be drawn from, and why it is not the
/// recorded one.
#[derive(Debug, Clone, PartialEq, Eq)]
pub struct EffectiveEvidenceFreshness {
    pub freshness: EvidenceFreshness,
    pub reason: Option<String>,
}

/// The effective freshness: stale stays stale, a different source is stale, a
/// source that cannot be verified is unknown, and otherwise the record stands.
pub open spec fn effective_freshness(
    recorded: EvidenceFreshness,
    evidence_source: Seq<char>,
    current: SourceView,
) -> EvidenceFreshness {
    if recorded == EvidenceFreshness::Stale {
        EvidenceFreshness::Stale
    } else {
        match current {
            SourceView::Verified(f) => if f != evidence_source {
                EvidenceFreshness::Stale
            } else {
                recorded
            },
            SourceView::Unavailable(_) => EvidenceFreshness::Unknown,
        }
    }
}

/// Why the effective freshness was lowered just now, if it was.
pub open spec fn freshness_reason(
    recorded: EvidenceFreshness,
    evidence_source: Seq<char>,
    current: SourceView,
) -> Option<Seq<char>> {
    if recorded == EvidenceFreshness::Stale {
        None
    } else {
        match current {
            SourceView::Verified(f) => if f != evidence_source {
                Some(
                    "Evidence Source fingerprint="@ + evidence_source
                        + " 与当前 Source fingerprint="@ + f + " 不一致"@,
                )
            } else {
                None
            },
            SourceView::Unavailable(e) => Some("当前 Source fingerprint 无法验证："@ + e),
        }
    }
}

/// Combines a recorded freshness with the current source fingerprint.
///
/// Trust is kept or lowered, never raised.
pub fn effective_evidence_freshness(
    recorded: EvidenceFreshness,
    evidence_source_fingerprint: &str,
    current: &CurrentSourceVerification,
) -> (r: EffectiveEvidenceFreshness)
    ensures
        r.freshness == effective_freshness(recorded, evidence_source_fingerprint@, current@),
        model::opt_view(r.reason) == freshness_reason(
            recorded,
            evidence_source_fingerprint@,
            current@,
        ),
{
    if recorded == EvidenceFreshness::Stale {
        return EffectiveEvidenceFreshness { freshness: EvidenceFreshness::Stale, reason: None };
    }
    match current {
        CurrentSourceVerification::Verified(fingerprint) => {
            if !text::same(fingerprint.as_str(), evidence_source_fingerprint) {
                let mut reason = "Evidence Source fingerprint=".to_owned();
                reason.append(evidence_source_fingerprint);
                reason.append(" 与当前 Source fingerprint=");
                reason.append(fingerprint.as_str());
                reason.append(" 不一致");
                EffectiveEvidenceFreshness {
                    freshness: EvidenceFreshness::Stale,
                    reason: Some(reason),
                }
            } else {
                EffectiveEvidenceFreshness { freshness: recorded, reason: None }
            }
        },
        CurrentSourceVerification::Unavailable(error) => {
            let mut reason = "当前 Source fingerprint 无法验证：".to_owned();
            reason.append(error.as_str());
            EffectiveEvidenceFreshness {
                freshness: EvidenceFreshness::Unknown,
                reason: Some(reason),
            }
        },
    }
}

/// How much trust a freshness carries: the larger, the more.
pub open spec fn trust_level(f: EvidenceFreshness) -> int {
    match f {
        EvidenceFreshness::Stale => 0,
        EvidenceFreshness::Unknown => 1,
        EvidenceFreshness::Fresh => 2,
    }
}

/// Re-validation never restores trust: the effective freshness is at most the
/// recorded one.
pub proof fn freshness_is_never_raised(
    recorded: EvidenceFreshness,
    evidence_source: Seq<char>,
    current: SourceView,
)
    ensures
        trust_level(effective_freshness(recorded, evidence_source, current)) <= trust_level(
            recorded,
        ),
{
}

/// Evidence is effectively fresh exactly when it was recorded fresh and the
/// current source is verified to be the one it was taken from.
pub proof fn fresh_means_recorded_and_matching(
    recorded: EvidenceFreshness,
    evidence_source: Seq<char>,
    current: SourceView,
)
    ensures
        effective_freshness(recorded, evidence_source, current) == EvidenceFreshness::Fresh <==> (
        recorded == EvidenceFreshness::Fresh && current == SourceView::Verified(evidence_source)),
{
}

/// Applying the re-validation twice changes nothing more.
pub proof fn freshness_is_stable(
    recorded: EvidenceFreshness,
    evidence_source: Seq<char>,
    current: SourceView,
)
    ensures
        effective_freshness(
            effective_freshness(recorded, evidence_source, current),
            evidence_source,
            current,
        ) == effective_freshness(recorded, evidence_source, current),
{
}

/// Evidence is effectively stale exactly where it was recorded stale or the
/// source is verified to be another one, and unknown exactly where it was not
/// recorded stale and either the source cannot be verified or it is the right
/// one and the record says no more.  A reason is given exactly where the source
/// itself is why.
pub proof fn lowered_freshness_has_its_cause(
    recorded: EvidenceFreshness,
    evidence_source: Seq<char>,
    current: SourceView,
)
    ensures
        effective_freshness(recorded, evidence_source, current) == EvidenceFreshness::Stale <==> {
            ||| recorded == EvidenceFreshness::Stale
            ||| current is Verified && current != SourceView::Verified(evidence_source)
        },
        effective_freshness(recorded, evidence_source, current) == EvidenceFreshness::Unknown
            <==> recorded != EvidenceFreshness::Stale && (current is Unavailable || recorded
            == EvidenceFreshness::Unknown && current == SourceView::Verified(evidence_source)),
        freshness_reason(recorded, evidence_source, current) is Some <==> recorded
            != EvidenceFreshness::Stale && current != SourceView::Verified(evidence_source),
{
}

} // verus!
