//! Whether a provider of symbols says the same each time that it is asked, and
//! what follows for the snapshots that it makes.
use crate::digest;
use crate::error::{self, AppError, ErrorView};
use crate::model;
use crate::order;
use crate::symbols::{self, ProviderTrustStatus};
use crate::text;
use vstd::prelude::*;

verus! {

broadcast use {vstd::string::group_string_axioms, vstd::seq::group_seq_axioms};

/// The most documents that are named for one run that differs from the first.
pub const MAX_DIVERGENT_DOCUMENTS: usize = 200;

/// The machine's binding that a run was made with.
#[derive(Debug, Clone, PartialEq, Eq)]
pub struct RunBinding {
    pub registration_id: String,
    pub registration_revision: u64,
    pub executable_sha256: String,
}

/// What a binding says.
pub struct BindingView {
    pub registration_id: Seq<char>,
    pub registration_revision: u64,
    pub executable_sha256: Seq<char>,
}

impl View for RunBinding {
    type V = BindingView;

    open spec fn view(&self) -> BindingView {
        BindingView {
            registration_id: self.registration_id@,
            registration_revision: self.registration_revision,
            executable_sha256: self.executable_sha256@,
        }
    }
}

impl RunBinding {
    /// Whether two runs were made with one binding.
    pub fn agrees(&self, other: &Self) -> (r: bool)
        ensures
            r == (self@ == other@),
    {
        text::same(self.registration_id.as_str(), other.registration_id.as_str())
            && self.registration_revision == other.registration_revision && text::same(
            self.executable_sha256.as_str(),
            other.executable_sha256.as_str(),
        )
    }
}

/// What one run of a provider gave.
#[derive(Debug, Clone, PartialEq, Eq)]
pub struct Observation {
    pub source_fingerprint: String,
    pub binding: RunBinding,
    pub documents: Vec<String>,
    pub semantic_fingerprint: String,
    pub coverage_status: String,
}

/// What an observation says; the documents are a set.
pub struct ObservationView {
    pub source: Seq<char>,
    pub binding: BindingView,
    pub documents: Seq<Seq<char>>,
    pub semantic: Seq<char>,
    pub complete: bool,
}

impl View for Observation {
    type V = ObservationView;

    open spec fn view(&self) -> ObservationView {
        ObservationView {
            source: self.source_fingerprint@,
            binding: self.binding@,
            documents: order::sorted_set_of(text::views(self.documents@)),
            semantic: self.semantic_fingerprint@,
            complete: self.coverage_status@ == "complete"@,
        }
    }
}

/// What observations say.
pub open spec fn observation_views(v: Seq<Observation>) -> Seq<ObservationView> {
    v.map_values(|o: Observation| o@)
}

// ---------------------------------------------------------------------------
// Taking observations
// ---------------------------------------------------------------------------

/// The runs of a provider that are compared.
#[derive(Debug, Clone, PartialEq, Eq)]
pub struct StabilityRun {
    pub observations: Vec<Observation>,
}

impl View for StabilityRun {
    type V = Seq<ObservationView>;

    open spec fn view(&self) -> Seq<ObservationView> {
        observation_views(self.observations@)
    }
}

/// All runs saw the same source with the same binding.
pub open spec fn comparable(runs: Seq<ObservationView>) -> bool {
    forall|i: int|
        0 <= i < runs.len() ==> (#[trigger] runs[i]).source == runs[0].source && runs[i].binding
            == runs[0].binding
}

/// Why a run cannot be compared with those before it.
pub open spec fn comparison_refusal(
    runs: Seq<ObservationView>,
    next: ObservationView,
) -> Option<ErrorView> {
    if runs.len() > 0 && next.source != runs[0].source {
        Some(ErrorView::Provider("稳定性验证期间源码指纹发生变化；所有观测作废"@))
    } else if runs.len() > 0 && next.binding != runs[0].binding {
        Some(
            ErrorView::Provider(
                "稳定性验证期间 Provider 绑定、revision 或 executable SHA-256 发生变化；所有观测作废"@,
            ),
        )
    } else {
        None
    }
}

impl StabilityRun {
    /// No runs yet.
    pub fn new() -> (r: Self)
        ensures
            r@ == Seq::<ObservationView>::empty(),
    {
        let r = StabilityRun { observations: Vec::new() };
        assert(r@ =~= Seq::<ObservationView>::empty());
        r
    }

    /// Takes one more run, where it can be compared with those before it.
    pub fn observe(&mut self, next: Observation) -> (r: Result<(), AppError>)
        ensures
            error::follows(r, comparison_refusal(old(self)@, next@)),
            final(self)@ == (if r is Ok {
                old(self)@.push(next@)
            } else {
                old(self)@
            }),
            comparable(old(self)@) ==> comparable(final(self)@),
    {
        if self.observations.len() > 0 {
            assert(self@[0] == self.observations@[0]@);
            if !text::same(
                next.source_fingerprint.as_str(),
                self.observations[0].source_fingerprint.as_str(),
            ) {
                return Err(
                    AppError::Provider(
                        "稳定性验证期间源码指纹发生变化；所有观测作废".to_owned(),
                    ),
                );
            }
            if !next.binding.agrees(&self.observations[0].binding) {
                return Err(
                    AppError::Provider(
                        "稳定性验证期间 Provider 绑定、revision 或 executable SHA-256 发生变化；所有观测作废".to_owned(),
                    ),
                );
            }
        }
        let ghost before = self@;
        let ghost view = next@;
        self.observations.push(next);
        assert(self@ =~= before.push(view));
        Ok(())
    }
}

// ---------------------------------------------------------------------------
// Comparing them
// ---------------------------------------------------------------------------

/// All runs found the same documents.
pub open spec fn same_documents(runs: Seq<ObservationView>) -> bool {
    forall|i: int| 0 <= i < runs.len() ==> (#[trigger] runs[i]).documents == runs[0].documents
}

/// All runs made the same snapshot.
pub open spec fn same_snapshots(runs: Seq<ObservationView>) -> bool {
    forall|i: int| 0 <= i < runs.len() ==> (#[trigger] runs[i]).semantic == runs[0].semantic
}

/// All runs covered everything.
pub open spec fn all_complete(runs: Seq<ObservationView>) -> bool {
    forall|i: int| 0 <= i < runs.len() ==> (#[trigger] runs[i]).complete
}

/// What is found in one of two lists and not in the other, in order.
pub open spec fn difference(a: Seq<Seq<char>>, b: Seq<Seq<char>>) -> Seq<Seq<char>> {
    order::sorted_set_of((a + b).filter(|x: Seq<char>| a.contains(x) != b.contains(x)))
}

/// The first of the documents in which two runs differ.
pub open spec fn difference_sample(a: Seq<Seq<char>>, b: Seq<Seq<char>>) -> Seq<Seq<char>> {
    let all = difference(a, b);
    if all.len() > MAX_DIVERGENT_DOCUMENTS {
        all.take(MAX_DIVERGENT_DOCUMENTS as int)
    } else {
        all
    }
}

/// The samples of the runs, one after another.
pub open spec fn samples(runs: Seq<ObservationView>, n: nat) -> Seq<Seq<char>>
    decreases n,
{
    if n == 0 {
        Seq::empty()
    } else {
        samples(runs, (n - 1) as nat) + difference_sample(
            runs[0].documents,
            runs[n - 1].documents,
        )
    }
}

/// How the comparison ends.
pub open spec fn status_name(documents: bool, snapshots: bool, complete: bool) -> Seq<char> {
    if !documents || !snapshots {
        "nondeterministic"@
    } else if !complete {
        "stable_incomplete"@
    } else {
        "stable_complete"@
    }
}

/// How the comparison ends.
pub fn provider_stability_status(
    document_sets_equal: bool,
    semantic_snapshots_equal: bool,
    all_complete: bool,
) -> (r: &'static str)
    ensures
        r@ == status_name(document_sets_equal, semantic_snapshots_equal, all_complete),
{
    if document_sets_equal && semantic_snapshots_equal && all_complete {
        "stable_complete"
    } else if !document_sets_equal || !semantic_snapshots_equal {
        "nondeterministic"
    } else {
        "stable_incomplete"
    }
}

/// What the runs come to.
#[derive(Debug, Clone, PartialEq, Eq)]
pub struct StabilityReport {
    pub status: &'static str,
    pub document_sets_equal: bool,
    pub semantic_snapshots_equal: bool,
    pub all_runs_coverage_complete: bool,
    pub divergent_document_sample: Vec<String>,
}

fn same_lists(a: &Vec<String>, b: &Vec<String>) -> (r: bool)
    ensures
        r == (text::views(a@) == text::views(b@)),
{
    if a.len() != b.len() {
        assert(text::views(a@).len() != text::views(b@).len());
        return false;
    }
    let mut i: usize = 0;
    while i < a.len()
        invariant
            a@.len() == b@.len(),
            i <= a@.len(),
            forall|k: int| 0 <= k < i ==> (#[trigger] a@[k])@ == b@[k]@,
        decreases a@.len() - i,
    {
        if !text::same(a[i].as_str(), b[i].as_str()) {
            assert(text::views(a@)[i as int] != text::views(b@)[i as int]);
            return false;
        }
        i = i + 1;
    }
    assert(text::views(a@) =~= text::views(b@));
    true
}

fn push_strangers(from: &Vec<String>, other: &Vec<String>, out: &mut Vec<String>)
    ensures
        text::views(final(out)@) == text::views(old(out)@) + text::views(from@).filter(
            |x: Seq<char>| !text::views(other@).contains(x),
        ),
{
    let ghost all = text::views(from@);
    let ghost before = text::views(out@);
    let ghost stranger = |x: Seq<char>| !text::views(other@).contains(x);
    let mut i: usize = 0;
    assert(all.take(0) =~= Seq::<Seq<char>>::empty());
    proof {
        reveal(Seq::filter);
    }
    assert(text::views(out@) =~= before + all.take(0).filter(stranger));
    while i < from.len()
        invariant
            i <= from@.len(),
            all == text::views(from@),
            stranger == (|x: Seq<char>| !text::views(other@).contains(x)),
            text::views(out@) == before + all.take(i as int).filter(stranger),
        decreases from@.len() - i,
    {
        proof {
            reveal(Seq::filter);
        }
        let ghost here = text::views(out@);
        assert(all.take(i + 1).drop_last() =~= all.take(i as int));
        assert(all.take(i + 1).last() == from@[i as int]@);
        if !text::list_contains(other, from[i].as_str()) {
            out.push(from[i].clone());
            assert(text::views(out@) =~= here.push(from@[i as int]@));
            assert(here.push(from@[i as int]@) =~= before + all.take(i as int).filter(
                stranger,
            ).push(from@[i as int]@));
        }
        i = i + 1;
    }
    assert(all.take(all.len() as int) =~= all);
}

proof fn difference_members(a: Seq<Seq<char>>, b: Seq<Seq<char>>, found: Seq<Seq<char>>)
    requires
        found == a.filter(|x: Seq<char>| !b.contains(x)) + b.filter(
            |x: Seq<char>| !a.contains(x),
        ),
    ensures
        order::sorted_set_of(found) == difference(a, b),
{
    let f = |x: Seq<char>| !b.contains(x);
    let g = |x: Seq<char>| !a.contains(x);
    let h = |x: Seq<char>| a.contains(x) != b.contains(x);
    let whole = (a + b).filter(h);
    assert forall|x: Seq<char>| found.contains(x) <==> whole.contains(x) by {
        filtered_members(a, f, x);
        filtered_members(b, g, x);
        filtered_members(a + b, h, x);
        joined_members(a, b, x);
        joined_members(a.filter(f), b.filter(g), x);
    }
    order::sorted_set_keeps_members(found);
    let r = order::sorted_set_of(found);
    assert(order::is_sorted_set_of(r, whole)) by {
        assert forall|x: Seq<char>| r.contains(x) <==> whole.contains(x) by {
            assert(r.contains(x) <==> found.contains(x));
        }
    }
    order::sorted_set_is_unique(r, whole);
}

proof fn joined_members(a: Seq<Seq<char>>, b: Seq<Seq<char>>, x: Seq<char>)
    ensures
        (a + b).contains(x) <==> a.contains(x) || b.contains(x),
{
    if a.contains(x) {
        let k = choose|k: int| 0 <= k < a.len() && a[k] == x;
        assert((a + b)[k] == x);
    }
    if b.contains(x) {
        let k = choose|k: int| 0 <= k < b.len() && b[k] == x;
        assert((a + b)[a.len() + k] == x);
    }
    if (a + b).contains(x) {
        let k = choose|k: int| 0 <= k < (a + b).len() && (a + b)[k] == x;
        if k < a.len() {
            assert(a[k] == x);
        } else {
            assert(b[k - a.len()] == x);
        }
    }
}

proof fn filtered_members(v: Seq<Seq<char>>, f: spec_fn(Seq<char>) -> bool, x: Seq<char>)
    ensures
        v.filter(f).contains(x) <==> v.contains(x) && f(x),
    decreases v.len(),
{
    reveal(Seq::filter);
    if v.len() > 0 {
        let init = v.drop_last();
        filtered_members(init, f, x);
        assert(v =~= init + seq![v.last()]);
        joined_members(init, seq![v.last()], x);
        assert(seq![v.last()][0] == v.last());
        assert(seq![v.last()].contains(x) <==> x == v.last());
        if f(v.last()) {
            assert(v.filter(f) =~= init.filter(f) + seq![v.last()]);
            joined_members(init.filter(f), seq![v.last()], x);
        }
    }
}

/// The first of the documents in which two runs differ.
fn sample_difference(a: &Vec<String>, b: &Vec<String>) -> (r: Vec<String>)
    ensures
        text::views(r@) == difference_sample(text::views(a@), text::views(b@)),
{
    let mut found: Vec<String> = Vec::new();
    assert(text::views(found@) =~= Seq::<Seq<char>>::empty());
    push_strangers(a, b, &mut found);
    push_strangers(b, a, &mut found);
    let ghost va = text::views(a@);
    let ghost vb = text::views(b@);
    assert(text::views(found@) =~= va.filter(|x: Seq<char>| !vb.contains(x)) + vb.filter(
        |x: Seq<char>| !va.contains(x),
    ));
    proof {
        difference_members(va, vb, text::views(found@));
    }
    let mut sorted = order::sorted_set(&found);
    if sorted.len() > MAX_DIVERGENT_DOCUMENTS {
        let ghost before = sorted@;
        sorted.truncate(MAX_DIVERGENT_DOCUMENTS);
        assert(text::views(sorted@) =~= text::views(before).take(MAX_DIVERGENT_DOCUMENTS as int));
    }
    sorted
}

proof fn same_documents_differ_nowhere(a: Seq<Seq<char>>)
    ensures
        difference_sample(a, a).len() == 0,
{
    let h = |x: Seq<char>| a.contains(x) != a.contains(x);
    let whole = (a + a).filter(h);
    order::sorted_set_keeps_members(whole);
    let r = order::sorted_set_of(whole);
    if r.len() > 0 {
        assert(r.contains(r[0]));
        filtered_members(a + a, h, r[0]);
    }
}

/// A report says what runs come to.
pub open spec fn concluded(r: StabilityReport, runs: Seq<ObservationView>) -> bool {
    &&& r.document_sets_equal == same_documents(runs)
    &&& r.semantic_snapshots_equal == same_snapshots(runs)
    &&& r.all_runs_coverage_complete == all_complete(runs)
    &&& r.status@ == status_name(same_documents(runs), same_snapshots(runs), all_complete(runs))
    &&& text::views(r.divergent_document_sample@) == order::sorted_set_of(
        samples(runs, runs.len()),
    )
}

impl StabilityRun {
    /// What the runs come to.
    pub fn conclude(&self) -> (r: StabilityReport)
        ensures
            concluded(r, self@),
    {
        let mut documents = true;
        let mut snapshots = true;
        let mut complete = true;
        let mut sample: Vec<String> = Vec::new();
        let mut i: usize = 0;
        let ghost runs = self@;
        assert(text::views(sample@) =~= samples(runs, 0));
        let baseline: Vec<String> = if self.observations.len() > 0 {
            order::sorted_set(&self.observations[0].documents)
        } else {
            Vec::new()
        };
        while i < self.observations.len()
            invariant
                i <= self.observations@.len(),
                runs == self@,
                self.observations@.len() > 0 ==> text::views(baseline@) == runs[0].documents,
                documents == (forall|k: int|
                    0 <= k < i ==> (#[trigger] runs[k]).documents == runs[0].documents),
                snapshots == (forall|k: int|
                    0 <= k < i ==> (#[trigger] runs[k]).semantic == runs[0].semantic),
                complete == (forall|k: int| 0 <= k < i ==> (#[trigger] runs[k]).complete),
                text::views(sample@) == samples(runs, i as nat),
            decreases self.observations@.len() - i,
        {
            assert(runs[i as int] == self.observations@[i as int]@);
            assert(runs[0] == self.observations@[0]@);
            let found = order::sorted_set(&self.observations[i].documents);
            let ghost before = text::views(sample@);
            if same_lists(&baseline, &found) {
                proof {
                    same_documents_differ_nowhere(runs[0].documents);
                }
                assert(samples(runs, (i + 1) as nat) =~= before);
            } else {
                documents = false;
                let more = sample_difference(&baseline, &found);
                let mut j: usize = 0;
                assert(text::views(more@).take(0) =~= Seq::<Seq<char>>::empty());
                while j < more.len()
                    invariant
                        j <= more@.len(),
                        text::views(sample@) == before + text::views(more@).take(j as int),
                    decreases more@.len() - j,
                {
                    let ghost here = text::views(sample@);
                    sample.push(more[j].clone());
                    assert(text::views(sample@) =~= here.push(more@[j as int]@));
                    assert(text::views(more@).take(j + 1) =~= text::views(more@).take(
                        j as int,
                    ).push(more@[j as int]@));
                    assert(text::views(sample@) =~= before + text::views(more@).take(j + 1));
                    j = j + 1;
                }
                assert(text::views(more@).take(more@.len() as int) =~= text::views(more@));
            }
            if !text::same(
                self.observations[i].semantic_fingerprint.as_str(),
                self.observations[0].semantic_fingerprint.as_str(),
            ) {
                snapshots = false;
            }
            if !text::same(self.observations[i].coverage_status.as_str(), "complete") {
                complete = false;
            }
            i = i + 1;
        }
        StabilityReport {
            status: provider_stability_status(documents, snapshots, complete),
            document_sets_equal: documents,
            semantic_snapshots_equal: snapshots,
            all_runs_coverage_complete: complete,
            divergent_document_sample: order::sorted_set(&sample),
        }
    }
}

// ---------------------------------------------------------------------------
// Recording what they come to
// ---------------------------------------------------------------------------

/// What is recorded of a comparison.
#[derive(Debug, Clone, PartialEq, Eq)]
pub struct QualificationEntry {
    pub status: &'static str,
    pub runs: u64,
    pub binding: RunBinding,
    pub source_fingerprint: String,
    pub evidence_sha256: String,
}

/// Why nothing is recorded of a comparison.
pub open spec fn entry_refusal(runs: Seq<ObservationView>) -> Option<ErrorView> {
    if runs.len() == 0 {
        Some(ErrorView::Provider("稳定性验证没有产生 Provider 绑定证据"@))
    } else {
        None
    }
}

/// What is recorded of a comparison: how it ended and what was compared, bound
/// to the observations as they are written down.
pub open spec fn entered(
    entry: QualificationEntry,
    status: Seq<char>,
    runs: u8,
    seen: Seq<ObservationView>,
    evidence_manifest: Seq<u8>,
) -> bool {
    &&& entry.status@ == status
    &&& entry.runs == runs
    &&& entry.binding@ == seen[0].binding
    &&& entry.source_fingerprint@ == seen[0].source
    &&& entry.evidence_sha256@ == digest::marked_sha256(evidence_manifest)
}

impl StabilityRun {
    /// What is recorded of a comparison.
    pub fn qualification_entry(
        &self,
        status: &'static str,
        runs: u8,
        evidence_manifest: &Vec<u8>,
    ) -> (r: Result<QualificationEntry, AppError>)
        ensures
            error::follows(r, entry_refusal(self@)),
            r matches Ok(entry) ==> entered(
                entry,
                status@,
                runs,
                self@,
                evidence_manifest@,
            ),
    {
        if self.observations.len() == 0 {
            return Err(
                AppError::Provider("稳定性验证没有产生 Provider 绑定证据".to_owned()),
            );
        }
        let first = &self.observations[0];
        assert(self@[0] == first@);
        Ok(
            QualificationEntry {
                status,
                runs: runs as u64,
                binding: RunBinding {
                    registration_id: first.binding.registration_id.clone(),
                    registration_revision: first.binding.registration_revision,
                    executable_sha256: first.binding.executable_sha256.clone(),
                },
                source_fingerprint: first.source_fingerprint.clone(),
                evidence_sha256: digest::marked_hash(evidence_manifest.as_slice()),
            },
        )
    }
}

/// What a comparison means for its user.
pub open spec fn verdict_refusal(status: Seq<char>) -> Option<ErrorView> {
    if status == "stable_complete"@ {
        None
    } else {
        Some(
            ErrorView::Provider(
                "Provider 稳定性验证未通过：status="@ + status
                    + "；未提交 semantic snapshot"@,
            ),
        )
    }
}

/// What a comparison means for its user.
pub fn stability_verdict(status: &str) -> (r: Result<(), AppError>)
    ensures
        error::follows(r, verdict_refusal(status@)),
{
    if text::same(status, "stable_complete") {
        return Ok(());
    }
    Err(
        AppError::Provider(
            text::cat3(
                "Provider 稳定性验证未通过：status=",
                status,
                "；未提交 semantic snapshot",
            ),
        ),
    )
}

// ---------------------------------------------------------------------------
// What a recorded comparison allows
// ---------------------------------------------------------------------------

/// The latest comparison that is recorded of a provider.
#[derive(Debug, Clone, PartialEq, Eq)]
pub struct ProviderQualification {
    pub status: String,
    pub binding: RunBinding,
}

/// Why a snapshot of a run is not stored.
pub open spec fn commit_refusal(
    profile: Seq<char>,
    latest: Option<ProviderQualification>,
    run: BindingView,
) -> Option<ErrorView> {
    match latest {
        None => None,
        Some(q) => if q.status@ != "stable_complete"@ {
            Some(
                ErrorView::Provider(
                    "Provider profile="@ + profile + " 最新稳定性资格为 "@ + q.status@
                        + "；普通 index 不得用一次偶然输出覆盖，必须显式 verify-stability"@,
                ),
            )
        } else if q.binding@ != run {
            Some(
                ErrorView::Provider(
                    "Provider profile="@ + profile
                        + " 的 stable_complete 资格已因机器绑定或 executable 漂移而过期；必须重新 verify-stability"@,
                ),
            )
        } else {
            None
        },
    }
}

/// Whether a snapshot of a run may be stored, given the latest comparison.
pub fn provider_commit_qualification(
    profile: &str,
    latest: &Option<ProviderQualification>,
    run: &RunBinding,
) -> (r: Result<(), AppError>)
    ensures
        error::follows(r, commit_refusal(profile@, *latest, run@)),
{
    match latest {
        None => Ok(()),
        Some(q) => {
            if !text::same(q.status.as_str(), "stable_complete") {
                return Err(
                    AppError::Provider(
                        text::cat5(
                            "Provider profile=",
                            profile,
                            " 最新稳定性资格为 ",
                            q.status.as_str(),
                            "；普通 index 不得用一次偶然输出覆盖，必须显式 verify-stability",
                        ),
                    ),
                );
            }
            if !q.binding.agrees(run) {
                return Err(
                    AppError::Provider(
                        text::cat3(
                            "Provider profile=",
                            profile,
                            " 的 stable_complete 资格已因机器绑定或 executable 漂移而过期；必须重新 verify-stability",
                        ),
                    ),
                );
            }
            Ok(())
        },
    }
}

/// The machine's binding now is the one of a comparison.
pub open spec fn still_bound(status: ProviderTrustStatus, binding: BindingView) -> bool {
    &&& status.ready
    &&& model::opt_view(status.registration_id) == Some(binding.registration_id)
    &&& status.registration_revision == Some(binding.registration_revision)
    &&& model::opt_view(status.executable_sha256) == Some(binding.executable_sha256)
}

fn is_text(value: &Option<String>, wanted: &str) -> (r: bool)
    ensures
        r == (model::opt_view(*value) == Some(wanted@)),
{
    match value {
        Some(value) => text::same(value.as_str(), wanted),
        None => false,
    }
}

/// Why a provider is not asked at all.
pub open spec fn preflight_refusal(
    profile: Seq<char>,
    latest: Option<ProviderQualification>,
    trust: Seq<ProviderTrustStatus>,
) -> Option<ErrorView> {
    match latest {
        None => None,
        Some(q) => if q.status@ != "stable_complete"@ {
            Some(
                ErrorView::Provider(
                    "Provider profile="@ + profile + " 最新稳定性资格为 "@ + q.status@
                        + "；在启动昂贵索引前拒绝，必须显式 verify-stability"@,
                ),
            )
        } else {
            match symbols::status_of(trust, profile) {
                None => Some(
                    ErrorView::Provider(
                        "找不到 Provider profile="@ + profile + " 的机器绑定状态"@,
                    ),
                ),
                Some(status) => if still_bound(status, q.binding@) {
                    None
                } else {
                    Some(
                        ErrorView::Provider(
                            "Provider profile="@ + profile
                                + " 的 stable_complete 资格已过期；必须重新 verify-stability"@,
                        ),
                    )
                },
            }
        },
    }
}

/// Whether a provider is asked, given the latest comparison and the machine's
/// bindings now.
pub fn ensure_provider_preflight_qualification(
    profile: &str,
    latest: &Option<ProviderQualification>,
    trust: &Vec<ProviderTrustStatus>,
) -> (r: Result<(), AppError>)
    ensures
        error::follows(r, preflight_refusal(profile@, *latest, trust@)),
{
    let q = match latest {
        None => {
            return Ok(());
        },
        Some(q) => q,
    };
    if !text::same(q.status.as_str(), "stable_complete") {
        return Err(
            AppError::Provider(
                text::cat5(
                    "Provider profile=",
                    profile,
                    " 最新稳定性资格为 ",
                    q.status.as_str(),
                    "；在启动昂贵索引前拒绝，必须显式 verify-stability",
                ),
            ),
        );
    }
    match symbols::find_status(trust, profile) {
        None => Err(
            AppError::Provider(
                text::cat3("找不到 Provider profile=", profile, " 的机器绑定状态"),
            ),
        ),
        Some(status) => {
            let same_revision = match status.registration_revision {
                Some(revision) => revision == q.binding.registration_revision,
                None => false,
            };
            if status.ready && is_text(
                &status.registration_id,
                q.binding.registration_id.as_str(),
            ) && same_revision && is_text(
                &status.executable_sha256,
                q.binding.executable_sha256.as_str(),
            ) {
                return Ok(());
            }
            Err(
                AppError::Provider(
                    text::cat3(
                        "Provider profile=",
                        profile,
                        " 的 stable_complete 资格已过期；必须重新 verify-stability",
                    ),
                ),
            )
        },
    }
}

// ---------------------------------------------------------------------------
// What holds of every comparison
// ---------------------------------------------------------------------------

proof fn status_names_differ()
    ensures
        "nondeterministic"@ != "stable_complete"@,
        "stable_incomplete"@ != "stable_complete"@,
{
    reveal_strlit("nondeterministic");
    reveal_strlit("stable_incomplete");
    reveal_strlit("stable_complete");
    assert("nondeterministic"@[0] != "stable_complete"@[0]);
    assert("stable_incomplete"@.len() != "stable_complete"@.len());
}

/// A comparison passes exactly where every run found the same documents, made
/// the same snapshot and covered everything.
pub proof fn passing_means_every_run_agrees(runs: Seq<ObservationView>)
    ensures
        verdict_refusal(
            status_name(same_documents(runs), same_snapshots(runs), all_complete(runs)),
        ) is None <==> same_documents(runs) && same_snapshots(runs) && all_complete(runs),
{
    status_names_differ();
}

/// Where every run found the same documents no document is named as divergent,
/// and any document that is named was found by some runs only.
pub proof fn named_documents_diverge(runs: Seq<ObservationView>, document: Seq<char>)
    requires
        order::sorted_set_of(samples(runs, runs.len())).contains(document),
    ensures
        exists|i: int|
            0 <= i < runs.len() && (#[trigger] runs[i]).documents.contains(document)
                != runs[0].documents.contains(document),
        !same_documents(runs),
{
    order::sorted_set_keeps_members(samples(runs, runs.len()));
    sampled_documents_diverge(runs, runs.len(), document);
}

proof fn sampled_documents_diverge(runs: Seq<ObservationView>, n: nat, document: Seq<char>)
    requires
        n <= runs.len(),
        samples(runs, n).contains(document),
    ensures
        exists|i: int|
            0 <= i < runs.len() && (#[trigger] runs[i]).documents.contains(document)
                != runs[0].documents.contains(document),
    decreases n,
{
    let a = runs[0].documents;
    let b = runs[n - 1].documents;
    let before = samples(runs, (n - 1) as nat);
    let more = difference_sample(a, b);
    joined_members(before, more, document);
    if before.contains(document) {
        sampled_documents_diverge(runs, (n - 1) as nat, document);
    } else {
        let h = |x: Seq<char>| a.contains(x) != b.contains(x);
        let whole = (a + b).filter(h);
        order::sorted_set_keeps_members(whole);
        let k = choose|k: int| 0 <= k < more.len() && more[k] == document;
        assert(difference(a, b)[k] == document);
        assert(difference(a, b).contains(document));
        filtered_members(a + b, h, document);
        assert(runs[n - 1].documents.contains(document) != a.contains(document));
    }
}

/// A snapshot is stored only with the binding of the latest comparison, where
/// there is one, and only where that comparison passed.
pub proof fn only_qualified_runs_are_stored(
    profile: Seq<char>,
    latest: ProviderQualification,
    run: BindingView,
)
    requires
        commit_refusal(profile, Some(latest), run) is None,
    ensures
        latest.status@ == "stable_complete"@,
        latest.binding@ == run,
        verdict_refusal(latest.status@) is None,
{
}

/// A run is compared with those before it exactly where it saw the same source
/// and ran the same program.
pub proof fn only_like_runs_are_compared(runs: Seq<ObservationView>, next: ObservationView)
    ensures
        comparison_refusal(runs, next) is None <==> runs.len() > 0 ==> next.source
            == runs[0].source && next.binding == runs[0].binding,
{
}

/// Two lists of documents differ in exactly the documents that one of them holds
/// and the other does not.
pub proof fn differing_documents_are_all_named(
    a: Seq<Seq<char>>,
    b: Seq<Seq<char>>,
    document: Seq<char>,
)
    ensures
        difference(a, b).contains(document) <==> a.contains(document) != b.contains(document),
        difference(a, b).len() <= 200 ==> difference_sample(a, b) == difference(a, b),
        difference_sample(a, b).len() <= 200,
        difference(a, b).take(difference_sample(a, b).len() as int) == difference_sample(a, b),
{
    let odd = |x: Seq<char>| a.contains(x) != b.contains(x);
    let both = a + b;
    let v = both.filter(odd);
    broadcast use vstd::seq_lib::group_filter_ensures;

    order::sorted_set_keeps_members(v);
    if v.contains(document) {
        let k = choose|k: int| 0 <= k < v.len() && v[k] == document;
        assert(odd(v[k]));
    }
    if odd(document) {
        if a.contains(document) {
            let k = choose|k: int| 0 <= k < a.len() && a[k] == document;
            assert(both[k] == document);
        } else {
            let k = choose|k: int| 0 <= k < b.len() && b[k] == document;
            assert(both[a.len() + k] == document);
        }
    }
    assert(difference(a, b).take(difference_sample(a, b).len() as int) =~= difference_sample(a, b));
}

/// An index is made where no verdict on the provider is recorded, or where the
/// latest one is that it is stable and complete and the provider is still the
/// one that it was passed on; and its result is stored on the same terms.
pub proof fn only_stable_providers_index(
    profile: Seq<char>,
    q: ProviderQualification,
    trust: Seq<ProviderTrustStatus>,
    run: BindingView,
)
    ensures
        preflight_refusal(profile, None, trust) is None,
        commit_refusal(profile, None, run) is None,
        commit_refusal(profile, Some(q), run) is None <==> q.status@ == "stable_complete"@
            && q.binding@ == run,
        preflight_refusal(profile, Some(q), trust) is None <==> {
            &&& q.status@ == "stable_complete"@
            &&& symbols::status_of(trust, profile) is Some
            &&& ({
                let s = symbols::status_of(trust, profile)->0;
                &&& s.ready
                &&& s.registration_id is Some && s.registration_id->0@
                    == q.binding@.registration_id
                &&& s.registration_revision == Some(q.binding@.registration_revision)
                &&& s.executable_sha256 is Some && s.executable_sha256->0@
                    == q.binding@.executable_sha256
            })
        },
{
}

} // verus!
