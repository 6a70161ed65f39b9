//! Keeping what a build left behind: every file goes into the store under its
//! hash, the bundle is described once, and all of it is read back before a
//! receipt is given.
use crate::artifact_store::{
    self, AssemblyBindingAttestation, ObjectFacts, RuntimeArtifactBundle,
    RuntimeArtifactBundleReceipt,
};
use crate::build_evidence::{ArtifactEntry, ArtifactManifest};
use crate::error::{AppError, ErrorView};
use crate::text;
use vstd::prelude::*;

verus! {

broadcast use {vstd::string::group_string_axioms, vstd::seq::group_seq_axioms};

/// A bundle on its way into the store.
#[derive(Debug, PartialEq, Eq)]
pub struct Kept {
    pub bundle: RuntimeArtifactBundle,
    pub fingerprint: String,
    pub canonical: Vec<u8>,
}

/// A bundle as it was read back, with what was found of its files.
#[derive(Debug, PartialEq, Eq)]
pub struct ReadBack {
    pub bundle: RuntimeArtifactBundle,
    pub plain: Vec<bool>,
    pub facts: Vec<ObjectFacts>,
}

/// What is done next.
#[derive(Debug, PartialEq, Eq)]
pub enum KeepPhase {
    /// Read the settings of the project, where it has any.
    ReadSettings(ArtifactManifest),
    /// Write down the bundle.
    Describe(RuntimeArtifactBundle),
    /// Take the fingerprint of its description.
    Name(RuntimeArtifactBundle, Vec<u8>),
    /// Look at the file of an entry.
    LookAtFile(Kept, usize),
    /// Look for the object of an entry.
    LookForObject(Kept, usize),
    /// Copy the file of an entry into the store.
    CopyObject(Kept, usize),
    /// Look for the description of the bundle.
    LookForDescription(Kept),
    /// Write it into the store.
    WriteDescription(Kept),
    /// Take the fingerprint of the description in the store.
    NameAgain(Kept),
    /// Read the bundle back.
    ReadAgain(Kept),
    /// The bundle is kept.
    Done(RuntimeArtifactBundleReceipt),
    /// It is not.
    Failed(AppError),
}

/// What came of it.
#[derive(Debug, PartialEq, Eq)]
pub enum KeepReply {
    Settings(Result<Option<String>, AppError>),
    Document(Result<Vec<u8>, AppError>),
    Fingerprint(Result<String, AppError>),
    /// Whether the path of an entry is relative and made of names alone, what
    /// was found of its file, and how the file is shown.
    File(bool, Result<ObjectFacts, AppError>, String),
    Object(Result<Option<ObjectFacts>, AppError>),
    /// How long the stored copy is, and its hash.
    Copied(Result<(u64, String), AppError>),
    /// The description in the store, and how its path is shown.
    Found(Result<Option<Vec<u8>>, AppError>, String),
    Written(Result<Vec<u8>, AppError>),
    Again(Result<ReadBack, AppError>),
}

/// Keeping what a build left behind.
#[derive(Debug, PartialEq, Eq)]
pub struct KeepRun {
    pub project_key: String,
    pub build_provider_id: String,
    pub source_fingerprint: String,
    pub phase: KeepPhase,
}

/// It is over for a reason.
pub open spec fn over(after: KeepPhase, reason: ErrorView) -> bool {
    after matches KeepPhase::Failed(e) && e@ == reason
}

/// What is done with an entry, or after the last of them.
pub open spec fn at_entry(kept: Kept, i: int, after: KeepPhase) -> bool {
    if i < kept.bundle.entries@.len() {
        after matches KeepPhase::LookAtFile(k, j) && k == kept && j == i
    } else {
        after == KeepPhase::LookForDescription(kept)
    }
}

/// What is done once the description is in the store.
pub open spec fn described(kept: Kept, after: KeepPhase) -> bool {
    match artifact_store::bundle_refusal(kept.fingerprint@) {
        Some(e) => over(after, e),
        None => after == KeepPhase::NameAgain(kept),
    }
}

/// Why a bundle that was read back is not believed.
pub open spec fn again_refusal(again: ReadBack) -> Option<ErrorView> {
    let n = again.bundle.entries@.len();
    if again.plain@.len() != n || again.facts@.len() != n {
        Some(ErrorView::UnexpectedReply)
    } else {
        match artifact_store::manifest_refusal(again.bundle) {
            Some(e) => Some(e),
            None => artifact_store::entries_refusal(
                again.bundle.entries@,
                again.plain@,
                again.facts@,
                n,
            ),
        }
    }
}

/// A receipt is the one of a bundle.
pub open spec fn receipt_told(r: RuntimeArtifactBundleReceipt, kept: Kept) -> bool {
    &&& r.bundle_fingerprint@ == kept.fingerprint@
    &&& r.artifact_manifest_fingerprint == kept.bundle.artifact_manifest_fingerprint
    &&& r.file_count == kept.bundle.entries@.len()
    &&& r.total_bytes == kept.bundle.total_bytes
    &&& r.assembly_binding == kept.bundle.assembly_binding
    &&& r.canonical_manifest == kept.canonical
}

/// A bundle is the one of a manifest.
pub open spec fn bundle_told(
    b: RuntimeArtifactBundle,
    run: KeepRun,
    manifest: ArtifactManifest,
) -> bool {
    &&& b.schema_version == artifact_store::STORE_SCHEMA_VERSION
    &&& b.project_key@ == run.project_key@
    &&& b.build_provider_id@ == run.build_provider_id@
    &&& b.source_fingerprint@ == run.source_fingerprint@
    &&& b.artifact_manifest_fingerprint == manifest.manifest_fingerprint
    &&& b.total_bytes == manifest.total_bytes
    &&& b.entries == manifest.entries
}

/// What can be done once something came of what was done.
pub open spec fn follows(before: KeepRun, reply: KeepReply, after: KeepPhase) -> bool {
    match (before.phase, reply) {
        (KeepPhase::ReadSettings(manifest), KeepReply::Settings(read)) => match read {
            Err(e) => over(after, e@),
            Ok(None) => after matches KeepPhase::Describe(b) && bundle_told(b, before, manifest)
                && b.assembly_binding is None,
            Ok(Some(settings)) => match artifact_store::assembly_refusal(
                artifact_store::assembly_name_of(settings@),
                manifest.entries@,
            ) {
                Some(e) => over(after, e),
                None => after matches KeepPhase::Describe(b) && bundle_told(b, before, manifest)
                    && binding_told(b.assembly_binding, settings@, manifest.entries@),
            },
        },
        (KeepPhase::Describe(bundle), KeepReply::Document(written)) => match written {
            Err(e) => over(after, e@),
            Ok(document) => after matches KeepPhase::Name(b, canonical) && b == bundle
                && canonical@ == document@.push(10u8),
        },
        (KeepPhase::Name(bundle, canonical), KeepReply::Fingerprint(named)) => match named {
            Err(e) => over(after, e@),
            Ok(fingerprint) => at_entry(Kept { bundle, fingerprint, canonical }, 0, after),
        },
        (KeepPhase::LookAtFile(kept, i), KeepReply::File(plain, found, shown)) => if i
            < kept.bundle.entries@.len() {
            let entry = kept.bundle.entries@[i as int];
            match artifact_store::relative_refusal(entry.relative_path@, plain) {
                Some(e) => over(after, e),
                None => match found {
                    Err(e) => over(after, e@),
                    Ok(facts) => match artifact_store::source_refusal(entry, facts, shown@) {
                        Some(e) => over(after, e),
                        None => match artifact_store::object_refusal(entry.sha256@) {
                            Some(e) => over(after, e),
                            None => after == KeepPhase::LookForObject(kept, i),
                        },
                    },
                },
            }
        } else {
            over(after, ErrorView::UnexpectedReply)
        },
        (KeepPhase::LookForObject(kept, i), KeepReply::Object(found)) => if i
            < kept.bundle.entries@.len() {
            let entry = kept.bundle.entries@[i as int];
            match found {
                Err(e) => over(after, e@),
                Ok(None) => after == KeepPhase::CopyObject(kept, i),
                Ok(Some(facts)) => if artifact_store::holds(entry, facts) {
                    at_entry(kept, i + 1, after)
                } else {
                    over(
                        after,
                        ErrorView::Provider(
                            "CAS 中已存在同名但内容不匹配的 object："@ + entry.sha256@,
                        ),
                    )
                },
            }
        } else {
            over(after, ErrorView::UnexpectedReply)
        },
        (KeepPhase::CopyObject(kept, i), KeepReply::Copied(copied)) => if i
            < kept.bundle.entries@.len() {
            let entry = kept.bundle.entries@[i as int];
            match copied {
                Err(e) => over(after, e@),
                Ok(copy) => if copy.0 == entry.size && copy.1@ == entry.sha256@ {
                    at_entry(kept, i + 1, after)
                } else {
                    over(
                        after,
                        ErrorView::Provider(
                            "CAS object 原子提交后的内容校验失败："@ + entry.sha256@,
                        ),
                    )
                },
            }
        } else {
            over(after, ErrorView::UnexpectedReply)
        },
        (KeepPhase::LookForDescription(kept), KeepReply::Found(found, shown)) => match found {
            Err(e) => over(after, e@),
            Ok(None) => after == KeepPhase::WriteDescription(kept),
            Ok(Some(bytes)) => if bytes@ == kept.canonical@ {
                described(kept, after)
            } else {
                over(
                    after,
                    ErrorView::Provider(
                        "CAS 中已存在同 fingerprint 但内容不同的 manifest："@ + shown@,
                    ),
                )
            },
        },
        (KeepPhase::WriteDescription(kept), KeepReply::Written(written)) => match written {
            Err(e) => over(after, e@),
            Ok(bytes) => if bytes@ == kept.canonical@ {
                described(kept, after)
            } else {
                over(after, ErrorView::Provider("CAS manifest 原子提交后的内容校验失败"@))
            },
        },
        (KeepPhase::NameAgain(kept), KeepReply::Fingerprint(named)) => match named {
            Err(e) => over(after, e@),
            Ok(now) => if now@ == kept.fingerprint@ {
                after == KeepPhase::ReadAgain(kept)
            } else {
                over(
                    after,
                    ErrorView::Provider("Runtime bundle manifest 内容哈希不匹配，CAS 已损坏"@),
                )
            },
        },
        (KeepPhase::ReadAgain(kept), KeepReply::Again(read)) => match read {
            Err(e) => over(after, e@),
            Ok(again) => match again_refusal(again) {
                Some(e) => over(after, e),
                None => after matches KeepPhase::Done(receipt) && receipt_told(receipt, kept),
            },
        },
        (KeepPhase::Done(receipt), _) => after == KeepPhase::Done(receipt),
        (KeepPhase::Failed(e), _) => after == KeepPhase::Failed(e),
        _ => over(after, ErrorView::UnexpectedReply),
    }
}

/// A binding names the assembly that the settings declare.
pub open spec fn binding_told(
    binding: Option<AssemblyBindingAttestation>,
    settings: Seq<char>,
    entries: Seq<ArtifactEntry>,
) -> bool {
    binding matches Some(a) && {
        let entry = artifact_store::entry_named(entries, a.assembly_name@ + ".dll"@);
        &&& entry is Some
        &&& Some(a.assembly_name@) == artifact_store::assembly_name_of(settings)
        &&& a.relative_path == entry->0.relative_path
        &&& a.sha256 == entry->0.sha256
    }
}

fn go_on(kept: Kept, i: usize) -> (r: KeepPhase)
    ensures
        at_entry(kept, i as int, r),
{
    if i < kept.bundle.entries.len() {
        KeepPhase::LookAtFile(kept, i)
    } else {
        KeepPhase::LookForDescription(kept)
    }
}

fn take_described(kept: Kept) -> (r: KeepPhase)
    ensures
        described(kept, r),
{
    match artifact_store::validate_fingerprint(kept.fingerprint.as_str()) {
        Err(e) => KeepPhase::Failed(e),
        Ok(()) => KeepPhase::NameAgain(kept),
    }
}

fn take_file(
    kept: Kept,
    i: usize,
    plain: bool,
    found: Result<ObjectFacts, AppError>,
    shown: &str,
) -> (r: KeepPhase)
    requires
        i < kept.bundle.entries@.len(),
    ensures
        ({
            let entry = kept.bundle.entries@[i as int];
            match artifact_store::relative_refusal(entry.relative_path@, plain) {
                Some(e) => over(r, e),
                None => match found {
                    Err(e) => over(r, e@),
                    Ok(facts) => match artifact_store::source_refusal(entry, facts, shown@) {
                        Some(e) => over(r, e),
                        None => match artifact_store::object_refusal(entry.sha256@) {
                            Some(e) => over(r, e),
                            None => r == KeepPhase::LookForObject(kept, i),
                        },
                    },
                },
            }
        }),
{
    let entry = &kept.bundle.entries[i];
    match artifact_store::validate_relative_path(entry.relative_path.as_str(), plain) {
        Err(e) => {
            return KeepPhase::Failed(e);
        },
        Ok(()) => {},
    }
    let facts = match found {
        Err(e) => {
            return KeepPhase::Failed(e);
        },
        Ok(facts) => facts,
    };
    match artifact_store::check_source(entry, &facts, shown) {
        Err(e) => {
            return KeepPhase::Failed(e);
        },
        Ok(()) => {},
    }
    match artifact_store::validate_sha256(entry.sha256.as_str()) {
        Err(e) => KeepPhase::Failed(e),
        Ok(()) => KeepPhase::LookForObject(kept, i),
    }
}

fn take_again(kept: Kept, again: ReadBack) -> (r: KeepPhase)
    ensures
        match again_refusal(again) {
            Some(e) => over(r, e),
            None => r matches KeepPhase::Done(receipt) && receipt_told(receipt, kept),
        },
{
    let n: usize = again.bundle.entries.len();
    if again.plain.len() != n || again.facts.len() != n {
        return KeepPhase::Failed(AppError::UnexpectedReply);
    }
    match artifact_store::verify_bundle(&again.bundle, &again.plain, &again.facts) {
        Err(e) => KeepPhase::Failed(e),
        Ok(()) => {
            let Kept { bundle, fingerprint, canonical } = kept;
            KeepPhase::Done(artifact_store::receipt(bundle, fingerprint.as_str(), canonical))
        },
    }
}

impl KeepRun {
    /// Begins with the settings of the project.
    pub fn new(
        project_key: String,
        build_provider_id: String,
        source_fingerprint: String,
        manifest: ArtifactManifest,
    ) -> (r: Self)
        ensures
            r.project_key == project_key,
            r.build_provider_id == build_provider_id,
            r.source_fingerprint == source_fingerprint,
            r.phase == KeepPhase::ReadSettings(manifest),
    {
        KeepRun {
            project_key,
            build_provider_id,
            source_fingerprint,
            phase: KeepPhase::ReadSettings(manifest),
        }
    }

    /// Goes on with what came of what was done.
    pub fn step(self, reply: KeepReply) -> (r: Self)
        ensures
            r.project_key == self.project_key,
            r.build_provider_id == self.build_provider_id,
            r.source_fingerprint == self.source_fingerprint,
            follows(self, reply, r.phase),
    {
        let KeepRun { project_key, build_provider_id, source_fingerprint, phase } = self;
        let phase = match (phase, reply) {
            (KeepPhase::ReadSettings(manifest), KeepReply::Settings(read)) => match read {
                Err(e) => KeepPhase::Failed(e),
                Ok(settings) => match artifact_store::assembly_binding(
                    &settings,
                    &manifest.entries,
                ) {
                    Err(e) => KeepPhase::Failed(e),
                    Ok(binding) => KeepPhase::Describe(
                        artifact_store::new_bundle(
                            project_key.as_str(),
                            build_provider_id.as_str(),
                            source_fingerprint.as_str(),
                            manifest,
                            binding,
                        ),
                    ),
                },
            },
            (KeepPhase::Describe(bundle), KeepReply::Document(written)) => match written {
                Err(e) => KeepPhase::Failed(e),
                Ok(document) => KeepPhase::Name(bundle, artifact_store::canonical_json(document)),
            },
            (KeepPhase::Name(bundle, canonical), KeepReply::Fingerprint(named)) => match named {
                Err(e) => KeepPhase::Failed(e),
                Ok(fingerprint) => go_on(Kept { bundle, fingerprint, canonical }, 0),
            },
            (KeepPhase::LookAtFile(kept, i), KeepReply::File(plain, found, shown)) => if i
                < kept.bundle.entries.len() {
                take_file(kept, i, plain, found, shown.as_str())
            } else {
                KeepPhase::Failed(AppError::UnexpectedReply)
            },
            (KeepPhase::LookForObject(kept, i), KeepReply::Object(found)) => if i
                < kept.bundle.entries.len() {
                match found {
                    Err(e) => KeepPhase::Failed(e),
                    Ok(None) => KeepPhase::CopyObject(kept, i),
                    Ok(Some(facts)) => match artifact_store::check_existing_object(
                        &kept.bundle.entries[i],
                        &facts,
                    ) {
                        Err(e) => KeepPhase::Failed(e),
                        Ok(()) => go_on(kept, i + 1),
                    },
                }
            } else {
                KeepPhase::Failed(AppError::UnexpectedReply)
            },
            (KeepPhase::CopyObject(kept, i), KeepReply::Copied(copied)) => if i
                < kept.bundle.entries.len() {
                match copied {
                    Err(e) => KeepPhase::Failed(e),
                    Ok(copy) => match artifact_store::check_stored_object(
                        &kept.bundle.entries[i],
                        copy.0,
                        copy.1.as_str(),
                    ) {
                        Err(e) => KeepPhase::Failed(e),
                        Ok(()) => go_on(kept, i + 1),
                    },
                }
            } else {
                KeepPhase::Failed(AppError::UnexpectedReply)
            },
            (KeepPhase::LookForDescription(kept), KeepReply::Found(found, shown)) => match found {
                Err(e) => KeepPhase::Failed(e),
                Ok(None) => KeepPhase::WriteDescription(kept),
                Ok(Some(bytes)) => match artifact_store::check_existing_manifest(
                    &bytes,
                    &kept.canonical,
                    shown.as_str(),
                ) {
                    Err(e) => KeepPhase::Failed(e),
                    Ok(()) => take_described(kept),
                },
            },
            (KeepPhase::WriteDescription(kept), KeepReply::Written(written)) => match written {
                Err(e) => KeepPhase::Failed(e),
                Ok(bytes) => match artifact_store::check_written_manifest(
                    &bytes,
                    &kept.canonical,
                ) {
                    Err(e) => KeepPhase::Failed(e),
                    Ok(()) => take_described(kept),
                },
            },
            (KeepPhase::NameAgain(kept), KeepReply::Fingerprint(named)) => match named {
                Err(e) => KeepPhase::Failed(e),
                Ok(now) => match artifact_store::check_manifest_fingerprint(
                    now.as_str(),
                    kept.fingerprint.as_str(),
                ) {
                    Err(e) => KeepPhase::Failed(e),
                    Ok(()) => KeepPhase::ReadAgain(kept),
                },
            },
            (KeepPhase::ReadAgain(kept), KeepReply::Again(read)) => match read {
                Err(e) => KeepPhase::Failed(e),
                Ok(again) => take_again(kept, again),
            },
            (KeepPhase::Done(receipt), _) => KeepPhase::Done(receipt),
            (KeepPhase::Failed(e), _) => KeepPhase::Failed(e),
            _ => KeepPhase::Failed(AppError::UnexpectedReply),
        };
        KeepRun { project_key, build_provider_id, source_fingerprint, phase }
    }
}

// ---------------------------------------------------------------------------
// What holds whatever comes of it
// ---------------------------------------------------------------------------

/// The object of an entry is in the store: it was found there, or copied, and
/// is what the entry says.
pub open spec fn object_kept(entry: ArtifactEntry, reply: KeepReply) -> bool {
    match reply {
        KeepReply::Object(Ok(Some(facts))) => artifact_store::holds(entry, facts),
        KeepReply::Copied(Ok(copy)) => copy.0 == entry.size && copy.1@ == entry.sha256@,
        _ => false,
    }
}

/// The last entry is the one that is at hand.
pub open spec fn left_last(phase: KeepPhase) -> bool {
    match phase {
        KeepPhase::LookForObject(kept, i) => i + 1 == kept.bundle.entries@.len(),
        KeepPhase::CopyObject(kept, i) => i + 1 == kept.bundle.entries@.len(),
        _ => false,
    }
}

/// An entry is left behind only once its object is in the store as the entry
/// says, and it is copied there only from a file that is what the entry says.
pub proof fn every_object_is_kept(before: KeepRun, reply: KeepReply, after: KeepPhase)
    requires
        follows(before, reply, after),
    ensures
        after is LookAtFile && after->LookAtFile_1 > 0 ==> {
            let kept = after->LookAtFile_0;
            let i = after->LookAtFile_1 - 1;
            i < kept.bundle.entries@.len() ==> object_kept(kept.bundle.entries@[i], reply)
        },
        after is LookForDescription && after->LookForDescription_0.bundle.entries@.len() > 0 ==> {
            let entries = after->LookForDescription_0.bundle.entries@;
            (before.phase is LookForObject || before.phase is CopyObject) && (left_last(
                before.phase,
            ) ==> object_kept(entries.last(), reply))
        },
        after is CopyObject ==> before.phase is LookForObject,
        after is LookForObject ==> before.phase is LookAtFile && reply is File && reply->File_1
            is Ok && artifact_store::holds(
            before.phase->LookAtFile_0.bundle.entries@[before.phase->LookAtFile_1 as int],
            reply->File_1->Ok_0,
        ),
{
}

/// A receipt is given only for a bundle whose description was read back under
/// its fingerprint and whose files were all found as it says.
pub proof fn receipts_are_read_back(before: KeepRun, reply: KeepReply, after: KeepPhase)
    requires
        follows(before, reply, after),
    ensures
        after is Done && !(before.phase is Done) ==> {
            &&& before.phase is ReadAgain && reply is Again && reply->Again_0 is Ok
            &&& again_refusal(reply->Again_0->Ok_0) is None
            &&& receipt_told(after->Done_0, before.phase->ReadAgain_0)
        },
        after is ReadAgain ==> before.phase is NameAgain && reply is Fingerprint
            && reply->Fingerprint_0 is Ok && reply->Fingerprint_0->Ok_0@
            == after->ReadAgain_0.fingerprint@,
        after is NameAgain ==> before.phase is LookForDescription
            || before.phase is WriteDescription,
{
}

/// How far it is to the end.
pub open spec fn distance(phase: KeepPhase) -> int {
    let left = |kept: Kept, i: usize|
        if i < kept.bundle.entries@.len() {
            kept.bundle.entries@.len() - i
        } else {
            0
        };
    match phase {
        KeepPhase::ReadSettings(manifest) => 9 + 3 * (manifest.entries@.len() as int),
        KeepPhase::Describe(bundle) => 8 + 3 * (bundle.entries@.len() as int),
        KeepPhase::Name(bundle, _) => 7 + 3 * (bundle.entries@.len() as int),
        KeepPhase::LookAtFile(kept, i) => 6 + 3 * left(kept, i),
        KeepPhase::LookForObject(kept, i) => 5 + 3 * left(kept, i),
        KeepPhase::CopyObject(kept, i) => 4 + 3 * left(kept, i),
        KeepPhase::LookForDescription(_) => 4,
        KeepPhase::WriteDescription(_) => 3,
        KeepPhase::NameAgain(_) => 2,
        KeepPhase::ReadAgain(_) => 1,
        KeepPhase::Done(_) => 0,
        KeepPhase::Failed(_) => 0,
    }
}

/// Whatever comes of what is done, it ends.
pub proof fn keeping_ends(before: KeepRun, reply: KeepReply, after: KeepPhase)
    requires
        follows(before, reply, after),
    ensures
        0 <= distance(after),
        distance(before.phase) == 0 ==> after == before.phase,
        distance(before.phase) > 0 ==> distance(after) < distance(before.phase),
{
}

/// Whatever goes wrong outside ends the run without a receipt.
pub proof fn outside_errors_end_keeping(before: KeepRun, reply: KeepReply, after: KeepPhase)
    requires
        follows(before, reply, after),
        !(before.phase is Done),
        ({
            ||| reply is Settings && reply->Settings_0 is Err
            ||| reply is Document && reply->Document_0 is Err
            ||| reply is Fingerprint && reply->Fingerprint_0 is Err
            ||| reply is File && reply->File_1 is Err
            ||| reply is Object && reply->Object_0 is Err
            ||| reply is Copied && reply->Copied_0 is Err
            ||| reply is Found && reply->Found_0 is Err
            ||| reply is Written && reply->Written_0 is Err
            ||| reply is Again && reply->Again_0 is Err
        }),
    ensures
        after is Failed,
{
}

/// A bundle holds every entry of the build's manifest, and a receipt tells how
/// many they are and under which fingerprint they are kept.
pub proof fn bundles_hold_the_whole_manifest(
    before: KeepRun,
    reply: KeepReply,
    after: KeepPhase,
)
    requires
        follows(before, reply, after),
    ensures
        before.phase is ReadSettings && after is Describe ==> {
            let b = after->Describe_0;
            let manifest = before.phase->ReadSettings_0;
            &&& b.entries == manifest.entries && b.total_bytes == manifest.total_bytes
            &&& b.artifact_manifest_fingerprint == manifest.manifest_fingerprint
            &&& b.project_key@ == before.project_key@
            &&& b.source_fingerprint@ == before.source_fingerprint@
        },
        before.phase is ReadAgain && after is Done ==> {
            let r = after->Done_0;
            let kept = before.phase->ReadAgain_0;
            &&& r.bundle_fingerprint@ == kept.fingerprint@
            &&& r.file_count == kept.bundle.entries@.len()
            &&& r.total_bytes == kept.bundle.total_bytes
            &&& r.assembly_binding == kept.bundle.assembly_binding
        },
        before.phase is LookAtFile && reply is File && before.phase->LookAtFile_1
            < before.phase->LookAtFile_0.bundle.entries@.len() && after is LookForObject ==> {
            let e =
                before.phase->LookAtFile_0.bundle.entries@[before.phase->LookAtFile_1 as int];
            &&& reply->File_0 && reply->File_1 is Ok
            &&& reply->File_1->Ok_0.regular && reply->File_1->Ok_0.inside
            &&& reply->File_1->Ok_0.len == e.size && reply->File_1->Ok_0.sha256@ == e.sha256@
            &&& after == KeepPhase::LookForObject(
                before.phase->LookAtFile_0,
                before.phase->LookAtFile_1,
            )
        },
{
}

} // verus!
