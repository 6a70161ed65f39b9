//! Evidence providers: programs of the user's that bring evidence. Which of
//! them are bound to a project, and what is taken from what they say.
use crate::digest;
use crate::error::{self, AppError, ErrorView};
use crate::evidence_inputs::{InputManifestEntry, InputPathState};
use crate::execution::ProcessResult;
use crate::json;
use crate::model::{self, EvidenceAuthority, EvidencePlane, FindingAuthority, FindingSeverity};
use crate::sorting::{self, Named};
use crate::text;
use vstd::prelude::*;

verus! {

broadcast use {vstd::string::group_string_axioms, vstd::seq::group_seq_axioms};

pub const REGISTRY_SCHEMA_VERSION: u32 = 1;

/// The largest contract or configuration that is read.
pub const MAX_CONFIG_BYTES: u64 = 1048576;

// ---------------------------------------------------------------------------
// Bindings
// ---------------------------------------------------------------------------

/// What a provider says of itself; `document` is all of it as canonical JSON.
#[derive(Debug, Clone, PartialEq, Eq)]
pub struct EvidenceDescriptor {
    pub provider_id: String,
    pub provider_version: String,
    pub provider_contract_version: u32,
    pub capabilities: Vec<EvidencePlane>,
    pub document: String,
}

/// What a provider says of itself.
pub struct DescriptorView {
    pub provider_id: Seq<char>,
    pub provider_version: Seq<char>,
    pub provider_contract_version: u32,
    pub capabilities: Seq<EvidencePlane>,
    pub document: Seq<char>,
}

impl View for EvidenceDescriptor {
    type V = DescriptorView;

    open spec fn view(&self) -> DescriptorView {
        DescriptorView {
            provider_id: self.provider_id@,
            provider_version: self.provider_version@,
            provider_contract_version: self.provider_contract_version,
            capabilities: self.capabilities@,
            document: self.document@,
        }
    }
}

#[derive(Debug, Clone, PartialEq, Eq)]
pub struct ExecutableIdentity {
    pub path: String,
    pub sha256: String,
}

/// A provider that is bound to a project under a profile.
#[derive(Debug, Clone, PartialEq, Eq)]
pub struct EvidenceProviderBinding {
    pub project_key: String,
    pub profile_id: String,
    pub descriptor: EvidenceDescriptor,
    pub descriptor_hash: String,
    pub executable: ExecutableIdentity,
    pub authority_ceiling: EvidenceAuthority,
    pub registration_id: String,
    pub revision: u64,
}

impl Named for EvidenceProviderBinding {
    open spec fn first_name(&self) -> Seq<char> {
        self.project_key@
    }

    open spec fn second_name(&self) -> Seq<char> {
        self.profile_id@
    }

    fn first_name_text(&self) -> &str {
        self.project_key.as_str()
    }

    fn second_name_text(&self) -> &str {
        self.profile_id.as_str()
    }
}

#[derive(Debug, Clone, PartialEq, Eq)]
pub struct EvidenceProviderRegistry {
    pub schema_version: u32,
    pub bindings: Vec<EvidenceProviderBinding>,
}

#[derive(Debug, Clone, PartialEq, Eq)]
pub struct BindReport {
    pub schema_version: u32,
    pub project_key: String,
    pub profile_id: String,
    pub descriptor: EvidenceDescriptor,
    pub descriptor_hash: String,
    pub executable: String,
    pub executable_sha256: String,
    pub authority_ceiling: EvidenceAuthority,
    pub registration_id: String,
    pub revision: u64,
    pub changed: bool,
}

#[derive(Debug, Clone, PartialEq, Eq)]
pub struct UnbindReport {
    pub schema_version: u32,
    pub project_key: String,
    pub profile_id: String,
    pub changed: bool,
}

#[derive(Debug, Clone, PartialEq, Eq)]
pub struct ListReport {
    pub schema_version: u32,
    pub project_key: String,
    pub bindings: Vec<BindingStatus>,
}

#[derive(Debug, Clone, PartialEq, Eq)]
pub struct BindingStatus {
    pub profile_id: String,
    pub provider_id: String,
    pub provider_version: String,
    pub capabilities: Vec<EvidencePlane>,
    pub authority_ceiling: EvidenceAuthority,
    pub executable: String,
    pub state: &'static str,
    pub issue: Option<String>,
}

/// A copy of planes.
fn copy_planes(planes: &Vec<EvidencePlane>) -> (r: Vec<EvidencePlane>)
    ensures
        r@ == planes@,
{
    let mut out: Vec<EvidencePlane> = Vec::new();
    let mut i: usize = 0;
    while i < planes.len()
        invariant
            i <= planes@.len(),
            out@ == planes@.take(i as int),
        decreases planes@.len() - i,
    {
        out.push(planes[i]);
        assert(planes@.take(i + 1) =~= planes@.take(i as int).push(planes@[i as int]));
        i = i + 1;
    }
    assert(planes@.take(planes@.len() as int) =~= planes@);
    out
}

fn copy_descriptor(d: &EvidenceDescriptor) -> (r: EvidenceDescriptor)
    ensures
        r@ == d@,
{
    EvidenceDescriptor {
        provider_id: d.provider_id.clone(),
        provider_version: d.provider_version.clone(),
        provider_contract_version: d.provider_contract_version,
        capabilities: copy_planes(&d.capabilities),
        document: d.document.clone(),
    }
}

fn same_planes(a: &Vec<EvidencePlane>, b: &Vec<EvidencePlane>) -> (r: bool)
    ensures
        r == (a@ == b@),
{
    if a.len() != b.len() {
        return false;
    }
    let mut i: usize = 0;
    while i < a.len()
        invariant
            i <= a@.len() == b@.len(),
            forall|k: int| 0 <= k < i ==> a@[k] == b@[k],
        decreases a@.len() - i,
    {
        if a[i] != b[i] {
            return false;
        }
        i = i + 1;
    }
    assert(a@ =~= b@);
    true
}

/// Two bindings bind the same thing, whatever their revisions.
pub open spec fn equivalent(a: EvidenceProviderBinding, b: EvidenceProviderBinding) -> bool {
    &&& a.registration_id@ == b.registration_id@
    &&& a.project_key@ == b.project_key@
    &&& a.profile_id@ == b.profile_id@
    &&& a.descriptor@ == b.descriptor@
    &&& a.executable.path@ == b.executable.path@
    &&& a.executable.sha256@ == b.executable.sha256@
    &&& a.authority_ceiling == b.authority_ceiling
}

fn is_equivalent(a: &EvidenceProviderBinding, b: &EvidenceProviderBinding) -> (r: bool)
    ensures
        r == equivalent(*a, *b),
{
    text::same(a.registration_id.as_str(), b.registration_id.as_str()) && text::same(
        a.project_key.as_str(),
        b.project_key.as_str(),
    ) && text::same(a.profile_id.as_str(), b.profile_id.as_str()) && text::same(
        a.descriptor.provider_id.as_str(),
        b.descriptor.provider_id.as_str(),
    ) && text::same(
        a.descriptor.provider_version.as_str(),
        b.descriptor.provider_version.as_str(),
    ) && a.descriptor.provider_contract_version == b.descriptor.provider_contract_version
        && same_planes(&a.descriptor.capabilities, &b.descriptor.capabilities) && text::same(
        a.descriptor.document.as_str(),
        b.descriptor.document.as_str(),
    ) && text::same(a.executable.path.as_str(), b.executable.path.as_str()) && text::same(
        a.executable.sha256.as_str(),
        b.executable.sha256.as_str(),
    ) && a.authority_ceiling == b.authority_ceiling
}

// ---------------------------------------------------------------------------
// Checks before anything is bound
// ---------------------------------------------------------------------------

/// A character of a profile's name.
pub open spec fn profile_char(c: char) -> bool {
    'a' <= c <= 'z' || '0' <= c <= '9' || c == '.' || c == '_' || c == '-'
}

/// The name of a profile.
pub open spec fn profile_name(s: Seq<char>) -> bool {
    0 < s.len() <= 128 && forall|i: int| 0 <= i < s.len() ==> profile_char(#[trigger] s[i])
}

/// Why a name is none of a profile.
pub open spec fn profile_refusal(id: Seq<char>) -> Option<ErrorView> {
    if profile_name(id) {
        None
    } else {
        Some(ErrorView::Provider("Evidence Provider profile ID 格式非法"@))
    }
}

/// Whether a name is one of a profile.
pub fn validate_profile_id(profile_id: &str) -> (r: Result<(), AppError>)
    ensures
        error::follows(r, profile_refusal(profile_id@)),
{
    let chars = text::chars_of(profile_id);
    let mut good = chars.len() > 0 && chars.len() <= 128;
    let mut i: usize = 0;
    while good && i < chars.len()
        invariant
            i <= chars@.len(),
            chars@ == profile_id@,
            good ==> 0 < chars@.len() <= 128 && forall|k: int|
                0 <= k < i ==> profile_char(#[trigger] chars@[k]),
            !good ==> !profile_name(profile_id@),
        decreases chars@.len() - i,
    {
        let c = chars[i];
        if !(('a' <= c && c <= 'z') || ('0' <= c && c <= '9') || c == '.' || c == '_' || c == '-') {
            assert(!profile_char(chars@[i as int]));
            good = false;
        }
        i = i + 1;
    }
    if good {
        return Ok(());
    }
    Err(AppError::Provider("Evidence Provider profile ID 格式非法".to_owned()))
}

/// Why nothing is bound at all.
pub open spec fn bind_refusal(profile_id: Seq<char>, trusted: bool) -> Option<ErrorView> {
    match profile_refusal(profile_id) {
        Some(e) => Some(e),
        None => if trusted {
            None
        } else {
            Some(
                ErrorView::Provider(
                    "绑定 Evidence Provider 需要显式传入 --trust-local-executable"@,
                ),
            )
        },
    }
}

/// Whether a provider may be bound under a profile.
pub fn begin_bind(profile_id: &str, trust_local_executable: bool) -> (r: Result<(), AppError>)
    ensures
        error::follows(r, bind_refusal(profile_id@, trust_local_executable)),
{
    match validate_profile_id(profile_id) {
        Err(e) => {
            return Err(e);
        },
        Ok(()) => {},
    }
    if !trust_local_executable {
        return Err(
            AppError::Provider(
                "绑定 Evidence Provider 需要显式传入 --trust-local-executable".to_owned(),
            ),
        );
    }
    Ok(())
}

/// A process ended well, in time, and all that it wrote is there.
pub open spec fn clean(process: ProcessResult) -> bool {
    process.status.well() && !process.timed_out && !process.stdout.truncated
        && !process.stderr.truncated && process.stdout.bytes@.len() > 0
}

/// Why what a process wrote is not read.
pub open spec fn clean_refusal(process: ProcessResult, operation: Seq<char>) -> Option<ErrorView> {
    if clean(process) {
        None
    } else {
        Some(
            ErrorView::Provider(
                "Evidence Provider "@ + operation + " 未完整成功：exit_code="@ + text::shown_code(
                    process.status.code,
                ),
            ),
        )
    }
}

/// Whether what a process wrote may be read.
pub fn require_clean_success(process: &ProcessResult, operation: &str) -> (r: Result<(), AppError>)
    ensures
        error::follows(r, clean_refusal(*process, operation@)),
{
    if !process.status.success() || process.timed_out || process.stdout.truncated
        || process.stderr.truncated || process.stdout.bytes.len() == 0 {
        let code = text::show_code(process.status.code);
        return Err(
            AppError::Provider(
                text::cat4(
                    "Evidence Provider ",
                    operation,
                    " 未完整成功：exit_code=",
                    code.as_str(),
                ),
            ),
        );
    }
    Ok(())
}

/// Why a program is not the one that was bound.
pub open spec fn executable_refusal(actual: Result<String, String>, expected: Seq<char>) -> Option<
    ErrorView,
> {
    match actual {
        Err(e) => Some(ErrorView::Io(e@)),
        Ok(actual) => if actual@ == expected {
            None
        } else {
            Some(ErrorView::Provider("Evidence Provider executable SHA-256 已漂移"@))
        },
    }
}

/// Whether a program is the one that was bound, given what it hashes to.
pub fn verify_executable(actual: &Result<String, String>, expected: &str) -> (r: Result<
    (),
    AppError,
>)
    ensures
        error::follows(r, executable_refusal(*actual, expected@)),
{
    match actual {
        Err(e) => Err(AppError::Io(e.clone())),
        Ok(actual) => {
            if text::same(actual.as_str(), expected) {
                return Ok(());
            }
            Err(
                AppError::Provider("Evidence Provider executable SHA-256 已漂移".to_owned()),
            )
        },
    }
}

// ---------------------------------------------------------------------------
// Registrations
// ---------------------------------------------------------------------------

/// What a registration stands for, part by part.
pub open spec fn registration_parts(
    project_key: Seq<char>,
    profile_id: Seq<char>,
    descriptor_hash: Seq<char>,
    executable_hash: Seq<char>,
    authority: EvidenceAuthority,
) -> Seq<Seq<char>> {
    seq![
        "project-brain/evidence-provider-registration/v1"@,
        project_key,
        profile_id,
        descriptor_hash,
        executable_hash,
        authority.name(),
    ]
}

/// The name of a registration.
pub open spec fn registration_of(
    project_key: Seq<char>,
    profile_id: Seq<char>,
    descriptor_hash: Seq<char>,
    executable_hash: Seq<char>,
    authority: EvidenceAuthority,
) -> Seq<char> {
    "evidence_provider_"@ + digest::sha256_hex(
        digest::terminated(
            digest::utf8_of(
                registration_parts(
                    project_key,
                    profile_id,
                    descriptor_hash,
                    executable_hash,
                    authority,
                ),
            ),
        ),
    )
}

/// The name of a registration; `authority` is the most that the provider may
/// claim.
pub fn registration_id(
    project_key: &str,
    profile_id: &str,
    descriptor_hash: &str,
    executable_hash: &str,
    authority: EvidenceAuthority,
) -> (r: String)
    ensures
        r@ == registration_of(
            project_key@,
            profile_id@,
            descriptor_hash@,
            executable_hash@,
            authority,
        ),
{
    let parts: Vec<&str> = vec![
        "project-brain/evidence-provider-registration/v1",
        project_key,
        profile_id,
        descriptor_hash,
        executable_hash,
        authority.as_str(),
    ];
    assert(text::str_views(parts@) =~= registration_parts(
        project_key@,
        profile_id@,
        descriptor_hash@,
        executable_hash@,
        authority,
    ));
    let bytes = digest::terminate(&parts);
    let hex = digest::hash_bytes(bytes.as_slice());
    text::cat2("evidence_provider_", hex.as_str())
}

/// What is hashed for a registration tells all of its parts apart, as long as
/// none of them holds a zero byte.
pub proof fn registrations_tell_their_parts(
    a: (Seq<char>, Seq<char>, Seq<char>, Seq<char>, EvidenceAuthority),
    b: (Seq<char>, Seq<char>, Seq<char>, Seq<char>, EvidenceAuthority),
)
    requires
        ({
            let x = digest::utf8_of(registration_parts(a.0, a.1, a.2, a.3, a.4));
            let y = digest::utf8_of(registration_parts(b.0, b.1, b.2, b.3, b.4));
            digest::zero_free(x) && digest::zero_free(y) && digest::terminated(x)
                == digest::terminated(y)
        }),
    ensures
        a == b,
{
    let p = registration_parts(a.0, a.1, a.2, a.3, a.4);
    let q = registration_parts(b.0, b.1, b.2, b.3, b.4);
    digest::terminated_is_injective(digest::utf8_of(p), digest::utf8_of(q));
    assert forall|i: int| 0 <= i < p.len() implies p[i] == q[i] by {
        assert(digest::utf8_of(p)[i] == digest::utf8_of(q)[i]);
        vstd::utf8::encode_utf8_decode_utf8(p[i]);
        vstd::utf8::encode_utf8_decode_utf8(q[i]);
    }
    assert(p[1] == q[1] && p[2] == q[2] && p[3] == q[3] && p[4] == q[4] && p[5] == q[5]);
    reveal_strlit("deterministic");
    reveal_strlit("advisory");
    assert("deterministic"@.len() != "advisory"@.len());
}

/// What is found of a binding: what its descriptor breaks of the protocol, and
/// what its descriptor and its program hash to.
#[derive(Debug, PartialEq, Eq)]
pub struct BindingFacts {
    pub protocol_error: Option<String>,
    pub descriptor_hash: String,
    pub executable_sha256: Result<String, String>,
}

/// Why a binding is not used.
pub open spec fn binding_refusal(b: EvidenceProviderBinding, facts: BindingFacts) -> Option<
    ErrorView,
> {
    match facts.protocol_error {
        Some(e) => Some(ErrorView::Provider(e@)),
        None => if facts.descriptor_hash@ != b.descriptor_hash@ || b.registration_id@
            != registration_of(
            b.project_key@,
            b.profile_id@,
            b.descriptor_hash@,
            b.executable.sha256@,
            b.authority_ceiling,
        ) {
            Some(ErrorView::Provider("Evidence Provider binding identity 已损坏"@))
        } else {
            executable_refusal(facts.executable_sha256, b.executable.sha256@)
        },
    }
}

/// Whether a binding may be used.
pub fn validate_binding(binding: &EvidenceProviderBinding, facts: &BindingFacts) -> (r: Result<
    (),
    AppError,
>)
    ensures
        error::follows(r, binding_refusal(*binding, *facts)),
{
    match &facts.protocol_error {
        Some(e) => {
            return Err(AppError::Provider(e.clone()));
        },
        None => {},
    }
    let id = registration_id(
        binding.project_key.as_str(),
        binding.profile_id.as_str(),
        binding.descriptor_hash.as_str(),
        binding.executable.sha256.as_str(),
        binding.authority_ceiling,
    );
    if !text::same(facts.descriptor_hash.as_str(), binding.descriptor_hash.as_str())
        || !text::same(id.as_str(), binding.registration_id.as_str()) {
        return Err(
            AppError::Provider("Evidence Provider binding identity 已损坏".to_owned()),
        );
    }
    verify_executable(&facts.executable_sha256, binding.executable.sha256.as_str())
}

/// A binding of a provider that described itself.
pub fn new_binding(
    project_key: &str,
    profile_id: &str,
    descriptor: EvidenceDescriptor,
    descriptor_hash: &str,
    executable: ExecutableIdentity,
    authority_ceiling: EvidenceAuthority,
) -> (r: EvidenceProviderBinding)
    ensures
        r.project_key@ == project_key@,
        r.profile_id@ == profile_id@,
        r.descriptor == descriptor,
        r.descriptor_hash@ == descriptor_hash@,
        r.executable == executable,
        r.authority_ceiling == authority_ceiling,
        r.registration_id@ == registration_of(
            project_key@,
            profile_id@,
            descriptor_hash@,
            executable.sha256@,
            authority_ceiling,
        ),
        r.revision == 1,
{
    let id = registration_id(
        project_key,
        profile_id,
        descriptor_hash,
        executable.sha256.as_str(),
        authority_ceiling,
    );
    EvidenceProviderBinding {
        project_key: project_key.to_owned(),
        profile_id: profile_id.to_owned(),
        descriptor,
        descriptor_hash: descriptor_hash.to_owned(),
        executable,
        authority_ceiling,
        registration_id: id,
        revision: 1,
    }
}

// ---------------------------------------------------------------------------
// The registry
// ---------------------------------------------------------------------------

/// Why a registry is not read.
pub open spec fn registry_refusal(registry: EvidenceProviderRegistry) -> Option<ErrorView> {
    if registry.schema_version != REGISTRY_SCHEMA_VERSION {
        Some(ErrorView::Provider("Evidence Provider registry schema 不兼容"@))
    } else if !sorting::names_apart(registry.bindings@) {
        Some(ErrorView::Provider("Evidence Provider registry 存在重复 project/profile"@))
    } else {
        None
    }
}

/// Whether a registry may be read.
pub fn check_registry(registry: &EvidenceProviderRegistry) -> (r: Result<(), AppError>)
    ensures
        error::follows(r, registry_refusal(*registry)),
{
    if registry.schema_version != REGISTRY_SCHEMA_VERSION {
        return Err(
            AppError::Provider("Evidence Provider registry schema 不兼容".to_owned()),
        );
    }
    if !sorting::are_names_apart(&registry.bindings) {
        return Err(
            AppError::Provider(
                "Evidence Provider registry 存在重复 project/profile".to_owned(),
            ),
        );
    }
    Ok(())
}

/// The registry where none was written yet.
pub fn empty_registry() -> (r: EvidenceProviderRegistry)
    ensures
        r.schema_version == REGISTRY_SCHEMA_VERSION,
        r.bindings@ == Seq::<EvidenceProviderBinding>::empty(),
        registry_refusal(r) is None,
{
    EvidenceProviderRegistry { schema_version: REGISTRY_SCHEMA_VERSION, bindings: Vec::new() }
}

/// A binding is for a project and a profile.
pub open spec fn is_for(
    binding: EvidenceProviderBinding,
    project_key: Seq<char>,
    profile_id: Seq<char>,
) -> bool {
    binding.project_key@ == project_key && binding.profile_id@ == profile_id
}

fn binding_is_for(binding: &EvidenceProviderBinding, project_key: &str, profile_id: &str) -> (r:
    bool)
    ensures
        r == is_for(*binding, project_key@, profile_id@),
{
    text::same(binding.project_key.as_str(), project_key) && text::same(
        binding.profile_id.as_str(),
        profile_id,
    )
}

/// Where the first binding for a project and a profile stands.
pub open spec fn place_for(
    bindings: Seq<EvidenceProviderBinding>,
    project_key: Seq<char>,
    profile_id: Seq<char>,
) -> Option<int>
    decreases bindings.len(),
{
    if bindings.len() == 0 {
        None
    } else {
        match place_for(bindings.drop_last(), project_key, profile_id) {
            Some(i) => Some(i),
            None => if is_for(bindings.last(), project_key, profile_id) {
                Some(bindings.len() - 1)
            } else {
                None
            },
        }
    }
}

proof fn place_stays(
    bindings: Seq<EvidenceProviderBinding>,
    key: Seq<char>,
    id: Seq<char>,
    n: int,
)
    requires
        0 <= n <= bindings.len(),
        place_for(bindings.take(n), key, id) is Some,
    ensures
        place_for(bindings, key, id) == place_for(bindings.take(n), key, id),
    decreases bindings.len() - n,
{
    if n < bindings.len() {
        assert(bindings.take(n + 1).drop_last() =~= bindings.take(n));
        place_stays(bindings, key, id, n + 1);
    } else {
        assert(bindings.take(n) =~= bindings);
    }
}

fn find_place(bindings: &Vec<EvidenceProviderBinding>, project_key: &str, profile_id: &str) -> (r:
    Option<usize>)
    ensures
        match r {
            Some(i) => i < bindings@.len() && place_for(bindings@, project_key@, profile_id@)
                == Some(i as int) && is_for(bindings@[i as int], project_key@, profile_id@),
            None => place_for(bindings@, project_key@, profile_id@) is None,
        },
{
    let mut i: usize = 0;
    assert(bindings@.take(0) =~= Seq::<EvidenceProviderBinding>::empty());
    while i < bindings.len()
        invariant
            i <= bindings@.len(),
            place_for(bindings@.take(i as int), project_key@, profile_id@) is None,
        decreases bindings@.len() - i,
    {
        assert(bindings@.take(i + 1).drop_last() =~= bindings@.take(i as int));
        if binding_is_for(&bindings[i], project_key, profile_id) {
            proof {
                place_stays(bindings@, project_key@, profile_id@, i + 1);
            }
            return Some(i);
        }
        i = i + 1;
    }
    assert(bindings@.take(bindings@.len() as int) =~= bindings@);
    None
}

/// What a registry comes to when a binding is entered.
pub struct EnteredView {
    pub bindings: Seq<EvidenceProviderBinding>,
    pub revision: u64,
    pub changed: bool,
}

/// The revision behind another.
pub open spec fn next_revision(revision: u64) -> u64 {
    if revision == u64::MAX {
        u64::MAX
    } else {
        (revision + 1) as u64
    }
}

/// What a registry comes to when a binding is entered: nothing changes where
/// the same is bound already, and something else is only replaced on request.
pub open spec fn entered(
    bindings: Seq<EvidenceProviderBinding>,
    binding: EvidenceProviderBinding,
    replace: bool,
) -> Result<EnteredView, ErrorView> {
    match place_for(bindings, binding.project_key@, binding.profile_id@) {
        Some(i) => if equivalent(bindings[i], binding) {
            Ok(EnteredView { bindings, revision: bindings[i].revision, changed: false })
        } else if !replace {
            Err(
                ErrorView::Provider(
                    "Evidence Provider profile="@ + text::quoted(binding.profile_id@)
                        + " 已绑定且内容不同；请显式传入 --replace"@,
                ),
            )
        } else {
            let revision = next_revision(bindings[i].revision);
            Ok(
                EnteredView {
                    bindings: sorting::sorted(
                        bindings.update(i, EvidenceProviderBinding { revision, ..binding }),
                    ),
                    revision,
                    changed: true,
                },
            )
        },
        None => Ok(
            EnteredView {
                bindings: sorting::sorted(bindings.push(binding)),
                revision: binding.revision,
                changed: true,
            },
        ),
    }
}

/// Enters a binding, and reports what is bound now.
pub fn finish_bind(
    registry: EvidenceProviderRegistry,
    binding: EvidenceProviderBinding,
    replace: bool,
) -> (r: Result<(EvidenceProviderRegistry, BindReport), AppError>)
    ensures
        match r {
            Ok((next, report)) => {
                &&& entered(registry.bindings@, binding, replace) == Ok::<EnteredView, ErrorView>(
                    EnteredView {
                        bindings: next.bindings@,
                        revision: report.revision,
                        changed: report.changed,
                    },
                )
                &&& next.schema_version == registry.schema_version
                &&& report.schema_version == REGISTRY_SCHEMA_VERSION
                &&& report.project_key@ == binding.project_key@
                &&& report.profile_id@ == binding.profile_id@
                &&& report.descriptor@ == binding.descriptor@
                &&& report.descriptor_hash@ == binding.descriptor_hash@
                &&& report.executable@ == binding.executable.path@
                &&& report.executable_sha256@ == binding.executable.sha256@
                &&& report.authority_ceiling == binding.authority_ceiling
                &&& report.registration_id@ == binding.registration_id@
            },
            Err(e) => entered(registry.bindings@, binding, replace) == Err::<
                EnteredView,
                ErrorView,
            >(e@),
        },
{
    let schema_version = registry.schema_version;
    let mut bindings = registry.bindings;
    let mut binding = binding;
    let mut report = BindReport {
        schema_version: REGISTRY_SCHEMA_VERSION,
        project_key: binding.project_key.clone(),
        profile_id: binding.profile_id.clone(),
        descriptor: copy_descriptor(&binding.descriptor),
        descriptor_hash: binding.descriptor_hash.clone(),
        executable: binding.executable.path.clone(),
        executable_sha256: binding.executable.sha256.clone(),
        authority_ceiling: binding.authority_ceiling,
        registration_id: binding.registration_id.clone(),
        revision: binding.revision,
        changed: true,
    };
    match find_place(&bindings, report.project_key.as_str(), report.profile_id.as_str()) {
        Some(i) => {
            let revision: u64 = bindings[i].revision;
            if is_equivalent(&bindings[i], &binding) {
                report.revision = revision;
                report.changed = false;
                return Ok((EvidenceProviderRegistry { schema_version, bindings }, report));
            }
            if !replace {
                let shown = text::quote(report.profile_id.as_str());
                return Err(
                    AppError::Provider(
                        text::cat3(
                            "Evidence Provider profile=",
                            shown.as_str(),
                            " 已绑定且内容不同；请显式传入 --replace",
                        ),
                    ),
                );
            }
            let next: u64 = if revision == u64::MAX {
                u64::MAX
            } else {
                revision + 1
            };
            binding.revision = next;
            report.revision = next;
            bindings.set(i, binding);
        },
        None => {
            bindings.push(binding);
        },
    }
    Ok((EvidenceProviderRegistry { schema_version, bindings: sorting::sort(bindings) }, report))
}

/// The bindings that are not for a project and a profile.
pub open spec fn others(
    bindings: Seq<EvidenceProviderBinding>,
    project_key: Seq<char>,
    profile_id: Seq<char>,
) -> Seq<EvidenceProviderBinding>
    decreases bindings.len(),
{
    if bindings.len() == 0 {
        bindings
    } else {
        let before = others(bindings.drop_last(), project_key, profile_id);
        if is_for(bindings.last(), project_key, profile_id) {
            before
        } else {
            before.push(bindings.last())
        }
    }
}

/// The bindings that are not for a project and a profile, from the back.
fn take_others(
    bindings: &mut Vec<EvidenceProviderBinding>,
    project_key: &str,
    profile_id: &str,
) -> (r: Vec<EvidenceProviderBinding>)
    ensures
        r@ == others(old(bindings)@, project_key@, profile_id@),
    decreases old(bindings)@.len(),
{
    match bindings.pop() {
        None => Vec::new(),
        Some(last) => {
            let mut before = take_others(bindings, project_key, profile_id);
            if !binding_is_for(&last, project_key, profile_id) {
                before.push(last);
            }
            before
        },
    }
}

/// Takes the binding for a project and a profile out of a registry.
pub fn unbind(registry: EvidenceProviderRegistry, project_key: &str, profile_id: &str) -> (r:
    Result<(EvidenceProviderRegistry, UnbindReport), AppError>)
    ensures
        error::follows(r, profile_refusal(profile_id@)),
        r matches Ok((next, report)) ==> {
            &&& next.schema_version == registry.schema_version
            &&& next.bindings@ == others(registry.bindings@, project_key@, profile_id@)
            &&& report.schema_version == REGISTRY_SCHEMA_VERSION
            &&& report.project_key@ == project_key@
            &&& report.profile_id@ == profile_id@
            &&& report.changed == (next.bindings@.len() != registry.bindings@.len())
        },
{
    match validate_profile_id(profile_id) {
        Err(e) => {
            return Err(e);
        },
        Ok(()) => {},
    }
    let schema_version = registry.schema_version;
    let mut bindings = registry.bindings;
    let before: usize = bindings.len();
    let kept = take_others(&mut bindings, project_key, profile_id);
    let changed = kept.len() != before;
    Ok(
        (
            EvidenceProviderRegistry { schema_version, bindings: kept },
            UnbindReport {
                schema_version: REGISTRY_SCHEMA_VERSION,
                project_key: project_key.to_owned(),
                profile_id: profile_id.to_owned(),
                changed,
            },
        ),
    )
}

// ---------------------------------------------------------------------------
// What holds of every registry
// ---------------------------------------------------------------------------

proof fn place_is_first(bindings: Seq<EvidenceProviderBinding>, key: Seq<char>, id: Seq<char>)
    ensures
        match place_for(bindings, key, id) {
            Some(i) => 0 <= i < bindings.len() && is_for(bindings[i], key, id),
            None => forall|i: int|
                0 <= i < bindings.len() ==> !is_for(#[trigger] bindings[i], key, id),
        },
    decreases bindings.len(),
{
    if bindings.len() > 0 {
        let init = bindings.drop_last();
        place_is_first(init, key, id);
        if place_for(bindings, key, id) is None {
            assert forall|i: int| 0 <= i < bindings.len() implies !is_for(
                #[trigger] bindings[i],
                key,
                id,
            ) by {
                if i < init.len() {
                    assert(!is_for(init[i], key, id));
                }
            }
        }
    }
}

proof fn only_one_place(
    bindings: Seq<EvidenceProviderBinding>,
    key: Seq<char>,
    id: Seq<char>,
    i: int,
)
    requires
        sorting::names_apart(bindings),
        0 <= i < bindings.len(),
        is_for(bindings[i], key, id),
    ensures
        place_for(bindings, key, id) == Some(i),
{
    place_is_first(bindings, key, id);
    let p = place_for(bindings, key, id)->0;
    if p < i {
        assert(!sorting::same_names(bindings[p], bindings[i]));
    } else if i < p {
        assert(!sorting::same_names(bindings[i], bindings[p]));
    }
}

/// Entering a binding leaves at most one for each project and profile.
pub proof fn entering_keeps_apart(
    bindings: Seq<EvidenceProviderBinding>,
    binding: EvidenceProviderBinding,
    replace: bool,
)
    requires
        sorting::names_apart(bindings),
    ensures
        entered(bindings, binding, replace) matches Ok(e) ==> sorting::names_apart(e.bindings),
{
    let key = binding.project_key@;
    let id = binding.profile_id@;
    place_is_first(bindings, key, id);
    let next = match place_for(bindings, key, id) {
        Some(i) => bindings.update(
            i,
            EvidenceProviderBinding { revision: next_revision(bindings[i].revision), ..binding },
        ),
        None => bindings.push(binding),
    };
    assert forall|a: int, b: int| 0 <= a < b < next.len() implies !sorting::same_names(
        #[trigger] next[a],
        #[trigger] next[b],
    ) by {
        if b < bindings.len() {
            assert(!sorting::same_names(bindings[a], bindings[b]));
        } else {
            assert(!is_for(bindings[a], key, id));
        }
    }
    sorting::sorting_keeps_names_apart(next);
}

/// Binding the same thing again changes nothing, and it keeps its revision.
pub proof fn binding_again_changes_nothing(
    bindings: Seq<EvidenceProviderBinding>,
    binding: EvidenceProviderBinding,
    replace: bool,
    again: bool,
)
    requires
        sorting::names_apart(bindings),
        entered(bindings, binding, replace) is Ok,
    ensures
        entered(entered(bindings, binding, replace)->Ok_0.bindings, binding, again) == Ok::<
            EnteredView,
            ErrorView,
        >(
            EnteredView {
                changed: false,
                ..entered(bindings, binding, replace)->Ok_0
            },
        ),
{
    let key = binding.project_key@;
    let id = binding.profile_id@;
    let e = entered(bindings, binding, replace)->Ok_0;
    entering_keeps_apart(bindings, binding, replace);
    place_is_first(bindings, key, id);
    if e.changed {
        let at = match place_for(bindings, key, id) {
            Some(i) => i,
            None => bindings.len() as int,
        };
        let before = match place_for(bindings, key, id) {
            Some(i) => bindings.update(i, EvidenceProviderBinding { revision: e.revision, ..binding }),
            None => bindings.push(binding),
        };
        let now = before[at];
        sorting::sorting_orders(before);
        before.to_multiset_ensures();
        e.bindings.to_multiset_ensures();
        assert(before.contains(now));
        assert(before.to_multiset().contains(now));
        assert(e.bindings.contains(now));
        let k = choose|k: int| 0 <= k < e.bindings.len() && e.bindings[k] == now;
        only_one_place(e.bindings, key, id, k);
    }
}

/// After a profile is unbound nothing is bound for it, and everything else is
/// as it was.
pub proof fn unbinding_leaves_the_others(
    bindings: Seq<EvidenceProviderBinding>,
    project_key: Seq<char>,
    profile_id: Seq<char>,
)
    ensures
        place_for(others(bindings, project_key, profile_id), project_key, profile_id) is None,
        others(bindings, project_key, profile_id) == bindings.filter(
            |b: EvidenceProviderBinding| !is_for(b, project_key, profile_id),
        ),
    decreases bindings.len(),
{
    let keep = |b: EvidenceProviderBinding| !is_for(b, project_key, profile_id);
    reveal(Seq::filter);
    if bindings.len() > 0 {
        let before = others(bindings.drop_last(), project_key, profile_id);
        unbinding_leaves_the_others(bindings.drop_last(), project_key, profile_id);
        if !is_for(bindings.last(), project_key, profile_id) {
            assert(before.push(bindings.last()).drop_last() =~= before);
        }
    } else {
        assert(bindings.filter(keep) =~= bindings);
    }
}

// ---------------------------------------------------------------------------
// Status
// ---------------------------------------------------------------------------

/// What is listed of a binding.
pub open spec fn status_says(
    s: BindingStatus,
    b: EvidenceProviderBinding,
    facts: BindingFacts,
) -> bool {
    &&& s.profile_id@ == b.profile_id@
    &&& s.provider_id@ == b.descriptor.provider_id@
    &&& s.provider_version@ == b.descriptor.provider_version@
    &&& s.capabilities@ == b.descriptor.capabilities@
    &&& s.authority_ceiling == b.authority_ceiling
    &&& s.executable@ == b.executable.path@
    &&& match binding_refusal(b, facts) {
        None => s.state@ == "ready"@ && s.issue is None,
        Some(e) => s.state@ == "drifted"@ && s.issue is Some && s.issue->0@ == e.message(),
    }
}

fn binding_status(binding: &EvidenceProviderBinding, facts: &BindingFacts) -> (r: BindingStatus)
    ensures
        status_says(r, *binding, *facts),
{
    let issue = match validate_binding(binding, facts) {
        Ok(()) => None,
        Err(e) => Some(e.message()),
    };
    let state: &'static str = if issue.is_none() {
        "ready"
    } else {
        "drifted"
    };
    BindingStatus {
        profile_id: binding.profile_id.clone(),
        provider_id: binding.descriptor.provider_id.clone(),
        provider_version: binding.descriptor.provider_version.clone(),
        capabilities: copy_planes(&binding.descriptor.capabilities),
        authority_ceiling: binding.authority_ceiling,
        executable: binding.executable.path.clone(),
        state,
        issue,
    }
}

/// What is listed of the first bindings: those of the project, in order.
pub open spec fn list_says(
    listed: Seq<BindingStatus>,
    bindings: Seq<EvidenceProviderBinding>,
    facts: Seq<BindingFacts>,
    project_key: Seq<char>,
    n: nat,
) -> bool
    decreases n,
{
    if n == 0 {
        listed.len() == 0
    } else if bindings[n - 1].project_key@ == project_key {
        &&& listed.len() > 0
        &&& status_says(listed.last(), bindings[n - 1], facts[n - 1])
        &&& list_says(listed.drop_last(), bindings, facts, project_key, (n - 1) as nat)
    } else {
        list_says(listed, bindings, facts, project_key, (n - 1) as nat)
    }
}

/// Lists the bindings of a project; the facts are one for each binding of the
/// registry.
pub fn list(registry: &EvidenceProviderRegistry, facts: &Vec<BindingFacts>, project_key: &str) -> (r:
    ListReport)
    requires
        facts@.len() == registry.bindings@.len(),
    ensures
        r.schema_version == REGISTRY_SCHEMA_VERSION,
        r.project_key@ == project_key@,
        list_says(
            r.bindings@,
            registry.bindings@,
            facts@,
            project_key@,
            registry.bindings@.len(),
        ),
{
    let mut listed: Vec<BindingStatus> = Vec::new();
    let mut i: usize = 0;
    while i < registry.bindings.len()
        invariant
            i <= registry.bindings@.len() == facts@.len(),
            list_says(listed@, registry.bindings@, facts@, project_key@, i as nat),
        decreases registry.bindings@.len() - i,
    {
        if text::same(registry.bindings[i].project_key.as_str(), project_key) {
            let ghost before = listed@;
            let status = binding_status(&registry.bindings[i], &facts[i]);
            listed.push(status);
            assert(listed@.drop_last() =~= before);
        }
        i = i + 1;
    }
    ListReport {
        schema_version: REGISTRY_SCHEMA_VERSION,
        project_key: project_key.to_owned(),
        bindings: listed,
    }
}

// ---------------------------------------------------------------------------
// Running
// ---------------------------------------------------------------------------

/// Why nothing is run for a profile.
pub open spec fn unbound_refusal(
    bindings: Seq<EvidenceProviderBinding>,
    project_key: Seq<char>,
    profile_id: Seq<char>,
) -> Option<ErrorView> {
    if place_for(bindings, project_key, profile_id) is None {
        Some(
            ErrorView::Provider(
                "Evidence Provider profile="@ + text::quoted(profile_id) + " 尚未在本机绑定"@,
            ),
        )
    } else {
        None
    }
}

/// The binding to run for a project and a profile.
pub fn take_binding(
    bindings: Vec<EvidenceProviderBinding>,
    project_key: &str,
    profile_id: &str,
) -> (r: Result<EvidenceProviderBinding, AppError>)
    ensures
        error::follows(r, unbound_refusal(bindings@, project_key@, profile_id@)),
        r matches Ok(b) ==> b == bindings@[place_for(bindings@, project_key@, profile_id@)->0]
            && is_for(b, project_key@, profile_id@),
{
    let mut bindings = bindings;
    match find_place(&bindings, project_key, profile_id) {
        Some(i) => Ok(bindings.swap_remove(i)),
        None => {
            let shown = text::quote(profile_id);
            Err(
                AppError::Provider(
                    text::cat3(
                        "Evidence Provider profile=",
                        shown.as_str(),
                        " 尚未在本机绑定",
                    ),
                ),
            )
        },
    }
}

fn has_plane(planes: &Vec<EvidencePlane>, plane: EvidencePlane) -> (r: bool)
    ensures
        r == planes@.contains(plane),
{
    let mut i: usize = 0;
    while i < planes.len()
        invariant
            i <= planes@.len(),
            forall|k: int| 0 <= k < i ==> planes@[k] != plane,
        decreases planes@.len() - i,
    {
        if planes[i] == plane {
            return true;
        }
        i = i + 1;
    }
    false
}

/// Why a binding is not run for a plane.
pub open spec fn run_refusal(
    b: EvidenceProviderBinding,
    facts: BindingFacts,
    plane: EvidencePlane,
) -> Option<ErrorView> {
    match binding_refusal(b, facts) {
        Some(e) => Some(e),
        None => if b.descriptor.capabilities@.contains(plane) {
            None
        } else {
            Some(
                ErrorView::Provider(
                    "Provider "@ + b.descriptor.provider_id@ + " 未声明 plane="@ + plane.name()
                        + " 能力"@,
                ),
            )
        },
    }
}

/// Whether a binding may be run for a plane.
pub fn check_run(
    binding: &EvidenceProviderBinding,
    facts: &BindingFacts,
    plane: EvidencePlane,
) -> (r: Result<(), AppError>)
    ensures
        error::follows(r, run_refusal(*binding, *facts, plane)),
{
    match validate_binding(binding, facts) {
        Err(e) => {
            return Err(e);
        },
        Ok(()) => {},
    }
    if !has_plane(&binding.descriptor.capabilities, plane) {
        return Err(
            AppError::Provider(
                text::cat5(
                    "Provider ",
                    binding.descriptor.provider_id.as_str(),
                    " 未声明 plane=",
                    plane.as_str(),
                    " 能力",
                ),
            ),
        );
    }
    Ok(())
}

/// Whether a file may be read: a regular one within its bound.
pub fn check_bounded_file(regular: bool, len: u64, max: u64, label: &str) -> (r: Result<
    (),
    AppError,
>)
    ensures
        error::follows(
            r,
            if regular && len <= max {
                None
            } else {
                Some(ErrorView::Provider(label@ + " 必须是有界普通文件"@))
            },
        ),
{
    if !regular || len > max {
        return Err(AppError::Provider(text::cat2(label, " 必须是有界普通文件")));
    }
    Ok(())
}

/// What a configuration comes to, given what the reading of it gave: nothing
/// is an empty object.
pub open spec fn config_of(read: Option<Result<Seq<u8>, Seq<char>>>) -> Result<
    Seq<u8>,
    ErrorView,
> {
    match read {
        None => Ok(seq![0x7bu8, 0x7du8]),
        Some(Ok(bytes)) => Ok(bytes),
        Some(Err(complaint)) => Err(ErrorView::Json(complaint)),
    }
}

/// What a configuration comes to, given what the reading of it gave.
pub fn taken_config(read: Option<Result<Vec<u8>, String>>) -> (r: Result<Vec<u8>, AppError>)
    ensures
        config_of(
            match read {
                None => None,
                Some(read) => Some(json::rewriting_view(read)),
            },
        ) == match r {
            Ok(bytes) => Ok::<Seq<u8>, ErrorView>(bytes@),
            Err(e) => Err::<Seq<u8>, ErrorView>(e@),
        },
{
    match read {
        None => {
            let empty: Vec<u8> = vec![0x7bu8, 0x7du8];
            assert(empty@ =~= seq![0x7bu8, 0x7du8]);
            Ok(empty)
        },
        Some(Ok(bytes)) => Ok(bytes),
        Some(Err(complaint)) => Err(AppError::Json(complaint)),
    }
}

/// What the bytes of a configuration come to, where there is one.
pub open spec fn read_config_of(document: Option<Vec<u8>>) -> Result<Seq<u8>, ErrorView> {
    config_of(
        match document {
            None => None,
            Some(bytes) => Some(json::json_rewritten(bytes@)),
        },
    )
}

/// The configuration that a provider is handed: the JSON of its file, written
/// anew, and an empty object where there is no file.
pub fn read_config(document: &Option<Vec<u8>>) -> (r: Result<Vec<u8>, AppError>)
    ensures
        read_config_of(*document) == match r {
            Ok(bytes) => Ok::<Seq<u8>, ErrorView>(bytes@),
            Err(e) => Err::<Seq<u8>, ErrorView>(e@),
        },
{
    taken_config(
        match document {
            None => None,
            Some(bytes) => Some(json::rewrite(bytes.as_slice())),
        },
    )
}

/// What an input contract says it is for.
#[derive(Debug, Clone, PartialEq, Eq)]
pub struct ContractIdentity {
    pub project_key: String,
    pub profile_id: String,
    pub provider_contract_id: String,
    pub provider_contract_version: u32,
}

/// A contract is for a binding.
pub open spec fn contract_fits(c: ContractIdentity, b: EvidenceProviderBinding) -> bool {
    &&& c.project_key@ == b.project_key@
    &&& c.profile_id@ == b.profile_id@
    &&& c.provider_contract_id@ == b.descriptor.provider_id@
    &&& c.provider_contract_version == b.descriptor.provider_contract_version
}

/// Whether a contract is for a binding.
pub fn check_contract(contract: &ContractIdentity, binding: &EvidenceProviderBinding) -> (r: Result<
    (),
    AppError,
>)
    ensures
        error::follows(
            r,
            if contract_fits(*contract, *binding) {
                None
            } else {
                Some(
                    ErrorView::Provider(
                        "Input dependency contract 与绑定的 project/profile/provider 不一致"@,
                    ),
                )
            },
        ),
{
    if text::same(contract.project_key.as_str(), binding.project_key.as_str()) && text::same(
        contract.profile_id.as_str(),
        binding.profile_id.as_str(),
    ) && text::same(
        contract.provider_contract_id.as_str(),
        binding.descriptor.provider_id.as_str(),
    ) && contract.provider_contract_version == binding.descriptor.provider_contract_version {
        return Ok(());
    }
    Err(
        AppError::Provider(
            "Input dependency contract 与绑定的 project/profile/provider 不一致".to_owned(),
        ),
    )
}

/// What is found of an input that is to be staged.
#[derive(Debug, Clone, PartialEq, Eq)]
pub struct StageFacts {
    pub plain: bool,
    pub inside: bool,
    pub regular: bool,
    pub content_sha256: String,
    pub size: u64,
}

/// What an entry says of the contents of its input.
pub open spec fn recorded_hash(entry: InputManifestEntry) -> Seq<char> {
    match entry.content_sha256 {
        Some(h) => h@,
        None => Seq::empty(),
    }
}

/// What an entry says of the size of its input.
pub open spec fn recorded_size(entry: InputManifestEntry) -> u64 {
    match entry.size {
        Some(n) => n,
        None => u64::MAX,
    }
}

/// Why an input is not staged.
pub open spec fn stage_refusal(entry: InputManifestEntry, facts: StageFacts) -> Option<ErrorView> {
    if entry.state == InputPathState::Absent {
        None
    } else if !facts.plain {
        Some(ErrorView::Provider("Provider staging path 非法"@))
    } else if !facts.inside || !facts.regular || facts.content_sha256@ != recorded_hash(entry)
        || facts.size != recorded_size(entry) {
        Some(
            ErrorView::Provider(
                "Provider staging input 与 manifest 不一致："@ + entry.path@,
            ),
        )
    } else {
        None
    }
}

/// Whether an input is staged: nothing to do for one that is absent, and
/// otherwise it has to be what was recorded of it.
pub fn check_stage(entry: &InputManifestEntry, facts: &StageFacts) -> (r: Result<bool, AppError>)
    ensures
        error::follows(r, stage_refusal(*entry, *facts)),
        r matches Ok(copied) ==> copied == (entry.state != InputPathState::Absent),
{
    match entry.state {
        InputPathState::Absent => {
            return Ok(false);
        },
        InputPathState::PresentRegularFile => {},
    }
    if !facts.plain {
        return Err(AppError::Provider("Provider staging path 非法".to_owned()));
    }
    let none = String::new();
    let expected: &str = match &entry.content_sha256 {
        Some(h) => h.as_str(),
        None => none.as_str(),
    };
    assert(expected@ =~= recorded_hash(*entry));
    let size: u64 = match entry.size {
        Some(n) => n,
        None => u64::MAX,
    };
    if !facts.inside || !facts.regular || !text::same(facts.content_sha256.as_str(), expected)
        || facts.size != size {
        return Err(
            AppError::Provider(
                text::cat2(
                    "Provider staging input 与 manifest 不一致：",
                    entry.path.as_str(),
                ),
            ),
        );
    }
    Ok(true)
}

/// Whether a staged copy is what was recorded of its input.
pub fn check_staged_copy(entry: &InputManifestEntry, content_sha256: &str) -> (r: Result<
    (),
    AppError,
>)
    ensures
        error::follows(
            r,
            if content_sha256@ == recorded_hash(*entry) {
                None
            } else {
                Some(ErrorView::Provider("Provider staging copy 校验失败"@))
            },
        ),
{
    let none = String::new();
    let expected: &str = match &entry.content_sha256 {
        Some(h) => h.as_str(),
        None => none.as_str(),
    };
    assert(expected@ =~= recorded_hash(*entry));
    if text::same(content_sha256, expected) {
        return Ok(());
    }
    Err(AppError::Provider("Provider staging copy 校验失败".to_owned()))
}

/// What the name of a request is made from.
pub fn request_seed(project_key: &str, profile_id: &str, manifest_hash: &str, nonce: &str) -> (r:
    String)
    ensures
        r@ == project_key@ + "\0"@ + profile_id@ + "\0"@ + manifest_hash@ + "\0"@ + nonce@,
{
    let mut seed = text::cat5(project_key, "\0", profile_id, "\0", manifest_hash);
    seed.append("\0");
    seed.append(nonce);
    seed
}

/// A time limit in milliseconds, at most the largest number there is.
pub fn timeout_ms(timeout_seconds: u64) -> (r: u64)
    ensures
        r == (if timeout_seconds * 1000 > u64::MAX {
            u64::MAX as int
        } else {
            timeout_seconds * 1000
        }),
{
    if timeout_seconds > u64::MAX / 1000 {
        return u64::MAX;
    }
    timeout_seconds * 1000
}

/// The directory of a run, given the fingerprint of its project.
pub fn scratch_name(key: &str, process_id: u32, nonce: &str) -> (r: String)
    requires
        key@.len() >= 16,
    ensures
        r@ == key@.take(16) + "-"@ + text::decimal(process_id as nat) + "-"@ + nonce@,
{
    let head = text::shorten(key, 16);
    let process = text::decimal_text(process_id as u64);
    assert(text::shortened(key@, 16) =~= key@.take(16));
    text::cat5(head.as_str(), "-", process.as_str(), "-", nonce)
}

/// A finding as a provider reports it.
#[derive(Debug, Clone, PartialEq, Eq)]
pub struct CandidateFinding {
    pub code: String,
    pub severity: FindingSeverity,
    pub deterministic_violation_claim: bool,
    pub message: String,
    pub artifact_id: Option<String>,
    pub path: Option<String>,
}

/// A finding as it is taken into evidence.
#[derive(Debug, Clone, PartialEq, Eq)]
pub struct ImportedFinding {
    pub code: String,
    pub severity: FindingSeverity,
    pub authority: FindingAuthority,
    pub message: String,
    pub artifact_id: Option<String>,
    pub path: Option<String>,
}

/// What a provider brings, as far as it is judged; the payload is JSON.
#[derive(Debug, Clone, PartialEq, Eq)]
pub struct Candidate {
    pub provider_contract_version: u32,
    pub payload_schema: String,
    pub payload: Vec<u8>,
    pub findings: Vec<CandidateFinding>,
}

/// What a provider answers.
#[derive(Debug, Clone, PartialEq, Eq)]
pub struct ProviderResponse {
    pub succeeded: bool,
    pub error_code: Option<String>,
    pub error_message: Option<String>,
    pub candidate: Option<Candidate>,
}

/// The most that a finding counts for.
pub open spec fn granted(ceiling: EvidenceAuthority, claimed: bool) -> FindingAuthority {
    if ceiling == EvidenceAuthority::Deterministic && claimed {
        FindingAuthority::DeterministicViolation
    } else {
        FindingAuthority::Advisory
    }
}

/// A finding is taken as it is, but for what it may count for.
pub open spec fn taken(
    f: ImportedFinding,
    c: CandidateFinding,
    ceiling: EvidenceAuthority,
) -> bool {
    &&& f.code == c.code
    &&& f.severity == c.severity
    &&& f.authority == granted(ceiling, c.deterministic_violation_claim)
    &&& f.message == c.message
    &&& f.artifact_id == c.artifact_id
    &&& f.path == c.path
}

/// Takes findings in; none counts for more than its provider may claim.
pub fn take_findings(findings: &Vec<CandidateFinding>, ceiling: EvidenceAuthority) -> (r: Vec<
    ImportedFinding,
>)
    ensures
        r@.len() == findings@.len(),
        forall|i: int|
            0 <= i < r@.len() ==> taken(#[trigger] r@[i], findings@[i], ceiling),
{
    let mut out: Vec<ImportedFinding> = Vec::new();
    let mut i: usize = 0;
    while i < findings.len()
        invariant
            i <= findings@.len(),
            out@.len() == i,
            forall|k: int| 0 <= k < i ==> taken(#[trigger] out@[k], findings@[k], ceiling),
        decreases findings@.len() - i,
    {
        let f = &findings[i];
        let authority = match ceiling {
            EvidenceAuthority::Deterministic => if f.deterministic_violation_claim {
                FindingAuthority::DeterministicViolation
            } else {
                FindingAuthority::Advisory
            },
            EvidenceAuthority::Advisory => FindingAuthority::Advisory,
        };
        out.push(
            ImportedFinding {
                code: f.code.clone(),
                severity: f.severity,
                authority,
                message: f.message.clone(),
                artifact_id: model::clone_opt(&f.artifact_id),
                path: model::clone_opt(&f.path),
            },
        );
        i = i + 1;
    }
    out
}

/// A text, or what stands for it where there is none.
pub open spec fn or_else(t: Option<String>, otherwise: Seq<char>) -> Seq<char> {
    match t {
        Some(t) => t@,
        None => otherwise,
    }
}

/// Why a provider's answer is a failure.
pub open spec fn answer_refusal(response: ProviderResponse) -> Option<ErrorView> {
    if response.succeeded {
        None
    } else {
        Some(
            ErrorView::Provider(
                "Evidence Provider 返回失败："@ + or_else(
                    response.error_code,
                    "provider_failed"@,
                ) + ": "@ + or_else(response.error_message, "no message"@),
            ),
        )
    }
}

/// Why what a provider brings is not taken, given what the writing anew of its
/// payload gave.
pub open spec fn candidate_refusal(
    c: Candidate,
    payload: Result<Seq<u8>, Seq<char>>,
) -> Option<ErrorView> {
    if c.provider_contract_version > u16::MAX {
        Some(ErrorView::Provider("provider contract version 超出 Evidence v1"@))
    } else {
        match payload {
            Err(complaint) => Some(ErrorView::Json(complaint)),
            Ok(_) => None,
        }
    }
}

/// Why what a provider answered is not taken.
pub open spec fn response_refusal(
    response: ProviderResponse,
    executable: Result<String, String>,
    expected: Seq<char>,
    source_before: Seq<char>,
    source_after: Seq<char>,
) -> Option<ErrorView> {
    match answer_refusal(response) {
        Some(e) => Some(e),
        None => match executable_refusal(executable, expected) {
            Some(e) => Some(e),
            None => if source_before != source_after {
                Some(
                    ErrorView::Provider(
                        "Evidence Provider 运行期间权威 Source 发生变化；结果已丢弃"@,
                    ),
                )
            } else {
                match response.candidate {
                    None => Some(ErrorView::Provider("成功响应缺少 candidate"@)),
                    Some(c) => candidate_refusal(c, json::json_rewritten(c.payload@)),
                }
            },
        },
    }
}

/// Whether a provider answered well.
pub fn check_response(response: &ProviderResponse) -> (r: Result<(), AppError>)
    ensures
        error::follows(r, answer_refusal(*response)),
{
    if response.succeeded {
        return Ok(());
    }
    let code: &str = match &response.error_code {
        Some(t) => t.as_str(),
        None => "provider_failed",
    };
    let message: &str = match &response.error_message {
        Some(t) => t.as_str(),
        None => "no message",
    };
    Err(
        AppError::Provider(
            text::cat4("Evidence Provider 返回失败：", code, ": ", message),
        ),
    )
}

/// What is taken from a provider's answer, with the provider that it is
/// evidence of and how the artifact is called that holds its payload.
#[derive(Debug, Clone, PartialEq, Eq)]
pub struct TakenEvidence {
    pub provider_id: String,
    pub provider_version: String,
    pub authority: EvidenceAuthority,
    pub contract_version: u16,
    pub payload_kind: &'static str,
    pub payload_key: String,
    pub payload_name: String,
    pub payload: Vec<u8>,
    pub findings: Vec<ImportedFinding>,
}

/// What is taken from a candidate of a binding: the provider is the one that
/// described itself, it may claim what it was bound with and no more, its
/// payload is taken as it is written anew, and its findings under what it may
/// claim.
pub open spec fn taken_from(
    t: TakenEvidence,
    c: Candidate,
    payload: Seq<u8>,
    binding: EvidenceProviderBinding,
) -> bool {
    &&& t.provider_id@ == binding.descriptor.provider_id@
    &&& t.provider_version@ == binding.descriptor.provider_version@
    &&& t.authority == binding.authority_ceiling
    &&& t.contract_version == c.provider_contract_version
    &&& t.payload_kind@ == "provider_payload"@
    &&& t.payload_key@ == "payload:"@ + c.payload_schema@
    &&& t.payload_name@ == c.payload_schema@
    &&& t.payload@ == payload
    &&& t.findings@.len() == c.findings@.len()
    &&& forall|k: int|
        0 <= k < t.findings@.len() ==> taken(
            #[trigger] t.findings@[k],
            c.findings@[k],
            binding.authority_ceiling,
        )
}

/// Takes what a provider brings, given what the writing anew of its payload
/// gave.
pub fn take_candidate(
    c: &Candidate,
    binding: &EvidenceProviderBinding,
    payload: Result<Vec<u8>, String>,
) -> (r: Result<TakenEvidence, AppError>)
    ensures
        error::follows(r, candidate_refusal(*c, json::rewriting_view(payload))),
        r matches Ok(t) ==> taken_from(t, *c, json::rewriting_view(payload)->Ok_0, *binding),
{
    if c.provider_contract_version > 65535 {
        return Err(
            AppError::Provider("provider contract version 超出 Evidence v1".to_owned()),
        );
    }
    let payload = match payload {
        Err(complaint) => {
            return Err(AppError::Json(complaint));
        },
        Ok(payload) => payload,
    };
    Ok(
        TakenEvidence {
            provider_id: binding.descriptor.provider_id.clone(),
            provider_version: binding.descriptor.provider_version.clone(),
            authority: binding.authority_ceiling,
            contract_version: c.provider_contract_version as u16,
            payload_kind: "provider_payload",
            payload_key: text::cat2("payload:", c.payload_schema.as_str()),
            payload_name: c.payload_schema.clone(),
            payload,
            findings: take_findings(&c.findings, binding.authority_ceiling),
        },
    )
}

/// Takes what a provider answered, where it answered well, its program is the
/// one that was bound, and the source is the one that it was asked about.
pub fn take_response(
    response: &ProviderResponse,
    binding: &EvidenceProviderBinding,
    executable_sha256: &Result<String, String>,
    source_before: &str,
    source_after: &str,
) -> (r: Result<TakenEvidence, AppError>)
    ensures
        error::follows(
            r,
            response_refusal(
                *response,
                *executable_sha256,
                binding.executable.sha256@,
                source_before@,
                source_after@,
            ),
        ),
        r matches Ok(t) ==> taken_from(
            t,
            response.candidate->0,
            json::json_rewritten(response.candidate->0.payload@)->Ok_0,
            *binding,
        ),
{
    match check_response(response) {
        Err(e) => {
            return Err(e);
        },
        Ok(()) => {},
    }
    match verify_executable(executable_sha256, binding.executable.sha256.as_str()) {
        Err(e) => {
            return Err(e);
        },
        Ok(()) => {},
    }
    if !text::same(source_before, source_after) {
        return Err(
            AppError::Provider(
                "Evidence Provider 运行期间权威 Source 发生变化；结果已丢弃".to_owned(),
            ),
        );
    }
    match &response.candidate {
        None => Err(AppError::Provider("成功响应缺少 candidate".to_owned())),
        Some(c) => take_candidate(c, binding, json::rewrite(c.payload.as_slice())),
    }
}

/// What is reported of a run, but for the evidence and the inputs themselves.
#[derive(Debug, Clone, PartialEq, Eq)]
pub struct RunSummary {
    pub schema_version: u32,
    pub project_key: String,
    pub profile_id: String,
    pub provider_id: String,
    pub registration_id: String,
    pub registration_revision: u64,
    pub descriptor_hash: String,
    pub executable_sha256: String,
    pub duration_ms: u128,
    pub stdout_sha256: String,
    pub stderr_sha256: String,
}

/// What is reported of a run of a binding.
pub fn run_summary(binding: &EvidenceProviderBinding, process: &ProcessResult) -> (r: RunSummary)
    ensures
        r.schema_version == REGISTRY_SCHEMA_VERSION,
        r.project_key == binding.project_key,
        r.profile_id == binding.profile_id,
        r.provider_id == binding.descriptor.provider_id,
        r.registration_id == binding.registration_id,
        r.registration_revision == binding.revision,
        r.descriptor_hash == binding.descriptor_hash,
        r.executable_sha256 == binding.executable.sha256,
        r.duration_ms == process.duration_ms,
        r.stdout_sha256 == process.stdout.sha256,
        r.stderr_sha256 == process.stderr.sha256,
{
    RunSummary {
        schema_version: REGISTRY_SCHEMA_VERSION,
        project_key: binding.project_key.clone(),
        profile_id: binding.profile_id.clone(),
        provider_id: binding.descriptor.provider_id.clone(),
        registration_id: binding.registration_id.clone(),
        registration_revision: binding.revision,
        descriptor_hash: binding.descriptor_hash.clone(),
        executable_sha256: binding.executable.sha256.clone(),
        duration_ms: process.duration_ms,
        stdout_sha256: process.stdout.sha256.clone(),
        stderr_sha256: process.stderr.sha256.clone(),
    }
}

/// A finding of a provider that may only advise never counts as a violation,
/// whatever the provider claims; nor does one that claims none.
pub proof fn advice_stays_advice(
    f: ImportedFinding,
    c: CandidateFinding,
    ceiling: EvidenceAuthority,
)
    requires
        taken(f, c, ceiling),
    ensures
        ceiling == EvidenceAuthority::Advisory ==> f.authority == FindingAuthority::Advisory,
        !c.deterministic_violation_claim ==> f.authority == FindingAuthority::Advisory,
{
}

/// A binding that is made is used as long as nothing that it stands for has
/// changed.
pub proof fn new_bindings_are_usable(
    b: EvidenceProviderBinding,
    facts: BindingFacts,
)
    requires
        b.registration_id@ == registration_of(
            b.project_key@,
            b.profile_id@,
            b.descriptor_hash@,
            b.executable.sha256@,
            b.authority_ceiling,
        ),
        facts.protocol_error is None,
        facts.descriptor_hash@ == b.descriptor_hash@,
        facts.executable_sha256 is Ok,
        facts.executable_sha256->Ok_0@ == b.executable.sha256@,
    ensures
        binding_refusal(b, facts) is None,
{
}

/// A program answered well exactly where it ended with code zero in time, was
/// read whole and said something.
pub proof fn only_clean_answers_are_read(process: ProcessResult, operation: Seq<char>)
    ensures
        clean_refusal(process, operation) is None <==> process.status.code == Some(0i32)
            && !process.timed_out && !process.stdout.truncated && !process.stderr.truncated
            && process.stdout.bytes@.len() > 0,
{
}

/// A binding runs exactly where the protocol is met, it is registered with what
/// it holds, its executable is the registered one, and it declares the plane that
/// is asked for.
pub proof fn only_registered_programs_run(
    b: EvidenceProviderBinding,
    facts: BindingFacts,
    plane: EvidencePlane,
)
    ensures
        run_refusal(b, facts, plane) is None <==> {
            &&& facts.protocol_error is None
            &&& facts.descriptor_hash@ == b.descriptor_hash@
            &&& b.registration_id@ == registration_of(
                b.project_key@,
                b.profile_id@,
                b.descriptor_hash@,
                b.executable.sha256@,
                b.authority_ceiling,
            )
            &&& facts.executable_sha256 is Ok
            &&& facts.executable_sha256->Ok_0@ == b.executable.sha256@
            &&& b.descriptor.capabilities@.contains(plane)
        },
{
}

/// An answer is taken exactly where it tells success and something found, the
/// program and the source are what they were, and its content is of a version
/// and a form that can be kept.
pub proof fn only_steady_answers_are_taken(
    response: ProviderResponse,
    executable: Result<String, String>,
    expected: Seq<char>,
    before: Seq<char>,
    after: Seq<char>,
)
    ensures
        response_refusal(response, executable, expected, before, after) is None <==> {
            &&& response.succeeded
            &&& executable is Ok && executable->Ok_0@ == expected
            &&& before == after
            &&& response.candidate is Some
            &&& response.candidate->0.provider_contract_version <= 65535
            &&& json::json_rewritten(response.candidate->0.payload@) is Ok
        },
{
}

/// An input is staged exactly where it is absent as recorded, or is a regular
/// file inside the root under a plain path that holds what is recorded.
pub proof fn staged_inputs_are_as_recorded(entry: InputManifestEntry, facts: StageFacts)
    ensures
        stage_refusal(entry, facts) is None <==> entry.state == InputPathState::Absent || {
            &&& facts.plain && facts.inside && facts.regular
            &&& facts.content_sha256@ == recorded_hash(entry)
            &&& facts.size == recorded_size(entry)
        },
        entry.content_sha256 is Some ==> recorded_hash(entry) == entry.content_sha256->0@,
        entry.size is Some ==> recorded_size(entry) == entry.size->0,
{
}

/// Every finding of an answer is taken over, in its place and unchanged, and it
/// counts as a violation exactly where it claims to be one and the provider is
/// trusted that far.
pub proof fn every_finding_is_taken_over(
    t: TakenEvidence,
    c: Candidate,
    payload: Seq<u8>,
    binding: EvidenceProviderBinding,
    k: int,
)
    requires
        taken_from(t, c, payload, binding),
        0 <= k < c.findings@.len(),
    ensures
        t.findings@.len() == c.findings@.len(),
        t.findings@[k].code == c.findings@[k].code,
        t.findings@[k].severity == c.findings@[k].severity,
        t.findings@[k].message == c.findings@[k].message,
        t.findings@[k].path == c.findings@[k].path,
        t.findings@[k].authority == FindingAuthority::DeterministicViolation
            <==> binding.authority_ceiling == EvidenceAuthority::Deterministic
            && c.findings@[k].deterministic_violation_claim,
        t.authority == binding.authority_ceiling,
        t.payload@ == payload,
{
    assert(taken(t.findings@[k], c.findings@[k], binding.authority_ceiling));
}

/// Unbinding takes away every binding of the profile in the project and keeps
/// all others in their order.
pub proof fn unbinding_takes_the_profile_only(
    bindings: Seq<EvidenceProviderBinding>,
    project_key: Seq<char>,
    profile_id: Seq<char>,
)
    ensures
        others(bindings, project_key, profile_id) == bindings.filter(
            |b: EvidenceProviderBinding|
                !(b.project_key@ == project_key && b.profile_id@ == profile_id),
        ),
    decreases bindings.len(),
{
    reveal(Seq::filter);
    if bindings.len() > 0 {
        unbinding_takes_the_profile_only(bindings.drop_last(), project_key, profile_id);
    } else {
        assert(others(bindings, project_key, profile_id) =~= Seq::empty());
    }
}

/// A profile is unbound exactly where no binding names it and the project.
pub proof fn bound_profiles_are_found(
    bindings: Seq<EvidenceProviderBinding>,
    project_key: Seq<char>,
    profile_id: Seq<char>,
)
    ensures
        unbound_refusal(bindings, project_key, profile_id) is None <==> exists|i: int|
            0 <= i < bindings.len() && (#[trigger] bindings[i]).project_key@ == project_key
                && bindings[i].profile_id@ == profile_id,
        place_for(bindings, project_key, profile_id) matches Some(i) ==> 0 <= i < bindings.len()
            && bindings[i].project_key@ == project_key && bindings[i].profile_id@ == profile_id
            && forall|k: int|
            0 <= k < i ==> (#[trigger] bindings[k]).project_key@ != project_key
                || bindings[k].profile_id@ != profile_id,
    decreases bindings.len(),
{
    if bindings.len() > 0 {
        let init = bindings.drop_last();
        bound_profiles_are_found(init, project_key, profile_id);
        assert forall|k: int| 0 <= k < init.len() implies #[trigger] init[k] == bindings[k] by {}
        match place_for(init, project_key, profile_id) {
            Some(i) => {
                assert(bindings[i] == init[i]);
                assert forall|k: int| 0 <= k < i implies (#[trigger] bindings[k]).project_key@
                    != project_key || bindings[k].profile_id@ != profile_id by {
                    assert(init[k] == bindings[k]);
                }
            },
            None => {
                assert forall|k: int| 0 <= k < init.len() implies (
                #[trigger] bindings[k]).project_key@ != project_key || bindings[k].profile_id@
                    != profile_id by {
                    assert(init[k] == bindings[k]);
                }
                if is_for(bindings.last(), project_key, profile_id) {
                    assert(bindings[bindings.len() - 1].project_key@ == project_key);
                }
            },
        }
    }
}

/// A binding changes nothing exactly where everything that is registered of it is
/// there already; it is refused exactly where it would change something without
/// leave to replace it.
pub proof fn bindings_change_on_request_only(
    bindings: Seq<EvidenceProviderBinding>,
    b: EvidenceProviderBinding,
    replace: bool,
)
    requires
        place_for(bindings, b.project_key@, b.profile_id@) is Some,
    ensures
        ({
            let was = bindings[place_for(bindings, b.project_key@, b.profile_id@)->0];
            let r = entered(bindings, b, replace);
            let same = {
                &&& was.registration_id@ == b.registration_id@
                &&& was.descriptor@ == b.descriptor@
                &&& was.executable.path@ == b.executable.path@
                &&& was.executable.sha256@ == b.executable.sha256@
                &&& was.authority_ceiling == b.authority_ceiling
            };
            &&& r is Err <==> !same && !replace
            &&& r is Ok ==> (r->Ok_0.changed <==> !same)
            &&& same ==> r is Ok && r->Ok_0.bindings == bindings
        }),
{
    bound_profiles_are_found(bindings, b.project_key@, b.profile_id@);
}

} // verus!
