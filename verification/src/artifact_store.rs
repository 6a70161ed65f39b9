//! The store of artifacts that are run later: bundles of files by content.
use crate::build_evidence::{self, ArtifactEntry, ArtifactManifest};
use crate::error::{self, AppError, ErrorView};
use crate::json;
use crate::model;
use crate::order;
use crate::text;
use vstd::prelude::*;

verus! {

broadcast use {vstd::string::group_string_axioms, vstd::seq::group_seq_axioms};

pub const STORE_SCHEMA_VERSION: u32 = 1;

/// Which file of a bundle is the main assembly.
#[derive(Debug, Clone, PartialEq, Eq)]
pub struct AssemblyBindingAttestation {
    pub assembly_name: String,
    pub relative_path: String,
    pub sha256: String,
}

/// The files of a build as they are kept to be run.
#[derive(Debug, Clone, PartialEq, Eq)]
pub struct RuntimeArtifactBundle {
    pub schema_version: u32,
    pub project_key: String,
    pub build_provider_id: String,
    pub source_fingerprint: String,
    pub artifact_manifest_fingerprint: String,
    pub total_bytes: u64,
    pub entries: Vec<ArtifactEntry>,
    pub assembly_binding: Option<AssemblyBindingAttestation>,
}

// ---------------------------------------------------------------------------
// Names
// ---------------------------------------------------------------------------

/// Nothing but hexadecimal digits.
pub open spec fn all_hex(s: Seq<char>) -> bool {
    forall|i: int| 0 <= i < s.len() ==> text::hex_digit(#[trigger] s[i])
}

fn is_all_hex(s: &Vec<char>, from: usize) -> (r: bool)
    requires
        from <= s@.len(),
    ensures
        r == all_hex(s@.skip(from as int)),
{
    let mut i: usize = from;
    while i < s.len()
        invariant
            from <= i <= s@.len(),
            forall|k: int| 0 <= k < i - from ==> text::hex_digit(#[trigger] s@.skip(from as int)[k]),
        decreases s@.len() - i,
    {
        assert(s@.skip(from as int)[i - from] == s@[i as int]);
        if !text::is_hex_digit(s[i]) {
            return false;
        }
        i = i + 1;
    }
    true
}

/// The name of an object: a fingerprint in hexadecimal.
pub open spec fn object_name(value: Seq<char>) -> bool {
    value.len() == 64 && all_hex(value)
}

/// Why a name is none of an object.
pub open spec fn object_refusal(value: Seq<char>) -> Option<ErrorView> {
    if object_name(value) {
        None
    } else {
        Some(ErrorView::Provider("CAS object SHA-256 格式无效"@))
    }
}

/// Whether a name is one of an object.
pub fn validate_sha256(value: &str) -> (r: Result<(), AppError>)
    ensures
        error::follows(r, object_refusal(value@)),
{
    let chars = text::chars_of(value);
    assert(chars@.skip(0) =~= chars@);
    if chars.len() == 64 && is_all_hex(&chars, 0) {
        return Ok(());
    }
    Err(AppError::Provider("CAS object SHA-256 格式无效".to_owned()))
}

/// The name of a bundle: a marked fingerprint.
pub open spec fn bundle_name(value: Seq<char>) -> bool {
    value.len() == 71 && text::begins(value, "sha256_"@) && all_hex(value.skip(7))
}

/// Why a name is none of a bundle.
pub open spec fn bundle_refusal(value: Seq<char>) -> Option<ErrorView> {
    if bundle_name(value) {
        None
    } else {
        Some(ErrorView::Provider("Runtime bundle fingerprint 格式无效"@))
    }
}

/// Whether a name is one of a bundle.
pub fn validate_fingerprint(value: &str) -> (r: Result<(), AppError>)
    ensures
        error::follows(r, bundle_refusal(value@)),
{
    let chars = text::chars_of(value);
    if chars.len() == 71 && text::chars_begin(&chars, "sha256_") && is_all_hex(&chars, 7) {
        return Ok(());
    }
    Err(AppError::Provider("Runtime bundle fingerprint 格式无效".to_owned()))
}

/// Why a path is not one of a bundle.
pub open spec fn relative_refusal(value: Seq<char>, plain: bool) -> Option<ErrorView> {
    if value.len() == 0 || text::occurs(value, "\\"@) || !plain {
        Some(
            ErrorView::Provider("Runtime bundle 含无效相对路径："@ + text::quoted(value)),
        )
    } else {
        None
    }
}

/// Whether a path may be one of a bundle, given whether it is relative and
/// made of nothing but names.
pub fn validate_relative_path(value: &str, plain: bool) -> (r: Result<(), AppError>)
    ensures
        error::follows(r, relative_refusal(value@, plain)),
{
    if text::length(value) == 0 || text::contains(value, "\\") || !plain {
        let shown = text::quote(value);
        return Err(
            AppError::Provider(
                text::cat2("Runtime bundle 含无效相对路径：", shown.as_str()),
            ),
        );
    }
    Ok(())
}

/// Where a bundle is described, below the store.
pub fn bundle_manifest_path(fingerprint: &str) -> (r: String)
    ensures
        r@ == "bundles/"@ + fingerprint@ + ".json"@,
{
    text::cat3("bundles/", fingerprint, ".json")
}

/// Where an object stands, below the store: under the first two digits of its
/// name.
pub fn object_path(sha256: &str) -> (r: Result<String, AppError>)
    ensures
        error::follows(r, object_refusal(sha256@)),
        r is Ok ==> r->Ok_0@ == "objects/sha256/"@ + sha256@.take(2) + "/"@ + sha256@,
{
    match validate_sha256(sha256) {
        Err(e) => {
            return Err(e);
        },
        Ok(()) => {},
    }
    let first = text::shorten(sha256, 2);
    Ok(text::cat4("objects/sha256/", first.as_str(), "/", sha256))
}

// ---------------------------------------------------------------------------
// Bundles
// ---------------------------------------------------------------------------

/// What is found of a file of a bundle.
#[derive(Debug, Clone, PartialEq, Eq)]
pub struct ObjectFacts {
    pub regular: bool,
    pub inside: bool,
    pub len: u64,
    pub sha256: String,
}

/// What is found of a file is what an entry says of it.
pub open spec fn holds(entry: ArtifactEntry, facts: ObjectFacts) -> bool {
    facts.regular && facts.len == entry.size && facts.sha256@ == entry.sha256@
}

fn is_holding(entry: &ArtifactEntry, facts: &ObjectFacts) -> (r: bool)
    ensures
        r == holds(*entry, *facts),
{
    facts.regular && facts.len == entry.size && text::same(
        facts.sha256.as_str(),
        entry.sha256.as_str(),
    )
}

/// Why a built file is not taken into a bundle.
pub open spec fn source_refusal(entry: ArtifactEntry, facts: ObjectFacts, shown: Seq<char>) -> Option<
    ErrorView,
> {
    if !facts.regular {
        Some(ErrorView::Provider("Runtime bundle 源不是普通文件："@ + shown))
    } else if !facts.inside || !holds(entry, facts) {
        Some(
            ErrorView::Provider(
                "Runtime bundle 源与 Build manifest 不一致："@ + entry.relative_path@,
            ),
        )
    } else {
        None
    }
}

/// Whether a built file may be taken into a bundle.
pub fn check_source(entry: &ArtifactEntry, facts: &ObjectFacts, shown: &str) -> (r: Result<
    (),
    AppError,
>)
    ensures
        error::follows(r, source_refusal(*entry, *facts, shown@)),
{
    if !facts.regular {
        return Err(
            AppError::Provider(text::cat2("Runtime bundle 源不是普通文件：", shown)),
        );
    }
    if !facts.inside || !is_holding(entry, facts) {
        return Err(
            AppError::Provider(
                text::cat2(
                    "Runtime bundle 源与 Build manifest 不一致：",
                    entry.relative_path.as_str(),
                ),
            ),
        );
    }
    Ok(())
}

/// Whether an object that is there already is the one that is to be stored.
pub fn check_existing_object(entry: &ArtifactEntry, facts: &ObjectFacts) -> (r: Result<
    (),
    AppError,
>)
    ensures
        match r {
            Ok(()) => holds(*entry, *facts),
            Err(e) => !holds(*entry, *facts) && e@ == ErrorView::Provider(
                "CAS 中已存在同名但内容不匹配的 object："@ + entry.sha256@,
            ),
        },
{
    if is_holding(entry, facts) {
        return Ok(());
    }
    Err(
        AppError::Provider(
            text::cat2("CAS 中已存在同名但内容不匹配的 object：", entry.sha256.as_str()),
        ),
    )
}

/// Whether an object that was just stored is what was to be stored.
pub fn check_stored_object(entry: &ArtifactEntry, len: u64, sha256: &str) -> (r: Result<
    (),
    AppError,
>)
    ensures
        match r {
            Ok(()) => len == entry.size && sha256@ == entry.sha256@,
            Err(e) => !(len == entry.size && sha256@ == entry.sha256@) && e@
                == ErrorView::Provider(
                "CAS object 原子提交后的内容校验失败："@ + entry.sha256@,
            ),
        },
{
    if len == entry.size && text::same(sha256, entry.sha256.as_str()) {
        return Ok(());
    }
    Err(
        AppError::Provider(
            text::cat2("CAS object 原子提交后的内容校验失败：", entry.sha256.as_str()),
        ),
    )
}

/// Why the description of a bundle is not believed.
pub open spec fn manifest_refusal(bundle: RuntimeArtifactBundle) -> Option<ErrorView> {
    if bundle.schema_version != STORE_SCHEMA_VERSION || bundle.entries@.len() == 0
        || bundle.total_bytes != build_evidence::sizes(bundle.entries@) {
        Some(ErrorView::Provider("Runtime bundle manifest 结构或汇总字段无效"@))
    } else {
        None
    }
}

/// The sizes of entries together, where that is a number of the machine.
fn sum_sizes(entries: &Vec<ArtifactEntry>) -> (r: Option<u64>)
    ensures
        match r {
            Some(n) => n == build_evidence::sizes(entries@),
            None => build_evidence::sizes(entries@) > u64::MAX,
        },
{
    let mut sum: u64 = 0;
    let mut i: usize = 0;
    assert(entries@.take(0) =~= Seq::<ArtifactEntry>::empty());
    while i < entries.len()
        invariant
            i <= entries@.len(),
            sum == build_evidence::sizes(entries@.take(i as int)),
        decreases entries@.len() - i,
    {
        assert(entries@.take(i + 1).drop_last() =~= entries@.take(i as int));
        let size: u64 = entries[i].size;
        if size > u64::MAX - sum {
            proof {
                sizes_grow(entries@, i + 1);
            }
            return None;
        }
        sum = sum + size;
        i = i + 1;
    }
    assert(entries@.take(entries@.len() as int) =~= entries@);
    Some(sum)
}

proof fn sizes_grow(entries: Seq<ArtifactEntry>, n: int)
    requires
        0 <= n <= entries.len(),
    ensures
        build_evidence::sizes(entries.take(n)) <= build_evidence::sizes(entries),
    decreases entries.len() - n,
{
    if n < entries.len() {
        assert(entries.take(n + 1).drop_last() =~= entries.take(n));
        sizes_grow(entries, n + 1);
    } else {
        assert(entries.take(n) =~= entries);
    }
}

/// Whether the description of a bundle may be believed: it is of this version,
/// names files, and counts them right.
pub fn check_manifest(bundle: &RuntimeArtifactBundle) -> (r: Result<(), AppError>)
    ensures
        error::follows(r, manifest_refusal(*bundle)),
{
    let counted = match sum_sizes(&bundle.entries) {
        Some(n) => n == bundle.total_bytes,
        None => false,
    };
    if bundle.schema_version != STORE_SCHEMA_VERSION || bundle.entries.len() == 0 || !counted {
        return Err(
            AppError::Provider("Runtime bundle manifest 结构或汇总字段无效".to_owned()),
        );
    }
    Ok(())
}

/// Why an entry of a bundle is not believed.
pub open spec fn entry_refusal(
    previous: Option<Seq<char>>,
    entry: ArtifactEntry,
    plain: bool,
    facts: ObjectFacts,
) -> Option<ErrorView> {
    match relative_refusal(entry.relative_path@, plain) {
        Some(e) => Some(e),
        None => if previous is Some && !order::text_before(previous->0, entry.relative_path@) {
            Some(
                ErrorView::Provider("Runtime bundle entries 未按路径严格排序或存在重复"@),
            )
        } else {
            match object_refusal(entry.sha256@) {
                Some(e) => Some(e),
                None => if holds(entry, facts) {
                    None
                } else {
                    Some(
                        ErrorView::Provider(
                            "Runtime bundle CAS object 缺失或损坏："@ + entry.sha256@,
                        ),
                    )
                },
            }
        },
    }
}

/// Whether an entry of a bundle may be believed: it stands behind the one
/// before it, and its object is what it says.
pub fn check_entry(
    previous: &Option<String>,
    entry: &ArtifactEntry,
    plain: bool,
    facts: &ObjectFacts,
) -> (r: Result<(), AppError>)
    ensures
        error::follows(r, entry_refusal(model::opt_view(*previous), *entry, plain, *facts)),
{
    match validate_relative_path(entry.relative_path.as_str(), plain) {
        Err(e) => {
            return Err(e);
        },
        Ok(()) => {},
    }
    let sorted = match previous {
        Some(previous) => order::is_before(previous.as_str(), entry.relative_path.as_str()),
        None => true,
    };
    if !sorted {
        return Err(
            AppError::Provider("Runtime bundle entries 未按路径严格排序或存在重复".to_owned()),
        );
    }
    match validate_sha256(entry.sha256.as_str()) {
        Err(e) => {
            return Err(e);
        },
        Ok(()) => {},
    }
    if is_holding(entry, facts) {
        return Ok(());
    }
    Err(
        AppError::Provider(
            text::cat2("Runtime bundle CAS object 缺失或损坏：", entry.sha256.as_str()),
        ),
    )
}

/// Why the entries of a bundle are not believed.
pub open spec fn entries_refusal(
    entries: Seq<ArtifactEntry>,
    plain: Seq<bool>,
    facts: Seq<ObjectFacts>,
    n: nat,
) -> Option<ErrorView>
    decreases n,
{
    if n == 0 {
        None
    } else {
        match entries_refusal(entries, plain, facts, (n - 1) as nat) {
            Some(e) => Some(e),
            None => entry_refusal(
                if n == 1 {
                    None
                } else {
                    Some(entries[n - 2].relative_path@)
                },
                entries[n - 1],
                plain[n - 1],
                facts[n - 1],
            ),
        }
    }
}

proof fn refusal_stays(
    entries: Seq<ArtifactEntry>,
    plain: Seq<bool>,
    facts: Seq<ObjectFacts>,
    n: nat,
    m: nat,
)
    requires
        n <= m,
        entries_refusal(entries, plain, facts, n) is Some,
    ensures
        entries_refusal(entries, plain, facts, m) == entries_refusal(entries, plain, facts, n),
    decreases m - n,
{
    if n < m {
        refusal_stays(entries, plain, facts, n, (m - 1) as nat);
    }
}

/// Whether a bundle may be run: its description is right, its files are named
/// once and in order, and each of their objects is what it says.
pub fn verify_bundle(
    bundle: &RuntimeArtifactBundle,
    plain: &Vec<bool>,
    facts: &Vec<ObjectFacts>,
) -> (r: Result<(), AppError>)
    requires
        plain@.len() == bundle.entries@.len(),
        facts@.len() == bundle.entries@.len(),
    ensures
        error::follows(
            r,
            match manifest_refusal(*bundle) {
                Some(e) => Some(e),
                None => entries_refusal(
                    bundle.entries@,
                    plain@,
                    facts@,
                    bundle.entries@.len(),
                ),
            },
        ),
{
    match check_manifest(bundle) {
        Err(e) => {
            return Err(e);
        },
        Ok(()) => {},
    }
    let mut previous: Option<String> = None;
    let mut i: usize = 0;
    while i < bundle.entries.len()
        invariant
            i <= bundle.entries@.len(),
            plain@.len() == bundle.entries@.len(),
            facts@.len() == bundle.entries@.len(),
            manifest_refusal(*bundle) is None,
            entries_refusal(bundle.entries@, plain@, facts@, i as nat) is None,
            model::opt_view(previous) == (if i == 0 {
                None
            } else {
                Some(bundle.entries@[i - 1].relative_path@)
            }),
        decreases bundle.entries@.len() - i,
    {
        match check_entry(&previous, &bundle.entries[i], plain[i], &facts[i]) {
            Err(e) => {
                proof {
                    refusal_stays(
                        bundle.entries@,
                        plain@,
                        facts@,
                        (i + 1) as nat,
                        bundle.entries@.len(),
                    );
                }
                return Err(e);
            },
            Ok(()) => {},
        }
        previous = Some(bundle.entries[i].relative_path.clone());
        i = i + 1;
    }
    Ok(())
}

/// A bundle that may be run is whole: the paths of its files ascend, so that
/// none is named twice, and every object is what its entry says.
pub proof fn verified_bundles_are_whole(
    entries: Seq<ArtifactEntry>,
    plain: Seq<bool>,
    facts: Seq<ObjectFacts>,
    n: nat,
    i: int,
)
    requires
        n <= entries.len(),
        entries_refusal(entries, plain, facts, n) is None,
        0 <= i < n,
    ensures
        holds(entries[i], facts[i]),
        object_name(entries[i].sha256@),
        i > 0 ==> order::text_before(entries[i - 1].relative_path@, entries[i].relative_path@),
    decreases n,
{
    if i < n - 1 {
        verified_bundles_are_whole(entries, plain, facts, (n - 1) as nat, i);
    }
}

/// Whether the description of a bundle has the fingerprint that names it.
pub fn check_manifest_fingerprint(actual: &str, expected: &str) -> (r: Result<(), AppError>)
    ensures
        match r {
            Ok(()) => actual@ == expected@,
            Err(e) => actual@ != expected@ && e@ == ErrorView::Provider(
                "Runtime bundle manifest 内容哈希不匹配，CAS 已损坏"@,
            ),
        },
{
    if text::same(actual, expected) {
        return Ok(());
    }
    Err(
        AppError::Provider("Runtime bundle manifest 内容哈希不匹配，CAS 已损坏".to_owned()),
    )
}

/// A canonical JSON document with the line break at its end.
pub fn canonical_json(document: Vec<u8>) -> (r: Vec<u8>)
    ensures
        r@ == document@.push(10u8),
{
    let mut bytes = document;
    bytes.push(10u8);
    bytes
}

// ---------------------------------------------------------------------------
// The main assembly
// ---------------------------------------------------------------------------

/// A line that opens a section.
pub open spec fn opens_section(line: Seq<char>) -> bool {
    text::begins(line, "["@) && text::ends(line, "]"@) && line.len() >= 2
}

/// The section that is open after the first lines, and the JSON text of the
/// assembly name, where a line of the first ones gave it.
pub open spec fn scan_lines(lines: Seq<Seq<char>>, n: nat) -> (Seq<char>, Option<Seq<char>>)
    decreases n,
{
    if n == 0 {
        (Seq::empty(), None)
    } else {
        let (section, found) = scan_lines(lines, (n - 1) as nat);
        let line = text::trimmed(lines[n - 1]);
        if found is Some {
            (section, found)
        } else if opens_section(line) {
            (line.subrange(1, line.len() - 1), None)
        } else if section == "dotnet"@ {
            (section, text::after_prefix(line, "project/assembly_name="@))
        } else {
            (section, None)
        }
    }
}

/// The JSON text of the assembly name in a project file.
pub open spec fn assembly_setting(source: Seq<char>) -> Option<Seq<char>> {
    let lines = text::lines_of(source);
    scan_lines(lines, lines.len()).1
}

proof fn scanning_stops(lines: Seq<Seq<char>>, n: nat, m: nat)
    requires
        n <= m,
        scan_lines(lines, n).1 is Some,
    ensures
        scan_lines(lines, m).1 == scan_lines(lines, n).1,
    decreases m - n,
{
    if n < m {
        scanning_stops(lines, n, (m - 1) as nat);
    }
}

/// The JSON text of the assembly name in a project file.
pub fn find_assembly_setting(source: &str) -> (r: Option<String>)
    ensures
        model::opt_view(r) == assembly_setting(source@),
{
    let chars = text::chars_of(source);
    let lines = text::split_lines(&chars);
    let ghost all = text::lines_of(source@);
    let mut section: Vec<char> = Vec::new();
    let mut i: usize = 0;
    while i < lines.len()
        invariant
            i <= lines@.len(),
            all == text::lines_of(source@),
            all == text::char_views(lines@),
            scan_lines(all, i as nat) == (section@, None::<Seq<char>>),
        decreases lines@.len() - i,
    {
        let line = text::trim_chars(&lines[i]);
        assert(all[i as int] == lines@[i as int]@);
        if line.len() >= 2 && text::chars_begin(&line, "[") && text::chars_end(&line, "]") {
            section = text::slice_chars(&line, 1, line.len() - 1);
        } else {
            let name = text::text_of(section.as_slice());
            if text::same(name.as_str(), "dotnet") {
                let shown = text::text_of(line.as_slice());
                match text::strip_prefix(shown.as_str(), "project/assembly_name=") {
                    Some(value) => {
                        proof {
                            scanning_stops(all, (i + 1) as nat, all.len());
                        }
                        return Some(value);
                    },
                    None => {},
                }
            }
        }
        i = i + 1;
    }
    None
}

/// The first entry of a path, up to ASCII case.
pub open spec fn entry_named(entries: Seq<ArtifactEntry>, path: Seq<char>) -> Option<ArtifactEntry>
    decreases entries.len(),
{
    if entries.len() == 0 {
        None
    } else if text::lowered(entries[0].relative_path@) == text::lowered(path) {
        Some(entries[0])
    } else {
        entry_named(entries.skip(1), path)
    }
}

/// Why no main assembly is bound.
pub open spec fn assembly_refusal(
    name: Option<Seq<char>>,
    entries: Seq<ArtifactEntry>,
) -> Option<ErrorView> {
    match name {
        None => Some(
            ErrorView::Provider(
                "Godot C# 项目缺少 [dotnet] project/assembly_name，无法绑定主程序集"@,
            ),
        ),
        Some(name) => if name.len() == 0 || !text::plain_name(name) {
            Some(ErrorView::Provider("Godot project/assembly_name 含不安全字符"@))
        } else if entry_named(entries, name + ".dll"@) is None {
            Some(
                ErrorView::Provider(
                    "Build 最终产物不含 Godot 主程序集 "@ + text::quoted(name + ".dll"@),
                ),
            )
        } else {
            None
        },
    }
}

/// The main assembly of a name among the files that were built.
pub fn bind_assembly(name: &Option<String>, entries: &Vec<ArtifactEntry>) -> (r: Result<
    AssemblyBindingAttestation,
    AppError,
>)
    ensures
        error::follows(r, assembly_refusal(model::opt_view(*name), entries@)),
        r matches Ok(a) ==> {
            &&& Some(a.assembly_name@) == model::opt_view(*name)
            &&& entry_named(entries@, a.assembly_name@ + ".dll"@) is Some
            &&& a.relative_path == entry_named(
                entries@,
                a.assembly_name@ + ".dll"@,
            )->0.relative_path
            &&& a.sha256 == entry_named(entries@, a.assembly_name@ + ".dll"@)->0.sha256
        },
{
    let name = match name {
        None => {
            return Err(
                AppError::Provider(
                    "Godot C# 项目缺少 [dotnet] project/assembly_name，无法绑定主程序集".to_owned(),
                ),
            );
        },
        Some(name) => name,
    };
    if text::length(name.as_str()) == 0 || !text::is_plain_name(name.as_str()) {
        return Err(
            AppError::Provider("Godot project/assembly_name 含不安全字符".to_owned()),
        );
    }
    let path = text::cat2(name.as_str(), ".dll");
    let mut i: usize = 0;
    assert(entries@.skip(0) =~= entries@);
    while i < entries.len() && !text::same_ignoring_case(
        entries[i].relative_path.as_str(),
        path.as_str(),
    )
        invariant
            i <= entries@.len(),
            entry_named(entries@, path@) == entry_named(entries@.skip(i as int), path@),
        decreases entries@.len() - i,
    {
        assert(entries@.skip(i as int)[0] == entries@[i as int]);
        assert(entries@.skip(i as int).skip(1) =~= entries@.skip(i + 1));
        i = i + 1;
    }
    if i == entries.len() {
        let shown = text::quote(path.as_str());
        return Err(
            AppError::Provider(
                text::cat2("Build 最终产物不含 Godot 主程序集 ", shown.as_str()),
            ),
        );
    }
    assert(entries@.skip(i as int)[0] == entries@[i as int]);
    Ok(
        AssemblyBindingAttestation {
            assembly_name: name.clone(),
            relative_path: entries[i].relative_path.clone(),
            sha256: entries[i].sha256.clone(),
        },
    )
}

/// The assembly name that a project file gives.
pub open spec fn assembly_name_of(source: Seq<char>) -> Option<Seq<char>> {
    match assembly_setting(source) {
        Some(value) => json::json_string(value),
        None => None,
    }
}

/// The main assembly of a project among the files that were built, given the
/// text of its project file; nothing is bound where it has none.
pub fn assembly_binding(source: &Option<String>, entries: &Vec<ArtifactEntry>) -> (r: Result<
    Option<AssemblyBindingAttestation>,
    AppError,
>)
    ensures
        match *source {
            None => r matches Ok(None),
            Some(text) => {
                &&& error::follows(r, assembly_refusal(assembly_name_of(text@), entries@))
                &&& r matches Ok(a) ==> {
                    let entry = entry_named(entries@, a->0.assembly_name@ + ".dll"@);
                    &&& a is Some && entry is Some
                    &&& Some(a->0.assembly_name@) == assembly_name_of(text@)
                    &&& a->0.relative_path == entry->0.relative_path
                    &&& a->0.sha256 == entry->0.sha256
                }
            },
        },
{
    let source = match source {
        None => {
            return Ok(None);
        },
        Some(source) => source,
    };
    let name = match find_assembly_setting(source.as_str()) {
        Some(value) => json::read_string(value.as_str()),
        None => None,
    };
    match bind_assembly(&name, entries) {
        Err(e) => Err(e),
        Ok(bound) => Ok(Some(bound)),
    }
}

// ---------------------------------------------------------------------------
// Promotion
// ---------------------------------------------------------------------------

/// The files that a build made, as a bundle to be kept.
pub fn new_bundle(
    project_key: &str,
    build_provider_id: &str,
    source_fingerprint: &str,
    manifest: ArtifactManifest,
    assembly_binding: Option<AssemblyBindingAttestation>,
) -> (r: RuntimeArtifactBundle)
    ensures
        r.schema_version == STORE_SCHEMA_VERSION,
        r.project_key@ == project_key@,
        r.build_provider_id@ == build_provider_id@,
        r.source_fingerprint@ == source_fingerprint@,
        r.artifact_manifest_fingerprint == manifest.manifest_fingerprint,
        r.total_bytes == manifest.total_bytes,
        r.entries == manifest.entries,
        r.assembly_binding == assembly_binding,
{
    RuntimeArtifactBundle {
        schema_version: STORE_SCHEMA_VERSION,
        project_key: project_key.to_owned(),
        build_provider_id: build_provider_id.to_owned(),
        source_fingerprint: source_fingerprint.to_owned(),
        artifact_manifest_fingerprint: manifest.manifest_fingerprint,
        total_bytes: manifest.total_bytes,
        entries: manifest.entries,
        assembly_binding,
    }
}

/// What is handed out for a bundle that is kept.
#[derive(Debug, Clone, PartialEq, Eq)]
pub struct RuntimeArtifactBundleReceipt {
    pub bundle_fingerprint: String,
    pub artifact_manifest_fingerprint: String,
    pub file_count: usize,
    pub total_bytes: u64,
    pub assembly_binding: Option<AssemblyBindingAttestation>,
    pub canonical_manifest: Vec<u8>,
}

impl RuntimeArtifactBundleReceipt {
    /// The description of the bundle, byte by byte.
    pub fn canonical_manifest_bytes(&self) -> (r: &[u8])
        ensures
            r@ == self.canonical_manifest@,
    {
        self.canonical_manifest.as_slice()
    }
}

/// What is handed out for a bundle that is kept under a fingerprint.
pub fn receipt(
    bundle: RuntimeArtifactBundle,
    bundle_fingerprint: &str,
    canonical_manifest: Vec<u8>,
) -> (r: RuntimeArtifactBundleReceipt)
    ensures
        r.bundle_fingerprint@ == bundle_fingerprint@,
        r.artifact_manifest_fingerprint == bundle.artifact_manifest_fingerprint,
        r.file_count == bundle.entries@.len(),
        r.total_bytes == bundle.total_bytes,
        r.assembly_binding == bundle.assembly_binding,
        r.canonical_manifest == canonical_manifest,
{
    let file_count: usize = bundle.entries.len();
    RuntimeArtifactBundleReceipt {
        bundle_fingerprint: bundle_fingerprint.to_owned(),
        artifact_manifest_fingerprint: bundle.artifact_manifest_fingerprint,
        file_count,
        total_bytes: bundle.total_bytes,
        assembly_binding: bundle.assembly_binding,
        canonical_manifest,
    }
}

fn same_bytes(a: &Vec<u8>, b: &Vec<u8>) -> (r: bool)
    ensures
        r == (a@ == b@),
{
    if a.len() != b.len() {
        return false;
    }
    let mut i: usize = 0;
    while i < a.len()
        invariant
            i <= a@.len() == b@.len(),
            forall|k: int| 0 <= k < i ==> a@[k] == b@[k],
        decreases a@.len() - i,
    {
        if a[i] != b[i] {
            return false;
        }
        i = i + 1;
    }
    assert(a@ =~= b@);
    true
}

/// Whether a description that is there already is the one to be written.
pub fn check_existing_manifest(found: &Vec<u8>, expected: &Vec<u8>, shown: &str) -> (r: Result<
    (),
    AppError,
>)
    ensures
        match r {
            Ok(()) => found@ == expected@,
            Err(e) => found@ != expected@ && e@ == ErrorView::Provider(
                "CAS 中已存在同 fingerprint 但内容不同的 manifest："@ + shown@,
            ),
        },
{
    if same_bytes(found, expected) {
        return Ok(());
    }
    Err(
        AppError::Provider(
            text::cat2("CAS 中已存在同 fingerprint 但内容不同的 manifest：", shown),
        ),
    )
}

/// Whether a description that was just written is the one to be written.
pub fn check_written_manifest(found: &Vec<u8>, expected: &Vec<u8>) -> (r: Result<(), AppError>)
    ensures
        match r {
            Ok(()) => found@ == expected@,
            Err(e) => found@ != expected@ && e@ == ErrorView::Provider(
                "CAS manifest 原子提交后的内容校验失败"@,
            ),
        },
{
    if same_bytes(found, expected) {
        return Ok(());
    }
    Err(AppError::Provider("CAS manifest 原子提交后的内容校验失败".to_owned()))
}

/// What was kept is found again: a bundle whose files are named once, in order
/// and in the right form passes, once every object is in the store as its entry
/// says.
pub proof fn promoted_bundles_verify(
    bundle: RuntimeArtifactBundle,
    plain: Seq<bool>,
    facts: Seq<ObjectFacts>,
    n: nat,
)
    requires
        n <= bundle.entries@.len(),
        forall|i: int|
            0 <= i < n ==> relative_refusal(
                (#[trigger] bundle.entries@[i]).relative_path@,
                plain[i],
            ) is None,
        forall|i: int| 0 <= i < n ==> object_name((#[trigger] bundle.entries@[i]).sha256@),
        forall|i: int| 0 <= i < n ==> holds(#[trigger] bundle.entries@[i], facts[i]),
        forall|i: int, j: int|
            0 <= i < j < n ==> order::text_before(
                (#[trigger] bundle.entries@[i]).relative_path@,
                (#[trigger] bundle.entries@[j]).relative_path@,
            ),
    ensures
        entries_refusal(bundle.entries@, plain, facts, n) is None,
    decreases n,
{
    if n > 0 {
        promoted_bundles_verify(bundle, plain, facts, (n - 1) as nat);
        assert(holds(bundle.entries@[n - 1], facts[n - 1]));
        if n > 1 {
            assert(order::text_before(
                bundle.entries@[n - 2].relative_path@,
                bundle.entries@[n - 1].relative_path@,
            ));
        }
    }
}

/// The entries of a bundle stand exactly where each has a plain relative path, no
/// path comes before or with the one above it, and the object under the hash of
/// each is there and holds what the entry says.
pub proof fn bundles_stand_with_every_entry(
    entries: Seq<ArtifactEntry>,
    plain: Seq<bool>,
    facts: Seq<ObjectFacts>,
    n: nat,
)
    requires
        n <= entries.len(),
    ensures
        entries_refusal(entries, plain, facts, n) is None <==> forall|i: int|
            0 <= i < n ==> {
                let e = #[trigger] entries[i];
                &&& e.relative_path@.len() > 0 && plain[i]
                &&& !text::occurs(e.relative_path@, "\\"@)
                &&& i > 0 ==> order::text_before(entries[i - 1].relative_path@, e.relative_path@)
                &&& e.sha256@.len() == 64 && all_hex(e.sha256@)
                &&& facts[i].regular && facts[i].len == e.size && facts[i].sha256@ == e.sha256@
            },
    decreases n,
{
    if n > 0 {
        bundles_stand_with_every_entry(entries, plain, facts, (n - 1) as nat);
        let e = entries[n - 1];
        assert(entry_refusal(
            if n == 1 {
                None
            } else {
                Some(entries[n - 2].relative_path@)
            },
            e,
            plain[n - 1],
            facts[n - 1],
        ) is None <==> {
            &&& e.relative_path@.len() > 0 && plain[n - 1]
            &&& !text::occurs(e.relative_path@, "\\"@)
            &&& n > 1 ==> order::text_before(entries[n - 2].relative_path@, e.relative_path@)
            &&& e.sha256@.len() == 64 && all_hex(e.sha256@)
            &&& facts[n - 1].regular && facts[n - 1].len == e.size && facts[n - 1].sha256@
                == e.sha256@
        });
    }
}

/// A file goes into the store exactly where it is a regular file inside the
/// build's output and holds what its entry says; and a bundle is read exactly
/// where it is of this form, holds something and its sum is that of its entries.
pub proof fn only_told_files_are_stored(
    entry: ArtifactEntry,
    facts: ObjectFacts,
    shown: Seq<char>,
    bundle: RuntimeArtifactBundle,
)
    ensures
        source_refusal(entry, facts, shown) is None <==> facts.regular && facts.inside && facts.len
            == entry.size && facts.sha256@ == entry.sha256@,
        manifest_refusal(bundle) is None <==> bundle.schema_version == STORE_SCHEMA_VERSION
            && bundle.entries@.len() > 0 && bundle.total_bytes == build_evidence::sizes(
            bundle.entries@,
        ),
{
}

/// The entry of a path is the first one with it, whatever the case of its
/// letters, and the main assembly is bound exactly where it has a plain name and
/// an entry.
pub proof fn the_main_assembly_is_among_the_entries(entries: Seq<ArtifactEntry>, path: Seq<char>)
    ensures
        entry_named(entries, path) is Some <==> exists|i: int|
            0 <= i < entries.len() && text::lowered((#[trigger] entries[i]).relative_path@)
                == text::lowered(path),
        assembly_refusal(None, entries) is Some,
        assembly_refusal(Some(path), entries) is None <==> path.len() > 0 && text::plain_name(path)
            && entry_named(entries, path + ".dll"@) is Some,
    decreases entries.len(),
{
    if entries.len() > 0 && text::lowered(entries[0].relative_path@) != text::lowered(path) {
        let rest = entries.skip(1);
        the_main_assembly_is_among_the_entries(rest, path);
        if entry_named(rest, path) is Some {
            let i = choose|i: int|
                0 <= i < rest.len() && text::lowered((#[trigger] rest[i]).relative_path@)
                    == text::lowered(path);
            assert(entries[i + 1] == rest[i]);
        }
        if exists|i: int|
            0 <= i < entries.len() && text::lowered((#[trigger] entries[i]).relative_path@)
                == text::lowered(path) {
            let i = choose|i: int|
                0 <= i < entries.len() && text::lowered((#[trigger] entries[i]).relative_path@)
                    == text::lowered(path);
            assert(rest[i - 1] == entries[i]);
        }
    }
}

/// In a list of lines, the setting stands in line `i`, and line `s` is the last
/// before it that opens a section.
pub open spec fn set_in(lines: Seq<Seq<char>>, s: int, i: int, value: Seq<char>) -> bool {
    &&& 0 <= s < i < lines.len()
    &&& text::trimmed(lines[s]) == "[dotnet]"@
    &&& text::trimmed(lines[i]) == "project/assembly_name="@ + value
    &&& forall|k: int| s < k < i ==> !opens_section(text::trimmed(#[trigger] lines[k]))
}

proof fn the_last_opened_section(lines: Seq<Seq<char>>, n: nat)
    requires
        n <= lines.len(),
        scan_lines(lines, n).1 is None,
    ensures
        forall|s: int|
            0 <= s < n && opens_section(text::trimmed(#[trigger] lines[s])) && (forall|k: int|
                s < k < n ==> !opens_section(text::trimmed(#[trigger] lines[k])))
                ==> scan_lines(lines, n).0 == text::trimmed(lines[s]).subrange(
                1,
                text::trimmed(lines[s]).len() - 1,
            ),
        scan_lines(lines, n).0.len() > 0 ==> exists|s: int|
            0 <= s < n && opens_section(text::trimmed(#[trigger] lines[s])) && forall|k: int|
                s < k < n ==> !opens_section(text::trimmed(#[trigger] lines[k])),
    decreases n,
{
    if n > 0 {
        let n0 = (n - 1) as nat;
        let line = text::trimmed(lines[n - 1]);
        the_last_opened_section(lines, n0);
        if opens_section(line) {
            assert(opens_section(text::trimmed(lines[n - 1])));
        } else {
            assert(scan_lines(lines, n).0 == scan_lines(lines, n0).0);
            assert forall|s: int|
                0 <= s < n && opens_section(text::trimmed(#[trigger] lines[s])) && (forall|k: int|
                    s < k < n ==> !opens_section(
                        text::trimmed(#[trigger] lines[k]),
                    )) implies scan_lines(lines, n).0 == text::trimmed(lines[s]).subrange(
                1,
                text::trimmed(lines[s]).len() - 1,
            ) by {
                assert(s < n0);
            }
            if scan_lines(lines, n).0.len() > 0 {
                let s = choose|s: int|
                    0 <= s < n0 && opens_section(text::trimmed(#[trigger] lines[s]))
                        && forall|k: int|
                        s < k < n0 ==> !opens_section(text::trimmed(#[trigger] lines[k]));
                assert forall|k: int| s < k < n implies !opens_section(
                    text::trimmed(#[trigger] lines[k]),
                ) by {}
                assert(opens_section(text::trimmed(lines[s])));
            }
        }
    }
}

/// A setting that is found stands behind its name in a line of the section
/// `[dotnet]`.
pub proof fn found_settings_are_in_their_section(lines: Seq<Seq<char>>, n: nat)
    requires
        n <= lines.len(),
        scan_lines(lines, n).1 is Some,
    ensures
        exists|s: int, i: int| #[trigger]
            set_in(lines, s, i, scan_lines(lines, n).1->0) && i < n,
    decreases n,
{
    if n > 0 {
        let n0 = (n - 1) as nat;
        let line = text::trimmed(lines[n - 1]);
        if scan_lines(lines, n0).1 is Some {
            found_settings_are_in_their_section(lines, n0);
        } else {
            let value = scan_lines(lines, n).1->0;
            let name = "project/assembly_name="@;
            the_last_opened_section(lines, n0);
            reveal_strlit("dotnet");
            reveal_strlit("[dotnet]");
            reveal_strlit("[");
            reveal_strlit("]");
            assert(scan_lines(lines, n0).0 == "dotnet"@);
            let s = choose|s: int|
                0 <= s < n0 && opens_section(text::trimmed(#[trigger] lines[s])) && forall|k: int|
                    s < k < n0 ==> !opens_section(text::trimmed(#[trigger] lines[k]));
            let head = text::trimmed(lines[s]);
            assert(head.subrange(1, head.len() - 1) == "dotnet"@);
            assert(head =~= "[dotnet]"@) by {
                assert(head.subrange(0, 1)[0] == "["@[0]);
                assert(head.subrange(head.len() - 1, head.len() as int)[0] == "]"@[0]);
                assert forall|k: int| 1 <= k < head.len() - 1 implies head[k] == "[dotnet]"@[k] by {
                    assert(head.subrange(1, head.len() - 1)[k - 1] == "dotnet"@[k - 1]);
                }
            }
            assert(line =~= name + value) by {
                assert(line.subrange(0, name.len() as int) =~= name);
            }
            assert(set_in(lines, s, n - 1, value));
        }
    }
}

/// A setting that stands in its section is found.
pub proof fn settings_in_their_section_are_found(
    lines: Seq<Seq<char>>,
    s: int,
    i: int,
    value: Seq<char>,
)
    requires
        set_in(lines, s, i, value),
    ensures
        scan_lines(lines, lines.len()).1 is Some,
{
    let name = "project/assembly_name="@;
    let line = text::trimmed(lines[i]);
    let n = i as nat;
    if scan_lines(lines, n).1 is None {
        the_last_opened_section(lines, n);
        reveal_strlit("dotnet");
        reveal_strlit("[dotnet]");
        reveal_strlit("[");
        reveal_strlit("]");
        reveal_strlit("project/assembly_name=");
        let head = text::trimmed(lines[s]);
        assert(head.subrange(0, 1) =~= "["@);
        assert(head.subrange(head.len() - 1, head.len() as int) =~= "]"@);
        assert(opens_section(text::trimmed(lines[s])));
        assert(head.subrange(1, head.len() - 1) =~= "dotnet"@);
        assert(scan_lines(lines, n).0 == "dotnet"@);
        assert(line.subrange(0, name.len() as int) =~= name);
        assert(!opens_section(line)) by {
            assert(line[0] == 'p');
            if text::begins(line, "["@) {
                assert(line.subrange(0, 1)[0] == "["@[0]);
            }
        }
        assert(scan_lines(lines, (i + 1) as nat).1 is Some);
        found_stays_found(lines, (i + 1) as nat, lines.len());
    } else {
        found_stays_found(lines, n, lines.len());
    }
}

proof fn found_stays_found(lines: Seq<Seq<char>>, a: nat, b: nat)
    requires
        a <= b,
        scan_lines(lines, a).1 is Some,
    ensures
        scan_lines(lines, b).1 == scan_lines(lines, a).1,
    decreases b,
{
    if a < b {
        found_stays_found(lines, a, (b - 1) as nat);
    }
}

} // verus!
