//! The inputs that evidence depends on: which files they are, and what is
//! recorded of each.
use crate::digest;
use crate::error::{self, AppError, ErrorView};
use crate::model;
use crate::order;
use crate::text;
use vstd::prelude::*;

verus! {

broadcast use {vstd::string::group_string_axioms, vstd::seq::group_seq_axioms};

/// How many files a scan of the file system may find.
pub const MAX_FILESYSTEM_INPUTS: usize = 100000;

// ---------------------------------------------------------------------------
// Contracts
// ---------------------------------------------------------------------------

/// What the fingerprint of a profile contract is made from: its parts, each
/// after its length.
pub open spec fn contract_bytes(parts: Seq<Seq<char>>) -> Seq<u8> {
    digest::framed(digest::utf8_of(parts))
}

/// What the fingerprint of a profile contract is made from.
pub fn profile_contract_bytes(parts: &Vec<&str>) -> (r: Vec<u8>)
    ensures
        r@ == contract_bytes(text::str_views(parts@)),
{
    digest::frame(parts)
}

/// What the fingerprint of a contract on the whole repository is made from.
pub fn conservative_repository_contract(
    project_key: &str,
    profile_id: &str,
    provider_contract_id: &str,
    provider_contract_version: u32,
) -> (r: Vec<u8>)
    ensures
        r@ == contract_bytes(
            seq![
                "project-brain/provider-profile/v1"@,
                project_key@,
                profile_id@,
                provider_contract_id@,
                text::decimal(provider_contract_version as nat),
                "repository-visible:**"@,
            ],
        ),
{
    let version = text::decimal_text(provider_contract_version as u64);
    let mut parts: Vec<&str> = Vec::new();
    parts.push("project-brain/provider-profile/v1");
    parts.push(project_key);
    parts.push(profile_id);
    parts.push(provider_contract_id);
    parts.push(version.as_str());
    parts.push("repository-visible:**");
    assert(text::str_views(parts@) =~= seq![
        "project-brain/provider-profile/v1"@,
        project_key@,
        profile_id@,
        provider_contract_id@,
        version@,
        "repository-visible:**"@,
    ]);
    profile_contract_bytes(&parts)
}

/// A source root as selectors write it: nothing for the project itself.
pub open spec fn selector_root(source_root: Seq<char>) -> Seq<char> {
    if source_root == "."@ {
        Seq::empty()
    } else {
        source_root
    }
}

/// What the fingerprint of a contract on Python sources is made from, with the
/// root that its selector has.
pub fn python_compile_contract(
    project_key: &str,
    profile_id: &str,
    source_root: &str,
    provider_contract_version: u32,
) -> (r: (String, Vec<u8>))
    ensures
        r.0@ == selector_root(source_root@),
        r.1@ == contract_bytes(
            seq![
                "project-brain/provider-profile/v1"@,
                project_key@,
                profile_id@,
                "python-compile"@,
                text::decimal(provider_contract_version as nat),
                selector_root(source_root@),
                "repository-visible:**/*.py"@,
            ],
        ),
{
    let root = if text::same(source_root, ".") {
        String::new()
    } else {
        source_root.to_owned()
    };
    assert(root@ =~= selector_root(source_root@));
    let version = text::decimal_text(provider_contract_version as u64);
    let mut parts: Vec<&str> = Vec::new();
    parts.push("project-brain/provider-profile/v1");
    parts.push(project_key);
    parts.push(profile_id);
    parts.push("python-compile");
    parts.push(version.as_str());
    parts.push(root.as_str());
    parts.push("repository-visible:**/*.py");
    assert(text::str_views(parts@) =~= seq![
        "project-brain/provider-profile/v1"@,
        project_key@,
        profile_id@,
        "python-compile"@,
        version@,
        root@,
        "repository-visible:**/*.py"@,
    ]);
    let bytes = profile_contract_bytes(&parts);
    (root, bytes)
}

// ---------------------------------------------------------------------------
// Entries
// ---------------------------------------------------------------------------

/// Whether an input is there.
#[derive(Debug, Clone, Copy, PartialEq, Eq, Structural)]
pub enum InputPathState {
    PresentRegularFile,
    Absent,
}

/// What is recorded of an input.
#[derive(Debug, Clone, PartialEq, Eq)]
pub struct InputManifestEntry {
    pub path: String,
    pub state: InputPathState,
    pub role: String,
    pub content_sha256: Option<String>,
    pub size: Option<u64>,
}

/// What an entry says, besides the path that it is of.
pub struct EntryView {
    pub state: InputPathState,
    pub role: Seq<char>,
    pub content_sha256: Option<Seq<char>>,
    pub size: Option<u64>,
}

impl View for InputManifestEntry {
    type V = EntryView;

    open spec fn view(&self) -> EntryView {
        EntryView {
            state: self.state,
            role: self.role@,
            content_sha256: model::opt_view(self.content_sha256),
            size: self.size,
        }
    }
}

fn same_entry(a: &InputManifestEntry, b: &InputManifestEntry) -> (r: bool)
    ensures
        r == (a@ == b@),
{
    let same_size = match (a.size, b.size) {
        (Some(x), Some(y)) => x == y,
        (None, None) => true,
        _ => false,
    };
    a.state == b.state && text::same(a.role.as_str(), b.role.as_str()) && model::same_opt(
        &a.content_sha256,
        &b.content_sha256,
    ) && same_size
}

/// The paths of entries.
pub open spec fn entry_paths(entries: Seq<InputManifestEntry>) -> Seq<Seq<char>> {
    entries.map_values(|e: InputManifestEntry| e.path@)
}

/// The entries of a manifest: one for each path, in the order of the paths.
#[derive(Debug, Clone, PartialEq, Eq)]
pub struct InputEntries {
    pub items: Vec<InputManifestEntry>,
}

impl InputEntries {
    /// One entry for each path, in order.
    pub open spec fn valid(self) -> bool {
        order::ascending(entry_paths(self.items@))
    }

    /// What is recorded of each path.
    pub open spec fn says(self) -> Map<Seq<char>, EntryView> {
        recorded(self.items@)
    }

    pub fn new() -> (r: Self)
        ensures
            r.valid(),
            r.says() == Map::<Seq<char>, EntryView>::empty(),
    {
        let r = InputEntries { items: Vec::new() };
        assert(r.says() =~= Map::<Seq<char>, EntryView>::empty());
        r
    }
}

/// What is recorded of each path by entries.
pub open spec fn recorded(entries: Seq<InputManifestEntry>) -> Map<Seq<char>, EntryView> {
    Map::new(
        |p: Seq<char>| entry_paths(entries).contains(p),
        |p: Seq<char>| entries[entry_index(entries, p)]@,
    )
}

/// The place of the entry of a path among entries.
pub open spec fn entry_index(entries: Seq<InputManifestEntry>, path: Seq<char>) -> int {
    choose|i: int| 0 <= i < entries.len() && (#[trigger] entries[i]).path@ == path
}

proof fn only_index(entries: Seq<InputManifestEntry>, i: int)
    requires
        order::ascending(entry_paths(entries)),
        0 <= i < entries.len(),
    ensures
        entry_index(entries, entries[i].path@) == i,
        entry_paths(entries).contains(entries[i].path@),
{
    let p = entries[i].path@;
    let k = entry_index(entries, p);
    assert(entries[i].path@ == p);
    let paths = entry_paths(entries);
    assert(paths[i] == p && paths[k] == p);
    order::text_before_irreflexive(p);
    if k < i {
        assert(order::text_before(paths[k], paths[i]));
    } else if i < k {
        assert(order::text_before(paths[i], paths[k]));
    }
}

/// Why an entry is not taken in: another one says otherwise of its path.
pub open spec fn conflict(
    recorded: Map<Seq<char>, EntryView>,
    path: Seq<char>,
    entry: EntryView,
) -> Option<ErrorView> {
    if recorded.dom().contains(path) && recorded[path] != entry {
        Some(
            ErrorView::Provider(
                "Evidence input path="@ + text::quoted(path)
                    + " 被 selector 赋予冲突的 role/state"@,
            ),
        )
    } else {
        None
    }
}

impl InputEntries {
    /// Take in an entry: the same one again changes nothing, and a different
    /// one of the same path is refused.
    pub fn insert(&mut self, entry: InputManifestEntry) -> (r: Result<(), AppError>)
        requires
            old(self).valid(),
        ensures
            final(self).valid(),
            error::follows(r, conflict(old(self).says(), entry.path@, entry@)),
            r is Ok ==> final(self).says() == old(self).says().insert(entry.path@, entry@),
            r is Err ==> *final(self) == *old(self),
    {
        let ghost before = self.items@;
        let ghost paths = entry_paths(before);
        let mut at: usize = 0;
        while at < self.items.len() && order::is_before(
            self.items[at].path.as_str(),
            entry.path.as_str(),
        )
            invariant
                at <= self.items@.len(),
                self.items@ == before,
                paths == entry_paths(before),
                forall|k: int| 0 <= k < at ==> order::text_before(#[trigger] paths[k], entry.path@),
            decreases self.items@.len() - at,
        {
            at = at + 1;
        }
        if at < self.items.len() && text::same(self.items[at].path.as_str(), entry.path.as_str()) {
            proof {
                only_index(before, at as int);
                assert(self.says().dom().contains(entry.path@));
                assert(self.says()[entry.path@] == before[at as int]@);
            }
            if same_entry(&self.items[at], &entry) {
                assert(self.says() =~= old(self).says().insert(entry.path@, entry@));
                return Ok(());
            }
            let shown = text::quote(entry.path.as_str());
            return Err(
                AppError::Provider(
                    text::cat3(
                        "Evidence input path=",
                        shown.as_str(),
                        " 被 selector 赋予冲突的 role/state",
                    ),
                ),
            );
        }
        let ghost p = entry.path@;
        let ghost e = entry;
        proof {
            if at < before.len() {
                order::text_before_total(before[at as int].path@, p);
                assert(paths[at as int] == before[at as int].path@);
            }
            assert(!paths.contains(p)) by {
                if paths.contains(p) {
                    let k = choose|k: int| 0 <= k < paths.len() && paths[k] == p;
                    order::text_before_irreflexive(p);
                    if k > at {
                        assert(order::text_before(paths[at as int], paths[k]));
                        order::text_before_transitive(p, paths[at as int], paths[k]);
                    }
                }
            }
        }
        self.items.insert(at, entry);
        proof {
            let after = self.items@;
            let now = entry_paths(after);
            assert(now =~= paths.insert(at as int, p));
            assert forall|i: int, j: int| 0 <= i < j < now.len() implies order::text_before(
                #[trigger] now[i],
                #[trigger] now[j],
            ) by {
                if i < at && j < at {
                    assert(order::text_before(paths[i], paths[j]));
                } else if i < at && j > at {
                    assert(order::text_before(paths[i], paths[j - 1]));
                } else if i == at {
                    assert(order::text_before(p, paths[at as int]));
                    if j - 1 > at {
                        assert(order::text_before(paths[at as int], paths[j - 1]));
                        order::text_before_transitive(p, paths[at as int], paths[j - 1]);
                    }
                } else if i > at {
                    assert(order::text_before(paths[i - 1], paths[j - 1]));
                }
            }
            insertion_is_recorded(before, at as int, e);
        }
        Ok(())
    }
}

proof fn insertion_is_recorded(before: Seq<InputManifestEntry>, at: int, e: InputManifestEntry)
    requires
        0 <= at <= before.len(),
        order::ascending(entry_paths(before)),
        order::ascending(entry_paths(before.insert(at, e))),
        !entry_paths(before).contains(e.path@),
    ensures
        recorded(before.insert(at, e)) == recorded(before).insert(e.path@, e@),
{
    let after = before.insert(at, e);
    let old_paths = entry_paths(before);
    let now = entry_paths(after);
    assert(now =~= old_paths.insert(at, e.path@));
    assert forall|p: Seq<char>| now.contains(p) <==> (old_paths.contains(p) || p == e.path@) by {
        if old_paths.contains(p) {
            let k = choose|k: int| 0 <= k < old_paths.len() && old_paths[k] == p;
            assert(now[if k < at {
                k
            } else {
                k + 1
            }] == p);
        }
        if p == e.path@ {
            assert(now[at] == p);
        }
        if now.contains(p) && p != e.path@ {
            let k = choose|k: int| 0 <= k < now.len() && now[k] == p;
            assert(old_paths[if k < at {
                k
            } else {
                k - 1
            }] == p);
        }
    }
    assert forall|p: Seq<char>| now.contains(p) implies recorded(after)[p] == recorded(
        before,
    ).insert(e.path@, e@)[p] by {
        if p == e.path@ {
            only_index(after, at);
        } else {
            let k = choose|k: int| 0 <= k < old_paths.len() && old_paths[k] == p;
            only_index(before, k);
            let m = if k < at {
                k
            } else {
                k + 1
            };
            assert(after[m] == before[k]);
            only_index(after, m);
        }
    }
    assert(recorded(after) =~= recorded(before).insert(e.path@, e@));
}

/// What is found of a file that a selector names: whether it is a regular file
/// and no link, where it leads, and what it holds.
#[derive(Debug, Clone, PartialEq, Eq)]
pub struct FoundFile {
    pub regular: bool,
    pub canonical: String,
    pub inside_root: bool,
    pub sha256: String,
    pub size: u64,
}

/// Why a file is no input.
pub open spec fn file_refusal(path: Seq<char>, found: FoundFile) -> Option<ErrorView> {
    if !found.regular {
        Some(
            ErrorView::Provider(
                "Evidence input="@ + text::quoted(path)
                    + " 必须是项目内普通文件，拒绝 symlink/reparse/directory/special file"@,
            ),
        )
    } else if !found.inside_root {
        Some(ErrorView::RepositoryPathOutsideRoot(found.canonical@))
    } else {
        None
    }
}

/// What is recorded of a file.
pub open spec fn file_entry(found: FoundFile, role: Seq<char>) -> EntryView {
    EntryView {
        state: InputPathState::PresentRegularFile,
        role,
        content_sha256: Some("sha256_"@ + found.sha256@),
        size: Some(found.size),
    }
}

/// What is recorded of a file that is not there.
pub open spec fn absent_entry(role: Seq<char>) -> EntryView {
    EntryView {
        state: InputPathState::Absent,
        role,
        content_sha256: None,
        size: None,
    }
}

/// What is recorded of a file that a selector names.
pub fn regular_file_entry(path: &str, role: &str, found: &FoundFile) -> (r: Result<
    InputManifestEntry,
    AppError,
>)
    ensures
        error::follows(r, file_refusal(path@, *found)),
        r matches Ok(e) ==> e.path@ == path@ && e@ == file_entry(*found, role@),
{
    if !found.regular {
        let shown = text::quote(path);
        return Err(
            AppError::Provider(
                text::cat3(
                    "Evidence input=",
                    shown.as_str(),
                    " 必须是项目内普通文件，拒绝 symlink/reparse/directory/special file",
                ),
            ),
        );
    }
    if !found.inside_root {
        return Err(AppError::RepositoryPathOutsideRoot(found.canonical.clone()));
    }
    Ok(
        InputManifestEntry {
            path: path.to_owned(),
            state: InputPathState::PresentRegularFile,
            role: role.to_owned(),
            content_sha256: Some(text::cat2("sha256_", found.sha256.as_str())),
            size: Some(found.size),
        },
    )
}

/// A file that a selector names: nothing is found where it is not there.  Of
/// an exact path it may be told that it is not there; a file of a tree has to
/// be.
#[derive(Debug, Clone, PartialEq, Eq)]
pub struct SelectedFile {
    pub path: String,
    pub role: String,
    pub found: Option<FoundFile>,
    pub exact: bool,
    pub presence_sensitive: bool,
}

/// What is recorded so far, with one more file that a selector names.
pub open spec fn with_file(
    so_far: Map<Seq<char>, EntryView>,
    file: SelectedFile,
) -> Result<Map<Seq<char>, EntryView>, ErrorView> {
    match file.found {
        Some(found) => match file_refusal(file.path@, found) {
            Some(e) => Err(e),
            None => match conflict(so_far, file.path@, file_entry(found, file.role@)) {
                Some(e) => Err(e),
                None => Ok(so_far.insert(file.path@, file_entry(found, file.role@))),
            },
        },
        None => if !file.exact {
            Err(
                ErrorView::Provider(
                    "Evidence input selector 命中的文件在解析时消失："@ + text::quoted(
                        file.path@,
                    ),
                ),
            )
        } else if file.presence_sensitive {
            match conflict(so_far, file.path@, absent_entry(file.role@)) {
                Some(e) => Err(e),
                None => Ok(so_far.insert(file.path@, absent_entry(file.role@))),
            }
        } else {
            Ok(so_far)
        },
    }
}

/// What is recorded of the first files that selectors name.
pub open spec fn resolved(files: Seq<SelectedFile>, n: nat) -> Result<
    Map<Seq<char>, EntryView>,
    ErrorView,
>
    decreases n,
{
    if n == 0 {
        Ok(Map::empty())
    } else {
        match resolved(files, (n - 1) as nat) {
            Err(e) => Err(e),
            Ok(so_far) => with_file(so_far, files[n - 1]),
        }
    }
}

proof fn resolving_stops(files: Seq<SelectedFile>, n: nat, m: nat)
    requires
        n <= m,
        resolved(files, n) is Err,
    ensures
        resolved(files, m) == resolved(files, n),
    decreases m - n,
{
    if n < m {
        resolving_stops(files, n, (m - 1) as nat);
    }
}

/// The entries of the files that selectors name, in the order in which they
/// name them.
pub fn resolve_entries(files: &Vec<SelectedFile>) -> (r: Result<InputEntries, AppError>)
    ensures
        match r {
            Ok(entries) => entries.valid() && resolved(files@, files@.len()) == Ok::<
                Map<Seq<char>, EntryView>,
                ErrorView,
            >(entries.says()),
            Err(e) => resolved(files@, files@.len()) == Err::<Map<Seq<char>, EntryView>, ErrorView>(
                e@,
            ),
        },
{
    let mut entries = InputEntries::new();
    let mut i: usize = 0;
    while i < files.len()
        invariant
            i <= files@.len(),
            entries.valid(),
            resolved(files@, i as nat) == Ok::<Map<Seq<char>, EntryView>, ErrorView>(
                entries.says(),
            ),
        decreases files@.len() - i,
    {
        let file = &files[i];
        let ghost next = with_file(entries.says(), *file);
        assert(resolved(files@, (i + 1) as nat) == next);
        let entry = match &file.found {
            Some(found) => match regular_file_entry(
                file.path.as_str(),
                file.role.as_str(),
                found,
            ) {
                Err(e) => {
                    proof {
                        resolving_stops(files@, (i + 1) as nat, files@.len());
                    }
                    return Err(e);
                },
                Ok(entry) => Some(entry),
            },
            None => {
                if !file.exact {
                    let shown = text::quote(file.path.as_str());
                    proof {
                        resolving_stops(files@, (i + 1) as nat, files@.len());
                    }
                    return Err(
                        AppError::Provider(
                            text::cat2(
                                "Evidence input selector 命中的文件在解析时消失：",
                                shown.as_str(),
                            ),
                        ),
                    );
                }
                if file.presence_sensitive {
                    Some(
                        InputManifestEntry {
                            path: file.path.clone(),
                            state: InputPathState::Absent,
                            role: file.role.clone(),
                            content_sha256: None,
                            size: None,
                        },
                    )
                } else {
                    None
                }
            },
        };
        match entry {
            Some(entry) => match entries.insert(entry) {
                Err(e) => {
                    proof {
                        resolving_stops(files@, (i + 1) as nat, files@.len());
                    }
                    return Err(e);
                },
                Ok(()) => {},
            },
            None => {},
        }
        i = i + 1;
    }
    Ok(entries)
}

/// Why a manifest is thrown away: the source changed while it was made.
pub open spec fn stability_refusal(before: Seq<char>, after: Seq<char>) -> Option<ErrorView> {
    if before == after {
        None
    } else {
        Some(
            ErrorView::Provider(
                "Evidence input manifest 解析期间 Source fingerprint 发生变化"@,
            ),
        )
    }
}

/// Whether the source stayed the same while a manifest was made.
pub fn check_stable(before: &str, after: &str) -> (r: Result<(), AppError>)
    ensures
        error::follows(r, stability_refusal(before@, after@)),
{
    if text::same(before, after) {
        return Ok(());
    }
    Err(
        AppError::Provider(
            "Evidence input manifest 解析期间 Source fingerprint 发生变化".to_owned(),
        ),
    )
}

/// The inputs of a contract, all found in one state of the source.
#[derive(Debug, Clone, PartialEq, Eq)]
pub struct StableInputs {
    pub entries: InputEntries,
    pub source_fingerprint: String,
}

/// What the files that a contract selects come to, where the source was the
/// same before and after they were looked at.
pub open spec fn stably_resolved(
    before: Seq<char>,
    files: Seq<SelectedFile>,
    after: Seq<char>,
) -> Result<Map<Seq<char>, EntryView>, ErrorView> {
    match resolved(files, files.len()) {
        Err(e) => Err(e),
        Ok(entries) => match stability_refusal(before, after) {
            Some(e) => Err(e),
            None => Ok(entries),
        },
    }
}

/// The inputs of a contract, given the files that it selects and the
/// fingerprint of the source before and after they were looked at.
pub fn resolve_stable(before: &str, files: &Vec<SelectedFile>, after: &str) -> (r: Result<
    StableInputs,
    AppError,
>)
    ensures
        match r {
            Ok(inputs) => {
                &&& inputs.entries.valid()
                &&& stably_resolved(before@, files@, after@) == Ok::<
                    Map<Seq<char>, EntryView>,
                    ErrorView,
                >(inputs.entries.says())
                &&& inputs.source_fingerprint@ == before@
                &&& inputs.source_fingerprint@ == after@
            },
            Err(e) => stably_resolved(before@, files@, after@) == Err::<
                Map<Seq<char>, EntryView>,
                ErrorView,
            >(e@),
        },
{
    match resolve_entries(files) {
        Err(e) => Err(e),
        Ok(entries) => match check_stable(before, after) {
            Err(e) => Err(e),
            Ok(()) => Ok(StableInputs { entries, source_fingerprint: after.to_owned() }),
        },
    }
}

/// Why a manifest is not one of a run.
pub open spec fn source_refusal(expected: Seq<char>, actual: Seq<char>) -> Option<ErrorView> {
    if expected == actual {
        None
    } else {
        Some(
            ErrorView::Provider(
                "Evidence input manifest Source 与运行结果不一致：expected="@ + expected
                    + ", actual="@ + actual,
            ),
        )
    }
}

/// Whether a manifest was made of the source that a run saw.
pub fn check_expected_source(expected: &str, actual: &str) -> (r: Result<(), AppError>)
    ensures
        error::follows(r, source_refusal(expected@, actual@)),
{
    if text::same(expected, actual) {
        return Ok(());
    }
    Err(
        AppError::Provider(
            text::cat4(
                "Evidence input manifest Source 与运行结果不一致：expected=",
                expected,
                ", actual=",
                actual,
            ),
        ),
    )
}

// ---------------------------------------------------------------------------
// Scanning the file system
// ---------------------------------------------------------------------------

/// What an entry of a directory is.
#[derive(Debug, Clone, Copy, PartialEq, Eq, Structural)]
pub enum TreeEntryKind {
    Link,
    Directory,
    File,
    Other,
}

/// A path relative to the tree that it lies in.
pub open spec fn within_tree(display: Seq<char>, tree_root: Seq<char>) -> Option<Seq<char>> {
    if tree_root.len() == 0 {
        Some(display)
    } else {
        match text::after_prefix(display, tree_root) {
            Some(rest) => text::after_prefix(rest, seq!['/']),
            None => None,
        }
    }
}

/// A path relative to the tree that it lies in.
pub fn relative_to_tree(display: &str, tree_root: &str) -> (r: Option<String>)
    ensures
        model::opt_view(r) == within_tree(display@, tree_root@),
{
    if text::length(tree_root) == 0 {
        return Some(display.to_owned());
    }
    match text::strip_prefix(display, tree_root) {
        Some(rest) => {
            assert("/"@ =~= seq!['/']) by {
                reveal_strlit("/");
            }
            text::strip_prefix(rest.as_str(), "/")
        },
        None => None,
    }
}

/// Files that a scan found.
#[derive(Debug, Clone, PartialEq, Eq)]
pub struct TreeScan {
    pub files: Vec<String>,
    pub limit: usize,
}

/// Why a scan stops.
pub open spec fn scan_refusal(kind: TreeEntryKind, shown: Seq<char>) -> Option<ErrorView> {
    match kind {
        TreeEntryKind::Link => Some(
            ErrorView::Provider("Evidence filesystem selector 遇到 symlink/reparse："@ + shown),
        ),
        TreeEntryKind::Other => Some(
            ErrorView::Provider("Evidence filesystem selector 遇到 special file："@ + shown),
        ),
        _ => None,
    }
}

/// Whether a scan may go on past an entry; `true` where it has to descend.
pub fn check_tree_entry(kind: TreeEntryKind, shown: &str) -> (r: Result<bool, AppError>)
    ensures
        error::follows(r, scan_refusal(kind, shown@)),
        r is Ok ==> r->Ok_0 == (kind == TreeEntryKind::Directory),
{
    match kind {
        TreeEntryKind::Link => Err(
            AppError::Provider(
                text::cat2("Evidence filesystem selector 遇到 symlink/reparse：", shown),
            ),
        ),
        TreeEntryKind::Other => Err(
            AppError::Provider(
                text::cat2("Evidence filesystem selector 遇到 special file：", shown),
            ),
        ),
        TreeEntryKind::Directory => Ok(true),
        TreeEntryKind::File => Ok(false),
    }
}

impl TreeScan {
    /// In order, without repetition, and within the limit.
    pub open spec fn valid(self) -> bool {
        order::ascending(text::views(self.files@)) && self.files@.len() <= self.limit
    }

    pub fn new(limit: usize) -> (r: Self)
        ensures
            r.valid(),
            r.files@.len() == 0,
            r.limit == limit,
    {
        let r = TreeScan { files: Vec::new(), limit };
        assert(text::views(r.files@) =~= Seq::<Seq<char>>::empty());
        r
    }

    /// Note a file that a selector matches.
    pub fn note(&mut self, display: &str) -> (r: Result<(), AppError>)
        requires
            old(self).valid(),
        ensures
            match r {
                Ok(()) => {
                    &&& final(self).valid()
                    &&& final(self).limit == old(self).limit
                    &&& forall|x: Seq<char>|
                        text::views(final(self).files@).contains(x) <==> (text::views(
                            old(self).files@,
                        ).contains(x) || x == display@)
                },
                Err(e) => {
                    &&& old(self).files@.len() == old(self).limit
                    &&& !text::views(old(self).files@).contains(display@)
                    &&& e@ == ErrorView::Provider(
                        "Evidence filesystem selector 超过 "@ + text::decimal(
                            old(self).limit as nat,
                        ) + " 个输入，拒绝不受限扫描"@,
                    )
                },
            },
    {
        if text::list_contains(&self.files, display) {
            return Ok(());
        }
        if self.files.len() >= self.limit {
            let limit = text::decimal_text(self.limit as u64);
            return Err(
                AppError::Provider(
                    text::cat3(
                        "Evidence filesystem selector 超过 ",
                        limit.as_str(),
                        " 个输入，拒绝不受限扫描",
                    ),
                ),
            );
        }
        order::insert_text(&mut self.files, display.to_owned());
        Ok(())
    }
}

/// Why a tree is not scanned.
pub open spec fn tree_root_refusal(tree_root: Seq<char>, directory: bool) -> Option<ErrorView> {
    if directory {
        None
    } else {
        Some(
            ErrorView::Provider(
                "Evidence filesystem tree root="@ + text::quoted(tree_root)
                    + " 必须是普通项目目录"@,
            ),
        )
    }
}

/// Whether a tree may be scanned, given whether its root is a directory and no
/// link.
pub fn check_tree_root(tree_root: &str, directory: bool) -> (r: Result<(), AppError>)
    ensures
        error::follows(r, tree_root_refusal(tree_root@, directory)),
{
    if directory {
        return Ok(());
    }
    let shown = text::quote(tree_root);
    Err(
        AppError::Provider(
            text::cat3(
                "Evidence filesystem tree root=",
                shown.as_str(),
                " 必须是普通项目目录",
            ),
        ),
    )
}

/// A component of a path.
#[derive(Debug, Clone, PartialEq, Eq)]
pub enum PathPart {
    Name(String),
    NotText,
    Special,
}

/// The first parts of a path with `/` between them, or why it cannot be
/// written down.
pub open spec fn written_parts(parts: Seq<PathPart>, shown: Seq<char>) -> Result<
    Seq<Seq<char>>,
    ErrorView,
>
    decreases parts.len(),
{
    if parts.len() == 0 {
        Ok(Seq::empty())
    } else {
        match written_parts(parts.drop_last(), shown) {
            Err(e) => Err(e),
            Ok(names) => match parts.last() {
                PathPart::Name(name) => Ok(names.push(name@)),
                PathPart::NotText => Err(ErrorView::NonUtf8GitPath),
                PathPart::Special => Err(ErrorView::RepositoryPathOutsideRoot(shown)),
            },
        }
    }
}

proof fn writing_stops(parts: Seq<PathPart>, shown: Seq<char>, n: int)
    requires
        0 <= n <= parts.len(),
        written_parts(parts.take(n), shown) is Err,
    ensures
        written_parts(parts, shown) == written_parts(parts.take(n), shown),
    decreases parts.len() - n,
{
    if n < parts.len() {
        assert(parts.take(n + 1).drop_last() =~= parts.take(n));
        writing_stops(parts, shown, n + 1);
    } else {
        assert(parts.take(n) =~= parts);
    }
}

/// A path below the root as it is written down.
pub fn normalized_relative_path(parts: &Vec<PathPart>, shown: &str) -> (r: Result<
    String,
    AppError,
>)
    ensures
        match written_parts(parts@, shown@) {
            Ok(names) => r matches Ok(s) && s@ == text::joined(names, "/"@),
            Err(e) => r matches Err(x) && x@ == e,
        },
{
    let mut names: Vec<String> = Vec::new();
    let mut i: usize = 0;
    assert(parts@.take(0) =~= Seq::<PathPart>::empty());
    assert(text::views(names@) =~= Seq::<Seq<char>>::empty());
    while i < parts.len()
        invariant
            i <= parts@.len(),
            written_parts(parts@.take(i as int), shown@) == Ok::<Seq<Seq<char>>, ErrorView>(
                text::views(names@),
            ),
        decreases parts@.len() - i,
    {
        assert(parts@.take(i + 1).drop_last() =~= parts@.take(i as int));
        match &parts[i] {
            PathPart::Name(name) => {
                let ghost before = text::views(names@);
                names.push(name.clone());
                assert(text::views(names@) =~= before.push(name@));
            },
            PathPart::NotText => {
                proof {
                    writing_stops(parts@, shown@, i + 1);
                }
                return Err(AppError::NonUtf8GitPath);
            },
            PathPart::Special => {
                proof {
                    writing_stops(parts@, shown@, i + 1);
                }
                return Err(AppError::RepositoryPathOutsideRoot(shown.to_owned()));
            },
        }
        i = i + 1;
    }
    assert(parts@.take(parts@.len() as int) =~= parts@);
    Ok(text::join(&names, "/"))
}

/// The order in which files are named does not matter where each is named
/// once: what is recorded of a file is what was found of it.
pub proof fn recorded_is_what_was_found(files: Seq<SelectedFile>, i: int)
    requires
        resolved(files, files.len()) is Ok,
        0 <= i < files.len(),
        files[i].found is Some,
    ensures
        ({
            let all = resolved(files, files.len())->Ok_0;
            all.dom().contains(files[i].path@) && all[files[i].path@] == file_entry(
                files[i].found->0,
                files[i].role@,
            )
        }),
{
    recorded_stays(files, (i + 1) as nat, files.len(), i);
}

proof fn recorded_stays(files: Seq<SelectedFile>, n: nat, m: nat, i: int)
    requires
        n <= m <= files.len(),
        resolved(files, m) is Ok,
        0 <= i < n,
        files[i].found is Some,
        n == i + 1,
    ensures
        resolved(files, m)->Ok_0.dom().contains(files[i].path@),
        resolved(files, m)->Ok_0[files[i].path@] == file_entry(
            files[i].found->0,
            files[i].role@,
        ),
    decreases m - n,
{
    if n < m {
        assert(resolved(files, (m - 1) as nat) is Ok);
        recorded_stays(files, n, (m - 1) as nat, i);
    } else {
        assert(resolved(files, (m - 1) as nat) is Ok);
    }
}

/// Two selections name the same files and find the same of them.
pub open spec fn same_selection(a: Seq<SelectedFile>, b: Seq<SelectedFile>) -> bool {
    &&& a.len() == b.len()
    &&& forall|i: int|
        0 <= i < a.len() ==> {
            &&& (#[trigger] a[i]).path@ == b[i].path@
            &&& a[i].role@ == b[i].role@
            &&& a[i].exact == b[i].exact
            &&& a[i].presence_sensitive == b[i].presence_sensitive
            &&& same_found(a[i].found, b[i].found)
        }
}

/// The same was found of a file.
pub open spec fn same_found(a: Option<FoundFile>, b: Option<FoundFile>) -> bool {
    match (a, b) {
        (Some(a), Some(b)) => {
            &&& a.regular == b.regular
            &&& a.canonical@ == b.canonical@
            &&& a.inside_root == b.inside_root
            &&& a.sha256@ == b.sha256@
            &&& a.size == b.size
        },
        (None, None) => true,
        _ => false,
    }
}

proof fn same_selections_resolve_alike(a: Seq<SelectedFile>, b: Seq<SelectedFile>, n: nat)
    requires
        same_selection(a, b),
        n <= a.len(),
    ensures
        resolved(a, n) == resolved(b, n),
    decreases n,
{
    if n > 0 {
        same_selections_resolve_alike(a, b, (n - 1) as nat);
        assert(a[n - 1].path@ == b[n - 1].path@);
    }
}

/// A manifest is determined by the files that its contract selects: where they
/// are the same its entries are the same, one for one and in the same order,
/// whatever else has changed in the source.
pub proof fn manifests_follow_the_selected_files(
    before: (Seq<char>, Seq<char>),
    a: Seq<SelectedFile>,
    after: (Seq<char>, Seq<char>),
    b: Seq<SelectedFile>,
    x: InputEntries,
    y: InputEntries,
)
    requires
        same_selection(a, b),
        x.valid(),
        y.valid(),
        stably_resolved(before.0, a, after.0) == Ok::<Map<Seq<char>, EntryView>, ErrorView>(
            x.says(),
        ),
        stably_resolved(before.1, b, after.1) == Ok::<Map<Seq<char>, EntryView>, ErrorView>(
            y.says(),
        ),
    ensures
        before.0 == after.0,
        before.1 == after.1,
        x.items@.len() == y.items@.len(),
        forall|i: int|
            0 <= i < x.items@.len() ==> (#[trigger] x.items@[i]).path@ == y.items@[i].path@
                && x.items@[i]@ == y.items@[i]@,
{
    same_selections_resolve_alike(a, b, a.len());
    let p = entry_paths(x.items@);
    let q = entry_paths(y.items@);
    assert(x.says() == y.says());
    assert forall|t: Seq<char>| p.contains(t) <==> q.contains(t) by {
        assert(x.says().dom().contains(t) <==> p.contains(t));
        assert(y.says().dom().contains(t) <==> q.contains(t));
    }
    order::ascending_is_unique(p, q);
    assert(p.len() == x.items@.len() && q.len() == y.items@.len());
    assert forall|i: int| 0 <= i < x.items@.len() implies (#[trigger] x.items@[i]).path@
        == y.items@[i].path@ && x.items@[i]@ == y.items@[i]@ by {
        assert(p[i] == x.items@[i].path@ && q[i] == y.items@[i].path@);
        only_index(x.items@, i);
        only_index(y.items@, i);
        assert(x.says()[p[i]] == x.items@[i]@);
        assert(y.says()[p[i]] == y.items@[i]@);
    }
}

/// A selected file that holds something else, or is of another size, is seen in
/// the manifest.
pub proof fn changed_inputs_change_the_manifest(
    a: Seq<SelectedFile>,
    b: Seq<SelectedFile>,
    i: int,
    j: int,
)
    requires
        resolved(a, a.len()) is Ok,
        resolved(b, b.len()) is Ok,
        0 <= i < a.len(),
        0 <= j < b.len(),
        a[i].path@ == b[j].path@,
        a[i].found is Some,
        b[j].found is Some,
        a[i].found->0.sha256@ != b[j].found->0.sha256@ || a[i].found->0.size != b[j].found->0.size,
    ensures
        resolved(a, a.len()) != resolved(b, b.len()),
{
    recorded_is_what_was_found(a, i);
    recorded_is_what_was_found(b, j);
    let x = a[i].found->0.sha256@;
    let y = b[j].found->0.sha256@;
    let mark = "sha256_"@;
    if mark + x == mark + y {
        assert(x =~= (mark + x).skip(mark.len() as int));
        assert(y =~= (mark + y).skip(mark.len() as int));
    }
}

/// Files resolve to inputs exactly where each that is there is a regular file
/// inside the root, none that was selected by a pattern is gone, and no path is
/// recorded in two ways.
pub proof fn one_file_is_resolved(so_far: Map<Seq<char>, EntryView>, file: SelectedFile)
    ensures
        ({
            let r = with_file(so_far, file);
            let found = file.found;
            &&& found is Some ==> (r is Ok <==> found->0.regular && found->0.inside_root && (
            so_far.dom().contains(file.path@) ==> so_far[file.path@] == file_entry(
                found->0,
                file.role@,
            )))
            &&& found is Some && r is Ok ==> r->Ok_0 == so_far.insert(
                file.path@,
                EntryView {
                    state: InputPathState::PresentRegularFile,
                    role: file.role@,
                    content_sha256: Some("sha256_"@ + found->0.sha256@),
                    size: Some(found->0.size),
                },
            )
            &&& found is None && !file.exact ==> r is Err
            &&& found is None && file.exact && !file.presence_sensitive ==> r
                == Ok::<Map<Seq<char>, EntryView>, ErrorView>(so_far)
            &&& found is None && file.exact && file.presence_sensitive && r is Ok ==> r->Ok_0
                == so_far.insert(file.path@, absent_entry(file.role@))
        }),
        absent_entry(file.role@).state == InputPathState::Absent,
        absent_entry(file.role@).content_sha256 is None,
{
}

/// A path lies in a tree exactly where it is the root of the tree, a slash and
/// something behind it; links and special files are never taken.
pub proof fn trees_hold_what_lies_below(root: Seq<char>, rest: Seq<char>, shown: Seq<char>)
    ensures
        within_tree(rest, Seq::empty()) == Some(rest),
        root.len() > 0 ==> within_tree(root + seq!['/'] + rest, root) == Some(rest),
        root.len() > 0 && within_tree(shown, root) is Some ==> shown == root + seq!['/']
            + within_tree(shown, root)->0,
        scan_refusal(TreeEntryKind::Link, shown) is Some,
        scan_refusal(TreeEntryKind::Other, shown) is Some,
        forall|kind: TreeEntryKind|
            kind != TreeEntryKind::Link && kind != TreeEntryKind::Other ==> #[trigger] scan_refusal(
                kind,
                shown,
            ) is None,
{
    let slash = seq!['/'];
    if root.len() > 0 {
        let whole = root + slash + rest;
        assert(whole.subrange(0, root.len() as int) =~= root);
        assert(whole.skip(root.len() as int) =~= slash + rest);
        assert((slash + rest).subrange(0, 1) =~= slash);
        assert((slash + rest).skip(1) =~= rest);
        if within_tree(shown, root) is Some {
            let tail = shown.skip(root.len() as int);
            assert(shown.subrange(0, root.len() as int) =~= root);
            assert(tail.subrange(0, 1) =~= slash);
            assert(shown =~= root + tail);
            assert(tail =~= slash + tail.skip(1));
            assert(shown =~= root + slash + tail.skip(1));
        }
    }
}

/// A path is written exactly where all its parts are names, and all of them are.
pub proof fn all_parts_are_written(parts: Seq<PathPart>, shown: Seq<char>)
    ensures
        written_parts(parts, shown) is Ok <==> forall|i: int|
            0 <= i < parts.len() ==> #[trigger] parts[i] is Name,
        written_parts(parts, shown) is Ok ==> written_parts(parts, shown)->Ok_0
            == parts.map_values(|p: PathPart| p->Name_0@),
    decreases parts.len(),
{
    if parts.len() > 0 {
        let init = parts.drop_last();
        all_parts_are_written(init, shown);
        assert forall|i: int| 0 <= i < init.len() implies #[trigger] init[i] == parts[i] by {}
        if written_parts(init, shown) is Ok {
            assert forall|i: int| 0 <= i < init.len() implies #[trigger] parts[i] is Name by {
                assert(init[i] is Name);
            }
            if parts.last() is Name {
                assert forall|i: int| 0 <= i < parts.len() implies #[trigger] parts[i] is Name by {
                    if i < init.len() {
                        assert(init[i] is Name);
                    }
                }
                assert(parts.map_values(|p: PathPart| p->Name_0@) =~= init.map_values(
                    |p: PathPart| p->Name_0@,
                ).push(parts.last()->Name_0@));
            } else {
                assert(!(parts[parts.len() - 1] is Name));
            }
        } else {
            let i = choose|i: int| 0 <= i < init.len() && !(#[trigger] init[i] is Name);
            assert(!(parts[i] is Name));
        }
    } else {
        assert(Seq::<Seq<char>>::empty() =~= parts.map_values(|p: PathPart| p->Name_0@));
    }
}

} // verus!
