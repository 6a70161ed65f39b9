//! Build evidence: which toolchain runs may be made, and what is concluded
//! from how they end.
use crate::error::{self, AppError, ErrorView};
use crate::execution::{self, ProcessResult};
use crate::json;
use crate::model::{self, EvidenceCoverage, FindingAuthority, FindingSeverity};
use crate::sorting::{self, Named};
use crate::text;
use vstd::prelude::*;

verus! {

broadcast use {vstd::string::group_string_axioms, vstd::seq::group_seq_axioms};

pub const BUILD_RUN_SCHEMA_VERSION: u32 = 1;

pub const BUILD_CONTRACT_VERSION: u16 = 1;

/// The largest set of artifacts that stock is taken of.
pub const MAX_ARTIFACT_FILES: usize = 20000;

pub const MAX_ARTIFACT_BYTES: u64 = 2147483648;

/// Whether a build runs nothing but a compiler, or code of the repository.
#[derive(Debug, Clone, Copy, PartialEq, Eq, Structural)]
pub enum ExecutionClass {
    CompilerOnly,
    RepositoryBuildCode,
}

/// Whether a build has to leave artifacts behind.
#[derive(Debug, Clone, Copy, PartialEq, Eq, Structural)]
pub enum BuildOutputKind {
    ArtifactSet,
    ValidationOnly,
}

/// A file that a build left behind.
#[derive(Debug, Clone, PartialEq, Eq)]
pub struct ArtifactEntry {
    pub relative_path: String,
    pub size: u64,
    pub sha256: String,
}

#[derive(Debug, Clone, PartialEq, Eq)]
pub struct ArtifactManifest {
    pub entries: Vec<ArtifactEntry>,
    pub total_bytes: u64,
    pub manifest_fingerprint: String,
}

impl Named for ArtifactEntry {
    open spec fn first_name(&self) -> Seq<char> {
        self.relative_path@
    }

    open spec fn second_name(&self) -> Seq<char> {
        Seq::empty()
    }

    fn first_name_text(&self) -> &str {
        self.relative_path.as_str()
    }

    fn second_name_text(&self) -> &str {
        assert(""@ =~= Seq::<char>::empty()) by {
            reveal_strlit("");
        }
        ""
    }
}

// ---------------------------------------------------------------------------
// Before a build
// ---------------------------------------------------------------------------

/// Why a build is not run at all.
pub open spec fn trust_refusal(
    trust_local_executable: bool,
    trust_repository_build_code: bool,
    class: ExecutionClass,
) -> Option<ErrorView> {
    if !trust_local_executable {
        Some(
            ErrorView::Provider("Build Evidence 需要显式传入 --trust-local-executable"@),
        )
    } else if class == ExecutionClass::RepositoryBuildCode && !trust_repository_build_code {
        Some(
            ErrorView::Provider(
                "dotnet/cargo 构建可能执行仓库控制的 MSBuild task 或 build.rs；需要显式传入 --trust-repository-build-code"@,
            ),
        )
    } else {
        None
    }
}

/// Whether a build of a class may be run: code of the repository needs a trust
/// of its own.
pub fn require_trust(
    trust_local_executable: bool,
    trust_repository_build_code: bool,
    class: ExecutionClass,
) -> (r: Result<(), AppError>)
    ensures
        error::follows(
            r,
            trust_refusal(trust_local_executable, trust_repository_build_code, class),
        ),
{
    if !trust_local_executable {
        return Err(
            AppError::Provider(
                "Build Evidence 需要显式传入 --trust-local-executable".to_owned(),
            ),
        );
    }
    if class == ExecutionClass::RepositoryBuildCode && !trust_repository_build_code {
        return Err(
            AppError::Provider(
                "dotnet/cargo 构建可能执行仓库控制的 MSBuild task 或 build.rs；需要显式传入 --trust-repository-build-code".to_owned(),
            ),
        );
    }
    Ok(())
}

/// Why a profile id is not taken.
pub open spec fn profile_refusal(profile_id: Seq<char>) -> Option<ErrorView> {
    if 0 < profile_id.len() <= 96 && text::plain_name(profile_id) {
        None
    } else {
        Some(
            ErrorView::Provider(
                "Build profile ID 只能包含 ASCII 字母、数字、点、横线和下划线"@,
            ),
        )
    }
}

/// Whether a profile id is taken.
pub fn validate_profile_id(profile_id: &str) -> (r: Result<(), AppError>)
    ensures
        error::follows(r, profile_refusal(profile_id@)),
{
    let length: usize = text::length(profile_id);
    if 0 < length && length <= 96 && text::is_plain_name(profile_id) {
        return Ok(());
    }
    Err(
        AppError::Provider(
            "Build profile ID 只能包含 ASCII 字母、数字、点、横线和下划线".to_owned(),
        ),
    )
}

/// Where a path of the project leads: whether it is written as one below the
/// root, and the path that it leads to with whether that is below the root.
#[derive(Debug, Clone, PartialEq, Eq)]
pub struct TargetFacts {
    pub shown: String,
    pub stays_below: bool,
    pub canonical: String,
    pub inside_root: bool,
}

/// Why a path of the project is not taken.
pub open spec fn path_refusal(facts: TargetFacts) -> Option<ErrorView> {
    if !facts.stays_below {
        Some(ErrorView::RepositoryPathOutsideRoot(facts.shown@))
    } else if !facts.inside_root {
        Some(ErrorView::RepositoryPathOutsideRoot(facts.canonical@))
    } else {
        None
    }
}

/// Whether a path stays in the project.
pub fn resolve_project_path(facts: &TargetFacts) -> (r: Result<(), AppError>)
    ensures
        error::follows(r, path_refusal(*facts)),
{
    if !facts.stays_below {
        return Err(AppError::RepositoryPathOutsideRoot(facts.shown.clone()));
    }
    if !facts.inside_root {
        return Err(AppError::RepositoryPathOutsideRoot(facts.canonical.clone()));
    }
    Ok(())
}

/// An extension is one of some, up to ASCII case.
pub open spec fn extension_among(extension: Option<Seq<char>>, allowed: Seq<Seq<char>>) -> bool {
    extension is Some && exists|i: int|
        0 <= i < allowed.len() && text::lowered(#[trigger] allowed[i]) == text::lowered(
            extension->0,
        )
}

fn is_extension_among(extension: &Option<String>, allowed: &Vec<&str>) -> (r: bool)
    ensures
        r == extension_among(model::opt_view(*extension), text::str_views(allowed@)),
{
    match extension {
        Some(written) => {
            let mut i: usize = 0;
            while i < allowed.len()
                invariant
                    i <= allowed@.len(),
                    *extension == Some(*written),
                    forall|k: int|
                        0 <= k < i ==> text::lowered(#[trigger] text::str_views(allowed@)[k])
                            != text::lowered(written@),
                decreases allowed@.len() - i,
            {
                if text::same_ignoring_case(written.as_str(), allowed[i]) {
                    assert(text::lowered(text::str_views(allowed@)[i as int]) == text::lowered(
                        written@,
                    ));
                    return true;
                }
                i = i + 1;
            }
            false
        },
        None => false,
    }
}

/// Why a file is not built.
pub open spec fn file_refusal(
    facts: TargetFacts,
    is_file: bool,
    extension: Option<Seq<char>>,
    allowed: Seq<Seq<char>>,
) -> Option<ErrorView> {
    match path_refusal(facts) {
        Some(e) => Some(e),
        None => if is_file && extension_among(extension, allowed) {
            None
        } else {
            Some(
                ErrorView::Provider("Build target 不是允许的项目文件："@ + facts.shown@),
            )
        },
    }
}

/// Whether a file of the project may be built.
pub fn resolve_project_file(
    facts: &TargetFacts,
    is_file: bool,
    extension: &Option<String>,
    allowed: &Vec<&str>,
) -> (r: Result<(), AppError>)
    ensures
        error::follows(
            r,
            file_refusal(
                *facts,
                is_file,
                model::opt_view(*extension),
                text::str_views(allowed@),
            ),
        ),
{
    match resolve_project_path(facts) {
        Err(e) => {
            return Err(e);
        },
        Ok(()) => {},
    }
    if is_file && is_extension_among(extension, allowed) {
        return Ok(());
    }
    Err(
        AppError::Provider(
            text::cat2("Build target 不是允许的项目文件：", facts.shown.as_str()),
        ),
    )
}

/// Why a directory is not compiled.
pub open spec fn directory_refusal(facts: TargetFacts, is_directory: bool) -> Option<ErrorView> {
    match path_refusal(facts) {
        Some(e) => Some(e),
        None => if is_directory {
            None
        } else {
            Some(ErrorView::Provider("Python source root 不是目录："@ + facts.shown@))
        },
    }
}

/// Whether a directory of the project may be compiled.
pub fn resolve_project_directory(facts: &TargetFacts, is_directory: bool) -> (r: Result<
    (),
    AppError,
>)
    ensures
        error::follows(r, directory_refusal(*facts, is_directory)),
{
    match resolve_project_path(facts) {
        Err(e) => {
            return Err(e);
        },
        Ok(()) => {},
    }
    if is_directory {
        return Ok(());
    }
    Err(
        AppError::Provider(
            text::cat2("Python source root 不是目录：", facts.shown.as_str()),
        ),
    )
}

/// A path below the root as it is written down: with `/` between names, and a
/// dot for the root itself.
pub open spec fn display_path(relative: Seq<char>) -> Seq<char> {
    let normalized = text::replaced(relative, "\\"@, "/"@);
    if normalized.len() == 0 {
        "."@
    } else {
        normalized
    }
}

/// A path below the root as it is written down.
pub fn project_relative_path(relative: &str) -> (r: String)
    ensures
        r@ == display_path(relative@),
{
    let normalized = text::replace(relative, "\\", "/");
    if text::length(normalized.as_str()) == 0 {
        return ".".to_owned();
    }
    normalized
}

/// Why a source root is not compiled.
pub open spec fn sources_refusal(files: nat, target: Seq<char>) -> Option<ErrorView> {
    if files == 0 {
        Some(
            ErrorView::Provider(
                "Python source_root="@ + text::quoted(target)
                    + " 没有已跟踪或未忽略的 .py 文件"@,
            ),
        )
    } else {
        None
    }
}

/// Whether a source root with a number of files may be compiled.
pub fn check_sources(files: usize, target: &str) -> (r: Result<(), AppError>)
    ensures
        error::follows(r, sources_refusal(files as nat, target@)),
{
    if files > 0 {
        return Ok(());
    }
    let shown = text::quote(target);
    Err(
        AppError::Provider(
            text::cat3(
                "Python source_root=",
                shown.as_str(),
                " 没有已跟踪或未忽略的 .py 文件",
            ),
        ),
    )
}

/// A file of the repository, as it may be compiled: how it is told, where it
/// is, its extension, and whether it lies below the directory to compile.
#[derive(Debug, Clone, PartialEq, Eq)]
pub struct SourceFile {
    pub display_path: String,
    pub absolute_path: String,
    pub extension: Option<String>,
    pub below_target: bool,
}

/// A file that is compiled.
pub open spec fn compiled(file: SourceFile) -> bool {
    file.below_target && extension_among(model::opt_view(file.extension), seq!["py"@])
}

/// What is told of the first `n` files that are compiled.
pub open spec fn sources_of(files: Seq<SourceFile>, n: nat) -> Seq<(Seq<char>, Seq<char>)>
    decreases n,
{
    if n == 0 {
        Seq::empty()
    } else {
        let before = sources_of(files, (n - 1) as nat);
        let file = files[n - 1];
        if compiled(file) {
            before.push((file.display_path@, execution::cli_path(file.absolute_path@)))
        } else {
            before
        }
    }
}

/// Pairs of texts.
pub open spec fn pair_views(pairs: Seq<(String, String)>) -> Seq<(Seq<char>, Seq<char>)> {
    pairs.map_values(|p: (String, String)| (p.0@, p.1@))
}

/// The sources that are compiled: how each is told, and where it is.
pub fn python_sources(files: &Vec<SourceFile>) -> (r: Vec<(String, String)>)
    ensures
        pair_views(r@) == sources_of(files@, files@.len()),
{
    let mut out: Vec<(String, String)> = Vec::new();
    let allowed: Vec<&str> = vec!["py"];
    assert(text::str_views(allowed@) =~= seq!["py"@]);
    assert(pair_views(out@) =~= sources_of(files@, 0));
    let mut i: usize = 0;
    while i < files.len()
        invariant
            i <= files@.len(),
            text::str_views(allowed@) == seq!["py"@],
            pair_views(out@) == sources_of(files@, i as nat),
        decreases files@.len() - i,
    {
        let file = &files[i];
        if file.below_target && is_extension_among(&file.extension, &allowed) {
            let ghost before = out@;
            out.push(
                (
                    file.display_path.clone(),
                    execution::provider_cli_path(file.absolute_path.as_str()),
                ),
            );
            assert(pair_views(out@) =~= pair_views(before).push(
                (file.display_path@, execution::cli_path(file.absolute_path@)),
            ));
        }
        i = i + 1;
    }
    out
}

/// A source as it is listed: a JSON object with its members in order.
pub open spec fn listed_source(source: (Seq<char>, Seq<char>)) -> Seq<char> {
    "{\"absolute_path\":"@ + json::json_written(source.1) + ",\"display_path\":"@
        + json::json_written(source.0) + "}"@
}

/// The list of sources that the compiler is handed, as a JSON document.
pub open spec fn source_document(sources: Seq<(Seq<char>, Seq<char>)>) -> Seq<char> {
    "{\"files\":["@ + text::joined(
        sources.map_values(|s: (Seq<char>, Seq<char>)| listed_source(s)),
        ","@,
    ) + "]}"@
}

/// The list of sources that the compiler is handed: how each is told, and where
/// it is.
pub fn source_list(sources: &Vec<(String, String)>) -> (r: String)
    ensures
        r@ == source_document(pair_views(sources@)),
{
    let mut items: Vec<String> = Vec::new();
    let mut i: usize = 0;
    while i < sources.len()
        invariant
            i <= sources@.len(),
            items@.len() == i,
            forall|k: int|
                0 <= k < i ==> (#[trigger] items@[k])@ == listed_source(
                    (sources@[k].0@, sources@[k].1@),
                ),
        decreases sources@.len() - i,
    {
        let display = json::write_string(sources[i].0.as_str());
        let absolute = json::write_string(sources[i].1.as_str());
        items.push(
            text::cat5(
                "{\"absolute_path\":",
                absolute.as_str(),
                ",\"display_path\":",
                display.as_str(),
                "}",
            ),
        );
        i = i + 1;
    }
    assert(text::views(items@) =~= pair_views(sources@).map_values(
        |s: (Seq<char>, Seq<char>)| listed_source(s),
    ));
    let listed = text::join(&items, ",");
    text::cat3("{\"files\":[", listed.as_str(), "]}")
}

/// Whether a file of the project is one that cargo builds.
pub fn check_manifest_name(name: &Option<String>) -> (r: Result<(), AppError>)
    ensures
        error::follows(
            r,
            if model::opt_view(*name) == Some("Cargo.toml"@) {
                None
            } else {
                Some(ErrorView::Provider("Rust Build Evidence target 必须是 Cargo.toml"@))
            },
        ),
{
    if model::opt_is(name, "Cargo.toml") {
        return Ok(());
    }
    Err(AppError::Provider("Rust Build Evidence target 必须是 Cargo.toml".to_owned()))
}

/// Whether the restore state of a project may be read: once every link is
/// followed it has to lie within the project.
pub fn check_restore_state(inside_root: bool) -> (r: Result<(), AppError>)
    ensures
        error::follows(
            r,
            if inside_root {
                None
            } else {
                Some(ErrorView::Provider(".NET restore state 解析后越出项目根目录"@))
            },
        ),
{
    if inside_root {
        return Ok(());
    }
    Err(AppError::Provider(".NET restore state 解析后越出项目根目录".to_owned()))
}

/// A variable of the environment of a build: what it is set to, or where below
/// the scratch directory it leads.
#[derive(Debug, Clone, Copy, PartialEq, Eq)]
pub struct BuildVariable {
    pub name: &'static str,
    pub value: &'static str,
    pub below_scratch: bool,
}

/// Variables, each with what it is set to or where it leads.
pub open spec fn variable_views(variables: Seq<BuildVariable>) -> Seq<
    (Seq<char>, Seq<char>, bool),
> {
    variables.map_values(|v: BuildVariable| (v.name@, v.value@, v.below_scratch))
}

/// The variables that keep a build within its scratch directory, and its tools
/// quiet.
pub fn build_environment() -> (r: Vec<BuildVariable>)
    ensures
        variable_views(r@) == seq![
            ("HOME"@, ""@, true),
            ("USERPROFILE"@, ""@, true),
            ("TEMP"@, ""@, true),
            ("TMP"@, ""@, true),
            ("TMPDIR"@, ""@, true),
            ("DOTNET_CLI_HOME"@, ""@, true),
            ("DOTNET_CLI_TELEMETRY_OPTOUT"@, "1"@, false),
            ("DOTNET_SKIP_FIRST_TIME_EXPERIENCE"@, "1"@, false),
            ("DOTNET_NOLOGO"@, "1"@, false),
            ("DOTNET_CLI_WORKLOAD_UPDATE_NOTIFY_DISABLE"@, "1"@, false),
            ("APPDATA"@, "appdata/roaming"@, true),
            ("LOCALAPPDATA"@, "appdata/local"@, true),
        ],
{
    let out: Vec<BuildVariable> = vec![
        scratch_variable("HOME", ""),
        scratch_variable("USERPROFILE", ""),
        scratch_variable("TEMP", ""),
        scratch_variable("TMP", ""),
        scratch_variable("TMPDIR", ""),
        scratch_variable("DOTNET_CLI_HOME", ""),
        switched_on("DOTNET_CLI_TELEMETRY_OPTOUT"),
        switched_on("DOTNET_SKIP_FIRST_TIME_EXPERIENCE"),
        switched_on("DOTNET_NOLOGO"),
        switched_on("DOTNET_CLI_WORKLOAD_UPDATE_NOTIFY_DISABLE"),
        scratch_variable("APPDATA", "appdata/roaming"),
        scratch_variable("LOCALAPPDATA", "appdata/local"),
    ];
    assert(variable_views(out@) =~= seq![
        ("HOME"@, ""@, true),
        ("USERPROFILE"@, ""@, true),
        ("TEMP"@, ""@, true),
        ("TMP"@, ""@, true),
        ("TMPDIR"@, ""@, true),
        ("DOTNET_CLI_HOME"@, ""@, true),
        ("DOTNET_CLI_TELEMETRY_OPTOUT"@, "1"@, false),
        ("DOTNET_SKIP_FIRST_TIME_EXPERIENCE"@, "1"@, false),
        ("DOTNET_NOLOGO"@, "1"@, false),
        ("DOTNET_CLI_WORKLOAD_UPDATE_NOTIFY_DISABLE"@, "1"@, false),
        ("APPDATA"@, "appdata/roaming"@, true),
        ("LOCALAPPDATA"@, "appdata/local"@, true),
    ]);
    out
}

fn scratch_variable(name: &'static str, below: &'static str) -> (r: BuildVariable)
    ensures
        r.name@ == name@,
        r.value@ == below@,
        r.below_scratch,
{
    BuildVariable { name, value: below, below_scratch: true }
}

fn switched_on(name: &'static str) -> (r: BuildVariable)
    ensures
        r.name@ == name@,
        r.value@ == "1"@,
        !r.below_scratch,
{
    BuildVariable { name, value: "1", below_scratch: false }
}

/// A file of the restore state that a build may see.
pub open spec fn restore_file(name: Seq<char>) -> bool {
    ||| name == "project.assets.json"@
    ||| name == "project.nuget.cache"@
    ||| text::ends(name, ".nuget.g.props"@)
    ||| text::ends(name, ".nuget.g.targets"@)
    ||| text::ends(name, ".nuget.dgspec.json"@)
}

/// Whether a file of the restore state may be seen by a build.
pub fn is_restore_file(name: &str) -> (r: bool)
    ensures
        r == restore_file(name@),
{
    text::same(name, "project.assets.json") || text::same(name, "project.nuget.cache")
        || text::ends_with(name, ".nuget.g.props") || text::ends_with(name, ".nuget.g.targets")
        || text::ends_with(name, ".nuget.dgspec.json")
}

/// A path of a directory: with a separator at its end.
pub open spec fn directory_path(path: Seq<char>, separator: char) -> Seq<char> {
    let shown = execution::cli_path(path);
    if shown.len() > 0 && shown.last() == separator {
        shown
    } else {
        shown.push(separator)
    }
}

/// A path of a directory.
pub fn dotnet_directory_path(path: &str, separator: char) -> (r: String)
    ensures
        r@ == directory_path(path@, separator),
{
    let mut shown = execution::provider_cli_path(path);
    let chars = text::chars_of(shown.as_str());
    if chars.len() > 0 && chars[chars.len() - 1] == separator {
        return shown;
    }
    shown.push(separator);
    shown
}

/// The arguments of a dotnet build.
pub open spec fn dotnet_arguments(
    target: Seq<char>,
    root: Seq<char>,
    artifacts: Seq<char>,
    bin: Seq<char>,
    bin_debug: Seq<char>,
    obj: Seq<char>,
    obj_debug: Seq<char>,
    separator: char,
) -> Seq<Seq<char>> {
    seq![
        "build"@,
        execution::cli_path(target),
        "--configuration"@,
        "Debug"@,
        "--no-restore"@,
        "--no-incremental"@,
        "--disable-build-servers"@,
        "--artifacts-path"@,
        execution::cli_path(artifacts),
        "--property:GodotProjectDir="@ + execution::cli_path(root),
        "--property:BaseOutputPath="@ + directory_path(bin, separator),
        "--property:OutputPath="@ + directory_path(bin_debug, separator),
        "--property:BaseIntermediateOutputPath="@ + directory_path(obj, separator),
        "--property:IntermediateOutputPath="@ + directory_path(obj_debug, separator),
        "--nologo"@,
    ]
}

/// The arguments of a dotnet build.
pub fn dotnet_argv(
    target: &str,
    root: &str,
    artifacts: &str,
    bin: &str,
    bin_debug: &str,
    obj: &str,
    obj_debug: &str,
    separator: char,
) -> (r: Vec<String>)
    ensures
        text::views(r@) == dotnet_arguments(
            target@,
            root@,
            artifacts@,
            bin@,
            bin_debug@,
            obj@,
            obj_debug@,
            separator,
        ),
{
    let mut out: Vec<String> = Vec::new();
    let root_path = execution::provider_cli_path(root);
    let bin_path = dotnet_directory_path(bin, separator);
    let bin_debug_path = dotnet_directory_path(bin_debug, separator);
    let obj_path = dotnet_directory_path(obj, separator);
    let obj_debug_path = dotnet_directory_path(obj_debug, separator);
    out.push("build".to_owned());
    out.push(execution::provider_cli_path(target));
    out.push("--configuration".to_owned());
    out.push("Debug".to_owned());
    out.push("--no-restore".to_owned());
    out.push("--no-incremental".to_owned());
    out.push("--disable-build-servers".to_owned());
    out.push("--artifacts-path".to_owned());
    out.push(execution::provider_cli_path(artifacts));
    out.push(text::cat2("--property:GodotProjectDir=", root_path.as_str()));
    out.push(text::cat2("--property:BaseOutputPath=", bin_path.as_str()));
    out.push(text::cat2("--property:OutputPath=", bin_debug_path.as_str()));
    out.push(text::cat2("--property:BaseIntermediateOutputPath=", obj_path.as_str()));
    out.push(text::cat2("--property:IntermediateOutputPath=", obj_debug_path.as_str()));
    out.push("--nologo".to_owned());
    assert(text::views(out@) =~= dotnet_arguments(
        target@,
        root@,
        artifacts@,
        bin@,
        bin_debug@,
        obj@,
        obj_debug@,
        separator,
    ));
    out
}

/// The arguments of a cargo build.
pub fn cargo_argv(manifest: &str, artifacts: &str) -> (r: Vec<String>)
    ensures
        text::views(r@) == seq![
            "build"@,
            "--manifest-path"@,
            execution::cli_path(manifest@),
            "--workspace"@,
            "--all-targets"@,
            "--frozen"@,
            "--target-dir"@,
            execution::cli_path(artifacts@),
        ],
{
    let mut out: Vec<String> = Vec::new();
    out.push("build".to_owned());
    out.push("--manifest-path".to_owned());
    out.push(execution::provider_cli_path(manifest));
    out.push("--workspace".to_owned());
    out.push("--all-targets".to_owned());
    out.push("--frozen".to_owned());
    out.push("--target-dir".to_owned());
    out.push(execution::provider_cli_path(artifacts));
    assert(text::views(out@) =~= seq![
        "build"@,
        "--manifest-path"@,
        execution::cli_path(manifest@),
        "--workspace"@,
        "--all-targets"@,
        "--frozen"@,
        "--target-dir"@,
        execution::cli_path(artifacts@),
    ]);
    out
}

/// The arguments of a compilation of Python sources.
pub fn python_argv(bootstrap: &str, manifest: &str) -> (r: Vec<String>)
    ensures
        text::views(r@) == seq![
            "-I"@,
            "-S"@,
            "-B"@,
            "-c"@,
            bootstrap@,
            execution::cli_path(manifest@),
        ],
{
    let mut out: Vec<String> = Vec::new();
    out.push("-I".to_owned());
    out.push("-S".to_owned());
    out.push("-B".to_owned());
    out.push("-c".to_owned());
    out.push(bootstrap.to_owned());
    out.push(execution::provider_cli_path(manifest));
    assert(text::views(out@) =~= seq![
        "-I"@,
        "-S"@,
        "-B"@,
        "-c"@,
        bootstrap@,
        execution::cli_path(manifest@),
    ]);
    out
}

fn truth(b: bool) -> (r: &'static str)
    ensures
        r@ == shown_flag(b),
{
    if b {
        "true"
    } else {
        "false"
    }
}

/// A flag as it is shown.
pub open spec fn shown_flag(b: bool) -> Seq<char> {
    if b {
        "true"@
    } else {
        "false"@
    }
}

/// Why a probe is not believed.
pub open spec fn probe_refusal(stage: Seq<char>, process: ProcessResult) -> Option<ErrorView> {
    if process.stdout.truncated || process.stderr.truncated || !process.status.well() {
        Some(
            ErrorView::Provider(
                stage + " 未产生完整成功证据：exit_code="@ + text::shown_code(process.status.code)
                    + " stdout_truncated="@ + shown_flag(process.stdout.truncated)
                    + " stderr_truncated="@ + shown_flag(process.stderr.truncated),
            ),
        )
    } else {
        None
    }
}

/// Whether a probe may be believed.
pub fn require_probe_success(stage: &str, process: &ProcessResult) -> (r: Result<(), AppError>)
    ensures
        error::follows(r, probe_refusal(stage@, *process)),
{
    if process.stdout.truncated || process.stderr.truncated || !process.status.success() {
        let code = text::show_code(process.status.code);
        let mut line = text::cat5(
            stage,
            " 未产生完整成功证据：exit_code=",
            code.as_str(),
            " stdout_truncated=",
            truth(process.stdout.truncated),
        );
        line.append(" stderr_truncated=");
        line.append(truth(process.stderr.truncated));
        return Err(AppError::Provider(line));
    }
    Ok(())
}

/// Why a toolchain is not taken for the one of an adapter.
pub open spec fn toolchain_refusal(
    adapter: Seq<char>,
    marker: Seq<char>,
    version: Seq<char>,
) -> Option<ErrorView> {
    if text::occurs(text::lowered(version), text::lowered(marker)) || adapter == "dotnet-build"@ {
        None
    } else {
        Some(
            ErrorView::Provider(
                "toolchain version probe 不符合 adapter="@ + adapter + "："@ + text::quoted(
                    version,
                ),
            ),
        )
    }
}

/// Whether a toolchain is the one of an adapter.
pub fn check_toolchain(adapter: &str, marker: &str, version: &str) -> (r: Result<(), AppError>)
    ensures
        error::follows(r, toolchain_refusal(adapter@, marker@, version@)),
{
    let hay = text::to_lower(version);
    let needle = text::to_lower(marker);
    if text::contains(hay.as_str(), needle.as_str()) || text::same(adapter, "dotnet-build") {
        return Ok(());
    }
    let shown = text::quote(version);
    Err(
        AppError::Provider(
            text::cat4(
                "toolchain version probe 不符合 adapter=",
                adapter,
                "：",
                shown.as_str(),
            ),
        ),
    )
}

// ---------------------------------------------------------------------------
// How a build ended
// ---------------------------------------------------------------------------

/// What a build wrote shows that the machine and not the project is at fault.
pub open spec fn machine_at_fault(adapter: Seq<char>, output: Seq<char>) -> bool {
    let low = text::lowered(output);
    if adapter == "cargo-build"@ {
        ||| text::occurs(low, "linker `"@) && text::occurs(low, "not found"@)
        ||| text::occurs(low, "rustc not found"@)
        ||| text::occurs(low, "attempting to make an http request"@) && text::occurs(
            low,
            "--frozen"@,
        )
        ||| text::occurs(low, "no matching package named"@) && (text::occurs(low, "offline mode"@)
            || text::occurs(low, "--frozen"@))
    } else if adapter == "dotnet-build"@ {
        ||| text::occurs(low, "netsdk1004"@)
        ||| text::occurs(low, "assets file"@) && text::occurs(low, "not found"@)
        ||| text::occurs(low, "the sdk '"@) && text::occurs(low, "specified could not be found"@)
        ||| text::occurs(low, "msb4236"@)
    } else {
        false
    }
}

/// Whether what a build wrote shows that the machine is at fault.
pub fn output_blames_machine(adapter: &str, output: &str) -> (r: bool)
    ensures
        r == machine_at_fault(adapter@, output@),
{
    let low = text::lower_chars(output);
    if text::same(adapter, "cargo-build") {
        (text::chars_contain(&low, "linker `") && text::chars_contain(&low, "not found"))
            || text::chars_contain(&low, "rustc not found") || (text::chars_contain(
            &low,
            "attempting to make an http request",
        ) && text::chars_contain(&low, "--frozen")) || (text::chars_contain(
            &low,
            "no matching package named",
        ) && (text::chars_contain(&low, "offline mode") || text::chars_contain(&low, "--frozen")))
    } else if text::same(adapter, "dotnet-build") {
        text::chars_contain(&low, "netsdk1004") || (text::chars_contain(&low, "assets file")
            && text::chars_contain(&low, "not found")) || (text::chars_contain(&low, "the sdk '")
            && text::chars_contain(&low, "specified could not be found")) || text::chars_contain(
            &low,
            "msb4236",
        )
    } else {
        false
    }
}

/// What a build wrote, both of its streams.
pub open spec fn written(stdout: Seq<u8>, stderr: Seq<u8>) -> Seq<char> {
    text::utf8_lossy(stdout) + "\n"@ + text::utf8_lossy(stderr)
}

/// Whether a build failed for want of a toolchain or of what it needs to be
/// prepared, and not for what the project is.
pub fn infrastructure_failure(adapter: &str, stdout: &[u8], stderr: &[u8]) -> (r: bool)
    ensures
        r == machine_at_fault(adapter@, written(stdout@, stderr@)),
{
    let first = text::lossy_text(stdout);
    let second = text::lossy_text(stderr);
    let all = text::cat3(first.as_str(), "\n", second.as_str());
    output_blames_machine(adapter, all.as_str())
}

/// A finding of a build.
#[derive(Debug, Clone, PartialEq, Eq)]
pub struct BuildFinding {
    pub code: String,
    pub severity: FindingSeverity,
    pub authority: FindingAuthority,
    pub message: String,
    pub path: Option<String>,
}

/// What a finding says.
pub struct BuildFindingView {
    pub code: Seq<char>,
    pub severity: FindingSeverity,
    pub authority: FindingAuthority,
    pub message: Seq<char>,
    pub path: Option<Seq<char>>,
}

impl View for BuildFinding {
    type V = BuildFindingView;

    open spec fn view(&self) -> BuildFindingView {
        BuildFindingView {
            code: self.code@,
            severity: self.severity,
            authority: self.authority,
            message: self.message@,
            path: model::opt_view(self.path),
        }
    }
}

/// The hashes of the two streams at the end of a message.
pub open spec fn stream_hashes(process: ProcessResult) -> Seq<char> {
    "stdout_sha256="@ + process.stdout.sha256@ + " stderr_sha256="@ + process.stderr.sha256@
}

/// What is found of a build: that it could not be done, that it failed, or
/// that it left nothing behind; nothing where it did what it had to.
pub open spec fn build_finding(
    adapter: Seq<char>,
    target: Seq<char>,
    process: ProcessResult,
    infrastructure: bool,
    needs_artifacts: bool,
    artifacts: nat,
) -> Option<BuildFindingView> {
    if infrastructure {
        Some(
            BuildFindingView {
                code: "build_unavailable"@,
                severity: FindingSeverity::Warning,
                authority: FindingAuthority::Advisory,
                message: adapter
                    + " could not complete its fixed contract because required machine toolchain or prepared dependency state was unavailable; "@
                    + stream_hashes(process),
                path: Some(target),
            },
        )
    } else if !process.status.well() {
        Some(
            BuildFindingView {
                code: "build_exit_failure"@,
                severity: FindingSeverity::Error,
                authority: FindingAuthority::DeterministicViolation,
                message: adapter + " returned exit_code="@ + text::shown_code(process.status.code)
                    + "; "@ + stream_hashes(process),
                path: Some(target),
            },
        )
    } else if needs_artifacts && artifacts == 0 {
        Some(
            BuildFindingView {
                code: "required_artifact_missing"@,
                severity: FindingSeverity::Error,
                authority: FindingAuthority::DeterministicViolation,
                message: adapter + " succeeded but produced no regular artifact files"@,
                path: Some(target),
            },
        )
    } else {
        None
    }
}

/// What is found where a bundle for running could not be stored.
pub open spec fn bundle_finding(failure_fingerprint: Seq<char>) -> BuildFindingView {
    BuildFindingView {
        code: "runtime_bundle_unavailable"@,
        severity: FindingSeverity::Warning,
        authority: FindingAuthority::Advisory,
        message: "Build completed but exact Runtime bundle could not be committed to machine CAS; failure_fingerprint="@
            + failure_fingerprint,
        path: None,
    }
}

/// What is concluded from a build before a bundle is stored.
#[derive(Debug, Clone, PartialEq, Eq)]
pub struct BuildVerdict {
    pub infrastructure_failure: bool,
    pub coverage: EvidenceCoverage,
    pub finding: Option<BuildFinding>,
    pub store_bundle: bool,
}

fn hashes_of(process: &ProcessResult) -> (r: String)
    ensures
        r@ == stream_hashes(*process),
{
    text::cat4(
        "stdout_sha256=",
        process.stdout.sha256.as_str(),
        " stderr_sha256=",
        process.stderr.sha256.as_str(),
    )
}

/// A verdict tells what is concluded from a build.
pub open spec fn verdict_told(
    verdict: BuildVerdict,
    adapter: Seq<char>,
    target: Seq<char>,
    process: ProcessResult,
    machine_blamed: bool,
    output_kind: BuildOutputKind,
    artifacts: nat,
) -> bool {
    &&& verdict.infrastructure_failure == (!process.status.well() && machine_blamed)
    &&& verdict.coverage == (if process.stdout.truncated || process.stderr.truncated
        || verdict.infrastructure_failure {
        EvidenceCoverage::Partial
    } else {
        EvidenceCoverage::Complete
    })
    &&& (match verdict.finding {
        Some(f) => Some(f@),
        None => None,
    }) == build_finding(
        adapter,
        target,
        process,
        verdict.infrastructure_failure,
        output_kind == BuildOutputKind::ArtifactSet,
        artifacts,
    )
    &&& verdict.store_bundle == (verdict.finding is None && adapter == "dotnet-build"@)
}

/// What is concluded from a build, given whether the machine is at fault where
/// it failed and how many artifacts it left behind.
pub fn judge_build(
    adapter: &str,
    target: &str,
    process: &ProcessResult,
    machine_blamed: bool,
    output_kind: BuildOutputKind,
    artifacts: usize,
) -> (r: BuildVerdict)
    ensures
        verdict_told(
            r,
            adapter@,
            target@,
            *process,
            machine_blamed,
            output_kind,
            artifacts as nat,
        ),
{
    let infrastructure = !process.status.success() && machine_blamed;
    let coverage = if process.stdout.truncated || process.stderr.truncated || infrastructure {
        EvidenceCoverage::Partial
    } else {
        EvidenceCoverage::Complete
    };
    let finding = if infrastructure {
        let hashes = hashes_of(process);
        Some(
            BuildFinding {
                code: "build_unavailable".to_owned(),
                severity: FindingSeverity::Warning,
                authority: FindingAuthority::Advisory,
                message: text::cat3(
                    adapter,
                    " could not complete its fixed contract because required machine toolchain or prepared dependency state was unavailable; ",
                    hashes.as_str(),
                ),
                path: Some(target.to_owned()),
            },
        )
    } else if !process.status.success() {
        let hashes = hashes_of(process);
        let code = text::show_code(process.status.code);
        Some(
            BuildFinding {
                code: "build_exit_failure".to_owned(),
                severity: FindingSeverity::Error,
                authority: FindingAuthority::DeterministicViolation,
                message: text::cat5(
                    adapter,
                    " returned exit_code=",
                    code.as_str(),
                    "; ",
                    hashes.as_str(),
                ),
                path: Some(target.to_owned()),
            },
        )
    } else if output_kind == BuildOutputKind::ArtifactSet && artifacts == 0 {
        Some(
            BuildFinding {
                code: "required_artifact_missing".to_owned(),
                severity: FindingSeverity::Error,
                authority: FindingAuthority::DeterministicViolation,
                message: text::cat2(
                    adapter,
                    " succeeded but produced no regular artifact files",
                ),
                path: Some(target.to_owned()),
            },
        )
    } else {
        None
    };
    let store_bundle = finding.is_none() && text::same(adapter, "dotnet-build");
    BuildVerdict { infrastructure_failure: infrastructure, coverage, finding, store_bundle }
}

/// The status of a build.
pub open spec fn status_of(
    infrastructure: bool,
    bundle_failed: bool,
    finding: bool,
    well: bool,
) -> Seq<char> {
    if infrastructure || bundle_failed {
        "incomplete"@
    } else if !finding && well {
        "succeeded"@
    } else {
        "failed"@
    }
}

/// Findings and a status tell what a build comes to.
pub open spec fn conclusion_told(
    findings: Seq<BuildFinding>,
    status: Seq<char>,
    verdict: BuildVerdict,
    process: ProcessResult,
    bundle_failure: Option<Seq<char>>,
) -> bool {
    let own: int = if verdict.finding is Some {
        1
    } else {
        0
    };
    let bundle: int = if bundle_failure is Some {
        1
    } else {
        0
    };
    &&& status == status_of(
        verdict.infrastructure_failure,
        bundle_failure is Some,
        verdict.finding is Some,
        process.status.well(),
    )
    &&& findings.len() == own + bundle
    &&& verdict.finding is Some ==> findings[0] == verdict.finding->0
    &&& bundle_failure is Some ==> findings.last()@ == bundle_finding(bundle_failure->0)
}

/// What a build comes to, once a bundle was stored where one had to be: all
/// findings, and the status.
pub fn conclude_build(
    verdict: BuildVerdict,
    process: &ProcessResult,
    bundle_failure_fingerprint: &Option<String>,
) -> (r: (Vec<BuildFinding>, &'static str))
    ensures
        conclusion_told(
            r.0@,
            r.1@,
            verdict,
            *process,
            model::opt_view(*bundle_failure_fingerprint),
        ),
{
    let mut findings: Vec<BuildFinding> = Vec::new();
    let found = verdict.finding.is_some();
    match verdict.finding {
        Some(f) => {
            findings.push(f);
        },
        None => {},
    }
    match bundle_failure_fingerprint {
        Some(fingerprint) => {
            findings.push(
                BuildFinding {
                    code: "runtime_bundle_unavailable".to_owned(),
                    severity: FindingSeverity::Warning,
                    authority: FindingAuthority::Advisory,
                    message: text::cat2(
                        "Build completed but exact Runtime bundle could not be committed to machine CAS; failure_fingerprint=",
                        fingerprint.as_str(),
                    ),
                    path: None,
                },
            );
        },
        None => {},
    }
    let status = if verdict.infrastructure_failure || bundle_failure_fingerprint.is_some() {
        "incomplete"
    } else if !found && process.status.success() {
        "succeeded"
    } else {
        "failed"
    };
    (findings, status)
}

/// Only what the project is at fault for is a violation: a failure of the
/// machine never carries the authority to block, and never counts as complete.
pub proof fn machine_failures_never_block(
    adapter: Seq<char>,
    target: Seq<char>,
    process: ProcessResult,
    needs_artifacts: bool,
    artifacts: nat,
)
    ensures
        build_finding(adapter, target, process, true, needs_artifacts, artifacts)->0.authority
            == FindingAuthority::Advisory,
        status_of(true, false, true, false) == "incomplete"@,
        build_finding(adapter, target, process, false, needs_artifacts, artifacts) is None
            ==> process.status.well(),
{
}

/// Why a run is thrown away: the source or the toolchain changed meanwhile.
pub open spec fn run_refusal(
    source_before: Seq<char>,
    source_after: Seq<char>,
    executable_before: Seq<char>,
    executable_after: Seq<char>,
) -> Option<ErrorView> {
    if source_before != source_after {
        Some(
            ErrorView::Provider("源码在 Build Evidence 运行期间发生变化；结果已丢弃"@),
        )
    } else if executable_before != executable_after {
        Some(ErrorView::Provider("Build toolchain executable 在运行期间发生漂移"@))
    } else {
        None
    }
}

/// Whether a run stands: neither the source nor the toolchain changed.
pub fn check_run(
    source_before: &str,
    source_after: &str,
    executable_before: &str,
    executable_after: &str,
) -> (r: Result<(), AppError>)
    ensures
        error::follows(
            r,
            run_refusal(source_before@, source_after@, executable_before@, executable_after@),
        ),
{
    if !text::same(source_before, source_after) {
        return Err(
            AppError::Provider(
                "源码在 Build Evidence 运行期间发生变化；结果已丢弃".to_owned(),
            ),
        );
    }
    if !text::same(executable_before, executable_after) {
        return Err(
            AppError::Provider("Build toolchain executable 在运行期间发生漂移".to_owned()),
        );
    }
    Ok(())
}

/// What a build may use of the network.
pub open spec fn policy_of(adapter: Seq<char>) -> Seq<char> {
    if adapter == "cargo-build"@ {
        "offline_frozen"@
    } else if adapter == "dotnet-build"@ {
        "no_restore"@
    } else {
        "compiler_only"@
    }
}

/// What a build may use of the network.
pub fn network_policy(adapter: &str) -> (r: &'static str)
    ensures
        r@ == policy_of(adapter@),
{
    if text::same(adapter, "cargo-build") {
        "offline_frozen"
    } else if text::same(adapter, "dotnet-build") {
        "no_restore"
    } else {
        "compiler_only"
    }
}

/// The name under which a build gives evidence.
pub fn build_provider_id(adapter: &str, profile_id: &str) -> (r: String)
    ensures
        r@ == adapter@ + "."@ + profile_id@,
{
    text::cat3(adapter, ".", profile_id)
}

/// The version of a toolchain as evidence names it.
pub fn toolchain_identity(version: &str, executable_sha256: &str) -> (r: String)
    ensures
        r@ == version@ + "+sha256."@ + executable_sha256@,
{
    text::cat3(version, "+sha256.", executable_sha256)
}

// ---------------------------------------------------------------------------
// Artifacts
// ---------------------------------------------------------------------------

/// What an entry of an artifact directory is, and where it leads.
#[derive(Debug, Clone, Copy, PartialEq, Eq, Structural)]
pub enum ArtifactKind {
    Link,
    Outside,
    Directory,
    File,
    Other,
}

/// Artifacts while stock is taken of them.
#[derive(Debug, Clone, PartialEq, Eq)]
pub struct ArtifactStock {
    pub entries: Vec<ArtifactEntry>,
    pub total_bytes: u64,
}

/// The sizes of entries together.
pub open spec fn sizes(entries: Seq<ArtifactEntry>) -> nat
    decreases entries.len(),
{
    if entries.len() == 0 {
        0
    } else {
        sizes(entries.drop_last()) + entries.last().size as nat
    }
}

impl ArtifactStock {
    /// Within the limits, and counted right.
    pub open spec fn valid(self) -> bool {
        &&& self.entries@.len() <= MAX_ARTIFACT_FILES
        &&& self.total_bytes <= MAX_ARTIFACT_BYTES
        &&& self.total_bytes == sizes(self.entries@)
    }

    /// Why artifacts with such an entry are no evidence.
    pub open spec fn refusal(self, kind: ArtifactKind, shown: Seq<char>, size: u64) -> Option<
        ErrorView,
    > {
        match kind {
            ArtifactKind::Link => Some(
                ErrorView::Provider("Build artifact 包含链接，拒绝纳入证据："@ + shown),
            ),
            ArtifactKind::Outside => Some(
                ErrorView::Provider("Build artifact 解析后越出 machine scratch"@),
            ),
            ArtifactKind::Directory => None,
            ArtifactKind::Other => Some(
                ErrorView::Provider("Build artifact 不是普通文件或目录"@),
            ),
            ArtifactKind::File => if self.total_bytes + size > u64::MAX {
                Some(ErrorView::Provider("Build artifact 总大小溢出"@))
            } else if self.entries@.len() >= MAX_ARTIFACT_FILES || self.total_bytes + size
                > MAX_ARTIFACT_BYTES {
                Some(
                    ErrorView::Provider("Build artifact manifest 超过文件数或总字节安全上限"@),
                )
            } else {
                None
            },
        }
    }

    pub fn new() -> (r: Self)
        ensures
            r.valid(),
            r.entries@.len() == 0,
    {
        ArtifactStock { entries: Vec::new(), total_bytes: 0 }
    }

    /// Whether an entry may be taken into account; `true` where it is a file
    /// that has to be.
    pub fn check(&self, kind: ArtifactKind, shown: &str, size: u64) -> (r: Result<bool, AppError>)
        ensures
            error::follows(r, self.refusal(kind, shown@, size)),
            r is Ok ==> r->Ok_0 == (kind == ArtifactKind::File),
    {
        match kind {
            ArtifactKind::Link => Err(
                AppError::Provider(
                    text::cat2("Build artifact 包含链接，拒绝纳入证据：", shown),
                ),
            ),
            ArtifactKind::Outside => Err(
                AppError::Provider("Build artifact 解析后越出 machine scratch".to_owned()),
            ),
            ArtifactKind::Directory => Ok(false),
            ArtifactKind::Other => Err(
                AppError::Provider("Build artifact 不是普通文件或目录".to_owned()),
            ),
            ArtifactKind::File => {
                if size > u64::MAX - self.total_bytes {
                    return Err(AppError::Provider("Build artifact 总大小溢出".to_owned()));
                }
                if self.entries.len() >= MAX_ARTIFACT_FILES || self.total_bytes + size
                    > MAX_ARTIFACT_BYTES {
                    return Err(
                        AppError::Provider(
                            "Build artifact manifest 超过文件数或总字节安全上限".to_owned(),
                        ),
                    );
                }
                Ok(true)
            },
        }
    }

    /// Take a file into account.
    pub fn add_file(&mut self, relative: &str, size: u64, sha256: &str)
        requires
            old(self).valid(),
            old(self).refusal(ArtifactKind::File, Seq::empty(), size) is None,
        ensures
            final(self).valid(),
            final(self).entries@.len() == old(self).entries@.len() + 1,
            final(self).entries@.drop_last() == old(self).entries@,
            final(self).entries@.last().relative_path@ == display_path(relative@),
            final(self).entries@.last().size == size,
            final(self).entries@.last().sha256@ == sha256@,
            final(self).total_bytes == old(self).total_bytes + size,
    {
        let ghost before = self.entries@;
        self.total_bytes = self.total_bytes + size;
        self.entries.push(
            ArtifactEntry {
                relative_path: project_relative_path(relative),
                size,
                sha256: sha256.to_owned(),
            },
        );
        assert(self.entries@.drop_last() =~= before);
    }

    /// All files in the order of their paths, and their sizes together.
    pub fn finish(self) -> (r: (Vec<ArtifactEntry>, u64))
        ensures
            r.0@ == sorting::sorted(self.entries@),
            r.1 == self.total_bytes,
    {
        (sorting::sort(self.entries), self.total_bytes)
    }
}

// ---------------------------------------------------------------------------
// What is shown
// ---------------------------------------------------------------------------

/// A text without the paths of the machine.
pub open spec fn redacted(s: Seq<char>, root: Seq<char>, scratch: Seq<char>) -> Seq<char> {
    text::replaced(
        text::replaced(s, execution::cli_path(root), "<PROJECT_ROOT>"@),
        execution::cli_path(scratch),
        "<MACHINE_SCRATCH>"@,
    )
}

fn redact(s: &str, root: &str, scratch: &str) -> (r: String)
    ensures
        r@ == redacted(s@, root@, scratch@),
{
    let root_path = execution::provider_cli_path(root);
    let scratch_path = execution::provider_cli_path(scratch);
    let once = text::replace(s, root_path.as_str(), "<PROJECT_ROOT>");
    text::replace(once.as_str(), scratch_path.as_str(), "<MACHINE_SCRATCH>")
}

/// Arguments without the paths of the machine.
pub fn redact_machine_paths(argv: &Vec<String>, root: &str, scratch: &str) -> (r: Vec<String>)
    ensures
        text::views(r@) == text::views(argv@).map_values(
            |a: Seq<char>| redacted(a, root@, scratch@),
        ),
{
    let mut out: Vec<String> = Vec::new();
    let mut i: usize = 0;
    while i < argv.len()
        invariant
            i <= argv@.len(),
            out@.len() == i,
            forall|k: int|
                0 <= k < i ==> (#[trigger] out@[k])@ == redacted(argv@[k]@, root@, scratch@),
        decreases argv@.len() - i,
    {
        out.push(redact(argv[i].as_str(), root, scratch));
        i = i + 1;
    }
    assert(text::views(out@) =~= text::views(argv@).map_values(
        |a: Seq<char>| redacted(a, root@, scratch@),
    ));
    out
}

/// The beginning of an output without the paths of the machine.
pub fn sanitize_output_excerpt(bytes: &[u8], root: &str, scratch: &str) -> (r: String)
    ensures
        r@ == redacted(text::shortened(text::utf8_lossy(bytes@), 4096), root@, scratch@),
{
    let all = text::lossy_text(bytes);
    let excerpt = text::shorten(all.as_str(), 4096);
    redact(excerpt.as_str(), root, scratch)
}

// ---------------------------------------------------------------------------
// What a build has to be
// ---------------------------------------------------------------------------

/// A build runs with trust in the local executable only, and code of the
/// repository with trust in that too.
pub proof fn builds_need_trust(local: bool, repository: bool, class: ExecutionClass)
    ensures
        trust_refusal(local, repository, class) is None <==> local && (class
            == ExecutionClass::RepositoryBuildCode ==> repository),
{
}

/// A target is built exactly where it stays inside the root and is what the
/// build takes.
pub proof fn targets_stay_inside(
    facts: TargetFacts,
    is_file: bool,
    extension: Option<Seq<char>>,
    allowed: Seq<Seq<char>>,
)
    ensures
        path_refusal(facts) is None <==> facts.stays_below && facts.inside_root,
        directory_refusal(facts, is_file) is None <==> facts.stays_below && facts.inside_root
            && is_file,
        file_refusal(facts, is_file, extension, allowed) is None <==> {
            &&& facts.stays_below && facts.inside_root && is_file
            &&& extension is Some
            &&& exists|i: int|
                0 <= i < allowed.len() && text::lowered(#[trigger] allowed[i]) == text::lowered(
                    extension->0,
                )
        },
{
}

/// All Python files below the target are compiled, and no others.
pub proof fn all_python_sources_are_compiled(files: Seq<SourceFile>, n: nat)
    requires
        n <= files.len(),
    ensures
        sources_of(files, n) == files.take(n as int).filter(
            |f: SourceFile|
                f.below_target && f.extension is Some && text::lowered(f.extension->0@)
                    == text::lowered("py"@),
        ).map_values(
            |f: SourceFile| (f.display_path@, execution::cli_path(f.absolute_path@)),
        ),
    decreases n,
{
    reveal(Seq::filter);
    let kept = |f: SourceFile|
        f.below_target && f.extension is Some && text::lowered(f.extension->0@) == text::lowered(
            "py"@,
        );
    let told = |f: SourceFile| (f.display_path@, execution::cli_path(f.absolute_path@));
    let now = files.take(n as int);
    if n > 0 {
        let init = files.take(n - 1);
        all_python_sources_are_compiled(files, (n - 1) as nat);
        assert(now.drop_last() =~= init);
        let f = files[n - 1];
        assert(compiled(f) == kept(f)) by {
            let only = seq!["py"@];
            assert(only[0] == "py"@);
        }
        if kept(f) {
            assert(now.filter(kept) =~= init.filter(kept).push(f));
            assert(now.filter(kept).map_values(told) =~= init.filter(kept).map_values(told).push(
                told(f),
            ));
        } else {
            assert(now.filter(kept) =~= init.filter(kept));
        }
    } else {
        assert(sources_of(files, n) =~= now.filter(kept).map_values(told));
    }
}

/// What a restore leaves behind is known by its name, whatever the project is
/// called.
pub proof fn restore_files_are_known(stem: Seq<char>)
    ensures
        restore_file("project.assets.json"@),
        restore_file("project.nuget.cache"@),
        restore_file(stem + ".nuget.g.props"@),
        restore_file(stem + ".nuget.g.targets"@),
        restore_file(stem + ".nuget.dgspec.json"@),
{
    ends_with_back(stem, ".nuget.g.props"@);
    ends_with_back(stem, ".nuget.g.targets"@);
    ends_with_back(stem, ".nuget.dgspec.json"@);
}

proof fn ends_with_back(front: Seq<char>, back: Seq<char>)
    ensures
        text::ends(front + back, back),
{
    let s = front + back;
    assert(s.subrange(s.len() - back.len(), s.len() as int) =~= back);
}

/// A failed build counts against the code unless the machine is at fault; then
/// it is advice only. A build that ended well is found fault with exactly where
/// it should have made files and made none.
pub proof fn failed_builds_count_against_the_code(
    verdict: BuildVerdict,
    adapter: Seq<char>,
    target: Seq<char>,
    process: ProcessResult,
    blamed: bool,
    kind: BuildOutputKind,
    artifacts: nat,
)
    requires
        verdict_told(verdict, adapter, target, process, blamed, kind, artifacts),
    ensures
        process.status.code != Some(0i32) ==> verdict.finding is Some,
        process.status.code != Some(0i32) && !blamed ==> verdict.finding->0.severity
            == FindingSeverity::Error && verdict.finding->0.authority
            == FindingAuthority::DeterministicViolation,
        process.status.code != Some(0i32) && blamed ==> verdict.finding->0.severity
            == FindingSeverity::Warning && verdict.finding->0.authority
            == FindingAuthority::Advisory,
        process.status.code == Some(0i32) ==> (verdict.finding is Some <==> kind
            == BuildOutputKind::ArtifactSet && artifacts == 0),
        process.status.code == Some(0i32) && verdict.finding is Some
            ==> verdict.finding->0.authority == FindingAuthority::DeterministicViolation
            && verdict.finding->0.severity == FindingSeverity::Error,
        verdict.finding is Some ==> verdict.finding->0.path is Some
            && verdict.finding->0.path->0@ == target,
        verdict.coverage == EvidenceCoverage::Complete <==> !process.stdout.truncated
            && !process.stderr.truncated && !(process.status.code != Some(0i32) && blamed),
{
    if let Some(f) = verdict.finding {
        assert(f@ == build_finding(
            adapter,
            target,
            process,
            verdict.infrastructure_failure,
            kind == BuildOutputKind::ArtifactSet,
            artifacts,
        )->0);
    }
}

/// A run succeeded exactly where it ended well, nothing was found and nothing of
/// the machine stood in its way.
pub proof fn success_is_told_of_good_runs_only(
    infrastructure: bool,
    bundle_failed: bool,
    finding: bool,
    well: bool,
)
    ensures
        status_of(infrastructure, bundle_failed, finding, well) == "succeeded"@ <==> well
            && !finding && !infrastructure && !bundle_failed,
        status_of(infrastructure, bundle_failed, finding, well) == "incomplete"@
            <==> infrastructure || bundle_failed,
{
    reveal_strlit("succeeded");
    reveal_strlit("incomplete");
    reveal_strlit("failed");
    assert("succeeded"@[0] == 's' && "incomplete"@[0] == 'i' && "failed"@[0] == 'f');
}

/// A run counts exactly where neither the source nor the executable changed
/// meanwhile, and a probe exactly where it ended well and was read whole.
pub proof fn only_steady_runs_count(
    a: Seq<char>,
    b: Seq<char>,
    c: Seq<char>,
    d: Seq<char>,
    stage: Seq<char>,
    process: ProcessResult,
)
    ensures
        run_refusal(a, b, c, d) is None <==> a == b && c == d,
        probe_refusal(stage, process) is None <==> process.status.code == Some(0i32)
            && !process.stdout.truncated && !process.stderr.truncated,
{
}

/// The machine is at fault where a tool or something prepared is missing, and
/// never where Python is compiled.
pub proof fn missing_tools_are_the_machine_s_fault(output: Seq<char>)
    ensures
        ({
            let low = text::lowered(output);
            &&& text::occurs(low, "rustc not found"@) ==> machine_at_fault("cargo-build"@, output)
            &&& text::occurs(low, "linker `"@) && text::occurs(low, "not found"@)
                ==> machine_at_fault("cargo-build"@, output)
            &&& text::occurs(low, "no matching package named"@) && text::occurs(
                low,
                "offline mode"@,
            ) ==> machine_at_fault("cargo-build"@, output)
            &&& text::occurs(low, "netsdk1004"@) ==> machine_at_fault("dotnet-build"@, output)
            &&& text::occurs(low, "msb4236"@) ==> machine_at_fault("dotnet-build"@, output)
            &&& text::occurs(low, "assets file"@) && text::occurs(low, "not found"@)
                ==> machine_at_fault("dotnet-build"@, output)
            &&& machine_at_fault("cargo-build"@, output) ==> text::occurs(low, "not found"@)
                || text::occurs(low, "rustc not found"@) || text::occurs(low, "--frozen"@)
                || text::occurs(low, "offline mode"@)
        }),
        forall|adapter: Seq<char>|
            adapter != "cargo-build"@ && adapter != "dotnet-build"@ ==> !#[trigger] machine_at_fault(
                adapter,
                output,
            ),
{
    reveal_strlit("cargo-build");
    reveal_strlit("dotnet-build");
    assert("cargo-build"@[0] == 'c' && "dotnet-build"@[0] == 'd');
}

/// Every file counts with its size.
pub proof fn every_size_counts(a: Seq<ArtifactEntry>, b: Seq<ArtifactEntry>, e: ArtifactEntry)
    ensures
        sizes(a + b) == sizes(a) + sizes(b),
        sizes(a.push(e)) == sizes(a) + e.size,
    decreases b.len(),
{
    assert(a.push(e).drop_last() =~= a);
    if b.len() == 0 {
        assert(a + b =~= a);
    } else {
        assert((a + b).drop_last() =~= a + b.drop_last());
        every_size_counts(a, b.drop_last(), e);
    }
}

} // verus!
