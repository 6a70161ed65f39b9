//! Engine evidence from Godot: which engine is taken, how it is run, and what
//! it reports as wrong.
use crate::error::{self, AppError, ErrorView};
use crate::execution::{self, ProcessResult};
use crate::order;
use crate::provider_run;
use crate::text;
use vstd::prelude::*;

verus! {

broadcast use {vstd::string::group_string_axioms, vstd::seq::group_seq_axioms};

pub const GODOT_RUN_SCHEMA_VERSION: u32 = 1;

/// The largest result of a probe that is read.
pub const MAX_PROBE_RESULT_BYTES: u64 = 67108864;

/// What is reported of a process.
#[derive(Debug, Clone, PartialEq, Eq)]
pub struct GodotProcessSummary {
    pub duration_ms: u128,
    pub exit_code: Option<i32>,
    pub stdout_bytes: usize,
    pub stderr_bytes: usize,
    pub stdout_sha256: String,
    pub stderr_sha256: String,
}

/// What is reported of a process.
pub fn process_summary(process: &ProcessResult) -> (r: GodotProcessSummary)
    ensures
        r.duration_ms == process.duration_ms,
        r.exit_code == process.status.code,
        r.stdout_bytes == process.stdout.total_bytes,
        r.stderr_bytes == process.stderr.total_bytes,
        r.stdout_sha256 == process.stdout.sha256,
        r.stderr_sha256 == process.stderr.sha256,
{
    GodotProcessSummary {
        duration_ms: process.duration_ms,
        exit_code: process.status.code,
        stdout_bytes: process.stdout.total_bytes,
        stderr_bytes: process.stderr.total_bytes,
        stdout_sha256: process.stdout.sha256.clone(),
        stderr_sha256: process.stderr.sha256.clone(),
    }
}

/// Why the engine is not run at all.
pub open spec fn run_refusal(
    trust_local_executable: bool,
    has_project_file: bool,
    root: Seq<char>,
) -> Option<ErrorView> {
    if !trust_local_executable {
        Some(
            ErrorView::Provider(
                "运行 Godot Engine Evidence Provider 需要显式传入 --trust-local-executable"@,
            ),
        )
    } else if !has_project_file {
        Some(ErrorView::Provider("项目根缺少 project.godot："@ + root))
    } else {
        None
    }
}

/// Whether the engine may be run on a project.
pub fn begin_run(trust_local_executable: bool, has_project_file: bool, root: &str) -> (r: Result<
    (),
    AppError,
>)
    ensures
        error::follows(r, run_refusal(trust_local_executable, has_project_file, root@)),
{
    if !trust_local_executable {
        return Err(
            AppError::Provider(
                "运行 Godot Engine Evidence Provider 需要显式传入 --trust-local-executable".to_owned(),
            ),
        );
    }
    if !has_project_file {
        return Err(AppError::Provider(text::cat2("项目根缺少 project.godot：", root)));
    }
    Ok(())
}

/// Why a stage is not believed to be complete.
pub open spec fn stage_refusal(stage: Seq<char>, process: ProcessResult) -> Option<ErrorView> {
    if process.stdout.truncated || process.stderr.truncated {
        Some(
            ErrorView::Provider(
                stage + " 输出超过捕获上限，不能声称 complete evidence；stdout_bytes="@
                    + text::decimal(process.stdout.total_bytes as nat) + " stderr_bytes="@
                    + text::decimal(process.stderr.total_bytes as nat),
            ),
        )
    } else if !process.status.well() {
        Some(
            ErrorView::Provider(
                stage + " 失败，exit_code="@ + text::shown_code(process.status.code)
                    + " stdout_sha256="@ + process.stdout.sha256@ + " stderr_sha256="@
                    + process.stderr.sha256@ + " stderr_excerpt="@ + text::quoted(
                    text::shortened(text::utf8_lossy(process.stderr.bytes@), 4096),
                ),
            ),
        )
    } else {
        None
    }
}

/// Whether a stage ended well and all of its output is there.
pub fn require_complete_success(stage: &str, process: &ProcessResult) -> (r: Result<(), AppError>)
    ensures
        error::follows(r, stage_refusal(stage@, *process)),
{
    if process.stdout.truncated || process.stderr.truncated {
        let a = text::decimal_text(process.stdout.total_bytes as u64);
        let b = text::decimal_text(process.stderr.total_bytes as u64);
        return Err(
            AppError::Provider(
                text::cat5(
                    stage,
                    " 输出超过捕获上限，不能声称 complete evidence；stdout_bytes=",
                    a.as_str(),
                    " stderr_bytes=",
                    b.as_str(),
                ),
            ),
        );
    }
    if !process.status.success() {
        let all = text::lossy_text(process.stderr.bytes.as_slice());
        let excerpt = text::shorten(all.as_str(), 4096);
        let shown = text::quote(excerpt.as_str());
        let code = text::show_code(process.status.code);
        let mut line = text::cat5(
            stage,
            " 失败，exit_code=",
            code.as_str(),
            " stdout_sha256=",
            process.stdout.sha256.as_str(),
        );
        line.append(" stderr_sha256=");
        line.append(process.stderr.sha256.as_str());
        line.append(" stderr_excerpt=");
        line.append(shown.as_str());
        return Err(AppError::Provider(line));
    }
    Ok(())
}

/// Why an engine of a version is not taken.
pub open spec fn version_refusal(version: Seq<char>) -> Option<ErrorView> {
    if text::pieces(version, '.')[0] == "4"@ {
        None
    } else {
        Some(
            ErrorView::Provider(
                "Godot Engine Evidence Provider v1 只支持 Godot 4，实际版本="@ + text::quoted(
                    version,
                ),
            ),
        )
    }
}

/// Whether an engine of a version is taken.
pub fn check_version(version: &str) -> (r: Result<(), AppError>)
    ensures
        error::follows(r, version_refusal(version@)),
{
    let chars = text::chars_of(version);
    let parts = text::split_chars(&chars, '.');
    proof {
        text::pieces_nonempty(version@, '.');
    }
    let major = text::text_of(parts[0].as_slice());
    assert(text::char_views(parts@)[0] == parts@[0]@);
    if text::same(major.as_str(), "4") {
        return Ok(());
    }
    let shown = text::quote(version);
    Err(
        AppError::Provider(
            text::cat2(
                "Godot Engine Evidence Provider v1 只支持 Godot 4，实际版本=",
                shown.as_str(),
            ),
        ),
    )
}

/// What the help of an engine has to name.
pub open spec fn capabilities() -> Seq<Seq<char>> {
    seq!["Godot Engine"@, "--headless"@, "--script"@, "--import"@]
}

/// The first of the first capabilities that a help does not name.
pub open spec fn missing_capability(help: Seq<char>, n: nat) -> Option<Seq<char>>
    decreases n,
{
    if n == 0 {
        None
    } else {
        match missing_capability(help, (n - 1) as nat) {
            Some(c) => Some(c),
            None => if text::occurs(help, capabilities()[n - 1]) {
                None
            } else {
                Some(capabilities()[n - 1])
            },
        }
    }
}

/// Why an engine of such a help is not taken.
pub open spec fn help_refusal(help: Seq<char>) -> Option<ErrorView> {
    match missing_capability(help, 4) {
        Some(c) => Some(
            ErrorView::Provider(
                "Godot capability probe 缺少 "@ + text::quoted(c)
                    + "，拒绝把 executable 认定为兼容 editor"@,
            ),
        ),
        None => None,
    }
}

/// Whether an engine of such a help is taken.
pub fn check_capabilities(help: &str) -> (r: Result<(), AppError>)
    ensures
        error::follows(r, help_refusal(help@)),
{
    let hay = text::chars_of(help);
    let names: Vec<&str> = vec!["Godot Engine", "--headless", "--script", "--import"];
    assert(text::str_views(names@) =~= capabilities());
    let mut i: usize = 0;
    while i < names.len()
        invariant
            i <= names@.len() == 4,
            hay@ == help@,
            text::str_views(names@) == capabilities(),
            missing_capability(help@, i as nat) is None,
        decreases 4 - i,
    {
        assert(text::str_views(names@)[i as int] == names@[i as int]@);
        if !text::chars_contain(&hay, names[i]) {
            proof {
                missing_stays(help@, (i + 1) as nat, 4);
            }
            let shown = text::quote(names[i]);
            return Err(
                AppError::Provider(
                    text::cat3(
                        "Godot capability probe 缺少 ",
                        shown.as_str(),
                        "，拒绝把 executable 认定为兼容 editor",
                    ),
                ),
            );
        }
        i = i + 1;
    }
    Ok(())
}

proof fn missing_stays(help: Seq<char>, n: nat, m: nat)
    requires
        n <= m,
        missing_capability(help, n) is Some,
    ensures
        missing_capability(help, m) == missing_capability(help, n),
    decreases m - n,
{
    if n < m {
        missing_stays(help, n, (m - 1) as nat);
    }
}

/// What an engine writes as its help, both of its streams.
pub fn help_text(process: &ProcessResult) -> (r: String)
    ensures
        r@ == text::utf8_lossy(process.stdout.bytes@) + text::utf8_lossy(process.stderr.bytes@),
{
    let a = text::lossy_text(process.stdout.bytes.as_slice());
    let b = text::lossy_text(process.stderr.bytes.as_slice());
    text::cat2(a.as_str(), b.as_str())
}

/// A path as it is handed to the engine.
pub open spec fn engine_path(path: Seq<char>) -> Seq<char> {
    text::replaced(execution::cli_path(path), "\\"@, "/"@)
}

/// A path as it is handed to the engine.
pub fn godot_cli_path(path: &str) -> (r: String)
    ensures
        r@ == engine_path(path@),
{
    let shown = execution::provider_cli_path(path);
    text::replace(shown.as_str(), "\\", "/")
}

/// The arguments with which the engine imports a project.
pub fn import_argv(root: &str) -> (r: Vec<String>)
    ensures
        text::views(r@) == seq![
            "--headless"@,
            "--no-header"@,
            "--path"@,
            engine_path(root@),
            "--import"@,
        ],
{
    let mut out: Vec<String> = Vec::new();
    out.push("--headless".to_owned());
    out.push("--no-header".to_owned());
    out.push("--path".to_owned());
    out.push(godot_cli_path(root));
    out.push("--import".to_owned());
    assert(text::views(out@) =~= seq![
        "--headless"@,
        "--no-header"@,
        "--path"@,
        engine_path(root@),
        "--import"@,
    ]);
    out
}

/// The arguments with which the engine runs the probe.
pub fn probe_argv(root: &str, script: &str, output: &str) -> (r: Vec<String>)
    ensures
        text::views(r@) == seq![
            "--headless"@,
            "--no-header"@,
            "--path"@,
            engine_path(root@),
            "--script"@,
            engine_path(script@),
            "--"@,
            engine_path(output@),
        ],
{
    let mut out: Vec<String> = Vec::new();
    out.push("--headless".to_owned());
    out.push("--no-header".to_owned());
    out.push("--path".to_owned());
    out.push(godot_cli_path(root));
    out.push("--script".to_owned());
    out.push(godot_cli_path(script));
    out.push("--".to_owned());
    out.push(godot_cli_path(output));
    assert(text::views(out@) =~= seq![
        "--headless"@,
        "--no-header"@,
        "--path"@,
        engine_path(root@),
        "--script"@,
        engine_path(script@),
        "--"@,
        engine_path(output@),
    ]);
    out
}

/// What is found of the result of a probe.
#[derive(Debug, PartialEq, Eq)]
pub struct ResultFacts {
    pub regular: Result<bool, String>,
    pub len: u64,
}

/// Why the result of a probe is not read.
pub open spec fn result_refusal(facts: ResultFacts) -> Option<ErrorView> {
    match facts.regular {
        Err(error) => Some(
            ErrorView::Provider("Godot evidence probe 未生成结果文件："@ + error@),
        ),
        Ok(regular) => if !regular {
            Some(ErrorView::Provider("Godot evidence probe 结果不是受控普通文件"@))
        } else if facts.len > MAX_PROBE_RESULT_BYTES {
            Some(
                ErrorView::Provider(
                    "Godot evidence probe 结果超过 "@ + text::decimal(
                        MAX_PROBE_RESULT_BYTES as nat,
                    ) + " 字节上限"@,
                ),
            )
        } else {
            None
        },
    }
}

/// Whether the result of a probe may be read.
pub fn check_result(facts: &ResultFacts) -> (r: Result<(), AppError>)
    ensures
        error::follows(r, result_refusal(*facts)),
{
    match &facts.regular {
        Err(error) => Err(
            AppError::Provider(
                text::cat2("Godot evidence probe 未生成结果文件：", error.as_str()),
            ),
        ),
        Ok(regular) => {
            if !*regular {
                return Err(
                    AppError::Provider("Godot evidence probe 结果不是受控普通文件".to_owned()),
                );
            }
            if facts.len > MAX_PROBE_RESULT_BYTES {
                let limit = text::decimal_text(MAX_PROBE_RESULT_BYTES);
                return Err(
                    AppError::Provider(
                        text::cat3(
                            "Godot evidence probe 结果超过 ",
                            limit.as_str(),
                            " 字节上限",
                        ),
                    ),
                );
            }
            Ok(())
        },
    }
}

/// Whether the engine stayed what it was during a run.
pub fn check_engine(before: &str, after: &str) -> (r: Result<(), AppError>)
    ensures
        match r {
            Ok(()) => before@ == after@,
            Err(e) => before@ != after@ && e@ == ErrorView::Provider(
                "Godot executable 在证据运行期间发生漂移"@,
            ),
        },
{
    if text::same(before, after) {
        return Ok(());
    }
    Err(AppError::Provider("Godot executable 在证据运行期间发生漂移".to_owned()))
}

// ---------------------------------------------------------------------------
// Diagnostics
// ---------------------------------------------------------------------------

/// A diagnostic without the paths of the machine, however they are written.
pub open spec fn sanitized(line: Seq<char>, project: Seq<char>, probe: Seq<char>) -> Seq<char> {
    let a = text::replaced(line, text::replaced(project, "\\"@, "/"@), "<project>"@);
    let b = text::replaced(a, text::replaced(project, "/"@, "\\"@), "<project>"@);
    let c = text::replaced(b, text::replaced(probe, "\\"@, "/"@), "<probe>"@);
    text::replaced(c, text::replaced(probe, "/"@, "\\"@), "<probe>"@)
}

/// A diagnostic without the paths of the machine.
pub fn sanitize_diagnostic(line: &str, project_root: &str, probe_root: &str) -> (r: String)
    ensures
        r@ == sanitized(line@, project_root@, probe_root@),
{
    let forward = text::replace(project_root, "\\", "/");
    let backward = text::replace(project_root, "/", "\\");
    let probe_forward = text::replace(probe_root, "\\", "/");
    let probe_backward = text::replace(probe_root, "/", "\\");
    let a = text::replace(line, forward.as_str(), "<project>");
    let b = text::replace(a.as_str(), backward.as_str(), "<project>");
    let c = text::replace(b.as_str(), probe_forward.as_str(), "<probe>");
    text::replace(c.as_str(), probe_backward.as_str(), "<probe>")
}

/// A line that reports an error.
pub open spec fn reports_error(line: Seq<char>) -> bool {
    text::occurs(line, "ERROR:"@) || text::begins(line, "SCRIPT ERROR"@)
}

/// The diagnostics among lines.
pub open spec fn diagnostics_in(
    lines: Seq<Seq<char>>,
    project: Seq<char>,
    probe: Seq<char>,
) -> Seq<Seq<char>>
    decreases lines.len(),
{
    if lines.len() == 0 {
        Seq::empty()
    } else {
        let before = diagnostics_in(lines.drop_last(), project, probe);
        let line = text::trimmed(lines.last());
        if reports_error(line) {
            before.push(sanitized(line, project, probe))
        } else {
            before
        }
    }
}

/// The diagnostics in outputs.
pub open spec fn all_diagnostics(
    outputs: Seq<Seq<char>>,
    project: Seq<char>,
    probe: Seq<char>,
) -> Seq<Seq<char>>
    decreases outputs.len(),
{
    if outputs.len() == 0 {
        Seq::empty()
    } else {
        all_diagnostics(outputs.drop_last(), project, probe) + diagnostics_in(
            text::lines_of(outputs.last()),
            project,
            probe,
        )
    }
}

fn collect_diagnostics(output: &str, project: &str, probe: &str, out: &mut Vec<String>)
    ensures
        text::views(final(out)@) == text::views(old(out)@) + diagnostics_in(
            text::lines_of(output@),
            project@,
            probe@,
        ),
{
    let chars = text::chars_of(output);
    let lines = text::split_lines(&chars);
    let ghost all = text::lines_of(output@);
    let ghost before = text::views(out@);
    let mut i: usize = 0;
    assert(all.take(0) =~= Seq::<Seq<char>>::empty());
    assert(text::views(out@) =~= before + diagnostics_in(all.take(0), project@, probe@));
    while i < lines.len()
        invariant
            i <= lines@.len(),
            all == text::char_views(lines@),
            text::views(out@) == before + diagnostics_in(all.take(i as int), project@, probe@),
        decreases lines@.len() - i,
    {
        assert(all.take(i + 1).drop_last() =~= all.take(i as int));
        assert(all[i as int] == lines@[i as int]@);
        let line = text::trim_chars(&lines[i]);
        if text::chars_contain(&line, "ERROR:") || text::chars_begin(&line, "SCRIPT ERROR") {
            let shown = text::text_of(line.as_slice());
            let ghost so_far = text::views(out@);
            let clean = sanitize_diagnostic(shown.as_str(), project, probe);
            out.push(clean);
            assert(text::views(out@) =~= so_far.push(clean@));
            assert(text::views(out@) =~= before + diagnostics_in(
                all.take(i + 1),
                project@,
                probe@,
            ));
        }
        i = i + 1;
    }
    assert(all.take(all.len() as int) =~= all);
}

/// The diagnostics in outputs, each once and in order.
pub fn diagnostics_of(outputs: &Vec<String>, project_root: &str, probe_root: &str) -> (r: Vec<
    String,
>)
    ensures
        text::views(r@) == order::sorted_set_of(
            all_diagnostics(text::views(outputs@), project_root@, probe_root@),
        ),
{
    let mut found: Vec<String> = Vec::new();
    let ghost all = text::views(outputs@);
    let mut i: usize = 0;
    assert(all.take(0) =~= Seq::<Seq<char>>::empty());
    assert(text::views(found@) =~= Seq::<Seq<char>>::empty());
    while i < outputs.len()
        invariant
            i <= outputs@.len(),
            all == text::views(outputs@),
            text::views(found@) == all_diagnostics(
                all.take(i as int),
                project_root@,
                probe_root@,
            ),
        decreases outputs@.len() - i,
    {
        collect_diagnostics(outputs[i].as_str(), project_root, probe_root, &mut found);
        assert(all.take(i + 1).drop_last() =~= all.take(i as int));
        assert(all.take(i + 1).last() == outputs@[i as int]@);
        i = i + 1;
    }
    assert(all.take(all.len() as int) =~= all);
    order::sorted_set(&found)
}

/// What processes wrote, stream by stream.
pub open spec fn outputs_of(processes: Seq<ProcessResult>) -> Seq<Seq<char>>
    decreases processes.len(),
{
    if processes.len() == 0 {
        Seq::empty()
    } else {
        outputs_of(processes.drop_last()).push(
            text::utf8_lossy(processes.last().stdout.bytes@),
        ).push(text::utf8_lossy(processes.last().stderr.bytes@))
    }
}

/// The diagnostics that processes wrote, each once and in order.
pub fn extract_diagnostics(
    processes: &Vec<ProcessResult>,
    project_root: &str,
    probe_root: &str,
) -> (r: Vec<String>)
    ensures
        text::views(r@) == order::sorted_set_of(
            all_diagnostics(outputs_of(processes@), project_root@, probe_root@),
        ),
{
    let mut outputs: Vec<String> = Vec::new();
    let mut i: usize = 0;
    assert(processes@.take(0) =~= Seq::<ProcessResult>::empty());
    assert(text::views(outputs@) =~= Seq::<Seq<char>>::empty());
    while i < processes.len()
        invariant
            i <= processes@.len(),
            text::views(outputs@) == outputs_of(processes@.take(i as int)),
        decreases processes@.len() - i,
    {
        let ghost before = text::views(outputs@);
        assert(processes@.take(i + 1).drop_last() =~= processes@.take(i as int));
        let a = text::lossy_text(processes[i].stdout.bytes.as_slice());
        let b = text::lossy_text(processes[i].stderr.bytes.as_slice());
        outputs.push(a);
        outputs.push(b);
        assert(text::views(outputs@) =~= before.push(a@).push(b@));
        i = i + 1;
    }
    assert(processes@.take(processes@.len() as int) =~= processes@);
    diagnostics_of(&outputs, project_root, probe_root)
}

/// The variables that keep the engine out of the user's own directories, each
/// with the directory below the probe directory that it names.
pub fn probe_environment() -> (r: Vec<(&'static str, &'static str)>)
    ensures
        r@.map_values(|p: (&'static str, &'static str)| (p.0@, p.1@)) == seq![
            ("HOME"@, "user/home"@),
            ("APPDATA"@, "user/appdata"@),
            ("LOCALAPPDATA"@, "user/localappdata"@),
            ("XDG_DATA_HOME"@, "user/xdg-data"@),
            ("XDG_CONFIG_HOME"@, "user/xdg-config"@),
            ("XDG_CACHE_HOME"@, "user/xdg-cache"@),
        ],
{
    let out: Vec<(&'static str, &'static str)> = vec![
        ("HOME", "user/home"),
        ("APPDATA", "user/appdata"),
        ("LOCALAPPDATA", "user/localappdata"),
        ("XDG_DATA_HOME", "user/xdg-data"),
        ("XDG_CONFIG_HOME", "user/xdg-config"),
        ("XDG_CACHE_HOME", "user/xdg-cache"),
    ];
    assert(out@.map_values(|p: (&'static str, &'static str)| (p.0@, p.1@)) =~= seq![
        ("HOME"@, "user/home"@),
        ("APPDATA"@, "user/appdata"@),
        ("LOCALAPPDATA"@, "user/localappdata"@),
        ("XDG_DATA_HOME"@, "user/xdg-data"@),
        ("XDG_CONFIG_HOME"@, "user/xdg-config"@),
        ("XDG_CACHE_HOME"@, "user/xdg-cache"@),
    ]);
    out
}

/// Why a process is not one that tells the version of an engine that is taken.
pub open spec fn version_probe_refusal(process: ProcessResult) -> Option<ErrorView> {
    match stage_refusal("Godot version probe"@, process) {
        Some(e) => Some(e),
        None => match provider_run::version_refusal(provider_run::version_line(process)) {
            Some(e) => Some(e),
            None => version_refusal(
                text::shortened(provider_run::version_line(process), 512),
            ),
        },
    }
}

/// The version of an engine that is taken, from what it said of it.
pub fn judge_version(process: &ProcessResult) -> (r: Result<String, AppError>)
    ensures
        error::follows(r, version_probe_refusal(*process)),
        r is Ok ==> r->Ok_0@ == text::shortened(provider_run::version_line(*process), 512),
{
    match require_complete_success("Godot version probe", process) {
        Err(e) => {
            return Err(e);
        },
        Ok(()) => {},
    }
    match provider_run::version_text(process) {
        Err(e) => Err(e),
        Ok(version) => match check_version(version.as_str()) {
            Err(e) => Err(e),
            Ok(()) => Ok(version),
        },
    }
}

/// Why a process is not one of an engine that can do what is asked of it.
pub open spec fn help_probe_refusal(process: ProcessResult) -> Option<ErrorView> {
    match stage_refusal("Godot capability probe"@, process) {
        Some(e) => Some(e),
        None => help_refusal(
            text::utf8_lossy(process.stdout.bytes@) + text::utf8_lossy(process.stderr.bytes@),
        ),
    }
}

/// Whether an engine can do what is asked of it, from its help.
pub fn judge_help(process: &ProcessResult) -> (r: Result<(), AppError>)
    ensures
        error::follows(r, help_probe_refusal(*process)),
{
    match require_complete_success("Godot capability probe", process) {
        Err(e) => {
            return Err(e);
        },
        Ok(()) => {},
    }
    let help = help_text(process);
    check_capabilities(help.as_str())
}

/// The identity under which an engine is named in evidence.
pub fn engine_identity(version: &str, sha256: &str) -> (r: String)
    ensures
        r@ == version@ + "+sha256."@ + sha256@,
{
    text::cat3(version, "+sha256.", sha256)
}

/// How often a directory for a probe is tried to be made.
pub const PROBE_ATTEMPTS: u16 = 100;

/// The name of a directory for a probe, at one of the attempts to make it.
pub fn probe_directory_name(process_id: u32, timestamp: &str, attempt: u16) -> (r: Result<
    String,
    AppError,
>)
    ensures
        match r {
            Ok(name) => attempt < PROBE_ATTEMPTS && name@ == "project-brain-godot-probe-"@
                + text::decimal(process_id as nat) + "-"@ + timestamp@ + "-"@ + text::decimal(
                attempt as nat,
            ),
            Err(e) => attempt >= PROBE_ATTEMPTS && e@ == ErrorView::Provider(
                "无法创建唯一 Godot probe 临时目录"@,
            ),
        },
{
    if attempt >= PROBE_ATTEMPTS {
        return Err(AppError::Provider("无法创建唯一 Godot probe 临时目录".to_owned()));
    }
    let process = text::decimal_text(process_id as u64);
    let count = text::decimal_text(attempt as u64);
    let mut name = text::cat4("project-brain-godot-probe-", process.as_str(), "-", timestamp);
    name.append("-");
    name.append(count.as_str());
    Ok(name)
}

/// What is reported of a run, but for the evidence itself.
#[derive(Debug, Clone, PartialEq, Eq)]
pub struct GodotRunSummary {
    pub schema_version: u32,
    pub project_key: String,
    pub engine_version: String,
    pub executable_sha256: String,
    pub import: GodotProcessSummary,
    pub probe: GodotProcessSummary,
}

/// A summary tells a process.
pub open spec fn tells(s: GodotProcessSummary, process: ProcessResult) -> bool {
    &&& s.duration_ms == process.duration_ms
    &&& s.exit_code == process.status.code
    &&& s.stdout_bytes == process.stdout.total_bytes
    &&& s.stderr_bytes == process.stderr.total_bytes
    &&& s.stdout_sha256 == process.stdout.sha256
    &&& s.stderr_sha256 == process.stderr.sha256
}

/// Why a run brings no evidence, after its two processes ended.
pub open spec fn processes_refusal(
    import: ProcessResult,
    probe: ProcessResult,
    result: ResultFacts,
    before: Seq<char>,
    after: Seq<char>,
) -> Option<ErrorView> {
    match stage_refusal("Godot import"@, import) {
        Some(e) => Some(e),
        None => match stage_refusal("Godot evidence probe"@, probe) {
            Some(e) => Some(e),
            None => match result_refusal(result) {
                Some(e) => Some(e),
                None => if before == after {
                    None
                } else {
                    Some(ErrorView::Provider("Godot executable 在证据运行期间发生漂移"@))
                },
            },
        },
    }
}

/// What is reported of a run whose two processes ended, with the diagnostics
/// that they wrote.
pub fn finish_run(
    project_key: &str,
    engine_version: &str,
    executable_sha256: &str,
    sha256_after: &str,
    import: ProcessResult,
    probe: ProcessResult,
    result: &ResultFacts,
    project_root: &str,
    probe_root: &str,
) -> (r: Result<(GodotRunSummary, Vec<String>), AppError>)
    ensures
        error::follows(
            r,
            processes_refusal(import, probe, *result, executable_sha256@, sha256_after@),
        ),
        r matches Ok((s, diagnostics)) ==> {
            &&& s.schema_version == GODOT_RUN_SCHEMA_VERSION
            &&& s.project_key@ == project_key@
            &&& s.engine_version@ == engine_version@
            &&& s.executable_sha256@ == executable_sha256@
            &&& tells(s.import, import)
            &&& tells(s.probe, probe)
            &&& text::views(diagnostics@) == order::sorted_set_of(
                all_diagnostics(outputs_of(seq![import, probe]), project_root@, probe_root@),
            )
        },
{
    match require_complete_success("Godot import", &import) {
        Err(e) => {
            return Err(e);
        },
        Ok(()) => {},
    }
    match require_complete_success("Godot evidence probe", &probe) {
        Err(e) => {
            return Err(e);
        },
        Ok(()) => {},
    }
    match check_result(result) {
        Err(e) => {
            return Err(e);
        },
        Ok(()) => {},
    }
    match check_engine(executable_sha256, sha256_after) {
        Err(e) => {
            return Err(e);
        },
        Ok(()) => {},
    }
    let summary = GodotRunSummary {
        schema_version: GODOT_RUN_SCHEMA_VERSION,
        project_key: project_key.to_owned(),
        engine_version: engine_version.to_owned(),
        executable_sha256: executable_sha256.to_owned(),
        import: process_summary(&import),
        probe: process_summary(&probe),
    };
    let mut processes: Vec<ProcessResult> = Vec::new();
    processes.push(import);
    processes.push(probe);
    assert(processes@ =~= seq![import, probe]);
    let diagnostics = extract_diagnostics(&processes, project_root, probe_root);
    Ok((summary, diagnostics))
}

/// The engine runs with trust only and where there is a project; a stage counts
/// exactly where it ended with code zero and was read whole, and its evidence
/// exactly where both stages do, the result is a regular file within the limit
/// and the executable is what it was.
pub proof fn only_whole_engine_runs_count(
    trusted: bool,
    has_project: bool,
    root: Seq<char>,
    import: ProcessResult,
    probe: ProcessResult,
    result: ResultFacts,
    before: Seq<char>,
    after: Seq<char>,
)
    ensures
        run_refusal(trusted, has_project, root) is None <==> trusted && has_project,
        processes_refusal(import, probe, result, before, after) is None <==> {
            &&& import.status.code == Some(0i32) && probe.status.code == Some(0i32)
            &&& !import.stdout.truncated && !import.stderr.truncated
            &&& !probe.stdout.truncated && !probe.stderr.truncated
            &&& result.regular == Ok::<bool, String>(true) && result.len <= 67108864
            &&& before == after
        },
{
}

/// An engine is taken for a compatible editor exactly where its help names the
/// engine and all that is needed of it.
pub proof fn editors_name_what_is_needed(help: Seq<char>)
    ensures
        help_refusal(help) is None <==> text::occurs(help, "Godot Engine"@) && text::occurs(
            help,
            "--headless"@,
        ) && text::occurs(help, "--script"@) && text::occurs(help, "--import"@),
{
    reveal_with_fuel(missing_capability, 5);
    let c = capabilities();
    assert(c[0] == "Godot Engine"@ && c[1] == "--headless"@ && c[2] == "--script"@ && c[3]
        == "--import"@);
}

/// Only versions of the fourth line are taken.
pub proof fn only_version_four_is_taken(version: Seq<char>)
    ensures
        version_refusal(version) is None <==> version == seq!['4'] || (version.len() >= 2
            && version[0] == '4' && version[1] == '.'),
{
    reveal_strlit("4");
    let four = "4"@;
    assert(four =~= seq!['4']);
    assert(!four.contains('.')) by {
        if four.contains('.') {
            let k = choose|k: int| 0 <= k < four.len() && four[k] == '.';
            assert(four[0] == '4');
        }
    }
    if version.contains('.') {
        let i = first_point(version);
        let front = version.take(i);
        let rest = version.skip(i + 1);
        assert(!front.contains('.')) by {
            if front.contains('.') {
                let k = choose|k: int| 0 <= k < front.len() && front[k] == '.';
                assert(version[k] == '.');
            }
        }
        text::the_first_piece_ends_at_the_first_separator(front, rest, '.');
        assert(front + seq!['.'] + rest =~= version);
        if front == four {
            assert(front.len() == 1 && i == 1);
            assert(front[0] == '4');
        }
        if version.len() >= 2 && version[0] == '4' && version[1] == '.' {
            assert(i == 1);
            assert(front =~= four);
        }
        if version == seq!['4'] {
            assert(version =~= four);
        }
    } else {
        text::the_first_piece_ends_at_the_first_separator(version, Seq::empty(), '.');
        if version.len() >= 2 {
            assert(version[1] != '.');
        }
    }
}

proof fn first_point(version: Seq<char>) -> (i: int)
    requires
        version.contains('.'),
    ensures
        0 <= i < version.len(),
        version[i] == '.',
        forall|k: int| 0 <= k < i ==> version[k] != '.',
    decreases version.len(),
{
    let init = version.drop_last();
    if init.contains('.') {
        let i = first_point(init);
        assert forall|k: int| 0 <= k < i implies version[k] != '.' by {
            assert(init[k] != '.');
        }
        i
    } else {
        assert forall|k: int| 0 <= k < version.len() - 1 implies version[k] != '.' by {
            assert(init[k] == version[k]);
        }
        let k = choose|k: int| 0 <= k < version.len() && version[k] == '.';
        assert(k == version.len() - 1);
        version.len() - 1
    }
}

/// All lines that report an error are told, in their order.
pub proof fn all_reported_errors_are_told(
    lines: Seq<Seq<char>>,
    project: Seq<char>,
    probe: Seq<char>,
)
    ensures
        diagnostics_in(lines, project, probe) == lines.filter(
            |l: Seq<char>|
                text::occurs(text::trimmed(l), "ERROR:"@) || text::begins(
                    text::trimmed(l),
                    "SCRIPT ERROR"@,
                ),
        ).map_values(|l: Seq<char>| sanitized(text::trimmed(l), project, probe)),
    decreases lines.len(),
{
    reveal(Seq::filter);
    let kept = |l: Seq<char>|
        text::occurs(text::trimmed(l), "ERROR:"@) || text::begins(
            text::trimmed(l),
            "SCRIPT ERROR"@,
        );
    let told = |l: Seq<char>| sanitized(text::trimmed(l), project, probe);
    if lines.len() > 0 {
        let init = lines.drop_last();
        all_reported_errors_are_told(init, project, probe);
        if kept(lines.last()) {
            assert(lines.filter(kept) =~= init.filter(kept).push(lines.last()));
            assert(lines.filter(kept).map_values(told) =~= init.filter(kept).map_values(told).push(
                told(lines.last()),
            ));
        } else {
            assert(lines.filter(kept) =~= init.filter(kept));
        }
    } else {
        assert(diagnostics_in(lines, project, probe) =~= lines.filter(kept).map_values(told));
    }
}

/// What is told of several outputs is what is told of each, one behind the
/// other; and each process gives two, what it wrote and what it complained of.
pub proof fn all_outputs_are_read(
    a: Seq<Seq<char>>,
    b: Seq<Seq<char>>,
    output: Seq<char>,
    project: Seq<char>,
    probe: Seq<char>,
)
    ensures
        all_diagnostics(a + b, project, probe) == all_diagnostics(a, project, probe)
            + all_diagnostics(b, project, probe),
        all_diagnostics(seq![output], project, probe) == diagnostics_in(
            text::lines_of(output),
            project,
            probe,
        ),
    decreases b.len(),
{
    let one = seq![output];
    assert(one.drop_last() =~= Seq::empty());
    assert(all_diagnostics(one.drop_last(), project, probe) =~= Seq::empty());
    assert(all_diagnostics(one, project, probe) =~= diagnostics_in(
        text::lines_of(output),
        project,
        probe,
    ));
    if b.len() == 0 {
        assert(a + b =~= a);
        assert(all_diagnostics(a + b, project, probe) =~= all_diagnostics(a, project, probe)
            + all_diagnostics(b, project, probe));
    } else {
        assert((a + b).drop_last() =~= a + b.drop_last());
        all_outputs_are_read(a, b.drop_last(), output, project, probe);
        assert(all_diagnostics(a + b, project, probe) =~= all_diagnostics(a, project, probe)
            + all_diagnostics(b, project, probe));
    }
}

/// Each process gives two outputs: what it wrote and what it complained of.
pub proof fn processes_give_both_streams(processes: Seq<ProcessResult>)
    ensures
        outputs_of(processes).len() == 2 * processes.len(),
        forall|i: int|
            0 <= i < processes.len() ==> outputs_of(processes)[2 * i] == text::utf8_lossy(
                (#[trigger] processes[i]).stdout.bytes@,
            ) && outputs_of(processes)[2 * i + 1] == text::utf8_lossy(processes[i].stderr.bytes@),
    decreases processes.len(),
{
    if processes.len() > 0 {
        let init = processes.drop_last();
        processes_give_both_streams(init);
        assert forall|i: int| 0 <= i < processes.len() implies outputs_of(processes)[2 * i]
            == text::utf8_lossy((#[trigger] processes[i]).stdout.bytes@) && outputs_of(
            processes,
        )[2 * i + 1] == text::utf8_lossy(processes[i].stderr.bytes@) by {
            if i < init.len() {
                assert(init[i] == processes[i]);
            }
        }
    }
}

} // verus!
