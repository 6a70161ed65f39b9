//! Semantic providers: binding them, running them and storing what they found.
use project_brain::digest;
use project_brain::error::AppError;
use project_brain::execution::{self, CapturedOutput, ExitStatus, ProcessResult};
use project_brain::provider::{
    self, ArtifactFacts, BindingFacts, EntryKind, EntryStep, FileFacts, PackageDescription,
    PackageFile, PackageStock, ProviderArtifact, ProviderBinding, ProviderRegistry, SemanticProviderProfile,
    PROVIDER_SCHEMA_VERSION,
};
use project_brain::provider_bind::{BindPhase, BindReply, BindRun, ProgramFacts};
use project_brain::provider_flow::{
    IndexPhase, IndexReply, IndexRun, Workspace, WrittenIndex,
};
use project_brain::provider_import::{ExecutedRun, ImportPhase, ImportReply, ImportRun};
use project_brain::provider_run::{self, OutputFacts, PathEntry};
use project_brain::stability::{
    self, Observation, ProviderQualification, RunBinding, StabilityRun,
};
use project_brain::stability_run::{VerifyPhase, VerifyReply, VerifyRun};
use project_brain::symbols::{self, ProviderTrustStatus};

fn profile(producer: &str) -> SemanticProviderProfile {
    SemanticProviderProfile { id: "main".to_owned(), producer: producer.to_owned() }
}

fn artifact(path: &str, sha256: &str) -> ProviderArtifact {
    ProviderArtifact { canonical_path: path.to_owned(), sha256: sha256.to_owned() }
}

fn output(bytes: &[u8]) -> CapturedOutput {
    CapturedOutput {
        bytes: bytes.to_vec(),
        total_bytes: bytes.len(),
        sha256: "hash".to_owned(),
        truncated: false,
    }
}

fn process(code: i32, stdout: &str) -> ProcessResult {
    ProcessResult {
        status: ExitStatus { code: Some(code) },
        timed_out: false,
        duration_ms: 12,
        stdout: output(stdout.as_bytes()),
        stderr: output(b""),
    }
}

fn binding() -> ProviderBinding {
    let executable = artifact("/tools/rust-analyzer", "one");
    let registration_id = provider::registration_id(
        "project",
        "main",
        "rust-analyzer",
        &executable,
        &None,
        &None,
    );
    ProviderBinding {
        registration_id,
        revision: 1,
        project_key: "project".to_owned(),
        profile_id: "main".to_owned(),
        producer: "rust-analyzer".to_owned(),
        executable,
        launcher_script: None,
        launcher_package_manifest_sha256: None,
        resolved_version: "1".to_owned(),
    }
}

fn facts(sha256: &str) -> BindingFacts {
    let of = |sha256: &str| ArtifactFacts {
        present: true,
        sha256: Ok(sha256.to_owned()),
        inside_repository: false,
    };
    BindingFacts {
        executable: of(sha256),
        script: of("script"),
        package: Ok("package".to_owned()),
    }
}

fn said(error: AppError) -> String {
    error.message()
}

#[test]
fn provider_argv_is_fixed_by_known_producer() {
    let root = "repo with spaces";
    let output = "run/index.scip";
    assert_eq!(
        provider::provider_arguments("rust-analyzer", root, "p", output).unwrap(),
        ["scip", "repo with spaces", "--output", "run/index.scip"]
    );
    assert_eq!(
        provider::provider_arguments("scip-dotnet", root, "p", output).unwrap(),
        [
            "index",
            "--working-directory",
            "repo with spaces",
            "--skip-dotnet-restore",
            "--output",
            "run/index.scip"
        ]
    );
    assert_eq!(
        provider::provider_arguments("scip-python", root, "project-key", output).unwrap(),
        [
            "index",
            "--cwd",
            "repo with spaces",
            "--project-name",
            "project-key",
            "--output",
            "run/index.scip"
        ]
    );
    assert!(provider::provider_arguments("custom", root, "p", output).is_err());
}

#[test]
fn provider_cli_paths_remove_windows_verbatim_prefixes() {
    assert_eq!(
        execution::provider_cli_path(r"\\?\C:\repo with spaces\index.scip"),
        r"C:\repo with spaces\index.scip"
    );
    assert_eq!(
        execution::provider_cli_path(r"\\?\UNC\server\share\index.scip"),
        r"\\server\share\index.scip"
    );
    assert_eq!(
        execution::provider_cli_path("repo with spaces/index.scip"),
        "repo with spaces/index.scip"
    );
}

#[test]
fn command_script_shims_are_rejected_on_every_host_platform() {
    assert!(provider::reject_command_script("cmd").is_err());
    assert!(provider::reject_command_script("BAT").is_err());
    assert!(provider::reject_command_script("exe").is_ok());
    assert!(provider::reject_command_script("").is_ok());
}

#[test]
fn executable_drift_is_rejected() {
    let bound = binding();
    let profile = profile("rust-analyzer");
    assert!(provider::validate_binding(&bound, &profile, &facts("one")).is_ok());
    assert!(provider::validate_binding(&bound, &profile, &facts("two")).is_err());
}

#[test]
fn hook_trust_status_requires_current_registration_and_executable_hash() {
    let bound = binding();
    let registry = || ProviderRegistry {
        schema_version: PROVIDER_SCHEMA_VERSION,
        bindings: vec![binding()],
    };
    let profiles = vec![profile("rust-analyzer")];
    let ready = provider::trust_status(
        "project",
        &profiles,
        &Ok(registry()),
        &Ok(()),
        &vec![facts("one")],
    );
    assert_eq!(ready[0].profile_id, "main");
    assert!(ready[0].ready);
    assert_eq!(ready[0].registration_id.as_deref(), Some(bound.registration_id.as_str()));

    let drifted = provider::trust_status(
        "project",
        &profiles,
        &Ok(registry()),
        &Ok(()),
        &vec![facts("two")],
    );
    assert!(!drifted[0].ready);
    assert!(drifted[0].issue.as_deref().unwrap().contains("漂移"));

    let unread = provider::trust_status(
        "project",
        &profiles,
        &Err("unreadable".to_owned()),
        &Ok(()),
        &vec![facts("one")],
    );
    assert!(!unread[0].ready);
}

const PACKAGE: &[u8] =
    br#"{"name":"@sourcegraph/scip-python","bin":{"scip-python":"index.js"}}"#;

#[test]
fn scip_python_package_manifest_covers_transitive_bundle_files() {
    let script = artifact("/package/index.js", "i");
    let entry = provider::package_entry(PACKAGE).unwrap();
    assert!(provider::check_bin_entry(&Ok(format!("/package/{entry}")), &script).is_ok());
    let file = |relative: &str, bytes: &[u8]| PackageFile {
        relative: relative.to_owned(),
        size: bytes.len() as u64,
        sha256: digest::hash_bytes(bytes),
    };
    let stock = |bundle: &[u8]| {
        provider::scip_python_package_manifest(vec![
            file("package.json", PACKAGE),
            file("index.js", b"require('./dist/scip-python')"),
            file("dist/scip-python.js", bundle),
        ])
    };
    assert_ne!(stock(b"one"), stock(b"two"));
    let shuffled = provider::scip_python_package_manifest(vec![
        file("dist/scip-python.js", b"one"),
        file("package.json", PACKAGE),
        file("index.js", b"require('./dist/scip-python')"),
    ]);
    assert_eq!(stock(b"one"), shuffled);
}

#[test]
fn package_manifests_follow_every_file_and_no_order() {
    let file = |relative: &str, bytes: &[u8]| PackageFile {
        relative: relative.to_owned(),
        size: bytes.len() as u64,
        sha256: digest::hash_bytes(bytes),
    };
    let manifest = provider::scip_python_package_manifest;
    let twice = vec![file("b.js", b"b"), file("a.js", b"a"), file("b.js", b"b")];
    let other = vec![file("a.js", b"a"), file("b.js", b"b"), file("b.js", b"b")];
    assert_eq!(manifest(twice.clone()), manifest(other));
    for place in 0..twice.len() {
        let mut changed = twice.clone();
        changed[place] = file(&twice[place].relative, b"c");
        assert_ne!(manifest(changed), manifest(twice.clone()));
    }
    let mut resized = twice.clone();
    resized[1].size = 2;
    assert_ne!(manifest(resized), manifest(twice.clone()));
    assert_ne!(
        manifest(vec![file("a.js", b"x"), file("a.js", b"y")]),
        manifest(vec![file("a.js", b"y"), file("a.js", b"x")])
    );
    assert_eq!(
        manifest(Vec::new()),
        digest::hash_bytes(b"project-brain/scip-python-package/v1\0")
    );
}

#[test]
fn packages_name_their_program() {
    assert_eq!(provider::package_entry(PACKAGE).unwrap(), "index.js");
    let plain = br#"{"name":"@sourcegraph/scip-python","bin":"main.js"}"#;
    assert_eq!(provider::package_entry(plain).unwrap(), "main.js");
    assert!(matches!(
        provider::package_entry(b"{"),
        Err(AppError::Json(complaint)) if complaint.contains("EOF")
    ));
    assert!(said(provider::package_entry(b"[]").unwrap_err()).contains("name 不匹配"));
    let other = br#"{"name":"other","bin":"main.js"}"#;
    assert!(said(provider::package_entry(other).unwrap_err()).contains("name 不匹配"));
    let nameless = br#"{"name":"@sourcegraph/scip-python","bin":{"other":"main.js"}}"#;
    assert!(said(provider::package_entry(nameless).unwrap_err()).contains("bin 入口"));

    let described = |bin: Option<&str>, command: Option<&str>| PackageDescription {
        complaint: None,
        name: Some("@sourcegraph/scip-python".to_owned()),
        bin: bin.map(ToOwned::to_owned),
        command: command.map(ToOwned::to_owned),
    };
    let entry = |description| provider::described_entry(description).unwrap();
    assert_eq!(entry(described(Some("a.js"), Some("b.js"))), "a.js");
    assert_eq!(entry(described(None, Some("b.js"))), "b.js");
    assert!(provider::described_entry(described(None, None)).is_err());

    let script = artifact("/package/index.js", "i");
    assert!(provider::check_bin_entry(&Ok("/package/index.js".to_owned()), &script).is_ok());
    assert!(provider::check_bin_entry(&Ok("/package/other.js".to_owned()), &script).is_err());
    assert!(provider::check_bin_entry(&Err("gone".to_owned()), &script).is_err());
}

#[test]
fn packages_are_bounded_and_hold_no_links() {
    let mut stock = PackageStock::new();
    assert_eq!(stock.take_in(EntryKind::Directory, "dist", 0).unwrap(), EntryStep::Descend);
    assert_eq!(stock.take_in(EntryKind::File, "index.js", 10).unwrap(), EntryStep::Record);
    assert!(stock.take_in(EntryKind::Link, "link", 0).is_err());
    assert!(stock.take_in(EntryKind::File, "large", u64::MAX).is_err());
}

#[test]
fn repository_executables_and_relative_paths_are_rejected() {
    let found = artifact("/repo/provider.bin", "hash");
    assert!(provider::reject_repository_artifact(true, &found, "test").is_err());
    assert!(provider::reject_repository_artifact(false, &found, "test").is_ok());
    let relative = FileFacts {
        shown: "relative-provider".to_owned(),
        absolute: false,
        canonical: Ok("/repo/relative-provider".to_owned()),
        regular: true,
    };
    assert!(provider::pinned_artifact(&relative, "hash", "test").is_err());
}

#[test]
fn captured_output_is_bounded_but_hashes_the_full_stream() {
    let input = vec![b'x'; execution::MAX_CAPTURE_BYTES + 17];
    let captured = execution::drain_bounded(&input);
    assert_eq!(captured.bytes.len(), execution::MAX_CAPTURE_BYTES);
    assert_eq!(captured.total_bytes, execution::MAX_CAPTURE_BYTES + 17);
    assert!(captured.truncated);
    assert_eq!(
        captured.sha256,
        "baf900d02555b923124540fd1a01ef1b3f033da00244ce97a188d7108d4fa6d3"
    );
}

#[test]
fn version_probe_must_identify_the_configured_family() {
    let artifact = artifact("/tools/not-the-provider", "hash");
    assert!(
        provider_run::verify_probe_identity("rust-analyzer", &artifact, &None, "rust-analyzer 1.92")
            .is_ok()
    );
    assert!(provider_run::verify_probe_identity("scip-dotnet", &artifact, &None, "1.0").is_err());
}

#[test]
fn registrations_depend_on_every_part() {
    let exe = artifact("/tools/a", "one");
    let name = |key: &str, profile: &str, producer: &str| {
        provider::registration_id(key, profile, producer, &exe, &None, &None)
    };
    let first = name("project", "main", "rust-analyzer");
    assert_ne!(first, name("other", "main", "rust-analyzer"));
    assert_ne!(first, name("project", "other", "rust-analyzer"));
    assert_ne!(first, name("project", "main", "scip-python"));
    assert_eq!(first, name("project", "main", "rust-analyzer"));
}

#[test]
fn versions_are_one_line_of_the_stream_that_says_something() {
    assert_eq!(
        provider_run::version_text(&process(0, "rust-analyzer\n   1.92  ")).unwrap(),
        "rust-analyzer 1.92"
    );
    let mut quiet = process(0, " \n");
    quiet.stderr = output(b"from stderr");
    assert_eq!(provider_run::version_text(&quiet).unwrap(), "from stderr");
    assert!(provider_run::version_text(&process(0, "")).is_err());
    let broken = ProcessResult { stdout: output(b"v\xff1"), ..process(0, "") };
    assert_eq!(provider_run::version_text(&broken).unwrap(), "v\u{fffd}1");
}

#[test]
fn a_log_that_is_cut_begins_with_a_whole_line() {
    assert!(!provider_run::log_is_full(4_194_304));
    assert!(provider_run::log_is_full(4_194_305));
    let mut log = vec![b'a'; 3_000_000];
    log[2_000_000] = b'\n';
    let kept = provider_run::retained_log(&log, &b"line\n".to_vec());
    assert_eq!(kept.len(), 3_000_000 - 2_000_001 + 5);
    assert!(kept.ends_with(b"aline\n"));
}

#[test]
fn search_paths_leave_the_repository_out() {
    let entry = |written: &str, inside_repository: bool| PathEntry {
        written: written.to_owned(),
        inside_repository,
    };
    let kept =
        provider_run::sanitized_path(&vec![entry("/usr/bin", false), entry("/repo/bin", true)]);
    assert_eq!(kept, ["/usr/bin"]);
}

// ---------------------------------------------------------------------------
// Binding
// ---------------------------------------------------------------------------

fn program(path: &str, inside_repository: bool, extension: &str) -> ProgramFacts {
    ProgramFacts {
        file: FileFacts {
            shown: path.to_owned(),
            absolute: true,
            canonical: Ok(path.to_owned()),
            regular: true,
        },
        sha256: "one".to_owned(),
        inside_repository,
        extension: extension.to_owned(),
    }
}

fn bind(replace: bool) -> BindRun {
    let profiles = vec![profile("rust-analyzer")];
    BindRun::new("project", &profiles, "main", false, replace, true).unwrap()
}

fn registry(bindings: Vec<ProviderBinding>) -> BindReply {
    BindReply::Registry(Ok(ProviderRegistry {
        schema_version: PROVIDER_SCHEMA_VERSION,
        bindings,
    }))
}

fn probed(replace: bool, answer: &str) -> BindRun {
    let run = bind(replace);
    let run = run.step(BindReply::File(Ok(program("/tools/rust-analyzer", false, ""))));
    assert!(matches!(run.phase, BindPhase::Probe(_)));
    run.step(BindReply::Probed(Ok(process(0, answer))))
}

#[test]
fn a_program_is_bound_once_it_says_what_it_is() {
    let run = probed(false, "rust-analyzer 1.92");
    let record = run.record(5).unwrap();
    assert_eq!(record.stage, "version_probe");
    assert_eq!(record.outcome, "success");
    assert_eq!(record.timestamp_unix_ms, 5);
    let run = run.step(BindReply::Written(Ok(())));
    let run = run.step(registry(Vec::new()));
    let BindPhase::WriteRegistry(written, _) = &run.phase else { panic!("{:?}", run.phase) };
    assert_eq!(written.bindings.len(), 1);
    assert_eq!(written.bindings[0].resolved_version, "rust-analyzer 1.92");
    let bindings = written.bindings.clone();
    let run = run.step(BindReply::Written(Ok(())));
    let BindPhase::Done(report) = run.phase else { panic!("{:?}", run.phase) };
    assert!(report.changed);
    assert_eq!(report.revision, 1);

    // Binding the same program again changes nothing.
    let again = probed(false, "rust-analyzer 1.92").step(BindReply::Written(Ok(())));
    let BindPhase::Done(report) = again.step(registry(bindings)).phase else {
        panic!("expected a report")
    };
    assert!(!report.changed);
}

#[test]
fn another_program_needs_to_be_asked_for() {
    let mut other = binding();
    other.executable = artifact("/tools/old", "old");
    let run = probed(false, "rust-analyzer 1.92").step(BindReply::Written(Ok(())));
    let BindPhase::Failed(error) = run.step(registry(vec![other.clone()])).phase else {
        panic!("expected a refusal")
    };
    assert!(said(error).contains("--replace"));

    let run = probed(true, "rust-analyzer 1.92").step(BindReply::Written(Ok(())));
    let BindPhase::WriteRegistry(written, report) = run.step(registry(vec![other])).phase else {
        panic!("expected a registry")
    };
    assert_eq!(report.revision, 2);
    assert_eq!(written.bindings.len(), 1);
    assert_eq!(written.bindings[0].executable.canonical_path, "/tools/rust-analyzer");
}

#[test]
fn strange_programs_are_not_bound() {
    let inside = bind(false).step(BindReply::File(Ok(program("/repo/tool", true, ""))));
    assert!(matches!(inside.phase, BindPhase::Failed(_)));
    let script = bind(false).step(BindReply::File(Ok(program("/tools/tool.cmd", false, "cmd"))));
    assert!(matches!(script.phase, BindPhase::Failed(_)));

    let run = bind(false).step(BindReply::File(Ok(program("/tools/other", false, ""))));
    let run = run.step(BindReply::Probed(Ok(process(0, "something else 1.0"))));
    assert_eq!(run.record(1).unwrap().failure_kind.as_deref(), Some("identity_mismatch"));
    assert!(matches!(run.step(BindReply::Written(Ok(()))).phase, BindPhase::Failed(_)));

    let run = probed(false, "ignored");
    assert!(matches!(run.phase, BindPhase::RecordProbe(..)));
    let failed = bind(false)
        .step(BindReply::File(Ok(program("/tools/rust-analyzer", false, ""))))
        .step(BindReply::Probed(Ok(process(3, ""))));
    assert_eq!(failed.record(1).unwrap().failure_kind.as_deref(), Some("non_zero_exit"));
    assert_eq!(failed.record(1).unwrap().exit_code, Some(3));

    let untrusted = BindRun::new(
        "project",
        &vec![profile("rust-analyzer")],
        "main",
        false,
        false,
        false,
    );
    assert!(said(untrusted.unwrap_err()).contains("--trust-local-executable"));
}

#[test]
fn scripts_are_only_for_python() {
    let profiles = vec![profile("scip-python")];
    let run = BindRun::new("project", &profiles, "main", true, false, true).unwrap();
    let run = run.step(BindReply::File(Ok(program("/tools/node", false, ""))));
    let run = run.step(BindReply::File(Ok(program("/tools/scip-python/index.js", false, "js"))));
    assert!(matches!(run.phase, BindPhase::TakeStock(..)));
    let run = run.step(BindReply::Stock(Ok("manifest".to_owned())));
    let BindPhase::Probe(bound) = &run.phase else { panic!("{:?}", run.phase) };
    assert_eq!(bound.manifest.as_deref(), Some("manifest"));

    let profiles = vec![profile("rust-analyzer")];
    let run = BindRun::new("project", &profiles, "main", true, false, true).unwrap();
    let run = run.step(BindReply::File(Ok(program("/tools/node", false, ""))));
    let run = run.step(BindReply::File(Ok(program("/tools/index.js", false, "js"))));
    assert!(matches!(run.phase, BindPhase::Failed(_)));
}

#[test]
fn unbinding_leaves_other_profiles() {
    let mut other = binding();
    other.profile_id = "second".to_owned();
    let registry = ProviderRegistry {
        schema_version: PROVIDER_SCHEMA_VERSION,
        bindings: vec![binding(), other],
    };
    let (left, report) = provider::unbind(registry, "project", "main");
    assert!(report.changed);
    assert_eq!(left.bindings.len(), 1);
    assert_eq!(left.bindings[0].profile_id, "second");
    let (_, report) = provider::unbind(left, "project", "main");
    assert!(!report.changed);
}

#[test]
fn registries_that_repeat_themselves_are_refused() {
    let registry = |bindings: Vec<ProviderBinding>, schema_version: u32| ProviderRegistry {
        schema_version,
        bindings,
    };
    assert!(provider::check_registry(&registry(vec![binding()], 1)).is_ok());
    assert!(provider::check_registry(&registry(vec![binding(), binding()], 1)).is_err());
    assert!(provider::check_registry(&registry(Vec::new(), 2)).is_err());
}

// ---------------------------------------------------------------------------
// Indexing
// ---------------------------------------------------------------------------

fn started() -> IndexRun {
    let profiles = vec![profile("rust-analyzer")];
    let run = IndexRun::new("project", &profiles, "main").unwrap();
    let run = run.step(IndexReply::Registry(Ok(ProviderRegistry {
        schema_version: PROVIDER_SCHEMA_VERSION,
        bindings: vec![binding()],
    })));
    let run = run.step(IndexReply::Files(facts("one")));
    run.step(IndexReply::Prepared(Ok(Workspace {
        temp_dir: "/state/run".to_owned(),
        output_path: "/state/run/index.scip".to_owned(),
        source_before: "source".to_owned(),
    })))
}

#[test]
fn an_index_is_taken_from_a_program_that_ends_well() {
    let run = started();
    assert_eq!(
        run.arguments("/repo").unwrap(),
        ["scip", "/repo", "--output", "/state/run/index.scip"]
    );
    let run = run.step(IndexReply::Ended(Ok(process(0, "done"))));
    let run = run.step(IndexReply::Fingerprint(Ok("source".to_owned())));
    let run = run.step(IndexReply::Output(Ok(WrittenIndex {
        facts: OutputFacts { regular: Ok(true), len: 9 },
        sha256: "artifact".to_owned(),
    })));
    assert_eq!(run.record(1).unwrap().outcome, "success");
    let run = run.step(IndexReply::Recorded(Ok(())));
    let made = run.outcome().unwrap().unwrap();
    assert_eq!(made.artifact_sha256(), "artifact");
    assert_eq!(made.source_fingerprint(), "source");
    assert_eq!(made.report().output_bytes, 9);
    assert_eq!(made.registration_id(), binding().registration_id);
    assert_eq!(made.registration_revision(), 1);
    assert_eq!(made.executable_sha256(), "one");
    assert_eq!(made.output_path(), "/state/run/index.scip");
    let record = provider_run::record_import_failure(3, &made);
    assert_eq!(record.failure_kind.as_deref(), Some("validation_or_store"));
    assert_eq!(provider_run::record_import_prepared(3, &made).stage, "semantic_commit_prepared");
    assert_eq!(provider_run::record_import_committed(3, &made).stage, "semantic_commit");
    assert_eq!(provider_run::record_stability_observed(3, &made).stage, "stability_probe");
}

#[test]
fn failed_index_runs_are_recorded_and_removed() {
    let run = started().step(IndexReply::Ended(Ok(process(2, ""))));
    assert_eq!(run.record(1).unwrap().failure_kind.as_deref(), Some("non_zero_exit"));
    let run = run.step(IndexReply::Recorded(Ok(())));
    assert!(matches!(run.phase, IndexPhase::Discard(..)));
    let error = run.step(IndexReply::Removed).outcome().unwrap().unwrap_err();
    assert!(said(error).contains("exit_code=Some(2)"));

    let run = started().step(IndexReply::Ended(Err(AppError::Provider("timeout".to_owned()))));
    let record = run.record(1).unwrap();
    assert_eq!(record.failure_kind.as_deref(), Some("spawn_or_timeout"));
    assert_eq!(record.source_fingerprint_before.as_deref(), Some("source"));

    let run = started().step(IndexReply::Ended(Ok(process(0, ""))));
    let run = run.step(IndexReply::Fingerprint(Ok("changed".to_owned())));
    assert_eq!(run.record(1).unwrap().failure_kind.as_deref(), Some("source_changed"));

    let empty = started().step(IndexReply::Ended(Ok(process(0, ""))));
    let empty = empty.step(IndexReply::Fingerprint(Ok("source".to_owned())));
    let empty = empty.step(IndexReply::Output(Ok(WrittenIndex {
        facts: OutputFacts { regular: Ok(true), len: 0 },
        sha256: String::new(),
    })));
    assert!(said(empty.outcome().unwrap().unwrap_err()).contains("大小非法"));
}

#[test]
fn an_index_needs_a_binding_whose_files_are_unchanged() {
    let profiles = vec![profile("rust-analyzer")];
    let run = IndexRun::new("project", &profiles, "main").unwrap();
    let unbound = run.step(IndexReply::Registry(Ok(ProviderRegistry {
        schema_version: PROVIDER_SCHEMA_VERSION,
        bindings: Vec::new(),
    })));
    assert!(said(unbound.outcome().unwrap().unwrap_err()).contains("尚未在本机绑定"));

    let run = IndexRun::new("project", &profiles, "main").unwrap();
    let run = run.step(IndexReply::Registry(Ok(ProviderRegistry {
        schema_version: PROVIDER_SCHEMA_VERSION,
        bindings: vec![binding()],
    })));
    let drifted = run.step(IndexReply::Files(facts("two")));
    assert!(matches!(drifted.phase, IndexPhase::Failed(_)));
    assert!(IndexRun::new("project", &profiles, "unknown").is_err());
    assert!(IndexRun::new("project", &vec![profile("custom")], "main").is_err());
}

// ---------------------------------------------------------------------------
// Stability
// ---------------------------------------------------------------------------

fn run_binding(revision: u64) -> RunBinding {
    RunBinding {
        registration_id: "registration".to_owned(),
        registration_revision: revision,
        executable_sha256: "one".to_owned(),
    }
}

fn observation(documents: &[&str], semantic: &str, coverage: &str) -> Observation {
    Observation {
        source_fingerprint: "source".to_owned(),
        binding: run_binding(1),
        documents: documents.iter().map(|d| (*d).to_owned()).collect(),
        semantic_fingerprint: semantic.to_owned(),
        coverage_status: coverage.to_owned(),
    }
}

#[test]
fn equal_and_complete_runs_are_stable() {
    let mut run = StabilityRun::new();
    run.observe(observation(&["a.rs", "b.rs"], "s", "complete")).unwrap();
    run.observe(observation(&["b.rs", "a.rs"], "s", "complete")).unwrap();
    let report = run.conclude();
    assert_eq!(report.status, "stable_complete");
    assert!(report.divergent_document_sample.is_empty());
    assert!(stability::stability_verdict(report.status).is_ok());
    let entry = run.qualification_entry(report.status, 2, &b"abc".to_vec()).unwrap();
    assert_eq!(entry.runs, 2);
    assert_eq!(
        entry.evidence_sha256,
        "sha256_ba7816bf8f01cfea414140de5dae2223b00361a396177a9cb410ff61f20015ad"
    );
}

#[test]
fn differing_runs_are_not_stable() {
    let mut run = StabilityRun::new();
    run.observe(observation(&["a.rs", "b.rs"], "s", "complete")).unwrap();
    run.observe(observation(&["a.rs", "c.rs"], "s", "complete")).unwrap();
    let report = run.conclude();
    assert_eq!(report.status, "nondeterministic");
    assert_eq!(report.divergent_document_sample, ["b.rs", "c.rs"]);
    assert!(said(stability::stability_verdict(report.status).unwrap_err())
        .contains("status=nondeterministic"));

    let mut run = StabilityRun::new();
    run.observe(observation(&["a.rs"], "s", "complete")).unwrap();
    run.observe(observation(&["a.rs"], "t", "complete")).unwrap();
    assert_eq!(run.conclude().status, "nondeterministic");

    let mut run = StabilityRun::new();
    run.observe(observation(&["a.rs"], "s", "complete")).unwrap();
    run.observe(observation(&["a.rs"], "s", "partial")).unwrap();
    assert_eq!(run.conclude().status, "stable_incomplete");
}

#[test]
fn at_most_two_hundred_documents_are_named_for_a_run() {
    let many: Vec<String> = (0..300).map(|n| format!("f{n:03}.rs")).collect();
    let many: Vec<&str> = many.iter().map(String::as_str).collect();
    let mut run = StabilityRun::new();
    run.observe(observation(&[], "s", "complete")).unwrap();
    run.observe(observation(&many, "s", "complete")).unwrap();
    let sample = run.conclude().divergent_document_sample;
    assert_eq!(sample.len(), 200);
    assert_eq!(sample[199], "f199.rs");
}

#[test]
fn runs_on_another_source_or_binding_are_void() {
    let mut run = StabilityRun::new();
    run.observe(observation(&["a.rs"], "s", "complete")).unwrap();
    let mut other = observation(&["a.rs"], "s", "complete");
    other.source_fingerprint = "changed".to_owned();
    assert!(said(run.observe(other).unwrap_err()).contains("源码指纹"));
    let mut other = observation(&["a.rs"], "s", "complete");
    other.binding = run_binding(2);
    assert!(said(run.observe(other).unwrap_err()).contains("revision"));
    assert_eq!(run.observations.len(), 1);
    assert!(StabilityRun::new().qualification_entry("stable_complete", 0, &Vec::new()).is_err());
}

// ---------------------------------------------------------------------------
// Storing an index
// ---------------------------------------------------------------------------

fn qualified(status: &str, revision: u64) -> ProviderQualification {
    ProviderQualification { status: status.to_owned(), binding: run_binding(revision) }
}

fn trust(ready: bool, revision: u64) -> ProviderTrustStatus {
    ProviderTrustStatus {
        profile_id: "main".to_owned(),
        ready,
        registration_id: Some("registration".to_owned()),
        registration_revision: Some(revision),
        executable_sha256: Some("one".to_owned()),
        launcher_package_manifest_sha256: None,
        issue: None,
    }
}

fn executed() -> ExecutedRun {
    ExecutedRun { binding: run_binding(1), source_fingerprint: "source".to_owned() }
}

#[test]
fn an_index_is_stored_only_once_everything_was_checked() {
    let run = ImportRun::new("main".to_owned());
    let run = run.step(ImportReply::Latest(Ok(Some(qualified("stable_complete", 1)))));
    let run = run.step(ImportReply::Bindings(vec![trust(true, 1)]));
    assert!(matches!(run.phase, ImportPhase::Execute));
    let run = run.step(ImportReply::Ran(Ok(executed())));
    let run = run.step(ImportReply::Finished(Ok(())));
    let run = run.step(ImportReply::Fingerprint(Ok("source".to_owned())));
    let run = run.step(ImportReply::Latest(Ok(Some(qualified("stable_complete", 1)))));
    assert!(matches!(run.phase, ImportPhase::RecordPrepared(_)));
    let run = run.step(ImportReply::Finished(Ok(())));
    assert!(matches!(run.phase, ImportPhase::Commit(_)));
    let run = run.step(ImportReply::Finished(Ok(())));
    let run = run.step(ImportReply::Finished(Err(AppError::Io("full".to_owned()))));
    assert!(matches!(run.phase, ImportPhase::Done));
}

#[test]
fn what_keeps_an_index_from_being_stored_is_recorded() {
    let reading = || {
        let run = ImportRun::new("main".to_owned());
        let run = run.step(ImportReply::Latest(Ok(None)));
        run.step(ImportReply::Ran(Ok(executed())))
    };
    let run = reading().step(ImportReply::Finished(Err(AppError::Json("bad".to_owned()))));
    assert!(matches!(run.phase, ImportPhase::RecordFailure(_)));
    let run = run.step(ImportReply::Finished(Ok(())));
    assert!(matches!(run.phase, ImportPhase::Failed(AppError::Json(_))));

    let run = reading().step(ImportReply::Finished(Ok(())));
    let run = run.step(ImportReply::Fingerprint(Ok("changed".to_owned())));
    assert!(matches!(run.phase, ImportPhase::RecordFailure(AppError::Provider(_))));

    let run = reading().step(ImportReply::Finished(Ok(())));
    let run = run.step(ImportReply::Fingerprint(Ok("source".to_owned())));
    let run = run.step(ImportReply::Latest(Ok(Some(qualified("stable_complete", 2)))));
    let ImportPhase::RecordFailure(error) = run.phase else { panic!("expected a record") };
    assert!(said(error).contains("漂移"));
}

#[test]
fn of_two_profiles_of_one_name_the_last_counts() {
    let statuses = vec![trust(true, 1), trust(false, 2)];
    assert_eq!(symbols::find_status(&statuses, "main").unwrap().registration_revision, Some(2));
    assert!(symbols::find_status(&statuses, "other").is_none());
}

fn observed(run: VerifyRun, observation: Observation) -> VerifyRun {
    let run = run.step(VerifyReply::Executed(Ok(())));
    assert_eq!(run.phase, VerifyPhase::Prepare);
    run.step(VerifyReply::Prepared(Ok(observation)))
}

#[test]
fn stability_is_stored_once_every_run_is_made() {
    let run = observed(VerifyRun::new(2), observation(&["a.rs"], "s", "complete"));
    let run = run.step(VerifyReply::Recorded(Ok(())));
    assert_eq!(run.phase, VerifyPhase::Execute);
    let run = observed(run, observation(&["a.rs"], "s", "complete"));
    assert_eq!(run.phase, VerifyPhase::RecordRun);
    let run = run.step(VerifyReply::Recorded(Ok(())));
    let run = run.step(VerifyReply::Written(Ok(b"abc".to_vec())));
    let VerifyPhase::Store(entry, _) = &run.phase else { panic!("{:?}", run.phase) };
    assert_eq!((entry.status, entry.runs), ("stable_complete", 2));
    let run = run.step(VerifyReply::Stored(Ok(())));
    assert!(matches!(run.phase, VerifyPhase::Passed(_)));

    let run = observed(VerifyRun::new(1), observation(&["a.rs"], "s", "partial"));
    let run = run.step(VerifyReply::Recorded(Ok(())));
    let run = run.step(VerifyReply::Written(Ok(Vec::new())));
    let run = run.step(VerifyReply::Stored(Ok(())));
    let VerifyPhase::Rejected(_, error) = run.phase else { panic!("expected a rejection") };
    assert!(said(error).contains("status=stable_incomplete"));
}

#[test]
fn runs_that_cannot_be_compared_are_recorded() {
    let run = observed(VerifyRun::new(2), observation(&["a.rs"], "s", "complete"));
    let run = run.step(VerifyReply::Recorded(Ok(())));
    let mut moved = observation(&["a.rs"], "s", "complete");
    moved.source_fingerprint = "elsewhere".to_owned();
    let run = observed(run, moved);
    assert!(matches!(run.phase, VerifyPhase::RecordFailure(_)));
    assert_eq!(run.seen.observations.len(), 1);
    let run = run.step(VerifyReply::Recorded(Ok(())));
    let VerifyPhase::Failed(error) = run.phase else { panic!("expected a failure") };
    assert!(said(error).contains("源码指纹发生变化"));
    assert!(matches!(VerifyRun::new(0).phase, VerifyPhase::Failed(AppError::Provider(_))));
}

#[test]
fn providers_run_without_colours_and_system_configuration() {
    assert_eq!(
        provider_run::fixed_environment(),
        [("NO_COLOR", "1"), ("GIT_CONFIG_NOSYSTEM", "1")]
    );
    assert_eq!(provider_run::provider_environment().len(), 22);
}

#[test]
fn providers_without_standing_are_not_asked() {
    let asked = |latest: ProviderQualification, trust: Vec<ProviderTrustStatus>| {
        stability::ensure_provider_preflight_qualification("main", &Some(latest), &trust)
    };
    assert!(asked(qualified("stable_complete", 1), vec![trust(true, 1)]).is_ok());
    assert!(said(asked(qualified("nondeterministic", 1), vec![trust(true, 1)]).unwrap_err())
        .contains("nondeterministic"));
    assert!(said(asked(qualified("stable_complete", 1), Vec::new()).unwrap_err())
        .contains("找不到"));
    assert!(said(asked(qualified("stable_complete", 1), vec![trust(false, 1)]).unwrap_err())
        .contains("已过期"));
    assert!(asked(qualified("stable_complete", 1), vec![trust(true, 2)]).is_err());
    assert!(
        stability::ensure_provider_preflight_qualification("main", &None, &Vec::new()).is_ok()
    );
}

#[test]
fn standing_is_needed_to_store() {
    let stored = |latest: Option<ProviderQualification>| {
        stability::provider_commit_qualification("main", &latest, &run_binding(1))
    };
    assert!(stored(None).is_ok());
    assert!(stored(Some(qualified("stable_complete", 1))).is_ok());
    assert!(stored(Some(qualified("stable_incomplete", 1))).is_err());
    assert!(stored(Some(qualified("stable_complete", 9))).is_err());
}

#[test]
fn a_reply_that_was_not_asked_for_ends_every_run() {
    let run = ImportRun::new("main".to_owned()).step(ImportReply::Finished(Ok(())));
    assert!(matches!(run.phase, ImportPhase::Failed(AppError::UnexpectedReply)));
    let run = started().step(IndexReply::Removed);
    assert!(matches!(run.phase, IndexPhase::Failed(AppError::UnexpectedReply)));
    let run = bind(false).step(BindReply::Written(Ok(())));
    assert!(matches!(run.phase, BindPhase::Failed(AppError::UnexpectedReply)));
}

#[test]
fn runs_are_named_after_what_they_index() {
    assert_eq!(provider_run::digest_path(b"abc"), "ba7816bf8f01cfea");
    assert_eq!(
        provider_run::lock_name("key", "main", &provider_run::digest_path(b"abc")),
        "key--main--ba7816bf8f01cfea.lock"
    );
    assert_eq!(provider_run::run_directory("key", "main", 42, "7"), "key--main--42--7");
}
