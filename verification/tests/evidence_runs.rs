//! Taking evidence: builds, engines, inputs, providers and stored bundles.
use project_brain::artifact_store::{
    self, AssemblyBindingAttestation, ObjectFacts, RuntimeArtifactBundle,
};
use project_brain::build_evidence::{
    self, ArtifactEntry, ArtifactKind, ArtifactManifest, ArtifactStock, BuildOutputKind,
    ExecutionClass, SourceFile, TargetFacts,
};
use project_brain::build_run::{BuildOrder, BuildPhase, BuildReply, BuildRun};
use project_brain::bundle_run::{KeepPhase, KeepReply, KeepRun, ReadBack};
use project_brain::digest;
use project_brain::engine_run::{EngineOrder, EnginePhase, EngineReply, EngineRun};
use project_brain::error::AppError;
use project_brain::evidence::{self, CurrentSourceVerification};
use project_brain::evidence_flow::{
    EvidenceFlow, EvidencePhase, EvidenceReply, Inputs, RunRequest, Scratch,
};
use project_brain::evidence_inputs::{
    self, FoundFile, InputEntries, InputManifestEntry, InputPathState, PathPart, SelectedFile,
    TreeEntryKind, TreeScan,
};
use project_brain::evidence_provider::{
    self, BindingFacts, Candidate, CandidateFinding, ContractIdentity, EvidenceDescriptor,
    EvidenceProviderBinding, EvidenceProviderRegistry, ExecutableIdentity, ProviderResponse,
    StageFacts,
};
use project_brain::execution::{self, CaptureState, CapturedOutput, ExitStatus, ProcessResult};
use project_brain::git::{self, WorktreeEntry, WorktreeItem};
use project_brain::godot::{self, ResultFacts};
use project_brain::model::{
    EvidenceAuthority, EvidenceCoverage, EvidenceFreshness, EvidencePlane, FindingAuthority,
    FindingSeverity,
};

fn output(bytes: &[u8]) -> CapturedOutput {
    CapturedOutput {
        bytes: bytes.to_vec(),
        total_bytes: bytes.len(),
        sha256: "hash".to_owned(),
        truncated: false,
    }
}

fn process(code: i32, stdout: &str, stderr: &str) -> ProcessResult {
    ProcessResult {
        status: ExitStatus { code: Some(code) },
        timed_out: false,
        duration_ms: 0,
        stdout: output(stdout.as_bytes()),
        stderr: output(stderr.as_bytes()),
    }
}

// ---------------------------------------------------------------------------
// Freshness
// ---------------------------------------------------------------------------

#[test]
fn effective_freshness_never_restores_recorded_non_fresh_evidence() {
    let current = CurrentSourceVerification::Verified("source-a".to_owned());
    assert_eq!(
        evidence::effective_evidence_freshness(EvidenceFreshness::Stale, "source-a", &current)
            .freshness,
        EvidenceFreshness::Stale
    );
    assert_eq!(
        evidence::effective_evidence_freshness(EvidenceFreshness::Unknown, "source-a", &current)
            .freshness,
        EvidenceFreshness::Unknown
    );
}

#[test]
fn source_mismatch_is_stale_and_unavailable_source_is_unknown() {
    let mismatch = CurrentSourceVerification::Verified("source-b".to_owned());
    assert_eq!(
        evidence::effective_evidence_freshness(EvidenceFreshness::Fresh, "source-a", &mismatch)
            .freshness,
        EvidenceFreshness::Stale
    );
    assert_eq!(
        evidence::effective_evidence_freshness(EvidenceFreshness::Unknown, "source-a", &mismatch)
            .freshness,
        EvidenceFreshness::Stale
    );

    let unavailable = CurrentSourceVerification::Unavailable("git unavailable".to_owned());
    assert_eq!(
        evidence::effective_evidence_freshness(EvidenceFreshness::Fresh, "source-a", &unavailable)
            .freshness,
        EvidenceFreshness::Unknown
    );
}

#[test]
fn the_current_source_is_known_or_not() {
    let known = CurrentSourceVerification::inspect(Ok("abc".to_owned()));
    assert_eq!(known.fingerprint(), Some("abc"));
    assert_eq!(known.error(), None);
    let unknown = CurrentSourceVerification::inspect(Err("no git".to_owned()));
    assert_eq!(unknown.fingerprint(), None);
    assert_eq!(unknown.error(), Some("no git"));
    assert!(!known.agrees(&unknown));
}

// ---------------------------------------------------------------------------
// Processes
// ---------------------------------------------------------------------------

#[test]
fn capture_writer_bounds_bytes_but_hashes_the_complete_stream() {
    let input = vec![b'x'; execution::MAX_CAPTURE_BYTES + 17];
    let mut state = CaptureState::new();
    state.write(&input[..1000]);
    state.write(&input[1000..]);
    let snapshot = state.snapshot(digest::hash_bytes(&input));
    assert_eq!(snapshot.bytes.len(), execution::MAX_CAPTURE_BYTES);
    assert_eq!(snapshot.total_bytes, execution::MAX_CAPTURE_BYTES + 17);
    assert!(snapshot.truncated);
    assert_eq!(snapshot, execution::drain_bounded(&input));
}

#[test]
fn processes_end_in_time_or_are_refused() {
    assert!(execution::check_stdin(execution::MAX_STDIN_BYTES).is_ok());
    assert!(execution::check_stdin(execution::MAX_STDIN_BYTES + 1).is_err());
    assert!(execution::check_end(true, false, false, 5).is_ok());
    assert!(execution::check_end(true, true, true, 5).is_ok());
    assert!(execution::check_end(true, true, false, 5).is_err());
    assert!(execution::check_end(false, false, false, 5).is_err());
    let argv = execution::argv(&Some("run.js".to_owned()), &vec!["--version".to_owned()]);
    assert_eq!(argv, ["run.js", "--version"]);
    assert!(ExitStatus { code: Some(0) }.success());
    assert!(!ExitStatus { code: None }.success());
}

// ---------------------------------------------------------------------------
// Builds
// ---------------------------------------------------------------------------

#[test]
fn repository_build_code_requires_a_separate_explicit_trust_bit() {
    assert!(build_evidence::require_trust(true, false, ExecutionClass::CompilerOnly).is_ok());
    assert!(
        build_evidence::require_trust(true, false, ExecutionClass::RepositoryBuildCode).is_err()
    );
}

#[test]
fn build_profile_identity_is_bounded_and_shell_free() {
    assert!(build_evidence::validate_profile_id("godot-debug").is_ok());
    assert!(build_evidence::validate_profile_id("bad/profile").is_err());
    assert!(build_evidence::validate_profile_id("x;echo").is_err());
}

#[test]
fn unavailable_toolchain_is_not_misclassified_as_a_project_build_violation() {
    assert!(build_evidence::infrastructure_failure(
        "cargo-build",
        b"",
        b"error: linker `link.exe` not found"
    ));
    assert!(build_evidence::infrastructure_failure(
        "dotnet-build",
        b"error NETSDK1004: Assets file 'obj/project.assets.json' not found",
        b""
    ));
    assert!(!build_evidence::infrastructure_failure(
        "cargo-build",
        b"",
        b"error[E0308]: mismatched types"
    ));
}

#[test]
fn dotnet_restore_state_copies_only_allowed_metadata() {
    assert!(build_evidence::is_restore_file("project.assets.json"));
    assert!(build_evidence::is_restore_file("game.csproj.nuget.g.props"));
    assert!(!build_evidence::is_restore_file("generated.dll"));
}

#[test]
fn a_failed_build_counts_unless_the_machine_failed() {
    let failed = process(1, "", "error[E0308]");
    let artifacts = BuildOutputKind::ArtifactSet;
    let verdict =
        build_evidence::judge_build("cargo-build", "Cargo.toml", &failed, false, artifacts, 0);
    assert_eq!(verdict.coverage, EvidenceCoverage::Complete);
    assert_eq!(
        verdict.finding.as_ref().unwrap().authority,
        FindingAuthority::DeterministicViolation
    );
    let machine =
        build_evidence::judge_build("cargo-build", "Cargo.toml", &failed, true, artifacts, 0);
    assert!(machine.infrastructure_failure);
    assert_eq!(machine.coverage, EvidenceCoverage::Partial);
    assert_eq!(machine.finding.as_ref().unwrap().authority, FindingAuthority::Advisory);
    let (findings, status) = build_evidence::conclude_build(machine, &failed, &None);
    assert_eq!(findings.len(), 1);
    assert_ne!(status, "passed");

    let good = process(0, "", "");
    let verdict =
        build_evidence::judge_build("dotnet-build", "game.csproj", &good, false, artifacts, 3);
    assert!(verdict.finding.is_none());
    assert!(verdict.store_bundle);
    let broken = Some("sha256_x".to_owned());
    let (findings, _) = build_evidence::conclude_build(verdict, &good, &broken);
    assert_eq!(findings.len(), 1);
}

#[test]
fn build_targets_stay_in_the_project() {
    let facts = |stays_below: bool, inside_root: bool| TargetFacts {
        shown: "game.csproj".to_owned(),
        stays_below,
        canonical: "/repo/game.csproj".to_owned(),
        inside_root,
    };
    assert!(build_evidence::resolve_project_path(&facts(true, true)).is_ok());
    assert!(build_evidence::resolve_project_path(&facts(false, true)).is_err());
    assert!(build_evidence::resolve_project_path(&facts(true, false)).is_err());
    let extension = Some("csproj".to_owned());
    let allowed = vec!["csproj", "sln"];
    let good = facts(true, true);
    assert!(
        build_evidence::resolve_project_file(&good, true, &extension, &allowed).is_ok()
    );
    assert!(build_evidence::resolve_project_file(&good, true, &None, &allowed).is_err());
    assert!(build_evidence::resolve_project_file(&good, false, &extension, &allowed).is_err());
    assert!(build_evidence::resolve_project_directory(&good, false).is_err());
    assert!(build_evidence::check_sources(0, "src").is_err());
    assert!(build_evidence::check_sources(1, "src").is_ok());
}

#[test]
fn build_commands_are_fixed() {
    assert_eq!(
        build_evidence::python_argv("bootstrap.py", "inputs.json").last().unwrap(),
        "inputs.json"
    );
    assert!(
        build_evidence::cargo_argv("Cargo.toml", "target").contains(&"Cargo.toml".to_owned())
    );
    assert_eq!(build_evidence::build_provider_id("cargo-build", "main"), "cargo-build.main");
    assert_eq!(
        build_evidence::redact_machine_paths(
            &vec!["/repo/a".to_owned(), "/scratch/b".to_owned()],
            "/repo",
            "/scratch"
        )
        .len(),
        2
    );
    let shown = build_evidence::sanitize_output_excerpt(b"in /repo/a\xff", "/repo", "/scratch");
    assert!(!shown.contains("/repo"));
    assert!(build_evidence::check_run("a", "a", "e", "e").is_ok());
    assert!(build_evidence::check_run("a", "b", "e", "e").is_err());
    assert!(build_evidence::check_run("a", "a", "e", "f").is_err());
    assert!(build_evidence::require_probe_success("version", &process(1, "", "")).is_err());
    assert!(build_evidence::check_toolchain("cargo-build", "cargo", "cargo 1.9").is_ok());
    assert!(build_evidence::check_toolchain("cargo-build", "cargo", "rustc 1.9").is_err());
}

#[test]
fn artifacts_are_counted_and_bounded() {
    let mut stock = ArtifactStock::new();
    assert_eq!(stock.check(ArtifactKind::Directory, "bin", 0), Ok(false));
    assert_eq!(stock.check(ArtifactKind::File, "b.dll", 5), Ok(true));
    stock.add_file("b.dll", 5, "b");
    stock.add_file("a.dll", 6, "a");
    assert!(stock.check(ArtifactKind::Link, "link", 0).is_err());
    assert!(stock.check(ArtifactKind::Outside, "out", 0).is_err());
    assert!(stock.check(ArtifactKind::File, "huge", 2_147_483_648).is_err());
    let (entries, total) = stock.finish();
    assert_eq!(total, 11);
    assert_eq!(entries[0].relative_path, "a.dll");
}

// ---------------------------------------------------------------------------
// The engine
// ---------------------------------------------------------------------------

#[test]
fn extracts_only_errors_and_removes_machine_paths() {
    let run = process(
        0,
        "normal\nERROR: C:/repo/scenes/main.tscn failed\n",
        "SCRIPT ERROR: C:/probe/probe.gd:2\n",
    );
    let diagnostics = godot::extract_diagnostics(&vec![run], "C:/repo", "C:/probe");
    assert_eq!(diagnostics.len(), 2);
    assert!(diagnostics.iter().all(|item| !item.contains("C:/repo")));
    assert!(diagnostics.iter().all(|item| !item.contains("C:/probe")));
    assert_eq!(
        godot::sanitize_diagnostic("ERROR: C:/repo/a", "C:/repo", "C:/probe"),
        "ERROR: <project>/a"
    );
}

#[test]
fn engines_are_of_the_fourth_version_and_can_do_what_is_needed() {
    assert!(godot::check_version("4.6.1.stable").is_ok());
    assert_eq!(
        godot::check_version("3.5").unwrap_err().message(),
        "语义 Provider 执行失败：Godot Engine Evidence Provider v1 只支持 Godot 4，实际版本=\"3.5\""
    );
    assert!(
        godot::check_capabilities("Godot Engine --headless --script --import").is_ok()
    );
    assert!(godot::check_capabilities("Godot Engine --headless").is_err());
    assert!(godot::begin_run(false, true, "/repo").is_err());
    assert!(godot::begin_run(true, false, "/repo").is_err());
    assert!(godot::begin_run(true, true, "/repo").is_ok());
    assert!(godot::judge_version(&process(0, "4.6\n", "")).is_ok());
    assert!(godot::judge_version(&process(1, "4.6\n", "")).is_err());
    assert!(
        godot::judge_help(&process(0, "Godot Engine --headless --script --import", "")).is_ok()
    );
}

#[test]
fn an_engine_run_gives_a_bounded_result() {
    let result = |len: u64| ResultFacts { regular: Ok(true), len };
    assert!(godot::check_result(&result(1)).is_ok());
    assert!(godot::check_result(&result(godot::MAX_PROBE_RESULT_BYTES + 1)).is_err());
    assert!(godot::check_result(&ResultFacts { regular: Ok(false), len: 1 }).is_err());
    let gone = ResultFacts { regular: Err("gone".to_owned()), len: 0 };
    assert!(godot::check_result(&gone).is_err());
    let finish = |after: &str| {
        godot::finish_run(
            "project",
            "4.6",
            "engine",
            after,
            process(0, "", ""),
            process(0, "ERROR: x\n", ""),
            &result(1),
            "/repo",
            "/probe",
        )
    };
    let (summary, diagnostics) = finish("engine").unwrap();
    assert_eq!(summary.engine_version, "4.6");
    assert_eq!(diagnostics, ["ERROR: x"]);
    assert!(finish("replaced").is_err());
    assert!(godot::probe_directory_name(1, "2", 100).is_err());
    assert!(godot::probe_directory_name(1, "2", 0).is_ok());
}

// ---------------------------------------------------------------------------
// Stored bundles
// ---------------------------------------------------------------------------

fn artifact_entry(path: &str, size: u64, seed: &str) -> ArtifactEntry {
    ArtifactEntry {
        relative_path: path.to_owned(),
        size,
        sha256: digest::hash_bytes(seed.as_bytes()),
    }
}

fn bundle() -> RuntimeArtifactBundle {
    let entries = vec![artifact_entry("game.dll", 17, "exact-build-bytes")];
    let source = Some("[dotnet]\nproject/assembly_name=\"game\"\n".to_owned());
    let binding = artifact_store::assembly_binding(&source, &entries).unwrap();
    artifact_store::new_bundle(
        "project-a",
        "dotnet-build.main",
        "sha256_source",
        ArtifactManifest {
            entries,
            total_bytes: 17,
            manifest_fingerprint: "sha256_manifest".to_owned(),
        },
        binding,
    )
}

fn facts_of(entry: &ArtifactEntry) -> ObjectFacts {
    ObjectFacts { regular: true, inside: true, len: entry.size, sha256: entry.sha256.clone() }
}

#[test]
fn promotes_and_revalidates_exact_runtime_bytes() {
    let bundle = bundle();
    let facts = facts_of(&bundle.entries[0]);
    assert!(artifact_store::check_source(&bundle.entries[0], &facts, "game.dll").is_ok());
    assert!(artifact_store::verify_bundle(&bundle, &vec![true], &vec![facts.clone()]).is_ok());
    let document = artifact_store::canonical_json(b"{}".to_vec());
    let receipt = artifact_store::receipt(bundle.clone(), "sha256_bundle", document.clone());
    assert_eq!(receipt.file_count, 1);
    assert_eq!(receipt.canonical_manifest_bytes(), document);
    assert_eq!(receipt.assembly_binding.unwrap().assembly_name, "game");

    let changed = ObjectFacts { sha256: digest::hash_bytes(b"other"), ..facts };
    assert!(artifact_store::verify_bundle(&bundle, &vec![true], &vec![changed]).is_err());
}

#[test]
fn assembly_binding_requires_declared_output() {
    let entries = vec![artifact_entry("game.dll", 5, "bytes")];
    let missing = Some("[dotnet]\nproject/assembly_name=\"missing\"\n".to_owned());
    assert!(artifact_store::assembly_binding(&missing, &entries).is_err());
    let unnamed = Some("[application]\nname=\"game\"\n".to_owned());
    assert!(artifact_store::assembly_binding(&unnamed, &entries).is_err());
    let unsafe_name = Some("[dotnet]\nproject/assembly_name=\"a/b\"\n".to_owned());
    assert!(artifact_store::assembly_binding(&unsafe_name, &entries).is_err());
    let escaped = Some("[dotnet]\nproject/assembly_name=\"g\\u0061me\"\n".to_owned());
    assert_eq!(
        artifact_store::assembly_binding(&escaped, &entries).unwrap(),
        Some(AssemblyBindingAttestation {
            assembly_name: "game".to_owned(),
            relative_path: "game.dll".to_owned(),
            sha256: entries[0].sha256.clone(),
        })
    );
    assert_eq!(artifact_store::assembly_binding(&None, &entries), Ok(None));
}

#[test]
fn canonical_manifest_fingerprint_covers_all_bundle_fields() {
    let bundle = RuntimeArtifactBundle {
        schema_version: 1,
        project_key: "project-a".to_owned(),
        build_provider_id: "dotnet-build.main".to_owned(),
        source_fingerprint: "sha256_source".to_owned(),
        artifact_manifest_fingerprint: "sha256_manifest".to_owned(),
        total_bytes: 0,
        entries: Vec::new(),
        assembly_binding: None,
    };
    let bytes = artifact_store::canonical_json(format!("{bundle:?}").into_bytes());
    assert_eq!(digest::marked_hash(&bytes), digest::marked_hash(&bytes));
    assert!(bytes.ends_with(b"\n"));
}

#[test]
fn stored_objects_are_named_by_their_content() {
    let sha256 = digest::hash_bytes(b"x");
    assert!(artifact_store::object_path(&sha256).unwrap().contains(&sha256));
    assert!(artifact_store::object_path("../x").is_err());
    assert!(artifact_store::validate_fingerprint("sha256_short").is_err());
    assert!(artifact_store::validate_fingerprint(&digest::marked_hash(b"x")).is_ok());
    assert!(artifact_store::validate_relative_path("a/b", true).is_ok());
    assert!(artifact_store::validate_relative_path("../b", false).is_err());
    let entry = artifact_entry("a", 1, "x");
    assert!(artifact_store::check_stored_object(&entry, 1, &entry.sha256).is_ok());
    assert!(artifact_store::check_stored_object(&entry, 2, &entry.sha256).is_err());
    let same = b"{}\n".to_vec();
    assert!(artifact_store::check_existing_manifest(&same, &same, "m").is_ok());
    assert!(artifact_store::check_existing_manifest(&same, &Vec::new(), "m").is_err());
    assert!(artifact_store::check_written_manifest(&same, &Vec::new()).is_err());
    assert!(artifact_store::check_manifest_fingerprint("a", "b").is_err());
    let mut wrong = bundle();
    wrong.total_bytes = 18;
    assert!(artifact_store::check_manifest(&wrong).is_err());
}

// ---------------------------------------------------------------------------
// Inputs
// ---------------------------------------------------------------------------

fn selected(path: &str, role: &str, sha256: Option<&str>) -> SelectedFile {
    SelectedFile {
        path: path.to_owned(),
        role: role.to_owned(),
        found: sha256.map(|sha256| FoundFile {
            regular: true,
            canonical: format!("/repo/{path}"),
            inside_root: true,
            sha256: sha256.to_owned(),
            size: 3,
        }),
        exact: true,
        presence_sensitive: true,
    }
}

#[test]
fn inputs_are_recorded_as_they_are_found() {
    let entries = evidence_inputs::resolve_entries(&vec![
        selected("b.py", "source", Some("bb")),
        selected("a.py", "source", Some("aa")),
        selected("pyproject.toml", "config", None),
    ])
    .unwrap();
    let paths: Vec<&str> = entries.items.iter().map(|entry| entry.path.as_str()).collect();
    assert_eq!(paths, ["a.py", "b.py", "pyproject.toml"]);
    assert_eq!(entries.items[0].content_sha256.as_deref(), Some("sha256_aa"));
    assert_eq!(entries.items[2].state, InputPathState::Absent);
}

fn python_files(main: &str) -> Vec<SelectedFile> {
    let file = |path: &str, bytes: &str| SelectedFile {
        exact: false,
        presence_sensitive: false,
        ..selected(path, "source", Some(&digest::hash_bytes(bytes.as_bytes())))
    };
    vec![file("src/main.py", main), file("src/pkg/module.py", "VALUE = 1\n")]
}

#[test]
fn python_manifest_is_profile_scoped_and_content_bound() {
    let (root, contract) =
        evidence_inputs::python_compile_contract("project-a", "main", "src", 1);
    assert_eq!(root, "src");
    let (_, other) = evidence_inputs::python_compile_contract("project-a", "other", "src", 1);
    assert_ne!(contract, other);
    let repository =
        evidence_inputs::conservative_repository_contract("project-a", "main", "p", 1);
    assert_ne!(contract, repository);

    let readme = |text: &str| {
        git::worktree_fingerprint(&vec![WorktreeEntry {
            path: "README.md".to_owned(),
            inside: true,
            item: WorktreeItem::File(text.as_bytes().to_vec()),
        }])
        .unwrap()
    };
    let source = readme("unrelated\n");
    let first =
        evidence_inputs::resolve_stable(&source, &python_files("print('one')\n"), &source)
            .unwrap();
    assert_eq!(first.entries.items.len(), 2);
    assert!(first
        .entries
        .items
        .iter()
        .all(|entry| entry.state == InputPathState::PresentRegularFile));

    let moved = readme("changed but unrelated\n");
    let unrelated =
        evidence_inputs::resolve_stable(&moved, &python_files("print('one')\n"), &moved)
            .unwrap();
    assert_eq!(first.entries, unrelated.entries);
    assert_ne!(first.source_fingerprint, unrelated.source_fingerprint);

    let changed =
        evidence_inputs::resolve_stable(&moved, &python_files("print('two')\n"), &moved)
            .unwrap();
    assert_ne!(first.entries, changed.entries);
    assert!(evidence_inputs::resolve_stable(&source, &python_files("x"), &moved).is_err());
}

#[test]
fn inputs_stay_in_the_repository() {
    let found = |inside_root: bool, regular: bool| FoundFile {
        regular,
        canonical: "/repo/a".to_owned(),
        inside_root,
        sha256: "aa".to_owned(),
        size: 1,
    };
    assert!(evidence_inputs::regular_file_entry("a", "source", &found(true, true)).is_ok());
    assert!(evidence_inputs::regular_file_entry("a", "source", &found(false, true)).is_err());
    assert!(evidence_inputs::regular_file_entry("a", "source", &found(true, false)).is_err());
    let parts = |special: bool| {
        vec![
            PathPart::Name("src".to_owned()),
            if special { PathPart::Special } else { PathPart::Name("a.py".to_owned()) },
        ]
    };
    assert_eq!(
        evidence_inputs::normalized_relative_path(&parts(false), "src/a.py").unwrap(),
        "src/a.py"
    );
    assert!(evidence_inputs::normalized_relative_path(&parts(true), "src/..").is_err());
    assert!(
        evidence_inputs::normalized_relative_path(&vec![PathPart::NotText], "x").is_err()
    );
    assert!(evidence_inputs::check_stable("a", "a").is_ok());
    assert!(evidence_inputs::check_stable("a", "b").is_err());
    assert!(evidence_inputs::check_expected_source("a", "b").is_err());
    assert!(evidence_inputs::check_tree_root("src", false).is_err());
    assert!(evidence_inputs::check_tree_entry(TreeEntryKind::Link, "l").is_err());
    assert_eq!(evidence_inputs::check_tree_entry(TreeEntryKind::Directory, "d"), Ok(true));
    assert_eq!(evidence_inputs::relative_to_tree("src/a", "src"), Some("a".to_owned()));
}

#[test]
fn trees_are_bounded() {
    let mut scan = TreeScan::new(1);
    scan.note("a").unwrap();
    assert!(scan.note("b").is_err());
    let mut entries = InputEntries::new();
    let entry = |role: &str| InputManifestEntry {
        path: "a".to_owned(),
        state: InputPathState::Absent,
        role: role.to_owned(),
        content_sha256: None,
        size: None,
    };
    entries.insert(entry("source")).unwrap();
    entries.insert(entry("source")).unwrap();
    assert_eq!(entries.items.len(), 1);
}

// ---------------------------------------------------------------------------
// Evidence providers
// ---------------------------------------------------------------------------

fn descriptor() -> EvidenceDescriptor {
    EvidenceDescriptor {
        provider_id: "linter".to_owned(),
        provider_version: "1.0".to_owned(),
        provider_contract_version: 1,
        capabilities: vec![EvidencePlane::Test],
        document: "{}".to_owned(),
    }
}

fn bound() -> EvidenceProviderBinding {
    evidence_provider::new_binding(
        "project",
        "main",
        descriptor(),
        "descriptor-hash",
        ExecutableIdentity { path: "/tools/linter".to_owned(), sha256: "one".to_owned() },
        EvidenceAuthority::Advisory,
    )
}

fn binding_facts() -> BindingFacts {
    BindingFacts {
        protocol_error: None,
        descriptor_hash: "descriptor-hash".to_owned(),
        executable_sha256: Ok("one".to_owned()),
    }
}

fn registry(bindings: Vec<EvidenceProviderBinding>) -> EvidenceProviderRegistry {
    EvidenceProviderRegistry { schema_version: 1, bindings }
}

#[test]
fn evidence_providers_are_bound_once() {
    assert!(evidence_provider::begin_bind("main", true).is_ok());
    assert!(evidence_provider::begin_bind("main", false).is_err());
    assert!(evidence_provider::begin_bind("bad/profile", true).is_err());
    let empty = evidence_provider::empty_registry();
    let (entered, report) = evidence_provider::finish_bind(empty, bound(), false).unwrap();
    assert!(report.changed);
    let (entered, report) = evidence_provider::finish_bind(entered, bound(), false).unwrap();
    assert!(!report.changed);
    let mut other = bound();
    other.registration_id = "else".to_owned();
    assert!(evidence_provider::finish_bind(entered.clone(), other.clone(), false).is_err());
    let (entered, report) = evidence_provider::finish_bind(entered, other, true).unwrap();
    assert_eq!(report.revision, 2);
    let (left, report) = evidence_provider::unbind(entered, "project", "main").unwrap();
    assert!(report.changed);
    assert!(left.bindings.is_empty());
    assert!(evidence_provider::check_registry(&registry(vec![bound(), bound()])).is_err());
    let listed =
        evidence_provider::list(&registry(vec![bound()]), &vec![binding_facts()], "project");
    assert_eq!(listed.bindings[0].state, "ready");
    let drifted =
        BindingFacts { executable_sha256: Ok("two".to_owned()), ..binding_facts() };
    let listed = evidence_provider::list(&registry(vec![bound()]), &vec![drifted], "project");
    assert_eq!(listed.bindings[0].state, "drifted");
}

fn present(path: &str, sha256: &str) -> InputManifestEntry {
    InputManifestEntry {
        path: path.to_owned(),
        state: InputPathState::PresentRegularFile,
        role: "source".to_owned(),
        content_sha256: Some(sha256.to_owned()),
        size: Some(3),
    }
}

fn absent(path: &str) -> InputManifestEntry {
    InputManifestEntry {
        path: path.to_owned(),
        state: InputPathState::Absent,
        role: "config".to_owned(),
        content_sha256: None,
        size: None,
    }
}

fn scratch() -> Scratch {
    Scratch {
        nonce: "7".to_owned(),
        staged_root: "/scratch/project".to_owned(),
        output_root: "/scratch/output".to_owned(),
    }
}

fn found() -> EvidenceFlow {
    let run = EvidenceFlow::new("project", "main", EvidencePlane::Test, 3);
    let run = run.step(EvidenceReply::Registry(Ok(registry(vec![bound()]))));
    let run = run.step(EvidenceReply::Binding(binding_facts()));
    let run = run.step(EvidenceReply::Contract(Ok(ContractIdentity {
        project_key: "project".to_owned(),
        profile_id: "main".to_owned(),
        provider_contract_id: "linter".to_owned(),
        provider_contract_version: 1,
    })));
    let run = run.step(EvidenceReply::Inputs(Ok(Inputs {
        entries: vec![absent("a"), present("b", "bb"), absent("c"), present("d", "dd")],
        manifest_hash: "manifest".to_owned(),
        source_fingerprint: "source".to_owned(),
    })));
    assert!(matches!(run.phase, EvidencePhase::ReadConfig(..)));
    run
}

fn prepared() -> EvidenceFlow {
    let configuration = b"{ \"level\" : [1, 2] }".to_vec();
    let run = found().step(EvidenceReply::Config(Ok(Some(configuration))));
    run.step(EvidenceReply::Prepared(Ok(scratch())))
}

fn staged(sha256: &str) -> EvidenceReply {
    EvidenceReply::Input(Ok(StageFacts {
        plain: true,
        inside: true,
        regular: true,
        content_sha256: sha256.to_owned(),
        size: 3,
    }))
}

fn ready() -> EvidenceFlow {
    let run = prepared();
    assert!(matches!(run.phase, EvidencePhase::LookAtInput(_, _, _, 1)));
    let run = run.step(staged("bb")).step(EvidenceReply::Copied(Ok("bb".to_owned())));
    assert!(matches!(run.phase, EvidencePhase::LookAtInput(_, _, _, 3)));
    let run = run.step(staged("dd")).step(EvidenceReply::Copied(Ok("dd".to_owned())));
    assert!(matches!(run.phase, EvidencePhase::Run(..)));
    run
}

fn response(succeeded: bool) -> ProviderResponse {
    ProviderResponse {
        succeeded,
        error_code: None,
        error_message: Some("broken".to_owned()),
        candidate: Some(Candidate {
            provider_contract_version: 1,
            payload_schema: "lint".to_owned(),
            payload: b"{ \"lines\": 7 }".to_vec(),
            findings: vec![CandidateFinding {
                code: "unused".to_owned(),
                severity: FindingSeverity::Error,
                deterministic_violation_claim: true,
                message: "x is unused".to_owned(),
                artifact_id: None,
                path: Some("b".to_owned()),
            }],
        }),
    }
}

#[test]
fn providers_are_asked_about_what_was_found() {
    let EvidencePhase::Run(_, _, request) = ready().phase else { panic!("expected a run") };
    assert_eq!(
        request,
        RunRequest {
            id_seed: "project\0main\0manifest\x007".to_owned(),
            provider_id: "linter".to_owned(),
            profile_id: "main".to_owned(),
            project_key: "project".to_owned(),
            plane: EvidencePlane::Test,
            source_fingerprint: "source".to_owned(),
            manifest_hash: "manifest".to_owned(),
            staged_project_root: "/scratch/project".to_owned(),
            output_root: "/scratch/output".to_owned(),
            opaque_config: b"{\"level\":[1,2]}".to_vec(),
            timeout_ms: 3_000,
        }
    );
}

#[test]
fn configurations_are_json_or_empty() {
    assert_eq!(evidence_provider::read_config(&None).unwrap(), b"{}");
    assert_eq!(evidence_provider::read_config(&Some(b" [ 1 ] ".to_vec())).unwrap(), b"[1]");
    assert!(matches!(
        evidence_provider::read_config(&Some(b"{".to_vec())),
        Err(AppError::Json(complaint)) if complaint.contains("EOF")
    ));
    assert_eq!(
        evidence_provider::taken_config(Some(Err("broken".to_owned()))),
        Err(AppError::Json("broken".to_owned()))
    );
    let broken = found().step(EvidenceReply::Config(Ok(Some(b"{".to_vec()))));
    assert!(matches!(broken.phase, EvidencePhase::Failed(AppError::Json(_))));
    let none = found().step(EvidenceReply::Config(Ok(None)));
    assert!(matches!(none.phase, EvidencePhase::Prepare(_, _, config) if config == b"{}"));
}

#[test]
fn advice_of_a_provider_stays_advice() {
    let run = ready();
    let run = run.step(EvidenceReply::Ended(Ok(process(0, "{}", ""))));
    let run = run.step(EvidenceReply::Response(Ok(response(true))));
    let run = run.step(EvidenceReply::Program(Ok("one".to_owned())));
    let run = run.step(EvidenceReply::Fingerprint(Ok("source".to_owned())));
    let summary = run.summary().unwrap();
    assert_eq!(summary.provider_id, "linter");
    let EvidencePhase::Done(_, _, _, taken) = run.phase else { panic!("expected evidence") };
    assert_eq!(taken.payload_key, "payload:lint");
    assert_eq!((taken.payload_kind, taken.payload_name.as_str()), ("provider_payload", "lint"));
    assert_eq!(taken.payload, b"{\"lines\":7}");
    assert_eq!(taken.authority, EvidenceAuthority::Advisory);
    assert_eq!((taken.provider_id.as_str(), taken.provider_version.as_str()), ("linter", "1.0"));
    assert_eq!(taken.findings[0].authority, FindingAuthority::Advisory);
    let strong = evidence_provider::take_findings(
        &response(true).candidate.unwrap().findings,
        EvidenceAuthority::Deterministic,
    );
    assert_eq!(strong[0].authority, FindingAuthority::DeterministicViolation);
}

#[test]
fn what_a_provider_brings_is_judged() {
    let candidate = response(true).candidate.unwrap();
    let taken =
        evidence_provider::take_candidate(&candidate, &bound(), Ok(b"[]".to_vec())).unwrap();
    assert_eq!(taken.payload, b"[]");
    assert_eq!(
        evidence_provider::take_candidate(&candidate, &bound(), Err("broken".to_owned())),
        Err(AppError::Json("broken".to_owned()))
    );
    let later = Candidate { provider_contract_version: 65_536, ..candidate };
    assert!(matches!(
        evidence_provider::take_candidate(&later, &bound(), Err("broken".to_owned())),
        Err(AppError::Provider(_))
    ));
}

fn failure(run: EvidenceFlow) -> String {
    let EvidencePhase::Failed(error) = run.phase else { panic!("{:?}", run.phase) };
    error.message()
}

#[test]
fn evidence_needs_unchanged_inputs_programs_and_sources() {
    assert!(failure(prepared().step(staged("changed"))).contains("不一致：b"));
    let copied = prepared().step(staged("bb")).step(EvidenceReply::Copied(Ok("x".to_owned())));
    assert!(failure(copied).contains("校验失败"));
    let silent = ready().step(EvidenceReply::Ended(Ok(process(0, "", ""))));
    assert!(failure(silent).contains("未完整成功"));

    let answered = || ready().step(EvidenceReply::Ended(Ok(process(0, "{}", ""))));
    let refused = answered().step(EvidenceReply::Response(Ok(response(false))));
    assert!(failure(refused).contains("provider_failed: broken"));
    let good = || answered().step(EvidenceReply::Response(Ok(response(true))));
    let replaced = good().step(EvidenceReply::Program(Ok("two".to_owned())));
    assert!(failure(replaced).contains("漂移"));
    let moved = good()
        .step(EvidenceReply::Program(Ok("one".to_owned())))
        .step(EvidenceReply::Fingerprint(Ok("elsewhere".to_owned())));
    assert!(failure(moved).contains("Source 发生变化"));
    let unread = good().step(EvidenceReply::Program(Err("gone".to_owned())));
    assert!(matches!(unread.phase, EvidencePhase::Failed(AppError::Io(_))));
}

#[test]
fn evidence_needs_a_binding_a_plane_and_a_contract() {
    let run = || EvidenceFlow::new("project", "main", EvidencePlane::Test, 3);
    let unbound = run().step(EvidenceReply::Registry(Ok(registry(Vec::new()))));
    assert!(failure(unbound).contains("尚未在本机绑定"));
    let other = EvidenceFlow::new("project", "main", EvidencePlane::Build, 3)
        .step(EvidenceReply::Registry(Ok(registry(vec![bound()]))))
        .step(EvidenceReply::Binding(binding_facts()));
    assert!(failure(other).contains("plane=build"));
    let foreign = run()
        .step(EvidenceReply::Registry(Ok(registry(vec![bound()]))))
        .step(EvidenceReply::Binding(binding_facts()))
        .step(EvidenceReply::Contract(Ok(ContractIdentity {
            project_key: "other".to_owned(),
            profile_id: "main".to_owned(),
            provider_contract_id: "linter".to_owned(),
            provider_contract_version: 1,
        })));
    assert!(failure(foreign).contains("不一致"));
    let odd = run().step(EvidenceReply::Prepared(Ok(scratch())));
    assert!(matches!(odd.phase, EvidencePhase::Failed(AppError::UnexpectedReply)));
    assert!(evidence_provider::check_bounded_file(true, 5, 4, "config").is_err());
    assert_eq!(evidence_provider::timeout_ms(u64::MAX), u64::MAX);
    assert_eq!(evidence_provider::timeout_ms(3), 3_000);
    assert_eq!(
        evidence_provider::scratch_name("0123456789abcdefgh", 7, "n"),
        "0123456789abcdef-7-n"
    );
    assert_eq!(evidence_provider::request_seed("p", "m", "h", "n"), "p\0m\0h\0n");
}

// ---------------------------------------------------------------------------
// Whole runs
// ---------------------------------------------------------------------------

fn build_order(adapter: &str, leaves_artifacts: bool) -> BuildOrder {
    BuildOrder {
        project_key: "project".to_owned(),
        profile_id: "main".to_owned(),
        adapter: adapter.to_owned(),
        version_marker: "cargo".to_owned(),
        target: "Cargo.toml".to_owned(),
        argv: vec!["--target-dir".to_owned(), "/scratch/target".to_owned()],
        root: "/repo".to_owned(),
        scratch: "/scratch".to_owned(),
        executable_sha256: "program".to_owned(),
        execution_class: ExecutionClass::RepositoryBuildCode,
        output_kind: BuildOutputKind::ArtifactSet,
        leaves_artifacts,
    }
}

fn built(adapter: &str, process: ProcessResult) -> BuildRun {
    BuildRun::new(build_order(adapter, true))
        .step(BuildReply::Ended(Ok(self::process(0, "cargo 1.90.0", ""))))
        .step(BuildReply::Fingerprint(Ok("source".to_owned())))
        .step(BuildReply::Ended(Ok(process)))
        .step(BuildReply::Fingerprint(Ok("source".to_owned())))
}

fn stock(entries: Vec<ArtifactEntry>) -> BuildReply {
    BuildReply::Stock(Ok(ArtifactManifest {
        entries,
        total_bytes: 5,
        manifest_fingerprint: "stock".to_owned(),
    }))
}

fn build_failure(run: BuildRun) -> String {
    let BuildPhase::Failed(error) = run.phase else { panic!("{:?}", run.phase) };
    error.message()
}

#[test]
fn a_build_gives_evidence_of_what_it_left_behind() {
    let run = built("cargo-build", process(0, "", ""))
        .step(BuildReply::Fingerprint(Ok("program".to_owned())))
        .step(stock(vec![artifact_entry("a", 5, "a")]))
        .step(BuildReply::Written(Ok(b"contract".to_vec())));
    let BuildPhase::MakeEvidence(_, draft) = &run.phase else { panic!("{:?}", run.phase) };
    assert_eq!(draft.plane, EvidencePlane::Build);
    assert_eq!(draft.authority, EvidenceAuthority::Deterministic);
    assert_eq!(draft.provider_id, "cargo-build.main");
    assert_eq!(draft.provider_version, "cargo 1.90.0+sha256.program");
    assert_eq!(draft.source_fingerprint, "source");
    assert_eq!(draft.coverage, EvidenceCoverage::Complete);
    assert!(draft.findings.is_empty());
    let keys: Vec<&str> = draft.artifacts.iter().map(|part| part.key.as_str()).collect();
    assert_eq!(keys, ["contract", "target", "artifact-manifest"]);
    assert_eq!(draft.artifacts[0].content, b"contract");
    assert_eq!(draft.artifacts[1].content, b"Cargo.toml");
    let run = run.step(BuildReply::Finished(Ok(())));
    let BuildPhase::Done(report) = run.phase else { panic!("{:?}", run.phase) };
    assert_eq!(report.status, "succeeded");
    assert_eq!(report.contract.argv[1], "<MACHINE_SCRATCH>/target");
    assert_eq!(report.contract.network_policy, "offline_frozen");
}

#[test]
fn a_build_is_thrown_away_where_something_changed() {
    let moved = BuildRun::new(build_order("cargo-build", true))
        .step(BuildReply::Ended(Ok(process(0, "cargo 1.90.0", ""))))
        .step(BuildReply::Fingerprint(Ok("source".to_owned())))
        .step(BuildReply::Ended(Ok(process(0, "", ""))))
        .step(BuildReply::Fingerprint(Ok("other".to_owned())));
    assert!(build_failure(moved).contains("发生变化"));
    let replaced = built("cargo-build", process(0, "", ""))
        .step(BuildReply::Fingerprint(Ok("other".to_owned())));
    assert!(build_failure(replaced).contains("漂移"));
    let foreign = BuildRun::new(build_order("cargo-build", true))
        .step(BuildReply::Ended(Ok(process(0, "rustc 1.90.0", ""))));
    assert!(build_failure(foreign).contains("adapter=cargo-build"));
    let mut named = build_order("cargo-build", true);
    named.profile_id = "a/b".to_owned();
    assert!(build_failure(BuildRun::new(named)).contains("profile ID"));
}

#[test]
fn a_machine_at_fault_leaves_a_build_incomplete() {
    let run = built("cargo-build", process(1, "", "error: linker `cc` not found"))
        .step(BuildReply::Fingerprint(Ok("program".to_owned())))
        .step(stock(Vec::new()));
    let BuildPhase::WriteContract(concluded) = &run.phase else { panic!("{:?}", run.phase) };
    assert_eq!(concluded.status, "incomplete");
    assert_eq!(concluded.findings[0].code, "build_unavailable");
    assert_eq!(concluded.findings[0].authority, FindingAuthority::Advisory);
    let run = built("cargo-build", process(0, "", ""))
        .step(BuildReply::Fingerprint(Ok("program".to_owned())))
        .step(stock(Vec::new()));
    let BuildPhase::WriteContract(concluded) = &run.phase else { panic!("{:?}", run.phase) };
    assert_eq!(concluded.status, "failed");
    assert_eq!(concluded.findings[0].code, "required_artifact_missing");
}

#[test]
fn a_bundle_that_cannot_be_kept_is_told() {
    let run = built("dotnet-build", process(0, "", ""))
        .step(BuildReply::Fingerprint(Ok("program".to_owned())))
        .step(stock(vec![artifact_entry("game.dll", 5, "a")]));
    assert!(matches!(run.phase, BuildPhase::StoreBundle(..)));
    let run = run.step(BuildReply::Bundle(Err("sha256_why".to_owned())));
    let BuildPhase::WriteContract(concluded) = &run.phase else { panic!("{:?}", run.phase) };
    assert_eq!(concluded.status, "incomplete");
    assert!(concluded.findings[0].message.ends_with("failure_fingerprint=sha256_why"));
    let nowhere = BuildRun::new(build_order("dotnet-build", false))
        .step(BuildReply::Ended(Ok(process(0, "10.0", ""))))
        .step(BuildReply::Fingerprint(Ok("source".to_owned())))
        .step(BuildReply::Ended(Ok(process(0, "", ""))))
        .step(BuildReply::Fingerprint(Ok("source".to_owned())))
        .step(BuildReply::Fingerprint(Ok("program".to_owned())));
    let BuildPhase::WriteContract(concluded) = &nowhere.phase else {
        panic!("{:?}", nowhere.phase)
    };
    assert_eq!(concluded.findings[0].code, "required_artifact_missing");
}

fn keep_run() -> KeepRun {
    KeepRun::new(
        "project-a".to_owned(),
        "dotnet-build.main".to_owned(),
        "sha256_source".to_owned(),
        ArtifactManifest {
            entries: vec![artifact_entry("game.dll", 17, "exact-build-bytes")],
            total_bytes: 17,
            manifest_fingerprint: "sha256_manifest".to_owned(),
        },
    )
    .step(KeepReply::Settings(Ok(Some(
        "[dotnet]\nproject/assembly_name=\"game\"\n".to_owned(),
    ))))
    .step(KeepReply::Document(Ok(b"{}".to_vec())))
    .step(KeepReply::Fingerprint(Ok(digest::marked_hash(b"{}\n"))))
}

fn game_facts() -> ObjectFacts {
    facts_of(&artifact_entry("game.dll", 17, "exact-build-bytes"))
}

fn keep_failure(run: KeepRun) -> String {
    let KeepPhase::Failed(error) = run.phase else { panic!("{:?}", run.phase) };
    error.message()
}

#[test]
fn a_bundle_is_read_back_before_its_receipt() {
    let run = keep_run().step(KeepReply::File(true, Ok(game_facts()), "game.dll".to_owned()));
    assert!(matches!(run.phase, KeepPhase::LookForObject(_, 0)));
    let run = run
        .step(KeepReply::Object(Ok(None)))
        .step(KeepReply::Copied(Ok((17, game_facts().sha256))))
        .step(KeepReply::Found(Ok(None), "b.json".to_owned()))
        .step(KeepReply::Written(Ok(b"{}\n".to_vec())))
        .step(KeepReply::Fingerprint(Ok(digest::marked_hash(b"{}\n"))));
    let again = ReadBack { bundle: bundle(), plain: vec![true], facts: vec![game_facts()] };
    let run = run.step(KeepReply::Again(Ok(again)));
    let KeepPhase::Done(receipt) = run.phase else { panic!("{:?}", run.phase) };
    assert_eq!(receipt.file_count, 1);
    assert_eq!(receipt.canonical_manifest, b"{}\n");
    assert_eq!(receipt.bundle_fingerprint, digest::marked_hash(b"{}\n"));
    assert_eq!(receipt.assembly_binding.unwrap().assembly_name, "game");
}

#[test]
fn a_bundle_is_kept_only_as_it_was_built() {
    let other = ObjectFacts { sha256: digest::hash_bytes(b"other"), ..game_facts() };
    let file = || KeepReply::File(true, Ok(game_facts()), "game.dll".to_owned());
    let changed = keep_run().step(KeepReply::File(true, Ok(other.clone()), "g".to_owned()));
    assert!(keep_failure(changed).contains("不一致：game.dll"));
    let taken = keep_run().step(file()).step(KeepReply::Object(Ok(Some(other.clone()))));
    assert!(keep_failure(taken).contains("内容不匹配的 object"));
    let broken = keep_run()
        .step(file())
        .step(KeepReply::Object(Ok(None)))
        .step(KeepReply::Copied(Ok((16, game_facts().sha256))));
    assert!(keep_failure(broken).contains("内容校验失败"));
    let described = || {
        keep_run().step(file()).step(KeepReply::Object(Ok(Some(game_facts()))))
    };
    let foreign = described().step(KeepReply::Found(Ok(Some(b"[]\n".to_vec())), "b".to_owned()));
    assert!(keep_failure(foreign).contains("内容不同的 manifest：b"));
    let lost = described()
        .step(KeepReply::Found(Ok(Some(b"{}\n".to_vec())), "b".to_owned()))
        .step(KeepReply::Fingerprint(Ok(digest::marked_hash(b"{}\n"))))
        .step(KeepReply::Again(Ok(ReadBack {
            bundle: bundle(),
            plain: vec![true],
            facts: vec![other],
        })));
    assert!(keep_failure(lost).contains("缺失或损坏"));
    let unnamed = KeepRun::new(
        "p".to_owned(),
        "b".to_owned(),
        "s".to_owned(),
        ArtifactManifest {
            entries: Vec::new(),
            total_bytes: 0,
            manifest_fingerprint: "m".to_owned(),
        },
    )
    .step(KeepReply::Settings(Ok(Some(String::new()))));
    assert!(keep_failure(unnamed).contains("assembly_name"));
}

fn engine_run(trusted: bool) -> EngineRun {
    EngineRun::new(
        EngineOrder {
            project_key: "project".to_owned(),
            executable_sha256: "engine".to_owned(),
            root: "C:/repo".to_owned(),
            probe_root: "C:/probe".to_owned(),
        },
        trusted,
        true,
    )
}

fn engine_failure(run: EngineRun) -> String {
    let EnginePhase::Failed(error) = run.phase else { panic!("{:?}", run.phase) };
    error.message()
}

#[test]
fn an_engine_runs_from_its_version_to_its_evidence() {
    let help = "Godot Engine --headless --script --import";
    let ready = || {
        engine_run(true)
            .step(EngineReply::Ended(Ok(process(0, "4.6.1.stable\n", ""))))
            .step(EngineReply::Ended(Ok(process(0, help, ""))))
            .step(EngineReply::Finished(Ok(())))
            .step(EngineReply::Ended(Ok(process(0, "ERROR: C:/repo/a.tscn\n", ""))))
    };
    let probed = || {
        ready()
            .step(EngineReply::Ended(Ok(process(0, "", ""))))
            .step(EngineReply::Result(ResultFacts { regular: Ok(true), len: 10 }))
            .step(EngineReply::Finished(Ok(())))
    };
    let run = probed().step(EngineReply::Hash(Ok("engine".to_owned())));
    let EnginePhase::MakeEvidence(_, identity, errors) = &run.phase else {
        panic!("{:?}", run.phase)
    };
    assert_eq!(identity, "4.6.1.stable+sha256.engine");
    assert_eq!(errors, &["ERROR: <project>/a.tscn"]);
    let run = run.step(EngineReply::Finished(Ok(())));
    assert!(matches!(run.phase, EnginePhase::Done(_)));
    let replaced = probed().step(EngineReply::Hash(Ok("other".to_owned())));
    assert!(engine_failure(replaced).contains("漂移"));
    let failed = ready().step(EngineReply::Ended(Ok(process(1, "", "boom"))));
    assert!(engine_failure(failed).contains("Godot evidence probe 失败"));
    assert!(engine_failure(engine_run(false)).contains("--trust-local-executable"));
    let old = engine_run(true).step(EngineReply::Ended(Ok(process(0, "3.5\n", ""))));
    assert!(engine_failure(old).contains("只支持 Godot 4"));
}

#[test]
fn compilers_are_handed_a_list_of_sources() {
    let sources = vec![
        ("a.py".to_owned(), "/repo/a.py".to_owned()),
        ("say \"b\".py".to_owned(), "/repo/b.py".to_owned()),
    ];
    assert_eq!(
        build_evidence::source_list(&sources),
        [
            r#"{"files":[{"absolute_path":"/repo/a.py","display_path":"a.py"},"#,
            r#"{"absolute_path":"/repo/b.py","display_path":"say \"b\".py"}]}"#,
        ]
        .concat()
    );
    assert_eq!(build_evidence::source_list(&Vec::new()), r#"{"files":[]}"#);
}

#[test]
fn only_python_sources_below_the_target_are_compiled() {
    let file = |path: &str, extension: Option<&str>, below_target: bool| SourceFile {
        display_path: path.to_owned(),
        absolute_path: format!("\\\\?\\C:\\repo\\{path}"),
        extension: extension.map(str::to_owned),
        below_target,
    };
    let files = vec![
        file("src/a.py", Some("py"), true),
        file("src/b.PY", Some("PY"), true),
        file("src/readme.md", Some("md"), true),
        file("src/Makefile", None, true),
        file("tools/c.py", Some("py"), false),
    ];
    assert_eq!(
        build_evidence::python_sources(&files),
        vec![
            ("src/a.py".to_owned(), "C:\\repo\\src/a.py".to_owned()),
            ("src/b.PY".to_owned(), "C:\\repo\\src/b.PY".to_owned()),
        ]
    );
}

#[test]
fn builds_start_from_their_own_files() {
    assert_eq!(build_evidence::check_manifest_name(&Some("Cargo.toml".to_owned())), Ok(()));
    for name in [None, Some("cargo.toml".to_owned()), Some("Other.toml".to_owned())] {
        assert_eq!(
            build_evidence::check_manifest_name(&name),
            Err(AppError::Provider("Rust Build Evidence target 必须是 Cargo.toml".to_owned()))
        );
    }
    assert_eq!(build_evidence::check_restore_state(true), Ok(()));
    assert_eq!(
        build_evidence::check_restore_state(false),
        Err(AppError::Provider(".NET restore state 解析后越出项目根目录".to_owned()))
    );
}

#[test]
fn builds_stay_within_their_scratch_directory() {
    let environment = build_evidence::build_environment();
    assert_eq!(environment.len(), 12);
    let home = environment.iter().find(|variable| variable.name == "HOME").unwrap();
    assert!(home.below_scratch && home.value.is_empty());
    let data = environment.iter().find(|variable| variable.name == "APPDATA").unwrap();
    assert!(data.below_scratch && data.value == "appdata/roaming");
    let quiet = environment.iter().find(|variable| variable.name == "DOTNET_NOLOGO").unwrap();
    assert!(!quiet.below_scratch && quiet.value == "1");
}
