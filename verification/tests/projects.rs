//! Projects: their configuration, keys, rules and reports.
use project_brain::digest;
use project_brain::error::AppError;
use project_brain::event::AdapterKind;
use project_brain::evidence::CurrentSourceVerification;
use project_brain::governance::{self, LineageCompaction};
use project_brain::model::{
    ActionKind, EvidenceAuthority, EvidenceCoverage, EvidenceFreshness, EvidencePlane, Rule,
    RuleEffect, RuleStrength,
};
use project_brain::project::{self, AgentKind, ProjectProfile};
use project_brain::qualification::QualificationState;
use project_brain::status::{
    self, DoctorReport, EvidenceHead, EvidenceRun, ProgramQualification,
};

#[test]
fn missing_marker_does_not_guess_a_project_root() {
    assert_eq!(
        project::discover_root(&vec![false, false, false, false]),
        Err(AppError::ProjectNotInitialized)
    );
}

#[test]
fn the_nearest_marked_directory_is_the_root() {
    assert_eq!(project::discover_root(&vec![false, true, true]), Ok(1));
    assert_eq!(project::discover_root(&Vec::new()), Err(AppError::ProjectNotInitialized));
    assert!(project::check_uninitialized(false, "x").is_ok());
    assert_eq!(
        project::check_uninitialized(true, "config.json"),
        Err(AppError::AlreadyInitialized("config.json".to_owned()))
    );
}

fn canonical(name: &str) -> Vec<u8> {
    let config = project::initial_config(1, name.to_owned(), String::new(), &Vec::new());
    format!("{config:?}").into_bytes()
}

#[test]
fn legacy_project_key_depends_on_project_config_not_checkout_path() {
    let first = canonical("same");
    let second = canonical("other");
    assert_eq!(project::legacy_project_key(&first), project::legacy_project_key(&first));
    assert_ne!(project::legacy_project_key(&first), project::legacy_project_key(&second));
}

#[test]
fn keys_are_made_from_their_parts() {
    assert_eq!(project::legacy_project_key(&b"{}".to_vec()), "pb_df2873daf95bac793099bf1c269a05f6");
    assert_eq!(project::generate_project_key("/repo", 5, 7), "pb_c911b42a0226c6728f6fb08c3068e019");
    assert_eq!(project::migrated_project_key("pb_kept", &b"{}".to_vec()), None);
    assert_eq!(
        project::migrated_project_key("", &b"{}".to_vec()),
        Some("pb_df2873daf95bac793099bf1c269a05f6".to_owned())
    );
}

#[test]
fn explicit_profiles_are_composable_deduplicated_and_never_inferred() {
    let empty =
        project::initial_config(1, "empty".to_owned(), "pb_empty".to_owned(), &Vec::new());
    assert!(empty.language_profiles.is_empty());
    assert!(empty.semantic_providers.is_empty());

    let (languages, providers) = project::profile_config(&vec![
        ProjectProfile::Python,
        ProjectProfile::Rust,
        ProjectProfile::Dotnet,
        ProjectProfile::Rust,
    ]);
    assert_eq!(
        languages.iter().map(|profile| profile.language.as_str()).collect::<Vec<_>>(),
        ["rust", "csharp", "visual-basic", "python"]
    );
    assert_eq!(
        providers.iter().map(|profile| profile.id.as_str()).collect::<Vec<_>>(),
        ["rust-main", "dotnet-main", "python-main"]
    );
    assert_eq!(providers[1].language_mappings[0].raw_language.as_deref(), Some("C#"));
    assert!(providers[2].language_mappings[0].allow_missing_language);

    let configured = project::initial_config(
        1,
        "polyglot".to_owned(),
        "pb_polyglot".to_owned(),
        &vec![ProjectProfile::Rust, ProjectProfile::Dotnet, ProjectProfile::Python],
    );
    assert_eq!(configured.semantic_providers.len(), 3);
    assert!(configured.semantic_providers.iter().all(|p| p.contract_version == 1));
}

#[test]
fn the_first_rules_protect_the_configuration() {
    let config = project::initial_config(4, "p".to_owned(), "pb".to_owned(), &Vec::new());
    assert_eq!(config.schema_version, 4);
    assert!(config.stop_reconcile.enabled);
    assert_eq!(config.stop_reconcile.base, "HEAD");
    let ids: Vec<&str> = config.rules.iter().map(|rule| rule.id.as_str()).collect();
    assert_eq!(ids, ["PB-CORE-001", "PB-CORE-002", "PB-CORE-003"]);
    assert_eq!(config.rules[0].effect, RuleEffect::Block);
    assert_eq!(config.rules[0].strength, RuleStrength::Hard);
    assert_eq!(config.rules[0].actions, [ActionKind::Delete]);
    assert_eq!(config.rules[1].effect, RuleEffect::InjectContext);
    assert_eq!(
        config.rules[2].operation_contains,
        [".project-brain/config.json", ".project-brain\\config.json"]
    );
}

#[test]
fn agents_are_told_apart() {
    assert_eq!(AgentKind::Codex.adapter_kind(), AdapterKind::Codex);
    assert_eq!(AgentKind::ClaudeCode.adapter_kind(), AdapterKind::ClaudeCode);
    assert_eq!(AgentKind::PrimeAgent.adapter_kind(), AdapterKind::PrimeAgent);
}

#[test]
fn hook_input_is_bounded() {
    assert!(project::check_hook_input(1_048_576, project::MAX_HOOK_INPUT_BYTES).is_ok());
    assert_eq!(
        project::check_hook_input(1_048_577, project::MAX_HOOK_INPUT_BYTES),
        Err(AppError::Setup("Hook 输入超过最大允许字节数：1048576".to_owned()))
    );
    assert!(project::check_registered("pb_a", "pb_a").is_ok());
    assert!(matches!(project::check_registered("pb_a", "pb_b"), Err(AppError::Setup(_))));
}

// ---------------------------------------------------------------------------
// Governance
// ---------------------------------------------------------------------------

fn rules() -> Vec<Rule> {
    project::initial_config(1, "p".to_owned(), "pb".to_owned(), &Vec::new()).rules
}

fn bind(rules: Vec<Rule>, rule: &str, symbol: &str, confirmed: bool) -> Result<Vec<Rule>, AppError> {
    governance::bind_rule_symbol(
        rules,
        rule,
        "rust-main",
        "contract",
        " RUST ",
        "snapshot",
        symbol,
        &None,
        confirmed,
    )
}

#[test]
fn symbols_are_bound_in_order_and_once() {
    let bound = bind(rules(), "PB-CORE-002", "zebra", true).unwrap();
    let bound = bind(bound, "PB-CORE-002", "ant", true).unwrap();
    let symbols: Vec<&str> =
        bound[1].symbol_scopes.iter().map(|s| s.anchor_symbol_id.as_str()).collect();
    assert_eq!(symbols, ["ant", "zebra"]);
    assert_eq!(bound[1].symbol_scopes[0].language_id, "rust");
    assert!(bound[0].symbol_scopes.is_empty());
    assert_eq!(bound[2], rules()[2]);
    assert_eq!(
        bind(bound.clone(), "PB-CORE-002", "ant", true),
        Err(AppError::Governance("symbol scope 已存在".to_owned()))
    );
    let listed = governance::rule_symbol_scopes(&bound, &None);
    assert_eq!(listed.len(), 2);
    assert_eq!(listed[0].0, "PB-CORE-002");
    let other = Some("PB-CORE-001".to_owned());
    assert!(governance::rule_symbol_scopes(&bound, &other).is_empty());

    let unbind = |rules: Vec<Rule>, language: &str| {
        governance::unbind_rule_symbol(
            rules,
            "PB-CORE-002",
            "rust-main",
            "contract",
            language,
            "snapshot",
            "ant",
            true,
        )
    };
    let left = unbind(bound.clone(), "Rust").unwrap();
    assert_eq!(left[1].symbol_scopes.len(), 1);
    assert_eq!(left[1].symbol_scopes[0].anchor_symbol_id, "zebra");
    assert!(unbind(left, "Rust").is_err());
}

#[test]
fn binding_needs_a_person_a_rule_and_a_symbol() {
    assert!(bind(rules(), "PB-CORE-002", "ant", false).unwrap_err().message()
        .contains("--human-confirmed"));
    assert_eq!(
        bind(rules(), "NONE", "ant", true),
        Err(AppError::Governance("找不到 rule=\"NONE\"".to_owned()))
    );
    let unresolved = governance::bind_rule_symbol(
        rules(),
        "PB-CORE-002",
        "rust-main",
        "contract",
        "rust",
        "snapshot",
        "ant",
        &Some(None),
        true,
    );
    assert!(unresolved.unwrap_err().message().ends_with("unknown"));
}

#[test]
fn lineage_is_compacted_on_a_persons_word_only() {
    let id = Some("request".to_owned());
    let hash = Some("manifest".to_owned());
    let begin = governance::begin_lineage_compaction;
    assert_eq!(
        begin(false, false, &None, &None, false),
        Ok(LineageCompaction::Preview)
    );
    assert_eq!(
        begin(false, true, &id, &hash, true),
        Ok(LineageCompaction::Apply {
            request_id: "request".to_owned(),
            approved_manifest_hash: "manifest".to_owned()
        })
    );
    assert!(begin(true, true, &id, &hash, true).is_err());
    assert!(begin(false, true, &id, &hash, false).is_err());
    assert!(begin(false, true, &None, &hash, true).is_err());
    assert!(begin(false, true, &id, &None, true).is_err());
    assert!(begin(false, false, &id, &None, false).is_err());
}

// ---------------------------------------------------------------------------
// Reports
// ---------------------------------------------------------------------------

fn report() -> DoctorReport {
    DoctorReport { status: "ready".to_owned(), issues: Vec::new(), warnings: Vec::new() }
}

#[test]
fn a_missing_qualification_counts_where_it_is_required() {
    let missing = Ok(ProgramQualification { qualified: false, target_hash: "abc".to_owned() });
    let none = Vec::new();
    let lenient = status::complete_report(report(), &none, &none, &missing, false);
    assert_eq!(lenient.status, "ready");
    assert_eq!(lenient.warnings, ["当前二进制/控制面合同 abc 尚无 Qualified 证明"]);
    let strict = status::complete_report(report(), &none, &none, &missing, true);
    assert_eq!(strict.status, "degraded");
    assert_eq!(strict.issues.len(), 1);
    let unread = status::complete_report(report(), &none, &none, &Err("gone".to_owned()), true);
    assert_eq!(unread.issues, ["无法读取 Production Qualification 状态：gone"]);
    let known = Ok(ProgramQualification { qualified: true, target_hash: String::new() });
    let issues = vec!["a".to_owned(), "b".to_owned()];
    let covered = status::complete_report(report(), &issues, &none, &known, true);
    assert_eq!(covered.status, "degraded");
    assert_eq!(
        status::doctor_verdict(false, &covered.issues),
        Err(AppError::DoctorDegraded("a；b".to_owned()))
    );
    assert!(status::doctor_verdict(true, &covered.issues).is_ok());
}

#[test]
fn coverage_is_in_order_where_nothing_is_missing() {
    let none = Vec::new();
    assert!(status::provider_coverage("ready", &none, true).is_ok());
    assert!(status::provider_coverage("unindexed", &none, false).is_ok());
    assert_eq!(
        status::provider_coverage("unindexed", &none, true),
        Err(AppError::DoctorDegraded(
            "semantic coverage status=unindexed，但 --require-indexed 要求 ready".to_owned()
        ))
    );
    assert!(status::provider_coverage("ready", &vec!["x".to_owned()], false).is_err());
}

#[test]
fn runs_end_well_or_say_why() {
    assert!(status::qualification_run("run", QualificationState::Qualified).is_ok());
    assert_eq!(
        status::qualification_run("run", QualificationState::Failed),
        Err(AppError::Qualification("运行 run 的最终状态为 failed".to_owned()))
    );
    for kind in [
        EvidenceRun::Runtime,
        EvidenceRun::DotnetTest,
        EvidenceRun::RustTest,
        EvidenceRun::PythonTest,
        EvidenceRun::GodotScenario,
        EvidenceRun::Build,
    ] {
        assert!(kind.verdict(true).is_ok());
        assert!(matches!(kind.verdict(false), Err(AppError::Provider(_))));
    }
    assert_eq!(
        EvidenceRun::RustTest.verdict(false).unwrap_err().message(),
        "语义 Provider 执行失败：Rust Test Evidence 已保存非通过结果；测试合同未通过"
    );
}

fn engine(source: &str) -> EvidenceHead {
    EvidenceHead {
        plane: EvidencePlane::Engine,
        provider_id: "engine".to_owned(),
        snapshot_fingerprint: "snapshot".to_owned(),
        source_fingerprint: source.to_owned(),
        freshness: EvidenceFreshness::Fresh,
        coverage: EvidenceCoverage::Complete,
        authority: EvidenceAuthority::Deterministic,
    }
}

#[test]
fn builds_rest_on_the_one_engine_of_their_source() {
    let current = CurrentSourceVerification::Verified("now".to_owned());
    let heads = vec![engine("before"), engine("now")];
    let reference = status::required_engine_reference(&heads, &current).unwrap();
    assert_eq!(reference.provider_id, "engine");
    let fresh = status::effective_heads(&heads, &current);
    assert_eq!(fresh[0].freshness, EvidenceFreshness::Stale);
    assert_eq!(fresh[1].freshness, EvidenceFreshness::Fresh);

    let twice = vec![engine("now"), engine("now")];
    let error = status::required_engine_reference(&twice, &current).unwrap_err();
    assert!(error.message().ends_with("实际=2"));
    let unknown = CurrentSourceVerification::Unavailable("no git".to_owned());
    let error = status::required_engine_reference(&heads, &unknown).unwrap_err();
    assert!(error.message().ends_with("实际=0；当前 Source fingerprint 无法验证：no git"));
}

#[test]
fn digests_are_written_in_hexadecimal() {
    assert_eq!(
        digest::hash_bytes(b"abc"),
        "ba7816bf8f01cfea414140de5dae2223b00361a396177a9cb410ff61f20015ad"
    );
    assert_ne!(digest::frame(&vec!["a", "bc"]), digest::frame(&vec!["ab", "c"]));
    assert_eq!(digest::terminate(&vec!["a", "b"]), b"a\0b\0");
}
