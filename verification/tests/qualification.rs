//! Qualification of the program: cases, verdicts and the ledger.
use project_brain::error::AppError;
use project_brain::digest;
use project_brain::event::EventIdentityQuality;
use project_brain::json::Json;
use project_brain::model::{ActionKind, ToolStatus};
use project_brain::qualification::{
    self, QualificationCaseReport, QualificationCaseState, QualificationContext,
    QualificationState, QualificationTarget, ReportIdentity, StoredRun,
};
use project_brain::qualification_cases::{
    self, AdapterObservation, AuditRow, AuditedEvent, FoundEvent, ReplayObservation,
};
use project_brain::qualification_run::{QualificationRun, RunPhase, RunReply};

fn target(hash: &str) -> QualificationTarget {
    QualificationTarget {
        project_brain_version: "1".to_owned(),
        binary_sha256: "binary".to_owned(),
        contract_manifest_hash: "contract".to_owned(),
        database_schema_version: 1,
        os: "linux".to_owned(),
        architecture: "x86_64".to_owned(),
        target_hash: hash.to_owned(),
    }
}

fn case(outcome: Result<Json, String>) -> QualificationCaseReport {
    qualification::case_report("replay_idempotency", outcome, "hash", 5)
}

fn context(after: &str) -> QualificationContext {
    QualificationContext {
        project_key: "project".to_owned(),
        project_root: "/repo".to_owned(),
        source_fingerprint_before: Some("source".to_owned()),
        source_fingerprint_after: Some(after.to_owned()),
    }
}

#[test]
fn qualified_means_that_every_case_passed() {
    let report = |cases: Vec<QualificationCaseReport>, after: &QualificationTarget, source: &str| {
        qualification::finish_report(
            "run".to_owned(),
            "request",
            target("t"),
            after,
            context(source),
            cases,
            1,
            2,
        )
    };
    let good = || vec![case(Ok(Json::empty_object()))];
    assert_eq!(report(good(), &target("t"), "source").status, QualificationState::Qualified);
    assert_eq!(report(good(), &target("u"), "source").status, QualificationState::Inconclusive);
    assert_eq!(report(good(), &target("t"), "moved").status, QualificationState::Inconclusive);
    let bad = vec![case(Ok(Json::empty_object())), case(Err("lost".to_owned()))];
    let failed = report(bad, &target("t"), "source");
    assert_eq!(failed.status, QualificationState::Failed);
    assert_eq!(failed.cases[1].failure_message.as_deref(), Some("lost"));
    assert!(failed.cases[1].failure_code.is_some());
    assert_eq!(QualificationCaseState::Passed.as_str(), "passed");
    assert!(!qualification::suite().is_empty());
}

#[test]
fn states_are_read_back() {
    for state in [
        QualificationState::Running,
        QualificationState::Qualified,
        QualificationState::Failed,
        QualificationState::Inconclusive,
    ] {
        assert_eq!(qualification::parse_state(state.as_str()), Ok(state));
    }
    assert!(qualification::parse_state("done").is_err());
}

fn stored(request_hash: &str, report: &str) -> StoredRun {
    StoredRun {
        request_hash: request_hash.to_owned(),
        status: "qualified".to_owned(),
        report_json: Some(report.to_owned()),
        report_hash: Some(digest::hash_bytes(report.as_bytes())),
    }
}

#[test]
fn ledger_refuses_request_id_collision_and_replays_exact_report() {
    let replay = |request_hash: &str, run: StoredRun| {
        qualification::replay_for_request("request-1", request_hash, Some(run))
    };
    assert_eq!(replay("a", stored("a", "{}")), Ok(Some("{}".to_owned())));
    assert!(matches!(replay("b", stored("a", "{}")), Err(AppError::Qualification(_))));
    let mut altered = stored("a", "{}");
    altered.report_json = Some("{ }".to_owned());
    assert!(replay("a", altered.clone()).is_err());
    assert!(qualification::show("run", Some(altered)).is_err());
    assert_eq!(qualification::show("run", Some(stored("a", "{}"))).unwrap(), "{}");
    assert!(qualification::show("run", None).is_err());
    assert_eq!(qualification::replay_for_request("request-1", "a", None), Ok(None));
    assert!(qualification::validate_external_id("request", "bad id").is_err());
    assert!(qualification::validate_external_id("request", "request-1").is_ok());
    assert_ne!(
        qualification::run_id("request-1", "a", 1),
        qualification::run_id("request-1", "a", 2)
    );
    assert_eq!(qualification::check_ledger(&None), Ok(true));
    assert!(qualification::check_ledger(&Some("99".to_owned())).is_err());
}

#[test]
fn focused_cases_prove_isolation_replay_and_stop_bound() {
    let row = |project: &str, session: &str| AuditRow {
        project_key: project.to_owned(),
        session_key: session.to_owned(),
    };
    assert!(
        qualification_cases::case_project_isolation(&vec![row("a", "s")], &vec![row("b", "t")])
            .is_err()
    );
    let replay = ReplayObservation {
        inserted: 1,
        duplicate: 99,
        restart_duplicate: true,
        collision_rejected: true,
        rows: 1,
    };
    let seen = qualification_cases::case_replay_idempotency(replay);
    let lost = ReplayObservation { collision_rejected: false, ..replay };
    assert!(qualification_cases::case_replay_idempotency(lost).is_err());
    drop(seen);
    let block = Json::empty_object().with("decision", Json::text("block"));
    let go = || Json::empty_object().with("continue", Json::Bool(true));
    let supports = |supported: bool| {
        Json::empty_object().with(
            "continuation",
            Json::empty_object().with("supported", Json::Bool(supported)),
        )
    };
    let active: Vec<Json> = (0..20).map(|_| go()).collect();
    assert!(
        qualification_cases::case_stop_loop_boundedness(
            &block,
            &active,
            &supports(true),
            &supports(false)
        )
        .is_ok()
    );
    assert!(
        qualification_cases::case_stop_loop_boundedness(
            &go(),
            &active,
            &supports(true),
            &supports(false)
        )
        .is_err()
    );
}

#[test]
fn shuffling_keeps_every_delivery() {
    let mut values: Vec<usize> = (0..100).collect();
    qualification_cases::deterministic_shuffle(&mut values);
    let mut again: Vec<usize> = (0..100).collect();
    qualification_cases::deterministic_shuffle(&mut again);
    assert_eq!(values, again);
    assert_ne!(values, (0..100).collect::<Vec<usize>>());
    values.sort_unstable();
    assert_eq!(values, (0..100).collect::<Vec<usize>>());
    let deliveries = qualification_cases::interleaving_deliveries();
    assert_eq!(deliveries.len(), 6_400);
    assert_ne!(
        qualification_cases::delivery(0, 1, false).event_id,
        qualification_cases::delivery(0, 1, true).event_id
    );
    let before = qualification_cases::delivery(3, 7, false);
    assert_eq!((before.tool_name.as_str(), before.status), ("Edit", None));
    assert_eq!(before.action.kind, ActionKind::Modify);
    assert_eq!(before.action.target_files, ["src/session-03.rs"]);
    let after = qualification_cases::delivery(3, 7, true);
    assert_eq!((after.status, after.duration_ms), (Some(ToolStatus::Succeeded), Some(1)));
    let none: Vec<FoundEvent> = Vec::new();
    assert!(qualification_cases::case_concurrent_interleaving(&none, &none).is_err());
}

#[test]
fn slow_sessions_and_unnoticed_drift_fail() {
    let values: Vec<u64> = (1..=100).collect();
    assert_eq!(qualification_cases::percentile_95(&values), 95);
    assert!(qualification_cases::case_provider_drift("a", "a", "drift").is_err());
    assert!(qualification_cases::case_long_session_stability(1, 1, 1).is_err());
    assert!(qualification_cases::case_long_session_stability(10_000, 1, 1).is_ok());
}

#[test]
fn adapters_that_accept_the_wrong_types_fail() {
    let seen = AdapterObservation {
        codex_output: Json::empty_object(),
        pi_output: Json::empty_object(),
        opencode_output: Json::empty_object(),
        dsh_output: Json::empty_object(),
        wrong_type_accepted: true,
        audited: vec![AuditedEvent {
            event_id: "e".to_owned(),
            identity_quality: EventIdentityQuality::VendorStable,
        }],
        audited_event_count: 1,
        codex_deny_intent: "supported".to_owned(),
        pi_continue_after_stop: "emulated".to_owned(),
        opencode_continue_after_stop: "unsupported".to_owned(),
        dsh_continue_after_stop: "supported".to_owned(),
        capabilities_hash: "hash".to_owned(),
    };
    assert!(qualification_cases::case_adapter_contract(&seen).is_err());
}

#[test]
fn targets_are_compared_part_by_part() {
    assert!(qualification::is_same_target(&target("t"), &target("t")));
    assert!(!qualification::is_same_target(&target("t"), &target("u")));
    let report = qualification::status_report(target("t"), None, None);
    assert!(!report.qualified);
    assert!(qualification::verify_report_hash("{}", "wrong").is_err());
}

fn new_run() -> QualificationRun {
    QualificationRun::new("request-1".to_owned(), "project".to_owned(), "/repo".to_owned())
        .step(RunReply::Finished(Ok(())))
        .step(RunReply::Inspected(Ok(target("t")), Some("source".to_owned())))
}

fn run_cases(failing: Option<usize>) -> QualificationRun {
    let mut run = new_run()
        .step(RunReply::Written(Ok(b"request".to_vec())))
        .step(RunReply::Stored(Ok(None)))
        .step(RunReply::Time(Ok(100)))
        .step(RunReply::Finished(Ok(())))
        .step(RunReply::Fixture(false, "work".to_owned()))
        .step(RunReply::Finished(Ok(())));
    let mut names = Vec::new();
    while let Some(name) = run.case_name() {
        let outcome = if failing == Some(names.len()) {
            Err("lost".to_owned())
        } else {
            Ok(Json::empty_object())
        };
        names.push(name);
        run = run
            .step(RunReply::Case(outcome, Some(b"seen".to_vec()), 5))
            .step(RunReply::Finished(Ok(())));
    }
    assert_eq!(names, qualification::suite());
    run.step(RunReply::Inspected(Ok(target("t")), Some("source".to_owned())))
        .step(RunReply::Time(Ok(200)))
}

#[test]
fn a_run_goes_through_the_suite_and_stores_one_report() {
    let run = run_cases(None).step(RunReply::Report(Ok("{}".to_owned())));
    let RunPhase::Store(_, _, hash) = &run.phase else { panic!("{:?}", run.phase) };
    assert_eq!(hash, &digest::hash_bytes(b"{}"));
    let run = run
        .step(RunReply::Changed(Ok(1)))
        .step(RunReply::Located(Ok(true), "work".to_owned()))
        .step(RunReply::Finished(Ok(())));
    let RunPhase::Done(report) = run.phase else { panic!("{:?}", run.phase) };
    assert_eq!(report.status, QualificationState::Qualified);
    assert_eq!(report.cases.len(), 7);
    assert_eq!(report.cases[0].observation_hash, digest::marked_hash(b"seen"));
    assert_eq!(report.context.project_root, "/repo");

    let failed = run_cases(Some(3));
    let RunPhase::WriteReport(report) = failed.phase else { panic!("{:?}", failed.phase) };
    assert_eq!(report.status, QualificationState::Failed);
    assert_eq!(report.cases[3].failure_message.as_deref(), Some("lost"));
}

fn run_failure(run: QualificationRun) -> String {
    let RunPhase::Failed(error) = run.phase else { panic!("{:?}", run.phase) };
    error.message()
}

#[test]
fn a_run_is_stored_once_and_repeated_never() {
    let twice = run_cases(None)
        .step(RunReply::Report(Ok("{}".to_owned())))
        .step(RunReply::Changed(Ok(0)));
    assert!(run_failure(twice).contains("无法从 running 原子收口"));
    let outside = run_cases(None)
        .step(RunReply::Report(Ok("{}".to_owned())))
        .step(RunReply::Changed(Ok(1)))
        .step(RunReply::Located(Ok(false), "/etc".to_owned()));
    assert!(run_failure(outside).contains("拒绝删除越界 qualification fixture：/etc"));

    let described = new_run();
    let parts = described.description().unwrap();
    assert_eq!(parts.get_text("target_hash"), Some("t"));
    assert_eq!(parts.get_text("source_fingerprint"), Some("source"));
    let asked = described.step(RunReply::Written(Ok(b"request".to_vec())));
    let known = stored(&digest::marked_hash(b"request"), "{}");
    let replayed = asked.step(RunReply::Stored(Ok(Some(known))));
    assert_eq!(replayed.phase, RunPhase::Replayed("{}".to_owned()));
    let asked = new_run().step(RunReply::Written(Ok(b"request".to_vec())));
    let other = asked.step(RunReply::Stored(Ok(Some(stored("else", "{}")))));
    assert!(run_failure(other).contains("已绑定到不同资格目标"));
    let taken = new_run()
        .step(RunReply::Written(Ok(b"request".to_vec())))
        .step(RunReply::Stored(Ok(None)))
        .step(RunReply::Time(Ok(1)))
        .step(RunReply::Finished(Ok(())))
        .step(RunReply::Fixture(true, "work".to_owned()));
    assert!(run_failure(taken).contains("路径已存在：work"));
    let nameless =
        QualificationRun::new("bad id".to_owned(), "project".to_owned(), "/repo".to_owned());
    assert!(run_failure(nameless).contains("request_id 不能为空"));
}

#[test]
fn what_is_fingerprinted_is_described() {
    let parts = qualification::target_description(&target("t"));
    assert_eq!(parts.get_text("binary_sha256"), Some("binary"));
    assert!(parts.get("target_hash").is_none());
    let seen = qualification::observation_description("Q", &Ok(Json::Integer(1)));
    assert_eq!(seen.get("metrics").and_then(Json::as_integer), Some(1));
    assert_eq!(seen.get_text("status"), Some("passed"));
    let failed = qualification::observation_description("Q", &Err("why".to_owned()));
    assert_eq!(failed.get_text("failure"), Some("why"));
    let contract = qualification::contract_description(2, 3, 4, Json::empty_object());
    assert_eq!(contract.get("hook_protocol_version").and_then(Json::as_integer), Some(2));
    let nested = Json::Array(vec![Json::text("a"), Json::empty_object().with("k", Json::Null)]);
    assert_eq!(nested.copy(), nested);
}

#[test]
fn rows_of_the_ledger_are_only_believed_with_their_report() {
    let report = Some("report".to_owned());
    let hash = Some(digest::hash_bytes(b"report"));
    let read = Some(ReportIdentity {
        run_id: "run".to_owned(),
        status: QualificationState::Qualified,
        target_hash: "target".to_owned(),
    });
    let check = |run_id: &str, status, target: &str, hash: &Option<String>, read| {
        qualification::check_row(run_id, status, target, &report, hash, read)
    };
    let qualified = QualificationState::Qualified;
    assert!(check("run", qualified, "target", &hash, &read));
    assert!(check("run", QualificationState::Running, "target", &None, &None));
    assert!(!check("other", qualified, "target", &hash, &read));
    assert!(!check("run", QualificationState::Failed, "target", &hash, &read));
    assert!(!check("run", qualified, "other", &hash, &read));
    assert!(!check("run", qualified, "target", &Some("tampered".to_owned()), &read));
    assert!(!check("run", qualified, "target", &hash, &None));
}
