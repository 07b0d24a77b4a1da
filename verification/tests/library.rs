use ml_release_platform::api::{
    ApiError, ReleaseCreateRequest, persisted_evaluation, validate_string,
};
use ml_release_platform::application::{
    DeployCommand, DeployEvent, ServiceError, evaluation_failure_reason, fail_release,
    finish_deployment, new_release, next_deploy_command, submitted_metrics,
};
use ml_release_platform::config::{DEFAULT_DATABASE_URL, Settings};
use ml_release_platform::domain::errors::{
    InvalidTransitionError, OrchestrationError, PolicyValidationError, ReleaseNotFoundError,
};
use ml_release_platform::domain::models::{Metadata, ModelRelease};
use ml_release_platform::domain::policy::{
    GateEvaluation, GateOperator, PolicyEvaluation, PolicyGate, ReleasePolicy, evaluate_policy,
    parse_policy,
};
use ml_release_platform::domain::states::{ReleaseStatus, validate_transition};
use ml_release_platform::json::{Float64, JsonValue, find_member};
use ml_release_platform::domain::models::Timestamp;
use ml_release_platform::repository::{
    RepositoryError, legacy_timestamp, normalize_sqlite_url, stored_metrics, stored_metrics_value,
    stored_timestamp_text,
    timestamp_from_database, timestamp_to_database,
};
use ml_release_platform::text::{char_is_white_space, fits_utf8, is_blank, trimmed};

const ALL_STATUSES: [ReleaseStatus; 9] = [
    ReleaseStatus::Submitted,
    ReleaseStatus::Validating,
    ReleaseStatus::Ready,
    ReleaseStatus::Deploying,
    ReleaseStatus::Canary,
    ReleaseStatus::Promoted,
    ReleaseStatus::Rejected,
    ReleaseStatus::RolledBack,
    ReleaseStatus::Failed,
];

fn number(value: f64) -> JsonValue {
    JsonValue::Number(Float64 { bits: value.to_bits() })
}

fn float(value: f64) -> Float64 {
    Float64 { bits: value.to_bits() }
}

fn members(pairs: Vec<(&str, JsonValue)>) -> Vec<(String, JsonValue)> {
    pairs.into_iter().map(|(k, v)| (k.to_owned(), v)).collect()
}

fn gates(pairs: Vec<(&str, JsonValue)>) -> JsonValue {
    JsonValue::Object(members(vec![("gates", JsonValue::Object(members(pairs)))]))
}

fn bound(key: &str, value: f64) -> JsonValue {
    JsonValue::Object(members(vec![(key, number(value))]))
}

fn release_in(status: ReleaseStatus) -> ModelRelease {
    let mut release = new_release(
        "model".to_owned(),
        "v1".to_owned(),
        "registry/model:v1".to_owned(),
        None,
        Metadata::new(),
    );
    release.status = status;
    release
}

fn policy_error(value: &JsonValue) -> String {
    parse_policy(value).unwrap_err().0
}

#[test]
fn status_names_round_trip_and_unknown_names_are_refused() {
    for status in ALL_STATUSES {
        assert_eq!(ReleaseStatus::from_name(status.as_str()).unwrap(), status);
        assert_eq!(status.as_str().parse::<ReleaseStatus>().unwrap(), status);
        assert_eq!(status.to_string(), status.as_str());
    }
    assert_eq!(ReleaseStatus::RolledBack.as_str(), "ROLLED_BACK");
    assert_eq!(
        ReleaseStatus::from_name("submitted").unwrap_err(),
        "Unknown release status 'submitted'."
    );
}

#[test]
fn only_terminal_states_have_no_successor_and_transitions_move_forward() {
    for current in ALL_STATUSES {
        let successors = ALL_STATUSES
            .iter()
            .filter(|target| current.can_transition_to(**target))
            .count();
        assert_eq!(current.is_terminal(), successors == 0);
        assert!(!current.can_transition_to(current));
        assert!(!current.can_transition_to(ReleaseStatus::Submitted));
    }
}

#[test]
fn validate_transition_names_both_states() {
    assert!(validate_transition(ReleaseStatus::Ready, ReleaseStatus::Deploying).is_ok());
    let error = validate_transition(ReleaseStatus::Ready, ReleaseStatus::Promoted).unwrap_err();
    assert_eq!(error.current, "READY");
    assert_eq!(error.target, "PROMOTED");
    assert_eq!(error.to_string(), "Cannot transition release from READY to PROMOTED.");
}

#[test]
fn transition_changes_status_and_keeps_everything_else() {
    let release = release_in(ReleaseStatus::Submitted);
    let moved = release.transition_to(ReleaseStatus::Validating).unwrap();
    assert_eq!(moved.status, ReleaseStatus::Validating);
    assert_eq!(moved.release_id, release.release_id);
    assert_eq!(moved.model_name, release.model_name);
    assert_eq!(moved.created_at, release.created_at);
    assert!(release.transition_to(ReleaseStatus::Canary).is_err());
}

#[test]
fn with_failure_and_with_evaluation_record_evidence() {
    let release = release_in(ReleaseStatus::Validating);
    let failed = release.with_failure("broken".to_owned());
    assert_eq!(failed.failure_reason.as_deref(), Some("broken"));
    assert_eq!(failed.status, ReleaseStatus::Validating);
    let evaluation = PolicyEvaluation { passed: true, results: Vec::new() };
    let evaluated =
        release.with_evaluation(vec![("accuracy".to_owned(), float(0.5))], evaluation, None);
    assert!(evaluated.evaluation.unwrap().passed);
    assert_eq!(evaluated.metrics[0].0, "accuracy");
    assert_eq!(evaluated.metrics[0].1, float(0.5));
}

#[test]
fn release_copies_are_equal_field_by_field() {
    let mut release = release_in(ReleaseStatus::Rejected);
    release.failure_reason = Some("why".to_owned());
    release.evaluation = Some(PolicyEvaluation {
        passed: false,
        results: vec![GateEvaluation {
            metric: "m".to_owned(),
            operator: GateOperator::Max,
            threshold: float(1.0),
            actual: Some(float(2.0)),
            passed: false,
            reason: None,
        }],
    });
    let copy = release.clone();
    assert_eq!(copy.failure_reason, release.failure_reason);
    assert_eq!(copy.evaluation.unwrap().results[0].actual, Some(float(2.0)));
}

#[test]
fn white_space_matches_std_for_every_char() {
    for c in (0u32..=0x10ffff).filter_map(char::from_u32) {
        assert_eq!(char_is_white_space(c), c.is_whitespace(), "{c:?}");
    }
}

#[test]
fn trimming_matches_str_trim() {
    for text in ["", "   ", " fraud-model ", "\u{3000}a b\u{2028}", "\tx\n", "é", " \u{85}y"] {
        assert_eq!(trimmed(text), text.trim());
        assert_eq!(is_blank(text), text.trim().is_empty());
    }
}

#[test]
fn utf8_length_matches_str_len() {
    for text in ["abc", "é", "€", "😀", "aé€😀"] {
        assert!(fits_utf8(text, text.len()));
        assert!(!fits_utf8(text, text.len() - 1));
    }
}

#[test]
fn doubles_compare_as_ieee_754() {
    let values = [
        0.0,
        -0.0,
        1.0,
        -1.0,
        0.9,
        0.89,
        200.0,
        f64::MIN_POSITIVE,
        -f64::MIN_POSITIVE,
        f64::MAX,
        f64::MIN,
        f64::INFINITY,
        f64::NEG_INFINITY,
        f64::NAN,
        5e-324,
    ];
    for a in values {
        for b in values {
            assert_eq!(float(a).at_least(&float(b)), a >= b, "{a} >= {b}");
            assert_eq!(float(a).at_most(&float(b)), a <= b, "{a} <= {b}");
        }
        assert_eq!(float(a).is_finite(), a.is_finite());
        assert_eq!(float(a).is_nan(), a.is_nan());
    }
}

#[test]
fn policy_errors_carry_their_messages() {
    assert_eq!(policy_error(&number(1.0)), "Policy must be an object.");
    assert_eq!(
        policy_error(&JsonValue::Object(members(vec![("other", number(1.0))]))),
        "Policy must contain exactly one 'gates' field."
    );
    assert_eq!(
        policy_error(&JsonValue::Object(members(vec![("gates", JsonValue::Null)]))),
        "Policy gates must be a non-empty object."
    );
    assert_eq!(
        policy_error(&gates(vec![("  ", bound("min", 1.0))])),
        "Policy gate names must be non-empty strings."
    );
    assert_eq!(
        policy_error(&gates(vec![("accuracy", JsonValue::Bool(true))])),
        "Gate 'accuracy' must be an object."
    );
    assert_eq!(
        policy_error(&gates(vec![("accuracy", JsonValue::Object(Vec::new()))])),
        "Gate 'accuracy' must contain exactly one of 'min' or 'max'."
    );
    assert_eq!(
        policy_error(&gates(vec![("accuracy", JsonValue::Object(members(vec![(
            "min",
            JsonValue::Array(Vec::new())
        )])))])),
        "Gate 'accuracy' threshold must be a number."
    );
    assert_eq!(
        policy_error(&gates(vec![("accuracy", bound("max", f64::INFINITY))])),
        "Gate 'accuracy' threshold must be finite."
    );
    assert_eq!(
        policy_error(&gates(vec![
            ("a", JsonValue::Null),
            ("b", JsonValue::Object(Vec::new()))
        ])),
        "Gate 'a' must be an object."
    );
}

#[test]
fn parsed_policy_keeps_gate_order_and_bounds() {
    let policy =
        parse_policy(&gates(vec![("error_rate", bound("max", 0.01)), ("accuracy", bound("min", 0.9))]))
            .unwrap();
    assert_eq!(policy.gates.len(), 2);
    assert_eq!(policy.gates[0].metric, "error_rate");
    assert_eq!(policy.gates[0].operator, GateOperator::Max);
    assert_eq!(policy.gates[0].threshold, float(0.01));
    assert_eq!(policy.gates[1].operator.as_str(), "min");
}

#[test]
fn evaluation_errors_on_non_numeric_metric() {
    let policy = ReleasePolicy {
        gates: vec![PolicyGate {
            metric: "accuracy".to_owned(),
            operator: GateOperator::Min,
            threshold: float(0.5),
        }],
    };
    let error = evaluate_policy(
        &policy,
        &members(vec![("accuracy", JsonValue::String("high".to_owned()))]),
    )
    .unwrap_err();
    assert_eq!(error.0, "Metric 'accuracy' must be a number.");
    let error = evaluate_policy(&policy, &members(vec![("accuracy", number(f64::NAN))])).unwrap_err();
    assert_eq!(error.0, "Metric 'accuracy' must be finite.");
    let result = evaluate_policy(&policy, &members(vec![("accuracy", number(0.7))])).unwrap();
    assert!(result.passed);
    assert_eq!(result.results[0].actual, Some(float(0.7)));
    assert!(result.results[0].reason.is_none());
}

#[test]
fn failure_reason_lists_failed_gates_in_order() {
    let gate = |metric: &str, passed: bool| GateEvaluation {
        metric: metric.to_owned(),
        operator: GateOperator::Min,
        threshold: float(1.0),
        actual: None,
        passed,
        reason: None,
    };
    let evaluation = PolicyEvaluation {
        passed: false,
        results: vec![gate("a", false), gate("b", true), gate("c", false)],
    };
    assert_eq!(evaluation_failure_reason(&evaluation), "Policy evaluation failed for: a, c.");
}

#[test]
fn submitted_metrics_must_be_numbers() {
    let metrics = submitted_metrics(&members(vec![("a", number(1.5)), ("b", number(f64::INFINITY))]))
        .unwrap();
    assert_eq!(metrics.len(), 2);
    assert_eq!(metrics[1].1, float(f64::INFINITY));
    let error = submitted_metrics(&members(vec![("a", number(1.5)), ("b", JsonValue::Null)]))
        .unwrap_err();
    assert_eq!(error.0, "Metric 'b' must be a number.");
}

#[test]
fn find_member_returns_first_match() {
    let object = members(vec![("x", number(1.0)), ("y", number(2.0))]);
    assert_eq!(find_member(&object, "y"), Some(1));
    assert_eq!(find_member(&object, "z"), None);
}

#[test]
fn deploy_commands_follow_each_event() {
    assert!(matches!(next_deploy_command(DeployEvent::Started), DeployCommand::DeployCandidate));
    assert!(matches!(
        next_deploy_command(DeployEvent::CandidateDeployed(Ok(()))),
        DeployCommand::CheckCandidateHealth
    ));
    assert!(matches!(
        next_deploy_command(DeployEvent::HealthChecked(Ok(true))),
        DeployCommand::StartCanary
    ));
    assert!(matches!(
        next_deploy_command(DeployEvent::CanaryStarted(Ok(()))),
        DeployCommand::EnterCanary
    ));
    match next_deploy_command(DeployEvent::CandidateDeployed(Err(OrchestrationError(
        "no capacity".to_owned(),
    )))) {
        DeployCommand::Fail(message) => assert_eq!(message, "no capacity"),
        _ => panic!("a deploy error fails the release"),
    }
    match next_deploy_command(DeployEvent::HealthChecked(Ok(false))) {
        DeployCommand::Fail(message) => {
            assert_eq!(message, "Candidate did not pass the local health check.")
        }
        _ => panic!("an unhealthy candidate fails the release"),
    }
}

#[test]
fn failing_needs_a_state_that_can_fail() {
    let failed = fail_release(&release_in(ReleaseStatus::Canary), "boom".to_owned()).unwrap();
    assert_eq!(failed.status, ReleaseStatus::Failed);
    assert!(matches!(
        fail_release(&release_in(ReleaseStatus::Ready), "boom".to_owned()),
        Err(ServiceError::InvalidTransition(_))
    ));
    let settled = finish_deployment(&release_in(ReleaseStatus::Deploying), Ok(())).unwrap();
    assert_eq!(settled.status, ReleaseStatus::Canary);
}

#[test]
fn sqlite_urls_are_normalized() {
    assert_eq!(normalize_sqlite_url("sqlite:////tmp/x.db"), "sqlite:///tmp/x.db");
    assert_eq!(normalize_sqlite_url("sqlite:///./x.db"), "sqlite://./x.db");
    assert_eq!(normalize_sqlite_url("sqlite://x.db"), "sqlite://x.db");
    assert_eq!(normalize_sqlite_url("postgres://h/db"), "postgres://h/db");
    assert_eq!(
        normalize_sqlite_url("sqlite:////tmp/é.db"),
        "sqlite:///tmp/é.db"
    );
}

#[test]
fn stored_metrics_must_be_numbers() {
    let metrics = stored_metrics(&members(vec![("latency_p95", number(143.0))])).unwrap();
    assert_eq!(metrics[0].1, float(143.0));
    match stored_metrics(&members(vec![("latency_p95", JsonValue::Bool(false))])) {
        Err(RepositoryError::InvalidData(detail)) => {
            assert_eq!(detail, "metrics must contain numbers")
        }
        _ => panic!("a stored metric that is not a number is invalid data"),
    }
}

#[test]
fn repository_errors_have_prefixed_messages() {
    let error = RepositoryError::Database("pool timed out".to_owned());
    assert_eq!(error.to_string(), "database error: pool timed out");
    assert_eq!(
        RepositoryError::InvalidData("bad".to_owned()).to_string(),
        "invalid persisted release: bad"
    );
}

#[test]
fn settings_use_the_variable_or_the_default() {
    assert_eq!(Settings::from_variable(None).database_url, DEFAULT_DATABASE_URL);
    assert_eq!(
        Settings::from_variable(Some("sqlite://other.db".to_owned())).database_url,
        "sqlite://other.db"
    );
}

#[test]
fn submitted_fields_are_trimmed_and_bounded() {
    assert_eq!(validate_string(" fraud-model ".to_owned(), "model_name", 255).unwrap(), "fraud-model");
    let error = validate_string("   ".to_owned(), "version", 255).unwrap_err();
    assert_eq!(error.status, 422);
    assert_eq!(error.detail, "Invalid version.");
    assert!(validate_string("é".repeat(128), "model_name", 255).is_err());
    assert!(validate_string("é".repeat(127), "model_name", 255).is_ok());
    let request = ReleaseCreateRequest {
        model_name: " fraud-model ".to_owned(),
        version: "v2".to_owned(),
        image_uri: "registry.example/fraud-model:v2".to_owned(),
        artifact_uri: Some(" s3://bucket/model ".to_owned()),
        metadata: Metadata::new(),
    }
    .validate_and_trim()
    .unwrap();
    assert_eq!(request.model_name, "fraud-model");
    assert_eq!(request.artifact_uri.as_deref(), Some("s3://bucket/model"));
    let refused = ReleaseCreateRequest {
        model_name: "m".to_owned(),
        version: "v".to_owned(),
        image_uri: "i".to_owned(),
        artifact_uri: Some(String::new()),
        metadata: Metadata::new(),
    }
    .validate_and_trim()
    .unwrap_err();
    assert_eq!(refused.detail, "Invalid artifact_uri.");
}

#[test]
fn service_errors_get_their_http_answers() {
    let not_found =
        ApiError::from_service_error(ServiceError::NotFound(ReleaseNotFoundError("x".to_owned())));
    assert_eq!((not_found.status, not_found.detail.as_str()), (404, "Release 'x' was not found."));
    let conflict = ApiError::from_service_error(ServiceError::InvalidTransition(
        InvalidTransitionError { current: "READY".to_owned(), target: "VALIDATING".to_owned() },
    ));
    assert_eq!(conflict.status, 409);
    let invalid = ApiError::from_service_error(ServiceError::PolicyValidation(
        PolicyValidationError("bad".to_owned()),
    ));
    assert_eq!((invalid.status, invalid.detail.as_str()), (422, "bad"));
    let internal = ApiError::from_service_error(ServiceError::Repository(
        RepositoryError::InvalidData("broken".to_owned()),
    ));
    assert_eq!(
        (internal.status, internal.detail.as_str()),
        (500, "invalid persisted release: broken")
    );
    let missing = persisted_evaluation(release_in(ReleaseStatus::Ready)).unwrap_err();
    assert_eq!(missing.detail, "Release evaluation was not persisted.");
}

#[test]
fn new_releases_read_the_clock_and_get_fresh_identifiers() {
    let first = release_in(ReleaseStatus::Submitted);
    let second = release_in(ReleaseStatus::Submitted);
    assert!(first.created_at.seconds > 1_600_000_000);
    assert!(first.created_at.nanoseconds < 1_000_000_000);
    assert_ne!(first.release_id, second.release_id);
    assert_eq!(first.release_id.chars().filter(|c| *c == '-').count(), 4);
}

#[test]
fn release_copy_keeps_metadata() {
    let mut release = release_in(ReleaseStatus::Submitted);
    release.metadata.insert("owner".to_owned(), serde_json::Value::String("risk".to_owned()));
    let copy = release.clone();
    assert_eq!(copy.metadata, release.metadata);
    assert_eq!(copy, release);
}

#[test]
fn stored_timestamps_read_both_formats() {
    let modern = timestamp_from_database("2026-01-02T03:04:05.5+00:00").unwrap();
    assert_eq!(modern, Timestamp { seconds: 1_767_323_045, nanoseconds: 500_000_000 });
    let shifted = timestamp_from_database("2026-01-02T04:04:05+01:00").unwrap();
    assert_eq!(shifted.seconds, 1_767_323_045);
    let legacy = timestamp_from_database("2026-01-02 03:04:05.000000").unwrap();
    assert_eq!(legacy, Timestamp { seconds: 1_767_323_045, nanoseconds: 0 });
    match timestamp_from_database("yesterday") {
        Err(RepositoryError::InvalidData(detail)) => {
            assert!(detail.starts_with("invalid timestamp 'yesterday': "));
            assert!(detail.len() > "invalid timestamp 'yesterday': ".len());
        }
        _ => panic!("unreadable timestamps are invalid data"),
    }
    match legacy_timestamp("t", Err("bad".to_owned())) {
        Err(RepositoryError::InvalidData(detail)) => assert_eq!(detail, "invalid timestamp 't': bad"),
        _ => panic!("a failed reading is invalid data"),
    }
}

#[test]
fn stored_timestamps_are_written_in_rfc3339() {
    assert_eq!(
        timestamp_to_database(Timestamp { seconds: 0, nanoseconds: 0 }).unwrap(),
        "1970-01-01T00:00:00+00:00"
    );
    assert_eq!(
        timestamp_to_database(Timestamp { seconds: 1_767_323_045, nanoseconds: 500_000_000 })
            .unwrap(),
        "2026-01-02T03:04:05.500+00:00"
    );
    assert!(timestamp_to_database(Timestamp { seconds: i64::MAX, nanoseconds: 0 }).is_err());
    assert_eq!(stored_timestamp_text(Some("x".to_owned())).unwrap(), "x");
    let written = timestamp_to_database(Timestamp { seconds: 86_400, nanoseconds: 0 }).unwrap();
    assert_eq!(
        timestamp_from_database(&written).unwrap(),
        Timestamp { seconds: 86_400, nanoseconds: 0 }
    );
}

#[test]
fn database_errors_carry_sqlx_text() {
    let text = RepositoryError::Database(sqlx::Error::RowNotFound.to_string()).to_string();
    assert_eq!(text, format!("database error: {}", sqlx::Error::RowNotFound));
}

#[test]
fn migration_errors_carry_sqlx_text() {
    let error =
        RepositoryError::Migration(sqlx::migrate::MigrateError::VersionMissing(7).to_string());
    assert_eq!(
        error.to_string(),
        "migration error: migration 7 was previously applied but is missing in the resolved migrations"
    );
}

#[test]
fn release_identifiers_are_version_4_uuids() {
    for _ in 0..64 {
        let id = release_in(ReleaseStatus::Submitted).release_id;
        let chars: Vec<char> = id.chars().collect();
        assert_eq!(chars.len(), 36);
        for (i, c) in chars.iter().enumerate() {
            if [8, 13, 18, 23].contains(&i) {
                assert_eq!(*c, '-');
            } else {
                assert!(c.is_ascii_digit() || ('a'..='f').contains(c), "{id}");
            }
        }
        assert_eq!(chars[14], '4');
        assert!(['8', '9', 'a', 'b'].contains(&chars[19]), "{id}");
    }
}

#[test]
fn metrics_no_gate_names_do_not_change_the_evaluation() {
    let policy = parse_policy(&gates(vec![("accuracy", bound("min", 0.9))])).unwrap();
    let plain = evaluate_policy(&policy, &members(vec![("accuracy", number(0.95))])).unwrap();
    let padded = evaluate_policy(
        &policy,
        &members(vec![
            ("a_unrelated", JsonValue::String("x".to_owned())),
            ("accuracy", number(0.95)),
            ("zeta", JsonValue::Null),
        ]),
    )
    .unwrap();
    assert_eq!(plain, padded);
}

#[test]
fn stored_metrics_value_must_be_an_object() {
    match stored_metrics_value(&JsonValue::Array(Vec::new())) {
        Err(RepositoryError::InvalidData(detail)) => assert_eq!(detail, "metrics must be an object"),
        _ => panic!("stored metrics must be an object"),
    }
    let metrics =
        stored_metrics_value(&JsonValue::Object(members(vec![("a", number(1.0))]))).unwrap();
    assert_eq!(metrics[0].1, float(1.0));
}

#[test]
fn stored_timestamps_read_back_across_the_four_digit_years() {
    let instants = [
        Timestamp { seconds: -62_167_219_200, nanoseconds: 0 },
        Timestamp { seconds: 253_402_300_799, nanoseconds: 999_999_999 },
        Timestamp { seconds: 0, nanoseconds: 1 },
        Timestamp { seconds: 1_767_323_045, nanoseconds: 120_000 },
        Timestamp { seconds: -1, nanoseconds: 500_000_000 },
    ];
    for value in instants {
        let written = timestamp_to_database(value).unwrap();
        assert_eq!(timestamp_from_database(&written).unwrap(), value, "{written}");
    }
}

#[test]
fn clock_readings_are_after_the_epoch() {
    let release = release_in(ReleaseStatus::Submitted);
    let moved = release.transition_to(ReleaseStatus::Validating).unwrap();
    assert!(moved.updated_at.seconds >= release.created_at.seconds);
    assert!(moved.updated_at.nanoseconds < 1_000_000_000);
}

#[test]
fn metric_names_keep_submission_order() {
    let metrics = submitted_metrics(&members(vec![("accuracy", number(0.9)), ("latency", number(1.0))]))
        .unwrap();
    let names: Vec<&str> = metrics.iter().map(|(name, _)| name.as_str()).collect();
    assert_eq!(names, vec!["accuracy", "latency"]);
    let stored = stored_metrics(&members(vec![("b", number(2.0)), ("c", number(3.0))])).unwrap();
    assert_eq!(stored[0].0, "b");
    assert_eq!(stored[1].0, "c");
}
