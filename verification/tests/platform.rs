use ml_release_platform::application::{
    DeployCommand, DeployEvent, ServiceError, finish_deployment, finish_evaluation,
    finish_promotion, finish_rollback, found_release, new_release, next_deploy_command,
};
use ml_release_platform::domain::errors::OrchestrationError;
use ml_release_platform::domain::models::{Metadata, ModelRelease};
use ml_release_platform::domain::policy::{evaluate_policy, parse_policy};
use ml_release_platform::domain::states::ReleaseStatus;
use ml_release_platform::json::{Float64, JsonValue};
use ml_release_platform::orchestration::LocalReleaseOrchestrator;

fn number(value: f64) -> JsonValue {
    JsonValue::Number(Float64 { bits: value.to_bits() })
}

fn object(members: Vec<(&str, JsonValue)>) -> JsonValue {
    JsonValue::Object(members.into_iter().map(|(k, v)| (k.to_owned(), v)).collect())
}

fn members(value: JsonValue) -> Vec<(String, JsonValue)> {
    match value {
        JsonValue::Object(members) => members,
        _ => panic!("not an object"),
    }
}

fn policy() -> JsonValue {
    object(vec![(
        "gates",
        object(vec![
            ("accuracy", object(vec![("min", number(0.9))])),
            ("latency_p95", object(vec![("max", number(200.0))])),
        ]),
    )])
}

fn metrics() -> Vec<(String, JsonValue)> {
    members(object(vec![("accuracy", number(0.92)), ("latency_p95", number(143.0))]))
}

fn create_release() -> ModelRelease {
    let mut metadata = Metadata::new();
    metadata.insert("owner".to_owned(), serde_json::Value::String("risk".to_owned()));
    new_release(
        "fraud-model".to_owned(),
        "v2".to_owned(),
        "registry.example/fraud-model:v2".to_owned(),
        Some("s3://example-models/fraud/v2/model.pkl".to_owned()),
        metadata,
    )
}

fn evaluate(release: &ModelRelease, raw_metrics: Vec<(String, JsonValue)>, raw_policy: JsonValue) -> Result<ModelRelease, ServiceError> {
    let policy = parse_policy(&raw_policy).map_err(ServiceError::PolicyValidation)?;
    let validating = release
        .transition_to(ReleaseStatus::Validating)
        .map_err(ServiceError::InvalidTransition)?;
    finish_evaluation(&validating, &policy, &raw_metrics)
}

fn deploy(release: &ModelRelease, orchestrator: &LocalReleaseOrchestrator) -> Result<ModelRelease, ServiceError> {
    let deploying = release
        .transition_to(ReleaseStatus::Deploying)
        .map_err(ServiceError::InvalidTransition)?;
    let mut event = DeployEvent::Started;
    loop {
        event = match next_deploy_command(event) {
            DeployCommand::DeployCandidate => {
                DeployEvent::CandidateDeployed(orchestrator.deploy_candidate(&deploying))
            }
            DeployCommand::CheckCandidateHealth => {
                DeployEvent::HealthChecked(orchestrator.candidate_is_healthy(&deploying))
            }
            DeployCommand::StartCanary => {
                DeployEvent::CanaryStarted(orchestrator.start_canary(&deploying))
            }
            DeployCommand::EnterCanary => return finish_deployment(&deploying, Ok(())),
            DeployCommand::Fail(message) => return finish_deployment(&deploying, Err(message)),
        };
    }
}

#[test]
fn all_defined_transitions_are_allowed() {
    let transitions = [
        (ReleaseStatus::Submitted, ReleaseStatus::Validating),
        (ReleaseStatus::Validating, ReleaseStatus::Ready),
        (ReleaseStatus::Validating, ReleaseStatus::Rejected),
        (ReleaseStatus::Validating, ReleaseStatus::Failed),
        (ReleaseStatus::Ready, ReleaseStatus::Deploying),
        (ReleaseStatus::Deploying, ReleaseStatus::Canary),
        (ReleaseStatus::Deploying, ReleaseStatus::Failed),
        (ReleaseStatus::Canary, ReleaseStatus::Promoted),
        (ReleaseStatus::Canary, ReleaseStatus::RolledBack),
        (ReleaseStatus::Canary, ReleaseStatus::Failed),
    ];
    for (current, target) in transitions {
        assert!(current.can_transition_to(target));
    }
}

#[test]
fn terminal_states_and_invalid_transition_are_rejected() {
    assert!(!ReleaseStatus::Submitted.can_transition_to(ReleaseStatus::Ready));
    for status in [
        ReleaseStatus::Promoted,
        ReleaseStatus::Rejected,
        ReleaseStatus::RolledBack,
        ReleaseStatus::Failed,
    ] {
        assert!(status.is_terminal());
        assert!(!status.can_transition_to(ReleaseStatus::Failed));
    }
}

#[test]
fn policy_boundaries_results_and_missing_metrics_match_contract() {
    let parsed = parse_policy(&object(vec![(
        "gates",
        object(vec![
            ("accuracy", object(vec![("min", number(0.9))])),
            ("latency_p95", object(vec![("max", number(200.0))])),
        ]),
    )]))
    .unwrap();
    assert!(
        evaluate_policy(
            &parsed,
            &members(object(vec![("accuracy", number(0.9)), ("latency_p95", number(200.0))]))
        )
        .unwrap()
        .passed
    );
    let failed =
        evaluate_policy(&parsed, &members(object(vec![("accuracy", number(0.89))]))).unwrap();
    assert!(!failed.passed);
    assert!(!failed.results[0].passed);
    assert_eq!(
        failed.results[1].reason.as_deref(),
        Some("Required metric was not supplied.")
    );
}

#[test]
fn malformed_policies_are_rejected() {
    for policy in [
        object(vec![]),
        object(vec![("gates", object(vec![]))]),
        object(vec![("gates", object(vec![("accuracy", object(vec![]))]))]),
        object(vec![(
            "gates",
            object(vec![(
                "accuracy",
                object(vec![("max", number(1.0)), ("min", number(0.9))]),
            )]),
        )]),
        object(vec![(
            "gates",
            object(vec![("accuracy", object(vec![("min", JsonValue::String("0.9".to_owned()))]))]),
        )]),
        object(vec![(
            "gates",
            object(vec![(
                "accuracy",
                object(vec![("min", number(0.9)), ("unexpected", number(1.0))]),
            )]),
        )]),
        object(vec![("gates", object(vec![("accuracy", number(0.9))]))]),
    ] {
        assert!(parse_policy(&policy).is_err());
    }
}

#[test]
fn registered_release_is_found_and_missing_one_is_not() {
    let release = create_release();
    assert_eq!(release.status, ReleaseStatus::Submitted);
    assert_eq!(release.release_id.len(), 36);
    assert_eq!(release.created_at, release.updated_at);
    assert!(release.metrics.is_empty());
    assert!(release.evaluation.is_none());
    assert_eq!(release.metadata["owner"], "risk");
    let id = release.release_id.clone();
    let found = found_release(Some(release), &id).unwrap();
    assert_eq!(found.release_id, id);
    match found_release(None, "missing") {
        Err(ServiceError::NotFound(error)) => {
            assert_eq!(error.to_string(), "Release 'missing' was not found.")
        }
        _ => panic!("a missing release must be reported"),
    }
}

#[test]
fn passing_evaluation_records_evidence_and_blocks_reevaluation() {
    let release = create_release();
    let evaluated = evaluate(&release, metrics(), policy()).unwrap();
    assert_eq!(evaluated.status, ReleaseStatus::Ready);
    assert!(evaluated.evaluation.as_ref().unwrap().passed);
    assert!(evaluated.failure_reason.is_none());
    let latency = evaluated
        .metrics
        .iter()
        .find(|(name, _)| name == "latency_p95")
        .map(|(_, value)| f64::from_bits(value.bits))
        .unwrap();
    assert!((latency - 143.0).abs() < f64::EPSILON);
    assert_eq!(evaluated.release_id, release.release_id);
    assert!(matches!(
        evaluate(&evaluated, metrics(), policy()),
        Err(ServiceError::InvalidTransition(_))
    ));
}

#[test]
fn failed_evaluation_rejects_and_malformed_policy_changes_nothing() {
    let release = create_release();
    let rejected = evaluate(
        &release,
        members(object(vec![("accuracy", number(0.92))])),
        policy(),
    )
    .unwrap();
    assert_eq!(rejected.status, ReleaseStatus::Rejected);
    assert_eq!(
        rejected.failure_reason.as_deref(),
        Some("Policy evaluation failed for: latency_p95.")
    );
    let fresh = create_release();
    assert!(matches!(
        evaluate(&fresh, metrics(), object(vec![("gates", object(vec![]))])),
        Err(ServiceError::PolicyValidation(_))
    ));
    assert_eq!(fresh.status, ReleaseStatus::Submitted);
}

#[test]
fn local_orchestration_settles_promotion_rollback_and_unhealthy_candidates() {
    let healthy = LocalReleaseOrchestrator::default();
    let release = evaluate(&create_release(), metrics(), policy()).unwrap();
    let canary = deploy(&release, &healthy).unwrap();
    assert_eq!(canary.status, ReleaseStatus::Canary);
    let promoted = finish_promotion(&canary, healthy.promote_candidate(&canary)).unwrap();
    assert_eq!(promoted.status, ReleaseStatus::Promoted);

    let other = evaluate(&create_release(), metrics(), policy()).unwrap();
    let canary = deploy(&other, &healthy).unwrap();
    let rolled_back = finish_rollback(&canary, healthy.rollback_candidate(&canary)).unwrap();
    assert_eq!(rolled_back.status, ReleaseStatus::RolledBack);

    let unhealthy = LocalReleaseOrchestrator::new(false);
    let candidate = evaluate(&create_release(), metrics(), policy()).unwrap();
    let failed = deploy(&candidate, &unhealthy).unwrap();
    assert_eq!(failed.status, ReleaseStatus::Failed);
    assert_eq!(
        failed.failure_reason.as_deref(),
        Some("Candidate did not pass the local health check.")
    );
}

#[test]
fn orchestrator_failure_fails_a_canary_release() {
    let healthy = LocalReleaseOrchestrator::default();
    let release = evaluate(&create_release(), metrics(), policy()).unwrap();
    let canary = deploy(&release, &healthy).unwrap();
    let failed = finish_promotion(&canary, Err(OrchestrationError("promotion refused".to_owned())))
        .unwrap();
    assert_eq!(failed.status, ReleaseStatus::Failed);
    assert_eq!(failed.failure_reason.as_deref(), Some("promotion refused"));
    let submitted = create_release();
    match finish_promotion(&submitted, Ok(())) {
        Err(ServiceError::InvalidTransition(error)) => assert_eq!(
            error.to_string(),
            "Cannot transition release from SUBMITTED to PROMOTED."
        ),
        _ => panic!("a submitted release cannot be promoted"),
    }
}
