//! The decisions of the release service. The service itself reads and writes
//! the release store and drives the orchestrator; everything it decides in
//! between is here: what a new release holds, what an evaluation records and
//! where it moves the release, which orchestrator step comes next, and how a
//! deployment, promotion or rollback settles.
use vstd::prelude::*;
use vstd::string::*;

use crate::domain::errors::{
    InvalidTransitionError, OrchestrationError, PolicyValidationError, ReleaseNotFoundError,
};
use crate::domain::models::{
    Metadata, Metrics, ModelRelease, current_time, metric_names, metrics_view,
};
use crate::domain::policy::{
    GateEvaluationView, PolicyEvaluation, PolicyEvaluationView, ReleasePolicy,
    evaluate_policy, policy_evaluation,
};
use crate::domain::states::ReleaseStatus;
use crate::json::{Float64, JsonObject, JsonValue, member_names};
use crate::text::names_in_key_order;
use crate::repository::{RepositoryError, repository_message};

verus! {

broadcast use vstd::string::group_string_axioms;

/// Why a service operation failed.
#[derive(Debug)]
pub enum ServiceError {
    NotFound(ReleaseNotFoundError),
    InvalidTransition(InvalidTransitionError),
    PolicyValidation(PolicyValidationError),
    Repository(RepositoryError),
}

impl ServiceError {
    /// The message of the underlying error.
    pub fn to_string(&self) -> (text: String)
        ensures
            match self {
                ServiceError::NotFound(e) => text@ == "Release '"@ + e.0@ + "' was not found."@,
                ServiceError::InvalidTransition(e) => text@ == "Cannot transition release from "@
                    + e.current@ + " to "@ + e.target@ + "."@,
                ServiceError::PolicyValidation(e) => text@ == e.0@,
                ServiceError::Repository(e) => text@ == repository_message(*e),
            },
    {
        match self {
            ServiceError::NotFound(e) => e.to_string(),
            ServiceError::InvalidTransition(e) => e.to_string(),
            ServiceError::PolicyValidation(e) => e.to_string(),
            ServiceError::Repository(e) => e.to_string(),
        }
    }
}

/// A lowercase hexadecimal digit.
pub open spec fn is_lower_hex_digit(c: char) -> bool {
    let u = c as u32;
    (0x30 <= u <= 0x39) || (0x61 <= u <= 0x66)
}

/// The hyphenated lowercase form of a version 4 UUID: 36 characters,
/// hyphens at 8, 13, 18 and 23, lowercase hex digits elsewhere, the version
/// digit `4` at 14 and a variant digit among `8`, `9`, `a`, `b` at 19.
pub open spec fn is_uuid_v4_text(id: Seq<char>) -> bool {
    &&& id.len() == 36
    &&& forall|i: int|
        0 <= i < 36 ==> if i == 8 || i == 13 || i == 18 || i == 23 {
            #[trigger] id[i] == '-'
        } else {
            is_lower_hex_digit(id[i])
        }
    &&& id[14] == '4'
    &&& (id[19] == '8' || id[19] == '9' || id[19] == 'a' || id[19] == 'b')
}

/// A fresh release identifier from `uuid::Uuid::new_v4`, written by `Uuid`'s
/// `Display` in the hyphenated lowercase form. `new_v4` sets the version
/// nibble to 4 and the top variant bits to `10`, so the text is a version 4
/// UUID. Which identifier comes back is random and is not stated.
#[verifier::external_body]
fn new_release_id() -> (id: String)
    ensures
        is_uuid_v4_text(id@),
{
    uuid::Uuid::new_v4().to_string()
}

/// A newly registered release: `SUBMITTED`, created and updated at the same
/// instant, with a fresh identifier and no metrics, evaluation or failure.
pub fn new_release(
    model_name: String,
    version: String,
    image_uri: String,
    artifact_uri: Option<String>,
    metadata: Metadata,
) -> (release: ModelRelease)
    ensures
        is_uuid_v4_text(release.release_id@),
        release.model_name == model_name,
        release.version == version,
        release.image_uri == image_uri,
        release.artifact_uri == artifact_uri,
        release.status == ReleaseStatus::Submitted,
        release.created_at == release.updated_at,
        release.created_at.is_clock_reading(),
        release.metadata == metadata,
        release.metrics@.len() == 0,
        release.evaluation is None,
        release.failure_reason is None,
{
    let now = current_time();
    ModelRelease {
        release_id: new_release_id(),
        model_name,
        version,
        image_uri,
        artifact_uri,
        status: ReleaseStatus::Submitted,
        created_at: now,
        updated_at: now,
        metadata,
        metrics: Vec::new(),
        evaluation: None,
        failure_reason: None,
    }
}

/// The release the store found, or `NotFound` naming the identifier.
pub fn found_release(found: Option<ModelRelease>, release_id: &str) -> (r: Result<
    ModelRelease,
    ServiceError,
>)
    ensures
        match found {
            Some(release) => r matches Ok(got) && got == release,
            None => r matches Err(ServiceError::NotFound(e)) && e.0@ == release_id@,
        },
{
    match found {
        Some(release) => Ok(release),
        None => Err(ServiceError::NotFound(ReleaseNotFoundError(String::from_str(release_id)))),
    }
}

/// The names of the failed gates, in gate order.
pub open spec fn failed_metrics(results: Seq<GateEvaluationView>) -> Seq<Seq<char>>
    decreases results.len(),
{
    if results.len() == 0 {
        Seq::empty()
    } else if results.last().passed {
        failed_metrics(results.drop_last())
    } else {
        failed_metrics(results.drop_last()).push(results.last().metric)
    }
}

/// The parts separated by `separator`.
pub open spec fn joined(parts: Seq<Seq<char>>, separator: Seq<char>) -> Seq<char>
    decreases parts.len(),
{
    if parts.len() == 0 {
        Seq::empty()
    } else if parts.len() == 1 {
        parts[0]
    } else {
        joined(parts.drop_last(), separator) + separator + parts.last()
    }
}

/// `Policy evaluation failed for: <failed metrics, comma separated>.`
pub open spec fn failure_reason_text(results: Seq<GateEvaluationView>) -> Seq<char> {
    "Policy evaluation failed for: "@ + joined(failed_metrics(results), ", "@) + "."@
}

/// The failure reason recorded for a failed evaluation.
pub fn evaluation_failure_reason(evaluation: &PolicyEvaluation) -> (reason: String)
    ensures
        reason@ == failure_reason_text(evaluation@.results),
{
    let ghost results = evaluation@.results;
    let mut names = String::new();
    let mut count: usize = 0;
    let n = evaluation.results.len();
    proof {
        assert(results.take(0) =~= Seq::<GateEvaluationView>::empty());
    }
    for i in 0..n
        invariant
            n == evaluation.results@.len(),
            results == evaluation@.results,
            results.len() == n,
            count <= i,
            count == failed_metrics(results.take(i as int)).len(),
            names@ == joined(failed_metrics(results.take(i as int)), ", "@),
    {
        let ghost prefix = results.take(i as int);
        proof {
            assert(results.take(i + 1).drop_last() =~= prefix);
            assert(results.take(i + 1).last() == evaluation.results@[i as int]@);
        }
        if !evaluation.results[i].passed {
            let ghost parts = failed_metrics(prefix);
            let ghost metric = evaluation.results@[i as int].metric@;
            if count > 0 {
                names.append(", ");
            }
            names.append(evaluation.results[i].metric.as_str());
            count = count + 1;
            proof {
                assert(parts.push(metric).drop_last() =~= parts);
                if parts.len() == 0 {
                    assert(names@ =~= metric);
                }
            }
        }
    }
    proof {
        assert(results.take(n as int) =~= results);
    }
    let mut reason = String::from_str("Policy evaluation failed for: ");
    reason.append(names.as_str());
    reason.append(".");
    reason
}

/// The numbers of the submitted metrics, in submission order, or the message
/// for the first one that is not a number.
pub open spec fn submitted_metric_values(members: Seq<(String, JsonValue)>) -> Result<
    Seq<(Seq<char>, Float64)>,
    Seq<char>,
>
    decreases members.len(),
{
    if members.len() == 0 {
        Ok(Seq::empty())
    } else {
        match submitted_metric_values(members.drop_last()) {
            Err(message) => Err(message),
            Ok(values) => match members.last().1 {
                JsonValue::Number(n) => Ok(values.push((members.last().0@, n))),
                _ => Err("Metric '"@ + members.last().0@ + "' must be a number."@),
            },
        }
    }
}

/// The recorded metrics keep the submitted names in submission order, so
/// names that were distinct and ordered by key stay so.
pub proof fn lemma_metric_names_follow_members(members: Seq<(String, JsonValue)>)
    requires
        submitted_metric_values(members) is Ok,
    ensures
        submitted_metric_values(members)->Ok_0.len() == members.len(),
        forall|i: int|
            0 <= i < members.len() ==> (#[trigger] submitted_metric_values(members)->Ok_0[i]).0
                == members[i].0@,
    decreases members.len(),
{
    if members.len() > 0 {
        lemma_metric_names_follow_members(members.drop_last());
    }
}

/// Every recorded metric holds the number submitted under its own name, in
/// submission order; recording fails exactly when some submitted member is
/// not a number.
pub proof fn lemma_submitted_metrics_hold_their_own_numbers(members: Seq<(String, JsonValue)>)
    ensures
        submitted_metric_values(members) is Ok <==> (forall|i: int|
            0 <= i < members.len() ==> (#[trigger] members[i]).1 is Number),
        submitted_metric_values(members) matches Ok(values) ==> {
            &&& values.len() == members.len()
            &&& forall|i: int|
                0 <= i < members.len() ==> (#[trigger] values[i]).0 == members[i].0@ && members[i].1
                    == JsonValue::Number(values[i].1)
        },
    decreases members.len(),
{
    if members.len() > 0 {
        let rest = members.drop_last();
        lemma_submitted_metrics_hold_their_own_numbers(rest);
        assert forall|i: int| 0 <= i < rest.len() implies #[trigger] rest[i] == members[i] by {}
        if !(members.last().1 is Number) {
            assert(!(members[members.len() - 1].1 is Number));
        }
        if forall|i: int| 0 <= i < members.len() ==> (#[trigger] members[i]).1 is Number {
            assert forall|i: int| 0 <= i < rest.len() implies (#[trigger] rest[i]).1 is Number by {
                assert(rest[i] == members[i]);
            }
            assert(members.last() == members[members.len() - 1]);
        }
        if submitted_metric_values(members) is Ok {
            assert forall|i: int| 0 <= i < members.len() implies (#[trigger] members[i]).1 is Number by {
                if i < rest.len() {
                    assert(rest[i] == members[i]);
                } else {
                    assert(members[i] == members.last());
                }
            }
        }
        if submitted_metric_values(rest) is Err {
            let k = choose|k: int| 0 <= k < rest.len() && !((#[trigger] rest[k]).1 is Number);
            assert(members[k] == rest[k]);
        }
    }
}

proof fn lemma_submitted_error_stays(members: Seq<(String, JsonValue)>, k: int)
    requires
        0 <= k <= members.len(),
        submitted_metric_values(members.take(k)) is Err,
    ensures
        submitted_metric_values(members) == submitted_metric_values(members.take(k)),
    decreases members.len() - k,
{
    if k < members.len() {
        assert(members.take(k + 1).drop_last() =~= members.take(k));
        lemma_submitted_error_stays(members, k + 1);
    } else {
        assert(members.take(k) =~= members);
    }
}

/// The submitted metrics as numbers; every member must be a number.
pub fn submitted_metrics(members: &JsonObject) -> (r: Result<Metrics, PolicyValidationError>)
    ensures
        match submitted_metric_values(members@) {
            Ok(values) => r matches Ok(metrics) && metrics_view(metrics@) == values,
            Err(message) => r matches Err(e) && e.0@ == message,
        },
        r matches Ok(metrics) ==> metric_names(metrics_view(metrics@)) == member_names(members@),
        r matches Ok(metrics) ==> (names_in_key_order(member_names(members@)) ==> names_in_key_order(
            metric_names(metrics_view(metrics@)),
        )),
{
    let mut metrics: Metrics = Vec::new();
    let n = members.len();
    proof {
        assert(members@.take(0) =~= Seq::<(String, JsonValue)>::empty());
        assert(metrics_view(metrics@) =~= Seq::<(Seq<char>, Float64)>::empty());
    }
    for i in 0..n
        invariant
            n == members@.len(),
            submitted_metric_values(members@.take(i as int)) == Ok::<
                Seq<(Seq<char>, Float64)>,
                Seq<char>,
            >(metrics_view(metrics@)),
    {
        proof {
            assert(members@.take(i + 1).drop_last() =~= members@.take(i as int));
            assert(members@.take(i + 1).last() == members@[i as int]);
        }
        match &members[i].1 {
            JsonValue::Number(value) => {
                let ghost before = metrics@;
                metrics.push((members[i].0.clone(), *value));
                proof {
                    assert(metrics_view(metrics@) =~= metrics_view(before).push(
                        (members@[i as int].0@, *value),
                    ));
                }
            },
            _ => {
                proof {
                    lemma_submitted_error_stays(members@, i as int + 1);
                }
                let mut message = String::from_str("Metric '");
                message.append(members[i].0.as_str());
                message.append("' must be a number.");
                return Err(PolicyValidationError(message));
            },
        }
    }
    proof {
        assert(members@.take(n as int) =~= members@);
        lemma_metric_names_follow_members(members@);
        assert(metric_names(metrics_view(metrics@)) =~= member_names(members@));
    }
    Ok(metrics)
}

/// Where an evaluation moves a release: `READY` when every gate passed,
/// `REJECTED` otherwise.
pub open spec fn evaluation_target(passed: bool) -> ReleaseStatus {
    if passed {
        ReleaseStatus::Ready
    } else {
        ReleaseStatus::Rejected
    }
}

/// The failure reason an evaluation records: none when it passed.
pub open spec fn evaluation_reason(evaluation: PolicyEvaluationView) -> Option<Seq<char>> {
    if evaluation.passed {
        None
    } else {
        Some(failure_reason_text(evaluation.results))
    }
}

/// Completes the evaluation of a release that is being validated: evaluates
/// the policy, records the submitted metrics, the evaluation and, when a gate
/// failed, the failure reason, and moves the release to `READY` or
/// `REJECTED`.
pub fn finish_evaluation(
    validating: &ModelRelease,
    policy: &ReleasePolicy,
    raw_metrics: &JsonObject,
) -> (r: Result<ModelRelease, ServiceError>)
    ensures
        match policy_evaluation(policy@, raw_metrics@) {
            Err(message) => r matches Err(ServiceError::PolicyValidation(e)) && e.0@ == message,
            Ok(evaluation) => match submitted_metric_values(raw_metrics@) {
                Err(message) => r matches Err(ServiceError::PolicyValidation(e)) && e.0@
                    == message,
                Ok(values) => {
                    let target = evaluation_target(evaluation.passed);
                    if validating.status.allows(target) {
                        r matches Ok(done) && done@ == validating@.evaluated(
                            values,
                            evaluation,
                            evaluation_reason(evaluation),
                            done.updated_at,
                        ).moved_to(target, done.updated_at) && done.updated_at.is_clock_reading()
                    } else {
                        r matches Err(ServiceError::InvalidTransition(e)) && e.current@
                            == validating.status.name() && e.target@ == target.name()
                    }
                },
            },
        },
        validating.status == ReleaseStatus::Validating ==> !(r matches Err(
            ServiceError::InvalidTransition(_),
        )),
{
    let evaluation = match evaluate_policy(policy, raw_metrics) {
        Ok(evaluation) => evaluation,
        Err(e) => return Err(ServiceError::PolicyValidation(e)),
    };
    let metrics = match submitted_metrics(raw_metrics) {
        Ok(metrics) => metrics,
        Err(e) => return Err(ServiceError::PolicyValidation(e)),
    };
    let passed = evaluation.passed;
    let failure_reason = if passed {
        None
    } else {
        Some(evaluation_failure_reason(&evaluation))
    };
    let evaluated = validating.with_evaluation(metrics, evaluation, failure_reason);
    let target = if passed {
        ReleaseStatus::Ready
    } else {
        ReleaseStatus::Rejected
    };
    match evaluated.transition_to(target) {
        Ok(done) => Ok(done),
        Err(e) => Err(ServiceError::InvalidTransition(e)),
    }
}

/// An evaluation always settles a validating release: to `READY` exactly
/// when every gate passed, and to `REJECTED` with a failure reason
/// otherwise.
pub proof fn lemma_evaluation_decides_status(evaluation: PolicyEvaluationView)
    ensures
        ReleaseStatus::Validating.allows(evaluation_target(evaluation.passed)),
        evaluation_target(evaluation.passed) == ReleaseStatus::Ready <==> evaluation.passed,
        evaluation_target(evaluation.passed) == ReleaseStatus::Rejected <==> !evaluation.passed,
        evaluation_reason(evaluation) is None <==> evaluation.passed,
{
}

/// An evaluated release cannot be evaluated again: neither `READY` nor
/// `REJECTED` leads back to `VALIDATING`.
pub proof fn lemma_evaluated_release_cannot_be_reevaluated(evaluation: PolicyEvaluationView)
    ensures
        !evaluation_target(evaluation.passed).allows(ReleaseStatus::Validating),
{
}

/// What happened at the last step of a deployment.
pub enum DeployEvent {
    Started,
    CandidateDeployed(Result<(), OrchestrationError>),
    HealthChecked(Result<bool, OrchestrationError>),
    CanaryStarted(Result<(), OrchestrationError>),
}

/// What the service does next in a deployment.
pub enum DeployCommand {
    DeployCandidate,
    CheckCandidateHealth,
    StartCanary,
    EnterCanary,
    Fail(String),
}

/// The next step of a deployment: deploy, check health, start the canary,
/// then enter `CANARY`; the first orchestrator error, or an unhealthy
/// candidate, fails the release with that message.
pub fn next_deploy_command(event: DeployEvent) -> (command: DeployCommand)
    ensures
        match event {
            DeployEvent::Started => command is DeployCandidate,
            DeployEvent::CandidateDeployed(Ok(_)) => command is CheckCandidateHealth,
            DeployEvent::HealthChecked(Ok(true)) => command is StartCanary,
            DeployEvent::HealthChecked(Ok(false)) => command matches DeployCommand::Fail(m) && m@
                == "Candidate did not pass the local health check."@,
            DeployEvent::CanaryStarted(Ok(_)) => command is EnterCanary,
            DeployEvent::CandidateDeployed(Err(e)) => command matches DeployCommand::Fail(m) && m@
                == e.0@,
            DeployEvent::HealthChecked(Err(e)) => command matches DeployCommand::Fail(m) && m@
                == e.0@,
            DeployEvent::CanaryStarted(Err(e)) => command matches DeployCommand::Fail(m) && m@
                == e.0@,
        },
{
    match event {
        DeployEvent::Started => DeployCommand::DeployCandidate,
        DeployEvent::CandidateDeployed(Ok(())) => DeployCommand::CheckCandidateHealth,
        DeployEvent::HealthChecked(Ok(true)) => DeployCommand::StartCanary,
        DeployEvent::HealthChecked(Ok(false)) => DeployCommand::Fail(
            String::from_str("Candidate did not pass the local health check."),
        ),
        DeployEvent::CanaryStarted(Ok(())) => DeployCommand::EnterCanary,
        DeployEvent::CandidateDeployed(Err(e)) => DeployCommand::Fail(e.0),
        DeployEvent::HealthChecked(Err(e)) => DeployCommand::Fail(e.0),
        DeployEvent::CanaryStarted(Err(e)) => DeployCommand::Fail(e.0),
    }
}

/// Records `error` as the failure of the release and moves it to `FAILED`.
pub fn fail_release(release: &ModelRelease, error: String) -> (r: Result<
    ModelRelease,
    ServiceError,
>)
    ensures
        r is Ok <==> release.status.allows(ReleaseStatus::Failed),
        r matches Ok(failed) ==> failed@ == release@.failed_with(error@, failed.updated_at).moved_to(
            ReleaseStatus::Failed,
            failed.updated_at,
        ) && failed.updated_at.is_clock_reading(),
        r matches Err(e) ==> e matches ServiceError::InvalidTransition(t) && t.current@
            == release.status.name() && t.target@ == ReleaseStatus::Failed.name(),
{
    match release.with_failure(error).transition_to(ReleaseStatus::Failed) {
        Ok(failed) => Ok(failed),
        Err(e) => Err(ServiceError::InvalidTransition(e)),
    }
}

/// Settles a deployment: `CANARY` when every step succeeded, otherwise
/// `FAILED` with the message. From `DEPLOYING` it always settles.
pub fn finish_deployment(deploying: &ModelRelease, outcome: Result<(), String>) -> (r: Result<
    ModelRelease,
    ServiceError,
>)
    ensures
        match outcome {
            Ok(()) => {
                &&& r is Ok <==> deploying.status.allows(ReleaseStatus::Canary)
                &&& r matches Ok(done) ==> done@ == deploying@.moved_to(
                    ReleaseStatus::Canary,
                    done.updated_at,
                ) && done.updated_at.is_clock_reading()
                &&& r matches Err(e) ==> e matches ServiceError::InvalidTransition(t) && t.current@
                    == deploying.status.name() && t.target@ == ReleaseStatus::Canary.name()
            },
            Err(message) => {
                &&& r is Ok <==> deploying.status.allows(ReleaseStatus::Failed)
                &&& r matches Ok(failed) ==> failed@ == deploying@.failed_with(
                    message@,
                    failed.updated_at,
                ).moved_to(ReleaseStatus::Failed, failed.updated_at)
                    && failed.updated_at.is_clock_reading()
                &&& r matches Err(e) ==> e matches ServiceError::InvalidTransition(t) && t.current@
                    == deploying.status.name() && t.target@ == ReleaseStatus::Failed.name()
            },
        },
        deploying.status == ReleaseStatus::Deploying ==> r is Ok,
{
    match outcome {
        Ok(()) => match deploying.transition_to(ReleaseStatus::Canary) {
            Ok(done) => Ok(done),
            Err(e) => Err(ServiceError::InvalidTransition(e)),
        },
        Err(message) => fail_release(deploying, message),
    }
}

/// Settles a request to the orchestrator that should move the release to
/// `target`: on success the release moves there, on failure it fails with
/// the orchestrator's message.
fn finish_step(release: &ModelRelease, outcome: Result<(), OrchestrationError>, target: ReleaseStatus) -> (r: Result<
    ModelRelease,
    ServiceError,
>)
    ensures
        match outcome {
            Ok(()) => {
                &&& r is Ok <==> release.status.allows(target)
                &&& r matches Ok(done) ==> done@ == release@.moved_to(target, done.updated_at)
                    && done.updated_at.is_clock_reading()
                &&& r matches Err(e) ==> e matches ServiceError::InvalidTransition(t) && t.current@
                    == release.status.name() && t.target@ == target.name()
            },
            Err(error) => {
                &&& r is Ok <==> release.status.allows(ReleaseStatus::Failed)
                &&& r matches Ok(failed) ==> failed@ == release@.failed_with(
                    error.0@,
                    failed.updated_at,
                ).moved_to(ReleaseStatus::Failed, failed.updated_at)
                    && failed.updated_at.is_clock_reading()
                &&& r matches Err(e) ==> e matches ServiceError::InvalidTransition(t) && t.current@
                    == release.status.name() && t.target@ == ReleaseStatus::Failed.name()
            },
        },
{
    match outcome {
        Ok(()) => match release.transition_to(target) {
            Ok(done) => Ok(done),
            Err(e) => Err(ServiceError::InvalidTransition(e)),
        },
        Err(error) => fail_release(release, error.0),
    }
}

/// Settles a promotion: `PROMOTED` when the orchestrator promoted the
/// candidate, otherwise `FAILED` with the orchestrator's message.
pub fn finish_promotion(release: &ModelRelease, outcome: Result<(), OrchestrationError>) -> (r:
    Result<ModelRelease, ServiceError>)
    ensures
        match outcome {
            Ok(()) => {
                &&& r is Ok <==> release.status.allows(ReleaseStatus::Promoted)
                &&& r matches Ok(done) ==> done@ == release@.moved_to(
                    ReleaseStatus::Promoted,
                    done.updated_at,
                ) && done.updated_at.is_clock_reading()
                &&& r matches Err(e) ==> e matches ServiceError::InvalidTransition(t) && t.current@
                    == release.status.name() && t.target@ == ReleaseStatus::Promoted.name()
            },
            Err(error) => {
                &&& r is Ok <==> release.status.allows(ReleaseStatus::Failed)
                &&& r matches Ok(failed) ==> failed@ == release@.failed_with(
                    error.0@,
                    failed.updated_at,
                ).moved_to(ReleaseStatus::Failed, failed.updated_at)
                    && failed.updated_at.is_clock_reading()
                &&& r matches Err(e) ==> e matches ServiceError::InvalidTransition(t) && t.current@
                    == release.status.name() && t.target@ == ReleaseStatus::Failed.name()
            },
        },
        release.status == ReleaseStatus::Canary ==> r is Ok,
{
    finish_step(release, outcome, ReleaseStatus::Promoted)
}

/// Settles a rollback: `ROLLED_BACK` when the orchestrator rolled the
/// candidate back, otherwise `FAILED` with the orchestrator's message.
pub fn finish_rollback(release: &ModelRelease, outcome: Result<(), OrchestrationError>) -> (r:
    Result<ModelRelease, ServiceError>)
    ensures
        match outcome {
            Ok(()) => {
                &&& r is Ok <==> release.status.allows(ReleaseStatus::RolledBack)
                &&& r matches Ok(done) ==> done@ == release@.moved_to(
                    ReleaseStatus::RolledBack,
                    done.updated_at,
                ) && done.updated_at.is_clock_reading()
                &&& r matches Err(e) ==> e matches ServiceError::InvalidTransition(t) && t.current@
                    == release.status.name() && t.target@ == ReleaseStatus::RolledBack.name()
            },
            Err(error) => {
                &&& r is Ok <==> release.status.allows(ReleaseStatus::Failed)
                &&& r matches Ok(failed) ==> failed@ == release@.failed_with(
                    error.0@,
                    failed.updated_at,
                ).moved_to(ReleaseStatus::Failed, failed.updated_at)
                    && failed.updated_at.is_clock_reading()
                &&& r matches Err(e) ==> e matches ServiceError::InvalidTransition(t) && t.current@
                    == release.status.name() && t.target@ == ReleaseStatus::Failed.name()
            },
        },
        release.status == ReleaseStatus::Canary ==> r is Ok,
{
    finish_step(release, outcome, ReleaseStatus::RolledBack)
}

} // verus!
