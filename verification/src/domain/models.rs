//! The model release record and the changes the lifecycle makes to it.
use vstd::prelude::*;
use vstd::string::*;

use super::errors::InvalidTransitionError;
use super::policy::{
    GateEvaluation, PolicyEvaluation, PolicyEvaluationView, text_of,
};
use super::states::{ReleaseStatus, validate_transition};
use crate::json::Float64;

verus! {

broadcast use vstd::string::group_string_axioms;

/// `serde_json::Map`, held opaquely: release metadata is carried through
/// without being read.
#[verifier::external_type_specification]
#[verifier::external_body]
#[verifier::reject_recursive_types(K)]
#[verifier::reject_recursive_types(V)]
pub struct ExJsonMap<K, V>(serde_json::Map<K, V>);

/// `serde_json::Value`, held opaquely as the values of release metadata.
#[verifier::external_type_specification]
#[verifier::external_body]
pub struct ExJsonValue(serde_json::Value);

/// `Map::<String, Value>::clone` gives a map equal to the original: the
/// crate's impl clones the underlying map member by member.
pub assume_specification[ <serde_json::Map<String, serde_json::Value> as Clone>::clone ](
    map: &serde_json::Map<String, serde_json::Value>,
) -> (copy: serde_json::Map<String, serde_json::Value>)
    ensures
        copy == *map,
;

/// Free-form release metadata, carried through unchanged.
pub type Metadata = serde_json::Map<String, serde_json::Value>;

/// Submitted metric values by name, in submission order: the names of the
/// submitted JSON object, which are distinct and in key order when they come
/// from `serde_json` (see `lemma_metric_names_follow_members`).
pub type Metrics = Vec<(String, Float64)>;

/// A UTC instant: whole seconds since the Unix epoch and the nanoseconds
/// past them.
#[derive(Clone, Copy, Debug, PartialEq, Eq, Structural)]
pub struct Timestamp {
    pub seconds: i64,
    pub nanoseconds: u32,
}

impl Timestamp {
    /// What every reading of the system clock is: at or after the Unix epoch,
    /// with less than a second of nanoseconds.
    pub open spec fn is_clock_reading(self) -> bool {
        self.seconds >= 0 && self.nanoseconds < 1_000_000_000
    }
}

/// Reads the system clock through `chrono::Utc::now`. What instant comes
/// back is the machine's time and is not stated; that the nanoseconds stay
/// below one second is what `Utc::now` builds from `Duration::subsec_nanos`,
/// and the seconds are not negative because they count the time since the
/// epoch (`duration_since(UNIX_EPOCH)`; a count too large for `i64` would
/// wrap to a value `from_timestamp` refuses, and `Utc::now` would panic).
/// `Utc::now` panics when the clock reads before the Unix epoch, which no
/// precondition can rule out.
#[verifier::external_body]
pub(crate) fn current_time() -> (now: Timestamp)
    ensures
        now.is_clock_reading(),
{
    let now = chrono::Utc::now();
    Timestamp { seconds: now.timestamp(), nanoseconds: now.timestamp_subsec_nanos() }
}

/// A candidate model release and the evidence gathered about it.
#[derive(Debug, PartialEq)]
pub struct ModelRelease {
    pub release_id: String,
    pub model_name: String,
    pub version: String,
    pub image_uri: String,
    pub artifact_uri: Option<String>,
    pub status: ReleaseStatus,
    pub created_at: Timestamp,
    pub updated_at: Timestamp,
    pub metadata: Metadata,
    pub metrics: Metrics,
    pub evaluation: Option<PolicyEvaluation>,
    pub failure_reason: Option<String>,
}

/// A release as a mathematical value.
#[verifier::ext_equal]
pub struct ModelReleaseView {
    pub release_id: Seq<char>,
    pub model_name: Seq<char>,
    pub version: Seq<char>,
    pub image_uri: Seq<char>,
    pub artifact_uri: Option<Seq<char>>,
    pub status: ReleaseStatus,
    pub created_at: Timestamp,
    pub updated_at: Timestamp,
    pub metadata: Metadata,
    pub metrics: Seq<(Seq<char>, Float64)>,
    pub evaluation: Option<PolicyEvaluationView>,
    pub failure_reason: Option<Seq<char>>,
}

/// The metric values with their names as character sequences.
pub open spec fn metrics_view(metrics: Seq<(String, Float64)>) -> Seq<(Seq<char>, Float64)> {
    metrics.map_values(|m: (String, Float64)| (m.0@, m.1))
}

/// The names of the metric values, in order.
pub open spec fn metric_names(metrics: Seq<(Seq<char>, Float64)>) -> Seq<Seq<char>> {
    metrics.map_values(|m: (Seq<char>, Float64)| m.0)
}

/// The view of an optional evaluation.
pub open spec fn evaluation_view(evaluation: Option<PolicyEvaluation>) -> Option<
    PolicyEvaluationView,
> {
    match evaluation {
        Some(e) => Some(e@),
        None => None,
    }
}

impl View for ModelRelease {
    type V = ModelReleaseView;

    open spec fn view(&self) -> ModelReleaseView {
        ModelReleaseView {
            release_id: self.release_id@,
            model_name: self.model_name@,
            version: self.version@,
            image_uri: self.image_uri@,
            artifact_uri: text_of(self.artifact_uri),
            status: self.status,
            created_at: self.created_at,
            updated_at: self.updated_at,
            metadata: self.metadata,
            metrics: metrics_view(self.metrics@),
            evaluation: evaluation_view(self.evaluation),
            failure_reason: text_of(self.failure_reason),
        }
    }
}

impl ModelReleaseView {
    /// The release with a new status, touched at `at`.
    pub open spec fn moved_to(self, status: ReleaseStatus, at: Timestamp) -> ModelReleaseView {
        ModelReleaseView { status: status, updated_at: at, ..self }
    }

    /// The release with evaluation evidence recorded, touched at `at`.
    pub open spec fn evaluated(
        self,
        metrics: Seq<(Seq<char>, Float64)>,
        evaluation: PolicyEvaluationView,
        failure_reason: Option<Seq<char>>,
        at: Timestamp,
    ) -> ModelReleaseView {
        ModelReleaseView {
            metrics: metrics,
            evaluation: Some(evaluation),
            failure_reason: failure_reason,
            updated_at: at,
            ..self
        }
    }

    /// The release with a failure reason recorded, touched at `at`.
    pub open spec fn failed_with(self, reason: Seq<char>, at: Timestamp) -> ModelReleaseView {
        ModelReleaseView { failure_reason: Some(reason), updated_at: at, ..self }
    }
}

/// A release keeps its identity through every change the lifecycle makes:
/// transitions, recorded evaluations and recorded failures leave its
/// identifier, model, version, URIs, creation time and metadata as they were,
/// and only a transition changes its status.
pub proof fn lemma_changes_keep_identity(
    release: ModelReleaseView,
    status: ReleaseStatus,
    metrics: Seq<(Seq<char>, Float64)>,
    evaluation: PolicyEvaluationView,
    failure_reason: Option<Seq<char>>,
    reason: Seq<char>,
    at: Timestamp,
)
    ensures
        ({
            let changed = seq![
                release.moved_to(status, at),
                release.evaluated(metrics, evaluation, failure_reason, at),
                release.failed_with(reason, at),
            ];
            forall|i: int|
                0 <= i < 3 ==> {
                    let c = #[trigger] changed[i];
                    &&& c.release_id == release.release_id
                    &&& c.model_name == release.model_name
                    &&& c.version == release.version
                    &&& c.image_uri == release.image_uri
                    &&& c.artifact_uri == release.artifact_uri
                    &&& c.created_at == release.created_at
                    &&& c.metadata == release.metadata
                    &&& c.updated_at == at
                }
        }),
        release.evaluated(metrics, evaluation, failure_reason, at).status == release.status,
        release.failed_with(reason, at).status == release.status,
{
}

/// A copy of an optional string.
fn copy_text(value: &Option<String>) -> (copy: Option<String>)
    ensures
        text_of(copy) == text_of(*value),
{
    match value {
        Some(s) => Some(s.clone()),
        None => None,
    }
}

/// A copy of the metric values.
fn copy_metrics(metrics: &Metrics) -> (copy: Metrics)
    ensures
        metrics_view(copy@) == metrics_view(metrics@),
{
    let mut copy: Metrics = Vec::new();
    for i in 0..metrics.len()
        invariant
            copy@.len() == i,
            forall|j: int|
                0 <= j < i ==> (#[trigger] copy@[j]).0@ == metrics@[j].0@ && copy@[j].1
                    == metrics@[j].1,
    {
        copy.push((metrics[i].0.clone(), metrics[i].1));
    }
    assert(metrics_view(copy@) =~= metrics_view(metrics@));
    copy
}

impl Clone for GateEvaluation {
    fn clone(&self) -> (copy: Self)
        ensures
            copy@ == self@,
    {
        GateEvaluation {
            metric: self.metric.clone(),
            operator: self.operator,
            threshold: self.threshold,
            actual: self.actual,
            passed: self.passed,
            reason: copy_text(&self.reason),
        }
    }
}

impl Clone for PolicyEvaluation {
    fn clone(&self) -> (copy: Self)
        ensures
            copy@ == self@,
    {
        let mut results: Vec<GateEvaluation> = Vec::new();
        for i in 0..self.results.len()
            invariant
                results@.len() == i,
                forall|j: int| 0 <= j < i ==> (#[trigger] results@[j])@ == self.results@[j]@,
        {
            results.push(self.results[i].clone());
        }
        assert(results@.map_values(|g: GateEvaluation| g@) =~= self.results@.map_values(
            |g: GateEvaluation| g@,
        ));
        PolicyEvaluation { passed: self.passed, results }
    }
}

/// A copy of an optional evaluation.
fn copy_evaluation(evaluation: &Option<PolicyEvaluation>) -> (copy: Option<PolicyEvaluation>)
    ensures
        evaluation_view(copy) == evaluation_view(*evaluation),
{
    match evaluation {
        Some(e) => Some(e.clone()),
        None => None,
    }
}

impl Clone for ModelRelease {
    fn clone(&self) -> (copy: Self)
        ensures
            copy@ == self@,
    {
        ModelRelease {
            release_id: self.release_id.clone(),
            model_name: self.model_name.clone(),
            version: self.version.clone(),
            image_uri: self.image_uri.clone(),
            artifact_uri: copy_text(&self.artifact_uri),
            status: self.status,
            created_at: self.created_at,
            updated_at: self.updated_at,
            metadata: self.metadata.clone(),
            metrics: copy_metrics(&self.metrics),
            evaluation: copy_evaluation(&self.evaluation),
            failure_reason: copy_text(&self.failure_reason),
        }
    }
}

impl ModelRelease {
    /// The release in the `target` state, touched now; refused when the
    /// transition table has no edge from the current state to `target`.
    pub fn transition_to(&self, target: ReleaseStatus) -> (r: Result<
        ModelRelease,
        InvalidTransitionError,
    >)
        ensures
            r is Ok <==> self.status.allows(target),
            r matches Ok(moved) ==> moved@ == self@.moved_to(target, moved.updated_at)
                && moved.updated_at.is_clock_reading(),
            r matches Err(e) ==> e.current@ == self.status.name() && e.target@ == target.name(),
    {
        validate_transition(self.status, target)?;
        let mut moved = self.clone();
        moved.status = target;
        moved.updated_at = current_time();
        Ok(moved)
    }

    /// The release with the given metrics, evaluation and failure reason
    /// recorded, touched now.
    pub fn with_evaluation(
        &self,
        metrics: Metrics,
        evaluation: PolicyEvaluation,
        failure_reason: Option<String>,
    ) -> (updated: ModelRelease)
        ensures
            updated@ == self@.evaluated(
                metrics_view(metrics@),
                evaluation@,
                text_of(failure_reason),
                updated.updated_at,
            ),
            updated.updated_at.is_clock_reading(),
    {
        let mut updated = self.clone();
        updated.metrics = metrics;
        updated.evaluation = Some(evaluation);
        updated.failure_reason = failure_reason;
        updated.updated_at = current_time();
        updated
    }

    /// The release with `reason` recorded as its failure, touched now.
    pub fn with_failure(&self, reason: String) -> (updated: ModelRelease)
        ensures
            updated@ == self@.failed_with(reason@, updated.updated_at),
            updated.updated_at.is_clock_reading(),
    {
        let mut updated = self.clone();
        updated.failure_reason = Some(reason);
        updated.updated_at = current_time();
        updated
    }
}

} // verus!
