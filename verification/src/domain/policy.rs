//! Deterministic metric-gate parsing and evaluation.
use vstd::prelude::*;
use vstd::string::*;

use super::errors::PolicyValidationError;
use crate::json::{Float64, JsonObject, JsonValue, find_member, lookup};
use crate::text::{is_blank, text_equals, trim};

verus! {

broadcast use vstd::string::group_string_axioms;

/// Whether a gate sets a lower or an upper bound.
#[derive(Clone, Copy, Debug, PartialEq, Eq, Structural)]
pub enum GateOperator {
    Min,
    Max,
}

impl GateOperator {
    /// The key under which the bound is written in a policy.
    pub open spec fn name(self) -> Seq<char> {
        match self {
            GateOperator::Min => "min"@,
            GateOperator::Max => "max"@,
        }
    }

    /// The bound named `text`, if any.
    pub fn from_name(text: &str) -> (r: Option<GateOperator>)
        ensures
            match r {
                Some(operator) => operator.name() == text@,
                None => text@ != "min"@ && text@ != "max"@,
            },
    {
        if text_equals(text, "min") {
            Some(GateOperator::Min)
        } else if text_equals(text, "max") {
            Some(GateOperator::Max)
        } else {
            None
        }
    }

    /// `min` or `max`.
    pub fn as_str(self) -> (s: &'static str)
        ensures
            s@ == self.name(),
    {
        match self {
            GateOperator::Min => "min",
            GateOperator::Max => "max",
        }
    }
}

/// One bound on one metric.
#[derive(Clone, Debug, PartialEq)]
pub struct PolicyGate {
    pub metric: String,
    pub operator: GateOperator,
    pub threshold: Float64,
}

/// The gates of a policy, in the order the policy lists them.
#[derive(Clone, Debug, PartialEq)]
pub struct ReleasePolicy {
    pub gates: Vec<PolicyGate>,
}

/// The outcome of one gate.
#[derive(Debug, PartialEq)]
pub struct GateEvaluation {
    pub metric: String,
    pub operator: GateOperator,
    pub threshold: Float64,
    pub actual: Option<Float64>,
    pub passed: bool,
    pub reason: Option<String>,
}

/// The outcome of every gate of a policy, in gate order.
#[derive(Debug, PartialEq)]
pub struct PolicyEvaluation {
    pub passed: bool,
    pub results: Vec<GateEvaluation>,
}

/// A gate as a mathematical value.
pub struct GateView {
    pub metric: Seq<char>,
    pub operator: GateOperator,
    pub threshold: Float64,
}

/// A gate outcome as a mathematical value.
pub struct GateEvaluationView {
    pub metric: Seq<char>,
    pub operator: GateOperator,
    pub threshold: Float64,
    pub actual: Option<Float64>,
    pub passed: bool,
    pub reason: Option<Seq<char>>,
}

/// A policy outcome as a mathematical value.
pub struct PolicyEvaluationView {
    pub passed: bool,
    pub results: Seq<GateEvaluationView>,
}

/// The characters of an optional string.
pub open spec fn text_of(value: Option<String>) -> Option<Seq<char>> {
    match value {
        Some(s) => Some(s@),
        None => None,
    }
}

impl View for PolicyGate {
    type V = GateView;

    open spec fn view(&self) -> GateView {
        GateView { metric: self.metric@, operator: self.operator, threshold: self.threshold }
    }
}

impl View for ReleasePolicy {
    type V = Seq<GateView>;

    open spec fn view(&self) -> Seq<GateView> {
        self.gates@.map_values(|g: PolicyGate| g@)
    }
}

impl View for GateEvaluation {
    type V = GateEvaluationView;

    open spec fn view(&self) -> GateEvaluationView {
        GateEvaluationView {
            metric: self.metric@,
            operator: self.operator,
            threshold: self.threshold,
            actual: self.actual,
            passed: self.passed,
            reason: text_of(self.reason),
        }
    }
}

impl View for PolicyEvaluation {
    type V = PolicyEvaluationView;

    open spec fn view(&self) -> PolicyEvaluationView {
        PolicyEvaluationView {
            passed: self.passed,
            results: self.results@.map_values(|g: GateEvaluation| g@),
        }
    }
}

/// The finite number a JSON value holds, or the message naming `field`.
pub open spec fn number_of(value: JsonValue, field: Seq<char>) -> Result<Float64, Seq<char>> {
    match value {
        JsonValue::Number(n) => if n.finite() {
            Ok(n)
        } else {
            Err(field + " must be finite."@)
        },
        _ => Err(field + " must be a number."@),
    }
}

/// The single bound of a gate object: exactly one member, `min` or `max`.
pub open spec fn single_bound(members: Seq<(String, JsonValue)>) -> Option<
    (GateOperator, JsonValue),
> {
    let min = lookup(members, "min"@);
    let max = lookup(members, "max"@);
    if members.len() != 1 {
        None
    } else if min is Some && max is None {
        Some((GateOperator::Min, min->0))
    } else if min is None && max is Some {
        Some((GateOperator::Max, max->0))
    } else {
        None
    }
}

/// The metric gate for the policy member `metric` with bound object `raw_gate`,
/// or the rejection message.
pub open spec fn gate_from_member(metric: Seq<char>, raw_gate: JsonValue) -> Result<
    GateView,
    Seq<char>,
> {
    if trim(metric).len() == 0 {
        Err("Policy gate names must be non-empty strings."@)
    } else {
        match raw_gate {
            JsonValue::Object(members) => match single_bound(members@) {
                None => Err(
                    "Gate '"@ + metric + "' must contain exactly one of 'min' or 'max'."@,
                ),
                Some(bound) => match number_of(bound.1, "Gate '"@ + metric + "' threshold"@) {
                    Ok(threshold) => Ok(
                        GateView { metric: metric, operator: bound.0, threshold: threshold },
                    ),
                    Err(message) => Err(message),
                },
            },
            _ => Err("Gate '"@ + metric + "' must be an object."@),
        }
    }
}

/// The gates of the members, in order; the first malformed member decides
/// the message.
pub open spec fn gates_from_members(members: Seq<(String, JsonValue)>) -> Result<
    Seq<GateView>,
    Seq<char>,
>
    decreases members.len(),
{
    if members.len() == 0 {
        Ok(Seq::empty())
    } else {
        match gates_from_members(members.drop_last()) {
            Err(message) => Err(message),
            Ok(gates) => match gate_from_member(members.last().0@, members.last().1) {
                Ok(gate) => Ok(gates.push(gate)),
                Err(message) => Err(message),
            },
        }
    }
}

/// The gates of a raw policy `{"gates": {<metric>: {"min" | "max": <number>}, ...}}`,
/// or the message that rejects it.
pub open spec fn policy_from_json(raw: JsonValue) -> Result<Seq<GateView>, Seq<char>> {
    match raw {
        JsonValue::Object(members) => {
            let gates = lookup(members@, "gates"@);
            if members@.len() != 1 || gates is None {
                Err("Policy must contain exactly one 'gates' field."@)
            } else {
                match gates->0 {
                    JsonValue::Object(gate_members) => if gate_members@.len() == 0 {
                        Err("Policy gates must be a non-empty object."@)
                    } else {
                        gates_from_members(gate_members@)
                    },
                    _ => Err("Policy gates must be a non-empty object."@),
                }
            }
        },
        _ => Err("Policy must be an object."@),
    }
}

/// Whether `actual` satisfies the bound.
pub open spec fn gate_passes(operator: GateOperator, actual: Float64, threshold: Float64) -> bool {
    match operator {
        GateOperator::Min => actual.spec_at_least(threshold),
        GateOperator::Max => actual.spec_at_most(threshold),
    }
}

/// The outcome of one gate against the submitted metrics. A missing metric
/// fails its gate; a value other than a finite number is an error.
pub open spec fn evaluate_gate(gate: GateView, metrics: Seq<(String, JsonValue)>) -> Result<
    GateEvaluationView,
    Seq<char>,
> {
    match lookup(metrics, gate.metric) {
        None => Ok(
            GateEvaluationView {
                metric: gate.metric,
                operator: gate.operator,
                threshold: gate.threshold,
                actual: None,
                passed: false,
                reason: Some("Required metric was not supplied."@),
            },
        ),
        Some(value) => match number_of(value, "Metric '"@ + gate.metric + "'"@) {
            Err(message) => Err(message),
            Ok(actual) => Ok(
                GateEvaluationView {
                    metric: gate.metric,
                    operator: gate.operator,
                    threshold: gate.threshold,
                    actual: Some(actual),
                    passed: gate_passes(gate.operator, actual, gate.threshold),
                    reason: None,
                },
            ),
        },
    }
}

/// The outcomes of the gates, in order; the first error decides the message.
pub open spec fn evaluate_gates(gates: Seq<GateView>, metrics: Seq<(String, JsonValue)>) -> Result<
    Seq<GateEvaluationView>,
    Seq<char>,
>
    decreases gates.len(),
{
    if gates.len() == 0 {
        Ok(Seq::empty())
    } else {
        match evaluate_gates(gates.drop_last(), metrics) {
            Err(message) => Err(message),
            Ok(results) => match evaluate_gate(gates.last(), metrics) {
                Ok(result) => Ok(results.push(result)),
                Err(message) => Err(message),
            },
        }
    }
}

/// Whether every gate passed.
pub open spec fn all_passed(results: Seq<GateEvaluationView>) -> bool {
    forall|i: int| 0 <= i < results.len() ==> #[trigger] results[i].passed
}

/// The evaluation of a policy: every gate outcome, passed when all passed.
pub open spec fn policy_evaluation(gates: Seq<GateView>, metrics: Seq<(String, JsonValue)>) -> Result<
    PolicyEvaluationView,
    Seq<char>,
> {
    match evaluate_gates(gates, metrics) {
        Ok(results) => Ok(PolicyEvaluationView { passed: all_passed(results), results: results }),
        Err(message) => Err(message),
    }
}

fn message_with(field: &str, suffix: &str) -> (text: String)
    ensures
        text@ == field@ + suffix@,
{
    let mut text = String::from_str(field);
    text.append(suffix);
    text
}

fn quoted(before: &str, name: &str, after: &str) -> (text: String)
    ensures
        text@ == before@ + name@ + after@,
{
    let mut text = String::from_str(before);
    text.append(name);
    text.append(after);
    text
}

fn as_number(value: &JsonValue, field_name: &str) -> (r: Result<Float64, PolicyValidationError>)
    ensures
        match r {
            Ok(n) => number_of(*value, field_name@) == Ok::<Float64, Seq<char>>(n),
            Err(e) => number_of(*value, field_name@) == Err::<Float64, Seq<char>>(e.0@),
        },
{
    match value {
        JsonValue::Number(n) => {
            if n.is_finite() {
                Ok(*n)
            } else {
                Err(PolicyValidationError(message_with(field_name, " must be finite.")))
            }
        },
        _ => Err(PolicyValidationError(message_with(field_name, " must be a number."))),
    }
}

fn parse_gate(metric: &String, raw_gate: &JsonValue) -> (r: Result<PolicyGate, PolicyValidationError>)
    ensures
        match r {
            Ok(g) => gate_from_member(metric@, *raw_gate) == Ok::<GateView, Seq<char>>(g@),
            Err(e) => gate_from_member(metric@, *raw_gate) == Err::<GateView, Seq<char>>(e.0@),
        },
{
    if is_blank(metric.as_str()) {
        return Err(
            PolicyValidationError(String::from_str("Policy gate names must be non-empty strings.")),
        );
    }
    let members = match raw_gate {
        JsonValue::Object(members) => members,
        _ => {
            return Err(
                PolicyValidationError(
                    quoted("Gate '", metric.as_str(), "' must be an object."),
                ),
            );
        },
    };
    let min = find_member(members, "min");
    let max = find_member(members, "max");
    let (operator, raw_threshold) = if members.len() == 1 && min.is_some() && max.is_none() {
        (GateOperator::Min, &members[min.unwrap()].1)
    } else if members.len() == 1 && min.is_none() && max.is_some() {
        (GateOperator::Max, &members[max.unwrap()].1)
    } else {
        return Err(
            PolicyValidationError(
                quoted(
                    "Gate '",
                    metric.as_str(),
                    "' must contain exactly one of 'min' or 'max'.",
                ),
            ),
        );
    };
    let field = quoted("Gate '", metric.as_str(), "' threshold");
    let threshold = as_number(raw_threshold, field.as_str())?;
    Ok(PolicyGate { metric: metric.clone(), operator, threshold })
}

/// Parses a raw policy into its gates, or rejects it with the message that
/// `policy_from_json` gives.
pub fn parse_policy(raw_policy: &JsonValue) -> (r: Result<ReleasePolicy, PolicyValidationError>)
    ensures
        match r {
            Ok(policy) => policy_from_json(*raw_policy) == Ok::<Seq<GateView>, Seq<char>>(policy@),
            Err(e) => policy_from_json(*raw_policy) == Err::<Seq<GateView>, Seq<char>>(e.0@),
        },
{
    let policy = match raw_policy {
        JsonValue::Object(members) => members,
        _ => return Err(PolicyValidationError(String::from_str("Policy must be an object."))),
    };
    let gates_at = find_member(policy, "gates");
    if policy.len() != 1 || gates_at.is_none() {
        return Err(
            PolicyValidationError(
                String::from_str("Policy must contain exactly one 'gates' field."),
            ),
        );
    }
    let gates = match &policy[gates_at.unwrap()].1 {
        JsonValue::Object(gates) => gates,
        _ => {
            return Err(
                PolicyValidationError(String::from_str("Policy gates must be a non-empty object.")),
            );
        },
    };
    if gates.len() == 0 {
        return Err(
            PolicyValidationError(String::from_str("Policy gates must be a non-empty object.")),
        );
    }
    let mut parsed: Vec<PolicyGate> = Vec::new();
    let n = gates.len();
    proof {
        assert(gates@.take(0) =~= Seq::<(String, JsonValue)>::empty());
        assert(parsed@.map_values(|g: PolicyGate| g@) =~= Seq::<GateView>::empty());
    }
    for i in 0..n
        invariant
            n == gates@.len(),
            policy_from_json(*raw_policy) == gates_from_members(gates@),
            gates_from_members(gates@.take(i as int)) == Ok::<Seq<GateView>, Seq<char>>(
                parsed@.map_values(|g: PolicyGate| g@),
            ),
    {
        proof {
            assert(gates@.take(i + 1).drop_last() =~= gates@.take(i as int));
        }
        let gate = match parse_gate(&gates[i].0, &gates[i].1) {
            Ok(gate) => gate,
            Err(e) => {
                proof {
                    assert(gates@.take(i + 1).last() == gates@[i as int]);
                    assert(gates_from_members(gates@.take(i + 1)) == Err::<Seq<GateView>, Seq<char>>(
                        e.0@,
                    ));
                    lemma_first_error_stays(gates@, i as int + 1);
                }
                return Err(e);
            },
        };
        let ghost before = parsed@;
        parsed.push(gate);
        proof {
            assert(gates@.take(i + 1).last() == gates@[i as int]);
            assert(parsed@.map_values(|g: PolicyGate| g@) =~= before.map_values(|g: PolicyGate| g@).push(
                gate@,
            ));
        }
    }
    proof {
        assert(gates@.take(n as int) =~= gates@);
    }
    Ok(ReleasePolicy { gates: parsed })
}

/// Once a prefix of the members is rejected, so are the members.
proof fn lemma_first_error_stays(members: Seq<(String, JsonValue)>, k: int)
    requires
        0 <= k <= members.len(),
        gates_from_members(members.take(k)) is Err,
    ensures
        gates_from_members(members) == gates_from_members(members.take(k)),
    decreases members.len() - k,
{
    if k < members.len() {
        assert(members.take(k + 1).drop_last() =~= members.take(k));
        lemma_first_error_stays(members, k + 1);
    } else {
        assert(members.take(k) =~= members);
    }
}

fn evaluate_one(gate: &PolicyGate, metrics: &JsonObject) -> (r: Result<
    GateEvaluation,
    PolicyValidationError,
>)
    ensures
        match r {
            Ok(e) => evaluate_gate(gate@, metrics@) == Ok::<GateEvaluationView, Seq<char>>(e@),
            Err(err) => evaluate_gate(gate@, metrics@) == Err::<GateEvaluationView, Seq<char>>(
                err.0@,
            ),
        },
{
    match find_member(metrics, gate.metric.as_str()) {
        None => Ok(
            GateEvaluation {
                metric: gate.metric.clone(),
                operator: gate.operator,
                threshold: gate.threshold,
                actual: None,
                passed: false,
                reason: Some(String::from_str("Required metric was not supplied.")),
            },
        ),
        Some(i) => {
            let field = quoted("Metric '", gate.metric.as_str(), "'");
            let actual = as_number(&metrics[i].1, field.as_str())?;
            let passed = match gate.operator {
                GateOperator::Min => actual.at_least(&gate.threshold),
                GateOperator::Max => actual.at_most(&gate.threshold),
            };
            Ok(
                GateEvaluation {
                    metric: gate.metric.clone(),
                    operator: gate.operator,
                    threshold: gate.threshold,
                    actual: Some(actual),
                    passed,
                    reason: None,
                },
            )
        },
    }
}

/// Evaluates every gate of the policy against the submitted metrics, as
/// `policy_evaluation` states.
pub fn evaluate_policy(policy: &ReleasePolicy, metrics: &JsonObject) -> (r: Result<
    PolicyEvaluation,
    PolicyValidationError,
>)
    ensures
        match r {
            Ok(e) => policy_evaluation(policy@, metrics@) == Ok::<PolicyEvaluationView, Seq<char>>(
                e@,
            ),
            Err(err) => policy_evaluation(policy@, metrics@) == Err::<
                PolicyEvaluationView,
                Seq<char>,
            >(err.0@),
        },
{
    let mut results: Vec<GateEvaluation> = Vec::new();
    let mut passed = true;
    let n = policy.gates.len();
    proof {
        assert(policy@.take(0) =~= Seq::<GateView>::empty());
        assert(results@.map_values(|g: GateEvaluation| g@) =~= Seq::<GateEvaluationView>::empty());
    }
    for i in 0..n
        invariant
            n == policy.gates@.len(),
            n == policy@.len(),
            evaluate_gates(policy@.take(i as int), metrics@) == Ok::<
                Seq<GateEvaluationView>,
                Seq<char>,
            >(results@.map_values(|g: GateEvaluation| g@)),
            passed == all_passed(results@.map_values(|g: GateEvaluation| g@)),
    {
        proof {
            assert(policy@.take(i + 1).drop_last() =~= policy@.take(i as int));
            assert(policy@.take(i + 1).last() == policy.gates@[i as int]@);
        }
        let result = match evaluate_one(&policy.gates[i], metrics) {
            Ok(result) => result,
            Err(e) => {
                proof {
                    lemma_evaluation_error_stays(policy@, metrics@, i as int + 1);
                }
                return Err(e);
            },
        };
        let ghost before = results@.map_values(|g: GateEvaluation| g@);
        passed = passed && result.passed;
        results.push(result);
        proof {
            let after = results@.map_values(|g: GateEvaluation| g@);
            assert(after =~= before.push(result@));
            if passed {
                assert forall|k: int| 0 <= k < after.len() implies #[trigger] after[k].passed by {
                    if k < before.len() {
                        assert(after[k] == before[k]);
                    }
                }
            } else {
                if !result.passed {
                    assert(!after[after.len() - 1].passed);
                } else {
                    let k = choose|k: int| 0 <= k < before.len() && !#[trigger] before[k].passed;
                    assert(after[k] == before[k]);
                }
            }
        }
    }
    proof {
        assert(policy@.take(n as int) =~= policy@);
    }
    Ok(PolicyEvaluation { passed, results })
}

/// Gate bounds are inclusive: a metric equal to its threshold passes a `min`
/// gate and a `max` gate alike, and so do the two zeros against each other.
pub proof fn lemma_gate_bounds_are_inclusive(value: Float64, threshold: Float64)
    requires
        !value.nan(),
        value.order_key() == threshold.order_key(),
    ensures
        gate_passes(GateOperator::Min, value, threshold),
        gate_passes(GateOperator::Max, value, threshold),
{
}

/// A metric that was not submitted fails its gate, with the reason
/// recorded, and never makes the evaluation an error.
pub proof fn lemma_missing_metric_fails_gate(gate: GateView, metrics: Seq<(String, JsonValue)>)
    requires
        lookup(metrics, gate.metric) is None,
    ensures
        evaluate_gate(gate, metrics) matches Ok(result) && !result.passed && result.actual is None
            && result.reason == Some("Required metric was not supplied."@),
{
}

/// A parsed policy has one gate per member of `gates`, in the same order,
/// named after the member.
pub proof fn lemma_one_gate_per_member(members: Seq<(String, JsonValue)>)
    requires
        gates_from_members(members) is Ok,
    ensures
        gates_from_members(members)->Ok_0.len() == members.len(),
        forall|i: int|
            0 <= i < members.len() ==> (#[trigger] gates_from_members(members)->Ok_0[i]).metric
                == members[i].0@,
    decreases members.len(),
{
    if members.len() > 0 {
        lemma_one_gate_per_member(members.drop_last());
    }
}

/// An evaluation has one outcome per gate, in gate order, for the same
/// metric, bound and threshold.
pub proof fn lemma_one_outcome_per_gate(gates: Seq<GateView>, metrics: Seq<(String, JsonValue)>)
    requires
        evaluate_gates(gates, metrics) is Ok,
    ensures
        evaluate_gates(gates, metrics)->Ok_0.len() == gates.len(),
        forall|i: int|
            0 <= i < gates.len() ==> {
                let outcome = #[trigger] evaluate_gates(gates, metrics)->Ok_0[i];
                &&& outcome.metric == gates[i].metric
                &&& outcome.operator == gates[i].operator
                &&& outcome.threshold == gates[i].threshold
            },
    decreases gates.len(),
{
    if gates.len() > 0 {
        lemma_one_outcome_per_gate(gates.drop_last(), metrics);
    }
}

/// Every threshold of a parsed policy is a finite number.
pub proof fn lemma_parsed_thresholds_are_finite(members: Seq<(String, JsonValue)>)
    requires
        gates_from_members(members) is Ok,
    ensures
        forall|i: int|
            0 <= i < gates_from_members(members)->Ok_0.len() ==> (#[trigger] gates_from_members(
                members,
            )->Ok_0[i]).threshold.finite(),
    decreases members.len(),
{
    if members.len() > 0 {
        lemma_parsed_thresholds_are_finite(members.drop_last());
    }
}

/// An evaluation passes only when every gate's metric was supplied and
/// meets its bound; a missing or failing metric rejects the policy.
pub proof fn lemma_passing_needs_every_metric(
    gates: Seq<GateView>,
    metrics: Seq<(String, JsonValue)>,
)
    requires
        policy_evaluation(gates, metrics) matches Ok(evaluation) && evaluation.passed,
    ensures
        forall|i: int|
            0 <= i < gates.len() ==> {
                let outcome = #[trigger] evaluate_gates(gates, metrics)->Ok_0[i];
                &&& lookup(metrics, gates[i].metric) is Some
                &&& outcome.actual matches Some(actual) && gate_passes(
                    gates[i].operator,
                    actual,
                    gates[i].threshold,
                )
            },
{
    lemma_outcomes_follow_gates(gates, metrics);
    let results = evaluate_gates(gates, metrics)->Ok_0;
    assert forall|i: int| 0 <= i < gates.len() implies {
        let outcome = #[trigger] evaluate_gates(gates, metrics)->Ok_0[i];
        &&& lookup(metrics, gates[i].metric) is Some
        &&& outcome.actual matches Some(actual) && gate_passes(
            gates[i].operator,
            actual,
            gates[i].threshold,
        )
    } by {
        assert(results[i].passed);
        assert(evaluate_gate(gates[i], metrics) == Ok::<GateEvaluationView, Seq<char>>(results[i]));
    }
}

/// Each outcome is the evaluation of its own gate.
proof fn lemma_outcomes_follow_gates(gates: Seq<GateView>, metrics: Seq<(String, JsonValue)>)
    requires
        evaluate_gates(gates, metrics) is Ok,
    ensures
        evaluate_gates(gates, metrics)->Ok_0.len() == gates.len(),
        forall|i: int|
            0 <= i < gates.len() ==> evaluate_gate(gates[i], metrics) == Ok::<
                GateEvaluationView,
                Seq<char>,
            >(#[trigger] evaluate_gates(gates, metrics)->Ok_0[i]),
    decreases gates.len(),
{
    if gates.len() > 0 {
        lemma_outcomes_follow_gates(gates.drop_last(), metrics);
        let rest = gates.drop_last();
        assert forall|i: int| 0 <= i < gates.len() implies evaluate_gate(gates[i], metrics) == Ok::<
            GateEvaluationView,
            Seq<char>,
        >(#[trigger] evaluate_gates(gates, metrics)->Ok_0[i]) by {
            if i < gates.len() - 1 {
                assert(gates[i] == rest[i]);
                assert(evaluate_gates(gates, metrics)->Ok_0[i] == evaluate_gates(rest, metrics)->Ok_0[i]);
            }
        }
    }
}

/// An evaluation reads only the metrics its gates name: two sets of submitted
/// metrics that give the same value (or none) for every gate's metric give
/// the same evaluation, or the same error.
pub proof fn lemma_evaluation_reads_only_gate_metrics(
    gates: Seq<GateView>,
    metrics: Seq<(String, JsonValue)>,
    other: Seq<(String, JsonValue)>,
)
    requires
        forall|i: int|
            0 <= i < gates.len() ==> lookup(metrics, #[trigger] gates[i].metric) == lookup(
                other,
                gates[i].metric,
            ),
    ensures
        evaluate_gates(gates, metrics) == evaluate_gates(gates, other),
        policy_evaluation(gates, metrics) == policy_evaluation(gates, other),
    decreases gates.len(),
{
    if gates.len() > 0 {
        let rest = gates.drop_last();
        assert forall|i: int| 0 <= i < rest.len() implies lookup(
            metrics,
            #[trigger] rest[i].metric,
        ) == lookup(other, rest[i].metric) by {
            assert(rest[i] == gates[i]);
        }
        lemma_evaluation_reads_only_gate_metrics(rest, metrics, other);
        assert(lookup(metrics, gates[gates.len() - 1].metric) == lookup(
            other,
            gates[gates.len() - 1].metric,
        ));
        assert(evaluate_gate(gates.last(), metrics) == evaluate_gate(gates.last(), other));
    }
}

/// Members whose names no lookup asks for can be added before or after the
/// members without changing what a lookup finds.
proof fn lemma_lookup_skips_other_names(
    members: Seq<(String, JsonValue)>,
    extra: Seq<(String, JsonValue)>,
    key: Seq<char>,
)
    requires
        forall|j: int| 0 <= j < extra.len() ==> (#[trigger] extra[j]).0@ != key,
    ensures
        lookup(members + extra, key) == lookup(members, key),
        lookup(extra + members, key) == lookup(members, key),
    decreases members.len() + extra.len(),
{
    if members.len() > 0 {
        assert((members + extra).drop_first() =~= members.drop_first() + extra);
        assert((members + extra)[0] == members[0]);
        lemma_lookup_skips_other_names(members.drop_first(), extra, key);
    } else {
        assert(members + extra =~= extra);
        lemma_lookup_finds_nothing(extra, key);
    }
    if extra.len() > 0 {
        let rest = extra.drop_first();
        assert((extra + members).drop_first() =~= rest + members);
        assert((extra + members)[0] == extra[0]);
        assert forall|j: int| 0 <= j < rest.len() implies (#[trigger] rest[j]).0@ != key by {
            assert(rest[j] == extra[j + 1]);
        }
        lemma_lookup_skips_other_names(members, rest, key);
    } else {
        assert(extra + members =~= members);
    }
}

proof fn lemma_lookup_finds_nothing(members: Seq<(String, JsonValue)>, key: Seq<char>)
    requires
        forall|j: int| 0 <= j < members.len() ==> (#[trigger] members[j]).0@ != key,
    ensures
        lookup(members, key) is None,
    decreases members.len(),
{
    if members.len() > 0 {
        let rest = members.drop_first();
        assert forall|j: int| 0 <= j < rest.len() implies (#[trigger] rest[j]).0@ != key by {
            assert(rest[j] == members[j + 1]);
        }
        assert(members[0].0@ != key);
        lemma_lookup_finds_nothing(rest, key);
    }
}

/// Submitted metrics that no gate names are ignored: adding them before or
/// after the other metrics leaves the evaluation, or its error, unchanged.
pub proof fn lemma_unnamed_metrics_are_ignored(
    gates: Seq<GateView>,
    metrics: Seq<(String, JsonValue)>,
    extra: Seq<(String, JsonValue)>,
)
    requires
        forall|i: int, j: int|
            0 <= i < gates.len() && 0 <= j < extra.len() ==> (#[trigger] extra[j]).0@
                != #[trigger] gates[i].metric,
    ensures
        policy_evaluation(gates, metrics + extra) == policy_evaluation(gates, metrics),
        policy_evaluation(gates, extra + metrics) == policy_evaluation(gates, metrics),
{
    assert forall|i: int| 0 <= i < gates.len() implies lookup(
        metrics + extra,
        #[trigger] gates[i].metric,
    ) == lookup(metrics, gates[i].metric) && lookup(extra + metrics, gates[i].metric) == lookup(
        metrics,
        gates[i].metric,
    ) by {
        assert forall|j: int| 0 <= j < extra.len() implies (#[trigger] extra[j]).0@
            != gates[i].metric by {}
        lemma_lookup_skips_other_names(metrics, extra, gates[i].metric);
    }
    lemma_evaluation_reads_only_gate_metrics(gates, metrics + extra, metrics);
    lemma_evaluation_reads_only_gate_metrics(gates, extra + metrics, metrics);
}

/// A bound is met as doubles compare: a `max` gate passes exactly when the
/// metric is at most the threshold and a `min` gate exactly when it is at
/// least the threshold; a NaN on either side meets no bound. For two
/// non-negative doubles this is the order of their bit patterns.
pub proof fn lemma_gate_bound_semantics(actual: Float64, threshold: Float64)
    ensures
        gate_passes(GateOperator::Max, actual, threshold) <==> (!actual.nan() && !threshold.nan()
            && actual.order_key() <= threshold.order_key()),
        gate_passes(GateOperator::Min, actual, threshold) <==> (!actual.nan() && !threshold.nan()
            && actual.order_key() >= threshold.order_key()),
        !actual.nan() && !threshold.nan() && !actual.negative() && !threshold.negative() ==> ((
        gate_passes(GateOperator::Max, actual, threshold) <==> actual.bits <= threshold.bits) && (
        gate_passes(GateOperator::Min, actual, threshold) <==> actual.bits >= threshold.bits)),
        !actual.nan() && !threshold.nan() ==> (gate_passes(GateOperator::Max, actual, threshold)
            || gate_passes(GateOperator::Min, actual, threshold)),
{
}

/// A policy is accepted only as an object with exactly one member, `gates`,
/// whose value is a non-empty object.
pub proof fn lemma_policy_has_only_gates(raw: JsonValue)
    requires
        policy_from_json(raw) is Ok,
    ensures
        raw matches JsonValue::Object(members) && members@.len() == 1 && members@[0].0@
            == "gates"@ && (members@[0].1 matches JsonValue::Object(gates) && gates@.len() > 0),
{
    if let JsonValue::Object(members) = raw {
        let m = members@;
        assert(m.drop_first().len() == 0);
        assert(lookup(m.drop_first(), "gates"@) is None);
    }
}

proof fn lemma_lookup_in_single(members: Seq<(String, JsonValue)>, key: Seq<char>)
    requires
        members.len() == 1,
    ensures
        lookup(members, key) is Some <==> members[0].0@ == key,
        lookup(members, key) is Some ==> lookup(members, key) == Some(members[0].1),
{
    assert(members.drop_first().len() == 0);
    assert(lookup(members.drop_first(), key) is None);
}

/// Each gate of a parsed policy comes from the member in the same place: the
/// gate is named after the member, the name is not blank, and the member's
/// value is an object with exactly one member, named after the bound, holding
/// the threshold as a finite number.
pub proof fn lemma_gates_come_from_their_members(members: Seq<(String, JsonValue)>)
    requires
        gates_from_members(members) is Ok,
    ensures
        ({
            let gates = gates_from_members(members)->Ok_0;
            &&& gates.len() == members.len()
            &&& forall|i: int|
                0 <= i < members.len() ==> {
                    let gate = #[trigger] gates[i];
                    &&& gate.metric == members[i].0@
                    &&& trim(members[i].0@).len() > 0
                    &&& gate.threshold.finite()
                    &&& members[i].1 matches JsonValue::Object(bound) && bound@.len() == 1
                        && bound@[0].0@ == gate.operator.name() && bound@[0].1 == JsonValue::Number(
                        gate.threshold,
                    )
                }
        }),
    decreases members.len(),
{
    if members.len() > 0 {
        let rest = members.drop_last();
        lemma_gates_come_from_their_members(rest);
        let last = members.last();
        if let JsonValue::Object(bound) = last.1 {
            if bound@.len() == 1 {
                lemma_lookup_in_single(bound@, "min"@);
                lemma_lookup_in_single(bound@, "max"@);
            }
        }
        let gates = gates_from_members(members)->Ok_0;
        assert forall|i: int| 0 <= i < members.len() implies {
            let gate = #[trigger] gates[i];
            &&& gate.metric == members[i].0@
            &&& trim(members[i].0@).len() > 0
            &&& gate.threshold.finite()
            &&& members[i].1 matches JsonValue::Object(bound) && bound@.len() == 1 && bound@[0].0@
                == gate.operator.name() && bound@[0].1 == JsonValue::Number(gate.threshold)
        } by {
            if i < rest.len() {
                assert(members[i] == rest[i]);
                assert(gates[i] == gates_from_members(rest)->Ok_0[i]);
            } else {
                assert(members[i] == last);
            }
        }
    }
}

/// What each outcome records: a gate whose metric is absent fails with no
/// value; otherwise it records that metric, which is finite, and it passes
/// exactly when that metric meets the bound.
pub proof fn lemma_outcome_of_each_gate(gates: Seq<GateView>, metrics: Seq<(String, JsonValue)>)
    requires
        evaluate_gates(gates, metrics) is Ok,
    ensures
        ({
            let outcomes = evaluate_gates(gates, metrics)->Ok_0;
            &&& outcomes.len() == gates.len()
            &&& forall|i: int|
                0 <= i < gates.len() ==> {
                    let outcome = #[trigger] outcomes[i];
                    let threshold = gates[i].threshold;
                    match lookup(metrics, gates[i].metric) {
                        None => !outcome.passed && outcome.actual is None,
                        Some(value) => outcome.actual matches Some(actual) && value
                            == JsonValue::Number(actual) && actual.finite() && (gates[i].operator
                            == GateOperator::Max ==> (outcome.passed <==> (!threshold.nan()
                            && actual.order_key() <= threshold.order_key()))) && (gates[i].operator
                            == GateOperator::Min ==> (outcome.passed <==> (!threshold.nan()
                            && actual.order_key() >= threshold.order_key()))),
                    }
                }
        }),
{
    lemma_outcomes_follow_gates(gates, metrics);
    let outcomes = evaluate_gates(gates, metrics)->Ok_0;
    assert forall|i: int| 0 <= i < gates.len() implies {
        let outcome = #[trigger] outcomes[i];
        let threshold = gates[i].threshold;
        match lookup(metrics, gates[i].metric) {
            None => !outcome.passed && outcome.actual is None,
            Some(value) => outcome.actual matches Some(actual) && value == JsonValue::Number(actual)
                && actual.finite() && (gates[i].operator == GateOperator::Max ==> (outcome.passed
                <==> (!threshold.nan() && actual.order_key() <= threshold.order_key()))) && (
            gates[i].operator == GateOperator::Min ==> (outcome.passed <==> (!threshold.nan()
                && actual.order_key() >= threshold.order_key()))),
        }
    } by {
        assert(evaluate_gate(gates[i], metrics) == Ok::<GateEvaluationView, Seq<char>>(outcomes[i]));
        if let Some(JsonValue::Number(actual)) = lookup(metrics, gates[i].metric) {
            lemma_gate_bound_semantics(actual, gates[i].threshold);
        }
    }
}

/// A submitted metric beyond its gate's bound (above a `max`, below a `min`)
/// fails that gate, and the evaluation does not pass.
pub proof fn lemma_metric_beyond_bound_fails(
    gates: Seq<GateView>,
    metrics: Seq<(String, JsonValue)>,
    i: int,
    actual: Float64,
)
    requires
        0 <= i < gates.len(),
        lookup(metrics, gates[i].metric) == Some(JsonValue::Number(actual)),
        (gates[i].operator == GateOperator::Max && actual.order_key()
            > gates[i].threshold.order_key()) || (gates[i].operator == GateOperator::Min
            && actual.order_key() < gates[i].threshold.order_key()),
    ensures
        policy_evaluation(gates, metrics) matches Ok(evaluation) ==> !evaluation.passed
            && !evaluation.results[i].passed && evaluation.results[i].actual == Some(actual),
{
    if evaluate_gates(gates, metrics) is Ok {
        lemma_outcome_of_each_gate(gates, metrics);
        let outcomes = evaluate_gates(gates, metrics)->Ok_0;
        assert(!outcomes[i].passed);
    }
}

/// When every gate's metric is submitted as a finite number that meets its
/// bound, the evaluation succeeds and passes.
pub proof fn lemma_metrics_within_bounds_pass(
    gates: Seq<GateView>,
    metrics: Seq<(String, JsonValue)>,
)
    requires
        forall|i: int|
            0 <= i < gates.len() ==> (#[trigger] lookup(metrics, gates[i].metric) matches Some(
                JsonValue::Number(actual),
            ) && actual.finite() && !gates[i].threshold.nan() && (gates[i].operator
                == GateOperator::Max ==> actual.order_key() <= gates[i].threshold.order_key()) && (
            gates[i].operator == GateOperator::Min ==> actual.order_key()
                >= gates[i].threshold.order_key())),
    ensures
        policy_evaluation(gates, metrics) matches Ok(evaluation) && evaluation.passed,
    decreases gates.len(),
{
    lemma_within_bounds_evaluates(gates, metrics);
    lemma_outcome_of_each_gate(gates, metrics);
    let outcomes = evaluate_gates(gates, metrics)->Ok_0;
    assert forall|k: int| 0 <= k < outcomes.len() implies #[trigger] outcomes[k].passed by {
        assert(lookup(metrics, gates[k].metric) is Some);
    }
}

proof fn lemma_within_bounds_evaluates(gates: Seq<GateView>, metrics: Seq<(String, JsonValue)>)
    requires
        forall|i: int|
            0 <= i < gates.len() ==> (#[trigger] lookup(metrics, gates[i].metric) matches Some(
                JsonValue::Number(actual),
            ) && actual.finite()),
    ensures
        evaluate_gates(gates, metrics) is Ok,
    decreases gates.len(),
{
    if gates.len() > 0 {
        let rest = gates.drop_last();
        assert forall|i: int| 0 <= i < rest.len() implies (#[trigger] lookup(
            metrics,
            rest[i].metric,
        ) matches Some(JsonValue::Number(actual)) && actual.finite()) by {
            assert(rest[i] == gates[i]);
            assert(lookup(metrics, gates[i].metric) is Some);
        }
        lemma_within_bounds_evaluates(rest, metrics);
        assert(lookup(metrics, gates[gates.len() - 1].metric) is Some);
    }
}

/// Once a prefix of the gates fails to evaluate, so does the whole policy.
proof fn lemma_evaluation_error_stays(
    gates: Seq<GateView>,
    metrics: Seq<(String, JsonValue)>,
    k: int,
)
    requires
        0 <= k <= gates.len(),
        evaluate_gates(gates.take(k), metrics) is Err,
    ensures
        evaluate_gates(gates, metrics) == evaluate_gates(gates.take(k), metrics),
    decreases gates.len() - k,
{
    if k < gates.len() {
        assert(gates.take(k + 1).drop_last() =~= gates.take(k));
        lemma_evaluation_error_stays(gates, metrics, k + 1);
    } else {
        assert(gates.take(k) =~= gates);
    }
}

} // verus!
