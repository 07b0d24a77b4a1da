//! Central lifecycle transition rules.
use vstd::prelude::*;
use vstd::string::*;

use super::errors::InvalidTransitionError;
use crate::text::text_equals;

verus! {

broadcast use vstd::string::group_string_axioms;

/// Where a candidate release stands in its lifecycle.
#[derive(Clone, Copy, Debug, PartialEq, Eq, Structural)]
pub enum ReleaseStatus {
    Submitted,
    Validating,
    Ready,
    Deploying,
    Canary,
    Promoted,
    Rejected,
    RolledBack,
    Failed,
}

impl ReleaseStatus {
    /// The states a release never leaves.
    pub open spec fn terminal(self) -> bool {
        matches!(
            self,
            ReleaseStatus::Promoted | ReleaseStatus::Rejected | ReleaseStatus::RolledBack
                | ReleaseStatus::Failed
        )
    }

    /// The transition table.
    pub open spec fn allows(self, target: ReleaseStatus) -> bool {
        match (self, target) {
            (ReleaseStatus::Submitted, ReleaseStatus::Validating) => true,
            (ReleaseStatus::Validating, ReleaseStatus::Ready) => true,
            (ReleaseStatus::Validating, ReleaseStatus::Rejected) => true,
            (ReleaseStatus::Validating, ReleaseStatus::Failed) => true,
            (ReleaseStatus::Ready, ReleaseStatus::Deploying) => true,
            (ReleaseStatus::Deploying, ReleaseStatus::Canary) => true,
            (ReleaseStatus::Deploying, ReleaseStatus::Failed) => true,
            (ReleaseStatus::Canary, ReleaseStatus::Promoted) => true,
            (ReleaseStatus::Canary, ReleaseStatus::RolledBack) => true,
            (ReleaseStatus::Canary, ReleaseStatus::Failed) => true,
            _ => false,
        }
    }

    /// The persisted name of the state.
    pub open spec fn name(self) -> Seq<char> {
        match self {
            ReleaseStatus::Submitted => "SUBMITTED"@,
            ReleaseStatus::Validating => "VALIDATING"@,
            ReleaseStatus::Ready => "READY"@,
            ReleaseStatus::Deploying => "DEPLOYING"@,
            ReleaseStatus::Canary => "CANARY"@,
            ReleaseStatus::Promoted => "PROMOTED"@,
            ReleaseStatus::Rejected => "REJECTED"@,
            ReleaseStatus::RolledBack => "ROLLED_BACK"@,
            ReleaseStatus::Failed => "FAILED"@,
        }
    }

    /// How far along the lifecycle a state lies; every transition moves
    /// to a later stage.
    pub open spec fn stage(self) -> int {
        match self {
            ReleaseStatus::Submitted => 0,
            ReleaseStatus::Validating => 1,
            ReleaseStatus::Ready => 2,
            ReleaseStatus::Rejected => 2,
            ReleaseStatus::Deploying => 3,
            ReleaseStatus::Canary => 4,
            ReleaseStatus::Promoted => 5,
            ReleaseStatus::RolledBack => 5,
            ReleaseStatus::Failed => 6,
        }
    }

    /// Whether the state is final.
    pub fn is_terminal(self) -> (r: bool)
        ensures
            r == self.terminal(),
    {
        match self {
            ReleaseStatus::Promoted | ReleaseStatus::Rejected | ReleaseStatus::RolledBack
            | ReleaseStatus::Failed => true,
            _ => false,
        }
    }

    /// Whether the transition table has an edge from this state to `target`.
    pub fn can_transition_to(self, target: ReleaseStatus) -> (r: bool)
        ensures
            r == self.allows(target),
    {
        match (self, target) {
            (ReleaseStatus::Submitted, ReleaseStatus::Validating) => true,
            (ReleaseStatus::Validating, ReleaseStatus::Ready)
            | (ReleaseStatus::Validating, ReleaseStatus::Rejected)
            | (ReleaseStatus::Validating, ReleaseStatus::Failed) => true,
            (ReleaseStatus::Ready, ReleaseStatus::Deploying) => true,
            (ReleaseStatus::Deploying, ReleaseStatus::Canary)
            | (ReleaseStatus::Deploying, ReleaseStatus::Failed) => true,
            (ReleaseStatus::Canary, ReleaseStatus::Promoted)
            | (ReleaseStatus::Canary, ReleaseStatus::RolledBack)
            | (ReleaseStatus::Canary, ReleaseStatus::Failed) => true,
            _ => false,
        }
    }

    /// The persisted name, such as `ROLLED_BACK`.
    pub fn as_str(self) -> (s: &'static str)
        ensures
            s@ == self.name(),
    {
        match self {
            ReleaseStatus::Submitted => "SUBMITTED",
            ReleaseStatus::Validating => "VALIDATING",
            ReleaseStatus::Ready => "READY",
            ReleaseStatus::Deploying => "DEPLOYING",
            ReleaseStatus::Canary => "CANARY",
            ReleaseStatus::Promoted => "PROMOTED",
            ReleaseStatus::Rejected => "REJECTED",
            ReleaseStatus::RolledBack => "ROLLED_BACK",
            ReleaseStatus::Failed => "FAILED",
        }
    }

    /// The persisted name as an owned string.
    pub fn to_string(self) -> (s: String)
        ensures
            s@ == self.name(),
    {
        String::from_str(self.as_str())
    }

    /// The state whose persisted name is `value`; otherwise the message
    /// `Unknown release status '<value>'.`
    pub fn from_name(value: &str) -> (r: Result<ReleaseStatus, String>)
        ensures
            match r {
                Ok(status) => parse_status(value@) == Some(status),
                Err(message) => parse_status(value@) is None && message@ == "Unknown release status '"@
                    + value@ + "'."@,
            },
    {
        if text_equals(value, "SUBMITTED") {
            Ok(ReleaseStatus::Submitted)
        } else if text_equals(value, "VALIDATING") {
            Ok(ReleaseStatus::Validating)
        } else if text_equals(value, "READY") {
            Ok(ReleaseStatus::Ready)
        } else if text_equals(value, "DEPLOYING") {
            Ok(ReleaseStatus::Deploying)
        } else if text_equals(value, "CANARY") {
            Ok(ReleaseStatus::Canary)
        } else if text_equals(value, "PROMOTED") {
            Ok(ReleaseStatus::Promoted)
        } else if text_equals(value, "REJECTED") {
            Ok(ReleaseStatus::Rejected)
        } else if text_equals(value, "ROLLED_BACK") {
            Ok(ReleaseStatus::RolledBack)
        } else if text_equals(value, "FAILED") {
            Ok(ReleaseStatus::Failed)
        } else {
            let mut message = String::from_str("Unknown release status '");
            message.append(value);
            message.append("'.");
            Err(message)
        }
    }
}

impl std::str::FromStr for ReleaseStatus {
    type Err = String;

    fn from_str(value: &str) -> (r: Result<Self, Self::Err>)
        ensures
            match r {
                Ok(status) => parse_status(value@) == Some(status),
                Err(message) => parse_status(value@) is None && message@ == "Unknown release status '"@
                    + value@ + "'."@,
            },
    {
        ReleaseStatus::from_name(value)
    }
}

/// The state named `text`, if any.
pub open spec fn parse_status(text: Seq<char>) -> Option<ReleaseStatus> {
    if text == "SUBMITTED"@ {
        Some(ReleaseStatus::Submitted)
    } else if text == "VALIDATING"@ {
        Some(ReleaseStatus::Validating)
    } else if text == "READY"@ {
        Some(ReleaseStatus::Ready)
    } else if text == "DEPLOYING"@ {
        Some(ReleaseStatus::Deploying)
    } else if text == "CANARY"@ {
        Some(ReleaseStatus::Canary)
    } else if text == "PROMOTED"@ {
        Some(ReleaseStatus::Promoted)
    } else if text == "REJECTED"@ {
        Some(ReleaseStatus::Rejected)
    } else if text == "ROLLED_BACK"@ {
        Some(ReleaseStatus::RolledBack)
    } else if text == "FAILED"@ {
        Some(ReleaseStatus::Failed)
    } else {
        None
    }
}

/// `Ok` exactly when the transition table has the edge; otherwise an error
/// that names both states.
pub fn validate_transition(current: ReleaseStatus, target: ReleaseStatus) -> (r: Result<
    (),
    InvalidTransitionError,
>)
    ensures
        r is Ok <==> current.allows(target),
        r matches Err(e) ==> e.current@ == current.name() && e.target@ == target.name(),
{
    if current.can_transition_to(target) {
        Ok(())
    } else {
        Err(InvalidTransitionError { current: current.to_string(), target: target.to_string() })
    }
}

/// A state is terminal exactly when no transition leaves it.
pub proof fn lemma_terminal_iff_no_successor(status: ReleaseStatus)
    ensures
        status.terminal() <==> (forall|target: ReleaseStatus| !#[trigger] status.allows(target)),
{
    match status {
        ReleaseStatus::Submitted => assert(status.allows(ReleaseStatus::Validating)),
        ReleaseStatus::Validating => assert(status.allows(ReleaseStatus::Ready)),
        ReleaseStatus::Ready => assert(status.allows(ReleaseStatus::Deploying)),
        ReleaseStatus::Deploying => assert(status.allows(ReleaseStatus::Canary)),
        ReleaseStatus::Canary => assert(status.allows(ReleaseStatus::Promoted)),
        _ => {},
    }
}

/// Every transition moves to a later stage, so no release ever returns to a
/// state it has left, and `SUBMITTED` is entered only on registration.
pub proof fn lemma_transitions_move_forward(current: ReleaseStatus, target: ReleaseStatus)
    ensures
        current.allows(target) ==> current.stage() < target.stage(),
        !current.allows(current),
        !current.allows(ReleaseStatus::Submitted),
{
}

/// Where each state may go: a registered release only to validation, a
/// validated one only to deployment, a deploying one only to the canary or
/// to failure, a canary only to promotion, rollback or failure, a release
/// under validation only to ready, rejected or failed.
pub proof fn lemma_successors_of_each_state(target: ReleaseStatus)
    ensures
        ReleaseStatus::Submitted.allows(target) ==> target == ReleaseStatus::Validating,
        ReleaseStatus::Validating.allows(target) ==> target == ReleaseStatus::Ready || target
            == ReleaseStatus::Rejected || target == ReleaseStatus::Failed,
        ReleaseStatus::Ready.allows(target) ==> target == ReleaseStatus::Deploying,
        ReleaseStatus::Deploying.allows(target) ==> target == ReleaseStatus::Canary || target
            == ReleaseStatus::Failed,
        ReleaseStatus::Canary.allows(target) ==> target == ReleaseStatus::Promoted || target
            == ReleaseStatus::RolledBack || target == ReleaseStatus::Failed,
{
}

/// Where each state may be entered from: validation only after registration,
/// ready and rejected only after validation, deployment only from ready, the
/// canary only from deployment, promotion and rollback only from the canary,
/// and failure only from validation, deployment or the canary.
pub proof fn lemma_predecessors_of_each_state(current: ReleaseStatus)
    ensures
        current.allows(ReleaseStatus::Validating) ==> current == ReleaseStatus::Submitted,
        current.allows(ReleaseStatus::Ready) ==> current == ReleaseStatus::Validating,
        current.allows(ReleaseStatus::Rejected) ==> current == ReleaseStatus::Validating,
        current.allows(ReleaseStatus::Deploying) ==> current == ReleaseStatus::Ready,
        current.allows(ReleaseStatus::Canary) ==> current == ReleaseStatus::Deploying,
        current.allows(ReleaseStatus::Promoted) ==> current == ReleaseStatus::Canary,
        current.allows(ReleaseStatus::RolledBack) ==> current == ReleaseStatus::Canary,
        current.allows(ReleaseStatus::Failed) ==> current == ReleaseStatus::Validating || current
            == ReleaseStatus::Deploying || current == ReleaseStatus::Canary,
{
}

/// The edges that the lifecycle does have: registration to validation,
/// validation to each verdict, ready to deployment, deployment to the canary
/// or failure, and the canary to each of its ends.
pub proof fn lemma_lifecycle_edges()
    ensures
        ReleaseStatus::Submitted.allows(ReleaseStatus::Validating),
        ReleaseStatus::Validating.allows(ReleaseStatus::Ready),
        ReleaseStatus::Validating.allows(ReleaseStatus::Rejected),
        ReleaseStatus::Validating.allows(ReleaseStatus::Failed),
        ReleaseStatus::Ready.allows(ReleaseStatus::Deploying),
        ReleaseStatus::Deploying.allows(ReleaseStatus::Canary),
        ReleaseStatus::Deploying.allows(ReleaseStatus::Failed),
        ReleaseStatus::Canary.allows(ReleaseStatus::Promoted),
        ReleaseStatus::Canary.allows(ReleaseStatus::RolledBack),
        ReleaseStatus::Canary.allows(ReleaseStatus::Failed),
{
}

/// Reading back the persisted name of a state gives the same state.
pub proof fn lemma_status_name_round_trip(status: ReleaseStatus)
    ensures
        parse_status(status.name()) == Some(status),
{
    reveal_strlit("SUBMITTED");
    reveal_strlit("VALIDATING");
    reveal_strlit("READY");
    reveal_strlit("DEPLOYING");
    reveal_strlit("CANARY");
    reveal_strlit("PROMOTED");
    reveal_strlit("REJECTED");
    reveal_strlit("ROLLED_BACK");
    reveal_strlit("FAILED");
    assert("SUBMITTED"@.len() == 9 && "SUBMITTED"@[0] == 'S');
    assert("VALIDATING"@.len() == 10 && "VALIDATING"@[0] == 'V');
    assert("READY"@.len() == 5 && "READY"@[0] == 'R');
    assert("DEPLOYING"@.len() == 9 && "DEPLOYING"@[0] == 'D');
    assert("CANARY"@.len() == 6 && "CANARY"@[0] == 'C');
    assert("PROMOTED"@.len() == 8 && "PROMOTED"@[0] == 'P');
    assert("REJECTED"@.len() == 8 && "REJECTED"@[0] == 'R');
    assert("ROLLED_BACK"@.len() == 11 && "ROLLED_BACK"@[0] == 'R');
    assert("FAILED"@.len() == 6 && "FAILED"@[0] == 'F');
}

} // verus!
