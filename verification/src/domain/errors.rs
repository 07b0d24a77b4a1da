//! Errors of the release domain, each with the message that callers show.
use vstd::prelude::*;
use vstd::string::*;

verus! {

/// No release has the given identifier.
#[derive(Debug)]
pub struct ReleaseNotFoundError(pub String);

/// A requested lifecycle transition is not in the transition table.
#[derive(Debug)]
pub struct InvalidTransitionError {
    pub current: String,
    pub target: String,
}

/// A policy or a submitted metric is malformed.
#[derive(Debug)]
pub struct PolicyValidationError(pub String);

/// The orchestrator could not carry out a deployment step.
#[derive(Debug)]
pub struct OrchestrationError(pub String);

impl ReleaseNotFoundError {
    /// `Release '<id>' was not found.`
    pub fn to_string(&self) -> (text: String)
        ensures
            text@ == "Release '"@ + self.0@ + "' was not found."@,
    {
        let mut text = String::from_str("Release '");
        text.append(self.0.as_str());
        text.append("' was not found.");
        text
    }
}

impl InvalidTransitionError {
    /// `Cannot transition release from <current> to <target>.`
    pub fn to_string(&self) -> (text: String)
        ensures
            text@ == "Cannot transition release from "@ + self.current@ + " to "@ + self.target@
                + "."@,
    {
        let mut text = String::from_str("Cannot transition release from ");
        text.append(self.current.as_str());
        text.append(" to ");
        text.append(self.target.as_str());
        text.append(".");
        text
    }
}

impl PolicyValidationError {
    /// The message itself.
    pub fn to_string(&self) -> (text: String)
        ensures
            text@ == self.0@,
    {
        self.0.clone()
    }
}

impl OrchestrationError {
    /// The message itself.
    pub fn to_string(&self) -> (text: String)
        ensures
            text@ == self.0@,
    {
        self.0.clone()
    }
}

} // verus!
