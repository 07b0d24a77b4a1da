//! The local orchestrator: every deployment step succeeds, and the candidate
//! health check reports what the orchestrator was built with.
use vstd::prelude::*;

use crate::domain::errors::OrchestrationError;
use crate::domain::models::ModelRelease;

verus! {

pub struct LocalReleaseOrchestrator {
    candidate_healthy: bool,
}

impl LocalReleaseOrchestrator {
    /// What the health check reports.
    pub closed spec fn healthy(&self) -> bool {
        self.candidate_healthy
    }

    pub fn new(candidate_healthy: bool) -> (orchestrator: Self)
        ensures
            orchestrator.healthy() == candidate_healthy,
    {
        LocalReleaseOrchestrator { candidate_healthy }
    }

    pub fn deploy_candidate(&self, release: &ModelRelease) -> (r: Result<(), OrchestrationError>)
        ensures
            r is Ok,
    {
        Ok(())
    }

    pub fn candidate_is_healthy(&self, release: &ModelRelease) -> (r: Result<
        bool,
        OrchestrationError,
    >)
        ensures
            r matches Ok(healthy) && healthy == self.healthy(),
    {
        Ok(self.candidate_healthy)
    }

    pub fn start_canary(&self, release: &ModelRelease) -> (r: Result<(), OrchestrationError>)
        ensures
            r is Ok,
    {
        Ok(())
    }

    pub fn promote_candidate(&self, release: &ModelRelease) -> (r: Result<(), OrchestrationError>)
        ensures
            r is Ok,
    {
        Ok(())
    }

    pub fn rollback_candidate(&self, release: &ModelRelease) -> (r: Result<(), OrchestrationError>)
        ensures
            r is Ok,
    {
        Ok(())
    }
}

impl Default for LocalReleaseOrchestrator {
    /// An orchestrator whose candidates are healthy.
    fn default() -> (orchestrator: Self)
        ensures
            orchestrator.healthy(),
    {
        LocalReleaseOrchestrator::new(true)
    }
}

} // verus!
