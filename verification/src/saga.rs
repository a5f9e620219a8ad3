//! Saga orchestration of multi-step workflows.
use vstd::prelude::*;

verus! {

/// Runs workflows of named steps as sagas.
pub struct SagaOrchestrator {}

impl SagaOrchestrator {
    /// An orchestrator.
    pub fn new() -> (r: SagaOrchestrator) {
        SagaOrchestrator {}
    }

    /// Runs a workflow. No step has an effect yet, so every workflow
    /// completes.
    pub fn execute_saga(&self, workflow: Vec<String>) -> (r: Result<(), String>)
        ensures
            r is Ok,
    {
        Ok(())
    }
}

} // verus!
