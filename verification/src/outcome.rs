//! The vocabulary of a deployment run: steps, per-service outcomes, and the
//! trace of external calls a run issues.

use vstd::prelude::*;

verus! {

/// One step of the reconciliation cycle for a locally hosted service:
/// stop the stack, pull the latest images, start it again detached.
#[derive(Clone, Copy, Debug, PartialEq, Eq, Structural)]
pub enum LocalStep {
    Down,
    Pull,
    Up,
}

/// One step of the lifecycle driven for a service on a remote server, in the
/// order the orchestrator performs them.
#[derive(Clone, Copy, Debug, PartialEq, Eq, Structural)]
pub enum RemoteStep {
    Upload,
    Stop,
    Update,
    Start,
}

/// What one issued external call reported back. `ToolAbsent` means the
/// program could not be launched at all, which aborts the whole run.
#[derive(Clone, Copy, Debug, PartialEq, Eq, Structural)]
pub enum StepResult {
    Success,
    Failure,
    ToolAbsent,
}

/// Terminal state of one declared service after a run.
#[derive(Clone, Copy, Debug, PartialEq, Eq, Structural)]
pub enum Outcome {
    /// Every step of the service's lifecycle succeeded.
    Done,
    /// A locally hosted service misses its directory or its deployment
    /// descriptor file; none of its steps is attempted.
    ConfigError,
    /// The service's server did not answer the connectivity probe; none of
    /// its steps is attempted.
    Unreachable,
    /// A local reconciliation step failed; later steps of the service and
    /// the rest of the local pass are not attempted.
    LocalStepFailed { step: LocalStep },
    /// A remote step failed; the service's later steps are not attempted.
    RemoteStepFailed { step: RemoteStep },
    /// The local pass halted on an earlier service before this one was
    /// reached.
    Skipped,
}

/// Identity of one declared service: either under the local pseudo-server or
/// under a remote server, each by its position in the configuration.
#[derive(Clone, Copy, Debug, PartialEq, Eq, Structural)]
pub enum PairId {
    Local { service: usize },
    Remote { server: usize, service: usize },
}

/// The recorded terminal state of one declared service.
#[derive(Clone, Copy, Debug, PartialEq, Eq, Structural)]
pub struct Record {
    pub id: PairId,
    pub outcome: Outcome,
}

/// One external call issued during a run, identified by the indices of the
/// server and service it concerns.
#[derive(Clone, Copy, Debug, PartialEq, Eq, Structural)]
pub enum TraceEntry {
    /// Connectivity probe of a remote server.
    Probe { server: usize },
    /// One local reconciliation step of a locally hosted service.
    LocalRun { service: usize, step: LocalStep },
    /// One lifecycle step of a service on a remote server.
    RemoteRun { server: usize, service: usize, step: RemoteStep },
}

} // verus!
