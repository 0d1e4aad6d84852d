//! Recorded answers of the environment to one deployment run: whether each
//! local service's files are present, whether each server answered its probe,
//! and whether each issued step succeeded.
//!
//! A run's behaviour is a function of the configuration and of these answers
//! alone; the spec functions here say what a single service's attempt issues
//! and concludes given its answers.

use vstd::prelude::*;

use crate::outcome::{LocalStep, Outcome, RemoteStep, TraceEntry};

verus! {

/// The environment's answers for one locally hosted service.
#[derive(Clone, Copy, Debug, PartialEq, Eq, Structural)]
pub struct LocalAnswers {
    /// The service's directory exists under the local services root.
    pub dir_present: bool,
    /// The service's deployment descriptor file exists in that directory.
    pub file_present: bool,
    /// The stop step succeeded.
    pub down_ok: bool,
    /// The pull step succeeded.
    pub pull_ok: bool,
    /// The start step succeeded.
    pub up_ok: bool,
}

/// The environment's answers for one service on a remote server.
#[derive(Clone, Copy, Debug, PartialEq, Eq, Structural)]
pub struct StepAnswers {
    pub upload_ok: bool,
    pub stop_ok: bool,
    pub update_ok: bool,
    pub start_ok: bool,
}

/// The environment's answers for one remote server: its probe outcome and
/// the step answers of each of its services, in declared order.
#[derive(Debug)]
pub struct ServerWorld {
    pub reachable: bool,
    pub services: Vec<StepAnswers>,
}

/// The environment's answers for a whole run.
#[derive(Debug)]
pub struct World {
    pub local: Vec<LocalAnswers>,
    pub servers: Vec<ServerWorld>,
}

/// A local service may be attempted only when both its directory and its
/// deployment descriptor exist.
pub open spec fn local_attempt_ok(a: LocalAnswers) -> bool {
    a.dir_present && a.file_present
}

/// All three local steps of a service succeed.
pub open spec fn local_steps_ok(a: LocalAnswers) -> bool {
    a.down_ok && a.pull_ok && a.up_ok
}

/// A local service halts the local pass when it was attempted and one of its
/// steps failed.
pub open spec fn local_halts(a: LocalAnswers) -> bool {
    local_attempt_ok(a) && !local_steps_ok(a)
}

/// Terminal state of one attempted local service, given its answers.
pub open spec fn local_outcome(a: LocalAnswers) -> Outcome {
    if !local_attempt_ok(a) {
        Outcome::ConfigError
    } else if !a.down_ok {
        Outcome::LocalStepFailed { step: LocalStep::Down }
    } else if !a.pull_ok {
        Outcome::LocalStepFailed { step: LocalStep::Pull }
    } else if !a.up_ok {
        Outcome::LocalStepFailed { step: LocalStep::Up }
    } else {
        Outcome::Done
    }
}

/// The calls issued for one attempted local service: each step is issued
/// only when every step before it succeeded, and nothing is issued when the
/// directory or the descriptor is missing.
pub open spec fn local_entries(i: int, a: LocalAnswers) -> Seq<TraceEntry> {
    if !local_attempt_ok(a) {
        Seq::empty()
    } else if !a.down_ok {
        seq![TraceEntry::LocalRun { service: i as usize, step: LocalStep::Down }]
    } else if !a.pull_ok {
        seq![
            TraceEntry::LocalRun { service: i as usize, step: LocalStep::Down },
            TraceEntry::LocalRun { service: i as usize, step: LocalStep::Pull },
        ]
    } else {
        seq![
            TraceEntry::LocalRun { service: i as usize, step: LocalStep::Down },
            TraceEntry::LocalRun { service: i as usize, step: LocalStep::Pull },
            TraceEntry::LocalRun { service: i as usize, step: LocalStep::Up },
        ]
    }
}

/// Terminal state of one service on a reachable server, given its answers:
/// the first failing step, or `Done` when all four succeed.
pub open spec fn remote_outcome(a: StepAnswers) -> Outcome {
    if !a.upload_ok {
        Outcome::RemoteStepFailed { step: RemoteStep::Upload }
    } else if !a.stop_ok {
        Outcome::RemoteStepFailed { step: RemoteStep::Stop }
    } else if !a.update_ok {
        Outcome::RemoteStepFailed { step: RemoteStep::Update }
    } else if !a.start_ok {
        Outcome::RemoteStepFailed { step: RemoteStep::Start }
    } else {
        Outcome::Done
    }
}

/// The calls issued for one service on a reachable server: upload first,
/// then stop, update and start, each issued only when every step before it
/// succeeded.
pub open spec fn remote_entries(s: int, j: int, a: StepAnswers) -> Seq<TraceEntry> {
    let upload = TraceEntry::RemoteRun {
        server: s as usize,
        service: j as usize,
        step: RemoteStep::Upload,
    };
    let stop = TraceEntry::RemoteRun {
        server: s as usize,
        service: j as usize,
        step: RemoteStep::Stop,
    };
    let update = TraceEntry::RemoteRun {
        server: s as usize,
        service: j as usize,
        step: RemoteStep::Update,
    };
    let start = TraceEntry::RemoteRun {
        server: s as usize,
        service: j as usize,
        step: RemoteStep::Start,
    };
    if !a.upload_ok {
        seq![upload]
    } else if !a.stop_ok {
        seq![upload, stop]
    } else if !a.update_ok {
        seq![upload, stop, update]
    } else {
        seq![upload, stop, update, start]
    }
}

} // verus!
