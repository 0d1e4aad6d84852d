//! The orchestrator as a step machine, for driving a real deployment run.
//!
//! The machine owns the configuration and a cursor; the surrounding program
//! repeatedly asks it for the [`Action`] to perform — check a local
//! service's files, run a command, probe a server — performs it, and hands
//! the result back as an [`Event`]. Every decision (which call comes next,
//! what a failure ends, what gets recorded) is taken here and pinned down by
//! [`transition_ok`]; the surrounding program only executes.

use vstd::prelude::*;

use crate::command::{
    check_connexion, local_step_command, remote_step_command, Invocation, PROBE_SETTLE_SECS,
};
use crate::config::Config;
use crate::outcome::{LocalStep, Outcome, PairId, Record, RemoteStep, StepResult, TraceEntry};
use crate::run::invocation_matches;

verus! {

/// Where the run stands: which service of which server is at which step.
#[derive(Clone, Copy, Debug, PartialEq, Eq, Structural)]
pub enum Phase {
    /// About to ask whether a local service's directory and descriptor
    /// exist.
    LocalCheck { service: usize },
    /// About to run one local reconciliation step.
    LocalStepRun { service: usize, step: LocalStep },
    /// About to probe a remote server.
    ProbeServer { server: usize },
    /// About to run one lifecycle step of a remote service.
    RemoteStepRun { server: usize, service: usize, step: RemoteStep },
    /// A required external program could not be launched; the run is over.
    Aborted,
    /// Every declared service has been processed.
    Finished,
}

/// What the surrounding program is to do next.
#[derive(Debug)]
pub enum Action {
    /// Check that the local service's directory and its deployment
    /// descriptor file exist; answer with [`Event::Presence`].
    CheckLocal { service: usize },
    /// Run one local reconciliation step; answer with [`Event::StepDone`].
    RunLocal { service: usize, step: LocalStep, inv: Invocation },
    /// Wait `settle_secs`, then run the probe; answer with
    /// [`Event::Probed`].
    Probe { server: usize, settle_secs: u64, inv: Invocation },
    /// Run one remote lifecycle step; answer with [`Event::StepDone`].
    RunRemote { server: usize, service: usize, step: RemoteStep, inv: Invocation },
    /// The run is over; `aborted` tells a tool-absent abort from a
    /// completed run.
    Done { aborted: bool },
}

/// What the environment answered to the last action.
#[derive(Clone, Copy, Debug, PartialEq, Eq, Structural)]
pub enum Event {
    /// Whether the local service's directory and descriptor file exist.
    Presence { dir_present: bool, file_present: bool },
    /// How an issued step command ended.
    StepDone { result: StepResult },
    /// How the probe ended: success means the server answered.
    Probed { result: StepResult },
}

/// The deployment orchestrator: configuration, cursor, and what the run has
/// issued and recorded so far.
#[derive(Debug)]
pub struct Orchestrator {
    pub config: Config,
    /// Directory the uploads are served from.
    pub public_dir: String,
    pub phase: Phase,
    /// Every issued external call, in order.
    pub trace: Vec<TraceEntry>,
    /// One record per concluded service, in processing order.
    pub records: Vec<Record>,
}

/// The cursor points inside the configuration.
pub open spec fn phase_wf(c: Config, p: Phase) -> bool {
    match p {
        Phase::LocalCheck { service } => service < c.local_services@.len(),
        Phase::LocalStepRun { service, .. } => service < c.local_services@.len(),
        Phase::ProbeServer { server } => server < c.servers@.len(),
        Phase::RemoteStepRun { server, service, .. } => server < c.servers@.len() && service
            < c.servers@[server as int].services@.len(),
        Phase::Aborted => true,
        Phase::Finished => true,
    }
}

/// The first phase of a run over a configuration: the local pass when any
/// local service is declared, else the servers.
pub open spec fn first_phase(c: Config) -> Phase {
    if c.local_services@.len() > 0 {
        Phase::LocalCheck { service: 0 }
    } else {
        first_server_phase(c, 0)
    }
}

/// The phase that processes server `s`, or `Finished` past the last server.
pub open spec fn first_server_phase(c: Config, s: int) -> Phase {
    if s < c.servers@.len() {
        Phase::ProbeServer { server: s as usize }
    } else {
        Phase::Finished
    }
}

/// The phase after concluding local service `i`: the next local service, or
/// the servers.
pub open spec fn next_local_phase(c: Config, i: int) -> Phase {
    if i + 1 < c.local_services@.len() {
        Phase::LocalCheck { service: (i + 1) as usize }
    } else {
        first_server_phase(c, 0)
    }
}

/// The phase after a successful probe of server `s`: its first service, or
/// the next server when it declares none.
pub open spec fn probed_phase(c: Config, s: int) -> Phase {
    if c.servers@[s].services@.len() > 0 {
        Phase::RemoteStepRun { server: s as usize, service: 0, step: RemoteStep::Upload }
    } else {
        first_server_phase(c, s + 1)
    }
}

/// The phase after concluding service `j` of server `s`: the next service
/// of the same server, or the next server.
pub open spec fn next_service_phase(c: Config, s: int, j: int) -> Phase {
    if j + 1 < c.servers@[s].services@.len() {
        Phase::RemoteStepRun {
            server: s as usize,
            service: (j + 1) as usize,
            step: RemoteStep::Upload,
        }
    } else {
        first_server_phase(c, s + 1)
    }
}

/// Skipped-service records for the local services in `from..to`.
pub open spec fn skipped_records(from: int, to: int) -> Seq<Record> {
    Seq::new(
        if to >= from {
            (to - from) as nat
        } else {
            0
        },
        |k: int|
            Record { id: PairId::Local { service: (from + k) as usize }, outcome: Outcome::Skipped },
    )
}

/// Unreachable-service records for the first `n` services of server `s`.
pub open spec fn unreachable_records(s: int, n: int) -> Seq<Record> {
    Seq::new(
        if n >= 0 {
            n as nat
        } else {
            0
        },
        |j: int|
            Record {
                id: PairId::Remote { server: s as usize, service: j as usize },
                outcome: Outcome::Unreachable,
            },
    )
}

/// The event kind the current phase is waiting for.
pub open spec fn event_fits(p: Phase, e: Event) -> bool {
    match p {
        Phase::LocalCheck { .. } => e is Presence,
        Phase::LocalStepRun { .. } => e is StepDone,
        Phase::ProbeServer { .. } => e is Probed,
        Phase::RemoteStepRun { .. } => e is StepDone,
        Phase::Aborted => false,
        Phase::Finished => false,
    }
}

/// The action the machine owes in a phase: the right kind, the right
/// indices, and the exact command line the configuration prescribes.
pub open spec fn action_matches(m: Orchestrator, a: Action) -> bool {
    match m.phase {
        Phase::LocalCheck { service } => a == Action::CheckLocal { service },
        Phase::LocalStepRun { service, step } => a matches Action::RunLocal {
            service: s2,
            step: st2,
            inv,
        } && s2 == service && st2 == step && invocation_matches(
            m.config@,
            m.public_dir@,
            TraceEntry::LocalRun { service, step },
            inv,
        ),
        Phase::ProbeServer { server } => a matches Action::Probe {
            server: s2,
            settle_secs,
            inv,
        } && s2 == server && settle_secs == PROBE_SETTLE_SECS && invocation_matches(
            m.config@,
            m.public_dir@,
            TraceEntry::Probe { server },
            inv,
        ),
        Phase::RemoteStepRun { server, service, step } => a matches Action::RunRemote {
            server: sr2,
            service: sv2,
            step: st2,
            inv,
        } && sr2 == server && sv2 == service && st2 == step && invocation_matches(
            m.config@,
            m.public_dir@,
            TraceEntry::RemoteRun { server, service, step },
            inv,
        ),
        Phase::Aborted => a == Action::Done { aborted: true },
        Phase::Finished => a == Action::Done { aborted: false },
    }
}

/// Everything one step of the machine does, as a relation between the state
/// before, the event received, and the state after: which phase comes next,
/// which trace entry the step appends, and which records it concludes.
pub open spec fn transition_ok(pre: Orchestrator, e: Event, post: Orchestrator) -> bool {
    &&& post.config == pre.config
    &&& post.public_dir == pre.public_dir
    &&& match pre.phase {
        Phase::LocalCheck { service } => match e {
            Event::Presence { dir_present, file_present } => {
                &&& post.trace@ == pre.trace@
                &&& if dir_present && file_present {
                    &&& post.phase == Phase::LocalStepRun { service, step: LocalStep::Down }
                    &&& post.records@ == pre.records@
                } else {
                    &&& post.phase == next_local_phase(pre.config, service as int)
                    &&& post.records@ == pre.records@.push(
                        Record { id: PairId::Local { service }, outcome: Outcome::ConfigError },
                    )
                }
            },
            _ => false,
        },
        Phase::LocalStepRun { service, step } => match e {
            Event::StepDone { result } => match result {
                StepResult::ToolAbsent => {
                    &&& post.phase == Phase::Aborted
                    &&& post.trace@ == pre.trace@
                    &&& post.records@ == pre.records@
                },
                StepResult::Success => {
                    &&& post.trace@ == pre.trace@.push(TraceEntry::LocalRun { service, step })
                    &&& match step {
                        LocalStep::Down => {
                            &&& post.phase == Phase::LocalStepRun {
                                service,
                                step: LocalStep::Pull,
                            }
                            &&& post.records@ == pre.records@
                        },
                        LocalStep::Pull => {
                            &&& post.phase == Phase::LocalStepRun { service, step: LocalStep::Up }
                            &&& post.records@ == pre.records@
                        },
                        LocalStep::Up => {
                            &&& post.phase == next_local_phase(pre.config, service as int)
                            &&& post.records@ == pre.records@.push(
                                Record { id: PairId::Local { service }, outcome: Outcome::Done },
                            )
                        },
                    }
                },
                StepResult::Failure => {
                    // A failing local step ends the whole local pass: the
                    // remaining local services are recorded as skipped and
                    // the run moves on to the servers.
                    &&& post.phase == first_server_phase(pre.config, 0)
                    &&& post.trace@ == pre.trace@.push(TraceEntry::LocalRun { service, step })
                    &&& post.records@ == pre.records@.push(
                        Record {
                            id: PairId::Local { service },
                            outcome: Outcome::LocalStepFailed { step },
                        },
                    ) + skipped_records(
                        service as int + 1,
                        pre.config.local_services@.len() as int,
                    )
                },
            },
            _ => false,
        },
        Phase::ProbeServer { server } => match e {
            Event::Probed { result } => match result {
                StepResult::ToolAbsent => {
                    &&& post.phase == Phase::Aborted
                    &&& post.trace@ == pre.trace@
                    &&& post.records@ == pre.records@
                },
                StepResult::Success => {
                    &&& post.phase == probed_phase(pre.config, server as int)
                    &&& post.trace@ == pre.trace@.push(TraceEntry::Probe { server })
                    &&& post.records@ == pre.records@
                },
                StepResult::Failure => {
                    // An unreachable server fails every one of its services
                    // at once; none of their steps is attempted.
                    &&& post.phase == first_server_phase(pre.config, server as int + 1)
                    &&& post.trace@ == pre.trace@.push(TraceEntry::Probe { server })
                    &&& post.records@ == pre.records@ + unreachable_records(
                        server as int,
                        pre.config.servers@[server as int].services@.len() as int,
                    )
                },
            },
            _ => false,
        },
        Phase::RemoteStepRun { server, service, step } => match e {
            Event::StepDone { result } => match result {
                StepResult::ToolAbsent => {
                    &&& post.phase == Phase::Aborted
                    &&& post.trace@ == pre.trace@
                    &&& post.records@ == pre.records@
                },
                StepResult::Success => {
                    &&& post.trace@ == pre.trace@.push(
                        TraceEntry::RemoteRun { server, service, step },
                    )
                    &&& match step {
                        RemoteStep::Upload => {
                            &&& post.phase == Phase::RemoteStepRun {
                                server,
                                service,
                                step: RemoteStep::Stop,
                            }
                            &&& post.records@ == pre.records@
                        },
                        RemoteStep::Stop => {
                            &&& post.phase == Phase::RemoteStepRun {
                                server,
                                service,
                                step: RemoteStep::Update,
                            }
                            &&& post.records@ == pre.records@
                        },
                        RemoteStep::Update => {
                            &&& post.phase == Phase::RemoteStepRun {
                                server,
                                service,
                                step: RemoteStep::Start,
                            }
                            &&& post.records@ == pre.records@
                        },
                        RemoteStep::Start => {
                            &&& post.phase == next_service_phase(
                                pre.config,
                                server as int,
                                service as int,
                            )
                            &&& post.records@ == pre.records@.push(
                                Record {
                                    id: PairId::Remote { server, service },
                                    outcome: Outcome::Done,
                                },
                            )
                        },
                    }
                },
                StepResult::Failure => {
                    // A failing step is the service's terminal state; its
                    // siblings are processed all the same.
                    &&& post.phase == next_service_phase(
                        pre.config,
                        server as int,
                        service as int,
                    )
                    &&& post.trace@ == pre.trace@.push(
                        TraceEntry::RemoteRun { server, service, step },
                    )
                    &&& post.records@ == pre.records@.push(
                        Record {
                            id: PairId::Remote { server, service },
                            outcome: Outcome::RemoteStepFailed { step },
                        },
                    )
                },
            },
            _ => false,
        },
        Phase::Aborted => false,
        Phase::Finished => false,
    }
}

impl Orchestrator {
    /// The machine's own well-formedness: its cursor points inside its
    /// configuration.
    pub open spec fn wf(self) -> bool {
        phase_wf(self.config, self.phase)
    }

    /// Starts a run: nothing issued, nothing recorded, the cursor on the
    /// first declared local service, else the first server, else done.
    pub fn new(config: Config, public_dir: String) -> (m: Self)
        ensures
            m.wf(),
            m.config == config,
            m.public_dir == public_dir,
            m.phase == first_phase(config),
            m.trace@ == Seq::<TraceEntry>::empty(),
            m.records@ == Seq::<Record>::empty(),
    {
        let phase = if config.local_services.len() > 0 {
            Phase::LocalCheck { service: 0 }
        } else if config.servers.len() > 0 {
            Phase::ProbeServer { server: 0 }
        } else {
            Phase::Finished
        };
        Orchestrator { config, public_dir, phase, trace: Vec::new(), records: Vec::new() }
    }

    /// What to do next. The action carries the exact command line to issue;
    /// the caller only performs it and answers with the matching [`Event`],
    /// deciding nothing itself.
    pub fn next_action(&self) -> (a: Action)
        requires
            self.wf(),
        ensures
            action_matches(*self, a),
    {
        match self.phase {
            Phase::LocalCheck { service } => Action::CheckLocal { service },
            Phase::LocalStepRun { service, step } => {
                let name = &self.config.local_services[service];
                Action::RunLocal { service, step, inv: local_step_command(step, name.as_str()) }
            },
            Phase::ProbeServer { server } => {
                let sv = &self.config.servers[server];
                Action::Probe {
                    server,
                    settle_secs: PROBE_SETTLE_SECS,
                    inv: check_connexion(sv.ip.as_str(), sv.port.as_str()),
                }
            },
            Phase::RemoteStepRun { server, service, step } => {
                let sv = &self.config.servers[server];
                let image = &sv.services[service];
                Action::RunRemote {
                    server,
                    service,
                    step,
                    inv: remote_step_command(
                        step,
                        image.as_str(),
                        sv.username.as_str(),
                        sv.ip.as_str(),
                        sv.port.as_str(),
                        self.public_dir.as_str(),
                    ),
                }
            },
            Phase::Aborted => Action::Done { aborted: true },
            Phase::Finished => Action::Done { aborted: false },
        }
    }

    /// Feeds the result of the last action back in: the machine appends the
    /// attempted call to its trace, concludes services as their terminal
    /// states become known, and moves its cursor.
    pub fn on_event(&mut self, e: Event)
        requires
            old(self).wf(),
            event_fits(old(self).phase, e),
        ensures
            final(self).wf(),
            transition_ok(*old(self), e, *final(self)),
    {
        match self.phase {
            Phase::LocalCheck { service } => {
                let (dir_present, file_present) = match e {
                    Event::Presence { dir_present, file_present } => (dir_present, file_present),
                    _ => {
                        proof {
                            assert(false);
                        }
                        (false, false)
                    },
                };
                if dir_present && file_present {
                    self.phase = Phase::LocalStepRun { service, step: LocalStep::Down };
                } else {
                    self.records.push(
                        Record { id: PairId::Local { service }, outcome: Outcome::ConfigError },
                    );
                    self.advance_local(service);
                }
            },
            Phase::LocalStepRun { service, step } => {
                let result = match e {
                    Event::StepDone { result } => result,
                    _ => {
                        proof {
                            assert(false);
                        }
                        StepResult::Failure
                    },
                };
                match result {
                    StepResult::ToolAbsent => {
                        self.phase = Phase::Aborted;
                    },
                    StepResult::Success => {
                        self.trace.push(TraceEntry::LocalRun { service, step });
                        match step {
                            LocalStep::Down => {
                                self.phase = Phase::LocalStepRun {
                                    service,
                                    step: LocalStep::Pull,
                                };
                            },
                            LocalStep::Pull => {
                                self.phase = Phase::LocalStepRun { service, step: LocalStep::Up };
                            },
                            LocalStep::Up => {
                                self.records.push(
                                    Record {
                                        id: PairId::Local { service },
                                        outcome: Outcome::Done,
                                    },
                                );
                                self.advance_local(service);
                            },
                        }
                    },
                    StepResult::Failure => {
                        self.trace.push(TraceEntry::LocalRun { service, step });
                        self.records.push(
                            Record {
                                id: PairId::Local { service },
                                outcome: Outcome::LocalStepFailed { step },
                            },
                        );
                        let ghost base = self.records@;
                        let ghost tr = self.trace@;
                        let ghost ph = self.phase;
                        let n_local = self.config.local_services.len();
                        let mut k: usize = service + 1;
                        while k < self.config.local_services.len()
                            invariant
                                service as int + 1 <= k as int
                                    <= self.config.local_services@.len(),
                                self.records@ =~= base + skipped_records(
                                    service as int + 1,
                                    k as int,
                                ),
                                self.config == old(self).config,
                                self.public_dir == old(self).public_dir,
                                self.trace@ == tr,
                                self.phase == ph,
                            decreases self.config.local_services@.len() - k,
                        {
                            self.records.push(
                                Record {
                                    id: PairId::Local { service: k },
                                    outcome: Outcome::Skipped,
                                },
                            );
                            proof {
                                assert(self.records@ =~= base + skipped_records(
                                    service as int + 1,
                                    k as int + 1,
                                ));
                            }
                            k = k + 1;
                        }
                        proof {
                            assert(self.records@ =~= base + skipped_records(
                                service as int + 1,
                                self.config.local_services@.len() as int,
                            ));
                        }
                        if self.config.servers.len() > 0 {
                            self.phase = Phase::ProbeServer { server: 0 };
                        } else {
                            self.phase = Phase::Finished;
                        }
                    },
                }
            },
            Phase::ProbeServer { server } => {
                let result = match e {
                    Event::Probed { result } => result,
                    _ => {
                        proof {
                            assert(false);
                        }
                        StepResult::Failure
                    },
                };
                match result {
                    StepResult::ToolAbsent => {
                        self.phase = Phase::Aborted;
                    },
                    StepResult::Success => {
                        self.trace.push(TraceEntry::Probe { server });
                        if self.config.servers[server].services.len() > 0 {
                            self.phase = Phase::RemoteStepRun {
                                server,
                                service: 0,
                                step: RemoteStep::Upload,
                            };
                        } else {
                            self.advance_server(server);
                        }
                    },
                    StepResult::Failure => {
                        self.trace.push(TraceEntry::Probe { server });
                        let ghost base = self.records@;
                        let ghost tr = self.trace@;
                        let ghost ph = self.phase;
                        let count = self.config.servers[server].services.len();
                        let mut j: usize = 0;
                        while j < count
                            invariant
                                0 <= j <= count,
                                count == self.config.servers@[server as int].services@.len(),
                                server < self.config.servers@.len(),
                                self.records@ =~= base + unreachable_records(
                                    server as int,
                                    j as int,
                                ),
                                self.config == old(self).config,
                                self.public_dir == old(self).public_dir,
                                self.trace@ == tr,
                                self.phase == ph,
                            decreases count - j,
                        {
                            self.records.push(
                                Record {
                                    id: PairId::Remote { server, service: j },
                                    outcome: Outcome::Unreachable,
                                },
                            );
                            proof {
                                assert(self.records@ =~= base + unreachable_records(
                                    server as int,
                                    j as int + 1,
                                ));
                            }
                            j = j + 1;
                        }
                        self.advance_server(server);
                    },
                }
            },
            Phase::RemoteStepRun { server, service, step } => {
                let result = match e {
                    Event::StepDone { result } => result,
                    _ => {
                        proof {
                            assert(false);
                        }
                        StepResult::Failure
                    },
                };
                match result {
                    StepResult::ToolAbsent => {
                        self.phase = Phase::Aborted;
                    },
                    StepResult::Success => {
                        self.trace.push(TraceEntry::RemoteRun { server, service, step });
                        match step {
                            RemoteStep::Upload => {
                                self.phase = Phase::RemoteStepRun {
                                    server,
                                    service,
                                    step: RemoteStep::Stop,
                                };
                            },
                            RemoteStep::Stop => {
                                self.phase = Phase::RemoteStepRun {
                                    server,
                                    service,
                                    step: RemoteStep::Update,
                                };
                            },
                            RemoteStep::Update => {
                                self.phase = Phase::RemoteStepRun {
                                    server,
                                    service,
                                    step: RemoteStep::Start,
                                };
                            },
                            RemoteStep::Start => {
                                self.records.push(
                                    Record {
                                        id: PairId::Remote { server, service },
                                        outcome: Outcome::Done,
                                    },
                                );
                                self.advance_service(server, service);
                            },
                        }
                    },
                    StepResult::Failure => {
                        self.trace.push(TraceEntry::RemoteRun { server, service, step });
                        self.records.push(
                            Record {
                                id: PairId::Remote { server, service },
                                outcome: Outcome::RemoteStepFailed { step },
                            },
                        );
                        self.advance_service(server, service);
                    },
                }
            },
            Phase::Aborted => {
                proof {
                    assert(false);
                }
            },
            Phase::Finished => {
                proof {
                    assert(false);
                }
            },
        }
    }

    /// Moves the cursor past local service `i`.
    fn advance_local(&mut self, i: usize)
        requires
            i < old(self).config.local_services@.len(),
        ensures
            *final(self) == (Orchestrator {
                phase: next_local_phase(old(self).config, i as int),
                ..*old(self)
            }),
    {
        let n = self.config.local_services.len();
        if i + 1 < n {
            self.phase = Phase::LocalCheck { service: i + 1 };
        } else if self.config.servers.len() > 0 {
            self.phase = Phase::ProbeServer { server: 0 };
        } else {
            self.phase = Phase::Finished;
        }
    }

    /// Moves the cursor past server `s`.
    fn advance_server(&mut self, s: usize)
        requires
            s < old(self).config.servers@.len(),
        ensures
            *final(self) == (Orchestrator {
                phase: first_server_phase(old(self).config, s as int + 1),
                ..*old(self)
            }),
    {
        let n = self.config.servers.len();
        if s + 1 < n {
            self.phase = Phase::ProbeServer { server: s + 1 };
        } else {
            self.phase = Phase::Finished;
        }
    }

    /// Moves the cursor past service `j` of server `s`.
    fn advance_service(&mut self, s: usize, j: usize)
        requires
            s < old(self).config.servers@.len(),
            j < old(self).config.servers@[s as int].services@.len(),
        ensures
            *final(self) == (Orchestrator {
                phase: next_service_phase(old(self).config, s as int, j as int),
                ..*old(self)
            }),
    {
        let n_services = self.config.servers[s].services.len();
        let n_servers = self.config.servers.len();
        if j + 1 < n_services {
            self.phase = Phase::RemoteStepRun { server: s, service: j + 1, step: RemoteStep::Upload };
        } else if s + 1 < n_servers {
            self.phase = Phase::ProbeServer { server: s + 1 };
        } else {
            self.phase = Phase::Finished;
        }
    }
}

} // verus!
