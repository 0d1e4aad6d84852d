//! The step machine agrees with the run model: driven to completion against
//! a set of recorded answers, it issues exactly the calls of
//! [`crate::run::run_trace`] and records exactly
//! [`crate::run::run_records`].
//!
//! [`replay`] performs that drive as a verified function; its contract is
//! the correspondence theorem between [`crate::machine::Orchestrator`] and
//! the batch functions of [`crate::run`].

use vstd::prelude::*;

use crate::config::Config;
use crate::machine::{
    skipped_records, transition_ok, unreachable_records, Event, Orchestrator, Phase,
};
use crate::outcome::{LocalStep, Outcome, PairId, Record, RemoteStep, StepResult, TraceEntry};
use crate::run::{
    local_halted_before, local_records, local_trace, local_trace_upto, run_records, run_trace,
    server_records, server_steps_upto, server_trace, servers_records_upto, servers_trace_upto,
};
use crate::world::{
    local_attempt_ok, local_entries, local_halts, local_outcome, remote_entries, remote_outcome,
    LocalAnswers, ServerWorld, StepAnswers, World,
};

verus! {

/// The machine's configuration has the same shape as the recorded answers.
pub open spec fn fits(m: Orchestrator, w: World) -> bool {
    &&& w.local@.len() == m.config.local_services@.len()
    &&& w.servers@.len() == m.config.servers@.len()
    &&& forall|s: int|
        0 <= s < w.servers@.len() ==> (#[trigger] w.servers@[s].services@.len())
            == m.config.servers@[s].services@.len()
}

/// Every list of the answers fits in a machine-sized length.
pub open spec fn bounded(w: World) -> bool {
    &&& w.local@.len() <= usize::MAX
    &&& w.servers@.len() <= usize::MAX
    &&& forall|s: int|
        0 <= s < w.servers@.len() ==> (#[trigger] w.servers@[s].services@.len()) <= usize::MAX
}

/// The answer a local step receives.
pub open spec fn local_result(a: LocalAnswers, step: LocalStep) -> StepResult {
    if (match step {
        LocalStep::Down => a.down_ok,
        LocalStep::Pull => a.pull_ok,
        LocalStep::Up => a.up_ok,
    }) {
        StepResult::Success
    } else {
        StepResult::Failure
    }
}

/// The answer a probe receives.
pub open spec fn probe_result(sw: ServerWorld) -> StepResult {
    if sw.reachable {
        StepResult::Success
    } else {
        StepResult::Failure
    }
}

/// The answer a remote step receives.
pub open spec fn remote_result(a: StepAnswers, step: RemoteStep) -> StepResult {
    if (match step {
        RemoteStep::Upload => a.upload_ok,
        RemoteStep::Stop => a.stop_ok,
        RemoteStep::Update => a.update_ok,
        RemoteStep::Start => a.start_ok,
    }) {
        StepResult::Success
    } else {
        StepResult::Failure
    }
}

/// What the machine has issued and recorded at each cursor position, when
/// it has been fed the answers of `w` so far.
pub open spec fn replay_inv(m: Orchestrator, w: World) -> bool {
    &&& m.wf()
    &&& fits(m, w)
    &&& match m.phase {
        Phase::LocalCheck { service } => {
            let i = service as int;
            &&& !local_halted_before(w.local@, i)
            &&& m.trace@ == local_trace_upto(w.local@, i)
            &&& m.records@ == local_records(w.local@).take(i)
        },
        Phase::LocalStepRun { service, step } => {
            let i = service as int;
            let a = w.local@[i];
            &&& !local_halted_before(w.local@, i)
            &&& local_attempt_ok(a)
            &&& m.records@ == local_records(w.local@).take(i)
            &&& match step {
                LocalStep::Down => m.trace@ == local_trace_upto(w.local@, i),
                LocalStep::Pull => a.down_ok && m.trace@ == local_trace_upto(w.local@, i).push(
                    TraceEntry::LocalRun { service, step: LocalStep::Down },
                ),
                LocalStep::Up => a.down_ok && a.pull_ok && m.trace@ == local_trace_upto(
                    w.local@,
                    i,
                ).push(TraceEntry::LocalRun { service, step: LocalStep::Down }).push(
                    TraceEntry::LocalRun { service, step: LocalStep::Pull },
                ),
            }
        },
        Phase::ProbeServer { server } => {
            let s = server as int;
            &&& m.trace@ == local_trace(w.local@) + servers_trace_upto(w, s)
            &&& m.records@ == local_records(w.local@) + servers_records_upto(w, s)
        },
        Phase::RemoteStepRun { server, service, step } => {
            let s = server as int;
            let j = service as int;
            let sw = w.servers@[s];
            let a = sw.services@[j];
            let base = local_trace(w.local@) + servers_trace_upto(w, s) + seq![
                TraceEntry::Probe { server },
            ] + server_steps_upto(s, sw.services@, j);
            &&& sw.reachable
            &&& m.records@ == local_records(w.local@) + servers_records_upto(w, s)
                + server_records(s, sw).take(j)
            &&& match step {
                RemoteStep::Upload => m.trace@ == base,
                RemoteStep::Stop => a.upload_ok && m.trace@ == base.push(
                    TraceEntry::RemoteRun { server, service, step: RemoteStep::Upload },
                ),
                RemoteStep::Update => a.upload_ok && a.stop_ok && m.trace@ == base.push(
                    TraceEntry::RemoteRun { server, service, step: RemoteStep::Upload },
                ).push(TraceEntry::RemoteRun { server, service, step: RemoteStep::Stop }),
                RemoteStep::Start => a.upload_ok && a.stop_ok && a.update_ok && m.trace@
                    == base.push(
                    TraceEntry::RemoteRun { server, service, step: RemoteStep::Upload },
                ).push(TraceEntry::RemoteRun { server, service, step: RemoteStep::Stop }).push(
                    TraceEntry::RemoteRun { server, service, step: RemoteStep::Update },
                ),
            }
        },
        Phase::Aborted => false,
        Phase::Finished => {
            &&& m.trace@ == run_trace(w)
            &&& m.records@ == run_records(w)
        },
    }
}

/// Events the machine still consumes for the servers from `s` on.
pub open spec fn servers_fuel(w: World, s: int) -> int
    decreases w.servers@.len() - s,
{
    if 0 <= s < w.servers@.len() {
        1 + 4 * w.servers@[s].services@.len() + servers_fuel(w, s + 1)
    } else {
        0
    }
}

/// Events the machine still consumes before it is done.
pub open spec fn fuel(m: Orchestrator, w: World) -> int {
    match m.phase {
        Phase::LocalCheck { service } => 4 * (w.local@.len() - service) + servers_fuel(w, 0),
        Phase::LocalStepRun { service, step } => (match step {
            LocalStep::Down => 3int,
            LocalStep::Pull => 2int,
            LocalStep::Up => 1int,
        }) + 4 * (w.local@.len() - service - 1) + servers_fuel(w, 0),
        Phase::ProbeServer { server } => servers_fuel(w, server as int),
        Phase::RemoteStepRun { server, service, step } => (match step {
            RemoteStep::Upload => 4int,
            RemoteStep::Stop => 3int,
            RemoteStep::Update => 2int,
            RemoteStep::Start => 1int,
        }) + 4 * (w.servers@[server as int].services@.len() - service - 1) + servers_fuel(
            w,
            server as int + 1,
        ),
        Phase::Aborted => 0,
        Phase::Finished => 0,
    }
}

proof fn lemma_servers_fuel_nonneg(w: World, s: int)
    ensures
        servers_fuel(w, s) >= 0,
    decreases w.servers@.len() - s,
{
    if 0 <= s < w.servers@.len() {
        lemma_servers_fuel_nonneg(w, s + 1);
    }
}

/// The fuel never goes negative while the invariant holds.
proof fn lemma_fuel_nonneg(m: Orchestrator, w: World)
    requires
        replay_inv(m, w),
    ensures
        fuel(m, w) >= 0,
{
    lemma_servers_fuel_nonneg(w, 0);
    match m.phase {
        Phase::ProbeServer { server } => {
            lemma_servers_fuel_nonneg(w, server as int);
        },
        Phase::RemoteStepRun { server, .. } => {
            lemma_servers_fuel_nonneg(w, server as int + 1);
        },
        _ => {},
    }
}

/// Once the local pass has halted, no later local service adds calls.
proof fn lemma_local_trace_stops(ans: Seq<LocalAnswers>, m: int, n: int)
    requires
        0 <= m <= n,
        local_halted_before(ans, m),
    ensures
        local_trace_upto(ans, n) == local_trace_upto(ans, m),
    decreases n,
{
    if m < n {
        lemma_local_trace_stops(ans, m, n - 1);
        assert(local_halted_before(ans, n - 1));
    }
}

/// A service that neither halted nor was reached by a halt leaves the
/// halted-prefix flag as it was.
proof fn lemma_not_halted_extend(ans: Seq<LocalAnswers>, i: int)
    requires
        0 <= i,
        !local_halted_before(ans, i),
        !local_halts(ans[i]),
    ensures
        !local_halted_before(ans, i + 1),
{
    if local_halted_before(ans, i + 1) {
        let jj = choose|jj: int| 0 <= jj < i + 1 && local_halts(#[trigger] ans[jj]);
        if jj < i {
            assert(local_halted_before(ans, i));
        }
        assert(false);
    }
}

/// Closing the local pass: with the pass fully processed, the machine
/// stands at the first server (or is finished) and its trace and records
/// are the whole local pass's.
proof fn lemma_local_done(post: Orchestrator, w: World)
    requires
        post.wf(),
        fits(post, w),
        post.phase == crate::machine::first_server_phase(post.config, 0),
        post.trace@ == local_trace(w.local@),
        post.records@ == local_records(w.local@),
    ensures
        replay_inv(post, w),
{
    assert(servers_trace_upto(w, 0) =~= Seq::<TraceEntry>::empty());
    assert(servers_records_upto(w, 0) =~= Seq::<Record>::empty());
    if w.servers@.len() == 0 {
        assert(post.trace@ =~= local_trace(w.local@) + servers_trace_upto(
            w,
            w.servers@.len() as int,
        ));
        assert(post.records@ =~= local_records(w.local@) + servers_records_upto(
            w,
            w.servers@.len() as int,
        ));
    } else {
        assert(post.trace@ =~= local_trace(w.local@) + servers_trace_upto(w, 0));
        assert(post.records@ =~= local_records(w.local@) + servers_records_upto(w, 0));
    }
}

proof fn lemma_step_local_check(pre: Orchestrator, post: Orchestrator, w: World, service: usize)
    requires
        bounded(w),
        replay_inv(pre, w),
        pre.phase == (Phase::LocalCheck { service }),
        transition_ok(
            pre,
            (Event::Presence {
                dir_present: w.local@[service as int].dir_present,
                file_present: w.local@[service as int].file_present,
            }),
            post,
        ),
        post.wf(),
    ensures
        replay_inv(post, w),
        fuel(post, w) < fuel(pre, w),
{
    let ans = w.local@;
    let n = ans.len() as int;
    let i = service as int;
    let a = ans[i];
    lemma_servers_fuel_nonneg(w, 0);
    if !local_attempt_ok(a) {
        assert(!local_halts(a));
        lemma_not_halted_extend(ans, i);
        assert(local_entries(i, a) =~= Seq::<TraceEntry>::empty());
        assert(local_trace_upto(ans, i + 1) =~= local_trace_upto(ans, i));
        assert(local_records(ans)[i] == (Record {
            id: PairId::Local { service },
            outcome: Outcome::ConfigError,
        }));
        assert(local_records(ans).take(i + 1) =~= local_records(ans).take(i).push(
            local_records(ans)[i],
        ));
        if i + 1 == n {
            assert(local_records(ans).take(n) =~= local_records(ans));
            lemma_local_done(post, w);
        }
    }
}

proof fn lemma_step_local_run(
    pre: Orchestrator,
    post: Orchestrator,
    w: World,
    service: usize,
    step: LocalStep,
)
    requires
        bounded(w),
        replay_inv(pre, w),
        pre.phase == (Phase::LocalStepRun { service, step }),
        transition_ok(
            pre,
            (Event::StepDone { result: local_result(w.local@[service as int], step) }),
            post,
        ),
        post.wf(),
    ensures
        replay_inv(post, w),
        fuel(post, w) < fuel(pre, w),
{
    let ans = w.local@;
    let n = ans.len() as int;
    let i = service as int;
    let a = ans[i];
    let dn = TraceEntry::LocalRun { service, step: LocalStep::Down };
    let pl = TraceEntry::LocalRun { service, step: LocalStep::Pull };
    let up = TraceEntry::LocalRun { service, step: LocalStep::Up };
    lemma_servers_fuel_nonneg(w, 0);
    if local_result(a, step) == StepResult::Success {
        if step is Up {
            assert(!local_halts(a));
            lemma_not_halted_extend(ans, i);
            assert(local_entries(i, a) =~= seq![dn, pl, up]);
            assert(local_trace_upto(ans, i + 1) =~= local_trace_upto(ans, i) + seq![dn, pl, up]);
            assert(post.trace@ =~= local_trace_upto(ans, i + 1));
            assert(local_records(ans)[i] == (Record {
                id: PairId::Local { service },
                outcome: Outcome::Done,
            }));
            assert(local_records(ans).take(i + 1) =~= local_records(ans).take(i).push(
                local_records(ans)[i],
            ));
            if i + 1 == n {
                assert(local_records(ans).take(n) =~= local_records(ans));
                assert(post.trace@ == local_trace(ans));
                lemma_local_done(post, w);
            }
        }
    } else {
        // The local pass halts on this service.
        assert(local_halts(a));
        assert(local_halted_before(ans, i + 1));
        assert(local_entries(i, a) =~= (match step {
            LocalStep::Down => seq![dn],
            LocalStep::Pull => seq![dn, pl],
            LocalStep::Up => seq![dn, pl, up],
        }));
        assert(local_trace_upto(ans, i + 1) =~= local_trace_upto(ans, i) + local_entries(i, a));
        assert(post.trace@ =~= local_trace_upto(ans, i + 1));
        lemma_local_trace_stops(ans, i + 1, n);
        let failed = Record {
            id: PairId::Local { service },
            outcome: Outcome::LocalStepFailed { step },
        };
        assert(post.records@ == pre.records@.push(failed) + skipped_records(i + 1, n));
        assert(local_outcome(a) == Outcome::LocalStepFailed { step });
        assert forall|k: int| 0 <= k < n implies post.records@[k] == local_records(ans)[k] by {
            if k < i {
                assert(post.records@[k] == local_records(ans).take(i)[k]);
            } else if k == i {
                assert(post.records@[k] == failed);
            } else {
                assert(post.records@[k] == skipped_records(i + 1, n)[k - i - 1]);
                assert(0 <= i < k && local_halts(ans[i]));
                assert(local_halted_before(ans, k));
            }
        }
        assert(post.records@.len() == n);
        assert(post.records@ =~= local_records(ans));
        assert(post.trace@ == local_trace(ans));
        lemma_local_done(post, w);
    }
}

proof fn lemma_step_probe(pre: Orchestrator, post: Orchestrator, w: World, server: usize)
    requires
        bounded(w),
        replay_inv(pre, w),
        pre.phase == (Phase::ProbeServer { server }),
        transition_ok(
            pre,
            (Event::Probed { result: probe_result(w.servers@[server as int]) }),
            post,
        ),
        post.wf(),
    ensures
        replay_inv(post, w),
        fuel(post, w) < fuel(pre, w),
{
    let s = server as int;
    let sw = w.servers@[s];
    let probe = TraceEntry::Probe { server };
    assert(servers_fuel(w, s) == 1 + 4 * sw.services@.len() + servers_fuel(w, s + 1));
    lemma_servers_fuel_nonneg(w, s + 1);
    assert(servers_trace_upto(w, s + 1) == servers_trace_upto(w, s) + server_trace(s, sw));
    assert(servers_records_upto(w, s + 1) == servers_records_upto(w, s) + server_records(s, sw));
    if sw.reachable {
        if sw.services@.len() > 0 {
            assert(server_steps_upto(s, sw.services@, 0) =~= Seq::<TraceEntry>::empty());
            assert(post.trace@ =~= local_trace(w.local@) + servers_trace_upto(w, s) + seq![probe]
                + server_steps_upto(s, sw.services@, 0));
            assert(server_records(s, sw).take(0) =~= Seq::<Record>::empty());
            assert(post.records@ =~= local_records(w.local@) + servers_records_upto(w, s)
                + server_records(s, sw).take(0));
        } else {
            assert(server_trace(s, sw) =~= seq![probe]);
            assert(post.trace@ =~= local_trace(w.local@) + servers_trace_upto(w, s + 1));
            assert(server_records(s, sw) =~= Seq::<Record>::empty());
            assert(post.records@ =~= local_records(w.local@) + servers_records_upto(w, s + 1));
        }
    } else {
        assert(server_trace(s, sw) =~= seq![probe]);
        assert(post.trace@ =~= local_trace(w.local@) + servers_trace_upto(w, s + 1));
        assert(unreachable_records(s, sw.services@.len() as int) =~= server_records(s, sw));
        assert(post.records@ =~= local_records(w.local@) + servers_records_upto(w, s + 1));
    }
}

proof fn lemma_step_remote(
    pre: Orchestrator,
    post: Orchestrator,
    w: World,
    server: usize,
    service: usize,
    step: RemoteStep,
)
    requires
        bounded(w),
        replay_inv(pre, w),
        pre.phase == (Phase::RemoteStepRun { server, service, step }),
        transition_ok(
            pre,
            (Event::StepDone {
                result: remote_result(w.servers@[server as int].services@[service as int], step),
            }),
            post,
        ),
        post.wf(),
    ensures
        replay_inv(post, w),
        fuel(post, w) < fuel(pre, w),
{
    let s = server as int;
    let j = service as int;
    let sw = w.servers@[s];
    let a = sw.services@[j];
    let probe = TraceEntry::Probe { server };
    let eu = TraceEntry::RemoteRun { server, service, step: RemoteStep::Upload };
    let es = TraceEntry::RemoteRun { server, service, step: RemoteStep::Stop };
    let ed = TraceEntry::RemoteRun { server, service, step: RemoteStep::Update };
    let et = TraceEntry::RemoteRun { server, service, step: RemoteStep::Start };
    lemma_servers_fuel_nonneg(w, s + 1);
    let ok = remote_result(a, step) == StepResult::Success;
    if ok && !(step is Start) {
        // The service only moves to its next step.
    } else {
        // The service concludes, with `Done` or with its failing step.
        let concluded = if ok {
            Record { id: PairId::Remote { server, service }, outcome: Outcome::Done }
        } else {
            Record {
                id: PairId::Remote { server, service },
                outcome: Outcome::RemoteStepFailed { step },
            }
        };
        assert(remote_outcome(a) == concluded.outcome);
        assert(server_records(s, sw)[j] == concluded);
        assert(server_records(s, sw).take(j + 1) =~= server_records(s, sw).take(j).push(
            concluded,
        ));
        assert(post.records@ =~= local_records(w.local@) + servers_records_upto(w, s)
            + server_records(s, sw).take(j + 1));
        assert(remote_entries(s, j, a) =~= (match step {
            RemoteStep::Upload => seq![eu],
            RemoteStep::Stop => seq![eu, es],
            RemoteStep::Update => seq![eu, es, ed],
            RemoteStep::Start => seq![eu, es, ed, et],
        }));
        assert(server_steps_upto(s, sw.services@, j + 1) == server_steps_upto(s, sw.services@, j)
            + remote_entries(s, j, a));
        assert(post.trace@ =~= local_trace(w.local@) + servers_trace_upto(w, s) + seq![probe]
            + server_steps_upto(s, sw.services@, j + 1));
        if j + 1 == sw.services@.len() {
            // Last service of this server: close its block.
            assert(server_trace(s, sw) == seq![probe] + server_steps_upto(
                s,
                sw.services@,
                sw.services@.len() as int,
            ));
            assert(servers_trace_upto(w, s + 1) == servers_trace_upto(w, s) + server_trace(
                s,
                sw,
            ));
            assert(post.trace@ =~= local_trace(w.local@) + servers_trace_upto(w, s + 1));
            assert(server_records(s, sw).take(j + 1) =~= server_records(s, sw));
            assert(servers_records_upto(w, s + 1) == servers_records_upto(w, s) + server_records(
                s,
                sw,
            ));
            assert(post.records@ =~= local_records(w.local@) + servers_records_upto(w, s + 1));
        }
    }
}

/// Drives the machine to completion, answering every action from the
/// recorded answers of `w`: the machine ends with exactly the calls and the
/// records of the run model.
pub fn replay(config: Config, public_dir: String, w: &World) -> (m: Orchestrator)
    requires
        w.local@.len() == config.local_services@.len(),
        w.servers@.len() == config.servers@.len(),
        forall|s: int|
            0 <= s < w.servers@.len() ==> (#[trigger] w.servers@[s].services@.len())
                == config.servers@[s].services@.len(),
        bounded(*w),
    ensures
        m.trace@ == run_trace(*w),
        m.records@ == run_records(*w),
{
    let ghost wv = *w;
    let mut m = Orchestrator::new(config, public_dir);
    proof {
        assert(local_trace_upto(wv.local@, 0) =~= Seq::<TraceEntry>::empty());
        assert(local_records(wv.local@).take(0) =~= Seq::<Record>::empty());
        if wv.local@.len() == 0 {
            assert(local_trace(wv.local@) =~= Seq::<TraceEntry>::empty());
            assert(local_records(wv.local@) =~= Seq::<Record>::empty());
            lemma_local_done(m, wv);
        }
        assert(replay_inv(m, wv));
    }
    loop
        invariant
            replay_inv(m, wv),
            bounded(wv),
            wv == *w,
        ensures
            replay_inv(m, wv) && m.phase is Finished,
        decreases fuel(m, wv),
    {
        proof {
            lemma_fuel_nonneg(m, wv);
        }
        match m.phase {
            Phase::LocalCheck { service } => {
                let a = w.local[service];
                let ghost pre = m;
                m.on_event(
                    Event::Presence { dir_present: a.dir_present, file_present: a.file_present },
                );
                proof {
                    lemma_step_local_check(pre, m, wv, service);
                }
            },
            Phase::LocalStepRun { service, step } => {
                let a = w.local[service];
                let ok = match step {
                    LocalStep::Down => a.down_ok,
                    LocalStep::Pull => a.pull_ok,
                    LocalStep::Up => a.up_ok,
                };
                let result = if ok {
                    StepResult::Success
                } else {
                    StepResult::Failure
                };
                let ghost pre = m;
                m.on_event(Event::StepDone { result });
                proof {
                    assert(result == local_result(wv.local@[service as int], step));
                    lemma_step_local_run(pre, m, wv, service, step);
                }
            },
            Phase::ProbeServer { server } => {
                let reachable = w.servers[server].reachable;
                let result = if reachable {
                    StepResult::Success
                } else {
                    StepResult::Failure
                };
                let ghost pre = m;
                m.on_event(Event::Probed { result });
                proof {
                    assert(result == probe_result(wv.servers@[server as int]));
                    lemma_step_probe(pre, m, wv, server);
                }
            },
            Phase::RemoteStepRun { server, service, step } => {
                let a = w.servers[server].services[service];
                let ok = match step {
                    RemoteStep::Upload => a.upload_ok,
                    RemoteStep::Stop => a.stop_ok,
                    RemoteStep::Update => a.update_ok,
                    RemoteStep::Start => a.start_ok,
                };
                let result = if ok {
                    StepResult::Success
                } else {
                    StepResult::Failure
                };
                let ghost pre = m;
                m.on_event(Event::StepDone { result });
                proof {
                    assert(result == remote_result(
                        wv.servers@[server as int].services@[service as int],
                        step,
                    ));
                    lemma_step_remote(pre, m, wv, server, service, step);
                }
            },
            Phase::Aborted => {
                proof {
                    assert(false);
                }
            },
            Phase::Finished => {
                break;
            },
        }
        proof {
            lemma_fuel_nonneg(m, wv);
        }
    }
    m
}

} // verus!
