//! One whole deployment run as a function of the configuration and of the
//! environment's answers.
//!
//! The spec functions here pin down the exact sequence of external calls a
//! run issues and the outcome it records for every declared service; the
//! executable functions return that sequence — each call paired with its
//! full command line — and those records, and their contracts equate both
//! with the spec functions.

use vstd::prelude::*;

use crate::command::{
    check_connexion, local_step_args, local_step_command, remote_shell_args, remote_step_command,
    running, Invocation,
};
use crate::config::{Config, ConfigV, ServerSpec};
use crate::outcome::{LocalStep, Outcome, PairId, Record, RemoteStep, TraceEntry};
use crate::world::{
    local_entries, local_halts, local_outcome, remote_entries, remote_outcome, LocalAnswers,
    ServerWorld, StepAnswers, World,
};

verus! {

/// One external call of a run: what it concerns and the exact command line
/// issued for it.
#[derive(Debug)]
pub struct Call {
    pub entry: TraceEntry,
    pub invocation: Invocation,
}

/// The environment's answers fit the configuration: one answer per local
/// service, one per server, one per declared service of each server.
pub open spec fn shape_ok(c: ConfigV, w: World) -> bool {
    &&& w.local@.len() == c.local_services.len()
    &&& w.servers@.len() == c.servers.len()
    &&& forall|s: int|
        0 <= s < w.servers@.len() ==> (#[trigger] w.servers@[s].services@.len())
            == c.servers[s].services.len()
}

/// The command line that belongs to a trace entry, given the configuration
/// and the public directory uploads are served from.
pub open spec fn invocation_matches(
    c: ConfigV,
    public_dir: Seq<char>,
    e: TraceEntry,
    inv: Invocation,
) -> bool {
    match e {
        TraceEntry::Probe { server } => {
            let sv = c.servers[server as int];
            &&& inv.program@ == "ncat"@
            &&& inv.args.deep_view() == seq!["-z"@, sv.ip, sv.port]
            &&& inv.dir@ == "."@
        },
        TraceEntry::LocalRun { service, step } => {
            &&& inv.program@ == "docker"@
            &&& inv.args.deep_view() == local_step_args(step)
            &&& inv.dir@ == "./containers/"@ + c.local_services[service as int]
        },
        TraceEntry::RemoteRun { server, .. } => invocation_matches_server(
            c.servers[server as int],
            public_dir,
            e,
            inv,
        ),
    }
}

/// The issued calls follow the given trace, entry by entry, each with the
/// command line the configuration prescribes for it.
pub open spec fn calls_ok(
    calls: Seq<Call>,
    trace: Seq<TraceEntry>,
    c: ConfigV,
    public_dir: Seq<char>,
) -> bool {
    &&& calls.len() == trace.len()
    &&& forall|k: int|
        0 <= k < calls.len() ==> (#[trigger] calls[k]).entry == trace[k] && invocation_matches(
            c,
            public_dir,
            trace[k],
            calls[k].invocation,
        )
}

/// The local pass halted on one of the first `i` local services: an
/// attempted service had a step fail.
pub open spec fn local_halted_before(ans: Seq<LocalAnswers>, i: int) -> bool {
    exists|j: int| 0 <= j < i && local_halts(#[trigger] ans[j])
}

/// Terminal state of the `i`-th local service within the whole local pass:
/// skipped when the pass halted earlier, its own outcome otherwise.
pub open spec fn local_outcome_at(ans: Seq<LocalAnswers>, i: int) -> Outcome {
    if local_halted_before(ans, i) {
        Outcome::Skipped
    } else {
        local_outcome(ans[i])
    }
}

/// The records of the whole local pass: one per local service, in declared
/// order.
pub open spec fn local_records(ans: Seq<LocalAnswers>) -> Seq<Record> {
    Seq::new(
        ans.len(),
        |i: int|
            Record {
                id: PairId::Local { service: i as usize },
                outcome: local_outcome_at(ans, i),
            },
    )
}

/// The calls of the local pass over its first `n` services: each service
/// contributes its entries unless the pass halted before it.
pub open spec fn local_trace_upto(ans: Seq<LocalAnswers>, n: int) -> Seq<TraceEntry>
    decreases n,
{
    if n <= 0 {
        Seq::empty()
    } else {
        local_trace_upto(ans, n - 1) + if local_halted_before(ans, n - 1) {
            Seq::empty()
        } else {
            local_entries(n - 1, ans[n - 1])
        }
    }
}

/// The calls of the whole local pass.
pub open spec fn local_trace(ans: Seq<LocalAnswers>) -> Seq<TraceEntry> {
    local_trace_upto(ans, ans.len() as int)
}

/// Terminal state of the `j`-th service of a server: unreachable when the
/// probe failed, its own outcome otherwise.
pub open spec fn server_outcome_at(sw: ServerWorld, j: int) -> Outcome {
    if !sw.reachable {
        Outcome::Unreachable
    } else {
        remote_outcome(sw.services@[j])
    }
}

/// The records of one server: one per declared service, in declared order.
pub open spec fn server_records(s: int, sw: ServerWorld) -> Seq<Record> {
    Seq::new(
        sw.services@.len(),
        |j: int|
            Record {
                id: PairId::Remote { server: s as usize, service: j as usize },
                outcome: server_outcome_at(sw, j),
            },
    )
}

/// The lifecycle calls issued for the first `n` services of a reachable
/// server, in declared order.
pub open spec fn server_steps_upto(s: int, svcs: Seq<StepAnswers>, n: int) -> Seq<TraceEntry>
    decreases n,
{
    if n <= 0 {
        Seq::empty()
    } else {
        server_steps_upto(s, svcs, n - 1) + remote_entries(s, n - 1, svcs[n - 1])
    }
}

/// The calls issued for one server: its probe, then — only when it answered
/// — every service's lifecycle steps in declared order.
pub open spec fn server_trace(s: int, sw: ServerWorld) -> Seq<TraceEntry> {
    seq![TraceEntry::Probe { server: s as usize }] + if sw.reachable {
        server_steps_upto(s, sw.services@, sw.services@.len() as int)
    } else {
        Seq::empty()
    }
}

/// The calls issued for the first `n` servers, in declared order.
pub open spec fn servers_trace_upto(w: World, n: int) -> Seq<TraceEntry>
    decreases n,
{
    if n <= 0 {
        Seq::empty()
    } else {
        servers_trace_upto(w, n - 1) + server_trace(n - 1, w.servers@[n - 1])
    }
}

/// The records of the first `n` servers, in declared order.
pub open spec fn servers_records_upto(w: World, n: int) -> Seq<Record>
    decreases n,
{
    if n <= 0 {
        Seq::empty()
    } else {
        servers_records_upto(w, n - 1) + server_records(n - 1, w.servers@[n - 1])
    }
}

/// Every call of a whole run: the local pass first, then every server in
/// declared order.
pub open spec fn run_trace(w: World) -> Seq<TraceEntry> {
    local_trace(w.local@) + servers_trace_upto(w, w.servers@.len() as int)
}

/// Every record of a whole run: the local services first, then every
/// server's services, each list in declared order.
pub open spec fn run_records(w: World) -> Seq<Record> {
    local_records(w.local@) + servers_records_upto(w, w.servers@.len() as int)
}

/// Drives one service of a reachable remote server through its lifecycle:
/// upload, stop, update, start, each step only after every step before it
/// succeeded. Returns the issued calls and the service's terminal state.
pub fn manage_remote_container(
    server: &ServerSpec,
    s: usize,
    j: usize,
    a: &StepAnswers,
    public_dir: &str,
) -> (r: (Vec<Call>, Outcome))
    requires
        j < server.services@.len(),
    ensures
        r.0@.len() == remote_entries(s as int, j as int, *a).len(),
        forall|k: int|
            0 <= k < r.0@.len() ==> (#[trigger] r.0@[k]).entry == remote_entries(
                s as int,
                j as int,
                *a,
            )[k] && invocation_matches_server(server@, public_dir@, r.0@[k].entry, r.0@[
                k
            ].invocation),
        r.1 == remote_outcome(*a),
{
    let mut calls: Vec<Call> = Vec::new();
    let image = &server.services[j];
    calls.push(
        Call {
            entry: TraceEntry::RemoteRun { server: s, service: j, step: RemoteStep::Upload },
            invocation: remote_step_command(
                RemoteStep::Upload,
                image.as_str(),
                server.username.as_str(),
                server.ip.as_str(),
                server.port.as_str(),
                public_dir,
            ),
        },
    );
    if !a.upload_ok {
        return (calls, Outcome::RemoteStepFailed { step: RemoteStep::Upload });
    }
    calls.push(
        Call {
            entry: TraceEntry::RemoteRun { server: s, service: j, step: RemoteStep::Stop },
            invocation: remote_step_command(
                RemoteStep::Stop,
                image.as_str(),
                server.username.as_str(),
                server.ip.as_str(),
                server.port.as_str(),
                public_dir,
            ),
        },
    );
    if !a.stop_ok {
        return (calls, Outcome::RemoteStepFailed { step: RemoteStep::Stop });
    }
    calls.push(
        Call {
            entry: TraceEntry::RemoteRun { server: s, service: j, step: RemoteStep::Update },
            invocation: remote_step_command(
                RemoteStep::Update,
                image.as_str(),
                server.username.as_str(),
                server.ip.as_str(),
                server.port.as_str(),
                public_dir,
            ),
        },
    );
    if !a.update_ok {
        return (calls, Outcome::RemoteStepFailed { step: RemoteStep::Update });
    }
    calls.push(
        Call {
            entry: TraceEntry::RemoteRun { server: s, service: j, step: RemoteStep::Start },
            invocation: remote_step_command(
                RemoteStep::Start,
                image.as_str(),
                server.username.as_str(),
                server.ip.as_str(),
                server.port.as_str(),
                public_dir,
            ),
        },
    );
    if !a.start_ok {
        return (calls, Outcome::RemoteStepFailed { step: RemoteStep::Start });
    }
    (calls, Outcome::Done)
}

/// Reconciles every locally hosted service, in declared order: stop, pull,
/// start, three local subprocess calls per service. A service missing its
/// directory or its deployment descriptor is recorded as a configuration
/// error and gets no calls; a failing step halts the whole local pass and
/// the services after it are recorded as skipped.
pub fn deploy_local(c: &Config, w: &World) -> (r: (Vec<Call>, Vec<Record>))
    requires
        w.local@.len() == c.local_services@.len(),
    ensures
        calls_ok(r.0@, local_trace(w.local@), c@, Seq::<char>::empty()),
        r.1@ == local_records(w.local@),
{
    let ghost ans = w.local@;
    let mut calls: Vec<Call> = Vec::new();
    let mut records: Vec<Record> = Vec::new();
    let mut halted = false;
    let mut i: usize = 0;
    while i < c.local_services.len()
        invariant
            0 <= i <= ans.len(),
            ans == w.local@,
            ans.len() == c.local_services@.len(),
            halted == local_halted_before(ans, i as int),
            calls_ok(calls@, local_trace_upto(ans, i as int), c@, Seq::<char>::empty()),
            records@.len() == i as int,
            forall|k: int| 0 <= k < i ==> records@[k] == local_records(ans)[k],
        decreases ans.len() - i,
    {
        let a = w.local[i];
        if halted {
            records.push(Record { id: PairId::Local { service: i }, outcome: Outcome::Skipped });
            proof {
                assert(local_halted_before(ans, i as int + 1));
                assert(local_trace_upto(ans, i as int + 1) =~= local_trace_upto(ans, i as int));
            }
        } else if !(a.dir_present && a.file_present) {
            records.push(
                Record { id: PairId::Local { service: i }, outcome: Outcome::ConfigError },
            );
            proof {
                assert(!local_halts(ans[i as int]));
                assert(!local_halted_before(ans, i as int + 1));
                assert(local_entries(i as int, ans[i as int]) =~= Seq::<TraceEntry>::empty());
                assert(local_trace_upto(ans, i as int + 1) =~= local_trace_upto(ans, i as int));
            }
        } else {
            let name = &c.local_services[i];
            calls.push(
                Call {
                    entry: TraceEntry::LocalRun { service: i, step: LocalStep::Down },
                    invocation: local_step_command(LocalStep::Down, name.as_str()),
                },
            );
            if !a.down_ok {
                records.push(
                    Record {
                        id: PairId::Local { service: i },
                        outcome: Outcome::LocalStepFailed { step: LocalStep::Down },
                    },
                );
                halted = true;
                proof {
                    assert(local_halts(ans[i as int]));
                    assert(local_halted_before(ans, i as int + 1));
                    assert(local_trace_upto(ans, i as int + 1) =~= local_trace_upto(
                        ans,
                        i as int,
                    ).push(TraceEntry::LocalRun { service: i, step: LocalStep::Down }));
                }
            } else {
                calls.push(
                    Call {
                        entry: TraceEntry::LocalRun { service: i, step: LocalStep::Pull },
                        invocation: local_step_command(LocalStep::Pull, name.as_str()),
                    },
                );
                if !a.pull_ok {
                    records.push(
                        Record {
                            id: PairId::Local { service: i },
                            outcome: Outcome::LocalStepFailed { step: LocalStep::Pull },
                        },
                    );
                    halted = true;
                    proof {
                        assert(local_halts(ans[i as int]));
                        assert(local_halted_before(ans, i as int + 1));
                        assert(local_trace_upto(ans, i as int + 1) =~= local_trace_upto(
                            ans,
                            i as int,
                        ) + local_entries(i as int, ans[i as int]));
                    }
                } else {
                    calls.push(
                        Call {
                            entry: TraceEntry::LocalRun { service: i, step: LocalStep::Up },
                            invocation: local_step_command(LocalStep::Up, name.as_str()),
                        },
                    );
                    let outcome = if !a.up_ok {
                        halted = true;
                        Outcome::LocalStepFailed { step: LocalStep::Up }
                    } else {
                        Outcome::Done
                    };
                    records.push(Record { id: PairId::Local { service: i }, outcome });
                    proof {
                        if !ans[i as int].up_ok {
                            assert(local_halts(ans[i as int]));
                            assert(local_halted_before(ans, i as int + 1));
                        } else {
                            assert(!local_halts(ans[i as int]));
                            assert(!local_halted_before(ans, i as int + 1));
                        }
                        assert(local_trace_upto(ans, i as int + 1) =~= local_trace_upto(
                            ans,
                            i as int,
                        ) + local_entries(i as int, ans[i as int]));
                    }
                }
            }
        }
        i = i + 1;
    }
    proof {
        assert(records@ =~= local_records(ans));
    }
    (calls, records)
}

/// The command line that belongs to one lifecycle step of one server's
/// service, given that server's coordinates alone.
pub open spec fn invocation_matches_server(
    sv: crate::config::ServerSpecV,
    public_dir: Seq<char>,
    e: TraceEntry,
    inv: Invocation,
) -> bool {
    match e {
        TraceEntry::Probe { .. } => {
            &&& inv.program@ == "ncat"@
            &&& inv.args.deep_view() == seq!["-z"@, sv.ip, sv.port]
            &&& inv.dir@ == "."@
        },
        TraceEntry::RemoteRun { server, service, step } => {
            let image = sv.services[service as int];
            &&& inv.dir@ == "."@
            &&& if step is Upload {
                &&& inv.program@ == "rsync"@
                &&& inv.args.deep_view() == seq![
                    "-a"@,
                    "-z"@,
                    "-e"@,
                    "ssh -p "@ + sv.port,
                    public_dir + "/"@ + image + "/"@,
                    sv.username + "@"@ + sv.ip + ":"@ + image,
                ]
            } else {
                &&& inv.program@ == "ssh"@
                &&& inv.args.deep_view() == remote_shell_args(step, image).insert(
                    0,
                    sv.username + "@"@ + sv.ip,
                )
            }
        },
        _ => false,
    }
}

/// The calls issued for one server follow the given trace, each with the
/// command line that server's coordinates prescribe.
pub open spec fn server_calls_ok(
    calls: Seq<Call>,
    trace: Seq<TraceEntry>,
    sv: crate::config::ServerSpecV,
    public_dir: Seq<char>,
) -> bool {
    &&& calls.len() == trace.len()
    &&& forall|k: int|
        0 <= k < calls.len() ==> (#[trigger] calls[k]).entry == trace[k]
            && invocation_matches_server(sv, public_dir, trace[k], calls[k].invocation)
}

/// The entry concerns server `s`: its probe or one of its services' steps.
pub open spec fn entry_of_server(e: TraceEntry, s: int) -> bool {
    match e {
        TraceEntry::Probe { server } => server as int == s,
        TraceEntry::LocalRun { .. } => false,
        TraceEntry::RemoteRun { server, .. } => server as int == s,
    }
}

/// The entry is a local reconciliation step.
pub open spec fn entry_is_local(e: TraceEntry) -> bool {
    e is LocalRun
}

/// Every entry of a server's step trace carries that server's index.
pub proof fn lemma_server_steps_entries(s: int, svcs: Seq<StepAnswers>, n: int)
    requires
        0 <= s <= usize::MAX,
    ensures
        forall|k: int|
            0 <= k < server_steps_upto(s, svcs, n).len() ==> entry_of_server(
                #[trigger] server_steps_upto(s, svcs, n)[k],
                s,
            ),
    decreases n,
{
    if n > 0 {
        lemma_server_steps_entries(s, svcs, n - 1);
        let pre = server_steps_upto(s, svcs, n - 1);
        let seg = remote_entries(s, n - 1, svcs[n - 1]);
        assert forall|k: int|
            0 <= k < server_steps_upto(s, svcs, n).len() implies entry_of_server(
            #[trigger] server_steps_upto(s, svcs, n)[k],
            s,
        ) by {
            if k < pre.len() {
                assert(server_steps_upto(s, svcs, n)[k] == pre[k]);
            } else {
                assert(server_steps_upto(s, svcs, n)[k] == seg[k - pre.len()]);
            }
        }
    }
}

/// Every entry of a server's trace carries that server's index.
pub proof fn lemma_server_trace_entries(s: int, sw: ServerWorld)
    requires
        0 <= s <= usize::MAX,
    ensures
        forall|k: int|
            0 <= k < server_trace(s, sw).len() ==> entry_of_server(
                #[trigger] server_trace(s, sw)[k],
                s,
            ),
{
    lemma_server_steps_entries(s, sw.services@, sw.services@.len() as int);
    let probe = seq![TraceEntry::Probe { server: s as usize }];
    let steps = if sw.reachable {
        server_steps_upto(s, sw.services@, sw.services@.len() as int)
    } else {
        Seq::<TraceEntry>::empty()
    };
    assert forall|k: int| 0 <= k < server_trace(s, sw).len() implies entry_of_server(
        #[trigger] server_trace(s, sw)[k],
        s,
    ) by {
        if k == 0 {
            assert(server_trace(s, sw)[k] == probe[0]);
        } else {
            assert(server_trace(s, sw)[k] == steps[k - 1]);
        }
    }
}

/// Every entry of the local pass's trace is a local step.
pub proof fn lemma_local_trace_entries(ans: Seq<LocalAnswers>, n: int)
    ensures
        forall|k: int|
            0 <= k < local_trace_upto(ans, n).len() ==> entry_is_local(
                #[trigger] local_trace_upto(ans, n)[k],
            ),
    decreases n,
{
    if n > 0 {
        lemma_local_trace_entries(ans, n - 1);
        let pre = local_trace_upto(ans, n - 1);
        let seg = if local_halted_before(ans, n - 1) {
            Seq::<TraceEntry>::empty()
        } else {
            local_entries(n - 1, ans[n - 1])
        };
        assert forall|k: int| 0 <= k < local_trace_upto(ans, n).len() implies entry_is_local(
            #[trigger] local_trace_upto(ans, n)[k],
        ) by {
            if k < pre.len() {
                assert(local_trace_upto(ans, n)[k] == pre[k]);
            } else {
                assert(local_trace_upto(ans, n)[k] == seg[k - pre.len()]);
            }
        }
    }
}

/// Probes one server and, when it answers, drives each of its services
/// through its lifecycle in declared order; when it does not answer, every
/// service is recorded unreachable and nothing else is issued for it.
pub fn deploy_server(server: &ServerSpec, s: usize, sw: &ServerWorld, public_dir: &str) -> (r: (
    Vec<Call>,
    Vec<Record>,
))
    requires
        sw.services@.len() == server.services@.len(),
    ensures
        server_calls_ok(r.0@, server_trace(s as int, *sw), server@, public_dir@),
        r.1@ == server_records(s as int, *sw),
{
    let ghost svcs = sw.services@;
    let mut calls: Vec<Call> = Vec::new();
    let mut records: Vec<Record> = Vec::new();
    calls.push(
        Call {
            entry: TraceEntry::Probe { server: s },
            invocation: check_connexion(server.ip.as_str(), server.port.as_str()),
        },
    );
    proof {
        assert(calls@.len() == 1);
        assert(seq![TraceEntry::Probe { server: s }] + server_steps_upto(s as int, svcs, 0)
            =~= seq![TraceEntry::Probe { server: s }]);
        assert(server_calls_ok(
            calls@,
            seq![TraceEntry::Probe { server: s }] + server_steps_upto(s as int, svcs, 0),
            server@,
            public_dir@,
        ));
    }
    if !sw.reachable {
        let mut j: usize = 0;
        while j < server.services.len()
            invariant
                0 <= j <= server.services@.len(),
                sw.services@.len() == server.services@.len(),
                !sw.reachable,
                records@.len() == j as int,
                forall|k: int| 0 <= k < j ==> records@[k] == server_records(s as int, *sw)[k],
            decreases server.services@.len() - j,
        {
            records.push(
                Record {
                    id: PairId::Remote { server: s, service: j },
                    outcome: Outcome::Unreachable,
                },
            );
            j = j + 1;
        }
        proof {
            assert(records@ =~= server_records(s as int, *sw));
            assert(server_trace(s as int, *sw) =~= seq![TraceEntry::Probe { server: s }]);
        }
    } else {
        let mut j: usize = 0;
        while j < server.services.len()
            invariant
                0 <= j <= server.services@.len(),
                svcs == sw.services@,
                sw.services@.len() == server.services@.len(),
                sw.reachable,
                server_calls_ok(
                    calls@,
                    seq![TraceEntry::Probe { server: s }] + server_steps_upto(
                        s as int,
                        svcs,
                        j as int,
                    ),
                    server@,
                    public_dir@,
                ),
                records@.len() == j as int,
                forall|k: int| 0 <= k < j ==> records@[k] == server_records(s as int, *sw)[k],
            decreases server.services@.len() - j,
        {
            let (mut svc_calls, outcome) = manage_remote_container(
                server,
                s,
                j,
                &sw.services[j],
                public_dir,
            );
            calls.append(&mut svc_calls);
            records.push(Record { id: PairId::Remote { server: s, service: j }, outcome });
            proof {
                assert(seq![TraceEntry::Probe { server: s }] + server_steps_upto(
                    s as int,
                    svcs,
                    j as int + 1,
                ) =~= (seq![TraceEntry::Probe { server: s }] + server_steps_upto(
                    s as int,
                    svcs,
                    j as int,
                )) + remote_entries(s as int, j as int, svcs[j as int]));
            }
            j = j + 1;
        }
        proof {
            assert(server_trace(s as int, *sw) == seq![TraceEntry::Probe { server: s }]
                + server_steps_upto(s as int, svcs, svcs.len() as int));
            assert(records@ =~= server_records(s as int, *sw));
        }
    }
    (calls, records)
}

/// Deploys every declared service on every declared remote server, in
/// declared order: each server is probed first, and only a server that
/// answers has its services driven through upload, stop, update, start.
pub fn deploy_to_remote(c: &Config, w: &World, public_dir: &str) -> (r: (Vec<Call>, Vec<Record>))
    requires
        w.servers@.len() == c.servers@.len(),
        forall|s: int|
            0 <= s < w.servers@.len() ==> (#[trigger] w.servers@[s].services@.len())
                == c.servers@[s].services@.len(),
    ensures
        calls_ok(r.0@, servers_trace_upto(*w, w.servers@.len() as int), c@, public_dir@),
        r.1@ == servers_records_upto(*w, w.servers@.len() as int),
{
    let mut calls: Vec<Call> = Vec::new();
    let mut records: Vec<Record> = Vec::new();
    let mut s: usize = 0;
    while s < c.servers.len()
        invariant
            0 <= s <= c.servers@.len(),
            w.servers@.len() == c.servers@.len(),
            forall|t: int|
                0 <= t < w.servers@.len() ==> (#[trigger] w.servers@[t].services@.len())
                    == c.servers@[t].services@.len(),
            calls_ok(calls@, servers_trace_upto(*w, s as int), c@, public_dir@),
            records@ == servers_records_upto(*w, s as int),
        decreases c.servers@.len() - s,
    {
        let (mut sc, mut sr) = deploy_server(&c.servers[s], s, &w.servers[s], public_dir);
        let ghost pre_calls = calls@;
        let ghost sc_v = sc@;
        let ghost sr_v = sr@;
        calls.append(&mut sc);
        records.append(&mut sr);
        proof {
            let sv = c.servers@[s as int]@;
            lemma_server_trace_entries(s as int, w.servers@[s as int]);
            assert(c@.servers[s as int] == sv);
            assert forall|k: int| 0 <= k < sc_v.len() implies (#[trigger] sc_v[k]).entry
                == server_trace(s as int, w.servers@[s as int])[k] && invocation_matches(
                c@,
                public_dir@,
                sc_v[k].entry,
                sc_v[k].invocation,
            ) by {
                assert(entry_of_server(server_trace(s as int, w.servers@[s as int])[k], s as int));
            }
            assert(servers_trace_upto(*w, s as int + 1) == servers_trace_upto(*w, s as int)
                + server_trace(s as int, w.servers@[s as int]));
            assert(calls@ == pre_calls + sc_v);
            assert(calls_ok(
                calls@,
                servers_trace_upto(*w, s as int + 1),
                c@,
                public_dir@,
            ));
            assert(records@ =~= servers_records_upto(*w, s as int + 1));
        }
        s = s + 1;
    }
    (calls, records)
}

/// One whole deployment run: the local pass first, then every remote
/// server. Returns every issued call in order, each with its exact command
/// line, and one outcome record per declared service.
pub fn deploy(c: &Config, w: &World, public_dir: &str) -> (r: (Vec<Call>, Vec<Record>))
    requires
        shape_ok(c@, *w),
    ensures
        calls_ok(r.0@, run_trace(*w), c@, public_dir@),
        r.1@ == run_records(*w),
{
    let (mut calls, mut records) = deploy_local(c, w);
    let ghost lc = calls@;
    let (mut rc, mut rr) = deploy_to_remote(c, w, public_dir);
    let ghost rc_v = rc@;
    let ghost rr_v = rr@;
    calls.append(&mut rc);
    records.append(&mut rr);
    proof {
        lemma_local_trace_entries(w.local@, w.local@.len() as int);
        assert forall|k: int| 0 <= k < lc.len() implies (#[trigger] lc[k]).entry == local_trace(
            w.local@,
        )[k] && invocation_matches(c@, public_dir@, lc[k].entry, lc[k].invocation) by {
            assert(entry_is_local(local_trace(w.local@)[k]));
        }
        assert(calls@ == lc + rc_v);
        assert(calls_ok(calls@, run_trace(*w), c@, public_dir@));
        assert(records@ =~= run_records(*w));
    }
    (calls, records)
}

/// The status queries a fleet check issues: one `ssh <user>@<ip> docker ps`
/// per declared server, in declared order.
pub fn dock_running(c: &Config) -> (r: Vec<Invocation>)
    ensures
        r@.len() == c.servers@.len(),
        forall|s: int|
            0 <= s < r@.len() ==> {
                let sv = c@.servers[s];
                &&& (#[trigger] r@[s]).program@ == "ssh"@
                &&& r@[s].args.deep_view() == seq![sv.username + "@"@ + sv.ip, "docker"@, "ps"@]
                &&& r@[s].dir@ == "."@
            },
{
    let mut out: Vec<Invocation> = Vec::new();
    let mut s: usize = 0;
    while s < c.servers.len()
        invariant
            0 <= s <= c.servers@.len(),
            out@.len() == s as int,
            forall|t: int|
                0 <= t < s ==> {
                    let sv = c@.servers[t];
                    &&& (#[trigger] out@[t]).program@ == "ssh"@
                    &&& out@[t].args.deep_view() == seq![
                        sv.username + "@"@ + sv.ip,
                        "docker"@,
                        "ps"@,
                    ]
                    &&& out@[t].dir@ == "."@
                },
        decreases c.servers@.len() - s,
    {
        let server = &c.servers[s];
        out.push(running(server.username.as_str(), server.ip.as_str()));
        s = s + 1;
    }
    out
}

} // verus!
