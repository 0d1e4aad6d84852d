//! Proved laws of a deployment run, stated over the run model of
//! [`crate::run`]: what a whole run records and issues, for every
//! configuration shape and every set of environment answers.

use vstd::prelude::*;

use crate::outcome::{Outcome, PairId, Record, TraceEntry};
use crate::run::{
    local_halted_before, local_outcome_at, local_records, local_trace, local_trace_upto,
    run_records, run_trace, server_outcome_at, server_records, server_steps_upto, server_trace,
    servers_records_upto, servers_trace_upto,
};
use crate::world::{
    local_attempt_ok, local_halts, local_outcome, local_steps_ok, remote_entries, remote_outcome,
    LocalAnswers, ServerWorld, StepAnswers, World,
};

verus! {

/// Total number of services declared under the first `n` servers.
pub open spec fn remote_total(w: World, n: int) -> int
    decreases n,
{
    if n <= 0 {
        0
    } else {
        remote_total(w, n - 1) + w.servers@[n - 1].services@.len()
    }
}

/// Position of the record of service `j` of server `s` within a whole
/// run's records.
pub open spec fn remote_pos(w: World, s: int, j: int) -> int {
    w.local@.len() + remote_total(w, s) + j
}

/// Position of the record of service `j` of server `s` within the remote
/// records alone.
pub open spec fn pair_pos(w: World, s: int, j: int) -> int {
    remote_total(w, s) + j
}

proof fn lemma_remote_total_nonneg(w: World, n: int)
    ensures
        remote_total(w, n) >= 0,
    decreases n,
{
    if n > 0 {
        lemma_remote_total_nonneg(w, n - 1);
    }
}

proof fn lemma_remote_total_monotone(w: World, m: int, n: int)
    requires
        0 <= m < n,
    ensures
        remote_total(w, m) + w.servers@[m].services@.len() <= remote_total(w, n),
    decreases n,
{
    if m + 1 < n {
        lemma_remote_total_monotone(w, m, n - 1);
    }
}

proof fn lemma_servers_records_len(w: World, n: int)
    ensures
        servers_records_upto(w, n).len() == if n >= 0 {
            remote_total(w, n)
        } else {
            0
        },
    decreases n,
{
    if n > 0 {
        lemma_servers_records_len(w, n - 1);
        lemma_remote_total_nonneg(w, n - 1);
    }
}

proof fn lemma_servers_records_index(w: World, n: int, s: int, j: int)
    requires
        0 <= s < n,
        0 <= j < w.servers@[s].services@.len(),
        n <= w.servers@.len(),
    ensures
        0 <= remote_total(w, s) + j < servers_records_upto(w, n).len(),
        servers_records_upto(w, n)[remote_total(w, s) + j] == (Record {
            id: PairId::Remote { server: s as usize, service: j as usize },
            outcome: server_outcome_at(w.servers@[s], j),
        }),
    decreases n,
{
    lemma_remote_total_nonneg(w, s);
    lemma_servers_records_len(w, n);
    lemma_servers_records_len(w, n - 1);
    if s < n - 1 {
        lemma_servers_records_index(w, n - 1, s, j);
        lemma_remote_total_monotone(w, s, n - 1);
    } else {
        // s == n - 1: the record sits in the last appended block.
        assert(servers_records_upto(w, n) == servers_records_upto(w, n - 1) + server_records(
            n - 1,
            w.servers@[n - 1],
        ));
    }
}

/// Every remote position decomposes into a server and one of its services.
proof fn lemma_remote_pos_onto(w: World, n: int, k: int)
    requires
        0 <= k < remote_total(w, n),
        0 <= n <= w.servers@.len(),
    ensures
        exists|s: int, j: int|
            0 <= s < n && 0 <= j < w.servers@[s].services@.len() && k == #[trigger] pair_pos(
                w,
                s,
                j,
            ),
    decreases n,
{
    lemma_remote_total_nonneg(w, n - 1);
    if k < remote_total(w, n - 1) {
        lemma_remote_pos_onto(w, n - 1, k);
        let (s, j): (int, int) = choose|s: int, j: int|
            0 <= s < n - 1 && 0 <= j < w.servers@[s].services@.len() && k == #[trigger] pair_pos(
                w,
                s,
                j,
            );
        assert(0 <= s < n && 0 <= j < w.servers@[s].services@.len() && k == pair_pos(w, s, j));
    } else {
        let s = n - 1;
        let j = k - remote_total(w, s);
        assert(0 <= s < n && 0 <= j < w.servers@[s].services@.len() && k == pair_pos(w, s, j));
    }
}

/// Every run records every declared service exactly once, in processing
/// order: the local services first, at their declared positions, then each
/// server's services in declared order. No service is recorded twice and
/// none is dropped; a service under an unreachable server is recorded
/// `Unreachable`, one behind a halted local pass `Skipped`.
pub proof fn lemma_every_service_once(w: World)
    requires
        w.local@.len() <= usize::MAX,
        w.servers@.len() <= usize::MAX,
        forall|s: int|
            0 <= s < w.servers@.len() ==> (#[trigger] w.servers@[s].services@.len())
                <= usize::MAX,
    ensures
        run_records(w).len() == w.local@.len() + remote_total(w, w.servers@.len() as int),
        forall|i: int|
            0 <= i < w.local@.len() ==> run_records(w)[i] == (Record {
                id: PairId::Local { service: i as usize },
                outcome: local_outcome_at(w.local@, i),
            }),
        forall|s: int, j: int|
            0 <= s < w.servers@.len() && 0 <= j < w.servers@[s].services@.len() ==> run_records(
                w,
            )[remote_pos(w, s, j)] == (Record {
                id: PairId::Remote { server: s as usize, service: j as usize },
                outcome: server_outcome_at(w.servers@[s], j),
            }),
        forall|k1: int, k2: int|
            0 <= k1 < k2 < run_records(w).len() ==> run_records(w)[k1].id != run_records(
                w,
            )[k2].id,
{
    let n = w.servers@.len() as int;
    let nl = w.local@.len() as int;
    lemma_servers_records_len(w, n);
    assert forall|s: int, j: int|
        0 <= s < n && 0 <= j < w.servers@[s].services@.len() implies run_records(w)[remote_pos(
        w,
        s,
        j,
    )] == (Record {
        id: PairId::Remote { server: s as usize, service: j as usize },
        outcome: server_outcome_at(w.servers@[s], j),
    }) by {
        lemma_servers_records_index(w, n, s, j);
    }
    assert forall|k1: int, k2: int|
        0 <= k1 < k2 < run_records(w).len() implies run_records(w)[k1].id != run_records(
        w,
    )[k2].id by {
        lemma_record_id_distinct(w, k1, k2);
    }
}

/// Helper for uniqueness: the ids at two distinct positions differ.
proof fn lemma_record_id_distinct(w: World, k1: int, k2: int)
    requires
        w.local@.len() <= usize::MAX,
        w.servers@.len() <= usize::MAX,
        forall|s: int|
            0 <= s < w.servers@.len() ==> (#[trigger] w.servers@[s].services@.len())
                <= usize::MAX,
        0 <= k1 < k2 < run_records(w).len(),
    ensures
        run_records(w)[k1].id != run_records(w)[k2].id,
{
    let n = w.servers@.len() as int;
    let nl = w.local@.len() as int;
    lemma_servers_records_len(w, n);
    let id1 = record_id_at(w, k1);
    let id2 = record_id_at(w, k2);
    lemma_record_id_at(w, k1);
    lemma_record_id_at(w, k2);
    if k1 < nl && k2 < nl {
        assert(id1 == PairId::Local { service: k1 as usize });
        assert(id2 == PairId::Local { service: k2 as usize });
    } else if k1 < nl {
        assert(id1 is Local && id2 is Remote);
    } else {
        lemma_remote_pos_onto(w, n, k1 - nl);
        lemma_remote_pos_onto(w, n, k2 - nl);
        let (s1, j1): (int, int) = choose|s: int, j: int|
            0 <= s < n && 0 <= j < w.servers@[s].services@.len() && k1 - nl == #[trigger] pair_pos(
                w,
                s,
                j,
            );
        let (s2, j2): (int, int) = choose|s: int, j: int|
            0 <= s < n && 0 <= j < w.servers@[s].services@.len() && k2 - nl == #[trigger] pair_pos(
                w,
                s,
                j,
            );
        lemma_servers_records_index(w, n, s1, j1);
        lemma_servers_records_index(w, n, s2, j2);
        assert(id1 == PairId::Remote { server: s1 as usize, service: j1 as usize });
        assert(id2 == PairId::Remote { server: s2 as usize, service: j2 as usize });
        if s1 == s2 {
            assert(j1 != j2);
        } else if s1 < s2 {
            lemma_remote_total_monotone(w, s1, s2);
        } else {
            lemma_remote_total_monotone(w, s2, s1);
        }
    }
}

/// The entry is a transporter or executor call for a service of server `s`.
pub open spec fn remote_call_of(e: TraceEntry, s: int) -> bool {
    e matches TraceEntry::RemoteRun { server, .. } && server as int == s
}

/// The entry is a local reconciliation step of local service `i`.
pub open spec fn local_call_of(e: TraceEntry, i: int) -> bool {
    e matches TraceEntry::LocalRun { service, .. } && service as int == i
}

proof fn lemma_no_remote_calls_upto(w: World, s: int, n: int)
    requires
        0 <= s < w.servers@.len(),
        !w.servers@[s].reachable,
        0 <= n <= w.servers@.len(),
        w.servers@.len() <= usize::MAX,
    ensures
        forall|k: int|
            0 <= k < servers_trace_upto(w, n).len() ==> !remote_call_of(
                #[trigger] servers_trace_upto(w, n)[k],
                s,
            ),
    decreases n,
{
    if n > 0 {
        lemma_no_remote_calls_upto(w, s, n - 1);
        let pre = servers_trace_upto(w, n - 1);
        let seg = server_trace(n - 1, w.servers@[n - 1]);
        crate::run::lemma_server_trace_entries(n - 1, w.servers@[n - 1]);
        assert forall|k: int| 0 <= k < servers_trace_upto(w, n).len() implies !remote_call_of(
            #[trigger] servers_trace_upto(w, n)[k],
            s,
        ) by {
            if k < pre.len() {
                assert(servers_trace_upto(w, n)[k] == pre[k]);
            } else {
                assert(servers_trace_upto(w, n)[k] == seg[k - pre.len()]);
                if n - 1 == s {
                    assert(seg =~= seq![TraceEntry::Probe { server: s as usize }]);
                } else {
                    assert(crate::run::entry_of_server(seg[k - pre.len()], n - 1));
                }
            }
        }
    }
}

/// Unreachable-server law: when a server does not answer its probe, no
/// transporter or executor call is issued for any of its services in the
/// whole run — its trace holds its probe and nothing else of it.
pub proof fn lemma_unreachable_server_untouched(w: World, s: int)
    requires
        0 <= s < w.servers@.len(),
        w.servers@.len() <= usize::MAX,
        !w.servers@[s].reachable,
    ensures
        forall|k: int|
            0 <= k < run_trace(w).len() ==> !remote_call_of(#[trigger] run_trace(w)[k], s),
{
    let nl = local_trace(w.local@);
    let rs = servers_trace_upto(w, w.servers@.len() as int);
    crate::run::lemma_local_trace_entries(w.local@, w.local@.len() as int);
    lemma_no_remote_calls_upto(w, s, w.servers@.len() as int);
    assert forall|k: int| 0 <= k < run_trace(w).len() implies !remote_call_of(
        #[trigger] run_trace(w)[k],
        s,
    ) by {
        if k < nl.len() {
            assert(run_trace(w)[k] == nl[k]);
            assert(crate::run::entry_is_local(nl[k]));
        } else {
            assert(run_trace(w)[k] == rs[k - nl.len()]);
        }
    }
}

proof fn lemma_no_local_calls_upto(ans: Seq<LocalAnswers>, i: int, n: int)
    requires
        0 <= i < ans.len(),
        !local_attempt_ok(ans[i]),
        0 <= n <= ans.len(),
        ans.len() <= usize::MAX,
    ensures
        forall|k: int|
            0 <= k < local_trace_upto(ans, n).len() ==> !local_call_of(
                #[trigger] local_trace_upto(ans, n)[k],
                i,
            ),
    decreases n,
{
    if n > 0 {
        lemma_no_local_calls_upto(ans, i, n - 1);
        let pre = local_trace_upto(ans, n - 1);
        let seg = if local_halted_before(ans, n - 1) {
            Seq::<TraceEntry>::empty()
        } else {
            crate::world::local_entries(n - 1, ans[n - 1])
        };
        assert forall|k: int| 0 <= k < local_trace_upto(ans, n).len() implies !local_call_of(
            #[trigger] local_trace_upto(ans, n)[k],
            i,
        ) by {
            if k < pre.len() {
                assert(local_trace_upto(ans, n)[k] == pre[k]);
            } else {
                assert(local_trace_upto(ans, n)[k] == seg[k - pre.len()]);
            }
        }
    }
}

/// Missing-service law: a locally hosted service whose directory or
/// deployment descriptor is missing gets zero local subprocess calls in the
/// whole run; it is only recorded as a configuration error.
pub proof fn lemma_missing_service_untouched(w: World, i: int)
    requires
        0 <= i < w.local@.len(),
        w.local@.len() <= usize::MAX,
        !local_attempt_ok(w.local@[i]),
    ensures
        forall|k: int|
            0 <= k < run_trace(w).len() ==> !local_call_of(#[trigger] run_trace(w)[k], i),
{
    let nl = local_trace(w.local@);
    let rs = servers_trace_upto(w, w.servers@.len() as int);
    lemma_no_local_calls_upto(w.local@, i, w.local@.len() as int);
    lemma_servers_trace_no_local(w, w.servers@.len() as int);
    assert forall|k: int| 0 <= k < run_trace(w).len() implies !local_call_of(
        #[trigger] run_trace(w)[k],
        i,
    ) by {
        if k < nl.len() {
            assert(run_trace(w)[k] == nl[k]);
        } else {
            assert(run_trace(w)[k] == rs[k - nl.len()]);
        }
    }
}

proof fn lemma_servers_trace_no_local(w: World, n: int)
    ensures
        forall|k: int|
            0 <= k < servers_trace_upto(w, n).len() ==> !((#[trigger] servers_trace_upto(
                w,
                n,
            )[k]) is LocalRun),
    decreases n,
{
    if n > 0 {
        lemma_servers_trace_no_local(w, n - 1);
        let pre = servers_trace_upto(w, n - 1);
        let seg = server_trace(n - 1, w.servers@[n - 1]);
        lemma_server_trace_no_local(n - 1, w.servers@[n - 1]);
        assert forall|k: int|
            0 <= k < servers_trace_upto(w, n).len() implies !((#[trigger] servers_trace_upto(
            w,
            n,
        )[k]) is LocalRun) by {
            if k < pre.len() {
                assert(servers_trace_upto(w, n)[k] == pre[k]);
            } else {
                assert(servers_trace_upto(w, n)[k] == seg[k - pre.len()]);
            }
        }
    }
}

proof fn lemma_server_steps_no_local(s: int, svcs: Seq<StepAnswers>, n: int)
    ensures
        forall|k: int|
            0 <= k < server_steps_upto(s, svcs, n).len() ==> !((#[trigger] server_steps_upto(
                s,
                svcs,
                n,
            )[k]) is LocalRun),
    decreases n,
{
    if n > 0 {
        lemma_server_steps_no_local(s, svcs, n - 1);
        let pre = server_steps_upto(s, svcs, n - 1);
        let seg = remote_entries(s, n - 1, svcs[n - 1]);
        assert forall|k: int|
            0 <= k < server_steps_upto(s, svcs, n).len() implies !((#[trigger] server_steps_upto(
            s,
            svcs,
            n,
        )[k]) is LocalRun) by {
            if k < pre.len() {
                assert(server_steps_upto(s, svcs, n)[k] == pre[k]);
            } else {
                assert(server_steps_upto(s, svcs, n)[k] == seg[k - pre.len()]);
            }
        }
    }
}

proof fn lemma_server_trace_no_local(s: int, sw: ServerWorld)
    ensures
        forall|k: int|
            0 <= k < server_trace(s, sw).len() ==> !((#[trigger] server_trace(s, sw)[k])
                is LocalRun),
{
    lemma_server_steps_no_local(s, sw.services@, sw.services@.len() as int);
    let probe = seq![TraceEntry::Probe { server: s as usize }];
    let steps = if sw.reachable {
        server_steps_upto(s, sw.services@, sw.services@.len() as int)
    } else {
        Seq::<TraceEntry>::empty()
    };
    assert forall|k: int| 0 <= k < server_trace(s, sw).len() implies !((#[trigger] server_trace(
        s,
        sw,
    )[k]) is LocalRun) by {
        if k == 0 {
            assert(server_trace(s, sw)[k] == probe[0]);
        } else {
            assert(server_trace(s, sw)[k] == steps[k - 1]);
        }
    }
}

/// Two worlds have the same shape: equally many local services, servers,
/// and services per server.
pub open spec fn same_shape(w1: World, w2: World) -> bool {
    &&& w1.local@.len() == w2.local@.len()
    &&& w1.servers@.len() == w2.servers@.len()
    &&& forall|s: int|
        0 <= s < w1.servers@.len() ==> (#[trigger] w1.servers@[s].services@.len())
            == w2.servers@[s].services@.len()
}

proof fn lemma_total_congruent(w1: World, w2: World, n: int)
    requires
        same_shape(w1, w2),
        n <= w1.servers@.len(),
    ensures
        remote_total(w1, n) == remote_total(w2, n),
    decreases n,
{
    if n > 0 {
        lemma_total_congruent(w1, w2, n - 1);
    }
}

/// Failure-isolation law: what a run records for one remote service depends
/// only on its own server's reachability and its own step answers. Any
/// failure of another service — on the same server or on a different one —
/// leaves both its position and its record unchanged.
pub proof fn lemma_failure_isolation(w1: World, w2: World, s: int, j: int)
    requires
        same_shape(w1, w2),
        0 <= s < w1.servers@.len(),
        0 <= j < w1.servers@[s].services@.len(),
        w1.servers@[s].reachable == w2.servers@[s].reachable,
        w1.servers@[s].services@[j] == w2.servers@[s].services@[j],
    ensures
        remote_pos(w1, s, j) == remote_pos(w2, s, j),
        0 <= remote_pos(w1, s, j) < run_records(w1).len(),
        run_records(w1)[remote_pos(w1, s, j)] == run_records(w2)[remote_pos(w2, s, j)],
{
    let n = w1.servers@.len() as int;
    lemma_total_congruent(w1, w2, s);
    lemma_servers_records_len(w1, n);
    lemma_servers_records_len(w2, n);
    lemma_servers_records_index(w1, n, s, j);
    lemma_servers_records_index(w2, n, s, j);
    assert(server_outcome_at(w1.servers@[s], j) == server_outcome_at(w2.servers@[s], j));
}

/// Two worlds hold the same answers: an unchanged local tree and unchanged
/// remote state answer a re-run exactly as they answered the first run.
pub open spec fn same_answers(w1: World, w2: World) -> bool {
    &&& w1.local@ == w2.local@
    &&& w1.servers@.len() == w2.servers@.len()
    &&& forall|s: int|
        0 <= s < w1.servers@.len() ==> (#[trigger] w1.servers@[s]).reachable
            == w2.servers@[s].reachable && w1.servers@[s].services@ == w2.servers@[s].services@
}

/// Every answer allows every step: directories and descriptors present,
/// every server reachable, every step successful.
pub open spec fn all_ok(w: World) -> bool {
    &&& forall|i: int|
        0 <= i < w.local@.len() ==> local_attempt_ok(#[trigger] w.local@[i]) && local_steps_ok(
            w.local@[i],
        )
    &&& forall|s: int| 0 <= s < w.servers@.len() ==> (#[trigger] w.servers@[s]).reachable
    &&& forall|s: int, j: int|
        0 <= s < w.servers@.len() && 0 <= j < w.servers@[s].services@.len() ==> remote_outcome(
            #[trigger] w.servers@[s].services@[j],
        ) == Outcome::Done
}

proof fn lemma_records_congruent(w1: World, w2: World, n: int)
    requires
        same_answers(w1, w2),
        n <= w1.servers@.len(),
    ensures
        servers_records_upto(w1, n) == servers_records_upto(w2, n),
    decreases n,
{
    if n > 0 {
        lemma_records_congruent(w1, w2, n - 1);
        assert(server_records(n - 1, w1.servers@[n - 1]) =~= server_records(
            n - 1,
            w2.servers@[n - 1],
        ));
    }
}

/// Idempotence law: re-running on an unchanged local tree and unchanged
/// remote state records exactly the same outcomes, and when every answer
/// allows every step, every declared service ends `Done` — both times.
pub proof fn lemma_idempotent_rerun(w1: World, w2: World)
    requires
        same_answers(w1, w2),
        all_ok(w1),
    ensures
        run_records(w1) == run_records(w2),
        forall|k: int|
            0 <= k < run_records(w1).len() ==> (#[trigger] run_records(w1)[k]).outcome
                == Outcome::Done,
{
    let n = w1.servers@.len() as int;
    let nl = w1.local@.len() as int;
    lemma_records_congruent(w1, w2, n);
    assert(run_records(w1) == run_records(w2));
    lemma_servers_records_len(w1, n);
    assert forall|k: int|
        0 <= k < run_records(w1).len() implies (#[trigger] run_records(w1)[k]).outcome
        == Outcome::Done by {
        if k < nl {
            assert(run_records(w1)[k] == local_records(w1.local@)[k]);
            assert(!local_halted_before(w1.local@, k)) by {
                if local_halted_before(w1.local@, k) {
                    let j = choose|j: int| 0 <= j < k && local_halts(#[trigger] w1.local@[j]);
                    assert(local_steps_ok(w1.local@[j]));
                }
            }
            assert(local_outcome(w1.local@[k]) == Outcome::Done);
        } else {
            lemma_remote_pos_onto(w1, n, k - nl);
            let (s, j): (int, int) = choose|s: int, j: int|
                0 <= s < n && 0 <= j < w1.servers@[s].services@.len() && k - nl
                    == #[trigger] pair_pos(w1, s, j);
            lemma_servers_records_index(w1, n, s, j);
            assert(server_outcome_at(w1.servers@[s], j) == Outcome::Done);
        }
    }
}

/// The entry is a lifecycle step of service `j` of server `s`.
pub open spec fn call_of_pair(e: TraceEntry, s: int, j: int) -> bool {
    e matches TraceEntry::RemoteRun { server, service, .. } && server as int == s
        && service as int == j
}

/// Where the lifecycle steps of service `j` of server `s` begin within the
/// whole run's trace, when that server is reachable.
pub open spec fn pair_offset(w: World, s: int, j: int) -> int {
    local_trace(w.local@).len() + servers_trace_upto(w, s).len() + 1 + server_steps_upto(
        s,
        w.servers@[s].services@,
        j,
    ).len() as int
}

spec fn entry_server_lt(e: TraceEntry, m: int) -> bool {
    match e {
        TraceEntry::Probe { server } => (server as int) < m,
        TraceEntry::RemoteRun { server, .. } => (server as int) < m,
        TraceEntry::LocalRun { .. } => true,
    }
}

spec fn entry_server_ge(e: TraceEntry, m: int) -> bool {
    match e {
        TraceEntry::Probe { server } => (server as int) >= m,
        TraceEntry::RemoteRun { server, .. } => (server as int) >= m,
        TraceEntry::LocalRun { .. } => true,
    }
}

spec fn entry_service_lt(e: TraceEntry, m: int) -> bool {
    match e {
        TraceEntry::RemoteRun { service, .. } => (service as int) < m,
        _ => true,
    }
}

spec fn entry_service_ge(e: TraceEntry, m: int) -> bool {
    match e {
        TraceEntry::RemoteRun { service, .. } => (service as int) >= m,
        _ => true,
    }
}

proof fn lemma_servers_trace_prefix(w: World, m: int, n: int)
    requires
        0 <= m <= n,
    ensures
        servers_trace_upto(w, m).len() <= servers_trace_upto(w, n).len(),
        forall|k: int|
            0 <= k < servers_trace_upto(w, m).len() ==> #[trigger] servers_trace_upto(w, n)[k]
                == servers_trace_upto(w, m)[k],
    decreases n,
{
    if m < n {
        lemma_servers_trace_prefix(w, m, n - 1);
    }
}

proof fn lemma_steps_prefix(s: int, svcs: Seq<StepAnswers>, m: int, n: int)
    requires
        0 <= m <= n,
    ensures
        server_steps_upto(s, svcs, m).len() <= server_steps_upto(s, svcs, n).len(),
        forall|k: int|
            0 <= k < server_steps_upto(s, svcs, m).len() ==> #[trigger] server_steps_upto(
                s,
                svcs,
                n,
            )[k] == server_steps_upto(s, svcs, m)[k],
    decreases n,
{
    if m < n {
        lemma_steps_prefix(s, svcs, m, n - 1);
    }
}

proof fn lemma_servers_trace_server_lt(w: World, n: int)
    requires
        0 <= n <= usize::MAX,
    ensures
        forall|k: int|
            0 <= k < servers_trace_upto(w, n).len() ==> entry_server_lt(
                #[trigger] servers_trace_upto(w, n)[k],
                n,
            ),
    decreases n,
{
    if n > 0 {
        lemma_servers_trace_server_lt(w, n - 1);
        crate::run::lemma_server_trace_entries(n - 1, w.servers@[n - 1]);
        let pre = servers_trace_upto(w, n - 1);
        let seg = server_trace(n - 1, w.servers@[n - 1]);
        assert forall|k: int| 0 <= k < servers_trace_upto(w, n).len() implies entry_server_lt(
            #[trigger] servers_trace_upto(w, n)[k],
            n,
        ) by {
            if k < pre.len() {
                assert(servers_trace_upto(w, n)[k] == pre[k]);
                assert(entry_server_lt(pre[k], n - 1));
            } else {
                assert(servers_trace_upto(w, n)[k] == seg[k - pre.len()]);
                assert(crate::run::entry_of_server(seg[k - pre.len()], n - 1));
            }
        }
    }
}

proof fn lemma_servers_trace_server_ge(w: World, m: int, n: int)
    requires
        0 <= m <= n <= usize::MAX,
    ensures
        servers_trace_upto(w, m).len() <= servers_trace_upto(w, n).len(),
        forall|k: int|
            servers_trace_upto(w, m).len() <= k < servers_trace_upto(w, n).len()
                ==> entry_server_ge(#[trigger] servers_trace_upto(w, n)[k], m),
    decreases n,
{
    if m < n {
        lemma_servers_trace_server_ge(w, m, n - 1);
        crate::run::lemma_server_trace_entries(n - 1, w.servers@[n - 1]);
        let pre = servers_trace_upto(w, n - 1);
        let seg = server_trace(n - 1, w.servers@[n - 1]);
        assert forall|k: int|
            servers_trace_upto(w, m).len() <= k < servers_trace_upto(w, n).len()
                implies entry_server_ge(#[trigger] servers_trace_upto(w, n)[k], m) by {
            if k < pre.len() {
                assert(servers_trace_upto(w, n)[k] == pre[k]);
            } else {
                assert(servers_trace_upto(w, n)[k] == seg[k - pre.len()]);
                assert(crate::run::entry_of_server(seg[k - pre.len()], n - 1));
            }
        }
    }
}

proof fn lemma_steps_service_lt(s: int, svcs: Seq<StepAnswers>, n: int)
    requires
        0 <= n <= usize::MAX,
    ensures
        forall|k: int|
            0 <= k < server_steps_upto(s, svcs, n).len() ==> entry_service_lt(
                #[trigger] server_steps_upto(s, svcs, n)[k],
                n,
            ),
    decreases n,
{
    if n > 0 {
        lemma_steps_service_lt(s, svcs, n - 1);
        let pre = server_steps_upto(s, svcs, n - 1);
        let seg = remote_entries(s, n - 1, svcs[n - 1]);
        assert forall|k: int|
            0 <= k < server_steps_upto(s, svcs, n).len() implies entry_service_lt(
            #[trigger] server_steps_upto(s, svcs, n)[k],
            n,
        ) by {
            if k < pre.len() {
                assert(server_steps_upto(s, svcs, n)[k] == pre[k]);
                assert(entry_service_lt(pre[k], n - 1));
            } else {
                assert(server_steps_upto(s, svcs, n)[k] == seg[k - pre.len()]);
            }
        }
    }
}

proof fn lemma_steps_service_ge(s: int, svcs: Seq<StepAnswers>, m: int, n: int)
    requires
        0 <= m <= n <= usize::MAX,
    ensures
        server_steps_upto(s, svcs, m).len() <= server_steps_upto(s, svcs, n).len(),
        forall|k: int|
            server_steps_upto(s, svcs, m).len() <= k < server_steps_upto(s, svcs, n).len()
                ==> entry_service_ge(#[trigger] server_steps_upto(s, svcs, n)[k], m),
    decreases n,
{
    if m < n {
        lemma_steps_service_ge(s, svcs, m, n - 1);
        let pre = server_steps_upto(s, svcs, n - 1);
        let seg = remote_entries(s, n - 1, svcs[n - 1]);
        assert forall|k: int|
            server_steps_upto(s, svcs, m).len() <= k < server_steps_upto(s, svcs, n).len()
                implies entry_service_ge(#[trigger] server_steps_upto(s, svcs, n)[k], m) by {
            if k < pre.len() {
                assert(server_steps_upto(s, svcs, n)[k] == pre[k]);
            } else {
                assert(server_steps_upto(s, svcs, n)[k] == seg[k - pre.len()]);
            }
        }
    }
}

/// Step-ordering law: the lifecycle steps a run issues for one service on a
/// reachable server stand in the trace as one contiguous block — upload
/// first, then stop, update and start as far as each preceding step
/// succeeded — and no call for that service appears anywhere else. In
/// particular, a service whose steps all succeed has exactly the sequence
/// upload, stop, update, start, with no interleaving from any other
/// service.
pub proof fn lemma_step_ordering(w: World, s: int, j: int)
    requires
        0 <= s < w.servers@.len(),
        0 <= j < w.servers@[s].services@.len(),
        w.servers@.len() <= usize::MAX,
        w.servers@[s].services@.len() <= usize::MAX,
        w.servers@[s].reachable,
    ensures
        ({
            let seg = remote_entries(s, j, w.servers@[s].services@[j]);
            let off = pair_offset(w, s, j);
            &&& 0 <= off
            &&& off + seg.len() <= run_trace(w).len()
            &&& run_trace(w).subrange(off, off + seg.len()) == seg
            &&& forall|k: int|
                0 <= k < run_trace(w).len() && !(off <= k < off + seg.len()) ==> !call_of_pair(
                    #[trigger] run_trace(w)[k],
                    s,
                    j,
                )
        }),
{
    let lt = local_trace(w.local@);
    let n = w.servers@.len() as int;
    let svcs = w.servers@[s].services@;
    let nsv = svcs.len() as int;
    let seg = remote_entries(s, j, svcs[j]);
    let off = pair_offset(w, s, j);
    let stj = server_steps_upto(s, svcs, j);
    let stj1 = server_steps_upto(s, svcs, j + 1);
    let stfull = server_steps_upto(s, svcs, nsv);
    let st = server_trace(s, w.servers@[s]);
    let up_s = servers_trace_upto(w, s);
    let up_s1 = servers_trace_upto(w, s + 1);
    let up_n = servers_trace_upto(w, n);
    lemma_steps_prefix(s, svcs, j, j + 1);
    lemma_steps_prefix(s, svcs, j + 1, nsv);
    lemma_steps_prefix(s, svcs, j, nsv);
    lemma_servers_trace_prefix(w, s, s + 1);
    lemma_servers_trace_prefix(w, s + 1, n);
    lemma_servers_trace_prefix(w, s, n);
    assert(up_s1 == up_s + st);
    assert(stj1 == stj + seg);
    assert(st == seq![TraceEntry::Probe { server: s as usize }] + stfull);
    assert(off == lt.len() + up_s.len() + 1 + stj.len());
    assert(off + seg.len() <= run_trace(w).len());
    assert forall|r: int| 0 <= r < seg.len() implies run_trace(w)[off + r] == seg[r] by {
        let q = up_s.len() + 1 + stj.len() + r;
        assert(stj1[stj.len() + r] == seg[r]);
        assert(stfull[stj.len() + r] == stj1[stj.len() + r]);
        assert(st[1 + stj.len() + r] == stfull[stj.len() + r]);
        assert(up_s1[q] == st[q - up_s.len()]);
        assert(up_n[q] == up_s1[q]);
        assert(run_trace(w)[off + r] == up_n[q]);
    }
    assert(run_trace(w).subrange(off, off + seg.len()) =~= seg);
    crate::run::lemma_local_trace_entries(w.local@, w.local@.len() as int);
    lemma_servers_trace_server_lt(w, s);
    lemma_servers_trace_server_ge(w, s + 1, n);
    lemma_steps_service_lt(s, svcs, j);
    lemma_steps_service_ge(s, svcs, j + 1, nsv);
    assert forall|k: int|
        0 <= k < run_trace(w).len() && !(off <= k < off + seg.len()) implies !call_of_pair(
        #[trigger] run_trace(w)[k],
        s,
        j,
    ) by {
        if k < lt.len() {
            assert(run_trace(w)[k] == lt[k]);
            assert(crate::run::entry_is_local(lt[k]));
        } else {
            let p = k - lt.len();
            assert(run_trace(w)[k] == up_n[p]);
            if p < up_s.len() {
                assert(up_n[p] == up_s[p]);
                assert(entry_server_lt(up_s[p], s));
            } else if p >= up_s1.len() {
                assert(entry_server_ge(up_n[p], s + 1));
            } else {
                // Inside this server's own trace block.
                assert(up_n[p] == up_s1[p]);
                let t = p - up_s.len();
                assert(up_s1[p] == st[t]);
                if t == 0 {
                    assert(st[t] == TraceEntry::Probe { server: s as usize });
                } else {
                    let u = t - 1;
                    assert(st[t] == stfull[u]);
                    if u < stj.len() {
                        assert(stfull[u] == stj[u]);
                        assert(entry_service_lt(stj[u], j));
                    } else {
                        assert(u >= stj1.len());
                        assert(entry_service_ge(stfull[u], j + 1));
                    }
                }
            }
        }
    }
}

/// The id of the record at position `k`.
spec fn record_id_at(w: World, k: int) -> PairId {
    run_records(w)[k].id
}

proof fn lemma_record_id_at(w: World, k: int)
    requires
        0 <= k < run_records(w).len(),
    ensures
        k < w.local@.len() ==> record_id_at(w, k) == (PairId::Local { service: k as usize }),
        k >= w.local@.len() ==> record_id_at(w, k) is Remote,
{
    let n = w.servers@.len() as int;
    let nl = w.local@.len() as int;
    lemma_servers_records_len(w, n);
    if k >= nl {
        lemma_remote_pos_onto(w, n, k - nl);
        let (s, j): (int, int) = choose|s: int, j: int|
            0 <= s < n && 0 <= j < w.servers@[s].services@.len() && k - nl == #[trigger] pair_pos(
                w,
                s,
                j,
            );
        lemma_servers_records_index(w, n, s, j);
    }
}

} // verus!
