use docks::config::{Config, ServerSpec};
use docks::outcome::{LocalStep, Outcome, PairId, Record, RemoteStep, TraceEntry};
use docks::run::{deploy, deploy_local, deploy_to_remote, dock_running, manage_remote_container};
use docks::world::{LocalAnswers, ServerWorld, StepAnswers, World};

fn svec(xs: &[&str]) -> Vec<String> {
    xs.iter().map(|x| x.to_string()).collect()
}

fn server(name: &str, services: &[&str]) -> ServerSpec {
    ServerSpec {
        name: name.to_string(),
        username: "root".to_string(),
        ip: "10.0.0.7".to_string(),
        port: "22".to_string(),
        services: svec(services),
    }
}

fn ok_local() -> LocalAnswers {
    LocalAnswers {
        dir_present: true,
        file_present: true,
        down_ok: true,
        pull_ok: true,
        up_ok: true,
    }
}

fn ok_steps() -> StepAnswers {
    StepAnswers { upload_ok: true, stop_ok: true, update_ok: true, start_ok: true }
}

#[test]
fn unreachable_server_fails_its_service_and_issues_nothing() {
    // One server `edge`, unreachable, one service `api`.
    let c = Config { local_services: vec![], servers: vec![server("edge", &["api"])] };
    let w = World {
        local: vec![],
        servers: vec![ServerWorld { reachable: false, services: vec![ok_steps()] }],
    };
    let (calls, records) = deploy(&c, &w, "/srv/public");
    assert_eq!(
        records,
        vec![Record { id: PairId::Remote { server: 0, service: 0 }, outcome: Outcome::Unreachable }]
    );
    assert_eq!(calls.len(), 1);
    assert_eq!(calls[0].entry, TraceEntry::Probe { server: 0 });
    for call in &calls {
        assert!(!matches!(call.entry, TraceEntry::RemoteRun { .. }));
        assert!(!matches!(call.entry, TraceEntry::LocalRun { .. }));
    }
}

#[test]
fn reachable_server_runs_each_service_in_order() {
    // One reachable server `edge` with services [api, web]: probe, then the
    // four steps of api, then the four steps of web.
    let c = Config { local_services: vec![], servers: vec![server("edge", &["api", "web"])] };
    let w = World {
        local: vec![],
        servers: vec![ServerWorld { reachable: true, services: vec![ok_steps(), ok_steps()] }],
    };
    let (calls, records) = deploy(&c, &w, "/srv/public");
    let entries: Vec<TraceEntry> = calls.iter().map(|c| c.entry).collect();
    assert_eq!(
        entries,
        vec![
            TraceEntry::Probe { server: 0 },
            TraceEntry::RemoteRun { server: 0, service: 0, step: RemoteStep::Upload },
            TraceEntry::RemoteRun { server: 0, service: 0, step: RemoteStep::Stop },
            TraceEntry::RemoteRun { server: 0, service: 0, step: RemoteStep::Update },
            TraceEntry::RemoteRun { server: 0, service: 0, step: RemoteStep::Start },
            TraceEntry::RemoteRun { server: 0, service: 1, step: RemoteStep::Upload },
            TraceEntry::RemoteRun { server: 0, service: 1, step: RemoteStep::Stop },
            TraceEntry::RemoteRun { server: 0, service: 1, step: RemoteStep::Update },
            TraceEntry::RemoteRun { server: 0, service: 1, step: RemoteStep::Start },
        ]
    );
    assert_eq!(
        records,
        vec![
            Record { id: PairId::Remote { server: 0, service: 0 }, outcome: Outcome::Done },
            Record { id: PairId::Remote { server: 0, service: 1 }, outcome: Outcome::Done },
        ]
    );
    // The upload is the exact rsync call, the stop the exact remote shell call.
    assert_eq!(calls[1].invocation.program, "rsync");
    assert_eq!(
        calls[1].invocation.args,
        svec(&["-a", "-z", "-e", "ssh -p 22", "/srv/public/api/", "root@10.0.0.7:api"])
    );
    assert_eq!(calls[2].invocation.program, "ssh");
    assert_eq!(
        calls[2].invocation.args,
        svec(&["root@10.0.0.7", "docker", "compose", "--project-directory", "api", "down"])
    );
}

#[test]
fn local_service_without_descriptor_gets_no_calls() {
    // Local stack with service `db` missing its deployment descriptor file.
    let c = Config { local_services: svec(&["db"]), servers: vec![] };
    let w = World {
        local: vec![LocalAnswers { file_present: false, ..ok_local() }],
        servers: vec![],
    };
    let (calls, records) = deploy_local(&c, &w);
    assert!(calls.is_empty());
    assert_eq!(
        records,
        vec![Record { id: PairId::Local { service: 0 }, outcome: Outcome::ConfigError }]
    );
}

#[test]
fn local_pass_runs_down_pull_up_per_service() {
    let c = Config { local_services: svec(&["db", "cache"]), servers: vec![] };
    let w = World { local: vec![ok_local(), ok_local()], servers: vec![] };
    let (calls, records) = deploy_local(&c, &w);
    let entries: Vec<TraceEntry> = calls.iter().map(|c| c.entry).collect();
    assert_eq!(
        entries,
        vec![
            TraceEntry::LocalRun { service: 0, step: LocalStep::Down },
            TraceEntry::LocalRun { service: 0, step: LocalStep::Pull },
            TraceEntry::LocalRun { service: 0, step: LocalStep::Up },
            TraceEntry::LocalRun { service: 1, step: LocalStep::Down },
            TraceEntry::LocalRun { service: 1, step: LocalStep::Pull },
            TraceEntry::LocalRun { service: 1, step: LocalStep::Up },
        ]
    );
    assert_eq!(records[0].outcome, Outcome::Done);
    assert_eq!(records[1].outcome, Outcome::Done);
    assert_eq!(calls[0].invocation.dir, "./containers/db");
    assert_eq!(calls[3].invocation.dir, "./containers/cache");
}

#[test]
fn failing_local_step_halts_the_local_pass() {
    let c = Config { local_services: svec(&["db", "cache"]), servers: vec![] };
    let w = World {
        local: vec![LocalAnswers { pull_ok: false, ..ok_local() }, ok_local()],
        servers: vec![],
    };
    let (calls, records) = deploy_local(&c, &w);
    let entries: Vec<TraceEntry> = calls.iter().map(|c| c.entry).collect();
    assert_eq!(
        entries,
        vec![
            TraceEntry::LocalRun { service: 0, step: LocalStep::Down },
            TraceEntry::LocalRun { service: 0, step: LocalStep::Pull },
        ]
    );
    assert_eq!(
        records,
        vec![
            Record {
                id: PairId::Local { service: 0 },
                outcome: Outcome::LocalStepFailed { step: LocalStep::Pull },
            },
            Record { id: PairId::Local { service: 1 }, outcome: Outcome::Skipped },
        ]
    );
}

#[test]
fn transport_failure_stops_that_service_only() {
    // A transport error on service api does not prevent processing web on
    // the same server, nor anything on the second server.
    let c = Config {
        local_services: vec![],
        servers: vec![server("edge", &["api", "web"]), server("core", &["queue"])],
    };
    let w = World {
        local: vec![],
        servers: vec![
            ServerWorld {
                reachable: true,
                services: vec![StepAnswers { upload_ok: false, ..ok_steps() }, ok_steps()],
            },
            ServerWorld { reachable: true, services: vec![ok_steps()] },
        ],
    };
    let (calls, records) = deploy(&c, &w, "/srv/public");
    assert_eq!(
        records,
        vec![
            Record {
                id: PairId::Remote { server: 0, service: 0 },
                outcome: Outcome::RemoteStepFailed { step: RemoteStep::Upload },
            },
            Record { id: PairId::Remote { server: 0, service: 1 }, outcome: Outcome::Done },
            Record { id: PairId::Remote { server: 1, service: 0 }, outcome: Outcome::Done },
        ]
    );
    // api got exactly its failed upload; web all four steps.
    let api_calls: Vec<TraceEntry> = calls
        .iter()
        .map(|c| c.entry)
        .filter(|e| matches!(e, TraceEntry::RemoteRun { server: 0, service: 0, .. }))
        .collect();
    assert_eq!(
        api_calls,
        vec![TraceEntry::RemoteRun { server: 0, service: 0, step: RemoteStep::Upload }]
    );
    let web_calls: Vec<TraceEntry> = calls
        .iter()
        .map(|c| c.entry)
        .filter(|e| matches!(e, TraceEntry::RemoteRun { server: 0, service: 1, .. }))
        .collect();
    assert_eq!(web_calls.len(), 4);
}

#[test]
fn each_declared_service_is_recorded_exactly_once() {
    let c = Config {
        local_services: svec(&["db"]),
        servers: vec![server("edge", &["api", "web"]), server("core", &["queue"])],
    };
    let w = World {
        local: vec![ok_local()],
        servers: vec![
            ServerWorld { reachable: false, services: vec![ok_steps(), ok_steps()] },
            ServerWorld { reachable: true, services: vec![ok_steps()] },
        ],
    };
    let (_, records) = deploy(&c, &w, "/srv/public");
    let ids: Vec<PairId> = records.iter().map(|r| r.id).collect();
    assert_eq!(
        ids,
        vec![
            PairId::Local { service: 0 },
            PairId::Remote { server: 0, service: 0 },
            PairId::Remote { server: 0, service: 1 },
            PairId::Remote { server: 1, service: 0 },
        ]
    );
    for a in 0..ids.len() {
        for b in (a + 1)..ids.len() {
            assert_ne!(ids[a], ids[b]);
        }
    }
}

#[test]
fn rerunning_on_unchanged_state_is_idempotent() {
    let c = Config { local_services: svec(&["db"]), servers: vec![server("edge", &["api"])] };
    let w = World {
        local: vec![ok_local()],
        servers: vec![ServerWorld { reachable: true, services: vec![ok_steps()] }],
    };
    let (_, first) = deploy(&c, &w, "/srv/public");
    let (_, second) = deploy(&c, &w, "/srv/public");
    assert_eq!(first, second);
    for r in &first {
        assert_eq!(r.outcome, Outcome::Done);
    }
}

#[test]
fn manage_remote_container_stops_at_the_first_failing_step() {
    let sv = server("edge", &["api"]);
    let a = StepAnswers { update_ok: false, ..ok_steps() };
    let (calls, outcome) = manage_remote_container(&sv, 0, 0, &a, "/srv/public");
    let entries: Vec<TraceEntry> = calls.iter().map(|c| c.entry).collect();
    assert_eq!(
        entries,
        vec![
            TraceEntry::RemoteRun { server: 0, service: 0, step: RemoteStep::Upload },
            TraceEntry::RemoteRun { server: 0, service: 0, step: RemoteStep::Stop },
            TraceEntry::RemoteRun { server: 0, service: 0, step: RemoteStep::Update },
        ]
    );
    assert_eq!(outcome, Outcome::RemoteStepFailed { step: RemoteStep::Update });
}

#[test]
fn deploy_to_remote_probes_every_server() {
    let c = Config {
        local_services: vec![],
        servers: vec![server("edge", &[]), server("core", &[])],
    };
    let w = World {
        local: vec![],
        servers: vec![
            ServerWorld { reachable: true, services: vec![] },
            ServerWorld { reachable: false, services: vec![] },
        ],
    };
    let (calls, records) = deploy_to_remote(&c, &w, "/srv/public");
    let entries: Vec<TraceEntry> = calls.iter().map(|c| c.entry).collect();
    assert_eq!(
        entries,
        vec![TraceEntry::Probe { server: 0 }, TraceEntry::Probe { server: 1 }]
    );
    assert!(records.is_empty());
}

#[test]
fn dock_running_builds_one_status_query_per_server() {
    let c = Config {
        local_services: vec![],
        servers: vec![server("edge", &["api"]), server("core", &[])],
    };
    let invs = dock_running(&c);
    assert_eq!(invs.len(), 2);
    assert_eq!(invs[0].program, "ssh");
    assert_eq!(invs[0].args, svec(&["root@10.0.0.7", "docker", "ps"]));
    assert_eq!(invs[1].args, svec(&["root@10.0.0.7", "docker", "ps"]));
}

#[test]
fn empty_configuration_issues_and_records_nothing() {
    let c = Config { local_services: vec![], servers: vec![] };
    let w = World { local: vec![], servers: vec![] };
    let (calls, records) = deploy(&c, &w, "/srv/public");
    assert!(calls.is_empty());
    assert!(records.is_empty());
}
