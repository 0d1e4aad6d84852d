use docks::config::{Config, ServerSpec};
use docks::machine::{Action, Event, Orchestrator};
use docks::outcome::{LocalStep, Outcome, PairId, Record, RemoteStep, StepResult, TraceEntry};
use docks::replay::replay;
use docks::run::deploy;
use docks::world::{LocalAnswers, ServerWorld, StepAnswers, World};

fn svec(xs: &[&str]) -> Vec<String> {
    xs.iter().map(|x| x.to_string()).collect()
}

fn config_one_each() -> Config {
    Config {
        local_services: svec(&["db"]),
        servers: vec![ServerSpec {
            name: "edge".to_string(),
            username: "root".to_string(),
            ip: "10.0.0.7".to_string(),
            port: "22".to_string(),
            services: svec(&["api"]),
        }],
    }
}

#[test]
fn machine_walks_a_full_successful_run() {
    let mut m = Orchestrator::new(config_one_each(), "/srv/public".to_string());
    match m.next_action() {
        Action::CheckLocal { service } => assert_eq!(service, 0),
        other => panic!("expected a local check, got {:?}", other),
    }
    m.on_event(Event::Presence { dir_present: true, file_present: true });
    for expected in [LocalStep::Down, LocalStep::Pull, LocalStep::Up] {
        match m.next_action() {
            Action::RunLocal { service, step, inv } => {
                assert_eq!(service, 0);
                assert_eq!(step, expected);
                assert_eq!(inv.program, "docker");
                assert_eq!(inv.dir, "./containers/db");
            },
            other => panic!("expected a local step, got {:?}", other),
        }
        m.on_event(Event::StepDone { result: StepResult::Success });
    }
    match m.next_action() {
        Action::Probe { server, settle_secs, inv } => {
            assert_eq!(server, 0);
            assert_eq!(settle_secs, 1);
            assert_eq!(inv.program, "ncat");
            assert_eq!(inv.args, svec(&["-z", "10.0.0.7", "22"]));
        },
        other => panic!("expected a probe, got {:?}", other),
    }
    m.on_event(Event::Probed { result: StepResult::Success });
    for expected in [RemoteStep::Upload, RemoteStep::Stop, RemoteStep::Update, RemoteStep::Start] {
        match m.next_action() {
            Action::RunRemote { server, service, step, inv } => {
                assert_eq!(server, 0);
                assert_eq!(service, 0);
                assert_eq!(step, expected);
                if expected == RemoteStep::Upload {
                    assert_eq!(inv.program, "rsync");
                    assert_eq!(
                        inv.args,
                        svec(&[
                            "-a",
                            "-z",
                            "-e",
                            "ssh -p 22",
                            "/srv/public/api/",
                            "root@10.0.0.7:api"
                        ])
                    );
                } else {
                    assert_eq!(inv.program, "ssh");
                }
            },
            other => panic!("expected a remote step, got {:?}", other),
        }
        m.on_event(Event::StepDone { result: StepResult::Success });
    }
    match m.next_action() {
        Action::Done { aborted } => assert!(!aborted),
        other => panic!("expected the run to be over, got {:?}", other),
    }
    assert_eq!(
        m.trace,
        vec![
            TraceEntry::LocalRun { service: 0, step: LocalStep::Down },
            TraceEntry::LocalRun { service: 0, step: LocalStep::Pull },
            TraceEntry::LocalRun { service: 0, step: LocalStep::Up },
            TraceEntry::Probe { server: 0 },
            TraceEntry::RemoteRun { server: 0, service: 0, step: RemoteStep::Upload },
            TraceEntry::RemoteRun { server: 0, service: 0, step: RemoteStep::Stop },
            TraceEntry::RemoteRun { server: 0, service: 0, step: RemoteStep::Update },
            TraceEntry::RemoteRun { server: 0, service: 0, step: RemoteStep::Start },
        ]
    );
    assert_eq!(
        m.records,
        vec![
            Record { id: PairId::Local { service: 0 }, outcome: Outcome::Done },
            Record { id: PairId::Remote { server: 0, service: 0 }, outcome: Outcome::Done },
        ]
    );
}

#[test]
fn machine_skips_remaining_local_services_after_a_failure() {
    let c = Config { local_services: svec(&["db", "cache", "mail"]), servers: vec![] };
    let mut m = Orchestrator::new(c, "/srv/public".to_string());
    m.on_event(Event::Presence { dir_present: true, file_present: true });
    m.on_event(Event::StepDone { result: StepResult::Failure });
    match m.next_action() {
        Action::Done { aborted } => assert!(!aborted),
        other => panic!("expected the run to be over, got {:?}", other),
    }
    assert_eq!(
        m.records,
        vec![
            Record {
                id: PairId::Local { service: 0 },
                outcome: Outcome::LocalStepFailed { step: LocalStep::Down },
            },
            Record { id: PairId::Local { service: 1 }, outcome: Outcome::Skipped },
            Record { id: PairId::Local { service: 2 }, outcome: Outcome::Skipped },
        ]
    );
}

#[test]
fn machine_marks_every_service_of_an_unreachable_server() {
    let c = Config {
        local_services: vec![],
        servers: vec![ServerSpec {
            name: "edge".to_string(),
            username: "root".to_string(),
            ip: "10.0.0.7".to_string(),
            port: "22".to_string(),
            services: svec(&["api", "web"]),
        }],
    };
    let mut m = Orchestrator::new(c, "/srv/public".to_string());
    m.on_event(Event::Probed { result: StepResult::Failure });
    match m.next_action() {
        Action::Done { aborted } => assert!(!aborted),
        other => panic!("expected the run to be over, got {:?}", other),
    }
    assert_eq!(m.trace, vec![TraceEntry::Probe { server: 0 }]);
    assert_eq!(
        m.records,
        vec![
            Record {
                id: PairId::Remote { server: 0, service: 0 },
                outcome: Outcome::Unreachable,
            },
            Record {
                id: PairId::Remote { server: 0, service: 1 },
                outcome: Outcome::Unreachable,
            },
        ]
    );
}

#[test]
fn machine_aborts_when_a_tool_is_absent() {
    let mut m = Orchestrator::new(config_one_each(), "/srv/public".to_string());
    m.on_event(Event::Presence { dir_present: true, file_present: true });
    m.on_event(Event::StepDone { result: StepResult::ToolAbsent });
    match m.next_action() {
        Action::Done { aborted } => assert!(aborted),
        other => panic!("expected an aborted run, got {:?}", other),
    }
    assert!(m.trace.is_empty());
    assert_eq!(m.records, vec![]);
}

#[test]
fn machine_records_a_config_error_for_missing_files() {
    let mut m = Orchestrator::new(config_one_each(), "/srv/public".to_string());
    m.on_event(Event::Presence { dir_present: true, file_present: false });
    match m.next_action() {
        Action::Probe { server, .. } => assert_eq!(server, 0),
        other => panic!("expected to move on to the server, got {:?}", other),
    }
    assert_eq!(
        m.records,
        vec![Record { id: PairId::Local { service: 0 }, outcome: Outcome::ConfigError }]
    );
}

#[test]
fn machine_on_an_empty_configuration_is_done_at_once() {
    let c = Config { local_services: vec![], servers: vec![] };
    let m = Orchestrator::new(c, "/srv/public".to_string());
    match m.next_action() {
        Action::Done { aborted } => assert!(!aborted),
        other => panic!("expected the run to be over, got {:?}", other),
    }
}

#[test]
fn replay_agrees_with_the_batch_run() {
    let build = || Config {
        local_services: svec(&["db", "cache"]),
        servers: vec![
            ServerSpec {
                name: "edge".to_string(),
                username: "root".to_string(),
                ip: "10.0.0.7".to_string(),
                port: "22".to_string(),
                services: svec(&["api", "web"]),
            },
            ServerSpec {
                name: "core".to_string(),
                username: "admin".to_string(),
                ip: "10.0.0.8".to_string(),
                port: "2222".to_string(),
                services: svec(&["queue"]),
            },
        ],
    };
    let w = World {
        local: vec![
            LocalAnswers {
                dir_present: true,
                file_present: true,
                down_ok: true,
                pull_ok: true,
                up_ok: true,
            },
            LocalAnswers {
                dir_present: true,
                file_present: false,
                down_ok: true,
                pull_ok: true,
                up_ok: true,
            },
        ],
        servers: vec![
            ServerWorld {
                reachable: true,
                services: vec![
                    StepAnswers { upload_ok: true, stop_ok: false, update_ok: true, start_ok: true },
                    StepAnswers { upload_ok: true, stop_ok: true, update_ok: true, start_ok: true },
                ],
            },
            ServerWorld { reachable: false, services: vec![StepAnswers {
                upload_ok: true,
                stop_ok: true,
                update_ok: true,
                start_ok: true,
            }] },
        ],
    };
    let (calls, records) = deploy(&build(), &w, "/srv/public");
    let m = replay(build(), "/srv/public".to_string(), &w);
    let entries: Vec<TraceEntry> = calls.iter().map(|c| c.entry).collect();
    assert_eq!(m.trace, entries);
    assert_eq!(m.records, records);
}
