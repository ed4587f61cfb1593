use decman::map::TextMap;
use decman::server::peers::PeerRow;
use decman::server::workflows::{
    cancel_peer_runs_from, conclude_run, finalize_peer_run, finish_coordinator_run, finish_peer_job, job_after_write,
    recover_in_progress_workflows, refire_peer, register_run, release_run, respawn_coordinator, retry_peer_runs_from,
    start_peer_job, store_seconds, PeerJob, PeerStart, Recovery, RespawnAction, RespawnEvent,
    TaskEnd, WorkflowKind, WorkflowProgress, WorkflowRole, WorkflowRun, WorkflowType,
};

fn run(name: &str, role: WorkflowRole) -> WorkflowRun {
    WorkflowRun {
        instance_name: name.to_string(),
        kind: WorkflowKind::Kick,
        role,
        status: WorkflowProgress::InProgress,
        current_step: "WaitingForPeers".to_string(),
        config_json: "{}".to_string(),
        expected_peers: vec!["p1".to_string(), "p2".to_string()],
        completed_peers: vec![],
        coordinator_pubkey: None,
        coordinator_instance: None,
    }
}

fn peer_run(name: &str, pubkey: &str, instance: Option<&str>) -> WorkflowRun {
    let mut r = run(name, WorkflowRole::Peer);
    r.coordinator_pubkey = Some(pubkey.to_string());
    r.coordinator_instance = instance.map(|i| i.to_string());
    r
}

#[test]
fn a_peer_s_run_is_queued_again() {
    let job = refire_peer(&peer_run("r", "k", Some("c"))).unwrap();
    assert_eq!(job.instance_name, "r");
    assert_eq!(job.coordinator_pubkey, "k");
    assert_eq!(job.coordinator_instance, "c");
    assert_eq!(job.kind, WorkflowKind::Kick);
    assert_eq!(refire_peer(&peer_run("r", "k", None)).unwrap().coordinator_instance, "");
    assert!(refire_peer(&run("r", WorkflowRole::Peer)).is_none());
}

#[test]
fn every_interrupted_run_is_taken_care_of() {
    let runs = vec![
        run("a", WorkflowRole::Coordinator),
        peer_run("b", "k", Some("c")),
        run("d", WorkflowRole::Peer),
    ];
    let plan = recover_in_progress_workflows(Ok(runs));
    assert_eq!(plan.len(), 3);
    assert!(matches!(&plan[0], Recovery::Respawn(r) if r.instance_name == "a"));
    assert!(matches!(&plan[1], Recovery::Enqueue(j) if j.instance_name == "b"));
    assert!(matches!(&plan[2], Recovery::Skip(n) if n == "d"));
    assert!(recover_in_progress_workflows(Err("down".to_string())).is_empty());
}

#[test]
fn a_run_is_taken_up_step_by_step() {
    let r = run("a", WorkflowRole::Coordinator);
    assert!(matches!(
        respawn_coordinator(&r, RespawnEvent::ConfigRead(true), 1),
        RespawnAction::ReadStatus
    ));
    let read = RespawnEvent::StatusRead(Ok(Some(WorkflowProgress::InProgress)));
    match respawn_coordinator(&r, read, 1) {
        RespawnAction::Register(live) => {
            assert_eq!(live.instance_name, "a");
            assert_eq!(live.role, WorkflowRole::Coordinator);
            assert_eq!(live.invited_peers, vec!["p1", "p2"]);
            assert_eq!(live.status, WorkflowProgress::InProgress);
            assert!(live.error.is_none());
        }
        _ => panic!("not registered"),
    }
    assert!(matches!(
        respawn_coordinator(&r, RespawnEvent::Registered(true), 1),
        RespawnAction::Spawn(WorkflowType::Kick)
    ));
}

#[test]
fn a_run_with_an_unreadable_configuration_fails() {
    let r = run("a", WorkflowRole::Coordinator);
    match respawn_coordinator(&r, RespawnEvent::ConfigRead(false), 9) {
        RespawnAction::MarkFailed(change) => {
            assert_eq!(change.instance_name, "a");
            assert_eq!(change.status, WorkflowProgress::Failed);
            assert_eq!(change.error.as_deref(), Some("Resume failed: invalid config"));
            assert_eq!(change.at, 9);
        }
        _ => panic!("not failed"),
    }
}

#[test]
fn a_run_that_ended_meanwhile_is_left_alone() {
    let r = run("a", WorkflowRole::Coordinator);
    for status in [
        Some(WorkflowProgress::Cancelled),
        Some(WorkflowProgress::Failed),
        Some(WorkflowProgress::Completed),
        None,
    ] {
        assert!(matches!(
            respawn_coordinator(&r, RespawnEvent::StatusRead(Ok(status)), 1),
            RespawnAction::Stop
        ));
    }
    let unknown = RespawnEvent::StatusRead(Err("down".to_string()));
    assert!(matches!(respawn_coordinator(&r, unknown, 1), RespawnAction::Register(_)));
    assert!(matches!(
        respawn_coordinator(&r, RespawnEvent::Registered(false), 1),
        RespawnAction::Stop
    ));
}

fn live(name: &str) -> decman::server::workflows::LiveRun {
    let read = RespawnEvent::StatusRead(Ok(Some(WorkflowProgress::InProgress)));
    match respawn_coordinator(&run(name, WorkflowRole::Coordinator), read, 0) {
        RespawnAction::Register(live) => live,
        _ => panic!("not registered"),
    }
}

#[test]
fn a_coordinator_s_run_ends_either_way() {
    let mut l = live("a");
    let change = finish_coordinator_run(&mut l, Ok(()), 4);
    assert_eq!(l.status, WorkflowProgress::Completed);
    assert_eq!(change.status, WorkflowProgress::Completed);
    assert!(change.error.is_none());
    let mut l = live("a");
    let change = finish_coordinator_run(&mut l, Err("boom".to_string()), 4);
    assert_eq!(l.status, WorkflowProgress::Failed);
    assert_eq!(l.error.as_deref(), Some("boom"));
    assert_eq!(change.error.as_deref(), Some("boom"));
    assert_eq!(change.instance_name, "a");
}

#[test]
fn a_coordinator_cancels_its_own_runs_only() {
    let runs = vec![
        peer_run("a", "k", Some("one")),
        peer_run("b", "k", Some("two")),
        peer_run("c", "other", Some("one")),
        run("d", WorkflowRole::Coordinator),
        peer_run("e", "k", None),
    ];
    let named = cancel_peer_runs_from(&runs, "k", "one", 5);
    assert_eq!(named.len(), 1);
    assert_eq!(named[0].instance_name, "a");
    assert_eq!(named[0].status, WorkflowProgress::Cancelled);
    assert_eq!(named[0].error.as_deref(), Some("Coordinator cancelled the workflow"));
    assert_eq!(named[0].at, 5);
    let all = cancel_peer_runs_from(&runs, "k", "", 5);
    let names: Vec<&str> = all.iter().map(|c| c.instance_name.as_str()).collect();
    assert_eq!(names, vec!["a", "b", "e"]);
}

#[test]
fn a_coordinator_retries_its_failed_runs_only() {
    let mut failed = peer_run("a", "k", Some("one"));
    failed.status = WorkflowProgress::Failed;
    let mut sibling = peer_run("b", "k", Some("two"));
    sibling.status = WorkflowProgress::Failed;
    let running = peer_run("c", "k", Some("one"));
    let runs = vec![failed, sibling, running];
    let started = retry_peer_runs_from(&runs, "k", "one", 5);
    assert_eq!(started.len(), 1);
    assert_eq!(started[0].change.instance_name, "a");
    assert_eq!(started[0].change.status, WorkflowProgress::InProgress);
    assert!(started[0].change.error.is_none());
    assert_eq!(started[0].job.instance_name, "a");
    assert_eq!(started[0].job.coordinator_instance, "one");
    assert_eq!(retry_peer_runs_from(&runs, "k", "", 5).len(), 2);
    assert!(retry_peer_runs_from(&runs, "other", "", 5).is_empty());
}

fn job() -> PeerJob {
    PeerJob {
        kind: WorkflowKind::Dars,
        instance_name: "a".to_string(),
        coordinator_instance: "c".to_string(),
        coordinator_pubkey: "k".to_string(),
    }
}

#[test]
fn a_job_without_its_coordinator_fails() {
    let peer = PeerRow {
        participant_id: "p".to_string(),
        address: "host".to_string(),
        port: 1,
        public_key: "k".to_string(),
    };
    assert!(matches!(
        start_peer_job(&job(), Ok(Some(peer)), 3),
        PeerStart::Run(p) if p.participant_id == "p"
    ));
    match start_peer_job(&job(), Ok(None), 3) {
        PeerStart::Finalize(change) => {
            assert_eq!(change.status, WorkflowProgress::Failed);
            assert_eq!(
                change.error.as_deref(),
                Some("Coordinator not found in peer database")
            );
        }
        PeerStart::Run(_) => panic!("started"),
    }
    match start_peer_job(&job(), Err("down".to_string()), 3) {
        PeerStart::Finalize(change) => assert_eq!(change.error.as_deref(), Some("down")),
        PeerStart::Run(_) => panic!("started"),
    }
}

#[test]
fn a_job_ends_either_way() {
    let change = finish_peer_job(&job(), Ok(()), 3);
    assert_eq!(change.status, WorkflowProgress::Completed);
    assert!(change.error.is_none());
    let change = finish_peer_job(&job(), Err("boom".to_string()), 3);
    assert_eq!(change.status, WorkflowProgress::Failed);
    assert_eq!(change.error.as_deref(), Some("boom"));
    let change = finalize_peer_run("a", true, Some("note".to_string()), 3);
    assert_eq!(change.error.as_deref(), Some("note"));
    assert_eq!((change.instance_name.as_str(), change.at), ("a", 3));
}

#[test]
fn the_clock_in_the_store() {
    assert_eq!(store_seconds(Some(1_700_000_000)), 1_700_000_000);
    assert_eq!(store_seconds(None), 0);
    assert_eq!(store_seconds(Some(u64::MAX)), -1);
}

#[test]
fn a_run_has_one_job() {
    let mut r = peer_run("a", "k", Some("one"));
    r.status = WorkflowProgress::Failed;
    let retried = retry_peer_runs_from(&vec![r], "k", "one", 5);
    let plan = recover_in_progress_workflows(Ok(vec![peer_run("a", "k", Some("one"))]));
    match &plan[0] {
        Recovery::Enqueue(job) => {
            assert_eq!(job.instance_name, retried[0].job.instance_name);
            assert_eq!(job.coordinator_instance, retried[0].job.coordinator_instance);
            assert_eq!(job.coordinator_pubkey, retried[0].job.coordinator_pubkey);
            assert_eq!(job.kind, retried[0].job.kind);
        }
        _ => panic!("not queued"),
    }
}

#[test]
fn every_kind_has_its_workflow() {
    let kinds = [
        (WorkflowKind::Onboarding, WorkflowType::Onboarding),
        (WorkflowKind::Kick, WorkflowType::Kick),
        (WorkflowKind::Contracts, WorkflowType::Contracts),
        (WorkflowKind::Dars, WorkflowType::Dars),
        (WorkflowKind::AddParty, WorkflowType::AddParty),
        (WorkflowKind::ChangeThreshold, WorkflowType::ChangeThreshold),
    ];
    for (kind, workflow) in kinds {
        assert_eq!(kind.workflow_type(), workflow);
    }
}

#[test]
fn a_job_is_queued_once_its_change_was_written() {
    let mut r = peer_run("a", "k", None);
    r.status = WorkflowProgress::Failed;
    let runs = vec![r];
    let retry = || retry_peer_runs_from(&runs, "k", "", 5).remove(0);
    assert_eq!(job_after_write(retry(), true).unwrap().instance_name, "a");
    assert!(job_after_write(retry(), false).is_none());
}

#[test]
fn a_name_is_taken_until_its_run_ends() {
    let mut runs = TextMap::new();
    assert!(register_run(&mut runs, live("a")));
    assert!(register_run(&mut runs, live("b")));
    let mut second = live("a");
    second.invited_peers = vec![];
    assert!(!register_run(&mut runs, second));
    assert_eq!(runs.get("a").unwrap().invited_peers.len(), 2);
    let end = TaskEnd::Returned(Err("boom".to_string()));
    let change = conclude_run(&mut runs, "a", end, 8).unwrap();
    assert_eq!((change.instance_name.as_str(), change.at), ("a", 8));
    assert_eq!(change.status, WorkflowProgress::Failed);
    assert_eq!(change.error.as_deref(), Some("boom"));
    assert!(!register_run(&mut runs, live("a")));
    let run = release_run(&mut runs, "a").unwrap();
    assert_eq!(run.status, WorkflowProgress::Failed);
    assert_eq!(run.error.as_deref(), Some("boom"));
    assert_eq!(runs.get("b").unwrap().status, WorkflowProgress::InProgress);
    assert!(register_run(&mut runs, live("a")));
}

#[test]
fn an_aborted_run_leaves_without_a_status() {
    let mut runs = TextMap::new();
    register_run(&mut runs, live("a"));
    assert!(conclude_run(&mut runs, "a", TaskEnd::Aborted, 8).is_none());
    let run = release_run(&mut runs, "a").unwrap();
    assert_eq!(run.status, WorkflowProgress::InProgress);
    assert!(runs.is_empty());
    assert!(release_run(&mut runs, "a").is_none());
    let change = conclude_run(&mut runs, "a", TaskEnd::Returned(Ok(())), 8).unwrap();
    assert_eq!(change.status, WorkflowProgress::Completed);
    assert!(runs.is_empty());
}
