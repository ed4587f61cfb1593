//! What holds of workflow runs across the decisions about them, said in terms of
//! the runs themselves.

use vstd::prelude::*;

use crate::counting;
use crate::server::peers::PeerRow;
use crate::server::workflows;
use crate::server::workflows::{
    LiveRun, PeerJob, PeerStart, Recovery, RespawnAction, RespawnEvent, Retry, StatusChange, TaskEnd,
    WorkflowKind, WorkflowProgress, WorkflowRole, WorkflowRun, WorkflowType,
};
use crate::text;

verus! {

/// A registered run goes on as the workflow that has the name of its kind.
pub proof fn law_runs_go_on_as_their_own_kind(run: WorkflowRun, at: i64, action: RespawnAction)
    requires
        workflows::respawns(run, RespawnEvent::Registered(true), at, action),
    ensures
        action is Spawn,
        run.kind == WorkflowKind::Onboarding <==> action == RespawnAction::Spawn(
            WorkflowType::Onboarding,
        ),
        run.kind == WorkflowKind::Kick <==> action == RespawnAction::Spawn(WorkflowType::Kick),
        run.kind == WorkflowKind::Contracts <==> action == RespawnAction::Spawn(
            WorkflowType::Contracts,
        ),
        run.kind == WorkflowKind::Dars <==> action == RespawnAction::Spawn(WorkflowType::Dars),
        run.kind == WorkflowKind::AddParty <==> action == RespawnAction::Spawn(
            WorkflowType::AddParty,
        ),
        run.kind == WorkflowKind::ChangeThreshold <==> action == RespawnAction::Spawn(
            WorkflowType::ChangeThreshold,
        ),
{
}

/// Two runs go on as the same workflow exactly where they are of the same kind,
/// whatever else they hold.
pub proof fn law_kinds_are_not_mixed_up(
    first: WorkflowRun,
    second: WorkflowRun,
    first_at: i64,
    second_at: i64,
    first_action: RespawnAction,
    second_action: RespawnAction,
)
    requires
        workflows::respawns(first, RespawnEvent::Registered(true), first_at, first_action),
        workflows::respawns(second, RespawnEvent::Registered(true), second_at, second_action),
    ensures
        first_action == second_action <==> first.kind == second.kind,
{
}

/// A run is taken up exactly where its configuration can be read, the store says
/// that it is in progress or says nothing, and its name is free. It is marked as
/// failed exactly where its configuration cannot be read.
pub proof fn law_when_a_run_is_taken_up(
    run: WorkflowRun,
    at: i64,
    readable: bool,
    status: Result<Option<WorkflowProgress>, String>,
    free: bool,
    after_config: RespawnAction,
    after_status: RespawnAction,
    after_registry: RespawnAction,
)
    requires
        workflows::respawns(run, RespawnEvent::ConfigRead(readable), at, after_config),
        workflows::respawns(run, RespawnEvent::StatusRead(status), at, after_status),
        workflows::respawns(run, RespawnEvent::Registered(free), at, after_registry),
    ensures
        after_config is ReadStatus <==> readable,
        after_config is MarkFailed <==> !readable,
        after_status is Register <==> match status {
            Ok(found) => found == Some(WorkflowProgress::InProgress),
            Err(_) => true,
        },
        after_status is Register || after_status is Stop,
        after_registry is Spawn <==> free,
        after_registry is Spawn || after_registry is Stop,
{
}

/// What is registered for a run is the run: its name, its kind and the peers that
/// it waits for, as one that this node coordinates and that is in progress.
pub proof fn law_the_run_itself_is_registered(
    run: WorkflowRun,
    event: RespawnEvent,
    at: i64,
    live: LiveRun,
)
    requires
        workflows::respawns(run, event, at, RespawnAction::Register(live)),
    ensures
        live.instance_name@ == run.instance_name@,
        live.kind == run.kind,
        live.role == WorkflowRole::Coordinator,
        live.invited_peers@.len() == run.expected_peers@.len(),
        forall|i: int|
            0 <= i < live.invited_peers@.len() ==> #[trigger] live.invited_peers@[i]@
                == run.expected_peers@[i]@,
        live.status == WorkflowProgress::InProgress,
        live.error is None,
{
    let a = text::texts(live.invited_peers@);
    let b = text::texts(run.expected_peers@);
    assert(a.len() == b.len());
    assert forall|i: int| 0 <= i < live.invited_peers@.len() implies #[trigger]
        live.invited_peers@[i]@ == run.expected_peers@[i]@ by {
        assert(a[i] == b[i]);
    }
}

/// A run that cannot be taken up is marked under its own name.
pub proof fn law_the_run_itself_is_marked(
    run: WorkflowRun,
    event: RespawnEvent,
    at: i64,
    change: StatusChange,
)
    requires
        workflows::respawns(run, event, at, RespawnAction::MarkFailed(change)),
    ensures
        change.instance_name@ == run.instance_name@,
        change.status == WorkflowProgress::Failed,
        change.error is Some,
        change.at == at,
        event == RespawnEvent::ConfigRead(false),
{
}

/// At boot a coordinator's run is respawned as it stands, a peer's run is queued
/// exactly where it knows its coordinator, and nothing else decides.
pub proof fn law_recovery_goes_by_role_and_coordinator(recovery: Recovery, run: WorkflowRun)
    requires
        workflows::recovers(recovery, run),
    ensures
        recovery is Respawn <==> run.role == WorkflowRole::Coordinator,
        recovery is Respawn ==> recovery == Recovery::Respawn(run),
        recovery is Enqueue <==> run.role == WorkflowRole::Peer && run.coordinator_pubkey is Some,
        recovery is Skip <==> run.role == WorkflowRole::Peer && run.coordinator_pubkey is None,
        recovery matches Recovery::Skip(name) ==> name@ == run.instance_name@,
{
}

/// A queued job takes part in the run it is for: it has the run's kind, its name
/// here, its coordinator's key, and its coordinator's name for it where there is
/// one.
pub proof fn law_jobs_are_of_their_run(job: PeerJob, run: WorkflowRun)
    requires
        workflows::job_of(job, run),
    ensures
        job.kind == run.kind,
        job.instance_name@ == run.instance_name@,
        run.coordinator_pubkey matches Some(key) && key@ == job.coordinator_pubkey@,
        run.coordinator_instance matches Some(name) ==> name@ == job.coordinator_instance@,
        run.coordinator_instance is None ==> job.coordinator_instance@.len() == 0,
{
}

/// A recovered peer run is queued with a job of its own.
pub proof fn law_recovered_jobs_are_of_their_run(run: WorkflowRun, job: PeerJob)
    requires
        workflows::recovers(Recovery::Enqueue(job), run),
    ensures
        job.kind == run.kind,
        job.instance_name@ == run.instance_name@,
        run.coordinator_pubkey matches Some(key) && key@ == job.coordinator_pubkey@,
        run.coordinator_instance matches Some(name) ==> name@ == job.coordinator_instance@,
{
}

/// The status that the store gets for a run that ended is the one that is shown:
/// completed exactly where its task succeeded, else failed with the task's reason.
pub proof fn law_store_and_registry_agree_on_the_end(
    runs: Map<Seq<char>, LiveRun>,
    name: Seq<char>,
    result: Result<(), String>,
    at: i64,
    change: StatusChange,
)
    requires
        runs.contains_key(name),
        workflows::outcome_of(change, name, result, at),
    ensures
        ({
            let shown = workflows::concluded(runs, name, TaskEnd::Returned(result))[name];
            &&& change.instance_name@ == name
            &&& change.at == at
            &&& change.status == shown.status
            &&& shown.status == WorkflowProgress::Completed <==> result is Ok
            &&& shown.status == WorkflowProgress::Failed <==> result is Err
            &&& result is Ok ==> change.error is None
            &&& result matches Err(reason) ==> shown.error == Some(reason) && (
            change.error matches Some(told) && told@ == reason@)
            &&& shown.instance_name == runs[name].instance_name
            &&& shown.kind == runs[name].kind
            &&& shown.role == runs[name].role
            &&& shown.invited_peers == runs[name].invited_peers
        }),
{
}

/// How one task ended changes nothing of another run.
pub proof fn law_ends_are_kept_apart(
    runs: Map<Seq<char>, LiveRun>,
    name: Seq<char>,
    end: TaskEnd,
    other: Seq<char>,
)
    requires
        other != name,
    ensures
        workflows::concluded(runs, name, end).contains_key(other) == runs.contains_key(other),
        runs.contains_key(other) ==> workflows::concluded(runs, name, end)[other] == runs[other],
        workflows::concluded(runs, name, end).contains_key(name) == runs.contains_key(name),
        workflows::concluded(runs, name, TaskEnd::Aborted) == runs,
{
}

/// A coordinator has a say in a run exactly where this node is a peer in it, the
/// run holds the coordinator's key, and the coordinator names the run or none.
pub proof fn law_who_has_a_say(run: WorkflowRun, pubkey: Seq<char>, instance: Seq<char>)
    ensures
        workflows::cancels(pubkey, instance)(run) <==> {
            &&& run.role == WorkflowRole::Peer
            &&& run.coordinator_pubkey matches Some(key) && key@ == pubkey
            &&& instance.len() > 0 ==> (run.coordinator_instance matches Some(name) && name@
                == instance)
        },
        workflows::retries(pubkey, instance)(run) <==> workflows::cancels(pubkey, instance)(run)
            && run.status == WorkflowProgress::Failed,
{
}

/// After a cancel every run in progress that holds the coordinator's key, and its
/// name where the coordinator gave one, is cancelled with the reason; no other run
/// is touched.
pub proof fn law_cancel_ends_the_named_runs(
    runs: Seq<WorkflowRun>,
    pubkey: Seq<char>,
    instance: Seq<char>,
    at: i64,
    changes: Seq<StatusChange>,
    i: int,
)
    requires
        changes.len() == runs.filter(workflows::cancels(pubkey, instance)).len(),
        forall|i: int|
            0 <= i < changes.len() ==> workflows::cancel_of(
                #[trigger] changes[i],
                runs.filter(workflows::cancels(pubkey, instance))[i],
                at,
            ),
        0 <= i < changes.len(),
    ensures
        changes[i].status == WorkflowProgress::Cancelled,
        changes[i].error is Some,
        changes[i].at == at,
        exists|k: int|
            0 <= k < runs.len() && (#[trigger] runs[k]).instance_name@ == changes[i].instance_name@
                && runs[k].role == WorkflowRole::Peer && (
            runs[k].coordinator_pubkey matches Some(key) && key@ == pubkey) && (instance.len() > 0
                ==> (runs[k].coordinator_instance matches Some(name) && name@ == instance)),
{
    let k = counting::lemma_filter_position(runs, workflows::cancels(pubkey, instance), i);
    assert(workflows::cancel_of(
        changes[i],
        runs.filter(workflows::cancels(pubkey, instance))[i],
        at,
    ));
    law_who_has_a_say(runs[k], pubkey, instance);
}

/// What a retry starts is a failed run of the coordinator, and of the name that it
/// gave where it gave one; the run is in progress again, and its job takes part in
/// it.
pub proof fn law_retry_starts_the_named_runs(
    runs: Seq<WorkflowRun>,
    pubkey: Seq<char>,
    instance: Seq<char>,
    at: i64,
    started: Seq<Retry>,
    i: int,
)
    requires
        started.len() == runs.filter(workflows::retries(pubkey, instance)).len(),
        forall|i: int|
            0 <= i < started.len() ==> workflows::retry_of(
                #[trigger] started[i],
                runs.filter(workflows::retries(pubkey, instance))[i],
                at,
            ),
        0 <= i < started.len(),
    ensures
        started[i].change.status == WorkflowProgress::InProgress,
        started[i].change.error is None,
        started[i].change.at == at,
        started[i].job.instance_name@ == started[i].change.instance_name@,
        started[i].job.coordinator_pubkey@ == pubkey,
        instance.len() > 0 ==> started[i].job.coordinator_instance@ == instance,
        exists|k: int|
            0 <= k < runs.len() && (#[trigger] runs[k]).instance_name@
                == started[i].change.instance_name@ && runs[k].status == WorkflowProgress::Failed
                && runs[k].role == WorkflowRole::Peer && runs[k].kind == started[i].job.kind,
{
    let k = counting::lemma_filter_position(runs, workflows::retries(pubkey, instance), i);
    assert(workflows::retry_of(
        started[i],
        runs.filter(workflows::retries(pubkey, instance))[i],
        at,
    ));
    law_who_has_a_say(runs[k], pubkey, instance);
}

/// Each interrupted run is dealt with once, in its place: what a node coordinates
/// is respawned as it stands, what it takes part in is queued with the run's own
/// kind, name and coordinator, and what knows no coordinator is left out.
pub proof fn law_each_interrupted_run_is_dealt_with(
    runs: Vec<WorkflowRun>,
    plan: Vec<Recovery>,
    i: int,
)
    requires
        call_ensures(
            workflows::recover_in_progress_workflows,
            (Ok::<Vec<WorkflowRun>, String>(runs),),
            plan,
        ),
        0 <= i < runs@.len(),
    ensures
        plan@.len() == runs@.len(),
        runs@[i].role == WorkflowRole::Coordinator ==> plan@[i] == Recovery::Respawn(runs@[i]),
        runs@[i].role == WorkflowRole::Peer && runs@[i].coordinator_pubkey is Some ==> (
        plan@[i] matches Recovery::Enqueue(job) && job.kind == runs@[i].kind && job.instance_name@
            == runs@[i].instance_name@ && job.coordinator_pubkey@
            == runs@[i].coordinator_pubkey->0@),
        runs@[i].role == WorkflowRole::Peer && runs@[i].coordinator_pubkey is None ==> (
        plan@[i] matches Recovery::Skip(name) && name@ == runs@[i].instance_name@),
{
    assert(workflows::recovers(plan@[i], runs@[i]));
}

/// Where the interrupted runs cannot be loaded nothing is done for any.
pub proof fn law_unloaded_runs_are_left_alone(reason: String, plan: Vec<Recovery>)
    requires
        call_ensures(
            workflows::recover_in_progress_workflows,
            (Err::<Vec<WorkflowRun>, String>(reason),),
            plan,
        ),
    ensures
        plan@.len() == 0,
{
}

/// There is a job for a run exactly where the run knows its coordinator, and it is
/// a job for that run.
pub proof fn law_a_job_needs_a_coordinator(run: WorkflowRun, job: Option<PeerJob>)
    requires
        call_ensures(workflows::refire_peer, (&run,), job),
    ensures
        job is Some <==> run.coordinator_pubkey is Some,
        job matches Some(j) ==> j.kind == run.kind && j.instance_name@ == run.instance_name@
            && j.coordinator_pubkey@ == run.coordinator_pubkey->0@,
        job matches Some(j) ==> (run.coordinator_instance is Some ==> j.coordinator_instance@
            == run.coordinator_instance->0@),
        job matches Some(j) ==> (run.coordinator_instance is None ==> j.coordinator_instance@.len()
            == 0),
{
}

/// A cancel ends a run exactly where this node is a peer in it, the run holds the
/// coordinator's key, and the coordinator names it or none.
pub proof fn law_a_cancel_ends_exactly_its_runs(
    runs: Vec<WorkflowRun>,
    pubkey: &str,
    instance: &str,
    at: i64,
    changes: Vec<StatusChange>,
    k: int,
)
    requires
        call_ensures(workflows::cancel_peer_runs_from, (&runs, pubkey, instance, at), changes),
        workflows::distinct_names(runs@),
        0 <= k < runs@.len(),
    ensures
        (exists|i: int|
            0 <= i < changes@.len() && (#[trigger] changes@[i]).instance_name@
                == runs@[k].instance_name@) <==> {
            &&& runs@[k].role == WorkflowRole::Peer
            &&& runs@[k].coordinator_pubkey matches Some(key) && key@ == pubkey@
            &&& instance@.len() > 0 ==> (runs@[k].coordinator_instance matches Some(name) && name@
                == instance@)
        },
        forall|i: int|
            0 <= i < changes@.len() ==> (#[trigger] changes@[i]).status
                == WorkflowProgress::Cancelled && changes@[i].at == at && changes@[i].error
                is Some,
        changes@.len() == runs@.filter(workflows::cancels(pubkey@, instance@)).len(),
{
    law_who_has_a_say(runs@[k], pubkey@, instance@);
    workflows::law_cancel_reaches_its_runs(runs@, pubkey@, instance@, at, changes@, k);
    assert forall|i: int| 0 <= i < changes@.len() implies (#[trigger] changes@[i]).status
        == WorkflowProgress::Cancelled && changes@[i].at == at && changes@[i].error is Some by {
        law_cancel_ends_the_named_runs(runs@, pubkey@, instance@, at, changes@, i);
    }
}

/// A retry starts a run exactly where it failed, this node is a peer in it, the run
/// holds the coordinator's key, and the coordinator names it or none.
pub proof fn law_a_retry_starts_exactly_its_runs(
    runs: Vec<WorkflowRun>,
    pubkey: &str,
    instance: &str,
    at: i64,
    started: Vec<Retry>,
    k: int,
)
    requires
        call_ensures(workflows::retry_peer_runs_from, (&runs, pubkey, instance, at), started),
        workflows::distinct_names(runs@),
        0 <= k < runs@.len(),
    ensures
        (exists|i: int|
            0 <= i < started@.len() && (#[trigger] started@[i]).job.instance_name@
                == runs@[k].instance_name@) <==> {
            &&& runs@[k].role == WorkflowRole::Peer
            &&& runs@[k].status == WorkflowProgress::Failed
            &&& runs@[k].coordinator_pubkey matches Some(key) && key@ == pubkey@
            &&& instance@.len() > 0 ==> (runs@[k].coordinator_instance matches Some(name) && name@
                == instance@)
        },
        forall|i: int|
            0 <= i < started@.len() ==> (#[trigger] started@[i]).change.status
                == WorkflowProgress::InProgress && started@[i].change.at == at
                && started@[i].change.error is None && started@[i].change.instance_name@
                == started@[i].job.instance_name@,
        started@.len() == runs@.filter(workflows::retries(pubkey@, instance@)).len(),
{
    law_who_has_a_say(runs@[k], pubkey@, instance@);
    workflows::law_retry_reaches_its_failed_runs(runs@, pubkey@, instance@, at, started@, k);
    assert forall|i: int| 0 <= i < started@.len() implies (
    #[trigger] started@[i]).change.status == WorkflowProgress::InProgress && started@[i].change.at
        == at && started@[i].change.error is None && started@[i].change.instance_name@
        == started@[i].job.instance_name@ by {
        law_retry_starts_the_named_runs(runs@, pubkey@, instance@, at, started@, i);
    }
}

/// A job is queued exactly where the change before it was written, and it is the
/// retry's own.
pub proof fn law_written_before_queued(retry: Retry, written: bool, job: Option<PeerJob>)
    requires
        call_ensures(workflows::job_after_write, (retry, written), job),
    ensures
        job is Some <==> written,
        job matches Some(j) ==> j == retry.job,
{
}

/// A job runs with the coordinator that was found, and with no other; without one
/// the run of the job fails, with the store's reason where there is one.
pub proof fn law_jobs_run_with_who_was_found(
    job: PeerJob,
    coordinator: Result<Option<PeerRow>, String>,
    at: i64,
    start: PeerStart,
)
    requires
        call_ensures(workflows::start_peer_job, (&job, coordinator, at), start),
    ensures
        start is Run <==> (coordinator matches Ok(Some(_))),
        start matches PeerStart::Run(peer) ==> coordinator == Ok::<Option<PeerRow>, String>(
            Some(peer),
        ),
        start matches PeerStart::Finalize(change) ==> change.instance_name@ == job.instance_name@
            && change.status == WorkflowProgress::Failed && change.at == at && change.error is Some,
        start matches PeerStart::Finalize(change) ==> (
        coordinator matches Err(reason) ==> change.error == Some(reason)),
{
}

/// The run of a job is completed exactly where its workflow succeeded, else it
/// failed for the workflow's reason.
pub proof fn law_jobs_end_as_their_workflow_did(
    job: PeerJob,
    result: Result<(), String>,
    at: i64,
    change: StatusChange,
)
    requires
        call_ensures(workflows::finish_peer_job, (&job, result, at), change),
    ensures
        change.instance_name@ == job.instance_name@,
        change.at == at,
        change.status == WorkflowProgress::Completed <==> result is Ok,
        change.status == WorkflowProgress::Failed <==> result is Err,
        change.error is Some <==> result is Err,
        result matches Err(reason) ==> change.error == Some(reason),
{
}

/// A peer's run ends as it is told to, with what it is told.
pub proof fn law_runs_end_as_told(
    name: &str,
    success: bool,
    error: Option<String>,
    at: i64,
    change: StatusChange,
)
    requires
        call_ensures(workflows::finalize_peer_run, (name, success, error, at), change),
    ensures
        change.instance_name@ == name@,
        change.at == at,
        change.status == WorkflowProgress::Completed <==> success,
        change.status == WorkflowProgress::Failed <==> !success,
        change.error == error,
{
}

/// The marks for success and for failure are of the run and the moment that they
/// are made for.
pub proof fn law_marks_are_of_their_run(
    name: &str,
    reason: &str,
    at: i64,
    done: StatusChange,
    failed: StatusChange,
)
    requires
        call_ensures(workflows::mark_completed, (name, at), done),
        call_ensures(workflows::mark_failed, (name, reason, at), failed),
    ensures
        done.instance_name@ == name@ && failed.instance_name@ == name@,
        done.at == at && failed.at == at,
        done.status == WorkflowProgress::Completed && done.error is None,
        failed.status == WorkflowProgress::Failed && (failed.error matches Some(told) && told@
            == reason@),
{
}

/// The store gets the seconds of the clock as they are, for as long as they fit,
/// and none where the clock stands before the epoch.
pub proof fn law_seconds_are_the_clocks(since_epoch: Option<u64>, seconds: i64)
    requires
        call_ensures(workflows::store_seconds, (since_epoch,), seconds),
    ensures
        since_epoch matches Some(s) ==> (s <= 0x7fff_ffff_ffff_ffff ==> seconds == s),
        since_epoch is None ==> seconds == 0,
{
}

/// A run is registered exactly where its name is free, and then it is found under
/// its name as it is; the other names keep their runs, and so does a name that was
/// taken.
pub proof fn law_names_go_to_the_first(
    before: Map<Seq<char>, LiveRun>,
    run: LiveRun,
    after: Map<Seq<char>, LiveRun>,
    registered: bool,
    other: Seq<char>,
)
    requires
        workflows::registers(before, run, after, registered),
    ensures
        registered <==> !before.contains_key(run.instance_name@),
        after.contains_key(run.instance_name@),
        after[run.instance_name@] == if registered {
            run
        } else {
            before[run.instance_name@]
        },
        other != run.instance_name@ ==> after.contains_key(other) == before.contains_key(other)
            && after[other] == before[other],
{
}

/// A name that was released is free for the next run, and its run is the one that
/// was registered under it; the other names keep their runs.
pub proof fn law_released_names_are_free(
    before: Map<Seq<char>, LiveRun>,
    first: LiveRun,
    between: Map<Seq<char>, LiveRun>,
    after: Map<Seq<char>, LiveRun>,
    released: Option<LiveRun>,
    next: LiveRun,
    last: Map<Seq<char>, LiveRun>,
    registered: bool,
    other: Seq<char>,
)
    requires
        workflows::registers(before, first, between, true),
        workflows::releases(between, first.instance_name@, after, released),
        next.instance_name@ == first.instance_name@,
        workflows::registers(after, next, last, registered),
    ensures
        released == Some(first),
        registered,
        last[first.instance_name@] == next,
        other != first.instance_name@ ==> last.contains_key(other) == before.contains_key(other)
            && last[other] == before[other],
{
}

/// The status that a finished task is shown with follows the task's result, and
/// nothing else of the run changes.
pub proof fn law_ends_show_their_result(before: LiveRun, result: Result<(), String>)
    ensures
        ({
            let after = workflows::shown_after(before, result);
            &&& after.status == WorkflowProgress::Completed <==> result is Ok
            &&& after.status == WorkflowProgress::Failed <==> result is Err
            &&& result matches Err(reason) ==> after.error == Some(reason)
            &&& result is Ok ==> after.error == before.error
            &&& after.instance_name == before.instance_name
            &&& after.kind == before.kind
            &&& after.role == before.role
            &&& after.invited_peers == before.invited_peers
        }),
{
}

/// The step after each event is for the run that it is asked about: once the run is
/// registered, the workflow of its own kind is started.
pub proof fn law_steps_are_for_their_run(
    run: WorkflowRun,
    event: RespawnEvent,
    at: i64,
    action: RespawnAction,
)
    requires
        call_ensures(workflows::respawn_coordinator, (&run, event, at), action),
    ensures
        action is Spawn <==> event == RespawnEvent::Registered(true),
        action is MarkFailed <==> event == RespawnEvent::ConfigRead(false),
        action is ReadStatus <==> event == RespawnEvent::ConfigRead(true),
        action is Register ==> event is StatusRead,
        action == RespawnAction::Spawn(WorkflowType::Onboarding) ==> run.kind
            == WorkflowKind::Onboarding,
        action == RespawnAction::Spawn(WorkflowType::Kick) ==> run.kind == WorkflowKind::Kick,
        action == RespawnAction::Spawn(WorkflowType::Contracts) ==> run.kind
            == WorkflowKind::Contracts,
        action == RespawnAction::Spawn(WorkflowType::Dars) ==> run.kind == WorkflowKind::Dars,
        action == RespawnAction::Spawn(WorkflowType::AddParty) ==> run.kind
            == WorkflowKind::AddParty,
        action == RespawnAction::Spawn(WorkflowType::ChangeThreshold) ==> run.kind
            == WorkflowKind::ChangeThreshold,
        action matches RespawnAction::Register(live) ==> live.instance_name@ == run.instance_name@
            && live.kind == run.kind,
        action matches RespawnAction::MarkFailed(change) ==> change.instance_name@
            == run.instance_name@,
{
}

/// The store gets a status exactly where the task returned: that of the run, at that
/// moment, completed where the task succeeded and else failed for its reason.
pub proof fn law_the_store_gets_how_a_task_ended(
    name: Seq<char>,
    end: TaskEnd,
    at: i64,
    change: Option<StatusChange>,
)
    requires
        workflows::stores(name, end, at, change),
    ensures
        change is Some <==> end is Returned,
        change matches Some(c) ==> c.instance_name@ == name && c.at == at,
        end matches TaskEnd::Returned(result) ==> (change->0.status == WorkflowProgress::Completed
            <==> result is Ok),
        end matches TaskEnd::Returned(result) ==> (change->0.status == WorkflowProgress::Failed
            <==> result is Err),
        end matches TaskEnd::Returned(Err(reason)) ==> change->0.error is Some
            && change->0.error->0@ == reason@,
        end matches TaskEnd::Returned(Ok(_)) ==> change->0.error is None,
{
}

} // verus!
