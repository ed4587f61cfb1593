//! Workflow runs: which are taken up again after a restart, what a coordinator
//! may cancel or retry on a peer, and how runs end.

use vstd::prelude::*;
use vstd::string::*;

use crate::counting;
use crate::map::TextMap;
use crate::server::peers::PeerRow;
use crate::text;

verus! {

/// The kind of a workflow.
#[derive(Clone, Copy, Debug, PartialEq, Eq, Structural)]
pub enum WorkflowKind {
    Onboarding,
    Kick,
    Contracts,
    Dars,
    AddParty,
    ChangeThreshold,
}

/// The workflow that the engine is asked to drive.
#[derive(Clone, Copy, Debug, PartialEq, Eq, Structural)]
pub enum WorkflowType {
    Onboarding,
    Kick,
    Contracts,
    Dars,
    AddParty,
    ChangeThreshold,
}

impl WorkflowKind {
    /// The workflow of that kind.
    pub open spec fn drives(self) -> WorkflowType {
        match self {
            WorkflowKind::Onboarding => WorkflowType::Onboarding,
            WorkflowKind::Kick => WorkflowType::Kick,
            WorkflowKind::Contracts => WorkflowType::Contracts,
            WorkflowKind::Dars => WorkflowType::Dars,
            WorkflowKind::AddParty => WorkflowType::AddParty,
            WorkflowKind::ChangeThreshold => WorkflowType::ChangeThreshold,
        }
    }

    /// The workflow of that kind.
    pub fn workflow_type(self) -> (workflow_type: WorkflowType)
        ensures
            workflow_type == self.drives(),
    {
        match self {
            WorkflowKind::Onboarding => WorkflowType::Onboarding,
            WorkflowKind::Kick => WorkflowType::Kick,
            WorkflowKind::Contracts => WorkflowType::Contracts,
            WorkflowKind::Dars => WorkflowType::Dars,
            WorkflowKind::AddParty => WorkflowType::AddParty,
            WorkflowKind::ChangeThreshold => WorkflowType::ChangeThreshold,
        }
    }
}

/// The part that this node has in a run.
#[derive(Clone, Copy, Debug, PartialEq, Eq, Structural)]
pub enum WorkflowRole {
    Coordinator,
    Peer,
}

/// How far a run is.
#[derive(Clone, Copy, Debug, PartialEq, Eq, Structural)]
pub enum WorkflowProgress {
    InProgress,
    Completed,
    Failed,
    Cancelled,
}

/// A run as the store holds it.
pub struct WorkflowRun {
    pub instance_name: String,
    pub kind: WorkflowKind,
    pub role: WorkflowRole,
    pub status: WorkflowProgress,
    pub current_step: String,
    pub config_json: String,
    pub expected_peers: Vec<String>,
    pub completed_peers: Vec<String>,
    /// The coordinator's key, on a peer.
    pub coordinator_pubkey: Option<String>,
    /// The coordinator's name for the run, on a peer.
    pub coordinator_instance: Option<String>,
}

/// Work for the peer listener: take part in a coordinator's run.
pub struct PeerJob {
    pub kind: WorkflowKind,
    pub instance_name: String,
    /// Empty where the run does not know its coordinator's name for it.
    pub coordinator_instance: String,
    pub coordinator_pubkey: String,
}

/// The job takes up the run.
pub open spec fn job_of(job: PeerJob, run: WorkflowRun) -> bool {
    &&& job.kind == run.kind
    &&& job.instance_name@ == run.instance_name@
    &&& job.coordinator_instance@ == match run.coordinator_instance {
        Some(instance) => instance@,
        None => Seq::<char>::empty(),
    }
    &&& text::text_of(run.coordinator_pubkey) == Some(job.coordinator_pubkey@)
}

/// The job that takes up a peer's run, where the run knows its coordinator.
pub fn refire_peer(run: &WorkflowRun) -> (job: Option<PeerJob>)
    ensures
        match job {
            Some(j) => job_of(j, *run),
            None => run.coordinator_pubkey is None,
        },
        job matches Some(j) ==> j.kind == run.kind && j.instance_name@ == run.instance_name@,
{
    match &run.coordinator_pubkey {
        Some(pubkey) => Some(
            PeerJob {
                kind: run.kind,
                instance_name: run.instance_name.clone(),
                coordinator_instance: match &run.coordinator_instance {
                    Some(instance) => instance.clone(),
                    None => String::new(),
                },
                coordinator_pubkey: pubkey.clone(),
            },
        ),
        None => None,
    }
}

/// What is done at boot for a run that the last shutdown interrupted.
pub enum Recovery {
    /// The coordinator's task is started again.
    Respawn(WorkflowRun),
    /// The peer's job is queued again.
    Enqueue(PeerJob),
    /// Nothing: the peer's run of this name does not know its coordinator.
    Skip(String),
}

/// What is done at boot for `run`.
pub open spec fn recovers(recovery: Recovery, run: WorkflowRun) -> bool {
    match run.role {
        WorkflowRole::Coordinator => recovery == Recovery::Respawn(run),
        WorkflowRole::Peer => match recovery {
            Recovery::Respawn(_) => false,
            Recovery::Enqueue(job) => job_of(job, run),
            Recovery::Skip(name) => run.coordinator_pubkey is None && name@ == run.instance_name@,
        },
    }
}

/// What is done at boot for the runs that the last shutdown interrupted, in
/// their order; nothing where they could not be loaded.
pub fn recover_in_progress_workflows(loaded: Result<Vec<WorkflowRun>, String>) -> (plan: Vec<
    Recovery,
>)
    ensures
        match loaded {
            Ok(runs) => plan@.len() == runs@.len() && forall|i: int|
                0 <= i < runs@.len() ==> recovers(#[trigger] plan@[i], runs@[i]),
            Err(_) => plan@.len() == 0,
        },
{
    let mut plan: Vec<Recovery> = Vec::new();
    let mut runs = match loaded {
        Ok(runs) => runs,
        Err(_) => {
            return plan;
        },
    };
    let ghost all = runs@;
    let n = runs.len();
    let mut k: usize = 0;
    while k < n
        invariant
            k <= n == all.len(),
            runs@ == all.skip(k as int),
            plan@.len() == k,
            forall|i: int| 0 <= i < k ==> recovers(#[trigger] plan@[i], all[i]),
        decreases n - k,
    {
        let run = runs.remove(0);
        proof {
            assert(runs@ =~= all.skip(k + 1));
            assert(run == all[k as int]);
        }
        let recovery = match run.role {
            WorkflowRole::Coordinator => Recovery::Respawn(run),
            WorkflowRole::Peer => match refire_peer(&run) {
                Some(job) => Recovery::Enqueue(job),
                None => Recovery::Skip(run.instance_name),
            },
        };
        plan.push(recovery);
        k += 1;
    }
    plan
}

/// A status that the store is to set on a run.
pub struct StatusChange {
    pub instance_name: String,
    pub status: WorkflowProgress,
    pub error: Option<String>,
    /// Seconds since the epoch.
    pub at: i64,
}

/// The seconds of the system clock, where it stands after the epoch, as the
/// store holds them.
pub fn store_seconds(since_epoch: Option<u64>) -> (seconds: i64)
    ensures
        match since_epoch {
            Some(s) => s <= i64::MAX ==> seconds == s,
            None => seconds == 0,
        },
        since_epoch matches Some(s) ==> s > i64::MAX ==> seconds == s - 0x1_0000_0000_0000_0000,
{
    match since_epoch {
        Some(s) => {
            proof {
                assert(s <= 0x7fff_ffff_ffff_ffff ==> s as i64 == s) by (bit_vector);
                assert(s > 0x7fff_ffff_ffff_ffff ==> s as i64 == s - 0x1_0000_0000_0000_0000)
                    by (bit_vector);
            }
            #[verifier::truncate] (s as i64)
        },
        None => 0,
    }
}

/// The change that marks a run completed.
pub fn mark_completed(instance_name: &str, at: i64) -> (change: StatusChange)
    ensures
        change.instance_name@ == instance_name@,
        change.status == WorkflowProgress::Completed,
        change.error is None,
        change.at == at,
{
    StatusChange {
        instance_name: instance_name.to_owned(),
        status: WorkflowProgress::Completed,
        error: None,
        at,
    }
}

/// The change that marks a run failed.
pub fn mark_failed(instance_name: &str, error: &str, at: i64) -> (change: StatusChange)
    ensures
        change.instance_name@ == instance_name@,
        change.status == WorkflowProgress::Failed,
        text::text_of(change.error) == Some(error@),
        change.at == at,
{
    StatusChange {
        instance_name: instance_name.to_owned(),
        status: WorkflowProgress::Failed,
        error: Some(error.to_owned()),
        at,
    }
}

/// A run that this node drives, as it is registered and shown.
pub struct LiveRun {
    pub instance_name: String,
    pub kind: WorkflowKind,
    pub role: WorkflowRole,
    pub invited_peers: Vec<String>,
    pub status: WorkflowProgress,
    pub error: Option<String>,
}

/// What happened while a coordinator's run is taken up again.
pub enum RespawnEvent {
    /// The stored configuration was read as one of the run's kind, or not.
    ConfigRead(bool),
    /// The run's status was read again: it may be gone, or the store may fail.
    StatusRead(Result<Option<WorkflowProgress>, String>),
    /// The run was registered, or its name was taken.
    Registered(bool),
}

/// What is done next to take up a coordinator's run again.
pub enum RespawnAction {
    /// The run cannot be taken up: set this status.
    MarkFailed(StatusChange),
    /// Read the run's status again.
    ReadStatus,
    /// Register the run, so that commands reach it.
    Register(LiveRun),
    /// Start the coordinator's task.
    Spawn(WorkflowType),
    /// Leave the run alone.
    Stop,
}

/// A run whose status reads so is taken up again: it is still in progress, or
/// the store did not say.
pub open spec fn still_wanted(status: Result<Option<WorkflowProgress>, String>) -> bool {
    match status {
        Ok(Some(progress)) => progress == WorkflowProgress::InProgress,
        Ok(None) => false,
        Err(_) => true,
    }
}

/// What is done for a coordinator's run after each event.
pub open spec fn respawns(run: WorkflowRun, event: RespawnEvent, at: i64, action: RespawnAction) -> bool {
    match event {
        RespawnEvent::ConfigRead(true) => action is ReadStatus,
        RespawnEvent::ConfigRead(false) => match action {
            RespawnAction::MarkFailed(change) => {
                &&& change.instance_name@ == run.instance_name@
                &&& change.status == WorkflowProgress::Failed
                &&& text::text_of(change.error) == Some("Resume failed: invalid config"@)
                &&& change.at == at
            },
            _ => false,
        },
        RespawnEvent::StatusRead(status) => if still_wanted(status) {
            match action {
                RespawnAction::Register(live) => {
                    &&& live.instance_name@ == run.instance_name@
                    &&& live.kind == run.kind
                    &&& live.role == WorkflowRole::Coordinator
                    &&& text::texts(live.invited_peers@) == text::texts(run.expected_peers@)
                    &&& live.status == WorkflowProgress::InProgress
                    &&& live.error is None
                },
                _ => false,
            }
        } else {
            action is Stop
        },
        RespawnEvent::Registered(true) => action == RespawnAction::Spawn(run.kind.drives()),
        RespawnEvent::Registered(false) => action is Stop,
    }
}

/// The next step in taking up a coordinator's run that the last shutdown
/// interrupted. The first event says whether the run's configuration could be
/// read; each further one answers the step before it.
pub fn respawn_coordinator(run: &WorkflowRun, event: RespawnEvent, at: i64) -> (action:
    RespawnAction)
    ensures
        respawns(*run, event, at, action),
        event == RespawnEvent::Registered(true) ==> {
            &&& run.kind == WorkflowKind::Onboarding ==> action == RespawnAction::Spawn(
                WorkflowType::Onboarding,
            )
            &&& run.kind == WorkflowKind::Kick ==> action == RespawnAction::Spawn(
                WorkflowType::Kick,
            )
            &&& run.kind == WorkflowKind::Contracts ==> action == RespawnAction::Spawn(
                WorkflowType::Contracts,
            )
            &&& run.kind == WorkflowKind::Dars ==> action == RespawnAction::Spawn(
                WorkflowType::Dars,
            )
            &&& run.kind == WorkflowKind::AddParty ==> action == RespawnAction::Spawn(
                WorkflowType::AddParty,
            )
            &&& run.kind == WorkflowKind::ChangeThreshold ==> action == RespawnAction::Spawn(
                WorkflowType::ChangeThreshold,
            )
        },
{
    match event {
        RespawnEvent::ConfigRead(readable) => if readable {
            RespawnAction::ReadStatus
        } else {
            RespawnAction::MarkFailed(
                mark_failed(run.instance_name.as_str(), "Resume failed: invalid config", at),
            )
        },
        RespawnEvent::StatusRead(status) => {
            let wanted = match status {
                Ok(Some(progress)) => progress == WorkflowProgress::InProgress,
                Ok(None) => false,
                Err(_) => true,
            };
            if wanted {
                RespawnAction::Register(
                    LiveRun {
                        instance_name: run.instance_name.clone(),
                        kind: run.kind,
                        role: WorkflowRole::Coordinator,
                        invited_peers: text::copy_texts(&run.expected_peers),
                        status: WorkflowProgress::InProgress,
                        error: None,
                    },
                )
            } else {
                RespawnAction::Stop
            }
        },
        RespawnEvent::Registered(registered) => if registered {
            RespawnAction::Spawn(run.kind.workflow_type())
        } else {
            RespawnAction::Stop
        },
    }
}

/// The change says how a run ended: completed, or failed with the reason.
pub open spec fn outcome_of(
    change: StatusChange,
    name: Seq<char>,
    result: Result<(), String>,
    at: i64,
) -> bool {
    &&& change.instance_name@ == name
    &&& change.at == at
    &&& match result {
        Ok(_) => change.status == WorkflowProgress::Completed && change.error is None,
        Err(message) => change.status == WorkflowProgress::Failed && text::text_of(change.error)
            == Some(message@),
    }
}

/// What is shown of a run once it ended: its new status, with the reason where
/// it failed.
pub open spec fn shown_after(before: LiveRun, result: Result<(), String>) -> LiveRun {
    match result {
        Ok(_) => LiveRun { status: WorkflowProgress::Completed, ..before },
        Err(message) => LiveRun {
            status: WorkflowProgress::Failed,
            error: Some(message),
            ..before
        },
    }
}

/// The change that the end of a run makes.
fn run_outcome(name: &str, result: &Result<(), String>, at: i64) -> (change: StatusChange)
    ensures
        outcome_of(change, name@, *result, at),
{
    match result {
        Ok(_) => mark_completed(name, at),
        Err(message) => mark_failed(name, message.as_str(), at),
    }
}

/// What the end of a coordinator's task makes of its run: what is shown of it,
/// and the status that the store is to set.
pub fn finish_coordinator_run(run: &mut LiveRun, result: Result<(), String>, at: i64) -> (change:
    StatusChange)
    ensures
        *final(run) == shown_after(*old(run), result),
        outcome_of(change, old(run).instance_name@, result, at),
{
    let change = run_outcome(run.instance_name.as_str(), &result, at);
    match result {
        Ok(_) => {
            run.status = WorkflowProgress::Completed;
        },
        Err(message) => {
            run.status = WorkflowProgress::Failed;
            run.error = Some(message);
        },
    }
    change
}

/// What registering a run makes of the registry, and whether it was registered.
pub open spec fn registers(
    before: Map<Seq<char>, LiveRun>,
    run: LiveRun,
    after: Map<Seq<char>, LiveRun>,
    registered: bool,
) -> bool {
    &&& registered == !before.contains_key(run.instance_name@)
    &&& after == if registered {
        before.insert(run.instance_name@, run)
    } else {
        before
    }
}

/// Registers a run under its name, so that commands reach it. A name that is
/// taken stays with the run that has it.
pub fn register_run(runs: &mut TextMap<LiveRun>, run: LiveRun) -> (registered: bool)
    ensures
        registers(old(runs)@, run, final(runs)@, registered),
{
    if runs.contains_key(run.instance_name.as_str()) {
        return false;
    }
    runs.insert(run.instance_name.clone(), run);
    true
}

/// How a coordinator's task came to its end.
pub enum TaskEnd {
    /// It returned.
    Returned(Result<(), String>),
    /// It was aborted, or it panicked.
    Aborted,
}

/// What the registry shows once a task came to its end: a registered run whose
/// task returned has its new status, anything else is as it was.
pub open spec fn concluded(
    runs: Map<Seq<char>, LiveRun>,
    name: Seq<char>,
    end: TaskEnd,
) -> Map<Seq<char>, LiveRun> {
    match end {
        TaskEnd::Returned(result) if runs.contains_key(name) => runs.insert(
            name,
            shown_after(runs[name], result),
        ),
        _ => runs,
    }
}

/// The status that the store is to set once a task came to its end.
pub open spec fn stores(
    name: Seq<char>,
    end: TaskEnd,
    at: i64,
    change: Option<StatusChange>,
) -> bool {
    match end {
        TaskEnd::Returned(result) => change matches Some(c) && outcome_of(c, name, result, at),
        TaskEnd::Aborted => change is None,
    }
}

/// Shows in the registry how a run ended. Returns the status that the store is to
/// set, which there is where the run's task returned. The run keeps its name
/// until it is released.
pub fn conclude_run(runs: &mut TextMap<LiveRun>, name: &str, end: TaskEnd, at: i64) -> (change:
    Option<StatusChange>)
    ensures
        final(runs)@ == concluded(old(runs)@, name@, end),
        stores(name@, end, at, change),
{
    match end {
        TaskEnd::Aborted => None,
        TaskEnd::Returned(result) => {
            let ghost before = runs@;
            let change = run_outcome(name, &result, at);
            match runs.remove(name) {
                Some(run) => {
                    let mut run = run;
                    let _ = finish_coordinator_run(&mut run, result, at);
                    runs.insert(name.to_owned(), run);
                    proof {
                        assert(runs@ =~= before.insert(name@, run));
                    }
                },
                None => {
                    proof {
                        assert(runs@ =~= before);
                    }
                },
            }
            Some(change)
        },
    }
}

/// What releasing a name makes of the registry, and the run that had it.
pub open spec fn releases(
    before: Map<Seq<char>, LiveRun>,
    name: Seq<char>,
    after: Map<Seq<char>, LiveRun>,
    run: Option<LiveRun>,
) -> bool {
    &&& after == before.remove(name)
    &&& run == if before.contains_key(name) {
        Some(before[name])
    } else {
        None
    }
}

/// Takes a run out of the registry, once the store has its status or it has none,
/// and frees its name.
pub fn release_run(runs: &mut TextMap<LiveRun>, name: &str) -> (run: Option<LiveRun>)
    ensures
        releases(old(runs)@, name@, final(runs)@, run),
{
    runs.remove(name)
}

/// Whether the coordinator has a say in a run: this node is its peer there, and
/// the coordinator speaks of that run, or of none in particular.
pub open spec fn answers_to(run: WorkflowRun, pubkey: Seq<char>, instance: Seq<char>) -> bool {
    &&& run.role == WorkflowRole::Peer
    &&& text::text_of(run.coordinator_pubkey) == Some(pubkey)
    &&& instance.len() == 0 || text::text_of(run.coordinator_instance) == Some(instance)
}

/// Whether the coordinator has a say in a run.
fn under(run: &WorkflowRun, pubkey: &str, instance: &str) -> (yes: bool)
    ensures
        yes == answers_to(*run, pubkey@, instance@),
{
    run.role == WorkflowRole::Peer && text::is_text(&run.coordinator_pubkey, pubkey) && (
    instance.is_empty() || text::is_text(&run.coordinator_instance, instance))
}

/// The runs that the coordinator's cancel ends.
pub open spec fn cancels(pubkey: Seq<char>, instance: Seq<char>) -> spec_fn(WorkflowRun) -> bool {
    |run: WorkflowRun| answers_to(run, pubkey, instance)
}

/// The runs that the coordinator's retry starts again.
pub open spec fn retries(pubkey: Seq<char>, instance: Seq<char>) -> spec_fn(WorkflowRun) -> bool {
    |run: WorkflowRun|
        answers_to(run, pubkey, instance) && run.status == WorkflowProgress::Failed
}

/// The change cancels the run.
pub open spec fn cancel_of(change: StatusChange, run: WorkflowRun, at: i64) -> bool {
    &&& change.instance_name@ == run.instance_name@
    &&& change.status == WorkflowProgress::Cancelled
    &&& text::text_of(change.error) == Some("Coordinator cancelled the workflow"@)
    &&& change.at == at
}

/// The changes that a coordinator's cancel makes to the runs in progress: those
/// of the run that it names, or all of its runs where it names none.
pub fn cancel_peer_runs_from(
    runs: &Vec<WorkflowRun>,
    coordinator_pubkey: &str,
    instance: &str,
    at: i64,
) -> (changes: Vec<StatusChange>)
    ensures
        ({
            let ended = runs@.filter(cancels(coordinator_pubkey@, instance@));
            &&& changes@.len() == ended.len()
            &&& forall|i: int|
                0 <= i < ended.len() ==> cancel_of(#[trigger] changes@[i], ended[i], at)
        }),
{
    let ghost p = cancels(coordinator_pubkey@, instance@);
    let mut changes: Vec<StatusChange> = Vec::new();
    let mut k: usize = 0;
    proof {
        assert(runs@.take(0).filter(p).len() == 0) by {
            reveal(Seq::filter);
        }
    }
    while k < runs.len()
        invariant
            k <= runs@.len(),
            p == cancels(coordinator_pubkey@, instance@),
            changes@.len() == runs@.take(k as int).filter(p).len(),
            forall|i: int|
                0 <= i < changes@.len() ==> cancel_of(
                    #[trigger] changes@[i],
                    runs@.take(k as int).filter(p)[i],
                    at,
                ),
        decreases runs@.len() - k,
    {
        proof {
            counting::lemma_filter_take(runs@, p, k as int);
        }
        if under(&runs[k], coordinator_pubkey, instance) {
            changes.push(
                StatusChange {
                    instance_name: runs[k].instance_name.clone(),
                    status: WorkflowProgress::Cancelled,
                    error: Some("Coordinator cancelled the workflow".to_owned()),
                    at,
                },
            );
        }
        k += 1;
    }
    proof {
        assert(runs@.take(k as int) =~= runs@);
    }
    changes
}

/// A run that starts again: the change to make first, and then the job to queue.
pub struct Retry {
    pub change: StatusChange,
    pub job: PeerJob,
}

/// The retry starts the run again.
pub open spec fn retry_of(retry: Retry, run: WorkflowRun, at: i64) -> bool {
    &&& retry.change.instance_name@ == run.instance_name@
    &&& retry.change.status == WorkflowProgress::InProgress
    &&& retry.change.error is None
    &&& retry.change.at == at
    &&& job_of(retry.job, run)
}

/// The runs that a coordinator's retry starts again: the failed ones of the run
/// that it names, or all of its failed runs where it names none.
pub fn retry_peer_runs_from(
    runs: &Vec<WorkflowRun>,
    coordinator_pubkey: &str,
    instance: &str,
    at: i64,
) -> (started: Vec<Retry>)
    ensures
        ({
            let again = runs@.filter(retries(coordinator_pubkey@, instance@));
            &&& started@.len() == again.len()
            &&& forall|i: int|
                0 <= i < again.len() ==> retry_of(#[trigger] started@[i], again[i], at)
        }),
{
    let ghost p = retries(coordinator_pubkey@, instance@);
    let mut started: Vec<Retry> = Vec::new();
    let mut k: usize = 0;
    proof {
        assert(runs@.take(0).filter(p).len() == 0) by {
            reveal(Seq::filter);
        }
    }
    while k < runs.len()
        invariant
            k <= runs@.len(),
            p == retries(coordinator_pubkey@, instance@),
            started@.len() == runs@.take(k as int).filter(p).len(),
            forall|i: int|
                0 <= i < started@.len() ==> retry_of(
                    #[trigger] started@[i],
                    runs@.take(k as int).filter(p)[i],
                    at,
                ),
        decreases runs@.len() - k,
    {
        proof {
            counting::lemma_filter_take(runs@, p, k as int);
        }
        if runs[k].status == WorkflowProgress::Failed && under(
            &runs[k],
            coordinator_pubkey,
            instance,
        ) {
            if let Some(job) = refire_peer(&runs[k]) {
                let change = StatusChange {
                    instance_name: runs[k].instance_name.clone(),
                    status: WorkflowProgress::InProgress,
                    error: None,
                    at,
                };
                started.push(Retry { change, job });
            }
        }
        k += 1;
    }
    proof {
        assert(runs@.take(k as int) =~= runs@);
    }
    started
}

/// The job to queue for a run that starts again: only once its change was
/// written is there one.
pub fn job_after_write(retry: Retry, written: bool) -> (job: Option<PeerJob>)
    ensures
        job == if written {
            Some(retry.job)
        } else {
            None
        },
        job is Some <==> written,
{
    if written {
        Some(retry.job)
    } else {
        None
    }
}

/// The change that ends a peer's run.
pub fn finalize_peer_run(
    instance_name: &str,
    success: bool,
    error_msg: Option<String>,
    at: i64,
) -> (change: StatusChange)
    ensures
        change.instance_name@ == instance_name@,
        change.status == if success {
            WorkflowProgress::Completed
        } else {
            WorkflowProgress::Failed
        },
        change.error == error_msg,
        change.at == at,
{
    let status = if success {
        WorkflowProgress::Completed
    } else {
        WorkflowProgress::Failed
    };
    StatusChange { instance_name: instance_name.to_owned(), status, error: error_msg, at }
}

/// How a peer's job starts.
pub enum PeerStart {
    /// With this coordinator.
    Run(PeerRow),
    /// Not at all: set this status.
    Finalize(StatusChange),
}

/// How a peer's job starts once its coordinator was looked up by key.
pub fn start_peer_job(
    job: &PeerJob,
    coordinator: Result<Option<PeerRow>, String>,
    at: i64,
) -> (start: PeerStart)
    ensures
        match coordinator {
            Ok(Some(peer)) => start == PeerStart::Run(peer),
            Ok(None) => match start {
                PeerStart::Finalize(change) => {
                    &&& change.instance_name@ == job.instance_name@
                    &&& change.status == WorkflowProgress::Failed
                    &&& text::text_of(change.error) == Some(
                        "Coordinator not found in peer database"@,
                    )
                    &&& change.at == at
                },
                _ => false,
            },
            Err(message) => match start {
                PeerStart::Finalize(change) => {
                    &&& change.instance_name@ == job.instance_name@
                    &&& change.status == WorkflowProgress::Failed
                    &&& change.error == Some(message)
                    &&& change.at == at
                },
                _ => false,
            },
        },
{
    match coordinator {
        Ok(Some(peer)) => PeerStart::Run(peer),
        Ok(None) => PeerStart::Finalize(
            finalize_peer_run(
                job.instance_name.as_str(),
                false,
                Some("Coordinator not found in peer database".to_owned()),
                at,
            ),
        ),
        Err(message) => PeerStart::Finalize(
            finalize_peer_run(job.instance_name.as_str(), false, Some(message), at),
        ),
    }
}

/// The change that the end of a peer's workflow makes.
pub fn finish_peer_job(job: &PeerJob, result: Result<(), String>, at: i64) -> (change: StatusChange)
    ensures
        change.instance_name@ == job.instance_name@,
        change.at == at,
        match result {
            Ok(_) => change.status == WorkflowProgress::Completed && change.error is None,
            Err(message) => change.status == WorkflowProgress::Failed && change.error == Some(
                message,
            ),
        },
{
    match result {
        Ok(_) => finalize_peer_run(job.instance_name.as_str(), true, None, at),
        Err(message) => finalize_peer_run(job.instance_name.as_str(), false, Some(message), at),
    }
}

/// No two runs have the same name.
pub open spec fn distinct_names(runs: Seq<WorkflowRun>) -> bool {
    forall|i: int, j: int|
        0 <= i < j < runs.len() ==> #[trigger] runs[i].instance_name@
            != #[trigger] runs[j].instance_name@
}

/// A coordinator's cancel changes the status of every run that answers to it,
/// and of no other.
pub proof fn law_cancel_reaches_its_runs(
    runs: Seq<WorkflowRun>,
    pubkey: Seq<char>,
    instance: Seq<char>,
    at: i64,
    changes: Seq<StatusChange>,
    k: int,
)
    requires
        distinct_names(runs),
        changes.len() == runs.filter(cancels(pubkey, instance)).len(),
        forall|i: int|
            0 <= i < changes.len() ==> cancel_of(
                #[trigger] changes[i],
                runs.filter(cancels(pubkey, instance))[i],
                at,
            ),
        0 <= k < runs.len(),
    ensures
        answers_to(runs[k], pubkey, instance) <==> exists|i: int|
            0 <= i < changes.len() && (#[trigger] changes[i]).instance_name@
                == runs[k].instance_name@,
{
    let p = cancels(pubkey, instance);
    if answers_to(runs[k], pubkey, instance) {
        let i = counting::lemma_filtered_position(runs, p, k);
        assert(cancel_of(changes[i], runs.filter(p)[i], at));
    }
    if exists|i: int|
        0 <= i < changes.len() && (#[trigger] changes[i]).instance_name@
            == runs[k].instance_name@ {
        let i = choose|i: int|
            0 <= i < changes.len() && (#[trigger] changes[i]).instance_name@
                == runs[k].instance_name@;
        assert(cancel_of(changes[i], runs.filter(p)[i], at));
        let j = counting::lemma_filter_position(runs, p, i);
        assert(runs[j].instance_name@ == runs[k].instance_name@);
    }
}

/// A coordinator's retry starts every failed run that answers to it, and no other.
pub proof fn law_retry_reaches_its_failed_runs(
    runs: Seq<WorkflowRun>,
    pubkey: Seq<char>,
    instance: Seq<char>,
    at: i64,
    started: Seq<Retry>,
    k: int,
)
    requires
        distinct_names(runs),
        started.len() == runs.filter(retries(pubkey, instance)).len(),
        forall|i: int|
            0 <= i < started.len() ==> retry_of(
                #[trigger] started[i],
                runs.filter(retries(pubkey, instance))[i],
                at,
            ),
        0 <= k < runs.len(),
    ensures
        answers_to(runs[k], pubkey, instance) && runs[k].status == WorkflowProgress::Failed
            <==> exists|i: int|
            0 <= i < started.len() && (#[trigger] started[i]).job.instance_name@
                == runs[k].instance_name@,
{
    let p = retries(pubkey, instance);
    if p(runs[k]) {
        let i = counting::lemma_filtered_position(runs, p, k);
        assert(retry_of(started[i], runs.filter(p)[i], at));
    }
    if exists|i: int|
        0 <= i < started.len() && (#[trigger] started[i]).job.instance_name@
            == runs[k].instance_name@ {
        let i = choose|i: int|
            0 <= i < started.len() && (#[trigger] started[i]).job.instance_name@
                == runs[k].instance_name@;
        assert(retry_of(started[i], runs.filter(p)[i], at));
        let j = counting::lemma_filter_position(runs, p, i);
        assert(runs[j].instance_name@ == runs[k].instance_name@);
    }
}

/// A run answers to one coordinator only, and a coordinator that names one of
/// its runs does not reach its others.
pub proof fn law_runs_are_kept_apart(
    run: WorkflowRun,
    pubkey: Seq<char>,
    instance: Seq<char>,
    other_pubkey: Seq<char>,
    other_instance: Seq<char>,
)
    requires
        answers_to(run, pubkey, instance),
        answers_to(run, other_pubkey, other_instance),
    ensures
        pubkey == other_pubkey,
        instance.len() > 0 && other_instance.len() > 0 ==> instance == other_instance,
{
}

/// A coordinator that names no run reaches whatever it reaches by a name.
pub proof fn law_unnamed_reaches_all(run: WorkflowRun, pubkey: Seq<char>, instance: Seq<char>)
    requires
        answers_to(run, pubkey, instance),
    ensures
        answers_to(run, pubkey, Seq::empty()),
{
}

/// A run that was cancelled, failed or completed in the meantime, or that is
/// gone, is not taken up again.
pub proof fn law_ended_runs_are_not_resumed(
    run: WorkflowRun,
    status: Option<WorkflowProgress>,
    at: i64,
    action: RespawnAction,
)
    requires
        status != Some(WorkflowProgress::InProgress),
        respawns(run, RespawnEvent::StatusRead(Ok(status)), at, action),
    ensures
        action is Stop,
{
}

/// A name that was registered is taken until its run is released, however its
/// task ended, and free again from then on; the other runs stay as they were.
pub proof fn law_names_are_taken_until_runs_are_released(
    runs: Map<Seq<char>, LiveRun>,
    run: LiveRun,
    end: TaskEnd,
    other: Seq<char>,
)
    requires
        !runs.contains_key(run.instance_name@),
        other != run.instance_name@,
    ensures
        ({
            let name = run.instance_name@;
            let registered = runs.insert(name, run);
            let ended = concluded(registered, name, end);
            &&& registered.contains_key(name)
            &&& ended.contains_key(name)
            &&& ended.contains_key(other) == runs.contains_key(other)
            &&& runs.contains_key(other) ==> ended[other] == runs[other]
            &&& ended.remove(name) == runs
        }),
{
    let name = run.instance_name@;
    assert(concluded(runs.insert(name, run), name, end).remove(name) =~= runs);
}

/// A run's job is the same whether it is queued at boot or on a retry.
pub proof fn law_one_job_per_run(run: WorkflowRun, first: PeerJob, second: PeerJob)
    requires
        job_of(first, run),
        job_of(second, run),
    ensures
        first.kind == second.kind,
        first.instance_name@ == second.instance_name@,
        first.coordinator_instance@ == second.coordinator_instance@,
        first.coordinator_pubkey@ == second.coordinator_pubkey@,
{
}

} // verus!
