//! The Worker lifecycle state machine: connect with bounded retry, register,
//! take the assignment, poll for the go-ahead, hand off to the attack engine,
//! and tell an expected peer departure from a fatal one.
//!
//! Every decision of the protocol is a function here; the embedding program
//! only performs the returned actions (dial, sleep, send, receive, abort).

use vstd::prelude::*;

use crate::address::url_ok;
use crate::codec::{dec_command, dec_inits};
use crate::codec::{decode_command, decode_initializers};
use crate::messages::{
    GaggleMetrics, InitView, MetricView, RunConfiguration, WorkerCommand, merged_config_view,
    metrics_view,
};
use crate::messages::{clone_config, copy_bytes, merged_run_config};

verus! {

/// Pause before the first dial, to tolerate a Manager still starting up.
pub const INITIAL_GRACE_MS: u64 = 100;
/// Pause between dial attempts.
pub const RETRY_PAUSE_MS: u64 = 500;
/// How many times a failed dial is retried before the Worker gives up.
pub const MAX_DIAL_RETRIES: u64 = 5;
/// Pause before the next heartbeat when the Manager says to keep waiting.
pub const GOAHEAD_PAUSE_MS: u64 = 1000;

/// Where a Worker stands in its lifecycle.
#[derive(Clone, Copy, Debug, PartialEq, Eq, Structural)]
pub enum WorkerState {
    /// Dialing the Manager, with bounded retry.
    Connecting,
    /// Connected; the registration push is owed.
    Registering,
    /// Registered; the Manager owes an assignment.
    AwaitingAssignment,
    /// Users built; polling the Manager for the go-ahead.
    AwaitingGoAhead,
    /// Told to run; the attack configuration is owed.
    StartingAttack,
    /// The attack engine holds control and streams metrics.
    Running,
    /// An Exit arrived mid-run; the engine is winding down.
    ShuttingDown,
    /// An Exit arrived while polling; the process exits now.
    Exited,
}

/// How a peer-loss event must be treated.
#[derive(Clone, Copy, Debug, PartialEq, Eq, Structural)]
pub enum PeerLossSeverity {
    /// The Manager must not go away: abort.
    Fatal,
    /// The Manager is expected to go away: log only.
    Informational,
}

/// What the embedding program does when the transport reports the peer gone.
#[derive(Clone, Copy, Debug, PartialEq, Eq, Structural)]
pub enum PeerLossResponse {
    /// Abort the process with a diagnostic.
    AbortProcess,
    /// Write a log line and carry on shutting down.
    LogOnly,
}

/// The unrecoverable protocol failures; each aborts the process.
#[derive(Clone, Copy, Debug, PartialEq, Eq, Structural)]
pub enum FatalError {
    /// The Manager sent Exit before any assignment.
    ExitBeforeAssignment,
    /// The Manager sent a command other than Exit before any assignment.
    UnexpectedCommand,
    /// A message decoded as neither of the shapes valid at that point.
    InvalidMessage,
    /// An assignment carried a base URL that does not parse.
    InvalidBaseUrl,
}

/// What the connect loop does after one dial attempt.
#[derive(Clone, Copy, Debug, PartialEq, Eq, Structural)]
pub enum DialStep {
    /// Connected: move on to registration.
    Proceed,
    /// Dial again after this many milliseconds.
    RetryAfterMillis(u64),
    /// Retries exhausted: abort with a diagnostic naming the address.
    Abort,
}

/// What the go-ahead loop does after one reply.
#[derive(Clone, Copy, Debug, PartialEq, Eq, Structural)]
pub enum GoAheadStep {
    /// Hand control to the attack engine.
    StartAttack,
    /// Exit the process with status zero.
    ExitProcess,
    /// Heartbeat again after this many milliseconds.
    KeepWaitingMillis(u64),
}

/// One local simulated user, materialized from one initializer.
#[derive(Clone, Debug)]
pub struct LocalUser {
    /// Index of the task set this user runs.
    pub task_sets_index: u64,
    /// Base URL the user targets.
    pub base_url: Vec<u8>,
    /// Minimum pause between tasks, in milliseconds.
    pub min_wait: u64,
    /// Maximum pause between tasks, in milliseconds.
    pub max_wait: u64,
    /// The load test fingerprint this user was built under.
    pub hash: u64,
}

/// What the attack engine is handed when the run starts.
#[derive(Clone, Debug)]
pub struct AttackPlan {
    /// The merged configuration: Worker-local logs and throttle, Manager's
    /// shared bundle for the rest, mode flags marking a Worker.
    pub config: RunConfiguration,
    /// Run duration in seconds, the Manager's value, so the fleet stops in
    /// unison.
    pub run_time: u64,
}

/// A Worker's whole coordination state.
pub struct Worker {
    /// Fingerprint of the loaded test definition; fixed for the process
    /// lifetime.
    pub hash: u64,
    /// Lifecycle position.
    pub state: WorkerState,
    /// Failed dial attempts so far.
    pub dial_failures: u64,
    /// Identifier the Manager assigned, zero until an assignment arrives.
    pub worker_id: u64,
    /// Run duration the Manager fixed, zero until an assignment arrives.
    pub run_time: u64,
    /// The local user population, one per assigned initializer.
    pub users: Vec<LocalUser>,
    /// The shared configuration bundle off the first initializer.
    pub shared_config: RunConfiguration,
    /// How a peer-loss event is treated right now.
    pub peer_loss: PeerLossSeverity,
}

/// Whether one built user matches one initializer under fingerprint `h`.
pub open spec fn user_matches(u: LocalUser, iv: InitView, h: u64) -> bool {
    &&& u.task_sets_index == iv.task_sets_index
    &&& u.base_url@ == iv.base_url
    &&& u.min_wait == iv.min_wait
    &&& u.max_wait == iv.max_wait
    &&& u.hash == h
}

/// Whether every base URL of an assignment parses.
pub open spec fn all_urls_ok(is: Seq<InitView>) -> bool {
    forall|j: int| 0 <= j < is.len() ==> url_ok(#[trigger] is[j].base_url)
}

/// The registration message, reused verbatim as the heartbeat.
pub open spec fn worker_init_message(h: u64) -> Seq<MetricView> {
    seq![MetricView::WorkerInit(h)]
}

/// Whether the metrics stream may still push: only while the attack runs.
pub open spec fn may_push(w: Worker) -> bool {
    w.state is Running
}

/// The connect step after one dial outcome: success proceeds, a failure
/// within the retry budget waits and dials again, a failure beyond it gives
/// up.
pub open spec fn dial_next(w: Worker, ok: bool) -> Worker {
    if ok {
        Worker { state: WorkerState::Registering, ..w }
    } else if w.dial_failures < MAX_DIAL_RETRIES {
        Worker { dial_failures: (w.dial_failures + 1) as u64, ..w }
    } else {
        w
    }
}

/// The action the connect loop owes after one dial outcome.
pub open spec fn dial_action(w: Worker, ok: bool) -> DialStep {
    if ok {
        DialStep::Proceed
    } else if w.dial_failures < MAX_DIAL_RETRIES {
        DialStep::RetryAfterMillis(RETRY_PAUSE_MS)
    } else {
        DialStep::Abort
    }
}

/// The go-ahead step on one decoded command: Run starts the attack, Exit
/// ends the process expecting the peer to go away, anything else changes
/// nothing.
pub open spec fn goahead_next(w: Worker, c: WorkerCommand) -> Worker {
    match c {
        WorkerCommand::Run => Worker { state: WorkerState::StartingAttack, ..w },
        WorkerCommand::Exit => Worker {
            state: WorkerState::Exited,
            peer_loss: PeerLossSeverity::Informational,
            ..w
        },
        WorkerCommand::Wait => w,
    }
}

/// The action the go-ahead loop owes on one decoded command.
pub open spec fn goahead_action(c: WorkerCommand) -> GoAheadStep {
    match c {
        WorkerCommand::Run => GoAheadStep::StartAttack,
        WorkerCommand::Exit => GoAheadStep::ExitProcess,
        WorkerCommand::Wait => GoAheadStep::KeepWaitingMillis(GOAHEAD_PAUSE_MS),
    }
}

/// The mid-run step on one decoded push reply: Exit starts the shutdown and
/// downgrades peer loss, anything else changes nothing.
pub open spec fn push_next(w: Worker, c: WorkerCommand) -> Worker {
    match c {
        WorkerCommand::Exit => Worker {
            state: WorkerState::ShuttingDown,
            peer_loss: PeerLossSeverity::Informational,
            ..w
        },
        _ => w,
    }
}

/// Whether `new` is `old` with the users of assignment `is` built: one local
/// user per initializer, the Worker id and run duration off the first
/// element, the shared bundle retained, everything else untouched.
pub open spec fn assignment_built(w: Worker, n: Worker, is: Seq<InitView>) -> bool {
    &&& n.state is AwaitingGoAhead
    &&& n.users@.len() == is.len()
    &&& forall|j: int| 0 <= j < is.len() ==> user_matches(#[trigger] n.users@[j], is[j], w.hash)
    &&& n.worker_id == (if is.len() > 0 { is[0].worker_id } else { 0u64 })
    &&& n.run_time == (if is.len() > 0 { is[0].run_time } else { 0u64 })
    &&& n.shared_config@ == (if is.len() > 0 { is[0].config } else { w.shared_config@ })
    &&& n.hash == w.hash
    &&& n.dial_failures == w.dial_failures
    &&& n.peer_loss == w.peer_loss
}

impl Worker {
    /// A fresh Worker holding the local test definition's fingerprint: about
    /// to dial, no identity, no users, every peer loss fatal.
    pub fn new(hash: u64) -> (w: Worker)
        ensures
            w.hash == hash,
            w.state is Connecting,
            w.dial_failures == 0,
            w.worker_id == 0,
            w.run_time == 0,
            w.users@.len() == 0,
            w.shared_config@ == crate::messages::default_config_view(),
            w.peer_loss is Fatal,
    {
        Worker {
            hash,
            state: WorkerState::Connecting,
            dial_failures: 0,
            worker_id: 0,
            run_time: 0,
            users: Vec::new(),
            shared_config: RunConfiguration::default(),
            peer_loss: PeerLossSeverity::Fatal,
        }
    }

    /// Records one dial outcome and says what the connect loop does next.
    pub fn on_dial_result(&mut self, ok: bool) -> (r: DialStep)
        requires
            old(self).state is Connecting,
        ensures
            *final(self) == dial_next(*old(self), ok),
            r == dial_action(*old(self), ok),
    {
        if ok {
            self.state = WorkerState::Registering;
            DialStep::Proceed
        } else if self.dial_failures < MAX_DIAL_RETRIES {
            self.dial_failures = self.dial_failures + 1;
            DialStep::RetryAfterMillis(RETRY_PAUSE_MS)
        } else {
            DialStep::Abort
        }
    }

    /// The one-time registration push: the test fingerprint, after which the
    /// Worker awaits its assignment.
    pub fn registration_message(&mut self) -> (r: Vec<GaggleMetrics>)
        requires
            old(self).state is Registering,
        ensures
            *final(self) == (Worker { state: WorkerState::AwaitingAssignment, ..*old(self) }),
            metrics_view(r@) == worker_init_message(old(self).hash),
    {
        self.state = WorkerState::AwaitingAssignment;
        let mut r: Vec<GaggleMetrics> = Vec::new();
        r.push(GaggleMetrics::WorkerInit(self.hash));
        proof {
            assert(metrics_view(r@) =~= worker_init_message(self.hash));
        }
        r
    }

    /// The heartbeat pushed while polling for the go-ahead: the same shape
    /// and the same fingerprint as the registration, every time.
    pub fn heartbeat_message(&self) -> (r: Vec<GaggleMetrics>)
        requires
            self.state is AwaitingGoAhead,
        ensures
            metrics_view(r@) == worker_init_message(self.hash),
    {
        let mut r: Vec<GaggleMetrics> = Vec::new();
        r.push(GaggleMetrics::WorkerInit(self.hash));
        proof {
            assert(metrics_view(r@) =~= worker_init_message(self.hash));
        }
        r
    }

    /// Takes the first message after registration.  It must decode as an
    /// assignment — then the local users are built and their count returned —
    /// or the Worker aborts: Exit here is a protocol violation, any other
    /// command is unexpected, anything else is invalid; a base URL that does
    /// not parse is fatal too, as the user population cannot be built.
    pub fn on_assignment_message(&mut self, msg: &Vec<u8>) -> (r: Result<usize, FatalError>)
        requires
            old(self).state is AwaitingAssignment,
        ensures
            match dec_inits(msg@) {
                Some(is) => {
                    if all_urls_ok(is) {
                        &&& r is Ok
                        &&& r->Ok_0 == is.len()
                        &&& assignment_built(*old(self), *final(self), is)
                    } else {
                        &&& r == Err::<usize, FatalError>(FatalError::InvalidBaseUrl)
                        &&& *final(self) == *old(self)
                    }
                },
                None => {
                    &&& *final(self) == *old(self)
                    &&& match dec_command(msg@) {
                        Some(c) => if c is Exit {
                            r == Err::<usize, FatalError>(FatalError::ExitBeforeAssignment)
                        } else {
                            r == Err::<usize, FatalError>(FatalError::UnexpectedCommand)
                        },
                        None => r == Err::<usize, FatalError>(FatalError::InvalidMessage),
                    }
                },
            },
    {
        let inits = match decode_initializers(msg) {
            Some(inits) => inits,
            None => {
                return match decode_command(msg) {
                    Some(WorkerCommand::Exit) => Err(FatalError::ExitBeforeAssignment),
                    Some(_) => Err(FatalError::UnexpectedCommand),
                    None => Err(FatalError::InvalidMessage),
                };
            },
        };
        let ghost is = dec_inits(msg@).unwrap();
        let mut j: usize = 0;
        while j < inits.len()
            invariant
                j <= inits.len(),
                dec_inits(msg@) == Some(is),
                is == crate::messages::inits_view(inits@),
                forall|t: int| 0 <= t < j ==> url_ok(#[trigger] is[t].base_url),
            decreases inits.len() - j,
        {
            if !crate::address::base_url_accepted(&inits[j].base_url) {
                proof {
                    assert(!url_ok(is[j as int].base_url));
                }
                return Err(FatalError::InvalidBaseUrl);
            }
            j = j + 1;
        }
        let mut users: Vec<LocalUser> = Vec::new();
        let mut k: usize = 0;
        while k < inits.len()
            invariant
                k <= inits.len(),
                dec_inits(msg@) == Some(is),
                is == crate::messages::inits_view(inits@),
                users@.len() == k,
                forall|t: int| 0 <= t < k ==> user_matches(
                    #[trigger] users@[t],
                    is[t],
                    self.hash,
                ),
                self == old(self),
            decreases inits.len() - k,
        {
            let u = LocalUser {
                task_sets_index: inits[k].task_sets_index,
                base_url: copy_bytes(&inits[k].base_url),
                min_wait: inits[k].min_wait,
                max_wait: inits[k].max_wait,
                hash: self.hash,
            };
            users.push(u);
            k = k + 1;
        }
        let count = users.len();
        if inits.len() > 0 {
            self.worker_id = inits[0].worker_id;
            self.run_time = inits[0].run_time;
            self.shared_config = clone_config(&inits[0].config);
        } else {
            self.worker_id = 0;
            self.run_time = 0;
        }
        self.users = users;
        self.state = WorkerState::AwaitingGoAhead;
        Ok(count)
    }

    /// Takes one reply to a go-ahead heartbeat.  Run hands control to the
    /// attack engine; Exit ends the process with status zero, expecting the
    /// peer to go away; any other command means keep waiting, unchanged; a
    /// reply that is no command at all is fatal.
    pub fn on_goahead_reply(&mut self, reply: &Vec<u8>) -> (r: Result<GoAheadStep, FatalError>)
        requires
            old(self).state is AwaitingGoAhead,
        ensures
            match dec_command(reply@) {
                Some(c) => *final(self) == goahead_next(*old(self), c) && r == Ok::<
                    GoAheadStep,
                    FatalError,
                >(goahead_action(c)),
                None => *final(self) == *old(self) && r == Err::<GoAheadStep, FatalError>(
                    FatalError::InvalidMessage,
                ),
            },
    {
        match decode_command(reply) {
            Some(WorkerCommand::Run) => {
                self.state = WorkerState::StartingAttack;
                Ok(GoAheadStep::StartAttack)
            },
            Some(WorkerCommand::Exit) => {
                self.state = WorkerState::Exited;
                self.peer_loss = PeerLossSeverity::Informational;
                Ok(GoAheadStep::ExitProcess)
            },
            Some(WorkerCommand::Wait) => Ok(GoAheadStep::KeepWaitingMillis(GOAHEAD_PAUSE_MS)),
            None => Err(FatalError::InvalidMessage),
        }
    }

    /// Builds what the attack engine is handed: the Manager's run duration
    /// and the merged configuration; the Worker then counts as running.
    pub fn start_attack_plan(&mut self, local: &RunConfiguration) -> (r: AttackPlan)
        requires
            old(self).state is StartingAttack,
        ensures
            *final(self) == (Worker { state: WorkerState::Running, ..*old(self) }),
            r.config@ == merged_config_view(old(self).shared_config@, local@),
            r.run_time == old(self).run_time,
    {
        let config = merged_run_config(&self.shared_config, local);
        self.state = WorkerState::Running;
        AttackPlan { config, run_time: self.run_time }
    }

    /// Takes one reply to a mid-run push that asked for one.  Exit means the
    /// stream ends — the peer-loss handler is downgraded first — and the
    /// engine must push no further; anything else means carry on.
    pub fn on_push_reply(&mut self, reply: &Vec<u8>) -> (r: Result<bool, FatalError>)
        requires
            old(self).state is Running,
        ensures
            match dec_command(reply@) {
                Some(c) => *final(self) == push_next(*old(self), c) && r == Ok::<bool, FatalError>(
                    !(c is Exit),
                ) && (c is Exit ==> !may_push(*final(self))),
                None => *final(self) == *old(self) && r == Err::<bool, FatalError>(
                    FatalError::InvalidMessage,
                ),
            },
    {
        match decode_command(reply) {
            Some(WorkerCommand::Exit) => {
                self.state = WorkerState::ShuttingDown;
                self.peer_loss = PeerLossSeverity::Informational;
                Ok(false)
            },
            Some(_) => Ok(true),
            None => Err(FatalError::InvalidMessage),
        }
    }

    /// What the embedding program does when the transport reports the peer
    /// gone: abort while a loss is unexpected, log only once it is expected.
    pub fn on_peer_loss(&self) -> (r: PeerLossResponse)
        ensures
            (r is AbortProcess) <==> (self.peer_loss is Fatal),
    {
        match self.peer_loss {
            PeerLossSeverity::Fatal => PeerLossResponse::AbortProcess,
            PeerLossSeverity::Informational => PeerLossResponse::LogOnly,
        }
    }

    /// The identifier the Manager assigned, zero before assignment.
    pub fn worker_id(&self) -> (r: u64)
        ensures
            r == self.worker_id,
    {
        self.worker_id
    }

    /// How many local users were built.
    pub fn user_count(&self) -> (r: usize)
        ensures
            r == self.users@.len(),
    {
        self.users.len()
    }
}

// ---------------------------------------------------------------------------
// Laws
// ---------------------------------------------------------------------------

/// The Worker after a whole sequence of go-ahead replies, first reply first.
pub open spec fn run_goahead(w: Worker, cs: Seq<WorkerCommand>) -> Worker
    decreases cs.len(),
{
    if cs.len() == 0 {
        w
    } else {
        run_goahead(goahead_next(w, cs[0]), cs.skip(1))
    }
}

/// Law: however many go-ahead replies arrive, the recorded fingerprint never
/// changes, so every heartbeat — `worker_init_message(hash)` — carries the
/// hash that registration carried.
pub proof fn lemma_heartbeat_hash_constant(w: Worker, cs: Seq<WorkerCommand>)
    ensures
        run_goahead(w, cs).hash == w.hash,
    decreases cs.len(),
{
    if cs.len() > 0 {
        lemma_heartbeat_hash_constant(goahead_next(w, cs[0]), cs.skip(1));
    }
}

/// Law: at every round of the go-ahead loop — whatever replies came before —
/// the heartbeat the Worker owes is `worker_init_message` of the hash it
/// registered with.
pub proof fn lemma_registration_idempotent(w: Worker, cs: Seq<WorkerCommand>)
    ensures
        forall|i: int| 0 <= i <= cs.len() ==> #[trigger] run_goahead(w, cs.take(i)).hash
            == w.hash,
{
    assert forall|i: int| 0 <= i <= cs.len() implies #[trigger] run_goahead(
        w,
        cs.take(i),
    ).hash == w.hash by {
        lemma_heartbeat_hash_constant(w, cs.take(i));
    }
}

/// Law: go-ahead replies other than Run and Exit collapse to "keep waiting" —
/// any number of them leaves the Worker exactly as it was, still polling.
pub proof fn lemma_command_collapse(w: Worker, cs: Seq<WorkerCommand>)
    requires
        forall|j: int| 0 <= j < cs.len() ==> !(#[trigger] cs[j] is Run) && !(cs[j] is Exit),
    ensures
        run_goahead(w, cs) == w,
    decreases cs.len(),
{
    if cs.len() > 0 {
        assert(cs[0] is Wait);
        assert(goahead_next(w, cs[0]) == w);
        lemma_command_collapse(w, cs.skip(1));
    }
}

/// Law: while no Exit has been processed, peer loss stays fatal — a Worker
/// that treats losses as fatal still does so after any sequence of non-Exit
/// go-ahead replies.
pub proof fn lemma_peer_loss_fatal_until_exit(w: Worker, cs: Seq<WorkerCommand>)
    requires
        w.peer_loss is Fatal,
        forall|j: int| 0 <= j < cs.len() ==> !(#[trigger] cs[j] is Exit),
    ensures
        run_goahead(w, cs).peer_loss is Fatal,
    decreases cs.len(),
{
    if cs.len() > 0 {
        lemma_peer_loss_fatal_until_exit(goahead_next(w, cs[0]), cs.skip(1));
    }
}

/// Law: processing an Exit — in the go-ahead loop or as a push reply —
/// downgrades peer loss to informational; any other command leaves the
/// severity as it was.
pub proof fn lemma_peer_loss_swap(w: Worker, c: WorkerCommand)
    ensures
        c is Exit ==> goahead_next(w, c).peer_loss is Informational && push_next(
            w,
            c,
        ).peer_loss is Informational,
        !(c is Exit) ==> goahead_next(w, c).peer_loss == w.peer_loss && push_next(
            w,
            c,
        ).peer_loss == w.peer_loss,
{
}

/// Law: once a push reply decoded to Exit, the Worker may not push again.
pub proof fn lemma_exit_stops_pushes(w: Worker)
    ensures
        !may_push(push_next(w, WorkerCommand::Exit)),
{
}

/// Law: a dial that keeps failing is retried exactly `MAX_DIAL_RETRIES`
/// times, each retry after `RETRY_PAUSE_MS`, and the attempt after the last
/// retry aborts; with the initial grace the mandated pauses total
/// `INITIAL_GRACE_MS + MAX_DIAL_RETRIES * RETRY_PAUSE_MS` milliseconds.
pub proof fn lemma_dial_retry_bound(w: Worker)
    requires
        w.state is Connecting,
        w.dial_failures == 0,
    ensures
        ({
            let w1 = dial_next(w, false);
            let w2 = dial_next(w1, false);
            let w3 = dial_next(w2, false);
            let w4 = dial_next(w3, false);
            let w5 = dial_next(w4, false);
            &&& dial_action(w, false) == DialStep::RetryAfterMillis(RETRY_PAUSE_MS)
            &&& dial_action(w1, false) == DialStep::RetryAfterMillis(RETRY_PAUSE_MS)
            &&& dial_action(w2, false) == DialStep::RetryAfterMillis(RETRY_PAUSE_MS)
            &&& dial_action(w3, false) == DialStep::RetryAfterMillis(RETRY_PAUSE_MS)
            &&& dial_action(w4, false) == DialStep::RetryAfterMillis(RETRY_PAUSE_MS)
            &&& dial_action(w5, false) is Abort
            &&& dial_next(w5, false) == w5
            &&& INITIAL_GRACE_MS + MAX_DIAL_RETRIES * RETRY_PAUSE_MS == 2600
        }),
{
}

} // verus!
