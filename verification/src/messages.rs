//! The closed set of protocol messages exchanged between Manager and Worker,
//! and the run-scoped configuration bundle they carry.  Textual fields travel
//! as byte strings on the wire, so the types hold them as `Vec<u8>`.

use vstd::prelude::*;

verus! {

/// A command the Manager sends to one Worker.  Any recognized value other
/// than `Run` and `Exit` means "keep waiting"; `Wait` is that value.
#[derive(Clone, Copy, Debug, PartialEq, Eq, Structural)]
pub enum WorkerCommand {
    /// Start the load test now.
    Run,
    /// Terminate the Worker process.
    Exit,
    /// No decision yet: heartbeat again after a pause.
    Wait,
}

/// One item of a metrics push from a Worker to the Manager.  `WorkerInit`
/// doubles as the registration message and as the heartbeat/poll sent while
/// the Worker waits for the go-ahead; the batch variants carry opaque
/// telemetry payloads produced by the attack engine.
#[derive(Clone, Debug)]
pub enum GaggleMetrics {
    /// Load test fingerprint, so the Manager can confirm every Worker runs
    /// the identical test definition.
    WorkerInit(u64),
    /// A batch of request metrics.
    Requests(Vec<u8>),
    /// A batch of task metrics.
    Tasks(Vec<u8>),
    /// A batch of error metrics.
    Errors(Vec<u8>),
}

/// Mathematical model of one `GaggleMetrics` item.
#[verifier::ext_equal]
pub enum MetricView {
    WorkerInit(u64),
    Requests(Seq<u8>),
    Tasks(Seq<u8>),
    Errors(Seq<u8>),
}

impl View for GaggleMetrics {
    type V = MetricView;

    open spec fn view(&self) -> MetricView {
        match self {
            GaggleMetrics::WorkerInit(h) => MetricView::WorkerInit(*h),
            GaggleMetrics::Requests(b) => MetricView::Requests(b@),
            GaggleMetrics::Tasks(b) => MetricView::Tasks(b@),
            GaggleMetrics::Errors(b) => MetricView::Errors(b@),
        }
    }
}

/// The views of a whole push, in order.
pub open spec fn metrics_view(ms: Seq<GaggleMetrics>) -> Seq<MetricView> {
    ms.map_values(|m: GaggleMetrics| m@)
}

/// The run-scoped configuration bundle.  The Manager sends one inside every
/// `UserInitializer`; the Worker overrides the log, format and throttle
/// fields with its own local values before starting the attack.
#[derive(Clone, Debug)]
pub struct RunConfiguration {
    /// True when this process coordinates the fleet.
    pub manager: bool,
    /// True when this process is a Worker.
    pub worker: bool,
    /// Address of the Manager's listening socket.
    pub manager_host: Vec<u8>,
    /// Port of the Manager's listening socket.
    pub manager_port: u16,
    /// Path of the request log.
    pub request_log: Vec<u8>,
    /// Format of the request log.
    pub request_format: Vec<u8>,
    /// Path of the task log.
    pub task_log: Vec<u8>,
    /// Format of the task log.
    pub task_format: Vec<u8>,
    /// Path of the error log.
    pub error_log: Vec<u8>,
    /// Format of the error log.
    pub error_format: Vec<u8>,
    /// Path of the debug log.
    pub debug_log: Vec<u8>,
    /// Format of the debug log.
    pub debug_format: Vec<u8>,
    /// Maximum requests per second, zero meaning unthrottled.
    pub throttle_requests: u64,
}

/// Mathematical model of a `RunConfiguration`.
#[verifier::ext_equal]
pub struct ConfigView {
    pub manager: bool,
    pub worker: bool,
    pub manager_host: Seq<u8>,
    pub manager_port: u16,
    pub request_log: Seq<u8>,
    pub request_format: Seq<u8>,
    pub task_log: Seq<u8>,
    pub task_format: Seq<u8>,
    pub error_log: Seq<u8>,
    pub error_format: Seq<u8>,
    pub debug_log: Seq<u8>,
    pub debug_format: Seq<u8>,
    pub throttle_requests: u64,
}

impl View for RunConfiguration {
    type V = ConfigView;

    open spec fn view(&self) -> ConfigView {
        ConfigView {
            manager: self.manager,
            worker: self.worker,
            manager_host: self.manager_host@,
            manager_port: self.manager_port,
            request_log: self.request_log@,
            request_format: self.request_format@,
            task_log: self.task_log@,
            task_format: self.task_format@,
            error_log: self.error_log@,
            error_format: self.error_format@,
            debug_log: self.debug_log@,
            debug_format: self.debug_format@,
            throttle_requests: self.throttle_requests,
        }
    }
}

/// The configuration a fresh Worker holds before the Manager has assigned it
/// anything: every flag off, every path empty, no throttle.
pub open spec fn default_config_view() -> ConfigView {
    ConfigView {
        manager: false,
        worker: false,
        manager_host: Seq::empty(),
        manager_port: 0,
        request_log: Seq::empty(),
        request_format: Seq::empty(),
        task_log: Seq::empty(),
        task_format: Seq::empty(),
        error_log: Seq::empty(),
        error_format: Seq::empty(),
        debug_log: Seq::empty(),
        debug_format: Seq::empty(),
        throttle_requests: 0,
    }
}

impl Default for RunConfiguration {
    /// The all-empty configuration.
    fn default() -> (r: RunConfiguration)
        ensures
            r@ == default_config_view(),
    {
        RunConfiguration {
            manager: false,
            worker: false,
            manager_host: Vec::new(),
            manager_port: 0,
            request_log: Vec::new(),
            request_format: Vec::new(),
            task_log: Vec::new(),
            task_format: Vec::new(),
            error_log: Vec::new(),
            error_format: Vec::new(),
            debug_log: Vec::new(),
            debug_format: Vec::new(),
            throttle_requests: 0,
        }
    }
}

/// Per-user configuration sent from the Manager to a Worker, one element per
/// simulated user assigned to that Worker.  All initializers addressed to one
/// Worker carry identical `config` and `run_time` fields, so the Worker reads
/// those off the first element alone.
#[derive(Clone, Debug)]
pub struct UserInitializer {
    /// Numeric identifier the Manager assigned to the receiving Worker.
    pub worker_id: u64,
    /// Index of the task set this user runs.
    pub task_sets_index: u64,
    /// Base URL the user targets.
    pub base_url: Vec<u8>,
    /// Minimum pause between tasks, in milliseconds.
    pub min_wait: u64,
    /// Maximum pause between tasks, in milliseconds.
    pub max_wait: u64,
    /// Shared run-scoped configuration.
    pub config: RunConfiguration,
    /// Run duration in seconds, fixed by the Manager for the whole fleet.
    pub run_time: u64,
}

/// Mathematical model of a `UserInitializer`.
#[verifier::ext_equal]
pub struct InitView {
    pub worker_id: u64,
    pub task_sets_index: u64,
    pub base_url: Seq<u8>,
    pub min_wait: u64,
    pub max_wait: u64,
    pub config: ConfigView,
    pub run_time: u64,
}

impl View for UserInitializer {
    type V = InitView;

    open spec fn view(&self) -> InitView {
        InitView {
            worker_id: self.worker_id,
            task_sets_index: self.task_sets_index,
            base_url: self.base_url@,
            min_wait: self.min_wait,
            max_wait: self.max_wait,
            config: self.config@,
            run_time: self.run_time,
        }
    }
}

/// The views of a whole assignment, in order.
pub open spec fn inits_view(is: Seq<UserInitializer>) -> Seq<InitView> {
    is.map_values(|i: UserInitializer| i@)
}

/// The configuration handed to the attack engine: the log paths, log formats
/// and the throttle come from the Worker's own local configuration, the mode
/// flags mark a Worker instance, and everything else is the Manager's shared
/// bundle.
pub open spec fn merged_config_view(shared: ConfigView, local: ConfigView) -> ConfigView {
    ConfigView {
        manager: false,
        worker: true,
        request_log: local.request_log,
        request_format: local.request_format,
        task_log: local.task_log,
        task_format: local.task_format,
        error_log: local.error_log,
        error_format: local.error_format,
        debug_log: local.debug_log,
        debug_format: local.debug_format,
        throttle_requests: local.throttle_requests,
        ..shared
    }
}

/// Byte-for-byte copy of a byte string.
pub fn copy_bytes(src: &Vec<u8>) -> (r: Vec<u8>)
    ensures
        r@ == src@,
{
    let mut out: Vec<u8> = Vec::new();
    let mut i: usize = 0;
    while i < src.len()
        invariant
            i <= src.len(),
            out@ == src@.take(i as int),
        decreases src.len() - i,
    {
        out.push(src[i]);
        i = i + 1;
        proof {
            assert(out@ =~= src@.take(i as int));
        }
    }
    proof {
        assert(src@.take(src@.len() as int) =~= src@);
    }
    out
}

/// Field-for-field copy of a configuration bundle.
pub fn clone_config(c: &RunConfiguration) -> (r: RunConfiguration)
    ensures
        r@ == c@,
{
    RunConfiguration {
        manager: c.manager,
        worker: c.worker,
        manager_host: copy_bytes(&c.manager_host),
        manager_port: c.manager_port,
        request_log: copy_bytes(&c.request_log),
        request_format: copy_bytes(&c.request_format),
        task_log: copy_bytes(&c.task_log),
        task_format: copy_bytes(&c.task_format),
        error_log: copy_bytes(&c.error_log),
        error_format: copy_bytes(&c.error_format),
        debug_log: copy_bytes(&c.debug_log),
        debug_format: copy_bytes(&c.debug_format),
        throttle_requests: c.throttle_requests,
    }
}

/// Builds the attack-engine configuration from the Manager's shared bundle
/// and the Worker's local one, as `merged_config_view` says.
pub fn merged_run_config(shared: &RunConfiguration, local: &RunConfiguration) -> (r: RunConfiguration)
    ensures
        r@ == merged_config_view(shared@, local@),
{
    RunConfiguration {
        manager: false,
        worker: true,
        manager_host: copy_bytes(&shared.manager_host),
        manager_port: shared.manager_port,
        request_log: copy_bytes(&local.request_log),
        request_format: copy_bytes(&local.request_format),
        task_log: copy_bytes(&local.task_log),
        task_format: copy_bytes(&local.task_format),
        error_log: copy_bytes(&local.error_log),
        error_format: copy_bytes(&local.error_format),
        debug_log: copy_bytes(&local.debug_log),
        debug_format: copy_bytes(&local.debug_format),
        throttle_requests: local.throttle_requests,
    }
}

} // verus!
