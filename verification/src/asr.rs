//! Decision logic of the ASR dataflow worker.
//!
//! The worker thread receives commands from the UI, drives the dataflow
//! controller and the ASR engine processes, and watches the dataflow's
//! status. All of that outside work is done by the caller; this module
//! decides, for each event the caller observes, what the next state is and
//! what the caller must do next.

use vstd::prelude::*;
use vstd::string::*;

verus! {

/// ASR engine identifier.
#[derive(Debug, Clone, Copy, PartialEq, Eq, Structural)]
pub enum AsrEngineId {
    Paraformer,
    Qwen3Asr,
}

impl AsrEngineId {
    /// Dora node ID for this engine.
    pub fn node_id(&self) -> (r: &'static str)
        ensures
            r@ == match self {
                AsrEngineId::Paraformer => "mofa-asr-paraformer"@,
                AsrEngineId::Qwen3Asr => "mofa-asr-qwen3"@,
            },
    {
        match self {
            AsrEngineId::Paraformer => "mofa-asr-paraformer",
            AsrEngineId::Qwen3Asr => "mofa-asr-qwen3",
        }
    }

    /// Binary name for this engine.
    pub fn binary_name(&self) -> (r: &'static str)
        ensures
            r@ == match self {
                AsrEngineId::Paraformer => "dora-funasr-mlx"@,
                AsrEngineId::Qwen3Asr => "dora-qwen3-asr-mlx"@,
            },
    {
        match self {
            AsrEngineId::Paraformer => "dora-funasr-mlx",
            AsrEngineId::Qwen3Asr => "dora-qwen3-asr-mlx",
        }
    }
}

/// The ASR model selection of the speech recognition settings.
#[derive(Debug, Clone, Copy, PartialEq, Eq, Structural)]
pub enum AsrModelSelection {
    Paraformer,
}

impl Default for AsrModelSelection {
    fn default() -> (r: Self)
        ensures
            r == AsrModelSelection::Paraformer,
    {
        AsrModelSelection::Paraformer
    }
}

impl AsrModelSelection {
    /// Every selection runs the unified dynamic dataflow.
    pub fn dataflow_filename(&self) -> (r: &'static str)
        ensures
            r@ == "asr-dynamic.yml"@,
    {
        "asr-dynamic.yml"
    }

    /// The name shown for the selection.
    pub fn display_name(&self) -> (r: &'static str)
        ensures
            r@ == match self {
                AsrModelSelection::Paraformer => "Paraformer"@,
            },
    {
        match self {
            AsrModelSelection::Paraformer => "Paraformer",
        }
    }
}

/// Severity of a log line reported by a dataflow node.
#[derive(Debug, Clone, Copy, PartialEq, Eq, Structural)]
pub enum NodeLogLevel {
    Debug,
    Info,
    Warning,
    Error,
}

/// The tag written for a severity.
pub open spec fn node_level_tag(l: NodeLogLevel) -> Seq<char> {
    match l {
        NodeLogLevel::Debug => "DEBUG"@,
        NodeLogLevel::Info => "INFO"@,
        NodeLogLevel::Warning => "WARN"@,
        NodeLogLevel::Error => "ERROR"@,
    }
}

/// `[LEVEL] [node] message`: a node's log line as the system log shows it.
pub open spec fn node_log_text(l: NodeLogLevel, node_id: Seq<char>, message: Seq<char>) -> Seq<char> {
    "["@ + node_level_tag(l) + "] ["@ + node_id + "] "@ + message
}

/// Formats a log line reported by a dataflow node for the system log.
pub fn node_log_line(level: NodeLogLevel, node_id: &str, message: &str) -> (r: String)
    ensures
        r@ == node_log_text(level, node_id@, message@),
{
    let mut r = "[".to_owned();
    match level {
        NodeLogLevel::Debug => r.append("DEBUG"),
        NodeLogLevel::Info => r.append("INFO"),
        NodeLogLevel::Warning => r.append("WARN"),
        NodeLogLevel::Error => r.append("ERROR"),
    }
    r.append("] [");
    r.append(node_id);
    r.append("] ");
    r.append(message);
    r
}

/// Commands sent from UI to the dora integration. Environment variables are
/// (name, value) pairs.
#[derive(Debug)]
pub enum DoraCommand {
    /// Start the dataflow with optional environment variables.
    StartDataflow { dataflow_path: String, env_vars: Vec<(String, String)> },
    /// Stop the dataflow gracefully.
    StopDataflow,
    /// Force stop the dataflow immediately.
    ForceStopDataflow,
    /// Connect an ASR engine (spawn child process).
    ConnectAsrEngine { engine: AsrEngineId, env_vars: Vec<(String, String)> },
    /// Disconnect an ASR engine (kill child process).
    DisconnectAsrEngine { engine: AsrEngineId },
    /// Start mic recording.
    StartRecording,
    /// Stop mic recording.
    StopRecording,
    /// Enable/disable AEC (echo cancellation).
    SetAecEnabled { enabled: bool },
}

/// Events sent from the dora integration to the UI.
#[derive(Debug)]
pub enum DoraEvent {
    /// Dataflow started.
    DataflowStarted { dataflow_id: String },
    /// Dataflow stopped.
    DataflowStopped,
    /// Critical error occurred.
    Error { message: String },
}

/// A control message for the microphone input bridge.
#[derive(Debug, Clone, Copy, PartialEq, Eq, Structural)]
pub enum MicControl {
    StartRecording,
    StopRecording,
    SetAecEnabled(bool),
}

/// What the worker must do next.
#[derive(Debug)]
pub enum WorkerAction {
    /// Export the variables into the process environment.
    SetEnvVars(Vec<(String, String)>),
    /// Create the dataflow controller with these variables and start the
    /// dataflow; report the outcome with `WorkerInput::StartOutcome`.
    StartDataflow { dataflow_path: String, env_vars: Vec<(String, String)> },
    /// Kill every ASR engine process.
    KillAllEngines,
    /// Stop the dataflow gracefully and drop the dispatcher.
    StopDispatcher,
    /// Force-stop the dataflow and drop the dispatcher.
    ForceStopDispatcher,
    /// Spawn the engine process (killing a previous one first).
    SpawnEngine { engine: AsrEngineId, env_vars: Vec<(String, String)> },
    /// Kill the engine process.
    KillEngine { engine: AsrEngineId },
    /// Send a control message to the microphone input bridge.
    SendMicControl(MicControl),
    /// Send this event to the UI.
    Emit(DoraEvent),
    /// Query the dataflow status; report it with `WorkerInput::StatusReport`.
    QueryStatus,
}

/// How starting the dataflow went.
#[derive(Debug)]
pub enum StartOutcome {
    /// The controller could not be created.
    ControllerFailed(String),
    /// The controller was created but the dataflow did not start.
    StartFailed(String),
    /// The dataflow runs under this identifier.
    Started(String),
}

/// What the worker observed.
#[derive(Debug)]
pub enum WorkerInput {
    /// A command from the UI.
    Command(DoraCommand),
    /// The outcome of a `StartDataflow` action.
    StartOutcome(StartOutcome),
    /// A loop iteration at this time (milliseconds on a monotonic clock).
    Tick { now_ms: u64 },
    /// The answer to a `QueryStatus` action: whether the dataflow runs, or
    /// why the status could not be read.
    StatusReport(Result<bool, String>),
    /// The last error reported by a bridge through the shared state.
    BridgeError(String),
}

/// Interval between status checks.
pub const STATUS_CHECK_INTERVAL_MS: u64 = 2000;

/// No status checks during this long after a start.
pub const STARTUP_GRACE_PERIOD_MS: u64 = 10000;

/// The worker's state.
#[derive(Debug)]
pub struct WorkerState {
    /// Whether the dataflow is currently running.
    pub running: bool,
    /// Whether a dataflow dispatcher exists.
    pub has_dispatcher: bool,
    /// When the running dataflow was started.
    pub started_at_ms: Option<u64>,
    /// When the status was last checked.
    pub last_status_check_ms: u64,
}

/// The view of an (name, value) list.
pub open spec fn env_view(v: Seq<(String, String)>) -> Seq<(Seq<char>, Seq<char>)> {
    v.map_values(|p: (String, String)| (p.0@, p.1@))
}

/// The time is within the startup grace period of a started dataflow.
pub open spec fn in_grace(st: WorkerState, now: u64) -> bool {
    match st.started_at_ms {
        Some(t) => now >= t && now - t < STARTUP_GRACE_PERIOD_MS,
        None => false,
    }
}

/// A status check is due.
pub open spec fn check_due(st: WorkerState, now: u64) -> bool {
    !in_grace(st, now) && now >= st.last_status_check_ms && now - st.last_status_check_ms
        >= STATUS_CHECK_INTERVAL_MS
}

/// The message of an event equals `prefix` followed by `m`.
pub open spec fn error_event_is(a: WorkerAction, prefix: Seq<char>, m: Seq<char>) -> bool {
    a matches WorkerAction::Emit(DoraEvent::Error { message }) && message@ == prefix + m
}

/// The worker's invariant: the dataflow runs exactly when a start time is
/// recorded, and only while a dispatcher exists.
pub open spec fn worker_inv(st: WorkerState) -> bool {
    &&& st.running <==> st.started_at_ms is Some
    &&& st.running ==> st.has_dispatcher
}

/// A fresh worker: nothing runs and the status was never checked.
pub fn initial_state(now_ms: u64) -> (r: WorkerState)
    ensures
        !r.running,
        !r.has_dispatcher,
        r.started_at_ms is None,
        r.last_status_check_ms == now_ms,
        worker_inv(r),
{
    WorkerState { running: false, has_dispatcher: false, started_at_ms: None, last_status_check_ms: now_ms }
}

/// Builds `prefix` followed by `m`.
fn prefixed(prefix: &str, m: &str) -> (r: String)
    ensures
        r@ == prefix@ + m@,
{
    let mut s = prefix.to_owned();
    s.append(m);
    s
}

/// Copies an environment list.
fn clone_env(v: &Vec<(String, String)>) -> (r: Vec<(String, String)>)
    ensures
        env_view(r@) == env_view(v@),
{
    let mut r: Vec<(String, String)> = Vec::new();
    let mut i: usize = 0;
    while i < v.len()
        invariant
            i <= v.len(),
            env_view(r@) == env_view(v@).take(i as int),
        decreases v.len() - i,
    {
        let k = v[i].0.clone();
        let x = v[i].1.clone();
        let ghost r0 = r@;
        r.push((k, x));
        assert(env_view(r@) =~= env_view(r0).push((v@[i as int].0@, v@[i as int].1@)));
        assert(env_view(v@).take(i + 1) =~= env_view(v@).take(i as int).push(
            (v@[i as int].0@, v@[i as int].1@),
        ));
        i = i + 1;
    }
    assert(env_view(v@).take(v.len() as int) =~= env_view(v@));
    r
}

impl WorkerState {
    /// Decides the next state and the actions for one observed input.
    pub fn step(&mut self, input: WorkerInput, now_ms: u64) -> (actions: Vec<WorkerAction>)
        ensures
            worker_inv(*old(self)) ==> worker_inv(*final(self)),
            match input {
                WorkerInput::Command(DoraCommand::StartDataflow { dataflow_path, env_vars }) => {
                    &&& *final(self) == *old(self)
                    &&& actions@.len() == 2
                    &&& actions@[0] matches WorkerAction::SetEnvVars(e) && env_view(e@) == env_view(
                        env_vars@,
                    )
                    &&& actions@[1] matches WorkerAction::StartDataflow {
                        dataflow_path: p,
                        env_vars: e,
                    } && p@ == dataflow_path@ && env_view(e@) == env_view(env_vars@)
                },
                WorkerInput::Command(DoraCommand::StopDataflow) => {
                    &&& !final(self).running && !final(self).has_dispatcher
                    &&& final(self).started_at_ms is None
                    &&& final(self).last_status_check_ms == old(self).last_status_check_ms
                    &&& actions@.len() == if old(self).has_dispatcher { 3int } else { 2int }
                    &&& actions@[0] is KillAllEngines
                    &&& old(self).has_dispatcher ==> actions@[1] is StopDispatcher
                    &&& actions@.last() matches WorkerAction::Emit(DoraEvent::DataflowStopped)
                },
                WorkerInput::Command(DoraCommand::ForceStopDataflow) => {
                    &&& !final(self).running && !final(self).has_dispatcher
                    &&& final(self).started_at_ms is None
                    &&& final(self).last_status_check_ms == old(self).last_status_check_ms
                    &&& actions@.len() == if old(self).has_dispatcher { 3int } else { 2int }
                    &&& actions@[0] is KillAllEngines
                    &&& old(self).has_dispatcher ==> actions@[1] is ForceStopDispatcher
                    &&& actions@.last() matches WorkerAction::Emit(DoraEvent::DataflowStopped)
                },
                WorkerInput::Command(DoraCommand::ConnectAsrEngine { engine, env_vars }) => {
                    &&& *final(self) == *old(self)
                    &&& actions@.len() == 1
                    &&& actions@[0] matches WorkerAction::SpawnEngine { engine: g, env_vars: e } && g
                        == engine && env_view(e@) == env_view(env_vars@)
                },
                WorkerInput::Command(DoraCommand::DisconnectAsrEngine { engine }) => {
                    &&& *final(self) == *old(self)
                    &&& actions@.len() == 1
                    &&& actions@[0] matches WorkerAction::KillEngine { engine: g } && g == engine
                },
                WorkerInput::Command(DoraCommand::StartRecording) => {
                    &&& *final(self) == *old(self)
                    &&& actions@.len() == if old(self).has_dispatcher { 1int } else { 0int }
                    &&& old(self).has_dispatcher ==> actions@[0] matches WorkerAction::SendMicControl(
                        MicControl::StartRecording,
                    )
                },
                WorkerInput::Command(DoraCommand::StopRecording) => {
                    &&& *final(self) == *old(self)
                    &&& actions@.len() == if old(self).has_dispatcher { 1int } else { 0int }
                    &&& old(self).has_dispatcher ==> actions@[0] matches WorkerAction::SendMicControl(
                        MicControl::StopRecording,
                    )
                },
                WorkerInput::Command(DoraCommand::SetAecEnabled { enabled }) => {
                    &&& *final(self) == *old(self)
                    &&& actions@.len() == if old(self).has_dispatcher { 1int } else { 0int }
                    &&& old(self).has_dispatcher ==> actions@[0] == WorkerAction::SendMicControl(
                        MicControl::SetAecEnabled(enabled),
                    )
                },
                WorkerInput::StartOutcome(StartOutcome::Started(id)) => {
                    &&& final(self).running && final(self).has_dispatcher
                    &&& final(self).started_at_ms == Some(now_ms)
                    &&& final(self).last_status_check_ms == old(self).last_status_check_ms
                    &&& actions@.len() == 1
                    &&& actions@[0] matches WorkerAction::Emit(DoraEvent::DataflowStarted { dataflow_id })
                        && dataflow_id@ == id@
                },
                WorkerInput::StartOutcome(StartOutcome::StartFailed(e)) => {
                    &&& *final(self) == *old(self)
                    &&& actions@.len() == 1
                    &&& error_event_is(actions@[0], "Failed to start dataflow: "@, e@)
                },
                WorkerInput::StartOutcome(StartOutcome::ControllerFailed(e)) => {
                    &&& *final(self) == *old(self)
                    &&& actions@.len() == 1
                    &&& error_event_is(actions@[0], "Failed to create controller: "@, e@)
                },
                WorkerInput::Tick { now_ms: t } => {
                    &&& final(self).running == old(self).running
                    &&& final(self).has_dispatcher == old(self).has_dispatcher
                    &&& final(self).started_at_ms == old(self).started_at_ms
                    &&& final(self).last_status_check_ms == if check_due(*old(self), t) {
                        t
                    } else {
                        old(self).last_status_check_ms
                    }
                    &&& actions@.len() == if check_due(*old(self), t) && old(self).has_dispatcher {
                        1int
                    } else {
                        0int
                    }
                    &&& actions@.len() == 1 ==> actions@[0] is QueryStatus
                },
                WorkerInput::StatusReport(Ok(is_running)) => {
                    let stopped = old(self).running && !is_running;
                    &&& final(self).running == (old(self).running && !stopped)
                    &&& final(self).has_dispatcher == old(self).has_dispatcher
                    &&& final(self).started_at_ms == if stopped {
                        None
                    } else {
                        old(self).started_at_ms
                    }
                    &&& final(self).last_status_check_ms == old(self).last_status_check_ms
                    &&& actions@.len() == if stopped { 1int } else { 0int }
                    &&& stopped ==> actions@[0] matches WorkerAction::Emit(DoraEvent::DataflowStopped)
                },
                WorkerInput::StatusReport(Err(_)) => {
                    &&& *final(self) == *old(self)
                    &&& actions@.len() == 0
                },
                WorkerInput::BridgeError(m) => {
                    &&& *final(self) == *old(self)
                    &&& actions@.len() == 1
                    &&& error_event_is(actions@[0], Seq::empty(), m@)
                },
            },
    {
        let mut actions: Vec<WorkerAction> = Vec::new();
        match input {
            WorkerInput::Command(cmd) => match cmd {
                DoraCommand::StartDataflow { dataflow_path, env_vars } => {
                    let copy = clone_env(&env_vars);
                    actions.push(WorkerAction::SetEnvVars(copy));
                    actions.push(WorkerAction::StartDataflow { dataflow_path, env_vars });
                },
                DoraCommand::StopDataflow => {
                    actions.push(WorkerAction::KillAllEngines);
                    if self.has_dispatcher {
                        actions.push(WorkerAction::StopDispatcher);
                    }
                    self.has_dispatcher = false;
                    self.running = false;
                    self.started_at_ms = None;
                    actions.push(WorkerAction::Emit(DoraEvent::DataflowStopped));
                },
                DoraCommand::ForceStopDataflow => {
                    actions.push(WorkerAction::KillAllEngines);
                    if self.has_dispatcher {
                        actions.push(WorkerAction::ForceStopDispatcher);
                    }
                    self.has_dispatcher = false;
                    self.running = false;
                    self.started_at_ms = None;
                    actions.push(WorkerAction::Emit(DoraEvent::DataflowStopped));
                },
                DoraCommand::ConnectAsrEngine { engine, env_vars } => {
                    actions.push(WorkerAction::SpawnEngine { engine, env_vars });
                },
                DoraCommand::DisconnectAsrEngine { engine } => {
                    actions.push(WorkerAction::KillEngine { engine });
                },
                DoraCommand::StartRecording => {
                    if self.has_dispatcher {
                        actions.push(WorkerAction::SendMicControl(MicControl::StartRecording));
                    }
                },
                DoraCommand::StopRecording => {
                    if self.has_dispatcher {
                        actions.push(WorkerAction::SendMicControl(MicControl::StopRecording));
                    }
                },
                DoraCommand::SetAecEnabled { enabled } => {
                    if self.has_dispatcher {
                        actions.push(WorkerAction::SendMicControl(MicControl::SetAecEnabled(enabled)));
                    }
                },
            },
            WorkerInput::StartOutcome(outcome) => match outcome {
                StartOutcome::Started(id) => {
                    self.running = true;
                    self.has_dispatcher = true;
                    self.started_at_ms = Some(now_ms);
                    actions.push(WorkerAction::Emit(DoraEvent::DataflowStarted { dataflow_id: id }));
                },
                StartOutcome::StartFailed(e) => {
                    let message = prefixed("Failed to start dataflow: ", e.as_str());
                    actions.push(WorkerAction::Emit(DoraEvent::Error { message }));
                },
                StartOutcome::ControllerFailed(e) => {
                    let message = prefixed("Failed to create controller: ", e.as_str());
                    actions.push(WorkerAction::Emit(DoraEvent::Error { message }));
                },
            },
            WorkerInput::Tick { now_ms: t } => {
                let in_grace_period = match self.started_at_ms {
                    Some(s) => t >= s && t - s < STARTUP_GRACE_PERIOD_MS,
                    None => false,
                };
                if !in_grace_period && t >= self.last_status_check_ms && t
                    - self.last_status_check_ms >= STATUS_CHECK_INTERVAL_MS {
                    self.last_status_check_ms = t;
                    if self.has_dispatcher {
                        actions.push(WorkerAction::QueryStatus);
                    }
                }
            },
            WorkerInput::StatusReport(report) => match report {
                Ok(is_running) => {
                    if self.running && !is_running {
                        self.running = false;
                        self.started_at_ms = None;
                        actions.push(WorkerAction::Emit(DoraEvent::DataflowStopped));
                    }
                },
                Err(_) => {},
            },
            WorkerInput::BridgeError(m) => {
                actions.push(WorkerAction::Emit(DoraEvent::Error { message: m }));
            },
        }
        actions
    }
}

} // verus!
