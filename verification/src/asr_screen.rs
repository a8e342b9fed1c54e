//! Decisions of the speech recognition screen: which engines are switched
//! on, what the screen does when the dataflow starts, stops or fails, and
//! the environment handed to a new dataflow. The widgets are driven by the
//! caller, which performs the returned actions in order.

use vstd::prelude::*;
use vstd::string::*;
use crate::asr::{AsrEngineId, DoraEvent};
use crate::text::{StringMap, lookup, joined, views_of, join_strings};
use crate::chat::{ChatMessage, MessageRole};

verus! {

/// The connection indicator of the screen's header.
#[derive(Debug, Clone, Copy, PartialEq, Eq, Structural)]
pub enum ConnectionStatus {
    Connecting,
    Connected,
    Stopping,
    Stopped,
    Failed,
}

/// What the screen must do, in order.
#[derive(Debug)]
pub enum ScreenAction {
    /// Append a line to the system log.
    AddLog(String),
    /// Show the dataflow as running or not.
    SetRunning(bool),
    /// Show this connection status.
    SetConnection(ConnectionStatus),
    /// Stop the level-meter microphone capture.
    StopMicMonitoring,
    /// Restart the level-meter microphone capture.
    StartMicMonitoring,
    /// Enable echo cancellation and start recording through the dataflow.
    EnableAecAndRecord,
    /// Force-stop the dataflow.
    ForceStopDataflow,
    /// Start the engine's process.
    ConnectEngine(AsrEngineId),
    /// Stop the engine's process.
    DisconnectEngine(AsrEngineId),
    /// Redraw the engine switches from the state.
    RefreshToggles,
}

/// The value of an action, its text taken by characters.
pub enum ActionView {
    AddLog(Seq<char>),
    SetRunning(bool),
    SetConnection(ConnectionStatus),
    StopMicMonitoring,
    StartMicMonitoring,
    EnableAecAndRecord,
    ForceStopDataflow,
    ConnectEngine(AsrEngineId),
    DisconnectEngine(AsrEngineId),
    RefreshToggles,
}

impl View for ScreenAction {
    type V = ActionView;

    open spec fn view(&self) -> ActionView {
        match self {
            ScreenAction::AddLog(s) => ActionView::AddLog(s@),
            ScreenAction::SetRunning(b) => ActionView::SetRunning(*b),
            ScreenAction::SetConnection(c) => ActionView::SetConnection(*c),
            ScreenAction::StopMicMonitoring => ActionView::StopMicMonitoring,
            ScreenAction::StartMicMonitoring => ActionView::StartMicMonitoring,
            ScreenAction::EnableAecAndRecord => ActionView::EnableAecAndRecord,
            ScreenAction::ForceStopDataflow => ActionView::ForceStopDataflow,
            ScreenAction::ConnectEngine(e) => ActionView::ConnectEngine(*e),
            ScreenAction::DisconnectEngine(e) => ActionView::DisconnectEngine(*e),
            ScreenAction::RefreshToggles => ActionView::RefreshToggles,
        }
    }
}

/// The values of a list of actions.
pub open spec fn actions_view(v: Seq<ScreenAction>) -> Seq<ActionView> {
    v.map_values(|a: ScreenAction| a@)
}

/// The name an engine is logged under.
pub open spec fn engine_label(e: AsrEngineId) -> Seq<char> {
    match e {
        AsrEngineId::Paraformer => "Paraformer"@,
        AsrEngineId::Qwen3Asr => "Qwen3Asr"@,
    }
}

/// The actions answering an event of the dataflow worker.
pub open spec fn event_actions(ev: DoraEvent) -> Seq<ActionView> {
    match ev {
        DoraEvent::DataflowStarted { dataflow_id } => seq![
            ActionView::AddLog("[INFO] [App] Dataflow started: "@ + dataflow_id@),
            ActionView::SetConnection(ConnectionStatus::Connected),
            ActionView::StopMicMonitoring,
            ActionView::EnableAecAndRecord,
        ],
        DoraEvent::DataflowStopped => seq![
            ActionView::AddLog("[INFO] [App] Dataflow stopped"@),
            ActionView::SetRunning(false),
            ActionView::SetConnection(ConnectionStatus::Stopped),
            ActionView::RefreshToggles,
            ActionView::StartMicMonitoring,
        ],
        DoraEvent::Error { message } => seq![
            ActionView::AddLog("[ERROR] [App] "@ + message@),
            ActionView::SetRunning(false),
            ActionView::SetConnection(ConnectionStatus::Failed),
        ],
    }
}

/// The actions of the stop button.
pub open spec fn stop_actions() -> Seq<ActionView> {
    seq![
        ActionView::SetRunning(false),
        ActionView::SetConnection(ConnectionStatus::Stopping),
        ActionView::AddLog("[INFO] [App] Stopping dataflow"@),
        ActionView::ForceStopDataflow,
        ActionView::RefreshToggles,
    ]
}

/// The actions of an engine switch that turned the engine on or off.
pub open spec fn toggle_actions(e: AsrEngineId, now_active: bool) -> Seq<ActionView> {
    if now_active {
        seq![
            ActionView::ConnectEngine(e),
            ActionView::AddLog("[INFO] [App] Starting "@ + engine_label(e) + " engine"@),
            ActionView::RefreshToggles,
        ]
    } else {
        seq![
            ActionView::DisconnectEngine(e),
            ActionView::AddLog("[INFO] [App] Stopping "@ + engine_label(e) + " engine"@),
            ActionView::RefreshToggles,
        ]
    }
}

/// The button text and status text of an engine switch.
pub open spec fn toggle_texts_spec(active: bool) -> (Seq<char>, Seq<char>) {
    if active {
        ("OFF"@, "ON"@)
    } else {
        ("ON"@, "OFF"@)
    }
}

/// The button text (what pressing does) and the status text of an engine switch.
pub fn toggle_texts(active: bool) -> (r: (&'static str, &'static str))
    ensures
        (r.0@, r.1@) == toggle_texts_spec(active),
{
    if active {
        ("OFF", "ON")
    } else {
        ("ON", "OFF")
    }
}

/// Which engines the screen has switched on.
#[derive(Debug)]
pub struct AsrScreenState {
    pub paraformer_active: bool,
    pub qwen3_active: bool,
}

impl AsrScreenState {
    /// Whether the screen has switched the engine on.
    pub open spec fn active(&self, e: AsrEngineId) -> bool {
        match e {
            AsrEngineId::Paraformer => self.paraformer_active,
            AsrEngineId::Qwen3Asr => self.qwen3_active,
        }
    }

    /// Both engines off.
    pub fn new() -> (r: Self)
        ensures
            !r.paraformer_active,
            !r.qwen3_active,
    {
        AsrScreenState { paraformer_active: false, qwen3_active: false }
    }

    /// Answers an event of the dataflow worker. A stopped dataflow switches
    /// the Paraformer engine off; the Qwen3 switch keeps its state.
    pub fn on_dora_event(&mut self, ev: &DoraEvent) -> (acts: Vec<ScreenAction>)
        ensures
            actions_view(acts@) == event_actions(*ev),
            final(self).qwen3_active == old(self).qwen3_active,
            final(self).paraformer_active == (old(self).paraformer_active && !(*ev is DataflowStopped)),
    {
        let mut acts: Vec<ScreenAction> = Vec::new();
        match ev {
            DoraEvent::DataflowStarted { dataflow_id } => {
                let mut line = "[INFO] [App] Dataflow started: ".to_owned();
                line.append(dataflow_id.as_str());
                acts.push(ScreenAction::AddLog(line));
                acts.push(ScreenAction::SetConnection(ConnectionStatus::Connected));
                acts.push(ScreenAction::StopMicMonitoring);
                acts.push(ScreenAction::EnableAecAndRecord);
            },
            DoraEvent::DataflowStopped => {
                acts.push(ScreenAction::AddLog("[INFO] [App] Dataflow stopped".to_owned()));
                acts.push(ScreenAction::SetRunning(false));
                acts.push(ScreenAction::SetConnection(ConnectionStatus::Stopped));
                self.paraformer_active = false;
                acts.push(ScreenAction::RefreshToggles);
                acts.push(ScreenAction::StartMicMonitoring);
            },
            DoraEvent::Error { message } => {
                let mut line = "[ERROR] [App] ".to_owned();
                line.append(message.as_str());
                acts.push(ScreenAction::AddLog(line));
                acts.push(ScreenAction::SetRunning(false));
                acts.push(ScreenAction::SetConnection(ConnectionStatus::Failed));
            },
        }
        assert(actions_view(acts@) =~= event_actions(*ev));
        acts
    }

    /// The stop button: the dataflow is force-stopped and both engines are
    /// switched off.
    pub fn on_stop(&mut self) -> (acts: Vec<ScreenAction>)
        ensures
            actions_view(acts@) == stop_actions(),
            !final(self).paraformer_active,
            !final(self).qwen3_active,
    {
        let mut acts: Vec<ScreenAction> = Vec::new();
        acts.push(ScreenAction::SetRunning(false));
        acts.push(ScreenAction::SetConnection(ConnectionStatus::Stopping));
        acts.push(ScreenAction::AddLog("[INFO] [App] Stopping dataflow".to_owned()));
        acts.push(ScreenAction::ForceStopDataflow);
        self.paraformer_active = false;
        self.qwen3_active = false;
        acts.push(ScreenAction::RefreshToggles);
        assert(actions_view(acts@) =~= stop_actions());
        acts
    }

    /// An engine switch: ignored unless the dataflow runs; otherwise the
    /// engine is switched over and started or stopped.
    pub fn toggle_engine(&mut self, engine: AsrEngineId, dataflow_running: bool) -> (acts: Vec<
        ScreenAction,
    >)
        ensures
            !dataflow_running ==> acts@.len() == 0 && *final(self) == *old(self),
            dataflow_running ==> {
                &&& final(self).active(engine) == !old(self).active(engine)
                &&& forall|o: AsrEngineId| o != engine ==> final(self).active(o) == old(self).active(o)
                &&& actions_view(acts@) == toggle_actions(engine, final(self).active(engine))
            },
    {
        let mut acts: Vec<ScreenAction> = Vec::new();
        if !dataflow_running {
            return acts;
        }
        let now_active = match engine {
            AsrEngineId::Paraformer => {
                self.paraformer_active = !self.paraformer_active;
                self.paraformer_active
            },
            AsrEngineId::Qwen3Asr => {
                self.qwen3_active = !self.qwen3_active;
                self.qwen3_active
            },
        };
        let name = match engine {
            AsrEngineId::Paraformer => "Paraformer",
            AsrEngineId::Qwen3Asr => "Qwen3Asr",
        };
        if now_active {
            acts.push(ScreenAction::ConnectEngine(engine));
            let mut line = "[INFO] [App] Starting ".to_owned();
            line.append(name);
            line.append(" engine");
            acts.push(ScreenAction::AddLog(line));
        } else {
            acts.push(ScreenAction::DisconnectEngine(engine));
            let mut line = "[INFO] [App] Stopping ".to_owned();
            line.append(name);
            line.append(" engine");
            acts.push(ScreenAction::AddLog(line));
        }
        acts.push(ScreenAction::RefreshToggles);
        assert(actions_view(acts@) =~= toggle_actions(engine, now_active));
        acts
    }
}

/// The environment for a new dataflow: the API keys, the audio duration
/// bounds (as the settings write them) and, when warm-up is on, the warm-up flag.
pub fn start_env(api_keys: &StringMap, min_duration: &str, max_duration: &str, warmup: bool) -> (r:
    StringMap)
    ensures
        lookup(r@, "MIN_AUDIO_DURATION"@) == Some(min_duration@),
        lookup(r@, "MAX_AUDIO_DURATION"@) == Some(max_duration@),
        lookup(r@, "ASR_MLX_WARMUP"@) == if warmup {
            Some("1"@)
        } else {
            lookup(api_keys@, "ASR_MLX_WARMUP"@)
        },
        forall|k: Seq<char>|
            k != "MIN_AUDIO_DURATION"@ && k != "MAX_AUDIO_DURATION"@ && k != "ASR_MLX_WARMUP"@
                ==> #[trigger] lookup(r@, k) == lookup(api_keys@, k),
{
    let mut r = api_keys.clone();
    proof {
        reveal_strlit("MIN_AUDIO_DURATION");
        reveal_strlit("MAX_AUDIO_DURATION");
        reveal_strlit("ASR_MLX_WARMUP");
        assert("MIN_AUDIO_DURATION"@[1] != "MAX_AUDIO_DURATION"@[1]);
        assert("MIN_AUDIO_DURATION"@.len() != "ASR_MLX_WARMUP"@.len());
        assert("MAX_AUDIO_DURATION"@.len() != "ASR_MLX_WARMUP"@.len());
    }
    r.insert("MIN_AUDIO_DURATION".to_owned(), min_duration.to_owned());
    r.insert("MAX_AUDIO_DURATION".to_owned(), max_duration.to_owned());
    if warmup {
        r.insert("ASR_MLX_WARMUP".to_owned(), "1".to_owned());
    }
    r
}

/// One transcribed message as the copy button writes it: who spoke, then
/// the text.
pub open spec fn engine_chat_line(m: ChatMessage) -> Seq<char> {
    "["@ + (if m.role == MessageRole::User {
        "User"@
    } else {
        "ASR"@
    }) + "] "@ + m.content@
}

/// The clipboard text of an engine's transcript.
pub open spec fn engine_chat_copy(v: Seq<ChatMessage>) -> Seq<char> {
    if v.len() == 0 {
        "No messages"@
    } else {
        joined(v.map_values(|m: ChatMessage| engine_chat_line(m)), "\n"@)
    }
}

/// The text the copy button of an engine's transcript puts on the clipboard.
pub fn engine_chat_copy_text(messages: &Vec<ChatMessage>) -> (r: String)
    ensures
        r@ == engine_chat_copy(messages@),
{
    if messages.len() == 0 {
        return "No messages".to_owned();
    }
    let ghost target = messages@.map_values(|m: ChatMessage| engine_chat_line(m));
    let mut lines: Vec<String> = Vec::new();
    let mut i: usize = 0;
    while i < messages.len()
        invariant
            i <= messages.len(),
            target == messages@.map_values(|m: ChatMessage| engine_chat_line(m)),
            views_of(lines@) == target.take(i as int),
        decreases messages.len() - i,
    {
        let m = &messages[i];
        let mut line = if m.role == MessageRole::User {
            "[User".to_owned()
        } else {
            "[ASR".to_owned()
        };
        line.append("] ");
        line.append(m.content.as_str());
        proof {
            reveal_strlit("[User");
            reveal_strlit("[ASR");
            reveal_strlit("[");
            reveal_strlit("User");
            reveal_strlit("ASR");
            assert("[User"@ =~= "["@ + "User"@);
            assert("[ASR"@ =~= "["@ + "ASR"@);
        }
        assert(line@ =~= engine_chat_line(*m));
        let ghost l0 = lines@;
        lines.push(line);
        assert(views_of(lines@) =~= views_of(l0).push(target[i as int]));
        assert(target.take(i + 1) =~= target.take(i as int).push(target[i as int]));
        i = i + 1;
    }
    assert(target.take(messages.len() as int) =~= target);
    join_strings(&lines, "\n")
}

} // verus!
