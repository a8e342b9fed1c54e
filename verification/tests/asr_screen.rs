use mofa_studio::asr::{AsrEngineId, AsrModelSelection, DoraEvent, NodeLogLevel, node_log_line};
use mofa_studio::chat::{ChatMessage, MessageRole};
use mofa_studio::asr_screen::{engine_chat_copy_text, start_env, toggle_texts, AsrScreenState, ConnectionStatus, ScreenAction};
use mofa_studio::text::StringMap;

fn logs(acts: &[ScreenAction]) -> Vec<String> {
    acts.iter()
        .filter_map(|a| match a {
            ScreenAction::AddLog(s) => Some(s.clone()),
            _ => None,
        })
        .collect()
}

#[test]
fn started_dataflow_enables_recording() {
    let mut st = AsrScreenState::new();
    let acts = st.on_dora_event(&DoraEvent::DataflowStarted { dataflow_id: "df-1".to_string() });
    assert_eq!(logs(&acts), vec!["[INFO] [App] Dataflow started: df-1".to_string()]);
    assert!(matches!(acts[1], ScreenAction::SetConnection(ConnectionStatus::Connected)));
    assert!(matches!(acts[2], ScreenAction::StopMicMonitoring));
    assert!(matches!(acts[3], ScreenAction::EnableAecAndRecord));
    assert_eq!(acts.len(), 4);
}

#[test]
fn stopped_dataflow_switches_paraformer_off_only() {
    let mut st = AsrScreenState { paraformer_active: true, qwen3_active: true };
    let acts = st.on_dora_event(&DoraEvent::DataflowStopped);
    assert!(!st.paraformer_active);
    assert!(st.qwen3_active);
    assert!(matches!(acts[2], ScreenAction::SetConnection(ConnectionStatus::Stopped)));
    assert!(matches!(acts[4], ScreenAction::StartMicMonitoring));
}

#[test]
fn error_event_is_logged() {
    let mut st = AsrScreenState::new();
    let acts = st.on_dora_event(&DoraEvent::Error { message: "boom".to_string() });
    assert_eq!(logs(&acts), vec!["[ERROR] [App] boom".to_string()]);
    assert!(matches!(acts[2], ScreenAction::SetConnection(ConnectionStatus::Failed)));
}

#[test]
fn stop_button_switches_everything_off() {
    let mut st = AsrScreenState { paraformer_active: true, qwen3_active: true };
    let acts = st.on_stop();
    assert!(!st.paraformer_active && !st.qwen3_active);
    assert_eq!(logs(&acts), vec!["[INFO] [App] Stopping dataflow".to_string()]);
    assert!(matches!(acts[3], ScreenAction::ForceStopDataflow));
}

#[test]
fn engine_switch_needs_a_running_dataflow() {
    let mut st = AsrScreenState::new();
    assert!(st.toggle_engine(AsrEngineId::Qwen3Asr, false).is_empty());
    assert!(!st.qwen3_active);
    let on = st.toggle_engine(AsrEngineId::Qwen3Asr, true);
    assert!(st.qwen3_active && !st.paraformer_active);
    assert!(matches!(on[0], ScreenAction::ConnectEngine(AsrEngineId::Qwen3Asr)));
    assert_eq!(logs(&on), vec!["[INFO] [App] Starting Qwen3Asr engine".to_string()]);
    let off = st.toggle_engine(AsrEngineId::Qwen3Asr, true);
    assert!(!st.qwen3_active);
    assert!(matches!(off[0], ScreenAction::DisconnectEngine(AsrEngineId::Qwen3Asr)));
    assert_eq!(logs(&off), vec!["[INFO] [App] Stopping Qwen3Asr engine".to_string()]);
    assert_eq!(toggle_texts(true), ("OFF", "ON"));
    assert_eq!(toggle_texts(false), ("ON", "OFF"));
}

#[test]
fn dataflow_environment() {
    let mut keys = StringMap::new();
    keys.insert("OPENAI_API_KEY".to_string(), "sk".to_string());
    let env = start_env(&keys, "0.1", "30", true);
    assert_eq!(env.get("OPENAI_API_KEY"), Some("sk"));
    assert_eq!(env.get("MIN_AUDIO_DURATION"), Some("0.1"));
    assert_eq!(env.get("MAX_AUDIO_DURATION"), Some("30"));
    assert_eq!(env.get("ASR_MLX_WARMUP"), Some("1"));
    let cold = start_env(&keys, "0.1", "30", false);
    assert_eq!(cold.get("ASR_MLX_WARMUP"), None);
    assert_eq!(cold.len(), 3);
}

#[test]
fn model_selection_and_node_logs() {
    let m = AsrModelSelection::default();
    assert_eq!(m.dataflow_filename(), "asr-dynamic.yml");
    assert_eq!(m.display_name(), "Paraformer");
    assert_eq!(node_log_line(NodeLogLevel::Warning, "asr", "slow"), "[WARN] [asr] slow");
    assert_eq!(node_log_line(NodeLogLevel::Debug, "mic", "x"), "[DEBUG] [mic] x");
}

fn msg(role: MessageRole, content: &str) -> ChatMessage {
    ChatMessage {
        content: content.to_string(),
        sender: "x".to_string(),
        role,
        timestamp: 0,
        is_streaming: false,
        session_id: None,
    }
}

#[test]
fn engine_transcript_copy_text() {
    assert_eq!(engine_chat_copy_text(&Vec::new()), "No messages");
    let v = vec![msg(MessageRole::User, "hello"), msg(MessageRole::Assistant, "world"), msg(MessageRole::System, "!")];
    assert_eq!(engine_chat_copy_text(&v), "[User] hello\n[ASR] world\n[ASR] !");
}
