use mofa_studio::asr::{
    initial_state, AsrEngineId, DoraCommand, DoraEvent, MicControl, StartOutcome, WorkerAction,
    WorkerInput,
};

#[test]
fn engine_names() {
    assert_eq!(AsrEngineId::Paraformer.node_id(), "mofa-asr-paraformer");
    assert_eq!(AsrEngineId::Qwen3Asr.node_id(), "mofa-asr-qwen3");
    assert_eq!(AsrEngineId::Paraformer.binary_name(), "dora-funasr-mlx");
    assert_eq!(AsrEngineId::Qwen3Asr.binary_name(), "dora-qwen3-asr-mlx");
}

#[test]
fn start_then_stop() {
    let mut st = initial_state(0);
    let env = vec![("K".to_string(), "V".to_string())];
    let acts = st.step(
        WorkerInput::Command(DoraCommand::StartDataflow {
            dataflow_path: "asr.yml".to_string(),
            env_vars: env,
        }),
        5,
    );
    assert_eq!(acts.len(), 2);
    assert!(matches!(&acts[0], WorkerAction::SetEnvVars(e) if e[0].0 == "K"));
    assert!(matches!(&acts[1], WorkerAction::StartDataflow { dataflow_path, .. } if dataflow_path == "asr.yml"));
    assert!(!st.running);
    let acts = st.step(WorkerInput::StartOutcome(StartOutcome::Started("df1".to_string())), 10);
    assert!(st.running && st.has_dispatcher);
    assert_eq!(st.started_at_ms, Some(10));
    assert!(matches!(&acts[0], WorkerAction::Emit(DoraEvent::DataflowStarted { dataflow_id }) if dataflow_id == "df1"));
    let acts = st.step(WorkerInput::Command(DoraCommand::StartRecording), 11);
    assert!(matches!(acts[0], WorkerAction::SendMicControl(MicControl::StartRecording)));
    let acts = st.step(WorkerInput::Command(DoraCommand::StopDataflow), 12);
    assert_eq!(acts.len(), 3);
    assert!(matches!(acts[0], WorkerAction::KillAllEngines));
    assert!(matches!(acts[1], WorkerAction::StopDispatcher));
    assert!(matches!(acts[2], WorkerAction::Emit(DoraEvent::DataflowStopped)));
    assert!(!st.running && !st.has_dispatcher);
    let acts = st.step(WorkerInput::Command(DoraCommand::SetAecEnabled { enabled: true }), 13);
    assert!(acts.is_empty());
}

#[test]
fn start_failures_are_reported() {
    let mut st = initial_state(0);
    let acts = st.step(WorkerInput::StartOutcome(StartOutcome::StartFailed("boom".to_string())), 1);
    assert!(matches!(&acts[0], WorkerAction::Emit(DoraEvent::Error { message }) if message == "Failed to start dataflow: boom"));
    let acts = st.step(WorkerInput::StartOutcome(StartOutcome::ControllerFailed("bad".to_string())), 1);
    assert!(matches!(&acts[0], WorkerAction::Emit(DoraEvent::Error { message }) if message == "Failed to create controller: bad"));
    let acts = st.step(WorkerInput::BridgeError("mic".to_string()), 1);
    assert!(matches!(&acts[0], WorkerAction::Emit(DoraEvent::Error { message }) if message == "mic"));
    assert!(!st.running);
}

#[test]
fn status_checks_wait_for_grace_period_and_interval() {
    let mut st = initial_state(0);
    st.step(WorkerInput::StartOutcome(StartOutcome::Started("d".to_string())), 1000);
    assert!(st.step(WorkerInput::Tick { now_ms: 5000 }, 5000).is_empty());
    let acts = st.step(WorkerInput::Tick { now_ms: 11000 }, 11000);
    assert!(matches!(acts[0], WorkerAction::QueryStatus));
    assert_eq!(st.last_status_check_ms, 11000);
    assert!(st.step(WorkerInput::Tick { now_ms: 12000 }, 12000).is_empty());
    assert!(st.step(WorkerInput::StatusReport(Ok(true)), 12000).is_empty());
    assert!(st.step(WorkerInput::StatusReport(Err("x".to_string())), 12000).is_empty());
    let acts = st.step(WorkerInput::StatusReport(Ok(false)), 12000);
    assert!(matches!(acts[0], WorkerAction::Emit(DoraEvent::DataflowStopped)));
    assert!(!st.running);
    assert_eq!(st.started_at_ms, None);
}

#[test]
fn engines_connect_and_disconnect() {
    let mut st = initial_state(0);
    let acts = st.step(
        WorkerInput::Command(DoraCommand::ConnectAsrEngine {
            engine: AsrEngineId::Qwen3Asr,
            env_vars: vec![],
        }),
        0,
    );
    assert!(matches!(acts[0], WorkerAction::SpawnEngine { engine: AsrEngineId::Qwen3Asr, .. }));
    let acts = st.step(
        WorkerInput::Command(DoraCommand::DisconnectAsrEngine { engine: AsrEngineId::Paraformer }),
        0,
    );
    assert!(matches!(acts[0], WorkerAction::KillEngine { engine: AsrEngineId::Paraformer }));
    let acts = st.step(WorkerInput::Command(DoraCommand::ForceStopDataflow), 0);
    assert_eq!(acts.len(), 2);
}
