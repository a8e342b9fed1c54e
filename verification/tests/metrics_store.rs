use mofa_studio::metrics::{
    unix_ms, AgentState, AgentStatus, MetricEvent, MetricsStore, MAX_SNAPSHOTS, MAX_TRACES,
};

#[derive(Debug, Clone, Copy)]
struct PipelineTrace {
    asr_start_ms: u64,
    asr_end_ms: u64,
    llm_start_ms: u64,
    llm_end_ms: u64,
    tts_start_ms: u64,
    tts_end_ms: u64,
    tokens_per_sec: f64,
}

#[derive(Debug, Clone, Copy)]
struct SystemSnapshot {
    cpu_pct: f64,
    memory_pct: f64,
    gpu_pct: f64,
    pipeline_latency_p50_ms: f64,
    uptime_secs: u64,
    timestamp_ms: u64,
}

type Store = MetricsStore<PipelineTrace, SystemSnapshot>;

fn sample_agent(id: &str, state: AgentState) -> AgentStatus {
    AgentStatus {
        id: id.into(),
        name: id.into(),
        status: state,
        last_seen_ms: unix_ms(),
    }
}

fn sample_snapshot() -> SystemSnapshot {
    SystemSnapshot {
        cpu_pct: 0.45,
        memory_pct: 0.60,
        gpu_pct: 0.0,
        pipeline_latency_p50_ms: 120.0,
        uptime_secs: 30,
        timestamp_ms: unix_ms(),
    }
}

#[test]
fn dirty_flag_cleared_on_read() {
    let mut store: Store = MetricsStore::new();
    assert!(store.take_agents_if_dirty().is_none());

    store.record_agent(sample_agent("n1", AgentState::Active));
    let agents = store.take_agents_if_dirty().unwrap();
    assert_eq!(agents.len(), 1);

    assert!(store.take_agents_if_dirty().is_none());
}

#[test]
fn agent_upsert() {
    let mut store: Store = MetricsStore::new();
    store.record_agent(sample_agent("n1", AgentState::Idle));
    store.record_agent(sample_agent("n1", AgentState::Active));

    let agents = store.get_agents();
    assert_eq!(agents.len(), 1);
    assert_eq!(agents[0].status, AgentState::Active);
}

#[test]
fn trace_ring_buffer_cap() {
    let mut store: Store = MetricsStore::new();
    for i in 0..(MAX_TRACES + 50) {
        store.push_trace(PipelineTrace {
            asr_start_ms: i as u64,
            asr_end_ms: i as u64 + 10,
            llm_start_ms: 0,
            llm_end_ms: 0,
            tts_start_ms: 0,
            tts_end_ms: 0,
            tokens_per_sec: 0.0,
        });
    }
    let traces = store.get_traces(999);
    assert_eq!(traces.len(), MAX_TRACES);
    assert_eq!(traces[0].asr_start_ms, 50);
}

#[test]
fn snapshot_ring_buffer_cap() {
    let mut store: Store = MetricsStore::new();
    for _ in 0..(MAX_SNAPSHOTS + 10) {
        store.push_snapshot(sample_snapshot());
    }
    let snaps = store.take_snapshots_if_dirty().unwrap();
    assert_eq!(snaps.len(), MAX_SNAPSHOTS);
}

#[test]
fn get_latest_snapshot_returns_newest() {
    let mut store: Store = MetricsStore::new();
    store.push_snapshot(SystemSnapshot {
        cpu_pct: 0.1,
        ..sample_snapshot()
    });
    store.push_snapshot(SystemSnapshot {
        cpu_pct: 0.9,
        ..sample_snapshot()
    });
    let latest = store.get_latest_snapshot().unwrap();
    assert!((latest.cpu_pct - 0.9).abs() < f64::EPSILON);
}

#[test]
fn get_traces_returns_newest_in_order() {
    let mut store: Store = MetricsStore::new();
    for i in 0..5u64 {
        store.push_trace(PipelineTrace {
            asr_start_ms: i,
            asr_end_ms: 0,
            llm_start_ms: 0,
            llm_end_ms: 0,
            tts_start_ms: 0,
            tts_end_ms: 0,
            tokens_per_sec: 1.5,
        });
    }
    let t = store.get_traces(2);
    assert_eq!(t.len(), 2);
    assert_eq!(t[0].asr_start_ms, 3);
    assert_eq!(t[1].asr_start_ms, 4);
    assert_eq!(store.get_traces(0).len(), 0);
    let all = store.take_traces_if_dirty().unwrap();
    assert_eq!(all.len(), 5);
    assert!(store.take_traces_if_dirty().is_none());
}

#[test]
fn record_returns_event_and_keeps_ids_unique() {
    let mut store: Store = MetricsStore::new();
    let ev = store.record_agent(sample_agent("a", AgentState::Idle));
    match ev {
        MetricEvent::AgentStatusChanged(a) => assert_eq!(a.id, "a"),
        _ => panic!("wrong event"),
    }
    store.record_agent(sample_agent("b", AgentState::Error));
    store.record_agent(sample_agent("a", AgentState::Offline));
    let agents = store.get_agents();
    assert_eq!(agents.len(), 2);
    assert_eq!(agents[0].id, "a");
    assert_eq!(agents[0].status, AgentState::Offline);
    assert_eq!(agents[1].status, AgentState::Error);
    assert!(store.get_latest_snapshot().is_none());
    assert_eq!(AgentState::default(), AgentState::Offline);
}

#[test]
fn unix_ms_is_after_2020() {
    assert!(unix_ms() > 1_577_836_800_000);
}
