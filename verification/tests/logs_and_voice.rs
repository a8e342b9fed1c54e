use mofa_studio::logs::{
    chat_display_text, chat_transcript_text, filter_logs, prompt_or_default, push_chat_message,
    MAX_CHAT_MESSAGES, scroll_for_new_messages, format_timestamp, log_copy_text, log_display_text,
    ChatMessageEntry, LogBuffer, LogDisplayThrottle, LogPanelKind, MAX_LOG_ENTRIES,
};
use mofa_studio::voice::{
    role_config_name, role_to_node_id, voice_display_to_id, voice_id_to_display,
    voice_option_at, voice_option_index,
};

fn v(xs: &[&str]) -> Vec<String> {
    xs.iter().map(|s| s.to_string()).collect()
}

#[test]
fn filters_by_level_node_and_search() {
    let logs = v(&[
        "[INFO] [ASR] started",
        "[DEBUG] tts warming",
        "[ERROR] Bridge lost",
        "[INFO] App ready",
    ]);
    assert_eq!(filter_logs(&logs, LogPanelKind::Fm, 2, 0, ""), v(&["[INFO] [ASR] started", "[INFO] App ready"]));
    assert_eq!(filter_logs(&logs, LogPanelKind::Fm, 0, 2, ""), v(&["[DEBUG] tts warming"]));
    assert_eq!(filter_logs(&logs, LogPanelKind::Fm, 0, 0, "BRIDGE"), v(&["[ERROR] Bridge lost"]));
    assert_eq!(filter_logs(&logs, LogPanelKind::Asr, 0, 3, ""), v(&["[ERROR] Bridge lost"]));
    assert_eq!(filter_logs(&logs, LogPanelKind::Asr, 9, 9, ""), logs);
}

#[test]
fn display_text_hides_old_entries() {
    let many: Vec<String> = (0..205).map(|i| format!("l{}", i)).collect();
    let t = log_display_text(&many);
    assert!(t.starts_with("... (5 older entries hidden) ...\nl5\nl6"));
    assert!(t.ends_with("l204"));
    assert_eq!(log_display_text(&vec![]), "No log entries");
    assert_eq!(log_copy_text(&v(&["a", "b"])), "a\nb");
    assert_eq!(log_copy_text(&vec![]), "No log entries");
}

#[test]
fn log_buffer_is_bounded() {
    let mut b = LogBuffer::new();
    for i in 0..(MAX_LOG_ENTRIES + 3) {
        b.add_log(&format!("e{}", i));
    }
    assert_eq!(b.entries().len(), MAX_LOG_ENTRIES);
    assert_eq!(b.entries()[0], "e3");
    b.add_logs(v(&["x", "y"]));
    assert_eq!(b.entries().len(), MAX_LOG_ENTRIES);
    assert_eq!(b.entries()[MAX_LOG_ENTRIES - 1], "y");
    b.clear();
    assert!(b.entries().is_empty());
}

#[test]
fn throttle_refreshes_at_most_every_interval() {
    let mut t = LogDisplayThrottle::new(false);
    assert!(t.mark_dirty(1000));
    assert!(!t.mark_dirty(1100));
    assert!(t.dirty);
    assert!(t.mark_dirty(1200));
    t.collapsed = true;
    assert!(!t.mark_dirty(5000));
}

#[test]
fn timestamps_are_time_of_day() {
    assert_eq!(format_timestamp(0), "00:00:00");
    assert_eq!(format_timestamp(3_723_000), "01:02:03");
    assert_eq!(format_timestamp(86_400_000 + 59_000), "00:00:59");
}

#[test]
fn chat_transcript() {
    let msgs = vec![ChatMessageEntry::new("a".to_string(), "hi".to_string()), ChatMessageEntry::new("b".to_string(), "yo".to_string())];
    assert_eq!(chat_transcript_text(&msgs), "[a] hi\n\n[b] yo");
    assert_eq!(chat_transcript_text(&vec![]), "No chat messages");
    assert!(!msgs[0].is_streaming);
}

#[test]
fn voice_names_and_ids() {
    assert_eq!(voice_display_to_id("Zhao Daniu"), "dnz");
    assert_eq!(voice_display_to_id("Marc"), "marc");
    assert_eq!(voice_display_to_id("unknown"), "doubao");
    assert_eq!(voice_id_to_display("daniu"), "Zhao Daniu");
    assert_eq!(voice_id_to_display("fewshot"), "Marc");
    assert_eq!(voice_id_to_display("zzz"), "Doubao");
    assert_eq!(role_to_node_id("tutor"), Some("primespeech-tutor"));
    assert_eq!(role_to_node_id("x"), None);
    assert_eq!(role_config_name("student2"), "study_config_student2.toml");
    assert_eq!(role_config_name("x"), "study_config_student1.toml");
}

#[test]
fn voice_selector_positions() {
    assert_eq!(voice_option_index("Zhao Daniu"), 0);
    assert_eq!(voice_option_index("Doubao"), 3);
    assert_eq!(voice_option_index("Marc"), 7);
    assert_eq!(voice_option_index("Nobody"), 0);
    assert_eq!(voice_option_at(4), Some("Yang Mi"));
    assert_eq!(voice_option_at(7), Some("Marc"));
    assert_eq!(voice_option_at(8), None);
    for i in 0..8 {
        assert_eq!(voice_option_index(voice_option_at(i).unwrap()), i);
    }
}

fn entry(sender: &str, content: &str, timestamp: u64, is_streaming: bool) -> ChatMessageEntry {
    ChatMessageEntry {
        sender: sender.to_string(),
        content: content.to_string(),
        timestamp,
        is_streaming,
        session_id: None,
    }
}

#[test]
fn chat_panel_text() {
    assert_eq!(chat_display_text(&Vec::new()), "Waiting for conversation...");
    let msgs = vec![entry("You", "hi", 3_723_000, false), entry("Bot", "chunk", 86_400_000, true)];
    assert_eq!(
        chat_display_text(&msgs),
        "**You** (01:02:03):  \nhi\n\n---\n\n**Bot** \u{231b} (00:00:00):  \nchunk"
    );
}

#[test]
fn empty_prompt_uses_default() {
    assert_eq!(prompt_or_default(String::new()), "\u{5f00}\u{59cb}\u{5427}");
    assert_eq!(prompt_or_default("hello".to_string()), "hello");
}

#[test]
fn chat_history_is_bounded() {
    let mut msgs = Vec::new();
    for i in 0..MAX_CHAT_MESSAGES + 3 {
        push_chat_message(&mut msgs, entry("s", &i.to_string(), 0, false));
    }
    assert_eq!(msgs.len(), MAX_CHAT_MESSAGES);
    assert_eq!(msgs[0].content, "3");
    assert_eq!(msgs[MAX_CHAT_MESSAGES - 1].content, (MAX_CHAT_MESSAGES + 2).to_string());
}

#[test]
fn chat_scrolls_only_for_new_messages() {
    let mut last = 0usize;
    assert!(scroll_for_new_messages(&mut last, 2));
    assert_eq!(last, 2);
    assert!(!scroll_for_new_messages(&mut last, 2));
    assert!(!scroll_for_new_messages(&mut last, 0));
    assert_eq!(last, 2);
    assert!(scroll_for_new_messages(&mut last, 3));
}

#[test]
fn log_panel_filter_and_toggle() {
    let mut t = LogDisplayThrottle::new(true);
    assert!(!t.mark_dirty(10));
    assert!(t.dirty);
    assert!(t.toggle(20));
    assert!(!t.dirty);
    assert_eq!(t.last_update_ms, Some(20));
    assert!(!t.toggle(30));
    assert!(!t.filter_changed(0, 0, ""));
    assert!(t.filter_changed(2, 0, ""));
    t.record_filter(2, 1, "Bridge");
    assert!(!t.filter_changed(2, 1, "bridge"));
    assert!(!t.filter_changed(2, 1, "BRIDGE"));
    assert!(t.filter_changed(2, 1, "asr"));
    t.dirty = true;
    t.clear();
    assert!(!t.dirty);
}
