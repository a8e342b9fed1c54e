use mofa_studio::audio_buffer::{participant_index, AudioCommand, AudioPlayback, CircularAudioBuffer};

fn s(x: &str) -> Option<String> {
    Some(x.to_string())
}

#[test]
fn write_then_read_is_fifo() {
    let mut b: CircularAudioBuffer<f32> = CircularAudioBuffer::new(8, 0.0);
    assert_eq!(b.write_with_participant(&[1.0, 2.0, 3.0], s("student1"), s("q1")), 3);
    assert_eq!(b.available(), 3);
    let mut out = [9.0f32; 5];
    assert_eq!(b.read(&mut out), 3);
    assert_eq!(out, [1.0, 2.0, 3.0, 0.0, 0.0]);
    assert_eq!(b.available(), 0);
    assert_eq!(b.current_participant(), s("student1"));
}

#[test]
fn full_buffer_overwrites_oldest() {
    let mut b: CircularAudioBuffer<i32> = CircularAudioBuffer::new(4, 0);
    b.write_with_participant(&[1, 2, 3], s("a"), None);
    b.write_with_participant(&[4, 5, 6], s("b"), None);
    assert_eq!(b.available(), 4);
    let mut out = [0i32; 4];
    assert_eq!(b.read(&mut out), 4);
    assert_eq!(out, [3, 4, 5, 6]);
    // The oldest samples of participant a were overwritten except one.
    assert_eq!(b.current_participant(), s("b"));
}

#[test]
fn read_wraps_around_the_ring() {
    let mut b: CircularAudioBuffer<i32> = CircularAudioBuffer::new(3, -1);
    b.write_with_participant(&[1, 2], None, None);
    let mut out = [0i32; 2];
    b.read(&mut out);
    b.write_with_participant(&[3, 4, 5], None, None);
    let mut out = [0i32; 4];
    assert_eq!(b.read(&mut out), 3);
    assert_eq!(out, [3, 4, 5, -1]);
}

#[test]
fn smart_reset_drops_stale_questions() {
    let mut b: CircularAudioBuffer<i32> = CircularAudioBuffer::new(10, 0);
    b.write_with_participant(&[1, 1], s("student1"), s("old"));
    b.write_with_participant(&[2, 2, 2], s("tutor"), s("new"));
    b.write_with_participant(&[3], s("student2"), None);
    b.smart_reset("new");
    assert_eq!(b.available(), 3);
    assert_eq!(b.current_participant(), s("tutor"));
    assert_eq!(b.segment_total(), 3);
    let mut out = [0i32; 4];
    assert_eq!(b.read(&mut out), 3);
    assert_eq!(out, [2, 2, 2, 0]);
}

#[test]
fn smart_reset_keeps_active_audio_before_stale_audio() {
    let mut b: CircularAudioBuffer<i32> = CircularAudioBuffer::new(10, 0);
    b.write_with_participant(&[1, 2], s("tutor"), s("qa"));
    b.write_with_participant(&[9], s("tutor"), s("qb"));
    b.smart_reset("qa");
    assert_eq!(b.available(), 2);
    let mut out = [0i32; 3];
    assert_eq!(b.read(&mut out), 2);
    assert_eq!(out, [1, 2, 0]);
}

#[test]
fn smart_reset_after_wrap_keeps_order() {
    let mut b: CircularAudioBuffer<i32> = CircularAudioBuffer::new(4, 0);
    b.write_with_participant(&[5, 5, 5], s("a"), s("x"));
    let mut out = [0i32; 2];
    b.read(&mut out);
    b.write_with_participant(&[6, 7], s("b"), s("y"));
    b.write_with_participant(&[8], s("c"), s("x"));
    b.smart_reset("x");
    let mut all = [0i32; 4];
    assert_eq!(b.read(&mut all), 2);
    assert_eq!(all, [5, 8, 0, 0]);
    b.write_with_participant(&[1, 2, 3], s("c"), s("x"));
    let mut more = [0i32; 3];
    assert_eq!(b.read(&mut more), 3);
    assert_eq!(more, [1, 2, 3]);
}

#[test]
fn smart_reset_with_nothing_stale_changes_nothing() {
    let mut b: CircularAudioBuffer<i32> = CircularAudioBuffer::new(10, 0);
    b.write_with_participant(&[7, 8], s("tutor"), s("q"));
    b.smart_reset("q");
    assert_eq!(b.available(), 2);
    assert_eq!(b.current_participant(), None);
    assert_eq!(b.segment_total(), 2);
}

#[test]
fn segments_merge_for_same_owner() {
    let mut b: CircularAudioBuffer<i32> = CircularAudioBuffer::new(10, 0);
    b.write_with_participant(&[1, 2], s("a"), s("q"));
    b.write_with_participant(&[3], s("a"), s("q"));
    assert_eq!(b.segment_total(), 3);
    assert!(b.can_accept(100));
    b.reset();
    assert_eq!(b.available(), 0);
    assert_eq!(b.segment_total(), 0);
    assert_eq!(b.capacity(), 10);
}

#[test]
fn participant_indices() {
    assert_eq!(participant_index("student1"), Some(0));
    assert_eq!(participant_index("student2"), Some(1));
    assert_eq!(participant_index("tutor"), Some(2));
    assert_eq!(participant_index("other"), None);
}

#[test]
fn playback_starts_after_a_tenth_of_a_second() {
    let mut p: AudioPlayback<f32> = AudioPlayback::new(1000, 0.0, 100);
    assert!(p.apply_command(AudioCommand::Write(vec![0.5; 10], None, None)));
    assert!(!p.is_playing);
    assert!(p.apply_command(AudioCommand::Write(vec![0.5; 1], None, None)));
    assert!(p.is_playing);
    let mut out = [1.0f32; 4];
    p.fill_output(&mut out);
    assert_eq!(out, [0.5, 0.5, 0.5, 0.5]);
    p.force_mute = true;
    let mut out = [1.0f32; 2];
    p.fill_output(&mut out);
    assert_eq!(out, [0.0, 0.0]);
    assert!(p.apply_command(AudioCommand::Reset));
    assert!(!p.force_mute);
    assert!(!p.is_playing);
    assert_eq!(p.buffer.available(), 0);
    assert!(p.apply_command(AudioCommand::Resume));
    assert!(p.is_playing);
    assert!(p.apply_command(AudioCommand::Pause));
    assert!(!p.is_playing);
    assert!(p.apply_command(AudioCommand::SmartReset("q".to_string())));
    assert!(!p.apply_command(AudioCommand::Stop));
}

#[test]
fn reset_stops_playback_until_enough_audio_is_buffered() {
    let mut p: AudioPlayback<i32> = AudioPlayback::new(100, 0, 200);
    assert!(p.apply_command(AudioCommand::Write(vec![1; 30], s("tutor"), s("q"))));
    assert!(p.is_playing);
    p.force_mute = true;
    let mut out = [7i32; 4];
    p.fill_output(&mut out);
    assert_eq!(out, [0, 0, 0, 0]);
    assert!(p.apply_command(AudioCommand::Reset));
    assert!(!p.is_playing && !p.force_mute);
    assert_eq!(p.buffer.available(), 0);
    assert_eq!(p.buffer.current_participant(), None);
    p.apply_command(AudioCommand::Write(vec![2; 20], s("tutor"), s("q")));
    assert!(!p.is_playing);
    p.apply_command(AudioCommand::Write(vec![3; 1], s("tutor"), s("q")));
    assert!(p.is_playing);
}
