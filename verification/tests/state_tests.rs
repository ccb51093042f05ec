use std::time::Duration;
use vibevoice_tts_provider::tui::display::{age, clock_parts, key_action, Age, Detail, KeyAction};
use vibevoice_tts_provider::tui::state::{AppState, TuiEvent, VoiceInfo};

fn fresh() -> AppState {
    AppState::new(
        "[::1]:50051".to_string(),
        vec![VoiceInfo { id: "primavera".to_string(), display_name: "Primavera".to_string() }],
        Some("primavera".to_string()),
    )
}

fn started(id: u64, text: &str) -> TuiEvent {
    TuiEvent::StreamStarted { id, voice_id: "primavera".to_string(), text: text.to_string() }
}

#[test]
fn new_state_is_empty() {
    let state = fresh();
    assert!(state.active_streams.is_empty());
    assert!(state.request_log.is_empty());
    assert_eq!(state.stats.total_requests, 0);
    assert_eq!(state.stats.total_audio_duration_ms, 0);
    assert_eq!(state.listen_addr, "[::1]:50051");
}

#[test]
fn stream_ids_count_from_one() {
    let mut state = fresh();
    assert_eq!(state.next_stream_id(), 1);
    assert_eq!(state.next_stream_id(), 2);
    assert_eq!(state.next_stream_id(), 3);
}

#[test]
fn start_progress_complete() {
    let mut state = fresh();
    state.handle_event(started(1, "Hello\nthere"));
    assert_eq!(state.stats.total_requests, 1);
    let s = &state.active_streams[&1];
    assert_eq!(s.text_preview, "Hello there");
    assert_eq!(s.chunks_sent, 0);
    state.handle_event(TuiEvent::StreamProgress { id: 1, chunks_sent: 3 });
    assert_eq!(state.active_streams[&1].chunks_sent, 3);
    state.handle_event(TuiEvent::StreamCompleted { id: 1, duration: Duration::from_millis(1500), chunks: 4 });
    assert!(state.active_streams.is_empty());
    assert_eq!(state.stats.successful_requests, 1);
    assert_eq!(state.stats.total_audio_duration_ms, 400);
    assert_eq!(state.request_log.len(), 1);
    let log = &state.request_log[0];
    assert!(log.success);
    assert_eq!(log.chunks, Some(4));
    assert_eq!(log.duration, Some(Duration::from_millis(1500)));
    assert_eq!(log.voice_id, "primavera");
    assert!(matches!(log.detail(), Detail::Chunks(4)));
}

#[test]
fn start_then_fail_logs_error() {
    let mut state = fresh();
    state.handle_event(started(7, "text"));
    state.handle_event(TuiEvent::StreamFailed { id: 7, error: "voice not found: x".to_string() });
    assert!(state.active_streams.is_empty());
    assert_eq!(state.stats.total_requests, 1);
    assert_eq!(state.stats.failed_requests, 1);
    let log = &state.request_log[0];
    assert!(!log.success);
    assert_eq!(log.error.as_deref(), Some("voice not found: x"));
    match log.detail() {
        Detail::Error(e) => assert_eq!(e, "voice not found: x"),
        _ => panic!("expected error detail"),
    }
}

#[test]
fn unknown_stream_events_are_ignored() {
    let mut state = fresh();
    state.handle_event(TuiEvent::StreamProgress { id: 9, chunks_sent: 2 });
    state.handle_event(TuiEvent::StreamCompleted { id: 9, duration: Duration::from_secs(1), chunks: 2 });
    state.handle_event(TuiEvent::StreamFailed { id: 9, error: "e".to_string() });
    assert!(state.active_streams.is_empty());
    assert!(state.request_log.is_empty());
    assert_eq!(state.stats.successful_requests, 0);
    assert_eq!(state.stats.failed_requests, 0);
}

#[test]
fn log_keeps_last_hundred_newest_first() {
    let mut state = fresh();
    for id in 1..=105u64 {
        state.handle_event(started(id, "t"));
        state.handle_event(TuiEvent::StreamCompleted { id, duration: Duration::from_secs(1), chunks: id as u32 });
    }
    assert_eq!(state.request_log.len(), 100);
    assert_eq!(state.request_log[0].chunks, Some(105));
    assert_eq!(state.request_log[99].chunks, Some(6));
    assert_eq!(state.stats.successful_requests, 105);
    assert_eq!(state.stats.total_audio_duration_ms, 100 * (105 * 106 / 2));
}

#[test]
fn clear_log_keeps_totals() {
    let mut state = fresh();
    state.handle_event(started(1, "t"));
    state.handle_event(TuiEvent::StreamFailed { id: 1, error: "e".to_string() });
    state.clear_log();
    assert!(state.request_log.is_empty());
    assert_eq!(state.stats.failed_requests, 1);
}

#[test]
fn admits_event_checks_preview_boundary() {
    let state = fresh();
    let mut bad = "a".repeat(36);
    bad.push('é');
    bad.push_str("bbbbbbbbbbb");
    assert!(!state.admits_event(&started(1, &bad)));
    assert!(state.admits_event(&started(1, "fine")));
    assert!(state.admits_event(&TuiEvent::StreamProgress { id: 1, chunks_sent: 1 }));
}

#[test]
fn default_voice_is_marked() {
    let state = fresh();
    assert!(state.is_default_voice(&state.voices[0]));
    let other = VoiceInfo { id: "narrator".to_string(), display_name: "Narrator".to_string() };
    assert!(!state.is_default_voice(&other));
}

#[test]
fn keys_and_clock() {
    assert_eq!(key_action('q'), KeyAction::Quit);
    assert_eq!(key_action('Q'), KeyAction::Quit);
    assert_eq!(key_action('c'), KeyAction::ClearLog);
    assert_eq!(key_action('C'), KeyAction::ClearLog);
    assert_eq!(key_action('x'), KeyAction::Ignore);
    assert_eq!(clock_parts(3725), (1, 2, 5));
    assert_eq!(clock_parts(59), (0, 0, 59));
    assert_eq!(age(42), Age::Seconds(42));
    assert_eq!(age(125), Age::Minutes(2));
}
