use std::time::Duration;
use vibevoice_tts_provider::config::VibeVoiceConfig;
use vibevoice_tts_provider::service::{Relay, RelayEvent, ReplyCode, SetupFailure};
use vibevoice_tts_provider::sse::{SseDecoder, SseFrame};
use vibevoice_tts_provider::tui::state::TuiEvent;
use vibevoice_tts_provider::vibevoice::{
    after_delivery, check_status, decode_pcm, speech_request, speech_url, Base64DecodeError, EventPayload,
    FrameAction, FrameKind, SynthesisSession, VibeVoiceError, DEFAULT_SAMPLE_RATE,
};

fn frames_of(text: &str) -> Vec<(String, String)> {
    let mut d = SseDecoder::new();
    d.feed(text).into_iter().map(|f| (f.event, f.data)).collect()
}

#[test]
fn decoder_reads_events() {
    let frames = frames_of(
        "event: start\ndata: {\"sample_rate\": 16000}\n\nevent: chunk\ndata: {\"data\":\n data: \"AAAA\"}\n\nevent: end\ndata: {}\n\n",
    );
    assert_eq!(frames.len(), 3);
    assert_eq!(frames[0], ("start".to_string(), "{\"sample_rate\": 16000}".to_string()));
    assert_eq!(frames[1], ("chunk".to_string(), "{\"data\":\"AAAA\"}".to_string()));
    assert_eq!(frames[2], ("end".to_string(), "{}".to_string()));
}

#[test]
fn decoder_drops_events_without_type_and_ignores_other_lines() {
    let frames = frames_of("data: lonely\n\n: comment\nid: 3\nevent: error\r\ndata: {\"error\":\"x\"}\r\n\r\n");
    assert_eq!(frames, vec![("error".to_string(), "{\"error\":\"x\"}".to_string())]);
}

#[test]
fn decoder_split_anywhere_gives_same_events() {
    let text = "event: chunk\ndata: abc\n\nevent: end\n\n";
    let whole = frames_of(text);
    for cut in 0..=text.len() {
        let mut d = SseDecoder::new();
        let mut got: Vec<(String, String)> = d.feed(&text[..cut]).into_iter().map(|f| (f.event, f.data)).collect();
        got.extend(d.feed(&text[cut..]).into_iter().map(|f| (f.event, f.data)));
        assert_eq!(got, whole);
    }
}

#[test]
fn decoder_reads_bytes() {
    let mut d = SseDecoder::new();
    let frames = d.feed_bytes(b"event: end\n\n");
    assert_eq!(frames.len(), 1);
    assert_eq!(frames[0].event, "end");
    assert_eq!(frames[0].kind(), FrameKind::End);
}

#[test]
fn frame_kinds() {
    let f = |e: &str| SseFrame { event: e.to_string(), data: String::new() }.kind();
    assert_eq!(f("start"), FrameKind::Start);
    assert_eq!(f("chunk"), FrameKind::Chunk);
    assert_eq!(f("end"), FrameKind::End);
    assert_eq!(f("error"), FrameKind::Error);
    assert_eq!(f("ping"), FrameKind::Other);
    assert_eq!(f("Start"), FrameKind::Other);
}

#[test]
fn pcm_samples_are_little_endian() {
    assert_eq!(decode_pcm(&[0x01, 0x00, 0xff, 0xff, 0x00, 0x80, 0xff, 0x7f, 0x42]), vec![1, -1, -32768, 32767]);
    assert_eq!(decode_pcm(&[]), Vec::<i16>::new());
}

#[test]
fn status_check() {
    assert!(check_status(200).is_ok());
    assert!(check_status(299).is_ok());
    assert!(matches!(check_status(404), Err(VibeVoiceError::ApiStatus(404))));
    assert!(matches!(check_status(199), Err(VibeVoiceError::ApiStatus(199))));
}

#[test]
fn request_shape() {
    let config = VibeVoiceConfig {
        api_url: "http://127.0.0.1:8000/v1".to_string(),
        model: "vibevoice/VibeVoice-7B".to_string(),
        ddpm_steps: 20,
        cfg_scale_bits: 3.0f32.to_bits(),
    };
    assert_eq!(speech_url(&config), "http://127.0.0.1:8000/v1/audio/speech");
    let req = speech_request(&config, "Hello", "primavera.wav");
    assert_eq!(req.model, "vibevoice/VibeVoice-7B");
    assert_eq!(req.voice, "default");
    assert_eq!(req.input, "Hello");
    assert_eq!(req.response_format, "pcm");
    assert_eq!(req.voice_path, "primavera.wav");
    assert_eq!(req.stream_format, "sse");
    assert_eq!(req.ddpm_steps, 20);
    assert_eq!(f32::from_bits(req.cfg_scale_bits), 3.0);
}

fn frame(event: &str) -> SseFrame {
    SseFrame { event: event.to_string(), data: String::new() }
}

#[test]
fn session_follows_events() {
    let mut s = SynthesisSession::new();
    assert_eq!(s.sample_rate, DEFAULT_SAMPLE_RATE);
    assert!(matches!(s.on_frame(&frame("start"), EventPayload::Start { sample_rate: Some(16000) }), FrameAction::Continue));
    assert_eq!(s.sample_rate, 16000);
    // "AQD//w==" is the bytes 01 00 ff ff.
    match s.on_frame(&frame("chunk"), EventPayload::Chunk { data: "AQD//w==".to_string() }) {
        FrameAction::Send(c) => {
            assert_eq!(c.samples, vec![1, -1]);
            assert_eq!(c.sample_rate, 16000);
            assert!(!c.is_final);
        }
        other => panic!("unexpected {:?}", other),
    }
    match s.on_frame(&frame("end"), EventPayload::Unparsed) {
        FrameAction::Finish(c) => {
            assert!(c.samples.is_empty());
            assert!(c.is_final);
            assert_eq!(c.sample_rate, 16000);
        }
        other => panic!("unexpected {:?}", other),
    }
}

#[test]
fn session_start_without_rate_resets_default() {
    let mut s = SynthesisSession { sample_rate: 8000 };
    s.on_frame(&frame("start"), EventPayload::Start { sample_rate: None });
    assert_eq!(s.sample_rate, 24000);
    s.on_frame(&frame("start"), EventPayload::Unparsed);
    assert_eq!(s.sample_rate, 24000);
}

#[test]
fn session_errors() {
    let mut s = SynthesisSession::new();
    match s.on_frame(&frame("chunk"), EventPayload::Chunk { data: "A!==".to_string() }) {
        FrameAction::Fail(VibeVoiceError::Base64Error(Base64DecodeError::InvalidByte(1, b'!'))) => {}
        other => panic!("unexpected {:?}", other),
    }
    match s.on_frame(&frame("error"), EventPayload::Error { error: "overloaded".to_string() }) {
        FrameAction::Fail(VibeVoiceError::ApiError(m)) => assert_eq!(m, "overloaded"),
        other => panic!("unexpected {:?}", other),
    }
    assert!(matches!(s.on_frame(&frame("error"), EventPayload::Unparsed), FrameAction::Continue));
    assert!(matches!(s.on_frame(&frame("chunk"), EventPayload::Unparsed), FrameAction::Continue));
    assert!(matches!(s.on_frame(&frame("other"), EventPayload::Chunk { data: "AAAA".to_string() }), FrameAction::Continue));
}

#[test]
fn relay_reports_progress_and_completion() {
    let mut r = Relay::new(Some(5));
    assert_eq!(r.sequence, 0);
    let step = r.step(RelayEvent::Delivered { is_final: false, elapsed: Duration::from_millis(10) });
    assert!(!step.finished);
    assert_eq!(r.sequence, 1);
    assert!(matches!(step.notices[..], [TuiEvent::StreamProgress { id: 5, chunks_sent: 1 }]));
    let step = r.step(RelayEvent::Delivered { is_final: true, elapsed: Duration::from_millis(20) });
    assert!(step.finished);
    assert_eq!(step.notices.len(), 2);
    assert!(matches!(step.notices[0], TuiEvent::StreamProgress { id: 5, chunks_sent: 2 }));
    match &step.notices[1] {
        TuiEvent::StreamCompleted { id, duration, chunks } => {
            assert_eq!(*id, 5);
            assert_eq!(*duration, Duration::from_millis(20));
            assert_eq!(*chunks, 2);
        }
        other => panic!("unexpected {:?}", other),
    }
}

#[test]
fn relay_failures() {
    let mut r = Relay::new(Some(3));
    let step = r.step(RelayEvent::ClientGone);
    assert!(step.finished);
    assert!(step.reply_error.is_none());
    match &step.notices[..] {
        [TuiEvent::StreamFailed { id: 3, error }] => assert_eq!(error, "Client disconnected"),
        other => panic!("unexpected {:?}", other),
    }
    let mut r = Relay::new(None);
    let step = r.step(RelayEvent::UpstreamFailed { message: "API error: x".to_string() });
    assert!(step.finished);
    assert!(step.notices.is_empty());
    assert_eq!(step.reply_error.as_deref(), Some("API error: x"));
    assert!(r.failure_notice("m".to_string()).is_none());
    assert!(matches!(Relay::new(Some(1)).failure_notice("m".to_string()), Some(TuiEvent::StreamFailed { id: 1, .. })));
}

#[test]
fn decoder_replaces_invalid_utf8() {
    let mut d = SseDecoder::new();
    let frames = d.feed_bytes(b"event: \xff\ndata: ok\n\n");
    assert_eq!(frames.len(), 1);
    assert_eq!(frames[0].event, "\u{FFFD}");
    assert_eq!(frames[0].data, "ok");
}

#[test]
fn relay_start_notice() {
    match Relay::new(Some(4)).start_notice("primavera".to_string(), "Hi".to_string()) {
        Some(TuiEvent::StreamStarted { id, voice_id, text }) => {
            assert_eq!(id, 4);
            assert_eq!(voice_id, "primavera");
            assert_eq!(text, "Hi");
        }
        other => panic!("unexpected {:?}", other),
    }
    assert!(Relay::new(None).start_notice("v".to_string(), "t".to_string()).is_none());
}

#[test]
fn relay_without_monitor_matches_with_monitor() {
    let mut a = Relay::new(Some(1));
    let mut b = Relay::new(None);
    for fin in [false, false, true] {
        let sa = a.step(RelayEvent::Delivered { is_final: fin, elapsed: Duration::from_millis(1) });
        let sb = b.step(RelayEvent::Delivered { is_final: fin, elapsed: Duration::from_millis(1) });
        assert_eq!(sa.finished, sb.finished);
        assert_eq!(a.sequence, b.sequence);
        assert!(sb.notices.is_empty());
    }
}

#[test]
fn decoder_drops_untyped_event_between_events() {
    let with = frames_of("event: end\n\ndata: stray\n\nevent: chunk\ndata: x\n\n");
    let without = frames_of("event: end\n\nevent: chunk\ndata: x\n\n");
    assert_eq!(with, without);
}

#[test]
fn decoder_byte_chunks_at_char_boundaries() {
    let text = "event: error\ndata: {\"error\":\"déjà vu\"}\n\n".as_bytes();
    let mut whole = SseDecoder::new();
    let expect: Vec<(String, String)> = whole.feed_bytes(text).into_iter().map(|f| (f.event, f.data)).collect();
    for cut in 0..=text.len() {
        if std::str::from_utf8(&text[..cut]).is_err() {
            continue;
        }
        let mut d = SseDecoder::new();
        let mut got: Vec<(String, String)> = d.feed_bytes(&text[..cut]).into_iter().map(|f| (f.event, f.data)).collect();
        got.extend(d.feed_bytes(&text[cut..]).into_iter().map(|f| (f.event, f.data)));
        assert_eq!(got, expect);
    }
}

#[test]
fn delivery_outcomes() {
    assert!(matches!(after_delivery(true, true), Some(Ok(()))));
    assert!(matches!(after_delivery(true, false), Some(Ok(()))));
    assert!(after_delivery(false, true).is_none());
    assert!(matches!(after_delivery(false, false), Some(Err(VibeVoiceError::ChannelError))));
}

#[test]
fn setup_failures_answer_by_kind() {
    let r = Relay::new(Some(8));
    let reply = r.setup_failed(SetupFailure::VoiceLookup, "voice not found: x".to_string());
    assert_eq!(reply.code, ReplyCode::NotFound);
    assert_eq!(reply.message, "voice not found: x");
    match reply.notice {
        Some(TuiEvent::StreamFailed { id, error }) => {
            assert_eq!(id, 8);
            assert_eq!(error, "voice not found: x");
        }
        other => panic!("unexpected {:?}", other),
    }
    let reply = Relay::new(None).setup_failed(SetupFailure::SynthesisStart, "boom".to_string());
    assert_eq!(reply.code, ReplyCode::Internal);
    assert!(reply.notice.is_none());
}

#[test]
fn decoder_skipped_typed_event_adds_only_its_frame() {
    let with = frames_of("event: end\n\nevent: ping\ndata: {}\n\nevent: chunk\ndata: x\n\n");
    let without = frames_of("event: end\n\nevent: chunk\ndata: x\n\n");
    assert_eq!(with.len(), without.len() + 1);
    assert_eq!(with[1], ("ping".to_string(), "{}".to_string()));
    assert_eq!(with[0], without[0]);
    assert_eq!(with[2], without[1]);
    let mut s = SynthesisSession::new();
    let ping = SseFrame { event: with[1].0.clone(), data: with[1].1.clone() };
    assert!(matches!(s.on_frame(&ping, EventPayload::Unparsed), FrameAction::Continue));
    assert_eq!(s.sample_rate, DEFAULT_SAMPLE_RATE);
}
