use vibevoice_tts_provider::tui::state::{AppState, TuiEvent};
use vibevoice_tts_provider::config::{
    default_api_url, default_ddpm_steps, default_listen_addr, default_model, Config, ConfigError,
    ServerConfig, VibeVoiceConfig, VoiceEntry, VoicesConfig,
};

fn sample_config(default: Option<&str>) -> Config {
    Config {
        server: ServerConfig { listen_addr: default_listen_addr() },
        vibevoice: VibeVoiceConfig {
            api_url: default_api_url(),
            model: default_model(),
            ddpm_steps: default_ddpm_steps(),
            cfg_scale_bits: 3.0f32.to_bits(),
        },
        voices: VoicesConfig {
            default: default.map(|d| d.to_string()),
            voices: vec![
                (
                    "primavera".to_string(),
                    VoiceEntry { path: "primavera.wav".to_string(), display_name: Some("Primavera".to_string()) },
                ),
                (
                    "narrator".to_string(),
                    VoiceEntry { path: "/path/to/narrator.wav".to_string(), display_name: None },
                ),
            ],
        },
    }
}

#[test]
fn defaults_match_documented_values() {
    assert_eq!(default_listen_addr(), "[::1]:50051");
    assert_eq!(default_api_url(), "http://127.0.0.1:8000/v1");
    assert_eq!(default_model(), "vibevoice/VibeVoice-7B");
    assert_eq!(default_ddpm_steps(), 20);
}

#[test]
fn get_voice_finds_named_voice() {
    let config = sample_config(Some("primavera"));
    let entry = config.get_voice("narrator").unwrap();
    assert_eq!(entry.path, "/path/to/narrator.wav");
    assert_eq!(entry.display_name, None);
}

#[test]
fn get_voice_empty_id_uses_default() {
    let config = sample_config(Some("primavera"));
    let entry = config.get_voice("").unwrap();
    assert_eq!(entry.path, "primavera.wav");
}

#[test]
fn get_voice_unknown_id_is_not_found() {
    let config = sample_config(Some("primavera"));
    match config.get_voice("robot") {
        Err(ConfigError::VoiceNotFound(id)) => assert_eq!(id, "robot"),
        other => panic!("unexpected {:?}", other),
    }
}

#[test]
fn get_voice_unknown_default_is_not_found() {
    let config = sample_config(Some("ghost"));
    match config.get_voice("") {
        Err(ConfigError::VoiceNotFound(id)) => assert_eq!(id, "ghost"),
        other => panic!("unexpected {:?}", other),
    }
}

#[test]
fn get_voice_empty_id_without_default_fails() {
    let config = sample_config(None);
    assert!(matches!(config.get_voice(""), Err(ConfigError::NoDefaultVoice)));
}

#[test]
fn config_error_messages() {
    assert_eq!(ConfigError::ReadError("boom".to_string()).message(), "failed to read config file: boom");
    assert_eq!(ConfigError::ParseError("bad".to_string()).message(), "failed to parse config: bad");
    assert_eq!(ConfigError::VoiceNotFound("x".to_string()).message(), "voice not found: x");
    assert_eq!(
        ConfigError::NoDefaultVoice.message(),
        "no default voice configured and voice_id is empty"
    );
}

#[test]
fn voice_infos_use_display_name_or_id() {
    let config = sample_config(None);
    let infos = config.voices.voice_infos();
    assert_eq!(infos.len(), 2);
    assert_eq!(infos[0].id, "primavera");
    assert_eq!(infos[0].display_name, "Primavera");
    assert_eq!(infos[1].id, "narrator");
    assert_eq!(infos[1].display_name, "narrator");
}

#[test]
fn stream_ids_and_balance_scenario_uptime_runs() {
    let mut s = AppState::new("a".to_string(), Vec::new(), None);
    let a = s.next_stream_id();
    s.handle_event(TuiEvent::StreamStarted { id: a, voice_id: "v".to_string(), text: "t".to_string() });
    let b = s.next_stream_id();
    s.clear_log();
    let c = s.next_stream_id();
    assert_eq!((a, b, c), (1, 2, 3));
    assert_eq!(
        s.stats.successful_requests + s.stats.failed_requests + s.active_streams.len() as u64,
        s.stats.total_requests
    );
    let _ = s.uptime();
}

#[test]
fn from_entries_keeps_last_entry_per_id() {
    let entry = |p: &str| VoiceEntry { path: p.to_string(), display_name: None };
    let voices = VoicesConfig::from_entries(
        Some("a".to_string()),
        vec![
            ("a".to_string(), entry("a1.wav")),
            ("b".to_string(), entry("b.wav")),
            ("a".to_string(), entry("a2.wav")),
        ],
    );
    assert_eq!(voices.default.as_deref(), Some("a"));
    assert_eq!(voices.voices.len(), 2);
    let config = Config {
        server: ServerConfig { listen_addr: default_listen_addr() },
        vibevoice: VibeVoiceConfig {
            api_url: default_api_url(),
            model: default_model(),
            ddpm_steps: default_ddpm_steps(),
            cfg_scale_bits: 0,
        },
        voices,
    };
    assert_eq!(config.get_voice("a").unwrap().path, "a2.wav");
    assert_eq!(config.get_voice("").unwrap().path, "a2.wav");
    assert_eq!(config.get_voice("b").unwrap().path, "b.wav");
}

#[test]
fn monitor_events_clone() {
    let e = TuiEvent::StreamFailed { id: 2, error: "x".to_string() };
    match e.clone() {
        TuiEvent::StreamFailed { id, error } => {
            assert_eq!(id, 2);
            assert_eq!(error, "x");
        }
        _ => panic!("wrong variant"),
    }
}
