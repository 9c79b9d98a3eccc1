use interjections::config::{Cli, Config, Environment};

fn cli() -> Cli {
    Cli {
        web: true,
        port: 9000,
        host: "127.0.0.1".to_string(),
        debug: true,
        cartesia_key: None,
        sherpa_model_dir: None,
        opencode_url: "http://10.0.0.2:4096".to_string(),
        gate_endpoint: "http://gate/v1".to_string(),
        gate_model: "small".to_string(),
        gate_api_key: Some("gate-key".to_string()),
        no_gate: true,
        tts_engine: "cartesia".to_string(),
    }
}

fn bare_environment() -> Environment {
    Environment { opencode_username: None, opencode_password: None, cartesia_api_key: None }
}

#[test]
fn defaults_are_the_documented_ones() {
    let config = Config::default();
    assert_eq!(config.sample_rate, 16000);
    assert_eq!(config.channels, 1);
    assert_eq!(config.chunk_ms, 30);
    assert_eq!(config.vad_threshold_milli, 500);
    assert_eq!(config.vad_min_speech_ms, 100);
    assert_eq!(config.vad_min_silence_ms, 300);
    assert_eq!(config.sherpa_model_dir, "data/models/sherpa-zipformer-en");
    assert_eq!(config.cartesia_model_id, "sonic-3");
    assert_eq!(config.tts_engine, "pocket");
    assert_eq!(config.pocket_eos_threshold_milli, -7000);
    assert_eq!(config.pocket_temperature_milli, 700);
    assert_eq!(config.pocket_gain_milli, 42000);
    assert_eq!(config.interjection_cues.len(), 10);
    assert_eq!(
        config.backchannel_cues,
        vec!["uh-huh", "uh huh", "mhm", "mm-hm", "yeah", "right", "okay", "ok", "sure"]
    );
    assert_eq!(config.correction_signals[5], "let me rephrase");
    assert_eq!(config.append_signals, vec!["also", "and another thing", "plus", "one more"]);
    assert_eq!(config.web_host, "0.0.0.0");
    assert_eq!(config.web_port, 8765);
    assert_eq!(config.tts_sample_rate, 24000);
    assert_eq!(config.gate_model, "qwen3.5:4b");
    assert_eq!(config.gate_reasoning_effort, "none");
    assert_eq!(config.gate_timeout_ms, 4000);
    assert_eq!(config.gate_max_rechecks, 3);
    assert_eq!(config.gate_hold_backstop_ms, 120000);
    assert!(config.gate_api_key.is_none());
    assert!(!config.no_gate);
}

#[test]
fn command_line_wins_over_defaults() {
    let config = Config::from_cli(&cli(), &bare_environment());
    assert!(config.debug);
    assert_eq!(config.web_host, "127.0.0.1");
    assert_eq!(config.web_port, 9000);
    assert_eq!(config.opencode_server_url, "http://10.0.0.2:4096");
    assert_eq!(config.gate_endpoint, "http://gate/v1");
    assert_eq!(config.gate_model, "small");
    assert_eq!(config.gate_api_key.as_deref(), Some("gate-key"));
    assert!(config.no_gate);
    assert_eq!(config.tts_engine, "cartesia");
    assert_eq!(config.sherpa_model_dir, "data/models/sherpa-zipformer-en");
}

#[test]
fn environment_gives_the_credentials() {
    let environment = Environment {
        opencode_username: Some("me".to_string()),
        opencode_password: Some("secret".to_string()),
        cartesia_api_key: Some("from-env".to_string()),
    };
    let config = Config::from_cli(&cli(), &environment);
    assert_eq!(config.opencode_username, "me");
    assert_eq!(config.opencode_password, "secret");
    assert_eq!(config.cartesia_api_key, "from-env");
}

#[test]
fn credentials_fall_back() {
    let config = Config::from_cli(&cli(), &bare_environment());
    assert_eq!(config.opencode_username, "opencode");
    assert_eq!(config.opencode_password, "");
    assert_eq!(config.cartesia_api_key, "");
}

#[test]
fn a_key_on_the_command_line_wins_over_the_environment() {
    let mut line = cli();
    line.cartesia_key = Some("from-line".to_string());
    line.sherpa_model_dir = Some("/models".to_string());
    let environment = Environment {
        opencode_username: None,
        opencode_password: None,
        cartesia_api_key: Some("from-env".to_string()),
    };
    let config = Config::from_cli(&line, &environment);
    assert_eq!(config.cartesia_api_key, "from-line");
    assert_eq!(config.sherpa_model_dir, "/models");
}
