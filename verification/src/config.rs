//! Settings: the command line, the environment and the defaults.

use crate::text::{optional, texts};
use vstd::prelude::*;

verus! {

broadcast use vstd::string::group_string_axioms;

/// What the command line says.
#[derive(Debug, Clone)]
pub struct Cli {
    pub web: bool,
    pub port: u16,
    pub host: String,
    pub debug: bool,
    pub cartesia_key: Option<String>,
    pub sherpa_model_dir: Option<String>,
    pub opencode_url: String,
    pub gate_endpoint: String,
    pub gate_model: String,
    pub gate_api_key: Option<String>,
    pub no_gate: bool,
    pub tts_engine: String,
}

/// What the environment says.
#[derive(Debug, Clone)]
pub struct Environment {
    /// `OPENCODE_USERNAME`
    pub opencode_username: Option<String>,
    /// `OPENCODE_PASSWORD`
    pub opencode_password: Option<String>,
    /// `CARTESIA_API_KEY`
    pub cartesia_api_key: Option<String>,
}

/// All settings. Fractions are held in thousandths.
#[derive(Debug, Clone)]
pub struct Config {
    pub sample_rate: u32,
    pub channels: u16,
    pub chunk_ms: u32,
    pub vad_threshold_milli: u32,
    pub vad_min_speech_ms: u32,
    pub vad_min_silence_ms: u32,
    pub sherpa_model_dir: String,
    pub sherpa_sample_rate: u32,
    pub cartesia_api_key: String,
    pub cartesia_model_id: String,
    pub cartesia_voice_id: String,
    pub cartesia_ws_url: String,
    pub tts_engine: String,
    pub pocket_variant: String,
    pub pocket_voice: String,
    pub pocket_eos_threshold_milli: i32,
    pub pocket_temperature_milli: u32,
    pub pocket_gain_milli: u32,
    pub silence_timeout_ms: u64,
    pub idle_timeout_ms: u64,
    pub thinking_timeout_ms: u64,
    pub interjection_cues: Vec<String>,
    pub backchannel_cues: Vec<String>,
    pub correction_signals: Vec<String>,
    pub append_signals: Vec<String>,
    pub web_host: String,
    pub web_port: u16,
    pub debug: bool,
    pub tts_sample_rate: u32,
    pub opencode_server_url: String,
    pub opencode_username: String,
    pub opencode_password: String,
    pub gate_endpoint: String,
    pub gate_model: String,
    pub gate_api_key: Option<String>,
    pub gate_reasoning_effort: String,
    pub gate_timeout_ms: u64,
    pub gate_silence_fallback_ms: u64,
    pub gate_max_rechecks: u32,
    pub gate_hold_backstop_ms: u64,
    pub gate_debounce_ms: u64,
    pub no_gate: bool,
}

/// The words that cut in, unless set otherwise.
pub open spec fn default_interjections() -> Seq<Seq<char>> {
    seq![
        "wait"@,
        "no"@,
        "actually"@,
        "hold on"@,
        "nevermind"@,
        "scratch that"@,
        "cancel"@,
        "i meant"@,
        "correction"@,
        "instead"@,
    ]
}

/// The words that only show attention, unless set otherwise.
pub open spec fn default_backchannels() -> Seq<Seq<char>> {
    seq![
        "uh-huh"@,
        "uh huh"@,
        "mhm"@,
        "mm-hm"@,
        "yeah"@,
        "right"@,
        "okay"@,
        "ok"@,
        "sure"@,
    ]
}

/// The words that take something back, unless set otherwise.
pub open spec fn default_corrections() -> Seq<Seq<char>> {
    seq![
        "actually"@,
        "i meant"@,
        "correction"@,
        "no wait"@,
        "scratch that"@,
        "let me rephrase"@,
    ]
}

/// The words that add something, unless set otherwise.
pub open spec fn default_appends() -> Seq<Seq<char>> {
    seq!["also"@, "and another thing"@, "plus"@, "one more"@]
}

impl Config {
    /// Whether the settings that neither the command line nor the environment reaches
    /// are the default ones.
    pub open spec fn has_fixed_defaults(self) -> bool {
        &&& self.sample_rate == 16000
        &&& self.channels == 1
        &&& self.chunk_ms == 30
        &&& self.vad_threshold_milli == 500
        &&& self.vad_min_speech_ms == 100
        &&& self.vad_min_silence_ms == 300
        &&& self.sherpa_sample_rate == 16000
        &&& self.cartesia_model_id@ == "sonic-3"@
        &&& self.cartesia_voice_id@ == "1463a4e1-56a1-4b41-b257-728d56e93605"@
        &&& self.cartesia_ws_url@ == "wss://api.cartesia.ai/tts/websocket"@
        &&& self.pocket_variant@ == "b6369a24"@
        &&& self.pocket_voice@ == "data/models/pocket-tts/voice.wav"@
        &&& self.pocket_eos_threshold_milli == -7000
        &&& self.pocket_temperature_milli == 700
        &&& self.pocket_gain_milli == 42000
        &&& self.silence_timeout_ms == 600
        &&& self.idle_timeout_ms == 2000
        &&& self.thinking_timeout_ms == 15000
        &&& texts(self.interjection_cues@) == default_interjections()
        &&& texts(self.backchannel_cues@) == default_backchannels()
        &&& texts(self.correction_signals@) == default_corrections()
        &&& texts(self.append_signals@) == default_appends()
        &&& self.tts_sample_rate == 24000
        &&& self.gate_reasoning_effort@ == "none"@
        &&& self.gate_timeout_ms == 4000
        &&& self.gate_silence_fallback_ms == 5000
        &&& self.gate_max_rechecks == 3
        &&& self.gate_hold_backstop_ms == 120000
        &&& self.gate_debounce_ms == 150
    }

    /// Whether all settings are the default ones.
    pub open spec fn is_default(self) -> bool {
        &&& self.has_fixed_defaults()
        &&& self.sherpa_model_dir@ == "data/models/sherpa-zipformer-en"@
        &&& self.cartesia_api_key@ == ""@
        &&& self.tts_engine@ == "pocket"@
        &&& self.web_host@ == "0.0.0.0"@
        &&& self.web_port == 8765
        &&& !self.debug
        &&& self.opencode_server_url@ == "http://127.0.0.1:4096"@
        &&& self.opencode_username@ == ""@
        &&& self.opencode_password@ == ""@
        &&& self.gate_endpoint@ == "http://localhost:11434/v1/chat/completions"@
        &&& self.gate_model@ == "qwen3.5:4b"@
        &&& self.gate_api_key is None
        &&& !self.no_gate
    }

    /// Whether these are the settings for a command line in an environment.
    pub open spec fn follows(self, cli: Cli, environment: Environment) -> bool {
        &&& self.has_fixed_defaults()
        &&& self.debug == cli.debug
        &&& self.web_host@ == cli.host@
        &&& self.web_port == cli.port
        &&& self.opencode_server_url@ == cli.opencode_url@
        &&& self.opencode_username@ == match environment.opencode_username {
            Some(name) => name@,
            None => "opencode"@,
        }
        &&& self.opencode_password@ == match environment.opencode_password {
            Some(password) => password@,
            None => ""@,
        }
        &&& self.sherpa_model_dir@ == match cli.sherpa_model_dir {
            Some(dir) => dir@,
            None => "data/models/sherpa-zipformer-en"@,
        }
        &&& self.cartesia_api_key@ == match (cli.cartesia_key, environment.cartesia_api_key) {
            (Some(key), _) => key@,
            (None, Some(key)) => key@,
            (None, None) => ""@,
        }
        &&& self.gate_endpoint@ == cli.gate_endpoint@
        &&& self.gate_model@ == cli.gate_model@
        &&& optional(self.gate_api_key) == optional(cli.gate_api_key)
        &&& self.no_gate == cli.no_gate
        &&& self.tts_engine@ == cli.tts_engine@
    }
}

impl Default for Config {
    fn default() -> (config: Self)
        ensures
            config.is_default(),
            config.sherpa_sample_rate == 16000,
            config.cartesia_ws_url@ == "wss://api.cartesia.ai/tts/websocket"@,
            config.pocket_variant@ == "b6369a24"@,
            config.pocket_voice@ == "data/models/pocket-tts/voice.wav"@,
            config.silence_timeout_ms == 600,
            config.idle_timeout_ms == 2000,
            config.thinking_timeout_ms == 15000,
            texts(config.interjection_cues@) == seq![
                "wait"@,
                "no"@,
                "actually"@,
                "hold on"@,
                "nevermind"@,
                "scratch that"@,
                "cancel"@,
                "i meant"@,
                "correction"@,
                "instead"@,
            ],
            texts(config.correction_signals@) == seq![
                "actually"@,
                "i meant"@,
                "correction"@,
                "no wait"@,
                "scratch that"@,
                "let me rephrase"@,
            ],
            config.opencode_server_url@ == "http://127.0.0.1:4096"@,
            config.gate_endpoint@ == "http://localhost:11434/v1/chat/completions"@,
            config.gate_silence_fallback_ms == 5000,
            config.gate_debounce_ms == 150,
            !config.debug,
    {
        let config = Config {
            sample_rate: 16000,
            channels: 1,
            chunk_ms: 30,
            vad_threshold_milli: 500,
            vad_min_speech_ms: 100,
            vad_min_silence_ms: 300,
            sherpa_model_dir: "data/models/sherpa-zipformer-en".to_owned(),
            sherpa_sample_rate: 16000,
            cartesia_api_key: "".to_owned(),
            cartesia_model_id: "sonic-3".to_owned(),
            cartesia_voice_id: "1463a4e1-56a1-4b41-b257-728d56e93605".to_owned(),
            cartesia_ws_url: "wss://api.cartesia.ai/tts/websocket".to_owned(),
            tts_engine: "pocket".to_owned(),
            pocket_variant: "b6369a24".to_owned(),
            pocket_voice: "data/models/pocket-tts/voice.wav".to_owned(),
            pocket_eos_threshold_milli: -7000,
            pocket_temperature_milli: 700,
            pocket_gain_milli: 42000,
            silence_timeout_ms: 600,
            idle_timeout_ms: 2000,
            thinking_timeout_ms: 15000,
            interjection_cues: vec![
                "wait".to_owned(),
                "no".to_owned(),
                "actually".to_owned(),
                "hold on".to_owned(),
                "nevermind".to_owned(),
                "scratch that".to_owned(),
                "cancel".to_owned(),
                "i meant".to_owned(),
                "correction".to_owned(),
                "instead".to_owned(),
            ],
            backchannel_cues: vec![
                "uh-huh".to_owned(),
                "uh huh".to_owned(),
                "mhm".to_owned(),
                "mm-hm".to_owned(),
                "yeah".to_owned(),
                "right".to_owned(),
                "okay".to_owned(),
                "ok".to_owned(),
                "sure".to_owned(),
            ],
            correction_signals: vec![
                "actually".to_owned(),
                "i meant".to_owned(),
                "correction".to_owned(),
                "no wait".to_owned(),
                "scratch that".to_owned(),
                "let me rephrase".to_owned(),
            ],
            append_signals: vec![
                "also".to_owned(),
                "and another thing".to_owned(),
                "plus".to_owned(),
                "one more".to_owned(),
            ],
            web_host: "0.0.0.0".to_owned(),
            web_port: 8765,
            debug: false,
            tts_sample_rate: 24000,
            opencode_server_url: "http://127.0.0.1:4096".to_owned(),
            opencode_username: "".to_owned(),
            opencode_password: "".to_owned(),
            gate_endpoint: "http://localhost:11434/v1/chat/completions".to_owned(),
            gate_model: "qwen3.5:4b".to_owned(),
            gate_api_key: None,
            gate_reasoning_effort: "none".to_owned(),
            gate_timeout_ms: 4000,
            gate_silence_fallback_ms: 5000,
            gate_max_rechecks: 3,
            gate_hold_backstop_ms: 120000,
            gate_debounce_ms: 150,
            no_gate: false,
        };
        proof {
            assert(texts(config.interjection_cues@) =~= default_interjections());
            assert(texts(config.backchannel_cues@) =~= default_backchannels());
            assert(texts(config.correction_signals@) =~= default_corrections());
            assert(texts(config.append_signals@) =~= default_appends());
        }
        config
    }
}

fn or_else(text: &Option<String>, fallback: &str) -> (chosen: String)
    ensures
        chosen@ == match *text {
            Some(text) => text@,
            None => fallback@,
        },
{
    match text {
        Some(text) => text.clone(),
        None => fallback.to_owned(),
    }
}

impl Config {
    /// The settings for a command line in an environment.
    pub fn from_cli(cli: &Cli, environment: &Environment) -> (config: Self)
        ensures
            config.follows(*cli, *environment),
    {
        let mut config = Config::default();
        config.debug = cli.debug;
        config.web_host = cli.host.clone();
        config.web_port = cli.port;
        config.opencode_server_url = cli.opencode_url.clone();
        config.opencode_username = or_else(&environment.opencode_username, "opencode");
        config.opencode_password = or_else(&environment.opencode_password, "");
        if let Some(dir) = &cli.sherpa_model_dir {
            config.sherpa_model_dir = dir.clone();
        }
        config.cartesia_api_key =
        match &cli.cartesia_key {
            Some(key) => key.clone(),
            None => or_else(&environment.cartesia_api_key, ""),
        };
        config.gate_endpoint = cli.gate_endpoint.clone();
        config.gate_model = cli.gate_model.clone();
        config.gate_api_key =
        match &cli.gate_api_key {
            Some(key) => Some(key.clone()),
            None => None,
        };
        config.no_gate = cli.no_gate;
        config.tts_engine = cli.tts_engine.clone();
        config
    }
}

/// What the command line says counts as it was said, down to the letter and even if it is
/// empty; where it is silent, the environment counts, and then the default. What neither can
/// say is the same whatever they say.
pub proof fn law_command_line_comes_first(
    config: Config,
    cli: Cli,
    environment: Environment,
    fresh: Config,
)
    requires
        config.follows(cli, environment),
        fresh.is_default(),
    ensures
        cli.cartesia_key matches Some(key) ==> config.cartesia_api_key@ == key@,
        cli.cartesia_key is None ==> (environment.cartesia_api_key matches Some(key)
            ==> config.cartesia_api_key@ == key@),
        cli.cartesia_key is None && environment.cartesia_api_key is None
            ==> config.cartesia_api_key@ == fresh.cartesia_api_key@,
        cli.sherpa_model_dir matches Some(dir) ==> config.sherpa_model_dir@ == dir@,
        cli.sherpa_model_dir is None ==> config.sherpa_model_dir@ == fresh.sherpa_model_dir@,
        environment.opencode_username matches Some(name) ==> config.opencode_username@ == name@,
        environment.opencode_username is None ==> config.opencode_username@ == "opencode"@,
        environment.opencode_password matches Some(word) ==> config.opencode_password@ == word@,
        environment.opencode_password is None ==> config.opencode_password@.len() == 0,
        config.debug == cli.debug,
        config.no_gate == cli.no_gate,
        config.web_host@ == cli.host@,
        config.web_port == cli.port,
        config.opencode_server_url@ == cli.opencode_url@,
        config.gate_endpoint@ == cli.gate_endpoint@,
        config.gate_model@ == cli.gate_model@,
        optional(config.gate_api_key) == optional(cli.gate_api_key),
        config.tts_engine@ == cli.tts_engine@,
        texts(config.interjection_cues@) == texts(fresh.interjection_cues@),
        texts(config.backchannel_cues@) == texts(fresh.backchannel_cues@),
        texts(config.correction_signals@) == texts(fresh.correction_signals@),
        texts(config.append_signals@) == texts(fresh.append_signals@),
        config.sample_rate == fresh.sample_rate,
        config.chunk_ms == fresh.chunk_ms,
        config.vad_threshold_milli == fresh.vad_threshold_milli,
        config.vad_min_speech_ms == fresh.vad_min_speech_ms,
        config.vad_min_silence_ms == fresh.vad_min_silence_ms,
        config.tts_sample_rate == fresh.tts_sample_rate,
        config.gate_reasoning_effort@ == fresh.gate_reasoning_effort@,
        config.gate_timeout_ms == fresh.gate_timeout_ms,
        config.gate_max_rechecks == fresh.gate_max_rechecks,
{
    reveal_strlit("");
}

} // verus!
