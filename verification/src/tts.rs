//! Speaking a text aloud: which engine speaks, what it is asked and how its answers are
//! played.

use crate::base64_text;
use crate::base64_text::bytes_in;
use crate::config::Config;
use crate::json;
use crate::json::{contents, parsed, Json};
use crate::pcm::{bytes_of, decode_samples, law_samples_survive_bytes, samples_of, ByteOrder};
use crate::text::same;
use serde_json::Value;
use vstd::prelude::*;

verus! {

broadcast use vstd::string::group_string_axioms;

/// A text-to-speech engine.
#[derive(Debug, Clone, Copy, PartialEq, Eq, Structural)]
pub enum Engine {
    /// The local one.
    Pocket,
    /// The one in the cloud.
    Cartesia,
}

/// The engine with this name.
pub open spec fn engine_named(name: Seq<char>) -> Option<Engine> {
    if name == "pocket"@ {
        Some(Engine::Pocket)
    } else if name == "cartesia"@ {
        Some(Engine::Cartesia)
    } else {
        None
    }
}

/// The engine that the settings name, or a message that there is none of that name.
pub fn build(config: &Config) -> (engine: Result<Engine, String>)
    ensures
        match engine {
            Ok(engine) => engine_named(config.tts_engine@) == Some(engine),
            Err(message) => engine_named(config.tts_engine@) is None && message@
                == "unknown tts_engine '"@ + config.tts_engine@
                + "' (expected 'pocket' or 'cartesia')"@,
        },
{
    if same(&config.tts_engine, "pocket") {
        Ok(Engine::Pocket)
    } else if same(&config.tts_engine, "cartesia") {
        Ok(Engine::Cartesia)
    } else {
        let mut message = "unknown tts_engine '".to_owned();
        message.append(&config.tts_engine);
        message.append("' (expected 'pocket' or 'cartesia')");
        Err(message)
    }
}

/// A lower case hexadecimal digit.
pub open spec fn is_hex(c: char) -> bool {
    '0' <= c <= '9' || 'a' <= c <= 'f'
}

/// A random identifier in its usual spelling: groups of hexadecimal digits with hyphens
/// between them, and the marks of the random kind.
pub open spec fn is_random_id(text: Seq<char>) -> bool {
    &&& text.len() == 36
    &&& forall|i: int|
        0 <= i < 36 ==> if i == 8 || i == 13 || i == 18 || i == 23 {
            #[trigger] text[i] == '-'
        } else {
            is_hex(text[i])
        }
    &&& text[14] == '4'
    &&& text[19] == '8' || text[19] == '9' || text[19] == 'a' || text[19] == 'b'
}

/// `uuid::Uuid::new_v4` as text: a random identifier in lower case. Which one is left to
/// chance.
#[verifier::external_body]
fn fresh_id() -> (id: String)
    ensures
        is_random_id(id@),
{
    uuid::Uuid::new_v4().to_string()
}

/// What the cloud engine is asked to speak.
pub open spec fn speech_request(config: Config, text: Seq<char>, context_id: Seq<char>) -> Json {
    Json::Object(
        Map::empty().insert("context_id"@, Json::Text(context_id)).insert(
            "model_id"@,
            Json::Text(config.cartesia_model_id@),
        ).insert("transcript"@, Json::Text(text)).insert(
            "voice"@,
            Json::Object(
                Map::empty().insert("mode"@, Json::Text("id"@)).insert(
                    "id"@,
                    Json::Text(config.cartesia_voice_id@),
                ),
            ),
        ).insert(
            "output_format"@,
            Json::Object(
                Map::empty().insert("container"@, Json::Text("raw"@)).insert(
                    "encoding"@,
                    Json::Text("pcm_s16le"@),
                ).insert("sample_rate"@, Json::Int(config.tts_sample_rate as int)),
            ),
        ).insert("continue"@, Json::Bool(false)).insert("add_timestamps"@, Json::Bool(false)),
    )
}

/// Something that the cloud engine's connection brings.
#[derive(Debug, Clone)]
pub enum SpeakEvent {
    /// The user cut in before the next message.
    Aborted,
    Text(String),
    Binary(Vec<u8>),
    /// The connection ended.
    Closed,
    /// The connection broke.
    Failed,
    /// A message of no account.
    Other,
}

/// What to do about it.
#[derive(Debug, Clone, PartialEq, Eq)]
pub enum SpeakAction {
    /// Close the connection and leave it at that.
    Abort,
    Play(Vec<i16>),
    /// Close the connection and tell that the speech is over.
    Finish,
    Wait,
}

/// An action as its samples.
pub enum SpeakActionView {
    Abort,
    Play(Seq<i16>),
    Finish,
    Wait,
}

impl View for SpeakAction {
    type V = SpeakActionView;

    open spec fn view(&self) -> SpeakActionView {
        match *self {
            SpeakAction::Abort => SpeakActionView::Abort,
            SpeakAction::Play(samples) => SpeakActionView::Play(samples@),
            SpeakAction::Finish => SpeakActionView::Finish,
            SpeakAction::Wait => SpeakActionView::Wait,
        }
    }
}

/// What to do about bytes of audio: play the samples, if there are any.
pub open spec fn audio_action(bytes: Seq<u8>) -> SpeakActionView {
    let samples = samples_of(bytes, ByteOrder::Little);
    if samples.len() > 0 {
        SpeakActionView::Play(samples)
    } else {
        SpeakActionView::Wait
    }
}

/// The fields of a text message that count.
#[derive(Debug, Clone)]
pub struct ServerMessage {
    pub kind: String,
    /// The bytes that the message carries, if it carries any.
    pub audio: Option<Vec<u8>>,
}

/// A message as its text and bytes.
pub struct ServerMessageView {
    pub kind: Seq<char>,
    pub audio: Option<Seq<u8>>,
}

impl View for ServerMessage {
    type V = ServerMessageView;

    open spec fn view(&self) -> ServerMessageView {
        ServerMessageView {
            kind: self.kind@,
            audio: match self.audio {
                Some(bytes) => Some(bytes@),
                None => None,
            },
        }
    }
}

/// The fields of a JSON value that count.
pub open spec fn message_in(value: Json) -> ServerMessageView {
    ServerMessageView {
        kind: match value.at("type"@).text() {
            Some(kind) => kind,
            None => ""@,
        },
        audio: match value.at("data"@).text() {
            Some(data) => bytes_in(data),
            None => None,
        },
    }
}

/// What to do about a text message.
pub open spec fn message_action(message: ServerMessageView) -> SpeakActionView {
    if message.kind == "chunk"@ {
        match message.audio {
            Some(bytes) => audio_action(bytes),
            None => SpeakActionView::Wait,
        }
    } else if message.kind == "done"@ || message.kind == "error"@ {
        SpeakActionView::Finish
    } else {
        SpeakActionView::Wait
    }
}

/// What to do about an event.
pub open spec fn action_on(event: SpeakEvent) -> SpeakActionView {
    match event {
        SpeakEvent::Aborted => SpeakActionView::Abort,
        SpeakEvent::Text(text) => match parsed(text@) {
            Some(value) => message_action(message_in(value)),
            None => SpeakActionView::Wait,
        },
        SpeakEvent::Binary(bytes) => audio_action(bytes@),
        SpeakEvent::Closed | SpeakEvent::Failed => SpeakActionView::Finish,
        SpeakEvent::Other => SpeakActionView::Wait,
    }
}

fn play(bytes: &Vec<u8>) -> (action: SpeakAction)
    ensures
        action@ == audio_action(bytes@),
{
    let samples = decode_samples(bytes, ByteOrder::Little);
    if samples.len() > 0 {
        SpeakAction::Play(samples)
    } else {
        SpeakAction::Wait
    }
}

fn read_message(value: &Value) -> (message: ServerMessage)
    ensures
        message@ == message_in(contents(*value)),
{
    ServerMessage {
        kind: match json::as_str(json::at(value, "type")) {
            Some(kind) => kind.to_owned(),
            None => "".to_owned(),
        },
        audio: match json::as_str(json::at(value, "data")) {
            Some(data) => base64_text::decode(data),
            None => None,
        },
    }
}

impl ServerMessage {
    /// What to do about the message.
    pub fn action(&self) -> (action: SpeakAction)
        ensures
            action@ == message_action(self@),
    {
        if same(&self.kind, "chunk") {
            match &self.audio {
                Some(bytes) => play(bytes),
                None => SpeakAction::Wait,
            }
        } else if same(&self.kind, "done") || same(&self.kind, "error") {
            SpeakAction::Finish
        } else {
            SpeakAction::Wait
        }
    }
}

/// The cloud engine.
pub struct CartesiaTts {
    config: Config,
}

impl CartesiaTts {
    /// The settings that the engine goes by.
    pub closed spec fn settings(self) -> Config {
        self.config
    }

    /// The engine with these settings.
    pub fn new(config: Config) -> (engine: Self)
        ensures
            engine.settings() == config,
    {
        CartesiaTts { config }
    }

    /// Where to reach the engine.
    pub fn url(&self) -> (url: String)
        ensures
            url@ == self.settings().cartesia_ws_url@ + "?api_key="@
                + self.settings().cartesia_api_key@ + "&cartesia_version=2026-03-01"@,
    {
        let mut url = self.config.cartesia_ws_url.clone();
        url.append("?api_key=");
        url.append(&self.config.cartesia_api_key);
        url.append("&cartesia_version=2026-03-01");
        url
    }

    /// The JSON text that asks the engine to speak, under an identifier of its own.
    pub fn request(&self, text: &str) -> (request: String)
        ensures
            exists|id: Seq<char>|
                is_random_id(id) && parsed(request@) == Some(
                    #[trigger] speech_request(self.settings(), text@, id),
                ),
    {
        let id = fresh_id();
        self.request_as(text, &id)
    }

    /// The JSON text that asks the engine to speak, under this identifier.
    pub fn request_as(&self, text: &str, context_id: &str) -> (request: String)
        ensures
            parsed(request@) == Some(speech_request(self.settings(), text@, context_id@)),
    {
        let mut voice = json::object();
        json::set(&mut voice, "mode", json::string("id"));
        json::set(&mut voice, "id", json::string(&self.config.cartesia_voice_id));
        let mut format = json::object();
        json::set(&mut format, "container", json::string("raw"));
        json::set(&mut format, "encoding", json::string("pcm_s16le"));
        json::set(&mut format, "sample_rate", json::integer(self.config.tts_sample_rate));
        let mut body = json::object();
        json::set(&mut body, "context_id", json::string(context_id));
        json::set(&mut body, "model_id", json::string(&self.config.cartesia_model_id));
        json::set(&mut body, "transcript", json::string(text));
        json::set(&mut body, "voice", voice);
        json::set(&mut body, "output_format", format);
        json::set(&mut body, "continue", json::boolean(false));
        json::set(&mut body, "add_timestamps", json::boolean(false));
        proof {
            reveal_with_fuel(Json::nested_at_most, 4);
            assert(contents(body).nested_at_most(16));
        }
        json::render(&body)
    }

    /// What to do about an event.
    pub fn on_event(event: &SpeakEvent) -> (action: SpeakAction)
        ensures
            action@ == action_on(*event),
    {
        match event {
            SpeakEvent::Aborted => SpeakAction::Abort,
            SpeakEvent::Text(text) => match json::parse(text) {
                Some(value) => read_message(&value).action(),
                None => SpeakAction::Wait,
            },
            SpeakEvent::Binary(bytes) => play(bytes),
            SpeakEvent::Closed => SpeakAction::Finish,
            SpeakEvent::Failed => SpeakAction::Finish,
            SpeakEvent::Other => SpeakAction::Wait,
        }
    }
}

/// Samples that the engine packs into a message are played as they are.
pub proof fn law_packed_samples_are_played(samples: Seq<i16>, message: ServerMessageView)
    requires
        samples.len() > 0,
        message.kind == "chunk"@,
        message.audio == Some(bytes_of(samples, ByteOrder::Little)),
    ensures
        message_action(message) == SpeakActionView::Play(samples),
        audio_action(bytes_of(samples, ByteOrder::Little)) == SpeakActionView::Play(samples),
{
    law_samples_survive_bytes(samples, ByteOrder::Little);
}

/// Speech goes on until it is aborted, the engine says that it is over, or the connection
/// is gone. Audio and messages that cannot be made out never end it.
pub proof fn law_only_the_end_ends_speech(event: SpeakEvent)
    ensures
        action_on(event) is Abort <==> event is Aborted,
        action_on(event) is Finish <==> event is Closed || event is Failed || (
        event matches SpeakEvent::Text(text) && parsed(text@) is Some && (message_in(
            parsed(text@)->0,
        ).kind == "done"@ || message_in(parsed(text@)->0).kind == "error"@)),
{
    reveal_strlit("chunk");
    reveal_strlit("done");
    reveal_strlit("error");
    assert("chunk"@[0] == 'c' && "error"@[0] == 'e' && "done"@.len() == 4 && "chunk"@.len() == 5);
}

/// What the local engine's generator brings.
#[derive(Debug, Clone, Copy, PartialEq, Eq, Structural)]
pub enum PocketEvent {
    Chunk,
    Failed,
    Ended,
}

/// What to do about it.
#[derive(Debug, Clone, Copy, PartialEq, Eq, Structural)]
pub enum PocketAction {
    /// Play the chunk and pull the next one.
    Play,
    /// Tell that the speech is over.
    Finish,
    /// Tell that the speech is over, and report the error.
    Fail,
}

/// What to do about an event of the local engine. An abort counts before what the
/// generator brought, unless that was the end.
pub fn pocket_action(event: PocketEvent, aborted: bool) -> (action: PocketAction)
    ensures
        action == if event is Ended || aborted {
            PocketAction::Finish
        } else if event is Failed {
            PocketAction::Fail
        } else {
            PocketAction::Play
        },
{
    match event {
        PocketEvent::Ended => PocketAction::Finish,
        PocketEvent::Failed => if aborted {
            PocketAction::Finish
        } else {
            PocketAction::Fail
        },
        PocketEvent::Chunk => if aborted {
            PocketAction::Finish
        } else {
            PocketAction::Play
        },
    }
}

/// The request carries the text as it is, under the identifier it was given, with the model, the
/// voice and the rate of the settings, as raw samples that the player understands.
pub proof fn law_requests_carry_the_text(config: Config, text: Seq<char>, context_id: Seq<char>)
    ensures
        ({
            let request = speech_request(config, text, context_id);
            let format = request.at("output_format"@);
            &&& request.at("transcript"@) == Json::Text(text)
            &&& request.at("context_id"@) == Json::Text(context_id)
            &&& request.at("model_id"@) == Json::Text(config.cartesia_model_id@)
            &&& request.at("voice"@).at("mode"@) == Json::Text("id"@)
            &&& request.at("voice"@).at("id"@) == Json::Text(config.cartesia_voice_id@)
            &&& format.at("container"@) == Json::Text("raw"@)
            &&& format.at("encoding"@) == Json::Text("pcm_s16le"@)
            &&& format.at("sample_rate"@) == Json::Int(config.tts_sample_rate as int)
            &&& request.at("continue"@) == Json::Bool(false)
            &&& request.at("add_timestamps"@) == Json::Bool(false)
        }),
{
    reveal_strlit("context_id");
    reveal_strlit("model_id");
    reveal_strlit("transcript");
    reveal_strlit("voice");
    reveal_strlit("output_format");
    reveal_strlit("continue");
    reveal_strlit("add_timestamps");
    reveal_strlit("mode");
    reveal_strlit("id");
    reveal_strlit("container");
    reveal_strlit("encoding");
    reveal_strlit("sample_rate");
    assert("context_id"@.len() == 10 && "model_id"@.len() == 8 && "transcript"@.len() == 10);
    assert("context_id"@[0] == 'c' && "transcript"@[0] == 't');
    assert("model_id"@[0] == 'm' && "continue"@[0] == 'c' && "continue"@.len() == 8);
    assert("voice"@.len() == 5 && "output_format"@.len() == 13 && "add_timestamps"@.len() == 14);
    assert("mode"@.len() == 4 && "id"@.len() == 2);
    assert("container"@.len() == 9 && "encoding"@.len() == 8 && "sample_rate"@.len() == 11);
}

/// A message is of the kind it says, and carries what its data decodes to.
pub proof fn law_messages_are_read(value: Json, kind: Seq<char>, data: Seq<char>)
    ensures
        value.at("type"@) == Json::Text(kind) ==> message_in(value).kind == kind,
        value.at("data"@) == Json::Text(data) ==> message_in(value).audio == bytes_in(data),
        !(value.at("data"@) is Text) ==> message_in(value).audio is None,
        !(value.at("type"@) is Text) ==> message_in(value).kind.len() == 0,
{
    reveal_strlit("");
}

/// Bytes are played if and only if they hold a sample; a last half sample is left out.
pub proof fn law_whole_samples_are_played(samples: Seq<i16>, half: u8, bytes: Seq<u8>)
    ensures
        samples.len() > 0 ==> audio_action(bytes_of(samples, ByteOrder::Little).push(half))
            == SpeakActionView::Play(samples),
        audio_action(bytes) is Play <==> bytes.len() >= 2,
        bytes.len() < 2 ==> audio_action(bytes) is Wait,
{
    let packed = bytes_of(samples, ByteOrder::Little);
    law_samples_survive_bytes(samples, ByteOrder::Little);
    assert(samples_of(packed.push(half), ByteOrder::Little) =~= samples_of(
        packed,
        ByteOrder::Little,
    ));
}

/// Two names and no others name an engine, each its own.
pub proof fn law_two_engines_have_names(name: Seq<char>)
    ensures
        engine_named(name) == Some(Engine::Pocket) <==> name == "pocket"@,
        engine_named(name) == Some(Engine::Cartesia) <==> name == "cartesia"@,
{
    reveal_strlit("pocket");
    reveal_strlit("cartesia");
    assert("pocket"@.len() == 6 && "cartesia"@.len() == 8);
}

/// A message that is neither a chunk nor an end is waited out, and so is a chunk without
/// bytes.
pub proof fn law_other_messages_are_waited_out(message: ServerMessageView)
    ensures
        message.kind != "chunk"@ && message.kind != "done"@ && message.kind != "error"@
            ==> message_action(message) is Wait,
        message.kind == "chunk"@ && message.audio is None ==> message_action(message) is Wait,
{
}

/// Samples reach the speaker whichever way they come: as bytes, or packed into a chunk, whatever
/// else the chunk says.
pub proof fn law_samples_reach_the_speaker(
    samples: Seq<i16>,
    bytes: Vec<u8>,
    text: String,
    value: Json,
    data: Seq<char>,
)
    requires
        samples.len() > 0,
        bytes@ == bytes_of(samples, ByteOrder::Little),
        parsed(text@) == Some(value),
        value.at("type"@) == Json::Text("chunk"@),
        value.at("data"@) == Json::Text(data),
        bytes_in(data) == Some(bytes@),
    ensures
        action_on(SpeakEvent::Binary(bytes)) == SpeakActionView::Play(samples),
        action_on(SpeakEvent::Text(text)) == SpeakActionView::Play(samples),
{
    law_samples_survive_bytes(samples, ByteOrder::Little);
}

/// Messages that cannot be made out, and those of no account, are waited out.
pub proof fn law_noise_is_waited_out(text: String)
    requires
        parsed(text@) is None,
    ensures
        action_on(SpeakEvent::Text(text)) is Wait,
        action_on(SpeakEvent::Other) is Wait,
{
}

} // verus!
