use interjections::config::Config;
use interjections::tts::{
    build, pocket_action, CartesiaTts, Engine, PocketAction, PocketEvent, ServerMessage,
    SpeakAction, SpeakEvent,
};

fn text(message: &str) -> SpeakAction {
    CartesiaTts::on_event(&SpeakEvent::Text(message.to_string()))
}

#[test]
fn the_settings_name_the_engine() {
    let mut config = Config::default();
    assert_eq!(build(&config), Ok(Engine::Pocket));
    config.tts_engine = "cartesia".to_string();
    assert_eq!(build(&config), Ok(Engine::Cartesia));
}

#[test]
fn an_unknown_engine_is_an_error() {
    let mut config = Config::default();
    config.tts_engine = "robot".to_string();
    assert_eq!(
        build(&config),
        Err("unknown tts_engine 'robot' (expected 'pocket' or 'cartesia')".to_string())
    );
}

#[test]
fn the_address_carries_the_key() {
    let mut config = Config::default();
    config.cartesia_api_key = "abc".to_string();
    assert_eq!(
        CartesiaTts::new(config).url(),
        "wss://api.cartesia.ai/tts/websocket?api_key=abc&cartesia_version=2026-03-01"
    );
}

#[test]
fn the_request_says_what_and_how() {
    let engine = CartesiaTts::new(Config::default());
    let request: serde_json::Value =
        serde_json::from_str(&engine.request_as("say \"hi\"\n", "ctx")).unwrap();
    assert_eq!(request.as_object().unwrap().len(), 7);
    assert_eq!(request["context_id"], "ctx");
    assert_eq!(request["model_id"], "sonic-3");
    assert_eq!(request["transcript"], "say \"hi\"\n");
    assert_eq!(request["voice"]["mode"], "id");
    assert_eq!(request["voice"]["id"], "1463a4e1-56a1-4b41-b257-728d56e93605");
    assert_eq!(request["output_format"]["container"], "raw");
    assert_eq!(request["output_format"]["encoding"], "pcm_s16le");
    assert_eq!(request["output_format"]["sample_rate"], 24000);
    assert_eq!(request["continue"], false);
    assert_eq!(request["add_timestamps"], false);
}

#[test]
fn each_request_has_an_identifier_of_its_own() {
    let engine = CartesiaTts::new(Config::default());
    let mut ids: Vec<String> = Vec::new();
    for _ in 0..20 {
        let request: serde_json::Value = serde_json::from_str(&engine.request("hi")).unwrap();
        ids.push(request["context_id"].as_str().unwrap().to_string());
    }
    for id in &ids {
        let list: Vec<char> = id.chars().collect();
        assert_eq!(list.len(), 36);
        for (i, c) in list.iter().enumerate() {
            if [8, 13, 18, 23].contains(&i) {
                assert_eq!(*c, '-');
            } else {
                assert!(c.is_ascii_digit() || ('a'..='f').contains(c));
            }
        }
        assert_eq!(list[14], '4');
        assert!(['8', '9', 'a', 'b'].contains(&list[19]));
    }
    ids.sort();
    ids.dedup();
    assert_eq!(ids.len(), 20);
}

#[test]
fn chunks_are_played() {
    assert_eq!(text(r#"{"type":"chunk","data":"AQD//w=="}"#), SpeakAction::Play(vec![1, -1]));
    assert_eq!(text(r#"{"type":"chunk","data":"AQD//wc="}"#), SpeakAction::Play(vec![1, -1]));
    assert_eq!(
        CartesiaTts::on_event(&SpeakEvent::Binary(vec![0, 0x80])),
        SpeakAction::Play(vec![-32768])
    );
}

#[test]
fn chunks_that_cannot_be_made_out_are_passed_over() {
    assert_eq!(text(r#"{"type":"chunk","data":"***"}"#), SpeakAction::Wait);
    assert_eq!(text(r#"{"type":"chunk","data":""}"#), SpeakAction::Wait);
    assert_eq!(text(r#"{"type":"chunk","data":7}"#), SpeakAction::Wait);
    assert_eq!(text(r#"{"type":"chunk"}"#), SpeakAction::Wait);
    assert_eq!(text("not json"), SpeakAction::Wait);
    assert_eq!(text(r#"{"type":"timestamps"}"#), SpeakAction::Wait);
    assert_eq!(text(r#"{"data":"AQA="}"#), SpeakAction::Wait);
    assert_eq!(CartesiaTts::on_event(&SpeakEvent::Binary(vec![1])), SpeakAction::Wait);
    assert_eq!(CartesiaTts::on_event(&SpeakEvent::Other), SpeakAction::Wait);
}

#[test]
fn speech_ends() {
    assert_eq!(text(r#"{"type":"done"}"#), SpeakAction::Finish);
    assert_eq!(text(r#"{"type":"error","message":"no"}"#), SpeakAction::Finish);
    assert_eq!(CartesiaTts::on_event(&SpeakEvent::Closed), SpeakAction::Finish);
    assert_eq!(CartesiaTts::on_event(&SpeakEvent::Failed), SpeakAction::Finish);
    assert_eq!(CartesiaTts::on_event(&SpeakEvent::Aborted), SpeakAction::Abort);
}

#[test]
fn messages_act_by_kind() {
    let chunk = ServerMessage { kind: "chunk".to_string(), audio: Some(vec![2, 0, 3, 0, 9]) };
    assert_eq!(chunk.action(), SpeakAction::Play(vec![2, 3]));
    let done = ServerMessage { kind: "done".to_string(), audio: Some(vec![2, 0]) };
    assert_eq!(done.action(), SpeakAction::Finish);
    let other = ServerMessage { kind: String::new(), audio: Some(vec![2, 0]) };
    assert_eq!(other.action(), SpeakAction::Wait);
}

#[test]
fn the_local_engine_always_finishes() {
    assert_eq!(pocket_action(PocketEvent::Chunk, false), PocketAction::Play);
    assert_eq!(pocket_action(PocketEvent::Chunk, true), PocketAction::Finish);
    assert_eq!(pocket_action(PocketEvent::Failed, false), PocketAction::Fail);
    assert_eq!(pocket_action(PocketEvent::Failed, true), PocketAction::Finish);
    assert_eq!(pocket_action(PocketEvent::Ended, false), PocketAction::Finish);
    assert_eq!(pocket_action(PocketEvent::Ended, true), PocketAction::Finish);
}
