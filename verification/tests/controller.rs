use interjections::config::Config;
use interjections::controller::{Controller, Effect, State};
use interjections::cues::CueType;
use interjections::local_asr::{AsrResult, AsrSource};

fn partial(text: &str) -> AsrResult {
    AsrResult { text: text.to_string(), is_final: false, source: AsrSource::Partial }
}

fn closing(text: &str) -> AsrResult {
    AsrResult { text: text.to_string(), is_final: true, source: AsrSource::Final }
}

fn state(name: &str) -> Effect {
    Effect::State(name.to_string())
}

fn transcript(text: &str, kind: &str) -> Effect {
    Effect::Transcript { text: text.to_string(), kind: kind.to_string() }
}

fn submission(text: &str) -> Vec<Effect> {
    vec![
        state("thinking"),
        transcript(text, "submit"),
        Effect::Log(format!("submitting: {}", text)),
    ]
}

#[test]
fn a_final_result_is_submitted() {
    let mut controller = Controller::new(Config::default(), true, false);
    assert_eq!(controller.on_asr_result(partial("open the")), vec![transcript("open the", "partial")]);
    assert_eq!(controller.on_asr_result(closing(" open the lexer ")), submission("open the lexer"));
    assert_eq!(controller.state(), State::Thinking);
    assert_eq!(controller.on_response_complete(), vec![state("idle")]);
    assert_eq!(controller.state(), State::Idle);
    assert_eq!(controller.on_asr_result(closing("next")), submission("next"));
}

#[test]
fn a_blank_result_submits_nothing() {
    let mut controller = Controller::new(Config::default(), true, false);
    assert_eq!(controller.on_asr_result(closing("  ")), vec![state("thinking"), state("idle")]);
    assert_eq!(controller.state(), State::Idle);
}

#[test]
fn the_answer_is_waited_for() {
    let mut controller = Controller::new(Config::default(), true, false);
    assert_eq!(controller.on_response_complete(), vec![]);
    controller.on_asr_result(closing("first"));
    assert_eq!(controller.on_vad(false, true), vec![]);
    assert_eq!(controller.on_asr_result(closing("second")), vec![]);
    assert_eq!(controller.state(), State::Thinking);
    assert_eq!(controller.on_asr_result(partial("wait")), vec![transcript("wait", "partial")]);
    assert_eq!(controller.on_asr_result(closing("third")), vec![]);
    let mut effects = vec![state("idle")];
    effects.extend(submission("second third"));
    assert_eq!(controller.on_response_complete(), effects);
    assert_eq!(controller.state(), State::Thinking);
    assert_eq!(controller.on_response_complete(), vec![state("idle")]);
    assert_eq!(controller.state(), State::Idle);
    assert_eq!(controller.on_response_complete(), vec![]);
}

#[test]
fn a_listener_hands_on_what_was_said_meanwhile() {
    let mut controller = Controller::new(Config::default(), true, true);
    controller.on_asr_result(closing("first"));
    controller.on_speech_end();
    controller.on_asr_result(closing("second"));
    assert_eq!(controller.on_response_complete(), vec![state("idle")]);
    assert_eq!(controller.state(), State::Idle);
    assert_eq!(controller.on_speech_end(), submission("second"));
}

#[test]
fn without_a_page_nobody_is_waited_for() {
    let mut controller = Controller::new(Config::default(), false, false);
    controller.on_asr_result(closing("first"));
    assert_eq!(controller.state(), State::Thinking);
    controller.settle();
    assert_eq!(controller.state(), State::Idle);
    let mut with_page = Controller::new(Config::default(), true, false);
    with_page.on_asr_result(closing("first"));
    with_page.settle();
    assert_eq!(with_page.state(), State::Thinking);
}

#[test]
fn results_that_can_be_counted_are_taken_in() {
    let mut controller = Controller::new(Config::default(), true, false);
    assert_eq!(controller.try_asr_result(closing("hello")), Some(submission("hello")));
}

#[test]
fn only_cues_cut_into_an_answer() {
    let mut controller = Controller::new(Config::default(), true, true);
    controller.on_asr_result(closing("hello"));
    assert_eq!(controller.on_speech_end(), submission("hello"));
    for text in ["mm-hm", "yeah wait", "go on", "wait", "let me rephrase"] {
        assert_eq!(controller.on_asr_result(partial(text)), vec![transcript(text, "partial")]);
    }
    assert_eq!(controller.on_asr_result(closing("stop")), vec![Effect::SegmentFinalized]);
    assert_eq!(controller.state(), State::Thinking);
    assert_eq!(controller.on_speech_end(), submission("stop"));
}

#[test]
fn with_a_listener_results_only_collect() {
    let mut controller = Controller::new(Config::default(), true, true);
    assert_eq!(controller.on_asr_result(closing("open the")), vec![Effect::SegmentFinalized]);
    assert_eq!(controller.on_asr_result(closing("lexer")), vec![Effect::SegmentFinalized]);
    assert_eq!(controller.on_asr_result(closing("")), vec![Effect::SegmentFinalized]);
    assert_eq!(controller.on_speech_end(), submission("open the lexer"));
    assert_eq!(controller.on_speech_end(), vec![state("thinking"), state("idle")]);
}

#[test]
fn speech_wakes_an_idle_controller() {
    let mut controller = Controller::new(Config::default(), true, false);
    assert_eq!(controller.on_vad(false, false), vec![]);
    assert_eq!(controller.state(), State::Idle);
    assert_eq!(controller.on_vad(false, true), vec![state("user")]);
    assert_eq!(controller.state(), State::User);
    assert_eq!(controller.on_vad(true, true), vec![]);
    assert_eq!(controller.on_vad(true, false), vec![]);
    assert_eq!(controller.on_vad(false, true), vec![]);
    assert_eq!(controller.state(), State::User);
}

#[test]
fn cues_outside_of_an_answer_do_not_collect() {
    let mut controller = Controller::new(Config::default(), true, true);
    controller.on_asr_result(partial("wait"));
    assert_eq!(controller.on_speech_end(), vec![state("thinking"), state("idle")]);
}

#[test]
fn without_a_page_there_are_no_messages() {
    let mut controller = Controller::new(Config::default(), false, false);
    assert_eq!(controller.on_vad(false, true), vec![]);
    assert_eq!(controller.on_asr_result(partial("x")), vec![]);
    assert_eq!(controller.on_asr_result(closing("x")), vec![]);
    assert_eq!(controller.broadcast_state(State::Thinking), vec![]);
    assert_eq!(controller.state(), State::Thinking);
    assert_eq!(controller.on_response_complete(), vec![]);
    assert_eq!(controller.state(), State::Idle);
}

#[test]
fn states_have_names() {
    let controller = Controller::new(Config::default(), true, false);
    assert_eq!(controller.broadcast_state(State::Idle), vec![state("idle")]);
    assert_eq!(controller.broadcast_state(State::User), vec![state("user")]);
    assert_eq!(controller.broadcast_state(State::Gating), vec![state("gating")]);
    assert_eq!(controller.broadcast_state(State::Thinking), vec![state("thinking")]);
}

#[test]
fn a_result_may_come_with_its_cue_and_time() {
    let mut controller = Controller::new(Config::default(), true, true);
    assert!(controller.has_room());
    let effects = controller.on_asr_result_at(closing("hello"), CueType::Continue, 3);
    assert_eq!(effects, vec![Effect::SegmentFinalized]);
    assert_eq!(controller.on_speech_end(), submission("hello"));
    assert_eq!(controller.config().web_port, 8765);
}
