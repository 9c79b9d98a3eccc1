use interjections::config::Config;
use interjections::gate::{
    build_request, find_json, parse_verdict, CommandAction, Gate, GateLoop, GateOutcome, GateReply,
    LoopAction, Verdict, GATE_SYSTEM_PROMPT,
};

#[test]
fn incomplete_hold_true() {
    assert_eq!(
        parse_verdict(r#"{"status":"incomplete","hold":true}"#),
        Verdict::Incomplete { hold: true }
    );
}

#[test]
fn incomplete_hold_false() {
    assert_eq!(
        parse_verdict(r#"{"status":"incomplete","hold":false}"#),
        Verdict::Incomplete { hold: false }
    );
}

#[test]
fn incomplete_missing_hold_defaults_false() {
    assert_eq!(
        parse_verdict(r#"{"status":"incomplete"}"#),
        Verdict::Incomplete { hold: false }
    );
}

#[test]
fn prompt_status() {
    assert_eq!(parse_verdict(r#"{"status":"prompt"}"#), Verdict::Prompt);
}

#[test]
fn command_with_target() {
    assert_eq!(
        parse_verdict(
            r#"{"status":"command","command":{"action":"open_file","target":"auth.rs"}}"#
        ),
        Verdict::Command { action: CommandAction::OpenFile, target: Some("auth.rs".into()) }
    );
}

#[test]
fn command_targetless() {
    assert_eq!(
        parse_verdict(
            r#"{"status":"command","command":{"action":"new_session","target":null}}"#
        ),
        Verdict::Command { action: CommandAction::NewSession, target: None }
    );
}

#[test]
fn command_missing_required_target_fails_open() {
    assert_eq!(
        parse_verdict(r#"{"status":"command","command":{"action":"open_file","target":null}}"#),
        Verdict::Prompt
    );
}

#[test]
fn json_in_code_fences_is_tolerated() {
    assert_eq!(parse_verdict("```json\n{\"status\":\"prompt\"}\n```"), Verdict::Prompt);
}

#[test]
fn fenced_verdicts_are_read() {
    assert_eq!(
        parse_verdict("Sure:\n```json\n{\"status\":\"incomplete\",\"hold\":true}\n```\nDone."),
        Verdict::Incomplete { hold: true }
    );
}

#[test]
fn malformed_json_fails_open_to_prompt() {
    assert_eq!(parse_verdict("not json at all"), Verdict::Prompt);
    assert_eq!(parse_verdict(""), Verdict::Prompt);
    assert_eq!(parse_verdict(r#"{"status":"banana"}"#), Verdict::Prompt);
}

#[test]
fn commands_that_do_not_fit_fail_open() {
    for reply in [
        r#"{"status":"command"}"#,
        r#"{"status":"command","command":{"action":"dance","target":"x"}}"#,
        r#"{"status":"command","command":{"action":"new_session","target":"x"}}"#,
        r#"{"status":"command","command":{"action":"open_file","target":"  \t "}}"#,
        r#"{"status":"incomplete","hold":true"#,
        r#"} {"#,
    ] {
        assert_eq!(parse_verdict(reply), Verdict::Prompt, "{reply}");
    }
}

#[test]
fn command_targets_are_trimmed() {
    assert_eq!(
        parse_verdict(
            r#"{"status":"command","command":{"action":"run_command","target":" compact session\n"}}"#
        ),
        Verdict::Command {
            action: CommandAction::RunCommand,
            target: Some("compact session".into())
        }
    );
    assert_eq!(
        parse_verdict(r#"{"status":"command","command":{"action":"cycle_variant","target":" "}}"#),
        Verdict::Command { action: CommandAction::CycleVariant, target: None }
    );
}

#[test]
fn replies_state_verdicts() {
    let reply = GateReply {
        status: Some("command".into()),
        hold: Some(true),
        action: Some("switch_model".into()),
        target: Some("\u{3000}Large Model ".into()),
    };
    assert_eq!(
        reply.verdict(),
        Verdict::Command {
            action: CommandAction::SwitchModel,
            target: Some("Large Model".into())
        }
    );
    let reply = GateReply { status: None, hold: Some(true), action: None, target: None };
    assert_eq!(reply.verdict(), Verdict::Prompt);
}

#[test]
fn action_names() {
    let names = [
        ("new_session", CommandAction::NewSession, true),
        ("open_file", CommandAction::OpenFile, false),
        ("switch_model", CommandAction::SwitchModel, false),
        ("switch_project", CommandAction::SwitchProject, false),
        ("switch_session", CommandAction::SwitchSession, false),
        ("cycle_variant", CommandAction::CycleVariant, true),
        ("run_command", CommandAction::RunCommand, false),
    ];
    for (name, action, targetless) in names {
        assert_eq!(CommandAction::from_str(name), Some(action));
        assert_eq!(action.targetless(), targetless);
    }
    assert_eq!(CommandAction::from_str("New_Session"), None);
}

#[test]
fn json_spans() {
    assert_eq!(find_json("a{b}c}d"), Some("{b}c}".to_string()));
    assert_eq!(find_json("}{"), None);
    assert_eq!(find_json("{"), None);
    assert_eq!(find_json("é{}ü"), Some("{}".to_string()));
}

#[test]
fn build_request_shape() {
    let r = build_request("gpt-oss-120b", "open the lexer", "low");
    assert_eq!(r["model"], "gpt-oss-120b");
    assert_eq!(r["temperature"], 0);
    assert_eq!(r["response_format"]["type"], "json_object");
    assert_eq!(r["reasoning_effort"], "low");
    assert_eq!(r["messages"][0]["role"], "system");
    assert_eq!(r["messages"][1]["role"], "user");
    assert_eq!(r["messages"][1]["content"], "open the lexer");
}

#[test]
fn build_request_respects_reasoning_effort() {
    let r = build_request("qwen3.5:4b", "hi", "none");
    assert_eq!(r["reasoning_effort"], "none");
}

#[test]
fn build_request_carries_the_prompt_and_the_limit() {
    let r = build_request("m", "t", "none");
    assert_eq!(r["messages"][0]["content"], GATE_SYSTEM_PROMPT);
    assert_eq!(r["max_tokens"], 512);
    assert_eq!(r["messages"].as_array().unwrap().len(), 2);
    assert_eq!(r.as_object().unwrap().len(), 6);
    assert!(GATE_SYSTEM_PROMPT.starts_with("You are a fast gate between"));
    assert!(GATE_SYSTEM_PROMPT.ends_with("a preface is a promise of more."));
}

#[test]
fn gate_asks_as_configured() {
    let mut config = Config::default();
    config.gate_api_key = Some("key".into());
    config.gate_timeout_ms = 2000;
    let request = Gate::new(&config).request("hello");
    assert_eq!(request.endpoint, "http://localhost:11434/v1/chat/completions");
    assert_eq!(request.bearer, Some("key".to_string()));
    assert_eq!(request.timeout_ms, 2000);
    assert_eq!(request.body["model"], "qwen3.5:4b");
    assert_eq!(request.body["messages"][1]["content"], "hello");
    assert_eq!(request.body["reasoning_effort"], "none");
}

#[test]
fn gate_concludes_from_a_chat_completion() {
    let body = r#"{"choices":[{"message":{"content":"{\"status\":\"incomplete\",\"hold\":true}"}}]}"#;
    assert_eq!(
        Gate::conclude(&GateOutcome::Replied(body.as_bytes().to_vec())),
        Verdict::Incomplete { hold: true }
    );
}

#[test]
fn gate_fails_open() {
    assert_eq!(Gate::conclude(&GateOutcome::Failed), Verdict::Prompt);
    assert_eq!(Gate::conclude(&GateOutcome::TimedOut), Verdict::Prompt);
    for body in ["", "oops", "{}", r#"{"choices":[]}"#, r#"{"choices":{"0":1}}"#] {
        assert_eq!(
            Gate::conclude(&GateOutcome::Replied(body.as_bytes().to_vec())),
            Verdict::Prompt
        );
    }
}

#[test]
fn prompt_commits() {
    let mut gl = GateLoop::new(3);
    assert_eq!(gl.next_action(&Verdict::Prompt), LoopAction::Commit);
}

#[test]
fn command_commits() {
    let mut gl = GateLoop::new(3);
    let v = Verdict::Command { action: CommandAction::NewSession, target: None };
    assert_eq!(gl.next_action(&v), LoopAction::Commit);
}

#[test]
fn hold_true_waits_indefinitely_and_does_not_advance_counter() {
    let mut gl = GateLoop::new(3);
    for _ in 0..10 {
        assert_eq!(
            gl.next_action(&Verdict::Incomplete { hold: true }),
            LoopAction::HoldIndefinite
        );
    }
}

#[test]
fn hold_false_arms_fallback_then_force_commits_at_cap() {
    let mut gl = GateLoop::new(3);
    let f = Verdict::Incomplete { hold: false };
    assert_eq!(gl.next_action(&f), LoopAction::ArmFallback);
    assert_eq!(gl.next_action(&f), LoopAction::ArmFallback);
    assert_eq!(gl.next_action(&f), LoopAction::Commit);
}

#[test]
fn reset_clears_the_recheck_counter() {
    let mut gl = GateLoop::new(3);
    let f = Verdict::Incomplete { hold: false };
    gl.next_action(&f);
    gl.next_action(&f);
    gl.reset();
    assert_eq!(gl.next_action(&f), LoopAction::ArmFallback);
}

#[test]
fn waiting_between_uncertain_verdicts_does_not_count() {
    let mut gl = GateLoop::new(2);
    let unsure = Verdict::Incomplete { hold: false };
    assert_eq!(gl.next_action(&unsure), LoopAction::ArmFallback);
    assert_eq!(gl.next_action(&Verdict::Incomplete { hold: true }), LoopAction::HoldIndefinite);
    assert_eq!(gl.next_action(&unsure), LoopAction::Commit);
}
