use interjections::sse::{data_in, ResponseListener, SessionEvent};

fn part(id: &str, kind: &str) -> String {
    format!(
        "data: {{\"payload\":{{\"type\":\"message.part.updated\",\"properties\":{{\"sessionID\":\"s\",\"part\":{{\"id\":\"{}\",\"type\":\"{}\"}}}}}}}}\n\n",
        id, kind
    )
}

fn delta(id: &str, text: &str) -> String {
    format!(
        "data: {{\"payload\":{{\"type\":\"message.part.delta\",\"properties\":{{\"sessionID\":\"s\",\"field\":\"text\",\"partID\":\"{}\",\"delta\":\"{}\"}}}}}}\n\n",
        id, text
    )
}

fn finish(role: &str) -> String {
    format!(
        "data: {{\"payload\":{{\"type\":\"message.updated\",\"properties\":{{\"sessionID\":\"s\",\"info\":{{\"role\":\"{}\",\"finish\":\"stop\"}}}}}}}}\n\n",
        role
    )
}

fn stream() -> String {
    [
        part("r", "reasoning"),
        delta("r", "hmm"),
        part("t", "text"),
        delta("t", "Hello"),
        delta("t", " world"),
        finish("user"),
        finish("assistant"),
    ]
    .concat()
}

fn listener() -> ResponseListener {
    ResponseListener::new("s".to_string())
}

#[test]
fn the_answer_is_put_together() {
    let mut listener = listener();
    assert_eq!(listener.on_bytes(stream().as_bytes()), Some("Hello world".to_string()));
    assert_eq!(listener.response(), "Hello world");
}

#[test]
fn pieces_of_the_stream_make_no_difference() {
    let whole = stream();
    for size in 1..40 {
        let mut listener = listener();
        let mut answers: Vec<String> = Vec::new();
        for piece in whole.as_bytes().chunks(size) {
            if let Some(answer) = listener.on_bytes(piece) {
                answers.push(answer);
            }
        }
        assert_eq!(answers, vec!["Hello world".to_string()]);
    }
}

#[test]
fn reasoning_is_not_spoken() {
    let mut listener = listener();
    let text = [part("r", "reasoning"), delta("r", "hmm"), finish("assistant")].concat();
    assert_eq!(listener.on_text(&text), None);
    assert_eq!(listener.response(), "");
}

#[test]
fn parts_that_were_not_announced_are_not_spoken() {
    let mut listener = listener();
    assert_eq!(listener.on_text(&[delta("t", "x"), finish("assistant")].concat()), None);
}

#[test]
fn blank_answers_are_waited_out() {
    let mut listener = listener();
    let blank = [part("t", "text"), delta("t", " "), finish("assistant")].concat();
    assert_eq!(listener.on_text(&blank), None);
    assert_eq!(
        listener.on_text(&[delta("t", "ok"), finish("assistant")].concat()),
        Some(" ok".to_string())
    );
}

#[test]
fn other_sessions_are_not_heard() {
    let mut listener = ResponseListener::new("other".to_string());
    assert_eq!(listener.on_text(&stream()), None);
    assert_eq!(listener.response(), "");
}

#[test]
fn events_without_a_payload_are_read() {
    let mut listener = listener();
    let text = "event: x\ndata: {\"type\":\"message.part.updated\",\n\
        data:  \"properties\":{\"sessionID\":\"s\",\"part\":{\"id\":\"t\",\"type\":\"text\"}}}\r\n\n";
    assert_eq!(listener.on_text(text), None);
    let rest = [delta("t", "hey"), finish("assistant")].concat();
    assert_eq!(listener.on_text(&rest), Some("hey".to_string()));
}

#[test]
fn blocks_that_cannot_be_made_out_are_passed_over() {
    let mut listener = listener();
    assert_eq!(listener.on_text(": keep-alive\n\ndata: {oops\n\nevent: x\n\n\n\n"), None);
    assert_eq!(listener.on_bytes(&[b'd', 0xff, 0xfe, b'\n', b'\n']), None);
    assert_eq!(listener.on_text(&stream()), Some("Hello world".to_string()));
}

#[test]
fn blocks_that_say_nothing_can_be_left_out() {
    let other = delta("t", "not this").replace("\"sessionID\":\"s\"", "\"sessionID\":\"x\"");
    let noisy = [
        ": hello\n\n".to_string(),
        part("t", "text"),
        other,
        "data: {\n\n".to_string(),
        delta("t", "a"),
        "\n\n".to_string(),
        delta("t", "b"),
        finish("assistant"),
        "data: the rest".to_string(),
    ]
    .concat();
    let quiet = [part("t", "text"), delta("t", "a"), delta("t", "b"), finish("assistant")].concat();
    for size in [1, 7, 1000] {
        let mut listener = listener();
        let answers: Vec<Option<String>> =
            noisy.as_bytes().chunks(size).map(|piece| listener.on_bytes(piece)).collect();
        assert_eq!(answers.into_iter().flatten().next(), Some("ab".to_string()));
    }
    assert_eq!(listener().on_text(&quiet), Some("ab".to_string()));
}

#[test]
fn bytes_beyond_ascii_are_read_as_utf8() {
    let mut listener = listener();
    let text = [part("t", "text"), delta("t", "h\u{e9} \u{1f3a4}"), finish("assistant")].concat();
    assert_eq!(listener.on_bytes(text.as_bytes()), Some("h\u{e9} \u{1f3a4}".to_string()));
}

#[test]
fn bytes_that_are_no_utf8_are_replaced() {
    let mut listener = listener();
    assert_eq!(listener.on_text(&part("t", "text")), None);
    let mut bytes = delta("t", "a#b").into_bytes();
    let at = bytes.iter().position(|&b| b == b'#').unwrap();
    bytes[at] = 0xff;
    assert_eq!(listener.on_bytes(&bytes), None);
    assert_eq!(listener.response(), "a\u{fffd}b");
}

#[test]
fn data_lines_are_trimmed_and_joined() {
    assert_eq!(data_in("data:  a b \nevent: c\ndata: d\r\ndata:e\n data: f"), "a bd");
    assert_eq!(data_in(""), "");
    assert_eq!(data_in("data: "), "");
}

#[test]
fn only_a_finished_message_of_the_assistant_completes() {
    let mut listener = listener();
    let announce = SessionEvent {
        session: "s".to_string(),
        kind: "message.part.updated".to_string(),
        part_id: Some("t".to_string()),
        part_type: Some("text".to_string()),
        ..SessionEvent::default()
    };
    assert!(!listener.on_event(&announce));
    let add = SessionEvent {
        session: "s".to_string(),
        kind: "message.part.delta".to_string(),
        field: Some("text".to_string()),
        delta_part: "t".to_string(),
        delta: Some("yes".to_string()),
        ..SessionEvent::default()
    };
    assert!(!listener.on_event(&add));
    let other_field = SessionEvent { field: Some("tool".to_string()), ..add.clone() };
    assert!(!listener.on_event(&other_field));
    assert_eq!(listener.response(), "yes");
    let done = SessionEvent {
        session: "s".to_string(),
        kind: "message.updated".to_string(),
        role: "assistant".to_string(),
        finished: true,
        ..SessionEvent::default()
    };
    assert!(!listener.on_event(&SessionEvent { finished: false, ..done.clone() }));
    assert!(!listener.on_event(&SessionEvent { role: "user".to_string(), ..done.clone() }));
    assert!(!listener.on_event(&SessionEvent { session: "x".to_string(), ..done.clone() }));
    assert!(listener.on_event(&done));
}
