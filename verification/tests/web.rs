use interjections::config::Config;
use interjections::pcm::ByteOrder;
use interjections::web::{
    auth_header, cert_path, events_url, goes_back, goes_on, inject_widget, insert_widget, is_html,
    key_path, request_headers, response_headers, session_in, target_url, Header, SocketAction,
    SocketEvent, VoiceSocket,
};
use interjections::widget::VOICE_WIDGET;

fn header(name: &str, value: &str) -> Header {
    Header { name: name.to_string(), value: value.as_bytes().to_vec() }
}

fn message(action: &SocketAction) -> serde_json::Value {
    match action {
        SocketAction::SendText(text) | SocketAction::SendTextAndListen(text) => {
            serde_json::from_str(text).unwrap()
        }
        _ => panic!("no text"),
    }
}

fn transcript(text: &str, kind: &str) -> SocketEvent {
    SocketEvent::Transcript { text: text.to_string(), kind: kind.to_string() }
}

#[test]
fn the_widget_comes_before_the_end_of_the_body() {
    assert_eq!(
        insert_widget("<html><body>x</body></html>", "<w>"),
        "<html><body>x<w></body></html>"
    );
    assert_eq!(
        insert_widget("<pre></body></pre><p></body>\n", "<w>"),
        "<pre></body></pre><p><w></body>\n"
    );
}

#[test]
fn pages_without_a_body_get_the_widget_too() {
    assert_eq!(insert_widget("<html>x</html>\n", "<w>"), "<html>x <w> </html>");
    assert_eq!(insert_widget("x", "<w>"), "x <w>");
    assert_eq!(insert_widget("", "<w>"), " <w>");
    assert_eq!(insert_widget("</BODY>", "<w>"), "</BODY> <w>");
}

#[test]
fn the_voice_widget_is_put_in() {
    let page = inject_widget("<body>\u{e9}</body>");
    assert_eq!(page, format!("<body>\u{e9}{}</body>", VOICE_WIDGET));
    assert!(VOICE_WIDGET.starts_with("<div id=\"ij-voice-widget\""));
    assert!(VOICE_WIDGET.ends_with("</script>"));
}

#[test]
fn html_is_told_by_type_and_success() {
    assert!(is_html(Some("text/html; charset=utf-8"), true));
    assert!(!is_html(Some("text/html"), false));
    assert!(!is_html(Some("application/json"), true));
    assert!(!is_html(Some("TEXT/HTML"), true));
    assert!(!is_html(None, true));
}

#[test]
fn requests_go_on_with_credentials() {
    let headers = vec![
        header("Host", "here"),
        header("accept", "*/*"),
        header("Content-Length", "3"),
        header("ACCEPT-ENCODING", "gzip"),
        header("content-encoding", "br"),
        header("cookie", "a=b"),
        header("authorization", "Bearer x"),
    ];
    assert_eq!(
        request_headers(&headers, "Basic abc"),
        vec![
            header("accept", "*/*"),
            header("cookie", "a=b"),
            header("authorization", "Bearer x"),
            header("Authorization", "Basic abc"),
        ]
    );
    assert_eq!(request_headers(&vec![], "k"), vec![header("Authorization", "k")]);
}

#[test]
fn responses_come_back_without_their_coding() {
    let headers = vec![
        header("Content-Type", "text/css"),
        header("Transfer-Encoding", "chunked"),
        header("content-length", "9"),
        header("content-encoding", "gzip"),
        header("host", "there"),
    ];
    assert_eq!(
        response_headers(&headers),
        vec![header("Content-Type", "text/css"), header("host", "there")]
    );
}

#[test]
fn header_names_decide() {
    for name in ["host", "content-length", "content-encoding", "accept-encoding"] {
        assert!(!goes_on(name));
    }
    assert!(goes_on("transfer-encoding"));
    for name in ["content-encoding", "transfer-encoding", "content-length"] {
        assert!(!goes_back(name));
    }
    assert!(goes_back("accept-encoding"));
}

#[test]
fn credentials_are_encoded() {
    let mut config = Config::default();
    assert_eq!(auth_header(&config), "Basic Og==");
    config.opencode_username = "opencode".to_string();
    config.opencode_password = "p\u{e4}ss".to_string();
    assert_eq!(auth_header(&config), "Basic b3BlbmNvZGU6cMOkc3M=");
}

#[test]
fn addresses_are_put_together() {
    assert_eq!(
        target_url("http://127.0.0.1:4096", "/a/b", Some("x=1&y")),
        "http://127.0.0.1:4096/a/b?x=1&y"
    );
    assert_eq!(target_url("http://127.0.0.1:4096", "/", None), "http://127.0.0.1:4096/");
    assert_eq!(events_url("http://127.0.0.1:4096"), "http://127.0.0.1:4096/global/event");
    assert_eq!(cert_path(None), "certs/cert.pem");
    assert_eq!(key_path(None), "certs/key.pem");
    assert_eq!(cert_path(Some("c".to_string())), "c");
    assert_eq!(key_path(Some("k".to_string())), "k");
}

#[test]
fn the_query_names_the_session() {
    assert_eq!(session_in(Some("session=abc")), "abc");
    assert_eq!(session_in(Some("a=1&session=x=y&session=z")), "x=y");
    assert_eq!(session_in(Some("mysession=abc&")), "");
    assert_eq!(session_in(Some("session=&session=z")), "");
    assert_eq!(session_in(Some("")), "");
    assert_eq!(session_in(None), "");
}

#[test]
fn what_the_microphone_hears_is_taken_in() {
    let socket = VoiceSocket::with_order("s".to_string(), ByteOrder::Little);
    assert_eq!(
        socket.on_event(&SocketEvent::Binary(vec![1, 0, 0xff, 0xff, 5])),
        SocketAction::Hear(vec![1, -1])
    );
    assert_eq!(socket.on_event(&SocketEvent::Binary(vec![5])), SocketAction::Wait);
    assert_eq!(socket.on_event(&SocketEvent::Binary(vec![])), SocketAction::Wait);
    assert_eq!(socket.on_event(&SocketEvent::Other), SocketAction::Wait);
    assert_eq!(socket.on_event(&SocketEvent::Closed), SocketAction::Stop);
}

#[test]
fn audio_is_heard_as_sent() {
    let socket = VoiceSocket::new("s".to_string());
    let samples: Vec<i16> = vec![0, 1, -1, 256, i16::MIN, i16::MAX];
    let sent = match socket.on_event(&SocketEvent::Audio(samples.clone())) {
        SocketAction::SendBinary(bytes) => bytes,
        _ => panic!("no bytes"),
    };
    let expected: Vec<u8> = samples.iter().flat_map(|s| s.to_ne_bytes()).collect();
    assert_eq!(sent, expected);
    assert_eq!(socket.on_event(&SocketEvent::Binary(sent)), SocketAction::Hear(samples));
}

#[test]
fn messages_for_the_page_are_json() {
    let socket = VoiceSocket::new("s".to_string());
    let state = message(&socket.on_event(&SocketEvent::State("idle".to_string())));
    assert_eq!(state.as_object().unwrap().len(), 2);
    assert_eq!(state["type"], "state");
    assert_eq!(state["state"], "idle");
    let log = message(&socket.on_event(&SocketEvent::Log("a \"b\"\n".to_string())));
    assert_eq!(log["type"], "log");
    assert_eq!(log["text"], "a \"b\"\n");
    let partial = socket.on_event(&transcript("hel", "partial"));
    assert!(matches!(partial, SocketAction::SendText(_)));
    assert_eq!(message(&partial)["type"], "partial");
    assert_eq!(message(&partial)["text"], "hel");
}

#[test]
fn submissions_are_listened_for() {
    let socket = VoiceSocket::new("s".to_string());
    assert_eq!(socket.session(), "s");
    let submit = socket.on_event(&transcript("hello", "submit"));
    assert!(matches!(submit, SocketAction::SendTextAndListen(_)));
    assert_eq!(message(&submit)["type"], "submit");
    assert_eq!(message(&submit)["text"], "hello");
    let nowhere = VoiceSocket::new(String::new());
    assert!(matches!(
        nowhere.on_event(&transcript("hello", "submit")),
        SocketAction::SendText(_)
    ));
}
