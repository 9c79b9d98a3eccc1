//! The way between the browser, the assistant's server and the voice layer.

use crate::base64_text;
use crate::base64_text::{base64_of, bytes_in};
use crate::config::Config;
use crate::json;
use crate::json::{contents, parsed, Json};
use crate::pcm::{
    bytes_of, decode_samples, encode_samples, law_samples_survive_bytes, native_order, samples_of,
    ByteOrder,
};
use crate::text::{
    between, chars, contains, holds, last_position, law_parts_stand_between,
    law_split_at_separators, lemma_rfind, lowercase, lowercased, lowers_ascii, occurs_at, pieces,
    rfind, same, split, stands_at, starts_with,
};
use crate::widget::VOICE_WIDGET;
use vstd::endian::endianness;
use vstd::prelude::*;
use vstd::utf8::encode_utf8;

verus! {

broadcast use vstd::string::group_string_axioms;

/// What a name and a password spell together.
pub open spec fn credentials(config: Config) -> Seq<char> {
    config.opencode_username@ + ":"@ + config.opencode_password@
}

/// The header value that tells the assistant's server who asks.
pub fn auth_header(config: &Config) -> (value: String)
    requires
        encode_utf8(credentials(*config)).len() <= isize::MAX / 2,
    ensures
        value@ == "Basic "@ + base64_of(encode_utf8(credentials(*config))),
        value@ == "Basic "@ + base64_of(
            encode_utf8(config.opencode_username@ + ":"@ + config.opencode_password@),
        ),
        bytes_in(base64_of(encode_utf8(credentials(*config)))) == Some(
            encode_utf8(credentials(*config)),
        ),
{
    let mut text = config.opencode_username.clone();
    text.append(":");
    text.append(&config.opencode_password);
    let mut value = "Basic ".to_owned();
    value.append(&base64_text::encode(text.as_str().as_bytes()));
    value
}

/// Where the certificate lies, unless it is set.
pub fn cert_path(setting: Option<String>) -> (path: String)
    ensures
        path@ == match setting {
            Some(path) => path@,
            None => "certs/cert.pem"@,
        },
{
    match setting {
        Some(path) => path,
        None => "certs/cert.pem".to_owned(),
    }
}

/// Where the certificate's key lies, unless it is set.
pub fn key_path(setting: Option<String>) -> (path: String)
    ensures
        path@ == match setting {
            Some(path) => path@,
            None => "certs/key.pem"@,
        },
{
    match setting {
        Some(path) => path,
        None => "certs/key.pem".to_owned(),
    }
}

/// Where a request goes on to.
pub open spec fn target(base: Seq<char>, path: Seq<char>, query: Option<Seq<char>>) -> Seq<char> {
    base + path + match query {
        Some(query) => "?"@ + query,
        None => Seq::empty(),
    }
}

/// Where a request for this path and query goes on to.
pub fn target_url(base: &str, path: &str, query: Option<&str>) -> (url: String)
    ensures
        url@ == target(
            base@,
            path@,
            match query {
                Some(query) => Some(query@),
                None => None,
            },
        ),
        query is None ==> url@ == base@ + path@,
        query matches Some(query) ==> url@ == base@ + path@ + "?"@ + query@,
{
    let mut url = base.to_owned();
    url.append(path);
    if let Some(query) = query {
        url.append("?");
        url.append(query);
    }
    proof {
        assert(base@ + path@ + Seq::<char>::empty() =~= base@ + path@);
        if let Some(query) = query {
            assert(base@ + path@ + ("?"@ + query@) =~= base@ + path@ + "?"@ + query@);
        }
    }
    url
}

/// Where the assistant's server tells what happens.
pub fn events_url(base: &str) -> (url: String)
    ensures
        url@ == base@ + "/global/event"@,
{
    let mut url = base.to_owned();
    url.append("/global/event");
    url
}

/// A header of a request or a response.
#[derive(Debug, Clone, PartialEq, Eq)]
pub struct Header {
    pub name: String,
    pub value: Vec<u8>,
}

/// A header as its name and bytes.
pub struct HeaderView {
    pub name: Seq<char>,
    pub value: Seq<u8>,
}

impl View for Header {
    type V = HeaderView;

    open spec fn view(&self) -> HeaderView {
        HeaderView { name: self.name@, value: self.value@ }
    }
}

/// What these headers say.
pub open spec fn header_views(headers: Seq<Header>) -> Seq<HeaderView> {
    headers.map_values(|header: Header| header@)
}

/// Whether a header with this name, in lower case, goes on to the assistant's server.
pub open spec fn asks_on(name: Seq<char>) -> bool {
    &&& name != "host"@
    &&& name != "content-length"@
    &&& name != "content-encoding"@
    &&& name != "accept-encoding"@
}

/// Whether a header with this name, in lower case, goes back to the browser.
pub open spec fn answers_on(name: Seq<char>) -> bool {
    &&& name != "content-encoding"@
    &&& name != "transfer-encoding"@
    &&& name != "content-length"@
}

/// Whether a header with this name, in lower case, goes on to the assistant's server.
pub fn goes_on(name: &str) -> (passes: bool)
    ensures
        passes == asks_on(name@),
{
    !same(name, "host") && !same(name, "content-length") && !same(name, "content-encoding")
        && !same(name, "accept-encoding")
}

/// Whether a header with this name, in lower case, goes back to the browser.
pub fn goes_back(name: &str) -> (passes: bool)
    ensures
        passes == answers_on(name@),
{
    !same(name, "content-encoding") && !same(name, "transfer-encoding") && !same(
        name,
        "content-length",
    )
}

fn copy_header(header: &Header) -> (copy: Header)
    ensures
        copy@ == header@,
{
    Header { name: header.name.clone(), value: header.value.clone() }
}

/// The headers of a request as the assistant's server gets them: without those that the
/// way changes, and with one that tells who asks.
pub fn request_headers(headers: &Vec<Header>, authorization: &str) -> (kept: Vec<Header>)
    ensures
        header_views(kept@) == header_views(headers@).filter(
            |header: HeaderView| asks_on(lowercase(header.name)),
        ).push(HeaderView { name: "Authorization"@, value: encode_utf8(authorization@) }),
        forall|i: int| 0 <= i < headers.len() ==> lowers_ascii(#[trigger] headers@[i].name@),
        header_views(kept@) == header_views(headers@).filter(
            |header: HeaderView|
                lowercase(header.name) != "host"@ && lowercase(header.name) != "content-length"@
                    && lowercase(header.name) != "content-encoding"@ && lowercase(header.name)
                    != "accept-encoding"@,
        ).push(HeaderView { name: "Authorization"@, value: encode_utf8(authorization@) }),
{
    let ghost keep = |header: HeaderView| asks_on(lowercase(header.name));
    let ghost all = header_views(headers@);
    let mut kept: Vec<Header> = Vec::new();
    proof {
        reveal(Seq::filter);
        assert(all.take(0).filter(keep) =~= Seq::empty());
    }
    for i in 0..headers.len()
        invariant
            all == header_views(headers@),
            keep == (|header: HeaderView| asks_on(lowercase(header.name))),
            header_views(kept@) == all.take(i as int).filter(keep),
            forall|k: int| 0 <= k < i ==> lowers_ascii(#[trigger] headers@[k].name@),
    {
        let ghost before = kept@;
        proof {
            reveal(Seq::filter);
            assert(all.take(i + 1).drop_last() =~= all.take(i as int));
        }
        if goes_on(&lowercased(&headers[i].name)) {
            kept.push(copy_header(&headers[i]));
            proof {
                assert(header_views(kept@) =~= header_views(before).push(all[i as int]));
            }
        }
    }
    let ghost before = kept@;
    let authorization_header = Header {
        name: "Authorization".to_owned(),
        value: authorization.as_bytes_vec(),
    };
    let ghost last = authorization_header@;
    kept.push(authorization_header);
    proof {
        assert(all.take(headers.len() as int) =~= all);
        assert(header_views(kept@) =~= header_views(before).push(last));
        assert(keep =~= (|header: HeaderView|
            lowercase(header.name) != "host"@ && lowercase(header.name) != "content-length"@
                && lowercase(header.name) != "content-encoding"@ && lowercase(header.name)
                != "accept-encoding"@));
    }
    kept
}

/// The headers of a response as the browser gets them: without those that the way changes.
pub fn response_headers(headers: &Vec<Header>) -> (kept: Vec<Header>)
    ensures
        header_views(kept@) == header_views(headers@).filter(
            |header: HeaderView| answers_on(lowercase(header.name)),
        ),
        forall|i: int| 0 <= i < headers.len() ==> lowers_ascii(#[trigger] headers@[i].name@),
        header_views(kept@) == header_views(headers@).filter(
            |header: HeaderView|
                lowercase(header.name) != "content-encoding"@ && lowercase(header.name)
                    != "transfer-encoding"@ && lowercase(header.name) != "content-length"@,
        ),
{
    let ghost keep = |header: HeaderView| answers_on(lowercase(header.name));
    let ghost all = header_views(headers@);
    let mut kept: Vec<Header> = Vec::new();
    proof {
        reveal(Seq::filter);
        assert(all.take(0).filter(keep) =~= Seq::empty());
    }
    for i in 0..headers.len()
        invariant
            all == header_views(headers@),
            keep == (|header: HeaderView| answers_on(lowercase(header.name))),
            header_views(kept@) == all.take(i as int).filter(keep),
            forall|k: int| 0 <= k < i ==> lowers_ascii(#[trigger] headers@[k].name@),
    {
        let ghost before = kept@;
        proof {
            reveal(Seq::filter);
            assert(all.take(i + 1).drop_last() =~= all.take(i as int));
        }
        if goes_back(&lowercased(&headers[i].name)) {
            kept.push(copy_header(&headers[i]));
            proof {
                assert(header_views(kept@) =~= header_views(before).push(all[i as int]));
            }
        }
    }
    proof {
        assert(all.take(headers.len() as int) =~= all);
        assert(keep =~= (|header: HeaderView|
            lowercase(header.name) != "content-encoding"@ && lowercase(header.name)
                != "transfer-encoding"@ && lowercase(header.name) != "content-length"@));
    }
    kept
}

/// Whether a response is a page that the widget goes into.
pub fn is_html(content_type: Option<&str>, success: bool) -> (html: bool)
    ensures
        html == (success && match content_type {
            Some(content_type) => contains(content_type@, "text/html"@),
            None => false,
        }),
{
    match content_type {
        Some(content_type) => success && holds(&chars(content_type), &chars("text/html")),
        None => false,
    }
}

/// A page with the widget in it: before the end of its body; in a page without one, before
/// the end of the page; else after everything.
pub open spec fn page_with(html: Seq<char>, widget: Seq<char>) -> Seq<char> {
    match rfind(html, "</body>"@) {
        Some(end) => html.take(end) + widget + html.skip(end),
        None => match rfind(html, "</html>"@) {
            Some(end) => html.take(end) + " "@ + widget + " </html>"@,
            None => html + " "@ + widget,
        },
    }
}

/// Puts a widget into a page.
pub fn insert_widget(html: &str, widget: &str) -> (page: String)
    ensures
        page@ == page_with(html@, widget@),
{
    let list = chars(html);
    match last_position(&list, &chars("</body>")) {
        Some(end) => {
            let mut page = between(&list, 0, end);
            page.append(widget);
            page.append(&between(&list, end, list.len()));
            proof {
                assert(list@.subrange(0, end as int) =~= html@.take(end as int));
                assert(list@.subrange(end as int, list@.len() as int) =~= html@.skip(end as int));
            }
            page
        },
        None => match last_position(&list, &chars("</html>")) {
            Some(end) => {
                let mut page = between(&list, 0, end);
                page.append(" ");
                page.append(widget);
                page.append(" </html>");
                proof {
                    assert(list@.subrange(0, end as int) =~= html@.take(end as int));
                }
                page
            },
            None => {
                let mut page = html.to_owned();
                page.append(" ");
                page.append(widget);
                page
            },
        },
    }
}

/// Puts the voice widget into a page.
pub fn inject_widget(html: &str) -> (page: String)
    ensures
        page@ == page_with(html@, VOICE_WIDGET@),
{
    insert_widget(html, VOICE_WIDGET)
}

/// What the first of these pieces that names a session names.
pub open spec fn session_named(pieces: Seq<Seq<char>>) -> Seq<char>
    decreases pieces.len(),
{
    if pieces.len() == 0 {
        Seq::empty()
    } else if starts_with(pieces.first(), "session="@) {
        pieces.first().skip(8)
    } else {
        session_named(pieces.drop_first())
    }
}

/// The session that a query names; nothing where it names none.
pub fn session_in(query: Option<&str>) -> (session: String)
    ensures
        session@ == match query {
            Some(query) => session_named(split(query@, '&')),
            None => Seq::empty(),
        },
{
    let text = match query {
        Some(text) => text,
        None => {
            return String::new();
        },
    };
    let parts = pieces(&chars(text), '&');
    let prefix = chars("session=");
    proof {
        reveal_strlit("session=");
    }
    let ghost views = parts@.map_values(|part: Vec<char>| part@);
    proof {
        assert(views.skip(0) =~= views);
    }
    for i in 0..parts.len()
        invariant
            views == parts@.map_values(|part: Vec<char>| part@),
            query == Some(text),
            views == split(text@, '&'),
            prefix@ == "session="@,
            prefix@.len() == 8,
            session_named(views) == session_named(views.skip(i as int)),
    {
        let part = &parts[i];
        proof {
            assert(views.skip(i as int).first() == part@);
            assert(views.skip(i as int).drop_first() =~= views.skip(i + 1));
        }
        if stands_at(part, &prefix, 0) {
            let session = between(part, 8, part.len());
            proof {
                assert(session@ =~= part@.skip(8));
            }
            return session;
        }
    }
    String::new()
}

/// Something that happens at an open connection to a page.
#[derive(Debug, Clone, PartialEq, Eq)]
pub enum SocketEvent {
    /// The page sends bytes.
    Binary(Vec<u8>),
    /// The page closes the connection, or it is gone.
    Closed,
    /// Speech is to be played.
    Audio(Vec<i16>),
    /// The state has this name now.
    State(String),
    /// A text was heard, of this kind.
    Transcript { text: String, kind: String },
    /// A line for the log.
    Log(String),
    /// Anything else.
    Other,
}

/// What to do about it.
#[derive(Debug, Clone, PartialEq, Eq)]
pub enum SocketAction {
    /// Take in what the microphone heard.
    Hear(Vec<i16>),
    /// Leave the connection.
    Stop,
    /// Send the page bytes.
    SendBinary(Vec<u8>),
    /// Send the page a text.
    SendText(String),
    /// Send the page a text. Once it is sent, listen for the answer in the session.
    SendTextAndListen(String),
    Wait,
}

/// An action as what it carries; a text as the JSON that it spells.
pub enum SocketActionView {
    Hear(Seq<i16>),
    Stop,
    SendBinary(Seq<u8>),
    SendText(Option<Json>),
    SendTextAndListen(Option<Json>),
    Wait,
}

impl View for SocketAction {
    type V = SocketActionView;

    open spec fn view(&self) -> SocketActionView {
        match *self {
            SocketAction::Hear(samples) => SocketActionView::Hear(samples@),
            SocketAction::Stop => SocketActionView::Stop,
            SocketAction::SendBinary(bytes) => SocketActionView::SendBinary(bytes@),
            SocketAction::SendText(text) => SocketActionView::SendText(parsed(text@)),
            SocketAction::SendTextAndListen(text) => SocketActionView::SendTextAndListen(
                parsed(text@),
            ),
            SocketAction::Wait => SocketActionView::Wait,
        }
    }
}

/// A message for the page: its type, and one more member.
pub open spec fn page_message(kind: Seq<char>, key: Seq<char>, text: Seq<char>) -> Json {
    Json::Object(Map::empty().insert("type"@, Json::Text(kind)).insert(key, Json::Text(text)))
}

/// What to do about an event, in this session and with samples in this byte order.
pub open spec fn socket_action(
    session: Seq<char>,
    order: ByteOrder,
    event: SocketEvent,
) -> SocketActionView {
    match event {
        SocketEvent::Binary(bytes) => if samples_of(bytes@, order).len() > 0 {
            SocketActionView::Hear(samples_of(bytes@, order))
        } else {
            SocketActionView::Wait
        },
        SocketEvent::Closed => SocketActionView::Stop,
        SocketEvent::Audio(samples) => SocketActionView::SendBinary(bytes_of(samples@, order)),
        SocketEvent::State(name) => SocketActionView::SendText(
            Some(page_message("state"@, "state"@, name@)),
        ),
        SocketEvent::Transcript { text, kind } => {
            let message = Some(page_message(kind@, "text"@, text@));
            if kind@ == "submit"@ && session.len() > 0 {
                SocketActionView::SendTextAndListen(message)
            } else {
                SocketActionView::SendText(message)
            }
        },
        SocketEvent::Log(line) => SocketActionView::SendText(
            Some(page_message("log"@, "text"@, line@)),
        ),
        SocketEvent::Other => SocketActionView::Wait,
    }
}

fn write_message(kind: &str, key: &str, text: &str) -> (message: String)
    ensures
        parsed(message@) == Some(page_message(kind@, key@, text@)),
{
    let mut body = json::object();
    json::set(&mut body, "type", json::string(kind));
    json::set(&mut body, key, json::string(text));
    proof {
        reveal_with_fuel(Json::nested_at_most, 3);
        assert(contents(body).nested_at_most(16));
    }
    json::render(&body)
}

/// An open connection to a page.
pub struct VoiceSocket {
    session: String,
    order: ByteOrder,
}

impl VoiceSocket {
    /// The session that the page shows.
    pub closed spec fn named(self) -> Seq<char> {
        self.session@
    }

    /// The order of the bytes of a sample.
    pub closed spec fn byte_order(self) -> ByteOrder {
        self.order
    }

    /// A connection to a page that shows this session, in the machine's byte order.
    pub fn new(session: String) -> (socket: Self)
        ensures
            socket.named() == session@,
            socket.byte_order() is Little <==> endianness() is Little,
    {
        Self::with_order(session, native_order())
    }

    /// A connection to a page that shows this session, in this byte order.
    pub fn with_order(session: String, order: ByteOrder) -> (socket: Self)
        ensures
            socket.named() == session@,
            socket.byte_order() == order,
    {
        VoiceSocket { session, order }
    }

    /// The session that the page shows.
    pub fn session(&self) -> (session: &str)
        ensures
            session@ == self.named(),
    {
        &self.session
    }

    /// What to do about an event.
    pub fn on_event(&self, event: &SocketEvent) -> (action: SocketAction)
        ensures
            action@ == socket_action(self.named(), self.byte_order(), *event),
    {
        match event {
            SocketEvent::Binary(bytes) => {
                let samples = decode_samples(bytes, self.order);
                if samples.len() > 0 {
                    SocketAction::Hear(samples)
                } else {
                    SocketAction::Wait
                }
            },
            SocketEvent::Closed => SocketAction::Stop,
            SocketEvent::Audio(samples) => SocketAction::SendBinary(
                encode_samples(samples, self.order),
            ),
            SocketEvent::State(name) => SocketAction::SendText(
                write_message("state", "state", name),
            ),
            SocketEvent::Transcript { text, kind } => {
                let message = write_message(kind, "text", text);
                if same(kind, "submit") && self.session.as_str().unicode_len() > 0 {
                    SocketAction::SendTextAndListen(message)
                } else {
                    SocketAction::SendText(message)
                }
            },
            SocketEvent::Log(line) => SocketAction::SendText(write_message("log", "text", line)),
            SocketEvent::Other => SocketAction::Wait,
        }
    }
}

/// In a page with a body the widget stands right before the last end of a body, and the
/// page round it stays as it was.
pub proof fn law_widget_comes_before_the_end_of_the_body(
    html: Seq<char>,
    widget: Seq<char>,
    end: int,
)
    requires
        rfind(html, "</body>"@) == Some(end),
    ensures
        occurs_at(html, "</body>"@, end),
        occurs_at(page_with(html, widget), widget, end),
        occurs_at(page_with(html, widget), "</body>"@, end + widget.len()),
        page_with(html, widget).take(end) == html.take(end),
        page_with(html, widget).skip(end + widget.len()) == html.skip(end),
{
    let tag = "</body>"@;
    lemma_rfind(html, tag, html.len() - tag.len());
    let page = page_with(html, widget);
    assert(page.subrange(end, end + widget.len()) =~= widget);
    assert(page.subrange(end + widget.len(), end + widget.len() + tag.len()) =~= html.subrange(
        end,
        end + tag.len(),
    ));
    assert(page.take(end) =~= html.take(end));
    assert(page.skip(end + widget.len()) =~= html.skip(end));
}

/// Every page gets the widget.
pub proof fn law_every_page_gets_the_widget(html: Seq<char>, widget: Seq<char>)
    ensures
        contains(page_with(html, widget), widget),
{
    let page = page_with(html, widget);
    match rfind(html, "</body>"@) {
        Some(end) => {
            law_widget_comes_before_the_end_of_the_body(html, widget, end);
        },
        None => match rfind(html, "</html>"@) {
            Some(end) => {
                lemma_rfind(html, "</html>"@, html.len() - "</html>"@.len());
                let start = end + " "@.len();
                assert(page.subrange(start, start + widget.len()) =~= widget);
                assert(occurs_at(page, widget, start));
            },
            None => {
                let start: int = html.len() as int + " "@.len();
                assert(page.subrange(start, start + widget.len()) =~= widget);
                assert(occurs_at(page, widget, start));
            },
        },
    }
}

proof fn lemma_filtered(
    headers: Seq<HeaderView>,
    keep: spec_fn(HeaderView) -> bool,
    header: HeaderView,
)
    ensures
        headers.filter(keep).contains(header) <==> headers.contains(header) && keep(header),
    decreases headers.len(),
{
    reveal(Seq::filter);
    if headers.len() > 0 {
        let before = headers.drop_last();
        let last = headers.last();
        lemma_filtered(before, keep, header);
        assert(headers =~= before.push(last));
        lemma_pushed(before, last, header);
        lemma_pushed(before.filter(keep), last, header);
    }
}

proof fn lemma_pushed(headers: Seq<HeaderView>, last: HeaderView, header: HeaderView)
    ensures
        headers.push(last).contains(header) <==> headers.contains(header) || header == last,
{
    let longer = headers.push(last);
    if headers.contains(header) {
        let i = choose|i: int| 0 <= i < headers.len() && headers[i] == header;
        assert(longer[i] == header);
    }
    assert(longer[headers.len() as int] == last);
}

/// No header that the way changes goes on, in whatever case its name is written, and every
/// other header does.
pub proof fn law_headers_on_the_way(headers: Seq<HeaderView>, header: HeaderView)
    ensures
        headers.filter(|header: HeaderView| asks_on(lowercase(header.name))).contains(header) <==> (
        headers.contains(header) && asks_on(lowercase(header.name))),
        headers.filter(|header: HeaderView| answers_on(lowercase(header.name))).contains(header)
            <==> (headers.contains(header) && answers_on(lowercase(header.name))),
{
    lemma_filtered(headers, |header: HeaderView| asks_on(lowercase(header.name)), header);
    lemma_filtered(headers, |header: HeaderView| answers_on(lowercase(header.name)), header);
}

/// What one end sends as audio the other end hears, sample by sample.
pub proof fn law_audio_is_heard_as_sent(
    session: Seq<char>,
    order: ByteOrder,
    samples: Vec<i16>,
    bytes: Vec<u8>,
)
    requires
        samples@.len() > 0,
        socket_action(session, order, SocketEvent::Audio(samples)) == (
        SocketActionView::SendBinary(bytes@)),
    ensures
        socket_action(session, order, SocketEvent::Binary(bytes)) == (SocketActionView::Hear(
            samples@,
        )),
{
    law_samples_survive_bytes(samples@, order);
}

/// An answer is listened for only after a text was submitted, and only where the page
/// shows a session.
pub proof fn law_answers_follow_submissions(
    session: Seq<char>,
    order: ByteOrder,
    event: SocketEvent,
)
    ensures
        socket_action(session, order, event) is SendTextAndListen <==> session.len() > 0 && (
        event matches SocketEvent::Transcript { text, kind } && kind@ == "submit"@),
{
}

/// Only four headers of a request are held back, whatever the case of their letters: where it
/// goes, how long it is, and how it is or may be coded. Every other header is among those that
/// go on.
pub proof fn law_requests_keep_their_headers(headers: Seq<HeaderView>, header: HeaderView)
    requires
        headers.contains(header),
    ensures
        ({
            let name = lowercase(header.name);
            let held_back = name == "host"@ || name == "content-length"@ || name
                == "content-encoding"@ || name == "accept-encoding"@;
            headers.filter(|header: HeaderView| asks_on(lowercase(header.name))).contains(header)
                <==> !held_back
        }),
{
    law_headers_on_the_way(headers, header);
}

/// Only three headers of a response are held back, whatever the case of their letters: how it
/// is coded, how it was sent, and how long it is. Every other header is among those that go
/// back.
pub proof fn law_responses_keep_their_headers(headers: Seq<HeaderView>, header: HeaderView)
    requires
        headers.contains(header),
    ensures
        ({
            let name = lowercase(header.name);
            let held_back = name == "content-encoding"@ || name == "transfer-encoding"@ || name
                == "content-length"@;
            headers.filter(|header: HeaderView| answers_on(lowercase(header.name))).contains(
                header,
            ) <==> !held_back
        }),
{
    law_headers_on_the_way(headers, header);
}

/// Headers keep their order and their number on the way: two lists one after the other pass as
/// each of them does, and a single header passes whole or not at all.
pub proof fn law_headers_pass_one_by_one(
    first: Seq<HeaderView>,
    second: Seq<HeaderView>,
    header: HeaderView,
)
    ensures
        ({
            let asks = |header: HeaderView| asks_on(lowercase(header.name));
            let answers = |header: HeaderView| answers_on(lowercase(header.name));
            &&& (first + second).filter(asks) == first.filter(asks) + second.filter(asks)
            &&& (first + second).filter(answers) == first.filter(answers) + second.filter(answers)
            &&& seq![header].filter(asks) == seq![header] || seq![header].filter(asks).len() == 0
            &&& seq![header].filter(answers) == seq![header] || seq![header].filter(answers).len()
                == 0
        }),
{
    let asks = |header: HeaderView| asks_on(lowercase(header.name));
    let answers = |header: HeaderView| answers_on(lowercase(header.name));
    Seq::filter_distributes_over_add(first, second, asks);
    Seq::filter_distributes_over_add(first, second, answers);
    reveal_with_fuel(Seq::filter, 2);
    assert(seq![header].drop_last() =~= Seq::empty());
    assert(Seq::<HeaderView>::empty().push(header) =~= seq![header]);
}

/// A page keeps its text. In a page with a body the widget goes between what stands before the
/// last end of a body and that end; in a page with an end but no body it comes after what
/// stands before the last end, and a new end after it; and in any other page it comes last.
pub proof fn law_pages_keep_their_text(before: Seq<char>, after: Seq<char>, widget: Seq<char>)
    ensures
        !contains("</body>"@.drop_first() + after, "</body>"@) ==> page_with(
            before + "</body>"@ + after,
            widget,
        ) == before + widget + "</body>"@ + after,
        !contains("</html>"@.drop_first() + after, "</html>"@) && !contains(
            before + "</html>"@ + after,
            "</body>"@,
        ) ==> page_with(before + "</html>"@ + after, widget) == before + " "@ + widget
            + " </html>"@,
        !contains(before, "</body>"@) && !contains(before, "</html>"@) ==> page_with(before, widget)
            == before + " "@ + widget,
{
    reveal_strlit("</body>");
    reveal_strlit("</html>");
    if !contains("</body>"@.drop_first() + after, "</body>"@) {
        let html = before + "</body>"@ + after;
        lemma_last_part(before, "</body>"@, after);
        assert(html.take(before.len() as int) =~= before);
        assert(html.skip(before.len() as int) =~= "</body>"@ + after);
        assert(page_with(html, widget) =~= before + widget + "</body>"@ + after);
    }
    if !contains("</html>"@.drop_first() + after, "</html>"@) && !contains(
        before + "</html>"@ + after,
        "</body>"@,
    ) {
        let html = before + "</html>"@ + after;
        lemma_last_part(before, "</html>"@, after);
        lemma_no_part(html, "</body>"@);
        assert(html.take(before.len() as int) =~= before);
    }
    if !contains(before, "</body>"@) && !contains(before, "</html>"@) {
        lemma_no_part(before, "</body>"@);
        lemma_no_part(before, "</html>"@);
    }
}

proof fn lemma_no_part(text: Seq<char>, part: Seq<char>)
    requires
        !contains(text, part),
    ensures
        rfind(text, part) is None,
{
    lemma_rfind(text, part, text.len() - part.len());
    if let Some(i) = rfind(text, part) {
        assert(occurs_at(text, part, i));
    }
}

/// The last place of a part is the one that none follows.
proof fn lemma_last_part(before: Seq<char>, part: Seq<char>, after: Seq<char>)
    requires
        part.len() > 0,
        !contains(part.drop_first() + after, part),
    ensures
        rfind(before + part + after, part) == Some(before.len() as int),
{
    let text = before + part + after;
    let at = before.len() as int;
    law_parts_stand_between(before, part, after);
    lemma_rfind(text, part, text.len() - part.len());
    if let Some(i) = rfind(text, part) {
        if i > at {
            let rest = part.drop_first() + after;
            assert(rest.subrange(i - at - 1, i - at - 1 + part.len()) =~= text.subrange(
                i,
                i + part.len(),
            ));
            assert(occurs_at(rest, part, i - at - 1));
        }
    }
}

/// The session of a query is what its first part of that name says: parts before it that name
/// something else are passed over, parts after it do not count, and without such a part there
/// is none.
pub proof fn law_first_session_counts(part: Seq<char>, rest: Seq<char>, id: Seq<char>)
    requires
        !part.contains('&'),
    ensures
        part == "session="@ + id ==> session_named(split(part.push('&') + rest, '&')) == id,
        part == "session="@ + id ==> session_named(split(part, '&')) == id,
        !starts_with(part, "session="@) ==> session_named(split(part.push('&') + rest, '&'))
            == session_named(split(rest, '&')),
        !starts_with(part, "session="@) ==> session_named(split(part, '&')).len() == 0,
{
    reveal_strlit("session=");
    law_split_at_separators(part, '&', rest);
    let pieces = split(rest, '&');
    let all = seq![part] + pieces;
    assert(all.first() == part);
    assert(all.drop_first() =~= pieces);
    assert(seq![part].drop_first() =~= Seq::empty());
    assert(session_named(Seq::empty()).len() == 0);
    if part == "session="@ + id {
        law_parts_stand_between(Seq::empty(), "session="@, id);
        assert(part.skip(8) =~= id);
    }
}

/// Every message for the page reads back with the type it was sent as and the text it was sent
/// with, whatever they are, and has no third member.
pub proof fn law_messages_carry_their_texts(
    session: Seq<char>,
    order: ByteOrder,
    name: String,
    text: String,
    kind: String,
)
    ensures
        ({
            let state = socket_action(session, order, SocketEvent::State(name));
            let log = socket_action(session, order, SocketEvent::Log(text));
            let transcript = socket_action(session, order, SocketEvent::Transcript { text, kind });
            let sent = match transcript {
                SocketActionView::SendText(message) => message,
                SocketActionView::SendTextAndListen(message) => message,
                _ => None,
            };
            &&& state matches SocketActionView::SendText(Some(message)) && message.at("type"@)
                == Json::Text("state"@) && message.at("state"@) == Json::Text(name@)
            &&& log matches SocketActionView::SendText(Some(message)) && message.at("type"@)
                == Json::Text("log"@) && message.at("text"@) == Json::Text(text@)
            &&& sent matches Some(message) && message.at("type"@) == Json::Text(kind@)
                && message.at("text"@) == Json::Text(text@) && (message matches Json::Object(
                members,
            ) && members.dom() == set!["type"@, "text"@])
        }),
{
    reveal_strlit("type");
    reveal_strlit("state");
    reveal_strlit("text");
    assert("type"@.len() == 4 && "state"@.len() == 5 && "text"@.len() == 4);
    assert("type"@[1] == 'y' && "text"@[1] == 'e');
    let message = page_message(kind@, "text"@, text@);
    assert(message->Object_0.dom() =~= set!["type"@, "text"@]);
}

/// Bytes from the page are heard if and only if they hold a sample, all whole samples of them;
/// the connection is left if and only if the page leaves it; and nothing else keeps the page
/// from being served.
pub proof fn law_connections_last(session: Seq<char>, order: ByteOrder, event: SocketEvent)
    ensures
        socket_action(session, order, event) is Stop <==> event is Closed,
        event matches SocketEvent::Binary(bytes) ==> (socket_action(session, order, event) is Hear
            <==> bytes@.len() >= 2),
        event matches SocketEvent::Binary(bytes) ==> (bytes@.len() >= 2 ==> socket_action(
            session,
            order,
            event,
        ) == SocketActionView::Hear(samples_of(bytes@, order))),
        event matches SocketEvent::Audio(samples) ==> (socket_action(session, order, event) matches
            SocketActionView::SendBinary(bytes) && bytes.len() == 2 * samples@.len()),
        socket_action(session, order, event) is Wait ==> event is Binary || event is Other,
{
}

} // verus!
