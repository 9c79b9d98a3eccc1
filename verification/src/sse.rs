//! Following an assistant's answer in its stream of server-sent events.

use crate::json;
use crate::json::{contents, parsed, Json};
use crate::text::{
    between, chars, find, is_blank, law_parts_stand_between, law_split_at_separators, lemma_find,
    occurs_at, optional, pieces, position, same, split, stands_at, starts_with, trim, trimmed,
};
use serde_json::Value;
use vstd::hash_map::StringHashMap;
use vstd::prelude::*;
use vstd::utf8::{decode_utf8, valid_utf8};

verus! {

broadcast use vstd::string::group_string_axioms;

/// The text of bytes that may not be UTF-8: what is not UTF-8 in them is replaced.
pub uninterp spec fn lossy_text(bytes: Seq<u8>) -> Seq<char>;

/// `String::from_utf8_lossy`: the text that the bytes spell, with a replacement character
/// for what is no UTF-8 in them. Of bytes that are UTF-8 it is the text they encode.
#[verifier::external_body]
fn lossy(bytes: &[u8]) -> (text: String)
    ensures
        text@ == lossy_text(bytes@),
        valid_utf8(bytes@) ==> text@ == decode_utf8(bytes@),
{
    String::from_utf8_lossy(bytes).into_owned()
}

/// What one event says, as far as it matters.
#[derive(Debug, Clone, Default)]
pub struct SessionEvent {
    /// The session that the event belongs to.
    pub session: String,
    pub kind: String,
    /// The identifier and the type of the part that the event describes.
    pub part_id: Option<String>,
    pub part_type: Option<String>,
    /// The field that the event adds to, the part it belongs to, and what is added.
    pub field: Option<String>,
    pub delta_part: String,
    pub delta: Option<String>,
    /// Who wrote the message, and whether it is finished.
    pub role: String,
    pub finished: bool,
}

/// An event as its texts.
pub struct SessionEventView {
    pub session: Seq<char>,
    pub kind: Seq<char>,
    pub part_id: Option<Seq<char>>,
    pub part_type: Option<Seq<char>>,
    pub field: Option<Seq<char>>,
    pub delta_part: Seq<char>,
    pub delta: Option<Seq<char>>,
    pub role: Seq<char>,
    pub finished: bool,
}

impl View for SessionEvent {
    type V = SessionEventView;

    open spec fn view(&self) -> SessionEventView {
        SessionEventView {
            session: self.session@,
            kind: self.kind@,
            part_id: optional(self.part_id),
            part_type: optional(self.part_type),
            field: optional(self.field),
            delta_part: self.delta_part@,
            delta: optional(self.delta),
            role: self.role@,
            finished: self.finished,
        }
    }
}

/// The text of a string, or nothing for any other value.
pub open spec fn text_or_empty(value: Json) -> Seq<char> {
    match value.text() {
        Some(text) => text,
        None => Seq::empty(),
    }
}

/// The event in a JSON value, which may be wrapped in a `payload`.
pub open spec fn event_in(value: Json) -> SessionEventView {
    let event = if value.has("payload"@) {
        value.at("payload"@)
    } else {
        value
    };
    let properties = event.at("properties"@);
    SessionEventView {
        session: text_or_empty(properties.at("sessionID"@)),
        kind: text_or_empty(event.at("type"@)),
        part_id: properties.at("part"@).at("id"@).text(),
        part_type: properties.at("part"@).at("type"@).text(),
        field: properties.at("field"@).text(),
        delta_part: text_or_empty(properties.at("partID"@)),
        delta: properties.at("delta"@).text(),
        role: text_or_empty(properties.at("info"@).at("role"@)),
        finished: properties.at("info"@).at("finish"@).text() is Some,
    }
}

/// The data that a line of a block carries.
pub open spec fn line_data(line: Seq<char>) -> Seq<char> {
    if starts_with(line, "data: "@) {
        trim(line.skip(6))
    } else {
        Seq::empty()
    }
}

/// The data that these lines carry, one after the other.
pub open spec fn lines_data(lines: Seq<Seq<char>>) -> Seq<char>
    decreases lines.len(),
{
    if lines.len() == 0 {
        Seq::empty()
    } else {
        lines_data(lines.drop_last()) + line_data(lines.last())
    }
}

/// The data that a block of lines carries.
pub open spec fn block_data(block: Seq<char>) -> Seq<char> {
    lines_data(split(block, '\n'))
}

/// What has been heard of the answer so far.
#[verifier::ext_equal]
pub struct ListenerView {
    /// The session that is listened to.
    pub session: Seq<char>,
    /// What has come in after the last complete block.
    pub buffer: Seq<char>,
    /// The text of the answer.
    pub response: Seq<char>,
    /// The types of the parts, by their identifiers.
    pub parts: Map<Seq<char>, Seq<char>>,
}

impl ListenerView {
    /// The start: nothing has been heard.
    pub open spec fn initial(session: Seq<char>) -> ListenerView {
        ListenerView {
            session,
            buffer: Seq::empty(),
            response: Seq::empty(),
            parts: Map::empty(),
        }
    }

    /// Whether the event adds to a part of the answer that is text.
    pub open spec fn adds_text(self, event: SessionEventView) -> bool {
        &&& event.field == Some("text"@)
        &&& self.parts.contains_key(event.delta_part)
        &&& self.parts[event.delta_part] == "text"@
    }

    /// The state after an event.
    pub open spec fn after_event(self, event: SessionEventView) -> ListenerView {
        if event.session != self.session {
            self
        } else if event.kind == "message.part.updated"@ {
            match (event.part_id, event.part_type) {
                (Some(id), Some(kind)) => ListenerView {
                    parts: self.parts.insert(id, kind),
                    ..self
                },
                _ => self,
            }
        } else if event.kind == "message.part.delta"@ {
            match event.delta {
                Some(delta) if self.adds_text(event) => ListenerView {
                    response: self.response + delta,
                    ..self
                },
                _ => self,
            }
        } else {
            self
        }
    }

    /// Whether the event completes the answer: the assistant's message is finished, and
    /// there is something to say.
    pub open spec fn completes(self, event: SessionEventView) -> bool {
        &&& event.session == self.session
        &&& event.kind == "message.updated"@
        &&& event.role == "assistant"@
        &&& event.finished
        &&& !is_blank(self.response)
    }

    /// The state after a block of lines, and whether the block completes the answer.
    pub open spec fn after_block(self, block: Seq<char>) -> (ListenerView, bool) {
        let data = block_data(block);
        if data.len() == 0 {
            (self, false)
        } else {
            match parsed(data) {
                Some(value) => (
                    self.after_event(event_in(value)),
                    self.completes(event_in(value)),
                ),
                None => (self, false),
            }
        }
    }

    /// The state after the complete blocks in the buffer, up to the one that completes the
    /// answer, and whether there is such a one.
    pub open spec fn drained(self) -> (ListenerView, bool)
        decreases self.buffer.len(),
    {
        match find(self.buffer, "\n\n"@) {
            Some(end) => {
                proof {
                    lemma_block_end(self.buffer);
                }
                let rest = ListenerView { buffer: self.buffer.skip(end + 2), ..self };
                let (next, complete) = rest.after_block(self.buffer.take(end));
                if complete {
                    (next, true)
                } else {
                    next.drained()
                }
            },
            None => (self, false),
        }
    }

    /// The state with more text in the buffer.
    pub open spec fn extended(self, text: Seq<char>) -> ListenerView {
        ListenerView { buffer: self.buffer + text, ..self }
    }

    /// The state after a piece of the stream, and whether the answer is complete.
    pub open spec fn after_text(self, text: Seq<char>) -> (ListenerView, bool) {
        self.extended(text).drained()
    }
}

/// The first block in a buffer ends inside the buffer.
pub proof fn lemma_block_end(buffer: Seq<char>)
    ensures
        match find(buffer, "\n\n"@) {
            Some(end) => 0 <= end && end + 2 <= buffer.len(),
            None => true,
        },
{
    reveal_strlit("\n\n");
    lemma_find(buffer, "\n\n"@, 0);
}

/// The kinds of events that matter are told apart by their lengths.
proof fn lemma_kinds_differ()
    ensures
        "message.part.updated"@.len() == 20,
        "message.part.delta"@.len() == 18,
        "message.updated"@.len() == 15,
{
    reveal_strlit("message.part.updated");
    reveal_strlit("message.part.delta");
    reveal_strlit("message.updated");
}

/// The first block stays the first whatever comes after it.
proof fn lemma_first_block_stays(buffer: Seq<char>, more: Seq<char>)
    requires
        find(buffer, "\n\n"@) is Some,
    ensures
        find(buffer + more, "\n\n"@) == find(buffer, "\n\n"@),
{
    reveal_strlit("\n\n");
    let part = "\n\n"@;
    let whole = buffer + more;
    lemma_find(buffer, part, 0);
    lemma_find(whole, part, 0);
    let end = find(buffer, part)->0;
    assert(whole.subrange(end, end + 2) =~= buffer.subrange(end, end + 2));
    assert(occurs_at(whole, part, end));
    assert forall|j: int| 0 <= j < end implies !occurs_at(whole, part, j) by {
        assert(whole.subrange(j, j + 2) =~= buffer.subrange(j, j + 2));
        assert(!occurs_at(buffer, part, j));
    }
}

proof fn lemma_drained_extended(state: ListenerView, more: Seq<char>)
    ensures
        ({
            let (next, complete) = state.drained();
            state.extended(more).drained() == if complete {
                (next.extended(more), true)
            } else {
                next.extended(more).drained()
            }
        }),
    decreases state.buffer.len(),
{
    match find(state.buffer, "\n\n"@) {
        Some(end) => {
            lemma_block_end(state.buffer);
            lemma_first_block_stays(state.buffer, more);
            let whole = state.buffer + more;
            assert(whole.take(end) =~= state.buffer.take(end));
            assert(whole.skip(end + 2) =~= state.buffer.skip(end + 2) + more);
            let rest = ListenerView { buffer: state.buffer.skip(end + 2), ..state };
            let (next, complete) = rest.after_block(state.buffer.take(end));
            assert(rest.extended(more).after_block(state.buffer.take(end)) == (
                next.extended(more),
                complete,
            ));
            if !complete {
                lemma_drained_extended(next, more);
            }
        },
        None => {},
    }
}

/// Where the stream is cut into pieces makes no difference: two pieces one after the other
/// say what the same text says in one piece. Once an answer is complete, what follows
/// cannot change it.
pub proof fn law_pieces_of_the_stream(state: ListenerView, first: Seq<char>, second: Seq<char>)
    ensures
        ({
            let (next, complete) = state.after_text(first);
            let (whole, whole_complete) = state.after_text(first + second);
            if complete {
                whole_complete && whole == next.extended(second)
            } else {
                (whole, whole_complete) == next.after_text(second)
            }
        }),
{
    lemma_drained_extended(state.extended(first), second);
    assert(state.extended(first).extended(second) =~= state.extended(first + second));
}

/// Whether a text, with a blank line after it, is one block.
pub open spec fn is_block(text: Seq<char>) -> bool {
    find(text + "\n\n"@, "\n\n"@) == Some(text.len() as int)
}

/// Whether a block says nothing to a listener of the session: it has no data, its data is no
/// JSON, or the event belongs to another session.
pub open spec fn says_nothing(session: Seq<char>, block: Seq<char>) -> bool {
    let data = block_data(block);
    data.len() == 0 || match parsed(data) {
        Some(value) => event_in(value).session != session,
        None => true,
    }
}

/// The stream that these blocks make.
pub open spec fn stream_of(blocks: Seq<Seq<char>>) -> Seq<char>
    decreases blocks.len(),
{
    if blocks.len() == 0 {
        Seq::empty()
    } else {
        blocks.first() + "\n\n"@ + stream_of(blocks.drop_first())
    }
}

/// The text that these pieces make.
pub open spec fn together(pieces: Seq<Seq<char>>) -> Seq<char>
    decreases pieces.len(),
{
    if pieces.len() == 0 {
        Seq::empty()
    } else {
        pieces.first() + together(pieces.drop_first())
    }
}

impl ListenerView {
    /// The state after these blocks, up to the one that completes the answer, and whether
    /// there is such a one.
    pub open spec fn after_blocks(self, blocks: Seq<Seq<char>>) -> (ListenerView, bool)
        decreases blocks.len(),
    {
        if blocks.len() == 0 {
            (self, false)
        } else {
            let (next, complete) = self.after_block(blocks.first());
            if complete {
                (next, true)
            } else {
                next.after_blocks(blocks.drop_first())
            }
        }
    }

    /// The state after these pieces of the stream, up to the one that completes the answer,
    /// and whether there is such a one.
    pub open spec fn after_pieces(self, pieces: Seq<Seq<char>>) -> (ListenerView, bool)
        decreases pieces.len(),
    {
        if pieces.len() == 0 {
            (self, false)
        } else {
            let (next, complete) = self.after_text(pieces.first());
            if complete {
                (next, true)
            } else {
                next.after_pieces(pieces.drop_first())
            }
        }
    }
}

proof fn lemma_drained_is_done(state: ListenerView)
    ensures
        !state.drained().1 ==> find(state.drained().0.buffer, "\n\n"@) is None,
    decreases state.buffer.len(),
{
    match find(state.buffer, "\n\n"@) {
        Some(end) => {
            lemma_block_end(state.buffer);
            let rest = ListenerView { buffer: state.buffer.skip(end + 2), ..state };
            let (next, complete) = rest.after_block(state.buffer.take(end));
            if !complete {
                lemma_drained_is_done(next);
            }
        },
        None => {},
    }
}

proof fn lemma_after_pieces(state: ListenerView, pieces: Seq<Seq<char>>)
    requires
        find(state.buffer, "\n\n"@) is None,
    ensures
        ({
            let (next, complete) = state.after_pieces(pieces);
            let (whole, whole_complete) = state.after_text(together(pieces));
            complete == whole_complete && next.response == whole.response
        }),
    decreases pieces.len(),
{
    if pieces.len() > 0 {
        let first = pieces.first();
        let rest = together(pieces.drop_first());
        let (next, complete) = state.after_text(first);
        law_pieces_of_the_stream(state, first, rest);
        if !complete {
            lemma_drained_is_done(state.extended(first));
            lemma_after_pieces(next, pieces.drop_first());
        }
    } else {
        assert(state.extended(together(pieces)) =~= state);
    }
}

proof fn lemma_after_stream(state: ListenerView, blocks: Seq<Seq<char>>, rest: Seq<char>)
    requires
        state.buffer.len() == 0,
        forall|i: int| 0 <= i < blocks.len() ==> is_block(#[trigger] blocks[i]),
        find(rest, "\n\n"@) is None,
    ensures
        ({
            let (next, complete) = state.after_blocks(blocks);
            let (whole, whole_complete) = state.after_text(stream_of(blocks) + rest);
            complete == whole_complete && next.response == whole.response
        }),
    decreases blocks.len(),
{
    reveal_strlit("\n\n");
    if blocks.len() > 0 {
        let block = blocks.first();
        let others = blocks.drop_first();
        let more = stream_of(others) + rest;
        let text = stream_of(blocks) + rest;
        assert(is_block(blocks[0]));
        lemma_first_block_stays(block + "\n\n"@, more);
        assert(text =~= block + "\n\n"@ + more);
        assert(state.buffer + text =~= text);
        assert(text.take(block.len() as int) =~= block);
        assert(text.skip(block.len() as int + 2) =~= more);
        let (next, complete) = state.after_block(block);
        assert(ListenerView { buffer: more, ..state }.after_block(block) == (
            ListenerView { buffer: more, ..next },
            complete,
        ));
        if !complete {
            assert(next.buffer.len() == 0);
            assert(next.extended(more) =~= ListenerView { buffer: more, ..next });
            assert forall|i: int| 0 <= i < others.len() implies is_block(
                #[trigger] others[i],
            ) by {
                assert(others[i] == blocks[i + 1]);
            }
            lemma_after_stream(next, others, rest);
        }
    } else {
        assert(state.buffer + (stream_of(blocks) + rest) =~= rest);
    }
}

proof fn lemma_after_spoken_blocks(state: ListenerView, blocks: Seq<Seq<char>>)
    ensures
        state.after_blocks(blocks) == state.after_blocks(
            blocks.filter(|block: Seq<char>| !says_nothing(state.session, block)),
        ),
    decreases blocks.len(),
{
    let keep = |block: Seq<char>| !says_nothing(state.session, block);
    reveal(Seq::filter);
    if blocks.len() > 0 {
        let block = blocks.first();
        let others = blocks.drop_first();
        let head = seq![block];
        assert(blocks =~= head + others);
        Seq::filter_distributes_over_add(head, others, keep);
        assert(head.drop_last() =~= Seq::empty());
        assert(head.drop_last().filter(keep) =~= Seq::empty());
        let (next, complete) = state.after_block(block);
        assert(next.session == state.session);
        lemma_after_spoken_blocks(next, others);
        if keep(block) {
            assert(blocks.filter(keep) =~= head + others.filter(keep));
            assert(blocks.filter(keep).first() == block);
            assert(blocks.filter(keep).drop_first() =~= others.filter(keep));
        } else {
            assert(blocks.filter(keep) =~= others.filter(keep));
        }
    }
}

/// Two streams with the same blocks for the session say the same, wherever each is cut into
/// pieces: blocks without data, without JSON or of another session can be left out or put in,
/// and so can what follows the last block.
pub proof fn law_same_blocks_same_answer(
    state: ListenerView,
    pieces: Seq<Seq<char>>,
    blocks: Seq<Seq<char>>,
    rest: Seq<char>,
    other_pieces: Seq<Seq<char>>,
    other_blocks: Seq<Seq<char>>,
    other_rest: Seq<char>,
)
    requires
        state.buffer.len() == 0,
        forall|i: int| 0 <= i < blocks.len() ==> is_block(#[trigger] blocks[i]),
        forall|i: int| 0 <= i < other_blocks.len() ==> is_block(#[trigger] other_blocks[i]),
        find(rest, "\n\n"@) is None,
        find(other_rest, "\n\n"@) is None,
        together(pieces) == stream_of(blocks) + rest,
        together(other_pieces) == stream_of(other_blocks) + other_rest,
        blocks.filter(|block: Seq<char>| !says_nothing(state.session, block))
            == other_blocks.filter(|block: Seq<char>| !says_nothing(state.session, block)),
    ensures
        state.after_pieces(pieces).1 == state.after_pieces(other_pieces).1,
        state.after_pieces(pieces).0.response == state.after_pieces(other_pieces).0.response,
{
    lemma_block_end(state.buffer);
    lemma_after_pieces(state, pieces);
    lemma_after_pieces(state, other_pieces);
    lemma_after_stream(state, blocks, rest);
    lemma_after_stream(state, other_blocks, other_rest);
    lemma_after_spoken_blocks(state, blocks);
    lemma_after_spoken_blocks(state, other_blocks);
}

/// Nothing but text is spoken: an event adds to the answer only what it adds to a part
/// that is known to be text, in the session that is listened to.
pub proof fn law_only_text_is_spoken(state: ListenerView, event: SessionEventView)
    ensures
        state.after_event(event).response != state.response ==> event.session == state.session
            && state.adds_text(event) && event.delta is Some && state.after_event(event).response
            == state.response + event.delta->0,
        event.session != state.session ==> state.after_event(event) == state && !state.completes(
            event,
        ),
{
}

/// An answer is complete only once there is something to say.
pub proof fn law_answers_are_not_blank(state: ListenerView)
    ensures
        state.drained().1 ==> !is_blank(state.drained().0.response),
    decreases state.buffer.len(),
{
    match find(state.buffer, "\n\n"@) {
        Some(end) => {
            lemma_block_end(state.buffer);
            let rest = ListenerView { buffer: state.buffer.skip(end + 2), ..state };
            let (next, complete) = rest.after_block(state.buffer.take(end));
            if complete {
                lemma_kinds_differ();
            } else {
                law_answers_are_not_blank(next);
            }
        },
        None => {},
    }
}

fn owned_or_empty(value: &Value) -> (text: String)
    ensures
        text@ == text_or_empty(contents(*value)),
{
    match json::text_of(value) {
        Some(text) => text,
        None => String::new(),
    }
}

fn read_event(value: &Value) -> (event: SessionEvent)
    ensures
        event@ == event_in(contents(*value)),
{
    let event = match json::get(value, "payload") {
        Some(payload) => payload,
        None => value,
    };
    let properties = json::at(event, "properties");
    let part = json::at(properties, "part");
    let info = json::at(properties, "info");
    SessionEvent {
        session: owned_or_empty(json::at(properties, "sessionID")),
        kind: owned_or_empty(json::at(event, "type")),
        part_id: json::text_of(json::at(part, "id")),
        part_type: json::text_of(json::at(part, "type")),
        field: json::text_of(json::at(properties, "field")),
        delta_part: owned_or_empty(json::at(properties, "partID")),
        delta: json::text_of(json::at(properties, "delta")),
        role: owned_or_empty(json::at(info, "role")),
        finished: json::as_str(json::at(info, "finish")).is_some(),
    }
}

/// The data that a block of lines carries.
pub fn data_in(block: &str) -> (data: String)
    ensures
        data@ == block_data(block@),
{
    let lines = pieces(&chars(block), '\n');
    let prefix = chars("data: ");
    proof {
        reveal_strlit("data: ");
    }
    let ghost views = lines@.map_values(|line: Vec<char>| line@);
    let mut data = String::new();
    for i in 0..lines.len()
        invariant
            views == lines@.map_values(|line: Vec<char>| line@),
            prefix@ == "data: "@,
            prefix@.len() == 6,
            data@ == lines_data(views.take(i as int)),
    {
        let line = &lines[i];
        proof {
            assert(views.take(i + 1).drop_last() =~= views.take(i as int));
            assert(views.take(i + 1).last() == line@);
        }
        if stands_at(line, &prefix, 0) {
            let rest = between(line, 6, line.len());
            proof {
                assert(rest@ =~= line@.skip(6));
            }
            data.append(trimmed(&rest));
        }
    }
    proof {
        assert(views.take(lines.len() as int) =~= views);
    }
    data
}

/// Listens for one answer in one session.
pub struct ResponseListener {
    session: String,
    buffer: String,
    response: String,
    parts: StringHashMap<String>,
}

impl View for ResponseListener {
    type V = ListenerView;

    closed spec fn view(&self) -> ListenerView {
        ListenerView {
            session: self.session@,
            buffer: self.buffer@,
            response: self.response@,
            parts: self.parts@.map_values(|kind: String| kind@),
        }
    }
}

impl ResponseListener {
    /// A listener for the next answer in this session.
    pub fn new(session: String) -> (listener: Self)
        ensures
            listener@ == ListenerView::initial(session@),
    {
        let listener = ResponseListener {
            session,
            buffer: String::new(),
            response: String::new(),
            parts: StringHashMap::new(),
        };
        proof {
            assert(listener@.parts =~= Map::empty());
        }
        listener
    }

    /// The text of the answer so far.
    pub fn response(&self) -> (text: &str)
        ensures
            text@ == self@.response,
    {
        &self.response
    }

    /// Takes in an event, and tells whether it completes the answer.
    pub fn on_event(&mut self, event: &SessionEvent) -> (complete: bool)
        ensures
            final(self)@ == old(self)@.after_event(event@),
            complete == old(self)@.completes(event@),
    {
        proof {
            lemma_kinds_differ();
        }
        if !same(&event.session, &self.session) {
            return false;
        }
        if same(&event.kind, "message.part.updated") {
            if let (Some(id), Some(kind)) = (&event.part_id, &event.part_type) {
                let ghost parts = self@.parts;
                self.parts.insert(id.clone(), kind.clone());
                proof {
                    assert(self@.parts =~= parts.insert(id@, kind@));
                }
            }
            false
        } else if same(&event.kind, "message.part.delta") {
            let text_field = match &event.field {
                Some(field) => same(field, "text"),
                None => false,
            };
            let text_part = match self.parts.get(&event.delta_part) {
                Some(kind) => same(kind, "text"),
                None => false,
            };
            if text_field && text_part {
                if let Some(delta) = &event.delta {
                    self.response.append(delta);
                }
            }
            false
        } else if same(&event.kind, "message.updated") {
            same(&event.role, "assistant") && event.finished && trimmed(
                &self.response,
            ).unicode_len() > 0
        } else {
            false
        }
    }

    fn on_block(&mut self, block: &str) -> (complete: bool)
        ensures
            (final(self)@, complete) == old(self)@.after_block(block@),
    {
        let data = data_in(block);
        if data.unicode_len() == 0 {
            return false;
        }
        match json::parse(&data) {
            Some(value) => self.on_event(&read_event(&value)),
            None => false,
        }
    }

    /// Takes in a piece of the stream as text. The text of the answer comes back when it
    /// is complete.
    pub fn on_text(&mut self, text: &str) -> (response: Option<String>)
        ensures
            ({
                let (next, complete) = old(self)@.after_text(text@);
                &&& final(self)@ == next
                &&& optional(response) == if complete {
                    Some(next.response)
                } else {
                    None
                }
            }),
    {
        self.buffer.append(text);
        let separator = chars("\n\n");
        proof {
            reveal_strlit("\n\n");
        }
        loop
            invariant
                separator@ == "\n\n"@,
                separator@.len() == 2,
                self@.drained() == old(self)@.after_text(text@),
            decreases self@.buffer.len(),
        {
            let buffer = chars(&self.buffer);
            match position(&buffer, &separator) {
                Some(end) => {
                    let block = between(&buffer, 0, end);
                    self.buffer = between(&buffer, end + 2, buffer.len());
                    proof {
                        assert(block@ =~= buffer@.take(end as int));
                        assert(self@.buffer =~= buffer@.skip(end + 2));
                    }
                    if self.on_block(&block) {
                        return Some(self.response.clone());
                    }
                },
                None => {
                    return None;
                },
            }
        }
    }

    /// Takes in a piece of the stream. The text of the answer comes back when it is
    /// complete.
    pub fn on_bytes(&mut self, bytes: &[u8]) -> (response: Option<String>)
        ensures
            ({
                let (next, complete) = old(self)@.after_text(lossy_text(bytes@));
                &&& final(self)@ == next
                &&& optional(response) == if complete {
                    Some(next.response)
                } else {
                    None
                }
            }),
            valid_utf8(bytes@) ==> lossy_text(bytes@) == decode_utf8(bytes@),
    {
        self.on_text(&lossy(bytes))
    }
}

/// What is added to a part that is text is added to the answer, all of it and in order; a part
/// is of the type it was last said to be; and no other event changes anything.
pub proof fn law_text_is_gathered(state: ListenerView, event: SessionEventView)
    requires
        event.session == state.session,
    ensures
        ({
            let after = state.after_event(event);
            &&& after.session == state.session
            &&& after.buffer == state.buffer
            &&& event.kind == "message.part.delta"@ ==> after.parts == state.parts
            &&& event.kind == "message.part.delta"@ && event.field == Some("text"@)
                && event.delta is Some && state.parts.contains_key(event.delta_part)
                && state.parts[event.delta_part] == "text"@ ==> after.response == state.response
                + event.delta->0
            &&& event.kind == "message.part.updated"@ ==> after.response == state.response
            &&& event.kind == "message.part.updated"@ && event.part_id is Some
                && event.part_type is Some ==> {
                &&& after.parts.contains_key(event.part_id->0)
                &&& after.parts[event.part_id->0] == event.part_type->0
                &&& forall|id: Seq<char>|
                    id != event.part_id->0 ==> (#[trigger] after.parts.contains_key(id)
                        <==> state.parts.contains_key(id)) && after.parts[id] == state.parts[id]
            }
            &&& event.kind != "message.part.delta"@ && event.kind != "message.part.updated"@
                ==> after == state
        }),
{
    lemma_kinds_differ();
}

/// An answer is complete if and only if the assistant's message in the session is updated, is
/// finished, and there is something to say. To complete it changes nothing.
pub proof fn law_finished_messages_complete(state: ListenerView, event: SessionEventView)
    ensures
        state.completes(event) <==> event.session == state.session && event.kind
            == "message.updated"@ && event.role == "assistant"@ && event.finished && !is_blank(
            state.response,
        ),
        state.completes(event) ==> state.after_event(event) == state,
{
    lemma_kinds_differ();
}

/// An event says what its members say, and says the same in a wrapper: the wrapper counts for
/// nothing.
pub proof fn law_events_are_read(value: Json)
    requires
        !value.has("payload"@),
    ensures
        ({
            let event = event_in(value);
            let properties = value.at("properties"@);
            let part = properties.at("part"@);
            let info = properties.at("info"@);
            &&& event_in(Json::Object(Map::empty().insert("payload"@, value))) == event
            &&& properties.at("sessionID"@) matches Json::Text(text) ==> event.session == text
            &&& value.at("type"@) matches Json::Text(text) ==> event.kind == text
            &&& properties.at("partID"@) matches Json::Text(text) ==> event.delta_part == text
            &&& info.at("role"@) matches Json::Text(text) ==> event.role == text
            &&& part.at("id"@) matches Json::Text(text) ==> event.part_id == Some(text)
            &&& !(part.at("id"@) is Text) ==> event.part_id is None
            &&& part.at("type"@) matches Json::Text(text) ==> event.part_type == Some(text)
            &&& !(part.at("type"@) is Text) ==> event.part_type is None
            &&& properties.at("field"@) matches Json::Text(text) ==> event.field == Some(text)
            &&& !(properties.at("field"@) is Text) ==> event.field is None
            &&& properties.at("delta"@) matches Json::Text(text) ==> event.delta == Some(text)
            &&& !(properties.at("delta"@) is Text) ==> event.delta is None
            &&& event.finished <==> info.at("finish"@) is Text
        }),
{
    let members = Map::empty().insert("payload"@, value);
    assert(members.contains_key("payload"@));
    assert(Json::Object(members).has("payload"@));
    assert(Json::Object(members).at("payload"@) == value);
}

/// A block whose data is JSON is taken in as the event it holds.
pub proof fn law_blocks_are_taken_in(state: ListenerView, block: Seq<char>, value: Json)
    requires
        block_data(block).len() > 0,
        parsed(block_data(block)) == Some(value),
    ensures
        state.after_block(block) == (
            state.after_event(event_in(value)),
            state.completes(event_in(value)),
        ),
{
}

proof fn lemma_lines_data(first: Seq<Seq<char>>, second: Seq<Seq<char>>)
    ensures
        lines_data(first + second) == lines_data(first) + lines_data(second),
    decreases second.len(),
{
    if second.len() > 0 {
        lemma_lines_data(first, second.drop_last());
        assert((first + second).drop_last() =~= first + second.drop_last());
        assert(lines_data(first) + (lines_data(second.drop_last()) + line_data(second.last()))
            =~= lines_data(first) + lines_data(second.drop_last()) + line_data(second.last()));
    } else {
        assert(first + second =~= first);
        assert(lines_data(first) + Seq::<char>::empty() =~= lines_data(first));
    }
}

/// The data of a block is the data of its lines, one after the other: of a data line what
/// follows its label, trimmed, and of any other line nothing.
pub proof fn law_data_is_gathered_by_lines(first: Seq<char>, second: Seq<char>, line: Seq<char>)
    ensures
        block_data(first.push('\n') + second) == block_data(first) + block_data(second),
        !line.contains('\n') ==> block_data("data: "@ + line) == trim(line),
        !line.contains('\n') && !starts_with(line, "data: "@) ==> block_data(line).len() == 0,
{
    reveal_strlit("data: ");
    law_split_at_separators(first, '\n', second);
    lemma_lines_data(split(first, '\n'), split(second, '\n'));
    if !line.contains('\n') {
        let whole = "data: "@ + line;
        assert(!whole.contains('\n')) by {
            if whole.contains('\n') {
                let k = choose|k: int| 0 <= k < whole.len() && whole[k] == '\n';
                if k >= 6 {
                    assert(line[k - 6] == '\n');
                }
            }
        }
        law_split_at_separators(whole, '\n', Seq::empty());
        law_split_at_separators(line, '\n', Seq::empty());
        law_parts_stand_between(Seq::empty(), "data: "@, line);
        assert(whole.skip(6) =~= line);
        lemma_one_line(whole);
        lemma_one_line(line);
    }
}

proof fn lemma_one_line(line: Seq<char>)
    ensures
        lines_data(seq![line]) == line_data(line),
{
    assert(seq![line].drop_last() =~= Seq::empty());
    assert(lines_data(Seq::empty()) + line_data(line) =~= line_data(line));
}

} // verus!
