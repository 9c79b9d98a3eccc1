//! Whether what was said is a complete thought.
//!
//! A fast language model is asked about the accumulated utterance. Whatever goes wrong on
//! the way, the utterance counts as complete, so that no word is ever swallowed.

use crate::config::Config;
use crate::json;
use crate::json::{contents, parsed, parsed_bytes, Json};
use crate::text::{
    between, chars, find, is_blank, last_position, lemma_find, lemma_rfind, occurs_at, optional,
    position, rfind, same, trim, trimmed,
};
use serde_json::Value;
use vstd::prelude::*;

verus! {

broadcast use vstd::string::group_string_axioms;

/// What a spoken command asks the page to do.
#[derive(Debug, Clone, Copy, PartialEq, Eq, Structural)]
pub enum CommandAction {
    NewSession,
    OpenFile,
    SwitchModel,
    SwitchProject,
    SwitchSession,
    CycleVariant,
    RunCommand,
}

/// The action with this name.
pub open spec fn action_named(name: Seq<char>) -> Option<CommandAction> {
    if name == "new_session"@ {
        Some(CommandAction::NewSession)
    } else if name == "open_file"@ {
        Some(CommandAction::OpenFile)
    } else if name == "switch_model"@ {
        Some(CommandAction::SwitchModel)
    } else if name == "switch_project"@ {
        Some(CommandAction::SwitchProject)
    } else if name == "switch_session"@ {
        Some(CommandAction::SwitchSession)
    } else if name == "cycle_variant"@ {
        Some(CommandAction::CycleVariant)
    } else if name == "run_command"@ {
        Some(CommandAction::RunCommand)
    } else {
        None
    }
}

/// Whether the action takes no target.
pub open spec fn takes_no_target(action: CommandAction) -> bool {
    action is NewSession || action is CycleVariant
}

impl CommandAction {
    /// The action with this name.
    pub fn from_str(s: &str) -> (action: Option<Self>)
        ensures
            action == action_named(s@),
    {
        if same(s, "new_session") {
            Some(CommandAction::NewSession)
        } else if same(s, "open_file") {
            Some(CommandAction::OpenFile)
        } else if same(s, "switch_model") {
            Some(CommandAction::SwitchModel)
        } else if same(s, "switch_project") {
            Some(CommandAction::SwitchProject)
        } else if same(s, "switch_session") {
            Some(CommandAction::SwitchSession)
        } else if same(s, "cycle_variant") {
            Some(CommandAction::CycleVariant)
        } else if same(s, "run_command") {
            Some(CommandAction::RunCommand)
        } else {
            None
        }
    }

    /// Whether the action takes no target.
    pub fn targetless(&self) -> (result: bool)
        ensures
            result == takes_no_target(*self),
    {
        matches!(self, CommandAction::NewSession | CommandAction::CycleVariant)
    }
}

/// The judgement on one accumulated utterance.
#[derive(Debug, Clone, PartialEq, Eq)]
pub enum Verdict {
    /// The user is not done. With `hold` they announced more, and the wait has no end;
    /// without it the utterance may as well be all.
    Incomplete { hold: bool },
    /// A complete thought for the assistant.
    Prompt,
    /// A command for the page.
    Command { action: CommandAction, target: Option<String> },
}

/// A verdict as its flags and texts.
pub enum VerdictView {
    Incomplete { hold: bool },
    Prompt,
    Command { action: CommandAction, target: Option<Seq<char>> },
}

impl View for Verdict {
    type V = VerdictView;

    open spec fn view(&self) -> VerdictView {
        match *self {
            Verdict::Incomplete { hold } => VerdictView::Incomplete { hold },
            Verdict::Prompt => VerdictView::Prompt,
            Verdict::Command { action, target } => VerdictView::Command {
                action,
                target: optional(target),
            },
        }
    }
}

/// What the model was told to do.
pub const GATE_SYSTEM_PROMPT: &'static str = "\
You are a fast gate between speech-to-text and a coding assistant.
Input: a raw ASR transcript of something a user said aloud.
Output ONLY a JSON object — no prose, no code fences.

status:
  \"incomplete\" — the user is NOT done. Judge the *thought*, not grammar:
                 a fragment (\"open the\"), a trail-off (\"and then, um\"), OR a
                 preface that promises more (\"I'm going to tell you a story\",
                 \"okay so here's what I want\", \"let me explain\").
                 Return ONLY {\"status\":\"incomplete\",\"hold\":<bool>}.
                   hold=true  — the user explicitly signalled more is coming.
                   hold=false — an ambiguous fragment or trail-off.
  \"prompt\"     — the user finished a complete thought. Return {\"status\":\"prompt\"}.

When unsure, choose \"prompt\". A grammatically whole sentence can still be
incomplete: a preface is a promise of more.";

/// A message of a chat.
pub open spec fn chat_message(role: Seq<char>, content: Seq<char>) -> Json {
    Json::Object(
        Map::empty().insert("role"@, Json::Text(role)).insert("content"@, Json::Text(content)),
    )
}

/// The body of the question to the model.
pub open spec fn request_body(
    model: Seq<char>,
    text: Seq<char>,
    reasoning_effort: Seq<char>,
) -> Json {
    Json::Object(
        Map::empty().insert("model"@, Json::Text(model)).insert(
            "messages"@,
            Json::Array(
                seq![
                    chat_message("system"@, GATE_SYSTEM_PROMPT@),
                    chat_message("user"@, text),
                ],
            ),
        ).insert("temperature"@, Json::Int(0)).insert("max_tokens"@, Json::Int(512)).insert(
            "response_format"@,
            Json::Object(Map::empty().insert("type"@, Json::Text("json_object"@))),
        ).insert("reasoning_effort"@, Json::Text(reasoning_effort)),
    )
}

fn build_message(role: &str, content: &str) -> (message: Value)
    ensures
        contents(message) == chat_message(role@, content@),
{
    let mut message = json::object();
    json::set(&mut message, "role", json::string(role));
    json::set(&mut message, "content", json::string(content));
    message
}

/// Builds the body of an OpenAI-compatible chat completion request.
///
/// `reasoning_effort` is the switch that keeps a model from thinking aloud: `"low"` or
/// `"none"`, as the endpoint has it. The token limit leaves room for a short preamble
/// before the verdict.
pub fn build_request(model: &str, text: &str, reasoning_effort: &str) -> (body: Value)
    ensures
        contents(body) == request_body(model@, text@, reasoning_effort@),
{
    let mut messages: Vec<Value> = Vec::new();
    messages.push(build_message("system", GATE_SYSTEM_PROMPT));
    messages.push(build_message("user", text));
    proof {
        assert(messages@.map_values(|item: Value| contents(item)) =~= seq![
            chat_message("system"@, GATE_SYSTEM_PROMPT@),
            chat_message("user"@, text@),
        ]);
    }
    let mut format = json::object();
    json::set(&mut format, "type", json::string("json_object"));
    let mut body = json::object();
    json::set(&mut body, "model", json::string(model));
    json::set(&mut body, "messages", json::array(messages));
    json::set(&mut body, "temperature", json::integer(0));
    json::set(&mut body, "max_tokens", json::integer(512));
    json::set(&mut body, "response_format", format);
    json::set(&mut body, "reasoning_effort", json::string(reasoning_effort));
    body
}

/// The fields of a model's reply that count.
#[derive(Debug, Clone)]
pub struct GateReply {
    pub status: Option<String>,
    pub hold: Option<bool>,
    pub action: Option<String>,
    pub target: Option<String>,
}

/// A reply as its flags and texts.
pub struct GateReplyView {
    pub status: Option<Seq<char>>,
    pub hold: Option<bool>,
    pub action: Option<Seq<char>>,
    pub target: Option<Seq<char>>,
}

impl View for GateReply {
    type V = GateReplyView;

    open spec fn view(&self) -> GateReplyView {
        GateReplyView {
            status: optional(self.status),
            hold: self.hold,
            action: optional(self.action),
            target: optional(self.target),
        }
    }
}

/// The fields of a JSON value that count.
pub open spec fn reply_in(value: Json) -> GateReplyView {
    GateReplyView {
        status: value.at("status"@).text(),
        hold: value.at("hold"@).truth(),
        action: value.at("command"@).at("action"@).text(),
        target: value.at("command"@).at("target"@).text(),
    }
}

/// The target of a command, where it is more than white space.
pub open spec fn proper_target(target: Option<Seq<char>>) -> Option<Seq<char>> {
    match target {
        Some(target) if trim(target).len() > 0 => Some(trim(target)),
        _ => None,
    }
}

/// The verdict that a reply states. A reply that does not fit states that the utterance
/// is complete.
pub open spec fn verdict_in(reply: GateReplyView) -> VerdictView {
    let target = proper_target(reply.target);
    if reply.status == Some("incomplete"@) {
        VerdictView::Incomplete { hold: reply.hold == Some(true) }
    } else if reply.status == Some("command"@) {
        match reply.action {
            Some(name) => match action_named(name) {
                Some(action) => if takes_no_target(action) == (target is None) {
                    VerdictView::Command { action, target }
                } else {
                    VerdictView::Prompt
                },
                None => VerdictView::Prompt,
            },
            None => VerdictView::Prompt,
        }
    } else {
        VerdictView::Prompt
    }
}

/// The part of a reply that should be JSON: from the first opening brace to the last
/// closing one.
pub open spec fn json_span(content: Seq<char>) -> Option<Seq<char>> {
    match (find(content, seq!['{']), rfind(content, seq!['}'])) {
        (Some(start), Some(end)) if end > start => Some(content.subrange(start, end + 1)),
        _ => None,
    }
}

/// The verdict that the text of a reply states.
pub open spec fn verdict_of_text(content: Seq<char>) -> VerdictView {
    match json_span(content) {
        Some(span) => match parsed(span) {
            Some(value) => verdict_in(reply_in(value)),
            None => VerdictView::Prompt,
        },
        None => VerdictView::Prompt,
    }
}

/// Reads the fields that count.
fn read_reply(value: &Value) -> (reply: GateReply)
    ensures
        reply@ == reply_in(contents(*value)),
{
    let command = json::at(value, "command");
    GateReply {
        status: json::text_of(json::at(value, "status")),
        hold: json::as_bool(json::at(value, "hold")),
        action: json::text_of(json::at(command, "action")),
        target: json::text_of(json::at(command, "target")),
    }
}

impl GateReply {
    /// The verdict that the reply states.
    pub fn verdict(&self) -> (verdict: Verdict)
        ensures
            verdict@ == verdict_in(self@),
    {
        let status = match &self.status {
            Some(status) => status,
            None => return Verdict::Prompt,
        };
        if same(status, "incomplete") {
            let hold: bool = match self.hold {
                Some(hold) => hold,
                None => false,
            };
            return Verdict::Incomplete { hold };
        }
        if !same(status, "command") {
            return Verdict::Prompt;
        }
        let action = match &self.action {
            Some(name) => match CommandAction::from_str(name) {
                Some(action) => action,
                None => return Verdict::Prompt,
            },
            None => return Verdict::Prompt,
        };
        let target = match &self.target {
            Some(target) => {
                let inner = trimmed(target);
                if inner.is_empty() {
                    None
                } else {
                    Some(inner.to_owned())
                }
            },
            None => None,
        };
        if action.targetless() {
            if target.is_some() {
                return Verdict::Prompt;
            }
        } else if target.is_none() {
            return Verdict::Prompt;
        }
        Verdict::Command { action, target }
    }
}

/// Finds the part of a reply that should be JSON. Models wrap it in prose or code fences
/// at times.
pub fn find_json(content: &str) -> (span: Option<String>)
    ensures
        optional(span) == json_span(content@),
{
    let list = chars(content);
    let open: Vec<char> = vec!['{'];
    let close: Vec<char> = vec!['}'];
    proof {
        assert(open@ =~= seq!['{']);
        assert(close@ =~= seq!['}']);
    }
    match (position(&list, &open), last_position(&list, &close)) {
        (Some(start), Some(end)) => if end > start {
            Some(between(&list, start, end + 1))
        } else {
            None
        },
        _ => None,
    }
}

/// Reads the model's reply. Whatever does not fit counts as a complete thought.
pub fn parse_verdict(content: &str) -> (verdict: Verdict)
    ensures
        verdict@ == verdict_of_text(content@),
{
    match find_json(content) {
        Some(span) => match json::parse(&span) {
            Some(value) => read_reply(&value).verdict(),
            None => Verdict::Prompt,
        },
        None => Verdict::Prompt,
    }
}

/// The question to the model, ready to send.
pub struct GateRequest {
    pub endpoint: String,
    /// The key for the authorization header.
    pub bearer: Option<String>,
    pub body: Value,
    pub timeout_ms: u64,
}

/// What came of the question.
#[derive(Debug, Clone)]
pub enum GateOutcome {
    /// The request could not be made or was not answered.
    Failed,
    TimedOut,
    /// The body of the answer.
    Replied(Vec<u8>),
}

/// The text of the first choice in a chat completion; empty where there is none.
pub open spec fn reply_text(value: Json) -> Seq<char> {
    match value.at("choices"@).item(0).at("message"@).at("content"@).text() {
        Some(text) => text,
        None => Seq::empty(),
    }
}

/// The verdict on what came of the question.
pub open spec fn verdict_of_outcome(outcome: GateOutcome) -> VerdictView {
    match outcome {
        GateOutcome::Failed | GateOutcome::TimedOut => VerdictView::Prompt,
        GateOutcome::Replied(body) => match parsed_bytes(body@) {
            Some(value) => verdict_of_text(reply_text(value)),
            None => VerdictView::Prompt,
        },
    }
}

/// Where and how to ask the model.
pub struct Gate {
    endpoint: String,
    model: String,
    api_key: Option<String>,
    reasoning_effort: String,
    timeout_ms: u64,
}

/// A gate as its texts and numbers.
pub struct GateView {
    pub endpoint: Seq<char>,
    pub model: Seq<char>,
    pub api_key: Option<Seq<char>>,
    pub reasoning_effort: Seq<char>,
    pub timeout_ms: u64,
}

impl View for Gate {
    type V = GateView;

    closed spec fn view(&self) -> GateView {
        GateView {
            endpoint: self.endpoint@,
            model: self.model@,
            api_key: optional(self.api_key),
            reasoning_effort: self.reasoning_effort@,
            timeout_ms: self.timeout_ms,
        }
    }
}

impl Gate {
    /// Asks where and how the settings say.
    pub fn new(config: &Config) -> (gate: Self)
        ensures
            gate@ == (GateView {
                endpoint: config.gate_endpoint@,
                model: config.gate_model@,
                api_key: optional(config.gate_api_key),
                reasoning_effort: config.gate_reasoning_effort@,
                timeout_ms: config.gate_timeout_ms,
            }),
    {
        Gate {
            endpoint: config.gate_endpoint.clone(),
            model: config.gate_model.clone(),
            api_key: match &config.gate_api_key {
                Some(key) => Some(key.clone()),
                None => None,
            },
            reasoning_effort: config.gate_reasoning_effort.clone(),
            timeout_ms: config.gate_timeout_ms,
        }
    }

    /// The question about one accumulated utterance.
    pub fn request(&self, text: &str) -> (request: GateRequest)
        ensures
            request.endpoint@ == self@.endpoint,
            optional(request.bearer) == self@.api_key,
            contents(request.body) == request_body(self@.model, text@, self@.reasoning_effort),
            request.timeout_ms == self@.timeout_ms,
    {
        GateRequest {
            endpoint: self.endpoint.clone(),
            bearer: match &self.api_key {
                Some(key) => Some(key.clone()),
                None => None,
            },
            body: build_request(&self.model, text, &self.reasoning_effort),
            timeout_ms: self.timeout_ms,
        }
    }

    /// The verdict on what came of the question. Every failure counts as a complete
    /// thought.
    pub fn conclude(outcome: &GateOutcome) -> (verdict: Verdict)
        ensures
            verdict@ == verdict_of_outcome(*outcome),
    {
        match outcome {
            GateOutcome::Failed => Verdict::Prompt,
            GateOutcome::TimedOut => Verdict::Prompt,
            GateOutcome::Replied(body) => match json::parse_bytes(body) {
                Some(value) => {
                    let choice = json::item(json::at(&value, "choices"), 0);
                    let content = json::at(json::at(choice, "message"), "content");
                    match json::as_str(content) {
                        Some(text) => parse_verdict(text),
                        None => {
                            let text = String::new();
                            parse_verdict(&text)
                        },
                    }
                },
                None => Verdict::Prompt,
            },
        }
    }
}

/// What the listener does after a verdict.
#[derive(Debug, Clone, Copy, PartialEq, Eq, Structural)]
pub enum LoopAction {
    /// Hand the buffer on now.
    Commit,
    /// Wait for more, without end.
    HoldIndefinite,
    /// Wait for more, up to the silence limit.
    ArmFallback,
}

/// A loop as its counters.
pub struct LoopView {
    pub rechecks: nat,
    pub max_rechecks: nat,
}

impl LoopView {
    /// The loop after a verdict.
    pub open spec fn step(self, verdict: VerdictView) -> LoopView {
        if verdict == (VerdictView::Incomplete { hold: false }) {
            LoopView { rechecks: self.rechecks + 1, ..self }
        } else {
            self
        }
    }

    /// What to do after a verdict.
    pub open spec fn action(self, verdict: VerdictView) -> LoopAction {
        match verdict {
            VerdictView::Incomplete { hold: true } => LoopAction::HoldIndefinite,
            VerdictView::Incomplete { hold: false } => if self.rechecks + 1 >= self.max_rechecks {
                LoopAction::Commit
            } else {
                LoopAction::ArmFallback
            },
            VerdictView::Prompt | VerdictView::Command { .. } => LoopAction::Commit,
        }
    }

    /// The loop after these verdicts.
    pub open spec fn run(self, verdicts: Seq<VerdictView>) -> LoopView
        decreases verdicts.len(),
    {
        if verdicts.len() == 0 {
            self
        } else {
            self.run(verdicts.drop_last()).step(verdicts.last())
        }
    }
}

/// Counts the uncertain verdicts, so that a model that cannot make up its mind is overruled.
pub struct GateLoop {
    recheck_count: u32,
    max_rechecks: u32,
}

impl View for GateLoop {
    type V = LoopView;

    closed spec fn view(&self) -> LoopView {
        LoopView { rechecks: self.recheck_count as nat, max_rechecks: self.max_rechecks as nat }
    }
}

impl GateLoop {
    /// A loop that overrules the `max_rechecks`th uncertain verdict.
    pub fn new(max_rechecks: u32) -> (gate_loop: Self)
        ensures
            gate_loop@ == (LoopView { rechecks: 0, max_rechecks: max_rechecks as nat }),
    {
        GateLoop { recheck_count: 0, max_rechecks }
    }

    /// Takes in a verdict and tells what to do.
    pub fn next_action(&mut self, verdict: &Verdict) -> (action: LoopAction)
        requires
            verdict@ == (VerdictView::Incomplete { hold: false }) ==> old(self)@.rechecks
                < u32::MAX,
        ensures
            final(self)@ == old(self)@.step(verdict@),
            action == old(self)@.action(verdict@),
    {
        match verdict {
            Verdict::Incomplete { hold: true } => LoopAction::HoldIndefinite,
            Verdict::Incomplete { hold: false } => {
                self.recheck_count += 1;
                if self.recheck_count >= self.max_rechecks {
                    LoopAction::Commit
                } else {
                    LoopAction::ArmFallback
                }
            },
            Verdict::Prompt | Verdict::Command { .. } => LoopAction::Commit,
        }
    }

    /// Counts from the start again, as after a commit.
    pub fn reset(&mut self)
        ensures
            final(self)@ == (LoopView { rechecks: 0, ..old(self)@ }),
    {
        self.recheck_count = 0;
    }
}

/// How many of the verdicts are uncertain.
pub open spec fn uncertain(verdicts: Seq<VerdictView>) -> nat
    decreases verdicts.len(),
{
    if verdicts.len() == 0 {
        0
    } else if verdicts.last() == (VerdictView::Incomplete { hold: false }) {
        uncertain(verdicts.drop_last()) + 1
    } else {
        uncertain(verdicts.drop_last())
    }
}

/// A fresh loop counts the uncertain verdicts and no others.
pub proof fn law_loop_counts_uncertain_verdicts(max_rechecks: nat, verdicts: Seq<VerdictView>)
    ensures
        (LoopView { rechecks: 0, max_rechecks }).run(verdicts) == (LoopView {
            rechecks: uncertain(verdicts),
            max_rechecks,
        }),
    decreases verdicts.len(),
{
    if verdicts.len() > 0 {
        law_loop_counts_uncertain_verdicts(max_rechecks, verdicts.drop_last());
    }
}

/// After any verdicts, one more uncertain verdict is overruled if and only if it is at
/// least the `max_rechecks`th.
pub proof fn law_uncertainty_is_capped(max_rechecks: nat, verdicts: Seq<VerdictView>)
    ensures
        (LoopView { rechecks: 0, max_rechecks }).run(verdicts).action(
            VerdictView::Incomplete { hold: false },
        ) == if uncertain(verdicts) + 1 >= max_rechecks {
            LoopAction::Commit
        } else {
            LoopAction::ArmFallback
        },
{
    law_loop_counts_uncertain_verdicts(max_rechecks, verdicts);
}

/// An announcement of more is always waited for and never brings a forced commit closer.
pub proof fn law_announced_speech_is_waited_for(state: LoopView)
    ensures
        state.action(VerdictView::Incomplete { hold: true }) == LoopAction::HoldIndefinite,
        state.step(VerdictView::Incomplete { hold: true }) == state,
{
}

/// A command carries a target exactly if its action takes one, and the target is not
/// blank.
pub proof fn law_commands_carry_their_targets(reply: GateReplyView)
    ensures
        match verdict_in(reply) {
            VerdictView::Command { action, target } => {
                &&& target is None <==> takes_no_target(action)
                &&& target matches Some(target) ==> target.len() > 0
            },
            _ => true,
        },
{
}

/// How a command is spelled in a reply.
pub open spec fn spelled(action: CommandAction) -> Seq<char> {
    match action {
        CommandAction::NewSession => "new_session"@,
        CommandAction::OpenFile => "open_file"@,
        CommandAction::SwitchModel => "switch_model"@,
        CommandAction::SwitchProject => "switch_project"@,
        CommandAction::SwitchSession => "switch_session"@,
        CommandAction::CycleVariant => "cycle_variant"@,
        CommandAction::RunCommand => "run_command"@,
    }
}

/// Each spelling names its action and no other, and nothing else names one.
pub proof fn law_spellings_name_actions(name: Seq<char>, action: CommandAction)
    ensures
        action_named(name) == Some(action) <==> name == spelled(action),
{
    reveal_strlit("new_session");
    reveal_strlit("open_file");
    reveal_strlit("switch_model");
    reveal_strlit("switch_project");
    reveal_strlit("switch_session");
    reveal_strlit("cycle_variant");
    reveal_strlit("run_command");
    assert("new_session"@.len() == 11 && "open_file"@.len() == 9 && "switch_model"@.len() == 12);
    assert("switch_project"@.len() == 14 && "switch_session"@.len() == 14);
    assert("cycle_variant"@.len() == 13 && "run_command"@.len() == 11);
    assert("new_session"@[0] == 'n' && "run_command"@[0] == 'r');
    assert("switch_project"@[7] == 'p' && "switch_session"@[7] == 's');
}

/// The text that a chat completion holds, where its first choice is a message with a text.
pub open spec fn holds_text(value: Json, text: Seq<char>) -> bool {
    value.at("choices"@).item(0).at("message"@).at("content"@) == Json::Text(text)
}

/// Whether a text is prose before a span, the span in braces, and prose after it.
pub open spec fn wraps(
    text: Seq<char>,
    before: Seq<char>,
    span: Seq<char>,
    after: Seq<char>,
) -> bool {
    &&& text == before + span + after
    &&& span.len() >= 2
    &&& span.first() == '{'
    &&& span.last() == '}'
    &&& !before.contains('{')
    &&& !after.contains('}')
}

proof fn lemma_one_character(text: Seq<char>, c: char, i: int)
    ensures
        occurs_at(text, seq![c], i) <==> 0 <= i < text.len() && text[i] == c,
{
    if 0 <= i < text.len() {
        let cut = text.subrange(i, i + 1);
        assert(cut[0] == text[i]);
        if text[i] == c {
            assert(cut =~= seq![c]);
        } else {
            assert(seq![c][0] == c);
        }
    }
}

proof fn lemma_first_character(text: Seq<char>, c: char, at: int)
    requires
        0 <= at < text.len(),
        text[at] == c,
        forall|j: int| 0 <= j < at ==> #[trigger] text[j] != c,
    ensures
        find(text, seq![c]) == Some(at),
{
    lemma_find(text, seq![c], 0);
    lemma_one_character(text, c, at);
    if let Some(i) = find(text, seq![c]) {
        lemma_one_character(text, c, i);
    }
}

proof fn lemma_last_character(text: Seq<char>, c: char, at: int)
    requires
        0 <= at < text.len(),
        text[at] == c,
        forall|j: int| at < j < text.len() ==> #[trigger] text[j] != c,
    ensures
        rfind(text, seq![c]) == Some(at),
{
    lemma_rfind(text, seq![c], text.len() - 1);
    lemma_one_character(text, c, at);
    if let Some(i) = rfind(text, seq![c]) {
        lemma_one_character(text, c, i);
    }
}

proof fn lemma_wrapped_span(
    text: Seq<char>,
    before: Seq<char>,
    span: Seq<char>,
    after: Seq<char>,
)
    requires
        wraps(text, before, span, after),
    ensures
        json_span(text) == Some(span),
{
    let start = before.len() as int;
    let end = start + span.len() - 1;
    assert(text[start] == span[0]);
    assert(text[end] == span[span.len() - 1]);
    assert forall|j: int| 0 <= j < start implies #[trigger] text[j] != '{' by {
        assert(text[j] == before[j]);
    }
    assert forall|j: int| end < j < text.len() implies #[trigger] text[j] != '}' by {
        assert(text[j] == after[j - end - 1]);
    }
    lemma_first_character(text, '{', start);
    lemma_last_character(text, '}', end);
    assert(text.subrange(start, end + 1) =~= span);
}

/// A reply is read for what stands in its braces, whatever prose or fences are round them: an
/// utterance that is called incomplete is, with a hold exactly if that is said; a command is
/// one exactly if its name is known and its target fits; and any other reply calls the
/// utterance complete.
pub proof fn law_replies_are_read_in_their_braces(
    body: Vec<u8>,
    value: Json,
    before: Seq<char>,
    span: Seq<char>,
    after: Seq<char>,
    reply: Json,
)
    requires
        parsed_bytes(body@) == Some(value),
        holds_text(value, before + span + after),
        wraps(before + span + after, before, span, after),
        parsed(span) == Some(reply),
    ensures
        ({
            let verdict = verdict_of_outcome(GateOutcome::Replied(body));
            let status = reply.at("status"@);
            let name = reply.at("command"@).at("action"@);
            let target = reply.at("command"@).at("target"@);
            let aimed = target.text() is Some && !is_blank(target.text()->0);
            &&& status == Json::Text("incomplete"@) ==> verdict == (VerdictView::Incomplete {
                hold: reply.at("hold"@) == Json::Bool(true),
            })
            &&& status == Json::Text("command"@) ==> forall|action: CommandAction|
                name == Json::Text(#[trigger] spelled(action)) ==> verdict == (if action
                    is NewSession || action is CycleVariant {
                    if aimed {
                        VerdictView::Prompt
                    } else {
                        VerdictView::Command { action, target: None }
                    }
                } else if aimed {
                    VerdictView::Command { action, target: Some(trim(target.text()->0)) }
                } else {
                    VerdictView::Prompt
                })
            &&& status == Json::Text("command"@) && (forall|action: CommandAction|
                name != Json::Text(#[trigger] spelled(action))) ==> verdict == VerdictView::Prompt
            &&& status != Json::Text("incomplete"@) && status != Json::Text("command"@)
                ==> verdict == VerdictView::Prompt
        }),
{
    lemma_wrapped_span(before + span + after, before, span, after);
    reveal_strlit("incomplete");
    reveal_strlit("command");
    assert("incomplete"@.len() == 10 && "command"@.len() == 7);
    let name = reply.at("command"@).at("action"@);
    if let Json::Text(text) = name {
        assert forall|action: CommandAction| (action_named(text) == Some(action) <==> text
            == #[trigger] spelled(action)) by {
            law_spellings_name_actions(text, action);
        }
        if let Some(action) = action_named(text) {
            assert(text == spelled(action));
        }
    }
}

/// Where nothing stands in braces, or what does is no JSON, the utterance counts as complete;
/// and so it does where there is no text, no JSON or no answer at all.
pub proof fn law_unreadable_replies_count_as_complete(outcome: GateOutcome)
    requires
        outcome matches GateOutcome::Replied(body) ==> (parsed_bytes(body@) matches Some(value)
            ==> forall|text: Seq<char>| #[trigger]
            holds_text(value, text) ==> (forall|i: int, j: int|
            0 <= i < j < text.len() ==> !(#[trigger] text[i] == '{' && #[trigger] text[j] == '}'))
            || exists|before: Seq<char>, span: Seq<char>, after: Seq<char>| #[trigger]
            wraps(text, before, span, after) && parsed(span) is None),
    ensures
        verdict_of_outcome(outcome) == VerdictView::Prompt,
{
    if let GateOutcome::Replied(body) = outcome {
        if let Some(value) = parsed_bytes(body@) {
            let text = reply_text(value);
            lemma_find(text, seq!['{'], 0);
            lemma_rfind(text, seq!['}'], text.len() - 1);
            if value.at("choices"@).item(0).at("message"@).at("content"@) is Text {
                assert(holds_text(value, text));
                if exists|before: Seq<char>, span: Seq<char>, after: Seq<char>| #[trigger]
                    wraps(text, before, span, after) && parsed(span) is None {
                    let (before, span, after) = choose|
                        before: Seq<char>,
                        span: Seq<char>,
                        after: Seq<char>,
                    | #[trigger] wraps(text, before, span, after) && parsed(span) is None;
                    lemma_wrapped_span(text, before, span, after);
                } else if json_span(text) is Some {
                    let i = find(text, seq!['{'])->0;
                    let j = rfind(text, seq!['}'])->0;
                    lemma_one_character(text, '{', i);
                    lemma_one_character(text, '}', j);
                    assert(text[i] == '{' && text[j] == '}');
                }
            }
        }
    }
}

/// The question carries the utterance as it was said, to the model and with the effort that
/// were asked for, after the fixed instruction, and asks for JSON.
pub proof fn law_questions_carry_the_utterance(
    model: Seq<char>,
    text: Seq<char>,
    reasoning_effort: Seq<char>,
)
    ensures
        ({
            let body = request_body(model, text, reasoning_effort);
            let messages = body.at("messages"@);
            &&& body.at("model"@) == Json::Text(model)
            &&& body.at("reasoning_effort"@) == Json::Text(reasoning_effort)
            &&& body.at("response_format"@).at("type"@) == Json::Text("json_object"@)
            &&& messages matches Json::Array(items) && items.len() == 2
            &&& messages.item(0).at("role"@) == Json::Text("system"@)
            &&& messages.item(0).at("content"@) == Json::Text(GATE_SYSTEM_PROMPT@)
            &&& messages.item(1).at("role"@) == Json::Text("user"@)
            &&& messages.item(1).at("content"@) == Json::Text(text)
        }),
{
    reveal_strlit("model");
    reveal_strlit("messages");
    reveal_strlit("temperature");
    reveal_strlit("max_tokens");
    reveal_strlit("response_format");
    reveal_strlit("reasoning_effort");
    reveal_strlit("role");
    reveal_strlit("content");
    assert("model"@.len() == 5 && "messages"@.len() == 8 && "temperature"@.len() == 11);
    assert("max_tokens"@.len() == 10 && "response_format"@.len() == 15);
    assert("reasoning_effort"@.len() == 16 && "role"@.len() == 4 && "content"@.len() == 7);
}

/// A verdict that is not open is acted on at once and counts for nothing.
pub proof fn law_settled_verdicts_commit(state: LoopView, verdict: VerdictView)
    requires
        !(verdict is Incomplete),
    ensures
        state.action(verdict) == LoopAction::Commit,
        state.step(verdict) == state,
{
}

/// Each uncertain verdict brings the end of patience one step closer, and the last one ends it.
pub proof fn law_patience_wears_out(state: LoopView)
    ensures
        state.step(VerdictView::Incomplete { hold: false }).rechecks == state.rechecks + 1,
        state.step(VerdictView::Incomplete { hold: false }).max_rechecks == state.max_rechecks,
        state.action(VerdictView::Incomplete { hold: false }) == LoopAction::Commit
            <==> state.rechecks + 1 >= state.max_rechecks,
        state.action(VerdictView::Incomplete { hold: false }) != LoopAction::HoldIndefinite,
{
}

/// Whatever goes wrong on the way, the utterance counts as complete.
pub proof fn law_failures_count_as_complete(outcome: GateOutcome)
    requires
        outcome matches GateOutcome::Replied(body) ==> match parsed_bytes(body@) {
            Some(value) => reply_text(value).len() == 0,
            None => true,
        },
    ensures
        verdict_of_outcome(outcome) == VerdictView::Prompt,
{
    if let GateOutcome::Replied(body) = outcome {
        if let Some(value) = parsed_bytes(body@) {
            lemma_find(reply_text(value), seq!['{'], 0);
        }
    }
}

/// A reply without a status that asks to wait or to act counts as complete, and so does one
/// that holds no JSON.
pub proof fn law_misfits_count_as_complete(content: Seq<char>)
    requires
        json_span(content) matches Some(span) ==> match parsed(span) {
            Some(value) => {
                let status = value.at("status"@).text();
                status != Some("incomplete"@) && status != Some("command"@)
            },
            None => true,
        },
    ensures
        verdict_of_text(content) == VerdictView::Prompt,
{
}

} // verus!
