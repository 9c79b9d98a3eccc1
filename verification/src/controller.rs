//! The state machine between the recognizer and the page.

use crate::clock;
use crate::config::Config;
use crate::cues::{cues_of, normalized, opens_with_any, CueDetector, CueType, Cues};
use crate::local_asr::{AsrResult, AsrResultView, AsrSource};
use crate::reconciler::{
    after_speech, joined, law_interjection_is_stripped, law_pieces_make_one_turn, parts, Buffer,
    ContextReconciler, TurnType, TurnView,
};
use crate::text::{
    is_blank, is_white_space, lemma_blank, lemma_trim_twice, lowercase, lowers_ascii, trim, trimmed,
};
use vstd::prelude::*;

verus! {

broadcast use vstd::string::group_string_axioms;

/// Whose turn it is.
#[derive(Debug, Clone, Copy, PartialEq, Eq, Structural)]
pub enum State {
    Idle,
    User,
    Gating,
    Thinking,
}

/// What the page calls a state.
pub open spec fn label(state: State) -> Seq<char> {
    match state {
        State::Idle => "idle"@,
        State::User => "user"@,
        State::Gating => "gating"@,
        State::Thinking => "thinking"@,
    }
}

/// Something to send on.
#[derive(Debug, Clone, PartialEq, Eq)]
pub enum Effect {
    /// To the page: the state has this name now.
    State(String),
    /// To the page: a text and what kind of text it is.
    Transcript { text: String, kind: String },
    /// To the page: a line for the log.
    Log(String),
    /// To the listener: a stretch of speech has ended.
    SegmentFinalized,
}

/// An effect as its texts.
pub enum EffectView {
    State(Seq<char>),
    Transcript { text: Seq<char>, kind: Seq<char> },
    Log(Seq<char>),
    SegmentFinalized,
}

impl View for Effect {
    type V = EffectView;

    open spec fn view(&self) -> EffectView {
        match *self {
            Effect::State(name) => EffectView::State(name@),
            Effect::Transcript { text, kind } => EffectView::Transcript {
                text: text@,
                kind: kind@,
            },
            Effect::Log(line) => EffectView::Log(line@),
            Effect::SegmentFinalized => EffectView::SegmentFinalized,
        }
    }
}

/// What each of these effects says.
pub open spec fn effect_views(effects: Seq<Effect>) -> Seq<EffectView> {
    effects.map_values(|effect: Effect| effect@)
}

/// The name of a cue as a turn's signal.
pub open spec fn cue_name(cue: CueType) -> Seq<char> {
    match cue {
        CueType::Interjection => "Interjection"@,
        CueType::Correction => "Correction"@,
        CueType::Backchannel => "Backchannel"@,
        CueType::Append => "Append"@,
        CueType::Continue => "Continue"@,
    }
}

/// A controller as what it knows.
pub struct ControllerView {
    pub state: State,
    pub buffer: Buffer,
    pub cues: Cues,
    /// The text that was heard last.
    pub heard: Seq<char>,
    /// Whether a page listens.
    pub web: bool,
    /// Whether a listener decides when speech is handed on.
    pub gated: bool,
}

impl ControllerView {
    /// A controller before anything was said.
    pub open spec fn initial(cues: Cues, web: bool, gated: bool) -> ControllerView {
        ControllerView {
            state: State::Idle,
            buffer: Buffer::empty(),
            cues,
            heard: Seq::empty(),
            web,
            gated,
        }
    }

    /// Messages for the page, if one listens.
    pub open spec fn to_page(self, effects: Seq<EffectView>) -> Seq<EffectView> {
        if self.web {
            effects
        } else {
            Seq::empty()
        }
    }

    /// The messages while the buffer is handed on: the thought is submitted, or, where there
    /// is none, nobody is kept waiting.
    pub open spec fn commit_effects(self) -> Seq<EffectView> {
        let text = self.buffer.reconciled();
        self.to_page(
            seq![EffectView::State(label(State::Thinking))] + (if is_blank(text) {
                seq![EffectView::State(label(State::Idle))]
            } else {
                seq![
                    EffectView::Transcript { text, kind: "submit"@ },
                    EffectView::Log("submitting: "@ + text),
                ]
            }),
        )
    }

    /// The controller after the buffer was handed on: it waits for the answer, if a thought
    /// was submitted.
    pub open spec fn committed(self) -> ControllerView {
        let state = if is_blank(self.buffer.reconciled()) {
            State::Idle
        } else {
            State::Thinking
        };
        ControllerView { state, buffer: Buffer::empty(), ..self }
    }

    /// Whether something was said during the assistant's turn that nobody else hands on.
    pub open spec fn has_more_to_say(self) -> bool {
        !self.gated && !is_blank(self.buffer.reconciled())
    }

    /// The controller after the answer is complete: the assistant's turn is over, and what
    /// was said meanwhile is handed on.
    pub open spec fn answered(self) -> ControllerView {
        if self.state != State::Thinking {
            self
        } else if self.has_more_to_say() {
            self.committed()
        } else {
            ControllerView { state: State::Idle, ..self }
        }
    }

    /// The messages after the answer is complete.
    pub open spec fn answer_effects(self) -> Seq<EffectView> {
        if self.state != State::Thinking {
            Seq::empty()
        } else {
            self.to_page(seq![EffectView::State(label(State::Idle))])
                + if self.has_more_to_say() {
                self.commit_effects()
            } else {
                Seq::empty()
            }
        }
    }

    /// Whether a result adds a turn to the buffer.
    pub open spec fn adds_turn(self, result: AsrResultView, cue: CueType) -> bool {
        match result.source {
            AsrSource::Partial => self.state == State::Thinking && (cue == CueType::Interjection
                || cue == CueType::Correction),
            AsrSource::Final => !is_blank(result.text),
        }
    }

    /// The controller after it took in what a result says, before anything is handed on.
    pub open spec fn noted(self, result: AsrResultView, cue: CueType, now: u128) -> ControllerView {
        let buffer = if !self.adds_turn(result, cue) {
            self.buffer
        } else if result.source == AsrSource::Partial {
            self.buffer.add_turn(TurnType::Interjection, result.text, Some(cue_name(cue)), now)
        } else {
            self.buffer.add_turn(TurnType::User, result.text, None, now)
        };
        ControllerView { heard: result.text, buffer, ..self }
    }

    /// Whether the controller hands the buffer on by itself after a result.
    pub open spec fn commits_after(self, result: AsrResultView) -> bool {
        result.source == AsrSource::Final && !self.gated && self.state != State::Thinking
    }

    /// The controller after a result.
    pub open spec fn after_result(
        self,
        result: AsrResultView,
        cue: CueType,
        now: u128,
    ) -> ControllerView {
        let noted = self.noted(result, cue, now);
        if self.commits_after(result) {
            noted.committed()
        } else {
            noted
        }
    }

    /// The messages after a result.
    pub open spec fn result_effects(self, result: AsrResultView, cue: CueType, now: u128) -> Seq<
        EffectView,
    > {
        match result.source {
            AsrSource::Partial => self.to_page(
                seq![EffectView::Transcript { text: result.text, kind: "partial"@ }],
            ),
            AsrSource::Final => if self.gated {
                seq![EffectView::SegmentFinalized]
            } else if self.commits_after(result) {
                self.noted(result, cue, now).commit_effects()
            } else {
                Seq::empty()
            },
        }
    }

    /// Whether a result with this cue, heard at `now`, leads to that controller and those
    /// messages.
    pub open spec fn takes_in(
        self,
        result: AsrResultView,
        cue: CueType,
        now: u128,
        after: ControllerView,
        effects: Seq<EffectView>,
    ) -> bool {
        after == self.after_result(result, cue, now) && effects == self.result_effects(
            result,
            cue,
            now,
        )
    }

    /// Whether a result, classed by the cues and heard at some time, leads to that controller
    /// and those messages.
    pub open spec fn hears(
        self,
        result: AsrResultView,
        after: ControllerView,
        effects: Seq<EffectView>,
    ) -> bool {
        exists|now: u128| #[trigger]
            self.takes_in(
                result,
                self.cues.class(normalized(result.text)),
                now,
                after,
                effects,
            )
    }

    /// The controller after speech went on, started or stopped.
    pub open spec fn after_vad(self, was_speaking: bool, speaking: bool) -> ControllerView {
        if self.wakes(was_speaking, speaking) {
            ControllerView { state: State::User, ..self }
        } else {
            self
        }
    }

    /// Whether speech that starts begins the user's turn.
    pub open spec fn wakes(self, was_speaking: bool, speaking: bool) -> bool {
        speaking && !was_speaking && self.state == State::Idle
    }
}

/// Keeps the conversation's state, collects what is said and hands it on.
pub struct Controller {
    state: State,
    reconciler: ContextReconciler,
    cue_detector: CueDetector,
    partial_transcript: String,
    web: bool,
    gated: bool,
}

impl View for Controller {
    type V = ControllerView;

    closed spec fn view(&self) -> ControllerView {
        ControllerView {
            state: self.state,
            buffer: self.reconciler@,
            cues: self.cue_detector@,
            heard: self.partial_transcript@,
            web: self.web,
            gated: self.gated,
        }
    }
}

fn name_of(state: State) -> (name: String)
    ensures
        name@ == label(state),
{
    match state {
        State::Idle => "idle".to_owned(),
        State::User => "user".to_owned(),
        State::Gating => "gating".to_owned(),
        State::Thinking => "thinking".to_owned(),
    }
}

fn signal_of(cue: CueType) -> (name: String)
    ensures
        name@ == cue_name(cue),
{
    match cue {
        CueType::Interjection => "Interjection".to_owned(),
        CueType::Correction => "Correction".to_owned(),
        CueType::Backchannel => "Backchannel".to_owned(),
        CueType::Append => "Append".to_owned(),
        CueType::Continue => "Continue".to_owned(),
    }
}

impl Controller {
    /// The settings that the controller goes by.
    pub closed spec fn settings(self) -> Config {
        self.cue_detector.settings()
    }

    /// A controller for these settings. `web` tells whether a page listens, `gated` whether
    /// a listener decides when speech is handed on.
    pub fn new(config: Config, web: bool, gated: bool) -> (controller: Self)
        ensures
            controller@ == ControllerView::initial(cues_of(config), web, gated),
            controller.settings() == config,
            controller@.buffer.valid(),
    {
        Controller {
            cue_detector: CueDetector::new(config),
            reconciler: ContextReconciler::new(),
            state: State::Idle,
            partial_transcript: String::new(),
            web,
            gated,
        }
    }

    /// The settings.
    pub fn config(&self) -> (config: &Config)
        ensures
            *config == self.settings(),
            self@.cues == cues_of(*config),
    {
        self.cue_detector.config()
    }

    /// Whose turn it is.
    pub fn state(&self) -> (state: State)
        ensures
            state == self@.state,
    {
        self.state
    }

    /// Whether the buffer can count one more turn.
    pub fn has_room(&self) -> (room: bool)
        ensures
            room == (self@.buffer.counter < u64::MAX),
    {
        self.reconciler.has_room()
    }

    /// The message that names a state, if a page listens.
    pub fn broadcast_state(&self, state: State) -> (effects: Vec<Effect>)
        ensures
            effect_views(effects@) == self@.to_page(seq![EffectView::State(label(state))]),
            self@.web ==> effect_views(effects@) == seq![EffectView::State(label(state))],
            !self@.web ==> effects@.len() == 0,
    {
        let mut effects: Vec<Effect> = Vec::new();
        if self.web {
            effects.push(Effect::State(name_of(state)));
        }
        proof {
            assert(effect_views(effects@) =~= self@.to_page(
                seq![EffectView::State(label(state))],
            ));
        }
        effects
    }

    /// Speech started or went on: in the idle state its start is the user's turn.
    pub fn on_vad(&mut self, was_speaking: bool, speaking: bool) -> (effects: Vec<Effect>)
        ensures
            old(self)@.wakes(was_speaking, speaking) ==> final(self)@ == (ControllerView {
                state: State::User,
                ..old(self)@
            }) && effect_views(effects@) == old(self)@.to_page(
                seq![EffectView::State(label(State::User))],
            ),
            !old(self)@.wakes(was_speaking, speaking) ==> final(self)@ == old(self)@
                && effects@.len() == 0,
            final(self)@ == old(self)@.after_vad(was_speaking, speaking),
            final(self).settings() == old(self).settings(),
    {
        if speaking && !was_speaking && self.state == State::Idle {
            self.state = State::User;
            return self.broadcast_state(State::User);
        }
        Vec::new()
    }

    /// Takes in a result that was heard just now.
    pub fn on_asr_result(&mut self, result: AsrResult) -> (effects: Vec<Effect>)
        requires
            old(self)@.adds_turn(
                result@,
                old(self)@.cues.class(normalized(result@.text)),
            ) ==> old(self)@.buffer.counter < u64::MAX,
        ensures
            old(self)@.hears(result@, final(self)@, effect_views(effects@)),
            lowers_ascii(result@.text),
            old(self)@.buffer.valid() ==> final(self)@.buffer.valid(),
            final(self).settings() == old(self).settings(),
    {
        let cue = self.cue_detector.detect(&result.text);
        let now: u128 = clock::now();
        let effects = self.on_asr_result_at(result, cue, now);
        proof {
            assert(old(self)@.takes_in(result@, cue, now, self@, effect_views(effects@)));
        }
        effects
    }

    /// Takes in a result that was heard just now, if it can be counted. `None` is a full
    /// buffer, which is left as it was.
    pub fn try_asr_result(&mut self, result: AsrResult) -> (effects: Option<Vec<Effect>>)
        ensures
            effects is None <==> old(self)@.adds_turn(
                result@,
                old(self)@.cues.class(normalized(result@.text)),
            ) && old(self)@.buffer.counter >= u64::MAX,
            effects is None ==> final(self)@ == old(self)@,
            effects matches Some(effects) ==> old(self)@.hears(
                result@,
                final(self)@,
                effect_views(effects@),
            ),
            lowers_ascii(result@.text),
            old(self)@.buffer.valid() ==> final(self)@.buffer.valid(),
            final(self).settings() == old(self).settings(),
    {
        let cue = self.cue_detector.detect(&result.text);
        let adds = match result.source {
            AsrSource::Partial => self.state == State::Thinking && matches!(
                cue,
                CueType::Interjection | CueType::Correction
            ),
            AsrSource::Final => !trimmed(&result.text).is_empty(),
        };
        proof {
            assert(adds == old(self)@.adds_turn(result@, cue));
        }
        if adds && !self.has_room() {
            return None;
        }
        Some(self.on_asr_result(result))
    }

    /// Takes in a result with this cue that was heard at `now`.
    pub fn on_asr_result_at(&mut self, result: AsrResult, cue: CueType, now: u128) -> (effects: Vec<
        Effect,
    >)
        requires
            old(self)@.adds_turn(result@, cue) ==> old(self)@.buffer.counter < u64::MAX,
        ensures
            final(self)@ == old(self)@.after_result(result@, cue, now),
            effect_views(effects@) == old(self)@.result_effects(result@, cue, now),
            old(self)@.buffer.valid() ==> final(self)@.buffer.valid(),
            final(self).settings() == old(self).settings(),
    {
        self.partial_transcript = result.text.clone();
        let mut effects: Vec<Effect> = Vec::new();
        match result.source {
            AsrSource::Partial => {
                if self.web {
                    effects.push(
                        Effect::Transcript {
                            text: result.text.clone(),
                            kind: "partial".to_owned(),
                        },
                    );
                }
                if matches!(cue, CueType::Interjection | CueType::Correction) && self.state
                    == State::Thinking {
                    self.reconciler.add_turn_at(
                        TurnType::Interjection,
                        result.text,
                        Some(signal_of(cue)),
                        now,
                    );
                }
            },
            AsrSource::Final => {
                if !trimmed(&result.text).is_empty() {
                    self.reconciler.add_turn_at(TurnType::User, result.text, None, now);
                }
                if self.gated {
                    effects.push(Effect::SegmentFinalized);
                } else if self.state != State::Thinking {
                    return self.on_speech_end();
                }
            },
        }
        proof {
            assert(effect_views(effects@) =~= old(self)@.result_effects(result@, cue, now));
        }
        effects
    }

    /// Hands on what was said, if anything was, and starts to collect anew. With a thought
    /// to answer, the assistant's turn begins.
    pub fn on_speech_end(&mut self) -> (effects: Vec<Effect>)
        ensures
            final(self)@ == old(self)@.committed(),
            effect_views(effects@) == old(self)@.commit_effects(),
            final(self)@.buffer.valid(),
            final(self).settings() == old(self).settings(),
    {
        let mut effects: Vec<Effect> = Vec::new();
        let reconciled = self.reconciler.reconcile();
        self.reconciler.reset();
        if self.web {
            effects.push(Effect::State(name_of(State::Thinking)));
        }
        if trimmed(&reconciled).is_empty() {
            self.state = State::Idle;
            if self.web {
                effects.push(Effect::State(name_of(State::Idle)));
            }
        } else {
            self.state = State::Thinking;
            if self.web {
                let mut line = "submitting: ".to_owned();
                line.append(&reconciled);
                effects.push(Effect::Transcript { text: reconciled, kind: "submit".to_owned() });
                effects.push(Effect::Log(line));
            }
        }
        proof {
            assert(effect_views(effects@) =~= old(self)@.commit_effects());
        }
        effects
    }

    /// The answer is complete: the assistant's turn is over. Unless a listener is in charge,
    /// what was said meanwhile is handed on at once.
    pub fn on_response_complete(&mut self) -> (effects: Vec<Effect>)
        ensures
            final(self)@ == old(self)@.answered(),
            effect_views(effects@) == old(self)@.answer_effects(),
            old(self)@.buffer.valid() ==> final(self)@.buffer.valid(),
            final(self).settings() == old(self).settings(),
    {
        let mut effects: Vec<Effect> = Vec::new();
        if self.state == State::Thinking {
            let reconciled = self.reconciler.reconcile();
            self.state = State::Idle;
            effects = self.broadcast_state(State::Idle);
            if !self.gated && !trimmed(&reconciled).is_empty() {
                let ghost before = effects@;
                let mut more = self.on_speech_end();
                let ghost after = more@;
                effects.append(&mut more);
                proof {
                    assert(effect_views(effects@) =~= effect_views(before) + effect_views(after));
                }
            }
        }
        proof {
            assert(effect_views(effects@) =~= old(self)@.answer_effects());
        }
        effects
    }

    /// Without a page nobody answers: the assistant's turn ends as soon as it has begun.
    pub fn settle(&mut self)
        ensures
            final(self)@ == (if old(self)@.web {
                old(self)@
            } else {
                old(self)@.answered()
            }),
            old(self)@.buffer.valid() ==> final(self)@.buffer.valid(),
            final(self).settings() == old(self).settings(),
    {
        if !self.web {
            self.on_response_complete();
        }
    }
}

/// What is heard for good is never dropped: a result that is final and not blank is in the
/// buffer before anything is handed on, whatever the state is.
pub proof fn law_finals_are_never_dropped(
    controller: ControllerView,
    result: AsrResultView,
    cue: CueType,
    now: u128,
)
    requires
        result.source == AsrSource::Final,
        !is_blank(result.text),
    ensures
        ({
            let added = controller.buffer.add_turn(TurnType::User, result.text, None, now);
            &&& controller.noted(result, cue, now).buffer == added
            &&& !controller.commits_after(result) ==> controller.after_result(
                result,
                cue,
                now,
            ).buffer == added
        }),
{
}

/// Speech begins the user's turn if and only if it starts while nobody has the turn, and it
/// changes nothing else.
pub proof fn law_speech_wakes_the_idle(
    controller: ControllerView,
    was_speaking: bool,
    speaking: bool,
)
    ensures
        controller.after_vad(was_speaking, speaking).state == (if controller.state == State::Idle
            && speaking && !was_speaking {
            State::User
        } else {
            controller.state
        }),
        controller.after_vad(was_speaking, speaking) == (ControllerView {
            state: controller.after_vad(was_speaking, speaking).state,
            ..controller
        }),
{
}

/// A turn that speech begins ends in a submission: without a listener, whoever has the turn
/// but the assistant, and with or without a page, a final result that is not blank is submitted
/// at once, trimmed, and the assistant has the turn.
pub proof fn law_speech_ends_in_a_submission(
    controller: ControllerView,
    was_speaking: bool,
    speaking: bool,
    result: AsrResultView,
    cue: CueType,
    now: u128,
)
    requires
        !controller.gated,
        controller.state != State::Thinking,
        controller.buffer == Buffer::empty(),
        result.source == AsrSource::Final,
        !is_blank(result.text),
    ensures
        ({
            let listening = controller.after_vad(was_speaking, speaking);
            let after = listening.after_result(result, cue, now);
            let effects = listening.result_effects(result, cue, now);
            &&& after.state == State::Thinking
            &&& after.buffer == Buffer::empty()
            &&& after.heard == result.text
            &&& controller.web ==> effects == seq![
                EffectView::State("thinking"@),
                EffectView::Transcript { text: trim(result.text), kind: "submit"@ },
                EffectView::Log("submitting: "@ + trim(result.text)),
            ]
            &&& !controller.web ==> effects.len() == 0
        }),
{
    let listening = controller.after_vad(was_speaking, speaking);
    let noted = listening.noted(result, cue, now);
    let effects = listening.result_effects(result, cue, now);
    law_pieces_make_one_turn(seq![result.text], seq![now]);
    assert(seq![result.text].drop_last() =~= Seq::<Seq<char>>::empty());
    assert(seq![now].drop_last() =~= Seq::<u128>::empty());
    assert(after_speech(Buffer::empty(), Seq::empty(), Seq::empty()) == Buffer::empty());
    assert(noted.buffer == after_speech(Buffer::empty(), seq![result.text], seq![now]));
    assert(joined(seq![result.text]) == result.text);
    lemma_trim_twice(result.text);
    if controller.web {
        assert(effects =~= seq![
            EffectView::State("thinking"@),
            EffectView::Transcript { text: trim(result.text), kind: "submit"@ },
            EffectView::Log("submitting: "@ + trim(result.text)),
        ]);
    }
}

/// What a final result leads to without a listener. It joins what was said. While the
/// assistant answers, it is only kept; at any other time all that was said is handed on, and the
/// assistant has the turn if there was a thought.
pub proof fn law_finals_without_a_listener(
    controller: ControllerView,
    result: AsrResultView,
    cue: CueType,
    now: u128,
)
    requires
        !controller.gated,
        result.source == AsrSource::Final,
    ensures
        ({
            let buffer = if is_blank(result.text) {
                controller.buffer
            } else {
                controller.buffer.add_turn(TurnType::User, result.text, None, now)
            };
            let text = buffer.reconciled();
            let after = controller.after_result(result, cue, now);
            let effects = controller.result_effects(result, cue, now);
            &&& after.heard == result.text
            &&& after.cues == controller.cues
            &&& after.web == controller.web
            &&& after.gated == controller.gated
            &&& controller.state == State::Thinking ==> after.state == State::Thinking
                && after.buffer == buffer && effects.len() == 0
            &&& controller.state != State::Thinking ==> {
                &&& after.buffer == Buffer::empty()
                &&& after.state == State::Idle <==> is_blank(text)
                &&& after.state == State::Thinking <==> !is_blank(text)
                &&& effects == (if !controller.web {
                    Seq::empty()
                } else if is_blank(text) {
                    seq![EffectView::State("thinking"@), EffectView::State("idle"@)]
                } else {
                    seq![
                        EffectView::State("thinking"@),
                        EffectView::Transcript { text, kind: "submit"@ },
                        EffectView::Log("submitting: "@ + text),
                    ]
                })
            }
        }),
{
    lemma_commit_effects(controller.noted(result, cue, now));
}

proof fn lemma_commit_effects(controller: ControllerView)
    ensures
        controller.commit_effects() == (if !controller.web {
            Seq::empty()
        } else if is_blank(controller.buffer.reconciled()) {
            seq![EffectView::State("thinking"@), EffectView::State("idle"@)]
        } else {
            seq![
                EffectView::State("thinking"@),
                EffectView::Transcript { text: controller.buffer.reconciled(), kind: "submit"@ },
                EffectView::Log("submitting: "@ + controller.buffer.reconciled()),
            ]
        }),
{
    let text = controller.buffer.reconciled();
    if controller.web {
        if is_blank(text) {
            assert(controller.commit_effects() =~= seq![
                EffectView::State("thinking"@),
                EffectView::State("idle"@),
            ]);
        } else {
            assert(controller.commit_effects() =~= seq![
                EffectView::State("thinking"@),
                EffectView::Transcript { text, kind: "submit"@ },
                EffectView::Log("submitting: "@ + text),
            ]);
        }
    }
}

/// What the end of speech leads to, whoever has the turn: all that was said is handed on, the
/// buffer is empty, and the assistant has the turn if and only if there was a thought.
pub proof fn law_end_of_speech(controller: ControllerView)
    ensures
        ({
            let text = controller.buffer.reconciled();
            let after = controller.committed();
            &&& after == (ControllerView {
                state: if is_blank(text) {
                    State::Idle
                } else {
                    State::Thinking
                },
                buffer: Buffer::empty(),
                ..controller
            })
            &&& controller.web && !is_blank(text) ==> controller.commit_effects() == seq![
                EffectView::State("thinking"@),
                EffectView::Transcript { text, kind: "submit"@ },
                EffectView::Log("submitting: "@ + text),
            ]
            &&& controller.web && is_blank(text) ==> controller.commit_effects() == seq![
                EffectView::State("thinking"@),
                EffectView::State("idle"@),
            ]
            &&& !controller.web ==> controller.commit_effects().len() == 0
        }),
{
    lemma_commit_effects(controller);
}

/// What the end of an answer leads to: nothing, where none was waited for. Else the turn is
/// over and the page is told; and without a listener a thought that was said meanwhile is
/// submitted right after.
pub proof fn law_end_of_answer(controller: ControllerView)
    ensures
        ({
            let text = controller.buffer.reconciled();
            let after = controller.answered();
            let effects = controller.answer_effects();
            let goes_on = !controller.gated && !is_blank(text);
            &&& controller.state != State::Thinking ==> after == controller && effects.len() == 0
            &&& controller.state == State::Thinking && !goes_on ==> after == (ControllerView {
                state: State::Idle,
                ..controller
            }) && effects == (if controller.web {
                seq![EffectView::State("idle"@)]
            } else {
                Seq::empty()
            })
            &&& controller.state == State::Thinking && goes_on ==> after == (ControllerView {
                buffer: Buffer::empty(),
                ..controller
            }) && effects == (if controller.web {
                seq![
                    EffectView::State("idle"@),
                    EffectView::State("thinking"@),
                    EffectView::Transcript { text, kind: "submit"@ },
                    EffectView::Log("submitting: "@ + text),
                ]
            } else {
                Seq::empty()
            })
        }),
{
    lemma_commit_effects(controller);
    let text = controller.buffer.reconciled();
    if controller.state == State::Thinking && controller.web {
        if !controller.gated && !is_blank(text) {
            assert(controller.answer_effects() =~= seq![
                EffectView::State("idle"@),
                EffectView::State("thinking"@),
                EffectView::Transcript { text, kind: "submit"@ },
                EffectView::Log("submitting: "@ + text),
            ]);
        } else {
            assert(controller.answer_effects() =~= seq![EffectView::State("idle"@)]);
        }
    } else {
        assert(controller.answer_effects() =~= Seq::empty());
    }
}

/// A partial result is shown on the page as it was heard, whoever has the turn, and leaves
/// the turn where it was. It is noted only as a signal, and only when it cuts into an answer to
/// interject or to correct.
pub proof fn law_partials_are_shown(
    controller: ControllerView,
    result: AsrResultView,
    cue: CueType,
    now: u128,
)
    requires
        result.source == AsrSource::Partial,
    ensures
        ({
            let after = controller.after_result(result, cue, now);
            let effects = controller.result_effects(result, cue, now);
            let buffer = controller.buffer;
            &&& after == (ControllerView { heard: result.text, buffer: after.buffer, ..controller })
            &&& controller.web ==> effects == seq![
                EffectView::Transcript { text: result.text, kind: "partial"@ },
            ]
            &&& !controller.web ==> effects.len() == 0
            &&& after.buffer.reconciled() == buffer.reconciled()
            &&& after.buffer == (if controller.state == State::Thinking && cue
                == CueType::Interjection {
                buffer.add_turn(TurnType::Interjection, result.text, Some("Interjection"@), now)
            } else if controller.state == State::Thinking && cue == CueType::Correction {
                buffer.add_turn(TurnType::Interjection, result.text, Some("Correction"@), now)
            } else {
                buffer
            })
        }),
{
    law_interjection_is_stripped(controller.buffer, result.text, Some(cue_name(cue)), now);
}

/// With a listener in charge a final result is kept and the listener is called, and nothing
/// else happens: neither is anything submitted nor is the turn passed on.
pub proof fn law_finals_with_a_listener(
    controller: ControllerView,
    result: AsrResultView,
    cue: CueType,
    now: u128,
)
    requires
        controller.gated,
        result.source == AsrSource::Final,
    ensures
        controller.after_result(result, cue, now) == (ControllerView {
            heard: result.text,
            buffer: if is_blank(result.text) {
                controller.buffer
            } else {
                controller.buffer.add_turn(TurnType::User, result.text, None, now)
            },
            ..controller
        }),
        controller.result_effects(result, cue, now) == seq![EffectView::SegmentFinalized],
{
}

/// To hear a result is to take it in at some time, with the class of its words, trimmed and in
/// lower case.
pub proof fn law_results_are_heard_in_full(
    controller: ControllerView,
    result: AsrResultView,
    after: ControllerView,
    effects: Seq<EffectView>,
)
    requires
        controller.hears(result, after, effects),
    ensures
        ({
            let cue = controller.cues.class(trim(lowercase(result.text)));
            exists|now: u128|
                after == #[trigger] controller.after_result(result, cue, now) && effects
                    == controller.result_effects(result, cue, now)
        }),
{
    let cue = controller.cues.class(trim(lowercase(result.text)));
    let now = choose|now: u128| #[trigger] controller.takes_in(result, cue, now, after, effects);
    assert(after == controller.after_result(result, cue, now));
}

/// With a listener in charge, results leave the state alone, and each final one calls the
/// listener.
pub proof fn law_listener_is_called(
    controller: ControllerView,
    result: AsrResultView,
    cue: CueType,
    now: u128,
)
    requires
        controller.gated,
    ensures
        controller.after_result(result, cue, now).state == controller.state,
        result.source == AsrSource::Final ==> controller.result_effects(result, cue, now) == seq![
            EffectView::SegmentFinalized,
        ],
{
}

/// A submitted thought begins the assistant's turn, and only the complete answer ends it:
/// neither results nor speech do.
pub proof fn law_answer_is_waited_for(
    controller: ControllerView,
    result: AsrResultView,
    cue: CueType,
    now: u128,
)
    ensures
        !is_blank(controller.buffer.reconciled()) ==> controller.committed().state
            == State::Thinking,
        controller.state == State::Thinking ==> controller.after_result(result, cue, now).state
            == State::Thinking,
        controller.state == State::Thinking ==> forall|was: bool, speaking: bool|
            !controller.wakes(was, speaking),
{
}

proof fn lemma_parts(turns: Seq<TurnView>)
    ensures
        forall|i: int| 0 <= i < parts(turns).len() ==> !is_blank(#[trigger] parts(turns)[i]),
    decreases turns.len(),
{
    if turns.len() > 0 {
        lemma_parts(turns.drop_last());
        lemma_trim_twice(turns.last().text);
        let before = parts(turns.drop_last());
        assert forall|i: int| 0 <= i < parts(turns).len() implies !is_blank(
            #[trigger] parts(turns)[i],
        ) by {
            if i < before.len() {
                assert(parts(turns)[i] == before[i]);
            }
        }
    }
}

/// What is said while the assistant answers is handed on as soon as the answer is complete,
/// unless a listener is in charge.
pub proof fn law_speech_during_the_answer_is_handed_on(
    controller: ControllerView,
    result: AsrResultView,
    cue: CueType,
    now: u128,
)
    requires
        controller.state == State::Thinking,
        !controller.gated,
        result.source == AsrSource::Final,
        !is_blank(result.text),
    ensures
        ({
            let after = controller.after_result(result, cue, now);
            let text = after.buffer.reconciled();
            &&& !is_blank(text)
            &&& after.answered().state == State::Thinking
            &&& after.answered().buffer == Buffer::empty()
            &&& controller.web ==> after.answer_effects() == seq![
                EffectView::State(label(State::Idle)),
                EffectView::State(label(State::Thinking)),
                EffectView::Transcript { text, kind: "submit"@ },
                EffectView::Log("submitting: "@ + text),
            ]
        }),
{
    let after = controller.after_result(result, cue, now);
    let turns = after.buffer.turns;
    let text = after.buffer.reconciled();
    let last = turns.last();
    lemma_blank(result.text);
    let i = choose|i: int|
        0 <= i < result.text.len() && !is_white_space(#[trigger] result.text[i]);
    lemma_blank(last.text);
    let shift = last.text.len() - result.text.len();
    assert(last.text[shift + i] == result.text[i]);
    assert(!is_blank(last.text));
    assert(parts(turns).len() > 0);
    lemma_parts(turns);
    assert(!is_blank(parts(turns)[0]));
    lemma_joined_not_blank(parts(turns));
    if controller.web {
        assert(after.answer_effects() =~= seq![
            EffectView::State(label(State::Idle)),
            EffectView::State(label(State::Thinking)),
            EffectView::Transcript { text, kind: "submit"@ },
            EffectView::Log("submitting: "@ + text),
        ]);
    }
}

/// While the assistant answers, only a cue to cut in or to correct reaches the buffer; signs
/// of attention are ignored.
pub proof fn law_attention_does_not_interrupt(
    controller: ControllerView,
    result: AsrResultView,
    cue: CueType,
    now: u128,
)
    requires
        result.source == AsrSource::Partial,
        cue != CueType::Interjection,
        cue != CueType::Correction,
    ensures
        controller.after_result(result, cue, now).buffer == controller.buffer,
        controller.after_result(result, cue, now).state == controller.state,
{
}

/// An utterance that opens with a sign of attention is not taken for an interruption,
/// whatever words follow.
pub proof fn law_backchannels_do_not_interrupt(
    controller: ControllerView,
    result: AsrResultView,
    now: u128,
)
    requires
        result.source == AsrSource::Partial,
        opens_with_any(normalized(result.text), controller.cues.backchannels),
    ensures
        ({
            let cue = controller.cues.class(normalized(result.text));
            controller.after_result(result, cue, now).buffer == controller.buffer
        }),
{
}

/// A controller after these final results, with these cues and at these times.
pub open spec fn after_finals(
    controller: ControllerView,
    said: Seq<Seq<char>>,
    cues: Seq<CueType>,
    times: Seq<u128>,
) -> ControllerView
    decreases said.len(),
{
    if said.len() == 0 {
        controller
    } else {
        after_finals(
            controller,
            said.drop_last(),
            cues.drop_last(),
            times.drop_last(),
        ).after_result(
            AsrResultView { text: said.last(), is_final: true, source: AsrSource::Final },
            cues.last(),
            times.last(),
        )
    }
}

proof fn lemma_finals(
    controller: ControllerView,
    said: Seq<Seq<char>>,
    cues: Seq<CueType>,
    times: Seq<u128>,
)
    requires
        controller.gated,
        forall|i: int| 0 <= i < said.len() ==> !is_blank(#[trigger] said[i]),
    ensures
        after_finals(controller, said, cues, times).buffer == after_speech(
            controller.buffer,
            said,
            times,
        ),
        after_finals(controller, said, cues, times).gated,
        after_finals(controller, said, cues, times).web == controller.web,
    decreases said.len(),
{
    if said.len() > 0 {
        let shorter = said.drop_last();
        assert forall|i: int| 0 <= i < shorter.len() implies !is_blank(#[trigger] shorter[i]) by {
            assert(shorter[i] == said[i]);
        }
        lemma_finals(controller, shorter, cues.drop_last(), times.drop_last());
        assert(!is_blank(said.last()));
    }
}

proof fn lemma_joined_not_blank(said: Seq<Seq<char>>)
    requires
        said.len() > 0,
        !is_blank(said[0]),
    ensures
        !is_blank(joined(said)),
    decreases said.len(),
{
    if said.len() > 1 {
        let start = joined(said.drop_last());
        lemma_joined_not_blank(said.drop_last());
        lemma_blank(start);
        lemma_blank(joined(said));
        let i = choose|i: int| 0 <= i < start.len() && !is_white_space(#[trigger] start[i]);
        assert(joined(said)[i] == start[i]);
    }
}

/// What a user says over several pauses is handed on once, as one text: the pieces in their
/// order, with a space between each two.
pub proof fn law_pieces_are_submitted_together(
    controller: ControllerView,
    said: Seq<Seq<char>>,
    cues: Seq<CueType>,
    times: Seq<u128>,
)
    requires
        controller.gated,
        controller.web,
        controller.buffer == Buffer::empty(),
        said.len() > 0,
        cues.len() == said.len(),
        times.len() == said.len(),
        forall|i: int| 0 <= i < said.len() ==> !is_blank(#[trigger] said[i]),
    ensures
        ({
            let text = trim(joined(said));
            let after = after_finals(controller, said, cues, times);
            &&& after.commit_effects() == seq![
                EffectView::State(label(State::Thinking)),
                EffectView::Transcript { text, kind: "submit"@ },
                EffectView::Log("submitting: "@ + text),
            ]
            &&& after.committed().state == State::Thinking
        }),
{
    let after = after_finals(controller, said, cues, times);
    let text = trim(joined(said));
    lemma_finals(controller, said, cues, times);
    law_pieces_make_one_turn(said, times);
    assert(!is_blank(said[0]));
    lemma_joined_not_blank(said);
    lemma_trim_twice(joined(said));
    assert(after.commit_effects() =~= seq![
        EffectView::State(label(State::Thinking)),
        EffectView::Transcript { text, kind: "submit"@ },
        EffectView::Log("submitting: "@ + text),
    ]);
}

/// Without a page no message for one is made.
pub proof fn law_no_page_no_messages(
    controller: ControllerView,
    result: AsrResultView,
    cue: CueType,
    now: u128,
)
    requires
        !controller.web,
        !controller.gated,
    ensures
        controller.result_effects(result, cue, now).len() == 0,
        controller.commit_effects().len() == 0,
        controller.answer_effects().len() == 0,
{
}

} // verus!
