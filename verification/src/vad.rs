//! Voice activity: when a run of loud frames becomes speech, and when it ends.

use vstd::prelude::*;

verus! {

/// Tells speech from silence by how many frames in a row were loud or quiet.
pub struct EnergyVad {
    min_speech_frames: u32,
    min_silence_frames: u32,
    triggered: bool,
    speaking: bool,
    speech_frames: u32,
    silence_frames: u32,
}

/// A detector as its limits and counters.
pub struct VadState {
    pub min_speech: nat,
    pub min_silence: nat,
    pub speaking: bool,
    /// Loud frames in a row, up to the last frame.
    pub speech: nat,
    /// Quiet frames in a row, up to the last frame.
    pub silence: nat,
}

impl VadState {
    /// A detector before its first frame.
    pub open spec fn initial(min_speech: nat, min_silence: nat) -> VadState {
        VadState { min_speech, min_silence, speaking: false, speech: 0, silence: 0 }
    }

    /// The detector after one more frame.
    pub open spec fn step(self, loud: bool) -> VadState {
        let speech = if loud { self.speech + 1 } else { 0 };
        let silence = if loud { 0 } else { self.silence + 1 };
        if !self.speaking {
            VadState { speaking: loud && speech >= self.min_speech, speech, silence, ..self }
        } else if silence >= self.min_silence {
            VadState { speaking: false, speech: 0, silence: 0, ..self }
        } else {
            VadState { speech, silence, ..self }
        }
    }

    /// The detector after these frames.
    pub open spec fn run(self, frames: Seq<bool>) -> VadState
        decreases frames.len(),
    {
        if frames.len() == 0 {
            self
        } else {
            self.run(frames.drop_last()).step(frames.last())
        }
    }
}

impl View for EnergyVad {
    type V = VadState;

    closed spec fn view(&self) -> VadState {
        VadState {
            min_speech: self.min_speech_frames as nat,
            min_silence: self.min_silence_frames as nat,
            speaking: self.speaking,
            speech: self.speech_frames as nat,
            silence: self.silence_frames as nat,
        }
    }
}

impl EnergyVad {
    #[verifier::type_invariant]
    spec fn well_formed(self) -> bool {
        self.triggered == self.speaking
    }

    /// A detector for frames of `frame_ms` each.
    pub fn new(min_speech_ms: u32, min_silence_ms: u32, frame_ms: u32) -> (vad: Self)
        requires
            frame_ms > 0,
        ensures
            vad@ == VadState::initial(
                (min_speech_ms / frame_ms) as nat,
                (min_silence_ms / frame_ms) as nat,
            ),
    {
        EnergyVad {
            min_speech_frames: min_speech_ms / frame_ms,
            min_silence_frames: min_silence_ms / frame_ms,
            triggered: false,
            speaking: false,
            speech_frames: 0,
            silence_frames: 0,
        }
    }

    /// Whether one more frame can be counted.
    pub fn has_room(&self, is_speech: bool) -> (room: bool)
        ensures
            room == (if is_speech {
                self@.speech < u32::MAX
            } else {
                self@.silence < u32::MAX
            }),
    {
        if is_speech {
            self.speech_frames < u32::MAX
        } else {
            self.silence_frames < u32::MAX
        }
    }

    /// Takes in one frame, loud or not, and tells whether speech is going on.
    pub fn process(&mut self, is_speech: bool) -> (speaking: bool)
        requires
            is_speech ==> old(self)@.speech < u32::MAX,
            !is_speech ==> old(self)@.silence < u32::MAX,
        ensures
            final(self)@ == old(self)@.step(is_speech),
            speaking == final(self)@.speaking,
    {
        proof {
            use_type_invariant(&*self);
        }
        if is_speech {
            self.speech_frames += 1;
            self.silence_frames = 0;
        } else {
            self.silence_frames += 1;
            self.speech_frames = 0;
        }
        if !self.triggered {
            if self.speech_frames >= self.min_speech_frames && is_speech {
                *self = EnergyVad { triggered: true, speaking: true, ..*self };
                return true;
            }
            return false;
        }
        if self.silence_frames >= self.min_silence_frames && self.speaking {
            *self =
            EnergyVad {
                triggered: false,
                speaking: false,
                speech_frames: 0,
                silence_frames: 0,
                ..*self
            };
            return false;
        }
        self.speaking
    }

    /// Whether speech is going on.
    pub fn is_speaking(&self) -> (speaking: bool)
        ensures
            speaking == self@.speaking,
    {
        self.speaking
    }
}

/// The counters never run ahead of the frames: each counts loud or quiet frames that
/// stand in a row at the end.
proof fn lemma_counters(start: VadState, frames: Seq<bool>)
    requires
        start.speech == 0,
        start.silence == 0,
    ensures
        ({
            let state = start.run(frames);
            let n = frames.len();
            &&& state.min_speech == start.min_speech
            &&& state.min_silence == start.min_silence
            &&& state.speech <= n
            &&& state.silence <= n
            &&& forall|i: int| n - state.speech <= i < n ==> #[trigger] frames[i]
            &&& forall|i: int| n - state.silence <= i < n ==> !#[trigger] frames[i]
        }),
    decreases frames.len(),
{
    if frames.len() > 0 {
        let shorter = frames.drop_last();
        lemma_counters(start, shorter);
        assert(forall|i: int| 0 <= i < shorter.len() ==> #[trigger] frames[i] == shorter[i]);
    }
}

/// Speech starts only with a loud frame that completes a row of at least `min_speech`
/// loud frames.
pub proof fn law_onset_needs_sustained_speech(
    min_speech: nat,
    min_silence: nat,
    frames: Seq<bool>,
)
    requires
        frames.len() > 0,
        !VadState::initial(min_speech, min_silence).run(frames.drop_last()).speaking,
        VadState::initial(min_speech, min_silence).run(frames).speaking,
    ensures
        frames.last(),
        frames.len() >= min_speech,
        forall|i: int| frames.len() - min_speech <= i < frames.len() ==> #[trigger] frames[i],
{
    lemma_counters(VadState::initial(min_speech, min_silence), frames.drop_last());
    lemma_counters(VadState::initial(min_speech, min_silence), frames);
}

/// Speech ends only after at least `min_silence` quiet frames in a row.
pub proof fn law_release_needs_sustained_silence(
    min_speech: nat,
    min_silence: nat,
    frames: Seq<bool>,
)
    requires
        frames.len() > 0,
        VadState::initial(min_speech, min_silence).run(frames.drop_last()).speaking,
        !VadState::initial(min_speech, min_silence).run(frames).speaking,
    ensures
        frames.len() >= min_silence,
        forall|i: int| frames.len() - min_silence <= i < frames.len() ==> !#[trigger] frames[i],
{
    let shorter = frames.drop_last();
    lemma_counters(VadState::initial(min_speech, min_silence), shorter);
    assert(forall|i: int| 0 <= i < shorter.len() ==> #[trigger] frames[i] == shorter[i]);
}

/// A silent detector that hears enough loud frames in a row is speaking after the last of
/// them, unless it is set up to end speech at once.
pub proof fn law_sustained_speech_starts(state: VadState, frames: Seq<bool>)
    requires
        !state.speaking,
        state.min_silence > 0,
        frames.len() > 0,
        state.speech + frames.len() >= state.min_speech,
        forall|i: int| 0 <= i < frames.len() ==> #[trigger] frames[i],
    ensures
        state.run(frames).speaking,
{
    lemma_loud_run(state, frames);
}

proof fn lemma_loud_run(state: VadState, frames: Seq<bool>)
    requires
        !state.speaking,
        state.min_silence > 0,
        forall|i: int| 0 <= i < frames.len() ==> #[trigger] frames[i],
    ensures
        ({
            let after = state.run(frames);
            &&& after.min_speech == state.min_speech
            &&& after.min_silence == state.min_silence
            &&& after.speech == state.speech + frames.len()
            &&& after.speaking || after.speech < state.min_speech || frames.len() == 0
        }),
    decreases frames.len(),
{
    if frames.len() > 0 {
        lemma_loud_run(state, frames.drop_last());
        assert(frames.last());
    }
}

/// A speaking detector goes silent with the quiet frame that fills up `min_silence`.
pub proof fn law_sustained_silence_ends_speech(state: VadState, frames: Seq<bool>)
    requires
        state.speaking,
        state.silence < state.min_silence,
        frames.len() == state.min_silence - state.silence,
        forall|i: int| 0 <= i < frames.len() ==> !#[trigger] frames[i],
    ensures
        !state.run(frames).speaking,
{
    lemma_quiet_run(state, frames.drop_last());
    assert(!frames.last());
}

proof fn lemma_quiet_run(state: VadState, frames: Seq<bool>)
    requires
        state.speaking,
        state.silence + frames.len() < state.min_silence,
        forall|i: int| 0 <= i < frames.len() ==> !#[trigger] frames[i],
    ensures
        ({
            let after = state.run(frames);
            &&& after.speaking
            &&& after.min_silence == state.min_silence
            &&& after.silence == state.silence + frames.len()
        }),
    decreases frames.len(),
{
    if frames.len() > 0 {
        lemma_quiet_run(state, frames.drop_last());
        assert(!frames.last());
    }
}

} // verus!
