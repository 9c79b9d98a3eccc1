//! The words by which a speaker cuts in, corrects, goes on or only shows attention.

use crate::config::Config;
use crate::text::{
    chars, contains, holds, lowercase, lowercased, lowers_ascii, occurs_at, stands_at, starts_with,
    texts, trim, trimmed,
};
use vstd::prelude::*;

verus! {

broadcast use vstd::string::group_string_axioms;

/// What a speaker means by an utterance.
#[derive(Debug, Clone, Copy, PartialEq, Eq, Structural)]
pub enum CueType {
    Interjection,
    Correction,
    Backchannel,
    Append,
    Continue,
}

/// The words of each class.
pub struct Cues {
    pub backchannels: Seq<Seq<char>>,
    pub interjections: Seq<Seq<char>>,
    pub corrections: Seq<Seq<char>>,
    pub appends: Seq<Seq<char>>,
}

/// The words that the settings name.
pub open spec fn cues_of(config: Config) -> Cues {
    Cues {
        backchannels: texts(config.backchannel_cues@),
        interjections: texts(config.interjection_cues@),
        corrections: texts(config.correction_signals@),
        appends: texts(config.append_signals@),
    }
}

/// An utterance in lower case, without the white space around it.
pub open spec fn normalized(transcript: Seq<char>) -> Seq<char> {
    trim(lowercase(transcript))
}

/// The text with a space on either side.
pub open spec fn spaced(text: Seq<char>) -> Seq<char> {
    seq![' '] + text.push(' ')
}

/// Whether the utterance is the word, or the word and more words.
pub open spec fn opens_with_word(utterance: Seq<char>, word: Seq<char>) -> bool {
    utterance == word || starts_with(utterance, word.push(' '))
}

/// Whether the utterance begins with the letters of the word, or holds the word between
/// spaces.
pub open spec fn mentions(utterance: Seq<char>, word: Seq<char>) -> bool {
    starts_with(utterance, word) || contains(spaced(utterance), spaced(word))
}

/// Whether the utterance opens with any of the words.
pub open spec fn opens_with_any(utterance: Seq<char>, words: Seq<Seq<char>>) -> bool {
    exists|i: int| 0 <= i < words.len() && opens_with_word(utterance, #[trigger] words[i])
}

/// Whether the utterance mentions any of the words.
pub open spec fn mentions_any(utterance: Seq<char>, words: Seq<Seq<char>>) -> bool {
    exists|i: int| 0 <= i < words.len() && mentions(utterance, #[trigger] words[i])
}

impl Cues {
    /// The class of a normalized utterance.
    pub open spec fn class(self, utterance: Seq<char>) -> CueType {
        if opens_with_any(utterance, self.backchannels) {
            CueType::Backchannel
        } else if mentions_any(utterance, self.interjections) {
            CueType::Interjection
        } else if mentions_any(utterance, self.corrections) {
            CueType::Correction
        } else if mentions_any(utterance, self.appends) {
            CueType::Append
        } else {
            CueType::Continue
        }
    }
}

/// Finds cues in what the recognizer heard.
pub struct CueDetector {
    config: Config,
}

impl View for CueDetector {
    type V = Cues;

    closed spec fn view(&self) -> Cues {
        cues_of(self.config)
    }
}

impl CueDetector {
    /// The settings that the detector goes by.
    pub closed spec fn settings(self) -> Config {
        self.config
    }

    /// A detector for the words that the settings name.
    pub fn new(config: Config) -> (detector: Self)
        ensures
            detector@ == cues_of(config),
            detector.settings() == config,
    {
        CueDetector { config }
    }

    /// The settings that the detector goes by.
    pub fn config(&self) -> (config: &Config)
        ensures
            *config == self.settings(),
            self@ == cues_of(*config),
    {
        &self.config
    }

    /// The class of an utterance. Backchannels come before interjections, these before
    /// corrections, and these before additions.
    pub fn detect(&self, transcript: &str) -> (cue: CueType)
        ensures
            cue == self@.class(normalized(transcript@)),
            cue == self@.class(trim(lowercase(transcript@))),
            lowers_ascii(transcript@),
    {
        let lower = lowercased(transcript);
        self.classify(trimmed(&lower))
    }

    /// The class of an utterance that is in lower case and trimmed.
    pub fn classify(&self, utterance: &str) -> (cue: CueType)
        ensures
            cue == self@.class(utterance@),
    {
        let list = chars(utterance);
        let padded = padded(&list);
        if opens_with_one(&list, &self.config.backchannel_cues) {
            CueType::Backchannel
        } else if mentions_one(&list, &padded, &self.config.interjection_cues) {
            CueType::Interjection
        } else if mentions_one(&list, &padded, &self.config.correction_signals) {
            CueType::Correction
        } else if mentions_one(&list, &padded, &self.config.append_signals) {
            CueType::Append
        } else {
            CueType::Continue
        }
    }
}

/// The characters with a space on either side.
fn padded(list: &Vec<char>) -> (result: Vec<char>)
    ensures
        result@ == spaced(list@),
{
    let mut result: Vec<char> = Vec::new();
    result.push(' ');
    for i in 0..list.len()
        invariant
            result@ == seq![' '] + list@.take(i as int),
    {
        result.push(list[i]);
        proof {
            assert(list@.take(i + 1) =~= list@.take(i as int).push(list@[i as int]));
            assert(result@ =~= seq![' '] + list@.take(i + 1));
        }
    }
    result.push(' ');
    proof {
        assert(result@ =~= spaced(list@));
    }
    result
}

fn opens_with_one(utterance: &Vec<char>, words: &Vec<String>) -> (found: bool)
    ensures
        found == opens_with_any(utterance@, texts(words@)),
{
    for i in 0..words.len()
        invariant
            forall|k: int|
                0 <= k < i ==> !opens_with_word(utterance@, #[trigger] texts(words@)[k]),
    {
        let mut word = chars(&words[i]);
        let ghost bare = word@;
        proof {
            assert(texts(words@)[i as int] == bare);
        }
        if utterance.len() == word.len() && stands_at(utterance, &word, 0) {
            proof {
                assert(utterance@.subrange(0, bare.len() as int) =~= utterance@);
                assert(opens_with_word(utterance@, texts(words@)[i as int]));
            }
            return true;
        }
        proof {
            assert(utterance@.subrange(0, utterance@.len() as int) =~= utterance@);
        }
        word.push(' ');
        if stands_at(utterance, &word, 0) {
            proof {
                assert(opens_with_word(utterance@, texts(words@)[i as int]));
            }
            return true;
        }
    }
    false
}

fn mentions_one(utterance: &Vec<char>, padded_utterance: &Vec<char>, words: &Vec<String>) -> (found:
    bool)
    requires
        padded_utterance@ == spaced(utterance@),
    ensures
        found == mentions_any(utterance@, texts(words@)),
{
    for i in 0..words.len()
        invariant
            padded_utterance@ == spaced(utterance@),
            forall|k: int| 0 <= k < i ==> !mentions(utterance@, #[trigger] texts(words@)[k]),
    {
        let word = chars(&words[i]);
        proof {
            assert(texts(words@)[i as int] == word@);
        }
        if stands_at(utterance, &word, 0) || holds(padded_utterance, &padded(&word)) {
            proof {
                assert(mentions(utterance@, texts(words@)[i as int]));
            }
            return true;
        }
    }
    false
}

/// Whether the word stands in the utterance at position `i` with nothing but spaces next to
/// it.
pub open spec fn stands_alone(utterance: Seq<char>, word: Seq<char>, i: int) -> bool {
    &&& 0 <= i <= i + word.len() <= utterance.len()
    &&& forall|k: int| 0 <= k < word.len() ==> utterance[i + k] == #[trigger] word[k]
    &&& i == 0 || utterance[i - 1] == ' '
    &&& i + word.len() == utterance.len() || utterance[i + word.len()] == ' '
}

/// Whether the utterance begins with the letters of the word.
pub open spec fn begins(utterance: Seq<char>, word: Seq<char>) -> bool {
    word.len() <= utterance.len() && forall|k: int|
        0 <= k < word.len() ==> utterance[k] == #[trigger] word[k]
}

/// Whether one of the words begins the utterance or stands alone somewhere in it.
pub open spec fn has_cue(utterance: Seq<char>, words: Seq<Seq<char>>) -> bool {
    exists|w: int|
        0 <= w < words.len() && (begins(utterance, #[trigger] words[w]) || exists|i: int|
            stands_alone(utterance, words[w], i))
}

proof fn lemma_begins(utterance: Seq<char>, word: Seq<char>)
    ensures
        starts_with(utterance, word) <==> begins(utterance, word),
{
    if starts_with(utterance, word) {
        assert forall|k: int| 0 <= k < word.len() implies utterance[k] == #[trigger] word[k] by {
            assert(utterance.subrange(0, word.len() as int)[k] == utterance[k]);
        }
    }
    if begins(utterance, word) {
        assert(utterance.subrange(0, word.len() as int) =~= word);
    }
}

/// Inside an utterance a cue counts only as a whole word: it is found if and only if it begins
/// the utterance or stands in it between spaces or the ends.
pub proof fn law_cues_are_whole_words(utterance: Seq<char>, word: Seq<char>)
    ensures
        mentions(utterance, word) <==> begins(utterance, word) || exists|i: int|
            stands_alone(utterance, word, i),
{
    let wide = spaced(utterance);
    let part = spaced(word);
    lemma_begins(utterance, word);
    if contains(wide, part) {
        let i = choose|i: int| occurs_at(wide, part, i);
        let cut = wide.subrange(i, i + part.len());
        assert forall|k: int| 0 <= k < word.len() implies utterance[i + k]
            == #[trigger] word[k] by {
            assert(cut[k + 1] == part[k + 1]);
            assert(wide[i + k + 1] == utterance[i + k]);
        }
        assert(cut[0] == part[0]);
        assert(cut[word.len() as int + 1] == part[word.len() as int + 1]);
        assert(stands_alone(utterance, word, i));
    }
    if exists|i: int| stands_alone(utterance, word, i) {
        let i = choose|i: int| stands_alone(utterance, word, i);
        assert(wide.subrange(i, i + part.len()) =~= part);
        assert(occurs_at(wide, part, i));
    }
}

/// The class of an utterance rests on whole words alone. A sign of attention is the first word
/// or words; the other cues begin the utterance or stand alone in it; and the first class of
/// which a cue is found wins. Without any cue the utterance is ordinary speech.
pub proof fn law_class_rests_on_whole_words(cues: Cues, utterance: Seq<char>)
    ensures
        cues.class(utterance) == CueType::Backchannel <==> exists|w: int|
            0 <= w < cues.backchannels.len() && stands_alone(
                utterance,
                #[trigger] cues.backchannels[w],
                0,
            ),
        cues.class(utterance) != CueType::Backchannel ==> (cues.class(utterance)
            == CueType::Interjection <==> has_cue(utterance, cues.interjections)),
        cues.class(utterance) != CueType::Backchannel && cues.class(utterance)
            != CueType::Interjection ==> (cues.class(utterance) == CueType::Correction <==> has_cue(
            utterance,
            cues.corrections,
        )),
        cues.class(utterance) == CueType::Append || cues.class(utterance) == CueType::Continue
            ==> (cues.class(utterance) == CueType::Append <==> has_cue(utterance, cues.appends)),
{
    assert forall|w: int| 0 <= w < cues.backchannels.len() implies (opens_with_word(
        utterance,
        #[trigger] cues.backchannels[w],
    ) <==> stands_alone(utterance, cues.backchannels[w], 0)) by {
        lemma_opens_with_word(utterance, cues.backchannels[w]);
    }
    lemma_has_cue(utterance, cues.interjections);
    lemma_has_cue(utterance, cues.corrections);
    lemma_has_cue(utterance, cues.appends);
}

proof fn lemma_opens_with_word(utterance: Seq<char>, word: Seq<char>)
    ensures
        opens_with_word(utterance, word) <==> stands_alone(utterance, word, 0),
{
    let longer = word.push(' ');
    lemma_begins(utterance, longer);
    if begins(utterance, longer) {
        assert(utterance[word.len() as int] == longer[word.len() as int]);
        assert forall|k: int| 0 <= k < word.len() implies utterance[0 + k]
            == #[trigger] word[k] by {
            assert(utterance[k] == longer[k]);
        }
    }
    if stands_alone(utterance, word, 0) {
        if word.len() == utterance.len() {
            assert(utterance =~= word) by {
                assert forall|k: int| 0 <= k < word.len() implies utterance[k] == word[k] by {
                    assert(utterance[0 + k] == word[k]);
                }
            }
        } else {
            assert forall|k: int| 0 <= k < longer.len() implies utterance[k]
                == #[trigger] longer[k] by {
                if k < word.len() {
                    assert(utterance[0 + k] == word[k]);
                }
            }
        }
    }
}

proof fn lemma_has_cue(utterance: Seq<char>, words: Seq<Seq<char>>)
    ensures
        mentions_any(utterance, words) <==> has_cue(utterance, words),
{
    assert forall|w: int| 0 <= w < words.len() implies (mentions(utterance, #[trigger] words[w])
        <==> begins(utterance, words[w]) || exists|i: int|
        stands_alone(utterance, words[w], i)) by {
        law_cues_are_whole_words(utterance, words[w]);
    }
}

/// A letter right before a cue word makes another word of it: by itself that is no cue.
pub proof fn law_letters_before_a_cue_hide_it(utterance: Seq<char>, word: Seq<char>)
    requires
        utterance.len() == word.len() + 1,
        word.len() > 0,
        utterance.skip(1) == word,
        utterance[0] != ' ',
        !word.contains(' '),
        !begins(utterance, word),
    ensures
        !mentions(utterance, word),
{
    law_cues_are_whole_words(utterance, word);
    assert(forall|k: int| 0 <= k < word.len() ==> utterance[k + 1] == #[trigger] word[k]);
    if exists|i: int| stands_alone(utterance, word, i) {
        let i = choose|i: int| stands_alone(utterance, word, i);
        if i == 0 {
            assert forall|k: int| 0 <= k < word.len() implies utterance[k]
                == #[trigger] word[k] by {
                assert(utterance[i + k] == word[k]);
            }
        }
    }
}

/// A word from the settings is never taken for ordinary speech: it has the class it was set
/// for, or one that comes before that class.
pub proof fn law_cue_words_are_found(cues: Cues, word: Seq<char>)
    ensures
        cues.backchannels.contains(word) ==> cues.class(word) == CueType::Backchannel,
        cues.interjections.contains(word) ==> cues.class(word) == CueType::Backchannel
            || cues.class(word) == CueType::Interjection,
        cues.corrections.contains(word) ==> cues.class(word) != CueType::Append && cues.class(word)
            != CueType::Continue,
        cues.appends.contains(word) ==> cues.class(word) != CueType::Continue,
{
    assert(word.subrange(0, word.len() as int) =~= word);
    assert(opens_with_word(word, word) && mentions(word, word));
}

/// Each class has the words that the settings name for it, all of them and no others.
pub proof fn law_settings_name_the_words(config: Config, i: int)
    ensures
        cues_of(config).backchannels.len() == config.backchannel_cues@.len(),
        cues_of(config).interjections.len() == config.interjection_cues@.len(),
        cues_of(config).corrections.len() == config.correction_signals@.len(),
        cues_of(config).appends.len() == config.append_signals@.len(),
        0 <= i < config.backchannel_cues@.len() ==> cues_of(config).backchannels[i]
            == config.backchannel_cues@[i]@,
        0 <= i < config.interjection_cues@.len() ==> cues_of(config).interjections[i]
            == config.interjection_cues@[i]@,
        0 <= i < config.correction_signals@.len() ==> cues_of(config).corrections[i]
            == config.correction_signals@[i]@,
        0 <= i < config.append_signals@.len() ==> cues_of(config).appends[i]
            == config.append_signals@[i]@,
{
}

} // verus!
