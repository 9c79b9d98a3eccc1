//! What the speech recognizer hears and the files it is made of.

use crate::text::optional;
use vstd::prelude::*;

verus! {

broadcast use vstd::string::group_string_axioms;

/// Whether a hypothesis may still change.
#[derive(Debug, Clone, Copy, PartialEq, Eq, Structural)]
pub enum AsrSource {
    Partial,
    Final,
}

/// Something that the recognizer heard.
#[derive(Debug)]
pub struct AsrResult {
    pub text: String,
    pub is_final: bool,
    pub source: AsrSource,
}

/// A result as its text and flags.
pub struct AsrResultView {
    pub text: Seq<char>,
    pub is_final: bool,
    pub source: AsrSource,
}

impl View for AsrResult {
    type V = AsrResultView;

    open spec fn view(&self) -> AsrResultView {
        AsrResultView { text: self.text@, is_final: self.is_final, source: self.source }
    }
}

/// The result that a hypothesis makes. An empty one makes none.
pub open spec fn heard(hypothesis: Option<Seq<char>>, source: AsrSource) -> Seq<AsrResultView> {
    match hypothesis {
        Some(text) if text.len() > 0 => seq![
            AsrResultView { text, is_final: source is Final, source },
        ],
        _ => Seq::empty(),
    }
}

/// The results of one stretch of audio.
pub open spec fn results_of(
    hypothesis: Option<Seq<char>>,
    endpoint: bool,
    closing: Option<Seq<char>>,
) -> Seq<AsrResultView> {
    heard(hypothesis, AsrSource::Partial) + if endpoint {
        heard(closing, AsrSource::Final)
    } else {
        Seq::empty()
    }
}

/// What each of these results says.
pub open spec fn result_views(results: Seq<AsrResult>) -> Seq<AsrResultView> {
    results.map_values(|result: AsrResult| result@)
}

fn push_heard(results: &mut Vec<AsrResult>, hypothesis: Option<String>, source: AsrSource)
    ensures
        result_views(final(results)@) == result_views(old(results)@) + heard(
            optional(hypothesis),
            source,
        ),
{
    if let Some(text) = hypothesis {
        if !text.as_str().is_empty() {
            let is_final: bool = match source {
                AsrSource::Partial => false,
                AsrSource::Final => true,
            };
            results.push(AsrResult { text, is_final, source });
        }
    }
    proof {
        assert(result_views(results@) =~= result_views(old(results)@) + heard(
            optional(hypothesis),
            source,
        ));
    }
}

/// The results of one stretch of audio: the recognizer's hypothesis and, at an endpoint,
/// the hypothesis with which it closes the utterance.
pub fn collect_results(
    hypothesis: Option<String>,
    endpoint: bool,
    closing: Option<String>,
) -> (results: Vec<AsrResult>)
    ensures
        result_views(results@) == results_of(optional(hypothesis), endpoint, optional(closing)),
        endpoint && closing is Some && closing->0@.len() > 0 ==> {
            &&& results@.len() > 0
            &&& results@.last().text@ == closing->0@
            &&& results@.last().is_final
            &&& results@.last().source == AsrSource::Final
        },
        forall|i: int|
            0 <= i < results@.len() ==> ((#[trigger] results@[i]).is_final <==> results@[i].source
                == AsrSource::Final),
        !endpoint ==> forall|i: int|
            0 <= i < results@.len() ==> !(#[trigger] results@[i]).is_final,
{
    let mut results: Vec<AsrResult> = Vec::new();
    proof {
        assert(result_views(results@) =~= Seq::empty());
    }
    push_heard(&mut results, hypothesis, AsrSource::Partial);
    if endpoint {
        push_heard(&mut results, closing, AsrSource::Final);
    }
    proof {
        assert(result_views(results@) =~= results_of(
            optional(hypothesis),
            endpoint,
            optional(closing),
        ));
        law_endpoints_close_utterances(optional(hypothesis), endpoint, optional(closing));
        assert forall|i: int| 0 <= i < results@.len() implies (#[trigger] results@[i])@
            == result_views(results@)[i] by {}
    }
    results
}

/// At an endpoint the utterance is closed: the last result is final and holds the closing
/// hypothesis, whatever the hypothesis before it was, the same text or another. Before an
/// endpoint nothing is final. What comes before the closing result is the open hypothesis, as
/// it was heard, and an empty hypothesis is passed over.
pub proof fn law_endpoints_close_utterances(
    hypothesis: Option<Seq<char>>,
    endpoint: bool,
    closing: Option<Seq<char>>,
)
    ensures
        ({
            let results = results_of(hypothesis, endpoint, closing);
            let said = hypothesis is Some && hypothesis->0.len() > 0;
            let closed = endpoint && closing is Some && closing->0.len() > 0;
            &&& results.len() == (if said {
                1int
            } else {
                0
            }) + (if closed {
                1int
            } else {
                0
            })
            &&& said ==> results.first() == (AsrResultView {
                text: hypothesis->0,
                is_final: false,
                source: AsrSource::Partial,
            })
            &&& closed ==> results.last() == (AsrResultView {
                text: closing->0,
                is_final: true,
                source: AsrSource::Final,
            })
        }),
{
}

/// The files of a recognizer model.
#[derive(Debug, Clone)]
pub struct ModelFiles {
    pub encoder: String,
    pub decoder: String,
    pub joiner: String,
    pub tokens: String,
}

fn in_dir(dir: &str, file: &str) -> (path: String)
    ensures
        path@ == dir@ + file@,
{
    let mut path = dir.to_owned();
    path.append(file);
    path
}

/// The files of the model in a directory.
pub fn model_files(dir: &str) -> (files: ModelFiles)
    ensures
        files.encoder@ == dir@ + "/encoder-epoch-99-avg-1-chunk-16-left-128.int8.onnx"@,
        files.decoder@ == dir@ + "/decoder-epoch-99-avg-1-chunk-16-left-128.onnx"@,
        files.joiner@ == dir@ + "/joiner-epoch-99-avg-1-chunk-16-left-128.int8.onnx"@,
        files.tokens@ == dir@ + "/tokens.txt"@,
{
    ModelFiles {
        encoder: in_dir(dir, "/encoder-epoch-99-avg-1-chunk-16-left-128.int8.onnx"),
        decoder: in_dir(dir, "/decoder-epoch-99-avg-1-chunk-16-left-128.onnx"),
        joiner: in_dir(dir, "/joiner-epoch-99-avg-1-chunk-16-left-128.int8.onnx"),
        tokens: in_dir(dir, "/tokens.txt"),
    }
}

/// Where to get the model.
pub const SHERPA_MODEL_URL: &'static str = "https://github.com/k2-fsa/sherpa-onnx/releases/download/asr-models/sherpa-onnx-streaming-zipformer-en-2023-06-26.tar.bz2";

/// What to tell a user whose model is not there.
pub fn model_not_found(dir: &str) -> (message: String)
    ensures
        message@ == "Sherpa model not found at '"@ + dir@ + "'. Download manually:\n  "@
            + SHERPA_MODEL_URL@,
{
    let mut message = "Sherpa model not found at '".to_owned();
    message.append(dir);
    message.append("'. Download manually:\n  ");
    message.append(SHERPA_MODEL_URL);
    message
}

} // verus!
