use interjections::local_asr::{collect_results, model_files, model_not_found, AsrSource};

#[test]
fn an_endpoint_closes_the_utterance() {
    let results = collect_results(Some("hel".to_string()), true, Some("hello".to_string()));
    assert_eq!(results.len(), 2);
    assert_eq!(results[0].text, "hel");
    assert!(!results[0].is_final);
    assert_eq!(results[0].source, AsrSource::Partial);
    assert_eq!(results[1].text, "hello");
    assert!(results[1].is_final);
    assert_eq!(results[1].source, AsrSource::Final);
}

#[test]
fn without_an_endpoint_nothing_is_final() {
    let results = collect_results(Some("hel".to_string()), false, Some("hello".to_string()));
    assert_eq!(results.len(), 1);
    assert_eq!(results[0].source, AsrSource::Partial);
}

#[test]
fn empty_hypotheses_are_left_out() {
    assert!(collect_results(Some(String::new()), true, Some(String::new())).is_empty());
    assert!(collect_results(None, true, None).is_empty());
}

#[test]
fn the_model_lies_in_four_files() {
    let files = model_files("dir");
    assert_eq!(files.encoder, "dir/encoder-epoch-99-avg-1-chunk-16-left-128.int8.onnx");
    assert_eq!(files.decoder, "dir/decoder-epoch-99-avg-1-chunk-16-left-128.onnx");
    assert_eq!(files.joiner, "dir/joiner-epoch-99-avg-1-chunk-16-left-128.int8.onnx");
    assert_eq!(files.tokens, "dir/tokens.txt");
}

#[test]
fn a_missing_model_is_explained() {
    assert_eq!(
        model_not_found("here"),
        "Sherpa model not found at 'here'. Download manually:\n  https://github.com/k2-fsa/sherpa-onnx/releases/download/asr-models/sherpa-onnx-streaming-zipformer-en-2023-06-26.tar.bz2"
    );
}
