use interjections::config::Config;
use interjections::cues::{CueDetector, CueType};

fn detect(text: &str) -> CueType {
    CueDetector::new(Config::default()).detect(text)
}

#[test]
fn backchannels_are_told_by_their_first_words() {
    assert_eq!(detect("uh-huh"), CueType::Backchannel);
    assert_eq!(detect("okay go on"), CueType::Backchannel);
    assert_eq!(detect("  Yeah  "), CueType::Backchannel);
    assert_eq!(detect("MHM"), CueType::Backchannel);
    assert_eq!(detect("mm-hm"), CueType::Backchannel);
    assert_eq!(detect("okayish idea"), CueType::Continue);
    assert_eq!(detect("that is right"), CueType::Continue);
}

#[test]
fn interjections_start_or_stand_between_spaces() {
    assert_eq!(detect("wait a second"), CueType::Interjection);
    assert_eq!(detect("please cancel that"), CueType::Interjection);
    assert_eq!(detect("do this instead"), CueType::Interjection);
    assert_eq!(detect("please, cancel, that"), CueType::Continue);
}

#[test]
fn a_first_word_counts_by_its_letters_alone() {
    assert_eq!(detect("nothing to see"), CueType::Interjection);
    assert_eq!(detect("I see nothing"), CueType::Continue);
}

#[test]
fn backchannels_come_before_interjections() {
    assert_eq!(detect("yeah wait"), CueType::Backchannel);
    assert_eq!(detect("actually no"), CueType::Interjection);
}

#[test]
fn corrections_and_additions() {
    assert_eq!(detect("let me rephrase that"), CueType::Correction);
    assert_eq!(detect("and then let me rephrase that"), CueType::Correction);
    assert_eq!(detect("also add a test"), CueType::Append);
    assert_eq!(detect("let me rephrase and also add"), CueType::Correction);
    assert_eq!(detect("rename the function"), CueType::Continue);
    assert_eq!(detect(""), CueType::Continue);
}

#[test]
fn words_come_from_the_settings() {
    let mut config = Config::default();
    config.interjection_cues = vec!["halt".to_string()];
    let detector = CueDetector::new(config);
    assert_eq!(detector.detect("HALT now"), CueType::Interjection);
    assert_eq!(detector.detect("wait now"), CueType::Continue);
    assert_eq!(detector.classify("please halt"), CueType::Interjection);
    assert_eq!(detector.classify("please HALT"), CueType::Continue);
    assert_eq!(detector.config().interjection_cues, vec!["halt"]);
}

#[test]
fn letters_beyond_ascii_are_lowered() {
    let mut config = Config::default();
    config.append_signals = vec!["\u{e9}galement".to_string()];
    assert_eq!(
        CueDetector::new(config).detect("\u{c9}GALEMENT ceci\u{2003}"),
        CueType::Append
    );
}

#[test]
fn every_cue_word_is_found() {
    let config = Config::default();
    for word in &config.backchannel_cues {
        assert_eq!(detect(word), CueType::Backchannel);
    }
    for word in &config.interjection_cues {
        assert_eq!(detect(word), CueType::Interjection);
    }
    for word in &config.correction_signals {
        assert!(matches!(detect(word), CueType::Interjection | CueType::Correction));
    }
    for word in &config.append_signals {
        assert_eq!(detect(word), CueType::Append);
    }
}
