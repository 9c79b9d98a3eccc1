use interjections::vad::EnergyVad;

fn run(vad: &mut EnergyVad, frames: &[bool]) -> Vec<bool> {
    frames.iter().map(|&loud| vad.process(loud)).collect()
}

#[test]
fn speech_needs_a_row_of_loud_frames() {
    let mut vad = EnergyVad::new(100, 300, 30);
    assert_eq!(run(&mut vad, &[true, true, false, true, true, true]), vec![
        false, false, false, false, false, true
    ]);
    assert!(vad.is_speaking());
}

#[test]
fn speech_survives_short_pauses() {
    let mut vad = EnergyVad::new(90, 90, 30);
    run(&mut vad, &[true, true, true]);
    assert_eq!(run(&mut vad, &[false, false, true, false, false]), vec![true; 5]);
    assert!(!vad.process(false));
    assert!(!vad.is_speaking());
}

#[test]
fn after_silence_the_count_starts_over() {
    let mut vad = EnergyVad::new(60, 60, 30);
    assert_eq!(run(&mut vad, &[true, true, false, false, true, true]), vec![
        false, true, true, false, false, true
    ]);
}

#[test]
fn limits_are_whole_frames() {
    let mut vad = EnergyVad::new(59, 60, 30);
    assert!(vad.process(true));
}

#[test]
fn zero_limits_follow_the_frames() {
    let mut vad = EnergyVad::new(0, 0, 30);
    assert!(!vad.process(false));
    assert!(vad.process(true));
    assert!(!vad.process(true));
    assert!(vad.has_room(true) && vad.has_room(false));
}
