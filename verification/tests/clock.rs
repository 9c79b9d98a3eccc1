use interjections::clock::{now, time_of};

fn nanoseconds() -> u128 {
    std::time::SystemTime::now().duration_since(std::time::UNIX_EPOCH).unwrap().as_nanos()
}

#[test]
fn a_reading_is_told_in_nanoseconds() {
    assert_eq!(time_of(Some((0, 0))), 0);
    assert_eq!(time_of(Some((3, 999_999_999))), 3_999_999_999);
    assert_eq!(time_of(Some((u64::MAX, 999_999_999))), 18_446_744_073_709_551_615_999_999_999);
    assert_eq!(time_of(None), 0);
}

#[test]
fn the_clock_shows_the_present() {
    let before = nanoseconds();
    let time = now();
    assert!(before <= time && time <= nanoseconds());
}
