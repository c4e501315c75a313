use clipsync::detect::{ChangeDetector, Fingerprint};

fn content(s: &str) -> Fingerprint {
    Fingerprint::Content(s.to_string())
}

#[test]
fn the_first_content_is_always_reported() {
    assert!(ChangeDetector::new().observe(content("")));
    assert!(ChangeDetector::new().observe(content("a")));
    assert!(ChangeDetector::new().observe(Fingerprint::ImageLength(0)));
}

#[test]
fn the_same_payload_twice_is_reported_once() {
    let mut detector = ChangeDetector::new();
    let reported = [detector.observe(content("A")), detector.observe(content("A"))];
    assert_eq!(reported, [true, false]);
}

#[test]
fn a_then_b_then_a_is_reported_three_times() {
    let mut detector = ChangeDetector::new();
    let reported =
        [detector.observe(content("A")), detector.observe(content("B")), detector.observe(content("A"))];
    assert_eq!(reported, [true, true, true]);
}

#[test]
fn each_content_is_held_against_the_one_before_it() {
    let mut detector = ChangeDetector::new();
    let seen = ["a", "a", "b", "b", "b", "a", "", "", "a"];
    let reported: Vec<bool> = seen.iter().map(|s| detector.observe(content(s))).collect();
    assert_eq!(reported, vec![true, false, true, false, false, true, true, false, true]);
}

#[test]
fn images_of_one_length_count_as_the_same() {
    let mut detector = ChangeDetector::new();
    assert!(detector.observe(Fingerprint::ImageLength(16)));
    assert!(!detector.observe(Fingerprint::ImageLength(16)));
    assert!(detector.observe(Fingerprint::ImageLength(64)));
}

#[test]
fn a_length_is_not_a_payload() {
    let mut detector = ChangeDetector::new();
    assert!(detector.observe(content("16")));
    assert!(detector.observe(Fingerprint::ImageLength(16)));
    assert!(detector.observe(content("16")));
}

#[test]
fn fingerprints_compare_by_what_they_hold() {
    assert!(content("x").same(&content("x")));
    assert!(!content("x").same(&content("y")));
    assert!(!content("x").same(&content("x ")));
    assert!(Fingerprint::ImageLength(4).same(&Fingerprint::ImageLength(4)));
    assert!(!Fingerprint::ImageLength(4).same(&Fingerprint::ImageLength(8)));
    assert!(!Fingerprint::ImageLength(4).same(&content("4")));
}

#[test]
fn two_detectors_share_nothing() {
    let mut one = ChangeDetector::new();
    let mut two = ChangeDetector::new();
    assert!(one.observe(content("A")));
    assert!(two.observe(content("A")));
    assert!(!one.observe(content("A")));
    assert!(two.observe(content("B")));
}
