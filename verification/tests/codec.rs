use habitui::codec::{
    decode, encode, parse_difficulty, str_eq, Difficulty, Priority, DECODE_TOLERANCE, EASY_ANCHOR,
    HARD_ANCHOR, MEDIUM_ANCHOR, TRIVIAL_ANCHOR,
};
use habitui::error::Error;

const ALL: [Difficulty; 4] = [
    Difficulty::Trivial,
    Difficulty::Easy,
    Difficulty::Medium,
    Difficulty::Hard,
];

#[test]
fn encode_hits_the_four_anchors() {
    assert_eq!(encode(Difficulty::Trivial), TRIVIAL_ANCHOR);
    assert_eq!(encode(Difficulty::Easy), EASY_ANCHOR);
    assert_eq!(encode(Difficulty::Medium), MEDIUM_ANCHOR);
    assert_eq!(encode(Difficulty::Hard), HARD_ANCHOR);
    assert_eq!(TRIVIAL_ANCHOR, 100_000);
    assert_eq!(EASY_ANCHOR, 1_000_000);
    assert_eq!(MEDIUM_ANCHOR, 1_500_000);
    assert_eq!(HARD_ANCHOR, 2_000_000);
}

#[test]
fn decode_encode_round_trips_every_difficulty() {
    for d in ALL {
        assert_eq!(decode(encode(d)), d);
    }
}

#[test]
fn decode_accepts_values_within_tolerance() {
    for (anchor, d) in [
        (TRIVIAL_ANCHOR, Difficulty::Trivial),
        (EASY_ANCHOR, Difficulty::Easy),
        (MEDIUM_ANCHOR, Difficulty::Medium),
        (HARD_ANCHOR, Difficulty::Hard),
    ] {
        assert_eq!(decode(anchor), d);
        assert_eq!(decode(anchor - DECODE_TOLERANCE + 1), d);
        assert_eq!(decode(anchor + DECODE_TOLERANCE - 1), d);
    }
}

#[test]
fn decode_falls_back_to_hard_out_of_tolerance() {
    assert_eq!(decode(0), Difficulty::Hard);
    assert_eq!(decode(TRIVIAL_ANCHOR + DECODE_TOLERANCE), Difficulty::Hard);
    assert_eq!(decode(TRIVIAL_ANCHOR - DECODE_TOLERANCE), Difficulty::Hard);
    assert_eq!(decode(EASY_ANCHOR + DECODE_TOLERANCE), Difficulty::Hard);
    assert_eq!(decode(1_250_000), Difficulty::Hard);
    assert_eq!(decode(-100_000), Difficulty::Hard);
    assert_eq!(decode(5_000_000), Difficulty::Hard);
    assert_eq!(decode(i64::MAX), Difficulty::Hard);
    assert_eq!(decode(i64::MIN), Difficulty::Hard);
}

#[test]
fn next_and_prev_cycle_in_order() {
    assert_eq!(Difficulty::Trivial.next(), Difficulty::Easy);
    assert_eq!(Difficulty::Easy.next(), Difficulty::Medium);
    assert_eq!(Difficulty::Medium.next(), Difficulty::Hard);
    assert_eq!(Difficulty::Hard.next(), Difficulty::Trivial);
    assert_eq!(Difficulty::Trivial.prev(), Difficulty::Hard);
    assert_eq!(Difficulty::Hard.prev(), Difficulty::Medium);
}

#[test]
fn next_prev_are_mutually_inverse() {
    for d in ALL {
        assert_eq!(d.prev().next(), d);
        assert_eq!(d.next().prev(), d);
    }
}

#[test]
fn tiers_follow_the_fixed_grouping() {
    assert_eq!(Difficulty::Trivial.tier(), Priority::Low);
    assert_eq!(Difficulty::Easy.tier(), Priority::Low);
    assert_eq!(Difficulty::Medium.tier(), Priority::Mid);
    assert_eq!(Difficulty::Hard.tier(), Priority::High);
}

#[test]
fn labels_parse_back() {
    for d in ALL {
        let label = d.label();
        assert_eq!(parse_difficulty(label.as_str()).unwrap(), d);
    }
    assert_eq!(Difficulty::Trivial.label(), "Trivial".to_string());
}

#[test]
fn unknown_labels_are_malformed() {
    assert!(matches!(parse_difficulty("hard"), Err(Error::Malformed)));
    assert!(matches!(parse_difficulty(""), Err(Error::Malformed)));
    assert!(matches!(parse_difficulty("Impossible"), Err(Error::Malformed)));
}

#[test]
fn str_eq_compares_by_characters() {
    assert!(str_eq("abc", "abc"));
    assert!(!str_eq("abc", "abd"));
    assert!(!str_eq("abc", "abcd"));
    assert!(str_eq("", ""));
}
