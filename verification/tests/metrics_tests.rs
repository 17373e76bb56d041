use tenboard::hands::HandsState;
use tenboard::keyboard::Keyboard;
use tenboard::metrics::{
    FingerAlternation,
    FingerBalance,
    FingerUsage,
    HandAlternation,
    HandBalance,
    HandUsage,
};
use tenboard::tenboard::TenboardUnconstrained;

/// A fixed test alphabet: one single-finger chord per character.
fn test_keyboard() -> TenboardUnconstrained {
    TenboardUnconstrained::new(vec![
        ('a', HandsState::from_levels([1, 0, 0, 0, 0, 0, 0, 0, 0, 0])),
        ('b', HandsState::from_levels([0, 1, 0, 0, 0, 0, 0, 0, 0, 0])),
        ('c', HandsState::from_levels([0, 0, 1, 0, 0, 0, 0, 0, 0, 0])),
        ('d', HandsState::from_levels([0, 0, 0, 0, 0, 0, 0, 1, 0, 0])),
        ('e', HandsState::from_levels([0, 0, 0, 0, 0, 0, 0, 0, 1, 0])),
        ('f', HandsState::from_levels([0, 0, 0, 0, 0, 0, 0, 0, 0, 1])),
        ('p', HandsState::from_levels([0, 0, 0, 1, 0, 0, 0, 0, 0, 0])),
        ('q', HandsState::from_levels([0, 0, 0, 0, 1, 0, 0, 0, 0, 0])),
        ('r', HandsState::from_levels([0, 0, 0, 0, 0, 1, 0, 0, 0, 0])),
        ('s', HandsState::from_levels([0, 0, 0, 0, 0, 0, 1, 0, 0, 0])),
    ])
}

fn type_text(text: &str) -> Vec<HandsState> {
    let mut kb = test_keyboard();
    let chars: Vec<char> = text.chars().collect();
    kb.try_type_chars(&chars).unwrap()
}

fn ratio_score(parts: (u128, u128)) -> f32 {
    parts.0 as f32 / parts.1 as f32
}

#[test]
fn test_finger_usage() {
    let text = "abcdefadab";
    let fu = FingerUsage::new().updated(&type_text(text));
    assert_eq!(fu.presses, [3, 2, 1, 0, 0, 0, 0, 2, 1, 1]);
    assert_eq!(fu.score() as f32, 10.0);
}

#[test]
fn test_hand_usage() {
    let text = "abcdefadab";
    let hu = HandUsage::new().updated(&type_text(text));
    assert_eq!(hu.presses, [6, 4]);
    assert_eq!(hu.score() as f32, 10.0);

    let fu = FingerUsage::new().updated(&type_text(text));
    let hu = HandUsage::from_finger_usage(&fu);
    assert_eq!(hu.presses, [6, 4]);
    assert_eq!(hu.score() as f32, 10.0);
}

#[test]
fn test_finger_alternation() {
    let text = "abcdef";
    let fa = FingerAlternation::new().updated(&type_text(text));
    assert_eq!(fa.consecutive_presses, [0; 10]);
    assert_eq!(fa.score() as f32, 0.0);

    let text = "aacffeddaaaaba";
    let fa = FingerAlternation::new().updated(&type_text(text));
    assert_eq!(fa.consecutive_presses, [4, 0, 0, 0, 0, 0, 0, 1, 0, 1]);
    assert_eq!(fa.score() as f32, 6.0);
}

#[test]
fn test_hand_alternation() {
    let text = "adbecf";
    let ha = HandAlternation::new().updated(&type_text(text));
    assert_eq!(ha.consecutive_presses, [0; 2]);
    assert_eq!(ha.score() as f32, 0.0);

    let text = "abcadefafef";
    let ha = HandAlternation::new().updated(&type_text(text));
    assert_eq!(ha.consecutive_presses, [3, 4]);
    assert_eq!(ha.score() as f32, 7.0);
}

#[test]
fn test_finger_balance() {
    let text = "abcdefpqrs";
    let fb = FingerBalance::new().updated(&type_text(text));
    assert_eq!(fb.presses, [1, 1, 1, 1, 1, 1, 1, 1, 1, 1]);
    assert_eq!(ratio_score(fb.score_ratio()), 0.0);

    let fb = FingerBalance::new_with_ratio([1, 1, 0, 0, 0, 0, 0, 0, 0, 0])
        .updated(&type_text(text));
    assert_eq!(fb.presses, [1, 1, 1, 1, 1, 1, 1, 1, 1, 1]);
    assert!(ratio_score(fb.score_ratio()) - 1.6 < 1.0e-6);

    let fu = FingerUsage::new().updated(&type_text(text));
    let fb = FingerBalance::from_finger_usage(&fu);
    assert_eq!(fb.presses, [1, 1, 1, 1, 1, 1, 1, 1, 1, 1]);
    assert_eq!(ratio_score(fb.score_ratio()), 0.0);
}

#[test]
fn test_hand_balance() {
    let text = "abcdefpqrs";
    let hb = HandBalance::new().updated(&type_text(text));
    assert_eq!(hb.presses, [5, 5]);
    assert_eq!(ratio_score(hb.score_ratio()), 0.0);

    let hb = HandBalance::new_with_ratio([3, 7]).updated(&type_text(text));
    assert_eq!(hb.presses, [5, 5]);
    assert!(ratio_score(hb.score_ratio()) - 0.4 < 1.0e-6);

    let hu = HandUsage::new().updated(&type_text(text));
    let hb = HandBalance::from_hand_usage(&hu);
    assert_eq!(hb.presses, [5, 5]);
    assert_eq!(ratio_score(hb.score_ratio()), 0.0);

    let fb = FingerBalance::new().updated(&type_text(text));
    let hb = HandBalance::from_finger_balance(&fb);
    assert_eq!(hb.presses, [5, 5]);
    assert_eq!(ratio_score(hb.score_ratio()), 0.0);
}

#[test]
fn test_balance_exact_values() {
    // Ten presses, one per finger, against the weights [1, 1, 0, ...]:
    // the scaled L1 numerator is 32 and the denominator 20, an exact 1.6.
    let text = "abcdefpqrs";
    let fb = FingerBalance::new_with_ratio([1, 1, 0, 0, 0, 0, 0, 0, 0, 0])
        .updated(&type_text(text));
    assert_eq!(fb.score_ratio(), (32, 20));
    // [5, 5] against the weights [3, 7]: numerator 40, denominator 100.
    let hb = HandBalance::new_with_ratio([3, 7]).updated(&type_text(text));
    assert_eq!(hb.score_ratio(), (40, 100));
}

#[test]
fn test_update_once_matches_update() {
    let chords = type_text("abcdefadab");
    let mut one = FingerUsage::new();
    for hs in &chords {
        one.update_once(hs);
    }
    let all = FingerUsage::new().updated(&chords);
    assert_eq!(one.presses, all.presses);
}
