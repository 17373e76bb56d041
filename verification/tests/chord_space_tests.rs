use std::collections::HashSet;

use tenboard::hands::{FingerState, HandsState};

#[test]
fn test_iterate_one_key_no_thumbs() {
    let handstates: Vec<_> = HandsState::iterate_one_key_no_thumbs();
    assert_eq!(handstates.len(), 8);
    assert!(handstates.iter().all(|hs| hs.count_pressed() == 1));
    assert_eq!(
        handstates,
        [
            HandsState::from_levels([1, 0, 0, 0, 0, 0, 0, 0, 0, 0]),
            HandsState::from_levels([0, 1, 0, 0, 0, 0, 0, 0, 0, 0]),
            HandsState::from_levels([0, 0, 1, 0, 0, 0, 0, 0, 0, 0]),
            HandsState::from_levels([0, 0, 0, 1, 0, 0, 0, 0, 0, 0]),
            HandsState::from_levels([0, 0, 0, 0, 0, 0, 1, 0, 0, 0]),
            HandsState::from_levels([0, 0, 0, 0, 0, 0, 0, 1, 0, 0]),
            HandsState::from_levels([0, 0, 0, 0, 0, 0, 0, 0, 1, 0]),
            HandsState::from_levels([0, 0, 0, 0, 0, 0, 0, 0, 0, 1]),
        ]
    )
}

#[test]
fn test_iterate_two_key_no_thumbs() {
    let handstates: Vec<_> = HandsState::iterate_two_key_no_thumbs();
    assert_eq!(handstates.len(), (1..=7).sum::<usize>());
    assert!(handstates
        .iter()
        .all(|hs| hs.0[4] == FingerState::Released && hs.0[5] == FingerState::Released));
    assert!(handstates.iter().all(|hs| hs.count_pressed() == 2));
    assert!(handstates
        .iter()
        .all(|hs| hs.0.iter().filter(|fs| fs.is_pressed()).count() == 2));
}

#[test]
fn test_iterate_one_two_key_no_thumbs() {
    let handstates: Vec<_> = HandsState::iterate_one_two_key_no_thumbs();
    assert_eq!(handstates.len(), (1..=8).sum::<usize>());
    assert!(handstates
        .iter()
        .all(|hs| hs.0[4] == FingerState::Released && hs.0[5] == FingerState::Released));
    assert!(handstates.iter().all(|hs| matches!(hs.count_pressed(), 1 | 2)));
    assert!(handstates.iter().all(|hs| {
        let c = hs.0.iter().filter(|fs| fs.is_pressed()).count();
        c == 1 || c == 2
    }));
}

#[test]
fn test_iterate_one_two_key_with_thumbs() {
    let handstates: Vec<_> = HandsState::iterate_one_two_key_with_thumbs();
    assert_eq!(handstates.len(), (1..=8).sum::<usize>() * 3);
    assert!(handstates.iter().all(|hs| {
        let c = hs.0.iter().filter(|fs| fs.is_pressed()).count();
        c == 1 || c == 2 || c == 3
    }));
    assert!(handstates.iter().all(|hs| matches!(hs.count_pressed(), 1..=3)));
    assert!(handstates
        .iter()
        .filter(|hs| hs.0.iter().filter(|fs| fs.is_pressed()).count() == 1)
        .all(|hs| hs.0[4] == FingerState::Released && hs.0[5] == FingerState::Released));
    assert!(handstates
        .iter()
        .filter(|hs| hs.0.iter().filter(|fs| fs.is_pressed()).count() == 2)
        .all(|hs| hs.0[4] == FingerState::Released || hs.0[5] == FingerState::Released));
    assert!(handstates
        .iter()
        .filter(|hs| hs.0.iter().filter(|fs| fs.is_pressed()).count() == 3)
        .all(|hs| (hs.0[4] == FingerState::Pressed || hs.0[5] == FingerState::Pressed)
            && !(hs.0[4] == FingerState::Pressed && hs.0[5] == FingerState::Pressed)));
}

#[test]
fn test_iterate_one_two_key_all_states() {
    let handstates: Vec<_> = HandsState::iterate_one_two_key_all_states();
    assert_eq!(handstates.len(), (1..=8).sum::<usize>() * 3 + 2);
    assert!(handstates.iter().all(|hs| matches!(hs.count_pressed(), 1..=3)));
}

#[test]
fn test_chord_spaces_are_distinct() {
    let no_thumbs: HashSet<HandsState> =
        HandsState::iterate_one_two_key_no_thumbs().into_iter().collect();
    assert_eq!(no_thumbs.len(), 36);
    let with_thumbs: HashSet<HandsState> =
        HandsState::iterate_one_two_key_with_thumbs().into_iter().collect();
    assert_eq!(with_thumbs.len(), 108);
    let all_states: HashSet<HandsState> =
        HandsState::iterate_one_two_key_all_states().into_iter().collect();
    assert_eq!(all_states.len(), 110);
}
