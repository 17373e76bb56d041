use tenboard::hands::{FingerState, HandsState};

#[test]
fn hands_test_bool_to_finger_state() {
    assert_eq!(FingerState::from(true), FingerState::Pressed);
    assert_eq!(FingerState::from(false), FingerState::Released);
}

#[test]
fn hands_test_int_to_finger_state() {
    assert_eq!(FingerState::from(0), FingerState::Released);
    assert_eq!(FingerState::from(1), FingerState::Pressed);
    assert_eq!(FingerState::from(48492975), FingerState::Pressed);
}

#[test]
fn hands_test_finger_state_to_int() {
    assert_eq!(u32::from(FingerState::Pressed), 1);
    assert_eq!(u32::from(FingerState::Released), 0);
    let x: u32 = 1;
    assert_eq!(x + u32::from(FingerState::Pressed), 2);
}

#[test]
fn test_handsstate_combine() {
    let left_thumb: HandsState = HandsState::from_levels([0, 0, 0, 0, 1, 0, 0, 0, 0, 0]);
    let right_thumb: HandsState = HandsState::from_levels([0, 0, 0, 0, 0, 1, 0, 0, 0, 0]);
    let handstate: HandsState = HandsState::from_levels([1, 0, 1, 0, 1, 0, 1, 0, 1, 0]);

    assert_eq!(handstate.0[4], FingerState::Pressed);
    assert_eq!(handstate.0[5], FingerState::Released);

    let handstate = handstate.combine(&left_thumb);
    assert_eq!(handstate.0[4], FingerState::Pressed);
    assert_eq!(handstate.0[5], FingerState::Released);

    let handstate = handstate.combine(&right_thumb);
    assert_eq!(handstate.0[4], FingerState::Pressed);
    assert_eq!(handstate.0[5], FingerState::Pressed);
}

#[test]
fn test_combine_commutative_and_idempotent() {
    let a = HandsState::from_levels([1, 0, 1, 0, 0, 0, 0, 1, 0, 0]);
    let b = HandsState::from_levels([0, 1, 1, 0, 1, 0, 0, 0, 0, 1]);
    assert_eq!(a.combine(&b), b.combine(&a));
    assert_eq!(a.combine(&a), a);
    assert_eq!(b.combine(&b), b);
}

#[test]
fn test_thumb_constants() {
    let lt = HandsState::left_thumb();
    let rt = HandsState::right_thumb();
    assert_eq!(lt, HandsState::from_levels([0, 0, 0, 0, 1, 0, 0, 0, 0, 0]));
    assert_eq!(rt, HandsState::from_levels([0, 0, 0, 0, 0, 1, 0, 0, 0, 0]));
    assert_eq!(lt.count_pressed(), 1);
    assert_eq!(rt.count_pressed(), 1);
    assert_ne!(lt, rt);
}

#[test]
fn test_hand_iter_splits_hands() {
    let hs = HandsState::from_levels([1, 0, 1, 0, 1, 0, 1, 0, 1, 0]);
    let hands = hs.hand_iter();
    assert_eq!(hands.len(), 2);
    assert_eq!(hands[0].len(), 5);
    assert_eq!(hands[1].len(), 5);
    assert_eq!(hands[0][0], FingerState::Pressed);
    assert_eq!(hands[0][1], FingerState::Released);
    assert_eq!(hands[1][0], FingerState::Released);
    assert_eq!(hands[1][1], FingerState::Pressed);
}

#[test]
fn test_count_pressed() {
    assert_eq!(HandsState::default().count_pressed(), 0);
    assert_eq!(HandsState::from_levels([1, 1, 1, 1, 1, 1, 1, 1, 1, 1]).count_pressed(), 10);
    assert_eq!(HandsState::from_levels([0, 1, 0, 0, 1, 0, 0, 0, 0, 1]).count_pressed(), 3);
}
