use tenboard::asetniop::{Asetniop, Layout};
use tenboard::hands::HandsState;
use tenboard::keyboard::{Keyboard, NoSuchChar};
use tenboard::tenboard::{Tenboard, TenboardUnconstrained};

fn test_table() -> Vec<(char, HandsState)> {
    vec![
        ('a', HandsState::from_levels([1, 0, 0, 0, 0, 0, 0, 0, 0, 0])),
        ('b', HandsState::from_levels([0, 1, 0, 0, 0, 0, 0, 0, 0, 0])),
        ('c', HandsState::from_levels([0, 0, 1, 0, 0, 0, 0, 0, 0, 0])),
    ]
}

#[test]
fn test_typing() {
    let mut tk = TenboardUnconstrained::new(test_table());
    let chars: Vec<char> = "cabcab".chars().collect();
    assert_eq!(
        tk.try_type_chars(&chars).unwrap(),
        vec![
            HandsState::from_levels([0, 0, 1, 0, 0, 0, 0, 0, 0, 0]),
            HandsState::from_levels([1, 0, 0, 0, 0, 0, 0, 0, 0, 0]),
            HandsState::from_levels([0, 1, 0, 0, 0, 0, 0, 0, 0, 0]),
            HandsState::from_levels([0, 0, 1, 0, 0, 0, 0, 0, 0, 0]),
            HandsState::from_levels([1, 0, 0, 0, 0, 0, 0, 0, 0, 0]),
            HandsState::from_levels([0, 1, 0, 0, 0, 0, 0, 0, 0, 0]),
        ]
    );
}

#[test]
fn test_char_not_found() {
    let mut tk = TenboardUnconstrained::new(test_table());
    let chars: Vec<char> = "abcX".chars().collect();
    assert_eq!(tk.try_type_chars(&chars), Err(NoSuchChar { ch: 'X' }));
}

#[test]
fn test_type_chars_skip_drops_untypeable() {
    let tk = TenboardUnconstrained::new(test_table());
    let chars: Vec<char> = "aXbYc".chars().collect();
    assert_eq!(
        tk.type_chars_skip(&chars),
        vec![
            HandsState::from_levels([1, 0, 0, 0, 0, 0, 0, 0, 0, 0]),
            HandsState::from_levels([0, 1, 0, 0, 0, 0, 0, 0, 0, 0]),
            HandsState::from_levels([0, 0, 1, 0, 0, 0, 0, 0, 0, 0]),
        ]
    );
}

#[test]
fn test_asetniop_switch_layer_emissions() {
    // '!' sits in both layers: its letters chord is emitted, the layer
    // swaps, and the switch chord plus the symbols chord follow.
    let mut kb = Asetniop::default();
    let chars: Vec<char> = "!".chars().collect();
    assert_eq!(
        kb.try_type_chars(&chars).unwrap(),
        vec![
            HandsState::from_levels([0, 0, 0, 0, 0, 0, 0, 1, 0, 1]),
            HandsState::from_levels([1, 0, 0, 0, 0, 0, 0, 0, 0, 1]),
            HandsState::from_levels([1, 0, 0, 0, 1, 0, 0, 1, 0, 0]),
        ]
    );
}

#[test]
fn test_asetniop_layer_persists() {
    // '1' is only in the symbols layer: nothing is emitted from the letters
    // layer, then the switch chord and the symbols chord follow. The layer
    // alternates every character, so a second '1' fails: after the second
    // swap the letters layer is current again and has no '1'.
    let mut kb = Asetniop::default();
    let one: Vec<char> = "1".chars().collect();
    assert_eq!(
        kb.try_type_chars(&one).unwrap(),
        vec![
            HandsState::from_levels([1, 0, 0, 0, 0, 0, 0, 0, 0, 1]),
            HandsState::from_levels([1, 0, 0, 0, 0, 0, 0, 0, 0, 0]),
        ]
    );
    let mut kb = Asetniop::default();
    let ones: Vec<char> = "11".chars().collect();
    assert_eq!(kb.try_type_chars(&ones), Err(NoSuchChar { ch: '1' }));
}

#[test]
fn test_asetniop_char_in_neither_layer() {
    let mut kb = Asetniop::default();
    let chars: Vec<char> = "\u{e9}".chars().collect();
    assert_eq!(kb.try_type_chars(&chars), Err(NoSuchChar { ch: '\u{e9}' }));
}

#[test]
fn test_asetniop_fails_fast_without_partial_output() {
    // 'a' is in the letters layer but not in the symbols layer, so the
    // second lookup fails and no partial chords are returned.
    let mut kb = Asetniop::default();
    let chars: Vec<char> = "a".chars().collect();
    assert_eq!(kb.try_type_chars(&chars), Err(NoSuchChar { ch: 'a' }));
}

#[test]
fn test_new_keeps_last_chord_of_repeated_char() {
    let x = HandsState::from_levels([1, 0, 0, 0, 0, 0, 0, 0, 0, 0]);
    let y = HandsState::from_levels([0, 1, 0, 0, 0, 0, 0, 0, 0, 0]);
    let tk = TenboardUnconstrained::new(vec![('a', x), ('a', y)]);
    assert_eq!(tk.try_type_char('a'), Ok(y));
}

#[test]
fn test_asetniop_layer_swaps_even_on_failure() {
    let mut kb = Asetniop::default();
    assert_eq!(kb.layout, Layout::Letters);
    let chars: Vec<char> = "a".chars().collect();
    assert!(kb.try_type_chars(&chars).is_err());
    assert_eq!(kb.layout, Layout::Symbols);
}
