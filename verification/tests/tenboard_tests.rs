use std::collections::HashSet;

use tenboard::tenboard::{
    Tenboard,
    TenboardModifierConstrained,
    TenboardThumbConstrained,
    TenboardUnconstrained,
};

const TYPABLE_CHARS: &str = "abcdefghijklmnopqrstuvwxyzABCDEFGHIJKLMNOPQRSTUVWXYZ`1234567890-=[]\\;',./~!@#$%^&*()_+{}|:\"<>? \t\n";

#[test]
fn test_random_unconstrained_all_chars() {
    let tb = TenboardUnconstrained::new_random();
    let hs_set: HashSet<_> = TYPABLE_CHARS
        .chars()
        .map(|ch| tb.try_type_char(ch))
        .collect::<Result<_, _>>()
        .unwrap();
    assert_eq!(hs_set.len(), TYPABLE_CHARS.len());
    assert!(tb.entries().iter().all(|(_, hs)| hs.count_pressed() <= 3));
}

#[test]
fn test_random_thumb_constrained_all_chars() {
    let tb = TenboardThumbConstrained::new_random();
    let hs_set: HashSet<_> = TYPABLE_CHARS
        .chars()
        .map(|ch| tb.try_type_char(ch))
        .collect::<Result<_, _>>()
        .unwrap();
    assert_eq!(hs_set.len(), TYPABLE_CHARS.len());
    assert!(tb.entries().iter().all(|(_, hs)| hs.count_pressed() <= 3));
}

#[test]
fn test_random_modifier_constrained_all_chars() {
    let tb = TenboardModifierConstrained::new_random();
    let hs_set: HashSet<_> = TYPABLE_CHARS
        .chars()
        .map(|ch| tb.try_type_char(ch))
        .collect::<Result<_, _>>()
        .unwrap();
    assert_eq!(hs_set.len(), TYPABLE_CHARS.len());
    assert!(tb
        .lowercase_digit_entries()
        .iter()
        .all(|(_, hs)| hs.count_pressed() <= 2));
    assert!(tb
        .punctuation_entries()
        .iter()
        .all(|(_, hs)| matches!(hs.count_pressed(), 2 | 3)));
}

#[test]
fn test_thumb_constrained_reserves_thumbs() {
    let tb = TenboardThumbConstrained::new_random();
    let ws = tb.try_type_char(' ').unwrap();
    let nl = tb.try_type_char('\n').unwrap();
    assert_eq!(ws, tb.whitespace_chord());
    assert_eq!(nl, tb.newline_chord());
    assert_ne!(ws, nl);
    assert_eq!(ws.count_pressed(), 1);
    assert_eq!(nl.count_pressed(), 1);
    assert!(ws.0[4].is_pressed() || ws.0[5].is_pressed());
    assert!(nl.0[4].is_pressed() || nl.0[5].is_pressed());
}

#[test]
fn test_modifier_constrained_uppercase_composition() {
    let tb = TenboardModifierConstrained::new_random();
    let lower = tb.try_type_char('q').unwrap();
    let upper = tb.try_type_char('Q').unwrap();
    assert_eq!(upper, lower.combine(&tb.whitespace_chord()));
    assert_eq!(upper.count_pressed(), lower.count_pressed() + 1);
}

#[test]
fn test_random_layout_rejects_unknown_char() {
    let tb = TenboardUnconstrained::new_random();
    let err = tb.try_type_char('\u{e9}').unwrap_err();
    assert_eq!(err.ch, '\u{e9}');
}
