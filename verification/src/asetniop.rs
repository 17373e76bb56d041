//! The ASETNIOP layout: a fixed dual-layer chorded layout.
//!
//! Two tables map characters to chords: a letters layer and a symbols layer.
//! The active layer alternates after every character. A character is typed by
//! looking it up in the current layer (emitting its chord if present),
//! swapping the layer, and looking it up again in the new layer: if found
//! there, a fixed switch chord and the found chord are emitted too; if not,
//! the whole conversion fails with that character. A character found in both
//! layers therefore emits three chords; this doubling is part of the layout's
//! observable behaviour and is preserved exactly.

use vstd::prelude::*;

use crate::hands::{pair_pressed, views_of, HandsState};
use crate::keyboard::{Keyboard, NoSuchChar};

verus! {

/// Ten finger activations as a chord view: a positive entry is pressed.
pub open spec fn chord10(
    f0: int,
    f1: int,
    f2: int,
    f3: int,
    f4: int,
    f5: int,
    f6: int,
    f7: int,
    f8: int,
    f9: int,
) -> Seq<bool> {
    seq![f0 > 0, f1 > 0, f2 > 0, f3 > 0, f4 > 0, f5 > 0, f6 > 0, f7 > 0, f8 > 0, f9 > 0]
}

/// The letters layer: lowercase and uppercase letters (uppercase adds the
/// left-thumb shift), a few punctuation marks with their shifted variants,
/// tab and newline.
pub open spec fn letters_chord(ch: char) -> Option<Seq<bool>> {
    if ch == 'a' {
        Some(chord10(1, 0, 0, 0, 0, 0, 0, 0, 0, 0))
    } else if ch == 'b' {
        Some(chord10(0, 0, 0, 1, 0, 0, 1, 0, 0, 0))
    } else if ch == 'c' {
        Some(chord10(0, 1, 0, 1, 0, 0, 0, 0, 0, 0))
    } else if ch == 'd' {
        Some(chord10(0, 1, 1, 0, 0, 0, 0, 0, 0, 0))
    } else if ch == 'e' {
        Some(chord10(0, 0, 1, 0, 0, 0, 0, 0, 0, 0))
    } else if ch == 'f' {
        Some(chord10(1, 0, 0, 1, 0, 0, 0, 0, 0, 0))
    } else if ch == 'g' {
        Some(chord10(0, 0, 0, 1, 0, 0, 0, 0, 1, 0))
    } else if ch == 'h' {
        Some(chord10(0, 0, 0, 0, 0, 0, 1, 1, 0, 0))
    } else if ch == 'i' {
        Some(chord10(0, 0, 0, 0, 0, 0, 0, 1, 0, 0))
    } else if ch == 'j' {
        Some(chord10(0, 1, 0, 0, 0, 0, 1, 0, 0, 0))
    } else if ch == 'k' {
        Some(chord10(0, 1, 0, 0, 0, 0, 0, 1, 0, 0))
    } else if ch == 'l' {
        Some(chord10(0, 0, 0, 0, 0, 0, 0, 1, 1, 0))
    } else if ch == 'm' {
        Some(chord10(0, 0, 0, 0, 0, 0, 1, 0, 0, 1))
    } else if ch == 'n' {
        Some(chord10(0, 0, 0, 0, 0, 0, 1, 0, 0, 0))
    } else if ch == 'o' {
        Some(chord10(0, 0, 0, 0, 0, 0, 0, 0, 1, 0))
    } else if ch == 'p' {
        Some(chord10(0, 0, 0, 0, 0, 0, 0, 0, 0, 1))
    } else if ch == 'q' {
        Some(chord10(1, 0, 0, 0, 0, 0, 1, 0, 0, 0))
    } else if ch == 'r' {
        Some(chord10(0, 0, 1, 1, 0, 0, 0, 0, 0, 0))
    } else if ch == 's' {
        Some(chord10(0, 1, 0, 0, 0, 0, 0, 0, 0, 0))
    } else if ch == 't' {
        Some(chord10(0, 0, 0, 1, 0, 0, 0, 0, 0, 0))
    } else if ch == 'u' {
        Some(chord10(0, 0, 0, 0, 0, 0, 1, 0, 1, 0))
    } else if ch == 'v' {
        Some(chord10(0, 0, 0, 1, 0, 0, 0, 1, 0, 0))
    } else if ch == 'w' {
        Some(chord10(1, 1, 0, 0, 0, 0, 0, 0, 0, 0))
    } else if ch == 'x' {
        Some(chord10(1, 0, 1, 0, 0, 0, 0, 0, 0, 0))
    } else if ch == 'y' {
        Some(chord10(0, 0, 1, 0, 0, 0, 1, 0, 0, 0))
    } else if ch == 'z' {
        Some(chord10(1, 0, 0, 0, 0, 0, 0, 1, 0, 0))
    } else if ch == 'A' {
        Some(chord10(1, 0, 0, 0, 1, 0, 0, 0, 0, 0))
    } else if ch == 'B' {
        Some(chord10(0, 0, 0, 1, 1, 0, 1, 0, 0, 0))
    } else if ch == 'C' {
        Some(chord10(0, 1, 0, 1, 1, 0, 0, 0, 0, 0))
    } else if ch == 'D' {
        Some(chord10(0, 1, 1, 0, 1, 0, 0, 0, 0, 0))
    } else if ch == 'E' {
        Some(chord10(0, 0, 1, 0, 1, 0, 0, 0, 0, 0))
    } else if ch == 'F' {
        Some(chord10(1, 0, 0, 1, 1, 0, 0, 0, 0, 0))
    } else if ch == 'G' {
        Some(chord10(0, 0, 0, 1, 1, 0, 0, 0, 1, 0))
    } else if ch == 'H' {
        Some(chord10(0, 0, 0, 0, 1, 0, 1, 1, 0, 0))
    } else if ch == 'I' {
        Some(chord10(0, 0, 0, 0, 1, 0, 0, 1, 0, 0))
    } else if ch == 'J' {
        Some(chord10(0, 1, 0, 0, 1, 0, 1, 0, 0, 0))
    } else if ch == 'K' {
        Some(chord10(0, 1, 0, 0, 1, 0, 0, 1, 0, 0))
    } else if ch == 'L' {
        Some(chord10(0, 0, 0, 0, 1, 0, 0, 1, 1, 0))
    } else if ch == 'M' {
        Some(chord10(0, 0, 0, 0, 1, 0, 1, 0, 0, 1))
    } else if ch == 'N' {
        Some(chord10(0, 0, 0, 0, 1, 0, 1, 0, 0, 0))
    } else if ch == 'O' {
        Some(chord10(0, 0, 0, 0, 1, 0, 0, 0, 1, 0))
    } else if ch == 'P' {
        Some(chord10(0, 0, 0, 0, 1, 0, 0, 0, 0, 1))
    } else if ch == 'Q' {
        Some(chord10(1, 0, 0, 0, 1, 0, 1, 0, 0, 0))
    } else if ch == 'R' {
        Some(chord10(0, 0, 1, 1, 1, 0, 0, 0, 0, 0))
    } else if ch == 'S' {
        Some(chord10(0, 1, 0, 0, 1, 0, 0, 0, 0, 0))
    } else if ch == 'T' {
        Some(chord10(0, 0, 0, 1, 1, 0, 0, 0, 0, 0))
    } else if ch == 'U' {
        Some(chord10(0, 0, 0, 0, 1, 0, 1, 0, 1, 0))
    } else if ch == 'V' {
        Some(chord10(0, 0, 0, 1, 1, 0, 0, 1, 0, 0))
    } else if ch == 'W' {
        Some(chord10(1, 1, 0, 0, 1, 0, 0, 0, 0, 0))
    } else if ch == 'X' {
        Some(chord10(1, 0, 1, 0, 1, 0, 0, 0, 0, 0))
    } else if ch == 'Y' {
        Some(chord10(0, 0, 1, 0, 1, 0, 1, 0, 0, 0))
    } else if ch == 'Z' {
        Some(chord10(1, 0, 0, 0, 1, 0, 0, 1, 0, 0))
    } else if ch == '!' {
        Some(chord10(0, 0, 0, 0, 0, 0, 0, 1, 0, 1))
    } else if ch == '\'' {
        Some(chord10(0, 0, 1, 0, 0, 0, 0, 0, 0, 1))
    } else if ch == ';' {
        Some(chord10(0, 0, 0, 0, 0, 0, 0, 0, 1, 1))
    } else if ch == ',' {
        Some(chord10(0, 0, 1, 0, 0, 0, 0, 1, 0, 0))
    } else if ch == '.' {
        Some(chord10(0, 1, 0, 0, 0, 0, 0, 0, 1, 0))
    } else if ch == '?' {
        Some(chord10(1, 0, 0, 0, 0, 0, 0, 0, 0, 1))
    } else if ch == '(' {
        Some(chord10(1, 0, 0, 0, 0, 0, 0, 0, 1, 0))
    } else if ch == ')' {
        Some(chord10(0, 1, 0, 0, 0, 0, 0, 0, 0, 1))
    } else if ch == '-' {
        Some(chord10(0, 0, 1, 0, 0, 0, 0, 0, 1, 0))
    } else if ch == '\t' {
        Some(chord10(1, 1, 1, 1, 0, 0, 0, 0, 0, 0))
    } else if ch == '\n' {
        Some(chord10(0, 0, 0, 0, 0, 0, 1, 1, 1, 1))
    } else if ch == '@' {
        Some(chord10(0, 0, 0, 0, 1, 0, 0, 1, 0, 1))
    } else if ch == '"' {
        Some(chord10(0, 0, 1, 0, 1, 0, 0, 0, 0, 1))
    } else if ch == ':' {
        Some(chord10(0, 0, 0, 0, 1, 0, 0, 0, 1, 1))
    } else if ch == '<' {
        Some(chord10(0, 0, 1, 0, 1, 0, 0, 1, 0, 0))
    } else if ch == '>' {
        Some(chord10(0, 1, 0, 0, 1, 0, 0, 0, 1, 0))
    } else if ch == '/' {
        Some(chord10(1, 0, 0, 0, 1, 0, 0, 0, 0, 1))
    } else if ch == '[' {
        Some(chord10(1, 0, 0, 0, 1, 0, 0, 0, 1, 0))
    } else if ch == ']' {
        Some(chord10(0, 1, 0, 0, 1, 0, 0, 0, 0, 1))
    } else if ch == '_' {
        Some(chord10(0, 0, 1, 0, 1, 0, 0, 0, 1, 0))
    } else {
        None
    }
}

/// The symbols layer: digits and symbol punctuation, with shifted variants.
pub open spec fn symbols_chord(ch: char) -> Option<Seq<bool>> {
    if ch == '1' {
        Some(chord10(1, 0, 0, 0, 0, 0, 0, 0, 0, 0))
    } else if ch == '`' {
        Some(chord10(1, 0, 1, 0, 0, 0, 0, 0, 0, 0))
    } else if ch == '[' {
        Some(chord10(1, 0, 0, 1, 0, 0, 0, 0, 0, 0))
    } else if ch == '!' {
        Some(chord10(1, 0, 0, 0, 1, 0, 0, 1, 0, 0))
    } else if ch == '(' {
        Some(chord10(1, 0, 0, 0, 0, 0, 0, 0, 1, 0))
    } else if ch == '?' {
        Some(chord10(1, 0, 0, 0, 0, 0, 0, 0, 0, 1))
    } else if ch == '2' {
        Some(chord10(0, 1, 0, 0, 0, 0, 0, 0, 0, 0))
    } else if ch == '-' {
        Some(chord10(0, 1, 1, 0, 0, 0, 0, 0, 0, 0))
    } else if ch == '=' {
        Some(chord10(0, 1, 0, 0, 0, 0, 0, 1, 0, 0))
    } else if ch == '.' {
        Some(chord10(0, 1, 0, 0, 0, 0, 0, 0, 1, 0))
    } else if ch == ')' {
        Some(chord10(0, 1, 0, 0, 0, 0, 0, 0, 0, 1))
    } else if ch == '3' {
        Some(chord10(0, 0, 1, 0, 0, 0, 0, 0, 0, 0))
    } else if ch == ',' {
        Some(chord10(0, 0, 1, 0, 0, 0, 0, 0, 1, 0))
    } else if ch == '\'' {
        Some(chord10(0, 0, 1, 0, 0, 0, 0, 0, 0, 1))
    } else if ch == '4' {
        Some(chord10(0, 0, 0, 1, 0, 0, 0, 0, 0, 0))
    } else if ch == '5' {
        Some(chord10(0, 0, 1, 1, 0, 0, 0, 0, 0, 0))
    } else if ch == '6' {
        Some(chord10(0, 0, 0, 0, 0, 0, 1, 1, 0, 0))
    } else if ch == '7' {
        Some(chord10(0, 0, 0, 0, 0, 0, 1, 0, 0, 0))
    } else if ch == ']' {
        Some(chord10(0, 0, 0, 0, 0, 0, 1, 0, 0, 1))
    } else if ch == '8' {
        Some(chord10(0, 0, 0, 0, 0, 0, 0, 1, 0, 0))
    } else if ch == '9' {
        Some(chord10(0, 0, 0, 0, 0, 0, 0, 0, 1, 0))
    } else if ch == ';' {
        Some(chord10(0, 0, 0, 0, 0, 0, 0, 0, 1, 1))
    } else if ch == '~' {
        Some(chord10(1, 0, 1, 0, 1, 0, 0, 0, 0, 0))
    } else if ch == '{' {
        Some(chord10(1, 0, 0, 1, 1, 0, 0, 0, 0, 0))
    } else if ch == '/' {
        Some(chord10(1, 0, 0, 0, 1, 0, 0, 0, 0, 1))
    } else if ch == '@' {
        Some(chord10(0, 1, 0, 0, 1, 0, 0, 0, 0, 0))
    } else if ch == '_' {
        Some(chord10(0, 1, 1, 0, 1, 0, 0, 0, 0, 0))
    } else if ch == '+' {
        Some(chord10(0, 1, 0, 0, 1, 0, 0, 1, 0, 0))
    } else if ch == '>' {
        Some(chord10(0, 1, 0, 0, 1, 0, 0, 0, 1, 0))
    } else if ch == '#' {
        Some(chord10(0, 0, 1, 0, 1, 0, 0, 0, 0, 0))
    } else if ch == '%' {
        Some(chord10(0, 0, 1, 1, 1, 0, 0, 0, 0, 0))
    } else if ch == '<' {
        Some(chord10(0, 0, 1, 0, 1, 0, 0, 1, 0, 0))
    } else if ch == '$' {
        Some(chord10(0, 0, 0, 1, 1, 0, 0, 0, 0, 0))
    } else if ch == '&' {
        Some(chord10(0, 0, 0, 0, 1, 0, 1, 0, 0, 0))
    } else if ch == '^' {
        Some(chord10(0, 0, 0, 0, 1, 0, 1, 1, 0, 0))
    } else if ch == '}' {
        Some(chord10(0, 0, 0, 0, 1, 0, 1, 0, 0, 1))
    } else if ch == '*' {
        Some(chord10(0, 0, 0, 0, 1, 0, 0, 1, 0, 0))
    } else if ch == ':' {
        Some(chord10(0, 0, 0, 0, 1, 0, 0, 0, 1, 1))
    } else {
        None
    }
}

/// The chord emitted between the two chords of a character that needs a
/// layer switch: one hand's pinky and the other hand's outer finger.
pub open spec fn switch_view() -> Seq<bool> {
    pair_pressed(0, 9)
}

fn table_entry(levels: [i32; 10]) -> (r: Option<HandsState>)
    ensures
        r matches Some(hs) && hs@ == chord10(
            levels[0] as int,
            levels[1] as int,
            levels[2] as int,
            levels[3] as int,
            levels[4] as int,
            levels[5] as int,
            levels[6] as int,
            levels[7] as int,
            levels[8] as int,
            levels[9] as int,
        ),
{
    let hs = HandsState::from_levels(levels);
    proof {
        assert(hs@ =~= chord10(
            levels[0] as int,
            levels[1] as int,
            levels[2] as int,
            levels[3] as int,
            levels[4] as int,
            levels[5] as int,
            levels[6] as int,
            levels[7] as int,
            levels[8] as int,
            levels[9] as int,
        ));
    }
    Some(hs)
}

/// Looks a character up in the letters layer.
pub fn letters_lookup(ch: char) -> (r: Option<HandsState>)
    ensures
        match r {
            Some(hs) => letters_chord(ch) == Some(hs@),
            None => letters_chord(ch) is None,
        },
{
    match ch {
        'a' => table_entry([1, 0, 0, 0, 0, 0, 0, 0, 0, 0]),
        'b' => table_entry([0, 0, 0, 1, 0, 0, 1, 0, 0, 0]),
        'c' => table_entry([0, 1, 0, 1, 0, 0, 0, 0, 0, 0]),
        'd' => table_entry([0, 1, 1, 0, 0, 0, 0, 0, 0, 0]),
        'e' => table_entry([0, 0, 1, 0, 0, 0, 0, 0, 0, 0]),
        'f' => table_entry([1, 0, 0, 1, 0, 0, 0, 0, 0, 0]),
        'g' => table_entry([0, 0, 0, 1, 0, 0, 0, 0, 1, 0]),
        'h' => table_entry([0, 0, 0, 0, 0, 0, 1, 1, 0, 0]),
        'i' => table_entry([0, 0, 0, 0, 0, 0, 0, 1, 0, 0]),
        'j' => table_entry([0, 1, 0, 0, 0, 0, 1, 0, 0, 0]),
        'k' => table_entry([0, 1, 0, 0, 0, 0, 0, 1, 0, 0]),
        'l' => table_entry([0, 0, 0, 0, 0, 0, 0, 1, 1, 0]),
        'm' => table_entry([0, 0, 0, 0, 0, 0, 1, 0, 0, 1]),
        'n' => table_entry([0, 0, 0, 0, 0, 0, 1, 0, 0, 0]),
        'o' => table_entry([0, 0, 0, 0, 0, 0, 0, 0, 1, 0]),
        'p' => table_entry([0, 0, 0, 0, 0, 0, 0, 0, 0, 1]),
        'q' => table_entry([1, 0, 0, 0, 0, 0, 1, 0, 0, 0]),
        'r' => table_entry([0, 0, 1, 1, 0, 0, 0, 0, 0, 0]),
        's' => table_entry([0, 1, 0, 0, 0, 0, 0, 0, 0, 0]),
        't' => table_entry([0, 0, 0, 1, 0, 0, 0, 0, 0, 0]),
        'u' => table_entry([0, 0, 0, 0, 0, 0, 1, 0, 1, 0]),
        'v' => table_entry([0, 0, 0, 1, 0, 0, 0, 1, 0, 0]),
        'w' => table_entry([1, 1, 0, 0, 0, 0, 0, 0, 0, 0]),
        'x' => table_entry([1, 0, 1, 0, 0, 0, 0, 0, 0, 0]),
        'y' => table_entry([0, 0, 1, 0, 0, 0, 1, 0, 0, 0]),
        'z' => table_entry([1, 0, 0, 0, 0, 0, 0, 1, 0, 0]),
        'A' => table_entry([1, 0, 0, 0, 1, 0, 0, 0, 0, 0]),
        'B' => table_entry([0, 0, 0, 1, 1, 0, 1, 0, 0, 0]),
        'C' => table_entry([0, 1, 0, 1, 1, 0, 0, 0, 0, 0]),
        'D' => table_entry([0, 1, 1, 0, 1, 0, 0, 0, 0, 0]),
        'E' => table_entry([0, 0, 1, 0, 1, 0, 0, 0, 0, 0]),
        'F' => table_entry([1, 0, 0, 1, 1, 0, 0, 0, 0, 0]),
        'G' => table_entry([0, 0, 0, 1, 1, 0, 0, 0, 1, 0]),
        'H' => table_entry([0, 0, 0, 0, 1, 0, 1, 1, 0, 0]),
        'I' => table_entry([0, 0, 0, 0, 1, 0, 0, 1, 0, 0]),
        'J' => table_entry([0, 1, 0, 0, 1, 0, 1, 0, 0, 0]),
        'K' => table_entry([0, 1, 0, 0, 1, 0, 0, 1, 0, 0]),
        'L' => table_entry([0, 0, 0, 0, 1, 0, 0, 1, 1, 0]),
        'M' => table_entry([0, 0, 0, 0, 1, 0, 1, 0, 0, 1]),
        'N' => table_entry([0, 0, 0, 0, 1, 0, 1, 0, 0, 0]),
        'O' => table_entry([0, 0, 0, 0, 1, 0, 0, 0, 1, 0]),
        'P' => table_entry([0, 0, 0, 0, 1, 0, 0, 0, 0, 1]),
        'Q' => table_entry([1, 0, 0, 0, 1, 0, 1, 0, 0, 0]),
        'R' => table_entry([0, 0, 1, 1, 1, 0, 0, 0, 0, 0]),
        'S' => table_entry([0, 1, 0, 0, 1, 0, 0, 0, 0, 0]),
        'T' => table_entry([0, 0, 0, 1, 1, 0, 0, 0, 0, 0]),
        'U' => table_entry([0, 0, 0, 0, 1, 0, 1, 0, 1, 0]),
        'V' => table_entry([0, 0, 0, 1, 1, 0, 0, 1, 0, 0]),
        'W' => table_entry([1, 1, 0, 0, 1, 0, 0, 0, 0, 0]),
        'X' => table_entry([1, 0, 1, 0, 1, 0, 0, 0, 0, 0]),
        'Y' => table_entry([0, 0, 1, 0, 1, 0, 1, 0, 0, 0]),
        'Z' => table_entry([1, 0, 0, 0, 1, 0, 0, 1, 0, 0]),
        '!' => table_entry([0, 0, 0, 0, 0, 0, 0, 1, 0, 1]),
        '\'' => table_entry([0, 0, 1, 0, 0, 0, 0, 0, 0, 1]),
        ';' => table_entry([0, 0, 0, 0, 0, 0, 0, 0, 1, 1]),
        ',' => table_entry([0, 0, 1, 0, 0, 0, 0, 1, 0, 0]),
        '.' => table_entry([0, 1, 0, 0, 0, 0, 0, 0, 1, 0]),
        '?' => table_entry([1, 0, 0, 0, 0, 0, 0, 0, 0, 1]),
        '(' => table_entry([1, 0, 0, 0, 0, 0, 0, 0, 1, 0]),
        ')' => table_entry([0, 1, 0, 0, 0, 0, 0, 0, 0, 1]),
        '-' => table_entry([0, 0, 1, 0, 0, 0, 0, 0, 1, 0]),
        '\t' => table_entry([1, 1, 1, 1, 0, 0, 0, 0, 0, 0]),
        '\n' => table_entry([0, 0, 0, 0, 0, 0, 1, 1, 1, 1]),
        '@' => table_entry([0, 0, 0, 0, 1, 0, 0, 1, 0, 1]),
        '"' => table_entry([0, 0, 1, 0, 1, 0, 0, 0, 0, 1]),
        ':' => table_entry([0, 0, 0, 0, 1, 0, 0, 0, 1, 1]),
        '<' => table_entry([0, 0, 1, 0, 1, 0, 0, 1, 0, 0]),
        '>' => table_entry([0, 1, 0, 0, 1, 0, 0, 0, 1, 0]),
        '/' => table_entry([1, 0, 0, 0, 1, 0, 0, 0, 0, 1]),
        '[' => table_entry([1, 0, 0, 0, 1, 0, 0, 0, 1, 0]),
        ']' => table_entry([0, 1, 0, 0, 1, 0, 0, 0, 0, 1]),
        '_' => table_entry([0, 0, 1, 0, 1, 0, 0, 0, 1, 0]),
        _ => None,
    }
}

/// Looks a character up in the symbols layer.
pub fn symbols_lookup(ch: char) -> (r: Option<HandsState>)
    ensures
        match r {
            Some(hs) => symbols_chord(ch) == Some(hs@),
            None => symbols_chord(ch) is None,
        },
{
    match ch {
        '1' => table_entry([1, 0, 0, 0, 0, 0, 0, 0, 0, 0]),
        '`' => table_entry([1, 0, 1, 0, 0, 0, 0, 0, 0, 0]),
        '[' => table_entry([1, 0, 0, 1, 0, 0, 0, 0, 0, 0]),
        '!' => table_entry([1, 0, 0, 0, 1, 0, 0, 1, 0, 0]),
        '(' => table_entry([1, 0, 0, 0, 0, 0, 0, 0, 1, 0]),
        '?' => table_entry([1, 0, 0, 0, 0, 0, 0, 0, 0, 1]),
        '2' => table_entry([0, 1, 0, 0, 0, 0, 0, 0, 0, 0]),
        '-' => table_entry([0, 1, 1, 0, 0, 0, 0, 0, 0, 0]),
        '=' => table_entry([0, 1, 0, 0, 0, 0, 0, 1, 0, 0]),
        '.' => table_entry([0, 1, 0, 0, 0, 0, 0, 0, 1, 0]),
        ')' => table_entry([0, 1, 0, 0, 0, 0, 0, 0, 0, 1]),
        '3' => table_entry([0, 0, 1, 0, 0, 0, 0, 0, 0, 0]),
        ',' => table_entry([0, 0, 1, 0, 0, 0, 0, 0, 1, 0]),
        '\'' => table_entry([0, 0, 1, 0, 0, 0, 0, 0, 0, 1]),
        '4' => table_entry([0, 0, 0, 1, 0, 0, 0, 0, 0, 0]),
        '5' => table_entry([0, 0, 1, 1, 0, 0, 0, 0, 0, 0]),
        '6' => table_entry([0, 0, 0, 0, 0, 0, 1, 1, 0, 0]),
        '7' => table_entry([0, 0, 0, 0, 0, 0, 1, 0, 0, 0]),
        ']' => table_entry([0, 0, 0, 0, 0, 0, 1, 0, 0, 1]),
        '8' => table_entry([0, 0, 0, 0, 0, 0, 0, 1, 0, 0]),
        '9' => table_entry([0, 0, 0, 0, 0, 0, 0, 0, 1, 0]),
        ';' => table_entry([0, 0, 0, 0, 0, 0, 0, 0, 1, 1]),
        '~' => table_entry([1, 0, 1, 0, 1, 0, 0, 0, 0, 0]),
        '{' => table_entry([1, 0, 0, 1, 1, 0, 0, 0, 0, 0]),
        '/' => table_entry([1, 0, 0, 0, 1, 0, 0, 0, 0, 1]),
        '@' => table_entry([0, 1, 0, 0, 1, 0, 0, 0, 0, 0]),
        '_' => table_entry([0, 1, 1, 0, 1, 0, 0, 0, 0, 0]),
        '+' => table_entry([0, 1, 0, 0, 1, 0, 0, 1, 0, 0]),
        '>' => table_entry([0, 1, 0, 0, 1, 0, 0, 0, 1, 0]),
        '#' => table_entry([0, 0, 1, 0, 1, 0, 0, 0, 0, 0]),
        '%' => table_entry([0, 0, 1, 1, 1, 0, 0, 0, 0, 0]),
        '<' => table_entry([0, 0, 1, 0, 1, 0, 0, 1, 0, 0]),
        '$' => table_entry([0, 0, 0, 1, 1, 0, 0, 0, 0, 0]),
        '&' => table_entry([0, 0, 0, 0, 1, 0, 1, 0, 0, 0]),
        '^' => table_entry([0, 0, 0, 0, 1, 0, 1, 1, 0, 0]),
        '}' => table_entry([0, 0, 0, 0, 1, 0, 1, 0, 0, 1]),
        '*' => table_entry([0, 0, 0, 0, 1, 0, 0, 1, 0, 0]),
        ':' => table_entry([0, 0, 0, 0, 1, 0, 0, 0, 1, 1]),
        _ => None,
    }
}

/// The two layers of the layout. The letters layer is active at the start.
#[derive(Clone, Copy, Debug, PartialEq, Eq, Structural)]
pub enum Layout {
    Letters,
    Symbols,
}

impl Layout {
    /// The letters layer.
    pub fn new_letters() -> (r: Layout)
        ensures
            r is Letters,
    {
        Layout::Letters
    }

    /// The symbols layer.
    pub fn new_symbols() -> (r: Layout)
        ensures
            r is Symbols,
    {
        Layout::Symbols
    }

    /// The other layer.
    pub open spec fn spec_other(self) -> Layout {
        match self {
            Layout::Letters => Layout::Symbols,
            Layout::Symbols => Layout::Letters,
        }
    }

    /// Swaps the layer: letters to symbols and back.
    pub fn swap(&mut self)
        ensures
            *final(self) == old(self).spec_other(),
    {
        match *self {
            Layout::Letters => {
                *self = Layout::Symbols;
            },
            Layout::Symbols => {
                *self = Layout::Letters;
            },
        }
    }
}

impl Default for Layout {
    /// The letters layer is the initial one.
    fn default() -> (r: Self)
        ensures
            r is Letters,
    {
        Layout::Letters
    }
}

/// The chord of a character in a layer's table.
pub open spec fn layer_chord(l: Layout, ch: char) -> Option<Seq<bool>> {
    match l {
        Layout::Letters => letters_chord(ch),
        Layout::Symbols => symbols_chord(ch),
    }
}

/// Full typing behaviour of the dual-layer layout, one character at a time:
/// the chord of the current layer if the character is there, then, after the
/// unconditional layer swap, the switch chord and the new layer's chord; a
/// character absent from the swapped-to layer fails the whole text.
pub open spec fn asetniop_type(l: Layout, chars: Seq<char>) -> Result<
    (Seq<Seq<bool>>, Layout),
    (char, Layout),
>
    decreases chars.len(),
{
    if chars.len() == 0 {
        Ok((Seq::empty(), l))
    } else {
        let ch = chars.first();
        let l2 = l.spec_other();
        match layer_chord(l2, ch) {
            None => Err((ch, l2)),
            Some(c2) => {
                let emitted = (match layer_chord(l, ch) {
                    Some(c1) => seq![c1],
                    None => Seq::empty(),
                }) + seq![switch_view(), c2];
                match asetniop_type(l2, chars.drop_first()) {
                    Ok((rest, lf)) => Ok((emitted + rest, lf)),
                    Err(e) => Err(e),
                }
            },
        }
    }
}

proof fn lemma_asetniop_step(l: Layout, chars: Seq<char>, i: int)
    requires
        0 <= i < chars.len(),
    ensures
        asetniop_type(l, chars.skip(i)) == ({
            let ch = chars[i];
            let l2 = l.spec_other();
            match layer_chord(l2, ch) {
                None => Err::<(Seq<Seq<bool>>, Layout), (char, Layout)>((ch, l2)),
                Some(c2) => {
                    let emitted = (match layer_chord(l, ch) {
                        Some(c1) => seq![c1],
                        None => Seq::empty(),
                    }) + seq![switch_view(), c2];
                    match asetniop_type(l2, chars.skip(i + 1)) {
                        Ok((rest, lf)) => Ok::<_, (char, Layout)>((emitted + rest, lf)),
                        Err(e) => Err(e),
                    }
                },
            }
        }),
{
    assert(chars.skip(i).len() == chars.len() - i);
    assert(chars.skip(i).first() == chars[i]);
    assert(chars.skip(i).drop_first() =~= chars.skip(i + 1));
}

/// The ASETNIOP keyboard: the fixed tables plus the current layer.
pub struct Asetniop {
    pub layout: Layout,
}

impl Default for Asetniop {
    /// Starts in the letters layer.
    fn default() -> (r: Self)
        ensures
            r.layout is Letters,
    {
        Asetniop { layout: Layout::Letters }
    }
}

impl Asetniop {
    fn lookup(&self, ch: char) -> (r: Option<HandsState>)
        ensures
            match r {
                Some(hs) => layer_chord(self.layout, ch) == Some(hs@),
                None => layer_chord(self.layout, ch) is None,
            },
    {
        match self.layout {
            Layout::Letters => letters_lookup(ch),
            Layout::Symbols => symbols_lookup(ch),
        }
    }
}

impl Keyboard for Asetniop {
    open spec fn inv(&self) -> bool {
        true
    }

    open spec fn spec_type_chars(&self, chars: Seq<char>) -> Result<
        (Seq<Seq<bool>>, Self),
        (char, Self),
    > {
        match asetniop_type(self.layout, chars) {
            Ok((cs, lf)) => Ok((cs, Asetniop { layout: lf })),
            Err((c, lf)) => Err((c, Asetniop { layout: lf })),
        }
    }

    fn try_type_chars(&mut self, chars: &Vec<char>) -> (r: Result<Vec<HandsState>, NoSuchChar>) {
        let ghost l0 = self.layout;
        let mut out: Vec<HandsState> = Vec::new();
        let mut i: usize = 0;
        let n = chars.len();
        proof {
            assert(chars@.skip(0) =~= chars@);
        }
        while i < n
            invariant
                0 <= i <= n,
                n == chars@.len(),
                l0 == old(self).layout,
                asetniop_type(l0, chars@) == (match asetniop_type(
                    self.layout,
                    chars@.skip(i as int),
                ) {
                    Ok((rest, lf)) => Ok::<_, (char, Layout)>((views_of(out@) + rest, lf)),
                    Err(e) => Err(e),
                }),
            decreases n - i,
        {
            let ch = chars[i];
            proof {
                lemma_asetniop_step(self.layout, chars@, i as int);
            }
            let ghost out0 = out@;
            let ghost lcur = self.layout;
            let first = self.lookup(ch);
            let mut emitted_first = false;
            if let Some(hs) = first {
                out.push(hs);
                emitted_first = true;
            }
            self.layout.swap();
            match self.lookup(ch) {
                Some(hs) => {
                    out.push(HandsState::from_levels([1, 0, 0, 0, 0, 0, 0, 0, 0, 1]));
                    out.push(hs);
                    proof {
                        let c2 = hs@;
                        let emitted = (match layer_chord(lcur, chars@[i as int]) {
                            Some(c1) => seq![c1],
                            None => Seq::<Seq<bool>>::empty(),
                        }) + seq![switch_view(), c2];
                        assert(out@[out@.len() - 2]@ =~= switch_view());
                        assert(views_of(out@) =~= views_of(out0) + emitted);
                        if let Ok((rest, lf)) = asetniop_type(self.layout, chars@.skip(i + 1)) {
                            assert(views_of(out0) + (emitted + rest) =~= views_of(out@) + rest);
                        }
                    }
                },
                None => {
                    proof {
                        assert(asetniop_type(l0, chars@) == Err::<
                            (Seq<Seq<bool>>, Layout),
                            (char, Layout),
                        >((chars@[i as int], self.layout)));
                    }
                    return Err(NoSuchChar { ch });
                },
            }
            i += 1;
        }
        proof {
            assert(chars@.skip(n as int) =~= Seq::<char>::empty());
            assert(views_of(out@) + Seq::<Seq<bool>>::empty() =~= views_of(out@));
        }
        Ok(out)
    }
}

} // verus!
