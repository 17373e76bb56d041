//! The typing protocol: a keyboard turns a character sequence into the
//! sequence of chords needed to type it, or fails fast on the first
//! character it cannot type.

use vstd::prelude::*;

use crate::hands::{views_of, HandsState};

verus! {

/// A character could not be typed with a keyboard.
#[derive(Clone, Copy, Debug, PartialEq, Eq, Structural)]
pub struct NoSuchChar {
    pub ch: char,
}

/// A generic keyboard.
///
/// `spec_type_chars` is the keyboard's full typing behaviour: for a given
/// character sequence it yields the chord views emitted and the state the
/// keyboard is left in; on failure, the first untypeable character, in
/// input order, and the state the keyboard is left in at that point.
pub trait Keyboard: Sized {
    /// The keyboard's validity: constructors establish it and typing keeps
    /// it.
    spec fn inv(&self) -> bool;

    /// The chords typed for `chars` and the resulting keyboard state; or the
    /// first character that cannot be typed, with the state the keyboard is
    /// left in.
    spec fn spec_type_chars(&self, chars: Seq<char>) -> Result<
        (Seq<Seq<bool>>, Self),
        (char, Self),
    >;

    /// Types the characters in order. The first untypeable character aborts
    /// the whole conversion: no partial output is returned.
    fn try_type_chars(&mut self, chars: &Vec<char>) -> (r: Result<Vec<HandsState>, NoSuchChar>)
        requires
            old(self).inv(),
        ensures
            final(self).inv(),
            match r {
                Ok(out) => old(self).spec_type_chars(chars@) == Ok::<_, (char, Self)>(
                    (views_of(out@), *final(self)),
                ),
                Err(e) => old(self).spec_type_chars(chars@) == Err::<(Seq<Seq<bool>>, Self), _>(
                    (e.ch, *final(self)),
                ),
            },
    ;
}

} // verus!
