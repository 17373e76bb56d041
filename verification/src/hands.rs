//! Finger and hand state: the chord model.
//!
//! A chord is a simultaneous combination of finger presses, encoded as a
//! fixed row of ten `FingerState` values: positions 0 through 4 are the left
//! hand (pinky to thumb), positions 5 through 9 the right hand (thumb to
//! pinky), so positions 4 and 5 are the two thumbs.

use vstd::prelude::*;

verus! {

/// State of a single finger: either pressed or released.
#[derive(Clone, Copy, Debug, PartialEq, Eq, Structural, Hash)]
pub enum FingerState {
    Pressed,
    Released,
}

impl FingerState {
    /// True iff the finger is pressed.
    pub open spec fn spec_is_pressed(self) -> bool {
        self is Pressed
    }

    pub fn is_pressed(&self) -> (r: bool)
        ensures
            r == self.spec_is_pressed(),
    {
        *self == FingerState::Pressed
    }

    pub fn is_released(&self) -> (r: bool)
        ensures
            r == !self.spec_is_pressed(),
    {
        *self == FingerState::Released
    }
}

impl Default for FingerState {
    /// A finger is released by default.
    fn default() -> (r: Self)
        ensures
            r == FingerState::Released,
    {
        FingerState::Released
    }
}

impl From<bool> for FingerState {
    fn from(value: bool) -> (r: Self)
        ensures
            r.spec_is_pressed() == value,
    {
        if value {
            FingerState::Pressed
        } else {
            FingerState::Released
        }
    }
}

impl vstd::std_specs::convert::FromSpecImpl<bool> for FingerState {
    open spec fn obeys_from_spec() -> bool {
        true
    }

    open spec fn from_spec(value: bool) -> Self {
        if value {
            FingerState::Pressed
        } else {
            FingerState::Released
        }
    }
}

impl From<i32> for FingerState {
    /// Any positive value counts as pressed.
    fn from(value: i32) -> (r: Self)
        ensures
            r.spec_is_pressed() == (value > 0),
    {
        if value > 0 {
            FingerState::Pressed
        } else {
            FingerState::Released
        }
    }
}

impl vstd::std_specs::convert::FromSpecImpl<i32> for FingerState {
    open spec fn obeys_from_spec() -> bool {
        true
    }

    open spec fn from_spec(value: i32) -> Self {
        if value > 0 {
            FingerState::Pressed
        } else {
            FingerState::Released
        }
    }
}

impl From<FingerState> for u32 {
    /// A pressed finger counts as one press.
    fn from(value: FingerState) -> (r: u32)
        ensures
            r == value.spec_press_count(),
    {
        match value {
            FingerState::Pressed => 1,
            FingerState::Released => 0,
        }
    }
}

impl FingerState {
    /// Number of presses this single finger state contributes: 1 or 0.
    pub open spec fn spec_press_count(self) -> u32 {
        if self is Pressed {
            1
        } else {
            0
        }
    }
}

impl vstd::std_specs::convert::FromSpecImpl<FingerState> for u32 {
    open spec fn obeys_from_spec() -> bool {
        true
    }

    open spec fn from_spec(value: FingerState) -> u32 {
        value.spec_press_count()
    }
}

/// A chord view with exactly one position pressed.
pub open spec fn single_pressed(p: int) -> Seq<bool> {
    Seq::new(10, |i: int| i == p)
}

/// A chord view with exactly two positions pressed.
pub open spec fn pair_pressed(p: int, q: int) -> Seq<bool> {
    Seq::new(10, |i: int| i == p || i == q)
}

/// Position-wise disjunction of two chord views.
pub open spec fn combine_views(a: Seq<bool>, b: Seq<bool>) -> Seq<bool> {
    Seq::new(a.len(), |i: int| a[i] || b[i])
}

/// Law: combining chord views is commutative.
pub proof fn lemma_combine_commutative(a: Seq<bool>, b: Seq<bool>)
    requires
        a.len() == b.len(),
    ensures
        combine_views(a, b) == combine_views(b, a),
{
    assert(combine_views(a, b) =~= combine_views(b, a));
}

/// Law: combining a chord view with itself changes nothing; positions that
/// are already pressed stay pressed.
pub proof fn lemma_combine_idempotent(a: Seq<bool>)
    ensures
        combine_views(a, a) == a,
{
    assert(combine_views(a, a) =~= a);
}

/// Number of pressed positions in a chord view.
pub open spec fn count_pressed_seq(s: Seq<bool>) -> nat
    decreases s.len(),
{
    if s.len() == 0 {
        0
    } else {
        count_pressed_seq(s.drop_last()) + if s.last() {
            1nat
        } else {
            0nat
        }
    }
}

/// The views of a sequence of chords, position by position.
pub open spec fn views_of(s: Seq<HandsState>) -> Seq<Seq<bool>> {
    Seq::new(s.len(), |i: int| s[i]@)
}

/// Combined state of both hands: a row of exactly ten finger states.
/// Positions 0 through 4 belong to the left hand (pinky to thumb), positions
/// 5 through 9 to the right hand (thumb to pinky); 4 and 5 are the thumbs.
#[derive(Clone, Copy, Debug, Eq, Hash)]
pub struct HandsState(pub [FingerState; 10]);

impl View for HandsState {
    type V = Seq<bool>;

    open spec fn view(&self) -> Seq<bool> {
        Seq::new(10, |i: int| self.0[i] is Pressed)
    }
}

impl PartialEq for HandsState {
    fn eq(&self, other: &HandsState) -> (r: bool) {
        let mut i: usize = 0;
        while i < 10
            invariant
                0 <= i <= 10,
                forall|j: int| 0 <= j < i ==> self.0[j] == other.0[j],
            decreases 10 - i,
        {
            if self.0[i] != other.0[i] {
                return false;
            }
            i += 1;
        }
        proof {
            vstd::array::axiom_array_ext_equal(self.0, other.0);
            assert(self.0 =~= other.0);
        }
        true
    }
}

impl vstd::std_specs::cmp::PartialEqSpecImpl for HandsState {
    open spec fn obeys_eq_spec() -> bool {
        true
    }

    open spec fn eq_spec(&self, other: &HandsState) -> bool {
        *self == *other
    }
}

/// Two chords with the same view are the same chord.
pub proof fn lemma_view_injective(a: HandsState, b: HandsState)
    requires
        a@ == b@,
    ensures
        a == b,
{
    assert forall|i: int| 0 <= i < 10 implies a.0[i] == b.0[i] by {
        assert(a@[i] == (a.0[i] is Pressed));
        assert(b@[i] == (b.0[i] is Pressed));
        assert((a.0[i] is Pressed) == (b.0[i] is Pressed));
        if a.0[i] is Pressed {
            assert(b.0[i] is Pressed);
        } else {
            assert(b.0[i] is Released);
        }
    }
    vstd::array::axiom_array_ext_equal(a.0, b.0);
    assert(a.0 =~= b.0);
}

impl Default for HandsState {
    /// All fingers released.
    fn default() -> (r: Self)
        ensures
            forall|i: int| 0 <= i < 10 ==> !r@[i],
    {
        proof {
            vstd::array::axiom_spec_array_fill_for_copy_type::<FingerState, 10>(
                FingerState::Released,
            );
        }
        HandsState([FingerState::Released; 10])
    }
}

impl HandsState {
    /// Builds a chord from ten activation levels: a positive level means the
    /// finger is pressed.
    pub fn from_levels(levels: [i32; 10]) -> (r: HandsState)
        ensures
            r@ == Seq::new(10, |i: int| levels[i] > 0),
    {
        let mut states: [FingerState; 10] = [FingerState::Released; 10];
        proof {
            vstd::array::axiom_spec_array_fill_for_copy_type::<FingerState, 10>(
                FingerState::Released,
            );
        }
        let mut i: usize = 0;
        while i < 10
            invariant
                0 <= i <= 10,
                forall|j: int| 0 <= j < i ==> (states[j] is Pressed) == (levels[j] > 0),
                forall|j: int| i <= j < 10 ==> states[j] is Released,
            decreases 10 - i,
        {
            if levels[i] > 0 {
                states[i] = FingerState::Pressed;
            }
            i += 1;
        }
        let r = HandsState(states);
        proof {
            assert(r@ =~= Seq::new(10, |i: int| levels[i] > 0));
        }
        r
    }

    /// The chord that presses only the left thumb (position 4).
    pub fn left_thumb() -> (r: Self)
        ensures
            r@ == single_pressed(4),
    {
        let r = HandsState::from_levels([0, 0, 0, 0, 1, 0, 0, 0, 0, 0]);
        proof {
            assert(r@ =~= single_pressed(4));
        }
        r
    }

    /// The chord that presses only the right thumb (position 5).
    pub fn right_thumb() -> (r: Self)
        ensures
            r@ == single_pressed(5),
    {
        let r = HandsState::from_levels([0, 0, 0, 0, 0, 1, 0, 0, 0, 0]);
        proof {
            assert(r@ =~= single_pressed(5));
        }
        r
    }

    /// Creates a new chord where a finger is pressed whenever it is pressed
    /// in `self` or in `other`.
    pub fn combine(&self, other: &Self) -> (r: Self)
        ensures
            r@ == combine_views(self@, other@),
    {
        let mut states: [FingerState; 10] = [FingerState::Released; 10];
        proof {
            vstd::array::axiom_spec_array_fill_for_copy_type::<FingerState, 10>(
                FingerState::Released,
            );
        }
        let mut i: usize = 0;
        while i < 10
            invariant
                0 <= i <= 10,
                forall|j: int| 0 <= j < i ==> (states[j] is Pressed) == (self@[j] || other@[j]),
                forall|j: int| i <= j < 10 ==> states[j] is Released,
            decreases 10 - i,
        {
            if self.0[i].is_pressed() || other.0[i].is_pressed() {
                states[i] = FingerState::Pressed;
            }
            i += 1;
        }
        let r = HandsState(states);
        proof {
            assert(r@ =~= combine_views(self@, other@));
        }
        r
    }

    /// Returns the number of pressed fingers in the chord.
    pub fn count_pressed(&self) -> (r: usize)
        ensures
            r == count_pressed_seq(self@),
    {
        let mut count: usize = 0;
        let mut i: usize = 0;
        while i < 10
            invariant
                0 <= i <= 10,
                count == count_pressed_seq(self@.take(i as int)),
                count <= i,
            decreases 10 - i,
        {
            proof {
                assert(self@.take(i + 1).drop_last() =~= self@.take(i as int));
                assert(self@.take(i + 1).last() == self@[i as int]);
            }
            if self.0[i].is_pressed() {
                count += 1;
            }
            i += 1;
        }
        proof {
            assert(self@.take(10) =~= self@);
        }
        count
    }

    /// Returns the two hands' halves of the chord: first the left hand's five
    /// finger states, then the right hand's.
    pub fn hand_iter(&self) -> (r: Vec<Vec<FingerState>>)
        ensures
            r@.len() == 2,
            r@[0]@.len() == 5,
            r@[1]@.len() == 5,
            forall|j: int| 0 <= j < 5 ==> (r@[0]@[j] is Pressed) == self@[j],
            forall|j: int| 0 <= j < 5 ==> (r@[1]@[j] is Pressed) == self@[j + 5],
    {
        let mut left: Vec<FingerState> = Vec::new();
        let mut right: Vec<FingerState> = Vec::new();
        let mut i: usize = 0;
        while i < 5
            invariant
                0 <= i <= 5,
                left@.len() == i,
                right@.len() == i,
                forall|j: int| 0 <= j < i ==> (left@[j] is Pressed) == self@[j],
                forall|j: int| 0 <= j < i ==> (right@[j] is Pressed) == self@[j + 5],
            decreases 5 - i,
        {
            left.push(self.0[i]);
            right.push(self.0[i + 5]);
            i += 1;
        }
        let mut r: Vec<Vec<FingerState>> = Vec::new();
        r.push(left);
        r.push(right);
        r
    }
}

/// Law: `combine` is commutative on chords: whichever operand comes first,
/// the same chord comes out.
pub proof fn lemma_combine_commutative_chords(
    x: HandsState,
    y: HandsState,
    xy: HandsState,
    yx: HandsState,
)
    requires
        xy@ == combine_views(x@, y@),
        yx@ == combine_views(y@, x@),
    ensures
        xy == yx,
{
    lemma_combine_commutative(x@, y@);
    lemma_view_injective(xy, yx);
}

/// Law: `combine` is idempotent on chords: combining a chord with itself
/// gives the chord back.
pub proof fn lemma_combine_idempotent_chords(x: HandsState, xx: HandsState)
    requires
        xx@ == combine_views(x@, x@),
    ensures
        xx == x,
{
    lemma_combine_idempotent(x@);
    lemma_view_injective(xx, x);
}

} // verus!
