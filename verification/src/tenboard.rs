//! Tenboard layouts: random bijections from the typable characters onto a
//! chord space.
//!
//! A layout is built once, from a shuffled chord space, and is immutable
//! afterwards. Whatever permutation the shuffle picks, every layout maps the
//! whole typable set and assigns pairwise-distinct chords: the
//! character-to-chord mapping is injective.

use vstd::prelude::*;

use rand::seq::SliceRandom;

use crate::charmap::CharMap;
use crate::charset::{
    digit_chars,
    digit_chars_seq,
    is_ascii_digit,
    is_ascii_lowercase,
    is_ascii_uppercase,
    lowercase_chars,
    lowercase_chars_seq,
    punctuation_chars,
    punctuation_chars_seq,
    spec_is_ascii_digit,
    spec_is_ascii_lowercase,
    spec_is_ascii_uppercase,
    spec_to_lowercase,
    to_lowercase,
    typable_chars,
    typable_chars_seq,
    uppercase_chars_seq,
};
use crate::chord_space::{
    all_space,
    is_no_thumb_chord,
    is_nonthumb_pos,
    lemma_all_space_props,
    lemma_no_thumb_space_props,
    lemma_with_thumb_space_props,
    no_thumb_space,
    with_thumb_space,
};
use crate::hands::{combine_views, count_pressed_seq, single_pressed, views_of, HandsState};
use crate::keyboard::{Keyboard, NoSuchChar};

verus! {

/// Relies on rand's `SliceRandom::shuffle`: it permutes the slice in place,
/// so the new contents are the old contents in some order.
#[verifier::external_body]
fn shuffle_chords(v: &mut Vec<HandsState>)
    ensures
        final(v)@.to_multiset() == old(v)@.to_multiset(),
{
    v.shuffle(&mut rand::rng());
}

/// Relies on rand's `random_ratio`: a fair coin flip. Nothing is promised of
/// the outcome.
#[verifier::external_body]
fn coin_flip() -> bool {
    rand::random_ratio(1, 2)
}

/// A full random layout: every typable character has a chord, and no two
/// characters share one.
pub open spec fn tenboard_layout_wf(m: Map<char, Seq<bool>>) -> bool {
    &&& forall|k: int|
        0 <= k < typable_chars_seq().len() ==> m.contains_key(#[trigger] typable_chars_seq()[k])
    &&& forall|c1: char, c2: char|
        m.contains_key(c1) && m.contains_key(c2) && c1 != c2 ==> m[c1] != m[c2]
}

/// Fail-fast typing against a fixed character-to-chord map: the chords of
/// all characters in order, or the first character absent from the map.
pub open spec fn map_typed(m: Map<char, Seq<bool>>, chars: Seq<char>) -> Result<
    Seq<Seq<bool>>,
    char,
>
    decreases chars.len(),
{
    if chars.len() == 0 {
        Ok(Seq::empty())
    } else if !m.contains_key(chars.first()) {
        Err(chars.first())
    } else {
        match map_typed(m, chars.drop_first()) {
            Ok(rest) => Ok(seq![m[chars.first()]] + rest),
            Err(e) => Err(e),
        }
    }
}

/// Skipping conversion against a fixed map: the chords of the typeable
/// characters in order, untypeable ones silently dropped.
pub open spec fn skip_typed(m: Map<char, Seq<bool>>, chars: Seq<char>) -> Seq<Seq<bool>>
    decreases chars.len(),
{
    if chars.len() == 0 {
        Seq::empty()
    } else {
        let rest = skip_typed(m, chars.drop_first());
        if m.contains_key(chars.first()) {
            seq![m[chars.first()]] + rest
        } else {
            rest
        }
    }
}

proof fn lemma_map_typed_step(m: Map<char, Seq<bool>>, chars: Seq<char>, i: int)
    requires
        0 <= i < chars.len(),
    ensures
        map_typed(m, chars.skip(i)) == (if !m.contains_key(chars[i]) {
            Err::<Seq<Seq<bool>>, char>(chars[i])
        } else {
            match map_typed(m, chars.skip(i + 1)) {
                Ok(rest) => Ok::<_, char>(seq![m[chars[i]]] + rest),
                Err(e) => Err(e),
            }
        }),
{
    assert(chars.skip(i).len() == chars.len() - i);
    assert(chars.skip(i).first() == chars[i]);
    assert(chars.skip(i).drop_first() =~= chars.skip(i + 1));
}

proof fn lemma_skip_typed_step(m: Map<char, Seq<bool>>, chars: Seq<char>, i: int)
    requires
        0 <= i < chars.len(),
    ensures
        skip_typed(m, chars.skip(i)) == (if m.contains_key(chars[i]) {
            seq![m[chars[i]]] + skip_typed(m, chars.skip(i + 1))
        } else {
            skip_typed(m, chars.skip(i + 1))
        }),
{
    assert(chars.skip(i).len() == chars.len() - i);
    assert(chars.skip(i).first() == chars[i]);
    assert(chars.skip(i).drop_first() =~= chars.skip(i + 1));
}

/// A Tenboard layout: a fixed table assigning one chord per typable
/// character, built once at random.
pub trait Tenboard: Sized {
    /// The character-to-chord mapping the layout stands for.
    spec fn layout_map(&self) -> Map<char, Seq<bool>>;

    /// The layout's validity.
    spec fn wf(&self) -> bool;

    /// Creates a new random layout. Whatever the randomness yields, the
    /// layout maps every typable character and no two characters share a
    /// chord.
    fn new_random() -> (kb: Self)
        ensures
            kb.wf(),
            tenboard_layout_wf(kb.layout_map()),
    ;

    /// The chord typing the character, or an error naming the character if
    /// the layout does not cover it.
    fn try_type_char(&self, ch: char) -> (r: Result<HandsState, NoSuchChar>)
        requires
            self.wf(),
        ensures
            match r {
                Ok(hs) => self.layout_map().contains_key(ch) && hs@ == self.layout_map()[ch],
                Err(e) => !self.layout_map().contains_key(ch) && e.ch == ch,
            },
    ;

    /// Types the characters in order, silently skipping the ones the layout
    /// cannot type. This never fails, so it must be asked for explicitly; the
    /// fail-fast conversion is the default.
    fn type_chars_skip(&self, chars: &Vec<char>) -> (r: Vec<HandsState>)
        requires
            self.wf(),
        ensures
            views_of(r@) == skip_typed(self.layout_map(), chars@),
    {
        let mut out: Vec<HandsState> = Vec::new();
        let mut i: usize = 0;
        let n = chars.len();
        proof {
            assert(chars@.skip(0) =~= chars@);
        }
        while i < n
            invariant
                0 <= i <= n,
                n == chars@.len(),
                self.wf(),
                skip_typed(self.layout_map(), chars@) == views_of(out@) + skip_typed(
                    self.layout_map(),
                    chars@.skip(i as int),
                ),
            decreases n - i,
        {
            proof {
                lemma_skip_typed_step(self.layout_map(), chars@, i as int);
            }
            match self.try_type_char(chars[i]) {
                Ok(hs) => {
                    let ghost out0 = out@;
                    out.push(hs);
                    proof {
                        assert(views_of(out@) =~= views_of(out0) + seq![hs@]);
                        assert(views_of(out0) + (seq![hs@] + skip_typed(
                            self.layout_map(),
                            chars@.skip(i + 1),
                        )) =~= views_of(out@) + skip_typed(self.layout_map(), chars@.skip(i + 1)));
                    }
                },
                Err(_) => {
                },
            }
            i += 1;
        }
        proof {
            assert(chars@.skip(n as int) =~= Seq::<char>::empty());
            assert(views_of(out@) + skip_typed(self.layout_map(), Seq::empty()) =~= views_of(
                out@,
            ));
        }
        out
    }
}

/// Fail-fast typing shared by every Tenboard layout: one chord per
/// character, aborting on the first untypeable one.
fn tenboard_try_type_chars<T: Tenboard>(kb: &T, chars: &Vec<char>) -> (r: Result<
    Vec<HandsState>,
    NoSuchChar,
>)
    requires
        kb.wf(),
    ensures
        match r {
            Ok(out) => map_typed(kb.layout_map(), chars@) == Ok::<_, char>(views_of(out@)),
            Err(e) => map_typed(kb.layout_map(), chars@) == Err::<Seq<Seq<bool>>, char>(e.ch),
        },
{
    let mut out: Vec<HandsState> = Vec::new();
    let mut i: usize = 0;
    let n = chars.len();
    proof {
        assert(chars@.skip(0) =~= chars@);
    }
    while i < n
        invariant
            0 <= i <= n,
            n == chars@.len(),
            kb.wf(),
            map_typed(kb.layout_map(), chars@) == (match map_typed(
                kb.layout_map(),
                chars@.skip(i as int),
            ) {
                Ok(rest) => Ok::<_, char>(views_of(out@) + rest),
                Err(e) => Err(e),
            }),
        decreases n - i,
    {
        proof {
            lemma_map_typed_step(kb.layout_map(), chars@, i as int);
        }
        match kb.try_type_char(chars[i]) {
            Ok(hs) => {
                let ghost out0 = out@;
                out.push(hs);
                proof {
                    assert(views_of(out@) =~= views_of(out0) + seq![hs@]);
                    if let Ok(rest) = map_typed(kb.layout_map(), chars@.skip(i + 1)) {
                        assert(views_of(out0) + (seq![hs@] + rest) =~= views_of(out@) + rest);
                    }
                }
            },
            Err(e) => {
                return Err(e);
            },
        }
        i += 1;
    }
    proof {
        assert(chars@.skip(n as int) =~= Seq::<char>::empty());
        assert(views_of(out@) + Seq::<Seq<bool>>::empty() =~= views_of(out@));
    }
    Ok(out)
}

/// A permutation of chords with pairwise-distinct views keeps the length,
/// keeps the views pairwise distinct, and draws every element from the
/// original listing.
proof fn lemma_shuffled_props(orig: Seq<HandsState>, shuf: Seq<HandsState>)
    requires
        shuf.to_multiset() == orig.to_multiset(),
        forall|k1: int, k2: int| 0 <= k1 < k2 < orig.len() ==> orig[k1]@ != orig[k2]@,
    ensures
        shuf.len() == orig.len(),
        forall|k: int| 0 <= k < shuf.len() ==> orig.contains(#[trigger] shuf[k]),
        forall|k1: int, k2: int| 0 <= k1 < k2 < shuf.len() ==> shuf[k1]@ != shuf[k2]@,
{
    broadcast use vstd::seq_lib::group_to_multiset_ensures;

    assert(shuf.len() == shuf.to_multiset().len());
    assert(orig.len() == orig.to_multiset().len());
    assert(orig.no_duplicates());
    orig.lemma_multiset_has_no_duplicates();
    assert forall|x: HandsState| shuf.to_multiset().contains(x) implies shuf.to_multiset().count(x)
        == 1 by {
        assert(orig.to_multiset().contains(x));
    }
    shuf.lemma_multiset_has_no_duplicates_conv();
    assert forall|k: int| 0 <= k < shuf.len() implies orig.contains(#[trigger] shuf[k]) by {
        assert(shuf.contains(shuf[k]));
        assert(shuf.to_multiset().count(shuf[k]) > 0);
        assert(orig.to_multiset().count(shuf[k]) > 0);
    }
    assert forall|k1: int, k2: int| 0 <= k1 < k2 < shuf.len() implies shuf[k1]@ != shuf[k2]@ by {
        assert(shuf[k1] != shuf[k2]);
        if shuf[k1]@ == shuf[k2]@ {
            crate::hands::lemma_view_injective(shuf[k1], shuf[k2]);
        }
    }
}

/// Zips a character list with a chord list into a table, entry by entry,
/// stopping at the shorter list; a repeated character keeps its last chord.
fn zip_layout(chars: &Vec<char>, chords: &Vec<HandsState>) -> (r: CharMap)
    requires
        forall|k1: int, k2: int| 0 <= k1 < k2 < chords@.len() ==> chords@[k1]@ != chords@[k2]@,
    ensures
        r.wf(),
        forall|j: int|
            0 <= j < vstd::math::min(chars@.len() as int, chords@.len() as int)
                ==> r@.contains_key(#[trigger] chars@[j]),
        forall|c: char|
            #[trigger] r@.contains_key(c) ==> exists|j: int|
                0 <= j < vstd::math::min(chars@.len() as int, chords@.len() as int) && chars@[j]
                    == c,
        forall|c: char|
            #[trigger] r@.contains_key(c) ==> exists|k: int|
                0 <= k < vstd::math::min(chars@.len() as int, chords@.len() as int) && r@[c]
                    == chords@[k]@,
        forall|c1: char, c2: char|
            r@.contains_key(c1) && r@.contains_key(c2) && c1 != c2 ==> r@[c1] != r@[c2],
        forall|j: int|
            0 <= j < vstd::math::min(chars@.len() as int, chords@.len() as int) && (forall|j2: int|
                j < j2 < vstd::math::min(chars@.len() as int, chords@.len() as int)
                    ==> chars@[j2] != chars@[j]) ==> r@[#[trigger] chars@[j]] == chords@[j]@,
{
    let n = if chars.len() < chords.len() {
        chars.len()
    } else {
        chords.len()
    };
    let ghost zl = vstd::math::min(chars@.len() as int, chords@.len() as int);
    let mut r = CharMap::new();
    let mut i: usize = 0;
    while i < n
        invariant
            0 <= i <= n,
            n == zl,
            zl == vstd::math::min(chars@.len() as int, chords@.len() as int),
            r.wf(),
            forall|k1: int, k2: int| 0 <= k1 < k2 < chords@.len() ==> chords@[k1]@ != chords@[k2]@,
            forall|j: int| 0 <= j < i ==> r@.contains_key(#[trigger] chars@[j]),
            forall|c: char|
                #[trigger] r@.contains_key(c) ==> exists|j: int| 0 <= j < i && chars@[j] == c,
            forall|c: char|
                #[trigger] r@.contains_key(c) ==> exists|k: int| 0 <= k < i && r@[c]
                    == chords@[k]@,
            forall|c1: char, c2: char|
                r@.contains_key(c1) && r@.contains_key(c2) && c1 != c2 ==> r@[c1] != r@[c2],
            forall|j: int|
                0 <= j < i && (forall|j2: int| j < j2 < zl ==> chars@[j2] != chars@[j])
                    ==> r@[#[trigger] chars@[j]] == chords@[j]@,
        decreases n - i,
    {
        let ghost r0 = r@;
        r.insert(chars[i], chords[i]);
        proof {
            let c_new = chars@[i as int];
            let v_new = chords@[i as int]@;
            assert(r@ == r0.insert(c_new, v_new));
            assert forall|c: char| #[trigger] r@.contains_key(c) implies exists|k: int|
                0 <= k < i + 1 && r@[c] == chords@[k]@ by {
                if c == c_new {
                    assert(r@[c] == chords@[i as int]@);
                } else {
                    assert(r0.contains_key(c));
                }
            }
            assert forall|c1: char, c2: char|
                r@.contains_key(c1) && r@.contains_key(c2) && c1 != c2 implies r@[c1] != r@[c2] by {
                if c1 != c_new && c2 != c_new {
                    assert(r0.contains_key(c1) && r0.contains_key(c2));
                } else {
                    let other = if c1 == c_new {
                        c2
                    } else {
                        c1
                    };
                    assert(r@[c_new] == v_new);
                    assert(r0.contains_key(other));
                    let k = choose|k: int| 0 <= k < i && r0[other] == chords@[k]@;
                    assert(r@[other] == r0[other]);
                    assert(chords@[k]@ != chords@[i as int]@);
                }
            }
        }
        i += 1;
    }
    r
}

/// The map built by inserting character-chord pairs in order: a repeated
/// character keeps its last chord.
pub open spec fn pairs_map(s: Seq<(char, HandsState)>) -> Map<char, Seq<bool>>
    decreases s.len(),
{
    if s.len() == 0 {
        Map::empty()
    } else {
        pairs_map(s.drop_last()).insert(s.last().0, s.last().1@)
    }
}

/// The typable set lists 98 characters: the four classes, one after the
/// other, with the digit class's repeated zero.
pub proof fn lemma_typable_len()
    ensures
        typable_chars_seq().len() == 98,
{
}

/// Unconstrained Tenboard layout: any character may be mapped to any chord
/// of the full 110-chord space.
pub struct TenboardUnconstrained {
    layout: CharMap,
}

impl TenboardUnconstrained {
    /// Builds a layout from explicit character-chord pairs; a repeated
    /// character keeps its last chord.
    pub fn new(layout: Vec<(char, HandsState)>) -> (kb: Self)
        ensures
            kb.wf(),
            kb.layout_map() == pairs_map(layout@),
    {
        let mut m = CharMap::new();
        let mut i: usize = 0;
        let n = layout.len();
        proof {
            assert(layout@.take(0) =~= Seq::<(char, HandsState)>::empty());
        }
        while i < n
            invariant
                0 <= i <= n,
                n == layout@.len(),
                m.wf(),
                m@ == pairs_map(layout@.take(i as int)),
            decreases n - i,
        {
            let (ch, hs) = layout[i];
            m.insert(ch, hs);
            proof {
                assert(layout@.take(i + 1).drop_last() =~= layout@.take(i as int));
                assert(layout@.take(i + 1).last() == layout@[i as int]);
            }
            i += 1;
        }
        proof {
            assert(layout@.take(n as int) =~= layout@);
        }
        TenboardUnconstrained { layout: m }
    }

    /// The character-keyed listing of the layout's table: one entry per
    /// mapped character, and every mapped character listed.
    pub fn entries(&self) -> (r: Vec<(char, HandsState)>)
        requires
            self.wf(),
        ensures
            forall|k: int|
                0 <= k < r@.len() ==> self.layout_map().contains_key((#[trigger] r@[k]).0)
                    && self.layout_map()[r@[k].0] == r@[k].1@,
            forall|c: char|
                #[trigger] self.layout_map().contains_key(c) ==> exists|k: int|
                    0 <= k < r@.len() && (#[trigger] r@[k]).0 == c,
    {
        let r = self.layout.entries();
        proof {
            self.layout.lemma_view_entry_map();
            assert forall|c: char| #[trigger] self.layout_map().contains_key(c) implies exists|
                k: int,
            | 0 <= k < r@.len() && (#[trigger] r@[k]).0 == c by {
                let k = choose|k: int|
                    0 <= k < self.layout.entry_seq().len() && (#[trigger] self.layout.entry_seq(
                    )[k]).0 == c;
                assert(r@[k].0 == c);
            }
        }
        r
    }
}

impl Tenboard for TenboardUnconstrained {
    closed spec fn layout_map(&self) -> Map<char, Seq<bool>> {
        self.layout@
    }

    closed spec fn wf(&self) -> bool {
        self.layout.wf()
    }

    fn new_random() -> (kb: Self)
        ensures
            forall|c: char|
                #[trigger] kb.layout_map().contains_key(c) ==> 1 <= count_pressed_seq(
                    kb.layout_map()[c],
                ) <= 3 && !(kb.layout_map()[c][4] && kb.layout_map()[c][5]),
    {
        proof {
            lemma_all_space_props();
        }
        let mut chords = HandsState::iterate_one_two_key_all_states();
        let ghost orig = chords@;
        proof {
            assert(views_of(orig) == all_space());
            assert forall|k1: int, k2: int| 0 <= k1 < k2 < orig.len() implies orig[k1]@
                != orig[k2]@ by {
                assert(orig[k1]@ == all_space()[k1] && orig[k2]@ == all_space()[k2]);
            }
        }
        shuffle_chords(&mut chords);
        proof {
            lemma_shuffled_props(orig, chords@);
        }
        let chars = typable_chars();
        proof {
            lemma_typable_len();
        }
        let layout = zip_layout(&chars, &chords);
        let kb = TenboardUnconstrained { layout };
        proof {
            assert forall|c: char| #[trigger] kb.layout_map().contains_key(c) implies 1
                <= count_pressed_seq(kb.layout_map()[c]) <= 3 && !(kb.layout_map()[c][4]
                && kb.layout_map()[c][5]) by {
                let k = choose|k: int| 0 <= k < 98 && kb.layout_map()[c] == chords@[k]@;
                assert(orig.contains(chords@[k]));
                let i = choose|i: int| 0 <= i < orig.len() && orig[i] == chords@[k];
                assert(orig[i]@ == all_space()[i]);
            }
        }
        kb
    }

    fn try_type_char(&self, ch: char) -> (r: Result<HandsState, NoSuchChar>) {
        match self.layout.get(ch) {
            Some(hs) => Ok(hs),
            None => Err(NoSuchChar { ch }),
        }
    }
}

impl Keyboard for TenboardUnconstrained {
    open spec fn inv(&self) -> bool {
        Tenboard::wf(self)
    }

    open spec fn spec_type_chars(&self, chars: Seq<char>) -> Result<
        (Seq<Seq<bool>>, Self),
        (char, Self),
    > {
        match map_typed(self.layout_map(), chars) {
            Ok(cs) => Ok((cs, *self)),
            Err(c) => Err((c, *self)),
        }
    }

    fn try_type_chars(&mut self, chars: &Vec<char>) -> (r: Result<Vec<HandsState>, NoSuchChar>) {
        tenboard_try_type_chars(&*self, chars)
    }
}

/// The characters of `v` that are neither `a` nor `b`, in order.
fn without_two(v: &Vec<char>, a: char, b: char) -> (r: Vec<char>)
    ensures
        r@.len() <= v@.len(),
        forall|k: int| 0 <= k < r@.len() ==> #[trigger] r@[k] != a && r@[k] != b,
        forall|k: int|
            0 <= k < v@.len() && #[trigger] v@[k] != a && v@[k] != b ==> r@.contains(v@[k]),
{
    let mut r: Vec<char> = Vec::new();
    let mut i: usize = 0;
    let n = v.len();
    while i < n
        invariant
            0 <= i <= n,
            n == v@.len(),
            r@.len() <= i,
            forall|k: int| 0 <= k < r@.len() ==> #[trigger] r@[k] != a && r@[k] != b,
            forall|k: int|
                0 <= k < i && #[trigger] v@[k] != a && v@[k] != b ==> r@.contains(v@[k]),
        decreases n - i,
    {
        let c = v[i];
        if c != a && c != b {
            let ghost r0 = r@;
            r.push(c);
            proof {
                assert(r@[r@.len() - 1] == c);
                assert forall|k: int|
                    0 <= k < i + 1 && #[trigger] v@[k] != a && v@[k] != b implies r@.contains(
                    v@[k]) by {
                    if k < i {
                        let j = choose|j: int| 0 <= j < r0.len() && r0[j] == v@[k];
                        assert(r@[j] == v@[k]);
                    } else {
                        assert(r@[r@.len() - 1] == v@[k]);
                    }
                }
            }
        }
        i += 1;
    }
    r
}

/// Thumb-constrained Tenboard layout: space and newline are reserved for the
/// two bare thumb chords; everything else is drawn from the with-thumb
/// space.
pub struct TenboardThumbConstrained {
    whitespace_hs: HandsState,
    newline_hs: HandsState,
    layout: CharMap,
}

impl TenboardThumbConstrained {
    /// The chord reserved for the space character.
    pub fn whitespace_chord(&self) -> (r: HandsState)
        ensures
            r@ == self.layout_map()[' '],
    {
        self.whitespace_hs
    }

    /// The chord reserved for the newline character.
    pub fn newline_chord(&self) -> (r: HandsState)
        ensures
            r@ == self.layout_map()['\n'],
    {
        self.newline_hs
    }

    /// The character-keyed listing of the layout: the two reserved chords
    /// under the space and newline characters themselves, then the table;
    /// every mapped character is listed.
    pub fn entries(&self) -> (r: Vec<(char, HandsState)>)
        requires
            self.wf(),
        ensures
            forall|k: int|
                0 <= k < r@.len() ==> self.layout_map().contains_key((#[trigger] r@[k]).0)
                    && self.layout_map()[r@[k].0] == r@[k].1@,
            forall|c: char|
                #[trigger] self.layout_map().contains_key(c) ==> exists|k: int|
                    0 <= k < r@.len() && (#[trigger] r@[k]).0 == c,
    {
        let mut r: Vec<(char, HandsState)> = Vec::new();
        r.push((' ', self.whitespace_hs));
        r.push(('\n', self.newline_hs));
        let mut rest = self.layout.entries();
        let ghost restg = rest@;
        r.append(&mut rest);
        proof {
            self.layout.lemma_view_entry_map();
            assert forall|k: int| 0 <= k < r@.len() implies self.layout_map().contains_key(
                (#[trigger] r@[k]).0,
            ) && self.layout_map()[r@[k].0] == r@[k].1@ by {
                if k >= 2 {
                    assert(r@[k] == restg[k - 2]);
                    assert(self.layout@.contains_key(restg[k - 2].0));
                }
            }
            assert forall|c: char| #[trigger] self.layout_map().contains_key(c) implies exists|
                k: int,
            | 0 <= k < r@.len() && (#[trigger] r@[k]).0 == c by {
                if c == ' ' {
                    assert(r@[0].0 == c);
                } else if c == '\n' {
                    assert(r@[1].0 == c);
                } else {
                    assert(self.layout@.contains_key(c));
                    let k = choose|k: int|
                        0 <= k < self.layout.entry_seq().len() && (
                        #[trigger] self.layout.entry_seq()[k]).0 == c;
                    assert(r@[k + 2] == restg[k]);
                    assert(r@[k + 2].0 == c);
                }
            }
        }
        r
    }
}

impl Tenboard for TenboardThumbConstrained {
    closed spec fn layout_map(&self) -> Map<char, Seq<bool>> {
        self.layout@.insert(' ', self.whitespace_hs@).insert('\n', self.newline_hs@)
    }

    closed spec fn wf(&self) -> bool {
        &&& self.layout.wf()
        &&& !self.layout@.contains_key(' ')
        &&& !self.layout@.contains_key('\n')
    }

    fn new_random() -> (kb: Self)
        ensures
            forall|c: char|
                #[trigger] kb.layout_map().contains_key(c) ==> 1 <= count_pressed_seq(
                    kb.layout_map()[c],
                ) <= 3,
            kb.layout_map()[' '] == single_pressed(4) && kb.layout_map()['\n'] == single_pressed(
                5,
            ) || kb.layout_map()[' '] == single_pressed(5) && kb.layout_map()['\n']
                == single_pressed(4),
            forall|c: char|
                #[trigger] kb.layout_map().contains_key(c) && c != ' ' && c != '\n'
                    ==> exists|w: int| is_nonthumb_pos(w) && kb.layout_map()[c][w],
            forall|c: char|
                #[trigger] kb.layout_map().contains_key(c) ==> !(kb.layout_map()[c][4]
                    && kb.layout_map()[c][5]),
    {
        let (ws, nl) = if coin_flip() {
            (HandsState::left_thumb(), HandsState::right_thumb())
        } else {
            (HandsState::right_thumb(), HandsState::left_thumb())
        };
        proof {
            lemma_with_thumb_space_props();
            crate::chord_space::lemma_count_single(4);
            crate::chord_space::lemma_count_single(5);
        }
        let mut chords = HandsState::iterate_one_two_key_with_thumbs();
        let ghost orig = chords@;
        proof {
            assert(views_of(orig) == with_thumb_space());
            assert forall|k1: int, k2: int| 0 <= k1 < k2 < orig.len() implies orig[k1]@
                != orig[k2]@ by {
                assert(orig[k1]@ == with_thumb_space()[k1] && orig[k2]@ == with_thumb_space()[k2]);
            }
        }
        shuffle_chords(&mut chords);
        proof {
            lemma_shuffled_props(orig, chords@);
        }
        let typable = typable_chars();
        proof {
            lemma_typable_len();
        }
        let chars = without_two(&typable, ' ', '\n');
        let layout = zip_layout(&chars, &chords);
        let kb = TenboardThumbConstrained { whitespace_hs: ws, newline_hs: nl, layout };
        proof {
            let m = kb.layout_map();
            let zl = vstd::math::min(chars@.len() as int, chords@.len() as int);
            assert(zl == chars@.len());
            assert(!layout@.contains_key(' ') && !layout@.contains_key('\n')) by {
                if layout@.contains_key(' ') {
                    let j = choose|j: int| 0 <= j < zl && chars@[j] == ' ';
                    assert(chars@[j] != ' ');
                }
                if layout@.contains_key('\n') {
                    let j = choose|j: int| 0 <= j < zl && chars@[j] == '\n';
                    assert(chars@[j] != '\n');
                }
            }
            assert forall|k: int|
                0 <= k < typable_chars_seq().len() implies m.contains_key(
                #[trigger] typable_chars_seq()[k]) by {
                let c = typable_chars_seq()[k];
                if c != ' ' && c != '\n' {
                    assert(typable@[k] != ' ' && typable@[k] != '\n');
                    assert(chars@.contains(c));
                    let j = choose|j: int| 0 <= j < chars@.len() && chars@[j] == c;
                    assert(layout@.contains_key(chars@[j]));
                }
            }
            assert forall|c: char| #[trigger] m.contains_key(c) && c != ' ' && c != '\n' implies {
                &&& layout@.contains_key(c)
                &&& m[c] == layout@[c]
                &&& exists|i: int|
                    0 <= i < orig.len() && m[c] == (#[trigger] orig[i])@
            } by {
                let k = choose|k: int| 0 <= k < zl && layout@[c] == (#[trigger] chords@[k])@;
                assert(orig.contains(chords@[k]));
                let i = choose|i: int| 0 <= i < orig.len() && orig[i] == chords@[k];
                assert(m[c] == orig[i]@);
            }
            assert forall|c1: char, c2: char|
                m.contains_key(c1) && m.contains_key(c2) && c1 != c2 implies m[c1] != m[c2] by {
                if c1 != ' ' && c1 != '\n' && c2 != ' ' && c2 != '\n' {
                    assert(layout@.contains_key(c1) && layout@.contains_key(c2));
                    assert(m[c1] == layout@[c1] && m[c2] == layout@[c2]);
                } else {
                    let special = if c1 == ' ' || c1 == '\n' {
                        c1
                    } else {
                        c2
                    };
                    let other = if c1 == ' ' || c1 == '\n' {
                        c2
                    } else {
                        c1
                    };
                    let sv = m[special];
                    assert(sv == single_pressed(4) || sv == single_pressed(5));
                    if other == ' ' || other == '\n' {
                        assert(m[' '] == ws@ && m['\n'] == nl@);
                        assert(ws@ != nl@) by {
                            assert(single_pressed(4)[4] && !single_pressed(5)[4]);
                        }
                    } else {
                        let i = choose|i: int|
                            0 <= i < orig.len() && m[other] == (#[trigger] orig[i])@;
                        assert(orig[i]@ == with_thumb_space()[i]);
                        let w = choose|w: int|
                            crate::chord_space::is_nonthumb_pos(w) && with_thumb_space()[i][w];
                        assert(m[other][w]);
                        assert(!single_pressed(4)[w] && !single_pressed(5)[w]);
                    }
                }
            }
            assert forall|c: char| #[trigger] m.contains_key(c) implies 1 <= count_pressed_seq(
                m[c],
            ) <= 3 by {
                if c == ' ' || c == '\n' {
                    assert(m[c] == single_pressed(4) || m[c] == single_pressed(5));
                } else {
                    let i = choose|i: int| 0 <= i < orig.len() && m[c] == (#[trigger] orig[i])@;
                    assert(orig[i]@ == with_thumb_space()[i]);
                }
            }
            assert(m[' '] == ws@ && m['\n'] == nl@);
            assert forall|c: char|
                #[trigger] m.contains_key(c) && c != ' ' && c != '\n' implies exists|w: int|
                is_nonthumb_pos(w) && m[c][w] by {
                let i = choose|i: int| 0 <= i < orig.len() && m[c] == (#[trigger] orig[i])@;
                assert(orig[i]@ == with_thumb_space()[i]);
                let w = choose|w: int| is_nonthumb_pos(w) && with_thumb_space()[i][w];
                assert(is_nonthumb_pos(w) && m[c][w]);
            }
            assert forall|c: char| #[trigger] m.contains_key(c) implies !(m[c][4] && m[c][5]) by {
                if c == ' ' || c == '\n' {
                    assert(m[c] == single_pressed(4) || m[c] == single_pressed(5));
                    assert(single_pressed(4)[5] == false && single_pressed(5)[4] == false);
                } else {
                    let i = choose|i: int| 0 <= i < orig.len() && m[c] == (#[trigger] orig[i])@;
                    assert(orig[i]@ == with_thumb_space()[i]);
                }
            }
        }
        kb
    }

    fn try_type_char(&self, ch: char) -> (r: Result<HandsState, NoSuchChar>) {
        if ch == ' ' {
            Ok(self.whitespace_hs)
        } else if ch == '\n' {
            Ok(self.newline_hs)
        } else {
            match self.layout.get(ch) {
                Some(hs) => Ok(hs),
                None => Err(NoSuchChar { ch }),
            }
        }
    }
}

impl Keyboard for TenboardThumbConstrained {
    open spec fn inv(&self) -> bool {
        Tenboard::wf(self)
    }

    open spec fn spec_type_chars(&self, chars: Seq<char>) -> Result<
        (Seq<Seq<bool>>, Self),
        (char, Self),
    > {
        match map_typed(self.layout_map(), chars) {
            Ok(cs) => Ok((cs, *self)),
            Err(c) => Err((c, *self)),
        }
    }

    fn try_type_chars(&mut self, chars: &Vec<char>) -> (r: Result<Vec<HandsState>, NoSuchChar>) {
        tenboard_try_type_chars(&*self, chars)
    }
}

/// Modifier-constrained Tenboard layout: space and newline are reserved for
/// the two bare thumb chords; lowercase letters and digits take no-thumb
/// chords; an uppercase letter is its lowercase chord with the whitespace
/// thumb added; punctuation takes a no-thumb chord with the newline thumb
/// already added.
pub struct TenboardModifierConstrained {
    whitespace_hs: HandsState,
    newline_hs: HandsState,
    lowercase_digit_layout: CharMap,
    punctuation_layout: CharMap,
}

impl TenboardModifierConstrained {
    /// The lowercase-and-digit table.
    pub closed spec fn lowercase_digit_map(&self) -> Map<char, Seq<bool>> {
        self.lowercase_digit_layout@
    }

    /// The punctuation table, its chords already carrying the newline thumb.
    pub closed spec fn punctuation_map(&self) -> Map<char, Seq<bool>> {
        self.punctuation_layout@
    }

    /// The chord reserved for the space character.
    pub fn whitespace_chord(&self) -> (r: HandsState)
        ensures
            r@ == self.layout_map()[' '],
    {
        self.whitespace_hs
    }

    /// The chord reserved for the newline character.
    pub fn newline_chord(&self) -> (r: HandsState)
        ensures
            r@ == self.layout_map()['\n'],
    {
        self.newline_hs
    }

    /// The character-keyed listing of the lowercase-and-digit table: every
    /// key of the table is listed.
    pub fn lowercase_digit_entries(&self) -> (r: Vec<(char, HandsState)>)
        requires
            self.wf(),
        ensures
            forall|k: int|
                0 <= k < r@.len() ==> self.lowercase_digit_map().contains_key(
                    (#[trigger] r@[k]).0,
                ) && self.lowercase_digit_map()[r@[k].0] == r@[k].1@,
            forall|c: char|
                #[trigger] self.lowercase_digit_map().contains_key(c) ==> exists|k: int|
                    0 <= k < r@.len() && (#[trigger] r@[k]).0 == c,
    {
        let r = self.lowercase_digit_layout.entries();
        proof {
            self.lowercase_digit_layout.lemma_view_entry_map();
            assert forall|c: char| #[trigger] self.lowercase_digit_map().contains_key(
                c,
            ) implies exists|k: int| 0 <= k < r@.len() && (#[trigger] r@[k]).0 == c by {
                let k = choose|k: int|
                    0 <= k < self.lowercase_digit_layout.entry_seq().len() && (
                    #[trigger] self.lowercase_digit_layout.entry_seq()[k]).0 == c;
                assert(r@[k].0 == c);
            }
        }
        r
    }

    /// The character-keyed listing of the punctuation table: every key of
    /// the table is listed.
    pub fn punctuation_entries(&self) -> (r: Vec<(char, HandsState)>)
        requires
            self.wf(),
        ensures
            forall|k: int|
                0 <= k < r@.len() ==> self.punctuation_map().contains_key((#[trigger] r@[k]).0)
                    && self.punctuation_map()[r@[k].0] == r@[k].1@,
            forall|c: char|
                #[trigger] self.punctuation_map().contains_key(c) ==> exists|k: int|
                    0 <= k < r@.len() && (#[trigger] r@[k]).0 == c,
    {
        let r = self.punctuation_layout.entries();
        proof {
            self.punctuation_layout.lemma_view_entry_map();
            assert forall|c: char| #[trigger] self.punctuation_map().contains_key(c) implies
                exists|k: int| 0 <= k < r@.len() && (#[trigger] r@[k]).0 == c by {
                let k = choose|k: int|
                    0 <= k < self.punctuation_layout.entry_seq().len() && (
                    #[trigger] self.punctuation_layout.entry_seq()[k]).0 == c;
                assert(r@[k].0 == c);
            }
        }
        r
    }

    /// The chord view reserved for the space character: the whitespace
    /// thumb, which also acts as the shift modifier.
    pub closed spec fn whitespace_view(&self) -> Seq<bool> {
        self.whitespace_hs@
    }

    /// The chord view reserved for the newline character: the thumb carried
    /// by every punctuation chord.
    pub closed spec fn newline_view(&self) -> Seq<bool> {
        self.newline_hs@
    }

    /// Which characters the layout covers: space and newline always;
    /// lowercase letters and digits through the first table; an uppercase
    /// letter whenever its lowercase form is in that table; anything else
    /// through the punctuation table.
    pub open spec fn spec_contains(&self, ch: char) -> bool {
        if ch == ' ' || ch == '\n' {
            true
        } else if spec_is_ascii_lowercase(ch) || spec_is_ascii_digit(ch) {
            self.lowercase_digit_map().contains_key(ch)
        } else if spec_is_ascii_uppercase(ch) {
            self.lowercase_digit_map().contains_key(spec_to_lowercase(ch))
        } else {
            self.punctuation_map().contains_key(ch)
        }
    }

    /// The chord of a covered character: the reserved thumbs for space and
    /// newline; the table chord for a lowercase letter or digit; for an
    /// uppercase letter, its lowercase chord combined with the whitespace
    /// thumb; the (already thumb-carrying) table chord for punctuation.
    pub open spec fn spec_chord(&self, ch: char) -> Seq<bool> {
        if ch == ' ' {
            self.whitespace_view()
        } else if ch == '\n' {
            self.newline_view()
        } else if spec_is_ascii_lowercase(ch) || spec_is_ascii_digit(ch) {
            self.lowercase_digit_map()[ch]
        } else if spec_is_ascii_uppercase(ch) {
            combine_views(
                self.lowercase_digit_map()[spec_to_lowercase(ch)],
                self.whitespace_view(),
            )
        } else {
            self.punctuation_map()[ch]
        }
    }

    /// The layout's mapping is exactly the per-class rule: `spec_contains`
    /// decides coverage and `spec_chord` gives each covered character's
    /// chord.
    pub proof fn lemma_layout_map_classes(&self)
        ensures
            forall|ch: char|
                #[trigger] self.layout_map().contains_key(ch) == self.spec_contains(ch),
            forall|ch: char|
                self.spec_contains(ch) ==> #[trigger] self.layout_map()[ch] == self.spec_chord(
                    ch,
                ),
    {
    }
}

impl Tenboard for TenboardModifierConstrained {
    closed spec fn layout_map(&self) -> Map<char, Seq<bool>> {
        Map::new(|ch: char| self.spec_contains(ch), |ch: char| self.spec_chord(ch))
    }

    closed spec fn wf(&self) -> bool {
        &&& self.lowercase_digit_layout.wf()
        &&& self.punctuation_layout.wf()
    }

    fn new_random() -> (kb: Self)
        ensures
            forall|c: char|
                #[trigger] kb.lowercase_digit_map().contains_key(c) ==> 1 <= count_pressed_seq(
                    kb.lowercase_digit_map()[c],
                ) <= 2 && !kb.lowercase_digit_map()[c][4] && !kb.lowercase_digit_map()[c][5],
            forall|c: char|
                #[trigger] kb.punctuation_map().contains_key(c) ==> 2 <= count_pressed_seq(
                    kb.punctuation_map()[c],
                ) <= 3 && kb.punctuation_map()[c][4] == kb.newline_view()[4]
                    && kb.punctuation_map()[c][5] == kb.newline_view()[5],
            kb.whitespace_view() == single_pressed(4) && kb.newline_view() == single_pressed(5)
                || kb.whitespace_view() == single_pressed(5) && kb.newline_view()
                == single_pressed(4),
    {
        let flip = coin_flip();
        let (ws, nl) = if flip {
            (HandsState::left_thumb(), HandsState::right_thumb())
        } else {
            (HandsState::right_thumb(), HandsState::left_thumb())
        };
        let ghost wst: int = if flip { 4 } else { 5 };
        let ghost nlt: int = if flip { 5 } else { 4 };
        proof {
            lemma_no_thumb_space_props();
            crate::chord_space::lemma_count_single(4);
            crate::chord_space::lemma_count_single(5);
            assert(ws@ == single_pressed(wst) && nl@ == single_pressed(nlt));
        }
        let mut ld_chords = HandsState::iterate_one_two_key_no_thumbs();
        let ghost ld_orig = ld_chords@;
        proof {
            assert(views_of(ld_orig) == no_thumb_space());
            assert forall|k1: int, k2: int| 0 <= k1 < k2 < ld_orig.len() implies ld_orig[k1]@
                != ld_orig[k2]@ by {
                assert(ld_orig[k1]@ == no_thumb_space()[k1] && ld_orig[k2]@
                    == no_thumb_space()[k2]);
            }
        }
        shuffle_chords(&mut ld_chords);
        proof {
            lemma_shuffled_props(ld_orig, ld_chords@);
        }
        let base = HandsState::iterate_one_two_key_no_thumbs();
        assert(base@.len() == 36);
        let mut punct_chords: Vec<HandsState> = Vec::new();
        let mut k: usize = 0;
        while k < 36
            invariant
                0 <= k <= 36,
                base@.len() == 36,
                views_of(base@) == no_thumb_space(),
                nl@ == single_pressed(nlt),
                punct_chords@.len() == k,
                forall|j: int|
                    0 <= j < k ==> (#[trigger] punct_chords@[j])@ == combine_views(
                        no_thumb_space()[j],
                        single_pressed(nlt),
                    ),
            decreases 36 - k,
        {
            let hs = base[k].combine(&nl);
            proof {
                assert(base@[k as int]@ == no_thumb_space()[k as int]);
            }
            punct_chords.push(hs);
            k += 1;
        }
        let ghost punct_orig = punct_chords@;
        proof {
            assert(nlt == 4 || nlt == 5);
            assert forall|k1: int, k2: int| 0 <= k1 < k2 < punct_orig.len() implies
                punct_orig[k1]@ != punct_orig[k2]@ by {
                assert(no_thumb_space()[k1] != no_thumb_space()[k2]);
                assert(is_no_thumb_chord(no_thumb_space()[k1]));
                assert(is_no_thumb_chord(no_thumb_space()[k2]));
                if punct_orig[k1]@ == punct_orig[k2]@ {
                    crate::chord_space::lemma_combine_thumb_injective(
                        no_thumb_space()[k1],
                        no_thumb_space()[k2],
                        nlt,
                    );
                }
            }
        }
        shuffle_chords(&mut punct_chords);
        proof {
            lemma_shuffled_props(punct_orig, punct_chords@);
        }
        let mut ld_chars = lowercase_chars();
        let mut digits = digit_chars();
        let ghost lseq = ld_chars@;
        ld_chars.append(&mut digits);
        proof {
            assert(ld_chars@ == lowercase_chars_seq() + digit_chars_seq());
        }
        let punct_all = punctuation_chars();
        let punct_chars = without_two(&punct_all, ' ', '\n');
        let ld = zip_layout(&ld_chars, &ld_chords);
        let punct = zip_layout(&punct_chars, &punct_chords);
        let kb = TenboardModifierConstrained {
            whitespace_hs: ws,
            newline_hs: nl,
            lowercase_digit_layout: ld,
            punctuation_layout: punct,
        };
        proof {
            lemma_modifier_constructed_wf(kb, ld_orig, ld_chords@, punct_orig, punct_chords@,
                ld_chars@, punct_chars@, wst, nlt);
        }
        kb
    }

    fn try_type_char(&self, ch: char) -> (r: Result<HandsState, NoSuchChar>) {
        if ch == ' ' {
            Ok(self.whitespace_hs)
        } else if ch == '\n' {
            Ok(self.newline_hs)
        } else if is_ascii_lowercase(ch) || is_ascii_digit(ch) {
            match self.lowercase_digit_layout.get(ch) {
                Some(hs) => Ok(hs),
                None => Err(NoSuchChar { ch }),
            }
        } else if is_ascii_uppercase(ch) {
            match self.lowercase_digit_layout.get(to_lowercase(ch)) {
                Some(hs) => Ok(hs.combine(&self.whitespace_hs)),
                None => Err(NoSuchChar { ch }),
            }
        } else {
            match self.punctuation_layout.get(ch) {
                Some(hs) => Ok(hs),
                None => Err(NoSuchChar { ch }),
            }
        }
    }
}

impl Keyboard for TenboardModifierConstrained {
    open spec fn inv(&self) -> bool {
        Tenboard::wf(self)
    }

    open spec fn spec_type_chars(&self, chars: Seq<char>) -> Result<
        (Seq<Seq<bool>>, Self),
        (char, Self),
    > {
        match map_typed(self.layout_map(), chars) {
            Ok(cs) => Ok((cs, *self)),
            Err(c) => Err((c, *self)),
        }
    }

    fn try_type_chars(&mut self, chars: &Vec<char>) -> (r: Result<Vec<HandsState>, NoSuchChar>) {
        tenboard_try_type_chars(&*self, chars)
    }
}

/// What the modifier-constrained constructor establishes: the two tables are
/// well-formed, the derived layout covers the whole typable set injectively,
/// and the tables' chords press the documented number of fingers.
#[verifier::rlimit(100)]
proof fn lemma_modifier_constructed_wf(
    kb: TenboardModifierConstrained,
    ld_orig: Seq<HandsState>,
    ld_shuf: Seq<HandsState>,
    punct_orig: Seq<HandsState>,
    punct_shuf: Seq<HandsState>,
    ld_chars: Seq<char>,
    punct_chars: Seq<char>,
    wst: int,
    nlt: int,
)
    requires
        (wst == 4 && nlt == 5) || (wst == 5 && nlt == 4),
        kb.whitespace_hs@ == single_pressed(wst),
        kb.newline_hs@ == single_pressed(nlt),
        kb.lowercase_digit_layout.wf(),
        kb.punctuation_layout.wf(),
        views_of(ld_orig) == no_thumb_space(),
        ld_shuf.len() == 36,
        forall|k: int| 0 <= k < 36 ==> ld_orig.contains(#[trigger] ld_shuf[k]),
        punct_orig.len() == 36,
        forall|j: int|
            0 <= j < 36 ==> (#[trigger] punct_orig[j])@ == combine_views(
                no_thumb_space()[j],
                single_pressed(nlt),
            ),
        punct_shuf.len() == 36,
        forall|k: int| 0 <= k < 36 ==> punct_orig.contains(#[trigger] punct_shuf[k]),
        ld_chars == lowercase_chars_seq() + digit_chars_seq(),
        forall|j: int|
            0 <= j < 36 ==> kb.lowercase_digit_layout@.contains_key(#[trigger] ld_chars[j]),
        forall|c: char|
            #[trigger] kb.lowercase_digit_layout@.contains_key(c) ==> exists|k: int|
                0 <= k < 36 && kb.lowercase_digit_layout@[c] == ld_shuf[k]@,
        forall|c1: char, c2: char|
            kb.lowercase_digit_layout@.contains_key(c1) && kb.lowercase_digit_layout@.contains_key(
                c2,
            ) && c1 != c2 ==> kb.lowercase_digit_layout@[c1] != kb.lowercase_digit_layout@[c2],
        punct_chars.len() <= 35,
        forall|k: int|
            0 <= k < punct_chars.len() ==> #[trigger] punct_chars[k] != ' ' && punct_chars[k]
                != '\n',
        forall|k: int|
            0 <= k < punctuation_chars_seq().len() && #[trigger] punctuation_chars_seq()[k] != ' '
                && punctuation_chars_seq()[k] != '\n' ==> punct_chars.contains(
                punctuation_chars_seq()[k],
            ),
        forall|j: int|
            0 <= j < punct_chars.len() ==> kb.punctuation_layout@.contains_key(
                #[trigger] punct_chars[j],
            ),
        forall|c: char|
            #[trigger] kb.punctuation_layout@.contains_key(c) ==> exists|k: int|
                0 <= k < punct_chars.len() && kb.punctuation_layout@[c] == punct_shuf[k]@,
        forall|c1: char, c2: char|
            kb.punctuation_layout@.contains_key(c1) && kb.punctuation_layout@.contains_key(c2)
                && c1 != c2 ==> kb.punctuation_layout@[c1] != kb.punctuation_layout@[c2],
    ensures
        kb.wf(),
        tenboard_layout_wf(kb.layout_map()),
        forall|c: char|
            #[trigger] kb.lowercase_digit_map().contains_key(c) ==> 1 <= count_pressed_seq(
                kb.lowercase_digit_map()[c],
            ) <= 2 && !kb.lowercase_digit_map()[c][4] && !kb.lowercase_digit_map()[c][5],
        forall|c: char|
            #[trigger] kb.punctuation_map().contains_key(c) ==> 2 <= count_pressed_seq(
                kb.punctuation_map()[c],
            ) <= 3 && kb.punctuation_map()[c][4] == kb.newline_view()[4]
                && kb.punctuation_map()[c][5] == kb.newline_view()[5],
        kb.whitespace_view() == single_pressed(4) && kb.newline_view() == single_pressed(5)
            || kb.whitespace_view() == single_pressed(5) && kb.newline_view() == single_pressed(
            4,
        ),
{
    lemma_no_thumb_space_props();
    crate::chord_space::lemma_count_single(4);
    crate::chord_space::lemma_count_single(5);
    let m = kb.layout_map();
    let ld = kb.lowercase_digit_layout@;
    let pm = kb.punctuation_layout@;

    // Provenance of the table chords.
    assert forall|c: char| #[trigger] ld.contains_key(c) implies {
        &&& is_no_thumb_chord(ld[c])
        &&& ld[c].len() == 10
        &&& !ld[c][4]
        &&& !ld[c][5]
        &&& 1 <= count_pressed_seq(ld[c]) <= 2
        &&& exists|w: int| is_nonthumb_pos(w) && ld[c][w]
    } by {
        let k = choose|k: int| 0 <= k < 36 && ld[c] == ld_shuf[k]@;
        assert(ld_orig.contains(ld_shuf[k]));
        let i = choose|i: int| 0 <= i < ld_orig.len() && ld_orig[i] == ld_shuf[k];
        assert(ld_orig[i]@ == no_thumb_space()[i]);
        assert(is_no_thumb_chord(ld[c]));
        crate::chord_space::lemma_no_thumb_chord_props(ld[c]);
    }
    assert forall|c: char| #[trigger] pm.contains_key(c) implies {
        &&& pm[c].len() == 10
        &&& pm[c][nlt]
        &&& !pm[c][wst]
        &&& pm[c][4] == single_pressed(nlt)[4]
        &&& pm[c][5] == single_pressed(nlt)[5]
        &&& 2 <= count_pressed_seq(pm[c]) <= 3
        &&& exists|w: int| is_nonthumb_pos(w) && pm[c][w]
    } by {
        let k = choose|k: int| 0 <= k < punct_chars.len() && pm[c] == punct_shuf[k]@;
        assert(punct_orig.contains(punct_shuf[k]));
        let i = choose|i: int| 0 <= i < punct_orig.len() && punct_orig[i] == punct_shuf[k];
        let base = no_thumb_space()[i];
        assert(pm[c] == combine_views(base, single_pressed(nlt)));
        assert(is_no_thumb_chord(base));
        crate::chord_space::lemma_no_thumb_chord_props(base);
        crate::chord_space::lemma_count_combine_disjoint(base, single_pressed(nlt));
        assert(pm[c][nlt] == (base[nlt] || single_pressed(nlt)[nlt]));
        assert(pm[c][wst] == (base[wst] || single_pressed(nlt)[wst]));
        let w = choose|w: int| is_nonthumb_pos(w) && base[w];
        assert(pm[c][w] == (base[w] || single_pressed(nlt)[w]));
        assert(is_nonthumb_pos(w) && pm[c][w]);
    }

    // Totality over the typable classes.
    assert forall|k: int| 0 <= k < typable_chars_seq().len() implies m.contains_key(
        #[trigger] typable_chars_seq()[k],
    ) by {
        let c = typable_chars_seq()[k];
        let lo = lowercase_chars_seq();
        let up = uppercase_chars_seq();
        let di = digit_chars_seq();
        let pu = punctuation_chars_seq();
        if k < 26 {
            assert(c == lo[k]);
            assert(c == (((97 + k) as u8) as char));
            assert(spec_is_ascii_lowercase(c));
            assert(c == ld_chars[k]);
            assert(ld.contains_key(c));
            assert(kb.spec_contains(c));
        } else if k < 52 {
            let j = k - 26;
            assert(c == up[j]);
            assert(c == (((65 + j) as u8) as char));
            assert(spec_is_ascii_uppercase(c));
            assert(spec_to_lowercase(c) == (((97 + j) as u8) as char));
            assert(spec_to_lowercase(c) == lo[j]);
            assert(lo[j] == ld_chars[j]);
            assert(ld.contains_key(spec_to_lowercase(c)));
            assert(kb.spec_contains(c));
        } else if k < 63 {
            let j = k - 52;
            assert(c == di[j]);
            if j < 10 {
                assert(c == (((48 + j) as u8) as char));
                assert(spec_is_ascii_digit(c));
                assert(c == ld_chars[26 + j]);
                assert(ld.contains_key(c));
            } else {
                assert(c == '0');
                assert(di[0] == (((48 + 0) as u8) as char));
                assert(di[0] == '0');
                assert(c == ld_chars[26]);
                assert(ld.contains_key(c));
                assert(spec_is_ascii_digit(c));
            }
            assert(kb.spec_contains(c));
        } else {
            let j = k - 63;
            assert(c == pu[j]);
            if c == ' ' || c == '\n' {
                assert(kb.spec_contains(c));
            } else {
                assert(punct_chars.contains(c));
                let x = choose|x: int| 0 <= x < punct_chars.len() && punct_chars[x] == c;
                assert(pm.contains_key(punct_chars[x]));
                assert(pm.contains_key(c));
                assert(!spec_is_ascii_lowercase(c) && !spec_is_ascii_digit(c)
                    && !spec_is_ascii_uppercase(c));
                assert(kb.spec_contains(c));
            }
        }
    }

    // Injectivity of the derived layout.
    assert forall|c1: char, c2: char|
        m.contains_key(c1) && m.contains_key(c2) && c1 != c2 implies m[c1] != m[c2] by {
        lemma_modifier_value_distinct(kb, wst, nlt, c1, c2);
    }
}

/// Two distinct covered characters of a modifier-constrained layout get
/// different chords, provided the tables' chords have the shape the
/// constructor gives them.
proof fn lemma_modifier_value_distinct(
    kb: TenboardModifierConstrained,
    wst: int,
    nlt: int,
    c1: char,
    c2: char,
)
    requires
        (wst == 4 && nlt == 5) || (wst == 5 && nlt == 4),
        kb.whitespace_hs@ == single_pressed(wst),
        kb.newline_hs@ == single_pressed(nlt),
        forall|c: char|
            #[trigger] kb.lowercase_digit_layout@.contains_key(c) ==> {
                &&& kb.lowercase_digit_layout@[c].len() == 10
                &&& !kb.lowercase_digit_layout@[c][4]
                &&& !kb.lowercase_digit_layout@[c][5]
                &&& exists|w: int| is_nonthumb_pos(w) && kb.lowercase_digit_layout@[c][w]
            },
        forall|c1x: char, c2x: char|
            kb.lowercase_digit_layout@.contains_key(c1x)
                && kb.lowercase_digit_layout@.contains_key(c2x) && c1x != c2x
                ==> kb.lowercase_digit_layout@[c1x] != kb.lowercase_digit_layout@[c2x],
        forall|c: char|
            #[trigger] kb.punctuation_layout@.contains_key(c) ==> {
                &&& kb.punctuation_layout@[c].len() == 10
                &&& kb.punctuation_layout@[c][nlt]
                &&& !kb.punctuation_layout@[c][wst]
                &&& exists|w: int| is_nonthumb_pos(w) && kb.punctuation_layout@[c][w]
            },
        forall|c1x: char, c2x: char|
            kb.punctuation_layout@.contains_key(c1x) && kb.punctuation_layout@.contains_key(c2x)
                && c1x != c2x ==> kb.punctuation_layout@[c1x] != kb.punctuation_layout@[c2x],
        kb.layout_map().contains_key(c1),
        kb.layout_map().contains_key(c2),
        c1 != c2,
    ensures
        kb.layout_map()[c1] != kb.layout_map()[c2],
{
    let m = kb.layout_map();
    let ld = kb.lowercase_digit_layout@;
    let v1 = m[c1];
    let v2 = m[c2];
    assert(v1 == kb.spec_chord(c1));
    assert(v2 == kb.spec_chord(c2));
    if v1 == v2 {
        if c1 == ' ' || c1 == '\n' || c2 == ' ' || c2 == '\n' {
            if (c1 == ' ' || c1 == '\n') && (c2 == ' ' || c2 == '\n') {
                assert(v1 == single_pressed(wst) || v1 == single_pressed(nlt));
                assert(single_pressed(4)[4] && !single_pressed(5)[4]);
                assert(false);
            } else {
                let co = if c1 == ' ' || c1 == '\n' {
                    c2
                } else {
                    c1
                };
                let vs = if c1 == ' ' || c1 == '\n' {
                    v1
                } else {
                    v2
                };
                lemma_modifier_chord_class(kb, wst, nlt, co);
                let w = choose|w: int| is_nonthumb_pos(w) && m[co][w];
                assert(vs == single_pressed(wst) || vs == single_pressed(nlt));
                assert(!single_pressed(wst)[w] && !single_pressed(nlt)[w]);
                assert(false);
            }
        } else {
            lemma_modifier_chord_class(kb, wst, nlt, c1);
            lemma_modifier_chord_class(kb, wst, nlt, c2);
            let g1 = modifier_group(c1);
            let g2 = modifier_group(c2);
            if g1 != g2 {
                assert(v1[wst] != v2[wst] || v1[nlt] != v2[nlt]);
                assert(false);
            } else if g1 == 0 {
                assert(ld[c1] != ld[c2]);
                assert(false);
            } else if g1 == 1 {
                let l1 = spec_to_lowercase(c1);
                let l2 = spec_to_lowercase(c2);
                assert(l1 != l2);
                assert(ld.contains_key(l1) && ld.contains_key(l2));
                assert(ld[l1] != ld[l2]);
                assert(v1 == combine_views(ld[l1], single_pressed(wst)));
                assert(v2 == combine_views(ld[l2], single_pressed(wst)));
                assert forall|i: int| 0 <= i < 10 implies ld[l1][i] == ld[l2][i] by {
                    assert(v1[i] == (ld[l1][i] || single_pressed(wst)[i]));
                    assert(v2[i] == (ld[l2][i] || single_pressed(wst)[i]));
                    assert(single_pressed(wst)[i] == (i == wst));
                    if i == wst {
                        assert(!ld[l1][i] && !ld[l2][i]);
                    }
                }
                assert(ld[l1] =~= ld[l2]);
                assert(false);
            } else {
                assert(kb.punctuation_layout@[c1] != kb.punctuation_layout@[c2]);
                assert(false);
            }
        }
    }
}

/// Which shape a non-special covered character's chord has: 0 for the
/// lowercase-and-digit table, 1 for uppercase composition, 2 for
/// punctuation.
spec fn modifier_group(c: char) -> int {
    if spec_is_ascii_lowercase(c) || spec_is_ascii_digit(c) {
        0
    } else if spec_is_ascii_uppercase(c) {
        1
    } else {
        2
    }
}

/// The thumb signature of a covered character's chord, by its group.
proof fn lemma_modifier_chord_class(
    kb: TenboardModifierConstrained,
    wst: int,
    nlt: int,
    c: char,
)
    requires
        (wst == 4 && nlt == 5) || (wst == 5 && nlt == 4),
        kb.whitespace_hs@ == single_pressed(wst),
        kb.newline_hs@ == single_pressed(nlt),
        forall|cx: char|
            #[trigger] kb.lowercase_digit_layout@.contains_key(cx) ==> {
                &&& kb.lowercase_digit_layout@[cx].len() == 10
                &&& !kb.lowercase_digit_layout@[cx][4]
                &&& !kb.lowercase_digit_layout@[cx][5]
                &&& exists|w: int| is_nonthumb_pos(w) && kb.lowercase_digit_layout@[cx][w]
            },
        forall|cx: char|
            #[trigger] kb.punctuation_layout@.contains_key(cx) ==> {
                &&& kb.punctuation_layout@[cx].len() == 10
                &&& kb.punctuation_layout@[cx][nlt]
                &&& !kb.punctuation_layout@[cx][wst]
                &&& exists|w: int| is_nonthumb_pos(w) && kb.punctuation_layout@[cx][w]
            },
        kb.layout_map().contains_key(c),
        c != ' ',
        c != '\n',
    ensures
        kb.layout_map()[c].len() == 10,
        exists|w: int| is_nonthumb_pos(w) && kb.layout_map()[c][w],
        modifier_group(c) == 0 ==> !kb.layout_map()[c][wst] && !kb.layout_map()[c][nlt]
            && kb.layout_map()[c] == kb.lowercase_digit_layout@[c],
        modifier_group(c) == 1 ==> kb.layout_map()[c][wst] && !kb.layout_map()[c][nlt],
        modifier_group(c) == 2 ==> !kb.layout_map()[c][wst] && kb.layout_map()[c][nlt]
            && kb.layout_map()[c] == kb.punctuation_layout@[c],
{
    let v = kb.layout_map()[c];
    assert(v == kb.spec_chord(c));
    let ld = kb.lowercase_digit_layout@;
    if spec_is_ascii_lowercase(c) || spec_is_ascii_digit(c) {
        assert(ld.contains_key(c));
        assert(v == ld[c]);
        let w = choose|w: int| is_nonthumb_pos(w) && ld[c][w];
        assert(is_nonthumb_pos(w) && v[w]);
    } else if spec_is_ascii_uppercase(c) {
        let l = spec_to_lowercase(c);
        assert(ld.contains_key(l));
        assert(v == combine_views(ld[l], single_pressed(wst)));
        assert(v[wst] == (ld[l][wst] || single_pressed(wst)[wst]));
        assert(v[nlt] == (ld[l][nlt] || single_pressed(wst)[nlt]));
        let w = choose|w: int| is_nonthumb_pos(w) && ld[l][w];
        assert(v[w] == (ld[l][w] || single_pressed(wst)[w]));
        assert(is_nonthumb_pos(w) && v[w]);
    } else {
        assert(kb.punctuation_layout@.contains_key(c));
        assert(v == kb.punctuation_layout@[c]);
        let w = choose|w: int| is_nonthumb_pos(w) && kb.punctuation_layout@[c][w];
        assert(is_nonthumb_pos(w) && v[w]);
    }
}

} // verus!
