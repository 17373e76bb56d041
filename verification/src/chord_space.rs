//! The chord spaces: deterministic enumeration of the legal chords a layout
//! may assign to characters.
//!
//! Every space is modelled by a spec-level sequence of chord views, and each
//! enumerator returns exactly that sequence. The spaces grow from single-key
//! chords over the eight non-thumb positions, to unordered two-key chords, to
//! chords carrying one thumb as a modifier, to the full space that also holds
//! the two bare thumb chords.

use vstd::prelude::*;

use crate::hands::{
    combine_views,
    count_pressed_seq,
    pair_pressed,
    single_pressed,
    views_of,
    HandsState,
};

verus! {

/// The k-th non-thumb position, for k in 0..8: positions 0-3 and 6-9.
pub open spec fn nonthumb_slot(k: int) -> int {
    if k < 4 {
        k
    } else {
        k + 2
    }
}

/// The ordered pairs (a, b) with a < b over 0..8, listed in ascending
/// lexicographic order starting from (a, b).
pub open spec fn pairs_from(a: int, b: int) -> Seq<(int, int)>
    decreases 8 - a, 8 - b,
    when b <= 8
{
    if a >= 7 {
        Seq::empty()
    } else if b >= 8 {
        pairs_from(a + 1, a + 2)
    } else {
        seq![(a, b)] + pairs_from(a, b + 1)
    }
}

/// All C(8, 2) = 28 ordered index pairs over the non-thumb positions.
pub open spec fn pair_seq() -> Seq<(int, int)> {
    pairs_from(0, 1)
}

/// Lexicographic order on index pairs.
pub open spec fn lex_lt(p: (int, int), q: (int, int)) -> bool {
    p.0 < q.0 || (p.0 == q.0 && p.1 < q.1)
}

/// The 8 single-key chords over the non-thumb positions, ascending.
pub open spec fn one_key_space() -> Seq<Seq<bool>> {
    Seq::new(8, |k: int| single_pressed(nonthumb_slot(k)))
}

/// The 28 two-key chords over the non-thumb positions, in ascending
/// lexicographic order of their index pairs.
pub open spec fn two_key_space() -> Seq<Seq<bool>> {
    pair_seq().map_values(|p: (int, int)| pair_pressed(nonthumb_slot(p.0), nonthumb_slot(p.1)))
}

/// The 36 one-or-two-key chords without thumbs.
pub open spec fn no_thumb_space() -> Seq<Seq<bool>> {
    one_key_space() + two_key_space()
}

/// The 108 chords: the no-thumb space bare, with the left thumb added, and
/// with the right thumb added.
pub open spec fn with_thumb_space() -> Seq<Seq<bool>> {
    no_thumb_space() + no_thumb_space().map_values(
        |c: Seq<bool>| combine_views(c, single_pressed(4)),
    ) + no_thumb_space().map_values(|c: Seq<bool>| combine_views(c, single_pressed(5)))
}

/// The full space of 110 chords: the with-thumb space plus the two bare
/// thumb chords.
pub open spec fn all_space() -> Seq<Seq<bool>> {
    with_thumb_space() + seq![single_pressed(4), single_pressed(5)]
}

/// A chord view pressing exactly one non-thumb position.
pub open spec fn is_single_chord(s: Seq<bool>) -> bool {
    exists|p: int| 0 <= p < 8 && s == single_pressed(nonthumb_slot(p))
}

/// A chord view pressing exactly two non-thumb positions.
pub open spec fn is_pair_chord(s: Seq<bool>) -> bool {
    exists|a: int, b: int|
        0 <= a < b < 8 && s == pair_pressed(nonthumb_slot(a), nonthumb_slot(b))
}

/// A chord view of the no-thumb space.
pub open spec fn is_no_thumb_chord(s: Seq<bool>) -> bool {
    is_single_chord(s) || is_pair_chord(s)
}

/// Every element of `pairs_from(a, b)` is a valid pair, lexicographically at
/// least (a, b), and the listing is strictly increasing.
pub proof fn lemma_pairs_from_props(a: int, b: int)
    requires
        0 <= a,
        a < b,
        b <= 8,
    ensures
        forall|k: int|
            0 <= k < pairs_from(a, b).len() ==> {
                let p = #[trigger] pairs_from(a, b)[k];
                &&& 0 <= p.0 < p.1 < 8
                &&& !lex_lt(p, (a, b))
            },
        forall|k1: int, k2: int|
            0 <= k1 < k2 < pairs_from(a, b).len() ==> lex_lt(
                pairs_from(a, b)[k1],
                pairs_from(a, b)[k2],
            ),
    decreases 8 - a, 8 - b,
{
    if a >= 7 {
        assert(pairs_from(a, b).len() == 0);
    } else if b >= 8 {
        lemma_pairs_from_props(a + 1, a + 2);
        let s = pairs_from(a, b);
        let rest = pairs_from(a + 1, a + 2);
        assert(s == rest);
        assert forall|k: int| 0 <= k < s.len() implies {
            let p = #[trigger] s[k];
            &&& 0 <= p.0 < p.1 < 8
            &&& !lex_lt(p, (a, b))
        } by {
            assert(s[k] == rest[k]);
            assert(!lex_lt(rest[k], (a + 1, a + 2)));
        }
        assert forall|k1: int, k2: int| 0 <= k1 < k2 < s.len() implies lex_lt(s[k1], s[k2]) by {
            assert(s[k1] == rest[k1]);
            assert(s[k2] == rest[k2]);
        }
    } else {
        lemma_pairs_from_props(a, b + 1);
        let s = pairs_from(a, b);
        let rest = pairs_from(a, b + 1);
        assert(s == seq![(a, b)] + rest);
        assert(s[0] == (a, b));
        assert forall|k: int| 0 <= k < s.len() implies {
            let p = #[trigger] s[k];
            &&& 0 <= p.0 < p.1 < 8
            &&& !lex_lt(p, (a, b))
        } by {
            if k > 0 {
                assert(s[k] == rest[k - 1]);
            }
        }
        assert forall|k1: int, k2: int| 0 <= k1 < k2 < s.len() implies lex_lt(s[k1], s[k2]) by {
            if k1 > 0 {
                assert(s[k1] == rest[k1 - 1]);
                assert(s[k2] == rest[k2 - 1]);
            } else {
                assert(s[k2] == rest[k2 - 1]);
                assert(!lex_lt(rest[k2 - 1], (a, b + 1)));
            }
        }
    }
}

/// The number of pairs left to list from (a, b): the rest of row a, then the
/// full rows below it.
pub proof fn lemma_pairs_from_len(a: int, b: int)
    requires
        0 <= a,
        a < b,
        b <= 8,
    ensures
        a <= 7 ==> pairs_from(a, b).len() == (8 - b) + (6 - a) * (7 - a) / 2,
        a == 7 ==> pairs_from(a, b).len() == 0,
    decreases 8 - a, 8 - b,
{
    if a >= 7 {
    } else if b >= 8 {
        lemma_pairs_from_len(a + 1, a + 2);
        assert((8 - (a + 2)) + (6 - (a + 1)) * (7 - (a + 1)) / 2 == (8 - 8) + (6 - a) * (7 - a)
            / 2) by (nonlinear_arith);
    } else {
        lemma_pairs_from_len(a, b + 1);
    }
}

/// There are exactly 28 index pairs.
pub proof fn lemma_pair_seq_len()
    ensures
        pair_seq().len() == 28,
{
    lemma_pairs_from_len(0, 1);
}

/// A position is one of the eight non-thumb positions.
pub open spec fn is_nonthumb_pos(i: int) -> bool {
    0 <= i < 4 || 6 <= i < 10
}

/// Two distinct single-key chords press different positions.
pub proof fn lemma_single_pressed_injective(p: int, q: int)
    requires
        0 <= p < 10,
        0 <= q < 10,
        single_pressed(p) == single_pressed(q),
    ensures
        p == q,
{
    assert(single_pressed(p)[p]);
    assert(single_pressed(q)[p] == (p == q));
}

/// A single-key chord is never a two-key chord.
pub proof fn lemma_single_not_pair(p: int, a: int, b: int)
    requires
        0 <= p < 10,
        0 <= a < 10,
        0 <= b < 10,
        a != b,
    ensures
        single_pressed(p) != pair_pressed(a, b),
{
    if single_pressed(p) == pair_pressed(a, b) {
        assert(pair_pressed(a, b)[a] && pair_pressed(a, b)[b]);
        assert(single_pressed(p)[a] == (a == p));
        assert(single_pressed(p)[b] == (b == p));
        assert(false);
    }
}

/// Two-key chords with different position pairs differ.
pub proof fn lemma_pair_pressed_injective(x1: int, y1: int, x2: int, y2: int)
    requires
        0 <= x1 < y1 < 10,
        0 <= x2 < y2 < 10,
        pair_pressed(x1, y1) == pair_pressed(x2, y2),
    ensures
        x1 == x2,
        y1 == y2,
{
    assert(pair_pressed(x1, y1)[x1] && pair_pressed(x1, y1)[y1]);
    assert(pair_pressed(x2, y2)[x2] == (x2 == x1 || x2 == y1));
    assert(pair_pressed(x2, y2)[y2] == (y2 == x1 || y2 == y1));
    assert(pair_pressed(x1, y1)[x1] == (x1 == x2 || x1 == y2));
    assert(pair_pressed(x1, y1)[y1] == (y1 == x2 || y1 == y2));
}

pub proof fn lemma_count_single_prefix(p: int, n: int)
    requires
        0 <= n <= 10,
    ensures
        count_pressed_seq(single_pressed(p).take(n)) == if 0 <= p < n {
            1int
        } else {
            0int
        },
    decreases n,
{
    if n > 0 {
        lemma_count_single_prefix(p, n - 1);
        assert(single_pressed(p).take(n).drop_last() =~= single_pressed(p).take(n - 1));
        assert(single_pressed(p).take(n).last() == single_pressed(p)[n - 1]);
    }
}

/// A single-key chord presses exactly one finger.
pub proof fn lemma_count_single(p: int)
    requires
        0 <= p < 10,
    ensures
        count_pressed_seq(single_pressed(p)) == 1,
{
    lemma_count_single_prefix(p, 10);
    assert(single_pressed(p).take(10) =~= single_pressed(p));
}

pub proof fn lemma_count_pair_prefix(p: int, q: int, n: int)
    requires
        p != q,
        0 <= n <= 10,
    ensures
        count_pressed_seq(pair_pressed(p, q).take(n)) == (if 0 <= p < n {
            1int
        } else {
            0int
        }) + (if 0 <= q < n {
            1int
        } else {
            0int
        }),
    decreases n,
{
    if n > 0 {
        lemma_count_pair_prefix(p, q, n - 1);
        assert(pair_pressed(p, q).take(n).drop_last() =~= pair_pressed(p, q).take(n - 1));
        assert(pair_pressed(p, q).take(n).last() == pair_pressed(p, q)[n - 1]);
    }
}

/// A two-key chord presses exactly two fingers.
pub proof fn lemma_count_pair(p: int, q: int)
    requires
        0 <= p < 10,
        0 <= q < 10,
        p != q,
    ensures
        count_pressed_seq(pair_pressed(p, q)) == 2,
{
    lemma_count_pair_prefix(p, q, 10);
    assert(pair_pressed(p, q).take(10) =~= pair_pressed(p, q));
}

/// Combining chords that share no pressed finger adds their press counts.
pub proof fn lemma_count_combine_disjoint(a: Seq<bool>, b: Seq<bool>)
    requires
        a.len() == b.len(),
        forall|i: int| 0 <= i < a.len() ==> !(a[i] && b[i]),
    ensures
        count_pressed_seq(combine_views(a, b)) == count_pressed_seq(a) + count_pressed_seq(b),
    decreases a.len(),
{
    if a.len() > 0 {
        lemma_count_combine_disjoint(a.drop_last(), b.drop_last());
        assert(combine_views(a, b).drop_last() =~= combine_views(a.drop_last(), b.drop_last()));
        assert(combine_views(a, b).last() == (a.last() || b.last()));
        assert(!(a[a.len() - 1] && b[a.len() - 1]));
    }
}

/// What holds of every chord in the no-thumb space.
pub proof fn lemma_no_thumb_chord_props(s: Seq<bool>)
    requires
        is_no_thumb_chord(s),
    ensures
        s.len() == 10,
        !s[4],
        !s[5],
        1 <= count_pressed_seq(s) <= 2,
        exists|i: int| is_nonthumb_pos(i) && s[i],
{
    if is_single_chord(s) {
        let p = choose|p: int| 0 <= p < 8 && s == single_pressed(nonthumb_slot(p));
        lemma_count_single(nonthumb_slot(p));
        assert(is_nonthumb_pos(nonthumb_slot(p)) && s[nonthumb_slot(p)]);
    } else {
        let (a, b) = choose|a: int, b: int|
            0 <= a < b < 8 && s == pair_pressed(nonthumb_slot(a), nonthumb_slot(b));
        lemma_count_pair(nonthumb_slot(a), nonthumb_slot(b));
        assert(is_nonthumb_pos(nonthumb_slot(a)) && s[nonthumb_slot(a)]);
    }
}

/// The no-thumb space holds 36 pairwise-distinct one-or-two-key chords.
pub proof fn lemma_no_thumb_space_props()
    ensures
        no_thumb_space().len() == 36,
        forall|k: int| 0 <= k < 36 ==> is_no_thumb_chord(#[trigger] no_thumb_space()[k]),
        forall|k1: int, k2: int|
            0 <= k1 < k2 < 36 ==> no_thumb_space()[k1] != no_thumb_space()[k2],
{
    lemma_pair_seq_len();
    lemma_pairs_from_props(0, 1);
    let nts = no_thumb_space();
    assert forall|k: int| 0 <= k < 36 implies is_no_thumb_chord(#[trigger] nts[k]) by {
        if k < 8 {
            assert(nts[k] == one_key_space()[k]);
            assert(nts[k] == single_pressed(nonthumb_slot(k)));
        } else {
            assert(nts[k] == two_key_space()[k - 8]);
            let p = pair_seq()[k - 8];
            assert(0 <= p.0 < p.1 < 8 && !lex_lt(p, (0, 1)));
            assert(nts[k] == pair_pressed(nonthumb_slot(p.0), nonthumb_slot(p.1)));
        }
    }
    assert forall|k1: int, k2: int| 0 <= k1 < k2 < 36 implies nts[k1] != nts[k2] by {
        if k2 < 8 {
            if nts[k1] == nts[k2] {
                lemma_single_pressed_injective(nonthumb_slot(k1), nonthumb_slot(k2));
            }
        } else if k1 < 8 {
            let p = pair_seq()[k2 - 8];
            assert(0 <= p.0 < p.1 < 8);
            assert(nts[k2] == pair_pressed(nonthumb_slot(p.0), nonthumb_slot(p.1)));
            lemma_single_not_pair(nonthumb_slot(k1), nonthumb_slot(p.0), nonthumb_slot(p.1));
        } else {
            let p1 = pair_seq()[k1 - 8];
            let p2 = pair_seq()[k2 - 8];
            assert(lex_lt(p1, p2));
            assert(0 <= p1.0 < p1.1 < 8);
            assert(0 <= p2.0 < p2.1 < 8);
            if nts[k1] == nts[k2] {
                lemma_pair_pressed_injective(
                    nonthumb_slot(p1.0),
                    nonthumb_slot(p1.1),
                    nonthumb_slot(p2.0),
                    nonthumb_slot(p2.1),
                );
            }
        }
    }
}

/// Adding the same thumb to two different no-thumb chords keeps them
/// different.
pub proof fn lemma_combine_thumb_injective(c1: Seq<bool>, c2: Seq<bool>, t: int)
    requires
        is_no_thumb_chord(c1),
        is_no_thumb_chord(c2),
        t == 4 || t == 5,
        combine_views(c1, single_pressed(t)) == combine_views(c2, single_pressed(t)),
    ensures
        c1 == c2,
{
    lemma_no_thumb_chord_props(c1);
    lemma_no_thumb_chord_props(c2);
    assert forall|i: int| 0 <= i < 10 implies c1[i] == c2[i] by {
        assert(combine_views(c1, single_pressed(t))[i] == (c1[i] || single_pressed(t)[i]));
        assert(combine_views(c2, single_pressed(t))[i] == (c2[i] || single_pressed(t)[i]));
        assert(single_pressed(t)[i] == (i == t));
        if i == t {
            assert(!c1[i] && !c2[i]);
        }
    }
    assert(c1 =~= c2);
}

/// The with-thumb space holds 108 pairwise-distinct chords, each pressing
/// one to three fingers, never both thumbs, and always some non-thumb
/// position.
pub proof fn lemma_with_thumb_space_props()
    ensures
        with_thumb_space().len() == 108,
        forall|k: int|
            0 <= k < 108 ==> {
                let s = #[trigger] with_thumb_space()[k];
                &&& s.len() == 10
                &&& 1 <= count_pressed_seq(s) <= 3
                &&& !(s[4] && s[5])
                &&& exists|i: int| is_nonthumb_pos(i) && s[i]
            },
        forall|k1: int, k2: int|
            0 <= k1 < k2 < 108 ==> with_thumb_space()[k1] != with_thumb_space()[k2],
{
    lemma_no_thumb_space_props();
    let nts = no_thumb_space();
    let wts = with_thumb_space();
    assert forall|k: int| 0 <= k < 108 implies {
        let s = #[trigger] wts[k];
        &&& s.len() == 10
        &&& 1 <= count_pressed_seq(s) <= 3
        &&& !(s[4] && s[5])
        &&& exists|i: int| is_nonthumb_pos(i) && s[i]
    } by {
        let s = wts[k];
        if k < 36 {
            assert(s == nts[k]);
            lemma_no_thumb_chord_props(nts[k]);
        } else {
            let t: int = if k < 72 {
                4
            } else {
                5
            };
            let c = nts[if k < 72 {
                k - 36
            } else {
                k - 72
            }];
            assert(s == combine_views(c, single_pressed(t)));
            lemma_no_thumb_chord_props(c);
            lemma_count_single(t);
            lemma_count_combine_disjoint(c, single_pressed(t));
            let w = choose|i: int| is_nonthumb_pos(i) && c[i];
            assert(is_nonthumb_pos(w) && s[w]);
        }
    }
    assert forall|k1: int, k2: int| 0 <= k1 < k2 < 108 implies wts[k1] != wts[k2] by {
        let s1 = wts[k1];
        let s2 = wts[k2];
        let g1: int = if k1 < 36 {
            0
        } else if k1 < 72 {
            1
        } else {
            2
        };
        let g2: int = if k2 < 36 {
            0
        } else if k2 < 72 {
            1
        } else {
            2
        };
        let c1 = nts[k1 - 36 * g1];
        let c2 = nts[k2 - 36 * g2];
        lemma_no_thumb_chord_props(c1);
        lemma_no_thumb_chord_props(c2);
        if g1 == 0 {
            assert(s1 == c1);
        } else {
            assert(s1 == combine_views(c1, single_pressed(if g1 == 1 {
                4int
            } else {
                5int
            })));
        }
        if g2 == 0 {
            assert(s2 == c2);
        } else {
            assert(s2 == combine_views(c2, single_pressed(if g2 == 1 {
                4int
            } else {
                5int
            })));
        }
        if g1 == g2 {
            assert(c1 != c2);
            if g1 == 0 {
            } else {
                let t: int = if g1 == 1 {
                    4
                } else {
                    5
                };
                if s1 == s2 {
                    lemma_combine_thumb_injective(c1, c2, t);
                }
            }
        } else {
            if s1 == s2 {
                assert(s1[4] == s2[4]);
                assert(s1[5] == s2[5]);
            }
        }
    }
}

/// The full chord space holds 110 pairwise-distinct chords, each pressing
/// one to three fingers and never both thumbs.
pub proof fn lemma_all_space_props()
    ensures
        all_space().len() == 110,
        forall|k: int|
            0 <= k < 110 ==> {
                let s = #[trigger] all_space()[k];
                &&& s.len() == 10
                &&& 1 <= count_pressed_seq(s) <= 3
                &&& !(s[4] && s[5])
            },
        forall|k1: int, k2: int| 0 <= k1 < k2 < 110 ==> all_space()[k1] != all_space()[k2],
{
    lemma_with_thumb_space_props();
    lemma_count_single(4);
    lemma_count_single(5);
    let als = all_space();
    let wts = with_thumb_space();
    assert(als[108] == single_pressed(4));
    assert(als[109] == single_pressed(5));
    assert forall|k: int| 0 <= k < 110 implies {
        let s = #[trigger] als[k];
        &&& s.len() == 10
        &&& 1 <= count_pressed_seq(s) <= 3
        &&& !(s[4] && s[5])
    } by {
        if k < 108 {
            assert(als[k] == wts[k]);
        }
    }
    assert forall|k1: int, k2: int| 0 <= k1 < k2 < 110 implies als[k1] != als[k2] by {
        if k2 < 108 {
            assert(als[k1] == wts[k1] && als[k2] == wts[k2]);
        } else if k1 < 108 {
            assert(als[k1] == wts[k1]);
            let w = choose|i: int| is_nonthumb_pos(i) && wts[k1][i];
            assert(wts[k1][w]);
            assert(!als[k2][w]);
        } else {
            assert(als[k1] == single_pressed(4) && als[k2] == single_pressed(5));
            assert(single_pressed(4)[4] && !single_pressed(5)[4]);
        }
    }
}

impl HandsState {
    /// Lists the 8 single-key chords over the non-thumb positions, in
    /// ascending position order.
    pub fn iterate_one_key_no_thumbs() -> (r: Vec<HandsState>)
        ensures
            views_of(r@) == one_key_space(),
    {
        let mut v: Vec<HandsState> = Vec::new();
        let mut k: usize = 0;
        while k < 8
            invariant
                0 <= k <= 8,
                v@.len() == k,
                forall|j: int| 0 <= j < k ==> v@[j]@ == one_key_space()[j],
            decreases 8 - k,
        {
            let slot: usize = if k < 4 {
                k
            } else {
                k + 2
            };
            let mut lv: [i32; 10] = [0; 10];
            proof {
                vstd::array::axiom_spec_array_fill_for_copy_type::<i32, 10>(0);
            }
            lv[slot] = 1;
            let hs = HandsState::from_levels(lv);
            proof {
                assert(hs@ =~= single_pressed(nonthumb_slot(k as int)));
            }
            v.push(hs);
            k += 1;
        }
        proof {
            assert(views_of(v@) =~= one_key_space());
        }
        v
    }

    /// Lists the 28 two-key chords over the non-thumb positions, in
    /// ascending lexicographic order of their position pairs.
    pub fn iterate_two_key_no_thumbs() -> (r: Vec<HandsState>)
        ensures
            views_of(r@) == two_key_space(),
    {
        proof {
            lemma_pair_seq_len();
            lemma_pairs_from_props(0, 1);
        }
        let mut v: Vec<HandsState> = Vec::new();
        let mut i: usize = 0;
        while i < 7
            invariant
                0 <= i <= 7,
                v@.len() <= 28,
                pair_seq().skip(v@.len() as int) == pairs_from(i as int, i + 1),
                pair_seq().len() == 28,
                forall|j: int| 0 <= j < v@.len() ==> v@[j]@ == two_key_space()[j],
            decreases 7 - i,
        {
            let mut j: usize = i + 1;
            while j < 8
                invariant
                    0 <= i < 7,
                    i + 1 <= j <= 8,
                    v@.len() <= 28,
                    pair_seq().skip(v@.len() as int) == pairs_from(i as int, j as int),
                    pair_seq().len() == 28,
                    forall|jj: int| 0 <= jj < v@.len() ==> v@[jj]@ == two_key_space()[jj],
                decreases 8 - j,
            {
                let ghost n = v@.len() as int;
                let ghost rest = pairs_from(i as int, j as int);
                proof {
                    assert(rest == seq![(i as int, j as int)] + pairs_from(i as int, j + 1));
                    assert(rest.len() >= 1);
                    assert(pair_seq().skip(n).len() == 28 - n);
                    assert(pair_seq().skip(n)[0] == pair_seq()[n]);
                    assert(pair_seq()[n] == (i as int, j as int));
                    assert(n < 28);
                }
                let si: usize = if i < 4 {
                    i
                } else {
                    i + 2
                };
                let sj: usize = if j < 4 {
                    j
                } else {
                    j + 2
                };
                let mut lv: [i32; 10] = [0; 10];
                proof {
                    vstd::array::axiom_spec_array_fill_for_copy_type::<i32, 10>(0);
                }
                lv[si] = 1;
                lv[sj] = 1;
                let hs = HandsState::from_levels(lv);
                proof {
                    assert(si == nonthumb_slot(i as int) && sj == nonthumb_slot(j as int));
                    assert(si != sj);
                    assert(hs@ =~= pair_pressed(
                        nonthumb_slot(i as int),
                        nonthumb_slot(j as int),
                    ));
                    assert(two_key_space()[n] == pair_pressed(
                        nonthumb_slot(pair_seq()[n].0),
                        nonthumb_slot(pair_seq()[n].1),
                    ));
                }
                v.push(hs);
                proof {
                    assert(pair_seq().skip(n + 1) =~= pairs_from(i as int, j + 1)) by {
                        assert forall|k: int| 0 <= k < pair_seq().skip(n + 1).len() implies
                            #[trigger] pair_seq().skip(n + 1)[k] == pairs_from(i as int, j + 1)[k]
                        by {
                            assert(pair_seq().skip(n + 1)[k] == pair_seq()[n + 1 + k]);
                            assert(pair_seq().skip(n)[k + 1] == pair_seq()[n + 1 + k]);
                            assert(rest[k + 1] == pairs_from(i as int, j + 1)[k]);
                        }
                    }
                }
                j += 1;
            }
            proof {
                assert(pairs_from(i as int, 8) == pairs_from(i + 1, i + 2));
            }
            i += 1;
        }
        proof {
            assert(pairs_from(7, 8) =~= Seq::<(int, int)>::empty());
            assert(pair_seq().skip(v@.len() as int).len() == 0);
            assert(v@.len() == 28);
            assert(views_of(v@) =~= two_key_space());
        }
        v
    }

    /// Lists the 36 one-or-two-key chords without thumbs: the single-key
    /// chords, then the two-key chords.
    pub fn iterate_one_two_key_no_thumbs() -> (r: Vec<HandsState>)
        ensures
            views_of(r@) == no_thumb_space(),
    {
        let mut v = HandsState::iterate_one_key_no_thumbs();
        let mut w = HandsState::iterate_two_key_no_thumbs();
        v.append(&mut w);
        proof {
            assert(views_of(v@) =~= no_thumb_space());
        }
        v
    }

    /// Lists the 108 chords of the with-thumb space: the no-thumb chords
    /// bare, then with the left thumb added, then with the right thumb
    /// added.
    pub fn iterate_one_two_key_with_thumbs() -> (r: Vec<HandsState>)
        ensures
            views_of(r@) == with_thumb_space(),
    {
        proof {
            lemma_no_thumb_space_props();
        }
        let base = HandsState::iterate_one_two_key_no_thumbs();
        assert(base@.len() == 36);
        let lt = HandsState::left_thumb();
        let rt = HandsState::right_thumb();
        let mut v: Vec<HandsState> = Vec::new();
        let mut k: usize = 0;
        while k < 36
            invariant
                0 <= k <= 36,
                base@.len() == 36,
                views_of(base@) == no_thumb_space(),
                v@.len() == k,
                forall|j: int| 0 <= j < k ==> v@[j]@ == with_thumb_space()[j],
            decreases 36 - k,
        {
            v.push(base[k]);
            proof {
                assert(v@[k as int]@ == no_thumb_space()[k as int]);
            }
            k += 1;
        }
        let mut k: usize = 0;
        while k < 36
            invariant
                0 <= k <= 36,
                base@.len() == 36,
                views_of(base@) == no_thumb_space(),
                lt@ == single_pressed(4),
                v@.len() == 36 + k,
                forall|j: int| 0 <= j < v@.len() ==> v@[j]@ == with_thumb_space()[j],
            decreases 36 - k,
        {
            let hs = base[k].combine(&lt);
            proof {
                assert(base@[k as int]@ == no_thumb_space()[k as int]);
                assert(with_thumb_space()[36 + k] == combine_views(
                    no_thumb_space()[k as int],
                    single_pressed(4),
                ));
            }
            v.push(hs);
            k += 1;
        }
        let mut k: usize = 0;
        while k < 36
            invariant
                0 <= k <= 36,
                base@.len() == 36,
                views_of(base@) == no_thumb_space(),
                rt@ == single_pressed(5),
                v@.len() == 72 + k,
                forall|j: int| 0 <= j < v@.len() ==> v@[j]@ == with_thumb_space()[j],
            decreases 36 - k,
        {
            let hs = base[k].combine(&rt);
            proof {
                assert(base@[k as int]@ == no_thumb_space()[k as int]);
                assert(with_thumb_space()[72 + k] == combine_views(
                    no_thumb_space()[k as int],
                    single_pressed(5),
                ));
            }
            v.push(hs);
            k += 1;
        }
        proof {
            lemma_with_thumb_space_props();
            assert(views_of(v@) =~= with_thumb_space());
        }
        v
    }

    /// Lists the full space of 110 chords: the with-thumb space followed by
    /// the two bare thumb chords.
    pub fn iterate_one_two_key_all_states() -> (r: Vec<HandsState>)
        ensures
            views_of(r@) == all_space(),
    {
        proof {
            lemma_with_thumb_space_props();
        }
        let mut v = HandsState::iterate_one_two_key_with_thumbs();
        v.push(HandsState::left_thumb());
        v.push(HandsState::right_thumb());
        proof {
            assert(views_of(v@) =~= all_space());
        }
        v
    }
}

} // verus!
