//! Streaming metrics over chord sequences: usage, alternation and balance
//! accumulators, each updated one chord at a time in input order.
//!
//! Scores are exact: press counts are integer sums, and balance scores are
//! returned as an exact numerator and denominator of the L1 distance between
//! the observed and target press distributions.

use vstd::prelude::*;

use crate::hands::{count_pressed_seq, views_of, HandsState};

verus! {

/// How many of the chords press finger `f`.
pub open spec fn finger_presses(cs: Seq<Seq<bool>>, f: int) -> nat
    decreases cs.len(),
{
    if cs.len() == 0 {
        0
    } else {
        finger_presses(cs.drop_last(), f) + if cs.last()[f] {
            1nat
        } else {
            0nat
        }
    }
}

/// How many fingers of hand `h` (0 the left, 1 the right) a chord presses.
pub open spec fn hand_chord_count(s: Seq<bool>, h: int) -> nat {
    count_pressed_seq(s.subrange(5 * h, 5 * h + 5))
}

/// Total presses of hand `h` over the chords.
pub open spec fn hand_presses(cs: Seq<Seq<bool>>, h: int) -> nat
    decreases cs.len(),
{
    if cs.len() == 0 {
        0
    } else {
        hand_presses(cs.drop_last(), h) + hand_chord_count(cs.last(), h)
    }
}

/// Whether a chord uses hand `h` at all.
pub open spec fn hand_used(s: Seq<bool>, h: int) -> bool {
    exists|f: int| 5 * h <= f < 5 * h + 5 && s[f]
}

/// How often finger `f` is pressed in two consecutive chords, counting the
/// step from `prev` to the first chord.
pub open spec fn finger_repeats(cs: Seq<Seq<bool>>, prev: Seq<bool>, f: int) -> nat
    decreases cs.len(),
{
    if cs.len() == 0 {
        0
    } else {
        (if prev[f] && cs.first()[f] {
            1nat
        } else {
            0nat
        }) + finger_repeats(cs.drop_first(), cs.first(), f)
    }
}

/// How often hand `h` is used in two consecutive chords, counting the step
/// from the previous usage flag `prev` to the first chord.
pub open spec fn hand_repeats(cs: Seq<Seq<bool>>, prev: bool, h: int) -> nat
    decreases cs.len(),
{
    if cs.len() == 0 {
        0
    } else {
        (if prev && hand_used(cs.first(), h) {
            1nat
        } else {
            0nat
        }) + hand_repeats(cs.drop_first(), hand_used(cs.first(), h), h)
    }
}

/// The sum of a sequence of counters.
pub open spec fn sum_u32(s: Seq<u32>) -> int
    decreases s.len(),
{
    if s.len() == 0 {
        0int
    } else {
        sum_u32(s.drop_last()) + s.last()
    }
}

/// The L1 distance between the press distribution `p / tp` and the target
/// distribution `w / tw`, scaled by `tp * tw`.
pub open spec fn l1_scaled(p: Seq<u32>, w: Seq<u32>, tp: int, tw: int) -> int
    decreases p.len(),
{
    if p.len() == 0 {
        0int
    } else {
        l1_scaled(p.drop_last(), w.drop_last(), tp, tw) + vstd::math::abs(
            p.last() * tw - w.last() * tp,
        )
    }
}

/// A finger presses at most once per chord.
pub proof fn lemma_finger_presses_bound(cs: Seq<Seq<bool>>, f: int)
    ensures
        finger_presses(cs, f) <= cs.len(),
    decreases cs.len(),
{
    if cs.len() > 0 {
        lemma_finger_presses_bound(cs.drop_last(), f);
    }
}

/// A chord presses at most as many fingers as it has positions.
pub proof fn lemma_count_le_len(s: Seq<bool>)
    ensures
        count_pressed_seq(s) <= s.len(),
    decreases s.len(),
{
    if s.len() > 0 {
        lemma_count_le_len(s.drop_last());
    }
}

/// A hand presses at most five fingers per chord.
pub proof fn lemma_hand_presses_bound(cs: Seq<Seq<bool>>, h: int)
    requires
        h == 0 || h == 1,
        forall|k: int| 0 <= k < cs.len() ==> (#[trigger] cs[k]).len() == 10,
    ensures
        hand_presses(cs, h) <= 5 * cs.len(),
    decreases cs.len(),
{
    if cs.len() > 0 {
        assert(forall|k: int|
            0 <= k < cs.len() - 1 ==> (#[trigger] cs.drop_last()[k]) == cs[k]);
        lemma_hand_presses_bound(cs.drop_last(), h);
        assert(cs.last().len() == 10);
        lemma_count_le_len(cs.last().subrange(5 * h, 5 * h + 5));
    }
}

/// The press count of a five-position row, finger by finger.
proof fn lemma_count5(t: Seq<bool>)
    requires
        t.len() == 5,
    ensures
        count_pressed_seq(t) == (if t[0] {
            1int
        } else {
            0int
        }) + (if t[1] {
            1int
        } else {
            0int
        }) + (if t[2] {
            1int
        } else {
            0int
        }) + (if t[3] {
            1int
        } else {
            0int
        }) + (if t[4] {
            1int
        } else {
            0int
        }),
{
    let t4 = t.drop_last();
    let t3 = t4.drop_last();
    let t2 = t3.drop_last();
    let t1 = t2.drop_last();
    let t0 = t1.drop_last();
    assert(count_pressed_seq(t) == count_pressed_seq(t4) + if t.last() {
        1nat
    } else {
        0nat
    });
    assert(count_pressed_seq(t4) == count_pressed_seq(t3) + if t4.last() {
        1nat
    } else {
        0nat
    });
    assert(count_pressed_seq(t3) == count_pressed_seq(t2) + if t3.last() {
        1nat
    } else {
        0nat
    });
    assert(count_pressed_seq(t2) == count_pressed_seq(t1) + if t2.last() {
        1nat
    } else {
        0nat
    });
    assert(count_pressed_seq(t1) == count_pressed_seq(t0) + if t1.last() {
        1nat
    } else {
        0nat
    });
    assert(count_pressed_seq(t0) == 0);
    assert(t1.last() == t[0] && t2.last() == t[1] && t3.last() == t[2] && t4.last() == t[3]
        && t.last() == t[4]);
}

/// Law: counting a hand's presses directly equals summing the press counts
/// of that hand's five fingers. Deriving the coarser metric from the finer
/// one already collected therefore equals accumulating it from scratch.
pub proof fn lemma_hand_usage_from_finger_usage(cs: Seq<Seq<bool>>, h: int)
    requires
        h == 0 || h == 1,
        forall|k: int| 0 <= k < cs.len() ==> (#[trigger] cs[k]).len() == 10,
    ensures
        hand_presses(cs, h) == finger_presses(cs, 5 * h) + finger_presses(cs, 5 * h + 1)
            + finger_presses(cs, 5 * h + 2) + finger_presses(cs, 5 * h + 3) + finger_presses(
            cs,
            5 * h + 4,
        ),
    decreases cs.len(),
{
    if cs.len() > 0 {
        lemma_hand_usage_from_finger_usage(cs.drop_last(), h);
        let s = cs.last();
        let t = s.subrange(5 * h, 5 * h + 5);
        lemma_count5(t);
        assert(t[0] == s[5 * h] && t[1] == s[5 * h + 1] && t[2] == s[5 * h + 2] && t[3] == s[5 * h
            + 3] && t[4] == s[5 * h + 4]);
    }
}

/// Law: if no finger is pressed in two consecutive chords, the finger
/// alternation counters stay at zero.
pub proof fn lemma_no_consecutive_finger_repeats(cs: Seq<Seq<bool>>, prev: Seq<bool>, f: int)
    requires
        cs.len() > 0 ==> !(prev[f] && cs[0][f]),
        forall|k: int| 0 <= k < cs.len() - 1 ==> !((#[trigger] cs[k])[f] && cs[k + 1][f]),
    ensures
        finger_repeats(cs, prev, f) == 0,
    decreases cs.len(),
{
    if cs.len() > 0 {
        let rest = cs.drop_first();
        assert forall|k: int| 0 <= k < rest.len() - 1 implies !((#[trigger] rest[k])[f] && rest[k
            + 1][f]) by {
            assert(rest[k] == cs[k + 1] && rest[k + 1] == cs[k + 2]);
        }
        assert(rest.len() > 0 ==> !(cs.first()[f] && rest[0][f]));
        lemma_no_consecutive_finger_repeats(rest, cs.first(), f);
    }
}

/// Law: if no hand is used in two consecutive chords, the hand alternation
/// counters stay at zero.
pub proof fn lemma_no_consecutive_hand_repeats(cs: Seq<Seq<bool>>, prev: bool, h: int)
    requires
        cs.len() > 0 ==> !(prev && hand_used(cs[0], h)),
        forall|k: int|
            0 <= k < cs.len() - 1 ==> !(hand_used(#[trigger] cs[k], h) && hand_used(
                cs[k + 1],
                h,
            )),
    ensures
        hand_repeats(cs, prev, h) == 0,
    decreases cs.len(),
{
    if cs.len() > 0 {
        let rest = cs.drop_first();
        assert forall|k: int| 0 <= k < rest.len() - 1 implies !(hand_used(#[trigger] rest[k], h)
            && hand_used(rest[k + 1], h)) by {
            assert(rest[k] == cs[k + 1] && rest[k + 1] == cs[k + 2]);
        }
        assert(rest.len() > 0 ==> rest[0] == cs[1]);
        lemma_no_consecutive_hand_repeats(rest, hand_used(cs.first(), h), h);
    }
}

proof fn lemma_finger_presses_take_step(cs: Seq<Seq<bool>>, k: int, f: int)
    requires
        0 <= k < cs.len(),
    ensures
        finger_presses(cs.take(k + 1), f) == finger_presses(cs.take(k), f) + if cs[k][f] {
            1int
        } else {
            0int
        },
{
    assert(cs.take(k + 1).drop_last() =~= cs.take(k));
    assert(cs.take(k + 1).last() == cs[k]);
}

proof fn lemma_hand_presses_take_step(cs: Seq<Seq<bool>>, k: int, h: int)
    requires
        0 <= k < cs.len(),
    ensures
        hand_presses(cs.take(k + 1), h) == hand_presses(cs.take(k), h) + hand_chord_count(
            cs[k],
            h,
        ),
{
    assert(cs.take(k + 1).drop_last() =~= cs.take(k));
    assert(cs.take(k + 1).last() == cs[k]);
}

/// Measures finger usage: how often each finger is pressed. The score is the
/// total number of presses.
pub struct FingerUsage {
    pub presses: [u32; 10],
}

impl FingerUsage {
    pub fn new() -> (r: FingerUsage)
        ensures
            forall|i: int| 0 <= i < 10 ==> r.presses[i] == 0,
    {
        proof {
            vstd::array::axiom_spec_array_fill_for_copy_type::<u32, 10>(0);
        }
        FingerUsage { presses: [0; 10] }
    }

    /// Adds one chord's presses to the per-finger counters.
    pub fn update_once(&mut self, handstate: &HandsState)
        requires
            forall|i: int| 0 <= i < 10 ==> old(self).presses[i] < u32::MAX,
        ensures
            forall|i: int|
                0 <= i < 10 ==> final(self).presses[i] == old(self).presses[i] + (if handstate@[i] {
                    1int
                } else {
                    0int
                }),
    {
        let mut i: usize = 0;
        while i < 10
            invariant
                0 <= i <= 10,
                forall|j: int| 0 <= j < 10 ==> old(self).presses[j] < u32::MAX,
                forall|j: int|
                    0 <= j < i ==> self.presses[j] == old(self).presses[j] + (if handstate@[j] {
                        1int
                    } else {
                        0int
                    }),
                forall|j: int| i <= j < 10 ==> self.presses[j] == old(self).presses[j],
            decreases 10 - i,
        {
            if handstate.0[i].is_pressed() {
                self.presses[i] = self.presses[i] + 1;
            }
            proof {
                assert(handstate@[i as int] == (handstate.0[i as int] is Pressed));
            }
            i += 1;
        }
    }

    /// Adds every chord's presses, in order.
    pub fn update(&mut self, handstates: &Vec<HandsState>)
        requires
            forall|i: int|
                0 <= i < 10 ==> old(self).presses[i] + handstates@.len() <= u32::MAX,
        ensures
            forall|i: int|
                0 <= i < 10 ==> final(self).presses[i] == old(self).presses[i] + finger_presses(
                    views_of(handstates@),
                    i,
                ),
    {
        let ghost cs = views_of(handstates@);
        let mut k: usize = 0;
        let n = handstates.len();
        while k < n
            invariant
                0 <= k <= n,
                n == handstates@.len(),
                cs == views_of(handstates@),
                forall|i: int| 0 <= i < 10 ==> old(self).presses[i] + n <= u32::MAX,
                forall|i: int|
                    0 <= i < 10 ==> self.presses[i] == old(self).presses[i] + finger_presses(
                        cs.take(k as int),
                        i,
                    ),
            decreases n - k,
        {
            proof {
                assert forall|i: int| 0 <= i < 10 implies self.presses[i] < u32::MAX by {
                    lemma_finger_presses_bound(cs.take(k as int), i);
                }
            }
            self.update_once(&handstates[k]);
            proof {
                assert forall|i: int|
                    0 <= i < 10 implies self.presses[i] == old(self).presses[i] + finger_presses(
                    cs.take(k + 1),
                    i,
                ) by {
                    lemma_finger_presses_take_step(cs, k as int, i);
                    assert(cs[k as int] == handstates@[k as int]@);
                }
            }
            k += 1;
        }
        proof {
            assert(cs.take(n as int) =~= cs);
        }
    }

    /// Consumes the accumulator, feeds it the chords, and returns it.
    pub fn updated(self, handstates: &Vec<HandsState>) -> (r: FingerUsage)
        requires
            forall|i: int| 0 <= i < 10 ==> self.presses[i] + handstates@.len() <= u32::MAX,
        ensures
            forall|i: int|
                0 <= i < 10 ==> r.presses[i] == self.presses[i] + finger_presses(
                    views_of(handstates@),
                    i,
                ),
    {
        let mut m = self;
        m.update(handstates);
        m
    }

    /// The score: the total number of presses. Lower is better.
    pub fn score(&self) -> (r: u64)
        ensures
            r == sum_u32(self.presses@),
    {
        sum_counters10(&self.presses)
    }
}

fn sum_counters10(p: &[u32; 10]) -> (r: u64)
    ensures
        r == sum_u32(p@),
{
    let mut acc: u64 = 0;
    let mut i: usize = 0;
    while i < 10
        invariant
            0 <= i <= 10,
            acc == sum_u32(p@.take(i as int)),
            acc <= i * 0xffff_ffff,
        decreases 10 - i,
    {
        proof {
            assert(p@.take(i + 1).drop_last() =~= p@.take(i as int));
            assert(p@.take(i + 1).last() == p@[i as int]);
        }
        acc = acc + (p[i] as u64);
        i += 1;
    }
    proof {
        assert(p@.take(10) =~= p@);
    }
    acc
}

fn sum_counters2(p: &[u32; 2]) -> (r: u64)
    ensures
        r == sum_u32(p@),
{
    proof {
        let s1 = p@.drop_last();
        let s0 = s1.drop_last();
        assert(sum_u32(p@) == sum_u32(s1) + p@[1]);
        assert(s1.last() == p@[0]);
        assert(sum_u32(s1) == sum_u32(s0) + p@[0]);
        assert(s0.len() == 0);
        assert(sum_u32(s0) == 0);
    }
    (p[0] as u64) + (p[1] as u64)
}

/// Measures hand usage: how many presses each hand contributes. The score is
/// the total number of presses.
pub struct HandUsage {
    pub presses: [u32; 2],
}

fn hand_count(handstate: &HandsState, h: usize) -> (c: usize)
    requires
        h < 2,
    ensures
        c == hand_chord_count(handstate@, h as int),
        c <= 5,
{
    let ghost t = handstate@.subrange(5 * h as int, 5 * h as int + 5);
    let mut c: usize = 0;
    let mut j: usize = 0;
    while j < 5
        invariant
            0 <= j <= 5,
            h < 2,
            t == handstate@.subrange(5 * h as int, 5 * h as int + 5),
            c == count_pressed_seq(t.take(j as int)),
            c <= j,
        decreases 5 - j,
    {
        proof {
            assert(t.take(j + 1).drop_last() =~= t.take(j as int));
            assert(t.take(j + 1).last() == t[j as int]);
            assert(t[j as int] == handstate@[5 * h + j]);
            assert(handstate@[5 * h + j] == (handstate.0[5 * h + j] is Pressed));
        }
        if handstate.0[5 * h + j].is_pressed() {
            c = c + 1;
        }
        j += 1;
    }
    proof {
        assert(t.take(5) =~= t);
    }
    c
}

impl HandUsage {
    pub fn new() -> (r: HandUsage)
        ensures
            forall|h: int| 0 <= h < 2 ==> r.presses[h] == 0,
    {
        proof {
            vstd::array::axiom_spec_array_fill_for_copy_type::<u32, 2>(0);
        }
        HandUsage { presses: [0; 2] }
    }

    /// Adds one chord's per-hand press counts.
    pub fn update_once(&mut self, handstate: &HandsState)
        requires
            forall|h: int| 0 <= h < 2 ==> old(self).presses[h] + 5 <= u32::MAX,
        ensures
            forall|h: int|
                0 <= h < 2 ==> final(self).presses[h] == old(self).presses[h] + hand_chord_count(
                    handstate@,
                    h,
                ),
    {
        let c0 = hand_count(handstate, 0);
        let c1 = hand_count(handstate, 1);
        self.presses[0] = self.presses[0] + (c0 as u32);
        self.presses[1] = self.presses[1] + (c1 as u32);
    }

    /// Adds every chord's per-hand press counts, in order.
    pub fn update(&mut self, handstates: &Vec<HandsState>)
        requires
            forall|h: int|
                0 <= h < 2 ==> old(self).presses[h] + 5 * handstates@.len() <= u32::MAX,
        ensures
            forall|h: int|
                0 <= h < 2 ==> final(self).presses[h] == old(self).presses[h] + hand_presses(
                    views_of(handstates@),
                    h,
                ),
    {
        let ghost cs = views_of(handstates@);
        let mut k: usize = 0;
        let n = handstates.len();
        while k < n
            invariant
                0 <= k <= n,
                n == handstates@.len(),
                cs == views_of(handstates@),
                forall|h: int| 0 <= h < 2 ==> old(self).presses[h] + 5 * n <= u32::MAX,
                forall|h: int|
                    0 <= h < 2 ==> self.presses[h] == old(self).presses[h] + hand_presses(
                        cs.take(k as int),
                        h,
                    ),
            decreases n - k,
        {
            proof {
                assert forall|h: int| 0 <= h < 2 implies self.presses[h] + 5 <= u32::MAX by {
                    assert forall|j: int|
                        0 <= j < cs.take(k as int).len() implies (#[trigger] cs.take(
                        k as int,
                    )[j]).len() == 10 by {
                        assert(cs.take(k as int)[j] == handstates@[j]@);
                    }
                    lemma_hand_presses_bound(cs.take(k as int), h);
                }
            }
            self.update_once(&handstates[k]);
            proof {
                assert forall|h: int|
                    0 <= h < 2 implies self.presses[h] == old(self).presses[h] + hand_presses(
                    cs.take(k + 1),
                    h,
                ) by {
                    lemma_hand_presses_take_step(cs, k as int, h);
                    assert(cs[k as int] == handstates@[k as int]@);
                }
            }
            k += 1;
        }
        proof {
            assert(cs.take(n as int) =~= cs);
        }
    }

    /// Consumes the accumulator, feeds it the chords, and returns it.
    pub fn updated(self, handstates: &Vec<HandsState>) -> (r: HandUsage)
        requires
            forall|h: int| 0 <= h < 2 ==> self.presses[h] + 5 * handstates@.len() <= u32::MAX,
        ensures
            forall|h: int|
                0 <= h < 2 ==> r.presses[h] == self.presses[h] + hand_presses(
                    views_of(handstates@),
                    h,
                ),
    {
        let mut m = self;
        m.update(handstates);
        m
    }

    /// Derives the per-hand counters from already-collected per-finger
    /// counters, without re-reading any chords.
    pub fn from_finger_usage(value: &FingerUsage) -> (r: HandUsage)
        requires
            value.presses[0] + value.presses[1] + value.presses[2] + value.presses[3]
                + value.presses[4] <= u32::MAX,
            value.presses[5] + value.presses[6] + value.presses[7] + value.presses[8]
                + value.presses[9] <= u32::MAX,
        ensures
            r.presses[0] == value.presses[0] + value.presses[1] + value.presses[2]
                + value.presses[3] + value.presses[4],
            r.presses[1] == value.presses[5] + value.presses[6] + value.presses[7]
                + value.presses[8] + value.presses[9],
    {
        let left = value.presses[0] + value.presses[1] + value.presses[2] + value.presses[3]
            + value.presses[4];
        let right = value.presses[5] + value.presses[6] + value.presses[7] + value.presses[8]
            + value.presses[9];
        proof {
            vstd::array::axiom_spec_array_fill_for_copy_type::<u32, 2>(0);
        }
        let mut presses: [u32; 2] = [0; 2];
        presses[0] = left;
        presses[1] = right;
        HandUsage { presses }
    }

    /// The score: the total number of presses. Lower is better.
    pub fn score(&self) -> (r: u64)
        ensures
            r == sum_u32(self.presses@),
    {
        sum_counters2(&self.presses)
    }
}

proof fn lemma_finger_repeats_skip_step(cs: Seq<Seq<bool>>, k: int, prev: Seq<bool>, f: int)
    requires
        0 <= k < cs.len(),
    ensures
        finger_repeats(cs.skip(k), prev, f) == (if prev[f] && cs[k][f] {
            1int
        } else {
            0int
        }) + finger_repeats(cs.skip(k + 1), cs[k], f),
{
    assert(cs.skip(k).len() == cs.len() - k);
    assert(cs.skip(k).first() == cs[k]);
    assert(cs.skip(k).drop_first() =~= cs.skip(k + 1));
}

proof fn lemma_hand_repeats_skip_step(cs: Seq<Seq<bool>>, k: int, prev: bool, h: int)
    requires
        0 <= k < cs.len(),
    ensures
        hand_repeats(cs.skip(k), prev, h) == (if prev && hand_used(cs[k], h) {
            1int
        } else {
            0int
        }) + hand_repeats(cs.skip(k + 1), hand_used(cs[k], h), h),
{
    assert(cs.skip(k).len() == cs.len() - k);
    assert(cs.skip(k).first() == cs[k]);
    assert(cs.skip(k).drop_first() =~= cs.skip(k + 1));
}

/// A finger repeats at most once per step.
pub proof fn lemma_finger_repeats_bound(cs: Seq<Seq<bool>>, prev: Seq<bool>, f: int)
    ensures
        finger_repeats(cs, prev, f) <= cs.len(),
    decreases cs.len(),
{
    if cs.len() > 0 {
        lemma_finger_repeats_bound(cs.drop_first(), cs.first(), f);
    }
}

/// A hand repeats at most once per step.
pub proof fn lemma_hand_repeats_bound(cs: Seq<Seq<bool>>, prev: bool, h: int)
    ensures
        hand_repeats(cs, prev, h) <= cs.len(),
    decreases cs.len(),
{
    if cs.len() > 0 {
        lemma_hand_repeats_bound(cs.drop_first(), hand_used(cs.first(), h), h);
    }
}

/// Measures finger alternation: how often the same finger is pressed in two
/// consecutive chords. The score is the total number of such repeats; lower
/// means more alternation.
pub struct FingerAlternation {
    pub last_handstate: HandsState,
    pub consecutive_presses: [u32; 10],
}

impl FingerAlternation {
    pub fn new() -> (r: FingerAlternation)
        ensures
            forall|i: int| 0 <= i < 10 ==> !r.last_handstate@[i],
            forall|i: int| 0 <= i < 10 ==> r.consecutive_presses[i] == 0,
    {
        proof {
            vstd::array::axiom_spec_array_fill_for_copy_type::<u32, 10>(0);
        }
        FingerAlternation { last_handstate: HandsState::default(), consecutive_presses: [0; 10] }
    }

    /// Counts the fingers pressed both in the previous chord and in this
    /// one, then remembers this chord.
    pub fn update_once(&mut self, handstate: &HandsState)
        requires
            forall|i: int| 0 <= i < 10 ==> old(self).consecutive_presses[i] < u32::MAX,
        ensures
            forall|i: int|
                0 <= i < 10 ==> final(self).consecutive_presses[i] == old(
                    self,
                ).consecutive_presses[i] + (if old(self).last_handstate@[i] && handstate@[i] {
                    1int
                } else {
                    0int
                }),
            final(self).last_handstate == *handstate,
    {
        let prev = self.last_handstate;
        let mut counts = self.consecutive_presses;
        let mut i: usize = 0;
        while i < 10
            invariant
                0 <= i <= 10,
                prev == old(self).last_handstate,
                forall|j: int| 0 <= j < 10 ==> old(self).consecutive_presses[j] < u32::MAX,
                forall|j: int|
                    0 <= j < i ==> counts[j] == old(self).consecutive_presses[j] + (if old(
                        self,
                    ).last_handstate@[j] && handstate@[j] {
                        1int
                    } else {
                        0int
                    }),
                forall|j: int| i <= j < 10 ==> counts[j] == old(self).consecutive_presses[j],
            decreases 10 - i,
        {
            let lp = prev.0[i].is_pressed();
            let hp = handstate.0[i].is_pressed();
            proof {
                assert(lp == old(self).last_handstate@[i as int]);
                assert(hp == handstate@[i as int]);
            }
            if lp && hp {
                counts[i] = counts[i] + 1;
            }
            i += 1;
        }
        self.consecutive_presses = counts;
        self.last_handstate = *handstate;
    }

    /// Feeds every chord in order.
    pub fn update(&mut self, handstates: &Vec<HandsState>)
        requires
            forall|i: int|
                0 <= i < 10 ==> old(self).consecutive_presses[i] + handstates@.len()
                    <= u32::MAX,
        ensures
            forall|i: int|
                0 <= i < 10 ==> final(self).consecutive_presses[i] == old(
                    self,
                ).consecutive_presses[i] + finger_repeats(
                    views_of(handstates@),
                    old(self).last_handstate@,
                    i,
                ),
            final(self).last_handstate == (if handstates@.len() > 0 {
                handstates@[handstates@.len() - 1]
            } else {
                old(self).last_handstate
            }),
    {
        let ghost cs = views_of(handstates@);
        let mut k: usize = 0;
        let n = handstates.len();
        proof {
            assert(cs.skip(0) =~= cs);
        }
        while k < n
            invariant
                0 <= k <= n,
                n == handstates@.len(),
                cs == views_of(handstates@),
                forall|i: int|
                    0 <= i < 10 ==> old(self).consecutive_presses[i] + n <= u32::MAX,
                forall|i: int|
                    0 <= i < 10 ==> self.consecutive_presses[i] <= old(
                        self,
                    ).consecutive_presses[i] + k,
                forall|i: int|
                    0 <= i < 10 ==> old(self).consecutive_presses[i] + finger_repeats(
                        cs,
                        old(self).last_handstate@,
                        i,
                    ) == self.consecutive_presses[i] + finger_repeats(
                        cs.skip(k as int),
                        self.last_handstate@,
                        i,
                    ),
                self.last_handstate == (if k > 0 {
                    handstates@[k - 1]
                } else {
                    old(self).last_handstate
                }),
            decreases n - k,
        {
            let ghost prev = self.last_handstate@;
            proof {
                assert forall|i: int| 0 <= i < 10 implies self.consecutive_presses[i]
                    < u32::MAX by {}
            }
            self.update_once(&handstates[k]);
            proof {
                assert forall|i: int|
                    0 <= i < 10 implies old(self).consecutive_presses[i] + finger_repeats(
                    cs,
                    old(self).last_handstate@,
                    i,
                ) == self.consecutive_presses[i] + finger_repeats(
                    cs.skip(k + 1),
                    self.last_handstate@,
                    i,
                ) by {
                    lemma_finger_repeats_skip_step(cs, k as int, prev, i);
                    assert(cs[k as int] == handstates@[k as int]@);
                    assert(self.last_handstate@ == cs[k as int]);
                }
                assert forall|i: int| 0 <= i < 10 implies self.consecutive_presses[i] <= old(
                    self,
                ).consecutive_presses[i] + (k + 1) by {}
            }
            k += 1;
        }
        proof {
            assert(cs.skip(n as int) =~= Seq::<Seq<bool>>::empty());
        }
    }

    /// Consumes the accumulator, feeds it the chords, and returns it.
    pub fn updated(self, handstates: &Vec<HandsState>) -> (r: FingerAlternation)
        requires
            forall|i: int|
                0 <= i < 10 ==> self.consecutive_presses[i] + handstates@.len() <= u32::MAX,
        ensures
            forall|i: int|
                0 <= i < 10 ==> r.consecutive_presses[i] == self.consecutive_presses[i]
                    + finger_repeats(views_of(handstates@), self.last_handstate@, i),
            r.last_handstate == (if handstates@.len() > 0 {
                handstates@[handstates@.len() - 1]
            } else {
                self.last_handstate
            }),
    {
        let mut m = self;
        m.update(handstates);
        m
    }

    /// The score: the total number of consecutive repeats. Lower is better.
    pub fn score(&self) -> (r: u64)
        ensures
            r == sum_u32(self.consecutive_presses@),
    {
        sum_counters10(&self.consecutive_presses)
    }
}

fn hand_any(handstate: &HandsState, h: usize) -> (r: bool)
    requires
        h < 2,
    ensures
        r == hand_used(handstate@, h as int),
{
    let mut j: usize = 0;
    while j < 5
        invariant
            0 <= j <= 5,
            h < 2,
            forall|f: int| 5 * h <= f < 5 * h + j ==> !handstate@[f],
        decreases 5 - j,
    {
        proof {
            assert(handstate@[5 * h + j] == (handstate.0[5 * h + j] is Pressed));
        }
        if handstate.0[5 * h + j].is_pressed() {
            proof {
                assert(handstate@[5 * h + j]);
            }
            return true;
        }
        j += 1;
    }
    proof {
        assert(!hand_used(handstate@, h as int));
    }
    false
}

/// Measures hand alternation: how often the same hand is used in two
/// consecutive chords. The score is the total number of such repeats; lower
/// means more alternation.
pub struct HandAlternation {
    pub last_hands_used: [bool; 2],
    pub consecutive_presses: [u32; 2],
}

impl HandAlternation {
    pub fn new() -> (r: HandAlternation)
        ensures
            forall|h: int| 0 <= h < 2 ==> !r.last_hands_used[h],
            forall|h: int| 0 <= h < 2 ==> r.consecutive_presses[h] == 0,
    {
        proof {
            vstd::array::axiom_spec_array_fill_for_copy_type::<bool, 2>(false);
            vstd::array::axiom_spec_array_fill_for_copy_type::<u32, 2>(0);
        }
        HandAlternation { last_hands_used: [false; 2], consecutive_presses: [0; 2] }
    }

    /// Counts the hands used both in the previous chord and in this one,
    /// then remembers which hands this chord uses.
    pub fn update_once(&mut self, handstate: &HandsState)
        requires
            forall|h: int| 0 <= h < 2 ==> old(self).consecutive_presses[h] < u32::MAX,
        ensures
            forall|h: int|
                0 <= h < 2 ==> final(self).consecutive_presses[h] == old(
                    self,
                ).consecutive_presses[h] + (if old(self).last_hands_used[h] && hand_used(
                    handstate@,
                    h,
                ) {
                    1int
                } else {
                    0int
                }),
            forall|h: int|
                0 <= h < 2 ==> final(self).last_hands_used[h] == hand_used(handstate@, h),
    {
        let u0 = hand_any(handstate, 0);
        let u1 = hand_any(handstate, 1);
        if self.last_hands_used[0] && u0 {
            self.consecutive_presses[0] = self.consecutive_presses[0] + 1;
        }
        if self.last_hands_used[1] && u1 {
            self.consecutive_presses[1] = self.consecutive_presses[1] + 1;
        }
        self.last_hands_used[0] = u0;
        self.last_hands_used[1] = u1;
    }

    /// Feeds every chord in order.
    pub fn update(&mut self, handstates: &Vec<HandsState>)
        requires
            forall|h: int|
                0 <= h < 2 ==> old(self).consecutive_presses[h] + handstates@.len()
                    <= u32::MAX,
        ensures
            forall|h: int|
                0 <= h < 2 ==> final(self).consecutive_presses[h] == old(
                    self,
                ).consecutive_presses[h] + hand_repeats(
                    views_of(handstates@),
                    old(self).last_hands_used[h],
                    h,
                ),
            forall|h: int|
                0 <= h < 2 ==> final(self).last_hands_used[h] == (if handstates@.len() > 0 {
                    hand_used(handstates@[handstates@.len() - 1]@, h)
                } else {
                    old(self).last_hands_used[h]
                }),
    {
        let ghost cs = views_of(handstates@);
        let mut k: usize = 0;
        let n = handstates.len();
        proof {
            assert(cs.skip(0) =~= cs);
        }
        while k < n
            invariant
                0 <= k <= n,
                n == handstates@.len(),
                cs == views_of(handstates@),
                forall|h: int|
                    0 <= h < 2 ==> old(self).consecutive_presses[h] + n <= u32::MAX,
                forall|h: int|
                    0 <= h < 2 ==> self.consecutive_presses[h] <= old(
                        self,
                    ).consecutive_presses[h] + k,
                forall|h: int|
                    0 <= h < 2 ==> old(self).consecutive_presses[h] + hand_repeats(
                        cs,
                        old(self).last_hands_used[h],
                        h,
                    ) == self.consecutive_presses[h] + hand_repeats(
                        cs.skip(k as int),
                        self.last_hands_used[h],
                        h,
                    ),
                forall|h: int|
                    0 <= h < 2 ==> self.last_hands_used[h] == (if k > 0 {
                        hand_used(handstates@[k - 1]@, h)
                    } else {
                        old(self).last_hands_used[h]
                    }),
            decreases n - k,
        {
            let ghost prev0 = self.last_hands_used[0];
            let ghost prev1 = self.last_hands_used[1];
            self.update_once(&handstates[k]);
            proof {
                assert forall|h: int|
                    0 <= h < 2 implies old(self).consecutive_presses[h] + hand_repeats(
                    cs,
                    old(self).last_hands_used[h],
                    h,
                ) == self.consecutive_presses[h] + hand_repeats(
                    cs.skip(k + 1),
                    self.last_hands_used[h],
                    h,
                ) by {
                    let prev = if h == 0 {
                        prev0
                    } else {
                        prev1
                    };
                    lemma_hand_repeats_skip_step(cs, k as int, prev, h);
                    assert(cs[k as int] == handstates@[k as int]@);
                    assert(self.last_hands_used[h] == hand_used(cs[k as int], h));
                }
            }
            k += 1;
        }
        proof {
            assert(cs.skip(n as int) =~= Seq::<Seq<bool>>::empty());
        }
    }

    /// Consumes the accumulator, feeds it the chords, and returns it.
    pub fn updated(self, handstates: &Vec<HandsState>) -> (r: HandAlternation)
        requires
            forall|h: int|
                0 <= h < 2 ==> self.consecutive_presses[h] + handstates@.len() <= u32::MAX,
        ensures
            forall|h: int|
                0 <= h < 2 ==> r.consecutive_presses[h] == self.consecutive_presses[h]
                    + hand_repeats(views_of(handstates@), self.last_hands_used[h], h),
            forall|h: int|
                0 <= h < 2 ==> r.last_hands_used[h] == (if handstates@.len() > 0 {
                    hand_used(handstates@[handstates@.len() - 1]@, h)
                } else {
                    self.last_hands_used[h]
                }),
    {
        let mut m = self;
        m.update(handstates);
        m
    }

    /// The score: the total number of consecutive repeats. Lower is better.
    pub fn score(&self) -> (r: u64)
        ensures
            r == sum_u32(self.consecutive_presses@),
    {
        sum_counters2(&self.consecutive_presses)
    }
}

proof fn lemma_l1_take_step(p: Seq<u32>, w: Seq<u32>, tp: int, tw: int, i: int)
    requires
        p.len() == w.len(),
        0 <= i < p.len(),
    ensures
        l1_scaled(p.take(i + 1), w.take(i + 1), tp, tw) == l1_scaled(p.take(i), w.take(i), tp, tw)
            + vstd::math::abs(p[i] * tw - w[i] * tp),
{
    assert(p.take(i + 1).drop_last() =~= p.take(i));
    assert(w.take(i + 1).drop_last() =~= w.take(i));
    assert(p.take(i + 1).last() == p[i]);
    assert(w.take(i + 1).last() == w[i]);
}

fn balance_parts10(presses: &[u32; 10], target: &[u32; 10]) -> (r: (u128, u128))
    ensures
        r.0 == l1_scaled(presses@, target@, sum_u32(presses@), sum_u32(target@)),
        r.1 == sum_u32(presses@) * sum_u32(target@),
{
    let tp: u64 = sum_counters10(presses);
    let tw: u64 = sum_counters10(target);
    let mut acc: u128 = 0;
    let mut i: usize = 0;
    proof {
        assert(presses@.take(0) =~= Seq::<u32>::empty());
        assert(target@.take(0) =~= Seq::<u32>::empty());
    }
    while i < 10
        invariant
            0 <= i <= 10,
            tp == sum_u32(presses@),
            tw == sum_u32(target@),
            acc == l1_scaled(presses@.take(i as int), target@.take(i as int), tp as int, tw as int),
            acc <= i * 0x1000000000000000000000000,
        decreases 10 - i,
    {
        proof {
            assert((presses@[i as int] as int) * (tw as int) < 0x1000000000000000000000000)
                by (nonlinear_arith)
                requires
                    0 <= presses@[i as int] < 0x100000000,
                    0 <= tw < 0x10000000000000000,
            ;
            assert((target@[i as int] as int) * (tp as int) < 0x1000000000000000000000000)
                by (nonlinear_arith)
                requires
                    0 <= target@[i as int] < 0x100000000,
                    0 <= tp < 0x10000000000000000,
            ;
        }
        let a: u128 = (presses[i] as u128) * (tw as u128);
        let b: u128 = (target[i] as u128) * (tp as u128);
        let d: u128 = if a >= b {
            a - b
        } else {
            b - a
        };
        acc = acc + d;
        proof {
            lemma_l1_take_step(presses@, target@, tp as int, tw as int, i as int);
            assert(d == vstd::math::abs(
                presses@[i as int] * (tw as int) - target@[i as int] * (tp as int),
            ));
        }
        i += 1;
    }
    proof {
        assert(presses@.take(10) =~= presses@);
        assert(target@.take(10) =~= target@);
        assert((tp as int) * (tw as int) < 0x100000000000000000000000000000000)
            by (nonlinear_arith)
            requires
                0 <= tp < 0x10000000000000000,
                0 <= tw < 0x10000000000000000,
        ;
    }
    let denom: u128 = (tp as u128) * (tw as u128);
    (acc, denom)
}

fn balance_parts2(presses: &[u32; 2], target: &[u32; 2]) -> (r: (u128, u128))
    ensures
        r.0 == l1_scaled(presses@, target@, sum_u32(presses@), sum_u32(target@)),
        r.1 == sum_u32(presses@) * sum_u32(target@),
{
    let tp: u64 = sum_counters2(presses);
    let tw: u64 = sum_counters2(target);
    let mut acc: u128 = 0;
    let mut i: usize = 0;
    proof {
        assert(presses@.take(0) =~= Seq::<u32>::empty());
        assert(target@.take(0) =~= Seq::<u32>::empty());
    }
    while i < 2
        invariant
            0 <= i <= 2,
            tp == sum_u32(presses@),
            tw == sum_u32(target@),
            acc == l1_scaled(presses@.take(i as int), target@.take(i as int), tp as int, tw as int),
            acc <= i * 0x1000000000000000000000000,
        decreases 2 - i,
    {
        proof {
            assert((presses@[i as int] as int) * (tw as int) < 0x1000000000000000000000000)
                by (nonlinear_arith)
                requires
                    0 <= presses@[i as int] < 0x100000000,
                    0 <= tw < 0x10000000000000000,
            ;
            assert((target@[i as int] as int) * (tp as int) < 0x1000000000000000000000000)
                by (nonlinear_arith)
                requires
                    0 <= target@[i as int] < 0x100000000,
                    0 <= tp < 0x10000000000000000,
            ;
        }
        let a: u128 = (presses[i] as u128) * (tw as u128);
        let b: u128 = (target[i] as u128) * (tp as u128);
        let d: u128 = if a >= b {
            a - b
        } else {
            b - a
        };
        acc = acc + d;
        proof {
            lemma_l1_take_step(presses@, target@, tp as int, tw as int, i as int);
            assert(d == vstd::math::abs(
                presses@[i as int] * (tw as int) - target@[i as int] * (tp as int),
            ));
        }
        i += 1;
    }
    proof {
        assert(presses@.take(2) =~= presses@);
        assert(target@.take(2) =~= target@);
        assert((tp as int) * (tw as int) < 0x100000000000000000000000000000000)
            by (nonlinear_arith)
            requires
                0 <= tp < 0x10000000000000000,
                0 <= tw < 0x10000000000000000,
        ;
    }
    let denom: u128 = (tp as u128) * (tw as u128);
    (acc, denom)
}

/// Measures finger usage balance against a target distribution of integer
/// weights; the weights are normalized by the score itself, so only their
/// ratios matter. The default target is uniform.
pub struct FingerBalance {
    pub presses: [u32; 10],
    pub target: [u32; 10],
}

impl FingerBalance {
    /// A fresh accumulator with the uniform target: one weight per finger.
    pub fn new() -> (r: FingerBalance)
        ensures
            forall|i: int| 0 <= i < 10 ==> r.presses[i] == 0,
            forall|i: int| 0 <= i < 10 ==> r.target[i] == 1,
    {
        proof {
            vstd::array::axiom_spec_array_fill_for_copy_type::<u32, 10>(0);
            vstd::array::axiom_spec_array_fill_for_copy_type::<u32, 10>(1);
        }
        FingerBalance { presses: [0; 10], target: [1; 10] }
    }

    /// Replaces the target weights; the collected presses stay.
    pub fn set_ratio(&mut self, target_ratio: [u32; 10])
        ensures
            forall|i: int| 0 <= i < 10 ==> final(self).target[i] == target_ratio[i],
            forall|i: int| 0 <= i < 10 ==> final(self).presses[i] == old(self).presses[i],
    {
        self.target = target_ratio;
    }

    /// A fresh accumulator with the given target weights.
    pub fn new_with_ratio(target_ratio: [u32; 10]) -> (r: FingerBalance)
        ensures
            forall|i: int| 0 <= i < 10 ==> r.presses[i] == 0,
            forall|i: int| 0 <= i < 10 ==> r.target[i] == target_ratio[i],
    {
        let mut fb = FingerBalance::new();
        fb.set_ratio(target_ratio);
        fb
    }

    /// Adds one chord's presses to the per-finger counters.
    pub fn update_once(&mut self, handstate: &HandsState)
        requires
            forall|i: int| 0 <= i < 10 ==> old(self).presses[i] < u32::MAX,
        ensures
            forall|i: int|
                0 <= i < 10 ==> final(self).presses[i] == old(self).presses[i] + (if handstate@[i] {
                    1int
                } else {
                    0int
                }),
            forall|i: int| 0 <= i < 10 ==> final(self).target[i] == old(self).target[i],
    {
        let mut counts = self.presses;
        let mut i: usize = 0;
        while i < 10
            invariant
                0 <= i <= 10,
                forall|j: int| 0 <= j < 10 ==> old(self).presses[j] < u32::MAX,
                forall|j: int|
                    0 <= j < i ==> counts[j] == old(self).presses[j] + (if handstate@[j] {
                        1int
                    } else {
                        0int
                    }),
                forall|j: int| i <= j < 10 ==> counts[j] == old(self).presses[j],
            decreases 10 - i,
        {
            proof {
                assert(handstate@[i as int] == (handstate.0[i as int] is Pressed));
            }
            if handstate.0[i].is_pressed() {
                counts[i] = counts[i] + 1;
            }
            i += 1;
        }
        self.presses = counts;
    }

    /// Adds every chord's presses, in order.
    pub fn update(&mut self, handstates: &Vec<HandsState>)
        requires
            forall|i: int|
                0 <= i < 10 ==> old(self).presses[i] + handstates@.len() <= u32::MAX,
        ensures
            forall|i: int|
                0 <= i < 10 ==> final(self).presses[i] == old(self).presses[i] + finger_presses(
                    views_of(handstates@),
                    i,
                ),
            forall|i: int| 0 <= i < 10 ==> final(self).target[i] == old(self).target[i],
    {
        let ghost cs = views_of(handstates@);
        let mut k: usize = 0;
        let n = handstates.len();
        while k < n
            invariant
                0 <= k <= n,
                n == handstates@.len(),
                cs == views_of(handstates@),
                forall|i: int| 0 <= i < 10 ==> old(self).presses[i] + n <= u32::MAX,
                forall|i: int|
                    0 <= i < 10 ==> self.presses[i] == old(self).presses[i] + finger_presses(
                        cs.take(k as int),
                        i,
                    ),
                forall|i: int| 0 <= i < 10 ==> self.target[i] == old(self).target[i],
            decreases n - k,
        {
            proof {
                assert forall|i: int| 0 <= i < 10 implies self.presses[i] < u32::MAX by {
                    lemma_finger_presses_bound(cs.take(k as int), i);
                }
            }
            self.update_once(&handstates[k]);
            proof {
                assert forall|i: int|
                    0 <= i < 10 implies self.presses[i] == old(self).presses[i] + finger_presses(
                    cs.take(k + 1),
                    i,
                ) by {
                    lemma_finger_presses_take_step(cs, k as int, i);
                    assert(cs[k as int] == handstates@[k as int]@);
                }
            }
            k += 1;
        }
        proof {
            assert(cs.take(n as int) =~= cs);
        }
    }

    /// Consumes the accumulator, feeds it the chords, and returns it.
    pub fn updated(self, handstates: &Vec<HandsState>) -> (r: FingerBalance)
        requires
            forall|i: int| 0 <= i < 10 ==> self.presses[i] + handstates@.len() <= u32::MAX,
        ensures
            forall|i: int|
                0 <= i < 10 ==> r.presses[i] == self.presses[i] + finger_presses(
                    views_of(handstates@),
                    i,
                ),
            forall|i: int| 0 <= i < 10 ==> r.target[i] == self.target[i],
    {
        let mut m = self;
        m.update(handstates);
        m
    }

    /// Reuses already-collected per-finger counters, with the uniform
    /// target, without re-reading any chords.
    pub fn from_finger_usage(value: &FingerUsage) -> (r: FingerBalance)
        ensures
            forall|i: int| 0 <= i < 10 ==> r.presses[i] == value.presses[i],
            forall|i: int| 0 <= i < 10 ==> r.target[i] == 1,
    {
        proof {
            vstd::array::axiom_spec_array_fill_for_copy_type::<u32, 10>(1);
        }
        FingerBalance { presses: value.presses, target: [1; 10] }
    }

    /// The exact balance score as a fraction: the numerator is the L1
    /// distance between the observed and target press distributions, scaled
    /// by the denominator, which is the product of the two totals. Lower is
    /// better; zero means the observed ratios match the target exactly.
    pub fn score_ratio(&self) -> (r: (u128, u128))
        ensures
            r.0 == l1_scaled(
                self.presses@,
                self.target@,
                sum_u32(self.presses@),
                sum_u32(self.target@),
            ),
            r.1 == sum_u32(self.presses@) * sum_u32(self.target@),
    {
        balance_parts10(&self.presses, &self.target)
    }
}

/// Measures hand usage balance against a target distribution of integer
/// weights. The default target is even between the hands.
pub struct HandBalance {
    pub presses: [u32; 2],
    pub target: [u32; 2],
}

impl HandBalance {
    /// A fresh accumulator with the even target: one weight per hand.
    pub fn new() -> (r: HandBalance)
        ensures
            forall|h: int| 0 <= h < 2 ==> r.presses[h] == 0,
            forall|h: int| 0 <= h < 2 ==> r.target[h] == 1,
    {
        proof {
            vstd::array::axiom_spec_array_fill_for_copy_type::<u32, 2>(0);
            vstd::array::axiom_spec_array_fill_for_copy_type::<u32, 2>(1);
        }
        HandBalance { presses: [0; 2], target: [1; 2] }
    }

    /// Replaces the target weights; the collected presses stay.
    pub fn set_ratio(&mut self, target_ratio: [u32; 2])
        ensures
            forall|h: int| 0 <= h < 2 ==> final(self).target[h] == target_ratio[h],
            forall|h: int| 0 <= h < 2 ==> final(self).presses[h] == old(self).presses[h],
    {
        self.target = target_ratio;
    }

    /// A fresh accumulator with the given target weights.
    pub fn new_with_ratio(target_ratio: [u32; 2]) -> (r: HandBalance)
        ensures
            forall|h: int| 0 <= h < 2 ==> r.presses[h] == 0,
            forall|h: int| 0 <= h < 2 ==> r.target[h] == target_ratio[h],
    {
        let mut hb = HandBalance::new();
        hb.set_ratio(target_ratio);
        hb
    }

    /// Adds one chord's per-hand press counts.
    pub fn update_once(&mut self, handstate: &HandsState)
        requires
            forall|h: int| 0 <= h < 2 ==> old(self).presses[h] + 5 <= u32::MAX,
        ensures
            forall|h: int|
                0 <= h < 2 ==> final(self).presses[h] == old(self).presses[h] + hand_chord_count(
                    handstate@,
                    h,
                ),
            forall|h: int| 0 <= h < 2 ==> final(self).target[h] == old(self).target[h],
    {
        let c0 = hand_count(handstate, 0);
        let c1 = hand_count(handstate, 1);
        let mut counts = self.presses;
        counts[0] = counts[0] + (c0 as u32);
        counts[1] = counts[1] + (c1 as u32);
        self.presses = counts;
    }

    /// Adds every chord's per-hand press counts, in order.
    pub fn update(&mut self, handstates: &Vec<HandsState>)
        requires
            forall|h: int|
                0 <= h < 2 ==> old(self).presses[h] + 5 * handstates@.len() <= u32::MAX,
        ensures
            forall|h: int|
                0 <= h < 2 ==> final(self).presses[h] == old(self).presses[h] + hand_presses(
                    views_of(handstates@),
                    h,
                ),
            forall|h: int| 0 <= h < 2 ==> final(self).target[h] == old(self).target[h],
    {
        let ghost cs = views_of(handstates@);
        let mut k: usize = 0;
        let n = handstates.len();
        while k < n
            invariant
                0 <= k <= n,
                n == handstates@.len(),
                cs == views_of(handstates@),
                forall|h: int| 0 <= h < 2 ==> old(self).presses[h] + 5 * n <= u32::MAX,
                forall|h: int|
                    0 <= h < 2 ==> self.presses[h] == old(self).presses[h] + hand_presses(
                        cs.take(k as int),
                        h,
                    ),
                forall|h: int| 0 <= h < 2 ==> self.target[h] == old(self).target[h],
            decreases n - k,
        {
            proof {
                assert forall|h: int| 0 <= h < 2 implies self.presses[h] + 5 <= u32::MAX by {
                    assert forall|j: int|
                        0 <= j < cs.take(k as int).len() implies (#[trigger] cs.take(
                        k as int,
                    )[j]).len() == 10 by {
                        assert(cs.take(k as int)[j] == handstates@[j]@);
                    }
                    lemma_hand_presses_bound(cs.take(k as int), h);
                }
            }
            self.update_once(&handstates[k]);
            proof {
                assert forall|h: int|
                    0 <= h < 2 implies self.presses[h] == old(self).presses[h] + hand_presses(
                    cs.take(k + 1),
                    h,
                ) by {
                    lemma_hand_presses_take_step(cs, k as int, h);
                    assert(cs[k as int] == handstates@[k as int]@);
                }
            }
            k += 1;
        }
        proof {
            assert(cs.take(n as int) =~= cs);
        }
    }

    /// Consumes the accumulator, feeds it the chords, and returns it.
    pub fn updated(self, handstates: &Vec<HandsState>) -> (r: HandBalance)
        requires
            forall|h: int| 0 <= h < 2 ==> self.presses[h] + 5 * handstates@.len() <= u32::MAX,
        ensures
            forall|h: int|
                0 <= h < 2 ==> r.presses[h] == self.presses[h] + hand_presses(
                    views_of(handstates@),
                    h,
                ),
            forall|h: int| 0 <= h < 2 ==> r.target[h] == self.target[h],
    {
        let mut m = self;
        m.update(handstates);
        m
    }

    /// Reuses already-collected per-hand counters, with the even target,
    /// without re-reading any chords.
    pub fn from_hand_usage(value: &HandUsage) -> (r: HandBalance)
        ensures
            forall|h: int| 0 <= h < 2 ==> r.presses[h] == value.presses[h],
            forall|h: int| 0 <= h < 2 ==> r.target[h] == 1,
    {
        proof {
            vstd::array::axiom_spec_array_fill_for_copy_type::<u32, 2>(1);
        }
        HandBalance { presses: value.presses, target: [1; 2] }
    }

    /// Folds a finger balance into a hand balance: each hand's presses and
    /// target weight are the sums over its five fingers.
    pub fn from_finger_balance(value: &FingerBalance) -> (r: HandBalance)
        requires
            value.presses[0] + value.presses[1] + value.presses[2] + value.presses[3]
                + value.presses[4] <= u32::MAX,
            value.presses[5] + value.presses[6] + value.presses[7] + value.presses[8]
                + value.presses[9] <= u32::MAX,
            value.target[0] + value.target[1] + value.target[2] + value.target[3]
                + value.target[4] <= u32::MAX,
            value.target[5] + value.target[6] + value.target[7] + value.target[8]
                + value.target[9] <= u32::MAX,
        ensures
            r.presses[0] == value.presses[0] + value.presses[1] + value.presses[2]
                + value.presses[3] + value.presses[4],
            r.presses[1] == value.presses[5] + value.presses[6] + value.presses[7]
                + value.presses[8] + value.presses[9],
            r.target[0] == value.target[0] + value.target[1] + value.target[2] + value.target[3]
                + value.target[4],
            r.target[1] == value.target[5] + value.target[6] + value.target[7] + value.target[8]
                + value.target[9],
    {
        proof {
            vstd::array::axiom_spec_array_fill_for_copy_type::<u32, 2>(0);
        }
        let mut presses: [u32; 2] = [0; 2];
        let mut target: [u32; 2] = [0; 2];
        presses[0] = value.presses[0] + value.presses[1] + value.presses[2] + value.presses[3]
            + value.presses[4];
        presses[1] = value.presses[5] + value.presses[6] + value.presses[7] + value.presses[8]
            + value.presses[9];
        target[0] = value.target[0] + value.target[1] + value.target[2] + value.target[3]
            + value.target[4];
        target[1] = value.target[5] + value.target[6] + value.target[7] + value.target[8]
            + value.target[9];
        HandBalance { presses, target }
    }

    /// The exact balance score as a fraction, as for the finger balance.
    pub fn score_ratio(&self) -> (r: (u128, u128))
        ensures
            r.0 == l1_scaled(
                self.presses@,
                self.target@,
                sum_u32(self.presses@),
                sum_u32(self.target@),
            ),
            r.1 == sum_u32(self.presses@) * sum_u32(self.target@),
    {
        balance_parts2(&self.presses, &self.target)
    }
}

/// Law: the balance score vanishes exactly when every observed count is
/// proportional to its target weight: p[i] * tw == w[i] * tp for all i.
pub proof fn lemma_balance_zero_iff(p: Seq<u32>, w: Seq<u32>, tp: int, tw: int)
    requires
        p.len() == w.len(),
    ensures
        l1_scaled(p, w, tp, tw) >= 0,
        (l1_scaled(p, w, tp, tw) == 0 <==> forall|i: int|
            0 <= i < p.len() ==> p[i] * tw == w[i] * tp),
    decreases p.len(),
{
    if p.len() == 0 {
    } else {
        lemma_balance_zero_iff(p.drop_last(), w.drop_last(), tp, tw);
        let n = p.len() - 1;
        if l1_scaled(p, w, tp, tw) == 0 {
            assert(vstd::math::abs(p.last() * tw - w.last() * tp) == 0);
            assert forall|i: int| 0 <= i < p.len() implies p[i] * tw == w[i] * tp by {
                if i < n {
                    assert(p.drop_last()[i] == p[i] && w.drop_last()[i] == w[i]);
                } else {
                    assert(p.last() == p[n] && w.last() == w[n]);
                }
            }
        }
        if forall|i: int| 0 <= i < p.len() ==> p[i] * tw == w[i] * tp {
            assert forall|i: int| 0 <= i < n implies p.drop_last()[i] * tw == w.drop_last()[i]
                * tp by {
                assert(p.drop_last()[i] == p[i] && w.drop_last()[i] == w[i]);
            }
            assert(p.last() * tw == w.last() * tp);
        }
    }
}

/// Law: a finger balance derived from a finger usage that replayed some
/// chords holds exactly what a fresh finger balance fed the same chords
/// holds, so the two score identically.
pub proof fn lemma_balance_from_usage_matches(
    cs: Seq<Seq<bool>>,
    fu: FingerUsage,
    derived: FingerBalance,
    fresh: FingerBalance,
)
    requires
        forall|i: int| 0 <= i < 10 ==> fu.presses[i] == finger_presses(cs, i),
        forall|i: int|
            0 <= i < 10 ==> derived.presses[i] == fu.presses[i] && derived.target[i] == 1,
        forall|i: int|
            0 <= i < 10 ==> fresh.presses[i] == finger_presses(cs, i) && fresh.target[i] == 1,
    ensures
        derived.presses@ == fresh.presses@,
        derived.target@ == fresh.target@,
        l1_scaled(
            derived.presses@,
            derived.target@,
            sum_u32(derived.presses@),
            sum_u32(derived.target@),
        ) == l1_scaled(
            fresh.presses@,
            fresh.target@,
            sum_u32(fresh.presses@),
            sum_u32(fresh.target@),
        ),
{
    assert forall|i: int| 0 <= i < 10 implies derived.presses[i] == fresh.presses[i]
        && derived.target[i] == fresh.target[i] by {
        assert(derived.presses[i] == fu.presses[i]);
        assert(fu.presses[i] == finger_presses(cs, i));
        assert(fresh.presses[i] == finger_presses(cs, i));
        assert(derived.target[i] == 1 && fresh.target[i] == 1);
    }
    assert(derived.presses@ =~= fresh.presses@);
    assert(derived.target@ =~= fresh.target@);
}

} // verus!
