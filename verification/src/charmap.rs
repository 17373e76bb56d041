//! A small association table from characters to chords, the building block
//! of every layout: a list of entries with pairwise-distinct keys, viewed as
//! a map from characters to chord views.

use vstd::prelude::*;

use crate::hands::HandsState;

verus! {

/// Pairwise-distinct keys.
pub open spec fn distinct_keys(s: Seq<(char, HandsState)>) -> bool {
    forall|k1: int, k2: int| 0 <= k1 < k2 < s.len() ==> (#[trigger] s[k1]).0 != (#[trigger] s[k2]).0
}

/// The map an entry list stands for.
pub open spec fn entry_map(s: Seq<(char, HandsState)>) -> Map<char, Seq<bool>> {
    Map::new(
        |ch: char| exists|k: int| 0 <= k < s.len() && (#[trigger] s[k]).0 == ch,
        |ch: char|
            {
                let k = choose|k: int| 0 <= k < s.len() && (#[trigger] s[k]).0 == ch;
                s[k].1@
            },
    )
}

/// With distinct keys, the entry at index k decides the map at its key.
pub proof fn lemma_entry_map_at(s: Seq<(char, HandsState)>, k: int)
    requires
        distinct_keys(s),
        0 <= k < s.len(),
    ensures
        entry_map(s).contains_key(s[k].0),
        entry_map(s)[s[k].0] == s[k].1@,
{
    let ch = s[k].0;
    assert(exists|j: int| 0 <= j < s.len() && (#[trigger] s[j]).0 == ch);
    let j = choose|j: int| 0 <= j < s.len() && (#[trigger] s[j]).0 == ch;
    if j != k {
        if j < k {
            assert(s[j].0 != s[k].0);
        } else {
            assert(s[k].0 != s[j].0);
        }
    }
}

/// Appending an entry under a fresh key adds that key to the map.
proof fn lemma_entry_map_push_fresh(s: Seq<(char, HandsState)>, ch: char, hs: HandsState)
    requires
        distinct_keys(s),
        forall|j: int| 0 <= j < s.len() ==> (#[trigger] s[j]).0 != ch,
    ensures
        distinct_keys(s.push((ch, hs))),
        entry_map(s.push((ch, hs))) == entry_map(s).insert(ch, hs@),
{
    let s1 = s.push((ch, hs));
    assert forall|k1: int, k2: int|
        0 <= k1 < k2 < s1.len() implies (#[trigger] s1[k1]).0 != (#[trigger] s1[k2]).0 by {
        if k2 < s1.len() - 1 {
            assert(s1[k1] == s[k1] && s1[k2] == s[k2]);
        } else {
            assert(s1[k1] == s[k1]);
        }
    }
    assert(entry_map(s1) =~= entry_map(s).insert(ch, hs@)) by {
        assert forall|c: char|
            #![trigger entry_map(s1).contains_key(c)]
            true implies (entry_map(s1).contains_key(c) == entry_map(s).insert(
            ch,
            hs@,
        ).contains_key(c)) && (entry_map(s1).contains_key(c) ==> entry_map(s1)[c] == entry_map(
            s,
        ).insert(ch, hs@)[c]) by {
            if c == ch {
                lemma_entry_map_at(s1, s1.len() - 1);
            } else {
                if exists|k: int| 0 <= k < s1.len() && (#[trigger] s1[k]).0 == c {
                    let k = choose|k: int| 0 <= k < s1.len() && (#[trigger] s1[k]).0 == c;
                    assert(k < s1.len() - 1);
                    lemma_entry_map_at(s1, k);
                    assert(s1[k] == s[k]);
                    lemma_entry_map_at(s, k);
                } else {
                    if exists|k: int| 0 <= k < s.len() && (#[trigger] s[k]).0 == c {
                        let k = choose|k: int| 0 <= k < s.len() && (#[trigger] s[k]).0 == c;
                        assert(s1[k] == s[k]);
                        assert(false);
                    }
                }
            }
        }
    }
}

/// Removing the one entry of a key and appending a new entry under the same
/// key replaces its chord in the map.
proof fn lemma_entry_map_replace(s: Seq<(char, HandsState)>, idx: int, ch: char, hs: HandsState)
    requires
        distinct_keys(s),
        0 <= idx < s.len(),
        s[idx].0 == ch,
    ensures
        distinct_keys(s.remove(idx).push((ch, hs))),
        entry_map(s.remove(idx).push((ch, hs))) == entry_map(s).insert(ch, hs@),
{
    let sr = s.remove(idx);
    assert forall|j: int| 0 <= j < sr.len() implies (#[trigger] sr[j]).0 != ch by {
        let o = if j < idx {
            j
        } else {
            j + 1
        };
        assert(sr[j] == s[o]);
        if o < idx {
            assert(s[o].0 != s[idx].0);
        } else {
            assert(s[idx].0 != s[o].0);
        }
    }
    assert forall|k1: int, k2: int|
        0 <= k1 < k2 < sr.len() implies (#[trigger] sr[k1]).0 != (#[trigger] sr[k2]).0 by {
        let o1 = if k1 < idx {
            k1
        } else {
            k1 + 1
        };
        let o2 = if k2 < idx {
            k2
        } else {
            k2 + 1
        };
        assert(sr[k1] == s[o1] && sr[k2] == s[o2]);
    }
    lemma_entry_map_push_fresh(sr, ch, hs);
    assert(entry_map(sr).insert(ch, hs@) =~= entry_map(s).insert(ch, hs@)) by {
        assert forall|c: char|
            #![trigger entry_map(sr).contains_key(c)]
            c != ch implies (entry_map(sr).contains_key(c) == entry_map(s).contains_key(c)) && (
        entry_map(sr).contains_key(c) ==> entry_map(sr)[c] == entry_map(s)[c]) by {
            if exists|k: int| 0 <= k < sr.len() && (#[trigger] sr[k]).0 == c {
                let k = choose|k: int| 0 <= k < sr.len() && (#[trigger] sr[k]).0 == c;
                lemma_entry_map_at(sr, k);
                let o = if k < idx {
                    k
                } else {
                    k + 1
                };
                assert(sr[k] == s[o]);
                lemma_entry_map_at(s, o);
            } else {
                if exists|k: int| 0 <= k < s.len() && (#[trigger] s[k]).0 == c {
                    let k = choose|k: int| 0 <= k < s.len() && (#[trigger] s[k]).0 == c;
                    assert(k != idx);
                    let m = if k < idx {
                        k
                    } else {
                        k - 1
                    };
                    assert(sr[m] == s[k]);
                    assert(false);
                }
            }
        }
    }
}

/// A table from characters to chords. Entries keep their insertion order and
/// keys stay pairwise distinct; inserting an existing key replaces its chord.
pub struct CharMap {
    entries: Vec<(char, HandsState)>,
}

impl View for CharMap {
    type V = Map<char, Seq<bool>>;

    closed spec fn view(&self) -> Map<char, Seq<bool>> {
        entry_map(self.entries@)
    }
}

impl CharMap {
    /// Well-formed: the entry keys are pairwise distinct. Constructors
    /// establish this and every method preserves it.
    pub closed spec fn wf(&self) -> bool {
        distinct_keys(self.entries@)
    }

    /// The table's map is exactly the one its entry listing stands for.
    pub proof fn lemma_view_entry_map(&self)
        ensures
            self@ == entry_map(self.entry_seq()),
    {
    }

    /// The entries as a sequence of pairs, in insertion order.
    pub closed spec fn entry_seq(&self) -> Seq<(char, HandsState)> {
        self.entries@
    }

    /// The empty table.
    pub fn new() -> (r: CharMap)
        ensures
            r.wf(),
            r@ == Map::<char, Seq<bool>>::empty(),
            r.entry_seq().len() == 0,
    {
        let r = CharMap { entries: Vec::new() };
        proof {
            assert(r@ =~= Map::<char, Seq<bool>>::empty());
        }
        r
    }

    /// Number of entries.
    pub fn len(&self) -> (r: usize)
        ensures
            r == self.entry_seq().len(),
    {
        self.entries.len()
    }

    /// Maps `ch` to `hs`, replacing the chord of an existing key.
    pub fn insert(&mut self, ch: char, hs: HandsState)
        requires
            old(self).wf(),
        ensures
            final(self).wf(),
            final(self)@ == old(self)@.insert(ch, hs@),
            final(self).entry_seq().len() <= old(self).entry_seq().len() + 1,
            final(self).entry_seq().len() >= old(self).entry_seq().len(),
    {
        let ghost s0 = self.entries@;
        let mut i: usize = 0;
        let n = self.entries.len();
        while i < n
            invariant
                0 <= i <= n,
                n == s0.len(),
                self.entries@ == s0,
                s0 == old(self).entries@,
                distinct_keys(s0),
                forall|j: int| 0 <= j < i ==> (#[trigger] s0[j]).0 != ch,
            decreases n - i,
        {
            if self.entries[i].0 == ch {
                let ghost idx = i as int;
                self.entries.remove(i);
                self.entries.push((ch, hs));
                proof {
                    lemma_entry_map_replace(s0, idx, ch, hs);
                    assert(self.entries@ == s0.remove(idx).push((ch, hs)));
                }
                return ;
            }
            i += 1;
        }
        self.entries.push((ch, hs));
        proof {
            lemma_entry_map_push_fresh(s0, ch, hs);
            assert(self.entries@ == s0.push((ch, hs)));
        }
    }

    /// Looks the character up: its chord, or nothing if the key is absent.
    pub fn get(&self, ch: char) -> (r: Option<HandsState>)
        requires
            self.wf(),
        ensures
            match r {
                Some(hs) => self@.contains_key(ch) && hs@ == self@[ch],
                None => !self@.contains_key(ch),
            },
    {
        let ghost s = self.entries@;
        let mut i: usize = 0;
        let n = self.entries.len();
        while i < n
            invariant
                0 <= i <= n,
                n == s.len(),
                s == self.entries@,
                distinct_keys(s),
                forall|j: int| 0 <= j < i ==> (#[trigger] s[j]).0 != ch,
            decreases n - i,
        {
            if self.entries[i].0 == ch {
                proof {
                    lemma_entry_map_at(s, i as int);
                }
                return Some(self.entries[i].1);
            }
            i += 1;
        }
        None
    }

    /// True iff the table holds the character.
    pub fn contains_key(&self, ch: char) -> (r: bool)
        requires
            self.wf(),
        ensures
            r == self@.contains_key(ch),
    {
        self.get(ch).is_some()
    }

    /// The character-keyed listing of the table, in insertion order: one
    /// entry per key, each agreeing with the map view.
    pub fn entries(&self) -> (r: Vec<(char, HandsState)>)
        requires
            self.wf(),
        ensures
            r@ == self.entry_seq(),
            forall|k: int|
                0 <= k < r@.len() ==> self@.contains_key((#[trigger] r@[k]).0) && self@[r@[k].0]
                    == r@[k].1@,
    {
        let mut r: Vec<(char, HandsState)> = Vec::new();
        let mut i: usize = 0;
        let n = self.entries.len();
        while i < n
            invariant
                0 <= i <= n,
                n == self.entries@.len(),
                r@ == self.entries@.take(i as int),
            decreases n - i,
        {
            r.push(self.entries[i]);
            proof {
                assert(r@ =~= self.entries@.take(i + 1));
            }
            i += 1;
        }
        proof {
            assert(r@ =~= self.entries@);
            assert forall|k: int| 0 <= k < r@.len() implies self@.contains_key(
                (#[trigger] r@[k]).0,
            ) && self@[r@[k].0] == r@[k].1@ by {
                lemma_entry_map_at(self.entries@, k);
            }
        }
        r
    }
}

} // verus!
