//! The alphabet: a bidirectional index between concrete feature tuples and
//! phoneme identities. Exactly one identity occupies each tuple, while one
//! identity may occupy many tuples (its quality lists several values per
//! axis). Adding at an occupied tuple overwrites silently: the last writer
//! wins.

use vstd::prelude::*;

use crate::category::{Category, Inner, Outer, Pair};
use crate::phoneme::{Phone, Phoneme};
use crate::quality::{
    cart3, lemma_cart3_membership, lemma_flat_index_bound, lemma_flat_index_decompose, raw_axis_valid,
    raw_encodes, PhonemeQuality, PhonemeSelector,
};
use crate::store::{Id, PhonemeStore};

verus! {

/// The flat grid position of the feature tuple `(a, b, c)`: first axis
/// outermost, third innermost.
pub open spec fn spec_slot<A: Category, B: Category, C: Category>(a: A, b: B, c: C) -> int {
    ((a.idx() * B::card() + b.idx()) * C::card() + c.idx()) as int
}

/// The number of concrete feature tuples of the axis triple.
pub open spec fn total_slots<A: Category, B: Category, C: Category>() -> int {
    (A::card() * B::card() * C::card()) as int
}

/// Every feature tuple's flat position lies inside the grid.
pub open spec fn slots_in_range<A: Category, B: Category, C: Category>() -> bool {
    forall|a: A, b: B, c: C| 0 <= #[trigger] spec_slot(a, b, c) < total_slots::<A, B, C>()
}

/// Establishes `slots_in_range` for an axis triple.
pub proof fn lemma_slots_in_range<A: Category, B: Category, C: Category>()
    ensures
        slots_in_range::<A, B, C>(),
{
    assert forall|a: A, b: B, c: C| 0 <= #[trigger] spec_slot(a, b, c) < total_slots::<A, B, C>()
        by {
        a.lemma_idx_bounded();
        b.lemma_idx_bounded();
        c.lemma_idx_bounded();
        lemma_flat_index_bound(
            A::card() as int,
            B::card() as int,
            C::card() as int,
            a.idx() as int,
            b.idx() as int,
            c.idx() as int,
        );
    }
}

/// Distinct feature tuples have distinct flat positions.
pub proof fn lemma_slot_injective<A: Category, B: Category, C: Category>(
    a1: A,
    b1: B,
    c1: C,
    a2: A,
    b2: B,
    c2: C,
)
    ensures
        spec_slot(a1, b1, c1) == spec_slot(a2, b2, c2) ==> a1 == a2 && b1 == b2 && c1 == c2,
{
    if spec_slot(a1, b1, c1) == spec_slot(a2, b2, c2) {
        a1.lemma_idx_bounded();
        b1.lemma_idx_bounded();
        c1.lemma_idx_bounded();
        a2.lemma_idx_bounded();
        b2.lemma_idx_bounded();
        c2.lemma_idx_bounded();
        lemma_flat_index_decompose(
            B::card() as int,
            C::card() as int,
            a1.idx() as int,
            b1.idx() as int,
            c1.idx() as int,
        );
        lemma_flat_index_decompose(
            B::card() as int,
            C::card() as int,
            a2.idx() as int,
            b2.idx() as int,
            c2.idx() as int,
        );
        a1.lemma_idx_injective(a2);
        b1.lemma_idx_injective(b2);
        c1.lemma_idx_injective(c2);
    }
}

/// Computes the flat grid position of `(a, b, c)`.
fn slot_of<A: Category, B: Category, C: Category>(a: A, b: B, c: C) -> (s: usize)
    requires
        total_slots::<A, B, C>() <= usize::MAX as int,
    ensures
        s as int == spec_slot(a, b, c),
        0 <= spec_slot(a, b, c) < total_slots::<A, B, C>(),
{
    proof {
        a.lemma_idx_bounded();
        b.lemma_idx_bounded();
        c.lemma_idx_bounded();
        C::lemma_card_positive();
        lemma_flat_index_bound(
            A::card() as int,
            B::card() as int,
            C::card() as int,
            a.idx() as int,
            b.idx() as int,
            c.idx() as int,
        );
        assert(a.idx() * B::card() + b.idx() < A::card() * B::card()) by (nonlinear_arith)
            requires
                a.idx() < A::card(),
                b.idx() < B::card(),
        ;
        assert(A::card() * B::card() <= A::card() * B::card() * C::card()) by (nonlinear_arith)
            requires
                C::card() >= 1,
        ;
    }
    let ia = a.index();
    let ib = b.index();
    let ic = c.index();
    let cb = B::cardinality();
    let cc = C::cardinality();
    (ia * cb + ib) * cc + ic
}

/// The per-language, per-phone-kind index structure: a flat grid mapping
/// feature tuples to identities, and the identity-keyed quality entries.
pub struct Alphabet<A: Outer<B, C>, B: Inner<C>, C: Pair> {
    grid: Vec<Option<Id>>,
    entries: Vec<(Id, PhonemeQuality<A, B, C>)>,
}

impl<A: Outer<B, C>, B: Inner<C>, C: Pair> Alphabet<A, B, C> {
    /// Well-formedness: the grid covers every concrete feature tuple, and no
    /// identity has two quality entries. Constructors establish it and every
    /// method preserves it.
    pub closed spec fn wf(self) -> bool {
        &&& self.grid@.len() == total_slots::<A, B, C>()
        &&& total_slots::<A, B, C>() <= usize::MAX as int
        &&& forall|k1: int, k2: int|
            0 <= k1 < k2 < self.entries@.len() ==> (#[trigger] self.entries@[k1]).0 != (
            #[trigger] self.entries@[k2]).0
    }

    /// Whether some entry carries the identity `id`.
    closed spec fn has_key(self, id: Id) -> bool {
        exists|k: int| 0 <= k < self.entries@.len() && (#[trigger] self.entries@[k]).0 == id
    }

    /// The index of the entry carrying `id`.
    closed spec fn key_index(self, id: Id) -> int {
        choose|k: int| 0 <= k < self.entries@.len() && (#[trigger] self.entries@[k]).0 == id
    }

    /// The identity-to-quality map this alphabet denotes.
    pub closed spec fn qmap(self) -> Map<Id, PhonemeQuality<A, B, C>> {
        Map::new(|id: Id| self.has_key(id), |id: Id| self.entries@[self.key_index(id)].1)
    }

    /// The stored identities, in entry order.
    pub closed spec fn key_seq(self) -> Seq<Id> {
        self.entries@.map_values(|e: (Id, PhonemeQuality<A, B, C>)| e.0)
    }

    /// The identity occupying the feature tuple `(a, b, c)`, if any.
    pub closed spec fn occupant(self, a: A, b: B, c: C) -> Option<Id> {
        if 0 <= spec_slot(a, b, c) < self.grid@.len() {
            self.grid@[spec_slot(a, b, c)]
        } else {
            None
        }
    }

    /// The two directions of the index agree: every tuple an entered quality
    /// covers maps back to its identity, and every occupied tuple is covered
    /// by its occupant's quality.
    pub open spec fn consistent(self) -> bool {
        &&& forall|id: Id, a: A, b: B, c: C|
            self.qmap().contains_key(id) && (#[trigger] self.qmap()[id].covers(a, b, c))
                ==> self.occupant(a, b, c) == Some(id)
        &&& forall|a: A, b: B, c: C|
            (#[trigger] self.occupant(a, b, c)) matches Some(id) ==> self.qmap().contains_key(id)
                && self.qmap()[id].covers(a, b, c)
    }

    /// The entry at a valid index is the one its key's lookup finds.
    proof fn lemma_key_at(self, k: int)
        requires
            self.wf(),
            0 <= k < self.entries@.len(),
        ensures
            self.has_key(self.entries@[k].0),
            self.key_index(self.entries@[k].0) == k,
            self.qmap().contains_key(self.entries@[k].0),
            self.qmap()[self.entries@[k].0] == self.entries@[k].1,
    {
        let id = self.entries@[k].0;
        assert(self.has_key(id));
        let k2 = self.key_index(id);
        if k2 != k {
            if k2 < k {
                assert(self.entries@[k2].0 != self.entries@[k].0);
            } else {
                assert(self.entries@[k].0 != self.entries@[k2].0);
            }
        }
    }

    /// Creates an empty alphabet. The axis triple must be small enough for
    /// its tuple grid to be addressable.
    pub fn new() -> (r: Self)
        requires
            total_slots::<A, B, C>() <= usize::MAX as int,
        ensures
            r.wf(),
            r.qmap() == Map::<Id, PhonemeQuality<A, B, C>>::empty(),
            forall|a: A, b: B, c: C| #[trigger] r.occupant(a, b, c) is None,
            r.consistent(),
    {
        proof {
            C::lemma_card_positive();
            assert(A::card() * B::card() <= A::card() * B::card() * C::card())
                by (nonlinear_arith)
                requires
                    C::card() >= 1,
            ;
        }
        let ca = A::cardinality();
        let cb = B::cardinality();
        let cc = C::cardinality();
        let total = ca * cb * cc;
        let mut grid: Vec<Option<Id>> = Vec::new();
        let mut n: usize = 0;
        while n < total
            invariant
                n <= total,
                total as int == total_slots::<A, B, C>(),
                grid@.len() == n,
                forall|m: int| 0 <= m < n ==> (#[trigger] grid@[m]) is None,
            decreases total - n,
        {
            grid.push(None);
            n += 1;
        }
        let r = Alphabet { grid, entries: Vec::new() };
        proof {
            assert(r.qmap() =~= Map::<Id, PhonemeQuality<A, B, C>>::empty());
        }
        r
    }

    /// The identity at an exact feature tuple.
    pub fn get(&self, query: (A, B, C)) -> (r: Option<Id>)
        requires
            self.wf(),
        ensures
            r == self.occupant(query.0, query.1, query.2),
    {
        let (a, b, c) = query;
        let s = slot_of(a, b, c);
        self.grid[s]
    }

    /// Records that `id` occupies every tuple of `quality`: each of those
    /// tuples now maps to `id`, overwriting any previous occupant without
    /// error, and `quality` is stored for `id`, replacing any previous
    /// quality. When the alphabet was consistent, `id` is new, and no tuple
    /// of `quality` was occupied, consistency is preserved.
    pub fn add_phoneme(&mut self, id: Id, quality: PhonemeQuality<A, B, C>)
        requires
            old(self).wf(),
        ensures
            final(self).wf(),
            final(self).qmap() == old(self).qmap().insert(id, quality),
            forall|a: A, b: B, c: C|
                quality.covers(a, b, c) ==> (#[trigger] final(self).occupant(a, b, c)) == Some(id),
            forall|a: A, b: B, c: C|
                !quality.covers(a, b, c) ==> (#[trigger] final(self).occupant(a, b, c)) == old(
                    self,
                ).occupant(a, b, c),
    {
        proof {
            lemma_slots_in_range::<A, B, C>();
        }
        let tuples = quality.expand();
        let ghost q = quality;
        let mut t: usize = 0;
        while t < tuples.len()
            invariant
                slots_in_range::<A, B, C>(),
                old(self).wf(),
                self.entries@ == old(self).entries@,
                self.grid@.len() == old(self).grid@.len(),
                t <= tuples@.len(),
                tuples@ == cart3(q.0@, q.1@, q.2@),
                q == quality,
                forall|n: int|
                    0 <= n < t ==> self.grid@[spec_slot(
                        (#[trigger] tuples@[n]).0,
                        tuples@[n].1,
                        tuples@[n].2,
                    )] == Some(id),
                forall|a: A, b: B, c: C|
                    !q.covers(a, b, c) ==> (#[trigger] self.grid@[spec_slot(a, b, c)]) == old(
                        self,
                    ).grid@[spec_slot(a, b, c)],
            decreases tuples@.len() - t,
        {
            let (a, b, c) = tuples[t];
            proof {
                lemma_cart3_membership(q.0@, q.1@, q.2@, tuples@[t as int]);
                assert(cart3(q.0@, q.1@, q.2@).contains(tuples@[t as int]));
                assert(q.covers(a, b, c));
                assert forall|x: A, y: B, z: C| !q.covers(x, y, z) implies spec_slot(x, y, z)
                    != spec_slot(a, b, c) by {
                    lemma_slot_injective(x, y, z, a, b, c);
                }
            }
            let s = slot_of(a, b, c);
            self.grid.set(s, Some(id));
            t += 1;
        }
        proof {
            assert forall|a: A, b: B, c: C| q.covers(a, b, c) implies (#[trigger] self.grid@[
            spec_slot(a, b, c)]) == Some(id) by {
                lemma_cart3_membership(q.0@, q.1@, q.2@, (a, b, c));
                let n = cart3(q.0@, q.1@, q.2@).index_of((a, b, c));
                assert(tuples@[n] == (a, b, c));
            }
        }
        let ghost pre_entries = self.entries@;
        let mut k: usize = 0;
        let mut found: Option<usize> = None;
        while k < self.entries.len()
            invariant
                self.entries@ == pre_entries,
                k <= pre_entries.len(),
                match found {
                    Some(f) => 0 <= f < pre_entries.len() && pre_entries[f as int].0 == id,
                    None => forall|n: int| 0 <= n < k ==> (#[trigger] pre_entries[n]).0 != id,
                },
            decreases pre_entries.len() - k,
        {
            if found.is_none() && self.entries[k].0 == id {
                found = Some(k);
            }
            k += 1;
        }
        match found {
            Some(f) => {
                self.entries.set(f, (id, quality));
                proof {
                    let pre = *old(self);
                    assert forall|x: Id| true implies #[trigger] self.has_key(x) == (pre.has_key(x)
                        || x == id) by {
                        if self.has_key(x) {
                            let n = self.key_index(x);
                            if n == f {
                            } else {
                                assert(pre.entries@[n].0 == x);
                                assert(pre.has_key(x));
                            }
                        }
                        if pre.has_key(x) {
                            let n = pre.key_index(x);
                            if n == f {
                                assert(pre_entries[f as int].0 == id);
                                assert(x == id);
                                assert(self.entries@[n].0 == x);
                                assert(self.has_key(x));
                            } else {
                                assert(self.entries@[n].0 == x);
                                assert(self.has_key(x));
                            }
                        }
                        if x == id {
                            assert(self.entries@[f as int].0 == id);
                            assert(self.has_key(x));
                        }
                    }
                    assert forall|x: Id| self.has_key(x) implies self.qmap()[x] == (if x == id {
                        quality
                    } else {
                        pre.qmap()[x]
                    }) by {
                        let n = self.key_index(x);
                        assert(self.entries@[n].0 == x);
                        if x == id {
                            if n != f {
                                assert(pre.entries@[n].0 == id);
                                assert(pre.entries@[f as int].0 == id);
                                if n < f {
                                    assert(pre.entries@[n].0 != pre.entries@[f as int].0);
                                } else {
                                    assert(pre.entries@[f as int].0 != pre.entries@[n].0);
                                }
                            }
                            assert(self.qmap()[x] == quality);
                        } else {
                            assert(n != f);
                            assert(pre.entries@[n].0 == x);
                            pre.lemma_key_at(n);
                        }
                    }
                    assert(self.qmap() =~= pre.qmap().insert(id, quality));
                }
            },
            None => {
                self.entries.push((id, quality));
                proof {
                    let pre = *old(self);
                    let flen = pre_entries.len() as int;
                    assert forall|x: Id| true implies #[trigger] self.has_key(x) == (pre.has_key(x)
                        || x == id) by {
                        if self.has_key(x) {
                            let n = self.key_index(x);
                            if n == flen {
                                assert(x == id);
                            } else {
                                assert(pre.entries@[n].0 == x);
                                assert(pre.has_key(x));
                            }
                        }
                        if pre.has_key(x) {
                            let n = pre.key_index(x);
                            assert(self.entries@[n].0 == x);
                            assert(self.has_key(x));
                        }
                        if x == id {
                            assert(self.entries@[flen].0 == id);
                            assert(self.has_key(x));
                        }
                    }
                    assert forall|x: Id| self.has_key(x) implies self.qmap()[x] == (if x == id {
                        quality
                    } else {
                        pre.qmap()[x]
                    }) by {
                        let n = self.key_index(x);
                        assert(self.entries@[n].0 == x);
                        if x == id {
                            if n != flen {
                                assert(pre.entries@[n].0 == id);
                                assert(pre_entries[n].0 != id);
                            }
                            assert(self.qmap()[x] == quality);
                        } else {
                            assert(n != flen);
                            assert(pre.entries@[n].0 == x);
                            pre.lemma_key_at(n);
                        }
                    }
                    assert(self.qmap() =~= pre.qmap().insert(id, quality));
                }
            },
        }
    }

    /// The stored quality of an identity, if it is present.
    pub fn get_quality(&self, id: Id) -> (r: Option<PhonemeQuality<A, B, C>>)
        requires
            self.wf(),
        ensures
            match r {
                Some(q) => self.qmap().contains_key(id) && q.0@ == self.qmap()[id].0@ && q.1@
                    == self.qmap()[id].1@ && q.2@ == self.qmap()[id].2@,
                None => !self.qmap().contains_key(id),
            },
    {
        let mut k: usize = 0;
        while k < self.entries.len()
            invariant
                self.wf(),
                k <= self.entries@.len(),
                forall|n: int| 0 <= n < k ==> (#[trigger] self.entries@[n]).0 != id,
            decreases self.entries@.len() - k,
        {
            if self.entries[k].0 == id {
                proof {
                    self.lemma_key_at(k as int);
                }
                return Some(self.entries[k].1.duplicate());
            }
            k += 1;
        }
        proof {
            assert(!self.has_key(id));
        }
        None
    }

    /// Clears every tuple the identity occupies, then drops its quality
    /// entry. The identity must be present: removing an unknown identity is
    /// a contract violation. Consistency is preserved.
    pub fn remove_phoneme(&mut self, id: Id)
        requires
            old(self).wf(),
            old(self).qmap().contains_key(id),
        ensures
            final(self).wf(),
            final(self).qmap() == old(self).qmap().remove(id),
            forall|a: A, b: B, c: C|
                old(self).qmap()[id].covers(a, b, c) ==> (#[trigger] final(self).occupant(
                    a,
                    b,
                    c,
                )) is None,
            forall|a: A, b: B, c: C|
                !old(self).qmap()[id].covers(a, b, c) ==> (#[trigger] final(self).occupant(a, b, c))
                    == old(self).occupant(a, b, c),
    {
        proof {
            lemma_slots_in_range::<A, B, C>();
        }
        let mut k: usize = 0;
        let mut found: usize = 0;
        let mut have: bool = false;
        while k < self.entries.len()
            invariant
                *self == *old(self),
                k <= self.entries@.len(),
                have ==> 0 <= found < self.entries@.len() && self.entries@[found as int].0 == id,
                !have ==> forall|n: int| 0 <= n < k ==> (#[trigger] self.entries@[n]).0 != id,
            decreases self.entries@.len() - k,
        {
            if !have && self.entries[k].0 == id {
                found = k;
                have = true;
            }
            k += 1;
        }
        proof {
            if !have {
                assert(!self.has_key(id));
                assert(false);
            }
            self.lemma_key_at(found as int);
        }
        let ghost q = old(self).qmap()[id];
        let tuples = self.entries[found].1.expand();
        let mut t: usize = 0;
        while t < tuples.len()
            invariant
                slots_in_range::<A, B, C>(),
                old(self).wf(),
                self.entries@ == old(self).entries@,
                self.grid@.len() == old(self).grid@.len(),
                t <= tuples@.len(),
                tuples@ == cart3(q.0@, q.1@, q.2@),
                q == old(self).qmap()[id],
                forall|n: int|
                    0 <= n < t ==> self.grid@[spec_slot(
                        (#[trigger] tuples@[n]).0,
                        tuples@[n].1,
                        tuples@[n].2,
                    )] is None,
                forall|a: A, b: B, c: C|
                    !q.covers(a, b, c) ==> (#[trigger] self.grid@[spec_slot(a, b, c)]) == old(
                        self,
                    ).grid@[spec_slot(a, b, c)],
            decreases tuples@.len() - t,
        {
            let (a, b, c) = tuples[t];
            proof {
                lemma_cart3_membership(q.0@, q.1@, q.2@, tuples@[t as int]);
                assert(cart3(q.0@, q.1@, q.2@).contains(tuples@[t as int]));
                assert(q.covers(a, b, c));
                assert forall|x: A, y: B, z: C| !q.covers(x, y, z) implies spec_slot(x, y, z)
                    != spec_slot(a, b, c) by {
                    lemma_slot_injective(x, y, z, a, b, c);
                }
            }
            let s = slot_of(a, b, c);
            self.grid.set(s, None);
            t += 1;
        }
        proof {
            assert forall|a: A, b: B, c: C| q.covers(a, b, c) implies (#[trigger] self.grid@[
            spec_slot(a, b, c)]) is None by {
                lemma_cart3_membership(q.0@, q.1@, q.2@, (a, b, c));
                let n = cart3(q.0@, q.1@, q.2@).index_of((a, b, c));
                assert(tuples@[n] == (a, b, c));
            }
        }
        let ghost mid_entries = self.entries@;
        self.entries.remove(found);
        proof {
            let pre = *old(self);
            let f = found as int;
            assert(self.entries@ =~= mid_entries.remove(f));
            assert forall|k1: int, k2: int| 0 <= k1 < k2 < self.entries@.len() implies (
            #[trigger] self.entries@[k1]).0 != (#[trigger] self.entries@[k2]).0 by {
                let o1 = if k1 < f {
                    k1
                } else {
                    k1 + 1
                };
                let o2 = if k2 < f {
                    k2
                } else {
                    k2 + 1
                };
                assert(self.entries@[k1] == pre.entries@[o1]);
                assert(self.entries@[k2] == pre.entries@[o2]);
            }
            assert forall|x: Id| true implies #[trigger] self.has_key(x) == (pre.has_key(x) && x
                != id) by {
                if self.has_key(x) {
                    let n = self.key_index(x);
                    let o = if n < f {
                        n
                    } else {
                        n + 1
                    };
                    assert(self.entries@[n] == pre.entries@[o]);
                    assert(pre.entries@[o].0 == x);
                    assert(pre.has_key(x));
                    if x == id {
                        pre.lemma_key_at(o);
                        pre.lemma_key_at(f);
                        assert(o == f);
                        assert(false);
                    }
                }
                if pre.has_key(x) && x != id {
                    let o = pre.key_index(x);
                    assert(pre.entries@[o].0 == x);
                    if o != f {
                        let n = if o < f {
                            o
                        } else {
                            o - 1
                        };
                        assert(self.entries@[n] == pre.entries@[o]);
                        assert(self.has_key(x));
                    } else {
                        assert(pre.entries@[f].0 == id);
                        assert(false);
                    }
                }
            }
            assert forall|x: Id| self.has_key(x) implies self.qmap()[x] == pre.qmap()[x] by {
                let n = self.key_index(x);
                let o = if n < f {
                    n
                } else {
                    n + 1
                };
                assert(self.entries@[n] == pre.entries@[o]);
                assert(pre.entries@[o].0 == x);
                pre.lemma_key_at(o);
            }
            assert(self.qmap() =~= pre.qmap().remove(id));
        }
    }

    /// The identities whose quality matches the selector, with no duplicates
    /// and in no promised order.
    pub fn select_phonemes(&self, query: &PhonemeSelector<A, B, C>) -> (r: Vec<Id>)
        requires
            self.wf(),
        ensures
            forall|id: Id|
                #[trigger] r@.contains(id) <==> (self.qmap().contains_key(id) && self.qmap()[
                id].matches_spec(*query)),
            r@.no_duplicates(),
    {
        let mut r: Vec<Id> = Vec::new();
        let mut k: usize = 0;
        while k < self.entries.len()
            invariant
                self.wf(),
                k <= self.entries@.len(),
                forall|id: Id|
                    #[trigger] r@.contains(id) ==> exists|n: int|
                        0 <= n < k && (#[trigger] self.entries@[n]).0 == id && self.entries@[
                        n].1.matches_spec(*query),
                forall|n: int|
                    0 <= n < k && (#[trigger] self.entries@[n]).1.matches_spec(*query)
                        ==> r@.contains(self.entries@[n].0),
                r@.no_duplicates(),
            decreases self.entries@.len() - k,
        {
            let ghost prev = r@;
            let ghost this_id = self.entries@[k as int].0;
            if self.entries[k].1.meets_restrictions(query) {
                proof {
                    if prev.contains(this_id) {
                        let n = choose|n: int|
                            0 <= n < k && (#[trigger] self.entries@[n]).0 == this_id
                                && self.entries@[n].1.matches_spec(*query);
                        assert(self.entries@[n].0 != self.entries@[k as int].0);
                        assert(false);
                    }
                }
                r.push(self.entries[k].0);
                proof {
                    assert(r@ == prev.push(this_id));
                    assert forall|id: Id| #[trigger] r@.contains(id) implies exists|n: int|
                        0 <= n < k + 1 && (#[trigger] self.entries@[n]).0 == id && self.entries@[
                        n].1.matches_spec(*query) by {
                        let m = choose|m: int| 0 <= m < r@.len() && r@[m] == id;
                        if m < prev.len() {
                            assert(prev.contains(id));
                        } else {
                            assert(id == this_id);
                            assert(0 <= k < k + 1 && self.entries@[k as int].0 == id
                                && self.entries@[k as int].1.matches_spec(*query));
                        }
                    }
                    assert forall|n: int|
                        0 <= n < k + 1 && (#[trigger] self.entries@[n]).1.matches_spec(
                            *query,
                        ) implies r@.contains(self.entries@[n].0) by {
                        if n < k {
                            assert(prev.contains(self.entries@[n].0));
                            let m = choose|m: int|
                                0 <= m < prev.len() && prev[m] == self.entries@[n].0;
                            assert(r@[m] == self.entries@[n].0);
                        } else {
                            assert(r@[r@.len() - 1] == this_id);
                        }
                    }
                    assert forall|m1: int, m2: int|
                        0 <= m1 < m2 < r@.len() implies r@[m1] != r@[m2] by {
                        if m2 == r@.len() - 1 {
                            if r@[m1] == this_id {
                                assert(prev[m1] == this_id);
                                assert(prev.contains(this_id));
                                assert(false);
                            }
                        }
                    }
                }
            } else {
                proof {
                    assert forall|n: int|
                        0 <= n < k + 1 && (#[trigger] self.entries@[n]).1.matches_spec(
                            *query,
                        ) implies r@.contains(self.entries@[n].0) by {
                        assert(n < k);
                    }
                }
            }
            k += 1;
        }
        proof {
            assert forall|id: Id| #[trigger] r@.contains(id) implies (self.qmap().contains_key(id)
                && self.qmap()[id].matches_spec(*query)) by {
                let n = choose|n: int|
                    0 <= n < self.entries@.len() && (#[trigger] self.entries@[n]).0 == id
                        && self.entries@[n].1.matches_spec(*query);
                self.lemma_key_at(n);
            }
            assert forall|id: Id|
                self.qmap().contains_key(id) && self.qmap()[id].matches_spec(
                    *query,
                ) implies #[trigger] r@.contains(id) by {
                let n = self.key_index(id);
                assert(self.entries@[n].0 == id);
                self.lemma_key_at(n);
            }
        }
        r
    }

    /// Whether the identity's quality matches the selector. The identity
    /// must be present: testing an unknown identity is a contract violation.
    pub fn meets_restrictions(&self, id: Id, restriction: &PhonemeSelector<A, B, C>) -> (r: bool)
        requires
            self.wf(),
            self.qmap().contains_key(id),
        ensures
            r == self.qmap()[id].matches_spec(*restriction),
    {
        let mut k: usize = 0;
        while k < self.entries.len()
            invariant
                self.wf(),
                self.qmap().contains_key(id),
                k <= self.entries@.len(),
                forall|n: int| 0 <= n < k ==> (#[trigger] self.entries@[n]).0 != id,
            decreases self.entries@.len() - k,
        {
            if self.entries[k].0 == id {
                proof {
                    self.lemma_key_at(k as int);
                }
                return self.entries[k].1.meets_restrictions(restriction);
            }
            k += 1;
        }
        proof {
            assert(!self.has_key(id));
        }
        unreached()
    }

    /// All stored identities, in entry order.
    pub fn phonemes(&self) -> (r: Vec<Id>)
        ensures
            r@ == self.key_seq(),
    {
        let mut r: Vec<Id> = Vec::new();
        let mut k: usize = 0;
        while k < self.entries.len()
            invariant
                k <= self.entries@.len(),
                r@ =~= self.key_seq().subrange(0, k as int),
            decreases self.entries@.len() - k,
        {
            r.push(self.entries[k].0);
            k += 1;
        }
        proof {
            assert(r@ =~= self.key_seq());
        }
        r
    }

    /// All stored identities with their qualities, in entry order.
    pub fn phoneme_qualities(&self) -> (r: Vec<(Id, PhonemeQuality<A, B, C>)>)
        requires
            self.wf(),
        ensures
            r@.len() == self.key_seq().len(),
            forall|k: int|
                0 <= k < r@.len() ==> {
                    let id = (#[trigger] r@[k]).0;
                    &&& id == self.key_seq()[k]
                    &&& self.qmap().contains_key(id)
                    &&& r@[k].1.0@ == self.qmap()[id].0@
                    &&& r@[k].1.1@ == self.qmap()[id].1@
                    &&& r@[k].1.2@ == self.qmap()[id].2@
                },
    {
        let mut r: Vec<(Id, PhonemeQuality<A, B, C>)> = Vec::new();
        let mut k: usize = 0;
        while k < self.entries.len()
            invariant
                self.wf(),
                k <= self.entries@.len(),
                r@.len() == k,
                forall|n: int|
                    0 <= n < k ==> {
                        let id = (#[trigger] r@[n]).0;
                        &&& id == self.key_seq()[n]
                        &&& self.qmap().contains_key(id)
                        &&& r@[n].1.0@ == self.qmap()[id].0@
                        &&& r@[n].1.1@ == self.qmap()[id].1@
                        &&& r@[n].1.2@ == self.qmap()[id].2@
                    },
            decreases self.entries@.len() - k,
        {
            proof {
                self.lemma_key_at(k as int);
            }
            r.push((self.entries[k].0, self.entries[k].1.duplicate()));
            k += 1;
        }
        r
    }
}


/// An alphabet cannot be rebuilt from persisted entries that are malformed.
#[derive(Clone, Copy, PartialEq, Eq, Structural, Debug)]
pub enum AlphabetError {
    /// A raw index denotes no variant of its axis type.
    InvalidIndex,
    /// Two entries carry the same identity.
    DuplicateIdentity,
}

impl<A: Outer<B, C>, B: Inner<C>, C: Pair> Alphabet<A, B, C> {
    /// The persisted form: the identity-to-quality entries alone, each
    /// quality in its raw index-based form. The tuple grid is not persisted;
    /// it is rebuilt from these entries on load.
    pub fn to_entries(&self) -> (r: Vec<(Id, (Vec<usize>, Vec<usize>, Vec<usize>))>)
        requires
            self.wf(),
        ensures
            r@.len() == self.key_seq().len(),
            forall|k: int|
                0 <= k < r@.len() ==> {
                    let id = (#[trigger] r@[k]).0;
                    &&& id == self.key_seq()[k]
                    &&& self.qmap().contains_key(id)
                    &&& raw_encodes(r@[k].1.0@, self.qmap()[id].0@)
                    &&& raw_encodes(r@[k].1.1@, self.qmap()[id].1@)
                    &&& raw_encodes(r@[k].1.2@, self.qmap()[id].2@)
                },
            forall|id: Id|
                self.qmap().contains_key(id) ==> exists|k: int|
                    0 <= k < r@.len() && (#[trigger] r@[k]).0 == id,
    {
        let mut r: Vec<(Id, (Vec<usize>, Vec<usize>, Vec<usize>))> = Vec::new();
        let mut k: usize = 0;
        while k < self.entries.len()
            invariant
                self.wf(),
                k <= self.entries@.len(),
                r@.len() == k,
                forall|n: int|
                    0 <= n < k ==> {
                        let id = (#[trigger] r@[n]).0;
                        &&& id == self.key_seq()[n]
                        &&& self.qmap().contains_key(id)
                        &&& raw_encodes(r@[n].1.0@, self.qmap()[id].0@)
                        &&& raw_encodes(r@[n].1.1@, self.qmap()[id].1@)
                        &&& raw_encodes(r@[n].1.2@, self.qmap()[id].2@)
                    },
            decreases self.entries@.len() - k,
        {
            proof {
                self.lemma_key_at(k as int);
            }
            let raw = self.entries[k].1.into_raw();
            r.push((self.entries[k].0, raw));
            k += 1;
        }
        proof {
            assert forall|id: Id| self.qmap().contains_key(id) implies exists|k2: int|
                0 <= k2 < r@.len() && (#[trigger] r@[k2]).0 == id by {
                let n = self.key_index(id);
                assert(self.entries@[n].0 == id);
                assert(r@[n].0 == self.key_seq()[n]);
                assert(self.key_seq()[n] == id);
            }
        }
        r
    }

    /// Rebuilds an alphabet from persisted entries by replaying each one
    /// through `add_phoneme`, rejecting data whose raw indices denote no
    /// variant or whose identities collide. Succeeds exactly when every
    /// index is valid and the identities are distinct.
    pub fn from_entries(data: &Vec<(Id, (Vec<usize>, Vec<usize>, Vec<usize>))>) -> (r: Result<
        Self,
        AlphabetError,
    >)
        requires
            total_slots::<A, B, C>() <= usize::MAX as int,
        ensures
            r is Ok <==> ((forall|n: int|
                0 <= n < data@.len() ==> raw_axis_valid::<A>((#[trigger] data@[n]).1.0@)
                    && raw_axis_valid::<B>(data@[n].1.1@) && raw_axis_valid::<C>(data@[n].1.2@))
                && (forall|n1: int, n2: int|
                0 <= n1 < n2 < data@.len() ==> (#[trigger] data@[n1]).0 != (
                #[trigger] data@[n2]).0)),
            r matches Ok(alpha) ==> {
                &&& alpha.wf()
                &&& forall|n: int|
                    0 <= n < data@.len() ==> {
                        let id = (#[trigger] data@[n]).0;
                        &&& alpha.qmap().contains_key(id)
                        &&& raw_encodes(data@[n].1.0@, alpha.qmap()[id].0@)
                        &&& raw_encodes(data@[n].1.1@, alpha.qmap()[id].1@)
                        &&& raw_encodes(data@[n].1.2@, alpha.qmap()[id].2@)
                    }
                &&& forall|id: Id|
                    alpha.qmap().contains_key(id) ==> exists|n: int|
                        0 <= n < data@.len() && (#[trigger] data@[n]).0 == id
                &&& forall|id: Id, a: A, b: B, c: C|
                    alpha.qmap().contains_key(id) && (#[trigger] alpha.qmap()[id].covers(a, b, c))
                        ==> alpha.occupant(a, b, c) is Some
                &&& forall|a: A, b: B, c: C|
                    (#[trigger] alpha.occupant(a, b, c)) matches Some(x)
                        ==> alpha.qmap().contains_key(x) && alpha.qmap()[x].covers(a, b, c)
            },
    {
        let mut alpha = Alphabet::<A, B, C>::new();
        let mut k: usize = 0;
        while k < data.len()
            invariant
                total_slots::<A, B, C>() <= usize::MAX as int,
                k <= data@.len(),
                alpha.wf(),
                forall|n: int|
                    0 <= n < k ==> raw_axis_valid::<A>((#[trigger] data@[n]).1.0@)
                        && raw_axis_valid::<B>(data@[n].1.1@) && raw_axis_valid::<C>(
                        data@[n].1.2@,
                    ),
                forall|n1: int, n2: int|
                    0 <= n1 < n2 < k ==> (#[trigger] data@[n1]).0 != (#[trigger] data@[n2]).0,
                forall|n: int|
                    0 <= n < k ==> {
                        let id = (#[trigger] data@[n]).0;
                        &&& alpha.qmap().contains_key(id)
                        &&& raw_encodes(data@[n].1.0@, alpha.qmap()[id].0@)
                        &&& raw_encodes(data@[n].1.1@, alpha.qmap()[id].1@)
                        &&& raw_encodes(data@[n].1.2@, alpha.qmap()[id].2@)
                    },
                forall|id: Id|
                    alpha.qmap().contains_key(id) ==> exists|n: int|
                        0 <= n < k && (#[trigger] data@[n]).0 == id,
                forall|id: Id, a: A, b: B, c: C|
                    alpha.qmap().contains_key(id) && (#[trigger] alpha.qmap()[id].covers(a, b, c))
                        ==> alpha.occupant(a, b, c) is Some,
                forall|a: A, b: B, c: C|
                    (#[trigger] alpha.occupant(a, b, c)) matches Some(x)
                        ==> alpha.qmap().contains_key(x) && alpha.qmap()[x].covers(a, b, c),
            decreases data@.len() - k,
        {
            let ghost pre = alpha;
            let id = data[k].0;
            let v0 = crate::quality::from_raw::<A>(&data[k].1.0);
            let v1 = crate::quality::from_raw::<B>(&data[k].1.1);
            let v2 = crate::quality::from_raw::<C>(&data[k].1.2);
            let quality = match (v0, v1, v2) {
                (Some(a), Some(b), Some(c)) => PhonemeQuality(a, b, c),
                _ => {
                    return Err(AlphabetError::InvalidIndex);
                },
            };
            match alpha.get_quality(id) {
                Some(_) => {
                    proof {
                        let n = choose|n: int| 0 <= n < k && (#[trigger] data@[n]).0 == id;
                        assert(data@[n].0 == data@[k as int].0);
                    }
                    return Err(AlphabetError::DuplicateIdentity);
                },
                None => {},
            }
            alpha.add_phoneme(id, quality);
            proof {
                assert(alpha.qmap() == pre.qmap().insert(id, quality));
                assert forall|n: int| 0 <= n < k + 1 implies {
                    let id2 = (#[trigger] data@[n]).0;
                    &&& alpha.qmap().contains_key(id2)
                    &&& raw_encodes(data@[n].1.0@, alpha.qmap()[id2].0@)
                    &&& raw_encodes(data@[n].1.1@, alpha.qmap()[id2].1@)
                    &&& raw_encodes(data@[n].1.2@, alpha.qmap()[id2].2@)
                } by {
                    let id2 = data@[n].0;
                    if n < k {
                        if id2 == id {
                            assert(pre.qmap().contains_key(id2));
                            assert(false);
                        }
                        assert(alpha.qmap()[id2] == pre.qmap()[id2]);
                    } else {
                        assert(alpha.qmap()[id] == quality);
                    }
                }
                assert forall|id2: Id, a: A, b: B, c: C|
                    alpha.qmap().contains_key(id2) && (#[trigger] alpha.qmap()[id2].covers(
                        a,
                        b,
                        c,
                    )) implies alpha.occupant(a, b, c) is Some by {
                    if id2 == id {
                        assert(alpha.occupant(a, b, c) == Some(id));
                    } else {
                        assert(pre.qmap().contains_key(id2));
                        assert(pre.qmap()[id2].covers(a, b, c));
                        assert(pre.occupant(a, b, c) is Some);
                        if quality.covers(a, b, c) {
                            assert(alpha.occupant(a, b, c) == Some(id));
                        } else {
                            assert(alpha.occupant(a, b, c) == pre.occupant(a, b, c));
                        }
                    }
                }
                assert forall|a: A, b: B, c: C|
                    (#[trigger] alpha.occupant(a, b, c)) matches Some(x)
                        ==> alpha.qmap().contains_key(x) && alpha.qmap()[x].covers(a, b, c) by {
                    if quality.covers(a, b, c) {
                        assert(alpha.occupant(a, b, c) == Some(id));
                        assert(alpha.qmap()[id] == quality);
                    } else {
                        assert(alpha.occupant(a, b, c) == pre.occupant(a, b, c));
                        if alpha.occupant(a, b, c) is Some {
                            let x = alpha.occupant(a, b, c).unwrap();
                            assert(pre.occupant(a, b, c) matches Some(y) ==> pre.qmap(
                            ).contains_key(y) && pre.qmap()[y].covers(a, b, c));
                            assert(pre.qmap().contains_key(x));
                            if x == id {
                                assert(false);
                            }
                            assert(alpha.qmap()[x] == pre.qmap()[x]);
                        }
                    }
                }
            }
            k += 1;
        }
        Ok(alpha)
    }
}

/// Replaying an alphabet's persisted entries restores its observable
/// state: when a consistent alphabet is written out as its entries and an
/// alphabet is rebuilt from them, the rebuilt alphabet stores the same
/// identities with the same qualities, answers every exact lookup as the
/// original did, and is itself consistent.
pub proof fn lemma_entries_round_trip<A: Outer<B, C>, B: Inner<C>, C: Pair>(
    pre: Alphabet<A, B, C>,
    post: Alphabet<A, B, C>,
    data: Seq<(Id, (Vec<usize>, Vec<usize>, Vec<usize>))>,
)
    requires
        pre.consistent(),
        // What writing the entries of `pre` guarantees of `data`.
        forall|k: int|
            0 <= k < data.len() ==> {
                let id = (#[trigger] data[k]).0;
                &&& pre.qmap().contains_key(id)
                &&& raw_encodes(data[k].1.0@, pre.qmap()[id].0@)
                &&& raw_encodes(data[k].1.1@, pre.qmap()[id].1@)
                &&& raw_encodes(data[k].1.2@, pre.qmap()[id].2@)
            },
        forall|id: Id|
            pre.qmap().contains_key(id) ==> exists|k: int|
                0 <= k < data.len() && (#[trigger] data[k]).0 == id,
        // What rebuilding `post` from `data` guarantees.
        forall|k: int|
            0 <= k < data.len() ==> {
                let id = (#[trigger] data[k]).0;
                &&& post.qmap().contains_key(id)
                &&& raw_encodes(data[k].1.0@, post.qmap()[id].0@)
                &&& raw_encodes(data[k].1.1@, post.qmap()[id].1@)
                &&& raw_encodes(data[k].1.2@, post.qmap()[id].2@)
            },
        forall|id: Id|
            post.qmap().contains_key(id) ==> exists|k: int|
                0 <= k < data.len() && (#[trigger] data[k]).0 == id,
        forall|id: Id, a: A, b: B, c: C|
            post.qmap().contains_key(id) && (#[trigger] post.qmap()[id].covers(a, b, c))
                ==> post.occupant(a, b, c) is Some,
        forall|a: A, b: B, c: C|
            (#[trigger] post.occupant(a, b, c)) matches Some(x) ==> post.qmap().contains_key(x)
                && post.qmap()[x].covers(a, b, c),
    ensures
        forall|id: Id|
            #[trigger] post.qmap().contains_key(id) <==> pre.qmap().contains_key(id),
        forall|id: Id|
            #[trigger] post.qmap().contains_key(id) ==> post.qmap()[id].0@ == pre.qmap()[id].0@
                && post.qmap()[id].1@ == pre.qmap()[id].1@ && post.qmap()[id].2@ == pre.qmap()[
                id].2@,
        forall|a: A, b: B, c: C| #[trigger] post.occupant(a, b, c) == pre.occupant(a, b, c),
        post.consistent(),
{
    assert forall|id: Id|
        #[trigger] post.qmap().contains_key(id) <==> pre.qmap().contains_key(id) by {
        if post.qmap().contains_key(id) {
            let k = choose|k: int| 0 <= k < data.len() && (#[trigger] data[k]).0 == id;
            assert(pre.qmap().contains_key(data[k].0));
        }
        if pre.qmap().contains_key(id) {
            let k = choose|k: int| 0 <= k < data.len() && (#[trigger] data[k]).0 == id;
            assert(post.qmap().contains_key(data[k].0));
        }
    }
    assert forall|id: Id| #[trigger] post.qmap().contains_key(id) implies post.qmap()[id].0@
        == pre.qmap()[id].0@ && post.qmap()[id].1@ == pre.qmap()[id].1@ && post.qmap()[id].2@
        == pre.qmap()[id].2@ by {
        let k = choose|k: int| 0 <= k < data.len() && (#[trigger] data[k]).0 == id;
        lemma_raw_agreement(data[k].1.0@, pre.qmap()[id].0@, post.qmap()[id].0@);
        lemma_raw_agreement(data[k].1.1@, pre.qmap()[id].1@, post.qmap()[id].1@);
        lemma_raw_agreement(data[k].1.2@, pre.qmap()[id].2@, post.qmap()[id].2@);
    }
    assert forall|a: A, b: B, c: C| #[trigger] post.occupant(a, b, c) == pre.occupant(a, b, c) by {
        match post.occupant(a, b, c) {
            Some(x) => {
                assert(post.qmap().contains_key(x) && post.qmap()[x].covers(a, b, c));
                assert(pre.qmap()[x].covers(a, b, c));
                assert(pre.occupant(a, b, c) == Some(x));
            },
            None => {
                match pre.occupant(a, b, c) {
                    Some(x) => {
                        assert(pre.qmap().contains_key(x) && pre.qmap()[x].covers(a, b, c));
                        assert(post.qmap()[x].covers(a, b, c));
                        assert(post.occupant(a, b, c) is Some);
                        assert(false);
                    },
                    None => {},
                }
            },
        }
    }
    assert forall|id: Id, a: A, b: B, c: C|
        post.qmap().contains_key(id) && (#[trigger] post.qmap()[id].covers(a, b, c)) implies
        post.occupant(a, b, c) == Some(id) by {
        assert(pre.qmap()[id].covers(a, b, c));
        assert(pre.occupant(a, b, c) == Some(id));
    }
}

/// Two value lists that share one raw encoding are equal.
proof fn lemma_raw_agreement<T: Category>(raw: Seq<usize>, orig: Seq<T>, back: Seq<T>)
    requires
        raw_encodes(raw, orig),
        raw_encodes(raw, back),
    ensures
        back == orig,
{
    assert forall|k: int| 0 <= k < orig.len() implies (#[trigger] back[k]).idx()
        == orig[k].idx() by {
        assert(((raw[k]) as nat) == orig[k].idx());
        assert(((raw[k]) as nat) == back[k].idx());
    }
    crate::quality::lemma_raw_round_trip(orig, back);
}

/// Adding a fresh phoneme at unoccupied tuples preserves the consistency
/// invariant: in the new alphabet, too, every covered tuple maps back to
/// its identity and every occupied tuple is covered by its occupant.
pub proof fn lemma_add_preserves_consistency<A: Outer<B, C>, B: Inner<C>, C: Pair>(
    pre: Alphabet<A, B, C>,
    post: Alphabet<A, B, C>,
    id: Id,
    quality: PhonemeQuality<A, B, C>,
)
    requires
        pre.consistent(),
        !pre.qmap().contains_key(id),
        forall|a: A, b: B, c: C| quality.covers(a, b, c) ==> #[trigger] pre.occupant(a, b, c) is None,
        post.qmap() == pre.qmap().insert(id, quality),
        forall|a: A, b: B, c: C|
            quality.covers(a, b, c) ==> (#[trigger] post.occupant(a, b, c)) == Some(id),
        forall|a: A, b: B, c: C|
            !quality.covers(a, b, c) ==> (#[trigger] post.occupant(a, b, c)) == pre.occupant(
                a,
                b,
                c,
            ),
    ensures
        post.consistent(),
{
    assert forall|id2: Id, a: A, b: B, c: C|
        post.qmap().contains_key(id2) && (#[trigger] post.qmap()[id2].covers(a, b, c)) implies
        post.occupant(a, b, c) == Some(id2) by {
        if id2 == id {
            assert(post.qmap()[id] == quality);
            assert(post.occupant(a, b, c) == Some(id));
        } else {
            assert(post.qmap()[id2] == pre.qmap()[id2]);
            assert(pre.qmap()[id2].covers(a, b, c));
            assert(pre.occupant(a, b, c) == Some(id2));
            if quality.covers(a, b, c) {
                assert(pre.occupant(a, b, c) is None);
                assert(false);
            }
            assert(post.occupant(a, b, c) == pre.occupant(a, b, c));
        }
    }
    assert forall|a: A, b: B, c: C|
        (#[trigger] post.occupant(a, b, c)) matches Some(id2) ==> post.qmap().contains_key(id2)
            && post.qmap()[id2].covers(a, b, c) by {
        if quality.covers(a, b, c) {
            assert(post.occupant(a, b, c) == Some(id));
            assert(post.qmap()[id] == quality);
        } else {
            assert(post.occupant(a, b, c) == pre.occupant(a, b, c));
            if post.occupant(a, b, c) is Some {
                let x = post.occupant(a, b, c).unwrap();
                assert(pre.occupant(a, b, c) matches Some(y) ==> pre.qmap().contains_key(y)
                    && pre.qmap()[y].covers(a, b, c));
                assert(pre.qmap().contains_key(x) && pre.qmap()[x].covers(a, b, c));
                assert(x != id);
                assert(post.qmap()[x] == pre.qmap()[x]);
            }
        }
    }
}

/// Removing a phoneme preserves the consistency invariant.
pub proof fn lemma_remove_preserves_consistency<A: Outer<B, C>, B: Inner<C>, C: Pair>(
    pre: Alphabet<A, B, C>,
    post: Alphabet<A, B, C>,
    id: Id,
)
    requires
        pre.consistent(),
        pre.qmap().contains_key(id),
        post.qmap() == pre.qmap().remove(id),
        forall|a: A, b: B, c: C|
            pre.qmap()[id].covers(a, b, c) ==> (#[trigger] post.occupant(a, b, c)) is None,
        forall|a: A, b: B, c: C|
            !pre.qmap()[id].covers(a, b, c) ==> (#[trigger] post.occupant(a, b, c))
                == pre.occupant(a, b, c),
    ensures
        post.consistent(),
{
    assert forall|id2: Id, a: A, b: B, c: C|
        post.qmap().contains_key(id2) && (#[trigger] post.qmap()[id2].covers(a, b, c)) implies
        post.occupant(a, b, c) == Some(id2) by {
        assert(id2 != id);
        assert(post.qmap()[id2] == pre.qmap()[id2]);
        assert(pre.qmap()[id2].covers(a, b, c));
        assert(pre.occupant(a, b, c) == Some(id2));
        if pre.qmap()[id].covers(a, b, c) {
            assert(pre.occupant(a, b, c) == Some(id));
            assert(false);
        }
        assert(post.occupant(a, b, c) == pre.occupant(a, b, c));
    }
    assert forall|a: A, b: B, c: C|
        (#[trigger] post.occupant(a, b, c)) matches Some(id2) ==> post.qmap().contains_key(id2)
            && post.qmap()[id2].covers(a, b, c) by {
        if post.occupant(a, b, c) is Some {
            if pre.qmap()[id].covers(a, b, c) {
                assert(post.occupant(a, b, c) is None);
                assert(false);
            }
            assert(post.occupant(a, b, c) == pre.occupant(a, b, c));
            let x = post.occupant(a, b, c).unwrap();
            assert(pre.occupant(a, b, c) matches Some(y) ==> pre.qmap().contains_key(y)
                && pre.qmap()[y].covers(a, b, c));
            assert(pre.qmap().contains_key(x) && pre.qmap()[x].covers(a, b, c));
            if x == id {
                assert(pre.qmap()[id].covers(a, b, c));
                assert(false);
            }
            assert(post.qmap()[x] == pre.qmap()[x]);
        }
    }
}

/// Adding a fresh phoneme at unoccupied tuples and then removing it leaves
/// the alphabet in the observable state it started from: the same
/// identity-to-quality map and the same occupant at every feature tuple.
pub proof fn lemma_add_remove_restores<A: Outer<B, C>, B: Inner<C>, C: Pair>(
    pre: Alphabet<A, B, C>,
    mid: Alphabet<A, B, C>,
    post: Alphabet<A, B, C>,
    id: Id,
    quality: PhonemeQuality<A, B, C>,
)
    requires
        !pre.qmap().contains_key(id),
        forall|a: A, b: B, c: C| quality.covers(a, b, c) ==> #[trigger] pre.occupant(a, b, c) is None,
        mid.qmap() == pre.qmap().insert(id, quality),
        forall|a: A, b: B, c: C|
            quality.covers(a, b, c) ==> (#[trigger] mid.occupant(a, b, c)) == Some(id),
        forall|a: A, b: B, c: C|
            !quality.covers(a, b, c) ==> (#[trigger] mid.occupant(a, b, c)) == pre.occupant(
                a,
                b,
                c,
            ),
        post.qmap() == mid.qmap().remove(id),
        forall|a: A, b: B, c: C|
            mid.qmap()[id].covers(a, b, c) ==> (#[trigger] post.occupant(a, b, c)) is None,
        forall|a: A, b: B, c: C|
            !mid.qmap()[id].covers(a, b, c) ==> (#[trigger] post.occupant(a, b, c))
                == mid.occupant(a, b, c),
    ensures
        post.qmap() == pre.qmap(),
        forall|a: A, b: B, c: C| #[trigger] post.occupant(a, b, c) == pre.occupant(a, b, c),
{
    assert(mid.qmap()[id] == quality);
    assert(post.qmap() =~= pre.qmap());
    assert forall|a: A, b: B, c: C| #[trigger] post.occupant(a, b, c) == pre.occupant(a, b, c) by {
        if quality.covers(a, b, c) {
            assert(post.occupant(a, b, c) is None);
            assert(pre.occupant(a, b, c) is None);
        } else {
            assert(post.occupant(a, b, c) == mid.occupant(a, b, c));
            assert(mid.occupant(a, b, c) == pre.occupant(a, b, c));
        }
    }
}

/// Creates a phoneme from a symbol and phone, inserts it into the store,
/// stamps the identity the store assigned, and records it in the alphabet
/// under the given quality.
pub fn add_symbol_to_alphabet<A: Outer<B, C>, B: Inner<C>, C: Pair>(
    phonemes: &mut PhonemeStore,
    alphabet: &mut Alphabet<A, B, C>,
    symbol: &str,
    phone: Phone,
    quality: PhonemeQuality<A, B, C>,
) -> (r: Id)
    requires
        old(alphabet).wf(),
    ensures
        final(alphabet).wf(),
        !old(phonemes).contains_id(r),
        final(phonemes).contains_id(r),
        final(phonemes).phoneme_at(r).symbol@ == symbol@,
        final(phonemes).phoneme_at(r).grapheme@ == Seq::<char>::empty(),
        final(phonemes).phoneme_at(r).phone == phone,
        final(phonemes).phoneme_at(r).identified(),
        final(phonemes).phoneme_at(r).spec_id() == r,
        forall|id: Id|
            id != r ==> #[trigger] final(phonemes).contains_id(id) == old(phonemes).contains_id(id),
        forall|id: Id|
            id != r && old(phonemes).contains_id(id) ==> #[trigger] final(phonemes).phoneme_at(id)
                == old(phonemes).phoneme_at(id),
        final(alphabet).qmap() == old(alphabet).qmap().insert(r, quality),
        forall|a: A, b: B, c: C|
            quality.covers(a, b, c) ==> (#[trigger] final(alphabet).occupant(a, b, c)) == Some(r),
        forall|a: A, b: B, c: C|
            !quality.covers(a, b, c) ==> (#[trigger] final(alphabet).occupant(a, b, c)) == old(
                alphabet,
            ).occupant(a, b, c),
{
    // The store assigns the identity first; the phoneme is then built,
    // stamped with that identity, and put in its slot.
    let id = phonemes.insert(Phoneme::new(symbol, phone.duplicate()));
    let mut stamped = Phoneme::new(symbol, phone);
    stamped.set_id(id);
    phonemes.replace(id, stamped);
    alphabet.add_phoneme(id, quality);
    id
}


} // verus!
