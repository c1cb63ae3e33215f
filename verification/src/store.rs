//! A generation-checked arena for phonemes. The store is the sole owner of
//! `Phoneme` values; alphabets and sound-change rules hold `Id` references
//! only. A removed identity is never honoured again: its slot's generation is
//! retired, so stale references fail the lookup instead of aliasing a later
//! phoneme.

use vstd::prelude::*;

use crate::phoneme::Phoneme;

verus! {

/// A stable phoneme identity: a slot index paired with the generation the
/// slot carried when the phoneme was inserted.
#[derive(Clone, Copy, PartialEq, Eq, Structural, Hash, Debug)]
pub struct Id {
    index: usize,
    generation: u64,
}

impl Id {
    /// The slot index, for persistence.
    pub closed spec fn spec_index(self) -> int {
        self.index as int
    }

    /// The slot generation, for persistence.
    pub closed spec fn spec_generation(self) -> u64 {
        self.generation
    }

    /// The raw parts of this identity, the persisted representation.
    pub fn parts(&self) -> (r: (usize, u64))
        ensures
            r.0 as int == self.spec_index(),
            r.1 == self.spec_generation(),
    {
        (self.index, self.generation)
    }

    /// Rebuilds an identity from its persisted parts.
    pub fn from_parts(index: usize, generation: u64) -> (r: Id)
        ensures
            r.spec_index() == index as int,
            r.spec_generation() == generation,
    {
        Id { index, generation }
    }
}

/// The once-only identity stamp a phoneme carries: empty until the store
/// assigns an identity, which is then recorded exactly once.
#[derive(Clone, Copy)]
pub struct IdStamp {
    id: Id,
    stamped: bool,
}

impl IdStamp {
    /// Whether an identity has been recorded.
    pub closed spec fn is_stamped(self) -> bool {
        self.stamped
    }

    /// The recorded identity.
    pub closed spec fn spec_id(self) -> Id
        recommends
            self.is_stamped(),
    {
        self.id
    }

    /// Whether an identity has been recorded.
    pub fn is_stamped_exec(&self) -> (r: bool)
        ensures
            r == self.is_stamped(),
    {
        self.stamped
    }

    /// An empty stamp.
    pub fn unstamped() -> (r: IdStamp)
        ensures
            !r.is_stamped(),
    {
        IdStamp { id: Id { index: 0, generation: 0 }, stamped: false }
    }

    /// Records an identity. Recording twice is a contract violation.
    pub fn stamp(&mut self, id: Id)
        requires
            !old(self).is_stamped(),
        ensures
            final(self).is_stamped(),
            final(self).spec_id() == id,
    {
        self.id = id;
        self.stamped = true;
    }

    /// Reads the recorded identity. Reading an empty stamp is a contract
    /// violation.
    pub fn read(&self) -> (r: Id)
        requires
            self.is_stamped(),
        ensures
            r == self.spec_id(),
    {
        self.id
    }
}

/// The keyed arena that owns every phoneme.
pub struct PhonemeStore {
    slots: Vec<(u64, Option<Phoneme>)>,
}

impl PhonemeStore {
    /// Whether `id` currently denotes a live phoneme.
    pub closed spec fn contains_id(self, id: Id) -> bool {
        &&& id.index < self.slots@.len()
        &&& self.slots@[id.index as int].0 == id.generation
        &&& self.slots@[id.index as int].1 is Some
    }

    /// The phoneme a live identity denotes.
    pub closed spec fn phoneme_at(self, id: Id) -> Phoneme
        recommends
            self.contains_id(id),
    {
        self.slots@[id.index as int].1.unwrap()
    }

    /// Creates an empty store.
    pub fn new() -> (r: PhonemeStore)
        ensures
            forall|id: Id| !r.contains_id(id),
    {
        PhonemeStore { slots: Vec::new() }
    }

    /// Inserts a phoneme and returns its new identity. Every other identity
    /// is left untouched, and the returned identity is fresh: it did not
    /// denote anything before the call.
    pub fn insert(&mut self, phoneme: Phoneme) -> (r: Id)
        ensures
            !old(self).contains_id(r),
            final(self).contains_id(r),
            final(self).phoneme_at(r) == phoneme,
            forall|id: Id|
                id != r ==> #[trigger] final(self).contains_id(id) == old(self).contains_id(id),
            forall|id: Id|
                id != r && old(self).contains_id(id) ==> #[trigger] final(self).phoneme_at(id)
                    == old(self).phoneme_at(id),
    {
        let mut reusable: Option<usize> = None;
        let mut i: usize = 0;
        while i < self.slots.len()
            invariant
                i <= self.slots@.len(),
                *self == *old(self),
                match reusable {
                    Some(k) => k < self.slots@.len() && self.slots@[k as int].1 is None
                        && self.slots@[k as int].0 < u64::MAX,
                    None => true,
                },
            decreases self.slots@.len() - i,
        {
            if reusable.is_none() && self.slots[i].1.is_none() && self.slots[i].0 < u64::MAX {
                reusable = Some(i);
            }
            i += 1;
        }
        match reusable {
            Some(k) => {
                let generation = self.slots[k].0;
                self.slots.set(k, (generation, Some(phoneme)));
                Id { index: k, generation }
            },
            None => {
                let r = Id { index: self.slots.len(), generation: 0 };
                self.slots.push((0, Some(phoneme)));
                r
            },
        }
    }

    /// Returns the phoneme a live identity denotes, or `None` for a stale or
    /// unknown identity.
    pub fn get(&self, id: Id) -> (r: Option<&Phoneme>)
        ensures
            match r {
                Some(p) => self.contains_id(id) && *p == self.phoneme_at(id),
                None => !self.contains_id(id),
            },
    {
        if id.index < self.slots.len() {
            let slot = &self.slots[id.index];
            if slot.0 == id.generation {
                slot.1.as_ref()
            } else {
                None
            }
        } else {
            None
        }
    }

    /// Replaces the phoneme a live identity denotes.
    pub fn replace(&mut self, id: Id, phoneme: Phoneme)
        requires
            old(self).contains_id(id),
        ensures
            final(self).contains_id(id),
            final(self).phoneme_at(id) == phoneme,
            forall|other: Id|
                other != id ==> #[trigger] final(self).contains_id(other) == old(
                    self,
                ).contains_id(other),
            forall|other: Id|
                other != id && old(self).contains_id(other) ==> #[trigger] final(self).phoneme_at(
                    other,
                ) == old(self).phoneme_at(other),
    {
        let generation = self.slots[id.index].0;
        self.slots.set(id.index, (generation, Some(phoneme)));
    }

    /// Removes a live identity and retires its slot's generation, so that the
    /// identity can never be honoured again.
    pub fn remove(&mut self, id: Id)
        requires
            old(self).contains_id(id),
        ensures
            !final(self).contains_id(id),
            forall|other: Id|
                other != id ==> #[trigger] final(self).contains_id(other) == old(
                    self,
                ).contains_id(other),
            forall|other: Id|
                other != id && old(self).contains_id(other) ==> #[trigger] final(self).phoneme_at(
                    other,
                ) == old(self).phoneme_at(other),
    {
        let generation = self.slots[id.index].0;
        let next_generation = if generation < u64::MAX {
            generation + 1
        } else {
            generation
        };
        self.slots.set(id.index, (next_generation, None));
    }

    /// The number of slots ever allocated.
    pub closed spec fn slot_count(self) -> int {
        self.slots@.len() as int
    }

    /// The generation and occupant of slot `k`.
    pub closed spec fn slot_at(self, k: int) -> (u64, Option<Phoneme>) {
        self.slots@[k]
    }

    /// An identity is live exactly when its slot exists, carries its
    /// generation, and is occupied; the occupant is the identity's phoneme.
    pub proof fn lemma_slot_views(self, id: Id)
        ensures
            self.contains_id(id) <==> (0 <= id.spec_index() < self.slot_count() && self.slot_at(
                id.spec_index(),
            ).0 == id.spec_generation() && self.slot_at(id.spec_index()).1 is Some),
            self.contains_id(id) ==> self.phoneme_at(id) == self.slot_at(
                id.spec_index(),
            ).1.unwrap(),
    {
    }

    /// The persisted form of the store: every slot in order, with its
    /// generation and an observably equal copy of its occupant.
    pub fn export_slots(&self) -> (r: Vec<(u64, Option<Phoneme>)>)
        ensures
            r@.len() == self.slot_count(),
            forall|k: int|
                0 <= k < r@.len() ==> {
                    let slot = self.slot_at(k);
                    &&& (#[trigger] r@[k]).0 == slot.0
                    &&& (r@[k].1 is Some <==> slot.1 is Some)
                    &&& (r@[k].1 is Some ==> r@[k].1.unwrap().eqv(slot.1.unwrap()))
                },
    {
        let mut r: Vec<(u64, Option<Phoneme>)> = Vec::new();
        let mut k: usize = 0;
        while k < self.slots.len()
            invariant
                k <= self.slots@.len(),
                r@.len() == k,
                forall|n: int|
                    0 <= n < k ==> {
                        let slot = self.slot_at(n);
                        &&& (#[trigger] r@[n]).0 == slot.0
                        &&& (r@[n].1 is Some <==> slot.1 is Some)
                        &&& (r@[n].1 is Some ==> r@[n].1.unwrap().eqv(slot.1.unwrap()))
                    },
            decreases self.slots@.len() - k,
        {
            let slot = &self.slots[k];
            let copy = match &slot.1 {
                Some(p) => Some(p.duplicate()),
                None => None,
            };
            r.push((slot.0, copy));
            k += 1;
        }
        r
    }

    /// Rebuilds a store from its persisted slots, restoring every identity
    /// exactly as exported.
    pub fn from_slots(slots: Vec<(u64, Option<Phoneme>)>) -> (r: PhonemeStore)
        ensures
            r.slot_count() == slots@.len(),
            forall|k: int| 0 <= k < slots@.len() ==> #[trigger] r.slot_at(k) == slots@[k],
    {
        PhonemeStore { slots }
    }
}

} // verus!
