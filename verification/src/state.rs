//! The top-level application state: the phoneme store, the dialect tree
//! with its languages, the fixed IPA reference language, and the transient
//! selection buffer, together with the verified mutation entry points the
//! presentation shell drives.

use vstd::prelude::*;

use crate::alphabet::add_symbol_to_alphabet;
use crate::category::{Articulation, Constriction, Place, Region, Rounding, Voicing};
use crate::dialect::DialectTree;
use crate::language::{init_ipa, Language};
use crate::phoneme::{Phone, Phoneme};
use crate::quality::PhonemeQuality;
use crate::sound_change::{commit_sound_change, delete_sound_change, selection_raw_valid};
use crate::store::{Id, PhonemeStore};
use crate::ui::Selection;

verus! {

/// The whole tool's state.
pub struct State {
    pub phonemes: PhonemeStore,
    pub tree: DialectTree,
    pub ipa: Language,
    pub invalid: Phoneme,
    pub space: Phoneme,
    pub buffer: Option<Selection>,
    pub buffer_state: bool,
}

impl State {
    /// The tree is structurally sound and every language in it, as well as
    /// the reference language, is well-formed.
    pub open spec fn wf(self) -> bool {
        &&& self.tree.wf()
        &&& forall|n: int|
            0 <= n < self.tree.node_count() ==> (#[trigger] self.tree.language_of(n)).wf()
        &&& self.ipa.wf()
    }
}

impl Default for State {
    /// A fresh project: an empty store populated with the IPA chart, a tree
    /// holding one untitled root language, and an empty selection buffer.
    fn default() -> (r: State)
        ensures
            r.wf(),
            r.tree.node_count() == 1,
            r.tree.children_of(0).len() == 0,
            r.tree.active_spec() == 0,
            r.ipa.name@ == "IPA"@,
            r.buffer is None,
            !r.buffer_state,
    {
        let mut phonemes = PhonemeStore::new();
        let ipa = init_ipa(&mut phonemes);
        let tree = DialectTree::new(Language::default());
        State {
            phonemes,
            tree,
            ipa,
            invalid: Phoneme::new("0", Phone::consonant()),
            space: Phoneme::new(" ", Phone::consonant()),
            buffer: None,
            buffer_state: false,
        }
    }
}

impl State {
    /// Adds a new dialect with default empty inventories under `parent` and
    /// returns its node index.
    pub fn add_dialect(&mut self, parent: usize) -> (child: usize)
        requires
            old(self).wf(),
            parent < old(self).tree.node_count(),
        ensures
            final(self).wf(),
            child as int == old(self).tree.node_count(),
            final(self).tree.node_count() == old(self).tree.node_count() + 1,
            final(self).tree.parent_of(child as int) == Some(parent as int),
            final(self).tree.children_of(parent as int) == old(self).tree.children_of(
                parent as int,
            ).push(child as int),
            final(self).tree.children_of(child as int).len() == 0,
            final(self).tree.language_of(child as int).name@ == "Untitled"@,
            final(self).tree.language_of(child as int).sound_changes@.len() == 0,
            forall|m: int|
                0 <= m < old(self).tree.node_count() && m != parent as int
                    ==> #[trigger] final(self).tree.children_of(m) == old(self).tree.children_of(
                    m,
                ),
            forall|m: int|
                0 <= m < old(self).tree.node_count() ==> #[trigger] final(self).tree.language_of(m)
                    == old(self).tree.language_of(m),
            final(self).phonemes == old(self).phonemes,
    {
        self.tree.add_dialect(parent, Language::default())
    }

    /// Adopts a phoneme from the IPA chart into the consonant inventory of
    /// the dialect at `node`: a new phoneme with the given symbol is created
    /// in the store and registered under the given quality.
    pub fn adopt_consonant(
        &mut self,
        node: usize,
        symbol: &str,
        phone: Phone,
        quality: PhonemeQuality<Articulation, Region, Voicing>,
    ) -> (r: Id)
        requires
            old(self).wf(),
            node < old(self).tree.node_count(),
        ensures
            final(self).wf(),
            final(self).tree.node_count() == old(self).tree.node_count(),
            final(self).phonemes.contains_id(r),
            !old(self).phonemes.contains_id(r),
            final(self).phonemes.phoneme_at(r).symbol@ == symbol@,
            final(self).phonemes.phoneme_at(r).phone == phone,
            final(self).tree.language_of(node as int).consonants.qmap() == old(
                self,
            ).tree.language_of(node as int).consonants.qmap().insert(r, quality),
            final(self).tree.language_of(node as int).vowels == old(self).tree.language_of(
                node as int,
            ).vowels,
            forall|m: int|
                0 <= m < old(self).tree.node_count() && m != node as int ==> #[trigger] final(self).tree.language_of(m) == old(self).tree.language_of(m),
    {
        let mut language = Language::default();
        self.tree.swap_language(node, &mut language);
        let id = add_symbol_to_alphabet(
            &mut self.phonemes,
            &mut language.consonants,
            symbol,
            phone,
            quality,
        );
        self.tree.swap_language(node, &mut language);
        id
    }

    /// Adopts a phoneme from the IPA chart into the vowel inventory of the
    /// dialect at `node`.
    pub fn adopt_vowel(
        &mut self,
        node: usize,
        symbol: &str,
        phone: Phone,
        quality: PhonemeQuality<Constriction, Place, Rounding>,
    ) -> (r: Id)
        requires
            old(self).wf(),
            node < old(self).tree.node_count(),
        ensures
            final(self).wf(),
            final(self).tree.node_count() == old(self).tree.node_count(),
            final(self).phonemes.contains_id(r),
            !old(self).phonemes.contains_id(r),
            final(self).phonemes.phoneme_at(r).symbol@ == symbol@,
            final(self).phonemes.phoneme_at(r).phone == phone,
            final(self).tree.language_of(node as int).vowels.qmap() == old(self).tree.language_of(
                node as int,
            ).vowels.qmap().insert(r, quality),
            final(self).tree.language_of(node as int).consonants == old(self).tree.language_of(
                node as int,
            ).consonants,
            forall|m: int|
                0 <= m < old(self).tree.node_count() && m != node as int ==> #[trigger] final(self).tree.language_of(m) == old(self).tree.language_of(m),
    {
        let mut language = Language::default();
        self.tree.swap_language(node, &mut language);
        let id = add_symbol_to_alphabet(
            &mut self.phonemes,
            &mut language.vowels,
            symbol,
            phone,
            quality,
        );
        self.tree.swap_language(node, &mut language);
        id
    }

    /// Commits a drafted sound change to the dialect at `node` and returns
    /// the identity of the newly owned destination phoneme.
    pub fn commit_rule(&mut self, node: usize, src: Id, dst: &Selection) -> (r: Id)
        requires
            old(self).wf(),
            node < old(self).tree.node_count(),
            selection_raw_valid(*dst),
        ensures
            final(self).wf(),
            final(self).tree.node_count() == old(self).tree.node_count(),
            final(self).phonemes.contains_id(r),
            !old(self).phonemes.contains_id(r),
            final(self).tree.language_of(node as int).sound_changes@.len() == old(
                self,
            ).tree.language_of(node as int).sound_changes@.len() + 1,
            final(self).tree.language_of(node as int).sound_changes@.last().src == src,
            final(self).tree.language_of(node as int).sound_changes@.last().dst == r,
            forall|m: int|
                0 <= m < old(self).tree.node_count() && m != node as int ==> #[trigger] final(self).tree.language_of(m) == old(self).tree.language_of(m),
    {
        let mut language = Language::default();
        self.tree.swap_language(node, &mut language);
        let id = commit_sound_change(&mut language, &mut self.phonemes, src, dst);
        self.tree.swap_language(node, &mut language);
        id
    }

    /// Deletes the rule at `index` from the dialect at `node`, removing its
    /// destination phoneme from the dialect's inventory and from the store.
    pub fn delete_rule(&mut self, node: usize, index: usize)
        requires
            old(self).wf(),
            node < old(self).tree.node_count(),
            index < old(self).tree.language_of(node as int).sound_changes@.len(),
            old(self).phonemes.contains_id(
                old(self).tree.language_of(node as int).sound_changes@[index as int].dst,
            ),
            old(self).phonemes.phoneme_at(
                old(self).tree.language_of(node as int).sound_changes@[index as int].dst,
            ).phone is Consonant ==> old(self).tree.language_of(
                node as int,
            ).consonants.qmap().contains_key(
                old(self).tree.language_of(node as int).sound_changes@[index as int].dst,
            ),
            !(old(self).phonemes.phoneme_at(
                old(self).tree.language_of(node as int).sound_changes@[index as int].dst,
            ).phone is Consonant) ==> old(self).tree.language_of(
                node as int,
            ).vowels.qmap().contains_key(
                old(self).tree.language_of(node as int).sound_changes@[index as int].dst,
            ),
        ensures
            final(self).wf(),
            final(self).tree.node_count() == old(self).tree.node_count(),
            final(self).tree.language_of(node as int).sound_changes@ == old(self).tree.language_of(
                node as int,
            ).sound_changes@.remove(index as int),
            !final(self).phonemes.contains_id(
                old(self).tree.language_of(node as int).sound_changes@[index as int].dst,
            ),
            forall|m: int|
                0 <= m < old(self).tree.node_count() && m != node as int ==> #[trigger] final(self).tree.language_of(m) == old(self).tree.language_of(m),
    {
        let mut language = Language::default();
        self.tree.swap_language(node, &mut language);
        delete_sound_change(&mut language, &mut self.phonemes, index);
        self.tree.swap_language(node, &mut language);
    }
}

} // verus!
