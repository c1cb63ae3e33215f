//! Sound-change rules: how a dialect's inventory diverges from its parent's,
//! and the authoring flow that builds such rules from user selections.

use vstd::prelude::*;

use crate::category::{Articulation, Constriction, Place, Region, Rounding, Voicing};
use crate::language::Language;
use crate::phoneme::{Phone, Phoneme};
use crate::quality::{from_raw, raw_axis_ok, raw_axis_valid, raw_encodes, PhonemeQuality, PhonemeSelector};
use crate::store::{Id, PhonemeStore};
use crate::ui::{LanguagePaneRole, Selection};

verus! {

/// A context restriction for a sound-change rule.
pub enum SoundChangeContext {
    Consonant(PhonemeSelector<Articulation, Region, Voicing>),
    Vowel(PhonemeSelector<Constriction, Place, Rounding>),
    Multiple(Vec<SoundChangeContext>),
    Unrestricted,
}

/// One rule: a source phoneme of the parent inventory, a derived phoneme of
/// the child inventory, and a pair of context restrictions.
pub struct SoundChange {
    pub src: Id,
    pub dst: Id,
    pub context: (SoundChangeContext, SoundChangeContext),
}

/// Which end of a rule a selection is requested for.
#[derive(Clone, Copy, PartialEq, Eq, Structural, Debug)]
pub enum SoundChangeRequest {
    Src,
    Dst,
}

/// Whether a selection of the given provenance may satisfy the request: a
/// rule's source must come from the editable inventory, never from the IPA
/// reference chart; its destination may come from anywhere.
pub open spec fn valid_source_spec(request: SoundChangeRequest, source: LanguagePaneRole) -> bool {
    match request {
        SoundChangeRequest::Src => source is Inventory,
        SoundChangeRequest::Dst => true,
    }
}

impl SoundChangeRequest {
    /// Whether a selection of the given provenance may satisfy this request.
    pub fn is_valid_source(&self, source: LanguagePaneRole) -> (r: bool)
        ensures
            r == valid_source_spec(*self, source),
    {
        match self {
            SoundChangeRequest::Src => matches!(source, LanguagePaneRole::Inventory),
            SoundChangeRequest::Dst => true,
        }
    }
}

/// Why a proposed selection was declined.
#[derive(Clone, Copy, PartialEq, Eq, Structural, Debug)]
pub enum SoundChangeError {
    /// The rule's source was selected from the IPA chart rather than the
    /// inventory.
    InvalidSource,
}

impl SoundChangeError {
    /// The explanation reported to the user.
    pub fn message(&self) -> (r: &'static str)
        ensures
            r@ == "Sound change's source must be selected from the inventory. Select another phoneme."@,
    {
        "Sound change's source must be selected from the inventory. Select another phoneme."
    }
}

/// The in-progress state of sound-change authoring: which end is awaited,
/// and the selections captured so far.
pub struct SoundChangeDraft {
    pub request: Option<SoundChangeRequest>,
    pub current_src: Option<Selection>,
    pub current_dst: Option<Selection>,
}

impl SoundChangeDraft {
    /// An empty draft: nothing requested, nothing captured.
    pub fn new() -> (r: Self)
        ensures
            r.request is None,
            r.current_src is None,
            r.current_dst is None,
    {
        SoundChangeDraft { request: None, current_src: None, current_dst: None }
    }

    /// Proposes a selection for the awaited end of the rule. A source
    /// selected from the IPA chart is declined with an explanation and the
    /// draft is left unchanged; a valid source selection is captured and the
    /// destination is awaited next; a valid destination selection is
    /// captured and the request is cleared.
    pub fn propose(&mut self, selection: Selection) -> (r: Result<(), SoundChangeError>)
        requires
            old(self).request is Some,
        ensures
            ({
                let request = old(self).request.unwrap();
                let after = *final(self);
                let before = *old(self);
                if valid_source_spec(request, selection.source) {
                    &&& r is Ok
                    &&& (request is Src ==> after.current_src == Some(selection)
                        && after.request == Some(SoundChangeRequest::Dst)
                        && after.current_dst == before.current_dst)
                    &&& (request is Dst ==> after.current_dst == Some(selection)
                        && after.request is None && after.current_src == before.current_src)
                } else {
                    &&& r == Err::<(), SoundChangeError>(SoundChangeError::InvalidSource)
                    &&& after == before
                }
            }),
    {
        let request = match self.request {
            Some(request) => request,
            None => unreached(),
        };
        if !request.is_valid_source(selection.source) {
            return Err(SoundChangeError::InvalidSource);
        }
        match request {
            SoundChangeRequest::Src => {
                self.current_src = Some(selection);
                self.request = Some(SoundChangeRequest::Dst);
            },
            SoundChangeRequest::Dst => {
                self.current_dst = Some(selection);
                self.request = None;
            },
        }
        Ok(())
    }
}

/// Whether a selection's raw quality is valid for the axes its phone kind
/// selects: consonant axes for a consonant, vowel axes for a vowel.
pub open spec fn selection_raw_valid(selection: Selection) -> bool {
    if selection.phoneme.phone is Consonant {
        raw_axis_valid::<Articulation>(selection.quality.0@) && raw_axis_valid::<Region>(
            selection.quality.1@,
        ) && raw_axis_valid::<Voicing>(selection.quality.2@)
    } else {
        raw_axis_valid::<Constriction>(selection.quality.0@) && raw_axis_valid::<Place>(
            selection.quality.1@,
        ) && raw_axis_valid::<Rounding>(selection.quality.2@)
    }
}

/// Whether a selection's raw quality is valid for the axes its phone kind
/// selects, tested at run time.
pub fn selection_valid(selection: &Selection) -> (r: bool)
    ensures
        r == selection_raw_valid(*selection),
{
    match &selection.phoneme.phone {
        Phone::Consonant { .. } => raw_axis_ok::<Articulation>(&selection.quality.0)
            && raw_axis_ok::<Region>(&selection.quality.1) && raw_axis_ok::<Voicing>(
            &selection.quality.2,
        ),
        Phone::Vowel => raw_axis_ok::<Constriction>(&selection.quality.0) && raw_axis_ok::<
            Place,
        >(&selection.quality.1) && raw_axis_ok::<Rounding>(&selection.quality.2),
    }
}

/// Commits a drafted rule to a dialect: the destination phoneme is inserted
/// into the store as a newly owned phoneme, registered in the dialect's
/// consonant or vowel alphabet (by its phone kind) under the quality carried
/// with the selection, and the rule, unrestricted on both sides, is appended
/// to the dialect's sound-change list. Returns the new phoneme's identity.
pub fn commit_sound_change(
    dialect: &mut Language,
    phonemes: &mut PhonemeStore,
    src: Id,
    dst: &Selection,
) -> (r: Id)
    requires
        old(dialect).wf(),
        selection_raw_valid(*dst),
    ensures
        final(dialect).wf(),
        !old(phonemes).contains_id(r),
        final(phonemes).contains_id(r),
        final(phonemes).phoneme_at(r).symbol@ == dst.phoneme.symbol@,
        final(phonemes).phoneme_at(r).grapheme@ == dst.phoneme.grapheme@,
        final(phonemes).phoneme_at(r).phone.eqv(dst.phoneme.phone),
        final(phonemes).phoneme_at(r).identified(),
        final(phonemes).phoneme_at(r).spec_id() == r,
        forall|id: Id|
            id != r ==> #[trigger] final(phonemes).contains_id(id) == old(phonemes).contains_id(id),
        forall|id: Id|
            id != r && old(phonemes).contains_id(id) ==> #[trigger] final(phonemes).phoneme_at(id)
                == old(phonemes).phoneme_at(id),
        final(dialect).name == old(dialect).name,
        final(dialect).sound_changes@ == old(dialect).sound_changes@.push(
            SoundChange {
                src,
                dst: r,
                context: (SoundChangeContext::Unrestricted, SoundChangeContext::Unrestricted),
            },
        ),
        dst.phoneme.phone is Consonant ==> {
            &&& final(dialect).vowels == old(dialect).vowels
            &&& exists|q: PhonemeQuality<Articulation, Region, Voicing>|
                final(dialect).consonants.qmap() == old(dialect).consonants.qmap().insert(r, q)
                    && #[trigger] raw_encodes(dst.quality.0@, q.0@) && raw_encodes(
                    dst.quality.1@,
                    q.1@,
                ) && raw_encodes(dst.quality.2@, q.2@)
        },
        !(dst.phoneme.phone is Consonant) ==> {
            &&& final(dialect).consonants == old(dialect).consonants
            &&& exists|q: PhonemeQuality<Constriction, Place, Rounding>|
                final(dialect).vowels.qmap() == old(dialect).vowels.qmap().insert(r, q)
                    && #[trigger] raw_encodes(dst.quality.0@, q.0@) && raw_encodes(
                    dst.quality.1@,
                    q.1@,
                ) && raw_encodes(dst.quality.2@, q.2@)
        },
{
    // The store assigns the identity first; the destination phoneme is then
    // built, stamped with that identity, and put in its slot.
    let id = phonemes.insert(Phoneme::new("", Phone::vowel()));
    let mut stamped = Phoneme::new(dst.phoneme.symbol.as_str(), dst.phoneme.phone.duplicate());
    stamped.set_grapheme(dst.phoneme.grapheme.as_str());
    stamped.set_id(id);
    phonemes.replace(id, stamped);
    match &dst.phoneme.phone {
        Phone::Consonant { .. } => {
            let v0 = match from_raw::<Articulation>(&dst.quality.0) {
                Some(v) => v,
                None => unreached(),
            };
            let v1 = match from_raw::<Region>(&dst.quality.1) {
                Some(v) => v,
                None => unreached(),
            };
            let v2 = match from_raw::<Voicing>(&dst.quality.2) {
                Some(v) => v,
                None => unreached(),
            };
            let quality = PhonemeQuality(v0, v1, v2);
            let ghost q = quality;
            dialect.consonants.add_phoneme(id, quality);
            proof {
                assert(dialect.consonants.qmap() == old(dialect).consonants.qmap().insert(id, q)
                    && raw_encodes(dst.quality.0@, q.0@) && raw_encodes(dst.quality.1@, q.1@)
                    && raw_encodes(dst.quality.2@, q.2@));
            }
        },
        Phone::Vowel => {
            let v0 = match from_raw::<Constriction>(&dst.quality.0) {
                Some(v) => v,
                None => unreached(),
            };
            let v1 = match from_raw::<Place>(&dst.quality.1) {
                Some(v) => v,
                None => unreached(),
            };
            let v2 = match from_raw::<Rounding>(&dst.quality.2) {
                Some(v) => v,
                None => unreached(),
            };
            let quality = PhonemeQuality(v0, v1, v2);
            let ghost q = quality;
            dialect.vowels.add_phoneme(id, quality);
            proof {
                assert(dialect.vowels.qmap() == old(dialect).vowels.qmap().insert(id, q)
                    && raw_encodes(dst.quality.0@, q.0@) && raw_encodes(dst.quality.1@, q.1@)
                    && raw_encodes(dst.quality.2@, q.2@));
            }
        },
    }
    dialect.sound_changes.push(
        SoundChange {
            src,
            dst: id,
            context: (SoundChangeContext::Unrestricted, SoundChangeContext::Unrestricted),
        },
    );
    id
}

/// Deletes a rule from a dialect: removes the rule, removes its destination
/// phoneme from the dialect's alphabet, and removes that phoneme from the
/// store. The source phoneme is never removed; it belongs to the parent
/// inventory.
pub fn delete_sound_change(dialect: &mut Language, phonemes: &mut PhonemeStore, index: usize) -> (r:
    Id)
    requires
        old(dialect).wf(),
        index < old(dialect).sound_changes@.len(),
        old(phonemes).contains_id(old(dialect).sound_changes@[index as int].dst),
        old(phonemes).phoneme_at(old(dialect).sound_changes@[index as int].dst).phone is Consonant
            ==> old(dialect).consonants.qmap().contains_key(
            old(dialect).sound_changes@[index as int].dst,
        ),
        !(old(phonemes).phoneme_at(old(dialect).sound_changes@[index as int].dst).phone
            is Consonant) ==> old(dialect).vowels.qmap().contains_key(
            old(dialect).sound_changes@[index as int].dst,
        ),
    ensures
        final(dialect).wf(),
        r == old(dialect).sound_changes@[index as int].dst,
        final(dialect).sound_changes@ == old(dialect).sound_changes@.remove(index as int),
        final(dialect).name == old(dialect).name,
        !final(phonemes).contains_id(r),
        forall|id: Id|
            id != r ==> #[trigger] final(phonemes).contains_id(id) == old(phonemes).contains_id(id),
        forall|id: Id|
            id != r && old(phonemes).contains_id(id) ==> #[trigger] final(phonemes).phoneme_at(id)
                == old(phonemes).phoneme_at(id),
        old(phonemes).phoneme_at(r).phone is Consonant ==> final(dialect).consonants.qmap() == old(
            dialect,
        ).consonants.qmap().remove(r) && final(dialect).vowels == old(dialect).vowels,
        !(old(phonemes).phoneme_at(r).phone is Consonant) ==> final(dialect).vowels.qmap() == old(
            dialect,
        ).vowels.qmap().remove(r) && final(dialect).consonants == old(dialect).consonants,
{
    let id = rule_dst(dialect, index);
    let is_consonant = match phonemes.get(id) {
        Some(p) => match &p.phone {
            Phone::Consonant { .. } => true,
            Phone::Vowel => false,
        },
        None => unreached(),
    };
    if is_consonant {
        dialect.consonants.remove_phoneme(id);
    } else {
        dialect.vowels.remove_phoneme(id);
    }
    phonemes.remove(id);
    dialect.sound_changes.remove(index);
    id
}

/// Reads the destination identity of the rule at `index`.
fn rule_dst(dialect: &Language, index: usize) -> (r: Id)
    requires
        index < dialect.sound_changes@.len(),
    ensures
        r == dialect.sound_changes@[index as int].dst,
{
    dialect.sound_changes[index].dst
}

} // verus!
