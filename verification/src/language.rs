//! A language: its consonant and vowel alphabets and its sound-change rule
//! list, plus the fixed IPA reference language the whole tool works from.

use vstd::prelude::*;

use crate::alphabet::{add_symbol_to_alphabet, total_slots, Alphabet};
use crate::category::{Articulation, Constriction, Place, Region, Rounding, Voicing};
use crate::phoneme::Phone;
use crate::quality::PhonemeQuality;
use crate::sound_change::SoundChange;
use crate::store::PhonemeStore;

verus! {

/// A named language: one alphabet per phone kind and an ordered list of
/// sound-change rules for the dialect it denotes.
pub struct Language {
    pub name: String,
    pub consonants: Alphabet<Articulation, Region, Voicing>,
    pub vowels: Alphabet<Constriction, Place, Rounding>,
    pub sound_changes: Vec<SoundChange>,
}

impl Language {
    /// Both alphabets are well-formed.
    pub open spec fn wf(self) -> bool {
        self.consonants.wf() && self.vowels.wf()
    }
}

impl Default for Language {
    /// An untitled language with empty inventories and no sound changes.
    fn default() -> (r: Language)
        ensures
            r.wf(),
            r.name@ == "Untitled"@,
            r.consonants.qmap().len() == 0,
            r.vowels.qmap().len() == 0,
            forall|a: Articulation, b: Region, c: Voicing|
                #[trigger] r.consonants.occupant(a, b, c) is None,
            forall|a: Constriction, b: Place, c: Rounding|
                #[trigger] r.vowels.occupant(a, b, c) is None,
            r.consonants.consistent(),
            r.vowels.consistent(),
            r.sound_changes@.len() == 0,
    {
        Language {
            name: "Untitled".to_owned(),
            consonants: Alphabet::new(),
            vowels: Alphabet::new(),
            sound_changes: Vec::new(),
        }
    }
}

/// Builds the full IPA reference language: every base consonant and vowel of
/// the chart, registered in a fresh store.
pub fn init_ipa(phonemes: &mut PhonemeStore) -> (r: Language)
    ensures
        r.wf(),
        r.name@ == "IPA"@,
        r.sound_changes@.len() == 0,
{
    let mut vowels = Alphabet::<Constriction, Place, Rounding>::new();
    vowel(phonemes, &mut vowels, "i", Constriction::Close, Place::Front, Rounding::Unrounded);
    vowel(phonemes, &mut vowels, "y", Constriction::Close, Place::Front, Rounding::Rounded);
    vowel(phonemes, &mut vowels, "\u{268}", Constriction::Close, Place::Central, Rounding::Unrounded);
    vowel(phonemes, &mut vowels, "\u{289}", Constriction::Close, Place::Central, Rounding::Rounded);
    vowel(phonemes, &mut vowels, "\u{26f}", Constriction::Close, Place::Back, Rounding::Unrounded);
    vowel(phonemes, &mut vowels, "u", Constriction::Close, Place::Back, Rounding::Rounded);
    vowel(phonemes, &mut vowels, "\u{26a}", Constriction::CloseNear, Place::Front, Rounding::Unrounded);
    vowel(phonemes, &mut vowels, "\u{28f}", Constriction::CloseNear, Place::Front, Rounding::Rounded);
    vowel(phonemes, &mut vowels, "\u{28a}", Constriction::CloseNear, Place::Back, Rounding::Rounded);
    vowel(phonemes, &mut vowels, "e", Constriction::CloseMid, Place::Front, Rounding::Unrounded);
    vowel(phonemes, &mut vowels, "\u{f8}", Constriction::CloseMid, Place::Front, Rounding::Rounded);
    vowel(phonemes, &mut vowels, "\u{258}", Constriction::CloseMid, Place::Central, Rounding::Unrounded);
    vowel(phonemes, &mut vowels, "\u{275}", Constriction::CloseMid, Place::Central, Rounding::Rounded);
    vowel(phonemes, &mut vowels, "\u{264}", Constriction::CloseMid, Place::Back, Rounding::Unrounded);
    vowel(phonemes, &mut vowels, "o", Constriction::CloseMid, Place::Back, Rounding::Rounded);
    vowel_both(phonemes, &mut vowels, "\u{259}", Constriction::Mid, Place::Central);
    vowel(phonemes, &mut vowels, "\u{25b}", Constriction::OpenMid, Place::Front, Rounding::Unrounded);
    vowel(phonemes, &mut vowels, "\u{153}", Constriction::OpenMid, Place::Front, Rounding::Rounded);
    vowel(phonemes, &mut vowels, "\u{25c}", Constriction::OpenMid, Place::Central, Rounding::Unrounded);
    vowel(phonemes, &mut vowels, "\u{25e}", Constriction::OpenMid, Place::Central, Rounding::Rounded);
    vowel(phonemes, &mut vowels, "\u{28c}", Constriction::OpenMid, Place::Back, Rounding::Unrounded);
    vowel(phonemes, &mut vowels, "\u{254}", Constriction::OpenMid, Place::Back, Rounding::Rounded);
    vowel(phonemes, &mut vowels, "\u{e6}", Constriction::OpenNear, Place::Front, Rounding::Unrounded);
    vowel_both(phonemes, &mut vowels, "\u{250}", Constriction::OpenNear, Place::Central);
    vowel(phonemes, &mut vowels, "a", Constriction::Open, Place::Front, Rounding::Unrounded);
    vowel(phonemes, &mut vowels, "\u{276}", Constriction::Open, Place::Front, Rounding::Rounded);
    vowel(phonemes, &mut vowels, "\u{251}", Constriction::Open, Place::Back, Rounding::Unrounded);
    vowel(phonemes, &mut vowels, "\u{252}", Constriction::Open, Place::Back, Rounding::Rounded);

    let mut consonants = Alphabet::<Articulation, Region, Voicing>::new();
    consonant(phonemes, &mut consonants, "p", Articulation::Plosive, Region::Bilabial, Voicing::Voiceless);
    consonant(phonemes, &mut consonants, "b", Articulation::Plosive, Region::Bilabial, Voicing::Voiced);
    consonant2(phonemes, &mut consonants, "t", Articulation::Plosive, Region::Dental, Region::Alveolar, Voicing::Voiceless);
    consonant2(phonemes, &mut consonants, "d", Articulation::Plosive, Region::Alveolar, Region::Post, Voicing::Voiced);
    consonant(phonemes, &mut consonants, "\u{288}", Articulation::Plosive, Region::Retroflex, Voicing::Voiceless);
    consonant(phonemes, &mut consonants, "\u{256}", Articulation::Plosive, Region::Retroflex, Voicing::Voiced);
    consonant(phonemes, &mut consonants, "c", Articulation::Plosive, Region::Palatal, Voicing::Voiceless);
    consonant(phonemes, &mut consonants, "\u{25f}", Articulation::Plosive, Region::Palatal, Voicing::Voiced);
    consonant(phonemes, &mut consonants, "k", Articulation::Plosive, Region::Velar, Voicing::Voiceless);
    consonant(phonemes, &mut consonants, "g", Articulation::Plosive, Region::Velar, Voicing::Voiced);
    consonant(phonemes, &mut consonants, "q", Articulation::Plosive, Region::Uvular, Voicing::Voiceless);
    consonant(phonemes, &mut consonants, "\u{262}", Articulation::Plosive, Region::Uvular, Voicing::Voiced);
    consonant(phonemes, &mut consonants, "\u{294}", Articulation::Plosive, Region::Glottal, Voicing::Voiceless);
    consonant(phonemes, &mut consonants, "m", Articulation::Nasal, Region::Bilabial, Voicing::Voiced);
    consonant(phonemes, &mut consonants, "\u{271}", Articulation::Nasal, Region::Labiodental, Voicing::Voiced);
    consonant2(phonemes, &mut consonants, "n", Articulation::Nasal, Region::Alveolar, Region::Post, Voicing::Voiced);
    consonant(phonemes, &mut consonants, "\u{273}", Articulation::Nasal, Region::Retroflex, Voicing::Voiced);
    consonant(phonemes, &mut consonants, "\u{272}", Articulation::Nasal, Region::Palatal, Voicing::Voiced);
    consonant(phonemes, &mut consonants, "\u{14b}", Articulation::Nasal, Region::Velar, Voicing::Voiced);
    consonant(phonemes, &mut consonants, "\u{274}", Articulation::Nasal, Region::Uvular, Voicing::Voiced);
    consonant(phonemes, &mut consonants, "\u{299}", Articulation::Trill, Region::Bilabial, Voicing::Voiced);
    consonant2(phonemes, &mut consonants, "r", Articulation::Trill, Region::Alveolar, Region::Post, Voicing::Voiced);
    consonant(phonemes, &mut consonants, "\u{280}", Articulation::Trill, Region::Uvular, Voicing::Voiced);
    consonant(phonemes, &mut consonants, "\u{2c71}", Articulation::Flap, Region::Labiodental, Voicing::Voiced);
    consonant2(phonemes, &mut consonants, "\u{27e}", Articulation::Flap, Region::Alveolar, Region::Post, Voicing::Voiced);
    consonant(phonemes, &mut consonants, "\u{27d}", Articulation::Flap, Region::Retroflex, Voicing::Voiced);
    consonant(phonemes, &mut consonants, "\u{278}", Articulation::Fricative, Region::Bilabial, Voicing::Voiceless);
    consonant(phonemes, &mut consonants, "\u{3b2}", Articulation::Fricative, Region::Bilabial, Voicing::Voiced);
    consonant(phonemes, &mut consonants, "f", Articulation::Fricative, Region::Labiodental, Voicing::Voiceless);
    consonant(phonemes, &mut consonants, "v", Articulation::Fricative, Region::Labiodental, Voicing::Voiced);
    consonant(phonemes, &mut consonants, "\u{3b8}", Articulation::Fricative, Region::Dental, Voicing::Voiceless);
    consonant(phonemes, &mut consonants, "\u{f0}", Articulation::Fricative, Region::Dental, Voicing::Voiced);
    consonant(phonemes, &mut consonants, "s", Articulation::Fricative, Region::Alveolar, Voicing::Voiceless);
    consonant(phonemes, &mut consonants, "z", Articulation::Fricative, Region::Alveolar, Voicing::Voiced);
    consonant(phonemes, &mut consonants, "\u{283}", Articulation::Fricative, Region::Post, Voicing::Voiceless);
    consonant(phonemes, &mut consonants, "\u{292}", Articulation::Fricative, Region::Post, Voicing::Voiced);
    consonant(phonemes, &mut consonants, "\u{282}", Articulation::Fricative, Region::Retroflex, Voicing::Voiceless);
    consonant(phonemes, &mut consonants, "\u{290}", Articulation::Fricative, Region::Retroflex, Voicing::Voiced);
    consonant(phonemes, &mut consonants, "\u{e7}", Articulation::Fricative, Region::Palatal, Voicing::Voiceless);
    consonant(phonemes, &mut consonants, "\u{29d}", Articulation::Fricative, Region::Palatal, Voicing::Voiced);
    consonant(phonemes, &mut consonants, "x", Articulation::Fricative, Region::Velar, Voicing::Voiceless);
    consonant(phonemes, &mut consonants, "\u{263}", Articulation::Fricative, Region::Velar, Voicing::Voiced);
    consonant(phonemes, &mut consonants, "\u{3c7}", Articulation::Fricative, Region::Uvular, Voicing::Voiceless);
    consonant(phonemes, &mut consonants, "\u{281}", Articulation::Fricative, Region::Uvular, Voicing::Voiced);
    consonant(phonemes, &mut consonants, "\u{127}", Articulation::Fricative, Region::Pharyngeal, Voicing::Voiceless);
    consonant(phonemes, &mut consonants, "\u{295}", Articulation::Fricative, Region::Pharyngeal, Voicing::Voiced);
    consonant(phonemes, &mut consonants, "h", Articulation::Fricative, Region::Glottal, Voicing::Voiceless);
    consonant(phonemes, &mut consonants, "\u{266}", Articulation::Fricative, Region::Glottal, Voicing::Voiced);
    consonant2(phonemes, &mut consonants, "\u{26c}", Articulation::LateralFricative, Region::Dental, Region::Alveolar, Voicing::Voiceless);
    consonant2(phonemes, &mut consonants, "\u{26e}", Articulation::LateralFricative, Region::Alveolar, Region::Post, Voicing::Voiced);
    consonant(phonemes, &mut consonants, "\u{28b}", Articulation::Approximant, Region::Labiodental, Voicing::Voiced);
    consonant2(phonemes, &mut consonants, "\u{279}", Articulation::Approximant, Region::Alveolar, Region::Post, Voicing::Voiced);
    consonant(phonemes, &mut consonants, "\u{27b}", Articulation::Approximant, Region::Retroflex, Voicing::Voiced);
    consonant(phonemes, &mut consonants, "j", Articulation::Approximant, Region::Palatal, Voicing::Voiced);
    consonant(phonemes, &mut consonants, "\u{270}", Articulation::Approximant, Region::Velar, Voicing::Voiced);
    consonant2(phonemes, &mut consonants, "l", Articulation::LateralApproximant, Region::Alveolar, Region::Post, Voicing::Voiced);
    consonant(phonemes, &mut consonants, "\u{26d}", Articulation::LateralApproximant, Region::Retroflex, Voicing::Voiced);
    consonant(phonemes, &mut consonants, "\u{28e}", Articulation::LateralApproximant, Region::Palatal, Voicing::Voiced);
    consonant(phonemes, &mut consonants, "\u{29f}", Articulation::LateralApproximant, Region::Velar, Voicing::Voiced);

    Language { name: "IPA".to_owned(), consonants, vowels, sound_changes: Vec::new() }
}

/// Registers one vowel at a single feature tuple.
fn vowel(
    phonemes: &mut PhonemeStore,
    vowels: &mut Alphabet<Constriction, Place, Rounding>,
    symbol: &str,
    a: Constriction,
    b: Place,
    c: Rounding,
)
    requires
        old(vowels).wf(),
    ensures
        final(vowels).wf(),
{
    add_symbol_to_alphabet(
        phonemes,
        vowels,
        symbol,
        Phone::vowel(),
        PhonemeQuality::from_triple(a, b, c),
    );
}

/// Registers one vowel valid for both rounding values.
fn vowel_both(
    phonemes: &mut PhonemeStore,
    vowels: &mut Alphabet<Constriction, Place, Rounding>,
    symbol: &str,
    a: Constriction,
    b: Place,
)
    requires
        old(vowels).wf(),
    ensures
        final(vowels).wf(),
{
    let quality = PhonemeQuality::from_lists(
        vec![a],
        vec![b],
        vec![Rounding::Unrounded, Rounding::Rounded],
    );
    add_symbol_to_alphabet(phonemes, vowels, symbol, Phone::vowel(), quality);
}

/// Registers one consonant at a single feature tuple.
fn consonant(
    phonemes: &mut PhonemeStore,
    consonants: &mut Alphabet<Articulation, Region, Voicing>,
    symbol: &str,
    a: Articulation,
    b: Region,
    c: Voicing,
)
    requires
        old(consonants).wf(),
    ensures
        final(consonants).wf(),
{
    add_symbol_to_alphabet(
        phonemes,
        consonants,
        symbol,
        Phone::consonant(),
        PhonemeQuality::from_triple(a, b, c),
    );
}

/// Registers one consonant valid for two regions.
fn consonant2(
    phonemes: &mut PhonemeStore,
    consonants: &mut Alphabet<Articulation, Region, Voicing>,
    symbol: &str,
    a: Articulation,
    b1: Region,
    b2: Region,
    c: Voicing,
)
    requires
        old(consonants).wf(),
    ensures
        final(consonants).wf(),
{
    let quality = PhonemeQuality::from_lists(vec![a], vec![b1, b2], vec![c]);
    add_symbol_to_alphabet(phonemes, consonants, symbol, Phone::consonant(), quality);
}

} // verus!
