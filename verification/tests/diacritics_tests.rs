//! Modifier offerings: the affrication candidate derivation and the static
//! exclusion lists.

use phonology::alphabet::{add_symbol_to_alphabet, Alphabet};
use phonology::category::{Articulation, Region, Voicing};
use phonology::diacritics::{excl, modifiers_consonants, modifiers_vowels, DiacriticAction, DiacriticsBehavior};
use phonology::phoneme::Phone;
use phonology::quality::PhonemeQuality;
use phonology::store::PhonemeStore;

#[test]
fn affrication_candidates_for_a_voiceless_plosive() {
    // An alphabet containing t (Plosive, {Dental, Alveolar}, Voiceless),
    // s (Fricative, Alveolar, Voiceless) and ʃ (Fricative, Post, Voiceless):
    // the candidates for t are exactly s and ʃ, labelled by their regions.
    let mut store = PhonemeStore::new();
    let mut ipa = Alphabet::<Articulation, Region, Voicing>::new();
    let t_quality = PhonemeQuality(
        vec![Articulation::Plosive],
        vec![Region::Dental, Region::Alveolar],
        vec![Voicing::Voiceless],
    );
    add_symbol_to_alphabet(
        &mut store,
        &mut ipa,
        "t",
        Phone::consonant(),
        t_quality.duplicate(),
    );
    add_symbol_to_alphabet(
        &mut store,
        &mut ipa,
        "s",
        Phone::consonant(),
        PhonemeQuality(
            vec![Articulation::Fricative],
            vec![Region::Alveolar],
            vec![Voicing::Voiceless],
        ),
    );
    add_symbol_to_alphabet(
        &mut store,
        &mut ipa,
        "\u{283}",
        Phone::consonant(),
        PhonemeQuality(
            vec![Articulation::Fricative],
            vec![Region::Post],
            vec![Voicing::Voiceless],
        ),
    );

    let groups = modifiers_consonants(&store, &ipa, &t_quality);
    assert_eq!(groups.len(), 3);
    let affrication = &groups[0];
    assert_eq!(affrication.category, "Affrication");
    assert_eq!(affrication.action, DiacriticAction::Affricate);
    assert_eq!(affrication.behavior, DiacriticsBehavior::Single);
    assert!(!affrication.prepend_blank);
    assert_eq!(affrication.contents.len(), 2);
    assert_eq!(affrication.contents[0].1, "s");
    assert_eq!(affrication.contents[0].2, "Alveolar");
    assert_eq!(affrication.contents[1].1, "\u{283}");
    assert_eq!(affrication.contents[1].2, "Post Alveolar");
}

#[test]
fn no_affrication_group_without_a_plosive() {
    let store = PhonemeStore::new();
    let ipa = Alphabet::<Articulation, Region, Voicing>::new();
    let nasal = PhonemeQuality(
        vec![Articulation::Nasal],
        vec![Region::Bilabial],
        vec![Voicing::Voiced],
    );
    let groups = modifiers_consonants(&store, &ipa, &nasal);
    assert_eq!(groups.len(), 2);
    assert_eq!(groups[0].category, "Regional Lean");
    assert_eq!(groups[1].category, "Quality");
}

#[test]
fn candidate_labels_join_regions_with_a_slash() {
    let mut store = PhonemeStore::new();
    let mut ipa = Alphabet::<Articulation, Region, Voicing>::new();
    add_symbol_to_alphabet(
        &mut store,
        &mut ipa,
        "\u{26c}",
        Phone::consonant(),
        PhonemeQuality(
            vec![Articulation::LateralFricative],
            vec![Region::Dental, Region::Alveolar],
            vec![Voicing::Voiceless],
        ),
    );
    let plosive = PhonemeQuality(
        vec![Articulation::Plosive],
        vec![Region::Alveolar],
        vec![Voicing::Voiceless],
    );
    let groups = modifiers_consonants(&store, &ipa, &plosive);
    assert_eq!(groups[0].contents.len(), 1);
    assert_eq!(groups[0].contents[0].2, "Dental/Alveolar");
}

#[test]
fn labialized_is_offered_for_every_region_but_the_labial_ones() {
    let store = PhonemeStore::new();
    let ipa = Alphabet::<Articulation, Region, Voicing>::new();
    let nasal = PhonemeQuality(
        vec![Articulation::Nasal],
        vec![Region::Bilabial],
        vec![Voicing::Voiced],
    );
    let groups = modifiers_consonants(&store, &ipa, &nasal);
    let lean = &groups[0];
    assert_eq!(lean.contents.len(), 8);
    let labialized = &lean.contents[1];
    assert_eq!(labialized.1, "\u{2b7}");
    assert_eq!(labialized.2, "Labialized");
    // A bilabial nasal must not be offered labialization; a velar one must.
    assert!(!nasal.meets_restrictions(&labialized.0));
    let velar_nasal = PhonemeQuality(
        vec![Articulation::Nasal],
        vec![Region::Velar],
        vec![Voicing::Voiced],
    );
    assert!(velar_nasal.meets_restrictions(&labialized.0));
}

#[test]
fn exclusion_lists_cover_all_other_variants() {
    let left_out = vec![Region::Bilabial, Region::Labiodental];
    let rest = excl::<Region>(&left_out);
    assert_eq!(rest.len(), 9);
    assert!(!rest.contains(&Region::Bilabial));
    assert!(!rest.contains(&Region::Labiodental));
    assert!(rest.contains(&Region::Velar));
    let everything = excl::<Region>(&vec![]);
    assert_eq!(everything.len(), 11);
}

#[test]
fn vowel_modifiers_are_quality_marks_only() {
    let store = PhonemeStore::new();
    let ipa = Alphabet::new();
    let quality = PhonemeQuality(vec![], vec![], vec![]);
    let groups = modifiers_vowels(&store, &ipa, &quality);
    assert_eq!(groups.len(), 1);
    assert_eq!(groups[0].category, "Quality");
    assert_eq!(groups[0].contents.len(), 9);
    assert_eq!(groups[0].action, DiacriticAction::AppendSymbol);
    assert_eq!(groups[0].behavior, DiacriticsBehavior::Multiple);
}
