//! Shell-facing decisions: cell shading, cell labels, the pane types and
//! the font catalogue.

use phonology::category::{Articulation, ColorTone, Region, Rounding, Voicing};
use phonology::diacritics::{modifiers_vowels, offered_modifiers};
use phonology::alphabet::Alphabet;
use phonology::phoneme::{Phone, Phoneme};
use phonology::quality::PhonemeQuality;
use phonology::store::PhonemeStore;
use phonology::ui::{cell_shade, inventory_cell_label, CellShade, Font, LanguagePane, LanguagePaneRole};

#[test]
fn cell_shading_follows_voicing() {
    let empty: Option<&PhonemeQuality<Articulation, Region, Voicing>> = None;
    assert_eq!(cell_shade(empty), CellShade::Background);
    let voiceless = PhonemeQuality(
        vec![Articulation::Plosive],
        vec![Region::Velar],
        vec![Voicing::Voiceless],
    );
    assert_eq!(cell_shade(Some(&voiceless)), CellShade::Tone(ColorTone::Gold));
    let voiced = PhonemeQuality(
        vec![Articulation::Plosive],
        vec![Region::Velar],
        vec![Voicing::Voiced],
    );
    assert_eq!(cell_shade(Some(&voiced)), CellShade::Tone(ColorTone::Red));
    let both = PhonemeQuality(
        vec![Articulation::Plosive],
        vec![Region::Velar],
        vec![Voicing::Voiceless, Voicing::Voiced],
    );
    assert_eq!(cell_shade(Some(&both)), CellShade::Mixed);
    let rounding = PhonemeQuality(
        vec![phonology::category::Constriction::Mid],
        vec![phonology::category::Place::Central],
        vec![Rounding::Rounded],
    );
    assert_eq!(cell_shade(Some(&rounding)), CellShade::Tone(ColorTone::Blue));
}

#[test]
fn cell_label_appends_differing_grapheme() {
    let mut p = Phoneme::new("t", Phone::consonant());
    assert_eq!(inventory_cell_label(&p), "t");
    p.set_grapheme("t");
    assert_eq!(inventory_cell_label(&p), "t");
    p.set_grapheme("th");
    assert_eq!(inventory_cell_label(&p), "t [th]");
}

#[test]
fn offered_modifiers_filter_by_restriction() {
    let store = PhonemeStore::new();
    let ipa = Alphabet::new();
    let quality = PhonemeQuality(
        vec![phonology::category::Constriction::Close],
        vec![phonology::category::Place::Central],
        vec![Rounding::Rounded],
    );
    let groups = modifiers_vowels(&store, &ipa, &quality);
    let offered = offered_modifiers(&groups[0], &quality);
    // The "Rounded" mark restricted to unrounded vowels (entry 0) is not
    // offered; its rounded twin (entry 1) is; "Centralized" (entry 2)
    // excludes central vowels, so it is not offered either.
    assert!(!offered.contains(&0));
    assert!(offered.contains(&1));
    assert!(!offered.contains(&2));
    // Unrestricted marks are always offered.
    assert!(offered.contains(&4));
}

#[test]
fn fonts_know_their_files_and_names() {
    assert_eq!(Font::GentiumPlus.as_filename(), "GentiumPlus.ttf");
    assert_eq!(Font::CharisSIL.as_filename(), "CharisSIL.ttf");
    assert_eq!(Font::DoulosSIL.name(), "Doulos SIL");
    assert_eq!(Font::Andika.name(), "Andika");
}

#[test]
fn language_pane_keeps_its_role() {
    let pane = LanguagePane::new(LanguagePaneRole::Ipa);
    assert_eq!(pane.role, LanguagePaneRole::Ipa);
    let pane = LanguagePane::new(LanguagePaneRole::Inventory);
    assert_eq!(pane.role, LanguagePaneRole::Inventory);
}
