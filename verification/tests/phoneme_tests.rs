//! Phone state transitions, display rendering, diacritic handling on the
//! symbol string, and the generation-checked store.

use phonology::diacritics::{apply_modifier, modifier_present, remove_modifier, DiacriticAction};
use phonology::phoneme::{Phone, Phoneme};
use phonology::store::PhonemeStore;

#[test]
fn display_combines_modifiers_in_order() {
    // A consonant with symbol "d", regionalized "ʷ" and affricated "v"
    // renders as the base, the regionalization, a tie bar, the affricate.
    let mut p = Phoneme::new("d", Phone::consonant());
    p.phone.regionalize("\u{2b7}");
    p.phone.affricate("v");
    assert_eq!(p.display_string(), "d\u{2b7}\u{361}v");
}

#[test]
fn vowel_displays_bare_symbol() {
    let p = Phoneme::new("\u{259}", Phone::vowel());
    assert_eq!(p.display_string(), "\u{259}");
}

#[test]
fn affrication_and_regionalization_are_independent() {
    let mut phone = Phone::consonant();
    phone.affricate("s");
    phone.regionalize("\u{2b7}");
    phone.affricate("z");
    match &phone {
        Phone::Consonant {
            affricated,
            regionalized,
        } => {
            assert_eq!(affricated.as_deref(), Some("z"));
            assert_eq!(regionalized.as_deref(), Some("\u{2b7}"));
        }
        Phone::Vowel => panic!("expected a consonant"),
    }
    phone.clear_affrication();
    match &phone {
        Phone::Consonant {
            affricated,
            regionalized,
        } => {
            assert!(affricated.is_none());
            assert_eq!(regionalized.as_deref(), Some("\u{2b7}"));
        }
        Phone::Vowel => panic!("expected a consonant"),
    }
    phone.clear_regionalization();
    phone.clear_regionalization();
    match &phone {
        Phone::Consonant { regionalized, .. } => assert!(regionalized.is_none()),
        Phone::Vowel => panic!("expected a consonant"),
    }
}

#[test]
fn diacritics_append_onto_the_symbol() {
    let mut p = Phoneme::new("t", Phone::consonant());
    p.add_diacritic("\u{2b0}");
    assert_eq!(p.symbol, "t\u{2b0}");
    assert_eq!(p.display_string(), "t\u{2b0}");
}

#[test]
fn modifier_application_and_removal() {
    let mut p = Phoneme::new("t", Phone::consonant());
    apply_modifier(&mut p, DiacriticAction::AppendSymbol, "\u{2b0}");
    assert!(modifier_present(&p, DiacriticAction::AppendSymbol, "\u{2b0}"));
    remove_modifier(&mut p, DiacriticAction::AppendSymbol, "\u{2b0}");
    assert_eq!(p.symbol, "t");
    assert!(!modifier_present(&p, DiacriticAction::AppendSymbol, "\u{2b0}"));

    apply_modifier(&mut p, DiacriticAction::Affricate, "s");
    assert!(modifier_present(&p, DiacriticAction::Affricate, ""));
    assert_eq!(p.display_string(), "t\u{361}s");
    remove_modifier(&mut p, DiacriticAction::Affricate, "");
    assert!(!modifier_present(&p, DiacriticAction::Affricate, ""));
    assert_eq!(p.display_string(), "t");
}

#[test]
fn identity_is_stamped_once() {
    let mut store = PhonemeStore::new();
    let mut p = Phoneme::new("k", Phone::consonant());
    assert!(!p.is_identified());
    let id = store.insert(p.duplicate());
    p.set_id(id);
    assert_eq!(p.id(), id);
}

#[test]
fn store_honours_only_live_identities() {
    let mut store = PhonemeStore::new();
    let a = store.insert(Phoneme::new("a", Phone::vowel()));
    let b = store.insert(Phoneme::new("b", Phone::consonant()));
    assert_ne!(a, b);
    assert_eq!(store.get(a).unwrap().symbol, "a");
    assert_eq!(store.get(b).unwrap().symbol, "b");
    store.remove(a);
    assert!(store.get(a).is_none());
    assert_eq!(store.get(b).unwrap().symbol, "b");
    // A stale identity is never honoured again, even after the slot is
    // reused by a later insertion.
    let c = store.insert(Phoneme::new("c", Phone::vowel()));
    assert!(store.get(a).is_none());
    assert_eq!(store.get(c).unwrap().symbol, "c");
}

#[test]
fn store_replace_changes_only_the_given_identity() {
    let mut store = PhonemeStore::new();
    let a = store.insert(Phoneme::new("a", Phone::vowel()));
    let b = store.insert(Phoneme::new("b", Phone::vowel()));
    let mut updated = Phoneme::new("a2", Phone::vowel());
    updated.set_grapheme("ah");
    store.replace(a, updated);
    assert_eq!(store.get(a).unwrap().symbol, "a2");
    assert_eq!(store.get(a).unwrap().grapheme, "ah");
    assert_eq!(store.get(b).unwrap().symbol, "b");
}

#[test]
fn store_slots_round_trip() {
    let mut store = PhonemeStore::new();
    let a = store.insert(Phoneme::new("a", Phone::vowel()));
    let b = store.insert(Phoneme::new("b", Phone::consonant()));
    store.remove(a);
    let slots = store.export_slots();
    let restored = PhonemeStore::from_slots(slots);
    assert!(restored.get(a).is_none());
    assert_eq!(restored.get(b).unwrap().symbol, "b");
}
