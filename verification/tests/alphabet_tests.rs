//! The bidirectional tuple/identity index: insertion, lookup, selection,
//! removal, the consistency invariant, and the persistence round trip.

use phonology::alphabet::{add_symbol_to_alphabet, Alphabet, AlphabetError};
use phonology::category::{Articulation, Category, Region, Voicing};
use phonology::phoneme::Phone;
use phonology::quality::{PhonemeQuality, PhonemeSelector};
use phonology::store::{Id, PhonemeStore};

type ConsAlphabet = Alphabet<Articulation, Region, Voicing>;

fn sample() -> (PhonemeStore, ConsAlphabet, Id, Id) {
    let mut store = PhonemeStore::new();
    let mut alpha = ConsAlphabet::new();
    let t = add_symbol_to_alphabet(
        &mut store,
        &mut alpha,
        "t",
        Phone::consonant(),
        PhonemeQuality(
            vec![Articulation::Plosive],
            vec![Region::Dental, Region::Alveolar],
            vec![Voicing::Voiceless],
        ),
    );
    let s = add_symbol_to_alphabet(
        &mut store,
        &mut alpha,
        "s",
        Phone::consonant(),
        PhonemeQuality(
            vec![Articulation::Fricative],
            vec![Region::Alveolar],
            vec![Voicing::Voiceless],
        ),
    );
    (store, alpha, t, s)
}

#[test]
fn exact_lookup_finds_every_covered_tuple() {
    let (_store, alpha, t, s) = sample();
    assert_eq!(
        alpha.get((Articulation::Plosive, Region::Dental, Voicing::Voiceless)),
        Some(t)
    );
    assert_eq!(
        alpha.get((Articulation::Plosive, Region::Alveolar, Voicing::Voiceless)),
        Some(t)
    );
    assert_eq!(
        alpha.get((Articulation::Fricative, Region::Alveolar, Voicing::Voiceless)),
        Some(s)
    );
    assert_eq!(
        alpha.get((Articulation::Nasal, Region::Velar, Voicing::Voiced)),
        None
    );
}

#[test]
fn consistency_both_directions() {
    // Every tuple of a stored quality maps back to its identity, and every
    // occupied tuple is covered by its occupant's quality.
    let (_store, alpha, _t, _s) = sample();
    for id in alpha.phonemes() {
        let quality = alpha.get_quality(id).unwrap();
        for tuple in quality.expand() {
            assert_eq!(alpha.get(tuple), Some(id));
        }
    }
    for a in Articulation::all() {
        for b in Region::all() {
            for c in Voicing::all() {
                if let Some(id) = alpha.get((a, b, c)) {
                    let quality = alpha.get_quality(id).unwrap();
                    assert!(quality.meets_restrictions(&PhonemeQuality(
                        vec![a],
                        vec![b],
                        vec![c]
                    )));
                }
            }
        }
    }
}

#[test]
fn selection_filters_by_wildcard_selector() {
    let (_store, alpha, t, s) = sample();
    let blank = PhonemeSelector::blank();
    let everyone = alpha.select_phonemes(&blank);
    assert_eq!(everyone.len(), 2);
    let fricatives = alpha.select_phonemes(&PhonemeQuality(
        vec![Articulation::Fricative],
        vec![],
        vec![],
    ));
    assert_eq!(fricatives, vec![s]);
    let dentals = alpha.select_phonemes(&PhonemeQuality(vec![], vec![Region::Dental], vec![]));
    assert_eq!(dentals, vec![t]);
}

#[test]
fn meets_restrictions_uses_stored_quality() {
    let (_store, alpha, t, _s) = sample();
    assert!(alpha.meets_restrictions(
        t,
        &PhonemeQuality(vec![], vec![Region::Dental, Region::Velar], vec![])
    ));
    assert!(!alpha.meets_restrictions(t, &PhonemeQuality(vec![], vec![], vec![Voicing::Voiced])));
}

#[test]
fn add_then_remove_restores_observable_state() {
    let (mut store, mut alpha, _t, _s) = sample();
    let before: Vec<Option<Id>> = all_tuples(&alpha);
    let before_ids = alpha.phonemes();
    let extra = add_symbol_to_alphabet(
        &mut store,
        &mut alpha,
        "m",
        Phone::consonant(),
        PhonemeQuality(
            vec![Articulation::Nasal],
            vec![Region::Bilabial],
            vec![Voicing::Voiced],
        ),
    );
    assert_ne!(all_tuples(&alpha), before);
    alpha.remove_phoneme(extra);
    assert_eq!(all_tuples(&alpha), before);
    assert_eq!(alpha.phonemes(), before_ids);
}

#[test]
fn remove_clears_every_tuple_of_the_identity() {
    let (_store, mut alpha, t, s) = sample();
    alpha.remove_phoneme(t);
    assert_eq!(
        alpha.get((Articulation::Plosive, Region::Dental, Voicing::Voiceless)),
        None
    );
    assert_eq!(
        alpha.get((Articulation::Plosive, Region::Alveolar, Voicing::Voiceless)),
        None
    );
    assert_eq!(
        alpha.get((Articulation::Fricative, Region::Alveolar, Voicing::Voiceless)),
        Some(s)
    );
    assert!(alpha.get_quality(t).is_none());
}

#[test]
fn overwrite_on_tuple_collision_is_last_writer_wins() {
    let (mut store, mut alpha, t, _s) = sample();
    let usurper = add_symbol_to_alphabet(
        &mut store,
        &mut alpha,
        "t2",
        Phone::consonant(),
        PhonemeQuality(
            vec![Articulation::Plosive],
            vec![Region::Alveolar],
            vec![Voicing::Voiceless],
        ),
    );
    assert_eq!(
        alpha.get((Articulation::Plosive, Region::Alveolar, Voicing::Voiceless)),
        Some(usurper)
    );
    // The earlier phoneme keeps its other tuple and its quality entry.
    assert_eq!(
        alpha.get((Articulation::Plosive, Region::Dental, Voicing::Voiceless)),
        Some(t)
    );
    assert!(alpha.get_quality(t).is_some());
}

#[test]
fn entries_round_trip_preserves_lookups() {
    let (_store, alpha, _t, _s) = sample();
    let entries = alpha.to_entries();
    let rebuilt = ConsAlphabet::from_entries(&entries).unwrap();
    assert_eq!(all_tuples(&alpha), all_tuples(&rebuilt));
    for id in alpha.phonemes() {
        let original = alpha.get_quality(id).unwrap();
        let restored = rebuilt.get_quality(id).unwrap();
        assert_eq!(original.0, restored.0);
        assert_eq!(original.1, restored.1);
        assert_eq!(original.2, restored.2);
    }
}

#[test]
fn rebuilding_rejects_invalid_indices() {
    let (_store, alpha, t, _s) = sample();
    let mut entries = alpha.to_entries();
    entries[0].1 .0[0] = 99;
    assert!(matches!(
        ConsAlphabet::from_entries(&entries),
        Err(AlphabetError::InvalidIndex)
    ));
    let dup = vec![
        (t, (vec![0usize], vec![0usize], vec![0usize])),
        (t, (vec![1usize], vec![1usize], vec![1usize])),
    ];
    assert!(matches!(
        ConsAlphabet::from_entries(&dup),
        Err(AlphabetError::DuplicateIdentity)
    ));
}

fn all_tuples(alpha: &ConsAlphabet) -> Vec<Option<Id>> {
    let mut grid = Vec::new();
    for a in Articulation::all() {
        for b in Region::all() {
            for c in Voicing::all() {
                grid.push(alpha.get((a, b, c)));
            }
        }
    }
    grid
}
