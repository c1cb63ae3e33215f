//! Selector matching, Cartesian expansion, and raw-index conversion.

use phonology::category::{Articulation, Category, Region, Voicing};
use phonology::quality::{from_raw, into_raw, PhonemeQuality, PhonemeSelector};

fn t_quality() -> PhonemeQuality<Articulation, Region, Voicing> {
    PhonemeQuality(
        vec![Articulation::Plosive],
        vec![Region::Dental, Region::Alveolar],
        vec![Voicing::Voiceless],
    )
}

#[test]
fn blank_selector_matches_everything() {
    let q = t_quality();
    let blank = PhonemeSelector::<Articulation, Region, Voicing>::blank();
    assert!(q.meets_restrictions(&blank));
}

#[test]
fn blank_quality_matches_only_blank_selector() {
    let blank_quality = PhonemeQuality::<Articulation, Region, Voicing>::blank();
    let blank = PhonemeSelector::<Articulation, Region, Voicing>::blank();
    assert!(blank_quality.meets_restrictions(&blank));
    let narrow = PhonemeQuality(vec![Articulation::Plosive], vec![], vec![]);
    assert!(!blank_quality.meets_restrictions(&narrow));
}

#[test]
fn matching_is_existential_over_tuples() {
    // The documented example: restriction (Plosive, [Dental, Alveolar],
    // [Voiced, Voiceless]) against 'd' (Plosive, [Alveolar, Post], Voiced).
    let d = PhonemeQuality(
        vec![Articulation::Plosive],
        vec![Region::Alveolar, Region::Post],
        vec![Voicing::Voiced],
    );
    let restriction = PhonemeQuality(
        vec![Articulation::Plosive],
        vec![Region::Dental, Region::Alveolar],
        vec![Voicing::Voiced, Voicing::Voiceless],
    );
    assert!(d.meets_restrictions(&restriction));
}

#[test]
fn matching_fails_without_shared_tuple() {
    let q = t_quality();
    let wrong_voicing = PhonemeQuality(vec![], vec![], vec![Voicing::Voiced]);
    assert!(!q.meets_restrictions(&wrong_voicing));
    let wrong_region = PhonemeQuality(vec![], vec![Region::Velar], vec![]);
    assert!(!q.meets_restrictions(&wrong_region));
}

#[test]
fn empty_selector_axis_is_wildcard_not_empty_set() {
    let q = t_quality();
    let region_only = PhonemeQuality(vec![], vec![Region::Dental], vec![]);
    assert!(q.meets_restrictions(&region_only));
}

#[test]
fn expand_is_cartesian_product_in_order() {
    let q = t_quality();
    let tuples = q.expand();
    assert_eq!(tuples.len(), 2);
    assert_eq!(
        tuples[0],
        (Articulation::Plosive, Region::Dental, Voicing::Voiceless)
    );
    assert_eq!(
        tuples[1],
        (Articulation::Plosive, Region::Alveolar, Voicing::Voiceless)
    );
}

#[test]
fn raw_round_trip_restores_values() {
    let q = t_quality();
    let raw = q.into_raw();
    assert_eq!(raw.0, vec![0usize]);
    assert_eq!(raw.1, vec![2usize, 3usize]);
    assert_eq!(raw.2, vec![0usize]);
    let back = PhonemeQuality::<Articulation, Region, Voicing>::from_raw(raw).unwrap();
    assert_eq!(back.0, vec![Articulation::Plosive]);
    assert_eq!(back.1, vec![Region::Dental, Region::Alveolar]);
    assert_eq!(back.2, vec![Voicing::Voiceless]);
}

#[test]
fn invalid_raw_index_is_rejected() {
    let bad = (vec![99usize], vec![0usize], vec![0usize]);
    assert!(PhonemeQuality::<Articulation, Region, Voicing>::from_raw(bad).is_none());
    let bad_axis = from_raw::<Voicing>(&vec![2usize]);
    assert!(bad_axis.is_none());
}

#[test]
fn free_raw_conversions_agree_with_indices() {
    let raw = into_raw(&vec![Region::Post, Region::Glottal]);
    assert_eq!(raw, vec![4usize, 10usize]);
    let back = from_raw::<Region>(&raw).unwrap();
    assert_eq!(back, vec![Region::Post, Region::Glottal]);
}

#[test]
fn stable_index_enumeration_round_trips() {
    for (k, value) in Articulation::all().into_iter().enumerate() {
        assert_eq!(value.index(), k);
        assert_eq!(Articulation::from_index(k), Some(value));
    }
    assert_eq!(Articulation::from_index(8), None);
    assert_eq!(Articulation::cardinality(), 8);
    assert_eq!(Region::cardinality(), 11);
    assert_eq!(Voicing::cardinality(), 2);
}

#[test]
fn axis_names_are_stable() {
    assert_eq!(Articulation::Flap.name(), "Tap");
    assert_eq!(Articulation::LateralFricative.name(), "Lateral Fricative");
    assert_eq!(Region::Post.name(), "Post Alveolar");
    assert_eq!(Voicing::Voiceless.name(), "Unvoiced");
}
