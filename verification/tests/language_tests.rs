//! The IPA reference language, the dialect tree, and sound-change
//! authoring against the top-level state.

use phonology::category::{Articulation, Constriction, Place, Region, Rounding, Voicing};
use phonology::language::{init_ipa, Language};
use phonology::phoneme::Phone;
use phonology::quality::PhonemeQuality;
use phonology::sound_change::{SoundChangeDraft, SoundChangeError, SoundChangeRequest};
use phonology::state::State;
use phonology::store::PhonemeStore;
use phonology::ui::{LanguagePaneRole, Selection};

#[test]
fn ipa_chart_has_expected_entries() {
    let mut store = PhonemeStore::new();
    let ipa = init_ipa(&mut store);
    assert_eq!(ipa.name, "IPA");
    let t = ipa
        .consonants
        .get((Articulation::Plosive, Region::Dental, Voicing::Voiceless))
        .unwrap();
    assert_eq!(store.get(t).unwrap().symbol, "t");
    // 't' spans both dental and alveolar tuples.
    assert_eq!(
        ipa.consonants
            .get((Articulation::Plosive, Region::Alveolar, Voicing::Voiceless)),
        Some(t)
    );
    let i = ipa
        .vowels
        .get((Constriction::Close, Place::Front, Rounding::Unrounded))
        .unwrap();
    assert_eq!(store.get(i).unwrap().symbol, "i");
    let schwa = ipa
        .vowels
        .get((Constriction::Mid, Place::Central, Rounding::Rounded))
        .unwrap();
    assert_eq!(store.get(schwa).unwrap().symbol, "\u{259}");
    assert_eq!(ipa.consonants.phonemes().len(), 59);
    assert_eq!(ipa.vowels.phonemes().len(), 28);
}

#[test]
fn default_language_is_untitled_and_empty() {
    let lang = Language::default();
    assert_eq!(lang.name, "Untitled");
    assert!(lang.consonants.phonemes().is_empty());
    assert!(lang.vowels.phonemes().is_empty());
    assert!(lang.sound_changes.is_empty());
}

#[test]
fn dialect_tree_grows_only_downward() {
    let mut state = State::default();
    assert_eq!(state.tree.len(), 1);
    assert_eq!(state.tree.leaf_count(0), 1);
    assert_eq!(state.tree.depth(0), 1);

    let first = state.add_dialect(0);
    assert_eq!(state.tree.len(), 2);
    assert_eq!(first, 1);
    assert_eq!(state.tree.leaf_count(0), 1);
    assert_eq!(state.tree.depth(0), 2);

    let second = state.add_dialect(0);
    assert_eq!(second, 2);
    assert_eq!(state.tree.leaf_count(0), 2);
    assert_eq!(state.tree.depth(0), 2);

    let grandchild = state.add_dialect(first);
    assert_eq!(state.tree.leaf_count(0), 2);
    assert_eq!(state.tree.leaf_count(first), 1);
    assert_eq!(state.tree.depth(0), 3);
    assert_eq!(state.tree.depth(grandchild), 1);
}

#[test]
fn renaming_changes_only_the_name() {
    let mut state = State::default();
    let child = state.add_dialect(0);
    state.tree.rename(child, "Coastal");
    assert_eq!(state.tree.language(child).name, "Coastal");
    assert_eq!(state.tree.language(0).name, "Untitled");
}

#[test]
fn sound_change_source_from_chart_is_declined() {
    let mut draft = SoundChangeDraft::new();
    draft.request = Some(SoundChangeRequest::Src);
    let chart_pick = Selection {
        phoneme: phonology::phoneme::Phoneme::new("t", Phone::consonant()),
        quality: (vec![0], vec![2, 3], vec![0]),
        source: LanguagePaneRole::Ipa,
    };
    let declined = draft.propose(chart_pick);
    assert_eq!(declined, Err(SoundChangeError::InvalidSource));
    assert!(draft.current_src.is_none());
    assert_eq!(draft.request, Some(SoundChangeRequest::Src));
    assert_eq!(
        SoundChangeError::InvalidSource.message(),
        "Sound change's source must be selected from the inventory. Select another phoneme."
    );
}

#[test]
fn sound_change_flow_commits_and_deletes() {
    let mut state = State::default();
    let dialect = state.add_dialect(0);
    let src = state.adopt_consonant(
        0,
        "t",
        Phone::consonant(),
        PhonemeQuality(
            vec![Articulation::Plosive],
            vec![Region::Dental, Region::Alveolar],
            vec![Voicing::Voiceless],
        ),
    );

    let mut draft = SoundChangeDraft::new();
    draft.request = Some(SoundChangeRequest::Src);
    let src_pick = Selection {
        phoneme: state.phonemes.get(src).unwrap().duplicate(),
        quality: (vec![0], vec![2, 3], vec![0]),
        source: LanguagePaneRole::Inventory,
    };
    assert_eq!(draft.propose(src_pick), Ok(()));
    assert_eq!(draft.request, Some(SoundChangeRequest::Dst));

    let dst_pick = Selection {
        phoneme: phonology::phoneme::Phoneme::new("s", Phone::consonant()),
        quality: (vec![4], vec![3], vec![0]),
        source: LanguagePaneRole::Ipa,
    };
    assert_eq!(draft.propose(dst_pick), Ok(()));
    assert!(draft.request.is_none());

    let dst_selection = draft.current_dst.take().unwrap();
    let rule_list_before = state.tree.language(dialect).sound_changes.len();
    let new_dst = state.commit_rule(dialect, src, &dst_selection);
    let dialect_language = state.tree.language(dialect);
    assert_eq!(dialect_language.sound_changes.len(), rule_list_before + 1);
    assert_eq!(dialect_language.sound_changes[0].src, src);
    assert_eq!(dialect_language.sound_changes[0].dst, new_dst);
    assert_eq!(
        dialect_language
            .consonants
            .get((Articulation::Fricative, Region::Alveolar, Voicing::Voiceless)),
        Some(new_dst)
    );
    assert_eq!(state.phonemes.get(new_dst).unwrap().symbol, "s");

    state.delete_rule(dialect, 0);
    let dialect_language = state.tree.language(dialect);
    assert!(dialect_language.sound_changes.is_empty());
    assert_eq!(
        dialect_language
            .consonants
            .get((Articulation::Fricative, Region::Alveolar, Voicing::Voiceless)),
        None
    );
    assert!(state.phonemes.get(new_dst).is_none());
    // The source phoneme belongs to the parent inventory and survives.
    assert!(state.phonemes.get(src).is_some());
}

#[test]
fn adopting_from_the_chart_copies_into_the_inventory() {
    let mut state = State::default();
    let id = state.adopt_vowel(
        0,
        "i",
        Phone::vowel(),
        PhonemeQuality(
            vec![Constriction::Close],
            vec![Place::Front],
            vec![Rounding::Unrounded],
        ),
    );
    let root = state.tree.language(0);
    assert_eq!(
        root.vowels
            .get((Constriction::Close, Place::Front, Rounding::Unrounded)),
        Some(id)
    );
    assert_eq!(state.phonemes.get(id).unwrap().symbol, "i");
    assert_eq!(state.phonemes.get(id).unwrap().id(), id);
}
