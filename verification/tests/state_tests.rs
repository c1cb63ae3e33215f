//! Top-level state behavior: the fresh project, buffer conventions, and
//! interactions that cross the store, tree and alphabets.

use phonology::category::{Articulation, Region, Voicing};
use phonology::phoneme::Phone;
use phonology::quality::PhonemeQuality;
use phonology::sound_change::{SoundChangeDraft, SoundChangeRequest};
use phonology::state::State;
use phonology::ui::{LanguagePaneRole, Selection};

#[test]
fn fresh_project_shape() {
    let state = State::default();
    assert_eq!(state.tree.len(), 1);
    assert_eq!(state.tree.active_node(), 0);
    assert_eq!(state.ipa.name, "IPA");
    assert!(state.buffer.is_none());
    assert!(!state.buffer_state);
    assert_eq!(state.tree.language(0).name, "Untitled");
}

#[test]
fn destination_request_accepts_any_provenance() {
    let mut draft = SoundChangeDraft::new();
    draft.request = Some(SoundChangeRequest::Dst);
    let chart_pick = Selection {
        phoneme: phonology::phoneme::Phoneme::new("z", Phone::consonant()),
        quality: (vec![4], vec![3], vec![1]),
        source: LanguagePaneRole::Ipa,
    };
    assert_eq!(draft.propose(chart_pick), Ok(()));
    assert!(draft.request.is_none());
    assert!(draft.current_dst.is_some());
}

#[test]
fn source_request_accepts_inventory_and_advances() {
    let mut draft = SoundChangeDraft::new();
    draft.request = Some(SoundChangeRequest::Src);
    assert!(SoundChangeRequest::Src.is_valid_source(LanguagePaneRole::Inventory));
    assert!(!SoundChangeRequest::Src.is_valid_source(LanguagePaneRole::Ipa));
    assert!(SoundChangeRequest::Dst.is_valid_source(LanguagePaneRole::Ipa));
    let pick = Selection {
        phoneme: phonology::phoneme::Phoneme::new("t", Phone::consonant()),
        quality: (vec![0], vec![3], vec![0]),
        source: LanguagePaneRole::Inventory,
    };
    assert_eq!(draft.propose(pick), Ok(()));
    assert_eq!(draft.request, Some(SoundChangeRequest::Dst));
    assert!(draft.current_src.is_some());
}

#[test]
fn adopting_touches_only_the_chosen_dialect() {
    let mut state = State::default();
    let child = state.add_dialect(0);
    state.adopt_consonant(
        child,
        "k",
        Phone::consonant(),
        PhonemeQuality(
            vec![Articulation::Plosive],
            vec![Region::Velar],
            vec![Voicing::Voiceless],
        ),
    );
    assert!(state.tree.language(0).consonants.phonemes().is_empty());
    assert_eq!(state.tree.language(child).consonants.phonemes().len(), 1);
}

#[test]
fn tree_structure_reports_parents_and_children() {
    let mut state = State::default();
    let a = state.add_dialect(0);
    let b = state.add_dialect(0);
    let c = state.add_dialect(a);
    assert_eq!(state.tree.parent(0), None);
    assert_eq!(state.tree.parent(a), Some(0));
    assert_eq!(state.tree.parent(b), Some(0));
    assert_eq!(state.tree.parent(c), Some(a));
    assert_eq!(state.tree.children(0), vec![a, b]);
    assert_eq!(state.tree.children(a), vec![c]);
    assert!(state.tree.children(b).is_empty());
    assert!(state.tree.is_descendant(c, 0));
    assert!(state.tree.is_descendant(c, a));
    assert!(!state.tree.is_descendant(c, b));
    state.tree.set_active(b);
    assert_eq!(state.tree.active_node(), b);
}
