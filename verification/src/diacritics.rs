//! Diacritic and modifier offerings: which decorations the tool offers for
//! a phoneme of a given quality, including the one genuinely algorithmic
//! rule, affrication candidates: fricative partners with matching voicing
//! drawn from the reference alphabet.

use vstd::prelude::*;

use crate::alphabet::Alphabet;
use crate::category::{Articulation, Category, Constriction, Place, Region, Rounding, Voicing};
use crate::phoneme::{Phone, Phoneme};
use crate::quality::{matches_views, PhonemeQuality};
use crate::store::{Id, PhonemeStore};
use crate::text::{contains_seq, contains_substring, remove_all_seq, remove_matches_str};

verus! {

/// One offered modifier: the restriction under which it is offered, the
/// symbol it applies, and its human-readable description.
pub type Modifier<A, B, C> = (PhonemeQuality<A, B, C>, String, String);

/// What applying a modifier does to a phoneme.
#[derive(Clone, Copy, PartialEq, Eq, Structural, Debug)]
pub enum DiacriticAction {
    /// Sets the consonant's affricated symbol.
    Affricate,
    /// Sets the consonant's regionalized symbol.
    Regionalize,
    /// Appends the symbol onto the base symbol as a diacritic.
    AppendSymbol,
}

/// Whether a group offers one modifier at a time or many independently.
#[derive(Clone, Copy, PartialEq, Eq, Structural, Debug)]
pub enum DiacriticsBehavior {
    Single,
    Multiple,
}

/// A group of modifiers offered together under one category heading.
pub struct Diacritics<A: Category, B: Category, C: Category> {
    pub category: String,
    pub contents: Vec<Modifier<A, B, C>>,
    pub action: DiacriticAction,
    pub behavior: DiacriticsBehavior,
    pub prepend_blank: bool,
}

/// Whether the given modifier is present on the phoneme: for the two
/// consonant slots, whether the slot is set; for an appended diacritic,
/// whether the symbol occurs in the rendered form.
pub open spec fn modifier_present_spec(
    phoneme: Phoneme,
    action: DiacriticAction,
    symbol: Seq<char>,
) -> bool {
    match action {
        DiacriticAction::Affricate => phoneme.phone.affrication() is Some,
        DiacriticAction::Regionalize => phoneme.phone.regionalization() is Some,
        DiacriticAction::AppendSymbol => contains_seq(phoneme.display_spec(), symbol),
    }
}

/// Applies a modifier to a phoneme. The two consonant slots may only be set
/// on a consonant: doing so on a vowel is a contract violation.
pub fn apply_modifier(phoneme: &mut Phoneme, action: DiacriticAction, symbol: &str)
    requires
        !(action is AppendSymbol) ==> old(phoneme).phone is Consonant,
    ensures
        final(phoneme).grapheme == old(phoneme).grapheme,
        final(phoneme).identified() == old(phoneme).identified(),
        final(phoneme).spec_id() == old(phoneme).spec_id(),
        action is Affricate ==> final(phoneme).symbol == old(phoneme).symbol && final(phoneme).phone is Consonant && final(phoneme).phone.affrication() == Some(symbol@) && final(phoneme).phone.regionalization() == old(phoneme).phone.regionalization(),
        action is Regionalize ==> final(phoneme).symbol == old(phoneme).symbol && final(phoneme).phone is Consonant && final(phoneme).phone.regionalization() == Some(symbol@) && final(phoneme).phone.affrication() == old(phoneme).phone.affrication(),
        action is AppendSymbol ==> final(phoneme).symbol@ == old(phoneme).symbol@ + symbol@
            && final(phoneme).phone == old(phoneme).phone,
{
    match action {
        DiacriticAction::Affricate => phoneme.phone.affricate(symbol),
        DiacriticAction::Regionalize => phoneme.phone.regionalize(symbol),
        DiacriticAction::AppendSymbol => phoneme.add_diacritic(symbol),
    }
}

/// Whether the given modifier is present on the phoneme. Testing a consonant
/// slot on a vowel is a contract violation.
pub fn modifier_present(phoneme: &Phoneme, action: DiacriticAction, symbol: &str) -> (r: bool)
    requires
        !(action is AppendSymbol) ==> phoneme.phone is Consonant,
    ensures
        r == modifier_present_spec(*phoneme, action, symbol@),
{
    match action {
        DiacriticAction::Affricate => match &phoneme.phone {
            Phone::Consonant { affricated, .. } => affricated.is_some(),
            Phone::Vowel => unreached(),
        },
        DiacriticAction::Regionalize => match &phoneme.phone {
            Phone::Consonant { regionalized, .. } => regionalized.is_some(),
            Phone::Vowel => unreached(),
        },
        DiacriticAction::AppendSymbol => {
            let rendered = phoneme.display_string();
            contains_substring(rendered.as_str(), symbol)
        },
    }
}

/// Removes a modifier from a phoneme: unsets the consonant slot, or deletes
/// every occurrence of the appended symbol from the base symbol. Clearing a
/// consonant slot on a vowel is a contract violation.
pub fn remove_modifier(phoneme: &mut Phoneme, action: DiacriticAction, symbol: &str)
    requires
        !(action is AppendSymbol) ==> old(phoneme).phone is Consonant,
    ensures
        final(phoneme).grapheme == old(phoneme).grapheme,
        final(phoneme).identified() == old(phoneme).identified(),
        final(phoneme).spec_id() == old(phoneme).spec_id(),
        action is Affricate ==> final(phoneme).symbol == old(phoneme).symbol && final(phoneme).phone is Consonant && final(phoneme).phone.affrication() is None && final(phoneme).phone.regionalization() == old(phoneme).phone.regionalization(),
        action is Regionalize ==> final(phoneme).symbol == old(phoneme).symbol && final(phoneme).phone is Consonant && final(phoneme).phone.regionalization() is None && final(phoneme).phone.affrication() == old(phoneme).phone.affrication(),
        action is AppendSymbol ==> final(phoneme).symbol@ == remove_all_seq(
            old(phoneme).symbol@,
            symbol@,
        ) && final(phoneme).phone == old(phoneme).phone,
{
    match action {
        DiacriticAction::Affricate => phoneme.phone.clear_affrication(),
        DiacriticAction::Regionalize => phoneme.phone.clear_regionalization(),
        DiacriticAction::AppendSymbol => {
            let trimmed = remove_matches_str(phoneme.symbol.as_str(), symbol);
            phoneme.symbol = trimmed;
        },
    }
}

/// Every variant of the axis type except the listed ones.
pub fn excl<T: Category>(excluding: &Vec<T>) -> (r: Vec<T>)
    ensures
        forall|x: T| #[trigger] r@.contains(x) <==> !excluding@.contains(x),
        r@.no_duplicates(),
{
    let all = T::all();
    let mut r: Vec<T> = Vec::new();
    let mut i: usize = 0;
    while i < all.len()
        invariant
            all@.len() == T::card(),
            forall|k: int| 0 <= k < all@.len() ==> (#[trigger] all@[k]).idx() == k as nat,
            i <= all@.len(),
            forall|x: T|
                #[trigger] r@.contains(x) <==> ((x.idx() as int) < i && !excluding@.contains(x)),
            r@.no_duplicates(),
        decreases all@.len() - i,
    {
        let ghost prev = r@;
        let candidate = all[i];
        proof {
            assert(candidate.idx() == i as nat);
        }
        if !crate::quality::vec_has(excluding, candidate) {
            r.push(candidate);
            proof {
                assert forall|x: T|
                    #[trigger] r@.contains(x) <==> ((x.idx() as int) < i + 1
                        && !excluding@.contains(x)) by {
                    x.lemma_idx_injective(candidate);
                    if r@.contains(x) {
                        let k = choose|k: int| 0 <= k < r@.len() && r@[k] == x;
                        if k < prev.len() {
                            assert(prev.contains(x));
                        } else {
                            assert(x == candidate);
                        }
                    }
                    if (x.idx() as int) < i + 1 && !excluding@.contains(x) {
                        if (x.idx() as int) < i {
                            assert(prev.contains(x));
                            let k = choose|k: int| 0 <= k < prev.len() && prev[k] == x;
                            assert(r@[k] == x);
                        } else {
                            assert(x == candidate);
                            assert(r@[r@.len() - 1] == x);
                        }
                    }
                }
                assert forall|k1: int, k2: int|
                    0 <= k1 < k2 < r@.len() implies r@[k1] != r@[k2] by {
                    if k2 == r@.len() - 1 {
                        if prev[k1] == candidate {
                            assert(prev.contains(candidate));
                        }
                    }
                }
            }
        } else {
            proof {
                assert forall|x: T|
                    #[trigger] r@.contains(x) <==> ((x.idx() as int) < i + 1
                        && !excluding@.contains(x)) by {
                    x.lemma_idx_injective(candidate);
                }
            }
        }
        i += 1;
    }
    proof {
        assert forall|x: T|
            #[trigger] r@.contains(x) <==> !excluding@.contains(x) by {
            x.lemma_idx_bounded();
        }
    }
    r
}

/// Builds one modifier entry from its restriction, symbol and description.
pub fn trans<A: Category, B: Category, C: Category>(
    restriction: PhonemeQuality<A, B, C>,
    symbol: &str,
    desc: &str,
) -> (r: Modifier<A, B, C>)
    ensures
        r.0 == restriction,
        r.1@ == symbol@,
        r.2@ == desc@,
{
    (restriction, symbol.to_owned(), desc.to_owned())
}

/// The human-readable label of a region list: the region names joined with
/// a slash.
pub open spec fn region_label_spec(regions: Seq<Region>) -> Seq<char>
    decreases regions.len(),
{
    if regions.len() == 0 {
        Seq::empty()
    } else if regions.len() == 1 {
        regions[0].name_spec()
    } else {
        region_label_spec(regions.drop_last()) + "/"@ + regions.last().name_spec()
    }
}

/// Joins the region names with a slash.
fn region_label(regions: &Vec<Region>) -> (r: String)
    ensures
        r@ == region_label_spec(regions@),
{
    let mut r = String::new();
    let mut i: usize = 0;
    while i < regions.len()
        invariant
            i <= regions@.len(),
            r@ == region_label_spec(regions@.subrange(0, i as int)),
        decreases regions@.len() - i,
    {
        let ghost prefix = regions@.subrange(0, i as int);
        if i > 0 {
            r.append("/");
        }
        let name = regions[i].name();
        r.append(name.as_str());
        proof {
            let next = regions@.subrange(0, i + 1);
            assert(next.drop_last() =~= prefix);
            assert(next.last() == regions@[i as int]);
            if i == 0 {
                assert(prefix.len() == 0);
                assert(r@ == region_label_spec(next));
            }
        }
        i += 1;
    }
    proof {
        assert(regions@.subrange(0, regions@.len() as int) =~= regions@);
    }
    r
}

/// Whether the phoneme `id` of the reference alphabet is an affrication
/// partner for a plosive of the given voicing: its articulation is
/// fricative or lateral fricative, its region is unrestricted, and its
/// voicing matches.
pub open spec fn is_affrication_candidate(
    ipa: Alphabet<Articulation, Region, Voicing>,
    voicing: Voicing,
    id: Id,
) -> bool {
    &&& ipa.qmap().contains_key(id)
    &&& matches_views(
        ipa.qmap()[id].0@,
        ipa.qmap()[id].1@,
        ipa.qmap()[id].2@,
        seq![Articulation::Fricative, Articulation::LateralFricative],
        Seq::<Region>::empty(),
        seq![voicing],
    )
}

/// The affrication offering lists exactly the candidates: entry `k` names
/// candidate `ids[k]`, displays its rendered symbol, describes it by its
/// regions joined with a slash, and carries a blank restriction; every
/// candidate of the reference alphabet is listed, and none twice.
pub open spec fn affrication_contents_ok(
    phonemes: PhonemeStore,
    ipa: Alphabet<Articulation, Region, Voicing>,
    voicing: Voicing,
    ids: Seq<Id>,
    contents: Seq<Modifier<Articulation, Region, Voicing>>,
) -> bool {
    &&& contents.len() == ids.len()
    &&& ids.no_duplicates()
    &&& forall|k: int|
        0 <= k < ids.len() ==> {
            let id = #[trigger] ids[k];
            &&& is_affrication_candidate(ipa, voicing, id)
            &&& phonemes.contains_id(id)
            &&& contents[k].0.is_blank()
            &&& contents[k].1@ == phonemes.phoneme_at(id).display_spec()
            &&& contents[k].2@ == region_label_spec(ipa.qmap()[id].1@)
        }
    &&& forall|id: Id| #[trigger] is_affrication_candidate(ipa, voicing, id) ==> ids.contains(id)
}

/// Lists the affricate partner offerings for a plosive of the given
/// voicing: each fricative or lateral fricative of the reference alphabet
/// with that voicing, rendered and labelled by its regions.
fn affrication_contents(
    phonemes: &PhonemeStore,
    ipa: &Alphabet<Articulation, Region, Voicing>,
    voicing: Voicing,
) -> (r: (Vec<Modifier<Articulation, Region, Voicing>>, Ghost<Seq<Id>>))
    requires
        ipa.wf(),
        forall|id: Id| #[trigger] ipa.qmap().contains_key(id) ==> phonemes.contains_id(id),
    ensures
        affrication_contents_ok(*phonemes, *ipa, voicing, r.1@, r.0@),
{
    let mut a: Vec<Articulation> = Vec::new();
    a.push(Articulation::Fricative);
    a.push(Articulation::LateralFricative);
    let mut c: Vec<Voicing> = Vec::new();
    c.push(voicing);
    let query = PhonemeQuality(a, Vec::new(), c);
    proof {
        assert(query.0@ =~= seq![Articulation::Fricative, Articulation::LateralFricative]);
        assert(query.1@ =~= Seq::<Region>::empty());
        assert(query.2@ =~= seq![voicing]);
    }
    let ids = ipa.select_phonemes(&query);
    let mut r: Vec<Modifier<Articulation, Region, Voicing>> = Vec::new();
    let mut k: usize = 0;
    while k < ids.len()
        invariant
            ipa.wf(),
            forall|id: Id| #[trigger] ipa.qmap().contains_key(id) ==> phonemes.contains_id(id),
            forall|id: Id|
                #[trigger] ids@.contains(id) <==> (ipa.qmap().contains_key(id)
                    && is_affrication_candidate(*ipa, voicing, id)),
            ids@.no_duplicates(),
            k <= ids@.len(),
            r@.len() == k,
            forall|n: int|
                0 <= n < k ==> {
                    let id = #[trigger] ids@[n];
                    &&& is_affrication_candidate(*ipa, voicing, id)
                    &&& phonemes.contains_id(id)
                    &&& r@[n].0.is_blank()
                    &&& r@[n].1@ == phonemes.phoneme_at(id).display_spec()
                    &&& r@[n].2@ == region_label_spec(ipa.qmap()[id].1@)
                },
        decreases ids@.len() - k,
    {
        let id = ids[k];
        proof {
            assert(ids@.contains(ids@[k as int]));
        }
        let quality = match ipa.get_quality(id) {
            Some(q) => q,
            None => unreached(),
        };
        let phoneme = match phonemes.get(id) {
            Some(p) => p,
            None => unreached(),
        };
        let symbol = phoneme.display_string();
        let label = region_label(&quality.1);
        r.push((PhonemeQuality::blank(), symbol, label));
        k += 1;
    }
    proof {
        assert(affrication_contents_ok(*phonemes, *ipa, voicing, ids@, r@)) by {
            assert forall|id: Id|
                #[trigger] is_affrication_candidate(*ipa, voicing, id) implies ids@.contains(
                id,
            ) by {
                assert(ipa.qmap().contains_key(id));
            }
        }
    }
    (r, Ghost(ids@))
}


/// The modifier entry applies `symbol`, described as `desc`.
pub open spec fn entry_text<A: Category, B: Category, C: Category>(
    m: Modifier<A, B, C>,
    symbol: Seq<char>,
    desc: Seq<char>,
) -> bool {
    m.1@ == symbol && m.2@ == desc
}

/// The modifier entry is offered unconditionally: its restriction is blank.
pub open spec fn unrestricted_entry<A: Category, B: Category, C: Category>(
    m: Modifier<A, B, C>,
    symbol: Seq<char>,
    desc: Seq<char>,
) -> bool {
    entry_text(m, symbol, desc) && m.0.is_blank()
}

/// The modifier entry restricts only the middle axis, to every value except
/// those in `kept_out`.
pub open spec fn excl_middle_entry<A: Category, B: Category, C: Category>(
    m: Modifier<A, B, C>,
    symbol: Seq<char>,
    desc: Seq<char>,
    kept_out: Seq<B>,
) -> bool {
    &&& entry_text(m, symbol, desc)
    &&& m.0.0@.len() == 0
    &&& m.0.2@.len() == 0
    &&& forall|x: B| #[trigger] m.0.1@.contains(x) <==> !kept_out.contains(x)
}

/// The modifier entry restricts only the outer axis, to every value except
/// those in `kept_out`.
pub open spec fn excl_outer_entry<A: Category, B: Category, C: Category>(
    m: Modifier<A, B, C>,
    symbol: Seq<char>,
    desc: Seq<char>,
    kept_out: Seq<A>,
) -> bool {
    &&& entry_text(m, symbol, desc)
    &&& m.0.1@.len() == 0
    &&& m.0.2@.len() == 0
    &&& forall|x: A| #[trigger] m.0.0@.contains(x) <==> !kept_out.contains(x)
}

/// The modifier entry restricts only the innermost axis, to the listed
/// values.
pub open spec fn inner_entry<A: Category, B: Category, C: Category>(
    m: Modifier<A, B, C>,
    symbol: Seq<char>,
    desc: Seq<char>,
    inner: Seq<C>,
) -> bool {
    &&& entry_text(m, symbol, desc)
    &&& m.0.0@.len() == 0
    &&& m.0.1@.len() == 0
    &&& m.0.2@ == inner
}

/// The modifier entry restricts only the outer axis, to the listed values.
pub open spec fn outer_entry<A: Category, B: Category, C: Category>(
    m: Modifier<A, B, C>,
    symbol: Seq<char>,
    desc: Seq<char>,
    outer: Seq<A>,
) -> bool {
    &&& entry_text(m, symbol, desc)
    &&& m.0.1@.len() == 0
    &&& m.0.2@.len() == 0
    &&& m.0.0@ == outer
}

/// The modifier groups offered for a consonant of the given quality: an
/// affrication group when its articulation includes the plosive (listing
/// exactly the affrication candidates of the reference alphabet for its
/// first voicing value), the regional-lean symbols, and the quality
/// diacritics. Static entries carry exclusion restrictions; the labialized
/// entry, for instance, is offered for every region except the two labial
/// ones.
pub fn modifiers_consonants(
    phonemes: &PhonemeStore,
    ipa: &Alphabet<Articulation, Region, Voicing>,
    quality: &PhonemeQuality<Articulation, Region, Voicing>,
) -> (r: Vec<Diacritics<Articulation, Region, Voicing>>)
    requires
        ipa.wf(),
        quality.2@.len() > 0,
        forall|id: Id| #[trigger] ipa.qmap().contains_key(id) ==> phonemes.contains_id(id),
    ensures
        ({
            let offset: int = if quality.0@.contains(Articulation::Plosive) {
                1
            } else {
                0
            };
            &&& r@.len() == 2 + offset
            &&& (quality.0@.contains(Articulation::Plosive) ==> {
                &&& r@[0].category@ == "Affrication"@
                &&& r@[0].action is Affricate
                &&& r@[0].behavior is Single
                &&& !r@[0].prepend_blank
                &&& exists|ids: Seq<Id>|
                    affrication_contents_ok(
                        *phonemes,
                        *ipa,
                        quality.2@[0],
                        ids,
                        r@[0].contents@,
                    )
            })
            &&& r@[offset].category@ == "Regional Lean"@
            &&& r@[offset].action is Regionalize
            &&& r@[offset].behavior is Single
            &&& r@[offset].prepend_blank
            &&& r@[offset].contents@.len() == 8
            &&& ({
                let lean = r@[offset].contents@;
                &&& unrestricted_entry(lean[0], "\u{2b0}"@, "Aspirated"@)
                &&& excl_middle_entry(
                    lean[1],
                    "\u{2b7}"@,
                    "Labialized"@,
                    seq![Region::Bilabial, Region::Labiodental],
                )
                &&& excl_middle_entry(lean[2], "\u{2b2}"@, "Palatalized"@, seq![Region::Palatal])
                &&& excl_middle_entry(lean[3], "\u{2e0}"@, "Velarized"@, seq![Region::Velar])
                &&& excl_middle_entry(
                    lean[4],
                    "\u{2e4}"@,
                    "Pharyngealized"@,
                    seq![Region::Pharyngeal],
                )
                &&& excl_middle_entry(lean[5], "\u{2c0}"@, "Glottalized"@, seq![Region::Glottal])
                &&& unrestricted_entry(lean[6], "\u{207f}"@, "Nasal Release"@)
                &&& unrestricted_entry(lean[7], "\u{2e1}"@, "Lateral Release"@)
            })
            &&& r@[offset + 1].category@ == "Quality"@
            &&& r@[offset + 1].action is AppendSymbol
            &&& r@[offset + 1].behavior is Multiple
            &&& r@[offset + 1].prepend_blank
            &&& r@[offset + 1].contents@.len() == 15
            &&& ({
                let marks = r@[offset + 1].contents@;
                &&& inner_entry(marks[0], "\u{30a}"@, "Voiceless"@, seq![Voicing::Voiced])
                &&& inner_entry(marks[1], "\u{32c}"@, "Voiced"@, seq![Voicing::Voiceless])
                &&& unrestricted_entry(marks[2], "\u{31f}"@, "Advanced"@)
                &&& unrestricted_entry(marks[3], "\u{320}"@, "Retracted"@)
                &&& unrestricted_entry(marks[4], "\u{324}"@, "Breathy"@)
                &&& unrestricted_entry(marks[5], "\u{330}"@, "Creaky"@)
                &&& unrestricted_entry(marks[6], "\u{33c}"@, "Linguolabial"@)
                &&& excl_middle_entry(
                    marks[7],
                    "\u{334}"@,
                    "Velarized or Pharyngealized"@,
                    seq![Region::Velar, Region::Pharyngeal],
                )
                &&& unrestricted_entry(marks[8], "\u{31d}"@, "Raised"@)
                &&& unrestricted_entry(marks[9], "\u{31e}"@, "Lowered"@)
                &&& excl_middle_entry(marks[10], "\u{32a}"@, "Dental"@, seq![Region::Dental])
                &&& unrestricted_entry(marks[11], "\u{33a}"@, "Apical"@)
                &&& unrestricted_entry(marks[12], "\u{33b}"@, "Laminal"@)
                &&& outer_entry(marks[13], "\u{33a}"@, "Applosive"@, seq![Articulation::Plosive])
                &&& excl_outer_entry(
                    marks[14],
                    "\u{33b}"@,
                    "Syllabic"@,
                    seq![
                        Articulation::Plosive,
                        Articulation::Fricative,
                        Articulation::LateralFricative,
                    ],
                )
            })
        }),
{
    let mut r: Vec<Diacritics<Articulation, Region, Voicing>> = Vec::new();
    let has_plosive = crate::quality::vec_has(&quality.0, Articulation::Plosive);
    let ghost first_voicing = quality.2@[0];
    let ghost witness: Seq<Id> = Seq::empty();
    if has_plosive {
        let (contents, ids) = affrication_contents(phonemes, ipa, quality.2[0]);
        proof {
            witness = ids@;
        }
        r.push(
            Diacritics {
                category: "Affrication".to_owned(),
                contents,
                action: DiacriticAction::Affricate,
                behavior: DiacriticsBehavior::Single,
                prepend_blank: false,
            },
        );
    }
    let mut lean: Vec<Modifier<Articulation, Region, Voicing>> = Vec::new();
    lean.push(trans(PhonemeQuality::blank(), "\u{2b0}", "Aspirated"));
    let mut not_labial: Vec<Region> = Vec::new();
    not_labial.push(Region::Bilabial);
    not_labial.push(Region::Labiodental);
    proof {
        assert(not_labial@ =~= seq![Region::Bilabial, Region::Labiodental]);
    }
    let labialized_regions = excl::<Region>(&not_labial);
    lean.push(
        trans(
            PhonemeQuality(Vec::new(), labialized_regions, Vec::new()),
            "\u{2b7}",
            "Labialized",
        ),
    );
    let mut single: Vec<Region> = Vec::new();
    single.push(Region::Palatal);
    proof {
        assert(single@ =~= seq![Region::Palatal]);
    }
    lean.push(
        trans(PhonemeQuality(Vec::new(), excl::<Region>(&single), Vec::new()), "\u{2b2}", "Palatalized"),
    );
    let mut single: Vec<Region> = Vec::new();
    single.push(Region::Velar);
    proof {
        assert(single@ =~= seq![Region::Velar]);
    }
    lean.push(
        trans(PhonemeQuality(Vec::new(), excl::<Region>(&single), Vec::new()), "\u{2e0}", "Velarized"),
    );
    let mut single: Vec<Region> = Vec::new();
    single.push(Region::Pharyngeal);
    proof {
        assert(single@ =~= seq![Region::Pharyngeal]);
    }
    lean.push(
        trans(
            PhonemeQuality(Vec::new(), excl::<Region>(&single), Vec::new()),
            "\u{2e4}",
            "Pharyngealized",
        ),
    );
    let mut single: Vec<Region> = Vec::new();
    single.push(Region::Glottal);
    proof {
        assert(single@ =~= seq![Region::Glottal]);
    }
    lean.push(
        trans(PhonemeQuality(Vec::new(), excl::<Region>(&single), Vec::new()), "\u{2c0}", "Glottalized"),
    );
    lean.push(trans(PhonemeQuality::blank(), "\u{207f}", "Nasal Release"));
    lean.push(trans(PhonemeQuality::blank(), "\u{2e1}", "Lateral Release"));
    r.push(
        Diacritics {
            category: "Regional Lean".to_owned(),
            contents: lean,
            action: DiacriticAction::Regionalize,
            behavior: DiacriticsBehavior::Single,
            prepend_blank: true,
        },
    );
    let mut marks: Vec<Modifier<Articulation, Region, Voicing>> = Vec::new();
    let mut voiced: Vec<Voicing> = Vec::new();
    voiced.push(Voicing::Voiced);
    proof {
        assert(voiced@ =~= seq![Voicing::Voiced]);
    }
    marks.push(trans(PhonemeQuality(Vec::new(), Vec::new(), voiced), "\u{30a}", "Voiceless"));
    let mut voiceless: Vec<Voicing> = Vec::new();
    voiceless.push(Voicing::Voiceless);
    proof {
        assert(voiceless@ =~= seq![Voicing::Voiceless]);
    }
    marks.push(trans(PhonemeQuality(Vec::new(), Vec::new(), voiceless), "\u{32c}", "Voiced"));
    marks.push(trans(PhonemeQuality::blank(), "\u{31f}", "Advanced"));
    marks.push(trans(PhonemeQuality::blank(), "\u{320}", "Retracted"));
    marks.push(trans(PhonemeQuality::blank(), "\u{324}", "Breathy"));
    marks.push(trans(PhonemeQuality::blank(), "\u{330}", "Creaky"));
    marks.push(trans(PhonemeQuality::blank(), "\u{33c}", "Linguolabial"));
    let mut velar_pharyngeal: Vec<Region> = Vec::new();
    velar_pharyngeal.push(Region::Velar);
    velar_pharyngeal.push(Region::Pharyngeal);
    proof {
        assert(velar_pharyngeal@ =~= seq![Region::Velar, Region::Pharyngeal]);
    }
    marks.push(
        trans(
            PhonemeQuality(Vec::new(), excl::<Region>(&velar_pharyngeal), Vec::new()),
            "\u{334}",
            "Velarized or Pharyngealized",
        ),
    );
    marks.push(trans(PhonemeQuality::blank(), "\u{31d}", "Raised"));
    marks.push(trans(PhonemeQuality::blank(), "\u{31e}", "Lowered"));
    let mut dental: Vec<Region> = Vec::new();
    dental.push(Region::Dental);
    proof {
        assert(dental@ =~= seq![Region::Dental]);
    }
    marks.push(
        trans(PhonemeQuality(Vec::new(), excl::<Region>(&dental), Vec::new()), "\u{32a}", "Dental"),
    );
    marks.push(trans(PhonemeQuality::blank(), "\u{33a}", "Apical"));
    marks.push(trans(PhonemeQuality::blank(), "\u{33b}", "Laminal"));
    let mut plosive_only: Vec<Articulation> = Vec::new();
    plosive_only.push(Articulation::Plosive);
    proof {
        assert(plosive_only@ =~= seq![Articulation::Plosive]);
    }
    marks.push(
        trans(PhonemeQuality(plosive_only, Vec::new(), Vec::new()), "\u{33a}", "Applosive"),
    );
    let mut stops: Vec<Articulation> = Vec::new();
    stops.push(Articulation::Plosive);
    stops.push(Articulation::Fricative);
    stops.push(Articulation::LateralFricative);
    proof {
        assert(stops@ =~= seq![
            Articulation::Plosive,
            Articulation::Fricative,
            Articulation::LateralFricative,
        ]);
    }
    marks.push(
        trans(
            PhonemeQuality(excl::<Articulation>(&stops), Vec::new(), Vec::new()),
            "\u{33b}",
            "Syllabic",
        ),
    );
    r.push(
        Diacritics {
            category: "Quality".to_owned(),
            contents: marks,
            action: DiacriticAction::AppendSymbol,
            behavior: DiacriticsBehavior::Multiple,
            prepend_blank: true,
        },
    );
    proof {
        if quality.0@.contains(Articulation::Plosive) {
            assert(affrication_contents_ok(
                *phonemes,
                *ipa,
                first_voicing,
                witness,
                r@[0].contents@,
            ));
        }
    }
    r
}

/// The modifier groups offered for a vowel of the given quality: the vowel
/// quality diacritics alone.
pub fn modifiers_vowels(
    _phonemes: &PhonemeStore,
    _ipa: &Alphabet<Constriction, Place, Rounding>,
    _quality: &PhonemeQuality<Constriction, Place, Rounding>,
) -> (r: Vec<Diacritics<Constriction, Place, Rounding>>)
    ensures
        r@.len() == 1,
        r@[0].category@ == "Quality"@,
        r@[0].action is AppendSymbol,
        r@[0].behavior is Multiple,
        r@[0].prepend_blank,
        r@[0].contents@.len() == 9,
        ({
            let marks = r@[0].contents@;
            &&& inner_entry(marks[0], "\u{339}"@, "Rounded"@, seq![Rounding::Unrounded])
            &&& inner_entry(marks[1], "\u{339}"@, "Rounded"@, seq![Rounding::Rounded])
            &&& excl_middle_entry(marks[2], "\u{308}"@, "Centralized"@, seq![Place::Central])
            &&& entry_text(marks[3], "\u{33d}"@, "Mid-Centralized"@)
            &&& marks[3].0.2@.len() == 0
            &&& (forall|x: Constriction|
                #[trigger] marks[3].0.0@.contains(x) <==> !seq![Constriction::Mid].contains(x))
            &&& (forall|x: Place|
                #[trigger] marks[3].0.1@.contains(x) <==> !seq![Place::Central].contains(x))
            &&& unrestricted_entry(marks[4], "\u{32f}"@, "Non-Syllabic"@)
            &&& unrestricted_entry(marks[5], "\u{303}"@, "Nasal"@)
            &&& unrestricted_entry(marks[6], "\u{318}"@, "Advanced Tongue Root"@)
            &&& unrestricted_entry(marks[7], "\u{319}"@, "Retracted Tongue Root"@)
            &&& unrestricted_entry(marks[8], "\u{2de}"@, "R-Colored"@)
        }),
{
    let mut marks: Vec<Modifier<Constriction, Place, Rounding>> = Vec::new();
    let mut unrounded: Vec<Rounding> = Vec::new();
    unrounded.push(Rounding::Unrounded);
    proof {
        assert(unrounded@ =~= seq![Rounding::Unrounded]);
    }
    marks.push(trans(PhonemeQuality(Vec::new(), Vec::new(), unrounded), "\u{339}", "Rounded"));
    let mut rounded: Vec<Rounding> = Vec::new();
    rounded.push(Rounding::Rounded);
    proof {
        assert(rounded@ =~= seq![Rounding::Rounded]);
    }
    marks.push(trans(PhonemeQuality(Vec::new(), Vec::new(), rounded), "\u{339}", "Rounded"));
    let mut central: Vec<Place> = Vec::new();
    central.push(Place::Central);
    proof {
        assert(central@ =~= seq![Place::Central]);
    }
    marks.push(
        trans(PhonemeQuality(Vec::new(), excl::<Place>(&central), Vec::new()), "\u{308}", "Centralized"),
    );
    let mut mid: Vec<Constriction> = Vec::new();
    mid.push(Constriction::Mid);
    let mut central2: Vec<Place> = Vec::new();
    central2.push(Place::Central);
    proof {
        assert(mid@ =~= seq![Constriction::Mid]);
        assert(central2@ =~= seq![Place::Central]);
    }
    marks.push(
        trans(
            PhonemeQuality(excl::<Constriction>(&mid), excl::<Place>(&central2), Vec::new()),
            "\u{33d}",
            "Mid-Centralized",
        ),
    );
    marks.push(trans(PhonemeQuality::blank(), "\u{32f}", "Non-Syllabic"));
    marks.push(trans(PhonemeQuality::blank(), "\u{303}", "Nasal"));
    marks.push(trans(PhonemeQuality::blank(), "\u{318}", "Advanced Tongue Root"));
    marks.push(trans(PhonemeQuality::blank(), "\u{319}", "Retracted Tongue Root"));
    marks.push(trans(PhonemeQuality::blank(), "\u{2de}", "R-Colored"));
    r_vowels(marks)
}

/// The indices of the modifiers in a group that are offered for a phoneme
/// of the given quality: exactly those whose restriction the quality
/// matches, in order.
pub fn offered_modifiers<A: Category, B: Category, C: Category>(
    group: &Diacritics<A, B, C>,
    quality: &PhonemeQuality<A, B, C>,
) -> (r: Vec<usize>)
    ensures
        forall|k: int|
            0 <= k < r@.len() ==> (#[trigger] r@[k]) < group.contents@.len()
                && quality.matches_spec(group.contents@[r@[k] as int].0),
        forall|n: int|
            0 <= n < group.contents@.len() && quality.matches_spec(
                (#[trigger] group.contents@[n]).0,
            ) ==> r@.contains(n as usize),
{
    let mut r: Vec<usize> = Vec::new();
    let mut n: usize = 0;
    while n < group.contents.len()
        invariant
            n <= group.contents@.len(),
            forall|k: int|
                0 <= k < r@.len() ==> (#[trigger] r@[k]) < n && quality.matches_spec(
                    group.contents@[r@[k] as int].0,
                ),
            forall|m: int|
                0 <= m < n && quality.matches_spec((#[trigger] group.contents@[m]).0)
                    ==> r@.contains(m as usize),
        decreases group.contents@.len() - n,
    {
        let ghost prev = r@;
        if quality.meets_restrictions(&group.contents[n].0) {
            r.push(n);
            proof {
                assert forall|m: int|
                    0 <= m < n + 1 && quality.matches_spec(
                        (#[trigger] group.contents@[m]).0,
                    ) implies r@.contains(m as usize) by {
                    if m < n {
                        assert(prev.contains(m as usize));
                        let k = choose|k: int| 0 <= k < prev.len() && prev[k] == m as usize;
                        assert(r@[k] == m as usize);
                    } else {
                        assert(r@[r@.len() - 1] == n);
                    }
                }
            }
        } else {
            proof {
                assert forall|m: int|
                    0 <= m < n + 1 && quality.matches_spec(
                        (#[trigger] group.contents@[m]).0,
                    ) implies r@.contains(m as usize) by {
                    assert(m < n);
                }
            }
        }
        n += 1;
    }
    r
}

/// Wraps the vowel quality marks in their group.
fn r_vowels(marks: Vec<Modifier<Constriction, Place, Rounding>>) -> (r: Vec<
    Diacritics<Constriction, Place, Rounding>,
>)
    ensures
        r@.len() == 1,
        r@[0].category@ == "Quality"@,
        r@[0].action is AppendSymbol,
        r@[0].behavior is Multiple,
        r@[0].prepend_blank,
        r@[0].contents@ == marks@,
{
    let mut r: Vec<Diacritics<Constriction, Place, Rounding>> = Vec::new();
    r.push(
        Diacritics {
            category: "Quality".to_owned(),
            contents: marks,
            action: DiacriticAction::AppendSymbol,
            behavior: DiacriticsBehavior::Multiple,
            prepend_blank: true,
        },
    );
    r
}

} // verus!
