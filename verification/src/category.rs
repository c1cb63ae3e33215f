//! The category lattice: closed enumerations of linguistic feature values and
//! the three-tier capability relationship (outer/inner/pair) that lets the
//! same generic machinery serve consonants (articulation, region, voicing)
//! and vowels (constriction, place, rounding).

use vstd::prelude::*;

verus! {

/// A feature-axis value: a member of a small closed enumeration with a stable
/// integer index (the wire format for raw persistence), total enumeration of
/// its variants, and a human-readable name.
///
/// The stable variant ordering given by `idx` must never change, since raw
/// indices are the persisted representation of feature values.
pub trait Category: Sized + Copy {
    /// The number of variants of this axis type.
    spec fn card() -> nat;

    /// The stable index of this value within its axis type.
    spec fn idx(self) -> nat;

    /// The display name of this value.
    spec fn name_spec(self) -> Seq<char>;

    /// Every axis type has at least one variant.
    proof fn lemma_card_positive()
        ensures
            Self::card() > 0,
    ;

    /// Indices lie below the cardinality.
    proof fn lemma_idx_bounded(self)
        ensures
            self.idx() < Self::card(),
    ;

    /// The index determines the value.
    proof fn lemma_idx_injective(self, other: Self)
        ensures
            self.idx() == other.idx() ==> self == other,
    ;

    /// The number of variants, as a machine integer.
    fn cardinality() -> (n: usize)
        ensures
            n as nat == Self::card(),
    ;

    /// The stable index, as a machine integer.
    fn index(self) -> (i: usize)
        ensures
            i as nat == self.idx(),
    ;

    /// The value with the given stable index, or `None` if the index does not
    /// denote a variant of this axis type.
    fn from_index(i: usize) -> (r: Option<Self>)
        ensures
            (i as nat) < Self::card() ==> r is Some && r.unwrap().idx() == i as nat,
            (i as nat) >= Self::card() ==> r is None,
    ;

    /// All variants of this axis type, in stable index order.
    fn all() -> (r: Vec<Self>)
        ensures
            r@.len() == Self::card(),
            forall|k: int| 0 <= k < r@.len() ==> (#[trigger] r@[k]).idx() == k as nat,
    ;

    /// Value equality.
    fn same(self, other: Self) -> (r: bool)
        ensures
            r == (self == other),
    ;

    /// The display name.
    fn name(self) -> (r: String)
        ensures
            r@ == self.name_spec(),
    ;
}

/// Any value of an axis type is listed in `Category::all`.
pub proof fn lemma_all_contains<T: Category>(r: Seq<T>, x: T)
    requires
        r.len() == T::card(),
        forall|k: int| 0 <= k < r.len() ==> (#[trigger] r[k]).idx() == k as nat,
    ensures
        r.contains(x),
{
    x.lemma_idx_bounded();
    let k = x.idx() as int;
    x.lemma_idx_injective(r[k]);
    assert(r[k] == x);
}

/// The innermost axis role (voicing, rounding): no further constraints.
pub trait Pair: Category {

}

/// The middle axis role (region, place), parameterized by its pair axis.
pub trait Inner<A: Pair>: Category {

}

/// The outermost axis role (articulation, constriction), parameterized by its
/// inner and pair axes.
pub trait Outer<A: Inner<B>, B: Pair>: Category {

}

/// A display color used when rendering an inventory grid cell; the concrete
/// color values belong to the presentation layer.
#[derive(Clone, Copy, PartialEq, Eq, Structural, Debug)]
pub enum ColorTone {
    Gold,
    Red,
    LightBlue,
    Blue,
}

/// An axis type whose values carry a display color.
pub trait CategoryColor {
    /// The color associated with this value.
    spec fn color_spec(&self) -> ColorTone;

    /// Returns the color associated with this value.
    fn as_color(&self) -> (r: ColorTone)
        ensures
            r == self.color_spec(),
    ;
}

/// Manner of articulation for consonants.
#[derive(Clone, Copy, PartialEq, Eq, Structural, Hash, Debug)]
pub enum Articulation {
    Plosive,
    Nasal,
    Trill,
    Flap,
    Fricative,
    LateralFricative,
    Approximant,
    LateralApproximant,
}

impl Category for Articulation {
    open spec fn card() -> nat {
        8
    }

    open spec fn idx(self) -> nat {
        match self {
            Articulation::Plosive => 0,
            Articulation::Nasal => 1,
            Articulation::Trill => 2,
            Articulation::Flap => 3,
            Articulation::Fricative => 4,
            Articulation::LateralFricative => 5,
            Articulation::Approximant => 6,
            Articulation::LateralApproximant => 7,
        }
    }

    open spec fn name_spec(self) -> Seq<char> {
        match self {
            Articulation::Plosive => "Plosive"@,
            Articulation::Nasal => "Nasal"@,
            Articulation::Trill => "Trill"@,
            Articulation::Flap => "Tap"@,
            Articulation::Fricative => "Fricative"@,
            Articulation::LateralFricative => "Lateral Fricative"@,
            Articulation::Approximant => "Approximant"@,
            Articulation::LateralApproximant => "Lateral Approximant"@,
        }
    }

    proof fn lemma_card_positive() {
    }

    proof fn lemma_idx_bounded(self) {
    }

    proof fn lemma_idx_injective(self, other: Self) {
    }

    fn cardinality() -> usize {
        8
    }

    fn index(self) -> usize {
        match self {
            Articulation::Plosive => 0,
            Articulation::Nasal => 1,
            Articulation::Trill => 2,
            Articulation::Flap => 3,
            Articulation::Fricative => 4,
            Articulation::LateralFricative => 5,
            Articulation::Approximant => 6,
            Articulation::LateralApproximant => 7,
        }
    }

    fn from_index(i: usize) -> Option<Self> {
        match i {
            0 => Some(Articulation::Plosive),
            1 => Some(Articulation::Nasal),
            2 => Some(Articulation::Trill),
            3 => Some(Articulation::Flap),
            4 => Some(Articulation::Fricative),
            5 => Some(Articulation::LateralFricative),
            6 => Some(Articulation::Approximant),
            7 => Some(Articulation::LateralApproximant),
            _ => None,
        }
    }

    fn all() -> Vec<Self> {
        let r: Vec<Self> = vec![
            Articulation::Plosive,
            Articulation::Nasal,
            Articulation::Trill,
            Articulation::Flap,
            Articulation::Fricative,
            Articulation::LateralFricative,
            Articulation::Approximant,
            Articulation::LateralApproximant,
        ];
        r
    }

    fn same(self, other: Self) -> bool {
        self == other
    }

    fn name(self) -> String {
        match self {
            Articulation::Plosive => "Plosive".to_owned(),
            Articulation::Nasal => "Nasal".to_owned(),
            Articulation::Trill => "Trill".to_owned(),
            Articulation::Flap => "Tap".to_owned(),
            Articulation::Fricative => "Fricative".to_owned(),
            Articulation::LateralFricative => "Lateral Fricative".to_owned(),
            Articulation::Approximant => "Approximant".to_owned(),
            Articulation::LateralApproximant => "Lateral Approximant".to_owned(),
        }
    }
}

impl Outer<Region, Voicing> for Articulation {

}

/// Place of articulation for consonants.
#[derive(Clone, Copy, PartialEq, Eq, Structural, Hash, Debug)]
pub enum Region {
    Bilabial,
    Labiodental,
    Dental,
    Alveolar,
    Post,
    Retroflex,
    Palatal,
    Velar,
    Uvular,
    Pharyngeal,
    Glottal,
}

impl Category for Region {
    open spec fn card() -> nat {
        11
    }

    open spec fn idx(self) -> nat {
        match self {
            Region::Bilabial => 0,
            Region::Labiodental => 1,
            Region::Dental => 2,
            Region::Alveolar => 3,
            Region::Post => 4,
            Region::Retroflex => 5,
            Region::Palatal => 6,
            Region::Velar => 7,
            Region::Uvular => 8,
            Region::Pharyngeal => 9,
            Region::Glottal => 10,
        }
    }

    open spec fn name_spec(self) -> Seq<char> {
        match self {
            Region::Bilabial => "Bilabial"@,
            Region::Labiodental => "Labiodental"@,
            Region::Dental => "Dental"@,
            Region::Alveolar => "Alveolar"@,
            Region::Post => "Post Alveolar"@,
            Region::Retroflex => "Retroflex"@,
            Region::Palatal => "Palatal"@,
            Region::Velar => "Velar"@,
            Region::Uvular => "Uvular"@,
            Region::Pharyngeal => "Pharyngeal"@,
            Region::Glottal => "Glottal"@,
        }
    }

    proof fn lemma_card_positive() {
    }

    proof fn lemma_idx_bounded(self) {
    }

    proof fn lemma_idx_injective(self, other: Self) {
    }

    fn cardinality() -> usize {
        11
    }

    fn index(self) -> usize {
        match self {
            Region::Bilabial => 0,
            Region::Labiodental => 1,
            Region::Dental => 2,
            Region::Alveolar => 3,
            Region::Post => 4,
            Region::Retroflex => 5,
            Region::Palatal => 6,
            Region::Velar => 7,
            Region::Uvular => 8,
            Region::Pharyngeal => 9,
            Region::Glottal => 10,
        }
    }

    fn from_index(i: usize) -> Option<Self> {
        match i {
            0 => Some(Region::Bilabial),
            1 => Some(Region::Labiodental),
            2 => Some(Region::Dental),
            3 => Some(Region::Alveolar),
            4 => Some(Region::Post),
            5 => Some(Region::Retroflex),
            6 => Some(Region::Palatal),
            7 => Some(Region::Velar),
            8 => Some(Region::Uvular),
            9 => Some(Region::Pharyngeal),
            10 => Some(Region::Glottal),
            _ => None,
        }
    }

    fn all() -> Vec<Self> {
        let r: Vec<Self> = vec![
            Region::Bilabial,
            Region::Labiodental,
            Region::Dental,
            Region::Alveolar,
            Region::Post,
            Region::Retroflex,
            Region::Palatal,
            Region::Velar,
            Region::Uvular,
            Region::Pharyngeal,
            Region::Glottal,
        ];
        r
    }

    fn same(self, other: Self) -> bool {
        self == other
    }

    fn name(self) -> String {
        match self {
            Region::Bilabial => "Bilabial".to_owned(),
            Region::Labiodental => "Labiodental".to_owned(),
            Region::Dental => "Dental".to_owned(),
            Region::Alveolar => "Alveolar".to_owned(),
            Region::Post => "Post Alveolar".to_owned(),
            Region::Retroflex => "Retroflex".to_owned(),
            Region::Palatal => "Palatal".to_owned(),
            Region::Velar => "Velar".to_owned(),
            Region::Uvular => "Uvular".to_owned(),
            Region::Pharyngeal => "Pharyngeal".to_owned(),
            Region::Glottal => "Glottal".to_owned(),
        }
    }
}

impl Inner<Voicing> for Region {

}

/// Voicing for consonants.
#[derive(Clone, Copy, PartialEq, Eq, Structural, Hash, Debug)]
pub enum Voicing {
    Voiceless,
    Voiced,
}

impl Category for Voicing {
    open spec fn card() -> nat {
        2
    }

    open spec fn idx(self) -> nat {
        match self {
            Voicing::Voiceless => 0,
            Voicing::Voiced => 1,
        }
    }

    open spec fn name_spec(self) -> Seq<char> {
        match self {
            Voicing::Voiceless => "Unvoiced"@,
            Voicing::Voiced => "Voiced"@,
        }
    }

    proof fn lemma_card_positive() {
    }

    proof fn lemma_idx_bounded(self) {
    }

    proof fn lemma_idx_injective(self, other: Self) {
    }

    fn cardinality() -> usize {
        2
    }

    fn index(self) -> usize {
        match self {
            Voicing::Voiceless => 0,
            Voicing::Voiced => 1,
        }
    }

    fn from_index(i: usize) -> Option<Self> {
        match i {
            0 => Some(Voicing::Voiceless),
            1 => Some(Voicing::Voiced),
            _ => None,
        }
    }

    fn all() -> Vec<Self> {
        let r: Vec<Self> = vec![Voicing::Voiceless, Voicing::Voiced];
        r
    }

    fn same(self, other: Self) -> bool {
        self == other
    }

    fn name(self) -> String {
        match self {
            Voicing::Voiceless => "Unvoiced".to_owned(),
            Voicing::Voiced => "Voiced".to_owned(),
        }
    }
}

impl Pair for Voicing {

}

impl CategoryColor for Voicing {
    open spec fn color_spec(&self) -> ColorTone {
        match self {
            Voicing::Voiceless => ColorTone::Gold,
            Voicing::Voiced => ColorTone::Red,
        }
    }

    fn as_color(&self) -> ColorTone {
        match self {
            Voicing::Voiceless => ColorTone::Gold,
            Voicing::Voiced => ColorTone::Red,
        }
    }
}

/// Degree of constriction for vowels.
#[derive(Clone, Copy, PartialEq, Eq, Structural, Hash, Debug)]
pub enum Constriction {
    Close,
    CloseNear,
    CloseMid,
    Mid,
    OpenMid,
    OpenNear,
    Open,
}

impl Category for Constriction {
    open spec fn card() -> nat {
        7
    }

    open spec fn idx(self) -> nat {
        match self {
            Constriction::Close => 0,
            Constriction::CloseNear => 1,
            Constriction::CloseMid => 2,
            Constriction::Mid => 3,
            Constriction::OpenMid => 4,
            Constriction::OpenNear => 5,
            Constriction::Open => 6,
        }
    }

    open spec fn name_spec(self) -> Seq<char> {
        match self {
            Constriction::Close => "Close"@,
            Constriction::CloseNear => "Near-Close"@,
            Constriction::CloseMid => "Close-Mid"@,
            Constriction::Mid => "Mid"@,
            Constriction::OpenMid => "Open-Mid"@,
            Constriction::OpenNear => "Near-Open"@,
            Constriction::Open => "Open"@,
        }
    }

    proof fn lemma_card_positive() {
    }

    proof fn lemma_idx_bounded(self) {
    }

    proof fn lemma_idx_injective(self, other: Self) {
    }

    fn cardinality() -> usize {
        7
    }

    fn index(self) -> usize {
        match self {
            Constriction::Close => 0,
            Constriction::CloseNear => 1,
            Constriction::CloseMid => 2,
            Constriction::Mid => 3,
            Constriction::OpenMid => 4,
            Constriction::OpenNear => 5,
            Constriction::Open => 6,
        }
    }

    fn from_index(i: usize) -> Option<Self> {
        match i {
            0 => Some(Constriction::Close),
            1 => Some(Constriction::CloseNear),
            2 => Some(Constriction::CloseMid),
            3 => Some(Constriction::Mid),
            4 => Some(Constriction::OpenMid),
            5 => Some(Constriction::OpenNear),
            6 => Some(Constriction::Open),
            _ => None,
        }
    }

    fn all() -> Vec<Self> {
        let r: Vec<Self> = vec![
            Constriction::Close,
            Constriction::CloseNear,
            Constriction::CloseMid,
            Constriction::Mid,
            Constriction::OpenMid,
            Constriction::OpenNear,
            Constriction::Open,
        ];
        r
    }

    fn same(self, other: Self) -> bool {
        self == other
    }

    fn name(self) -> String {
        match self {
            Constriction::Close => "Close".to_owned(),
            Constriction::CloseNear => "Near-Close".to_owned(),
            Constriction::CloseMid => "Close-Mid".to_owned(),
            Constriction::Mid => "Mid".to_owned(),
            Constriction::OpenMid => "Open-Mid".to_owned(),
            Constriction::OpenNear => "Near-Open".to_owned(),
            Constriction::Open => "Open".to_owned(),
        }
    }
}

impl Outer<Place, Rounding> for Constriction {

}

/// Tongue position for vowels.
#[derive(Clone, Copy, PartialEq, Eq, Structural, Hash, Debug)]
pub enum Place {
    Front,
    Central,
    Back,
}

impl Category for Place {
    open spec fn card() -> nat {
        3
    }

    open spec fn idx(self) -> nat {
        match self {
            Place::Front => 0,
            Place::Central => 1,
            Place::Back => 2,
        }
    }

    open spec fn name_spec(self) -> Seq<char> {
        match self {
            Place::Front => "Front"@,
            Place::Central => "Central"@,
            Place::Back => "Back"@,
        }
    }

    proof fn lemma_card_positive() {
    }

    proof fn lemma_idx_bounded(self) {
    }

    proof fn lemma_idx_injective(self, other: Self) {
    }

    fn cardinality() -> usize {
        3
    }

    fn index(self) -> usize {
        match self {
            Place::Front => 0,
            Place::Central => 1,
            Place::Back => 2,
        }
    }

    fn from_index(i: usize) -> Option<Self> {
        match i {
            0 => Some(Place::Front),
            1 => Some(Place::Central),
            2 => Some(Place::Back),
            _ => None,
        }
    }

    fn all() -> Vec<Self> {
        let r: Vec<Self> = vec![Place::Front, Place::Central, Place::Back];
        r
    }

    fn same(self, other: Self) -> bool {
        self == other
    }

    fn name(self) -> String {
        match self {
            Place::Front => "Front".to_owned(),
            Place::Central => "Central".to_owned(),
            Place::Back => "Back".to_owned(),
        }
    }
}

impl Inner<Rounding> for Place {

}

/// Lip rounding for vowels.
#[derive(Clone, Copy, PartialEq, Eq, Structural, Hash, Debug)]
pub enum Rounding {
    Unrounded,
    Rounded,
}

impl Category for Rounding {
    open spec fn card() -> nat {
        2
    }

    open spec fn idx(self) -> nat {
        match self {
            Rounding::Unrounded => 0,
            Rounding::Rounded => 1,
        }
    }

    open spec fn name_spec(self) -> Seq<char> {
        match self {
            Rounding::Unrounded => "Unrounded"@,
            Rounding::Rounded => "Rounded"@,
        }
    }

    proof fn lemma_card_positive() {
    }

    proof fn lemma_idx_bounded(self) {
    }

    proof fn lemma_idx_injective(self, other: Self) {
    }

    fn cardinality() -> usize {
        2
    }

    fn index(self) -> usize {
        match self {
            Rounding::Unrounded => 0,
            Rounding::Rounded => 1,
        }
    }

    fn from_index(i: usize) -> Option<Self> {
        match i {
            0 => Some(Rounding::Unrounded),
            1 => Some(Rounding::Rounded),
            _ => None,
        }
    }

    fn all() -> Vec<Self> {
        let r: Vec<Self> = vec![Rounding::Unrounded, Rounding::Rounded];
        r
    }

    fn same(self, other: Self) -> bool {
        self == other
    }

    fn name(self) -> String {
        match self {
            Rounding::Unrounded => "Unrounded".to_owned(),
            Rounding::Rounded => "Rounded".to_owned(),
        }
    }
}

impl Pair for Rounding {

}

impl CategoryColor for Rounding {
    open spec fn color_spec(&self) -> ColorTone {
        match self {
            Rounding::Unrounded => ColorTone::LightBlue,
            Rounding::Rounded => ColorTone::Blue,
        }
    }

    fn as_color(&self) -> ColorTone {
        match self {
            Rounding::Unrounded => ColorTone::LightBlue,
            Rounding::Rounded => ColorTone::Blue,
        }
    }
}

} // verus!
