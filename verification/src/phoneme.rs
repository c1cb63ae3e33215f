//! Phones and phonemes: the identity and display state of a single sound.
//! A phoneme owns a base symbol (onto which diacritics are appended), an
//! optional user-assigned grapheme, and a phone-kind-specific sub-state
//! (consonant modifiers: affrication and regionalization).

use vstd::prelude::*;
use vstd::string::StringExecFns;

use crate::store::{Id, IdStamp};

verus! {

/// Clones an optional string, preserving its contents.
fn clone_opt_string(o: &Option<String>) -> (r: Option<String>)
    ensures
        r is Some <==> *o is Some,
        r is Some ==> r.unwrap()@ == o.unwrap()@,
{
    match o {
        Some(s) => Some(s.clone()),
        None => None,
    }
}

/// The kind-specific state of a sound: consonants carry two independent,
/// optional derived symbols (affrication and regionalization); vowels carry
/// no extra state.
pub enum Phone {
    Consonant { affricated: Option<String>, regionalized: Option<String> },
    Vowel,
}

impl Phone {
    /// The contents of the affrication slot, for a consonant.
    pub open spec fn affrication(self) -> Option<Seq<char>> {
        match self {
            Phone::Consonant { affricated: Some(s), .. } => Some(s@),
            _ => None,
        }
    }

    /// The contents of the regionalization slot, for a consonant.
    pub open spec fn regionalization(self) -> Option<Seq<char>> {
        match self {
            Phone::Consonant { regionalized: Some(s), .. } => Some(s@),
            _ => None,
        }
    }

    /// Observational equivalence: same kind and same modifier contents.
    pub open spec fn eqv(self, other: Phone) -> bool {
        &&& (self is Consonant) == (other is Consonant)
        &&& self.affrication() == other.affrication()
        &&& self.regionalization() == other.regionalization()
    }

    /// A plain consonant phone, with no modifiers.
    pub fn consonant() -> (r: Phone)
        ensures
            r is Consonant,
            r.affrication() is None,
            r.regionalization() is None,
    {
        Phone::Consonant { affricated: None, regionalized: None }
    }

    /// A vowel phone.
    pub fn vowel() -> (r: Phone)
        ensures
            r == Phone::Vowel,
    {
        Phone::Vowel
    }

    /// Sets or overwrites the regionalized symbol. Consonant-only: calling
    /// this on a vowel is a contract violation.
    pub fn regionalize(&mut self, symbol: &str)
        requires
            *old(self) is Consonant,
        ensures
            *final(self) is Consonant,
            final(self).regionalization() == Some(symbol@),
            final(self).affrication() == old(self).affrication(),
    {
        let affricated = match &*self {
            Phone::Consonant { affricated, .. } => clone_opt_string(affricated),
            Phone::Vowel => None,
        };
        *self = Phone::Consonant { affricated, regionalized: Some(symbol.to_owned()) };
    }

    /// Sets or overwrites the affricated symbol. Consonant-only: calling
    /// this on a vowel is a contract violation.
    pub fn affricate(&mut self, symbol: &str)
        requires
            *old(self) is Consonant,
        ensures
            *final(self) is Consonant,
            final(self).affrication() == Some(symbol@),
            final(self).regionalization() == old(self).regionalization(),
    {
        let regionalized = match &*self {
            Phone::Consonant { regionalized, .. } => clone_opt_string(regionalized),
            Phone::Vowel => None,
        };
        *self = Phone::Consonant { affricated: Some(symbol.to_owned()), regionalized };
    }

    /// Unsets the affricated symbol; a no-op if it is already unset.
    pub fn clear_affrication(&mut self)
        requires
            *old(self) is Consonant,
        ensures
            *final(self) is Consonant,
            final(self).affrication() is None,
            final(self).regionalization() == old(self).regionalization(),
    {
        let regionalized = match &*self {
            Phone::Consonant { regionalized, .. } => clone_opt_string(regionalized),
            Phone::Vowel => None,
        };
        *self = Phone::Consonant { affricated: None, regionalized };
    }

    /// Unsets the regionalized symbol; a no-op if it is already unset.
    pub fn clear_regionalization(&mut self)
        requires
            *old(self) is Consonant,
        ensures
            *final(self) is Consonant,
            final(self).regionalization() is None,
            final(self).affrication() == old(self).affrication(),
    {
        let affricated = match &*self {
            Phone::Consonant { affricated, .. } => clone_opt_string(affricated),
            Phone::Vowel => None,
        };
        *self = Phone::Consonant { affricated, regionalized: None };
    }

    /// Clones this phone, preserving its observable state.
    pub fn duplicate(&self) -> (r: Phone)
        ensures
            r.eqv(*self),
    {
        match self {
            Phone::Consonant { affricated, regionalized } => Phone::Consonant {
                affricated: clone_opt_string(affricated),
                regionalized: clone_opt_string(regionalized),
            },
            Phone::Vowel => Phone::Vowel,
        }
    }
}

/// A single sound: a base symbol (diacritics are appended onto it directly),
/// a user orthography (empty means unset), the phone state, and an identity
/// that is stamped exactly once, when the phoneme enters the store.
pub struct Phoneme {
    pub symbol: String,
    pub grapheme: String,
    pub phone: Phone,
    pub stamp: IdStamp,
}

impl Phoneme {
    /// Whether the identity has been stamped.
    pub open spec fn identified(self) -> bool {
        self.stamp.is_stamped()
    }

    /// The stamped identity.
    pub open spec fn spec_id(self) -> Id
        recommends
            self.identified(),
    {
        self.stamp.spec_id()
    }

    /// Observational equivalence: same symbol, grapheme, phone state and
    /// identity.
    pub open spec fn eqv(self, other: Phoneme) -> bool {
        &&& self.symbol@ == other.symbol@
        &&& self.grapheme@ == other.grapheme@
        &&& self.phone.eqv(other.phone)
        &&& self.identified() == other.identified()
        &&& self.identified() ==> self.spec_id() == other.spec_id()
    }

    /// The rendered form of this phoneme: the base symbol, then the
    /// regionalized symbol if present, then, if affricated, a combining
    /// tie bar followed by the affricated symbol.
    pub open spec fn display_spec(self) -> Seq<char> {
        match self.phone {
            Phone::Consonant { affricated, regionalized } => self.symbol@ + (match regionalized {
                Some(r) => r@,
                None => Seq::<char>::empty(),
            }) + (match affricated {
                Some(a) => seq!['\u{361}'] + a@,
                None => Seq::<char>::empty(),
            }),
            Phone::Vowel => self.symbol@,
        }
    }

    /// Creates an unidentified phoneme with an empty grapheme.
    pub fn new(symbol: &str, phone: Phone) -> (r: Phoneme)
        ensures
            r.symbol@ == symbol@,
            r.grapheme@ == Seq::<char>::empty(),
            r.phone == phone,
            !r.identified(),
    {
        Phoneme {
            symbol: symbol.to_owned(),
            grapheme: String::new(),
            phone,
            stamp: IdStamp::unstamped(),
        }
    }

    /// Stamps the identity assigned by the store. Stamping twice is a
    /// contract violation.
    pub fn set_id(&mut self, id: Id)
        requires
            !old(self).identified(),
        ensures
            final(self).identified(),
            final(self).spec_id() == id,
            final(self).symbol == old(self).symbol,
            final(self).grapheme == old(self).grapheme,
            final(self).phone == old(self).phone,
    {
        self.stamp.stamp(id);
    }

    /// Whether the identity has been stamped.
    pub fn is_identified(&self) -> (r: bool)
        ensures
            r == self.identified(),
    {
        self.stamp.is_stamped_exec()
    }

    /// The stamped identity. Reading it before it is stamped is a contract
    /// violation.
    pub fn id(&self) -> (r: Id)
        requires
            self.identified(),
        ensures
            r == self.spec_id(),
    {
        self.stamp.read()
    }

    /// Appends a diacritic directly onto the base symbol.
    pub fn add_diacritic(&mut self, diacritic: &str)
        ensures
            final(self).symbol@ == old(self).symbol@ + diacritic@,
            final(self).grapheme == old(self).grapheme,
            final(self).phone == old(self).phone,
            final(self).identified() == old(self).identified(),
            final(self).spec_id() == old(self).spec_id(),
    {
        self.symbol.append(diacritic);
    }

    /// Replaces the user-assigned grapheme.
    pub fn set_grapheme(&mut self, grapheme: &str)
        ensures
            final(self).grapheme@ == grapheme@,
            final(self).symbol == old(self).symbol,
            final(self).phone == old(self).phone,
            final(self).identified() == old(self).identified(),
            final(self).spec_id() == old(self).spec_id(),
    {
        self.grapheme = grapheme.to_owned();
    }

    /// Renders this phoneme for display.
    pub fn display_string(&self) -> (r: String)
        ensures
            r@ == self.display_spec(),
    {
        let mut r = self.symbol.clone();
        match &self.phone {
            Phone::Consonant { affricated, regionalized } => {
                if let Some(reg) = regionalized {
                    r.append(reg.as_str());
                }
                if let Some(aff) = affricated {
                    let tie = "\u{0361}";
                    proof {
                        reveal_strlit("\u{0361}");
                        assert(tie@ =~= seq!['\u{361}']);
                    }
                    r.append(tie);
                    r.append(aff.as_str());
                }
            },
            Phone::Vowel => {},
        }
        r
    }

    /// Clones this phoneme, preserving its observable state.
    pub fn duplicate(&self) -> (r: Phoneme)
        ensures
            r.eqv(*self),
    {
        Phoneme {
            symbol: self.symbol.clone(),
            grapheme: self.grapheme.clone(),
            phone: self.phone.duplicate(),
            stamp: self.stamp,
        }
    }
}

} // verus!
