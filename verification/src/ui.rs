//! Identifiers and small state carriers for the presentation shell: pane
//! identities, the roles a language pane can play, and the font catalogue.
//! The rendering itself lives outside this crate; these types carry the
//! domain-relevant decisions.

use vstd::prelude::*;

use crate::category::{Category, CategoryColor, ColorTone};
use crate::phoneme::Phoneme;
use crate::quality::PhonemeQuality;

verus! {

/// The embedded IPA-capable fonts the shell can load.
#[derive(Clone, Copy, PartialEq, Eq, Structural, Debug)]
pub enum Font {
    GentiumPlus,
    Andika,
    CharisSIL,
    DoulosSIL,
}

impl Font {
    /// The file name of this font's data.
    pub open spec fn filename_spec(self) -> Seq<char> {
        match self {
            Font::GentiumPlus => "GentiumPlus.ttf"@,
            Font::Andika => "Andika.ttf"@,
            Font::CharisSIL => "CharisSIL.ttf"@,
            Font::DoulosSIL => "DoulosSIL.ttf"@,
        }
    }

    /// The display name of this font.
    pub open spec fn name_spec(self) -> Seq<char> {
        match self {
            Font::GentiumPlus => "Gentium Plus"@,
            Font::Andika => "Andika"@,
            Font::CharisSIL => "Charis SIL"@,
            Font::DoulosSIL => "Doulos SIL"@,
        }
    }

    /// The file name of this font's data, which must match the shipped font
    /// assets.
    pub fn as_filename(&self) -> (r: &'static str)
        ensures
            r@ == self.filename_spec(),
    {
        match self {
            Font::GentiumPlus => "GentiumPlus.ttf",
            Font::Andika => "Andika.ttf",
            Font::CharisSIL => "CharisSIL.ttf",
            Font::DoulosSIL => "DoulosSIL.ttf",
        }
    }

    /// The display name of this font.
    pub fn name(&self) -> (r: &'static str)
        ensures
            r@ == self.name_spec(),
    {
        match self {
            Font::GentiumPlus => "Gentium Plus",
            Font::Andika => "Andika",
            Font::CharisSIL => "Charis SIL",
            Font::DoulosSIL => "Doulos SIL",
        }
    }
}

/// The dockable panes of the shell.
#[derive(Clone, Copy, PartialEq, Eq, Structural, Debug)]
pub enum PaneId {
    Inventory,
    Ipa,
    Romanization,
    Lexicon,
    SoundChange,
    Dialects,
}

/// Where a phoneme selection originated: the editable inventory, or the
/// read-only IPA reference chart.
#[derive(Clone, Copy, PartialEq, Eq, Structural, Debug)]
pub enum LanguagePaneRole {
    Inventory,
    Ipa,
}

/// A language pane: either the editable inventory view or the IPA source
/// chart.
pub struct LanguagePane {
    pub role: LanguagePaneRole,
}

impl LanguagePane {
    /// Creates a pane with the given role.
    pub fn new(role: LanguagePaneRole) -> (r: Self)
        ensures
            r.role == role,
    {
        LanguagePane { role }
    }
}

/// The shading decision for one inventory grid cell.
#[derive(Clone, Copy, PartialEq, Eq, Structural, Debug)]
pub enum CellShade {
    /// No phoneme occupies the cell: the window background shows through.
    Background,
    /// The phoneme spans several values of the innermost axis: a mixed
    /// neutral shade.
    Mixed,
    /// The phoneme has a single innermost value: that value's color.
    Tone(ColorTone),
}

/// Decides the shading of a grid cell from the occupant's quality, if any.
/// A present quality must carry at least one innermost value.
pub fn cell_shade<A: Category, B: Category, C: Category + CategoryColor>(
    quality: Option<&PhonemeQuality<A, B, C>>,
) -> (r: CellShade)
    requires
        quality matches Some(q) ==> q.2@.len() > 0,
    ensures
        match quality {
            Some(q) => if q.2@.len() > 1 {
                r is Mixed
            } else {
                r == CellShade::Tone(q.2@[0].color_spec())
            },
            None => r is Background,
        },
{
    match quality {
        Some(q) => {
            if q.2.len() > 1 {
                CellShade::Mixed
            } else {
                let c = q.2[0];
                CellShade::Tone(c.as_color())
            }
        },
        None => CellShade::Background,
    }
}

/// The text shown in an inventory cell: the rendered phoneme, followed by
/// the user's grapheme in brackets when one is set and differs from the
/// rendering.
pub open spec fn cell_label_spec(display: Seq<char>, grapheme: Seq<char>) -> Seq<char> {
    if grapheme.len() == 0 || display == grapheme {
        display
    } else {
        display + " ["@ + grapheme + "]"@
    }
}

/// Renders the inventory cell text for a phoneme.
pub fn inventory_cell_label(phoneme: &Phoneme) -> (r: String)
    ensures
        r@ == cell_label_spec(phoneme.display_spec(), phoneme.grapheme@),
{
    let mut contents = phoneme.display_string();
    if phoneme.grapheme.as_str().is_empty() || contents == phoneme.grapheme {
        contents
    } else {
        contents.append(" [");
        contents.append(phoneme.grapheme.as_str());
        contents.append("]");
        contents
    }
}

/// A transient selection made by the user: a phoneme, the raw form of the
/// quality it was selected under, and the provenance role it came from.
pub struct Selection {
    pub phoneme: Phoneme,
    pub quality: (Vec<usize>, Vec<usize>, Vec<usize>),
    pub source: LanguagePaneRole,
}

/// The lexicon pane; it carries no state.
pub struct LexiconPane;

/// The romanization pane; it carries no state.
pub struct RomanizationPane;

} // verus!
