//! Which of the two fonts draws a character: the primary font wherever it has
//! a glyph of its own, the fallback (emoji) font otherwise.
use vstd::prelude::*;
use fontdue::Font;

verus! {

#[verifier::external_type_specification]
#[verifier::external_body]
pub struct ExFont(Font);

/// The glyph index that `font` maps `character` to, 0 (the ".notdef"
/// placeholder) where the font has no glyph of its own for it.
pub uninterp spec fn glyph_index_of(font: Font, character: char) -> u16;

/// Relies on fontdue's `Font::lookup_glyph_index`: a lookup of the character
/// in the font's fixed character-to-glyph table, 0 where it is absent.
pub assume_specification[ Font::lookup_glyph_index ](font: &Font, character: char) -> (r: u16)
    ensures
        r == glyph_index_of(*font, character),
;

/// One of the two fonts of a `FontPair`.
#[derive(Debug, Clone, Copy, PartialEq, Eq, Structural)]
pub enum FontChoice {
    /// The general-purpose text font.
    Primary,
    /// The colour emoji font.
    Fallback,
}

/// The font, and the glyph in it, that draws a character whose glyph index is
/// `primary` in the primary font and `fallback` in the fallback font.
pub open spec fn glyph_choice(primary: u16, fallback: u16) -> (FontChoice, u16) {
    if primary != 0 {
        (FontChoice::Primary, primary)
    } else {
        (FontChoice::Fallback, fallback)
    }
}

/// Chooses the font for a character from its glyph index in each font: the
/// primary font unless it only has the placeholder glyph.
pub fn choose_glyph(primary: u16, fallback: u16) -> (r: (FontChoice, u16))
    ensures
        r == glyph_choice(primary, fallback),
{
    if primary != 0 {
        (FontChoice::Primary, primary)
    } else {
        (FontChoice::Fallback, fallback)
    }
}

/// A character with a real glyph in the primary font is always drawn with
/// it; one that only the fallback font has always goes to the fallback font.
pub proof fn primary_glyphs_never_fall_back(primary: u16, fallback: u16)
    ensures
        primary != 0 ==> glyph_choice(primary, fallback) == (FontChoice::Primary, primary),
        primary == 0 ==> glyph_choice(primary, fallback) == (FontChoice::Fallback, fallback),
{
}

/// The two fonts that label text is drawn with.
#[derive(Clone, Copy)]
pub struct FontPair<'a> {
    /// Font for ordinary text.
    pub main: &'a Font,
    /// Font for what the main font lacks, emoji above all.
    pub emoji: &'a Font,
}

impl<'a> FontPair<'a> {
    /// The font that draws `c`: the main font wherever it has a glyph for it.
    pub open spec fn font_for_char_spec(&self, c: char) -> &'a Font {
        if glyph_index_of(*self.main, c) != 0 {
            self.main
        } else {
            self.emoji
        }
    }

    /// The font, and its glyph index, that draws `c`.
    pub fn select(&self, c: char) -> (r: (FontChoice, u16))
        ensures
            r == glyph_choice(glyph_index_of(*self.main, c), glyph_index_of(*self.emoji, c)),
    {
        let primary = self.main.lookup_glyph_index(c);
        let fallback = self.emoji.lookup_glyph_index(c);
        choose_glyph(primary, fallback)
    }

    /// The font that draws `c`.
    pub fn get_font_for_char(&self, c: char) -> (r: &'a Font)
        ensures
            r == self.font_for_char_spec(c),
            glyph_index_of(*self.main, c) != 0 ==> r == self.main,
            glyph_index_of(*self.main, c) == 0 ==> r == self.emoji,
    {
        match self.select(c).0 {
            FontChoice::Primary => self.main,
            FontChoice::Fallback => self.emoji,
        }
    }
}

/// A character that the main font has a glyph for is drawn with the main
/// font; any other character goes to the emoji font.
pub proof fn main_font_glyphs_never_fall_back(fonts: FontPair, c: char)
    ensures
        glyph_index_of(*fonts.main, c) != 0 ==> fonts.font_for_char_spec(c) == fonts.main,
        glyph_index_of(*fonts.main, c) == 0 ==> fonts.font_for_char_spec(c) == fonts.emoji,
{
}

} // verus!
