//! Lossless translation of the library's styles into the terminal
//! backend's color and attribute space, including the inherited intensity
//! inversion: this library's plain named colors map to the backend's light
//! variants and its dark colors to the backend's plain variants. The quirk
//! is kept for compatibility, not corrected.

use vstd::prelude::*;

use crate::character::Character;
use crate::style::{Color, Modifiers, Style};

verus! {

/// The backend's color space.
#[derive(Debug, Clone, Copy, PartialEq, Eq, Structural)]
pub enum BackendColor {
    Reset,
    Black,
    Red,
    Green,
    Yellow,
    Blue,
    Magenta,
    Cyan,
    Gray,
    DarkGray,
    LightRed,
    LightGreen,
    LightYellow,
    LightBlue,
    LightMagenta,
    LightCyan,
    White,
    Indexed { i: u8 },
    Rgb { r: u8, g: u8, b: u8 },
}

/// The backend's attribute flags.
#[derive(Debug, Clone, Copy, PartialEq, Eq, Structural)]
pub struct BackendModifiers {
    pub bold: bool,
    pub italic: bool,
    pub reversed: bool,
}

/// A style in the backend's terms.
#[derive(Debug, Clone, Copy, PartialEq, Eq, Structural)]
pub struct BackendStyle {
    pub fg: BackendColor,
    pub bg: BackendColor,
    pub modifiers: BackendModifiers,
}

/// One styled glyph in the backend's terms.
#[derive(Debug, Clone, Copy, PartialEq, Eq, Structural)]
pub struct BackendSpan {
    pub glyph: char,
    pub style: BackendStyle,
}

/// Translates one library color to the backend.
#[derive(Debug, Clone, Copy, PartialEq, Eq, Structural)]
pub struct ColorMapping(pub BackendColor);

impl ColorMapping {
    /// The backend color each library color denotes; the named colors
    /// cross intensities (plain to light, dark to plain).
    pub open spec fn map_spec(color: Color) -> BackendColor {
        match color {
            Color::Unset => BackendColor::Reset,
            Color::Black => BackendColor::Black,
            Color::Red => BackendColor::LightRed,
            Color::Green => BackendColor::LightGreen,
            Color::Yellow => BackendColor::LightYellow,
            Color::Blue => BackendColor::LightBlue,
            Color::Magenta => BackendColor::LightMagenta,
            Color::Cyan => BackendColor::LightCyan,
            Color::LightGray => BackendColor::Gray,
            Color::DarkGray => BackendColor::DarkGray,
            Color::DarkRed => BackendColor::Red,
            Color::DarkGreen => BackendColor::Green,
            Color::DarkYellow => BackendColor::Yellow,
            Color::DarkBlue => BackendColor::Blue,
            Color::DarkMagenta => BackendColor::Magenta,
            Color::DarkCyan => BackendColor::Cyan,
            Color::White => BackendColor::White,
            Color::Indexed { i } => BackendColor::Indexed { i },
            Color::Rgb { r, g, b } => BackendColor::Rgb { r, g, b },
        }
    }

    pub fn from(color: &Color) -> (r: Self)
        ensures
            r.0 == ColorMapping::map_spec(*color),
    {
        ColorMapping(
            match color {
                Color::Unset => BackendColor::Reset,
                Color::Black => BackendColor::Black,
                Color::Red => BackendColor::LightRed,
                Color::Green => BackendColor::LightGreen,
                Color::Yellow => BackendColor::LightYellow,
                Color::Blue => BackendColor::LightBlue,
                Color::Magenta => BackendColor::LightMagenta,
                Color::Cyan => BackendColor::LightCyan,
                Color::LightGray => BackendColor::Gray,
                Color::DarkGray => BackendColor::DarkGray,
                Color::DarkRed => BackendColor::Red,
                Color::DarkGreen => BackendColor::Green,
                Color::DarkYellow => BackendColor::Yellow,
                Color::DarkBlue => BackendColor::Blue,
                Color::DarkMagenta => BackendColor::Magenta,
                Color::DarkCyan => BackendColor::Cyan,
                Color::White => BackendColor::White,
                Color::Indexed { i } => BackendColor::Indexed { i: *i },
                Color::Rgb { r, g, b } => BackendColor::Rgb { r: *r, g: *g, b: *b },
            },
        )
    }

    pub fn into(self) -> (r: BackendColor)
        ensures
            r == self.0,
    {
        self.0
    }
}

/// The round trip through the backend is lossless: the color translation
/// is injective, so no two library colors collapse into one.
pub proof fn lemma_color_mapping_injective(a: Color, b: Color)
    requires
        ColorMapping::map_spec(a) == ColorMapping::map_spec(b),
    ensures
        a == b,
{
}

/// Translates the modifier flags to the backend.
#[derive(Debug, Clone, Copy, PartialEq, Eq, Structural)]
pub struct ModifiersMapping(pub BackendModifiers);

impl ModifiersMapping {
    pub open spec fn map_spec(m: Modifiers) -> BackendModifiers {
        BackendModifiers { bold: m.bold, italic: m.italic, reversed: m.reverse }
    }

    pub fn from(modifier: &Modifiers) -> (r: Self)
        ensures
            r.0 == ModifiersMapping::map_spec(*modifier),
    {
        ModifiersMapping(
            BackendModifiers {
                bold: modifier.bold,
                italic: modifier.italic,
                reversed: modifier.reverse,
            },
        )
    }

    pub fn into(self) -> (r: BackendModifiers)
        ensures
            r == self.0,
    {
        self.0
    }
}

/// Translates a whole style to the backend.
#[derive(Debug, Clone, Copy, PartialEq, Eq, Structural)]
pub struct StyleMapping(pub BackendStyle);

impl StyleMapping {
    pub open spec fn map_spec(style: Style) -> BackendStyle {
        BackendStyle {
            fg: ColorMapping::map_spec(style.fg),
            bg: ColorMapping::map_spec(style.bg),
            modifiers: ModifiersMapping::map_spec(style.modifiers),
        }
    }

    pub fn from(style: &Style) -> (r: Self)
        ensures
            r.0 == StyleMapping::map_spec(*style),
    {
        StyleMapping(
            BackendStyle {
                fg: ColorMapping::from(&style.fg).into(),
                bg: ColorMapping::from(&style.bg).into(),
                modifiers: ModifiersMapping::from(&style.modifiers).into(),
            },
        )
    }

    pub fn into(self) -> (r: BackendStyle)
        ensures
            r == self.0,
    {
        self.0
    }
}

/// Translates one cell to a styled backend span.
#[derive(Debug, Clone, Copy, PartialEq, Eq, Structural)]
pub struct CharacterMapping(pub BackendSpan);

impl CharacterMapping {
    pub open spec fn map_spec(c: Character) -> BackendSpan {
        BackendSpan { glyph: c.character, style: StyleMapping::map_spec(c.style) }
    }

    pub fn from(character: &Character) -> (r: Self)
        ensures
            r.0 == CharacterMapping::map_spec(*character),
    {
        CharacterMapping(
            BackendSpan {
                glyph: character.character(),
                style: StyleMapping::from(character.style()).into(),
            },
        )
    }

    pub fn into(self) -> (r: BackendSpan)
        ensures
            r == self.0,
    {
        self.0
    }
}

} // verus!
