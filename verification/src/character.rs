//! A single cell of the canvas: a glyph together with a style.

use vstd::prelude::*;

use crate::copy_over::CopyFrom;
use crate::style::Style;

verus! {

/// How an incoming cell is merged into an existing cell.
#[derive(Debug, Clone, Copy, PartialEq, Eq, Structural)]
pub enum BlendMode {
    /// The target becomes an exact copy of the source.
    Overwrite,
    /// Only the glyph is replaced; the target's style is untouched.
    OnlyCharacter,
    /// Only the style is replaced; the target's glyph is untouched.
    OnlyStyle,
}

/// One character position: a glyph plus the style it is displayed with.
#[derive(Debug, Clone, Copy, PartialEq, Eq, Structural)]
pub struct Character {
    pub character: char,
    pub style: Style,
}

impl View for Character {
    type V = Character;

    open spec fn view(&self) -> Character {
        *self
    }
}

impl DeepView for Character {
    type V = Character;

    open spec fn deep_view(&self) -> Character {
        *self
    }
}

impl Character {
    pub open spec fn character_spec(self) -> char {
        self.character
    }

    pub open spec fn style_spec(self) -> Style {
        self.style
    }

    pub open spec fn new_spec(character: char, style: Style) -> Self {
        Character { character, style }
    }

    /// The default cell: a space with the default style.
    pub open spec fn default_spec() -> Self {
        Character { character: ' ', style: Style::default_spec() }
    }

    /// The result of merging `rhs` into `lhs` under the given blend mode.
    pub open spec fn blend_spec(lhs: Self, rhs: Self, mode: BlendMode) -> Self {
        match mode {
            BlendMode::Overwrite => rhs,
            BlendMode::OnlyCharacter => Character { character: rhs.character, ..lhs },
            BlendMode::OnlyStyle => Character { style: rhs.style, ..lhs },
        }
    }

    pub fn new(character: char, style: Style) -> (r: Self)
        ensures
            r == Character::new_spec(character, style),
    {
        Self { character, style }
    }

    /// Merge `rhs` into this cell: replace the whole cell, only its glyph,
    /// or only its style, depending on the mode.
    pub fn blend(&mut self, rhs: &Self, mode: BlendMode)
        ensures
            *final(self) == Character::blend_spec(*old(self), *rhs, mode),
    {
        match mode {
            BlendMode::Overwrite => self.copy_from(rhs),
            BlendMode::OnlyCharacter => {
                self.character = rhs.character;
            },
            BlendMode::OnlyStyle => self.style.copy_from(&rhs.style),
        }
    }

    pub fn character(&self) -> (r: char)
        ensures
            r == self.character_spec(),
    {
        self.character
    }

    pub fn style(&self) -> (r: &Style)
        ensures
            *r == self.style_spec(),
    {
        &self.style
    }
}

impl Default for Character {
    fn default() -> (r: Self)
        ensures
            r == Character::default_spec(),
    {
        Self::new(' ', Style::default())
    }
}

impl CopyFrom for Character {
    open spec fn copy_spec(rhs: &Self) -> Self {
        *rhs
    }

    fn copy_from(&mut self, rhs: &Self) {
        self.character = rhs.character;
        self.style.copy_from(&rhs.style);
    }
}

} // verus!
