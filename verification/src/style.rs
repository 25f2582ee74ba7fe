//! Colors, modifier flags and the style a cell is displayed with.

use vstd::prelude::*;

use crate::copy_over::CopyFrom;

verus! {

/// A display color: an unset/inherit sentinel, fifteen named colors in two
/// intensities, an indexed palette entry, or a direct RGB triple.
#[derive(Debug, Clone, Copy, PartialEq, Eq, Structural)]
pub enum Color {
    Unset,
    Black,
    Red,
    Green,
    Yellow,
    Blue,
    Magenta,
    Cyan,
    LightGray,
    DarkGray,
    DarkRed,
    DarkGreen,
    DarkYellow,
    DarkBlue,
    DarkMagenta,
    DarkCyan,
    White,
    Indexed { i: u8 },
    Rgb { r: u8, g: u8, b: u8 },
}

/// Three independent emphasis flags.
#[derive(Debug, Clone, Copy, PartialEq, Eq, Structural)]
pub struct Modifiers {
    pub bold: bool,
    pub italic: bool,
    pub reverse: bool,
}

impl Modifiers {
    pub fn new(bold: bool, italic: bool, reverse: bool) -> (r: Self)
        ensures
            r == (Modifiers { bold, italic, reverse }),
    {
        Self { bold, italic, reverse }
    }

    /// The combination of two flag sets: each flag is the logical OR.
    pub open spec fn combine_spec(self, rhs: Self) -> Self {
        Modifiers {
            bold: self.bold || rhs.bold,
            italic: self.italic || rhs.italic,
            reverse: self.reverse || rhs.reverse,
        }
    }

    pub fn combine(self, rhs: Self) -> (r: Self)
        ensures
            r == self.combine_spec(rhs),
    {
        Self::new(
            self.bold || rhs.bold,
            self.italic || rhs.italic,
            self.reverse || rhs.reverse,
        )
    }
}

/// Combining modifier flags is commutative.
pub proof fn lemma_modifiers_combine_commutative(a: Modifiers, b: Modifiers)
    ensures
        a.combine_spec(b) == b.combine_spec(a),
{
}

/// Combining modifier flags is associative.
pub proof fn lemma_modifiers_combine_associative(a: Modifiers, b: Modifiers, c: Modifiers)
    ensures
        a.combine_spec(b).combine_spec(c) == a.combine_spec(b.combine_spec(c)),
{
}

/// Combining modifier flags is idempotent.
pub proof fn lemma_modifiers_combine_idempotent(a: Modifiers)
    ensures
        a.combine_spec(a) == a,
{
}

impl Default for Modifiers {
    /// All flags off.
    fn default() -> (r: Self)
        ensures
            r == (Modifiers { bold: false, italic: false, reverse: false }),
    {
        Self::new(false, false, false)
    }
}

impl CopyFrom for Modifiers {
    open spec fn copy_spec(rhs: &Self) -> Self {
        *rhs
    }

    fn copy_from(&mut self, rhs: &Self) {
        self.bold = rhs.bold;
        self.italic = rhs.italic;
        self.reverse = rhs.reverse;
    }
}

/// A foreground color, a background color and modifier flags.
#[derive(Debug, Clone, Copy, PartialEq, Eq, Structural)]
pub struct Style {
    pub fg: Color,
    pub bg: Color,
    pub modifiers: Modifiers,
}

impl Style {
    pub fn new(fg: Color, bg: Color, modifiers: Modifiers) -> (r: Self)
        ensures
            r == (Style { fg, bg, modifiers }),
    {
        Self { fg, bg, modifiers }
    }

    /// The default style: both colors unset, all modifiers off.
    pub open spec fn default_spec() -> Self {
        Style {
            fg: Color::Unset,
            bg: Color::Unset,
            modifiers: Modifiers { bold: false, italic: false, reverse: false },
        }
    }

    /// Combining a base style with an overlay takes the overlay's colors
    /// outright but ORs the modifier flags together: color is a full
    /// override, emphasis accumulates.
    pub open spec fn combine_spec(self, rhs: Self) -> Self {
        Style { fg: rhs.fg, bg: rhs.bg, modifiers: self.modifiers.combine_spec(rhs.modifiers) }
    }

    pub fn combine(self, rhs: Self) -> (r: Self)
        ensures
            r == self.combine_spec(rhs),
    {
        Self::new(rhs.fg, rhs.bg, self.modifiers.combine(rhs.modifiers))
    }
}

impl Default for Style {
    fn default() -> (r: Self)
        ensures
            r == Style::default_spec(),
    {
        Self::new(Color::Unset, Color::Unset, Modifiers::default())
    }
}

impl CopyFrom for Style {
    open spec fn copy_spec(rhs: &Self) -> Self {
        *rhs
    }

    fn copy_from(&mut self, rhs: &Self) {
        self.fg = rhs.fg;
        self.bg = rhs.bg;
        self.modifiers.copy_from(&rhs.modifiers);
    }
}

} // verus!
