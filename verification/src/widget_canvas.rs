//! The widget that presents a canvas: it prefers exactly the canvas's own
//! extent on both axes.

use vstd::prelude::*;

use crate::character::Character;
use crate::drawable::{Size, WidgetSized};

verus! {

/// Clamp a mathematical size into the `u16` coordinate space.
pub open spec fn sat_u16(x: int) -> u16 {
    if x > u16::MAX {
        u16::MAX
    } else if x < 0 {
        0
    } else {
        x as u16
    }
}

/// A drawable view of a cell grid.
#[derive(Debug)]
pub struct Canvas {
    canvas: crate::canvas::Canvas,
}

impl View for Canvas {
    type V = Seq<Seq<Character>>;

    closed spec fn view(&self) -> Seq<Seq<Character>> {
        self.canvas@
    }
}

impl Canvas {
    pub open spec fn spec_height(&self) -> nat {
        self@.len()
    }

    pub open spec fn spec_width(&self) -> nat {
        if self@.len() == 0 {
            0
        } else {
            self@[0].len()
        }
    }

    pub fn new(canvas: crate::canvas::Canvas) -> (r: Self)
        ensures
            r@ == canvas@,
    {
        Self { canvas }
    }

    /// The wrapped grid.
    pub fn canvas(&self) -> (r: &crate::canvas::Canvas)
        ensures
            r@ == self@,
    {
        &self.canvas
    }
}

impl WidgetSized for Canvas {
    /// Exactly the grid's extent, non-negotiable on both axes.
    open spec fn spec_size_preferred(&self) -> (Size, Size) {
        (
            Size { size: sat_u16(self.spec_width() as int), flexible: false },
            Size { size: sat_u16(self.spec_height() as int), flexible: false },
        )
    }

    fn size_preferred(&self) -> (r: (Size, Size)) {
        let height = self.canvas.height();
        let width = if height == 0 {
            0
        } else {
            self.canvas.width()
        };
        let w16: u16 = if width > u16::MAX as usize {
            u16::MAX
        } else {
            width as u16
        };
        let h16: u16 = if height > u16::MAX as usize {
            u16::MAX
        } else {
            height as u16
        };
        proof {
            assert(w16 == sat_u16(self.spec_width() as int));
            assert(h16 == sat_u16(self.spec_height() as int));
            assert(self.spec_size_preferred() == (
                Size { size: w16, flexible: false },
                Size { size: h16, flexible: false },
            ));
        }
        (Size { size: w16, flexible: false }, Size { size: h16, flexible: false })
    }
}

} // verus!
