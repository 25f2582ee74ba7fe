//! The sizing contract every visual element reports: a preferred size per
//! axis, fixed or flexible.

use vstd::prelude::*;

verus! {

/// The axis a layout distributes space along.
#[derive(Debug, Clone, Copy, PartialEq, Eq, Structural)]
pub enum Direction {
    Horizontal,
    Vertical,
}

/// A per-axis size preference. `flexible` means "grow to fill leftover
/// space"; otherwise the element wants exactly `size` units.
#[derive(Debug, Clone, Copy, PartialEq, Eq, Structural)]
pub struct Size {
    pub size: u16,
    pub flexible: bool,
}

/// An axis-aligned rectangle of terminal cells.
#[derive(Debug, Clone, Copy, PartialEq, Eq, Structural)]
pub struct Rect {
    pub x: u16,
    pub y: u16,
    pub width: u16,
    pub height: u16,
}

impl Rect {
    /// The far corner is still representable in the coordinate space.
    pub open spec fn wf(&self) -> bool {
        self.x + self.width <= u16::MAX && self.y + self.height <= u16::MAX
    }

    /// The rectangle's extent along an axis.
    pub open spec fn spec_extent(&self, direction: Direction) -> u16 {
        match direction {
            Direction::Horizontal => self.width,
            Direction::Vertical => self.height,
        }
    }

    /// The rectangle's near edge along an axis.
    pub open spec fn spec_origin(&self, direction: Direction) -> u16 {
        match direction {
            Direction::Horizontal => self.x,
            Direction::Vertical => self.y,
        }
    }
}

/// The member of a `(horizontal, vertical)` preference pair that belongs to
/// an axis.
pub open spec fn size_in_direction(pair: (Size, Size), direction: Direction) -> Size {
    match direction {
        Direction::Horizontal => pair.0,
        Direction::Vertical => pair.1,
    }
}

/// An element that reports its preferred size per axis.
/// `spec_size_preferred` names the pair the element reports, so that
/// composite elements can state their own size in terms of their
/// children's.
pub trait WidgetSized: Sized {
    spec fn spec_size_preferred(&self) -> (Size, Size);

    fn size_preferred(&self) -> (r: (Size, Size))
        ensures
            r == self.spec_size_preferred(),
    ;

    fn size_preferred_in_direction(&self, direction: &Direction) -> (r: Size)
        ensures
            r == size_in_direction(self.spec_size_preferred(), *direction),
    {
        let size = self.size_preferred();
        match direction {
            Direction::Horizontal => size.0,
            Direction::Vertical => size.1,
        }
    }
}

} // verus!
