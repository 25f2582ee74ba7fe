//! An invisible element that only takes up space.

use vstd::prelude::*;

use crate::drawable::{Size, WidgetSized};

verus! {

/// A widget that renders nothing and exists only for its size preference.
#[derive(Debug, Clone, Copy)]
pub struct Spacer {
    sizes: (Size, Size),
}

impl Spacer {
    pub fn new(size: (u16, u16), flexible: (bool, bool)) -> (r: Self)
        ensures
            r.spec_size_preferred() == (
                Size { size: size.0, flexible: flexible.0 },
                Size { size: size.1, flexible: flexible.1 },
            ),
    {
        Self {
            sizes: (
                Size { size: size.0, flexible: flexible.0 },
                Size { size: size.1, flexible: flexible.1 },
            ),
        }
    }

    /// The same preference on both axes.
    pub fn new_simple(size: u16, flexible: bool) -> (r: Self)
        ensures
            r.spec_size_preferred() == (Size { size, flexible }, Size { size, flexible }),
    {
        Self::new((size, size), (flexible, flexible))
    }

    /// The same flexible preference on both axes.
    pub fn new_simple_flexible(size: u16) -> (r: Self)
        ensures
            r.spec_size_preferred() == (
                Size { size, flexible: true },
                Size { size, flexible: true },
            ),
    {
        Self::new_simple(size, true)
    }
}

impl WidgetSized for Spacer {
    closed spec fn spec_size_preferred(&self) -> (Size, Size) {
        self.sizes
    }

    fn size_preferred(&self) -> (r: (Size, Size)) {
        self.sizes
    }
}

} // verus!
