//! The banner shown when the terminal is smaller than the content needs.

use vstd::prelude::*;

use crate::drawable::{Size, WidgetSized};

verus! {

/// The banner's headline.
pub const SIZE_ERROR_HEADER: &'static str = "Terminal window is too small";

/// A fallback widget that reports which minimum size the terminal failed
/// to provide.
#[derive(Debug, Clone, Copy)]
pub struct SizeError {
    min_size: (u16, u16),
}

impl SizeError {
    pub closed spec fn spec_min_size(&self) -> (u16, u16) {
        self.min_size
    }

    pub fn new(min_size: (u16, u16)) -> (r: Self)
        ensures
            r.spec_min_size() == min_size,
    {
        Self { min_size }
    }

    /// The minimum size the terminal would have to offer.
    pub fn min_size(&self) -> (r: (u16, u16))
        ensures
            r == self.spec_min_size(),
    {
        self.min_size
    }
}

impl WidgetSized for SizeError {
    /// Room for the headline plus a two-cell border on each side, three
    /// message lines plus the border; happy to grow on both axes.
    open spec fn spec_size_preferred(&self) -> (Size, Size) {
        (
            Size { size: (SIZE_ERROR_HEADER@.len() + 4) as u16, flexible: true },
            Size { size: 7u16, flexible: true },
        )
    }

    fn size_preferred(&self) -> (r: (Size, Size)) {
        proof {
            reveal_strlit("Terminal window is too small");
        }
        let w = SIZE_ERROR_HEADER.unicode_len();
        (Size { size: (w + 4) as u16, flexible: true }, Size { size: 3 + 4, flexible: true })
    }
}

} // verus!
