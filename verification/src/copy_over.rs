//! In-place replacement of one value by another.

use vstd::prelude::*;

verus! {

/// A value that can overwrite itself, field by field, with the contents of
/// another value. `copy_spec` names the value that the overwrite produces.
pub trait CopyFrom<T = Self>: Sized {
    spec fn copy_spec(rhs: &T) -> Self;

    fn copy_from(&mut self, rhs: &T)
        ensures
            *final(self) == Self::copy_spec(rhs),
    ;
}

} // verus!
