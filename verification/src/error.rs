//! The failures this library reports.

use vstd::prelude::*;

verus! {

/// Everything that can go wrong inside the library.
#[derive(Debug, Clone, Copy, PartialEq, Eq, Structural)]
pub enum Error {
    /// A buffer whose rows do not all have the same length was handed to a
    /// constructor that adopts it.
    NonRectangularBuffer,
    /// Binary grid data failed to decode.
    MalformedSerializedData,
    /// The input source failed; the session ends.
    InputSourceFailure,
    /// A parent rectangle too small for its children's fixed sizes and
    /// margins was handed to the layout allocator.
    InsufficientSpace,
}

impl Error {
    /// What each error means, in place of a `Display` implementation.
    pub open spec fn describe_spec(&self) -> Seq<char> {
        match self {
            Error::NonRectangularBuffer => "canvas buffer is not rectangular"@,
            Error::MalformedSerializedData => "malformed serialized data"@,
            Error::InputSourceFailure => "input source failure"@,
            Error::InsufficientSpace => "insufficient space for layout"@,
        }
    }

    /// A short description, in place of a `Display` implementation.
    pub fn describe(&self) -> (r: &'static str)
        ensures
            r@ == self.describe_spec(),
            r@.len() > 0,
    {
        match self {
            Error::NonRectangularBuffer => {
                proof {
                    reveal_strlit("canvas buffer is not rectangular");
                }
                "canvas buffer is not rectangular"
            },
            Error::MalformedSerializedData => {
                proof {
                    reveal_strlit("malformed serialized data");
                }
                "malformed serialized data"
            },
            Error::InputSourceFailure => {
                proof {
                    reveal_strlit("input source failure");
                }
                "input source failure"
            },
            Error::InsufficientSpace => {
                proof {
                    reveal_strlit("insufficient space for layout");
                }
                "insufficient space for layout"
            },
        }
    }
}

} // verus!
