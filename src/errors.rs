use vstd::prelude::*;

verus! {

/// What can go wrong around a comparison.
#[derive(Debug, PartialEq, Eq)]
pub enum Error {
    /// A threshold that is not a number.
    ParseFloatError,
    /// An image file that could not be opened or decoded, with the cause.
    InvalidImageFile(String),
    /// The two images differ in size; each pair is `(width, height)`.
    SizeUnmatch { before: (u32, u32), after: (u32, u32) },
    /// The diff image could not be written.
    IoError,
}

} // verus!
