use vstd::prelude::*;

verus! {

/// What the colour pipeline refuses to do.
///
/// Failures of the underlying storage while an image is persisted arise
/// outside this crate and are reported by whoever performs the write.
#[derive(Clone, Copy, Debug, PartialEq, Eq, Structural)]
pub enum Error {
    /// An operation was asked of a colour whose space or context it is not
    /// defined for.
    InvalidSpace,
    /// A buffer was read before anything had been generated into it.
    UninitializedBuffer,
}

} // verus!
