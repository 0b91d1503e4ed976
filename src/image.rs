//! The process's own loaded image, seen as a base address and a size.

use vstd::prelude::*;

verus! {

/// The loaded image: where it starts and how many bytes it spans.
#[derive(Debug, Clone, Copy, PartialEq, Eq, Structural)]
pub struct ImageHandle {
    pub base: usize,
    pub size: usize,
}

/// The address `offset` bytes past `base`, or `None` when that address would
/// lie beyond the address space.
pub fn offset_address(base: usize, offset: usize) -> (r: Option<usize>)
    ensures
        r is Some <==> base + offset <= usize::MAX,
        r matches Some(a) ==> a == base + offset,
{
    if offset > usize::MAX - base {
        None
    } else {
        Some(base + offset)
    }
}

impl ImageHandle {
    /// The address `offset` bytes past the image's base, or `None` when that
    /// address would lie beyond the address space.
    pub fn address_of(&self, offset: usize) -> (r: Option<usize>)
        ensures
            r is Some <==> self.base + offset <= usize::MAX,
            r matches Some(a) ==> a == self.base + offset,
    {
        offset_address(self.base, offset)
    }
}

/// Types whose values are nothing but a function's entry point, so that an
/// address inside the image can be read as one. The caller who reads an
/// address as such a type vouches that a function of exactly that signature
/// and calling convention starts there.
pub trait FnPtr {}

} // verus!
