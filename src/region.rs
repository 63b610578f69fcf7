use vstd::prelude::*;
use crate::error::MapError;

verus! {

/// A mapped region: its base address, its length in bytes, and whether it may
/// be written.
#[derive(Debug, Clone, Copy, PartialEq, Eq, Structural)]
pub struct RegionHandle {
    pub addr: usize,
    pub len: usize,
    pub writable: bool,
}

/// The unmap call that releases a region.
#[derive(Debug, Clone, Copy, PartialEq, Eq, Structural)]
pub struct Unmap {
    pub addr: usize,
    pub len: usize,
}

impl RegionHandle {
    /// How the region is released: by unmapping exactly the bytes that were
    /// mapped, and not at all when the handle is empty (a null address).
    pub open spec fn spec_release(self) -> Option<Unmap> {
        if self.addr == 0 {
            None
        } else {
            Some(Unmap { addr: self.addr, len: self.len })
        }
    }

    /// Whether the region is empty, that is has a null address.
    pub fn is_null(&self) -> (r: bool)
        ensures
            r == (self.addr == 0),
    {
        self.addr == 0
    }

    /// The unmap call that releases this region, if it is not empty.
    pub fn release(&self) -> (r: Option<Unmap>)
        ensures
            r == self.spec_release(),
    {
        if self.addr == 0 {
            None
        } else {
            Some(Unmap { addr: self.addr, len: self.len })
        }
    }

    /// The same region as a writable one. A region mapped read-only cannot be
    /// made writable in place, so it gives `ConversionFailed`.
    pub fn upgrade(self) -> (r: Result<RegionHandle, MapError>)
        ensures
            self.writable ==> r == Ok::<RegionHandle, MapError>(self),
            !self.writable ==> r == Err::<RegionHandle, MapError>(MapError::ConversionFailed),
    {
        if self.writable {
            Ok(self)
        } else {
            Err(MapError::ConversionFailed)
        }
    }
}

} // verus!
