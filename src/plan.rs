use vstd::prelude::*;
use vstd::layout::size_of;

verus! {

/// Open the file for reading only.
pub const O_RDONLY: i32 = 0;
/// Open the file for reading and writing.
pub const O_RDWR: i32 = 2;
/// Create the file when it does not exist.
pub const O_CREAT: i32 = 64;
/// Pages of the mapping may be read.
pub const PROT_READ: i32 = 1;
/// Pages of the mapping may be written.
pub const PROT_WRITE: i32 = 2;
/// Writes to the mapping are carried through to the file and to every other
/// mapping of it.
pub const MAP_SHARED: i32 = 1;
/// Permission bits of a file created by a mapping: owner read and write,
/// group and others read.
pub const CREATE_MODE: u32 = 0o644;

/// What one mapping asks for: its length in bytes, whether it is writable and
/// whether the backing file is resized to that length when opened.
#[derive(Debug, Clone, Copy, PartialEq, Eq, Structural)]
pub struct MapPlan {
    pub len: usize,
    pub write: bool,
    pub truncate: bool,
}

impl MapPlan {
    /// Flags handed to the open call: a writable mapping opens read-write and
    /// creates the file when it is absent; a read-only one opens read-only and
    /// never creates it, so an absent file makes the open fail.
    pub open spec fn spec_open_flags(self) -> i32 {
        if self.write {
            O_CREAT | O_RDWR
        } else {
            O_RDONLY
        }
    }

    /// Protection handed to the map call.
    pub open spec fn spec_protection(self) -> i32 {
        if self.write {
            PROT_READ | PROT_WRITE
        } else {
            PROT_READ
        }
    }

    /// A plan for a value of type `T`: the mapping is exactly as long as `T`.
    pub fn for_type<T>(write: bool, truncate: bool) -> (p: MapPlan)
        ensures
            p.len as nat == size_of::<T>(),
            p.write == write,
            p.truncate == truncate,
    {
        MapPlan { len: core::mem::size_of::<T>(), write, truncate }
    }

    /// The plan of a read-only accessor opened directly on a path: no write
    /// access and the file left as it is.
    pub fn read_only<T>() -> (p: MapPlan)
        ensures
            p.len as nat == size_of::<T>(),
            !p.write,
            !p.truncate,
    {
        MapPlan::for_type::<T>(false, false)
    }

    /// The plan of a mutable accessor opened directly on a path: write access,
    /// and the file resized to the length of `T`.
    pub fn read_write<T>() -> (p: MapPlan)
        ensures
            p.len as nat == size_of::<T>(),
            p.write,
            p.truncate,
    {
        MapPlan::for_type::<T>(true, true)
    }

    /// Flags handed to the open call.
    pub fn open_flags(&self) -> (r: i32)
        ensures
            r == self.spec_open_flags(),
    {
        if self.write {
            O_CREAT | O_RDWR
        } else {
            O_RDONLY
        }
    }

    /// Protection handed to the map call.
    pub fn protection(&self) -> (r: i32)
        ensures
            r == self.spec_protection(),
    {
        if self.write {
            PROT_READ | PROT_WRITE
        } else {
            PROT_READ
        }
    }
}

} // verus!
