use vstd::prelude::*;

verus! {

/// Why a mapping could not be established or converted.
#[derive(Debug, Clone, Copy, PartialEq, Eq, Structural)]
pub enum MapError {
    /// Opening the backing file failed; carries the negated OS error code.
    OpenFailed(i32),
    /// Resizing the backing file failed; carries the negated OS error code.
    TruncateFailed(i32),
    /// The map call returned its failure sentinel.
    MapFailed,
    /// A read-only mapping could not be turned into a writable one.
    ConversionFailed,
    /// A mutable accessor was requested from a configuration without write access.
    WriteNotEnabled,
    /// The path holds a NUL byte, so it names no file.
    InvalidPath,
}

impl MapError {
    /// The operating-system code carried by this error, where there is one.
    pub fn code(&self) -> (r: Option<i32>)
        ensures
            r == match *self {
                MapError::OpenFailed(c) => Some(c),
                MapError::TruncateFailed(c) => Some(c),
                _ => None::<i32>,
            },
    {
        match *self {
            MapError::OpenFailed(c) => Some(c),
            MapError::TruncateFailed(c) => Some(c),
            _ => None,
        }
    }
}

} // verus!
