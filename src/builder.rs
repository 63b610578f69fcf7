use vstd::prelude::*;
use vstd::layout::size_of;
use vstd::utf8::encode_utf8;
use crate::error::MapError;
use crate::plan::MapPlan;

verus! {

/// Configuration of one mapping: the path of the backing file, whether the
/// mapping is writable, and whether the file is resized to the length of the
/// mapped type when opened. Resizing destroys what lies past that length; it
/// happens only when asked for.
pub struct MmapBuilder {
    path: String,
    write: bool,
    truncate: bool,
}

impl MmapBuilder {
    pub closed spec fn spec_path(&self) -> Seq<char> {
        self.path@
    }

    pub closed spec fn spec_write(&self) -> bool {
        self.write
    }

    pub closed spec fn spec_truncate(&self) -> bool {
        self.truncate
    }

    /// A configuration for `path`: read-only, with the file left as it is.
    pub fn new(path: String) -> (r: MmapBuilder)
        ensures
            r.spec_path() == path@,
            !r.spec_write(),
            !r.spec_truncate(),
    {
        MmapBuilder { path, write: false, truncate: false }
    }

    /// Sets whether the mapping is writable.
    pub fn write(self, on: bool) -> (r: MmapBuilder)
        ensures
            r.spec_path() == self.spec_path(),
            r.spec_write() == on,
            r.spec_truncate() == self.spec_truncate(),
    {
        MmapBuilder { write: on, ..self }
    }

    /// Sets whether the file is resized to the mapped type's length on open.
    pub fn truncate(self, on: bool) -> (r: MmapBuilder)
        ensures
            r.spec_path() == self.spec_path(),
            r.spec_write() == self.spec_write(),
            r.spec_truncate() == on,
    {
        MmapBuilder { truncate: on, ..self }
    }

    pub fn path(&self) -> (r: &str)
        ensures
            r@ == self.spec_path(),
    {
        self.path.as_str()
    }

    /// The path as the bytes of a C string: its UTF-8 encoding followed by one
    /// NUL byte. A path that itself holds a NUL byte names no file and gives
    /// `InvalidPath`.
    pub fn c_path(&self) -> (r: Result<Vec<u8>, MapError>)
        ensures
            encode_utf8(self.spec_path()).contains(0u8) ==> r == Err::<Vec<u8>, MapError>(MapError::InvalidPath),
            !encode_utf8(self.spec_path()).contains(0u8) ==> (r matches Ok(v) && v@ == encode_utf8(self.spec_path()).push(0u8)),
    {
        let bytes = self.path.as_str().as_bytes();
        let mut out: Vec<u8> = Vec::new();
        let mut i: usize = 0;
        while i < bytes.len()
            invariant
                i <= bytes@.len(),
                bytes@ == encode_utf8(self.spec_path()),
                out@ == bytes@.subrange(0, i as int),
                forall|j: int| 0 <= j < i ==> bytes@[j] != 0u8,
            decreases bytes.len() - i,
        {
            if bytes[i] == 0 {
                assert(bytes@[i as int] == 0u8);
                return Err(MapError::InvalidPath);
            }
            out.push(bytes[i]);
            i = i + 1;
            assert(out@ =~= bytes@.subrange(0, i as int));
        }
        assert(out@ =~= bytes@);
        out.push(0u8);
        Ok(out)
    }

    pub fn is_write(&self) -> (r: bool)
        ensures
            r == self.spec_write(),
    {
        self.write
    }

    pub fn is_truncate(&self) -> (r: bool)
        ensures
            r == self.spec_truncate(),
    {
        self.truncate
    }

    /// The mapping behind a read-only accessor of `T`: as configured, exactly
    /// as long as `T`.
    pub fn plan_read<T>(&self) -> (p: MapPlan)
        ensures
            p.len as nat == size_of::<T>(),
            p.write == self.spec_write(),
            p.truncate == self.spec_truncate(),
    {
        MapPlan::for_type::<T>(self.write, self.truncate)
    }

    /// The mapping behind a mutable accessor of `T`. A configuration without
    /// write access is refused at once with `WriteNotEnabled`, rather than
    /// mapped read-only to fail at the first write.
    pub fn plan_mut<T>(&self) -> (r: Result<MapPlan, MapError>)
        ensures
            !self.spec_write() ==> r == Err::<MapPlan, MapError>(MapError::WriteNotEnabled),
            self.spec_write() ==> (r matches Ok(p) && p.len as nat == size_of::<T>() && p.write
                && p.truncate == self.spec_truncate()),
    {
        if self.write {
            Ok(MapPlan::for_type::<T>(true, self.truncate))
        } else {
            Err(MapError::WriteNotEnabled)
        }
    }
}

} // verus!
