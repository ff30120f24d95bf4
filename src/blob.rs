//! Byte ranges of a file, loaded on demand.
use crate::cursor::{spliced, ByteCursor, IoError};
use vstd::prelude::*;

verus! {

/// Just a binary blob
#[derive(Debug, Clone, PartialEq, Eq)]
pub struct Blob {
    /// The contained data
    pub blob: Vec<u8>,
}

/// The `size` bytes of `c` at `offset`.
pub open spec fn range_of(c: ByteCursor, offset: nat, size: nat) -> Seq<u8> {
    c.bytes().subrange(offset as int, (offset + size) as int)
}

impl Blob {
    /// Loads a blob from `r`, leaving the position of `r` where it was
    /// # Arguments
    /// * `r` - The stream to read from
    /// * `offset` - The offset where to read from the stream
    /// * `size` - The amount of bytes to read from the stream
    pub fn load(r: &mut ByteCursor, offset: u64, size: usize) -> (res: Result<Self, IoError>)
        ensures
            final(r).bytes() == old(r).bytes(),
            final(r).pos() == old(r).pos(),
            res is Ok <==> offset + size <= old(r).bytes().len(),
            match res {
                Ok(b) => b.blob@ == range_of(*old(r), offset as nat, size as nat),
                Err(e) => e == IoError::UnexpectedEof,
            },
    {
        let old_pos = r.position();
        r.seek(offset);
        let res = r.read_exact(size);
        r.seek(old_pos);
        match res {
            Ok(blob) => Ok(Blob { blob }),
            Err(e) => Err(e),
        }
    }

    /// Writes the contents of this blob to `w` at `offset`, leaving the
    /// position of `w` where it was
    /// # Arguments
    /// * `w` - The stream to write to
    /// * `offset` - The offset to start the data at
    pub fn write(&self, w: &mut ByteCursor, offset: u64) -> (res: Result<(), IoError>)
        ensures
            final(w).pos() == old(w).pos(),
            res is Ok <==> offset + self.blob@.len() <= usize::MAX,
            match res {
                Ok(_) => final(w).bytes() == spliced(old(w).bytes(), offset as nat, self.blob@),
                Err(e) => e == IoError::PositionOverflow && final(w).bytes() == old(w).bytes(),
            },
    {
        let old_pos = w.position();
        w.seek(offset);
        let res = w.write_all(self.blob.as_slice());
        w.seek(old_pos);
        res
    }
}

} // verus!
