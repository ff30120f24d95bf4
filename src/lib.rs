//! A codec for the headers of ELF executable and object files.
//!
//! The file header, the program headers and the section headers are read
//! from and written to bytes in either class (32 or 64 bit) and either byte
//! order; the byte ranges that the headers describe are loaded on demand.
pub mod blob;
pub mod bytes;
pub mod cursor;
pub mod file;
pub mod header;
pub mod ident;
pub mod laws;
pub mod packable;
pub mod program;
pub mod section;

pub use blob::Blob;
pub use cursor::{ByteCursor, IoError};
pub use file::ELFFile;
pub use header::{size_for, Header, RecordSizes};
pub use ident::{Class, Endianness, Ident, ELF_FILE_MAGIC};
pub use packable::{Packable, PackableClass, UnpackError};
pub use program::{ProgramHeader, ProgramHeaderType};
pub use section::SectionHeader;

use vstd::prelude::*;
use vstd::slice::slice_subrange;
use vstd::string::StringSliceAdditionalSpecFns;
use vstd::utf8::valid_utf8;

verus! {

/// Whether `z` is the index of the first zero byte of `s` at or after `start`.
pub open spec fn first_zero_at(s: Seq<u8>, start: int, z: int) -> bool {
    &&& 0 <= start <= z < s.len()
    &&& s[z] == 0
    &&& forall|k: int| start <= k < z ==> s[k] != 0
}

/// Relies on `std::str::from_utf8`: it succeeds exactly when the bytes are
/// valid UTF-8, and the text it returns is made of those bytes.
#[verifier::external_body]
fn utf8_text(b: &[u8]) -> (r: Option<&str>)
    ensures
        r is Some <==> valid_utf8(b@),
        r matches Some(t) ==> t.spec_bytes() == b@,
{
    core::str::from_utf8(b).ok()
}

/// Reads a C-style string: the text in `buf` from `start` up to the first
/// zero byte
/// # Arguments
/// * `buf` - The bytes to look in, such as a loaded string table
/// * `start` - Where the string starts in `buf`
///
/// Returns `None` where no zero byte follows `start` or where the bytes
/// before it are not valid UTF-8
pub fn str_from_null_terminated(buf: &[u8], start: usize) -> (r: Option<&str>)
    ensures
        match r {
            Some(t) => exists|z: int|
                first_zero_at(buf@, start as int, z) && t.spec_bytes() == buf@.subrange(
                    start as int,
                    z,
                ),
            None => forall|z: int|
                first_zero_at(buf@, start as int, z) ==> !valid_utf8(
                    buf@.subrange(start as int, z),
                ),
        },
{
    if start >= buf.len() {
        return None;
    }
    let mut end: usize = start;
    while end < buf.len() && buf[end] != 0
        invariant
            start < buf@.len(),
            start <= end <= buf@.len(),
            forall|k: int| start <= k < end ==> buf@[k] != 0,
        decreases buf@.len() - end,
    {
        end = end + 1;
    }
    if end == buf.len() {
        return None;
    }
    let text = utf8_text(slice_subrange(buf, start, end));
    assert(first_zero_at(buf@, start as int, end as int));
    text
}

} // verus!
