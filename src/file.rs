//! A whole ELF file: its header and both header tables.
use crate::cursor::ByteCursor;
use crate::header::{
    header_error, header_from, program_table, program_table_fits, section_table,
    section_table_fits, Header,
};
use crate::packable::{bytes_from, rest, truncated, Packable, UnpackError, UnpackErrorView};
use crate::program::ProgramHeader;
use crate::section::SectionHeader;
use vstd::prelude::*;

verus! {

/// A representation of a ELF file
#[derive(Debug, Clone, PartialEq, Eq)]
pub struct ELFFile {
    /// The header of the ELF file
    pub header: Header,
    /// The program headers
    pub program_headers: Vec<ProgramHeader>,
    /// The section headers
    pub section_headers: Vec<SectionHeader>,
}

/// The error that loading the headers of a file held in `d`, from position
/// `p`, meets; `None` where it succeeds.
pub open spec fn file_error(d: Seq<u8>, p: nat) -> Option<UnpackErrorView> {
    let s = bytes_from(d, p);
    if header_error(s) is Some {
        header_error(s)
    } else if !program_table_fits(d, header_from(s)) || !section_table_fits(d, header_from(s)) {
        Some(truncated())
    } else {
        None
    }
}

/// Whether the segment that `h` describes lies within `d`.
pub open spec fn program_data_fits(d: Seq<u8>, h: ProgramHeader) -> bool {
    h.offset + h.file_size <= d.len()
}

/// Whether the section that `h` describes lies within `d`.
pub open spec fn section_data_fits(d: Seq<u8>, h: SectionHeader) -> bool {
    h.offset + h.size <= d.len()
}

/// Whether `h` holds as data the bytes of `d` that it describes.
pub open spec fn program_loaded(d: Seq<u8>, h: ProgramHeader) -> bool {
    &&& h.data is Some
    &&& h.data->Some_0.blob@ == d.subrange(h.offset as int, (h.offset + h.file_size) as int)
}

/// Whether `h` holds as data the bytes of `d` that it describes.
pub open spec fn section_loaded(d: Seq<u8>, h: SectionHeader) -> bool {
    &&& h.data is Some
    &&& h.data->Some_0.blob@ == d.subrange(h.offset as int, (h.offset + h.size) as int)
}

/// The error that loading a file held in `d` from position `p`, data
/// included, meets; `None` where it succeeds.
pub open spec fn file_error_fully(d: Seq<u8>, p: nat) -> Option<UnpackErrorView> {
    let h = header_from(bytes_from(d, p));
    if file_error(d, p) is Some {
        file_error(d, p)
    } else if !(forall|i: int|
        0 <= i < program_table(d, h).len() ==> program_data_fits(d, #[trigger] program_table(d, h)[i]))
        || !(forall|i: int|
        0 <= i < section_table(d, h).len() ==> section_data_fits(d, #[trigger] section_table(d, h)[i])) {
        Some(truncated())
    } else {
        None
    }
}

impl ELFFile {
    /// Loads a ELF file from the provided stream
    ///
    /// This will **not** load the binary blobs, only headers
    /// # Arguments
    /// * `r` - The stream to read from
    pub fn load(r: &mut ByteCursor) -> (res: Result<Self, UnpackError>)
        ensures
            final(r).bytes() == old(r).bytes(),
            match file_error(old(r).bytes(), old(r).pos()) {
                Some(e) => res is Err && res->Err_0@ == e,
                None => res is Ok && {
                    let f = res->Ok_0;
                    let h = header_from(rest(*old(r)));
                    &&& f.header == h
                    &&& f.program_headers@ == program_table(old(r).bytes(), h)
                    &&& f.section_headers@ == section_table(old(r).bytes(), h)
                },
            },
    {
        let header = Header::unpack(r, false)?;

        let program_headers = header.read_program_headers(r)?;
        let section_headers = header.read_section_headers(r)?;

        Ok(Self { header, program_headers, section_headers })
    }

    /// Loads a ELF file fully from the provided stream
    ///
    /// This will load **ALL** binary blobs, not only headers
    /// # Arguments
    /// * `r` - The stream to read from
    pub fn load_fully(r: &mut ByteCursor) -> (res: Result<Self, UnpackError>)
        ensures
            final(r).bytes() == old(r).bytes(),
            match file_error_fully(old(r).bytes(), old(r).pos()) {
                Some(e) => res is Err && res->Err_0@ == e,
                None => res is Ok && {
                    let d = old(r).bytes();
                    let f = res->Ok_0;
                    let h = header_from(rest(*old(r)));
                    &&& f.header == h
                    &&& f.program_headers@.len() == program_table(d, h).len()
                    &&& forall|i: int|
                        0 <= i < f.program_headers@.len() ==> {
                            &&& (#[trigger] f.program_headers@[i]).without_data()
                                == program_table(d, h)[i]
                            &&& program_loaded(d, f.program_headers@[i])
                        }
                    &&& f.section_headers@.len() == section_table(d, h).len()
                    &&& forall|i: int|
                        0 <= i < f.section_headers@.len() ==> {
                            &&& (#[trigger] f.section_headers@[i]).without_data()
                                == section_table(d, h)[i]
                            &&& section_loaded(d, f.section_headers@[i])
                        }
                },
            },
    {
        let ghost d = r.bytes();
        let ghost start = r.pos();
        let header = Header::unpack(r, false)?;
        let ghost h = header;

        let mut program_headers = header.read_program_headers(r)?;
        let ghost table = program_headers@;
        let mut i: usize = 0;
        while i < program_headers.len()
            invariant
                d == r.bytes(),
                d == old(r).bytes(),
                start == old(r).pos(),
                header_error(bytes_from(d, start)) is None,
                h == header_from(bytes_from(d, start)),
                program_table_fits(d, h),
                table == program_table(d, h),
                program_headers@.len() == table.len(),
                i <= table.len(),
                forall|j: int|
                    0 <= j < table.len() ==> (#[trigger] program_headers@[j]).without_data()
                        == table[j],
                forall|j: int| 0 <= j < i ==> program_data_fits(d, #[trigger] table[j]),
                forall|j: int| 0 <= j < i ==> program_loaded(d, #[trigger] program_headers@[j]),
            decreases table.len() - i,
        {
            match program_headers[i].load(r) {
                Ok(()) => {},
                Err(e) => return Err(UnpackError::from(e)),
            }
            i = i + 1;
        }

        let mut section_headers = header.read_section_headers(r)?;
        let ghost table = section_headers@;
        let mut i: usize = 0;
        while i < section_headers.len()
            invariant
                d == r.bytes(),
                d == old(r).bytes(),
                start == old(r).pos(),
                header_error(bytes_from(d, start)) is None,
                h == header_from(bytes_from(d, start)),
                program_table_fits(d, h),
                section_table_fits(d, h),
                forall|j: int|
                    0 <= j < program_table(d, h).len() ==> program_data_fits(
                        d,
                        #[trigger] program_table(d, h)[j],
                    ),
                forall|j: int|
                    0 <= j < program_headers@.len() ==> {
                        &&& (#[trigger] program_headers@[j]).without_data() == program_table(
                            d,
                            h,
                        )[j]
                        &&& program_loaded(d, program_headers@[j])
                    },
                program_headers@.len() == program_table(d, h).len(),
                table == section_table(d, h),
                section_headers@.len() == table.len(),
                i <= table.len(),
                forall|j: int|
                    0 <= j < table.len() ==> (#[trigger] section_headers@[j]).without_data()
                        == table[j],
                forall|j: int| 0 <= j < i ==> section_data_fits(d, #[trigger] table[j]),
                forall|j: int| 0 <= j < i ==> section_loaded(d, #[trigger] section_headers@[j]),
            decreases table.len() - i,
        {
            match section_headers[i].load(r) {
                Ok(()) => {},
                Err(e) => return Err(UnpackError::from(e)),
            }
            i = i + 1;
        }

        Ok(Self { header, program_headers, section_headers })
    }
}

} // verus!
