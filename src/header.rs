//! The ELF file header.
use crate::bytes::uint_to_bytes;
use crate::cursor::ByteCursor;
use crate::ident::{ident_bytes, ident_error, ident_from, Class, Endianness, Ident};
use crate::packable::{
    bytes_from, class_width, field, fits_class, lemma_ahead_in_rest, rest, truncated, Packable,
    PackableClass, UnpackError, UnpackErrorView,
};
use crate::program::{program_from, ProgramHeader};
use crate::section::{section_from, SectionHeader};
use vstd::prelude::*;

verus! {

const ELF_HEADER_SIZE_32: u64 = 0x34;

const ELF_HEADER_SIZE_64: u64 = 0x40;

const PROGRAM_HEADER_SIZE_32: u64 = 0x20;

const PROGRAM_HEADER_SIZE_64: u64 = 0x38;

const SECTION_HEADER_SIZE_32: u64 = 0x28;

const SECTION_HEADER_SIZE_64: u64 = 0x40;

/// The on-disk sizes of the three records, as the class implies them.
#[derive(Debug, Clone, Copy, PartialEq, Eq, Structural)]
pub struct RecordSizes {
    /// The size of the file header
    pub header: u64,
    /// The size of one program header
    pub program_header: u64,
    /// The size of one section header
    pub section_header: u64,
}

/// The size of the file header of `class`.
pub open spec fn header_size_for(class: Class) -> nat {
    match class {
        Class::ELF32 => 0x34,
        Class::ELF64 => 0x40,
    }
}

/// The size of a program header of `class`.
pub open spec fn program_header_size_for(class: Class) -> nat {
    match class {
        Class::ELF32 => 0x20,
        Class::ELF64 => 0x38,
    }
}

/// The size of a section header of `class`.
pub open spec fn section_header_size_for(class: Class) -> nat {
    match class {
        Class::ELF32 => 0x28,
        Class::ELF64 => 0x40,
    }
}

/// The on-disk sizes of the file header, a program header and a section
/// header of `class`, whatever a file's stored size fields say.
pub fn size_for(class: Class) -> (r: RecordSizes)
    ensures
        r.header == header_size_for(class),
        r.program_header == program_header_size_for(class),
        r.section_header == section_header_size_for(class),
{
    match class {
        Class::ELF32 => RecordSizes {
            header: ELF_HEADER_SIZE_32,
            program_header: PROGRAM_HEADER_SIZE_32,
            section_header: SECTION_HEADER_SIZE_32,
        },
        Class::ELF64 => RecordSizes {
            header: ELF_HEADER_SIZE_64,
            program_header: PROGRAM_HEADER_SIZE_64,
            section_header: SECTION_HEADER_SIZE_64,
        },
    }
}

/// The ELF header
#[derive(Debug, Clone, Copy, PartialEq, Eq)]
pub struct Header {
    /// The ident sequence
    pub ident: Ident,
    /// The type of ELF file
    pub ty: u16,
    /// The machine type
    pub machine: u16,
    /// The file version (`1`)
    pub version: u32,
    /// The entry point of the file, if existing
    pub entry_point: u64,
    /// The offset for the program headers
    pub ph_offset: u64,
    /// The offset for the section headers
    pub sh_offset: u64,
    /// Target architecture dependent flags
    pub flags: u32,
    /// The size of this header, as stored
    pub header_size: u16,
    /// The size of a program header, as stored
    pub ph_entry_size: u16,
    /// The count of program headers
    pub ph_entry_count: u16,
    /// The size of a section header, as stored
    pub sh_entry_size: u16,
    /// The count of section headers
    pub sh_entry_count: u16,
    /// The section header index of the string table
    pub sh_str_index: u16,
}

/// The error that unpacking a file header from `s` meets; `None` where it
/// succeeds.
pub open spec fn header_error(s: Seq<u8>) -> Option<UnpackErrorView> {
    if ident_error(s) is Some {
        ident_error(s)
    } else if s.len() < header_size_for(ident_from(s).class) {
        Some(truncated())
    } else {
        None
    }
}

/// The file header that `s` opens with, where `header_error(s)` is `None`.
pub open spec fn header_from(s: Seq<u8>) -> Header {
    let ident = ident_from(s);
    let big = ident.endianness == Endianness::Big;
    let w = class_width(ident.class);
    Header {
        ident,
        ty: field(s, 16, 2, big) as u16,
        machine: field(s, 18, 2, big) as u16,
        version: field(s, 20, 4, big) as u32,
        entry_point: field(s, 24, w, big) as u64,
        ph_offset: field(s, 24 + w, w, big) as u64,
        sh_offset: field(s, 24 + 2 * w, w, big) as u64,
        flags: field(s, 24 + 3 * w, 4, big) as u32,
        header_size: field(s, 28 + 3 * w, 2, big) as u16,
        ph_entry_size: field(s, 30 + 3 * w, 2, big) as u16,
        ph_entry_count: field(s, 32 + 3 * w, 2, big) as u16,
        sh_entry_size: field(s, 34 + 3 * w, 2, big) as u16,
        sh_entry_count: field(s, 36 + 3 * w, 2, big) as u16,
        sh_str_index: field(s, 38 + 3 * w, 2, big) as u16,
    }
}

/// The bytes that encode `h`, in the byte order and class of its ident.
pub open spec fn header_bytes(h: Header) -> Seq<u8> {
    let big = h.ident.endianness == Endianness::Big;
    let w = class_width(h.ident.class);
    ident_bytes(h.ident) + uint_to_bytes(h.ty as nat, 2, big) + uint_to_bytes(
        h.machine as nat,
        2,
        big,
    ) + uint_to_bytes(h.version as nat, 4, big) + uint_to_bytes(h.entry_point as nat, w, big)
        + uint_to_bytes(h.ph_offset as nat, w, big) + uint_to_bytes(h.sh_offset as nat, w, big)
        + uint_to_bytes(h.flags as nat, 4, big) + uint_to_bytes(h.header_size as nat, 2, big)
        + uint_to_bytes(h.ph_entry_size as nat, 2, big) + uint_to_bytes(
        h.ph_entry_count as nat,
        2,
        big,
    ) + uint_to_bytes(h.sh_entry_size as nat, 2, big) + uint_to_bytes(
        h.sh_entry_count as nat,
        2,
        big,
    ) + uint_to_bytes(h.sh_str_index as nat, 2, big)
}

/// Whether the program header table that `h` locates lies within `d`; an
/// empty table fits wherever it is said to start.
pub open spec fn program_table_fits(d: Seq<u8>, h: Header) -> bool {
    h.ph_entry_count == 0 || h.ph_offset + h.ph_entry_count * program_header_size_for(
        h.ident.class,
    ) <= d.len()
}

/// The program headers that `h` locates in `d`, without their data: the
/// stored count of records of the class's size, one after the other from
/// the stored offset.
pub open spec fn program_table(d: Seq<u8>, h: Header) -> Seq<ProgramHeader> {
    Seq::new(
        h.ph_entry_count as nat,
        |i: int|
            program_from(
                bytes_from(d, (h.ph_offset + i * program_header_size_for(h.ident.class)) as nat),
                h.ident.endianness == Endianness::Big,
                h.ident.class,
            ),
    )
}

/// Whether the section header table that `h` locates lies within `d`; an
/// empty table fits wherever it is said to start.
pub open spec fn section_table_fits(d: Seq<u8>, h: Header) -> bool {
    h.sh_entry_count == 0 || h.sh_offset + h.sh_entry_count * section_header_size_for(
        h.ident.class,
    ) <= d.len()
}

/// The section headers that `h` locates in `d`, without their data.
pub open spec fn section_table(d: Seq<u8>, h: Header) -> Seq<SectionHeader> {
    Seq::new(
        h.sh_entry_count as nat,
        |i: int|
            section_from(
                bytes_from(d, (h.sh_offset + i * section_header_size_for(h.ident.class)) as nat),
                h.ident.endianness == Endianness::Big,
                h.ident.class,
            ),
    )
}

impl Header {
    /// Reads the program headers, without their data
    /// # Arguments
    /// * `r` - The reader to read the headers from
    pub fn read_program_headers(&self, r: &mut ByteCursor) -> (res: Result<
        Vec<ProgramHeader>,
        UnpackError,
    >)
        ensures
            final(r).bytes() == old(r).bytes(),
            res is Ok <==> program_table_fits(old(r).bytes(), *self),
            match res {
                Ok(v) => v@ == program_table(old(r).bytes(), *self),
                Err(e) => e@ == truncated(),
            },
    {
        let ghost d = r.bytes();
        let ghost size = program_header_size_for(self.ident.class);
        r.seek(self.ph_offset);

        let big_endian = self.ident.is_big_endian();
        let class = self.ident.class;
        let mut res: Vec<ProgramHeader> = Vec::new();
        let mut i: u16 = 0;
        while i < self.ph_entry_count
            invariant
                d == r.bytes(),
                d == old(r).bytes(),
                size == program_header_size_for(class),
                class == self.ident.class,
                big_endian == (self.ident.endianness == Endianness::Big),
                i <= self.ph_entry_count,
                r.pos() == self.ph_offset + i * size,
                i > 0 ==> r.pos() <= d.len(),
                res@ == program_table(d, *self).take(i as int),
            decreases self.ph_entry_count - i,
        {
            let ghost pos = r.pos();
            let h = match ProgramHeader::unpack_class(r, big_endian, class) {
                Ok(h) => h,
                Err(e) => {
                    assert(pos + size <= self.ph_offset + self.ph_entry_count * size) by (
                    nonlinear_arith)
                        requires
                            pos == self.ph_offset + i * size,
                            i + 1 <= self.ph_entry_count,
                    ;
                    return Err(e);
                },
            };
            res.push(h);
            assert((i + 1) * size == i * size + size) by (nonlinear_arith);
            i = i + 1;
            assert(res@ =~= program_table(d, *self).take(i as int));
        }
        assert(res@ =~= program_table(d, *self));
        Ok(res)
    }

    /// Reads the section headers, without their data
    /// # Arguments
    /// * `r` - The reader to read the headers from
    pub fn read_section_headers(&self, r: &mut ByteCursor) -> (res: Result<
        Vec<SectionHeader>,
        UnpackError,
    >)
        ensures
            final(r).bytes() == old(r).bytes(),
            res is Ok <==> section_table_fits(old(r).bytes(), *self),
            match res {
                Ok(v) => v@ == section_table(old(r).bytes(), *self),
                Err(e) => e@ == truncated(),
            },
    {
        let ghost d = r.bytes();
        let ghost size = section_header_size_for(self.ident.class);
        r.seek(self.sh_offset);

        let big_endian = self.ident.is_big_endian();
        let class = self.ident.class;
        let mut res: Vec<SectionHeader> = Vec::new();
        let mut i: u16 = 0;
        while i < self.sh_entry_count
            invariant
                d == r.bytes(),
                d == old(r).bytes(),
                size == section_header_size_for(class),
                class == self.ident.class,
                big_endian == (self.ident.endianness == Endianness::Big),
                i <= self.sh_entry_count,
                r.pos() == self.sh_offset + i * size,
                i > 0 ==> r.pos() <= d.len(),
                res@ == section_table(d, *self).take(i as int),
            decreases self.sh_entry_count - i,
        {
            let ghost pos = r.pos();
            let h = match SectionHeader::unpack_class(r, big_endian, class) {
                Ok(h) => h,
                Err(e) => {
                    assert(pos + size <= self.sh_offset + self.sh_entry_count * size) by (
                    nonlinear_arith)
                        requires
                            pos == self.sh_offset + i * size,
                            i + 1 <= self.sh_entry_count,
                    ;
                    return Err(e);
                },
            };
            res.push(h);
            assert((i + 1) * size == i * size + size) by (nonlinear_arith);
            i = i + 1;
            assert(res@ =~= section_table(d, *self).take(i as int));
        }
        assert(res@ =~= section_table(d, *self));
        Ok(res)
    }

    /// Whether the header can be written and read back unchanged: its ident
    /// holds the magic and its class-width fields fit its class.
    pub open spec fn wf(&self) -> bool {
        &&& self.ident.wf()
        &&& fits_class(self.entry_point, self.ident.class)
        &&& fits_class(self.ph_offset, self.ident.class)
        &&& fits_class(self.sh_offset, self.ident.class)
    }

    /// Returns the size of this header in the file
    ///
    /// This is derived from the ELF class (32 / 64 bit)
    pub fn get_header_size(&self) -> (r: u64)
        ensures
            r == header_size_for(self.ident.class),
    {
        size_for(self.ident.class).header
    }

    /// Returns the size a program header takes as described by this header
    ///
    /// This is derived from the ELF class (32 / 64 bit)
    pub fn get_program_header_size(&self) -> (r: u64)
        ensures
            r == program_header_size_for(self.ident.class),
    {
        size_for(self.ident.class).program_header
    }

    /// Returns the size a section header takes as described by this header
    ///
    /// This is derived from the ELF class (32 / 64 bit)
    pub fn get_section_header_size(&self) -> (r: u64)
        ensures
            r == section_header_size_for(self.ident.class),
    {
        size_for(self.ident.class).section_header
    }
}

impl Packable for Header {
    /// Writes the header in the byte order and class of its ident;
    /// `big_endian` plays no part.
    fn pack(&self, w: &mut Vec<u8>, big_endian: bool)
        ensures
            final(w)@ == old(w)@ + header_bytes(*self),
    {
        let ghost start = w@;
        let big_endian = self.ident.is_big_endian();
        let class = self.ident.class;

        self.ident.pack(w, big_endian);

        self.ty.pack(w, big_endian);
        self.machine.pack(w, big_endian);
        self.version.pack(w, big_endian);

        self.entry_point.pack_class(w, big_endian, class);
        self.ph_offset.pack_class(w, big_endian, class);
        self.sh_offset.pack_class(w, big_endian, class);

        self.flags.pack(w, big_endian);
        self.header_size.pack(w, big_endian);

        self.ph_entry_size.pack(w, big_endian);
        self.ph_entry_count.pack(w, big_endian);
        self.sh_entry_size.pack(w, big_endian);
        self.sh_entry_count.pack(w, big_endian);

        self.sh_str_index.pack(w, big_endian);
        assert(w@ =~= start + header_bytes(*self));
    }

    /// Reads the ident, then the rest of the header in the byte order and
    /// class that the ident gives; `big_endian` plays no part.
    fn unpack(r: &mut ByteCursor, big_endian: bool) -> (res: Result<Header, UnpackError>)
        ensures
            final(r).bytes() == old(r).bytes(),
            match header_error(rest(*old(r))) {
                Some(e) => res is Err && res->Err_0@ == e,
                None => res == Ok::<Header, UnpackError>(header_from(rest(*old(r))))
                    && final(r).pos() == old(r).pos() + header_size_for(
                    header_from(rest(*old(r))).ident.class,
                ),
            },
    {
        let ghost c0 = *r;
        let ghost s = rest(*r);
        let ident = match Ident::unpack(r, false) {
            Ok(i) => i,
            Err(e) => return Err(e),
        };

        let big_endian = ident.is_big_endian();
        let class = ident.class;
        let ghost w = class_width(class);
        assert(s.len() == r.bytes().len() - c0.pos());

        proof { lemma_ahead_in_rest(c0, *r, 16, 2); }
        let ty = match u16::unpack(r, big_endian) {
            Ok(v) => v,
            Err(e) => return Err(e),
        };
        proof { lemma_ahead_in_rest(c0, *r, 18, 2); }
        let machine = match u16::unpack(r, big_endian) {
            Ok(v) => v,
            Err(e) => return Err(e),
        };
        proof { lemma_ahead_in_rest(c0, *r, 20, 4); }
        let version = match u32::unpack(r, big_endian) {
            Ok(v) => v,
            Err(e) => return Err(e),
        };

        proof { lemma_ahead_in_rest(c0, *r, 24, w); }
        let entry_point = match u64::unpack_class(r, big_endian, class) {
            Ok(v) => v,
            Err(e) => return Err(e),
        };
        proof { lemma_ahead_in_rest(c0, *r, 24 + w, w); }
        let ph_offset = match u64::unpack_class(r, big_endian, class) {
            Ok(v) => v,
            Err(e) => return Err(e),
        };
        proof { lemma_ahead_in_rest(c0, *r, 24 + 2 * w, w); }
        let sh_offset = match u64::unpack_class(r, big_endian, class) {
            Ok(v) => v,
            Err(e) => return Err(e),
        };

        proof { lemma_ahead_in_rest(c0, *r, 24 + 3 * w, 4); }
        let flags = match u32::unpack(r, big_endian) {
            Ok(v) => v,
            Err(e) => return Err(e),
        };
        proof { lemma_ahead_in_rest(c0, *r, 28 + 3 * w, 2); }
        let header_size = match u16::unpack(r, big_endian) {
            Ok(v) => v,
            Err(e) => return Err(e),
        };

        proof { lemma_ahead_in_rest(c0, *r, 30 + 3 * w, 2); }
        let ph_entry_size = match u16::unpack(r, big_endian) {
            Ok(v) => v,
            Err(e) => return Err(e),
        };
        proof { lemma_ahead_in_rest(c0, *r, 32 + 3 * w, 2); }
        let ph_entry_count = match u16::unpack(r, big_endian) {
            Ok(v) => v,
            Err(e) => return Err(e),
        };
        proof { lemma_ahead_in_rest(c0, *r, 34 + 3 * w, 2); }
        let sh_entry_size = match u16::unpack(r, big_endian) {
            Ok(v) => v,
            Err(e) => return Err(e),
        };
        proof { lemma_ahead_in_rest(c0, *r, 36 + 3 * w, 2); }
        let sh_entry_count = match u16::unpack(r, big_endian) {
            Ok(v) => v,
            Err(e) => return Err(e),
        };

        proof { lemma_ahead_in_rest(c0, *r, 38 + 3 * w, 2); }
        let sh_str_index = match u16::unpack(r, big_endian) {
            Ok(v) => v,
            Err(e) => return Err(e),
        };

        Ok(
            Header {
                ident,
                ty,
                machine,
                version,
                entry_point,
                ph_offset,
                sh_offset,
                flags,
                header_size,
                ph_entry_size,
                ph_entry_count,
                sh_entry_size,
                sh_entry_count,
                sh_str_index,
            },
        )
    }
}

} // verus!
