//! Program headers, which describe the segments of a file.
use crate::blob::{range_of, Blob};
use crate::bytes::uint_to_bytes;
use crate::cursor::{ByteCursor, IoError};
use crate::header::program_header_size_for;
use crate::ident::Class;
use crate::packable::{
    field, fits_class, lemma_ahead_in_rest, rest, truncated, Packable,
    PackableClass, UnpackError,
};
use vstd::prelude::*;

verus! {

/// The type of program header at hand
#[derive(Debug, Clone, Copy, PartialEq, Eq, Structural)]
pub enum ProgramHeaderType {
    /// A unused program
    Unused,
    /// A loadable segment
    Loadable,
    /// Dynamic linking information
    Dynamic,
    /// The interpreter to run this executable with
    Interpreter,
    /// The program header tables
    ProgramHeaderTable,
    /// Any other unknown program type
    Other(u32),
}

/// The number that stands for `t` on disk.
pub open spec fn program_type_tag(t: ProgramHeaderType) -> u32 {
    match t {
        ProgramHeaderType::Unused => 0,
        ProgramHeaderType::Loadable => 1,
        ProgramHeaderType::Dynamic => 2,
        ProgramHeaderType::Interpreter => 3,
        ProgramHeaderType::ProgramHeaderTable => 6,
        ProgramHeaderType::Other(v) => v,
    }
}

/// The type that the number `v` stands for; numbers without a name of
/// their own are kept as they are.
pub open spec fn program_type_of_tag(v: u32) -> ProgramHeaderType {
    if v == 0 {
        ProgramHeaderType::Unused
    } else if v == 1 {
        ProgramHeaderType::Loadable
    } else if v == 2 {
        ProgramHeaderType::Dynamic
    } else if v == 3 {
        ProgramHeaderType::Interpreter
    } else if v == 6 {
        ProgramHeaderType::ProgramHeaderTable
    } else {
        ProgramHeaderType::Other(v)
    }
}

impl ProgramHeaderType {
    /// Whether an `Other` type holds a number that no named type has.
    pub open spec fn wf(&self) -> bool {
        match self {
            ProgramHeaderType::Other(v) => !(v == 0 || v == 1 || v == 2 || v == 3 || v == 6),
            _ => true,
        }
    }
}

impl Packable for ProgramHeaderType {
    fn pack(&self, w: &mut Vec<u8>, big_endian: bool)
        ensures
            final(w)@ == old(w)@ + uint_to_bytes(program_type_tag(*self) as nat, 4, big_endian),
    {
        let ty: u32 = match self {
            ProgramHeaderType::Unused => 0,
            ProgramHeaderType::Loadable => 1,
            ProgramHeaderType::Dynamic => 2,
            ProgramHeaderType::Interpreter => 3,
            ProgramHeaderType::ProgramHeaderTable => 6,
            ProgramHeaderType::Other(ty) => *ty,
        };

        ty.pack(w, big_endian)
    }

    fn unpack(r: &mut ByteCursor, big_endian: bool) -> (res: Result<
        ProgramHeaderType,
        UnpackError,
    >)
        ensures
            final(r).bytes() == old(r).bytes(),
            res is Ok <==> rest(*old(r)).len() >= 4,
            match res {
                Ok(t) => {
                    &&& t == program_type_of_tag(
                        field(rest(*old(r)), 0, 4, big_endian) as u32,
                    )
                    &&& final(r).pos() == old(r).pos() + 4
                },
                Err(e) => e@ == truncated(),
            },
    {
        proof {
            lemma_ahead_in_rest(*r, *r, 0, 4);
        }
        let ty = u32::unpack(r, big_endian)?;

        Ok(
            match ty {
                0x0 => ProgramHeaderType::Unused,
                0x1 => ProgramHeaderType::Loadable,
                0x2 => ProgramHeaderType::Dynamic,
                0x3 => ProgramHeaderType::Interpreter,
                0x6 => ProgramHeaderType::ProgramHeaderTable,
                x => ProgramHeaderType::Other(x),
            },
        )
    }
}

/// A program header in the ELF file
#[derive(Debug, Clone, PartialEq, Eq)]
pub struct ProgramHeader {
    /// The type of segment at hand
    pub ty: ProgramHeaderType,
    /// The flags for this segment:
    /// - `0x01`: Executable
    /// - `0x02`: Writable
    /// - `0x04`: Readable
    pub flags: u32,
    /// The offset of the segment in the file image
    pub offset: u64,
    /// The virtual address of this segment in memory
    pub virtual_addr: u64,
    /// The physical address of this segment in memory (if required)
    pub physical_addr: u64,
    /// The size of the segment in the file
    pub file_size: u64,
    /// THe size of the segment in memory
    pub mem_size: u64,
    /// Alignment for this segment, `0` or `1` mean no alignment
    pub alignment: u64,
    /// The program data, once loaded
    pub data: Option<Blob>,
}

/// The bytes that encode `h` for the 64-bit class: the flags follow the type.
pub open spec fn program_bytes_64(h: ProgramHeader, big: bool) -> Seq<u8> {
    uint_to_bytes(program_type_tag(h.ty) as nat, 4, big) + uint_to_bytes(h.flags as nat, 4, big)
        + uint_to_bytes(h.offset as nat, 8, big) + uint_to_bytes(h.virtual_addr as nat, 8, big)
        + uint_to_bytes(h.physical_addr as nat, 8, big) + uint_to_bytes(h.file_size as nat, 8, big)
        + uint_to_bytes(h.mem_size as nat, 8, big) + uint_to_bytes(h.alignment as nat, 8, big)
}

/// The bytes that encode `h` for the 32-bit class: the flags come just
/// before the alignment.
pub open spec fn program_bytes_32(h: ProgramHeader, big: bool) -> Seq<u8> {
    uint_to_bytes(program_type_tag(h.ty) as nat, 4, big) + uint_to_bytes(h.offset as nat, 4, big)
        + uint_to_bytes(h.virtual_addr as nat, 4, big) + uint_to_bytes(h.physical_addr as nat, 4, big)
        + uint_to_bytes(h.file_size as nat, 4, big) + uint_to_bytes(h.mem_size as nat, 4, big)
        + uint_to_bytes(h.flags as nat, 4, big) + uint_to_bytes(h.alignment as nat, 4, big)
}

/// The bytes that encode `h` in the given byte order and class.
pub open spec fn program_bytes(h: ProgramHeader, big: bool, class: Class) -> Seq<u8> {
    match class {
        Class::ELF64 => program_bytes_64(h, big),
        Class::ELF32 => program_bytes_32(h, big),
    }
}

/// The program header of the 64-bit class that `s` opens with.
pub open spec fn program_from_64(s: Seq<u8>, big: bool) -> ProgramHeader {
    ProgramHeader {
        ty: program_type_of_tag(field(s, 0, 4, big) as u32),
        flags: field(s, 4, 4, big) as u32,
        offset: field(s, 8, 8, big) as u64,
        virtual_addr: field(s, 16, 8, big) as u64,
        physical_addr: field(s, 24, 8, big) as u64,
        file_size: field(s, 32, 8, big) as u64,
        mem_size: field(s, 40, 8, big) as u64,
        alignment: field(s, 48, 8, big) as u64,
        data: None,
    }
}

/// The program header of the 32-bit class that `s` opens with.
pub open spec fn program_from_32(s: Seq<u8>, big: bool) -> ProgramHeader {
    ProgramHeader {
        ty: program_type_of_tag(field(s, 0, 4, big) as u32),
        offset: field(s, 4, 4, big) as u64,
        virtual_addr: field(s, 8, 4, big) as u64,
        physical_addr: field(s, 12, 4, big) as u64,
        file_size: field(s, 16, 4, big) as u64,
        mem_size: field(s, 20, 4, big) as u64,
        flags: field(s, 24, 4, big) as u32,
        alignment: field(s, 28, 4, big) as u64,
        data: None,
    }
}

/// The program header that `s` opens with in the given byte order and
/// class, without its data.
pub open spec fn program_from(s: Seq<u8>, big: bool, class: Class) -> ProgramHeader {
    match class {
        Class::ELF64 => program_from_64(s, big),
        Class::ELF32 => program_from_32(s, big),
    }
}

impl ProgramHeader {
    /// Whether the header can be written and read back unchanged in `class`:
    /// its type is in canonical form and its class-width fields fit.
    pub open spec fn wf(&self, class: Class) -> bool {
        &&& self.ty.wf()
        &&& fits_class(self.offset, class)
        &&& fits_class(self.virtual_addr, class)
        &&& fits_class(self.physical_addr, class)
        &&& fits_class(self.file_size, class)
        &&& fits_class(self.mem_size, class)
        &&& fits_class(self.alignment, class)
    }

    /// The header with its data left out.
    pub open spec fn without_data(&self) -> ProgramHeader {
        ProgramHeader {
            ty: self.ty,
            flags: self.flags,
            offset: self.offset,
            virtual_addr: self.virtual_addr,
            physical_addr: self.physical_addr,
            file_size: self.file_size,
            mem_size: self.mem_size,
            alignment: self.alignment,
            data: None,
        }
    }

    /// Loads the segment's bytes, `file_size` of them at `offset`, from `r`,
    /// replacing any loaded before; the position of `r` is left where it was.
    pub fn load(&mut self, r: &mut ByteCursor) -> (res: Result<(), IoError>)
        ensures
            final(r).bytes() == old(r).bytes(),
            final(r).pos() == old(r).pos(),
            final(self).without_data() == old(self).without_data(),
            res is Ok <==> old(self).offset + old(self).file_size <= old(r).bytes().len(),
            match res {
                Ok(_) => {
                    &&& final(self).data is Some
                    &&& final(self).data->Some_0.blob@ == range_of(
                        *old(r),
                        old(self).offset as nat,
                        old(self).file_size as nat,
                    )
                },
                Err(e) => e == IoError::UnexpectedEof && final(self).data == old(self).data,
            },
    {
        if self.file_size > r.get_ref().len() as u64 {
            return Err(IoError::UnexpectedEof);
        }
        let blob = Blob::load(r, self.offset, self.file_size as usize)?;
        self.data = Some(blob);
        Ok(())
    }

    fn pack_64(&self, w: &mut Vec<u8>, big_endian: bool)
        ensures
            final(w)@ == old(w)@ + program_bytes_64(*self, big_endian),
    {
        let ghost start = w@;
        self.ty.pack(w, big_endian);
        self.flags.pack(w, big_endian);
        self.offset.pack(w, big_endian);
        self.virtual_addr.pack(w, big_endian);
        self.physical_addr.pack(w, big_endian);
        self.file_size.pack(w, big_endian);
        self.mem_size.pack(w, big_endian);
        self.alignment.pack(w, big_endian);
        assert(w@ =~= start + program_bytes_64(*self, big_endian));
    }

    fn pack_32(&self, w: &mut Vec<u8>, big_endian: bool)
        ensures
            final(w)@ == old(w)@ + program_bytes_32(*self, big_endian),
    {
        let ghost start = w@;
        self.ty.pack(w, big_endian);
        self.offset.pack_class(w, big_endian, Class::ELF32);
        self.virtual_addr.pack_class(w, big_endian, Class::ELF32);
        self.physical_addr.pack_class(w, big_endian, Class::ELF32);
        self.file_size.pack_class(w, big_endian, Class::ELF32);
        self.mem_size.pack_class(w, big_endian, Class::ELF32);
        self.flags.pack(w, big_endian);
        self.alignment.pack_class(w, big_endian, Class::ELF32);
        assert(w@ =~= start + program_bytes_32(*self, big_endian));
    }

    fn unpack_64(r: &mut ByteCursor, big_endian: bool) -> (res: Result<
        ProgramHeader,
        UnpackError,
    >)
        ensures
            final(r).bytes() == old(r).bytes(),
            res is Ok <==> rest(*old(r)).len() >= 0x38,
            match res {
                Ok(h) => {
                    &&& h == program_from_64(rest(*old(r)), big_endian)
                    &&& final(r).pos() == old(r).pos() + 0x38
                },
                Err(e) => e@ == truncated(),
            },
    {
        let ghost c0 = *r;
        let ty = ProgramHeaderType::unpack(r, big_endian)?;
        proof { lemma_ahead_in_rest(c0, *r, 4, 4); }
        let flags = u32::unpack(r, big_endian)?;
        proof { lemma_ahead_in_rest(c0, *r, 8, 8); }
        let offset = u64::unpack(r, big_endian)?;
        proof { lemma_ahead_in_rest(c0, *r, 16, 8); }
        let virtual_addr = u64::unpack(r, big_endian)?;
        proof { lemma_ahead_in_rest(c0, *r, 24, 8); }
        let physical_addr = u64::unpack(r, big_endian)?;
        proof { lemma_ahead_in_rest(c0, *r, 32, 8); }
        let file_size = u64::unpack(r, big_endian)?;
        proof { lemma_ahead_in_rest(c0, *r, 40, 8); }
        let mem_size = u64::unpack(r, big_endian)?;
        proof { lemma_ahead_in_rest(c0, *r, 48, 8); }
        let alignment = u64::unpack(r, big_endian)?;
        Ok(
            ProgramHeader {
                ty,
                flags,
                offset,
                virtual_addr,
                physical_addr,
                file_size,
                mem_size,
                alignment,
                data: None,
            },
        )
    }

    fn unpack_32(r: &mut ByteCursor, big_endian: bool) -> (res: Result<
        ProgramHeader,
        UnpackError,
    >)
        ensures
            final(r).bytes() == old(r).bytes(),
            res is Ok <==> rest(*old(r)).len() >= 0x20,
            match res {
                Ok(h) => {
                    &&& h == program_from_32(rest(*old(r)), big_endian)
                    &&& final(r).pos() == old(r).pos() + 0x20
                },
                Err(e) => e@ == truncated(),
            },
    {
        let ghost c0 = *r;
        let class = Class::ELF32;
        let ty = ProgramHeaderType::unpack(r, big_endian)?;
        proof { lemma_ahead_in_rest(c0, *r, 4, 4); }
        let offset = u64::unpack_class(r, big_endian, class)?;
        proof { lemma_ahead_in_rest(c0, *r, 8, 4); }
        let virtual_addr = u64::unpack_class(r, big_endian, class)?;
        proof { lemma_ahead_in_rest(c0, *r, 12, 4); }
        let physical_addr = u64::unpack_class(r, big_endian, class)?;
        proof { lemma_ahead_in_rest(c0, *r, 16, 4); }
        let file_size = u64::unpack_class(r, big_endian, class)?;
        proof { lemma_ahead_in_rest(c0, *r, 20, 4); }
        let mem_size = u64::unpack_class(r, big_endian, class)?;
        proof { lemma_ahead_in_rest(c0, *r, 24, 4); }
        let flags = u32::unpack(r, big_endian)?;
        proof { lemma_ahead_in_rest(c0, *r, 28, 4); }
        let alignment = u64::unpack_class(r, big_endian, class)?;
        Ok(
            ProgramHeader {
                ty,
                flags,
                offset,
                virtual_addr,
                physical_addr,
                file_size,
                mem_size,
                alignment,
                data: None,
            },
        )
    }
}

impl PackableClass for ProgramHeader {
    /// Writes the structural fields; the data is not written.
    fn pack_class(&self, w: &mut Vec<u8>, big_endian: bool, class: Class)
        ensures
            final(w)@ == old(w)@ + program_bytes(*self, big_endian, class),
    {
        match class {
            Class::ELF64 => self.pack_64(w, big_endian),
            Class::ELF32 => self.pack_32(w, big_endian),
        }
    }

    /// Reads the structural fields; the data is left unloaded.
    fn unpack_class(r: &mut ByteCursor, big_endian: bool, class: Class) -> (res: Result<
        ProgramHeader,
        UnpackError,
    >)
        ensures
            final(r).bytes() == old(r).bytes(),
            res is Ok <==> rest(*old(r)).len() >= program_header_size_for(class),
            match res {
                Ok(h) => {
                    &&& h == program_from(rest(*old(r)), big_endian, class)
                    &&& final(r).pos() == old(r).pos() + program_header_size_for(class)
                },
                Err(e) => e@ == truncated(),
            },
    {
        match class {
            Class::ELF64 => Self::unpack_64(r, big_endian),
            Class::ELF32 => Self::unpack_32(r, big_endian),
        }
    }
}

} // verus!
