//! Section headers, which describe the named regions of a file.
use crate::blob::{range_of, Blob};
use crate::bytes::uint_to_bytes;
use crate::cursor::{ByteCursor, IoError};
use crate::header::section_header_size_for;
use crate::ident::Class;
use crate::packable::{
    class_width, field, fits_class, lemma_ahead_in_rest, rest, truncated, Packable,
    PackableClass, UnpackError,
};
use vstd::prelude::*;

verus! {

/// A section header in the ELF file
#[derive(Debug, Clone, PartialEq, Eq)]
pub struct SectionHeader {
    /// The index into the `.shstrtab` section for the name of this section
    pub name: u32,
    /// The type of section at hand
    pub ty: u32,
    /// Attributes for this section
    pub flags: u64,
    /// The virtual address for this section
    pub address: u64,
    /// The offset of this section in the file image
    pub offset: u64,
    /// The size in bytes
    pub size: u64,
    /// Section index of an associated section
    pub link: u32,
    /// Additional information about this section
    pub info: u32,
    /// The required alignment of the section - must be a power of two
    pub addr_align: u64,
    /// The size in bytes of fixed-size section entries, otherwise `0`
    pub entry_size: u64,
    /// The section data, once loaded
    pub data: Option<Blob>,
}

/// The bytes that encode `h` in the given byte order and class; the order
/// of the fields is the same in both classes.
pub open spec fn section_bytes(h: SectionHeader, big: bool, class: Class) -> Seq<u8> {
    let w = class_width(class);
    uint_to_bytes(h.name as nat, 4, big) + uint_to_bytes(h.ty as nat, 4, big) + uint_to_bytes(
        h.flags as nat,
        w,
        big,
    ) + uint_to_bytes(h.address as nat, w, big) + uint_to_bytes(h.offset as nat, w, big)
        + uint_to_bytes(h.size as nat, w, big) + uint_to_bytes(h.link as nat, 4, big)
        + uint_to_bytes(h.info as nat, 4, big) + uint_to_bytes(h.addr_align as nat, w, big)
        + uint_to_bytes(h.entry_size as nat, w, big)
}

/// The section header that `s` opens with in the given byte order and
/// class, without its data.
pub open spec fn section_from(s: Seq<u8>, big: bool, class: Class) -> SectionHeader {
    let w = class_width(class);
    SectionHeader {
        name: field(s, 0, 4, big) as u32,
        ty: field(s, 4, 4, big) as u32,
        flags: field(s, 8, w, big) as u64,
        address: field(s, 8 + w, w, big) as u64,
        offset: field(s, 8 + 2 * w, w, big) as u64,
        size: field(s, 8 + 3 * w, w, big) as u64,
        link: field(s, 8 + 4 * w, 4, big) as u32,
        info: field(s, 12 + 4 * w, 4, big) as u32,
        addr_align: field(s, 16 + 4 * w, w, big) as u64,
        entry_size: field(s, 16 + 5 * w, w, big) as u64,
        data: None,
    }
}

impl SectionHeader {
    /// Whether the header can be written and read back unchanged in `class`:
    /// its class-width fields fit.
    pub open spec fn wf(&self, class: Class) -> bool {
        &&& fits_class(self.flags, class)
        &&& fits_class(self.address, class)
        &&& fits_class(self.offset, class)
        &&& fits_class(self.size, class)
        &&& fits_class(self.addr_align, class)
        &&& fits_class(self.entry_size, class)
    }

    /// The header with its data left out.
    pub open spec fn without_data(&self) -> SectionHeader {
        SectionHeader {
            name: self.name,
            ty: self.ty,
            flags: self.flags,
            address: self.address,
            offset: self.offset,
            size: self.size,
            link: self.link,
            info: self.info,
            addr_align: self.addr_align,
            entry_size: self.entry_size,
            data: None,
        }
    }

    /// Loads the section's bytes, `size` of them at `offset`, from `r`,
    /// replacing any loaded before; the position of `r` is left where it was.
    pub fn load(&mut self, r: &mut ByteCursor) -> (res: Result<(), IoError>)
        ensures
            final(r).bytes() == old(r).bytes(),
            final(r).pos() == old(r).pos(),
            final(self).without_data() == old(self).without_data(),
            res is Ok <==> old(self).offset + old(self).size <= old(r).bytes().len(),
            match res {
                Ok(_) => {
                    &&& final(self).data is Some
                    &&& final(self).data->Some_0.blob@ == range_of(
                        *old(r),
                        old(self).offset as nat,
                        old(self).size as nat,
                    )
                },
                Err(e) => e == IoError::UnexpectedEof && final(self).data == old(self).data,
            },
    {
        if self.size > r.get_ref().len() as u64 {
            return Err(IoError::UnexpectedEof);
        }
        let blob = Blob::load(r, self.offset, self.size as usize)?;
        self.data = Some(blob);
        Ok(())
    }
}

impl PackableClass for SectionHeader {
    /// Writes the structural fields; the data is not written.
    fn pack_class(&self, w: &mut Vec<u8>, big_endian: bool, class: Class)
        ensures
            final(w)@ == old(w)@ + section_bytes(*self, big_endian, class),
    {
        let ghost start = w@;
        self.name.pack(w, big_endian);
        self.ty.pack(w, big_endian);

        self.flags.pack_class(w, big_endian, class);
        self.address.pack_class(w, big_endian, class);
        self.offset.pack_class(w, big_endian, class);
        self.size.pack_class(w, big_endian, class);
        self.link.pack(w, big_endian);
        self.info.pack(w, big_endian);
        self.addr_align.pack_class(w, big_endian, class);
        self.entry_size.pack_class(w, big_endian, class);
        assert(w@ =~= start + section_bytes(*self, big_endian, class));
    }

    /// Reads the structural fields; the data is left unloaded.
    fn unpack_class(r: &mut ByteCursor, big_endian: bool, class: Class) -> (res: Result<
        SectionHeader,
        UnpackError,
    >)
        ensures
            final(r).bytes() == old(r).bytes(),
            res is Ok <==> rest(*old(r)).len() >= section_header_size_for(class),
            match res {
                Ok(h) => {
                    &&& h == section_from(rest(*old(r)), big_endian, class)
                    &&& final(r).pos() == old(r).pos() + section_header_size_for(class)
                },
                Err(e) => e@ == truncated(),
            },
    {
        let ghost c0 = *r;
        let ghost w = class_width(class);
        proof { lemma_ahead_in_rest(c0, *r, 0, 4); }
        let name = u32::unpack(r, big_endian)?;
        proof { lemma_ahead_in_rest(c0, *r, 4, 4); }
        let ty = u32::unpack(r, big_endian)?;

        proof { lemma_ahead_in_rest(c0, *r, 8, w); }
        let flags = u64::unpack_class(r, big_endian, class)?;
        proof { lemma_ahead_in_rest(c0, *r, 8 + w, w); }
        let address = u64::unpack_class(r, big_endian, class)?;
        proof { lemma_ahead_in_rest(c0, *r, 8 + 2 * w, w); }
        let offset = u64::unpack_class(r, big_endian, class)?;
        proof { lemma_ahead_in_rest(c0, *r, 8 + 3 * w, w); }
        let size = u64::unpack_class(r, big_endian, class)?;
        proof { lemma_ahead_in_rest(c0, *r, 8 + 4 * w, 4); }
        let link = u32::unpack(r, big_endian)?;
        proof { lemma_ahead_in_rest(c0, *r, 12 + 4 * w, 4); }
        let info = u32::unpack(r, big_endian)?;
        proof { lemma_ahead_in_rest(c0, *r, 16 + 4 * w, w); }
        let addr_align = u64::unpack_class(r, big_endian, class)?;
        proof { lemma_ahead_in_rest(c0, *r, 16 + 5 * w, w); }
        let entry_size = u64::unpack_class(r, big_endian, class)?;

        Ok(
            SectionHeader {
                name,
                ty,
                flags,
                address,
                offset,
                size,
                link,
                info,
                addr_align,
                entry_size,
                data: None,
            },
        )
    }
}

} // verus!
