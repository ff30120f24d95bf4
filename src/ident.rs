//! The identification record that opens every ELF file.
use crate::cursor::ByteCursor;
use crate::packable::{
    has_ahead, ahead, rest, truncated, Packable, UnpackError, UnpackErrorView,
};
use vstd::prelude::*;

verus! {

/// The number of bytes of the identification record, in either class.
pub const IDENT_SIZE: u64 = 16;

/// The ELF file magic - 0x7f followed by `ELF` in ASCII
pub const ELF_FILE_MAGIC: [u8; 4] = [0x7f, 0x45, 0x4c, 0x46];

/// The four bytes that open every ELF file.
pub open spec fn elf_magic() -> Seq<u8> {
    seq![0x7fu8, 0x45u8, 0x4cu8, 0x46u8]
}

/// The ELF ident structure to identify further
/// parsing of an ELF file
#[derive(Debug, Clone, Copy, PartialEq, Eq)]
pub struct Ident {
    /// The `ELF` file magic [ELF_FILE_MAGIC]
    pub magic: [u8; 4],
    /// The class of the ELF file at hand
    pub class: Class,
    /// The endianness of the file
    pub endianness: Endianness,
    /// The file version (normally `1`)
    pub version: u8,
    /// The operating system ABI
    pub os_abi: u8,
    /// The abi version
    pub abi_version: u8,
}

/// The class of the ELF file at hand
#[derive(Debug, Clone, Copy, PartialEq, Eq, Structural)]
pub enum Class {
    /// A `32` bit ELF file
    ELF32,
    /// A `64` bit ELF file
    ELF64,
}

/// The endianness of this file
#[derive(Debug, Clone, Copy, PartialEq, Eq, Structural)]
pub enum Endianness {
    /// Little endian
    Little,
    /// Big endian
    Big,
}

/// The byte that stands for `class` on disk.
pub open spec fn class_tag(class: Class) -> u8 {
    match class {
        Class::ELF32 => 1,
        Class::ELF64 => 2,
    }
}

/// The class that the byte `b` stands for, if any.
pub open spec fn class_of_tag(b: u8) -> Option<Class> {
    if b == 1 {
        Some(Class::ELF32)
    } else if b == 2 {
        Some(Class::ELF64)
    } else {
        None
    }
}

/// The byte that stands for `e` on disk.
pub open spec fn endianness_tag(e: Endianness) -> u8 {
    match e {
        Endianness::Little => 1,
        Endianness::Big => 2,
    }
}

/// The endianness that the byte `b` stands for, if any.
pub open spec fn endianness_of_tag(b: u8) -> Option<Endianness> {
    if b == 1 {
        Some(Endianness::Little)
    } else if b == 2 {
        Some(Endianness::Big)
    } else {
        None
    }
}

/// The error that unpacking an identification record from `s` meets, in the
/// order in which the fields are read; `None` where it succeeds.
pub open spec fn ident_error(s: Seq<u8>) -> Option<UnpackErrorView> {
    if s.len() < 4 {
        Some(truncated())
    } else if s.take(4) != elf_magic() {
        Some(UnpackErrorView::InvalidMagic { expected: elf_magic(), got: s.take(4) })
    } else if s.len() < 5 {
        Some(truncated())
    } else if class_of_tag(s[4]) is None {
        Some(UnpackErrorView::InvalidEnumVariant { name: "Class"@, variant: s[4] as nat })
    } else if s.len() < 6 {
        Some(truncated())
    } else if endianness_of_tag(s[5]) is None {
        Some(UnpackErrorView::InvalidEnumVariant { name: "Endianness"@, variant: s[5] as nat })
    } else if s.len() < IDENT_SIZE {
        Some(truncated())
    } else {
        None
    }
}

/// The identification record that `s` opens with, where `ident_error(s)` is
/// `None`.
pub open spec fn ident_from(s: Seq<u8>) -> Ident {
    Ident {
        magic: ELF_FILE_MAGIC,
        class: class_of_tag(s[4])->Some_0,
        endianness: endianness_of_tag(s[5])->Some_0,
        version: s[6],
        os_abi: s[7],
        abi_version: s[8],
    }
}

/// The 16 bytes that encode `id`; the reserved bytes are zero.
pub open spec fn ident_bytes(id: Ident) -> Seq<u8> {
    id.magic@ + seq![
        class_tag(id.class),
        endianness_tag(id.endianness),
        id.version,
        id.os_abi,
        id.abi_version,
    ] + Seq::new(7, |i: int| 0u8)
}

/// The ELF magic as an owned buffer.
fn elf_magic_vec() -> (r: Vec<u8>)
    ensures
        r@ == elf_magic(),
{
    let mut v: Vec<u8> = Vec::with_capacity(4);
    v.push(0x7f);
    v.push(0x45);
    v.push(0x4c);
    v.push(0x46);
    assert(v@ =~= elf_magic());
    v
}

impl Ident {
    /// Whether the record holds the ELF magic.
    pub open spec fn wf(&self) -> bool {
        self.magic@ == elf_magic()
    }

    /// Returns whether the ident describes
    /// the file to be big endian
    pub fn is_big_endian(&self) -> (r: bool)
        ensures
            r == (self.endianness == Endianness::Big),
    {
        self.endianness == Endianness::Big
    }
}

impl Packable for Class {
    fn pack(&self, w: &mut Vec<u8>, big_endian: bool)
        ensures
            final(w)@ == old(w)@.push(class_tag(*self)),
    {
        match self {
            Class::ELF32 => w.push(1),
            Class::ELF64 => w.push(2),
        }
    }

    fn unpack(r: &mut ByteCursor, big_endian: bool) -> (res: Result<Class, UnpackError>)
        ensures
            final(r).bytes() == old(r).bytes(),
            !has_ahead(*old(r), 1) ==> res is Err && res->Err_0@ == truncated(),
            has_ahead(*old(r), 1) ==> {
                let b = ahead(*old(r), 1)[0];
                match class_of_tag(b) {
                    Some(c) => res == Ok::<Class, UnpackError>(c) && final(r).pos() == old(
                        r,
                    ).pos() + 1,
                    None => res is Err && res->Err_0@ == UnpackErrorView::InvalidEnumVariant {
                        name: "Class"@,
                        variant: b as nat,
                    },
                }
            },
    {
        let b = match r.read_exact(1) {
            Ok(b) => b,
            Err(e) => return Err(UnpackError::from(e)),
        };
        match b[0] {
            1 => Ok(Class::ELF32),
            2 => Ok(Class::ELF64),
            v => Err(
                UnpackError::InvalidEnumVariant { name: String::from_str("Class"), variant: v as usize },
            ),
        }
    }
}

impl Packable for Endianness {
    fn pack(&self, w: &mut Vec<u8>, big_endian: bool)
        ensures
            final(w)@ == old(w)@.push(endianness_tag(*self)),
    {
        match self {
            Endianness::Little => w.push(1),
            Endianness::Big => w.push(2),
        }
    }

    fn unpack(r: &mut ByteCursor, big_endian: bool) -> (res: Result<Endianness, UnpackError>)
        ensures
            final(r).bytes() == old(r).bytes(),
            !has_ahead(*old(r), 1) ==> res is Err && res->Err_0@ == truncated(),
            has_ahead(*old(r), 1) ==> {
                let b = ahead(*old(r), 1)[0];
                match endianness_of_tag(b) {
                    Some(e) => res == Ok::<Endianness, UnpackError>(e) && final(r).pos() == old(
                        r,
                    ).pos() + 1,
                    None => res is Err && res->Err_0@ == UnpackErrorView::InvalidEnumVariant {
                        name: "Endianness"@,
                        variant: b as nat,
                    },
                }
            },
    {
        let b = match r.read_exact(1) {
            Ok(b) => b,
            Err(e) => return Err(UnpackError::from(e)),
        };
        match b[0] {
            1 => Ok(Endianness::Little),
            2 => Ok(Endianness::Big),
            v => Err(
                UnpackError::InvalidEnumVariant {
                    name: String::from_str("Endianness"),
                    variant: v as usize,
                },
            ),
        }
    }
}

impl Packable for Ident {
    /// Writes the magic, the class, the endianness, the three version bytes
    /// and seven zero bytes; `big_endian` plays no part.
    fn pack(&self, w: &mut Vec<u8>, big_endian: bool)
        ensures
            final(w)@ == old(w)@ + ident_bytes(*self),
    {
        let ghost start = w@;
        w.push(self.magic[0]);
        w.push(self.magic[1]);
        w.push(self.magic[2]);
        w.push(self.magic[3]);
        self.class.pack(w, big_endian);
        self.endianness.pack(w, big_endian);
        w.push(self.version);
        w.push(self.os_abi);
        w.push(self.abi_version);
        assert(w@ =~= start + ident_bytes(*self).take(9));
        let mut i: usize = 0;
        while i < 7
            invariant
                i <= 7,
                ident_bytes(*self).len() == 16,
                w@ == start + ident_bytes(*self).take(9 + i),
            decreases 7 - i,
        {
            w.push(0);
            assert(w@ =~= start + ident_bytes(*self).take(9 + i + 1));
            i = i + 1;
        }
        assert(w@ =~= start + ident_bytes(*self));
    }

    /// Reads the record and checks its magic; `big_endian` plays no part.
    fn unpack(r: &mut ByteCursor, big_endian: bool) -> (res: Result<Ident, UnpackError>)
        ensures
            final(r).bytes() == old(r).bytes(),
            match ident_error(rest(*old(r))) {
                Some(e) => res is Err && res->Err_0@ == e,
                None => res == Ok::<Ident, UnpackError>(ident_from(rest(*old(r))))
                    && final(r).pos() == old(r).pos() + IDENT_SIZE,
            },
    {
        let ghost s = rest(*r);
        let ghost p = r.pos();
        let magic = match r.read_exact(4) {
            Ok(m) => m,
            Err(e) => return Err(UnpackError::from(e)),
        };
        assert(s.len() == r.bytes().len() - p);
        assert(s.take(4) =~= magic@);
        assert(has_ahead(*r, 1) ==> ahead(*r, 1)[0] == s[4]);
        assert(has_ahead(*r, 2) ==> ahead(*r, 2)[1] == s[5]);
        if !(magic[0] == 0x7f && magic[1] == 0x45 && magic[2] == 0x4c && magic[3] == 0x46) {
            assert(magic@ != elf_magic());
            return Err(UnpackError::InvalidMagic { expected: elf_magic_vec(), got: magic });
        }
        assert(magic@ =~= elf_magic());
        let class = match Class::unpack(r, false) {
            Ok(c) => c,
            Err(e) => return Err(e),
        };
        let endianness = match Endianness::unpack(r, false) {
            Ok(e) => e,
            Err(e) => return Err(e),
        };
        let versions = match r.read_exact(3) {
            Ok(b) => b,
            Err(e) => return Err(UnpackError::from(e)),
        };
        assert(versions@ =~= s.subrange(6, 9));
        if let Err(e) = r.read_exact(7) {
            return Err(UnpackError::from(e));
        }
        Ok(
            Ident {
                magic: ELF_FILE_MAGIC,
                class,
                endianness,
                version: versions[0],
                os_abi: versions[1],
                abi_version: versions[2],
            },
        )
    }
}

} // verus!
