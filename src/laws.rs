//! What holds of the codec as a whole: records read back as they were
//! written, and the checks that guard a read.
use crate::blob::range_of;
use crate::bytes::{
    lemma_pow256_values, lemma_uint_round_trip, pow256, uint_from_bytes, uint_to_bytes,
};
use crate::cursor::ByteCursor;
use crate::file::{file_error, file_error_fully};
use crate::header::{
    header_bytes, header_error, header_from, header_size_for, program_header_size_for,
    section_header_size_for, Header,
};
use crate::ident::{
    elf_magic, ident_bytes, ident_error, ident_from, Class, Endianness, Ident, ELF_FILE_MAGIC,
};
use crate::packable::{bytes_from, class_width, field, UnpackErrorView};
use crate::program::{
    program_bytes, program_from, program_type_of_tag, program_type_tag, ProgramHeader,
    ProgramHeaderType,
};
use crate::section::{section_bytes, section_from, SectionHeader};
use vstd::arithmetic::div_mod::lemma_small_mod;
use vstd::prelude::*;

verus! {

/// Reading back the piece of `s` at `at` that encodes `v` in `n` bytes gives
/// `v` modulo `256^n`.
proof fn lemma_field_of_piece(s: Seq<u8>, at: nat, v: nat, n: nat, big: bool)
    requires
        at + n <= s.len(),
        s.subrange(at as int, (at + n) as int) == uint_to_bytes(v, n, big),
    ensures
        field(s, at, n, big) == v % pow256(n),
        v < pow256(n) ==> field(s, at, n, big) == v,
{
    lemma_uint_round_trip(v, n, big);
    if v < pow256(n) {
        lemma_small_mod(v, pow256(n));
    }
}

/// The type numbers of program headers: every number reads as a type that
/// writes it back unchanged, named or not, and every type in canonical form
/// reads back from its number.
pub proof fn lemma_program_type_round_trip(v: u32, t: ProgramHeaderType)
    ensures
        program_type_tag(program_type_of_tag(v)) == v,
        program_type_of_tag(v).wf(),
        t.wf() ==> program_type_of_tag(program_type_tag(t)) == t,
{
}

/// A program header whose class-width fields fit its class reads back from
/// its bytes with every field unchanged, in either class and byte order; in
/// both classes the bytes are exactly a program header's size.
pub proof fn lemma_program_round_trip(h: ProgramHeader, big: bool, class: Class)
    requires
        h.wf(class),
    ensures
        program_bytes(h, big, class).len() == program_header_size_for(class),
        program_from(program_bytes(h, big, class), big, class) == h.without_data(),
{
    lemma_pow256_values();
    lemma_program_type_round_trip(0, h.ty);
    let w = class_width(class);
    lemma_uint_round_trip(program_type_tag(h.ty) as nat, 4, big);
    lemma_uint_round_trip(h.flags as nat, 4, big);
    lemma_uint_round_trip(h.offset as nat, w, big);
    lemma_uint_round_trip(h.virtual_addr as nat, w, big);
    lemma_uint_round_trip(h.physical_addr as nat, w, big);
    lemma_uint_round_trip(h.file_size as nat, w, big);
    lemma_uint_round_trip(h.mem_size as nat, w, big);
    lemma_uint_round_trip(h.alignment as nat, w, big);
    let s = program_bytes(h, big, class);
    match class {
        Class::ELF64 => {
            assert(s.subrange(0, 4) =~= uint_to_bytes(program_type_tag(h.ty) as nat, 4, big));
            assert(s.subrange(4, 8) =~= uint_to_bytes(h.flags as nat, 4, big));
            assert(s.subrange(8, 16) =~= uint_to_bytes(h.offset as nat, 8, big));
            assert(s.subrange(16, 24) =~= uint_to_bytes(h.virtual_addr as nat, 8, big));
            assert(s.subrange(24, 32) =~= uint_to_bytes(h.physical_addr as nat, 8, big));
            assert(s.subrange(32, 40) =~= uint_to_bytes(h.file_size as nat, 8, big));
            assert(s.subrange(40, 48) =~= uint_to_bytes(h.mem_size as nat, 8, big));
            assert(s.subrange(48, 56) =~= uint_to_bytes(h.alignment as nat, 8, big));
            lemma_field_of_piece(s, 0, program_type_tag(h.ty) as nat, 4, big);
            lemma_field_of_piece(s, 4, h.flags as nat, 4, big);
            lemma_field_of_piece(s, 8, h.offset as nat, 8, big);
            lemma_field_of_piece(s, 16, h.virtual_addr as nat, 8, big);
            lemma_field_of_piece(s, 24, h.physical_addr as nat, 8, big);
            lemma_field_of_piece(s, 32, h.file_size as nat, 8, big);
            lemma_field_of_piece(s, 40, h.mem_size as nat, 8, big);
            lemma_field_of_piece(s, 48, h.alignment as nat, 8, big);
        },
        Class::ELF32 => {
            assert(s.subrange(0, 4) =~= uint_to_bytes(program_type_tag(h.ty) as nat, 4, big));
            assert(s.subrange(4, 8) =~= uint_to_bytes(h.offset as nat, 4, big));
            assert(s.subrange(8, 12) =~= uint_to_bytes(h.virtual_addr as nat, 4, big));
            assert(s.subrange(12, 16) =~= uint_to_bytes(h.physical_addr as nat, 4, big));
            assert(s.subrange(16, 20) =~= uint_to_bytes(h.file_size as nat, 4, big));
            assert(s.subrange(20, 24) =~= uint_to_bytes(h.mem_size as nat, 4, big));
            assert(s.subrange(24, 28) =~= uint_to_bytes(h.flags as nat, 4, big));
            assert(s.subrange(28, 32) =~= uint_to_bytes(h.alignment as nat, 4, big));
            lemma_field_of_piece(s, 0, program_type_tag(h.ty) as nat, 4, big);
            lemma_field_of_piece(s, 4, h.offset as nat, 4, big);
            lemma_field_of_piece(s, 8, h.virtual_addr as nat, 4, big);
            lemma_field_of_piece(s, 12, h.physical_addr as nat, 4, big);
            lemma_field_of_piece(s, 16, h.file_size as nat, 4, big);
            lemma_field_of_piece(s, 20, h.mem_size as nat, 4, big);
            lemma_field_of_piece(s, 24, h.flags as nat, 4, big);
            lemma_field_of_piece(s, 28, h.alignment as nat, 4, big);
        },
    }
}

/// A section header whose class-width fields fit its class reads back from
/// its bytes with every field unchanged, in either class and byte order; the
/// bytes are exactly a section header's size.
pub proof fn lemma_section_round_trip(h: SectionHeader, big: bool, class: Class)
    requires
        h.wf(class),
    ensures
        section_bytes(h, big, class).len() == section_header_size_for(class),
        section_from(section_bytes(h, big, class), big, class) == h.without_data(),
{
    lemma_pow256_values();
    let w = class_width(class);
    lemma_uint_round_trip(h.name as nat, 4, big);
    lemma_uint_round_trip(h.ty as nat, 4, big);
    lemma_uint_round_trip(h.flags as nat, w, big);
    lemma_uint_round_trip(h.address as nat, w, big);
    lemma_uint_round_trip(h.offset as nat, w, big);
    lemma_uint_round_trip(h.size as nat, w, big);
    lemma_uint_round_trip(h.link as nat, 4, big);
    lemma_uint_round_trip(h.info as nat, 4, big);
    lemma_uint_round_trip(h.addr_align as nat, w, big);
    lemma_uint_round_trip(h.entry_size as nat, w, big);
    let s = section_bytes(h, big, class);
    match class {
        Class::ELF64 => {
            assert(s.subrange(0, 4) =~= uint_to_bytes(h.name as nat, 4, big));
            assert(s.subrange(4, 8) =~= uint_to_bytes(h.ty as nat, 4, big));
            assert(s.subrange(8, 16) =~= uint_to_bytes(h.flags as nat, 8, big));
            assert(s.subrange(16, 24) =~= uint_to_bytes(h.address as nat, 8, big));
            assert(s.subrange(24, 32) =~= uint_to_bytes(h.offset as nat, 8, big));
            assert(s.subrange(32, 40) =~= uint_to_bytes(h.size as nat, 8, big));
            assert(s.subrange(40, 44) =~= uint_to_bytes(h.link as nat, 4, big));
            assert(s.subrange(44, 48) =~= uint_to_bytes(h.info as nat, 4, big));
            assert(s.subrange(48, 56) =~= uint_to_bytes(h.addr_align as nat, 8, big));
            assert(s.subrange(56, 64) =~= uint_to_bytes(h.entry_size as nat, 8, big));
            lemma_field_of_piece(s, 0, h.name as nat, 4, big);
            lemma_field_of_piece(s, 4, h.ty as nat, 4, big);
            lemma_field_of_piece(s, 8, h.flags as nat, 8, big);
            lemma_field_of_piece(s, 16, h.address as nat, 8, big);
            lemma_field_of_piece(s, 24, h.offset as nat, 8, big);
            lemma_field_of_piece(s, 32, h.size as nat, 8, big);
            lemma_field_of_piece(s, 40, h.link as nat, 4, big);
            lemma_field_of_piece(s, 44, h.info as nat, 4, big);
            lemma_field_of_piece(s, 48, h.addr_align as nat, 8, big);
            lemma_field_of_piece(s, 56, h.entry_size as nat, 8, big);
        },
        Class::ELF32 => {
            assert(s.subrange(0, 4) =~= uint_to_bytes(h.name as nat, 4, big));
            assert(s.subrange(4, 8) =~= uint_to_bytes(h.ty as nat, 4, big));
            assert(s.subrange(8, 12) =~= uint_to_bytes(h.flags as nat, 4, big));
            assert(s.subrange(12, 16) =~= uint_to_bytes(h.address as nat, 4, big));
            assert(s.subrange(16, 20) =~= uint_to_bytes(h.offset as nat, 4, big));
            assert(s.subrange(20, 24) =~= uint_to_bytes(h.size as nat, 4, big));
            assert(s.subrange(24, 28) =~= uint_to_bytes(h.link as nat, 4, big));
            assert(s.subrange(28, 32) =~= uint_to_bytes(h.info as nat, 4, big));
            assert(s.subrange(32, 36) =~= uint_to_bytes(h.addr_align as nat, 4, big));
            assert(s.subrange(36, 40) =~= uint_to_bytes(h.entry_size as nat, 4, big));
            lemma_field_of_piece(s, 0, h.name as nat, 4, big);
            lemma_field_of_piece(s, 4, h.ty as nat, 4, big);
            lemma_field_of_piece(s, 8, h.flags as nat, 4, big);
            lemma_field_of_piece(s, 12, h.address as nat, 4, big);
            lemma_field_of_piece(s, 16, h.offset as nat, 4, big);
            lemma_field_of_piece(s, 20, h.size as nat, 4, big);
            lemma_field_of_piece(s, 24, h.link as nat, 4, big);
            lemma_field_of_piece(s, 28, h.info as nat, 4, big);
            lemma_field_of_piece(s, 32, h.addr_align as nat, 4, big);
            lemma_field_of_piece(s, 36, h.entry_size as nat, 4, big);
        },
    }
}

/// A file header that holds the magic and whose class-width fields fit its
/// class reads back from its bytes unchanged, in either class and byte
/// order; the bytes are exactly the header size of its class.
pub proof fn lemma_header_round_trip(h: Header)
    requires
        h.wf(),
    ensures
        header_bytes(h).len() == header_size_for(h.ident.class),
        header_error(header_bytes(h)) is None,
        header_from(header_bytes(h)) == h,
{
    lemma_pow256_values();
    lemma_ident_round_trip(h.ident);
    let big = h.ident.endianness == Endianness::Big;
    let w = class_width(h.ident.class);
    lemma_uint_round_trip(h.ty as nat, 2, big);
    lemma_uint_round_trip(h.machine as nat, 2, big);
    lemma_uint_round_trip(h.version as nat, 4, big);
    lemma_uint_round_trip(h.entry_point as nat, w, big);
    lemma_uint_round_trip(h.ph_offset as nat, w, big);
    lemma_uint_round_trip(h.sh_offset as nat, w, big);
    lemma_uint_round_trip(h.flags as nat, 4, big);
    lemma_uint_round_trip(h.header_size as nat, 2, big);
    lemma_uint_round_trip(h.ph_entry_size as nat, 2, big);
    lemma_uint_round_trip(h.ph_entry_count as nat, 2, big);
    lemma_uint_round_trip(h.sh_entry_size as nat, 2, big);
    lemma_uint_round_trip(h.sh_entry_count as nat, 2, big);
    lemma_uint_round_trip(h.sh_str_index as nat, 2, big);
    let s = header_bytes(h);
    let id = ident_bytes(h.ident);
    assert(s.subrange(0, 16) =~= id);
    assert(s.take(4) =~= id.take(4));
    assert(s[4] == id[4] && s[5] == id[5] && s[6] == id[6] && s[7] == id[7] && s[8] == id[8]);
    assert(ident_from(s) == ident_from(id));
    match h.ident.class {
        Class::ELF64 => {
            assert(s.subrange(16, 18) =~= uint_to_bytes(h.ty as nat, 2, big));
            assert(s.subrange(18, 20) =~= uint_to_bytes(h.machine as nat, 2, big));
            assert(s.subrange(20, 24) =~= uint_to_bytes(h.version as nat, 4, big));
            assert(s.subrange(24, 32) =~= uint_to_bytes(h.entry_point as nat, 8, big));
            assert(s.subrange(32, 40) =~= uint_to_bytes(h.ph_offset as nat, 8, big));
            assert(s.subrange(40, 48) =~= uint_to_bytes(h.sh_offset as nat, 8, big));
            assert(s.subrange(48, 52) =~= uint_to_bytes(h.flags as nat, 4, big));
            assert(s.subrange(52, 54) =~= uint_to_bytes(h.header_size as nat, 2, big));
            assert(s.subrange(54, 56) =~= uint_to_bytes(h.ph_entry_size as nat, 2, big));
            assert(s.subrange(56, 58) =~= uint_to_bytes(h.ph_entry_count as nat, 2, big));
            assert(s.subrange(58, 60) =~= uint_to_bytes(h.sh_entry_size as nat, 2, big));
            assert(s.subrange(60, 62) =~= uint_to_bytes(h.sh_entry_count as nat, 2, big));
            assert(s.subrange(62, 64) =~= uint_to_bytes(h.sh_str_index as nat, 2, big));
            lemma_field_of_piece(s, 16, h.ty as nat, 2, big);
            lemma_field_of_piece(s, 18, h.machine as nat, 2, big);
            lemma_field_of_piece(s, 20, h.version as nat, 4, big);
            lemma_field_of_piece(s, 24, h.entry_point as nat, 8, big);
            lemma_field_of_piece(s, 32, h.ph_offset as nat, 8, big);
            lemma_field_of_piece(s, 40, h.sh_offset as nat, 8, big);
            lemma_field_of_piece(s, 48, h.flags as nat, 4, big);
            lemma_field_of_piece(s, 52, h.header_size as nat, 2, big);
            lemma_field_of_piece(s, 54, h.ph_entry_size as nat, 2, big);
            lemma_field_of_piece(s, 56, h.ph_entry_count as nat, 2, big);
            lemma_field_of_piece(s, 58, h.sh_entry_size as nat, 2, big);
            lemma_field_of_piece(s, 60, h.sh_entry_count as nat, 2, big);
            lemma_field_of_piece(s, 62, h.sh_str_index as nat, 2, big);
        },
        Class::ELF32 => {
            assert(s.subrange(16, 18) =~= uint_to_bytes(h.ty as nat, 2, big));
            assert(s.subrange(18, 20) =~= uint_to_bytes(h.machine as nat, 2, big));
            assert(s.subrange(20, 24) =~= uint_to_bytes(h.version as nat, 4, big));
            assert(s.subrange(24, 28) =~= uint_to_bytes(h.entry_point as nat, 4, big));
            assert(s.subrange(28, 32) =~= uint_to_bytes(h.ph_offset as nat, 4, big));
            assert(s.subrange(32, 36) =~= uint_to_bytes(h.sh_offset as nat, 4, big));
            assert(s.subrange(36, 40) =~= uint_to_bytes(h.flags as nat, 4, big));
            assert(s.subrange(40, 42) =~= uint_to_bytes(h.header_size as nat, 2, big));
            assert(s.subrange(42, 44) =~= uint_to_bytes(h.ph_entry_size as nat, 2, big));
            assert(s.subrange(44, 46) =~= uint_to_bytes(h.ph_entry_count as nat, 2, big));
            assert(s.subrange(46, 48) =~= uint_to_bytes(h.sh_entry_size as nat, 2, big));
            assert(s.subrange(48, 50) =~= uint_to_bytes(h.sh_entry_count as nat, 2, big));
            assert(s.subrange(50, 52) =~= uint_to_bytes(h.sh_str_index as nat, 2, big));
            lemma_field_of_piece(s, 16, h.ty as nat, 2, big);
            lemma_field_of_piece(s, 18, h.machine as nat, 2, big);
            lemma_field_of_piece(s, 20, h.version as nat, 4, big);
            lemma_field_of_piece(s, 24, h.entry_point as nat, 4, big);
            lemma_field_of_piece(s, 28, h.ph_offset as nat, 4, big);
            lemma_field_of_piece(s, 32, h.sh_offset as nat, 4, big);
            lemma_field_of_piece(s, 36, h.flags as nat, 4, big);
            lemma_field_of_piece(s, 40, h.header_size as nat, 2, big);
            lemma_field_of_piece(s, 42, h.ph_entry_size as nat, 2, big);
            lemma_field_of_piece(s, 44, h.ph_entry_count as nat, 2, big);
            lemma_field_of_piece(s, 46, h.sh_entry_size as nat, 2, big);
            lemma_field_of_piece(s, 48, h.sh_entry_count as nat, 2, big);
            lemma_field_of_piece(s, 50, h.sh_str_index as nat, 2, big);
        },
    }
}

/// An identification record that holds the magic reads back from its
/// bytes unchanged, the reserved bytes being written as zeros.
pub proof fn lemma_ident_round_trip(id: Ident)
    requires
        id.wf(),
    ensures
        ident_bytes(id).len() == 16,
        ident_error(ident_bytes(id)) is None,
        ident_from(ident_bytes(id)) == id,
{
    let b = ident_bytes(id);
    assert(b.take(4) =~= elf_magic());
    assert(ELF_FILE_MAGIC@ =~= id.magic@);
    assert(ELF_FILE_MAGIC == id.magic);
}

/// Whatever follows them, four leading bytes other than the ELF magic make
/// every read of an identification record, a file header or a whole file
/// fail with `InvalidMagic`, which reports the bytes found.
pub proof fn lemma_magic_gate(d: Seq<u8>, p: nat)
    requires
        bytes_from(d, p).len() >= 4,
        bytes_from(d, p).take(4) != elf_magic(),
    ensures
        ({
            let e = Some(
                UnpackErrorView::InvalidMagic {
                    expected: elf_magic(),
                    got: bytes_from(d, p).take(4),
                },
            );
            &&& ident_error(bytes_from(d, p)) == e
            &&& header_error(bytes_from(d, p)) == e
            &&& file_error(d, p) == e
            &&& file_error_fully(d, p) == e
        }),
{
}

/// A class-width field keeps only the low 32 bits of its value in the
/// 32-bit class, and the whole value in the 64-bit class.
pub proof fn lemma_class_width_truncates(v: u64, big: bool)
    ensures
        uint_to_bytes(v as nat, class_width(Class::ELF32), big).len() == 4,
        uint_from_bytes(uint_to_bytes(v as nat, class_width(Class::ELF32), big), big) == v
            % 0x1_0000_0000,
        uint_to_bytes(v as nat, class_width(Class::ELF64), big).len() == 8,
        uint_from_bytes(uint_to_bytes(v as nat, class_width(Class::ELF64), big), big) == v,
{
    lemma_pow256_values();
    lemma_uint_round_trip(v as nat, 4, big);
    lemma_uint_round_trip(v as nat, 8, big);
    lemma_small_mod(v as nat, pow256(8));
}

/// Loading a segment's bytes again, from the cursor and the header that a
/// first load left (same bytes, same position, same fields), succeeds or
/// fails as the first did and yields the same bytes.
pub proof fn lemma_program_load_repeats(
    c: ByteCursor,
    h: ProgramHeader,
    c1: ByteCursor,
    h1: ProgramHeader,
)
    requires
        c1.bytes() == c.bytes(),
        c1.pos() == c.pos(),
        h1.without_data() == h.without_data(),
    ensures
        (h1.offset + h1.file_size <= c1.bytes().len()) <==> (h.offset + h.file_size
            <= c.bytes().len()),
        range_of(c1, h1.offset as nat, h1.file_size as nat) == range_of(
            c,
            h.offset as nat,
            h.file_size as nat,
        ),
{
}

/// Loading a section's bytes again, from the cursor and the header that a
/// first load left, succeeds or fails as the first did and yields the same
/// bytes.
pub proof fn lemma_section_load_repeats(
    c: ByteCursor,
    h: SectionHeader,
    c1: ByteCursor,
    h1: SectionHeader,
)
    requires
        c1.bytes() == c.bytes(),
        c1.pos() == c.pos(),
        h1.without_data() == h.without_data(),
    ensures
        (h1.offset + h1.size <= c1.bytes().len()) <==> (h.offset + h.size <= c.bytes().len()),
        range_of(c1, h1.offset as nat, h1.size as nat) == range_of(
            c,
            h.offset as nat,
            h.size as nat,
        ),
{
}

} // verus!
