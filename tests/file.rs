use elfsmith::{
    ByteCursor, Class, ELFFile, Endianness, Header, Ident, IoError, Packable, PackableClass,
    ProgramHeader, ProgramHeaderType, SectionHeader, UnpackError, ELF_FILE_MAGIC,
};

fn push_le(out: &mut Vec<u8>, v: u64, n: usize) {
    for i in 0..n {
        out.push((v >> (8 * i)) as u8);
    }
}

/// A 64-bit little-endian file with one loadable segment of four bytes at
/// 0x78 and no sections, written out byte by byte.
fn minimal_stream() -> Vec<u8> {
    let mut s = vec![0x7f, 0x45, 0x4c, 0x46, 2, 1, 1, 0, 0, 0, 0, 0, 0, 0, 0, 0];
    push_le(&mut s, 2, 2); // type
    push_le(&mut s, 0x3e, 2); // machine
    push_le(&mut s, 1, 4); // version
    push_le(&mut s, 0, 8); // entry point
    push_le(&mut s, 0x40, 8); // program header table
    push_le(&mut s, 0, 8); // section header table
    push_le(&mut s, 0, 4); // flags
    push_le(&mut s, 0x40, 2); // header size
    push_le(&mut s, 0x38, 2); // program header size
    push_le(&mut s, 1, 2); // program header count
    push_le(&mut s, 0x40, 2); // section header size
    push_le(&mut s, 0, 2); // section header count
    push_le(&mut s, 0, 2); // string table index
    assert_eq!(s.len(), 0x40);
    push_le(&mut s, 1, 4); // loadable
    push_le(&mut s, 4, 4); // readable
    push_le(&mut s, 0x78, 8); // offset
    push_le(&mut s, 0x1000, 8); // virtual address
    push_le(&mut s, 0x1000, 8); // physical address
    push_le(&mut s, 4, 8); // size in file
    push_le(&mut s, 4, 8); // size in memory
    push_le(&mut s, 0x1000, 8); // alignment
    assert_eq!(s.len(), 0x78);
    s.extend_from_slice(&[0xde, 0xad, 0xbe, 0xef]);
    s
}

#[test]
fn minimal_stream_loads_fully_with_its_segment_bytes() {
    let mut r = ByteCursor::new(minimal_stream());
    let f = ELFFile::load_fully(&mut r).unwrap();
    assert_eq!(f.header.ident.class, Class::ELF64);
    assert_eq!(f.header.ph_offset, 0x40);
    assert_eq!(f.program_headers.len(), 1);
    assert!(f.section_headers.is_empty());
    let seg = &f.program_headers[0];
    assert_eq!(seg.ty, ProgramHeaderType::Loadable);
    assert_eq!(seg.offset, 0x78);
    assert_eq!(seg.file_size, 4);
    assert_eq!(seg.data.as_ref().unwrap().blob, vec![0xde, 0xad, 0xbe, 0xef]);
}

#[test]
fn minimal_stream_loads_headers_without_data() {
    let mut r = ByteCursor::new(minimal_stream());
    let f = ELFFile::load(&mut r).unwrap();
    assert_eq!(f.program_headers.len(), 1);
    assert_eq!(f.program_headers[0].data, None);
    assert_eq!(f.program_headers[0].flags, 4);
}

#[test]
fn segment_data_beyond_the_end_fails_only_a_full_load() {
    let mut s = minimal_stream();
    s.truncate(0x7a);
    let mut r = ByteCursor::new(s.clone());
    assert!(ELFFile::load(&mut r).is_ok());
    let mut r = ByteCursor::new(s);
    assert!(matches!(
        ELFFile::load_fully(&mut r),
        Err(UnpackError::IO(IoError::UnexpectedEof))
    ));
}

#[test]
fn truncated_program_table_fails_the_load() {
    let mut s = minimal_stream();
    s.truncate(0x70);
    let mut r = ByteCursor::new(s);
    assert!(matches!(
        ELFFile::load(&mut r),
        Err(UnpackError::IO(IoError::UnexpectedEof))
    ));
}

#[test]
fn empty_tables_may_point_past_the_end() {
    let mut s = minimal_stream();
    s[0x20..0x28].copy_from_slice(&[0xff; 8]); // program header table offset
    s[0x38] = 0; // no program headers
    let mut r = ByteCursor::new(s);
    let f = ELFFile::load_fully(&mut r).unwrap();
    assert!(f.program_headers.is_empty());
    assert_eq!(f.header.ph_offset, u64::MAX);
}

#[test]
fn big_endian_32_bit_file_with_sections_round_trips() {
    let ident = Ident {
        magic: ELF_FILE_MAGIC,
        class: Class::ELF32,
        endianness: Endianness::Big,
        version: 1,
        os_abi: 0,
        abi_version: 0,
    };
    let header = Header {
        ident,
        ty: 2,
        machine: 8,
        version: 1,
        entry_point: 0x400,
        ph_offset: 0x34,
        sh_offset: 0x54,
        flags: 0,
        header_size: 0x34,
        ph_entry_size: 0x20,
        ph_entry_count: 1,
        sh_entry_size: 0x28,
        sh_entry_count: 2,
        sh_str_index: 1,
    };
    let seg = ProgramHeader {
        ty: ProgramHeaderType::Other(0x6474_e551),
        flags: 6,
        offset: 0,
        virtual_addr: 0,
        physical_addr: 0,
        file_size: 0,
        mem_size: 0,
        alignment: 16,
        data: None,
    };
    let names = SectionHeader {
        name: 1,
        ty: 3,
        flags: 0,
        address: 0,
        offset: 0xa4,
        size: 4,
        link: 0,
        info: 0,
        addr_align: 1,
        entry_size: 0,
        data: None,
    };
    let null = SectionHeader {
        name: 0,
        ty: 0,
        flags: 0,
        address: 0,
        offset: 0,
        size: 0,
        link: 0,
        info: 0,
        addr_align: 0,
        entry_size: 0,
        data: None,
    };
    let mut w = Vec::new();
    header.pack(&mut w, true);
    seg.pack_class(&mut w, true, Class::ELF32);
    null.pack_class(&mut w, true, Class::ELF32);
    names.pack_class(&mut w, true, Class::ELF32);
    assert_eq!(w.len(), 0xa4);
    w.extend_from_slice(b"\0ab\0");

    let mut r = ByteCursor::new(w);
    let f = ELFFile::load_fully(&mut r).unwrap();
    assert_eq!(f.header, header);
    assert_eq!(f.program_headers[0].ty, seg.ty);
    assert_eq!(f.section_headers.len(), 2);
    assert_eq!(f.section_headers[1].offset, 0xa4);
    let table = f.section_headers[1].data.as_ref().unwrap();
    assert_eq!(table.blob, b"\0ab\0".to_vec());
    assert_eq!(elfsmith::str_from_null_terminated(&table.blob, 1), Some("ab"));
}
