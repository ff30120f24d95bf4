use elfsmith::{
    str_from_null_terminated, Blob, ByteCursor, Class, Endianness, Header, Ident, IoError,
    Packable, PackableClass, ProgramHeader, ProgramHeaderType, SectionHeader, UnpackError,
    ELF_FILE_MAGIC,
};

fn ident(class: Class, endianness: Endianness) -> Ident {
    Ident {
        magic: ELF_FILE_MAGIC,
        class,
        endianness,
        version: 1,
        os_abi: 3,
        abi_version: 7,
    }
}

fn header(class: Class, endianness: Endianness) -> Header {
    Header {
        ident: ident(class, endianness),
        ty: 2,
        machine: 0x3e,
        version: 1,
        entry_point: 0x40_1000,
        ph_offset: 0x40,
        sh_offset: 0x1234,
        flags: 0x8000_0001,
        header_size: 0x40,
        ph_entry_size: 0x38,
        ph_entry_count: 3,
        sh_entry_size: 0x40,
        sh_entry_count: 9,
        sh_str_index: 8,
    }
}

fn segment() -> ProgramHeader {
    ProgramHeader {
        ty: ProgramHeaderType::Loadable,
        flags: 0x5,
        offset: 0x1000,
        virtual_addr: 0x40_1000,
        physical_addr: 0x40_2000,
        file_size: 0x123,
        mem_size: 0x456,
        alignment: 0x1000,
        data: None,
    }
}

fn section() -> SectionHeader {
    SectionHeader {
        name: 0x1b,
        ty: 1,
        flags: 6,
        address: 0x40_1000,
        offset: 0x1000,
        size: 0x200,
        link: 2,
        info: 3,
        addr_align: 16,
        entry_size: 0,
        data: None,
    }
}

#[test]
fn ident_packs_to_sixteen_bytes_with_zero_padding() {
    let mut w = Vec::new();
    ident(Class::ELF64, Endianness::Big).pack(&mut w, false);
    assert_eq!(
        w,
        vec![0x7f, 0x45, 0x4c, 0x46, 2, 2, 1, 3, 7, 0, 0, 0, 0, 0, 0, 0]
    );
}

#[test]
fn ident_round_trips_in_both_classes_and_orders() {
    for class in [Class::ELF32, Class::ELF64] {
        for e in [Endianness::Little, Endianness::Big] {
            let id = ident(class, e);
            let mut w = Vec::new();
            id.pack(&mut w, false);
            let mut r = ByteCursor::new(w);
            assert_eq!(Ident::unpack(&mut r, false).unwrap(), id);
            assert_eq!(r.position(), 16);
        }
    }
}

#[test]
fn ident_reserved_bytes_read_back_as_zero() {
    let mut bytes = vec![0x7f, 0x45, 0x4c, 0x46, 1, 1, 1, 0, 0];
    bytes.extend_from_slice(&[0xaa; 7]);
    let mut r = ByteCursor::new(bytes);
    let id = Ident::unpack(&mut r, false).unwrap();
    let mut w = Vec::new();
    id.pack(&mut w, false);
    assert_eq!(&w[9..], &[0u8; 7]);
}

#[test]
fn bad_magic_is_rejected_whatever_follows() {
    for tail in [vec![], vec![2u8, 1, 1, 0, 0, 0, 0, 0, 0, 0, 0, 0], vec![0xff; 100]] {
        let mut bytes = vec![0x7f, 0x45, 0x4c, 0x47];
        bytes.extend_from_slice(&tail);
        let mut r = ByteCursor::new(bytes.clone());
        match Header::unpack(&mut r, false) {
            Err(UnpackError::InvalidMagic { expected, got }) => {
                assert_eq!(expected, vec![0x7f, 0x45, 0x4c, 0x46]);
                assert_eq!(got, vec![0x7f, 0x45, 0x4c, 0x47]);
            }
            other => panic!("expected InvalidMagic, got {:?}", other),
        }
        let mut r = ByteCursor::new(bytes);
        assert!(matches!(
            elfsmith::ELFFile::load(&mut r),
            Err(UnpackError::InvalidMagic { .. })
        ));
    }
}

#[test]
fn bad_class_byte_is_an_invalid_variant() {
    let mut r = ByteCursor::new(vec![0x7f, 0x45, 0x4c, 0x46, 3, 1]);
    match Ident::unpack(&mut r, false) {
        Err(UnpackError::InvalidEnumVariant { name, variant }) => {
            assert_eq!(name, "Class");
            assert_eq!(variant, 3);
        }
        other => panic!("expected InvalidEnumVariant, got {:?}", other),
    }
}

#[test]
fn bad_endianness_byte_is_an_invalid_variant() {
    let mut r = ByteCursor::new(vec![0x7f, 0x45, 0x4c, 0x46, 1, 0]);
    match Ident::unpack(&mut r, false) {
        Err(UnpackError::InvalidEnumVariant { name, variant }) => {
            assert_eq!(name, "Endianness");
            assert_eq!(variant, 0);
        }
        other => panic!("expected InvalidEnumVariant, got {:?}", other),
    }
}

#[test]
fn truncated_ident_is_an_io_error() {
    let mut r = ByteCursor::new(vec![0x7f, 0x45, 0x4c, 0x46, 1, 1, 1]);
    assert!(matches!(
        Ident::unpack(&mut r, false),
        Err(UnpackError::IO(IoError::UnexpectedEof))
    ));
}

#[test]
fn header_round_trips_in_both_classes_and_orders() {
    for class in [Class::ELF32, Class::ELF64] {
        for e in [Endianness::Little, Endianness::Big] {
            let h = header(class, e);
            let mut w = Vec::new();
            h.pack(&mut w, false);
            assert_eq!(w.len() as u64, h.get_header_size());
            let mut r = ByteCursor::new(w);
            assert_eq!(Header::unpack(&mut r, false).unwrap(), h);
            assert_eq!(r.position(), h.get_header_size());
        }
    }
}

#[test]
fn header_32_bit_little_endian_layout() {
    let mut w = Vec::new();
    header(Class::ELF32, Endianness::Little).pack(&mut w, true);
    assert_eq!(w.len(), 0x34);
    assert_eq!(&w[16..24], &[2, 0, 0x3e, 0, 1, 0, 0, 0]);
    assert_eq!(&w[24..28], &[0x00, 0x10, 0x40, 0x00]);
    assert_eq!(&w[28..32], &[0x40, 0, 0, 0]);
    assert_eq!(&w[32..36], &[0x34, 0x12, 0, 0]);
    assert_eq!(&w[36..40], &[0x01, 0, 0, 0x80]);
    assert_eq!(&w[0x32..0x34], &[8, 0]);
}

#[test]
fn truncated_header_is_an_io_error() {
    let mut w = Vec::new();
    header(Class::ELF64, Endianness::Little).pack(&mut w, false);
    w.truncate(0x3f);
    let mut r = ByteCursor::new(w);
    assert!(matches!(
        Header::unpack(&mut r, false),
        Err(UnpackError::IO(IoError::UnexpectedEof))
    ));
}

#[test]
fn header_sizes_follow_class_not_stored_fields() {
    let mut h = header(Class::ELF32, Endianness::Little);
    h.header_size = 0x99;
    h.ph_entry_size = 0x99;
    h.sh_entry_size = 0x99;
    assert_eq!(h.get_header_size(), 0x34);
    assert_eq!(h.get_program_header_size(), 0x20);
    assert_eq!(h.get_section_header_size(), 0x28);
    let h = header(Class::ELF64, Endianness::Big);
    assert_eq!(h.get_header_size(), 0x40);
    assert_eq!(h.get_program_header_size(), 0x38);
    assert_eq!(h.get_section_header_size(), 0x40);
}

#[test]
fn is_big_endian_follows_ident() {
    assert!(ident(Class::ELF32, Endianness::Big).is_big_endian());
    assert!(!ident(Class::ELF32, Endianness::Little).is_big_endian());
}

#[test]
fn program_header_round_trips_in_both_classes_and_orders() {
    for (class, size) in [(Class::ELF32, 0x20), (Class::ELF64, 0x38)] {
        for big in [false, true] {
            let h = segment();
            let mut w = Vec::new();
            h.pack_class(&mut w, big, class);
            assert_eq!(w.len(), size);
            let mut r = ByteCursor::new(w);
            assert_eq!(ProgramHeader::unpack_class(&mut r, big, class).unwrap(), h);
            assert_eq!(r.position(), size as u64);
        }
    }
}

#[test]
fn segment_flags_move_with_the_class() {
    let h = segment();
    let mut w64 = Vec::new();
    h.pack_class(&mut w64, false, Class::ELF64);
    let mut w32 = Vec::new();
    h.pack_class(&mut w32, false, Class::ELF32);
    assert_ne!(w64, w32);
    assert_eq!(&w64[4..8], &[5, 0, 0, 0]);
    assert_eq!(&w64[8..16], &[0, 0x10, 0, 0, 0, 0, 0, 0]);
    assert_eq!(&w32[4..8], &[0, 0x10, 0, 0]);
    assert_eq!(&w32[24..28], &[5, 0, 0, 0]);
    assert_eq!(&w32[28..32], &[0, 0x10, 0, 0]);
}

#[test]
fn unknown_segment_type_is_kept_and_written_back() {
    let mut r = ByteCursor::new(vec![0x34, 0x12, 0, 0]);
    let t = ProgramHeaderType::unpack(&mut r, false).unwrap();
    assert_eq!(t, ProgramHeaderType::Other(0x1234));
    let mut w = Vec::new();
    t.pack(&mut w, false);
    assert_eq!(w, vec![0x34, 0x12, 0, 0]);
}

#[test]
fn named_segment_types_read_from_their_numbers() {
    let cases = [
        (0u32, ProgramHeaderType::Unused),
        (1, ProgramHeaderType::Loadable),
        (2, ProgramHeaderType::Dynamic),
        (3, ProgramHeaderType::Interpreter),
        (6, ProgramHeaderType::ProgramHeaderTable),
        (4, ProgramHeaderType::Other(4)),
    ];
    for (v, t) in cases {
        let mut w = Vec::new();
        v.pack(&mut w, true);
        let mut r = ByteCursor::new(w.clone());
        assert_eq!(ProgramHeaderType::unpack(&mut r, true).unwrap(), t);
        let mut back = Vec::new();
        t.pack(&mut back, true);
        assert_eq!(back, w);
    }
}

#[test]
fn truncated_program_header_is_an_io_error() {
    let mut r = ByteCursor::new(vec![0; 0x37]);
    assert!(matches!(
        ProgramHeader::unpack_class(&mut r, false, Class::ELF64),
        Err(UnpackError::IO(IoError::UnexpectedEof))
    ));
}

#[test]
fn section_header_round_trips_in_both_classes_and_orders() {
    for (class, size) in [(Class::ELF32, 0x28), (Class::ELF64, 0x40)] {
        for big in [false, true] {
            let h = section();
            let mut w = Vec::new();
            h.pack_class(&mut w, big, class);
            assert_eq!(w.len(), size);
            let mut r = ByteCursor::new(w);
            assert_eq!(SectionHeader::unpack_class(&mut r, big, class).unwrap(), h);
        }
    }
}

#[test]
fn section_header_32_bit_big_endian_layout() {
    let mut w = Vec::new();
    section().pack_class(&mut w, true, Class::ELF32);
    assert_eq!(&w[0..8], &[0, 0, 0, 0x1b, 0, 0, 0, 1]);
    assert_eq!(&w[8..12], &[0, 0, 0, 6]);
    assert_eq!(&w[24..32], &[0, 0, 0, 2, 0, 0, 0, 3]);
    assert_eq!(&w[32..36], &[0, 0, 0, 16]);
}

#[test]
fn truncated_section_header_is_an_io_error() {
    let mut r = ByteCursor::new(vec![0; 0x27]);
    assert!(matches!(
        SectionHeader::unpack_class(&mut r, false, Class::ELF32),
        Err(UnpackError::IO(IoError::UnexpectedEof))
    ));
}

#[test]
fn loading_a_segment_twice_gives_the_same_bytes_and_keeps_position() {
    let mut h = segment();
    h.offset = 2;
    h.file_size = 3;
    let mut r = ByteCursor::new(vec![10, 11, 12, 13, 14, 15]);
    r.seek(5);
    h.load(&mut r).unwrap();
    let first = h.data.clone().unwrap();
    assert_eq!(first.blob, vec![12, 13, 14]);
    assert_eq!(r.position(), 5);
    h.load(&mut r).unwrap();
    assert_eq!(h.data.clone().unwrap(), first);
    assert_eq!(r.position(), 5);
}

#[test]
fn loading_a_section_beyond_the_end_fails() {
    let mut h = section();
    h.offset = 4;
    h.size = 3;
    let mut r = ByteCursor::new(vec![0; 6]);
    assert_eq!(h.load(&mut r), Err(IoError::UnexpectedEof));
    assert_eq!(h.data, None);
    h.size = 2;
    h.load(&mut r).unwrap();
    assert_eq!(h.data.unwrap().blob, vec![0, 0]);
}

#[test]
fn blob_load_restores_position() {
    let mut r = ByteCursor::new(vec![1, 2, 3, 4]);
    r.seek(3);
    let b = Blob::load(&mut r, 1, 2).unwrap();
    assert_eq!(b.blob, vec![2, 3]);
    assert_eq!(r.position(), 3);
    assert!(Blob::load(&mut r, 3, 2).is_err());
    assert_eq!(r.position(), 3);
}

#[test]
fn blob_write_places_bytes_and_restores_position() {
    let mut w = ByteCursor::new(vec![1, 2, 3]);
    w.seek(1);
    let b = Blob { blob: vec![0xde, 0xad] };
    b.write(&mut w, 4).unwrap();
    assert_eq!(w.position(), 1);
    assert_eq!(w.get_ref(), &vec![1, 2, 3, 0, 0xde, 0xad]);
    b.write(&mut w, 0).unwrap();
    assert_eq!(w.into_inner(), vec![0xde, 0xad, 3, 0, 0xde, 0xad]);
}

#[test]
fn null_terminated_names_are_read_up_to_the_zero() {
    let table = b"\0.text\0.data\0";
    assert_eq!(str_from_null_terminated(table, 0), Some(""));
    assert_eq!(str_from_null_terminated(table, 1), Some(".text"));
    assert_eq!(str_from_null_terminated(table, 7), Some(".data"));
    assert_eq!(str_from_null_terminated(table, 10), Some("ta"));
}

#[test]
fn null_terminated_names_fail_without_zero_or_valid_text() {
    assert_eq!(str_from_null_terminated(b"abc", 0), None);
    assert_eq!(str_from_null_terminated(b"abc\0", 4), None);
    assert_eq!(str_from_null_terminated(&[0x61, 0xff, 0x62, 0x00], 0), None);
    assert_eq!(str_from_null_terminated(&[0xc3, 0xa9, 0x00], 0), Some("\u{e9}"));
}
