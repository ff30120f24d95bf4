use elfsmith::{size_for, ByteCursor, Class, IoError, Packable, PackableClass, UnpackError};

#[test]
fn u16_packs_in_both_byte_orders() {
    let mut le = Vec::new();
    0x1234u16.pack(&mut le, false);
    assert_eq!(le, vec![0x34, 0x12]);
    let mut be = Vec::new();
    0x1234u16.pack(&mut be, true);
    assert_eq!(be, vec![0x12, 0x34]);
}

#[test]
fn u32_and_u64_pack_exact_bytes() {
    let mut w = Vec::new();
    0xdead_beefu32.pack(&mut w, false);
    0x0102_0304_0506_0708u64.pack(&mut w, true);
    assert_eq!(
        w,
        vec![0xef, 0xbe, 0xad, 0xde, 0x01, 0x02, 0x03, 0x04, 0x05, 0x06, 0x07, 0x08]
    );
}

#[test]
fn packing_appends_to_what_is_there() {
    let mut w = vec![0xaa];
    7u8.pack(&mut w, true);
    assert_eq!(w, vec![0xaa, 0x07]);
}

#[test]
fn unpack_reads_in_both_byte_orders() {
    let mut r = ByteCursor::new(vec![0x01, 0x02, 0x03, 0x04, 0x05, 0x06]);
    assert_eq!(u32::unpack(&mut r, false).unwrap(), 0x0403_0201);
    assert_eq!(r.position(), 4);
    assert_eq!(u16::unpack(&mut r, true).unwrap(), 0x0506);
    assert_eq!(r.position(), 6);
}

#[test]
fn unpack_u64_round_trips_largest_value() {
    for big in [false, true] {
        let mut w = Vec::new();
        u64::MAX.pack(&mut w, big);
        let mut r = ByteCursor::new(w);
        assert_eq!(u64::unpack(&mut r, big).unwrap(), u64::MAX);
    }
}

#[test]
fn short_read_is_an_io_error_and_moves_nothing() {
    let mut r = ByteCursor::new(vec![0x01, 0x02, 0x03]);
    let e = u32::unpack(&mut r, false).unwrap_err();
    assert!(matches!(e, UnpackError::IO(IoError::UnexpectedEof)));
    assert_eq!(r.position(), 0);
}

#[test]
fn class_width_field_truncates_in_32_bit_class() {
    let mut w = Vec::new();
    0x1_0000_0001u64.pack_class(&mut w, false, Class::ELF32);
    assert_eq!(w, vec![0x01, 0x00, 0x00, 0x00]);
    let mut r = ByteCursor::new(w);
    assert_eq!(u64::unpack_class(&mut r, false, Class::ELF32).unwrap(), 0x0000_0001);
}

#[test]
fn class_width_field_keeps_all_bits_in_64_bit_class() {
    let mut w = Vec::new();
    0x1_0000_0001u64.pack_class(&mut w, true, Class::ELF64);
    assert_eq!(w, vec![0, 0, 0, 1, 0, 0, 0, 1]);
    let mut r = ByteCursor::new(w);
    assert_eq!(u64::unpack_class(&mut r, true, Class::ELF64).unwrap(), 0x1_0000_0001);
}

#[test]
fn class_width_field_zero_extends_on_read() {
    let mut r = ByteCursor::new(vec![0xff, 0xff, 0xff, 0xff]);
    assert_eq!(u64::unpack_class(&mut r, false, Class::ELF32).unwrap(), 0xffff_ffff);
}

#[test]
fn sizes_derive_from_class_alone() {
    let s32 = size_for(Class::ELF32);
    assert_eq!((s32.header, s32.program_header, s32.section_header), (0x34, 0x20, 0x28));
    let s64 = size_for(Class::ELF64);
    assert_eq!((s64.header, s64.program_header, s64.section_header), (0x40, 0x38, 0x40));
}

#[test]
fn cursor_write_overwrites_and_zero_fills() {
    let mut c = ByteCursor::new(vec![1, 2, 3]);
    c.seek(1);
    c.write_all(&[9, 9, 9]).unwrap();
    assert_eq!(c.get_ref(), &vec![1, 9, 9, 9]);
    assert_eq!(c.position(), 4);
    c.seek(6);
    c.write_all(&[7]).unwrap();
    assert_eq!(c.into_inner(), vec![1, 9, 9, 9, 0, 0, 7]);
}

#[test]
fn cursor_write_beyond_addressable_end_fails() {
    let mut c = ByteCursor::new(vec![1]);
    c.seek(u64::MAX);
    assert_eq!(c.write_all(&[1, 2]), Err(IoError::PositionOverflow));
    assert_eq!(c.get_ref(), &vec![1]);
    assert_eq!(c.position(), u64::MAX);
}

#[test]
fn cursor_read_past_end_after_seek_fails() {
    let mut c = ByteCursor::new(vec![1, 2]);
    c.seek(5);
    assert_eq!(c.read_exact(1), Err(IoError::UnexpectedEof));
    c.seek(0);
    assert_eq!(c.read_exact(0), Ok(vec![]));
    assert_eq!(c.read_exact(2), Ok(vec![1, 2]));
}

#[test]
fn signed_values_pack_as_twos_complement() {
    let mut w = Vec::new();
    (-2i16).pack(&mut w, false);
    (-1i32).pack(&mut w, true);
    (-128i8).pack(&mut w, false);
    assert_eq!(w, vec![0xfe, 0xff, 0xff, 0xff, 0xff, 0xff, 0x80]);
    let mut r = ByteCursor::new(w);
    assert_eq!(i16::unpack(&mut r, false).unwrap(), -2);
    assert_eq!(i32::unpack(&mut r, true).unwrap(), -1);
    assert_eq!(i8::unpack(&mut r, false).unwrap(), -128);
}

#[test]
fn widest_integers_round_trip() {
    for big in [false, true] {
        let mut w = Vec::new();
        0x0102_0304_0506_0708_090a_0b0c_0d0e_0f10u128.pack(&mut w, big);
        i128::MIN.pack(&mut w, big);
        i64::MIN.pack(&mut w, big);
        assert_eq!(w.len(), 40);
        assert_eq!(w[0], if big { 0x01 } else { 0x10 });
        let mut r = ByteCursor::new(w);
        assert_eq!(
            u128::unpack(&mut r, big).unwrap(),
            0x0102_0304_0506_0708_090a_0b0c_0d0e_0f10
        );
        assert_eq!(i128::unpack(&mut r, big).unwrap(), i128::MIN);
        assert_eq!(i64::unpack(&mut r, big).unwrap(), i64::MIN);
    }
}
