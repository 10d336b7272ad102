use xvt::ValueTable;

#[test]
fn lib_bits() {
    let mut regs = ValueTable::new();
    for a in u16::MIN..=u16::MAX {
        regs.set_bit(a);
        assert_eq!(regs.get_bit(a), true);
        regs.clear_bit(a);
        assert_eq!(regs.get_bit(a), false);
    }
}

#[test]
fn lib_bits_8() {
    let mut regs = ValueTable::new();
    for a in u16::MIN..=u16::MAX {
        regs.set_u8(a, 0xAA);
        assert_eq!(regs.get_u8(a), 0xAA);
    }
}

#[test]
fn vt_zero_initialized() {
    let vt = ValueTable::new();
    for a in (u16::MIN..=u16::MAX).step_by(257) {
        assert_eq!(vt.get_bit(a), false);
        assert_eq!(vt.get_u8(a), 0);
        assert_eq!(vt.get_i8(a), 0);
        assert_eq!(vt.get_u16(a), 0);
        assert_eq!(vt.get_i16(a), 0);
        assert_eq!(vt.get_u32(a), 0);
        assert_eq!(vt.get_i32(a), 0);
        assert_eq!(vt.get_u64(a), 0);
        assert_eq!(vt.get_i64(a), 0);
    }
    assert_eq!(vt.get_u64(u16::MAX), 0);
}

#[test]
fn vt_scalar_roundtrips() {
    let mut vt = ValueTable::new();
    vt.set_u8(7, 0xFE);
    assert_eq!(vt.get_u8(7), 0xFE);
    vt.set_i8(8, -100);
    assert_eq!(vt.get_i8(8), -100);
    vt.set_u16(9, 0xBEEF);
    assert_eq!(vt.get_u16(9), 0xBEEF);
    vt.set_i16(10, -30000);
    assert_eq!(vt.get_i16(10), -30000);
    vt.set_u32(11, 0xDEAD_BEEF);
    assert_eq!(vt.get_u32(11), 0xDEAD_BEEF);
    vt.set_i32(12, -2_000_000_000);
    assert_eq!(vt.get_i32(12), -2_000_000_000);
    vt.set_u64(13, 0x0123_4567_89AB_CDEF);
    assert_eq!(vt.get_u64(13), 0x0123_4567_89AB_CDEF);
    vt.set_i64(14, -9_000_000_000_000_000_000);
    assert_eq!(vt.get_i64(14), -9_000_000_000_000_000_000);
    // Signed and unsigned accessors of one width share the same storage.
    vt.set_i8(20, -1);
    assert_eq!(vt.get_u8(20), 0xFF);
    vt.set_i16(21, -2);
    assert_eq!(vt.get_u16(21), 0xFFFE);
    vt.set_u32(22, 0xFFFF_FFFF);
    assert_eq!(vt.get_i32(22), -1);
    vt.set_u64(23, 0xFFFF_FFFF_FFFF_FFFF);
    assert_eq!(vt.get_i64(23), -1);
}

#[test]
fn vt_bulk_roundtrips() {
    let mut vt = ValueTable::new();
    vt.set_u8s(100, &[1, 2, 3, 4, 5]);
    assert_eq!(vt.get_u8s(100, 5), vec![1, 2, 3, 4, 5]);
    vt.set_i8s(200, &[-1, -2, 3]);
    assert_eq!(vt.get_i8s(200, 3), vec![-1, -2, 3]);
    vt.set_u16s(300, &[10, 20, 30]);
    assert_eq!(vt.get_u16s(300, 3), vec![10, 20, 30]);
    vt.set_i16s(400, &[-10, 20, -30]);
    assert_eq!(vt.get_i16s(400, 3), vec![-10, 20, -30]);
    vt.set_u32s(500, &[0xDEAD_BEEF, 7]);
    assert_eq!(vt.get_u32s(500, 2), vec![0xDEAD_BEEF, 7]);
    vt.set_i32s(600, &[-7, 7]);
    assert_eq!(vt.get_i32s(600, 2), vec![-7, 7]);
    vt.set_u64s(700, &[u64::MAX, 1]);
    assert_eq!(vt.get_u64s(700, 2), vec![u64::MAX, 1]);
    vt.set_i64s(800, &[i64::MIN, i64::MAX]);
    assert_eq!(vt.get_i64s(800, 2), vec![i64::MIN, i64::MAX]);
}

#[test]
fn vt_bulk_truncation_at_domain_end() {
    let mut vt = ValueTable::new();
    let vals: [u16; 10] = [40, 41, 42, 43, 44, 45, 46, 47, 48, 49];
    // Only min(10, 65536 - 65530) = 6 values are written.
    vt.set_u16s(65530, &vals);
    let got = vt.get_u16s(65530, 10);
    assert_eq!(got, vec![40, 41, 42, 43, 44, 45]);
    // The same clamping applies to every width.
    vt.set_u64s(65534, &[9, 8, 7]);
    assert_eq!(vt.get_u64s(65534, 5), vec![9, 8]);
    vt.set_u8s(65535, &[11, 22]);
    assert_eq!(vt.get_u8s(65535, 4), vec![11]);
}

#[test]
fn vt_widths_are_disjoint() {
    let mut vt = ValueTable::new();
    vt.set_u8(50, 0x11);
    vt.set_u16(50, 0x2222);
    vt.set_u32(50, 0x3333_3333);
    vt.set_u64(50, 0x4444_4444_4444_4444);
    vt.set_bit(50);
    // Each width still reads exactly what was written through it.
    assert_eq!(vt.get_u8(50), 0x11);
    assert_eq!(vt.get_u16(50), 0x2222);
    assert_eq!(vt.get_u32(50), 0x3333_3333);
    assert_eq!(vt.get_u64(50), 0x4444_4444_4444_4444);
    assert_eq!(vt.get_bit(50), true);
    // Neighbouring registers of the written widths are untouched.
    assert_eq!(vt.get_u8(49), 0);
    assert_eq!(vt.get_u8(51), 0);
    assert_eq!(vt.get_u16(49), 0);
    assert_eq!(vt.get_u16(51), 0);
    assert_eq!(vt.get_bit(49), false);
    assert_eq!(vt.get_bit(51), false);
    vt.clear_bit(50);
    assert_eq!(vt.get_bit(50), false);
    assert_eq!(vt.get_u64(50), 0x4444_4444_4444_4444);
}

#[test]
fn vt_bulk_reads_clamp_but_never_fail() {
    let vt = ValueTable::new();
    assert_eq!(vt.get_u32s(65535, 1000).len(), 1);
    assert_eq!(vt.get_i64s(0, 0).len(), 0);
    assert_eq!(vt.get_u8s(65532, 4).len(), 4);
}
