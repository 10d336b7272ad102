use xvt::registers::BITS_16_REG_MAX;
use xvt::registers::BITS_16_REG_MIN;
use xvt::registers::BITS_8_REG_MAX;
use xvt::registers::BITS_8_REG_MIN;
use xvt::registers::BIT_REG_MAX;
use xvt::registers::BIT_REG_MIN;
use xvt::Registers;

#[test]
fn registers_bits() {
    let mut regs = Registers::new();
    for a in BIT_REG_MIN..=BIT_REG_MAX {
        regs.set_bit(a);
        assert_eq!(regs.get_bit(a), true);
        regs.clear_bit(a);
        assert_eq!(regs.get_bit(a), false);
    }
    for a in BITS_8_REG_MIN..=0xFFFF {
        regs.set_bit(a);
        assert_eq!(regs.get_bit(a), false);
    }
}

#[test]
fn registers_bits_8() {
    let mut regs = Registers::new();
    for a in BITS_8_REG_MIN..=BITS_8_REG_MAX {
        regs.set_u8(a, 0xAA);
        assert_eq!(regs.get_u8(a), 0xAA);
    }
    for a in 0x0000..BITS_8_REG_MIN {
        regs.set_u8(a, 0xAA);
        assert_eq!(regs.get_u8(a), 0x00);
    }
    for a in BITS_16_REG_MIN..0xFFFF {
        regs.set_u8(a, 0xAA);
        assert_eq!(regs.get_u8(a), 0x00);
    }
}

#[test]
fn regs_zero_initialized() {
    let regs = Registers::new();
    for a in (u16::MIN..=u16::MAX).step_by(129) {
        assert_eq!(regs.get_bit(a), false);
        assert_eq!(regs.get_u8(a), 0);
        assert_eq!(regs.get_i8(a), 0);
        assert_eq!(regs.get_u16(a), 0);
        assert_eq!(regs.get_i16(a), 0);
        assert_eq!(regs.get_u32(a), 0);
        assert_eq!(regs.get_i32(a), 0);
        assert_eq!(regs.get_u64(a), 0);
        assert_eq!(regs.get_i64(a), 0);
    }
}

#[test]
fn regs_scalar_roundtrips() {
    let mut regs = Registers::new();
    regs.set_u8(0x2000, 0xFE);
    assert_eq!(regs.get_u8(0x2000), 0xFE);
    regs.set_i8(0x7FFF, -100);
    assert_eq!(regs.get_i8(0x7FFF), -100);
    regs.set_u16(0x8000, 0xBEEF);
    assert_eq!(regs.get_u16(0x8000), 0xBEEF);
    regs.set_i16(0xBFFF, -30000);
    assert_eq!(regs.get_i16(0xBFFF), -30000);
    regs.set_u32(0xC000, 0xDEAD_BEEF);
    assert_eq!(regs.get_u32(0xC000), 0xDEAD_BEEF);
    regs.set_i32(0xDFFF, -2_000_000_000);
    assert_eq!(regs.get_i32(0xDFFF), -2_000_000_000);
    regs.set_u64(0xE000, 0x0123_4567_89AB_CDEF);
    assert_eq!(regs.get_u64(0xE000), 0x0123_4567_89AB_CDEF);
    regs.set_i64(0xFFFF, -9_000_000_000_000_000_000);
    assert_eq!(regs.get_i64(0xFFFF), -9_000_000_000_000_000_000);
    // Signed and unsigned accessors of one width share the same storage.
    regs.set_i16(0x8123, -2);
    assert_eq!(regs.get_u16(0x8123), 0xFFFE);
}

#[test]
fn regs_boundary_rejection() {
    let mut regs = Registers::new();
    // 0x1000 is a bit-zone address, so the byte accessor rejects it.
    assert_eq!(regs.get_u8(0x1000), 0);
    regs.set_bit(0x1000);
    regs.set_u8(0x1000, 0xAA);
    assert_eq!(regs.get_u8(0x1000), 0);
    // The bit register at the same address is unaffected by that write.
    assert_eq!(regs.get_bit(0x1000), true);
    // Out-of-range scalar writes of every width are dropped.
    regs.set_u16(0x0001, 7);
    assert_eq!(regs.get_u16(0x0001), 0);
    regs.set_u32(0xE000, 7);
    assert_eq!(regs.get_u32(0xE000), 0);
    regs.set_u64(0x8000, 7);
    assert_eq!(regs.get_u64(0x8000), 0);
}

#[test]
fn regs_end_to_end_i16_run() {
    let mut regs = Registers::new();
    regs.set_i16_values(0x8010, &[1, 2, 3, 4, 5, 6, 7, 8, 9]);
    let s = regs.get_i16_values(0x8010, 16);
    assert_eq!(s, vec![1, 2, 3, 4, 5, 6, 7, 8, 9, 0, 0, 0, 0, 0, 0, 0]);
}

#[test]
fn regs_bulk_roundtrips() {
    let mut regs = Registers::new();
    regs.set_u8_values(0x2100, &[1, 2, 3]);
    assert_eq!(regs.get_u8_values(0x2100, 3), vec![1, 2, 3]);
    regs.set_i8_values(0x2200, &[-1, 2, -3]);
    assert_eq!(regs.get_i8_values(0x2200, 3), vec![-1, 2, -3]);
    regs.set_u16_values(0x8100, &[10, 20]);
    assert_eq!(regs.get_u16_values(0x8100, 2), vec![10, 20]);
    regs.set_u32_values(0xC100, &[0xDEAD_BEEF, 7]);
    assert_eq!(regs.get_u32_values(0xC100, 2), vec![0xDEAD_BEEF, 7]);
    regs.set_i32_values(0xC200, &[-7, 7]);
    assert_eq!(regs.get_i32_values(0xC200, 2), vec![-7, 7]);
    regs.set_u64_values(0xE100, &[u64::MAX, 1]);
    assert_eq!(regs.get_u64_values(0xE100, 2), vec![u64::MAX, 1]);
    regs.set_i64_values(0xE200, &[i64::MIN, i64::MAX]);
    assert_eq!(regs.get_i64_values(0xE200, 2), vec![i64::MIN, i64::MAX]);
}

#[test]
fn regs_bulk_all_or_nothing() {
    let mut regs = Registers::new();
    // The run would cross the end of the 16-bit range: nothing is written.
    regs.set_u16_values(BITS_16_REG_MAX - 1, &[5, 6, 7]);
    assert_eq!(regs.get_u16(BITS_16_REG_MAX - 1), 0);
    assert_eq!(regs.get_u16(BITS_16_REG_MAX), 0);
    // A run that starts outside the range is rejected as a whole.
    regs.set_u16_values(BIT_REG_MAX, &[5, 6, 7]);
    assert_eq!(regs.get_u16_values(BITS_16_REG_MIN, 4), vec![0, 0, 0, 0]);
    // Out-of-range bulk reads are empty, not padded.
    assert_eq!(regs.get_u16_values(BITS_16_REG_MAX - 1, 3), Vec::<u16>::new());
    assert_eq!(regs.get_u32_values(0x0000, 1), Vec::<u32>::new());
    assert_eq!(regs.get_u8_values(BITS_8_REG_MAX, 2), Vec::<u8>::new());
    // A run that exactly reaches the last register of the range is fine.
    regs.set_u16_values(BITS_16_REG_MAX - 2, &[5, 6, 7]);
    assert_eq!(regs.get_u16_values(BITS_16_REG_MAX - 2, 3), vec![5, 6, 7]);
    regs.set_u64_values(0xFFFE, &[41, 42]);
    assert_eq!(regs.get_u64_values(0xFFFE, 2), vec![41, 42]);
}

#[test]
fn regs_widths_are_disjoint() {
    let mut regs = Registers::new();
    regs.set_bit(0x1FFF);
    regs.set_u8(0x2000, 0x77);
    regs.set_u16(0x8000, 0x8888);
    regs.set_u32(0xC000, 0x9999_9999);
    regs.set_u64(0xE000, 0xAAAA_AAAA_AAAA_AAAA);
    assert_eq!(regs.get_bit(0x1FFF), true);
    assert_eq!(regs.get_u8(0x2000), 0x77);
    assert_eq!(regs.get_u16(0x8000), 0x8888);
    assert_eq!(regs.get_u32(0xC000), 0x9999_9999);
    assert_eq!(regs.get_u64(0xE000), 0xAAAA_AAAA_AAAA_AAAA);
    // Writes at each range boundary did not leak into the neighbours.
    assert_eq!(regs.get_u8(0x2001), 0);
    assert_eq!(regs.get_u16(0x8001), 0);
    assert_eq!(regs.get_u32(0xC001), 0);
    assert_eq!(regs.get_u64(0xE001), 0);
}
