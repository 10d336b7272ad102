//! The partitioned register table: the single 0..=65535 logical address
//! range is split into five disjoint sub-ranges, one per width. An address
//! outside a width's range reads as zero (or `false`) through that width's
//! accessors and its writes are silently dropped; a bulk operation either
//! fits entirely inside the width's range or does nothing at all.

use vstd::prelude::*;

use crate::arena::bit_region;
use crate::arena::byte_region;
use crate::arena::extract;
use crate::arena::lemma_bit_region_frame;
use crate::arena::lemma_bit_region_update;
use crate::arena::lemma_byte_region_frame;
use crate::arena::lemma_byte_region_update;
use crate::arena::lemma_word16_region_frame;
use crate::arena::lemma_word16_region_update;
use crate::arena::lemma_word32_region_frame;
use crate::arena::lemma_word32_region_update;
use crate::arena::lemma_word64_region_frame;
use crate::arena::lemma_word64_region_update;
use crate::arena::lemma_zero_bit;
use crate::arena::load_u16;
use crate::arena::load_u32;
use crate::arena::load_u64;
use crate::arena::read_bit;
use crate::arena::splice;
use crate::arena::store_u16;
use crate::arena::store_u32;
use crate::arena::store_u64;
use crate::arena::word16_region;
use crate::arena::word32_region;
use crate::arena::word64_region;
use crate::arena::write_bit;
use crate::convert::i16_of_u16;
use crate::convert::i16_to_u16;
use crate::convert::i32_of_u32;
use crate::convert::i32_to_u32;
use crate::convert::i64_of_u64;
use crate::convert::i64_to_u64;
use crate::convert::i8_of_u8;
use crate::convert::i8_to_u8;
use crate::convert::lemma_sign_roundtrip_16;
use crate::convert::lemma_sign_roundtrip_32;
use crate::convert::lemma_sign_roundtrip_64;
use crate::convert::lemma_sign_roundtrip_8;
use crate::convert::slice_i16_to_u16;
use crate::convert::slice_i32_to_u32;
use crate::convert::slice_i64_to_u64;
use crate::convert::slice_i8_to_u8;
use crate::convert::u16_of_i16;
use crate::convert::u16_to_i16;
use crate::convert::u32_of_i32;
use crate::convert::u32_to_i32;
use crate::convert::u64_of_i64;
use crate::convert::u64_to_i64;
use crate::convert::u8_of_i8;
use crate::convert::u8_to_i8;
use crate::convert::vec_u16_to_i16;
use crate::convert::vec_u32_to_i32;
use crate::convert::vec_u64_to_i64;
use crate::convert::vec_u8_to_i8;

verus! {

pub const BIT_REG_MIN: u16 = 0x0000;

pub const BIT_REG_MAX: u16 = 0x1FFF;

pub const BIT_REG_NUM: u16 = 0x2000;

pub const BITS_8_REG_MIN: u16 = 0x2000;

pub const BITS_8_REG_MAX: u16 = 0x7FFF;

pub const BITS_8_REG_NUM: u16 = 0x6000;

pub const BITS_16_REG_MIN: u16 = 0x8000;

pub const BITS_16_REG_MAX: u16 = 0xBFFF;

pub const BITS_16_REG_NUM: u16 = 0x4000;

pub const BITS_32_REG_MIN: u16 = 0xC000;

pub const BITS_32_REG_MAX: u16 = 0xDFFF;

pub const BITS_32_REG_NUM: u16 = 0x2000;

pub const BITS_64_REG_MIN: u16 = 0xE000;

pub const BITS_64_REG_MAX: u16 = 0xFFFF;

pub const BITS_64_REG_NUM: u16 = 0x2000;

const BIT_REG_OFS: usize = 0;

const BITS_8_REG_OFS: usize = BIT_REG_OFS + 0x2000 / 8;

const BITS_16_REG_OFS: usize = BITS_8_REG_OFS + 0x6000;

const BITS_32_REG_OFS: usize = BITS_16_REG_OFS + 2 * 0x4000;

const BITS_64_REG_OFS: usize = BITS_32_REG_OFS + 4 * 0x2000;

const TOTAL_BYTES: usize = BITS_64_REG_OFS + 8 * 0x2000;

/// Whether a run of `n` registers starting at `reg` lies entirely inside
/// the 8-bit width's address range.
pub open spec fn run_in_8(reg: u16, n: int) -> bool {
    BITS_8_REG_MIN <= reg && reg <= BITS_8_REG_MAX && reg + n <= BITS_8_REG_MAX + 1
}

/// Whether a run of `n` registers starting at `reg` lies entirely inside
/// the 16-bit width's address range.
pub open spec fn run_in_16(reg: u16, n: int) -> bool {
    BITS_16_REG_MIN <= reg && reg <= BITS_16_REG_MAX && reg + n <= BITS_16_REG_MAX + 1
}

/// Whether a run of `n` registers starting at `reg` lies entirely inside
/// the 32-bit width's address range.
pub open spec fn run_in_32(reg: u16, n: int) -> bool {
    BITS_32_REG_MIN <= reg && reg <= BITS_32_REG_MAX && reg + n <= BITS_32_REG_MAX + 1
}

/// Whether a run of `n` registers starting at `reg` lies entirely inside
/// the 64-bit width's address range.
pub open spec fn run_in_64(reg: u16, n: int) -> bool {
    BITS_64_REG_MIN <= reg && reg <= BITS_64_REG_MAX && reg + n <= BITS_64_REG_MAX + 1
}

/// The abstract state of a [`Registers`] table: one sequence of registers
/// per width, indexed by the address' offset from that width's range start.
/// Signed and unsigned accessors of the same width deliberately share one
/// sequence: they are two reinterpretations of the same storage.
#[verifier::ext_equal]
pub struct RegistersView {
    pub bits: Seq<bool>,
    pub r8: Seq<u8>,
    pub r16: Seq<u16>,
    pub r32: Seq<u32>,
    pub r64: Seq<u64>,
}

impl RegistersView {
    pub open spec fn wf(self) -> bool {
        &&& self.bits.len() == BIT_REG_NUM
        &&& self.r8.len() == BITS_8_REG_NUM
        &&& self.r16.len() == BITS_16_REG_NUM
        &&& self.r32.len() == BITS_32_REG_NUM
        &&& self.r64.len() == BITS_64_REG_NUM
    }

    /// The state of a freshly constructed table: every register zero.
    pub open spec fn zeroed() -> Self {
        RegistersView {
            bits: Seq::new(BIT_REG_NUM as nat, |a: int| false),
            r8: Seq::new(BITS_8_REG_NUM as nat, |a: int| 0u8),
            r16: Seq::new(BITS_16_REG_NUM as nat, |a: int| 0u16),
            r32: Seq::new(BITS_32_REG_NUM as nat, |a: int| 0u32),
            r64: Seq::new(BITS_64_REG_NUM as nat, |a: int| 0u64),
        }
    }

    pub open spec fn get_bit(self, reg: u16) -> bool {
        if reg <= BIT_REG_MAX {
            self.bits[reg as int]
        } else {
            false
        }
    }

    pub open spec fn set_bit(self, reg: u16) -> Self {
        if reg <= BIT_REG_MAX {
            RegistersView { bits: self.bits.update(reg as int, true), ..self }
        } else {
            self
        }
    }

    pub open spec fn clear_bit(self, reg: u16) -> Self {
        if reg <= BIT_REG_MAX {
            RegistersView { bits: self.bits.update(reg as int, false), ..self }
        } else {
            self
        }
    }

    pub open spec fn get_u8(self, reg: u16) -> u8 {
        if BITS_8_REG_MIN <= reg <= BITS_8_REG_MAX {
            self.r8[reg - BITS_8_REG_MIN]
        } else {
            0
        }
    }

    pub open spec fn set_u8(self, reg: u16, val: u8) -> Self {
        if BITS_8_REG_MIN <= reg <= BITS_8_REG_MAX {
            RegistersView { r8: self.r8.update(reg - BITS_8_REG_MIN, val), ..self }
        } else {
            self
        }
    }

    pub open spec fn get_u8_values(self, reg: u16, num: u16) -> Seq<u8> {
        if run_in_8(reg, num as int) {
            extract(self.r8, reg - BITS_8_REG_MIN, num as int)
        } else {
            Seq::empty()
        }
    }

    pub open spec fn set_u8_values(self, reg: u16, vals: Seq<u8>) -> Self {
        if run_in_8(reg, vals.len() as int) {
            RegistersView { r8: splice(self.r8, reg - BITS_8_REG_MIN, vals), ..self }
        } else {
            self
        }
    }

    pub open spec fn get_i8(self, reg: u16) -> i8 {
        i8_of_u8(self.get_u8(reg))
    }

    pub open spec fn set_i8(self, reg: u16, val: i8) -> Self {
        self.set_u8(reg, u8_of_i8(val))
    }

    pub open spec fn get_i8_values(self, reg: u16, num: u16) -> Seq<i8> {
        self.get_u8_values(reg, num).map_values(|v: u8| i8_of_u8(v))
    }

    pub open spec fn set_i8_values(self, reg: u16, vals: Seq<i8>) -> Self {
        self.set_u8_values(reg, vals.map_values(|v: i8| u8_of_i8(v)))
    }

    pub open spec fn get_u16(self, reg: u16) -> u16 {
        if BITS_16_REG_MIN <= reg <= BITS_16_REG_MAX {
            self.r16[reg - BITS_16_REG_MIN]
        } else {
            0
        }
    }

    pub open spec fn set_u16(self, reg: u16, val: u16) -> Self {
        if BITS_16_REG_MIN <= reg <= BITS_16_REG_MAX {
            RegistersView { r16: self.r16.update(reg - BITS_16_REG_MIN, val), ..self }
        } else {
            self
        }
    }

    pub open spec fn get_u16_values(self, reg: u16, num: u16) -> Seq<u16> {
        if run_in_16(reg, num as int) {
            extract(self.r16, reg - BITS_16_REG_MIN, num as int)
        } else {
            Seq::empty()
        }
    }

    pub open spec fn set_u16_values(self, reg: u16, vals: Seq<u16>) -> Self {
        if run_in_16(reg, vals.len() as int) {
            RegistersView { r16: splice(self.r16, reg - BITS_16_REG_MIN, vals), ..self }
        } else {
            self
        }
    }

    pub open spec fn get_i16(self, reg: u16) -> i16 {
        i16_of_u16(self.get_u16(reg))
    }

    pub open spec fn set_i16(self, reg: u16, val: i16) -> Self {
        self.set_u16(reg, u16_of_i16(val))
    }

    pub open spec fn get_i16_values(self, reg: u16, num: u16) -> Seq<i16> {
        self.get_u16_values(reg, num).map_values(|v: u16| i16_of_u16(v))
    }

    pub open spec fn set_i16_values(self, reg: u16, vals: Seq<i16>) -> Self {
        self.set_u16_values(reg, vals.map_values(|v: i16| u16_of_i16(v)))
    }

    pub open spec fn get_u32(self, reg: u16) -> u32 {
        if BITS_32_REG_MIN <= reg <= BITS_32_REG_MAX {
            self.r32[reg - BITS_32_REG_MIN]
        } else {
            0
        }
    }

    pub open spec fn set_u32(self, reg: u16, val: u32) -> Self {
        if BITS_32_REG_MIN <= reg <= BITS_32_REG_MAX {
            RegistersView { r32: self.r32.update(reg - BITS_32_REG_MIN, val), ..self }
        } else {
            self
        }
    }

    pub open spec fn get_u32_values(self, reg: u16, num: u16) -> Seq<u32> {
        if run_in_32(reg, num as int) {
            extract(self.r32, reg - BITS_32_REG_MIN, num as int)
        } else {
            Seq::empty()
        }
    }

    pub open spec fn set_u32_values(self, reg: u16, vals: Seq<u32>) -> Self {
        if run_in_32(reg, vals.len() as int) {
            RegistersView { r32: splice(self.r32, reg - BITS_32_REG_MIN, vals), ..self }
        } else {
            self
        }
    }

    pub open spec fn get_i32(self, reg: u16) -> i32 {
        i32_of_u32(self.get_u32(reg))
    }

    pub open spec fn set_i32(self, reg: u16, val: i32) -> Self {
        self.set_u32(reg, u32_of_i32(val))
    }

    pub open spec fn get_i32_values(self, reg: u16, num: u16) -> Seq<i32> {
        self.get_u32_values(reg, num).map_values(|v: u32| i32_of_u32(v))
    }

    pub open spec fn set_i32_values(self, reg: u16, vals: Seq<i32>) -> Self {
        self.set_u32_values(reg, vals.map_values(|v: i32| u32_of_i32(v)))
    }

    pub open spec fn get_u64(self, reg: u16) -> u64 {
        if BITS_64_REG_MIN <= reg <= BITS_64_REG_MAX {
            self.r64[reg - BITS_64_REG_MIN]
        } else {
            0
        }
    }

    pub open spec fn set_u64(self, reg: u16, val: u64) -> Self {
        if BITS_64_REG_MIN <= reg <= BITS_64_REG_MAX {
            RegistersView { r64: self.r64.update(reg - BITS_64_REG_MIN, val), ..self }
        } else {
            self
        }
    }

    pub open spec fn get_u64_values(self, reg: u16, num: u16) -> Seq<u64> {
        if run_in_64(reg, num as int) {
            extract(self.r64, reg - BITS_64_REG_MIN, num as int)
        } else {
            Seq::empty()
        }
    }

    pub open spec fn set_u64_values(self, reg: u16, vals: Seq<u64>) -> Self {
        if run_in_64(reg, vals.len() as int) {
            RegistersView { r64: splice(self.r64, reg - BITS_64_REG_MIN, vals), ..self }
        } else {
            self
        }
    }

    pub open spec fn get_i64(self, reg: u16) -> i64 {
        i64_of_u64(self.get_u64(reg))
    }

    pub open spec fn set_i64(self, reg: u16, val: i64) -> Self {
        self.set_u64(reg, u64_of_i64(val))
    }

    pub open spec fn get_i64_values(self, reg: u16, num: u16) -> Seq<i64> {
        self.get_u64_values(reg, num).map_values(|v: u64| i64_of_u64(v))
    }

    pub open spec fn set_i64_values(self, reg: u16, vals: Seq<i64>) -> Self {
        self.set_u64_values(reg, vals.map_values(|v: i64| u64_of_i64(v)))
    }
}

/// A register table whose 16-bit address range is partitioned by width:
/// addresses 0x0000..=0x1FFF are single bits, 0x2000..=0x7FFF 8-bit values,
/// 0x8000..=0xBFFF 16-bit values, 0xC000..=0xDFFF 32-bit values and
/// 0xE000..=0xFFFF 64-bit values, all in one zero-initialized byte arena of
/// non-overlapping regions.
pub struct Registers {
    mem: Vec<u8>,
}

impl View for Registers {
    type V = RegistersView;

    closed spec fn view(&self) -> RegistersView {
        RegistersView {
            bits: bit_region(self.mem@, BIT_REG_OFS as int, 0x2000),
            r8: byte_region(self.mem@, BITS_8_REG_OFS as int, 0x6000),
            r16: word16_region(self.mem@, BITS_16_REG_OFS as int, 0x4000),
            r32: word32_region(self.mem@, BITS_32_REG_OFS as int, 0x2000),
            r64: word64_region(self.mem@, BITS_64_REG_OFS as int, 0x2000),
        }
    }
}

// Proofs that a write confined to one region leaves the other four regions'
// views unchanged.
proof fn lemma_after_bit_write(m1: Seq<u8>, m2: Seq<u8>, lo: int, hi: int)
    requires
        m1.len() == TOTAL_BYTES,
        m2.len() == m1.len(),
        forall|j: int| 0 <= j < m2.len() && !(lo <= j < hi) ==> m2[j] == m1[j],
        BIT_REG_OFS <= lo <= hi,
        hi <= BITS_8_REG_OFS,
    ensures
        byte_region(m2, BITS_8_REG_OFS as int, 0x6000) == byte_region(
            m1,
            BITS_8_REG_OFS as int,
            0x6000,
        ),
        word16_region(m2, BITS_16_REG_OFS as int, 0x4000) == word16_region(
            m1,
            BITS_16_REG_OFS as int,
            0x4000,
        ),
        word32_region(m2, BITS_32_REG_OFS as int, 0x2000) == word32_region(
            m1,
            BITS_32_REG_OFS as int,
            0x2000,
        ),
        word64_region(m2, BITS_64_REG_OFS as int, 0x2000) == word64_region(
            m1,
            BITS_64_REG_OFS as int,
            0x2000,
        ),
{
    lemma_byte_region_frame(m1, m2, BITS_8_REG_OFS as int, 0x6000, lo, hi);
    lemma_word16_region_frame(m1, m2, BITS_16_REG_OFS as int, 0x4000, lo, hi);
    lemma_word32_region_frame(m1, m2, BITS_32_REG_OFS as int, 0x2000, lo, hi);
    lemma_word64_region_frame(m1, m2, BITS_64_REG_OFS as int, 0x2000, lo, hi);
}

proof fn lemma_after_r8_write(m1: Seq<u8>, m2: Seq<u8>, lo: int, hi: int)
    requires
        m1.len() == TOTAL_BYTES,
        m2.len() == m1.len(),
        forall|j: int| 0 <= j < m2.len() && !(lo <= j < hi) ==> m2[j] == m1[j],
        BITS_8_REG_OFS <= lo <= hi,
        hi <= BITS_16_REG_OFS,
    ensures
        bit_region(m2, BIT_REG_OFS as int, 0x2000) == bit_region(m1, BIT_REG_OFS as int, 0x2000),
        word16_region(m2, BITS_16_REG_OFS as int, 0x4000) == word16_region(
            m1,
            BITS_16_REG_OFS as int,
            0x4000,
        ),
        word32_region(m2, BITS_32_REG_OFS as int, 0x2000) == word32_region(
            m1,
            BITS_32_REG_OFS as int,
            0x2000,
        ),
        word64_region(m2, BITS_64_REG_OFS as int, 0x2000) == word64_region(
            m1,
            BITS_64_REG_OFS as int,
            0x2000,
        ),
{
    lemma_bit_region_frame(m1, m2, BIT_REG_OFS as int, 0x2000, lo, hi);
    lemma_word16_region_frame(m1, m2, BITS_16_REG_OFS as int, 0x4000, lo, hi);
    lemma_word32_region_frame(m1, m2, BITS_32_REG_OFS as int, 0x2000, lo, hi);
    lemma_word64_region_frame(m1, m2, BITS_64_REG_OFS as int, 0x2000, lo, hi);
}

proof fn lemma_after_r16_write(m1: Seq<u8>, m2: Seq<u8>, lo: int, hi: int)
    requires
        m1.len() == TOTAL_BYTES,
        m2.len() == m1.len(),
        forall|j: int| 0 <= j < m2.len() && !(lo <= j < hi) ==> m2[j] == m1[j],
        BITS_16_REG_OFS <= lo <= hi,
        hi <= BITS_32_REG_OFS,
    ensures
        bit_region(m2, BIT_REG_OFS as int, 0x2000) == bit_region(m1, BIT_REG_OFS as int, 0x2000),
        byte_region(m2, BITS_8_REG_OFS as int, 0x6000) == byte_region(
            m1,
            BITS_8_REG_OFS as int,
            0x6000,
        ),
        word32_region(m2, BITS_32_REG_OFS as int, 0x2000) == word32_region(
            m1,
            BITS_32_REG_OFS as int,
            0x2000,
        ),
        word64_region(m2, BITS_64_REG_OFS as int, 0x2000) == word64_region(
            m1,
            BITS_64_REG_OFS as int,
            0x2000,
        ),
{
    lemma_bit_region_frame(m1, m2, BIT_REG_OFS as int, 0x2000, lo, hi);
    lemma_byte_region_frame(m1, m2, BITS_8_REG_OFS as int, 0x6000, lo, hi);
    lemma_word32_region_frame(m1, m2, BITS_32_REG_OFS as int, 0x2000, lo, hi);
    lemma_word64_region_frame(m1, m2, BITS_64_REG_OFS as int, 0x2000, lo, hi);
}

proof fn lemma_after_r32_write(m1: Seq<u8>, m2: Seq<u8>, lo: int, hi: int)
    requires
        m1.len() == TOTAL_BYTES,
        m2.len() == m1.len(),
        forall|j: int| 0 <= j < m2.len() && !(lo <= j < hi) ==> m2[j] == m1[j],
        BITS_32_REG_OFS <= lo <= hi,
        hi <= BITS_64_REG_OFS,
    ensures
        bit_region(m2, BIT_REG_OFS as int, 0x2000) == bit_region(m1, BIT_REG_OFS as int, 0x2000),
        byte_region(m2, BITS_8_REG_OFS as int, 0x6000) == byte_region(
            m1,
            BITS_8_REG_OFS as int,
            0x6000,
        ),
        word16_region(m2, BITS_16_REG_OFS as int, 0x4000) == word16_region(
            m1,
            BITS_16_REG_OFS as int,
            0x4000,
        ),
        word64_region(m2, BITS_64_REG_OFS as int, 0x2000) == word64_region(
            m1,
            BITS_64_REG_OFS as int,
            0x2000,
        ),
{
    lemma_bit_region_frame(m1, m2, BIT_REG_OFS as int, 0x2000, lo, hi);
    lemma_byte_region_frame(m1, m2, BITS_8_REG_OFS as int, 0x6000, lo, hi);
    lemma_word16_region_frame(m1, m2, BITS_16_REG_OFS as int, 0x4000, lo, hi);
    lemma_word64_region_frame(m1, m2, BITS_64_REG_OFS as int, 0x2000, lo, hi);
}

proof fn lemma_after_r64_write(m1: Seq<u8>, m2: Seq<u8>, lo: int, hi: int)
    requires
        m1.len() == TOTAL_BYTES,
        m2.len() == m1.len(),
        forall|j: int| 0 <= j < m2.len() && !(lo <= j < hi) ==> m2[j] == m1[j],
        BITS_64_REG_OFS <= lo <= hi,
        hi <= TOTAL_BYTES,
    ensures
        bit_region(m2, BIT_REG_OFS as int, 0x2000) == bit_region(m1, BIT_REG_OFS as int, 0x2000),
        byte_region(m2, BITS_8_REG_OFS as int, 0x6000) == byte_region(
            m1,
            BITS_8_REG_OFS as int,
            0x6000,
        ),
        word16_region(m2, BITS_16_REG_OFS as int, 0x4000) == word16_region(
            m1,
            BITS_16_REG_OFS as int,
            0x4000,
        ),
        word32_region(m2, BITS_32_REG_OFS as int, 0x2000) == word32_region(
            m1,
            BITS_32_REG_OFS as int,
            0x2000,
        ),
{
    lemma_bit_region_frame(m1, m2, BIT_REG_OFS as int, 0x2000, lo, hi);
    lemma_byte_region_frame(m1, m2, BITS_8_REG_OFS as int, 0x6000, lo, hi);
    lemma_word16_region_frame(m1, m2, BITS_16_REG_OFS as int, 0x4000, lo, hi);
    lemma_word32_region_frame(m1, m2, BITS_32_REG_OFS as int, 0x2000, lo, hi);
}

impl Registers {
    /// The arena has its full fixed size.
    pub closed spec fn wf(&self) -> bool {
        self.mem@.len() == TOTAL_BYTES
    }

    /// Builds a table whose registers all read as zero or `false`.
    pub fn new() -> (r: Self)
        ensures
            r.wf(),
            r@ == RegistersView::zeroed(),
    {
        let mut mem: Vec<u8> = Vec::new();
        while mem.len() < TOTAL_BYTES
            invariant
                mem@.len() <= TOTAL_BYTES,
                forall|j: int| 0 <= j < mem@.len() ==> mem@[j] == 0u8,
            decreases TOTAL_BYTES - mem@.len(),
        {
            mem.push(0u8);
        }
        let r = Registers { mem };
        proof {
            assert forall|a: int| 0 <= a < 0x2000 implies r@.bits[a] == false by {
                assert(r.mem@[BIT_REG_OFS + a / 8] == 0u8);
                lemma_zero_bit((a % 8) as u8);
            }
            assert forall|a: int| 0 <= a < 0x4000 implies r@.r16[a] == 0u16 by {
                assert(r.mem@[BITS_16_REG_OFS + 2 * a] == 0u8);
                assert(r.mem@[BITS_16_REG_OFS + 2 * a + 1] == 0u8);
            }
            assert forall|a: int| 0 <= a < 0x2000 implies r@.r32[a] == 0u32 by {
                assert(r.mem@[BITS_32_REG_OFS + 4 * a] == 0u8);
                assert(r.mem@[BITS_32_REG_OFS + 4 * a + 1] == 0u8);
                assert(r.mem@[BITS_32_REG_OFS + 4 * a + 2] == 0u8);
                assert(r.mem@[BITS_32_REG_OFS + 4 * a + 3] == 0u8);
            }
            assert forall|a: int| 0 <= a < 0x2000 implies r@.r64[a] == 0u64 by {
                assert(r.mem@[BITS_64_REG_OFS + 8 * a] == 0u8);
                assert(r.mem@[BITS_64_REG_OFS + 8 * a + 1] == 0u8);
                assert(r.mem@[BITS_64_REG_OFS + 8 * a + 2] == 0u8);
                assert(r.mem@[BITS_64_REG_OFS + 8 * a + 3] == 0u8);
                assert(r.mem@[BITS_64_REG_OFS + 8 * a + 4] == 0u8);
                assert(r.mem@[BITS_64_REG_OFS + 8 * a + 5] == 0u8);
                assert(r.mem@[BITS_64_REG_OFS + 8 * a + 6] == 0u8);
                assert(r.mem@[BITS_64_REG_OFS + 8 * a + 7] == 0u8);
            }
            assert(r@.bits =~= RegistersView::zeroed().bits);
            assert(r@.r8 =~= RegistersView::zeroed().r8);
            assert(r@.r16 =~= RegistersView::zeroed().r16);
            assert(r@.r32 =~= RegistersView::zeroed().r32);
            assert(r@.r64 =~= RegistersView::zeroed().r64);
            assert(r@ =~= RegistersView::zeroed());
        }
        r
    }

    /// Reads the single-bit register at `reg`; an address outside the bit
    /// range reads as `false`.
    pub fn get_bit(&self, reg: u16) -> (r: bool)
        requires
            self.wf(),
        ensures
            r == self@.get_bit(reg),
    {
        if reg > BIT_REG_MAX {
            return false;
        }
        let i: usize = BIT_REG_OFS + (reg / 8) as usize;
        let k: u8 = (reg % 8) as u8;
        read_bit(&self.mem, i, k)
    }

    /// Turns the single-bit register at `reg` on; outside the bit range this
    /// is a no-op.
    pub fn set_bit(&mut self, reg: u16)
        requires
            old(self).wf(),
        ensures
            final(self).wf(),
            final(self)@ == old(self)@.set_bit(reg),
    {
        if reg <= BIT_REG_MAX {
            let i: usize = BIT_REG_OFS + (reg / 8) as usize;
            let k: u8 = (reg % 8) as u8;
            write_bit(&mut self.mem, i, k, true);
            proof {
                lemma_bit_region_update(
                    old(self).mem@,
                    self.mem@,
                    BIT_REG_OFS as int,
                    0x2000,
                    reg as int,
                    true,
                );
                lemma_after_bit_write(old(self).mem@, self.mem@, i as int, i as int + 1);
                assert(self@ =~= old(self)@.set_bit(reg));
            }
        }
    }

    /// Turns the single-bit register at `reg` off; outside the bit range
    /// this is a no-op.
    pub fn clear_bit(&mut self, reg: u16)
        requires
            old(self).wf(),
        ensures
            final(self).wf(),
            final(self)@ == old(self)@.clear_bit(reg),
    {
        if reg <= BIT_REG_MAX {
            let i: usize = BIT_REG_OFS + (reg / 8) as usize;
            let k: u8 = (reg % 8) as u8;
            write_bit(&mut self.mem, i, k, false);
            proof {
                lemma_bit_region_update(
                    old(self).mem@,
                    self.mem@,
                    BIT_REG_OFS as int,
                    0x2000,
                    reg as int,
                    false,
                );
                lemma_after_bit_write(old(self).mem@, self.mem@, i as int, i as int + 1);
                assert(self@ =~= old(self)@.clear_bit(reg));
            }
        }
    }

    /// Reads the 8-bit register at `reg`; an address outside the 8-bit
    /// range reads as zero.
    pub fn get_u8(&self, reg: u16) -> (r: u8)
        requires
            self.wf(),
        ensures
            r == self@.get_u8(reg),
    {
        if reg < BITS_8_REG_MIN || reg > BITS_8_REG_MAX {
            return 0;
        }
        self.mem[BITS_8_REG_OFS + (reg - BITS_8_REG_MIN) as usize]
    }

    /// Writes the 8-bit register at `reg`; outside the 8-bit range this is
    /// a no-op.
    pub fn set_u8(&mut self, reg: u16, val: u8)
        requires
            old(self).wf(),
        ensures
            final(self).wf(),
            final(self)@ == old(self)@.set_u8(reg, val),
    {
        if reg >= BITS_8_REG_MIN && reg <= BITS_8_REG_MAX {
            let i: usize = BITS_8_REG_OFS + (reg - BITS_8_REG_MIN) as usize;
            self.mem.set(i, val);
            proof {
                lemma_byte_region_update(
                    old(self).mem@,
                    self.mem@,
                    BITS_8_REG_OFS as int,
                    0x6000,
                    reg - BITS_8_REG_MIN,
                    val,
                );
                lemma_after_r8_write(old(self).mem@, self.mem@, i as int, i as int + 1);
                assert(self@ =~= old(self)@.set_u8(reg, val));
            }
        }
    }

    /// Reads the 16-bit register at `reg`; an address outside the 16-bit
    /// range reads as zero.
    pub fn get_u16(&self, reg: u16) -> (r: u16)
        requires
            self.wf(),
        ensures
            r == self@.get_u16(reg),
    {
        if reg < BITS_16_REG_MIN || reg > BITS_16_REG_MAX {
            return 0;
        }
        load_u16(&self.mem, BITS_16_REG_OFS + 2 * (reg - BITS_16_REG_MIN) as usize)
    }

    /// Writes the 16-bit register at `reg`; outside the 16-bit range this
    /// is a no-op.
    pub fn set_u16(&mut self, reg: u16, val: u16)
        requires
            old(self).wf(),
        ensures
            final(self).wf(),
            final(self)@ == old(self)@.set_u16(reg, val),
    {
        if reg >= BITS_16_REG_MIN && reg <= BITS_16_REG_MAX {
            let i: usize = BITS_16_REG_OFS + 2 * (reg - BITS_16_REG_MIN) as usize;
            store_u16(&mut self.mem, i, val);
            proof {
                lemma_word16_region_update(
                    old(self).mem@,
                    self.mem@,
                    BITS_16_REG_OFS as int,
                    0x4000,
                    reg - BITS_16_REG_MIN,
                    val,
                );
                lemma_after_r16_write(old(self).mem@, self.mem@, i as int, i as int + 2);
                assert(self@ =~= old(self)@.set_u16(reg, val));
            }
        }
    }

    /// Reads the 32-bit register at `reg`; an address outside the 32-bit
    /// range reads as zero.
    pub fn get_u32(&self, reg: u16) -> (r: u32)
        requires
            self.wf(),
        ensures
            r == self@.get_u32(reg),
    {
        if reg < BITS_32_REG_MIN || reg > BITS_32_REG_MAX {
            return 0;
        }
        load_u32(&self.mem, BITS_32_REG_OFS + 4 * (reg - BITS_32_REG_MIN) as usize)
    }

    /// Writes the 32-bit register at `reg`; outside the 32-bit range this
    /// is a no-op.
    pub fn set_u32(&mut self, reg: u16, val: u32)
        requires
            old(self).wf(),
        ensures
            final(self).wf(),
            final(self)@ == old(self)@.set_u32(reg, val),
    {
        if reg >= BITS_32_REG_MIN && reg <= BITS_32_REG_MAX {
            let i: usize = BITS_32_REG_OFS + 4 * (reg - BITS_32_REG_MIN) as usize;
            store_u32(&mut self.mem, i, val);
            proof {
                lemma_word32_region_update(
                    old(self).mem@,
                    self.mem@,
                    BITS_32_REG_OFS as int,
                    0x2000,
                    reg - BITS_32_REG_MIN,
                    val,
                );
                lemma_after_r32_write(old(self).mem@, self.mem@, i as int, i as int + 4);
                assert(self@ =~= old(self)@.set_u32(reg, val));
            }
        }
    }

    /// Reads the 64-bit register at `reg`; an address outside the 64-bit
    /// range reads as zero.
    pub fn get_u64(&self, reg: u16) -> (r: u64)
        requires
            self.wf(),
        ensures
            r == self@.get_u64(reg),
    {
        if reg < BITS_64_REG_MIN {
            return 0;
        }
        load_u64(&self.mem, BITS_64_REG_OFS + 8 * (reg - BITS_64_REG_MIN) as usize)
    }

    /// Writes the 64-bit register at `reg`; outside the 64-bit range this
    /// is a no-op.
    pub fn set_u64(&mut self, reg: u16, val: u64)
        requires
            old(self).wf(),
        ensures
            final(self).wf(),
            final(self)@ == old(self)@.set_u64(reg, val),
    {
        if reg >= BITS_64_REG_MIN {
            let i: usize = BITS_64_REG_OFS + 8 * (reg - BITS_64_REG_MIN) as usize;
            store_u64(&mut self.mem, i, val);
            proof {
                lemma_word64_region_update(
                    old(self).mem@,
                    self.mem@,
                    BITS_64_REG_OFS as int,
                    0x2000,
                    reg - BITS_64_REG_MIN,
                    val,
                );
                lemma_after_r64_write(old(self).mem@, self.mem@, i as int, i as int + 8);
                assert(self@ =~= old(self)@.set_u64(reg, val));
            }
        }
    }

    /// Reads the 8-bit register at `reg` as a signed value; an address
    /// outside the 8-bit range reads as zero.
    pub fn get_i8(&self, reg: u16) -> (r: i8)
        requires
            self.wf(),
        ensures
            r == self@.get_i8(reg),
    {
        u8_to_i8(self.get_u8(reg))
    }

    /// Writes the 8-bit register at `reg` with a signed value; outside the
    /// 8-bit range this is a no-op.
    pub fn set_i8(&mut self, reg: u16, val: i8)
        requires
            old(self).wf(),
        ensures
            final(self).wf(),
            final(self)@ == old(self)@.set_i8(reg, val),
    {
        let v: u8 = i8_to_u8(val);
        self.set_u8(reg, v);
    }

    /// Reads the 16-bit register at `reg` as a signed value; an address
    /// outside the 16-bit range reads as zero.
    pub fn get_i16(&self, reg: u16) -> (r: i16)
        requires
            self.wf(),
        ensures
            r == self@.get_i16(reg),
    {
        u16_to_i16(self.get_u16(reg))
    }

    /// Writes the 16-bit register at `reg` with a signed value; outside the
    /// 16-bit range this is a no-op.
    pub fn set_i16(&mut self, reg: u16, val: i16)
        requires
            old(self).wf(),
        ensures
            final(self).wf(),
            final(self)@ == old(self)@.set_i16(reg, val),
    {
        let v: u16 = i16_to_u16(val);
        self.set_u16(reg, v);
    }

    /// Reads the 32-bit register at `reg` as a signed value; an address
    /// outside the 32-bit range reads as zero.
    pub fn get_i32(&self, reg: u16) -> (r: i32)
        requires
            self.wf(),
        ensures
            r == self@.get_i32(reg),
    {
        u32_to_i32(self.get_u32(reg))
    }

    /// Writes the 32-bit register at `reg` with a signed value; outside the
    /// 32-bit range this is a no-op.
    pub fn set_i32(&mut self, reg: u16, val: i32)
        requires
            old(self).wf(),
        ensures
            final(self).wf(),
            final(self)@ == old(self)@.set_i32(reg, val),
    {
        let v: u32 = i32_to_u32(val);
        self.set_u32(reg, v);
    }

    /// Reads the 64-bit register at `reg` as a signed value; an address
    /// outside the 64-bit range reads as zero.
    pub fn get_i64(&self, reg: u16) -> (r: i64)
        requires
            self.wf(),
        ensures
            r == self@.get_i64(reg),
    {
        u64_to_i64(self.get_u64(reg))
    }

    /// Writes the 64-bit register at `reg` with a signed value; outside the
    /// 64-bit range this is a no-op.
    pub fn set_i64(&mut self, reg: u16, val: i64)
        requires
            old(self).wf(),
        ensures
            final(self).wf(),
            final(self)@ == old(self)@.set_i64(reg, val),
    {
        let v: u64 = i64_to_u64(val);
        self.set_u64(reg, v);
    }

    /// Reads `num` consecutive 8-bit registers starting at `reg`; if the
    /// run does not lie entirely inside the 8-bit range, the result is
    /// empty.
    pub fn get_u8_values(&self, reg: u16, num: u16) -> (r: Vec<u8>)
        requires
            self.wf(),
        ensures
            r@ == self@.get_u8_values(reg, num),
    {
        let mut out: Vec<u8> = Vec::new();
        if reg < BITS_8_REG_MIN || reg > BITS_8_REG_MAX || num as usize > (BITS_8_REG_MAX - reg)
            as usize + 1 {
            proof {
                assert(out@ =~= self@.get_u8_values(reg, num));
            }
            return out;
        }
        let n: usize = num as usize;
        let mut i: usize = 0;
        while i < n
            invariant
                self.wf(),
                i <= n,
                n == num as int,
                run_in_8(reg, num as int),
                out@.len() == i,
                forall|k: int| 0 <= k < i ==> out@[k] == self@.r8[reg - BITS_8_REG_MIN + k],
            decreases n - i,
        {
            let v: u8 = self.get_u8(reg + i as u16);
            out.push(v);
            i = i + 1;
        }
        proof {
            assert(out@ =~= self@.get_u8_values(reg, num));
        }
        out
    }

    /// Writes the values into consecutive 8-bit registers starting at
    /// `reg`, but only if the whole run lies inside the 8-bit range;
    /// otherwise nothing at all is written.
    pub fn set_u8_values(&mut self, reg: u16, vals: &[u8])
        requires
            old(self).wf(),
        ensures
            final(self).wf(),
            final(self)@ == old(self)@.set_u8_values(reg, vals@),
    {
        if reg >= BITS_8_REG_MIN && reg <= BITS_8_REG_MAX && vals.len() <= (BITS_8_REG_MAX - reg)
            as usize + 1 {
            let n: usize = vals.len();
            let mut i: usize = 0;
            while i < n
                invariant
                    self.wf(),
                    i <= n,
                    n == vals@.len(),
                    run_in_8(reg, vals@.len() as int),
                    self@.bits == old(self)@.bits,
                    self@.r16 == old(self)@.r16,
                    self@.r32 == old(self)@.r32,
                    self@.r64 == old(self)@.r64,
                    self@.r8.len() == old(self)@.r8.len(),
                    forall|b: int|
                        0 <= b < self@.r8.len() ==> self@.r8[b] == (if reg - BITS_8_REG_MIN <= b
                            < reg - BITS_8_REG_MIN + i {
                            vals@[b - (reg - BITS_8_REG_MIN)]
                        } else {
                            old(self)@.r8[b]
                        }),
                decreases n - i,
            {
                self.set_u8(reg + i as u16, vals[i]);
                i = i + 1;
            }
            proof {
                assert(self@.r8 =~= old(self)@.set_u8_values(reg, vals@).r8);
                assert(self@ =~= old(self)@.set_u8_values(reg, vals@));
            }
        }
    }

    /// Reads `num` consecutive 8-bit registers starting at `reg` as signed
    /// values; if the run does not lie entirely inside the 8-bit range, the
    /// result is empty.
    pub fn get_i8_values(&self, reg: u16, num: u16) -> (r: Vec<i8>)
        requires
            self.wf(),
        ensures
            r@ == self@.get_i8_values(reg, num),
    {
        let u: Vec<u8> = self.get_u8_values(reg, num);
        let r = vec_u8_to_i8(&u);
        proof {
            assert(r@ =~= self@.get_i8_values(reg, num));
        }
        r
    }

    /// Writes signed values into consecutive 8-bit registers starting at
    /// `reg`, but only if the whole run lies inside the 8-bit range.
    pub fn set_i8_values(&mut self, reg: u16, vals: &[i8])
        requires
            old(self).wf(),
        ensures
            final(self).wf(),
            final(self)@ == old(self)@.set_i8_values(reg, vals@),
    {
        let u: Vec<u8> = slice_i8_to_u8(vals);
        self.set_u8_values(reg, u.as_slice());
        proof {
            assert(self@.r8 =~= old(self)@.set_i8_values(reg, vals@).r8);
            assert(self@ =~= old(self)@.set_i8_values(reg, vals@));
        }
    }

    /// Reads `num` consecutive 16-bit registers starting at `reg`; if the
    /// run does not lie entirely inside the 16-bit range, the result is
    /// empty.
    pub fn get_u16_values(&self, reg: u16, num: u16) -> (r: Vec<u16>)
        requires
            self.wf(),
        ensures
            r@ == self@.get_u16_values(reg, num),
    {
        let mut out: Vec<u16> = Vec::new();
        if reg < BITS_16_REG_MIN || reg > BITS_16_REG_MAX || num as usize > (BITS_16_REG_MAX - reg)
            as usize + 1 {
            proof {
                assert(out@ =~= self@.get_u16_values(reg, num));
            }
            return out;
        }
        let n: usize = num as usize;
        let mut i: usize = 0;
        while i < n
            invariant
                self.wf(),
                i <= n,
                n == num as int,
                run_in_16(reg, num as int),
                out@.len() == i,
                forall|k: int| 0 <= k < i ==> out@[k] == self@.r16[reg - BITS_16_REG_MIN + k],
            decreases n - i,
        {
            let v: u16 = self.get_u16(reg + i as u16);
            out.push(v);
            i = i + 1;
        }
        proof {
            assert(out@ =~= self@.get_u16_values(reg, num));
        }
        out
    }

    /// Writes the values into consecutive 16-bit registers starting at
    /// `reg`, but only if the whole run lies inside the 16-bit range;
    /// otherwise nothing at all is written.
    pub fn set_u16_values(&mut self, reg: u16, vals: &[u16])
        requires
            old(self).wf(),
        ensures
            final(self).wf(),
            final(self)@ == old(self)@.set_u16_values(reg, vals@),
    {
        if reg >= BITS_16_REG_MIN && reg <= BITS_16_REG_MAX && vals.len() <= (BITS_16_REG_MAX
            - reg) as usize + 1 {
            let n: usize = vals.len();
            let mut i: usize = 0;
            while i < n
                invariant
                    self.wf(),
                    i <= n,
                    n == vals@.len(),
                    run_in_16(reg, vals@.len() as int),
                    self@.bits == old(self)@.bits,
                    self@.r8 == old(self)@.r8,
                    self@.r32 == old(self)@.r32,
                    self@.r64 == old(self)@.r64,
                    self@.r16.len() == old(self)@.r16.len(),
                    forall|b: int|
                        0 <= b < self@.r16.len() ==> self@.r16[b] == (if reg - BITS_16_REG_MIN <= b
                            < reg - BITS_16_REG_MIN + i {
                            vals@[b - (reg - BITS_16_REG_MIN)]
                        } else {
                            old(self)@.r16[b]
                        }),
                decreases n - i,
            {
                self.set_u16(reg + i as u16, vals[i]);
                i = i + 1;
            }
            proof {
                assert(self@.r16 =~= old(self)@.set_u16_values(reg, vals@).r16);
                assert(self@ =~= old(self)@.set_u16_values(reg, vals@));
            }
        }
    }

    /// Reads `num` consecutive 16-bit registers starting at `reg` as signed
    /// values; if the run does not lie entirely inside the 16-bit range,
    /// the result is empty.
    pub fn get_i16_values(&self, reg: u16, num: u16) -> (r: Vec<i16>)
        requires
            self.wf(),
        ensures
            r@ == self@.get_i16_values(reg, num),
    {
        let u: Vec<u16> = self.get_u16_values(reg, num);
        let r = vec_u16_to_i16(&u);
        proof {
            assert(r@ =~= self@.get_i16_values(reg, num));
        }
        r
    }

    /// Writes signed values into consecutive 16-bit registers starting at
    /// `reg`, but only if the whole run lies inside the 16-bit range.
    pub fn set_i16_values(&mut self, reg: u16, vals: &[i16])
        requires
            old(self).wf(),
        ensures
            final(self).wf(),
            final(self)@ == old(self)@.set_i16_values(reg, vals@),
    {
        let u: Vec<u16> = slice_i16_to_u16(vals);
        self.set_u16_values(reg, u.as_slice());
        proof {
            assert(self@.r16 =~= old(self)@.set_i16_values(reg, vals@).r16);
            assert(self@ =~= old(self)@.set_i16_values(reg, vals@));
        }
    }

    /// Reads `num` consecutive 32-bit registers starting at `reg`; if the
    /// run does not lie entirely inside the 32-bit range, the result is
    /// empty.
    pub fn get_u32_values(&self, reg: u16, num: u16) -> (r: Vec<u32>)
        requires
            self.wf(),
        ensures
            r@ == self@.get_u32_values(reg, num),
    {
        let mut out: Vec<u32> = Vec::new();
        if reg < BITS_32_REG_MIN || reg > BITS_32_REG_MAX || num as usize > (BITS_32_REG_MAX - reg)
            as usize + 1 {
            proof {
                assert(out@ =~= self@.get_u32_values(reg, num));
            }
            return out;
        }
        let n: usize = num as usize;
        let mut i: usize = 0;
        while i < n
            invariant
                self.wf(),
                i <= n,
                n == num as int,
                run_in_32(reg, num as int),
                out@.len() == i,
                forall|k: int| 0 <= k < i ==> out@[k] == self@.r32[reg - BITS_32_REG_MIN + k],
            decreases n - i,
        {
            let v: u32 = self.get_u32(reg + i as u16);
            out.push(v);
            i = i + 1;
        }
        proof {
            assert(out@ =~= self@.get_u32_values(reg, num));
        }
        out
    }

    /// Writes the values into consecutive 32-bit registers starting at
    /// `reg`, but only if the whole run lies inside the 32-bit range;
    /// otherwise nothing at all is written.
    pub fn set_u32_values(&mut self, reg: u16, vals: &[u32])
        requires
            old(self).wf(),
        ensures
            final(self).wf(),
            final(self)@ == old(self)@.set_u32_values(reg, vals@),
    {
        if reg >= BITS_32_REG_MIN && reg <= BITS_32_REG_MAX && vals.len() <= (BITS_32_REG_MAX
            - reg) as usize + 1 {
            let n: usize = vals.len();
            let mut i: usize = 0;
            while i < n
                invariant
                    self.wf(),
                    i <= n,
                    n == vals@.len(),
                    run_in_32(reg, vals@.len() as int),
                    self@.bits == old(self)@.bits,
                    self@.r8 == old(self)@.r8,
                    self@.r16 == old(self)@.r16,
                    self@.r64 == old(self)@.r64,
                    self@.r32.len() == old(self)@.r32.len(),
                    forall|b: int|
                        0 <= b < self@.r32.len() ==> self@.r32[b] == (if reg - BITS_32_REG_MIN <= b
                            < reg - BITS_32_REG_MIN + i {
                            vals@[b - (reg - BITS_32_REG_MIN)]
                        } else {
                            old(self)@.r32[b]
                        }),
                decreases n - i,
            {
                self.set_u32(reg + i as u16, vals[i]);
                i = i + 1;
            }
            proof {
                assert(self@.r32 =~= old(self)@.set_u32_values(reg, vals@).r32);
                assert(self@ =~= old(self)@.set_u32_values(reg, vals@));
            }
        }
    }

    /// Reads `num` consecutive 32-bit registers starting at `reg` as signed
    /// values; if the run does not lie entirely inside the 32-bit range,
    /// the result is empty.
    pub fn get_i32_values(&self, reg: u16, num: u16) -> (r: Vec<i32>)
        requires
            self.wf(),
        ensures
            r@ == self@.get_i32_values(reg, num),
    {
        let u: Vec<u32> = self.get_u32_values(reg, num);
        let r = vec_u32_to_i32(&u);
        proof {
            assert(r@ =~= self@.get_i32_values(reg, num));
        }
        r
    }

    /// Writes signed values into consecutive 32-bit registers starting at
    /// `reg`, but only if the whole run lies inside the 32-bit range.
    pub fn set_i32_values(&mut self, reg: u16, vals: &[i32])
        requires
            old(self).wf(),
        ensures
            final(self).wf(),
            final(self)@ == old(self)@.set_i32_values(reg, vals@),
    {
        let u: Vec<u32> = slice_i32_to_u32(vals);
        self.set_u32_values(reg, u.as_slice());
        proof {
            assert(self@.r32 =~= old(self)@.set_i32_values(reg, vals@).r32);
            assert(self@ =~= old(self)@.set_i32_values(reg, vals@));
        }
    }

    /// Reads `num` consecutive 64-bit registers starting at `reg`; if the
    /// run does not lie entirely inside the 64-bit range, the result is
    /// empty.
    pub fn get_u64_values(&self, reg: u16, num: u16) -> (r: Vec<u64>)
        requires
            self.wf(),
        ensures
            r@ == self@.get_u64_values(reg, num),
    {
        let mut out: Vec<u64> = Vec::new();
        if reg < BITS_64_REG_MIN || num as usize > (BITS_64_REG_MAX - reg) as usize + 1 {
            proof {
                assert(out@ =~= self@.get_u64_values(reg, num));
            }
            return out;
        }
        let n: usize = num as usize;
        let mut i: usize = 0;
        while i < n
            invariant
                self.wf(),
                i <= n,
                n == num as int,
                run_in_64(reg, num as int),
                out@.len() == i,
                forall|k: int| 0 <= k < i ==> out@[k] == self@.r64[reg - BITS_64_REG_MIN + k],
            decreases n - i,
        {
            let v: u64 = self.get_u64(reg + i as u16);
            out.push(v);
            i = i + 1;
        }
        proof {
            assert(out@ =~= self@.get_u64_values(reg, num));
        }
        out
    }

    /// Writes the values into consecutive 64-bit registers starting at
    /// `reg`, but only if the whole run lies inside the 64-bit range;
    /// otherwise nothing at all is written.
    pub fn set_u64_values(&mut self, reg: u16, vals: &[u64])
        requires
            old(self).wf(),
        ensures
            final(self).wf(),
            final(self)@ == old(self)@.set_u64_values(reg, vals@),
    {
        if reg >= BITS_64_REG_MIN && vals.len() <= (BITS_64_REG_MAX - reg) as usize + 1 {
            let n: usize = vals.len();
            let mut i: usize = 0;
            while i < n
                invariant
                    self.wf(),
                    i <= n,
                    n == vals@.len(),
                    run_in_64(reg, vals@.len() as int),
                    self@.bits == old(self)@.bits,
                    self@.r8 == old(self)@.r8,
                    self@.r16 == old(self)@.r16,
                    self@.r32 == old(self)@.r32,
                    self@.r64.len() == old(self)@.r64.len(),
                    forall|b: int|
                        0 <= b < self@.r64.len() ==> self@.r64[b] == (if reg - BITS_64_REG_MIN <= b
                            < reg - BITS_64_REG_MIN + i {
                            vals@[b - (reg - BITS_64_REG_MIN)]
                        } else {
                            old(self)@.r64[b]
                        }),
                decreases n - i,
            {
                self.set_u64(reg + i as u16, vals[i]);
                i = i + 1;
            }
            proof {
                assert(self@.r64 =~= old(self)@.set_u64_values(reg, vals@).r64);
                assert(self@ =~= old(self)@.set_u64_values(reg, vals@));
            }
        }
    }

    /// Reads `num` consecutive 64-bit registers starting at `reg` as signed
    /// values; if the run does not lie entirely inside the 64-bit range,
    /// the result is empty.
    pub fn get_i64_values(&self, reg: u16, num: u16) -> (r: Vec<i64>)
        requires
            self.wf(),
        ensures
            r@ == self@.get_i64_values(reg, num),
    {
        let u: Vec<u64> = self.get_u64_values(reg, num);
        let r = vec_u64_to_i64(&u);
        proof {
            assert(r@ =~= self@.get_i64_values(reg, num));
        }
        r
    }

    /// Writes signed values into consecutive 64-bit registers starting at
    /// `reg`, but only if the whole run lies inside the 64-bit range.
    pub fn set_i64_values(&mut self, reg: u16, vals: &[i64])
        requires
            old(self).wf(),
        ensures
            final(self).wf(),
            final(self)@ == old(self)@.set_i64_values(reg, vals@),
    {
        let u: Vec<u64> = slice_i64_to_u64(vals);
        self.set_u64_values(reg, u.as_slice());
        proof {
            assert(self@.r64 =~= old(self)@.set_i64_values(reg, vals@).r64);
            assert(self@ =~= old(self)@.set_i64_values(reg, vals@));
        }
    }
}

// ---------------------------------------------------------------------------
// Laws of the partitioned table
// ---------------------------------------------------------------------------

/// Bit round-trip: at every address of the bit range, turning a bit on makes
/// it read `true` and turning it off makes it read `false`.
pub proof fn lemma_bit_roundtrip(v: RegistersView, reg: u16)
    requires
        v.wf(),
        reg <= BIT_REG_MAX,
    ensures
        v.set_bit(reg).get_bit(reg) == true,
        v.clear_bit(reg).get_bit(reg) == false,
{
}

/// Scalar round-trip, 8-bit: a value written at an address of the 8-bit
/// range is the value read back, signed or unsigned.
pub proof fn lemma_scalar_roundtrip_8(v: RegistersView, reg: u16, vu: u8, vi: i8)
    requires
        v.wf(),
        BITS_8_REG_MIN <= reg <= BITS_8_REG_MAX,
    ensures
        v.set_u8(reg, vu).get_u8(reg) == vu,
        v.set_i8(reg, vi).get_i8(reg) == vi,
{
    lemma_sign_roundtrip_8(vi, vu);
}

/// Scalar round-trip, 16-bit.
pub proof fn lemma_scalar_roundtrip_16(v: RegistersView, reg: u16, vu: u16, vi: i16)
    requires
        v.wf(),
        BITS_16_REG_MIN <= reg <= BITS_16_REG_MAX,
    ensures
        v.set_u16(reg, vu).get_u16(reg) == vu,
        v.set_i16(reg, vi).get_i16(reg) == vi,
{
    lemma_sign_roundtrip_16(vi, vu);
}

/// Scalar round-trip, 32-bit.
pub proof fn lemma_scalar_roundtrip_32(v: RegistersView, reg: u16, vu: u32, vi: i32)
    requires
        v.wf(),
        BITS_32_REG_MIN <= reg <= BITS_32_REG_MAX,
    ensures
        v.set_u32(reg, vu).get_u32(reg) == vu,
        v.set_i32(reg, vi).get_i32(reg) == vi,
{
    lemma_sign_roundtrip_32(vi, vu);
}

/// Scalar round-trip, 64-bit.
pub proof fn lemma_scalar_roundtrip_64(v: RegistersView, reg: u16, vu: u64, vi: i64)
    requires
        v.wf(),
        BITS_64_REG_MIN <= reg,
    ensures
        v.set_u64(reg, vu).get_u64(reg) == vu,
        v.set_i64(reg, vi).get_i64(reg) == vi,
{
    lemma_sign_roundtrip_64(vi, vu);
}

/// Bulk round-trip, 8-bit: writing a run that lies fully inside the 8-bit
/// range and reading back a run of the same length yields exactly the
/// written values.
pub proof fn lemma_bulk_roundtrip_8(v: RegistersView, reg: u16, vu: Seq<u8>, vi: Seq<i8>)
    requires
        v.wf(),
        run_in_8(reg, vu.len() as int),
        run_in_8(reg, vi.len() as int),
    ensures
        v.set_u8_values(reg, vu).get_u8_values(reg, vu.len() as u16) == vu,
        v.set_i8_values(reg, vi).get_i8_values(reg, vi.len() as u16) == vi,
{
    assert(v.set_u8_values(reg, vu).get_u8_values(reg, vu.len() as u16) =~= vu);
    assert forall|j: int| 0 <= j < vi.len() implies v.set_i8_values(reg, vi).get_i8_values(
        reg,
        vi.len() as u16,
    )[j] == vi[j] by {
        lemma_sign_roundtrip_8(vi[j], 0u8);
    }
    assert(v.set_i8_values(reg, vi).get_i8_values(reg, vi.len() as u16) =~= vi);
}

/// Bulk round-trip, 16-bit.
pub proof fn lemma_bulk_roundtrip_16(v: RegistersView, reg: u16, vu: Seq<u16>, vi: Seq<i16>)
    requires
        v.wf(),
        run_in_16(reg, vu.len() as int),
        run_in_16(reg, vi.len() as int),
    ensures
        v.set_u16_values(reg, vu).get_u16_values(reg, vu.len() as u16) == vu,
        v.set_i16_values(reg, vi).get_i16_values(reg, vi.len() as u16) == vi,
{
    assert(v.set_u16_values(reg, vu).get_u16_values(reg, vu.len() as u16) =~= vu);
    assert forall|j: int| 0 <= j < vi.len() implies v.set_i16_values(reg, vi).get_i16_values(
        reg,
        vi.len() as u16,
    )[j] == vi[j] by {
        lemma_sign_roundtrip_16(vi[j], 0u16);
    }
    assert(v.set_i16_values(reg, vi).get_i16_values(reg, vi.len() as u16) =~= vi);
}

/// Bulk round-trip, 32-bit.
pub proof fn lemma_bulk_roundtrip_32(v: RegistersView, reg: u16, vu: Seq<u32>, vi: Seq<i32>)
    requires
        v.wf(),
        run_in_32(reg, vu.len() as int),
        run_in_32(reg, vi.len() as int),
    ensures
        v.set_u32_values(reg, vu).get_u32_values(reg, vu.len() as u16) == vu,
        v.set_i32_values(reg, vi).get_i32_values(reg, vi.len() as u16) == vi,
{
    assert(v.set_u32_values(reg, vu).get_u32_values(reg, vu.len() as u16) =~= vu);
    assert forall|j: int| 0 <= j < vi.len() implies v.set_i32_values(reg, vi).get_i32_values(
        reg,
        vi.len() as u16,
    )[j] == vi[j] by {
        lemma_sign_roundtrip_32(vi[j], 0u32);
    }
    assert(v.set_i32_values(reg, vi).get_i32_values(reg, vi.len() as u16) =~= vi);
}

/// Bulk round-trip, 64-bit.
pub proof fn lemma_bulk_roundtrip_64(v: RegistersView, reg: u16, vu: Seq<u64>, vi: Seq<i64>)
    requires
        v.wf(),
        run_in_64(reg, vu.len() as int),
        run_in_64(reg, vi.len() as int),
    ensures
        v.set_u64_values(reg, vu).get_u64_values(reg, vu.len() as u16) == vu,
        v.set_i64_values(reg, vi).get_i64_values(reg, vi.len() as u16) == vi,
{
    assert(v.set_u64_values(reg, vu).get_u64_values(reg, vu.len() as u16) =~= vu);
    assert forall|j: int| 0 <= j < vi.len() implies v.set_i64_values(reg, vi).get_i64_values(
        reg,
        vi.len() as u16,
    )[j] == vi[j] by {
        lemma_sign_roundtrip_64(vi[j], 0u64);
    }
    assert(v.set_i64_values(reg, vi).get_i64_values(reg, vi.len() as u16) =~= vi);
}

/// Disjointness: bit writes change no register of any numeric width.
pub proof fn lemma_disjoint_bit(v: RegistersView, reg: u16, b: u16)
    requires
        v.wf(),
    ensures
        v.set_bit(reg).get_u8(b) == v.get_u8(b),
        v.set_bit(reg).get_u16(b) == v.get_u16(b),
        v.set_bit(reg).get_u32(b) == v.get_u32(b),
        v.set_bit(reg).get_u64(b) == v.get_u64(b),
        v.clear_bit(reg).get_u8(b) == v.get_u8(b),
        v.clear_bit(reg).get_u16(b) == v.get_u16(b),
        v.clear_bit(reg).get_u32(b) == v.get_u32(b),
        v.clear_bit(reg).get_u64(b) == v.get_u64(b),
{
}

/// Disjointness: 8-bit writes, scalar or bulk, change no bit register and
/// no register of any other numeric width.
pub proof fn lemma_disjoint_8(v: RegistersView, reg: u16, val: u8, vals: Seq<u8>, b: u16)
    requires
        v.wf(),
    ensures
        v.set_u8(reg, val).get_bit(b) == v.get_bit(b),
        v.set_u8(reg, val).get_u16(b) == v.get_u16(b),
        v.set_u8(reg, val).get_u32(b) == v.get_u32(b),
        v.set_u8(reg, val).get_u64(b) == v.get_u64(b),
        v.set_u8_values(reg, vals).get_bit(b) == v.get_bit(b),
        v.set_u8_values(reg, vals).get_u16(b) == v.get_u16(b),
        v.set_u8_values(reg, vals).get_u32(b) == v.get_u32(b),
        v.set_u8_values(reg, vals).get_u64(b) == v.get_u64(b),
{
}

/// Disjointness: 16-bit writes, scalar or bulk, change no bit register and
/// no register of any other numeric width.
pub proof fn lemma_disjoint_16(v: RegistersView, reg: u16, val: u16, vals: Seq<u16>, b: u16)
    requires
        v.wf(),
    ensures
        v.set_u16(reg, val).get_bit(b) == v.get_bit(b),
        v.set_u16(reg, val).get_u8(b) == v.get_u8(b),
        v.set_u16(reg, val).get_u32(b) == v.get_u32(b),
        v.set_u16(reg, val).get_u64(b) == v.get_u64(b),
        v.set_u16_values(reg, vals).get_bit(b) == v.get_bit(b),
        v.set_u16_values(reg, vals).get_u8(b) == v.get_u8(b),
        v.set_u16_values(reg, vals).get_u32(b) == v.get_u32(b),
        v.set_u16_values(reg, vals).get_u64(b) == v.get_u64(b),
{
}

/// Disjointness: 32-bit writes, scalar or bulk, change no bit register and
/// no register of any other numeric width.
pub proof fn lemma_disjoint_32(v: RegistersView, reg: u16, val: u32, vals: Seq<u32>, b: u16)
    requires
        v.wf(),
    ensures
        v.set_u32(reg, val).get_bit(b) == v.get_bit(b),
        v.set_u32(reg, val).get_u8(b) == v.get_u8(b),
        v.set_u32(reg, val).get_u16(b) == v.get_u16(b),
        v.set_u32(reg, val).get_u64(b) == v.get_u64(b),
        v.set_u32_values(reg, vals).get_bit(b) == v.get_bit(b),
        v.set_u32_values(reg, vals).get_u8(b) == v.get_u8(b),
        v.set_u32_values(reg, vals).get_u16(b) == v.get_u16(b),
        v.set_u32_values(reg, vals).get_u64(b) == v.get_u64(b),
{
}

/// Disjointness: 64-bit writes, scalar or bulk, change no bit register and
/// no register of any other numeric width.
pub proof fn lemma_disjoint_64(v: RegistersView, reg: u16, val: u64, vals: Seq<u64>, b: u16)
    requires
        v.wf(),
    ensures
        v.set_u64(reg, val).get_bit(b) == v.get_bit(b),
        v.set_u64(reg, val).get_u8(b) == v.get_u8(b),
        v.set_u64(reg, val).get_u16(b) == v.get_u16(b),
        v.set_u64(reg, val).get_u32(b) == v.get_u32(b),
        v.set_u64_values(reg, vals).get_bit(b) == v.get_bit(b),
        v.set_u64_values(reg, vals).get_u8(b) == v.get_u8(b),
        v.set_u64_values(reg, vals).get_u16(b) == v.get_u16(b),
        v.set_u64_values(reg, vals).get_u32(b) == v.get_u32(b),
{
}

/// Zero initialization: in a freshly constructed table every address reads
/// as `false` or zero under every width's accessor.
pub proof fn lemma_zeroed_reads(reg: u16)
    ensures
        RegistersView::zeroed().get_bit(reg) == false,
        RegistersView::zeroed().get_u8(reg) == 0,
        RegistersView::zeroed().get_i8(reg) == 0,
        RegistersView::zeroed().get_u16(reg) == 0,
        RegistersView::zeroed().get_i16(reg) == 0,
        RegistersView::zeroed().get_u32(reg) == 0,
        RegistersView::zeroed().get_i32(reg) == 0,
        RegistersView::zeroed().get_u64(reg) == 0,
        RegistersView::zeroed().get_i64(reg) == 0,
{
}

/// Boundary rejection: an address outside a width's configured range reads
/// as zero (or `false`) through that width's accessors, and scalar writes
/// through them change nothing at all.
pub proof fn lemma_out_of_range(v: RegistersView, reg: u16, v8: u8, v16: u16, v32: u32, v64: u64)
    ensures
        reg > BIT_REG_MAX ==> v.get_bit(reg) == false && v.set_bit(reg) == v && v.clear_bit(reg)
            == v,
        !(BITS_8_REG_MIN <= reg <= BITS_8_REG_MAX) ==> v.get_u8(reg) == 0 && v.set_u8(reg, v8)
            == v,
        !(BITS_16_REG_MIN <= reg <= BITS_16_REG_MAX) ==> v.get_u16(reg) == 0 && v.set_u16(reg, v16)
            == v,
        !(BITS_32_REG_MIN <= reg <= BITS_32_REG_MAX) ==> v.get_u32(reg) == 0 && v.set_u32(reg, v32)
            == v,
        reg < BITS_64_REG_MIN ==> v.get_u64(reg) == 0 && v.set_u64(reg, v64) == v,
{
}

} // verus!
