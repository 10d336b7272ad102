//! The independent-views register table: every width owns its own full
//! 0..=65535 logical address range, and the same logical address
//! reinterpreted under different widths reaches different, non-overlapping
//! storage. Bulk operations clamp their length to the end of the 16-bit
//! address domain and never fail.

use vstd::prelude::*;

use crate::arena::bit_region;
use crate::arena::byte_region;
use crate::arena::extract;
use crate::arena::lemma_bit_region_frame;
use crate::arena::lemma_bit_region_update;
use crate::arena::lemma_byte_region_frame;
use crate::arena::lemma_byte_region_update;
use crate::arena::lemma_word16_region_frame;
use crate::arena::lemma_word16_region_update;
use crate::arena::lemma_word32_region_frame;
use crate::arena::lemma_word32_region_update;
use crate::arena::lemma_word64_region_frame;
use crate::arena::lemma_word64_region_update;
use crate::arena::lemma_zero_bit;
use crate::arena::load_u16;
use crate::arena::load_u32;
use crate::arena::load_u64;
use crate::arena::read_bit;
use crate::arena::splice;
use crate::arena::store_u16;
use crate::arena::store_u32;
use crate::arena::store_u64;
use crate::arena::word16_region;
use crate::arena::word32_region;
use crate::arena::word64_region;
use crate::arena::write_bit;
use crate::convert::i16_of_u16;
use crate::convert::i16_to_u16;
use crate::convert::i32_of_u32;
use crate::convert::i32_to_u32;
use crate::convert::i64_of_u64;
use crate::convert::i64_to_u64;
use crate::convert::i8_of_u8;
use crate::convert::i8_to_u8;
use crate::convert::lemma_sign_roundtrip_16;
use crate::convert::lemma_sign_roundtrip_32;
use crate::convert::lemma_sign_roundtrip_64;
use crate::convert::lemma_sign_roundtrip_8;
use crate::convert::slice_i16_to_u16;
use crate::convert::slice_i32_to_u32;
use crate::convert::slice_i64_to_u64;
use crate::convert::slice_i8_to_u8;
use crate::convert::u16_of_i16;
use crate::convert::u16_to_i16;
use crate::convert::u32_of_i32;
use crate::convert::u32_to_i32;
use crate::convert::u64_of_i64;
use crate::convert::u64_to_i64;
use crate::convert::u8_of_i8;
use crate::convert::u8_to_i8;
use crate::convert::vec_u16_to_i16;
use crate::convert::vec_u32_to_i32;
use crate::convert::vec_u64_to_i64;
use crate::convert::vec_u8_to_i8;

verus! {

/// Registers per width: one for every 16-bit logical address.
pub const REG_COUNT: usize = 0x10000;

const BIT_REG_OFS: usize = 0;

const BITS_8_REG_OFS: usize = BIT_REG_OFS + REG_COUNT / 8;

const BITS_16_REG_OFS: usize = BITS_8_REG_OFS + REG_COUNT;

const BITS_32_REG_OFS: usize = BITS_16_REG_OFS + 2 * REG_COUNT;

const BITS_64_REG_OFS: usize = BITS_32_REG_OFS + 4 * REG_COUNT;

const TOTAL_BYTES: usize = BITS_64_REG_OFS + 8 * REG_COUNT;

/// How many register slots remain from `addr` to the end of the 16-bit
/// address domain.
pub open spec fn remaining(addr: u16) -> int {
    0x10000 - addr
}

/// The effective length of a bulk operation: the requested length, clamped
/// to the end of the address domain.
pub open spec fn clamped_len(addr: u16, n: int) -> int {
    if n <= remaining(addr) {
        n
    } else {
        remaining(addr)
    }
}

/// The abstract state of a [`ValueTable`]: one sequence of registers per
/// width, each indexed directly by logical address. Signed and unsigned
/// accessors of the same width deliberately share one sequence: they are two
/// reinterpretations of the same storage.
#[verifier::ext_equal]
pub struct ValueTableView {
    pub bits: Seq<bool>,
    pub r8: Seq<u8>,
    pub r16: Seq<u16>,
    pub r32: Seq<u32>,
    pub r64: Seq<u64>,
}

impl ValueTableView {
    pub open spec fn wf(self) -> bool {
        &&& self.bits.len() == 0x10000
        &&& self.r8.len() == 0x10000
        &&& self.r16.len() == 0x10000
        &&& self.r32.len() == 0x10000
        &&& self.r64.len() == 0x10000
    }

    /// The state of a freshly constructed table: every register zero.
    pub open spec fn zeroed() -> Self {
        ValueTableView {
            bits: Seq::new(0x10000, |a: int| false),
            r8: Seq::new(0x10000, |a: int| 0u8),
            r16: Seq::new(0x10000, |a: int| 0u16),
            r32: Seq::new(0x10000, |a: int| 0u32),
            r64: Seq::new(0x10000, |a: int| 0u64),
        }
    }

    pub open spec fn get_bit(self, addr: u16) -> bool {
        self.bits[addr as int]
    }

    pub open spec fn set_bit(self, addr: u16) -> Self {
        ValueTableView { bits: self.bits.update(addr as int, true), ..self }
    }

    pub open spec fn clear_bit(self, addr: u16) -> Self {
        ValueTableView { bits: self.bits.update(addr as int, false), ..self }
    }

    pub open spec fn get_u8(self, addr: u16) -> u8 {
        self.r8[addr as int]
    }

    pub open spec fn set_u8(self, addr: u16, val: u8) -> Self {
        ValueTableView { r8: self.r8.update(addr as int, val), ..self }
    }

    pub open spec fn get_u8s(self, addr: u16, num: u16) -> Seq<u8> {
        extract(self.r8, addr as int, clamped_len(addr, num as int))
    }

    pub open spec fn set_u8s(self, addr: u16, vals: Seq<u8>) -> Self {
        ValueTableView {
            r8: splice(self.r8, addr as int, vals.take(clamped_len(addr, vals.len() as int))),
            ..self
        }
    }

    pub open spec fn get_i8(self, addr: u16) -> i8 {
        i8_of_u8(self.get_u8(addr))
    }

    pub open spec fn set_i8(self, addr: u16, val: i8) -> Self {
        self.set_u8(addr, u8_of_i8(val))
    }

    pub open spec fn get_i8s(self, addr: u16, num: u16) -> Seq<i8> {
        self.get_u8s(addr, num).map_values(|v: u8| i8_of_u8(v))
    }

    pub open spec fn set_i8s(self, addr: u16, vals: Seq<i8>) -> Self {
        self.set_u8s(addr, vals.map_values(|v: i8| u8_of_i8(v)))
    }

    pub open spec fn get_u16(self, addr: u16) -> u16 {
        self.r16[addr as int]
    }

    pub open spec fn set_u16(self, addr: u16, val: u16) -> Self {
        ValueTableView { r16: self.r16.update(addr as int, val), ..self }
    }

    pub open spec fn get_u16s(self, addr: u16, num: u16) -> Seq<u16> {
        extract(self.r16, addr as int, clamped_len(addr, num as int))
    }

    pub open spec fn set_u16s(self, addr: u16, vals: Seq<u16>) -> Self {
        ValueTableView {
            r16: splice(self.r16, addr as int, vals.take(clamped_len(addr, vals.len() as int))),
            ..self
        }
    }

    pub open spec fn get_i16(self, addr: u16) -> i16 {
        i16_of_u16(self.get_u16(addr))
    }

    pub open spec fn set_i16(self, addr: u16, val: i16) -> Self {
        self.set_u16(addr, u16_of_i16(val))
    }

    pub open spec fn get_i16s(self, addr: u16, num: u16) -> Seq<i16> {
        self.get_u16s(addr, num).map_values(|v: u16| i16_of_u16(v))
    }

    pub open spec fn set_i16s(self, addr: u16, vals: Seq<i16>) -> Self {
        self.set_u16s(addr, vals.map_values(|v: i16| u16_of_i16(v)))
    }

    pub open spec fn get_u32(self, addr: u16) -> u32 {
        self.r32[addr as int]
    }

    pub open spec fn set_u32(self, addr: u16, val: u32) -> Self {
        ValueTableView { r32: self.r32.update(addr as int, val), ..self }
    }

    pub open spec fn get_u32s(self, addr: u16, num: u16) -> Seq<u32> {
        extract(self.r32, addr as int, clamped_len(addr, num as int))
    }

    pub open spec fn set_u32s(self, addr: u16, vals: Seq<u32>) -> Self {
        ValueTableView {
            r32: splice(self.r32, addr as int, vals.take(clamped_len(addr, vals.len() as int))),
            ..self
        }
    }

    pub open spec fn get_i32(self, addr: u16) -> i32 {
        i32_of_u32(self.get_u32(addr))
    }

    pub open spec fn set_i32(self, addr: u16, val: i32) -> Self {
        self.set_u32(addr, u32_of_i32(val))
    }

    pub open spec fn get_i32s(self, addr: u16, num: u16) -> Seq<i32> {
        self.get_u32s(addr, num).map_values(|v: u32| i32_of_u32(v))
    }

    pub open spec fn set_i32s(self, addr: u16, vals: Seq<i32>) -> Self {
        self.set_u32s(addr, vals.map_values(|v: i32| u32_of_i32(v)))
    }

    pub open spec fn get_u64(self, addr: u16) -> u64 {
        self.r64[addr as int]
    }

    pub open spec fn set_u64(self, addr: u16, val: u64) -> Self {
        ValueTableView { r64: self.r64.update(addr as int, val), ..self }
    }

    pub open spec fn get_u64s(self, addr: u16, num: u16) -> Seq<u64> {
        extract(self.r64, addr as int, clamped_len(addr, num as int))
    }

    pub open spec fn set_u64s(self, addr: u16, vals: Seq<u64>) -> Self {
        ValueTableView {
            r64: splice(self.r64, addr as int, vals.take(clamped_len(addr, vals.len() as int))),
            ..self
        }
    }

    pub open spec fn get_i64(self, addr: u16) -> i64 {
        i64_of_u64(self.get_u64(addr))
    }

    pub open spec fn set_i64(self, addr: u16, val: i64) -> Self {
        self.set_u64(addr, u64_of_i64(val))
    }

    pub open spec fn get_i64s(self, addr: u16, num: u16) -> Seq<i64> {
        self.get_u64s(addr, num).map_values(|v: u64| i64_of_u64(v))
    }

    pub open spec fn set_i64s(self, addr: u16, vals: Seq<i64>) -> Self {
        self.set_u64s(addr, vals.map_values(|v: i64| u64_of_i64(v)))
    }
}

/// A register table in which every width owns its own full 16-bit address
/// range, backed by one zero-initialized byte arena partitioned into five
/// non-overlapping regions (packed bits, then the 8-, 16-, 32- and 64-bit
/// registers).
pub struct ValueTable {
    mem: Vec<u8>,
}

impl View for ValueTable {
    type V = ValueTableView;

    closed spec fn view(&self) -> ValueTableView {
        ValueTableView {
            bits: bit_region(self.mem@, BIT_REG_OFS as int, 0x10000),
            r8: byte_region(self.mem@, BITS_8_REG_OFS as int, 0x10000),
            r16: word16_region(self.mem@, BITS_16_REG_OFS as int, 0x10000),
            r32: word32_region(self.mem@, BITS_32_REG_OFS as int, 0x10000),
            r64: word64_region(self.mem@, BITS_64_REG_OFS as int, 0x10000),
        }
    }
}

// Proofs that a write confined to one region leaves the other four regions'
// views unchanged.
proof fn lemma_after_bit_write(m1: Seq<u8>, m2: Seq<u8>, lo: int, hi: int)
    requires
        m1.len() == TOTAL_BYTES,
        m2.len() == m1.len(),
        forall|j: int| 0 <= j < m2.len() && !(lo <= j < hi) ==> m2[j] == m1[j],
        BIT_REG_OFS <= lo <= hi,
        hi <= BITS_8_REG_OFS,
    ensures
        byte_region(m2, BITS_8_REG_OFS as int, 0x10000) == byte_region(
            m1,
            BITS_8_REG_OFS as int,
            0x10000,
        ),
        word16_region(m2, BITS_16_REG_OFS as int, 0x10000) == word16_region(
            m1,
            BITS_16_REG_OFS as int,
            0x10000,
        ),
        word32_region(m2, BITS_32_REG_OFS as int, 0x10000) == word32_region(
            m1,
            BITS_32_REG_OFS as int,
            0x10000,
        ),
        word64_region(m2, BITS_64_REG_OFS as int, 0x10000) == word64_region(
            m1,
            BITS_64_REG_OFS as int,
            0x10000,
        ),
{
    lemma_byte_region_frame(m1, m2, BITS_8_REG_OFS as int, 0x10000, lo, hi);
    lemma_word16_region_frame(m1, m2, BITS_16_REG_OFS as int, 0x10000, lo, hi);
    lemma_word32_region_frame(m1, m2, BITS_32_REG_OFS as int, 0x10000, lo, hi);
    lemma_word64_region_frame(m1, m2, BITS_64_REG_OFS as int, 0x10000, lo, hi);
}

proof fn lemma_after_r8_write(m1: Seq<u8>, m2: Seq<u8>, lo: int, hi: int)
    requires
        m1.len() == TOTAL_BYTES,
        m2.len() == m1.len(),
        forall|j: int| 0 <= j < m2.len() && !(lo <= j < hi) ==> m2[j] == m1[j],
        BITS_8_REG_OFS <= lo <= hi,
        hi <= BITS_16_REG_OFS,
    ensures
        bit_region(m2, BIT_REG_OFS as int, 0x10000) == bit_region(
            m1,
            BIT_REG_OFS as int,
            0x10000,
        ),
        word16_region(m2, BITS_16_REG_OFS as int, 0x10000) == word16_region(
            m1,
            BITS_16_REG_OFS as int,
            0x10000,
        ),
        word32_region(m2, BITS_32_REG_OFS as int, 0x10000) == word32_region(
            m1,
            BITS_32_REG_OFS as int,
            0x10000,
        ),
        word64_region(m2, BITS_64_REG_OFS as int, 0x10000) == word64_region(
            m1,
            BITS_64_REG_OFS as int,
            0x10000,
        ),
{
    lemma_bit_region_frame(m1, m2, BIT_REG_OFS as int, 0x10000, lo, hi);
    lemma_word16_region_frame(m1, m2, BITS_16_REG_OFS as int, 0x10000, lo, hi);
    lemma_word32_region_frame(m1, m2, BITS_32_REG_OFS as int, 0x10000, lo, hi);
    lemma_word64_region_frame(m1, m2, BITS_64_REG_OFS as int, 0x10000, lo, hi);
}

proof fn lemma_after_r16_write(m1: Seq<u8>, m2: Seq<u8>, lo: int, hi: int)
    requires
        m1.len() == TOTAL_BYTES,
        m2.len() == m1.len(),
        forall|j: int| 0 <= j < m2.len() && !(lo <= j < hi) ==> m2[j] == m1[j],
        BITS_16_REG_OFS <= lo <= hi,
        hi <= BITS_32_REG_OFS,
    ensures
        bit_region(m2, BIT_REG_OFS as int, 0x10000) == bit_region(
            m1,
            BIT_REG_OFS as int,
            0x10000,
        ),
        byte_region(m2, BITS_8_REG_OFS as int, 0x10000) == byte_region(
            m1,
            BITS_8_REG_OFS as int,
            0x10000,
        ),
        word32_region(m2, BITS_32_REG_OFS as int, 0x10000) == word32_region(
            m1,
            BITS_32_REG_OFS as int,
            0x10000,
        ),
        word64_region(m2, BITS_64_REG_OFS as int, 0x10000) == word64_region(
            m1,
            BITS_64_REG_OFS as int,
            0x10000,
        ),
{
    lemma_bit_region_frame(m1, m2, BIT_REG_OFS as int, 0x10000, lo, hi);
    lemma_byte_region_frame(m1, m2, BITS_8_REG_OFS as int, 0x10000, lo, hi);
    lemma_word32_region_frame(m1, m2, BITS_32_REG_OFS as int, 0x10000, lo, hi);
    lemma_word64_region_frame(m1, m2, BITS_64_REG_OFS as int, 0x10000, lo, hi);
}

proof fn lemma_after_r32_write(m1: Seq<u8>, m2: Seq<u8>, lo: int, hi: int)
    requires
        m1.len() == TOTAL_BYTES,
        m2.len() == m1.len(),
        forall|j: int| 0 <= j < m2.len() && !(lo <= j < hi) ==> m2[j] == m1[j],
        BITS_32_REG_OFS <= lo <= hi,
        hi <= BITS_64_REG_OFS,
    ensures
        bit_region(m2, BIT_REG_OFS as int, 0x10000) == bit_region(
            m1,
            BIT_REG_OFS as int,
            0x10000,
        ),
        byte_region(m2, BITS_8_REG_OFS as int, 0x10000) == byte_region(
            m1,
            BITS_8_REG_OFS as int,
            0x10000,
        ),
        word16_region(m2, BITS_16_REG_OFS as int, 0x10000) == word16_region(
            m1,
            BITS_16_REG_OFS as int,
            0x10000,
        ),
        word64_region(m2, BITS_64_REG_OFS as int, 0x10000) == word64_region(
            m1,
            BITS_64_REG_OFS as int,
            0x10000,
        ),
{
    lemma_bit_region_frame(m1, m2, BIT_REG_OFS as int, 0x10000, lo, hi);
    lemma_byte_region_frame(m1, m2, BITS_8_REG_OFS as int, 0x10000, lo, hi);
    lemma_word16_region_frame(m1, m2, BITS_16_REG_OFS as int, 0x10000, lo, hi);
    lemma_word64_region_frame(m1, m2, BITS_64_REG_OFS as int, 0x10000, lo, hi);
}

proof fn lemma_after_r64_write(m1: Seq<u8>, m2: Seq<u8>, lo: int, hi: int)
    requires
        m1.len() == TOTAL_BYTES,
        m2.len() == m1.len(),
        forall|j: int| 0 <= j < m2.len() && !(lo <= j < hi) ==> m2[j] == m1[j],
        BITS_64_REG_OFS <= lo <= hi,
        hi <= TOTAL_BYTES,
    ensures
        bit_region(m2, BIT_REG_OFS as int, 0x10000) == bit_region(
            m1,
            BIT_REG_OFS as int,
            0x10000,
        ),
        byte_region(m2, BITS_8_REG_OFS as int, 0x10000) == byte_region(
            m1,
            BITS_8_REG_OFS as int,
            0x10000,
        ),
        word16_region(m2, BITS_16_REG_OFS as int, 0x10000) == word16_region(
            m1,
            BITS_16_REG_OFS as int,
            0x10000,
        ),
        word32_region(m2, BITS_32_REG_OFS as int, 0x10000) == word32_region(
            m1,
            BITS_32_REG_OFS as int,
            0x10000,
        ),
{
    lemma_bit_region_frame(m1, m2, BIT_REG_OFS as int, 0x10000, lo, hi);
    lemma_byte_region_frame(m1, m2, BITS_8_REG_OFS as int, 0x10000, lo, hi);
    lemma_word16_region_frame(m1, m2, BITS_16_REG_OFS as int, 0x10000, lo, hi);
    lemma_word32_region_frame(m1, m2, BITS_32_REG_OFS as int, 0x10000, lo, hi);
}

/// The requested run length, clamped to the end of the address domain.
fn clamp_run(addr: u16, n: usize) -> (r: usize)
    ensures
        r as int == clamped_len(addr, n as int),
{
    let avail: usize = 0x10000 - addr as usize;
    if n <= avail {
        n
    } else {
        avail
    }
}

impl ValueTable {
    /// The arena has its full fixed size.
    pub closed spec fn wf(&self) -> bool {
        self.mem@.len() == TOTAL_BYTES
    }

    /// Builds a table whose registers all read as zero or `false`.
    pub fn new() -> (r: Self)
        ensures
            r.wf(),
            r@ == ValueTableView::zeroed(),
    {
        let mut mem: Vec<u8> = Vec::new();
        while mem.len() < TOTAL_BYTES
            invariant
                mem@.len() <= TOTAL_BYTES,
                forall|j: int| 0 <= j < mem@.len() ==> mem@[j] == 0u8,
            decreases TOTAL_BYTES - mem@.len(),
        {
            mem.push(0u8);
        }
        let r = ValueTable { mem };
        proof {
            assert forall|a: int| 0 <= a < 0x10000 implies r@.bits[a] == false by {
                assert(r.mem@[BIT_REG_OFS + a / 8] == 0u8);
                lemma_zero_bit((a % 8) as u8);
            }
            assert forall|a: int| 0 <= a < 0x10000 implies r@.r16[a] == 0u16 by {
                assert(r.mem@[BITS_16_REG_OFS + 2 * a] == 0u8);
                assert(r.mem@[BITS_16_REG_OFS + 2 * a + 1] == 0u8);
            }
            assert forall|a: int| 0 <= a < 0x10000 implies r@.r32[a] == 0u32 by {
                assert(r.mem@[BITS_32_REG_OFS + 4 * a] == 0u8);
                assert(r.mem@[BITS_32_REG_OFS + 4 * a + 1] == 0u8);
                assert(r.mem@[BITS_32_REG_OFS + 4 * a + 2] == 0u8);
                assert(r.mem@[BITS_32_REG_OFS + 4 * a + 3] == 0u8);
            }
            assert forall|a: int| 0 <= a < 0x10000 implies r@.r64[a] == 0u64 by {
                assert(r.mem@[BITS_64_REG_OFS + 8 * a] == 0u8);
                assert(r.mem@[BITS_64_REG_OFS + 8 * a + 1] == 0u8);
                assert(r.mem@[BITS_64_REG_OFS + 8 * a + 2] == 0u8);
                assert(r.mem@[BITS_64_REG_OFS + 8 * a + 3] == 0u8);
                assert(r.mem@[BITS_64_REG_OFS + 8 * a + 4] == 0u8);
                assert(r.mem@[BITS_64_REG_OFS + 8 * a + 5] == 0u8);
                assert(r.mem@[BITS_64_REG_OFS + 8 * a + 6] == 0u8);
                assert(r.mem@[BITS_64_REG_OFS + 8 * a + 7] == 0u8);
            }
            assert(r@.bits =~= ValueTableView::zeroed().bits);
            assert(r@.r8 =~= ValueTableView::zeroed().r8);
            assert(r@.r16 =~= ValueTableView::zeroed().r16);
            assert(r@.r32 =~= ValueTableView::zeroed().r32);
            assert(r@.r64 =~= ValueTableView::zeroed().r64);
            assert(r@ =~= ValueTableView::zeroed());
        }
        r
    }

    /// Reads the single-bit register at `addr`.
    pub fn get_bit(&self, addr: u16) -> (r: bool)
        requires
            self.wf(),
        ensures
            r == self@.get_bit(addr),
    {
        let i: usize = BIT_REG_OFS + (addr / 8) as usize;
        let k: u8 = (addr % 8) as u8;
        read_bit(&self.mem, i, k)
    }

    /// Turns the single-bit register at `addr` on.
    pub fn set_bit(&mut self, addr: u16)
        requires
            old(self).wf(),
        ensures
            final(self).wf(),
            final(self)@ == old(self)@.set_bit(addr),
    {
        let i: usize = BIT_REG_OFS + (addr / 8) as usize;
        let k: u8 = (addr % 8) as u8;
        write_bit(&mut self.mem, i, k, true);
        proof {
            lemma_bit_region_update(
                old(self).mem@,
                self.mem@,
                BIT_REG_OFS as int,
                0x10000,
                addr as int,
                true,
            );
            lemma_after_bit_write(old(self).mem@, self.mem@, i as int, i as int + 1);
            assert(self@ =~= old(self)@.set_bit(addr));
        }
    }

    /// Turns the single-bit register at `addr` off.
    pub fn clear_bit(&mut self, addr: u16)
        requires
            old(self).wf(),
        ensures
            final(self).wf(),
            final(self)@ == old(self)@.clear_bit(addr),
    {
        let i: usize = BIT_REG_OFS + (addr / 8) as usize;
        let k: u8 = (addr % 8) as u8;
        write_bit(&mut self.mem, i, k, false);
        proof {
            lemma_bit_region_update(
                old(self).mem@,
                self.mem@,
                BIT_REG_OFS as int,
                0x10000,
                addr as int,
                false,
            );
            lemma_after_bit_write(old(self).mem@, self.mem@, i as int, i as int + 1);
            assert(self@ =~= old(self)@.clear_bit(addr));
        }
    }

    /// Reads the 8-bit register at `addr`.
    pub fn get_u8(&self, addr: u16) -> (r: u8)
        requires
            self.wf(),
        ensures
            r == self@.get_u8(addr),
    {
        self.mem[BITS_8_REG_OFS + addr as usize]
    }

    /// Writes the 8-bit register at `addr`.
    pub fn set_u8(&mut self, addr: u16, val: u8)
        requires
            old(self).wf(),
        ensures
            final(self).wf(),
            final(self)@ == old(self)@.set_u8(addr, val),
    {
        let i: usize = BITS_8_REG_OFS + addr as usize;
        self.mem.set(i, val);
        proof {
            lemma_byte_region_update(
                old(self).mem@,
                self.mem@,
                BITS_8_REG_OFS as int,
                0x10000,
                addr as int,
                val,
            );
            lemma_after_r8_write(old(self).mem@, self.mem@, i as int, i as int + 1);
            assert(self@ =~= old(self)@.set_u8(addr, val));
        }
    }

    /// Reads the 16-bit register at `addr`.
    pub fn get_u16(&self, addr: u16) -> (r: u16)
        requires
            self.wf(),
        ensures
            r == self@.get_u16(addr),
    {
        load_u16(&self.mem, BITS_16_REG_OFS + 2 * addr as usize)
    }

    /// Writes the 16-bit register at `addr`.
    pub fn set_u16(&mut self, addr: u16, val: u16)
        requires
            old(self).wf(),
        ensures
            final(self).wf(),
            final(self)@ == old(self)@.set_u16(addr, val),
    {
        let i: usize = BITS_16_REG_OFS + 2 * addr as usize;
        store_u16(&mut self.mem, i, val);
        proof {
            lemma_word16_region_update(
                old(self).mem@,
                self.mem@,
                BITS_16_REG_OFS as int,
                0x10000,
                addr as int,
                val,
            );
            lemma_after_r16_write(old(self).mem@, self.mem@, i as int, i as int + 2);
            assert(self@ =~= old(self)@.set_u16(addr, val));
        }
    }

    /// Reads the 32-bit register at `addr`.
    pub fn get_u32(&self, addr: u16) -> (r: u32)
        requires
            self.wf(),
        ensures
            r == self@.get_u32(addr),
    {
        load_u32(&self.mem, BITS_32_REG_OFS + 4 * addr as usize)
    }

    /// Writes the 32-bit register at `addr`.
    pub fn set_u32(&mut self, addr: u16, val: u32)
        requires
            old(self).wf(),
        ensures
            final(self).wf(),
            final(self)@ == old(self)@.set_u32(addr, val),
    {
        let i: usize = BITS_32_REG_OFS + 4 * addr as usize;
        store_u32(&mut self.mem, i, val);
        proof {
            lemma_word32_region_update(
                old(self).mem@,
                self.mem@,
                BITS_32_REG_OFS as int,
                0x10000,
                addr as int,
                val,
            );
            lemma_after_r32_write(old(self).mem@, self.mem@, i as int, i as int + 4);
            assert(self@ =~= old(self)@.set_u32(addr, val));
        }
    }

    /// Reads the 64-bit register at `addr`.
    pub fn get_u64(&self, addr: u16) -> (r: u64)
        requires
            self.wf(),
        ensures
            r == self@.get_u64(addr),
    {
        load_u64(&self.mem, BITS_64_REG_OFS + 8 * addr as usize)
    }

    /// Writes the 64-bit register at `addr`.
    pub fn set_u64(&mut self, addr: u16, val: u64)
        requires
            old(self).wf(),
        ensures
            final(self).wf(),
            final(self)@ == old(self)@.set_u64(addr, val),
    {
        let i: usize = BITS_64_REG_OFS + 8 * addr as usize;
        store_u64(&mut self.mem, i, val);
        proof {
            lemma_word64_region_update(
                old(self).mem@,
                self.mem@,
                BITS_64_REG_OFS as int,
                0x10000,
                addr as int,
                val,
            );
            lemma_after_r64_write(old(self).mem@, self.mem@, i as int, i as int + 8);
            assert(self@ =~= old(self)@.set_u64(addr, val));
        }
    }

    /// Reads the 8-bit register at `addr` as a signed value.
    pub fn get_i8(&self, addr: u16) -> (r: i8)
        requires
            self.wf(),
        ensures
            r == self@.get_i8(addr),
    {
        u8_to_i8(self.get_u8(addr))
    }

    /// Writes the 8-bit register at `addr` with a signed value.
    pub fn set_i8(&mut self, addr: u16, val: i8)
        requires
            old(self).wf(),
        ensures
            final(self).wf(),
            final(self)@ == old(self)@.set_i8(addr, val),
    {
        let v: u8 = i8_to_u8(val);
        self.set_u8(addr, v);
    }

    /// Reads the 16-bit register at `addr` as a signed value.
    pub fn get_i16(&self, addr: u16) -> (r: i16)
        requires
            self.wf(),
        ensures
            r == self@.get_i16(addr),
    {
        u16_to_i16(self.get_u16(addr))
    }

    /// Writes the 16-bit register at `addr` with a signed value.
    pub fn set_i16(&mut self, addr: u16, val: i16)
        requires
            old(self).wf(),
        ensures
            final(self).wf(),
            final(self)@ == old(self)@.set_i16(addr, val),
    {
        let v: u16 = i16_to_u16(val);
        self.set_u16(addr, v);
    }

    /// Reads the 32-bit register at `addr` as a signed value.
    pub fn get_i32(&self, addr: u16) -> (r: i32)
        requires
            self.wf(),
        ensures
            r == self@.get_i32(addr),
    {
        u32_to_i32(self.get_u32(addr))
    }

    /// Writes the 32-bit register at `addr` with a signed value.
    pub fn set_i32(&mut self, addr: u16, val: i32)
        requires
            old(self).wf(),
        ensures
            final(self).wf(),
            final(self)@ == old(self)@.set_i32(addr, val),
    {
        let v: u32 = i32_to_u32(val);
        self.set_u32(addr, v);
    }

    /// Reads the 64-bit register at `addr` as a signed value.
    pub fn get_i64(&self, addr: u16) -> (r: i64)
        requires
            self.wf(),
        ensures
            r == self@.get_i64(addr),
    {
        u64_to_i64(self.get_u64(addr))
    }

    /// Writes the 64-bit register at `addr` with a signed value.
    pub fn set_i64(&mut self, addr: u16, val: i64)
        requires
            old(self).wf(),
        ensures
            final(self).wf(),
            final(self)@ == old(self)@.set_i64(addr, val),
    {
        let v: u64 = i64_to_u64(val);
        self.set_u64(addr, v);
    }

    /// Reads `num` 8-bit registers starting at `addr`; the run is clamped to
    /// the end of the address domain.
    pub fn get_u8s(&self, addr: u16, num: u16) -> (r: Vec<u8>)
        requires
            self.wf(),
        ensures
            r@ == self@.get_u8s(addr, num),
    {
        let n: usize = clamp_run(addr, num as usize);
        let mut out: Vec<u8> = Vec::new();
        let mut i: usize = 0;
        while i < n
            invariant
                self.wf(),
                i <= n,
                n as int == clamped_len(addr, num as int),
                n <= remaining(addr),
                out@.len() == i,
                forall|k: int| 0 <= k < i ==> out@[k] == self@.r8[addr + k],
            decreases n - i,
        {
            let v: u8 = self.get_u8((addr as usize + i) as u16);
            out.push(v);
            i = i + 1;
        }
        proof {
            assert(out@ =~= self@.get_u8s(addr, num));
        }
        out
    }

    /// Writes the values into consecutive 8-bit registers starting at
    /// `addr`; values that would fall past the end of the address domain are
    /// silently dropped, and every other register keeps its value.
    pub fn set_u8s(&mut self, addr: u16, vals: &[u8])
        requires
            old(self).wf(),
        ensures
            final(self).wf(),
            final(self)@ == old(self)@.set_u8s(addr, vals@),
    {
        let n: usize = clamp_run(addr, vals.len());
        let mut i: usize = 0;
        while i < n
            invariant
                self.wf(),
                i <= n,
                n as int == clamped_len(addr, vals@.len() as int),
                n <= vals@.len(),
                n <= remaining(addr),
                self@.bits == old(self)@.bits,
                self@.r16 == old(self)@.r16,
                self@.r32 == old(self)@.r32,
                self@.r64 == old(self)@.r64,
                self@.r8.len() == old(self)@.r8.len(),
                forall|b: int|
                    0 <= b < self@.r8.len() ==> self@.r8[b] == (if addr <= b < addr + i {
                        vals@[b - addr]
                    } else {
                        old(self)@.r8[b]
                    }),
            decreases n - i,
        {
            self.set_u8((addr as usize + i) as u16, vals[i]);
            i = i + 1;
        }
        proof {
            assert(self@.r8 =~= old(self)@.set_u8s(addr, vals@).r8);
            assert(self@ =~= old(self)@.set_u8s(addr, vals@));
        }
    }

    /// Reads `num` 8-bit registers starting at `addr` as signed values; the
    /// run is clamped to the end of the address domain.
    pub fn get_i8s(&self, addr: u16, num: u16) -> (r: Vec<i8>)
        requires
            self.wf(),
        ensures
            r@ == self@.get_i8s(addr, num),
    {
        let u: Vec<u8> = self.get_u8s(addr, num);
        let r = vec_u8_to_i8(&u);
        proof {
            assert(r@ =~= self@.get_i8s(addr, num));
        }
        r
    }

    /// Writes signed values into consecutive 8-bit registers starting at
    /// `addr`, clamped to the end of the address domain.
    pub fn set_i8s(&mut self, addr: u16, vals: &[i8])
        requires
            old(self).wf(),
        ensures
            final(self).wf(),
            final(self)@ == old(self)@.set_i8s(addr, vals@),
    {
        let u: Vec<u8> = slice_i8_to_u8(vals);
        self.set_u8s(addr, u.as_slice());
        proof {
            assert(self@.r8 =~= old(self)@.set_i8s(addr, vals@).r8);
            assert(self@ =~= old(self)@.set_i8s(addr, vals@));
        }
    }

    /// Reads `num` 16-bit registers starting at `addr`; the run is clamped
    /// to the end of the address domain.
    pub fn get_u16s(&self, addr: u16, num: u16) -> (r: Vec<u16>)
        requires
            self.wf(),
        ensures
            r@ == self@.get_u16s(addr, num),
    {
        let n: usize = clamp_run(addr, num as usize);
        let mut out: Vec<u16> = Vec::new();
        let mut i: usize = 0;
        while i < n
            invariant
                self.wf(),
                i <= n,
                n as int == clamped_len(addr, num as int),
                n <= remaining(addr),
                out@.len() == i,
                forall|k: int| 0 <= k < i ==> out@[k] == self@.r16[addr + k],
            decreases n - i,
        {
            let v: u16 = self.get_u16((addr as usize + i) as u16);
            out.push(v);
            i = i + 1;
        }
        proof {
            assert(out@ =~= self@.get_u16s(addr, num));
        }
        out
    }

    /// Writes the values into consecutive 16-bit registers starting at
    /// `addr`; values that would fall past the end of the address domain are
    /// silently dropped, and every other register keeps its value.
    pub fn set_u16s(&mut self, addr: u16, vals: &[u16])
        requires
            old(self).wf(),
        ensures
            final(self).wf(),
            final(self)@ == old(self)@.set_u16s(addr, vals@),
    {
        let n: usize = clamp_run(addr, vals.len());
        let mut i: usize = 0;
        while i < n
            invariant
                self.wf(),
                i <= n,
                n as int == clamped_len(addr, vals@.len() as int),
                n <= vals@.len(),
                n <= remaining(addr),
                self@.bits == old(self)@.bits,
                self@.r8 == old(self)@.r8,
                self@.r32 == old(self)@.r32,
                self@.r64 == old(self)@.r64,
                self@.r16.len() == old(self)@.r16.len(),
                forall|b: int|
                    0 <= b < self@.r16.len() ==> self@.r16[b] == (if addr <= b < addr + i {
                        vals@[b - addr]
                    } else {
                        old(self)@.r16[b]
                    }),
            decreases n - i,
        {
            self.set_u16((addr as usize + i) as u16, vals[i]);
            i = i + 1;
        }
        proof {
            assert(self@.r16 =~= old(self)@.set_u16s(addr, vals@).r16);
            assert(self@ =~= old(self)@.set_u16s(addr, vals@));
        }
    }

    /// Reads `num` 16-bit registers starting at `addr` as signed values; the
    /// run is clamped to the end of the address domain.
    pub fn get_i16s(&self, addr: u16, num: u16) -> (r: Vec<i16>)
        requires
            self.wf(),
        ensures
            r@ == self@.get_i16s(addr, num),
    {
        let u: Vec<u16> = self.get_u16s(addr, num);
        let r = vec_u16_to_i16(&u);
        proof {
            assert(r@ =~= self@.get_i16s(addr, num));
        }
        r
    }

    /// Writes signed values into consecutive 16-bit registers starting at
    /// `addr`, clamped to the end of the address domain.
    pub fn set_i16s(&mut self, addr: u16, vals: &[i16])
        requires
            old(self).wf(),
        ensures
            final(self).wf(),
            final(self)@ == old(self)@.set_i16s(addr, vals@),
    {
        let u: Vec<u16> = slice_i16_to_u16(vals);
        self.set_u16s(addr, u.as_slice());
        proof {
            assert(self@.r16 =~= old(self)@.set_i16s(addr, vals@).r16);
            assert(self@ =~= old(self)@.set_i16s(addr, vals@));
        }
    }

    /// Reads `num` 32-bit registers starting at `addr`; the run is clamped
    /// to the end of the address domain.
    pub fn get_u32s(&self, addr: u16, num: u16) -> (r: Vec<u32>)
        requires
            self.wf(),
        ensures
            r@ == self@.get_u32s(addr, num),
    {
        let n: usize = clamp_run(addr, num as usize);
        let mut out: Vec<u32> = Vec::new();
        let mut i: usize = 0;
        while i < n
            invariant
                self.wf(),
                i <= n,
                n as int == clamped_len(addr, num as int),
                n <= remaining(addr),
                out@.len() == i,
                forall|k: int| 0 <= k < i ==> out@[k] == self@.r32[addr + k],
            decreases n - i,
        {
            let v: u32 = self.get_u32((addr as usize + i) as u16);
            out.push(v);
            i = i + 1;
        }
        proof {
            assert(out@ =~= self@.get_u32s(addr, num));
        }
        out
    }

    /// Writes the values into consecutive 32-bit registers starting at
    /// `addr`; values that would fall past the end of the address domain are
    /// silently dropped, and every other register keeps its value.
    pub fn set_u32s(&mut self, addr: u16, vals: &[u32])
        requires
            old(self).wf(),
        ensures
            final(self).wf(),
            final(self)@ == old(self)@.set_u32s(addr, vals@),
    {
        let n: usize = clamp_run(addr, vals.len());
        let mut i: usize = 0;
        while i < n
            invariant
                self.wf(),
                i <= n,
                n as int == clamped_len(addr, vals@.len() as int),
                n <= vals@.len(),
                n <= remaining(addr),
                self@.bits == old(self)@.bits,
                self@.r8 == old(self)@.r8,
                self@.r16 == old(self)@.r16,
                self@.r64 == old(self)@.r64,
                self@.r32.len() == old(self)@.r32.len(),
                forall|b: int|
                    0 <= b < self@.r32.len() ==> self@.r32[b] == (if addr <= b < addr + i {
                        vals@[b - addr]
                    } else {
                        old(self)@.r32[b]
                    }),
            decreases n - i,
        {
            self.set_u32((addr as usize + i) as u16, vals[i]);
            i = i + 1;
        }
        proof {
            assert(self@.r32 =~= old(self)@.set_u32s(addr, vals@).r32);
            assert(self@ =~= old(self)@.set_u32s(addr, vals@));
        }
    }

    /// Reads `num` 32-bit registers starting at `addr` as signed values; the
    /// run is clamped to the end of the address domain.
    pub fn get_i32s(&self, addr: u16, num: u16) -> (r: Vec<i32>)
        requires
            self.wf(),
        ensures
            r@ == self@.get_i32s(addr, num),
    {
        let u: Vec<u32> = self.get_u32s(addr, num);
        let r = vec_u32_to_i32(&u);
        proof {
            assert(r@ =~= self@.get_i32s(addr, num));
        }
        r
    }

    /// Writes signed values into consecutive 32-bit registers starting at
    /// `addr`, clamped to the end of the address domain.
    pub fn set_i32s(&mut self, addr: u16, vals: &[i32])
        requires
            old(self).wf(),
        ensures
            final(self).wf(),
            final(self)@ == old(self)@.set_i32s(addr, vals@),
    {
        let u: Vec<u32> = slice_i32_to_u32(vals);
        self.set_u32s(addr, u.as_slice());
        proof {
            assert(self@.r32 =~= old(self)@.set_i32s(addr, vals@).r32);
            assert(self@ =~= old(self)@.set_i32s(addr, vals@));
        }
    }

    /// Reads `num` 64-bit registers starting at `addr`; the run is clamped
    /// to the end of the address domain.
    pub fn get_u64s(&self, addr: u16, num: u16) -> (r: Vec<u64>)
        requires
            self.wf(),
        ensures
            r@ == self@.get_u64s(addr, num),
    {
        let n: usize = clamp_run(addr, num as usize);
        let mut out: Vec<u64> = Vec::new();
        let mut i: usize = 0;
        while i < n
            invariant
                self.wf(),
                i <= n,
                n as int == clamped_len(addr, num as int),
                n <= remaining(addr),
                out@.len() == i,
                forall|k: int| 0 <= k < i ==> out@[k] == self@.r64[addr + k],
            decreases n - i,
        {
            let v: u64 = self.get_u64((addr as usize + i) as u16);
            out.push(v);
            i = i + 1;
        }
        proof {
            assert(out@ =~= self@.get_u64s(addr, num));
        }
        out
    }

    /// Writes the values into consecutive 64-bit registers starting at
    /// `addr`; values that would fall past the end of the address domain are
    /// silently dropped, and every other register keeps its value.
    pub fn set_u64s(&mut self, addr: u16, vals: &[u64])
        requires
            old(self).wf(),
        ensures
            final(self).wf(),
            final(self)@ == old(self)@.set_u64s(addr, vals@),
    {
        let n: usize = clamp_run(addr, vals.len());
        let mut i: usize = 0;
        while i < n
            invariant
                self.wf(),
                i <= n,
                n as int == clamped_len(addr, vals@.len() as int),
                n <= vals@.len(),
                n <= remaining(addr),
                self@.bits == old(self)@.bits,
                self@.r8 == old(self)@.r8,
                self@.r16 == old(self)@.r16,
                self@.r32 == old(self)@.r32,
                self@.r64.len() == old(self)@.r64.len(),
                forall|b: int|
                    0 <= b < self@.r64.len() ==> self@.r64[b] == (if addr <= b < addr + i {
                        vals@[b - addr]
                    } else {
                        old(self)@.r64[b]
                    }),
            decreases n - i,
        {
            self.set_u64((addr as usize + i) as u16, vals[i]);
            i = i + 1;
        }
        proof {
            assert(self@.r64 =~= old(self)@.set_u64s(addr, vals@).r64);
            assert(self@ =~= old(self)@.set_u64s(addr, vals@));
        }
    }

    /// Reads `num` 64-bit registers starting at `addr` as signed values; the
    /// run is clamped to the end of the address domain.
    pub fn get_i64s(&self, addr: u16, num: u16) -> (r: Vec<i64>)
        requires
            self.wf(),
        ensures
            r@ == self@.get_i64s(addr, num),
    {
        let u: Vec<u64> = self.get_u64s(addr, num);
        let r = vec_u64_to_i64(&u);
        proof {
            assert(r@ =~= self@.get_i64s(addr, num));
        }
        r
    }

    /// Writes signed values into consecutive 64-bit registers starting at
    /// `addr`, clamped to the end of the address domain.
    pub fn set_i64s(&mut self, addr: u16, vals: &[i64])
        requires
            old(self).wf(),
        ensures
            final(self).wf(),
            final(self)@ == old(self)@.set_i64s(addr, vals@),
    {
        let u: Vec<u64> = slice_i64_to_u64(vals);
        self.set_u64s(addr, u.as_slice());
        proof {
            assert(self@.r64 =~= old(self)@.set_i64s(addr, vals@).r64);
            assert(self@ =~= old(self)@.set_i64s(addr, vals@));
        }
    }
}

// ---------------------------------------------------------------------------
// Laws of the independent-views table
// ---------------------------------------------------------------------------

/// Bit round-trip: after turning a bit on it reads `true`, and after turning
/// it off it reads `false`, at every address of the bit domain.
pub proof fn lemma_bit_roundtrip(v: ValueTableView, addr: u16)
    requires
        v.wf(),
    ensures
        v.set_bit(addr).get_bit(addr) == true,
        v.clear_bit(addr).get_bit(addr) == false,
{
}

/// Scalar round-trip, 8-bit: a value written at a valid address is the value
/// read back, signed or unsigned.
pub proof fn lemma_scalar_roundtrip_8(v: ValueTableView, addr: u16, vu: u8, vi: i8)
    requires
        v.wf(),
    ensures
        v.set_u8(addr, vu).get_u8(addr) == vu,
        v.set_i8(addr, vi).get_i8(addr) == vi,
{
    lemma_sign_roundtrip_8(vi, vu);
}

/// Scalar round-trip, 16-bit.
pub proof fn lemma_scalar_roundtrip_16(v: ValueTableView, addr: u16, vu: u16, vi: i16)
    requires
        v.wf(),
    ensures
        v.set_u16(addr, vu).get_u16(addr) == vu,
        v.set_i16(addr, vi).get_i16(addr) == vi,
{
    lemma_sign_roundtrip_16(vi, vu);
}

/// Scalar round-trip, 32-bit.
pub proof fn lemma_scalar_roundtrip_32(v: ValueTableView, addr: u16, vu: u32, vi: i32)
    requires
        v.wf(),
    ensures
        v.set_u32(addr, vu).get_u32(addr) == vu,
        v.set_i32(addr, vi).get_i32(addr) == vi,
{
    lemma_sign_roundtrip_32(vi, vu);
}

/// Scalar round-trip, 64-bit.
pub proof fn lemma_scalar_roundtrip_64(v: ValueTableView, addr: u16, vu: u64, vi: i64)
    requires
        v.wf(),
    ensures
        v.set_u64(addr, vu).get_u64(addr) == vu,
        v.set_i64(addr, vi).get_i64(addr) == vi,
{
    lemma_sign_roundtrip_64(vi, vu);
}

/// Bulk round-trip, 8-bit: writing a run that lies fully inside the address
/// domain and reading back a run of the same length yields exactly the
/// written values. (A run of the full 65536 registers cannot be requested
/// back, since the read count is itself a 16-bit value.)
pub proof fn lemma_bulk_roundtrip_8(v: ValueTableView, addr: u16, vu: Seq<u8>, vi: Seq<i8>)
    requires
        v.wf(),
        addr + vu.len() <= 0x10000,
        vu.len() <= 0xFFFF,
        addr + vi.len() <= 0x10000,
        vi.len() <= 0xFFFF,
    ensures
        v.set_u8s(addr, vu).get_u8s(addr, vu.len() as u16) == vu,
        v.set_i8s(addr, vi).get_i8s(addr, vi.len() as u16) == vi,
{
    assert(v.set_u8s(addr, vu).get_u8s(addr, vu.len() as u16) =~= vu);
    assert forall|j: int| 0 <= j < vi.len() implies v.set_i8s(addr, vi).get_i8s(
        addr,
        vi.len() as u16,
    )[j] == vi[j] by {
        lemma_sign_roundtrip_8(vi[j], 0u8);
    }
    assert(v.set_i8s(addr, vi).get_i8s(addr, vi.len() as u16) =~= vi);
}

/// Bulk round-trip, 16-bit.
pub proof fn lemma_bulk_roundtrip_16(v: ValueTableView, addr: u16, vu: Seq<u16>, vi: Seq<i16>)
    requires
        v.wf(),
        addr + vu.len() <= 0x10000,
        vu.len() <= 0xFFFF,
        addr + vi.len() <= 0x10000,
        vi.len() <= 0xFFFF,
    ensures
        v.set_u16s(addr, vu).get_u16s(addr, vu.len() as u16) == vu,
        v.set_i16s(addr, vi).get_i16s(addr, vi.len() as u16) == vi,
{
    assert(v.set_u16s(addr, vu).get_u16s(addr, vu.len() as u16) =~= vu);
    assert forall|j: int| 0 <= j < vi.len() implies v.set_i16s(addr, vi).get_i16s(
        addr,
        vi.len() as u16,
    )[j] == vi[j] by {
        lemma_sign_roundtrip_16(vi[j], 0u16);
    }
    assert(v.set_i16s(addr, vi).get_i16s(addr, vi.len() as u16) =~= vi);
}

/// Bulk round-trip, 32-bit.
pub proof fn lemma_bulk_roundtrip_32(v: ValueTableView, addr: u16, vu: Seq<u32>, vi: Seq<i32>)
    requires
        v.wf(),
        addr + vu.len() <= 0x10000,
        vu.len() <= 0xFFFF,
        addr + vi.len() <= 0x10000,
        vi.len() <= 0xFFFF,
    ensures
        v.set_u32s(addr, vu).get_u32s(addr, vu.len() as u16) == vu,
        v.set_i32s(addr, vi).get_i32s(addr, vi.len() as u16) == vi,
{
    assert(v.set_u32s(addr, vu).get_u32s(addr, vu.len() as u16) =~= vu);
    assert forall|j: int| 0 <= j < vi.len() implies v.set_i32s(addr, vi).get_i32s(
        addr,
        vi.len() as u16,
    )[j] == vi[j] by {
        lemma_sign_roundtrip_32(vi[j], 0u32);
    }
    assert(v.set_i32s(addr, vi).get_i32s(addr, vi.len() as u16) =~= vi);
}

/// Bulk round-trip, 64-bit.
pub proof fn lemma_bulk_roundtrip_64(v: ValueTableView, addr: u16, vu: Seq<u64>, vi: Seq<i64>)
    requires
        v.wf(),
        addr + vu.len() <= 0x10000,
        vu.len() <= 0xFFFF,
        addr + vi.len() <= 0x10000,
        vi.len() <= 0xFFFF,
    ensures
        v.set_u64s(addr, vu).get_u64s(addr, vu.len() as u16) == vu,
        v.set_i64s(addr, vi).get_i64s(addr, vi.len() as u16) == vi,
{
    assert(v.set_u64s(addr, vu).get_u64s(addr, vu.len() as u16) =~= vu);
    assert forall|j: int| 0 <= j < vi.len() implies v.set_i64s(addr, vi).get_i64s(
        addr,
        vi.len() as u16,
    )[j] == vi[j] by {
        lemma_sign_roundtrip_64(vi[j], 0u64);
    }
    assert(v.set_i64s(addr, vi).get_i64s(addr, vi.len() as u16) =~= vi);
}

/// Truncation at the domain end: when a written run would extend past the
/// last 16-bit address, only the registers up to the end of the domain are
/// written, and a read of at least that length returns exactly the values
/// that were kept.
pub proof fn lemma_bulk_truncation_16(v: ValueTableView, addr: u16, vals: Seq<u16>, num: u16)
    requires
        v.wf(),
        vals.len() >= remaining(addr),
        num as int >= remaining(addr),
    ensures
        v.set_u16s(addr, vals).get_u16s(addr, num) == vals.take(remaining(addr)),
{
    assert(v.set_u16s(addr, vals).get_u16s(addr, num) =~= vals.take(remaining(addr)));
}

/// Disjointness: bit writes change no register of any numeric width.
pub proof fn lemma_disjoint_bit(v: ValueTableView, addr: u16, b: u16)
    requires
        v.wf(),
    ensures
        v.set_bit(addr).get_u8(b) == v.get_u8(b),
        v.set_bit(addr).get_u16(b) == v.get_u16(b),
        v.set_bit(addr).get_u32(b) == v.get_u32(b),
        v.set_bit(addr).get_u64(b) == v.get_u64(b),
        v.clear_bit(addr).get_u8(b) == v.get_u8(b),
        v.clear_bit(addr).get_u16(b) == v.get_u16(b),
        v.clear_bit(addr).get_u32(b) == v.get_u32(b),
        v.clear_bit(addr).get_u64(b) == v.get_u64(b),
{
}

/// Disjointness: 8-bit writes, scalar or bulk, change no bit register and no
/// register of any other numeric width.
pub proof fn lemma_disjoint_8(v: ValueTableView, addr: u16, val: u8, vals: Seq<u8>, b: u16)
    requires
        v.wf(),
    ensures
        v.set_u8(addr, val).get_bit(b) == v.get_bit(b),
        v.set_u8(addr, val).get_u16(b) == v.get_u16(b),
        v.set_u8(addr, val).get_u32(b) == v.get_u32(b),
        v.set_u8(addr, val).get_u64(b) == v.get_u64(b),
        v.set_u8s(addr, vals).get_bit(b) == v.get_bit(b),
        v.set_u8s(addr, vals).get_u16(b) == v.get_u16(b),
        v.set_u8s(addr, vals).get_u32(b) == v.get_u32(b),
        v.set_u8s(addr, vals).get_u64(b) == v.get_u64(b),
{
}

/// Disjointness: 16-bit writes, scalar or bulk, change no bit register and
/// no register of any other numeric width.
pub proof fn lemma_disjoint_16(v: ValueTableView, addr: u16, val: u16, vals: Seq<u16>, b: u16)
    requires
        v.wf(),
    ensures
        v.set_u16(addr, val).get_bit(b) == v.get_bit(b),
        v.set_u16(addr, val).get_u8(b) == v.get_u8(b),
        v.set_u16(addr, val).get_u32(b) == v.get_u32(b),
        v.set_u16(addr, val).get_u64(b) == v.get_u64(b),
        v.set_u16s(addr, vals).get_bit(b) == v.get_bit(b),
        v.set_u16s(addr, vals).get_u8(b) == v.get_u8(b),
        v.set_u16s(addr, vals).get_u32(b) == v.get_u32(b),
        v.set_u16s(addr, vals).get_u64(b) == v.get_u64(b),
{
}

/// Disjointness: 32-bit writes, scalar or bulk, change no bit register and
/// no register of any other numeric width.
pub proof fn lemma_disjoint_32(v: ValueTableView, addr: u16, val: u32, vals: Seq<u32>, b: u16)
    requires
        v.wf(),
    ensures
        v.set_u32(addr, val).get_bit(b) == v.get_bit(b),
        v.set_u32(addr, val).get_u8(b) == v.get_u8(b),
        v.set_u32(addr, val).get_u16(b) == v.get_u16(b),
        v.set_u32(addr, val).get_u64(b) == v.get_u64(b),
        v.set_u32s(addr, vals).get_bit(b) == v.get_bit(b),
        v.set_u32s(addr, vals).get_u8(b) == v.get_u8(b),
        v.set_u32s(addr, vals).get_u16(b) == v.get_u16(b),
        v.set_u32s(addr, vals).get_u64(b) == v.get_u64(b),
{
}

/// Disjointness: 64-bit writes, scalar or bulk, change no bit register and
/// no register of any other numeric width.
pub proof fn lemma_disjoint_64(v: ValueTableView, addr: u16, val: u64, vals: Seq<u64>, b: u16)
    requires
        v.wf(),
    ensures
        v.set_u64(addr, val).get_bit(b) == v.get_bit(b),
        v.set_u64(addr, val).get_u8(b) == v.get_u8(b),
        v.set_u64(addr, val).get_u16(b) == v.get_u16(b),
        v.set_u64(addr, val).get_u32(b) == v.get_u32(b),
        v.set_u64s(addr, vals).get_bit(b) == v.get_bit(b),
        v.set_u64s(addr, vals).get_u8(b) == v.get_u8(b),
        v.set_u64s(addr, vals).get_u16(b) == v.get_u16(b),
        v.set_u64s(addr, vals).get_u32(b) == v.get_u32(b),
{
}

/// Zero initialization: in a freshly constructed table every bit reads
/// `false` and every register of every numeric width reads zero.
pub proof fn lemma_zeroed_reads(addr: u16)
    ensures
        ValueTableView::zeroed().get_bit(addr) == false,
        ValueTableView::zeroed().get_u8(addr) == 0,
        ValueTableView::zeroed().get_i8(addr) == 0,
        ValueTableView::zeroed().get_u16(addr) == 0,
        ValueTableView::zeroed().get_i16(addr) == 0,
        ValueTableView::zeroed().get_u32(addr) == 0,
        ValueTableView::zeroed().get_i32(addr) == 0,
        ValueTableView::zeroed().get_u64(addr) == 0,
        ValueTableView::zeroed().get_i64(addr) == 0,
{
}

} // verus!
