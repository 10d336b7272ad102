//! Byte-level primitives for the register arena: packed single bits and
//! little-endian words of 2, 4 and 8 bytes, read and written at computed
//! byte offsets inside one `Vec<u8>` block, together with the spec-level
//! region views and the frame lemmas the accessor proofs are built on.

use vstd::prelude::*;

verus! {

// ---------------------------------------------------------------------------
// Packed bits inside one byte
// ---------------------------------------------------------------------------

/// Bit `k` of byte `b` (bit 0 is the least significant one).
pub open spec fn nth_bit(b: u8, k: u8) -> bool {
    b & (1u8 << k) != 0
}

pub proof fn lemma_or_bit(b: u8, k: u8, j: u8)
    by (bit_vector)
    requires
        k < 8,
        j < 8,
    ensures
        nth_bit(b | (1u8 << k), j) == (j == k || nth_bit(b, j)),
{
}

pub proof fn lemma_andnot_bit(b: u8, k: u8, j: u8)
    by (bit_vector)
    requires
        k < 8,
        j < 8,
    ensures
        nth_bit(b & !(1u8 << k), j) == (j != k && nth_bit(b, j)),
{
}

pub proof fn lemma_zero_bit(k: u8)
    by (bit_vector)
    requires
        k < 8,
    ensures
        !nth_bit(0u8, k),
{
}

/// Reads bit `k` of the byte at index `i`.
pub fn read_bit(mem: &Vec<u8>, i: usize, k: u8) -> (r: bool)
    requires
        i < mem.len(),
        k < 8,
    ensures
        r == nth_bit(mem@[i as int], k),
{
    mem[i] & (1u8 << k) != 0
}

/// Sets (`t == true`) or clears (`t == false`) bit `k` of the byte at
/// index `i`, leaving every other bit of the arena as it was.
pub fn write_bit(mem: &mut Vec<u8>, i: usize, k: u8, t: bool)
    requires
        i < old(mem).len(),
        k < 8,
    ensures
        final(mem)@.len() == old(mem)@.len(),
        forall|j: int| 0 <= j < old(mem)@.len() && j != i ==> final(mem)@[j] == old(mem)@[j],
        nth_bit(final(mem)@[i as int], k) == t,
        forall|k2: u8|
            k2 < 8 && k2 != k ==> nth_bit(final(mem)@[i as int], k2) == nth_bit(
                old(mem)@[i as int],
                k2,
            ),
{
    let b: u8 = mem[i];
    let nb: u8 = if t {
        b | (1u8 << k)
    } else {
        b & !(1u8 << k)
    };
    mem.set(i, nb);
    proof {
        if t {
            lemma_or_bit(b, k, k);
        } else {
            lemma_andnot_bit(b, k, k);
        }
        assert forall|k2: u8| k2 < 8 && k2 != k implies nth_bit(mem@[i as int], k2) == nth_bit(
            old(mem)@[i as int],
            k2,
        ) by {
            if t {
                lemma_or_bit(b, k, k2);
            } else {
                lemma_andnot_bit(b, k, k2);
            }
        }
    }
}

// ---------------------------------------------------------------------------
// Little-endian words at byte offsets
// ---------------------------------------------------------------------------

/// The value of the 2-byte little-endian word starting at byte `i`.
pub open spec fn u16_at(s: Seq<u8>, i: int) -> int {
    s[i] + 0x100 * s[i + 1]
}

/// The value of the 4-byte little-endian word starting at byte `i`.
pub open spec fn u32_at(s: Seq<u8>, i: int) -> int {
    u16_at(s, i) + 0x10000 * u16_at(s, i + 2)
}

/// The value of the 8-byte little-endian word starting at byte `i`.
pub open spec fn u64_at(s: Seq<u8>, i: int) -> int {
    u32_at(s, i) + 0x1_0000_0000 * u32_at(s, i + 4)
}

pub fn load_u16(mem: &Vec<u8>, i: usize) -> (r: u16)
    requires
        i + 2 <= mem.len(),
    ensures
        r as int == u16_at(mem@, i as int),
{
    let lo: u16 = mem[i] as u16;
    let hi: u16 = mem[i + 1] as u16;
    lo + 0x100 * hi
}

pub fn store_u16(mem: &mut Vec<u8>, i: usize, v: u16)
    requires
        i + 2 <= old(mem).len(),
    ensures
        final(mem)@.len() == old(mem)@.len(),
        forall|j: int| 0 <= j < old(mem)@.len() && !(i <= j < i + 2) ==> final(mem)@[j] == old(
            mem,
        )@[j],
        u16_at(final(mem)@, i as int) == v,
{
    mem.set(i, (v % 0x100) as u8);
    mem.set(i + 1, (v / 0x100) as u8);
}

pub fn load_u32(mem: &Vec<u8>, i: usize) -> (r: u32)
    requires
        i + 4 <= mem.len(),
    ensures
        r as int == u32_at(mem@, i as int),
{
    let lo: u32 = load_u16(mem, i) as u32;
    let hi: u32 = load_u16(mem, i + 2) as u32;
    lo + 0x10000 * hi
}

pub fn store_u32(mem: &mut Vec<u8>, i: usize, v: u32)
    requires
        i + 4 <= old(mem).len(),
    ensures
        final(mem)@.len() == old(mem)@.len(),
        forall|j: int| 0 <= j < old(mem)@.len() && !(i <= j < i + 4) ==> final(mem)@[j] == old(
            mem,
        )@[j],
        u32_at(final(mem)@, i as int) == v,
{
    store_u16(mem, i, (v % 0x10000) as u16);
    let ghost m1 = mem@;
    store_u16(mem, i + 2, (v / 0x10000) as u16);
    proof {
        assert(mem@[i as int] == m1[i as int]);
        assert(mem@[i as int + 1] == m1[i as int + 1]);
        assert(u16_at(mem@, i as int) == v % 0x10000);
    }
}

pub fn load_u64(mem: &Vec<u8>, i: usize) -> (r: u64)
    requires
        i + 8 <= mem.len(),
    ensures
        r as int == u64_at(mem@, i as int),
{
    let lo: u64 = load_u32(mem, i) as u64;
    let hi: u64 = load_u32(mem, i + 4) as u64;
    lo + 0x1_0000_0000 * hi
}

pub fn store_u64(mem: &mut Vec<u8>, i: usize, v: u64)
    requires
        i + 8 <= old(mem).len(),
    ensures
        final(mem)@.len() == old(mem)@.len(),
        forall|j: int| 0 <= j < old(mem)@.len() && !(i <= j < i + 8) ==> final(mem)@[j] == old(
            mem,
        )@[j],
        u64_at(final(mem)@, i as int) == v,
{
    store_u32(mem, i, (v % 0x1_0000_0000) as u32);
    let ghost m1 = mem@;
    store_u32(mem, i + 4, (v / 0x1_0000_0000) as u32);
    proof {
        assert(mem@[i as int] == m1[i as int]);
        assert(mem@[i as int + 1] == m1[i as int + 1]);
        assert(mem@[i as int + 2] == m1[i as int + 2]);
        assert(mem@[i as int + 3] == m1[i as int + 3]);
        assert(u32_at(mem@, i as int) == v % 0x1_0000_0000);
    }
}

// ---------------------------------------------------------------------------
// Region views: one width's registers, as a sequence over the arena bytes
// ---------------------------------------------------------------------------

/// The `n` single-bit registers packed 8 per byte from byte offset `ofs` on.
pub open spec fn bit_region(s: Seq<u8>, ofs: int, n: nat) -> Seq<bool> {
    Seq::new(n, |a: int| nth_bit(s[ofs + a / 8], (a % 8) as u8))
}

/// The `n` byte registers from byte offset `ofs` on.
pub open spec fn byte_region(s: Seq<u8>, ofs: int, n: nat) -> Seq<u8> {
    Seq::new(n, |a: int| s[ofs + a])
}

/// The `n` 16-bit registers from byte offset `ofs` on.
pub open spec fn word16_region(s: Seq<u8>, ofs: int, n: nat) -> Seq<u16> {
    Seq::new(n, |a: int| u16_at(s, ofs + 2 * a) as u16)
}

/// The `n` 32-bit registers from byte offset `ofs` on.
pub open spec fn word32_region(s: Seq<u8>, ofs: int, n: nat) -> Seq<u32> {
    Seq::new(n, |a: int| u32_at(s, ofs + 4 * a) as u32)
}

/// The `n` 64-bit registers from byte offset `ofs` on.
pub open spec fn word64_region(s: Seq<u8>, ofs: int, n: nat) -> Seq<u64> {
    Seq::new(n, |a: int| u64_at(s, ofs + 8 * a) as u64)
}

// ---------------------------------------------------------------------------
// Frame lemmas: a region is untouched by writes outside its bytes
// ---------------------------------------------------------------------------

pub proof fn lemma_bit_region_frame(s1: Seq<u8>, s2: Seq<u8>, ofs: int, n: nat, lo: int, hi: int)
    requires
        s1.len() == s2.len(),
        forall|j: int| 0 <= j < s2.len() && !(lo <= j < hi) ==> s2[j] == s1[j],
        n % 8 == 0,
        0 <= ofs,
        ofs + n / 8 <= s1.len(),
        hi <= ofs || ofs + n / 8 <= lo,
    ensures
        bit_region(s2, ofs, n) == bit_region(s1, ofs, n),
{
    assert forall|a: int| 0 <= a < n implies bit_region(s2, ofs, n)[a] == bit_region(
        s1,
        ofs,
        n,
    )[a] by {
        assert(0 <= a / 8 < n / 8);
        assert(s2[ofs + a / 8] == s1[ofs + a / 8]);
    }
    assert(bit_region(s2, ofs, n) =~= bit_region(s1, ofs, n));
}

pub proof fn lemma_byte_region_frame(s1: Seq<u8>, s2: Seq<u8>, ofs: int, n: nat, lo: int, hi: int)
    requires
        s1.len() == s2.len(),
        forall|j: int| 0 <= j < s2.len() && !(lo <= j < hi) ==> s2[j] == s1[j],
        0 <= ofs,
        ofs + n <= s1.len(),
        hi <= ofs || ofs + n <= lo,
    ensures
        byte_region(s2, ofs, n) == byte_region(s1, ofs, n),
{
    assert(byte_region(s2, ofs, n) =~= byte_region(s1, ofs, n));
}

pub proof fn lemma_word16_region_frame(s1: Seq<u8>, s2: Seq<u8>, ofs: int, n: nat, lo: int, hi: int)
    requires
        s1.len() == s2.len(),
        forall|j: int| 0 <= j < s2.len() && !(lo <= j < hi) ==> s2[j] == s1[j],
        0 <= ofs,
        ofs + 2 * n <= s1.len(),
        hi <= ofs || ofs + 2 * n <= lo,
    ensures
        word16_region(s2, ofs, n) == word16_region(s1, ofs, n),
{
    assert forall|a: int| 0 <= a < n implies word16_region(s2, ofs, n)[a] == word16_region(
        s1,
        ofs,
        n,
    )[a] by {
        assert(s2[ofs + 2 * a] == s1[ofs + 2 * a]);
        assert(s2[ofs + 2 * a + 1] == s1[ofs + 2 * a + 1]);
    }
    assert(word16_region(s2, ofs, n) =~= word16_region(s1, ofs, n));
}

pub proof fn lemma_word32_region_frame(s1: Seq<u8>, s2: Seq<u8>, ofs: int, n: nat, lo: int, hi: int)
    requires
        s1.len() == s2.len(),
        forall|j: int| 0 <= j < s2.len() && !(lo <= j < hi) ==> s2[j] == s1[j],
        0 <= ofs,
        ofs + 4 * n <= s1.len(),
        hi <= ofs || ofs + 4 * n <= lo,
    ensures
        word32_region(s2, ofs, n) == word32_region(s1, ofs, n),
{
    assert forall|a: int| 0 <= a < n implies word32_region(s2, ofs, n)[a] == word32_region(
        s1,
        ofs,
        n,
    )[a] by {
        assert(s2[ofs + 4 * a] == s1[ofs + 4 * a]);
        assert(s2[ofs + 4 * a + 1] == s1[ofs + 4 * a + 1]);
        assert(s2[ofs + 4 * a + 2] == s1[ofs + 4 * a + 2]);
        assert(s2[ofs + 4 * a + 3] == s1[ofs + 4 * a + 3]);
    }
    assert(word32_region(s2, ofs, n) =~= word32_region(s1, ofs, n));
}

pub proof fn lemma_word64_region_frame(s1: Seq<u8>, s2: Seq<u8>, ofs: int, n: nat, lo: int, hi: int)
    requires
        s1.len() == s2.len(),
        forall|j: int| 0 <= j < s2.len() && !(lo <= j < hi) ==> s2[j] == s1[j],
        0 <= ofs,
        ofs + 8 * n <= s1.len(),
        hi <= ofs || ofs + 8 * n <= lo,
    ensures
        word64_region(s2, ofs, n) == word64_region(s1, ofs, n),
{
    assert forall|a: int| 0 <= a < n implies word64_region(s2, ofs, n)[a] == word64_region(
        s1,
        ofs,
        n,
    )[a] by {
        assert(s2[ofs + 8 * a] == s1[ofs + 8 * a]);
        assert(s2[ofs + 8 * a + 1] == s1[ofs + 8 * a + 1]);
        assert(s2[ofs + 8 * a + 2] == s1[ofs + 8 * a + 2]);
        assert(s2[ofs + 8 * a + 3] == s1[ofs + 8 * a + 3]);
        assert(s2[ofs + 8 * a + 4] == s1[ofs + 8 * a + 4]);
        assert(s2[ofs + 8 * a + 5] == s1[ofs + 8 * a + 5]);
        assert(s2[ofs + 8 * a + 6] == s1[ofs + 8 * a + 6]);
        assert(s2[ofs + 8 * a + 7] == s1[ofs + 8 * a + 7]);
    }
    assert(word64_region(s2, ofs, n) =~= word64_region(s1, ofs, n));
}

// ---------------------------------------------------------------------------
// Update lemmas: a write inside a region updates exactly one register
// ---------------------------------------------------------------------------

pub proof fn lemma_bit_region_update(
    s1: Seq<u8>,
    s2: Seq<u8>,
    ofs: int,
    n: nat,
    a: int,
    t: bool,
)
    requires
        s1.len() == s2.len(),
        n % 8 == 0,
        0 <= ofs,
        ofs + n / 8 <= s1.len(),
        0 <= a < n,
        forall|j: int| 0 <= j < s2.len() && j != ofs + a / 8 ==> s2[j] == s1[j],
        nth_bit(s2[ofs + a / 8], (a % 8) as u8) == t,
        forall|k: u8|
            k < 8 && k != a % 8 ==> #[trigger] nth_bit(s2[ofs + a / 8], k) == nth_bit(
                s1[ofs + a / 8],
                k,
            ),
    ensures
        bit_region(s2, ofs, n) == bit_region(s1, ofs, n).update(a, t),
{
    assert forall|b: int| 0 <= b < n implies bit_region(s2, ofs, n)[b] == bit_region(
        s1,
        ofs,
        n,
    ).update(a, t)[b] by {
        assert(0 <= b / 8 < n / 8);
        if b == a {
        } else if b / 8 == a / 8 {
            assert(b % 8 != a % 8);
            assert(nth_bit(s2[ofs + b / 8], (b % 8) as u8) == nth_bit(
                s1[ofs + b / 8],
                (b % 8) as u8,
            ));
        } else {
            assert(s2[ofs + b / 8] == s1[ofs + b / 8]);
        }
    }
    assert(bit_region(s2, ofs, n) =~= bit_region(s1, ofs, n).update(a, t));
}

pub proof fn lemma_byte_region_update(s1: Seq<u8>, s2: Seq<u8>, ofs: int, n: nat, a: int, v: u8)
    requires
        s1.len() == s2.len(),
        0 <= ofs,
        ofs + n <= s1.len(),
        0 <= a < n,
        forall|j: int| 0 <= j < s2.len() && j != ofs + a ==> s2[j] == s1[j],
        s2[ofs + a] == v,
    ensures
        byte_region(s2, ofs, n) == byte_region(s1, ofs, n).update(a, v),
{
    assert(byte_region(s2, ofs, n) =~= byte_region(s1, ofs, n).update(a, v));
}

pub proof fn lemma_word16_region_update(s1: Seq<u8>, s2: Seq<u8>, ofs: int, n: nat, a: int, v: u16)
    requires
        s1.len() == s2.len(),
        0 <= ofs,
        ofs + 2 * n <= s1.len(),
        0 <= a < n,
        forall|j: int|
            0 <= j < s2.len() && !(ofs + 2 * a <= j < ofs + 2 * a + 2) ==> s2[j] == s1[j],
        u16_at(s2, ofs + 2 * a) == v,
    ensures
        word16_region(s2, ofs, n) == word16_region(s1, ofs, n).update(a, v),
{
    assert forall|b: int| 0 <= b < n implies word16_region(s2, ofs, n)[b] == word16_region(
        s1,
        ofs,
        n,
    ).update(a, v)[b] by {
        if b != a {
            assert(s2[ofs + 2 * b] == s1[ofs + 2 * b]);
            assert(s2[ofs + 2 * b + 1] == s1[ofs + 2 * b + 1]);
        }
    }
    assert(word16_region(s2, ofs, n) =~= word16_region(s1, ofs, n).update(a, v));
}

pub proof fn lemma_word32_region_update(s1: Seq<u8>, s2: Seq<u8>, ofs: int, n: nat, a: int, v: u32)
    requires
        s1.len() == s2.len(),
        0 <= ofs,
        ofs + 4 * n <= s1.len(),
        0 <= a < n,
        forall|j: int|
            0 <= j < s2.len() && !(ofs + 4 * a <= j < ofs + 4 * a + 4) ==> s2[j] == s1[j],
        u32_at(s2, ofs + 4 * a) == v,
    ensures
        word32_region(s2, ofs, n) == word32_region(s1, ofs, n).update(a, v),
{
    assert forall|b: int| 0 <= b < n implies word32_region(s2, ofs, n)[b] == word32_region(
        s1,
        ofs,
        n,
    ).update(a, v)[b] by {
        if b != a {
            assert(s2[ofs + 4 * b] == s1[ofs + 4 * b]);
            assert(s2[ofs + 4 * b + 1] == s1[ofs + 4 * b + 1]);
            assert(s2[ofs + 4 * b + 2] == s1[ofs + 4 * b + 2]);
            assert(s2[ofs + 4 * b + 3] == s1[ofs + 4 * b + 3]);
        }
    }
    assert(word32_region(s2, ofs, n) =~= word32_region(s1, ofs, n).update(a, v));
}

pub proof fn lemma_word64_region_update(s1: Seq<u8>, s2: Seq<u8>, ofs: int, n: nat, a: int, v: u64)
    requires
        s1.len() == s2.len(),
        0 <= ofs,
        ofs + 8 * n <= s1.len(),
        0 <= a < n,
        forall|j: int|
            0 <= j < s2.len() && !(ofs + 8 * a <= j < ofs + 8 * a + 8) ==> s2[j] == s1[j],
        u64_at(s2, ofs + 8 * a) == v,
    ensures
        word64_region(s2, ofs, n) == word64_region(s1, ofs, n).update(a, v),
{
    assert forall|b: int| 0 <= b < n implies word64_region(s2, ofs, n)[b] == word64_region(
        s1,
        ofs,
        n,
    ).update(a, v)[b] by {
        if b != a {
            assert(s2[ofs + 8 * b] == s1[ofs + 8 * b]);
            assert(s2[ofs + 8 * b + 1] == s1[ofs + 8 * b + 1]);
            assert(s2[ofs + 8 * b + 2] == s1[ofs + 8 * b + 2]);
            assert(s2[ofs + 8 * b + 3] == s1[ofs + 8 * b + 3]);
            assert(s2[ofs + 8 * b + 4] == s1[ofs + 8 * b + 4]);
            assert(s2[ofs + 8 * b + 5] == s1[ofs + 8 * b + 5]);
            assert(s2[ofs + 8 * b + 6] == s1[ofs + 8 * b + 6]);
            assert(s2[ofs + 8 * b + 7] == s1[ofs + 8 * b + 7]);
        }
    }
    assert(word64_region(s2, ofs, n) =~= word64_region(s1, ofs, n).update(a, v));
}

// ---------------------------------------------------------------------------
// Runs of registers
// ---------------------------------------------------------------------------

/// The run of `n` consecutive registers of `s` starting at index `at`.
pub open spec fn extract<T>(s: Seq<T>, at: int, n: int) -> Seq<T> {
    Seq::new(n as nat, |i: int| s[at + i])
}

/// `s` with the run starting at index `at` replaced by `vals`, all other
/// registers unchanged.
pub open spec fn splice<T>(s: Seq<T>, at: int, vals: Seq<T>) -> Seq<T> {
    Seq::new(s.len(), |j: int| if at <= j < at + vals.len() { vals[j - at] } else { s[j] })
}

} // verus!

