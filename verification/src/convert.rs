//! Two's-complement reinterpretation between the signed and the unsigned
//! value of one register cell. Signed and unsigned accessors of the same
//! width share one storage region, so a signed value is stored as the
//! unsigned word with the same bit pattern.

use vstd::prelude::*;

verus! {

pub open spec fn u8_of_i8(v: i8) -> u8 {
    if v >= 0 {
        v as u8
    } else {
        (v + 0x100) as u8
    }
}

pub open spec fn i8_of_u8(v: u8) -> i8 {
    if v < 0x80 {
        v as i8
    } else {
        (v - 0x100) as i8
    }
}

pub open spec fn u16_of_i16(v: i16) -> u16 {
    if v >= 0 {
        v as u16
    } else {
        (v + 0x1_0000) as u16
    }
}

pub open spec fn i16_of_u16(v: u16) -> i16 {
    if v < 0x8000 {
        v as i16
    } else {
        (v - 0x1_0000) as i16
    }
}

pub open spec fn u32_of_i32(v: i32) -> u32 {
    if v >= 0 {
        v as u32
    } else {
        (v + 0x1_0000_0000) as u32
    }
}

pub open spec fn i32_of_u32(v: u32) -> i32 {
    if v < 0x8000_0000 {
        v as i32
    } else {
        (v - 0x1_0000_0000) as i32
    }
}

pub open spec fn u64_of_i64(v: i64) -> u64 {
    if v >= 0 {
        v as u64
    } else {
        (v + 0x1_0000_0000_0000_0000) as u64
    }
}

pub open spec fn i64_of_u64(v: u64) -> i64 {
    if v < 0x8000_0000_0000_0000 {
        v as i64
    } else {
        (v - 0x1_0000_0000_0000_0000) as i64
    }
}

/// Storing a signed value and reading it back signed is the identity, and
/// storing an unsigned value and reading it back unsigned is as well.
pub proof fn lemma_sign_roundtrip_8(vi: i8, vu: u8)
    ensures
        i8_of_u8(u8_of_i8(vi)) == vi,
        u8_of_i8(i8_of_u8(vu)) == vu,
{
}

pub proof fn lemma_sign_roundtrip_16(vi: i16, vu: u16)
    ensures
        i16_of_u16(u16_of_i16(vi)) == vi,
        u16_of_i16(i16_of_u16(vu)) == vu,
{
}

pub proof fn lemma_sign_roundtrip_32(vi: i32, vu: u32)
    ensures
        i32_of_u32(u32_of_i32(vi)) == vi,
        u32_of_i32(i32_of_u32(vu)) == vu,
{
}

pub proof fn lemma_sign_roundtrip_64(vi: i64, vu: u64)
    ensures
        i64_of_u64(u64_of_i64(vi)) == vi,
        u64_of_i64(i64_of_u64(vu)) == vu,
{
}

pub fn vec_u8_to_i8(v: &Vec<u8>) -> (r: Vec<i8>)
    ensures
        r@ == v@.map_values(|x: u8| i8_of_u8(x)),
{
    let mut out: Vec<i8> = Vec::new();
    let mut i: usize = 0;
    while i < v.len()
        invariant
            i <= v@.len(),
            out@.len() == i,
            forall|k: int| 0 <= k < i ==> out@[k] == i8_of_u8(v@[k]),
        decreases v@.len() - i,
    {
        out.push(u8_to_i8(v[i]));
        i = i + 1;
    }
    proof {
        assert(out@ =~= v@.map_values(|x: u8| i8_of_u8(x)));
    }
    out
}

pub fn vec_u16_to_i16(v: &Vec<u16>) -> (r: Vec<i16>)
    ensures
        r@ == v@.map_values(|x: u16| i16_of_u16(x)),
{
    let mut out: Vec<i16> = Vec::new();
    let mut i: usize = 0;
    while i < v.len()
        invariant
            i <= v@.len(),
            out@.len() == i,
            forall|k: int| 0 <= k < i ==> out@[k] == i16_of_u16(v@[k]),
        decreases v@.len() - i,
    {
        out.push(u16_to_i16(v[i]));
        i = i + 1;
    }
    proof {
        assert(out@ =~= v@.map_values(|x: u16| i16_of_u16(x)));
    }
    out
}

pub fn vec_u32_to_i32(v: &Vec<u32>) -> (r: Vec<i32>)
    ensures
        r@ == v@.map_values(|x: u32| i32_of_u32(x)),
{
    let mut out: Vec<i32> = Vec::new();
    let mut i: usize = 0;
    while i < v.len()
        invariant
            i <= v@.len(),
            out@.len() == i,
            forall|k: int| 0 <= k < i ==> out@[k] == i32_of_u32(v@[k]),
        decreases v@.len() - i,
    {
        out.push(u32_to_i32(v[i]));
        i = i + 1;
    }
    proof {
        assert(out@ =~= v@.map_values(|x: u32| i32_of_u32(x)));
    }
    out
}

pub fn vec_u64_to_i64(v: &Vec<u64>) -> (r: Vec<i64>)
    ensures
        r@ == v@.map_values(|x: u64| i64_of_u64(x)),
{
    let mut out: Vec<i64> = Vec::new();
    let mut i: usize = 0;
    while i < v.len()
        invariant
            i <= v@.len(),
            out@.len() == i,
            forall|k: int| 0 <= k < i ==> out@[k] == i64_of_u64(v@[k]),
        decreases v@.len() - i,
    {
        out.push(u64_to_i64(v[i]));
        i = i + 1;
    }
    proof {
        assert(out@ =~= v@.map_values(|x: u64| i64_of_u64(x)));
    }
    out
}

pub fn slice_i8_to_u8(v: &[i8]) -> (r: Vec<u8>)
    ensures
        r@ == v@.map_values(|x: i8| u8_of_i8(x)),
{
    let mut out: Vec<u8> = Vec::new();
    let mut i: usize = 0;
    while i < v.len()
        invariant
            i <= v@.len(),
            out@.len() == i,
            forall|k: int| 0 <= k < i ==> out@[k] == u8_of_i8(v@[k]),
        decreases v@.len() - i,
    {
        out.push(i8_to_u8(v[i]));
        i = i + 1;
    }
    proof {
        assert(out@ =~= v@.map_values(|x: i8| u8_of_i8(x)));
    }
    out
}

pub fn slice_i16_to_u16(v: &[i16]) -> (r: Vec<u16>)
    ensures
        r@ == v@.map_values(|x: i16| u16_of_i16(x)),
{
    let mut out: Vec<u16> = Vec::new();
    let mut i: usize = 0;
    while i < v.len()
        invariant
            i <= v@.len(),
            out@.len() == i,
            forall|k: int| 0 <= k < i ==> out@[k] == u16_of_i16(v@[k]),
        decreases v@.len() - i,
    {
        out.push(i16_to_u16(v[i]));
        i = i + 1;
    }
    proof {
        assert(out@ =~= v@.map_values(|x: i16| u16_of_i16(x)));
    }
    out
}

pub fn slice_i32_to_u32(v: &[i32]) -> (r: Vec<u32>)
    ensures
        r@ == v@.map_values(|x: i32| u32_of_i32(x)),
{
    let mut out: Vec<u32> = Vec::new();
    let mut i: usize = 0;
    while i < v.len()
        invariant
            i <= v@.len(),
            out@.len() == i,
            forall|k: int| 0 <= k < i ==> out@[k] == u32_of_i32(v@[k]),
        decreases v@.len() - i,
    {
        out.push(i32_to_u32(v[i]));
        i = i + 1;
    }
    proof {
        assert(out@ =~= v@.map_values(|x: i32| u32_of_i32(x)));
    }
    out
}

pub fn slice_i64_to_u64(v: &[i64]) -> (r: Vec<u64>)
    ensures
        r@ == v@.map_values(|x: i64| u64_of_i64(x)),
{
    let mut out: Vec<u64> = Vec::new();
    let mut i: usize = 0;
    while i < v.len()
        invariant
            i <= v@.len(),
            out@.len() == i,
            forall|k: int| 0 <= k < i ==> out@[k] == u64_of_i64(v@[k]),
        decreases v@.len() - i,
    {
        out.push(i64_to_u64(v[i]));
        i = i + 1;
    }
    proof {
        assert(out@ =~= v@.map_values(|x: i64| u64_of_i64(x)));
    }
    out
}

pub fn i8_to_u8(v: i8) -> (r: u8)
    ensures
        r == u8_of_i8(v),
{
    if v >= 0 {
        v as u8
    } else {
        ((v as i16) + 0x100) as u8
    }
}

pub fn u8_to_i8(v: u8) -> (r: i8)
    ensures
        r == i8_of_u8(v),
{
    if v < 0x80 {
        v as i8
    } else {
        ((v as i16) - 0x100) as i8
    }
}

pub fn i16_to_u16(v: i16) -> (r: u16)
    ensures
        r == u16_of_i16(v),
{
    if v >= 0 {
        v as u16
    } else {
        ((v as i32) + 0x1_0000) as u16
    }
}

pub fn u16_to_i16(v: u16) -> (r: i16)
    ensures
        r == i16_of_u16(v),
{
    if v < 0x8000 {
        v as i16
    } else {
        ((v as i32) - 0x1_0000) as i16
    }
}

pub fn i32_to_u32(v: i32) -> (r: u32)
    ensures
        r == u32_of_i32(v),
{
    if v >= 0 {
        v as u32
    } else {
        ((v as i64) + 0x1_0000_0000) as u32
    }
}

pub fn u32_to_i32(v: u32) -> (r: i32)
    ensures
        r == i32_of_u32(v),
{
    if v < 0x8000_0000 {
        v as i32
    } else {
        ((v as i64) - 0x1_0000_0000) as i32
    }
}

pub fn i64_to_u64(v: i64) -> (r: u64)
    ensures
        r == u64_of_i64(v),
{
    if v >= 0 {
        v as u64
    } else {
        ((v as i128) + 0x1_0000_0000_0000_0000) as u64
    }
}

pub fn u64_to_i64(v: u64) -> (r: i64)
    ensures
        r == i64_of_u64(v),
{
    if v < 0x8000_0000_0000_0000 {
        v as i64
    } else {
        ((v as i128) - 0x1_0000_0000_0000_0000) as i64
    }
}

} // verus!
