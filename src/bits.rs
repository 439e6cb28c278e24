//! Two's-complement views of 64-bit words and the width-mixing operations of
//! the instruction set, stated arithmetically.
use vstd::prelude::*;

verus! {

pub const SIGN64: u64 = 0x8000_0000_0000_0000;

/// The arithmetic value of a 64-bit two's-complement pattern.
pub open spec fn signed(v: u64) -> int {
    if v < SIGN64 {
        v as int
    } else {
        v - 0x1_0000_0000_0000_0000
    }
}

/// The 64-bit two's-complement pattern of an integer, wrapping modulo 2^64.
pub open spec fn to_bits(x: int) -> u64 {
    (x % 0x1_0000_0000_0000_0000) as u64
}

/// Sum modulo 2^64.
pub open spec fn add64(a: u64, b: u64) -> u64 {
    ((a + b) % 0x1_0000_0000_0000_0000) as u64
}

/// Difference modulo 2^64.
pub open spec fn sub64(a: u64, b: u64) -> u64 {
    ((a - b) % 0x1_0000_0000_0000_0000) as u64
}

/// Product modulo 2^64.
pub open spec fn mul64(a: u64, b: u64) -> u64 {
    ((a * b) % 0x1_0000_0000_0000_0000) as u64
}

/// The low 32 bits read as a signed 32-bit value.
pub open spec fn low_i32(x: u64) -> i32 {
    let l = x % 0x1_0000_0000;
    (if l < 0x8000_0000 {
        l as int
    } else {
        l - 0x1_0000_0000
    }) as i32
}

/// The low 32 bits.
pub open spec fn lo32(x: u64) -> u64 {
    x % 0x1_0000_0000
}

/// Sign extension of a 32-bit value to 64 bits.
pub open spec fn sext32(x: u64) -> u64 {
    if x < 0x8000_0000 {
        x
    } else {
        (x + 0xFFFF_FFFF_0000_0000) as u64
    }
}

/// Sign extension of a 16-bit value to 64 bits.
pub open spec fn sext16(x: u64) -> u64 {
    if x < 0x8000 {
        x
    } else {
        (x + 0xFFFF_FFFF_FFFF_0000) as u64
    }
}

/// Sign extension of an 8-bit value to 64 bits.
pub open spec fn sext8(x: u64) -> u64 {
    if x < 0x80 {
        x
    } else {
        (x + 0xFFFF_FFFF_FFFF_FF00) as u64
    }
}

/// A 64-bit result narrowed to its low 32 bits and sign-extended back.
pub open spec fn word32(x: u64) -> u64 {
    sext32(lo32(x))
}

/// Arithmetic (sign-replicating) right shift.
pub open spec fn sra(a: u64, s: u64) -> u64 {
    if a < SIGN64 {
        a >> s
    } else {
        !((!a) >> s)
    }
}

pub open spec fn abs(x: int) -> int {
    if x < 0 {
        -x
    } else {
        x
    }
}

/// Division rounding toward zero.
pub open spec fn trunc_div(x: int, y: int) -> int {
    let q = abs(x) / abs(y);
    if (x < 0) == (y < 0) {
        q
    } else {
        -q
    }
}

/// The remainder of division rounding toward zero: it takes the dividend's sign.
pub open spec fn trunc_rem(x: int, y: int) -> int {
    let r = abs(x) % abs(y);
    if x < 0 {
        -r
    } else {
        r
    }
}

/// Signed 64-bit division with the instruction set's conventions: division by
/// zero gives all ones, and the one overflowing quotient wraps to the minimum.
pub open spec fn div_bits(a: u64, b: u64) -> u64 {
    if b == 0 {
        u64::MAX
    } else {
        to_bits(trunc_div(signed(a), signed(b)))
    }
}

/// Signed 64-bit remainder: by zero it is the dividend; on overflow it is 0.
pub open spec fn rem_bits(a: u64, b: u64) -> u64 {
    if b == 0 {
        a
    } else {
        to_bits(trunc_rem(signed(a), signed(b)))
    }
}

/// `a + b`, wrapping.
pub fn add64_of(a: u64, b: u64) -> (r: u64)
    ensures
        r == add64(a, b),
{
    a.wrapping_add(b)
}

/// `a - b`, wrapping.
pub fn sub64_of(a: u64, b: u64) -> (r: u64)
    ensures
        r == sub64(a, b),
{
    a.wrapping_sub(b)
}

/// The low 64 bits of `a * b`.
pub fn mul64_of(a: u64, b: u64) -> (r: u64)
    ensures
        r == mul64(a, b),
{
    a.wrapping_mul(b)
}

/// The low 32 bits as a signed 32-bit value.
pub fn low_i32_of(x: u64) -> (r: i32)
    ensures
        r == low_i32(x),
{
    let l = x % 0x1_0000_0000;
    if l < 0x8000_0000 {
        l as i32
    } else {
        -((0xFFFF_FFFF - l) as i32) - 1
    }
}

/// The low 32 bits.
pub fn lo32_of(x: u64) -> (r: u64)
    ensures
        r == lo32(x),
        r < 0x1_0000_0000,
{
    x % 0x1_0000_0000
}

/// Sign-extends a 32-bit value.
pub fn se_word(x: u64) -> (r: u64)
    requires
        x < 0x1_0000_0000,
    ensures
        r == sext32(x),
{
    if x < 0x8000_0000 {
        x
    } else {
        x + 0xFFFF_FFFF_0000_0000
    }
}

/// Sign-extends a 16-bit value.
pub fn se_half(x: u64) -> (r: u64)
    requires
        x < 0x1_0000,
    ensures
        r == sext16(x),
{
    if x < 0x8000 {
        x
    } else {
        x + 0xFFFF_FFFF_FFFF_0000
    }
}

/// Sign-extends a byte.
pub fn se_byte(x: u64) -> (r: u64)
    requires
        x < 0x100,
    ensures
        r == sext8(x),
{
    if x < 0x80 {
        x
    } else {
        x + 0xFFFF_FFFF_FFFF_FF00
    }
}

/// Narrows to 32 bits and sign-extends back.
pub fn word32_of(x: u64) -> (r: u64)
    ensures
        r == word32(x),
{
    se_word(lo32_of(x))
}

/// Arithmetic right shift.
pub fn sra_of(a: u64, s: u64) -> (r: u64)
    requires
        s < 64,
    ensures
        r == sra(a, s),
{
    if a < SIGN64 {
        a >> s
    } else {
        !((!a) >> s)
    }
}

/// The magnitude of a two's-complement value, which fits in 64 bits.
fn magnitude(a: u64) -> (r: u64)
    ensures
        r as int == abs(signed(a)),
{
    if a < SIGN64 {
        a
    } else {
        (u64::MAX - a) + 1
    }
}

/// The 64-bit pattern of `-m`.
fn negate(m: u64) -> (r: u64)
    ensures
        r == to_bits(-(m as int)),
{
    if m == 0 {
        0
    } else {
        (u64::MAX - m) + 1
    }
}

/// `signed(a) < signed(b)`.
pub fn lt_signed(a: u64, b: u64) -> (r: bool)
    ensures
        r == (signed(a) < signed(b)),
{
    if a < SIGN64 && b >= SIGN64 {
        false
    } else if a >= SIGN64 && b < SIGN64 {
        true
    } else {
        a < b
    }
}

/// Signed division (see `div_bits`).
pub fn div_of(a: u64, b: u64) -> (r: u64)
    ensures
        r == div_bits(a, b),
{
    if b == 0 {
        return u64::MAX;
    }
    let ma = magnitude(a);
    let mb = magnitude(b);
    let q = ma / mb;
    proof {
        assert(signed(b) != 0);
        assert(0 <= q <= ma) by (nonlinear_arith)
            requires q == ma / mb, mb > 0;
    }
    if (a >= SIGN64) == (b >= SIGN64) {
        q
    } else {
        negate(q)
    }
}

/// Signed remainder (see `rem_bits`).
pub fn rem_of(a: u64, b: u64) -> (r: u64)
    ensures
        r == rem_bits(a, b),
{
    if b == 0 {
        return a;
    }
    let ma = magnitude(a);
    let mb = magnitude(b);
    let m = ma % mb;
    proof {
        assert(signed(b) != 0);
    }
    if a >= SIGN64 {
        negate(m)
    } else {
        m
    }
}

/// The pattern of a signed value.
pub fn bits_of_i64(v: i64) -> (r: u64)
    ensures
        r == to_bits(v as int),
        signed(r) == v,
{
    if v < 0 {
        u64::MAX - ((-(v + 1)) as u64)
    } else {
        v as u64
    }
}

/// The signed value of a pattern.
pub fn i64_of_bits(v: u64) -> (r: i64)
    ensures
        r as int == signed(v),
{
    if v < SIGN64 {
        v as i64
    } else {
        -((u64::MAX - v) as i64) - 1
    }
}

} // verus!
