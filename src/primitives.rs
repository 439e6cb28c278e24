use vstd::prelude::*;
use crate::bits::{signed, to_bits, bits_of_i64, i64_of_bits};

verus! {

/// A general-purpose register, named by its role in the standard calling
/// convention.
#[derive(Debug, Clone, Copy)]
pub enum Reg {
    Zero,
    Ra,
    Sp,
    Gp,
    Tp,
    T(usize),
    S(usize),
    A(usize),
}

impl Reg {
    /// The numbered registers of each group exist: t0-t6, s0-s11, a0-a7.
    pub open spec fn wf(self) -> bool {
        match self {
            Reg::T(i) => i < 7,
            Reg::S(i) => i < 12,
            Reg::A(i) => i < 8,
            _ => true,
        }
    }

    /// The architectural number `x0`..`x31` of the register.
    pub open spec fn index(self) -> nat {
        match self {
            Reg::Zero => 0,
            Reg::Ra => 1,
            Reg::Sp => 2,
            Reg::Gp => 3,
            Reg::Tp => 4,
            Reg::T(i) => (if i < 3 { 5 + i } else { 25 + i }) as nat,
            Reg::S(i) => (if i < 2 { 8 + i } else { 16 + i }) as nat,
            Reg::A(i) => (10 + i) as nat,
        }
    }

    /// The register whose architectural number is `n` (below 32).
    pub open spec fn from_index(n: nat) -> Reg {
        if n == 0 {
            Reg::Zero
        } else if n == 1 {
            Reg::Ra
        } else if n == 2 {
            Reg::Sp
        } else if n == 3 {
            Reg::Gp
        } else if n == 4 {
            Reg::Tp
        } else if n <= 7 {
            Reg::T((n - 5) as usize)
        } else if n <= 9 {
            Reg::S((n - 8) as usize)
        } else if n <= 17 {
            Reg::A((n - 10) as usize)
        } else if n <= 27 {
            Reg::S((n - 16) as usize)
        } else {
            Reg::T((n - 25) as usize)
        }
    }

    /// The register numbered `reg`.
    pub fn new(reg: u32) -> (r: Reg)
        requires
            reg < 32,
        ensures
            r.wf(),
            r.index() == reg,
            r == Reg::from_index(reg as nat),
    {
        match reg {
            0 => Reg::Zero,
            1 => Reg::Ra,
            2 => Reg::Sp,
            3 => Reg::Gp,
            4 => Reg::Tp,
            5..=7 => Reg::T((reg - 5) as usize),
            8..=9 => Reg::S((reg - 8) as usize),
            10..=17 => Reg::A((reg - 10) as usize),
            18..=27 => Reg::S((reg - 16) as usize),
            _ => Reg::T((reg - 25) as usize),
        }
    }

    /// The architectural number of the register.
    pub fn reg_index(&self) -> (r: usize)
        requires
            self.wf(),
        ensures
            r == self.index(),
            r < 32,
    {
        match *self {
            Reg::Zero => 0,
            Reg::Ra => 1,
            Reg::Sp => 2,
            Reg::Gp => 3,
            Reg::Tp => 4,
            Reg::T(i) => if i < 3 { 5 + i } else { 25 + i },
            Reg::S(i) => if i < 2 { 8 + i } else { 16 + i },
            Reg::A(i) => 10 + i,
        }
    }
}

/// Numbering is a bijection between the well-formed registers and `0..32`.
pub proof fn lemma_reg_index_bijective(r: Reg, n: nat)
    requires
        r.wf(),
        n < 32,
    ensures
        r.index() < 32,
        Reg::from_index(r.index()) == r,
        Reg::from_index(n).wf(),
        Reg::from_index(n).index() == n,
{
}

/// An immediate operand: a signed 64-bit value tagged with its sign.
#[derive(Debug, Clone, Copy)]
pub enum Imm {
    Pos(u64),
    Neg(u64),
}

impl Imm {
    /// The tag agrees with the sign of the two's-complement value.
    pub open spec fn wf(self) -> bool {
        match self {
            Imm::Pos(v) => v < 0x8000_0000_0000_0000,
            Imm::Neg(v) => v >= 0x8000_0000_0000_0000,
        }
    }

    /// The 64-bit two's-complement bit pattern.
    pub open spec fn raw(self) -> u64 {
        match self {
            Imm::Pos(v) => v,
            Imm::Neg(v) => v,
        }
    }

    /// The arithmetic value.
    pub open spec fn value(self) -> int {
        signed(self.raw())
    }

    /// The well-formed immediate whose bit pattern is `raw`.
    pub open spec fn from_raw(raw: u64) -> Imm {
        if raw < 0x8000_0000_0000_0000 {
            Imm::Pos(raw)
        } else {
            Imm::Neg(raw)
        }
    }

    pub fn new(imm: i64) -> (r: Imm)
        ensures
            r.wf(),
            r.value() == imm,
            r.raw() == to_bits(imm as int),
            r == Imm::from_raw(to_bits(imm as int)),
    {
        Imm::from_bits(bits_of_i64(imm))
    }

    /// The well-formed immediate whose bit pattern is `raw`.
    pub fn from_bits(raw: u64) -> (r: Imm)
        ensures
            r.wf(),
            r.raw() == raw,
            r == Imm::from_raw(raw),
    {
        if raw < 0x8000_0000_0000_0000 {
            Imm::Pos(raw)
        } else {
            Imm::Neg(raw)
        }
    }

    /// The raw bit pattern.
    pub fn val(&self) -> (r: u64)
        ensures
            r == self.raw(),
    {
        match *self {
            Imm::Pos(v) => v,
            Imm::Neg(v) => v,
        }
    }

    /// The arithmetic value.
    pub fn val_signed(&self) -> (r: i64)
        ensures
            r == self.value(),
    {
        i64_of_bits(self.val())
    }
}

/// A memory operand: base register plus immediate displacement.
#[derive(Debug, Clone, Copy)]
pub struct Offset(pub Reg, pub Imm);

impl Offset {
    pub open spec fn wf(self) -> bool {
        self.0.wf() && self.1.wf()
    }
}

/// A host-side address, remembering whether it was made from a signed value.
#[derive(Debug, Clone, Copy)]
pub struct Addr {
    val: u64,
    signed: bool,
}

impl Addr {
    pub closed spec fn value(self) -> u64 {
        self.val
    }

    pub closed spec fn made_signed(self) -> bool {
        self.signed
    }

    pub fn new_unsigned(val: u64) -> (r: Addr)
        ensures
            r.value() == val,
            !r.made_signed(),
    {
        Addr { val, signed: false }
    }

    pub fn new_signed(val: i64) -> (r: Addr)
        ensures
            r.value() == to_bits(val as int),
            r.made_signed(),
    {
        Addr { val: bits_of_i64(val), signed: true }
    }

    pub fn is_signed(&self) -> (r: bool)
        ensures
            r == self.made_signed(),
    {
        self.signed
    }

    /// The address read as a signed value.
    pub fn signed(&self) -> (r: i64)
        ensures
            r == signed(self.value()),
    {
        i64_of_bits(self.val)
    }

    /// The address as an unsigned value.
    pub fn val(&self) -> (r: u64)
        ensures
            r == self.value(),
    {
        self.val
    }
}

} // verus!
