//! The decoder: a pure function from a 32-bit instruction word to the
//! operation it encodes, and the encoder it inverts.
use vstd::prelude::*;
use crate::bits::sext32;
use crate::instruction_set::Instr;
use crate::primitives::{Reg, Imm, Offset, lemma_reg_index_bijective};

verus! {

pub open spec fn opcode(w: u32) -> u32 {
    w & 0x7f
}

pub open spec fn rd_field(w: u32) -> u32 {
    (w >> 7) & 0x1f
}

pub open spec fn funct3(w: u32) -> u32 {
    (w >> 12) & 0x7
}

pub open spec fn rs1_field(w: u32) -> u32 {
    (w >> 15) & 0x1f
}

pub open spec fn rs2_field(w: u32) -> u32 {
    (w >> 20) & 0x1f
}

pub open spec fn funct7(w: u32) -> u32 {
    w >> 25
}

/// Sign extension of a 12-bit field.
pub open spec fn sext12(x: u64) -> u64 {
    if x < 0x800 {
        x
    } else {
        (x + 0xFFFF_FFFF_FFFF_F000) as u64
    }
}

/// Sign extension of a 13-bit field.
pub open spec fn sext13(x: u64) -> u64 {
    if x < 0x1000 {
        x
    } else {
        (x + 0xFFFF_FFFF_FFFF_E000) as u64
    }
}

/// Sign extension of a 21-bit field.
pub open spec fn sext21(x: u64) -> u64 {
    if x < 0x10_0000 {
        x
    } else {
        (x + 0xFFFF_FFFF_FFE0_0000) as u64
    }
}

/// The I-type immediate: bits 31:20, sign-extended.
pub open spec fn imm_i(w: u32) -> u64 {
    sext12((w >> 20) as u64)
}

/// The S-type immediate: bits 31:25 above bits 11:7, sign-extended.
pub open spec fn imm_s(w: u32) -> u64 {
    sext12((((w >> 25) << 5) | ((w >> 7) & 0x1f)) as u64)
}

/// The B-type immediate: bit 31, bit 7, bits 30:25, bits 11:8 and an implicit
/// zero, sign-extended.
pub open spec fn imm_b(w: u32) -> u64 {
    sext13(
        ((((w >> 31) & 1) << 12) | (((w >> 7) & 1) << 11) | (((w >> 25) & 0x3f) << 5) | (((w
            >> 8) & 0xf) << 1)) as u64,
    )
}

/// The U-type immediate: bits 31:12 in place, low bits zero, sign-extended.
pub open spec fn imm_u(w: u32) -> u64 {
    sext32((w & 0xFFFF_F000) as u64)
}

/// The J-type immediate: bit 31, bits 19:12, bit 20, bits 30:21 and an
/// implicit zero, sign-extended.
pub open spec fn imm_j(w: u32) -> u64 {
    sext21(
        ((((w >> 31) & 1) << 20) | (((w >> 12) & 0xff) << 12) | (((w >> 20) & 1) << 11) | (((w
            >> 21) & 0x3ff) << 1)) as u64,
    )
}

/// The 6-bit shift amount of a 64-bit shift-immediate.
pub open spec fn shamt6(w: u32) -> u64 {
    ((w >> 20) & 0x3f) as u64
}

/// The 5-bit shift amount of a 32-bit shift-immediate.
pub open spec fn shamt5(w: u32) -> u64 {
    ((w >> 20) & 0x1f) as u64
}

pub open spec fn reg_at(n: u32) -> Reg {
    Reg::from_index(n as nat)
}

/// Register-register operations, opcode `0x33`.
pub open spec fn decode_op(f7: u32, f3: u32, d: Reg, a: Reg, b: Reg) -> Option<Instr> {
    if f7 == 0 {
        match f3 {
            0 => Some(Instr::Add(d, a, b)),
            1 => Some(Instr::Sll(d, a, b)),
            2 => Some(Instr::Slt(d, a, b)),
            3 => Some(Instr::Sltu(d, a, b)),
            4 => Some(Instr::Xor(d, a, b)),
            5 => Some(Instr::Srl(d, a, b)),
            6 => Some(Instr::Or(d, a, b)),
            _ => Some(Instr::And(d, a, b)),
        }
    } else if f7 == 0x20 {
        match f3 {
            0 => Some(Instr::Sub(d, a, b)),
            5 => Some(Instr::Sra(d, a, b)),
            _ => None,
        }
    } else if f7 == 1 {
        match f3 {
            0 => Some(Instr::Mul(d, a, b)),
            4 => Some(Instr::Div(d, a, b)),
            6 => Some(Instr::Rem(d, a, b)),
            _ => None,
        }
    } else {
        None
    }
}

/// 32-bit register-register operations, opcode `0x3B`.
pub open spec fn decode_op_32(f7: u32, f3: u32, d: Reg, a: Reg, b: Reg) -> Option<Instr> {
    if f7 == 0 {
        match f3 {
            0 => Some(Instr::Addw(d, a, b)),
            1 => Some(Instr::Sllw(d, a, b)),
            5 => Some(Instr::Srlw(d, a, b)),
            _ => None,
        }
    } else if f7 == 0x20 {
        match f3 {
            0 => Some(Instr::Subw(d, a, b)),
            5 => Some(Instr::Sraw(d, a, b)),
            _ => None,
        }
    } else if f7 == 1 {
        match f3 {
            0 => Some(Instr::Mulw(d, a, b)),
            4 => Some(Instr::Divw(d, a, b)),
            6 => Some(Instr::Remw(d, a, b)),
            _ => None,
        }
    } else {
        None
    }
}

/// Loads, opcode `0x03`.
pub open spec fn decode_load(f3: u32, d: Reg, o: Offset) -> Option<Instr> {
    match f3 {
        0 => Some(Instr::Lb(d, o)),
        1 => Some(Instr::Lh(d, o)),
        2 => Some(Instr::Lw(d, o)),
        3 => Some(Instr::Ld(d, o)),
        4 => Some(Instr::Lbu(d, o)),
        5 => Some(Instr::Lhu(d, o)),
        6 => Some(Instr::Lwu(d, o)),
        _ => None,
    }
}

/// Register-immediate operations, opcode `0x13`. `top` is bits 31:26, which
/// select between the right shifts and must be zero for the left shift.
pub open spec fn decode_op_imm(
    f3: u32,
    top: u32,
    d: Reg,
    a: Reg,
    imm: Imm,
    shamt: Imm,
) -> Option<Instr> {
    match f3 {
        0 => Some(Instr::Addi(d, a, imm)),
        2 => Some(Instr::Slti(d, a, imm)),
        3 => Some(Instr::Sltiu(d, a, imm)),
        4 => Some(Instr::Xori(d, a, imm)),
        6 => Some(Instr::Ori(d, a, imm)),
        7 => Some(Instr::Andi(d, a, imm)),
        1 => if top == 0 {
            Some(Instr::Slli(d, a, shamt))
        } else {
            None
        },
        _ => if top == 0 {
            Some(Instr::Srli(d, a, shamt))
        } else if top == 0x10 {
            Some(Instr::Srai(d, a, shamt))
        } else {
            None
        },
    }
}

/// 32-bit register-immediate operations, opcode `0x1B`.
pub open spec fn decode_op_imm_32(
    f3: u32,
    f7: u32,
    d: Reg,
    a: Reg,
    imm: Imm,
    shamt: Imm,
) -> Option<Instr> {
    match f3 {
        0 => Some(Instr::Addiw(d, a, imm)),
        1 => if f7 == 0 {
            Some(Instr::Slliw(d, a, shamt))
        } else {
            None
        },
        5 => if f7 == 0 {
            Some(Instr::Srliw(d, a, shamt))
        } else if f7 == 0x20 {
            Some(Instr::Sraiw(d, a, shamt))
        } else {
            None
        },
        _ => None,
    }
}

/// Stores, opcode `0x23`.
pub open spec fn decode_store(f3: u32, s: Reg, o: Offset) -> Option<Instr> {
    match f3 {
        0 => Some(Instr::Sb(s, o)),
        1 => Some(Instr::Sh(s, o)),
        2 => Some(Instr::Sw(s, o)),
        3 => Some(Instr::Sd(s, o)),
        _ => None,
    }
}

/// Conditional branches, opcode `0x63`.
pub open spec fn decode_branch(f3: u32, a: Reg, b: Reg, imm: Imm) -> Option<Instr> {
    match f3 {
        0 => Some(Instr::Beq(a, b, imm)),
        1 => Some(Instr::Bne(a, b, imm)),
        4 => Some(Instr::Blt(a, b, imm)),
        5 => Some(Instr::Bge(a, b, imm)),
        6 => Some(Instr::Bltu(a, b, imm)),
        7 => Some(Instr::Bgeu(a, b, imm)),
        _ => None,
    }
}

/// The operation encoded by `w`, or `None` where the opcode, `funct3` and
/// `funct7` fields select no supported operation.
pub open spec fn decode_word(w: u32) -> Option<Instr> {
    let op = opcode(w);
    let f3 = funct3(w);
    let d = reg_at(rd_field(w));
    let a = reg_at(rs1_field(w));
    let b = reg_at(rs2_field(w));
    if op == 0x33 {
        decode_op(funct7(w), f3, d, a, b)
    } else if op == 0x3b {
        decode_op_32(funct7(w), f3, d, a, b)
    } else if op == 0x03 {
        decode_load(f3, d, Offset(a, Imm::from_raw(imm_i(w))))
    } else if op == 0x13 {
        decode_op_imm(f3, w >> 26, d, a, Imm::from_raw(imm_i(w)), Imm::from_raw(shamt6(w)))
    } else if op == 0x1b {
        decode_op_imm_32(f3, funct7(w), d, a, Imm::from_raw(imm_i(w)), Imm::from_raw(shamt5(w)))
    } else if op == 0x67 {
        if f3 == 0 {
            Some(Instr::Jalr(d, a, Imm::from_raw(imm_i(w))))
        } else {
            None
        }
    } else if op == 0x23 {
        decode_store(f3, b, Offset(a, Imm::from_raw(imm_s(w))))
    } else if op == 0x63 {
        decode_branch(f3, a, b, Imm::from_raw(imm_b(w)))
    } else if op == 0x37 {
        Some(Instr::Lui(d, Imm::from_raw(imm_u(w))))
    } else if op == 0x17 {
        Some(Instr::Auipc(d, Imm::from_raw(imm_u(w))))
    } else if op == 0x6f {
        Some(Instr::Jal(d, Imm::from_raw(imm_j(w))))
    } else if op == 0x73 {
        Some(Instr::Ecall)
    } else {
        None
    }
}

/// Every operation the decoder yields is well formed.
pub proof fn lemma_decode_wf(w: u32)
    ensures
        decode_word(w) matches Some(i) ==> i.wf(),
{
    lemma_field_bounds(w);
    lemma_reg_index_bijective(Reg::Zero, rd_field(w) as nat);
    lemma_reg_index_bijective(Reg::Zero, rs1_field(w) as nat);
    lemma_reg_index_bijective(Reg::Zero, rs2_field(w) as nat);
}

proof fn lemma_field_bounds(w: u32)
    by (bit_vector)
    ensures
        (w >> 7) & 0x1f < 32,
        (w >> 15) & 0x1f < 32,
        (w >> 20) & 0x1f < 32,
        (w >> 12) & 0x7 < 8,
        w >> 20 < 0x1000,
        ((w >> 25) << 5) | ((w >> 7) & 0x1f) < 0x1000,
        (((w >> 31) & 1) << 12) | (((w >> 7) & 1) << 11) | (((w >> 25) & 0x3f) << 5) | (((w
            >> 8) & 0xf) << 1) < 0x2000,
        (((w >> 31) & 1) << 20) | (((w >> 12) & 0xff) << 12) | (((w >> 20) & 1) << 11) | (((w
            >> 21) & 0x3ff) << 1) < 0x20_0000,
{
}

fn sext12_of(x: u64) -> (r: u64)
    requires
        x < 0x1000,
    ensures
        r == sext12(x),
{
    if x < 0x800 {
        x
    } else {
        x + 0xFFFF_FFFF_FFFF_F000
    }
}

fn sext13_of(x: u64) -> (r: u64)
    requires
        x < 0x2000,
    ensures
        r == sext13(x),
{
    if x < 0x1000 {
        x
    } else {
        x + 0xFFFF_FFFF_FFFF_E000
    }
}

fn sext21_of(x: u64) -> (r: u64)
    requires
        x < 0x20_0000,
    ensures
        r == sext21(x),
{
    if x < 0x10_0000 {
        x
    } else {
        x + 0xFFFF_FFFF_FFE0_0000
    }
}

fn decode_op_exec(f7: u32, f3: u32, d: Reg, a: Reg, b: Reg) -> (r: Option<Instr>)
    requires
        f3 < 8,
    ensures
        r == decode_op(f7, f3, d, a, b),
{
    if f7 == 0 {
        match f3 {
            0 => Some(Instr::Add(d, a, b)),
            1 => Some(Instr::Sll(d, a, b)),
            2 => Some(Instr::Slt(d, a, b)),
            3 => Some(Instr::Sltu(d, a, b)),
            4 => Some(Instr::Xor(d, a, b)),
            5 => Some(Instr::Srl(d, a, b)),
            6 => Some(Instr::Or(d, a, b)),
            _ => Some(Instr::And(d, a, b)),
        }
    } else if f7 == 0x20 {
        match f3 {
            0 => Some(Instr::Sub(d, a, b)),
            5 => Some(Instr::Sra(d, a, b)),
            _ => None,
        }
    } else if f7 == 1 {
        match f3 {
            0 => Some(Instr::Mul(d, a, b)),
            4 => Some(Instr::Div(d, a, b)),
            6 => Some(Instr::Rem(d, a, b)),
            _ => None,
        }
    } else {
        None
    }
}

fn decode_op_32_exec(f7: u32, f3: u32, d: Reg, a: Reg, b: Reg) -> (r: Option<Instr>)
    ensures
        r == decode_op_32(f7, f3, d, a, b),
{
    if f7 == 0 {
        match f3 {
            0 => Some(Instr::Addw(d, a, b)),
            1 => Some(Instr::Sllw(d, a, b)),
            5 => Some(Instr::Srlw(d, a, b)),
            _ => None,
        }
    } else if f7 == 0x20 {
        match f3 {
            0 => Some(Instr::Subw(d, a, b)),
            5 => Some(Instr::Sraw(d, a, b)),
            _ => None,
        }
    } else if f7 == 1 {
        match f3 {
            0 => Some(Instr::Mulw(d, a, b)),
            4 => Some(Instr::Divw(d, a, b)),
            6 => Some(Instr::Remw(d, a, b)),
            _ => None,
        }
    } else {
        None
    }
}

fn decode_load_exec(f3: u32, d: Reg, o: Offset) -> (r: Option<Instr>)
    ensures
        r == decode_load(f3, d, o),
{
    match f3 {
        0 => Some(Instr::Lb(d, o)),
        1 => Some(Instr::Lh(d, o)),
        2 => Some(Instr::Lw(d, o)),
        3 => Some(Instr::Ld(d, o)),
        4 => Some(Instr::Lbu(d, o)),
        5 => Some(Instr::Lhu(d, o)),
        6 => Some(Instr::Lwu(d, o)),
        _ => None,
    }
}

fn decode_op_imm_exec(f3: u32, top: u32, d: Reg, a: Reg, imm: Imm, shamt: Imm) -> (r: Option<
    Instr,
>)
    requires
        f3 < 8,
    ensures
        r == decode_op_imm(f3, top, d, a, imm, shamt),
{
    match f3 {
        0 => Some(Instr::Addi(d, a, imm)),
        2 => Some(Instr::Slti(d, a, imm)),
        3 => Some(Instr::Sltiu(d, a, imm)),
        4 => Some(Instr::Xori(d, a, imm)),
        6 => Some(Instr::Ori(d, a, imm)),
        7 => Some(Instr::Andi(d, a, imm)),
        1 => if top == 0 {
            Some(Instr::Slli(d, a, shamt))
        } else {
            None
        },
        _ => if top == 0 {
            Some(Instr::Srli(d, a, shamt))
        } else if top == 0x10 {
            Some(Instr::Srai(d, a, shamt))
        } else {
            None
        },
    }
}

fn decode_op_imm_32_exec(f3: u32, f7: u32, d: Reg, a: Reg, imm: Imm, shamt: Imm) -> (r: Option<
    Instr,
>)
    ensures
        r == decode_op_imm_32(f3, f7, d, a, imm, shamt),
{
    match f3 {
        0 => Some(Instr::Addiw(d, a, imm)),
        1 => if f7 == 0 {
            Some(Instr::Slliw(d, a, shamt))
        } else {
            None
        },
        5 => if f7 == 0 {
            Some(Instr::Srliw(d, a, shamt))
        } else if f7 == 0x20 {
            Some(Instr::Sraiw(d, a, shamt))
        } else {
            None
        },
        _ => None,
    }
}

fn decode_store_exec(f3: u32, s: Reg, o: Offset) -> (r: Option<Instr>)
    ensures
        r == decode_store(f3, s, o),
{
    match f3 {
        0 => Some(Instr::Sb(s, o)),
        1 => Some(Instr::Sh(s, o)),
        2 => Some(Instr::Sw(s, o)),
        3 => Some(Instr::Sd(s, o)),
        _ => None,
    }
}

fn decode_branch_exec(f3: u32, a: Reg, b: Reg, imm: Imm) -> (r: Option<Instr>)
    ensures
        r == decode_branch(f3, a, b, imm),
{
    match f3 {
        0 => Some(Instr::Beq(a, b, imm)),
        1 => Some(Instr::Bne(a, b, imm)),
        4 => Some(Instr::Blt(a, b, imm)),
        5 => Some(Instr::Bge(a, b, imm)),
        6 => Some(Instr::Bltu(a, b, imm)),
        7 => Some(Instr::Bgeu(a, b, imm)),
        _ => None,
    }
}

/// Decodes one instruction word. It reads nothing but its argument, and every
/// operation it returns is well formed.
pub fn decode(raw_instr: u32) -> (r: Option<Instr>)
    ensures
        r == decode_word(raw_instr),
        r matches Some(i) ==> i.wf(),
{
    let w = raw_instr;
    proof {
        lemma_field_bounds(w);
        lemma_reg_index_bijective(Reg::Zero, rd_field(w) as nat);
        lemma_reg_index_bijective(Reg::Zero, rs1_field(w) as nat);
        lemma_reg_index_bijective(Reg::Zero, rs2_field(w) as nat);
    }
    let op = w & 0x7f;
    let f3 = (w >> 12) & 0x7;
    let d = Reg::new((w >> 7) & 0x1f);
    let a = Reg::new((w >> 15) & 0x1f);
    let b = Reg::new((w >> 20) & 0x1f);
    let imm_i = Imm::from_bits(sext12_of((w >> 20) as u64));
    if op == 0x33 {
        decode_op_exec(w >> 25, f3, d, a, b)
    } else if op == 0x3b {
        decode_op_32_exec(w >> 25, f3, d, a, b)
    } else if op == 0x03 {
        decode_load_exec(f3, d, Offset(a, imm_i))
    } else if op == 0x13 {
        let shamt = Imm::from_bits(((w >> 20) & 0x3f) as u64);
        decode_op_imm_exec(f3, w >> 26, d, a, imm_i, shamt)
    } else if op == 0x1b {
        let shamt = Imm::from_bits(((w >> 20) & 0x1f) as u64);
        decode_op_imm_32_exec(f3, w >> 25, d, a, imm_i, shamt)
    } else if op == 0x67 {
        if f3 == 0 {
            Some(Instr::Jalr(d, a, imm_i))
        } else {
            None
        }
    } else if op == 0x23 {
        let imm = Imm::from_bits(sext12_of((((w >> 25) << 5) | ((w >> 7) & 0x1f)) as u64));
        decode_store_exec(f3, b, Offset(a, imm))
    } else if op == 0x63 {
        let x = (((w >> 31) & 1) << 12) | (((w >> 7) & 1) << 11) | (((w >> 25) & 0x3f) << 5) | (((
        w >> 8) & 0xf) << 1);
        decode_branch_exec(f3, a, b, Imm::from_bits(sext13_of(x as u64)))
    } else if op == 0x37 || op == 0x17 {
        let imm = Imm::from_bits(crate::bits::se_word((w & 0xFFFF_F000) as u64));
        if op == 0x37 {
            Some(Instr::Lui(d, imm))
        } else {
            Some(Instr::Auipc(d, imm))
        }
    } else if op == 0x6f {
        let x = (((w >> 31) & 1) << 20) | (((w >> 12) & 0xff) << 12) | (((w >> 20) & 1) << 11) | (((
        w >> 21) & 0x3ff) << 1);
        Some(Instr::Jal(d, Imm::from_bits(sext21_of(x as u64))))
    } else if op == 0x73 {
        Some(Instr::Ecall)
    } else {
        None
    }
}

} // verus!
