//! The supported operations, one variant each, with their typed operands.
use vstd::prelude::*;
use crate::primitives::{Reg, Imm, Offset};

verus! {

/// A decoded instruction. Register-immediate shifts carry the shift amount as
/// their immediate; loads and stores carry a `(base, displacement)` operand.
#[derive(Debug, Clone, Copy)]
pub enum Instr {
    Lui(Reg, Imm),
    Auipc(Reg, Imm),
    Addi(Reg, Reg, Imm),
    Slti(Reg, Reg, Imm),
    Sltiu(Reg, Reg, Imm),
    Xori(Reg, Reg, Imm),
    Ori(Reg, Reg, Imm),
    Andi(Reg, Reg, Imm),
    Slli(Reg, Reg, Imm),
    Srli(Reg, Reg, Imm),
    Srai(Reg, Reg, Imm),
    Add(Reg, Reg, Reg),
    Sub(Reg, Reg, Reg),
    Sll(Reg, Reg, Reg),
    Slt(Reg, Reg, Reg),
    Sltu(Reg, Reg, Reg),
    Xor(Reg, Reg, Reg),
    Srl(Reg, Reg, Reg),
    Sra(Reg, Reg, Reg),
    Or(Reg, Reg, Reg),
    And(Reg, Reg, Reg),
    Lb(Reg, Offset),
    Lh(Reg, Offset),
    Lw(Reg, Offset),
    Ld(Reg, Offset),
    Lbu(Reg, Offset),
    Lhu(Reg, Offset),
    Lwu(Reg, Offset),
    Sb(Reg, Offset),
    Sh(Reg, Offset),
    Sw(Reg, Offset),
    Sd(Reg, Offset),
    Jal(Reg, Imm),
    Jalr(Reg, Reg, Imm),
    Beq(Reg, Reg, Imm),
    Bne(Reg, Reg, Imm),
    Blt(Reg, Reg, Imm),
    Bge(Reg, Reg, Imm),
    Bltu(Reg, Reg, Imm),
    Bgeu(Reg, Reg, Imm),
    Ecall,
    Addiw(Reg, Reg, Imm),
    Slliw(Reg, Reg, Imm),
    Srliw(Reg, Reg, Imm),
    Sraiw(Reg, Reg, Imm),
    Addw(Reg, Reg, Reg),
    Subw(Reg, Reg, Reg),
    Sllw(Reg, Reg, Reg),
    Srlw(Reg, Reg, Reg),
    Sraw(Reg, Reg, Reg),
    Mul(Reg, Reg, Reg),
    Div(Reg, Reg, Reg),
    Rem(Reg, Reg, Reg),
    Mulw(Reg, Reg, Reg),
    Divw(Reg, Reg, Reg),
    Remw(Reg, Reg, Reg),
}

impl Instr {
    /// Every register operand names a register and every immediate is
    /// sign-tagged consistently.
    pub open spec fn wf(self) -> bool {
        match self {
            Instr::Lui(d, i) | Instr::Auipc(d, i) | Instr::Jal(d, i) => d.wf() && i.wf(),
            Instr::Addi(d, s, i) | Instr::Slti(d, s, i) | Instr::Sltiu(d, s, i)
            | Instr::Xori(d, s, i) | Instr::Ori(d, s, i) | Instr::Andi(d, s, i)
            | Instr::Slli(d, s, i) | Instr::Srli(d, s, i) | Instr::Srai(d, s, i)
            | Instr::Jalr(d, s, i) | Instr::Beq(d, s, i) | Instr::Bne(d, s, i)
            | Instr::Blt(d, s, i) | Instr::Bge(d, s, i) | Instr::Bltu(d, s, i)
            | Instr::Bgeu(d, s, i) | Instr::Addiw(d, s, i) | Instr::Slliw(d, s, i)
            | Instr::Srliw(d, s, i) | Instr::Sraiw(d, s, i) => d.wf() && s.wf() && i.wf(),
            Instr::Add(d, a, b) | Instr::Sub(d, a, b) | Instr::Sll(d, a, b)
            | Instr::Slt(d, a, b) | Instr::Sltu(d, a, b) | Instr::Xor(d, a, b)
            | Instr::Srl(d, a, b) | Instr::Sra(d, a, b) | Instr::Or(d, a, b)
            | Instr::And(d, a, b) | Instr::Addw(d, a, b) | Instr::Subw(d, a, b)
            | Instr::Sllw(d, a, b) | Instr::Srlw(d, a, b) | Instr::Sraw(d, a, b)
            | Instr::Mul(d, a, b) | Instr::Div(d, a, b) | Instr::Rem(d, a, b)
            | Instr::Mulw(d, a, b) | Instr::Divw(d, a, b) | Instr::Remw(d, a, b) => d.wf()
                && a.wf() && b.wf(),
            Instr::Lb(d, o) | Instr::Lh(d, o) | Instr::Lw(d, o) | Instr::Ld(d, o)
            | Instr::Lbu(d, o) | Instr::Lhu(d, o) | Instr::Lwu(d, o) | Instr::Sb(d, o)
            | Instr::Sh(d, o) | Instr::Sw(d, o) | Instr::Sd(d, o) => d.wf() && o.wf(),
            Instr::Ecall => true,
        }
    }

    /// Control-transfer instructions set the program counter themselves; every
    /// other instruction falls through to the next word.
    pub open spec fn is_control_transfer(self) -> bool {
        match self {
            Instr::Jal(..) | Instr::Jalr(..) | Instr::Beq(..) | Instr::Bne(..)
            | Instr::Blt(..) | Instr::Bge(..) | Instr::Bltu(..) | Instr::Bgeu(..) => true,
            _ => false,
        }
    }

    /// The instruction computes in 32 bits and sign-extends its result.
    pub open spec fn is_word_variant(self) -> bool {
        match self {
            Instr::Addiw(..) | Instr::Slliw(..) | Instr::Srliw(..) | Instr::Sraiw(..)
            | Instr::Addw(..) | Instr::Subw(..) | Instr::Sllw(..) | Instr::Srlw(..)
            | Instr::Sraw(..) | Instr::Mulw(..) | Instr::Divw(..) | Instr::Remw(..) => true,
            _ => false,
        }
    }
}

} // verus!
