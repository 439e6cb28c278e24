//! The standard encoding of each operation into a 32-bit word, and the proof
//! that decoding inverts it.
use vstd::prelude::*;
use crate::decoding::{
    decode_word, funct3, funct7, imm_b, imm_i, imm_j, imm_s, imm_u, opcode, rd_field, reg_at,
    rs1_field, rs2_field, sext12, sext13, sext21, shamt5, shamt6,
};
use crate::bits::sext32;
use crate::instruction_set::Instr;
use crate::primitives::{Reg, Imm, lemma_reg_index_bijective};

verus! {

/// Fields in the common layout: `top` in bits 31:25, `mid` in 24:20, `rs1`
/// in 19:15, `f3` in 14:12, `low` in 11:7 and the opcode in 6:0.
pub open spec fn pack(op: u32, low: u32, f3: u32, rs1: u32, mid: u32, top: u32) -> u32 {
    (top << 25) | (mid << 20) | (rs1 << 15) | (f3 << 12) | (low << 7) | op
}

pub open spec fn num(r: Reg) -> u32 {
    r.index() as u32
}

/// R-type: two source registers and a destination.
pub open spec fn enc_r(op: u32, f3: u32, f7: u32, d: Reg, a: Reg, b: Reg) -> u32 {
    pack(op, num(d), f3, num(a), num(b), f7)
}

/// I-type: a 12-bit immediate in bits 31:20.
pub open spec fn enc_i(op: u32, f3: u32, d: Reg, a: Reg, imm: u64) -> u32 {
    pack(op, num(d), f3, num(a), ((imm & 0x1f) as u32), (((imm >> 5) & 0x7f) as u32))
}

/// A shift by an immediate: `hi` in bits 31:26, the shift amount in 25:20.
pub open spec fn enc_shift(op: u32, f3: u32, hi: u32, d: Reg, a: Reg, sh: u64) -> u32 {
    pack(op, num(d), f3, num(a), ((sh & 0x1f) as u32), (hi << 1) | ((sh >> 5) as u32))
}

/// S-type: the immediate split between bits 31:25 and 11:7.
pub open spec fn enc_s(f3: u32, src: Reg, a: Reg, imm: u64) -> u32 {
    pack(0x23, ((imm & 0x1f) as u32), f3, num(a), num(src), (((imm >> 5) & 0x7f) as u32))
}

/// B-type: immediate bits 12, 10:5, 4:1 and 11 in bits 31, 30:25, 11:8 and 7.
pub open spec fn enc_b(f3: u32, a: Reg, b: Reg, imm: u64) -> u32 {
    pack(
        0x63,
        ((((imm >> 1) & 0xf) << 1) | ((imm >> 11) & 1)) as u32,
        f3,
        num(a),
        num(b),
        ((((imm >> 12) & 1) << 6) | ((imm >> 5) & 0x3f)) as u32,
    )
}

/// U-type: immediate bits 31:12 in place.
pub open spec fn enc_u(op: u32, d: Reg, imm: u64) -> u32 {
    ((imm & 0xFFFF_F000) as u32) | (num(d) << 7) | op
}

/// J-type: immediate bits 20, 10:1, 11 and 19:12 in bits 31, 30:21, 20 and
/// 19:12.
pub open spec fn enc_j(d: Reg, imm: u64) -> u32 {
    ((((imm >> 20) & 1) << 31) | (((imm >> 1) & 0x3ff) << 21) | (((imm >> 11) & 1) << 20) | (((imm
        >> 12) & 0xff) << 12)) as u32 | (num(d) << 7) | 0x6f
}

/// The word an assembler emits for the operation.
pub open spec fn encode(i: Instr) -> u32 {
    match i {
        Instr::Lui(d, u) => enc_u(0x37, d, u.raw()),
        Instr::Auipc(d, u) => enc_u(0x17, d, u.raw()),
        Instr::Addi(d, a, m) => enc_i(0x13, 0, d, a, m.raw()),
        Instr::Slti(d, a, m) => enc_i(0x13, 2, d, a, m.raw()),
        Instr::Sltiu(d, a, m) => enc_i(0x13, 3, d, a, m.raw()),
        Instr::Xori(d, a, m) => enc_i(0x13, 4, d, a, m.raw()),
        Instr::Ori(d, a, m) => enc_i(0x13, 6, d, a, m.raw()),
        Instr::Andi(d, a, m) => enc_i(0x13, 7, d, a, m.raw()),
        Instr::Slli(d, a, m) => enc_shift(0x13, 1, 0, d, a, m.raw()),
        Instr::Srli(d, a, m) => enc_shift(0x13, 5, 0, d, a, m.raw()),
        Instr::Srai(d, a, m) => enc_shift(0x13, 5, 0x10, d, a, m.raw()),
        Instr::Add(d, a, b) => enc_r(0x33, 0, 0, d, a, b),
        Instr::Sub(d, a, b) => enc_r(0x33, 0, 0x20, d, a, b),
        Instr::Sll(d, a, b) => enc_r(0x33, 1, 0, d, a, b),
        Instr::Slt(d, a, b) => enc_r(0x33, 2, 0, d, a, b),
        Instr::Sltu(d, a, b) => enc_r(0x33, 3, 0, d, a, b),
        Instr::Xor(d, a, b) => enc_r(0x33, 4, 0, d, a, b),
        Instr::Srl(d, a, b) => enc_r(0x33, 5, 0, d, a, b),
        Instr::Sra(d, a, b) => enc_r(0x33, 5, 0x20, d, a, b),
        Instr::Or(d, a, b) => enc_r(0x33, 6, 0, d, a, b),
        Instr::And(d, a, b) => enc_r(0x33, 7, 0, d, a, b),
        Instr::Lb(d, o) => enc_i(0x03, 0, d, o.0, o.1.raw()),
        Instr::Lh(d, o) => enc_i(0x03, 1, d, o.0, o.1.raw()),
        Instr::Lw(d, o) => enc_i(0x03, 2, d, o.0, o.1.raw()),
        Instr::Ld(d, o) => enc_i(0x03, 3, d, o.0, o.1.raw()),
        Instr::Lbu(d, o) => enc_i(0x03, 4, d, o.0, o.1.raw()),
        Instr::Lhu(d, o) => enc_i(0x03, 5, d, o.0, o.1.raw()),
        Instr::Lwu(d, o) => enc_i(0x03, 6, d, o.0, o.1.raw()),
        Instr::Sb(r, o) => enc_s(0, r, o.0, o.1.raw()),
        Instr::Sh(r, o) => enc_s(1, r, o.0, o.1.raw()),
        Instr::Sw(r, o) => enc_s(2, r, o.0, o.1.raw()),
        Instr::Sd(r, o) => enc_s(3, r, o.0, o.1.raw()),
        Instr::Jal(d, m) => enc_j(d, m.raw()),
        Instr::Jalr(d, a, m) => enc_i(0x67, 0, d, a, m.raw()),
        Instr::Beq(a, b, m) => enc_b(0, a, b, m.raw()),
        Instr::Bne(a, b, m) => enc_b(1, a, b, m.raw()),
        Instr::Blt(a, b, m) => enc_b(4, a, b, m.raw()),
        Instr::Bge(a, b, m) => enc_b(5, a, b, m.raw()),
        Instr::Bltu(a, b, m) => enc_b(6, a, b, m.raw()),
        Instr::Bgeu(a, b, m) => enc_b(7, a, b, m.raw()),
        Instr::Ecall => 0x73,
        Instr::Addiw(d, a, m) => enc_i(0x1b, 0, d, a, m.raw()),
        Instr::Slliw(d, a, m) => enc_shift(0x1b, 1, 0, d, a, m.raw()),
        Instr::Srliw(d, a, m) => enc_shift(0x1b, 5, 0, d, a, m.raw()),
        Instr::Sraiw(d, a, m) => enc_shift(0x1b, 5, 0x10, d, a, m.raw()),
        Instr::Addw(d, a, b) => enc_r(0x3b, 0, 0, d, a, b),
        Instr::Subw(d, a, b) => enc_r(0x3b, 0, 0x20, d, a, b),
        Instr::Sllw(d, a, b) => enc_r(0x3b, 1, 0, d, a, b),
        Instr::Srlw(d, a, b) => enc_r(0x3b, 5, 0, d, a, b),
        Instr::Sraw(d, a, b) => enc_r(0x3b, 5, 0x20, d, a, b),
        Instr::Mul(d, a, b) => enc_r(0x33, 0, 1, d, a, b),
        Instr::Div(d, a, b) => enc_r(0x33, 4, 1, d, a, b),
        Instr::Rem(d, a, b) => enc_r(0x33, 6, 1, d, a, b),
        Instr::Mulw(d, a, b) => enc_r(0x3b, 0, 1, d, a, b),
        Instr::Divw(d, a, b) => enc_r(0x3b, 4, 1, d, a, b),
        Instr::Remw(d, a, b) => enc_r(0x3b, 6, 1, d, a, b),
    }
}

/// `v` is a `bits`-bit signed value, sign-extended to 64 bits.
pub open spec fn fits_signed(v: u64, bits: nat) -> bool {
    if bits == 12 {
        v < 0x800 || v >= 0xFFFF_FFFF_FFFF_F800
    } else if bits == 13 {
        v < 0x1000 || v >= 0xFFFF_FFFF_FFFF_F000
    } else if bits == 21 {
        v < 0x10_0000 || v >= 0xFFFF_FFFF_FFF0_0000
    } else {
        v < 0x8000_0000 || v >= 0xFFFF_FFFF_8000_0000
    }
}

/// The operation's operands fit its encoding: immediates within their field
/// widths, branch and jump offsets even, upper immediates with low 12 bits
/// zero, shift amounts below the operand width.
pub open spec fn encodable(i: Instr) -> bool {
    &&& i.wf()
    &&& match i {
        Instr::Lui(_, u) | Instr::Auipc(_, u) => u.raw() & 0xfff == 0 && fits_signed(u.raw(), 32),
        Instr::Addi(_, _, m) | Instr::Slti(_, _, m) | Instr::Sltiu(_, _, m) | Instr::Xori(_, _, m)
        | Instr::Ori(_, _, m) | Instr::Andi(_, _, m) | Instr::Jalr(_, _, m) | Instr::Addiw(
            _,
            _,
            m,
        ) => fits_signed(m.raw(), 12),
        Instr::Lb(_, o) | Instr::Lh(_, o) | Instr::Lw(_, o) | Instr::Ld(_, o) | Instr::Lbu(_, o)
        | Instr::Lhu(_, o) | Instr::Lwu(_, o) | Instr::Sb(_, o) | Instr::Sh(_, o) | Instr::Sw(
            _,
            o,
        ) | Instr::Sd(_, o) => fits_signed(o.1.raw(), 12),
        Instr::Slli(_, _, m) | Instr::Srli(_, _, m) | Instr::Srai(_, _, m) => m.raw() < 64,
        Instr::Slliw(_, _, m) | Instr::Srliw(_, _, m) | Instr::Sraiw(_, _, m) => m.raw() < 32,
        Instr::Beq(_, _, m) | Instr::Bne(_, _, m) | Instr::Blt(_, _, m) | Instr::Bge(_, _, m)
        | Instr::Bltu(_, _, m) | Instr::Bgeu(_, _, m) => m.raw() & 1 == 0 && fits_signed(
            m.raw(),
            13,
        ),
        Instr::Jal(_, m) => m.raw() & 1 == 0 && fits_signed(m.raw(), 21),
        _ => true,
    }
}

proof fn lemma_pack_fields(op: u32, low: u32, f3: u32, rs1: u32, mid: u32, top: u32)
    by (bit_vector)
    requires
        op < 0x80,
        low < 32,
        f3 < 8,
        rs1 < 32,
        mid < 32,
        top < 0x80,
    ensures
        pack(op, low, f3, rs1, mid, top) & 0x7f == op,
        (pack(op, low, f3, rs1, mid, top) >> 7) & 0x1f == low,
        (pack(op, low, f3, rs1, mid, top) >> 12) & 0x7 == f3,
        (pack(op, low, f3, rs1, mid, top) >> 15) & 0x1f == rs1,
        (pack(op, low, f3, rs1, mid, top) >> 20) & 0x1f == mid,
        pack(op, low, f3, rs1, mid, top) >> 25 == top,
        pack(op, low, f3, rs1, mid, top) >> 26 == top >> 1,
        (pack(op, low, f3, rs1, mid, top) >> 20) & 0x3f == ((top & 1) << 5) | mid,
        pack(op, low, f3, rs1, mid, top) >> 20 == (top << 5) | mid,
        (pack(op, low, f3, rs1, mid, top) >> 31) & 1 == (top >> 6) & 1,
        (pack(op, low, f3, rs1, mid, top) >> 7) & 1 == low & 1,
        (pack(op, low, f3, rs1, mid, top) >> 25) & 0x3f == top & 0x3f,
        (pack(op, low, f3, rs1, mid, top) >> 8) & 0xf == (low >> 1) & 0xf,
{
}

proof fn lemma_imm_i(imm: u64)
    by (bit_vector)
    requires
        imm < 0x800 || imm >= 0xFFFF_FFFF_FFFF_F800,
    ensures
        ((imm & 0x1f) as u32) < 32,
        (((imm >> 5) & 0x7f) as u32) < 0x80,
        sext12((((((imm >> 5) & 0x7f) as u32) << 5) | ((imm & 0x1f) as u32)) as u64) == imm,
{
}

proof fn lemma_shift_fields(hi: u32, sh: u64)
    by (bit_vector)
    requires
        hi < 64,
        sh < 64,
    ensures
        ((sh & 0x1f) as u32) < 32,
        (hi << 1) | ((sh >> 5) as u32) < 0x80,
        ((((hi << 1) | ((sh >> 5) as u32)) & 1) << 5) | ((sh & 0x1f) as u32) == sh,
        ((hi << 1) | ((sh >> 5) as u32)) >> 1 == hi,
        sh < 32 ==> (hi << 1) | ((sh >> 5) as u32) == hi << 1,
        sh < 32 ==> ((sh & 0x1f) as u32) == sh,
        sh < 32 && hi == 0 ==> (hi << 1) | ((sh >> 5) as u32) == 0,
        sh < 32 && hi == 0x10 ==> (hi << 1) | ((sh >> 5) as u32) == 0x20,
{
}

proof fn lemma_imm_b(imm: u64)
    by (bit_vector)
    requires
        imm & 1 == 0,
        imm < 0x1000 || imm >= 0xFFFF_FFFF_FFFF_F000,
    ensures
        (((((imm >> 1) & 0xf) << 1) | ((imm >> 11) & 1)) as u32) < 32,
        (((((imm >> 12) & 1) << 6) | ((imm >> 5) & 0x3f)) as u32) < 0x80,
        ({
            let low = ((((imm >> 1) & 0xf) << 1) | ((imm >> 11) & 1)) as u32;
            let top = ((((imm >> 12) & 1) << 6) | ((imm >> 5) & 0x3f)) as u32;
            sext13(
                ((((top >> 6) & 1) << 12) | ((low & 1) << 11) | ((top & 0x3f) << 5) | (((low >> 1)
                    & 0xf) << 1)) as u64,
            ) == imm
        }),
{
}

proof fn lemma_enc_u(op: u32, d: u32, imm: u64)
    by (bit_vector)
    requires
        op < 0x80,
        d < 32,
        imm & 0xfff == 0,
        imm < 0x8000_0000 || imm >= 0xFFFF_FFFF_8000_0000,
    ensures
        (((imm & 0xFFFF_F000) as u32) | (d << 7) | op) & 0x7f == op,
        ((((imm & 0xFFFF_F000) as u32) | (d << 7) | op) >> 7) & 0x1f == d,
        sext32(((((imm & 0xFFFF_F000) as u32) | (d << 7) | op) & 0xFFFF_F000) as u64) == imm,
{
}

proof fn lemma_enc_j(d: u32, imm: u64)
    by (bit_vector)
    requires
        d < 32,
        imm & 1 == 0,
        imm < 0x10_0000 || imm >= 0xFFFF_FFFF_FFF0_0000,
    ensures
        ({
            let w = ((((imm >> 20) & 1) << 31) | (((imm >> 1) & 0x3ff) << 21) | (((imm >> 11) & 1)
                << 20) | (((imm >> 12) & 0xff) << 12)) as u32 | (d << 7) | 0x6f;
            &&& w & 0x7f == 0x6f
            &&& (w >> 7) & 0x1f == d
            &&& sext21(
                ((((w >> 31) & 1) << 20) | (((w >> 12) & 0xff) << 12) | (((w >> 20) & 1) << 11)
                    | (((w >> 21) & 0x3ff) << 1)) as u64,
            ) == imm
        }),
{
}

proof fn lemma_num(r: Reg)
    requires
        r.wf(),
    ensures
        num(r) < 32,
        Reg::from_index(num(r) as nat) == r,
{
    lemma_reg_index_bijective(r, 0);
}

proof fn lemma_imm_from_raw(m: Imm)
    requires
        m.wf(),
    ensures
        Imm::from_raw(m.raw()) == m,
{
}

proof fn lemma_r_word(op: u32, f3: u32, f7: u32, d: Reg, a: Reg, b: Reg)
    requires
        op < 0x80,
        f3 < 8,
        f7 < 0x80,
        d.wf(),
        a.wf(),
        b.wf(),
    ensures
        ({
            let w = enc_r(op, f3, f7, d, a, b);
            &&& opcode(w) == op
            &&& funct3(w) == f3
            &&& funct7(w) == f7
            &&& reg_at(rd_field(w)) == d
            &&& reg_at(rs1_field(w)) == a
            &&& reg_at(rs2_field(w)) == b
        }),
{
    lemma_num(d);
    lemma_num(a);
    lemma_num(b);
    lemma_pack_fields(op, num(d), f3, num(a), num(b), f7);
}

proof fn lemma_i_word(op: u32, f3: u32, d: Reg, a: Reg, m: Imm)
    requires
        op < 0x80,
        f3 < 8,
        d.wf(),
        a.wf(),
        m.wf(),
        fits_signed(m.raw(), 12),
    ensures
        ({
            let w = enc_i(op, f3, d, a, m.raw());
            &&& opcode(w) == op
            &&& funct3(w) == f3
            &&& reg_at(rd_field(w)) == d
            &&& reg_at(rs1_field(w)) == a
            &&& Imm::from_raw(imm_i(w)) == m
        }),
{
    lemma_num(d);
    lemma_num(a);
    lemma_imm_i(m.raw());
    lemma_pack_fields(op, num(d), f3, num(a), (m.raw() & 0x1f) as u32, ((m.raw() >> 5) & 0x7f) as u32);
    lemma_imm_from_raw(m);
}

proof fn lemma_shift_word(op: u32, f3: u32, hi: u32, d: Reg, a: Reg, m: Imm)
    requires
        op < 0x80,
        f3 < 8,
        hi < 64,
        d.wf(),
        a.wf(),
        m.wf(),
        m.raw() < 64,
    ensures
        ({
            let w = enc_shift(op, f3, hi, d, a, m.raw());
            &&& opcode(w) == op
            &&& funct3(w) == f3
            &&& reg_at(rd_field(w)) == d
            &&& reg_at(rs1_field(w)) == a
            &&& w >> 26 == hi
            &&& Imm::from_raw(shamt6(w)) == m
            &&& m.raw() < 32 ==> Imm::from_raw(shamt5(w)) == m
            &&& m.raw() < 32 && hi == 0 ==> funct7(w) == 0
            &&& m.raw() < 32 && hi == 0x10 ==> funct7(w) == 0x20
        }),
{
    let sh = m.raw();
    lemma_num(d);
    lemma_num(a);
    lemma_shift_fields(hi, sh);
    lemma_pack_fields(op, num(d), f3, num(a), (sh & 0x1f) as u32, (hi << 1) | ((sh >> 5) as u32));
    lemma_imm_from_raw(m);
}

proof fn lemma_s_word(f3: u32, src: Reg, a: Reg, m: Imm)
    requires
        f3 < 8,
        src.wf(),
        a.wf(),
        m.wf(),
        fits_signed(m.raw(), 12),
    ensures
        ({
            let w = enc_s(f3, src, a, m.raw());
            &&& opcode(w) == 0x23
            &&& funct3(w) == f3
            &&& reg_at(rs2_field(w)) == src
            &&& reg_at(rs1_field(w)) == a
            &&& Imm::from_raw(imm_s(w)) == m
        }),
{
    lemma_num(src);
    lemma_num(a);
    lemma_imm_i(m.raw());
    lemma_pack_fields(0x23, (m.raw() & 0x1f) as u32, f3, num(a), num(src), ((m.raw() >> 5) & 0x7f) as u32);
    lemma_imm_from_raw(m);
}

proof fn lemma_b_word(f3: u32, a: Reg, b: Reg, m: Imm)
    requires
        f3 < 8,
        a.wf(),
        b.wf(),
        m.wf(),
        m.raw() & 1 == 0,
        fits_signed(m.raw(), 13),
    ensures
        ({
            let w = enc_b(f3, a, b, m.raw());
            &&& opcode(w) == 0x63
            &&& funct3(w) == f3
            &&& reg_at(rs1_field(w)) == a
            &&& reg_at(rs2_field(w)) == b
            &&& Imm::from_raw(imm_b(w)) == m
        }),
{
    let imm = m.raw();
    lemma_num(a);
    lemma_num(b);
    lemma_imm_b(imm);
    let low = ((((imm >> 1) & 0xf) << 1) | ((imm >> 11) & 1)) as u32;
    let top = ((((imm >> 12) & 1) << 6) | ((imm >> 5) & 0x3f)) as u32;
    lemma_pack_fields(0x63, low, f3, num(a), num(b), top);
    lemma_imm_from_raw(m);
}

proof fn lemma_u_word(op: u32, d: Reg, m: Imm)
    requires
        op < 0x80,
        d.wf(),
        m.wf(),
        m.raw() & 0xfff == 0,
        fits_signed(m.raw(), 32),
    ensures
        ({
            let w = enc_u(op, d, m.raw());
            &&& opcode(w) == op
            &&& reg_at(rd_field(w)) == d
            &&& Imm::from_raw(imm_u(w)) == m
        }),
{
    lemma_num(d);
    lemma_enc_u(op, num(d), m.raw());
    lemma_imm_from_raw(m);
}

proof fn lemma_j_word(d: Reg, m: Imm)
    requires
        d.wf(),
        m.wf(),
        m.raw() & 1 == 0,
        fits_signed(m.raw(), 21),
    ensures
        ({
            let w = enc_j(d, m.raw());
            &&& opcode(w) == 0x6f
            &&& reg_at(rd_field(w)) == d
            &&& Imm::from_raw(imm_j(w)) == m
        }),
{
    lemma_num(d);
    lemma_enc_j(num(d), m.raw());
    lemma_imm_from_raw(m);
}

/// Decoding inverts the encoding: every operation whose operands fit its
/// encoding is recovered, operands included, from the word an assembler emits
/// for it.
pub proof fn law_decode_encode_round_trip(i: Instr)
    requires
        encodable(i),
    ensures
        decode_word(encode(i)) == Some(i),
{
    match i {
        Instr::Lui(d, u) => lemma_u_word(0x37, d, u),
        Instr::Auipc(d, u) => lemma_u_word(0x17, d, u),
        Instr::Addi(d, a, m) => lemma_i_word(0x13, 0, d, a, m),
        Instr::Slti(d, a, m) => lemma_i_word(0x13, 2, d, a, m),
        Instr::Sltiu(d, a, m) => lemma_i_word(0x13, 3, d, a, m),
        Instr::Xori(d, a, m) => lemma_i_word(0x13, 4, d, a, m),
        Instr::Ori(d, a, m) => lemma_i_word(0x13, 6, d, a, m),
        Instr::Andi(d, a, m) => lemma_i_word(0x13, 7, d, a, m),
        Instr::Slli(d, a, m) => lemma_shift_word(0x13, 1, 0, d, a, m),
        Instr::Srli(d, a, m) => lemma_shift_word(0x13, 5, 0, d, a, m),
        Instr::Srai(d, a, m) => lemma_shift_word(0x13, 5, 0x10, d, a, m),
        Instr::Add(d, a, b) => lemma_r_word(0x33, 0, 0, d, a, b),
        Instr::Sub(d, a, b) => lemma_r_word(0x33, 0, 0x20, d, a, b),
        Instr::Sll(d, a, b) => lemma_r_word(0x33, 1, 0, d, a, b),
        Instr::Slt(d, a, b) => lemma_r_word(0x33, 2, 0, d, a, b),
        Instr::Sltu(d, a, b) => lemma_r_word(0x33, 3, 0, d, a, b),
        Instr::Xor(d, a, b) => lemma_r_word(0x33, 4, 0, d, a, b),
        Instr::Srl(d, a, b) => lemma_r_word(0x33, 5, 0, d, a, b),
        Instr::Sra(d, a, b) => lemma_r_word(0x33, 5, 0x20, d, a, b),
        Instr::Or(d, a, b) => lemma_r_word(0x33, 6, 0, d, a, b),
        Instr::And(d, a, b) => lemma_r_word(0x33, 7, 0, d, a, b),
        Instr::Lb(d, o) => lemma_i_word(0x03, 0, d, o.0, o.1),
        Instr::Lh(d, o) => lemma_i_word(0x03, 1, d, o.0, o.1),
        Instr::Lw(d, o) => lemma_i_word(0x03, 2, d, o.0, o.1),
        Instr::Ld(d, o) => lemma_i_word(0x03, 3, d, o.0, o.1),
        Instr::Lbu(d, o) => lemma_i_word(0x03, 4, d, o.0, o.1),
        Instr::Lhu(d, o) => lemma_i_word(0x03, 5, d, o.0, o.1),
        Instr::Lwu(d, o) => lemma_i_word(0x03, 6, d, o.0, o.1),
        Instr::Sb(r, o) => lemma_s_word(0, r, o.0, o.1),
        Instr::Sh(r, o) => lemma_s_word(1, r, o.0, o.1),
        Instr::Sw(r, o) => lemma_s_word(2, r, o.0, o.1),
        Instr::Sd(r, o) => lemma_s_word(3, r, o.0, o.1),
        Instr::Jal(d, m) => lemma_j_word(d, m),
        Instr::Jalr(d, a, m) => lemma_i_word(0x67, 0, d, a, m),
        Instr::Beq(a, b, m) => lemma_b_word(0, a, b, m),
        Instr::Bne(a, b, m) => lemma_b_word(1, a, b, m),
        Instr::Blt(a, b, m) => lemma_b_word(4, a, b, m),
        Instr::Bge(a, b, m) => lemma_b_word(5, a, b, m),
        Instr::Bltu(a, b, m) => lemma_b_word(6, a, b, m),
        Instr::Bgeu(a, b, m) => lemma_b_word(7, a, b, m),
        Instr::Ecall => {
            assert(0x73u32 & 0x7f == 0x73) by (bit_vector);
        },
        Instr::Addiw(d, a, m) => lemma_i_word(0x1b, 0, d, a, m),
        Instr::Slliw(d, a, m) => lemma_shift_word(0x1b, 1, 0, d, a, m),
        Instr::Srliw(d, a, m) => lemma_shift_word(0x1b, 5, 0, d, a, m),
        Instr::Sraiw(d, a, m) => lemma_shift_word(0x1b, 5, 0x10, d, a, m),
        Instr::Addw(d, a, b) => lemma_r_word(0x3b, 0, 0, d, a, b),
        Instr::Subw(d, a, b) => lemma_r_word(0x3b, 0, 0x20, d, a, b),
        Instr::Sllw(d, a, b) => lemma_r_word(0x3b, 1, 0, d, a, b),
        Instr::Srlw(d, a, b) => lemma_r_word(0x3b, 5, 0, d, a, b),
        Instr::Sraw(d, a, b) => lemma_r_word(0x3b, 5, 0x20, d, a, b),
        Instr::Mul(d, a, b) => lemma_r_word(0x33, 0, 1, d, a, b),
        Instr::Div(d, a, b) => lemma_r_word(0x33, 4, 1, d, a, b),
        Instr::Rem(d, a, b) => lemma_r_word(0x33, 6, 1, d, a, b),
        Instr::Mulw(d, a, b) => lemma_r_word(0x3b, 0, 1, d, a, b),
        Instr::Divw(d, a, b) => lemma_r_word(0x3b, 4, 1, d, a, b),
        Instr::Remw(d, a, b) => lemma_r_word(0x3b, 6, 1, d, a, b),
    }
}

} // verus!
