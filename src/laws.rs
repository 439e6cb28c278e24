//! Properties of the machine that hold for every input, proved from the
//! model that the decoder and executor implement.
use vstd::prelude::*;
use crate::bits::{add64, lo32, sext32, word32};
use crate::decoding::{decode_word, imm_u};
use crate::instruction_set::Instr;
use crate::machine::{
    alu_result, execute_spec, load_le, run_spec, step_spec, step_word, upper, Fault,
    MachineState,
};
use crate::primitives::{Imm, Reg};

verus! {

/// Executing any instruction keeps register 0 reading zero.
pub proof fn law_execute_keeps_zero_register(s: MachineState, i: Instr)
    requires
        s.wf(),
        i.wf(),
    ensures
        execute_spec(s, i) matches Ok(s2) ==> s2.wf() && s2.reg(Reg::Zero) == 0,
{
}

/// Every state that a run reaches reads zero in register 0.
pub proof fn law_run_keeps_zero_register(s: MachineState, n: nat)
    requires
        s.wf(),
    ensures
        run_spec(s, n).0.wf(),
        run_spec(s, n).0.reg(Reg::Zero) == 0,
    decreases n,
{
    if n > 0 {
        if !s.halted && s.in_range(s.pc, 4) {
            if let Some(i) = decode_word(s.fetch()) {
                crate::decoding::lemma_decode_wf(s.fetch());
                law_execute_keeps_zero_register(s, i);
            }
        }
        match step_spec(s) {
            Ok((s2, true)) => law_run_keeps_zero_register(s2, (n - 1) as nat),
            _ => {},
        }
    }
}

/// A sequential (non-branch, non-jump) instruction moves the program counter
/// to the next word, so an aligned program counter stays aligned.
pub proof fn law_sequential_pc(s: MachineState, i: Instr)
    requires
        s.wf(),
        !i.is_control_transfer(),
    ensures
        execute_spec(s, i) matches Ok(s2) ==> s2.pc == add64(s.pc, 4) && (s.pc % 4 == 0 ==> s2.pc
            % 4 == 0),
{
}

/// The state `Emulator::step` leaves: the new state, or on a fault the old
/// one.
pub open spec fn state_after_step(s: MachineState, w: u32) -> MachineState {
    match step_word(s, w) {
        Ok((s2, _)) => s2,
        Err(_) => s,
    }
}

/// Stepping a sequential instruction from an aligned program counter leaves
/// it aligned: a completed step moves it to the next word, while a halted
/// machine or a fault leaves it where it was.
pub proof fn law_step_keeps_pc_aligned(s: MachineState, w: u32)
    requires
        s.wf(),
        s.pc % 4 == 0,
        decode_word(w) matches Some(i) && !i.is_control_transfer(),
    ensures
        state_after_step(s, w).pc % 4 == 0,
        step_word(s, w) matches Ok((_, true)) ==> state_after_step(s, w).pc == add64(s.pc, 4),
{
    law_sequential_pc(s, decode_word(w)->Some_0);
}

/// The mask of the low `w` bytes.
pub open spec fn byte_mask(w: nat) -> u64 {
    if w == 1 {
        0xff
    } else if w == 2 {
        0xffff
    } else if w == 4 {
        0xffff_ffff
    } else {
        0xffff_ffff_ffff_ffff
    }
}

/// Loading what was just stored at the same address and width gives back the
/// stored value's low `w` bytes.
pub proof fn law_store_then_load(s: MachineState, a: u64, w: nat, v: u64)
    requires
        s.in_range(a, w),
        w == 1 || w == 2 || w == 4 || w == 8,
    ensures
        s.store(a, w, v).load(a, w) == v & byte_mask(w),
{
    reveal_with_fuel(load_le, 9);
    let m = s.store(a, w, v).mem;
    let b0 = ((v >> 0u64) & 0xff) as u8;
    let b1 = ((v >> 8u64) & 0xff) as u8;
    let b2 = ((v >> 16u64) & 0xff) as u8;
    let b3 = ((v >> 24u64) & 0xff) as u8;
    let b4 = ((v >> 32u64) & 0xff) as u8;
    let b5 = ((v >> 40u64) & 0xff) as u8;
    let b6 = ((v >> 48u64) & 0xff) as u8;
    let b7 = ((v >> 56u64) & 0xff) as u8;
    assert(m[a as int] == b0);
    if w >= 2 {
        assert(m[a + 1] == b1);
    }
    if w >= 4 {
        assert(m[a + 2] == b2);
        assert(m[a + 3] == b3);
    }
    if w == 8 {
        assert(m[a + 4] == b4);
        assert(m[a + 5] == b5);
        assert(m[a + 6] == b6);
        assert(m[a + 7] == b7);
    }
    assert(((0u64 << 8) | b0 as u64) == v & 0xff && ((((0u64 << 8) | b1 as u64) << 8) | b0 as u64)
        == v & 0xffff && ((((((((0u64 << 8) | b3 as u64) << 8) | b2 as u64) << 8) | b1 as u64)
        << 8) | b0 as u64) == v & 0xffff_ffff && ((((((((((((((((0u64 << 8) | b7 as u64) << 8)
        | b6 as u64) << 8) | b5 as u64) << 8) | b4 as u64) << 8) | b3 as u64) << 8) | b2 as u64)
        << 8) | b1 as u64) << 8) | b0 as u64) == v & 0xffff_ffff_ffff_ffff) by (bit_vector)
        requires
            b0 == ((v >> 0u64) & 0xff) as u8,
            b1 == ((v >> 8u64) & 0xff) as u8,
            b2 == ((v >> 16u64) & 0xff) as u8,
            b3 == ((v >> 24u64) & 0xff) as u8,
            b4 == ((v >> 32u64) & 0xff) as u8,
            b5 == ((v >> 40u64) & 0xff) as u8,
            b6 == ((v >> 48u64) & 0xff) as u8,
            b7 == ((v >> 56u64) & 0xff) as u8,
    ;
}

/// Decoding depends on the instruction word alone: equal words decode alike.
pub proof fn law_decode_deterministic(x: u32, y: u32)
    requires
        x == y,
    ensures
        decode_word(x) == decode_word(y),
{
}

proof fn lemma_word32_sign_extended(x: u64)
    ensures
        word32(x) >> 32u64 == (if (word32(x) >> 31u64) & 1 == 1 {
            0xFFFF_FFFFu64
        } else {
            0
        }),
{
    let y = lo32(x);
    assert(y < 0x1_0000_0000);
    let r = sext32(y);
    assert(r >> 32u64 == (if (r >> 31u64) & 1 == 1 { 0xFFFF_FFFFu64 } else { 0 })) by (bit_vector)
        requires
            y < 0x1_0000_0000,
            r == (if y < 0x8000_0000 { y } else { (y + 0xFFFF_FFFF_0000_0000) as u64 }),
    ;
}

/// A 32-bit ("W") instruction writes a value whose bits 63:32 all copy bit 31.
pub proof fn law_word_variant_sign_extends(s: MachineState, i: Instr)
    requires
        s.wf(),
        i.is_word_variant(),
    ensures
        alu_result(s, i) matches Some((d, v)) && execute_spec(s, i) == Ok::<MachineState, crate::machine::Fault>(
            s.with_reg(d, v).advance(),
        ) && v >> 32u64 == (if (v >> 31u64) & 1 == 1 {
            0xFFFF_FFFFu64
        } else {
            0
        }),
{
    let v = alu_result(s, i).unwrap().1;
    let x = choose|x: u64| word32(x) == v;
    assert(exists|x: u64| word32(x) == v);
    lemma_word32_sign_extended(x);
}

/// LUI writes a value whose low 12 bits are zero, whatever its immediate.
pub proof fn law_lui_low_bits_zero(s: MachineState, d: Reg, u: Imm)
    requires
        s.wf(),
        d.wf(),
    ensures
        execute_spec(s, Instr::Lui(d, u)) == Ok::<MachineState, Fault>(
            s.with_reg(d, upper(u.raw())).advance(),
        ),
        upper(u.raw()) & 0xfff == 0,
        d.index() != 0 ==> execute_spec(s, Instr::Lui(d, u))->Ok_0.reg(d) & 0xfff == 0,
{
    let x = u.raw();
    assert((x & 0xFFFF_FFFF_FFFF_F000) & 0xfff == 0) by (bit_vector);
}

/// A decoded LUI or AUIPC immediate already has its low 12 bits zero, so the
/// value written is the immediate itself.
pub proof fn law_decoded_upper_immediate(w: u32)
    ensures
        decode_word(w) matches Some(Instr::Lui(_, u)) ==> upper(u.raw()) == u.raw(),
        decode_word(w) matches Some(Instr::Auipc(_, u)) ==> upper(u.raw()) == u.raw(),
{
    let x = (w & 0xFFFF_F000) as u64;
    let r = imm_u(w);
    assert(r & 0xFFFF_FFFF_FFFF_F000 == r) by (bit_vector)
        requires
            x == (w & 0xFFFF_F000) as u64,
            r == (if x < 0x8000_0000 { x } else { (x + 0xFFFF_FFFF_0000_0000) as u64 }),
    ;
}

} // verus!
