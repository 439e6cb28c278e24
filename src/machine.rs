//! The architectural model: machine state as mathematical values and the
//! effect of each instruction on it.
use vstd::prelude::*;
use crate::bits::{
    add64, div_bits, lo32, low_i32, mul64, rem_bits, sext16, sext32, sext8, signed, sra, sub64,
    word32,
};
use crate::decoding::decode_word;
use crate::instruction_set::Instr;
use crate::primitives::{Reg, Offset};

verus! {

/// Size in bytes of guest memory, which starts at address 0.
pub const MEMORY_SIZE: usize = 0xFFFF_FFFF;

/// Where a program image is placed and started.
pub const DRAM_OFFSET: u64 = 0x4000_0000;

/// Initial stack pointer: the top of guest memory.
pub const STACK_OFFSET: u64 = 0xFFFF_FFFF;

/// Exit code of a guest that loads from the fault sentinel address 0.
pub const FAULT_EXIT_CODE: i32 = 69;

/// Syscall number of `exit`.
pub const SYS_EXIT: u64 = 93;

/// Syscall number of `write`.
pub const SYS_WRITE: u64 = 64;

/// Why the machine could not carry out an instruction. Each is fatal to the run.
#[derive(Debug, Clone, Copy, PartialEq, Eq)]
pub enum Fault {
    /// The word selects no supported operation.
    IllegalInstruction(u32),
    /// An access starting at this address runs past the end of memory.
    MemoryFault(u64),
    /// A `write` syscall named a file descriptor other than standard output.
    UnsupportedWrite(u64),
}

/// The state of the machine: 32 registers, the program counter, memory, the
/// halt flag with its exit code, the bytes written to the console, and the
/// numbers of the unsupported syscalls the guest made, in order.
pub struct MachineState {
    pub regs: Seq<u64>,
    pub pc: u64,
    pub mem: Seq<u8>,
    pub halted: bool,
    pub exit_code: i32,
    pub console: Seq<u8>,
    pub ignored_syscalls: Seq<u64>,
}

/// The `w` bytes at `a`, little-endian, as a number.
pub open spec fn load_le(mem: Seq<u8>, a: int, w: nat) -> u64
    decreases w,
{
    if w == 0 {
        0
    } else {
        (load_le(mem, a + 1, (w - 1) as nat) << 8) | (mem[a] as u64)
    }
}

/// Byte `i` of `v`, counting from the least significant.
pub open spec fn byte_of(v: u64, i: int) -> u8 {
    ((v >> (8 * i) as u64) & 0xff) as u8
}

/// `mem` with the low `w` bytes of `v` written little-endian at `a`.
pub open spec fn store_le(mem: Seq<u8>, a: int, w: nat, v: u64) -> Seq<u8> {
    Seq::new(mem.len(), |j: int| if a <= j < a + w { byte_of(v, j - a) } else { mem[j] })
}

/// The effective address of a memory operand: base plus displacement, wrapping.
pub open spec fn effective(s: MachineState, o: Offset) -> u64 {
    add64(s.reg(o.0), o.1.raw())
}

impl MachineState {
    /// Register 0 reads as zero.
    pub open spec fn wf(self) -> bool {
        &&& self.regs.len() == 32
        &&& self.regs[0] == 0
    }

    pub open spec fn reg(self, r: Reg) -> u64 {
        self.regs[r.index() as int]
    }

    /// The state after writing `v` to `r`; a write to register 0 is dropped.
    pub open spec fn with_reg(self, r: Reg, v: u64) -> MachineState {
        if r.index() == 0 {
            self
        } else {
            MachineState { regs: self.regs.update(r.index() as int, v), ..self }
        }
    }

    pub open spec fn with_pc(self, pc: u64) -> MachineState {
        MachineState { pc, ..self }
    }

    /// Falls through to the next instruction word.
    pub open spec fn advance(self) -> MachineState {
        self.with_pc(add64(self.pc, 4))
    }

    pub open spec fn halt(self, code: i32) -> MachineState {
        MachineState { halted: true, exit_code: code, ..self }
    }

    /// `w` bytes at `a` lie inside memory.
    pub open spec fn in_range(self, a: u64, w: nat) -> bool {
        a + w <= self.mem.len()
    }

    pub open spec fn load(self, a: u64, w: nat) -> u64 {
        load_le(self.mem, a as int, w)
    }

    pub open spec fn store(self, a: u64, w: nat, v: u64) -> MachineState {
        MachineState { mem: store_le(self.mem, a as int, w, v), ..self }
    }

    /// A load from address 0 halts with the fault code, one from address 1
    /// halts cleanly; other addresses leave the machine running.
    pub open spec fn sentinel(self, a: u64) -> MachineState {
        if a == 0 {
            self.halt(FAULT_EXIT_CODE)
        } else if a == 1 {
            self.halt(0)
        } else {
            self
        }
    }

    /// The instruction word at the program counter.
    pub open spec fn fetch(self) -> u32 {
        self.load(self.pc, 4) as u32
    }
}

/// A freshly constructed machine: registers, memory and program counter zero,
/// running, with an empty console.
pub open spec fn initial_state() -> MachineState {
    MachineState {
        regs: Seq::new(32, |i: int| 0u64),
        pc: 0,
        mem: Seq::new(MEMORY_SIZE as nat, |i: int| 0u8),
        halted: false,
        exit_code: 0,
        console: Seq::empty(),
        ignored_syscalls: Seq::empty(),
    }
}

/// `s` with `prgm` copied into memory at `base` and the program counter there.
pub open spec fn flashed(s: MachineState, prgm: Seq<u8>, base: u64) -> MachineState {
    MachineState {
        mem: Seq::new(
            s.mem.len(),
            |j: int| if base <= j < base + prgm.len() { prgm[j - base] } else { s.mem[j] },
        ),
        pc: base,
        ..s
    }
}

/// The state in which a program image starts: flashed at `DRAM_OFFSET`, with
/// the stack pointer at the top of memory.
pub open spec fn boot_state(prgm: Seq<u8>) -> MachineState {
    flashed(initial_state(), prgm, DRAM_OFFSET).with_reg(Reg::Sp, STACK_OFFSET)
}

/// An upper immediate: bits 11:0 cleared.
pub open spec fn upper(imm: u64) -> u64 {
    imm & 0xFFFF_FFFF_FFFF_F000
}

/// A register-writing arithmetic or logic instruction: its destination and
/// the value it computes.
pub open spec fn alu_result(s: MachineState, i: Instr) -> Option<(Reg, u64)> {
    match i {
        Instr::Lui(d, u) => Some((d, upper(u.raw()))),
        Instr::Auipc(d, u) => Some((d, add64(s.pc, upper(u.raw())))),
        Instr::Addi(d, a, m) => Some((d, add64(s.reg(a), m.raw()))),
        Instr::Slti(d, a, m) => Some((d, if signed(s.reg(a)) < signed(m.raw()) { 1 } else { 0 })),
        Instr::Sltiu(d, a, m) => Some((d, if s.reg(a) < m.raw() { 1 } else { 0 })),
        Instr::Xori(d, a, m) => Some((d, s.reg(a) ^ m.raw())),
        Instr::Ori(d, a, m) => Some((d, s.reg(a) | m.raw())),
        Instr::Andi(d, a, m) => Some((d, s.reg(a) & m.raw())),
        Instr::Slli(d, a, m) => Some((d, s.reg(a) << (m.raw() & 0x3f))),
        Instr::Srli(d, a, m) => Some((d, s.reg(a) >> (m.raw() & 0x3f))),
        Instr::Srai(d, a, m) => Some((d, sra(s.reg(a), m.raw() & 0x3f))),
        Instr::Add(d, a, b) => Some((d, add64(s.reg(a), s.reg(b)))),
        Instr::Sub(d, a, b) => Some((d, sub64(s.reg(a), s.reg(b)))),
        Instr::Sll(d, a, b) => Some((d, s.reg(a) << (s.reg(b) & 0x3f))),
        Instr::Slt(d, a, b) => Some((d, if signed(s.reg(a)) < signed(s.reg(b)) { 1 } else { 0 })),
        Instr::Sltu(d, a, b) => Some((d, if s.reg(a) < s.reg(b) { 1 } else { 0 })),
        Instr::Xor(d, a, b) => Some((d, s.reg(a) ^ s.reg(b))),
        Instr::Srl(d, a, b) => Some((d, s.reg(a) >> (s.reg(b) & 0x3f))),
        Instr::Sra(d, a, b) => Some((d, sra(s.reg(a), s.reg(b) & 0x3f))),
        Instr::Or(d, a, b) => Some((d, s.reg(a) | s.reg(b))),
        Instr::And(d, a, b) => Some((d, s.reg(a) & s.reg(b))),
        Instr::Mul(d, a, b) => Some((d, mul64(s.reg(a), s.reg(b)))),
        Instr::Div(d, a, b) => Some((d, div_bits(s.reg(a), s.reg(b)))),
        Instr::Rem(d, a, b) => Some((d, rem_bits(s.reg(a), s.reg(b)))),
        Instr::Addiw(d, a, m) => Some((d, word32(add64(s.reg(a), m.raw())))),
        Instr::Slliw(d, a, m) => Some((d, word32(s.reg(a) << (m.raw() & 0x1f)))),
        Instr::Srliw(d, a, m) => Some((d, word32(lo32(s.reg(a)) >> (m.raw() & 0x1f)))),
        Instr::Sraiw(d, a, m) => Some((d, word32(sra(word32(s.reg(a)), m.raw() & 0x1f)))),
        Instr::Addw(d, a, b) => Some((d, word32(add64(s.reg(a), s.reg(b))))),
        Instr::Subw(d, a, b) => Some((d, word32(sub64(s.reg(a), s.reg(b))))),
        Instr::Sllw(d, a, b) => Some((d, word32(s.reg(a) << (s.reg(b) & 0x1f)))),
        Instr::Srlw(d, a, b) => Some((d, word32(lo32(s.reg(a)) >> (s.reg(b) & 0x1f)))),
        Instr::Sraw(d, a, b) => Some((d, word32(sra(word32(s.reg(a)), s.reg(b) & 0x1f)))),
        Instr::Mulw(d, a, b) => Some((d, word32(mul64(s.reg(a), s.reg(b))))),
        Instr::Divw(d, a, b) => Some((d, word32(div_bits(word32(s.reg(a)), word32(s.reg(b)))))),
        Instr::Remw(d, a, b) => Some((d, word32(rem_bits(word32(s.reg(a)), word32(s.reg(b)))))),
        _ => None,
    }
}

/// A load: destination, operand, width in bytes, and whether it sign-extends.
pub open spec fn load_form(i: Instr) -> Option<(Reg, Offset, nat, bool)> {
    match i {
        Instr::Lb(d, o) => Some((d, o, 1nat, true)),
        Instr::Lh(d, o) => Some((d, o, 2nat, true)),
        Instr::Lw(d, o) => Some((d, o, 4nat, true)),
        Instr::Ld(d, o) => Some((d, o, 8nat, false)),
        Instr::Lbu(d, o) => Some((d, o, 1nat, false)),
        Instr::Lhu(d, o) => Some((d, o, 2nat, false)),
        Instr::Lwu(d, o) => Some((d, o, 4nat, false)),
        _ => None,
    }
}

/// A store: source register, operand and width in bytes.
pub open spec fn store_form(i: Instr) -> Option<(Reg, Offset, nat)> {
    match i {
        Instr::Sb(r, o) => Some((r, o, 1nat)),
        Instr::Sh(r, o) => Some((r, o, 2nat)),
        Instr::Sw(r, o) => Some((r, o, 4nat)),
        Instr::Sd(r, o) => Some((r, o, 8nat)),
        _ => None,
    }
}

/// A conditional branch: the offset and whether the relation holds.
pub open spec fn branch_form(s: MachineState, i: Instr) -> Option<(u64, bool)> {
    match i {
        Instr::Beq(a, b, m) => Some((m.raw(), s.reg(a) == s.reg(b))),
        Instr::Bne(a, b, m) => Some((m.raw(), s.reg(a) != s.reg(b))),
        Instr::Blt(a, b, m) => Some((m.raw(), signed(s.reg(a)) < signed(s.reg(b)))),
        Instr::Bge(a, b, m) => Some((m.raw(), signed(s.reg(a)) >= signed(s.reg(b)))),
        Instr::Bltu(a, b, m) => Some((m.raw(), s.reg(a) < s.reg(b))),
        Instr::Bgeu(a, b, m) => Some((m.raw(), s.reg(a) >= s.reg(b))),
        _ => None,
    }
}

/// A loaded value of `w` bytes, sign- or zero-extended to 64 bits.
pub open spec fn extend(v: u64, w: nat, sign: bool) -> u64 {
    if !sign {
        v
    } else if w == 1 {
        sext8(v)
    } else if w == 2 {
        sext16(v)
    } else {
        sext32(v)
    }
}

/// The environment call: `exit` halts with the low 32 bits of `a0`; `write` to
/// standard output appends `a2` bytes of memory from address `a1` to the
/// console; any other number is recorded as unsupported and otherwise ignored.
pub open spec fn ecall_result(s: MachineState) -> Result<MachineState, Fault> {
    let n = s.reg(Reg::A(7));
    if n == SYS_EXIT {
        Ok(s.halt(low_i32(s.reg(Reg::A(0)))).advance())
    } else if n == SYS_WRITE {
        let fd = s.reg(Reg::A(0));
        let buf = s.reg(Reg::A(1));
        let len = s.reg(Reg::A(2));
        if fd != 1 {
            Err(Fault::UnsupportedWrite(fd))
        } else if !s.in_range(buf, len as nat) {
            Err(Fault::MemoryFault(buf))
        } else {
            Ok(
                MachineState {
                    console: s.console + s.mem.subrange(buf as int, buf + len),
                    ..s
                }.advance(),
            )
        }
    } else {
        Ok(MachineState { ignored_syscalls: s.ignored_syscalls.push(n), ..s }.advance())
    }
}

/// A load of `w` bytes into `d`, extended by `sign`; the address must lie in
/// memory.
pub open spec fn load_step(s: MachineState, d: Reg, o: Offset, w: nat, sign: bool) -> Result<
    MachineState,
    Fault,
> {
    let a = effective(s, o);
    if !s.in_range(a, w) {
        Err(Fault::MemoryFault(a))
    } else {
        Ok(s.with_reg(d, extend(s.load(a, w), w, sign)).advance().sentinel(a))
    }
}

/// A store of the low `w` bytes of `r`; the address must lie in memory.
pub open spec fn store_step(s: MachineState, r: Reg, o: Offset, w: nat) -> Result<
    MachineState,
    Fault,
> {
    let a = effective(s, o);
    if !s.in_range(a, w) {
        Err(Fault::MemoryFault(a))
    } else {
        Ok(s.store(a, w, s.reg(r)).advance())
    }
}

/// Jump to `(a + off)` with its lowest bit cleared, linking the return
/// address in `d`. A jump to address 0 is a return from the program's entry
/// function: the machine halts with the low 32 bits of `a0` as exit code.
pub open spec fn jalr_step(s: MachineState, d: Reg, a: Reg, off: u64) -> MachineState {
    let t = add64(s.reg(a), off) & 0xFFFF_FFFF_FFFF_FFFE;
    let s2 = s.with_reg(d, add64(s.pc, 4)).with_pc(t);
    if t == 0 {
        s2.halt(low_i32(s2.reg(Reg::A(0))))
    } else {
        s2
    }
}

/// The effect of one instruction on the machine, or the fault that stops it.
pub open spec fn execute_spec(s: MachineState, i: Instr) -> Result<MachineState, Fault> {
    if let Some((d, v)) = alu_result(s, i) {
        Ok(s.with_reg(d, v).advance())
    } else if let Some((d, o, w, sign)) = load_form(i) {
        load_step(s, d, o, w, sign)
    } else if let Some((r, o, w)) = store_form(i) {
        store_step(s, r, o, w)
    } else if let Some((off, taken)) = branch_form(s, i) {
        Ok(s.with_pc(add64(s.pc, if taken { off } else { 4 })))
    } else {
        match i {
            Instr::Jal(d, off) => Ok(s.with_reg(d, add64(s.pc, 4)).with_pc(add64(s.pc, off.raw()))),
            Instr::Jalr(d, a, off) => Ok(jalr_step(s, d, a, off.raw())),
            _ => ecall_result(s),
        }
    }
}

/// Decodes and executes the word `w`, unless the machine has halted: then it
/// stays as it is and `false` is reported.
pub open spec fn step_word(s: MachineState, w: u32) -> Result<(MachineState, bool), Fault> {
    if s.halted {
        Ok((s, false))
    } else {
        match decode_word(w) {
            None => Err(Fault::IllegalInstruction(w)),
            Some(i) => match execute_spec(s, i) {
                Ok(s2) => Ok((s2, true)),
                Err(e) => Err(e),
            },
        }
    }
}

/// One driver step: fetch the word at the program counter, then `step_word`.
pub open spec fn step_spec(s: MachineState) -> Result<(MachineState, bool), Fault> {
    if s.halted {
        Ok((s, false))
    } else if !s.in_range(s.pc, 4) {
        Err(Fault::MemoryFault(s.pc))
    } else {
        step_word(s, s.fetch())
    }
}

/// The state after at most `n` driver steps, stopping early when the machine
/// halts, and the fault that ended the run if one did. A fault leaves the
/// state as it was before the faulting instruction.
pub open spec fn run_spec(s: MachineState, n: nat) -> (MachineState, Option<Fault>)
    decreases n,
{
    if n == 0 {
        (s, None)
    } else {
        match step_spec(s) {
            Err(e) => (s, Some(e)),
            Ok((s2, true)) => run_spec(s2, (n - 1) as nat),
            Ok((s2, false)) => (s2, None),
        }
    }
}

} // verus!
