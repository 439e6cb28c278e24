//! The executable machine: register file, memory, program counter, halt
//! state and console, stepped one instruction at a time.
use vstd::prelude::*;
use crate::bits::{
    add64, add64_of, div_of, se_byte, se_half, lo32_of, low_i32_of, lt_signed, mul64_of, rem_of,
    se_word, signed, sra_of, sub64_of, to_bits, bits_of_i64,
    i64_of_bits, word32_of,
};
use crate::decoding::decode;
use crate::instruction_set::Instr;
use crate::machine::{
    alu_result, boot_state, branch_form, byte_of, ecall_result, effective, execute_spec, extend,
    flashed, initial_state, jalr_step, load_le, load_step, run_spec, step_word, store_le,
    store_step, Fault, MachineState, DRAM_OFFSET, FAULT_EXIT_CODE, MEMORY_SIZE, STACK_OFFSET,
    SYS_EXIT, SYS_WRITE,
};
use crate::memory::Memory;
use crate::primitives::{Addr, Imm, Offset, Reg};

verus! {

/// `after` and `r` are what carrying out `expected` from `before` leaves: its
/// state on success, and on a fault that fault with the state untouched.
pub open spec fn applied(
    before: MachineState,
    after: MachineState,
    r: Result<(), Fault>,
    expected: Result<MachineState, Fault>,
) -> bool {
    match expected {
        Ok(s) => r is Ok && after == s,
        Err(e) => r == Err::<(), Fault>(e) && after == before,
    }
}

/// Loaded values of 1, 2 and 4 bytes fit their widths.
proof fn lemma_load_bounds(m: Seq<u8>, a: int)
    ensures
        load_le(m, a, 1) < 0x100,
        load_le(m, a, 2) < 0x1_0000,
        load_le(m, a, 4) < 0x1_0000_0000,
{
    reveal_with_fuel(load_le, 5);
    let b0 = m[a] as u64;
    let b1 = m[a + 1] as u64;
    let b2 = m[a + 2] as u64;
    let b3 = m[a + 3] as u64;
    assert(((0u64 << 8) | b0) < 0x100 && ((((0u64 << 8) | b1) << 8) | b0) < 0x1_0000 && ((((((((
    0u64 << 8) | b3) << 8) | b2) << 8) | b1) << 8) | b0) < 0x1_0000_0000) by (bit_vector)
        requires
            b0 < 0x100,
            b1 < 0x100,
            b2 < 0x100,
            b3 < 0x100,
    ;
}

proof fn lemma_mask_bounds()
    by (bit_vector)
    ensures
        forall|x: u64| #[trigger] (x & 0x3f) < 64,
        forall|x: u64| #[trigger] (x & 0x1f) < 32,
{
}

/// The simulated machine.
pub struct Emulator {
    regs: Vec<u64>,
    memory: Memory,
    pc: u64,
    exiting: bool,
    exit_code: i32,
    console: Vec<u8>,
    ignored_syscalls: Vec<u64>,
}

impl View for Emulator {
    type V = MachineState;

    closed spec fn view(&self) -> MachineState {
        MachineState {
            regs: self.regs@,
            pc: self.pc,
            mem: self.memory@,
            halted: self.exiting,
            exit_code: self.exit_code,
            console: self.console@,
            ignored_syscalls: self.ignored_syscalls@,
        }
    }
}

impl Default for Emulator {
    /// A machine with all registers, memory and the program counter zero.
    fn default() -> (r: Emulator)
        ensures
            r.wf(),
            r@ == initial_state(),
    {
        let e = Emulator {
            regs: vec![0u64; 32],
            memory: Memory::new(),
            pc: 0,
            exiting: false,
            exit_code: 0,
            console: Vec::new(),
            ignored_syscalls: Vec::new(),
        };
        assert(e@.regs =~= initial_state().regs);
        assert(e@.mem =~= initial_state().mem);
        assert(e@.console =~= initial_state().console);
        assert(e@.ignored_syscalls =~= initial_state().ignored_syscalls);
        e
    }
}

impl Emulator {
    /// Register 0 reads as zero and memory has its configured size.
    pub closed spec fn wf(&self) -> bool {
        &&& self@.wf()
        &&& self.memory.wf()
        &&& self@.mem.len() == MEMORY_SIZE
    }

    /// A well-formed machine has 32 registers, register 0 reading zero, and
    /// `MEMORY_SIZE` bytes of memory.
    pub proof fn lemma_wf(&self)
        requires
            self.wf(),
        ensures
            self@.wf(),
            self@.regs.len() == 32,
            self@.mem.len() == MEMORY_SIZE,
    {
    }

    /// Copies `prgm` into memory at `offset` and points the program counter
    /// there.
    pub fn flash_prgm(&mut self, prgm: &[u8], offset: Addr)
        requires
            old(self).wf(),
            offset.value() + prgm@.len() <= old(self)@.mem.len(),
        ensures
            final(self).wf(),
            final(self)@ == flashed(old(self)@, prgm@, offset.value()),
    {
        let base = offset.val();
        let mut i: usize = 0;
        assert(self@.mem =~= Seq::new(
            old(self)@.mem.len(),
            |j: int|
                if base <= j < base + i {
                    prgm@[j - base]
                } else {
                    old(self)@.mem[j]
                },
        ));
        while i < prgm.len()
            invariant
                self.wf(),
                base + prgm@.len() <= MEMORY_SIZE,
                i <= prgm@.len(),
                self@ == (MachineState {
                    mem: Seq::new(
                        old(self)@.mem.len(),
                        |j: int|
                            if base <= j < base + i {
                                prgm@[j - base]
                            } else {
                                old(self)@.mem[j]
                            },
                    ),
                    ..old(self)@
                }),
            decreases prgm@.len() - i,
        {
            let ghost prev = self@.mem;
            self.memory.write(base as usize + i, prgm[i]);
            i = i + 1;
            proof {
                assert(self@.mem =~= Seq::new(
                    old(self)@.mem.len(),
                    |j: int|
                        if base <= j < base + i {
                            prgm@[j - base]
                        } else {
                            old(self)@.mem[j]
                        },
                ));
            }
        }
        self.pc = base;
        assert(self@.mem =~= flashed(old(self)@, prgm@, base).mem);
    }

    /// Writes `val` to `reg`; a write to the zero register is dropped.
    pub fn set(&mut self, reg: Reg, val: u64)
        requires
            old(self).wf(),
            reg.wf(),
        ensures
            final(self).wf(),
            final(self)@ == old(self)@.with_reg(reg, val),
    {
        let i = reg.reg_index();
        if i != 0 {
            self.regs.set(i, val);
        }
    }

    /// Writes the two's-complement pattern of `val` to `reg`.
    pub fn set_signed(&mut self, reg: Reg, val: i64)
        requires
            old(self).wf(),
            reg.wf(),
        ensures
            final(self).wf(),
            final(self)@ == old(self)@.with_reg(reg, to_bits(val as int)),
    {
        let v = bits_of_i64(val);
        self.set(reg, v);
    }

    pub fn reg(&self, reg: Reg) -> (r: u64)
        requires
            self.wf(),
            reg.wf(),
        ensures
            r == self@.reg(reg),
            reg.index() == 0 ==> r == 0,
    {
        self.regs[reg.reg_index()]
    }

    /// The register's value read as a signed number.
    pub fn reg_signed(&self, reg: Reg) -> (r: i64)
        requires
            self.wf(),
            reg.wf(),
        ensures
            r == signed(self@.reg(reg)),
    {
        i64_of_bits(self.reg(reg))
    }

    /// Moves the program counter by `offset`, wrapping.
    pub fn add_pc(&mut self, offset: Imm)
        requires
            old(self).wf(),
        ensures
            final(self).wf(),
            final(self)@ == old(self)@.with_pc(add64(old(self)@.pc, offset.raw())),
    {
        self.pc = add64_of(self.pc, offset.val());
    }

    /// The `w` bytes at `a`, little-endian.
    fn read_le(&self, a: u64, w: usize) -> (r: u64)
        requires
            self.wf(),
            self@.in_range(a, w as nat),
        ensures
            r == load_le(self@.mem, a as int, w as nat),
    {
        let mut val: u64 = 0;
        let mut i: usize = w;
        while i > 0
            invariant
                i <= w,
                a + w <= MEMORY_SIZE,
                self.wf(),
                val == load_le(self@.mem, a + i, (w - i) as nat),
            decreases i,
        {
            i = i - 1;
            val = (val << 8) | (self.memory.read(a as usize + i) as u64);
        }
        val
    }

    /// The instruction word at the program counter, zero-extended.
    pub fn read_pc(&self) -> (r: u64)
        requires
            self.wf(),
            self@.in_range(self@.pc, 4),
        ensures
            r == self@.load(self@.pc, 4),
    {
        self.read_le(self.pc, 4)
    }

    /// `w` bytes at `a` lie inside memory.
    fn in_range(&self, a: u64, w: u64) -> (r: bool)
        requires
            self.wf(),
        ensures
            r == self@.in_range(a, w as nat),
    {
        let len = MEMORY_SIZE as u64;
        a <= len && len - a >= w
    }

    /// Loads `bytes` bytes at the operand's effective address, zero-extended.
    /// A load from address 0 or 1 halts the machine (see `sentinel`).
    pub fn load(&mut self, offset: Offset, bytes: usize) -> (r: u64)
        requires
            old(self).wf(),
            offset.0.wf(),
            old(self)@.in_range(effective(old(self)@, offset), bytes as nat),
        ensures
            final(self).wf(),
            r == old(self)@.load(effective(old(self)@, offset), bytes as nat),
            final(self)@ == old(self)@.sentinel(effective(old(self)@, offset)),
    {
        let a = add64_of(self.reg(offset.0), offset.1.val());
        if a == 0 {
            self.exiting = true;
            self.exit_code = FAULT_EXIT_CODE;
        } else if a == 1 {
            self.exiting = true;
            self.exit_code = 0;
        }
        self.read_le(a, bytes)
    }

    /// Stores the low `bytes` bytes of `val` little-endian at the operand's
    /// effective address.
    pub fn store(&mut self, offset: Offset, bytes: usize, val: u64)
        requires
            old(self).wf(),
            offset.0.wf(),
            bytes <= 8,
            old(self)@.in_range(effective(old(self)@, offset), bytes as nat),
        ensures
            final(self).wf(),
            final(self)@ == old(self)@.store(effective(old(self)@, offset), bytes as nat, val),
    {
        let a = add64_of(self.reg(offset.0), offset.1.val());
        let ghost m0 = self@.mem;
        let mut i: usize = 0;
        assert(self@.mem =~= Seq::new(
            m0.len(),
            |j: int| if a <= j < a + i { byte_of(val, j - a) } else { m0[j] },
        ));
        while i < bytes
            invariant
                self.wf(),
                i <= bytes <= 8,
                a + bytes <= m0.len(),
                self@ == (MachineState {
                    mem: Seq::new(
                        m0.len(),
                        |j: int| if a <= j < a + i { byte_of(val, j - a) } else { m0[j] },
                    ),
                    ..old(self)@
                }),
            decreases bytes - i,
        {
            let b = ((val >> (8 * (i as u64))) & 0xff) as u8;
            self.memory.write(a as usize + i, b);
            i = i + 1;
            proof {
                assert(self@.mem =~= Seq::new(
                    m0.len(),
                    |j: int| if a <= j < a + i { byte_of(val, j - a) } else { m0[j] },
                ));
            }
        }
        assert(self@.mem =~= store_le(m0, a as int, bytes as nat, val));
    }

    /// The destination and value of a register-writing arithmetic or logic
    /// instruction; `None` for any other instruction.
    fn alu(&self, instr: Instr) -> (r: Option<(Reg, u64)>)
        requires
            self.wf(),
            instr.wf(),
        ensures
            r == alu_result(self@, instr),
            r matches Some(p) ==> p.0.wf(),
    {
        proof {
            lemma_mask_bounds();
        }
        match instr {
            Instr::Lui(d, u) => Some((d, u.val() & 0xFFFF_FFFF_FFFF_F000)),
            Instr::Auipc(d, u) => Some((d, add64_of(self.pc, u.val() & 0xFFFF_FFFF_FFFF_F000))),
            Instr::Addi(d, a, m) => Some((d, add64_of(self.reg(a), m.val()))),
            Instr::Slti(d, a, m) => Some((d, if lt_signed(self.reg(a), m.val()) { 1 } else { 0 })),
            Instr::Sltiu(d, a, m) => Some((d, if self.reg(a) < m.val() { 1 } else { 0 })),
            Instr::Xori(d, a, m) => Some((d, self.reg(a) ^ m.val())),
            Instr::Ori(d, a, m) => Some((d, self.reg(a) | m.val())),
            Instr::Andi(d, a, m) => Some((d, self.reg(a) & m.val())),
            Instr::Slli(d, a, m) => Some((d, self.reg(a) << (m.val() & 0x3f))),
            Instr::Srli(d, a, m) => Some((d, self.reg(a) >> (m.val() & 0x3f))),
            Instr::Srai(d, a, m) => Some((d, sra_of(self.reg(a), m.val() & 0x3f))),
            Instr::Add(d, a, b) => Some((d, add64_of(self.reg(a), self.reg(b)))),
            Instr::Sub(d, a, b) => Some((d, sub64_of(self.reg(a), self.reg(b)))),
            Instr::Sll(d, a, b) => Some((d, self.reg(a) << (self.reg(b) & 0x3f))),
            Instr::Slt(d, a, b) => Some(
                (d, if lt_signed(self.reg(a), self.reg(b)) { 1 } else { 0 }),
            ),
            Instr::Sltu(d, a, b) => Some((d, if self.reg(a) < self.reg(b) { 1 } else { 0 })),
            Instr::Xor(d, a, b) => Some((d, self.reg(a) ^ self.reg(b))),
            Instr::Srl(d, a, b) => Some((d, self.reg(a) >> (self.reg(b) & 0x3f))),
            Instr::Sra(d, a, b) => Some((d, sra_of(self.reg(a), self.reg(b) & 0x3f))),
            Instr::Or(d, a, b) => Some((d, self.reg(a) | self.reg(b))),
            Instr::And(d, a, b) => Some((d, self.reg(a) & self.reg(b))),
            Instr::Mul(d, a, b) => Some((d, mul64_of(self.reg(a), self.reg(b)))),
            Instr::Div(d, a, b) => Some((d, div_of(self.reg(a), self.reg(b)))),
            Instr::Rem(d, a, b) => Some((d, rem_of(self.reg(a), self.reg(b)))),
            Instr::Addiw(d, a, m) => Some((d, word32_of(add64_of(self.reg(a), m.val())))),
            Instr::Slliw(d, a, m) => Some((d, word32_of(self.reg(a) << (m.val() & 0x1f)))),
            Instr::Srliw(d, a, m) => Some(
                (d, word32_of(lo32_of(self.reg(a)) >> (m.val() & 0x1f))),
            ),
            Instr::Sraiw(d, a, m) => Some(
                (d, word32_of(sra_of(word32_of(self.reg(a)), m.val() & 0x1f))),
            ),
            Instr::Addw(d, a, b) => Some((d, word32_of(add64_of(self.reg(a), self.reg(b))))),
            Instr::Subw(d, a, b) => Some((d, word32_of(sub64_of(self.reg(a), self.reg(b))))),
            Instr::Sllw(d, a, b) => Some((d, word32_of(self.reg(a) << (self.reg(b) & 0x1f)))),
            Instr::Srlw(d, a, b) => Some(
                (d, word32_of(lo32_of(self.reg(a)) >> (self.reg(b) & 0x1f))),
            ),
            Instr::Sraw(d, a, b) => Some(
                (d, word32_of(sra_of(word32_of(self.reg(a)), self.reg(b) & 0x1f))),
            ),
            Instr::Mulw(d, a, b) => Some((d, word32_of(mul64_of(self.reg(a), self.reg(b))))),
            Instr::Divw(d, a, b) => Some(
                (d, word32_of(div_of(word32_of(self.reg(a)), word32_of(self.reg(b))))),
            ),
            Instr::Remw(d, a, b) => Some(
                (d, word32_of(rem_of(word32_of(self.reg(a)), word32_of(self.reg(b))))),
            ),
            _ => None,
        }
    }

    fn exec_load(&mut self, d: Reg, o: Offset, w: usize, sign: bool) -> (r: Result<(), Fault>)
        requires
            old(self).wf(),
            d.wf(),
            o.wf(),
            w == 1 || w == 2 || w == 4 || w == 8,
            w == 8 ==> !sign,
        ensures
            final(self).wf(),
            applied(old(self)@, final(self)@, r, load_step(old(self)@, d, o, w as nat, sign)),
    {
        let a = add64_of(self.reg(o.0), o.1.val());
        if !self.in_range(a, w as u64) {
            return Err(Fault::MemoryFault(a));
        }
        proof {
            lemma_load_bounds(self@.mem, a as int);
        }
        let ghost s0 = self@;
        let v = self.load(o, w);
        let x = if !sign {
            v
        } else if w == 1 {
            se_byte(v)
        } else if w == 2 {
            se_half(v)
        } else {
            se_word(v)
        };
        assert(x == extend(s0.load(a, w as nat), w as nat, sign));
        self.set(d, x);
        self.pc = add64_of(self.pc, 4);
        assert(self@ == s0.with_reg(d, x).advance().sentinel(a));
        Ok(())
    }

    fn exec_store(&mut self, src: Reg, o: Offset, w: usize) -> (r: Result<(), Fault>)
        requires
            old(self).wf(),
            src.wf(),
            o.wf(),
            w == 1 || w == 2 || w == 4 || w == 8,
        ensures
            final(self).wf(),
            applied(old(self)@, final(self)@, r, store_step(old(self)@, src, o, w as nat)),
    {
        let a = add64_of(self.reg(o.0), o.1.val());
        if !self.in_range(a, w as u64) {
            return Err(Fault::MemoryFault(a));
        }
        let v = self.reg(src);
        self.store(o, w, v);
        self.pc = add64_of(self.pc, 4);
        Ok(())
    }

    /// The offset of a conditional branch and whether it is taken.
    fn branch(&self, instr: Instr) -> (r: Option<(u64, bool)>)
        requires
            self.wf(),
            instr.wf(),
        ensures
            r == branch_form(self@, instr),
    {
        match instr {
            Instr::Beq(a, b, m) => Some((m.val(), self.reg(a) == self.reg(b))),
            Instr::Bne(a, b, m) => Some((m.val(), self.reg(a) != self.reg(b))),
            Instr::Blt(a, b, m) => Some((m.val(), lt_signed(self.reg(a), self.reg(b)))),
            Instr::Bge(a, b, m) => Some((m.val(), !lt_signed(self.reg(a), self.reg(b)))),
            Instr::Bltu(a, b, m) => Some((m.val(), self.reg(a) < self.reg(b))),
            Instr::Bgeu(a, b, m) => Some((m.val(), self.reg(a) >= self.reg(b))),
            _ => None,
        }
    }

    fn exec_jalr(&mut self, d: Reg, a: Reg, off: u64)
        requires
            old(self).wf(),
            d.wf(),
            a.wf(),
        ensures
            final(self).wf(),
            final(self)@ == jalr_step(old(self)@, d, a, off),
    {
        let t = add64_of(self.reg(a), off) & 0xFFFF_FFFF_FFFF_FFFE;
        let link = add64_of(self.pc, 4);
        self.set(d, link);
        self.pc = t;
        if t == 0 {
            let code = low_i32_of(self.reg(Reg::A(0)));
            self.exiting = true;
            self.exit_code = code;
        }
    }

    /// The environment call (see `ecall_result`).
    fn exec_ecall(&mut self) -> (r: Result<(), Fault>)
        requires
            old(self).wf(),
        ensures
            final(self).wf(),
            applied(old(self)@, final(self)@, r, ecall_result(old(self)@)),
    {
        let n = self.reg(Reg::A(7));
        if n == SYS_EXIT {
            let code = low_i32_of(self.reg(Reg::A(0)));
            self.exiting = true;
            self.exit_code = code;
        } else if n == SYS_WRITE {
            let fd = self.reg(Reg::A(0));
            let buf = self.reg(Reg::A(1));
            let len = self.reg(Reg::A(2));
            if fd != 1 {
                return Err(Fault::UnsupportedWrite(fd));
            }
            if !self.in_range(buf, len) {
                return Err(Fault::MemoryFault(buf));
            }
            let ghost c0 = self@.console;
            let mut k: u64 = 0;
            while k < len
                invariant
                    self.wf(),
                    k <= len,
                    buf + len <= self@.mem.len(),
                    self@ == (MachineState {
                        console: c0 + old(self)@.mem.subrange(buf as int, buf + k),
                        ..old(self)@
                    }),
                decreases len - k,
            {
                let b = self.memory.read((buf + k) as usize);
                self.console.push(b);
                k = k + 1;
                assert(self@.console =~= c0 + old(self)@.mem.subrange(buf as int, buf + k));
            }
        } else {
            self.ignored_syscalls.push(n);
        }
        self.pc = add64_of(self.pc, 4);
        Ok(())
    }

    /// Applies one instruction to the machine.
    pub fn execute(&mut self, instr: Instr) -> (r: Result<(), Fault>)
        requires
            old(self).wf(),
            instr.wf(),
        ensures
            final(self).wf(),
            applied(old(self)@, final(self)@, r, execute_spec(old(self)@, instr)),
    {
        if let Some((d, v)) = self.alu(instr) {
            self.set(d, v);
            self.pc = add64_of(self.pc, 4);
            return Ok(());
        }
        if let Some((off, taken)) = self.branch(instr) {
            let step = if taken { off } else { 4 };
            self.pc = add64_of(self.pc, step);
            return Ok(());
        }
        match instr {
            Instr::Lb(d, o) => self.exec_load(d, o, 1, true),
            Instr::Lh(d, o) => self.exec_load(d, o, 2, true),
            Instr::Lw(d, o) => self.exec_load(d, o, 4, true),
            Instr::Ld(d, o) => self.exec_load(d, o, 8, false),
            Instr::Lbu(d, o) => self.exec_load(d, o, 1, false),
            Instr::Lhu(d, o) => self.exec_load(d, o, 2, false),
            Instr::Lwu(d, o) => self.exec_load(d, o, 4, false),
            Instr::Sb(src, o) => self.exec_store(src, o, 1),
            Instr::Sh(src, o) => self.exec_store(src, o, 2),
            Instr::Sw(src, o) => self.exec_store(src, o, 4),
            Instr::Sd(src, o) => self.exec_store(src, o, 8),
            Instr::Jal(d, off) => {
                let link = add64_of(self.pc, 4);
                let target = add64_of(self.pc, off.val());
                self.set(d, link);
                self.pc = target;
                Ok(())
            },
            Instr::Jalr(d, a, off) => {
                self.exec_jalr(d, a, off.val());
                Ok(())
            },
            _ => self.exec_ecall(),
        }
    }

    /// Decodes and executes `raw_instr` (see `step_word`). Reports `false`,
    /// doing nothing, once the machine has halted.
    pub fn step(&mut self, raw_instr: u32) -> (r: Result<bool, Fault>)
        requires
            old(self).wf(),
        ensures
            final(self).wf(),
            match step_word(old(self)@, raw_instr) {
                Ok((s, cont)) => r == Ok::<bool, Fault>(cont) && final(self)@ == s,
                Err(e) => r == Err::<bool, Fault>(e) && final(self)@ == old(self)@,
            },
    {
        if self.exiting {
            return Ok(false);
        }
        match decode(raw_instr) {
            None => Err(Fault::IllegalInstruction(raw_instr)),
            Some(instr) => match self.execute(instr) {
                Ok(()) => Ok(true),
                Err(e) => Err(e),
            },
        }
    }

    /// Runs at most `iterations` instructions, stopping early when the
    /// machine halts or faults (see `run_spec`).
    pub fn run_for(&mut self, iterations: usize) -> (r: Result<(), Fault>)
        requires
            old(self).wf(),
        ensures
            final(self).wf(),
            final(self)@ == run_spec(old(self)@, iterations as nat).0,
            r == match run_spec(old(self)@, iterations as nat).1 {
                None => Ok::<(), Fault>(()),
                Some(e) => Err(e),
            },
    {
        let mut n = iterations;
        while n > 0
            invariant
                self.wf(),
                run_spec(self@, n as nat) == run_spec(old(self)@, iterations as nat),
            decreases n,
        {
            if self.exiting {
                return Ok(());
            }
            if !self.in_range(self.pc, 4) {
                return Err(Fault::MemoryFault(self.pc));
            }
            let raw = self.read_pc() as u32;
            match self.step(raw) {
                Ok(_) => {},
                Err(e) => return Err(e),
            }
            n = n - 1;
        }
        Ok(())
    }

    /// Runs until the machine halts or faults, for at most `usize::MAX`
    /// instructions.
    pub fn run(&mut self) -> (r: Result<(), Fault>)
        requires
            old(self).wf(),
        ensures
            final(self).wf(),
            final(self)@ == run_spec(old(self)@, usize::MAX as nat).0,
            r == match run_spec(old(self)@, usize::MAX as nat).1 {
                None => Ok::<(), Fault>(()),
                Some(e) => Err(e),
            },
    {
        self.run_for(usize::MAX)
    }

    /// A copy of `len` bytes of memory starting at `offset`.
    pub fn memory(&self, offset: Addr, len: usize) -> (r: Vec<u8>)
        requires
            self.wf(),
            offset.value() + len <= self@.mem.len(),
        ensures
            r@ == self@.mem.subrange(offset.value() as int, offset.value() + len),
    {
        let start = offset.val() as usize;
        let mut out: Vec<u8> = Vec::new();
        let mut i: usize = 0;
        while i < len
            invariant
                self.wf(),
                i <= len,
                start + len <= MEMORY_SIZE,
                start == offset.value(),
                out@ == self@.mem.subrange(start as int, start + i),
            decreases len - i,
        {
            out.push(self.memory.read(start + i));
            i = i + 1;
            assert(out@ =~= self@.mem.subrange(start as int, start + i));
        }
        out
    }

    /// The address of the next instruction.
    pub fn pc(&self) -> (r: u64)
        ensures
            r == self@.pc,
    {
        self.pc
    }

    pub fn is_halted(&self) -> (r: bool)
        ensures
            r == self@.halted,
    {
        self.exiting
    }

    pub fn exit_code(&self) -> (r: i32)
        ensures
            r == self@.exit_code,
    {
        self.exit_code
    }

    /// The numbers of the unsupported syscalls the guest made, in order.
    pub fn ignored_syscalls(&self) -> (r: &[u64])
        ensures
            r@ == self@.ignored_syscalls,
    {
        self.ignored_syscalls.as_slice()
    }

    /// The bytes the guest has written to standard output.
    pub fn console(&self) -> (r: &[u8])
        ensures
            r@ == self@.console,
    {
        self.console.as_slice()
    }
}

/// Boots `prgm` at `DRAM_OFFSET` with the stack pointer at the top of memory
/// and runs it to completion (see `boot_state` and `run_spec`). Returns the
/// final machine, or the fault that stopped it.
pub fn run_emulator(prgm: &[u8]) -> (r: Result<Emulator, Fault>)
    requires
        DRAM_OFFSET + prgm@.len() <= MEMORY_SIZE,
    ensures
        match run_spec(boot_state(prgm@), usize::MAX as nat) {
            (s, None) => r matches Ok(e) && e.wf() && e@ == s,
            (_, Some(f)) => r == Err::<Emulator, Fault>(f),
        },
{
    let mut emulator = Emulator::default();
    emulator.flash_prgm(prgm, Addr::new_unsigned(DRAM_OFFSET));
    emulator.set(Reg::Sp, STACK_OFFSET);
    match emulator.run() {
        Ok(()) => Ok(emulator),
        Err(f) => Err(f),
    }
}

} // verus!
