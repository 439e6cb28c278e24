use rv64sim::decoding::decode;
use rv64sim::emulator::{run_emulator, Emulator};
use rv64sim::instruction_set::Instr;
use rv64sim::io::{emu_screen_to_texture_data, Button};
use rv64sim::machine::{Fault, DRAM_OFFSET, FAULT_EXIT_CODE, STACK_OFFSET};
use rv64sim::primitives::{Addr, Imm, Offset, Reg};

fn program(words: &[u32]) -> Vec<u8> {
    let mut bytes = Vec::new();
    for w in words {
        bytes.extend_from_slice(&w.to_le_bytes());
    }
    bytes
}

/// Flashes `words` at address 0 and runs one instruction per word.
fn run_words(words: &[u32]) -> (Emulator, Result<(), Fault>) {
    let mut emu = Emulator::default();
    let data = program(words);
    emu.flash_prgm(&data, Addr::new_unsigned(0));
    let r = emu.run_for(words.len());
    (emu, r)
}

fn x(emu: &Emulator, i: u32) -> u64 {
    emu.reg(Reg::new(i))
}

#[test]
fn zero_register_swallows_writes() {
    // addi x0, x0, 5
    let (emu, r) = run_words(&[0x00500013]);
    assert!(r.is_ok());
    assert_eq!(x(&emu, 0), 0);
    let mut emu = emu;
    emu.set(Reg::Zero, 9);
    emu.set_signed(Reg::Zero, -9);
    assert_eq!(emu.reg(Reg::Zero), 0);
}

#[test]
fn sequential_instruction_advances_pc_by_four() {
    let (emu, _) = run_words(&[0x00400f93]);
    assert_eq!(emu.pc(), 4);
    let (emu, _) = run_words(&[0x00400f93, 0x00500013, 0x00500013]);
    assert_eq!(emu.pc(), 12);
}

#[test]
fn store_then_load_keeps_low_bytes() {
    let mut emu = Emulator::default();
    let v: u64 = 0x1122_3344_5566_7788;
    for (w, mask) in [(1usize, 0xffu64), (2, 0xffff), (4, 0xffff_ffff), (8, u64::MAX)] {
        let at = Offset(Reg::Zero, Imm::new(0x100));
        emu.store(at, w, v);
        assert_eq!(emu.load(at, w), v & mask);
    }
    // Little-endian: the lowest byte sits at the lowest address.
    let at = Offset(Reg::Zero, Imm::new(0x100));
    assert_eq!(emu.load(at, 1), 0x88);
    assert_eq!(emu.memory(Addr::new_unsigned(0x100), 2), vec![0x88, 0x77]);
}

#[test]
fn decoding_is_repeatable() {
    let a = decode(0x40285893);
    let b = decode(0x40285893);
    assert_eq!(format!("{:?}", a), format!("{:?}", b));
}

#[test]
fn decode_recovers_operands() {
    assert!(matches!(
        decode(0x00400f93),
        Some(Instr::Addi(Reg::T(6), Reg::Zero, Imm::Pos(4)))
    ));
    assert!(matches!(
        decode(0x40285893),
        Some(Instr::Srai(Reg::A(7), Reg::A(6), Imm::Pos(2)))
    ));
    assert!(matches!(
        decode(0xff800813),
        Some(Instr::Addi(Reg::A(6), Reg::Zero, Imm::Neg(0xFFFF_FFFF_FFFF_FFF8)))
    ));
    // sd x5, 8(x0)
    assert!(matches!(
        decode(0x00503423),
        Some(Instr::Sd(Reg::T(0), Offset(Reg::Zero, Imm::Pos(8))))
    ));
    // beq x16, x17, 12
    assert!(matches!(
        decode(0x01180663),
        Some(Instr::Beq(Reg::A(6), Reg::A(7), Imm::Pos(12)))
    ));
    // jal x18, 12
    assert!(matches!(decode(0x00c0096f), Some(Instr::Jal(Reg::S(2), Imm::Pos(12)))));
    // lui x5, 0xfffff: the upper immediate is sign-extended from bit 31
    assert!(matches!(
        decode(0xfffff2b7),
        Some(Instr::Lui(Reg::T(0), Imm::Neg(0xFFFF_FFFF_FFFF_F000)))
    ));
    // sraiw x7, x5, 4
    assert!(matches!(
        decode(0x4042d39b),
        Some(Instr::Sraiw(Reg::T(2), Reg::T(0), Imm::Pos(4)))
    ));
    assert!(matches!(decode(0x0262e3bb), Some(Instr::Remw(Reg::T(2), Reg::T(0), Reg::T(1)))));
    assert!(matches!(decode(0x00000073), Some(Instr::Ecall)));
}

#[test]
fn decode_rejects_unknown_encodings() {
    assert!(decode(0xffff_ffff).is_none());
    assert!(decode(0x0000_0000).is_none());
    // funct7 0x20 with funct3 1 is no register-register operation
    assert!(decode(0x4000_1033).is_none());
    // a 64-bit shift-immediate with bits 31:26 other than 0 or 0x10
    assert!(decode(0x8000_5013).is_none());
}

#[test]
fn word_variant_sign_extends() {
    // addi x16, x0, 1; slli x16, x16, 31; addiw x17, x16, 0
    let (emu, _) = run_words(&[0x00100813, 0x01f81813, 0x0008089b]);
    assert_eq!(x(&emu, 16), 0x8000_0000);
    assert_eq!(x(&emu, 17), 0xFFFF_FFFF_8000_0000);
    // addi x5, x0, -20; subw x7, x0, x5; sraiw x7, x5, 4
    let (emu, _) = run_words(&[0xfec00293, 0x405003bb]);
    assert_eq!(x(&emu, 7), 20);
    let (emu, _) = run_words(&[0xfec00293, 0x4042d39b]);
    assert_eq!(x(&emu, 7), (-2i64) as u64);
}

#[test]
fn lui_clears_low_bits() {
    // lui x5, 0x12345; lui x6, 0xfffff (into x5 again)
    let (emu, _) = run_words(&[0x123452b7]);
    assert_eq!(x(&emu, 5), 0x1234_5000);
    assert_eq!(x(&emu, 5) & 0xfff, 0);
    let (emu, _) = run_words(&[0xfffff2b7]);
    assert_eq!(x(&emu, 5), 0xFFFF_FFFF_FFFF_F000);
}

#[test]
fn division_by_zero_follows_the_isa() {
    // addi x5, x0, -1; addi x6, x0, 0; div x7, x5, x6
    let (emu, _) = run_words(&[0xfff00293, 0x00000313, 0x0262c3b3]);
    assert_eq!(x(&emu, 7), u64::MAX);
    // rem by zero gives the dividend
    let (emu, _) = run_words(&[0xfff00293, 0x00000313, 0x0262e3b3]);
    assert_eq!(x(&emu, 7), u64::MAX);
    // divw by zero
    let (emu, _) = run_words(&[0xfff00293, 0x00000313, 0x0262c3bb]);
    assert_eq!(x(&emu, 7), u64::MAX);
}

#[test]
fn signed_overflow_division() {
    // addi x5, x0, 1; slli x5, x5, 63; addi x6, x0, -1; div / rem x7, x5, x6
    let (emu, _) = run_words(&[0x00100293, 0x03f29293, 0xfff00313, 0x0262c3b3]);
    assert_eq!(x(&emu, 5), 0x8000_0000_0000_0000);
    assert_eq!(x(&emu, 7), 0x8000_0000_0000_0000);
    let (emu, _) = run_words(&[0x00100293, 0x03f29293, 0xfff00313, 0x0262e3b3]);
    assert_eq!(x(&emu, 7), 0);
}

#[test]
fn division_truncates_toward_zero() {
    // addi x5, x0, -20; addi x6, x0, 7; div / rem / mulw x7, x5, x6
    let (emu, _) = run_words(&[0xfec00293, 0x00700313, 0x0262c3b3]);
    assert_eq!(x(&emu, 7), (-2i64) as u64);
    let (emu, _) = run_words(&[0xfec00293, 0x00700313, 0x0262e3b3]);
    assert_eq!(x(&emu, 7), (-6i64) as u64);
    let (emu, _) = run_words(&[0xfec00293, 0x00700313, 0x0262c3bb]);
    assert_eq!(x(&emu, 7), (-2i64) as u64);
    let (emu, _) = run_words(&[0xfec00293, 0x00700313, 0x0262e3bb]);
    assert_eq!(x(&emu, 7), (-6i64) as u64);
    let (emu, _) = run_words(&[0xfec00293, 0x00700313, 0x026283bb]);
    assert_eq!(x(&emu, 7), (-140i64) as u64);
}

#[test]
fn multiply_keeps_low_64_bits() {
    // addi x5, x0, -1; mul x7, x5, x5
    let (emu, _) = run_words(&[0xfff00293, 0x025283b3]);
    assert_eq!(x(&emu, 7), 1);
}

#[test]
fn doubleword_store_and_loads() {
    // addi x5, x0, -20; sd x5, 0x100(x0); ld x6, 0x100(x0)
    let (emu, _) = run_words(&[0xfec00293, 0x10503023, 0x10003303]);
    assert_eq!(x(&emu, 6), (-20i64) as u64);
    // lwu zero-extends
    let (emu, _) = run_words(&[0xfec00293, 0x10503023, 0x10006303]);
    assert_eq!(x(&emu, 6), 0xFFFF_FFEC);
}

#[test]
fn exit_syscall_halts_with_code() {
    // addi x10, x0, 42; addi x17, x0, 93; ecall; addi x10, x0, 1
    let (emu, r) = run_words(&[0x02a00513, 0x05d00893, 0x00000073, 0x00100513]);
    assert!(r.is_ok());
    assert!(emu.is_halted());
    assert_eq!(emu.exit_code(), 42);
    assert_eq!(x(&emu, 10), 42);
}

#[test]
fn write_syscall_appends_to_console() {
    let mut emu = Emulator::default();
    // addi x17, x0, 64; addi x10, x0, 1; addi x11, x0, 0x100; addi x12, x0, 3; ecall
    let data = program(&[0x04000893, 0x00100513, 0x10000593, 0x00300613, 0x00000073]);
    emu.flash_prgm(&data, Addr::new_unsigned(0));
    emu.flash_prgm(b"hi!?", Addr::new_unsigned(0x100));
    emu.flash_prgm(&data, Addr::new_unsigned(0));
    assert!(emu.run_for(5).is_ok());
    assert_eq!(emu.console(), b"hi!");
    assert!(!emu.is_halted());
    assert_eq!(emu.pc(), 20);
}

#[test]
fn write_to_other_descriptor_is_unsupported() {
    // addi x17, x0, 64; addi x10, x0, 2; ecall
    let (emu, r) = run_words(&[0x04000893, 0x00200513, 0x00000073]);
    assert_eq!(r, Err(Fault::UnsupportedWrite(2)));
    assert_eq!(emu.pc(), 8);
}

#[test]
fn unknown_syscall_continues() {
    // addi x17, x0, 42 (in a7); ecall
    let (emu, r) = run_words(&[0x02a00893, 0x00000073]);
    assert!(r.is_ok());
    assert!(!emu.is_halted());
    assert_eq!(emu.pc(), 8);
    assert_eq!(emu.ignored_syscalls(), &[42]);
    let (emu, _) = run_words(&[0x02a00513, 0x05d00893, 0x00000073]);
    assert!(emu.ignored_syscalls().is_empty());
}

#[test]
fn upper_immediates_clear_low_bits() {
    let mut emu = Emulator::default();
    assert_eq!(emu.execute(Instr::Lui(Reg::Ra, Imm::new(0x1005))), Ok(()));
    assert_eq!(emu.reg(Reg::Ra), 0x1000);
    assert_eq!(emu.execute(Instr::Auipc(Reg::Gp, Imm::new(-1))), Ok(()));
    assert_eq!(emu.reg(Reg::Gp), 4u64.wrapping_sub(0x1000));
}

#[test]
fn illegal_instruction_is_reported() {
    let (emu, r) = run_words(&[0x00400f93, 0xffffffff]);
    assert_eq!(r, Err(Fault::IllegalInstruction(0xffffffff)));
    assert_eq!(emu.pc(), 4);
    assert_eq!(x(&emu, 31), 4);
}

#[test]
fn load_past_memory_is_a_fault() {
    // ld x6, -8(x0): the address wraps to the top of the 64-bit space
    let (emu, r) = run_words(&[0xff803303]);
    assert_eq!(r, Err(Fault::MemoryFault(0xFFFF_FFFF_FFFF_FFF8)));
    assert_eq!(emu.pc(), 0);
}

#[test]
fn sentinel_loads_halt() {
    // lw x18, 1(x0)
    let (emu, r) = run_words(&[0x00102903, 0x00400f93]);
    assert!(r.is_ok());
    assert!(emu.is_halted());
    assert_eq!(emu.exit_code(), 0);
    assert_eq!(x(&emu, 31), 0);
    // lw x18, 0(x0)
    let (emu, _) = run_words(&[0x00002903]);
    assert!(emu.is_halted());
    assert_eq!(emu.exit_code(), FAULT_EXIT_CODE);
}

#[test]
fn jump_to_zero_returns_from_program() {
    // addi x10, x0, 2; jalr x0, x0, 0
    let (emu, r) = run_words(&[0x00200513, 0x00000067, 0x00400f93]);
    assert!(r.is_ok());
    assert!(emu.is_halted());
    assert_eq!(emu.exit_code(), 2);
    assert_eq!(x(&emu, 31), 0);
}

#[test]
fn step_after_halt_does_nothing() {
    let (mut emu, _) = run_words(&[0x02a00513, 0x05d00893, 0x00000073]);
    assert!(emu.is_halted());
    assert_eq!(emu.step(0x00400f93), Ok(false));
    assert_eq!(x(&emu, 31), 0);
}

#[test]
fn boots_at_dram_offset() {
    // addi x10, x0, 42; addi x17, x0, 93; ecall
    let data = program(&[0x02a00513, 0x05d00893, 0x00000073]);
    let emu = run_emulator(&data).unwrap();
    assert_eq!(emu.exit_code(), 42);
    assert_eq!(emu.reg(Reg::Sp), STACK_OFFSET);
    assert_eq!(emu.pc(), DRAM_OFFSET + 12);
}

#[test]
fn register_numbering() {
    for i in 0..32u32 {
        assert_eq!(Reg::new(i).reg_index(), i as usize);
    }
    assert!(matches!(Reg::new(2), Reg::Sp));
    assert!(matches!(Reg::new(18), Reg::S(2)));
    assert!(matches!(Reg::new(28), Reg::T(3)));
    assert!(matches!(Reg::new(17), Reg::A(7)));
}

#[test]
fn immediates_keep_their_sign() {
    let n = Imm::new(-8);
    assert!(matches!(n, Imm::Neg(_)));
    assert_eq!(n.val(), 0xFFFF_FFFF_FFFF_FFF8);
    assert_eq!(n.val_signed(), -8);
    let p = Imm::new(i64::MAX);
    assert!(matches!(p, Imm::Pos(_)));
    assert_eq!(p.val_signed(), i64::MAX);
    assert_eq!(Imm::new(i64::MIN).val(), 0x8000_0000_0000_0000);
}

#[test]
fn addresses_remember_signedness() {
    let a = Addr::new_signed(-1);
    assert!(a.is_signed());
    assert_eq!(a.val(), u64::MAX);
    assert_eq!(a.signed(), -1);
    let b = Addr::new_unsigned(7);
    assert!(!b.is_signed());
    assert_eq!(b.signed(), 7);
}

#[test]
fn register_accessors() {
    let mut emu = Emulator::default();
    emu.set_signed(Reg::A(0), -3);
    assert_eq!(emu.reg(Reg::A(0)), (-3i64) as u64);
    assert_eq!(emu.reg_signed(Reg::A(0)), -3);
    emu.add_pc(Imm::new(-4));
    assert_eq!(emu.pc(), u64::MAX - 3);
}

#[test]
fn buttons_by_position() {
    assert!(matches!(Button::new(0), Button::Zero));
    assert!(matches!(Button::new(3), Button::Three));
}

#[test]
fn execute_and_fetch() {
    let mut emu = Emulator::default();
    emu.flash_prgm(&program(&[0x00400f93]), Addr::new_unsigned(0));
    assert_eq!(emu.read_pc(), 0x00400f93);
    let instr = decode(emu.read_pc() as u32).unwrap();
    assert_eq!(emu.execute(instr), Ok(()));
    assert_eq!(emu.reg(Reg::T(6)), 4);
    assert_eq!(emu.pc(), 4);
    // sb x0, -1(x0): the address wraps past the end of memory
    let store = Instr::Sb(Reg::Zero, Offset(Reg::Zero, Imm::new(-1)));
    assert_eq!(emu.execute(store), Err(Fault::MemoryFault(u64::MAX)));
    assert_eq!(emu.pc(), 4);
}

#[test]
fn screen_bits_become_pixels() {
    let pixels = emu_screen_to_texture_data(&[0b1000_0001, 0]);
    assert_eq!(pixels.len(), 64);
    assert_eq!(&pixels[0..4], &[0xFF, 0xFF, 0xFF, 0xFF]);
    assert_eq!(&pixels[4..8], &[0, 0, 0, 0xFF]);
    assert_eq!(&pixels[28..32], &[0xFF, 0xFF, 0xFF, 0xFF]);
    assert!(pixels[32..].chunks(4).all(|p| p == [0, 0, 0, 0xFF]));
    assert!(emu_screen_to_texture_data(&[]).is_empty());
}
