use ais_asm::ais::{DpCntl, Instruction, Opcode, Register, SubOpXalu};
use ais_asm::dynasm::{DynAsm, DynAsmError};

const BASE: u32 = 0x480000;
const HEADER_LEN: usize = 11;
const FOOTER_LEN: usize = 1;

fn decoded_at(mem: &[u8], offset: usize) -> Instruction {
    let (i, n) = Instruction::decode(&mem[offset..]).unwrap();
    assert_eq!(n, 6);
    i
}

#[test]
fn gen_appends_encoding() {
    let mut engine = DynAsm::new(BASE);
    engine.gen(Instruction::xj(Register::Index(4))).unwrap();
    assert_eq!(engine.memory().len(), 6);
    let expected = Instruction::xj(Register::Index(4)).encode().unwrap();
    assert_eq!(engine.memory().as_slice(), expected.as_slice());
}

#[test]
fn gen_failure_leaves_buffer_unchanged() {
    let mut engine = DynAsm::new(BASE);
    engine.gen_load(Register::Index(16), 5).unwrap();
    let before = engine.memory().clone();
    let r = engine.gen(Instruction::new(Opcode::ORI));
    assert!(matches!(r, Err(DynAsmError::AisError(_))));
    assert_eq!(engine.memory(), &before);
}

#[test]
fn gen_load_zero_emits_one_instruction() {
    let mut engine = DynAsm::new(BASE);
    engine.gen_load(Register::Index(16), 0).unwrap();
    assert_eq!(engine.memory().len(), 6);
    let i = decoded_at(engine.memory(), 0);
    assert!(matches!(i.opcode, Opcode::ORI));
    assert!(matches!(i.rs, Some(Register::Index(0))));
    assert!(matches!(i.rt, Some(Register::Index(16))));
    assert_eq!(i.imm, Some(0));
}

#[test]
fn gen_load_low_half_emits_one_instruction() {
    let mut engine = DynAsm::new(BASE);
    engine.gen_load(Register::Index(16), 0x0000FFFF).unwrap();
    assert_eq!(engine.memory().len(), 6);
    let i = decoded_at(engine.memory(), 0);
    assert!(matches!(i.opcode, Opcode::ORI));
    assert_eq!(i.imm, Some(0xFFFF));
}

#[test]
fn gen_load_high_half_emits_one_instruction() {
    let mut engine = DynAsm::new(BASE);
    engine.gen_load(Register::Index(16), 0xFFFF0000).unwrap();
    assert_eq!(engine.memory().len(), 6);
    let i = decoded_at(engine.memory(), 0);
    assert!(matches!(i.opcode, Opcode::ORIU));
    assert!(matches!(i.rs, Some(Register::Index(0))));
    assert_eq!(i.imm, Some(0xFFFF));
}

#[test]
fn gen_load_full_word_emits_two_instructions() {
    let mut engine = DynAsm::new(BASE);
    engine.gen_load(Register::Index(16), 0x12345678).unwrap();
    assert_eq!(engine.memory().len(), 12);
    let lo = decoded_at(engine.memory(), 0);
    assert!(matches!(lo.opcode, Opcode::ORI));
    assert!(matches!(lo.rs, Some(Register::Index(0))));
    assert!(matches!(lo.rt, Some(Register::Index(16))));
    assert_eq!(lo.imm, Some(0x5678));
    let hi = decoded_at(engine.memory(), 6);
    assert!(matches!(hi.opcode, Opcode::ORIU));
    assert!(matches!(hi.rs, Some(Register::Index(16))));
    assert!(matches!(hi.rt, Some(Register::Index(16))));
    assert_eq!(hi.imm, Some(0x1234));
    // The two halves together carry the full word: low OR'd in first, the
    // high half OR'd in above it.
    let combined = (lo.imm.unwrap() as u32) | (hi.imm.unwrap() as u32) << 16;
    assert_eq!(combined, 0x12345678);
}

#[test]
fn gen_load_invalid_register_fails_without_side_effects() {
    let mut engine = DynAsm::new(BASE);
    let r = engine.gen_load(Register::Index(32), 1);
    assert!(matches!(r, Err(DynAsmError::AisError(_))));
    assert_eq!(engine.memory().len(), 0);
    let r = engine.gen_load(Register::Name("NOPE".to_string()), 1);
    assert!(matches!(r, Err(DynAsmError::AisError(_))));
    assert_eq!(engine.memory().len(), 0);
}

#[test]
fn symbol_resolved_after_use() {
    let mut engine = DynAsm::new(BASE);
    let sym = engine.new_sym();
    assert_eq!(engine.sym_addr(sym).unwrap(), None);
    engine.gen_jump(sym).unwrap();
    assert_eq!(engine.memory().len(), 18);
    // The placeholder immediates are not yet the target address.
    engine.set_sym_here(sym).unwrap();
    let target = BASE + 18;
    assert_eq!(engine.sym_addr(sym).unwrap(), Some(target));
    let lo = decoded_at(engine.memory(), 0);
    assert!(matches!(lo.opcode, Opcode::ORI));
    assert!(matches!(lo.rt, Some(Register::Index(4))));
    assert_eq!(lo.imm, Some((target & 0xFFFF) as u16));
    let hi = decoded_at(engine.memory(), 6);
    assert!(matches!(hi.opcode, Opcode::ORIU));
    assert_eq!(hi.imm, Some((target >> 16) as u16));
    let jump = decoded_at(engine.memory(), 12);
    assert!(matches!(jump.opcode, Opcode::XJ));
    assert!(matches!(jump.rt, Some(Register::Index(4))));
}

#[test]
fn symbol_resolved_before_use() {
    let mut engine = DynAsm::new(BASE);
    engine.gen_load(Register::Index(16), 0).unwrap();
    let sym = engine.new_sym_here();
    let target = BASE + 6;
    assert_eq!(engine.sym_addr(sym).unwrap(), Some(target));
    engine.gen_load_symbol(Register::Index(19), sym).unwrap();
    assert_eq!(engine.memory().len(), 18);
    // Both instructions carry the correct immediates at emission time.
    let lo = decoded_at(engine.memory(), 6);
    assert!(matches!(lo.opcode, Opcode::ORI));
    assert!(matches!(lo.rt, Some(Register::Index(19))));
    assert_eq!(lo.imm, Some((target & 0xFFFF) as u16));
    let hi = decoded_at(engine.memory(), 12);
    assert!(matches!(hi.opcode, Opcode::ORIU));
    assert_eq!(hi.imm, Some((target >> 16) as u16));
    // A later resolution attempt finds the symbol already bound.
    assert!(matches!(engine.set_sym_here(sym), Err(DynAsmError::SymbolRedefined)));
}

#[test]
fn early_and_late_binding_produce_identical_bytes() {
    let mut early = DynAsm::new(BASE);
    let s = early.new_sym_here();
    early.gen_load_symbol(Register::Index(7), s).unwrap();

    let mut late = DynAsm::new(BASE);
    let t = late.new_sym();
    late.set_sym_here(t).unwrap();
    late.gen_load_symbol(Register::Index(7), t).unwrap();

    assert_eq!(early.memory(), late.memory());
}

#[test]
fn double_resolution_fails_and_changes_nothing() {
    let mut engine = DynAsm::new(BASE);
    let sym = engine.new_sym();
    engine.gen_load(Register::Index(16), 3).unwrap();
    engine.set_sym_here(sym).unwrap();
    let addr = engine.sym_addr(sym).unwrap();
    let before = engine.memory().clone();
    let r = engine.set_sym_here(sym);
    assert!(matches!(r, Err(DynAsmError::SymbolRedefined)));
    assert_eq!(engine.memory(), &before);
    assert_eq!(engine.sym_addr(sym).unwrap(), addr);
}

#[test]
fn foreign_symbol_handle_is_rejected() {
    let mut issuer = DynAsm::new(BASE);
    let _ = issuer.new_sym();
    let foreign = issuer.new_sym();

    let mut engine = DynAsm::new(BASE);
    assert!(matches!(engine.set_sym_here(foreign), Err(DynAsmError::InvalidSym)));
    assert!(matches!(engine.sym_addr(foreign), Err(DynAsmError::InvalidSym)));
    assert!(matches!(
        engine.gen_load_symbol(Register::Index(3), foreign),
        Err(DynAsmError::InvalidSym)
    ));
}

#[test]
fn header_and_footer_bytes() {
    let mut engine = DynAsm::new(BASE);
    engine.gen_header();
    assert_eq!(
        engine.memory().as_slice(),
        &[0xE8, 0x00, 0x00, 0x00, 0x00, 0x58, 0x83, 0xC0, 0x06, 0x0F, 0x3F]
    );
    engine.gen_footer();
    assert_eq!(engine.memory().len(), HEADER_LEN + 1);
    assert_eq!(engine.memory()[HEADER_LEN], 0xC3);
}

#[test]
fn end_to_end_blob() {
    let mut engine = DynAsm::new(BASE);
    engine.gen_header();
    engine.gen_load(Register::Index(16), 1).unwrap();
    engine.gen_load(Register::Index(19), 0x80000000).unwrap();
    engine.gen(Instruction::xalur(
        SubOpXalu::ADD,
        DpCntl::Word,
        Register::Index(16),
        Register::Index(16),
        Register::Index(19),
    ))
    .unwrap();
    engine.gen_footer();

    // Each 32-bit load here takes a single instruction (one half of each
    // immediate is zero), so the body holds exactly three units.
    let n = 3;
    assert_eq!(engine.memory().len(), HEADER_LEN + 6 * n + FOOTER_LEN);

    let body = &engine.memory()[HEADER_LEN..engine.memory().len() - FOOTER_LEN];
    let first = decoded_at(body, 0);
    assert!(matches!(first.opcode, Opcode::ORI));
    assert!(matches!(first.rt, Some(Register::Index(16))));
    assert_eq!(first.imm, Some(1));
    let second = decoded_at(body, 6);
    assert!(matches!(second.opcode, Opcode::ORIU));
    assert!(matches!(second.rt, Some(Register::Index(19))));
    assert_eq!(second.imm, Some(0x8000));
    let third = decoded_at(body, 12);
    assert!(matches!(third.opcode, Opcode::XALUR));
    assert!(matches!(
        third.function,
        Some(ais_asm::ais::Function::Xalu(SubOpXalu::ADD, DpCntl::Word))
    ));
}

#[test]
fn symbolic_register_names_work_through_the_engine() {
    let mut engine = DynAsm::new(BASE);
    engine.gen_load(Register::Name("EAX".to_string()), 0xB).unwrap();
    let i = decoded_at(engine.memory(), 0);
    assert!(matches!(i.rt, Some(Register::Index(16))));
    assert_eq!(i.imm, Some(0xB));
}

#[test]
fn jump_to_unresolved_then_resolve_elsewhere() {
    // A forward jump over a gap: resolution happens after more code has been
    // emitted, and only the two placeholder units change.
    let mut engine = DynAsm::new(BASE);
    let end = engine.new_sym();
    engine.gen_jump(end).unwrap();
    engine.gen_load(Register::Index(17), 0xAAAABBBB).unwrap();
    let filler = engine.memory()[18..30].to_vec();
    engine.set_sym_here(end).unwrap();
    let target = BASE + 30;
    let lo = decoded_at(engine.memory(), 0);
    assert_eq!(lo.imm, Some((target & 0xFFFF) as u16));
    let hi = decoded_at(engine.memory(), 6);
    assert_eq!(hi.imm, Some((target >> 16) as u16));
    assert_eq!(&engine.memory()[18..30], filler.as_slice());
}
