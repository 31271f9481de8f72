use ais_asm::ais::{
    AisError, Const, DpCntl, Function, Instruction, Offset, Opcode, Register, Sel, Size,
    SubOpXalu, SubOpXio, SubOpXls,
};

fn le_word(bytes: &[u8]) -> u32 {
    assert_eq!(bytes.len(), 6);
    (bytes[2] as u32)
        | (bytes[3] as u32) << 8
        | (bytes[4] as u32) << 16
        | (bytes[5] as u32) << 24
}

#[test]
fn round_trip_i_type() {
    let i = Instruction::i_type(Opcode::ORI, Register::Index(3), Register::Index(0), 0x1234);
    let bytes = i.encode().unwrap();
    assert_eq!(bytes.len(), 6);
    assert_eq!(&bytes[0..2], &[0x62, 0x80]);
    let (d, n) = Instruction::decode(&bytes).unwrap();
    assert_eq!(n, 6);
    assert!(matches!(d.opcode, Opcode::ORI));
    assert!(matches!(d.rs, Some(Register::Index(0))));
    assert!(matches!(d.rt, Some(Register::Index(3))));
    assert_eq!(d.imm, Some(0x1234));
    assert!(d.rd.is_none());
    assert!(d.constant.is_none());
    assert!(d.offset.is_none());
    assert!(d.function.is_none());
    let again = d.encode().unwrap();
    assert_eq!(again, bytes);
}

#[test]
fn round_trip_every_i_type_opcode() {
    let opcodes = [
        Opcode::ORIU,
        Opcode::ADDI,
        Opcode::ANDIU,
        Opcode::ANDIL,
        Opcode::ANDI,
        Opcode::ORI,
        Opcode::XORI,
        Opcode::XORIU,
    ];
    for op in opcodes {
        let i = Instruction::i_type(op, Register::Index(31), Register::Index(17), 0xBEEF);
        let bytes = i.encode().unwrap();
        let (d, n) = Instruction::decode(&bytes).unwrap();
        assert_eq!(n, 6);
        assert!(matches!(d.rs, Some(Register::Index(17))));
        assert!(matches!(d.rt, Some(Register::Index(31))));
        assert_eq!(d.imm, Some(0xBEEF));
        assert_eq!(d.encode().unwrap(), bytes);
    }
}

#[test]
fn round_trip_xalur() {
    let i = Instruction::xalur(
        SubOpXalu::ADD,
        DpCntl::Word,
        Register::Index(16),
        Register::Index(16),
        Register::Index(19),
    );
    let bytes = i.encode().unwrap();
    let (d, n) = Instruction::decode(&bytes).unwrap();
    assert_eq!(n, 6);
    assert!(matches!(d.opcode, Opcode::XALUR));
    assert!(matches!(d.rs, Some(Register::Index(16))));
    assert!(matches!(d.rt, Some(Register::Index(19))));
    assert!(matches!(d.rd, Some(Register::Index(16))));
    assert!(matches!(d.function, Some(Function::Xalu(SubOpXalu::ADD, DpCntl::Word))));
    assert_eq!(d.encode().unwrap(), bytes);
}

#[test]
fn round_trip_xalur_every_dpcntl() {
    let modes = [DpCntl::Word, DpCntl::Short, DpCntl::LL, DpCntl::HL, DpCntl::LH, DpCntl::HH];
    for m in modes {
        let i = Instruction::xalur(
            SubOpXalu::XOR,
            m,
            Register::Index(1),
            Register::Index(2),
            Register::Index(3),
        );
        let bytes = i.encode().unwrap();
        let (d, _) = Instruction::decode(&bytes).unwrap();
        assert!(matches!(d.function, Some(Function::Xalu(SubOpXalu::XOR, dm)) if dm == m));
        assert_eq!(d.encode().unwrap(), bytes);
    }
}

#[test]
fn round_trip_xj() {
    let i = Instruction::xj(Register::Index(4));
    let bytes = i.encode().unwrap();
    let (d, n) = Instruction::decode(&bytes).unwrap();
    assert_eq!(n, 6);
    assert!(matches!(d.opcode, Opcode::XJ));
    assert!(matches!(d.rt, Some(Register::Index(4))));
    assert!(d.rs.is_none());
    assert_eq!(d.encode().unwrap(), bytes);
}

#[test]
fn round_trip_xio() {
    let w = Instruction::xiow(Size::Bits8, Register::Index(2), Register::Index(18));
    let bytes = w.encode().unwrap();
    let (d, n) = Instruction::decode(&bytes).unwrap();
    assert_eq!(n, 6);
    assert!(matches!(d.opcode, Opcode::XIOW));
    assert!(matches!(d.rs, Some(Register::Index(18))));
    assert!(matches!(d.rt, Some(Register::Index(2))));
    assert!(matches!(d.offset, Some(Offset::Number(0))));
    assert!(matches!(
        d.function,
        Some(Function::Xls(SubOpXls::Xio(SubOpXio::Norm), ais_asm::ais::AddrSize::Bits32, Size::Bits8, Sel::Flat))
    ));
    assert_eq!(d.encode().unwrap(), bytes);

    let r = Instruction::xior(Size::Bits32, Register::Index(5), Register::Index(6));
    let rb = r.encode().unwrap();
    let (dr, _) = Instruction::decode(&rb).unwrap();
    assert!(matches!(dr.opcode, Opcode::XIOR));
    assert_eq!(dr.encode().unwrap(), rb);
}

#[test]
fn encode_name_registers_decode_as_indices() {
    let i = Instruction::i_type(
        Opcode::ORI,
        Register::Name("EAX".to_string()),
        Register::Index(0),
        7,
    );
    let bytes = i.encode().unwrap();
    let (d, _) = Instruction::decode(&bytes).unwrap();
    assert!(matches!(d.rt, Some(Register::Index(16))));
}

#[test]
fn exact_encoding_i_type() {
    // 0o15 << 26 | 0 << 21 | 1 << 16 | 1
    let i = Instruction::i_type(Opcode::ORI, Register::Index(1), Register::Index(0), 1);
    let bytes = i.encode().unwrap();
    assert_eq!(bytes, vec![0x62, 0x80, 0x01, 0x00, 0x01, 0x34]);
}

#[test]
fn exact_encoding_xj_trailer() {
    // 0o06 << 26 | 2 << 16 | 0b01_0001_00
    let i = Instruction::xj(Register::Index(2));
    let bytes = i.encode().unwrap();
    assert_eq!(le_word(&bytes), (0o06 << 26) | (2 << 16) | 0b01_0001_00);
}

#[test]
fn decode_reports_fixed_length_six() {
    let mut long = Instruction::xj(Register::Index(1)).encode().unwrap();
    long.extend_from_slice(&[0xAA, 0xBB, 0xCC]);
    let (_, n) = Instruction::decode(&long).unwrap();
    assert_eq!(n, 6);
}

#[test]
fn decode_truncated_input_fails() {
    assert!(matches!(Instruction::decode(&[]), Err(AisError::DecodeError(_))));
    assert!(matches!(Instruction::decode(&[0x62]), Err(AisError::DecodeError(_))));
    assert!(matches!(
        Instruction::decode(&[0x62, 0x80, 0x00, 0x00, 0x00]),
        Err(AisError::DecodeError(_))
    ));
}

#[test]
fn decode_bad_header_fails() {
    let r = Instruction::decode(&[0x63, 0x80, 0x00, 0x00, 0x00, 0x18]);
    match r {
        Err(AisError::DecodeError(v)) => assert_eq!(v, vec![0x63, 0x80, 0x00, 0x00, 0x00, 0x18]),
        _ => panic!("expected a decode error"),
    }
    assert!(matches!(
        Instruction::decode(&[0x62, 0x81, 0x00, 0x00, 0x00, 0x18]),
        Err(AisError::DecodeError(_))
    ));
}

#[test]
fn decode_unknown_opcode_fails() {
    // Top six bits 0o01 match no table entry.
    let word: u32 = 0o01 << 26;
    let mut bytes = vec![0x62, 0x80];
    bytes.extend_from_slice(&word.to_le_bytes());
    assert!(matches!(Instruction::decode(&bytes), Err(AisError::UnknownOpcode(0o01))));
}

#[test]
fn decode_unknown_xalu_subop_fails() {
    // XALUR word with sub-opcode bits 0o01, which match no table entry.
    let word: u32 = (0o42 << 26) | 0o01;
    let mut bytes = vec![0x62, 0x80];
    bytes.extend_from_slice(&word.to_le_bytes());
    assert!(matches!(Instruction::decode(&bytes), Err(AisError::DecodeIssue)));
}

#[test]
fn decode_unknown_dpcntl_fails() {
    // XALUR word with mode-control bits 0b111, which match no table entry.
    let word: u32 = (0o42 << 26) | (0b111 << 5);
    let mut bytes = vec![0x62, 0x80];
    bytes.extend_from_slice(&word.to_le_bytes());
    assert!(matches!(Instruction::decode(&bytes), Err(AisError::DecodeIssue)));
}

#[test]
fn decode_unknown_xio_subop_fails() {
    // XIOW word with sub-opcode bits 0b1 in bits 15-9.
    let word: u32 = (0o75 << 26) | (1 << 9);
    let mut bytes = vec![0x62, 0x80];
    bytes.extend_from_slice(&word.to_le_bytes());
    assert!(matches!(Instruction::decode(&bytes), Err(AisError::UnknownSubOp(1))));
}

#[test]
fn decode_unsupported_class_fails() {
    // XMISC has a recognized opcode but no implemented decoding.
    let word: u32 = 0o50 << 26;
    let mut bytes = vec![0x62, 0x80];
    bytes.extend_from_slice(&word.to_le_bytes());
    assert!(matches!(Instruction::decode(&bytes), Err(AisError::DecodeError(_))));
}

#[test]
fn encode_missing_fields_fail() {
    assert!(matches!(
        Instruction::new(Opcode::ORI).encode(),
        Err(AisError::MissingRs(_))
    ));

    let mut i = Instruction::new(Opcode::ORI);
    i.rs = Some(Register::Index(0));
    assert!(matches!(i.encode(), Err(AisError::MissingRt(_))));

    let mut i = Instruction::new(Opcode::ORI);
    i.rs = Some(Register::Index(0));
    i.rt = Some(Register::Index(1));
    assert!(matches!(i.encode(), Err(AisError::MissingImmediate(_))));

    let mut i = Instruction::new(Opcode::XALUR);
    i.rs = Some(Register::Index(0));
    i.rt = Some(Register::Index(1));
    assert!(matches!(i.encode(), Err(AisError::MissingRd(_))));

    let mut i = Instruction::new(Opcode::XALUR);
    i.rs = Some(Register::Index(0));
    i.rt = Some(Register::Index(1));
    i.rd = Some(Register::Index(2));
    assert!(matches!(i.encode(), Err(AisError::MissingFunction(_))));

    let mut i = Instruction::new(Opcode::XALUIR);
    i.rs = Some(Register::Index(0));
    assert!(matches!(i.encode(), Err(AisError::MissingConstant(_))));

    let mut i = Instruction::new(Opcode::XIOW);
    i.rs = Some(Register::Index(0));
    i.rt = Some(Register::Index(1));
    assert!(matches!(i.encode(), Err(AisError::MissingOffset(_))));
}

#[test]
fn encode_unsupported_forms_fail() {
    // A non-zero offset has no implemented encoding.
    let i = Instruction::xls_type(
        Opcode::XIOW,
        Register::Index(1),
        Register::Index(2),
        Offset::Number(4),
    );
    assert!(matches!(i.encode(), Err(AisError::MissingFunction(_) | AisError::Unsupported(_))));
    let mut j = Instruction::xls_type(
        Opcode::XIOW,
        Register::Index(1),
        Register::Index(2),
        Offset::Number(4),
    );
    j.function = Some(Function::Xls(
        SubOpXls::Xio(SubOpXio::Norm),
        ais_asm::ais::AddrSize::Bits32,
        Size::Bits16,
        Sel::Flat,
    ));
    assert!(matches!(j.encode(), Err(AisError::Unsupported(_))));

    // An opcode outside every implemented format class.
    assert!(matches!(
        Instruction::new(Opcode::XMISC).encode(),
        Err(AisError::Unsupported(_))
    ));
}

#[test]
fn encode_invalid_register_fails() {
    let i = Instruction::i_type(Opcode::ORI, Register::Index(32), Register::Index(0), 0);
    assert!(matches!(i.encode(), Err(AisError::InvalidRegisterIndex(32))));
    let j = Instruction::i_type(
        Opcode::ORI,
        Register::Name("NOPE".to_string()),
        Register::Index(0),
        0,
    );
    assert!(matches!(j.encode(), Err(AisError::InvalidRegisterName(_))));
}

#[test]
fn register_bits_validation() {
    assert!(matches!(Register::Index(32).bits(), Err(AisError::InvalidRegisterIndex(32))));
    assert!(matches!(
        Register::Name("NOPE".to_string()).bits(),
        Err(AisError::InvalidRegisterName(n)) if n == "NOPE"
    ));
    assert_eq!(Register::Index(0).bits().unwrap(), 0);
    assert_eq!(Register::Index(31).bits().unwrap(), 31);
    assert_eq!(Register::Name("R4".to_string()).bits().unwrap(), 4);
    assert_eq!(Register::Name("EAX".to_string()).bits().unwrap(), 16);
    assert_eq!(Register::Name("ECX".to_string()).bits().unwrap(), 17);
    assert_eq!(Register::Name("EDX".to_string()).bits().unwrap(), 18);
    assert_eq!(Register::Name("EBX".to_string()).bits().unwrap(), 19);
}

#[test]
fn register_equality() {
    assert_eq!(Register::Index(4), Register::Index(4));
    assert_ne!(Register::Index(4), Register::Index(5));
    assert_eq!(
        Register::Name("EAX".to_string()),
        Register::Name("EAX".to_string())
    );
    assert_ne!(Register::Name("EAX".to_string()), Register::Index(16));
}

#[test]
fn xaluir_zero_constant_encodes() {
    // Only the zero constant has an implemented encoding; it contributes no
    // bits to the word.
    let a = Instruction::xaluir(
        SubOpXalu::ADD,
        DpCntl::Word,
        Register::Index(1),
        Register::Index(2),
        Const::Number(0),
    );
    let bytes = a.encode().unwrap();
    assert_eq!(bytes.len(), 6);
    assert_eq!(&bytes[0..2], &[0x62, 0x80]);
}

#[test]
fn xaluir_nonzero_constant_unsupported() {
    // A non-zero constant has no defined bit pattern: encoding must refuse it
    // rather than silently drop the value.
    let a = Instruction::xaluir(
        SubOpXalu::ADD,
        DpCntl::Word,
        Register::Index(1),
        Register::Index(2),
        Const::Number(77),
    );
    assert!(matches!(a.encode(), Err(AisError::Unsupported(_))));
}

#[test]
fn duplicate_preserves_fields() {
    let i = Instruction::i_type(
        Opcode::ANDI,
        Register::Name("EBX".to_string()),
        Register::Index(9),
        0xCAFE,
    );
    let d = i.duplicate();
    assert!(matches!(d.opcode, Opcode::ANDI));
    assert!(matches!(d.rt, Some(Register::Name(ref n)) if n == "EBX"));
    assert!(matches!(d.rs, Some(Register::Index(9))));
    assert_eq!(d.imm, Some(0xCAFE));
}
