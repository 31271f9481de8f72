//! Instruction codec: the structured instruction representation and its
//! bit-exact encoding to and from the fixed 6-byte wire form
//! (`0x62 0x80` followed by a 4-byte little-endian instruction word).

use vstd::prelude::*;

verus! {

/// Errors reported by the codec: invalid operands, operand slots left empty
/// although the instruction's format class requires them, instruction forms
/// with no implemented encoding, and malformed input on decoding.
#[derive(Debug)]
pub enum AisError {
    InvalidRegisterIndex(u8),
    InvalidRegisterName(String),
    Unsupported(Instruction),
    MissingImmediate(Instruction),
    MissingRs(Instruction),
    MissingRt(Instruction),
    MissingRd(Instruction),
    MissingConstant(Instruction),
    MissingOffset(Instruction),
    MissingFunction(Instruction),
    DecodeError(Vec<u8>),
    DecodeIssue,
    UnknownOpcode(u32),
    UnknownSubOp(u32),
}

/// A register reference: a raw register-file index, or a symbolic name that
/// resolves through a fixed name table. Construction always succeeds;
/// validation happens in [`Register::bits`].
#[derive(Debug, Clone)]
pub enum Register {
    Index(u8),
    Name(String),
}

/// The closed name table: the register number a symbolic name resolves to,
/// or nothing for a name outside the table.
pub open spec fn spec_name_bits(s: Seq<char>) -> Option<u32> {
    if s == "R4"@ {
        Some(4u32)
    } else if s == "EAX"@ {
        Some(16u32)
    } else if s == "ECX"@ {
        Some(17u32)
    } else if s == "EDX"@ {
        Some(18u32)
    } else if s == "EBX"@ {
        Some(19u32)
    } else {
        None
    }
}

/// The 5-bit register number that a valid register reference stands for: an
/// index must be at most 31, and a name must be in the closed name table.
pub open spec fn spec_reg_bits(r: Register) -> Option<u32> {
    match r {
        Register::Index(x) => if x <= 31 {
            Some(x as u32)
        } else {
            None
        },
        Register::Name(s) => spec_name_bits(s@),
    }
}

/// Whether the register reference resolves to a register number.
pub open spec fn spec_reg_valid(r: Register) -> bool {
    spec_reg_bits(r) is Some
}

/// The error that [`Register::bits`] reports for an invalid register.
pub open spec fn spec_reg_err(r: Register) -> AisError {
    match r {
        Register::Index(x) => AisError::InvalidRegisterIndex(x),
        Register::Name(s) => AisError::InvalidRegisterName(s),
    }
}

impl Register {
    /// The 5-bit register number, or an error for an out-of-range index or a
    /// name outside the closed name table. No side effects either way.
    pub fn bits(&self) -> (r: Result<u32, AisError>)
        ensures
            match r {
                Ok(b) => spec_reg_bits(*self) == Some(b),
                Err(e) => spec_reg_bits(*self) is None && e == spec_reg_err(*self),
            },
    {
        match self {
            Register::Index(x) => {
                if *x > 31 {
                    Err(AisError::InvalidRegisterIndex(*x))
                } else {
                    Ok(*x as u32)
                }
            },
            Register::Name(x) => {
                let r4: String = "R4".to_owned();
                let eax: String = "EAX".to_owned();
                let ecx: String = "ECX".to_owned();
                let edx: String = "EDX".to_owned();
                let ebx: String = "EBX".to_owned();
                if *x == r4 {
                    Ok(4)
                } else if *x == eax {
                    Ok(16)
                } else if *x == ecx {
                    Ok(17)
                } else if *x == edx {
                    Ok(18)
                } else if *x == ebx {
                    Ok(19)
                } else {
                    Err(AisError::InvalidRegisterName(x.clone()))
                }
            },
        }
    }

    /// An exact copy. Unlike the derived `Clone`, its contract states that the
    /// copy equals the original.
    pub fn duplicate(&self) -> (r: Register)
        ensures
            r == *self,
    {
        match self {
            Register::Index(x) => Register::Index(*x),
            Register::Name(s) => Register::Name(s.clone()),
        }
    }
}

impl PartialEq for Register {
    fn eq(&self, other: &Self) -> (r: bool) {
        match (self, other) {
            (Register::Index(a), Register::Index(b)) => *a == *b,
            (Register::Name(a), Register::Name(b)) => *a == *b,
            _ => false,
        }
    }
}

impl vstd::std_specs::cmp::PartialEqSpecImpl for Register {
    open spec fn obeys_eq_spec() -> bool {
        true
    }

    open spec fn eq_spec(&self, other: &Self) -> bool {
        match (self, other) {
            (Register::Index(a), Register::Index(b)) => a == b,
            (Register::Name(a), Register::Name(b)) => a@ == b@,
            _ => false,
        }
    }
}

/// A signed 8-bit constant operand. Only the plain-number form exists, and
/// only the zero constant has an implemented encoding (which contributes no
/// bits): a non-zero constant is an unsupported form.
#[derive(Debug, Copy, Clone, PartialEq, Eq, Structural)]
pub enum Const {
    Number(i8),
}

/// A signed 8-bit offset operand. Only the zero offset has an implemented
/// encoding.
#[derive(Debug, Copy, Clone, PartialEq, Eq, Structural)]
pub enum Offset {
    Number(i8),
}

/// Operand size of a port access.
#[derive(Debug, Copy, Clone, PartialEq, Eq, Structural)]
pub enum Size {
    Bits16,
    Bits32,
    Bits8,
}

/// Segment selector mode of a port access.
#[derive(Debug, Copy, Clone, PartialEq, Eq, Structural)]
pub enum Sel {
    Flat,
}

/// Sub-opcode of a load-store-class function descriptor.
#[derive(Debug, Copy, Clone, PartialEq, Eq, Structural)]
pub enum SubOpXls {
    Xio(SubOpXio),
}

/// Sub-opcode of a port-IO function descriptor.
#[derive(Debug, Copy, Clone, PartialEq, Eq, Structural)]
pub enum SubOpXio {
    Norm,
}

/// Address size of a port access.
#[derive(Debug, Copy, Clone, PartialEq, Eq, Structural)]
pub enum AddrSize {
    Bits32,
}

/// Secondary-function descriptor: sub-opcode plus mode-control bits for
/// arithmetic-class instructions, or sub-opcode plus addressing-size,
/// operand-size and selector bits for load-store-class instructions.
#[derive(Debug, Copy, Clone, PartialEq, Eq, Structural)]
pub enum Function {
    Xls(SubOpXls, AddrSize, Size, Sel),
    Xalu(SubOpXalu, DpCntl),
}

/// Mode-control bits of an arithmetic-class function descriptor.
#[derive(Debug, Copy, Clone, PartialEq, Eq, Structural)]
pub enum DpCntl {
    Word,
    Short,
    LL,
    HL,
    LH,
    HH,
}

/// The closed opcode enumeration. Each opcode has a fixed 6-bit numeric code,
/// given by [`spec_opcode_code`].
#[derive(Debug, Copy, Clone, PartialEq, Eq, Structural)]
pub enum Opcode {
    XJ,
    ORIU,
    ADDI,
    ANDIU,
    ANDIL,
    ANDI,
    ORI,
    XORI,
    XORIU,
    XALU,
    XALUI,
    XALUR,
    XALUIR,
    XMISC,
    XLEAI,
    XLEAD,
    XL,
    XL2,
    XL3,
    XLBI,
    XLDESC,
    XIOR,
    XPOPBR,
    XPOP,
    XS,
    XS2,
    XPUSHI,
    XSI,
    XPUSHIP,
    XIOW,
    XSU,
    XPUSH,
}

/// Sub-opcode of an arithmetic-class function descriptor.
#[derive(Debug, Copy, Clone, PartialEq, Eq, Structural)]
pub enum SubOpXalu {
    SHL,
    SHR,
    SAR,
    ROL,
    ROR,
    RCL,
    RCR,
    INC,
    CMPS,
    DEC,
    IMUL,
    MUL,
    IDIV,
    ADD,
    ADC,
    SUB,
    SBB,
    AND,
    OR,
    XOR,
    NOR,
    CTC2,
    SETCC,
    MFLOU,
    MFLOI,
}

/// The fixed 6-bit code of each opcode (bits 31-26 of the instruction word).
pub open spec fn spec_opcode_code(op: Opcode) -> u32 {
    match op {
        Opcode::XJ => 0o06,
        Opcode::ORIU => 0o10,
        Opcode::ADDI => 0o11,
        Opcode::ANDIU => 0o12,
        Opcode::ANDIL => 0o13,
        Opcode::ANDI => 0o14,
        Opcode::ORI => 0o15,
        Opcode::XORI => 0o16,
        Opcode::XORIU => 0o17,
        Opcode::XALU => 0o40,
        Opcode::XALUI => 0o41,
        Opcode::XALUR => 0o42,
        Opcode::XALUIR => 0o43,
        Opcode::XMISC => 0o50,
        Opcode::XLEAI => 0o53,
        Opcode::XLEAD => 0o54,
        Opcode::XL => 0o60,
        Opcode::XL2 => 0o61,
        Opcode::XL3 => 0o62,
        Opcode::XLBI => 0o63,
        Opcode::XLDESC => 0o64,
        Opcode::XIOR => 0o65,
        Opcode::XPOPBR => 0o66,
        Opcode::XPOP => 0o67,
        Opcode::XS => 0o70,
        Opcode::XS2 => 0o71,
        Opcode::XPUSHI => 0o72,
        Opcode::XSI => 0o73,
        Opcode::XPUSHIP => 0o74,
        Opcode::XIOW => 0o75,
        Opcode::XSU => 0o76,
        Opcode::XPUSH => 0o77,
    }
}

/// The inverse of the opcode table: which opcode, if any, a 6-bit code means.
pub open spec fn spec_opcode_from_code(c: u32) -> Option<Opcode> {
    if c == 0o06 {
        Some(Opcode::XJ)
    } else if c == 0o10 {
        Some(Opcode::ORIU)
    } else if c == 0o11 {
        Some(Opcode::ADDI)
    } else if c == 0o12 {
        Some(Opcode::ANDIU)
    } else if c == 0o13 {
        Some(Opcode::ANDIL)
    } else if c == 0o14 {
        Some(Opcode::ANDI)
    } else if c == 0o15 {
        Some(Opcode::ORI)
    } else if c == 0o16 {
        Some(Opcode::XORI)
    } else if c == 0o17 {
        Some(Opcode::XORIU)
    } else if c == 0o40 {
        Some(Opcode::XALU)
    } else if c == 0o41 {
        Some(Opcode::XALUI)
    } else if c == 0o42 {
        Some(Opcode::XALUR)
    } else if c == 0o43 {
        Some(Opcode::XALUIR)
    } else if c == 0o50 {
        Some(Opcode::XMISC)
    } else if c == 0o53 {
        Some(Opcode::XLEAI)
    } else if c == 0o54 {
        Some(Opcode::XLEAD)
    } else if c == 0o60 {
        Some(Opcode::XL)
    } else if c == 0o61 {
        Some(Opcode::XL2)
    } else if c == 0o62 {
        Some(Opcode::XL3)
    } else if c == 0o63 {
        Some(Opcode::XLBI)
    } else if c == 0o64 {
        Some(Opcode::XLDESC)
    } else if c == 0o65 {
        Some(Opcode::XIOR)
    } else if c == 0o66 {
        Some(Opcode::XPOPBR)
    } else if c == 0o67 {
        Some(Opcode::XPOP)
    } else if c == 0o70 {
        Some(Opcode::XS)
    } else if c == 0o71 {
        Some(Opcode::XS2)
    } else if c == 0o72 {
        Some(Opcode::XPUSHI)
    } else if c == 0o73 {
        Some(Opcode::XSI)
    } else if c == 0o74 {
        Some(Opcode::XPUSHIP)
    } else if c == 0o75 {
        Some(Opcode::XIOW)
    } else if c == 0o76 {
        Some(Opcode::XSU)
    } else if c == 0o77 {
        Some(Opcode::XPUSH)
    } else {
        None
    }
}

/// Looking an opcode's code back up yields the opcode: the code table is
/// injective.
pub proof fn lemma_opcode_code_inverse(op: Opcode)
    ensures
        spec_opcode_from_code(spec_opcode_code(op)) == Some(op),
        spec_opcode_code(op) < 64,
{
}

pub fn opcode_to_bits(op: Opcode) -> (r: u32)
    ensures
        r == spec_opcode_code(op),
{
    match op {
        Opcode::XJ => 0o06,
        Opcode::ORIU => 0o10,
        Opcode::ADDI => 0o11,
        Opcode::ANDIU => 0o12,
        Opcode::ANDIL => 0o13,
        Opcode::ANDI => 0o14,
        Opcode::ORI => 0o15,
        Opcode::XORI => 0o16,
        Opcode::XORIU => 0o17,
        Opcode::XALU => 0o40,
        Opcode::XALUI => 0o41,
        Opcode::XALUR => 0o42,
        Opcode::XALUIR => 0o43,
        Opcode::XMISC => 0o50,
        Opcode::XLEAI => 0o53,
        Opcode::XLEAD => 0o54,
        Opcode::XL => 0o60,
        Opcode::XL2 => 0o61,
        Opcode::XL3 => 0o62,
        Opcode::XLBI => 0o63,
        Opcode::XLDESC => 0o64,
        Opcode::XIOR => 0o65,
        Opcode::XPOPBR => 0o66,
        Opcode::XPOP => 0o67,
        Opcode::XS => 0o70,
        Opcode::XS2 => 0o71,
        Opcode::XPUSHI => 0o72,
        Opcode::XSI => 0o73,
        Opcode::XPUSHIP => 0o74,
        Opcode::XIOW => 0o75,
        Opcode::XSU => 0o76,
        Opcode::XPUSH => 0o77,
    }
}

pub fn opcode_from_bits(c: u32) -> (r: Option<Opcode>)
    ensures
        r == spec_opcode_from_code(c),
{
    if c == 0o06 {
        Some(Opcode::XJ)
    } else if c == 0o10 {
        Some(Opcode::ORIU)
    } else if c == 0o11 {
        Some(Opcode::ADDI)
    } else if c == 0o12 {
        Some(Opcode::ANDIU)
    } else if c == 0o13 {
        Some(Opcode::ANDIL)
    } else if c == 0o14 {
        Some(Opcode::ANDI)
    } else if c == 0o15 {
        Some(Opcode::ORI)
    } else if c == 0o16 {
        Some(Opcode::XORI)
    } else if c == 0o17 {
        Some(Opcode::XORIU)
    } else if c == 0o40 {
        Some(Opcode::XALU)
    } else if c == 0o41 {
        Some(Opcode::XALUI)
    } else if c == 0o42 {
        Some(Opcode::XALUR)
    } else if c == 0o43 {
        Some(Opcode::XALUIR)
    } else if c == 0o50 {
        Some(Opcode::XMISC)
    } else if c == 0o53 {
        Some(Opcode::XLEAI)
    } else if c == 0o54 {
        Some(Opcode::XLEAD)
    } else if c == 0o60 {
        Some(Opcode::XL)
    } else if c == 0o61 {
        Some(Opcode::XL2)
    } else if c == 0o62 {
        Some(Opcode::XL3)
    } else if c == 0o63 {
        Some(Opcode::XLBI)
    } else if c == 0o64 {
        Some(Opcode::XLDESC)
    } else if c == 0o65 {
        Some(Opcode::XIOR)
    } else if c == 0o66 {
        Some(Opcode::XPOPBR)
    } else if c == 0o67 {
        Some(Opcode::XPOP)
    } else if c == 0o70 {
        Some(Opcode::XS)
    } else if c == 0o71 {
        Some(Opcode::XS2)
    } else if c == 0o72 {
        Some(Opcode::XPUSHI)
    } else if c == 0o73 {
        Some(Opcode::XSI)
    } else if c == 0o74 {
        Some(Opcode::XPUSHIP)
    } else if c == 0o75 {
        Some(Opcode::XIOW)
    } else if c == 0o76 {
        Some(Opcode::XSU)
    } else if c == 0o77 {
        Some(Opcode::XPUSH)
    } else {
        None
    }
}

/// The fixed 5-bit code of each arithmetic-class sub-opcode (bits 4-0 of the
/// instruction word).
pub open spec fn spec_subop_xalu_code(s: SubOpXalu) -> u32 {
    match s {
        SubOpXalu::SHL => 0o00,
        SubOpXalu::SHR => 0o02,
        SubOpXalu::SAR => 0o03,
        SubOpXalu::ROL => 0o04,
        SubOpXalu::ROR => 0o05,
        SubOpXalu::RCL => 0o06,
        SubOpXalu::RCR => 0o07,
        SubOpXalu::INC => 0o10,
        SubOpXalu::CMPS => 0o11,
        SubOpXalu::DEC => 0o12,
        SubOpXalu::IMUL => 0o14,
        SubOpXalu::MUL => 0o15,
        SubOpXalu::IDIV => 0o16,
        SubOpXalu::ADD => 0o20,
        SubOpXalu::ADC => 0o21,
        SubOpXalu::SUB => 0o22,
        SubOpXalu::SBB => 0o23,
        SubOpXalu::AND => 0o24,
        SubOpXalu::OR => 0o25,
        SubOpXalu::XOR => 0o26,
        SubOpXalu::NOR => 0o27,
        SubOpXalu::CTC2 => 0o31,
        SubOpXalu::SETCC => 0o35,
        SubOpXalu::MFLOU => 0o36,
        SubOpXalu::MFLOI => 0o37,
    }
}

/// The inverse of the arithmetic-class sub-opcode table.
pub open spec fn spec_subop_xalu_from_code(c: u32) -> Option<SubOpXalu> {
    if c == 0o00 {
        Some(SubOpXalu::SHL)
    } else if c == 0o02 {
        Some(SubOpXalu::SHR)
    } else if c == 0o03 {
        Some(SubOpXalu::SAR)
    } else if c == 0o04 {
        Some(SubOpXalu::ROL)
    } else if c == 0o05 {
        Some(SubOpXalu::ROR)
    } else if c == 0o06 {
        Some(SubOpXalu::RCL)
    } else if c == 0o07 {
        Some(SubOpXalu::RCR)
    } else if c == 0o10 {
        Some(SubOpXalu::INC)
    } else if c == 0o11 {
        Some(SubOpXalu::CMPS)
    } else if c == 0o12 {
        Some(SubOpXalu::DEC)
    } else if c == 0o14 {
        Some(SubOpXalu::IMUL)
    } else if c == 0o15 {
        Some(SubOpXalu::MUL)
    } else if c == 0o16 {
        Some(SubOpXalu::IDIV)
    } else if c == 0o20 {
        Some(SubOpXalu::ADD)
    } else if c == 0o21 {
        Some(SubOpXalu::ADC)
    } else if c == 0o22 {
        Some(SubOpXalu::SUB)
    } else if c == 0o23 {
        Some(SubOpXalu::SBB)
    } else if c == 0o24 {
        Some(SubOpXalu::AND)
    } else if c == 0o25 {
        Some(SubOpXalu::OR)
    } else if c == 0o26 {
        Some(SubOpXalu::XOR)
    } else if c == 0o27 {
        Some(SubOpXalu::NOR)
    } else if c == 0o31 {
        Some(SubOpXalu::CTC2)
    } else if c == 0o35 {
        Some(SubOpXalu::SETCC)
    } else if c == 0o36 {
        Some(SubOpXalu::MFLOU)
    } else if c == 0o37 {
        Some(SubOpXalu::MFLOI)
    } else {
        None
    }
}

pub fn subop_xalu_to_bits(s: SubOpXalu) -> (r: u32)
    ensures
        r == spec_subop_xalu_code(s),
{
    match s {
        SubOpXalu::SHL => 0o00,
        SubOpXalu::SHR => 0o02,
        SubOpXalu::SAR => 0o03,
        SubOpXalu::ROL => 0o04,
        SubOpXalu::ROR => 0o05,
        SubOpXalu::RCL => 0o06,
        SubOpXalu::RCR => 0o07,
        SubOpXalu::INC => 0o10,
        SubOpXalu::CMPS => 0o11,
        SubOpXalu::DEC => 0o12,
        SubOpXalu::IMUL => 0o14,
        SubOpXalu::MUL => 0o15,
        SubOpXalu::IDIV => 0o16,
        SubOpXalu::ADD => 0o20,
        SubOpXalu::ADC => 0o21,
        SubOpXalu::SUB => 0o22,
        SubOpXalu::SBB => 0o23,
        SubOpXalu::AND => 0o24,
        SubOpXalu::OR => 0o25,
        SubOpXalu::XOR => 0o26,
        SubOpXalu::NOR => 0o27,
        SubOpXalu::CTC2 => 0o31,
        SubOpXalu::SETCC => 0o35,
        SubOpXalu::MFLOU => 0o36,
        SubOpXalu::MFLOI => 0o37,
    }
}

pub fn subop_xalu_from_bits(c: u32) -> (r: Option<SubOpXalu>)
    ensures
        r == spec_subop_xalu_from_code(c),
{
    if c == 0o00 {
        Some(SubOpXalu::SHL)
    } else if c == 0o02 {
        Some(SubOpXalu::SHR)
    } else if c == 0o03 {
        Some(SubOpXalu::SAR)
    } else if c == 0o04 {
        Some(SubOpXalu::ROL)
    } else if c == 0o05 {
        Some(SubOpXalu::ROR)
    } else if c == 0o06 {
        Some(SubOpXalu::RCL)
    } else if c == 0o07 {
        Some(SubOpXalu::RCR)
    } else if c == 0o10 {
        Some(SubOpXalu::INC)
    } else if c == 0o11 {
        Some(SubOpXalu::CMPS)
    } else if c == 0o12 {
        Some(SubOpXalu::DEC)
    } else if c == 0o14 {
        Some(SubOpXalu::IMUL)
    } else if c == 0o15 {
        Some(SubOpXalu::MUL)
    } else if c == 0o16 {
        Some(SubOpXalu::IDIV)
    } else if c == 0o20 {
        Some(SubOpXalu::ADD)
    } else if c == 0o21 {
        Some(SubOpXalu::ADC)
    } else if c == 0o22 {
        Some(SubOpXalu::SUB)
    } else if c == 0o23 {
        Some(SubOpXalu::SBB)
    } else if c == 0o24 {
        Some(SubOpXalu::AND)
    } else if c == 0o25 {
        Some(SubOpXalu::OR)
    } else if c == 0o26 {
        Some(SubOpXalu::XOR)
    } else if c == 0o27 {
        Some(SubOpXalu::NOR)
    } else if c == 0o31 {
        Some(SubOpXalu::CTC2)
    } else if c == 0o35 {
        Some(SubOpXalu::SETCC)
    } else if c == 0o36 {
        Some(SubOpXalu::MFLOU)
    } else if c == 0o37 {
        Some(SubOpXalu::MFLOI)
    } else {
        None
    }
}

/// The fixed 3-bit code of each mode-control setting (bits 7-5 of the
/// instruction word).
pub open spec fn spec_dpcntl_code(d: DpCntl) -> u32 {
    match d {
        DpCntl::Word => 0b000,
        DpCntl::Short => 0b001,
        DpCntl::LL => 0b010,
        DpCntl::HL => 0b011,
        DpCntl::LH => 0b100,
        DpCntl::HH => 0b101,
    }
}

/// The inverse of the mode-control table.
pub open spec fn spec_dpcntl_from_code(c: u32) -> Option<DpCntl> {
    if c == 0b000 {
        Some(DpCntl::Word)
    } else if c == 0b001 {
        Some(DpCntl::Short)
    } else if c == 0b010 {
        Some(DpCntl::LL)
    } else if c == 0b011 {
        Some(DpCntl::HL)
    } else if c == 0b100 {
        Some(DpCntl::LH)
    } else if c == 0b101 {
        Some(DpCntl::HH)
    } else {
        None
    }
}

pub fn dpcntl_to_bits(d: DpCntl) -> (r: u32)
    ensures
        r == spec_dpcntl_code(d),
{
    match d {
        DpCntl::Word => 0b000,
        DpCntl::Short => 0b001,
        DpCntl::LL => 0b010,
        DpCntl::HL => 0b011,
        DpCntl::LH => 0b100,
        DpCntl::HH => 0b101,
    }
}

pub fn dpcntl_from_bits(c: u32) -> (r: Option<DpCntl>)
    ensures
        r == spec_dpcntl_from_code(c),
{
    if c == 0b000 {
        Some(DpCntl::Word)
    } else if c == 0b001 {
        Some(DpCntl::Short)
    } else if c == 0b010 {
        Some(DpCntl::LL)
    } else if c == 0b011 {
        Some(DpCntl::HL)
    } else if c == 0b100 {
        Some(DpCntl::LH)
    } else if c == 0b101 {
        Some(DpCntl::HH)
    } else {
        None
    }
}

/// The fixed 3-bit code of each operand size.
pub open spec fn spec_size_code(s: Size) -> u32 {
    match s {
        Size::Bits16 => 0b000,
        Size::Bits32 => 0b010,
        Size::Bits8 => 0b001,
    }
}

/// The inverse of the operand-size table.
pub open spec fn spec_size_from_code(c: u32) -> Option<Size> {
    if c == 0b000 {
        Some(Size::Bits16)
    } else if c == 0b010 {
        Some(Size::Bits32)
    } else if c == 0b001 {
        Some(Size::Bits8)
    } else {
        None
    }
}

pub fn size_to_bits(s: Size) -> (r: u32)
    ensures
        r == spec_size_code(s),
{
    match s {
        Size::Bits16 => 0b000,
        Size::Bits32 => 0b010,
        Size::Bits8 => 0b001,
    }
}

pub fn size_from_bits(c: u32) -> (r: Option<Size>)
    ensures
        r == spec_size_from_code(c),
{
    if c == 0b000 {
        Some(Size::Bits16)
    } else if c == 0b010 {
        Some(Size::Bits32)
    } else if c == 0b001 {
        Some(Size::Bits8)
    } else {
        None
    }
}

/// The fixed 4-bit code of each selector mode.
pub open spec fn spec_sel_code(s: Sel) -> u32 {
    match s {
        Sel::Flat => 0b1010,
    }
}

/// The inverse of the selector table.
pub open spec fn spec_sel_from_code(c: u32) -> Option<Sel> {
    if c == 0b1010 {
        Some(Sel::Flat)
    } else {
        None
    }
}

pub fn sel_to_bits(s: Sel) -> (r: u32)
    ensures
        r == spec_sel_code(s),
{
    match s {
        Sel::Flat => 0b1010,
    }
}

pub fn sel_from_bits(c: u32) -> (r: Option<Sel>)
    ensures
        r == spec_sel_from_code(c),
{
    if c == 0b1010 {
        Some(Sel::Flat)
    } else {
        None
    }
}

/// The fixed 2-bit code of each address size.
pub open spec fn spec_addr_size_code(a: AddrSize) -> u32 {
    match a {
        AddrSize::Bits32 => 0b11,
    }
}

/// The inverse of the address-size table.
pub open spec fn spec_addr_size_from_code(c: u32) -> Option<AddrSize> {
    if c == 0b11 {
        Some(AddrSize::Bits32)
    } else {
        None
    }
}

pub fn addr_size_to_bits(a: AddrSize) -> (r: u32)
    ensures
        r == spec_addr_size_code(a),
{
    match a {
        AddrSize::Bits32 => 0b11,
    }
}

pub fn addr_size_from_bits(c: u32) -> (r: Option<AddrSize>)
    ensures
        r == spec_addr_size_from_code(c),
{
    if c == 0b11 {
        Some(AddrSize::Bits32)
    } else {
        None
    }
}

/// The code of each port-IO sub-opcode (shifted to bits 15-9 of the
/// instruction word).
pub open spec fn spec_subop_xio_code(s: SubOpXio) -> u32 {
    match s {
        SubOpXio::Norm => 0,
    }
}

/// The inverse of the port-IO sub-opcode table.
pub open spec fn spec_subop_xio_from_code(c: u32) -> Option<SubOpXio> {
    if c == 0 {
        Some(SubOpXio::Norm)
    } else {
        None
    }
}

pub fn subop_xio_to_bits(s: SubOpXio) -> (r: u32)
    ensures
        r == spec_subop_xio_code(s),
{
    match s {
        SubOpXio::Norm => 0,
    }
}

pub fn subop_xio_from_bits(c: u32) -> (r: Option<SubOpXio>)
    ensures
        r == spec_subop_xio_from_code(c),
{
    if c == 0 {
        Some(SubOpXio::Norm)
    } else {
        None
    }
}

/// The structured instruction representation: an opcode plus optional operand
/// slots. Which slots must be populated is determined by the opcode's format
/// class; a required slot left empty is an encoding error, never a silent
/// zero-fill.
#[derive(Debug, Clone)]
pub struct Instruction {
    pub opcode: Opcode,
    pub rs: Option<Register>,
    pub rt: Option<Register>,
    pub rd: Option<Register>,
    pub imm: Option<u16>,
    pub constant: Option<Const>,
    pub offset: Option<Offset>,
    pub function: Option<Function>,
}

/// An instruction with only the opcode populated.
pub open spec fn spec_new_instr(opcode: Opcode) -> Instruction {
    Instruction {
        opcode,
        rs: None,
        rt: None,
        rd: None,
        imm: None,
        constant: None,
        offset: None,
        function: None,
    }
}

/// An I-type instruction: `dst = dst op (src, imm)` with a 16-bit immediate.
pub open spec fn spec_i_type(opcode: Opcode, dst: Register, src: Register, imm: u16) -> Instruction {
    Instruction {
        opcode,
        rs: Some(src),
        rt: Some(dst),
        rd: None,
        imm: Some(imm),
        constant: None,
        offset: None,
        function: None,
    }
}

/// A register-register ALU instruction.
pub open spec fn spec_xalur(
    subop: SubOpXalu,
    dpcntl: DpCntl,
    dst: Register,
    src: Register,
    extra: Register,
) -> Instruction {
    Instruction {
        opcode: Opcode::XALUR,
        rs: Some(src),
        rt: Some(extra),
        rd: Some(dst),
        imm: None,
        constant: None,
        offset: None,
        function: Some(Function::Xalu(subop, dpcntl)),
    }
}

/// An immediate-operand ALU instruction.
pub open spec fn spec_xaluir(
    subop: SubOpXalu,
    dpcntl: DpCntl,
    dst: Register,
    src: Register,
    constant: Const,
) -> Instruction {
    Instruction {
        opcode: Opcode::XALUIR,
        rs: Some(src),
        rt: None,
        rd: Some(dst),
        imm: None,
        constant: Some(constant),
        offset: None,
        function: Some(Function::Xalu(subop, dpcntl)),
    }
}

/// A load-store-class instruction skeleton: source, base and offset.
pub open spec fn spec_xls_type(opcode: Opcode, rs: Register, base: Register, offset: Offset) -> Instruction {
    Instruction {
        opcode,
        rs: Some(rs),
        rt: Some(base),
        rd: None,
        imm: None,
        constant: None,
        offset: Some(offset),
        function: None,
    }
}

/// A port access with the normal port-IO function descriptor and zero offset.
pub open spec fn spec_xio(opcode: Opcode, size: Size, port: Register, value: Register) -> Instruction {
    Instruction {
        opcode,
        rs: Some(value),
        rt: Some(port),
        rd: None,
        imm: None,
        constant: None,
        offset: Some(Offset::Number(0)),
        function: Some(
            Function::Xls(SubOpXls::Xio(SubOpXio::Norm), AddrSize::Bits32, size, Sel::Flat),
        ),
    }
}

/// An indirect jump through `base`.
pub open spec fn spec_xj(base: Register) -> Instruction {
    Instruction {
        opcode: Opcode::XJ,
        rs: None,
        rt: Some(base),
        rd: None,
        imm: None,
        constant: None,
        offset: None,
        function: None,
    }
}

/// Opcodes of the I-type format class: 16-bit-immediate arithmetic and logic.
pub open spec fn spec_is_i_type_op(op: Opcode) -> bool {
    match op {
        Opcode::ORIU
        | Opcode::ADDI
        | Opcode::ANDIU
        | Opcode::ANDIL
        | Opcode::ANDI
        | Opcode::ORI
        | Opcode::XORI
        | Opcode::XORIU => true,
        _ => false,
    }
}

/// Opcodes of the register-register ALU format class.
pub open spec fn spec_is_xalu_op(op: Opcode) -> bool {
    match op {
        Opcode::XALU | Opcode::XALUR => true,
        _ => false,
    }
}

/// Opcodes of the immediate-operand ALU format class.
pub open spec fn spec_is_xalui_op(op: Opcode) -> bool {
    match op {
        Opcode::XALUI | Opcode::XALUIR => true,
        _ => false,
    }
}

/// Opcodes of the port-IO format class.
pub open spec fn spec_is_xio_op(op: Opcode) -> bool {
    match op {
        Opcode::XIOR | Opcode::XIOW => true,
        _ => false,
    }
}

impl Instruction {
    /// An instruction with only the opcode populated; all operand slots start
    /// out empty.
    pub fn new(opcode: Opcode) -> (r: Self)
        ensures
            r == spec_new_instr(opcode),
    {
        Self {
            opcode,
            rs: None,
            rt: None,
            rd: None,
            imm: None,
            constant: None,
            offset: None,
            function: None,
        }
    }

    /// Builds an I-type instruction: `rs = src`, `rt = dst`, plus the 16-bit
    /// immediate.
    pub fn i_type(opcode: Opcode, dst: Register, src: Register, imm: u16) -> (r: Self)
        ensures
            r == spec_i_type(opcode, dst, src, imm),
    {
        let mut ret = Self::new(opcode);
        ret.rs = Some(src);
        ret.rt = Some(dst);
        ret.imm = Some(imm);
        ret
    }

    /// Builds a register-register ALU instruction with its function
    /// descriptor.
    pub fn xalur(
        subop: SubOpXalu,
        dpcntl: DpCntl,
        dst: Register,
        src: Register,
        extra: Register,
    ) -> (r: Self)
        ensures
            r == spec_xalur(subop, dpcntl, dst, src, extra),
    {
        let mut ret = Self::new(Opcode::XALUR);
        ret.rs = Some(src);
        ret.rd = Some(dst);
        ret.rt = Some(extra);
        ret.function = Some(Function::Xalu(subop, dpcntl));
        ret
    }

    /// Builds an immediate-operand ALU instruction with its function
    /// descriptor.
    pub fn xaluir(
        subop: SubOpXalu,
        dpcntl: DpCntl,
        dst: Register,
        src: Register,
        constant: Const,
    ) -> (r: Self)
        ensures
            r == spec_xaluir(subop, dpcntl, dst, src, constant),
    {
        let mut ret = Self::new(Opcode::XALUIR);
        ret.rs = Some(src);
        ret.rd = Some(dst);
        ret.constant = Some(constant);
        ret.function = Some(Function::Xalu(subop, dpcntl));
        ret
    }

    /// Builds a port write of `value` to `port` with the normal port-IO
    /// function descriptor and zero offset.
    pub fn xiow(size: Size, port: Register, value: Register) -> (r: Self)
        ensures
            r == spec_xio(Opcode::XIOW, size, port, value),
    {
        let mut instr = Instruction::xls_type(Opcode::XIOW, value, port, Offset::Number(0));
        instr.function = Some(
            Function::Xls(SubOpXls::Xio(SubOpXio::Norm), AddrSize::Bits32, size, Sel::Flat),
        );
        instr
    }

    /// Builds a port read into `value` from `port` with the normal port-IO
    /// function descriptor and zero offset.
    pub fn xior(size: Size, port: Register, value: Register) -> (r: Self)
        ensures
            r == spec_xio(Opcode::XIOR, size, port, value),
    {
        let mut instr = Instruction::xls_type(Opcode::XIOR, value, port, Offset::Number(0));
        instr.function = Some(
            Function::Xls(SubOpXls::Xio(SubOpXio::Norm), AddrSize::Bits32, size, Sel::Flat),
        );
        instr
    }

    /// Builds an indirect jump through `base`.
    pub fn xj(base: Register) -> (r: Self)
        ensures
            r == spec_xj(base),
    {
        let mut ret = Self::new(Opcode::XJ);
        ret.rt = Some(base);
        ret
    }

    /// Builds a load-store-class instruction skeleton: source, base and
    /// offset, with the function descriptor left for the caller.
    pub fn xls_type(opcode: Opcode, rs: Register, base: Register, offset: Offset) -> (r: Self)
        ensures
            r == spec_xls_type(opcode, rs, base, offset),
    {
        let mut ret = Self::new(opcode);
        ret.rs = Some(rs);
        ret.rt = Some(base);
        ret.offset = Some(offset);
        ret
    }

    /// An exact copy. Unlike the derived `Clone`, its contract states that the
    /// copy equals the original.
    pub fn duplicate(&self) -> (r: Instruction)
        ensures
            r == *self,
    {
        Instruction {
            opcode: self.opcode,
            rs: match &self.rs {
                Some(r) => Some(r.duplicate()),
                None => None,
            },
            rt: match &self.rt {
                Some(r) => Some(r.duplicate()),
                None => None,
            },
            rd: match &self.rd {
                Some(r) => Some(r.duplicate()),
                None => None,
            },
            imm: self.imm,
            constant: self.constant,
            offset: self.offset,
            function: self.function,
        }
    }

    fn is_i_type(&self) -> (r: bool)
        ensures
            r == spec_is_i_type_op(self.opcode),
    {
        matches!(
            self.opcode,
            Opcode::ORIU
            | Opcode::ADDI
            | Opcode::ANDIU
            | Opcode::ANDIL
            | Opcode::ANDI
            | Opcode::ORI
            | Opcode::XORI
            | Opcode::XORIU
        )
    }

    fn is_xalu_type(&self) -> (r: bool)
        ensures
            r == spec_is_xalu_op(self.opcode),
    {
        matches!(self.opcode, Opcode::XALU | Opcode::XALUR)
    }

    fn is_xalui_type(&self) -> (r: bool)
        ensures
            r == spec_is_xalui_op(self.opcode),
    {
        matches!(self.opcode, Opcode::XALUI | Opcode::XALUIR)
    }
}

/// The sub-opcode code of a load-store-class function descriptor, before the
/// shift to bits 15-9.
pub open spec fn spec_xls_subop_code(s: SubOpXls) -> u32 {
    match s {
        SubOpXls::Xio(x) => spec_subop_xio_code(x),
    }
}

/// The packed bit pattern of a function descriptor (the low bits of the
/// instruction word).
pub open spec fn spec_fn_field(f: Function) -> u32 {
    match f {
        Function::Xalu(sub, dp) => spec_subop_xalu_code(sub) | (spec_dpcntl_code(dp) << 5),
        Function::Xls(sub, a, s, sel) => (spec_xls_subop_code(sub) << 9) | ((spec_addr_size_code(
            a,
        ) & 2) << 7) | ((spec_size_code(s) & 0x6) << 5) | (spec_sel_code(sel) << 2) | ((
        spec_size_code(s) & 1) << 1) | (spec_addr_size_code(a) & 1),
    }
}

/// The `rs` register field, shifted to bits 25-21.
pub open spec fn spec_rs_field(i: Instruction) -> u32 {
    spec_reg_bits(i.rs.unwrap()).unwrap() << 21
}

/// The `rt` register field, shifted to bits 20-16.
pub open spec fn spec_rt_field(i: Instruction) -> u32 {
    spec_reg_bits(i.rt.unwrap()).unwrap() << 16
}

/// The `rd` register field, shifted to bits 15-11.
pub open spec fn spec_rd_field(i: Instruction) -> u32 {
    spec_reg_bits(i.rd.unwrap()).unwrap() << 11
}

/// The 16-bit immediate field, in bits 15-0.
pub open spec fn spec_imm_field(i: Instruction) -> u32 {
    i.imm.unwrap() as u32
}

/// The fixed trailer bits of an indirect-jump word.
pub open spec fn spec_xj_trailer() -> u32 {
    0b01_0001_00
}

/// The 32-bit instruction word: the opcode in bits 31-26 and the format
/// class's operand fields OR-combined below it (the fields occupy disjoint
/// bit ranges). Meaningful when [`spec_encodable`] holds.
pub open spec fn spec_word(i: Instruction) -> u32 {
    let op = spec_opcode_code(i.opcode) << 26;
    if spec_is_i_type_op(i.opcode) {
        op | spec_rs_field(i) | spec_rt_field(i) | spec_imm_field(i)
    } else if spec_is_xalu_op(i.opcode) {
        op | spec_rs_field(i) | spec_rt_field(i) | spec_rd_field(i) | spec_fn_field(
            i.function.unwrap(),
        )
    } else if spec_is_xalui_op(i.opcode) {
        // The zero constant (the only encodable one) contributes no bits to
        // the word.
        op | spec_rs_field(i) | 0 | spec_rd_field(i) | spec_fn_field(i.function.unwrap())
    } else if i.opcode == Opcode::XJ {
        op | spec_rt_field(i) | spec_xj_trailer()
    } else if spec_is_xio_op(i.opcode) {
        // A zero offset contributes no bits to the word.
        op | spec_rs_field(i) | spec_rt_field(i) | 0 | spec_fn_field(i.function.unwrap())
    } else {
        0
    }
}

/// Whether an optional register slot is populated with a valid register.
pub open spec fn spec_reg_slot_ok(r: Option<Register>) -> bool {
    r is Some && spec_reg_valid(r.unwrap())
}

/// Whether the instruction can be encoded: every operand slot its format
/// class requires is populated and valid, its offset and constant (where
/// required) are zero — the only forms with an implemented encoding — and its
/// opcode belongs to a recognized class.
pub open spec fn spec_encodable(i: Instruction) -> bool {
    if spec_is_i_type_op(i.opcode) {
        spec_reg_slot_ok(i.rs) && spec_reg_slot_ok(i.rt) && i.imm is Some
    } else if spec_is_xalu_op(i.opcode) {
        spec_reg_slot_ok(i.rs) && spec_reg_slot_ok(i.rt) && spec_reg_slot_ok(i.rd)
            && i.function is Some
    } else if spec_is_xalui_op(i.opcode) {
        spec_reg_slot_ok(i.rs) && i.constant == Some(Const::Number(0i8)) && spec_reg_slot_ok(i.rd)
            && i.function is Some
    } else if i.opcode == Opcode::XJ {
        spec_reg_slot_ok(i.rt)
    } else if spec_is_xio_op(i.opcode) {
        spec_reg_slot_ok(i.rs) && spec_reg_slot_ok(i.rt) && i.offset == Some(Offset::Number(0i8))
            && i.function is Some
    } else {
        false
    }
}

/// The error that a register slot contributes: missing, or invalid.
pub open spec fn spec_reg_slot_err(r: Option<Register>, missing: AisError) -> AisError {
    if r is None {
        missing
    } else {
        spec_reg_err(r.unwrap())
    }
}

/// The error that [`Instruction::encode`] reports for an instruction that
/// cannot be encoded: the first failing field in its format class's encoding
/// order. Meaningful when [`spec_encodable`] does not hold.
pub open spec fn spec_encode_err(i: Instruction) -> AisError {
    if spec_is_i_type_op(i.opcode) {
        if !spec_reg_slot_ok(i.rs) {
            spec_reg_slot_err(i.rs, AisError::MissingRs(i))
        } else if !spec_reg_slot_ok(i.rt) {
            spec_reg_slot_err(i.rt, AisError::MissingRt(i))
        } else {
            AisError::MissingImmediate(i)
        }
    } else if spec_is_xalu_op(i.opcode) {
        if !spec_reg_slot_ok(i.rs) {
            spec_reg_slot_err(i.rs, AisError::MissingRs(i))
        } else if !spec_reg_slot_ok(i.rt) {
            spec_reg_slot_err(i.rt, AisError::MissingRt(i))
        } else if !spec_reg_slot_ok(i.rd) {
            spec_reg_slot_err(i.rd, AisError::MissingRd(i))
        } else {
            AisError::MissingFunction(i)
        }
    } else if spec_is_xalui_op(i.opcode) {
        if !spec_reg_slot_ok(i.rs) {
            spec_reg_slot_err(i.rs, AisError::MissingRs(i))
        } else if i.constant is None {
            AisError::MissingConstant(i)
        } else if i.constant != Some(Const::Number(0i8)) {
            AisError::Unsupported(i)
        } else if !spec_reg_slot_ok(i.rd) {
            spec_reg_slot_err(i.rd, AisError::MissingRd(i))
        } else {
            AisError::MissingFunction(i)
        }
    } else if i.opcode == Opcode::XJ {
        spec_reg_slot_err(i.rt, AisError::MissingRt(i))
    } else if spec_is_xio_op(i.opcode) {
        if !spec_reg_slot_ok(i.rs) {
            spec_reg_slot_err(i.rs, AisError::MissingRs(i))
        } else if !spec_reg_slot_ok(i.rt) {
            spec_reg_slot_err(i.rt, AisError::MissingRt(i))
        } else if i.offset is None {
            AisError::MissingOffset(i)
        } else if i.offset != Some(Offset::Number(0i8)) {
            AisError::Unsupported(i)
        } else {
            AisError::MissingFunction(i)
        }
    } else {
        AisError::Unsupported(i)
    }
}

/// The 6-byte wire form: the 2-byte synchronization header `0x62 0x80`
/// followed by the instruction word in little-endian order.
pub open spec fn spec_encoding(i: Instruction) -> Seq<u8> {
    seq![0x62u8, 0x80u8] + vstd::bytes::spec_u32_to_le_bytes(spec_word(i))
}

impl Instruction {
    fn encode_opcode(&self) -> (r: u32)
        ensures
            r == spec_opcode_code(self.opcode) << 26,
    {
        opcode_to_bits(self.opcode) << 26
    }

    fn encode_rs(&self) -> (r: Result<u32, AisError>)
        ensures
            match r {
                Ok(b) => spec_reg_slot_ok(self.rs) && b == spec_rs_field(*self),
                Err(e) => !spec_reg_slot_ok(self.rs) && e == spec_reg_slot_err(
                    self.rs,
                    AisError::MissingRs(*self),
                ),
            },
    {
        match &self.rs {
            None => Err(AisError::MissingRs(self.duplicate())),
            Some(reg) => match reg.bits() {
                Ok(b) => Ok(b << 21),
                Err(e) => Err(e),
            },
        }
    }

    fn encode_rt(&self) -> (r: Result<u32, AisError>)
        ensures
            match r {
                Ok(b) => spec_reg_slot_ok(self.rt) && b == spec_rt_field(*self),
                Err(e) => !spec_reg_slot_ok(self.rt) && e == spec_reg_slot_err(
                    self.rt,
                    AisError::MissingRt(*self),
                ),
            },
    {
        match &self.rt {
            None => Err(AisError::MissingRt(self.duplicate())),
            Some(reg) => match reg.bits() {
                Ok(b) => Ok(b << 16),
                Err(e) => Err(e),
            },
        }
    }

    fn encode_rd(&self) -> (r: Result<u32, AisError>)
        ensures
            match r {
                Ok(b) => spec_reg_slot_ok(self.rd) && b == spec_rd_field(*self),
                Err(e) => !spec_reg_slot_ok(self.rd) && e == spec_reg_slot_err(
                    self.rd,
                    AisError::MissingRd(*self),
                ),
            },
    {
        match &self.rd {
            None => Err(AisError::MissingRd(self.duplicate())),
            Some(reg) => match reg.bits() {
                Ok(b) => Ok(b << 11),
                Err(e) => Err(e),
            },
        }
    }

    fn encode_imm(&self) -> (r: Result<u32, AisError>)
        ensures
            match r {
                Ok(b) => self.imm is Some && b == spec_imm_field(*self),
                Err(e) => self.imm is None && e == AisError::MissingImmediate(*self),
            },
    {
        match self.imm {
            None => Err(AisError::MissingImmediate(self.duplicate())),
            Some(x) => Ok(x as u32),
        }
    }

    /// Only the zero constant has an implemented encoding; it contributes
    /// zero bits. An empty slot is an error, and a non-zero constant is an
    /// unsupported form.
    fn encode_const(&self) -> (r: Result<u32, AisError>)
        ensures
            match r {
                Ok(b) => self.constant == Some(Const::Number(0i8)) && b == 0,
                Err(e) => self.constant != Some(Const::Number(0i8)) && if self.constant is None {
                    e == AisError::MissingConstant(*self)
                } else {
                    e == AisError::Unsupported(*self)
                },
            },
    {
        match self.constant {
            None => Err(AisError::MissingConstant(self.duplicate())),
            Some(Const::Number(0i8)) => Ok(0),
            Some(_) => Err(AisError::Unsupported(self.duplicate())),
        }
    }

    /// Only the zero offset has an implemented encoding; it contributes zero
    /// bits. A non-zero offset is an unsupported form.
    fn encode_offset(&self) -> (r: Result<u32, AisError>)
        ensures
            match r {
                Ok(b) => self.offset == Some(Offset::Number(0i8)) && b == 0,
                Err(e) => self.offset != Some(Offset::Number(0i8)) && if self.offset is None {
                    e == AisError::MissingOffset(*self)
                } else {
                    e == AisError::Unsupported(*self)
                },
            },
    {
        match self.offset {
            None => Err(AisError::MissingOffset(self.duplicate())),
            Some(Offset::Number(0i8)) => Ok(0),
            Some(_) => Err(AisError::Unsupported(self.duplicate())),
        }
    }

    fn function_bits(f: Function) -> (r: u32)
        ensures
            r == spec_fn_field(f),
    {
        match f {
            Function::Xalu(sub, dp) => subop_xalu_to_bits(sub) | (dpcntl_to_bits(dp) << 5),
            Function::Xls(sub, a, s, sel) => {
                let sub_bits = match sub {
                    SubOpXls::Xio(x) => subop_xio_to_bits(x),
                };
                let a_bits = addr_size_to_bits(a);
                let s_bits = size_to_bits(s);
                let sel_bits = sel_to_bits(sel);
                (sub_bits << 9) | ((a_bits & 2) << 7) | ((s_bits & 0x6) << 5) | (sel_bits << 2) | ((
                s_bits & 1) << 1) | (a_bits & 1)
            },
        }
    }

    fn encode_function(&self) -> (r: Result<u32, AisError>)
        ensures
            match r {
                Ok(b) => self.function is Some && b == spec_fn_field(self.function.unwrap()),
                Err(e) => self.function is None && e == AisError::MissingFunction(*self),
            },
    {
        match &self.function {
            None => Err(AisError::MissingFunction(self.duplicate())),
            Some(f) => Ok(Self::function_bits(*f)),
        }
    }

    /// Encodes the instruction into its 6-byte wire form. Succeeds exactly
    /// when every operand slot the opcode's format class requires is populated
    /// and valid, with a zero offset and a zero constant where the class
    /// requires them; otherwise
    /// reports the first failing field, and for an unrecognized class or a
    /// non-zero offset an unsupported-form error.
    pub fn encode(&self) -> (r: Result<Vec<u8>, AisError>)
        ensures
            match r {
                Ok(bytes) => spec_encodable(*self) && bytes@ == spec_encoding(*self),
                Err(e) => !spec_encodable(*self) && e == spec_encode_err(*self),
            },
    {
        let word: u32;
        if self.is_i_type() {
            let op = self.encode_opcode();
            let rs = match self.encode_rs() {
                Ok(v) => v,
                Err(e) => {
                    return Err(e);
                },
            };
            let rt = match self.encode_rt() {
                Ok(v) => v,
                Err(e) => {
                    return Err(e);
                },
            };
            let imm = match self.encode_imm() {
                Ok(v) => v,
                Err(e) => {
                    return Err(e);
                },
            };
            word = op | rs | rt | imm;
        } else if self.is_xalu_type() {
            let op = self.encode_opcode();
            let rs = match self.encode_rs() {
                Ok(v) => v,
                Err(e) => {
                    return Err(e);
                },
            };
            let rt = match self.encode_rt() {
                Ok(v) => v,
                Err(e) => {
                    return Err(e);
                },
            };
            let rd = match self.encode_rd() {
                Ok(v) => v,
                Err(e) => {
                    return Err(e);
                },
            };
            let function = match self.encode_function() {
                Ok(v) => v,
                Err(e) => {
                    return Err(e);
                },
            };
            word = op | rs | rt | rd | function;
        } else if self.is_xalui_type() {
            let op = self.encode_opcode();
            let rs = match self.encode_rs() {
                Ok(v) => v,
                Err(e) => {
                    return Err(e);
                },
            };
            let c = match self.encode_const() {
                Ok(v) => v,
                Err(e) => {
                    return Err(e);
                },
            };
            let rd = match self.encode_rd() {
                Ok(v) => v,
                Err(e) => {
                    return Err(e);
                },
            };
            let function = match self.encode_function() {
                Ok(v) => v,
                Err(e) => {
                    return Err(e);
                },
            };
            word = op | rs | c | rd | function;
        } else if matches!(self.opcode, Opcode::XJ) {
            let op = self.encode_opcode();
            let rt = match self.encode_rt() {
                Ok(v) => v,
                Err(e) => {
                    return Err(e);
                },
            };
            word = op | rt | 0b01_0001_00;
        } else if matches!(self.opcode, Opcode::XIOR | Opcode::XIOW) {
            let op = self.encode_opcode();
            let rs = match self.encode_rs() {
                Ok(v) => v,
                Err(e) => {
                    return Err(e);
                },
            };
            let base = match self.encode_rt() {
                Ok(v) => v,
                Err(e) => {
                    return Err(e);
                },
            };
            let offset = match self.encode_offset() {
                Ok(v) => v,
                Err(e) => {
                    return Err(e);
                },
            };
            let function = match self.encode_function() {
                Ok(v) => v,
                Err(e) => {
                    return Err(e);
                },
            };
            word = op | rs | base | offset | function;
        } else {
            return Err(AisError::Unsupported(self.duplicate()));
        }
        assert(word == spec_word(*self));
        let mut data: Vec<u8> = Vec::new();
        data.push(0x62);
        data.push(0x80);
        let mut word_bytes = vstd::bytes::u32_to_le_bytes(word);
        data.append(&mut word_bytes);
        assert(data@ =~= spec_encoding(*self));
        Ok(data)
    }
}

/// Whether the input starts with the 2-byte synchronization header and holds
/// a whole 6-byte unit.
pub open spec fn spec_hdr_ok(b: Seq<u8>) -> bool {
    b.len() >= 6 && b[0] == 0x62 && b[1] == 0x80
}

/// The instruction word of a wire unit: bytes 2-5, read little-endian.
pub open spec fn spec_decode_word(b: Seq<u8>) -> u32 {
    vstd::bytes::spec_u32_from_le_bytes(b.subrange(2, 6))
}

/// The opcode bits of an instruction word (bits 31-26).
pub open spec fn spec_op_bits(w: u32) -> u32 {
    (w >> 26) & 0x3F
}

/// The `rs` register bits of an instruction word (bits 25-21).
pub open spec fn spec_rs_bits(w: u32) -> u32 {
    (w >> 21) & 0x1F
}

/// The `rt` register bits of an instruction word (bits 20-16).
pub open spec fn spec_rt_bits(w: u32) -> u32 {
    (w >> 16) & 0x1F
}

/// The `rd` register bits of an instruction word (bits 15-11).
pub open spec fn spec_rd_bits(w: u32) -> u32 {
    (w >> 11) & 0x1F
}

/// The immediate bits of an instruction word (bits 15-0).
pub open spec fn spec_imm_bits(w: u32) -> u32 {
    w & 0xFFFF
}

/// The arithmetic-class function descriptor read back from an instruction
/// word, if its sub-opcode and mode-control bits are in the tables.
pub open spec fn spec_xalu_fn_of_word(w: u32) -> Option<Function> {
    let sub = spec_subop_xalu_from_code(w & 0x1F);
    let dp = spec_dpcntl_from_code((w >> 5) & 0x7);
    if sub is Some && dp is Some {
        Some(Function::Xalu(sub.unwrap(), dp.unwrap()))
    } else {
        None
    }
}

/// The port-IO sub-opcode bits of an instruction word (bits 15-9).
pub open spec fn spec_xio_subop_bits(w: u32) -> u32 {
    (w >> 9) & 0x7F
}

/// The address-size bits of a port-IO instruction word, reassembled from
/// their two split positions.
pub open spec fn spec_xio_addr_bits(w: u32) -> u32 {
    ((w >> 7) & 0x2) | (w & 0x1)
}

/// The operand-size bits of a port-IO instruction word, reassembled from
/// their two split positions.
pub open spec fn spec_xio_size_bits(w: u32) -> u32 {
    ((w >> 5) & 0x6) | ((w >> 1) & 0x1)
}

/// The selector bits of a port-IO instruction word (bits 5-2).
pub open spec fn spec_xio_sel_bits(w: u32) -> u32 {
    (w >> 2) & 0xF
}

/// The load-store-class function descriptor read back from a port-IO
/// instruction word, if each of its packed sub-fields is in its table.
pub open spec fn spec_xls_fn_of_word(w: u32) -> Option<Function> {
    let sub = spec_subop_xio_from_code(spec_xio_subop_bits(w));
    let a = spec_addr_size_from_code(spec_xio_addr_bits(w));
    let s = spec_size_from_code(spec_xio_size_bits(w));
    let sel = spec_sel_from_code(spec_xio_sel_bits(w));
    if sub is Some && a is Some && s is Some && sel is Some {
        Some(Function::Xls(SubOpXls::Xio(sub.unwrap()), a.unwrap(), s.unwrap(), sel.unwrap()))
    } else {
        None
    }
}

/// Whether the opcode belongs to a format class with an implemented decoding.
pub open spec fn spec_class_known(op: Opcode) -> bool {
    spec_is_i_type_op(op) || spec_is_xalu_op(op) || spec_is_xalui_op(op) || op == Opcode::XJ
        || spec_is_xio_op(op)
}

/// The instruction that a wire unit decodes to, if it decodes at all: the
/// opcode from bits 31-26 through the opcode table, then the format class's
/// fields through the inverse masks and shifts. Registers always come back in
/// index form.
pub open spec fn spec_decode_instr(b: Seq<u8>) -> Option<Instruction> {
    if !spec_hdr_ok(b) {
        None
    } else {
        let w = spec_decode_word(b);
        match spec_opcode_from_code(spec_op_bits(w)) {
            None => None,
            Some(op) => if spec_is_i_type_op(op) {
                Some(
                    Instruction {
                        opcode: op,
                        rs: Some(Register::Index(spec_rs_bits(w) as u8)),
                        rt: Some(Register::Index(spec_rt_bits(w) as u8)),
                        rd: None,
                        imm: Some(spec_imm_bits(w) as u16),
                        constant: None,
                        offset: None,
                        function: None,
                    },
                )
            } else if spec_is_xalu_op(op) {
                match spec_xalu_fn_of_word(w) {
                    None => None,
                    Some(f) => Some(
                        Instruction {
                            opcode: op,
                            rs: Some(Register::Index(spec_rs_bits(w) as u8)),
                            rt: Some(Register::Index(spec_rt_bits(w) as u8)),
                            rd: Some(Register::Index(spec_rd_bits(w) as u8)),
                            imm: None,
                            constant: None,
                            offset: None,
                            function: Some(f),
                        },
                    ),
                }
            } else if spec_is_xalui_op(op) {
                // The constant operand has no implemented encoding, so none
                // can be read back.
                match spec_xalu_fn_of_word(w) {
                    None => None,
                    Some(f) => Some(
                        Instruction {
                            opcode: op,
                            rs: Some(Register::Index(spec_rs_bits(w) as u8)),
                            rt: None,
                            rd: Some(Register::Index(spec_rd_bits(w) as u8)),
                            imm: None,
                            constant: None,
                            offset: None,
                            function: Some(f),
                        },
                    ),
                }
            } else if op == Opcode::XJ {
                Some(
                    Instruction {
                        opcode: op,
                        rs: None,
                        rt: Some(Register::Index(spec_rt_bits(w) as u8)),
                        rd: None,
                        imm: None,
                        constant: None,
                        offset: None,
                        function: None,
                    },
                )
            } else if spec_is_xio_op(op) {
                match spec_xls_fn_of_word(w) {
                    None => None,
                    Some(f) => Some(
                        Instruction {
                            opcode: op,
                            rs: Some(Register::Index(spec_rs_bits(w) as u8)),
                            rt: Some(Register::Index(spec_rt_bits(w) as u8)),
                            rd: None,
                            imm: None,
                            constant: None,
                            offset: Some(Offset::Number(0i8)),
                            function: Some(f),
                        },
                    ),
                }
            } else {
                None
            },
        }
    }
}

/// Why a wire unit fails to decode, split by the error it must report: a
/// missing or wrong header (or a recognized opcode of a class with no
/// implemented decoding) reports the input itself; an opcode outside the
/// table reports its bits; and so on.
pub open spec fn spec_decode_fails_as_bad_unit(b: Seq<u8>) -> bool {
    !spec_hdr_ok(b) || {
        let w = spec_decode_word(b);
        match spec_opcode_from_code(spec_op_bits(w)) {
            None => false,
            Some(op) => !spec_class_known(op),
        }
    }
}

pub open spec fn spec_decode_fails_as_unknown_opcode(b: Seq<u8>) -> bool {
    spec_hdr_ok(b) && spec_opcode_from_code(spec_op_bits(spec_decode_word(b))) is None
}

pub open spec fn spec_decode_fails_as_decode_issue(b: Seq<u8>) -> bool {
    spec_hdr_ok(b) && {
        let w = spec_decode_word(b);
        match spec_opcode_from_code(spec_op_bits(w)) {
            None => false,
            Some(op) => ((spec_is_xalu_op(op) || spec_is_xalui_op(op)) && spec_xalu_fn_of_word(w)
                is None) || (spec_is_xio_op(op) && spec_subop_xio_from_code(spec_xio_subop_bits(w))
                is Some && spec_xls_fn_of_word(w) is None),
        }
    }
}

pub open spec fn spec_decode_fails_as_unknown_subop(b: Seq<u8>) -> bool {
    spec_hdr_ok(b) && {
        let w = spec_decode_word(b);
        match spec_opcode_from_code(spec_op_bits(w)) {
            None => false,
            Some(op) => spec_is_xio_op(op) && spec_subop_xio_from_code(spec_xio_subop_bits(w))
                is None,
        }
    }
}

/// Reads an arithmetic-class function descriptor back out of an instruction
/// word.
fn decode_xalu_function(word: u32) -> (r: Result<Function, AisError>)
    ensures
        match r {
            Ok(f) => spec_xalu_fn_of_word(word) == Some(f),
            Err(e) => spec_xalu_fn_of_word(word) is None && e == AisError::DecodeIssue,
        },
{
    let sub_op_bits = word & 0x1F;
    let dp_cntl_bits = (word >> 5) & 0x7;
    let sub_op = match subop_xalu_from_bits(sub_op_bits) {
        Some(s) => s,
        None => {
            return Err(AisError::DecodeIssue);
        },
    };
    let dp_cntl = match dpcntl_from_bits(dp_cntl_bits) {
        Some(d) => d,
        None => {
            return Err(AisError::DecodeIssue);
        },
    };
    Ok(Function::Xalu(sub_op, dp_cntl))
}

/// Reads a load-store-class function descriptor back out of a port-IO
/// instruction word, reporting an unknown sub-opcode by its bits.
fn decode_xls_function(word: u32) -> (r: Result<Function, AisError>)
    ensures
        match r {
            Ok(f) => spec_xls_fn_of_word(word) == Some(f),
            Err(e) => spec_xls_fn_of_word(word) is None && match e {
                AisError::UnknownSubOp(c) => spec_subop_xio_from_code(spec_xio_subop_bits(word))
                    is None && c == spec_xio_subop_bits(word),
                AisError::DecodeIssue => spec_subop_xio_from_code(spec_xio_subop_bits(word))
                    is Some,
                _ => false,
            },
        },
{
    let subop_bits = (word >> 9) & 0x7F;
    let addr_bits = ((word >> 7) & 0x2) | (word & 0x1);
    let size_bits = ((word >> 5) & 0x6) | ((word >> 1) & 0x1);
    let sel_bits = (word >> 2) & 0xF;
    let sub = match subop_xio_from_bits(subop_bits) {
        Some(s) => s,
        None => {
            return Err(AisError::UnknownSubOp(subop_bits));
        },
    };
    let a = match addr_size_from_bits(addr_bits) {
        Some(a) => a,
        None => {
            return Err(AisError::DecodeIssue);
        },
    };
    let s = match size_from_bits(size_bits) {
        Some(s) => s,
        None => {
            return Err(AisError::DecodeIssue);
        },
    };
    let sel = match sel_from_bits(sel_bits) {
        Some(s) => s,
        None => {
            return Err(AisError::DecodeIssue);
        },
    };
    Ok(Function::Xls(SubOpXls::Xio(sub), a, s, sel))
}

impl Instruction {
    /// Decodes one 6-byte wire unit from the front of `bytes`, reporting the
    /// decoded instruction together with the fixed consumed length of 6.
    /// Fewer than 6 bytes, a wrong synchronization header, or a recognized
    /// opcode whose class has no implemented decoding report the input as a
    /// decode error and consume nothing; opcode bits or function sub-fields
    /// outside their tables report which bits were not recognized.
    pub fn decode(bytes: &[u8]) -> (r: Result<(Instruction, usize), AisError>)
        ensures
            match r {
                Ok((instr, n)) => n == 6 && spec_decode_instr(bytes@) == Some(instr),
                Err(e) => spec_decode_instr(bytes@) is None && match e {
                    AisError::DecodeError(v) => v@ == bytes@ && spec_decode_fails_as_bad_unit(
                        bytes@,
                    ),
                    AisError::UnknownOpcode(c) => spec_decode_fails_as_unknown_opcode(bytes@) && c
                        == spec_op_bits(spec_decode_word(bytes@)),
                    AisError::DecodeIssue => spec_decode_fails_as_decode_issue(bytes@),
                    AisError::UnknownSubOp(c) => spec_decode_fails_as_unknown_subop(bytes@) && c
                        == spec_xio_subop_bits(spec_decode_word(bytes@)),
                    _ => false,
                },
            },
    {
        if bytes.len() < 6 {
            return Err(AisError::DecodeError(vstd::slice::slice_to_vec(bytes)));
        }
        if !(*vstd::slice::slice_index_get(bytes, 0) == 0x62 && *vstd::slice::slice_index_get(
            bytes,
            1,
        ) == 0x80) {
            return Err(AisError::DecodeError(vstd::slice::slice_to_vec(bytes)));
        }
        let word = vstd::bytes::u32_from_le_bytes(vstd::slice::slice_subrange(bytes, 2, 6));
        let op_bits = (word >> 26) & 0x3F;
        let opcode = match opcode_from_bits(op_bits) {
            Some(o) => o,
            None => {
                return Err(AisError::UnknownOpcode(op_bits));
            },
        };
        let mut instr = Instruction::new(opcode);
        #[verifier::truncate]
        let rs_bits = ((word >> 21) & 0x1F) as u8;
        #[verifier::truncate]
        let rt_bits = ((word >> 16) & 0x1F) as u8;
        #[verifier::truncate]
        let rd_bits = ((word >> 11) & 0x1F) as u8;
        #[verifier::truncate]
        let imm_bits = (word & 0xFFFF) as u16;
        if instr.is_i_type() {
            instr.rs = Some(Register::Index(rs_bits));
            instr.rt = Some(Register::Index(rt_bits));
            instr.imm = Some(imm_bits);
        } else if instr.is_xalu_type() {
            let f = match decode_xalu_function(word) {
                Ok(f) => f,
                Err(e) => {
                    return Err(e);
                },
            };
            instr.function = Some(f);
            instr.rs = Some(Register::Index(rs_bits));
            instr.rt = Some(Register::Index(rt_bits));
            instr.rd = Some(Register::Index(rd_bits));
        } else if instr.is_xalui_type() {
            let f = match decode_xalu_function(word) {
                Ok(f) => f,
                Err(e) => {
                    return Err(e);
                },
            };
            instr.function = Some(f);
            instr.rs = Some(Register::Index(rs_bits));
            instr.rd = Some(Register::Index(rd_bits));
        } else if matches!(instr.opcode, Opcode::XJ) {
            instr.rt = Some(Register::Index(rt_bits));
        } else if matches!(instr.opcode, Opcode::XIOR | Opcode::XIOW) {
            let f = match decode_xls_function(word) {
                Ok(f) => f,
                Err(e) => {
                    return Err(e);
                },
            };
            instr.function = Some(f);
            instr.rs = Some(Register::Index(rs_bits));
            instr.rt = Some(Register::Index(rt_bits));
            instr.offset = Some(Offset::Number(0));
        } else {
            return Err(AisError::DecodeError(vstd::slice::slice_to_vec(bytes)));
        }
        Ok((instr, 6))
    }
}

/// Whether an optional register slot holds a register in index form with a
/// valid index. Decoding always produces this form, so only instructions in
/// it can round-trip field-for-field.
pub open spec fn spec_reg_slot_index_form(r: Option<Register>) -> bool {
    match r {
        Some(Register::Index(x)) => x <= 31,
        _ => false,
    }
}

/// The supported subset of instructions on which the codec round-trips: the
/// opcode belongs to one of the I-type, register-register ALU, indirect-jump
/// or port-IO classes, exactly the slots of that class are populated, every
/// register is in index form, and a required offset is zero. (The
/// immediate-operand ALU class is excluded: its constant operand has no
/// implemented encoding, so decoding cannot restore it.)
pub open spec fn spec_canonical(i: Instruction) -> bool {
    if spec_is_i_type_op(i.opcode) {
        spec_reg_slot_index_form(i.rs) && spec_reg_slot_index_form(i.rt) && i.imm is Some
            && i.rd is None && i.constant is None && i.offset is None && i.function is None
    } else if spec_is_xalu_op(i.opcode) {
        spec_reg_slot_index_form(i.rs) && spec_reg_slot_index_form(i.rt)
            && spec_reg_slot_index_form(i.rd) && (i.function matches Some(Function::Xalu(_, _)))
            && i.imm is None && i.constant is None && i.offset is None
    } else if i.opcode == Opcode::XJ {
        spec_reg_slot_index_form(i.rt) && i.rs is None && i.rd is None && i.imm is None
            && i.constant is None && i.offset is None && i.function is None
    } else if spec_is_xio_op(i.opcode) {
        spec_reg_slot_index_form(i.rs) && spec_reg_slot_index_form(i.rt) && i.offset == Some(
            Offset::Number(0i8),
        ) && (i.function matches Some(Function::Xls(_, _, _, _))) && i.rd is None && i.imm is None
            && i.constant is None
    } else {
        false
    }
}

/// A canonical instruction is encodable.
pub proof fn lemma_canonical_encodable(i: Instruction)
    requires
        spec_canonical(i),
    ensures
        spec_encodable(i),
{
}

pub proof fn lemma_subop_xalu_code_inverse(s: SubOpXalu)
    ensures
        spec_subop_xalu_from_code(spec_subop_xalu_code(s)) == Some(s),
        spec_subop_xalu_code(s) < 32,
{
}

pub proof fn lemma_dpcntl_code_inverse(d: DpCntl)
    ensures
        spec_dpcntl_from_code(spec_dpcntl_code(d)) == Some(d),
        spec_dpcntl_code(d) < 8,
{
}

pub proof fn lemma_size_code_inverse(s: Size)
    ensures
        spec_size_from_code(spec_size_code(s)) == Some(s),
        spec_size_code(s) < 8,
{
}

pub proof fn lemma_sel_code_inverse(s: Sel)
    ensures
        spec_sel_from_code(spec_sel_code(s)) == Some(s),
        spec_sel_code(s) < 16,
{
}

pub proof fn lemma_addr_size_code_inverse(a: AddrSize)
    ensures
        spec_addr_size_from_code(spec_addr_size_code(a)) == Some(a),
        spec_addr_size_code(a) < 4,
{
}

pub proof fn lemma_subop_xio_code_inverse(s: SubOpXio)
    ensures
        spec_subop_xio_from_code(spec_subop_xio_code(s)) == Some(s),
        spec_subop_xio_code(s) < 128,
{
}

/// Field extraction out of an I-type word: the OR-combined fields occupy
/// disjoint bit ranges, so each mask-and-shift reads its field back exactly.
proof fn lemma_itype_extract(op: u32, rs: u32, rt: u32, imm: u32)
    by (bit_vector)
    requires
        op < 64,
        rs < 32,
        rt < 32,
        imm < 0x10000,
    ensures
        (((op << 26) | (rs << 21) | (rt << 16) | imm) >> 26) & 0x3F == op,
        (((op << 26) | (rs << 21) | (rt << 16) | imm) >> 21) & 0x1F == rs,
        (((op << 26) | (rs << 21) | (rt << 16) | imm) >> 16) & 0x1F == rt,
        ((op << 26) | (rs << 21) | (rt << 16) | imm) & 0xFFFF == imm,
{
}

/// Field extraction out of a register-register ALU word.
proof fn lemma_xalu_extract(op: u32, rs: u32, rt: u32, rd: u32, sub: u32, dp: u32)
    by (bit_vector)
    requires
        op < 64,
        rs < 32,
        rt < 32,
        rd < 32,
        sub < 32,
        dp < 8,
    ensures
        (((op << 26) | (rs << 21) | (rt << 16) | (rd << 11) | (sub | (dp << 5))) >> 26) & 0x3F
            == op,
        (((op << 26) | (rs << 21) | (rt << 16) | (rd << 11) | (sub | (dp << 5))) >> 21) & 0x1F
            == rs,
        (((op << 26) | (rs << 21) | (rt << 16) | (rd << 11) | (sub | (dp << 5))) >> 16) & 0x1F
            == rt,
        (((op << 26) | (rs << 21) | (rt << 16) | (rd << 11) | (sub | (dp << 5))) >> 11) & 0x1F
            == rd,
        ((op << 26) | (rs << 21) | (rt << 16) | (rd << 11) | (sub | (dp << 5))) & 0x1F == sub,
        (((op << 26) | (rs << 21) | (rt << 16) | (rd << 11) | (sub | (dp << 5))) >> 5) & 0x7 == dp,
{
}

/// Field extraction out of an indirect-jump word with its fixed trailer.
proof fn lemma_xj_extract(op: u32, rt: u32)
    by (bit_vector)
    requires
        op < 64,
        rt < 32,
    ensures
        (((op << 26) | (rt << 16) | 0b01_0001_00u32) >> 26) & 0x3F == op,
        (((op << 26) | (rt << 16) | 0b01_0001_00u32) >> 16) & 0x1F == rt,
{
}

/// Field extraction out of a port-IO word: the packed function sub-fields
/// come back out of their split bit positions exactly.
proof fn lemma_xio_extract(op: u32, rs: u32, rt: u32, sub: u32, a: u32, s: u32, sel: u32)
    by (bit_vector)
    requires
        op < 64,
        rs < 32,
        rt < 32,
        sub < 128,
        a < 4,
        s < 8,
        sel < 16,
    ensures
        (((op << 26) | (rs << 21) | (rt << 16) | 0 | ((sub << 9) | ((a & 2) << 7) | ((s & 0x6)
            << 5) | (sel << 2) | ((s & 1) << 1) | (a & 1))) >> 26) & 0x3F == op,
        (((op << 26) | (rs << 21) | (rt << 16) | 0 | ((sub << 9) | ((a & 2) << 7) | ((s & 0x6)
            << 5) | (sel << 2) | ((s & 1) << 1) | (a & 1))) >> 21) & 0x1F == rs,
        (((op << 26) | (rs << 21) | (rt << 16) | 0 | ((sub << 9) | ((a & 2) << 7) | ((s & 0x6)
            << 5) | (sel << 2) | ((s & 1) << 1) | (a & 1))) >> 16) & 0x1F == rt,
        (((op << 26) | (rs << 21) | (rt << 16) | 0 | ((sub << 9) | ((a & 2) << 7) | ((s & 0x6)
            << 5) | (sel << 2) | ((s & 1) << 1) | (a & 1))) >> 9) & 0x7F == sub,
        ((((op << 26) | (rs << 21) | (rt << 16) | 0 | ((sub << 9) | ((a & 2) << 7) | ((s & 0x6)
            << 5) | (sel << 2) | ((s & 1) << 1) | (a & 1))) >> 7) & 0x2) | (((op << 26) | (rs
            << 21) | (rt << 16) | 0 | ((sub << 9) | ((a & 2) << 7) | ((s & 0x6) << 5) | (sel << 2)
            | ((s & 1) << 1) | (a & 1))) & 0x1) == a,
        ((((op << 26) | (rs << 21) | (rt << 16) | 0 | ((sub << 9) | ((a & 2) << 7) | ((s & 0x6)
            << 5) | (sel << 2) | ((s & 1) << 1) | (a & 1))) >> 5) & 0x6) | ((((op << 26) | (rs
            << 21) | (rt << 16) | 0 | ((sub << 9) | ((a & 2) << 7) | ((s & 0x6) << 5) | (sel << 2)
            | ((s & 1) << 1) | (a & 1))) >> 1) & 0x1) == s,
        (((op << 26) | (rs << 21) | (rt << 16) | 0 | ((sub << 9) | ((a & 2) << 7) | ((s & 0x6)
            << 5) | (sel << 2) | ((s & 1) << 1) | (a & 1))) >> 2) & 0xF == sel,
{
}

/// The wire form of an instruction is always 6 bytes long.
pub proof fn lemma_encoding_len(i: Instruction)
    ensures
        spec_encoding(i).len() == 6,
{
    vstd::bytes::lemma_auto_spec_u32_to_from_le_bytes();
}

/// Round-trip, first direction: decoding the wire form of any instruction of
/// the supported subset restores that instruction field-for-field.
pub proof fn lemma_round_trip(i: Instruction)
    requires
        spec_canonical(i),
    ensures
        spec_decode_instr(spec_encoding(i)) == Some(i),
{
    vstd::bytes::lemma_auto_spec_u32_to_from_le_bytes();
    let w = spec_word(i);
    let b = spec_encoding(i);
    assert(b.subrange(2, 6) =~= vstd::bytes::spec_u32_to_le_bytes(w));
    assert(spec_decode_word(b) == w);
    assert(spec_hdr_ok(b));
    let op = spec_opcode_code(i.opcode);
    lemma_opcode_code_inverse(i.opcode);
    if spec_is_i_type_op(i.opcode) {
        let rsv = i.rs.unwrap()->Index_0;
        let rtv = i.rt.unwrap()->Index_0;
        let immv = i.imm.unwrap();
        lemma_itype_extract(op, rsv as u32, rtv as u32, immv as u32);
        assert(spec_decode_instr(b) == Some(i));
    } else if spec_is_xalu_op(i.opcode) {
        let rsv = i.rs.unwrap()->Index_0;
        let rtv = i.rt.unwrap()->Index_0;
        let rdv = i.rd.unwrap()->Index_0;
        let sub = i.function.unwrap()->Xalu_0;
        let dp = i.function.unwrap()->Xalu_1;
        lemma_subop_xalu_code_inverse(sub);
        lemma_dpcntl_code_inverse(dp);
        lemma_xalu_extract(
            op,
            rsv as u32,
            rtv as u32,
            rdv as u32,
            spec_subop_xalu_code(sub),
            spec_dpcntl_code(dp),
        );
        assert(spec_decode_instr(b) == Some(i));
    } else if i.opcode == Opcode::XJ {
        let rtv = i.rt.unwrap()->Index_0;
        lemma_xj_extract(op, rtv as u32);
        assert(spec_decode_instr(b) == Some(i));
    } else {
        let rsv = i.rs.unwrap()->Index_0;
        let rtv = i.rt.unwrap()->Index_0;
        let sub = i.function.unwrap()->Xls_0->Xio_0;
        let a = i.function.unwrap()->Xls_1;
        let s = i.function.unwrap()->Xls_2;
        let sel = i.function.unwrap()->Xls_3;
        lemma_subop_xio_code_inverse(sub);
        lemma_addr_size_code_inverse(a);
        lemma_size_code_inverse(s);
        lemma_sel_code_inverse(sel);
        lemma_xio_extract(
            op,
            rsv as u32,
            rtv as u32,
            spec_subop_xio_code(sub),
            spec_addr_size_code(a),
            spec_size_code(s),
            spec_sel_code(sel),
        );
        assert(spec_decode_instr(b) == Some(i));
    }
}

/// The instruction with its immediate slot overwritten and everything else
/// kept: what the relocation engine's patch step does before re-encoding.
pub open spec fn spec_set_imm(i: Instruction, v: u16) -> Instruction {
    Instruction { imm: Some(v), ..i }
}

/// Whether a byte sequence decodes to an I-type instruction. Only such units
/// may stand at a patchable position: overwriting their immediate and
/// re-encoding keeps the 6-byte length.
pub open spec fn spec_unit_is_itype(b: Seq<u8>) -> bool {
    match spec_decode_instr(b) {
        Some(j) => spec_is_i_type_op(j.opcode),
        None => false,
    }
}

/// Every masked register or immediate field read out of a word is in range.
proof fn lemma_word_field_bounds(w: u32)
    by (bit_vector)
    ensures
        (w >> 21) & 0x1F < 32,
        (w >> 16) & 0x1F < 32,
        (w >> 11) & 0x1F < 32,
        w & 0xFFFF < 0x10000,
{
}

/// What decoding yields for an I-type unit is canonical, and stays canonical
/// when its immediate is overwritten.
pub proof fn lemma_itype_decode_canonical(b: Seq<u8>, v: u16)
    requires
        spec_unit_is_itype(b),
    ensures
        ({
            let j = spec_decode_instr(b).unwrap();
            spec_canonical(j) && spec_canonical(spec_set_imm(j, v)) && spec_set_imm(j, v).opcode
                == j.opcode && spec_set_imm(j, v).imm == Some(v)
        }),
{
    lemma_word_field_bounds(spec_decode_word(b));
}

/// A valid register stands for a 5-bit number.
pub proof fn lemma_reg_bits_bound(r: Register)
    requires
        spec_reg_valid(r),
    ensures
        spec_reg_bits(r).unwrap() < 32,
{
}

/// The wire form of any encodable I-type instruction decodes as an I-type
/// unit, whatever form its registers were given in.
pub proof fn lemma_itype_encoding_is_itype_unit(i: Instruction)
    requires
        spec_encodable(i),
        spec_is_i_type_op(i.opcode),
    ensures
        spec_unit_is_itype(spec_encoding(i)),
        spec_decode_instr(spec_encoding(i)).unwrap().opcode == i.opcode,
        spec_decode_instr(spec_encoding(i)).unwrap().imm == i.imm,
{
    vstd::bytes::lemma_auto_spec_u32_to_from_le_bytes();
    let w = spec_word(i);
    let b = spec_encoding(i);
    assert(b.subrange(2, 6) =~= vstd::bytes::spec_u32_to_le_bytes(w));
    assert(spec_decode_word(b) == w);
    assert(spec_hdr_ok(b));
    let op = spec_opcode_code(i.opcode);
    lemma_opcode_code_inverse(i.opcode);
    lemma_reg_bits_bound(i.rs.unwrap());
    lemma_reg_bits_bound(i.rt.unwrap());
    lemma_itype_extract(
        op,
        spec_reg_bits(i.rs.unwrap()).unwrap(),
        spec_reg_bits(i.rt.unwrap()).unwrap(),
        i.imm.unwrap() as u32,
    );
}

/// Round-trip, second direction: any wire unit this codec produced from the
/// supported subset decodes, and re-encoding the decoded instruction
/// reproduces the unit byte-for-byte.
pub proof fn lemma_reencode(i: Instruction, b: Seq<u8>)
    requires
        spec_canonical(i),
        b == spec_encoding(i),
    ensures
        spec_decode_instr(b) is Some,
        spec_encoding(spec_decode_instr(b).unwrap()) == b,
{
    lemma_round_trip(i);
}

} // verus!
