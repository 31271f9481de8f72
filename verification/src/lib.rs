//! A dynamic assembler for an alternate CPU instruction set reached through a
//! mode-switch trampoline from ordinary x86 code.
//!
//! The crate has two parts: the instruction codec ([`ais`]), which converts a
//! structured instruction representation to and from its fixed 6-byte wire
//! form, and the relocation engine ([`dynasm`]), which owns the output byte
//! buffer and a symbol table and patches already-emitted instructions once a
//! symbol's address becomes known.

pub mod ais;
pub mod dynasm;
