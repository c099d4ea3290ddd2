use vstd::prelude::*;

verus! {

/// A fatal decode failure: the engine cannot continue safely and reports
/// the offending byte or bytes together with the program counter.
#[derive(Clone, Copy, Debug, PartialEq, Eq, Structural)]
pub enum CpuError {
    /// A root-table opcode byte with no matching rule.
    UnknownOpcode { opcode: u8, pc: u16 },
    /// A fully decoded extended opcode with no matching rule.
    UnknownExtendedOpcode { prefix: u8, opcode: u8, pc: u16 },
    /// An instruction variant left unimplemented by design.
    Unimplemented { prefix: u8, opcode: u8, pc: u16 },
}

} // verus!
