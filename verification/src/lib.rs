//! The CPU execution engine of a Sega Master System emulator: a Z80
//! register file, the opcode decode and dispatch tree with its four prefix
//! extensions, the arithmetic and flag computation rules, the interrupt
//! acceptance protocol, and the bank-switched memory translator the CPU
//! reads and writes through.  Peripherals reach the core only through the
//! memory and port-bus capabilities.

pub mod cartridge;
pub mod clocks;
pub mod cpu_core;
pub mod errors;
pub mod extended_instruction_set;
pub mod instruction_set;
pub mod instructions;
pub mod interruptor;
pub mod memory;
pub mod pc_state;
pub mod ports;
pub mod status_flags;
