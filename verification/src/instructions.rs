// The opcode decode and dispatch tree: one root table plus the four
// prefix-extended tables.  Decode is a layered match; many opcode classes
// are parametrized by a register, register-pair or condition field inside
// the opcode byte.

use crate::clocks::Clock;
use crate::clocks::cycles_after;
use crate::errors::CpuError;
use crate::extended_instruction_set;
use crate::extended_instruction_set::index_address;
use crate::instruction_set;
use crate::interruptor::Interruptor;
use crate::memory::MemoryRW;
use crate::memory::word_in;
use crate::memory::write2_ok;
use crate::pc_state::IndexRegisters;
use crate::pc_state::PcState;
use crate::pc_state::PcStatusFlagFields;
use crate::pc_state::Reg16;
use crate::pc_state::Reg16Sel;
use crate::pc_state::Reg8Sel;
use crate::pc_state::lemma_reg16_bytes;
use crate::pc_state::reg16_of;
use crate::pc_state::wrap16;
use crate::ports::Device;
use crate::status_flags::add16_carry;
use crate::status_flags::add16_half;
use crate::status_flags::add16_overflow;
use crate::status_flags::add16_result;
use crate::status_flags::add8_carry;
use crate::status_flags::add8_half;
use crate::status_flags::add8_overflow;
use crate::status_flags::add8_result;
use crate::status_flags::bit_of;
use crate::status_flags::bool_bit;
use crate::status_flags::parity;
use crate::status_flags::sign16;
use crate::status_flags::sign8;
use crate::status_flags::sub16_borrow;
use crate::status_flags::sub16_half;
use crate::status_flags::sub16_overflow;
use crate::status_flags::sub16_result;
use crate::status_flags::sub8_borrow;
use crate::status_flags::sub8_half;
use crate::status_flags::sub8_overflow;
use crate::status_flags::sub8_result;
use crate::ports::Ports;
use crate::ports::port_read_rel;
use vstd::prelude::*;

verus! {

/// Which index register a 0xDD or 0xFD prefix selected.
#[derive(Clone, Copy, PartialEq, Eq, Structural)]
pub enum IndexReg {
    IX,
    IY,
}

/// The 8-bit register slot a three-bit opcode field names; the reserved
/// value 6 stands for a memory-indirect form and decodes to no register.
pub open spec fn reg8_sel_of(bits: u8) -> Reg8Sel {
    if bits == 0 {
        Reg8Sel::B
    } else if bits == 1 {
        Reg8Sel::C
    } else if bits == 2 {
        Reg8Sel::D
    } else if bits == 3 {
        Reg8Sel::E
    } else if bits == 4 {
        Reg8Sel::H
    } else if bits == 5 {
        Reg8Sel::L
    } else {
        Reg8Sel::A
    }
}

/// The register a two-bit opcode field names, in the instruction classes
/// that use the {BC, DE, HL, SP} set.
pub open spec fn reg16_sel_of(bits: u8) -> Reg16Sel {
    if bits == 0 {
        Reg16Sel::BC
    } else if bits == 1 {
        Reg16Sel::DE
    } else if bits == 2 {
        Reg16Sel::HL
    } else {
        Reg16Sel::SP
    }
}

/// Whether the condition a three-bit opcode field names holds of the
/// flags: NZ, Z, NC, C, PO, PE, P, M in field order.
pub open spec fn condition_of(f: PcStatusFlagFields, sel: u8) -> bool {
    if sel == 0 {
        f.z() == 0
    } else if sel == 1 {
        f.z() == 1
    } else if sel == 2 {
        f.c() == 0
    } else if sel == 3 {
        f.c() == 1
    } else if sel == 4 {
        f.pv() == 0
    } else if sel == 5 {
        f.pv() == 1
    } else if sel == 6 {
        f.s() == 0
    } else {
        f.s() == 1
    }
}

/// Decode a three-bit register field.
fn decode_reg8(bits: u8) -> (r: Reg8Sel)
    requires
        bits < 8,
        bits != 6,
    ensures
        r == reg8_sel_of(bits),
{
    if bits == 0 {
        Reg8Sel::B
    } else if bits == 1 {
        Reg8Sel::C
    } else if bits == 2 {
        Reg8Sel::D
    } else if bits == 3 {
        Reg8Sel::E
    } else if bits == 4 {
        Reg8Sel::H
    } else if bits == 5 {
        Reg8Sel::L
    } else {
        Reg8Sel::A
    }
}

/// Decode a two-bit register field of the {BC, DE, HL, SP} set.
fn decode_reg16(bits: u8) -> (r: Reg16Sel)
    requires
        bits < 4,
    ensures
        r == reg16_sel_of(bits),
{
    if bits == 0 {
        Reg16Sel::BC
    } else if bits == 1 {
        Reg16Sel::DE
    } else if bits == 2 {
        Reg16Sel::HL
    } else {
        Reg16Sel::SP
    }
}

/// The value of the 8-bit register a three-bit opcode field selects.
fn select_8_bit_read_register(pc_state: &PcState, reg_select: u8) -> (r: u8)
    requires
        reg_select < 8,
        reg_select != 6,
    ensures
        r == pc_state.sel8(reg8_sel_of(reg_select)),
{
    let sel = decode_reg8(reg_select);
    pc_state.get_8(sel)
}

/// The value of the 16-bit pair a two-bit opcode field selects.
fn select_16_bit_read_register(pc_state: &PcState, reg_select: u8) -> (r: u16)
    requires
        reg_select < 4,
    ensures
        r == pc_state.sel16(reg16_sel_of(reg_select)),
{
    let sel = decode_reg16(reg_select);
    pc_state.get_16(sel)
}

/// Evaluate the flag condition a three-bit opcode field selects.
fn get_condition_result(pc_state: &PcState, condition_select: u8) -> (r: bool)
    requires
        condition_select < 8,
    ensures
        r == condition_of(pc_state.f(), condition_select),
{
    let f = pc_state.get_f();
    if condition_select == 0 {
        f.get_z() == 0
    } else if condition_select == 1 {
        f.get_z() == 1
    } else if condition_select == 2 {
        f.get_c() == 0
    } else if condition_select == 3 {
        f.get_c() == 1
    } else if condition_select == 4 {
        f.get_pv() == 0
    } else if condition_select == 5 {
        f.get_pv() == 1
    } else if condition_select == 6 {
        f.get_s() == 0
    } else {
        f.get_s() == 1
    }
}

/// The selected index register's current value.
fn get_index(regs: &IndexRegisters, index: IndexReg) -> (r: Reg16)
    ensures
        r == (if index == IndexReg::IX {
            regs.ix_reg
        } else {
            regs.iy_reg
        }),
{
    match index {
        IndexReg::IX => regs.ix_reg,
        IndexReg::IY => regs.iy_reg,
    }
}

/// Mutable access to the selected index register.
fn index_reg_mut(regs: &mut IndexRegisters, index: IndexReg) -> (r: &mut Reg16)
    ensures
        *r == (if index == IndexReg::IX {
            old(regs).ix_reg
        } else {
            old(regs).iy_reg
        }),
        index == IndexReg::IX ==> *final(regs) == (IndexRegisters {
            ix_reg: *final(r),
            ..*old(regs)
        }),
        index == IndexReg::IY ==> *final(regs) == (IndexRegisters {
            iy_reg: *final(r),
            ..*old(regs)
        }),
{
    match index {
        IndexReg::IX => &mut regs.ix_reg,
        IndexReg::IY => &mut regs.iy_reg,
    }
}


/// What one 0xCB-table operation does, as a relation between the machine
/// state when `execute_cb` is entered (the opcode byte still unfetched, at
/// `s0`'s PC) and the state it leaves: `c0`/`c1` are the cycle counts,
/// `m0`/`m1` the memories, `s0`/`s1` the register files and `r` the
/// outcome.  Every case consumes exactly the one table byte.
pub open spec fn cb_rel<M: MemoryRW>(
    c0: u64,
    c1: u64,
    m0: M,
    m1: M,
    s0: PcState,
    s1: PcState,
    r: Result<(), CpuError>,
) -> bool {
    let op = m0.mem()[s0.pc_reg.word()];
    let hl0 = s0.hl_reg.word();
    let bit_pos = ((op / 8) % 8) & 7;
    let shift_amount = (op / 8) % 8;
    &&& s1.pc_reg.word() == wrap16(s0.pc_reg.word() + 1)
    &&& if op / 64 == 1 && op % 8 != 6 {
        // BIT b,r
        let tested = s0.sel8(reg8_sel_of(op % 8));
        &&& r is Ok
        &&& c1 == cycles_after(c0, 8)
        &&& m1 == m0
        &&& s1 == (PcState { af_reg: s1.af_reg, pc_reg: s1.pc_reg, ..s0 })
        &&& s1.af_reg.high == s0.af_reg.high
        &&& cb_bit_test_flags(s0.f(), s1.f(), tested, bit_pos)
    } else if op / 64 == 1 {
        // BIT b,(HL)
        let tested = m0.mem()[hl0];
        &&& r is Ok
        &&& c1 == cycles_after(c0, 12)
        &&& m1 == m0
        &&& s1 == (PcState { af_reg: s1.af_reg, pc_reg: s1.pc_reg, ..s0 })
        &&& s1.af_reg.high == s0.af_reg.high
        &&& cb_bit_test_flags(s0.f(), s1.f(), tested, bit_pos)
    } else if op / 64 == 3 && op % 8 != 6 {
        // SET b,r
        let sel = reg8_sel_of(op % 8);
        &&& r is Ok
        &&& c1 == cycles_after(c0, 8)
        &&& m1 == m0
        &&& s1 == (PcState {
            pc_reg: s1.pc_reg,
            ..s0.with8(sel, s0.sel8(sel) | (1u8 << shift_amount))
        })
    } else if op / 64 == 3 {
        // SET b,(HL)
        &&& r is Ok
        &&& c1 == cycles_after(c0, 12)
        &&& M::write_ok(m0, s0.hl_reg.value16(), m0.mem()[hl0] | (1u8 << shift_amount), m1)
        &&& s1 == (PcState { pc_reg: s1.pc_reg, ..s0 })
    } else if op / 64 == 2 && op % 8 != 6 {
        // RES b,r
        let sel = reg8_sel_of(op % 8);
        &&& r is Ok
        &&& c1 == cycles_after(c0, 8)
        &&& m1 == m0
        &&& s1 == (PcState {
            pc_reg: s1.pc_reg,
            ..s0.with8(sel, s0.sel8(sel) & !(1u8 << shift_amount))
        })
    } else if op / 64 == 2 {
        // RES b,(HL)
        &&& r is Ok
        &&& c1 == cycles_after(c0, 12)
        &&& M::write_ok(m0, s0.hl_reg.value16(), m0.mem()[hl0] & !(1u8 << shift_amount), m1)
        &&& s1 == (PcState { pc_reg: s1.pc_reg, ..s0 })
    } else if op / 8 < 8 && op % 8 != 6 {
        // The rotate and shift classes on a register.
        let sel = reg8_sel_of(op % 8);
        let v = s0.sel8(sel);
        let shifted = cb_shift_val(op / 8, v, s0.f().c() == 1);
        &&& r is Ok
        &&& c1 == cycles_after(c0, 8)
        &&& m1 == m0
        &&& s1 == (PcState { af_reg: s1.af_reg, pc_reg: s1.pc_reg, ..s0.with8(sel, shifted) })
        &&& s1.af_reg.high == s0.with8(sel, shifted).af_reg.high
        &&& cb_shift_flags(s0.f(), s1.f(), shifted, cb_shift_carry(op / 8, v))
    } else if op == 0x06 || op == 0x0e || op == 0x26 || op == 0x2e || op == 0x36 {
        // The rotate and shift forms on the byte at HL; the one table slot
        // implemented for the 0x36 byte performs SRL there.
        let field = if op == 0x36 {
            7u8
        } else {
            op / 8
        };
        let v = m0.mem()[hl0];
        let shifted = cb_shift_val(field, v, s0.f().c() == 1);
        &&& r is Ok
        &&& c1 == cycles_after(c0, 15)
        &&& M::write_ok(m0, s0.hl_reg.value16(), shifted, m1)
        &&& s1 == (PcState { af_reg: s1.af_reg, pc_reg: s1.pc_reg, ..s0 })
        &&& s1.af_reg.high == s0.af_reg.high
        &&& cb_shift_flags(s0.f(), s1.f(), shifted, cb_shift_carry(field, v))
    } else {
        &&& r == Result::<(), CpuError>::Err(
            CpuError::UnknownExtendedOpcode {
                prefix: 0xcb,
                opcode: op,
                pc: (wrap16(s0.pc_reg.word() + 1) as u16),
            },
        )
        &&& c1 == c0
        &&& m1 == m0
        &&& s1 == (PcState { pc_reg: s1.pc_reg, ..s0 })
    }
}

/// The result byte of the 0xCB rotate or shift class named by the opcode's
/// upper field: RLC, RRC, RL, RR, SLA, SRA, SLL, SRL in field order.
pub open spec fn cb_shift_val(field: u8, v: u8, carry: bool) -> u8 {
    if field == 0 {
        crate::instruction_set::rlc_val(v)
    } else if field == 1 {
        crate::instruction_set::rrc_val(v)
    } else if field == 2 {
        crate::instruction_set::rl_val(v, carry)
    } else if field == 3 {
        crate::instruction_set::rr_val(v, carry)
    } else if field == 4 {
        crate::instruction_set::sla_val(v)
    } else if field == 5 {
        crate::instruction_set::sra_val(v)
    } else if field == 6 {
        crate::instruction_set::sll_val(v)
    } else {
        crate::instruction_set::srl_val(v)
    }
}

/// The bit a 0xCB rotate or shift moves into the carry flag.
pub open spec fn cb_shift_carry(field: u8, v: u8) -> bool {
    if field == 1 || field == 3 || field == 5 || field == 7 {
        crate::instruction_set::bit0_set(v)
    } else {
        crate::instruction_set::bit7_set(v)
    }
}

/// The flags a register-destination rotate or shift leaves: C from the bit
/// moved out, N and H cleared, P/V the parity of the result, S and Z from
/// the result, the unused bits kept.
pub open spec fn cb_shift_flags(
    f0: PcStatusFlagFields,
    f1: PcStatusFlagFields,
    shifted: u8,
    carry: bool,
) -> bool {
    &&& f1.c() == bool_bit(carry)
    &&& f1.n() == 0
    &&& f1.h() == 0
    &&& f1.pv() == bool_bit(parity(shifted))
    &&& f1.s() == bool_bit(sign8(shifted))
    &&& f1.z() == bool_bit(shifted == 0)
    &&& f1.b3() == f0.b3()
    &&& f1.b5() == f0.b5()
}

/// The flags BIT b,r leaves: Z and P/V the inverse of the tested bit, H
/// set, N and S cleared, C and the unused bits kept.
pub open spec fn cb_bit_test_flags(
    f0: PcStatusFlagFields,
    f1: PcStatusFlagFields,
    tested: u8,
    bit_pos: u8,
) -> bool {
    &&& f1.z() == bool_bit(bit_of(tested, bit_pos) == 0)
    &&& f1.pv() == bool_bit(bit_of(tested, bit_pos) == 0)
    &&& f1.h() == 1
    &&& f1.n() == 0
    &&& f1.s() == 0
    &&& f1.c() == f0.c()
    &&& f1.b3() == f0.b3()
    &&& f1.b5() == f0.b5()
}


/// What one 0xED-table operation does, as a relation between the machine
/// state when `execute_ed` is entered (the table byte still unfetched) and
/// the state it leaves; `p0`/`p1` are the attached device lists.
pub open spec fn ed_rel<M: MemoryRW, D: Device>(
    c0: u64,
    c1: u64,
    m0: M,
    m1: M,
    s0: PcState,
    s1: PcState,
    p0: Seq<D>,
    p1: Seq<D>,
    r: Result<(), CpuError>,
) -> bool {
    let op = m0.mem()[s0.pc_reg.word()];
    let pc1 = wrap16(s0.pc_reg.word() + 1);
    let hl0 = s0.hl_reg.word();
    let a0 = s0.af_reg.high;
    if op == 0x00 {
        &&& r is Ok
        &&& c1 == cycles_after(c0, 4)
        &&& m1 == m0
        &&& p1 == p0
        &&& s1 == (PcState { pc_reg: s1.pc_reg, ..s0 })
        &&& s1.pc_reg.word() == pc1
    } else if op == 0x43 {
        // LD (nn),BC.
        &&& r is Ok
        &&& c1 == cycles_after(c0, 20)
        &&& p1 == p0
        &&& s1 == (PcState { pc_reg: s1.pc_reg, ..s0 })
        &&& s1.pc_reg.word() == wrap16(s0.pc_reg.word() + 3)
        &&& (exists|mid: M|
            (#[trigger] M::write_ok(
                m0,
                (word_in(m0.mem(), pc1) as u16),
                s0.bc_reg.low,
                mid,
            )) && M::write_ok(
                mid,
                (wrap16(word_in(mid.mem(), pc1) + 1) as u16),
                s0.bc_reg.high,
                m1,
            ))
    } else if op == 0x53 {
        // LD (nn),DE.
        &&& r is Ok
        &&& c1 == cycles_after(c0, 20)
        &&& p1 == p0
        &&& s1 == (PcState { pc_reg: s1.pc_reg, ..s0 })
        &&& s1.pc_reg.word() == wrap16(s0.pc_reg.word() + 3)
        &&& (exists|mid: M|
            (#[trigger] M::write_ok(
                m0,
                (word_in(m0.mem(), pc1) as u16),
                s0.de_reg.low,
                mid,
            )) && M::write_ok(
                mid,
                (wrap16(word_in(mid.mem(), pc1) + 1) as u16),
                s0.de_reg.high,
                m1,
            ))
    } else if op == 0x63 {
        // LD (nn),HL.
        &&& r is Ok
        &&& c1 == cycles_after(c0, 20)
        &&& p1 == p0
        &&& s1 == (PcState { pc_reg: s1.pc_reg, ..s0 })
        &&& s1.pc_reg.word() == wrap16(s0.pc_reg.word() + 3)
        &&& (exists|mid: M|
            (#[trigger] M::write_ok(
                m0,
                (word_in(m0.mem(), pc1) as u16),
                s0.hl_reg.low,
                mid,
            )) && M::write_ok(
                mid,
                (wrap16(word_in(mid.mem(), pc1) + 1) as u16),
                s0.hl_reg.high,
                m1,
            ))
    } else if op == 0x73 {
        // LD (nn),SP.
        &&& r is Ok
        &&& c1 == cycles_after(c0, 20)
        &&& p1 == p0
        &&& s1 == (PcState { pc_reg: s1.pc_reg, ..s0 })
        &&& s1.pc_reg.word() == wrap16(s0.pc_reg.word() + 3)
        &&& (exists|mid: M|
            (#[trigger] M::write_ok(
                m0,
                (word_in(m0.mem(), pc1) as u16),
                s0.sp_reg.low,
                mid,
            )) && M::write_ok(
                mid,
                (wrap16(word_in(mid.mem(), pc1) + 1) as u16),
                s0.sp_reg.high,
                m1,
            ))
    } else if op == 0x5f {
        // LD A,R: the refresh register is wired to the cycle counter.
        let refreshed = (((c0 >> 2) & 0x7F) as u8) | (s0.r_reg & 0x80);
        &&& r is Ok
        &&& c1 == cycles_after(c0, 9)
        &&& m1 == m0
        &&& p1 == p0
        &&& s1 == (PcState {
            af_reg: s1.af_reg,
            r_reg: refreshed,
            pc_reg: s1.pc_reg,
            ..s0
        })
        &&& s1.pc_reg.word() == pc1
        &&& s1.af_reg.high == refreshed
        &&& acc_load_flags(s0.f(), s1.f(), refreshed, s0.iff2)
    } else if op == 0x57 {
        // LD A,I.
        &&& r is Ok
        &&& c1 == cycles_after(c0, 9)
        &&& m1 == m0
        &&& p1 == p0
        &&& s1 == (PcState { af_reg: s1.af_reg, pc_reg: s1.pc_reg, ..s0 })
        &&& s1.pc_reg.word() == pc1
        &&& s1.af_reg.high == s0.i_reg
        &&& acc_load_flags(s0.f(), s1.f(), s0.i_reg, s0.iff2)
    } else if op == 0x47 {
        // LD I,A.
        &&& r is Ok
        &&& c1 == cycles_after(c0, 9)
        &&& m1 == m0
        &&& p1 == p0
        &&& s1 == (PcState { i_reg: a0, pc_reg: s1.pc_reg, ..s0 })
        &&& s1.pc_reg.word() == pc1
    } else if op == 0x4f {
        // LD R,A.
        &&& r is Ok
        &&& c1 == cycles_after(c0, 9)
        &&& m1 == m0
        &&& p1 == p0
        &&& s1 == (PcState { r_reg: a0, pc_reg: s1.pc_reg, ..s0 })
        &&& s1.pc_reg.word() == pc1
    } else if op == 0x67 {
        // RRD.
        let m = m0.mem()[hl0];
        let new_a = (a0 & 0xF0) | (m & 0xF);
        &&& r is Ok
        &&& c1 == cycles_after(c0, 18)
        &&& p1 == p0
        &&& M::write_ok(m0, s0.hl_reg.value16(), ((m >> 4) & 0xF) | ((a0 & 0xF) << 4), m1)
        &&& s1 == (PcState { af_reg: s1.af_reg, pc_reg: s1.pc_reg, ..s0 })
        &&& s1.pc_reg.word() == pc1
        &&& s1.af_reg.high == new_a
        &&& decimal_rotate_flags(s0.f(), s1.f(), new_a)
    } else if op == 0x6f {
        // RLD.
        let m = m0.mem()[hl0];
        let new_a = (a0 & 0xF0) | ((m >> 4) & 0xF);
        &&& r is Ok
        &&& c1 == cycles_after(c0, 18)
        &&& p1 == p0
        &&& M::write_ok(m0, s0.hl_reg.value16(), ((m & 0xF) << 4) | (a0 & 0xF), m1)
        &&& s1 == (PcState { af_reg: s1.af_reg, pc_reg: s1.pc_reg, ..s0 })
        &&& s1.pc_reg.word() == pc1
        &&& s1.af_reg.high == new_a
        &&& decimal_rotate_flags(s0.f(), s1.f(), new_a)
    } else if op == 0xa3 || op == 0xab {
        // OUTI and OUTD: write the byte at HL to port C, counting B down.
        let new_b = ((s0.bc_reg.high - 1) % 256) as u8;
        &&& r is Ok
        &&& c1 == cycles_after(c0, 16)
        &&& m1 == m0
        &&& p1.len() == p0.len()
        &&& (forall|j: int|
            0 <= j < p0.len() ==> (#[trigger] p1[j]) == p0[j].after_write(
                c0,
                s0.bc_reg.low,
                m0.mem()[hl0],
            ))
        &&& s1 == (PcState {
            af_reg: s1.af_reg,
            bc_reg: s1.bc_reg,
            hl_reg: s1.hl_reg,
            pc_reg: s1.pc_reg,
            ..s0
        })
        &&& s1.pc_reg.word() == pc1
        &&& s1.bc_reg.high == new_b
        &&& s1.bc_reg.low == s0.bc_reg.low
        &&& s1.hl_reg.word() == (if op == 0xa3 {
            wrap16(hl0 + 1)
        } else {
            wrap16(hl0 - 1)
        })
        &&& s1.af_reg.high == a0
        &&& block_io_flags(s0.f(), s1.f(), new_b)
    } else if op == 0x44 {
        // NEG.
        &&& r is Ok
        &&& c1 == cycles_after(c0, 8)
        &&& m1 == m0
        &&& p1 == p0
        &&& s1 == (PcState { af_reg: s1.af_reg, pc_reg: s1.pc_reg, ..s0 })
        &&& s1.pc_reg.word() == pc1
        &&& s1.af_reg.high == sub8_result(0, a0, false)
        &&& sub_flags(s0.f(), s1.f(), 0, a0, false)
    } else if op == 0x4d {
        // RETI.
        &&& r is Ok
        &&& c1 == cycles_after(c0, 14)
        &&& m1 == m0
        &&& p1 == p0
        &&& s1 == (PcState { pc_reg: s1.pc_reg, sp_reg: s1.sp_reg, ..s0 })
        &&& s1.pc_reg.low == m0.mem()[s0.sp_reg.word()]
        &&& s1.pc_reg.high == m0.mem()[wrap16(s0.sp_reg.word() + 1)]
        &&& s1.sp_reg.word() == wrap16(s0.sp_reg.word() + 2)
    } else if op == 0xb3 {
        // OTIR: the repeating output.
        let new_b = ((s0.bc_reg.high - 1) % 256) as u8;
        let done = new_b == 0;
        &&& r is Ok
        &&& c1 == cycles_after(
            c0,
            if done {
                16
            } else {
                21
            },
        )
        &&& m1 == m0
        &&& p1.len() == p0.len()
        &&& (forall|j: int|
            0 <= j < p0.len() ==> (#[trigger] p1[j]) == p0[j].after_write(
                c0,
                s0.bc_reg.low,
                m0.mem()[hl0],
            ))
        &&& s1 == (PcState {
            af_reg: s1.af_reg,
            bc_reg: s1.bc_reg,
            hl_reg: s1.hl_reg,
            pc_reg: s1.pc_reg,
            ..s0
        })
        &&& s1.pc_reg.word() == (if done {
            pc1
        } else {
            wrap16(s0.pc_reg.word() - 1)
        })
        &&& s1.bc_reg.high == new_b
        &&& s1.bc_reg.low == s0.bc_reg.low
        &&& s1.hl_reg.word() == wrap16(hl0 + 1)
        &&& s1.af_reg.high == a0
        &&& s1.f().s() == 0
        &&& s1.f().h() == 0
        &&& s1.f().pv() == 0
        &&& s1.f().n() == 1
        &&& s1.f().z() == bool_bit(done)
        &&& s1.f().c() == s0.f().c()
        &&& s1.f().b3() == s0.f().b3()
        &&& s1.f().b5() == s0.f().b5()
    } else if op == 0xb8 || op == 0xb0 {
        // LDDR and LDIR: the repeating block copies.
        let down = op == 0xb8;
        let done = s0.bc_reg.word() == 1;
        &&& r is Ok
        &&& c1 == cycles_after(
            c0,
            if done {
                16
            } else {
                21
            },
        )
        &&& M::write_ok(m0, s0.de_reg.value16(), m0.mem()[hl0], m1)
        &&& p1 == p0
        &&& s1 == (PcState {
            af_reg: s1.af_reg,
            bc_reg: s1.bc_reg,
            de_reg: s1.de_reg,
            hl_reg: s1.hl_reg,
            pc_reg: s1.pc_reg,
            ..s0
        })
        &&& s1.pc_reg.word() == (if done {
            pc1
        } else {
            wrap16(s0.pc_reg.word() - 1)
        })
        &&& s1.bc_reg.word() == wrap16(s0.bc_reg.word() - 1)
        &&& s1.hl_reg.word() == (if down {
            wrap16(hl0 - 1)
        } else {
            wrap16(hl0 + 1)
        })
        &&& s1.de_reg.word() == (if down {
            wrap16(s0.de_reg.word() - 1)
        } else {
            wrap16(s0.de_reg.word() + 1)
        })
        &&& s1.af_reg.high == a0
        &&& (!down ==> {
            &&& s1.f().h() == 0
            &&& s1.f().pv() == 0
            &&& s1.f().n() == bool_bit(!done)
            &&& s1.f().c() == s0.f().c()
            &&& s1.f().s() == s0.f().s()
            &&& s1.f().z() == s0.f().z()
            &&& s1.f().b3() == s0.f().b3()
            &&& s1.f().b5() == s0.f().b5()
        })
        &&& (down && done ==> {
            &&& s1.f().h() == 0
            &&& s1.f().n() == 0
            &&& s1.f().pv() == 0
            &&& s1.f().c() == s0.f().c()
            &&& s1.f().s() == s0.f().s()
            &&& s1.f().z() == s0.f().z()
            &&& s1.f().b3() == s0.f().b3()
            &&& s1.f().b5() == s0.f().b5()
        })
        &&& (down && !done ==> s1.af_reg.low == s0.af_reg.low)
    } else if op == 0xa2 {
        // INI: read port C into the byte at HL, counting B down.
        let new_b = ((s0.bc_reg.high - 1) % 256) as u8;
        &&& r is Ok
        &&& c1 == cycles_after(c0, 16)
        &&& (exists|v: u8|
            (#[trigger] port_read_rel(p0, p1, c0, s0.bc_reg.low, v)) && M::write_ok(
                m0,
                s0.hl_reg.value16(),
                v,
                m1,
            ))
        &&& s1 == (PcState {
            af_reg: s1.af_reg,
            bc_reg: s1.bc_reg,
            hl_reg: s1.hl_reg,
            pc_reg: s1.pc_reg,
            ..s0
        })
        &&& s1.pc_reg.word() == pc1
        &&& s1.bc_reg.high == new_b
        &&& s1.bc_reg.low == s0.bc_reg.low
        &&& s1.hl_reg.word() == wrap16(hl0 + 1)
        &&& s1.af_reg.high == a0
        &&& block_io_flags(s0.f(), s1.f(), new_b)
    } else if op == 0xa1 || op == 0xa9 {
        // CPI and CPD: compare and step the pointer.
        let operand = m0.mem()[hl0];
        &&& r is Ok
        &&& c1 == cycles_after(c0, 16)
        &&& m1 == m0
        &&& p1 == p0
        &&& s1 == (PcState {
            af_reg: s1.af_reg,
            bc_reg: s1.bc_reg,
            hl_reg: s1.hl_reg,
            pc_reg: s1.pc_reg,
            ..s0
        })
        &&& s1.pc_reg.word() == pc1
        &&& s1.hl_reg.word() == (if op == 0xa1 {
            wrap16(hl0 + 1)
        } else {
            wrap16(hl0 - 1)
        })
        &&& s1.bc_reg.word() == wrap16(s0.bc_reg.word() - 1)
        &&& s1.af_reg.high == a0
        &&& s1.f().c() == bool_bit(sub8_borrow(a0, operand, false))
        &&& s1.f().h() == bool_bit(sub8_half(a0, operand, false))
        &&& s1.f().n() == 1
        &&& s1.f().s() == bool_bit(sign8(sub8_result(a0, operand, false)))
        &&& s1.f().z() == bool_bit(sub8_result(a0, operand, false) == 0)
        &&& s1.f().pv() == bool_bit(s0.bc_reg.word() == 1)
        &&& s1.f().b3() == s0.f().b3()
        &&& s1.f().b5() == s0.f().b5()
    } else if op == 0xb1 || op == 0xb9 {
        // CPIR and CPDR: the repeating compare.
        let operand = m0.mem()[hl0];
        let done = s0.bc_reg.word() == 1 || sub8_result(a0, operand, false) == 0;
        &&& r is Ok
        &&& c1 == cycles_after(
            c0,
            if done {
                16
            } else {
                21
            },
        )
        &&& m1 == m0
        &&& p1 == p0
        &&& s1 == (PcState {
            af_reg: s1.af_reg,
            bc_reg: s1.bc_reg,
            hl_reg: s1.hl_reg,
            pc_reg: s1.pc_reg,
            ..s0
        })
        &&& s1.pc_reg.word() == (if done {
            pc1
        } else {
            wrap16(s0.pc_reg.word() - 1)
        })
        &&& s1.hl_reg.word() == (if op == 0xb1 {
            wrap16(hl0 + 1)
        } else {
            wrap16(hl0 - 1)
        })
        &&& s1.bc_reg.word() == wrap16(s0.bc_reg.word() - 1)
        &&& s1.af_reg.high == a0
        &&& s1.f().c() == s0.f().c()
        &&& s1.f().h() == bool_bit(sub8_half(a0, operand, false))
        &&& s1.f().n() == 1
        &&& s1.f().s() == bool_bit(sign8(sub8_result(a0, operand, false)))
        &&& s1.f().z() == bool_bit(sub8_result(a0, operand, false) == 0)
        &&& s1.f().pv() == bool_bit(!done)
        &&& s1.f().b3() == s0.f().b3()
        &&& s1.f().b5() == s0.f().b5()
    } else if op == 0xa0 || op == 0xa8 {
        // LDI and LDD: copy one byte and step the pointers.
        let down = op == 0xa8;
        &&& r is Ok
        &&& c1 == cycles_after(c0, 16)
        &&& M::write_ok(m0, s0.de_reg.value16(), m0.mem()[hl0], m1)
        &&& p1 == p0
        &&& s1 == (PcState {
            af_reg: s1.af_reg,
            bc_reg: s1.bc_reg,
            de_reg: s1.de_reg,
            hl_reg: s1.hl_reg,
            pc_reg: s1.pc_reg,
            ..s0
        })
        &&& s1.pc_reg.word() == pc1
        &&& s1.hl_reg.word() == (if down {
            wrap16(hl0 - 1)
        } else {
            wrap16(hl0 + 1)
        })
        &&& s1.de_reg.word() == (if down {
            wrap16(s0.de_reg.word() - 1)
        } else {
            wrap16(s0.de_reg.word() + 1)
        })
        &&& s1.bc_reg.word() == wrap16(s0.bc_reg.word() - 1)
        &&& s1.af_reg.high == a0
        &&& s1.f().pv() == bool_bit(s0.bc_reg.word() == 1)
        &&& s1.f().h() == 0
        &&& s1.f().n() == 0
        &&& s1.f().c() == s0.f().c()
        &&& s1.f().s() == s0.f().s()
        &&& s1.f().z() == s0.f().z()
        &&& s1.f().b3() == s0.f().b3()
        &&& s1.f().b5() == s0.f().b5()
    } else if op == 0x56 {
        // IM 1.
        &&& r is Ok
        &&& c1 == cycles_after(c0, 8)
        &&& m1 == m0
        &&& p1 == p0
        &&& s1 == (PcState { im: 1, pc_reg: s1.pc_reg, ..s0 })
        &&& s1.pc_reg.word() == pc1
    } else if op % 16 == 0xB && op / 64 == 1 {
        // LD dd,(nn).
        let sel = reg16_sel_of((op / 16) % 4);
        &&& r is Ok
        &&& c1 == cycles_after(c0, 20)
        &&& m1 == m0
        &&& p1 == p0
        &&& s1 == (PcState {
            pc_reg: s1.pc_reg,
            ..s0.with16(
                sel,
                (word_in(m0.mem(), word_in(m0.mem(), pc1)) as u16),
            )
        })
        &&& s1.pc_reg.word() == wrap16(s0.pc_reg.word() + 3)
    } else if op % 8 == 0 && op / 64 == 1 && (op / 8) % 8 != 6 {
        // IN r,(C).
        let dst = reg8_sel_of((op / 8) % 8);
        &&& r is Ok
        &&& c1 == cycles_after(c0, 12)
        &&& m1 == m0
        &&& s1 == (PcState { pc_reg: s1.pc_reg, ..s0.with8(dst, s1.sel8(dst)) })
        &&& s1.pc_reg.word() == pc1
        &&& port_read_rel(p0, p1, c0, s0.bc_reg.low, s1.sel8(dst))
    } else if op % 8 == 1 && op / 64 == 1 && (op / 8) % 8 != 6 {
        // OUT (C),r.
        let out_value = s0.sel8(reg8_sel_of((op / 8) % 8));
        &&& r is Ok
        &&& c1 == cycles_after(c0, 12)
        &&& m1 == m0
        &&& p1.len() == p0.len()
        &&& (forall|j: int|
            0 <= j < p0.len() ==> (#[trigger] p1[j]) == p0[j].after_write(
                c0,
                s0.bc_reg.low,
                out_value,
            ))
        &&& s1 == (PcState { pc_reg: s1.pc_reg, ..s0 })
        &&& s1.pc_reg.word() == pc1
    } else if op % 16 == 0xA && op / 64 == 1 {
        // ADC HL,ss.
        let src = (s0.sel16(reg16_sel_of((op / 16) % 4)) as u16);
        let carry = s0.f().c() == 1;
        &&& r is Ok
        &&& c1 == cycles_after(c0, 15)
        &&& m1 == m0
        &&& p1 == p0
        &&& s1 == (PcState { af_reg: s1.af_reg, hl_reg: s1.hl_reg, pc_reg: s1.pc_reg, ..s0 })
        &&& s1.pc_reg.word() == pc1
        &&& s1.hl_reg.word() == add16_result(s0.hl_reg.value16(), src, carry)
        &&& s1.af_reg.high == a0
        &&& s1.f().s() == bool_bit(sign16(add16_result(s0.hl_reg.value16(), src, carry)))
        &&& s1.f().z() == bool_bit(add16_result(s0.hl_reg.value16(), src, carry) == 0)
        &&& s1.f().pv() == bool_bit(add16_overflow(s0.hl_reg.value16(), src, carry))
        &&& s1.f().h() == bool_bit(add16_half(s0.hl_reg.value16(), src, carry))
        &&& s1.f().c() == bool_bit(add16_carry(s0.hl_reg.value16(), src, carry))
        &&& s1.f().n() == 0
        &&& s1.f().b3() == s0.f().b3()
        &&& s1.f().b5() == s0.f().b5()
    } else if op % 16 == 0x2 && op / 64 == 1 {
        // SBC HL,ss.
        let src = (s0.sel16(reg16_sel_of((op / 16) % 4)) as u16);
        let borrow = s0.f().c() == 1;
        &&& r is Ok
        &&& c1 == cycles_after(c0, 15)
        &&& m1 == m0
        &&& p1 == p0
        &&& s1 == (PcState { af_reg: s1.af_reg, hl_reg: s1.hl_reg, pc_reg: s1.pc_reg, ..s0 })
        &&& s1.pc_reg.word() == pc1
        &&& s1.hl_reg.word() == sub16_result(s0.hl_reg.value16(), src, borrow)
        &&& s1.af_reg.high == a0
        &&& s1.f().s() == bool_bit(sign16(sub16_result(s0.hl_reg.value16(), src, borrow)))
        &&& s1.f().z() == bool_bit(sub16_result(s0.hl_reg.value16(), src, borrow) == 0)
        &&& s1.f().pv() == bool_bit(sub16_overflow(s0.hl_reg.value16(), src, borrow))
        &&& s1.f().h() == bool_bit(sub16_half(s0.hl_reg.value16(), src, borrow))
        &&& s1.f().c() == bool_bit(sub16_borrow(s0.hl_reg.value16(), src, borrow))
        &&& s1.f().n() == 1
        &&& s1.f().b3() == s0.f().b3()
        &&& s1.f().b5() == s0.f().b5()
    } else {
        &&& r == Result::<(), CpuError>::Err(
            CpuError::UnknownExtendedOpcode { prefix: 0xed, opcode: op, pc: (pc1 as u16) },
        )
        &&& c1 == c0
        &&& m1 == m0
        &&& p1 == p0
        &&& s1 == (PcState { pc_reg: s1.pc_reg, ..s0 })
        &&& s1.pc_reg.word() == pc1
    }
}

/// The flags LD A,I and LD A,R leave: N and H cleared, P/V from IFF2, S
/// and Z from the loaded value, C and the unused bits kept.
pub open spec fn acc_load_flags(
    f0: PcStatusFlagFields,
    f1: PcStatusFlagFields,
    loaded: u8,
    iff2: bool,
) -> bool {
    &&& f1.n() == 0
    &&& f1.h() == 0
    &&& f1.pv() == bool_bit(iff2)
    &&& f1.s() == bool_bit(sign8(loaded))
    &&& f1.z() == bool_bit(loaded == 0)
    &&& f1.c() == f0.c()
    &&& f1.b3() == f0.b3()
    &&& f1.b5() == f0.b5()
}

/// The flags RRD and RLD leave: N and H cleared, P/V the parity of the new
/// accumulator, S and Z from it, C and the unused bits kept.
pub open spec fn decimal_rotate_flags(
    f0: PcStatusFlagFields,
    f1: PcStatusFlagFields,
    new_a: u8,
) -> bool {
    &&& f1.n() == 0
    &&& f1.h() == 0
    &&& f1.pv() == bool_bit(parity(new_a))
    &&& f1.s() == bool_bit(sign8(new_a))
    &&& f1.z() == bool_bit(new_a == 0)
    &&& f1.c() == f0.c()
    &&& f1.b3() == f0.b3()
    &&& f1.b5() == f0.b5()
}

/// The flags a single block input or output leaves: Z reports whether B
/// reached zero, N is set, everything else is kept.
pub open spec fn block_io_flags(f0: PcStatusFlagFields, f1: PcStatusFlagFields, new_b: u8) -> bool {
    &&& f1.z() == bool_bit(new_b == 0)
    &&& f1.n() == 1
    &&& f1.c() == f0.c()
    &&& f1.h() == f0.h()
    &&& f1.pv() == f0.pv()
    &&& f1.s() == f0.s()
    &&& f1.b3() == f0.b3()
    &&& f1.b5() == f0.b5()
}

/// The flags a subtraction leaves.
pub open spec fn sub_flags(
    f0: PcStatusFlagFields,
    f1: PcStatusFlagFields,
    a: u8,
    b: u8,
    borrow: bool,
) -> bool {
    &&& f1.c() == bool_bit(sub8_borrow(a, b, borrow))
    &&& f1.h() == bool_bit(sub8_half(a, b, borrow))
    &&& f1.pv() == bool_bit(sub8_overflow(a, b, borrow))
    &&& f1.n() == 1
    &&& f1.s() == bool_bit(sign8(sub8_result(a, b, borrow)))
    &&& f1.z() == bool_bit(sub8_result(a, b, borrow) == 0)
    &&& f1.b3() == f0.b3()
    &&& f1.b5() == f0.b5()
}


/// The register the 0xDD or 0xFD prefix makes active.
pub open spec fn sel_index(s: PcState, index: IndexReg) -> Reg16 {
    if index == IndexReg::IX {
        s.index_registers.ix_reg
    } else {
        s.index_registers.iy_reg
    }
}

/// The state with the active index register replaced.
pub open spec fn with_index(s: PcState, index: IndexReg, r: Reg16) -> PcState {
    if index == IndexReg::IX {
        PcState { index_registers: IndexRegisters { ix_reg: r, ..s.index_registers }, ..s }
    } else {
        PcState { index_registers: IndexRegisters { iy_reg: r, ..s.index_registers }, ..s }
    }
}

/// What one 0xDD / 0xFD-table operation does, as a relation between the
/// machine state when `execute_index` is entered (the table byte still
/// unfetched) and the state it leaves, with `index` naming the active
/// index register.
pub open spec fn index_rel<M: MemoryRW>(
    index: IndexReg,
    c0: u64,
    c1: u64,
    m0: M,
    m1: M,
    s0: PcState,
    s1: PcState,
    r: Result<(), CpuError>,
) -> bool {
    let op = m0.mem()[s0.pc_reg.word()];
    let pc1 = wrap16(s0.pc_reg.word() + 1);
    let prefix: u8 = if index == IndexReg::IX {
        0xdd
    } else {
        0xfd
    };
    let idx = sel_index(s0, index);
    let a0 = s0.af_reg.high;
    if op == 0xcb {
        // The doubly prefixed bit operations: displacement byte first, the
        // deciding byte after it.
        let op_details = m0.mem()[wrap16(pc1 + 1)];
        let bit_pos = (op_details >> 3) & 7;
        let address = index_address(m0.mem(), pc1, idx.word());
        let test_value = m0.mem()[address];
        match r {
            Result::Ok(()) => {
                &&& op_details >> 6 != 0
                &&& s1 == (PcState { af_reg: s1.af_reg, pc_reg: s1.pc_reg, ..s0 })
                &&& s1.pc_reg.word() == wrap16(s0.pc_reg.word() + 3)
                &&& (op_details >> 6 == 1 ==> {
                    &&& m1 == m0
                    &&& c1 == cycles_after(c0, 20)
                    &&& s1.af_reg.high == s0.af_reg.high
                    &&& cb_bit_test_flags(s0.f(), s1.f(), test_value, bit_pos)
                })
                &&& (op_details >> 6 == 2 ==> {
                    &&& s1.af_reg == s0.af_reg
                    &&& c1 == cycles_after(c0, 23)
                    &&& M::write_ok(m0, (address as u16), test_value & !(1u8 << bit_pos), m1)
                })
                &&& (op_details >> 6 == 3 ==> {
                    &&& s1.af_reg == s0.af_reg
                    &&& c1 == cycles_after(c0, 23)
                    &&& M::write_ok(m0, (address as u16), test_value | (1u8 << bit_pos), m1)
                })
            },
            Result::Err(e) => {
                &&& op_details >> 6 == 0
                &&& e == (CpuError::UnknownExtendedOpcode {
                    prefix: 0xcb,
                    opcode: op_details,
                    pc: (pc1 as u16),
                })
                &&& m1 == m0
                &&& c1 == c0
                &&& s1 == (PcState { pc_reg: s1.pc_reg, ..s0 })
                &&& s1.pc_reg.word() == pc1
            },
        }
    } else if op == 0x22 {
        // LD (nn),IX.
        &&& r is Ok
        &&& c1 == cycles_after(c0, 20)
        &&& s1 == (PcState { pc_reg: s1.pc_reg, ..s0 })
        &&& s1.pc_reg.word() == wrap16(s0.pc_reg.word() + 3)
        &&& (exists|mid: M|
            (#[trigger] M::write_ok(m0, (word_in(m0.mem(), pc1) as u16), idx.low, mid))
                && M::write_ok(
                mid,
                (wrap16(word_in(mid.mem(), pc1) + 1) as u16),
                idx.high,
                m1,
            ))
    } else if op == 0x2a {
        // LD IX,(nn).
        &&& r is Ok
        &&& c1 == cycles_after(c0, 20)
        &&& m1 == m0
        &&& s1 == (PcState {
            pc_reg: s1.pc_reg,
            ..with_index(s0, index, sel_index(s1, index))
        })
        &&& s1.pc_reg.word() == wrap16(s0.pc_reg.word() + 3)
        &&& sel_index(s1, index).word() == word_in(m0.mem(), word_in(m0.mem(), pc1))
    } else if op == 0x36 {
        // LD (IX+d),n.
        &&& r is Ok
        &&& c1 == cycles_after(c0, 19)
        &&& M::write_ok(
            m0,
            (index_address(m0.mem(), pc1, idx.word()) as u16),
            m0.mem()[wrap16(pc1 + 1)],
            m1,
        )
        &&& s1 == (PcState { pc_reg: s1.pc_reg, ..s0 })
        &&& s1.pc_reg.word() == wrap16(s0.pc_reg.word() + 3)
    } else if op == 0x21 {
        // LD IX,nn.
        &&& r is Ok
        &&& c1 == cycles_after(c0, 14)
        &&& m1 == m0
        &&& s1 == (PcState {
            pc_reg: s1.pc_reg,
            ..with_index(s0, index, sel_index(s1, index))
        })
        &&& s1.pc_reg.word() == wrap16(s0.pc_reg.word() + 3)
        &&& sel_index(s1, index).word() == word_in(m0.mem(), pc1)
    } else if op == 0x9e {
        // SBC A,(IX+d) is unimplemented by design.
        &&& r == Result::<(), CpuError>::Err(
            CpuError::Unimplemented { prefix, opcode: 0x9E, pc: (pc1 as u16) },
        )
        &&& c1 == c0
        &&& m1 == m0
        &&& s1 == (PcState { pc_reg: s1.pc_reg, ..s0 })
        &&& s1.pc_reg.word() == pc1
    } else if op == 0xe9 {
        // JP (IX).
        &&& r is Ok
        &&& c1 == cycles_after(c0, 8)
        &&& m1 == m0
        &&& s1 == (PcState { pc_reg: s1.pc_reg, ..s0 })
        &&& s1.pc_reg.word() == idx.word()
    } else if op == 0xf9 {
        // LD SP,IX.
        &&& r is Ok
        &&& c1 == cycles_after(c0, 10)
        &&& m1 == m0
        &&& s1 == (PcState { pc_reg: s1.pc_reg, sp_reg: s1.sp_reg, ..s0 })
        &&& s1.pc_reg.word() == pc1
        &&& s1.sp_reg.word() == idx.word()
    } else if op == 0x23 || op == 0x2b {
        // INC IX and DEC IX.
        &&& r is Ok
        &&& c1 == cycles_after(c0, 10)
        &&& m1 == m0
        &&& s1 == (PcState {
            pc_reg: s1.pc_reg,
            ..with_index(s0, index, sel_index(s1, index))
        })
        &&& s1.pc_reg.word() == pc1
        &&& sel_index(s1, index).word() == (if op == 0x23 {
            wrap16(idx.word() + 1)
        } else {
            wrap16(idx.word() - 1)
        })
    } else if op == 0x34 || op == 0x35 {
        // INC (IX+d) and DEC (IX+d).
        let address = index_address(m0.mem(), pc1, idx.word());
        let new_value = (if op == 0x34 {
            (m0.mem()[address] + 1) % 256
        } else {
            (m0.mem()[address] - 1) % 256
        }) as u8;
        &&& r is Ok
        &&& c1 == cycles_after(c0, 23)
        &&& M::write_ok(m0, (address as u16), new_value, m1)
        &&& s1 == (PcState { af_reg: s1.af_reg, pc_reg: s1.pc_reg, ..s0 })
        &&& s1.pc_reg.word() == wrap16(s0.pc_reg.word() + 2)
        &&& s1.af_reg.high == a0
        &&& s1.f().n() == (if op == 0x34 {
            0u8
        } else {
            1u8
        })
        &&& s1.f().h() == bool_bit(
            if op == 0x34 {
                new_value % 16 == 0
            } else {
                new_value % 16 == 0xF
            },
        )
        &&& s1.f().pv() == bool_bit(
            if op == 0x34 {
                new_value == 0x80
            } else {
                new_value == 0x7F
            },
        )
        &&& s1.f().s() == bool_bit(sign8(new_value))
        &&& s1.f().z() == bool_bit(new_value == 0)
        &&& s1.f().c() == s0.f().c()
        &&& s1.f().b3() == s0.f().b3()
        &&& s1.f().b5() == s0.f().b5()
    } else if op == 0xe1 {
        // POP IX.
        &&& r is Ok
        &&& c1 == cycles_after(c0, 14)
        &&& m1 == m0
        &&& s1 == (PcState {
            pc_reg: s1.pc_reg,
            sp_reg: s1.sp_reg,
            ..with_index(s0, index, sel_index(s1, index))
        })
        &&& s1.pc_reg.word() == pc1
        &&& sel_index(s1, index).low == m0.mem()[s0.sp_reg.word()]
        &&& sel_index(s1, index).high == m0.mem()[wrap16(s0.sp_reg.word() + 1)]
        &&& s1.sp_reg.word() == wrap16(s0.sp_reg.word() + 2)
    } else if op == 0xe5 {
        // PUSH IX.
        &&& r is Ok
        &&& c1 == cycles_after(c0, 15)
        &&& write2_ok(
            m0,
            (wrap16(s0.sp_reg.word() - 1) as u16),
            idx.high,
            (wrap16(s0.sp_reg.word() - 2) as u16),
            idx.low,
            m1,
        )
        &&& s1 == (PcState { pc_reg: s1.pc_reg, sp_reg: s1.sp_reg, ..s0 })
        &&& s1.pc_reg.word() == pc1
        &&& s1.sp_reg.word() == wrap16(s0.sp_reg.word() - 2)
    } else if op == 0xe3 {
        // EX (SP),IX.
        &&& r is Ok
        &&& c1 == cycles_after(c0, 23)
        &&& s1 == (PcState {
            pc_reg: s1.pc_reg,
            ..with_index(s0, index, sel_index(s1, index))
        })
        &&& s1.pc_reg.word() == pc1
        &&& sel_index(s1, index).low == m0.mem()[s0.sp_reg.word()]
        &&& (exists|mid: M|
            (#[trigger] M::write_ok(m0, s0.sp_reg.value16(), idx.low, mid)) && sel_index(
                s1,
                index,
            ).high == mid.mem()[wrap16(s0.sp_reg.word() + 1)] && M::write_ok(
                mid,
                (wrap16(s0.sp_reg.word() + 1) as u16),
                idx.high,
                m1,
            ))
    } else if op == 0xbe {
        // CP (IX+d).
        let operand = m0.mem()[index_address(m0.mem(), pc1, idx.word())];
        &&& r is Ok
        &&& c1 == cycles_after(c0, 19)
        &&& m1 == m0
        &&& s1 == (PcState { af_reg: s1.af_reg, pc_reg: s1.pc_reg, ..s0 })
        &&& s1.pc_reg.word() == wrap16(s0.pc_reg.word() + 2)
        &&& s1.af_reg.high == a0
        &&& sub_flags(s0.f(), s1.f(), a0, operand, false)
    } else if op % 8 == 6 && op / 64 == 1 && (op / 8) % 8 != 6 {
        // LD r,(IX+d).
        let dst = reg8_sel_of((op / 8) % 8);
        let loaded = m0.mem()[index_address(m0.mem(), pc1, idx.value16() as int)];
        &&& r is Ok
        &&& c1 == cycles_after(c0, 19)
        &&& m1 == m0
        &&& s1 == (PcState { pc_reg: s1.pc_reg, ..s0.with8(dst, loaded) })
        &&& s1.pc_reg.word() == wrap16(s0.pc_reg.word() + 2)
    } else if op / 8 == 14 && op % 8 != 6 {
        // LD (IX+d),r.
        &&& r is Ok
        &&& c1 == cycles_after(c0, 19)
        &&& M::write_ok(
            m0,
            (index_address(m0.mem(), pc1, idx.word()) as u16),
            s0.sel8(reg8_sel_of(op % 8)),
            m1,
        )
        &&& s1 == (PcState { pc_reg: s1.pc_reg, ..s0 })
        &&& s1.pc_reg.word() == wrap16(s0.pc_reg.word() + 2)
    } else if op % 16 == 0x9 && op / 64 == 0 {
        // ADD IX,ss; register field 2 names the index register itself.
        let ss = (op / 16) % 4;
        let src = if ss == 2 {
            idx.value16()
        } else {
            (s0.sel16(reg16_sel_of(ss)) as u16)
        };
        &&& r is Ok
        &&& c1 == cycles_after(c0, 15)
        &&& m1 == m0
        &&& s1 == (PcState {
            af_reg: s1.af_reg,
            pc_reg: s1.pc_reg,
            ..with_index(s0, index, sel_index(s1, index))
        })
        &&& s1.pc_reg.word() == pc1
        &&& sel_index(s1, index).word() == add16_result(idx.value16(), src, false)
        &&& s1.af_reg.high == a0
        &&& s1.f().h() == bool_bit(add16_half(idx.value16(), src, false))
        &&& s1.f().c() == bool_bit(add16_carry(idx.value16(), src, false))
        &&& s1.f().n() == 0
        &&& s1.f().s() == s0.f().s()
        &&& s1.f().z() == s0.f().z()
        &&& s1.f().pv() == s0.f().pv()
        &&& s1.f().b3() == s0.f().b3()
        &&& s1.f().b5() == s0.f().b5()
    } else if op == 0x86 || op == 0x8e || op == 0x96 || op == 0xa6 || op == 0xae || op == 0xb6 {
        // The displaced-index arithmetic group on the accumulator.
        let operand = m0.mem()[index_address(m0.mem(), pc1, idx.word())];
        let carry = s0.f().c() == 1;
        &&& r is Ok
        &&& c1 == cycles_after(c0, 19)
        &&& m1 == m0
        &&& s1 == (PcState { af_reg: s1.af_reg, pc_reg: s1.pc_reg, ..s0 })
        &&& s1.pc_reg.word() == wrap16(s0.pc_reg.word() + 2)
        &&& (op == 0x86 ==> {
            &&& s1.af_reg.high == add8_result(a0, operand, false)
            &&& add_flags(s0.f(), s1.f(), a0, operand, false)
        })
        &&& (op == 0x8e ==> {
            &&& s1.af_reg.high == add8_result(a0, operand, carry)
            &&& add_flags(s0.f(), s1.f(), a0, operand, carry)
        })
        &&& (op == 0x96 ==> {
            &&& s1.af_reg.high == sub8_result(a0, operand, false)
            &&& sub_flags(s0.f(), s1.f(), a0, operand, false)
        })
        &&& (op == 0xa6 ==> {
            &&& s1.af_reg.high == (a0 & operand)
            &&& logic_flags(s0.f(), s1.f(), (a0 & operand), 1)
        })
        &&& (op == 0xae ==> {
            &&& s1.af_reg.high == (a0 ^ operand)
            &&& logic_flags(s0.f(), s1.f(), (a0 ^ operand), 0)
        })
        &&& (op == 0xb6 ==> {
            &&& s1.af_reg.high == (a0 | operand)
            &&& logic_flags(s0.f(), s1.f(), (a0 | operand), 0)
        })
    } else {
        &&& r == Result::<(), CpuError>::Err(
            CpuError::UnknownExtendedOpcode { prefix, opcode: op, pc: (pc1 as u16) },
        )
        &&& c1 == c0
        &&& m1 == m0
        &&& s1 == (PcState { pc_reg: s1.pc_reg, ..s0 })
        &&& s1.pc_reg.word() == pc1
    }
}

/// The flags an 8-bit addition leaves.
pub open spec fn add_flags(
    f0: PcStatusFlagFields,
    f1: PcStatusFlagFields,
    a: u8,
    b: u8,
    carry: bool,
) -> bool {
    &&& f1.c() == bool_bit(add8_carry(a, b, carry))
    &&& f1.h() == bool_bit(add8_half(a, b, carry))
    &&& f1.pv() == bool_bit(add8_overflow(a, b, carry))
    &&& f1.n() == 0
    &&& f1.s() == bool_bit(sign8(add8_result(a, b, carry)))
    &&& f1.z() == bool_bit(add8_result(a, b, carry) == 0)
    &&& f1.b3() == f0.b3()
    &&& f1.b5() == f0.b5()
}

/// The flags the logical operations leave: C and N cleared, H as the
/// operation has it, P/V the parity of the result, S and Z from it.
pub open spec fn logic_flags(
    f0: PcStatusFlagFields,
    f1: PcStatusFlagFields,
    result: u8,
    half: u8,
) -> bool {
    &&& f1.c() == 0
    &&& f1.n() == 0
    &&& f1.h() == half
    &&& f1.pv() == bool_bit(parity(result))
    &&& f1.s() == bool_bit(sign8(result))
    &&& f1.z() == bool_bit(result == 0)
    &&& f1.b3() == f0.b3()
    &&& f1.b5() == f0.b5()
}


/// What one opcode of the root table's register-load quadrant (0x40-0x7F,
/// HALT excepted) does: LD r,r', LD r,(HL) or LD (HL),r by the two
/// three-bit register fields.  The opcode byte is already consumed.
pub open spec fn ld_group_rel<M: MemoryRW>(
    op: u8,
    c0: u64,
    c1: u64,
    m0: M,
    m1: M,
    s0: PcState,
    s1: PcState,
    r: Result<(), CpuError>,
) -> bool {
    &&& r is Ok
    &&& if op % 8 == 6 {
        // LD r,(HL)
        let dst = reg8_sel_of((op / 8) % 8);
        &&& c1 == cycles_after(c0, 7)
        &&& m1 == m0
        &&& s1 == s0.with8(dst, m0.mem()[s0.hl_reg.word()])
    } else if op / 8 == 14 {
        // LD (HL),r
        &&& c1 == cycles_after(c0, 7)
        &&& M::write_ok(m0, s0.hl_reg.value16(), s0.sel8(reg8_sel_of(op % 8)), m1)
        &&& s1 == s0
    } else {
        // LD r,r'
        &&& c1 == cycles_after(c0, 4)
        &&& m1 == m0
        &&& s1 == s0.with8(reg8_sel_of((op / 8) % 8), s0.sel8(reg8_sel_of(op % 8)))
    }
}

/// What one opcode of the root table's arithmetic quadrant (0x80-0xBF)
/// does: ADD, ADC, SUB, SBC, AND, XOR, OR or CP of a register or of the
/// byte at HL into the accumulator, by the opcode's upper field.  The
/// opcode byte is already consumed.
pub open spec fn arith_group_rel<M: MemoryRW>(
    op: u8,
    c0: u64,
    c1: u64,
    m0: M,
    m1: M,
    s0: PcState,
    s1: PcState,
    r: Result<(), CpuError>,
) -> bool {
    let kind = (op / 8) % 8;
    let a0 = s0.af_reg.high;
    let operand = if op % 8 == 6 {
        m0.mem()[s0.hl_reg.word()]
    } else {
        s0.sel8(reg8_sel_of(op % 8))
    };
    let carry = s0.f().c() == 1;
    &&& r is Ok
    &&& c1 == cycles_after(
        c0,
        if op % 8 == 6 {
            7
        } else {
            4
        },
    )
    &&& m1 == m0
    &&& s1 == (PcState { af_reg: s1.af_reg, ..s0 })
    &&& (kind == 0 ==> s1.af_reg.high == add8_result(a0, operand, false) && add_flags(
        s0.f(),
        s1.f(),
        a0,
        operand,
        false,
    ))
    &&& (kind == 1 ==> s1.af_reg.high == add8_result(a0, operand, carry) && add_flags(
        s0.f(),
        s1.f(),
        a0,
        operand,
        carry,
    ))
    &&& (kind == 2 ==> s1.af_reg.high == sub8_result(a0, operand, false) && sub_flags(
        s0.f(),
        s1.f(),
        a0,
        operand,
        false,
    ))
    &&& (kind == 3 ==> s1.af_reg.high == sub8_result(a0, operand, carry) && sub_flags(
        s0.f(),
        s1.f(),
        a0,
        operand,
        carry,
    ))
    &&& (kind == 4 ==> s1.af_reg.high == (a0 & operand) && logic_flags(
        s0.f(),
        s1.f(),
        (a0 & operand),
        1,
    ))
    &&& (kind == 5 ==> s1.af_reg.high == (a0 ^ operand) && logic_flags(
        s0.f(),
        s1.f(),
        (a0 ^ operand),
        0,
    ))
    &&& (kind == 6 ==> s1.af_reg.high == (a0 | operand) && logic_flags(
        s0.f(),
        s1.f(),
        (a0 | operand),
        0,
    ))
    &&& (kind == 7 ==> s1.af_reg.high == a0 && sub_flags(s0.f(), s1.f(), a0, operand, false))
}


/// What one root-table operation other than the EI prefix does, stated per
/// opcode class over the machine state before and after it: `c0`/`c1` are
/// the cycle counts, `m0`/`m1` the memories, `s0`/`s1` the register files,
/// `p0`/`p1` the device lists and `r` the outcome.  The opcode byte is
/// already consumed; PC points at its operands.
pub open spec fn root_op_rel<M: MemoryRW, D: Device>(
    op: u8,
    c0: u64,
    c1: u64,
    m0: M,
    m1: M,
    s0: PcState,
    s1: PcState,
    p0: Seq<D>,
    p1: Seq<D>,
    r: Result<(), CpuError>,
) -> bool {
    &&& (op == 0x00 ==> ({
                &&& r is Ok
                &&& c1 == cycles_after(c0, 4)
                &&& s1 == s0
                &&& m1 == m0
                &&& p1 == p0
            }))
    &&& (op == 0x01 ==> ({
                &&& r is Ok
                &&& c1 == cycles_after(c0, 10)
                &&& s1.bc_reg.word() == word_in(
                    m0.mem(),
                    s0.pc_reg.word(),
                )
                &&& s1.pc_reg.word() == wrap16(s0.pc_reg.word() + 2)
                &&& s1 == (PcState {
                    bc_reg: s1.bc_reg,
                    pc_reg: s1.pc_reg,
                    ..s0
                })
                &&& m1 == m0
                &&& p1 == p0
            }))
    &&& (op == 0xC5 ==> ({
                &&& r is Ok
                &&& c1 == cycles_after(c0, 11)
                &&& s1.sp_reg.word() == wrap16(s0.sp_reg.word() - 2)
                &&& write2_ok(
                    m0,
                    (wrap16(s0.sp_reg.word() - 1) as u16),
                    s0.bc_reg.high,
                    (wrap16(s0.sp_reg.word() - 2) as u16),
                    s0.bc_reg.low,
                    m1,
                )
                &&& s1 == (PcState {
                    sp_reg: s1.sp_reg,
                    ..s0
                })
                &&& p1 == p0
            }))
    &&& (op == 0xC1 ==> ({
                &&& r is Ok
                &&& c1 == cycles_after(c0, 10)
                &&& s1.bc_reg.low == m0.mem()[s0.sp_reg.word()]
                &&& s1.bc_reg.high == m0.mem()[wrap16(
                    s0.sp_reg.word() + 1,
                )]
                &&& s1.sp_reg.word() == wrap16(s0.sp_reg.word() + 2)
                &&& s1 == (PcState {
                    bc_reg: s1.bc_reg,
                    sp_reg: s1.sp_reg,
                    ..s0
                })
                &&& m1 == m0
                &&& p1 == p0
            }))
    &&& (op == 0xF3 ==> ({
                &&& r is Ok
                &&& c1 == cycles_after(c0, 4)
                &&& s1 == (PcState { iff1: false, iff2: false, ..s0 })
                &&& m1 == m0
                &&& p1 == p0
            }))
    &&& (op / 64 == 1 && op != 0x76 ==> p1 == p0
                && ld_group_rel(
                op,
                c0,
                c1,
                m0,
                m1,
                s0,
                s1,
                r,
            ))
    &&& (op == 0x76 ==> ({
                &&& r is Ok
                &&& c1 == cycles_after(c0, 4)
                &&& s1.pc_reg.word() == wrap16(s0.pc_reg.word() - 1)
                &&& s1 == (PcState {
                    pc_reg: s1.pc_reg,
                    ..s0
                })
                &&& m1 == m0
                &&& p1 == p0
            }))
    &&& (op / 64 == 2 ==> p1 == p0 && arith_group_rel(
                op,
                c0,
                c1,
                m0,
                m1,
                s0,
                s1,
                r,
            ))
    &&& (op % 8 == 2 && op / 64 == 3 ==> ({
                let taken = condition_of(s0.f(), (op / 8) % 8);
                &&& r is Ok
                &&& c1 == cycles_after(c0, 10)
                &&& m1 == m0
                &&& p1 == p0
                &&& s1 == (PcState {
                    pc_reg: s1.pc_reg,
                    ..s0
                })
                &&& s1.pc_reg.word() == (if taken {
                    word_in(m0.mem(), s0.pc_reg.word())
                } else {
                    wrap16(s0.pc_reg.word() + 2)
                })
            }))
    &&& (op % 8 == 0 && op / 64 == 3 ==> ({
                let taken = condition_of(s0.f(), (op / 8) % 8);
                &&& r is Ok
                &&& m1 == m0
                &&& p1 == p0
                &&& c1 == cycles_after(
                    c0,
                    if taken {
                        11
                    } else {
                        5
                    },
                )
                &&& s1 == (PcState {
                    pc_reg: s1.pc_reg,
                    sp_reg: s1.sp_reg,
                    ..s0
                })
                &&& (taken ==> ({
                    &&& s1.pc_reg.low == m0.mem()[s0.sp_reg.word()]
                    &&& s1.pc_reg.high == m0.mem()[wrap16(
                        s0.sp_reg.word() + 1,
                    )]
                    &&& s1.sp_reg.word() == wrap16(s0.sp_reg.word() + 2)
                }))
                &&& (!taken ==> s1 == s0)
            }))
    &&& (op % 8 == 4 && op / 64 == 3 ==> ({
                let taken = condition_of(s0.f(), (op / 8) % 8);
                &&& r is Ok
                &&& p1 == p0
                &&& c1 == cycles_after(
                    c0,
                    if taken {
                        17
                    } else {
                        10
                    },
                )
                &&& s1 == (PcState {
                    pc_reg: s1.pc_reg,
                    sp_reg: s1.sp_reg,
                    ..s0
                })
                &&& (taken ==> ({
                    &&& s1.sp_reg.word() == wrap16(s0.sp_reg.word() - 2)
                    &&& write2_ok(
                        m0,
                        (wrap16(s0.sp_reg.word() - 1) as u16),
                        crate::pc_state::hi(
                            (wrap16(s0.pc_reg.word() + 2) as u16),
                        ),
                        (wrap16(s0.sp_reg.word() - 2) as u16),
                        crate::pc_state::lo(
                            (wrap16(s0.pc_reg.word() + 2) as u16),
                        ),
                        m1,
                    )
                    &&& s1.pc_reg.word() == word_in(
                        m1.mem(),
                        s0.pc_reg.word(),
                    )
                }))
                &&& (!taken ==> ({
                    &&& s1.pc_reg.word() == wrap16(s0.pc_reg.word() + 2)
                    &&& s1.sp_reg == s0.sp_reg
                    &&& m1 == m0
                }))
            }))
    &&& (op % 8 == 7 && op / 64 == 3 ==> ({
                &&& r is Ok
                &&& c1 == cycles_after(c0, 11)
                &&& p1 == p0
                &&& s1.sp_reg.word() == wrap16(s0.sp_reg.word() - 2)
                &&& write2_ok(
                    m0,
                    (wrap16(s0.sp_reg.word() - 1) as u16),
                    s0.pc_reg.high,
                    (wrap16(s0.sp_reg.word() - 2) as u16),
                    s0.pc_reg.low,
                    m1,
                )
                &&& s1.pc_reg.word() == ((op / 8) % 8) * 8
                &&& s1 == (PcState {
                    pc_reg: s1.pc_reg,
                    sp_reg: s1.sp_reg,
                    ..s0
                })
            }))
    &&& (op % 8 == 4 && op / 64 == 0 && (op / 8) % 8 != 6 ==> ({
                let dst = reg8_sel_of((op / 8) % 8);
                let nv = ((s0.sel8(dst) + 1) % 256) as u8;
                &&& r is Ok
                &&& c1 == cycles_after(c0, 4)
                &&& m1 == m0
                &&& p1 == p0
                &&& s1 == (PcState {
                    af_reg: s1.af_reg,
                    ..s0.with8(dst, nv)
                })
                &&& s1.af_reg.high == s0.with8(dst, nv).af_reg.high
                &&& s1.f().n() == 0
                &&& s1.f().h() == bool_bit(nv % 16 == 0)
                &&& s1.f().pv() == bool_bit(nv == 0x80)
                &&& s1.f().s() == bool_bit(sign8(nv))
                &&& s1.f().z() == bool_bit(nv == 0)
                &&& s1.f().c() == s0.f().c()
                &&& s1.f().b3() == s0.f().b3()
                &&& s1.f().b5() == s0.f().b5()
            }))
    &&& (op % 8 == 5 && op / 64 == 0 && (op / 8) % 8 != 6 ==> ({
                let dst = reg8_sel_of((op / 8) % 8);
                let nv = ((s0.sel8(dst) - 1) % 256) as u8;
                &&& r is Ok
                &&& c1 == cycles_after(c0, 4)
                &&& m1 == m0
                &&& p1 == p0
                &&& s1 == (PcState {
                    af_reg: s1.af_reg,
                    ..s0.with8(dst, nv)
                })
                &&& s1.af_reg.high == s0.with8(dst, nv).af_reg.high
                &&& s1.f().n() == 1
                &&& s1.f().h() == bool_bit(nv % 16 == 0xF)
                &&& s1.f().pv() == bool_bit(nv == 0x7F)
                &&& s1.f().s() == bool_bit(sign8(nv))
                &&& s1.f().z() == bool_bit(nv == 0)
                &&& s1.f().c() == s0.f().c()
                &&& s1.f().b3() == s0.f().b3()
                &&& s1.f().b5() == s0.f().b5()
            }))
    &&& (op % 8 == 6 && op / 64 == 0 && (op / 8) % 8 != 6 ==> ({
                let dst = reg8_sel_of((op / 8) % 8);
                &&& r is Ok
                &&& c1 == cycles_after(c0, 7)
                &&& m1 == m0
                &&& p1 == p0
                &&& s1.pc_reg.word() == wrap16(s0.pc_reg.word() + 1)
                &&& s1 == (PcState {
                    pc_reg: s1.pc_reg,
                    ..s0.with8(
                        dst,
                        m0.mem()[s0.pc_reg.word()],
                    )
                })
            }))
    &&& (op % 16 == 0x3 && op / 64 == 0 ==> ({
                let sel = reg16_sel_of((op / 16) % 4);
                &&& r is Ok
                &&& c1 == cycles_after(c0, 6)
                &&& m1 == m0
                &&& p1 == p0
                &&& s1 == s0.with16(
                    sel,
                    (wrap16(s0.sel16(sel) + 1) as u16),
                )
            }))
    &&& (op % 16 == 0xB && op / 64 == 0 ==> ({
                let sel = reg16_sel_of((op / 16) % 4);
                &&& r is Ok
                &&& c1 == cycles_after(c0, 6)
                &&& m1 == m0
                &&& p1 == p0
                &&& s1 == s0.with16(
                    sel,
                    (wrap16(s0.sel16(sel) - 1) as u16),
                )
            }))
    &&& (op % 16 == 0x9 && op / 64 == 0 ==> ({
                let src = (s0.sel16(reg16_sel_of((op / 16) % 4)) as u16);
                let hl0 = s0.hl_reg.value16();
                &&& r is Ok
                &&& c1 == cycles_after(c0, 11)
                &&& m1 == m0
                &&& p1 == p0
                &&& s1 == (PcState {
                    af_reg: s1.af_reg,
                    hl_reg: s1.hl_reg,
                    ..s0
                })
                &&& s1.hl_reg.word() == add16_result(hl0, src, false)
                &&& s1.af_reg.high == s0.af_reg.high
                &&& s1.f().h() == bool_bit(add16_half(hl0, src, false))
                &&& s1.f().c() == bool_bit(add16_carry(hl0, src, false))
                &&& s1.f().n() == 0
                &&& s1.f().s() == s0.f().s()
                &&& s1.f().z() == s0.f().z()
                &&& s1.f().pv() == s0.f().pv()
                &&& s1.f().b3() == s0.f().b3()
                &&& s1.f().b5() == s0.f().b5()
            }))
    &&& (op == 0xCB ==> p1 == p0 && cb_rel(
                c0,
                c1,
                m0,
                m1,
                s0,
                s1,
                r,
            ))
    &&& (op == 0xDD ==> p1 == p0 && index_rel(
                IndexReg::IX,
                c0,
                c1,
                m0,
                m1,
                s0,
                s1,
                r,
            ))
    &&& (op == 0xFD ==> p1 == p0 && index_rel(
                IndexReg::IY,
                c0,
                c1,
                m0,
                m1,
                s0,
                s1,
                r,
            ))
    &&& (op == 0xED ==> ed_rel(
                c0,
                c1,
                m0,
                m1,
                s0,
                s1,
                p0,
                p1,
                r,
            ))
    &&& (op % 8 == 6 && op / 64 == 3 ==> ({
        // The immediate arithmetic and logic group: the operand byte
        // follows the opcode.
        let kind = (op / 8) % 8;
        let a0 = s0.af_reg.high;
        let operand = m0.mem()[s0.pc_reg.word()];
        let carry = s0.f().c() == 1;
        &&& r is Ok
        &&& c1 == cycles_after(c0, 7)
        &&& m1 == m0
        &&& p1 == p0
        &&& s1 == (PcState { af_reg: s1.af_reg, pc_reg: s1.pc_reg, ..s0 })
        &&& s1.pc_reg.word() == wrap16(s0.pc_reg.word() + 1)
        &&& (kind == 0 ==> s1.af_reg.high == add8_result(a0, operand, false) && add_flags(
            s0.f(),
            s1.f(),
            a0,
            operand,
            false,
        ))
        &&& (kind == 1 ==> s1.af_reg.high == add8_result(a0, operand, carry) && add_flags(
            s0.f(),
            s1.f(),
            a0,
            operand,
            carry,
        ))
        &&& (kind == 2 ==> s1.af_reg.high == sub8_result(a0, operand, false) && sub_flags(
            s0.f(),
            s1.f(),
            a0,
            operand,
            false,
        ))
        &&& (kind == 3 ==> s1.af_reg.high == sub8_result(a0, operand, carry) && sub_flags(
            s0.f(),
            s1.f(),
            a0,
            operand,
            carry,
        ))
        &&& (kind == 4 ==> s1.af_reg.high == (a0 & operand) && logic_flags(
            s0.f(),
            s1.f(),
            (a0 & operand),
            1,
        ))
        &&& (kind == 5 ==> s1.af_reg.high == (a0 ^ operand) && logic_flags(
            s0.f(),
            s1.f(),
            (a0 ^ operand),
            0,
        ))
        &&& (kind == 6 ==> s1.af_reg.high == (a0 | operand) && logic_flags(
            s0.f(),
            s1.f(),
            (a0 | operand),
            0,
        ))
        &&& (kind == 7 ==> s1.af_reg.high == a0 && sub_flags(s0.f(), s1.f(), a0, operand, false))
    }))
    &&& (op == 0xC9 ==> ({
        &&& r is Ok
        &&& c1 == cycles_after(c0, 10)
        &&& m1 == m0
        &&& p1 == p0
        &&& s1 == (PcState { pc_reg: s1.pc_reg, sp_reg: s1.sp_reg, ..s0 })
        &&& s1.pc_reg.low == m0.mem()[s0.sp_reg.word()]
        &&& s1.pc_reg.high == m0.mem()[wrap16(s0.sp_reg.word() + 1)]
        &&& s1.sp_reg.word() == wrap16(s0.sp_reg.word() + 2)
    }))
    &&& (op == 0xCD ==> ({
        &&& r is Ok
        &&& c1 == cycles_after(c0, 17)
        &&& p1 == p0
        &&& s1 == (PcState { pc_reg: s1.pc_reg, sp_reg: s1.sp_reg, ..s0 })
        &&& s1.sp_reg.word() == wrap16(s0.sp_reg.word() - 2)
        &&& write2_ok(
            m0,
            (wrap16(s0.sp_reg.word() - 1) as u16),
            crate::pc_state::hi((wrap16(s0.pc_reg.word() + 2) as u16)),
            (wrap16(s0.sp_reg.word() - 2) as u16),
            crate::pc_state::lo((wrap16(s0.pc_reg.word() + 2) as u16)),
            m1,
        )
        &&& s1.pc_reg.word() == word_in(m1.mem(), s0.pc_reg.word())
    }))
    &&& (op == 0xD1 || op == 0xE1 || op == 0xF1 ==> ({
        let popped = if op == 0xD1 {
            s1.de_reg
        } else if op == 0xE1 {
            s1.hl_reg
        } else {
            s1.af_reg
        };
        &&& r is Ok
        &&& c1 == cycles_after(c0, 10)
        &&& m1 == m0
        &&& p1 == p0
        &&& popped.low == m0.mem()[s0.sp_reg.word()]
        &&& popped.high == m0.mem()[wrap16(s0.sp_reg.word() + 1)]
        &&& s1.sp_reg.word() == wrap16(s0.sp_reg.word() + 2)
        &&& (op == 0xD1 ==> s1 == (PcState { de_reg: s1.de_reg, sp_reg: s1.sp_reg, ..s0 }))
        &&& (op == 0xE1 ==> s1 == (PcState { hl_reg: s1.hl_reg, sp_reg: s1.sp_reg, ..s0 }))
        &&& (op == 0xF1 ==> s1 == (PcState { af_reg: s1.af_reg, sp_reg: s1.sp_reg, ..s0 }))
    }))
    &&& (op == 0xD5 || op == 0xE5 || op == 0xF5 ==> ({
        let pushed = if op == 0xD5 {
            s0.de_reg
        } else if op == 0xE5 {
            s0.hl_reg
        } else {
            s0.af_reg
        };
        &&& r is Ok
        &&& c1 == cycles_after(c0, 11)
        &&& p1 == p0
        &&& s1 == (PcState { sp_reg: s1.sp_reg, ..s0 })
        &&& s1.sp_reg.word() == wrap16(s0.sp_reg.word() - 2)
        &&& write2_ok(
            m0,
            (wrap16(s0.sp_reg.word() - 1) as u16),
            pushed.high,
            (wrap16(s0.sp_reg.word() - 2) as u16),
            pushed.low,
            m1,
        )
    }))
    &&& (op == 0xC3 ==> ({
        &&& r is Ok
        &&& c1 == cycles_after(c0, 10)
        &&& m1 == m0
        &&& p1 == p0
        &&& s1 == (PcState { pc_reg: s1.pc_reg, ..s0 })
        &&& s1.pc_reg.word() == word_in(m0.mem(), s0.pc_reg.word())
    }))
    &&& (op == 0xE9 ==> ({
        &&& r is Ok
        &&& c1 == cycles_after(c0, 4)
        &&& m1 == m0
        &&& p1 == p0
        &&& s1 == (PcState { pc_reg: s1.pc_reg, ..s0 })
        &&& s1.pc_reg.word() == s0.hl_reg.word()
    }))
    &&& (op == 0xEB ==> ({
        &&& r is Ok
        &&& c1 == cycles_after(c0, 4)
        &&& m1 == m0
        &&& p1 == p0
        &&& s1 == (PcState { de_reg: s0.hl_reg, hl_reg: s0.de_reg, ..s0 })
    }))
    &&& (op == 0xD9 ==> ({
        &&& r is Ok
        &&& c1 == cycles_after(c0, 4)
        &&& m1 == m0
        &&& p1 == p0
        &&& s1 == (PcState {
            bc_reg: s0.shadow_bc_reg,
            de_reg: s0.shadow_de_reg,
            hl_reg: s0.shadow_hl_reg,
            shadow_bc_reg: s0.bc_reg,
            shadow_de_reg: s0.de_reg,
            shadow_hl_reg: s0.hl_reg,
            ..s0
        })
    }))
    &&& (op == 0xF9 ==> ({
        &&& r is Ok
        &&& c1 == cycles_after(c0, 6)
        &&& m1 == m0
        &&& p1 == p0
        &&& s1 == (PcState { sp_reg: s1.sp_reg, ..s0 })
        &&& s1.sp_reg.word() == s0.hl_reg.word()
    }))
    &&& (op == 0xD3 ==> ({
        &&& r is Ok
        &&& c1 == cycles_after(c0, 11)
        &&& m1 == m0
        &&& s1 == (PcState { pc_reg: s1.pc_reg, ..s0 })
        &&& s1.pc_reg.word() == wrap16(s0.pc_reg.word() + 1)
        &&& p1.len() == p0.len()
        &&& (forall|j: int|
            0 <= j < p0.len() ==> (#[trigger] p1[j]) == p0[j].after_write(
                c0,
                m0.mem()[s0.pc_reg.word()],
                s0.af_reg.high,
            ))
    }))
    &&& (op == 0xDB ==> ({
        &&& r is Ok
        &&& c1 == cycles_after(c0, 11)
        &&& m1 == m0
        &&& s1 == (PcState {
            pc_reg: s1.pc_reg,
            ..s0.with8(Reg8Sel::A, s1.af_reg.high)
        })
        &&& s1.pc_reg.word() == wrap16(s0.pc_reg.word() + 1)
        &&& port_read_rel(p0, p1, c0, m0.mem()[s0.pc_reg.word()], s1.af_reg.high)
    }))
    &&& (op == 0xE3 ==> ({
        &&& r is Ok
        &&& c1 == cycles_after(c0, 19)
        &&& p1 == p0
        &&& s1 == (PcState { hl_reg: s1.hl_reg, ..s0 })
        &&& s1.hl_reg.low == m0.mem()[s0.sp_reg.word()]
        &&& (exists|mid: M|
            (#[trigger] M::write_ok(m0, s0.sp_reg.value16(), s0.hl_reg.low, mid))
                && s1.hl_reg.high == mid.mem()[wrap16(s0.sp_reg.word() + 1)] && M::write_ok(
                mid,
                (wrap16(s0.sp_reg.word() + 1) as u16),
                s0.hl_reg.high,
                m1,
            ))
    }))
    &&& (op == 0x02 || op == 0x12 ==> ({
        let address = if op == 0x02 {
            s0.bc_reg
        } else {
            s0.de_reg
        };
        &&& r is Ok
        &&& c1 == cycles_after(c0, 7)
        &&& p1 == p0
        &&& M::write_ok(m0, address.value16(), s0.af_reg.high, m1)
        &&& s1 == s0
    }))
    &&& (op == 0x0A || op == 0x1A ==> ({
        let address = if op == 0x0A {
            s0.bc_reg.word()
        } else {
            s0.de_reg.word()
        };
        &&& r is Ok
        &&& c1 == cycles_after(c0, 7)
        &&& m1 == m0
        &&& p1 == p0
        &&& s1 == s0.with8(Reg8Sel::A, m0.mem()[address])
    }))
    &&& (op == 0x07 || op == 0x0F || op == 0x17 || op == 0x1F ==> ({
        // The accumulator rotates: only C, H and N change among the flags.
        let a0 = s0.af_reg.high;
        let rotated = if op == 0x07 {
            crate::instruction_set::rlc_val(a0)
        } else if op == 0x0F {
            crate::instruction_set::rrc_val(a0)
        } else if op == 0x17 {
            crate::instruction_set::rl_val(a0, s0.f().c() == 1)
        } else {
            crate::instruction_set::rr_val(a0, s0.f().c() == 1)
        };
        let out_bit = if op == 0x07 || op == 0x17 {
            crate::instruction_set::bit7_set(a0)
        } else {
            crate::instruction_set::bit0_set(a0)
        };
        &&& r is Ok
        &&& c1 == cycles_after(c0, 4)
        &&& m1 == m0
        &&& p1 == p0
        &&& s1 == (PcState { af_reg: s1.af_reg, ..s0 })
        &&& s1.af_reg.high == rotated
        &&& s1.f().c() == bool_bit(out_bit)
        &&& s1.f().h() == 0
        &&& s1.f().n() == 0
        &&& s1.f().pv() == s0.f().pv()
        &&& s1.f().s() == s0.f().s()
        &&& s1.f().z() == s0.f().z()
        &&& s1.f().b3() == s0.f().b3()
        &&& s1.f().b5() == s0.f().b5()
    }))
    &&& (op == 0x11 || op == 0x21 || op == 0x31 ==> ({
        let loaded = if op == 0x11 {
            s1.de_reg
        } else if op == 0x21 {
            s1.hl_reg
        } else {
            s1.sp_reg
        };
        &&& r is Ok
        &&& c1 == cycles_after(c0, 10)
        &&& m1 == m0
        &&& p1 == p0
        &&& loaded.word() == word_in(m0.mem(), s0.pc_reg.word())
        &&& s1.pc_reg.word() == wrap16(s0.pc_reg.word() + 2)
        &&& (op == 0x11 ==> s1 == (PcState { de_reg: s1.de_reg, pc_reg: s1.pc_reg, ..s0 }))
        &&& (op == 0x21 ==> s1 == (PcState { hl_reg: s1.hl_reg, pc_reg: s1.pc_reg, ..s0 }))
        &&& (op == 0x31 ==> s1 == (PcState { sp_reg: s1.sp_reg, pc_reg: s1.pc_reg, ..s0 }))
    }))
    &&& (op == 0x2A ==> ({
        &&& r is Ok
        &&& c1 == cycles_after(c0, 16)
        &&& m1 == m0
        &&& p1 == p0
        &&& s1 == (PcState { hl_reg: s1.hl_reg, pc_reg: s1.pc_reg, ..s0 })
        &&& s1.hl_reg.word() == word_in(m0.mem(), word_in(m0.mem(), s0.pc_reg.word()))
        &&& s1.pc_reg.word() == wrap16(s0.pc_reg.word() + 2)
    }))
    &&& (op == 0x18 || (op % 8 == 0 && 0x20 <= op < 0x40) ==> ({
        // The relative jumps: JR e always taken, JR cc,e on NZ, Z, NC, C.
        let taken = op == 0x18 || condition_of(s0.f(), ((op / 8) % 8 - 4) as u8);
        &&& r is Ok
        &&& m1 == m0
        &&& p1 == p0
        &&& c1 == cycles_after(
            c0,
            if taken {
                12
            } else {
                7
            },
        )
        &&& s1 == (PcState { pc_reg: s1.pc_reg, ..s0 })
        &&& s1.pc_reg.word() == (if taken {
            wrap16(
                s0.pc_reg.word() + crate::pc_state::as_i8(m0.mem()[s0.pc_reg.word()]) + 1,
            )
        } else {
            wrap16(s0.pc_reg.word() + 1)
        })
    }))
    &&& (op == 0x10 ==> ({
        let new_b = ((s0.bc_reg.high - 1) % 256) as u8;
        &&& r is Ok
        &&& m1 == m0
        &&& p1 == p0
        &&& s1 == (PcState { bc_reg: s1.bc_reg, pc_reg: s1.pc_reg, ..s0 })
        &&& s1.bc_reg.high == new_b
        &&& s1.bc_reg.low == s0.bc_reg.low
        &&& c1 == cycles_after(
            c0,
            if new_b != 0 {
                13
            } else {
                8
            },
        )
        &&& s1.pc_reg.word() == (if new_b != 0 {
            wrap16(
                s0.pc_reg.word() + crate::pc_state::as_i8(m0.mem()[s0.pc_reg.word()]) + 1,
            )
        } else {
            wrap16(s0.pc_reg.word() + 1)
        })
    }))
    &&& (op == 0x34 || op == 0x35 ==> ({
        let hl0 = s0.hl_reg.word();
        let nv = (if op == 0x34 {
            (m0.mem()[hl0] + 1) % 256
        } else {
            (m0.mem()[hl0] - 1) % 256
        }) as u8;
        &&& r is Ok
        &&& c1 == cycles_after(c0, 11)
        &&& p1 == p0
        &&& M::write_ok(m0, s0.hl_reg.value16(), nv, m1)
        &&& s1 == (PcState { af_reg: s1.af_reg, ..s0 })
        &&& s1.af_reg.high == s0.af_reg.high
        &&& s1.f().n() == (if op == 0x34 {
            0u8
        } else {
            1u8
        })
        &&& s1.f().h() == bool_bit(
            if op == 0x34 {
                nv % 16 == 0
            } else {
                nv % 16 == 0xF
            },
        )
        &&& s1.f().pv() == bool_bit(
            if op == 0x34 {
                nv == 0x80
            } else {
                nv == 0x7F
            },
        )
        &&& s1.f().s() == bool_bit(sign8(nv))
        &&& s1.f().z() == bool_bit(nv == 0)
        &&& s1.f().c() == s0.f().c()
        &&& s1.f().b3() == s0.f().b3()
        &&& s1.f().b5() == s0.f().b5()
    }))
    &&& (op == 0x36 ==> ({
        &&& r is Ok
        &&& c1 == cycles_after(c0, 10)
        &&& p1 == p0
        &&& M::write_ok(m0, s0.hl_reg.value16(), m0.mem()[s0.pc_reg.word()], m1)
        &&& s1 == (PcState { pc_reg: s1.pc_reg, ..s0 })
        &&& s1.pc_reg.word() == wrap16(s0.pc_reg.word() + 1)
    }))
    &&& (op == 0x3A ==> ({
        &&& r is Ok
        &&& c1 == cycles_after(c0, 13)
        &&& m1 == m0
        &&& p1 == p0
        &&& s1 == (PcState {
            pc_reg: s1.pc_reg,
            ..s0.with8(Reg8Sel::A, m0.mem()[word_in(m0.mem(), s0.pc_reg.word())])
        })
        &&& s1.pc_reg.word() == wrap16(s0.pc_reg.word() + 2)
    }))
    &&& (op == 0x32 ==> ({
        &&& r is Ok
        &&& c1 == cycles_after(c0, 13)
        &&& p1 == p0
        &&& M::write_ok(
            m0,
            (word_in(m0.mem(), s0.pc_reg.word()) as u16),
            s0.af_reg.high,
            m1,
        )
        &&& s1 == (PcState { pc_reg: s1.pc_reg, ..s0 })
        &&& s1.pc_reg.word() == wrap16(s0.pc_reg.word() + 2)
    }))
    &&& (op == 0x22 ==> ({
        &&& r is Ok
        &&& c1 == cycles_after(c0, 16)
        &&& p1 == p0
        &&& s1 == (PcState { pc_reg: s1.pc_reg, ..s0 })
        &&& s1.pc_reg.word() == wrap16(s0.pc_reg.word() + 2)
        &&& (exists|mid: M|
            (#[trigger] M::write_ok(
                m0,
                (word_in(m0.mem(), s0.pc_reg.word()) as u16),
                s0.hl_reg.low,
                mid,
            )) && M::write_ok(
                mid,
                (wrap16(word_in(mid.mem(), s0.pc_reg.word()) + 1) as u16),
                s0.hl_reg.high,
                m1,
            ))
    }))
    &&& (op == 0x08 ==> ({
        &&& r is Ok
        &&& c1 == cycles_after(c0, 4)
        &&& m1 == m0
        &&& p1 == p0
        &&& s1 == (PcState { af_reg: s0.shadow_af_reg, shadow_af_reg: s0.af_reg, ..s0 })
    }))
    &&& (op == 0x27 ==> ({
        let a0 = s0.af_reg.high;
        let adjusted = crate::instruction_set::daa_result(a0, s0.f());
        &&& r is Ok
        &&& c1 == cycles_after(c0, 4)
        &&& m1 == m0
        &&& p1 == p0
        &&& s1 == (PcState { af_reg: s1.af_reg, ..s0 })
        &&& s1.af_reg.high == adjusted
        &&& s1.f().c() == crate::instruction_set::daa_carry(a0, s0.f())
        &&& s1.f().h() == crate::instruction_set::daa_half(a0, s0.f())
        &&& s1.f().n() == s0.f().n()
        &&& s1.f().pv() == bool_bit(parity(adjusted))
        &&& s1.f().s() == bool_bit(sign8(adjusted))
        &&& s1.f().z() == bool_bit(adjusted == 0)
        &&& s1.f().b3() == s0.f().b3()
        &&& s1.f().b5() == s0.f().b5()
    }))
    &&& (op == 0x2F ==> ({
        &&& r is Ok
        &&& c1 == cycles_after(c0, 4)
        &&& m1 == m0
        &&& p1 == p0
        &&& s1 == (PcState { af_reg: s1.af_reg, ..s0 })
        &&& s1.af_reg.high == s0.af_reg.high ^ 0xFF
        &&& s1.f().h() == 1
        &&& s1.f().n() == 1
        &&& s1.f().c() == s0.f().c()
        &&& s1.f().pv() == s0.f().pv()
        &&& s1.f().s() == s0.f().s()
        &&& s1.f().z() == s0.f().z()
        &&& s1.f().b3() == s0.f().b3()
        &&& s1.f().b5() == s0.f().b5()
    }))
    &&& (op == 0x37 || op == 0x3F ==> ({
        &&& r is Ok
        &&& c1 == cycles_after(c0, 4)
        &&& m1 == m0
        &&& p1 == p0
        &&& s1 == (PcState { af_reg: s1.af_reg, ..s0 })
        &&& s1.af_reg.high == s0.af_reg.high
        &&& s1.f().c() == (if op == 0x37 {
            1u8
        } else if s0.f().c() == 1 {
            0u8
        } else {
            1u8
        })
        &&& s1.f().h() == (if op == 0x37 {
            0u8
        } else {
            s0.f().c()
        })
        &&& s1.f().n() == 0
        &&& s1.f().pv() == s0.f().pv()
        &&& s1.f().s() == s0.f().s()
        &&& s1.f().z() == s0.f().z()
        &&& s1.f().b3() == s0.f().b3()
        &&& s1.f().b5() == s0.f().b5()
    }))
}

/// Names one intermediate machine state, so that a contract can quantify
/// over the outcome of an inline-executed instruction.
pub open spec fn op_trace<M: MemoryRW, D: Device>(
    cycles: u64,
    memory: M,
    registers: PcState,
    devices: Seq<D>,
) -> bool {
    true
}

/// The opcode decode tree.
pub struct Instruction {}

impl Instruction {
    /// Execute one fetched root-table opcode.  The program counter has
    /// already stepped past the opcode byte.  An opcode with no matching
    /// rule stops the engine with a diagnostic.
    #[verifier::spinoff_prover]
    #[verifier::rlimit(100)]
    pub fn execute<M: MemoryRW, D: Device>(
        op_code: u8,
        clock: &mut Clock,
        memory: &mut M,
        pc_state: &mut PcState,
        ports: &mut Ports<D>,
        interruptor: &mut Interruptor,
    ) -> (r: Result<(), CpuError>)
        requires
            old(memory).inv(),
            old(ports).inv(),
        ensures
            final(memory).inv(),
            final(ports).inv(),
            root_op_rel(
                op_code,
                old(clock).cycles,
                final(clock).cycles,
                *old(memory),
                *final(memory),
                *old(pc_state),
                *final(pc_state),
                old(ports).devices@,
                final(ports).devices@,
                r,
            ),
            op_code == 0xFB && r is Ok ==> final(pc_state).iff1 && final(pc_state).iff2,
            op_code == 0xFB && old(memory).mem()[old(pc_state).pc_reg.word()] != 0xFB ==> (exists|
                cm: u64,
                mm: M,
                sm: PcState,
                pm: Seq<D>,
            |
                (#[trigger] op_trace(cm, mm, sm, pm)) && ({
                    // The instruction X that follows the EI opcode runs
                    // inline first, from the state where PC has stepped
                    // past it; only then do the flip-flops rise, EI's own
                    // four T-states are charged on top of X's, and PC rests
                    // wherever X left it.
                    let fetched = PcState {
                        pc_reg: reg16_of((wrap16(old(pc_state).pc_reg.word() + 1) as u16)),
                        ..*old(pc_state)
                    };
                    match r {
                        Result::Ok(()) => {
                            &&& root_op_rel(
                                old(memory).mem()[old(pc_state).pc_reg.word()],
                                old(clock).cycles,
                                cm,
                                *old(memory),
                                mm,
                                fetched,
                                sm,
                                old(ports).devices@,
                                pm,
                                Result::<(), CpuError>::Ok(()),
                            )
                            &&& final(clock).cycles == cycles_after(cm, 4)
                            &&& *final(pc_state) == (PcState { iff1: true, iff2: true, ..sm })
                            &&& *final(memory) == mm
                            &&& final(ports).devices@ == pm
                        },
                        Result::Err(fault) => {
                            &&& root_op_rel(
                                old(memory).mem()[old(pc_state).pc_reg.word()],
                                old(clock).cycles,
                                cm,
                                *old(memory),
                                mm,
                                fetched,
                                sm,
                                old(ports).devices@,
                                pm,
                                r,
                            )
                            &&& final(clock).cycles == cm
                            &&& *final(pc_state) == sm
                            &&& *final(memory) == mm
                            &&& final(ports).devices@ == pm
                        },
                    }
                })),
    {
        if op_code == 0xfb {
            // EI quirk: the instruction that follows is always executed
            // before interrupts can be accepted, so run it inline first and
            // only then raise the flip-flops (once per EI seen).  A memory
            // consisting of nothing but EI opcodes never reaches a
            // following instruction and is reported as a fatal condition.
            let ghost first_op = old(memory).mem()[old(pc_state).pc_reg.word()];
            let mut enables: u32 = 1;
            let mut next_op: u8 = memory.read(pc_state.get_pc());
            pc_state.increment_pc(1);
            proof {
                lemma_reg16_bytes(pc_state.pc_reg);
            }
            let ghost fetched_state = *pc_state;
            proof {
                assert(fetched_state == (PcState {
                    pc_reg: reg16_of((wrap16(old(pc_state).pc_reg.word() + 1) as u16)),
                    ..*old(pc_state)
                }));
            }
            while next_op == 0xfb && enables <= 0x10000
                invariant
                    memory.inv(),
                    ports.inv(),
                    1 <= enables <= 0x10001,
                    *memory == *old(memory),
                    ports.devices@ == old(ports).devices@,
                    clock.cycles == old(clock).cycles,
                    next_op == 0xfb ==> first_op == 0xfb,
                    first_op != 0xfb ==> enables == 1 && next_op == first_op && *pc_state
                        == fetched_state,
                decreases 0x10001 - enables,
            {
                enables = enables + 1;
                next_op = memory.read(pc_state.get_pc());
                pc_state.increment_pc(1);
            }
            if next_op == 0xfb {
                // The whole address space is EI opcodes, so no following
                // instruction exists to execute: the engine cannot finish
                // this step and reports the EI byte itself as the variant
                // it cannot carry out.
                return Err(
                    CpuError::Unimplemented { prefix: 0xfb, opcode: 0xfb, pc: pc_state.get_pc() },
                );
            }
            let inner = Self::execute_operation(
                next_op,
                clock,
                memory,
                pc_state,
                ports,
                interruptor,
            );
            let ghost mid_cycles = clock.cycles;
            let ghost mid_memory = *memory;
            let ghost mid_state = *pc_state;
            let ghost mid_devices = ports.devices@;
            proof {
                assert(op_trace(mid_cycles, mid_memory, mid_state, mid_devices));
            }
            match inner {
                Result::Ok(()) => {},
                Result::Err(fault) => {
                    return Err(fault);
                },
            }
            let mut applied: u32 = 0;
            while applied < enables
                invariant
                    memory.inv(),
                    ports.inv(),
                    applied <= enables,
                    applied > 0 ==> pc_state.iff1 && pc_state.iff2,
                    *memory == mid_memory,
                    ports.devices@ == mid_devices,
                    applied == 0 ==> clock.cycles == mid_cycles && *pc_state == mid_state,
                    applied == 1 ==> clock.cycles == cycles_after(mid_cycles, 4) && *pc_state
                        == (PcState { iff1: true, iff2: true, ..mid_state }),
                decreases enables - applied,
            {
                instruction_set::ei(clock, pc_state);
                applied = applied + 1;
            }
            Ok(())
        } else {
            Self::execute_operation(op_code, clock, memory, pc_state, ports, interruptor)
        }
    }

    /// Dispatch one root-table opcode other than the EI prefix.
    fn execute_operation<M: MemoryRW, D: Device>(
        op_code: u8,
        clock: &mut Clock,
        memory: &mut M,
        pc_state: &mut PcState,
        ports: &mut Ports<D>,
        interruptor: &mut Interruptor,
    ) -> (r: Result<(), CpuError>)
        requires
            old(memory).inv(),
            old(ports).inv(),
        ensures
            final(memory).inv(),
            final(ports).inv(),
            root_op_rel(
                op_code,
                old(clock).cycles,
                final(clock).cycles,
                *old(memory),
                *final(memory),
                *old(pc_state),
                *final(pc_state),
                old(ports).devices@,
                final(ports).devices@,
                r,
            ),
    {
        if op_code / 64 == 0 {
            Self::execute_operation_misc(op_code, clock, memory, pc_state, ports, interruptor)
        } else if op_code / 64 == 1 {
            Self::execute_operation_load(op_code, clock, memory, pc_state, ports, interruptor)
        } else if op_code / 64 == 2 {
            Self::execute_operation_arith(op_code, clock, memory, pc_state, ports, interruptor)
        } else {
            Self::execute_operation_flow(op_code, clock, memory, pc_state, ports, interruptor)
        }
    }

    /// The first quadrant of the root table: 16-bit loads, increments,
    /// accumulator rotates, relative jumps and CPU control.
    #[verifier::spinoff_prover]
    #[verifier::rlimit(100)]
    fn execute_operation_misc<M: MemoryRW, D: Device>(
        op_code: u8,
        clock: &mut Clock,
        memory: &mut M,
        pc_state: &mut PcState,
        ports: &mut Ports<D>,
        interruptor: &mut Interruptor,
    ) -> (r: Result<(), CpuError>)
        requires
            op_code / 64 == 0,
            old(memory).inv(),
            old(ports).inv(),
        ensures
            final(memory).inv(),
            final(ports).inv(),
            root_op_rel(
                op_code,
                old(clock).cycles,
                final(clock).cycles,
                *old(memory),
                *final(memory),
                *old(pc_state),
                *final(pc_state),
                old(ports).devices@,
                final(ports).devices@,
                r,
            ),
    {
        match op_code {
            0x00 => {
                instruction_set::noop(clock, pc_state);
            },
            0x01 => {
                instruction_set::ld_16_nn(
                    clock,
                    &*memory,
                    &mut pc_state.pc_reg,
                    &mut pc_state.bc_reg,
                );
            },
            0x02 => {
                let value = pc_state.get_a();
                instruction_set::ld_mem_r(clock, memory, value, &pc_state.bc_reg);
            },
            0x12 => {
                let value = pc_state.get_a();
                instruction_set::ld_mem_r(clock, memory, value, &pc_state.de_reg);
            },
            0x0f => {
                instruction_set::rrca(clock, pc_state);
            },
            0x1f => {
                instruction_set::rra(clock, pc_state);
            },
            0x07 => {
                instruction_set::rlca(clock, pc_state);
            },
            0x17 => {
                instruction_set::rla(clock, pc_state);
            },
            0x10 => {
                instruction_set::djnz(clock, &*memory, pc_state);
            },
            0x11 => {
                instruction_set::ld_16_nn(
                    clock,
                    &*memory,
                    &mut pc_state.pc_reg,
                    &mut pc_state.de_reg,
                );
            },
            0x21 => {
                instruction_set::ld_16_nn(
                    clock,
                    &*memory,
                    &mut pc_state.pc_reg,
                    &mut pc_state.hl_reg,
                );
            },
            0x2a => {
                instruction_set::ld_r16_mem(
                    clock,
                    &*memory,
                    &mut pc_state.pc_reg,
                    &mut pc_state.hl_reg,
                );
            },
            0x31 => {
                instruction_set::ld_16_nn(
                    clock,
                    &*memory,
                    &mut pc_state.pc_reg,
                    &mut pc_state.sp_reg,
                );
            },
            0x20 => {
                instruction_set::jrnz_e(clock, &*memory, pc_state);
            },
            0x28 => {
                instruction_set::jrz_e(clock, &*memory, pc_state);
            },
            0x34 => {
                instruction_set::inc_hl(clock, memory, pc_state);
            },
            0x35 => {
                instruction_set::dec_hl(clock, memory, pc_state);
            },
            0x36 => {
                instruction_set::ld_mem_n(clock, memory, &mut pc_state.pc_reg, &pc_state.hl_reg);
            },
            0x3a => {
                instruction_set::ld_r8_mem(clock, &*memory, pc_state, Reg8Sel::A);
            },
            0x0a => {
                let address = pc_state.bc_reg.get();
                instruction_set::ld_r_mem(clock, &*memory, pc_state, Reg8Sel::A, address);
            },
            0x1a => {
                let address = pc_state.de_reg.get();
                instruction_set::ld_r_mem(clock, &*memory, pc_state, Reg8Sel::A, address);
            },
            0x08 => {
                instruction_set::ex(clock, &mut pc_state.af_reg, &mut pc_state.shadow_af_reg);
            },
            0x18 => {
                instruction_set::jr_e(clock, &*memory, pc_state);
            },
            0x22 => {
                instruction_set::ld_mem_nn_hl(clock, memory, pc_state);
            },
            0x27 => {
                instruction_set::daa(clock, pc_state);
            },
            0x2f => {
                instruction_set::cpl(clock, pc_state);
            },
            0x30 => {
                instruction_set::jrnc_e(clock, &*memory, pc_state);
            },
            0x32 => {
                let value = pc_state.get_a();
                instruction_set::ld_nn_r(clock, memory, value, &mut pc_state.pc_reg);
            },
            0x37 => {
                instruction_set::scf(clock, &mut pc_state.af_reg);
            },
            0x38 => {
                instruction_set::jrc_e(clock, &*memory, pc_state);
            },
            0x3f => {
                instruction_set::ccf(clock, &mut pc_state.af_reg);
            },
            // ADD HL,ss: 0b00ss1001.
            n if n % 16 == 0x9 && n / 64 == 0 => {
                let ss = (n / 16) % 4;
                let src_value = select_16_bit_read_register(pc_state, ss);
                instruction_set::add16(clock, src_value, &mut pc_state.hl_reg, &mut pc_state.af_reg);
            },
            // INC ss: 0b00ss0011.
            n if n % 16 == 0x3 && n / 64 == 0 => {
                let ss = (n / 16) % 4;
                let original = select_16_bit_read_register(pc_state, ss);
                let sel = decode_reg16(ss);
                instruction_set::inc_16(clock, pc_state, sel, original);
            },
            // DEC ss: 0b00ss1011.
            n if n % 16 == 0xB && n / 64 == 0 => {
                let ss = (n / 16) % 4;
                let original = select_16_bit_read_register(pc_state, ss);
                let sel = decode_reg16(ss);
                instruction_set::dec_16(clock, pc_state, sel, original);
            },
            // INC r: 0b00rrr100, register field 6 reserved.
            n if n % 8 == 4 && n / 64 == 0 && (n / 8) % 8 != 6 => {
                let reg_index = (n / 8) % 8;
                let src = select_8_bit_read_register(pc_state, reg_index);
                let dst = decode_reg8(reg_index);
                instruction_set::inc_r(clock, pc_state, dst, src);
            },
            // DEC r: 0b00rrr101, register field 6 reserved.
            n if n % 8 == 5 && n / 64 == 0 && (n / 8) % 8 != 6 => {
                let reg_index = (n / 8) % 8;
                let src = select_8_bit_read_register(pc_state, reg_index);
                let dst = decode_reg8(reg_index);
                instruction_set::dec_r(clock, pc_state, dst, src);
            },
            // LD r,n: 0b00rrr110, register field 6 reserved.
            n if n % 8 == 6 && n / 64 == 0 && (n / 8) % 8 != 6 => {
                let reg_index = (n / 8) % 8;
                let dst = decode_reg8(reg_index);
                instruction_set::ld_r(clock, &*memory, pc_state, dst);
            },
            _ => {
                return Err(CpuError::UnknownOpcode { opcode: op_code, pc: pc_state.get_pc() });
            },
        }
        Ok(())
    }

    /// The second quadrant of the root table: the 8-bit register loads and
    /// HALT.
    #[verifier::spinoff_prover]
    #[verifier::rlimit(100)]
    fn execute_operation_load<M: MemoryRW, D: Device>(
        op_code: u8,
        clock: &mut Clock,
        memory: &mut M,
        pc_state: &mut PcState,
        ports: &mut Ports<D>,
        interruptor: &mut Interruptor,
    ) -> (r: Result<(), CpuError>)
        requires
            op_code / 64 == 1,
            old(memory).inv(),
            old(ports).inv(),
        ensures
            final(memory).inv(),
            final(ports).inv(),
            root_op_rel(
                op_code,
                old(clock).cycles,
                final(clock).cycles,
                *old(memory),
                *final(memory),
                *old(pc_state),
                *final(pc_state),
                old(ports).devices@,
                final(ports).devices@,
                r,
            ),
    {
        match op_code {
            0x76 => {
                instruction_set::halt(clock, &mut pc_state.pc_reg);
            },
            // LD (HL),r: 0b01110rrr, source field 6 reserved (HALT).
            n if n / 8 == 14 && n % 8 != 6 => {
                let reg_index = n % 8;
                let value = select_8_bit_read_register(pc_state, reg_index);
                instruction_set::ld_mem_r(clock, memory, value, &pc_state.hl_reg);
            },
            // LD r,(HL): 0b01rrr110, register field 6 reserved.
            n if n % 8 == 6 && n / 64 == 1 && (n / 8) % 8 != 6 => {
                let reg_index = (n / 8) % 8;
                let dst = decode_reg8(reg_index);
                let address = pc_state.hl_reg.get();
                instruction_set::ld_r_mem(clock, &*memory, pc_state, dst, address);
            },
            // LD r,r': 0b01dddsss, fields 6 reserved.
            n if n / 64 == 1 && n % 8 != 6 && (n / 8) % 8 != 6 => {
                let dst_reg_index = (n / 8) % 8;
                let src_reg_index = n % 8;
                let src = select_8_bit_read_register(pc_state, src_reg_index);
                let dst = decode_reg8(dst_reg_index);
                instruction_set::ld_r_r(clock, src, pc_state, dst);
            },
            _ => {
                return Err(CpuError::UnknownOpcode { opcode: op_code, pc: pc_state.get_pc() });
            },
        }
        Ok(())
    }

    /// The third quadrant of the root table: the 8-bit arithmetic and logic
    /// group.
    #[verifier::spinoff_prover]
    #[verifier::rlimit(100)]
    fn execute_operation_arith<M: MemoryRW, D: Device>(
        op_code: u8,
        clock: &mut Clock,
        memory: &mut M,
        pc_state: &mut PcState,
        ports: &mut Ports<D>,
        interruptor: &mut Interruptor,
    ) -> (r: Result<(), CpuError>)
        requires
            op_code / 64 == 2,
            old(memory).inv(),
            old(ports).inv(),
        ensures
            final(memory).inv(),
            final(ports).inv(),
            root_op_rel(
                op_code,
                old(clock).cycles,
                final(clock).cycles,
                *old(memory),
                *final(memory),
                *old(pc_state),
                *final(pc_state),
                old(ports).devices@,
                final(ports).devices@,
                r,
            ),
    {
        match op_code {
            0x86 => {
                instruction_set::add_hl(clock, &*memory, pc_state);
            },
            0x8e => {
                instruction_set::adc_hl(clock, &*memory, pc_state);
            },
            0x96 => {
                instruction_set::sub_hl(clock, &*memory, pc_state);
            },
            0x9e => {
                instruction_set::sbc_hl(clock, &*memory, pc_state);
            },
            0xa6 => {
                instruction_set::and_hl(clock, &*memory, pc_state);
            },
            0xae => {
                instruction_set::xor_hl(clock, &*memory, pc_state);
            },
            0xb6 => {
                instruction_set::or_hl(clock, &*memory, pc_state);
            },
            0xbe => {
                instruction_set::cp_hl(clock, &*memory, pc_state);
            },
            // ADD A,r: 0b10000rrr.
            n if n / 8 == 16 && n % 8 != 6 => {
                let value = select_8_bit_read_register(pc_state, n % 8);
                instruction_set::add_r(clock, value, pc_state);
            },
            // ADC A,r: 0b10001rrr.
            n if n / 8 == 17 && n % 8 != 6 => {
                let value = select_8_bit_read_register(pc_state, n % 8);
                instruction_set::adc_r(clock, value, pc_state);
            },
            // SUB r: 0b10010rrr.
            n if n / 8 == 18 && n % 8 != 6 => {
                let value = select_8_bit_read_register(pc_state, n % 8);
                instruction_set::sub_r(clock, value, pc_state);
            },
            // SBC A,r: 0b10011rrr.
            n if n / 8 == 19 && n % 8 != 6 => {
                let value = select_8_bit_read_register(pc_state, n % 8);
                instruction_set::sbc_r(clock, value, pc_state);
            },
            // AND r: 0b10100rrr.
            n if n / 8 == 20 && n % 8 != 6 => {
                let value = select_8_bit_read_register(pc_state, n % 8);
                instruction_set::and_r(clock, value, pc_state);
            },
            // XOR r: 0b10101rrr.
            n if n / 8 == 21 && n % 8 != 6 => {
                let value = select_8_bit_read_register(pc_state, n % 8);
                instruction_set::xor_r(clock, value, pc_state);
            },
            // OR r: 0b10110rrr.
            n if n / 8 == 22 && n % 8 != 6 => {
                let value = select_8_bit_read_register(pc_state, n % 8);
                instruction_set::or_r(clock, value, pc_state);
            },
            // CP r: 0b10111rrr.
            n if n / 8 == 23 && n % 8 != 6 => {
                let value = select_8_bit_read_register(pc_state, n % 8);
                instruction_set::cp_r(clock, value, pc_state);
            },
            _ => {
                return Err(CpuError::UnknownOpcode { opcode: op_code, pc: pc_state.get_pc() });
            },
        }
        Ok(())
    }

    /// The fourth quadrant of the root table: jumps, calls, returns, the
    /// stack, port I/O and the prefix escapes.
    #[verifier::spinoff_prover]
    #[verifier::rlimit(100)]
    fn execute_operation_flow<M: MemoryRW, D: Device>(
        op_code: u8,
        clock: &mut Clock,
        memory: &mut M,
        pc_state: &mut PcState,
        ports: &mut Ports<D>,
        interruptor: &mut Interruptor,
    ) -> (r: Result<(), CpuError>)
        requires
            op_code / 64 == 3,
            old(memory).inv(),
            old(ports).inv(),
        ensures
            final(memory).inv(),
            final(ports).inv(),
            root_op_rel(
                op_code,
                old(clock).cycles,
                final(clock).cycles,
                *old(memory),
                *final(memory),
                *old(pc_state),
                *final(pc_state),
                old(ports).devices@,
                final(ports).devices@,
                r,
            ),
    {
        match op_code {
            0xc1 => {
                instruction_set::pop(clock, &*memory, &mut pc_state.sp_reg, &mut pc_state.bc_reg);
            },
            0xc5 => {
                let source = pc_state.bc_reg;
                instruction_set::push(clock, memory, &mut pc_state.sp_reg, &source);
            },
            // Extended opcode prefixes.
            0xcb => {
                return Self::execute_cb(clock, memory, pc_state);
            },
            0xdd => {
                return Self::execute_index(clock, memory, pc_state, IndexReg::IX);
            },
            0xed => {
                return Self::execute_ed(clock, memory, pc_state, ports);
            },
            0xfd => {
                return Self::execute_index(clock, memory, pc_state, IndexReg::IY);
            },
            0xd3 => {
                instruction_set::out_n_a(clock, &*memory, pc_state, ports);
            },
            0xd9 => {
                instruction_set::exx(clock, pc_state);
            },
            0xe6 => {
                instruction_set::and_n(clock, &*memory, pc_state);
            },
            0xfe => {
                instruction_set::cp_n(clock, &*memory, pc_state);
            },
            0xc9 => {
                instruction_set::ret(clock, &*memory, pc_state);
            },
            0xcd => {
                instruction_set::call_nn(clock, memory, pc_state);
            },
            0xc3 => {
                instruction_set::jp_nn(clock, &*memory, pc_state);
            },
            0xc6 => {
                instruction_set::add_n(clock, &*memory, pc_state);
            },
            0xce => {
                instruction_set::adc_n(clock, &*memory, pc_state);
            },
            0xd1 => {
                instruction_set::pop(clock, &*memory, &mut pc_state.sp_reg, &mut pc_state.de_reg);
            },
            0xd5 => {
                let source = pc_state.de_reg;
                instruction_set::push(clock, memory, &mut pc_state.sp_reg, &source);
            },
            0xd6 => {
                instruction_set::sub_n(clock, &*memory, pc_state);
            },
            0xdb => {
                instruction_set::in_a_n(clock, &*memory, pc_state, ports);
            },
            0xde => {
                instruction_set::sbc_n(clock, &*memory, pc_state);
            },
            0xe1 => {
                instruction_set::pop(clock, &*memory, &mut pc_state.sp_reg, &mut pc_state.hl_reg);
            },
            0xe3 => {
                instruction_set::ex_sp_hl(clock, memory, pc_state);
            },
            0xe5 => {
                let source = pc_state.hl_reg;
                instruction_set::push(clock, memory, &mut pc_state.sp_reg, &source);
            },
            0xe9 => {
                instruction_set::jp_hl(clock, &pc_state.hl_reg, &mut pc_state.pc_reg);
            },
            0xeb => {
                instruction_set::ex(clock, &mut pc_state.de_reg, &mut pc_state.hl_reg);
            },
            0xee => {
                instruction_set::xor_n(clock, &*memory, pc_state);
            },
            0xf1 => {
                instruction_set::pop(clock, &*memory, &mut pc_state.sp_reg, &mut pc_state.af_reg);
            },
            0xf3 => {
                instruction_set::di(clock, pc_state);
            },
            0xf5 => {
                let source = pc_state.af_reg;
                instruction_set::push(clock, memory, &mut pc_state.sp_reg, &source);
            },
            0xf6 => {
                instruction_set::or_n(clock, &*memory, pc_state);
            },
            0xf9 => {
                instruction_set::ld_sp_hl(clock, &pc_state.hl_reg, &mut pc_state.sp_reg);
            },
            // JP cc,nn: 0b11ccc010.
            n if n % 8 == 2 && n / 64 == 3 => {
                let condition_select = (n / 8) % 8;
                let condition = get_condition_result(pc_state, condition_select);
                instruction_set::jump_cc_nn(clock, &*memory, pc_state, condition);
            },
            // CALL cc,nn: 0b11ccc100.
            n if n % 8 == 4 && n / 64 == 3 => {
                let condition_select = (n / 8) % 8;
                let condition = get_condition_result(pc_state, condition_select);
                instruction_set::call_cc_nn(clock, memory, pc_state, condition);
            },
            // RET cc: 0b11ccc000.
            n if n % 8 == 0 && n / 64 == 3 => {
                let condition_select = (n / 8) % 8;
                let condition = get_condition_result(pc_state, condition_select);
                instruction_set::ret_cc(clock, &*memory, pc_state, condition);
            },
            // RST t: 0b11ttt111.
            n if n % 8 == 7 && n / 64 == 3 => {
                let rst_addr = ((n / 8) % 8) * 8;
                instruction_set::rst(clock, memory, pc_state, rst_addr);
            },
            _ => {
                return Err(CpuError::UnknownOpcode { opcode: op_code, pc: pc_state.get_pc() });
            },
        }
        Ok(())
    }

    /// Dispatch the 0xCB bit-manipulation table.
    pub fn execute_cb<M: MemoryRW>(
        clock: &mut Clock,
        memory: &mut M,
        pc_state: &mut PcState,
    ) -> (r: Result<(), CpuError>)
        requires
            old(memory).inv(),
        ensures
            final(memory).inv(),
            cb_rel(
                old(clock).cycles,
                final(clock).cycles,
                *old(memory),
                *final(memory),
                *old(pc_state),
                *final(pc_state),
                r,
            ),
    {
        let op_code = memory.read(pc_state.get_pc());
        if op_code / 64 != 0 {
            Self::execute_cb_bit(clock, memory, pc_state)
        } else {
            Self::execute_cb_shift(clock, memory, pc_state)
        }
    }

    /// The BIT, RES and SET classes of the 0xCB table.
    #[verifier::spinoff_prover]
    #[verifier::rlimit(100)]
    fn execute_cb_bit<M: MemoryRW>(
        clock: &mut Clock,
        memory: &mut M,
        pc_state: &mut PcState,
    ) -> (r: Result<(), CpuError>)
        requires
            old(memory).inv(),
            old(memory).mem()[old(pc_state).pc_reg.word()] / 64 != 0,
        ensures
            final(memory).inv(),
            cb_rel(
                old(clock).cycles,
                final(clock).cycles,
                *old(memory),
                *final(memory),
                *old(pc_state),
                *final(pc_state),
                r,
            ),
    {
        let op_code = memory.read(pc_state.get_pc());
        pc_state.increment_pc(1);

        match op_code {
            // BIT b,r: 0b01bbbrrr, register field 6 reserved.
            n if n / 64 == 1 && n % 8 != 6 => {
                let bit_pos = (n / 8) % 8;
                let tested = select_8_bit_read_register(pc_state, n % 8);
                extended_instruction_set::bit_b_r(clock, bit_pos, tested, &mut pc_state.af_reg);
            },
            // BIT b,(HL): 0b01bbb110.
            n if n / 64 == 1 => {
                let bit_pos = (n / 8) % 8;
                extended_instruction_set::bit_b_mem(
                    clock,
                    &*memory,
                    bit_pos,
                    &mut pc_state.af_reg,
                    &pc_state.hl_reg,
                );
            },
            // SET b,r: 0b11bbbrrr, register field 6 reserved.
            n if n / 64 == 3 && n % 8 != 6 => {
                let bit_pos = (n / 8) % 8;
                let reg_index = n % 8;
                let current = select_8_bit_read_register(pc_state, reg_index);
                let dst = decode_reg8(reg_index);
                extended_instruction_set::set_b_r(clock, bit_pos, pc_state, dst, current);
            },
            // SET b,(HL): 0b11bbb110.
            n if n / 64 == 3 => {
                let bit_pos = (n / 8) % 8;
                extended_instruction_set::set_b_mem(clock, memory, bit_pos, &pc_state.hl_reg);
            },
            // RES b,r: 0b10bbbrrr, register field 6 reserved.
            n if n / 64 == 2 && n % 8 != 6 => {
                let bit_pos = (n / 8) % 8;
                let reg_index = n % 8;
                let current = select_8_bit_read_register(pc_state, reg_index);
                let dst = decode_reg8(reg_index);
                extended_instruction_set::res_b_r(clock, bit_pos, pc_state, dst, current);
            },
            // RES b,(HL): 0b10bbb110.
            n if n / 64 == 2 => {
                let bit_pos = (n / 8) % 8;
                extended_instruction_set::res_b_mem(clock, memory, bit_pos, &pc_state.hl_reg);
            },
            _ => {
                return Err(
                    CpuError::UnknownExtendedOpcode {
                        prefix: 0xcb,
                        opcode: op_code,
                        pc: pc_state.get_pc(),
                    },
                );
            },
        }
        Ok(())
    }

    /// The rotate and shift classes of the 0xCB table.
    fn execute_cb_shift<M: MemoryRW>(
        clock: &mut Clock,
        memory: &mut M,
        pc_state: &mut PcState,
    ) -> (r: Result<(), CpuError>)
        requires
            old(memory).inv(),
            old(memory).mem()[old(pc_state).pc_reg.word()] / 64 == 0,
        ensures
            final(memory).inv(),
            cb_rel(
                old(clock).cycles,
                final(clock).cycles,
                *old(memory),
                *final(memory),
                *old(pc_state),
                *final(pc_state),
                r,
            ),
    {
        let op_code = memory.read(pc_state.get_pc());
        if op_code % 8 != 6 {
            Self::execute_cb_shift_reg(clock, memory, pc_state)
        } else {
            Self::execute_cb_shift_mem(clock, memory, pc_state)
        }
    }

    /// The register-destination rotate and shift forms of the 0xCB table.
    #[verifier::spinoff_prover]
    #[verifier::rlimit(100)]
    fn execute_cb_shift_reg<M: MemoryRW>(
        clock: &mut Clock,
        memory: &mut M,
        pc_state: &mut PcState,
    ) -> (r: Result<(), CpuError>)
        requires
            old(memory).inv(),
            old(memory).mem()[old(pc_state).pc_reg.word()] / 64 == 0,
            old(memory).mem()[old(pc_state).pc_reg.word()] % 8 != 6,
        ensures
            final(memory).inv(),
            cb_rel(
                old(clock).cycles,
                final(clock).cycles,
                *old(memory),
                *final(memory),
                *old(pc_state),
                *final(pc_state),
                r,
            ),
    {
        let op_code = memory.read(pc_state.get_pc());
        pc_state.increment_pc(1);

        match op_code {
            // RLC r: 0b00000rrr.
            n if n / 8 == 0 && n % 8 != 6 => {
                let reg_index = n % 8;
                let current = select_8_bit_read_register(pc_state, reg_index);
                let dst = decode_reg8(reg_index);
                extended_instruction_set::rlc_r(clock, pc_state, dst, current);
            },
            // RRC r: 0b00001rrr.
            n if n / 8 == 1 && n % 8 != 6 => {
                let reg_index = n % 8;
                let current = select_8_bit_read_register(pc_state, reg_index);
                let dst = decode_reg8(reg_index);
                extended_instruction_set::rrc_r(clock, pc_state, dst, current);
            },
            // RL r: 0b00010rrr.
            n if n / 8 == 2 && n % 8 != 6 => {
                let reg_index = n % 8;
                let current = select_8_bit_read_register(pc_state, reg_index);
                let dst = decode_reg8(reg_index);
                extended_instruction_set::rl_r(clock, pc_state, dst, current);
            },
            // RR r: 0b00011rrr.
            n if n / 8 == 3 && n % 8 != 6 => {
                let reg_index = n % 8;
                let current = select_8_bit_read_register(pc_state, reg_index);
                let dst = decode_reg8(reg_index);
                extended_instruction_set::rr_r(clock, pc_state, dst, current);
            },
            // SLA r: 0b00100rrr.
            n if n / 8 == 4 && n % 8 != 6 => {
                let reg_index = n % 8;
                let current = select_8_bit_read_register(pc_state, reg_index);
                let dst = decode_reg8(reg_index);
                extended_instruction_set::sla_r(clock, pc_state, dst, current);
            },
            // SRA r: 0b00101rrr.
            n if n / 8 == 5 && n % 8 != 6 => {
                let reg_index = n % 8;
                let current = select_8_bit_read_register(pc_state, reg_index);
                let dst = decode_reg8(reg_index);
                extended_instruction_set::sra_r(clock, pc_state, dst, current);
            },
            // SLL r: 0b00110rrr (undocumented).
            n if n / 8 == 6 && n % 8 != 6 => {
                let reg_index = n % 8;
                let current = select_8_bit_read_register(pc_state, reg_index);
                let dst = decode_reg8(reg_index);
                extended_instruction_set::sll_r(clock, pc_state, dst, current);
            },
            // SRL r: 0b00111rrr.
            n if n / 8 == 7 && n % 8 != 6 => {
                let reg_index = n % 8;
                let current = select_8_bit_read_register(pc_state, reg_index);
                let dst = decode_reg8(reg_index);
                extended_instruction_set::srl_r(clock, pc_state, dst, current);
            },
            _ => {
                return Err(
                    CpuError::UnknownExtendedOpcode {
                        prefix: 0xcb,
                        opcode: op_code,
                        pc: pc_state.get_pc(),
                    },
                );
            },
        }
        Ok(())
    }

    /// The memory-indirect rotate and shift forms of the 0xCB table.
    #[verifier::spinoff_prover]
    #[verifier::rlimit(100)]
    fn execute_cb_shift_mem<M: MemoryRW>(
        clock: &mut Clock,
        memory: &mut M,
        pc_state: &mut PcState,
    ) -> (r: Result<(), CpuError>)
        requires
            old(memory).inv(),
            old(memory).mem()[old(pc_state).pc_reg.word()] / 64 == 0,
            old(memory).mem()[old(pc_state).pc_reg.word()] % 8 == 6,
        ensures
            final(memory).inv(),
            cb_rel(
                old(clock).cycles,
                final(clock).cycles,
                *old(memory),
                *final(memory),
                *old(pc_state),
                *final(pc_state),
                r,
            ),
    {
        let op_code = memory.read(pc_state.get_pc());
        pc_state.increment_pc(1);

        match op_code {
            0x06 => {
                extended_instruction_set::rlc_hl(
                    clock,
                    memory,
                    &mut pc_state.af_reg,
                    &pc_state.hl_reg,
                );
            },
            0x0e => {
                extended_instruction_set::rrc_hl(
                    clock,
                    memory,
                    &mut pc_state.af_reg,
                    &pc_state.hl_reg,
                );
            },
            0x26 => {
                extended_instruction_set::sla_hl(
                    clock,
                    memory,
                    &mut pc_state.af_reg,
                    &pc_state.hl_reg,
                );
            },
            0x2e => {
                extended_instruction_set::sra_hl(
                    clock,
                    memory,
                    &mut pc_state.af_reg,
                    &pc_state.hl_reg,
                );
            },
            0x36 => {
                extended_instruction_set::srl_hl(
                    clock,
                    memory,
                    &mut pc_state.af_reg,
                    &pc_state.hl_reg,
                );
            },
            _ => {
                return Err(
                    CpuError::UnknownExtendedOpcode {
                        prefix: 0xcb,
                        opcode: op_code,
                        pc: pc_state.get_pc(),
                    },
                );
            },
        }
        Ok(())
    }

    /// Dispatch the shared 0xDD / 0xFD index-register table.
    pub fn execute_index<M: MemoryRW>(
        clock: &mut Clock,
        memory: &mut M,
        pc_state: &mut PcState,
        index: IndexReg,
    ) -> (r: Result<(), CpuError>)
        requires
            old(memory).inv(),
        ensures
            final(memory).inv(),
            index_rel(
                index,
                old(clock).cycles,
                final(clock).cycles,
                *old(memory),
                *final(memory),
                *old(pc_state),
                *final(pc_state),
                r,
            ),
    {
        let op_code = memory.read(pc_state.get_pc());
        if op_code == 0xcb || op_code == 0x22 || op_code == 0x2a || op_code == 0x36 || op_code == 0x21 || op_code == 0x9e || op_code == 0xe9 || op_code == 0xf9 {
            Self::execute_index_load(clock, memory, pc_state, index)
        } else if op_code == 0xbe || op_code == 0x23 || op_code == 0x2b || op_code == 0x34 || op_code == 0x35 || op_code == 0xe1 || op_code == 0xe5 || op_code == 0xe3 || (op_code % 16 == 0x9 && op_code / 64 == 0) {
            Self::execute_index_sixteen(clock, memory, pc_state, index)
        } else {
            Self::execute_index_displaced(clock, memory, pc_state, index)
        }
    }

    /// The load, jump and doubly prefixed forms of the index table.
    #[verifier::spinoff_prover]
    #[verifier::rlimit(100)]
    fn execute_index_load<M: MemoryRW>(
        clock: &mut Clock,
        memory: &mut M,
        pc_state: &mut PcState,
        index: IndexReg,
    ) -> (r: Result<(), CpuError>)
        requires
            old(memory).inv(),
            ({
                let op_code = old(memory).mem()[old(pc_state).pc_reg.word()];
                op_code == 0xcb || op_code == 0x22 || op_code == 0x2a || op_code == 0x36 || op_code == 0x21 || op_code == 0x9e || op_code == 0xe9 || op_code == 0xf9
            }),
        ensures
            final(memory).inv(),
            index_rel(
                index,
                old(clock).cycles,
                final(clock).cycles,
                *old(memory),
                *final(memory),
                *old(pc_state),
                *final(pc_state),
                r,
            ),
    {
        let op_code = memory.read(pc_state.get_pc());
        pc_state.increment_pc(1);
        let prefix: u8 = match index {
            IndexReg::IX => 0xdd,
            IndexReg::IY => 0xfd,
        };
        match op_code {
            0xcb => {
                let i16_copy = get_index(&pc_state.index_registers, index);
                return extended_instruction_set::bit_res_set_b_i_d(
                    clock,
                    memory,
                    &mut pc_state.pc_reg,
                    &mut pc_state.af_reg,
                    &i16_copy,
                );
            },
            0x22 => {
                let i16_copy = get_index(&pc_state.index_registers, index);
                extended_instruction_set::ld_mem_nn_reg16(
                    clock,
                    memory,
                    &mut pc_state.pc_reg,
                    &i16_copy,
                );
            },
            0x2a => {
                extended_instruction_set::ld_i_mem_nn(
                    clock,
                    &*memory,
                    &mut pc_state.pc_reg,
                    index_reg_mut(&mut pc_state.index_registers, index),
                );
            },
            0x36 => {
                let i16_copy = get_index(&pc_state.index_registers, index);
                extended_instruction_set::ld_i_d_n(
                    clock,
                    memory,
                    &mut pc_state.pc_reg,
                    &i16_copy,
                );
            },
            0x9e => {
                return extended_instruction_set::sbc_i(prefix, pc_state.get_pc());
            },
            0xe9 => {
                let i16_copy = get_index(&pc_state.index_registers, index);
                extended_instruction_set::jp_i(clock, &mut pc_state.pc_reg, &i16_copy);
            },
            0x21 => {
                extended_instruction_set::ld_i_nn(
                    clock,
                    &*memory,
                    &mut pc_state.pc_reg,
                    index_reg_mut(&mut pc_state.index_registers, index),
                );
            },
            0xf9 => {
                let i16_copy = get_index(&pc_state.index_registers, index);
                extended_instruction_set::ld_sp_i(clock, &mut pc_state.sp_reg, &i16_copy);
            },
            _ => {
                return Err(
                    CpuError::UnknownExtendedOpcode {
                        prefix,
                        opcode: op_code,
                        pc: pc_state.get_pc(),
                    },
                );
            },
        }
        Ok(())
    }

    /// The 16-bit arithmetic, stack and compare forms of the index table.
    #[verifier::spinoff_prover]
    #[verifier::rlimit(100)]
    fn execute_index_sixteen<M: MemoryRW>(
        clock: &mut Clock,
        memory: &mut M,
        pc_state: &mut PcState,
        index: IndexReg,
    ) -> (r: Result<(), CpuError>)
        requires
            old(memory).inv(),
            ({
                let op_code = old(memory).mem()[old(pc_state).pc_reg.word()];
                op_code == 0xbe || op_code == 0x23 || op_code == 0x2b || op_code == 0x34 || op_code == 0x35 || op_code == 0xe1 || op_code == 0xe5 || op_code == 0xe3 || (op_code % 16 == 0x9 && op_code / 64 == 0)
            }),
        ensures
            final(memory).inv(),
            index_rel(
                index,
                old(clock).cycles,
                final(clock).cycles,
                *old(memory),
                *final(memory),
                *old(pc_state),
                *final(pc_state),
                r,
            ),
    {
        let op_code = memory.read(pc_state.get_pc());
        pc_state.increment_pc(1);
        let prefix: u8 = match index {
            IndexReg::IX => 0xdd,
            IndexReg::IY => 0xfd,
        };
        match op_code {
            0xbe => {
                let i16_copy = get_index(&pc_state.index_registers, index);
                extended_instruction_set::cp_i_d(
                    clock,
                    &*memory,
                    &mut pc_state.pc_reg,
                    &i16_copy,
                    &mut pc_state.af_reg,
                );
            },
            // ADD IX,ss: 0b00ss1001; register field 2 names the index
            // register itself.
            n if n % 16 == 0x9 && n / 64 == 0 => {
                let ss = (n / 16) % 4;
                let src_value = if ss == 2 {
                    let i16_copy = get_index(&pc_state.index_registers, index);
                    i16_copy.get()
                } else {
                    select_16_bit_read_register(pc_state, ss)
                };
                extended_instruction_set::add16(
                    clock,
                    src_value,
                    index_reg_mut(&mut pc_state.index_registers, index),
                    &mut pc_state.af_reg,
                );
            },
            0x23 => {
                extended_instruction_set::inc_16(
                    clock,
                    index_reg_mut(&mut pc_state.index_registers, index),
                );
            },
            0x2b => {
                extended_instruction_set::dec_16(
                    clock,
                    index_reg_mut(&mut pc_state.index_registers, index),
                );
            },
            0x34 => {
                let i16_copy = get_index(&pc_state.index_registers, index);
                extended_instruction_set::inc_i_d(
                    clock,
                    memory,
                    &mut pc_state.pc_reg,
                    &mut pc_state.af_reg,
                    &i16_copy,
                );
            },
            0x35 => {
                let i16_copy = get_index(&pc_state.index_registers, index);
                extended_instruction_set::dec_i_d(
                    clock,
                    memory,
                    &mut pc_state.pc_reg,
                    &mut pc_state.af_reg,
                    &i16_copy,
                );
            },
            0xe1 => {
                extended_instruction_set::pop_i(
                    clock,
                    &*memory,
                    &mut pc_state.sp_reg,
                    index_reg_mut(&mut pc_state.index_registers, index),
                );
            },
            0xe5 => {
                let i16_copy = get_index(&pc_state.index_registers, index);
                extended_instruction_set::push_i(
                    clock,
                    memory,
                    &mut pc_state.sp_reg,
                    &i16_copy,
                );
            },
            0xe3 => {
                extended_instruction_set::ex_sp_i(
                    clock,
                    memory,
                    &pc_state.sp_reg,
                    index_reg_mut(&mut pc_state.index_registers, index),
                );
            },
            _ => {
                return Err(
                    CpuError::UnknownExtendedOpcode {
                        prefix,
                        opcode: op_code,
                        pc: pc_state.get_pc(),
                    },
                );
            },
        }
        Ok(())
    }

    /// The displaced 8-bit load and arithmetic forms of the index table.
    #[verifier::spinoff_prover]
    #[verifier::rlimit(100)]
    fn execute_index_displaced<M: MemoryRW>(
        clock: &mut Clock,
        memory: &mut M,
        pc_state: &mut PcState,
        index: IndexReg,
    ) -> (r: Result<(), CpuError>)
        requires
            old(memory).inv(),
            ({
                let op_code = old(memory).mem()[old(pc_state).pc_reg.word()];
                !(op_code == 0xcb || op_code == 0x22 || op_code == 0x2a || op_code == 0x36 || op_code == 0x21 || op_code == 0x9e || op_code == 0xe9 || op_code == 0xf9) && !(op_code == 0xbe || op_code == 0x23 || op_code == 0x2b || op_code == 0x34 || op_code == 0x35 || op_code == 0xe1 || op_code == 0xe5 || op_code == 0xe3 || (op_code % 16 == 0x9 && op_code / 64 == 0))
            }),
        ensures
            final(memory).inv(),
            index_rel(
                index,
                old(clock).cycles,
                final(clock).cycles,
                *old(memory),
                *final(memory),
                *old(pc_state),
                *final(pc_state),
                r,
            ),
    {
        let op_code = memory.read(pc_state.get_pc());
        pc_state.increment_pc(1);
        let prefix: u8 = match index {
            IndexReg::IX => 0xdd,
            IndexReg::IY => 0xfd,
        };
        match op_code {
            // LD r,(IX+d): 0b01rrr110, register field 6 reserved.
            n if n % 8 == 6 && n / 64 == 1 && (n / 8) % 8 != 6 => {
                let reg_index = (n / 8) % 8;
                let dst = decode_reg8(reg_index);
                let i16_copy = get_index(&pc_state.index_registers, index);
                let i16_value = i16_copy.get();
                extended_instruction_set::ld_r_i_d(clock, &*memory, pc_state, i16_value, dst);
            },
            // LD (IX+d),r: 0b01110rrr, source field 6 reserved.
            n if n / 8 == 14 && n % 8 != 6 => {
                let reg_index = n % 8;
                let value = select_8_bit_read_register(pc_state, reg_index);
                let i16_copy = get_index(&pc_state.index_registers, index);
                extended_instruction_set::ld_i_d_r(
                    clock,
                    memory,
                    value,
                    &mut pc_state.pc_reg,
                    &i16_copy,
                );
            },
            0x8e => {
                let i16_copy = get_index(&pc_state.index_registers, index);
                extended_instruction_set::adc_i_d(
                    clock,
                    &*memory,
                    &mut pc_state.pc_reg,
                    &i16_copy,
                    &mut pc_state.af_reg,
                );
            },
            0x96 => {
                let i16_copy = get_index(&pc_state.index_registers, index);
                extended_instruction_set::sub_i_d(
                    clock,
                    &*memory,
                    &mut pc_state.pc_reg,
                    &i16_copy,
                    &mut pc_state.af_reg,
                );
            },
            0xa6 => {
                let i16_copy = get_index(&pc_state.index_registers, index);
                extended_instruction_set::and_i_d(
                    clock,
                    &*memory,
                    &mut pc_state.pc_reg,
                    &i16_copy,
                    &mut pc_state.af_reg,
                );
            },
            0xae => {
                let i16_copy = get_index(&pc_state.index_registers, index);
                extended_instruction_set::xor_i_d(
                    clock,
                    &*memory,
                    &mut pc_state.pc_reg,
                    &i16_copy,
                    &mut pc_state.af_reg,
                );
            },
            0xb6 => {
                let i16_copy = get_index(&pc_state.index_registers, index);
                extended_instruction_set::or_i_d(
                    clock,
                    &*memory,
                    &mut pc_state.pc_reg,
                    &i16_copy,
                    &mut pc_state.af_reg,
                );
            },
            0x86 => {
                let i16_copy = get_index(&pc_state.index_registers, index);
                extended_instruction_set::add_i_d(
                    clock,
                    &*memory,
                    &mut pc_state.pc_reg,
                    &i16_copy,
                    &mut pc_state.af_reg,
                );
            },
            _ => {
                return Err(
                    CpuError::UnknownExtendedOpcode {
                        prefix,
                        opcode: op_code,
                        pc: pc_state.get_pc(),
                    },
                );
            },
        }
        Ok(())
    }

    /// Dispatch the 0xDD table with IX active.
    pub fn execute_dd<M: MemoryRW>(
        clock: &mut Clock,
        memory: &mut M,
        pc_state: &mut PcState,
    ) -> (r: Result<(), CpuError>)
        requires
            old(memory).inv(),
        ensures
            final(memory).inv(),
            index_rel(
                IndexReg::IX,
                old(clock).cycles,
                final(clock).cycles,
                *old(memory),
                *final(memory),
                *old(pc_state),
                *final(pc_state),
                r,
            ),
    {
        Self::execute_index(clock, memory, pc_state, IndexReg::IX)
    }

    /// Dispatch the 0xFD table with IY active.
    pub fn execute_fd<M: MemoryRW>(
        clock: &mut Clock,
        memory: &mut M,
        pc_state: &mut PcState,
    ) -> (r: Result<(), CpuError>)
        requires
            old(memory).inv(),
        ensures
            final(memory).inv(),
            index_rel(
                IndexReg::IY,
                old(clock).cycles,
                final(clock).cycles,
                *old(memory),
                *final(memory),
                *old(pc_state),
                *final(pc_state),
                r,
            ),
    {
        Self::execute_index(clock, memory, pc_state, IndexReg::IY)
    }

    /// Dispatch the 0xED miscellaneous table.
    pub fn execute_ed<M: MemoryRW, D: Device>(
        clock: &mut Clock,
        memory: &mut M,
        pc_state: &mut PcState,
        ports: &mut Ports<D>,
    ) -> (r: Result<(), CpuError>)
        requires
            old(memory).inv(),
            old(ports).inv(),
        ensures
            final(memory).inv(),
            final(ports).inv(),
            ed_rel(
                old(clock).cycles,
                final(clock).cycles,
                *old(memory),
                *final(memory),
                *old(pc_state),
                *final(pc_state),
                old(ports).devices@,
                final(ports).devices@,
                r,
            ),
    {
        let op_code = memory.read(pc_state.get_pc());
        if op_code / 64 == 1 {
            Self::execute_ed_main(clock, memory, pc_state, ports)
        } else if op_code / 64 == 2 {
            Self::execute_ed_block(clock, memory, pc_state, ports)
        } else {
            Self::execute_ed_other(clock, memory, pc_state, ports)
        }
    }

    /// The 0x40-0x7F block of the 0xED table: the register loads, port
    /// transfers and 16-bit carry arithmetic.
    #[verifier::spinoff_prover]
    #[verifier::rlimit(100)]
    fn execute_ed_main<M: MemoryRW, D: Device>(
        clock: &mut Clock,
        memory: &mut M,
        pc_state: &mut PcState,
        ports: &mut Ports<D>,
    ) -> (r: Result<(), CpuError>)
        requires
            old(memory).inv(),
            old(ports).inv(),
            old(memory).mem()[old(pc_state).pc_reg.word()] / 64 == 1,
        ensures
            final(memory).inv(),
            final(ports).inv(),
            ed_rel(
                old(clock).cycles,
                final(clock).cycles,
                *old(memory),
                *final(memory),
                *old(pc_state),
                *final(pc_state),
                old(ports).devices@,
                final(ports).devices@,
                r,
            ),
    {
        let op_code = memory.read(pc_state.get_pc());
        pc_state.increment_pc(1);

        match op_code {
            0x43 => {
                let source = pc_state.bc_reg;
                let ghost fetched_pc = pc_state.pc_reg.word();
                extended_instruction_set::ld_mem_nn_reg16(
                    clock,
                    memory,
                    &mut pc_state.pc_reg,
                    &source,
                );
                proof {
                    let mid = choose|mid: M|
                        (#[trigger] M::write_ok(
                            *old(memory),
                            (word_in(old(memory).mem(), fetched_pc) as u16),
                            source.low,
                            mid,
                        )) && M::write_ok(
                            mid,
                            (wrap16(word_in(mid.mem(), fetched_pc) + 1) as u16),
                            source.high,
                            *memory,
                        );
                    assert(fetched_pc == wrap16(old(pc_state).pc_reg.word() + 1));
                    assert(M::write_ok(
                        *old(memory),
                        (word_in(
                            old(memory).mem(),
                            wrap16(old(pc_state).pc_reg.word() + 1),
                        ) as u16),
                        source.low,
                        mid,
                    ));
                    assert(M::write_ok(
                        mid,
                        (wrap16(word_in(
                            mid.mem(),
                            wrap16(old(pc_state).pc_reg.word() + 1),
                        ) + 1) as u16),
                        source.high,
                        *memory,
                    ));
                }
            },
            0x53 => {
                let source = pc_state.de_reg;
                let ghost fetched_pc = pc_state.pc_reg.word();
                extended_instruction_set::ld_mem_nn_reg16(
                    clock,
                    memory,
                    &mut pc_state.pc_reg,
                    &source,
                );
                proof {
                    let mid = choose|mid: M|
                        (#[trigger] M::write_ok(
                            *old(memory),
                            (word_in(old(memory).mem(), fetched_pc) as u16),
                            source.low,
                            mid,
                        )) && M::write_ok(
                            mid,
                            (wrap16(word_in(mid.mem(), fetched_pc) + 1) as u16),
                            source.high,
                            *memory,
                        );
                    assert(fetched_pc == wrap16(old(pc_state).pc_reg.word() + 1));
                    assert(M::write_ok(
                        *old(memory),
                        (word_in(
                            old(memory).mem(),
                            wrap16(old(pc_state).pc_reg.word() + 1),
                        ) as u16),
                        source.low,
                        mid,
                    ));
                    assert(M::write_ok(
                        mid,
                        (wrap16(word_in(
                            mid.mem(),
                            wrap16(old(pc_state).pc_reg.word() + 1),
                        ) + 1) as u16),
                        source.high,
                        *memory,
                    ));
                }
            },
            0x63 => {
                let source = pc_state.hl_reg;
                let ghost fetched_pc = pc_state.pc_reg.word();
                extended_instruction_set::ld_mem_nn_reg16(
                    clock,
                    memory,
                    &mut pc_state.pc_reg,
                    &source,
                );
                proof {
                    let mid = choose|mid: M|
                        (#[trigger] M::write_ok(
                            *old(memory),
                            (word_in(old(memory).mem(), fetched_pc) as u16),
                            source.low,
                            mid,
                        )) && M::write_ok(
                            mid,
                            (wrap16(word_in(mid.mem(), fetched_pc) + 1) as u16),
                            source.high,
                            *memory,
                        );
                    assert(fetched_pc == wrap16(old(pc_state).pc_reg.word() + 1));
                    assert(M::write_ok(
                        *old(memory),
                        (word_in(
                            old(memory).mem(),
                            wrap16(old(pc_state).pc_reg.word() + 1),
                        ) as u16),
                        source.low,
                        mid,
                    ));
                    assert(M::write_ok(
                        mid,
                        (wrap16(word_in(
                            mid.mem(),
                            wrap16(old(pc_state).pc_reg.word() + 1),
                        ) + 1) as u16),
                        source.high,
                        *memory,
                    ));
                }
            },
            0x73 => {
                let source = pc_state.sp_reg;
                let ghost fetched_pc = pc_state.pc_reg.word();
                extended_instruction_set::ld_mem_nn_reg16(
                    clock,
                    memory,
                    &mut pc_state.pc_reg,
                    &source,
                );
                proof {
                    let mid = choose|mid: M|
                        (#[trigger] M::write_ok(
                            *old(memory),
                            (word_in(old(memory).mem(), fetched_pc) as u16),
                            source.low,
                            mid,
                        )) && M::write_ok(
                            mid,
                            (wrap16(word_in(mid.mem(), fetched_pc) + 1) as u16),
                            source.high,
                            *memory,
                        );
                    assert(fetched_pc == wrap16(old(pc_state).pc_reg.word() + 1));
                    assert(M::write_ok(
                        *old(memory),
                        (word_in(
                            old(memory).mem(),
                            wrap16(old(pc_state).pc_reg.word() + 1),
                        ) as u16),
                        source.low,
                        mid,
                    ));
                    assert(M::write_ok(
                        mid,
                        (wrap16(word_in(
                            mid.mem(),
                            wrap16(old(pc_state).pc_reg.word() + 1),
                        ) + 1) as u16),
                        source.high,
                        *memory,
                    ));
                }
            },
            0x5f => {
                extended_instruction_set::ld_a_r(clock, pc_state);
            },
            0x57 => {
                extended_instruction_set::ld_a_i(clock, pc_state);
            },
            0x47 => {
                extended_instruction_set::ld_i_a(clock, pc_state);
            },
            0x4f => {
                extended_instruction_set::ld_r_a(clock, pc_state);
            },
            0x67 => {
                extended_instruction_set::rrd(clock, memory, pc_state);
            },
            0x6f => {
                extended_instruction_set::rld(clock, memory, pc_state);
            },
            0x44 => {
                extended_instruction_set::neg(clock, pc_state);
            },
            0x4d => {
                extended_instruction_set::reti(clock, &*memory, pc_state);
            },
            0x56 => {
                extended_instruction_set::im_1(clock, pc_state);
            },
            // LD dd,(nn): 0b01dd1011.
            n if n % 16 == 0xB && n / 64 == 1 => {
                let dd = (n / 16) % 4;
                let sel = decode_reg16(dd);
                extended_instruction_set::ld_dd_mem_nn(clock, &*memory, pc_state, sel);
            },
            // IN r,(C): 0b01rrr000, register field 6 reserved.
            n if n % 8 == 0 && n / 64 == 1 && (n / 8) % 8 != 6 => {
                let reg_index = (n / 8) % 8;
                let dst = decode_reg8(reg_index);
                let port = pc_state.get_c();
                extended_instruction_set::in_r(clock, port, pc_state, dst, ports);
            },
            // OUT (C),r: 0b01rrr001, register field 6 reserved.
            n if n % 8 == 1 && n / 64 == 1 && (n / 8) % 8 != 6 => {
                let reg_index = (n / 8) % 8;
                let port = pc_state.get_c();
                let value = select_8_bit_read_register(pc_state, reg_index);
                extended_instruction_set::out_r(clock, port, value, ports);
            },
            // ADC HL,ss: 0b01ss1010.
            n if n % 16 == 0xA && n / 64 == 1 => {
                let ss = (n / 16) % 4;
                let src_value = select_16_bit_read_register(pc_state, ss);
                extended_instruction_set::adc_hl_r16(
                    clock,
                    src_value,
                    &mut pc_state.hl_reg,
                    &mut pc_state.af_reg,
                );
            },
            // SBC HL,ss: 0b01ss0010.
            n if n % 16 == 0x2 && n / 64 == 1 => {
                let ss = (n / 16) % 4;
                let src_value = select_16_bit_read_register(pc_state, ss);
                extended_instruction_set::sbc_hl_r16(
                    clock,
                    src_value,
                    &mut pc_state.hl_reg,
                    &mut pc_state.af_reg,
                );
            },
            _ => {
                return Err(
                    CpuError::UnknownExtendedOpcode {
                        prefix: 0xed,
                        opcode: op_code,
                        pc: pc_state.get_pc(),
                    },
                );
            },
        }
        Ok(())
    }

    /// The 0x80-0xBF block of the 0xED table: the block transfer, search
    /// and repeated I/O group.
    #[verifier::spinoff_prover]
    #[verifier::rlimit(100)]
    fn execute_ed_block<M: MemoryRW, D: Device>(
        clock: &mut Clock,
        memory: &mut M,
        pc_state: &mut PcState,
        ports: &mut Ports<D>,
    ) -> (r: Result<(), CpuError>)
        requires
            old(memory).inv(),
            old(ports).inv(),
            old(memory).mem()[old(pc_state).pc_reg.word()] / 64 == 2,
        ensures
            final(memory).inv(),
            final(ports).inv(),
            ed_rel(
                old(clock).cycles,
                final(clock).cycles,
                *old(memory),
                *final(memory),
                *old(pc_state),
                *final(pc_state),
                old(ports).devices@,
                final(ports).devices@,
                r,
            ),
    {
        let op_code = memory.read(pc_state.get_pc());
        pc_state.increment_pc(1);

        match op_code {
            0xa3 => {
                extended_instruction_set::outi(clock, &*memory, pc_state, ports);
            },
            0xab => {
                extended_instruction_set::outd(clock, &*memory, pc_state, ports);
            },
            0xb3 => {
                extended_instruction_set::otir(clock, &*memory, pc_state, ports);
            },
            0xb8 => {
                extended_instruction_set::lddr(clock, memory, pc_state);
            },
            0xb0 => {
                extended_instruction_set::ldir(clock, memory, pc_state);
            },
            0xa2 => {
                extended_instruction_set::ini(clock, memory, pc_state, ports);
            },
            0xa1 => {
                extended_instruction_set::cpi(clock, &*memory, pc_state);
            },
            0xa9 => {
                extended_instruction_set::cpd(clock, &*memory, pc_state);
            },
            0xb1 => {
                extended_instruction_set::cpir(clock, &*memory, pc_state);
            },
            0xb9 => {
                extended_instruction_set::cpdr(clock, &*memory, pc_state);
            },
            0xa0 => {
                extended_instruction_set::ldi(clock, memory, pc_state);
            },
            0xa8 => {
                extended_instruction_set::ldd(clock, memory, pc_state);
            },
            _ => {
                return Err(
                    CpuError::UnknownExtendedOpcode {
                        prefix: 0xed,
                        opcode: op_code,
                        pc: pc_state.get_pc(),
                    },
                );
            },
        }
        Ok(())
    }

    /// The remainder of the 0xED table: only the no-op slot decodes.
    #[verifier::spinoff_prover]
    fn execute_ed_other<M: MemoryRW, D: Device>(
        clock: &mut Clock,
        memory: &mut M,
        pc_state: &mut PcState,
        ports: &mut Ports<D>,
    ) -> (r: Result<(), CpuError>)
        requires
            old(memory).inv(),
            old(ports).inv(),
            old(memory).mem()[old(pc_state).pc_reg.word()] / 64 != 1,
            old(memory).mem()[old(pc_state).pc_reg.word()] / 64 != 2,
        ensures
            final(memory).inv(),
            final(ports).inv(),
            ed_rel(
                old(clock).cycles,
                final(clock).cycles,
                *old(memory),
                *final(memory),
                *old(pc_state),
                *final(pc_state),
                old(ports).devices@,
                final(ports).devices@,
                r,
            ),
    {
        let op_code = memory.read(pc_state.get_pc());
        pc_state.increment_pc(1);

        match op_code {
            0x00 => {
                instruction_set::noop(clock, pc_state);
            },
            _ => {
                return Err(
                    CpuError::UnknownExtendedOpcode {
                        prefix: 0xed,
                        opcode: op_code,
                        pc: pc_state.get_pc(),
                    },
                );
            },
        }
        Ok(())
    }
}

} // verus!
