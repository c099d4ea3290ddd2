use crate::clocks::Clock;
use crate::clocks::cycles_after;
use crate::memory::MemoryRW;
use crate::memory::PlainMemory;
use crate::memory::word_in;
use crate::memory::write2_ok;
use crate::pc_state::PcState;
use crate::pc_state::PcStatusFlagFields;
use crate::pc_state::Reg16;
use crate::pc_state::Reg8Sel;
use crate::pc_state::Reg16Sel;
use crate::pc_state::as_i8;
use crate::pc_state::hi;
use crate::pc_state::lo;
use crate::pc_state::lemma_reg16_bytes;
use crate::pc_state::lemma_wrap16_add;
use crate::pc_state::wrap16;
use crate::ports::Device;
use crate::ports::Ports;
use crate::ports::port_read_rel;
use crate::status_flags;
use crate::status_flags::add8_carry;
use crate::status_flags::add8_half;
use crate::status_flags::add8_overflow;
use crate::status_flags::add8_result;
use crate::status_flags::add16_carry;
use crate::status_flags::add16_half;
use crate::status_flags::add16_result;
use crate::status_flags::bool_bit;
use crate::status_flags::parity;
use crate::status_flags::sign8;
use crate::status_flags::sub8_borrow;
use crate::status_flags::sub8_half;
use crate::status_flags::sub8_overflow;
use crate::status_flags::sub8_result;
use vstd::prelude::*;

verus! {

/// The displacement byte of an instruction, as the signed amount it moves an
/// address by.
pub fn displacement(e: u8) -> (d: i8)
    ensures
        d == as_i8(e),
{
    if e < 128 {
        e as i8
    } else {
        (e as i16 - 256) as i8
    }
}

// Rotate and shift primitives.  Each returns the new byte and the bit that
// moved out into the carry flag.

/// Result byte of a right shift that keeps the sign bit (SRA).
pub open spec fn sra_val(v: u8) -> u8 {
    (v >> 1) | (v & 0x80)
}

/// Result byte of a plain right shift (SRL).
pub open spec fn srl_val(v: u8) -> u8 {
    v >> 1
}

/// Result byte of a left shift (SLA).
pub open spec fn sla_val(v: u8) -> u8 {
    v << 1
}

/// Result byte of the undocumented left shift that sets bit 0 (SLL).
pub open spec fn sll_val(v: u8) -> u8 {
    (v << 1) | 1
}

/// Result byte of a right rotation through itself (RRC): bit 0 reappears as
/// bit 7.
pub open spec fn rrc_val(v: u8) -> u8 {
    (v >> 1) | ((v & 1) << 7)
}

/// Result byte of a right rotation through the carry flag (RR).
pub open spec fn rr_val(v: u8, carry: bool) -> u8 {
    (v >> 1) | (if carry {
        0x80u8
    } else {
        0u8
    })
}

/// Result byte of a left rotation through itself (RLC): bit 7 reappears as
/// bit 0.
pub open spec fn rlc_val(v: u8) -> u8 {
    (v << 1) | ((v >> 7) & 1)
}

/// Result byte of a left rotation through the carry flag (RL).
pub open spec fn rl_val(v: u8, carry: bool) -> u8 {
    (v << 1) | (if carry {
        1u8
    } else {
        0u8
    })
}

/// Whether bit 0 is set: the bit a right shift or rotation moves out.
pub open spec fn bit0_set(v: u8) -> bool {
    v & 1 == 1
}

/// Whether bit 7 is set: the bit a left shift or rotation moves out.
pub open spec fn bit7_set(v: u8) -> bool {
    (v >> 7) & 1 == 1
}

/// Shift right, maintaining the sign bit; bit 0 moves out.
pub fn shift_right_arithmetic(input: u8) -> (r: (u8, bool))
    ensures
        r.0 == sra_val(input),
        r.1 == bit0_set(input),
{
    let bit0 = input & 0b1 == 1;
    let result = (input >> 1) | (input & 0x80u8);
    (result, bit0)
}

/// Shift right; bit 0 moves out.
pub fn shift_right_logical(input: u8) -> (r: (u8, bool))
    ensures
        r.0 == srl_val(input),
        r.1 == bit0_set(input),
{
    let bit0 = input & 0b1 == 1;
    let result = input >> 1;
    (result, bit0)
}

/// Shift left; bit 7 moves out.
pub fn shift_left_arithmetic(input: u8) -> (r: (u8, bool))
    ensures
        r.0 == sla_val(input),
        r.1 == bit7_set(input),
{
    let bit7 = (input >> 7) & 0b1 == 1;
    let result = input << 1;
    (result, bit7)
}

/// Shift left, setting bit 0; bit 7 moves out.
pub fn shift_left_logical(input: u8) -> (r: (u8, bool))
    ensures
        r.0 == sll_val(input),
        r.1 == bit7_set(input),
{
    let bit7 = (input >> 7) & 0b1 == 1;
    let result = (input << 1) | 0x1;
    (result, bit7)
}

/// Rotate right; bit 0 moves into both the carry and bit 7.
pub fn rotate_right_carry(input: u8) -> (r: (u8, bool))
    ensures
        r.0 == rrc_val(input),
        r.1 == bit0_set(input),
{
    let bit0 = input & 0b1 == 1;
    let result = (input >> 1) | ((input & 1) << 7);
    (result, bit0)
}

/// Rotate right; bit 0 moves into the carry, the old carry into bit 7.
pub fn rotate_right(input: u8, carry: bool) -> (r: (u8, bool))
    ensures
        r.0 == rr_val(input, carry),
        r.1 == bit0_set(input),
{
    let bit0 = input & 0b1 == 1;
    let result = (input >> 1) | (if carry {
        0x80u8
    } else {
        0u8
    });
    (result, bit0)
}

/// Rotate left; bit 7 moves into both the carry and bit 0.
pub fn rotate_left_carry(input: u8) -> (r: (u8, bool))
    ensures
        r.0 == rlc_val(input),
        r.1 == bit7_set(input),
{
    let bit7 = (input >> 7) & 0b1 == 1;
    let result = (input << 1) | ((input >> 7) & 1);
    (result, bit7)
}

/// Rotate left; bit 7 moves into the carry, the old carry into bit 0.
pub fn rotate_left(input: u8, carry: bool) -> (r: (u8, bool))
    ensures
        r.0 == rl_val(input, carry),
        r.1 == bit7_set(input),
{
    let bit7 = (input >> 7) & 0b1 == 1;
    let result = (input << 1) | (if carry {
        1u8
    } else {
        0u8
    });
    (result, bit7)
}

// CPU control.

/// NOP: burn four T-states.
pub fn noop(clock: &mut Clock, pc_state: &mut PcState)
    ensures
        final(clock).cycles == cycles_after(old(clock).cycles, 4),
        *final(pc_state) == *old(pc_state),
{
    clock.increment(4);
}

/// EI: raise both interrupt-enable flip-flops.
pub fn ei(clock: &mut Clock, pc_state: &mut PcState)
    ensures
        final(clock).cycles == cycles_after(old(clock).cycles, 4),
        *final(pc_state) == (PcState { iff1: true, iff2: true, ..*old(pc_state) }),
{
    pc_state.set_iff1(true);
    pc_state.set_iff2(true);
    clock.increment(4);
}

/// DI: lower both interrupt-enable flip-flops.
pub fn di(clock: &mut Clock, pc_state: &mut PcState)
    ensures
        final(clock).cycles == cycles_after(old(clock).cycles, 4),
        *final(pc_state) == (PcState { iff1: false, iff2: false, ..*old(pc_state) }),
{
    pc_state.set_iff1(false);
    pc_state.set_iff2(false);
    clock.increment(4);
}

/// HALT: spin on this instruction by stepping PC back over it.
pub fn halt(clock: &mut Clock, pc_reg: &mut Reg16)
    ensures
        final(clock).cycles == cycles_after(old(clock).cycles, 4),
        final(pc_reg).word() == wrap16(old(pc_reg).word() - 1),
{
    clock.increment(4);
    PcState::increment_reg(pc_reg, -1);
}

// Port input and output.

/// IN A,(n): read the port named by the operand byte into the accumulator.
pub fn in_a_n<M: MemoryRW, D: Device>(
    clock: &mut Clock,
    memory: &M,
    pc_state: &mut PcState,
    ports: &mut Ports<D>,
)
    requires
        memory.inv(),
        old(ports).inv(),
    ensures
        final(ports).inv(),
        final(clock).cycles == cycles_after(old(clock).cycles, 11),
        final(pc_state).pc_reg.word() == wrap16(old(pc_state).pc_reg.word() + 1),
        *final(pc_state) == (PcState {
            pc_reg: final(pc_state).pc_reg,
            ..old(pc_state).with8(Reg8Sel::A, final(pc_state).af_reg.high)
        }),
        port_read_rel(
            old(ports).devices@,
            final(ports).devices@,
            old(clock).cycles,
            memory.mem()[old(pc_state).pc_reg.word()],
            final(pc_state).af_reg.high,
        ),
{
    let port = memory.read(pc_state.get_pc());
    let value = ports.port_read(clock, port);
    pc_state.set_a(value);
    pc_state.increment_pc(1);
    clock.increment(11);
}

/// OUT (n),A: write the accumulator to the port named by the operand byte.
pub fn out_n_a<M: MemoryRW, D: Device>(
    clock: &mut Clock,
    memory: &M,
    pc_state: &mut PcState,
    ports: &mut Ports<D>,
)
    requires
        memory.inv(),
        old(ports).inv(),
    ensures
        final(ports).inv(),
        final(clock).cycles == cycles_after(old(clock).cycles, 11),
        final(pc_state).pc_reg.word() == wrap16(old(pc_state).pc_reg.word() + 1),
        *final(pc_state) == (PcState { pc_reg: final(pc_state).pc_reg, ..*old(pc_state) }),
        final(ports).devices@.len() == old(ports).devices@.len(),
        forall|j: int|
            0 <= j < old(ports).devices@.len() ==> (#[trigger] final(ports).devices@[j]) == old(
                ports,
            ).devices@[j].after_write(
                old(clock).cycles,
                memory.mem()[old(pc_state).pc_reg.word()],
                old(pc_state).af_reg.high,
            ),
{
    let port = memory.read(pc_state.get_pc());
    let value = pc_state.get_a();
    ports.port_write(clock, port, value);
    pc_state.increment_pc(1);
    clock.increment(11);
}

// 8-bit arithmetic helpers operating on the AF pair.

/// Add two bytes, setting all arithmetic flags and clearing N.
pub fn add8(a: u8, b: u8, af_reg: &mut Reg16) -> (r: u8)
    ensures
        r == add8_result(a, b, false),
        final(af_reg).high == old(af_reg).high,
        final(af_reg).flags().c() == bool_bit(add8_carry(a, b, false)),
        final(af_reg).flags().h() == bool_bit(add8_half(a, b, false)),
        final(af_reg).flags().pv() == bool_bit(add8_overflow(a, b, false)),
        final(af_reg).flags().n() == 0,
        final(af_reg).flags().s() == bool_bit(sign8(add8_result(a, b, false))),
        final(af_reg).flags().z() == bool_bit(add8_result(a, b, false) == 0),
        final(af_reg).flags().b3() == old(af_reg).flags().b3(),
        final(af_reg).flags().b5() == old(af_reg).flags().b5(),
{
    add8c(a, b, false, af_reg)
}

/// Add two bytes and a carry-in, setting all arithmetic flags and clearing N.
pub fn add8c(a: u8, b: u8, c: bool, af_reg: &mut Reg16) -> (r: u8)
    ensures
        r == add8_result(a, b, c),
        final(af_reg).high == old(af_reg).high,
        final(af_reg).flags().c() == bool_bit(add8_carry(a, b, c)),
        final(af_reg).flags().h() == bool_bit(add8_half(a, b, c)),
        final(af_reg).flags().pv() == bool_bit(add8_overflow(a, b, c)),
        final(af_reg).flags().n() == 0,
        final(af_reg).flags().s() == bool_bit(sign8(add8_result(a, b, c))),
        final(af_reg).flags().z() == bool_bit(add8_result(a, b, c) == 0),
        final(af_reg).flags().b3() == old(af_reg).flags().b3(),
        final(af_reg).flags().b5() == old(af_reg).flags().b5(),
{
    let mut f_status = af_reg.get_flags();
    let result = status_flags::u8_carry(a, b, c, &mut f_status);
    f_status.set_n(0);
    af_reg.set_flags(&f_status);
    result
}

/// Subtract one byte from another, setting all arithmetic flags and N.
pub fn sub8(a: u8, b: u8, af_reg: &mut Reg16) -> (r: u8)
    ensures
        r == sub8_result(a, b, false),
        final(af_reg).high == old(af_reg).high,
        final(af_reg).flags().c() == bool_bit(sub8_borrow(a, b, false)),
        final(af_reg).flags().h() == bool_bit(sub8_half(a, b, false)),
        final(af_reg).flags().pv() == bool_bit(sub8_overflow(a, b, false)),
        final(af_reg).flags().n() == 1,
        final(af_reg).flags().s() == bool_bit(sign8(sub8_result(a, b, false))),
        final(af_reg).flags().z() == bool_bit(sub8_result(a, b, false) == 0),
        final(af_reg).flags().b3() == old(af_reg).flags().b3(),
        final(af_reg).flags().b5() == old(af_reg).flags().b5(),
{
    let mut f_status = af_reg.get_flags();
    let result = status_flags::i8_no_carry(a, b, &mut f_status);
    f_status.set_n(1);
    af_reg.set_flags(&f_status);
    result
}

/// Subtract a byte and a borrow-in, setting all arithmetic flags and N.
pub fn sub8c(a: u8, b: u8, c: bool, af_reg: &mut Reg16) -> (r: u8)
    ensures
        r == sub8_result(a, b, c),
        final(af_reg).high == old(af_reg).high,
        final(af_reg).flags().c() == bool_bit(sub8_borrow(a, b, c)),
        final(af_reg).flags().h() == bool_bit(sub8_half(a, b, c)),
        final(af_reg).flags().pv() == bool_bit(sub8_overflow(a, b, c)),
        final(af_reg).flags().n() == 1,
        final(af_reg).flags().s() == bool_bit(sign8(sub8_result(a, b, c))),
        final(af_reg).flags().z() == bool_bit(sub8_result(a, b, c) == 0),
        final(af_reg).flags().b3() == old(af_reg).flags().b3(),
        final(af_reg).flags().b5() == old(af_reg).flags().b5(),
{
    let mut f_status = af_reg.get_flags();
    let result = status_flags::i8_carry(a, b, c, &mut f_status);
    f_status.set_n(1);
    af_reg.set_flags(&f_status);
    result
}

/// Compare: set the flags a subtraction would set, discarding the result.
pub fn cp_flags(a: u8, b: u8, af_reg: &mut Reg16)
    ensures
        final(af_reg).high == old(af_reg).high,
        final(af_reg).flags().c() == bool_bit(sub8_borrow(a, b, false)),
        final(af_reg).flags().h() == bool_bit(sub8_half(a, b, false)),
        final(af_reg).flags().pv() == bool_bit(sub8_overflow(a, b, false)),
        final(af_reg).flags().n() == 1,
        final(af_reg).flags().s() == bool_bit(sign8(sub8_result(a, b, false))),
        final(af_reg).flags().z() == bool_bit(sub8_result(a, b, false) == 0),
        final(af_reg).flags().b3() == old(af_reg).flags().b3(),
        final(af_reg).flags().b5() == old(af_reg).flags().b5(),
{
    sub8(a, b, af_reg);
}

// The decimal-adjust correction table.  The amount added to the accumulator
// and the resulting carry and half-carry depend on the N, H and C flags and
// the two nibbles of A.

/// Correction added by DAA after an addition.
pub open spec fn daa_add_amount(a: u8, half: u8, carry: u8) -> u8 {
    let upper = a / 16;
    let lower = a % 16;
    if carry == 0 {
        if upper <= 9 && half == 0 && lower <= 9 {
            0
        } else if (upper <= 8 && half == 0 && lower >= 0xA) || (upper <= 9 && half == 1 && lower
            <= 0x3) {
            0x06
        } else if upper >= 0xA && half == 0 && lower <= 0x9 {
            0x60
        } else if (upper >= 0x9 && half == 0 && lower >= 0xA) || (upper >= 0xA && half == 1
            && lower <= 0x3) {
            0x66
        } else {
            0
        }
    } else {
        if upper <= 0x2 && half == 0 && lower <= 0x9 {
            0x60
        } else if (upper <= 0x2 && half == 0 && lower >= 0xA) || (upper <= 0x3 && half == 1
            && lower <= 0x3) {
            0x66
        } else {
            0
        }
    }
}

/// Carry flag left by DAA after an addition.
pub open spec fn daa_add_carry(a: u8, half: u8, carry: u8) -> u8 {
    let upper = a / 16;
    let lower = a % 16;
    if carry == 1 {
        1
    } else if upper >= 0xA && half == 0 && lower <= 0x9 {
        1
    } else if (upper >= 0x9 && half == 0 && lower >= 0xA) || (upper >= 0xA && half == 1 && lower
        <= 0x3) {
        1
    } else {
        0
    }
}

/// Correction added by DAA after a subtraction.
pub open spec fn daa_sub_amount(a: u8, half: u8, carry: u8) -> u8 {
    let upper = a / 16;
    let lower = a % 16;
    if carry == 0 {
        if upper <= 9 && half == 0 && lower <= 9 {
            0
        } else if upper <= 0x8 && half == 1 && lower >= 0x6 {
            0xFA
        } else {
            0
        }
    } else {
        if upper >= 0x7 && half == 0 && lower <= 0x9 {
            0xA0
        } else if upper >= 0x6 && half == 1 && lower >= 0x6 {
            0x9A
        } else {
            0
        }
    }
}

/// Half-carry flag left by DAA after a subtraction.
pub open spec fn daa_sub_half(a: u8, half: u8, carry: u8) -> u8 {
    let upper = a / 16;
    let lower = a % 16;
    if carry == 1 && upper >= 0x6 && half == 1 && lower >= 0x6 {
        0
    } else {
        half
    }
}

/// Accumulator after DAA, for either arithmetic direction.
pub open spec fn daa_result(a: u8, f: PcStatusFlagFields) -> u8 {
    if f.n() == 0 {
        ((a + daa_add_amount(a, f.h(), f.c())) % 256) as u8
    } else {
        ((a + daa_sub_amount(a, f.h(), f.c())) % 256) as u8
    }
}

/// Carry flag after DAA.
pub open spec fn daa_carry(a: u8, f: PcStatusFlagFields) -> u8 {
    if f.n() == 0 {
        daa_add_carry(a, f.h(), f.c())
    } else {
        f.c()
    }
}

/// Half-carry flag after DAA.
pub open spec fn daa_half(a: u8, f: PcStatusFlagFields) -> u8 {
    if f.n() == 0 {
        f.h()
    } else {
        daa_sub_half(a, f.h(), f.c())
    }
}

/// DAA correction following an addition.
#[verifier::rlimit(50)]
fn calculate_daa_add(pc_state: &mut PcState)
    requires
        old(pc_state).f().n() == 0,
    ensures
        final(pc_state).af_reg.high == daa_result(
            old(pc_state).af_reg.high,
            old(pc_state).f(),
        ),
        final(pc_state).f().c() == daa_add_carry(
            old(pc_state).af_reg.high,
            old(pc_state).f().h(),
            old(pc_state).f().c(),
        ),
        final(pc_state).f().h() == old(pc_state).f().h(),
        final(pc_state).f().n() == old(pc_state).f().n(),
        final(pc_state).f().pv() == bool_bit(
            parity(daa_result(old(pc_state).af_reg.high, old(pc_state).f())),
        ),
        final(pc_state).f().s() == bool_bit(
            sign8(daa_result(old(pc_state).af_reg.high, old(pc_state).f())),
        ),
        final(pc_state).f().z() == bool_bit(
            daa_result(old(pc_state).af_reg.high, old(pc_state).f()) == 0,
        ),
        final(pc_state).f().b3() == old(pc_state).f().b3(),
        final(pc_state).f().b5() == old(pc_state).f().b5(),
        *final(pc_state) == (PcState { af_reg: final(pc_state).af_reg, ..*old(pc_state) }),
{
    let a = pc_state.get_a();
    let upper = a / 16;
    let lower = a % 16;
    let mut f_status = pc_state.get_f();
    let half = f_status.get_h();
    let carry = f_status.get_c();

    let amount: u8 = if carry == 0 {
        if upper <= 9 && half == 0 && lower <= 9 {
            0
        } else if (upper <= 8 && half == 0 && lower >= 0xA) || (upper <= 9 && half == 1 && lower
            <= 0x3) {
            0x06
        } else if upper >= 0xA && half == 0 && lower <= 0x9 {
            0x60
        } else if (upper >= 0x9 && half == 0 && lower >= 0xA) || (upper >= 0xA && half == 1
            && lower <= 0x3) {
            0x66
        } else {
            0
        }
    } else {
        if upper <= 0x2 && half == 0 && lower <= 0x9 {
            0x60
        } else if (upper <= 0x2 && half == 0 && lower >= 0xA) || (upper <= 0x3 && half == 1
            && lower <= 0x3) {
            0x66
        } else {
            0
        }
    };
    assert(amount == daa_add_amount(a, half, carry));
    let carry_out: u8 = if carry == 1 {
        1
    } else if upper >= 0xA && half == 0 && lower <= 0x9 {
        1
    } else if (upper >= 0x9 && half == 0 && lower >= 0xA) || (upper >= 0xA && half == 1 && lower
        <= 0x3) {
        1
    } else {
        0
    };
    assert(carry_out == daa_add_carry(a, half, carry));
    let adjusted: u8 = ((a as u16 + amount as u16) % 256) as u8;
    pc_state.set_a(adjusted);
    if carry == 0 {
        f_status.set_c(carry_out);
    }
    f_status.set_pv(
        if status_flags::calculate_parity(adjusted) {
            1
        } else {
            0
        },
    );
    if adjusted >= 0x80 {
        f_status.set_s(1);
    } else {
        f_status.set_s(0);
    }
    if adjusted == 0 {
        f_status.set_z(1);
    } else {
        f_status.set_z(0);
    }
    pc_state.set_f(f_status);
}

/// DAA correction following a subtraction.
#[verifier::rlimit(50)]
fn calculate_daa_sub(pc_state: &mut PcState)
    requires
        old(pc_state).f().n() != 0,
    ensures
        final(pc_state).af_reg.high == daa_result(
            old(pc_state).af_reg.high,
            old(pc_state).f(),
        ),
        final(pc_state).f().c() == old(pc_state).f().c(),
        final(pc_state).f().h() == daa_sub_half(
            old(pc_state).af_reg.high,
            old(pc_state).f().h(),
            old(pc_state).f().c(),
        ),
        final(pc_state).f().n() == old(pc_state).f().n(),
        final(pc_state).f().pv() == bool_bit(
            parity(daa_result(old(pc_state).af_reg.high, old(pc_state).f())),
        ),
        final(pc_state).f().s() == bool_bit(
            sign8(daa_result(old(pc_state).af_reg.high, old(pc_state).f())),
        ),
        final(pc_state).f().z() == bool_bit(
            daa_result(old(pc_state).af_reg.high, old(pc_state).f()) == 0,
        ),
        final(pc_state).f().b3() == old(pc_state).f().b3(),
        final(pc_state).f().b5() == old(pc_state).f().b5(),
        *final(pc_state) == (PcState { af_reg: final(pc_state).af_reg, ..*old(pc_state) }),
{
    let a = pc_state.get_a();
    let upper = a / 16;
    let lower = a % 16;
    let mut f_status = pc_state.get_f();
    let half = f_status.get_h();
    let carry = f_status.get_c();

    let amount: u8 = if carry == 0 {
        if upper <= 9 && half == 0 && lower <= 9 {
            0
        } else if upper <= 0x8 && half == 1 && lower >= 0x6 {
            0xFA
        } else {
            0
        }
    } else {
        if upper >= 0x7 && half == 0 && lower <= 0x9 {
            0xA0
        } else if upper >= 0x6 && half == 1 && lower >= 0x6 {
            0x9A
        } else {
            0
        }
    };
    assert(amount == daa_sub_amount(a, half, carry));
    let adjusted: u8 = ((a as u16 + amount as u16) % 256) as u8;
    pc_state.set_a(adjusted);
    if carry == 1 && upper >= 0x6 && half == 1 && lower >= 0x6 {
        f_status.set_h(0);
    }
    f_status.set_pv(
        if status_flags::calculate_parity(adjusted) {
            1
        } else {
            0
        },
    );
    if adjusted >= 0x80 {
        f_status.set_s(1);
    } else {
        f_status.set_s(0);
    }
    if adjusted == 0 {
        f_status.set_z(1);
    } else {
        f_status.set_z(0);
    }
    pc_state.set_f(f_status);
}

/// DAA: decimal-adjust the accumulator after BCD arithmetic, branching on
/// the N flag for the add and subtract correction tables.
pub fn daa(clock: &mut Clock, pc_state: &mut PcState)
    ensures
        final(clock).cycles == cycles_after(old(clock).cycles, 4),
        final(pc_state).af_reg.high == daa_result(old(pc_state).af_reg.high, old(pc_state).f()),
        final(pc_state).f().c() == daa_carry(old(pc_state).af_reg.high, old(pc_state).f()),
        final(pc_state).f().h() == daa_half(old(pc_state).af_reg.high, old(pc_state).f()),
        final(pc_state).f().n() == old(pc_state).f().n(),
        final(pc_state).f().pv() == bool_bit(
            parity(daa_result(old(pc_state).af_reg.high, old(pc_state).f())),
        ),
        final(pc_state).f().s() == bool_bit(
            sign8(daa_result(old(pc_state).af_reg.high, old(pc_state).f())),
        ),
        final(pc_state).f().z() == bool_bit(
            daa_result(old(pc_state).af_reg.high, old(pc_state).f()) == 0,
        ),
        final(pc_state).f().b3() == old(pc_state).f().b3(),
        final(pc_state).f().b5() == old(pc_state).f().b5(),
        *final(pc_state) == (PcState { af_reg: final(pc_state).af_reg, ..*old(pc_state) }),
{
    let f = pc_state.get_f();
    if f.get_n() == 0 {
        calculate_daa_add(pc_state);
    } else {
        calculate_daa_sub(pc_state);
    }
    clock.increment(4);
}

// Accumulator rotates.

/// RRCA: rotate the accumulator right, bit 0 into carry and bit 7.
pub fn rrca(clock: &mut Clock, pc_state: &mut PcState)
    ensures
        final(clock).cycles == cycles_after(old(clock).cycles, 4),
        final(pc_state).af_reg.high == rrc_val(old(pc_state).af_reg.high),
        final(pc_state).f().c() == bool_bit(bit0_set(old(pc_state).af_reg.high)),
        final(pc_state).f().h() == 0,
        final(pc_state).f().n() == 0,
        final(pc_state).f().pv() == old(pc_state).f().pv(),
        final(pc_state).f().s() == old(pc_state).f().s(),
        final(pc_state).f().z() == old(pc_state).f().z(),
        final(pc_state).f().b3() == old(pc_state).f().b3(),
        final(pc_state).f().b5() == old(pc_state).f().b5(),
        *final(pc_state) == (PcState { af_reg: final(pc_state).af_reg, ..*old(pc_state) }),
{
    let (new_value, carry) = rotate_right_carry(pc_state.get_a());
    pc_state.set_a(new_value);
    let mut f_value = pc_state.get_f();
    status_flags::set_rotate_accumulator_flags(carry, &mut f_value);
    pc_state.set_f(f_value);
    clock.increment(4);
}

/// RRA: rotate the accumulator right through the carry flag.
pub fn rra(clock: &mut Clock, pc_state: &mut PcState)
    ensures
        final(clock).cycles == cycles_after(old(clock).cycles, 4),
        final(pc_state).af_reg.high == rr_val(
            old(pc_state).af_reg.high,
            old(pc_state).f().c() == 1,
        ),
        final(pc_state).f().c() == bool_bit(bit0_set(old(pc_state).af_reg.high)),
        final(pc_state).f().h() == 0,
        final(pc_state).f().n() == 0,
        final(pc_state).f().pv() == old(pc_state).f().pv(),
        final(pc_state).f().s() == old(pc_state).f().s(),
        final(pc_state).f().z() == old(pc_state).f().z(),
        final(pc_state).f().b3() == old(pc_state).f().b3(),
        final(pc_state).f().b5() == old(pc_state).f().b5(),
        *final(pc_state) == (PcState { af_reg: final(pc_state).af_reg, ..*old(pc_state) }),
{
    let mut f_value = pc_state.get_f();
    let (new_value, carry) = rotate_right(pc_state.get_a(), f_value.get_c() == 1);
    pc_state.set_a(new_value);
    status_flags::set_rotate_accumulator_flags(carry, &mut f_value);
    pc_state.set_f(f_value);
    clock.increment(4);
}

/// RLCA: rotate the accumulator left, bit 7 into carry and bit 0.
pub fn rlca(clock: &mut Clock, pc_state: &mut PcState)
    ensures
        final(clock).cycles == cycles_after(old(clock).cycles, 4),
        final(pc_state).af_reg.high == rlc_val(old(pc_state).af_reg.high),
        final(pc_state).f().c() == bool_bit(bit7_set(old(pc_state).af_reg.high)),
        final(pc_state).f().h() == 0,
        final(pc_state).f().n() == 0,
        final(pc_state).f().pv() == old(pc_state).f().pv(),
        final(pc_state).f().s() == old(pc_state).f().s(),
        final(pc_state).f().z() == old(pc_state).f().z(),
        final(pc_state).f().b3() == old(pc_state).f().b3(),
        final(pc_state).f().b5() == old(pc_state).f().b5(),
        *final(pc_state) == (PcState { af_reg: final(pc_state).af_reg, ..*old(pc_state) }),
{
    let (new_value, carry) = rotate_left_carry(pc_state.get_a());
    pc_state.set_a(new_value);
    let mut f_value = pc_state.get_f();
    status_flags::set_rotate_accumulator_flags(carry, &mut f_value);
    pc_state.set_f(f_value);
    clock.increment(4);
}

/// RLA: rotate the accumulator left through the carry flag.
pub fn rla(clock: &mut Clock, pc_state: &mut PcState)
    ensures
        final(clock).cycles == cycles_after(old(clock).cycles, 4),
        final(pc_state).af_reg.high == rl_val(
            old(pc_state).af_reg.high,
            old(pc_state).f().c() == 1,
        ),
        final(pc_state).f().c() == bool_bit(bit7_set(old(pc_state).af_reg.high)),
        final(pc_state).f().h() == 0,
        final(pc_state).f().n() == 0,
        final(pc_state).f().pv() == old(pc_state).f().pv(),
        final(pc_state).f().s() == old(pc_state).f().s(),
        final(pc_state).f().z() == old(pc_state).f().z(),
        final(pc_state).f().b3() == old(pc_state).f().b3(),
        final(pc_state).f().b5() == old(pc_state).f().b5(),
        *final(pc_state) == (PcState { af_reg: final(pc_state).af_reg, ..*old(pc_state) }),
{
    let mut f_value = pc_state.get_f();
    let (new_value, carry) = rotate_left(pc_state.get_a(), f_value.get_c() == 1);
    pc_state.set_a(new_value);
    status_flags::set_rotate_accumulator_flags(carry, &mut f_value);
    pc_state.set_f(f_value);
    clock.increment(4);
}

// General-purpose arithmetic and CPU control.

/// CPL: one's-complement the accumulator; H and N set, other flags kept.
pub fn cpl(clock: &mut Clock, pc_state: &mut PcState)
    ensures
        final(clock).cycles == cycles_after(old(clock).cycles, 4),
        final(pc_state).af_reg.high == old(pc_state).af_reg.high ^ 0xFF,
        final(pc_state).f().h() == 1,
        final(pc_state).f().n() == 1,
        final(pc_state).f().c() == old(pc_state).f().c(),
        final(pc_state).f().pv() == old(pc_state).f().pv(),
        final(pc_state).f().s() == old(pc_state).f().s(),
        final(pc_state).f().z() == old(pc_state).f().z(),
        final(pc_state).f().b3() == old(pc_state).f().b3(),
        final(pc_state).f().b5() == old(pc_state).f().b5(),
        *final(pc_state) == (PcState { af_reg: final(pc_state).af_reg, ..*old(pc_state) }),
{
    let mut f_status = pc_state.get_f();
    f_status.set_h(1);
    f_status.set_n(1);
    pc_state.set_f(f_status);
    let complemented = pc_state.get_a() ^ 0xFF;
    pc_state.set_a(complemented);
    clock.increment(4);
}

/// SCF: set the carry flag, clearing H and N.
pub fn scf(clock: &mut Clock, af_reg: &mut Reg16)
    ensures
        final(clock).cycles == cycles_after(old(clock).cycles, 4),
        final(af_reg).high == old(af_reg).high,
        final(af_reg).flags().c() == 1,
        final(af_reg).flags().h() == 0,
        final(af_reg).flags().n() == 0,
        final(af_reg).flags().pv() == old(af_reg).flags().pv(),
        final(af_reg).flags().s() == old(af_reg).flags().s(),
        final(af_reg).flags().z() == old(af_reg).flags().z(),
        final(af_reg).flags().b3() == old(af_reg).flags().b3(),
        final(af_reg).flags().b5() == old(af_reg).flags().b5(),
{
    let mut f_status = af_reg.get_flags();
    f_status.set_h(0);
    f_status.set_n(0);
    f_status.set_c(1);
    af_reg.set_flags(&f_status);
    clock.increment(4);
}

/// CCF: invert the carry flag; H takes the old carry, N is cleared.
pub fn ccf(clock: &mut Clock, af_reg: &mut Reg16)
    ensures
        final(clock).cycles == cycles_after(old(clock).cycles, 4),
        final(af_reg).high == old(af_reg).high,
        final(af_reg).flags().c() == (if old(af_reg).flags().c() == 1 {
            0u8
        } else {
            1u8
        }),
        final(af_reg).flags().h() == old(af_reg).flags().c(),
        final(af_reg).flags().n() == 0,
        final(af_reg).flags().pv() == old(af_reg).flags().pv(),
        final(af_reg).flags().s() == old(af_reg).flags().s(),
        final(af_reg).flags().z() == old(af_reg).flags().z(),
        final(af_reg).flags().b3() == old(af_reg).flags().b3(),
        final(af_reg).flags().b5() == old(af_reg).flags().b5(),
{
    let mut f_status = af_reg.get_flags();
    let carry = f_status.get_c();
    f_status.set_h(carry);
    f_status.set_n(0);
    f_status.set_c(if carry == 1 {
        0
    } else {
        1
    });
    af_reg.set_flags(&f_status);
    clock.increment(4);
}


// 8-bit arithmetic and logic group.

/// ADD A,r: add a register into the accumulator.
pub fn add_r(clock: &mut Clock, r: u8, pc_state: &mut PcState)
    ensures
        final(clock).cycles == cycles_after(old(clock).cycles, 4),
        final(pc_state).af_reg.high == add8_result(old(pc_state).af_reg.high, r, false),
        final(pc_state).f().c() == bool_bit(add8_carry(old(pc_state).af_reg.high, r, false)),
        final(pc_state).f().h() == bool_bit(add8_half(old(pc_state).af_reg.high, r, false)),
        final(pc_state).f().pv() == bool_bit(add8_overflow(old(pc_state).af_reg.high, r, false)),
        final(pc_state).f().n() == 0,
        final(pc_state).f().s() == bool_bit(sign8(add8_result(old(pc_state).af_reg.high, r, false))),
        final(pc_state).f().z() == bool_bit(add8_result(old(pc_state).af_reg.high, r, false) == 0),
        final(pc_state).f().b3() == old(pc_state).f().b3(),
        final(pc_state).f().b5() == old(pc_state).f().b5(),
        *final(pc_state) == (PcState { af_reg: final(pc_state).af_reg, ..*old(pc_state) }),
{
    let result = add8(pc_state.get_a(), r, &mut pc_state.af_reg);
    pc_state.set_a(result);
    clock.increment(4);
}

/// ADC A,r: add a register and the carry flag into the accumulator.
pub fn adc_r(clock: &mut Clock, r: u8, pc_state: &mut PcState)
    ensures
        final(clock).cycles == cycles_after(old(clock).cycles, 4),
        final(pc_state).af_reg.high == add8_result(old(pc_state).af_reg.high, r, old(pc_state).f().c() == 1),
        final(pc_state).f().c() == bool_bit(add8_carry(old(pc_state).af_reg.high, r, old(pc_state).f().c() == 1)),
        final(pc_state).f().h() == bool_bit(add8_half(old(pc_state).af_reg.high, r, old(pc_state).f().c() == 1)),
        final(pc_state).f().pv() == bool_bit(add8_overflow(old(pc_state).af_reg.high, r, old(pc_state).f().c() == 1)),
        final(pc_state).f().n() == 0,
        final(pc_state).f().s() == bool_bit(sign8(add8_result(old(pc_state).af_reg.high, r, old(pc_state).f().c() == 1))),
        final(pc_state).f().z() == bool_bit(add8_result(old(pc_state).af_reg.high, r, old(pc_state).f().c() == 1) == 0),
        final(pc_state).f().b3() == old(pc_state).f().b3(),
        final(pc_state).f().b5() == old(pc_state).f().b5(),
        *final(pc_state) == (PcState { af_reg: final(pc_state).af_reg, ..*old(pc_state) }),
{
    let carry = pc_state.get_f().get_c();
    let result = add8c(pc_state.get_a(), r, carry == 1, &mut pc_state.af_reg);
    pc_state.set_a(result);
    clock.increment(4);
}

/// SUB r: subtract a register from the accumulator.
pub fn sub_r(clock: &mut Clock, r: u8, pc_state: &mut PcState)
    ensures
        final(clock).cycles == cycles_after(old(clock).cycles, 4),
        final(pc_state).af_reg.high == sub8_result(old(pc_state).af_reg.high, r, false),
        final(pc_state).f().c() == bool_bit(sub8_borrow(old(pc_state).af_reg.high, r, false)),
        final(pc_state).f().h() == bool_bit(sub8_half(old(pc_state).af_reg.high, r, false)),
        final(pc_state).f().pv() == bool_bit(sub8_overflow(old(pc_state).af_reg.high, r, false)),
        final(pc_state).f().n() == 1,
        final(pc_state).f().s() == bool_bit(sign8(sub8_result(old(pc_state).af_reg.high, r, false))),
        final(pc_state).f().z() == bool_bit(sub8_result(old(pc_state).af_reg.high, r, false) == 0),
        final(pc_state).f().b3() == old(pc_state).f().b3(),
        final(pc_state).f().b5() == old(pc_state).f().b5(),
        *final(pc_state) == (PcState { af_reg: final(pc_state).af_reg, ..*old(pc_state) }),
{
    let result = sub8(pc_state.get_a(), r, &mut pc_state.af_reg);
    pc_state.set_a(result);
    clock.increment(4);
}

/// SBC A,r: subtract a register and the carry flag from the accumulator.
pub fn sbc_r(clock: &mut Clock, r: u8, pc_state: &mut PcState)
    ensures
        final(clock).cycles == cycles_after(old(clock).cycles, 4),
        final(pc_state).af_reg.high == sub8_result(old(pc_state).af_reg.high, r, old(pc_state).f().c() == 1),
        final(pc_state).f().c() == bool_bit(sub8_borrow(old(pc_state).af_reg.high, r, old(pc_state).f().c() == 1)),
        final(pc_state).f().h() == bool_bit(sub8_half(old(pc_state).af_reg.high, r, old(pc_state).f().c() == 1)),
        final(pc_state).f().pv() == bool_bit(sub8_overflow(old(pc_state).af_reg.high, r, old(pc_state).f().c() == 1)),
        final(pc_state).f().n() == 1,
        final(pc_state).f().s() == bool_bit(sign8(sub8_result(old(pc_state).af_reg.high, r, old(pc_state).f().c() == 1))),
        final(pc_state).f().z() == bool_bit(sub8_result(old(pc_state).af_reg.high, r, old(pc_state).f().c() == 1) == 0),
        final(pc_state).f().b3() == old(pc_state).f().b3(),
        final(pc_state).f().b5() == old(pc_state).f().b5(),
        *final(pc_state) == (PcState { af_reg: final(pc_state).af_reg, ..*old(pc_state) }),
{
    let carry = pc_state.get_f().get_c();
    let result = sub8c(pc_state.get_a(), r, carry == 1, &mut pc_state.af_reg);
    pc_state.set_a(result);
    clock.increment(4);
}

/// ADD A,(HL): add the byte at HL into the accumulator.
pub fn add_hl<M: MemoryRW>(clock: &mut Clock, memory: &M, pc_state: &mut PcState)
    requires
        memory.inv(),
    ensures
        final(clock).cycles == cycles_after(old(clock).cycles, 7),
        final(pc_state).af_reg.high == add8_result(old(pc_state).af_reg.high, memory.mem()[old(pc_state).hl_reg.word()], false),
        final(pc_state).f().c() == bool_bit(add8_carry(old(pc_state).af_reg.high, memory.mem()[old(pc_state).hl_reg.word()], false)),
        final(pc_state).f().h() == bool_bit(add8_half(old(pc_state).af_reg.high, memory.mem()[old(pc_state).hl_reg.word()], false)),
        final(pc_state).f().pv() == bool_bit(add8_overflow(old(pc_state).af_reg.high, memory.mem()[old(pc_state).hl_reg.word()], false)),
        final(pc_state).f().n() == 0,
        final(pc_state).f().s() == bool_bit(sign8(add8_result(old(pc_state).af_reg.high, memory.mem()[old(pc_state).hl_reg.word()], false))),
        final(pc_state).f().z() == bool_bit(add8_result(old(pc_state).af_reg.high, memory.mem()[old(pc_state).hl_reg.word()], false) == 0),
        final(pc_state).f().b3() == old(pc_state).f().b3(),
        final(pc_state).f().b5() == old(pc_state).f().b5(),
        *final(pc_state) == (PcState { af_reg: final(pc_state).af_reg, ..*old(pc_state) }),
{
    let operand = memory.read(pc_state.get_hl());
    let result = add8(pc_state.get_a(), operand, &mut pc_state.af_reg);
    pc_state.set_a(result);
    clock.increment(7);
}

/// ADC A,(HL): add the byte at HL and the carry flag into the accumulator.
pub fn adc_hl<M: MemoryRW>(clock: &mut Clock, memory: &M, pc_state: &mut PcState)
    requires
        memory.inv(),
    ensures
        final(clock).cycles == cycles_after(old(clock).cycles, 7),
        final(pc_state).af_reg.high == add8_result(old(pc_state).af_reg.high, memory.mem()[old(pc_state).hl_reg.word()], old(pc_state).f().c() == 1),
        final(pc_state).f().c() == bool_bit(add8_carry(old(pc_state).af_reg.high, memory.mem()[old(pc_state).hl_reg.word()], old(pc_state).f().c() == 1)),
        final(pc_state).f().h() == bool_bit(add8_half(old(pc_state).af_reg.high, memory.mem()[old(pc_state).hl_reg.word()], old(pc_state).f().c() == 1)),
        final(pc_state).f().pv() == bool_bit(add8_overflow(old(pc_state).af_reg.high, memory.mem()[old(pc_state).hl_reg.word()], old(pc_state).f().c() == 1)),
        final(pc_state).f().n() == 0,
        final(pc_state).f().s() == bool_bit(sign8(add8_result(old(pc_state).af_reg.high, memory.mem()[old(pc_state).hl_reg.word()], old(pc_state).f().c() == 1))),
        final(pc_state).f().z() == bool_bit(add8_result(old(pc_state).af_reg.high, memory.mem()[old(pc_state).hl_reg.word()], old(pc_state).f().c() == 1) == 0),
        final(pc_state).f().b3() == old(pc_state).f().b3(),
        final(pc_state).f().b5() == old(pc_state).f().b5(),
        *final(pc_state) == (PcState { af_reg: final(pc_state).af_reg, ..*old(pc_state) }),
{
    let operand = memory.read(pc_state.get_hl());
    let carry = pc_state.get_f().get_c();
    let result = add8c(pc_state.get_a(), operand, carry == 1, &mut pc_state.af_reg);
    pc_state.set_a(result);
    clock.increment(7);
}

/// SUB (HL): subtract the byte at HL from the accumulator.
pub fn sub_hl<M: MemoryRW>(clock: &mut Clock, memory: &M, pc_state: &mut PcState)
    requires
        memory.inv(),
    ensures
        final(clock).cycles == cycles_after(old(clock).cycles, 7),
        final(pc_state).af_reg.high == sub8_result(old(pc_state).af_reg.high, memory.mem()[old(pc_state).hl_reg.word()], false),
        final(pc_state).f().c() == bool_bit(sub8_borrow(old(pc_state).af_reg.high, memory.mem()[old(pc_state).hl_reg.word()], false)),
        final(pc_state).f().h() == bool_bit(sub8_half(old(pc_state).af_reg.high, memory.mem()[old(pc_state).hl_reg.word()], false)),
        final(pc_state).f().pv() == bool_bit(sub8_overflow(old(pc_state).af_reg.high, memory.mem()[old(pc_state).hl_reg.word()], false)),
        final(pc_state).f().n() == 1,
        final(pc_state).f().s() == bool_bit(sign8(sub8_result(old(pc_state).af_reg.high, memory.mem()[old(pc_state).hl_reg.word()], false))),
        final(pc_state).f().z() == bool_bit(sub8_result(old(pc_state).af_reg.high, memory.mem()[old(pc_state).hl_reg.word()], false) == 0),
        final(pc_state).f().b3() == old(pc_state).f().b3(),
        final(pc_state).f().b5() == old(pc_state).f().b5(),
        *final(pc_state) == (PcState { af_reg: final(pc_state).af_reg, ..*old(pc_state) }),
{
    let operand = memory.read(pc_state.get_hl());
    let result = sub8(pc_state.get_a(), operand, &mut pc_state.af_reg);
    pc_state.set_a(result);
    clock.increment(7);
}

/// SBC A,(HL): subtract the byte at HL and the carry flag from the accumulator.
pub fn sbc_hl<M: MemoryRW>(clock: &mut Clock, memory: &M, pc_state: &mut PcState)
    requires
        memory.inv(),
    ensures
        final(clock).cycles == cycles_after(old(clock).cycles, 7),
        final(pc_state).af_reg.high == sub8_result(old(pc_state).af_reg.high, memory.mem()[old(pc_state).hl_reg.word()], old(pc_state).f().c() == 1),
        final(pc_state).f().c() == bool_bit(sub8_borrow(old(pc_state).af_reg.high, memory.mem()[old(pc_state).hl_reg.word()], old(pc_state).f().c() == 1)),
        final(pc_state).f().h() == bool_bit(sub8_half(old(pc_state).af_reg.high, memory.mem()[old(pc_state).hl_reg.word()], old(pc_state).f().c() == 1)),
        final(pc_state).f().pv() == bool_bit(sub8_overflow(old(pc_state).af_reg.high, memory.mem()[old(pc_state).hl_reg.word()], old(pc_state).f().c() == 1)),
        final(pc_state).f().n() == 1,
        final(pc_state).f().s() == bool_bit(sign8(sub8_result(old(pc_state).af_reg.high, memory.mem()[old(pc_state).hl_reg.word()], old(pc_state).f().c() == 1))),
        final(pc_state).f().z() == bool_bit(sub8_result(old(pc_state).af_reg.high, memory.mem()[old(pc_state).hl_reg.word()], old(pc_state).f().c() == 1) == 0),
        final(pc_state).f().b3() == old(pc_state).f().b3(),
        final(pc_state).f().b5() == old(pc_state).f().b5(),
        *final(pc_state) == (PcState { af_reg: final(pc_state).af_reg, ..*old(pc_state) }),
{
    let operand = memory.read(pc_state.get_hl());
    let carry = pc_state.get_f().get_c();
    let result = sub8c(pc_state.get_a(), operand, carry == 1, &mut pc_state.af_reg);
    pc_state.set_a(result);
    clock.increment(7);
}

/// ADD A,n: add the operand byte into the accumulator.
pub fn add_n<M: MemoryRW>(clock: &mut Clock, memory: &M, pc_state: &mut PcState)
    requires
        memory.inv(),
    ensures
        final(clock).cycles == cycles_after(old(clock).cycles, 7),
        final(pc_state).pc_reg.word() == wrap16(old(pc_state).pc_reg.word() + 1),
        final(pc_state).af_reg.high == add8_result(old(pc_state).af_reg.high, memory.mem()[old(pc_state).pc_reg.word()], false),
        final(pc_state).f().c() == bool_bit(add8_carry(old(pc_state).af_reg.high, memory.mem()[old(pc_state).pc_reg.word()], false)),
        final(pc_state).f().h() == bool_bit(add8_half(old(pc_state).af_reg.high, memory.mem()[old(pc_state).pc_reg.word()], false)),
        final(pc_state).f().pv() == bool_bit(add8_overflow(old(pc_state).af_reg.high, memory.mem()[old(pc_state).pc_reg.word()], false)),
        final(pc_state).f().n() == 0,
        final(pc_state).f().s() == bool_bit(sign8(add8_result(old(pc_state).af_reg.high, memory.mem()[old(pc_state).pc_reg.word()], false))),
        final(pc_state).f().z() == bool_bit(add8_result(old(pc_state).af_reg.high, memory.mem()[old(pc_state).pc_reg.word()], false) == 0),
        final(pc_state).f().b3() == old(pc_state).f().b3(),
        final(pc_state).f().b5() == old(pc_state).f().b5(),
        *final(pc_state) == (PcState { af_reg: final(pc_state).af_reg, pc_reg: final(pc_state).pc_reg, ..*old(pc_state) }),
{
    let operand = memory.read(pc_state.get_pc());
    let result = add8(pc_state.get_a(), operand, &mut pc_state.af_reg);
    pc_state.set_a(result);
    pc_state.increment_pc(1);
    clock.increment(7);
}

/// ADC A,n: add the operand byte and the carry flag into the accumulator.
pub fn adc_n<M: MemoryRW>(clock: &mut Clock, memory: &M, pc_state: &mut PcState)
    requires
        memory.inv(),
    ensures
        final(clock).cycles == cycles_after(old(clock).cycles, 7),
        final(pc_state).pc_reg.word() == wrap16(old(pc_state).pc_reg.word() + 1),
        final(pc_state).af_reg.high == add8_result(old(pc_state).af_reg.high, memory.mem()[old(pc_state).pc_reg.word()], old(pc_state).f().c() == 1),
        final(pc_state).f().c() == bool_bit(add8_carry(old(pc_state).af_reg.high, memory.mem()[old(pc_state).pc_reg.word()], old(pc_state).f().c() == 1)),
        final(pc_state).f().h() == bool_bit(add8_half(old(pc_state).af_reg.high, memory.mem()[old(pc_state).pc_reg.word()], old(pc_state).f().c() == 1)),
        final(pc_state).f().pv() == bool_bit(add8_overflow(old(pc_state).af_reg.high, memory.mem()[old(pc_state).pc_reg.word()], old(pc_state).f().c() == 1)),
        final(pc_state).f().n() == 0,
        final(pc_state).f().s() == bool_bit(sign8(add8_result(old(pc_state).af_reg.high, memory.mem()[old(pc_state).pc_reg.word()], old(pc_state).f().c() == 1))),
        final(pc_state).f().z() == bool_bit(add8_result(old(pc_state).af_reg.high, memory.mem()[old(pc_state).pc_reg.word()], old(pc_state).f().c() == 1) == 0),
        final(pc_state).f().b3() == old(pc_state).f().b3(),
        final(pc_state).f().b5() == old(pc_state).f().b5(),
        *final(pc_state) == (PcState { af_reg: final(pc_state).af_reg, pc_reg: final(pc_state).pc_reg, ..*old(pc_state) }),
{
    let operand = memory.read(pc_state.get_pc());
    let carry = pc_state.get_f().get_c();
    let result = add8c(pc_state.get_a(), operand, carry == 1, &mut pc_state.af_reg);
    pc_state.set_a(result);
    pc_state.increment_pc(1);
    clock.increment(7);
}

/// SUB n: subtract the operand byte from the accumulator.
pub fn sub_n<M: MemoryRW>(clock: &mut Clock, memory: &M, pc_state: &mut PcState)
    requires
        memory.inv(),
    ensures
        final(clock).cycles == cycles_after(old(clock).cycles, 7),
        final(pc_state).pc_reg.word() == wrap16(old(pc_state).pc_reg.word() + 1),
        final(pc_state).af_reg.high == sub8_result(old(pc_state).af_reg.high, memory.mem()[old(pc_state).pc_reg.word()], false),
        final(pc_state).f().c() == bool_bit(sub8_borrow(old(pc_state).af_reg.high, memory.mem()[old(pc_state).pc_reg.word()], false)),
        final(pc_state).f().h() == bool_bit(sub8_half(old(pc_state).af_reg.high, memory.mem()[old(pc_state).pc_reg.word()], false)),
        final(pc_state).f().pv() == bool_bit(sub8_overflow(old(pc_state).af_reg.high, memory.mem()[old(pc_state).pc_reg.word()], false)),
        final(pc_state).f().n() == 1,
        final(pc_state).f().s() == bool_bit(sign8(sub8_result(old(pc_state).af_reg.high, memory.mem()[old(pc_state).pc_reg.word()], false))),
        final(pc_state).f().z() == bool_bit(sub8_result(old(pc_state).af_reg.high, memory.mem()[old(pc_state).pc_reg.word()], false) == 0),
        final(pc_state).f().b3() == old(pc_state).f().b3(),
        final(pc_state).f().b5() == old(pc_state).f().b5(),
        *final(pc_state) == (PcState { af_reg: final(pc_state).af_reg, pc_reg: final(pc_state).pc_reg, ..*old(pc_state) }),
{
    let operand = memory.read(pc_state.get_pc());
    let result = sub8(pc_state.get_a(), operand, &mut pc_state.af_reg);
    pc_state.set_a(result);
    pc_state.increment_pc(1);
    clock.increment(7);
}

/// SBC A,n: subtract the operand byte and the carry flag from the accumulator.
pub fn sbc_n<M: MemoryRW>(clock: &mut Clock, memory: &M, pc_state: &mut PcState)
    requires
        memory.inv(),
    ensures
        final(clock).cycles == cycles_after(old(clock).cycles, 7),
        final(pc_state).pc_reg.word() == wrap16(old(pc_state).pc_reg.word() + 1),
        final(pc_state).af_reg.high == sub8_result(old(pc_state).af_reg.high, memory.mem()[old(pc_state).pc_reg.word()], old(pc_state).f().c() == 1),
        final(pc_state).f().c() == bool_bit(sub8_borrow(old(pc_state).af_reg.high, memory.mem()[old(pc_state).pc_reg.word()], old(pc_state).f().c() == 1)),
        final(pc_state).f().h() == bool_bit(sub8_half(old(pc_state).af_reg.high, memory.mem()[old(pc_state).pc_reg.word()], old(pc_state).f().c() == 1)),
        final(pc_state).f().pv() == bool_bit(sub8_overflow(old(pc_state).af_reg.high, memory.mem()[old(pc_state).pc_reg.word()], old(pc_state).f().c() == 1)),
        final(pc_state).f().n() == 1,
        final(pc_state).f().s() == bool_bit(sign8(sub8_result(old(pc_state).af_reg.high, memory.mem()[old(pc_state).pc_reg.word()], old(pc_state).f().c() == 1))),
        final(pc_state).f().z() == bool_bit(sub8_result(old(pc_state).af_reg.high, memory.mem()[old(pc_state).pc_reg.word()], old(pc_state).f().c() == 1) == 0),
        final(pc_state).f().b3() == old(pc_state).f().b3(),
        final(pc_state).f().b5() == old(pc_state).f().b5(),
        *final(pc_state) == (PcState { af_reg: final(pc_state).af_reg, pc_reg: final(pc_state).pc_reg, ..*old(pc_state) }),
{
    let operand = memory.read(pc_state.get_pc());
    let carry = pc_state.get_f().get_c();
    let result = sub8c(pc_state.get_a(), operand, carry == 1, &mut pc_state.af_reg);
    pc_state.set_a(result);
    pc_state.increment_pc(1);
    clock.increment(7);
}

/// AND r: and a register into the accumulator.
pub fn and_r(clock: &mut Clock, r: u8, pc_state: &mut PcState)
    ensures
        final(clock).cycles == cycles_after(old(clock).cycles, 4),
        final(pc_state).af_reg.high == (old(pc_state).af_reg.high & r),
        final(pc_state).f().c() == 0,
        final(pc_state).f().n() == 0,
        final(pc_state).f().h() == 1,
        final(pc_state).f().pv() == bool_bit(parity((old(pc_state).af_reg.high & r))),
        final(pc_state).f().s() == bool_bit(sign8((old(pc_state).af_reg.high & r))),
        final(pc_state).f().z() == bool_bit((old(pc_state).af_reg.high & r) == 0),
        final(pc_state).f().b3() == old(pc_state).f().b3(),
        final(pc_state).f().b5() == old(pc_state).f().b5(),
        *final(pc_state) == (PcState { af_reg: final(pc_state).af_reg, ..*old(pc_state) }),
{
    let result = pc_state.get_a() & r;
    let mut f_status = pc_state.get_f();
    status_flags::and_flags(&mut f_status, result);
    pc_state.set_f(f_status);
    pc_state.set_a(result);
    clock.increment(4);
}

/// XOR r: exclusive-or a register into the accumulator.
pub fn xor_r(clock: &mut Clock, r: u8, pc_state: &mut PcState)
    ensures
        final(clock).cycles == cycles_after(old(clock).cycles, 4),
        final(pc_state).af_reg.high == (old(pc_state).af_reg.high ^ r),
        final(pc_state).f().c() == 0,
        final(pc_state).f().n() == 0,
        final(pc_state).f().h() == 0,
        final(pc_state).f().pv() == bool_bit(parity((old(pc_state).af_reg.high ^ r))),
        final(pc_state).f().s() == bool_bit(sign8((old(pc_state).af_reg.high ^ r))),
        final(pc_state).f().z() == bool_bit((old(pc_state).af_reg.high ^ r) == 0),
        final(pc_state).f().b3() == old(pc_state).f().b3(),
        final(pc_state).f().b5() == old(pc_state).f().b5(),
        *final(pc_state) == (PcState { af_reg: final(pc_state).af_reg, ..*old(pc_state) }),
{
    let result = pc_state.get_a() ^ r;
    let mut f_status = pc_state.get_f();
    status_flags::xor_flags(&mut f_status, result);
    pc_state.set_f(f_status);
    pc_state.set_a(result);
    clock.increment(4);
}

/// OR r: or a register into the accumulator.
pub fn or_r(clock: &mut Clock, r: u8, pc_state: &mut PcState)
    ensures
        final(clock).cycles == cycles_after(old(clock).cycles, 4),
        final(pc_state).af_reg.high == (old(pc_state).af_reg.high | r),
        final(pc_state).f().c() == 0,
        final(pc_state).f().n() == 0,
        final(pc_state).f().h() == 0,
        final(pc_state).f().pv() == bool_bit(parity((old(pc_state).af_reg.high | r))),
        final(pc_state).f().s() == bool_bit(sign8((old(pc_state).af_reg.high | r))),
        final(pc_state).f().z() == bool_bit((old(pc_state).af_reg.high | r) == 0),
        final(pc_state).f().b3() == old(pc_state).f().b3(),
        final(pc_state).f().b5() == old(pc_state).f().b5(),
        *final(pc_state) == (PcState { af_reg: final(pc_state).af_reg, ..*old(pc_state) }),
{
    let result = pc_state.get_a() | r;
    let mut f_status = pc_state.get_f();
    status_flags::or_flags(&mut f_status, result);
    pc_state.set_f(f_status);
    pc_state.set_a(result);
    clock.increment(4);
}

/// AND (HL): and the byte at HL into the accumulator.
pub fn and_hl<M: MemoryRW>(clock: &mut Clock, memory: &M, pc_state: &mut PcState)
    requires
        memory.inv(),
    ensures
        final(clock).cycles == cycles_after(old(clock).cycles, 7),
        final(pc_state).af_reg.high == (old(pc_state).af_reg.high & memory.mem()[old(pc_state).hl_reg.word()]),
        final(pc_state).f().c() == 0,
        final(pc_state).f().n() == 0,
        final(pc_state).f().h() == 1,
        final(pc_state).f().pv() == bool_bit(parity((old(pc_state).af_reg.high & memory.mem()[old(pc_state).hl_reg.word()]))),
        final(pc_state).f().s() == bool_bit(sign8((old(pc_state).af_reg.high & memory.mem()[old(pc_state).hl_reg.word()]))),
        final(pc_state).f().z() == bool_bit((old(pc_state).af_reg.high & memory.mem()[old(pc_state).hl_reg.word()]) == 0),
        final(pc_state).f().b3() == old(pc_state).f().b3(),
        final(pc_state).f().b5() == old(pc_state).f().b5(),
        *final(pc_state) == (PcState { af_reg: final(pc_state).af_reg, ..*old(pc_state) }),
{
    let result = pc_state.get_a() & memory.read(pc_state.get_hl());
    let mut f_status = pc_state.get_f();
    status_flags::and_flags(&mut f_status, result);
    pc_state.set_f(f_status);
    pc_state.set_a(result);
    clock.increment(7);
}

/// XOR (HL): exclusive-or the byte at HL into the accumulator.
pub fn xor_hl<M: MemoryRW>(clock: &mut Clock, memory: &M, pc_state: &mut PcState)
    requires
        memory.inv(),
    ensures
        final(clock).cycles == cycles_after(old(clock).cycles, 7),
        final(pc_state).af_reg.high == (old(pc_state).af_reg.high ^ memory.mem()[old(pc_state).hl_reg.word()]),
        final(pc_state).f().c() == 0,
        final(pc_state).f().n() == 0,
        final(pc_state).f().h() == 0,
        final(pc_state).f().pv() == bool_bit(parity((old(pc_state).af_reg.high ^ memory.mem()[old(pc_state).hl_reg.word()]))),
        final(pc_state).f().s() == bool_bit(sign8((old(pc_state).af_reg.high ^ memory.mem()[old(pc_state).hl_reg.word()]))),
        final(pc_state).f().z() == bool_bit((old(pc_state).af_reg.high ^ memory.mem()[old(pc_state).hl_reg.word()]) == 0),
        final(pc_state).f().b3() == old(pc_state).f().b3(),
        final(pc_state).f().b5() == old(pc_state).f().b5(),
        *final(pc_state) == (PcState { af_reg: final(pc_state).af_reg, ..*old(pc_state) }),
{
    let result = pc_state.get_a() ^ memory.read(pc_state.get_hl());
    let mut f_status = pc_state.get_f();
    status_flags::xor_flags(&mut f_status, result);
    pc_state.set_f(f_status);
    pc_state.set_a(result);
    clock.increment(7);
}

/// OR (HL): or the byte at HL into the accumulator.
pub fn or_hl<M: MemoryRW>(clock: &mut Clock, memory: &M, pc_state: &mut PcState)
    requires
        memory.inv(),
    ensures
        final(clock).cycles == cycles_after(old(clock).cycles, 7),
        final(pc_state).af_reg.high == (old(pc_state).af_reg.high | memory.mem()[old(pc_state).hl_reg.word()]),
        final(pc_state).f().c() == 0,
        final(pc_state).f().n() == 0,
        final(pc_state).f().h() == 0,
        final(pc_state).f().pv() == bool_bit(parity((old(pc_state).af_reg.high | memory.mem()[old(pc_state).hl_reg.word()]))),
        final(pc_state).f().s() == bool_bit(sign8((old(pc_state).af_reg.high | memory.mem()[old(pc_state).hl_reg.word()]))),
        final(pc_state).f().z() == bool_bit((old(pc_state).af_reg.high | memory.mem()[old(pc_state).hl_reg.word()]) == 0),
        final(pc_state).f().b3() == old(pc_state).f().b3(),
        final(pc_state).f().b5() == old(pc_state).f().b5(),
        *final(pc_state) == (PcState { af_reg: final(pc_state).af_reg, ..*old(pc_state) }),
{
    let result = pc_state.get_a() | memory.read(pc_state.get_hl());
    let mut f_status = pc_state.get_f();
    status_flags::or_flags(&mut f_status, result);
    pc_state.set_f(f_status);
    pc_state.set_a(result);
    clock.increment(7);
}

/// AND n: and the operand byte into the accumulator.
pub fn and_n<M: MemoryRW>(clock: &mut Clock, memory: &M, pc_state: &mut PcState)
    requires
        memory.inv(),
    ensures
        final(clock).cycles == cycles_after(old(clock).cycles, 7),
        final(pc_state).pc_reg.word() == wrap16(old(pc_state).pc_reg.word() + 1),
        final(pc_state).af_reg.high == (old(pc_state).af_reg.high & memory.mem()[old(pc_state).pc_reg.word()]),
        final(pc_state).f().c() == 0,
        final(pc_state).f().n() == 0,
        final(pc_state).f().h() == 1,
        final(pc_state).f().pv() == bool_bit(parity((old(pc_state).af_reg.high & memory.mem()[old(pc_state).pc_reg.word()]))),
        final(pc_state).f().s() == bool_bit(sign8((old(pc_state).af_reg.high & memory.mem()[old(pc_state).pc_reg.word()]))),
        final(pc_state).f().z() == bool_bit((old(pc_state).af_reg.high & memory.mem()[old(pc_state).pc_reg.word()]) == 0),
        final(pc_state).f().b3() == old(pc_state).f().b3(),
        final(pc_state).f().b5() == old(pc_state).f().b5(),
        *final(pc_state) == (PcState { af_reg: final(pc_state).af_reg, pc_reg: final(pc_state).pc_reg, ..*old(pc_state) }),
{
    let result = pc_state.get_a() & memory.read(pc_state.get_pc());
    let mut f_status = pc_state.get_f();
    status_flags::and_flags(&mut f_status, result);
    pc_state.set_f(f_status);
    pc_state.set_a(result);
    pc_state.increment_pc(1);
    clock.increment(7);
}

/// XOR n: exclusive-or the operand byte into the accumulator.
pub fn xor_n<M: MemoryRW>(clock: &mut Clock, memory: &M, pc_state: &mut PcState)
    requires
        memory.inv(),
    ensures
        final(clock).cycles == cycles_after(old(clock).cycles, 7),
        final(pc_state).pc_reg.word() == wrap16(old(pc_state).pc_reg.word() + 1),
        final(pc_state).af_reg.high == (old(pc_state).af_reg.high ^ memory.mem()[old(pc_state).pc_reg.word()]),
        final(pc_state).f().c() == 0,
        final(pc_state).f().n() == 0,
        final(pc_state).f().h() == 0,
        final(pc_state).f().pv() == bool_bit(parity((old(pc_state).af_reg.high ^ memory.mem()[old(pc_state).pc_reg.word()]))),
        final(pc_state).f().s() == bool_bit(sign8((old(pc_state).af_reg.high ^ memory.mem()[old(pc_state).pc_reg.word()]))),
        final(pc_state).f().z() == bool_bit((old(pc_state).af_reg.high ^ memory.mem()[old(pc_state).pc_reg.word()]) == 0),
        final(pc_state).f().b3() == old(pc_state).f().b3(),
        final(pc_state).f().b5() == old(pc_state).f().b5(),
        *final(pc_state) == (PcState { af_reg: final(pc_state).af_reg, pc_reg: final(pc_state).pc_reg, ..*old(pc_state) }),
{
    let result = pc_state.get_a() ^ memory.read(pc_state.get_pc());
    let mut f_status = pc_state.get_f();
    status_flags::xor_flags(&mut f_status, result);
    pc_state.set_f(f_status);
    pc_state.set_a(result);
    pc_state.increment_pc(1);
    clock.increment(7);
}

/// OR n: or the operand byte into the accumulator.
pub fn or_n<M: MemoryRW>(clock: &mut Clock, memory: &M, pc_state: &mut PcState)
    requires
        memory.inv(),
    ensures
        final(clock).cycles == cycles_after(old(clock).cycles, 7),
        final(pc_state).pc_reg.word() == wrap16(old(pc_state).pc_reg.word() + 1),
        final(pc_state).af_reg.high == (old(pc_state).af_reg.high | memory.mem()[old(pc_state).pc_reg.word()]),
        final(pc_state).f().c() == 0,
        final(pc_state).f().n() == 0,
        final(pc_state).f().h() == 0,
        final(pc_state).f().pv() == bool_bit(parity((old(pc_state).af_reg.high | memory.mem()[old(pc_state).pc_reg.word()]))),
        final(pc_state).f().s() == bool_bit(sign8((old(pc_state).af_reg.high | memory.mem()[old(pc_state).pc_reg.word()]))),
        final(pc_state).f().z() == bool_bit((old(pc_state).af_reg.high | memory.mem()[old(pc_state).pc_reg.word()]) == 0),
        final(pc_state).f().b3() == old(pc_state).f().b3(),
        final(pc_state).f().b5() == old(pc_state).f().b5(),
        *final(pc_state) == (PcState { af_reg: final(pc_state).af_reg, pc_reg: final(pc_state).pc_reg, ..*old(pc_state) }),
{
    let result = pc_state.get_a() | memory.read(pc_state.get_pc());
    let mut f_status = pc_state.get_f();
    status_flags::or_flags(&mut f_status, result);
    pc_state.set_f(f_status);
    pc_state.set_a(result);
    pc_state.increment_pc(1);
    clock.increment(7);
}


// Compare instructions.

/// CP n: compare the accumulator with the operand byte; only flags change.
pub fn cp_n<M: MemoryRW>(clock: &mut Clock, memory: &M, pc_state: &mut PcState)
    requires
        memory.inv(),
    ensures
        final(clock).cycles == cycles_after(old(clock).cycles, 7),
        final(pc_state).pc_reg.word() == wrap16(old(pc_state).pc_reg.word() + 1),
        final(pc_state).af_reg.high == old(pc_state).af_reg.high,
        final(pc_state).f().c() == bool_bit(sub8_borrow(old(pc_state).af_reg.high, memory.mem()[old(pc_state).pc_reg.word()], false)),
        final(pc_state).f().h() == bool_bit(sub8_half(old(pc_state).af_reg.high, memory.mem()[old(pc_state).pc_reg.word()], false)),
        final(pc_state).f().pv() == bool_bit(sub8_overflow(old(pc_state).af_reg.high, memory.mem()[old(pc_state).pc_reg.word()], false)),
        final(pc_state).f().n() == 1,
        final(pc_state).f().s() == bool_bit(sign8(sub8_result(old(pc_state).af_reg.high, memory.mem()[old(pc_state).pc_reg.word()], false))),
        final(pc_state).f().z() == bool_bit(sub8_result(old(pc_state).af_reg.high, memory.mem()[old(pc_state).pc_reg.word()], false) == 0),
        final(pc_state).f().b3() == old(pc_state).f().b3(),
        final(pc_state).f().b5() == old(pc_state).f().b5(),
        *final(pc_state) == (PcState { af_reg: final(pc_state).af_reg, pc_reg: final(pc_state).pc_reg, ..*old(pc_state) }),
{
    let operand = memory.read(pc_state.get_pc());
    let accumulator = pc_state.get_a();
    cp_flags(accumulator, operand, &mut pc_state.af_reg);
    pc_state.increment_pc(1);
    clock.increment(7);
}

/// CP r: compare the accumulator with a register; only flags change.
pub fn cp_r(clock: &mut Clock, r: u8, pc_state: &mut PcState)
    ensures
        final(clock).cycles == cycles_after(old(clock).cycles, 4),
        final(pc_state).af_reg.high == old(pc_state).af_reg.high,
        final(pc_state).f().c() == bool_bit(sub8_borrow(old(pc_state).af_reg.high, r, false)),
        final(pc_state).f().h() == bool_bit(sub8_half(old(pc_state).af_reg.high, r, false)),
        final(pc_state).f().pv() == bool_bit(sub8_overflow(old(pc_state).af_reg.high, r, false)),
        final(pc_state).f().n() == 1,
        final(pc_state).f().s() == bool_bit(sign8(sub8_result(old(pc_state).af_reg.high, r, false))),
        final(pc_state).f().z() == bool_bit(sub8_result(old(pc_state).af_reg.high, r, false) == 0),
        final(pc_state).f().b3() == old(pc_state).f().b3(),
        final(pc_state).f().b5() == old(pc_state).f().b5(),
        *final(pc_state) == (PcState { af_reg: final(pc_state).af_reg, ..*old(pc_state) }),
{
    let accumulator = pc_state.get_a();
    cp_flags(accumulator, r, &mut pc_state.af_reg);
    clock.increment(4);
}

/// CP (HL): compare the accumulator with the byte at HL; only flags change.
pub fn cp_hl<M: MemoryRW>(clock: &mut Clock, memory: &M, pc_state: &mut PcState)
    requires
        memory.inv(),
    ensures
        final(clock).cycles == cycles_after(old(clock).cycles, 7),
        final(pc_state).af_reg.high == old(pc_state).af_reg.high,
        final(pc_state).f().c() == bool_bit(sub8_borrow(old(pc_state).af_reg.high, memory.mem()[old(pc_state).hl_reg.word()], false)),
        final(pc_state).f().h() == bool_bit(sub8_half(old(pc_state).af_reg.high, memory.mem()[old(pc_state).hl_reg.word()], false)),
        final(pc_state).f().pv() == bool_bit(sub8_overflow(old(pc_state).af_reg.high, memory.mem()[old(pc_state).hl_reg.word()], false)),
        final(pc_state).f().n() == 1,
        final(pc_state).f().s() == bool_bit(sign8(sub8_result(old(pc_state).af_reg.high, memory.mem()[old(pc_state).hl_reg.word()], false))),
        final(pc_state).f().z() == bool_bit(sub8_result(old(pc_state).af_reg.high, memory.mem()[old(pc_state).hl_reg.word()], false) == 0),
        final(pc_state).f().b3() == old(pc_state).f().b3(),
        final(pc_state).f().b5() == old(pc_state).f().b5(),
        *final(pc_state) == (PcState { af_reg: final(pc_state).af_reg, ..*old(pc_state) }),
{
    let operand = memory.read(pc_state.get_hl());
    let accumulator = pc_state.get_a();
    cp_flags(accumulator, operand, &mut pc_state.af_reg);
    clock.increment(7);
}

// Load instructions.

/// LD dd,nn: load a 16-bit register with the operand word.
pub fn ld_16_nn<M: MemoryRW>(clock: &mut Clock, memory: &M, pc_reg: &mut Reg16, r16_reg: &mut Reg16)
    requires
        memory.inv(),
    ensures
        final(clock).cycles == cycles_after(old(clock).cycles, 10),
        final(r16_reg).word() == word_in(memory.mem(), old(pc_reg).word()),
        final(pc_reg).word() == wrap16(old(pc_reg).word() + 2),
{
    let operand = memory.read16(pc_reg.get());
    r16_reg.set(operand);
    PcState::increment_reg(pc_reg, 2);
    clock.increment(10);
}

/// LD (rr),r: store an 8-bit register at the address a pair names.
pub fn ld_mem_r<M: MemoryRW>(clock: &mut Clock, memory: &mut M, r: u8, address_reg: &Reg16)
    requires
        old(memory).inv(),
    ensures
        final(memory).inv(),
        final(clock).cycles == cycles_after(old(clock).cycles, 7),
        M::write_ok(*old(memory), address_reg.value16(), r, *final(memory)),
{
    memory.write(address_reg.get(), r);
    clock.increment(7);
}

/// LD r,r': copy one 8-bit register to another.
pub fn ld_r_r(clock: &mut Clock, src: u8, pc_state: &mut PcState, dst: Reg8Sel)
    ensures
        final(clock).cycles == cycles_after(old(clock).cycles, 4),
        *final(pc_state) == old(pc_state).with8(dst, src),
{
    pc_state.set_8(dst, src);
    clock.increment(4);
}

/// LD r,(rr): load an 8-bit register from the address a pair names.
pub fn ld_r_mem<M: MemoryRW>(
    clock: &mut Clock,
    memory: &M,
    pc_state: &mut PcState,
    dst: Reg8Sel,
    addr_reg_value: u16,
)
    requires
        memory.inv(),
    ensures
        final(clock).cycles == cycles_after(old(clock).cycles, 7),
        *final(pc_state) == old(pc_state).with8(dst, memory.mem()[addr_reg_value as int]),
{
    let value = memory.read(addr_reg_value);
    pc_state.set_8(dst, value);
    clock.increment(7);
}

/// LD r,n: load an 8-bit register with the operand byte.
pub fn ld_r<M: MemoryRW>(clock: &mut Clock, memory: &M, pc_state: &mut PcState, dst: Reg8Sel)
    requires
        memory.inv(),
    ensures
        final(clock).cycles == cycles_after(old(clock).cycles, 7),
        final(pc_state).pc_reg.word() == wrap16(old(pc_state).pc_reg.word() + 1),
        *final(pc_state) == (PcState {
            pc_reg: final(pc_state).pc_reg,
            ..old(pc_state).with8(dst, memory.mem()[old(pc_state).pc_reg.word()])
        }),
{
    let value = memory.read(pc_state.get_pc());
    pc_state.set_8(dst, value);
    pc_state.increment_pc(1);
    clock.increment(7);
}

/// LD rr,(nn): load a 16-bit register from the address the operand word
/// names.
pub fn ld_r16_mem<M: MemoryRW>(
    clock: &mut Clock,
    memory: &M,
    pc_reg: &mut Reg16,
    r16_reg: &mut Reg16,
)
    requires
        memory.inv(),
    ensures
        final(clock).cycles == cycles_after(old(clock).cycles, 16),
        final(r16_reg).word() == word_in(
            memory.mem(),
            word_in(memory.mem(), old(pc_reg).word()),
        ),
        final(pc_reg).word() == wrap16(old(pc_reg).word() + 2),
{
    let address = memory.read16(pc_reg.get());
    let value = memory.read16(address);
    r16_reg.set(value);
    PcState::increment_reg(pc_reg, 2);
    clock.increment(16);
}

/// LD (rr),n: store the operand byte at the address a pair names.
pub fn ld_mem_n<M: MemoryRW>(
    clock: &mut Clock,
    memory: &mut M,
    pc_reg: &mut Reg16,
    r16_reg: &Reg16,
)
    requires
        old(memory).inv(),
    ensures
        final(memory).inv(),
        final(clock).cycles == cycles_after(old(clock).cycles, 10),
        M::write_ok(
            *old(memory),
            r16_reg.value16(),
            old(memory).mem()[old(pc_reg).word()],
            *final(memory),
        ),
        final(pc_reg).word() == wrap16(old(pc_reg).word() + 1),
{
    let value = memory.read(pc_reg.get());
    memory.write(r16_reg.get(), value);
    PcState::increment_reg(pc_reg, 1);
    clock.increment(10);
}

/// LD A,(nn): load the accumulator from the address the operand word names.
pub fn ld_r8_mem<M: MemoryRW>(clock: &mut Clock, memory: &M, pc_state: &mut PcState, dst: Reg8Sel)
    requires
        memory.inv(),
    ensures
        final(clock).cycles == cycles_after(old(clock).cycles, 13),
        final(pc_state).pc_reg.word() == wrap16(old(pc_state).pc_reg.word() + 2),
        *final(pc_state) == (PcState {
            pc_reg: final(pc_state).pc_reg,
            ..old(pc_state).with8(
                dst,
                memory.mem()[word_in(memory.mem(), old(pc_state).pc_reg.word())],
            )
        }),
{
    let address = memory.read16(pc_state.get_pc());
    let value = memory.read(address);
    pc_state.set_8(dst, value);
    pc_state.increment_pc(2);
    clock.increment(13);
}

/// LD SP,HL: load the stack pointer from HL.
pub fn ld_sp_hl(clock: &mut Clock, hl_reg: &Reg16, sp_reg: &mut Reg16)
    ensures
        final(clock).cycles == cycles_after(old(clock).cycles, 6),
        final(sp_reg).word() == hl_reg.word(),
{
    sp_reg.set(hl_reg.get());
    clock.increment(6);
}

/// LD (nn),A: store the accumulator at the address the operand word names.
pub fn ld_nn_r<M: MemoryRW>(clock: &mut Clock, memory: &mut M, r: u8, pc_reg: &mut Reg16)
    requires
        old(memory).inv(),
    ensures
        final(memory).inv(),
        final(clock).cycles == cycles_after(old(clock).cycles, 13),
        M::write_ok(
            *old(memory),
            (word_in(old(memory).mem(), old(pc_reg).word()) as u16),
            r,
            *final(memory),
        ),
        final(pc_reg).word() == wrap16(old(pc_reg).word() + 2),
{
    let address = memory.read16(pc_reg.get());
    memory.write(address, r);
    PcState::increment_reg(pc_reg, 2);
    clock.increment(13);
}

/// LD (nn),HL: store HL at the address the operand word names, low byte
/// first; the address bytes are fetched again for the high half, as the
/// hardware does.
pub fn ld_mem_nn_hl<M: MemoryRW>(clock: &mut Clock, memory: &mut M, pc_state: &mut PcState)
    requires
        old(memory).inv(),
    ensures
        final(memory).inv(),
        final(clock).cycles == cycles_after(old(clock).cycles, 16),
        final(pc_state).pc_reg.word() == wrap16(old(pc_state).pc_reg.word() + 2),
        *final(pc_state) == (PcState { pc_reg: final(pc_state).pc_reg, ..*old(pc_state) }),
        exists|mid: M|
            (#[trigger] M::write_ok(
                *old(memory),
                (word_in(old(memory).mem(), old(pc_state).pc_reg.word()) as u16),
                old(pc_state).hl_reg.low,
                mid,
            )) && M::write_ok(
                mid,
                (wrap16(word_in(mid.mem(), old(pc_state).pc_reg.word()) + 1) as u16),
                old(pc_state).hl_reg.high,
                *final(memory),
            ),
{
    let address_low = memory.read16(pc_state.get_pc());
    memory.write(address_low, pc_state.get_l());
    let ghost mid = *memory;
    let address_high = memory.read16(pc_state.get_pc()).wrapping_add(1);
    memory.write(address_high, pc_state.get_h());
    proof {
        assert(M::write_ok(
            *old(memory),
            (word_in(old(memory).mem(), old(pc_state).pc_reg.word()) as u16),
            old(pc_state).hl_reg.low,
            mid,
        ));
        assert(M::write_ok(
            mid,
            (wrap16(word_in(mid.mem(), old(pc_state).pc_reg.word()) + 1) as u16),
            old(pc_state).hl_reg.high,
            *memory,
        ));
    }
    pc_state.increment_pc(2);
    clock.increment(16);
}

// Jump instructions.

/// JP nn: load PC with the operand word.
pub fn jp_nn<M: MemoryRW>(clock: &mut Clock, memory: &M, pc_state: &mut PcState)
    requires
        memory.inv(),
    ensures
        final(clock).cycles == cycles_after(old(clock).cycles, 10),
        final(pc_state).pc_reg.word() == word_in(memory.mem(), old(pc_state).pc_reg.word()),
        *final(pc_state) == (PcState { pc_reg: final(pc_state).pc_reg, ..*old(pc_state) }),
{
    let target = memory.read16(pc_state.get_pc());
    pc_state.set_pc(target);
    clock.increment(10);
}

/// JP (HL): load PC from HL.
pub fn jp_hl(clock: &mut Clock, hl_reg: &Reg16, pc_reg: &mut Reg16)
    ensures
        final(clock).cycles == cycles_after(old(clock).cycles, 4),
        final(pc_reg).word() == hl_reg.word(),
{
    pc_reg.set(hl_reg.get());
    clock.increment(4);
}

/// JR cc,e: relative jump when the condition holds.  The displacement byte
/// is always consumed; a taken jump costs the longer time.
pub fn jr_cc_e<M: MemoryRW>(
    clock: &mut Clock,
    memory: &M,
    pc_state: &mut PcState,
    condition: bool,
)
    requires
        memory.inv(),
    ensures
        final(clock).cycles == cycles_after(
            old(clock).cycles,
            if condition {
                12
            } else {
                7
            },
        ),
        final(pc_state).pc_reg.word() == (if condition {
            wrap16(
                old(pc_state).pc_reg.word() + as_i8(
                    memory.mem()[old(pc_state).pc_reg.word()],
                ) + 1,
            )
        } else {
            wrap16(old(pc_state).pc_reg.word() + 1)
        }),
        *final(pc_state) == (PcState { pc_reg: final(pc_state).pc_reg, ..*old(pc_state) }),
{
    if condition {
        let e = memory.read(pc_state.get_pc());
        let d = displacement(e);
        proof {
            lemma_wrap16_add(old(pc_state).pc_reg.word() + as_i8(e), 1);
        }
        pc_state.increment_pc(d);
        clock.increment(12);
    } else {
        clock.increment(7);
    }
    pc_state.increment_pc(1);
}

/// JR NZ,e: relative jump when the zero flag is clear.
pub fn jrnz_e<M: MemoryRW>(clock: &mut Clock, memory: &M, pc_state: &mut PcState)
    requires
        memory.inv(),
    ensures
        final(clock).cycles == cycles_after(
            old(clock).cycles,
            if old(pc_state).f().z() == 0 {
                12
            } else {
                7
            },
        ),
        final(pc_state).pc_reg.word() == (if old(pc_state).f().z() == 0 {
            wrap16(
                old(pc_state).pc_reg.word() + as_i8(
                    memory.mem()[old(pc_state).pc_reg.word()],
                ) + 1,
            )
        } else {
            wrap16(old(pc_state).pc_reg.word() + 1)
        }),
        *final(pc_state) == (PcState { pc_reg: final(pc_state).pc_reg, ..*old(pc_state) }),
{
    let condition = pc_state.get_f().get_z() == 0;
    jr_cc_e(clock, memory, pc_state, condition);
}

/// JR Z,e: relative jump when the zero flag is set.
pub fn jrz_e<M: MemoryRW>(clock: &mut Clock, memory: &M, pc_state: &mut PcState)
    requires
        memory.inv(),
    ensures
        final(clock).cycles == cycles_after(
            old(clock).cycles,
            if old(pc_state).f().z() == 1 {
                12
            } else {
                7
            },
        ),
        final(pc_state).pc_reg.word() == (if old(pc_state).f().z() == 1 {
            wrap16(
                old(pc_state).pc_reg.word() + as_i8(
                    memory.mem()[old(pc_state).pc_reg.word()],
                ) + 1,
            )
        } else {
            wrap16(old(pc_state).pc_reg.word() + 1)
        }),
        *final(pc_state) == (PcState { pc_reg: final(pc_state).pc_reg, ..*old(pc_state) }),
{
    let condition = pc_state.get_f().get_z() == 1;
    jr_cc_e(clock, memory, pc_state, condition);
}

/// JR NC,e: relative jump when the carry flag is clear.
pub fn jrnc_e<M: MemoryRW>(clock: &mut Clock, memory: &M, pc_state: &mut PcState)
    requires
        memory.inv(),
    ensures
        final(clock).cycles == cycles_after(
            old(clock).cycles,
            if old(pc_state).f().c() == 0 {
                12
            } else {
                7
            },
        ),
        final(pc_state).pc_reg.word() == (if old(pc_state).f().c() == 0 {
            wrap16(
                old(pc_state).pc_reg.word() + as_i8(
                    memory.mem()[old(pc_state).pc_reg.word()],
                ) + 1,
            )
        } else {
            wrap16(old(pc_state).pc_reg.word() + 1)
        }),
        *final(pc_state) == (PcState { pc_reg: final(pc_state).pc_reg, ..*old(pc_state) }),
{
    let condition = pc_state.get_f().get_c() == 0;
    jr_cc_e(clock, memory, pc_state, condition);
}

/// JR C,e: relative jump when the carry flag is set.
pub fn jrc_e<M: MemoryRW>(clock: &mut Clock, memory: &M, pc_state: &mut PcState)
    requires
        memory.inv(),
    ensures
        final(clock).cycles == cycles_after(
            old(clock).cycles,
            if old(pc_state).f().c() == 1 {
                12
            } else {
                7
            },
        ),
        final(pc_state).pc_reg.word() == (if old(pc_state).f().c() == 1 {
            wrap16(
                old(pc_state).pc_reg.word() + as_i8(
                    memory.mem()[old(pc_state).pc_reg.word()],
                ) + 1,
            )
        } else {
            wrap16(old(pc_state).pc_reg.word() + 1)
        }),
        *final(pc_state) == (PcState { pc_reg: final(pc_state).pc_reg, ..*old(pc_state) }),
{
    let condition = pc_state.get_f().get_c() == 1;
    jr_cc_e(clock, memory, pc_state, condition);
}

/// JR e: unconditional relative jump.
pub fn jr_e<M: MemoryRW>(clock: &mut Clock, memory: &M, pc_state: &mut PcState)
    requires
        memory.inv(),
    ensures
        final(clock).cycles == cycles_after(old(clock).cycles, 12),
        final(pc_state).pc_reg.word() == wrap16(
            old(pc_state).pc_reg.word() + as_i8(memory.mem()[old(pc_state).pc_reg.word()]) + 1,
        ),
        *final(pc_state) == (PcState { pc_reg: final(pc_state).pc_reg, ..*old(pc_state) }),
{
    jr_cc_e(clock, memory, pc_state, true);
}

/// JP cc,nn: absolute jump when the condition holds; the operand word is
/// always consumed.
pub fn jump_cc_nn<M: MemoryRW>(
    clock: &mut Clock,
    memory: &M,
    pc_state: &mut PcState,
    condition: bool,
)
    requires
        memory.inv(),
    ensures
        final(clock).cycles == cycles_after(old(clock).cycles, 10),
        final(pc_state).pc_reg.word() == (if condition {
            word_in(memory.mem(), old(pc_state).pc_reg.word())
        } else {
            wrap16(old(pc_state).pc_reg.word() + 2)
        }),
        *final(pc_state) == (PcState { pc_reg: final(pc_state).pc_reg, ..*old(pc_state) }),
{
    if condition {
        let target = memory.read16(pc_state.get_pc());
        pc_state.set_pc(target);
    } else {
        pc_state.increment_pc(2);
    }
    clock.increment(10);
}

/// DJNZ e: decrement B and jump relative while it has not reached zero.
pub fn djnz<M: MemoryRW>(clock: &mut Clock, memory: &M, pc_state: &mut PcState)
    requires
        memory.inv(),
    ensures
        final(pc_state).bc_reg.high == ((old(pc_state).bc_reg.high - 1) % 256) as u8,
        final(pc_state).bc_reg.low == old(pc_state).bc_reg.low,
        final(clock).cycles == cycles_after(
            old(clock).cycles,
            if ((old(pc_state).bc_reg.high - 1) % 256) != 0 {
                13
            } else {
                8
            },
        ),
        final(pc_state).pc_reg.word() == (if ((old(pc_state).bc_reg.high - 1) % 256) != 0 {
            wrap16(
                old(pc_state).pc_reg.word() + as_i8(
                    memory.mem()[old(pc_state).pc_reg.word()],
                ) + 1,
            )
        } else {
            wrap16(old(pc_state).pc_reg.word() + 1)
        }),
        *final(pc_state) == (PcState {
            bc_reg: final(pc_state).bc_reg,
            pc_reg: final(pc_state).pc_reg,
            ..*old(pc_state)
        }),
{
    let b = pc_state.get_b();
    let new_b: u8 = if b == 0 {
        255
    } else {
        b - 1
    };
    pc_state.set_b(new_b);
    if new_b != 0 {
        let e = memory.read(pc_state.get_pc());
        let d = displacement(e);
        proof {
            lemma_wrap16_add(old(pc_state).pc_reg.word() + as_i8(e), 1);
        }
        pc_state.increment_pc(d);
        clock.increment(13);
    } else {
        clock.increment(8);
    }
    pc_state.increment_pc(1);
}

// Exchanges.

/// Swap the contents of two register pairs.
fn exchange_reg(first: &mut Reg16, second: &mut Reg16)
    ensures
        *final(first) == *old(second),
        *final(second) == *old(first),
{
    let tmp = *first;
    *first = *second;
    *second = tmp;
}

/// EXX: exchange BC, DE and HL with their shadow copies.
pub fn exx(clock: &mut Clock, pc_state: &mut PcState)
    ensures
        final(clock).cycles == cycles_after(old(clock).cycles, 4),
        *final(pc_state) == (PcState {
            bc_reg: old(pc_state).shadow_bc_reg,
            de_reg: old(pc_state).shadow_de_reg,
            hl_reg: old(pc_state).shadow_hl_reg,
            shadow_bc_reg: old(pc_state).bc_reg,
            shadow_de_reg: old(pc_state).de_reg,
            shadow_hl_reg: old(pc_state).hl_reg,
            ..*old(pc_state)
        }),
{
    exchange_reg(&mut pc_state.bc_reg, &mut pc_state.shadow_bc_reg);
    exchange_reg(&mut pc_state.de_reg, &mut pc_state.shadow_de_reg);
    exchange_reg(&mut pc_state.hl_reg, &mut pc_state.shadow_hl_reg);
    clock.increment(4);
}

/// EX: exchange two register pairs (AF with AF', or DE with HL).
pub fn ex(clock: &mut Clock, first: &mut Reg16, second: &mut Reg16)
    ensures
        final(clock).cycles == cycles_after(old(clock).cycles, 4),
        *final(first) == *old(second),
        *final(second) == *old(first),
{
    exchange_reg(first, second);
    clock.increment(4);
}

/// EX (SP),HL: exchange HL with the word on top of the stack, low byte
/// first.
pub fn ex_sp_hl<M: MemoryRW>(clock: &mut Clock, memory: &mut M, pc_state: &mut PcState)
    requires
        old(memory).inv(),
    ensures
        final(memory).inv(),
        final(clock).cycles == cycles_after(old(clock).cycles, 19),
        final(pc_state).hl_reg.low == old(memory).mem()[old(pc_state).sp_reg.word()],
        *final(pc_state) == (PcState { hl_reg: final(pc_state).hl_reg, ..*old(pc_state) }),
        exists|mid: M|
            (#[trigger] M::write_ok(
                *old(memory),
                old(pc_state).sp_reg.value16(),
                old(pc_state).hl_reg.low,
                mid,
            )) && final(pc_state).hl_reg.high == mid.mem()[wrap16(old(pc_state).sp_reg.word() + 1)]
                && M::write_ok(
                mid,
                (wrap16(old(pc_state).sp_reg.word() + 1) as u16),
                old(pc_state).hl_reg.high,
                *final(memory),
            ),
{
    let sp = pc_state.sp_reg.get();
    let stack_low = memory.read(sp);
    memory.write(sp, pc_state.get_l());
    let ghost mid = *memory;
    let sp_next = sp.wrapping_add(1);
    let stack_high = memory.read(sp_next);
    memory.write(sp_next, pc_state.get_h());
    pc_state.set_l(stack_low);
    pc_state.set_h(stack_high);
    proof {
        assert(M::write_ok(
            *old(memory),
            old(pc_state).sp_reg.value16(),
            old(pc_state).hl_reg.low,
            mid,
        ));
        assert(pc_state.hl_reg.high == mid.mem()[wrap16(old(pc_state).sp_reg.word() + 1)]);
        assert(M::write_ok(
            mid,
            (wrap16(old(pc_state).sp_reg.word() + 1) as u16),
            old(pc_state).hl_reg.high,
            *memory,
        ));
    }
    clock.increment(19);
}

// Calls, returns and the stack.

/// CALL cc,nn: when the condition holds, push the return address and jump
/// to the operand word; the operand is always consumed.
pub fn call_cc_nn<M: MemoryRW>(
    clock: &mut Clock,
    memory: &mut M,
    pc_state: &mut PcState,
    condition: bool,
)
    requires
        old(memory).inv(),
    ensures
        final(memory).inv(),
        final(clock).cycles == cycles_after(
            old(clock).cycles,
            if condition {
                17
            } else {
                10
            },
        ),
        *final(pc_state) == (PcState {
            pc_reg: final(pc_state).pc_reg,
            sp_reg: final(pc_state).sp_reg,
            ..*old(pc_state)
        }),
        condition ==> {
            &&& final(pc_state).sp_reg.word() == wrap16(old(pc_state).sp_reg.word() - 2)
            &&& write2_ok(
                *old(memory),
                (wrap16(old(pc_state).sp_reg.word() - 1) as u16),
                hi((wrap16(old(pc_state).pc_reg.word() + 2) as u16)),
                (wrap16(old(pc_state).sp_reg.word() - 2) as u16),
                lo((wrap16(old(pc_state).pc_reg.word() + 2) as u16)),
                *final(memory),
            )
            &&& final(pc_state).pc_reg.word() == word_in(
                final(memory).mem(),
                old(pc_state).pc_reg.word(),
            )
        },
        !condition ==> {
            &&& final(pc_state).pc_reg.word() == wrap16(old(pc_state).pc_reg.word() + 2)
            &&& final(pc_state).sp_reg == old(pc_state).sp_reg
            &&& *final(memory) == *old(memory)
        },
{
    pc_state.increment_pc(2);
    if condition {
        proof {
            lemma_reg16_bytes(pc_state.pc_reg);
            lemma_wrap16_add(old(pc_state).sp_reg.word() + -1, -1);
        }
        pc_state.increment_sp(-1);
        memory.write(pc_state.sp_reg.get(), pc_state.pc_reg.get_high());
        pc_state.increment_sp(-1);
        memory.write(pc_state.sp_reg.get(), pc_state.pc_reg.get_low());
        proof {
            lemma_wrap16_add(old(pc_state).pc_reg.word() + 2, -2);
            vstd::arithmetic::div_mod::lemma_small_mod(
                old(pc_state).pc_reg.word() as nat,
                0x10000,
            );
        }
        let target = memory.read16(pc_state.pc_reg.get().wrapping_sub(2));
        pc_state.set_pc(target);
        clock.increment(17);
    } else {
        clock.increment(10);
    }
}

/// CALL nn: unconditional call.
pub fn call_nn<M: MemoryRW>(clock: &mut Clock, memory: &mut M, pc_state: &mut PcState)
    requires
        old(memory).inv(),
    ensures
        final(memory).inv(),
        final(clock).cycles == cycles_after(old(clock).cycles, 17),
        *final(pc_state) == (PcState {
            pc_reg: final(pc_state).pc_reg,
            sp_reg: final(pc_state).sp_reg,
            ..*old(pc_state)
        }),
        final(pc_state).sp_reg.word() == wrap16(old(pc_state).sp_reg.word() - 2),
        write2_ok(
            *old(memory),
            (wrap16(old(pc_state).sp_reg.word() - 1) as u16),
            hi((wrap16(old(pc_state).pc_reg.word() + 2) as u16)),
            (wrap16(old(pc_state).sp_reg.word() - 2) as u16),
            lo((wrap16(old(pc_state).pc_reg.word() + 2) as u16)),
            *final(memory),
        ),
        final(pc_state).pc_reg.word() == word_in(
            final(memory).mem(),
            old(pc_state).pc_reg.word(),
        ),
{
    call_cc_nn(clock, memory, pc_state, true);
}

/// RST t: push the return address and jump to the fixed restart vector.
pub fn rst<M: MemoryRW>(clock: &mut Clock, memory: &mut M, pc_state: &mut PcState, rst_addr: u8)
    requires
        old(memory).inv(),
    ensures
        final(memory).inv(),
        final(clock).cycles == cycles_after(old(clock).cycles, 11),
        final(pc_state).sp_reg.word() == wrap16(old(pc_state).sp_reg.word() - 2),
        write2_ok(
            *old(memory),
            (wrap16(old(pc_state).sp_reg.word() - 1) as u16),
            old(pc_state).pc_reg.high,
            (wrap16(old(pc_state).sp_reg.word() - 2) as u16),
            old(pc_state).pc_reg.low,
            *final(memory),
        ),
        final(pc_state).pc_reg.word() == rst_addr,
        *final(pc_state) == (PcState {
            pc_reg: final(pc_state).pc_reg,
            sp_reg: final(pc_state).sp_reg,
            ..*old(pc_state)
        }),
{
    proof {
        lemma_wrap16_add(old(pc_state).sp_reg.word() + -1, -1);
    }
    pc_state.increment_sp(-1);
    memory.write(pc_state.sp_reg.get(), pc_state.get_pc_high());
    pc_state.increment_sp(-1);
    memory.write(pc_state.sp_reg.get(), pc_state.get_pc_low());
    pc_state.set_pc(rst_addr as u16);
    clock.increment(11);
}

/// RET: pop the return address into PC, low byte first.
pub fn ret<M: MemoryRW>(clock: &mut Clock, memory: &M, pc_state: &mut PcState)
    requires
        memory.inv(),
    ensures
        final(clock).cycles == cycles_after(old(clock).cycles, 10),
        final(pc_state).pc_reg.low == memory.mem()[old(pc_state).sp_reg.word()],
        final(pc_state).pc_reg.high == memory.mem()[wrap16(old(pc_state).sp_reg.word() + 1)],
        final(pc_state).sp_reg.word() == wrap16(old(pc_state).sp_reg.word() + 2),
        *final(pc_state) == (PcState {
            pc_reg: final(pc_state).pc_reg,
            sp_reg: final(pc_state).sp_reg,
            ..*old(pc_state)
        }),
{
    proof {
        lemma_wrap16_add(old(pc_state).sp_reg.word() + 1, 1);
    }
    let value_low = memory.read(pc_state.sp_reg.get());
    pc_state.set_pc_low(value_low);
    pc_state.increment_sp(1);
    let value_high = memory.read(pc_state.sp_reg.get());
    pc_state.set_pc_high(value_high);
    pc_state.increment_sp(1);
    clock.increment(10);
}

/// RET cc: return when the condition holds.
pub fn ret_cc<M: MemoryRW>(
    clock: &mut Clock,
    memory: &M,
    pc_state: &mut PcState,
    condition: bool,
)
    requires
        memory.inv(),
    ensures
        final(clock).cycles == cycles_after(
            old(clock).cycles,
            if condition {
                11
            } else {
                5
            },
        ),
        condition ==> {
            &&& final(pc_state).pc_reg.low == memory.mem()[old(pc_state).sp_reg.word()]
            &&& final(pc_state).pc_reg.high == memory.mem()[wrap16(
                old(pc_state).sp_reg.word() + 1,
            )]
            &&& final(pc_state).sp_reg.word() == wrap16(old(pc_state).sp_reg.word() + 2)
        },
        !condition ==> *final(pc_state) == *old(pc_state),
        *final(pc_state) == (PcState {
            pc_reg: final(pc_state).pc_reg,
            sp_reg: final(pc_state).sp_reg,
            ..*old(pc_state)
        }),
{
    if condition {
        proof {
            lemma_wrap16_add(old(pc_state).sp_reg.word() + 1, 1);
        }
        let value_low = memory.read(pc_state.sp_reg.get());
        pc_state.set_pc_low(value_low);
        pc_state.increment_sp(1);
        let value_high = memory.read(pc_state.sp_reg.get());
        pc_state.set_pc_high(value_high);
        pc_state.increment_sp(1);
        clock.increment(11);
    } else {
        clock.increment(5);
    }
}

/// POP qq: pop two bytes off the stack into a register pair, low byte
/// first.
pub fn pop<M: MemoryRW>(
    clock: &mut Clock,
    memory: &M,
    sp_reg: &mut Reg16,
    dst_reg: &mut Reg16,
)
    requires
        memory.inv(),
    ensures
        final(clock).cycles == cycles_after(old(clock).cycles, 10),
        final(dst_reg).low == memory.mem()[old(sp_reg).word()],
        final(dst_reg).high == memory.mem()[wrap16(old(sp_reg).word() + 1)],
        final(sp_reg).word() == wrap16(old(sp_reg).word() + 2),
{
    proof {
        lemma_wrap16_add(old(sp_reg).word() + 1, 1);
    }
    let value_low = memory.read(sp_reg.get());
    dst_reg.set_low(value_low);
    PcState::increment_reg(sp_reg, 1);
    let value_high = memory.read(sp_reg.get());
    dst_reg.set_high(value_high);
    PcState::increment_reg(sp_reg, 1);
    clock.increment(10);
}

/// PUSH qq: push a register pair onto the stack, high byte first.
pub fn push<M: MemoryRW>(
    clock: &mut Clock,
    memory: &mut M,
    sp_reg: &mut Reg16,
    src_reg: &Reg16,
)
    requires
        old(memory).inv(),
    ensures
        final(memory).inv(),
        final(clock).cycles == cycles_after(old(clock).cycles, 11),
        final(sp_reg).word() == wrap16(old(sp_reg).word() - 2),
        write2_ok(
            *old(memory),
            (wrap16(old(sp_reg).word() - 1) as u16),
            src_reg.high,
            (wrap16(old(sp_reg).word() - 2) as u16),
            src_reg.low,
            *final(memory),
        ),
{
    proof {
        lemma_wrap16_add(old(sp_reg).word() + -1, -1);
    }
    PcState::increment_reg(sp_reg, -1);
    memory.write(sp_reg.get(), src_reg.get_high());
    PcState::increment_reg(sp_reg, -1);
    memory.write(sp_reg.get(), src_reg.get_low());
    clock.increment(11);
}

// Increment and decrement.

/// DEC r: decrement a register and set the decrement flags.
pub fn dec_r(clock: &mut Clock, pc_state: &mut PcState, dst: Reg8Sel, src: u8)
    ensures
        final(clock).cycles == cycles_after(old(clock).cycles, 4),
        final(pc_state).af_reg.high == old(pc_state).with8(
            dst,
            ((src - 1) % 256) as u8,
        ).af_reg.high,
        final(pc_state).f().n() == 1,
        final(pc_state).f().h() == bool_bit(((src - 1) % 256) as u8 % 16 == 0xF),
        final(pc_state).f().pv() == bool_bit(((src - 1) % 256) as u8 == 0x7F),
        final(pc_state).f().s() == bool_bit(sign8(((src - 1) % 256) as u8)),
        final(pc_state).f().z() == bool_bit(((src - 1) % 256) as u8 == 0),
        final(pc_state).f().c() == old(pc_state).f().c(),
        final(pc_state).f().b3() == old(pc_state).f().b3(),
        final(pc_state).f().b5() == old(pc_state).f().b5(),
        *final(pc_state) == (PcState {
            af_reg: final(pc_state).af_reg,
            ..old(pc_state).with8(dst, ((src - 1) % 256) as u8)
        }),
{
    let new_value: u8 = if src == 0 {
        255
    } else {
        src - 1
    };
    pc_state.set_8(dst, new_value);
    let mut f_value = pc_state.get_f();
    status_flags::calculate_dec_flags(&mut f_value, new_value);
    pc_state.set_f(f_value);
    clock.increment(4);
}

/// DEC ss: decrement a 16-bit register pair; no flags change.
pub fn dec_16(clock: &mut Clock, pc_state: &mut PcState, reg: Reg16Sel, original: u16)
    ensures
        final(clock).cycles == cycles_after(old(clock).cycles, 6),
        *final(pc_state) == old(pc_state).with16(reg, (wrap16(original - 1) as u16)),
{
    let new_value: u16 = if original == 0 {
        0xFFFF
    } else {
        original - 1
    };
    pc_state.set_16(reg, new_value);
    clock.increment(6);
}

/// DEC (HL): decrement the byte at HL and set the decrement flags.
pub fn dec_hl<M: MemoryRW>(clock: &mut Clock, memory: &mut M, pc_state: &mut PcState)
    requires
        old(memory).inv(),
    ensures
        final(memory).inv(),
        final(clock).cycles == cycles_after(old(clock).cycles, 11),
        M::write_ok(
            *old(memory),
            old(pc_state).hl_reg.value16(),
            ((old(memory).mem()[old(pc_state).hl_reg.word()] - 1) % 256) as u8,
            *final(memory),
        ),
        final(pc_state).f().n() == 1,
        final(pc_state).f().h() == bool_bit(
            ((old(memory).mem()[old(pc_state).hl_reg.word()] - 1) % 256) as u8 % 16 == 0xF,
        ),
        final(pc_state).f().pv() == bool_bit(
            ((old(memory).mem()[old(pc_state).hl_reg.word()] - 1) % 256) as u8 == 0x7F,
        ),
        final(pc_state).f().s() == bool_bit(
            sign8(((old(memory).mem()[old(pc_state).hl_reg.word()] - 1) % 256) as u8),
        ),
        final(pc_state).f().z() == bool_bit(
            ((old(memory).mem()[old(pc_state).hl_reg.word()] - 1) % 256) as u8 == 0,
        ),
        final(pc_state).f().c() == old(pc_state).f().c(),
        final(pc_state).f().b3() == old(pc_state).f().b3(),
        final(pc_state).f().b5() == old(pc_state).f().b5(),
        *final(pc_state) == (PcState { af_reg: final(pc_state).af_reg, ..*old(pc_state) }),
        final(pc_state).af_reg.high == old(pc_state).af_reg.high,
{
    let current = memory.read(pc_state.get_hl());
    let new_value: u8 = if current == 0 {
        255
    } else {
        current - 1
    };
    memory.write(pc_state.get_hl(), new_value);
    let mut f_value = pc_state.get_f();
    status_flags::calculate_dec_flags(&mut f_value, new_value);
    pc_state.set_f(f_value);
    clock.increment(11);
}

/// INC r: increment a register and set the increment flags.
pub fn inc_r(clock: &mut Clock, pc_state: &mut PcState, dst: Reg8Sel, src: u8)
    ensures
        final(clock).cycles == cycles_after(old(clock).cycles, 4),
        final(pc_state).af_reg.high == old(pc_state).with8(
            dst,
            ((src + 1) % 256) as u8,
        ).af_reg.high,
        final(pc_state).f().n() == 0,
        final(pc_state).f().h() == bool_bit(((src + 1) % 256) as u8 % 16 == 0),
        final(pc_state).f().pv() == bool_bit(((src + 1) % 256) as u8 == 0x80),
        final(pc_state).f().s() == bool_bit(sign8(((src + 1) % 256) as u8)),
        final(pc_state).f().z() == bool_bit(((src + 1) % 256) as u8 == 0),
        final(pc_state).f().c() == old(pc_state).f().c(),
        final(pc_state).f().b3() == old(pc_state).f().b3(),
        final(pc_state).f().b5() == old(pc_state).f().b5(),
        *final(pc_state) == (PcState {
            af_reg: final(pc_state).af_reg,
            ..old(pc_state).with8(dst, ((src + 1) % 256) as u8)
        }),
{
    let new_value: u8 = if src == 255 {
        0
    } else {
        src + 1
    };
    pc_state.set_8(dst, new_value);
    let mut f_value = pc_state.get_f();
    status_flags::calculate_inc_flags(&mut f_value, new_value);
    pc_state.set_f(f_value);
    clock.increment(4);
}

/// INC ss: increment a 16-bit register pair; no flags change.
pub fn inc_16(clock: &mut Clock, pc_state: &mut PcState, reg: Reg16Sel, original: u16)
    ensures
        final(clock).cycles == cycles_after(old(clock).cycles, 6),
        *final(pc_state) == old(pc_state).with16(reg, (wrap16(original + 1) as u16)),
{
    let new_value: u16 = if original == 0xFFFF {
        0
    } else {
        original + 1
    };
    pc_state.set_16(reg, new_value);
    clock.increment(6);
}

/// INC (HL): increment the byte at HL and set the increment flags.
pub fn inc_hl<M: MemoryRW>(clock: &mut Clock, memory: &mut M, pc_state: &mut PcState)
    requires
        old(memory).inv(),
    ensures
        final(memory).inv(),
        final(clock).cycles == cycles_after(old(clock).cycles, 11),
        M::write_ok(
            *old(memory),
            old(pc_state).hl_reg.value16(),
            ((old(memory).mem()[old(pc_state).hl_reg.word()] + 1) % 256) as u8,
            *final(memory),
        ),
        final(pc_state).f().n() == 0,
        final(pc_state).f().h() == bool_bit(
            ((old(memory).mem()[old(pc_state).hl_reg.word()] + 1) % 256) as u8 % 16 == 0,
        ),
        final(pc_state).f().pv() == bool_bit(
            ((old(memory).mem()[old(pc_state).hl_reg.word()] + 1) % 256) as u8 == 0x80,
        ),
        final(pc_state).f().s() == bool_bit(
            sign8(((old(memory).mem()[old(pc_state).hl_reg.word()] + 1) % 256) as u8),
        ),
        final(pc_state).f().z() == bool_bit(
            ((old(memory).mem()[old(pc_state).hl_reg.word()] + 1) % 256) as u8 == 0,
        ),
        final(pc_state).f().c() == old(pc_state).f().c(),
        final(pc_state).f().b3() == old(pc_state).f().b3(),
        final(pc_state).f().b5() == old(pc_state).f().b5(),
        *final(pc_state) == (PcState { af_reg: final(pc_state).af_reg, ..*old(pc_state) }),
        final(pc_state).af_reg.high == old(pc_state).af_reg.high,
{
    let current = memory.read(pc_state.get_hl());
    let new_value: u8 = if current == 255 {
        0
    } else {
        current + 1
    };
    memory.write(pc_state.get_hl(), new_value);
    let mut f_value = pc_state.get_f();
    status_flags::calculate_inc_flags(&mut f_value, new_value);
    pc_state.set_f(f_value);
    clock.increment(11);
}

// 16-bit arithmetic.

/// ADD HL,ss: add a 16-bit value into HL; only H, C and N change.
pub fn add16(clock: &mut Clock, src_value: u16, hl_reg: &mut Reg16, af_reg: &mut Reg16)
    ensures
        final(clock).cycles == cycles_after(old(clock).cycles, 11),
        final(hl_reg).word() == add16_result(old(hl_reg).value16(), src_value, false),
        final(af_reg).high == old(af_reg).high,
        final(af_reg).flags().h() == bool_bit(add16_half(old(hl_reg).value16(), src_value, false)),
        final(af_reg).flags().c() == bool_bit(
            add16_carry(old(hl_reg).value16(), src_value, false),
        ),
        final(af_reg).flags().n() == 0,
        final(af_reg).flags().s() == old(af_reg).flags().s(),
        final(af_reg).flags().z() == old(af_reg).flags().z(),
        final(af_reg).flags().pv() == old(af_reg).flags().pv(),
        final(af_reg).flags().b3() == old(af_reg).flags().b3(),
        final(af_reg).flags().b5() == old(af_reg).flags().b5(),
{
    let mut f_status = af_reg.get_flags();
    let sum = status_flags::u16_no_carry(hl_reg.get(), src_value, &mut f_status);
    hl_reg.set(sum);
    f_status.set_n(0);
    af_reg.set_flags(&f_status);
    clock.increment(11);
}


/// Round-trip law: a POP performed right after a PUSH restores the pushed
/// pair's exact bytes and returns the stack pointer to its prior value,
/// whatever the flags did in between.  `m1` is the memory `push` leaves
/// behind when the stack pointer stood at `sp`; the bytes `pop` would then
/// read at the decremented pointer are exactly the pushed pair, and
/// stepping the pointer back up restores `sp` itself.
pub proof fn lemma_push_pop_roundtrip(m0: PlainMemory, m1: PlainMemory, pair: Reg16, sp: int)
    requires
        m0.inv(),
        0 <= sp < 0x10000,
        write2_ok(
            m0,
            (wrap16(sp - 1) as u16),
            pair.high,
            (wrap16(sp - 2) as u16),
            pair.low,
            m1,
        ),
    ensures
        m1.mem()[wrap16(sp - 2)] == pair.low,
        m1.mem()[wrap16(wrap16(sp - 2) + 1)] == pair.high,
        wrap16(wrap16(sp - 2) + 2) == sp,
{
    let a1 = wrap16(sp - 1);
    let a2 = wrap16(sp - 2);
    lemma_wrap16_add(sp - 2, 1);
    lemma_wrap16_add(sp - 2, 2);
    vstd::arithmetic::div_mod::lemma_small_mod(sp as nat, 0x10000);
    if sp >= 2 {
        vstd::arithmetic::div_mod::lemma_small_mod((sp - 1) as nat, 0x10000);
        vstd::arithmetic::div_mod::lemma_small_mod((sp - 2) as nat, 0x10000);
    }
    assert(0 <= a1 < 0x10000);
    assert(0 <= a2 < 0x10000);
    assert(a1 != a2);
    let mid = choose|mid: PlainMemory|
        (#[trigger] PlainMemory::write_ok(m0, (a1 as u16), pair.high, mid))
            && PlainMemory::write_ok(mid, (a2 as u16), pair.low, m1);
    assert(m1.data@ == mid.data@.update(a2, pair.low));
    assert(mid.data@ == m0.data@.update(a1, pair.high));
    assert(m1.mem()[a2] == pair.low);
    assert(m1.mem()[a1] == pair.high);
}

} // verus!
