// The instructions that live behind a prefix byte (0xCB, 0xDD, 0xED, 0xFD):
// bit manipulation, the index-register forms, the block transfer and search
// group, and the remaining interrupt and 16-bit arithmetic operations.

use crate::clocks::Clock;
use crate::clocks::cycles_after;
use crate::errors::CpuError;
use crate::instruction_set;
use crate::instruction_set::bit0_set;
use crate::instruction_set::bit7_set;
use crate::instruction_set::displacement;
use crate::instruction_set::rl_val;
use crate::instruction_set::rlc_val;
use crate::instruction_set::rr_val;
use crate::instruction_set::rrc_val;
use crate::instruction_set::sla_val;
use crate::instruction_set::sll_val;
use crate::instruction_set::sra_val;
use crate::instruction_set::srl_val;
use crate::memory::MemoryRW;
use crate::memory::word_in;
use crate::memory::write2_ok;
use crate::pc_state::PcState;
use crate::pc_state::Reg16;
use crate::pc_state::Reg16Sel;
use crate::pc_state::Reg8Sel;
use crate::pc_state::as_i8;
use crate::pc_state::lemma_reg16_bytes;
use crate::pc_state::lemma_wrap16_add;
use crate::pc_state::wrap16;
use crate::ports::Device;
use crate::ports::Ports;
use crate::ports::port_read_rel;
use crate::status_flags;
use crate::status_flags::add16_carry;
use crate::status_flags::add16_half;
use crate::status_flags::add16_overflow;
use crate::status_flags::add16_result;
use crate::status_flags::add8_carry;
use crate::status_flags::add8_half;
use crate::status_flags::add8_overflow;
use crate::status_flags::add8_result;
use crate::status_flags::bit_of;
use crate::status_flags::bool_bit;
use crate::status_flags::parity;
use crate::status_flags::sign16;
use crate::status_flags::sign8;
use crate::status_flags::sub16_borrow;
use crate::status_flags::sub16_half;
use crate::status_flags::sub16_overflow;
use crate::status_flags::sub16_result;
use crate::status_flags::sub8_borrow;
use crate::status_flags::sub8_half;
use crate::status_flags::sub8_overflow;
use crate::status_flags::sub8_result;
use vstd::prelude::*;

verus! {

/// The effective address of a displaced index operand: the index register
/// plus the signed displacement byte found at `pc`.
pub open spec fn index_address(mem: Seq<u8>, pc: int, ix: int) -> int {
    wrap16(ix + as_i8(mem[pc]))
}

/// Read the displacement byte at PC and add it, signed, to the index
/// register value.
fn get_i_d_address<M: MemoryRW>(memory: &M, pc_reg: &Reg16, i16_reg: &Reg16) -> (r: u16)
    requires
        memory.inv(),
    ensures
        r == index_address(memory.mem(), pc_reg.word(), i16_reg.word()),
{
    let e = memory.read(pc_reg.get());
    let d = displacement(e);
    let base = add_displacement(i16_reg.get(), d);
    base
}

/// Add a signed displacement to a 16-bit value, wrapping modulo 65536.
fn add_displacement(base: u16, d: i8) -> (r: u16)
    ensures
        r == wrap16(base + d),
{
    let r = base.wrapping_add_signed(d as i16);
    assert(r == wrap16(base + d)) by {
        assert(wrap16(base + d) == if base + d < 0 {
            base + d + 0x10000
        } else if base + d > 0xFFFF {
            base + d - 0x10000
        } else {
            base + d
        });
    };
    r
}

// Extended load instructions.

/// LD (IX+d),r / LD (IY+d),r: store a register at the displaced index
/// address.
pub fn ld_i_d_r<M: MemoryRW>(
    clock: &mut Clock,
    memory: &mut M,
    r: u8,
    pc_reg: &mut Reg16,
    i16_reg: &Reg16,
)
    requires
        old(memory).inv(),
    ensures
        final(memory).inv(),
        final(clock).cycles == cycles_after(old(clock).cycles, 19),
        M::write_ok(
            *old(memory),
            (index_address(old(memory).mem(), old(pc_reg).word(), i16_reg.word()) as u16),
            r,
            *final(memory),
        ),
        final(pc_reg).word() == wrap16(old(pc_reg).word() + 1),
{
    let address = get_i_d_address(memory, pc_reg, i16_reg);
    memory.write(address, r);
    PcState::increment_reg(pc_reg, 1);
    clock.increment(19);
}

/// LD IX,nn / LD IY,nn: load an index register with the operand word.
pub fn ld_i_nn<M: MemoryRW>(
    clock: &mut Clock,
    memory: &M,
    pc_reg: &mut Reg16,
    i16_reg: &mut Reg16,
)
    requires
        memory.inv(),
    ensures
        final(clock).cycles == cycles_after(old(clock).cycles, 14),
        final(i16_reg).word() == word_in(memory.mem(), old(pc_reg).word()),
        final(pc_reg).word() == wrap16(old(pc_reg).word() + 2),
{
    let value = memory.read16(pc_reg.get());
    i16_reg.set(value);
    PcState::increment_reg(pc_reg, 2);
    clock.increment(14);
}

/// LD IX,(nn) / LD IY,(nn): load an index register from the address the
/// operand word names.
pub fn ld_i_mem_nn<M: MemoryRW>(
    clock: &mut Clock,
    memory: &M,
    pc_reg: &mut Reg16,
    i16_reg: &mut Reg16,
)
    requires
        memory.inv(),
    ensures
        final(clock).cycles == cycles_after(old(clock).cycles, 20),
        final(i16_reg).word() == word_in(memory.mem(), word_in(memory.mem(), old(pc_reg).word())),
        final(pc_reg).word() == wrap16(old(pc_reg).word() + 2),
{
    let address = memory.read16(pc_reg.get());
    let value = memory.read16(address);
    i16_reg.set(value);
    PcState::increment_reg(pc_reg, 2);
    clock.increment(20);
}

/// LD (nn),rr: store a 16-bit register at the address the operand word
/// names, low byte first; the address bytes are fetched again for the high
/// half, as the hardware does.
pub fn ld_mem_nn_reg16<M: MemoryRW>(
    clock: &mut Clock,
    memory: &mut M,
    pc_reg: &mut Reg16,
    reg16: &Reg16,
)
    requires
        old(memory).inv(),
    ensures
        final(memory).inv(),
        final(clock).cycles == cycles_after(old(clock).cycles, 20),
        final(pc_reg).word() == wrap16(old(pc_reg).word() + 2),
        exists|mid: M|
            (#[trigger] M::write_ok(
                *old(memory),
                (word_in(old(memory).mem(), old(pc_reg).word()) as u16),
                reg16.low,
                mid,
            )) && M::write_ok(
                mid,
                (wrap16(word_in(mid.mem(), old(pc_reg).word()) + 1) as u16),
                reg16.high,
                *final(memory),
            ),
{
    let address_low = memory.read16(pc_reg.get());
    memory.write(address_low, reg16.get_low());
    let ghost mid = *memory;
    let address_high = memory.read16(pc_reg.get()).wrapping_add(1);
    memory.write(address_high, reg16.get_high());
    proof {
        assert(M::write_ok(
            *old(memory),
            (word_in(old(memory).mem(), old(pc_reg).word()) as u16),
            reg16.low,
            mid,
        ));
        assert(M::write_ok(
            mid,
            (wrap16(word_in(mid.mem(), old(pc_reg).word()) + 1) as u16),
            reg16.high,
            *memory,
        ));
    }
    PcState::increment_reg(pc_reg, 2);
    clock.increment(20);
}

/// LD dd,(nn): load a selected register pair from the address the operand
/// word names.
pub fn ld_dd_mem_nn<M: MemoryRW>(
    clock: &mut Clock,
    memory: &M,
    pc_state: &mut PcState,
    reg: Reg16Sel,
)
    requires
        memory.inv(),
    ensures
        final(clock).cycles == cycles_after(old(clock).cycles, 20),
        final(pc_state).pc_reg.word() == wrap16(old(pc_state).pc_reg.word() + 2),
        *final(pc_state) == (PcState {
            pc_reg: final(pc_state).pc_reg,
            ..old(pc_state).with16(
                reg,
                (word_in(
                    memory.mem(),
                    word_in(memory.mem(), old(pc_state).pc_reg.word()),
                ) as u16),
            )
        }),
{
    let address = memory.read16(pc_state.get_pc());
    let value = memory.read16(address);
    pc_state.set_16(reg, value);
    pc_state.increment_pc(2);
    clock.increment(20);
}

/// LD SP,IX / LD SP,IY: load the stack pointer from an index register.
pub fn ld_sp_i(clock: &mut Clock, sp_reg: &mut Reg16, i16_reg: &Reg16)
    ensures
        final(clock).cycles == cycles_after(old(clock).cycles, 10),
        final(sp_reg).word() == i16_reg.word(),
{
    sp_reg.set(i16_reg.get());
    clock.increment(10);
}

/// LD (IX+d),n / LD (IY+d),n: store the second operand byte at the
/// displaced index address.
pub fn ld_i_d_n<M: MemoryRW>(
    clock: &mut Clock,
    memory: &mut M,
    pc_reg: &mut Reg16,
    i16_reg: &Reg16,
)
    requires
        old(memory).inv(),
    ensures
        final(memory).inv(),
        final(clock).cycles == cycles_after(old(clock).cycles, 19),
        M::write_ok(
            *old(memory),
            (index_address(old(memory).mem(), old(pc_reg).word(), i16_reg.word()) as u16),
            old(memory).mem()[wrap16(old(pc_reg).word() + 1)],
            *final(memory),
        ),
        final(pc_reg).word() == wrap16(old(pc_reg).word() + 2),
{
    let address = get_i_d_address(memory, pc_reg, i16_reg);
    let value = memory.read(pc_reg.get().wrapping_add(1));
    memory.write(address, value);
    PcState::increment_reg(pc_reg, 2);
    clock.increment(19);
}

/// LD r,(IX+d) / LD r,(IY+d): load a register from the displaced index
/// address.
pub fn ld_r_i_d<M: MemoryRW>(
    clock: &mut Clock,
    memory: &M,
    pc_state: &mut PcState,
    i16_value: u16,
    dst: Reg8Sel,
)
    requires
        memory.inv(),
    ensures
        final(clock).cycles == cycles_after(old(clock).cycles, 19),
        final(pc_state).pc_reg.word() == wrap16(old(pc_state).pc_reg.word() + 1),
        *final(pc_state) == (PcState {
            pc_reg: final(pc_state).pc_reg,
            ..old(pc_state).with8(
                dst,
                memory.mem()[index_address(
                    memory.mem(),
                    old(pc_state).pc_reg.word(),
                    i16_value as int,
                )],
            )
        }),
{
    let e = memory.read(pc_state.get_pc());
    let d = displacement(e);
    let address = add_displacement(i16_value, d);
    let value = memory.read(address);
    pc_state.set_8(dst, value);
    pc_state.increment_pc(1);
    clock.increment(19);
}

/// LD A,R: the refresh register, wired here to the cycle counter's lower
/// bits so that software sees it advance, lands in the accumulator.
pub fn ld_a_r(clock: &mut Clock, pc_state: &mut PcState)
    ensures
        final(clock).cycles == cycles_after(old(clock).cycles, 9),
        final(pc_state).r_reg == (((old(clock).cycles >> 2) & 0x7F) as u8) | (old(
            pc_state,
        ).r_reg & 0x80),
        final(pc_state).af_reg.high == final(pc_state).r_reg,
        final(pc_state).f().n() == 0,
        final(pc_state).f().h() == 0,
        final(pc_state).f().pv() == bool_bit(old(pc_state).iff2),
        final(pc_state).f().s() == bool_bit(sign8(final(pc_state).af_reg.high)),
        final(pc_state).f().z() == bool_bit(final(pc_state).af_reg.high == 0),
        final(pc_state).f().c() == old(pc_state).f().c(),
        final(pc_state).f().b3() == old(pc_state).f().b3(),
        final(pc_state).f().b5() == old(pc_state).f().b5(),
        *final(pc_state) == (PcState {
            af_reg: final(pc_state).af_reg,
            r_reg: final(pc_state).r_reg,
            ..*old(pc_state)
        }),
{
    let current_cycles: u64 = clock.cycles;
    let cycle_bits_wide: u64 = (current_cycles >> 2) & 0x7F;
    assert(cycle_bits_wide < 256) by (bit_vector)
        requires
            cycle_bits_wide == (current_cycles >> 2) & 0x7F,
    ;
    let cycle_bits: u8 = cycle_bits_wide as u8;
    let refreshed = cycle_bits | (pc_state.get_r() & 0x80);
    pc_state.set_r(refreshed);
    pc_state.set_a(refreshed);
    let iff2 = pc_state.get_iff2();
    let accumulator = pc_state.get_a();
    let mut f_status = pc_state.get_f();
    status_flags::accumulator_flags(&mut f_status, accumulator, iff2);
    pc_state.set_f(f_status);
    clock.increment(9);
}

/// LD A,I: the interrupt-vector register lands in the accumulator.
pub fn ld_a_i(clock: &mut Clock, pc_state: &mut PcState)
    ensures
        final(clock).cycles == cycles_after(old(clock).cycles, 9),
        final(pc_state).af_reg.high == old(pc_state).i_reg,
        final(pc_state).f().n() == 0,
        final(pc_state).f().h() == 0,
        final(pc_state).f().pv() == bool_bit(old(pc_state).iff2),
        final(pc_state).f().s() == bool_bit(sign8(old(pc_state).i_reg)),
        final(pc_state).f().z() == bool_bit(old(pc_state).i_reg == 0),
        final(pc_state).f().c() == old(pc_state).f().c(),
        final(pc_state).f().b3() == old(pc_state).f().b3(),
        final(pc_state).f().b5() == old(pc_state).f().b5(),
        *final(pc_state) == (PcState { af_reg: final(pc_state).af_reg, ..*old(pc_state) }),
{
    let value = pc_state.get_i();
    pc_state.set_a(value);
    let iff2 = pc_state.get_iff2();
    let accumulator = pc_state.get_a();
    let mut f_status = pc_state.get_f();
    status_flags::accumulator_flags(&mut f_status, accumulator, iff2);
    pc_state.set_f(f_status);
    clock.increment(9);
}

/// LD R,A: copy the accumulator into the refresh register.
pub fn ld_r_a(clock: &mut Clock, pc_state: &mut PcState)
    ensures
        final(clock).cycles == cycles_after(old(clock).cycles, 9),
        *final(pc_state) == (PcState { r_reg: old(pc_state).af_reg.high, ..*old(pc_state) }),
{
    let value = pc_state.get_a();
    pc_state.set_r(value);
    clock.increment(9);
}

/// LD I,A: copy the accumulator into the interrupt-vector register.
pub fn ld_i_a(clock: &mut Clock, pc_state: &mut PcState)
    ensures
        final(clock).cycles == cycles_after(old(clock).cycles, 9),
        *final(pc_state) == (PcState { i_reg: old(pc_state).af_reg.high, ..*old(pc_state) }),
{
    let value = pc_state.get_a();
    pc_state.set_i(value);
    clock.increment(9);
}

/// POP IX / POP IY: pop two bytes off the stack into an index register,
/// low byte first.
pub fn pop_i<M: MemoryRW>(
    clock: &mut Clock,
    memory: &M,
    sp_reg: &mut Reg16,
    i16_reg: &mut Reg16,
)
    requires
        memory.inv(),
    ensures
        final(clock).cycles == cycles_after(old(clock).cycles, 14),
        final(i16_reg).low == memory.mem()[old(sp_reg).word()],
        final(i16_reg).high == memory.mem()[wrap16(old(sp_reg).word() + 1)],
        final(sp_reg).word() == wrap16(old(sp_reg).word() + 2),
{
    proof {
        lemma_wrap16_add(old(sp_reg).word() + 1, 1);
    }
    let value_low = memory.read(sp_reg.get());
    i16_reg.set_low(value_low);
    PcState::increment_reg(sp_reg, 1);
    let value_high = memory.read(sp_reg.get());
    i16_reg.set_high(value_high);
    PcState::increment_reg(sp_reg, 1);
    clock.increment(14);
}

/// PUSH IX / PUSH IY: push an index register onto the stack, high byte
/// first.
pub fn push_i<M: MemoryRW>(
    clock: &mut Clock,
    memory: &mut M,
    sp_reg: &mut Reg16,
    i16_reg: &Reg16,
)
    requires
        old(memory).inv(),
    ensures
        final(memory).inv(),
        final(clock).cycles == cycles_after(old(clock).cycles, 15),
        final(sp_reg).word() == wrap16(old(sp_reg).word() - 2),
        write2_ok(
            *old(memory),
            (wrap16(old(sp_reg).word() - 1) as u16),
            i16_reg.high,
            (wrap16(old(sp_reg).word() - 2) as u16),
            i16_reg.low,
            *final(memory),
        ),
{
    proof {
        lemma_wrap16_add(old(sp_reg).word() + -1, -1);
    }
    PcState::increment_reg(sp_reg, -1);
    memory.write(sp_reg.get(), i16_reg.get_high());
    PcState::increment_reg(sp_reg, -1);
    memory.write(sp_reg.get(), i16_reg.get_low());
    clock.increment(15);
}

/// EX (SP),IX / EX (SP),IY: exchange an index register with the word on
/// top of the stack, low byte first.
pub fn ex_sp_i<M: MemoryRW>(
    clock: &mut Clock,
    memory: &mut M,
    sp_reg: &Reg16,
    i16_reg: &mut Reg16,
)
    requires
        old(memory).inv(),
    ensures
        final(memory).inv(),
        final(clock).cycles == cycles_after(old(clock).cycles, 23),
        final(i16_reg).low == old(memory).mem()[sp_reg.word()],
        exists|mid: M|
            (#[trigger] M::write_ok(
                *old(memory),
                sp_reg.value16(),
                old(i16_reg).low,
                mid,
            )) && final(i16_reg).high == mid.mem()[wrap16(sp_reg.word() + 1)] && M::write_ok(
                mid,
                (wrap16(sp_reg.word() + 1) as u16),
                old(i16_reg).high,
                *final(memory),
            ),
{
    let sp = sp_reg.get();
    let stack_low = memory.read(sp);
    memory.write(sp, i16_reg.get_low());
    let ghost mid = *memory;
    let sp_next = sp.wrapping_add(1);
    let stack_high = memory.read(sp_next);
    memory.write(sp_next, i16_reg.get_high());
    i16_reg.set_low(stack_low);
    i16_reg.set_high(stack_high);
    proof {
        assert(M::write_ok(*old(memory), sp_reg.value16(), old(i16_reg).low, mid));
        assert(i16_reg.high == mid.mem()[wrap16(sp_reg.word() + 1)]);
        assert(M::write_ok(
            mid,
            (wrap16(sp_reg.word() + 1) as u16),
            old(i16_reg).high,
            *memory,
        ));
    }
    clock.increment(23);
}

// Bit test, set and reset.

/// BIT b,r: test one bit of a register in the flags.
pub fn bit_b_r(clock: &mut Clock, bit_pos: u8, r: u8, af_reg: &mut Reg16)
    ensures
        final(clock).cycles == cycles_after(old(clock).cycles, 8),
        final(af_reg).high == old(af_reg).high,
        final(af_reg).flags().z() == bool_bit(bit_of(r, (bit_pos & 7) as u8) == 0),
        final(af_reg).flags().pv() == bool_bit(bit_of(r, (bit_pos & 7) as u8) == 0),
        final(af_reg).flags().h() == 1,
        final(af_reg).flags().n() == 0,
        final(af_reg).flags().s() == 0,
        final(af_reg).flags().c() == old(af_reg).flags().c(),
        final(af_reg).flags().b3() == old(af_reg).flags().b3(),
        final(af_reg).flags().b5() == old(af_reg).flags().b5(),
{
    let mut f_status = af_reg.get_flags();
    status_flags::set_bit_test_flags(r, bit_pos, &mut f_status);
    af_reg.set_flags(&f_status);
    clock.increment(8);
}

/// BIT b,(HL): test one bit of the byte at HL in the flags.
pub fn bit_b_mem<M: MemoryRW>(
    clock: &mut Clock,
    memory: &M,
    bit_pos: u8,
    af_reg: &mut Reg16,
    addr_reg: &Reg16,
)
    requires
        memory.inv(),
    ensures
        final(clock).cycles == cycles_after(old(clock).cycles, 12),
        final(af_reg).high == old(af_reg).high,
        final(af_reg).flags().z() == bool_bit(
            bit_of(memory.mem()[addr_reg.word()], (bit_pos & 7) as u8) == 0,
        ),
        final(af_reg).flags().pv() == bool_bit(
            bit_of(memory.mem()[addr_reg.word()], (bit_pos & 7) as u8) == 0,
        ),
        final(af_reg).flags().h() == 1,
        final(af_reg).flags().n() == 0,
        final(af_reg).flags().s() == 0,
        final(af_reg).flags().c() == old(af_reg).flags().c(),
        final(af_reg).flags().b3() == old(af_reg).flags().b3(),
        final(af_reg).flags().b5() == old(af_reg).flags().b5(),
{
    let value = memory.read(addr_reg.get());
    let mut f_status = af_reg.get_flags();
    status_flags::set_bit_test_flags(value, bit_pos, &mut f_status);
    af_reg.set_flags(&f_status);
    clock.increment(12);
}

/// SET b,r: set one bit of a register.
pub fn set_b_r(
    clock: &mut Clock,
    bit_pos: u8,
    pc_state: &mut PcState,
    dst: Reg8Sel,
    original_value: u8,
)
    requires
        bit_pos < 8,
    ensures
        final(clock).cycles == cycles_after(old(clock).cycles, 8),
        *final(pc_state) == old(pc_state).with8(dst, original_value | (1u8 << bit_pos)),
{
    pc_state.set_8(dst, original_value | (1u8 << bit_pos));
    clock.increment(8);
}

/// SET b,(HL): set one bit of the byte at HL.
pub fn set_b_mem<M: MemoryRW>(
    clock: &mut Clock,
    memory: &mut M,
    bit_pos: u8,
    addr_reg: &Reg16,
)
    requires
        old(memory).inv(),
        bit_pos < 8,
    ensures
        final(memory).inv(),
        final(clock).cycles == cycles_after(old(clock).cycles, 12),
        M::write_ok(
            *old(memory),
            addr_reg.value16(),
            old(memory).mem()[addr_reg.word()] | (1u8 << bit_pos),
            *final(memory),
        ),
{
    let value = memory.read(addr_reg.get());
    memory.write(addr_reg.get(), value | (1u8 << bit_pos));
    clock.increment(12);
}

/// RES b,r: clear one bit of a register.
pub fn res_b_r(
    clock: &mut Clock,
    bit_pos: u8,
    pc_state: &mut PcState,
    dst: Reg8Sel,
    original_value: u8,
)
    requires
        bit_pos < 8,
    ensures
        final(clock).cycles == cycles_after(old(clock).cycles, 8),
        *final(pc_state) == old(pc_state).with8(dst, original_value & !(1u8 << bit_pos)),
{
    pc_state.set_8(dst, original_value & !(1u8 << bit_pos));
    clock.increment(8);
}

/// RES b,(HL): clear one bit of the byte at HL.
pub fn res_b_mem<M: MemoryRW>(
    clock: &mut Clock,
    memory: &mut M,
    bit_pos: u8,
    addr_reg: &Reg16,
)
    requires
        old(memory).inv(),
        bit_pos < 8,
    ensures
        final(memory).inv(),
        final(clock).cycles == cycles_after(old(clock).cycles, 12),
        M::write_ok(
            *old(memory),
            addr_reg.value16(),
            old(memory).mem()[addr_reg.word()] & !(1u8 << bit_pos),
            *final(memory),
        ),
{
    let value = memory.read(addr_reg.get());
    memory.write(addr_reg.get(), value & !(1u8 << bit_pos));
    clock.increment(12);
}

/// BIT/RES/SET b,(IX+d) and b,(IY+d): the doubly prefixed forms, whose
/// displacement byte arrives before the final opcode byte.  An opcode byte
/// in the remaining class has no rule and is a fatal error.
pub fn bit_res_set_b_i_d<M: MemoryRW>(
    clock: &mut Clock,
    memory: &mut M,
    pc_reg: &mut Reg16,
    af_reg: &mut Reg16,
    i16_reg: &Reg16,
) -> (r: Result<(), CpuError>)
    requires
        old(memory).inv(),
    ensures
        final(memory).inv(),
        ({
            let op_details = old(memory).mem()[wrap16(old(pc_reg).word() + 1)];
            let bit_pos = (op_details >> 3) & 7;
            let address = index_address(old(memory).mem(), old(pc_reg).word(), i16_reg.word());
            let test_value = old(memory).mem()[address];
            match r {
                Result::Ok(()) => {
                    &&& op_details >> 6 != 0
                    &&& final(pc_reg).word() == wrap16(old(pc_reg).word() + 2)
                    &&& (op_details >> 6 == 1 ==> {
                        &&& *final(memory) == *old(memory)
                        &&& final(clock).cycles == cycles_after(old(clock).cycles, 20)
                        &&& final(af_reg).high == old(af_reg).high
                        &&& final(af_reg).flags().z() == bool_bit(bit_of(test_value, bit_pos) == 0)
                        &&& final(af_reg).flags().pv() == bool_bit(
                            bit_of(test_value, bit_pos) == 0,
                        )
                        &&& final(af_reg).flags().h() == 1
                        &&& final(af_reg).flags().n() == 0
                        &&& final(af_reg).flags().s() == 0
                        &&& final(af_reg).flags().c() == old(af_reg).flags().c()
                        &&& final(af_reg).flags().b3() == old(af_reg).flags().b3()
                        &&& final(af_reg).flags().b5() == old(af_reg).flags().b5()
                    })
                    &&& (op_details >> 6 == 2 ==> {
                        &&& *final(af_reg) == *old(af_reg)
                        &&& final(clock).cycles == cycles_after(old(clock).cycles, 23)
                        &&& M::write_ok(
                            *old(memory),
                            (address as u16),
                            test_value & !(1u8 << bit_pos),
                            *final(memory),
                        )
                    })
                    &&& (op_details >> 6 == 3 ==> {
                        &&& *final(af_reg) == *old(af_reg)
                        &&& final(clock).cycles == cycles_after(old(clock).cycles, 23)
                        &&& M::write_ok(
                            *old(memory),
                            (address as u16),
                            test_value | (1u8 << bit_pos),
                            *final(memory),
                        )
                    })
                },
                Result::Err(e) => {
                    &&& op_details >> 6 == 0
                    &&& e == (CpuError::UnknownExtendedOpcode {
                        prefix: 0xCB,
                        opcode: op_details,
                        pc: old(pc_reg).value16(),
                    })
                    &&& *final(memory) == *old(memory)
                    &&& *final(pc_reg) == *old(pc_reg)
                    &&& *final(af_reg) == *old(af_reg)
                    &&& *final(clock) == *old(clock)
                },
            }
        }),
{
    let address = get_i_d_address(memory, pc_reg, i16_reg);
    let test_value = memory.read(address);
    let op_details = memory.read(pc_reg.get().wrapping_add(1));
    let bit_pos = (op_details >> 3) & 0x7;
    assert(bit_pos < 8 && bit_pos & 7 == bit_pos) by (bit_vector)
        requires
            bit_pos == (op_details >> 3) & 0x7,
    ;
    let op_class = op_details >> 6;
    assert(op_class <= 3) by (bit_vector)
        requires
            op_class == op_details >> 6,
    ;

    if op_class == 0 {
        proof {
            lemma_reg16_bytes(*pc_reg);
        }
        return Err(
            CpuError::UnknownExtendedOpcode { prefix: 0xCB, opcode: op_details, pc: pc_reg.get() },
        );
    }
    if op_class == 1 {
        let mut f_status = af_reg.get_flags();
        status_flags::set_bit_test_flags(test_value, bit_pos, &mut f_status);
        af_reg.set_flags(&f_status);
        clock.increment(20);
    } else if op_class == 2 {
        memory.write(address, test_value & !(1u8 << bit_pos));
        clock.increment(23);
    } else {
        memory.write(address, test_value | (1u8 << bit_pos));
        clock.increment(23);
    }
    PcState::increment_reg(pc_reg, 2);
    Ok(())
}


// Jump and compare instructions.

/// JP (IX) / JP (IY): load PC from an index register.
pub fn jp_i(clock: &mut Clock, pc_reg: &mut Reg16, i16_reg: &Reg16)
    ensures
        final(clock).cycles == cycles_after(old(clock).cycles, 8),
        final(pc_reg).word() == i16_reg.word(),
{
    pc_reg.set(i16_reg.get());
    clock.increment(8);
}

/// CP (IX+d) / CP (IY+d): compare the accumulator with the byte at the
/// displaced index address; only flags change.
pub fn cp_i_d<M: MemoryRW>(
    clock: &mut Clock,
    memory: &M,
    pc_reg: &mut Reg16,
    i16_reg: &Reg16,
    af_reg: &mut Reg16,
)
    requires
        memory.inv(),
    ensures
        final(clock).cycles == cycles_after(old(clock).cycles, 19),
        final(pc_reg).word() == wrap16(old(pc_reg).word() + 1),
        final(af_reg).high == old(af_reg).high,
        ({
            let operand = memory.mem()[index_address(
                memory.mem(),
                old(pc_reg).word(),
                i16_reg.word(),
            )];
            &&& final(af_reg).flags().c() == bool_bit(
                sub8_borrow(old(af_reg).high, operand, false),
            )
            &&& final(af_reg).flags().h() == bool_bit(sub8_half(old(af_reg).high, operand, false))
            &&& final(af_reg).flags().pv() == bool_bit(
                sub8_overflow(old(af_reg).high, operand, false),
            )
            &&& final(af_reg).flags().n() == 1
            &&& final(af_reg).flags().s() == bool_bit(
                sign8(sub8_result(old(af_reg).high, operand, false)),
            )
            &&& final(af_reg).flags().z() == bool_bit(
                sub8_result(old(af_reg).high, operand, false) == 0,
            )
            &&& final(af_reg).flags().b3() == old(af_reg).flags().b3()
            &&& final(af_reg).flags().b5() == old(af_reg).flags().b5()
        }),
{
    let address = get_i_d_address(memory, pc_reg, i16_reg);
    let operand = memory.read(address);
    let accumulator = af_reg.get_high();
    instruction_set::cp_flags(accumulator, operand, af_reg);
    PcState::increment_reg(pc_reg, 1);
    clock.increment(19);
}

/// CPI: compare the accumulator with the byte at HL, then advance HL and
/// count BC down; P/V reports whether BC reached zero.
pub fn cpi<M: MemoryRW>(clock: &mut Clock, memory: &M, pc_state: &mut PcState)
    requires
        memory.inv(),
    ensures
        final(clock).cycles == cycles_after(old(clock).cycles, 16),
        final(pc_state).hl_reg.word() == wrap16(old(pc_state).hl_reg.word() + 1),
        final(pc_state).bc_reg.word() == wrap16(old(pc_state).bc_reg.word() - 1),
        final(pc_state).af_reg.high == old(pc_state).af_reg.high,
        ({
            let operand = memory.mem()[old(pc_state).hl_reg.word()];
            &&& final(pc_state).f().c() == bool_bit(
                sub8_borrow(old(pc_state).af_reg.high, operand, false),
            )
            &&& final(pc_state).f().h() == bool_bit(
                sub8_half(old(pc_state).af_reg.high, operand, false),
            )
            &&& final(pc_state).f().n() == 1
            &&& final(pc_state).f().s() == bool_bit(
                sign8(sub8_result(old(pc_state).af_reg.high, operand, false)),
            )
            &&& final(pc_state).f().z() == bool_bit(
                sub8_result(old(pc_state).af_reg.high, operand, false) == 0,
            )
        }),
        final(pc_state).f().pv() == bool_bit(old(pc_state).bc_reg.word() == 1),
        final(pc_state).f().b3() == old(pc_state).f().b3(),
        final(pc_state).f().b5() == old(pc_state).f().b5(),
        *final(pc_state) == (PcState {
            af_reg: final(pc_state).af_reg,
            hl_reg: final(pc_state).hl_reg,
            bc_reg: final(pc_state).bc_reg,
            ..*old(pc_state)
        }),
{
    let operand = memory.read(pc_state.get_hl());
    let accumulator = pc_state.get_a();
    instruction_set::cp_flags(accumulator, operand, &mut pc_state.af_reg);
    PcState::increment_reg(&mut pc_state.hl_reg, 1);
    PcState::increment_reg(&mut pc_state.bc_reg, -1);
    let mut f_status = pc_state.get_f();
    if pc_state.bc_reg.get() == 0 {
        f_status.set_pv(1);
    } else {
        f_status.set_pv(0);
    }
    pc_state.set_f(f_status);
    clock.increment(16);
}

/// CPD: compare the accumulator with the byte at HL, then step HL back and
/// count BC down; P/V reports whether BC reached zero.
pub fn cpd<M: MemoryRW>(clock: &mut Clock, memory: &M, pc_state: &mut PcState)
    requires
        memory.inv(),
    ensures
        final(clock).cycles == cycles_after(old(clock).cycles, 16),
        final(pc_state).hl_reg.word() == wrap16(old(pc_state).hl_reg.word() - 1),
        final(pc_state).bc_reg.word() == wrap16(old(pc_state).bc_reg.word() - 1),
        final(pc_state).af_reg.high == old(pc_state).af_reg.high,
        ({
            let operand = memory.mem()[old(pc_state).hl_reg.word()];
            &&& final(pc_state).f().c() == bool_bit(
                sub8_borrow(old(pc_state).af_reg.high, operand, false),
            )
            &&& final(pc_state).f().h() == bool_bit(
                sub8_half(old(pc_state).af_reg.high, operand, false),
            )
            &&& final(pc_state).f().n() == 1
            &&& final(pc_state).f().s() == bool_bit(
                sign8(sub8_result(old(pc_state).af_reg.high, operand, false)),
            )
            &&& final(pc_state).f().z() == bool_bit(
                sub8_result(old(pc_state).af_reg.high, operand, false) == 0,
            )
        }),
        final(pc_state).f().pv() == bool_bit(old(pc_state).bc_reg.word() == 1),
        final(pc_state).f().b3() == old(pc_state).f().b3(),
        final(pc_state).f().b5() == old(pc_state).f().b5(),
        *final(pc_state) == (PcState {
            af_reg: final(pc_state).af_reg,
            hl_reg: final(pc_state).hl_reg,
            bc_reg: final(pc_state).bc_reg,
            ..*old(pc_state)
        }),
{
    let operand = memory.read(pc_state.get_hl());
    let accumulator = pc_state.get_a();
    instruction_set::cp_flags(accumulator, operand, &mut pc_state.af_reg);
    PcState::increment_reg(&mut pc_state.hl_reg, -1);
    PcState::increment_reg(&mut pc_state.bc_reg, -1);
    let mut f_status = pc_state.get_f();
    if pc_state.bc_reg.get() == 0 {
        f_status.set_pv(1);
    } else {
        f_status.set_pv(0);
    }
    pc_state.set_f(f_status);
    clock.increment(16);
}

/// CPIR: one iteration of the repeating compare-and-increment; the carry
/// flag is preserved, and the instruction repeats (PC stepped back over it)
/// until BC runs out or a match is found.
pub fn cpir<M: MemoryRW>(clock: &mut Clock, memory: &M, pc_state: &mut PcState)
    requires
        memory.inv(),
    ensures
        final(pc_state).hl_reg.word() == wrap16(old(pc_state).hl_reg.word() + 1),
        final(pc_state).bc_reg.word() == wrap16(old(pc_state).bc_reg.word() - 1),
        final(pc_state).af_reg.high == old(pc_state).af_reg.high,
        ({
            let operand = memory.mem()[old(pc_state).hl_reg.word()];
            let done = old(pc_state).bc_reg.word() == 1 || sub8_result(
                old(pc_state).af_reg.high,
                operand,
                false,
            ) == 0;
            &&& final(pc_state).f().c() == old(pc_state).f().c()
            &&& final(pc_state).f().h() == bool_bit(
                sub8_half(old(pc_state).af_reg.high, operand, false),
            )
            &&& final(pc_state).f().n() == 1
            &&& final(pc_state).f().s() == bool_bit(
                sign8(sub8_result(old(pc_state).af_reg.high, operand, false)),
            )
            &&& final(pc_state).f().z() == bool_bit(
                sub8_result(old(pc_state).af_reg.high, operand, false) == 0,
            )
            &&& final(pc_state).f().pv() == bool_bit(!done)
            &&& final(clock).cycles == cycles_after(
                old(clock).cycles,
                if done {
                    16
                } else {
                    21
                },
            )
            &&& final(pc_state).pc_reg.word() == (if done {
                old(pc_state).pc_reg.word()
            } else {
                wrap16(old(pc_state).pc_reg.word() - 2)
            })
        }),
        final(pc_state).f().b3() == old(pc_state).f().b3(),
        final(pc_state).f().b5() == old(pc_state).f().b5(),
        *final(pc_state) == (PcState {
            af_reg: final(pc_state).af_reg,
            hl_reg: final(pc_state).hl_reg,
            bc_reg: final(pc_state).bc_reg,
            pc_reg: final(pc_state).pc_reg,
            ..*old(pc_state)
        }),
{
    let original_carry = pc_state.get_f().get_c();
    PcState::increment_reg(&mut pc_state.bc_reg, -1);
    let operand = memory.read(pc_state.get_hl());
    let accumulator = pc_state.get_a();
    instruction_set::cp_flags(accumulator, operand, &mut pc_state.af_reg);
    PcState::increment_reg(&mut pc_state.hl_reg, 1);
    let mut f_status = pc_state.get_f();
    f_status.set_c(original_carry);
    if pc_state.bc_reg.get() == 0 || f_status.get_z() == 1 {
        f_status.set_pv(0);
        clock.increment(16);
    } else {
        f_status.set_pv(1);
        pc_state.increment_pc(-2);
        clock.increment(21);
    }
    pc_state.set_f(f_status);
}

/// CPDR: one iteration of the repeating compare-and-decrement; the carry
/// flag is preserved, and the instruction repeats until BC runs out or a
/// match is found.
pub fn cpdr<M: MemoryRW>(clock: &mut Clock, memory: &M, pc_state: &mut PcState)
    requires
        memory.inv(),
    ensures
        final(pc_state).hl_reg.word() == wrap16(old(pc_state).hl_reg.word() - 1),
        final(pc_state).bc_reg.word() == wrap16(old(pc_state).bc_reg.word() - 1),
        final(pc_state).af_reg.high == old(pc_state).af_reg.high,
        ({
            let operand = memory.mem()[old(pc_state).hl_reg.word()];
            let done = old(pc_state).bc_reg.word() == 1 || sub8_result(
                old(pc_state).af_reg.high,
                operand,
                false,
            ) == 0;
            &&& final(pc_state).f().c() == old(pc_state).f().c()
            &&& final(pc_state).f().h() == bool_bit(
                sub8_half(old(pc_state).af_reg.high, operand, false),
            )
            &&& final(pc_state).f().n() == 1
            &&& final(pc_state).f().s() == bool_bit(
                sign8(sub8_result(old(pc_state).af_reg.high, operand, false)),
            )
            &&& final(pc_state).f().z() == bool_bit(
                sub8_result(old(pc_state).af_reg.high, operand, false) == 0,
            )
            &&& final(pc_state).f().pv() == bool_bit(!done)
            &&& final(clock).cycles == cycles_after(
                old(clock).cycles,
                if done {
                    16
                } else {
                    21
                },
            )
            &&& final(pc_state).pc_reg.word() == (if done {
                old(pc_state).pc_reg.word()
            } else {
                wrap16(old(pc_state).pc_reg.word() - 2)
            })
        }),
        final(pc_state).f().b3() == old(pc_state).f().b3(),
        final(pc_state).f().b5() == old(pc_state).f().b5(),
        *final(pc_state) == (PcState {
            af_reg: final(pc_state).af_reg,
            hl_reg: final(pc_state).hl_reg,
            bc_reg: final(pc_state).bc_reg,
            pc_reg: final(pc_state).pc_reg,
            ..*old(pc_state)
        }),
{
    let original_carry = pc_state.get_f().get_c();
    PcState::increment_reg(&mut pc_state.bc_reg, -1);
    let operand = memory.read(pc_state.get_hl());
    let accumulator = pc_state.get_a();
    instruction_set::cp_flags(accumulator, operand, &mut pc_state.af_reg);
    PcState::increment_reg(&mut pc_state.hl_reg, -1);
    let mut f_status = pc_state.get_f();
    f_status.set_c(original_carry);
    if pc_state.bc_reg.get() == 0 || f_status.get_z() == 1 {
        f_status.set_pv(0);
        clock.increment(16);
    } else {
        f_status.set_pv(1);
        pc_state.increment_pc(-2);
        clock.increment(21);
    }
    pc_state.set_f(f_status);
}


// Block transfer instructions.

/// LDI: copy the byte at HL to DE, advance both pointers, count BC down;
/// P/V reports whether BC reached zero.
pub fn ldi<M: MemoryRW>(clock: &mut Clock, memory: &mut M, pc_state: &mut PcState)
    requires
        old(memory).inv(),
    ensures
        final(memory).inv(),
        final(clock).cycles == cycles_after(old(clock).cycles, 16),
        M::write_ok(
            *old(memory),
            old(pc_state).de_reg.value16(),
            old(memory).mem()[old(pc_state).hl_reg.word()],
            *final(memory),
        ),
        final(pc_state).hl_reg.word() == wrap16(old(pc_state).hl_reg.word() + 1),
        final(pc_state).de_reg.word() == wrap16(old(pc_state).de_reg.word() + 1),
        final(pc_state).bc_reg.word() == wrap16(old(pc_state).bc_reg.word() - 1),
        final(pc_state).af_reg.high == old(pc_state).af_reg.high,
        final(pc_state).f().pv() == bool_bit(old(pc_state).bc_reg.word() == 1),
        final(pc_state).f().h() == 0,
        final(pc_state).f().n() == 0,
        final(pc_state).f().c() == old(pc_state).f().c(),
        final(pc_state).f().s() == old(pc_state).f().s(),
        final(pc_state).f().z() == old(pc_state).f().z(),
        final(pc_state).f().b3() == old(pc_state).f().b3(),
        final(pc_state).f().b5() == old(pc_state).f().b5(),
        *final(pc_state) == (PcState {
            af_reg: final(pc_state).af_reg,
            hl_reg: final(pc_state).hl_reg,
            de_reg: final(pc_state).de_reg,
            bc_reg: final(pc_state).bc_reg,
            ..*old(pc_state)
        }),
{
    let value = memory.read(pc_state.get_hl());
    memory.write(pc_state.get_de(), value);
    PcState::increment_reg(&mut pc_state.hl_reg, 1);
    PcState::increment_reg(&mut pc_state.de_reg, 1);
    PcState::increment_reg(&mut pc_state.bc_reg, -1);
    let mut f_status = pc_state.get_f();
    if pc_state.bc_reg.get() == 0 {
        f_status.set_pv(1);
    } else {
        f_status.set_pv(0);
    }
    f_status.set_h(0);
    f_status.set_n(0);
    pc_state.set_f(f_status);
    clock.increment(16);
}

/// LDD: copy the byte at HL to DE, step both pointers back, count BC down;
/// P/V reports whether BC reached zero.
pub fn ldd<M: MemoryRW>(clock: &mut Clock, memory: &mut M, pc_state: &mut PcState)
    requires
        old(memory).inv(),
    ensures
        final(memory).inv(),
        final(clock).cycles == cycles_after(old(clock).cycles, 16),
        M::write_ok(
            *old(memory),
            old(pc_state).de_reg.value16(),
            old(memory).mem()[old(pc_state).hl_reg.word()],
            *final(memory),
        ),
        final(pc_state).hl_reg.word() == wrap16(old(pc_state).hl_reg.word() - 1),
        final(pc_state).de_reg.word() == wrap16(old(pc_state).de_reg.word() - 1),
        final(pc_state).bc_reg.word() == wrap16(old(pc_state).bc_reg.word() - 1),
        final(pc_state).af_reg.high == old(pc_state).af_reg.high,
        final(pc_state).f().pv() == bool_bit(old(pc_state).bc_reg.word() == 1),
        final(pc_state).f().h() == 0,
        final(pc_state).f().n() == 0,
        final(pc_state).f().c() == old(pc_state).f().c(),
        final(pc_state).f().s() == old(pc_state).f().s(),
        final(pc_state).f().z() == old(pc_state).f().z(),
        final(pc_state).f().b3() == old(pc_state).f().b3(),
        final(pc_state).f().b5() == old(pc_state).f().b5(),
        *final(pc_state) == (PcState {
            af_reg: final(pc_state).af_reg,
            hl_reg: final(pc_state).hl_reg,
            de_reg: final(pc_state).de_reg,
            bc_reg: final(pc_state).bc_reg,
            ..*old(pc_state)
        }),
{
    let value = memory.read(pc_state.get_hl());
    memory.write(pc_state.get_de(), value);
    PcState::increment_reg(&mut pc_state.hl_reg, -1);
    PcState::increment_reg(&mut pc_state.de_reg, -1);
    PcState::increment_reg(&mut pc_state.bc_reg, -1);
    let mut f_status = pc_state.get_f();
    if pc_state.bc_reg.get() == 0 {
        f_status.set_pv(1);
    } else {
        f_status.set_pv(0);
    }
    f_status.set_h(0);
    f_status.set_n(0);
    pc_state.set_f(f_status);
    clock.increment(16);
}

/// LDIR: one iteration of the repeating block copy; while BC has not run
/// out, PC is stepped back over the instruction and the longer time is
/// charged.
pub fn ldir<M: MemoryRW>(clock: &mut Clock, memory: &mut M, pc_state: &mut PcState)
    requires
        old(memory).inv(),
    ensures
        final(memory).inv(),
        M::write_ok(
            *old(memory),
            old(pc_state).de_reg.value16(),
            old(memory).mem()[old(pc_state).hl_reg.word()],
            *final(memory),
        ),
        final(pc_state).hl_reg.word() == wrap16(old(pc_state).hl_reg.word() + 1),
        final(pc_state).de_reg.word() == wrap16(old(pc_state).de_reg.word() + 1),
        final(pc_state).bc_reg.word() == wrap16(old(pc_state).bc_reg.word() - 1),
        final(pc_state).af_reg.high == old(pc_state).af_reg.high,
        final(pc_state).f().h() == 0,
        final(pc_state).f().pv() == 0,
        final(pc_state).f().n() == bool_bit(old(pc_state).bc_reg.word() != 1),
        final(pc_state).f().c() == old(pc_state).f().c(),
        final(pc_state).f().s() == old(pc_state).f().s(),
        final(pc_state).f().z() == old(pc_state).f().z(),
        final(pc_state).f().b3() == old(pc_state).f().b3(),
        final(pc_state).f().b5() == old(pc_state).f().b5(),
        final(clock).cycles == cycles_after(
            old(clock).cycles,
            if old(pc_state).bc_reg.word() == 1 {
                16
            } else {
                21
            },
        ),
        final(pc_state).pc_reg.word() == (if old(pc_state).bc_reg.word() == 1 {
            old(pc_state).pc_reg.word()
        } else {
            wrap16(old(pc_state).pc_reg.word() - 2)
        }),
        *final(pc_state) == (PcState {
            af_reg: final(pc_state).af_reg,
            hl_reg: final(pc_state).hl_reg,
            de_reg: final(pc_state).de_reg,
            bc_reg: final(pc_state).bc_reg,
            pc_reg: final(pc_state).pc_reg,
            ..*old(pc_state)
        }),
{
    PcState::increment_reg(&mut pc_state.bc_reg, -1);
    let value = memory.read(pc_state.get_hl());
    memory.write(pc_state.get_de(), value);
    PcState::increment_reg(&mut pc_state.de_reg, 1);
    PcState::increment_reg(&mut pc_state.hl_reg, 1);
    let mut f_status = pc_state.get_f();
    f_status.set_h(0);
    f_status.set_pv(0);
    if pc_state.bc_reg.get() == 0 {
        f_status.set_n(0);
        clock.increment(16);
    } else {
        f_status.set_n(1);
        PcState::increment_reg(&mut pc_state.pc_reg, -2);
        clock.increment(21);
    }
    pc_state.set_f(f_status);
}

/// LDDR: one iteration of the repeating backwards block copy; while BC has
/// not run out, PC is stepped back over the instruction and the longer time
/// is charged, and the flags are only settled on the final iteration.
pub fn lddr<M: MemoryRW>(clock: &mut Clock, memory: &mut M, pc_state: &mut PcState)
    requires
        old(memory).inv(),
    ensures
        final(memory).inv(),
        M::write_ok(
            *old(memory),
            old(pc_state).de_reg.value16(),
            old(memory).mem()[old(pc_state).hl_reg.word()],
            *final(memory),
        ),
        final(pc_state).hl_reg.word() == wrap16(old(pc_state).hl_reg.word() - 1),
        final(pc_state).de_reg.word() == wrap16(old(pc_state).de_reg.word() - 1),
        final(pc_state).bc_reg.word() == wrap16(old(pc_state).bc_reg.word() - 1),
        final(pc_state).af_reg.high == old(pc_state).af_reg.high,
        old(pc_state).bc_reg.word() == 1 ==> {
            &&& final(pc_state).f().h() == 0
            &&& final(pc_state).f().n() == 0
            &&& final(pc_state).f().pv() == 0
            &&& final(pc_state).f().c() == old(pc_state).f().c()
            &&& final(pc_state).f().s() == old(pc_state).f().s()
            &&& final(pc_state).f().z() == old(pc_state).f().z()
            &&& final(pc_state).f().b3() == old(pc_state).f().b3()
            &&& final(pc_state).f().b5() == old(pc_state).f().b5()
            &&& final(pc_state).pc_reg.word() == old(pc_state).pc_reg.word()
            &&& final(clock).cycles == cycles_after(old(clock).cycles, 16)
        },
        old(pc_state).bc_reg.word() != 1 ==> {
            &&& final(pc_state).af_reg.low == old(pc_state).af_reg.low
            &&& final(pc_state).pc_reg.word() == wrap16(old(pc_state).pc_reg.word() - 2)
            &&& final(clock).cycles == cycles_after(old(clock).cycles, 21)
        },
        *final(pc_state) == (PcState {
            af_reg: final(pc_state).af_reg,
            hl_reg: final(pc_state).hl_reg,
            de_reg: final(pc_state).de_reg,
            bc_reg: final(pc_state).bc_reg,
            pc_reg: final(pc_state).pc_reg,
            ..*old(pc_state)
        }),
{
    let value = memory.read(pc_state.get_hl());
    memory.write(pc_state.get_de(), value);
    PcState::increment_reg(&mut pc_state.de_reg, -1);
    PcState::increment_reg(&mut pc_state.hl_reg, -1);
    PcState::increment_reg(&mut pc_state.bc_reg, -1);
    if pc_state.bc_reg.get() == 0 {
        let mut f_status = pc_state.get_f();
        f_status.set_h(0);
        f_status.set_n(0);
        f_status.set_pv(0);
        pc_state.set_f(f_status);
        clock.increment(16);
    } else {
        PcState::increment_reg(&mut pc_state.pc_reg, -2);
        clock.increment(21);
    }
}

/// RETI: return from interrupt; with a single interrupting device this
/// behaves as a plain return.
pub fn reti<M: MemoryRW>(clock: &mut Clock, memory: &M, pc_state: &mut PcState)
    requires
        memory.inv(),
    ensures
        final(clock).cycles == cycles_after(old(clock).cycles, 14),
        final(pc_state).pc_reg.low == memory.mem()[old(pc_state).sp_reg.word()],
        final(pc_state).pc_reg.high == memory.mem()[wrap16(old(pc_state).sp_reg.word() + 1)],
        final(pc_state).sp_reg.word() == wrap16(old(pc_state).sp_reg.word() + 2),
        *final(pc_state) == (PcState {
            pc_reg: final(pc_state).pc_reg,
            sp_reg: final(pc_state).sp_reg,
            ..*old(pc_state)
        }),
{
    proof {
        lemma_wrap16_add(old(pc_state).sp_reg.word() + 1, 1);
    }
    let value_low = memory.read(pc_state.sp_reg.get());
    pc_state.set_pc_low(value_low);
    pc_state.increment_sp(1);
    let value_high = memory.read(pc_state.sp_reg.get());
    pc_state.set_pc_high(value_high);
    pc_state.increment_sp(1);
    clock.increment(14);
}


// 16-bit arithmetic.

/// ADD IX,ss / ADD IY,ss: add a 16-bit value into an index register; only
/// H, C and N change.
pub fn add16(clock: &mut Clock, src_value: u16, dst_reg: &mut Reg16, af_reg: &mut Reg16)
    ensures
        final(clock).cycles == cycles_after(old(clock).cycles, 15),
        final(dst_reg).word() == add16_result(old(dst_reg).value16(), src_value, false),
        final(af_reg).high == old(af_reg).high,
        final(af_reg).flags().h() == bool_bit(add16_half(old(dst_reg).value16(), src_value, false)),
        final(af_reg).flags().c() == bool_bit(
            add16_carry(old(dst_reg).value16(), src_value, false),
        ),
        final(af_reg).flags().n() == 0,
        final(af_reg).flags().s() == old(af_reg).flags().s(),
        final(af_reg).flags().z() == old(af_reg).flags().z(),
        final(af_reg).flags().pv() == old(af_reg).flags().pv(),
        final(af_reg).flags().b3() == old(af_reg).flags().b3(),
        final(af_reg).flags().b5() == old(af_reg).flags().b5(),
{
    let mut f_status = af_reg.get_flags();
    let sum = status_flags::u16_no_carry(dst_reg.get(), src_value, &mut f_status);
    dst_reg.set(sum);
    f_status.set_n(0);
    af_reg.set_flags(&f_status);
    clock.increment(15);
}

/// 16-bit add with carry-in through the AF pair, clearing N.
pub fn add16c(a: u16, b: u16, c: bool, af_reg: &mut Reg16) -> (r: u16)
    ensures
        r == add16_result(a, b, c),
        final(af_reg).high == old(af_reg).high,
        final(af_reg).flags().s() == bool_bit(sign16(add16_result(a, b, c))),
        final(af_reg).flags().z() == bool_bit(add16_result(a, b, c) == 0),
        final(af_reg).flags().pv() == bool_bit(add16_overflow(a, b, c)),
        final(af_reg).flags().h() == bool_bit(add16_half(a, b, c)),
        final(af_reg).flags().c() == bool_bit(add16_carry(a, b, c)),
        final(af_reg).flags().n() == 0,
        final(af_reg).flags().b3() == old(af_reg).flags().b3(),
        final(af_reg).flags().b5() == old(af_reg).flags().b5(),
{
    let mut f_status = af_reg.get_flags();
    let result = status_flags::u16_carry(a, b, c, &mut f_status);
    f_status.set_n(0);
    af_reg.set_flags(&f_status);
    result
}

/// 16-bit subtract with borrow-in through the AF pair, setting N.
pub fn sub16c(a: u16, b: u16, c: bool, af_reg: &mut Reg16) -> (r: u16)
    ensures
        r == sub16_result(a, b, c),
        final(af_reg).high == old(af_reg).high,
        final(af_reg).flags().s() == bool_bit(sign16(sub16_result(a, b, c))),
        final(af_reg).flags().z() == bool_bit(sub16_result(a, b, c) == 0),
        final(af_reg).flags().pv() == bool_bit(sub16_overflow(a, b, c)),
        final(af_reg).flags().h() == bool_bit(sub16_half(a, b, c)),
        final(af_reg).flags().c() == bool_bit(sub16_borrow(a, b, c)),
        final(af_reg).flags().n() == 1,
        final(af_reg).flags().b3() == old(af_reg).flags().b3(),
        final(af_reg).flags().b5() == old(af_reg).flags().b5(),
{
    let mut f_status = af_reg.get_flags();
    let result = status_flags::i16_carry(a, b, c, &mut f_status);
    af_reg.set_flags(&f_status);
    result
}

/// INC IX / INC IY: step an index register forward; no flags change.
pub fn inc_16(clock: &mut Clock, reg16: &mut Reg16)
    ensures
        final(clock).cycles == cycles_after(old(clock).cycles, 10),
        final(reg16).word() == wrap16(old(reg16).word() + 1),
{
    PcState::increment_reg(reg16, 1);
    clock.increment(10);
}

/// DEC IX / DEC IY: step an index register back; no flags change.
pub fn dec_16(clock: &mut Clock, reg16: &mut Reg16)
    ensures
        final(clock).cycles == cycles_after(old(clock).cycles, 10),
        final(reg16).word() == wrap16(old(reg16).word() - 1),
{
    PcState::increment_reg(reg16, -1);
    clock.increment(10);
}

/// INC (IX+d) / INC (IY+d): increment the byte at the displaced index
/// address and set the increment flags.
pub fn inc_i_d<M: MemoryRW>(
    clock: &mut Clock,
    memory: &mut M,
    pc_reg: &mut Reg16,
    af_reg: &mut Reg16,
    i16_reg: &Reg16,
)
    requires
        old(memory).inv(),
    ensures
        final(memory).inv(),
        final(clock).cycles == cycles_after(old(clock).cycles, 23),
        final(pc_reg).word() == wrap16(old(pc_reg).word() + 1),
        final(af_reg).high == old(af_reg).high,
        ({
            let address = index_address(old(memory).mem(), old(pc_reg).word(), i16_reg.word());
            let new_value = ((old(memory).mem()[address] + 1) % 256) as u8;
            &&& M::write_ok(*old(memory), (address as u16), new_value, *final(memory))
            &&& final(af_reg).flags().n() == 0
            &&& final(af_reg).flags().h() == bool_bit(new_value % 16 == 0)
            &&& final(af_reg).flags().pv() == bool_bit(new_value == 0x80)
            &&& final(af_reg).flags().s() == bool_bit(sign8(new_value))
            &&& final(af_reg).flags().z() == bool_bit(new_value == 0)
            &&& final(af_reg).flags().c() == old(af_reg).flags().c()
            &&& final(af_reg).flags().b3() == old(af_reg).flags().b3()
            &&& final(af_reg).flags().b5() == old(af_reg).flags().b5()
        }),
{
    let address = get_i_d_address(memory, pc_reg, i16_reg);
    let current = memory.read(address);
    let new_value: u8 = if current == 255 {
        0
    } else {
        current + 1
    };
    memory.write(address, new_value);
    let mut f_value = af_reg.get_flags();
    status_flags::calculate_inc_flags(&mut f_value, new_value);
    af_reg.set_flags(&f_value);
    PcState::increment_reg(pc_reg, 1);
    clock.increment(23);
}

/// DEC (IX+d) / DEC (IY+d): decrement the byte at the displaced index
/// address and set the decrement flags.
pub fn dec_i_d<M: MemoryRW>(
    clock: &mut Clock,
    memory: &mut M,
    pc_reg: &mut Reg16,
    af_reg: &mut Reg16,
    i16_reg: &Reg16,
)
    requires
        old(memory).inv(),
    ensures
        final(memory).inv(),
        final(clock).cycles == cycles_after(old(clock).cycles, 23),
        final(pc_reg).word() == wrap16(old(pc_reg).word() + 1),
        final(af_reg).high == old(af_reg).high,
        ({
            let address = index_address(old(memory).mem(), old(pc_reg).word(), i16_reg.word());
            let new_value = ((old(memory).mem()[address] - 1) % 256) as u8;
            &&& M::write_ok(*old(memory), (address as u16), new_value, *final(memory))
            &&& final(af_reg).flags().n() == 1
            &&& final(af_reg).flags().h() == bool_bit(new_value % 16 == 0xF)
            &&& final(af_reg).flags().pv() == bool_bit(new_value == 0x7F)
            &&& final(af_reg).flags().s() == bool_bit(sign8(new_value))
            &&& final(af_reg).flags().z() == bool_bit(new_value == 0)
            &&& final(af_reg).flags().c() == old(af_reg).flags().c()
            &&& final(af_reg).flags().b3() == old(af_reg).flags().b3()
            &&& final(af_reg).flags().b5() == old(af_reg).flags().b5()
        }),
{
    let address = get_i_d_address(memory, pc_reg, i16_reg);
    let current = memory.read(address);
    let new_value: u8 = if current == 0 {
        255
    } else {
        current - 1
    };
    memory.write(address, new_value);
    let mut f_value = af_reg.get_flags();
    status_flags::calculate_dec_flags(&mut f_value, new_value);
    af_reg.set_flags(&f_value);
    PcState::increment_reg(pc_reg, 1);
    clock.increment(23);
}

/// SBC HL,ss: subtract a 16-bit value and the carry flag from HL.
pub fn sbc_hl_r16(clock: &mut Clock, src_value: u16, hl_reg: &mut Reg16, af_reg: &mut Reg16)
    ensures
        final(clock).cycles == cycles_after(old(clock).cycles, 15),
        final(hl_reg).word() == sub16_result(
            old(hl_reg).value16(),
            src_value,
            old(af_reg).flags().c() == 1,
        ),
        final(af_reg).high == old(af_reg).high,
        ({
            let borrow = old(af_reg).flags().c() == 1;
            &&& final(af_reg).flags().s() == bool_bit(
                sign16(sub16_result(old(hl_reg).value16(), src_value, borrow)),
            )
            &&& final(af_reg).flags().z() == bool_bit(
                sub16_result(old(hl_reg).value16(), src_value, borrow) == 0,
            )
            &&& final(af_reg).flags().pv() == bool_bit(
                sub16_overflow(old(hl_reg).value16(), src_value, borrow),
            )
            &&& final(af_reg).flags().h() == bool_bit(
                sub16_half(old(hl_reg).value16(), src_value, borrow),
            )
            &&& final(af_reg).flags().c() == bool_bit(
                sub16_borrow(old(hl_reg).value16(), src_value, borrow),
            )
            &&& final(af_reg).flags().n() == 1
            &&& final(af_reg).flags().b3() == old(af_reg).flags().b3()
            &&& final(af_reg).flags().b5() == old(af_reg).flags().b5()
        }),
{
    let borrow = af_reg.get_flags().get_c() == 1;
    let current = hl_reg.get();
    let result = sub16c(current, src_value, borrow, af_reg);
    hl_reg.set(result);
    clock.increment(15);
}

/// ADC HL,ss: add a 16-bit value and the carry flag into HL.
pub fn adc_hl_r16(clock: &mut Clock, src_value: u16, hl_reg: &mut Reg16, af_reg: &mut Reg16)
    ensures
        final(clock).cycles == cycles_after(old(clock).cycles, 15),
        final(hl_reg).word() == add16_result(
            old(hl_reg).value16(),
            src_value,
            old(af_reg).flags().c() == 1,
        ),
        final(af_reg).high == old(af_reg).high,
        ({
            let carry = old(af_reg).flags().c() == 1;
            &&& final(af_reg).flags().s() == bool_bit(
                sign16(add16_result(old(hl_reg).value16(), src_value, carry)),
            )
            &&& final(af_reg).flags().z() == bool_bit(
                add16_result(old(hl_reg).value16(), src_value, carry) == 0,
            )
            &&& final(af_reg).flags().pv() == bool_bit(
                add16_overflow(old(hl_reg).value16(), src_value, carry),
            )
            &&& final(af_reg).flags().h() == bool_bit(
                add16_half(old(hl_reg).value16(), src_value, carry),
            )
            &&& final(af_reg).flags().c() == bool_bit(
                add16_carry(old(hl_reg).value16(), src_value, carry),
            )
            &&& final(af_reg).flags().n() == 0
            &&& final(af_reg).flags().b3() == old(af_reg).flags().b3()
            &&& final(af_reg).flags().b5() == old(af_reg).flags().b5()
        }),
{
    let carry = af_reg.get_flags().get_c() == 1;
    let current = hl_reg.get();
    let result = add16c(current, src_value, carry, af_reg);
    hl_reg.set(result);
    clock.increment(15);
}

/// SBC A,(IX+d) and SBC A,(IY+d) are left unimplemented by design: the
/// engine reports the gap as a fatal condition rather than guessing.
pub fn sbc_i(prefix: u8, pc: u16) -> (r: Result<(), CpuError>)
    ensures
        r == Result::<(), CpuError>::Err(
            CpuError::Unimplemented { prefix, opcode: 0x9E, pc },
        ),
{
    Err(CpuError::Unimplemented { prefix, opcode: 0x9E, pc })
}

/// NEG: negate the accumulator, with the flags of subtracting it from 0.
pub fn neg(clock: &mut Clock, pc_state: &mut PcState)
    ensures
        final(clock).cycles == cycles_after(old(clock).cycles, 8),
        final(pc_state).af_reg.high == sub8_result(0, old(pc_state).af_reg.high, false),
        final(pc_state).f().c() == bool_bit(sub8_borrow(0, old(pc_state).af_reg.high, false)),
        final(pc_state).f().h() == bool_bit(sub8_half(0, old(pc_state).af_reg.high, false)),
        final(pc_state).f().pv() == bool_bit(sub8_overflow(0, old(pc_state).af_reg.high, false)),
        final(pc_state).f().n() == 1,
        final(pc_state).f().s() == bool_bit(
            sign8(sub8_result(0, old(pc_state).af_reg.high, false)),
        ),
        final(pc_state).f().z() == bool_bit(sub8_result(0, old(pc_state).af_reg.high, false) == 0),
        final(pc_state).f().b3() == old(pc_state).f().b3(),
        final(pc_state).f().b5() == old(pc_state).f().b5(),
        *final(pc_state) == (PcState { af_reg: final(pc_state).af_reg, ..*old(pc_state) }),
{
    let accumulator = pc_state.get_a();
    let result = instruction_set::sub8(0, accumulator, &mut pc_state.af_reg);
    pc_state.set_a(result);
    clock.increment(8);
}

/// IM 1: select interrupt mode 1.
pub fn im_1(clock: &mut Clock, pc_state: &mut PcState)
    ensures
        final(clock).cycles == cycles_after(old(clock).cycles, 8),
        *final(pc_state) == (PcState { im: 1, ..*old(pc_state) }),
{
    pc_state.set_im(1);
    clock.increment(8);
}


/// RLC r: rotate a register left, bit 7 into carry and bit 0; the shifted-out bit lands in the carry flag.
pub fn rlc_r(clock: &mut Clock, pc_state: &mut PcState, dst: Reg8Sel, src: u8)
    ensures
        final(clock).cycles == cycles_after(old(clock).cycles, 8),
        final(pc_state).af_reg.high == old(pc_state).with8(dst, rlc_val(src)).af_reg.high,
        final(pc_state).f().c() == bool_bit(bit7_set(src)),
        final(pc_state).f().n() == 0,
        final(pc_state).f().h() == 0,
        final(pc_state).f().pv() == bool_bit(parity(rlc_val(src))),
        final(pc_state).f().s() == bool_bit(sign8(rlc_val(src))),
        final(pc_state).f().z() == bool_bit(rlc_val(src) == 0),
        final(pc_state).f().b3() == old(pc_state).f().b3(),
        final(pc_state).f().b5() == old(pc_state).f().b5(),
        *final(pc_state) == (PcState {
            af_reg: final(pc_state).af_reg,
            ..old(pc_state).with8(dst, rlc_val(src))
        }),
{
    let (new_value, carry) = instruction_set::rotate_left_carry(src);
    pc_state.set_8(dst, new_value);
    let mut f_value = pc_state.get_f();
    status_flags::set_shift_register_flags(new_value, carry, &mut f_value);
    pc_state.set_f(f_value);
    clock.increment(8);
}

/// RRC r: rotate a register right, bit 0 into carry and bit 7; the shifted-out bit lands in the carry flag.
pub fn rrc_r(clock: &mut Clock, pc_state: &mut PcState, dst: Reg8Sel, src: u8)
    ensures
        final(clock).cycles == cycles_after(old(clock).cycles, 8),
        final(pc_state).af_reg.high == old(pc_state).with8(dst, rrc_val(src)).af_reg.high,
        final(pc_state).f().c() == bool_bit(bit0_set(src)),
        final(pc_state).f().n() == 0,
        final(pc_state).f().h() == 0,
        final(pc_state).f().pv() == bool_bit(parity(rrc_val(src))),
        final(pc_state).f().s() == bool_bit(sign8(rrc_val(src))),
        final(pc_state).f().z() == bool_bit(rrc_val(src) == 0),
        final(pc_state).f().b3() == old(pc_state).f().b3(),
        final(pc_state).f().b5() == old(pc_state).f().b5(),
        *final(pc_state) == (PcState {
            af_reg: final(pc_state).af_reg,
            ..old(pc_state).with8(dst, rrc_val(src))
        }),
{
    let (new_value, carry) = instruction_set::rotate_right_carry(src);
    pc_state.set_8(dst, new_value);
    let mut f_value = pc_state.get_f();
    status_flags::set_shift_register_flags(new_value, carry, &mut f_value);
    pc_state.set_f(f_value);
    clock.increment(8);
}

/// RL r: rotate a register left through the carry flag; the shifted-out bit lands in the carry flag.
pub fn rl_r(clock: &mut Clock, pc_state: &mut PcState, dst: Reg8Sel, src: u8)
    ensures
        final(clock).cycles == cycles_after(old(clock).cycles, 8),
        final(pc_state).af_reg.high == old(pc_state).with8(dst, rl_val(src, old(pc_state).f().c() == 1)).af_reg.high,
        final(pc_state).f().c() == bool_bit(bit7_set(src)),
        final(pc_state).f().n() == 0,
        final(pc_state).f().h() == 0,
        final(pc_state).f().pv() == bool_bit(parity(rl_val(src, old(pc_state).f().c() == 1))),
        final(pc_state).f().s() == bool_bit(sign8(rl_val(src, old(pc_state).f().c() == 1))),
        final(pc_state).f().z() == bool_bit(rl_val(src, old(pc_state).f().c() == 1) == 0),
        final(pc_state).f().b3() == old(pc_state).f().b3(),
        final(pc_state).f().b5() == old(pc_state).f().b5(),
        *final(pc_state) == (PcState {
            af_reg: final(pc_state).af_reg,
            ..old(pc_state).with8(dst, rl_val(src, old(pc_state).f().c() == 1))
        }),
{
    let carry_in = pc_state.get_f().get_c() == 1;
    let (new_value, carry) = instruction_set::rotate_left(src, carry_in);
    pc_state.set_8(dst, new_value);
    let mut f_value = pc_state.get_f();
    status_flags::set_shift_register_flags(new_value, carry, &mut f_value);
    pc_state.set_f(f_value);
    clock.increment(8);
}

/// RR r: rotate a register right through the carry flag; the shifted-out bit lands in the carry flag.
pub fn rr_r(clock: &mut Clock, pc_state: &mut PcState, dst: Reg8Sel, src: u8)
    ensures
        final(clock).cycles == cycles_after(old(clock).cycles, 8),
        final(pc_state).af_reg.high == old(pc_state).with8(dst, rr_val(src, old(pc_state).f().c() == 1)).af_reg.high,
        final(pc_state).f().c() == bool_bit(bit0_set(src)),
        final(pc_state).f().n() == 0,
        final(pc_state).f().h() == 0,
        final(pc_state).f().pv() == bool_bit(parity(rr_val(src, old(pc_state).f().c() == 1))),
        final(pc_state).f().s() == bool_bit(sign8(rr_val(src, old(pc_state).f().c() == 1))),
        final(pc_state).f().z() == bool_bit(rr_val(src, old(pc_state).f().c() == 1) == 0),
        final(pc_state).f().b3() == old(pc_state).f().b3(),
        final(pc_state).f().b5() == old(pc_state).f().b5(),
        *final(pc_state) == (PcState {
            af_reg: final(pc_state).af_reg,
            ..old(pc_state).with8(dst, rr_val(src, old(pc_state).f().c() == 1))
        }),
{
    let carry_in = pc_state.get_f().get_c() == 1;
    let (new_value, carry) = instruction_set::rotate_right(src, carry_in);
    pc_state.set_8(dst, new_value);
    let mut f_value = pc_state.get_f();
    status_flags::set_shift_register_flags(new_value, carry, &mut f_value);
    pc_state.set_f(f_value);
    clock.increment(8);
}

/// SLA r: shift a register left; the shifted-out bit lands in the carry flag.
pub fn sla_r(clock: &mut Clock, pc_state: &mut PcState, dst: Reg8Sel, src: u8)
    ensures
        final(clock).cycles == cycles_after(old(clock).cycles, 8),
        final(pc_state).af_reg.high == old(pc_state).with8(dst, sla_val(src)).af_reg.high,
        final(pc_state).f().c() == bool_bit(bit7_set(src)),
        final(pc_state).f().n() == 0,
        final(pc_state).f().h() == 0,
        final(pc_state).f().pv() == bool_bit(parity(sla_val(src))),
        final(pc_state).f().s() == bool_bit(sign8(sla_val(src))),
        final(pc_state).f().z() == bool_bit(sla_val(src) == 0),
        final(pc_state).f().b3() == old(pc_state).f().b3(),
        final(pc_state).f().b5() == old(pc_state).f().b5(),
        *final(pc_state) == (PcState {
            af_reg: final(pc_state).af_reg,
            ..old(pc_state).with8(dst, sla_val(src))
        }),
{
    let (new_value, carry) = instruction_set::shift_left_arithmetic(src);
    pc_state.set_8(dst, new_value);
    let mut f_value = pc_state.get_f();
    status_flags::set_shift_register_flags(new_value, carry, &mut f_value);
    pc_state.set_f(f_value);
    clock.increment(8);
}

/// SLL r: the undocumented left shift that sets bit 0; the shifted-out bit lands in the carry flag.
pub fn sll_r(clock: &mut Clock, pc_state: &mut PcState, dst: Reg8Sel, src: u8)
    ensures
        final(clock).cycles == cycles_after(old(clock).cycles, 8),
        final(pc_state).af_reg.high == old(pc_state).with8(dst, sll_val(src)).af_reg.high,
        final(pc_state).f().c() == bool_bit(bit7_set(src)),
        final(pc_state).f().n() == 0,
        final(pc_state).f().h() == 0,
        final(pc_state).f().pv() == bool_bit(parity(sll_val(src))),
        final(pc_state).f().s() == bool_bit(sign8(sll_val(src))),
        final(pc_state).f().z() == bool_bit(sll_val(src) == 0),
        final(pc_state).f().b3() == old(pc_state).f().b3(),
        final(pc_state).f().b5() == old(pc_state).f().b5(),
        *final(pc_state) == (PcState {
            af_reg: final(pc_state).af_reg,
            ..old(pc_state).with8(dst, sll_val(src))
        }),
{
    let (new_value, carry) = instruction_set::shift_left_logical(src);
    pc_state.set_8(dst, new_value);
    let mut f_value = pc_state.get_f();
    status_flags::set_shift_register_flags(new_value, carry, &mut f_value);
    pc_state.set_f(f_value);
    clock.increment(8);
}

/// SRA r: shift a register right, keeping the sign bit; the shifted-out bit lands in the carry flag.
pub fn sra_r(clock: &mut Clock, pc_state: &mut PcState, dst: Reg8Sel, src: u8)
    ensures
        final(clock).cycles == cycles_after(old(clock).cycles, 8),
        final(pc_state).af_reg.high == old(pc_state).with8(dst, sra_val(src)).af_reg.high,
        final(pc_state).f().c() == bool_bit(bit0_set(src)),
        final(pc_state).f().n() == 0,
        final(pc_state).f().h() == 0,
        final(pc_state).f().pv() == bool_bit(parity(sra_val(src))),
        final(pc_state).f().s() == bool_bit(sign8(sra_val(src))),
        final(pc_state).f().z() == bool_bit(sra_val(src) == 0),
        final(pc_state).f().b3() == old(pc_state).f().b3(),
        final(pc_state).f().b5() == old(pc_state).f().b5(),
        *final(pc_state) == (PcState {
            af_reg: final(pc_state).af_reg,
            ..old(pc_state).with8(dst, sra_val(src))
        }),
{
    let (new_value, carry) = instruction_set::shift_right_arithmetic(src);
    pc_state.set_8(dst, new_value);
    let mut f_value = pc_state.get_f();
    status_flags::set_shift_register_flags(new_value, carry, &mut f_value);
    pc_state.set_f(f_value);
    clock.increment(8);
}

/// SRL r: shift a register right; the shifted-out bit lands in the carry flag.
pub fn srl_r(clock: &mut Clock, pc_state: &mut PcState, dst: Reg8Sel, src: u8)
    ensures
        final(clock).cycles == cycles_after(old(clock).cycles, 8),
        final(pc_state).af_reg.high == old(pc_state).with8(dst, srl_val(src)).af_reg.high,
        final(pc_state).f().c() == bool_bit(bit0_set(src)),
        final(pc_state).f().n() == 0,
        final(pc_state).f().h() == 0,
        final(pc_state).f().pv() == bool_bit(parity(srl_val(src))),
        final(pc_state).f().s() == bool_bit(sign8(srl_val(src))),
        final(pc_state).f().z() == bool_bit(srl_val(src) == 0),
        final(pc_state).f().b3() == old(pc_state).f().b3(),
        final(pc_state).f().b5() == old(pc_state).f().b5(),
        *final(pc_state) == (PcState {
            af_reg: final(pc_state).af_reg,
            ..old(pc_state).with8(dst, srl_val(src))
        }),
{
    let (new_value, carry) = instruction_set::shift_right_logical(src);
    pc_state.set_8(dst, new_value);
    let mut f_value = pc_state.get_f();
    status_flags::set_shift_register_flags(new_value, carry, &mut f_value);
    pc_state.set_f(f_value);
    clock.increment(8);
}

/// RLC (HL): rotate the byte at HL left, bit 7 into carry and bit 0; the shifted-out bit lands in the carry flag.
pub fn rlc_hl<M: MemoryRW>(
    clock: &mut Clock,
    memory: &mut M,
    af_reg: &mut Reg16,
    addr_reg: &Reg16,
)
    requires
        old(memory).inv(),
    ensures
        final(memory).inv(),
        final(clock).cycles == cycles_after(old(clock).cycles, 15),
        M::write_ok(*old(memory), addr_reg.value16(), rlc_val(old(memory).mem()[addr_reg.word()]), *final(memory)),
        final(af_reg).high == old(af_reg).high,
        final(af_reg).flags().c() == bool_bit(bit7_set(old(memory).mem()[addr_reg.word()])),
        final(af_reg).flags().n() == 0,
        final(af_reg).flags().h() == 0,
        final(af_reg).flags().pv() == bool_bit(parity(rlc_val(old(memory).mem()[addr_reg.word()]))),
        final(af_reg).flags().s() == bool_bit(sign8(rlc_val(old(memory).mem()[addr_reg.word()]))),
        final(af_reg).flags().z() == bool_bit(rlc_val(old(memory).mem()[addr_reg.word()]) == 0),
        final(af_reg).flags().b3() == old(af_reg).flags().b3(),
        final(af_reg).flags().b5() == old(af_reg).flags().b5(),
{
    let src = memory.read(addr_reg.get());
    let mut f_value = af_reg.get_flags();
    let (new_value, carry) = instruction_set::rotate_left_carry(src);
    status_flags::set_shift_register_flags(new_value, carry, &mut f_value);
    af_reg.set_flags(&f_value);
    memory.write(addr_reg.get(), new_value);
    clock.increment(15);
}

/// RRC (HL): rotate the byte at HL right, bit 0 into carry and bit 7; the shifted-out bit lands in the carry flag.
pub fn rrc_hl<M: MemoryRW>(
    clock: &mut Clock,
    memory: &mut M,
    af_reg: &mut Reg16,
    addr_reg: &Reg16,
)
    requires
        old(memory).inv(),
    ensures
        final(memory).inv(),
        final(clock).cycles == cycles_after(old(clock).cycles, 15),
        M::write_ok(*old(memory), addr_reg.value16(), rrc_val(old(memory).mem()[addr_reg.word()]), *final(memory)),
        final(af_reg).high == old(af_reg).high,
        final(af_reg).flags().c() == bool_bit(bit0_set(old(memory).mem()[addr_reg.word()])),
        final(af_reg).flags().n() == 0,
        final(af_reg).flags().h() == 0,
        final(af_reg).flags().pv() == bool_bit(parity(rrc_val(old(memory).mem()[addr_reg.word()]))),
        final(af_reg).flags().s() == bool_bit(sign8(rrc_val(old(memory).mem()[addr_reg.word()]))),
        final(af_reg).flags().z() == bool_bit(rrc_val(old(memory).mem()[addr_reg.word()]) == 0),
        final(af_reg).flags().b3() == old(af_reg).flags().b3(),
        final(af_reg).flags().b5() == old(af_reg).flags().b5(),
{
    let src = memory.read(addr_reg.get());
    let mut f_value = af_reg.get_flags();
    let (new_value, carry) = instruction_set::rotate_right_carry(src);
    status_flags::set_shift_register_flags(new_value, carry, &mut f_value);
    af_reg.set_flags(&f_value);
    memory.write(addr_reg.get(), new_value);
    clock.increment(15);
}

/// SLA (HL): shift the byte at HL left; the shifted-out bit lands in the carry flag.
pub fn sla_hl<M: MemoryRW>(
    clock: &mut Clock,
    memory: &mut M,
    af_reg: &mut Reg16,
    addr_reg: &Reg16,
)
    requires
        old(memory).inv(),
    ensures
        final(memory).inv(),
        final(clock).cycles == cycles_after(old(clock).cycles, 15),
        M::write_ok(*old(memory), addr_reg.value16(), sla_val(old(memory).mem()[addr_reg.word()]), *final(memory)),
        final(af_reg).high == old(af_reg).high,
        final(af_reg).flags().c() == bool_bit(bit7_set(old(memory).mem()[addr_reg.word()])),
        final(af_reg).flags().n() == 0,
        final(af_reg).flags().h() == 0,
        final(af_reg).flags().pv() == bool_bit(parity(sla_val(old(memory).mem()[addr_reg.word()]))),
        final(af_reg).flags().s() == bool_bit(sign8(sla_val(old(memory).mem()[addr_reg.word()]))),
        final(af_reg).flags().z() == bool_bit(sla_val(old(memory).mem()[addr_reg.word()]) == 0),
        final(af_reg).flags().b3() == old(af_reg).flags().b3(),
        final(af_reg).flags().b5() == old(af_reg).flags().b5(),
{
    let src = memory.read(addr_reg.get());
    let mut f_value = af_reg.get_flags();
    let (new_value, carry) = instruction_set::shift_left_arithmetic(src);
    status_flags::set_shift_register_flags(new_value, carry, &mut f_value);
    af_reg.set_flags(&f_value);
    memory.write(addr_reg.get(), new_value);
    clock.increment(15);
}

/// SRA (HL): shift the byte at HL right, keeping the sign bit; the shifted-out bit lands in the carry flag.
pub fn sra_hl<M: MemoryRW>(
    clock: &mut Clock,
    memory: &mut M,
    af_reg: &mut Reg16,
    addr_reg: &Reg16,
)
    requires
        old(memory).inv(),
    ensures
        final(memory).inv(),
        final(clock).cycles == cycles_after(old(clock).cycles, 15),
        M::write_ok(*old(memory), addr_reg.value16(), sra_val(old(memory).mem()[addr_reg.word()]), *final(memory)),
        final(af_reg).high == old(af_reg).high,
        final(af_reg).flags().c() == bool_bit(bit0_set(old(memory).mem()[addr_reg.word()])),
        final(af_reg).flags().n() == 0,
        final(af_reg).flags().h() == 0,
        final(af_reg).flags().pv() == bool_bit(parity(sra_val(old(memory).mem()[addr_reg.word()]))),
        final(af_reg).flags().s() == bool_bit(sign8(sra_val(old(memory).mem()[addr_reg.word()]))),
        final(af_reg).flags().z() == bool_bit(sra_val(old(memory).mem()[addr_reg.word()]) == 0),
        final(af_reg).flags().b3() == old(af_reg).flags().b3(),
        final(af_reg).flags().b5() == old(af_reg).flags().b5(),
{
    let src = memory.read(addr_reg.get());
    let mut f_value = af_reg.get_flags();
    let (new_value, carry) = instruction_set::shift_right_arithmetic(src);
    status_flags::set_shift_register_flags(new_value, carry, &mut f_value);
    af_reg.set_flags(&f_value);
    memory.write(addr_reg.get(), new_value);
    clock.increment(15);
}

/// SRL (HL): shift the byte at HL right; the shifted-out bit lands in the carry flag.
pub fn srl_hl<M: MemoryRW>(
    clock: &mut Clock,
    memory: &mut M,
    af_reg: &mut Reg16,
    addr_reg: &Reg16,
)
    requires
        old(memory).inv(),
    ensures
        final(memory).inv(),
        final(clock).cycles == cycles_after(old(clock).cycles, 15),
        M::write_ok(*old(memory), addr_reg.value16(), srl_val(old(memory).mem()[addr_reg.word()]), *final(memory)),
        final(af_reg).high == old(af_reg).high,
        final(af_reg).flags().c() == bool_bit(bit0_set(old(memory).mem()[addr_reg.word()])),
        final(af_reg).flags().n() == 0,
        final(af_reg).flags().h() == 0,
        final(af_reg).flags().pv() == bool_bit(parity(srl_val(old(memory).mem()[addr_reg.word()]))),
        final(af_reg).flags().s() == bool_bit(sign8(srl_val(old(memory).mem()[addr_reg.word()]))),
        final(af_reg).flags().z() == bool_bit(srl_val(old(memory).mem()[addr_reg.word()]) == 0),
        final(af_reg).flags().b3() == old(af_reg).flags().b3(),
        final(af_reg).flags().b5() == old(af_reg).flags().b5(),
{
    let src = memory.read(addr_reg.get());
    let mut f_value = af_reg.get_flags();
    let (new_value, carry) = instruction_set::shift_right_logical(src);
    status_flags::set_shift_register_flags(new_value, carry, &mut f_value);
    af_reg.set_flags(&f_value);
    memory.write(addr_reg.get(), new_value);
    clock.increment(15);
}

/// RRD: rotate the three low nibbles of A and (HL) right: the low nibble
/// of (HL) moves into A, A's low nibble into the high nibble of (HL).
pub fn rrd<M: MemoryRW>(clock: &mut Clock, memory: &mut M, pc_state: &mut PcState)
    requires
        old(memory).inv(),
    ensures
        final(memory).inv(),
        final(clock).cycles == cycles_after(old(clock).cycles, 18),
        ({
            let a = old(pc_state).af_reg.high;
            let m = old(memory).mem()[old(pc_state).hl_reg.word()];
            let new_a = (a & 0xF0) | (m & 0xF);
            &&& final(pc_state).af_reg.high == new_a
            &&& M::write_ok(
                *old(memory),
                old(pc_state).hl_reg.value16(),
                ((m >> 4) & 0xF) | ((a & 0xF) << 4),
                *final(memory),
            )
            &&& final(pc_state).f().n() == 0
            &&& final(pc_state).f().h() == 0
            &&& final(pc_state).f().pv() == bool_bit(parity(new_a))
            &&& final(pc_state).f().s() == bool_bit(sign8(new_a))
            &&& final(pc_state).f().z() == bool_bit(new_a == 0)
            &&& final(pc_state).f().c() == old(pc_state).f().c()
            &&& final(pc_state).f().b3() == old(pc_state).f().b3()
            &&& final(pc_state).f().b5() == old(pc_state).f().b5()
        }),
        *final(pc_state) == (PcState { af_reg: final(pc_state).af_reg, ..*old(pc_state) }),
{
    let original_a = pc_state.get_a();
    let original_hl_mem = memory.read(pc_state.get_hl());
    let new_value = original_a & 0xF0 | original_hl_mem & 0xF;
    pc_state.set_a(new_value);
    memory.write(pc_state.get_hl(), (original_hl_mem >> 4) & 0xF | (original_a & 0xF) << 4);
    let mut f_value = pc_state.get_f();
    status_flags::rotate_decimal_flags(&mut f_value, new_value);
    pc_state.set_f(f_value);
    clock.increment(18);
}

/// RLD: rotate the three low nibbles of A and (HL) left: the high nibble
/// of (HL) moves into A, A's low nibble into the low nibble of (HL).
pub fn rld<M: MemoryRW>(clock: &mut Clock, memory: &mut M, pc_state: &mut PcState)
    requires
        old(memory).inv(),
    ensures
        final(memory).inv(),
        final(clock).cycles == cycles_after(old(clock).cycles, 18),
        ({
            let a = old(pc_state).af_reg.high;
            let m = old(memory).mem()[old(pc_state).hl_reg.word()];
            let new_a = (a & 0xF0) | ((m >> 4) & 0xF);
            &&& final(pc_state).af_reg.high == new_a
            &&& M::write_ok(
                *old(memory),
                old(pc_state).hl_reg.value16(),
                ((m & 0xF) << 4) | (a & 0xF),
                *final(memory),
            )
            &&& final(pc_state).f().n() == 0
            &&& final(pc_state).f().h() == 0
            &&& final(pc_state).f().pv() == bool_bit(parity(new_a))
            &&& final(pc_state).f().s() == bool_bit(sign8(new_a))
            &&& final(pc_state).f().z() == bool_bit(new_a == 0)
            &&& final(pc_state).f().c() == old(pc_state).f().c()
            &&& final(pc_state).f().b3() == old(pc_state).f().b3()
            &&& final(pc_state).f().b5() == old(pc_state).f().b5()
        }),
        *final(pc_state) == (PcState { af_reg: final(pc_state).af_reg, ..*old(pc_state) }),
{
    let original_a = pc_state.get_a();
    let original_hl_mem = memory.read(pc_state.get_hl());
    let new_value = original_a & 0xF0 | (original_hl_mem >> 4) & 0xF;
    pc_state.set_a(new_value);
    memory.write(pc_state.get_hl(), ((original_hl_mem & 0xF) << 4) | (original_a & 0xF));
    let mut f_value = pc_state.get_f();
    status_flags::rotate_decimal_flags(&mut f_value, new_value);
    pc_state.set_f(f_value);
    clock.increment(18);
}


// Port input and output through the bus.

/// IN r,(C): read the port named by register C into a register.
pub fn in_r<D: Device>(
    clock: &mut Clock,
    src_val: u8,
    pc_state: &mut PcState,
    dst: Reg8Sel,
    ports: &mut Ports<D>,
)
    requires
        old(ports).inv(),
    ensures
        final(ports).inv(),
        final(clock).cycles == cycles_after(old(clock).cycles, 12),
        *final(pc_state) == old(pc_state).with8(dst, final(pc_state).sel8(dst)),
        port_read_rel(
            old(ports).devices@,
            final(ports).devices@,
            old(clock).cycles,
            src_val,
            final(pc_state).sel8(dst),
        ),
{
    let value = ports.port_read(clock, src_val);
    pc_state.set_8(dst, value);
    clock.increment(12);
}

/// OUT (C),r: write a register to the port named by register C.
pub fn out_r<D: Device>(clock: &mut Clock, src_val: u8, out: u8, ports: &mut Ports<D>)
    requires
        old(ports).inv(),
    ensures
        final(ports).inv(),
        final(clock).cycles == cycles_after(old(clock).cycles, 12),
        final(ports).devices@.len() == old(ports).devices@.len(),
        forall|j: int|
            0 <= j < old(ports).devices@.len() ==> (#[trigger] final(ports).devices@[j]) == old(
                ports,
            ).devices@[j].after_write(old(clock).cycles, src_val, out),
{
    ports.port_write(clock, src_val, out);
    clock.increment(12);
}

/// OUTI: write the byte at HL to port C, advance HL and count B down; Z
/// reports whether B reached zero.
pub fn outi<M: MemoryRW, D: Device>(
    clock: &mut Clock,
    memory: &M,
    pc_state: &mut PcState,
    ports: &mut Ports<D>,
)
    requires
        memory.inv(),
        old(ports).inv(),
    ensures
        final(ports).inv(),
        final(clock).cycles == cycles_after(old(clock).cycles, 16),
        final(ports).devices@.len() == old(ports).devices@.len(),
        forall|j: int|
            0 <= j < old(ports).devices@.len() ==> (#[trigger] final(ports).devices@[j]) == old(
                ports,
            ).devices@[j].after_write(
                old(clock).cycles,
                old(pc_state).bc_reg.low,
                memory.mem()[old(pc_state).hl_reg.word()],
            ),
        final(pc_state).bc_reg.high == ((old(pc_state).bc_reg.high - 1) % 256) as u8,
        final(pc_state).bc_reg.low == old(pc_state).bc_reg.low,
        final(pc_state).hl_reg.word() == wrap16(old(pc_state).hl_reg.word() + 1),
        final(pc_state).af_reg.high == old(pc_state).af_reg.high,
        final(pc_state).f().z() == bool_bit(((old(pc_state).bc_reg.high - 1) % 256) == 0),
        final(pc_state).f().n() == 1,
        final(pc_state).f().c() == old(pc_state).f().c(),
        final(pc_state).f().h() == old(pc_state).f().h(),
        final(pc_state).f().pv() == old(pc_state).f().pv(),
        final(pc_state).f().s() == old(pc_state).f().s(),
        final(pc_state).f().b3() == old(pc_state).f().b3(),
        final(pc_state).f().b5() == old(pc_state).f().b5(),
        *final(pc_state) == (PcState {
            af_reg: final(pc_state).af_reg,
            bc_reg: final(pc_state).bc_reg,
            hl_reg: final(pc_state).hl_reg,
            ..*old(pc_state)
        }),
{
    let b = pc_state.get_b();
    let new_b: u8 = if b == 0 {
        255
    } else {
        b - 1
    };
    pc_state.set_b(new_b);
    let value = memory.read(pc_state.get_hl());
    let port = pc_state.get_c();
    ports.port_write(clock, port, value);
    PcState::increment_reg(&mut pc_state.hl_reg, 1);
    let mut f_status = pc_state.get_f();
    if new_b == 0 {
        f_status.set_z(1);
    } else {
        f_status.set_z(0);
    }
    f_status.set_n(1);
    pc_state.set_f(f_status);
    clock.increment(16);
}

/// OUTD: write the byte at HL to port C, step HL back and count B down; Z
/// reports whether B reached zero.
pub fn outd<M: MemoryRW, D: Device>(
    clock: &mut Clock,
    memory: &M,
    pc_state: &mut PcState,
    ports: &mut Ports<D>,
)
    requires
        memory.inv(),
        old(ports).inv(),
    ensures
        final(ports).inv(),
        final(clock).cycles == cycles_after(old(clock).cycles, 16),
        final(ports).devices@.len() == old(ports).devices@.len(),
        forall|j: int|
            0 <= j < old(ports).devices@.len() ==> (#[trigger] final(ports).devices@[j]) == old(
                ports,
            ).devices@[j].after_write(
                old(clock).cycles,
                old(pc_state).bc_reg.low,
                memory.mem()[old(pc_state).hl_reg.word()],
            ),
        final(pc_state).bc_reg.high == ((old(pc_state).bc_reg.high - 1) % 256) as u8,
        final(pc_state).bc_reg.low == old(pc_state).bc_reg.low,
        final(pc_state).hl_reg.word() == wrap16(old(pc_state).hl_reg.word() - 1),
        final(pc_state).af_reg.high == old(pc_state).af_reg.high,
        final(pc_state).f().z() == bool_bit(((old(pc_state).bc_reg.high - 1) % 256) == 0),
        final(pc_state).f().n() == 1,
        final(pc_state).f().c() == old(pc_state).f().c(),
        final(pc_state).f().h() == old(pc_state).f().h(),
        final(pc_state).f().pv() == old(pc_state).f().pv(),
        final(pc_state).f().s() == old(pc_state).f().s(),
        final(pc_state).f().b3() == old(pc_state).f().b3(),
        final(pc_state).f().b5() == old(pc_state).f().b5(),
        *final(pc_state) == (PcState {
            af_reg: final(pc_state).af_reg,
            bc_reg: final(pc_state).bc_reg,
            hl_reg: final(pc_state).hl_reg,
            ..*old(pc_state)
        }),
{
    let b = pc_state.get_b();
    let new_b: u8 = if b == 0 {
        255
    } else {
        b - 1
    };
    pc_state.set_b(new_b);
    let value = memory.read(pc_state.get_hl());
    let port = pc_state.get_c();
    ports.port_write(clock, port, value);
    let mut f_status = pc_state.get_f();
    if new_b == 0 {
        f_status.set_z(1);
    } else {
        f_status.set_z(0);
    }
    f_status.set_n(1);
    pc_state.set_f(f_status);
    PcState::increment_reg(&mut pc_state.hl_reg, -1);
    clock.increment(16);
}

/// INI: read port C into the byte at HL, advance HL and count B down; Z
/// reports whether B reached zero.
pub fn ini<M: MemoryRW, D: Device>(
    clock: &mut Clock,
    memory: &mut M,
    pc_state: &mut PcState,
    ports: &mut Ports<D>,
)
    requires
        old(memory).inv(),
        old(ports).inv(),
    ensures
        final(ports).inv(),
        final(memory).inv(),
        final(clock).cycles == cycles_after(old(clock).cycles, 16),
        exists|v: u8|
            (#[trigger] port_read_rel(
                old(ports).devices@,
                final(ports).devices@,
                old(clock).cycles,
                old(pc_state).bc_reg.low,
                v,
            )) && M::write_ok(
                *old(memory),
                old(pc_state).hl_reg.value16(),
                v,
                *final(memory),
            ),
        final(pc_state).bc_reg.high == ((old(pc_state).bc_reg.high - 1) % 256) as u8,
        final(pc_state).bc_reg.low == old(pc_state).bc_reg.low,
        final(pc_state).hl_reg.word() == wrap16(old(pc_state).hl_reg.word() + 1),
        final(pc_state).af_reg.high == old(pc_state).af_reg.high,
        final(pc_state).f().z() == bool_bit(((old(pc_state).bc_reg.high - 1) % 256) == 0),
        final(pc_state).f().n() == 1,
        final(pc_state).f().c() == old(pc_state).f().c(),
        final(pc_state).f().h() == old(pc_state).f().h(),
        final(pc_state).f().pv() == old(pc_state).f().pv(),
        final(pc_state).f().s() == old(pc_state).f().s(),
        final(pc_state).f().b3() == old(pc_state).f().b3(),
        final(pc_state).f().b5() == old(pc_state).f().b5(),
        *final(pc_state) == (PcState {
            af_reg: final(pc_state).af_reg,
            bc_reg: final(pc_state).bc_reg,
            hl_reg: final(pc_state).hl_reg,
            ..*old(pc_state)
        }),
{
    let b = pc_state.get_b();
    let new_b: u8 = if b == 0 {
        255
    } else {
        b - 1
    };
    pc_state.set_b(new_b);
    let port = pc_state.get_c();
    let value = ports.port_read(clock, port);
    memory.write(pc_state.get_hl(), value);
    PcState::increment_reg(&mut pc_state.hl_reg, 1);
    let mut f_status = pc_state.get_f();
    if new_b == 0 {
        f_status.set_z(1);
    } else {
        f_status.set_z(0);
    }
    f_status.set_n(1);
    pc_state.set_f(f_status);
    clock.increment(16);
}

/// OTIR: one iteration of the repeating output; while B has not run out,
/// PC is stepped back over the instruction and the longer time is charged.
pub fn otir<M: MemoryRW, D: Device>(
    clock: &mut Clock,
    memory: &M,
    pc_state: &mut PcState,
    ports: &mut Ports<D>,
)
    requires
        memory.inv(),
        old(ports).inv(),
    ensures
        final(ports).inv(),
        final(ports).devices@.len() == old(ports).devices@.len(),
        forall|j: int|
            0 <= j < old(ports).devices@.len() ==> (#[trigger] final(ports).devices@[j]) == old(
                ports,
            ).devices@[j].after_write(
                old(clock).cycles,
                old(pc_state).bc_reg.low,
                memory.mem()[old(pc_state).hl_reg.word()],
            ),
        final(pc_state).bc_reg.high == ((old(pc_state).bc_reg.high - 1) % 256) as u8,
        final(pc_state).bc_reg.low == old(pc_state).bc_reg.low,
        final(pc_state).hl_reg.word() == wrap16(old(pc_state).hl_reg.word() + 1),
        final(pc_state).af_reg.high == old(pc_state).af_reg.high,
        final(pc_state).f().s() == 0,
        final(pc_state).f().h() == 0,
        final(pc_state).f().pv() == 0,
        final(pc_state).f().n() == 1,
        final(pc_state).f().z() == bool_bit(((old(pc_state).bc_reg.high - 1) % 256) == 0),
        final(pc_state).f().c() == old(pc_state).f().c(),
        final(pc_state).f().b3() == old(pc_state).f().b3(),
        final(pc_state).f().b5() == old(pc_state).f().b5(),
        final(clock).cycles == cycles_after(
            old(clock).cycles,
            if ((old(pc_state).bc_reg.high - 1) % 256) == 0 {
                16
            } else {
                21
            },
        ),
        final(pc_state).pc_reg.word() == (if ((old(pc_state).bc_reg.high - 1) % 256) == 0 {
            old(pc_state).pc_reg.word()
        } else {
            wrap16(old(pc_state).pc_reg.word() - 2)
        }),
        *final(pc_state) == (PcState {
            af_reg: final(pc_state).af_reg,
            bc_reg: final(pc_state).bc_reg,
            hl_reg: final(pc_state).hl_reg,
            pc_reg: final(pc_state).pc_reg,
            ..*old(pc_state)
        }),
{
    let b = pc_state.get_b();
    let new_b: u8 = if b == 0 {
        255
    } else {
        b - 1
    };
    pc_state.set_b(new_b);
    let value = memory.read(pc_state.get_hl());
    let port = pc_state.get_c();
    ports.port_write(clock, port, value);
    PcState::increment_reg(&mut pc_state.hl_reg, 1);
    let mut f_status = pc_state.get_f();
    f_status.set_s(0);
    f_status.set_h(0);
    f_status.set_pv(0);
    f_status.set_n(1);
    if new_b == 0 {
        f_status.set_z(1);
        clock.increment(16);
    } else {
        f_status.set_z(0);
        pc_state.increment_pc(-2);
        clock.increment(21);
    }
    pc_state.set_f(f_status);
}


/// ADD A,(IX+d) / ADD A,(IY+d): add the byte at the displaced index address into the accumulator.
pub fn add_i_d<M: MemoryRW>(
    clock: &mut Clock,
    memory: &M,
    pc_reg: &mut Reg16,
    i16_reg: &Reg16,
    af_reg: &mut Reg16,
)
    requires
        memory.inv(),
    ensures
        final(clock).cycles == cycles_after(old(clock).cycles, 19),
        final(pc_reg).word() == wrap16(old(pc_reg).word() + 1),
        final(af_reg).high == add8_result(old(af_reg).high, memory.mem()[index_address(memory.mem(), old(pc_reg).word(), i16_reg.word())], false),
        final(af_reg).flags().c() == bool_bit(add8_carry(old(af_reg).high, memory.mem()[index_address(memory.mem(), old(pc_reg).word(), i16_reg.word())], false)),
        final(af_reg).flags().h() == bool_bit(add8_half(old(af_reg).high, memory.mem()[index_address(memory.mem(), old(pc_reg).word(), i16_reg.word())], false)),
        final(af_reg).flags().pv() == bool_bit(add8_overflow(old(af_reg).high, memory.mem()[index_address(memory.mem(), old(pc_reg).word(), i16_reg.word())], false)),
        final(af_reg).flags().n() == 0,
        final(af_reg).flags().s() == bool_bit(sign8(add8_result(old(af_reg).high, memory.mem()[index_address(memory.mem(), old(pc_reg).word(), i16_reg.word())], false))),
        final(af_reg).flags().z() == bool_bit(add8_result(old(af_reg).high, memory.mem()[index_address(memory.mem(), old(pc_reg).word(), i16_reg.word())], false) == 0),
        final(af_reg).flags().b3() == old(af_reg).flags().b3(),
        final(af_reg).flags().b5() == old(af_reg).flags().b5(),
{
    let address = get_i_d_address(memory, pc_reg, i16_reg);
    let operand = memory.read(address);
    let accumulator = af_reg.get_high();
    let result = instruction_set::add8(accumulator, operand, af_reg);
    af_reg.set_high(result);
    PcState::increment_reg(pc_reg, 1);
    clock.increment(19);
}

/// ADC A,(IX+d) / ADC A,(IY+d): add the byte at the displaced index address and the carry flag into the accumulator.
pub fn adc_i_d<M: MemoryRW>(
    clock: &mut Clock,
    memory: &M,
    pc_reg: &mut Reg16,
    i16_reg: &Reg16,
    af_reg: &mut Reg16,
)
    requires
        memory.inv(),
    ensures
        final(clock).cycles == cycles_after(old(clock).cycles, 19),
        final(pc_reg).word() == wrap16(old(pc_reg).word() + 1),
        final(af_reg).high == add8_result(old(af_reg).high, memory.mem()[index_address(memory.mem(), old(pc_reg).word(), i16_reg.word())], old(af_reg).flags().c() == 1),
        final(af_reg).flags().c() == bool_bit(add8_carry(old(af_reg).high, memory.mem()[index_address(memory.mem(), old(pc_reg).word(), i16_reg.word())], old(af_reg).flags().c() == 1)),
        final(af_reg).flags().h() == bool_bit(add8_half(old(af_reg).high, memory.mem()[index_address(memory.mem(), old(pc_reg).word(), i16_reg.word())], old(af_reg).flags().c() == 1)),
        final(af_reg).flags().pv() == bool_bit(add8_overflow(old(af_reg).high, memory.mem()[index_address(memory.mem(), old(pc_reg).word(), i16_reg.word())], old(af_reg).flags().c() == 1)),
        final(af_reg).flags().n() == 0,
        final(af_reg).flags().s() == bool_bit(sign8(add8_result(old(af_reg).high, memory.mem()[index_address(memory.mem(), old(pc_reg).word(), i16_reg.word())], old(af_reg).flags().c() == 1))),
        final(af_reg).flags().z() == bool_bit(add8_result(old(af_reg).high, memory.mem()[index_address(memory.mem(), old(pc_reg).word(), i16_reg.word())], old(af_reg).flags().c() == 1) == 0),
        final(af_reg).flags().b3() == old(af_reg).flags().b3(),
        final(af_reg).flags().b5() == old(af_reg).flags().b5(),
{
    let address = get_i_d_address(memory, pc_reg, i16_reg);
    let operand = memory.read(address);
    let accumulator = af_reg.get_high();
    let carry = af_reg.get_flags().get_c();
    let result = instruction_set::add8c(accumulator, operand, carry == 1, af_reg);
    af_reg.set_high(result);
    PcState::increment_reg(pc_reg, 1);
    clock.increment(19);
}

/// SUB (IX+d) / SUB (IY+d): subtract the byte at the displaced index address from the accumulator.
pub fn sub_i_d<M: MemoryRW>(
    clock: &mut Clock,
    memory: &M,
    pc_reg: &mut Reg16,
    i16_reg: &Reg16,
    af_reg: &mut Reg16,
)
    requires
        memory.inv(),
    ensures
        final(clock).cycles == cycles_after(old(clock).cycles, 19),
        final(pc_reg).word() == wrap16(old(pc_reg).word() + 1),
        final(af_reg).high == sub8_result(old(af_reg).high, memory.mem()[index_address(memory.mem(), old(pc_reg).word(), i16_reg.word())], false),
        final(af_reg).flags().c() == bool_bit(sub8_borrow(old(af_reg).high, memory.mem()[index_address(memory.mem(), old(pc_reg).word(), i16_reg.word())], false)),
        final(af_reg).flags().h() == bool_bit(sub8_half(old(af_reg).high, memory.mem()[index_address(memory.mem(), old(pc_reg).word(), i16_reg.word())], false)),
        final(af_reg).flags().pv() == bool_bit(sub8_overflow(old(af_reg).high, memory.mem()[index_address(memory.mem(), old(pc_reg).word(), i16_reg.word())], false)),
        final(af_reg).flags().n() == 1,
        final(af_reg).flags().s() == bool_bit(sign8(sub8_result(old(af_reg).high, memory.mem()[index_address(memory.mem(), old(pc_reg).word(), i16_reg.word())], false))),
        final(af_reg).flags().z() == bool_bit(sub8_result(old(af_reg).high, memory.mem()[index_address(memory.mem(), old(pc_reg).word(), i16_reg.word())], false) == 0),
        final(af_reg).flags().b3() == old(af_reg).flags().b3(),
        final(af_reg).flags().b5() == old(af_reg).flags().b5(),
{
    let address = get_i_d_address(memory, pc_reg, i16_reg);
    let operand = memory.read(address);
    let accumulator = af_reg.get_high();
    let result = instruction_set::sub8(accumulator, operand, af_reg);
    af_reg.set_high(result);
    PcState::increment_reg(pc_reg, 1);
    clock.increment(19);
}

/// AND (IX+d) / AND (IY+d): and the byte at the displaced index address into the accumulator.
pub fn and_i_d<M: MemoryRW>(
    clock: &mut Clock,
    memory: &M,
    pc_reg: &mut Reg16,
    i16_reg: &Reg16,
    af_reg: &mut Reg16,
)
    requires
        memory.inv(),
    ensures
        final(clock).cycles == cycles_after(old(clock).cycles, 19),
        final(pc_reg).word() == wrap16(old(pc_reg).word() + 1),
        final(af_reg).high == (old(af_reg).high & memory.mem()[index_address(memory.mem(), old(pc_reg).word(), i16_reg.word())]),
        final(af_reg).flags().c() == 0,
        final(af_reg).flags().n() == 0,
        final(af_reg).flags().h() == 1,
        final(af_reg).flags().pv() == bool_bit(parity((old(af_reg).high & memory.mem()[index_address(memory.mem(), old(pc_reg).word(), i16_reg.word())]))),
        final(af_reg).flags().s() == bool_bit(sign8((old(af_reg).high & memory.mem()[index_address(memory.mem(), old(pc_reg).word(), i16_reg.word())]))),
        final(af_reg).flags().z() == bool_bit((old(af_reg).high & memory.mem()[index_address(memory.mem(), old(pc_reg).word(), i16_reg.word())]) == 0),
        final(af_reg).flags().b3() == old(af_reg).flags().b3(),
        final(af_reg).flags().b5() == old(af_reg).flags().b5(),
{
    let address = get_i_d_address(memory, pc_reg, i16_reg);
    let operand = memory.read(address);
    let new_value = af_reg.get_high() & operand;
    let mut f_status = af_reg.get_flags();
    status_flags::and_flags(&mut f_status, new_value);
    af_reg.set_flags(&f_status);
    af_reg.set_high(new_value);
    PcState::increment_reg(pc_reg, 1);
    clock.increment(19);
}

/// XOR (IX+d) / XOR (IY+d): exclusive-or the byte at the displaced index address into the accumulator.
pub fn xor_i_d<M: MemoryRW>(
    clock: &mut Clock,
    memory: &M,
    pc_reg: &mut Reg16,
    i16_reg: &Reg16,
    af_reg: &mut Reg16,
)
    requires
        memory.inv(),
    ensures
        final(clock).cycles == cycles_after(old(clock).cycles, 19),
        final(pc_reg).word() == wrap16(old(pc_reg).word() + 1),
        final(af_reg).high == (old(af_reg).high ^ memory.mem()[index_address(memory.mem(), old(pc_reg).word(), i16_reg.word())]),
        final(af_reg).flags().c() == 0,
        final(af_reg).flags().n() == 0,
        final(af_reg).flags().h() == 0,
        final(af_reg).flags().pv() == bool_bit(parity((old(af_reg).high ^ memory.mem()[index_address(memory.mem(), old(pc_reg).word(), i16_reg.word())]))),
        final(af_reg).flags().s() == bool_bit(sign8((old(af_reg).high ^ memory.mem()[index_address(memory.mem(), old(pc_reg).word(), i16_reg.word())]))),
        final(af_reg).flags().z() == bool_bit((old(af_reg).high ^ memory.mem()[index_address(memory.mem(), old(pc_reg).word(), i16_reg.word())]) == 0),
        final(af_reg).flags().b3() == old(af_reg).flags().b3(),
        final(af_reg).flags().b5() == old(af_reg).flags().b5(),
{
    let address = get_i_d_address(memory, pc_reg, i16_reg);
    let operand = memory.read(address);
    let new_value = af_reg.get_high() ^ operand;
    let mut f_status = af_reg.get_flags();
    status_flags::xor_flags(&mut f_status, new_value);
    af_reg.set_flags(&f_status);
    af_reg.set_high(new_value);
    PcState::increment_reg(pc_reg, 1);
    clock.increment(19);
}

/// OR (IX+d) / OR (IY+d): or the byte at the displaced index address into the accumulator.
pub fn or_i_d<M: MemoryRW>(
    clock: &mut Clock,
    memory: &M,
    pc_reg: &mut Reg16,
    i16_reg: &Reg16,
    af_reg: &mut Reg16,
)
    requires
        memory.inv(),
    ensures
        final(clock).cycles == cycles_after(old(clock).cycles, 19),
        final(pc_reg).word() == wrap16(old(pc_reg).word() + 1),
        final(af_reg).high == (old(af_reg).high | memory.mem()[index_address(memory.mem(), old(pc_reg).word(), i16_reg.word())]),
        final(af_reg).flags().c() == 0,
        final(af_reg).flags().n() == 0,
        final(af_reg).flags().h() == 0,
        final(af_reg).flags().pv() == bool_bit(parity((old(af_reg).high | memory.mem()[index_address(memory.mem(), old(pc_reg).word(), i16_reg.word())]))),
        final(af_reg).flags().s() == bool_bit(sign8((old(af_reg).high | memory.mem()[index_address(memory.mem(), old(pc_reg).word(), i16_reg.word())]))),
        final(af_reg).flags().z() == bool_bit((old(af_reg).high | memory.mem()[index_address(memory.mem(), old(pc_reg).word(), i16_reg.word())]) == 0),
        final(af_reg).flags().b3() == old(af_reg).flags().b3(),
        final(af_reg).flags().b5() == old(af_reg).flags().b5(),
{
    let address = get_i_d_address(memory, pc_reg, i16_reg);
    let operand = memory.read(address);
    let new_value = af_reg.get_high() | operand;
    let mut f_status = af_reg.get_flags();
    status_flags::or_flags(&mut f_status, new_value);
    af_reg.set_flags(&f_status);
    af_reg.set_high(new_value);
    PcState::increment_reg(pc_reg, 1);
    clock.increment(19);
}
} // verus!
