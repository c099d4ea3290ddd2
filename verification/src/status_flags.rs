use crate::pc_state::PcStatusFlagFields;
use vstd::prelude::*;

verus! {

/// 1 when the condition holds, 0 otherwise; the value a flag bit takes.
pub open spec fn bool_bit(b: bool) -> u8 {
    if b {
        1
    } else {
        0
    }
}

/// Sign bit of an 8-bit value.
pub open spec fn sign8(v: u8) -> bool {
    v >= 0x80
}

/// Sign bit of a 16-bit value.
pub open spec fn sign16(v: u16) -> bool {
    v >= 0x8000
}

/// The named bit of a byte, as 0 or 1.
pub open spec fn bit_of(v: u8, pos: u8) -> u8 {
    (v >> pos) & 1
}

/// Even parity: true when the byte has an even number of set bits.
pub open spec fn parity(a: u8) -> bool {
    (a / 1 % 2 + a / 2 % 2 + a / 4 % 2 + a / 8 % 2 + a / 16 % 2 + a / 32 % 2 + a / 64 % 2 + a / 128
        % 2) % 2 == 0
}

/// 8-bit addition with carry-in, wrapping modulo 256.
pub open spec fn add8_result(a: u8, b: u8, c: bool) -> u8 {
    ((a + b + bool_bit(c)) % 256) as u8
}

/// Unsigned carry out of bit 7 for 8-bit addition.
pub open spec fn add8_carry(a: u8, b: u8, c: bool) -> bool {
    a + b + bool_bit(c) > 0xFF
}

/// Carry out of bit 3 into bit 4 for 8-bit addition.
pub open spec fn add8_half(a: u8, b: u8, c: bool) -> bool {
    a % 16 + b % 16 + bool_bit(c) > 0xF
}

/// Signed overflow for 8-bit addition: equal operand signs, result sign flips.
pub open spec fn add8_overflow(a: u8, b: u8, c: bool) -> bool {
    sign8(a) == sign8(b) && sign8(a) != sign8(add8_result(a, b, c))
}

/// 8-bit subtraction with borrow-in, wrapping modulo 256.
pub open spec fn sub8_result(a: u8, b: u8, c: bool) -> u8 {
    ((a - b - bool_bit(c)) % 256) as u8
}

/// Unsigned borrow for 8-bit subtraction.
pub open spec fn sub8_borrow(a: u8, b: u8, c: bool) -> bool {
    a < b + bool_bit(c)
}

/// Borrow from bit 4 for 8-bit subtraction.
pub open spec fn sub8_half(a: u8, b: u8, c: bool) -> bool {
    a % 16 < b % 16 + bool_bit(c)
}

/// Signed overflow for 8-bit subtraction: differing operand signs and the
/// result's sign differs from the minuend's.
pub open spec fn sub8_overflow(a: u8, b: u8, c: bool) -> bool {
    sign8(a) != sign8(b) && sign8(a) != sign8(sub8_result(a, b, c))
}

/// 16-bit addition with carry-in, wrapping modulo 65536.
pub open spec fn add16_result(a: u16, b: u16, c: bool) -> u16 {
    ((a + b + bool_bit(c)) % 0x10000) as u16
}

/// Unsigned carry out of bit 15 for 16-bit addition.
pub open spec fn add16_carry(a: u16, b: u16, c: bool) -> bool {
    a + b + bool_bit(c) > 0xFFFF
}

/// Carry out of bit 11 into bit 12 for 16-bit addition.
pub open spec fn add16_half(a: u16, b: u16, c: bool) -> bool {
    a % 0x1000 + b % 0x1000 + bool_bit(c) > 0xFFF
}

/// Signed overflow for 16-bit addition.
pub open spec fn add16_overflow(a: u16, b: u16, c: bool) -> bool {
    sign16(a) == sign16(b) && sign16(a) != sign16(add16_result(a, b, c))
}

/// 16-bit subtraction with borrow-in, wrapping modulo 65536.
pub open spec fn sub16_result(a: u16, b: u16, c: bool) -> u16 {
    ((a - b - bool_bit(c)) % 0x10000) as u16
}

/// Unsigned borrow for 16-bit subtraction.
pub open spec fn sub16_borrow(a: u16, b: u16, c: bool) -> bool {
    a < b + bool_bit(c)
}

/// Borrow from bit 12 for 16-bit subtraction.
pub open spec fn sub16_half(a: u16, b: u16, c: bool) -> bool {
    a % 0x1000 < b % 0x1000 + bool_bit(c)
}

/// Signed overflow for 16-bit subtraction.
pub open spec fn sub16_overflow(a: u16, b: u16, c: bool) -> bool {
    sign16(a) != sign16(b) && sign16(a) != sign16(sub16_result(a, b, c))
}

/// Widen a displacement byte to 16 bits, keeping its signed value.
pub fn signed_char_to_int(v: i8) -> (r: i16)
    ensures
        r == v,
{
    v as i16
}

/// Even parity of a byte: true for an even number of set bits.
pub fn calculate_parity(a: u8) -> (r: bool)
    ensures
        r == parity(a),
{
    let count: u8 = a / 1 % 2 + a / 2 % 2 + a / 4 % 2 + a / 8 % 2 + a / 16 % 2 + a / 32 % 2 + a
        / 64 % 2 + a / 128 % 2;
    count % 2 == 0
}

/// Set the zero and sign flags from an 8-bit result, leaving all other bits
/// alone.
pub fn zero_and_sign_flags(status: &mut PcStatusFlagFields, value: u8)
    ensures
        final(status).s() == bool_bit(sign8(value)),
        final(status).z() == bool_bit(value == 0),
        final(status).c() == old(status).c(),
        final(status).n() == old(status).n(),
        final(status).pv() == old(status).pv(),
        final(status).h() == old(status).h(),
        final(status).b3() == old(status).b3(),
        final(status).b5() == old(status).b5(),
{
    status.set_s(if value >= 0x80 {
        1
    } else {
        0
    });
    status.set_z(if value == 0 {
        1
    } else {
        0
    });
}

/// 8-bit add with carry-in: returns the wrapped sum and sets S, Z, H, P/V
/// and C; N and the unused bits are left alone.
pub fn u8_carry(a: u8, b: u8, c: bool, f_status: &mut PcStatusFlagFields) -> (r: u8)
    ensures
        r == add8_result(a, b, c),
        final(f_status).pv() == bool_bit(add8_overflow(a, b, c)),
        final(f_status).h() == bool_bit(add8_half(a, b, c)),
        final(f_status).c() == bool_bit(add8_carry(a, b, c)),
        final(f_status).s() == bool_bit(sign8(add8_result(a, b, c))),
        final(f_status).z() == bool_bit(add8_result(a, b, c) == 0),
        final(f_status).n() == old(f_status).n(),
        final(f_status).b3() == old(f_status).b3(),
        final(f_status).b5() == old(f_status).b5(),
{
    let carry_in: u8 = if c {
        1
    } else {
        0
    };
    let sum: u16 = a as u16 + b as u16 + carry_in as u16;
    let r: u8 = (sum % 256) as u8;

    f_status.set_pv(
        if (a < 0x80) == (b < 0x80) && ((a < 0x80) != (r < 0x80)) {
            1
        } else {
            0
        },
    );
    f_status.set_h(
        if a % 16 + b % 16 + carry_in > 0xF {
            1
        } else {
            0
        },
    );
    f_status.set_c(
        if sum > 0xFF {
            1
        } else {
            0
        },
    );
    zero_and_sign_flags(f_status, r);

    r
}

/// 8-bit subtract with borrow-in: returns the wrapped difference and sets
/// S, Z, H, P/V and C, and N to 1; the unused bits are left alone.
pub fn i8_carry(a: u8, b: u8, c: bool, f_status: &mut PcStatusFlagFields) -> (r: u8)
    ensures
        r == sub8_result(a, b, c),
        final(f_status).h() == bool_bit(sub8_half(a, b, c)),
        final(f_status).pv() == bool_bit(sub8_overflow(a, b, c)),
        final(f_status).n() == 1,
        final(f_status).c() == bool_bit(sub8_borrow(a, b, c)),
        final(f_status).s() == bool_bit(sign8(sub8_result(a, b, c))),
        final(f_status).z() == bool_bit(sub8_result(a, b, c) == 0),
        final(f_status).b3() == old(f_status).b3(),
        final(f_status).b5() == old(f_status).b5(),
{
    let borrow_in: u8 = if c {
        1
    } else {
        0
    };
    let total: u16 = b as u16 + borrow_in as u16;
    let r: u8 = if a as u16 >= total {
        (a as u16 - total) as u8
    } else {
        (a as u16 + 0x100 - total) as u8
    };

    f_status.set_h(
        if a % 16 < b % 16 + borrow_in {
            1
        } else {
            0
        },
    );
    f_status.set_pv(
        if (a < 0x80) != (b < 0x80) && ((a < 0x80) != (r < 0x80)) {
            1
        } else {
            0
        },
    );
    f_status.set_n(1);
    f_status.set_c(
        if (a as u16) < total {
            1
        } else {
            0
        },
    );
    f_status.set_s(if r >= 0x80 {
        1
    } else {
        0
    });
    f_status.set_z(if r == 0 {
        1
    } else {
        0
    });

    r
}

/// 8-bit subtract without borrow-in; flags as for `i8_carry`.
pub fn i8_no_carry(a: u8, b: u8, f_status: &mut PcStatusFlagFields) -> (r: u8)
    ensures
        r == sub8_result(a, b, false),
        final(f_status).h() == bool_bit(sub8_half(a, b, false)),
        final(f_status).pv() == bool_bit(sub8_overflow(a, b, false)),
        final(f_status).n() == 1,
        final(f_status).c() == bool_bit(sub8_borrow(a, b, false)),
        final(f_status).s() == bool_bit(sign8(sub8_result(a, b, false))),
        final(f_status).z() == bool_bit(sub8_result(a, b, false) == 0),
        final(f_status).b3() == old(f_status).b3(),
        final(f_status).b5() == old(f_status).b5(),
{
    i8_carry(a, b, false, f_status)
}

/// 16-bit add with carry-in: returns the wrapped sum and sets S, Z, P/V, H
/// and C; N and the unused bits are left alone.
pub fn u16_carry(a: u16, b: u16, c: bool, f_status: &mut PcStatusFlagFields) -> (r: u16)
    ensures
        r == add16_result(a, b, c),
        final(f_status).s() == bool_bit(sign16(add16_result(a, b, c))),
        final(f_status).z() == bool_bit(add16_result(a, b, c) == 0),
        final(f_status).pv() == bool_bit(add16_overflow(a, b, c)),
        final(f_status).h() == bool_bit(add16_half(a, b, c)),
        final(f_status).c() == bool_bit(add16_carry(a, b, c)),
        final(f_status).n() == old(f_status).n(),
        final(f_status).b3() == old(f_status).b3(),
        final(f_status).b5() == old(f_status).b5(),
{
    let carry_in: u16 = if c {
        1
    } else {
        0
    };
    let sum: u32 = a as u32 + b as u32 + carry_in as u32;
    let r: u16 = (sum % 0x10000) as u16;

    f_status.set_s(if r >= 0x8000 {
        1
    } else {
        0
    });
    f_status.set_z(if r == 0 {
        1
    } else {
        0
    });
    f_status.set_pv(
        if (a < 0x8000) == (b < 0x8000) && ((a < 0x8000) != (r < 0x8000)) {
            1
        } else {
            0
        },
    );
    f_status.set_h(
        if a % 0x1000 + b % 0x1000 + carry_in > 0xFFF {
            1
        } else {
            0
        },
    );
    f_status.set_c(
        if sum > 0xFFFF {
            1
        } else {
            0
        },
    );

    r
}

/// 16-bit add without carry-in: returns the wrapped sum and sets only H and
/// C; S, Z, P/V, N and the unused bits are left alone.
pub fn u16_no_carry(a: u16, b: u16, f_status: &mut PcStatusFlagFields) -> (r: u16)
    ensures
        r == add16_result(a, b, false),
        final(f_status).h() == bool_bit(add16_half(a, b, false)),
        final(f_status).c() == bool_bit(add16_carry(a, b, false)),
        final(f_status).s() == old(f_status).s(),
        final(f_status).z() == old(f_status).z(),
        final(f_status).pv() == old(f_status).pv(),
        final(f_status).n() == old(f_status).n(),
        final(f_status).b3() == old(f_status).b3(),
        final(f_status).b5() == old(f_status).b5(),
{
    let sum: u32 = a as u32 + b as u32;
    let r: u16 = (sum % 0x10000) as u16;

    f_status.set_h(
        if a % 0x1000 + b % 0x1000 > 0xFFF {
            1
        } else {
            0
        },
    );
    f_status.set_c(
        if sum > 0xFFFF {
            1
        } else {
            0
        },
    );

    r
}

/// 16-bit subtract with borrow-in: returns the wrapped difference and sets
/// S, Z, H, P/V and C, and N to 1; the unused bits are left alone.
pub fn i16_carry(a: u16, b: u16, c: bool, f_status: &mut PcStatusFlagFields) -> (r: u16)
    ensures
        r == sub16_result(a, b, c),
        final(f_status).h() == bool_bit(sub16_half(a, b, c)),
        final(f_status).pv() == bool_bit(sub16_overflow(a, b, c)),
        final(f_status).n() == 1,
        final(f_status).c() == bool_bit(sub16_borrow(a, b, c)),
        final(f_status).s() == bool_bit(sign16(sub16_result(a, b, c))),
        final(f_status).z() == bool_bit(sub16_result(a, b, c) == 0),
        final(f_status).b3() == old(f_status).b3(),
        final(f_status).b5() == old(f_status).b5(),
{
    let borrow_in: u16 = if c {
        1
    } else {
        0
    };
    let total: u32 = b as u32 + borrow_in as u32;
    let r: u16 = if a as u32 >= total {
        (a as u32 - total) as u16
    } else {
        (a as u32 + 0x10000 - total) as u16
    };

    f_status.set_h(
        if a % 0x1000 < b % 0x1000 + borrow_in {
            1
        } else {
            0
        },
    );
    f_status.set_pv(
        if (a < 0x8000) != (b < 0x8000) && ((a < 0x8000) != (r < 0x8000)) {
            1
        } else {
            0
        },
    );
    f_status.set_n(1);
    f_status.set_c(
        if (a as u32) < total {
            1
        } else {
            0
        },
    );
    f_status.set_s(if r >= 0x8000 {
        1
    } else {
        0
    });
    f_status.set_z(if r == 0 {
        1
    } else {
        0
    });

    r
}

/// Flags for DEC r once the new value is known: N set, H on a low-nibble
/// borrow, P/V exactly when the value crossed 0x80 to 0x7F, S and Z from the
/// value; C and the unused bits are left alone.
pub fn calculate_dec_flags(status: &mut PcStatusFlagFields, new_value: u8)
    ensures
        final(status).n() == 1,
        final(status).h() == bool_bit(new_value % 16 == 0xF),
        final(status).pv() == bool_bit(new_value == 0x7F),
        final(status).s() == bool_bit(sign8(new_value)),
        final(status).z() == bool_bit(new_value == 0),
        final(status).c() == old(status).c(),
        final(status).b3() == old(status).b3(),
        final(status).b5() == old(status).b5(),
{
    status.set_n(1);
    if new_value % 16 == 0xF {
        status.set_h(1);
    } else {
        status.set_h(0);
    }
    if new_value == 0x7F {
        status.set_pv(1);
    } else {
        status.set_pv(0);
    }
    zero_and_sign_flags(status, new_value);
}

/// Flags for INC r once the new value is known: N cleared, H on a low-nibble
/// carry, P/V exactly when the value crossed 0x7F to 0x80, S and Z from the
/// value; C and the unused bits are left alone.
pub fn calculate_inc_flags(status: &mut PcStatusFlagFields, new_value: u8)
    ensures
        final(status).n() == 0,
        final(status).h() == bool_bit(new_value % 16 == 0),
        final(status).pv() == bool_bit(new_value == 0x80),
        final(status).s() == bool_bit(sign8(new_value)),
        final(status).z() == bool_bit(new_value == 0),
        final(status).c() == old(status).c(),
        final(status).b3() == old(status).b3(),
        final(status).b5() == old(status).b5(),
{
    if new_value % 16 == 0 {
        status.set_h(1);
    } else {
        status.set_h(0);
    }
    if new_value == 0x80 {
        status.set_pv(1);
    } else {
        status.set_pv(0);
    }
    status.set_n(0);
    zero_and_sign_flags(status, new_value);
}

/// Flags for LD A,I and LD A,R: N and H cleared, P/V from IFF2, S and Z from
/// the accumulator; C and the unused bits are left alone.
pub fn accumulator_flags(status: &mut PcStatusFlagFields, accumulator: u8, iff2: bool)
    ensures
        final(status).n() == 0,
        final(status).h() == 0,
        final(status).pv() == bool_bit(iff2),
        final(status).s() == bool_bit(sign8(accumulator)),
        final(status).z() == bool_bit(accumulator == 0),
        final(status).c() == old(status).c(),
        final(status).b3() == old(status).b3(),
        final(status).b5() == old(status).b5(),
{
    status.set_n(0);
    status.set_h(0);
    status.set_pv(if iff2 {
        1
    } else {
        0
    });
    zero_and_sign_flags(status, accumulator);
}

/// Flags for AND: C and N cleared, H set, P/V the parity of the result, S
/// and Z from the result; the unused bits are left alone.
pub fn and_flags(status: &mut PcStatusFlagFields, value: u8)
    ensures
        final(status).c() == 0,
        final(status).n() == 0,
        final(status).h() == 1,
        final(status).pv() == bool_bit(parity(value)),
        final(status).s() == bool_bit(sign8(value)),
        final(status).z() == bool_bit(value == 0),
        final(status).b3() == old(status).b3(),
        final(status).b5() == old(status).b5(),
{
    status.set_c(0);
    status.set_n(0);
    status.set_h(1);
    status.set_pv(
        if calculate_parity(value) {
            1
        } else {
            0
        },
    );
    zero_and_sign_flags(status, value);
}

/// Flags for XOR: C, N and H cleared, P/V the parity of the result, S and Z
/// from the result; the unused bits are left alone.
pub fn xor_flags(status: &mut PcStatusFlagFields, value: u8)
    ensures
        final(status).c() == 0,
        final(status).n() == 0,
        final(status).h() == 0,
        final(status).pv() == bool_bit(parity(value)),
        final(status).s() == bool_bit(sign8(value)),
        final(status).z() == bool_bit(value == 0),
        final(status).b3() == old(status).b3(),
        final(status).b5() == old(status).b5(),
{
    status.set_c(0);
    status.set_n(0);
    status.set_h(0);
    status.set_pv(
        if calculate_parity(value) {
            1
        } else {
            0
        },
    );
    zero_and_sign_flags(status, value);
}

/// Flags for OR: same rule as XOR.
pub fn or_flags(status: &mut PcStatusFlagFields, value: u8)
    ensures
        final(status).c() == 0,
        final(status).n() == 0,
        final(status).h() == 0,
        final(status).pv() == bool_bit(parity(value)),
        final(status).s() == bool_bit(sign8(value)),
        final(status).z() == bool_bit(value == 0),
        final(status).b3() == old(status).b3(),
        final(status).b5() == old(status).b5(),
{
    xor_flags(status, value);
}

/// Flags for the accumulator-only rotates (RLCA, RRCA, RLA, RRA): C from the
/// bit rotated out, H and N cleared; S, Z, P/V and the unused bits are left
/// alone.
pub fn set_rotate_accumulator_flags(carry: bool, status: &mut PcStatusFlagFields)
    ensures
        final(status).c() == bool_bit(carry),
        final(status).h() == 0,
        final(status).n() == 0,
        final(status).s() == old(status).s(),
        final(status).z() == old(status).z(),
        final(status).pv() == old(status).pv(),
        final(status).b3() == old(status).b3(),
        final(status).b5() == old(status).b5(),
{
    status.set_c(if carry {
        1
    } else {
        0
    });
    status.set_h(0);
    status.set_n(0);
}

/// Flags for the register-destination rotates and shifts: C from the bit
/// shifted out, N and H cleared, P/V the parity of the result, S and Z from
/// the result; the unused bits are left alone.
pub fn set_shift_register_flags(value: u8, carry: bool, status: &mut PcStatusFlagFields)
    ensures
        final(status).c() == bool_bit(carry),
        final(status).n() == 0,
        final(status).h() == 0,
        final(status).pv() == bool_bit(parity(value)),
        final(status).s() == bool_bit(sign8(value)),
        final(status).z() == bool_bit(value == 0),
        final(status).b3() == old(status).b3(),
        final(status).b5() == old(status).b5(),
{
    status.set_c(if carry {
        1
    } else {
        0
    });
    status.set_n(0);
    status.set_h(0);
    status.set_pv(
        if calculate_parity(value) {
            1
        } else {
            0
        },
    );
    zero_and_sign_flags(status, value);
}

/// Flags for RRD and RLD: N and H cleared, P/V the parity of the new
/// accumulator, S and Z from it; C and the unused bits are left alone.
pub fn rotate_decimal_flags(status: &mut PcStatusFlagFields, value: u8)
    ensures
        final(status).n() == 0,
        final(status).h() == 0,
        final(status).pv() == bool_bit(parity(value)),
        final(status).s() == bool_bit(sign8(value)),
        final(status).z() == bool_bit(value == 0),
        final(status).c() == old(status).c(),
        final(status).b3() == old(status).b3(),
        final(status).b5() == old(status).b5(),
{
    status.set_n(0);
    status.set_h(0);
    status.set_pv(
        if calculate_parity(value) {
            1
        } else {
            0
        },
    );
    zero_and_sign_flags(status, value);
}

/// Flags for BIT b,r: Z is the inverse of the tested bit, P/V likewise (the
/// parity of that single bit), H set, N and S cleared; C and the unused bits
/// are left alone.
pub fn set_bit_test_flags(r: u8, bit_pos: u8, f_status: &mut PcStatusFlagFields)
    ensures
        final(f_status).z() == bool_bit(bit_of(r, (bit_pos & 7) as u8) == 0),
        final(f_status).pv() == bool_bit(bit_of(r, (bit_pos & 7) as u8) == 0),
        final(f_status).h() == 1,
        final(f_status).n() == 0,
        final(f_status).s() == 0,
        final(f_status).c() == old(f_status).c(),
        final(f_status).b3() == old(f_status).b3(),
        final(f_status).b5() == old(f_status).b5(),
{
    let pos: u8 = bit_pos & 7;
    assert(pos < 8) by (bit_vector)
        requires
            pos == bit_pos & 7,
    ;
    let bit: u8 = (r >> pos) & 1;
    assert(bit == 0 || bit == 1) by (bit_vector)
        requires
            bit == (r >> pos) & 1,
    ;
    f_status.set_z(
        if bit == 0 {
            1
        } else {
            0
        },
    );
    f_status.set_pv(
        if calculate_parity(bit) {
            1
        } else {
            0
        },
    );
    f_status.set_h(1);
    f_status.set_n(0);
    f_status.set_s(0);
}

} // verus!
