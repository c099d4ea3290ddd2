use sms_core::pc_state::PcStatusFlagFields;
use sms_core::status_flags;

#[test]
fn test_carry_flag() {
    // For 'add'
    let test_values = [
        ((0xFFu8, 0x01u8, false), (0x00u8, true)),
        ((0xFF, 0x01, true), (0x01, true)),
        ((0xFF, 0x00, false), (0xFF, false)),
        ((0xFF, 0x00, true), (0x00, true)),
        ((0x7F, 0x7F, true), (0xFF, false)),
        ((0x0F, 0x00, true), (0x10, false)),
        ((0x0F, 0x00, false), (0x0F, false)),
    ];

    for ((a, b, initial_carry), (expected_value, expected_carry)) in test_values {
        let mut f_status = PcStatusFlagFields(0);
        f_status.set_c(0);
        assert_eq!(
            status_flags::u8_carry(a, b, initial_carry, &mut f_status),
            expected_value
        );
        assert_eq!(f_status.get_c(), expected_carry as u8);

        // Order shouldn't matter.
        f_status.set_c(0);
        assert_eq!(
            status_flags::u8_carry(b, a, initial_carry, &mut f_status),
            expected_value
        );
        assert_eq!(f_status.get_c(), expected_carry as u8);
    }
}

#[test]
fn test_icarry_flag() {
    //                  (a,b,c),            (pv, c, h, n);
    let test_values = [
        ((0x00u8, 0x00u8, false), (0u8, 0u8, 0u8, 1u8)),
        ((0x00, 0x00, true), (0, 1, 1, 1)),
        ((0x01, 0x00, true), (0, 0, 0, 1)),
        ((0x0F, 0x10, false), (0, 1, 0, 1)),
        ((0x10, 0x0F, false), (0, 0, 1, 1)),
        ((0x70, 0xAF, false), (1, 1, 1, 1)),
        ((0xAF, 0x70, false), (1, 0, 0, 1)),
        ((0xFF, 0xFF, false), (0, 0, 0, 1)),
        ((0xFF, 0xFF, true), (0, 1, 1, 1)),
    ];

    let mut f_status = PcStatusFlagFields(0);

    for ((a, b, carry), (pv, c, h, n)) in test_values {
        status_flags::i8_carry(a, b, carry, &mut f_status);
        assert_eq!(f_status.get_pv(), pv, "a:{} b:{} c:{}", a, b, carry);
        assert_eq!(f_status.get_c(), c, "a:{} b:{} c:{}", a, b, carry);
        assert_eq!(f_status.get_h(), h, "a:{} b:{} c:{}", a, b, carry);
        assert_eq!(f_status.get_n(), n, "a:{} b:{} c:{}", a, b, carry);
    }
}

#[test]
fn test_half_carry_flag() {
    // For 'add'
    let test_values = [
        ((0xFFu8, 0x01u8, false), (0x00u8, true)),
        ((0xFF, 0x01, true), (0x01, true)),
        ((0xFF, 0x00, false), (0xFF, false)),
        ((0xFF, 0x00, true), (0x00, true)),
        ((0x7F, 0x7F, true), (0xFF, true)),
        ((0x0F, 0x00, true), (0x10, true)),
        ((0x0F, 0x00, false), (0x0F, false)),
    ];

    for ((a, b, initial_carry), (expected_value, expected_carry)) in test_values {
        let mut f_status = PcStatusFlagFields(0);
        f_status.set_h(0);
        assert_eq!(
            status_flags::u8_carry(a, b, initial_carry, &mut f_status),
            expected_value
        );
        assert_eq!(f_status.get_h(), expected_carry as u8);

        // Order shouldn't matter.
        f_status.set_h(0);
        assert_eq!(
            status_flags::u8_carry(b, a, initial_carry, &mut f_status),
            expected_value
        );
        assert_eq!(f_status.get_h(), expected_carry as u8);
    }
}

#[test]
fn test_half_carry_u16_flag() {
    // For 'add'
    let test_values = [
        ((0xFFFFu16, 0x01FFu16, false), true),
        ((0xFFFF, 0x01FF, true), true),
        ((0xFFFF, 0x0000, false), false),
        ((0xFFFF, 0x0000, true), true),
        ((0x7FFF, 0x7FFF, true), true),
        ((0x0FFF, 0x00FF, true), true),
        ((0x0FFF, 0x00FF, false), true),
        ((0xFF00, 0xF0FF, false), false),
        ((0xFF00, 0xF0FF, true), true),
    ];

    for ((a, b, initial_carry), expected_carry) in test_values {
        let mut f_status = PcStatusFlagFields(0);
        f_status.set_h(0);
        status_flags::u16_carry(a, b, initial_carry, &mut f_status);
        assert_eq!(f_status.get_h(), expected_carry as u8);

        f_status.set_h(0);
        status_flags::u16_carry(b, a, initial_carry, &mut f_status);
        assert_eq!(f_status.get_h(), expected_carry as u8);
    }
}

#[test]
fn test_parity() {
    assert_eq!(status_flags::calculate_parity(0b11001001), true);
    assert_eq!(status_flags::calculate_parity(0b00101000), true);
    assert_eq!(status_flags::calculate_parity(0b10101001), true);
    assert_eq!(status_flags::calculate_parity(0b00101001), false);
    assert_eq!(status_flags::calculate_parity(0b00000001), false);
    assert_eq!(status_flags::calculate_parity(0b10000000), false);
}

#[test]
fn test_bit_set() {
    let mut f_status = PcStatusFlagFields(0);
    status_flags::set_bit_test_flags(0x30, 5, &mut f_status);
    assert_eq!(f_status.get_z(), 0);
    status_flags::set_bit_test_flags(0x30, 3, &mut f_status);
    assert_eq!(f_status.get_z(), 1);
}
