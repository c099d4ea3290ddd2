use sms_core::clocks::Clock;
use sms_core::instruction_set;
use sms_core::extended_instruction_set;
use sms_core::instructions::Instruction;
use sms_core::interruptor::Interruptor;
use sms_core::memory::MemoryRW;
use sms_core::memory::PlainMemory;
use sms_core::pc_state::PcState;
use sms_core::ports::Ports;
use sms_core::ports::TestDevice;

// A minimal machine for exercising the dispatcher: a flat memory with no
// devices attached.
pub struct TestCore {
    pub clock: Clock,
    pub memory: PlainMemory,
    pub pc_state: PcState,
    pub ports: Ports<TestDevice>,
    pub interruptor: Interruptor,
}

impl TestCore {
    pub fn new() -> Self {
        Self {
            clock: Clock::new(),
            memory: PlainMemory::new(),
            pc_state: PcState::new(),
            ports: Ports::new(),
            interruptor: Interruptor::new(),
        }
    }
}

fn load_program(memory: &mut PlainMemory, op_code: &[u8]) {
    let mut i: u16 = 0;
    for byte in op_code {
        memory.write(i, *byte);
        i += 1;
    }
}

fn simple_execute(test_core: &mut TestCore, op_code: Vec<u8>) {
    // Reset the PC counter and call execute
    test_core.pc_state.set_pc(0);
    test_core.clock.cycles = 0;
    let initial_op_code: u8 = op_code[0];
    test_core.pc_state.increment_pc(1);
    test_core.memory = PlainMemory::new();
    load_program(&mut test_core.memory, &op_code);
    Instruction::execute(
        initial_op_code,
        &mut test_core.clock,
        &mut test_core.memory,
        &mut test_core.pc_state,
        &mut test_core.ports,
        &mut test_core.interruptor,
    )
    .unwrap();
}

#[derive(PartialEq, Debug)]
enum Ops {
    Op0x70,
    Op0x71,
    Op0x72,
    Op0x73,
    Op0x74,
    Op0x75,
    Op0x76,
    Op0x77,
    Unknown,
}

fn check_match(value: u8) -> Ops {
    match value {
        n if (n & 0x78 == 0x70) && (n != 0x76) => match n & 0x7 {
            0 => Ops::Op0x70, // 0x70: LD (HL), B
            1 => Ops::Op0x71, // 0x71: LD (HL), C
            2 => Ops::Op0x72, // 0x72: LD (HL), D
            3 => Ops::Op0x73, // 0x73: LD (HL), E
            4 => Ops::Op0x74, // 0x74: LD (HL), H
            5 => Ops::Op0x75, // 0x75: LD (HL), L
            7 => Ops::Op0x77, // 0x77: LD (HL), A
            _ => {
                panic!(
                    "Code path that was thought to be unreachable was reached! {}",
                    n
                );
            }
        },
        0x76 => Ops::Op0x76,
        _ => Ops::Unknown,
    }
}

#[test]
fn test_instruction_match_style_check() {
    assert_eq!(check_match(0x72), Ops::Op0x72);
    assert_eq!(check_match(0x76), Ops::Op0x76);
    assert_eq!(check_match(0x77), Ops::Op0x77);
}

#[test]
fn test_ld_r_r_functions() {
    let mut test_core = TestCore::new();

    // ld_r_r instructions ( 0b01dddsss)
    // 111 -> A, 000 -> B, 001 -> C,
    // 010 -> D, 011 -> E, 100 -> H,
    // 101 -> L

    assert_eq!(test_core.clock.cycles, 0);
    assert_eq!(test_core.pc_state.get_b(), 0);

    test_core.pc_state.set_c(0x42);
    Instruction::execute(
        0b01000001,
        &mut test_core.clock,
        &mut test_core.memory,
        &mut test_core.pc_state,
        &mut test_core.ports,
        &mut test_core.interruptor,
    )
    .unwrap(); // LD r,'r  C -> B
    assert_eq!(test_core.pc_state.get_b(), 0x42);
    assert_eq!(test_core.clock.cycles, 4);
}

#[test]
fn test_jump_functions() {
    let mut test_core = TestCore::new();

    test_core.pc_state.set_hl(0x4233);
    test_core.pc_state.set_pc(0x2003);
    Instruction::execute(
        0xE9,
        &mut test_core.clock,
        &mut test_core.memory,
        &mut test_core.pc_state,
        &mut test_core.ports,
        &mut test_core.interruptor,
    )
    .unwrap(); // JP (HL)
    assert_eq!(test_core.pc_state.get_pc(), 0x4233);
}

#[test]
fn test_dec_functions() {
    let mut test_core = TestCore::new();

    test_core.pc_state.set_h(0x80);
    let mut flags = test_core.pc_state.get_f();
    flags.set_c(1);
    test_core.pc_state.set_f(flags);
    Instruction::execute(
        0b00100101,
        &mut test_core.clock,
        &mut test_core.memory,
        &mut test_core.pc_state,
        &mut test_core.ports,
        &mut test_core.interruptor,
    )
    .unwrap(); // dec_r, for h
    assert_eq!(test_core.pc_state.get_h(), 0x7F);
    assert_eq!(test_core.pc_state.get_f().get_h(), 1);
    assert_eq!(test_core.pc_state.get_f().get_c(), 1);
    assert_eq!(test_core.pc_state.get_f().get_s(), 0);
}

#[test]
fn test_specific_opcodes() {
    let mut test_core = TestCore::new();

    load_program(&mut test_core.memory, &[0x00]);
    test_core.pc_state.increment_pc(1);
    Instruction::execute(
        0x00,
        &mut test_core.clock,
        &mut test_core.memory,
        &mut test_core.pc_state,
        &mut test_core.ports,
        &mut test_core.interruptor,
    )
    .unwrap(); // no-op
    assert_eq!(test_core.pc_state.get_pc(), 0x1);
    assert_eq!(test_core.clock.cycles, 4);

    // LD dd, nn: for BC
    // Reset the PC counter.
    test_core.pc_state.set_pc(0);
    test_core.clock.cycles = 0;
    let test_op_code: u8 = 0x01;
    load_program(&mut test_core.memory, &[test_op_code, 0x10, 0x33]); // Op-code to test
    test_core.pc_state.increment_pc(1);
    Instruction::execute(
        test_op_code,
        &mut test_core.clock,
        &mut test_core.memory,
        &mut test_core.pc_state,
        &mut test_core.ports,
        &mut test_core.interruptor,
    )
    .unwrap();
    assert_eq!(test_core.pc_state.get_pc(), 0x3);
    assert_eq!(test_core.pc_state.get_bc(), 0x3310);
    assert_eq!(test_core.clock.cycles, 10);
}

fn check_op_code_cycle_count(
    test_core: &mut TestCore,
    op_code: Vec<u8>,
    expected_pc: u16,
    expected_cycles: u64,
) {
    simple_execute(test_core, op_code);
    assert_eq!(test_core.pc_state.get_pc(), expected_pc);
    assert_eq!(test_core.clock.cycles, expected_cycles);
}

fn default_pc_op_code_check(op_code: Vec<u8>, t_states: Vec<u8>, _op_name: &str) {
    non_default_pc_op_code_check(op_code, t_states, _op_name, PcState::new())
}

fn non_default_pc_op_code_check(
    op_code: Vec<u8>,
    t_states: Vec<u8>,
    _op_name: &str,
    pc_state: PcState,
) {
    let mut test_core = TestCore::new();
    test_core.pc_state = pc_state;
    let expected_pc_count: u16 = op_code.len() as u16;
    check_op_code_cycle_count(
        &mut test_core,
        op_code,
        expected_pc_count,
        t_states.into_iter().fold(0, |s, x| s + x as u64),
    );
}

#[test]
fn test_opcode_cycle_times() {
    // Page 71
    // 8-bit loads
    default_pc_op_code_check(vec![0x40], vec![4], "LD r,r'");
    default_pc_op_code_check(vec![0x06, 0x00], vec![4, 3], "LD r,n");
    default_pc_op_code_check(vec![0x46], vec![4, 3], "LD r,(HL)");
    default_pc_op_code_check(vec![0xDD, 0x46, 0x00], vec![4, 4, 3, 5, 3], "LD r,(IX+d)");
    default_pc_op_code_check(vec![0xFD, 0x46, 0x00], vec![4, 4, 3, 5, 3], "LD r,(IY+d)");
    default_pc_op_code_check(vec![0x70], vec![4, 3], "LD (HL), r");
    default_pc_op_code_check(vec![0xDD, 0x70, 0x0], vec![4, 4, 3, 5, 3], "LD (IX+d), r");
    default_pc_op_code_check(vec![0xFD, 0x70, 0x0], vec![4, 4, 3, 5, 3], "LD (IY+d), r");
    default_pc_op_code_check(vec![0x36, 0x00], vec![4, 3, 3], "LD (HL), n");
    default_pc_op_code_check(
        vec![0xDD, 0x36, 0x00, 0x00],
        vec![4, 4, 3, 5, 3],
        "LD (IX+d),n",
    );
    default_pc_op_code_check(
        vec![0xFD, 0x36, 0x00, 0x00],
        vec![4, 4, 3, 5, 3],
        "LD (IY+d),n",
    );
    default_pc_op_code_check(vec![0x0A], vec![4, 3], "LD A, (BC)");
    default_pc_op_code_check(vec![0x1A], vec![4, 3], "LD A, (DE)");
    default_pc_op_code_check(vec![0x3A, 0x00, 0x00], vec![4, 3, 3, 3], "LD A, (nn)");
    default_pc_op_code_check(vec![0x02], vec![4, 3], "LD (BC),A");
    default_pc_op_code_check(vec![0x12], vec![4, 3], "LD (DE),A");
    default_pc_op_code_check(vec![0x32, 0x00, 0x00], vec![4, 3, 3, 3], "LD (nn),A");
    default_pc_op_code_check(vec![0xED, 0x57], vec![4, 5], "LD A,I");
    default_pc_op_code_check(vec![0xED, 0x5F], vec![4, 5], "LD A,R");
    default_pc_op_code_check(vec![0xED, 0x47], vec![4, 5], "LD I,A");
    default_pc_op_code_check(vec![0xED, 0x4F], vec![4, 5], "LD R,A");

    // 16-bit loads
    // Page 99
    default_pc_op_code_check(vec![0x01, 0x00, 0x00], vec![4, 3, 3], "LD dd, nn");
    default_pc_op_code_check(vec![0xDD, 0x21, 0x00, 0x00], vec![4, 4, 3, 3], "LD IX, nn");
    default_pc_op_code_check(vec![0xFD, 0x21, 0x00, 0x00], vec![4, 4, 3, 3], "LD IY, nn");
    default_pc_op_code_check(vec![0x2A, 0x00, 0x00], vec![4, 3, 3, 3, 3], "LD HL, (nn)");
    default_pc_op_code_check(
        vec![0xED, 0x4B, 0x00, 0x00],
        vec![4, 4, 3, 3, 3, 3],
        "LD dd, (nn)",
    );
    default_pc_op_code_check(
        vec![0xDD, 0x2A, 0x00, 0x00],
        vec![4, 4, 3, 3, 3, 3],
        "LD IX, (nn)",
    );
    default_pc_op_code_check(
        vec![0xFD, 0x2A, 0x00, 0x00],
        vec![4, 4, 3, 3, 3, 3],
        "LD IY, (nn)",
    );
    default_pc_op_code_check(vec![0x22, 0x00, 0x00], vec![4, 3, 3, 3, 3], "LD (nn), HL");
    default_pc_op_code_check(
        vec![0xED, 0x43, 0x00, 0x00],
        vec![4, 4, 3, 3, 3, 3],
        "LD (nn), dd",
    );
    default_pc_op_code_check(
        vec![0xDD, 0x22, 0x00, 0x00],
        vec![4, 4, 3, 3, 3, 3],
        "LD (nn), IX",
    );
    default_pc_op_code_check(
        vec![0xFD, 0x22, 0x00, 0x00],
        vec![4, 4, 3, 3, 3, 3],
        "LD (nn), IY",
    );
    default_pc_op_code_check(vec![0xF9], vec![6], "LD SP,HL");
    default_pc_op_code_check(vec![0xDD, 0xF9], vec![4, 6], "LD SP,IX");
    default_pc_op_code_check(vec![0xFD, 0xF9], vec![4, 6], "LD SP,IY");

    let mut initial_pc_state = PcState::new();
    initial_pc_state.sp_reg.set(2);
    non_default_pc_op_code_check(vec![0xDD, 0xE5], vec![4, 5, 3, 3], "PUSH IX", initial_pc_state);
    initial_pc_state = PcState::new();
    initial_pc_state.sp_reg.set(2);
    non_default_pc_op_code_check(vec![0xFD, 0xE5], vec![4, 5, 3, 3], "PUSH IY", initial_pc_state);
    default_pc_op_code_check(vec![0xDD, 0xE1], vec![4, 4, 3, 3], "POP IX");
    default_pc_op_code_check(vec![0xFD, 0xE1], vec![4, 4, 3, 3], "POP IY");

    // Exchange, Block Transfer, and Search Group
    // Page 123
    default_pc_op_code_check(vec![0xEB], vec![4], "EX DE, HL");
    default_pc_op_code_check(vec![0x08], vec![4], "EX AF,AF'");
    default_pc_op_code_check(vec![0xD9], vec![4], "EXX");
    default_pc_op_code_check(vec![0xDD, 0xE3], vec![4, 4, 3, 4, 3, 5], "EX (SP),IX");
    default_pc_op_code_check(vec![0xFD, 0xE3], vec![4, 4, 3, 4, 3, 5], "EX (SP),IY");
    default_pc_op_code_check(vec![0xED, 0xA0], vec![4, 4, 3, 5], "LDI");
    default_pc_op_code_check(vec![0xED, 0xA8], vec![4, 4, 3, 5], "LDD");
    default_pc_op_code_check(vec![0xED, 0xA1], vec![4, 4, 3, 5], "CPI");
    default_pc_op_code_check(vec![0xED, 0xA9], vec![4, 4, 3, 5], "CPD");

    // 8-bit Arithmetic
    // Page 145

    default_pc_op_code_check(vec![0x80], vec![4], "ADD A,r");
    default_pc_op_code_check(vec![0xC6, 0x00], vec![4, 3], "ADD A,n");
    default_pc_op_code_check(vec![0xC6, 0x00], vec![4, 3], "ADD A,n");

    default_pc_op_code_check(vec![0x86], vec![4, 3], "ADD A,(HL)");
    default_pc_op_code_check(vec![0xDD, 0x86, 0x00], vec![4, 4, 3, 5, 3], "ADD A,(IX+d)");
    default_pc_op_code_check(vec![0xFD, 0x86, 0x00], vec![4, 4, 3, 5, 3], "ADD A,(IY+d)");

    default_pc_op_code_check(vec![0x88], vec![4], "ADC A,r"); // ADC A,s
    default_pc_op_code_check(vec![0xCE, 0x00], vec![4, 3], "ADC A,n"); // ADC A,s
    default_pc_op_code_check(vec![0x8E], vec![4, 3], "ADC A,(HL)"); // ADC A,s
    default_pc_op_code_check(vec![0xDD, 0x8E, 0x00], vec![4, 4, 3, 5, 3], "ADC A,(IX+d)"); // ADC A,s
    default_pc_op_code_check(vec![0xFD, 0x8E, 0x00], vec![4, 4, 3, 5, 3], "ADC A,(IY+d)"); // ADC A,s

    default_pc_op_code_check(vec![0x90], vec![4], "SUB r"); // SUB s
    default_pc_op_code_check(vec![0xD6, 0x00], vec![4, 3], "SUB n"); // SUB s
    default_pc_op_code_check(vec![0x96], vec![4, 3], "SUB (HL)"); // SUB s
    default_pc_op_code_check(vec![0xDD, 0x96, 0x00], vec![4, 4, 3, 5, 3], "SUB (IX+d)"); // SUB s
    default_pc_op_code_check(vec![0xFD, 0x96, 0x00], vec![4, 4, 3, 5, 3], "SUB (IY+d)"); // SUB s

    default_pc_op_code_check(vec![0x98], vec![4], "SBC A,r"); // SBC A,s
    default_pc_op_code_check(vec![0xDE, 0x00], vec![4, 3], "SBC A,n"); // SBC A,s
    default_pc_op_code_check(vec![0x9E], vec![4, 3], "SBC A,(HL)"); // SBC A,s

    default_pc_op_code_check(vec![0xA0], vec![4], "AND r"); // AND s
    default_pc_op_code_check(vec![0xE6, 0x00], vec![4, 3], "AND n"); // AND s
    default_pc_op_code_check(vec![0xA6], vec![4, 3], "AND (HL)"); // AND s
    default_pc_op_code_check(vec![0xDD, 0xA6, 0x00], vec![4, 4, 3, 5, 3], "AND (IX+d)"); // AND s
    default_pc_op_code_check(vec![0xFD, 0xA6, 0x00], vec![4, 4, 3, 5, 3], "AND (IY+d)"); // AND s

    default_pc_op_code_check(vec![0xB0], vec![4], "OR r"); // OR s
    default_pc_op_code_check(vec![0xF6, 0x00], vec![4, 3], "OR n"); // OR s
    default_pc_op_code_check(vec![0xB6], vec![4, 3], "OR (HL)"); // OR s
    default_pc_op_code_check(vec![0xDD, 0xB6, 0x00], vec![4, 4, 3, 5, 3], "OR (IX+d)"); // OR s
    default_pc_op_code_check(vec![0xFD, 0xB6, 0x00], vec![4, 4, 3, 5, 3], "OR (IY+d)"); // OR s

    default_pc_op_code_check(vec![0xA8], vec![4], "XOR r"); // XOR s
    default_pc_op_code_check(vec![0xEE, 0x00], vec![4, 3], "XOR n"); // XOR s
    default_pc_op_code_check(vec![0xAE], vec![4, 3], "XOR (HL)"); // XOR s
    default_pc_op_code_check(vec![0xDD, 0xAE, 0x00], vec![4, 4, 3, 5, 3], "XOR (IX+d)"); // XOR s
    default_pc_op_code_check(vec![0xFD, 0xAE, 0x00], vec![4, 4, 3, 5, 3], "XOR (IY+d)"); // XOR s

    default_pc_op_code_check(vec![0xB8], vec![4], "CP r"); // CP s
    default_pc_op_code_check(vec![0xFE, 0x00], vec![4, 3], "CP n"); // CP s
    default_pc_op_code_check(vec![0xBE], vec![4, 3], "CP (HL)"); // CP s
    default_pc_op_code_check(vec![0xDD, 0xBE, 0x00], vec![4, 4, 3, 5, 3], "CP (IX+d)"); // CP s
    default_pc_op_code_check(vec![0xFD, 0xBE, 0x00], vec![4, 4, 3, 5, 3], "CP (IY+d)"); // CP s

    default_pc_op_code_check(vec![0x04], vec![4], "INC r");
    default_pc_op_code_check(vec![0x34], vec![4, 4, 3], "INC (HL)");
    default_pc_op_code_check(vec![0xDD, 0x34, 0x00], vec![4, 4, 3, 5, 4, 3], "INC (IX+d)");
    default_pc_op_code_check(vec![0xFD, 0x34, 0x00], vec![4, 4, 3, 5, 4, 3], "INC (IY+d)");
    default_pc_op_code_check(vec![0x05], vec![4], "DEC r"); // DEC m
    default_pc_op_code_check(vec![0x35], vec![4, 4, 3], "DEC (HL)"); // DEC m
    default_pc_op_code_check(vec![0xDD, 0x35, 0x00], vec![4, 4, 3, 5, 4, 3], "DEC (IX+d)"); // DEC m
    default_pc_op_code_check(vec![0xFD, 0x35, 0x00], vec![4, 4, 3, 5, 4, 3], "DEC (IY+d)");
    // DEC m

    // General purpose arithmetic and CPU control groups
    // Page 172
}

#[test]
fn test_opcode_wild_cards_cycle_times() {
    let mut test_core = TestCore::new();

    // t_states,   [(op_code, op_code_mask)], [t_states]
    // Currently not doing anything interesting with the masks
    // op_code=0x00rrr110 -> 0b00000110 mask= 0b11000111
    // NOTE: Only works for 'exhaustive' matches (doesn't include a filter)
    let t_states = [
        (vec![(0b01000000u8, 0b11010010u8)], vec![4u8]), // LD r,r' // Overlapping, but excludes r=6
        (vec![(0b01000000, 0b11010100)], vec![4]),       // LD r,r'
        (vec![(0b01000000, 0b11100010)], vec![4]),       // LD r,r'
        (vec![(0b01000000, 0b11100100)], vec![4]),       // LD r,r'
        (vec![(0b00000110, 0b11010111), (0x0, 0x0)], vec![4, 3]), // LD r,n
        (vec![(0b00000110, 0b11100111), (0x0, 0x0)], vec![4, 3]), // LD r,n
        (vec![(0b01000110, 0b11010111)], vec![4, 3]),    // LD r,(HL)
        (vec![(0b01000110, 0b11100111)], vec![4, 3]),    // LD r,(HL)
        (
            vec![(0xDD, 0xFF), (0b01000110, 0xFF), (0x0, 0x0)],
            vec![4, 4, 3, 5, 3],
        ), // LD r,(IX+d)
        // 0xDD, 0b01rrr110, 0bdddddddd
        (
            vec![(0xFD, 0xFF), (0b01000110, 0xFF), (0x0, 0x0)],
            vec![4, 4, 3, 5, 3],
        ), // LD r,(IY+d)
        (vec![(0b01110000, 0b11111010)], vec![4, 3]),    // LD (HL), r
        (vec![(0b01110000, 0b11111100)], vec![4, 3]),    // LD (HL), r
    ];

    for check in t_states {
        let op_codes = check.0;
        let timing = check.1;
        let total_t_states: u64 = timing.into_iter().fold(0, |s, x| s + x as u64);

        // Initially, just do a permutation on the first op code.
        for mask_permutation in sequence_from_mask(!op_codes[0].1) {
            let mut test_input = Vec::new();
            test_input.push(op_codes[0].0 | mask_permutation);

            for code in op_codes[1..].into_iter() {
                test_input.push(code.0 & code.1); // Apply the mask to the op-code.
            }
            // This can be used for op codes that don't manipulate 'PC'
            let expected_pc_increment: u16 = test_input.len() as u16;

            test_core.pc_state.set_hl(0);
            test_core.pc_state.set_af(0);
            test_core.pc_state.set_bc(0);
            test_core.pc_state.set_de(0);
            check_op_code_cycle_count(
                &mut test_core,
                test_input,
                expected_pc_increment,
                total_t_states,
            );
        }
    }
}

#[test]
fn test_sequence_from_mask() {
    assert_eq!(vec![0, 2, 8, 10], sequence_from_mask(0xA));
}

fn sequence_from_mask(mask: u8) -> Vec<u8> {
    let mut sequence = Vec::new();
    let mut current_count: u16 = 1;

    let mut intermediate_sums = Vec::new();
    for _shift in 0..8 {
        if current_count & mask as u16 != 0 {
            intermediate_sums.push(current_count as u8);
        }
        current_count = current_count << 1;
    }

    // Loop over 2^(num elements), with each bit pos representing the 'value'
    for element in 0..(1 << intermediate_sums.len()) {
        let mut sum: u8 = 0;
        for bit_pos in 0..intermediate_sums.len() {
            if (1 << bit_pos) & element != 0 {
                sum += intermediate_sums[bit_pos];
            }
        }
        sequence.push(sum);
    }
    sequence
}

#[test]
fn test_rotate_opcode_cycle_times() {
    let mut test_core = TestCore::new();

    test_core.pc_state.set_a(0xAB);
    test_core.pc_state.set_hl(0x02);
    check_op_code_cycle_count(&mut test_core, vec![0xED, 0x67, 0xCD], 2, 18); // RRD
    assert_eq!(test_core.memory.read(2), 0xBC);
    assert_eq!(test_core.pc_state.get_a(), 0xAD);

    test_core.pc_state.set_a(0xAB);
    test_core.pc_state.set_hl(0x02);
    check_op_code_cycle_count(&mut test_core, vec![0xED, 0x6F, 0xCD], 2, 18); // RLD
    assert_eq!(test_core.pc_state.get_a(), 0xAC);
    assert_eq!(test_core.memory.read(2), 0xDB);

    test_core.pc_state.index_registers.ix_reg.set(0x04);
    check_op_code_cycle_count(&mut test_core, vec![0xDD, 0x34, 0xFF, 0x09], 3, 23); // INC (IX+d) (d = -1)
    assert_eq!(test_core.memory.read(3), 0xA);

    test_core.pc_state.index_registers.iy_reg.set(0x06);
    check_op_code_cycle_count(&mut test_core, vec![0xFD, 0x35, 0xFD, 0x09], 3, 23); // DEC (IY+d) (d = -3)
    assert_eq!(test_core.memory.read(3), 0x8);
}

#[test]
fn instruction_set_test_add_sub_functions() {
    let mut pc_state = PcState::new();

    assert_eq!(instruction_set::add8c(0, 0, false, &mut pc_state.af_reg), 0);
    assert_eq!(pc_state.get_f().get_z(), 1);

    assert_eq!(instruction_set::add8c(0, 0, true, &mut pc_state.af_reg), 1);
    assert_eq!(pc_state.get_f().get_z(), 0);

    assert_eq!(
        instruction_set::add8c(0x7, 0x9, true, &mut pc_state.af_reg),
        0x11
    );
    assert_eq!(pc_state.get_f().get_z(), 0);
    assert_eq!(pc_state.get_f().get_h(), 1);
    assert_eq!(pc_state.get_f().get_n(), 0);

    assert_eq!(
        instruction_set::add8c(0xFF, 0xFF, true, &mut pc_state.af_reg),
        0xFF
    );
    assert_eq!(pc_state.get_f().get_z(), 0);
    assert_eq!(pc_state.get_f().get_c(), 1);
    assert_eq!(pc_state.get_f().get_pv(), 0);

    assert_eq!(
        instruction_set::sub8c(0xFF, 0xFF, true, &mut pc_state.af_reg),
        0xFF
    );
    assert_eq!(pc_state.get_f().get_c(), 1);
    assert_eq!(
        instruction_set::sub8c(0x7F, 0xFF, true, &mut pc_state.af_reg),
        0x7F
    );
    assert_eq!(pc_state.get_f().get_pv(), 0);
    assert_eq!(pc_state.get_f().get_c(), 1);
    assert_eq!(pc_state.get_f().get_n(), 1);

    assert_eq!(
        instruction_set::sub8c(0xFF, 0x2, true, &mut pc_state.af_reg),
        0xFC
    );
    assert_eq!(pc_state.get_f().get_pv(), 0);
    assert_eq!(pc_state.get_f().get_c(), 0);
}

#[test]
fn extended_instruction_set_test_add_sub_functions() {
    let mut pc_state = PcState::new();

    assert_eq!(
        extended_instruction_set::add16c(0xFFFF, 0xFFFF, true, &mut pc_state.af_reg),
        0xFFFF
    );
    assert_eq!(
        extended_instruction_set::add16c(0, 0, false, &mut pc_state.af_reg),
        0
    );
    assert_eq!(pc_state.get_f().get_z(), 1);
    assert_eq!(pc_state.get_f().get_n(), 0);

    assert_eq!(
        extended_instruction_set::add16c(0x3FFF, 0x7001, true, &mut pc_state.af_reg),
        0xB001
    );
    assert_eq!(pc_state.get_f().get_h(), 1);

    assert_eq!(
        extended_instruction_set::sub16c(0x0000, 0x000F, true, &mut pc_state.af_reg),
        0xFFF0
    );
    assert_eq!(pc_state.get_f().get_n(), 1);
}
