use sms_core::clocks::Clock;
use sms_core::cpu_core::Core;
use sms_core::errors::CpuError;
use sms_core::instruction_set;
use sms_core::interruptor::Interruptor;
use sms_core::memory::MemoryRW;
use sms_core::memory::PlainMemory;
use sms_core::pc_state::PcState;
use sms_core::ports::Ports;
use sms_core::ports::TestDevice;

fn machine_with_program(program: &[u8]) -> Core<PlainMemory, TestDevice> {
    let mut memory = PlainMemory::new();
    let mut i: u16 = 0;
    for byte in program {
        memory.write(i, *byte);
        i += 1;
    }
    Core::new(
        Clock::new(),
        memory,
        PcState::new(),
        Ports::new(),
        Interruptor::new(),
    )
}

#[test]
fn test_core_creation() {
    let clock = Clock::new();
    let memory = sms_core::memory::MemoryAbsolute::new();
    let pc_state = PcState::new();
    let mut ports: Ports<TestDevice> = Ports::new();
    let interruptor = Interruptor::new();
    ports.add_device(TestDevice::new());
    let mut core = Core::new(clock, memory, pc_state, ports, interruptor);

    core.step().unwrap();
    println!("pc: {}", core.pc_state.get_pc());
    core.step().unwrap();
}

#[test]
fn test_flag_truth_table() {
    // add8c(0xFF, 0x01, false): result 0x00 with Z, C and H set.
    let mut pc_state = PcState::new();
    let result = instruction_set::add8c(0xFF, 0x01, false, &mut pc_state.af_reg);
    assert_eq!(result, 0x00);
    assert_eq!(pc_state.get_f().get_z(), 1);
    assert_eq!(pc_state.get_f().get_c(), 1);
    assert_eq!(pc_state.get_f().get_h(), 1);

    // add8c(0x7F, 0x7F, true): result 0xFF with no unsigned carry; the
    // same-sign operands produce a sign flip, so the signed-overflow rule
    // sets P/V.
    let result = instruction_set::add8c(0x7F, 0x7F, true, &mut pc_state.af_reg);
    assert_eq!(result, 0xFF);
    assert_eq!(pc_state.get_f().get_pv(), 1);
    assert_eq!(pc_state.get_f().get_c(), 0);
}

#[test]
fn test_nop_step() {
    // One NOP step: PC advances by its instruction length, the clock by its
    // T-state count.
    let mut machine = machine_with_program(&[0x00]);
    machine.step().unwrap();
    assert_eq!(machine.pc_state.get_pc(), 1);
    assert_eq!(machine.clock.cycles, 4);
}

#[test]
fn test_interrupt_vectoring() {
    // With IFF1 set, mode 1 selected and a device reporting a pending
    // interrupt, one step (here over a NOP at 0x0200) jumps PC to 0x0038
    // and leaves the interrupted PC on the stack: low byte at the new SP,
    // high byte just above it.
    let mut machine = machine_with_program(&[]);
    machine.memory.write(0x0200, 0x00);
    machine.pc_state.set_pc(0x0200);
    machine.pc_state.set_sp(0x0100);
    machine.pc_state.set_iff1(true);
    machine.pc_state.set_im(1);
    let mut device = TestDevice::new();
    device.raise_interrupt();
    machine.ports.add_device(device);

    machine.step().unwrap();

    assert_eq!(machine.pc_state.get_pc(), 0x0038);
    assert_eq!(machine.pc_state.get_sp(), 0x00FE);
    // The interrupted PC was 0x0201 (just past the NOP).
    assert_eq!(machine.memory.read(0x00FE), 0x01);
    assert_eq!(machine.memory.read(0x00FF), 0x02);
    assert!(!machine.pc_state.get_iff1());

    // Without IFF1 no further interrupt is taken even if pending again.
    let mut device = TestDevice::new();
    device.raise_interrupt();
    machine.ports.add_device(device);
    machine.memory.write(0x0038, 0x00);
    machine.step().unwrap();
    assert_eq!(machine.pc_state.get_pc(), 0x0039);
}

#[test]
fn test_ei_quirk() {
    // EI followed by an instruction X: IFF1 is raised only after X has
    // executed, and a pending interrupt is taken after X completes, never
    // between EI and X.  Program: EI; LD B,0x42.
    let mut machine = machine_with_program(&[0xFB, 0x06, 0x42]);
    machine.pc_state.set_sp(0x0100);
    machine.pc_state.set_im(1);
    let mut device = TestDevice::new();
    device.raise_interrupt();
    machine.ports.add_device(device);

    machine.step().unwrap();

    // X ran to completion before the interrupt was accepted: B took its
    // value and the pushed return address is the one after X, not the one
    // between EI and X.
    assert_eq!(machine.pc_state.get_b(), 0x42);
    assert_eq!(machine.pc_state.get_pc(), 0x0038);
    assert_eq!(machine.memory.read(0x00FE), 0x03);
    assert_eq!(machine.memory.read(0x00FF), 0x00);
    // EI and LD B,n cost 4 + 7 T-states.
    assert_eq!(machine.clock.cycles, 11);

    // Without a pending interrupt the same sequence simply leaves the
    // flip-flops raised after X.
    let mut quiet = machine_with_program(&[0xFB, 0x06, 0x42]);
    quiet.pc_state.set_im(1);
    quiet.step().unwrap();
    assert!(quiet.pc_state.get_iff1());
    assert!(quiet.pc_state.get_iff2());
    assert_eq!(quiet.pc_state.get_pc(), 3);
}

#[test]
fn test_push_pop_roundtrip() {
    // PUSH BC then POP BC restores BC and SP exactly.
    let mut machine = machine_with_program(&[0xC5, 0xC1]);
    machine.pc_state.set_sp(0x0100);
    machine.pc_state.set_bc(0xBEEF);
    machine.step().unwrap();
    assert_eq!(machine.pc_state.get_sp(), 0x00FE);
    machine.pc_state.set_bc(0x0000);
    machine.step().unwrap();
    assert_eq!(machine.pc_state.get_bc(), 0xBEEF);
    assert_eq!(machine.pc_state.get_sp(), 0x0100);
    assert_eq!(machine.pc_state.get_pc(), 2);
}

#[test]
fn test_fatal_decode_errors() {
    // An extended opcode with no rule reports the bytes and the PC.
    let mut machine = machine_with_program(&[0xED, 0x01]);
    let fault = machine.step().unwrap_err();
    assert_eq!(
        fault,
        CpuError::UnknownExtendedOpcode {
            prefix: 0xED,
            opcode: 0x01,
            pc: 2,
        }
    );

    // SBC A,(IX+d) is unimplemented by design and fails fatally.
    let mut machine = machine_with_program(&[0xDD, 0x9E]);
    let fault = machine.step().unwrap_err();
    assert_eq!(
        fault,
        CpuError::Unimplemented {
            prefix: 0xDD,
            opcode: 0x9E,
            pc: 2,
        }
    );

    // A doubly prefixed bit operation whose final byte is in the
    // rotate class has no rule either.
    let mut machine = machine_with_program(&[0xDD, 0xCB, 0x00, 0x06]);
    let fault = machine.step().unwrap_err();
    assert_eq!(
        fault,
        CpuError::UnknownExtendedOpcode {
            prefix: 0xCB,
            opcode: 0x06,
            pc: 2,
        }
    );
}

#[test]
fn test_daa_packed_decimal() {
    // 0x15 + 0x27 in packed decimal: the binary sum 0x3C adjusts to 0x42.
    let mut machine = machine_with_program(&[0x27]);
    let mut pc_state = PcState::new();
    let result = instruction_set::add8(0x15, 0x27, &mut pc_state.af_reg);
    assert_eq!(result, 0x3C);
    pc_state.set_a(result);
    machine.pc_state = pc_state;
    machine.step().unwrap();
    assert_eq!(machine.pc_state.get_a(), 0x42);
}

#[test]
fn test_exchanges() {
    // EXX swaps BC, DE and HL with their shadows; EX AF,AF' swaps AF.
    let mut machine = machine_with_program(&[0xD9, 0x08, 0xD9]);
    machine.pc_state.set_bc(0x1111);
    machine.pc_state.set_de(0x2222);
    machine.pc_state.set_hl(0x3333);
    machine.pc_state.set_af(0x4444);
    machine.step().unwrap();
    assert_eq!(machine.pc_state.get_bc(), 0x0000);
    machine.step().unwrap();
    assert_eq!(machine.pc_state.get_af(), 0x0000);
    machine.step().unwrap();
    assert_eq!(machine.pc_state.get_bc(), 0x1111);
    assert_eq!(machine.pc_state.get_de(), 0x2222);
    assert_eq!(machine.pc_state.get_hl(), 0x3333);
}

#[test]
fn test_sixteen_bit_increment() {
    // INC BC; the 0b11 slot of the same opcode class selects SP.
    let mut machine = machine_with_program(&[0x03, 0x33]);
    machine.pc_state.set_bc(0x00FF);
    machine.pc_state.set_sp(0x0005);
    machine.step().unwrap();
    assert_eq!(machine.pc_state.get_bc(), 0x0100);
    machine.step().unwrap();
    assert_eq!(machine.pc_state.get_sp(), 0x0006);
}

#[test]
fn test_sixteen_bit_add_selectors() {
    // ADD HL,SP uses the stack pointer; ADD IX,IX doubles the index
    // register itself.
    let mut machine = machine_with_program(&[0x39, 0xDD, 0x29]);
    machine.pc_state.set_hl(0x1000);
    machine.pc_state.set_sp(0x0234);
    machine.pc_state.index_registers.ix_reg.set(0x0150);
    machine.step().unwrap();
    assert_eq!(machine.pc_state.get_hl(), 0x1234);
    machine.step().unwrap();
    assert_eq!(machine.pc_state.index_registers.ix_reg.get(), 0x02A0);
}

#[test]
fn test_relative_jumps() {
    // JR e with a negative displacement, and DJNZ counting down.
    let mut machine = machine_with_program(&[]);
    machine.memory.write(0x0100, 0x18); // JR -2 (self)
    machine.memory.write(0x0101, 0xFE);
    machine.pc_state.set_pc(0x0100);
    machine.step().unwrap();
    assert_eq!(machine.pc_state.get_pc(), 0x0100);
    assert_eq!(machine.clock.cycles, 12);

    let mut counter = machine_with_program(&[0x10, 0x10]); // DJNZ +0x10
    counter.pc_state.set_b(2);
    counter.step().unwrap();
    assert_eq!(counter.pc_state.get_b(), 1);
    assert_eq!(counter.pc_state.get_pc(), 0x12);
    assert_eq!(counter.clock.cycles, 13);
    counter.pc_state.set_pc(0);
    counter.step().unwrap();
    assert_eq!(counter.pc_state.get_b(), 0);
    assert_eq!(counter.pc_state.get_pc(), 2);
}

#[test]
fn test_block_copy() {
    // LDIR copies BC bytes from HL to DE, repeating itself until BC runs
    // out.
    let mut machine = machine_with_program(&[0xED, 0xB0]);
    machine.memory.write(0x0300, 0xAA);
    machine.memory.write(0x0301, 0xBB);
    machine.memory.write(0x0302, 0xCC);
    machine.pc_state.set_hl(0x0300);
    machine.pc_state.set_de(0x0400);
    machine.pc_state.set_bc(3);
    let mut steps: u32 = 0;
    while machine.pc_state.get_bc() != 0 {
        machine.step().unwrap();
        steps += 1;
        assert!(steps <= 3);
    }
    assert_eq!(machine.memory.read(0x0400), 0xAA);
    assert_eq!(machine.memory.read(0x0401), 0xBB);
    assert_eq!(machine.memory.read(0x0402), 0xCC);
    assert_eq!(machine.pc_state.get_pc(), 2);
}

#[test]
fn test_shift_helpers() {
    assert_eq!(instruction_set::shift_right_arithmetic(0x81), (0xC0, true));
    assert_eq!(instruction_set::shift_right_logical(0x81), (0x40, true));
    assert_eq!(instruction_set::shift_left_arithmetic(0x81), (0x02, true));
    assert_eq!(instruction_set::shift_left_logical(0x81), (0x03, true));
    assert_eq!(instruction_set::rotate_right_carry(0x01), (0x80, true));
    assert_eq!(instruction_set::rotate_right(0x02, true), (0x81, false));
    assert_eq!(instruction_set::rotate_left_carry(0x80), (0x01, true));
    assert_eq!(instruction_set::rotate_left(0x40, true), (0x81, false));
}

#[test]
fn test_clock_wraps() {
    let mut clock = Clock::new();
    clock.cycles = u64::MAX;
    clock.increment(5);
    assert_eq!(clock.cycles, 4);
}

#[test]
fn test_display_export() {
    let mut machine = machine_with_program(&[]);
    let exported = machine.export();
    assert!(!exported);
    let mut buffer: Vec<u8> = vec![0xFF; machine.raw_display.len()];
    machine.generate_display(&mut buffer);
    assert_eq!(buffer[0], 0);
    machine.reset();
    assert_eq!(machine.pc_state.get_pc(), 0);
}

#[test]
fn test_conditional_jump_timing() {
    // JP NZ,nn always consumes its operand word and costs 10 T-states,
    // taken or not; only a true condition redirects PC.
    let mut machine = machine_with_program(&[0xC2, 0x34, 0x12]);
    machine.step().unwrap(); // Z clear: taken.
    assert_eq!(machine.pc_state.get_pc(), 0x1234);
    assert_eq!(machine.clock.cycles, 10);

    let mut machine = machine_with_program(&[0xCA, 0x34, 0x12]);
    machine.step().unwrap(); // JP Z with Z clear: not taken.
    assert_eq!(machine.pc_state.get_pc(), 3);
    assert_eq!(machine.clock.cycles, 10);
}

#[test]
fn test_conditional_call_and_return() {
    // CALL NZ,nn taken: 17 T-states, return address pushed; RET NZ taken:
    // 11 T-states back.  The untaken paths cost 10 and 5.
    let mut machine = machine_with_program(&[0xC4, 0x00, 0x02]);
    machine.pc_state.set_sp(0x0100);
    machine.memory.write(0x0200, 0xC0); // RET NZ
    machine.step().unwrap();
    assert_eq!(machine.pc_state.get_pc(), 0x0200);
    assert_eq!(machine.pc_state.get_sp(), 0x00FE);
    assert_eq!(machine.clock.cycles, 17);
    machine.step().unwrap();
    assert_eq!(machine.pc_state.get_pc(), 0x0003);
    assert_eq!(machine.pc_state.get_sp(), 0x0100);
    assert_eq!(machine.clock.cycles, 17 + 11);

    // CALL Z with Z clear: operand consumed, nothing pushed.
    let mut machine = machine_with_program(&[0xCC, 0x00, 0x02, 0xC8]);
    machine.pc_state.set_sp(0x0100);
    machine.step().unwrap();
    assert_eq!(machine.pc_state.get_pc(), 3);
    assert_eq!(machine.pc_state.get_sp(), 0x0100);
    assert_eq!(machine.clock.cycles, 10);
    machine.step().unwrap(); // RET Z with Z clear.
    assert_eq!(machine.pc_state.get_pc(), 4);
    assert_eq!(machine.clock.cycles, 15);
}

#[test]
fn test_rst_vector() {
    // RST 0x28 pushes the return address and jumps to its fixed vector.
    let mut machine = machine_with_program(&[0xEF]);
    machine.pc_state.set_sp(0x0100);
    machine.step().unwrap();
    assert_eq!(machine.pc_state.get_pc(), 0x0028);
    assert_eq!(machine.pc_state.get_sp(), 0x00FE);
    assert_eq!(machine.memory.read(0x00FE), 0x01);
    assert_eq!(machine.clock.cycles, 11);
}

#[test]
fn test_port_input_without_device() {
    // An unanswered port read yields 0: IN A,(n) with no device attached.
    let mut machine = machine_with_program(&[0xDB, 0x7E]);
    machine.pc_state.set_a(0x55);
    machine.step().unwrap();
    assert_eq!(machine.pc_state.get_a(), 0);
    assert_eq!(machine.pc_state.get_pc(), 2);
    assert_eq!(machine.clock.cycles, 11);

    // OUT (n),A and OUT (C),r run against the bus without devices too.
    let mut machine = machine_with_program(&[0xD3, 0x7E, 0xED, 0x41]);
    machine.step().unwrap();
    machine.step().unwrap();
    assert_eq!(machine.pc_state.get_pc(), 4);
    assert_eq!(machine.clock.cycles, 11 + 12);
}

#[test]
fn test_compare_and_search() {
    // CP n sets the flags of a subtraction and keeps A; CPIR stops on a
    // match, leaving Z set and the carry untouched.
    let mut machine = machine_with_program(&[0xFE, 0x10]);
    machine.pc_state.set_a(0x10);
    machine.step().unwrap();
    assert_eq!(machine.pc_state.get_a(), 0x10);
    assert_eq!(machine.pc_state.get_f().get_z(), 1);
    assert_eq!(machine.pc_state.get_f().get_n(), 1);

    let mut machine = machine_with_program(&[0xED, 0xB1]);
    machine.memory.write(0x0300, 0x01);
    machine.memory.write(0x0301, 0x77);
    machine.pc_state.set_a(0x77);
    machine.pc_state.set_hl(0x0300);
    machine.pc_state.set_bc(5);
    machine.step().unwrap(); // no match at 0x0300: repeats.
    assert_eq!(machine.pc_state.get_pc(), 0);
    assert_eq!(machine.pc_state.get_f().get_pv(), 1);
    machine.step().unwrap(); // match at 0x0301: stops.
    assert_eq!(machine.pc_state.get_pc(), 2);
    assert_eq!(machine.pc_state.get_f().get_z(), 1);
    assert_eq!(machine.pc_state.get_f().get_pv(), 0);
    assert_eq!(machine.pc_state.get_bc(), 3);
}

#[test]
fn test_bit_set_reset_instructions() {
    // BIT 5,B with the bit clear sets Z; SET 5,B and RES 5,B flip it.
    let mut machine = machine_with_program(&[0xCB, 0x68, 0xCB, 0xE8, 0xCB, 0x68, 0xCB, 0xA8]);
    machine.pc_state.set_b(0x00);
    machine.step().unwrap(); // BIT 5,B
    assert_eq!(machine.pc_state.get_f().get_z(), 1);
    machine.step().unwrap(); // SET 5,B
    assert_eq!(machine.pc_state.get_b(), 0x20);
    machine.step().unwrap(); // BIT 5,B
    assert_eq!(machine.pc_state.get_f().get_z(), 0);
    machine.step().unwrap(); // RES 5,B
    assert_eq!(machine.pc_state.get_b(), 0x00);
}
