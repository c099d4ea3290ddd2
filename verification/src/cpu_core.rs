use crate::clocks::Clock;
use crate::clocks::cycles_after;
use crate::errors::CpuError;
use crate::instructions::Instruction;
use crate::interruptor::Interruptor;
use crate::memory::MemoryRW;
use crate::memory::PlainMemory;
use crate::memory::write2_ok;
use crate::pc_state::PcState;
use crate::pc_state::Reg16;
use crate::pc_state::wrap16;
use crate::ports::Device;
use crate::ports::Ports;
use crate::ports::any_pending;
use vstd::prelude::*;

verus! {

/// The fixed interrupt-mode-1 vector.
pub const IRQIM1ADDR: u16 = 0x38;

/// Bytes in the exported display buffer.
pub const DISPLAY_BUFFER_SIZE: usize = 0x30000;


/// Names one intermediate machine state — the cycle count, memory, register
/// file and device list an executed instruction left behind — so that the
/// step contract can quantify over the instruction's outcome.
pub open spec fn step_trace<M: MemoryRW, D: Device>(
    cycles: u64,
    memory: M,
    registers: PcState,
    devices: Seq<D>,
) -> bool {
    true
}

/// The execution engine: clock, memory, register file, port bus and
/// interrupt tracking, stepped one instruction at a time.
pub struct Core<M: MemoryRW, D: Device> {
    pub clock: Clock,
    pub memory: M,
    pub pc_state: PcState,
    pub ports: Ports<D>,
    pub interruptor: Interruptor,
    pub raw_display: Vec<u8>,
}

impl<M: MemoryRW, D: Device> Core<M, D> {
    /// The attached memory and devices are well formed.
    pub open spec fn inv(&self) -> bool {
        &&& self.memory.inv()
        &&& self.ports.inv()
    }

    pub fn new(
        clock: Clock,
        memory: M,
        pc_state: PcState,
        ports: Ports<D>,
        interruptor: Interruptor,
    ) -> (r: Self)
        requires
            memory.inv(),
            ports.inv(),
        ensures
            r.inv(),
            r.clock == clock,
            r.memory == memory,
            r.pc_state == pc_state,
            r.ports == ports,
            r.interruptor == interruptor,
            r.raw_display@.len() == DISPLAY_BUFFER_SIZE,
    {
        let mut raw_display: Vec<u8> = Vec::new();
        let mut i: usize = 0;
        while i < DISPLAY_BUFFER_SIZE
            invariant
                i <= DISPLAY_BUFFER_SIZE,
                raw_display@.len() == i,
            decreases DISPLAY_BUFFER_SIZE - i,
        {
            raw_display.push(0);
            i = i + 1;
        }
        Core { clock, memory, pc_state, ports, interruptor, raw_display }
    }

    /// Accept a maskable interrupt if the CPU is taking them: with IFF1 set
    /// and mode 1 selected, the current PC is pushed (high byte at SP-1,
    /// low byte at SP-2), PC jumps to the fixed vector 0x0038, and IFF1 is
    /// cleared so no further maskable interrupt is taken until EI.  Any
    /// other interrupt mode is unsupported and degrades to a no-op.
    pub fn interrupt(&mut self)
        requires
            old(self).inv(),
        ensures
            final(self).inv(),
            old(self).pc_state.iff1 && old(self).pc_state.im == 1 ==> ({
                &&& final(self).pc_state.pc_reg.word() == IRQIM1ADDR
                &&& final(self).pc_state.sp_reg.word() == wrap16(
                    old(self).pc_state.sp_reg.word() - 2,
                )
                &&& !final(self).pc_state.iff1
                &&& write2_ok(
                    old(self).memory,
                    (wrap16(old(self).pc_state.sp_reg.word() - 1) as u16),
                    old(self).pc_state.pc_reg.high,
                    (wrap16(old(self).pc_state.sp_reg.word() - 2) as u16),
                    old(self).pc_state.pc_reg.low,
                    final(self).memory,
                )
                &&& final(self).pc_state == (PcState {
                    pc_reg: final(self).pc_state.pc_reg,
                    sp_reg: final(self).pc_state.sp_reg,
                    iff1: false,
                    ..old(self).pc_state
                })
                &&& final(self).clock == old(self).clock
                &&& final(self).ports == old(self).ports
                &&& final(self).raw_display == old(self).raw_display
            }),
            !(old(self).pc_state.iff1 && old(self).pc_state.im == 1) ==> *final(self) == *old(
                self,
            ),
    {
        if self.pc_state.get_iff1() {
            if self.pc_state.get_im() == 1 {
                proof {
                    crate::pc_state::lemma_wrap16_add(old(self).pc_state.sp_reg.word() + -1, -1);
                }
                self.pc_state.increment_sp(-1);
                let high = self.pc_state.get_pc_high();
                self.memory.write(self.pc_state.get_sp(), high);
                self.pc_state.increment_sp(-1);
                let low = self.pc_state.get_pc_low();
                self.memory.write(self.pc_state.get_sp(), low);
                self.pc_state.set_pc(IRQIM1ADDR);
                self.pc_state.set_iff1(false);
            }
            // Other interrupt modes are not used by the emulated software;
            // the condition is advisory and the step continues.
        }
    }

    /// Let the attached devices export the current frame.
    pub fn export(&mut self) -> (r: bool)
        requires
            old(self).inv(),
        ensures
            final(self).inv(),
            final(self).ports.devices@ == old(self).ports.devices@,
            final(self).raw_display@.len() == old(self).raw_display@.len(),
            final(self).clock == old(self).clock,
            final(self).memory == old(self).memory,
            final(self).pc_state == old(self).pc_state,
            final(self).interruptor == old(self).interruptor,
    {
        self.ports.export(&mut self.raw_display)
    }

    /// Return the register file to its power-on state.
    pub fn reset(&mut self)
        requires
            old(self).inv(),
        ensures
            final(self).inv(),
            *final(self) == (Core { pc_state: PcState::initial(), ..*old(self) }),
    {
        self.pc_state = PcState::new();
    }

    /// Copy the current display frame into a caller-supplied buffer.
    pub fn generate_display(&self, buffer: &mut Vec<u8>)
        requires
            old(buffer)@.len() == self.raw_display@.len(),
        ensures
            final(buffer)@ == self.raw_display@,
    {
        let n: usize = self.raw_display.len();
        let mut i: usize = 0;
        while i < n
            invariant
                n == self.raw_display@.len(),
                buffer@.len() == n,
                0 <= i <= n,
                forall|j: int| 0 <= j < i ==> (#[trigger] buffer@[j]) == self.raw_display@[j],
            decreases n - i,
        {
            let byte = self.raw_display[i];
            buffer[i] = byte;
            i = i + 1;
        }
        proof {
            assert(buffer@ =~= self.raw_display@);
        }
    }

    /// One machine step: fetch the opcode at PC, advance PC, execute,
    /// poll the devices, and service a pending maskable interrupt.  On
    /// success there is an instruction boundary: a cycle count, memory,
    /// register file and device list the executed instruction left.  Every
    /// device is polled exactly once per step, at that boundary, and a
    /// pending interrupt is vectored there — after the instruction, never
    /// within it — exactly when IFF1 is set in mode 1.
    pub fn step(&mut self) -> (r: Result<(), CpuError>)
        requires
            old(self).inv(),
        ensures
            final(self).inv(),
            r is Ok ==> (exists|cm: u64, mm: M, sm: PcState, pm: Seq<D>|
                (#[trigger] step_trace(cm, mm, sm, pm)) && ({
                    &&& final(self).clock.cycles == cm
                    &&& final(self).ports.devices@.len() == pm.len()
                    &&& (forall|j: int|
                        0 <= j < pm.len() ==> (#[trigger] final(self).ports.devices@[j])
                            == pm[j].after_poll(cm))
                    &&& final(self).raw_display@.len() == old(self).raw_display@.len()
                    &&& if any_pending(pm, cm) && sm.iff1 && sm.im == 1 {
                        &&& final(self).pc_state.pc_reg.word() == IRQIM1ADDR
                        &&& final(self).pc_state.sp_reg.word() == wrap16(sm.sp_reg.word() - 2)
                        &&& !final(self).pc_state.iff1
                        &&& write2_ok(
                            mm,
                            (wrap16(sm.sp_reg.word() - 1) as u16),
                            sm.pc_reg.high,
                            (wrap16(sm.sp_reg.word() - 2) as u16),
                            sm.pc_reg.low,
                            final(self).memory,
                        )
                        &&& final(self).pc_state == (PcState {
                            pc_reg: final(self).pc_state.pc_reg,
                            sp_reg: final(self).pc_state.sp_reg,
                            iff1: false,
                            ..sm
                        })
                    } else {
                        &&& final(self).pc_state == sm
                        &&& final(self).memory == mm
                    }
                })),
            ({
                let op = old(self).memory.mem()[old(self).pc_state.pc_reg.word()];
                let polled = any_pending(
                    old(self).ports.devices@,
                    (cycles_after(old(self).clock.cycles, 4) as u64),
                );
                &&& (op == 0x00 && !polled ==> ({
                    &&& r is Ok
                    &&& final(self).clock.cycles == cycles_after(old(self).clock.cycles, 4)
                    &&& final(self).pc_state.pc_reg.word() == wrap16(
                        old(self).pc_state.pc_reg.word() + 1,
                    )
                    &&& final(self).pc_state == (PcState {
                        pc_reg: final(self).pc_state.pc_reg,
                        ..old(self).pc_state
                    })
                    &&& final(self).memory == old(self).memory
                }))
                &&& (op == 0x00 && polled && old(self).pc_state.iff1 && old(self).pc_state.im == 1
                    ==> ({
                    &&& r is Ok
                    &&& final(self).clock.cycles == cycles_after(old(self).clock.cycles, 4)
                    &&& final(self).pc_state.pc_reg.word() == IRQIM1ADDR
                    &&& final(self).pc_state.sp_reg.word() == wrap16(
                        old(self).pc_state.sp_reg.word() - 2,
                    )
                    &&& !final(self).pc_state.iff1
                    &&& write2_ok(
                        old(self).memory,
                        (wrap16(old(self).pc_state.sp_reg.word() - 1) as u16),
                        crate::pc_state::hi((wrap16(old(self).pc_state.pc_reg.word() + 1) as u16)),
                        (wrap16(old(self).pc_state.sp_reg.word() - 2) as u16),
                        crate::pc_state::lo((wrap16(old(self).pc_state.pc_reg.word() + 1) as u16)),
                        final(self).memory,
                    )
                }))
            }),
    {
        let current_cycles = self.clock.cycles;
        self.interruptor.set_cycle(current_cycles);

        let op_code = self.memory.read(self.pc_state.get_pc());
        self.pc_state.increment_pc(1);
        proof {
            crate::pc_state::lemma_reg16_bytes(self.pc_state.pc_reg);
        }
        let result = Instruction::execute(
            op_code,
            &mut self.clock,
            &mut self.memory,
            &mut self.pc_state,
            &mut self.ports,
            &mut self.interruptor,
        );
        match result {
            Result::Ok(()) => {},
            Result::Err(fault) => {
                return Err(fault);
            },
        }
        let ghost boundary_cycles = self.clock.cycles;
        let ghost boundary_memory = self.memory;
        let ghost boundary_registers = self.pc_state;
        let ghost boundary_devices = self.ports.devices@;
        proof {
            assert(step_trace(
                boundary_cycles,
                boundary_memory,
                boundary_registers,
                boundary_devices,
            ));
        }
        let pending = self.ports.poll_interrupts(&mut self.raw_display, &self.clock);
        if pending {
            self.interrupt();
        }
        Ok(())
    }
}


/// Interrupt vectoring law: servicing a mode-1 interrupt leaves the
/// interrupted PC on the stack, its low byte at the post-decrement stack
/// pointer and its high byte just above.  `m1` is the memory the service
/// push leaves behind when the stack pointer stood at `sp`.
pub proof fn lemma_interrupt_stack_frame(m0: PlainMemory, m1: PlainMemory, pc: Reg16, sp: int)
    requires
        m0.inv(),
        0 <= sp < 0x10000,
        write2_ok(
            m0,
            (wrap16(sp - 1) as u16),
            pc.high,
            (wrap16(sp - 2) as u16),
            pc.low,
            m1,
        ),
    ensures
        m1.mem()[wrap16(sp - 2)] == pc.low,
        m1.mem()[wrap16(wrap16(sp - 2) + 1)] == pc.high,
{
    crate::instruction_set::lemma_push_pop_roundtrip(m0, m1, pc, sp);
}

} // verus!
