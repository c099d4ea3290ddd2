use vstd::prelude::*;

verus! {

/// Value of `v` reduced into the 16-bit register range; register arithmetic
/// wraps modulo 65536, never failing.
pub open spec fn wrap16(v: int) -> int {
    v % 0x10000
}

/// Low byte of a 16-bit value.
pub open spec fn lo(v: u16) -> u8 {
    (v % 256) as u8
}

/// High byte of a 16-bit value.
pub open spec fn hi(v: u16) -> u8 {
    (v / 256) as u8
}

/// One 16-bit register pair, addressable as a whole or as two 8-bit halves.
#[derive(Clone, Copy)]
pub struct Reg16 {
    pub low: u8,
    pub high: u8,
}

impl Reg16 {
    /// The 16-bit value held by the pair.
    pub open spec fn word(self) -> int {
        self.low + 256 * self.high
    }

    /// The same value with `u16` type, for positions that want one.
    pub open spec fn value16(self) -> u16 {
        (self.low + 256 * self.high) as u16
    }

    pub fn new() -> (r: Self)
        ensures
            r.low == 0,
            r.high == 0,
    {
        Self { low: 0, high: 0 }
    }

    pub fn get(&self) -> (r: u16)
        ensures
            r == self.word(),
    {
        self.low as u16 + self.high as u16 * 256
    }

    pub fn set(&mut self, v: u16)
        ensures
            final(self).low == lo(v),
            final(self).high == hi(v),
            final(self).word() == v,
    {
        self.low = (v % 256) as u8;
        self.high = (v / 256) as u8;
    }

    pub fn get_low(&self) -> (r: u8)
        ensures
            r == self.low,
    {
        self.low
    }

    pub fn get_high(&self) -> (r: u8)
        ensures
            r == self.high,
    {
        self.high
    }

    pub fn set_low(&mut self, v: u8)
        ensures
            *final(self) == (Reg16 { low: v, ..*old(self) }),
    {
        self.low = v;
    }

    pub fn set_high(&mut self, v: u8)
        ensures
            *final(self) == (Reg16 { high: v, ..*old(self) }),
    {
        self.high = v;
    }

    /// The status flags held in the low byte of this pair (meaningful for AF).
    pub open spec fn flags(self) -> PcStatusFlagFields {
        PcStatusFlagFields(self.low)
    }

    pub fn get_flags(&self) -> (r: PcStatusFlagFields)
        ensures
            r == self.flags(),
    {
        PcStatusFlagFields(self.low)
    }

    pub fn set_flags(&mut self, v: &PcStatusFlagFields)
        ensures
            *final(self) == (Reg16 { low: v.0, ..*old(self) }),
    {
        self.low = v.0;
    }
}

/// A `Reg16` holding the given 16-bit value.
pub open spec fn reg16_of(v: u16) -> Reg16 {
    Reg16 { low: lo(v), high: hi(v) }
}

/// Signed value of a displacement byte.
pub open spec fn as_i8(v: u8) -> int {
    if v < 128 {
        v as int
    } else {
        v - 256
    }
}

/// Reducing an already-reduced value shifted by `d` is one reduction.
pub proof fn lemma_wrap16_add(v: int, d: int)
    ensures
        wrap16(wrap16(v) + d) == wrap16(v + d),
{
    vstd::arithmetic::div_mod::lemma_add_mod_noop_right(d, v, 0x10000);
}

/// A pair's bytes are exactly the low and high bytes of its 16-bit value.
pub proof fn lemma_reg16_bytes(r: Reg16)
    ensures
        r.value16() == r.word(),
        r.low == lo(r.value16()),
        r.high == hi(r.value16()),
{
    vstd::arithmetic::div_mod::lemma_fundamental_div_mod_converse(
        r.low + 256 * r.high,
        256,
        r.high as int,
        r.low as int,
    );
}

/// The six Z80 status flags, packed as on hardware into one byte:
/// bit 0 carry, bit 1 negate, bit 2 parity/overflow, bit 4 half-carry,
/// bit 6 zero, bit 7 sign.  Bits 3 and 5 are unused but preserved.
#[derive(Clone, Copy)]
pub struct PcStatusFlagFields(pub u8);

impl PcStatusFlagFields {
    pub open spec fn c(self) -> u8 {
        self.0 & 1
    }

    pub open spec fn n(self) -> u8 {
        (self.0 >> 1) & 1
    }

    pub open spec fn pv(self) -> u8 {
        (self.0 >> 2) & 1
    }

    pub open spec fn b3(self) -> u8 {
        (self.0 >> 3) & 1
    }

    pub open spec fn h(self) -> u8 {
        (self.0 >> 4) & 1
    }

    pub open spec fn b5(self) -> u8 {
        (self.0 >> 5) & 1
    }

    pub open spec fn z(self) -> u8 {
        (self.0 >> 6) & 1
    }

    pub open spec fn s(self) -> u8 {
        (self.0 >> 7) & 1
    }

    pub fn get_c(&self) -> (r: u8)
        ensures
            r == self.c(),
            r == 0 || r == 1,
    {
        let f: u8 = self.0;
        let r: u8 = f & 1;
        assert(r == 0 || r == 1) by (bit_vector)
            requires
                r == f & 1,
        ;
        r
    }

    pub fn get_n(&self) -> (r: u8)
        ensures
            r == self.n(),
            r == 0 || r == 1,
    {
        let f: u8 = self.0;
        let r: u8 = (f >> 1) & 1;
        assert(r == 0 || r == 1) by (bit_vector)
            requires
                r == (f >> 1) & 1,
        ;
        r
    }

    pub fn get_pv(&self) -> (r: u8)
        ensures
            r == self.pv(),
            r == 0 || r == 1,
    {
        let f: u8 = self.0;
        let r: u8 = (f >> 2) & 1;
        assert(r == 0 || r == 1) by (bit_vector)
            requires
                r == (f >> 2) & 1,
        ;
        r
    }

    pub fn get_h(&self) -> (r: u8)
        ensures
            r == self.h(),
            r == 0 || r == 1,
    {
        let f: u8 = self.0;
        let r: u8 = (f >> 4) & 1;
        assert(r == 0 || r == 1) by (bit_vector)
            requires
                r == (f >> 4) & 1,
        ;
        r
    }

    pub fn get_z(&self) -> (r: u8)
        ensures
            r == self.z(),
            r == 0 || r == 1,
    {
        let f: u8 = self.0;
        let r: u8 = (f >> 6) & 1;
        assert(r == 0 || r == 1) by (bit_vector)
            requires
                r == (f >> 6) & 1,
        ;
        r
    }

    pub fn get_s(&self) -> (r: u8)
        ensures
            r == self.s(),
            r == 0 || r == 1,
    {
        let f: u8 = self.0;
        let r: u8 = (f >> 7) & 1;
        assert(r == 0 || r == 1) by (bit_vector)
            requires
                r == (f >> 7) & 1,
        ;
        r
    }

    pub fn set_c(&mut self, v: u8)
        requires
            v == 0 || v == 1,
        ensures
            final(self).c() == v,
            final(self).n() == old(self).n(),
            final(self).pv() == old(self).pv(),
            final(self).b3() == old(self).b3(),
            final(self).h() == old(self).h(),
            final(self).b5() == old(self).b5(),
            final(self).z() == old(self).z(),
            final(self).s() == old(self).s(),
    {
        let f: u8 = self.0;
        let r: u8 = (f & 0xFE) | (v & 1);
        assert((r & 1 == v) && ((r >> 1) & 1 == (f >> 1) & 1) && ((r >> 2) & 1 == (f >> 2)
            & 1) && ((r >> 3) & 1 == (f >> 3) & 1) && ((r >> 4) & 1 == (f >> 4) & 1) && ((r >> 5)
            & 1 == (f >> 5) & 1) && ((r >> 6) & 1 == (f >> 6) & 1) && ((r >> 7) & 1 == (f >> 7)
            & 1)) by (bit_vector)
            requires
                v == 0 || v == 1,
                r == (f & 0xFE) | (v & 1),
        ;
        self.0 = r;
    }

    pub fn set_n(&mut self, v: u8)
        requires
            v == 0 || v == 1,
        ensures
            final(self).n() == v,
            final(self).c() == old(self).c(),
            final(self).pv() == old(self).pv(),
            final(self).b3() == old(self).b3(),
            final(self).h() == old(self).h(),
            final(self).b5() == old(self).b5(),
            final(self).z() == old(self).z(),
            final(self).s() == old(self).s(),
    {
        let f: u8 = self.0;
        let r: u8 = (f & 0xFD) | ((v & 1) << 1);
        assert(((r >> 1) & 1 == v) && (r & 1 == f & 1) && ((r >> 2) & 1 == (f >> 2) & 1) && ((
        r >> 3) & 1 == (f >> 3) & 1) && ((r >> 4) & 1 == (f >> 4) & 1) && ((r >> 5) & 1 == (f >> 5)
            & 1) && ((r >> 6) & 1 == (f >> 6) & 1) && ((r >> 7) & 1 == (f >> 7) & 1)) by (bit_vector)
            requires
                v == 0 || v == 1,
                r == (f & 0xFD) | ((v & 1) << 1),
        ;
        self.0 = r;
    }

    pub fn set_pv(&mut self, v: u8)
        requires
            v == 0 || v == 1,
        ensures
            final(self).pv() == v,
            final(self).c() == old(self).c(),
            final(self).n() == old(self).n(),
            final(self).b3() == old(self).b3(),
            final(self).h() == old(self).h(),
            final(self).b5() == old(self).b5(),
            final(self).z() == old(self).z(),
            final(self).s() == old(self).s(),
    {
        let f: u8 = self.0;
        let r: u8 = (f & 0xFB) | ((v & 1) << 2);
        assert(((r >> 2) & 1 == v) && (r & 1 == f & 1) && ((r >> 1) & 1 == (f >> 1) & 1) && ((
        r >> 3) & 1 == (f >> 3) & 1) && ((r >> 4) & 1 == (f >> 4) & 1) && ((r >> 5) & 1 == (f >> 5)
            & 1) && ((r >> 6) & 1 == (f >> 6) & 1) && ((r >> 7) & 1 == (f >> 7) & 1)) by (bit_vector)
            requires
                v == 0 || v == 1,
                r == (f & 0xFB) | ((v & 1) << 2),
        ;
        self.0 = r;
    }

    pub fn set_h(&mut self, v: u8)
        requires
            v == 0 || v == 1,
        ensures
            final(self).h() == v,
            final(self).c() == old(self).c(),
            final(self).n() == old(self).n(),
            final(self).pv() == old(self).pv(),
            final(self).b3() == old(self).b3(),
            final(self).b5() == old(self).b5(),
            final(self).z() == old(self).z(),
            final(self).s() == old(self).s(),
    {
        let f: u8 = self.0;
        let r: u8 = (f & 0xEF) | ((v & 1) << 4);
        assert(((r >> 4) & 1 == v) && (r & 1 == f & 1) && ((r >> 1) & 1 == (f >> 1) & 1) && ((
        r >> 2) & 1 == (f >> 2) & 1) && ((r >> 3) & 1 == (f >> 3) & 1) && ((r >> 5) & 1 == (f >> 5)
            & 1) && ((r >> 6) & 1 == (f >> 6) & 1) && ((r >> 7) & 1 == (f >> 7) & 1)) by (bit_vector)
            requires
                v == 0 || v == 1,
                r == (f & 0xEF) | ((v & 1) << 4),
        ;
        self.0 = r;
    }

    pub fn set_z(&mut self, v: u8)
        requires
            v == 0 || v == 1,
        ensures
            final(self).z() == v,
            final(self).c() == old(self).c(),
            final(self).n() == old(self).n(),
            final(self).pv() == old(self).pv(),
            final(self).b3() == old(self).b3(),
            final(self).h() == old(self).h(),
            final(self).b5() == old(self).b5(),
            final(self).s() == old(self).s(),
    {
        let f: u8 = self.0;
        let r: u8 = (f & 0xBF) | ((v & 1) << 6);
        assert(((r >> 6) & 1 == v) && (r & 1 == f & 1) && ((r >> 1) & 1 == (f >> 1) & 1) && ((
        r >> 2) & 1 == (f >> 2) & 1) && ((r >> 3) & 1 == (f >> 3) & 1) && ((r >> 4) & 1 == (f >> 4)
            & 1) && ((r >> 5) & 1 == (f >> 5) & 1) && ((r >> 7) & 1 == (f >> 7) & 1)) by (bit_vector)
            requires
                v == 0 || v == 1,
                r == (f & 0xBF) | ((v & 1) << 6),
        ;
        self.0 = r;
    }

    pub fn set_s(&mut self, v: u8)
        requires
            v == 0 || v == 1,
        ensures
            final(self).s() == v,
            final(self).c() == old(self).c(),
            final(self).n() == old(self).n(),
            final(self).pv() == old(self).pv(),
            final(self).b3() == old(self).b3(),
            final(self).h() == old(self).h(),
            final(self).b5() == old(self).b5(),
            final(self).z() == old(self).z(),
    {
        let f: u8 = self.0;
        let r: u8 = (f & 0x7F) | ((v & 1) << 7);
        assert(((r >> 7) & 1 == v) && (r & 1 == f & 1) && ((r >> 1) & 1 == (f >> 1) & 1) && ((
        r >> 2) & 1 == (f >> 2) & 1) && ((r >> 3) & 1 == (f >> 3) & 1) && ((r >> 4) & 1 == (f >> 4)
            & 1) && ((r >> 5) & 1 == (f >> 5) & 1) && ((r >> 6) & 1 == (f >> 6) & 1)) by (bit_vector)
            requires
                v == 0 || v == 1,
                r == (f & 0x7F) | ((v & 1) << 7),
        ;
        self.0 = r;
    }
}

/// The two displacement-addressing index registers IX and IY.
#[derive(Clone, Copy)]
pub struct IndexRegisters {
    pub ix_reg: Reg16,
    pub iy_reg: Reg16,
}

/// The full CPU-visible register file: the four general pairs and their
/// shadows, the index registers, stack pointer, program counter, the
/// interrupt-vector and refresh registers, the interrupt flip-flops and the
/// interrupt mode.
#[derive(Clone, Copy)]
pub struct PcState {
    pub af_reg: Reg16,
    pub bc_reg: Reg16,
    pub de_reg: Reg16,
    pub hl_reg: Reg16,
    pub shadow_af_reg: Reg16,
    pub shadow_bc_reg: Reg16,
    pub shadow_de_reg: Reg16,
    pub shadow_hl_reg: Reg16,
    pub index_registers: IndexRegisters,
    pub sp_reg: Reg16,
    pub pc_reg: Reg16,
    pub i_reg: u8,
    pub r_reg: u8,
    pub iff1: bool,
    pub iff2: bool,
    pub im: u8,
}

impl PcState {
    /// Power-on register file: everything zero.
    pub open spec fn initial() -> PcState {
        PcState {
            af_reg: Reg16 { low: 0, high: 0 },
            bc_reg: Reg16 { low: 0, high: 0 },
            de_reg: Reg16 { low: 0, high: 0 },
            hl_reg: Reg16 { low: 0, high: 0 },
            shadow_af_reg: Reg16 { low: 0, high: 0 },
            shadow_bc_reg: Reg16 { low: 0, high: 0 },
            shadow_de_reg: Reg16 { low: 0, high: 0 },
            shadow_hl_reg: Reg16 { low: 0, high: 0 },
            index_registers: IndexRegisters {
                ix_reg: Reg16 { low: 0, high: 0 },
                iy_reg: Reg16 { low: 0, high: 0 },
            },
            sp_reg: Reg16 { low: 0, high: 0 },
            pc_reg: Reg16 { low: 0, high: 0 },
            i_reg: 0,
            r_reg: 0,
            iff1: false,
            iff2: false,
            im: 0,
        }
    }

    pub fn new() -> (r: Self)
        ensures
            r == PcState::initial(),
    {
        let zero = Reg16 { low: 0, high: 0 };
        PcState {
            af_reg: zero,
            bc_reg: zero,
            de_reg: zero,
            hl_reg: zero,
            shadow_af_reg: zero,
            shadow_bc_reg: zero,
            shadow_de_reg: zero,
            shadow_hl_reg: zero,
            index_registers: IndexRegisters { ix_reg: zero, iy_reg: zero },
            sp_reg: zero,
            pc_reg: zero,
            i_reg: 0,
            r_reg: 0,
            iff1: false,
            iff2: false,
            im: 0,
        }
    }

    // 8-bit accessors.

    pub fn get_a(&self) -> (r: u8)
        ensures
            r == self.af_reg.high,
    {
        self.af_reg.high
    }

    pub fn set_a(&mut self, v: u8)
        ensures
            *final(self) == (PcState {
                af_reg: Reg16 { high: v, ..old(self).af_reg },
                ..*old(self)
            }),
    {
        self.af_reg.high = v;
    }

    pub fn get_f(&self) -> (r: PcStatusFlagFields)
        ensures
            r.0 == self.af_reg.low,
    {
        PcStatusFlagFields(self.af_reg.low)
    }

    pub fn set_f(&mut self, v: PcStatusFlagFields)
        ensures
            *final(self) == (PcState {
                af_reg: Reg16 { low: v.0, ..old(self).af_reg },
                ..*old(self)
            }),
    {
        self.af_reg.low = v.0;
    }

    pub fn get_b(&self) -> (r: u8)
        ensures
            r == self.bc_reg.high,
    {
        self.bc_reg.high
    }

    pub fn set_b(&mut self, v: u8)
        ensures
            *final(self) == (PcState {
                bc_reg: Reg16 { high: v, ..old(self).bc_reg },
                ..*old(self)
            }),
    {
        self.bc_reg.high = v;
    }

    pub fn get_c(&self) -> (r: u8)
        ensures
            r == self.bc_reg.low,
    {
        self.bc_reg.low
    }

    pub fn set_c(&mut self, v: u8)
        ensures
            *final(self) == (PcState {
                bc_reg: Reg16 { low: v, ..old(self).bc_reg },
                ..*old(self)
            }),
    {
        self.bc_reg.low = v;
    }

    pub fn get_d(&self) -> (r: u8)
        ensures
            r == self.de_reg.high,
    {
        self.de_reg.high
    }

    pub fn set_d(&mut self, v: u8)
        ensures
            *final(self) == (PcState {
                de_reg: Reg16 { high: v, ..old(self).de_reg },
                ..*old(self)
            }),
    {
        self.de_reg.high = v;
    }

    pub fn get_e(&self) -> (r: u8)
        ensures
            r == self.de_reg.low,
    {
        self.de_reg.low
    }

    pub fn set_e(&mut self, v: u8)
        ensures
            *final(self) == (PcState {
                de_reg: Reg16 { low: v, ..old(self).de_reg },
                ..*old(self)
            }),
    {
        self.de_reg.low = v;
    }

    pub fn get_h(&self) -> (r: u8)
        ensures
            r == self.hl_reg.high,
    {
        self.hl_reg.high
    }

    pub fn set_h(&mut self, v: u8)
        ensures
            *final(self) == (PcState {
                hl_reg: Reg16 { high: v, ..old(self).hl_reg },
                ..*old(self)
            }),
    {
        self.hl_reg.high = v;
    }

    pub fn get_l(&self) -> (r: u8)
        ensures
            r == self.hl_reg.low,
    {
        self.hl_reg.low
    }

    pub fn set_l(&mut self, v: u8)
        ensures
            *final(self) == (PcState {
                hl_reg: Reg16 { low: v, ..old(self).hl_reg },
                ..*old(self)
            }),
    {
        self.hl_reg.low = v;
    }

    // 16-bit accessors.

    pub fn get_af(&self) -> (r: u16)
        ensures
            r == self.af_reg.word(),
    {
        self.af_reg.get()
    }

    pub fn set_af(&mut self, v: u16)
        ensures
            final(self).af_reg.word() == v,
            *final(self) == (PcState { af_reg: final(self).af_reg, ..*old(self) }),
    {
        self.af_reg.set(v);
    }

    pub fn get_bc(&self) -> (r: u16)
        ensures
            r == self.bc_reg.word(),
    {
        self.bc_reg.get()
    }

    pub fn set_bc(&mut self, v: u16)
        ensures
            final(self).bc_reg.word() == v,
            *final(self) == (PcState { bc_reg: final(self).bc_reg, ..*old(self) }),
    {
        self.bc_reg.set(v);
    }

    pub fn get_de(&self) -> (r: u16)
        ensures
            r == self.de_reg.word(),
    {
        self.de_reg.get()
    }

    pub fn set_de(&mut self, v: u16)
        ensures
            final(self).de_reg.word() == v,
            *final(self) == (PcState { de_reg: final(self).de_reg, ..*old(self) }),
    {
        self.de_reg.set(v);
    }

    pub fn get_hl(&self) -> (r: u16)
        ensures
            r == self.hl_reg.word(),
    {
        self.hl_reg.get()
    }

    pub fn set_hl(&mut self, v: u16)
        ensures
            final(self).hl_reg.word() == v,
            *final(self) == (PcState { hl_reg: final(self).hl_reg, ..*old(self) }),
    {
        self.hl_reg.set(v);
    }

    pub fn get_sp(&self) -> (r: u16)
        ensures
            r == self.sp_reg.word(),
    {
        self.sp_reg.get()
    }

    pub fn set_sp(&mut self, v: u16)
        ensures
            final(self).sp_reg.word() == v,
            *final(self) == (PcState { sp_reg: final(self).sp_reg, ..*old(self) }),
    {
        self.sp_reg.set(v);
    }

    pub fn get_pc(&self) -> (r: u16)
        ensures
            r == self.pc_reg.word(),
    {
        self.pc_reg.get()
    }

    pub fn set_pc(&mut self, v: u16)
        ensures
            final(self).pc_reg.word() == v,
            *final(self) == (PcState { pc_reg: final(self).pc_reg, ..*old(self) }),
    {
        self.pc_reg.set(v);
    }

    pub fn get_pc_high(&self) -> (r: u8)
        ensures
            r == self.pc_reg.high,
    {
        self.pc_reg.high
    }

    pub fn get_pc_low(&self) -> (r: u8)
        ensures
            r == self.pc_reg.low,
    {
        self.pc_reg.low
    }

    pub fn set_pc_high(&mut self, v: u8)
        ensures
            *final(self) == (PcState {
                pc_reg: Reg16 { high: v, ..old(self).pc_reg },
                ..*old(self)
            }),
    {
        self.pc_reg.high = v;
    }

    pub fn set_pc_low(&mut self, v: u8)
        ensures
            *final(self) == (PcState {
                pc_reg: Reg16 { low: v, ..old(self).pc_reg },
                ..*old(self)
            }),
    {
        self.pc_reg.low = v;
    }

    // Interrupt and refresh registers.

    pub fn get_i(&self) -> (r: u8)
        ensures
            r == self.i_reg,
    {
        self.i_reg
    }

    pub fn set_i(&mut self, v: u8)
        ensures
            *final(self) == (PcState { i_reg: v, ..*old(self) }),
    {
        self.i_reg = v;
    }

    pub fn get_r(&self) -> (r: u8)
        ensures
            r == self.r_reg,
    {
        self.r_reg
    }

    pub fn set_r(&mut self, v: u8)
        ensures
            *final(self) == (PcState { r_reg: v, ..*old(self) }),
    {
        self.r_reg = v;
    }

    pub fn get_iff1(&self) -> (r: bool)
        ensures
            r == self.iff1,
    {
        self.iff1
    }

    pub fn set_iff1(&mut self, v: bool)
        ensures
            *final(self) == (PcState { iff1: v, ..*old(self) }),
    {
        self.iff1 = v;
    }

    pub fn get_iff2(&self) -> (r: bool)
        ensures
            r == self.iff2,
    {
        self.iff2
    }

    pub fn set_iff2(&mut self, v: bool)
        ensures
            *final(self) == (PcState { iff2: v, ..*old(self) }),
    {
        self.iff2 = v;
    }

    pub fn get_im(&self) -> (r: u8)
        ensures
            r == self.im,
    {
        self.im
    }

    pub fn set_im(&mut self, v: u8)
        ensures
            *final(self) == (PcState { im: v, ..*old(self) }),
    {
        self.im = v;
    }

    // Wrapping increments.

    /// Advance any 16-bit register by a signed amount, wrapping modulo 65536.
    pub fn increment_reg(reg: &mut Reg16, d: i8)
        ensures
            final(reg).word() == wrap16(old(reg).word() + d),
    {
        let w: u16 = reg.get();
        let r: u16 = w.wrapping_add_signed(d as i16);
        assert(r == wrap16(w + d)) by {
            assert(wrap16(w + d) == if w + d < 0 {
                w + d + 0x10000
            } else if w + d > 0xFFFF {
                w + d - 0x10000
            } else {
                w + d
            });
        };
        reg.set(r);
    }

    pub fn increment_pc(&mut self, d: i8)
        ensures
            final(self).pc_reg.word() == wrap16(old(self).pc_reg.word() + d),
            *final(self) == (PcState { pc_reg: final(self).pc_reg, ..*old(self) }),
    {
        PcState::increment_reg(&mut self.pc_reg, d);
    }

    pub fn increment_sp(&mut self, d: i8)
        ensures
            final(self).sp_reg.word() == wrap16(old(self).sp_reg.word() + d),
            *final(self) == (PcState { sp_reg: final(self).sp_reg, ..*old(self) }),
    {
        PcState::increment_reg(&mut self.sp_reg, d);
    }

    /// The status flags, held in the low byte of AF.
    pub open spec fn f(self) -> PcStatusFlagFields {
        PcStatusFlagFields(self.af_reg.low)
    }

    // Selector-based access, used by opcode classes that parametrize over a
    // register field in the opcode.

    /// The value of the selected 8-bit register.
    pub open spec fn sel8(self, r: Reg8Sel) -> u8 {
        match r {
            Reg8Sel::B => self.bc_reg.high,
            Reg8Sel::C => self.bc_reg.low,
            Reg8Sel::D => self.de_reg.high,
            Reg8Sel::E => self.de_reg.low,
            Reg8Sel::H => self.hl_reg.high,
            Reg8Sel::L => self.hl_reg.low,
            Reg8Sel::A => self.af_reg.high,
        }
    }

    /// This state with the selected 8-bit register replaced.
    pub open spec fn with8(self, r: Reg8Sel, v: u8) -> PcState {
        match r {
            Reg8Sel::B => PcState { bc_reg: Reg16 { high: v, ..self.bc_reg }, ..self },
            Reg8Sel::C => PcState { bc_reg: Reg16 { low: v, ..self.bc_reg }, ..self },
            Reg8Sel::D => PcState { de_reg: Reg16 { high: v, ..self.de_reg }, ..self },
            Reg8Sel::E => PcState { de_reg: Reg16 { low: v, ..self.de_reg }, ..self },
            Reg8Sel::H => PcState { hl_reg: Reg16 { high: v, ..self.hl_reg }, ..self },
            Reg8Sel::L => PcState { hl_reg: Reg16 { low: v, ..self.hl_reg }, ..self },
            Reg8Sel::A => PcState { af_reg: Reg16 { high: v, ..self.af_reg }, ..self },
        }
    }

    pub fn get_8(&self, r: Reg8Sel) -> (v: u8)
        ensures
            v == self.sel8(r),
    {
        match r {
            Reg8Sel::B => self.bc_reg.high,
            Reg8Sel::C => self.bc_reg.low,
            Reg8Sel::D => self.de_reg.high,
            Reg8Sel::E => self.de_reg.low,
            Reg8Sel::H => self.hl_reg.high,
            Reg8Sel::L => self.hl_reg.low,
            Reg8Sel::A => self.af_reg.high,
        }
    }

    pub fn set_8(&mut self, r: Reg8Sel, v: u8)
        ensures
            *final(self) == old(self).with8(r, v),
    {
        match r {
            Reg8Sel::B => self.bc_reg.high = v,
            Reg8Sel::C => self.bc_reg.low = v,
            Reg8Sel::D => self.de_reg.high = v,
            Reg8Sel::E => self.de_reg.low = v,
            Reg8Sel::H => self.hl_reg.high = v,
            Reg8Sel::L => self.hl_reg.low = v,
            Reg8Sel::A => self.af_reg.high = v,
        }
    }

    /// The value of the selected 16-bit register pair.
    pub open spec fn sel16(self, r: Reg16Sel) -> int {
        match r {
            Reg16Sel::BC => self.bc_reg.word(),
            Reg16Sel::DE => self.de_reg.word(),
            Reg16Sel::HL => self.hl_reg.word(),
            Reg16Sel::SP => self.sp_reg.word(),
        }
    }

    /// This state with the selected 16-bit register pair replaced.
    pub open spec fn with16(self, r: Reg16Sel, v: u16) -> PcState {
        match r {
            Reg16Sel::BC => PcState { bc_reg: reg16_of(v), ..self },
            Reg16Sel::DE => PcState { de_reg: reg16_of(v), ..self },
            Reg16Sel::HL => PcState { hl_reg: reg16_of(v), ..self },
            Reg16Sel::SP => PcState { sp_reg: reg16_of(v), ..self },
        }
    }

    pub fn get_16(&self, r: Reg16Sel) -> (v: u16)
        ensures
            v == self.sel16(r),
    {
        match r {
            Reg16Sel::BC => self.bc_reg.get(),
            Reg16Sel::DE => self.de_reg.get(),
            Reg16Sel::HL => self.hl_reg.get(),
            Reg16Sel::SP => self.sp_reg.get(),
        }
    }

    pub fn set_16(&mut self, r: Reg16Sel, v: u16)
        ensures
            *final(self) == old(self).with16(r, v),
            final(self).sel16(r) == v,
    {
        match r {
            Reg16Sel::BC => self.bc_reg.set(v),
            Reg16Sel::DE => self.de_reg.set(v),
            Reg16Sel::HL => self.hl_reg.set(v),
            Reg16Sel::SP => self.sp_reg.set(v),
        }
    }
}

/// Names the 8-bit register slots that a three-bit opcode field can select;
/// the reserved field value for memory-indirect forms has no name here.
#[derive(Clone, Copy, PartialEq, Eq, Structural)]
pub enum Reg8Sel {
    B,
    C,
    D,
    E,
    H,
    L,
    A,
}

/// Names the 16-bit registers that a two-bit opcode field selects in the
/// instruction classes that use the {BC, DE, HL, SP} set.
#[derive(Clone, Copy, PartialEq, Eq, Structural)]
pub enum Reg16Sel {
    BC,
    DE,
    HL,
    SP,
}

} // verus!
