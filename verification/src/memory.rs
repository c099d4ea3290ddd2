use crate::cartridge::Cartridge;
use crate::pc_state::wrap16;
use vstd::prelude::*;

verus! {

/// The 16-bit value read little-endian from a 64 KiB byte space: low byte at
/// `address`, high byte at the next (wrapping) address.
pub open spec fn word_in(mem: Seq<u8>, address: int) -> int {
    mem[address] + 256 * mem[wrap16(address + 1)]
}

/// Relation between memory states across two consecutive writes.
pub open spec fn write2_ok<M: MemoryRW>(
    pre: M,
    a1: u16,
    d1: u8,
    a2: u16,
    d2: u8,
    post: M,
) -> bool {
    exists|mid: M| (#[trigger] M::write_ok(pre, a1, d1, mid)) && M::write_ok(mid, a2, d2, post)
}

/// The memory capability the CPU reads and writes through: a 64 KiB logical
/// byte space.  `mem` is that space; `write_ok` relates the states before and
/// after one write, which an implementation may interpret (the banked
/// translator turns writes to the bank-select addresses into remappings).
pub trait MemoryRW: Sized {
    /// Well-formedness of the implementation's internal state.
    spec fn inv(&self) -> bool;

    /// The 64 KiB logical byte space currently visible to the CPU.
    spec fn mem(&self) -> Seq<u8>;

    /// How one write transforms the implementation's state.
    spec fn write_ok(pre: Self, address: u16, data: u8, post: Self) -> bool;

    fn read(&self, address: u16) -> (r: u8)
        requires
            self.inv(),
        ensures
            r == self.mem()[address as int],
    ;

    /// Little-endian 16-bit read: low byte at `address`, high byte at the
    /// next (wrapping) address.
    fn read16(&self, address: u16) -> (r: u16)
        requires
            self.inv(),
        ensures
            r == word_in(self.mem(), address as int),
    ;

    fn write(&mut self, address: u16, data: u8)
        requires
            old(self).inv(),
        ensures
            final(self).inv(),
            Self::write_ok(*old(self), address, data, *final(self)),
    ;
}

/// A flat 64 KiB memory with no mapping: every address holds exactly the
/// byte last written to it.  Serves as the plain concrete implementation of
/// the memory capability.
pub struct PlainMemory {
    pub data: Vec<u8>,
}

impl PlainMemory {
    /// A zero-filled 64 KiB space.
    pub fn new() -> (r: Self)
        ensures
            r.inv(),
            r.mem() == Seq::<u8>::new(0x10000, |i: int| 0u8),
    {
        let mut data: Vec<u8> = Vec::new();
        let mut i: usize = 0;
        while i < 0x10000
            invariant
                i <= 0x10000,
                data@.len() == i,
                data@ == Seq::<u8>::new(i as nat, |j: int| 0u8),
            decreases 0x10000 - i,
        {
            data.push(0);
            assert(data@ =~= Seq::<u8>::new((i + 1) as nat, |j: int| 0u8));
            i = i + 1;
        }
        assert(data@ =~= Seq::<u8>::new(0x10000, |j: int| 0u8));
        PlainMemory { data }
    }
}

impl MemoryRW for PlainMemory {
    open spec fn inv(&self) -> bool {
        self.data.len() == 0x10000
    }

    open spec fn mem(&self) -> Seq<u8> {
        self.data@
    }

    open spec fn write_ok(pre: Self, address: u16, data: u8, post: Self) -> bool {
        post.data@ == pre.data@.update(address as int, data)
    }

    fn read(&self, address: u16) -> (r: u8) {
        self.data[address as usize]
    }

    fn read16(&self, address: u16) -> (r: u16) {
        let low = self.data[address as usize];
        let high = self.data[address.wrapping_add(1) as usize];
        assert(address.wrapping_add(1) == wrap16(address + 1));
        low as u16 + high as u16 * 256
    }

    fn write(&mut self, address: u16, data: u8) {
        self.data[address as usize] = data;
    }
}


// The banked memory translator of the machine itself: the CPU's 16-bit
// logical space is mapped page by page onto one flat absolute byte array
// holding all ROM banks, cartridge RAM and system RAM as disjoint regions.

/// Absolute base of the page-0 ROM region.
pub const ABSOLUTE_PAGE_0_ROM_OFFSET: u32 = 0x000000;

/// Absolute base of the general ROM-bank region.
pub const ABSOLUTE_PAGE_X_ROM_OFFSET: u32 = 0x100000;

/// Absolute base of the cartridge RAM region.
pub const ABSOLUTE_CART_RAM_OFFSET: u32 = 0x200000;

/// Absolute base of the system RAM region.
pub const ABSOLUTE_SYS_RAM_OFFSET: u32 = 0x208000;

/// Bytes in one 8 KiB logical page.
pub const ABSOLUTE_SEGMENT_SIZE: u32 = 0x2000;

/// Total size of the absolute space.
pub const ABSOLUTE_MEMORY_SIZE: u32 = 0x20A000;

/// The page-base table after one write to a bank-select address; any other
/// address leaves the table alone.  Writes to 0xFFFD and 0xFFFE pick the ROM
/// bank visible at logical pages 0-1 and 2-3; writes to 0xFFFC and 0xFFFF
/// pick what is visible at pages 4-5, either a ROM bank or half of the
/// cartridge RAM.  Bank indices act modulo the 64 bank slots.
pub open spec fn mappings_after(
    maps: Seq<u32>,
    page_2: u8,
    ram_select: u8,
    address: u16,
    data: u8,
) -> Seq<u32> {
    if address == 0xFFFD {
        maps.update(0, ((data % 64) * 0x4000) as u32).update(
            1,
            (0x100000 + (data % 64) * 0x4000 + 0x2000) as u32,
        )
    } else if address == 0xFFFE {
        maps.update(2, (0x100000 + (data % 64) * 0x4000) as u32).update(
            3,
            (0x100000 + (data % 64) * 0x4000 + 0x2000) as u32,
        )
    } else if address == 0xFFFC || address == 0xFFFF {
        let select = if address == 0xFFFC {
            data
        } else {
            ram_select
        };
        let bank = if address == 0xFFFF {
            data
        } else {
            page_2
        };
        if select & 0x08 != 0 {
            if select & 0x04 != 0 {
                maps.update(4, 0x204000u32).update(5, 0x206000u32)
            } else {
                maps.update(4, 0x200000u32).update(5, 0x202000u32)
            }
        } else {
            maps.update(4, (0x100000 + (bank % 64) * 0x4000) as u32).update(
                5,
                (0x100000 + (bank % 64) * 0x4000 + 0x2000) as u32,
            )
        }
    } else {
        maps
    }
}

/// Maps the CPU's 16-bit logical address space onto the absolute space
/// using a table of absolute base offsets, one per logical page; writes to
/// the four bank-select addresses recompute table entries instead of only
/// storing a byte.
pub struct MemoryAbsolute {
    pub page_2: u8,
    pub ram_select: u8,
    pub upper_mappings: Vec<u32>,
    pub memory_map: Vec<u8>,
}

impl MemoryAbsolute {
    /// A powered-on translator: pages 0-5 spread over the general ROM
    /// region, pages 6-7 on system RAM, nothing loaded.
    pub fn new() -> (r: Self)
        ensures
            r.inv(),
            r.upper_mappings@ =~= seq![
                0u32,
                0x102000u32,
                0x104000u32,
                0x106000u32,
                0x108000u32,
                0x10A000u32,
                0x208000u32,
                0x208000u32,
            ],
            r.memory_map@.len() == 0x20A000,
            r.page_2 == 0,
            r.ram_select == 0,
    {
        let mut upper_mappings: Vec<u32> = Vec::new();
        upper_mappings.push(0x000000);
        upper_mappings.push(0x102000);
        upper_mappings.push(0x104000);
        upper_mappings.push(0x106000);
        upper_mappings.push(0x108000);
        upper_mappings.push(0x10A000);
        upper_mappings.push(0x208000);
        upper_mappings.push(0x208000);

        let mut memory_map: Vec<u8> = Vec::new();
        let mut i: usize = 0;
        while i < 0x20A000
            invariant
                i <= 0x20A000,
                memory_map@.len() == i,
            decreases 0x20A000 - i,
        {
            memory_map.push(0);
            i = i + 1;
        }
        MemoryAbsolute { page_2: 0, ram_select: 0, upper_mappings, memory_map }
    }

    /// The absolute address a logical address resolves to.
    pub fn get_absolute_address(&self, address: u16) -> (r: u32)
        requires
            self.inv(),
        ensures
            r == self.upper_mappings@[address as int / 0x2000] + address as int % 0x2000,
            r + 1 <= 0x20A000,
    {
        let page = (address / 0x2000) as usize;
        self.upper_mappings[page] + (address % 0x2000) as u32
    }

    /// Load a fresh cartridge image and reset the bank-select registers to
    /// their power-on defaults.
    pub fn reset(&mut self, cartridge: &Cartridge)
        requires
            old(self).inv(),
            cartridge.inv(),
        ensures
            final(self).inv(),
            reset_rel(*old(self), *cartridge, *final(self)),
    {
        self.populate_absolute_memory_map(cartridge);
        self.write(0xFFFC, 0);
        self.write(0xFFFD, 0);
        self.write(0xFFFE, 1);
        self.write(0xFFFF, 2);
        proof {
            assert(0u8 & 0x08u8 == 0) by (bit_vector);
            assert(self.upper_mappings@ =~= old(self).upper_mappings@.update(0, 0u32).update(
                1,
                0x102000u32,
            ).update(2, 0x104000u32).update(3, 0x106000u32).update(4, 0x108000u32).update(
                5,
                0x10A000u32,
            ));
        }
    }

    /// Copy every cartridge bank into its absolute-space slot: the general
    /// ROM region holds each bank verbatim, and the page-0 region holds the
    /// same except that its first kilobyte always shows bank 0.
    fn populate_absolute_memory_map(&mut self, cartridge: &Cartridge)
        requires
            old(self).inv(),
            cartridge.inv(),
        ensures
            final(self).inv(),
            populate_rel(*old(self), *cartridge, *final(self)),
    {
        let mut bank: usize = 0;
        while bank < 64
            invariant
                bank <= 64,
                self.inv(),
                cartridge.inv(),
                self.page_2 == old(self).page_2,
                self.ram_select == old(self).ram_select,
                self.upper_mappings@ == old(self).upper_mappings@,
                self.memory_map@.len() == old(self).memory_map@.len(),
                forall|a: int|
                    0x200000 <= a < 0x20A000 ==> #[trigger] self.memory_map@[a] == old(
                        self,
                    ).memory_map@[a],
                forall|b: int, i: int|
                    0 <= b < bank && 0 <= i < 0x4000 ==> #[trigger] self.memory_map@[0x100000 + b
                        * 0x4000 + i] == cartridge.bank_byte(b, i),
                forall|b: int, i: int|
                    0 <= b < bank && 0 <= i < 0x4000 ==> #[trigger] self.memory_map@[b * 0x4000
                        + i] == cartridge.bank_byte(
                        if i < 0x400 {
                            0
                        } else {
                            b
                        },
                        i,
                    ),
                forall|b: int, i: int|
                    bank <= b < 64 && 0 <= i < 0x4000 ==> #[trigger] self.memory_map@[0x100000 + b
                        * 0x4000 + i] == old(self).memory_map@[0x100000 + b * 0x4000 + i],
                forall|b: int, i: int|
                    bank <= b < 64 && 0 <= i < 0x4000 ==> #[trigger] self.memory_map@[b * 0x4000
                        + i] == old(self).memory_map@[b * 0x4000 + i],
            decreases 64 - bank,
        {
            let mut address: usize = 0;
            let base: usize = bank * 0x4000;
            while address < 0x4000
                invariant
                    address <= 0x4000,
                    bank < 64,
                    base == bank * 0x4000,
                    self.inv(),
                    cartridge.inv(),
                    self.page_2 == old(self).page_2,
                    self.ram_select == old(self).ram_select,
                    self.upper_mappings@ == old(self).upper_mappings@,
                    self.memory_map@.len() == old(self).memory_map@.len(),
                    forall|a: int|
                        0x200000 <= a < 0x20A000 ==> #[trigger] self.memory_map@[a] == old(
                            self,
                        ).memory_map@[a],
                    forall|b: int, i: int|
                        0 <= b < bank && 0 <= i < 0x4000 ==> #[trigger] self.memory_map@[0x100000
                            + b * 0x4000 + i] == cartridge.bank_byte(b, i),
                    forall|b: int, i: int|
                        0 <= b < bank && 0 <= i < 0x4000 ==> #[trigger] self.memory_map@[b * 0x4000
                            + i] == cartridge.bank_byte(
                            if i < 0x400 {
                                0
                            } else {
                                b
                            },
                            i,
                        ),
                    forall|i: int|
                        0 <= i < address ==> #[trigger] self.memory_map@[0x100000 + bank * 0x4000
                            + i] == cartridge.bank_byte(bank as int, i),
                    forall|i: int|
                        0 <= i < address ==> #[trigger] self.memory_map@[bank * 0x4000 + i]
                            == cartridge.bank_byte(
                            if i < 0x400 {
                                0
                            } else {
                                bank as int
                            },
                            i,
                        ),
                    forall|b: int, i: int|
                        bank < b < 64 && 0 <= i < 0x4000 ==> #[trigger] self.memory_map@[0x100000
                            + b * 0x4000 + i] == old(self).memory_map@[0x100000 + b * 0x4000 + i],
                    forall|i: int|
                        address <= i < 0x4000 ==> #[trigger] self.memory_map@[0x100000 + bank
                            * 0x4000 + i] == old(self).memory_map@[0x100000 + bank * 0x4000 + i],
                    forall|b: int, i: int|
                        bank < b < 64 && 0 <= i < 0x4000 ==> #[trigger] self.memory_map@[b * 0x4000
                            + i] == old(self).memory_map@[b * 0x4000 + i],
                    forall|i: int|
                        address <= i < 0x4000 ==> #[trigger] self.memory_map@[bank * 0x4000 + i]
                            == old(self).memory_map@[bank * 0x4000 + i],
                decreases 0x4000 - address,
            {
                let low_source: u8 = if address < 0x400 {
                    cartridge.read(0, address as u16)
                } else {
                    cartridge.read(bank as u8, address as u16)
                };
                let high_source: u8 = cartridge.read(bank as u8, address as u16);
                self.memory_map[base + address] = low_source;
                self.memory_map[0x100000 + base + address] = high_source;
                address = address + 1;
            }
            bank = bank + 1;
        }
    }
}

/// Relation between translator states across one cartridge-bank copy.
pub open spec fn populate_rel(pre: MemoryAbsolute, cart: Cartridge, post: MemoryAbsolute) -> bool {
    &&& post.page_2 == pre.page_2
    &&& post.ram_select == pre.ram_select
    &&& post.upper_mappings@ == pre.upper_mappings@
    &&& post.memory_map@.len() == pre.memory_map@.len()
    &&& (forall|a: int|
        0x200000 <= a < 0x20A000 ==> #[trigger] post.memory_map@[a] == pre.memory_map@[a])
    &&& (forall|b: int, i: int|
        0 <= b < 64 && 0 <= i < 0x4000 ==> #[trigger] post.memory_map@[0x100000 + b * 0x4000 + i]
            == cart.bank_byte(b, i))
    &&& (forall|b: int, i: int|
        0 <= b < 64 && 0 <= i < 0x4000 ==> #[trigger] post.memory_map@[b * 0x4000 + i]
            == cart.bank_byte(
            if i < 0x400 {
                0
            } else {
                b
            },
            i,
        ))
}

/// Relation between translator states across a cartridge reset: the image
/// is copied in and the four bank-select registers take their power-on
/// values 0, 0, 1, 2.
pub open spec fn reset_rel(pre: MemoryAbsolute, cart: Cartridge, post: MemoryAbsolute) -> bool {
    &&& post.page_2 == 2
    &&& post.ram_select == 0
    &&& post.upper_mappings@ =~= pre.upper_mappings@.update(0, 0u32).update(
        1,
        0x102000u32,
    ).update(2, 0x104000u32).update(3, 0x106000u32).update(4, 0x108000u32).update(5, 0x10A000u32)
    &&& post.memory_map@.len() == pre.memory_map@.len()
    &&& (forall|b: int, i: int|
        0 <= b < 64 && 0 <= i < 0x4000 ==> #[trigger] post.memory_map@[0x100000 + b * 0x4000 + i]
            == cart.bank_byte(b, i))
    &&& (forall|b: int, i: int|
        0 <= b < 64 && 0 <= i < 0x4000 ==> #[trigger] post.memory_map@[b * 0x4000 + i]
            == cart.bank_byte(
            if i < 0x400 {
                0
            } else {
                b
            },
            i,
        ))
    &&& (forall|a: int|
        0x200000 <= a < 0x20A000 && a != 0x209FFC && a != 0x209FFD && a != 0x209FFE && a
            != 0x209FFF ==> #[trigger] post.memory_map@[a] == pre.memory_map@[a])
    &&& post.memory_map@[0x209FFC] == 0
    &&& post.memory_map@[0x209FFD] == 0
    &&& post.memory_map@[0x209FFE] == 1
    &&& post.memory_map@[0x209FFF] == 2
}

impl MemoryRW for MemoryAbsolute {
    open spec fn inv(&self) -> bool {
        &&& self.upper_mappings@.len() == 8
        &&& self.memory_map@.len() == 0x20A000
        &&& (forall|i: int|
            0 <= i < 8 ==> (#[trigger] self.upper_mappings@[i]) + 0x2000 <= 0x20A000)
        &&& self.upper_mappings@[6] == 0x208000
        &&& self.upper_mappings@[7] == 0x208000
    }

    open spec fn mem(&self) -> Seq<u8> {
        Seq::new(
            0x10000,
            |a: int| self.memory_map@[self.upper_mappings@[a / 0x2000] + a % 0x2000],
        )
    }

    open spec fn write_ok(pre: Self, address: u16, data: u8, post: Self) -> bool {
        let maps = mappings_after(pre.upper_mappings@, pre.page_2, pre.ram_select, address, data);
        let absolute = maps[address as int / 0x2000] + address as int % 0x2000;
        &&& post.page_2 == (if address == 0xFFFF {
            data
        } else {
            pre.page_2
        })
        &&& post.ram_select == (if address == 0xFFFC {
            data
        } else {
            pre.ram_select
        })
        &&& post.upper_mappings@ == maps
        &&& post.memory_map@ == (if absolute >= 0x200000 {
            pre.memory_map@.update(absolute, data)
        } else {
            pre.memory_map@
        })
    }

    fn read(&self, address: u16) -> (r: u8) {
        let page = (address / 0x2000) as usize;
        let offset = (address % 0x2000) as u32;
        let absolute = self.upper_mappings[page] + offset;
        self.memory_map[absolute as usize]
    }

    fn read16(&self, address: u16) -> (r: u16) {
        let low = self.read(address);
        let high = self.read(address.wrapping_add(1));
        assert(address.wrapping_add(1) == wrap16(address + 1));
        low as u16 + high as u16 * 256
    }

    fn write(&mut self, address: u16, data: u8) {
        if address >= 0xFFFC {
            if address == 0xFFFD {
                let bank = (data % 64) as u32;
                self.upper_mappings[0] = bank * 0x4000;
                self.upper_mappings[1] = 0x100000 + bank * 0x4000 + 0x2000;
            } else if address == 0xFFFE {
                let bank = (data % 64) as u32;
                self.upper_mappings[2] = 0x100000 + bank * 0x4000;
                self.upper_mappings[3] = 0x100000 + bank * 0x4000 + 0x2000;
            } else {
                if address == 0xFFFC {
                    self.ram_select = data;
                } else {
                    self.page_2 = data;
                }
                if self.ram_select & 0x08 != 0 {
                    if self.ram_select & 0x04 != 0 {
                        self.upper_mappings[4] = 0x204000;
                        self.upper_mappings[5] = 0x206000;
                    } else {
                        self.upper_mappings[4] = 0x200000;
                        self.upper_mappings[5] = 0x202000;
                    }
                } else {
                    let bank = (self.page_2 % 64) as u32;
                    self.upper_mappings[4] = 0x100000 + bank * 0x4000;
                    self.upper_mappings[5] = 0x100000 + bank * 0x4000 + 0x2000;
                }
            }
        }
        let page = (address / 0x2000) as usize;
        let absolute = self.upper_mappings[page] + (address % 0x2000) as u32;
        if absolute >= 0x200000 {
            self.memory_map[absolute as usize] = data;
        }
    }
}


/// Bank switching law: after a cartridge reset, writing bank index `k` to
/// the page-1 select register 0xFFFE makes every logical address in that
/// page (0x4000 to 0x7FFF) read the same byte as directly indexing bank
/// `k` of the cartridge at the corresponding offset.  Bank indices act
/// modulo the 64 bank slots.
pub proof fn lemma_bank_switching(
    m0: MemoryAbsolute,
    m1: MemoryAbsolute,
    m2: MemoryAbsolute,
    cart: Cartridge,
    k: u8,
    address: u16,
)
    requires
        cart.inv(),
        m1.inv(),
        reset_rel(m0, cart, m1),
        MemoryAbsolute::write_ok(m1, 0xFFFE, k, m2),
        0x4000 <= address < 0x8000,
    ensures
        m2.mem()[address as int] == cart.bank_byte(k as int % 64, address - 0x4000),
{
    let maps2 = mappings_after(m1.upper_mappings@, m1.page_2, m1.ram_select, 0xFFFE, k);
    let page = address as int / 0x2000;
    let offset = address as int % 0x2000;
    vstd::arithmetic::div_mod::lemma_fundamental_div_mod(address as int, 0x2000);
    assert(page == 2 || page == 3);
    assert(maps2[2] == (0x100000 + (k % 64) * 0x4000) as u32);
    assert(maps2[3] == (0x100000 + (k % 64) * 0x4000 + 0x2000) as u32);
    let absolute = maps2[page] + offset;
    assert(absolute == 0x100000 + (k % 64) * 0x4000 + (address - 0x4000));
    // The write's own byte store lands in the system RAM mirror, far from
    // the ROM region read here.
    let store = maps2[7] + 0xFFFE as int % 0x2000;
    assert(maps2[7] == 0x208000);
    assert(m2.memory_map@ == m1.memory_map@.update(store, k));
    assert(m2.mem()[address as int] == m2.memory_map@[absolute]);
    assert(m2.memory_map@[absolute] == m1.memory_map@[absolute]);
    assert(m1.memory_map@[0x100000 + (k as int % 64) * 0x4000 + (address - 0x4000)]
        == cart.bank_byte(k as int % 64, address - 0x4000));
}

} // verus!
