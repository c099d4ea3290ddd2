use vstd::prelude::*;

verus! {

/// Bytes in one cartridge bank.
pub const BANK_SIZE: u16 = 0x4000;

/// Number of bank slots a cartridge image is split into; a short image is
/// zero-padded.
pub const MAX_BANKS: u8 = 64;

/// A cartridge image: an ordered sequence of fixed-size 16 KiB banks.
pub struct Cartridge {
    pub num_banks: u8,
    pub banks: Vec<Vec<u8>>,
}

impl Cartridge {
    /// The bank table always holds all 64 slots, each one bank-sized.
    pub open spec fn inv(&self) -> bool {
        &&& self.banks@.len() == 64
        &&& forall|b: int| 0 <= b < 64 ==> (#[trigger] self.banks@[b])@.len() == 0x4000
    }

    /// The byte at `address` within `bank`.
    pub open spec fn bank_byte(&self, bank: int, address: int) -> u8 {
        self.banks@[bank]@[address]
    }

    /// An empty cartridge: all bank slots zero-filled.
    pub fn new() -> (r: Self)
        ensures
            r.inv(),
            r.num_banks == 0,
            forall|b: int, i: int|
                0 <= b < 64 && 0 <= i < 0x4000 ==> #[trigger] r.bank_byte(b, i) == 0,
    {
        let mut banks: Vec<Vec<u8>> = Vec::new();
        let mut b: usize = 0;
        while b < 64
            invariant
                b <= 64,
                banks@.len() == b,
                forall|j: int| 0 <= j < b ==> (#[trigger] banks@[j])@.len() == 0x4000,
                forall|j: int, i: int|
                    0 <= j < b && 0 <= i < 0x4000 ==> #[trigger] banks@[j]@[i] == 0,
            decreases 64 - b,
        {
            banks.push(zero_bank());
            b = b + 1;
        }
        Cartridge { num_banks: 0, banks }
    }

    /// Split a raw image into banks: bank `b` holds the image bytes from
    /// `b * 0x4000` on, zero-padded where the image runs out.
    pub fn load_banks(&mut self, source: &Vec<u8>)
        ensures
            final(self).inv(),
            final(self).num_banks == 64,
            forall|b: int, i: int|
                0 <= b < 64 && 0 <= i < 0x4000 ==> #[trigger] final(self).bank_byte(b, i) == (if b
                    * 0x4000 + i < source@.len() {
                    source@[b * 0x4000 + i]
                } else {
                    0
                }),
    {
        let mut banks: Vec<Vec<u8>> = Vec::new();
        let mut b: usize = 0;
        while b < 64
            invariant
                b <= 64,
                banks@.len() == b,
                forall|j: int| 0 <= j < b ==> (#[trigger] banks@[j])@.len() == 0x4000,
                forall|j: int, i: int|
                    0 <= j < b && 0 <= i < 0x4000 ==> #[trigger] banks@[j]@[i] == (if j * 0x4000
                        + i < source@.len() {
                        source@[j * 0x4000 + i]
                    } else {
                        0
                    }),
            decreases 64 - b,
        {
            let mut bank: Vec<u8> = Vec::new();
            let base: usize = b * 0x4000;
            let mut i: usize = 0;
            while i < 0x4000
                invariant
                    i <= 0x4000,
                    base == b * 0x4000,
                    b < 64,
                    bank@.len() == i,
                    forall|k: int|
                        0 <= k < i ==> (#[trigger] bank@[k]) == (if base + k < source@.len() {
                            source@[base + k]
                        } else {
                            0
                        }),
                decreases 0x4000 - i,
            {
                if base + i < source.len() {
                    let byte = source[base + i];
                    bank.push(byte);
                } else {
                    bank.push(0);
                }
                i = i + 1;
            }
            banks.push(bank);
            b = b + 1;
        }
        self.banks = banks;
        self.num_banks = 64;
    }

    /// The byte at `bank_address` within `bank`.
    pub fn read(&self, bank: u8, bank_address: u16) -> (r: u8)
        requires
            self.inv(),
            bank < 64,
            bank_address < 0x4000,
        ensures
            r == self.bank_byte(bank as int, bank_address as int),
    {
        self.banks[bank as usize][bank_address as usize]
    }
}

/// One zero-filled bank.
fn zero_bank() -> (r: Vec<u8>)
    ensures
        r@.len() == 0x4000,
        forall|i: int| 0 <= i < 0x4000 ==> (#[trigger] r@[i]) == 0,
{
    let mut bank: Vec<u8> = Vec::new();
    let mut i: usize = 0;
    while i < 0x4000
        invariant
            i <= 0x4000,
            bank@.len() == i,
            forall|k: int| 0 <= k < i ==> (#[trigger] bank@[k]) == 0,
        decreases 0x4000 - i,
    {
        bank.push(0);
        i = i + 1;
    }
    bank
}

} // verus!
