use sms_core::cartridge::Cartridge;
use sms_core::memory::MemoryAbsolute;
use sms_core::memory::MemoryRW;

#[test]
fn test_simple_memory_check() {
    let memory = MemoryAbsolute::new();

    println!("Memory length: {}", memory.memory_map.len());
    println!("Memory size: {}", std::mem::size_of_val(&memory));
    println!("memory_map: {}", std::mem::size_of_val(&memory.memory_map));
    println!(
        "upper_mappings: {}",
        std::mem::size_of_val(&memory.upper_mappings)
    );
}

// A cartridge image whose every byte records which bank and offset it came
// from, so a read through the translator can be traced back.
fn traceable_image(banks: usize) -> Vec<u8> {
    let mut image: Vec<u8> = Vec::new();
    for bank in 0..banks {
        for offset in 0..0x4000usize {
            image.push(((bank * 31 + offset * 7) % 256) as u8);
        }
    }
    image
}

#[test]
fn test_bank_switching() {
    // Load a cartridge with four distinct banks, then map each one at
    // logical page 1 (0x4000..0x8000) in turn and compare every sampled
    // read against the cartridge's own bytes.
    let image = traceable_image(4);
    let mut cartridge = Cartridge::new();
    cartridge.load_banks(&image);

    let mut memory = MemoryAbsolute::new();
    memory.reset(&cartridge);

    for bank in [0u8, 1, 2, 3] {
        memory.write(0xFFFE, bank);
        for address in [0x4000u16, 0x4001, 0x5FFF, 0x6000, 0x7ABC, 0x7FFF] {
            let offset: u16 = address - 0x4000;
            assert_eq!(memory.read(address), cartridge.read(bank, offset));
        }
    }

    // Bank indices act modulo the bank-slot count: bank 65 reads as bank 1.
    memory.write(0xFFFE, 65);
    assert_eq!(memory.read(0x4123), cartridge.read(1, 0x123));

    // A bank past the image is zero-padded.
    memory.write(0xFFFE, 9);
    assert_eq!(memory.read(0x4000), 0);
}

#[test]
fn test_page_zero_mapping() {
    // The first kilobyte of logical page 0 always shows bank 0, whatever
    // the page-0 select register holds.
    let image = traceable_image(3);
    let mut cartridge = Cartridge::new();
    cartridge.load_banks(&image);

    let mut memory = MemoryAbsolute::new();
    memory.reset(&cartridge);

    memory.write(0xFFFD, 2);
    assert_eq!(memory.read(0x0000), cartridge.read(0, 0));
    assert_eq!(memory.read(0x03FF), cartridge.read(0, 0x03FF));
    assert_eq!(memory.read(0x0400), cartridge.read(2, 0x0400));
    assert_eq!(memory.read(0x3FFF), cartridge.read(2, 0x3FFF));
}

#[test]
fn test_ram_write_and_rom_protection() {
    let image = traceable_image(2);
    let mut cartridge = Cartridge::new();
    cartridge.load_banks(&image);

    let mut memory = MemoryAbsolute::new();
    memory.reset(&cartridge);

    // System RAM accepts writes, and its mirror shows them.
    memory.write(0xC123, 0x5A);
    assert_eq!(memory.read(0xC123), 0x5A);
    assert_eq!(memory.read(0xE123), 0x5A);

    // A write aimed at the ROM region is dropped.
    let rom_byte = memory.read(0x0123);
    memory.write(0x0123, rom_byte.wrapping_add(1));
    assert_eq!(memory.read(0x0123), rom_byte);

    // 16-bit reads compose little-endian.
    memory.write(0xC200, 0x34);
    memory.write(0xC201, 0x12);
    assert_eq!(memory.read16(0xC200), 0x1234);
}

#[test]
fn test_cartridge_ram_select() {
    let image = traceable_image(2);
    let mut cartridge = Cartridge::new();
    cartridge.load_banks(&image);

    let mut memory = MemoryAbsolute::new();
    memory.reset(&cartridge);

    // Map cartridge RAM at logical page 2 and check it holds writes.
    memory.write(0xFFFC, 0x08);
    memory.write(0x8010, 0x77);
    assert_eq!(memory.read(0x8010), 0x77);

    // Back to ROM banking: page 2 shows the bank named by 0xFFFF again.
    memory.write(0xFFFC, 0x00);
    memory.write(0xFFFF, 1);
    assert_eq!(memory.read(0x8010), cartridge.read(1, 0x0010));
}
